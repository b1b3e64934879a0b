//! Deleting a document with everything below it: an initiative goes with its
//! whole folder, any other document alone.

use vstd::prelude::*;
use crate::filesystem::{FilesystemService, StorageBackend};
use crate::paths::{file_name, parent, path_file_name, path_parent};
use crate::text::{chars_of, str_is};

verus! {

/// Deletes documents through a filesystem service.
pub struct DeletionService {
    fs: FilesystemService,
}

/// What a deletion removed.
#[derive(Debug)]
pub struct DeletionResult {
    pub deleted_files: Vec<String>,
    pub cleaned_directories: Vec<String>,
}

/// What deleting a document file removes.
#[derive(Debug, PartialEq, Eq)]
pub enum DeletionTarget {
    /// The folder of an initiative, with everything in it.
    Folder(String),
    /// The file alone.
    File(String),
}

/// An initiative document (named `initiative.md`) is deleted with its folder;
/// any other file alone.
pub open spec fn deletion_target_of(path: Seq<char>) -> (bool, Seq<char>) {
    if path_file_name(path) == Some("initiative.md"@) && path_parent(path) is Some {
        (true, path_parent(path)->0)
    } else {
        (false, path)
    }
}

impl DeletionService {
    /// The filesystem service the deletions go through.
    pub closed spec fn storage(&self) -> StorageBackend {
        self.fs.storage()
    }

    /// A service that deletes on the local disk.
    pub fn new() -> (res: Self)
        ensures
            res.storage() == StorageBackend::Local,
    {
        DeletionService { fs: FilesystemService::local() }
    }

    /// A service for a workspace, using the overlay off the main branch (see
    /// `FilesystemService::new`).
    pub fn new_for_workspace(workspace_dir: &str, on_main: Option<bool>) -> (res: Self)
        ensures
            (res.storage() is GitOverlay) == (on_main == Some(false)),
    {
        DeletionService { fs: FilesystemService::new(workspace_dir, on_main) }
    }

    /// What deleting the document at `filepath` removes.
    pub fn target_for(&self, filepath: &str) -> (res: DeletionTarget)
        ensures
            match res {
                DeletionTarget::Folder(d) => deletion_target_of(filepath@) == (true, d@),
                DeletionTarget::File(f) => deletion_target_of(filepath@) == (false, f@),
            },
    {
        if let Some(name) = file_name(filepath) {
            if str_is(name.as_str(), &chars_of("initiative.md")) {
                if let Some(dir) = parent(filepath) {
                    return DeletionTarget::Folder(dir);
                }
            }
        }
        DeletionTarget::File(filepath.to_owned())
    }

    /// Whether a deleted folder is also removed from the disk: only with the
    /// local backend (the overlay records deletions as tombstones).
    pub fn removes_folder_from_disk(&self) -> (res: bool)
        ensures
            res == (self.storage() == StorageBackend::Local),
    {
        !self.fs.is_git_overlay()
    }

    /// What a deletion reports, given whether the document's file existed, what
    /// it targets, the files it went on to delete (`None` when the folder could not
    /// be listed; the file itself for a single-file target) and which of those
    /// deletions succeeded: nothing for a missing file; otherwise the files whose
    /// deletion succeeded, in order, and a listed folder as cleaned.
    pub fn report(&self, existed: bool, target: &DeletionTarget, files: Option<Vec<String>>, succeeded: &Vec<bool>)
        -> (res: DeletionResult)
        requires
            files matches Some(l) ==> succeeded@.len() == l@.len(),
        ensures
            res.deleted_files.deep_view() == (match files {
                Some(l) => if existed { kept_where(l.deep_view(), succeeded@) } else { Seq::empty() },
                None => Seq::empty(),
            }),
            res.cleaned_directories.deep_view() == (match (files, target) {
                (Some(_), DeletionTarget::Folder(d)) => if existed { seq![d@] } else { Seq::empty() },
                _ => Seq::empty(),
            }),
    {
        let mut deleted: Vec<String> = Vec::new();
        let mut cleaned: Vec<String> = Vec::new();
        if !existed {
            proof {
                assert(deleted.deep_view() =~= Seq::<Seq<char>>::empty());
                assert(cleaned.deep_view() =~= Seq::<Seq<char>>::empty());
            }
            return DeletionResult { deleted_files: deleted, cleaned_directories: cleaned };
        }
        match files {
            None => {
                proof {
                    assert(deleted.deep_view() =~= Seq::<Seq<char>>::empty());
                    assert(cleaned.deep_view() =~= Seq::<Seq<char>>::empty());
                }
                DeletionResult { deleted_files: deleted, cleaned_directories: cleaned }
            },
            Some(list) => {
                let ghost lv = list.deep_view();
                let mut i: usize = 0;
                assert(deleted.deep_view() =~= kept_where(lv.take(0), succeeded@.take(0)));
                while i < list.len()
                    invariant
                        i <= list@.len() == succeeded@.len(),
                        lv == list.deep_view(),
                        deleted.deep_view() == kept_where(lv.take(i as int), succeeded@.take(i as int)),
                    decreases list@.len() - i,
                {
                    assert(lv.take(i + 1).drop_last() =~= lv.take(i as int));
                    assert(succeeded@.take(i + 1).drop_last() =~= succeeded@.take(i as int));
                    assert(lv[i as int] == list@[i as int]@);
                    if succeeded[i] {
                        let ghost before = deleted@;
                        let f = list[i].as_str().to_owned();
                        deleted.push(f);
                        assert(deleted@ == before.push(f));
                        assert(deleted.deep_view() =~= kept_where(lv.take(i as int), succeeded@.take(i as int)).push(f@));
                    }
                    i = i + 1;
                }
                assert(lv.take(lv.len() as int) =~= lv);
                assert(succeeded@.take(succeeded@.len() as int) =~= succeeded@);
                match target {
                    DeletionTarget::Folder(d) => {
                        cleaned.push(d.as_str().to_owned());
                        assert(cleaned.deep_view() =~= seq![d@]);
                    },
                    DeletionTarget::File(_) => {
                        assert(cleaned.deep_view() =~= Seq::<Seq<char>>::empty());
                    },
                }
                DeletionResult { deleted_files: deleted, cleaned_directories: cleaned }
            },
        }
    }
}

/// The entries of `files` whose flag in `ok` is set, in order.
pub open spec fn kept_where(files: Seq<Seq<char>>, ok: Seq<bool>) -> Seq<Seq<char>>
    decreases files.len(),
{
    if files.len() == 0 || ok.len() == 0 {
        Seq::empty()
    } else {
        let rest = kept_where(files.drop_last(), ok.drop_last());
        if ok.last() {
            rest.push(files.last())
        } else {
            rest
        }
    }
}

} // verus!
