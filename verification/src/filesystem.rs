//! Where workspace files are read from and written to. Outside a git branch
//! other than main the files live on disk as they are; on another branch
//! reads come from main's tree, writes go to a pending overlay folder, and a
//! deletion leaves a tombstone there.

use vstd::prelude::*;
use sha2::Digest;
use crate::order::{insert_sorted_unique, strictly_sorted};
use crate::paths::{concat_chars, join, path_join, path_strip_prefix, strip_prefix, path_file_name, file_name};
use crate::text::{chars_ends_with, chars_eq, chars_of, ends_with, opt_view, string_from_chars};

verus! {

/// Where the workspace files are stored.
#[derive(Clone, Debug, PartialEq, Eq)]
pub enum StorageBackend {
    /// The files on disk, read and written directly.
    Local,
    /// Reads from main's committed tree, writes to a pending overlay folder.
    GitOverlay {
        /// The `.metis` workspace folder.
        workspace_dir: String,
        /// The folder that holds pending writes and tombstones.
        overlay_dir: String,
    },
}

/// Reads and writes workspace files through a storage backend.
pub struct FilesystemService {
    backend: StorageBackend,
}

/// The name of the overlay folder inside the workspace.
pub open spec fn pending_dir_name() -> Seq<char> {
    ".pending"@
}

/// The backend for a workspace: the overlay when the workspace lies in a git
/// repository whose checked-out branch is not main, else the local disk.
pub open spec fn backend_for(workspace: Seq<char>, on_main: Option<bool>) -> Option<(Seq<char>, Seq<char>)> {
    if on_main == Some(false) {
        Some((workspace, path_join(workspace, pending_dir_name())))
    } else {
        None
    }
}

/// The tombstone that marks `path` as deleted in the overlay: the path with
/// `.deleted` added after its extension (or after its name when it has none).
pub open spec fn tombstone_of(path: Seq<char>) -> Seq<char> {
    path + ".deleted"@
}

/// A path whose last component is a plain file name, as overlay paths are.
pub open spec fn names_a_file(path: Seq<char>) -> bool {
    &&& path.len() > 0
    &&& path.last() != '/'
    &&& path_file_name(path) is Some
    &&& path_file_name(path)->0 != "."@
    &&& path_file_name(path)->0 != ".."@
}

/// The SHA-256 digest of the UTF-8 bytes of `content`, written as lowercase hex.
pub uninterp spec fn sha256_hex(content: Seq<char>) -> Seq<char>;

/// A lowercase hexadecimal digit.
pub open spec fn is_lower_hex(c: char) -> bool {
    ('0' <= c && c <= '9') || ('a' <= c && c <= 'f')
}

/// Hashes the UTF-8 bytes of `content` with sha2's `Sha256::digest` and formats
/// the digest with `{:x}`: the result is named by `sha256_hex`, and the digest's
/// 32 bytes give 64 lowercase hex digits.
#[verifier::external_body]
fn sha256_lower_hex(content: &str) -> (res: String)
    ensures
        res@ == sha256_hex(content@),
        res@.len() == 64,
        forall|i: int| 0 <= i < res@.len() ==> is_lower_hex(#[trigger] res@[i]),
{
    format!("{:x}", sha2::Sha256::digest(content.as_bytes()))
}

impl FilesystemService {
    /// The backend of this service.
    pub closed spec fn storage(&self) -> StorageBackend {
        self.backend
    }

    /// A service for the workspace at `workspace_path`. `on_main` tells whether
    /// the workspace lies in a git repository with a main (or master) branch and,
    /// if so, whether that branch is checked out: the overlay backend, with the
    /// overlay in `.pending` inside the workspace, is used off main.
    pub fn new(workspace_path: &str, on_main: Option<bool>) -> (res: Self)
        ensures
            match backend_for(workspace_path@, on_main) {
                Some((w, o)) => res.storage() matches StorageBackend::GitOverlay { workspace_dir, overlay_dir }
                    && workspace_dir@ == w && overlay_dir@ == o,
                None => res.storage() == StorageBackend::Local,
            },
    {
        match on_main {
            Some(false) => FilesystemService {
                backend: StorageBackend::GitOverlay {
                    workspace_dir: workspace_path.to_owned(),
                    overlay_dir: join(workspace_path, ".pending"),
                },
            },
            _ => FilesystemService { backend: StorageBackend::Local },
        }
    }

    /// A service that works on the local disk.
    pub fn local() -> (res: Self)
        ensures
            res.storage() == StorageBackend::Local,
    {
        FilesystemService { backend: StorageBackend::Local }
    }

    /// The backend of this service.
    pub fn backend(&self) -> (res: &StorageBackend)
        ensures
            *res == self.storage(),
    {
        &self.backend
    }

    /// Whether this service uses the git overlay.
    pub fn is_git_overlay(&self) -> (res: bool)
        ensures
            res == (self.storage() is GitOverlay),
    {
        match &self.backend {
            StorageBackend::GitOverlay { .. } => true,
            StorageBackend::Local => false,
        }
    }

    /// Where a write to `path` goes in the overlay: the part of `path` below the
    /// workspace (compared in canonical form first, as given otherwise) joined to
    /// the overlay folder. `None` for the local backend and for paths outside the
    /// workspace.
    pub fn to_overlay_path(&self, path: &str, canonical_path: &str, canonical_workspace: &str) -> (res: Option<String>)
        ensures
            match self.storage() {
                StorageBackend::Local => res is None,
                StorageBackend::GitOverlay { workspace_dir, overlay_dir } => {
                    let rel = match path_strip_prefix(canonical_path@, canonical_workspace@) {
                        Some(r) => Some(r),
                        None => path_strip_prefix(path@, workspace_dir@),
                    };
                    match rel {
                        Some(r) => res is Some && res->0@ == path_join(overlay_dir@, r),
                        None => res is None,
                    }
                },
            },
    {
        match &self.backend {
            StorageBackend::Local => None,
            StorageBackend::GitOverlay { workspace_dir, overlay_dir } => {
                let rel = match strip_prefix(canonical_path, canonical_workspace) {
                    Some(r) => Some(r),
                    None => strip_prefix(path, workspace_dir.as_str()),
                };
                match rel {
                    Some(r) => Some(join(overlay_dir.as_str(), r.as_str())),
                    None => None,
                }
            },
        }
    }

    /// The tree path of `path` in the repository: `path` below the repository
    /// root, else below the folder that holds the workspace (all in canonical
    /// form). `None` for the local backend.
    pub fn to_tree_path(&self, canonical_path: &str, canonical_repo_root: &str, canonical_workspace_parent: Option<&str>)
        -> (res: Option<String>)
        ensures
            match self.storage() {
                StorageBackend::Local => res is None,
                StorageBackend::GitOverlay { .. } => opt_view(res) == match path_strip_prefix(canonical_path@, canonical_repo_root@) {
                    Some(r) => Some(r),
                    None => match canonical_workspace_parent {
                        Some(p) => path_strip_prefix(canonical_path@, p@),
                        None => None,
                    },
                },
            },
    {
        match &self.backend {
            StorageBackend::Local => None,
            StorageBackend::GitOverlay { .. } => match strip_prefix(canonical_path, canonical_repo_root) {
                Some(r) => Some(r),
                None => match canonical_workspace_parent {
                    Some(p) => strip_prefix(canonical_path, p),
                    None => None,
                },
            },
        }
    }

    /// Whether a file of the workspace exists as the overlay backend sees it:
    /// not tombstoned, and present in the overlay or in main's tree. The local
    /// backend goes by the file on disk alone.
    pub fn exists_given(&self, on_disk: bool, tombstoned: bool, in_overlay: bool, in_main_tree: bool) -> (res: bool)
        ensures
            res == match self.storage() {
                StorageBackend::Local => on_disk,
                StorageBackend::GitOverlay { .. } => !tombstoned && (in_overlay || in_main_tree),
            },
    {
        match &self.backend {
            StorageBackend::Local => on_disk,
            StorageBackend::GitOverlay { .. } => !tombstoned && (in_overlay || in_main_tree),
        }
    }

    /// The SHA-256 digest of `content`, as 64 lowercase hex digits.
    pub fn compute_content_hash(content: &str) -> (res: String)
        ensures
            res@ == sha256_hex(content@),
            res@.len() == 64,
            forall|i: int| 0 <= i < res@.len() ==> is_lower_hex(#[trigger] res@[i]),
    {
        sha256_lower_hex(content)
    }
}

/// Whether `path` names a file in the way a tombstone can be formed from it
/// (see `names_a_file`).
pub fn names_a_file_path(path: &str) -> (res: bool)
    ensures
        res == names_a_file(path@),
{
    let cs = chars_of(path);
    if cs.len() == 0 || cs[cs.len() - 1] == '/' {
        return false;
    }
    match file_name(path) {
        Some(f) => !chars_eq(&chars_of(f.as_str()), &chars_of(".")) && !chars_eq(&chars_of(f.as_str()), &chars_of("..")),
        None => false,
    }
}

/// Where a read of a workspace file is served from.
#[derive(Debug, PartialEq, Eq, Structural)]
pub enum ReadSource {
    /// The file on disk (local backend).
    Disk,
    /// Nowhere: the file was deleted in the overlay.
    Deleted,
    /// The overlay's copy, which takes precedence over main's tree.
    Overlay,
    /// Main's committed tree.
    MainTree,
}

/// What a write must do besides writing the content.
#[derive(Debug, PartialEq, Eq, Structural)]
pub struct WritePlan {
    /// The content goes to the overlay path rather than to the path itself.
    pub to_overlay: bool,
    /// A tombstone of the file must be removed first.
    pub remove_tombstone: bool,
}

/// What a deletion must do.
#[derive(Debug, PartialEq, Eq, Structural)]
pub struct DeletePlan {
    /// Remove the file itself from disk (local backend).
    pub remove_from_disk: bool,
    /// Remove the overlay's copy.
    pub remove_overlay: bool,
    /// Leave a tombstone so that reads do not fall through to main's tree.
    pub write_tombstone: bool,
}

impl FilesystemService {
    /// Where a read is served from (see `read_source`).
    pub open spec fn read_source_of(&self, tombstoned: bool, overlay_exists: bool) -> ReadSource {
        match self.storage() {
            StorageBackend::Local => ReadSource::Disk,
            StorageBackend::GitOverlay { .. } => if tombstoned {
                ReadSource::Deleted
            } else if overlay_exists {
                ReadSource::Overlay
            } else {
                ReadSource::MainTree
            },
        }
    }

    /// What a write does (see `write_plan`).
    pub open spec fn write_plan_of(&self, tombstone_exists: bool) -> WritePlan {
        match self.storage() {
            StorageBackend::Local => WritePlan { to_overlay: false, remove_tombstone: false },
            StorageBackend::GitOverlay { .. } => WritePlan { to_overlay: true, remove_tombstone: tombstone_exists },
        }
    }

    /// What a deletion does (see `delete_plan`).
    pub open spec fn delete_plan_of(&self, overlay_exists: bool) -> DeletePlan {
        match self.storage() {
            StorageBackend::Local => DeletePlan { remove_from_disk: true, remove_overlay: false, write_tombstone: false },
            StorageBackend::GitOverlay { .. } => DeletePlan {
                remove_from_disk: false,
                remove_overlay: overlay_exists,
                write_tombstone: true,
            },
        }
    }

    /// The overlay's state of a file, (tombstoned, held in the overlay), after a
    /// write carried out by `write_plan_of`.
    pub open spec fn after_write(&self, st: (bool, bool)) -> (bool, bool) {
        let plan = self.write_plan_of(st.0);
        if plan.to_overlay {
            (st.0 && !plan.remove_tombstone, true)
        } else {
            st
        }
    }

    /// The overlay's state of a file after a deletion carried out by `delete_plan_of`.
    pub open spec fn after_delete(&self, st: (bool, bool)) -> (bool, bool) {
        let plan = self.delete_plan_of(st.1);
        (st.0 || plan.write_tombstone, st.1 && !plan.remove_overlay)
    }

    /// Where a read is served from, given whether the file's tombstone and its
    /// overlay copy exist: the disk for the local backend; otherwise nowhere
    /// when tombstoned, else the overlay when it holds the file, else main's tree.
    pub fn read_source(&self, tombstoned: bool, overlay_exists: bool) -> (res: ReadSource)
        ensures
            res == self.read_source_of(tombstoned, overlay_exists),
    {
        match &self.backend {
            StorageBackend::Local => ReadSource::Disk,
            StorageBackend::GitOverlay { .. } => if tombstoned {
                ReadSource::Deleted
            } else if overlay_exists {
                ReadSource::Overlay
            } else {
                ReadSource::MainTree
            },
        }
    }

    /// What a write does, given whether a tombstone of the file exists: the
    /// overlay backend writes to the overlay and removes the tombstone; the local
    /// backend writes the file itself.
    pub fn write_plan(&self, tombstone_exists: bool) -> (res: WritePlan)
        ensures
            res == self.write_plan_of(tombstone_exists),
    {
        match &self.backend {
            StorageBackend::Local => WritePlan { to_overlay: false, remove_tombstone: false },
            StorageBackend::GitOverlay { .. } => WritePlan { to_overlay: true, remove_tombstone: tombstone_exists },
        }
    }

    /// What a deletion does, given whether the overlay holds the file: the local
    /// backend removes the file; the overlay backend removes the overlay copy if
    /// there is one and always leaves a tombstone.
    pub fn delete_plan(&self, overlay_exists: bool) -> (res: DeletePlan)
        ensures
            res == self.delete_plan_of(overlay_exists),
    {
        match &self.backend {
            StorageBackend::Local => DeletePlan { remove_from_disk: true, remove_overlay: false, write_tombstone: false },
            StorageBackend::GitOverlay { .. } => DeletePlan {
                remove_from_disk: false,
                remove_overlay: overlay_exists,
                write_tombstone: true,
            },
        }
    }
}

/// Read after write on the overlay: whatever state a file was in, after a
/// write a read is served from the overlay's copy, and after a deletion a read
/// finds nothing; a write after a deletion makes the file readable again.
pub proof fn law_overlay_read_after_write(svc: FilesystemService, st: (bool, bool))
    requires
        svc.storage() is GitOverlay,
    ensures
        ({
            let w = svc.after_write(st);
            svc.read_source_of(w.0, w.1) == ReadSource::Overlay
        }),
        ({
            let d = svc.after_delete(st);
            svc.read_source_of(d.0, d.1) == ReadSource::Deleted
        }),
        ({
            let dw = svc.after_write(svc.after_delete(st));
            svc.read_source_of(dw.0, dw.1) == ReadSource::Overlay
        }),
{
}

/// The tombstone path for an overlay path.
pub fn tombstone_path(overlay_path: &str) -> (res: String)
    requires
        names_a_file(overlay_path@),
    ensures
        res@ == tombstone_of(overlay_path@),
{
    string_from_chars(&concat_chars(&chars_of(overlay_path), &chars_of(".deleted")))
}

/// Whether a file met while walking the overlay is listed as a markdown
/// document: not a tombstone, a `.md` file, and not the code index.
pub open spec fn overlay_file_listed(name: Seq<char>) -> bool {
    !ends_with(name, ".deleted"@) && ends_with(name, ".md"@) && name != "code-index.md"@
}

/// Whether a file met on the local disk is listed as a markdown document.
pub open spec fn local_file_listed(path: Seq<char>, name: Seq<char>) -> bool {
    ends_with(path, ".md"@) && name != "code-index.md"@
}

/// The tree prefix under which main's tree is searched for a folder: the folder
/// below the repository root, ending in `/` unless empty; empty when the folder
/// is outside the repository.
pub open spec fn tree_prefix_of(dir: Seq<char>, repo_root: Seq<char>) -> Seq<char> {
    match path_strip_prefix(dir, repo_root) {
        Some(r) => if r.len() == 0 || r.last() == '/' { r } else { r + "/"@ },
        None => Seq::empty(),
    }
}

/// Whether a file on the local disk is listed as a markdown document: its path
/// ends in `.md` and it is not the code index.
pub fn lists_local_file(path: &str, name: &str) -> (res: bool)
    ensures
        res == local_file_listed(path@, name@),
{
    chars_ends_with(&chars_of(path), &chars_of(".md")) && !chars_eq(&chars_of(name), &chars_of("code-index.md"))
}

/// The tree prefix under which main's tree is searched for the folder `dir`.
pub fn tree_prefix(dir: &str, repo_root: &str) -> (res: String)
    ensures
        res@ == tree_prefix_of(dir@, repo_root@),
{
    match strip_prefix(dir, repo_root) {
        Some(r) => {
            let rc = chars_of(r.as_str());
            if rc.len() == 0 || rc[rc.len() - 1] == '/' {
                r
            } else {
                string_from_chars(&concat_chars(&rc, &chars_of("/")))
            }
        },
        None => String::new(),
    }
}

impl FilesystemService {
    /// The overlay folder that mirrors `dir`: `dir` below the workspace joined to
    /// the overlay folder, or the overlay folder itself when `dir` is outside the
    /// workspace. `None` for the local backend.
    pub fn overlay_folder_for(&self, dir: &str) -> (res: Option<String>)
        ensures
            match self.storage() {
                StorageBackend::Local => res is None,
                StorageBackend::GitOverlay { workspace_dir, overlay_dir } => res is Some && res->0@ == match path_strip_prefix(dir@, workspace_dir@) {
                    Some(r) => path_join(overlay_dir@, r),
                    None => overlay_dir@,
                },
            },
    {
        match &self.backend {
            StorageBackend::Local => None,
            StorageBackend::GitOverlay { workspace_dir, overlay_dir } => match strip_prefix(dir, workspace_dir.as_str()) {
                Some(r) => Some(join(overlay_dir.as_str(), r.as_str())),
                None => Some(overlay_dir.clone()),
            },
        }
    }

    /// The workspace path that a file met in the overlay stands for, when it is
    /// listed: the file's path below the overlay folder joined to the workspace.
    /// `None` for tombstones, files other than markdown documents, files outside
    /// the overlay folder, and the local backend.
    pub fn overlay_entry_to_real(&self, entry_path: &str, name: &str) -> (res: Option<String>)
        ensures
            match self.storage() {
                StorageBackend::Local => res is None,
                StorageBackend::GitOverlay { workspace_dir, overlay_dir } => opt_view(res) == if overlay_file_listed(name@) {
                    match path_strip_prefix(entry_path@, overlay_dir@) {
                        Some(r) => Some(path_join(workspace_dir@, r)),
                        None => None,
                    }
                } else {
                    None
                },
            },
    {
        match &self.backend {
            StorageBackend::Local => None,
            StorageBackend::GitOverlay { workspace_dir, overlay_dir } => {
                let n = chars_of(name);
                if chars_ends_with(&n, &chars_of(".deleted")) || !chars_ends_with(&n, &chars_of(".md"))
                    || chars_eq(&n, &chars_of("code-index.md")) {
                    return None;
                }
                match strip_prefix(entry_path, overlay_dir.as_str()) {
                    Some(r) => Some(join(workspace_dir.as_str(), r.as_str())),
                    None => None,
                }
            },
        }
    }
}

/// The markdown files of a folder as the overlay backend lists them: the files
/// of main's tree below the repository root, less the tombstoned ones, together
/// with the files written to the overlay, each once, in sorted order.
pub fn merge_listing(repo_root: &str, tree_files: &Vec<String>, tombstoned: &Vec<bool>, overlay_files: &Vec<String>)
    -> (res: Vec<String>)
    requires
        tombstoned@.len() == tree_files@.len(),
    ensures
        strictly_sorted(res.deep_view()),
        forall|x: Seq<char>| res.deep_view().contains(x) <==> (
            (exists|k: int| 0 <= k < tree_files@.len() && !tombstoned@[k] && x == path_join(repo_root@, #[trigger] tree_files@[k]@))
            || (exists|j: int| 0 <= j < overlay_files@.len() && x == #[trigger] overlay_files@[j]@)),
{
    let mut out: Vec<String> = Vec::new();
    let mut k: usize = 0;
    while k < tree_files.len()
        invariant
            k <= tree_files@.len() == tombstoned@.len(),
            strictly_sorted(out.deep_view()),
            forall|x: Seq<char>| out.deep_view().contains(x) <==>
                (exists|i: int| 0 <= i < k && !tombstoned@[i] && x == path_join(repo_root@, #[trigger] tree_files@[i]@)),
        decreases tree_files@.len() - k,
    {
        if !tombstoned[k] {
            let p = join(repo_root, tree_files[k].as_str());
            let ghost pv = p@;
            insert_sorted_unique(&mut out, p);
            proof {
                assert forall|x: Seq<char>| out.deep_view().contains(x) <==>
                    (exists|i: int| 0 <= i < k + 1 && !tombstoned@[i] && x == path_join(repo_root@, #[trigger] tree_files@[i]@)) by {
                    if x == pv {
                        assert(x == path_join(repo_root@, tree_files@[k as int]@));
                    }
                    if exists|i: int| 0 <= i < k + 1 && !tombstoned@[i] && x == path_join(repo_root@, #[trigger] tree_files@[i]@) {
                        let i = choose|i: int| 0 <= i < k + 1 && !tombstoned@[i] && x == path_join(repo_root@, #[trigger] tree_files@[i]@);
                        if i < k {
                            assert(exists|i2: int| 0 <= i2 < k && !tombstoned@[i2] && x == path_join(repo_root@, #[trigger] tree_files@[i2]@));
                        }
                    }
                }
            }
        } else {
            proof {
                assert forall|x: Seq<char>| out.deep_view().contains(x) <==>
                    (exists|i: int| 0 <= i < k + 1 && !tombstoned@[i] && x == path_join(repo_root@, #[trigger] tree_files@[i]@)) by {
                    if exists|i: int| 0 <= i < k + 1 && !tombstoned@[i] && x == path_join(repo_root@, #[trigger] tree_files@[i]@) {
                        let i = choose|i: int| 0 <= i < k + 1 && !tombstoned@[i] && x == path_join(repo_root@, #[trigger] tree_files@[i]@);
                        assert(i < k);
                    }
                }
            }
        }
        k = k + 1;
    }
    let mut j: usize = 0;
    while j < overlay_files.len()
        invariant
            j <= overlay_files@.len(),
            tombstoned@.len() == tree_files@.len(),
            strictly_sorted(out.deep_view()),
            forall|x: Seq<char>| out.deep_view().contains(x) <==> (
                (exists|i: int| 0 <= i < tree_files@.len() && !tombstoned@[i] && x == path_join(repo_root@, #[trigger] tree_files@[i]@))
                || (exists|i: int| 0 <= i < j && x == #[trigger] overlay_files@[i]@)),
        decreases overlay_files@.len() - j,
    {
        let ghost pv = overlay_files@[j as int]@;
        insert_sorted_unique(&mut out, overlay_files[j].clone());
        proof {
            assert forall|x: Seq<char>| out.deep_view().contains(x) <==> (
                (exists|i: int| 0 <= i < tree_files@.len() && !tombstoned@[i] && x == path_join(repo_root@, #[trigger] tree_files@[i]@))
                || (exists|i: int| 0 <= i < j + 1 && x == #[trigger] overlay_files@[i]@)) by {
                if exists|i: int| 0 <= i < j + 1 && x == #[trigger] overlay_files@[i]@ {
                    let i = choose|i: int| 0 <= i < j + 1 && x == #[trigger] overlay_files@[i]@;
                    if i < j {
                        assert(exists|i2: int| 0 <= i2 < j && x == #[trigger] overlay_files@[i2]@);
                    }
                }
                if x == pv {
                    assert(x == overlay_files@[j as int]@);
                }
            }
        }
        j = j + 1;
    }
    out
}

} // verus!
