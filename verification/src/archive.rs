//! Archiving: a document moves from its place in the workspace to the same
//! place below the `archived` folder; an initiative moves with its whole folder.

use vstd::prelude::*;
use crate::paths::{components, join, path_components, path_join, path_strip_prefix, strip_prefix};
use crate::text::{chars_of, opt_view, str_is};
use crate::types::DocumentType;

verus! {

/// A document that was archived.
pub struct ArchivedDocument {
    pub document_id: String,
    pub document_type: DocumentType,
    pub original_path: String,
    pub archived_path: String,
}

/// What an archive operation did.
pub struct ArchiveResult {
    pub archived_documents: Vec<ArchivedDocument>,
    pub total_archived: usize,
}

/// How a document of a type is archived.
#[derive(Debug, PartialEq, Eq)]
pub enum ArchiveMode {
    /// The document's file alone moves.
    SingleFile,
    /// The document's folder moves, with everything below it.
    WholeFolder,
}

/// Archives documents of a workspace.
pub struct ArchiveService {
    workspace_dir: String,
}

/// Where `path` goes when archived: the same place below `archived` in the
/// workspace; `None` for a path outside the workspace.
pub open spec fn archived_location(workspace: Seq<char>, path: Seq<char>) -> Option<Seq<char>> {
    match path_strip_prefix(path, workspace) {
        Some(rel) => Some(path_join(path_join(workspace, "archived"@), rel)),
        None => None,
    }
}

/// Where an archived path came from: its place below `archived`, in the workspace.
pub open spec fn original_location(workspace: Seq<char>, archived: Seq<char>) -> Option<Seq<char>> {
    match path_strip_prefix(archived, path_join(workspace, "archived"@)) {
        Some(rel) => Some(path_join(workspace, rel)),
        None => None,
    }
}

impl ArchiveService {
    /// The workspace folder (absolute, canonical).
    pub closed spec fn workspace(&self) -> Seq<char> {
        self.workspace_dir@
    }

    /// A service for the workspace at `workspace_dir`, given as an absolute
    /// canonical path.
    pub fn new(workspace_dir: &str) -> (res: Self)
        ensures
            res.workspace() == workspace_dir@,
    {
        ArchiveService { workspace_dir: workspace_dir.to_owned() }
    }

    /// Initiatives move with their folder; other documents move alone.
    pub fn archive_mode(doc_type: DocumentType) -> (res: ArchiveMode)
        ensures
            res == if doc_type == DocumentType::Initiative { ArchiveMode::WholeFolder } else { ArchiveMode::SingleFile },
    {
        match doc_type {
            DocumentType::Initiative => ArchiveMode::WholeFolder,
            _ => ArchiveMode::SingleFile,
        }
    }

    /// Where the file or folder at `canonical_path` goes when archived; `None`
    /// when it lies outside the workspace.
    pub fn archive_target(&self, canonical_path: &str) -> (res: Option<String>)
        ensures
            opt_view(res) == archived_location(self.workspace(), canonical_path@),
    {
        match strip_prefix(canonical_path, self.workspace_dir.as_str()) {
            Some(rel) => Some(join(join(self.workspace_dir.as_str(), "archived").as_str(), rel.as_str())),
            None => None,
        }
    }

    /// Where an archived file came from; `None` when it is not below `archived`.
    pub fn original_path(&self, archived_path: &str) -> (res: Option<String>)
        ensures
            opt_view(res) == original_location(self.workspace(), archived_path@),
    {
        let archived_dir = join(self.workspace_dir.as_str(), "archived");
        match strip_prefix(archived_path, archived_dir.as_str()) {
            Some(rel) => Some(join(self.workspace_dir.as_str(), rel.as_str())),
            None => None,
        }
    }

    /// Whether a document file lies in the archive: its path below the
    /// workspace starts with the `archived` folder. `None` when the file lies
    /// outside the workspace.
    pub fn is_in_archive(&self, file_path: &str) -> (res: Option<bool>)
        ensures
            match path_strip_prefix(file_path@, self.workspace()) {
                Some(rel) => res == Some(path_components(rel).len() > 0 && path_components(rel)[0] == "archived"@),
                None => res is None,
            },
    {
        match strip_prefix(file_path, self.workspace_dir.as_str()) {
            Some(rel) => {
                let parts = components(rel.as_str());
                if parts.len() == 0 {
                    return Some(false);
                }
                assert(parts.deep_view()[0] == parts@[0]@);
                Some(str_is(parts[0].as_str(), &chars_of("archived")))
            },
            None => None,
        }
    }
}

/// A plain relative path: not empty, not absolute, not ending in a separator.
pub open spec fn plain_relative(rel: Seq<char>) -> bool {
    rel.len() > 0 && rel[0] != '/' && rel.last() != '/'
}

/// A plain absolute folder: not empty, not ending in a separator.
pub open spec fn plain_folder(dir: Seq<char>) -> bool {
    dir.len() > 0 && dir.last() != '/'
}

/// Archiving a path of the workspace and asking where the archived path came
/// from gives the path back.
pub proof fn law_archive_then_original(workspace: Seq<char>, rel: Seq<char>)
    requires
        plain_folder(workspace),
        plain_relative(rel),
    ensures
        archived_location(workspace, workspace + "/"@ + rel) is Some,
        original_location(workspace, archived_location(workspace, workspace + "/"@ + rel)->0) == Some(workspace + "/"@ + rel),
{
    reveal_strlit("/");
    reveal_strlit("archived");
    let p = workspace + "/"@ + rel;
    assert(crate::paths::trim_trailing_slashes(workspace) == workspace);
    assert(p.take(workspace.len() as int) =~= workspace);
    assert(p.skip(workspace.len() as int + 1) =~= rel);
    assert(path_strip_prefix(p, workspace) == Some(rel));
    let adir = path_join(workspace, "archived"@);
    assert(adir == workspace + "/"@ + "archived"@);
    assert(crate::paths::trim_trailing_slashes(adir) == adir);
    let a = path_join(adir, rel);
    assert(a == adir + "/"@ + rel);
    assert(a.take(adir.len() as int) =~= adir);
    assert(a.skip(adir.len() as int + 1) =~= rel);
    assert(path_strip_prefix(a, adir) == Some(rel));
}

} // verus!
