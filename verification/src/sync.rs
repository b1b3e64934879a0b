//! Synchronization between the document files and the database: what a file
//! found on disk means for its database record, and what a file's place in the
//! hierarchy says about its strategy and initiative.

use vstd::prelude::*;
use crate::layout::{frontmatter_field, yaml_field, FieldLookup, FieldLookupView};
use crate::paths::{components, lemma_last_index_of, last_index_of, path_components, path_join, path_strip_prefix, strip_prefix, trim_trailing_slashes};
use crate::text::{chars_eq, chars_of, opt_view, str_is};

verus! {

/// What synchronizing one file did.
#[derive(Debug, PartialEq, Eq)]
pub enum SyncResult {
    Imported { filepath: String },
    Updated { filepath: String },
    Deleted { filepath: String },
    UpToDate { filepath: String },
    NotFound { filepath: String },
    Error { filepath: String, error: String },
    Moved { from: String, to: String },
}

/// A difference between the files and the database.
#[derive(Debug, PartialEq, Eq)]
pub enum SyncIssue {
    MissingFromDatabase { filepath: String },
    MissingFromFilesystem { filepath: String },
    OutOfSync { filepath: String, reason: String },
}

/// The path a result is about (the new path of a moved document).
pub open spec fn result_path(r: SyncResult) -> Seq<char> {
    match r {
        SyncResult::Imported { filepath } => filepath@,
        SyncResult::Updated { filepath } => filepath@,
        SyncResult::Deleted { filepath } => filepath@,
        SyncResult::UpToDate { filepath } => filepath@,
        SyncResult::NotFound { filepath } => filepath@,
        SyncResult::Error { filepath, .. } => filepath@,
        SyncResult::Moved { to, .. } => to@,
    }
}

impl SyncResult {
    /// The path this result is about; for a move, the new path.
    pub fn filepath(&self) -> (res: &str)
        ensures
            res@ == result_path(*self),
    {
        match self {
            SyncResult::Imported { filepath } => filepath.as_str(),
            SyncResult::Updated { filepath } => filepath.as_str(),
            SyncResult::Deleted { filepath } => filepath.as_str(),
            SyncResult::UpToDate { filepath } => filepath.as_str(),
            SyncResult::NotFound { filepath } => filepath.as_str(),
            SyncResult::Error { filepath, .. } => filepath.as_str(),
            SyncResult::Moved { to, .. } => to.as_str(),
        }
    }

    /// Whether the database changed: an import, update, deletion or move.
    pub fn is_change(&self) -> (res: bool)
        ensures
            res == (self is Imported || self is Updated || self is Deleted || self is Moved),
    {
        match self {
            SyncResult::Imported { .. } | SyncResult::Updated { .. } | SyncResult::Deleted { .. }
            | SyncResult::Moved { .. } => true,
            _ => false,
        }
    }

    /// Whether synchronizing the file failed.
    pub fn is_error(&self) -> (res: bool)
        ensures
            res == (self is Error),
    {
        match self {
            SyncResult::Error { .. } => true,
            _ => false,
        }
    }
}

/// An id taken from a folder name: the `NULL` placeholder stands for none.
pub open spec fn id_from_folder(name: Seq<char>) -> Option<Seq<char>> {
    if name == "NULL"@ {
        None
    } else {
        Some(name)
    }
}

/// The strategy and initiative that a file's place below the workspace names:
/// `strategies/<s>/strategy.md` names a strategy,
/// `strategies/<s>/initiatives/<i>/initiative.md` and
/// `strategies/<s>/initiatives/<i>/tasks/<file>` name both; other places name none.
pub open spec fn lineage_of(parts: Seq<Seq<char>>) -> (Option<Seq<char>>, Option<Seq<char>>) {
    if parts.len() == 3 && parts[0] == "strategies"@ && parts[2] == "strategy.md"@ {
        (id_from_folder(parts[1]), None)
    } else if parts.len() == 5 && parts[0] == "strategies"@ && parts[2] == "initiatives"@ && parts[4] == "initiative.md"@ {
        (id_from_folder(parts[1]), id_from_folder(parts[3]))
    } else if parts.len() == 6 && parts[0] == "strategies"@ && parts[2] == "initiatives"@ && parts[4] == "tasks"@ {
        (id_from_folder(parts[1]), id_from_folder(parts[3]))
    } else {
        (None, None)
    }
}

/// The lineage of a file: that of its place below the workspace, none when it
/// lies outside the workspace.
pub open spec fn path_lineage(file_path: Seq<char>, workspace_dir: Seq<char>) -> (Option<Seq<char>>, Option<Seq<char>>) {
    match path_strip_prefix(file_path, workspace_dir) {
        Some(rel) => lineage_of(path_components(rel)),
        None => (None, None),
    }
}

/// The id in a folder name, `None` for the `NULL` placeholder.
fn folder_id(name: &String) -> (res: Option<String>)
    ensures
        opt_view(res) == id_from_folder(name@),
{
    if str_is(name.as_str(), &chars_of("NULL")) {
        None
    } else {
        Some(name.clone())
    }
}

/// The strategy and initiative that the place of `file_path` in the workspace
/// `workspace_dir` names.
pub fn extract_lineage_from_path(file_path: &str, workspace_dir: &str) -> (res: (Option<String>, Option<String>))
    ensures
        (opt_view(res.0), opt_view(res.1)) == path_lineage(file_path@, workspace_dir@),
{
    let rel = match strip_prefix(file_path, workspace_dir) {
        Some(r) => r,
        None => {
            return (None, None);
        },
    };
    let parts = components(rel.as_str());
    let ghost pv = parts.deep_view();
    let n = parts.len();
    assert(pv.len() == n);
    if n == 3 && str_is(parts[0].as_str(), &chars_of("strategies")) && str_is(parts[2].as_str(), &chars_of("strategy.md")) {
        assert(pv[0] == parts@[0]@ && pv[1] == parts@[1]@ && pv[2] == parts@[2]@);
        return (folder_id(&parts[1]), None);
    }
    if n == 5 && str_is(parts[0].as_str(), &chars_of("strategies")) && str_is(parts[2].as_str(), &chars_of("initiatives"))
        && str_is(parts[4].as_str(), &chars_of("initiative.md")) {
        assert(pv[0] == parts@[0]@ && pv[1] == parts@[1]@ && pv[2] == parts@[2]@ && pv[3] == parts@[3]@ && pv[4] == parts@[4]@);
        return (folder_id(&parts[1]), folder_id(&parts[3]));
    }
    if n == 6 && str_is(parts[0].as_str(), &chars_of("strategies")) && str_is(parts[2].as_str(), &chars_of("initiatives"))
        && str_is(parts[4].as_str(), &chars_of("tasks")) {
        assert(pv[0] == parts@[0]@ && pv[1] == parts@[1]@ && pv[2] == parts@[2]@ && pv[3] == parts@[3]@ && pv[4] == parts@[4]@);
        return (folder_id(&parts[1]), folder_id(&parts[3]));
    }
    proof {
        if n == 3 {
            assert(pv[0] == parts@[0]@ && pv[2] == parts@[2]@);
        }
        if n == 5 {
            assert(pv[0] == parts@[0]@ && pv[2] == parts@[2]@ && pv[4] == parts@[4]@);
        }
        if n == 6 {
            assert(pv[0] == parts@[0]@ && pv[2] == parts@[2]@ && pv[4] == parts@[4]@);
        }
    }
    (None, None)
}

/// The lineage recorded for a document: the one its place names, else the one
/// its front matter gives.
pub fn prefer_path_lineage(from_path: Option<String>, from_document: Option<String>) -> (res: Option<String>)
    ensures
        opt_view(res) == if from_path is Some { opt_view(from_path) } else { opt_view(from_document) },
{
    match from_path {
        Some(p) => Some(p),
        None => from_document,
    }
}

/// The id of a document from its front matter, or the reason it has none.
pub open spec fn document_id_of(content: Seq<char>) -> Result<Seq<char>, Seq<char>> {
    match yaml_field(content, "id"@) {
        FieldLookupView::Text(id) => Ok(id),
        FieldLookupView::NotAMapping => Err("Frontmatter must be a hash/map"@),
        _ => Err("Document missing ID in frontmatter"@),
    }
}

/// Reads the `id` of a document from its front matter (without building the
/// document), to recognise a document that moved.
pub fn extract_document_id(content: &str) -> (res: Result<String, String>)
    ensures
        match res {
            Ok(id) => document_id_of(content@) == Ok::<Seq<char>, Seq<char>>(id@),
            Err(m) => document_id_of(content@) == Err::<Seq<char>, Seq<char>>(m@),
        },
{
    match frontmatter_field(content, "id") {
        FieldLookup::Text(id) => Ok(id),
        FieldLookup::NotAMapping => Err("Frontmatter must be a hash/map".to_owned()),
        _ => Err("Document missing ID in frontmatter".to_owned()),
    }
}

/// What synchronizing one file does, given what is known about it: whether the
/// file exists; the hash recorded for a database record at its path (if there
/// is one); the file's current hash (looked at when both exist); and, for a
/// file the database has no record at, the path of a record with the same
/// document id (a move). The result names the action: a move re-imports the
/// file in place of the old record, an import adds it, a deletion removes the
/// record, an update re-imports a changed file.
pub fn sync_outcome(
    path: &str,
    file_exists: bool,
    recorded_hash: Option<&str>,
    current_hash: &str,
    same_id_at: Option<String>,
) -> (res: SyncResult)
    ensures
        file_exists && recorded_hash is None ==> match same_id_at {
            Some(old) => res matches SyncResult::Moved { from, to } && from@ == old@ && to@ == path@,
            None => res matches SyncResult::Imported { filepath } && filepath@ == path@,
        },
        !file_exists && recorded_hash is Some ==> (res matches SyncResult::Deleted { filepath } && filepath@ == path@),
        file_exists && recorded_hash is Some ==> if recorded_hash->0@ != current_hash@ {
            res matches SyncResult::Updated { filepath } && filepath@ == path@
        } else {
            res matches SyncResult::UpToDate { filepath } && filepath@ == path@
        },
        !file_exists && recorded_hash is None ==> (res matches SyncResult::NotFound { filepath } && filepath@ == path@),
{
    match (file_exists, recorded_hash) {
        (true, None) => match same_id_at {
            Some(old) => SyncResult::Moved { from: old, to: path.to_owned() },
            None => SyncResult::Imported { filepath: path.to_owned() },
        },
        (false, Some(_)) => SyncResult::Deleted { filepath: path.to_owned() },
        (true, Some(h)) => {
            if !crate::text::strs_eq(h, current_hash) {
                SyncResult::Updated { filepath: path.to_owned() }
            } else {
                SyncResult::UpToDate { filepath: path.to_owned() }
            }
        },
        (false, None) => SyncResult::NotFound { filepath: path.to_owned() },
    }
}

/// The issue a listed file shows, given the hash recorded for it (if the
/// database has it) and its current hash: a file the database lacks, a file
/// whose hash differs, or none.
pub fn file_issue(path: &str, recorded_hash: Option<&str>, current_hash: &str) -> (res: Option<SyncIssue>)
    ensures
        match recorded_hash {
            None => res matches Some(SyncIssue::MissingFromDatabase { filepath }) && filepath@ == path@,
            Some(h) => if h@ != current_hash@ {
                res matches Some(SyncIssue::OutOfSync { filepath, reason }) && filepath@ == path@
                    && reason@ == "File hash mismatch"@
            } else {
                res is None
            },
        },
{
    match recorded_hash {
        None => Some(SyncIssue::MissingFromDatabase { filepath: path.to_owned() }),
        Some(h) => {
            if !crate::text::strs_eq(h, current_hash) {
                Some(SyncIssue::OutOfSync { filepath: path.to_owned(), reason: "File hash mismatch".to_owned() })
            } else {
                None
            }
        },
    }
}

/// Whether a database record is an orphan: its file is neither among the listed
/// files nor on disk.
pub fn is_orphan(filepath: &str, listed: &Vec<String>, exists: bool) -> (res: bool)
    ensures
        res == (!exists && !(exists|i: int| 0 <= i < listed@.len() && (#[trigger] listed@[i])@ == filepath@)),
{
    let f = chars_of(filepath);
    let mut i: usize = 0;
    while i < listed.len()
        invariant
            i <= listed@.len(),
            f@ == filepath@,
            forall|j: int| 0 <= j < i ==> (#[trigger] listed@[j])@ != filepath@,
        decreases listed@.len() - i,
    {
        if chars_eq(&chars_of(listed[i].as_str()), &f) {
            return false;
        }
        i = i + 1;
    }
    !exists
}

/// A single path component: not empty and without a separator.
pub open spec fn plain_component(c: Seq<char>) -> bool {
    c.len() > 0 && forall|k: int| 0 <= k < c.len() ==> c[k] != '/'
}

/// The components of a path made of components joined by separators.
proof fn lemma_components_append(a: Seq<char>, b: Seq<char>)
    requires
        a.len() > 0,
        a.last() != '/',
        plain_component(b),
    ensures
        path_components(a + "/"@ + b) == path_components(a).push(b),
{
    reveal_strlit("/");
    let p = a + "/"@ + b;
    assert(p.last() == b.last());
    lemma_last_index_of(p, '/');
    let i = last_index_of(p, '/');
    assert(p[a.len() as int] == '/');
    if i > a.len() {
        assert(p[i] == b[i - a.len() - 1]);
    }
    assert(i == a.len());
    assert(p.take(i) =~= a);
    assert(p.skip(i + 1) =~= b);
}

/// A single component is its own only component.
proof fn lemma_components_single(b: Seq<char>)
    requires
        plain_component(b),
    ensures
        path_components(b) == seq![b],
{
    lemma_last_index_of(b, '/');
    assert(b.last() != '/');
}

/// A task created in the folders of strategy `s` and initiative `i` (see
/// `DocumentCreationService::task_dir`) is read back by synchronization with
/// that strategy and initiative, the `NULL` placeholder standing for none.
pub proof fn law_task_lineage(workspace: Seq<char>, s: Seq<char>, i: Seq<char>, file: Seq<char>)
    requires
        workspace.len() > 0,
        workspace.last() != '/',
        plain_component(s),
        plain_component(i),
        plain_component(file),
    ensures
        path_lineage(
            path_join(
                path_join(path_join(path_join(path_join(path_join(workspace, "strategies"@), s), "initiatives"@), i), "tasks"@),
                file,
            ),
            workspace,
        ) == (if s == "NULL"@ { None } else { Some(s) }, if i == "NULL"@ { None } else { Some(i) }),
{
    reveal_strlit("strategies");
    reveal_strlit("initiatives");
    reveal_strlit("tasks");
    reveal_strlit("/");
    let slash = "/"@;
    let st = "strategies"@;
    let ini = "initiatives"@;
    let ta = "tasks"@;
    assert(plain_component(st));
    assert(plain_component(ini));
    assert(plain_component(ta));
    let p1 = path_join(workspace, st);
    assert(p1 == workspace + slash + st);
    let p2 = path_join(p1, s);
    assert(p2 == p1 + slash + s);
    let p3 = path_join(p2, ini);
    assert(p3 == p2 + slash + ini);
    let p4 = path_join(p3, i);
    assert(p4 == p3 + slash + i);
    let p5 = path_join(p4, ta);
    assert(p5 == p4 + slash + ta);
    let p6 = path_join(p5, file);
    assert(p6 == p5 + slash + file);
    let r1 = st;
    let r2 = r1 + slash + s;
    let r3 = r2 + slash + ini;
    let r4 = r3 + slash + i;
    let r5 = r4 + slash + ta;
    let r6 = r5 + slash + file;
    assert(p6 =~= workspace + slash + r6);
    assert(trim_trailing_slashes(workspace) == workspace);
    assert(p6.take(workspace.len() as int) =~= workspace);
    assert(p6.skip(workspace.len() as int + 1) =~= r6);
    assert(path_strip_prefix(p6, workspace) == Some(r6));
    lemma_components_single(r1);
    lemma_components_append(r1, s);
    lemma_components_append(r2, ini);
    lemma_components_append(r3, i);
    lemma_components_append(r4, ta);
    lemma_components_append(r5, file);
    let parts = path_components(r6);
    assert(parts =~= seq![st, s, ini, i, ta, file]);
}


/// An initiative created in the folder of strategy `s` (see
/// `DocumentCreationService::initiative_dir`) is read back by synchronization
/// under that strategy and under the initiative its folder names; a strategy
/// folder named `NULL` stands for none.
pub proof fn law_initiative_lineage(workspace: Seq<char>, s: Seq<char>, i: Seq<char>)
    requires
        workspace.len() > 0,
        workspace.last() != '/',
        plain_component(s),
        plain_component(i),
        i != "NULL"@,
    ensures
        path_lineage(
            path_join(path_join(path_join(path_join(path_join(workspace, "strategies"@), s), "initiatives"@), i), "initiative.md"@),
            workspace,
        ) == (if s == "NULL"@ { None } else { Some(s) }, Some(i)),
{
    reveal_strlit("strategies");
    reveal_strlit("initiatives");
    reveal_strlit("initiative.md");
    reveal_strlit("/");
    let slash = "/"@;
    let st = "strategies"@;
    let ini = "initiatives"@;
    let f = "initiative.md"@;
    assert(plain_component(st));
    assert(plain_component(ini));
    assert(plain_component(f));
    let p1 = path_join(workspace, st);
    assert(p1 == workspace + slash + st);
    let p2 = path_join(p1, s);
    assert(p2 == p1 + slash + s);
    let p3 = path_join(p2, ini);
    assert(p3 == p2 + slash + ini);
    let p4 = path_join(p3, i);
    assert(p4 == p3 + slash + i);
    let p5 = path_join(p4, f);
    assert(p5 == p4 + slash + f);
    let r1 = st;
    let r2 = r1 + slash + s;
    let r3 = r2 + slash + ini;
    let r4 = r3 + slash + i;
    let r5 = r4 + slash + f;
    assert(p5 =~= workspace + slash + r5);
    assert(trim_trailing_slashes(workspace) == workspace);
    assert(p5.take(workspace.len() as int) =~= workspace);
    assert(p5.skip(workspace.len() as int + 1) =~= r5);
    assert(path_strip_prefix(p5, workspace) == Some(r5));
    lemma_components_single(r1);
    lemma_components_append(r1, s);
    lemma_components_append(r2, ini);
    lemma_components_append(r3, i);
    lemma_components_append(r4, f);
    let parts = path_components(r5);
    assert(parts =~= seq![st, s, ini, i, f]);
}

/// A strategy stored in its folder `s` is read back by synchronization as
/// strategy `s` (none for the `NULL` folder), with no initiative.
pub proof fn law_strategy_lineage(workspace: Seq<char>, s: Seq<char>)
    requires
        workspace.len() > 0,
        workspace.last() != '/',
        plain_component(s),
    ensures
        path_lineage(path_join(path_join(path_join(workspace, "strategies"@), s), "strategy.md"@), workspace)
            == (if s == "NULL"@ { None } else { Some(s) }, None::<Seq<char>>),
{
    reveal_strlit("strategies");
    reveal_strlit("strategy.md");
    reveal_strlit("/");
    let slash = "/"@;
    let st = "strategies"@;
    let f = "strategy.md"@;
    assert(plain_component(st));
    assert(plain_component(f));
    let p1 = path_join(workspace, st);
    assert(p1 == workspace + slash + st);
    let p2 = path_join(p1, s);
    assert(p2 == p1 + slash + s);
    let p3 = path_join(p2, f);
    assert(p3 == p2 + slash + f);
    let r1 = st;
    let r2 = r1 + slash + s;
    let r3 = r2 + slash + f;
    assert(p3 =~= workspace + slash + r3);
    assert(trim_trailing_slashes(workspace) == workspace);
    assert(p3.take(workspace.len() as int) =~= workspace);
    assert(p3.skip(workspace.len() as int + 1) =~= r3);
    assert(path_strip_prefix(p3, workspace) == Some(r3));
    lemma_components_single(r1);
    lemma_components_append(r1, s);
    lemma_components_append(r2, f);
    let parts = path_components(r3);
    assert(parts =~= seq![st, s, f]);
}

} // verus!
