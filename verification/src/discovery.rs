//! Finding a document by id among the document files of a workspace.

use vstd::prelude::*;
use crate::paths::{concat_chars, join, path_join};
use crate::text::{chars_ends_with, chars_eq, chars_of, ends_with, str_is, string_from_chars, strs_eq};
use crate::types::DocumentType;

verus! {

/// Finds documents in a workspace.
pub struct DocumentDiscoveryService {
    workspace_dir: String,
}

/// Where a document was found.
#[derive(Debug)]
pub struct DocumentDiscoveryResult {
    pub document_type: DocumentType,
    pub file_path: String,
}

/// The order in which the document types are searched for an id.
pub open spec fn search_order() -> Seq<DocumentType> {
    seq![DocumentType::Vision, DocumentType::Strategy, DocumentType::Initiative, DocumentType::Task, DocumentType::Adr]
}

/// A file name with the extension `md` (`Path::extension`: the part after the
/// last dot of a name that is not only a leading dot).
pub open spec fn has_md_extension(name: Seq<char>) -> bool {
    ends_with(name, ".md"@) && name.len() > 3
}

impl DocumentDiscoveryService {
    /// The workspace folder.
    pub closed spec fn workspace(&self) -> Seq<char> {
        self.workspace_dir@
    }

    /// A service for the workspace folder `workspace_dir`.
    pub fn new(workspace_dir: &str) -> (res: Self)
        ensures
            res.workspace() == workspace_dir@,
    {
        DocumentDiscoveryService { workspace_dir: workspace_dir.to_owned() }
    }

    /// The document types in the order they are searched.
    pub fn search_order() -> (res: Vec<DocumentType>)
        ensures
            res@ == search_order(),
    {
        let v = vec![DocumentType::Vision, DocumentType::Strategy, DocumentType::Initiative, DocumentType::Task, DocumentType::Adr];
        assert(v@ =~= search_order());
        v
    }

    /// Where the vision lives.
    pub fn vision_path(&self) -> (res: String)
        ensures
            res@ == path_join(self.workspace(), "vision.md"@),
    {
        join(self.workspace_dir.as_str(), "vision.md")
    }

    /// The folder of the strategies.
    pub fn strategies_dir(&self) -> (res: String)
        ensures
            res@ == path_join(self.workspace(), "strategies"@),
    {
        join(self.workspace_dir.as_str(), "strategies")
    }

    /// The folder of the ADRs.
    pub fn adrs_dir(&self) -> (res: String)
        ensures
            res@ == path_join(self.workspace(), "adrs"@),
    {
        join(self.workspace_dir.as_str(), "adrs")
    }
}

/// A document file met while searching the folders of one document type, in the
/// order the folders were walked, as the caller read it.
pub enum Candidate {
    /// The file parsed as a document with this id.
    Parsed { path: String, id: String },
    /// The file could not be parsed as a document of the type.
    Unparsable { path: String, reason: String },
    /// A folder of the walk could not be listed.
    WalkError(String),
}

/// The mathematical form of a `Candidate`.
pub enum CandidateView {
    Parsed { path: Seq<char>, id: Seq<char> },
    Unparsable { path: Seq<char>, reason: Seq<char> },
    WalkError(Seq<char>),
}

impl View for Candidate {
    type V = CandidateView;

    open spec fn view(&self) -> CandidateView {
        match self {
            Candidate::Parsed { path, id } => CandidateView::Parsed { path: path@, id: id@ },
            Candidate::Unparsable { path, reason } => CandidateView::Unparsable { path: path@, reason: reason@ },
            Candidate::WalkError(m) => CandidateView::WalkError(m@),
        }
    }
}

/// Why a search found no document.
#[derive(Debug, PartialEq, Eq)]
pub enum DiscoveryError {
    NotFound(String),
    InvalidDocument(String),
    FileSystem(String),
}

/// The mathematical form of a `DiscoveryError`.
pub enum DiscoveryErrorView {
    NotFound(Seq<char>),
    InvalidDocument(Seq<char>),
    FileSystem(Seq<char>),
}

impl View for DiscoveryError {
    type V = DiscoveryErrorView;

    open spec fn view(&self) -> DiscoveryErrorView {
        match self {
            DiscoveryError::NotFound(m) => DiscoveryErrorView::NotFound(m@),
            DiscoveryError::InvalidDocument(m) => DiscoveryErrorView::InvalidDocument(m@),
            DiscoveryError::FileSystem(m) => DiscoveryErrorView::FileSystem(m@),
        }
    }
}

/// The view of a search's outcome.
pub open spec fn outcome_view(r: Result<String, DiscoveryError>) -> Result<Seq<char>, DiscoveryErrorView> {
    match r {
        Ok(p) => Ok(p@),
        Err(e) => Err(e@),
    }
}

/// Reported when no document of type `t` has the id.
pub open spec fn not_found_message(t: DocumentType) -> Seq<char> {
    match t {
        DocumentType::Vision => "Vision document not found"@,
        DocumentType::Strategy => "Strategy document not found"@,
        DocumentType::Initiative => "Initiative document not found"@,
        DocumentType::Task => "Task document not found"@,
        DocumentType::Adr => "ADR document not found"@,
    }
}

/// Reported when the folder that documents of type `t` live under is missing;
/// the vision has no such folder.
pub open spec fn missing_root_message(t: DocumentType) -> Option<Seq<char>> {
    match t {
        DocumentType::Vision => None,
        DocumentType::Adr => Some("No ADRs directory found"@),
        _ => Some("No strategies directory found"@),
    }
}

/// Whether a file that does not parse ends the search (for visions, strategies
/// and initiatives) rather than being passed over (for tasks and ADRs).
pub open spec fn strict_parsing(t: DocumentType) -> bool {
    t == DocumentType::Vision || t == DocumentType::Strategy || t == DocumentType::Initiative
}

/// The outcome of looking for the id `id` among the candidates `cands` of type
/// `t`: the path of the first one with that id, unless a walk error or (for
/// strictly parsed types) an unparsable file comes first.
pub open spec fn search_outcome(t: DocumentType, cands: Seq<CandidateView>, id: Seq<char>)
    -> Result<Seq<char>, DiscoveryErrorView>
    decreases cands.len(),
{
    if cands.len() == 0 {
        Err(DiscoveryErrorView::NotFound(not_found_message(t)))
    } else {
        match cands[0] {
            CandidateView::WalkError(m) => Err(DiscoveryErrorView::FileSystem(m)),
            CandidateView::Unparsable { reason, .. } => if strict_parsing(t) {
                Err(DiscoveryErrorView::InvalidDocument(reason))
            } else {
                search_outcome(t, cands.drop_first(), id)
            },
            CandidateView::Parsed { path, id: found } => if found == id {
                Ok(path)
            } else {
                search_outcome(t, cands.drop_first(), id)
            },
        }
    }
}

/// The outcome of finding the document `id` of type `t`, given whether the
/// type's folder exists and the candidates met under it.
pub open spec fn find_outcome(t: DocumentType, root_exists: bool, cands: Seq<CandidateView>, id: Seq<char>)
    -> Result<Seq<char>, DiscoveryErrorView>
{
    match missing_root_message(t) {
        Some(m) => if !root_exists {
            Err(DiscoveryErrorView::NotFound(m))
        } else {
            search_outcome(t, cands, id)
        },
        None => search_outcome(t, cands, id),
    }
}

/// The type searched at each step, the outcome of each search, and the first
/// success: `Some((k, path))` for the first search `k` that found a path.
pub open spec fn first_success(outcomes: Seq<Result<Seq<char>, DiscoveryErrorView>>) -> Option<(int, Seq<char>)>
    decreases outcomes.len(),
{
    if outcomes.len() == 0 {
        None
    } else {
        match first_success(outcomes.drop_last()) {
            Some(r) => Some(r),
            None => match outcomes.last() {
                Ok(p) => Some((outcomes.len() - 1, p)),
                Err(_) => None,
            },
        }
    }
}

/// Reported when no document type holds the id.
pub open spec fn unknown_document_message(id: Seq<char>) -> Seq<char> {
    "Document '"@ + id + "' not found in workspace"@
}

impl DocumentDiscoveryService {
    /// Finds the document `document_id` of type `doc_type` among `candidates`,
    /// the files met while walking the type's folders (`root_exists` tells whether
    /// the folder they live under exists).
    pub fn find_document_of_type(
        &self,
        document_id: &str,
        doc_type: DocumentType,
        root_exists: bool,
        candidates: &Vec<Candidate>,
    ) -> (res: Result<String, DiscoveryError>)
        ensures
            outcome_view(res) == find_outcome(doc_type, root_exists, candidates@.map_values(|c: Candidate| c@), document_id@),
    {
        let ghost cv = candidates@.map_values(|c: Candidate| c@);
        if !root_exists {
            match doc_type {
                DocumentType::Vision => {},
                DocumentType::Adr => return Err(DiscoveryError::NotFound("No ADRs directory found".to_owned())),
                _ => return Err(DiscoveryError::NotFound("No strategies directory found".to_owned())),
            }
        }
        let strict = match doc_type {
            DocumentType::Vision | DocumentType::Strategy | DocumentType::Initiative => true,
            _ => false,
        };
        let mut i: usize = 0;
        assert(cv.skip(0) =~= cv);
        while i < candidates.len()
            invariant
                i <= candidates@.len(),
                cv == candidates@.map_values(|c: Candidate| c@),
                strict == strict_parsing(doc_type),
                find_outcome(doc_type, root_exists, cv, document_id@) == search_outcome(doc_type, cv, document_id@),
                search_outcome(doc_type, cv, document_id@) == search_outcome(doc_type, cv.skip(i as int), document_id@),
            decreases candidates@.len() - i,
        {
            assert(cv.skip(i as int)[0] == candidates@[i as int]@);
            assert(cv.skip(i as int).drop_first() =~= cv.skip(i as int + 1));
            match &candidates[i] {
                Candidate::WalkError(m) => return Err(DiscoveryError::FileSystem(m.as_str().to_owned())),
                Candidate::Unparsable { reason, .. } => {
                    if strict {
                        return Err(DiscoveryError::InvalidDocument(reason.as_str().to_owned()));
                    }
                },
                Candidate::Parsed { path, id } => {
                    if strs_eq(id.as_str(), document_id) {
                        return Ok(path.as_str().to_owned());
                    }
                },
            }
            i = i + 1;
        }
        let msg = match doc_type {
            DocumentType::Vision => "Vision document not found",
            DocumentType::Strategy => "Strategy document not found",
            DocumentType::Initiative => "Initiative document not found",
            DocumentType::Task => "Task document not found",
            DocumentType::Adr => "ADR document not found",
        };
        Err(DiscoveryError::NotFound(msg.to_owned()))
    }

    /// Finds the document `document_id` across all types, given the outcome of
    /// the search for each type in `search_order()`: the first type that found it.
    pub fn find_document_by_id(&self, document_id: &str, outcomes: Vec<Result<String, DiscoveryError>>)
        -> (res: Result<DocumentDiscoveryResult, DiscoveryError>)
        requires
            outcomes@.len() == search_order().len(),
        ensures
            match first_success(outcomes@.map_values(|r: Result<String, DiscoveryError>| outcome_view(r))) {
                Some((k, p)) => res matches Ok(d) && d.document_type == search_order()[k] && d.file_path@ == p,
                None => res matches Err(e) && e@ == DiscoveryErrorView::NotFound(unknown_document_message(document_id@)),
            },
    {
        let ghost ov = outcomes@.map_values(|r: Result<String, DiscoveryError>| outcome_view(r));
        let order = Self::search_order();
        let mut i: usize = 0;
        while i < outcomes.len()
            invariant
                i <= outcomes@.len() == order@.len(),
                order@ == search_order(),
                ov == outcomes@.map_values(|r: Result<String, DiscoveryError>| outcome_view(r)),
                first_success(ov.take(i as int)) is None,
            decreases outcomes@.len() - i,
        {
            assert(ov.take(i as int + 1).drop_last() =~= ov.take(i as int));
            match &outcomes[i] {
                Ok(p) => {
                    proof {
                        lemma_first_success_prefix(ov, i as int + 1);
                    }
                    return Ok(DocumentDiscoveryResult { document_type: order[i], file_path: p.as_str().to_owned() });
                },
                Err(_) => {},
            }
            i = i + 1;
        }
        assert(ov.take(ov.len() as int) =~= ov);
        let msg = concat_chars(&concat_chars(&chars_of("Document '"), &chars_of(document_id)), &chars_of("' not found in workspace"));
        Err(DiscoveryError::NotFound(string_from_chars(&msg)))
    }
}

/// A success in a prefix is the first success of the whole.
proof fn lemma_first_success_prefix(s: Seq<Result<Seq<char>, DiscoveryErrorView>>, n: int)
    requires
        0 <= n <= s.len(),
        first_success(s.take(n)) is Some,
    ensures
        first_success(s) == first_success(s.take(n)),
    decreases s.len(),
{
    if n < s.len() {
        assert(s.drop_last().take(n) =~= s.take(n));
        lemma_first_success_prefix(s.drop_last(), n);
    } else {
        assert(s.take(n) =~= s);
    }
}

/// An entry of a workspace listing: the path below the workspace folder, one
/// name per level, and whether it is a regular file.
pub struct ListedEntry {
    pub segments: Vec<String>,
    pub is_file: bool,
}

/// The mathematical form of a `ListedEntry`.
pub open spec fn entry_view(e: ListedEntry) -> (Seq<Seq<char>>, bool) {
    (e.segments.deep_view(), e.is_file)
}

/// Whether an entry at `segs` below the workspace (a regular file when
/// `is_file`) holds a document of type `t`, by the workspace layout:
/// `vision.md`; `strategies/<S>/strategy.md`;
/// `strategies/<S>/initiatives/<I>/initiative.md`; a markdown file in
/// `strategies/<S>/initiatives/<I>/tasks`; a markdown file in `adrs`. The fixed
/// document files count whatever their kind, as an existence test finds them.
pub open spec fn document_entry(t: DocumentType, segs: Seq<Seq<char>>, is_file: bool) -> bool {
    match t {
        DocumentType::Vision => segs.len() == 1 && segs[0] == "vision.md"@,
        DocumentType::Strategy => segs.len() == 3 && segs[0] == "strategies"@ && segs[2] == "strategy.md"@,
        DocumentType::Initiative => segs.len() == 5 && segs[0] == "strategies"@ && segs[2] == "initiatives"@
            && segs[4] == "initiative.md"@,
        DocumentType::Task => is_file && segs.len() == 6 && segs[0] == "strategies"@ && segs[2] == "initiatives"@
            && segs[4] == "tasks"@ && has_md_extension(segs[5]),
        DocumentType::Adr => is_file && segs.len() == 2 && segs[0] == "adrs"@ && has_md_extension(segs[1]),
    }
}

/// The path of the entry at `segs` below `ws`: each name joined in turn.
pub open spec fn segments_path(ws: Seq<char>, segs: Seq<Seq<char>>) -> Seq<char>
    decreases segs.len(),
{
    if segs.len() == 0 {
        ws
    } else {
        path_join(segments_path(ws, segs.drop_last()), segs.last())
    }
}

/// The paths of the documents of type `t` among the entries `es` of a listing
/// of the workspace `ws`, in listing order.
pub open spec fn candidate_paths(ws: Seq<char>, t: DocumentType, es: Seq<(Seq<Seq<char>>, bool)>) -> Seq<Seq<char>>
    decreases es.len(),
{
    if es.len() == 0 {
        Seq::empty()
    } else {
        let rest = candidate_paths(ws, t, es.drop_last());
        if document_entry(t, es.last().0, es.last().1) {
            rest.push(segments_path(ws, es.last().0))
        } else {
            rest
        }
    }
}

/// Whether the names `segs` are exactly the literals `expected` at the given
/// positions (helper for `is_document_entry`).
fn segment_is(segs: &Vec<String>, k: usize, lit: &str) -> (res: bool)
    requires
        k < segs@.len(),
    ensures
        res == (segs.deep_view()[k as int] == lit@),
{
    assert(segs.deep_view()[k as int] == segs@[k as int]@);
    str_is(segs[k].as_str(), &chars_of(lit))
}

/// Whether the entry at `segs` (a regular file when `is_file`) holds a document
/// of type `doc_type` (see `document_entry`).
pub fn is_document_entry(doc_type: DocumentType, segs: &Vec<String>, is_file: bool) -> (res: bool)
    ensures
        res == document_entry(doc_type, segs.deep_view(), is_file),
{
    let n = segs.len();
    assert(segs.deep_view().len() == n);
    match doc_type {
        DocumentType::Vision => n == 1 && segment_is(segs, 0, "vision.md"),
        DocumentType::Strategy => n == 3 && segment_is(segs, 0, "strategies") && segment_is(segs, 2, "strategy.md"),
        DocumentType::Initiative => n == 5 && segment_is(segs, 0, "strategies") && segment_is(segs, 2, "initiatives")
            && segment_is(segs, 4, "initiative.md"),
        DocumentType::Task => {
            if is_file && n == 6 && segment_is(segs, 0, "strategies") && segment_is(segs, 2, "initiatives")
                && segment_is(segs, 4, "tasks") {
                assert(segs.deep_view()[5] == segs@[5]@);
                is_markdown_name(segs[5].as_str())
            } else {
                false
            }
        },
        DocumentType::Adr => {
            if is_file && n == 2 && segment_is(segs, 0, "adrs") {
                assert(segs.deep_view()[1] == segs@[1]@);
                is_markdown_name(segs[1].as_str())
            } else {
                false
            }
        },
    }
}

impl DocumentDiscoveryService {
    /// The path below the workspace of the entry at `segs`.
    pub fn entry_path(&self, segs: &Vec<String>) -> (res: String)
        ensures
            res@ == segments_path(self.workspace(), segs.deep_view()),
    {
        let ghost sv = segs.deep_view();
        let mut p = self.workspace_dir.as_str().to_owned();
        let mut i: usize = 0;
        while i < segs.len()
            invariant
                i <= segs@.len(),
                sv == segs.deep_view(),
                p@ == segments_path(self.workspace(), sv.take(i as int)),
            decreases segs@.len() - i,
        {
            assert(sv.take(i + 1).drop_last() =~= sv.take(i as int));
            assert(sv[i as int] == segs@[i as int]@);
            p = join(p.as_str(), segs[i].as_str());
            i = i + 1;
        }
        assert(sv.take(sv.len() as int) =~= sv);
        p
    }

    /// The paths of all documents of type `doc_type` among the entries of a
    /// listing of the workspace, in listing order.
    pub fn find_all_documents_of_type(&self, doc_type: DocumentType, entries: &Vec<ListedEntry>) -> (res: Vec<String>)
        ensures
            res.deep_view() == candidate_paths(self.workspace(), doc_type, entries@.map_values(|e: ListedEntry| entry_view(e))),
    {
        let ghost ev = entries@.map_values(|e: ListedEntry| entry_view(e));
        let mut out: Vec<String> = Vec::new();
        let mut i: usize = 0;
        while i < entries.len()
            invariant
                i <= entries@.len(),
                ev == entries@.map_values(|e: ListedEntry| entry_view(e)),
                out.deep_view() == candidate_paths(self.workspace(), doc_type, ev.take(i as int)),
            decreases entries@.len() - i,
        {
            assert(ev.take(i + 1).drop_last() =~= ev.take(i as int));
            assert(ev.take(i + 1).last() == entry_view(entries@[i as int]));
            let e = &entries[i];
            if is_document_entry(doc_type, &e.segments, e.is_file) {
                let p = self.entry_path(&e.segments);
                let ghost before = out@;
                out.push(p);
                assert(out.deep_view() =~= candidate_paths(self.workspace(), doc_type, ev.take(i as int)).push(p@));
            }
            i = i + 1;
        }
        assert(ev.take(ev.len() as int) =~= ev);
        out
    }
}

/// Whether a file name has the extension `md`.
pub fn is_markdown_name(name: &str) -> (res: bool)
    ensures
        res == has_md_extension(name@),
{
    let n = chars_of(name);
    chars_ends_with(&n, &chars_of(".md")) && n.len() > 3
}

/// The path of the file a candidate was read from (none for a walk error).
pub open spec fn candidate_path(c: CandidateView) -> Option<Seq<char>> {
    match c {
        CandidateView::Parsed { path, .. } => Some(path),
        CandidateView::Unparsable { path, .. } => Some(path),
        CandidateView::WalkError(_) => None,
    }
}

/// The path of a candidate that parsed with the id `id`.
pub open spec fn parsed_with(c: CandidateView, id: Seq<char>) -> Option<Seq<char>> {
    match c {
        CandidateView::Parsed { path, id: found } => if found == id { Some(path) } else { None },
        _ => None,
    }
}

/// The candidates `cands` were read, in order, from the files at `paths`, with
/// no walk error.
pub open spec fn read_from(cands: Seq<CandidateView>, paths: Seq<Seq<char>>) -> bool {
    cands.len() == paths.len() && forall|k: int| 0 <= k < cands.len() ==> candidate_path(#[trigger] cands[k]) == Some(paths[k])
}

/// Where `DocumentCreationService` puts a task file `name` of initiative `i`
/// under strategy `s` (`task_dir(s, i)` joined with the file name).
pub open spec fn created_task_path(ws: Seq<char>, s: Seq<char>, i: Seq<char>, name: Seq<char>) -> Seq<char> {
    path_join(
        path_join(path_join(path_join(path_join(path_join(ws, "strategies"@), s), "initiatives"@), i), "tasks"@),
        name,
    )
}

/// An entry of a listing that is a document of type `t` gives a candidate path.
proof fn lemma_entry_listed(ws: Seq<char>, t: DocumentType, es: Seq<(Seq<Seq<char>>, bool)>, e: (Seq<Seq<char>>, bool))
    requires
        es.contains(e),
        document_entry(t, e.0, e.1),
    ensures
        candidate_paths(ws, t, es).contains(segments_path(ws, e.0)),
    decreases es.len(),
{
    let k = choose|k: int| 0 <= k < es.len() && es[k] == e;
    if k == es.len() - 1 {
        let rest = candidate_paths(ws, t, es.drop_last());
        assert(rest.push(segments_path(ws, e.0))[rest.len() as int] == segments_path(ws, e.0));
    } else {
        assert(es.drop_last()[k] == e);
        lemma_entry_listed(ws, t, es.drop_last(), e);
        let rest = candidate_paths(ws, t, es.drop_last());
        let j = choose|j: int| 0 <= j < rest.len() && rest[j] == segments_path(ws, e.0);
        if document_entry(t, es.last().0, es.last().1) {
            assert(rest.push(segments_path(ws, es.last().0))[j] == segments_path(ws, e.0));
        }
    }
}

/// A search that passes over unparsable files finds the one file with the id.
proof fn lemma_unique_id_found(t: DocumentType, cands: Seq<CandidateView>, id: Seq<char>, path: Seq<char>, k: int)
    requires
        !strict_parsing(t),
        0 <= k < cands.len(),
        cands[k] == (CandidateView::Parsed { path, id }),
        forall|j: int| 0 <= j < cands.len() ==> !(#[trigger] cands[j] is WalkError),
        forall|j: int| 0 <= j < cands.len() ==> (parsed_with(#[trigger] cands[j], id) is None || parsed_with(cands[j], id) == Some(path)),
    ensures
        search_outcome(t, cands, id) == Ok::<Seq<char>, DiscoveryErrorView>(path),
    decreases cands.len(),
{
    let c0 = cands[0];
    assert(!(c0 is WalkError));
    match c0 {
        CandidateView::Parsed { path: p, id: f } => {
            if f != id {
                assert(k > 0);
                let rest = cands.drop_first();
                assert forall|j: int| 0 <= j < rest.len() implies !(#[trigger] rest[j] is WalkError) by {
                    assert(rest[j] == cands[j + 1]);
                }
                assert forall|j: int| 0 <= j < rest.len() implies parsed_with(#[trigger] rest[j], id) is None || parsed_with(rest[j], id) == Some(path) by {
                    assert(rest[j] == cands[j + 1]);
                }
                lemma_unique_id_found(t, rest, id, path, k - 1);
            }
        },
        CandidateView::Unparsable { .. } => {
            assert(k > 0);
            let rest = cands.drop_first();
            assert forall|j: int| 0 <= j < rest.len() implies !(#[trigger] rest[j] is WalkError) by {
                assert(rest[j] == cands[j + 1]);
            }
            assert forall|j: int| 0 <= j < rest.len() implies parsed_with(#[trigger] rest[j], id) is None || parsed_with(rest[j], id) == Some(path) by {
                assert(rest[j] == cands[j + 1]);
            }
            lemma_unique_id_found(t, rest, id, path, k - 1);
        },
        CandidateView::WalkError(_) => {},
    }
}

/// A task created where `DocumentCreationService` puts it is found by its id:
/// when a listing of the workspace holds the task file
/// `strategies/<s>/initiatives/<i>/tasks/<name>`, the candidates are read from
/// the task paths of that listing, the file at the task's path parses with id
/// `id`, and no other file parses with that id, the search for the task gives
/// the task's path.
pub proof fn law_created_task_is_found(
    ws: Seq<char>,
    s: Seq<char>,
    i: Seq<char>,
    name: Seq<char>,
    entries: Seq<(Seq<Seq<char>>, bool)>,
    cands: Seq<CandidateView>,
    id: Seq<char>,
)
    requires
        has_md_extension(name),
        entries.contains((seq!["strategies"@, s, "initiatives"@, i, "tasks"@, name], true)),
        read_from(cands, candidate_paths(ws, DocumentType::Task, entries)),
        forall|k: int| 0 <= k < cands.len() && candidate_path(#[trigger] cands[k]) == Some(created_task_path(ws, s, i, name))
            ==> cands[k] == (CandidateView::Parsed { path: created_task_path(ws, s, i, name), id }),
        forall|k: int| 0 <= k < cands.len() ==> parsed_with(#[trigger] cands[k], id) is None
            || parsed_with(cands[k], id) == Some(created_task_path(ws, s, i, name)),
    ensures
        find_outcome(DocumentType::Task, true, cands, id) == Ok::<Seq<char>, DiscoveryErrorView>(created_task_path(ws, s, i, name)),
{
    let segs: Seq<Seq<char>> = seq!["strategies"@, s, "initiatives"@, i, "tasks"@, name];
    let tp = created_task_path(ws, s, i, name);
    assert(segs.drop_last() =~= seq!["strategies"@, s, "initiatives"@, i, "tasks"@]);
    assert(segs.drop_last().drop_last() =~= seq!["strategies"@, s, "initiatives"@, i]);
    assert(segs.drop_last().drop_last().drop_last() =~= seq!["strategies"@, s, "initiatives"@]);
    assert(segs.drop_last().drop_last().drop_last().drop_last() =~= seq!["strategies"@, s]);
    assert(segs.drop_last().drop_last().drop_last().drop_last().drop_last() =~= seq!["strategies"@]);
    assert(seq!["strategies"@].drop_last() =~= Seq::<Seq<char>>::empty());
    let s1: Seq<Seq<char>> = seq!["strategies"@];
    let s2: Seq<Seq<char>> = seq!["strategies"@, s];
    let s3: Seq<Seq<char>> = seq!["strategies"@, s, "initiatives"@];
    let s4: Seq<Seq<char>> = seq!["strategies"@, s, "initiatives"@, i];
    let s5: Seq<Seq<char>> = seq!["strategies"@, s, "initiatives"@, i, "tasks"@];
    assert(segments_path(ws, Seq::<Seq<char>>::empty()) == ws);
    assert(segments_path(ws, s1) == path_join(ws, "strategies"@));
    assert(segments_path(ws, s2) == path_join(segments_path(ws, s1), s));
    assert(segments_path(ws, s3) == path_join(segments_path(ws, s2), "initiatives"@));
    assert(segments_path(ws, s4) == path_join(segments_path(ws, s3), i));
    assert(segments_path(ws, s5) == path_join(segments_path(ws, s4), "tasks"@));
    assert(segments_path(ws, segs) == path_join(segments_path(ws, s5), name));
    assert(segments_path(ws, segs) == tp);
    assert(document_entry(DocumentType::Task, segs, true));
    lemma_entry_listed(ws, DocumentType::Task, entries, (segs, true));
    let paths = candidate_paths(ws, DocumentType::Task, entries);
    let k = choose|k: int| 0 <= k < paths.len() && paths[k] == tp;
    assert(candidate_path(cands[k]) == Some(tp));
    assert forall|j: int| 0 <= j < cands.len() implies !(#[trigger] cands[j] is WalkError) by {
        assert(candidate_path(cands[j]) == Some(paths[j]));
    }
    lemma_unique_id_found(DocumentType::Task, cands, id, tp, k);
}

} // verus!
