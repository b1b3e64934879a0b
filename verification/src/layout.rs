//! The mapping between the local hierarchical layout of a workspace and the
//! flat layout of a central repository, where every document is stored as
//! `SHORT-CODE.md` in one folder per workspace.

use vstd::prelude::*;
use crate::order::{chars_lt, seq_lt, lemma_seq_lt_irreflexive, lemma_seq_lt_total, lemma_seq_lt_transitive, lemma_sorted_sets_equal, strictly_sorted};
use crate::status::is_index_perm;
use crate::text::{
    chars_ends_with, chars_eq, chars_of, chars_starts_with, ends_with, opt_view, starts_with,
    string_from_chars, trim_chars, trim_ws,
};
use crate::paths::concat_chars;

verus! {

/// A document taken from the local hierarchy, ready for the flat layout.
pub struct FlatDocument {
    /// The short code, such as `API-T-0001`.
    pub short_code: String,
    /// The file name in the flat layout, such as `API-T-0001.md`.
    pub filename: String,
    /// The whole file, front matter included.
    pub content: String,
}

/// What flattening a workspace gave.
pub struct FlattenResult {
    /// The documents, ordered by short code, one per short code.
    pub documents: Vec<FlatDocument>,
    /// Markdown files that are not documents (no short code).
    pub skipped: Vec<String>,
    /// Files that could not be read or repeat a short code, with the reason.
    pub errors: Vec<(String, String)>,
}

/// What reading a flat folder gave.
pub struct ReadFlatResult {
    /// The documents, ordered by short code.
    pub documents: Vec<FlatDocument>,
    /// Markdown files that are not documents (no short code).
    pub skipped: Vec<String>,
    /// Files that could not be read, with the reason.
    pub errors: Vec<(String, String)>,
}

/// A file met while walking a folder, with what reading it gave.
pub enum ScannedFile {
    /// The file was read.
    Read { path: String, content: String },
    /// The file (or the walk at this point) failed, with the message to report.
    Unreadable { path: String, message: String },
}

/// What looking up a key in a document's YAML front matter found.
#[derive(Debug, PartialEq, Eq)]
pub enum FieldLookup {
    /// The text has no front matter.
    NoFrontMatter,
    /// The front matter is not a mapping.
    NotAMapping,
    /// The mapping has no such key.
    Absent,
    /// The value under the key is not a string.
    NotAString,
    /// The string under the key.
    Text(String),
}

/// The mathematical form of a `FieldLookup`.
pub enum FieldLookupView {
    NoFrontMatter,
    NotAMapping,
    Absent,
    NotAString,
    Text(Seq<char>),
}

impl View for FieldLookup {
    type V = FieldLookupView;

    open spec fn view(&self) -> FieldLookupView {
        match self {
            FieldLookup::NoFrontMatter => FieldLookupView::NoFrontMatter,
            FieldLookup::NotAMapping => FieldLookupView::NotAMapping,
            FieldLookup::Absent => FieldLookupView::Absent,
            FieldLookup::NotAString => FieldLookupView::NotAString,
            FieldLookup::Text(s) => FieldLookupView::Text(s@),
        }
    }
}

/// What the gray_matter crate finds under `key` when it parses the YAML front
/// matter of `content`.
pub uninterp spec fn yaml_field(content: Seq<char>, key: Seq<char>) -> FieldLookupView;

/// The string stored under `key` in the front matter of `content`, if any.
pub open spec fn yaml_string_field(content: Seq<char>, key: Seq<char>) -> Option<Seq<char>> {
    match yaml_field(content, key) {
        FieldLookupView::Text(s) => Some(s),
        _ => None,
    }
}

/// Parses the front matter of `content` with gray_matter
/// (`Matter::<YAML>::parse`) and looks `key` up in it. The result is named by
/// `yaml_field`; the crate's source also shows that front matter is only
/// recognised when the text opens with the `---` delimiter.
#[verifier::external_body]
pub(crate) fn frontmatter_field(content: &str, key: &str) -> (res: FieldLookup)
    ensures
        res@ == yaml_field(content@, key@),
        !starts_with(content@, "---"@) ==> res@ == FieldLookupView::NoFrontMatter,
{
    match gray_matter::Matter::<gray_matter::engine::YAML>::new().parse(content).data {
        None => FieldLookup::NoFrontMatter,
        Some(gray_matter::Pod::Hash(map)) => match map.get(key) {
            None => FieldLookup::Absent,
            Some(gray_matter::Pod::String(s)) => FieldLookup::Text(s.clone()),
            Some(_) => FieldLookup::NotAString,
        },
        Some(_) => FieldLookup::NotAMapping,
    }
}

/// The string stored under `key` in the front matter of `content`.
fn frontmatter_string(content: &str, key: &str) -> (res: Option<String>)
    ensures
        opt_view(res) == yaml_string_field(content@, key@),
{
    match frontmatter_field(content, key) {
        FieldLookup::Text(s) => Some(s),
        _ => None,
    }
}

/// A field value as the layout uses it: trimmed, and absent when nothing is left.
pub open spec fn nonempty_trimmed(v: Option<Seq<char>>) -> Option<Seq<char>> {
    match v {
        Some(s) => if trim_ws(s).len() > 0 { Some(trim_ws(s)) } else { None },
        None => None,
    }
}

/// The short code recorded in the front matter of `content`.
pub open spec fn short_code_in(content: Seq<char>) -> Option<Seq<char>> {
    nonempty_trimmed(yaml_string_field(content, "short_code"@))
}

/// The document level recorded in the front matter of `content`: the first of
/// the fields `level`, `document_type` and `type` that holds a non-blank string.
pub open spec fn level_in(content: Seq<char>) -> Option<Seq<char>> {
    first_present(
        nonempty_trimmed(yaml_string_field(content, "level"@)),
        nonempty_trimmed(yaml_string_field(content, "document_type"@)),
        nonempty_trimmed(yaml_string_field(content, "type"@)),
    )
}

/// The first of three optional values that is present.
pub open spec fn first_present(a: Option<Seq<char>>, b: Option<Seq<char>>, c: Option<Seq<char>>) -> Option<Seq<char>> {
    if a is Some {
        a
    } else if b is Some {
        b
    } else {
        c
    }
}

/// Trims a field value, dropping it when nothing is left.
pub fn trimmed_field(field: Option<String>) -> (res: Option<String>)
    ensures
        opt_view(res) == nonempty_trimmed(opt_view(field)),
{
    match field {
        Some(s) => {
            let t = trim_chars(&chars_of(s.as_str()));
            if t.len() > 0 {
                Some(string_from_chars(&t))
            } else {
                None
            }
        },
        None => None,
    }
}

/// Picks the level among the values of the fields `level`, `document_type` and
/// `type`: the first that is non-blank, trimmed.
pub fn level_from_fields(level: Option<String>, document_type: Option<String>, type_field: Option<String>)
    -> (res: Option<String>)
    ensures
        opt_view(res) == first_present(
            nonempty_trimmed(opt_view(level)),
            nonempty_trimmed(opt_view(document_type)),
            nonempty_trimmed(opt_view(type_field)),
        ),
{
    let a = trimmed_field(level);
    if a.is_some() {
        return a;
    }
    let b = trimmed_field(document_type);
    if b.is_some() {
        return b;
    }
    trimmed_field(type_field)
}

/// The `short_code` of a markdown file's front matter, trimmed; `None` without
/// front matter, without the field, or when it is blank.
pub fn extract_short_code(content: &str) -> (res: Option<String>)
    ensures
        opt_view(res) == short_code_in(content@),
{
    trimmed_field(frontmatter_string(content, "short_code"))
}

/// The document level of a markdown file's front matter, from the field
/// `level`, else `document_type`, else `type`.
pub fn extract_level(content: &str) -> (res: Option<String>)
    ensures
        opt_view(res) == level_in(content@),
{
    let level = frontmatter_string(content, "level");
    let document_type = frontmatter_string(content, "document_type");
    let type_field = frontmatter_string(content, "type");
    level_from_fields(level, document_type, type_field)
}

/// Files that never go to the central layout.
pub open spec fn excluded_file(name: Seq<char>) -> bool {
    name == "config.toml"@ || name == "metis.db"@ || name == "metis.db-journal"@ || name == "metis.db-wal"@
        || name == "metis.db-shm"@ || name == "code-index.md"@ || name == "code-index-hashes.json"@
        || name == "code-index-symbols.json"@
}

/// Whether the walk enters a folder: not a hidden one below the root, and not
/// the `archived` folder.
pub open spec fn enters_folder(name: Seq<char>, depth: int) -> bool {
    !(starts_with(name, "."@) && depth > 0) && name != "archived"@
}

/// Whether a file of the local hierarchy is a candidate document: a visible
/// markdown file that is not one of the excluded files.
pub open spec fn flatten_candidate(name: Seq<char>) -> bool {
    ends_with(name, ".md"@) && !excluded_file(name) && !starts_with(name, "."@)
}

/// Whether a file of a flat folder is a candidate document: a visible markdown file.
pub open spec fn flat_candidate(name: Seq<char>) -> bool {
    ends_with(name, ".md"@) && !starts_with(name, "."@)
}

/// Whether the walk over the local hierarchy enters the folder `name` found at `depth`.
pub fn enters_folder_named(name: &str, depth: usize) -> (res: bool)
    ensures
        res == enters_folder(name@, depth as int),
{
    let n = chars_of(name);
    let hidden = chars_starts_with(&n, &chars_of("."));
    !(hidden && depth > 0) && !chars_eq(&n, &chars_of("archived"))
}

/// Whether the file `name` of the local hierarchy is read as a candidate document.
pub fn is_flatten_candidate(name: &str) -> (res: bool)
    ensures
        res == flatten_candidate(name@),
{
    let n = chars_of(name);
    if !chars_ends_with(&n, &chars_of(".md")) || chars_starts_with(&n, &chars_of(".")) {
        return false;
    }
    let excluded = chars_eq(&n, &chars_of("config.toml")) || chars_eq(&n, &chars_of("metis.db"))
        || chars_eq(&n, &chars_of("metis.db-journal")) || chars_eq(&n, &chars_of("metis.db-wal"))
        || chars_eq(&n, &chars_of("metis.db-shm")) || chars_eq(&n, &chars_of("code-index.md"))
        || chars_eq(&n, &chars_of("code-index-hashes.json")) || chars_eq(&n, &chars_of("code-index-symbols.json"));
    !excluded
}

/// Whether the file `name` of a flat folder is read as a candidate document.
pub fn is_flat_candidate(name: &str) -> (res: bool)
    ensures
        res == flat_candidate(name@),
{
    let n = chars_of(name);
    chars_ends_with(&n, &chars_of(".md")) && !chars_starts_with(&n, &chars_of("."))
}

/// The path of a scanned file.
pub open spec fn scanned_path(f: ScannedFile) -> Seq<char> {
    match f {
        ScannedFile::Read { path, .. } => path@,
        ScannedFile::Unreadable { path, .. } => path@,
    }
}

/// The text of a scanned file (empty when it could not be read).
pub open spec fn scanned_content(f: ScannedFile) -> Seq<char> {
    match f {
        ScannedFile::Read { content, .. } => content@,
        ScannedFile::Unreadable { .. } => Seq::empty(),
    }
}

/// The short code of file `k`, given the short codes `codes` found in the read files.
pub open spec fn code_at(files: Seq<ScannedFile>, codes: Seq<Option<Seq<char>>>, k: int) -> Option<Seq<char>> {
    match files[k] {
        ScannedFile::Read { .. } => codes[k],
        ScannedFile::Unreadable { .. } => None,
    }
}

/// The short codes that the front matter of the read files holds.
pub open spec fn codes_of(files: Seq<ScannedFile>) -> Seq<Option<Seq<char>>> {
    Seq::new(
        files.len(),
        |k: int|
            match files[k] {
                ScannedFile::Read { content, .. } => short_code_in(content@),
                ScannedFile::Unreadable { .. } => None,
            },
    )
}

/// File `k` is the first with the short code `c`.
pub open spec fn first_with_code(files: Seq<ScannedFile>, codes: Seq<Option<Seq<char>>>, k: int, c: Seq<char>) -> bool {
    &&& 0 <= k < files.len()
    &&& code_at(files, codes, k) == Some(c)
    &&& forall|j: int| 0 <= j < k ==> code_at(files, codes, j) != Some(c)
}

/// The file name of a document in the flat layout.
pub open spec fn flat_filename(code: Seq<char>) -> Seq<char> {
    code + ".md"@
}

/// The reason reported for a file that repeats a short code.
pub open spec fn duplicate_message(code: Seq<char>) -> Seq<char> {
    "Duplicate short code '"@ + code + "' — already found, skipping this file"@
}

/// The paths of the read files among the first `n` that hold no short code.
pub open spec fn skipped_paths(files: Seq<ScannedFile>, codes: Seq<Option<Seq<char>>>, n: int) -> Seq<Seq<char>>
    decreases n,
{
    if n <= 0 {
        Seq::empty()
    } else {
        let prev = skipped_paths(files, codes, n - 1);
        match files[n - 1] {
            ScannedFile::Read { path, .. } => if codes[n - 1] is None { prev.push(path@) } else { prev },
            ScannedFile::Unreadable { .. } => prev,
        }
    }
}

/// The errors that flattening the first `n` files reports: unreadable files
/// with their message, and files whose short code an earlier file already had.
pub open spec fn flatten_errors(files: Seq<ScannedFile>, codes: Seq<Option<Seq<char>>>, n: int) -> Seq<(Seq<char>, Seq<char>)>
    decreases n,
{
    if n <= 0 {
        Seq::empty()
    } else {
        let prev = flatten_errors(files, codes, n - 1);
        match files[n - 1] {
            ScannedFile::Unreadable { path, message } => prev.push((path@, message@)),
            ScannedFile::Read { path, .. } => match codes[n - 1] {
                Some(c) => if first_with_code(files, codes, n - 1, c) {
                    prev
                } else {
                    prev.push((path@, duplicate_message(c)))
                },
                None => prev,
            },
        }
    }
}

/// Document `d` is the one that file `k` gives.
pub open spec fn flat_from_file(d: FlatDocument, files: Seq<ScannedFile>, k: int) -> bool {
    &&& d.content@ == scanned_content(files[k])
    &&& d.filename@ == flat_filename(d.short_code@)
}

/// The documents are strictly ordered by short code.
pub open spec fn strictly_by_code(docs: Seq<FlatDocument>) -> bool {
    forall|i: int, j: int| 0 <= i < j < docs.len() ==> seq_lt(#[trigger] docs[i].short_code@, #[trigger] docs[j].short_code@)
}

/// Document `d` comes from the first of the first `n` files with its short code.
pub open spec fn has_first_origin(d: FlatDocument, files: Seq<ScannedFile>, codes: Seq<Option<Seq<char>>>, n: int) -> bool {
    exists|k: int| 0 <= k < n && #[trigger] first_with_code(files, codes, k, d.short_code@) && flat_from_file(d, files, k)
}

/// Some document of `docs` has the short code `c`.
pub open spec fn code_listed(docs: Seq<FlatDocument>, c: Seq<char>) -> bool {
    exists|i: int| 0 <= i < docs.len() && (#[trigger] docs[i]).short_code@ == c
}

/// `docs` holds, ordered by short code, one document for each short code met
/// among the first `n` files, taken from the first file that has it.
pub open spec fn flattened_upto(docs: Seq<FlatDocument>, files: Seq<ScannedFile>, codes: Seq<Option<Seq<char>>>, n: int) -> bool {
    &&& strictly_by_code(docs)
    &&& forall|i: int| 0 <= i < docs.len() ==> #[trigger] has_first_origin(docs[i], files, codes, n)
    &&& forall|k: int| 0 <= k < n && #[trigger] code_at(files, codes, k) is Some ==> code_listed(docs, code_at(files, codes, k)->0)
}

/// The whole outcome of flattening `files` whose short codes are `codes`.
pub open spec fn flatten_outcome(res: FlattenResult, files: Seq<ScannedFile>, codes: Seq<Option<Seq<char>>>) -> bool {
    &&& flattened_upto(res.documents@, files, codes, files.len() as int)
    &&& res.skipped.deep_view() == skipped_paths(files, codes, files.len() as int)
    &&& res.errors.deep_view() == flatten_errors(files, codes, files.len() as int)
}

/// The message for a repeated short code.
fn duplicate_message_for(code: &Vec<char>) -> (res: String)
    ensures
        res@ == duplicate_message(code@),
{
    let a = concat_chars(&chars_of("Duplicate short code '"), code);
    let b = concat_chars(&a, &chars_of("' — already found, skipping this file"));
    string_from_chars(&b)
}

/// Where a short code goes among documents strictly ordered by short code: the
/// first position whose code is not below it, and whether that code equals it.
fn locate_code(docs: &Vec<FlatDocument>, code: &Vec<char>) -> (res: (usize, bool))
    requires
        strictly_by_code(docs@),
    ensures
        res.0 <= docs@.len(),
        forall|i: int| 0 <= i < res.0 ==> seq_lt(#[trigger] docs@[i].short_code@, code@),
        res.1 <==> exists|i: int| 0 <= i < docs@.len() && (#[trigger] docs@[i]).short_code@ == code@,
        res.1 ==> res.0 < docs@.len() && docs@[res.0 as int].short_code@ == code@,
        !res.1 ==> forall|i: int| res.0 <= i < docs@.len() ==> seq_lt(code@, #[trigger] docs@[i].short_code@),
{
    let mut pos: usize = 0;
    while pos < docs.len() && chars_lt(&chars_of(docs[pos].short_code.as_str()), code)
        invariant
            pos <= docs@.len(),
            forall|i: int| 0 <= i < pos ==> seq_lt(#[trigger] docs@[i].short_code@, code@),
        decreases docs@.len() - pos,
    {
        pos = pos + 1;
    }
    let found = pos < docs.len() && chars_eq(&chars_of(docs[pos].short_code.as_str()), code);
    proof {
        if !found {
            if pos < docs@.len() {
                lemma_seq_lt_total(docs@[pos as int].short_code@, code@);
                assert(seq_lt(code@, docs@[pos as int].short_code@));
                assert forall|i: int| pos <= i < docs@.len() implies seq_lt(code@, #[trigger] docs@[i].short_code@) by {
                    if i > pos {
                        assert(seq_lt(docs@[pos as int].short_code@, docs@[i].short_code@));
                        lemma_seq_lt_transitive(code@, docs@[pos as int].short_code@, docs@[i].short_code@);
                    }
                }
            }
            assert forall|i: int| 0 <= i < docs@.len() implies (#[trigger] docs@[i]).short_code@ != code@ by {
                if i < pos {
                    lemma_seq_lt_irreflexive(code@);
                } else {
                    lemma_seq_lt_irreflexive(code@);
                }
            }
        }
    }
    (pos, found)
}

/// Flattens files whose short codes were already read: one document per short
/// code, from the first file that has it, ordered by short code; read files
/// without a short code are skipped; unreadable files and files that repeat a
/// short code are reported as errors, in the order met.
pub fn arrange_flattened(files: &Vec<ScannedFile>, codes: &Vec<Option<String>>) -> (res: FlattenResult)
    requires
        codes@.len() == files@.len(),
    ensures
        flatten_outcome(res, files@, codes@.map_values(|c: Option<String>| opt_view(c))),
{
    let ghost cs = codes@.map_values(|c: Option<String>| opt_view(c));
    let mut docs: Vec<FlatDocument> = Vec::new();
    let mut skipped: Vec<String> = Vec::new();
    let mut errors: Vec<(String, String)> = Vec::new();
    let n = files.len();
    let mut k: usize = 0;
    while k < n
        invariant
            k <= n == files@.len() == codes@.len(),
            cs == codes@.map_values(|c: Option<String>| opt_view(c)),
            flattened_upto(docs@, files@, cs, k as int),
            skipped.deep_view() == skipped_paths(files@, cs, k as int),
            errors.deep_view() == flatten_errors(files@, cs, k as int),
        decreases n - k,
    {
        let ghost old_docs = docs@;
        let ghost old_skipped = skipped.deep_view();
        let ghost old_errors = errors.deep_view();
        let ghost fs = files@;
        match &files[k] {
            ScannedFile::Unreadable { path, message } => {
                errors.push((path.clone(), message.clone()));
                proof {
                    assert(errors.deep_view() =~= old_errors.push((path@, message@)));
                    lemma_flattened_extend(docs@, fs, cs, k as int);
                }
            },
            ScannedFile::Read { path, content } => {
                match &codes[k] {
                    None => {
                        skipped.push(path.clone());
                        proof {
                            assert(cs[k as int] is None);
                            assert(skipped.deep_view() =~= old_skipped.push(path@));
                            lemma_flattened_extend(docs@, fs, cs, k as int);
                        }
                    },
                    Some(code) => {
                        let c = chars_of(code.as_str());
                        assert(cs[k as int] == Some(c@));
                        assert(code_at(fs, cs, k as int) == Some(c@));
                        let (pos, found) = locate_code(&docs, &c);
                        if found {
                            let msg = duplicate_message_for(&c);
                            errors.push((path.clone(), msg));
                            proof {
                                let i = pos as int;
                                assert(has_first_origin(docs@[i], fs, cs, k as int));
                                let j = choose|j: int| 0 <= j < k && #[trigger] first_with_code(fs, cs, j, docs@[i].short_code@)
                                    && flat_from_file(docs@[i], fs, j);
                                assert(code_at(fs, cs, j) == Some(c@));
                                assert(!first_with_code(fs, cs, k as int, c@));
                                assert(errors.deep_view() =~= old_errors.push((path@, duplicate_message(c@))));
                                lemma_flattened_extend(docs@, fs, cs, k as int);
                            }
                        } else {
                            let doc = FlatDocument {
                                short_code: code.clone(),
                                filename: string_from_chars(&concat_chars(&c, &chars_of(".md"))),
                                content: content.clone(),
                            };
                            docs.insert(pos, doc);
                            proof {
                                let p = pos as int;
                                assert(docs@ == old_docs.insert(p, doc));
                                assert forall|j: int| 0 <= j < k implies code_at(fs, cs, j) != Some(c@) by {
                                    if code_at(fs, cs, j) == Some(c@) {
                                        assert(code_listed(old_docs, code_at(fs, cs, j)->0));
                                    }
                                }
                                assert(first_with_code(fs, cs, k as int, c@));
                                assert(flat_from_file(doc, fs, k as int));
                                lemma_flattened_insert(old_docs, doc, p, fs, cs, k as int);
                            }
                        }
                    },
                }
            },
        }
        k = k + 1;
    }
    FlattenResult { documents: docs, skipped, errors }
}

/// A file that adds no document keeps the documents a correct flattening.
proof fn lemma_flattened_extend(docs: Seq<FlatDocument>, files: Seq<ScannedFile>, codes: Seq<Option<Seq<char>>>, k: int)
    requires
        0 <= k < files.len(),
        flattened_upto(docs, files, codes, k),
        code_at(files, codes, k) is Some ==> code_listed(docs, code_at(files, codes, k)->0),
    ensures
        flattened_upto(docs, files, codes, k + 1),
{
    assert forall|i: int| 0 <= i < docs.len() implies #[trigger] has_first_origin(docs[i], files, codes, k + 1) by {
        assert(has_first_origin(docs[i], files, codes, k));
        let j = choose|j: int| 0 <= j < k && #[trigger] first_with_code(files, codes, j, docs[i].short_code@)
            && flat_from_file(docs[i], files, j);
        assert(first_with_code(files, codes, j, docs[i].short_code@));
    }
}

/// Inserting the document of file `k`, the first with its short code, where its
/// short code belongs keeps the documents a correct flattening.
proof fn lemma_flattened_insert(
    docs: Seq<FlatDocument>,
    doc: FlatDocument,
    p: int,
    files: Seq<ScannedFile>,
    codes: Seq<Option<Seq<char>>>,
    k: int,
)
    requires
        0 <= k < files.len(),
        0 <= p <= docs.len(),
        flattened_upto(docs, files, codes, k),
        forall|i: int| 0 <= i < p ==> seq_lt(#[trigger] docs[i].short_code@, doc.short_code@),
        forall|i: int| p <= i < docs.len() ==> seq_lt(doc.short_code@, #[trigger] docs[i].short_code@),
        first_with_code(files, codes, k, doc.short_code@),
        flat_from_file(doc, files, k),
    ensures
        flattened_upto(docs.insert(p, doc), files, codes, k + 1),
{
    let nd = docs.insert(p, doc);
    let c = doc.short_code@;
    assert forall|a: int, b: int| 0 <= a < b < nd.len() implies
        seq_lt(#[trigger] nd[a].short_code@, #[trigger] nd[b].short_code@) by {
        if b < p {
            assert(seq_lt(docs[a].short_code@, docs[b].short_code@));
        } else if b == p {
            assert(seq_lt(docs[a].short_code@, c));
        } else if a < p {
            assert(seq_lt(docs[a].short_code@, c));
            assert(seq_lt(c, docs[b - 1].short_code@));
            lemma_seq_lt_transitive(docs[a].short_code@, c, docs[b - 1].short_code@);
        } else if a == p {
            assert(seq_lt(c, docs[b - 1].short_code@));
        } else {
            assert(seq_lt(docs[a - 1].short_code@, docs[b - 1].short_code@));
        }
    }
    assert forall|i: int| 0 <= i < nd.len() implies #[trigger] has_first_origin(nd[i], files, codes, k + 1) by {
        if i == p {
            assert(first_with_code(files, codes, k, nd[i].short_code@));
        } else {
            let o = if i < p { i } else { i - 1 };
            assert(nd[i] == docs[o]);
            assert(has_first_origin(docs[o], files, codes, k));
            let j = choose|j: int| 0 <= j < k && #[trigger] first_with_code(files, codes, j, docs[o].short_code@)
                && flat_from_file(docs[o], files, j);
            assert(first_with_code(files, codes, j, nd[i].short_code@));
        }
    }
    assert forall|j: int| 0 <= j < k + 1 && #[trigger] code_at(files, codes, j) is Some implies
        code_listed(nd, code_at(files, codes, j)->0) by {
        if j == k {
            assert(nd[p].short_code@ == c);
        } else {
            assert(code_listed(docs, code_at(files, codes, j)->0));
            let i = choose|i: int| 0 <= i < docs.len() && (#[trigger] docs[i]).short_code@ == code_at(files, codes, j)->0;
            if i < p {
                assert(nd[i] == docs[i]);
            } else {
                assert(nd[i + 1] == docs[i]);
            }
        }
    }
}

/// The short codes of the read files, read from their front matter.
fn read_codes(files: &Vec<ScannedFile>) -> (res: Vec<Option<String>>)
    ensures
        res@.len() == files@.len(),
        res@.map_values(|c: Option<String>| opt_view(c)) == codes_of(files@),
{
    let mut codes: Vec<Option<String>> = Vec::new();
    let mut k: usize = 0;
    while k < files.len()
        invariant
            k <= files@.len(),
            codes@.len() == k,
            forall|j: int| 0 <= j < k ==> opt_view(#[trigger] codes@[j]) == codes_of(files@)[j],
        decreases files@.len() - k,
    {
        match &files[k] {
            ScannedFile::Read { content, .. } => codes.push(extract_short_code(content.as_str())),
            ScannedFile::Unreadable { .. } => codes.push(None),
        }
        k = k + 1;
    }
    assert(codes@.map_values(|c: Option<String>| opt_view(c)) =~= codes_of(files@));
    codes
}

/// Flattens the files met while walking a local workspace (in walk order): one
/// document per short code found in the front matter, from the first file with
/// it, ordered by short code; files without a short code are skipped, and
/// unreadable files and repeated short codes are reported.
pub fn flatten_files(files: &Vec<ScannedFile>) -> (res: FlattenResult)
    ensures
        flatten_outcome(res, files@, codes_of(files@)),
{
    let codes = read_codes(files);
    arrange_flattened(files, &codes)
}

/// Documents `docs` list the short-coded files among the first `n`, file
/// `src[p]` giving document `p`, ordered by short code and, for equal short
/// codes, by position.
pub open spec fn read_flat_by(
    docs: Seq<FlatDocument>,
    files: Seq<ScannedFile>,
    codes: Seq<Option<Seq<char>>>,
    n: int,
    src: Seq<int>,
) -> bool {
    &&& src.len() == docs.len()
    &&& forall|p: int| 0 <= p < src.len() ==> 0 <= #[trigger] src[p] < n
        && code_at(files, codes, src[p]) == Some(docs[p].short_code@) && flat_from_file(docs[p], files, src[p])
    &&& forall|p: int, q: int| 0 <= p < q < src.len() ==> #[trigger] src[p] != #[trigger] src[q]
    &&& forall|k: int| 0 <= k < n && #[trigger] code_at(files, codes, k) is Some ==> exists|p: int| 0 <= p < src.len() && #[trigger] src[p] == k
    &&& forall|p: int, q: int| 0 <= p < q < src.len() ==>
        seq_lt(#[trigger] docs[p].short_code@, #[trigger] docs[q].short_code@) || (docs[p].short_code@ == docs[q].short_code@ && src[p] < src[q])
}

/// The errors that reading a flat folder reports: the unreadable files among
/// the first `n`, with their message.
pub open spec fn unreadable_errors(files: Seq<ScannedFile>, n: int) -> Seq<(Seq<char>, Seq<char>)>
    decreases n,
{
    if n <= 0 {
        Seq::empty()
    } else {
        let prev = unreadable_errors(files, n - 1);
        match files[n - 1] {
            ScannedFile::Unreadable { path, message } => prev.push((path@, message@)),
            ScannedFile::Read { .. } => prev,
        }
    }
}

/// The whole outcome of reading the flat files `files` whose short codes are `codes`.
pub open spec fn read_flat_outcome(res: ReadFlatResult, files: Seq<ScannedFile>, codes: Seq<Option<Seq<char>>>) -> bool {
    &&& exists|src: Seq<int>| #[trigger] read_flat_by(res.documents@, files, codes, files.len() as int, src)
    &&& res.skipped.deep_view() == skipped_paths(files, codes, files.len() as int)
    &&& res.errors.deep_view() == unreadable_errors(files, files.len() as int)
}

/// Lists the documents of a flat folder from files whose short codes were
/// already read: every file with a short code gives a document, ordered by
/// short code (a stable sort); read files without one are skipped, and
/// unreadable files are reported, in the order met.
pub fn arrange_read_flat(files: &Vec<ScannedFile>, codes: &Vec<Option<String>>) -> (res: ReadFlatResult)
    requires
        codes@.len() == files@.len(),
    ensures
        read_flat_outcome(res, files@, codes@.map_values(|c: Option<String>| opt_view(c))),
{
    let ghost cs = codes@.map_values(|c: Option<String>| opt_view(c));
    let mut docs: Vec<FlatDocument> = Vec::new();
    let mut skipped: Vec<String> = Vec::new();
    let mut errors: Vec<(String, String)> = Vec::new();
    let ghost mut src: Seq<int> = Seq::empty();
    let n = files.len();
    let mut k: usize = 0;
    while k < n
        invariant
            k <= n == files@.len() == codes@.len(),
            cs == codes@.map_values(|c: Option<String>| opt_view(c)),
            read_flat_by(docs@, files@, cs, k as int, src),
            skipped.deep_view() == skipped_paths(files@, cs, k as int),
            errors.deep_view() == unreadable_errors(files@, k as int),
        decreases n - k,
    {
        let ghost old_docs = docs@;
        let ghost old_skipped = skipped.deep_view();
        let ghost old_errors = errors.deep_view();
        let ghost fs = files@;
        match &files[k] {
            ScannedFile::Unreadable { path, message } => {
                errors.push((path.clone(), message.clone()));
                proof {
                    assert(errors.deep_view() =~= old_errors.push((path@, message@)));
                    lemma_read_flat_extend(docs@, fs, cs, k as int, src);
                }
            },
            ScannedFile::Read { path, content } => {
                match &codes[k] {
                    None => {
                        skipped.push(path.clone());
                        proof {
                            assert(cs[k as int] is None);
                            assert(skipped.deep_view() =~= old_skipped.push(path@));
                            lemma_read_flat_extend(docs@, fs, cs, k as int, src);
                        }
                    },
                    Some(code) => {
                        let c = chars_of(code.as_str());
                        assert(cs[k as int] == Some(c@));
                        let mut pos: usize = 0;
                        while pos < docs.len() && !chars_lt(&c, &chars_of(docs[pos].short_code.as_str()))
                            invariant
                                pos <= docs@.len(),
                                forall|i: int| 0 <= i < pos ==> !seq_lt(c@, #[trigger] docs@[i].short_code@),
                            decreases docs@.len() - pos,
                        {
                            pos = pos + 1;
                        }
                        let doc = FlatDocument {
                            short_code: code.clone(),
                            filename: string_from_chars(&concat_chars(&c, &chars_of(".md"))),
                            content: content.clone(),
                        };
                        docs.insert(pos, doc);
                        proof {
                            assert(flat_from_file(doc, fs, k as int));
                            lemma_read_flat_insert(old_docs, doc, pos as int, fs, cs, k as int, src);
                            src = src.insert(pos as int, k as int);
                        }
                    },
                }
            },
        }
        k = k + 1;
    }
    let res = ReadFlatResult { documents: docs, skipped, errors };
    assert(read_flat_by(res.documents@, files@, cs, files@.len() as int, src));
    res
}

/// A file that adds no document keeps the listing correct.
proof fn lemma_read_flat_extend(docs: Seq<FlatDocument>, files: Seq<ScannedFile>, codes: Seq<Option<Seq<char>>>, k: int, src: Seq<int>)
    requires
        0 <= k < files.len(),
        read_flat_by(docs, files, codes, k, src),
        code_at(files, codes, k) is None,
    ensures
        read_flat_by(docs, files, codes, k + 1, src),
{
    assert forall|j: int| 0 <= j < k + 1 && #[trigger] code_at(files, codes, j) is Some implies
        exists|p: int| 0 <= p < src.len() && #[trigger] src[p] == j by {
    }
}

/// Inserting the document of file `k` after every document whose short code
/// does not exceed its own keeps the listing correct.
proof fn lemma_read_flat_insert(
    docs: Seq<FlatDocument>,
    doc: FlatDocument,
    pos: int,
    files: Seq<ScannedFile>,
    codes: Seq<Option<Seq<char>>>,
    k: int,
    src: Seq<int>,
)
    requires
        0 <= k < files.len(),
        0 <= pos <= docs.len(),
        read_flat_by(docs, files, codes, k, src),
        forall|i: int| 0 <= i < pos ==> !seq_lt(doc.short_code@, #[trigger] docs[i].short_code@),
        pos < docs.len() ==> seq_lt(doc.short_code@, docs[pos].short_code@),
        code_at(files, codes, k) == Some(doc.short_code@),
        flat_from_file(doc, files, k),
    ensures
        read_flat_by(docs.insert(pos, doc), files, codes, k + 1, src.insert(pos, k)),
{
    let nd = docs.insert(pos, doc);
    let ns = src.insert(pos, k);
    let c = doc.short_code@;
    // every document from `pos` on sorts after `doc`
    assert forall|q: int| pos <= q < docs.len() implies seq_lt(c, #[trigger] docs[q].short_code@) by {
        if q > pos {
            assert(seq_lt(docs[pos].short_code@, docs[q].short_code@) || docs[pos].short_code@ == docs[q].short_code@);
            if seq_lt(docs[pos].short_code@, docs[q].short_code@) {
                lemma_seq_lt_transitive(c, docs[pos].short_code@, docs[q].short_code@);
            }
        }
    }
    assert forall|p: int| 0 <= p < ns.len() implies 0 <= #[trigger] ns[p] < k + 1
        && code_at(files, codes, ns[p]) == Some(nd[p].short_code@) && flat_from_file(nd[p], files, ns[p]) by {
        if p < pos {
            assert(ns[p] == src[p] && nd[p] == docs[p]);
        } else if p > pos {
            assert(ns[p] == src[p - 1] && nd[p] == docs[p - 1]);
        }
    }
    assert forall|p: int, q: int| 0 <= p < q < ns.len() implies #[trigger] ns[p] != #[trigger] ns[q] by {
        if p < pos && q < pos {
            assert(src[p] != src[q]);
        } else if p < pos && q > pos {
            assert(src[p] != src[q - 1]);
        } else if p > pos {
            assert(src[p - 1] != src[q - 1]);
        } else if p == pos {
            assert(src[q - 1] < k);
        } else {
            assert(src[p] < k);
        }
    }
    assert forall|j: int| 0 <= j < k + 1 && #[trigger] code_at(files, codes, j) is Some implies
        exists|p: int| 0 <= p < ns.len() && #[trigger] ns[p] == j by {
        if j == k {
            assert(ns[pos] == k);
        } else {
            let p = choose|p: int| 0 <= p < src.len() && #[trigger] src[p] == j;
            if p < pos {
                assert(ns[p] == j);
            } else {
                assert(ns[p + 1] == j);
            }
        }
    }
    assert forall|p: int, q: int| 0 <= p < q < ns.len() implies
        seq_lt(#[trigger] nd[p].short_code@, #[trigger] nd[q].short_code@)
            || (nd[p].short_code@ == nd[q].short_code@ && ns[p] < ns[q]) by {
        if p < pos && q < pos {
            assert(nd[p] == docs[p] && nd[q] == docs[q] && ns[p] == src[p] && ns[q] == src[q]);
        } else if p < pos && q == pos {
            lemma_seq_lt_total(c, docs[p].short_code@);
            assert(src[p] < k);
        } else if p < pos && q > pos {
            assert(nd[p] == docs[p] && nd[q] == docs[q - 1] && ns[p] == src[p] && ns[q] == src[q - 1]);
        } else if p == pos {
            assert(seq_lt(c, docs[q - 1].short_code@));
        } else {
            assert(nd[p] == docs[p - 1] && nd[q] == docs[q - 1] && ns[p] == src[p - 1] && ns[q] == src[q - 1]);
        }
    }
}

/// Lists the documents of a flat folder (such as a workspace folder of the
/// central repository) from the files met in it: every file whose front matter
/// has a short code gives a document, ordered by short code; other files are
/// skipped and unreadable ones reported.
pub fn read_flat_files(files: &Vec<ScannedFile>) -> (res: ReadFlatResult)
    ensures
        read_flat_outcome(res, files@, codes_of(files@)),
{
    let codes = read_codes(files);
    arrange_read_flat(files, &codes)
}

/// A file named `name` is stale against the documents `current`: a markdown
/// file that none of them is stored in.
pub open spec fn is_stale(name: Seq<char>, current: Seq<FlatDocument>) -> bool {
    ends_with(name, ".md"@) && !(exists|i: int| 0 <= i < current.len() && (#[trigger] current[i]).filename@ == name)
}

/// The stale names among the first `n` of `names`, in order.
pub open spec fn stale_upto(names: Seq<Seq<char>>, current: Seq<FlatDocument>, n: int) -> Seq<Seq<char>>
    decreases n,
{
    if n <= 0 {
        Seq::empty()
    } else {
        let prev = stale_upto(names, current, n - 1);
        if is_stale(names[n - 1], current) { prev.push(names[n - 1]) } else { prev }
    }
}

/// The files of a folder (given by name) that a hydration removes: markdown
/// files that none of the current documents is stored in. Other files stay.
pub fn stale_files(names: &Vec<String>, current: &Vec<FlatDocument>) -> (res: Vec<String>)
    ensures
        res.deep_view() == stale_upto(names.deep_view(), current@, names@.len() as int),
{
    let ghost nv = names.deep_view();
    let mut out: Vec<String> = Vec::new();
    let md = chars_of(".md");
    let mut k: usize = 0;
    while k < names.len()
        invariant
            k <= names@.len() == nv.len(),
            nv == names.deep_view(),
            md@ == ".md"@,
            out.deep_view() == stale_upto(nv, current@, k as int),
        decreases names@.len() - k,
    {
        let name = chars_of(names[k].as_str());
        assert(nv[k as int] == names@[k as int]@);
        let mut listed = false;
        let mut i: usize = 0;
        while i < current.len() && !listed
            invariant
                i <= current@.len(),
                listed ==> exists|j: int| 0 <= j < current@.len() && (#[trigger] current@[j]).filename@ == name@,
                !listed ==> forall|j: int| 0 <= j < i ==> (#[trigger] current@[j]).filename@ != name@,
            decreases current@.len() - i + (if listed { 0int } else { 1int }),
        {
            if chars_eq(&chars_of(current[i].filename.as_str()), &name) {
                listed = true;
            } else {
                i = i + 1;
            }
        }
        let ghost prev = out.deep_view();
        if chars_ends_with(&name, &md) && !listed {
            out.push(names[k].clone());
            assert(out.deep_view() =~= prev.push(nv[k as int]));
        }
        k = k + 1;
    }
    out
}

/// A flattened document carries its short code in its own front matter, and
/// is stored under the file name made from it.
proof fn lemma_flattened_doc_code(docs: Seq<FlatDocument>, files: Seq<ScannedFile>, j: int)
    requires
        flattened_upto(docs, files, codes_of(files), files.len() as int),
        0 <= j < docs.len(),
    ensures
        short_code_in(docs[j].content@) == Some(docs[j].short_code@),
        docs[j].filename@ == flat_filename(docs[j].short_code@),
{
    let codes = codes_of(files);
    assert(has_first_origin(docs[j], files, codes, files.len() as int));
    let k = choose|k: int| 0 <= k < files.len() && #[trigger] first_with_code(files, codes, k, docs[j].short_code@)
        && flat_from_file(docs[j], files, k);
    assert(code_at(files, codes, k) == Some(docs[j].short_code@));
}

/// The short codes of a list of documents.
pub open spec fn doc_codes(docs: Seq<FlatDocument>) -> Seq<Seq<char>> {
    docs.map_values(|d: FlatDocument| d.short_code@)
}

/// `order` lists each position `0..n` exactly once.
pub open spec fn is_bijection(order: Seq<int>, n: int) -> bool {
    &&& order.len() == n
    &&& forall|i: int| 0 <= i < n ==> 0 <= #[trigger] order[i] < n
    &&& forall|i: int, j: int| 0 <= i < j < n ==> #[trigger] order[i] != #[trigger] order[j]
    &&& forall|j: int| 0 <= j < n ==> #[trigger] position_listed(order, j)
}

/// Some entry of `order` is `j`.
pub open spec fn position_listed(order: Seq<int>, j: int) -> bool {
    exists|i: int| 0 <= i < order.len() && #[trigger] order[i] == j
}

/// Reading back a flat folder that holds exactly the flattened documents of a
/// workspace, each in its own file and in any order, gives the same documents
/// in the same order: same short codes, file names and contents.
pub proof fn law_read_after_flatten(
    files: Seq<ScannedFile>,
    flattened: FlattenResult,
    written: Seq<ScannedFile>,
    order: Seq<int>,
    read: ReadFlatResult,
)
    requires
        flatten_outcome(flattened, files, codes_of(files)),
        is_bijection(order, flattened.documents@.len() as int),
        written.len() == flattened.documents@.len(),
        forall|i: int| 0 <= i < written.len() ==> (#[trigger] written[i]) is Read
            && scanned_content(written[i]) == flattened.documents@[order[i]].content@,
        read_flat_outcome(read, written, codes_of(written)),
    ensures
        read.documents@.len() == flattened.documents@.len(),
        forall|p: int| 0 <= p < read.documents@.len() ==> (#[trigger] read.documents@[p]).short_code@
            == flattened.documents@[p].short_code@ && read.documents@[p].filename@ == flattened.documents@[p].filename@
            && read.documents@[p].content@ == flattened.documents@[p].content@,
{
    let docs = flattened.documents@;
    let rd = read.documents@;
    let n = docs.len() as int;
    let wc = codes_of(written);
    let src = choose|src: Seq<int>| #[trigger] read_flat_by(rd, written, wc, written.len() as int, src);
    assert(read_flat_by(rd, written, wc, written.len() as int, src));
    // every written file carries the short code of the document it holds
    assert forall|i: int| 0 <= i < n implies #[trigger] code_at(written, wc, i) == Some(docs[order[i]].short_code@) by {
        lemma_flattened_doc_code(docs, files, order[i]);
        assert(written[i] is Read);
    }
    // the documents' short codes are distinct
    assert forall|a: int, b: int| 0 <= a < n && 0 <= b < n && a != b implies docs[a].short_code@ != docs[b].short_code@ by {
        lemma_seq_lt_irreflexive(docs[a].short_code@);
        if a < b {
            assert(seq_lt(docs[a].short_code@, docs[b].short_code@));
        } else {
            assert(seq_lt(docs[b].short_code@, docs[a].short_code@));
        }
    }
    // document `p` read back is the flattened document `order[src[p]]`
    assert forall|p: int| 0 <= p < rd.len() implies 0 <= #[trigger] src[p] < n
        && rd[p].short_code@ == docs[order[src[p]]].short_code@ && rd[p].content@ == docs[order[src[p]]].content@
        && rd[p].filename@ == docs[order[src[p]]].filename@ by {
        assert(0 <= src[p] < n);
        assert(code_at(written, wc, src[p]) == Some(rd[p].short_code@));
        lemma_flattened_doc_code(docs, files, order[src[p]]);
    }
    let rc = doc_codes(rd);
    let dc = doc_codes(docs);
    assert forall|p: int, q: int| 0 <= p < q < rc.len() implies seq_lt(#[trigger] rc[p], #[trigger] rc[q]) by {
        assert(src[p] != src[q]);
        assert(order[src[p]] != order[src[q]]);
        assert(rd[p].short_code@ != rd[q].short_code@);
    }
    assert forall|p: int, q: int| 0 <= p < q < dc.len() implies seq_lt(#[trigger] dc[p], #[trigger] dc[q]) by {
    }
    assert forall|x: Seq<char>| rc.contains(x) <==> dc.contains(x) by {
        if rc.contains(x) {
            let p = choose|p: int| 0 <= p < rc.len() && rc[p] == x;
            assert(dc[order[src[p]]] == x);
        }
        if dc.contains(x) {
            let j = choose|j: int| 0 <= j < dc.len() && dc[j] == x;
            assert(position_listed(order, j));
            let i = choose|i: int| 0 <= i < n && #[trigger] order[i] == j;
            assert(code_at(written, wc, i) is Some);
            let p = choose|p: int| 0 <= p < src.len() && #[trigger] src[p] == i;
            assert(rc[p] == x);
        }
    }
    lemma_sorted_sets_equal(rc, dc);
    assert(rd.len() == rc.len());
    assert forall|p: int| 0 <= p < rd.len() implies (#[trigger] rd[p]).short_code@ == docs[p].short_code@
        && rd[p].filename@ == docs[p].filename@ && rd[p].content@ == docs[p].content@ by {
        assert(rc[p] == dc[p]);
        let t = order[src[p]];
        assert(docs[t].short_code@ == docs[p].short_code@);
    }
}

/// Removing stale files never removes the file of a current document.
pub proof fn law_stale_spares_current(names: Seq<Seq<char>>, current: Seq<FlatDocument>, n: int, j: int)
    requires
        0 <= n <= names.len(),
        0 <= j < current.len(),
    ensures
        !stale_upto(names, current, n).contains(current[j].filename@),
    decreases n,
{
    if n > 0 {
        law_stale_spares_current(names, current, n - 1, j);
        let prev = stale_upto(names, current, n - 1);
        if is_stale(names[n - 1], current) {
            assert(names[n - 1] != current[j].filename@);
            let next = prev.push(names[n - 1]);
            assert forall|k: int| 0 <= k < next.len() implies #[trigger] next[k] != current[j].filename@ by {
                if k < prev.len() {
                    assert(next[k] == prev[k]);
                }
            }
        }
    }
}

} // verus!
