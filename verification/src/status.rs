//! The workspace status report: which documents need attention first.

use vstd::prelude::*;
use crate::models::Document;
use crate::commands::OutputFormat;
use crate::text::{
    byte_len_min, chars_eq, chars_of, char_count_at_byte, decimal, decimal_chars, is_byte_boundary,
    byte_len, kept_bytes, str_is, string_from_chars, truncate_chars, truncate_with,
};
use crate::paths::concat_chars;

verus! {

/// How actionable a phase is; lower numbers come first.
pub open spec fn priority_of(phase: Seq<char>) -> int {
    if phase == "blocked"@ {
        0
    } else if phase == "todo"@ {
        1
    } else if phase == "discussion"@ {
        2
    } else if phase == "active"@ {
        3
    } else if phase == "discovery"@ || phase == "shaping"@ || phase == "design"@ {
        4
    } else if phase == "ready"@ || phase == "decompose"@ {
        5
    } else if phase == "review"@ {
        6
    } else if phase == "decided"@ || phase == "published"@ || phase == "completed"@ {
        7
    } else {
        8
    }
}

/// `a` is listed before `b`: it is more actionable, or as actionable and more
/// recently updated.
pub open spec fn key_before(a: Document, b: Document) -> bool {
    priority_of(a.phase@) < priority_of(b.phase@) || (priority_of(a.phase@) == priority_of(b.phase@)
        && a.updated_at > b.updated_at)
}

/// Position `x` of `d` comes before position `y` in the report: by key, and
/// documents with equal keys keep their original order.
pub open spec fn rank_before(d: Seq<Document>, x: int, y: int) -> bool {
    key_before(d[x], d[y]) || (!key_before(d[y], d[x]) && x < y)
}

/// The positions `ix` of `d` are listed in report order.
pub open spec fn ranked(d: Seq<Document>, ix: Seq<int>) -> bool {
    forall|p: int, q: int| 0 <= p < q < ix.len() ==> rank_before(d, #[trigger] ix[p], #[trigger] ix[q])
}

/// `ix` lists each of the positions `0..n` exactly once.
pub open spec fn is_index_perm(ix: Seq<int>, n: int) -> bool {
    &&& ix.len() == n
    &&& forall|p: int| 0 <= p < ix.len() ==> 0 <= #[trigger] ix[p] < n
    &&& forall|p: int, q: int| 0 <= p < q < ix.len() ==> #[trigger] ix[p] != #[trigger] ix[q]
}

/// `new` holds the documents of `old` picked by the positions `ix`.
pub open spec fn picks(old: Seq<Document>, new: Seq<Document>, ix: Seq<int>) -> bool {
    new.len() == ix.len() && forall|p: int| 0 <= p < ix.len() ==> new[p] == old[#[trigger] ix[p]]
}

/// `new` is `old` rearranged into report order: most actionable first, most
/// recently updated first among equally actionable ones, and otherwise in the
/// original order.
pub open spec fn arranged_by_priority(old: Seq<Document>, new: Seq<Document>) -> bool {
    exists|ix: Seq<int>| is_index_perm(ix, old.len() as int) && ranked(old, ix) && #[trigger] picks(old, new, ix)
}

/// Builds and reports on the status of a workspace.
pub struct StatusCommand {
    /// Include archived documents in the status view.
    pub include_archived: bool,
    /// Output format (table, compact, json).
    pub format: OutputFormat,
}

/// The report lists documents of these types.
pub open spec fn status_document_types() -> Seq<Seq<char>> {
    seq!["vision"@, "strategy"@, "initiative"@, "task"@, "adr"@]
}

impl StatusCommand {
    /// The document types the report queries, in order.
    pub fn get_document_types() -> (res: Vec<&'static str>)
        ensures
            res@.len() == 5,
            forall|i: int| 0 <= i < 5 ==> (#[trigger] res@[i])@ == status_document_types()[i],
    {
        vec!["vision", "strategy", "initiative", "task", "adr"]
    }

    /// How actionable a document is: 0 for blocked work, up to 8 for phases the
    /// report does not know.
    pub fn get_action_priority(&self, doc: &Document) -> (res: u8)
        ensures
            res == priority_of(doc.phase@),
    {
        let p = chars_of(doc.phase.as_str());
        if crate::text::chars_eq(&p, &chars_of("blocked")) {
            0
        } else if crate::text::chars_eq(&p, &chars_of("todo")) {
            1
        } else if crate::text::chars_eq(&p, &chars_of("discussion")) {
            2
        } else if crate::text::chars_eq(&p, &chars_of("active")) {
            3
        } else if crate::text::chars_eq(&p, &chars_of("discovery")) || crate::text::chars_eq(&p, &chars_of("shaping"))
            || crate::text::chars_eq(&p, &chars_of("design")) {
            4
        } else if crate::text::chars_eq(&p, &chars_of("ready")) || crate::text::chars_eq(&p, &chars_of("decompose")) {
            5
        } else if crate::text::chars_eq(&p, &chars_of("review")) {
            6
        } else if crate::text::chars_eq(&p, &chars_of("decided")) || crate::text::chars_eq(&p, &chars_of("published"))
            || crate::text::chars_eq(&p, &chars_of("completed")) {
            7
        } else {
            8
        }
    }

    /// Whether `a` is listed before `b` by key.
    fn comes_before(&self, a: &Document, b: &Document) -> (res: bool)
        ensures
            res == key_before(*a, *b),
    {
        let pa = self.get_action_priority(a);
        let pb = self.get_action_priority(b);
        pa < pb || (pa == pb && a.updated_at > b.updated_at)
    }

    /// Sorts the documents into report order (a stable sort by priority, then by
    /// most recent update).
    pub fn sort_documents_by_priority(&self, docs: &mut Vec<Document>)
        ensures
            arranged_by_priority(old(docs)@, final(docs)@),
    {
        let ghost orig = docs@;
        let mut src: Vec<Document> = Vec::new();
        std::mem::swap(docs, &mut src);
        let n = src.len();
        let mut out: Vec<Document> = Vec::new();
        let ghost mut ix: Seq<int> = Seq::empty();
        let mut k: usize = 0;
        while k < n
            invariant
                n == orig.len(),
                k <= n,
                src@ == orig.skip(k as int),
                ix.len() == k,
                forall|p: int| 0 <= p < ix.len() ==> 0 <= #[trigger] ix[p] < k,
                forall|p: int, q: int| 0 <= p < q < ix.len() ==> #[trigger] ix[p] != #[trigger] ix[q],
                ranked(orig, ix),
                picks(orig, out@, ix),
            decreases n - k,
        {
            let d = src.remove(0);
            assert(d == orig[k as int]);
            assert(src@ =~= orig.skip(k + 1));
            // find the first position whose document comes after `d`
            let mut pos: usize = 0;
            while pos < out.len() && !self.comes_before(&d, &out[pos])
                invariant
                    pos <= out@.len(),
                    forall|p: int| 0 <= p < pos ==> !key_before(d, #[trigger] out@[p]),
                decreases out@.len() - pos,
            {
                pos = pos + 1;
            }
            let ghost old_ix = ix;
            let ghost old_out = out@;
            out.insert(pos, d);
            proof {
                ix = old_ix.insert(pos as int, k as int);
                // every document from `pos` on comes after `d` by key
                assert forall|q: int| pos <= q < old_ix.len() implies key_before(d, #[trigger] old_out[q]) by {
                    if q > pos {
                        assert(rank_before(orig, old_ix[pos as int], old_ix[q]));
                    }
                }
                assert forall|p: int, q: int| 0 <= p < q < ix.len() implies
                    rank_before(orig, #[trigger] ix[p], #[trigger] ix[q]) by {
                    if p < pos && q < pos {
                        assert(rank_before(orig, old_ix[p], old_ix[q]));
                    } else if p < pos && q == pos {
                        assert(!key_before(d, old_out[p]));
                        assert(old_ix[p] < k);
                    } else if p < pos && q > pos {
                        assert(rank_before(orig, old_ix[p], old_ix[q - 1]));
                    } else if p == pos {
                        assert(key_before(d, old_out[q - 1]));
                    } else {
                        assert(rank_before(orig, old_ix[p - 1], old_ix[q - 1]));
                    }
                }
                assert forall|p: int| 0 <= p < ix.len() implies out@[p] == orig[#[trigger] ix[p]] by {
                    if p < pos {
                        assert(old_out[p] == orig[old_ix[p]]);
                    } else if p > pos {
                        assert(old_out[p - 1] == orig[old_ix[p - 1]]);
                    }
                }
                assert forall|p: int| 0 <= p < ix.len() implies 0 <= #[trigger] ix[p] < k + 1 by {
                    if p < pos {
                        assert(0 <= old_ix[p] < k);
                    } else if p > pos {
                        assert(0 <= old_ix[p - 1] < k);
                    }
                }
                assert forall|p: int, q: int| 0 <= p < q < ix.len() implies #[trigger] ix[p] != #[trigger] ix[q] by {
                    if p < pos && q < pos {
                        assert(old_ix[p] != old_ix[q]);
                    } else if p < pos && q > pos {
                        assert(old_ix[p] != old_ix[q - 1]);
                    } else if p > pos {
                        assert(old_ix[p - 1] != old_ix[q - 1]);
                    } else if p == pos {
                        assert(old_ix[q - 1] < k);
                    } else {
                        assert(old_ix[p] < k);
                    }
                }
            }
            k = k + 1;
        }
        assert(is_index_perm(ix, orig.len() as int));
        assert(picks(orig, out@, ix));
        *docs = out;
    }

    /// How many documents are blocked, to do, and active.
    pub fn count_documents_by_phase(&self, documents: &Vec<Document>) -> (res: (usize, usize, usize))
        ensures
            res.0 == count_in_phase(documents@, "blocked"@),
            res.1 == count_in_phase(documents@, "todo"@),
            res.2 == count_in_phase(documents@, "active"@),
    {
        let blocked = chars_of("blocked");
        let todo = chars_of("todo");
        let active = chars_of("active");
        let mut b: usize = 0;
        let mut t: usize = 0;
        let mut a: usize = 0;
        let mut i: usize = 0;
        while i < documents.len()
            invariant
                i <= documents@.len(),
                blocked@ == "blocked"@,
                todo@ == "todo"@,
                active@ == "active"@,
                b == count_in_phase(documents@.take(i as int), "blocked"@),
                t == count_in_phase(documents@.take(i as int), "todo"@),
                a == count_in_phase(documents@.take(i as int), "active"@),
                b <= i && t <= i && a <= i,
            decreases documents@.len() - i,
        {
            let p = chars_of(documents[i].phase.as_str());
            assert(documents@.take(i as int + 1).drop_last() =~= documents@.take(i as int));
            if chars_eq(&p, &blocked) {
                b = b + 1;
            }
            if chars_eq(&p, &todo) {
                t = t + 1;
            }
            if chars_eq(&p, &active) {
                a = a + 1;
            }
            i = i + 1;
        }
        assert(documents@.take(documents@.len() as int) =~= documents@);
        (b, t, a)
    }

    /// The documents the report shows: all of them, or only the unarchived ones
    /// (in their original order) unless archived documents were asked for.
    pub fn filter_documents(&self, documents: Vec<Document>) -> (res: Vec<Document>)
        ensures
            res@ == if self.include_archived { documents@ } else { unarchived(documents@) },
    {
        if self.include_archived {
            return documents;
        }
        let ghost orig = documents@;
        let mut src = documents;
        let mut out: Vec<Document> = Vec::new();
        let n = src.len();
        let mut k: usize = 0;
        while k < n
            invariant
                n == orig.len(),
                k <= n,
                src@ == orig.skip(k as int),
                out@ == unarchived(orig.take(k as int)),
            decreases n - k,
        {
            let d = src.remove(0);
            assert(d == orig[k as int]);
            assert(src@ =~= orig.skip(k + 1));
            assert(orig.take(k + 1).drop_last() =~= orig.take(k as int));
            if !d.archived {
                out.push(d);
            }
            k = k + 1;
        }
        assert(orig.take(n as int) =~= orig);
        out
    }

    /// Shortens `s` to `max_len` bytes, ending a cut string with `…` (the cut keeps
    /// `max_len - 1` bytes).
    pub fn truncate_string(&self, s: &str, max_len: usize) -> (res: String)
        requires
            byte_len(s@) <= max_len || is_byte_boundary(s@, kept_bytes(max_len as int, 1)),
        ensures
            res@ == truncate_with(s@, max_len as int, 1, "…"@),
    {
        let marker = chars_of("…");
        truncate_chars(s, max_len, 1, &marker)
    }

    /// How long ago something happened, given the elapsed whole seconds.
    pub fn format_relative_time(&self, elapsed_secs: i64) -> (res: String)
        ensures
            res@ == relative_time(elapsed_secs as int),
    {
        if elapsed_secs <= 0 {
            return "Just now".to_owned();
        }
        let secs = elapsed_secs as u64;
        let days = secs / 86400;
        let hours = secs / 3600;
        let minutes = secs / 60;
        if days > 0 {
            if days == 1 {
                "1 day ago".to_owned()
            } else if days < 7 {
                string_from_chars(&concat_chars(&decimal_chars(days), &chars_of(" days ago")))
            } else if days < 30 {
                string_from_chars(&concat_chars(&decimal_chars(days / 7), &chars_of(" weeks ago")))
            } else {
                string_from_chars(&concat_chars(&decimal_chars(days / 30), &chars_of(" months ago")))
            }
        } else if hours > 0 {
            if hours == 1 {
                "1 hour ago".to_owned()
            } else {
                string_from_chars(&concat_chars(&decimal_chars(hours), &chars_of(" hours ago")))
            }
        } else if minutes > 0 {
            if minutes == 1 {
                "1 minute ago".to_owned()
            } else {
                string_from_chars(&concat_chars(&decimal_chars(minutes), &chars_of(" minutes ago")))
            }
        } else {
            "Just now".to_owned()
        }
    }
}

/// What serde_json finds under `key` in the JSON text `json` when an array is
/// expected there: `None` when the text does not parse, has no such key, or the
/// value is not an array; otherwise each item, as its text when it is a string.
pub uninterp spec fn json_array_field(json: Seq<char>, key: Seq<char>) -> Option<Seq<Option<Seq<char>>>>;

/// Parses `json` with serde_json (`from_str` into a `Value`), looks `key` up in it
/// with `Value::get` and reads the value with `Value::as_array`, turning each item
/// into its text with `Value::as_str`. The result is named by `json_array_field`.
#[verifier::external_body]
fn json_array_items(json: &str, key: &str) -> (res: Option<Vec<Option<String>>>)
    ensures
        res.deep_view() == json_array_field(json@, key@),
{
    match serde_json::from_str::<serde_json::Value>(json) {
        Err(_) => None,
        Ok(value) => match value.get(key).and_then(serde_json::Value::as_array) {
            None => None,
            Some(items) => Some(items.iter().map(|item| item.as_str().map(String::from)).collect()),
        },
    }
}

/// The string items of a JSON list, in order; items of other kinds are left out.
pub open spec fn string_items(items: Seq<Option<Seq<char>>>) -> Seq<Seq<char>>
    decreases items.len(),
{
    if items.len() == 0 {
        Seq::empty()
    } else {
        let rest = string_items(items.drop_last());
        match items.last() {
            Some(s) => rest.push(s),
            None => rest,
        }
    }
}

/// `parts` written one after another, with `sep` between neighbours.
pub open spec fn joined(parts: Seq<Seq<char>>, sep: Seq<char>) -> Seq<char>
    decreases parts.len(),
{
    if parts.len() == 0 {
        Seq::empty()
    } else if parts.len() == 1 {
        parts[0]
    } else {
        joined(parts.drop_last(), sep) + sep + parts.last()
    }
}

/// The names of the documents that block a document, as listed in its front
/// matter, joined for display.
pub open spec fn blocker_list(items: Seq<Option<Seq<char>>>) -> Seq<char> {
    joined(string_items(items), ", "@)
}

/// The width of the status table's "blocked by" column, in bytes.
pub const BLOCKED_BY_WIDTH: usize = 18;

/// Whether the blocker list can be cut to the column width: it fits, or the byte
/// where the cut falls starts a character.
pub open spec fn blocker_list_cuttable(items: Seq<Option<Seq<char>>>) -> bool {
    byte_len(blocker_list(items)) <= BLOCKED_BY_WIDTH
        || is_byte_boundary(blocker_list(items), kept_bytes(BLOCKED_BY_WIDTH as int, 1))
}

/// What the status table shows in the "blocked by" column of a document in
/// phase `phase` whose front matter holds `items` under `blocked_by`: nothing for
/// a document that is not blocked, the blockers' names (cut to the column) when
/// there are any, and `Unknown` otherwise.
pub open spec fn blocked_by_column(phase: Seq<char>, items: Option<Seq<Option<Seq<char>>>>) -> Seq<char> {
    if phase != "blocked"@ {
        Seq::empty()
    } else {
        match items {
            Some(it) => if string_items(it).len() > 0 {
                truncate_with(blocker_list(it), BLOCKED_BY_WIDTH as int, 1, "…"@)
            } else {
                "Unknown"@
            },
            None => "Unknown"@,
        }
    }
}

/// The string items of `items`, in order.
fn collect_string_items(items: &Vec<Option<String>>) -> (res: Vec<Vec<char>>)
    ensures
        res.deep_view() == string_items(items.deep_view()),
{
    let ghost iv = items.deep_view();
    let mut out: Vec<Vec<char>> = Vec::new();
    let mut i: usize = 0;
    while i < items.len()
        invariant
            i <= items@.len(),
            iv == items.deep_view(),
            out.deep_view() == string_items(iv.take(i as int)),
        decreases items@.len() - i,
    {
        assert(iv.take(i as int + 1).drop_last() =~= iv.take(i as int));
        assert(iv.take(i as int + 1).last() == iv[i as int]);
        match &items[i] {
            Some(name) => {
                let cs = chars_of(name.as_str());
                let ghost before = out@;
                assert(cs.deep_view() =~= cs@);
                out.push(cs);
                assert(out@ == before.push(cs));
                assert(out.deep_view() =~= string_items(iv.take(i as int)).push(cs@));
            },
            None => {},
        }
        i = i + 1;
    }
    assert(iv.take(items@.len() as int) =~= iv);
    out
}

/// `parts` joined with `sep` between neighbours.
fn join_chars(parts: &Vec<Vec<char>>, sep: &Vec<char>) -> (res: Vec<char>)
    ensures
        res@ == joined(parts.deep_view(), sep@),
{
    let ghost pv = parts.deep_view();
    let mut out: Vec<char> = Vec::new();
    let mut i: usize = 0;
    while i < parts.len()
        invariant
            i <= parts@.len(),
            pv == parts.deep_view(),
            out@ == joined(pv.take(i as int), sep@),
        decreases parts@.len() - i,
    {
        assert(pv.take(i as int + 1).drop_last() =~= pv.take(i as int));
        assert(pv[i as int] == parts@[i as int]@);
        if i == 0 {
            out = parts[i].clone();
            assert(out@ == parts@[0]@);
        } else {
            out = concat_chars(&concat_chars(&out, sep), &parts[i]);
        }
        i = i + 1;
    }
    assert(pv.take(parts@.len() as int) =~= pv);
    out
}

impl StatusCommand {
    /// The "blocked by" column for a document in phase `phase` whose front matter
    /// holds `items` under `blocked_by` (see `json_array_field`).
    pub fn blocked_by_text(&self, phase: &str, items: Option<Vec<Option<String>>>) -> (res: String)
        requires
            phase@ == "blocked"@ && items.deep_view() is Some ==> blocker_list_cuttable(items.deep_view()->0),
        ensures
            res@ == blocked_by_column(phase@, items.deep_view()),
    {
        if !str_is(phase, &chars_of("blocked")) {
            return String::new();
        }
        match items {
            Some(list) => {
                let names = collect_string_items(&list);
                if names.len() > 0 {
                    let text = string_from_chars(&join_chars(&names, &chars_of(", ")));
                    self.truncate_string(&text, BLOCKED_BY_WIDTH)
                } else {
                    "Unknown".to_owned()
                }
            },
            None => "Unknown".to_owned(),
        }
    }

    /// The "blocked by" column for `doc`, read from the `blocked_by` list of its
    /// front matter. `None` when the list cannot be cut to the column width at a
    /// character boundary.
    pub fn extract_blocked_by_info(&self, doc: &Document) -> (res: Option<String>)
        ensures
            ({
                let items = json_array_field(doc.frontmatter_json@, "blocked_by"@);
                let cuttable = doc.phase@ == "blocked"@ && items is Some ==> blocker_list_cuttable(items->0);
                match res {
                    Some(s) => cuttable && s@ == blocked_by_column(doc.phase@, items),
                    None => !cuttable,
                }
            }),
    {
        let items = json_array_items(doc.frontmatter_json.as_str(), "blocked_by");
        if str_is(doc.phase.as_str(), &chars_of("blocked")) {
            match &items {
                Some(list) => {
                    let text = join_chars(&collect_string_items(list), &chars_of(", "));
                    let len = byte_len_min(&text, BLOCKED_BY_WIDTH + 1);
                    if len > BLOCKED_BY_WIDTH && char_count_at_byte(&text, BLOCKED_BY_WIDTH - 1).is_none() {
                        return None;
                    }
                },
                None => {},
            }
        }
        Some(self.blocked_by_text(doc.phase.as_str(), items))
    }
}

/// How many documents of `docs` are in the phase named `phase`.
pub open spec fn count_in_phase(docs: Seq<Document>, phase: Seq<char>) -> nat
    decreases docs.len(),
{
    if docs.len() == 0 {
        0
    } else {
        count_in_phase(docs.drop_last(), phase) + if docs.last().phase@ == phase { 1nat } else { 0nat }
    }
}

/// The documents of `docs` that are not archived, in order.
pub open spec fn unarchived(docs: Seq<Document>) -> Seq<Document>
    decreases docs.len(),
{
    if docs.len() == 0 {
        docs
    } else if docs.last().archived {
        unarchived(docs.drop_last())
    } else {
        unarchived(docs.drop_last()).push(docs.last())
    }
}

/// How long ago something happened `secs` seconds back: whole days (weeks from a
/// week on, months of 30 days from 30 days on), else whole hours, else whole
/// minutes, else "Just now".
pub open spec fn relative_time(secs: int) -> Seq<char> {
    if secs <= 0 {
        "Just now"@
    } else if secs / 86400 > 0 {
        let days = secs / 86400;
        if days == 1 {
            "1 day ago"@
        } else if days < 7 {
            decimal(days as nat) + " days ago"@
        } else if days < 30 {
            decimal((days / 7) as nat) + " weeks ago"@
        } else {
            decimal((days / 30) as nat) + " months ago"@
        }
    } else if secs / 3600 > 0 {
        if secs / 3600 == 1 {
            "1 hour ago"@
        } else {
            decimal((secs / 3600) as nat) + " hours ago"@
        }
    } else if secs / 60 > 0 {
        if secs / 60 == 1 {
            "1 minute ago"@
        } else {
            decimal((secs / 60) as nat) + " minutes ago"@
        }
    } else {
        "Just now"@
    }
}

/// Report order compares documents by priority, then by most recent update,
/// then by position.
proof fn lemma_rank_lex(d: Seq<Document>, x: int, y: int)
    ensures
        rank_before(d, x, y) == (priority_of(d[x].phase@) < priority_of(d[y].phase@) || (priority_of(d[x].phase@)
            == priority_of(d[y].phase@) && (d[x].updated_at > d[y].updated_at || (d[x].updated_at
            == d[y].updated_at && x < y)))),
{
}

/// Report order is transitive.
proof fn lemma_rank_transitive(d: Seq<Document>, x: int, y: int, z: int)
    requires
        rank_before(d, x, y),
        rank_before(d, y, z),
    ensures
        rank_before(d, x, z),
{
    lemma_rank_lex(d, x, y);
    lemma_rank_lex(d, y, z);
    lemma_rank_lex(d, x, z);
}

/// An arrangement of the positions `0..n` lists every position.
proof fn lemma_perm_covers(ix: Seq<int>, n: int, j: int)
    requires
        is_index_perm(ix, n),
        0 <= j < n,
    ensures
        ix.contains(j),
{
    broadcast use vstd::seq_lib::seq_to_set_is_finite;
    assert(ix.no_duplicates()) by {
        assert forall|p: int, q: int| 0 <= p < ix.len() && 0 <= q < ix.len() && p != q implies ix[p] != ix[q] by {
            if p < q {
                assert(ix[p] != ix[q]);
            } else {
                assert(ix[q] != ix[p]);
            }
        }
    }
    ix.unique_seq_to_set();
    let range = vstd::set_lib::set_int_range(0, n);
    vstd::set_lib::lemma_int_range(0, n);
    assert(ix.to_set().subset_of(range));
    vstd::set_lib::lemma_subset_equality(ix.to_set(), range);
    assert(range.contains(j));
    assert(ix.to_set().contains(j));
}

/// Two lists of positions in report order with the same positions are equal.
proof fn lemma_ranked_lists_equal(d: Seq<Document>, a: Seq<int>, b: Seq<int>)
    requires
        ranked(d, a),
        ranked(d, b),
        forall|x: int| a.contains(x) <==> b.contains(x),
    ensures
        a == b,
    decreases a.len(),
{
    if a.len() == 0 {
        if b.len() > 0 {
            assert(b.contains(b[0]));
        }
        assert(a =~= b);
    } else {
        assert(a.contains(a[0]));
        let j = choose|j: int| 0 <= j < b.len() && b[j] == a[0];
        assert(b.contains(b[0]));
        let i = choose|i: int| 0 <= i < a.len() && a[i] == b[0];
        if j > 0 && i > 0 {
            assert(rank_before(d, b[0], b[j]));
            assert(rank_before(d, a[0], a[i]));
            lemma_rank_transitive(d, b[0], a[0], b[0]);
            lemma_rank_lex(d, b[0], b[0]);
        } else if j > 0 {
            assert(a[0] == b[0]);
        }
        assert(a[0] == b[0]);
        let a2 = a.drop_first();
        let b2 = b.drop_first();
        assert forall|x: int| a2.contains(x) <==> b2.contains(x) by {
            if a2.contains(x) {
                let k = choose|k: int| 0 <= k < a2.len() && a2[k] == x;
                assert(rank_before(d, a[0], a[k + 1]));
                lemma_rank_lex(d, x, x);
                assert(a.contains(x));
                let m = choose|m: int| 0 <= m < b.len() && b[m] == x;
                assert(m != 0);
                assert(b2[m - 1] == x);
            }
            if b2.contains(x) {
                let k = choose|k: int| 0 <= k < b2.len() && b2[k] == x;
                assert(rank_before(d, b[0], b[k + 1]));
                lemma_rank_lex(d, x, x);
                assert(b.contains(x));
                let m = choose|m: int| 0 <= m < a.len() && a[m] == x;
                assert(m != 0);
                assert(a2[m - 1] == x);
            }
        }
        assert forall|p: int, q: int| 0 <= p < q < a2.len() implies rank_before(d, #[trigger] a2[p], #[trigger] a2[q]) by {
            assert(rank_before(d, a[p + 1], a[q + 1]));
        }
        assert forall|p: int, q: int| 0 <= p < q < b2.len() implies rank_before(d, #[trigger] b2[p], #[trigger] b2[q]) by {
            assert(rank_before(d, b[p + 1], b[q + 1]));
        }
        lemma_ranked_lists_equal(d, a2, b2);
        assert(a =~= seq![a[0]] + a2);
        assert(b =~= seq![b[0]] + b2);
    }
}

/// The report order is fully determined: two arrangements of the same
/// documents in report order are the same list.
pub proof fn law_report_order_unique(docs: Seq<Document>, a: Seq<Document>, b: Seq<Document>)
    requires
        arranged_by_priority(docs, a),
        arranged_by_priority(docs, b),
    ensures
        a == b,
{
    let n = docs.len() as int;
    let ia = choose|ix: Seq<int>| is_index_perm(ix, n) && ranked(docs, ix) && #[trigger] picks(docs, a, ix);
    let ib = choose|ix: Seq<int>| is_index_perm(ix, n) && ranked(docs, ix) && #[trigger] picks(docs, b, ix);
    assert forall|x: int| ia.contains(x) <==> ib.contains(x) by {
        if ia.contains(x) {
            let p = choose|p: int| 0 <= p < ia.len() && ia[p] == x;
            lemma_perm_covers(ib, n, x);
        }
        if ib.contains(x) {
            let p = choose|p: int| 0 <= p < ib.len() && ib[p] == x;
            lemma_perm_covers(ia, n, x);
        }
    }
    lemma_ranked_lists_equal(docs, ia, ib);
    assert(a.len() == b.len());
    assert forall|p: int| 0 <= p < a.len() implies a[p] == b[p] by {
        assert(a[p] == docs[ia[p]]);
        assert(b[p] == docs[ib[p]]);
    }
    assert(a =~= b);
}

} // verus!
