//! `metis flush`: pending overlay changes are written into main's tree in one
//! commit. The pending folder holds new file contents and tombstones; the new
//! tree is main's tree with the contents put in and the tombstoned paths taken
//! out.

use vstd::prelude::*;
use crate::detection::{ancestor_dirs, ancestors, is_candidate_workspace, lemma_first_true_bound, nearest_workspace};
use crate::disk::path_is_dir;
use crate::paths::{concat_chars, join, parent, path_join, slice_chars};
use crate::text::{opt_view, chars_contains, chars_ends_with, chars_eq, chars_of, contains_seq, ends_with, string_from_chars};

verus! {

/// The flush command (it takes no options).
pub struct FlushCommand;

/// The nearest `.metis` folder at `start` or above it: the disk is asked whether
/// the `.metis` folder of each directory of `ancestor_dirs(start)` is a directory,
/// and `nearest_workspace` chooses from the answers. What the disk answers is not
/// stated; the choice for given answers is.
pub fn find_metis_workspace(start: &str) -> (res: Option<String>)
    ensures
        res matches Some(d) ==> is_candidate_workspace(start@, d@),
{
    let dirs = ancestor_dirs(start);
    assert(dirs@.len() == dirs.deep_view().len());
    let mut answers: Vec<bool> = Vec::new();
    let mut i: usize = 0;
    while i < dirs.len()
        invariant
            i <= dirs@.len(),
            dirs@.len() == ancestors(start@).len(),
            answers@.len() == i,
        decreases dirs@.len() - i,
    {
        let metis_dir = join(dirs[i].as_str(), ".metis");
        answers.push(path_is_dir(metis_dir.as_str()));
        i = i + 1;
    }
    proof {
        lemma_first_true_bound(answers@, answers@.len() as int);
    }
    nearest_workspace(start, &answers)
}

/// The branch that a flush commits to: `main` if that local branch exists,
/// else `master`, else none.
pub fn resolve_main_branch(has_main: bool, has_master: bool) -> (res: Option<&'static str>)
    ensures
        match res {
            Some(b) => (has_main && b@ == "main"@) || (!has_main && has_master && b@ == "master"@),
            None => !has_main && !has_master,
        },
{
    if has_main {
        Some("main")
    } else if has_master {
        Some("master")
    } else {
        None
    }
}

/// `s` with every trailing repetition of `suffix` removed, as
/// `str::trim_end_matches` gives it.
pub open spec fn trim_end_matches(s: Seq<char>, suffix: Seq<char>) -> Seq<char>
    decreases s.len(),
{
    if suffix.len() > 0 && ends_with(s, suffix) {
        trim_end_matches(s.take(s.len() - suffix.len()), suffix)
    } else {
        s
    }
}

/// What a file of the pending folder stands for.
#[derive(Debug, PartialEq, Eq)]
pub enum PendingEntry {
    /// A tombstone: the tree path it deletes.
    Tombstone(String),
    /// New content for the tree path.
    File(String),
}

/// The tree path of a pending file: the workspace folder's name, a `/`, and the
/// file's path below the pending folder.
pub open spec fn pending_tree_path(ws_name: Seq<char>, rel: Seq<char>) -> Seq<char> {
    ws_name + "/"@ + rel
}

/// Removes every trailing repetition of `suffix` from `s`.
pub fn trim_suffix_repeats(s: &Vec<char>, suffix: &Vec<char>) -> (res: Vec<char>)
    ensures
        res@ == trim_end_matches(s@, suffix@),
{
    let mut cur = slice_chars(s, 0, s.len());
    assert(cur@ =~= s@);
    if suffix.len() == 0 {
        return cur;
    }
    while chars_ends_with(&cur, suffix)
        invariant
            suffix@.len() > 0,
            trim_end_matches(cur@, suffix@) == trim_end_matches(s@, suffix@),
        decreases cur@.len(),
    {
        let keep = cur.len() - suffix.len();
        let next = slice_chars(&cur, 0, keep);
        assert(next@ =~= cur@.take(cur@.len() - suffix@.len()));
        cur = next;
    }
    cur
}

/// Classifies a file of the pending folder, given the workspace folder's name,
/// its path below the pending folder and its file name: a name ending in
/// `.deleted` is a tombstone for its tree path with those suffixes removed;
/// anything else is new content for its tree path.
pub fn classify_pending(ws_name: &str, rel: &str, file_name: &str) -> (res: PendingEntry)
    ensures
        ends_with(file_name@, ".deleted"@) ==> (res matches PendingEntry::Tombstone(p)
            && p@ == trim_end_matches(pending_tree_path(ws_name@, rel@), ".deleted"@)),
        !ends_with(file_name@, ".deleted"@) ==> (res matches PendingEntry::File(p)
            && p@ == pending_tree_path(ws_name@, rel@)),
{
    let tree = concat_chars(&concat_chars(&chars_of(ws_name), &chars_of("/")), &chars_of(rel));
    let suffix = chars_of(".deleted");
    if chars_ends_with(&chars_of(file_name), &suffix) {
        PendingEntry::Tombstone(string_from_chars(&trim_suffix_repeats(&tree, &suffix)))
    } else {
        PendingEntry::File(string_from_chars(&tree))
    }
}

/// The map from paths to contents that a list of entries builds when they are
/// inserted in order (a later entry replaces an earlier one).
pub open spec fn entries_map(e: Seq<(Seq<char>, Seq<u8>)>) -> Map<Seq<char>, Seq<u8>>
    decreases e.len(),
{
    if e.len() == 0 {
        Map::empty()
    } else {
        entries_map(e.drop_last()).insert(e.last().0, e.last().1)
    }
}

/// The entries `v` list the map `m`: each path once, with its content.
pub open spec fn lists_map(v: Seq<(Seq<char>, Seq<u8>)>, m: Map<Seq<char>, Seq<u8>>) -> bool {
    &&& forall|i: int, j: int| 0 <= i < j < v.len() ==> (#[trigger] v[i]).0 != (#[trigger] v[j]).0
    &&& forall|i: int| 0 <= i < v.len() ==> m.contains_key((#[trigger] v[i]).0) && m[v[i].0] == v[i].1
    &&& forall|k: Seq<char>| #[trigger] m.contains_key(k) ==> exists|i: int| 0 <= i < v.len() && (#[trigger] v[i]).0 == k
}

/// The pending files as entries: each path with the UTF-8 bytes of its content.
pub open spec fn pending_entries(overlay: Seq<(Seq<char>, Seq<char>)>) -> Seq<(Seq<char>, Seq<u8>)> {
    overlay.map_values(|p: (Seq<char>, Seq<char>)| (p.0, vstd::utf8::encode_utf8(p.1)))
}

/// The tree that a flush writes: main's entries, with the pending files put in
/// (replacing what was there) and the tombstoned paths taken out.
pub open spec fn merged_tree(
    base: Seq<(Seq<char>, Seq<u8>)>,
    overlay: Seq<(Seq<char>, Seq<char>)>,
    tombstones: Seq<Seq<char>>,
) -> Map<Seq<char>, Seq<u8>> {
    entries_map(base).union_prefer_right(entries_map(pending_entries(overlay))).remove_keys(tombstones.to_set())
}

/// The position of `key` among the entries `v`.
fn find_entry(v: &Vec<(String, Vec<u8>)>, key: &Vec<char>) -> (res: Option<usize>)
    ensures
        match res {
            Some(i) => i < v@.len() && v.deep_view()[i as int].0 == key@,
            None => forall|i: int| 0 <= i < v@.len() ==> (#[trigger] v.deep_view()[i]).0 != key@,
        },
{
    let mut i: usize = 0;
    while i < v.len()
        invariant
            i <= v@.len(),
            forall|j: int| 0 <= j < i ==> (#[trigger] v.deep_view()[j]).0 != key@,
        decreases v@.len() - i,
    {
        if chars_eq(&chars_of(v[i].0.as_str()), key) {
            return Some(i);
        }
        i = i + 1;
    }
    None
}

/// Puts `content` under `key`, replacing the content there.
fn upsert_entry(v: &mut Vec<(String, Vec<u8>)>, key: String, content: Vec<u8>, Ghost(m): Ghost<Map<Seq<char>, Seq<u8>>>)
    requires
        lists_map(old(v).deep_view(), m),
    ensures
        lists_map(final(v).deep_view(), m.insert(key@, content@)),
{
    let ghost kv = key@;
    let ghost cv = content@;
    assert(content.deep_view() =~= content@);
    let ghost ov = v.deep_view();
    match find_entry(v, &chars_of(key.as_str())) {
        Some(i) => {
            v.set(i, (key, content));
            proof {
                let nv = v.deep_view();
                assert(nv =~= ov.update(i as int, (kv, cv)));
                let m2 = m.insert(kv, cv);
                assert forall|a: int, b: int| 0 <= a < b < nv.len() implies (#[trigger] nv[a]).0 != (#[trigger] nv[b]).0 by {
                    assert(ov[a].0 != ov[b].0);
                }
                assert forall|k: Seq<char>| #[trigger] m2.contains_key(k) implies exists|j: int| 0 <= j < nv.len() && (#[trigger] nv[j]).0 == k by {
                    if k == kv {
                        assert(nv[i as int].0 == k);
                    } else {
                        let j = choose|j: int| 0 <= j < ov.len() && (#[trigger] ov[j]).0 == k;
                        assert(nv[j].0 == k);
                    }
                }
                assert forall|a: int| 0 <= a < nv.len() implies m2.contains_key((#[trigger] nv[a]).0) && m2[nv[a].0] == nv[a].1 by {
                    if a != i {
                        assert(ov[a].0 != ov[i as int].0 || a == i);
                        if a < i {
                            assert(ov[a].0 != ov[i as int].0);
                        } else {
                            assert(ov[i as int].0 != ov[a].0);
                        }
                    }
                }
            }
        },
        None => {
            v.push((key, content));
            proof {
                let nv = v.deep_view();
                assert(nv =~= ov.push((kv, cv)));
                let m2 = m.insert(kv, cv);
                assert forall|k: Seq<char>| #[trigger] m2.contains_key(k) implies exists|j: int| 0 <= j < nv.len() && (#[trigger] nv[j]).0 == k by {
                    if k == kv {
                        assert(nv[ov.len() as int].0 == k);
                    } else {
                        let j = choose|j: int| 0 <= j < ov.len() && (#[trigger] ov[j]).0 == k;
                        assert(nv[j].0 == k);
                    }
                }
                assert forall|a: int| 0 <= a < nv.len() implies m2.contains_key((#[trigger] nv[a]).0) && m2[nv[a].0] == nv[a].1 by {
                    if a < ov.len() {
                        assert(ov[a].0 != kv);
                    }
                }
            }
        },
    }
}

/// Takes `key` out of the entries.
fn remove_entry(v: &mut Vec<(String, Vec<u8>)>, key: &String, Ghost(m): Ghost<Map<Seq<char>, Seq<u8>>>)
    requires
        lists_map(old(v).deep_view(), m),
    ensures
        lists_map(final(v).deep_view(), m.remove(key@)),
{
    let ghost ov = v.deep_view();
    match find_entry(v, &chars_of(key.as_str())) {
        Some(i) => {
            v.remove(i);
            proof {
                let nv = v.deep_view();
                assert(nv =~= ov.remove(i as int));
                let m2 = m.remove(key@);
                assert forall|a: int, b: int| 0 <= a < b < nv.len() implies (#[trigger] nv[a]).0 != (#[trigger] nv[b]).0 by {
                    let a0 = if a < i { a } else { a + 1 };
                    let b0 = if b < i { b } else { b + 1 };
                    assert(ov[a0].0 != ov[b0].0);
                }
                assert forall|k: Seq<char>| #[trigger] m2.contains_key(k) implies exists|j: int| 0 <= j < nv.len() && (#[trigger] nv[j]).0 == k by {
                    let j = choose|j: int| 0 <= j < ov.len() && (#[trigger] ov[j]).0 == k;
                    if j < i {
                        assert(nv[j].0 == k);
                    } else {
                        assert(j != i);
                        assert(nv[j - 1].0 == k);
                    }
                }
                assert forall|a: int| 0 <= a < nv.len() implies m2.contains_key((#[trigger] nv[a]).0) && m2[nv[a].0] == nv[a].1 by {
                    let a0 = if a < i { a } else { a + 1 };
                    assert(nv[a] == ov[a0]);
                    if a0 < i {
                        assert(ov[a0].0 != ov[i as int].0);
                    } else {
                        assert(ov[i as int].0 != ov[a0].0);
                    }
                }
            }
        },
        None => {
            proof {
                let m2 = m.remove(key@);
                assert forall|k: Seq<char>| #[trigger] m2.contains_key(k) implies exists|j: int| 0 <= j < ov.len() && (#[trigger] ov[j]).0 == k by {
                }
            }
        },
    }
}

/// Builds the entries of the tree that a flush writes: the entries of main's
/// tree (in walk order), with the pending files put in and the tombstoned paths
/// taken out. Each path is listed once.
pub fn merge_entries(base: &Vec<(String, Vec<u8>)>, overlay: &Vec<(String, String)>, tombstones: &Vec<String>)
    -> (res: Vec<(String, Vec<u8>)>)
    ensures
        lists_map(res.deep_view(), merged_tree(base.deep_view(), overlay.deep_view(), tombstones.deep_view())),
{
    let ghost bv = base.deep_view();
    let ghost ovl = pending_entries(overlay.deep_view());
    let mut out: Vec<(String, Vec<u8>)> = Vec::new();
    let mut i: usize = 0;
    assert(bv.take(0) =~= Seq::<(Seq<char>, Seq<u8>)>::empty());
    while i < base.len()
        invariant
            i <= base@.len() == bv.len(),
            bv == base.deep_view(),
            lists_map(out.deep_view(), entries_map(bv.take(i as int))),
        decreases base@.len() - i,
    {
        let ghost m = entries_map(bv.take(i as int));
        assert(bv.take(i + 1).drop_last() =~= bv.take(i as int));
        let content = vec_clone(&base[i].1);
        let key = base[i].0.clone();
        proof {
            assert(base@[i as int].1.deep_view() =~= base@[i as int].1@);
            assert(bv[i as int] == (key@, content@));
            assert(entries_map(bv.take(i + 1)) == m.insert(key@, content@));
        }
        upsert_entry(&mut out, key, content, Ghost(m));
        i = i + 1;
    }
    assert(bv.take(bv.len() as int) =~= bv);
    let ghost bm = entries_map(bv);
    let mut j: usize = 0;
    assert(ovl.take(0) =~= Seq::<(Seq<char>, Seq<u8>)>::empty());
    proof {
        assert(bm.union_prefer_right(entries_map(ovl.take(0))) =~= bm);
    }
    while j < overlay.len()
        invariant
            j <= overlay@.len() == ovl.len(),
            ovl == pending_entries(overlay.deep_view()),
            lists_map(out.deep_view(), bm.union_prefer_right(entries_map(ovl.take(j as int)))),
        decreases overlay@.len() - j,
    {
        let ghost m = bm.union_prefer_right(entries_map(ovl.take(j as int)));
        assert(ovl.take(j + 1).drop_last() =~= ovl.take(j as int));
        let bytes = overlay[j].1.as_str().as_bytes_vec();
        assert(ovl[j as int] == (overlay@[j as int].0@, bytes@));
        assert(bm.union_prefer_right(entries_map(ovl.take(j + 1))) =~= m.insert(overlay@[j as int].0@, bytes@));
        upsert_entry(&mut out, overlay[j].0.clone(), bytes, Ghost(m));
        j = j + 1;
    }
    assert(ovl.take(ovl.len() as int) =~= ovl);
    let ghost um = bm.union_prefer_right(entries_map(ovl));
    let ghost tv = tombstones.deep_view();
    let mut t: usize = 0;
    proof {
        assert(um.remove_keys(tv.take(0).to_set()) =~= um);
    }
    while t < tombstones.len()
        invariant
            t <= tombstones@.len() == tv.len(),
            tv == tombstones.deep_view(),
            lists_map(out.deep_view(), um.remove_keys(tv.take(t as int).to_set())),
        decreases tombstones@.len() - t,
    {
        let ghost m = um.remove_keys(tv.take(t as int).to_set());
        proof {
            lemma_take_to_set(tv, t as int);
            assert(um.remove_keys(tv.take(t + 1).to_set()) =~= m.remove(tv[t as int]));
        }
        remove_entry(&mut out, &tombstones[t], Ghost(m));
        t = t + 1;
    }
    assert(tv.take(tv.len() as int) =~= tv);
    out
}

/// The set of the first `t + 1` items is that of the first `t` with item `t`.
proof fn lemma_take_to_set(s: Seq<Seq<char>>, t: int)
    requires
        0 <= t < s.len(),
    ensures
        s.take(t + 1).to_set() == s.take(t).to_set().insert(s[t]),
{
    assert forall|x: Seq<char>| s.take(t + 1).to_set().contains(x) <==> s.take(t).to_set().insert(s[t]).contains(x) by {
        if s.take(t + 1).contains(x) {
            let i = choose|i: int| 0 <= i < t + 1 && #[trigger] s.take(t + 1)[i] == x;
            if i < t {
                assert(s.take(t)[i] == x);
            }
        }
        if s.take(t).contains(x) {
            let i = choose|i: int| 0 <= i < t && #[trigger] s.take(t)[i] == x;
            assert(s.take(t + 1)[i] == x);
        }
        if x == s[t] {
            assert(s.take(t + 1)[t] == x);
        }
    }
    assert(s.take(t + 1).to_set() =~= s.take(t).to_set().insert(s[t]));
}

/// A copy of a byte vector.
fn vec_clone(v: &Vec<u8>) -> (res: Vec<u8>)
    ensures
        res@ == v@,
{
    let mut out: Vec<u8> = Vec::new();
    let mut i: usize = 0;
    while i < v.len()
        invariant
            i <= v@.len(),
            out@ == v@.take(i as int),
        decreases v@.len() - i,
    {
        out.push(v[i]);
        assert(v@.take(i + 1) =~= v@.take(i as int).push(v@[i as int]));
        i = i + 1;
    }
    assert(v@.take(v@.len() as int) =~= v@);
    out
}

/// What a flush writes at a path: a path survives unless tombstoned, and then
/// holds the pending content if there is one, else main's content.
pub proof fn law_flush_keeps_writes(
    base: Seq<(Seq<char>, Seq<u8>)>,
    overlay: Seq<(Seq<char>, Seq<char>)>,
    tombstones: Seq<Seq<char>>,
    path: Seq<char>,
)
    ensures
        merged_tree(base, overlay, tombstones).contains_key(path) <==> (!tombstones.contains(path)
            && (entries_map(base).contains_key(path) || entries_map(pending_entries(overlay)).contains_key(path))),
        merged_tree(base, overlay, tombstones).contains_key(path) ==> merged_tree(base, overlay, tombstones)[path] == if entries_map(
            pending_entries(overlay),
        ).contains_key(path) {
            entries_map(pending_entries(overlay))[path]
        } else {
            entries_map(base)[path]
        },
{
}

/// The position of the first `c` in `s`, or -1.
pub open spec fn first_index_of(s: Seq<char>, c: char) -> int
    decreases s.len(),
{
    if s.len() == 0 {
        -1
    } else if s[0] == c {
        0
    } else {
        let i = first_index_of(s.drop_first(), c);
        if i < 0 { -1 } else { i + 1 }
    }
}

/// The first component of a tree path and the rest below it; `None` for a path
/// without a separator.
#[verifier::opaque]
pub open spec fn top_split(p: Seq<char>) -> Option<(Seq<char>, Seq<char>)> {
    let i = first_index_of(p, '/');
    if i < 0 {
        None
    } else {
        Some((p.take(i), p.skip(i + 1)))
    }
}

/// The top-level folder of a tree path (empty without a separator).
pub open spec fn top_dir(p: Seq<char>) -> Seq<char> {
    match top_split(p) {
        Some((d, _)) => d,
        None => Seq::empty(),
    }
}

/// The path below the top-level folder (empty without a separator).
pub open spec fn top_rest(p: Seq<char>) -> Seq<char> {
    match top_split(p) {
        Some((_, r)) => r,
        None => Seq::empty(),
    }
}

/// The first `c` in `s`.
pub fn find_first_char(s: &Vec<char>, c: char) -> (res: Option<usize>)
    ensures
        match res {
            Some(i) => first_index_of(s@, c) == i as int && i < s@.len(),
            None => first_index_of(s@, c) < 0,
        },
{
    let mut i: usize = 0;
    while i < s.len()
        invariant
            i <= s@.len(),
            forall|j: int| 0 <= j < i ==> s@[j] != c,
        decreases s@.len() - i,
    {
        if s[i] == c {
            proof {
                lemma_first_index_of(s@, c, i as int);
            }
            return Some(i);
        }
        i = i + 1;
    }
    proof {
        lemma_first_index_of(s@, c, s@.len() as int);
    }
    None
}

/// The first `c` of `s` is at `i` when none comes before `i` and one is at `i`;
/// there is none when none comes before the end.
proof fn lemma_first_index_of(s: Seq<char>, c: char, i: int)
    requires
        0 <= i <= s.len(),
        forall|j: int| 0 <= j < i ==> s[j] != c,
    ensures
        i < s.len() && s[i] == c ==> first_index_of(s, c) == i,
        i == s.len() ==> first_index_of(s, c) < 0,
    decreases i,
{
    if i > 0 {
        assert forall|j: int| 0 <= j < i - 1 implies s.drop_first()[j] != c by {
            assert(s.drop_first()[j] == s[j + 1]);
        }
        lemma_first_index_of(s.drop_first(), c, i - 1);
    }
}

/// The entries among the first `n` that sit at the top level (no separator).
pub open spec fn top_level_blobs(e: Seq<(Seq<char>, Seq<u8>)>, n: int) -> Seq<(Seq<char>, Seq<u8>)>
    decreases n,
{
    if n <= 0 {
        Seq::empty()
    } else {
        let prev = top_level_blobs(e, n - 1);
        if top_split(e[n - 1].0) is None { prev.push(e[n - 1]) } else { prev }
    }
}

/// The entries among the first `n` that lie in the top-level folder `dir`, with
/// their paths below it.
pub open spec fn entries_under(e: Seq<(Seq<char>, Seq<u8>)>, dir: Seq<char>, n: int) -> Seq<(Seq<char>, Seq<u8>)>
    decreases n,
{
    if n <= 0 {
        Seq::empty()
    } else {
        let prev = entries_under(e, dir, n - 1);
        match top_split(e[n - 1].0) {
            Some((d, rest)) => if d == dir { prev.push((rest, e[n - 1].1)) } else { prev },
            None => prev,
        }
    }
}

/// One of the first `n` entries lies in the top-level folder `dir`.
pub open spec fn dir_has_entry(e: Seq<(Seq<char>, Seq<u8>)>, dir: Seq<char>, n: int) -> bool {
    exists|k: int| 0 <= k < n && #[trigger] top_split(e[k].0) is Some && top_dir(e[k].0) == dir
}

/// One of the groups `dirs` is the folder `dir`.
pub open spec fn dir_listed(dirs: Seq<(Seq<char>, Seq<(Seq<char>, Seq<u8>)>)>, dir: Seq<char>) -> bool {
    exists|d: int| 0 <= d < dirs.len() && (#[trigger] dirs[d]).0 == dir
}

/// `dirs` and `blobs` split the first `n` entries by top-level folder.
#[verifier::opaque]
pub open spec fn grouped_upto(
    e: Seq<(Seq<char>, Seq<u8>)>,
    dirs: Seq<(Seq<char>, Seq<(Seq<char>, Seq<u8>)>)>,
    blobs: Seq<(Seq<char>, Seq<u8>)>,
    n: int,
) -> bool {
    &&& blobs == top_level_blobs(e, n)
    &&& forall|d: int| 0 <= d < dirs.len() ==> (#[trigger] dirs[d]).1 == entries_under(e, dirs[d].0, n)
    &&& forall|a: int, b: int| 0 <= a < b < dirs.len() ==> (#[trigger] dirs[a]).0 != (#[trigger] dirs[b]).0
    &&& forall|k: int| 0 <= k < n && #[trigger] top_split(e[k].0) is Some ==> dir_listed(dirs, top_dir(e[k].0))
    &&& forall|d: int| 0 <= d < dirs.len() ==> #[trigger] dir_has_entry(e, dirs[d].0, n)
}

/// Splits tree entries by their top-level folder, as the tree of one level is
/// built: the entries without a separator are the blobs of this level; the
/// others are grouped under their first component, each with its path below it.
pub fn group_entries(entries: &Vec<(String, Vec<u8>)>)
    -> (res: (Vec<(String, Vec<(String, Vec<u8>)>)>, Vec<(String, Vec<u8>)>))
    ensures
        grouped_upto(entries.deep_view(), res.0.deep_view(), res.1.deep_view(), entries@.len() as int),
{
    let ghost ev = entries.deep_view();
    let mut dirs: Vec<(String, Vec<(String, Vec<u8>)>)> = Vec::new();
    let mut blobs: Vec<(String, Vec<u8>)> = Vec::new();
    let mut k: usize = 0;
    assert(blobs.deep_view() =~= top_level_blobs(ev, 0));
    proof {
        reveal(grouped_upto);
    }
    while k < entries.len()
        invariant
            k <= entries@.len() == ev.len(),
            ev == entries.deep_view(),
            grouped_upto(ev, dirs.deep_view(), blobs.deep_view(), k as int),
        decreases entries@.len() - k,
    {
        let ghost od = dirs.deep_view();
        let ghost ob = blobs.deep_view();
        let path = chars_of(entries[k].0.as_str());
        let content = vec_clone(&entries[k].1);
        proof {
            assert(entries@[k as int].1.deep_view() =~= entries@[k as int].1@);
            assert(ev[k as int] == (path@, content@));
        }
        match find_first_char(&path, '/') {
            None => {
                proof {
                    reveal(top_split);
                }
                blobs.push((entries[k].0.clone(), content));
                proof {
                    assert(content.deep_view() =~= content@);
                    assert(blobs.deep_view() =~= ob.push(ev[k as int]));
                    lemma_grouped_blob(ev, od, ob, k as int);
                }
            },
            Some(p) => {
                let dir = slice_chars(&path, 0, p);
                let rest = slice_chars(&path, p + 1, path.len());
                proof {
                    reveal(top_split);
                    assert(dir@ =~= path@.take(p as int));
                    assert(rest@ =~= path@.skip(p + 1));
                    assert(top_split(ev[k as int].0) == Some((dir@, rest@)));
                }
                let mut g: usize = 0;
                let mut found = false;
                while g < dirs.len() && !found
                    invariant
                        g <= dirs@.len(),
                        dirs.deep_view() == od,
                        found ==> g < od.len() && od[g as int].0 == dir@,
                        !found ==> forall|d: int| 0 <= d < g ==> (#[trigger] od[d]).0 != dir@,
                    decreases dirs@.len() - g + (if found { 0int } else { 1int }),
                {
                    if chars_eq(&chars_of(dirs[g].0.as_str()), &dir) {
                        found = true;
                    } else {
                        g = g + 1;
                    }
                }
                let item = (string_from_chars(&rest), content);
                let ghost iv = (rest@, content@);
                proof {
                    assert(item.1.deep_view() =~= content@);
                    assert(item.deep_view() == iv);
                }
                if found {
                    let mut group = dirs.remove(g);
                    let ghost og = group.1.deep_view();
                    group.1.push(item);
                    proof {
                        assert(group.1.deep_view() =~= og.push(iv));
                    }
                    dirs.insert(g, group);
                    proof {
                        let nd = dirs.deep_view();
                        assert(nd =~= od.update(g as int, (dir@, og.push(iv))));
                        lemma_grouped_step(ev, od, ob, k as int, g as int, nd);
                    }
                } else {
                    let mut group_items: Vec<(String, Vec<u8>)> = Vec::new();
                    group_items.push(item);
                    proof {
                        assert(group_items.deep_view() =~= seq![iv]);
                    }
                    dirs.push((string_from_chars(&dir), group_items));
                    proof {
                        let nd = dirs.deep_view();
                        assert(nd =~= od.push((dir@, seq![iv])));
                        lemma_grouped_new(ev, od, ob, k as int, nd);
                    }
                }
            },
        }
        k = k + 1;
    }
    (dirs, blobs)
}

/// A top-level entry goes to the blobs.
proof fn lemma_grouped_blob(
    e: Seq<(Seq<char>, Seq<u8>)>,
    dirs: Seq<(Seq<char>, Seq<(Seq<char>, Seq<u8>)>)>,
    blobs: Seq<(Seq<char>, Seq<u8>)>,
    k: int,
)
    requires
        0 <= k < e.len(),
        grouped_upto(e, dirs, blobs, k),
        top_split(e[k].0) is None,
    ensures
        grouped_upto(e, dirs, blobs.push(e[k]), k + 1),
{
    reveal(grouped_upto);
    assert forall|d: int| 0 <= d < dirs.len() implies #[trigger] dir_has_entry(e, dirs[d].0, k + 1) by {
        assert(dir_has_entry(e, dirs[d].0, k));
    }
}

/// Adding entry `k` to the existing group `g` of its folder keeps the grouping.
proof fn lemma_grouped_step(
    e: Seq<(Seq<char>, Seq<u8>)>,
    dirs: Seq<(Seq<char>, Seq<(Seq<char>, Seq<u8>)>)>,
    blobs: Seq<(Seq<char>, Seq<u8>)>,
    k: int,
    g: int,
    nd: Seq<(Seq<char>, Seq<(Seq<char>, Seq<u8>)>)>,
)
    requires
        0 <= k < e.len(),
        0 <= g < dirs.len(),
        grouped_upto(e, dirs, blobs, k),
        top_split(e[k].0) is Some,
        dirs[g].0 == top_dir(e[k].0),
        nd == dirs.update(g, (dirs[g].0, dirs[g].1.push((top_rest(e[k].0), e[k].1)))),
    ensures
        grouped_upto(e, nd, blobs, k + 1),
{
    reveal(grouped_upto);
    let dir = dirs[g].0;
    assert forall|d: int| 0 <= d < nd.len() implies (#[trigger] nd[d]).1 == entries_under(e, nd[d].0, k + 1) by {
        if d != g {
            assert(dirs[d].0 != dir) by {
                if d < g {
                    assert(dirs[d].0 != dirs[g].0);
                } else {
                    assert(dirs[g].0 != dirs[d].0);
                }
            }
        }
        assert(dirs[d].1 == entries_under(e, dirs[d].0, k));
    }
    assert forall|a: int, b: int| 0 <= a < b < nd.len() implies (#[trigger] nd[a]).0 != (#[trigger] nd[b]).0 by {
        assert(dirs[a].0 != dirs[b].0);
    }
    assert forall|j: int| 0 <= j < k + 1 && #[trigger] top_split(e[j].0) is Some implies dir_listed(nd, top_dir(e[j].0)) by {
        if j == k {
            assert(nd[g].0 == dir);
        } else {
            assert(dir_listed(dirs, top_dir(e[j].0)));
            let d = choose|d: int| 0 <= d < dirs.len() && (#[trigger] dirs[d]).0 == top_dir(e[j].0);
            assert(nd[d].0 == dirs[d].0);
        }
    }
    assert forall|d: int| 0 <= d < nd.len() implies #[trigger] dir_has_entry(e, nd[d].0, k + 1) by {
        assert(nd[d].0 == dirs[d].0);
        assert(dir_has_entry(e, dirs[d].0, k));
    }
}

/// Entry `k` in a folder without a group yet starts a new group.
proof fn lemma_grouped_new(
    e: Seq<(Seq<char>, Seq<u8>)>,
    dirs: Seq<(Seq<char>, Seq<(Seq<char>, Seq<u8>)>)>,
    blobs: Seq<(Seq<char>, Seq<u8>)>,
    k: int,
    nd: Seq<(Seq<char>, Seq<(Seq<char>, Seq<u8>)>)>,
)
    requires
        0 <= k < e.len(),
        grouped_upto(e, dirs, blobs, k),
        top_split(e[k].0) is Some,
        forall|d: int| 0 <= d < dirs.len() ==> (#[trigger] dirs[d]).0 != top_dir(e[k].0),
        nd == dirs.push((top_dir(e[k].0), seq![(top_rest(e[k].0), e[k].1)])),
    ensures
        grouped_upto(e, nd, blobs, k + 1),
{
    reveal(grouped_upto);
    let dir = top_dir(e[k].0);
    let n = dirs.len() as int;
    assert forall|j: int| 0 <= j < k && #[trigger] top_split(e[j].0) is Some implies top_dir(e[j].0) != dir by {
        assert(dir_listed(dirs, top_dir(e[j].0)));
    }
    lemma_entries_under_absent(e, dir, k);
    assert forall|d: int| 0 <= d < nd.len() implies (#[trigger] nd[d]).1 == entries_under(e, nd[d].0, k + 1) by {
        if d < n {
            assert(nd[d] == dirs[d]);
            assert(dirs[d].1 == entries_under(e, dirs[d].0, k));
        }
    }
    assert forall|j: int| 0 <= j < k + 1 && #[trigger] top_split(e[j].0) is Some implies dir_listed(nd, top_dir(e[j].0)) by {
        if j == k {
            assert(nd[n].0 == dir);
        } else {
            assert(dir_listed(dirs, top_dir(e[j].0)));
            let d = choose|d: int| 0 <= d < dirs.len() && (#[trigger] dirs[d]).0 == top_dir(e[j].0);
            assert(nd[d] == dirs[d]);
        }
    }
    assert forall|d: int| 0 <= d < nd.len() implies #[trigger] dir_has_entry(e, nd[d].0, k + 1) by {
        if d < n {
            assert(nd[d] == dirs[d]);
            assert(dir_has_entry(e, dirs[d].0, k));
        } else {
            assert(top_split(e[k].0) is Some);
        }
    }
}

/// A folder that none of the first `n` entries lies in has no entries under it.
proof fn lemma_entries_under_absent(e: Seq<(Seq<char>, Seq<u8>)>, dir: Seq<char>, n: int)
    requires
        0 <= n <= e.len(),
        forall|j: int| 0 <= j < n && #[trigger] top_split(e[j].0) is Some ==> top_dir(e[j].0) != dir,
    ensures
        entries_under(e, dir, n) == Seq::<(Seq<char>, Seq<u8>)>::empty(),
    decreases n,
{
    if n > 0 {
        lemma_entries_under_absent(e, dir, n - 1);
    }
}

/// The marker comment that identifies the post-commit hook.
pub const HOOK_MARKER: &'static str = "METIS_POST_COMMIT_HOOK";

/// The first line of the hook script.
pub const HOOK_SHEBANG: &'static str = "#!/bin/sh";

/// The hook script after its first line, without the final line break.
pub const HOOK_BODY: &'static str = "# Metis post-commit hook — flushes pending .metis/ overlay changes to main.
# Installed by `metis init` or auto-installed on first Metis operation.
# METIS_POST_COMMIT_HOOK — do not remove this marker comment.

# Only run if metis binary is available
if command -v metis >/dev/null 2>&1; then
    metis flush 2>/dev/null || true
fi";

/// The whole hook script.
pub open spec fn hook_script() -> Seq<char> {
    HOOK_SHEBANG@ + "\n"@ + HOOK_BODY@ + "\n"@
}

/// What installing the hook writes to the post-commit hook file, given what it
/// holds (`None` when there is no such file): the script for a new file;
/// nothing when the hook is already there (the marker occurs); otherwise the
/// existing text, a line break if it lacks a final one, an empty line, and the
/// script without its first line.
pub open spec fn hook_update_of(existing: Option<Seq<char>>) -> Option<Seq<char>> {
    match existing {
        None => Some(hook_script()),
        Some(e) => if contains_seq(e, HOOK_MARKER@) {
            None
        } else {
            Some(e + (if ends_with(e, "\n"@) { Seq::empty() } else { "\n"@ }) + "\n"@ + HOOK_BODY@ + "\n"@)
        },
    }
}

/// The text to write to the post-commit hook file, or `None` to leave it as it is.
pub fn hook_update(existing: Option<&str>) -> (res: Option<String>)
    ensures
        match existing {
            None => opt_view(res) == hook_update_of(None),
            Some(e) => opt_view(res) == hook_update_of(Some(e@)),
        },
{
    let nl = chars_of("\n");
    let body = chars_of(HOOK_BODY);
    match existing {
        None => {
            let head = concat_chars(&chars_of(HOOK_SHEBANG), &nl);
            let full = concat_chars(&concat_chars(&head, &body), &nl);
            Some(string_from_chars(&full))
        },
        Some(e) => {
            let ec = chars_of(e);
            if chars_contains(&ec, &chars_of(HOOK_MARKER)) {
                return None;
            }
            let mut content = ec;
            if !chars_ends_with(&content, &nl) {
                content = concat_chars(&content, &nl);
            }
            content = concat_chars(&content, &nl);
            content = concat_chars(&content, &body);
            content = concat_chars(&content, &nl);
            Some(string_from_chars(&content))
        },
    }
}

/// A deletion in the overlay is read back by a flush as the deletion of the
/// same file: the tombstone of a pending file (its path with `.deleted` added)
/// is classified as a tombstone for the tree path of that file, provided the
/// file's own name does not already end in `.deleted`.
pub proof fn law_tombstone_read_back(ws_name: Seq<char>, rel: Seq<char>)
    requires
        !ends_with(pending_tree_path(ws_name, rel), ".deleted"@),
    ensures
        ends_with(crate::filesystem::tombstone_of(rel), ".deleted"@),
        trim_end_matches(pending_tree_path(ws_name, crate::filesystem::tombstone_of(rel)), ".deleted"@)
            == pending_tree_path(ws_name, rel),
{
    reveal_strlit(".deleted");
    let suf = ".deleted"@;
    let t = crate::filesystem::tombstone_of(rel);
    assert(t.skip(t.len() - suf.len()) =~= suf);
    let s = pending_tree_path(ws_name, rel);
    let st = pending_tree_path(ws_name, t);
    assert(st =~= s + suf);
    assert(st.skip(st.len() - suf.len()) =~= suf);
    assert(st.take(st.len() - suf.len()) =~= s);
    assert(trim_end_matches(s, suf) == s);
    assert(ends_with(st, suf));
    assert(trim_end_matches(st, suf) == trim_end_matches(st.take(st.len() - suf.len()), suf));
}

} // verus!

verus! {

/// The hook's script names its marker.
proof fn lemma_marker_in_body()
    ensures
        HOOK_BODY@.len() == 331,
        HOOK_BODY@.subrange(150, 172) == HOOK_MARKER@,
{
    reveal_strlit("# Metis post-commit hook — flushes pending .metis/ overlay changes to main.
# Installed by `metis init` or auto-installed on first Metis operation.
# METIS_POST_COMMIT_HOOK — do not remove this marker comment.

# Only run if metis binary is available
if command -v metis >/dev/null 2>&1; then
    metis flush 2>/dev/null || true
fi");
    reveal_strlit("METIS_POST_COMMIT_HOOK");
    assert(HOOK_BODY@.subrange(150, 172) =~= HOOK_MARKER@);
}


/// `p` occurs in `a + p2 + b` wherever it occurs in the middle part `p2`.
proof fn lemma_contains_in_middle(a: Seq<char>, m: Seq<char>, b: Seq<char>, p: Seq<char>, k: int)
    requires
        0 <= k && k + p.len() <= m.len(),
        m.subrange(k, k + p.len()) == p,
    ensures
        contains_seq(a + m + b, p),
{
    let t = a + m + b;
    let i = a.len() + k;
    assert(t.subrange(i, i + p.len()) =~= p) by {
        assert forall|j: int| 0 <= j < p.len() implies t.subrange(i, i + p.len())[j] == p[j] by {
            assert(t[i + j] == m[k + j]);
            assert(m.subrange(k, k + p.len())[j] == m[k + j]);
        }
    }
}

/// Installing the hook twice writes it once: whatever the hook file held, the
/// text the first installation writes holds the marker, so a second installation
/// leaves the file as it is; and text that was already there stays at the start.
pub proof fn law_hook_install_idempotent(existing: Option<Seq<char>>)
    requires
        hook_update_of(existing) is Some,
    ensures
        contains_seq(hook_update_of(existing)->0, HOOK_MARKER@),
        hook_update_of(Some(hook_update_of(existing)->0)) is None,
        existing matches Some(e) ==> hook_update_of(existing)->0.take(e.len() as int) == e,
{
    lemma_marker_in_body();
    match existing {
        None => {
            lemma_contains_in_middle(HOOK_SHEBANG@ + "\n"@, HOOK_BODY@, "\n"@, HOOK_MARKER@, 150);
        },
        Some(e) => {
            let sep: Seq<char> = (if ends_with(e, "\n"@) { Seq::empty() } else { "\n"@ }) + "\n"@;
            assert(e + (if ends_with(e, "\n"@) { Seq::empty() } else { "\n"@ }) + "\n"@ + HOOK_BODY@ + "\n"@
                =~= (e + sep) + HOOK_BODY@ + "\n"@);
            lemma_contains_in_middle(e + sep, HOOK_BODY@, "\n"@, HOOK_MARKER@, 150);
            assert(((e + sep) + HOOK_BODY@ + "\n"@).take(e.len() as int) =~= e);
        },
    }
}

} // verus!
