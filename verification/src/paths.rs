//! Slash-separated paths, modelled as character sequences.
//!
//! A path is a string of components separated by `/`; a leading `/` makes it
//! absolute. Repeated and trailing separators carry no meaning.

use vstd::prelude::*;
use crate::text::{chars_of, chars_eq, string_from_chars};

verus! {

/// The position of the last `c` in `s`, or -1.
pub open spec fn last_index_of(s: Seq<char>, c: char) -> int
    decreases s.len(),
{
    if s.len() == 0 {
        -1
    } else if s.last() == c {
        s.len() - 1
    } else {
        last_index_of(s.drop_last(), c)
    }
}

pub proof fn lemma_last_index_of(s: Seq<char>, c: char)
    ensures
        -1 <= last_index_of(s, c) < s.len(),
        last_index_of(s, c) >= 0 ==> s[last_index_of(s, c)] == c,
        forall|j: int| last_index_of(s, c) < j < s.len() ==> s[j] != c,
    decreases s.len(),
{
    if s.len() > 0 && s.last() != c {
        lemma_last_index_of(s.drop_last(), c);
        assert forall|j: int| last_index_of(s, c) < j < s.len() implies s[j] != c by {
            if j < s.len() - 1 {
                assert(s.drop_last()[j] == s[j]);
            }
        }
    }
}

/// `s` with its trailing `/` characters removed, except that a path made only of
/// separators becomes the root `/`.
pub open spec fn trim_trailing_slashes(s: Seq<char>) -> Seq<char>
    decreases s.len(),
{
    if s.len() == 0 {
        s
    } else if s.last() == '/' {
        if s.len() == 1 {
            s
        } else {
            trim_trailing_slashes(s.drop_last())
        }
    } else {
        s
    }
}

/// The root path `/`.
pub open spec fn is_root(s: Seq<char>) -> bool {
    s.len() == 1 && s[0] == '/'
}

/// `comp` appended to `base`: an absolute `comp` replaces `base`; otherwise the two
/// are joined with a single separator.
pub open spec fn path_join(base: Seq<char>, comp: Seq<char>) -> Seq<char> {
    if comp.len() > 0 && comp[0] == '/' {
        comp
    } else if base.len() == 0 {
        comp
    } else if base.last() == '/' {
        base + comp
    } else {
        base + seq!['/'] + comp
    }
}

/// The directory containing `p`: `None` for the empty path and for the root.
pub open spec fn path_parent(p: Seq<char>) -> Option<Seq<char>> {
    let t = trim_trailing_slashes(p);
    if t.len() == 0 || is_root(t) {
        None
    } else {
        let i = last_index_of(t, '/');
        if i < 0 {
            Some(Seq::empty())
        } else if i == 0 {
            Some(seq!['/'])
        } else {
            Some(trim_trailing_slashes(t.take(i)))
        }
    }
}

/// The last component of `p`: `None` for the empty path and for the root.
pub open spec fn path_file_name(p: Seq<char>) -> Option<Seq<char>> {
    let t = trim_trailing_slashes(p);
    if t.len() == 0 || is_root(t) {
        None
    } else {
        Some(t.skip(last_index_of(t, '/') + 1))
    }
}

/// The rest of `p` below `base`: `p` itself when `base` is empty, the empty path when
/// they are equal, the part after `base/` when `p` lies below `base`, and `None`
/// otherwise. Trailing separators of `base` are ignored.
pub open spec fn path_strip_prefix(p: Seq<char>, base: Seq<char>) -> Option<Seq<char>> {
    let b = trim_trailing_slashes(base);
    if b.len() == 0 {
        Some(p)
    } else if p == b {
        Some(Seq::empty())
    } else if is_root(b) && p.len() > 0 && p[0] == '/' {
        Some(p.skip(1))
    } else if p.len() > b.len() && p.take(b.len() as int) == b && p[b.len() as int] == '/' {
        Some(p.skip(b.len() as int + 1))
    } else {
        None
    }
}

/// The components of `p`, in order, ignoring empty ones.
pub open spec fn path_components(p: Seq<char>) -> Seq<Seq<char>>
    decreases p.len(),
{
    if p.len() == 0 {
        Seq::empty()
    } else if p.last() == '/' {
        path_components(p.drop_last())
    } else {
        let i = last_index_of(p, '/');
        if i < 0 {
            seq![p]
        } else {
            proof {
                lemma_last_index_of(p, '/');
            }
            path_components(p.take(i)).push(p.skip(i + 1))
        }
    }
}

/// Finds the position of the last `c`, if any.
pub fn find_last(s: &Vec<char>, c: char) -> (res: Option<usize>)
    ensures
        match res {
            Some(i) => i == last_index_of(s@, c),
            None => last_index_of(s@, c) == -1,
        },
{
    let mut i: usize = s.len();
    proof {
        assert(s@.take(i as int) =~= s@);
    }
    while i > 0
        invariant
            i <= s@.len(),
            last_index_of(s@, c) == last_index_of(s@.take(i as int), c),
        decreases i,
    {
        let ghost t = s@.take(i as int);
        if s[i - 1] == c {
            return Some(i - 1);
        }
        assert(t.drop_last() =~= s@.take(i - 1));
        i = i - 1;
    }
    None
}

/// Copies the characters `s[from..to]`.
pub fn slice_chars(s: &Vec<char>, from: usize, to: usize) -> (res: Vec<char>)
    requires
        from <= to <= s@.len(),
    ensures
        res@ == s@.subrange(from as int, to as int),
{
    let mut out: Vec<char> = Vec::new();
    let mut i = from;
    while i < to
        invariant
            from <= i <= to <= s@.len(),
            out@ == s@.subrange(from as int, i as int),
        decreases to - i,
    {
        out.push(s[i]);
        assert(s@.subrange(from as int, i + 1) =~= s@.subrange(from as int, i as int).push(s@[i as int]));
        i = i + 1;
    }
    out
}

/// Appends the characters of `b` to `a`.
pub fn concat_chars(a: &Vec<char>, b: &Vec<char>) -> (res: Vec<char>)
    ensures
        res@ == a@ + b@,
{
    let mut out = a.clone();
    let mut i: usize = 0;
    while i < b.len()
        invariant
            i <= b@.len(),
            out@ == a@ + b@.take(i as int),
        decreases b@.len() - i,
    {
        out.push(b[i]);
        assert(b@.take(i as int + 1) =~= b@.take(i as int).push(b@[i as int]));
        i = i + 1;
    }
    assert(b@.take(b@.len() as int) =~= b@);
    out
}

/// Removes trailing separators (keeping a lone root).
pub fn trim_slashes_end(s: &Vec<char>) -> (res: Vec<char>)
    ensures
        res@ == trim_trailing_slashes(s@),
{
    let mut n = s.len();
    proof {
        assert(s@.take(n as int) =~= s@);
    }
    while n > 1 && s[n - 1] == '/'
        invariant
            1 <= n <= s@.len() || (n == 0 && s@.len() == 0),
            trim_trailing_slashes(s@) == trim_trailing_slashes(s@.take(n as int)),
        decreases n,
    {
        assert(s@.take(n as int).drop_last() =~= s@.take(n - 1));
        n = n - 1;
    }
    slice_chars(s, 0, n)
}

/// `comp` appended to `base` (see `path_join`).
pub fn join(base: &str, comp: &str) -> (res: String)
    ensures
        res@ == path_join(base@, comp@),
{
    let b = chars_of(base);
    let c = chars_of(comp);
    if c.len() > 0 && c[0] == '/' {
        comp.to_owned()
    } else if b.len() == 0 {
        comp.to_owned()
    } else if b[b.len() - 1] == '/' {
        string_from_chars(&concat_chars(&b, &c))
    } else {
        let mut bs = b.clone();
        bs.push('/');
        assert(bs@ == b@ + seq!['/']);
        string_from_chars(&concat_chars(&bs, &c))
    }
}

/// The directory containing `p` (see `path_parent`).
pub fn parent(p: &str) -> (res: Option<String>)
    ensures
        match res {
            Some(s) => path_parent(p@) == Some(s@),
            None => path_parent(p@) is None,
        },
{
    let cs = chars_of(p);
    let t = trim_slashes_end(&cs);
    proof { lemma_trim_len(cs@); }
    if t.len() == 0 || (t.len() == 1 && t[0] == '/') {
        return None;
    }
    let found = find_last(&t, '/');
    proof { lemma_last_index_of(t@, '/'); }
    if found.is_none() {
        Some(String::new())
    } else if found.unwrap() == 0 {
        proof {
            reveal_strlit("/");
        }
        Some("/".to_owned())
    } else {
        let i = found.unwrap();
        let head = slice_chars(&t, 0, i);
        assert(head@ =~= t@.take(i as int));
        let trimmed = trim_slashes_end(&head);
        Some(string_from_chars(&trimmed))
    }
}

pub proof fn lemma_trim_len(s: Seq<char>)
    ensures
        trim_trailing_slashes(s).len() <= s.len(),
        trim_trailing_slashes(s).len() == 0 ==> s.len() == 0,
        trim_trailing_slashes(s) == s.take(trim_trailing_slashes(s).len() as int),
    decreases s.len(),
{
    if s.len() > 1 && s.last() == '/' {
        lemma_trim_len(s.drop_last());
        assert(s.drop_last().take(trim_trailing_slashes(s).len() as int)
            =~= s.take(trim_trailing_slashes(s).len() as int));
    } else {
        assert(s.take(s.len() as int) =~= s);
    }
}

/// The last component of `p` (see `path_file_name`).
pub fn file_name(p: &str) -> (res: Option<String>)
    ensures
        match res {
            Some(s) => path_file_name(p@) == Some(s@),
            None => path_file_name(p@) is None,
        },
{
    let cs = chars_of(p);
    let t = trim_slashes_end(&cs);
    proof { lemma_trim_len(cs@); }
    if t.len() == 0 || (t.len() == 1 && t[0] == '/') {
        return None;
    }
    let found = find_last(&t, '/');
    proof { lemma_last_index_of(t@, '/'); }
    let start: usize = match found { Some(i) => i + 1, None => 0 };
    let tail = slice_chars(&t, start, t.len());
    assert(tail@ =~= t@.skip(start as int));
    Some(string_from_chars(&tail))
}

/// The rest of `p` below `base` (see `path_strip_prefix`).
pub fn strip_prefix(p: &str, base: &str) -> (res: Option<String>)
    ensures
        match res {
            Some(s) => path_strip_prefix(p@, base@) == Some(s@),
            None => path_strip_prefix(p@, base@) is None,
        },
{
    let pc = chars_of(p);
    let bc = chars_of(base);
    let b = trim_slashes_end(&bc);
    if b.len() == 0 {
        return Some(p.to_owned());
    }
    if chars_eq(&pc, &b) {
        return Some(String::new());
    }
    if b.len() == 1 && b[0] == '/' && pc.len() > 0 && pc[0] == '/' {
        let rest = slice_chars(&pc, 1, pc.len());
        assert(rest@ =~= pc@.skip(1));
        return Some(string_from_chars(&rest));
    }
    if pc.len() > b.len() {
        let head = slice_chars(&pc, 0, b.len());
        assert(head@ =~= pc@.take(b@.len() as int));
        if chars_eq(&head, &b) && pc[b.len()] == '/' {
            let rest = slice_chars(&pc, b.len() + 1, pc.len());
            assert(rest@ =~= pc@.skip(b@.len() as int + 1));
            return Some(string_from_chars(&rest));
        }
    }
    None
}

/// The components of `p` (see `path_components`).
pub fn components(p: &str) -> (res: Vec<String>)
    ensures
        res.deep_view() == path_components(p@),
{
    let cs = chars_of(p);
    let mut end: usize = cs.len();
    let mut rev: Vec<String> = Vec::new();
    proof { assert(cs@.take(end as int) =~= cs@); }
    // path_components(p) == path_components(take(end)) + reverse(rev)
    while end > 0
        invariant
            end <= cs@.len(),
            path_components(cs@) == path_components(cs@.take(end as int)) + rev.deep_view().reverse(),
        decreases end,
    {
        let ghost t = cs@.take(end as int);
        if cs[end - 1] == '/' {
            assert(t.drop_last() =~= cs@.take(end - 1));
            end = end - 1;
        } else {
            let head = slice_chars(&cs, 0, end);
            assert(head@ =~= t);
            let found = find_last(&head, '/');
            proof { lemma_last_index_of(t, '/'); }
            let start: usize = match found { Some(i) => i + 1, None => 0 };
            let ghost i: int = last_index_of(t, '/');
            let comp = slice_chars(&cs, start, end);
            assert(comp@ =~= t.skip(start as int));
            let ghost before = rev.deep_view();
            rev.push(string_from_chars(&comp));
            proof {
                assert(rev.deep_view() =~= before.push(comp@));
                assert(rev.deep_view().reverse() =~= seq![comp@] + before.reverse());
                if i < 0 {
                    assert(path_components(t) == seq![t]);
                    assert(cs@.take(0) =~= Seq::<char>::empty());
                    assert(path_components(cs@.take(0)) =~= Seq::<Seq<char>>::empty());
                    assert(path_components(t) + before.reverse() =~= path_components(cs@.take(0)) + rev.deep_view().reverse());
                } else {
                    assert(t.take(i as int) =~= cs@.take(i as int));
                    assert(path_components(t) + before.reverse()
                        =~= path_components(cs@.take(i as int)) + rev.deep_view().reverse());
                }
            }
            end = match found { Some(j) => j, None => 0 };
        }
    }
    // reverse rev into the result
    let mut res: Vec<String> = Vec::new();
    let mut k: usize = rev.len();
    proof { assert(cs@.take(0) =~= Seq::<char>::empty()); }
    while k > 0
        invariant
            k <= rev@.len(),
            res.deep_view() == rev.deep_view().subrange(k as int, rev@.len() as int).reverse(),
        decreases k,
    {
        let ghost before = res.deep_view();
        res.push(rev[k - 1].clone());
        proof {
            assert(rev.deep_view().subrange(k - 1, rev@.len() as int).reverse()
                =~= rev.deep_view().subrange(k as int, rev@.len() as int).reverse().push(rev.deep_view()[k - 1]));
            assert(res.deep_view() =~= before.push(rev.deep_view()[k - 1]));
        }
        k = k - 1;
    }
    assert(rev.deep_view().subrange(0, rev@.len() as int) =~= rev.deep_view());
    assert(path_components(cs@.take(0)) =~= Seq::<Seq<char>>::empty());
    assert(path_components(cs@) =~= rev.deep_view().reverse());
    res
}

} // verus!
