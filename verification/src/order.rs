//! Lexicographic order on character sequences, the order in which Rust sorts
//! `String`s (UTF-8 keeps the order of code points).

use vstd::prelude::*;

verus! {

/// `a` sorts strictly before `b`: at the first position where they differ `a`
/// has the smaller code point, or `a` is a proper prefix of `b`.
pub open spec fn seq_lt(a: Seq<char>, b: Seq<char>) -> bool
    decreases a.len(),
{
    if a.len() == 0 {
        b.len() > 0
    } else if b.len() == 0 {
        false
    } else if a[0] != b[0] {
        (a[0] as u32) < (b[0] as u32)
    } else {
        seq_lt(a.drop_first(), b.drop_first())
    }
}

/// No sequence sorts before itself.
pub proof fn lemma_seq_lt_irreflexive(a: Seq<char>)
    ensures
        !seq_lt(a, a),
    decreases a.len(),
{
    if a.len() > 0 {
        lemma_seq_lt_irreflexive(a.drop_first());
    }
}

/// Two different sequences are ordered one way or the other, never both.
pub proof fn lemma_seq_lt_total(a: Seq<char>, b: Seq<char>)
    ensures
        a != b ==> (seq_lt(a, b) || seq_lt(b, a)),
        !(seq_lt(a, b) && seq_lt(b, a)),
    decreases a.len(),
{
    if a.len() > 0 && b.len() > 0 && a[0] == b[0] {
        lemma_seq_lt_total(a.drop_first(), b.drop_first());
        if a != b {
            assert(a.drop_first() != b.drop_first()) by {
                if a.drop_first() == b.drop_first() {
                    assert(a =~= seq![a[0]] + a.drop_first());
                    assert(b =~= seq![b[0]] + b.drop_first());
                }
            }
        }
    } else if a.len() > 0 && b.len() > 0 {
        let x = a[0] as u32;
        let y = b[0] as u32;
        vstd::utf8::char_u32_cast(a[0], x);
        vstd::utf8::char_u32_cast(b[0], y);
        assert(x != y);
    } else if a.len() == 0 && b.len() == 0 {
        assert(a =~= b);
    }
}

/// The order is transitive.
pub proof fn lemma_seq_lt_transitive(a: Seq<char>, b: Seq<char>, c: Seq<char>)
    requires
        seq_lt(a, b),
        seq_lt(b, c),
    ensures
        seq_lt(a, c),
    decreases a.len(),
{
    if a.len() > 0 && b.len() > 0 && c.len() > 0 {
        if a[0] == b[0] && b[0] == c[0] {
            lemma_seq_lt_transitive(a.drop_first(), b.drop_first(), c.drop_first());
        } else if a[0] != c[0] {
            vstd::utf8::char_u32_cast(a[0], a[0] as u32);
            vstd::utf8::char_u32_cast(c[0], c[0] as u32);
        }
    }
}

/// Sequences that agree on their first `i` characters compare as their rests do.
pub proof fn lemma_seq_lt_skip_common(a: Seq<char>, b: Seq<char>, i: int)
    requires
        0 <= i <= a.len(),
        i <= b.len(),
        a.take(i) == b.take(i),
    ensures
        seq_lt(a, b) == seq_lt(a.skip(i), b.skip(i)),
    decreases i,
{
    if i > 0 {
        assert(a[0] == a.take(i)[0]);
        assert(b[0] == b.take(i)[0]);
        assert(a.drop_first().take(i - 1) =~= a.take(i).drop_first());
        assert(b.drop_first().take(i - 1) =~= b.take(i).drop_first());
        lemma_seq_lt_skip_common(a.drop_first(), b.drop_first(), i - 1);
        assert(a.drop_first().skip(i - 1) =~= a.skip(i));
        assert(b.drop_first().skip(i - 1) =~= b.skip(i));
    } else {
        assert(a.skip(0) =~= a);
        assert(b.skip(0) =~= b);
    }
}

/// Whether `a` sorts strictly before `b`.
pub fn chars_lt(a: &Vec<char>, b: &Vec<char>) -> (res: bool)
    ensures
        res == seq_lt(a@, b@),
{
    let mut i: usize = 0;
    while i < a.len() && i < b.len()
        invariant
            i <= a@.len(),
            i <= b@.len(),
            a@.take(i as int) == b@.take(i as int),
        decreases a@.len() - i,
    {
        if a[i] != b[i] {
            proof {
                lemma_seq_lt_skip_common(a@, b@, i as int);
                assert(a@.skip(i as int)[0] == a@[i as int]);
                assert(b@.skip(i as int)[0] == b@[i as int]);
            }
            return (a[i] as u32) < (b[i] as u32);
        }
        assert(a@.take(i + 1) =~= a@.take(i as int).push(a@[i as int]));
        assert(b@.take(i + 1) =~= b@.take(i as int).push(b@[i as int]));
        i = i + 1;
    }
    proof {
        lemma_seq_lt_skip_common(a@, b@, i as int);
    }
    i < b.len()
}

/// The sequences are strictly increasing, so none occurs twice.
pub open spec fn strictly_sorted(v: Seq<Seq<char>>) -> bool {
    forall|i: int, j: int| 0 <= i < j < v.len() ==> seq_lt(#[trigger] v[i], #[trigger] v[j])
}

/// Adds `s` to a strictly increasing list of strings, where it belongs, unless
/// it is there already.
pub fn insert_sorted_unique(v: &mut Vec<String>, s: String)
    requires
        strictly_sorted(old(v).deep_view()),
    ensures
        strictly_sorted(final(v).deep_view()),
        forall|x: Seq<char>| final(v).deep_view().contains(x) <==> (old(v).deep_view().contains(x) || x == s@),
{
    let ghost old_v = v.deep_view();
    let c = crate::text::chars_of(s.as_str());
    let mut pos: usize = 0;
    while pos < v.len() && chars_lt(&crate::text::chars_of(v[pos].as_str()), &c)
        invariant
            pos <= v@.len(),
            v.deep_view() == old_v,
            c@ == s@,
            forall|i: int| 0 <= i < pos ==> seq_lt(#[trigger] old_v[i], s@),
        decreases v@.len() - pos,
    {
        assert(old_v[pos as int] == v@[pos as int]@);
        pos = pos + 1;
    }
    if pos < v.len() && crate::text::chars_eq(&crate::text::chars_of(v[pos].as_str()), &c) {
        assert(old_v[pos as int] == s@);
        assert forall|x: Seq<char>| v.deep_view().contains(x) <==> (old_v.contains(x) || x == s@) by {
            if x == s@ {
                assert(old_v[pos as int] == x);
            }
        }
        return;
    }
    proof {
        if pos < old_v.len() {
            assert(old_v[pos as int] == v@[pos as int]@);
            lemma_seq_lt_total(old_v[pos as int], s@);
            assert forall|i: int| pos <= i < old_v.len() implies seq_lt(s@, #[trigger] old_v[i]) by {
                if i > pos {
                    lemma_seq_lt_transitive(s@, old_v[pos as int], old_v[i]);
                }
            }
        }
    }
    let ghost sv = s@;
    v.insert(pos, s);
    proof {
        let nv = v.deep_view();
        assert(nv =~= old_v.insert(pos as int, sv));
        assert forall|i: int, j: int| 0 <= i < j < nv.len() implies seq_lt(#[trigger] nv[i], #[trigger] nv[j]) by {
            if j < pos {
                assert(seq_lt(old_v[i], old_v[j]));
            } else if j == pos {
            } else if i < pos {
                lemma_seq_lt_transitive(old_v[i], sv, old_v[j - 1]);
            } else if i == pos {
            } else {
                assert(seq_lt(old_v[i - 1], old_v[j - 1]));
            }
        }
        assert forall|x: Seq<char>| nv.contains(x) <==> (old_v.contains(x) || x == sv) by {
            if nv.contains(x) {
                let i = choose|i: int| 0 <= i < nv.len() && nv[i] == x;
                if i < pos {
                    assert(old_v[i] == x);
                } else if i > pos {
                    assert(old_v[i - 1] == x);
                }
            }
            if old_v.contains(x) {
                let i = choose|i: int| 0 <= i < old_v.len() && old_v[i] == x;
                if i < pos {
                    assert(nv[i] == x);
                } else {
                    assert(nv[i + 1] == x);
                }
            }
            if x == sv {
                assert(nv[pos as int] == x);
            }
        }
    }
}

/// Two strictly increasing lists with the same elements are the same list.
pub proof fn lemma_sorted_sets_equal(a: Seq<Seq<char>>, b: Seq<Seq<char>>)
    requires
        strictly_sorted(a),
        strictly_sorted(b),
        forall|x: Seq<char>| a.contains(x) <==> b.contains(x),
    ensures
        a == b,
    decreases a.len(),
{
    if a.len() == 0 {
        if b.len() > 0 {
            assert(b.contains(b[0]));
        }
        assert(b.len() == 0);
        assert(a =~= b);
    } else {
        assert(a.contains(a[0]));
        let j = choose|j: int| 0 <= j < b.len() && b[j] == a[0];
        assert(b.contains(b[0]));
        let i = choose|i: int| 0 <= i < a.len() && a[i] == b[0];
        if j > 0 {
            assert(seq_lt(b[0], b[j]));
            if i > 0 {
                assert(seq_lt(a[0], a[i]));
                lemma_seq_lt_transitive(b[0], a[0], b[0]);
            }
            lemma_seq_lt_irreflexive(b[0]);
        }
        assert(a[0] == b[0]);
        let a2 = a.drop_first();
        let b2 = b.drop_first();
        assert forall|x: Seq<char>| a2.contains(x) <==> b2.contains(x) by {
            if a2.contains(x) {
                let k = choose|k: int| 0 <= k < a2.len() && a2[k] == x;
                assert(seq_lt(a[0], a[k + 1]));
                lemma_seq_lt_irreflexive(x);
                assert(a.contains(x));
                let m = choose|m: int| 0 <= m < b.len() && b[m] == x;
                assert(m != 0);
                assert(b2[m - 1] == x);
            }
            if b2.contains(x) {
                let k = choose|k: int| 0 <= k < b2.len() && b2[k] == x;
                assert(seq_lt(b[0], b[k + 1]));
                lemma_seq_lt_irreflexive(x);
                assert(b.contains(x));
                let m = choose|m: int| 0 <= m < a.len() && a[m] == x;
                assert(m != 0);
                assert(a2[m - 1] == x);
            }
        }
        assert forall|p: int, q: int| 0 <= p < q < a2.len() implies seq_lt(#[trigger] a2[p], #[trigger] a2[q]) by {
            assert(seq_lt(a[p + 1], a[q + 1]));
        }
        assert forall|p: int, q: int| 0 <= p < q < b2.len() implies seq_lt(#[trigger] b2[p], #[trigger] b2[q]) by {
            assert(seq_lt(b[p + 1], b[q + 1]));
        }
        lemma_sorted_sets_equal(a2, b2);
        assert(a =~= seq![a[0]] + a2);
        assert(b =~= seq![b[0]] + b2);
    }
}

} // verus!
