//! Character-level string helpers shared by the rest of the library.

use vstd::prelude::*;

verus! {

broadcast use vstd::string::axiom_spec_iter;

/// The characters of `s`, in order.
pub fn chars_of(s: &str) -> (res: Vec<char>)
    ensures
        res@ == s@,
{
    let mut res: Vec<char> = Vec::new();
    for c in it: s.chars()
        invariant
            it.seq() == s@,
            res@ == s@.take(it.index() as int),
    {
        res.push(c);
    }
    assert(res@ =~= s@);
    res
}

/// Builds a `String` holding exactly the given characters.
///
/// Calls `FromIterator<char>` for `String` (`Iterator::collect`), which
/// std documents as concatenating the characters in order.
#[verifier::external_body]
pub(crate) fn string_from_chars(v: &Vec<char>) -> (res: String)
    ensures
        res@ == v@,
{
    v.iter().collect::<String>()
}

/// Whether two character vectors hold the same characters.
pub fn chars_eq(a: &Vec<char>, b: &Vec<char>) -> (res: bool)
    ensures
        res == (a@ == b@),
{
    if a.len() != b.len() {
        return false;
    }
    let mut i: usize = 0;
    while i < a.len()
        invariant
            a@.len() == b@.len(),
            i <= a@.len(),
            forall|j: int| 0 <= j < i ==> a@[j] == b@[j],
        decreases a@.len() - i,
    {
        if a[i] != b[i] {
            return false;
        }
        i = i + 1;
    }
    assert(a@ =~= b@);
    true
}

/// Whether `s` holds exactly the characters `v`.
pub fn str_is(s: &str, v: &Vec<char>) -> (res: bool)
    ensures
        res == (s@ == v@),
{
    let cs = chars_of(s);
    chars_eq(&cs, v)
}

/// Whether two strings hold the same characters.
pub fn strs_eq(a: &str, b: &str) -> (res: bool)
    ensures
        res == (a@ == b@),
{
    let ca = chars_of(a);
    let cb = chars_of(b);
    chars_eq(&ca, &cb)
}

/// What `str::to_lowercase` returns for a string: its lowercase equivalent
/// under the Unicode `Lowercase` mapping.
pub uninterp spec fn unicode_lowercase(s: Seq<char>) -> Seq<char>;

/// Lowercases `s` with `str::to_lowercase`. The result is named by
/// `unicode_lowercase`; nothing more of the Unicode case mapping is stated.
#[verifier::external_body]
pub(crate) fn to_lowercase(s: &str) -> (res: String)
    ensures
        res@ == unicode_lowercase(s@),
{
    s.to_lowercase()
}

/// The number of UTF-8 bytes that encode the character `c`.
pub open spec fn utf8_width(c: char) -> nat {
    if (c as u32) < 0x80 {
        1
    } else if (c as u32) < 0x800 {
        2
    } else if (c as u32) < 0x10000 {
        3
    } else {
        4
    }
}

/// The number of UTF-8 bytes that encode `s` (what `str::len` reports).
pub open spec fn byte_len(s: Seq<char>) -> nat
    decreases s.len(),
{
    if s.len() == 0 {
        0
    } else {
        byte_len(s.drop_last()) + utf8_width(s.last())
    }
}

/// The longest prefix of `s` whose UTF-8 encoding fits in `k` bytes.
pub open spec fn byte_prefix(s: Seq<char>, k: int) -> Seq<char>
    decreases s.len(),
{
    if s.len() == 0 || k < utf8_width(s[0]) {
        Seq::empty()
    } else {
        seq![s[0]] + byte_prefix(s.drop_first(), k - utf8_width(s[0]))
    }
}

/// `k` is a character boundary of `s`: a prefix of `s` is exactly `k` bytes long.
pub open spec fn is_byte_boundary(s: Seq<char>, k: int) -> bool {
    byte_len(byte_prefix(s, k)) == k
}

pub proof fn lemma_byte_len_push(s: Seq<char>, c: char)
    ensures
        byte_len(s.push(c)) == byte_len(s) + utf8_width(c),
{
    assert(s.push(c).drop_last() =~= s);
}

/// The width of a character and of a prefix split into first and rest.
proof fn lemma_byte_prefix_step(s: Seq<char>, i: int, k: int)
    requires
        0 <= i < s.len(),
        byte_len(s.take(i)) + utf8_width(s[i]) <= k,
        byte_prefix(s, k) == s.take(i) + byte_prefix(s.skip(i), k - byte_len(s.take(i))),
    ensures
        byte_prefix(s, k) == s.take(i + 1) + byte_prefix(s.skip(i + 1), k - byte_len(s.take(i + 1))),
{
    let rest = s.skip(i);
    let k2 = k - byte_len(s.take(i));
    assert(rest[0] == s[i]);
    assert(rest.drop_first() =~= s.skip(i + 1));
    assert(byte_prefix(rest, k2) == seq![s[i]] + byte_prefix(s.skip(i + 1), k2 - utf8_width(s[i])));
    assert(s.take(i + 1) =~= s.take(i).push(s[i]));
    lemma_byte_len_push(s.take(i), s[i]);
    assert(s.take(i) + (seq![s[i]] + byte_prefix(s.skip(i + 1), k2 - utf8_width(s[i])))
        =~= s.take(i + 1) + byte_prefix(s.skip(i + 1), k2 - utf8_width(s[i])));
}

/// Finds how many leading characters of `s` make up exactly `k` bytes.
/// Returns `None` when byte `k` does not fall on a character boundary.
pub fn char_count_at_byte(s: &Vec<char>, k: usize) -> (res: Option<usize>)
    ensures
        match res {
            Some(n) => n <= s@.len() && s@.take(n as int) == byte_prefix(s@, k as int)
                && is_byte_boundary(s@, k as int),
            None => !is_byte_boundary(s@, k as int),
        },
{
    let mut i: usize = 0;
    let mut used: usize = 0;
    let mut done = false;
    assert(s@.take(0) =~= Seq::<char>::empty());
    assert(s@.skip(0) =~= s@);
    while i < s.len() && !done
        invariant
            i <= s@.len(),
            used == byte_len(s@.take(i as int)),
            used <= k,
            byte_prefix(s@, k as int) == s@.take(i as int) + byte_prefix(s@.skip(i as int), k - used),
            done ==> i < s@.len() && utf8_width(s@[i as int]) > k - used,
        decreases s@.len() - i + (if done { 0int } else { 1int }),
    {
        let c = s[i];
        let cu = c as u32;
        let w: usize = if cu < 0x80 { 1 } else if cu < 0x800 { 2 } else if cu < 0x10000 { 3 } else { 4 };
        assert(w == utf8_width(c));
        if w > k - used {
            done = true;
        } else {
            proof {
                lemma_byte_prefix_step(s@, i as int, k as int);
                lemma_byte_len_push(s@.take(i as int), c);
                assert(s@.take(i as int + 1) =~= s@.take(i as int).push(c));
            }
            used = used + w;
            i = i + 1;
        }
    }
    // byte_prefix stops here: either the string ended or the next character does not fit.
    let ghost rest = s@.skip(i as int);
    assert(byte_prefix(rest, k - used) =~= Seq::<char>::empty()) by {
        if rest.len() > 0 {
            assert(rest[0] == s@[i as int]);
        }
    }
    assert(byte_prefix(s@, k as int) =~= s@.take(i as int));
    if used == k {
        Some(i)
    } else {
        None
    }
}

/// Shortens `s` to fit `max_len` bytes, ending it with `marker` when it had to
/// be cut: a string of at most `max_len` bytes is returned unchanged; a longer one
/// keeps its first `max_len - cut` bytes (saturating at zero) followed by `marker`.
pub open spec fn truncate_with(s: Seq<char>, max_len: int, cut: int, marker: Seq<char>) -> Seq<char> {
    if byte_len(s) <= max_len {
        s
    } else {
        let keep = if max_len >= cut { max_len - cut } else { 0 };
        byte_prefix(s, keep) + marker
    }
}

/// The byte count kept by `truncate_with` for a string that must be cut.
pub open spec fn kept_bytes(max_len: int, cut: int) -> int {
    if max_len >= cut { max_len - cut } else { 0 }
}

/// Shared body of the two truncation helpers.
pub fn truncate_chars(s: &str, max_len: usize, cut: usize, marker: &Vec<char>) -> (res: String)
    requires
        byte_len(s@) <= max_len || is_byte_boundary(s@, kept_bytes(max_len as int, cut as int)),
    ensures
        res@ == truncate_with(s@, max_len as int, cut as int, marker@),
{
    let cs = chars_of(s);
    // total byte length, stopping early once it is known to exceed max_len
    let mut i: usize = 0;
    let mut total: usize = 0;
    while i < cs.len()
        invariant
            i <= cs@.len(),
            cs@ == s@,
            total == byte_len(cs@.take(i as int)),
            total <= max_len,
            byte_len(s@) <= max_len || is_byte_boundary(s@, kept_bytes(max_len as int, cut as int)),
        decreases cs@.len() - i,
    {
        let c = cs[i];
        let cu = c as u32;
        let w: usize = if cu < 0x80 { 1 } else if cu < 0x800 { 2 } else if cu < 0x10000 { 3 } else { 4 };
        assert(w == utf8_width(c));
        proof {
            lemma_byte_len_push(cs@.take(i as int), c);
            assert(cs@.take(i as int + 1) =~= cs@.take(i as int).push(c));
        }
        if w > max_len - total {
            proof {
                lemma_byte_len_prefix_le(cs@, i as int + 1);
            }
            let keep: usize = if max_len >= cut { max_len - cut } else { 0 };
            let n = char_count_at_byte(&cs, keep);
            match n {
                Some(n) => {
                    let mut out: Vec<char> = Vec::new();
                    let mut j: usize = 0;
                    while j < n
                        invariant
                            j <= n <= cs@.len(),
                            out@ == cs@.take(j as int),
                        decreases n - j,
                    {
                        out.push(cs[j]);
                        assert(cs@.take(j as int + 1) =~= cs@.take(j as int).push(cs@[j as int]));
                        j = j + 1;
                    }
                    let mut k: usize = 0;
                    while k < marker.len()
                        invariant
                            k <= marker@.len(),
                            out@ == cs@.take(n as int) + marker@.take(k as int),
                        decreases marker@.len() - k,
                    {
                        out.push(marker[k]);
                        assert(marker@.take(k as int + 1) =~= marker@.take(k as int).push(marker@[k as int]));
                        k = k + 1;
                    }
                    assert(marker@.take(marker@.len() as int) =~= marker@);
                    return string_from_chars(&out);
                },
                None => {
                    assert(false);
                    return string_from_chars(&cs);
                },
            }
        }
        total = total + w;
        i = i + 1;
    }
    assert(cs@.take(cs@.len() as int) =~= cs@);
    string_from_chars(&cs)
}

/// The UTF-8 byte length of the characters `s`, capped at `cap`.
pub fn byte_len_min(s: &Vec<char>, cap: usize) -> (res: usize)
    ensures
        res == if byte_len(s@) < cap { byte_len(s@) as int } else { cap as int },
{
    let mut i: usize = 0;
    let mut total: usize = 0;
    while i < s.len()
        invariant
            i <= s@.len(),
            total == byte_len(s@.take(i as int)),
            total < cap || (total == cap && i == 0),
        decreases s@.len() - i,
    {
        let c = s[i];
        let cu = c as u32;
        let w: usize = if cu < 0x80 { 1 } else if cu < 0x800 { 2 } else if cu < 0x10000 { 3 } else { 4 };
        assert(w == utf8_width(c));
        proof {
            lemma_byte_len_push(s@.take(i as int), c);
            assert(s@.take(i as int + 1) =~= s@.take(i as int).push(c));
            lemma_byte_len_prefix_le(s@, i as int + 1);
        }
        if w >= cap - total {
            return cap;
        }
        total = total + w;
        i = i + 1;
    }
    assert(s@.take(s@.len() as int) =~= s@);
    total
}

/// Every character takes at least one byte.
pub proof fn lemma_byte_len_ge_len(s: Seq<char>)
    ensures
        byte_len(s) >= s.len(),
    decreases s.len(),
{
    if s.len() > 0 {
        lemma_byte_len_ge_len(s.drop_last());
    }
}

/// A prefix is never longer in bytes than the whole.
pub proof fn lemma_byte_len_prefix_le(s: Seq<char>, n: int)
    requires
        0 <= n <= s.len(),
    ensures
        byte_len(s.take(n)) <= byte_len(s),
    decreases s.len() - n,
{
    if n < s.len() {
        lemma_byte_len_prefix_le(s, n + 1);
        assert(s.take(n + 1) =~= s.take(n).push(s[n]));
        lemma_byte_len_push(s.take(n), s[n]);
    } else {
        assert(s.take(n) =~= s);
    }
}

} // verus!

verus! {

/// The decimal digits of `n`, most significant first.
pub open spec fn decimal(n: nat) -> Seq<char>
    decreases n,
{
    if n < 10 {
        seq![((n + 48) as u8) as char]
    } else {
        decimal(n / 10) + seq![(((n % 10) + 48) as u8) as char]
    }
}

/// Writes `n` in decimal.
pub fn decimal_chars(n: u64) -> (res: Vec<char>)
    ensures
        res@ == decimal(n as nat),
    decreases n,
{
    let d = (n % 10) as u8;
    let c = (d + 48) as char;
    if n < 10 {
        let mut v: Vec<char> = Vec::new();
        v.push(c);
        proof {
            assert(v@ =~= decimal(n as nat));
        }
        v
    } else {
        let mut v = decimal_chars(n / 10);
        v.push(c);
        proof {
            assert(v@ =~= decimal(n as nat));
        }
        v
    }
}


/// The view of an optional string.
pub open spec fn opt_view(o: Option<String>) -> Option<Seq<char>> {
    match o {
        Some(s) => Some(s@),
        None => None,
    }
}

/// Unicode's `White_Space` property, which `char::is_whitespace` and `str::trim`
/// go by.
pub open spec fn is_white_space(c: char) -> bool {
    let u = c as u32;
    (0x9 <= u <= 0xD) || u == 0x20 || u == 0x85 || u == 0xA0 || u == 0x1680 || (0x2000 <= u <= 0x200A)
        || u == 0x2028 || u == 0x2029 || u == 0x202F || u == 0x205F || u == 0x3000
}

/// `s` without its leading white space.
pub open spec fn trim_start_ws(s: Seq<char>) -> Seq<char>
    decreases s.len(),
{
    if s.len() > 0 && is_white_space(s[0]) {
        trim_start_ws(s.drop_first())
    } else {
        s
    }
}

/// `s` without its trailing white space.
pub open spec fn trim_end_ws(s: Seq<char>) -> Seq<char>
    decreases s.len(),
{
    if s.len() > 0 && is_white_space(s.last()) {
        trim_end_ws(s.drop_last())
    } else {
        s
    }
}

/// `s` without leading and trailing white space, as `str::trim` gives it.
pub open spec fn trim_ws(s: Seq<char>) -> Seq<char> {
    trim_end_ws(trim_start_ws(s))
}

/// Whether `c` is white space.
pub fn char_is_white_space(c: char) -> (res: bool)
    ensures
        res == is_white_space(c),
{
    let u = c as u32;
    (0x9 <= u && u <= 0xD) || u == 0x20 || u == 0x85 || u == 0xA0 || u == 0x1680 || (0x2000 <= u && u <= 0x200A)
        || u == 0x2028 || u == 0x2029 || u == 0x202F || u == 0x205F || u == 0x3000
}

proof fn lemma_trim_start_skip(s: Seq<char>, i: int)
    requires
        0 <= i <= s.len(),
        forall|k: int| 0 <= k < i ==> is_white_space(#[trigger] s[k]),
    ensures
        trim_start_ws(s) == trim_start_ws(s.skip(i)),
    decreases i,
{
    if i > 0 {
        assert(s.drop_first().skip(i - 1) =~= s.skip(i));
        assert forall|k: int| 0 <= k < i - 1 implies is_white_space(#[trigger] s.drop_first()[k]) by {
            assert(s.drop_first()[k] == s[k + 1]);
        }
        lemma_trim_start_skip(s.drop_first(), i - 1);
    } else {
        assert(s.skip(0) =~= s);
    }
}

proof fn lemma_trim_end_take(s: Seq<char>, j: int)
    requires
        0 <= j <= s.len(),
        forall|k: int| j <= k < s.len() ==> is_white_space(#[trigger] s[k]),
    ensures
        trim_end_ws(s) == trim_end_ws(s.take(j)),
    decreases s.len() - j,
{
    if j < s.len() {
        assert(s.drop_last().take(j) =~= s.take(j));
        assert forall|k: int| j <= k < s.len() - 1 implies is_white_space(#[trigger] s.drop_last()[k]) by {
            assert(s.drop_last()[k] == s[k]);
        }
        assert(is_white_space(s[s.len() - 1]));
        lemma_trim_end_take(s.drop_last(), j);
    } else {
        assert(s.take(j) =~= s);
    }
}

/// `s` without leading and trailing white space.
pub fn trim_chars(s: &Vec<char>) -> (res: Vec<char>)
    ensures
        res@ == trim_ws(s@),
{
    let n = s.len();
    let mut i: usize = 0;
    while i < n && char_is_white_space(s[i])
        invariant
            i <= n == s@.len(),
            forall|k: int| 0 <= k < i ==> is_white_space(#[trigger] s@[k]),
        decreases n - i,
    {
        i = i + 1;
    }
    proof {
        lemma_trim_start_skip(s@, i as int);
    }
    let ghost rest = s@.skip(i as int);
    assert(trim_start_ws(rest) == rest);
    let mut j: usize = n;
    while j > i && char_is_white_space(s[j - 1])
        invariant
            i <= j <= n == s@.len(),
            forall|k: int| j <= k < n ==> is_white_space(#[trigger] s@[k]),
        decreases j,
    {
        j = j - 1;
    }
    proof {
        assert forall|k: int| j - i <= k < rest.len() implies is_white_space(#[trigger] rest[k]) by {
            assert(rest[k] == s@[k + i]);
        }
        lemma_trim_end_take(rest, j - i);
        let kept = rest.take(j - i);
        if j > i {
            assert(kept.last() == s@[j - 1]);
        }
        assert(trim_end_ws(kept) == kept);
    }
    let mut out: Vec<char> = Vec::new();
    let mut k: usize = i;
    while k < j
        invariant
            i <= k <= j <= n == s@.len(),
            out@ == s@.subrange(i as int, k as int),
        decreases j - k,
    {
        out.push(s[k]);
        assert(s@.subrange(i as int, k + 1) =~= s@.subrange(i as int, k as int).push(s@[k as int]));
        k = k + 1;
    }
    assert(out@ =~= rest.take(j - i));
    out
}

/// `s` begins with `p`.
pub open spec fn starts_with(s: Seq<char>, p: Seq<char>) -> bool {
    p.len() <= s.len() && s.take(p.len() as int) == p
}

/// `s` ends with `p`.
pub open spec fn ends_with(s: Seq<char>, p: Seq<char>) -> bool {
    p.len() <= s.len() && s.skip(s.len() - p.len()) == p
}

/// Whether `s` begins with `p`.
pub fn chars_starts_with(s: &Vec<char>, p: &Vec<char>) -> (res: bool)
    ensures
        res == starts_with(s@, p@),
{
    if p.len() > s.len() {
        return false;
    }
    let mut i: usize = 0;
    while i < p.len()
        invariant
            i <= p@.len() <= s@.len(),
            forall|k: int| 0 <= k < i ==> s@[k] == p@[k],
        decreases p@.len() - i,
    {
        if s[i] != p[i] {
            assert(s@.take(p@.len() as int)[i as int] != p@[i as int]);
            return false;
        }
        i = i + 1;
    }
    assert(s@.take(p@.len() as int) =~= p@);
    true
}

/// Whether `s` ends with `p`.
pub fn chars_ends_with(s: &Vec<char>, p: &Vec<char>) -> (res: bool)
    ensures
        res == ends_with(s@, p@),
{
    if p.len() > s.len() {
        return false;
    }
    let off = s.len() - p.len();
    let mut i: usize = 0;
    while i < p.len()
        invariant
            i <= p@.len() <= s@.len(),
            off == s@.len() - p@.len(),
            s@.len() == s.len(),
            forall|k: int| 0 <= k < i ==> s@[off + k] == p@[k],
        decreases p@.len() - i,
    {
        if s[off + i] != p[i] {
            assert(s@.skip(off as int)[i as int] != p@[i as int]);
            return false;
        }
        i = i + 1;
    }
    assert(s@.skip(off as int) =~= p@);
    true
}

/// `p` occurs somewhere in `s`.
pub open spec fn contains_seq(s: Seq<char>, p: Seq<char>) -> bool {
    exists|i: int| 0 <= i && i + p.len() <= s.len() && #[trigger] s.subrange(i, i + p.len()) == p
}

/// Whether `p` occurs in `s`.
pub fn chars_contains(s: &Vec<char>, p: &Vec<char>) -> (res: bool)
    ensures
        res == contains_seq(s@, p@),
{
    if p.len() > s.len() {
        return false;
    }
    let last = s.len() - p.len();
    let mut i: usize = 0;
    while i <= last
        invariant
            last == s@.len() - p@.len(),
            s@.len() == s.len(),
            p@.len() == p.len(),
            forall|j: int| 0 <= j < i ==> #[trigger] s@.subrange(j, j + p@.len()) != p@,
        decreases last + 1 - i,
    {
        let mut k: usize = 0;
        let mut same = true;
        while k < p.len() && same
            invariant
                i <= last,
                last == s@.len() - p@.len(),
                s@.len() == s.len(),
                k <= p@.len(),
                p@.len() == p.len(),
                same ==> forall|m: int| 0 <= m < k ==> s@[i + m] == p@[m],
                !same ==> s@.subrange(i as int, i + p@.len()) != p@,
            decreases p@.len() - k + (if same { 1int } else { 0int }),
        {
            if s[i + k] != p[k] {
                assert(s@.subrange(i as int, i + p@.len())[k as int] == s@[i + k]);
                same = false;
            } else {
                k = k + 1;
            }
        }
        if same {
            assert(s@.subrange(i as int, i + p@.len()) =~= p@);
            return true;
        }
        if i == last {
            assert forall|j: int| 0 <= j && j + p@.len() <= s@.len() implies #[trigger] s@.subrange(j, j + p@.len()) != p@ by {
                assert(j <= i);
            }
            return false;
        }
        i = i + 1;
    }
    false
}

} // verus!
