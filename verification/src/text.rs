//! Text helpers: white space, trimming, and comparison of ASCII text without
//! regard to case.

use vstd::prelude::*;
use vstd::string::*;

verus! {

/// Whether `c` has the Unicode property White_Space.
pub open spec fn is_space(c: char) -> bool {
    let n = c as u32;
    ||| 0x09 <= n <= 0x0D
    ||| n == 0x20
    ||| n == 0x85
    ||| n == 0xA0
    ||| n == 0x1680
    ||| 0x2000 <= n <= 0x200A
    ||| n == 0x2028
    ||| n == 0x2029
    ||| n == 0x202F
    ||| n == 0x205F
    ||| n == 0x3000
}

/// `s` without its leading white space.
pub open spec fn trim_start(s: Seq<char>) -> Seq<char>
    decreases s.len(),
{
    if s.len() > 0 && is_space(s.first()) {
        trim_start(s.drop_first())
    } else {
        s
    }
}

/// `s` without its trailing white space.
pub open spec fn trim_end(s: Seq<char>) -> Seq<char>
    decreases s.len(),
{
    if s.len() > 0 && is_space(s.last()) {
        trim_end(s.drop_last())
    } else {
        s
    }
}

/// `s` without its leading and trailing white space.
pub open spec fn trimmed(s: Seq<char>) -> Seq<char> {
    trim_end(trim_start(s))
}

/// Tells whether a character is white space.
pub fn is_whitespace(c: char) -> (r: bool)
    ensures
        r == is_space(c),
{
    let n: u32 = c as u32;
    (0x09 <= n && n <= 0x0D) || n == 0x20 || n == 0x85 || n == 0xA0 || n == 0x1680 || (0x2000 <= n
        && n <= 0x200A) || n == 0x2028 || n == 0x2029 || n == 0x202F || n == 0x205F || n == 0x3000
}

/// Dropping leading white space from a suffix of `s` that only white space
/// precedes gives the same as dropping it from `s`.
proof fn lemma_trim_start_skip(s: Seq<char>, i: int)
    requires
        0 <= i <= s.len(),
        forall|k: int| 0 <= k < i ==> is_space(#[trigger] s[k]),
    ensures
        trim_start(s) == trim_start(s.subrange(i, s.len() as int)),
    decreases i,
{
    if i == 0 {
        assert(s.subrange(0, s.len() as int) =~= s);
    } else {
        let rest = s.drop_first();
        assert(is_space(s[0]));
        assert forall|k: int| 0 <= k < i - 1 implies is_space(#[trigger] rest[k]) by {
            assert(rest[k] == s[k + 1]);
        }
        lemma_trim_start_skip(rest, i - 1);
        assert(rest.subrange(i - 1, rest.len() as int) =~= s.subrange(i, s.len() as int));
    }
}

/// Dropping trailing white space from a prefix of `s` that only white space
/// follows gives the same as dropping it from `s`.
proof fn lemma_trim_end_take(s: Seq<char>, j: int)
    requires
        0 <= j <= s.len(),
        forall|k: int| j <= k < s.len() ==> is_space(#[trigger] s[k]),
    ensures
        trim_end(s) == trim_end(s.subrange(0, j)),
    decreases s.len() - j,
{
    if j == s.len() {
        assert(s.subrange(0, j) =~= s);
    } else {
        let rest = s.drop_last();
        assert(is_space(s[s.len() - 1]));
        lemma_trim_end_take(rest, j);
        assert(rest.subrange(0, j) =~= s.subrange(0, j));
    }
}

/// Returns `s` without its leading and trailing white space.
pub fn trim(s: &str) -> (r: String)
    ensures
        r@ == trimmed(s@),
{
    let n: usize = s.unicode_len();
    let mut start: usize = 0;
    while start < n && is_whitespace(s.get_char(start))
        invariant
            n == s@.len(),
            start <= n,
            forall|k: int| 0 <= k < start ==> is_space(#[trigger] s@[k]),
        decreases n - start,
    {
        start = start + 1;
    }
    let mut end: usize = n;
    while end > start && is_whitespace(s.get_char(end - 1))
        invariant
            n == s@.len(),
            start <= end <= n,
            forall|k: int| end <= k < n ==> is_space(#[trigger] s@[k]),
        decreases end,
    {
        end = end - 1;
    }
    proof {
        let front = s@.subrange(start as int, n as int);
        lemma_trim_start_skip(s@, start as int);
        assert(trim_start(front) == front) by {
            if start < n {
                assert(front.first() == s@[start as int]);
            }
        }
        assert forall|k: int| end - start <= k < front.len() implies is_space(
            #[trigger] front[k],
        ) by {
            assert(front[k] == s@[k + start]);
        }
        lemma_trim_end_take(front, end - start);
        let kept = s@.subrange(start as int, end as int);
        assert(front.subrange(0, end - start) =~= kept);
        assert(trim_end(kept) == kept) by {
            if start < end {
                assert(kept.last() == s@[end - 1]);
            }
        }
    }
    String::from_str(s.substring_char(start, end))
}

/// The code of `c`, with the ASCII capital letters mapped to their small
/// letters.
pub open spec fn ascii_fold(c: char) -> u32 {
    if 'A' <= c <= 'Z' {
        (c as u32 + 32) as u32
    } else {
        c as u32
    }
}

/// Whether `a` and `b` are the same text but for the case of ASCII letters.
pub open spec fn same_but_for_case(a: Seq<char>, b: Seq<char>) -> bool {
    a.len() == b.len() && forall|i: int|
        0 <= i < a.len() ==> ascii_fold(#[trigger] a[i]) == ascii_fold(b[i])
}

/// The code of a character without regard to the case of ASCII letters.
pub fn fold_case(c: char) -> (r: u32)
    ensures
        r == ascii_fold(c),
{
    let n: u32 = c as u32;
    if 0x41 <= n && n <= 0x5A {
        n + 32
    } else {
        n
    }
}

/// Tells whether two texts are the same but for the case of ASCII letters.
pub fn eq_ignoring_case(a: &str, b: &str) -> (r: bool)
    ensures
        r == same_but_for_case(a@, b@),
{
    let n: usize = a.unicode_len();
    if b.unicode_len() != n {
        return false;
    }
    let mut i: usize = 0;
    while i < n
        invariant
            n == a@.len(),
            n == b@.len(),
            i <= n,
            forall|k: int| 0 <= k < i ==> ascii_fold(#[trigger] a@[k]) == ascii_fold(b@[k]),
        decreases n - i,
    {
        if fold_case(a.get_char(i)) != fold_case(b.get_char(i)) {
            return false;
        }
        i = i + 1;
    }
    true
}

/// Tells whether two byte strings are equal. Every byte is looked at,
/// wherever the first difference is: only the lengths end the comparison
/// early.
pub fn bytes_equal(a: &[u8], b: &[u8]) -> (r: bool)
    ensures
        r == (a@ == b@),
{
    let n: usize = a.len();
    if b.len() != n {
        return false;
    }
    let mut differ: u8 = 0;
    let mut i: usize = 0;
    assert(a@.subrange(0, 0) =~= b@.subrange(0, 0));
    while i < n
        invariant
            n == a@.len(),
            n == b@.len(),
            i <= n,
            differ != 0 <==> a@.subrange(0, i as int) != b@.subrange(0, i as int),
        decreases n - i,
    {
        let ghost a_before = a@.subrange(0, i as int);
        let ghost b_before = b@.subrange(0, i as int);
        assert(a@.subrange(0, i + 1) =~= a_before.push(a@[i as int]));
        assert(b@.subrange(0, i + 1) =~= b_before.push(b@[i as int]));
        assert(a_before.push(a@[i as int]).drop_last() =~= a_before);
        assert(b_before.push(b@[i as int]).drop_last() =~= b_before);
        assert(a_before.push(a@[i as int]).last() == a@[i as int]);
        assert(b_before.push(b@[i as int]).last() == b@[i as int]);
        let x: u8 = a[i];
        let y: u8 = b[i];
        assert((differ | (x ^ y)) == 0 <==> differ == 0 && x == y) by (bit_vector);
        differ = differ | (x ^ y);
        i = i + 1;
    }
    assert(a@.subrange(0, n as int) =~= a@);
    assert(b@.subrange(0, n as int) =~= b@);
    differ == 0
}

/// Whether `t` is `s` with the white space at its two ends taken away, and
/// nothing else: `t` is the part of `s` from `i` up to `j`, only white space
/// stands before `i` and from `j` on, and `t` neither starts nor ends with
/// white space.
pub open spec fn is_trim_of(s: Seq<char>, t: Seq<char>, i: int, j: int) -> bool {
    &&& 0 <= i <= j <= s.len()
    &&& t == s.subrange(i, j)
    &&& forall|k: int| 0 <= k < i ==> is_space(#[trigger] s[k])
    &&& forall|k: int| j <= k < s.len() ==> is_space(#[trigger] s[k])
    &&& i < j ==> !is_space(s[i]) && !is_space(s[j - 1])
}

/// What is left of `s` without its leading white space is the rest of `s`
/// from its first character that is no white space.
proof fn lemma_trim_start_cut(s: Seq<char>) -> (i: int)
    ensures
        0 <= i <= s.len(),
        trim_start(s) == s.subrange(i, s.len() as int),
        forall|k: int| 0 <= k < i ==> is_space(#[trigger] s[k]),
        i < s.len() ==> !is_space(s[i]),
    decreases s.len(),
{
    if s.len() > 0 && is_space(s.first()) {
        let rest = s.drop_first();
        let i = lemma_trim_start_cut(rest);
        assert(rest.subrange(i, rest.len() as int) =~= s.subrange(i + 1, s.len() as int));
        assert forall|k: int| 0 <= k < i + 1 implies is_space(#[trigger] s[k]) by {
            if k > 0 {
                assert(s[k] == rest[k - 1]);
            }
        }
        if i + 1 < s.len() {
            assert(s[i + 1] == rest[i]);
        }
        i + 1
    } else {
        assert(s.subrange(0, s.len() as int) =~= s);
        0
    }
}

/// What is left of `s` without its trailing white space is `s` up to its
/// last character that is no white space.
proof fn lemma_trim_end_cut(s: Seq<char>) -> (j: int)
    ensures
        0 <= j <= s.len(),
        trim_end(s) == s.subrange(0, j),
        forall|k: int| j <= k < s.len() ==> is_space(#[trigger] s[k]),
        0 < j ==> !is_space(s[j - 1]),
    decreases s.len(),
{
    if s.len() > 0 && is_space(s.last()) {
        let rest = s.drop_last();
        let j = lemma_trim_end_cut(rest);
        assert(rest.subrange(0, j) =~= s.subrange(0, j));
        assert forall|k: int| j <= k < s.len() implies is_space(#[trigger] s[k]) by {
            if k < s.len() - 1 {
                assert(s[k] == rest[k]);
            }
        }
        if 0 < j {
            assert(s[j - 1] == rest[j - 1]);
        }
        j
    } else {
        assert(s.subrange(0, s.len() as int) =~= s);
        s.len() as int
    }
}

/// Trimming takes the white space at the two ends away and nothing else.
pub proof fn lemma_trimmed_is_trim(s: Seq<char>) -> (cut: (int, int))
    ensures
        is_trim_of(s, trimmed(s), cut.0, cut.1),
{
    let i = lemma_trim_start_cut(s);
    let front = s.subrange(i, s.len() as int);
    let j = lemma_trim_end_cut(front);
    assert(front.subrange(0, j) =~= s.subrange(i, i + j));
    assert forall|k: int| i + j <= k < s.len() implies is_space(#[trigger] s[k]) by {
        assert(s[k] == front[k - i]);
    }
    if 0 < j {
        assert(front[j - 1] == s[i + j - 1]);
        assert(front[0] == s[i]);
    }
    (i, i + j)
}

/// There is one way only to take the white space at the two ends away: any
/// text that is `s` without it is the trimmed `s`.
pub proof fn lemma_trim_is_unique(s: Seq<char>, t: Seq<char>, i: int, j: int)
    requires
        is_trim_of(s, t, i, j),
    ensures
        t == trimmed(s),
{
    let (a, b) = lemma_trimmed_is_trim(s);
    if i < j {
        assert(!is_space(s[i]) && !is_space(s[j - 1]));
        if a < b {
            assert(!is_space(s[a]) && !is_space(s[b - 1]));
            assert(a == i && b == j);
        } else {
            assert(a <= i || is_space(s[i]));
            assert(false);
        }
    } else {
        if a < b {
            assert(!is_space(s[a]));
            assert(i <= a || is_space(s[a]));
            assert(false);
        } else {
            assert(s.subrange(i, j) =~= s.subrange(a, b));
        }
    }
}

} // verus!
