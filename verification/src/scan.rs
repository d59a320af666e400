//! Scanning of short texts: characters of a string, fields between
//! separators, and numbers in decimal and hexadecimal notation.

use vstd::prelude::*;
use vstd::string::*;

verus! {

/// The texts that a sequence of character vectors holds.
pub open spec fn texts(fields: Seq<Vec<char>>) -> Seq<Seq<char>> {
    fields.map_values(|f: Vec<char>| f@)
}

/// The fields of `s` between occurrences of `sep`. A text without `sep` is one
/// field; each `sep` ends a field and starts the next, which may be empty.
pub open spec fn split(s: Seq<char>, sep: char) -> Seq<Seq<char>>
    decreases s.len(),
{
    if s.len() == 0 {
        seq![Seq::<char>::empty()]
    } else {
        let before = split(s.drop_last(), sep);
        if s.last() == sep {
            before.push(Seq::<char>::empty())
        } else {
            before.drop_last().push(before.last().push(s.last()))
        }
    }
}

/// The place of the last `c` in `s`, if there is one.
pub open spec fn last_index_of(s: Seq<char>, c: char) -> Option<int>
    decreases s.len(),
{
    if s.len() == 0 {
        None
    } else if s.last() == c {
        Some(s.len() - 1)
    } else {
        last_index_of(s.drop_last(), c)
    }
}

/// The value of a decimal digit.
pub open spec fn decimal_digit(c: char) -> Option<nat> {
    if '0' <= c <= '9' {
        Some((c as u32 - 0x30) as nat)
    } else {
        None
    }
}

/// The value of a hexadecimal digit, in either case.
pub open spec fn hex_digit(c: char) -> Option<nat> {
    if '0' <= c <= '9' {
        Some((c as u32 - 0x30) as nat)
    } else if 'a' <= c <= 'f' {
        Some((c as u32 - 0x61 + 10) as nat)
    } else if 'A' <= c <= 'F' {
        Some((c as u32 - 0x41 + 10) as nat)
    } else {
        None
    }
}

/// Whether `s` is made of decimal digits, at least one.
pub open spec fn is_decimal(s: Seq<char>) -> bool {
    s.len() > 0 && forall|i: int| 0 <= i < s.len() ==> (#[trigger] decimal_digit(s[i])) is Some
}

/// Whether `s` is made of hexadecimal digits, at least one.
pub open spec fn is_hex(s: Seq<char>) -> bool {
    s.len() > 0 && forall|i: int| 0 <= i < s.len() ==> (#[trigger] hex_digit(s[i])) is Some
}

/// The number that the decimal digits of `s` write, most significant first.
pub open spec fn decimal_value(s: Seq<char>) -> nat
    decreases s.len(),
{
    if s.len() == 0 {
        0
    } else {
        decimal_value(s.drop_last()) * 10 + match decimal_digit(s.last()) {
            Some(d) => d,
            None => 0,
        }
    }
}

/// The number that the hexadecimal digits of `s` write, most significant
/// first.
pub open spec fn hex_value(s: Seq<char>) -> nat
    decreases s.len(),
{
    if s.len() == 0 {
        0
    } else {
        hex_value(s.drop_last()) * 16 + match hex_digit(s.last()) {
            Some(d) => d,
            None => 0,
        }
    }
}

/// The decimal number that `s` writes, where `s` is decimal and the number is
/// at most `limit`. Leading zeros are accepted.
pub open spec fn decimal_up_to(s: Seq<char>, limit: nat) -> Option<nat> {
    if is_decimal(s) && decimal_value(s) <= limit {
        Some(decimal_value(s))
    } else {
        None
    }
}

/// The hexadecimal number that `s` writes, where `s` is hexadecimal and has at
/// most `width` digits.
pub open spec fn hex_of_width(s: Seq<char>, width: nat) -> Option<nat> {
    if is_hex(s) && s.len() <= width {
        Some(hex_value(s))
    } else {
        None
    }
}

/// The characters of a string.
pub fn chars_of(s: &str) -> (r: Vec<char>)
    ensures
        r@ == s@,
{
    let n: usize = s.unicode_len();
    let mut out: Vec<char> = Vec::new();
    let mut i: usize = 0;
    while i < n
        invariant
            n == s@.len(),
            i <= n,
            out@ == s@.subrange(0, i as int),
        decreases n - i,
    {
        out.push(s.get_char(i));
        assert(s@.subrange(0, i as int).push(s@[i as int]) =~= s@.subrange(0, i + 1));
        i = i + 1;
    }
    assert(s@.subrange(0, n as int) =~= s@);
    out
}

/// The characters of `s` from `lo` up to, not including, `hi`.
pub fn slice(s: &Vec<char>, lo: usize, hi: usize) -> (r: Vec<char>)
    requires
        lo <= hi <= s.len(),
    ensures
        r@ == s@.subrange(lo as int, hi as int),
{
    let mut out: Vec<char> = Vec::new();
    let mut i: usize = lo;
    while i < hi
        invariant
            lo <= i <= hi <= s.len(),
            out@ == s@.subrange(lo as int, i as int),
        decreases hi - i,
    {
        out.push(s[i]);
        assert(s@.subrange(lo as int, i as int).push(s@[i as int]) =~= s@.subrange(
            lo as int,
            i + 1,
        ));
        i = i + 1;
    }
    out
}

/// Splits `s` into the fields between occurrences of `sep`.
pub fn split_fields(s: &Vec<char>, sep: char) -> (r: Vec<Vec<char>>)
    ensures
        texts(r@) == split(s@, sep),
        r.len() > 0,
{
    let mut fields: Vec<Vec<char>> = Vec::new();
    let mut current: Vec<char> = Vec::new();
    let mut i: usize = 0;
    assert(texts(fields@).push(current@) =~= split(s@.subrange(0, 0), sep));
    while i < s.len()
        invariant
            i <= s.len(),
            texts(fields@).push(current@) == split(s@.subrange(0, i as int), sep),
        decreases s.len() - i,
    {
        let c: char = s[i];
        let ghost before = texts(fields@).push(current@);
        let ghost prefix = s@.subrange(0, i + 1);
        assert(prefix.drop_last() =~= s@.subrange(0, i as int));
        assert(prefix.last() == c);
        if c == sep {
            fields.push(current);
            current = Vec::new();
            assert(texts(fields@).push(current@) =~= before.push(Seq::<char>::empty()));
        } else {
            current.push(c);
            assert(texts(fields@).push(current@) =~= before.drop_last().push(
                before.last().push(c),
            ));
        }
        i = i + 1;
    }
    assert(s@.subrange(0, i as int) =~= s@);
    let ghost before = texts(fields@);
    let ghost last = current@;
    fields.push(current);
    assert(texts(fields@) =~= before.push(last));
    fields
}

/// Finds the last `c` in `s`.
pub fn find_last(s: &Vec<char>, c: char) -> (r: Option<usize>)
    ensures
        match r {
            Some(i) => last_index_of(s@, c) == Some(i as int) && i < s.len(),
            None => last_index_of(s@, c) is None,
        },
{
    let mut i: usize = s.len();
    assert(s@.subrange(0, i as int) =~= s@);
    while i > 0
        invariant
            i <= s.len(),
            last_index_of(s@, c) == last_index_of(s@.subrange(0, i as int), c),
        decreases i,
    {
        let ghost prefix = s@.subrange(0, i as int);
        assert(prefix.last() == s@[i - 1]);
        assert(prefix.drop_last() =~= s@.subrange(0, i - 1));
        if s[i - 1] == c {
            return Some(i - 1);
        }
        i = i - 1;
    }
    None
}

/// The value of `c` as a decimal digit.
pub fn decimal_digit_of(c: char) -> (r: Option<u8>)
    ensures
        match r {
            Some(d) => decimal_digit(c) == Some(d as nat),
            None => decimal_digit(c) is None,
        },
{
    let n: u32 = c as u32;
    if 0x30 <= n && n <= 0x39 {
        Some((n - 0x30) as u8)
    } else {
        None
    }
}

/// The value of `c` as a hexadecimal digit.
pub fn hex_digit_of(c: char) -> (r: Option<u8>)
    ensures
        match r {
            Some(d) => hex_digit(c) == Some(d as nat),
            None => hex_digit(c) is None,
        },
{
    let n: u32 = c as u32;
    if 0x30 <= n && n <= 0x39 {
        Some((n - 0x30) as u8)
    } else if 0x61 <= n && n <= 0x66 {
        Some((n - 0x61 + 10) as u8)
    } else if 0x41 <= n && n <= 0x46 {
        Some((n - 0x41 + 10) as u8)
    } else {
        None
    }
}

/// The digits read so far never write more than the whole text does.
proof fn lemma_decimal_prefix(s: Seq<char>, k: int)
    requires
        0 <= k <= s.len(),
    ensures
        decimal_value(s.subrange(0, k)) <= decimal_value(s),
    decreases s.len(),
{
    if k == s.len() {
        assert(s.subrange(0, k) =~= s);
    } else {
        lemma_decimal_prefix(s.drop_last(), k);
        assert(s.drop_last().subrange(0, k) =~= s.subrange(0, k));
    }
}

/// A hexadecimal text of `n` digits writes a number below 16 to the `n`.
proof fn lemma_hex_bound(s: Seq<char>)
    requires
        is_hex(s),
        s.len() <= 4,
    ensures
        s.len() == 1 ==> hex_value(s) < 0x10,
        s.len() == 2 ==> hex_value(s) < 0x100,
        s.len() == 3 ==> hex_value(s) < 0x1000,
        s.len() == 4 ==> hex_value(s) < 0x10000,
    decreases s.len(),
{
    let front = s.drop_last();
    assert(hex_digit(s[s.len() - 1]) is Some);
    if s.len() > 1 {
        assert forall|i: int| 0 <= i < front.len() implies (#[trigger] hex_digit(front[i]))
            is Some by {
            assert(front[i] == s[i]);
        }
        lemma_hex_bound(front);
    } else {
        assert(hex_value(front) == 0);
    }
}

/// Reads `field` as a decimal number of at most `limit`. Leading zeros are
/// accepted; an empty field, another character or a larger number is not.
pub fn parse_decimal(field: &Vec<char>, limit: u32) -> (r: Option<u32>)
    ensures
        match r {
            Some(v) => decimal_up_to(field@, limit as nat) == Some(v as nat),
            None => decimal_up_to(field@, limit as nat) is None,
        },
{
    if field.len() == 0 {
        return None;
    }
    let mut acc: u64 = 0;
    let mut i: usize = 0;
    while i < field.len()
        invariant
            i <= field.len(),
            forall|k: int| 0 <= k < i ==> (#[trigger] decimal_digit(field@[k])) is Some,
            acc == decimal_value(field@.subrange(0, i as int)),
            acc <= limit,
        decreases field.len() - i,
    {
        let ghost prefix = field@.subrange(0, i + 1);
        assert(prefix.drop_last() =~= field@.subrange(0, i as int));
        assert(prefix.last() == field@[i as int]);
        match decimal_digit_of(field[i]) {
            None => {
                return None;
            },
            Some(d) => {
                let next: u64 = acc * 10 + d as u64;
                if next > limit as u64 {
                    proof {
                        lemma_decimal_prefix(field@, i + 1);
                    }
                    return None;
                }
                acc = next;
            },
        }
        i = i + 1;
    }
    assert(field@.subrange(0, i as int) =~= field@);
    Some(acc as u32)
}

/// Reads `field` as a hexadecimal number of one to four digits.
pub fn parse_hex_group(field: &Vec<char>) -> (r: Option<u16>)
    ensures
        match r {
            Some(v) => hex_of_width(field@, 4) == Some(v as nat),
            None => hex_of_width(field@, 4) is None,
        },
{
    if field.len() == 0 || field.len() > 4 {
        return None;
    }
    let mut acc: u32 = 0;
    let mut i: usize = 0;
    while i < field.len()
        invariant
            i <= field.len() <= 4,
            forall|k: int| 0 <= k < i ==> (#[trigger] hex_digit(field@[k])) is Some,
            acc == hex_value(field@.subrange(0, i as int)),
            i == 0 ==> acc == 0,
            i > 0 ==> is_hex(field@.subrange(0, i as int)),
            acc < 0x10000,
        decreases field.len() - i,
    {
        let ghost prefix = field@.subrange(0, i + 1);
        assert(prefix.drop_last() =~= field@.subrange(0, i as int));
        assert(prefix.last() == field@[i as int]);
        match hex_digit_of(field[i]) {
            None => {
                return None;
            },
            Some(d) => {
                proof {
                    if i > 0 {
                        lemma_hex_bound(field@.subrange(0, i as int));
                    }
                    assert forall|k: int| 0 <= k < prefix.len() implies (#[trigger] hex_digit(
                        prefix[k],
                    )) is Some by {
                        assert(prefix[k] == field@[k]);
                    }
                    lemma_hex_bound(prefix);
                }
                acc = acc * 16 + d as u32;
            },
        }
        i = i + 1;
    }
    assert(field@.subrange(0, i as int) =~= field@);
    Some(acc as u16)
}

/// The text that `fields` make with `sep` between them.
pub open spec fn join(fields: Seq<Seq<char>>, sep: char) -> Seq<char>
    decreases fields.len(),
{
    if fields.len() == 0 {
        Seq::<char>::empty()
    } else if fields.len() == 1 {
        fields[0]
    } else {
        join(fields.drop_last(), sep).push(sep) + fields.last()
    }
}

/// Splitting loses nothing and cuts at every separator: there is at least
/// one field, no field holds the separator, and the fields with the
/// separator between them make the text again.
pub proof fn lemma_split_joins(s: Seq<char>, sep: char)
    ensures
        split(s, sep).len() >= 1,
        forall|k: int| 0 <= k < split(s, sep).len() ==> !(#[trigger] split(s, sep)[k]).contains(sep),
        join(split(s, sep), sep) == s,
    decreases s.len(),
{
    let none = Seq::<char>::empty();
    if s.len() == 0 {
        assert(split(s, sep) =~= seq![none]);
        assert(join(split(s, sep), sep) =~= s);
    } else {
        let before = split(s.drop_last(), sep);
        lemma_split_joins(s.drop_last(), sep);
        let c = s.last();
        assert(s =~= s.drop_last().push(c));
        if c == sep {
            let fields = before.push(none);
            assert(fields.drop_last() =~= before);
            assert(join(fields, sep) =~= join(before, sep).push(sep));
            assert forall|k: int| 0 <= k < fields.len() implies !(#[trigger] fields[k]).contains(
                sep,
            ) by {
                if k < before.len() {
                    assert(fields[k] == before[k]);
                }
            }
        } else {
            let last = before.last().push(c);
            let fields = before.drop_last().push(last);
            assert(!before.last().contains(sep));
            assert(!last.contains(sep)) by {
                if last.contains(sep) {
                    let k = choose|k: int| 0 <= k < last.len() && last[k] == sep;
                    assert(before.last()[k] == sep);
                }
            }
            assert forall|k: int| 0 <= k < fields.len() implies !(#[trigger] fields[k]).contains(
                sep,
            ) by {
                if k < fields.len() - 1 {
                    assert(fields[k] == before[k]);
                }
            }
            if before.len() == 1 {
                assert(join(fields, sep) =~= join(before, sep).push(c));
            } else {
                assert(fields.drop_last() =~= before.drop_last());
                assert(join(fields, sep) =~= join(before, sep).push(c));
            }
        }
    }
}

} // verus!
