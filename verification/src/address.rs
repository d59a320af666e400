//! The address that the agent listens on, and the text that writes it.
//!
//! An address is written as a host and a port with a colon between them. The
//! host is an IPv4 address in dotted decimal notation, `0.0.0.0:8443`, or an
//! IPv6 address in square brackets, `[::1]:8443`, which may carry a numeric
//! zone after a percent sign, `[fe80::1%3]:8443`.

use crate::scan::{
    chars_of, decimal_up_to, decimal_value, find_last, hex_of_width, last_index_of,
    parse_decimal, parse_hex_group, slice, split, split_fields, texts,
};
use vstd::prelude::*;

verus! {

/// An IP address: 32 bits, or 128 bits with a zone.
#[derive(Clone, Copy, Debug, PartialEq, Eq, Structural)]
pub enum Host {
    /// An IPv4 address; the first octet of its text is the most significant.
    V4 { quad: u32 },
    /// An IPv6 address; the first group of its text is the most significant.
    V6 { groups: u128, scope_id: u32 },
}

/// A host and a port to listen on.
#[derive(Clone, Copy, Debug, PartialEq, Eq, Structural)]
pub struct BindAddress {
    pub host: Host,
    pub port: u16,
}

/// The numbers that a sequence of 16-bit groups holds.
pub open spec fn naturals(groups: Seq<u16>) -> Seq<nat> {
    groups.map_values(|g: u16| g as nat)
}

/// One part of a dotted IPv4 address: a decimal number up to 255 in at most
/// three digits, without a leading zero unless it is the single digit `0`.
pub open spec fn octet_of(s: Seq<char>) -> Option<nat> {
    if s.len() <= 3 && (s.len() == 1 || s.first() != '0') {
        decimal_up_to(s, 255)
    } else {
        None
    }
}

/// The IPv4 address that `s` writes: four octets with dots between them.
pub open spec fn ipv4_of(s: Seq<char>) -> Option<nat> {
    let f = split(s, '.');
    if f.len() == 4 {
        match (octet_of(f[0]), octet_of(f[1]), octet_of(f[2]), octet_of(f[3])) {
            (Some(a), Some(b), Some(c), Some(d)) => Some(((a * 256 + b) * 256 + c) * 256 + d),
            _ => None,
        }
    } else {
        None
    }
}

/// A port: a decimal number up to 65535.
pub open spec fn port_of(s: Seq<char>) -> Option<nat> {
    decimal_up_to(s, 0xFFFF)
}

/// A zone: a decimal number that fits in 32 bits.
pub open spec fn scope_of(s: Seq<char>) -> Option<nat> {
    decimal_up_to(s, 0xFFFF_FFFF)
}

/// The groups that `fields` write, where each is one to four hexadecimal
/// digits.
pub open spec fn hex_groups(fields: Seq<Seq<char>>) -> Option<Seq<nat>>
    decreases fields.len(),
{
    if fields.len() == 0 {
        Some(Seq::<nat>::empty())
    } else {
        match (hex_groups(fields.drop_last()), hex_of_width(fields.last(), 4)) {
            (Some(front), Some(g)) => Some(front.push(g)),
            _ => None,
        }
    }
}

/// The groups that `fields` write, where the last field may be a dotted IPv4
/// address, which stands for two groups.
pub open spec fn mixed_groups(fields: Seq<Seq<char>>) -> Option<Seq<nat>> {
    if fields.len() == 0 {
        Some(Seq::<nat>::empty())
    } else {
        match ipv4_of(fields.last()) {
            Some(a) => match hex_groups(fields.drop_last()) {
                Some(front) => Some(front.push(a / 0x1_0000).push(a % 0x1_0000)),
                None => None,
            },
            None => hex_groups(fields),
        }
    }
}

/// The groups before a `::`: none for the empty text, else groups with
/// colons between them.
pub open spec fn head_groups_of(s: Seq<char>) -> Option<Seq<nat>> {
    if s.len() == 0 {
        Some(Seq::<nat>::empty())
    } else {
        hex_groups(split(s, ':'))
    }
}

/// The groups after a `::`, or of an address without one: none for the empty
/// text, else groups with colons between them, the last of which may be a
/// dotted IPv4 address.
pub open spec fn tail_groups_of(s: Seq<char>) -> Option<Seq<nat>> {
    if s.len() == 0 {
        Some(Seq::<nat>::empty())
    } else {
        mixed_groups(split(s, ':'))
    }
}

/// The first place at or after `from` where two colons stand together.
pub open spec fn first_double_colon(s: Seq<char>, from: int) -> Option<int>
    decreases s.len() - from,
{
    if from < 0 || from + 1 >= s.len() {
        None
    } else if s[from] == ':' && s[from + 1] == ':' {
        Some(from)
    } else {
        first_double_colon(s, from + 1)
    }
}

/// The 128 bits that eight groups make, the first group most significant.
pub open spec fn ipv6_value(g: Seq<nat>) -> nat {
    g[0] * 0x1_0000_0000_0000_0000_0000_0000_0000 + g[1] * 0x1_0000_0000_0000_0000_0000_0000
        + g[2] * 0x1_0000_0000_0000_0000_0000 + g[3] * 0x1_0000_0000_0000_0000 + g[4]
        * 0x1_0000_0000_0000 + g[5] * 0x1_0000_0000 + g[6] * 0x1_0000 + g[7]
}

/// `count` groups of zero.
pub open spec fn zero_groups(count: int) -> Seq<nat> {
    Seq::new(count as nat, |k: int| 0nat)
}

/// The IPv6 address that `s` writes: eight groups, or fewer around one `::`
/// that stands for the groups of zero that are missing, at least one.
pub open spec fn ipv6_of(s: Seq<char>) -> Option<nat> {
    match first_double_colon(s, 0) {
        None => match tail_groups_of(s) {
            Some(g) => if g.len() == 8 {
                Some(ipv6_value(g))
            } else {
                None
            },
            None => None,
        },
        Some(i) => match (
            head_groups_of(s.subrange(0, i)),
            tail_groups_of(s.subrange(i + 2, s.len() as int)),
        ) {
            (Some(head), Some(tail)) => if head.len() + tail.len() <= 7 {
                Some(ipv6_value(head + zero_groups(8 - head.len() - tail.len()) + tail))
            } else {
                None
            },
            _ => None,
        },
    }
}

/// The host that the text between square brackets writes: an IPv6 address,
/// and a zone after a percent sign if there is one. Without one the zone is 0.
pub open spec fn scoped_ipv6_of(s: Seq<char>) -> Option<Host> {
    let parts = split(s, '%');
    if parts.len() == 1 {
        match ipv6_of(parts[0]) {
            Some(a) => Some(Host::V6 { groups: a as u128, scope_id: 0 }),
            None => None,
        }
    } else if parts.len() == 2 {
        match (ipv6_of(parts[0]), scope_of(parts[1])) {
            (Some(a), Some(z)) => Some(Host::V6 { groups: a as u128, scope_id: z as u32 }),
            _ => None,
        }
    } else {
        None
    }
}

/// The host that `s` writes: an IPv6 address in square brackets or a dotted
/// IPv4 address.
pub open spec fn host_of(s: Seq<char>) -> Option<Host> {
    if s.len() >= 2 && s.first() == '[' && s.last() == ']' {
        scoped_ipv6_of(s.subrange(1, s.len() - 1))
    } else {
        match ipv4_of(s) {
            Some(a) => Some(Host::V4 { quad: a as u32 }),
            None => None,
        }
    }
}

/// The address that `s` writes: the host before its last colon and the port
/// after it. `None` where `s` writes no address.
pub open spec fn bind_address_of(s: Seq<char>) -> Option<BindAddress> {
    match last_index_of(s, ':') {
        None => None,
        Some(i) => match (host_of(s.subrange(0, i)), port_of(s.subrange(i + 1, s.len() as int))) {
            (Some(host), Some(port)) => Some(BindAddress { host, port: port as u16 }),
            _ => None,
        },
    }
}

/// Reads one part of a dotted IPv4 address.
pub fn parse_octet(field: &Vec<char>) -> (r: Option<u8>)
    ensures
        match r {
            Some(v) => octet_of(field@) == Some(v as nat),
            None => octet_of(field@) is None,
        },
{
    if field.len() > 3 || (field.len() != 1 && field.len() > 0 && field[0] == '0') {
        return None;
    }
    match parse_decimal(field, 255) {
        Some(v) => Some(v as u8),
        None => None,
    }
}

/// Reads a dotted IPv4 address.
pub fn parse_ipv4(s: &Vec<char>) -> (r: Option<u32>)
    ensures
        match r {
            Some(v) => ipv4_of(s@) == Some(v as nat),
            None => ipv4_of(s@) is None,
        },
{
    let fields = split_fields(s, '.');
    if fields.len() != 4 {
        return None;
    }
    assert(texts(fields@)[0] == fields@[0]@);
    assert(texts(fields@)[1] == fields@[1]@);
    assert(texts(fields@)[2] == fields@[2]@);
    assert(texts(fields@)[3] == fields@[3]@);
    match (
        parse_octet(&fields[0]),
        parse_octet(&fields[1]),
        parse_octet(&fields[2]),
        parse_octet(&fields[3]),
    ) {
        (Some(a), Some(b), Some(c), Some(d)) => {
            let ab: u32 = a as u32 * 256 + b as u32;
            let abc: u32 = ab * 256 + c as u32;
            Some(abc * 256 + d as u32)
        },
        _ => None,
    }
}

/// If some of the first fields write no group, the fields as a whole write
/// none.
proof fn lemma_hex_groups_prefix(fields: Seq<Seq<char>>, k: int)
    requires
        0 <= k <= fields.len(),
        hex_groups(fields.subrange(0, k)) is None,
    ensures
        hex_groups(fields) is None,
    decreases fields.len(),
{
    if k == fields.len() {
        assert(fields.subrange(0, k) =~= fields);
    } else {
        assert(fields.drop_last().subrange(0, k) =~= fields.subrange(0, k));
        lemma_hex_groups_prefix(fields.drop_last(), k);
    }
}

/// Reads the first `count` fields as groups of hexadecimal digits.
fn parse_hex_groups(fields: &Vec<Vec<char>>, count: usize) -> (r: Option<Vec<u16>>)
    requires
        count <= fields.len(),
    ensures
        match r {
            Some(g) => hex_groups(texts(fields@).subrange(0, count as int)) == Some(naturals(g@)),
            None => hex_groups(texts(fields@).subrange(0, count as int)) is None,
        },
{
    let ghost all = texts(fields@).subrange(0, count as int);
    let mut out: Vec<u16> = Vec::new();
    let mut i: usize = 0;
    assert(naturals(out@) =~= Seq::<nat>::empty());
    while i < count
        invariant
            i <= count <= fields.len(),
            all == texts(fields@).subrange(0, count as int),
            hex_groups(all.subrange(0, i as int)) == Some(naturals(out@)),
        decreases count - i,
    {
        let ghost prefix = all.subrange(0, i + 1);
        assert(prefix.drop_last() =~= all.subrange(0, i as int));
        assert(prefix.last() == fields@[i as int]@);
        match parse_hex_group(&fields[i]) {
            None => {
                proof {
                    lemma_hex_groups_prefix(all, i + 1);
                }
                return None;
            },
            Some(g) => {
                let ghost before = naturals(out@);
                out.push(g);
                assert(naturals(out@) =~= before.push(g as nat));
            },
        }
        i = i + 1;
    }
    assert(all.subrange(0, i as int) =~= all);
    Some(out)
}

/// Reads groups with colons between them. With `dotted_quad`, the last may
/// be a dotted IPv4 address, which gives two groups.
fn parse_groups(s: &Vec<char>, dotted_quad: bool) -> (r: Option<Vec<u16>>)
    ensures
        match r {
            Some(g) => (if dotted_quad {
                tail_groups_of(s@)
            } else {
                head_groups_of(s@)
            }) == Some(naturals(g@)),
            None => (if dotted_quad {
                tail_groups_of(s@)
            } else {
                head_groups_of(s@)
            }) is None,
        },
{
    if s.len() == 0 {
        let none: Vec<u16> = Vec::new();
        assert(naturals(none@) =~= Seq::<nat>::empty());
        return Some(none);
    }
    let fields = split_fields(s, ':');
    let n: usize = fields.len();
    assert(texts(fields@).subrange(0, n as int) =~= texts(fields@));
    assert(texts(fields@).last() == fields@[n - 1]@);
    assert(texts(fields@).drop_last() =~= texts(fields@).subrange(0, n - 1));
    if dotted_quad {
        match parse_ipv4(&fields[n - 1]) {
            Some(a) => {
                return match parse_hex_groups(&fields, n - 1) {
                    Some(front) => {
                        let mut out = front;
                        let ghost before = naturals(out@);
                        out.push((a / 0x1_0000) as u16);
                        out.push((a % 0x1_0000) as u16);
                        assert(naturals(out@) =~= before.push(a as nat / 0x1_0000).push(
                            a as nat % 0x1_0000,
                        ));
                        Some(out)
                    },
                    None => None,
                };
            },
            None => {},
        }
    }
    parse_hex_groups(&fields, n)
}

/// Finds the first place in `s` where two colons stand together.
fn find_double_colon(s: &Vec<char>) -> (r: Option<usize>)
    ensures
        match r {
            Some(i) => first_double_colon(s@, 0) == Some(i as int) && i + 2 <= s.len(),
            None => first_double_colon(s@, 0) is None,
        },
{
    let mut i: usize = 0;
    while i < s.len() && i + 1 < s.len()
        invariant
            first_double_colon(s@, 0) == first_double_colon(s@, i as int),
        decreases s.len() - i,
    {
        if s[i] == ':' && s[i + 1] == ':' {
            return Some(i);
        }
        i = i + 1;
    }
    None
}

/// Puts eight groups together, the first most significant.
fn join_groups(g: &Vec<u16>) -> (r: u128)
    requires
        g.len() == 8,
    ensures
        r == ipv6_value(naturals(g@)),
{
    let a: u128 = g[0] as u128 * 0x1_0000_0000_0000_0000_0000_0000_0000u128;
    let b: u128 = g[1] as u128 * 0x1_0000_0000_0000_0000_0000_0000u128;
    let c: u128 = g[2] as u128 * 0x1_0000_0000_0000_0000_0000u128;
    let d: u128 = g[3] as u128 * 0x1_0000_0000_0000_0000u128;
    let e: u128 = g[4] as u128 * 0x1_0000_0000_0000u128;
    let f: u128 = g[5] as u128 * 0x1_0000_0000u128;
    let h: u128 = g[6] as u128 * 0x1_0000u128;
    a + b + c + d + e + f + h + g[7] as u128
}

/// Reads an IPv6 address.
pub fn parse_ipv6(s: &Vec<char>) -> (r: Option<u128>)
    ensures
        match r {
            Some(v) => ipv6_of(s@) == Some(v as nat),
            None => ipv6_of(s@) is None,
        },
{
    match find_double_colon(s) {
        None => match parse_groups(s, true) {
            Some(g) => if g.len() == 8 {
                Some(join_groups(&g))
            } else {
                None
            },
            None => None,
        },
        Some(i) => {
            let head_text = slice(s, 0, i);
            let tail_text = slice(s, i + 2, s.len());
            match (parse_groups(&head_text, false), parse_groups(&tail_text, true)) {
                (Some(head), Some(tail)) => {
                    if head.len() > 7 || tail.len() > 7 - head.len() {
                        return None;
                    }
                    let mut full: Vec<u16> = head;
                    let ghost front = naturals(full@);
                    let gap: usize = 8 - full.len() - tail.len();
                    let mut k: usize = 0;
                    while k < gap
                        invariant
                            k <= gap,
                            gap + front.len() + tail.len() == 8,
                            naturals(full@) == front + zero_groups(k as int),
                        decreases gap - k,
                    {
                        let ghost before = naturals(full@);
                        full.push(0);
                        assert(naturals(full@) =~= before.push(0nat));
                        assert(before.push(0nat) =~= front + zero_groups(k + 1));
                        k = k + 1;
                    }
                    let mut j: usize = 0;
                    while j < tail.len()
                        invariant
                            j <= tail.len(),
                            gap + front.len() + tail.len() == 8,
                            naturals(full@) == front + zero_groups(gap as int) + naturals(
                                tail@,
                            ).subrange(0, j as int),
                        decreases tail.len() - j,
                    {
                        let ghost before = naturals(full@);
                        full.push(tail[j]);
                        assert(naturals(full@) =~= before.push(tail@[j as int] as nat));
                        assert(naturals(tail@).subrange(0, j + 1) =~= naturals(tail@).subrange(
                            0,
                            j as int,
                        ).push(tail@[j as int] as nat));
                        assert(before.push(tail@[j as int] as nat) =~= front + zero_groups(
                            gap as int,
                        ) + naturals(tail@).subrange(0, j + 1));
                        j = j + 1;
                    }
                    assert(naturals(tail@).subrange(0, j as int) =~= naturals(tail@));
                    Some(join_groups(&full))
                },
                _ => None,
            }
        },
    }
}

/// Reads what stands between the square brackets: an IPv6 address, and a
/// zone after a percent sign if there is one.
fn parse_scoped_ipv6(s: &Vec<char>) -> (r: Option<Host>)
    ensures
        r == scoped_ipv6_of(s@),
{
    let parts = split_fields(s, '%');
    if parts.len() == 1 {
        assert(texts(parts@)[0] == parts@[0]@);
        match parse_ipv6(&parts[0]) {
            Some(a) => Some(Host::V6 { groups: a, scope_id: 0 }),
            None => None,
        }
    } else if parts.len() == 2 {
        assert(texts(parts@)[0] == parts@[0]@);
        assert(texts(parts@)[1] == parts@[1]@);
        match (parse_ipv6(&parts[0]), parse_decimal(&parts[1], 0xFFFF_FFFF)) {
            (Some(a), Some(z)) => Some(Host::V6 { groups: a, scope_id: z }),
            _ => None,
        }
    } else {
        None
    }
}

/// Reads a host: an IPv6 address in square brackets or a dotted IPv4
/// address.
pub fn parse_host(s: &Vec<char>) -> (r: Option<Host>)
    ensures
        r == host_of(s@),
{
    let n: usize = s.len();
    if n >= 2 && s[0] == '[' && s[n - 1] == ']' {
        let inner = slice(s, 1, n - 1);
        parse_scoped_ipv6(&inner)
    } else {
        match parse_ipv4(s) {
            Some(a) => Some(Host::V4 { quad: a }),
            None => None,
        }
    }
}

/// Reads an address to listen on. Returns `None` where `text` writes none.
pub fn parse_bind_address(text: &str) -> (r: Option<BindAddress>)
    ensures
        r == bind_address_of(text@),
{
    let chars = chars_of(text);
    match find_last(&chars, ':') {
        None => None,
        Some(i) => {
            let host_text = slice(&chars, 0, i);
            let port_text = slice(&chars, i + 1, chars.len());
            match (parse_host(&host_text), parse_decimal(&port_text, 0xFFFF)) {
                (Some(host), Some(port)) => Some(BindAddress { host, port: port as u16 }),
                _ => None,
            }
        },
    }
}

/// The text `0.0.0.0:8443` writes every IPv4 interface, port 8443.
pub proof fn lemma_default_text()
    ensures
        bind_address_of("0.0.0.0:8443"@) == Some(
            BindAddress { host: Host::V4 { quad: 0 }, port: 8443 },
        ),
{
    reveal_strlit("0.0.0.0:8443");
    let s = "0.0.0.0:8443"@;
    assert(s =~= seq!['0', '.', '0', '.', '0', '.', '0', ':', '8', '4', '4', '3']);
    let host = seq!['0', '.', '0', '.', '0', '.', '0'];
    let port = seq!['8', '4', '4', '3'];
    let zero = seq!['0'];
    assert(last_index_of(s, ':') == Some(7int)) by {
        reveal_with_fuel(last_index_of, 6);
    }
    assert(s.subrange(0, 7) =~= host);
    assert(s.subrange(8, 12) =~= port);
    assert(decimal_value(port) == 8443) by {
        reveal_with_fuel(decimal_value, 6);
        assert(port.drop_last() =~= seq!['8', '4', '4']);
        assert(port.drop_last().drop_last() =~= seq!['8', '4']);
        assert(port.drop_last().drop_last().drop_last() =~= seq!['8']);
    }
    assert(decimal_value(zero) == 0) by {
        reveal_with_fuel(decimal_value, 3);
    }
    assert(split(host, '.') =~= seq![zero, zero, zero, zero]) by {
        let h1 = seq!['0'];
        let h2 = seq!['0', '.'];
        let h3 = seq!['0', '.', '0'];
        let h4 = seq!['0', '.', '0', '.'];
        let h5 = seq!['0', '.', '0', '.', '0'];
        let h6 = seq!['0', '.', '0', '.', '0', '.'];
        let none = Seq::<char>::empty();
        assert(host.drop_last() =~= h6);
        assert(h6.drop_last() =~= h5);
        assert(h5.drop_last() =~= h4);
        assert(h4.drop_last() =~= h3);
        assert(h3.drop_last() =~= h2);
        assert(h2.drop_last() =~= h1);
        assert(h1.drop_last() =~= none);
        assert(split(none, '.') =~= seq![none]);
        assert(split(h1, '.') =~= seq![zero]);
        assert(split(h2, '.') =~= seq![zero, none]);
        assert(split(h3, '.') =~= seq![zero, zero]);
        assert(split(h4, '.') =~= seq![zero, zero, none]);
        assert(split(h5, '.') =~= seq![zero, zero, zero]);
        assert(split(h6, '.') =~= seq![zero, zero, zero, none]);
    }
    assert(octet_of(zero) == Some(0nat));
    assert(ipv4_of(host) == Some(0nat));
    assert(port_of(port) == Some(8443nat));
}

} // verus!
