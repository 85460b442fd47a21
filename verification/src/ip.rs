//! IP addresses as plain numbers, and their canonical text.
//!
//! An IPv4 address is its 32-bit value and an IPv6 address its 128-bit value,
//! so equality and ordering are those of the numbers: an IPv4 address orders
//! before every IPv6 one, and within a family the order is that of the octets
//! read left to right.

use vstd::prelude::*;

use crate::text::{decimal, hex, push_char, push_numeral};

verus! {

/// An IPv4 or IPv6 address.
#[derive(Debug, Clone, Copy, PartialEq, Eq, Hash, Structural)]
pub enum IpAddr {
    /// An IPv4 address, most significant octet first.
    V4(u32),
    /// An IPv6 address, most significant group first.
    V6(u128),
}

/// The four octets of an IPv4 address, most significant first.
pub open spec fn octets_of(x: u32) -> Seq<u8> {
    seq![(x >> 24u32) as u8, ((x >> 16u32) & 0xff) as u8, ((x >> 8u32) & 0xff) as u8, (x & 0xff) as u8]
}

/// The eight 16-bit groups of an IPv6 address, most significant first.
pub open spec fn segments_of(x: u128) -> Seq<u16> {
    seq![
        (x >> 112u128) as u16,
        ((x >> 96u128) & 0xffff) as u16,
        ((x >> 80u128) & 0xffff) as u16,
        ((x >> 64u128) & 0xffff) as u16,
        ((x >> 48u128) & 0xffff) as u16,
        ((x >> 32u128) & 0xffff) as u16,
        ((x >> 16u128) & 0xffff) as u16,
        (x & 0xffff) as u16,
    ]
}

/// Whether an IPv6 value is an IPv4-mapped address, `::ffff:a.b.c.d`.
pub open spec fn is_v4_mapped(x: u128) -> bool {
    let s = segments_of(x);
    s[0] == 0 && s[1] == 0 && s[2] == 0 && s[3] == 0 && s[4] == 0 && s[5] == 0xffff
}

/// The IPv4 address an IPv4-mapped IPv6 value carries in its low 32 bits.
pub open spec fn mapped_v4(x: u128) -> u32 {
    (x & 0xffff_ffff) as u32
}

/// Dotted-decimal text for four octets.
pub open spec fn v4_text(o: Seq<u8>) -> Seq<char> {
    decimal(o[0] as nat) + seq!['.'] + decimal(o[1] as nat) + seq!['.'] + decimal(o[2] as nat)
        + seq!['.'] + decimal(o[3] as nat)
}

/// Groups written in lowercase hex and joined by colons.
pub open spec fn joined_groups(s: Seq<u16>) -> Seq<char>
    decreases s.len(),
{
    if s.len() == 0 {
        seq![]
    } else if s.len() == 1 {
        hex(s[0] as nat)
    } else {
        joined_groups(s.drop_last()) + seq![':'] + hex(s.last() as nat)
    }
}

/// How many zero groups run from position `i` onwards.
pub open spec fn zero_run(s: Seq<u16>, i: int) -> nat
    decreases s.len() - i,
{
    if i < 0 || i >= s.len() || s[i] != 0 {
        0
    } else {
        1 + zero_run(s, i + 1)
    }
}

/// The first of the longest runs of zero groups at or after `i`, as
/// `(start, length)`; the start is `s.len()` and the length 0 when there is
/// none.
pub open spec fn longest_zero_run(s: Seq<u16>, i: int) -> (int, nat)
    decreases s.len() - i,
{
    if i < 0 || i >= s.len() {
        (s.len() as int, 0)
    } else {
        let later = longest_zero_run(s, i + 1);
        if zero_run(s, i) >= later.1 {
            (i, zero_run(s, i))
        } else {
            later
        }
    }
}

/// The canonical (RFC 5952) text of eight IPv6 groups: lowercase hex without
/// leading zeros, the first longest run of two or more zero groups written
/// `::`, and an IPv4-mapped address written `::ffff:a.b.c.d`.
pub open spec fn v6_text(x: u128) -> Seq<char> {
    let s = segments_of(x);
    if is_v4_mapped(x) {
        seq![':', ':', 'f', 'f', 'f', 'f', ':'] + v4_text(octets_of(mapped_v4(x)))
    } else {
        let run = longest_zero_run(s, 0);
        if run.1 > 1 {
            joined_groups(s.subrange(0, run.0)) + seq![':', ':'] + joined_groups(
                s.subrange(run.0 + run.1, 8),
            )
        } else {
            joined_groups(s)
        }
    }
}

impl IpAddr {
    /// Whether this is an IPv4 address.
    pub open spec fn spec_is_v4(self) -> bool {
        self is V4
    }

    /// The canonical text of the address.
    pub open spec fn text(self) -> Seq<char> {
        match self {
            IpAddr::V4(x) => v4_text(octets_of(x)),
            IpAddr::V6(x) => v6_text(x),
        }
    }

    /// The address as it stands in a URL: IPv6 bracketed, IPv4 bare.
    pub open spec fn url_text(self) -> Seq<char> {
        match self {
            IpAddr::V4(_) => self.text(),
            IpAddr::V6(_) => seq!['['] + self.text() + seq![']'],
        }
    }

    /// The strict order on addresses: every IPv4 address before every IPv6
    /// one, then numerically.
    pub open spec fn lt(self, other: Self) -> bool {
        match (self, other) {
            (IpAddr::V4(a), IpAddr::V4(b)) => a < b,
            (IpAddr::V4(_), IpAddr::V6(_)) => true,
            (IpAddr::V6(_), IpAddr::V4(_)) => false,
            (IpAddr::V6(a), IpAddr::V6(b)) => a < b,
        }
    }

    /// Whether this is the unspecified address of its family.
    pub open spec fn spec_is_unspecified(self) -> bool {
        match self {
            IpAddr::V4(x) => x == 0,
            IpAddr::V6(x) => x == 0,
        }
    }

    /// Whether this is a multicast address (`224.0.0.0/4`, `ff00::/8`).
    pub open spec fn spec_is_multicast(self) -> bool {
        match self {
            IpAddr::V4(x) => 224 <= octets_of(x)[0] <= 239,
            IpAddr::V6(x) => segments_of(x)[0] >= 0xff00,
        }
    }

    /// Build an IPv4 address from its four octets.
    pub fn v4(a: u8, b: u8, c: u8, d: u8) -> (r: IpAddr)
        ensures
            r is V4,
            octets_of(r->V4_0) == seq![a, b, c, d],
    {
        let x: u32 = ((a as u32) << 24u32) | ((b as u32) << 16u32) | ((c as u32) << 8u32) | (
        d as u32);
        assert((x >> 24u32) as u8 == a && ((x >> 16u32) & 0xff) as u8 == b && ((x >> 8u32)
            & 0xff) as u8 == c && (x & 0xff) as u8 == d) by (bit_vector)
            requires
                x == ((a as u32) << 24u32) | ((b as u32) << 16u32) | ((c as u32) << 8u32) | (
                d as u32),
        ;
        IpAddr::V4(x)
    }

    /// Build an IPv6 address from its eight groups.
    pub fn v6(g: [u16; 8]) -> (r: IpAddr)
        ensures
            r is V6,
            segments_of(r->V6_0) == g@,
    {
        let (g0, g1, g2, g3, g4, g5, g6, g7) = (g[0], g[1], g[2], g[3], g[4], g[5], g[6], g[7]);
        let x: u128 = ((g0 as u128) << 112u128) | ((g1 as u128) << 96u128) | ((g2 as u128)
            << 80u128) | ((g3 as u128) << 64u128) | ((g4 as u128) << 48u128) | ((g5 as u128)
            << 32u128) | ((g6 as u128) << 16u128) | (g7 as u128);
        assert((x >> 112u128) as u16 == g0 && ((x >> 96u128) & 0xffff) as u16 == g1 && ((x
            >> 80u128) & 0xffff) as u16 == g2 && ((x >> 64u128) & 0xffff) as u16 == g3 && ((x
            >> 48u128) & 0xffff) as u16 == g4 && ((x >> 32u128) & 0xffff) as u16 == g5 && ((x
            >> 16u128) & 0xffff) as u16 == g6 && (x & 0xffff) as u16 == g7) by (bit_vector)
            requires
                x == ((g0 as u128) << 112u128) | ((g1 as u128) << 96u128) | ((g2 as u128)
                    << 80u128) | ((g3 as u128) << 64u128) | ((g4 as u128) << 48u128) | ((
                g5 as u128) << 32u128) | ((g6 as u128) << 16u128) | (g7 as u128),
        ;
        let r = IpAddr::V6(x);
        assert(segments_of(x) =~= g@);
        r
    }

    /// Whether this is an IPv4 address.
    pub fn is_ipv4(&self) -> (b: bool)
        ensures
            b == self.spec_is_v4(),
    {
        matches!(self, IpAddr::V4(_))
    }

    /// Whether this is an IPv6 address.
    pub fn is_ipv6(&self) -> (b: bool)
        ensures
            b == (*self is V6),
    {
        matches!(self, IpAddr::V6(_))
    }

    /// Whether this is `0.0.0.0` or `::`.
    pub fn is_unspecified(&self) -> (b: bool)
        ensures
            b == self.spec_is_unspecified(),
    {
        match self {
            IpAddr::V4(x) => *x == 0,
            IpAddr::V6(x) => *x == 0,
        }
    }

    /// Whether this is a multicast address.
    pub fn is_multicast(&self) -> (b: bool)
        ensures
            b == self.spec_is_multicast(),
    {
        match self {
            IpAddr::V4(x) => {
                let first = (*x >> 24u32) as u8;
                224 <= first && first <= 239
            },
            IpAddr::V6(x) => (*x >> 112u128) as u16 >= 0xff00,
        }
    }

    /// The unspecified address of the same family: what a wildcard bind uses.
    pub fn wildcard_of(&self) -> (r: IpAddr)
        ensures
            r.spec_is_unspecified(),
            r.spec_is_v4() == self.spec_is_v4(),
    {
        match self {
            IpAddr::V4(_) => IpAddr::V4(0),
            IpAddr::V6(_) => IpAddr::V6(0),
        }
    }

    /// The IPv4 address an IPv4-mapped IPv6 address stands for.
    pub fn to_ipv4_mapped(&self) -> (r: Option<IpAddr>)
        ensures
            r == (match *self {
                IpAddr::V6(x) => if is_v4_mapped(x) {
                    Some(IpAddr::V4(mapped_v4(x)))
                } else {
                    None
                },
                IpAddr::V4(_) => None,
            }),
    {
        match self {
            IpAddr::V6(x) => {
                if v6_is_mapped(*x) {
                    Some(IpAddr::V4((*x & 0xffff_ffff) as u32))
                } else {
                    None
                }
            },
            IpAddr::V4(_) => None,
        }
    }

    /// Whether this address orders strictly before `other`.
    pub fn less_than(&self, other: &IpAddr) -> (b: bool)
        ensures
            b == self.lt(*other),
    {
        match (self, other) {
            (IpAddr::V4(a), IpAddr::V4(b)) => *a < *b,
            (IpAddr::V4(_), IpAddr::V6(_)) => true,
            (IpAddr::V6(_), IpAddr::V4(_)) => false,
            (IpAddr::V6(a), IpAddr::V6(b)) => *a < *b,
        }
    }

    /// The canonical text of the address.
    pub fn to_text(&self) -> (s: String)
        ensures
            s@ == self.text(),
    {
        let mut out = String::new();
        self.push_text(&mut out);
        out
    }

    /// Append the canonical text of the address to `out`.
    pub fn push_text(&self, out: &mut String)
        ensures
            final(out)@ == old(out)@ + self.text(),
    {
        match self {
            IpAddr::V4(x) => push_v4_text(out, *x),
            IpAddr::V6(x) => push_v6_text(out, *x),
        }
    }

    /// The address as it stands in a URL, with IPv6 bracketed.
    pub fn url_host(&self) -> (s: String)
        ensures
            s@ == self.url_text(),
    {
        let mut out = String::new();
        match self {
            IpAddr::V4(_) => {
                self.push_text(&mut out);
            },
            IpAddr::V6(_) => {
                push_char(&mut out, '[');
                self.push_text(&mut out);
                push_char(&mut out, ']');
                assert(out@ =~= seq!['['] + self.text() + seq![']']);
            },
        }
        out
    }
}

/// The eight groups of an IPv6 value.
pub fn segments(x: u128) -> (g: Vec<u16>)
    ensures
        g@ == segments_of(x),
{
    let mut g: Vec<u16> = Vec::new();
    g.push((x >> 112u128) as u16);
    g.push(((x >> 96u128) & 0xffff) as u16);
    g.push(((x >> 80u128) & 0xffff) as u16);
    g.push(((x >> 64u128) & 0xffff) as u16);
    g.push(((x >> 48u128) & 0xffff) as u16);
    g.push(((x >> 32u128) & 0xffff) as u16);
    g.push(((x >> 16u128) & 0xffff) as u16);
    g.push((x & 0xffff) as u16);
    assert(g@ =~= segments_of(x));
    g
}

/// Whether an IPv6 value is IPv4-mapped.
fn v6_is_mapped(x: u128) -> (b: bool)
    ensures
        b == is_v4_mapped(x),
{
    let g = segments(x);
    g[0] == 0 && g[1] == 0 && g[2] == 0 && g[3] == 0 && g[4] == 0 && g[5] == 0xffff
}

/// Append the dotted-decimal text of an IPv4 value.
fn push_v4_text(out: &mut String, x: u32)
    ensures
        final(out)@ == old(out)@ + v4_text(octets_of(x)),
{
    let ghost start = out@;
    let ghost o = octets_of(x);
    push_numeral(out, ((x >> 24u32) as u8) as u64, 10);
    push_char(out, '.');
    push_numeral(out, (((x >> 16u32) & 0xff) as u8) as u64, 10);
    push_char(out, '.');
    push_numeral(out, (((x >> 8u32) & 0xff) as u8) as u64, 10);
    push_char(out, '.');
    push_numeral(out, ((x & 0xff) as u8) as u64, 10);
    assert(out@ =~= start + v4_text(o));
}

/// Append groups `g[from..to]` in hex, joined by colons.
fn push_joined(out: &mut String, g: &Vec<u16>, from: usize, to: usize)
    requires
        from <= to <= g.len(),
    ensures
        final(out)@ == old(out)@ + joined_groups(g@.subrange(from as int, to as int)),
{
    let ghost start = out@;
    let mut i = from;
    while i < to
        invariant
            from <= i <= to <= g.len(),
            out@ == start + joined_groups(g@.subrange(from as int, i as int)),
        decreases to - i,
    {
        let ghost before = g@.subrange(from as int, i as int);
        if i > from {
            push_char(out, ':');
        }
        push_numeral(out, g[i] as u64, 16);
        let ghost after = g@.subrange(from as int, i + 1);
        assert(after.drop_last() =~= before);
        if i == from {
            assert(before.len() == 0);
            assert(after.len() == 1);
            assert(joined_groups(before) =~= seq![]);
        }
        assert(out@ =~= start + joined_groups(after));
        i = i + 1;
    }
}

/// The run of zero groups starting at `i`, computed.
fn zero_run_at(g: &Vec<u16>, i: usize) -> (n: usize)
    requires
        g.len() == 8,
        i <= 8,
    ensures
        n == zero_run(g@, i as int),
        i + n <= 8,
    decreases 8 - i,
{
    if i >= 8 || g[i] != 0 {
        0
    } else {
        1 + zero_run_at(g, i + 1)
    }
}

/// The first longest run of zero groups, computed.
fn longest_run(g: &Vec<u16>) -> (r: (usize, usize))
    requires
        g.len() == 8,
    ensures
        r.0 as int == longest_zero_run(g@, 0).0,
        r.1 as nat == longest_zero_run(g@, 0).1,
        r.0 + r.1 <= 8,
{
    let mut i: usize = 8;
    let mut best: (usize, usize) = (8, 0);
    while i > 0
        invariant
            i <= 8,
            g.len() == 8,
            best.0 as int == longest_zero_run(g@, i as int).0,
            best.1 as nat == longest_zero_run(g@, i as int).1,
            best.0 + best.1 <= 8,
        decreases i,
    {
        i = i - 1;
        let here = zero_run_at(g, i);
        if here >= best.1 {
            best = (i, here);
        }
    }
    best
}

/// Append the canonical text of an IPv6 value.
fn push_v6_text(out: &mut String, x: u128)
    ensures
        final(out)@ == old(out)@ + v6_text(x),
{
    let ghost start = out@;
    if v6_is_mapped(x) {
        push_char(out, ':');
        push_char(out, ':');
        push_char(out, 'f');
        push_char(out, 'f');
        push_char(out, 'f');
        push_char(out, 'f');
        push_char(out, ':');
        let ghost mid = out@;
        push_v4_text(out, (x & 0xffff_ffff) as u32);
        assert(out@ =~= start + v6_text(x));
    } else {
        let g = segments(x);
        let (run_start, run_len) = longest_run(&g);
        if run_len > 1 {
            push_joined(out, &g, 0, run_start);
            push_char(out, ':');
            push_char(out, ':');
            push_joined(out, &g, run_start + run_len, 8);
            assert(out@ =~= start + v6_text(x));
        } else {
            push_joined(out, &g, 0, 8);
            assert(g@.subrange(0, 8) =~= g@);
            assert(out@ =~= start + v6_text(x));
        }
    }
}

} // verus!
