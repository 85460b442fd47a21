//! Listening sockets from Linux's `/proc/net/tcp` and `/proc/net/tcp6`.
//!
//! The tables are fixed-width text the kernel writes in host byte order: an
//! address like `0100007F` is 127.0.0.1 on a little-endian machine, while the
//! port beside it, `AA4B`, is printed as a number and needs no reordering.
//! Reading the files is the caller's business; this turns their text into
//! rows.

use vstd::prelude::*;

use crate::config::views;
use crate::ip::IpAddr;
use crate::platform::bytes::{machine_order, ByteOrder};
use crate::platform::portmatch::Bound;
use crate::text::{is_whitespace, lines_of, lines_state, push_char, push_range, str_eq, whitespace, without_cr};

verus! {

/// One listening socket.
#[derive(Debug, Clone, Copy, PartialEq, Eq)]
pub struct Listener {
    /// The address it is bound to, unspecified for a wildcard bind.
    pub address: IpAddr,
    /// The port it is listening on.
    pub port: u16,
    /// The user that owns it.
    pub uid: u32,
    /// The socket's inode, which is how a process holding it is found.
    pub inode: u64,
}

impl Bound for Listener {
    open spec fn bound_address(&self) -> IpAddr {
        self.address
    }

    open spec fn bound_port(&self) -> u16 {
        self.port
    }

    fn address(&self) -> (a: IpAddr) {
        self.address
    }

    fn port(&self) -> (p: u16) {
        self.port
    }
}

// ---------------------------------------------------------------------------
// Lines and fields
// ---------------------------------------------------------------------------

/// The fields of `s` so far, split at whitespace, and the field still
/// being read.
pub open spec fn words_state(s: Seq<char>) -> (Seq<Seq<char>>, Seq<char>)
    decreases s.len(),
{
    if s.len() == 0 {
        (Seq::empty(), Seq::empty())
    } else {
        let (done, cur) = words_state(s.drop_last());
        if is_whitespace(s.last()) {
            if cur.len() > 0 {
                (done.push(cur), Seq::empty())
            } else {
                (done, Seq::empty())
            }
        } else {
            (done, cur.push(s.last()))
        }
    }
}

/// The fields of `s`, as `str::split_whitespace` gives them.
pub open spec fn words_of(s: Seq<char>) -> Seq<Seq<char>> {
    let (done, cur) = words_state(s);
    if cur.len() > 0 {
        done.push(cur)
    } else {
        done
    }
}

/// Split a line into its whitespace-separated fields.
fn words(line: &str) -> (w: Vec<String>)
    ensures
        views(w@) == words_of(line@),
{
    let n = line.unicode_len();
    let mut done: Vec<String> = Vec::new();
    let mut cur = String::new();
    let mut i: usize = 0;
    assert(views(done@) =~= Seq::<Seq<char>>::empty());
    while i < n
        invariant
            n == line@.len(),
            i <= n,
            (views(done@), cur@) == words_state(line@.subrange(0, i as int)),
        decreases n - i,
    {
        let c = line.get_char(i);
        assert(line@.subrange(0, i + 1).drop_last() =~= line@.subrange(0, i as int));
        if whitespace(c) {
            if cur.unicode_len() > 0 {
                let word = cur;
                let ghost before = done@;
                done.push(word);
                assert(views(done@) =~= views(before).push(word@));
            }
            cur = String::new();
        } else {
            push_char(&mut cur, c);
        }
        i = i + 1;
    }
    assert(line@.subrange(0, n as int) =~= line@);
    if cur.unicode_len() > 0 {
        let word = cur;
        let ghost before = done@;
        done.push(word);
        assert(views(done@) =~= views(before).push(word@));
    }
    done
}

// ---------------------------------------------------------------------------
// Numbers
// ---------------------------------------------------------------------------

/// The value of a digit in `radix` (ten or sixteen), in either case.
pub open spec fn digit_value(c: char, radix: nat) -> Option<nat> {
    if '0' <= c && c <= '9' {
        Some(((c as int) - ('0' as int)) as nat)
    } else if radix == 16 && 'a' <= c && c <= 'f' {
        Some(((c as int) - ('a' as int) + 10) as nat)
    } else if radix == 16 && 'A' <= c && c <= 'F' {
        Some(((c as int) - ('A' as int) + 10) as nat)
    } else {
        None
    }
}

/// The value of a run of digits, most significant first; `None` when one
/// of them is not a digit.
pub open spec fn digits_value(s: Seq<char>, radix: nat) -> Option<nat>
    decreases s.len(),
{
    if s.len() == 0 {
        Some(0)
    } else {
        match digits_value(s.drop_last(), radix) {
            Some(v) => match digit_value(s.last(), radix) {
                Some(d) => Some(v * radix + d),
                None => None,
            },
            None => None,
        }
    }
}

/// An unsigned number as Rust's `from_str_radix` reads it: an optional
/// `+`, then at least one digit, and no more than `max`.
pub open spec fn unsigned_value(s: Seq<char>, radix: nat, max: nat) -> Option<nat> {
    let body = if s.len() > 0 && s[0] == '+' {
        s.drop_first()
    } else {
        s
    };
    if body.len() == 0 {
        None
    } else {
        match digits_value(body, radix) {
            Some(v) => if v <= max {
                Some(v)
            } else {
                None
            },
            None => None,
        }
    }
}

/// The value of one digit, as [`digit_value`] says.
fn digit_of(c: char, radix: u64) -> (d: Option<u64>)
    requires
        radix == 10 || radix == 16,
    ensures
        match digit_value(c, radix as nat) {
            Some(v) => d == Some(v as u64),
            None => d is None,
        },
        d matches Some(v) ==> v < radix,
{
    if '0' <= c && c <= '9' {
        Some((c as u64) - ('0' as u64))
    } else if radix == 16 && 'a' <= c && c <= 'f' {
        Some((c as u64) - ('a' as u64) + 10)
    } else if radix == 16 && 'A' <= c && c <= 'F' {
        Some((c as u64) - ('A' as u64) + 10)
    } else {
        None
    }
}

/// Read an unsigned number, as [`unsigned_value`] says.
fn parse_unsigned(s: &str, radix: u64, max: u64) -> (r: Option<u64>)
    requires
        radix == 10 || radix == 16,
    ensures
        match unsigned_value(s@, radix as nat, max as nat) {
            Some(v) => r == Some(v as u64),
            None => r is None,
        },
{
    let n = s.unicode_len();
    let start: usize = if n > 0 && s.get_char(0) == '+' {
        1
    } else {
        0
    };
    let ghost body = if s@.len() > 0 && s@[0] == '+' {
        s@.drop_first()
    } else {
        s@
    };
    assert(body =~= s@.subrange(start as int, n as int));
    if start == n {
        return None;
    }
    let limit: u128 = max as u128 + 1;
    let mut acc: u128 = 0;
    let mut i: usize = start;
    assert(s@.subrange(start as int, start as int) =~= Seq::<char>::empty());
    while i < n
        invariant
            n == s@.len(),
            start <= i <= n,
            radix == 10 || radix == 16,
            limit == max + 1,
            acc <= limit,
            body == s@.subrange(start as int, n as int),
            unsigned_value(s@, radix as nat, max as nat) == (match digits_value(body, radix as nat) {
                Some(v) => if v <= max {
                    Some(v)
                } else {
                    None
                },
                None => None,
            }),
            digits_value(s@.subrange(start as int, i as int), radix as nat) matches Some(v) && acc
                == (if v < limit {
                v
            } else {
                limit as nat
            }),
        decreases n - i,
    {
        let ghost prefix = s@.subrange(start as int, i + 1);
        assert(prefix.drop_last() =~= s@.subrange(start as int, i as int));
        match digit_of(s.get_char(i), radix) {
            None => {
                proof {
                    assert(digits_value(prefix, radix as nat) is None);
                    assert(s@.subrange(start as int, n as int).subrange(0, i - start + 1) =~= prefix);
                    lemma_invalid_stays(s@.subrange(start as int, n as int), radix as nat, i - start + 1);
                }
                return None;
            },
            Some(d) => {
                let ghost v = digits_value(s@.subrange(start as int, i as int), radix as nat)->0;
                proof {
                    assert(v * radix + d >= v) by (nonlinear_arith)
                        requires
                            radix >= 1,
                            d >= 0,
                            v >= 0,
                    ;
                    if v >= limit {
                        assert(limit * radix + d >= limit) by (nonlinear_arith)
                            requires
                                radix >= 1,
                                d >= 0,
                                limit >= 0,
                        ;
                    }
                }
                assert(acc * (radix as u128) <= 0x1_0000_0000_0000_0000 * 16) by (nonlinear_arith)
                    requires
                        acc <= 0x1_0000_0000_0000_0000,
                        radix <= 16,
                ;
                let next = acc * (radix as u128) + (d as u128);
                acc = if next < limit {
                    next
                } else {
                    limit
                };
            },
        }
        i = i + 1;
    }
    if acc < limit {
        Some(acc as u64)
    } else {
        None
    }
}

/// Once a run of characters holds a non-digit, every longer run does.
proof fn lemma_invalid_stays(s: Seq<char>, radix: nat, k: int)
    requires
        0 <= k <= s.len(),
        digits_value(s.subrange(0, k), radix) is None,
    ensures
        digits_value(s, radix) is None,
    decreases s.len() - k,
{
    if k < s.len() {
        assert(s.subrange(0, k + 1).drop_last() =~= s.subrange(0, k));
        lemma_invalid_stays(s, radix, k + 1);
    } else {
        assert(s.subrange(0, k) =~= s);
    }
}

// ---------------------------------------------------------------------------
// Addresses
// ---------------------------------------------------------------------------

/// A 32-bit value with its four bytes in reverse order.
pub open spec fn swapped32(v: nat) -> nat {
    (v % 256) * 16777216 + ((v / 256) % 256) * 65536 + ((v / 65536) % 256) * 256 + (v / 16777216)
        % 256
}

/// A word the kernel printed in host order, read as the big-endian value
/// an address is made of.
pub open spec fn address_word(v: nat, order: ByteOrder) -> nat {
    match order {
        ByteOrder::Big => v,
        ByteOrder::Little => swapped32(v),
    }
}

/// The address in an eight- or thirty-two-digit hexadecimal token: one
/// host-order word for IPv4, four for IPv6, each reordered on its own.
pub open spec fn address_of(s: Seq<char>, order: ByteOrder) -> Option<IpAddr> {
    if s.len() == 8 {
        match digits_value(s, 16) {
            Some(v) => Some(IpAddr::V4(address_word(v, order) as u32)),
            None => None,
        }
    } else if s.len() == 32 {
        match (
            digits_value(s.subrange(0, 8), 16),
            digits_value(s.subrange(8, 16), 16),
            digits_value(s.subrange(16, 24), 16),
            digits_value(s.subrange(24, 32), 16),
        ) {
            (Some(a), Some(b), Some(c), Some(d)) => Some(
                IpAddr::V6(
                    (address_word(a, order) * 0x1_0000_0000_0000_0000_0000_0000 + address_word(
                        b,
                        order,
                    ) * 0x1_0000_0000_0000_0000 + address_word(c, order) * 0x1_0000_0000
                        + address_word(d, order)) as u128,
                ),
            ),
            _ => None,
        }
    } else {
        None
    }
}

/// Eight hexadecimal digits are less than 2^32.
proof fn lemma_eight_digits(s: Seq<char>, j: int)
    requires
        0 <= j <= 8,
        j <= s.len(),
        digits_value(s.subrange(0, j), 16) is Some,
    ensures
        digits_value(s.subrange(0, j), 16)->0 < power16(j as nat),
    decreases j,
{
    if j > 0 {
        let pre = s.subrange(0, j);
        assert(pre.drop_last() =~= s.subrange(0, j - 1));
        lemma_eight_digits(s, j - 1);
        let v = digits_value(s.subrange(0, j - 1), 16)->0;
        let d = digit_value(pre.last(), 16)->0;
        let p = power16((j - 1) as nat);
        assert(v * 16 + d < p * 16) by (nonlinear_arith)
            requires
                v < p,
                d < 16,
        ;
    }
}

/// Sixteen to the `n`.
pub open spec fn power16(n: nat) -> nat
    decreases n,
{
    if n == 0 {
        1
    } else {
        16 * power16((n - 1) as nat)
    }
}

/// The value of the eight hexadecimal digits of `s` from `lo`, where they
/// are all digits.
fn hex_word(s: &str, lo: usize) -> (r: Option<u64>)
    requires
        lo + 8 <= s@.len(),
    ensures
        match digits_value(s@.subrange(lo as int, lo + 8), 16) {
            Some(v) => r == Some(v as u64) && v < 0x1_0000_0000,
            None => r is None,
        },
{
    let ghost t = s@.subrange(lo as int, lo + 8);
    let _n = s.unicode_len();
    let mut v: u64 = 0;
    let mut j: usize = 0;
    assert(t.subrange(0, 0) =~= Seq::<char>::empty());
    while j < 8
        invariant
            lo + 8 <= s@.len(),
            _n == s@.len(),
            t == s@.subrange(lo as int, lo + 8),
            j <= 8,
            digits_value(t.subrange(0, j as int), 16) == Some(v as nat),
            v < power16(j as nat),
        decreases 8 - j,
    {
        assert(t.subrange(0, j + 1).drop_last() =~= t.subrange(0, j as int));
        assert(t[j as int] == s@[lo + j]);
        match digit_of(s.get_char(lo + j), 16) {
            None => {
                proof {
                    lemma_invalid_stays(t, 16, j + 1);
                }
                return None;
            },
            Some(d) => {
                proof {
                    lemma_eight_digits(t, j + 1);
                    reveal_with_fuel(power16, 9);
                    assert(power16(8) == 0x1_0000_0000);
                    if j + 1 < 8 {
                        assert(power16((j + 1) as nat) <= power16(8)) by {
                            lemma_power16_grows((j + 1) as nat, 8);
                        }
                    }
                }
                v = v * 16 + d;
            },
        }
        j = j + 1;
    }
    assert(t.subrange(0, 8) =~= t);
    proof {
        reveal_with_fuel(power16, 9);
    }
    Some(v)
}

/// Powers of sixteen grow.
proof fn lemma_power16_grows(a: nat, b: nat)
    requires
        a <= b,
    ensures
        power16(a) <= power16(b),
    decreases b - a,
{
    if a < b {
        lemma_power16_grows(a, (b - 1) as nat);
    }
}

/// A word in the byte order of the address it is part of.
fn ordered_word(v: u64, order: ByteOrder) -> (w: u64)
    requires
        v < 0x1_0000_0000,
    ensures
        w == address_word(v as nat, order),
        w < 0x1_0000_0000,
{
    match order {
        ByteOrder::Big => v,
        ByteOrder::Little => (v % 256) * 16777216 + ((v / 256) % 256) * 65536 + ((v / 65536) % 256)
            * 256 + (v / 16777216) % 256,
    }
}

/// The address in a hexadecimal token, as [`address_of`] says.
pub fn hex_address(s: &str, order: ByteOrder) -> (a: Option<IpAddr>)
    ensures
        a == address_of(s@, order),
{
    let n = s.unicode_len();
    if n == 8 {
        assert(s@.subrange(0, 8) =~= s@);
        match hex_word(s, 0) {
            Some(v) => Some(IpAddr::V4(ordered_word(v, order) as u32)),
            None => None,
        }
    } else if n == 32 {
        let a = hex_word(s, 0);
        let b = hex_word(s, 8);
        let c = hex_word(s, 16);
        let d = hex_word(s, 24);
        match (a, b, c, d) {
            (Some(a), Some(b), Some(c), Some(d)) => {
                let wa = ordered_word(a, order) as u128;
                let wb = ordered_word(b, order) as u128;
                let wc = ordered_word(c, order) as u128;
                let wd = ordered_word(d, order) as u128;
                let x = wa * 0x1_0000_0000_0000_0000_0000_0000 + wb * 0x1_0000_0000_0000_0000 + wc
                    * 0x1_0000_0000 + wd;
                Some(IpAddr::V6(x))
            },
            _ => None,
        }
    } else {
        None
    }
}

// ---------------------------------------------------------------------------
// Rows
// ---------------------------------------------------------------------------

/// The kernel's code for a listening socket.
pub const LISTEN: &'static str = "0A";

/// The position of the first colon in `s`.
pub open spec fn first_colon(s: Seq<char>) -> Option<int>
    decreases s.len(),
{
    if s.len() == 0 {
        None
    } else if s[0] == ':' {
        Some(0)
    } else {
        match first_colon(s.drop_first()) {
            Some(k) => Some(k + 1),
            None => None,
        }
    }
}

/// One row of the table: a listener when its state is `0A` and its
/// address, port, uid and inode all read, and nothing otherwise. The fields
/// are slot, local address, remote address, state, queues, timer,
/// retransmits, uid, timeout and inode, in that order.
pub open spec fn row_of(line: Seq<char>, order: ByteOrder) -> Option<Listener> {
    let f = words_of(line);
    if f.len() < 10 || f[3] != "0A"@ {
        None
    } else {
        match first_colon(f[1]) {
            None => None,
            Some(k) => match (
                address_of(f[1].subrange(0, k), order),
                unsigned_value(f[1].subrange(k + 1, f[1].len() as int), 16, 0xFFFF),
                unsigned_value(f[7], 10, 0xFFFF_FFFF),
                unsigned_value(f[9], 10, 0xFFFF_FFFF_FFFF_FFFF),
            ) {
                (Some(address), Some(port), Some(uid), Some(inode)) => Some(
                    Listener { address, port: port as u16, uid: uid as u32, inode: inode as u64 },
                ),
                _ => None,
            },
        }
    }
}

/// The listeners of some lines, in order.
pub open spec fn rows_of(lines: Seq<Seq<char>>, order: ByteOrder) -> Seq<Listener>
    decreases lines.len(),
{
    if lines.len() == 0 {
        Seq::empty()
    } else {
        let before = rows_of(lines.drop_last(), order);
        match row_of(lines.last(), order) {
            Some(l) => before.push(l),
            None => before,
        }
    }
}

/// Where the first colon of `s` is, as [`first_colon`] says.
fn find_colon(s: &str) -> (k: Option<usize>)
    ensures
        match first_colon(s@) {
            Some(p) => k matches Some(i) && i == p,
            None => k is None,
        },
        k matches Some(i) ==> i < s@.len(),
{
    let n = s.unicode_len();
    let mut i: usize = 0;
    assert(s@.subrange(0, n as int) =~= s@);
    while i < n
        invariant
            n == s@.len(),
            i <= n,
            first_colon(s@) == (match first_colon(s@.subrange(i as int, n as int)) {
                Some(k) => Some(k + i),
                None => None,
            }),
        decreases n - i,
    {
        let ghost rest = s@.subrange(i as int, n as int);
        if s.get_char(i) == ':' {
            return Some(i);
        }
        assert(rest.drop_first() =~= s@.subrange(i + 1, n as int));
        i = i + 1;
    }
    None
}

/// One row, as [`row_of`] says.
fn row(line: &str, order: ByteOrder) -> (r: Option<Listener>)
    ensures
        r == row_of(line@, order),
{
    let f = words(line);
    let ghost fv = views(f@);
    if f.len() < 10 {
        return None;
    }
    assert(fv[3] == f@[3]@ && fv[1] == f@[1]@ && fv[7] == f@[7]@ && fv[9] == f@[9]@);
    if !str_eq(f[3].as_str(), "0A") {
        return None;
    }
    let local = f[1].as_str();
    let m = local.unicode_len();
    let k = match find_colon(local) {
        Some(k) => k,
        None => return None,
    };
    let mut host = String::new();
    push_range(&mut host, local, 0, k);
    let mut port_text = String::new();
    push_range(&mut port_text, local, k + 1, m);
    assert(host@ =~= fv[1].subrange(0, k as int));
    assert(port_text@ =~= fv[1].subrange(k + 1, fv[1].len() as int));
    let address = hex_address(host.as_str(), order);
    let port = parse_unsigned(port_text.as_str(), 16, 0xFFFF);
    let uid = parse_unsigned(f[7].as_str(), 10, 0xFFFF_FFFF);
    let inode = parse_unsigned(f[9].as_str(), 10, 0xFFFF_FFFF_FFFF_FFFF);
    assert(fv.len() >= 10 && fv[3] == "0A"@);
    assert(address == address_of(fv[1].subrange(0, k as int), order));
    assert(uid matches Some(u) ==> u <= 0xFFFF_FFFF);
    assert(port matches Some(u) ==> u <= 0xFFFF);
    match (address, port, uid, inode) {
        (Some(address), Some(port), Some(uid), Some(inode)) => Some(
            Listener { address, port: port as u16, uid: uid as u32, inode },
        ),
        _ => None,
    }
}

/// Every listening socket in a `/proc/net/tcp` or `/proc/net/tcp6` table
/// whose words are in `order`, in table order. The header and any row that
/// is not a listener, or does not read, is skipped.
pub fn listeners_in(text: &str, order: ByteOrder) -> (v: Vec<Listener>)
    ensures
        v@ == rows_of(lines_of(text@), order),
{
    let n = text.unicode_len();
    let mut out: Vec<Listener> = Vec::new();
    let mut cur = String::new();
    let ghost mut done: Seq<Seq<char>> = Seq::empty();
    let mut i: usize = 0;
    while i < n
        invariant
            n == text@.len(),
            i <= n,
            (done, cur@) == lines_state(text@.subrange(0, i as int)),
            out@ == rows_of(done, order),
        decreases n - i,
    {
        let c = text.get_char(i);
        assert(text@.subrange(0, i + 1).drop_last() =~= text@.subrange(0, i as int));
        if c == '\n' {
            let k = cur.unicode_len();
            let mut body = String::new();
            if k > 0 && cur.get_char(k - 1) == '\r' {
                push_range(&mut body, cur.as_str(), 0, k - 1);
                assert(body@ =~= cur@.drop_last());
            } else {
                push_range(&mut body, cur.as_str(), 0, k);
                assert(body@ =~= cur@);
            }
            proof {
                let prev = done;
                done = prev.push(without_cr(cur@));
                assert(done.drop_last() =~= prev);
            }
            match row(body.as_str(), order) {
                Some(l) => out.push(l),
                None => {},
            }
            cur = String::new();
        } else {
            push_char(&mut cur, c);
        }
        i = i + 1;
    }
    assert(text@.subrange(0, n as int) =~= text@);
    if cur.unicode_len() > 0 {
        let ghost last = done.push(cur@);
        assert(last.drop_last() =~= done);
        match row(cur.as_str(), order) {
            Some(l) => out.push(l),
            None => {},
        }
    }
    out
}

/// Every listening socket in a table written by this machine's kernel.
pub fn listeners(text: &str) -> (v: Vec<Listener>)
    ensures
        exists|order: ByteOrder| v@ == rows_of(lines_of(text@), order),
{
    let order = machine_order();
    listeners_in(text, order)
}

} // verus!
