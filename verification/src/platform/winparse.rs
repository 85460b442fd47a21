//! Decoding the scalar values the Windows IP Helper API returns: socket
//! addresses, operational states, wide strings and prefix lengths.
//!
//! A Windows `sockaddr` begins directly with a two-byte `sa_family` (the BSD
//! one begins with a length byte), and `AF_INET6` is 23 here, so nothing may
//! be assumed from the other platforms' decoders.

pub mod af;
pub mod oper;

use vstd::prelude::*;

use crate::ip::IpAddr;
use crate::model::InterfaceState;
use crate::platform::bytes::{be16, be_read, be_value, le16, native_u16, pow256_values};

verus! {

/// `sa_family`, a `u16` at the very front of every `sockaddr`.
const FAMILY_AT: usize = 0;

/// `sin_addr`, after `sin_family` and `sin_port`.
const INET_ADDR_AT: usize = 4;

/// `sin6_addr`, after `sin6_family`, `sin6_port` and `sin6_flowinfo`.
const INET6_ADDR_AT: usize = 8;

/// The address a `sockaddr` of the given family holds in `bytes`: an IPv4
/// address from the four bytes at offset 4, an IPv6 one from the sixteen at
/// offset 8 (after the flow label; the scope id that follows is ignored), or
/// nothing when the bytes are too short or the family is another.
pub open spec fn sockaddr_for(family: u16, bytes: Seq<u8>) -> Option<IpAddr> {
    if family == af::INET && bytes.len() >= 8 {
        Some(IpAddr::V4(be_value(bytes.subrange(4, 8)) as u32))
    } else if family == af::INET6 && bytes.len() >= 24 {
        Some(IpAddr::V6(be_value(bytes.subrange(8, 24)) as u128))
    } else {
        None
    }
}

/// Decode a `sockaddr` whose family has already been read.
pub fn decode_sockaddr(family: u16, bytes: &[u8]) -> (r: Option<IpAddr>)
    ensures
        r == sockaddr_for(family, bytes@),
{
    if family == af::INET && bytes.len() >= INET_ADDR_AT + 4 {
        let v = be_read(bytes, INET_ADDR_AT, INET_ADDR_AT + 4);
        proof {
            pow256_values(bytes@.subrange(4, 8));
        }
        Some(IpAddr::V4(v as u32))
    } else if family == af::INET6 && bytes.len() >= INET6_ADDR_AT + 16 {
        let v = be_read(bytes, INET6_ADDR_AT, INET6_ADDR_AT + 16);
        Some(IpAddr::V6(v))
    } else {
        None
    }
}

/// The IP address inside a `sockaddr`, or `None` if the bytes cannot hold
/// one. The family is read in this machine's byte order, as Windows wrote it;
/// a buffer shorter than the family it claims, or a family this function
/// does not know, yields nothing rather than an address built from whatever
/// followed in memory.
pub fn sockaddr_ip(bytes: &[u8]) -> (r: Option<IpAddr>)
    ensures
        bytes@.len() < 2 ==> r is None,
        bytes@.len() >= 2 ==> (r == sockaddr_for(le16(bytes@[0], bytes@[1]), bytes@) || r
            == sockaddr_for(be16(bytes@[0], bytes@[1]), bytes@)),
{
    if bytes.len() < FAMILY_AT + 2 {
        return None;
    }
    let family = native_u16(bytes[FAMILY_AT], bytes[FAMILY_AT + 1]);
    decode_sockaddr(family, bytes)
}

/// What `OperStatus` means in the model's vocabulary, as on Linux: not
/// present and lower-layer-down are down, testing is dormant, and anything
/// unrecognised is unknown (still selectable) rather than down.
pub open spec fn oper_state(status: i32) -> InterfaceState {
    if status == oper::UP {
        InterfaceState::Up
    } else if status == oper::DOWN || status == oper::NOT_PRESENT || status == oper::LOWER_LAYER_DOWN {
        InterfaceState::Down
    } else if status == oper::DORMANT || status == oper::TESTING {
        InterfaceState::Dormant
    } else {
        InterfaceState::Unknown
    }
}

/// What `OperStatus` means in the model's vocabulary.
pub fn interface_state(status: i32) -> (s: InterfaceState)
    ensures
        s == oper_state(status),
{
    if status == oper::UP {
        InterfaceState::Up
    } else if status == oper::DOWN || status == oper::NOT_PRESENT || status == oper::LOWER_LAYER_DOWN {
        InterfaceState::Down
    } else if status == oper::DORMANT || status == oper::TESTING {
        InterfaceState::Dormant
    } else {
        InterfaceState::Unknown
    }
}

/// Whether a unit is the first half of a surrogate pair.
pub open spec fn high_surrogate(u: u16) -> bool {
    0xD800 <= u && u <= 0xDBFF
}

/// Whether a unit is the second half of a surrogate pair.
pub open spec fn low_surrogate(u: u16) -> bool {
    0xDC00 <= u && u <= 0xDFFF
}

/// UTF-16 units decoded, as `String::from_utf16_lossy` decodes them: a
/// high surrogate followed by a low one is the character they encode
/// together; any other surrogate becomes U+FFFD on its own; every other
/// unit is the character with its value.
pub open spec fn utf16_lossy(units: Seq<u16>) -> Seq<char>
    decreases units.len(),
{
    if units.len() == 0 {
        Seq::empty()
    } else {
        let u = units[0];
        if high_surrogate(u) && units.len() >= 2 && low_surrogate(units[1]) {
            let c = 0x10000 + (u - 0xD800) * 0x400 + (units[1] - 0xDC00);
            seq![c as char] + utf16_lossy(units.subrange(2, units.len() as int))
        } else if high_surrogate(u) || low_surrogate(u) {
            seq!['\u{FFFD}'] + utf16_lossy(units.drop_first())
        } else {
            seq![u as char] + utf16_lossy(units.drop_first())
        }
    }
}

/// UTF-16 units as a string, by std's `String::from_utf16_lossy`. Trusted:
/// std decodes surrogate pairs and replaces each unpaired surrogate with
/// U+FFFD, as [`utf16_lossy`] states.
#[verifier::external_body]
fn from_utf16_lossy(units: &[u16]) -> (s: String)
    ensures
        s@ == utf16_lossy(units@),
{
    String::from_utf16_lossy(units)
}

/// The units before the first NUL, or all of them.
pub open spec fn before_nul(units: Seq<u16>) -> Seq<u16> {
    if exists|i: int| 0 <= i < units.len() && units[i] == 0 {
        units.take(choose|i: int| 0 <= i < units.len() && units[i] == 0 && forall|j: int| 0 <= j < i ==> units[j] != 0)
    } else {
        units
    }
}

/// A UTF-16 string from Windows, rendered lossily and truncated at its NUL:
/// an adapter whose name holds an unpaired surrogate is still an adapter.
pub fn wide_to_string(units: &[u16]) -> (s: String)
    ensures
        s@ == utf16_lossy(before_nul(units@)),
{
    let mut end: usize = 0;
    while end < units.len() && units[end] != 0
        invariant
            end <= units@.len(),
            forall|j: int| 0 <= j < end ==> units@[j] != 0,
        decreases units.len() - end,
    {
        end = end + 1;
    }
    proof {
        if end < units@.len() {
            let i = choose|i: int| 0 <= i < units@.len() && units@[i] == 0 && forall|j: int| 0 <= j < i ==> units@[j] != 0;
            assert(i == end as int) by {
                if i < end {
                    assert(units@[i] != 0);
                } else if i > end {
                    assert(units@[end as int] == 0);
                }
            }
        } else {
            assert forall|i: int| 0 <= i < units@.len() implies units@[i] != 0 by {}
            assert(units@.take(end as int) =~= units@);
        }
    }
    let head = slice_prefix(units, end);
    from_utf16_lossy(head)
}

/// The first `n` units.
fn slice_prefix(units: &[u16], n: usize) -> (head: &[u16])
    requires
        n <= units@.len(),
    ensures
        head@ == units@.take(n as int),
{
    let (head, _) = units.split_at(n);
    head
}

/// The longest prefix an address of `ip`'s family can have.
pub open spec fn host_prefix(ip: IpAddr) -> u8 {
    match ip {
        IpAddr::V4(_) => 32,
        IpAddr::V6(_) => 128,
    }
}

/// A prefix length clamped to what its family can have: tunnel adapters
/// have been observed reporting 255, and a `/32` claims nothing where a
/// `/255` claims the impossible.
pub fn prefix_len(raw: u8, ip: &IpAddr) -> (p: u8)
    ensures
        p == (if raw < host_prefix(*ip) {
            raw
        } else {
            host_prefix(*ip)
        }),
{
    let max: u8 = if ip.is_ipv4() {
        32
    } else {
        128
    };
    if raw < max {
        raw
    } else {
        max
    }
}

} // verus!
