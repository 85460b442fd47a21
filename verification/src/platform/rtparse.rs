//! Reading BSD routing-socket messages, byte by byte.
//!
//! Sockaddr alignment and netmask truncation are the classic ways a
//! routing-socket parser goes subtly wrong, producing plausible addresses
//! rather than an error. A BSD `sockaddr` begins with a `sa_len` byte, and
//! `AF_INET6` is 30 on Darwin, so nothing here is shared with Linux.
//!
//! The header's multi-byte fields are in the machine's own byte order. The
//! functions ending in `_in` take that order as an argument; the others read
//! it from the machine.

pub mod af;
pub mod header;
pub mod rta;
pub mod rtf;
pub mod sockaddr;

use vstd::prelude::*;

use crate::ip::IpAddr;
use crate::model::{family_of, Family, IpNetwork, Route};
use crate::platform::bytes::{
    be_read, be_value, machine_order, pow256_values, read_u16, read_u32, word16, word32, ByteOrder,
};
use crate::platform::servicerank::UNRANKED;
use std::collections::HashMap;

verus! {

/// `RTM_VERSION`: the routing-message ABI this parser understands.
pub const RTM_VERSION: u8 = 5;

/// A sockaddr's length rounded up to the next four-byte boundary (Darwin
/// rounds to `sizeof(uint32_t)`, not to `sizeof(long)` as FreeBSD does). A
/// zero length still advances by four: the kernel writes a zero-length
/// netmask for a default route, and a walk that did not move would stick.
pub open spec fn round_up(len: int) -> int {
    if len == 0 {
        4
    } else {
        (len + 3) / 4 * 4
    }
}

/// Round a sockaddr's length up to the next message boundary.
pub fn roundup(len: usize) -> (r: usize)
    requires
        len <= usize::MAX - 3,
    ensures
        r == round_up(len as int),
{
    if len == 0 {
        4
    } else {
        (len + 3) / 4 * 4
    }
}

/// Where each sockaddr AutoNet reads lies in a message's address block, as
/// `(start, end)` positions.
#[derive(Debug, Clone, Copy)]
pub struct Slots {
    /// The destination network.
    pub destination: Option<(usize, usize)>,
    /// The next hop.
    pub gateway: Option<(usize, usize)>,
    /// The netmask.
    pub netmask: Option<(usize, usize)>,
    /// The interface, as a `sockaddr_dl`.
    pub interface: Option<(usize, usize)>,
    /// The interface address: the route's source.
    pub source: Option<(usize, usize)>,
}

/// No sockaddr found yet.
pub open spec fn no_slots() -> Slots {
    Slots { destination: None, gateway: None, netmask: None, interface: None, source: None }
}

/// The bit of `rtm_addrs` for slot `bit`.
pub open spec fn slot_mask(bit: int) -> i32 {
    if bit == 0 {
        1
    } else if bit == 1 {
        2
    } else if bit == 2 {
        4
    } else if bit == 3 {
        8
    } else if bit == 4 {
        0x10
    } else if bit == 5 {
        0x20
    } else if bit == 6 {
        0x40
    } else {
        0x80
    }
}

/// `found` with the sockaddr of slot `bit` recorded, when AutoNet reads that
/// slot (destination, gateway, netmask, interface, source); the others are
/// walked past and forgotten.
pub open spec fn with_slot(found: Slots, bit: int, sa: (usize, usize)) -> Slots {
    if bit == 0 {
        Slots { destination: Some(sa), ..found }
    } else if bit == 1 {
        Slots { gateway: Some(sa), ..found }
    } else if bit == 2 {
        Slots { netmask: Some(sa), ..found }
    } else if bit == 4 {
        Slots { interface: Some(sa), ..found }
    } else if bit == 5 {
        Slots { source: Some(sa), ..found }
    } else {
        found
    }
}

/// Walk the address block from slot `bit` at position `pos`: each slot whose
/// bit is set holds a sockaddr that begins with its length, followed by
/// padding up to its rounded length (or the end of the block). Nothing when
/// the block ends where a sockaddr should begin, or in the middle of one.
pub open spec fn walk(block: Seq<u8>, addrs: i32, bit: int, pos: int, found: Slots) -> Option<Slots>
    decreases 8 - bit,
{
    if bit < 0 || bit >= 8 {
        Some(found)
    } else if addrs & slot_mask(bit) == 0 {
        walk(block, addrs, bit + 1, pos, found)
    } else if pos < 0 || pos >= block.len() {
        None
    } else {
        let len = block[pos] as int;
        let rest = block.len() - pos;
        if len > rest {
            None
        } else {
            let step = if round_up(len) < rest {
                round_up(len)
            } else {
                rest
            };
            walk(block, addrs, bit + 1, pos + step, with_slot(found, bit, (pos as usize, (pos + len) as usize)))
        }
    }
}

/// Split a message's address block into its sockaddrs, or `None` if the
/// buffer ends in the middle of one rather than guessing at the remainder.
pub fn slots(block: &[u8], addrs: i32) -> (r: Option<Slots>)
    ensures
        r == walk(block@, addrs, 0, 0, no_slots()),
{
    let mut found = Slots {
        destination: None,
        gateway: None,
        netmask: None,
        interface: None,
        source: None,
    };
    let mut pos: usize = 0;
    let mut bit: usize = 0;
    let mut slot: i32 = 1;
    while bit < 8
        invariant
            bit <= 8,
            pos <= block@.len(),
            bit < 8 ==> slot == slot_mask(bit as int),
            walk(block@, addrs, 0, 0, no_slots()) == walk(block@, addrs, bit as int, pos as int, found),
        decreases 8 - bit,
    {
        if addrs & slot != 0 {
            if pos >= block.len() {
                return None;
            }
            let len = block[pos] as usize;
            let rest = block.len() - pos;
            if len > rest {
                return None;
            }
            let round = roundup(len);
            let step = if round < rest {
                round
            } else {
                rest
            };
            let sa = (pos, pos + len);
            if bit == 0 {
                found.destination = Some(sa);
            } else if bit == 1 {
                found.gateway = Some(sa);
            } else if bit == 2 {
                found.netmask = Some(sa);
            } else if bit == 4 {
                found.interface = Some(sa);
            } else if bit == 5 {
                found.source = Some(sa);
            }
            pos = pos + step;
        }
        bit = bit + 1;
        if bit < 8 {
            slot = slot * 2;
        }
    }
    Some(found)
}

/// The bytes of `block` between `from` and `to`.
fn slice_of(block: &[u8], from: usize, to: usize) -> (s: &[u8])
    requires
        from <= to <= block@.len(),
    ensures
        s@ == block@.subrange(from as int, to as int),
{
    let (head, _) = block.split_at(to);
    let (_, piece) = head.split_at(from);
    assert(piece@ =~= block@.subrange(from as int, to as int));
    piece
}

/// The bytes a slot names.
pub open spec fn slot_bytes(block: Seq<u8>, r: Option<(usize, usize)>) -> Option<Seq<u8>> {
    match r {
        Some(p) => Some(block.subrange(p.0 as int, p.1 as int)),
        None => None,
    }
}

/// The family a sockaddr declares, if it is long enough to declare one.
pub open spec fn declared_family(sa: Seq<u8>) -> Option<i32> {
    if sa.len() >= 2 {
        Some(sa[1] as i32)
    } else {
        None
    }
}

/// The address family a sockaddr declares.
pub fn family_of_sockaddr(sa: &[u8]) -> (f: Option<i32>)
    ensures
        f == declared_family(sa@),
{
    if sa.len() >= sockaddr::FAMILY + 1 {
        Some(sa[sockaddr::FAMILY] as i32)
    } else {
        None
    }
}

/// A link-local IPv6 address with the KAME scope embedding undone: BSD
/// kernels store the interface index in octets 2 and 3 of an `fe80::/10`
/// address, which RFC 4291 requires to be zero. Other addresses unchanged.
pub open spec fn without_scope_id(x: u128) -> u128 {
    if (x >> 120u128) == 0xfe && ((x >> 112u128) & 0xc0) == 0x80 {
        x & !(0xffffu128 << 96u128)
    } else {
        x
    }
}

/// Undo the KAME scope-id embedding in a link-local IPv6 address (given as
/// its 128-bit value).
pub fn strip_embedded_scope_id(x: u128) -> (r: u128)
    ensures
        r == without_scope_id(x),
{
    if (x >> 120u128) == 0xfe && ((x >> 112u128) & 0xc0) == 0x80 {
        x & !(0xffffu128 << 96u128)
    } else {
        x
    }
}

/// The IP address in a sockaddr: IPv4 from the four bytes at offset 4, IPv6
/// (scope id stripped) from the sixteen at offset 8; nothing for a short
/// sockaddr or another family, notably the `sockaddr_dl` an on-link route
/// carries as its gateway.
pub open spec fn ip_in(sa: Seq<u8>) -> Option<IpAddr> {
    if sa.len() < 2 {
        None
    } else if sa[1] == 2 {
        if sa.len() >= 8 {
            Some(IpAddr::V4(be_value(sa.subrange(4, 8)) as u32))
        } else {
            None
        }
    } else if sa[1] == 30 {
        if sa.len() >= 24 {
            Some(IpAddr::V6(without_scope_id(be_value(sa.subrange(8, 24)) as u128)))
        } else {
            None
        }
    } else {
        None
    }
}

/// Read an IP address out of a sockaddr.
pub fn ip_of(sa: &[u8]) -> (r: Option<IpAddr>)
    ensures
        r == ip_in(sa@),
{
    let family = match family_of_sockaddr(sa) {
        Some(f) => f,
        None => return None,
    };
    if family == af::INET {
        if sa.len() < sockaddr::V4_ADDR + 4 {
            return None;
        }
        proof {
            pow256_values(sa@.subrange(4, 8));
        }
        let v = be_read(sa, sockaddr::V4_ADDR, sockaddr::V4_ADDR + 4);
        Some(IpAddr::V4(v as u32))
    } else if family == af::INET6 {
        if sa.len() < sockaddr::V6_ADDR + 16 {
            return None;
        }
        let v = be_read(sa, sockaddr::V6_ADDR, sockaddr::V6_ADDR + 16);
        Some(IpAddr::V6(strip_embedded_scope_id(v)))
    } else {
        None
    }
}

/// The interface index a `sockaddr_dl` carries, in the given byte order.
pub open spec fn sdl_index_in(sa: Seq<u8>, order: ByteOrder) -> Option<u32> {
    if sa.len() >= 2 && sa[1] == 18 && sa.len() >= 4 {
        Some(word16(order, sa[2], sa[3]) as u32)
    } else {
        None
    }
}

/// The interface index carried by a `sockaddr_dl`.
pub fn sdl_index(sa: &[u8], order: ByteOrder) -> (r: Option<u32>)
    ensures
        r == sdl_index_in(sa@, order),
{
    match family_of_sockaddr(sa) {
        Some(f) => {
            if f != af::LINK {
                return None;
            }
        },
        None => return None,
    }
    if sa.len() < sockaddr::DL_INDEX + 2 {
        return None;
    }
    Some(read_u16(sa, sockaddr::DL_INDEX, order) as u32)
}

/// How many leading one-bits a byte has.
pub open spec fn lead_ones(b: u8) -> int {
    if b == 0xff {
        8
    } else if b >= 0xfe {
        7
    } else if b >= 0xfc {
        6
    } else if b >= 0xf8 {
        5
    } else if b >= 0xf0 {
        4
    } else if b >= 0xe0 {
        3
    } else if b >= 0xc0 {
        2
    } else if b >= 0x80 {
        1
    } else {
        0
    }
}

/// How many leading one-bits a byte has.
fn leading_ones(b: u8) -> (n: u8)
    ensures
        n == lead_ones(b),
{
    if b == 0xff {
        8
    } else if b >= 0xfe {
        7
    } else if b >= 0xfc {
        6
    } else if b >= 0xf8 {
        5
    } else if b >= 0xf0 {
        4
    } else if b >= 0xe0 {
        3
    } else if b >= 0xc0 {
        2
    } else if b >= 0x80 {
        1
    } else {
        0
    }
}

/// The mask byte at `i`; bytes the kernel did not write count as zero.
pub open spec fn mask_byte(mask: Seq<u8>, i: int) -> u8 {
    if 0 <= i < mask.len() {
        mask[i]
    } else {
        0
    }
}

/// The leading one-bits of the mask bytes from `i` on, counting stopping at
/// the first byte that is not all ones.
pub open spec fn mask_bits(mask: Seq<u8>, offset: int, width: int, i: int) -> int
    decreases width - i,
{
    if i >= width {
        0
    } else {
        let b = mask_byte(mask, offset + i);
        lead_ones(b) + if b == 0xff {
            mask_bits(mask, offset, width, i + 1)
        } else {
            0
        }
    }
}

/// Where a family's address starts in a sockaddr, and how many bytes it has.
pub open spec fn address_field(family: Family) -> (int, int) {
    match family {
        Family::V4 => (4, 4),
        Family::V6 => (8, 16),
    }
}

/// The prefix length a netmask sockaddr carries for `family`: the leading
/// one-bits of the address field, absent bytes counting as zero, a
/// non-contiguous mask counting only its contiguous prefix. The family comes
/// from the destination, never from the mask, whose family byte is often 0.
pub open spec fn mask_prefix(mask: Seq<u8>, family: Family) -> int {
    mask_bits(mask, address_field(family).0, address_field(family).1, 0)
}

/// Bounds on the prefix a mask yields.
proof fn lemma_mask_bits_bound(mask: Seq<u8>, offset: int, width: int, i: int)
    requires
        0 <= i <= width,
    ensures
        0 <= mask_bits(mask, offset, width, i) <= 8 * (width - i),
    decreases width - i,
{
    if i < width {
        lemma_mask_bits_bound(mask, offset, width, i + 1);
    }
}

/// How many leading one-bits a netmask sockaddr carries.
pub fn prefix_len(mask: &[u8], family: Family) -> (p: u8)
    ensures
        p == mask_prefix(mask@, family),
{
    let (offset, width): (usize, usize) = match family {
        Family::V4 => (sockaddr::V4_ADDR, 4),
        Family::V6 => (sockaddr::V6_ADDR, 16),
    };
    let mut bits: u8 = 0;
    let mut i: usize = 0;
    let mut done = false;
    proof {
        lemma_mask_bits_bound(mask@, offset as int, width as int, 0);
    }
    while i < width && !done
        invariant
            width <= 16,
            offset <= 8,
            (offset as int, width as int) == address_field(family),
            i <= width,
            bits <= 8 * i,
            bits + (if done {
                0
            } else {
                mask_bits(mask@, offset as int, width as int, i as int)
            }) == mask_bits(mask@, offset as int, width as int, 0),
        decreases width - i,
    {
        let at = offset + i;
        let b: u8 = if at < mask.len() {
            mask[at]
        } else {
            0
        };
        bits = bits + leading_ones(b);
        if b != 0xff {
            done = true;
        }
        i = i + 1;
    }
    bits
}

/// The full prefix length for a family: what a host route's destination has.
pub open spec fn full_prefix(family: Family) -> u8 {
    match family {
        Family::V4 => 32,
        Family::V6 => 128,
    }
}

/// The full prefix length for a family.
pub fn host_prefix(family: Family) -> (p: u8)
    ensures
        p == full_prefix(family),
{
    match family {
        Family::V4 => 32,
        Family::V6 => 128,
    }
}

/// The fixed-size head of one routing-socket message.
#[derive(Debug, Clone, Copy, PartialEq, Eq, Structural)]
pub struct Message {
    /// Total length of this message, so the caller can find the next one.
    pub msglen: usize,
    /// `rtm_version`; anything but [`RTM_VERSION`] is an ABI we do not know.
    pub version: u8,
    /// `rtm_type`.
    pub kind: u8,
    /// The interface index this route exits through.
    pub index: u32,
    /// `RTF_*` flags.
    pub flags: i32,
    /// Which sockaddrs follow the header.
    pub addrs: i32,
}

/// The header at the front of `bytes`, its fields in byte order `order`;
/// nothing when the buffer is too short for a header, or when `rtm_msglen`
/// is shorter than a header (the walk would loop) or longer than the buffer
/// (it would read another message's bytes).
pub open spec fn message_at(bytes: Seq<u8>, order: ByteOrder) -> Option<Message> {
    if bytes.len() < 92 {
        None
    } else {
        let msglen = word16(order, bytes[0], bytes[1]) as int;
        if msglen < 92 || msglen > bytes.len() {
            None
        } else {
            Some(
                Message {
                    msglen: msglen as usize,
                    version: bytes[2],
                    kind: bytes[3],
                    index: word16(order, bytes[4], bytes[5]) as u32,
                    flags: word32(order, bytes.subrange(8, 12)) as i32,
                    addrs: word32(order, bytes.subrange(12, 16)) as i32,
                },
            )
        }
    }
}

/// Read the header of the message at the front of `bytes`, in byte order
/// `order`.
pub fn message_in(bytes: &[u8], order: ByteOrder) -> (m: Option<Message>)
    ensures
        m == message_at(bytes@, order),
{
    if bytes.len() < header::LEN {
        return None;
    }
    let msglen = read_u16(bytes, header::MSGLEN, order) as usize;
    if msglen < header::LEN || msglen > bytes.len() {
        return None;
    }
    Some(
        Message {
            msglen,
            version: bytes[header::VERSION],
            kind: bytes[header::KIND],
            index: read_u16(bytes, header::INDEX, order) as u32,
            flags: read_u32(bytes, header::FLAGS, order) as i32,
            addrs: read_u32(bytes, header::ADDRS, order) as i32,
        },
    )
}

/// Read the header of the message at the front of `bytes`, in this
/// machine's byte order.
pub fn message(bytes: &[u8]) -> (m: Option<Message>)
    ensures
        m == message_at(bytes@, ByteOrder::Little) || m == message_at(bytes@, ByteOrder::Big),
{
    message_in(bytes, machine_order())
}

/// The bytes of a message that follow its header: its sockaddrs.
pub fn address_block<'a>(bytes: &'a [u8], message: &Message) -> (b: Option<&'a [u8]>)
    ensures
        match b {
            Some(s) => 92 <= message.msglen <= bytes@.len() && s@ == bytes@.subrange(
                92,
                message.msglen as int,
            ),
            None => !(92 <= message.msglen <= bytes@.len()),
        },
{
    if header::LEN <= message.msglen && message.msglen <= bytes.len() {
        Some(slice_of(bytes, header::LEN, message.msglen))
    } else {
        None
    }
}

/// Whether a route says anything about reaching another machine: up, and
/// not a cache entry (`LLINFO`, `WASCLONED`), multicast, blackhole or
/// reject. Scoped default routes are real and stay.
pub open spec fn reportable(flags: i32) -> bool {
    flags & rtf::UP != 0 && flags & (rtf::LLINFO | rtf::WASCLONED | rtf::MULTICAST
        | rtf::BLACKHOLE | rtf::REJECT) == 0
}

/// Whether a route says anything about reaching another machine.
pub fn is_reportable(flags: i32) -> (b: bool)
    ensures
        b == reportable(flags),
{
    let unusable = rtf::LLINFO | rtf::WASCLONED | rtf::MULTICAST | rtf::BLACKHOLE | rtf::REJECT;
    flags & rtf::UP != 0 && flags & unusable == 0
}

/// Everything a routing message says that AutoNet models.
#[derive(Debug, Clone, Copy, PartialEq, Eq, Structural)]
pub struct RouteParts {
    /// The destination, or `None` for a default route.
    pub destination: Option<IpNetwork>,
    /// The next hop, or `None` for an on-link route.
    pub gateway: Option<IpAddr>,
    /// The source address the kernel associates with this route.
    pub preferred_source: Option<IpAddr>,
    /// Which family the route belongs to.
    pub family: Family,
    /// The interface index from `RTA_IFP`, when the message carried one.
    pub interface: Option<u32>,
}

/// What one message's sockaddrs say, or nothing for a message this parser
/// will not describe: a truncated address block, a link-layer destination
/// (an ARP entry, not a route), or a missing destination whose mask claims a
/// non-zero prefix. The family is the destination's, else `fallback`; a host
/// route has the full prefix; a default destination becomes `None`.
pub open spec fn parts_of(block: Seq<u8>, m: Message, fallback: Family, order: ByteOrder) -> Option<
    RouteParts,
> {
    match walk(block, m.addrs, 0, 0, no_slots()) {
        None => None,
        Some(s) => {
            let dst = slot_bytes(block, s.destination);
            if dst matches Some(d) && declared_family(d) == Some(af::LINK) {
                None
            } else {
                let dip = match dst {
                    Some(d) => ip_in(d),
                    None => None,
                };
                let family = match dip {
                    Some(ip) => family_of(ip),
                    None => fallback,
                };
                let prefix: int = if m.flags & rtf::HOST != 0 {
                    full_prefix(family) as int
                } else {
                    match slot_bytes(block, s.netmask) {
                        Some(mask) => mask_prefix(mask, family),
                        None => 0,
                    }
                };
                let gateway = match slot_bytes(block, s.gateway) {
                    Some(g) => ip_in(g),
                    None => None,
                };
                let source = match slot_bytes(block, s.source) {
                    Some(g) => ip_in(g),
                    None => None,
                };
                let interface = match slot_bytes(block, s.interface) {
                    Some(x) => sdl_index_in(x, order),
                    None => None,
                };
                match dip {
                    Some(ip) => {
                        let net = IpNetwork { addr: ip, prefix_len: prefix as u8 };
                        Some(
                            RouteParts {
                                destination: if net.spec_is_default() {
                                    None
                                } else {
                                    Some(net)
                                },
                                gateway,
                                preferred_source: source,
                                family,
                                interface,
                            },
                        )
                    },
                    None => if prefix == 0 {
                        Some(
                            RouteParts {
                                destination: None,
                                gateway,
                                preferred_source: source,
                                family,
                                interface,
                            },
                        )
                    } else {
                        None
                    },
                }
            }
        },
    }
}

/// The IP address in an optional slot.
fn ip_in_slot(block: &[u8], r: Option<(usize, usize)>) -> (ip: Option<IpAddr>)
    requires
        r matches Some(p) ==> p.0 <= p.1 <= block@.len(),
    ensures
        ip == (match slot_bytes(block@, r) {
            Some(b) => ip_in(b),
            None => None,
        }),
{
    match r {
        Some(p) => ip_of(slice_of(block, p.0, p.1)),
        None => None,
    }
}

/// Every slot the walk records lies within the block.
proof fn lemma_walk_in_bounds(block: Seq<u8>, addrs: i32, bit: int, pos: int, found: Slots)
    requires
        0 <= pos,
        block.len() <= usize::MAX,
        slots_within(found, block.len() as int),
        walk(block, addrs, bit, pos, found) is Some,
    ensures
        slots_within(walk(block, addrs, bit, pos, found)->0, block.len() as int),
    decreases 8 - bit,
{
    if 0 <= bit < 8 {
        if addrs & slot_mask(bit) == 0 {
            lemma_walk_in_bounds(block, addrs, bit + 1, pos, found);
        } else {
            let len = block[pos] as int;
            let rest = block.len() - pos;
            let step = if round_up(len) < rest {
                round_up(len)
            } else {
                rest
            };
            lemma_walk_in_bounds(
                block,
                addrs,
                bit + 1,
                pos + step,
                with_slot(found, bit, (pos as usize, (pos + len) as usize)),
            );
        }
    }
}

/// A slot that lies within a block of length `n`.
pub open spec fn slot_within(r: Option<(usize, usize)>, n: int) -> bool {
    r matches Some(p) ==> p.0 <= p.1 <= n
}

/// Every slot lies within a block of length `n`.
pub open spec fn slots_within(s: Slots, n: int) -> bool {
    slot_within(s.destination, n) && slot_within(s.gateway, n) && slot_within(s.netmask, n)
        && slot_within(s.interface, n) && slot_within(s.source, n)
}

/// Interpret one message's sockaddrs. `fallback` is the family the dump was
/// requested for, used when the destination cannot declare one.
pub fn route_parts(block: &[u8], message: &Message, fallback: Family, order: ByteOrder) -> (r:
    Option<RouteParts>)
    ensures
        r == parts_of(block@, *message, fallback, order),
{
    let found = match slots(block, message.addrs) {
        Some(s) => s,
        None => return None,
    };
    let n = block.len();
    proof {
        assert(block@.len() == n);
        lemma_walk_in_bounds(block@, message.addrs, 0, 0, no_slots());
    }
    if let Some(p) = found.destination {
        if family_of_sockaddr(slice_of(block, p.0, p.1)) == Some(af::LINK) {
            return None;
        }
    }
    let destination_ip = ip_in_slot(block, found.destination);
    let family = match destination_ip {
        Some(ip) => Family::of(&ip),
        None => fallback,
    };
    let prefix: u8 = if message.flags & rtf::HOST != 0 {
        host_prefix(family)
    } else {
        match found.netmask {
            Some(p) => prefix_len(slice_of(block, p.0, p.1), family),
            None => 0,
        }
    };
    let gateway = ip_in_slot(block, found.gateway);
    let source = ip_in_slot(block, found.source);
    let interface = match found.interface {
        Some(p) => sdl_index(slice_of(block, p.0, p.1), order),
        None => None,
    };
    let destination = match destination_ip {
        Some(ip) => {
            let net = IpNetwork::new(ip, prefix);
            if net.is_default() {
                None
            } else {
                Some(net)
            }
        },
        None => {
            if prefix != 0 {
                return None;
            }
            None
        },
    };
    Some(RouteParts { destination, gateway, preferred_source: source, family, interface })
}

/// The route a message describes, its metric from `metrics` by interface
/// index (unranked when the map does not cover it). `rtm_index` names the
/// interface; `RTA_IFP` only stands in when the header names none.
pub open spec fn route_from(m: Message, p: RouteParts, metrics: Map<u32, u32>) -> Route {
    let index = if m.index == 0 {
        match p.interface {
            Some(i) => i,
            None => 0,
        }
    } else {
        m.index
    };
    Route {
        destination: p.destination,
        gateway: p.gateway,
        interface_index: index,
        metric: if metrics.contains_key(index) {
            metrics[index]
        } else {
            UNRANKED
        },
        family: p.family,
        preferred_source: p.preferred_source,
    }
}

/// The routes a whole dump describes, message by message: a message of
/// another ABI version, an unreportable one, or one whose sockaddrs make no
/// sense is skipped; the walk stops at the first header it cannot read,
/// since past it nothing locates the next message.
pub open spec fn routes_from(buf: Seq<u8>, family: Family, metrics: Map<u32, u32>, order: ByteOrder) -> Seq<Route>
    decreases buf.len(),
{
    match message_at(buf, order) {
        None => Seq::empty(),
        Some(m) => {
            let here = if m.version == RTM_VERSION && reportable(m.flags) {
                match parts_of(buf.subrange(92, m.msglen as int), m, family, order) {
                    Some(p) => seq![route_from(m, p, metrics)],
                    None => Seq::empty(),
                }
            } else {
                Seq::empty()
            };
            here + routes_from(buf.subrange(m.msglen as int, buf.len() as int), family, metrics, order)
        },
    }
}

/// Walk a whole `NET_RT_DUMP` buffer and build the routes it describes, the
/// header fields in byte order `order`.
pub fn routes_in(buffer: &[u8], family: Family, metrics: &HashMap<u32, u32>, order: ByteOrder) -> (found: Vec<Route>)
    ensures
        found@ == routes_from(buffer@, family, metrics@, order),
{
    broadcast use vstd::std_specs::hash::group_hash_axioms;
    let mut found: Vec<Route> = Vec::new();
    let mut rest: &[u8] = buffer;
    let mut more = true;
    while more
        invariant
            found@ + (if more {
                routes_from(rest@, family, metrics@, order)
            } else {
                Seq::empty()
            }) == routes_from(buffer@, family, metrics@, order),
        decreases rest@.len() + if more {
            1int
        } else {
            0int
        },
    {
        match message_in(rest, order) {
            None => {
                more = false;
                assert(found@ + Seq::<Route>::empty() =~= found@);
            },
            Some(head) => {
                let ghost before = rest@;
                let (this, tail) = rest.split_at(head.msglen);
                rest = tail;
                let mut here: Vec<Route> = Vec::new();
                if head.version == RTM_VERSION && is_reportable(head.flags) {
                    if let Some(block) = address_block(this, &head) {
                        assert(block@ =~= before.subrange(92, head.msglen as int));
                        if let Some(parts) = route_parts(block, &head, family, order) {
                            let interface_index = if head.index == 0 {
                                match parts.interface {
                                    Some(i) => i,
                                    None => 0,
                                }
                            } else {
                                head.index
                            };
                            let metric = match metrics.get(&interface_index) {
                                Some(m) => *m,
                                None => UNRANKED,
                            };
                            here.push(
                                Route {
                                    destination: parts.destination,
                                    gateway: parts.gateway,
                                    interface_index,
                                    metric,
                                    family: parts.family,
                                    preferred_source: parts.preferred_source,
                                },
                            );
                        }
                    }
                }
                let ghost done = found@;
                found.append(&mut here);
                assert(tail@ =~= before.subrange(head.msglen as int, before.len() as int));
                assert(found@ + routes_from(rest@, family, metrics@, order) =~= done
                    + routes_from(before, family, metrics@, order));
            },
        }
    }
    found
}

/// Walk a whole `NET_RT_DUMP` buffer and build the routes it describes, in
/// this machine's byte order. `family` is the family the dump was requested
/// for; `metrics` supplies each interface's metric (macOS has no per-route
/// metric, so it comes from the service order).
pub fn routes(buffer: &[u8], family: Family, metrics: &HashMap<u32, u32>) -> (found: Vec<Route>)
    ensures
        found@ == routes_from(buffer@, family, metrics@, ByteOrder::Little) || found@
            == routes_from(buffer@, family, metrics@, ByteOrder::Big),
{
    routes_in(buffer, family, metrics, machine_order())
}

/// How many times a routing-table dump is tried before giving up: the
/// table can grow between asking its size and reading it, so running out of
/// room is occasional, and bounded so a churning table fails instead of
/// spinning.
pub const RESIZE_ATTEMPTS: usize = 4;

/// The buffer to read a dump of `needed` bytes into: an eighth more and a
/// kilobyte besides, since the table may grow between asking and reading.
pub fn dump_capacity(needed: usize) -> (c: usize)
    requires
        needed + needed / 8 + 1024 <= usize::MAX,
    ensures
        c == needed + needed / 8 + 1024,
{
    needed + needed / 8 + 1024
}

/// How much of a read buffer holds the dump: what the kernel says it
/// wrote, and never more than the buffer, so the slack is never walked as
/// messages.
pub fn dump_length(written: usize, capacity: usize) -> (n: usize)
    ensures
        n <= capacity,
        n <= written,
        n == written || n == capacity,
{
    if written < capacity {
        written
    } else {
        capacity
    }
}

} // verus!
