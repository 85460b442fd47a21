//! The pure parts of naming the process that holds a TCP port on Windows:
//! decoding the table's port field, and the short name of an image path.

use vstd::prelude::*;

use crate::ip::IpAddr;
use crate::platform::bytes::{machine_order, ByteOrder};
use crate::platform::portmatch::Bound;

verus! {

/// A listening socket from either table.
#[derive(Debug, Clone, Copy, PartialEq, Eq, Structural)]
pub struct Listener {
    /// The address it is bound to, unspecified for a wildcard bind.
    pub address: IpAddr,
    /// The port it is listening on.
    pub port: u16,
    /// The process that opened it.
    pub pid: u32,
}

impl Bound for Listener {
    open spec fn bound_address(&self) -> IpAddr {
        self.address
    }

    open spec fn bound_port(&self) -> u16 {
        self.port
    }

    fn address(&self) -> (a: IpAddr) {
        self.address
    }

    fn port(&self) -> (p: u16) {
        self.port
    }
}

/// The port a `dwLocalPort` field holds, given the machine's byte order: the
/// low word's bytes, as they lie in memory, read as a network-order number.
pub open spec fn port_field(raw: u32, order: ByteOrder) -> u16 {
    let low = (raw % 0x1_0000) as int;
    match order {
        ByteOrder::Little => ((low % 256) * 256 + low / 256) as u16,
        ByteOrder::Big => low as u16,
    }
}

/// Decode a `dwLocalPort` field on a machine of the given byte order.
pub fn port_in(raw: u32, order: ByteOrder) -> (p: u16)
    ensures
        p == port_field(raw, order),
{
    let low = raw % 0x1_0000;
    match order {
        ByteOrder::Little => ((low % 256) * 256 + low / 256) as u16,
        ByteOrder::Big => low as u16,
    }
}

/// Decode a `dwLocalPort` field: the port lives in the low word, in network
/// order.
pub fn port_of(raw: u32) -> (p: u16)
    ensures
        p == port_field(raw, ByteOrder::Little) || p == port_field(raw, ByteOrder::Big),
{
    port_in(raw, machine_order())
}

/// The characters after the last `\` or `/`.
pub open spec fn last_component(path: Seq<char>) -> Seq<char>
    decreases path.len(),
{
    if path.len() == 0 {
        path
    } else if path.last() == '\\' || path.last() == '/' {
        Seq::empty()
    } else {
        last_component(path.drop_last()).push(path.last())
    }
}

/// The last component of a Windows path, trimmed to match Linux's bare
/// command name. Both separators count, because Win32 accepts both.
pub fn leaf(path: &str) -> (r: &str)
    ensures
        r@ == last_component(path@),
{
    let n = path.unicode_len();
    let mut start: usize = n;
    assert(path@.subrange(0, n as int) =~= path@);
    assert(path@.subrange(n as int, n as int) =~= Seq::<char>::empty());
    while start > 0 && path.get_char(start - 1) != '\\' && path.get_char(start - 1) != '/'
        invariant
            n == path@.len(),
            start <= n,
            last_component(path@) == last_component(path@.subrange(0, start as int))
                + path@.subrange(start as int, n as int),
        decreases start,
    {
        let ghost pre = path@.subrange(0, start as int);
        assert(pre.drop_last() =~= path@.subrange(0, start - 1));
        assert(path@.subrange(start - 1, n as int) =~= seq![pre.last()] + path@.subrange(start as int, n as int));
        start = start - 1;
    }
    proof {
        let pre = path@.subrange(0, start as int);
        if start > 0 {
            assert(pre.last() == path@[start - 1]);
        }
        assert(last_component(pre) =~= Seq::<char>::empty());
        assert(path@.subrange(0, n as int) =~= path@);
    }
    path.substring_char(start, n)
}

} // verus!
