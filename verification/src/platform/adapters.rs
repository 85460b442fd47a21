//! The pure parts of reading Windows adapters: which address families the
//! enumeration skips, and which MTU values mean anything.

use vstd::prelude::*;

verus! {

/// `GAA_FLAG_SKIP_ANYCAST | GAA_FLAG_SKIP_MULTICAST | GAA_FLAG_SKIP_DNS_SERVER`:
/// the lists AutoNet never reads. Unicast addresses, prefixes and friendly
/// names stay.
pub const FLAGS: u32 = 2 | 4 | 8;

/// A valid MTU, if present: zero and `u32::MAX` mean "not reported".
pub fn mtu_of(mtu: u32) -> (r: Option<u32>)
    ensures
        r == (if mtu == 0 || mtu == u32::MAX {
            None
        } else {
            Some(mtu)
        }),
{
    if mtu == 0 || mtu == u32::MAX {
        None
    } else {
        Some(mtu)
    }
}

} // verus!
