//! Shaping `MIB_IPFORWARD_ROW2` rows into the model's routes: the decisions
//! that fail plausibly rather than loudly, such as publishing an on-link
//! route's unspecified next hop as a gateway.

use vstd::prelude::*;

use crate::ip::IpAddr;
use crate::model::IpNetwork;
use crate::platform::winparse::{self, host_prefix};

verus! {

/// The destination network, or `None` for a default route, so that
/// `autonet routes --json` reads the same on every platform. The prefix is
/// clamped to its family first.
pub fn destination(prefix: IpAddr, prefix_len: u8) -> (n: Option<IpNetwork>)
    ensures
        ({
            let p = if prefix_len < host_prefix(prefix) {
                prefix_len
            } else {
                host_prefix(prefix)
            };
            let net = IpNetwork { addr: prefix, prefix_len: p };
            n == (if net.spec_is_default() {
                None
            } else {
                Some(net)
            })
        }),
{
    let network = IpNetwork::new(prefix, winparse::prefix_len(prefix_len, &prefix));
    if network.is_default() {
        None
    } else {
        Some(network)
    }
}

/// The next hop, or `None` when the route is on-link: Windows fills the
/// next hop with the unspecified address where others omit it.
pub fn gateway(next_hop: IpAddr) -> (g: Option<IpAddr>)
    ensures
        g == (if next_hop.spec_is_unspecified() {
            None
        } else {
            Some(next_hop)
        }),
{
    if next_hop.is_unspecified() {
        None
    } else {
        Some(next_hop)
    }
}

/// The metric Windows itself ranks a route by: the row's offset plus the
/// owning interface's metric, saturating rather than wrapping.
pub fn effective_metric(route: u32, interface: u32) -> (m: u32)
    ensures
        m == (if route + interface > u32::MAX {
            u32::MAX as int
        } else {
            route + interface
        }),
{
    route.saturating_add(interface)
}

/// Whether a row belongs in the reported table: not loopback, not multicast.
/// Nothing is filtered on protocol, since dropping a real default route is
/// far worse than reporting a route nothing scores.
pub fn is_reportable(loopback: bool, destination: IpAddr) -> (b: bool)
    ensures
        b == (!loopback && !destination.spec_is_multicast()),
{
    !loopback && !destination.is_multicast()
}

} // verus!
