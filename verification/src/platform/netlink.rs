//! The Linux backend's reading of rtnetlink replies: a link, an address and
//! a route message each become part of the network model.
//!
//! The messages are taken as the plain values read from their attributes,
//! where a later attribute of a kind replaces an earlier one; talking to the
//! kernel is the caller's business.

use vstd::prelude::*;

use crate::classify::{classify_interface, interface_kind_of};
use crate::event::opt_view;
use crate::ip::IpAddr;
use crate::model::{
    family_of, Address, Family, Interface, InterfaceFlags, InterfaceState, IpNetwork, Route,
};
use crate::platform::hwaddr::{colon_hex, format_mac, reportable_mac};
use crate::platform::sysfs::{is_wireless, probe_chars};
use crate::text::owned;

verus! {

/// `IFF_UP`.
pub const IFF_UP: u32 = 0x1;

/// `IFF_BROADCAST`.
pub const IFF_BROADCAST: u32 = 0x2;

/// `IFF_LOOPBACK`.
pub const IFF_LOOPBACK: u32 = 0x8;

/// `IFF_POINTOPOINT`.
pub const IFF_POINTOPOINT: u32 = 0x10;

/// `IFF_RUNNING`.
pub const IFF_RUNNING: u32 = 0x40;

/// `IFF_MULTICAST`.
pub const IFF_MULTICAST: u32 = 0x1000;

/// `IF_OPER_NOTPRESENT`.
pub const OPER_NOT_PRESENT: u8 = 1;

/// `IF_OPER_DOWN`.
pub const OPER_DOWN: u8 = 2;

/// `IF_OPER_LOWERLAYERDOWN`.
pub const OPER_LOWER_LAYER_DOWN: u8 = 3;

/// `IF_OPER_TESTING`.
pub const OPER_TESTING: u8 = 4;

/// `IF_OPER_DORMANT`.
pub const OPER_DORMANT: u8 = 5;

/// `IF_OPER_UP`.
pub const OPER_UP: u8 = 6;

/// `IFA_F_SECONDARY`, which for IPv6 is `IFA_F_TEMPORARY`: a privacy
/// address.
pub const IFA_F_SECONDARY: u32 = 0x01;

/// `IFA_F_DADFAILED`: duplicate address detection failed.
pub const IFA_F_DADFAILED: u32 = 0x08;

/// `RTN_UNICAST`.
pub const RTN_UNICAST: u8 = 1;

/// `AF_INET`.
pub const AF_INET: u8 = 2;

/// `AF_INET6`.
pub const AF_INET6: u8 = 10;

/// What a link message says.
#[derive(Debug, Clone)]
pub struct Link {
    /// The interface index from the header.
    pub index: u32,
    /// The `IFF_*` flags from the header.
    pub flags: u32,
    /// `IFLA_IFNAME`.
    pub name: Option<String>,
    /// `IFLA_OPERSTATE`, as its `IF_OPER_*` code.
    pub oper_state: Option<u8>,
    /// `IFLA_ADDRESS`: the hardware address.
    pub address: Option<Vec<u8>>,
    /// `IFLA_MTU`.
    pub mtu: Option<u32>,
    /// The `IFLA_INFO_KIND` of `IFLA_LINKINFO`, such as `veth` or `bridge`.
    pub kind: Option<String>,
}

/// A link's state: its operational state where the kernel reports one;
/// otherwise down unless administratively up, and unknown rather than down
/// when up, since tunnels often report nothing while passing traffic.
pub open spec fn state_of(oper_state: Option<u8>, flags: u32) -> InterfaceState {
    match oper_state {
        Some(s) => if s == OPER_UP {
            InterfaceState::Up
        } else if s == OPER_DOWN || s == OPER_NOT_PRESENT || s == OPER_LOWER_LAYER_DOWN {
            InterfaceState::Down
        } else if s == OPER_DORMANT || s == OPER_TESTING {
            InterfaceState::Dormant
        } else {
            InterfaceState::Unknown
        },
        None => if flags & IFF_UP == 0 {
            InterfaceState::Down
        } else {
            InterfaceState::Unknown
        },
    }
}

/// A link's state, as [`state_of`] says.
pub fn interface_state(oper_state: Option<u8>, flags: u32) -> (s: InterfaceState)
    ensures
        s == state_of(oper_state, flags),
{
    match oper_state {
        Some(s) => if s == OPER_UP {
            InterfaceState::Up
        } else if s == OPER_DOWN || s == OPER_NOT_PRESENT || s == OPER_LOWER_LAYER_DOWN {
            InterfaceState::Down
        } else if s == OPER_DORMANT || s == OPER_TESTING {
            InterfaceState::Dormant
        } else {
            InterfaceState::Unknown
        },
        None => if flags & IFF_UP == 0 {
            InterfaceState::Down
        } else {
            InterfaceState::Unknown
        },
    }
}

/// Whether `flag` is set in `flags`.
pub open spec fn has_flag(flags: u32, flag: u32) -> bool {
    flags & flag != 0
}

/// The interface a link message describes, given whether sysfs says it is
/// a radio; none when it has no name, since an unnamed link is nothing a
/// rule could match or a user act on.
pub open spec fn interface_of(link: Link, wireless: bool, i: Interface) -> bool {
    let name = link.name->0;
    let loopback = has_flag(link.flags, IFF_LOOPBACK);
    &&& i.name@ == name@
    &&& i.index == link.index
    &&& i.kind@ == interface_kind_of(name@, opt_view(link.kind), loopback, wireless)
    &&& i.state == state_of(link.oper_state, link.flags)
    &&& i.flags == InterfaceFlags {
        up: has_flag(link.flags, IFF_UP),
        running: has_flag(link.flags, IFF_RUNNING),
        loopback,
        broadcast: has_flag(link.flags, IFF_BROADCAST),
        point_to_point: has_flag(link.flags, IFF_POINTOPOINT),
        multicast: has_flag(link.flags, IFF_MULTICAST),
    }
    &&& (match link.address {
        Some(bytes) => if reportable_mac(bytes@) {
            opt_view(i.mac) == Some(colon_hex(bytes@))
        } else {
            i.mac is None
        },
        None => i.mac is None,
    })
    &&& i.mtu == link.mtu
    &&& i.addresses@.len() == 0
}

/// The interface a link message describes, classified by its name, its
/// link kind, its loopback flag and whether sysfs shows a wireless
/// directory for it.
pub fn interface_from(link: &Link) -> (r: Option<Interface>)
    ensures
        link.name is None ==> r is None,
        link.name is Some ==> (r matches Some(i) && exists|wireless: bool|
            (wireless ==> probe_chars(link.name->0@)) && interface_of(*link, wireless, i)),
{
    let name = match &link.name {
        Some(name) => name,
        None => return None,
    };
    let loopback = link.flags & IFF_LOOPBACK != 0;
    let wireless = is_wireless(name.as_str());
    let kind = classify_interface(
        name.as_str(),
        match &link.kind {
            Some(k) => Some(k.as_str()),
            None => None,
        },
        loopback,
        wireless,
    );
    let mac = match &link.address {
        Some(bytes) => format_mac(bytes.as_slice()),
        None => None,
    };
    let i = Interface {
        name: owned(name.as_str()),
        index: link.index,
        kind,
        state: interface_state(link.oper_state, link.flags),
        flags: InterfaceFlags {
            up: link.flags & IFF_UP != 0,
            running: link.flags & IFF_RUNNING != 0,
            loopback,
            broadcast: link.flags & IFF_BROADCAST != 0,
            point_to_point: link.flags & IFF_POINTOPOINT != 0,
            multicast: link.flags & IFF_MULTICAST != 0,
        },
        mac,
        mtu: link.mtu,
        addresses: Vec::new(),
    };
    assert(opt_view(link.kind) == match link.kind {
        Some(k) => Some(k@),
        None => None::<Seq<char>>,
    });
    assert(interface_of(*link, wireless, i));
    Some(i)
}

/// Whether each interface has a smaller index than every one after it, as
/// the link dump, keyed by index, keeps them.
pub open spec fn by_index(interfaces: Seq<Interface>) -> bool {
    forall|a: int, b: int|
        0 <= a < b < interfaces.len() ==> #[trigger] interfaces[a].index < #[trigger] interfaces[b].index
}

/// Whether `p` is where an interface with index `index` belongs among
/// `interfaces`: after every one with a smaller index, before the rest.
pub open spec fn slot(interfaces: Seq<Interface>, index: u32, p: int) -> bool {
    &&& 0 <= p <= interfaces.len()
    &&& forall|q: int| 0 <= q < p ==> #[trigger] interfaces[q].index < index
    &&& p < interfaces.len() ==> index <= interfaces[p].index
}

/// Keep a link's interface under its index: it takes the place of one with
/// the same index that came before, else goes where its index belongs.
pub fn keep_by_index(interfaces: &mut Vec<Interface>, interface: Interface)
    requires
        by_index(old(interfaces)@),
    ensures
        by_index(final(interfaces)@),
        exists|p: int|
            slot(old(interfaces)@, interface.index, p) && final(interfaces)@ == if p < old(
                interfaces,
            )@.len() && old(interfaces)@[p].index == interface.index {
                old(interfaces)@.update(p, interface)
            } else {
                old(interfaces)@.insert(p, interface)
            },
{
    let ghost before = interfaces@;
    let mut p: usize = 0;
    while p < interfaces.len() && interfaces[p].index < interface.index
        invariant
            interfaces@ == before,
            p <= before.len(),
            forall|q: int| 0 <= q < p ==> #[trigger] before[q].index < interface.index,
        decreases before.len() - p,
    {
        p = p + 1;
    }
    assert(slot(before, interface.index, p as int));
    if p < interfaces.len() && interfaces[p].index == interface.index {
        interfaces.set(p, interface);
    } else {
        interfaces.insert(p, interface);
        assert forall|a: int, b: int| 0 <= a < b < interfaces@.len() implies #[trigger] interfaces@[a].index
            < #[trigger] interfaces@[b].index by {
            if b < p {
            } else if b == p {
            } else if a < p {
                assert(interfaces@[b] == before[b - 1]);
            } else if a == p {
                assert(interfaces@[b] == before[b - 1]);
                assert(before[p as int].index <= before[b - 1].index);
            } else {
                assert(interfaces@[b] == before[b - 1]);
                assert(interfaces@[a] == before[a - 1]);
            }
        }
    }
}

/// What an address message says.
#[derive(Debug, Clone, Copy, PartialEq, Eq)]
pub struct AddressFacts {
    /// The interface index from the header.
    pub index: u32,
    /// The prefix length from the header.
    pub prefix_len: u8,
    /// The header's eight bits of `IFA_F_*` flags.
    pub header_flags: u8,
    /// `IFA_LOCAL`: this end of a point-to-point link, or the address.
    pub local: Option<IpAddr>,
    /// `IFA_ADDRESS`.
    pub address: Option<IpAddr>,
    /// `IFA_FLAGS`: all thirty-two bits, where the kernel sent them.
    pub flags: Option<u32>,
}

/// Whether the address carries `flag`: in the full flags where the kernel
/// sent them, else in the header's eight bits.
pub open spec fn address_has(facts: AddressFacts, flag: u32) -> bool {
    match facts.flags {
        Some(f) => f & flag != 0,
        None => (facts.header_flags as u32) & flag != 0,
    }
}

/// The address an address message describes: its local address, else its
/// address; none when it has neither, or when duplicate address detection
/// failed, since the kernel will not use it. An IPv6 address marked
/// secondary is a temporary privacy address.
pub open spec fn address_of_facts(facts: AddressFacts) -> Option<Address> {
    let ip = if facts.local is Some {
        facts.local
    } else {
        facts.address
    };
    match ip {
        None => None,
        Some(ip) => if address_has(facts, IFA_F_DADFAILED) {
            None
        } else {
            Some(
                Address {
                    ip,
                    family: family_of(ip),
                    prefix_len: facts.prefix_len,
                    scope: crate::classify::scope_of(ip),
                    is_temporary: ip is V6 && address_has(facts, IFA_F_SECONDARY),
                },
            )
        },
    }
}

/// Whether an address message carries `flag`, as [`address_has`] says.
fn has(facts: &AddressFacts, flag: u32) -> (b: bool)
    ensures
        b == address_has(*facts, flag),
{
    match facts.flags {
        Some(f) => f & flag != 0,
        None => (facts.header_flags as u32) & flag != 0,
    }
}

/// The address an address message describes, as [`address_of_facts`] says.
pub fn address_from(facts: &AddressFacts) -> (a: Option<Address>)
    ensures
        a == address_of_facts(*facts),
{
    let ip = match facts.local {
        Some(ip) => ip,
        None => match facts.address {
            Some(ip) => ip,
            None => return None,
        },
    };
    if has(facts, IFA_F_DADFAILED) {
        return None;
    }
    let mut result = Address::new(ip, facts.prefix_len);
    result.is_temporary = ip.is_ipv6() && has(facts, IFA_F_SECONDARY);
    Some(result)
}

/// The addresses that the messages in `addresses` give an interface with
/// index `index`, in the order the messages came.
pub open spec fn added_for(addresses: Seq<AddressFacts>, index: u32) -> Seq<Address>
    decreases addresses.len(),
{
    if addresses.len() == 0 {
        Seq::empty()
    } else {
        let rest = added_for(addresses.drop_last(), index);
        let last = addresses.last();
        if last.index == index && address_of_facts(last) is Some {
            rest.push(address_of_facts(last)->0)
        } else {
            rest
        }
    }
}

/// Whether the `k`th interface is the first in `interfaces` with its index.
pub open spec fn first_with_index(interfaces: Seq<Interface>, k: int) -> bool {
    forall|j: int| 0 <= j < k ==> interfaces[j].index != interfaces[k].index
}

/// Whether `after` is `before` with `extra` appended to its addresses.
pub open spec fn with_more_addresses(before: Interface, after: Interface, extra: Seq<Address>) -> bool {
    &&& after.name == before.name
    &&& after.index == before.index
    &&& after.kind == before.kind
    &&& after.state == before.state
    &&& after.flags == before.flags
    &&& after.mac == before.mac
    &&& after.mtu == before.mtu
    &&& after.addresses@ == before.addresses@ + extra
}

/// The addresses that `attach_addresses` gives the `k`th interface.
pub open spec fn attached(interfaces: Seq<Interface>, k: int, addresses: Seq<AddressFacts>) -> Seq<
    Address,
> {
    if first_with_index(interfaces, k) {
        added_for(addresses, interfaces[k].index)
    } else {
        Seq::empty()
    }
}

/// Attach each address to the interface with its index, which the link
/// dump keys by index (the first, should two share one); an address for an
/// interface the link dump did not include, or one that does not read, is
/// dropped.
pub fn attach_addresses(interfaces: &mut Vec<Interface>, addresses: &[AddressFacts])
    ensures
        final(interfaces)@.len() == old(interfaces)@.len(),
        forall|k: int|
            0 <= k < old(interfaces)@.len() ==> with_more_addresses(
                old(interfaces)@[k],
                #[trigger] final(interfaces)@[k],
                attached(old(interfaces)@, k, addresses@),
            ),
{
    let ghost start = interfaces@;
    let mut j: usize = 0;
    while j < addresses.len()
        invariant
            j <= addresses@.len(),
            interfaces@.len() == start.len(),
            forall|k: int|
                0 <= k < start.len() ==> #[trigger] interfaces@[k].index == start[k].index,
            forall|k: int|
                0 <= k < start.len() ==> with_more_addresses(
                    start[k],
                    #[trigger] interfaces@[k],
                    attached(start, k, addresses@.take(j as int)),
                ),
        decreases addresses@.len() - j,
    {
        let facts = &addresses[j];
        let ghost before = interfaces@;
        assert(addresses@.take(j + 1).drop_last() =~= addresses@.take(j as int));
        assert(addresses@.take(j + 1).last() == addresses@[j as int]);
        let found = address_from(facts);
        let mut p: usize = 0;
        while p < interfaces.len() && interfaces[p].index != facts.index
            invariant
                p <= interfaces@.len(),
                interfaces@ == before,
                forall|q: int| 0 <= q < p ==> interfaces@[q].index != facts.index,
            decreases interfaces@.len() - p,
        {
            p = p + 1;
        }
        match found {
            Some(address) => {
                if p < interfaces.len() {
                    assert(first_with_index(start, p as int)) by {
                        assert forall|q: int| 0 <= q < p implies start[q].index != start[p as int].index by {
                            assert(before[q].index == start[q].index);
                            assert(before[p as int].index == start[p as int].index);
                        }
                    }
                    let mut target = interfaces.remove(p);
                    target.addresses.push(address);
                    interfaces.insert(p, target);
                    proof {
                        assert forall|k: int| 0 <= k < before.len() && k != p implies interfaces@[k]
                            == before[k] by {
                            if k < p {
                                assert(interfaces@[k] == before.remove(p as int)[k]);
                            } else {
                                assert(interfaces@[k] == before.remove(p as int)[k - 1]);
                            }
                        }
                        assert forall|k: int| 0 <= k < start.len() implies with_more_addresses(
                            start[k],
                            #[trigger] interfaces@[k],
                            attached(start, k, addresses@.take(j + 1)),
                        ) by {
                            if k == p {
                                assert(interfaces@[k].addresses@ =~= before[k].addresses@.push(
                                    address,
                                ));
                            } else if start[k].index == facts.index {
                                assert(!first_with_index(start, k)) by {
                                    assert(start[p as int].index == start[k].index);
                                }
                            }
                        }
                    }
                } else {
                    assert forall|k: int| 0 <= k < start.len() implies with_more_addresses(
                        start[k],
                        #[trigger] interfaces@[k],
                        attached(start, k, addresses@.take(j + 1)),
                    ) by {
                        assert(interfaces@[k].index != facts.index);
                    }
                }
            },
            None => {
                assert forall|k: int| 0 <= k < start.len() implies with_more_addresses(
                    start[k],
                    #[trigger] interfaces@[k],
                    attached(start, k, addresses@.take(j + 1)),
                ) by {}
            },
        }
        j = j + 1;
    }
    assert(addresses@.take(addresses@.len() as int) =~= addresses@);
}

/// What a route message says.
#[derive(Debug, Clone, Copy, PartialEq, Eq)]
pub struct RouteFacts {
    /// The route type from the header, `RTN_*`.
    pub kind: u8,
    /// The address family from the header.
    pub family: u8,
    /// `RTA_DST`, where it is an address.
    pub destination: Option<IpAddr>,
    /// The destination prefix length from the header.
    pub destination_prefix_length: u8,
    /// `RTA_GATEWAY`, where it is an address.
    pub gateway: Option<IpAddr>,
    /// `RTA_PREFSRC`, where it is an address.
    pub preferred_source: Option<IpAddr>,
    /// `RTA_OIF`.
    pub oif: Option<u32>,
    /// The interface of the first hop of an `RTA_MULTIPATH`, read only while
    /// no `RTA_OIF` had been seen.
    pub first_hop: Option<u32>,
    /// `RTA_PRIORITY`, zero when absent.
    pub priority: u32,
}

/// The route a route message describes: only unicast routes of the two
/// address families, leaving by a known interface (its own, else that of
/// the first hop of a multipath route). No destination means the default
/// route only when the prefix length is zero; otherwise the message is not
/// read.
pub open spec fn route_of(facts: RouteFacts) -> Option<Route> {
    let index = if facts.oif is Some {
        facts.oif
    } else {
        facts.first_hop
    };
    if facts.kind != RTN_UNICAST {
        None
    } else if facts.family != AF_INET && facts.family != AF_INET6 {
        None
    } else if index is None {
        None
    } else if facts.destination is None && facts.destination_prefix_length != 0 {
        None
    } else {
        Some(
            Route {
                destination: match facts.destination {
                    Some(ip) => Some(IpNetwork { addr: ip, prefix_len: facts.destination_prefix_length }),
                    None => None,
                },
                gateway: facts.gateway,
                interface_index: index->0,
                metric: facts.priority,
                family: if facts.family == AF_INET {
                    Family::V4
                } else {
                    Family::V6
                },
                preferred_source: facts.preferred_source,
            },
        )
    }
}

/// The route a route message describes, as [`route_of`] says.
pub fn route_from(facts: &RouteFacts) -> (r: Option<Route>)
    ensures
        r == route_of(*facts),
{
    if facts.kind != RTN_UNICAST {
        return None;
    }
    let family = if facts.family == AF_INET {
        Family::V4
    } else if facts.family == AF_INET6 {
        Family::V6
    } else {
        return None;
    };
    let index = match facts.oif {
        Some(i) => i,
        None => match facts.first_hop {
            Some(i) => i,
            None => return None,
        },
    };
    let destination = match facts.destination {
        Some(ip) => Some(IpNetwork::new(ip, facts.destination_prefix_length)),
        None => if facts.destination_prefix_length == 0 {
            None
        } else {
            return None;
        },
    };
    Some(
        Route {
            destination,
            gateway: facts.gateway,
            interface_index: index,
            metric: facts.priority,
            family,
            preferred_source: facts.preferred_source,
        },
    )
}

} // verus!
