//! The vocabulary of network-state changes, and [`diff`], which derives the
//! changes between two snapshots.
//!
//! `autonet watch` and the daemon both need to answer "what changed, and does
//! the selected address need recomputing?"; this module settles that
//! vocabulary.

pub mod changes;

use vstd::prelude::*;

use crate::model::{
    spec_default_route_for, Address, Family, Interface, InterfaceState, NetworkState,
};
use crate::text::{owned, str_eq};

verus! {

/// A single observed change between two snapshots.
#[derive(Debug, PartialEq, Eq)]
pub enum NetworkEvent {
    /// An interface appeared.
    InterfaceAdded {
        /// Name of the interface.
        interface: String,
    },
    /// An interface disappeared.
    InterfaceRemoved {
        /// Name of the interface.
        interface: String,
    },
    /// An interface changed operational state: the Wi-Fi/Ethernet handover.
    InterfaceStateChanged {
        /// Name of the interface.
        interface: String,
        /// Its state before.
        from: String,
        /// Its state now.
        to: String,
    },
    /// An address was bound to an interface.
    AddressAdded {
        /// Name of the interface.
        interface: String,
        /// The new address.
        address: Address,
    },
    /// An address was unbound.
    AddressRemoved {
        /// Name of the interface.
        interface: String,
        /// The address that went away.
        address: Address,
    },
    /// The default route for a family moved to a different interface, or
    /// appeared, or vanished: the most important trigger for recomputing the
    /// selected address.
    DefaultRouteChanged {
        /// Which family's default route moved.
        family: Family,
        /// Interface that previously carried it, if any.
        from_interface: Option<String>,
        /// Interface that carries it now, if any.
        to_interface: Option<String>,
    },
}

/// A [`NetworkEvent`] as a value, its strings as characters.
pub enum EventView {
    InterfaceAdded { interface: Seq<char> },
    InterfaceRemoved { interface: Seq<char> },
    InterfaceStateChanged { interface: Seq<char>, from: Seq<char>, to: Seq<char> },
    AddressAdded { interface: Seq<char>, address: Address },
    AddressRemoved { interface: Seq<char>, address: Address },
    DefaultRouteChanged {
        family: Family,
        from_interface: Option<Seq<char>>,
        to_interface: Option<Seq<char>>,
    },
}

/// The characters of an optional string.
pub open spec fn opt_view(o: Option<String>) -> Option<Seq<char>> {
    match o {
        Some(s) => Some(s@),
        None => None,
    }
}

impl View for NetworkEvent {
    type V = EventView;

    open spec fn view(&self) -> EventView {
        match self {
            NetworkEvent::InterfaceAdded { interface } => EventView::InterfaceAdded {
                interface: interface@,
            },
            NetworkEvent::InterfaceRemoved { interface } => EventView::InterfaceRemoved {
                interface: interface@,
            },
            NetworkEvent::InterfaceStateChanged { interface, from, to } =>
                EventView::InterfaceStateChanged { interface: interface@, from: from@, to: to@ },
            NetworkEvent::AddressAdded { interface, address } => EventView::AddressAdded {
                interface: interface@,
                address: *address,
            },
            NetworkEvent::AddressRemoved { interface, address } => EventView::AddressRemoved {
                interface: interface@,
                address: *address,
            },
            NetworkEvent::DefaultRouteChanged { family, from_interface, to_interface } =>
                EventView::DefaultRouteChanged {
                family: *family,
                from_interface: opt_view(*from_interface),
                to_interface: opt_view(*to_interface),
            },
        }
    }
}

/// The events, as values.
pub open spec fn events_view(v: Seq<NetworkEvent>) -> Seq<EventView> {
    v.map_values(|e: NetworkEvent| e@)
}

/// Whether an event calls for re-running the selection engine: everything
/// but a bare interface appearing.
pub open spec fn event_affects_selection(e: EventView) -> bool {
    !(e is InterfaceAdded)
}

/// The complete set of changes between two snapshots.
#[derive(Debug, PartialEq, Eq)]
pub struct NetworkDiff {
    /// Every change observed, in a stable order.
    pub events: Vec<NetworkEvent>,
}

impl NetworkDiff {
    /// Whether anything changed at all.
    pub fn is_empty(&self) -> (b: bool)
        ensures
            b == (self.events@.len() == 0),
    {
        self.events.len() == 0
    }

    /// Whether the change is significant enough to warrant re-running the
    /// selection engine. Address, state and default-route changes, and an
    /// interface going away, always are; a bare interface appearing is not.
    pub fn affects_selection(&self) -> (b: bool)
        ensures
            b == exists|k: int|
                0 <= k < self.events@.len() && event_affects_selection(
                    #[trigger] self.events@[k]@,
                ),
    {
        let mut i: usize = 0;
        while i < self.events.len()
            invariant
                i <= self.events@.len(),
                forall|k: int| 0 <= k < i ==> !event_affects_selection(#[trigger] self.events@[k]@),
            decreases self.events.len() - i,
        {
            match &self.events[i] {
                NetworkEvent::InterfaceAdded { .. } => {},
                _ => {
                    assert(event_affects_selection(self.events@[i as int]@));
                    return true;
                },
            }
            i = i + 1;
        }
        false
    }
}

// ---------------------------------------------------------------------------
// What a diff contains
// ---------------------------------------------------------------------------

/// The position of the first interface named `name`.
pub open spec fn first_named(ifaces: Seq<Interface>, name: Seq<char>) -> Option<int>
    decreases ifaces.len(),
{
    if ifaces.len() == 0 {
        None
    } else if ifaces[0].name@ == name {
        Some(0)
    } else {
        match first_named(ifaces.drop_first(), name) {
            Some(k) => Some(k + 1),
            None => None,
        }
    }
}

/// The position of the first interface with kernel index `index`.
pub open spec fn first_indexed(ifaces: Seq<Interface>, index: u32) -> Option<int>
    decreases ifaces.len(),
{
    if ifaces.len() == 0 {
        None
    } else if ifaces[0].index == index {
        Some(0)
    } else {
        match first_indexed(ifaces.drop_first(), index) {
            Some(k) => Some(k + 1),
            None => None,
        }
    }
}

/// `AddressRemoved` for each of `old` (in order) that `new` lacks.
pub open spec fn removed_addresses(name: Seq<char>, old: Seq<Address>, new: Seq<Address>) -> Seq<
    EventView,
>
    decreases old.len(),
{
    if old.len() == 0 {
        Seq::empty()
    } else {
        let rest = removed_addresses(name, old.drop_last(), new);
        if new.contains(old.last()) {
            rest
        } else {
            rest.push(EventView::AddressRemoved { interface: name, address: old.last() })
        }
    }
}

/// `AddressAdded` for each of `new` (in order) that `old` lacks.
pub open spec fn added_addresses(name: Seq<char>, new: Seq<Address>, old: Seq<Address>) -> Seq<
    EventView,
>
    decreases new.len(),
{
    if new.len() == 0 {
        Seq::empty()
    } else {
        let rest = added_addresses(name, new.drop_last(), old);
        if old.contains(new.last()) {
            rest
        } else {
            rest.push(EventView::AddressAdded { interface: name, address: new.last() })
        }
    }
}

/// What became of one interface of the previous snapshot: removed, or its
/// state change and its addresses lost and gained, matched by name.
pub open spec fn old_interface_events(old: Interface, current: Seq<Interface>) -> Seq<EventView> {
    match first_named(current, old.name@) {
        None => seq![EventView::InterfaceRemoved { interface: old.name@ }],
        Some(k) => {
            let new = current[k];
            let state = if old.state != new.state {
                seq![
                    EventView::InterfaceStateChanged {
                        interface: old.name@,
                        from: old.state.text(),
                        to: new.state.text(),
                    },
                ]
            } else {
                Seq::empty()
            };
            state + removed_addresses(old.name@, old.addresses@, new.addresses@)
                + added_addresses(new.name@, new.addresses@, old.addresses@)
        },
    }
}

/// The events for every interface of the previous snapshot, in its order.
pub open spec fn old_events(previous: Seq<Interface>, current: Seq<Interface>) -> Seq<EventView>
    decreases previous.len(),
{
    if previous.len() == 0 {
        Seq::empty()
    } else {
        old_events(previous.drop_last(), current) + old_interface_events(previous.last(), current)
    }
}

/// `AddressAdded` for every address.
pub open spec fn all_added(name: Seq<char>, addrs: Seq<Address>) -> Seq<EventView>
    decreases addrs.len(),
{
    if addrs.len() == 0 {
        Seq::empty()
    } else {
        all_added(name, addrs.drop_last()).push(
            EventView::AddressAdded { interface: name, address: addrs.last() },
        )
    }
}

/// The events for every interface of the current snapshot that the previous
/// one did not have: its appearance, then each of its addresses.
pub open spec fn new_events(current: Seq<Interface>, previous: Seq<Interface>) -> Seq<EventView>
    decreases current.len(),
{
    if current.len() == 0 {
        Seq::empty()
    } else {
        let rest = new_events(current.drop_last(), previous);
        let new = current.last();
        if first_named(previous, new.name@) is None {
            rest + seq![EventView::InterfaceAdded { interface: new.name@ }] + all_added(
                new.name@,
                new.addresses@,
            )
        } else {
            rest
        }
    }
}

/// The name of the interface carrying the best default route for `family`.
pub open spec fn route_owner(state: NetworkState, family: Family) -> Option<Seq<char>> {
    match spec_default_route_for(state.routes@, family) {
        Some(r) => match first_indexed(state.interfaces@, r.interface_index) {
            Some(k) => Some(state.interfaces@[k].name@),
            None => None,
        },
        None => None,
    }
}

/// A `DefaultRouteChanged` for `family` when its owner differs.
pub open spec fn route_events(previous: NetworkState, current: NetworkState, family: Family) -> Seq<
    EventView,
> {
    let before = route_owner(previous, family);
    let after = route_owner(current, family);
    if before != after {
        seq![
            EventView::DefaultRouteChanged {
                family,
                from_interface: before,
                to_interface: after,
            },
        ]
    } else {
        Seq::empty()
    }
}

/// Every change between two snapshots, in order: what became of each
/// previous interface, the interfaces that appeared, then the default routes
/// of IPv4 and IPv6.
pub open spec fn diff_events(previous: NetworkState, current: NetworkState) -> Seq<EventView> {
    old_events(previous.interfaces@, current.interfaces@) + new_events(
        current.interfaces@,
        previous.interfaces@,
    ) + route_events(previous, current, Family::V4) + route_events(previous, current, Family::V6)
}

// ---------------------------------------------------------------------------
// Computing a diff
// ---------------------------------------------------------------------------

/// `first_named` is the first position holding the name.
proof fn lemma_first_named(ifaces: Seq<Interface>, name: Seq<char>, p: int)
    requires
        0 <= p <= ifaces.len(),
        forall|j: int| 0 <= j < p ==> (#[trigger] ifaces[j]).name@ != name,
        p == ifaces.len() || ifaces[p].name@ == name,
    ensures
        first_named(ifaces, name) == (if p == ifaces.len() {
            None
        } else {
            Some(p)
        }),
    decreases ifaces.len(),
{
    if ifaces.len() > 0 && p > 0 {
        assert forall|j: int| 0 <= j < p - 1 implies (#[trigger] ifaces.drop_first()[j]).name@
            != name by {
            assert(ifaces.drop_first()[j] == ifaces[j + 1]);
        }
        lemma_first_named(ifaces.drop_first(), name, p - 1);
    }
}

/// `first_indexed` is the first position holding the index.
pub proof fn lemma_first_indexed(ifaces: Seq<Interface>, index: u32, p: int)
    requires
        0 <= p <= ifaces.len(),
        forall|j: int| 0 <= j < p ==> (#[trigger] ifaces[j]).index != index,
        p == ifaces.len() || ifaces[p].index == index,
    ensures
        first_indexed(ifaces, index) == (if p == ifaces.len() {
            None
        } else {
            Some(p)
        }),
    decreases ifaces.len(),
{
    if ifaces.len() > 0 && p > 0 {
        assert forall|j: int| 0 <= j < p - 1 implies (#[trigger] ifaces.drop_first()[j]).index
            != index by {
            assert(ifaces.drop_first()[j] == ifaces[j + 1]);
        }
        lemma_first_indexed(ifaces.drop_first(), index, p - 1);
    }
}

/// The position of the first interface named `name`.
fn find_named(state: &NetworkState, name: &str) -> (r: Option<usize>)
    ensures
        match r {
            Some(p) => first_named(state.interfaces@, name@) == Some(p as int) && p
                < state.interfaces@.len(),
            None => first_named(state.interfaces@, name@) is None,
        },
{
    let r = state.interface_by_name(name);
    proof {
        match r {
            Some(p) => lemma_first_named(state.interfaces@, name@, p as int),
            None => lemma_first_named(state.interfaces@, name@, state.interfaces@.len() as int),
        }
    }
    r
}

/// Whether `addrs` holds `a`.
fn holds(addrs: &Vec<Address>, a: &Address) -> (b: bool)
    ensures
        b == addrs@.contains(*a),
{
    let mut i: usize = 0;
    while i < addrs.len()
        invariant
            i <= addrs@.len(),
            forall|j: int| 0 <= j < i ==> addrs@[j] != *a,
        decreases addrs.len() - i,
    {
        if addrs[i] == *a {
            assert(addrs@[i as int] == *a);
            return true;
        }
        i = i + 1;
    }
    false
}

/// Append `AddressRemoved` for each of `old` missing from `new`.
fn push_removed(events: &mut Vec<NetworkEvent>, name: &String, gone: &Vec<Address>, kept: &Vec<Address>)
    ensures
        events_view(final(events)@) == events_view(old(events)@) + removed_addresses(
            name@,
            gone@,
            kept@,
        ),
{
    let ghost start = events_view(events@);
    let mut i: usize = 0;
    while i < gone.len()
        invariant
            i <= gone@.len(),
            events_view(events@) == start + removed_addresses(name@, gone@.subrange(0, i as int), kept@),
        decreases gone.len() - i,
    {
        assert(gone@.subrange(0, i + 1).drop_last() =~= gone@.subrange(0, i as int));
        let a = gone[i];
        if !holds(kept, &a) {
            let ghost before = events@;
            events.push(NetworkEvent::AddressRemoved { interface: name.clone(), address: a });
            assert(events_view(events@) =~= events_view(before).push(events@.last()@));
        }
        i = i + 1;
    }
    assert(gone@.subrange(0, gone.len() as int) =~= gone@);
}

/// Append `AddressAdded` for each of `new` missing from `old`.
fn push_added(events: &mut Vec<NetworkEvent>, name: &String, fresh: &Vec<Address>, had: &Vec<Address>)
    ensures
        events_view(final(events)@) == events_view(old(events)@) + added_addresses(
            name@,
            fresh@,
            had@,
        ),
{
    let ghost start = events_view(events@);
    let mut i: usize = 0;
    while i < fresh.len()
        invariant
            i <= fresh@.len(),
            events_view(events@) == start + added_addresses(name@, fresh@.subrange(0, i as int), had@),
        decreases fresh.len() - i,
    {
        assert(fresh@.subrange(0, i + 1).drop_last() =~= fresh@.subrange(0, i as int));
        let a = fresh[i];
        if !holds(had, &a) {
            let ghost before = events@;
            events.push(NetworkEvent::AddressAdded { interface: name.clone(), address: a });
            assert(events_view(events@) =~= events_view(before).push(events@.last()@));
        }
        i = i + 1;
    }
    assert(fresh@.subrange(0, fresh.len() as int) =~= fresh@);
}

/// Append `AddressAdded` for every address.
fn push_all_added(events: &mut Vec<NetworkEvent>, name: &String, addrs: &Vec<Address>)
    ensures
        events_view(final(events)@) == events_view(old(events)@) + all_added(name@, addrs@),
{
    let ghost start = events_view(events@);
    let mut i: usize = 0;
    while i < addrs.len()
        invariant
            i <= addrs@.len(),
            events_view(events@) == start + all_added(name@, addrs@.subrange(0, i as int)),
        decreases addrs.len() - i,
    {
        assert(addrs@.subrange(0, i + 1).drop_last() =~= addrs@.subrange(0, i as int));
        let ghost before = events@;
        events.push(NetworkEvent::AddressAdded { interface: name.clone(), address: addrs[i] });
        assert(events_view(events@) =~= events_view(before).push(events@.last()@));
        i = i + 1;
    }
    assert(addrs@.subrange(0, addrs.len() as int) =~= addrs@);
}

/// The events for one interface of the previous snapshot.
fn push_old_interface(events: &mut Vec<NetworkEvent>, was: &Interface, current: &NetworkState)
    ensures
        events_view(final(events)@) == events_view(old(events)@) + old_interface_events(
            *was,
            current.interfaces@,
        ),
{
    let ghost start = events_view(events@);
    match find_named(current, was.name.as_str()) {
        None => {
            events.push(NetworkEvent::InterfaceRemoved { interface: was.name.clone() });
            assert(events_view(events@) =~= start.push(events@.last()@));
        },
        Some(k) => {
            let new = &current.interfaces[k];
            if was.state != new.state {
                events.push(
                    NetworkEvent::InterfaceStateChanged {
                        interface: was.name.clone(),
                        from: owned(was.state.as_str()),
                        to: owned(new.state.as_str()),
                    },
                );
                assert(events_view(events@) =~= start.push(events@.last()@));
            }
            let ghost mid = events_view(events@);
            push_removed(events, &was.name, &was.addresses, &new.addresses);
            push_added(events, &new.name, &new.addresses, &was.addresses);
            assert(events_view(events@) =~= start + old_interface_events(
                *was,
                current.interfaces@,
            ));
        },
    }
}

/// The name of the interface carrying the best default route for `family`.
fn default_route_interface(state: &NetworkState, family: Family) -> (r: Option<String>)
    ensures
        opt_view(r) == route_owner(*state, family),
{
    match state.default_route_for(family) {
        Some(route) => {
            let found = state.interface_by_index(route.interface_index);
            proof {
                match found {
                    Some(p) => lemma_first_indexed(state.interfaces@, route.interface_index, p as int),
                    None => lemma_first_indexed(
                        state.interfaces@,
                        route.interface_index,
                        state.interfaces@.len() as int,
                    ),
                }
            }
            match found {
                Some(p) => Some(state.interfaces[p].name.clone()),
                None => None,
            }
        },
        None => None,
    }
}

/// Whether two optional names are the same.
fn same_name(a: &Option<String>, b: &Option<String>) -> (r: bool)
    ensures
        r == (opt_view(*a) == opt_view(*b)),
{
    match (a, b) {
        (Some(x), Some(y)) => str_eq(x.as_str(), y.as_str()),
        (None, None) => true,
        _ => false,
    }
}

/// Compare two snapshots and describe what changed.
///
/// Interfaces are matched by name rather than index: a device that is
/// removed and re-added (a USB Ethernet adapter, a VPN reconnecting) comes
/// back with a fresh index but the same name, and reporting that as a
/// removal plus an addition would be true and useless.
pub fn diff(previous: &NetworkState, current: &NetworkState) -> (d: NetworkDiff)
    ensures
        events_view(d.events@) == diff_events(*previous, *current),
{
    let mut events: Vec<NetworkEvent> = Vec::new();
    let ghost prev = previous.interfaces@;
    let ghost cur = current.interfaces@;
    let mut i: usize = 0;
    assert(events_view(events@) =~= Seq::<EventView>::empty());
    while i < previous.interfaces.len()
        invariant
            prev == previous.interfaces@,
            cur == current.interfaces@,
            i <= prev.len(),
            events_view(events@) == old_events(prev.subrange(0, i as int), cur),
        decreases prev.len() - i,
    {
        assert(prev.subrange(0, i + 1).drop_last() =~= prev.subrange(0, i as int));
        push_old_interface(&mut events, &previous.interfaces[i], current);
        i = i + 1;
    }
    assert(prev.subrange(0, prev.len() as int) =~= prev);
    let ghost after_old = events_view(events@);
    let mut j: usize = 0;
    while j < current.interfaces.len()
        invariant
            prev == previous.interfaces@,
            cur == current.interfaces@,
            j <= cur.len(),
            events_view(events@) == after_old + new_events(cur.subrange(0, j as int), prev),
        decreases cur.len() - j,
    {
        assert(cur.subrange(0, j + 1).drop_last() =~= cur.subrange(0, j as int));
        let new = &current.interfaces[j];
        if find_named(previous, new.name.as_str()).is_none() {
            let ghost before = events_view(events@);
            events.push(NetworkEvent::InterfaceAdded { interface: new.name.clone() });
            assert(events_view(events@) =~= before.push(events@.last()@));
            push_all_added(&mut events, &new.name, &new.addresses);
            assert(events_view(events@) =~= after_old + new_events(cur.subrange(0, j + 1), prev));
        }
        j = j + 1;
    }
    assert(cur.subrange(0, cur.len() as int) =~= cur);
    let ghost after_new = events_view(events@);
    let before4 = default_route_interface(previous, Family::V4);
    let after4 = default_route_interface(current, Family::V4);
    if !same_name(&before4, &after4) {
        events.push(
            NetworkEvent::DefaultRouteChanged {
                family: Family::V4,
                from_interface: before4,
                to_interface: after4,
            },
        );
    }
    assert(events_view(events@) =~= after_new + route_events(*previous, *current, Family::V4));
    let ghost after_v4 = events_view(events@);
    let before6 = default_route_interface(previous, Family::V6);
    let after6 = default_route_interface(current, Family::V6);
    if !same_name(&before6, &after6) {
        events.push(
            NetworkEvent::DefaultRouteChanged {
                family: Family::V6,
                from_interface: before6,
                to_interface: after6,
            },
        );
    }
    assert(events_view(events@) =~= after_v4 + route_events(*previous, *current, Family::V6));
    NetworkDiff { events }
}

// ---------------------------------------------------------------------------
// Laws
// ---------------------------------------------------------------------------

/// No address is reported lost when every one is still there.
proof fn lemma_none_removed(name: Seq<char>, old: Seq<Address>, new: Seq<Address>)
    requires
        forall|k: int| 0 <= k < old.len() ==> new.contains(#[trigger] old[k]),
    ensures
        removed_addresses(name, old, new).len() == 0,
    decreases old.len(),
{
    if old.len() > 0 {
        assert(new.contains(old[old.len() - 1]));
        lemma_none_removed(name, old.drop_last(), new);
    }
}

/// No address is reported gained when every one was already there.
proof fn lemma_none_added(name: Seq<char>, new: Seq<Address>, old: Seq<Address>)
    requires
        forall|k: int| 0 <= k < new.len() ==> old.contains(#[trigger] new[k]),
    ensures
        added_addresses(name, new, old).len() == 0,
    decreases new.len(),
{
    if new.len() > 0 {
        assert(old.contains(new[new.len() - 1]));
        lemma_none_added(name, new.drop_last(), old);
    }
}

/// Interface names that tell interfaces apart.
pub open spec fn names_distinct(ifaces: Seq<Interface>) -> bool {
    forall|i: int, j: int|
        0 <= i < j < ifaces.len() ==> (#[trigger] ifaces[i]).name@ != (#[trigger] ifaces[j]).name@
}

/// With distinct names, each interface is found at its own position.
proof fn lemma_found_at_own_position(ifaces: Seq<Interface>, k: int)
    requires
        names_distinct(ifaces),
        0 <= k < ifaces.len(),
    ensures
        first_named(ifaces, ifaces[k].name@) == Some(k),
{
    assert forall|j: int| 0 <= j < k implies (#[trigger] ifaces[j]).name@ != ifaces[k].name@ by {}
    lemma_first_named(ifaces, ifaces[k].name@, k);
}

/// Comparing a snapshot with itself reports nothing for the interfaces of
/// any prefix of it.
proof fn lemma_old_events_unchanged(ifaces: Seq<Interface>, n: int)
    requires
        names_distinct(ifaces),
        0 <= n <= ifaces.len(),
    ensures
        old_events(ifaces.subrange(0, n), ifaces).len() == 0,
    decreases n,
{
    if n > 0 {
        let p = ifaces.subrange(0, n);
        assert(p.drop_last() =~= ifaces.subrange(0, n - 1));
        lemma_old_events_unchanged(ifaces, n - 1);
        let k = n - 1;
        lemma_found_at_own_position(ifaces, k);
        let a = ifaces[k].addresses@;
        assert forall|m: int| 0 <= m < a.len() implies a.contains(#[trigger] a[m]) by {}
        lemma_none_removed(ifaces[k].name@, a, a);
        lemma_none_added(ifaces[k].name@, a, a);
        assert(old_interface_events(p.last(), ifaces) =~= Seq::<EventView>::empty());
    }
}

/// Comparing a snapshot with itself reports no interface appearing.
proof fn lemma_new_events_unchanged(ifaces: Seq<Interface>, n: int)
    requires
        names_distinct(ifaces),
        0 <= n <= ifaces.len(),
    ensures
        new_events(ifaces.subrange(0, n), ifaces).len() == 0,
    decreases n,
{
    if n > 0 {
        let p = ifaces.subrange(0, n);
        assert(p.drop_last() =~= ifaces.subrange(0, n - 1));
        lemma_new_events_unchanged(ifaces, n - 1);
        lemma_found_at_own_position(ifaces, n - 1);
    }
}

/// A snapshot compared with itself shows no change, provided its interfaces
/// have distinct names (interfaces are matched by name).
pub proof fn law_identical_snapshots_have_no_changes(s: NetworkState)
    requires
        names_distinct(s.interfaces@),
    ensures
        diff_events(s, s).len() == 0,
{
    let f = s.interfaces@;
    lemma_old_events_unchanged(f, f.len() as int);
    lemma_new_events_unchanged(f, f.len() as int);
    assert(f.subrange(0, f.len() as int) =~= f);
}

} // verus!
