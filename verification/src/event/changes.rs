//! What a diff reports about interfaces appearing and disappearing and
//! about default routes moving, stated as facts of the two snapshots.

use vstd::prelude::*;

use crate::event::{
    added_addresses, all_added, diff_events, first_named, names_distinct, new_events, old_events,
    old_interface_events, removed_addresses, route_events, route_owner, EventView,
};
use crate::model::{Family, Interface, NetworkState};

verus! {

/// Whether some interface in `ifaces` is named `name`.
pub open spec fn named(ifaces: Seq<Interface>, name: Seq<char>) -> bool {
    exists|i: int| 0 <= i < ifaces.len() && (#[trigger] ifaces[i]).name@ == name
}

/// Whether an event only concerns an interface's state or addresses.
pub open spec fn about_addresses(e: EventView) -> bool {
    e is InterfaceStateChanged || e is AddressAdded || e is AddressRemoved
}

/// Whether every event only concerns states or addresses.
pub open spec fn all_about_addresses(s: Seq<EventView>) -> bool {
    forall|k: int| 0 <= k < s.len() ==> about_addresses(#[trigger] s[k])
}

/// An event is among `a + b` exactly when it is among `a` or among `b`.
proof fn lemma_contains_concat(a: Seq<EventView>, b: Seq<EventView>, e: EventView)
    ensures
        (a + b).contains(e) == (a.contains(e) || b.contains(e)),
{
    if (a + b).contains(e) {
        let k = choose|k: int| 0 <= k < (a + b).len() && (a + b)[k] == e;
        if k < a.len() {
            assert(a[k] == e);
        } else {
            assert(b[k - a.len()] == e);
        }
    }
    if a.contains(e) {
        let k = choose|k: int| 0 <= k < a.len() && a[k] == e;
        assert((a + b)[k] == e);
    }
    if b.contains(e) {
        let k = choose|k: int| 0 <= k < b.len() && b[k] == e;
        assert((a + b)[k + a.len()] == e);
    }
}

/// Events about addresses, joined, are still about addresses.
proof fn lemma_about_addresses_concat(a: Seq<EventView>, b: Seq<EventView>)
    requires
        all_about_addresses(a),
        all_about_addresses(b),
    ensures
        all_about_addresses(a + b),
{
    assert forall|k: int| 0 <= k < (a + b).len() implies about_addresses(#[trigger] (a + b)[k]) by {
        if k < a.len() {
            assert((a + b)[k] == a[k]);
        } else {
            assert((a + b)[k] == b[k - a.len()]);
        }
    }
}

/// The address events of one interface are about addresses.
proof fn lemma_address_events(name: Seq<char>, x: Seq<crate::model::Address>, y: Seq<crate::model::Address>)
    ensures
        all_about_addresses(removed_addresses(name, x, y)),
        all_about_addresses(added_addresses(name, x, y)),
        all_about_addresses(all_added(name, x)),
    decreases x.len(),
{
    if x.len() > 0 {
        lemma_address_events(name, x.drop_last(), y);
    }
}

/// `first_named` finds nothing exactly when no interface has the name.
proof fn lemma_first_named_none(ifaces: Seq<Interface>, name: Seq<char>)
    ensures
        (first_named(ifaces, name) is None) == !named(ifaces, name),
    decreases ifaces.len(),
{
    if ifaces.len() > 0 {
        let rest = ifaces.drop_first();
        lemma_first_named_none(rest, name);
        if named(rest, name) {
            let i = choose|i: int| 0 <= i < rest.len() && (#[trigger] rest[i]).name@ == name;
            assert(ifaces[i + 1] == rest[i]);
        }
        if named(ifaces, name) && ifaces[0].name@ != name {
            let i = choose|i: int| 0 <= i < ifaces.len() && (#[trigger] ifaces[i]).name@ == name;
            assert(rest[i - 1] == ifaces[i]);
        }
    }
}

/// What became of the interfaces of the previous snapshot reports a
/// removal for exactly the names the current one lacks, and no appearance
/// or route change.
proof fn lemma_old_events(previous: Seq<Interface>, current: Seq<Interface>, name: Seq<char>)
    ensures
        old_events(previous, current).contains(EventView::InterfaceRemoved { interface: name })
            == (named(previous, name) && !named(current, name)),
        forall|k: int|
            0 <= k < old_events(previous, current).len() ==> !(#[trigger] old_events(
                previous,
                current,
            )[k] is InterfaceAdded) && !(old_events(previous, current)[k] is DefaultRouteChanged),
    decreases previous.len(),
{
    if previous.len() > 0 {
        let rest = previous.drop_last();
        let last = previous.last();
        lemma_old_events(rest, current, name);
        let a = old_events(rest, current);
        let b = old_interface_events(last, current);
        let e = EventView::InterfaceRemoved { interface: name };
        lemma_contains_concat(a, b, e);
        lemma_first_named_none(current, last.name@);
        match first_named(current, last.name@) {
            None => {
                if b.contains(e) {
                    assert(b[0] == e);
                }
                if last.name@ == name {
                    assert(b[0] == e);
                }
            },
            Some(k) => {
                let n = current[k];
                let state: Seq<EventView> = if last.state != n.state {
                    seq![
                        EventView::InterfaceStateChanged {
                            interface: last.name@,
                            from: last.state.text(),
                            to: n.state.text(),
                        },
                    ]
                } else {
                    Seq::empty()
                };
                lemma_address_events(last.name@, last.addresses@, n.addresses@);
                lemma_address_events(n.name@, n.addresses@, last.addresses@);
                lemma_about_addresses_concat(state, removed_addresses(last.name@, last.addresses@, n.addresses@));
                lemma_about_addresses_concat(
                    state + removed_addresses(last.name@, last.addresses@, n.addresses@),
                    added_addresses(n.name@, n.addresses@, last.addresses@),
                );
                assert(all_about_addresses(b));
                if b.contains(e) {
                    let j = choose|j: int| 0 <= j < b.len() && b[j] == e;
                    assert(about_addresses(b[j]));
                }
            },
        }
        if named(previous, name) {
            let i = choose|i: int| 0 <= i < previous.len() && (#[trigger] previous[i]).name@ == name;
            if i < rest.len() {
                assert(rest[i] == previous[i]);
            }
        }
        if named(rest, name) {
            let i = choose|i: int| 0 <= i < rest.len() && (#[trigger] rest[i]).name@ == name;
            assert(previous[i] == rest[i]);
        }
        let all = old_events(previous, current);
        assert(all == a + b);
        assert forall|k: int| 0 <= k < all.len() implies !(#[trigger] all[k] is InterfaceAdded) && !(
        all[k] is DefaultRouteChanged) by {
            if k < a.len() {
                assert(all[k] == a[k]);
            } else {
                assert(all[k] == b[k - a.len()]);
                if first_named(current, last.name@) is Some {
                    assert(about_addresses(b[k - a.len()]));
                }
            }
        }
    }
}

/// The interfaces that appeared are reported as appearing, exactly those
/// the previous snapshot lacks, with no removal or route change.
proof fn lemma_new_events(current: Seq<Interface>, previous: Seq<Interface>, name: Seq<char>)
    ensures
        new_events(current, previous).contains(EventView::InterfaceAdded { interface: name })
            == (named(current, name) && !named(previous, name)),
        forall|k: int|
            0 <= k < new_events(current, previous).len() ==> !(#[trigger] new_events(
                current,
                previous,
            )[k] is InterfaceRemoved) && !(new_events(current, previous)[k] is DefaultRouteChanged),
    decreases current.len(),
{
    if current.len() > 0 {
        let rest = current.drop_last();
        let last = current.last();
        lemma_new_events(rest, previous, name);
        let a = new_events(rest, previous);
        let e = EventView::InterfaceAdded { interface: name };
        lemma_first_named_none(previous, last.name@);
        lemma_first_named_none(previous, name);
        if named(current, name) {
            let i = choose|i: int| 0 <= i < current.len() && (#[trigger] current[i]).name@ == name;
            if i < rest.len() {
                assert(rest[i] == current[i]);
            }
        }
        if named(rest, name) {
            let i = choose|i: int| 0 <= i < rest.len() && (#[trigger] rest[i]).name@ == name;
            assert(current[i] == rest[i]);
        }
        if first_named(previous, last.name@) is None {
            let head = seq![EventView::InterfaceAdded { interface: last.name@ }];
            let tail = all_added(last.name@, last.addresses@);
            lemma_address_events(last.name@, last.addresses@, last.addresses@);
            lemma_contains_concat(a, head, e);
            lemma_contains_concat(a + head, tail, e);
            if tail.contains(e) {
                let j = choose|j: int| 0 <= j < tail.len() && tail[j] == e;
                assert(about_addresses(tail[j]));
            }
            if head.contains(e) {
                assert(head[0] == e);
            }
            if last.name@ == name {
                assert(head[0] == e);
            }
            let all = new_events(current, previous);
            assert(all == a + head + tail);
            assert forall|k: int| 0 <= k < all.len() implies !(#[trigger] all[k] is InterfaceRemoved) && !(
            all[k] is DefaultRouteChanged) by {
                if k < a.len() {
                    assert(all[k] == a[k]);
                } else if k == a.len() {
                    assert(all[k] == head[0]);
                } else {
                    assert(all[k] == tail[k - a.len() - 1]);
                    assert(about_addresses(tail[k - a.len() - 1]));
                }
            }
        }
    }
}

/// A route change for `family` is reported exactly when the interface
/// carrying its best default route differs, from the old owner to the new;
/// nothing else comes from the routes.
proof fn lemma_route_events(previous: NetworkState, current: NetworkState, family: Family, e: EventView)
    ensures
        route_events(previous, current, family).contains(e) == (e
            == EventView::DefaultRouteChanged {
            family,
            from_interface: route_owner(previous, family),
            to_interface: route_owner(current, family),
        } && route_owner(previous, family) != route_owner(current, family)),
{
    let s = route_events(previous, current, family);
    if s.contains(e) {
        let k = choose|k: int| 0 <= k < s.len() && s[k] == e;
        assert(k == 0);
    }
    if route_owner(previous, family) != route_owner(current, family) {
        assert(s[0] == EventView::DefaultRouteChanged {
            family,
            from_interface: route_owner(previous, family),
            to_interface: route_owner(current, family),
        });
    }
}

/// An interface is reported as appearing exactly when the current snapshot
/// has it and the previous one did not, and as removed exactly the other
/// way round (interfaces are matched by name); a default route is reported
/// as moving, for a family, exactly when the interface carrying that
/// family's best default route differs, from the one to the other.
pub proof fn law_diff_reports_exactly_what_changed(
    previous: NetworkState,
    current: NetworkState,
    name: Seq<char>,
    family: Family,
    from: Option<Seq<char>>,
    to: Option<Seq<char>>,
)
    ensures
        diff_events(previous, current).contains(EventView::InterfaceAdded { interface: name })
            == (named(current.interfaces@, name) && !named(previous.interfaces@, name)),
        diff_events(previous, current).contains(EventView::InterfaceRemoved { interface: name })
            == (named(previous.interfaces@, name) && !named(current.interfaces@, name)),
        diff_events(previous, current).contains(
            EventView::DefaultRouteChanged { family, from_interface: from, to_interface: to },
        ) == (from == route_owner(previous, family) && to == route_owner(current, family) && from
            != to),
{
    let p = previous.interfaces@;
    let c = current.interfaces@;
    let o = old_events(p, c);
    let n = new_events(c, p);
    let r4 = route_events(previous, current, Family::V4);
    let r6 = route_events(previous, current, Family::V6);
    assert(diff_events(previous, current) == o + n + r4 + r6);
    lemma_old_events(p, c, name);
    lemma_new_events(c, p, name);
    let added = EventView::InterfaceAdded { interface: name };
    let removed = EventView::InterfaceRemoved { interface: name };
    let moved = EventView::DefaultRouteChanged { family, from_interface: from, to_interface: to };
    lemma_route_events(previous, current, Family::V4, added);
    lemma_route_events(previous, current, Family::V6, added);
    lemma_route_events(previous, current, Family::V4, removed);
    lemma_route_events(previous, current, Family::V6, removed);
    lemma_route_events(previous, current, Family::V4, moved);
    lemma_route_events(previous, current, Family::V6, moved);
    lemma_contains_concat(o, n, added);
    lemma_contains_concat(o + n, r4, added);
    lemma_contains_concat(o + n + r4, r6, added);
    lemma_contains_concat(o, n, removed);
    lemma_contains_concat(o + n, r4, removed);
    lemma_contains_concat(o + n + r4, r6, removed);
    lemma_contains_concat(o, n, moved);
    lemma_contains_concat(o + n, r4, moved);
    lemma_contains_concat(o + n + r4, r6, moved);
    if o.contains(added) {
        let k = choose|k: int| 0 <= k < o.len() && o[k] == added;
        assert(!(o[k] is InterfaceAdded));
    }
    if n.contains(removed) {
        let k = choose|k: int| 0 <= k < n.len() && n[k] == removed;
        assert(!(n[k] is InterfaceRemoved));
    }
    if o.contains(moved) {
        let k = choose|k: int| 0 <= k < o.len() && o[k] == moved;
        assert(!(o[k] is DefaultRouteChanged));
    }
    if n.contains(moved) {
        let k = choose|k: int| 0 <= k < n.len() && n[k] == moved;
        assert(!(n[k] is DefaultRouteChanged));
    }
}

/// What `first_named` finds holds the name.
proof fn lemma_first_named_found(ifaces: Seq<Interface>, name: Seq<char>)
    ensures
        first_named(ifaces, name) matches Some(j) ==> 0 <= j < ifaces.len() && ifaces[j].name@ == name,
    decreases ifaces.len(),
{
    if ifaces.len() > 0 && ifaces[0].name@ != name {
        lemma_first_named_found(ifaces.drop_first(), name);
        if let Some(j) = first_named(ifaces.drop_first(), name) {
            assert(ifaces[j + 1] == ifaces.drop_first()[j]);
        }
    }
}

/// Whether an event is an address appearing or going.
pub open spec fn address_change(e: EventView) -> bool {
    e is AddressAdded || e is AddressRemoved
}

/// Whether every event is an address appearing or going.
pub open spec fn all_address_changes(s: Seq<EventView>) -> bool {
    forall|k: int| 0 <= k < s.len() ==> address_change(#[trigger] s[k])
}

/// The address events of one interface are addresses appearing or going.
proof fn lemma_address_changes(name: Seq<char>, x: Seq<crate::model::Address>, y: Seq<crate::model::Address>)
    ensures
        all_address_changes(removed_addresses(name, x, y)),
        all_address_changes(added_addresses(name, x, y)),
        all_address_changes(all_added(name, x)),
    decreases x.len(),
{
    if x.len() > 0 {
        lemma_address_changes(name, x.drop_last(), y);
    }
}

/// Address changes joined are address changes.
proof fn lemma_address_changes_concat(a: Seq<EventView>, b: Seq<EventView>)
    requires
        all_address_changes(a),
        all_address_changes(b),
    ensures
        all_address_changes(a + b),
{
    assert forall|k: int| 0 <= k < (a + b).len() implies address_change(#[trigger] (a + b)[k]) by {
        if k < a.len() {
            assert((a + b)[k] == a[k]);
        } else {
            assert((a + b)[k] == b[k - a.len()]);
        }
    }
}

/// What became of one previous interface reports a change of state exactly
/// when the current snapshot has an interface of its name, the first of
/// which is in another state: from the previous state to the current one.
proof fn lemma_one_state_change(old: Interface, current: Seq<Interface>, n: Seq<char>, f: Seq<char>, t: Seq<char>)
    ensures
        old_interface_events(old, current).contains(
            EventView::InterfaceStateChanged { interface: n, from: f, to: t },
        ) == (first_named(current, old.name@) matches Some(k) && old.state != current[k].state
            && n == old.name@ && f == old.state.text() && t == current[k].state.text()),
{
    let e = EventView::InterfaceStateChanged { interface: n, from: f, to: t };
    let b = old_interface_events(old, current);
    match first_named(current, old.name@) {
        None => {
            if b.contains(e) {
                let j = choose|j: int| 0 <= j < b.len() && b[j] == e;
                assert(j == 0);
            }
        },
        Some(k) => {
            let new = current[k];
            let state: Seq<EventView> = if old.state != new.state {
                seq![
                    EventView::InterfaceStateChanged {
                        interface: old.name@,
                        from: old.state.text(),
                        to: new.state.text(),
                    },
                ]
            } else {
                Seq::empty()
            };
            let rest = removed_addresses(old.name@, old.addresses@, new.addresses@) + added_addresses(
                new.name@,
                new.addresses@,
                old.addresses@,
            );
            lemma_address_changes(old.name@, old.addresses@, new.addresses@);
            lemma_address_changes(new.name@, new.addresses@, old.addresses@);
            lemma_address_changes_concat(
                removed_addresses(old.name@, old.addresses@, new.addresses@),
                added_addresses(new.name@, new.addresses@, old.addresses@),
            );
            assert(b =~= state + rest);
            lemma_contains_concat(state, rest, e);
            if rest.contains(e) {
                let j = choose|j: int| 0 <= j < rest.len() && rest[j] == e;
                assert(address_change(rest[j]));
            }
            if state.contains(e) {
                let j = choose|j: int| 0 <= j < state.len() && state[j] == e;
                assert(j == 0);
            }
            if old.state != new.state && n == old.name@ && f == old.state.text() && t
                == new.state.text() {
                assert(state[0] == e);
            }
        },
    }
}

/// A change of state is among what became of the previous interfaces
/// exactly when it is among what became of one of them.
proof fn lemma_state_changes_of_old(previous: Seq<Interface>, current: Seq<Interface>, e: EventView)
    requires
        e is InterfaceStateChanged,
    ensures
        old_events(previous, current).contains(e) == exists|i: int|
            0 <= i < previous.len() && #[trigger] old_interface_events(previous[i], current).contains(e),
    decreases previous.len(),
{
    if previous.len() > 0 {
        let rest = previous.drop_last();
        lemma_state_changes_of_old(rest, current, e);
        lemma_contains_concat(old_events(rest, current), old_interface_events(previous.last(), current), e);
        if exists|i: int| 0 <= i < previous.len() && #[trigger] old_interface_events(previous[i], current).contains(e) {
            let i = choose|i: int| 0 <= i < previous.len() && #[trigger] old_interface_events(previous[i], current).contains(e);
            if i < rest.len() {
                assert(rest[i] == previous[i]);
            }
        }
        if exists|i: int| 0 <= i < rest.len() && #[trigger] old_interface_events(rest[i], current).contains(e) {
            let i = choose|i: int| 0 <= i < rest.len() && #[trigger] old_interface_events(rest[i], current).contains(e);
            assert(previous[i] == rest[i]);
        }
    }
}

/// The interfaces that appeared bring no change of state.
proof fn lemma_new_events_no_state(current: Seq<Interface>, previous: Seq<Interface>)
    ensures
        forall|k: int|
            0 <= k < new_events(current, previous).len() ==> !(#[trigger] new_events(
                current,
                previous,
            )[k] is InterfaceStateChanged),
    decreases current.len(),
{
    if current.len() > 0 {
        let rest = current.drop_last();
        let last = current.last();
        lemma_new_events_no_state(rest, previous);
        let a = new_events(rest, previous);
        if first_named(previous, last.name@) is None {
            let head = seq![EventView::InterfaceAdded { interface: last.name@ }];
            let tail = all_added(last.name@, last.addresses@);
            lemma_address_changes(last.name@, last.addresses@, last.addresses@);
            let all = new_events(current, previous);
            assert(all == a + head + tail);
            assert forall|k: int| 0 <= k < all.len() implies !(#[trigger] all[k] is InterfaceStateChanged) by {
                if k < a.len() {
                    assert(all[k] == a[k]);
                } else if k == a.len() {
                    assert(all[k] == head[0]);
                } else {
                    assert(all[k] == tail[k - a.len() - 1]);
                    assert(address_change(tail[k - a.len() - 1]));
                }
            }
        }
    }
}

/// A change of state is in a diff exactly when it is among what became of
/// the previous interfaces.
proof fn lemma_state_changes_in_diff(previous: NetworkState, current: NetworkState, e: EventView)
    requires
        e is InterfaceStateChanged,
    ensures
        diff_events(previous, current).contains(e) == old_events(previous.interfaces@, current.interfaces@).contains(e),
{
    let p = previous.interfaces@;
    let c = current.interfaces@;
    let o = old_events(p, c);
    let n = new_events(c, p);
    let r4 = route_events(previous, current, Family::V4);
    let r6 = route_events(previous, current, Family::V6);
    assert(diff_events(previous, current) == o + n + r4 + r6);
    lemma_new_events_no_state(c, p);
    lemma_route_events(previous, current, Family::V4, e);
    lemma_route_events(previous, current, Family::V6, e);
    lemma_contains_concat(o, n, e);
    lemma_contains_concat(o + n, r4, e);
    lemma_contains_concat(o + n + r4, r6, e);
    if n.contains(e) {
        let k = choose|k: int| 0 <= k < n.len() && n[k] == e;
        assert(!(n[k] is InterfaceStateChanged));
    }
}

/// An interface that both snapshots have, by name, and whose state changed
/// is reported as changing from its previous state to its current one; and
/// every reported change of state is of that kind, from the previous
/// snapshot's state of the interface to the current one's (names telling
/// interfaces apart in each snapshot).
pub proof fn law_state_changes_run_from_before_to_after(
    previous: NetworkState,
    current: NetworkState,
    n: Seq<char>,
    f: Seq<char>,
    t: Seq<char>,
)
    requires
        names_distinct(previous.interfaces@),
        names_distinct(current.interfaces@),
    ensures
        forall|i: int, j: int|
            0 <= i < previous.interfaces@.len() && 0 <= j < current.interfaces@.len()
                && (#[trigger] previous.interfaces@[i]).name@ == (#[trigger] current.interfaces@[j]).name@
                && previous.interfaces@[i].state != current.interfaces@[j].state ==> diff_events(
                previous,
                current,
            ).contains(
                EventView::InterfaceStateChanged {
                    interface: previous.interfaces@[i].name@,
                    from: previous.interfaces@[i].state.text(),
                    to: current.interfaces@[j].state.text(),
                },
            ),
        diff_events(previous, current).contains(
            EventView::InterfaceStateChanged { interface: n, from: f, to: t },
        ) ==> exists|i: int, j: int|
            0 <= i < previous.interfaces@.len() && 0 <= j < current.interfaces@.len()
                && (#[trigger] previous.interfaces@[i]).name@ == n && (#[trigger] current.interfaces@[j]).name@
                == n && previous.interfaces@[i].state != current.interfaces@[j].state && f
                == previous.interfaces@[i].state.text() && t == current.interfaces@[j].state.text(),
{
    let p = previous.interfaces@;
    let c = current.interfaces@;
    assert forall|i: int, j: int|
        0 <= i < p.len() && 0 <= j < c.len() && (#[trigger] p[i]).name@ == (#[trigger] c[j]).name@
            && p[i].state != c[j].state implies diff_events(previous, current).contains(
        EventView::InterfaceStateChanged {
            interface: p[i].name@,
            from: p[i].state.text(),
            to: c[j].state.text(),
        },
    ) by {
        let e = EventView::InterfaceStateChanged {
            interface: p[i].name@,
            from: p[i].state.text(),
            to: c[j].state.text(),
        };
        crate::event::lemma_found_at_own_position(c, j);
        lemma_one_state_change(p[i], c, p[i].name@, p[i].state.text(), c[j].state.text());
        lemma_state_changes_of_old(p, c, e);
        lemma_state_changes_in_diff(previous, current, e);
    }
    let e = EventView::InterfaceStateChanged { interface: n, from: f, to: t };
    lemma_state_changes_of_old(p, c, e);
    lemma_state_changes_in_diff(previous, current, e);
    if diff_events(previous, current).contains(e) {
        let i = choose|i: int| 0 <= i < p.len() && #[trigger] old_interface_events(p[i], c).contains(e);
        lemma_one_state_change(p[i], c, n, f, t);
        let j = first_named(c, p[i].name@)->0;
        lemma_first_named_none(c, p[i].name@);
        lemma_first_named_found(c, p[i].name@);
        assert(c[j].name@ == n);
    }
}

} // verus!
