//! Why the order in which a machine lists its interfaces, addresses and
//! routes does not decide which address is selected.

use vstd::prelude::*;

use crate::config::{any_pattern_matches, SelectionConfig};
use crate::model::{
    best_default_via, default_via, default_via_fn, lemma_first_least, metric_only,
    spec_default_route_metric, spec_gateway_for, spec_has_any_default_route,
    spec_has_default_route, Address, Family, Interface, KindView, NetworkState, Route,
};
use crate::select::rules::lemma_total_by_metric;
use crate::select::{
    disqualification, evaluated, ip_rank, is_pair, lemma_order_rank, order_rank, ranked,
    route_rules, rule_deltas, rule_if, total, weights, Candidate,
};

verus! {

/// The parts of an interface/address pair that its verdict depends on: the
/// interface's name, index, kind and state, and the address.
pub open spec fn entry(ifaces: Seq<Interface>, p: (int, int)) -> (
    Seq<char>,
    u32,
    KindView,
    crate::model::InterfaceState,
    Address,
) {
    let i = ifaces[p.0];
    (i.name@, i.index, i.kind@, i.state, i.addresses@[p.1])
}

/// Two machines list the same interface/address pairs, perhaps in other
/// orders.
pub open spec fn same_listing(a: Seq<Interface>, b: Seq<Interface>) -> bool {
    &&& forall|p: (int, int)| #[trigger] is_pair(a, p) ==> exists|q: (int, int)| is_pair(b, q) && #[trigger] entry(b, q) == entry(a, p)
    &&& forall|q: (int, int)| #[trigger] is_pair(b, q) ==> exists|p: (int, int)| is_pair(a, p) && #[trigger] entry(a, p) == entry(b, q)
}

/// Two route tables hold the same routes, perhaps in other orders or
/// repeated.
pub open spec fn same_routes(a: Seq<Route>, b: Seq<Route>) -> bool {
    &&& forall|i: int| 0 <= i < a.len() ==> b.contains(#[trigger] a[i])
    &&& forall|j: int| 0 <= j < b.len() ==> a.contains(#[trigger] b[j])
}

/// Whether `r` is a default route no other default route of its interface
/// and family beats on metric.
pub open spec fn least_default(routes: Seq<Route>, r: Route) -> bool {
    &&& r.spec_is_default()
    &&& forall|k: int|
        0 <= k < routes.len() && default_via(#[trigger] routes[k], r.interface_index, r.family)
            ==> r.metric <= routes[k].metric
}

/// The best default routes of interface `index` for `family`, those tied
/// for the lowest metric, agree on whether they have a gateway. Where they
/// do not, which one a table lists first decides the gateway bonus.
pub open spec fn ties_agree_at(routes: Seq<Route>, index: u32, family: Family) -> bool {
    forall|i: int, j: int|
        0 <= i < routes.len() && 0 <= j < routes.len() && default_via(#[trigger] routes[i], index, family)
            && least_default(routes, routes[i]) && default_via(#[trigger] routes[j], index, family)
            && routes[j].metric == routes[i].metric ==> (routes[i].gateway is Some) == (
        routes[j].gateway is Some)
}

/// Whether the `k`th candidate could lead the list, with or without the
/// gateway bonus: eligible, and no further than the bonus below the first.
pub open spec fn in_the_running(cands: Seq<Candidate>, k: int) -> bool {
    &&& cands[k].disqualified is None
    &&& cands[k].score + weights::HAS_GATEWAY >= cands[0].score
}

/// The same routes, in whatever order, agree on which interfaces own
/// default routes.
proof fn lemma_same_defaults(a: Seq<Route>, b: Seq<Route>, index: u32, family: Family)
    requires
        same_routes(a, b),
    ensures
        spec_has_default_route(a, index, family) == spec_has_default_route(b, index, family),
        spec_has_any_default_route(a, index) == spec_has_any_default_route(b, index),
{
    if spec_has_default_route(a, index, family) {
        let i = choose|i: int| 0 <= i < a.len() && default_via(#[trigger] a[i], index, family);
        assert(b.contains(a[i]));
        let j = choose|j: int| 0 <= j < b.len() && b[j] == a[i];
        assert(default_via(b[j], index, family));
    }
    if spec_has_default_route(b, index, family) {
        let j = choose|j: int| 0 <= j < b.len() && default_via(#[trigger] b[j], index, family);
        assert(a.contains(b[j]));
        let i = choose|i: int| 0 <= i < a.len() && a[i] == b[j];
        assert(default_via(a[i], index, family));
    }
    if spec_has_any_default_route(a, index) {
        let i = choose|i: int|
            0 <= i < a.len() && (#[trigger] a[i]).spec_is_default() && a[i].interface_index == index;
        assert(b.contains(a[i]));
        let j = choose|j: int| 0 <= j < b.len() && b[j] == a[i];
        assert(b[j].spec_is_default() && b[j].interface_index == index);
    }
    if spec_has_any_default_route(b, index) {
        let j = choose|j: int|
            0 <= j < b.len() && (#[trigger] b[j]).spec_is_default() && b[j].interface_index == index;
        assert(a.contains(b[j]));
        let i = choose|i: int| 0 <= i < a.len() && a[i] == b[j];
        assert(a[i].spec_is_default() && a[i].interface_index == index);
    }
}

/// The same routes, in whatever order, agree on the best default route's
/// metric; and, where tied best routes agree on having a gateway, on
/// whether the best one has one.
proof fn lemma_same_best(a: Seq<Route>, b: Seq<Route>, index: u32, family: Family)
    requires
        same_routes(a, b),
    ensures
        spec_default_route_metric(a, index, family) == spec_default_route_metric(b, index, family),
        ties_agree_at(a, index, family) ==> (spec_gateway_for(a, index, family) is Some) == (
        spec_gateway_for(b, index, family) is Some),
{
    let wanted = default_via_fn(index, family);
    let key = metric_only();
    lemma_first_least(a, a.len() as int, wanted, key);
    lemma_first_least(b, b.len() as int, wanted, key);
    match best_default_via(a, index, family) {
        Some(p) => {
            assert(b.contains(a[p]));
            let j = choose|j: int| 0 <= j < b.len() && b[j] == a[p];
            assert(wanted(b[j]));
            let q = best_default_via(b, index, family)->0;
            assert(key(b[q]) <= key(b[j]));
            assert(a.contains(b[q]));
            let i = choose|i: int| 0 <= i < a.len() && a[i] == b[q];
            assert(wanted(a[i]));
            assert(key(a[p]) <= key(a[i]));
            assert(least_default(a, a[p])) by {
                assert forall|k: int|
                    0 <= k < a.len() && default_via(#[trigger] a[k], a[p].interface_index, a[p].family)
                    implies a[p].metric <= a[k].metric by {
                    assert(wanted(a[k]));
                }
            }
            assert(default_via(a[p], index, family));
            assert(default_via(a[i], index, family));
        },
        None => {
            match best_default_via(b, index, family) {
                Some(q) => {
                    assert(a.contains(b[q]));
                    let i = choose|i: int| 0 <= i < a.len() && a[i] == b[q];
                    assert(wanted(a[i]));
                },
                None => {},
            }
        },
    }
}

/// The verdict on a pair depends only on its entry and on the routes,
/// whatever their order, provided the pair is disqualified or the best
/// default routes of its interface and family agree on having a gateway.
proof fn lemma_rank_by_entry(
    c1: Candidate,
    c2: Candidate,
    routes1: Seq<Route>,
    routes2: Seq<Route>,
    config: SelectionConfig,
    i1: Interface,
    a1: Address,
    i2: Interface,
    a2: Address,
)
    requires
        evaluated(c1, routes1, config, i1, a1),
        evaluated(c2, routes2, config, i2, a2),
        same_routes(routes1, routes2),
        c1.disqualified is Some || ties_agree_at(routes1, i1.index, a1.family),
        i1.name@ == i2.name@,
        i1.index == i2.index,
        i1.kind@ == i2.kind@,
        i1.state == i2.state,
        a1 == a2,
    ensures
        order_rank(c1) == order_rank(c2),
{
    reveal(evaluated);
    lemma_same_defaults(routes1, routes2, i1.index, a1.family);
    lemma_same_best(routes1, routes2, i1.index, a1.family);
    assert(i1.kind.spec_synthetic() == i2.kind.spec_synthetic());
    assert(disqualification(routes1, config, i1, a1) == disqualification(routes2, config, i2, a2));
    if c1.disqualified is None {
        assert(rule_deltas(routes1, config, i1, a1) =~= rule_deltas(routes2, config, i2, a2));
    }
}

/// What a conditional rule adds to a sum.
proof fn lemma_rule_if_total(cond: bool, name: Seq<char>, delta: int)
    ensures
        total(rule_if(cond, name, delta)) == if cond {
            delta
        } else {
            0
        },
{
    let r = rule_if(cond, name, delta);
    if cond {
        assert(r.drop_last() =~= Seq::<(Seq<char>, int)>::empty());
        assert(total(r.drop_last()) == 0);
        assert(r.last() == (name, delta));
    } else {
        assert(r.len() == 0);
    }
}

/// Over the same routes in another order, an eligible pair stays eligible
/// and gains at most the gateway bonus.
proof fn lemma_score_moves_at_most_the_bonus(
    c1: Candidate,
    c2: Candidate,
    routes1: Seq<Route>,
    routes2: Seq<Route>,
    config: SelectionConfig,
    i1: Interface,
    a1: Address,
    i2: Interface,
    a2: Address,
)
    requires
        evaluated(c1, routes1, config, i1, a1),
        evaluated(c2, routes2, config, i2, a2),
        same_routes(routes1, routes2),
        c1.disqualified is None,
        i1.name@ == i2.name@,
        i1.index == i2.index,
        i1.kind@ == i2.kind@,
        i1.state == i2.state,
        a1 == a2,
    ensures
        c2.disqualified is None,
        c2.score <= c1.score + weights::HAS_GATEWAY,
{
    reveal(evaluated);
    lemma_same_defaults(routes1, routes2, i1.index, a1.family);
    lemma_same_best(routes1, routes2, i1.index, a1.family);
    assert(i1.kind.spec_synthetic() == i2.kind.spec_synthetic());
    assert(disqualification(routes1, config, i1, a1) == disqualification(routes2, config, i2, a2));
    lemma_total_by_metric(routes1, config, i1, a1);
    lemma_total_by_metric(routes2, config, i2, a2);
    assert(route_rules(routes1, i1, a1) == route_rules(routes2, i2, a2));
    assert(crate::select::profile_rules(config, i1, a1) == crate::select::profile_rules(config, i2, a2));
    assert(any_pattern_matches(config.prefer_interfaces@, i1.name@) == any_pattern_matches(
        config.prefer_interfaces@,
        i2.name@,
    ));
    lemma_rule_if_total(
        spec_gateway_for(routes1, i1.index, a1.family) is Some,
        "has_gateway"@,
        weights::HAS_GATEWAY as int,
    );
    lemma_rule_if_total(
        spec_gateway_for(routes2, i2.index, a2.family) is Some,
        "has_gateway"@,
        weights::HAS_GATEWAY as int,
    );
}

/// The candidate of a ranked list that comes from pair `p`.
proof fn lemma_candidate_of(cands: Seq<Candidate>, origin: Seq<(int, int)>, state: NetworkState, config: SelectionConfig, p: (int, int)) -> (k: int)
    requires
        ranked(cands, origin, state, config),
        is_pair(state.interfaces@, p),
    ensures
        0 <= k < cands.len(),
        origin[k] == p,
        evaluated(
            cands[k],
            state.routes@,
            config,
            state.interfaces@[p.0],
            state.interfaces@[p.0].addresses@[p.1],
        ),
{
    let k = choose|k: int| 0 <= k < origin.len() && #[trigger] origin[k] == p;
    k
}

/// What a candidate records of the pair it came from.
proof fn lemma_evaluated_pair(c: Candidate, routes: Seq<Route>, config: SelectionConfig, i: Interface, a: Address)
    requires
        evaluated(c, routes, config, i, a),
    ensures
        c.interface_index == i.index,
        c.address == a,
{
    reveal(evaluated);
}

/// The listing order does not matter: two machines that list the same
/// interface/address pairs over the same routes, in whatever order, put
/// candidates of the same rank first, and so select the same address, on
/// the same interface index, with the same score (or nothing on both). It
/// can fail only where the gateway bonus is decided by which route a table
/// lists first: best default routes of one interface and family that tie on
/// metric and differ in having a gateway. So ties need agree only for the
/// candidates that could lead with or without that bonus.
pub proof fn law_listing_order_irrelevant(
    c1: Seq<Candidate>,
    o1: Seq<(int, int)>,
    s1: NetworkState,
    c2: Seq<Candidate>,
    o2: Seq<(int, int)>,
    s2: NetworkState,
    config: SelectionConfig,
)
    requires
        ranked(c1, o1, s1, config),
        ranked(c2, o2, s2, config),
        same_routes(s1.routes@, s2.routes@),
        same_listing(s1.interfaces@, s2.interfaces@),
        forall|k: int|
            0 <= k < c1.len() && #[trigger] in_the_running(c1, k) ==> ties_agree_at(
                s1.routes@,
                c1[k].interface_index,
                c1[k].address.family,
            ),
    ensures
        c1.len() > 0 <==> c2.len() > 0,
        c1.len() > 0 ==> {
            &&& (c1[0].disqualified is None) == (c2[0].disqualified is None)
            &&& c1[0].score == c2[0].score
            &&& c1[0].interface_index == c2[0].interface_index
            &&& c1[0].address.ip == c2[0].address.ip
        },
{
    let f1 = s1.interfaces@;
    let f2 = s2.interfaces@;
    let r1 = s1.routes@;
    let r2 = s2.routes@;
    if c1.len() > 0 {
        // The first of the second list ranks no later than the first of the first.
        let p = o1[0];
        assert(is_pair(f1, p));
        let q = choose|q: (int, int)| is_pair(f2, q) && #[trigger] entry(f2, q) == entry(f1, p);
        let k = lemma_candidate_of(c2, o2, s2, config, q);
        lemma_evaluated_pair(c1[0], r1, config, f1[p.0], f1[p.0].addresses@[p.1]);
        if c1[0].disqualified is None {
            assert(in_the_running(c1, 0));
        }
        lemma_rank_by_entry(
            c1[0],
            c2[k],
            r1,
            r2,
            config,
            f1[p.0],
            f1[p.0].addresses@[p.1],
            f2[q.0],
            f2[q.0].addresses@[q.1],
        );
        if k > 0 {
            assert(order_rank(c2[0]) <= order_rank(c2[k]));
        }
        // And no earlier.
        let q0 = o2[0];
        assert(is_pair(f2, q0));
        let p0 = choose|p0: (int, int)| is_pair(f1, p0) && #[trigger] entry(f1, p0) == entry(f2, q0);
        let j = lemma_candidate_of(c1, o1, s1, config, p0);
        lemma_evaluated_pair(c1[j], r1, config, f1[p0.0], f1[p0.0].addresses@[p0.1]);
        if j > 0 {
            assert(order_rank(c1[0]) <= order_rank(c1[j]));
        }
        if c1[j].disqualified is Some || in_the_running(c1, j) {
            lemma_rank_by_entry(
                c1[j],
                c2[0],
                r1,
                r2,
                config,
                f1[p0.0],
                f1[p0.0].addresses@[p0.1],
                f2[q0.0],
                f2[q0.0].addresses@[q0.1],
            );
        } else {
            lemma_score_moves_at_most_the_bonus(
                c1[j],
                c2[0],
                r1,
                r2,
                config,
                f1[p0.0],
                f1[p0.0].addresses@[p0.1],
                f2[q0.0],
                f2[q0.0].addresses@[q0.1],
            );
            lemma_order_rank(c1[0], c1[j]);
            lemma_order_rank(c1[0], c2[0]);
        }
        lemma_order_rank(c1[0], c2[0]);
        lemma_order_rank(c2[0], c1[0]);
        let a = c1[0].address.ip;
        let b = c2[0].address.ip;
        assert(ip_rank(a) == ip_rank(b));
        assert(a == b);
    } else if c2.len() > 0 {
        let q0 = o2[0];
        assert(is_pair(f2, q0));
        let p0 = choose|p0: (int, int)| is_pair(f1, p0) && #[trigger] entry(f1, p0) == entry(f2, q0);
        let j = lemma_candidate_of(c1, o1, s1, config, p0);
    }
}

} // verus!
