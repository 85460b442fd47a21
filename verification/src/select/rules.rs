//! The order in which the engine applies its scoring rules, and what that
//! order means for the reasons a candidate records.

use vstd::prelude::*;

use crate::config::{any_pattern_matches, SelectionConfig};
use crate::model::{
    spec_default_route_metric, spec_gateway_for, spec_has_any_default_route, spec_has_default_route,
    Address, Interface, Route,
};
use crate::select::{
    disqualification, evaluated, fired, kind_delta, lemma_fired_total, metric_penalty, path_rules, profile_rules,
    reasons_view, route_rules, rule_deltas, rule_if, scope_delta, total, weights, Candidate,
};

verus! {

/// Where a rule stands in the order the engine applies them: the default
/// route (of either kind), the kind of device, the family preference, the
/// address scope, a gateway, a temporary address, the route metric, the
/// user's preferred interfaces; any other name stands after them all.
pub open spec fn rule_rank(name: Seq<char>) -> int {
    if name == "default_route"@ || name == "default_route_other_family"@ {
        0
    } else if name == "interface_kind"@ {
        1
    } else if name == "family_match"@ {
        2
    } else if name == "address_scope"@ {
        3
    } else if name == "has_gateway"@ {
        4
    } else if name == "temporary_address"@ {
        5
    } else if name == "route_metric"@ {
        6
    } else if name == "preferred_interface"@ {
        7
    } else {
        8
    }
}

/// Whether the rules come strictly in the engine's order, each named by a
/// rule the engine knows.
pub open spec fn in_rule_order(rules: Seq<(Seq<char>, int)>) -> bool {
    &&& forall|a: int| 0 <= a < rules.len() ==> rule_rank(#[trigger] rules[a].0) < 8
    &&& forall|a: int, b: int|
        0 <= a < b < rules.len() ==> rule_rank(#[trigger] rules[a].0) < rule_rank(
            #[trigger] rules[b].0,
        )
}

/// Whether every rank in `rules` lies in `lo..hi`.
pub open spec fn ranks_within(rules: Seq<(Seq<char>, int)>, lo: int, hi: int) -> bool {
    forall|a: int| 0 <= a < rules.len() ==> lo <= rule_rank(#[trigger] rules[a].0) && rule_rank(rules[a].0) < hi
}

/// Rules in order, followed by rules in order ranked after them, are in
/// order.
proof fn lemma_order_concat(x: Seq<(Seq<char>, int)>, y: Seq<(Seq<char>, int)>, lo: int, mid: int, hi: int)
    requires
        in_rule_order(x),
        in_rule_order(y),
        ranks_within(x, lo, mid),
        ranks_within(y, mid, hi),
        lo <= mid <= hi,
    ensures
        in_rule_order(x + y),
        ranks_within(x + y, lo, hi),
{
    let z = x + y;
    assert forall|a: int, b: int| 0 <= a < b < z.len() implies rule_rank(#[trigger] z[a].0) < rule_rank(
        #[trigger] z[b].0,
    ) by {
        if b < x.len() {
            assert(z[a] == x[a] && z[b] == x[b]);
        } else if a < x.len() {
            assert(z[a] == x[a] && z[b] == y[b - x.len()]);
        } else {
            assert(z[a] == y[a - x.len()] && z[b] == y[b - x.len()]);
        }
    }
    assert forall|a: int| 0 <= a < z.len() implies lo <= #[trigger] rule_rank(z[a].0) && rule_rank(
        z[a].0,
    ) < hi by {
        lemma_rank_in_concat(x, y, lo, mid, hi, a);
    }
    assert forall|a: int| 0 <= a < z.len() implies rule_rank(#[trigger] z[a].0) < 8 by {
        if a < x.len() {
            assert(z[a] == x[a]);
        } else {
            assert(z[a] == y[a - x.len()]);
        }
    }
}

/// The rank of one rule of `x + y`, where the ranks of `x` lie in
/// `lo..mid` and those of `y` in `mid..hi`.
proof fn lemma_rank_in_concat(
    x: Seq<(Seq<char>, int)>,
    y: Seq<(Seq<char>, int)>,
    lo: int,
    mid: int,
    hi: int,
    a: int,
)
    requires
        ranks_within(x, lo, mid),
        ranks_within(y, mid, hi),
        lo <= mid <= hi,
        0 <= a < x.len() + y.len(),
    ensures
        lo <= rule_rank((x + y)[a].0) && rule_rank((x + y)[a].0) < hi,
{
    if a < x.len() {
        assert((x + y)[a] == x[a]);
        assert(lo <= rule_rank(x[a].0));
    } else {
        assert((x + y)[a] == y[a - x.len()]);
        assert(rule_rank(y[a - x.len()].0) < hi);
    }
}

/// Each rule's place in the order.
proof fn lemma_rule_ranks()
    ensures
        rule_rank("default_route"@) == 0,
        rule_rank("default_route_other_family"@) == 0,
        rule_rank("interface_kind"@) == 1,
        rule_rank("family_match"@) == 2,
        rule_rank("address_scope"@) == 3,
        rule_rank("has_gateway"@) == 4,
        rule_rank("temporary_address"@) == 5,
        rule_rank("route_metric"@) == 6,
        rule_rank("preferred_interface"@) == 7,
{
    reveal_strlit("default_route");
    reveal_strlit("default_route_other_family");
    reveal_strlit("interface_kind");
    reveal_strlit("family_match");
    reveal_strlit("address_scope");
    reveal_strlit("has_gateway");
    reveal_strlit("temporary_address");
    reveal_strlit("route_metric");
    reveal_strlit("preferred_interface");
    assert("default_route"@.len() == 13);
    assert("default_route_other_family"@.len() == 26);
    assert("interface_kind"@.len() == 14);
    assert("family_match"@.len() == 12);
    assert("address_scope"@.len() == 13);
    assert("has_gateway"@.len() == 11);
    assert("temporary_address"@.len() == 17);
    assert("route_metric"@.len() == 12);
    assert("preferred_interface"@.len() == 19);
    assert("address_scope"@[0] != "default_route"@[0]);
    assert("route_metric"@[0] != "family_match"@[0]);
}

/// Every rule the engine applies comes in its place in the order.
proof fn lemma_rule_deltas_in_order(
    routes: Seq<Route>,
    config: SelectionConfig,
    iface: Interface,
    addr: Address,
)
    ensures
        in_rule_order(rule_deltas(routes, config, iface, addr)),
{
    lemma_rule_ranks();
    let r = route_rules(routes, iface, addr);
    let k = seq![("interface_kind"@, kind_delta(iface.kind@, config))];
    let f = rule_if(
        config.prefer_family.spec_preferred() == Some(addr.family),
        "family_match"@,
        weights::FAMILY_MATCH as int,
    );
    let sc = seq![("address_scope"@, scope_delta(addr.scope))];
    let g = rule_if(
        spec_gateway_for(routes, iface.index, addr.family) is Some,
        "has_gateway"@,
        weights::HAS_GATEWAY as int,
    );
    let t = rule_if(addr.is_temporary, "temporary_address"@, weights::TEMPORARY_ADDRESS as int);
    let m: Seq<(Seq<char>, int)> = match spec_default_route_metric(routes, iface.index, addr.family) {
        Some(v) => seq![("route_metric"@, metric_penalty(v))],
        None => Seq::empty(),
    };
    let pr = rule_if(
        any_pattern_matches(config.prefer_interfaces@, iface.name@),
        "preferred_interface"@,
        weights::PREFERRED_INTERFACE as int,
    );
    lemma_order_concat(r, k, 0, 1, 2);
    lemma_order_concat(r + k, f, 0, 2, 3);
    lemma_order_concat(r + k + f, sc, 0, 3, 4);
    assert(profile_rules(config, iface, addr) == k + f + sc);
    lemma_order_concat(g, t, 4, 5, 6);
    lemma_order_concat(g + t, m, 4, 6, 7);
    lemma_order_concat(g + t + m, pr, 4, 7, 8);
    assert(path_rules(routes, config, iface, addr) == g + t + m + pr);
    lemma_order_concat(r + k + f + sc, g + t + m + pr, 0, 4, 8);
    assert(rule_deltas(routes, config, iface, addr) =~= r + k + f + sc + (g + t + m + pr));
}

/// Keeping only the rules worth something keeps them in order, and each kept
/// rule is worth something.
proof fn lemma_fired_in_order(rules: Seq<(Seq<char>, int)>)
    requires
        in_rule_order(rules),
    ensures
        in_rule_order(fired(rules)),
        forall|a: int| 0 <= a < fired(rules).len() ==> (#[trigger] fired(rules)[a]).1 != 0,
        forall|a: int|
            0 <= a < fired(rules).len() ==> exists|j: int|
                0 <= j < rules.len() && rules[j] == #[trigger] fired(rules)[a],
    decreases rules.len(),
{
    if rules.len() > 0 {
        let rest = rules.drop_last();
        assert(in_rule_order(rest)) by {
            assert forall|a: int, b: int| 0 <= a < b < rest.len() implies rule_rank(#[trigger] rest[a].0)
                < rule_rank(#[trigger] rest[b].0) by {
                assert(rest[a] == rules[a] && rest[b] == rules[b]);
            }
            assert forall|a: int| 0 <= a < rest.len() implies rule_rank(#[trigger] rest[a].0) < 8 by {
                assert(rest[a] == rules[a]);
            }
        }
        lemma_fired_in_order(rest);
        let f = fired(rest);
        assert forall|a: int| 0 <= a < f.len() implies exists|j: int|
            0 <= j < rules.len() && rules[j] == #[trigger] f[a] by {
            let j = choose|j: int| 0 <= j < rest.len() && rest[j] == f[a];
            assert(rules[j] == rest[j]);
        }
        if rules.last().1 != 0 {
            let g = fired(rules);
            assert(g == f.push(rules.last()));
            assert forall|a: int, b: int| 0 <= a < b < g.len() implies rule_rank(#[trigger] g[a].0)
                < rule_rank(#[trigger] g[b].0) by {
                if b < f.len() {
                    assert(g[a] == f[a] && g[b] == f[b]);
                } else {
                    assert(g[a] == f[a]);
                    let j = choose|j: int| 0 <= j < rest.len() && rest[j] == f[a];
                    assert(rules[j] == rest[j]);
                    assert(g[b] == rules[rules.len() - 1]);
                }
            }
            assert forall|a: int| 0 <= a < g.len() implies rule_rank(#[trigger] g[a].0) < 8 by {
                if a < f.len() {
                    assert(g[a] == f[a]);
                } else {
                    assert(g[a] == rules[rules.len() - 1]);
                }
            }
            assert forall|a: int| 0 <= a < g.len() implies (#[trigger] g[a]).1 != 0 by {
                if a < f.len() {
                    assert(g[a] == f[a]);
                }
            }
            assert forall|a: int| 0 <= a < g.len() implies exists|j: int|
                0 <= j < rules.len() && rules[j] == #[trigger] g[a] by {
                if a < f.len() {
                    assert(g[a] == f[a]);
                } else {
                    assert(rules[rules.len() - 1] == g[a]);
                }
            }
        }
    }
}

/// An eligible candidate records only rules that moved it, each once, in the
/// order the engine applies them, and its score is their sum.
pub proof fn law_reasons_in_rule_order(
    c: Candidate,
    routes: Seq<Route>,
    config: SelectionConfig,
    iface: Interface,
    addr: Address,
)
    requires
        evaluated(c, routes, config, iface, addr),
        c.disqualified is None,
    ensures
        c.score == total(reasons_view(c.reasons@)),
        in_rule_order(reasons_view(c.reasons@)),
        forall|a: int| 0 <= a < c.reasons@.len() ==> (#[trigger] c.reasons@[a]).delta != 0,
{
    reveal(evaluated);
    let rules = rule_deltas(routes, config, iface, addr);
    lemma_fired_total(rules);
    lemma_rule_deltas_in_order(routes, config, iface, addr);
    lemma_fired_in_order(rules);
    assert forall|a: int| 0 <= a < c.reasons@.len() implies (#[trigger] c.reasons@[a]).delta != 0 by {
        assert(reasons_view(c.reasons@)[a] == fired(rules)[a]);
    }
}

/// The sum of two runs of rules is the sum of their sums.
proof fn lemma_total_concat(a: Seq<(Seq<char>, int)>, b: Seq<(Seq<char>, int)>)
    ensures
        total(a + b) == total(a) + total(b),
    decreases b.len(),
{
    if b.len() > 0 {
        lemma_total_concat(a, b.drop_last());
        assert((a + b).drop_last() =~= a + b.drop_last());
    }
}

/// The sum of the rules, split where the route metric's rule stands.
pub(crate) proof fn lemma_total_by_metric(
    routes: Seq<Route>,
    config: SelectionConfig,
    iface: Interface,
    addr: Address,
)
    ensures
        total(rule_deltas(routes, config, iface, addr)) == total(route_rules(routes, iface, addr))
            + total(profile_rules(config, iface, addr)) + total(
            rule_if(
                spec_gateway_for(routes, iface.index, addr.family) is Some,
                "has_gateway"@,
                weights::HAS_GATEWAY as int,
            ),
        ) + total(
            rule_if(addr.is_temporary, "temporary_address"@, weights::TEMPORARY_ADDRESS as int),
        ) + match spec_default_route_metric(routes, iface.index, addr.family) {
            Some(m) => metric_penalty(m),
            None => 0,
        } + total(
            rule_if(
                any_pattern_matches(config.prefer_interfaces@, iface.name@),
                "preferred_interface"@,
                weights::PREFERRED_INTERFACE as int,
            ),
        ),
{
    let r = route_rules(routes, iface, addr);
    let p = profile_rules(config, iface, addr);
    let g = rule_if(
        spec_gateway_for(routes, iface.index, addr.family) is Some,
        "has_gateway"@,
        weights::HAS_GATEWAY as int,
    );
    let t = rule_if(addr.is_temporary, "temporary_address"@, weights::TEMPORARY_ADDRESS as int);
    let m: Seq<(Seq<char>, int)> = match spec_default_route_metric(routes, iface.index, addr.family) {
        Some(v) => seq![("route_metric"@, metric_penalty(v))],
        None => Seq::empty(),
    };
    let pr = rule_if(
        any_pattern_matches(config.prefer_interfaces@, iface.name@),
        "preferred_interface"@,
        weights::PREFERRED_INTERFACE as int,
    );
    assert(path_rules(routes, config, iface, addr) == g + t + m + pr);
    assert(rule_deltas(routes, config, iface, addr) == r + p + (g + t + m + pr));
    lemma_total_concat(r, p);
    lemma_total_concat(g, t);
    lemma_total_concat(g + t, m);
    lemma_total_concat(g + t + m, pr);
    lemma_total_concat(r + p, g + t + m + pr);
    assert(r + p + (g + t + m + pr) == (r + p) + (g + t + m + pr));
    match spec_default_route_metric(routes, iface.index, addr.family) {
        Some(v) => {
            assert(m.drop_last() =~= Seq::<(Seq<char>, int)>::empty());
            assert(total(m.drop_last()) == 0);
            assert(m.last() == ("route_metric"@, metric_penalty(v)));
        },
        None => {},
    }
    assert(total(m) == match spec_default_route_metric(routes, iface.index, addr.family) {
        Some(v) => metric_penalty(v),
        None => 0,
    });
}

/// A worse default-route metric never raises a score, and costs at most a
/// hundred points: two evaluations of the same pair over routes that agree
/// on everything the scoring reads but the metric of the pair's best
/// default route differ by exactly the difference of the metric penalties,
/// a tenth of each metric capped at a thousand.
pub proof fn law_worse_metric_costs_at_most_a_hundred(
    c1: Candidate,
    c2: Candidate,
    routes1: Seq<Route>,
    routes2: Seq<Route>,
    config: SelectionConfig,
    iface: Interface,
    addr: Address,
    m1: u32,
    m2: u32,
)
    requires
        evaluated(c1, routes1, config, iface, addr),
        evaluated(c2, routes2, config, iface, addr),
        c1.disqualified is None,
        spec_has_default_route(routes1, iface.index, addr.family) == spec_has_default_route(
            routes2,
            iface.index,
            addr.family,
        ),
        spec_has_any_default_route(routes1, iface.index) == spec_has_any_default_route(
            routes2,
            iface.index,
        ),
        (spec_gateway_for(routes1, iface.index, addr.family) is Some) == (spec_gateway_for(
            routes2,
            iface.index,
            addr.family,
        ) is Some),
        spec_default_route_metric(routes1, iface.index, addr.family) == Some(m1),
        spec_default_route_metric(routes2, iface.index, addr.family) == Some(m2),
        m1 <= m2,
    ensures
        c2.disqualified is None,
        c1.score - c2.score == metric_penalty(m1) - metric_penalty(m2),
        0 <= c1.score - c2.score <= 100,
{
    reveal(evaluated);
    assert(disqualification(routes1, config, iface, addr) == disqualification(
        routes2,
        config,
        iface,
        addr,
    ));
    assert(route_rules(routes1, iface, addr) == route_rules(routes2, iface, addr));
    lemma_total_by_metric(routes1, config, iface, addr);
    lemma_total_by_metric(routes2, config, iface, addr);
}

} // verus!
