//! The address selection engine.
//!
//! A developer machine has many addresses at once: Wi-Fi, Ethernet, a Docker
//! bridge per user-defined network, a libvirt bridge, a VPN tunnel, loopback,
//! and several IPv6 addresses. The engine works in two stages:
//!
//! 1. **Disqualification** removes only what is objectively unusable: a down
//!    interface, loopback, link-local, the wrong family, an excluded name.
//! 2. **Scoring** ranks everything that survives. Nothing else is filtered.
//!
//! Containers take a large penalty rather than an outright ban, so that a
//! legitimate bridge carrying the default route still wins. Every candidate
//! keeps the rules that fired on it, which is what lets `autonet doctor`
//! explain a verdict without re-deriving it.

pub mod eligibility;
pub mod listing;
pub mod rules;
pub mod weights;

use vstd::prelude::*;

use crate::config::{any_name_matches, any_pattern_matches, SelectionConfig};
use crate::error::CoreError;
use crate::ip::IpAddr;
use crate::model::{
    FamilyPreference,
    spec_default_route_metric, spec_gateway_for, spec_has_any_default_route,
    spec_has_default_route, Address, AddressScope, Family, Interface, InterfaceKind, KindView,
    NetworkState, Route,
};
use crate::text::{decimal, push_char, push_numeral, push_str};

verus! {

/// Why a candidate was removed from consideration before scoring.
#[derive(Debug, Clone, Copy, PartialEq, Eq, Structural)]
pub enum Disqualification {
    /// The kernel reports the interface as down.
    InterfaceDown,
    /// A loopback address, reachable only from this machine.
    Loopback,
    /// A link-local address, which is not usefully routable.
    LinkLocal,
    /// Unspecified, multicast, broadcast, documentation, or reserved.
    SpecialAddress,
    /// Not the address family the caller asked for.
    FamilyMismatch,
    /// Matched `exclude_interfaces`.
    ExcludedByConfig,
    /// A different interface was demanded via `require_interface`.
    NotRequiredInterface,
    /// A container or virtualisation interface that carries no default route:
    /// not a path to anywhere, so silence is more honest than its address.
    SyntheticWithoutRoute,
}

impl Disqualification {
    /// The explanation printed for this disqualification.
    pub open spec fn text(self) -> Seq<char> {
        match self {
            Disqualification::InterfaceDown => "interface is down"@,
            Disqualification::Loopback => "loopback address is not reachable from other devices"@,
            Disqualification::LinkLocal => "link-local address is not routable"@,
            Disqualification::SpecialAddress => "reserved or non-unicast address"@,
            Disqualification::FamilyMismatch => "wrong address family"@,
            Disqualification::ExcludedByConfig => "excluded by configuration"@,
            Disqualification::NotRequiredInterface => "not the requested interface"@,
            Disqualification::SyntheticWithoutRoute =>
                "container or virtual interface with no route to anywhere"@,
        }
    }

    /// The explanation printed for this disqualification.
    pub fn as_str(&self) -> (s: &'static str)
        ensures
            s@ == self.text(),
    {
        match self {
            Disqualification::InterfaceDown => "interface is down",
            Disqualification::Loopback => "loopback address is not reachable from other devices",
            Disqualification::LinkLocal => "link-local address is not routable",
            Disqualification::SpecialAddress => "reserved or non-unicast address",
            Disqualification::FamilyMismatch => "wrong address family",
            Disqualification::ExcludedByConfig => "excluded by configuration",
            Disqualification::NotRequiredInterface => "not the requested interface",
            Disqualification::SyntheticWithoutRoute =>
                "container or virtual interface with no route to anywhere",
        }
    }

    /// The explanation printed for this disqualification.
    pub fn to_text(&self) -> (s: String)
        ensures
            s@ == self.text(),
    {
        let mut s = String::new();
        push_str(&mut s, self.as_str());
        s
    }
}

/// A single scoring rule that fired on a candidate.
#[derive(Debug, Clone, Copy, PartialEq, Eq)]
pub struct Reason {
    /// Stable identifier for the rule, for example `"default_route"`.
    pub rule: &'static str,
    /// How many points it contributed. May be negative.
    pub delta: i32,
}

/// A rule as a value: its name and its contribution.
pub open spec fn reason_view(r: Reason) -> (Seq<char>, int) {
    (r.rule@, r.delta as int)
}

/// The rules recorded on a candidate, as values.
pub open spec fn reasons_view(v: Seq<Reason>) -> Seq<(Seq<char>, int)> {
    v.map_values(|r: Reason| reason_view(r))
}

/// One interface/address pair, with the engine's verdict on it.
#[derive(Debug, PartialEq, Eq)]
pub struct Candidate {
    /// Name of the interface the address is bound to.
    pub interface: String,
    /// Kernel index of that interface.
    pub interface_index: u32,
    /// What sort of device it is.
    pub interface_kind: InterfaceKind,
    /// The address under consideration.
    pub address: Address,
    /// Total score. Zero, and meaningless, when `disqualified` is set.
    pub score: i32,
    /// Every rule that fired, in the order they were applied.
    pub reasons: Vec<Reason>,
    /// Set when the candidate was removed before scoring.
    pub disqualified: Option<Disqualification>,
}

impl Candidate {
    /// Whether this candidate is still in the running.
    pub fn is_eligible(&self) -> (b: bool)
        ensures
            b == (self.disqualified is None),
    {
        self.disqualified.is_none()
    }
}

// ---------------------------------------------------------------------------
// Disqualification
// ---------------------------------------------------------------------------

/// Whether the user named this interface themselves, by requiring it or by
/// preferring it. An explicit instruction overrides the heuristics.
pub open spec fn explicitly_requested(config: SelectionConfig, name: Seq<char>) -> bool {
    (config.require_interface matches Some(r) && r@ == name) || any_pattern_matches(
        config.prefer_interfaces@,
        name,
    )
}

/// Why a pair is unusable regardless of how it would score, checked in this
/// order: another interface was required; the name is excluded; the link is
/// down; a container or virtual device with no default route; loopback,
/// link-local or special scope (scope before family, since an `fe80::`
/// address is unusable whatever family was asked for); the wrong family.
pub open spec fn disqualification(
    routes: Seq<Route>,
    config: SelectionConfig,
    iface: Interface,
    addr: Address,
) -> Option<Disqualification> {
    if config.require_interface matches Some(r) && r@ != iface.name@ {
        Some(Disqualification::NotRequiredInterface)
    } else if any_pattern_matches(config.exclude_interfaces@, iface.name@) {
        Some(Disqualification::ExcludedByConfig)
    } else if iface.state is Down && !config.include_down {
        Some(Disqualification::InterfaceDown)
    } else if iface.kind.spec_synthetic() && !config.allow_container && !explicitly_requested(
        config,
        iface.name@,
    ) && !spec_has_any_default_route(routes, iface.index) {
        Some(Disqualification::SyntheticWithoutRoute)
    } else if addr.scope is Loopback && !config.allow_loopback {
        Some(Disqualification::Loopback)
    } else if addr.scope is LinkLocal && !config.allow_link_local {
        Some(Disqualification::LinkLocal)
    } else if addr.scope is Special {
        Some(Disqualification::SpecialAddress)
    } else if !config.prefer_family.spec_admits(addr.family) {
        Some(Disqualification::FamilyMismatch)
    } else {
        None
    }
}

/// Decide whether a pair is unusable regardless of how it would score.
fn disqualify(
    state: &NetworkState,
    config: &SelectionConfig,
    interface: &Interface,
    address: &Address,
) -> (d: Option<Disqualification>)
    ensures
        d == disqualification(state.routes@, *config, *interface, *address),
{
    let name = interface.name.as_str();
    let required = match &config.require_interface {
        Some(r) => crate::text::str_eq(r.as_str(), name),
        None => false,
    };
    let explicitly = required || any_name_matches(config.prefer_interfaces.as_slice(), name);
    if let Some(r) = &config.require_interface {
        if !crate::text::str_eq(r.as_str(), name) {
            return Some(Disqualification::NotRequiredInterface);
        }
    }
    if any_name_matches(config.exclude_interfaces.as_slice(), name) {
        return Some(Disqualification::ExcludedByConfig);
    }
    if interface.state.is_down() && !config.include_down {
        return Some(Disqualification::InterfaceDown);
    }
    if interface.kind.is_synthetic() && !config.allow_container && !explicitly
        && !state.has_any_default_route(interface.index) {
        return Some(Disqualification::SyntheticWithoutRoute);
    }
    match address.scope {
        AddressScope::Loopback => {
            if !config.allow_loopback {
                return Some(Disqualification::Loopback);
            }
        },
        AddressScope::LinkLocal => {
            if !config.allow_link_local {
                return Some(Disqualification::LinkLocal);
            }
        },
        AddressScope::Special => {
            return Some(Disqualification::SpecialAddress);
        },
        _ => {},
    }
    if !config.prefer_family.admits(address.family) {
        return Some(Disqualification::FamilyMismatch);
    }
    None
}

// ---------------------------------------------------------------------------
// Scoring
// ---------------------------------------------------------------------------

/// What the kind of device contributes.
pub open spec fn kind_delta(kind: KindView, config: SelectionConfig) -> int {
    match kind {
        KindView::Ethernet => weights::KIND_ETHERNET as int,
        KindView::Wireless => weights::KIND_WIRELESS as int,
        KindView::Bridge => weights::KIND_BRIDGE as int,
        KindView::Container | KindView::Virtual => if config.allow_container {
            0
        } else {
            weights::KIND_SYNTHETIC as int
        },
        KindView::Vpn => if config.allow_vpn {
            weights::KIND_VPN_ALLOWED as int
        } else {
            weights::KIND_VPN as int
        },
        KindView::Loopback | KindView::Other(_) => 0,
    }
}

/// What the address's place in the address space contributes.
pub open spec fn scope_delta(scope: AddressScope) -> int {
    match scope {
        AddressScope::Private | AddressScope::UniqueLocal => weights::SCOPE_PRIVATE as int,
        AddressScope::Global => weights::SCOPE_GLOBAL as int,
        AddressScope::Cgnat => weights::SCOPE_CGNAT as int,
        _ => 0,
    }
}

/// The cost of a route metric: a tenth of it, capped at a hundred points.
pub open spec fn metric_penalty(metric: u32) -> int {
    let capped = if metric < weights::METRIC_CAP {
        metric
    } else {
        weights::METRIC_CAP
    };
    -((capped / weights::METRIC_DIVISOR) as int)
}

/// A rule that applies only when `cond` holds.
pub open spec fn rule_if(cond: bool, name: Seq<char>, delta: int) -> Seq<(Seq<char>, int)> {
    if cond {
        seq![(name, delta)]
    } else {
        Seq::empty()
    }
}

/// The routing rule: the default route for this family, else one for the
/// other family.
pub open spec fn route_rules(routes: Seq<Route>, iface: Interface, addr: Address) -> Seq<
    (Seq<char>, int),
> {
    if spec_has_default_route(routes, iface.index, addr.family) {
        seq![("default_route"@, weights::DEFAULT_ROUTE_SAME_FAMILY as int)]
    } else {
        rule_if(
            spec_has_any_default_route(routes, iface.index),
            "default_route_other_family"@,
            weights::DEFAULT_ROUTE_OTHER_FAMILY as int,
        )
    }
}

/// The rules on what the pair is: the kind of device, the family preference,
/// the address scope.
pub open spec fn profile_rules(config: SelectionConfig, iface: Interface, addr: Address) -> Seq<
    (Seq<char>, int),
> {
    seq![("interface_kind"@, kind_delta(iface.kind@, config))] + rule_if(
        config.prefer_family.spec_preferred() == Some(addr.family),
        "family_match"@,
        weights::FAMILY_MATCH as int,
    ) + seq![("address_scope"@, scope_delta(addr.scope))]
}

/// The rules on how traffic leaves: a gateway, a temporary address, the route
/// metric, and the user's preferred interfaces.
pub open spec fn path_rules(
    routes: Seq<Route>,
    config: SelectionConfig,
    iface: Interface,
    addr: Address,
) -> Seq<(Seq<char>, int)> {
    let metric = match spec_default_route_metric(routes, iface.index, addr.family) {
        Some(m) => seq![("route_metric"@, metric_penalty(m))],
        None => Seq::empty(),
    };
    rule_if(
        spec_gateway_for(routes, iface.index, addr.family) is Some,
        "has_gateway"@,
        weights::HAS_GATEWAY as int,
    ) + rule_if(addr.is_temporary, "temporary_address"@, weights::TEMPORARY_ADDRESS as int)
        + metric + rule_if(
        any_pattern_matches(config.prefer_interfaces@, iface.name@),
        "preferred_interface"@,
        weights::PREFERRED_INTERFACE as int,
    )
}

/// Every scoring rule that applies to an eligible pair, in the order they are
/// applied, with its contribution (possibly zero): the default route (for
/// this family, else for the other), the kind of device, the family
/// preference, the address scope, a gateway, a temporary address, the route
/// metric, and the user's preferred interfaces.
pub open spec fn rule_deltas(
    routes: Seq<Route>,
    config: SelectionConfig,
    iface: Interface,
    addr: Address,
) -> Seq<(Seq<char>, int)> {
    route_rules(routes, iface, addr) + profile_rules(config, iface, addr) + path_rules(
        routes,
        config,
        iface,
        addr,
    )
}

/// The rules that actually moved a candidate: those worth something.
pub open spec fn fired(rules: Seq<(Seq<char>, int)>) -> Seq<(Seq<char>, int)>
    decreases rules.len(),
{
    if rules.len() == 0 {
        Seq::empty()
    } else if rules.last().1 != 0 {
        fired(rules.drop_last()).push(rules.last())
    } else {
        fired(rules.drop_last())
    }
}

/// The sum of the contributions.
pub open spec fn total(rules: Seq<(Seq<char>, int)>) -> int
    decreases rules.len(),
{
    if rules.len() == 0 {
        0
    } else {
        total(rules.drop_last()) + rules.last().1
    }
}

/// Leaving out the rules worth nothing does not change the sum.
pub proof fn lemma_fired_total(rules: Seq<(Seq<char>, int)>)
    ensures
        total(fired(rules)) == total(rules),
    decreases rules.len(),
{
    if rules.len() > 0 {
        lemma_fired_total(rules.drop_last());
        if rules.last().1 != 0 {
            assert(fired(rules).drop_last() =~= fired(rules.drop_last()));
        }
    }
}

/// What the engine records of one pair: who it is, its verdict, and (when it
/// survives) the rules that fired and their sum.
#[verifier::opaque]
pub open spec fn evaluated(
    c: Candidate,
    routes: Seq<Route>,
    config: SelectionConfig,
    iface: Interface,
    addr: Address,
) -> bool {
    &&& c.interface@ == iface.name@
    &&& c.interface_index == iface.index
    &&& c.interface_kind@ == iface.kind@
    &&& c.address == addr
    &&& c.disqualified == disqualification(routes, config, iface, addr)
    &&& if c.disqualified is Some {
        c.reasons@.len() == 0 && c.score == 0
    } else {
        &&& reasons_view(c.reasons@) == fired(rule_deltas(routes, config, iface, addr))
        &&& c.score == total(rule_deltas(routes, config, iface, addr))
    }
}

/// The rules applied so far to a candidate: those that fired, their sum, and
/// (as a ghost) every rule applied, worth something or not.
struct Tally {
    reasons: Vec<Reason>,
    score: i32,
    rules: Ghost<Seq<(Seq<char>, int)>>,
}

impl Tally {
    spec fn wf(self) -> bool {
        &&& reasons_view(self.reasons@) == fired(self.rules@)
        &&& self.score == total(self.rules@)
        &&& self.rules@.len() <= 9
        &&& -2000 * self.rules@.len() <= total(self.rules@) <= 2000 * self.rules@.len()
    }

    fn new() -> (t: Tally)
        ensures
            t.wf(),
            t.rules@ == Seq::<(Seq<char>, int)>::empty(),
    {
        let t = Tally { reasons: Vec::new(), score: 0, rules: Ghost(Seq::empty()) };
        assert(reasons_view(t.reasons@) =~= fired(t.rules@));
        t
    }

    /// Apply one rule. Rules worth zero are not recorded, so the list reads
    /// as what actually moved the candidate.
    fn push(&mut self, rule: &'static str, delta: i32)
        requires
            old(self).wf(),
            old(self).rules@.len() < 9,
            -2000 <= delta <= 2000,
        ensures
            final(self).wf(),
            final(self).rules@ == old(self).rules@.push((rule@, delta as int)),
    {
        let ghost rules = self.rules@;
        let ghost before = self.reasons@;
        let ghost next = rules.push((rule@, delta as int));
        assert(next.drop_last() =~= rules);
        if delta != 0 {
            self.reasons.push(Reason { rule, delta });
            assert(reasons_view(self.reasons@) =~= reasons_view(before).push((rule@, delta as int)));
        }
        self.score = self.score + delta;
        self.rules = Ghost(next);
    }
}

/// What the kind of device contributes.
fn kind_points(kind: &InterfaceKind, config: &SelectionConfig) -> (d: i32)
    ensures
        d == kind_delta(kind@, *config),
{
    match kind {
        InterfaceKind::Ethernet => weights::KIND_ETHERNET,
        InterfaceKind::Wireless => weights::KIND_WIRELESS,
        InterfaceKind::Bridge => weights::KIND_BRIDGE,
        InterfaceKind::Container | InterfaceKind::Virtual => {
            if config.allow_container {
                0
            } else {
                weights::KIND_SYNTHETIC
            }
        },
        InterfaceKind::Vpn => {
            if config.allow_vpn {
                weights::KIND_VPN_ALLOWED
            } else {
                weights::KIND_VPN
            }
        },
        InterfaceKind::Loopback | InterfaceKind::Other(_) => 0,
    }
}

/// What the address scope contributes.
fn scope_points(scope: AddressScope) -> (d: i32)
    ensures
        d == scope_delta(scope),
{
    match scope {
        AddressScope::Private | AddressScope::UniqueLocal => weights::SCOPE_PRIVATE,
        AddressScope::Global => weights::SCOPE_GLOBAL,
        AddressScope::Cgnat => weights::SCOPE_CGNAT,
        _ => 0,
    }
}

/// The cost of a route metric.
fn metric_points(metric: u32) -> (d: i32)
    ensures
        d == metric_penalty(metric),
{
    let capped = if metric < weights::METRIC_CAP {
        metric
    } else {
        weights::METRIC_CAP
    };
    let tenth = capped / weights::METRIC_DIVISOR;
    -(tenth as i32)
}

/// The routing rule.
fn apply_route_rules(
    t: &mut Tally,
    state: &NetworkState,
    interface: &Interface,
    address: &Address,
)
    requires
        old(t).wf(),
        old(t).rules@.len() == 0,
    ensures
        final(t).wf(),
        final(t).rules@ == old(t).rules@ + route_rules(state.routes@, *interface, *address),
{
    if state.has_default_route(interface.index, address.family) {
        t.push("default_route", weights::DEFAULT_ROUTE_SAME_FAMILY);
    } else if state.has_any_default_route(interface.index) {
        t.push("default_route_other_family", weights::DEFAULT_ROUTE_OTHER_FAMILY);
    }
    assert(t.rules@ =~= old(t).rules@ + route_rules(state.routes@, *interface, *address));
}

/// The rules on what the pair is.
fn apply_profile_rules(
    t: &mut Tally,
    config: &SelectionConfig,
    interface: &Interface,
    address: &Address,
)
    requires
        old(t).wf(),
        old(t).rules@.len() <= 1,
    ensures
        final(t).wf(),
        final(t).rules@ == old(t).rules@ + profile_rules(*config, *interface, *address),
{
    t.push("interface_kind", kind_points(&interface.kind, config));
    if config.prefer_family.preferred() == Some(address.family) {
        t.push("family_match", weights::FAMILY_MATCH);
    }
    t.push("address_scope", scope_points(address.scope));
    assert(t.rules@ =~= old(t).rules@ + profile_rules(*config, *interface, *address));
}

/// The rules on how traffic leaves.
fn apply_path_rules(
    t: &mut Tally,
    state: &NetworkState,
    config: &SelectionConfig,
    interface: &Interface,
    address: &Address,
)
    requires
        old(t).wf(),
        old(t).rules@.len() <= 4,
    ensures
        final(t).wf(),
        final(t).rules@ == old(t).rules@ + path_rules(state.routes@, *config, *interface, *address),
{
    let family = address.family;
    let index = interface.index;
    if state.gateway_for(index, family).is_some() {
        t.push("has_gateway", weights::HAS_GATEWAY);
    }
    if address.is_temporary {
        t.push("temporary_address", weights::TEMPORARY_ADDRESS);
    }
    if let Some(metric) = state.default_route_metric(index, family) {
        t.push("route_metric", metric_points(metric));
    }
    if any_name_matches(config.prefer_interfaces.as_slice(), interface.name.as_str()) {
        t.push("preferred_interface", weights::PREFERRED_INTERFACE);
    }
    assert(t.rules@ =~= old(t).rules@ + path_rules(state.routes@, *config, *interface, *address));
}

/// Apply the disqualification filters, then the scoring rules, to one pair.
/// The candidate names the pair; a disqualified one scores nothing and
/// records no rule; an eligible one records the rules that moved it, each
/// once and in the order they are applied, and scores their sum.
pub fn evaluate(
    state: &NetworkState,
    config: &SelectionConfig,
    interface: &Interface,
    address: &Address,
) -> (c: Candidate)
    ensures
        evaluated(c, state.routes@, *config, *interface, *address),
        c.interface@ == interface.name@,
        c.interface_index == interface.index,
        c.interface_kind@ == interface.kind@,
        c.address == *address,
        c.disqualified == disqualification(state.routes@, *config, *interface, *address),
        c.disqualified is Some ==> c.score == 0 && c.reasons@.len() == 0,
        c.disqualified is None ==> {
            &&& reasons_view(c.reasons@) == fired(
                rule_deltas(state.routes@, *config, *interface, *address),
            )
            &&& c.score == total(reasons_view(c.reasons@))
            &&& crate::select::rules::in_rule_order(reasons_view(c.reasons@))
            &&& forall|a: int| 0 <= a < c.reasons@.len() ==> (#[trigger] c.reasons@[a]).delta != 0
        },
{
    let c = evaluate_pair(state, config, interface, address);
    proof {
        reveal(evaluated);
        if c.disqualified is None {
            crate::select::rules::law_reasons_in_rule_order(
                c,
                state.routes@,
                *config,
                *interface,
                *address,
            );
        }
    }
    c
}

/// [`evaluate`]'s work, stated as [`evaluated`].
fn evaluate_pair(
    state: &NetworkState,
    config: &SelectionConfig,
    interface: &Interface,
    address: &Address,
) -> (c: Candidate)
    ensures
        evaluated(c, state.routes@, *config, *interface, *address),
{
    reveal(evaluated);
    let disqualified = disqualify(state, config, interface, address);
    if disqualified.is_some() {
        return Candidate {
            interface: interface.name.clone(),
            interface_index: interface.index,
            interface_kind: interface.kind.clone(),
            address: *address,
            score: 0,
            reasons: Vec::new(),
            disqualified,
        };
    }
    let mut t = Tally::new();
    apply_route_rules(&mut t, state, interface, address);
    apply_profile_rules(&mut t, config, interface, address);
    apply_path_rules(&mut t, state, config, interface, address);
    assert(t.rules@ =~= rule_deltas(state.routes@, *config, *interface, *address));
    Candidate {
        interface: interface.name.clone(),
        interface_index: interface.index,
        interface_kind: interface.kind.clone(),
        address: *address,
        score: t.score,
        reasons: t.reasons,
        disqualified: None,
    }
}

// ---------------------------------------------------------------------------
// Ordering
// ---------------------------------------------------------------------------

/// Where an address falls in the order of addresses: every IPv4 address
/// before every IPv6 one, then numerically.
pub open spec fn ip_rank(ip: IpAddr) -> int {
    match ip {
        IpAddr::V4(x) => x as int,
        IpAddr::V6(x) => 0x1_0000_0000 + x as int,
    }
}

/// One more than the largest `ip_rank`.
pub open spec fn ip_span() -> int {
    0x1_0000_0000int + 0x1_0000_0000_0000_0000_0000_0000_0000_0000int
}

/// A candidate's place in the selection order, as a number: eligible ones
/// first, then the higher score, then the lower interface index, then the
/// lower address. Two candidates tie only when all four agree.
pub open spec fn order_rank(c: Candidate) -> int {
    let dq: int = if c.disqualified is Some {
        1
    } else {
        0
    };
    let score_part: int = 0x7fff_ffff - c.score as int;
    ((dq * 0x1_0000_0000 + score_part) * 0x1_0000_0000 + c.interface_index as int) * ip_span()
        + ip_rank(c.address.ip)
}

/// Comparing `hi * k + lo` numbers with `lo` below `k` is comparing the
/// pairs `(hi, lo)` lexicographically.
proof fn lemma_lex(hi1: int, lo1: int, hi2: int, lo2: int, k: int)
    requires
        0 <= lo1 < k,
        0 <= lo2 < k,
    ensures
        (hi1 * k + lo1 < hi2 * k + lo2) <==> (hi1 < hi2 || (hi1 == hi2 && lo1 < lo2)),
        (hi1 * k + lo1 == hi2 * k + lo2) <==> (hi1 == hi2 && lo1 == lo2),
{
    if hi1 < hi2 {
        assert(hi1 * k + k <= hi2 * k) by (nonlinear_arith)
            requires
                hi1 < hi2,
                0 < k,
        ;
    } else if hi2 < hi1 {
        assert(hi2 * k + k <= hi1 * k) by (nonlinear_arith)
            requires
                hi2 < hi1,
                0 < k,
        ;
    }
}

/// The order rank compares the four keys lexicographically.
proof fn lemma_order_rank(a: Candidate, b: Candidate)
    ensures
        order_rank(a) < order_rank(b) <==> ((a.disqualified is None && b.disqualified is Some)
            || ((a.disqualified is None) == (b.disqualified is None) && (a.score > b.score
            || (a.score == b.score && (a.interface_index < b.interface_index
            || (a.interface_index == b.interface_index && a.address.ip.lt(b.address.ip))))))),
        order_rank(a) == order_rank(b) <==> ((a.disqualified is None) == (b.disqualified is None)
            && a.score == b.score && a.interface_index == b.interface_index
            && ip_rank(a.address.ip) == ip_rank(b.address.ip)),
{
    let da: int = if a.disqualified is Some {
        1
    } else {
        0
    };
    let db: int = if b.disqualified is Some {
        1
    } else {
        0
    };
    let sa: int = 0x7fff_ffff - a.score as int;
    let sb: int = 0x7fff_ffff - b.score as int;
    let k: int = 0x1_0000_0000;
    lemma_lex(da, sa, db, sb, k);
    let ha = da * k + sa;
    let hb = db * k + sb;
    lemma_lex(ha, a.interface_index as int, hb, b.interface_index as int, k);
    let ma = ha * k + a.interface_index as int;
    let mb = hb * k + b.interface_index as int;
    lemma_lex(ma, ip_rank(a.address.ip), mb, ip_rank(b.address.ip), ip_span());
}

/// Whether `a` comes before `b` in the selection order.
fn sorts_before(a: &Candidate, b: &Candidate) -> (r: bool)
    ensures
        r == (order_rank(*a) < order_rank(*b)),
{
    proof {
        lemma_order_rank(*a, *b);
    }
    let da = a.disqualified.is_some();
    let db = b.disqualified.is_some();
    if da != db {
        return !da;
    }
    if a.score != b.score {
        return a.score > b.score;
    }
    if a.interface_index != b.interface_index {
        return a.interface_index < b.interface_index;
    }
    a.address.ip.less_than(&b.address.ip)
}

/// A sequence in selection order.
pub open spec fn in_order(s: Seq<Candidate>) -> bool {
    forall|a: int, b: int| 0 <= a < b < s.len() ==> order_rank(s[a]) <= order_rank(s[b])
}

/// Insert `c` after every candidate that orders no later than it, keeping the
/// sequence in order and equal candidates in arrival order.
fn insert_in_order(out: &mut Vec<Candidate>, c: Candidate) -> (pos: usize)
    requires
        in_order(old(out)@),
    ensures
        pos <= old(out)@.len(),
        final(out)@ == old(out)@.insert(pos as int, c),
        forall|a: int| 0 <= a < pos ==> order_rank(#[trigger] old(out)@[a]) <= order_rank(c),
        forall|b: int|
            pos <= b < old(out)@.len() ==> order_rank(c) < order_rank(#[trigger] old(out)@[b]),
        in_order(final(out)@),
{
    let mut pos: usize = 0;
    while pos < out.len() && !sorts_before(&c, &out[pos])
        invariant
            pos <= out@.len(),
            out@ == old(out)@,
            in_order(out@),
            forall|a: int| 0 <= a < pos ==> order_rank(#[trigger] out@[a]) <= order_rank(c),
        decreases out.len() - pos,
    {
        pos = pos + 1;
    }
    proof {
        assert forall|b: int| pos <= b < old(out)@.len() implies order_rank(c) < order_rank(
            #[trigger] old(out)@[b],
        ) by {
            assert(order_rank(old(out)@[pos as int]) <= order_rank(old(out)@[b]));
        }
    }
    out.insert(pos, c);
    proof {
        let s = final(out)@;
        assert forall|a: int, b: int| 0 <= a < b < s.len() implies order_rank(s[a]) <= order_rank(
            s[b],
        ) by {
            let o = old(out)@;
            if b < pos {
                assert(s[a] == o[a] && s[b] == o[b]);
            } else if b == pos {
                assert(s[a] == o[a]);
            } else if a == pos {
                assert(s[b] == o[b - 1]);
            } else if a < pos {
                assert(s[a] == o[a] && s[b] == o[b - 1]);
            } else {
                assert(s[a] == o[a - 1] && s[b] == o[b - 1]);
            }
        }
    }
    pos
}

// ---------------------------------------------------------------------------
// Selection
// ---------------------------------------------------------------------------

/// The address AutoNet chose, with the context a caller needs to use it.
#[derive(Debug, PartialEq, Eq)]
pub struct SelectedAddress {
    /// The address itself.
    pub ip: IpAddr,
    /// Its family.
    pub family: Family,
    /// Netmask length in bits.
    pub prefix_len: u8,
    /// Where it sits in the address space.
    pub scope: AddressScope,
    /// Name of the interface it is bound to.
    pub interface: String,
    /// Kernel index of that interface.
    pub interface_index: u32,
    /// What sort of device that interface is.
    pub interface_kind: InterfaceKind,
    /// The gateway for this family on that interface, if any.
    pub gateway: Option<IpAddr>,
    /// The score that won.
    pub score: i32,
}

/// `{scheme}://{host}:{port}`.
pub open spec fn url_text(scheme: Seq<char>, host: Seq<char>, port: u16) -> Seq<char> {
    scheme + "://"@ + host + seq![':'] + decimal(port as nat)
}

impl Clone for SelectedAddress {
    fn clone(&self) -> (r: Self)
        ensures
            r == *self,
    {
        SelectedAddress {
            ip: self.ip,
            family: self.family,
            prefix_len: self.prefix_len,
            scope: self.scope,
            interface: self.interface.clone(),
            interface_index: self.interface_index,
            interface_kind: self.interface_kind.clone(),
            gateway: self.gateway,
            score: self.score,
        }
    }
}

impl SelectedAddress {
    /// The address as it should appear in a URL authority, IPv6 bracketed.
    pub fn url_host(&self) -> (s: String)
        ensures
            s@ == self.ip.url_text(),
    {
        self.ip.url_host()
    }

    /// A URL another device on the same network can actually open. This, not
    /// a bind address, is AutoNet's whole purpose: `0.0.0.0:3000` is a fine
    /// thing to listen on and a useless thing to type into a phone.
    pub fn url(&self, port: u16, scheme: &str) -> (s: String)
        ensures
            s@ == url_text(scheme@, self.ip.url_text(), port),
    {
        let mut s = crate::text::owned(scheme);
        push_str(&mut s, "://");
        let host = self.url_host();
        push_str(&mut s, host.as_str());
        push_char(&mut s, ':');
        push_numeral(&mut s, port as u64, 10);
        s
    }
}

/// The full result of a selection pass: the winner, and every candidate that
/// was considered.
#[derive(Debug, PartialEq, Eq)]
pub struct Selection {
    /// The chosen address, if any survived.
    pub selected: Option<SelectedAddress>,
    /// All candidates: eligible ones first in descending score order,
    /// disqualified ones after.
    pub candidates: Vec<Candidate>,
}

/// A position of an address on the machine: the interface's position, then
/// the address's position on it.
pub open spec fn is_pair(interfaces: Seq<Interface>, p: (int, int)) -> bool {
    0 <= p.0 < interfaces.len() && 0 <= p.1 < interfaces[p.0].addresses@.len()
}

/// The order in which the machine lists its addresses.
pub open spec fn pair_lt(a: (int, int), b: (int, int)) -> bool {
    a.0 < b.0 || (a.0 == b.0 && a.1 < b.1)
}

/// `cands` holds one candidate for every address on the machine, the `k`th
/// evaluated from the address at `origin[k]`, in selection order, and
/// candidates that tie in that order in the order the machine lists them.
pub open spec fn ranked(
    cands: Seq<Candidate>,
    origin: Seq<(int, int)>,
    state: NetworkState,
    config: SelectionConfig,
) -> bool {
    let ifaces = state.interfaces@;
    &&& origin.len() == cands.len()
    &&& forall|k: int|
        0 <= k < cands.len() ==> is_pair(ifaces, #[trigger] origin[k]) && evaluated(
            cands[k],
            state.routes@,
            config,
            ifaces[origin[k].0],
            ifaces[origin[k].0].addresses@[origin[k].1],
        )
    &&& forall|p: (int, int)| is_pair(ifaces, p) ==> exists|k: int| 0 <= k < origin.len() && #[trigger] origin[k] == p
    &&& forall|a: int, b: int| 0 <= a < b < origin.len() ==> origin[a] != origin[b]
    &&& in_order(cands)
    &&& forall|a: int, b: int|
        0 <= a < b < cands.len() && order_rank(cands[a]) == order_rank(cands[b]) ==> pair_lt(
            origin[a],
            origin[b],
        )
}

/// The selected address describes candidate `c`, with the gateway its
/// interface uses for its family.
pub open spec fn describes(sel: SelectedAddress, c: Candidate, routes: Seq<Route>) -> bool {
    &&& sel.ip == c.address.ip
    &&& sel.family == c.address.family
    &&& sel.prefix_len == c.address.prefix_len
    &&& sel.scope == c.address.scope
    &&& sel.interface@ == c.interface@
    &&& sel.interface_index == c.interface_index
    &&& sel.interface_kind@ == c.interface_kind@
    &&& sel.gateway == spec_gateway_for(routes, c.interface_index, c.address.family)
    &&& sel.score == c.score
}

/// The winner is the first eligible candidate; nothing is selected when no
/// candidate is eligible.
pub open spec fn selected_from(sel: Option<SelectedAddress>, cands: Seq<Candidate>, routes: Seq<Route>) -> bool {
    match sel {
        None => forall|k: int| 0 <= k < cands.len() ==> (#[trigger] cands[k]).disqualified is Some,
        Some(s) => exists|k: int|
            0 <= k < cands.len() && (#[trigger] cands[k]).disqualified is None && (forall|j: int|
                0 <= j < k ==> (#[trigger] cands[j]).disqualified is Some) && describes(s, cands[k], routes),
    }
}

/// The winner, from the first eligible candidate.
fn choose_selected(state: &NetworkState, cands: &Vec<Candidate>) -> (sel: Option<SelectedAddress>)
    ensures
        selected_from(sel, cands@, state.routes@),
{
    let mut k: usize = 0;
    while k < cands.len()
        invariant
            k <= cands@.len(),
            forall|j: int| 0 <= j < k ==> (#[trigger] cands@[j]).disqualified is Some,
        decreases cands.len() - k,
    {
        let c = &cands[k];
        if c.is_eligible() {
            let s = SelectedAddress {
                ip: c.address.ip,
                family: c.address.family,
                prefix_len: c.address.prefix_len,
                scope: c.address.scope,
                interface: c.interface.clone(),
                interface_index: c.interface_index,
                interface_kind: c.interface_kind.clone(),
                gateway: state.gateway_for(c.interface_index, c.address.family),
                score: c.score,
            };
            assert(describes(s, cands@[k as int], state.routes@));
            return Some(s);
        }
        k = k + 1;
    }
    None
}

/// `ranked`, for the addresses the machine lists before `bound`.
pub open spec fn ranked_before(
    cands: Seq<Candidate>,
    origin: Seq<(int, int)>,
    state: NetworkState,
    config: SelectionConfig,
    bound: (int, int),
) -> bool {
    let ifaces = state.interfaces@;
    &&& origin.len() == cands.len()
    &&& forall|k: int|
        0 <= k < cands.len() ==> is_pair(ifaces, #[trigger] origin[k]) && pair_lt(origin[k], bound)
            && evaluated(
            cands[k],
            state.routes@,
            config,
            ifaces[origin[k].0],
            ifaces[origin[k].0].addresses@[origin[k].1],
        )
    &&& forall|p: (int, int)|
        is_pair(ifaces, p) && pair_lt(p, bound) ==> exists|k: int|
            0 <= k < origin.len() && #[trigger] origin[k] == p
    &&& forall|a: int, b: int| 0 <= a < b < origin.len() ==> origin[a] != origin[b]
    &&& in_order(cands)
    &&& forall|a: int, b: int|
        0 <= a < b < cands.len() && order_rank(cands[a]) == order_rank(cands[b]) ==> pair_lt(
            origin[a],
            origin[b],
        )
}

/// Add the candidate for the address at `here`, the next one the machine
/// lists, in its place in the order.
#[verifier::spinoff_prover]
#[verifier::rlimit(40)]
fn add_in_order(
    out: &mut Vec<Candidate>,
    Ghost(origin): Ghost<Seq<(int, int)>>,
    c: Candidate,
    Ghost(here): Ghost<(int, int)>,
    Ghost(state): Ghost<NetworkState>,
    Ghost(config): Ghost<SelectionConfig>,
) -> (next: Ghost<Seq<(int, int)>>)
    requires
        ranked_before(old(out)@, origin, state, config, here),
        is_pair(state.interfaces@, here),
        evaluated(
            c,
            state.routes@,
            config,
            state.interfaces@[here.0],
            state.interfaces@[here.0].addresses@[here.1],
        ),
    ensures
        ranked_before(final(out)@, next@, state, config, (here.0, here.1 + 1)),
{
    let ghost ifaces = state.interfaces@;
    let ghost old_out = out@;
    let ghost old_origin = origin;
    let pos = insert_in_order(out, c);
    let ghost origin = old_origin.insert(pos as int, here);
    proof {
        let n = out@;
        let bound = (here.0, here.1 + 1);
        assert forall|k: int| 0 <= k < n.len() implies is_pair(ifaces, #[trigger] origin[k])
            && pair_lt(origin[k], bound) && evaluated(
            n[k],
            state.routes@,
            config,
            ifaces[origin[k].0],
            ifaces[origin[k].0].addresses@[origin[k].1],
        ) by {
            if k < pos {
                assert(origin[k] == old_origin[k] && n[k] == old_out[k]);
            } else if k > pos {
                assert(origin[k] == old_origin[k - 1] && n[k] == old_out[k - 1]);
            }
        }
        assert forall|p: (int, int)| is_pair(ifaces, p) && pair_lt(p, bound) implies exists|k: int|
            0 <= k < origin.len() && #[trigger] origin[k] == p by {
            if p == here {
                assert(origin[pos as int] == p);
            } else {
                assert(pair_lt(p, here));
                let k0 = choose|k: int| 0 <= k < old_origin.len() && #[trigger] old_origin[k] == p;
                if k0 < pos {
                    assert(origin[k0] == p);
                } else {
                    assert(origin[k0 + 1] == p);
                }
            }
        }
        assert forall|a: int, b: int| 0 <= a < b < origin.len() implies origin[a] != origin[b] by {
            if a == pos {
                assert(origin[b] == old_origin[b - 1]);
            } else if b == pos {
                assert(origin[a] == old_origin[a]);
            } else {
                let oa = if a < pos {
                    a
                } else {
                    a - 1
                };
                let ob = if b < pos {
                    b
                } else {
                    b - 1
                };
                assert(origin[a] == old_origin[oa] && origin[b] == old_origin[ob]);
            }
        }
        assert forall|a: int, b: int|
            0 <= a < b < n.len() && order_rank(n[a]) == order_rank(n[b]) implies pair_lt(
            origin[a],
            origin[b],
        ) by {
            if a == pos {
                assert(n[b] == old_out[b - 1]);
            } else if b == pos {
                assert(n[a] == old_out[a] && origin[a] == old_origin[a]);
            } else {
                let oa = if a < pos {
                    a
                } else {
                    a - 1
                };
                let ob = if b < pos {
                    b
                } else {
                    b - 1
                };
                assert(n[a] == old_out[oa] && n[b] == old_out[ob]);
                assert(origin[a] == old_origin[oa] && origin[b] == old_origin[ob]);
            }
        }
    }
    Ghost(origin)
}

/// Every address of an interface seen: move the bound on to the next one.
proof fn lemma_next_interface(
    cands: Seq<Candidate>,
    origin: Seq<(int, int)>,
    state: NetworkState,
    config: SelectionConfig,
    i: int,
)
    requires
        0 <= i < state.interfaces@.len(),
        ranked_before(
            cands,
            origin,
            state,
            config,
            (i, state.interfaces@[i].addresses@.len() as int),
        ),
    ensures
        ranked_before(cands, origin, state, config, (i + 1, 0)),
{
    let ifaces = state.interfaces@;
    let bound = (i, ifaces[i].addresses@.len() as int);
    assert forall|p: (int, int)| is_pair(ifaces, p) && pair_lt(p, (i + 1, 0)) implies exists|k: int|
        0 <= k < origin.len() && #[trigger] origin[k] == p by {
        assert(pair_lt(p, bound));
    }
}

/// Score every address on the machine and pick the best one.
///
/// Never fails: a machine with nothing usable yields a [`Selection`] whose
/// `selected` is `None` and whose candidates explain why. Use
/// [`select_address`] to have that turned into an error.
pub fn select(state: &NetworkState, config: &SelectionConfig) -> (s: Selection)
    ensures
        exists|origin: Seq<(int, int)>| ranked(s.candidates@, origin, *state, *config),
        selected_from(s.selected, s.candidates@, state.routes@),
{
    let ghost ifaces = state.interfaces@;
    let mut out: Vec<Candidate> = Vec::new();
    let ghost mut origin: Seq<(int, int)> = Seq::empty();
    let mut i: usize = 0;
    while i < state.interfaces.len()
        invariant
            ifaces == state.interfaces@,
            i <= ifaces.len(),
            ranked_before(out@, origin, *state, *config, (i as int, 0)),
        decreases ifaces.len() - i,
    {
        let interface = &state.interfaces[i];
        let mut j: usize = 0;
        while j < interface.addresses.len()
            invariant
                ifaces == state.interfaces@,
                i < ifaces.len(),
                *interface == ifaces[i as int],
                j <= interface.addresses@.len(),
                ranked_before(out@, origin, *state, *config, (i as int, j as int)),
            decreases interface.addresses@.len() - j,
        {
            let c = evaluate(state, config, interface, &interface.addresses[j]);
            let next = add_in_order(
                &mut out,
                Ghost(origin),
                c,
                Ghost((i as int, j as int)),
                Ghost(*state),
                Ghost(*config),
            );
            proof {
                origin = next@;
            }
            j = j + 1;
        }
        proof {
            lemma_next_interface(out@, origin, *state, *config, i as int);
        }
        i = i + 1;
    }
    let selected = choose_selected(state, &out);
    proof {
        let bound = (ifaces.len() as int, 0int);
        assert forall|p: (int, int)| is_pair(ifaces, p) implies exists|k: int|
            0 <= k < origin.len() && #[trigger] origin[k] == p by {
            assert(pair_lt(p, bound));
        }
        assert(ranked(out@, origin, *state, *config));
    }
    let s = Selection { selected, candidates: out };
    assert(ranked(s.candidates@, origin, *state, *config));
    s
}

// ---------------------------------------------------------------------------
// Explaining a failure
// ---------------------------------------------------------------------------

/// A disqualification that says the user narrowed the search, not that the
/// address was unusable.
pub open spec fn narrowing(d: Disqualification) -> bool {
    d is NotRequiredInterface || d is ExcludedByConfig
}

/// The disqualifications that say something about the addresses themselves,
/// in candidate order.
pub open spec fn considered(cands: Seq<Candidate>) -> Seq<Disqualification>
    decreases cands.len(),
{
    if cands.len() == 0 {
        Seq::empty()
    } else if cands.last().disqualified matches Some(d) && !narrowing(d) {
        considered(cands.drop_last()).push(cands.last().disqualified->0)
    } else {
        considered(cands.drop_last())
    }
}

/// Whether some candidate was set aside for not being the required interface.
pub open spec fn narrowed_to_missing(cands: Seq<Candidate>) -> bool {
    exists|k: int|
        0 <= k < cands.len() && (#[trigger] cands[k]).disqualified == Some(
            Disqualification::NotRequiredInterface,
        )
}

/// Whether some candidate is of a family the preference admits.
pub open spec fn has_in_family(cands: Seq<Candidate>, pref: FamilyPreference) -> bool {
    exists|k: int| 0 <= k < cands.len() && pref.spec_admits((#[trigger] cands[k]).address.family)
}

/// Whether some candidate of an admitted family could be reached by a peer.
pub open spec fn reachable_in_family(cands: Seq<Candidate>, pref: FamilyPreference) -> bool {
    exists|k: int|
        0 <= k < cands.len() && pref.spec_admits((#[trigger] cands[k]).address.family)
            && cands[k].address.scope.spec_reachable()
}

/// Whether some candidate of an admitted family has scope `scope`.
pub open spec fn scope_present(cands: Seq<Candidate>, pref: FamilyPreference, scope: AddressScope) -> bool {
    exists|k: int|
        0 <= k < cands.len() && pref.spec_admits((#[trigger] cands[k]).address.family)
            && cands[k].address.scope == scope
}

/// Every scope, in the alphabetical order of its name.
pub open spec fn scopes_by_name() -> Seq<AddressScope> {
    seq![
        AddressScope::Cgnat,
        AddressScope::Global,
        AddressScope::LinkLocal,
        AddressScope::Loopback,
        AddressScope::Private,
        AddressScope::Special,
        AddressScope::UniqueLocal,
    ]
}

/// The names of the scopes among `list` that are present, in list order.
pub open spec fn names_present(list: Seq<AddressScope>, cands: Seq<Candidate>, pref: FamilyPreference) -> Seq<Seq<char>>
    decreases list.len(),
{
    if list.len() == 0 {
        Seq::empty()
    } else if scope_present(cands, pref, list.last()) {
        names_present(list.drop_last(), cands, pref).push(list.last().text())
    } else {
        names_present(list.drop_last(), cands, pref)
    }
}

/// `a, b, c`.
pub open spec fn comma_joined(names: Seq<Seq<char>>) -> Seq<char>
    decreases names.len(),
{
    if names.len() == 0 {
        Seq::empty()
    } else if names.len() == 1 {
        names[0]
    } else {
        comma_joined(names.drop_last()) + ", "@ + names.last()
    }
}

/// `a, b and c`; `nothing` for no names at all.
pub open spec fn and_list(names: Seq<Seq<char>>) -> Seq<char> {
    if names.len() == 0 {
        "nothing"@
    } else if names.len() == 1 {
        names[0]
    } else {
        comma_joined(names.drop_last()) + " and "@ + names.last()
    }
}

/// `ipv4 `, `ipv6 `, or nothing when no family is preferred.
pub open spec fn family_word(pref: FamilyPreference) -> Seq<char> {
    match pref.spec_preferred() {
        Some(f) => f.text() + " "@,
        None => Seq::empty(),
    }
}

/// How many times `d` occurs in `s`.
pub open spec fn count_of(s: Seq<Disqualification>, d: Disqualification) -> nat
    decreases s.len(),
{
    if s.len() == 0 {
        0
    } else {
        count_of(s.drop_last(), d) + if s.last() == d {
            1nat
        } else {
            0nat
        }
    }
}

/// Where `d` first occurs in `s`; the length of `s` when it does not.
pub open spec fn first_pos(s: Seq<Disqualification>, d: Disqualification) -> int
    decreases s.len(),
{
    if s.len() == 0 {
        0
    } else if s[0] == d {
        0
    } else {
        1 + first_pos(s.drop_first(), d)
    }
}

/// `d` occurs in `s` at least as often as anything else, and of those that
/// occur as often, its first occurrence comes last.
pub open spec fn is_modal(s: Seq<Disqualification>, d: Disqualification) -> bool {
    &&& s.contains(d)
    &&& forall|e: Disqualification|
        #![trigger count_of(s, e)]
        s.contains(e) ==> count_of(s, e) < count_of(s, d) || (count_of(s, e) == count_of(s, d)
            && first_pos(s, e) <= first_pos(s, d))
}

/// The most common disqualification; of several equally common, the one
/// first met latest, as a maximum taken over the reasons in the order they
/// were first met keeps the last of equals.
pub open spec fn modal(s: Seq<Disqualification>) -> Disqualification {
    choose|d: Disqualification| is_modal(s, d)
}

/// What `failure_reason` says: nothing to consider; the user's own narrowing;
/// no address of the wanted family another device could reach, naming the
/// scopes that were found; or how many were rejected and the most common
/// reason.
pub open spec fn failure_text(cands: Seq<Candidate>, config: SelectionConfig) -> Seq<char> {
    let pref = config.prefer_family;
    let c = considered(cands);
    if cands.len() == 0 {
        "no interfaces reported any addresses"@
    } else if c.len() == 0 {
        if narrowed_to_missing(cands) {
            "the requested interface has no usable addresses"@
        } else {
            "every interface was excluded by configuration"@
        }
    } else if has_in_family(cands, pref) && !reachable_in_family(cands, pref) {
        "this machine has no "@ + family_word(pref) + "address another device could reach (only "@
            + and_list(names_present(scopes_by_name(), cands, pref)) + ")"@
    } else {
        "all "@ + decimal(c.len()) + " candidate address(es) were rejected; most common reason: "@
            + modal(c).text()
    }
}

/// The first position of `d` is the first index holding it.
proof fn lemma_first_pos(s: Seq<Disqualification>, d: Disqualification, i: int)
    requires
        0 <= i <= s.len(),
        forall|j: int| 0 <= j < i ==> s[j] != d,
        i == s.len() || s[i] == d,
    ensures
        first_pos(s, d) == i,
    decreases s.len(),
{
    if s.len() > 0 && i > 0 {
        lemma_first_pos(s.drop_first(), d, i - 1);
    }
}

/// Where an occurring element first occurs holds that element.
proof fn lemma_first_pos_holds(s: Seq<Disqualification>, d: Disqualification)
    requires
        s.contains(d),
    ensures
        0 <= first_pos(s, d) < s.len(),
        s[first_pos(s, d)] == d,
        forall|j: int| 0 <= j < first_pos(s, d) ==> s[j] != d,
    decreases s.len(),
{
    if s[0] != d {
        let k = choose|k: int| 0 <= k < s.len() && s[k] == d;
        assert(s.drop_first()[k - 1] == d);
        lemma_first_pos_holds(s.drop_first(), d);
        assert forall|j: int| 0 <= j < first_pos(s, d) implies s[j] != d by {
            if j > 0 {
                assert(s[j] == s.drop_first()[j - 1]);
            }
        }
    }
}

/// At most one disqualification is the modal one.
proof fn lemma_modal_unique(s: Seq<Disqualification>, d1: Disqualification, d2: Disqualification)
    requires
        is_modal(s, d1),
        is_modal(s, d2),
    ensures
        d1 == d2,
{
    assert(count_of(s, d1) == count_of(s, d2));
    lemma_first_pos_holds(s, d1);
    lemma_first_pos_holds(s, d2);
}

/// How many times `d` occurs in `s`.
fn count_in(s: &Vec<Disqualification>, d: Disqualification) -> (n: usize)
    ensures
        n == count_of(s@, d),
{
    let mut n: usize = 0;
    let mut i: usize = 0;
    while i < s.len()
        invariant
            i <= s@.len(),
            n == count_of(s@.subrange(0, i as int), d),
            n <= i,
        decreases s.len() - i,
    {
        assert(s@.subrange(0, i + 1).drop_last() =~= s@.subrange(0, i as int));
        if s[i] == d {
            n = n + 1;
        }
        i = i + 1;
    }
    assert(s@.subrange(0, s.len() as int) =~= s@);
    n
}

/// Where `d` first occurs in `s`.
fn first_in(s: &Vec<Disqualification>, d: Disqualification) -> (p: usize)
    ensures
        p == first_pos(s@, d),
{
    let mut i: usize = 0;
    while i < s.len() && s[i] != d
        invariant
            i <= s@.len(),
            forall|j: int| 0 <= j < i ==> s@[j] != d,
        decreases s.len() - i,
    {
        i = i + 1;
    }
    proof {
        lemma_first_pos(s@, d, i as int);
    }
    i
}

/// The most common disqualification in `s`; of several equally common, the
/// one first met latest, so that the message reads the same run to run.
fn most_common(s: &Vec<Disqualification>) -> (d: Disqualification)
    requires
        s@.len() > 0,
    ensures
        d == modal(s@),
{
    let mut best = s[0];
    let mut best_count = count_in(s, best);
    let mut best_first = first_in(s, best);
    let mut i: usize = 1;
    assert(s@.contains(best));
    proof {
        lemma_first_pos(s@, best, 0);
    }
    while i < s.len()
        invariant
            1 <= i <= s@.len(),
            s@.contains(best),
            best_count == count_of(s@, best),
            best_first == first_pos(s@, best),
            forall|j: int|
                0 <= j < i ==> count_of(s@, #[trigger] s@[j]) < best_count || (count_of(s@, s@[j])
                    == best_count && first_pos(s@, s@[j]) <= best_first),
        decreases s.len() - i,
    {
        let v = s[i];
        let c = count_in(s, v);
        let f = first_in(s, v);
        if c > best_count || (c == best_count && f > best_first) {
            best = v;
            best_count = c;
            best_first = f;
            assert(s@.contains(best));
        }
        i = i + 1;
    }
    proof {
        assert forall|e: Disqualification| s@.contains(e) implies count_of(s@, e) < count_of(s@, best) || (
        count_of(s@, e) == count_of(s@, best) && first_pos(s@, e) <= first_pos(s@, best)) by {
            let j = choose|j: int| 0 <= j < s@.len() && s@[j] == e;
            assert(s@[j] == e);
        }
        assert(is_modal(s@, best));
        let m = modal(s@);
        assert(is_modal(s@, m));
        lemma_modal_unique(s@, best, m);
    }
    best
}

/// Append `a, b and c` (or `nothing`) to `out`.
fn push_and_list(out: &mut String, names: &Vec<&'static str>)
    ensures
        final(out)@ == old(out)@ + and_list(names@.map_values(|n: &'static str| n@)),
{
    let ghost views = names@.map_values(|n: &'static str| n@);
    let n = names.len();
    if n == 0 {
        push_str(out, "nothing");
        return;
    }
    if n == 1 {
        push_str(out, names[0]);
        return;
    }
    let ghost start = out@;
    push_str(out, names[0]);
    let mut i: usize = 1;
    assert(views.subrange(0, 1) =~= seq![views[0]]);
    while i < n - 1
        invariant
            n == names@.len(),
            n >= 2,
            1 <= i <= n - 1,
            views == names@.map_values(|n: &'static str| n@),
            out@ == start + comma_joined(views.subrange(0, i as int)),
        decreases n - 1 - i,
    {
        push_str(out, ", ");
        push_str(out, names[i]);
        assert(views.subrange(0, i + 1).drop_last() =~= views.subrange(0, i as int));
        i = i + 1;
    }
    push_str(out, " and ");
    push_str(out, names[n - 1]);
    assert(views.drop_last() =~= views.subrange(0, n - 1));
}

impl Selection {
    /// Candidates still in the running, best first.
    pub fn eligible(&self) -> (v: Vec<&Candidate>)
        ensures
            v@.map_values(|c: &Candidate| *c) == self.candidates@.filter(
                |c: Candidate| c.disqualified is None,
            ),
    {
        let mut v: Vec<&Candidate> = Vec::new();
        let mut i: usize = 0;
        while i < self.candidates.len()
            invariant
                i <= self.candidates@.len(),
                v@.map_values(|c: &Candidate| *c) == self.candidates@.subrange(0, i as int).filter(
                    |c: Candidate| c.disqualified is None,
                ),
            decreases self.candidates.len() - i,
        {
            let c = &self.candidates[i];
            proof {
                assert(self.candidates@.subrange(0, i + 1).drop_last() =~= self.candidates@.subrange(
                    0,
                    i as int,
                ));
                reveal_with_fuel(Seq::filter, 1);
            }
            let ghost before = v@;
            if c.is_eligible() {
                v.push(c);
                assert(v@.map_values(|c: &Candidate| *c) =~= before.map_values(|c: &Candidate| *c).push(*c));
            }
            i = i + 1;
        }
        assert(self.candidates@.subrange(0, self.candidates.len() as int) =~= self.candidates@);
        v
    }

    /// A human-readable explanation of why nothing was selected.
    ///
    /// `NotRequiredInterface` and `ExcludedByConfig` mean the user narrowed
    /// the search, so they are set aside and consulted only when nothing else
    /// was rejected. When no address of the wanted family could be reached by
    /// a peer, that is the story, whatever the tally says; the scopes found
    /// are listed alphabetically. Otherwise the most common reason is given.
    pub fn failure_reason(&self, config: &SelectionConfig) -> (m: String)
        ensures
            m@ == failure_text(self.candidates@, *config),
    {
        let cands = &self.candidates;
        if cands.len() == 0 {
            return crate::text::owned("no interfaces reported any addresses");
        }
        let pref = config.prefer_family;
        let mut considered_v: Vec<Disqualification> = Vec::new();
        let mut not_required = false;
        let mut in_family = false;
        let mut reachable = false;
        let mut i: usize = 0;
        while i < cands.len()
            invariant
                i <= cands@.len(),
                considered_v@ == considered(cands@.subrange(0, i as int)),
                not_required == exists|k: int|
                    0 <= k < i && (#[trigger] cands@[k]).disqualified == Some(
                        Disqualification::NotRequiredInterface,
                    ),
                in_family == exists|k: int| 0 <= k < i && pref.spec_admits((#[trigger] cands@[k]).address.family),
                reachable == exists|k: int|
                    0 <= k < i && pref.spec_admits((#[trigger] cands@[k]).address.family)
                        && cands@[k].address.scope.spec_reachable(),
                pref == config.prefer_family,
            decreases cands.len() - i,
        {
            let c = &cands[i];
            assert(cands@.subrange(0, i + 1).drop_last() =~= cands@.subrange(0, i as int));
            match c.disqualified {
                Some(d) => {
                    if !matches!(d, Disqualification::NotRequiredInterface | Disqualification::ExcludedByConfig) {
                        considered_v.push(d);
                    }
                    if matches!(d, Disqualification::NotRequiredInterface) {
                        not_required = true;
                    }
                },
                None => {},
            }
            if pref.admits(c.address.family) {
                in_family = true;
                if c.address.scope.is_reachable_by_peers() {
                    reachable = true;
                }
            }
            i = i + 1;
        }
        assert(cands@.subrange(0, cands.len() as int) =~= cands@);
        if considered_v.len() == 0 {
            if not_required {
                return crate::text::owned("the requested interface has no usable addresses");
            } else {
                return crate::text::owned("every interface was excluded by configuration");
            }
        }
        let mut m = String::new();
        if in_family && !reachable {
            push_str(&mut m, "this machine has no ");
            match pref.preferred() {
                Some(f) => {
                    push_str(&mut m, f.as_str());
                    push_str(&mut m, " ");
                },
                None => {},
            }
            push_str(&mut m, "address another device could reach (only ");
            let names = self.scopes_present(pref);
            push_and_list(&mut m, &names);
            push_str(&mut m, ")");
            return m;
        }
        push_str(&mut m, "all ");
        push_numeral(&mut m, considered_v.len() as u64, 10);
        push_str(&mut m, " candidate address(es) were rejected; most common reason: ");
        let d = most_common(&considered_v);
        push_str(&mut m, d.as_str());
        m
    }

    /// The names of the scopes present among the candidates of an admitted
    /// family, in alphabetical order, each once.
    fn scopes_present(&self, pref: FamilyPreference) -> (v: Vec<&'static str>)
        ensures
            v@.map_values(|n: &'static str| n@) == names_present(scopes_by_name(), self.candidates@, pref),
    {
        let order: [AddressScope; 7] = [
            AddressScope::Cgnat,
            AddressScope::Global,
            AddressScope::LinkLocal,
            AddressScope::Loopback,
            AddressScope::Private,
            AddressScope::Special,
            AddressScope::UniqueLocal,
        ];
        assert(order@ =~= scopes_by_name());
        let mut v: Vec<&'static str> = Vec::new();
        let mut i: usize = 0;
        while i < 7
            invariant
                i <= 7,
                order@ == scopes_by_name(),
                v@.map_values(|n: &'static str| n@) == names_present(order@.subrange(0, i as int), self.candidates@, pref),
            decreases 7 - i,
        {
            let scope = order[i];
            assert(order@.subrange(0, i + 1).drop_last() =~= order@.subrange(0, i as int));
            let mut found = false;
            let mut k: usize = 0;
            while k < self.candidates.len()
                invariant
                    k <= self.candidates@.len(),
                    found == exists|j: int|
                        0 <= j < k && pref.spec_admits((#[trigger] self.candidates@[j]).address.family)
                            && self.candidates@[j].address.scope == scope,
                decreases self.candidates.len() - k,
            {
                let c = &self.candidates[k];
                if pref.admits(c.address.family) && c.address.scope == scope {
                    found = true;
                }
                k = k + 1;
            }
            let ghost before = v@;
            if found {
                v.push(scope.as_str());
                assert(v@.map_values(|n: &'static str| n@) =~= before.map_values(|n: &'static str| n@).push(scope.text()));
            }
            i = i + 1;
        }
        assert(order@.subrange(0, 7) =~= order@);
        v
    }
}

/// Select an address, treating "nothing usable" as an error that says why.
pub fn select_address(state: &NetworkState, config: &SelectionConfig) -> (r: Result<
    SelectedAddress,
    CoreError,
>)
    ensures
        exists|s: Selection|
            #![trigger s.selected]
            (exists|origin: Seq<(int, int)>| ranked(s.candidates@, origin, *state, *config))
                && selected_from(s.selected, s.candidates@, state.routes@) && match s.selected {
                Some(sel) => r == Ok::<SelectedAddress, CoreError>(sel),
                None => r matches Err(CoreError::NoAddressFound { reason }) && reason@
                    == failure_text(s.candidates@, *config),
            },
{
    let selection = select(state, config);
    let ghost snapshot = selection;
    let r = match selection.selected {
        Some(sel) => Ok(sel),
        None => Err(CoreError::NoAddressFound { reason: selection.failure_reason(config) }),
    };
    assert(snapshot.selected == snapshot.selected);
    r
}

// ---------------------------------------------------------------------------
// Laws
// ---------------------------------------------------------------------------

/// A candidate's score is the sum of the contributions of the rules recorded
/// on it; a disqualified candidate records no rule and scores nothing.
pub proof fn law_score_is_sum_of_reasons(
    c: Candidate,
    routes: Seq<Route>,
    config: SelectionConfig,
    iface: Interface,
    addr: Address,
)
    requires
        evaluated(c, routes, config, iface, addr),
    ensures
        c.score == total(reasons_view(c.reasons@)),
        c.disqualified is Some ==> c.reasons@.len() == 0 && c.score == 0,
{
    reveal(evaluated);
    if c.disqualified is None {
        lemma_fired_total(rule_deltas(routes, config, iface, addr));
    } else {
        assert(reasons_view(c.reasons@) =~= Seq::<(Seq<char>, int)>::empty());
    }
}

/// Every eligible candidate comes before every disqualified one, and eligible
/// ones come in descending score order.
pub proof fn law_eligible_first_by_score(cands: Seq<Candidate>, a: int, b: int)
    requires
        in_order(cands),
        0 <= a < b < cands.len(),
    ensures
        cands[b].disqualified is None ==> cands[a].disqualified is None,
        cands[a].disqualified is None && cands[b].disqualified is None ==> cands[a].score
            >= cands[b].score,
{
    lemma_order_rank(cands[a], cands[b]);
    lemma_order_rank(cands[b], cands[a]);
}

/// Something is selected exactly when some candidate is eligible, and then
/// it is the first candidate, described with the gateway of its interface's
/// best default route for its family.
pub proof fn law_selected_iff_some_eligible(
    cands: Seq<Candidate>,
    routes: Seq<Route>,
    sel: Option<SelectedAddress>,
)
    requires
        in_order(cands),
        selected_from(sel, cands, routes),
    ensures
        sel is Some <==> exists|k: int| 0 <= k < cands.len() && (#[trigger] cands[k]).disqualified is None,
        sel matches Some(s) ==> cands.len() > 0 && cands[0].disqualified is None && describes(
            s,
            cands[0],
            routes,
        ),
{
    if let Some(s) = sel {
        let k = choose|k: int|
            0 <= k < cands.len() && (#[trigger] cands[k]).disqualified is None && (forall|i: int|
                0 <= i < k ==> (#[trigger] cands[i]).disqualified is Some) && describes(s, cands[k], routes);
        if k > 0 {
            law_eligible_first_by_score(cands, 0, k);
        }
    }
}

/// The winner is the first candidate in the list, is eligible, and no eligible
/// candidate outscores it; among equal scores it has the lowest interface
/// index, and among those the lowest address.
pub proof fn law_winner_is_best(
    cands: Seq<Candidate>,
    routes: Seq<Route>,
    sel: SelectedAddress,
    j: int,
)
    requires
        in_order(cands),
        selected_from(Some(sel), cands, routes),
        0 <= j < cands.len(),
        cands[j].disqualified is None,
    ensures
        cands[0].disqualified is None,
        describes(sel, cands[0], routes),
        cands[j].score <= sel.score,
        cands[j].score == sel.score ==> sel.interface_index <= cands[j].interface_index,
        cands[j].score == sel.score && sel.interface_index == cands[j].interface_index
            ==> !cands[j].address.ip.lt(sel.ip),
{
    let k = choose|k: int|
        0 <= k < cands.len() && (#[trigger] cands[k]).disqualified is None && (forall|i: int|
            0 <= i < k ==> (#[trigger] cands[i]).disqualified is Some) && describes(sel, cands[k], routes);
    assert(k == 0) by {
        if k > 0 {
            law_eligible_first_by_score(cands, 0, k);
        }
    }
    if j > 0 {
        lemma_order_rank(cands[0], cands[j]);
        lemma_order_rank(cands[j], cands[0]);
    }
}

} // verus!
