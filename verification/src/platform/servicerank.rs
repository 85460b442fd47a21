//! Turning the macOS network service order into a route metric.
//!
//! macOS has no per-route metric, so every route would tie and the selector
//! would fall back to the interface index, an accident of enumeration order.
//! The service order in System Settings is macOS's own answer to "which link
//! is preferred", and this module turns a position in it into a metric.
//!
//! The metric is only a tie-breaker: one rank costs 10 points, enough to
//! separate two links of the same kind and never enough to overturn the
//! Ethernet/Wi-Fi gap.

use vstd::prelude::*;

use crate::model::Interface;
use crate::select::weights;
use crate::text::str_eq;
use std::collections::HashMap;

verus! {

/// Metric cost of each step down the service order.
pub const METRIC_PER_RANK: u32 = 100;

/// The metric for an interface the service order does not mention: the worst
/// value the selector acts on, so an unlisted interface can never silently
/// win a tie, while staying nowhere near disqualified.
pub const UNRANKED: u32 = weights::METRIC_CAP;

/// The metric for a position in the service order (`None`: not in it). Ranks
/// past the cap saturate rather than wrap.
pub open spec fn rank_metric(rank: Option<u32>) -> u32 {
    match rank {
        Some(r) => if r * METRIC_PER_RANK < UNRANKED {
            (r * METRIC_PER_RANK) as u32
        } else {
            UNRANKED
        },
        None => UNRANKED,
    }
}

/// The metric for a given position in the service order.
pub fn metric_for_rank(rank: Option<u32>) -> (m: u32)
    ensures
        m == rank_metric(rank),
{
    match rank {
        Some(rank) => match rank.checked_mul(METRIC_PER_RANK) {
            Some(scaled) => if scaled < UNRANKED {
                scaled
            } else {
                UNRANKED
            },
            None => UNRANKED,
        },
        None => UNRANKED,
    }
}

/// The rank the service order gives a name: its first entry for that name.
pub open spec fn rank_of(order: Seq<(String, u32)>, name: Seq<char>) -> Option<u32>
    decreases order.len(),
{
    if order.len() == 0 {
        None
    } else if order[0].0@ == name {
        Some(order[0].1)
    } else {
        rank_of(order.drop_first(), name)
    }
}

/// The metric of every interface, keyed by index; a later interface with the
/// same index replaces an earlier one.
pub open spec fn index_metrics(ifaces: Seq<Interface>, order: Seq<(String, u32)>) -> Map<u32, u32>
    decreases ifaces.len(),
{
    if ifaces.len() == 0 {
        Map::empty()
    } else {
        index_metrics(ifaces.drop_last(), order).insert(
            ifaces.last().index,
            rank_metric(rank_of(order, ifaces.last().name@)),
        )
    }
}

/// The rank the service order gives `name`.
fn lookup_rank(order: &[(String, u32)], name: &str) -> (r: Option<u32>)
    ensures
        r == rank_of(order@, name@),
{
    let mut i: usize = 0;
    assert(order@.subrange(0, order@.len() as int) =~= order@);
    while i < order.len()
        invariant
            i <= order@.len(),
            rank_of(order@, name@) == rank_of(order@.subrange(i as int, order@.len() as int), name@),
        decreases order.len() - i,
    {
        let ghost rest = order@.subrange(i as int, order@.len() as int);
        assert(rest.drop_first() =~= order@.subrange(i + 1, order@.len() as int));
        if str_eq(order[i].0.as_str(), name) {
            return Some(order[i].1);
        }
        i = i + 1;
    }
    None
}

/// Resolve a name-keyed service order (name and rank, rank 0 most preferred)
/// into the index-keyed metrics the route walk needs, joining through the
/// interfaces. Every interface gets an entry, listed or not.
pub fn metrics_by_index(interfaces: &[Interface], order: &[(String, u32)]) -> (m: HashMap<u32, u32>)
    ensures
        m@ == index_metrics(interfaces@, order@),
{
    broadcast use vstd::std_specs::hash::group_hash_axioms;
    let mut m: HashMap<u32, u32> = HashMap::new();
    let mut i: usize = 0;
    while i < interfaces.len()
        invariant
            i <= interfaces@.len(),
            m@ == index_metrics(interfaces@.subrange(0, i as int), order@),
        decreases interfaces.len() - i,
    {
        assert(interfaces@.subrange(0, i + 1).drop_last() =~= interfaces@.subrange(0, i as int));
        let interface = &interfaces[i];
        let metric = metric_for_rank(lookup_rank(order, interface.name.as_str()));
        m.insert(interface.index, metric);
        i = i + 1;
    }
    assert(interfaces@.subrange(0, interfaces@.len() as int) =~= interfaces@);
    m
}

} // verus!
