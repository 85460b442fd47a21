//! What the LAN row of the doctor counts.

use vstd::prelude::*;

use crate::cli::doctor::{lan_check, reachable_count, Status};
use crate::select::{Candidate, Selection};

verus! {

/// Whether a candidate is one another device could use: still in the
/// running, and of a scope a peer can reach.
pub open spec fn usable_by_peers() -> spec_fn(Candidate) -> bool {
    |c: Candidate| c.disqualified is None && c.address.scope.spec_reachable()
}

/// The count the row reports is the number of usable candidates.
proof fn lemma_count_is_filter(cands: Seq<Candidate>)
    ensures
        reachable_count(cands) == cands.filter(usable_by_peers()).len(),
    decreases cands.len(),
{
    reveal(Seq::filter);
    if cands.len() > 0 {
        lemma_count_is_filter(cands.drop_last());
    }
}

/// Some candidate is usable exactly when the count is not zero.
proof fn lemma_count_positive(cands: Seq<Candidate>)
    ensures
        (reachable_count(cands) > 0) == exists|k: int|
            0 <= k < cands.len() && #[trigger] usable_by_peers()(cands[k]),
    decreases cands.len(),
{
    if cands.len() > 0 {
        let rest = cands.drop_last();
        lemma_count_positive(rest);
        let last = cands.last();
        assert(usable_by_peers()(last) == (last.disqualified is None && last.address.scope.spec_reachable()));
        if usable_by_peers()(last) {
            assert(usable_by_peers()(cands[cands.len() - 1]));
        }
        if exists|k: int| 0 <= k < rest.len() && #[trigger] usable_by_peers()(rest[k]) {
            let k = choose|k: int| 0 <= k < rest.len() && #[trigger] usable_by_peers()(rest[k]);
            assert(cands[k] == rest[k]);
        }
        if exists|k: int| 0 <= k < cands.len() && #[trigger] usable_by_peers()(cands[k]) {
            let k = choose|k: int| 0 <= k < cands.len() && #[trigger] usable_by_peers()(cands[k]);
            if k < rest.len() {
                assert(rest[k] == cands[k]);
            } else {
                assert(cands.last() == cands[k]);
            }
        }
    }
}

/// The LAN row counts the candidates that are both still in the running
/// and of a scope another device can reach, and nothing else: a
/// disqualified address never counts, however reachable its range. It
/// fails exactly when there is no such candidate, and passes otherwise.
pub proof fn law_lan_row_counts_usable_addresses(selection: Selection)
    ensures
        reachable_count(selection.candidates@) == selection.candidates@.filter(usable_by_peers()).len(),
        (lan_check(selection).2 == Status::Fail) == forall|k: int|
            0 <= k < selection.candidates@.len() ==> !(#[trigger] selection.candidates@[k].disqualified
                is None && selection.candidates@[k].address.scope.spec_reachable()),
        lan_check(selection).2 == Status::Fail || lan_check(selection).2 == Status::Pass,
{
    let cands = selection.candidates@;
    lemma_count_is_filter(cands);
    lemma_count_positive(cands);
    if exists|k: int| 0 <= k < cands.len() && #[trigger] usable_by_peers()(cands[k]) {
        let k = choose|k: int| 0 <= k < cands.len() && #[trigger] usable_by_peers()(cands[k]);
        assert(cands[k].disqualified is None && cands[k].address.scope.spec_reachable());
    }
    if !(forall|k: int|
        0 <= k < cands.len() ==> !(#[trigger] cands[k].disqualified is None
            && cands[k].address.scope.spec_reachable())) {
        let k = choose|k: int|
            0 <= k < cands.len() && !!(#[trigger] cands[k].disqualified is None
                && cands[k].address.scope.spec_reachable());
        assert(usable_by_peers()(cands[k]));
    }
}

} // verus!
