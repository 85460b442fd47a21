//! What keeps an address out of the running, stated of the engine's
//! verdicts and of what it selects.

use vstd::prelude::*;

use crate::config::{any_pattern_matches, SelectionConfig};
use crate::model::{Address, Interface, InterfaceState, NetworkState, Route};
use crate::select::{
    evaluated, is_pair, ranked, selected_from, Candidate, Disqualification, SelectedAddress,
};

verus! {

/// A link that is down disqualifies every address on it, unless down links
/// were asked for: once the interface passes the two checks on its name
/// (it is the one required, if one is, and no exclusion matches it), the
/// verdict is `InterfaceDown`.
pub proof fn law_down_links_are_disqualified(
    c: Candidate,
    routes: Seq<Route>,
    config: SelectionConfig,
    iface: Interface,
    addr: Address,
)
    requires
        evaluated(c, routes, config, iface, addr),
        iface.state == InterfaceState::Down,
        !config.include_down,
        config.require_interface matches Some(r) ==> r@ == iface.name@,
        !any_pattern_matches(config.exclude_interfaces@, iface.name@),
    ensures
        c.disqualified == Some(Disqualification::InterfaceDown),
        c.score == 0,
        c.reasons@.len() == 0,
{
    reveal(evaluated);
}

/// Whatever is selected lies on a link that is not down, unless down
/// links were asked for: no address of a down interface is ever chosen.
pub proof fn law_nothing_selected_on_a_down_link(
    cands: Seq<Candidate>,
    origin: Seq<(int, int)>,
    state: NetworkState,
    config: SelectionConfig,
    sel: SelectedAddress,
)
    requires
        ranked(cands, origin, state, config),
        selected_from(Some(sel), cands, state.routes@),
        !config.include_down,
    ensures
        exists|k: int|
            0 <= k < cands.len() && cands[k].disqualified is None && state.interfaces@[origin[k].0].state
                != InterfaceState::Down && state.interfaces@[origin[k].0].index
                == sel.interface_index && state.interfaces@[origin[k].0].addresses@[origin[k].1].ip
                == sel.ip,
{
    let k = choose|k: int|
        0 <= k < cands.len() && (#[trigger] cands[k]).disqualified is None && (forall|j: int|
            0 <= j < k ==> (#[trigger] cands[j]).disqualified is Some) && crate::select::describes(
            sel,
            cands[k],
            state.routes@,
        );
    let p = origin[k];
    assert(is_pair(state.interfaces@, p));
    let iface = state.interfaces@[p.0];
    let addr = iface.addresses@[p.1];
    assert(evaluated(cands[k], state.routes@, config, iface, addr));
    reveal(evaluated);
}

} // verus!
