//! `autonet watch`: deciding when the selected address has moved, and
//! saying so. The loop that waits, takes snapshots and prints belongs to the
//! program; each snapshot it takes is handed to a [`Watcher`], which decides
//! whether there is anything to report.
//!
//! Read-only by construction: a [`Watcher`] holds two values and can do
//! nothing but compare them.

use vstd::prelude::*;

use crate::cli::render::{as_bad, as_heading, as_label, as_muted, as_value, Theme};
use crate::config::SelectionConfig;
use crate::event::{diff, diff_events, events_view, EventView, NetworkDiff, NetworkEvent};
use crate::model::NetworkState;
use crate::select::{ranked, select, selected_from, Candidate, SelectedAddress};
use crate::text::{decimal, owned, push_numeral, push_str, str_eq};

verus! {

/// Seconds between looks at the network when nothing can say it changed.
pub const INTERVAL_SECS: u64 = 2;

/// Seconds an event-driven wait goes before looking anyway, in case the
/// event source lost a message.
pub const BACKSTOP_SECS: u64 = 30;

/// Milliseconds between checks of the interrupt flag while waiting.
pub const TICK_MS: u64 = 100;

/// What the timer is called where it is the only source of wake-ups.
pub const POLLING: &'static str = "polling";

// ---------------------------------------------------------------------------
// The decisions
// ---------------------------------------------------------------------------

/// Whether `sel` is what selection makes of `state` under `config`.
pub open spec fn selection_of(
    state: NetworkState,
    config: SelectionConfig,
    sel: Option<SelectedAddress>,
) -> bool {
    exists|cands: Seq<Candidate>, origin: Seq<(int, int)>|
        ranked(cands, origin, state, config) && selected_from(sel, cands, state.routes@)
}

/// Whether any of the events could move the selection.
pub open spec fn any_affects(events: Seq<EventView>) -> bool {
    exists|k: int| 0 <= k < events.len() && crate::event::event_affects_selection(#[trigger] events[k])
}

/// Whether two selections differ in a way anyone downstream would act on:
/// the address or its interface, never the score alone.
pub open spec fn moved(previous: Option<SelectedAddress>, current: Option<SelectedAddress>) -> bool {
    match previous {
        None => current is Some,
        Some(p) => match current {
            None => true,
            Some(c) => p.ip != c.ip || p.interface@ != c.interface@,
        },
    }
}

/// Whether two selections differ, as [`moved`] says.
pub fn differs(previous: &Option<SelectedAddress>, current: &Option<SelectedAddress>) -> (b: bool)
    ensures
        b == moved(*previous, *current),
{
    match previous {
        None => current.is_some(),
        Some(p) => match current {
            None => true,
            Some(c) => p.ip != c.ip || !str_eq(p.interface.as_str(), c.interface.as_str()),
        },
    }
}

/// One report: what was selected, what is selected now, and every change
/// between the two snapshots behind them.
pub struct Change {
    /// What was selected before; `None` in the opening report.
    pub previous: Option<SelectedAddress>,
    /// What is selected now, if anything is.
    pub current: Option<SelectedAddress>,
    /// Every change between the two snapshots.
    pub diff: NetworkDiff,
    /// When the snapshot behind `current` was taken, in Unix seconds.
    pub captured_at: Option<u64>,
}

impl Change {
    /// Whether this is the opening report rather than a change.
    pub fn is_initial(&self) -> (b: bool)
        ensures
            b == (self.previous is None && self.diff.events@.len() == 0),
    {
        self.previous.is_none() && self.diff.events.len() == 0
    }
}

/// What a watch remembers between looks: the last snapshot, and the last
/// selection it reported.
pub struct Watcher {
    /// The most recent snapshot.
    pub state: NetworkState,
    /// The selection most recently reported.
    pub selected: Option<SelectedAddress>,
}

/// What a report says when the selection was re-run and came out as
/// `current`: nothing, unless the answer moved; then the previous and
/// current answers and every change between the snapshots, and `now`, the
/// selection remembered afterwards, is the new one.
pub open spec fn reported(
    before: Watcher,
    fresh: NetworkState,
    current: Option<SelectedAddress>,
    now: Option<SelectedAddress>,
    r: Option<Change>,
) -> bool {
    if moved(before.selected, current) {
        &&& r matches Some(c)
        &&& c.previous == before.selected
        &&& c.current == current
        &&& events_view(c.diff.events@) == diff_events(before.state, fresh)
        &&& c.captured_at == fresh.captured_at
        &&& now == current
    } else {
        r is None && now == before.selected
    }
}

/// What one look at a fresh snapshot decides: nothing, keeping the
/// remembered selection, when no change between the snapshots could move
/// it; otherwise what [`reported`] says of the selection made of the fresh
/// snapshot.
pub open spec fn looked(
    before: Watcher,
    fresh: NetworkState,
    config: SelectionConfig,
    now: Option<SelectedAddress>,
    r: Option<Change>,
) -> bool {
    if any_affects(diff_events(before.state, fresh)) {
        exists|current: Option<SelectedAddress>|
            #![trigger selection_of(fresh, config, current)]
            selection_of(fresh, config, current) && reported(before, fresh, current, now, r)
    } else {
        r is None && now == before.selected
    }
}

impl Watcher {
    /// Start watching from the first snapshot: the opening report describes
    /// the starting selection, with no previous one and no changes.
    pub fn start(state: NetworkState, config: &SelectionConfig) -> (r: (Watcher, Change))
        ensures
            r.0.state == state,
            selection_of(state, *config, r.0.selected),
            r.1.previous is None,
            r.1.current == r.0.selected,
            r.1.diff.events@.len() == 0,
            r.1.captured_at == state.captured_at,
    {
        let selection = select(&state, config);
        proof {
            let origin = choose|origin: Seq<(int, int)>|
                ranked(selection.candidates@, origin, state, *config);
            assert(ranked(selection.candidates@, origin, state, *config) && selected_from(
                selection.selected,
                selection.candidates@,
                state.routes@,
            ));
        }
        let selected = selection.selected;
        let current = match &selected {
            Some(s) => Some(s.clone()),
            None => None,
        };
        let captured_at = state.captured_at;
        let change = Change {
            previous: None,
            current,
            diff: NetworkDiff { events: Vec::new() },
            captured_at,
        };
        (Watcher { state, selected }, change)
    }

    /// Take a fresh snapshot into account. The snapshot always replaces the
    /// remembered one. The selection is re-run only when some change between
    /// the two could move it, and there is a report only when the answer
    /// moved (see [`moved`]); the reported selection is then remembered.
    pub fn look(&mut self, fresh: NetworkState, config: &SelectionConfig) -> (r: Option<Change>)
        ensures
            final(self).state == fresh,
            looked(*old(self), fresh, *config, final(self).selected, r),
    {
        let changes = diff(&self.state, &fresh);
        let ghost before = self.state;
        self.state = fresh;
        if !changes.affects_selection() {
            proof {
                assert forall|k: int|
                    0 <= k < diff_events(before, fresh).len() implies !crate::event::event_affects_selection(
                    #[trigger] diff_events(before, fresh)[k],
                ) by {
                    assert(diff_events(before, fresh)[k] == changes.events@[k]@);
                }
            }
            return None;
        }
        proof {
            let k = choose|k: int|
                0 <= k < changes.events@.len() && crate::event::event_affects_selection(
                    #[trigger] changes.events@[k]@,
                );
            assert(diff_events(before, fresh)[k] == changes.events@[k]@);
        }
        let selection = select(&self.state, config);
        proof {
            let origin = choose|origin: Seq<(int, int)>|
                ranked(selection.candidates@, origin, fresh, *config);
            assert(ranked(selection.candidates@, origin, fresh, *config) && selected_from(
                selection.selected,
                selection.candidates@,
                fresh.routes@,
            ));
        }
        let current = selection.selected;
        if !differs(&self.selected, &current) {
            assert(selection_of(fresh, *config, current));
            return None;
        }
        let reported = match &current {
            Some(s) => Some(s.clone()),
            None => None,
        };
        let mut previous = current;
        std::mem::swap(&mut previous, &mut self.selected);
        let captured_at = self.state.captured_at;
        assert(selection_of(fresh, *config, reported));
        Some(Change { previous, current: reported, diff: changes, captured_at })
    }
}

// ---------------------------------------------------------------------------
// Saying what happened
// ---------------------------------------------------------------------------

/// How much an event explains, lowest first: where traffic leaves by is
/// the closest thing to a cause, an interface appearing the least of it.
pub open spec fn event_rank(e: EventView) -> int {
    match e {
        EventView::DefaultRouteChanged { .. } => 0,
        EventView::InterfaceRemoved { .. } => 1,
        EventView::InterfaceStateChanged { .. } => 2,
        EventView::AddressRemoved { .. } => 3,
        EventView::AddressAdded { .. } => 4,
        EventView::InterfaceAdded { .. } => 5,
    }
}

/// How much an event explains, as [`event_rank`] says.
pub fn rank(event: &NetworkEvent) -> (r: u8)
    ensures
        r == event_rank(event@),
{
    match event {
        NetworkEvent::DefaultRouteChanged { .. } => 0,
        NetworkEvent::InterfaceRemoved { .. } => 1,
        NetworkEvent::InterfaceStateChanged { .. } => 2,
        NetworkEvent::AddressRemoved { .. } => 3,
        NetworkEvent::AddressAdded { .. } => 4,
        NetworkEvent::InterfaceAdded { .. } => 5,
    }
}

/// The position of the first of the best-ranked events.
pub open spec fn leading(events: Seq<EventView>) -> int
    decreases events.len(),
{
    if events.len() <= 1 {
        0
    } else {
        let best = leading(events.drop_last());
        if event_rank(events.last()) < event_rank(events[best]) {
            events.len() - 1
        } else {
            best
        }
    }
}

/// The leading event is one of them, and none ranks strictly better than
/// it or equally before it.
pub proof fn lemma_leading(events: Seq<EventView>)
    requires
        events.len() > 0,
    ensures
        0 <= leading(events) < events.len(),
        forall|k: int| 0 <= k < events.len() ==> event_rank(events[leading(events)]) <= event_rank(#[trigger] events[k]),
        forall|k: int| 0 <= k < leading(events) ==> event_rank(events[leading(events)]) < event_rank(#[trigger] events[k]),
    decreases events.len(),
{
    if events.len() > 1 {
        let init = events.drop_last();
        lemma_leading(init);
        let best = leading(init);
        assert(events[best] == init[best]);
        let lead = leading(events);
        assert forall|k: int| 0 <= k < events.len() implies event_rank(events[lead]) <= event_rank(
            #[trigger] events[k],
        ) by {
            if k < events.len() - 1 {
                assert(events[k] == init[k]);
            }
        }
        assert forall|k: int| 0 <= k < lead implies event_rank(events[lead]) < event_rank(
            #[trigger] events[k],
        ) by {
            assert(events[k] == init[k]);
        }
    }
}

/// One event worded as a sentence fragment.
pub open spec fn word_text(e: EventView) -> Seq<char> {
    match e {
        EventView::DefaultRouteChanged { family, from_interface, to_interface } => match from_interface {
            Some(from) => match to_interface {
                Some(to) => "default "@ + family.text() + " route moved from "@ + from + " to "@ + to,
                None => "default "@ + family.text() + " route on "@ + from + " went away"@,
            },
            None => match to_interface {
                Some(to) => "default "@ + family.text() + " route appeared on "@ + to,
                None => "default "@ + family.text() + " route changed"@,
            },
        },
        EventView::InterfaceRemoved { interface } => interface + " went away"@,
        EventView::InterfaceStateChanged { interface, to, .. } => interface + " is now "@ + to,
        EventView::AddressRemoved { interface, address } => address.ip.text() + " was removed from "@
            + interface,
        EventView::AddressAdded { interface, address } => address.ip.text() + " was added to "@
            + interface,
        EventView::InterfaceAdded { interface } => interface + " appeared"@,
    }
}

/// Word one event, as [`word_text`] says.
pub fn word(event: &NetworkEvent) -> (s: String)
    ensures
        s@ == word_text(event@),
{
    match event {
        NetworkEvent::DefaultRouteChanged { family, from_interface, to_interface } => {
            let mut s = owned("default ");
            push_str(&mut s, family.as_str());
            match from_interface {
                Some(from) => match to_interface {
                    Some(to) => {
                        push_str(&mut s, " route moved from ");
                        push_str(&mut s, from.as_str());
                        push_str(&mut s, " to ");
                        push_str(&mut s, to.as_str());
                    },
                    None => {
                        push_str(&mut s, " route on ");
                        push_str(&mut s, from.as_str());
                        push_str(&mut s, " went away");
                    },
                },
                None => match to_interface {
                    Some(to) => {
                        push_str(&mut s, " route appeared on ");
                        push_str(&mut s, to.as_str());
                    },
                    None => push_str(&mut s, " route changed"),
                },
            }
            s
        },
        NetworkEvent::InterfaceRemoved { interface } => {
            let mut s = owned(interface.as_str());
            push_str(&mut s, " went away");
            s
        },
        NetworkEvent::InterfaceStateChanged { interface, to, .. } => {
            let mut s = owned(interface.as_str());
            push_str(&mut s, " is now ");
            push_str(&mut s, to.as_str());
            s
        },
        NetworkEvent::AddressRemoved { interface, address } => {
            let mut s = address.ip.to_text();
            push_str(&mut s, " was removed from ");
            push_str(&mut s, interface.as_str());
            s
        },
        NetworkEvent::AddressAdded { interface, address } => {
            let mut s = address.ip.to_text();
            push_str(&mut s, " was added to ");
            push_str(&mut s, interface.as_str());
            s
        },
        NetworkEvent::InterfaceAdded { interface } => {
            let mut s = owned(interface.as_str());
            push_str(&mut s, " appeared");
            s
        },
    }
}

/// The single most explanatory event of a change, worded; `None` when
/// nothing changed.
pub open spec fn reason_text(events: Seq<EventView>) -> Option<Seq<char>> {
    if events.len() == 0 {
        None
    } else {
        Some(word_text(events[leading(events)]))
    }
}

/// The single most explanatory event behind a change, worded: the
/// best-ranked event, and the first of those where several rank equally.
pub fn reason(changes: &NetworkDiff) -> (r: Option<String>)
    ensures
        match reason_text(events_view(changes.events@)) {
            Some(t) => r matches Some(s) && s@ == t,
            None => r is None,
        },
{
    let ghost evs = events_view(changes.events@);
    let n = changes.events.len();
    if n == 0 {
        return None;
    }
    let mut best: usize = 0;
    let mut i: usize = 1;
    assert(evs.subrange(0, 1).len() == 1);
    while i < n
        invariant
            n == changes.events@.len() == evs.len(),
            evs == events_view(changes.events@),
            1 <= i <= n,
            best < i,
            best == leading(evs.subrange(0, i as int)),
        decreases n - i,
    {
        assert(evs.subrange(0, i + 1).drop_last() =~= evs.subrange(0, i as int));
        assert(evs[i as int] == changes.events@[i as int]@);
        assert(evs[best as int] == changes.events@[best as int]@);
        if rank(&changes.events[i]) < rank(&changes.events[best]) {
            best = i;
        }
        i = i + 1;
    }
    assert(evs.subrange(0, n as int) =~= evs);
    assert(evs[best as int] == changes.events@[best as int]@);
    Some(word(&changes.events[best]))
}

/// One selection as a person reads it: the interface, its kind, the
/// address.
pub open spec fn describe_text(selected: Option<SelectedAddress>) -> Seq<char> {
    match selected {
        Some(s) => s.interface@ + " ("@ + s.interface_kind@.text() + ") / "@ + s.ip.text(),
        None => "no usable address"@,
    }
}

/// Describe one selection, as [`describe_text`] says.
pub fn describe(selected: &Option<SelectedAddress>) -> (s: String)
    ensures
        s@ == describe_text(*selected),
{
    match selected {
        Some(sel) => {
            let mut s = owned(sel.interface.as_str());
            push_str(&mut s, " (");
            sel.interface_kind.push_text(&mut s);
            push_str(&mut s, ") / ");
            sel.ip.push_text(&mut s);
            s
        },
        None => owned("no usable address"),
    }
}

/// How a run learns that something moved, said plainly.
pub open spec fn watching_text(source: Seq<char>) -> Seq<char> {
    if source == "polling"@ {
        "Watching for address changes every "@ + decimal(2) + "s. Ctrl-C to stop."@
    } else {
        "Watching for address changes as "@ + source + " reports them, and every "@ + decimal(30)
            + "s regardless. Ctrl-C to stop."@
    }
}

/// Say how this run learns of changes: by the named event source (with
/// the backstop), or by polling.
pub fn watching(source: &str) -> (s: String)
    ensures
        s@ == watching_text(source@),
{
    if str_eq(source, POLLING) {
        let mut s = owned("Watching for address changes every ");
        push_numeral(&mut s, INTERVAL_SECS, 10);
        push_str(&mut s, "s. Ctrl-C to stop.");
        s
    } else {
        let mut s = owned("Watching for address changes as ");
        push_str(&mut s, source);
        push_str(&mut s, " reports them, and every ");
        push_numeral(&mut s, BACKSTOP_SECS, 10);
        push_str(&mut s, "s regardless. Ctrl-C to stop.");
        s
    }
}

/// The opening lines, before anything has happened.
pub open spec fn banner_text(colours: bool, platform: Seq<char>, source: Seq<char>) -> Seq<char> {
    as_heading(colours, "AutoNet"@) + " "@ + as_muted(colours, platform) + "\n"@ + as_muted(
        colours,
        watching_text(source),
    ) + "\n\n"@
}

/// The opening lines: the tool, the platform backend, and how changes are
/// noticed.
pub fn banner(theme: Theme, platform: &str, source: &str) -> (s: String)
    ensures
        s@ == banner_text(theme.colours(), platform@, source@),
{
    let mut s = theme.heading("AutoNet");
    push_str(&mut s, " ");
    push_str(&mut s, theme.muted(platform).as_str());
    push_str(&mut s, "\n");
    let w = watching(source);
    push_str(&mut s, theme.muted(w.as_str()).as_str());
    push_str(&mut s, "\n\n");
    s
}

/// One change as the block `watch` prints: the previous selection unless
/// this is the opening report, the current one, and the reason when there
/// is one, then a blank line.
pub open spec fn render_text(
    colours: bool,
    initial: bool,
    previous: Option<SelectedAddress>,
    current: Option<SelectedAddress>,
    events: Seq<EventView>,
) -> Seq<char> {
    (if initial {
        Seq::empty()
    } else {
        as_label(colours, "Previous:"@) + " "@ + describe_text(previous) + "\n"@
    }) + as_label(colours, "Current: "@) + " "@ + (if current is Some {
        as_value(colours, describe_text(current))
    } else {
        as_bad(colours, describe_text(current))
    }) + "\n"@ + (match reason_text(events) {
        Some(r) => as_label(colours, "Reason:  "@) + " "@ + r + "\n"@,
        None => Seq::empty(),
    }) + "\n"@
}

/// Render one change, as [`render_text`] says.
pub fn render(change: &Change, theme: Theme) -> (s: String)
    ensures
        s@ == render_text(
            theme.colours(),
            change.previous is None && change.diff.events@.len() == 0,
            change.previous,
            change.current,
            events_view(change.diff.events@),
        ),
{
    let mut out = String::new();
    let initial = change.is_initial();
    if !initial {
        push_str(&mut out, theme.label("Previous:").as_str());
        push_str(&mut out, " ");
        push_str(&mut out, describe(&change.previous).as_str());
        push_str(&mut out, "\n");
    }
    push_str(&mut out, theme.label("Current: ").as_str());
    push_str(&mut out, " ");
    let now = describe(&change.current);
    if change.current.is_some() {
        push_str(&mut out, theme.value(now.as_str()).as_str());
    } else {
        push_str(&mut out, theme.bad(now.as_str()).as_str());
    }
    push_str(&mut out, "\n");
    match reason(&change.diff) {
        Some(r) => {
            push_str(&mut out, theme.label("Reason:  ").as_str());
            push_str(&mut out, " ");
            push_str(&mut out, r.as_str());
            push_str(&mut out, "\n");
        },
        None => {},
    }
    push_str(&mut out, "\n");
    assert(out@ =~= render_text(
        theme.colours(),
        initial,
        change.previous,
        change.current,
        events_view(change.diff.events@),
    ));
    out
}

// ---------------------------------------------------------------------------
// A watch over many looks
// ---------------------------------------------------------------------------

/// The selection reported last among the first `j + 1` reports.
pub open spec fn last_reported(reports: Seq<Option<Change>>, j: int) -> Option<SelectedAddress>
    decreases j + 1,
{
    if j < 0 {
        None
    } else {
        match reports[j] {
            Some(c) => c.current,
            None => last_reported(reports, j - 1),
        }
    }
}

/// A watch over the snapshots `states`: started on the first, with the
/// opening report, then looking at each of the others in turn; `reports`
/// holds what each step reported and `kept` the selection remembered after
/// it.
pub open spec fn watch_run(
    states: Seq<NetworkState>,
    config: SelectionConfig,
    reports: Seq<Option<Change>>,
    kept: Seq<Option<SelectedAddress>>,
) -> bool {
    &&& states.len() >= 1
    &&& reports.len() == states.len()
    &&& kept.len() == states.len()
    &&& selection_of(states[0], config, kept[0])
    &&& reports[0] matches Some(c) && c.previous is None && c.current == kept[0]
        && c.diff.events@.len() == 0
    &&& forall|k: int|
        1 <= k < states.len() ==> looked(
            Watcher { state: states[k - 1], selected: kept[k - 1] },
            #[trigger] states[k],
            config,
            kept[k],
            reports[k],
        )
}

/// What a watch remembers is always the selection it reported last.
proof fn lemma_kept_is_last_reported(
    states: Seq<NetworkState>,
    config: SelectionConfig,
    reports: Seq<Option<Change>>,
    kept: Seq<Option<SelectedAddress>>,
    k: int,
)
    requires
        watch_run(states, config, reports, kept),
        0 <= k < states.len(),
    ensures
        kept[k] == last_reported(reports, k),
    decreases k,
{
    if k > 0 {
        lemma_kept_is_last_reported(states, config, reports, kept, k - 1);
        let before = Watcher { state: states[k - 1], selected: kept[k - 1] };
        assert(looked(before, states[k], config, kept[k], reports[k]));
        if any_affects(diff_events(states[k - 1], states[k])) {
            let current = choose|current: Option<SelectedAddress>|
                #![trigger selection_of(states[k], config, current)]
                selection_of(states[k], config, current) && reported(
                    before,
                    states[k],
                    current,
                    kept[k],
                    reports[k],
                );
        }
    }
}

/// Over a whole watch, the first report is the opening one: no previous
/// selection, no changes, and the selection made of the first snapshot.
/// Every later report comes only when some change between two consecutive
/// snapshots could move the selection and the selection made of the newer
/// one differs, in address or interface, from the one reported last; it
/// carries that one as its previous selection and every change between the
/// two snapshots. What the watch remembers is always the selection it
/// reported last.
pub proof fn law_watch_reports_only_moves(
    states: Seq<NetworkState>,
    config: SelectionConfig,
    reports: Seq<Option<Change>>,
    kept: Seq<Option<SelectedAddress>>,
)
    requires
        watch_run(states, config, reports, kept),
    ensures
        reports[0] matches Some(c) && c.previous is None && c.diff.events@.len() == 0 && selection_of(
            states[0],
            config,
            c.current,
        ),
        forall|k: int| 0 <= k < states.len() ==> #[trigger] kept[k] == last_reported(reports, k),
        forall|k: int|
            1 <= k < states.len() ==> (#[trigger] reports[k] matches Some(c) ==> {
                &&& any_affects(diff_events(states[k - 1], states[k]))
                &&& selection_of(states[k], config, c.current)
                &&& c.previous == last_reported(reports, k - 1)
                &&& moved(c.previous, c.current)
                &&& events_view(c.diff.events@) == diff_events(states[k - 1], states[k])
            }),
{
    assert forall|k: int| 0 <= k < states.len() implies #[trigger] kept[k] == last_reported(reports, k) by {
        lemma_kept_is_last_reported(states, config, reports, kept, k);
    }
    assert forall|k: int| 1 <= k < states.len() implies (#[trigger] reports[k] matches Some(c) ==> {
        &&& any_affects(diff_events(states[k - 1], states[k]))
        &&& selection_of(states[k], config, c.current)
        &&& c.previous == last_reported(reports, k - 1)
        &&& moved(c.previous, c.current)
        &&& events_view(c.diff.events@) == diff_events(states[k - 1], states[k])
    }) by {
        lemma_kept_is_last_reported(states, config, reports, kept, k - 1);
        let before = Watcher { state: states[k - 1], selected: kept[k - 1] };
        assert(looked(before, states[k], config, kept[k], reports[k]));
        if any_affects(diff_events(states[k - 1], states[k])) {
            let current = choose|current: Option<SelectedAddress>|
                #![trigger selection_of(states[k], config, current)]
                selection_of(states[k], config, current) && reported(
                    before,
                    states[k],
                    current,
                    kept[k],
                    reports[k],
                );
        }
    }
}

} // verus!
