//! `autonet doctor`: the diagnostic checklist, as pure functions.
//!
//! Everything the checks read is gathered by the caller and handed in:
//! [`checks`] opens no socket and makes no system call. There are four
//! statuses, not three: a row AutoNet did not verify is [`Status::Unknown`],
//! which never affects the exit code. The bind-address row is always
//! unknown, because nothing on this side of a process can see what address
//! another program binds.

pub mod lan;
pub mod styling;

use vstd::prelude::*;

use crate::cli::port::{holder_note, holder_text, Availability, PortCheck};
use crate::cli::render::{dim_text, fg_text, spaces, trimmed_end, Theme};
use crate::config::SelectionConfig;
use crate::event::first_indexed;
use crate::ip::IpAddr;
use crate::model::{Address, AddressScope, Family, Interface, KindView, NetworkState, Route};
use crate::select::{failure_text, SelectedAddress, Selection};
use crate::text::{decimal, is_whitespace, owned, push_char, push_numeral, push_str};

verus! {

/// Total width the text report wraps to: fixed, so rendering is a pure
/// function of its input.
pub const LINE_WIDTH: usize = 78;

/// The narrowest detail column worth wrapping into.
pub const MIN_DETAIL: usize = 24;

/// The verdict on one check.
#[derive(Debug, Clone, Copy, PartialEq, Eq, Structural)]
pub enum Status {
    /// Checked, and fine.
    Pass,
    /// Checked, and worth knowing about, but not broken.
    Warn,
    /// Checked, and broken.
    Fail,
    /// Not checked: AutoNet could not or did not determine this.
    Unknown,
}

impl Status {
    /// The stable name used in JSON.
    pub open spec fn name(self) -> Seq<char> {
        match self {
            Status::Pass => "pass"@,
            Status::Warn => "warn"@,
            Status::Fail => "fail"@,
            Status::Unknown => "unknown"@,
        }
    }

    /// The fixed-width token used in the text report.
    pub open spec fn token_text(self) -> Seq<char> {
        match self {
            Status::Pass => "[ ok ]"@,
            Status::Warn => "[warn]"@,
            Status::Fail => "[fail]"@,
            Status::Unknown => "[ ?  ]"@,
        }
    }

    /// The token as painted by a theme: green, yellow, red or dim.
    pub open spec fn painted(self, colours: bool) -> Seq<char> {
        if !colours {
            self.token_text()
        } else {
            match self {
                Status::Pass => fg_text("32"@, self.token_text()),
                Status::Warn => fg_text("33"@, self.token_text()),
                Status::Fail => fg_text("31"@, self.token_text()),
                Status::Unknown => dim_text(self.token_text()),
            }
        }
    }

    /// The stable name used in JSON.
    pub fn as_str(self) -> (s: &'static str)
        ensures
            s@ == self.name(),
    {
        match self {
            Status::Pass => "pass",
            Status::Warn => "warn",
            Status::Fail => "fail",
            Status::Unknown => "unknown",
        }
    }

    /// The fixed-width token used in the text report: words rather than
    /// symbols, since not every console is UTF-8, and all exactly six
    /// characters, so colouring cannot shift the columns after it.
    pub fn token(self) -> (s: &'static str)
        ensures
            s@ == self.token_text(),
    {
        match self {
            Status::Pass => "[ ok ]",
            Status::Warn => "[warn]",
            Status::Fail => "[fail]",
            Status::Unknown => "[ ?  ]",
        }
    }

    /// The token, coloured for a terminal.
    pub fn paint(self, theme: Theme) -> (s: String)
        ensures
            s@ == self.painted(theme.colours()),
    {
        match self {
            Status::Pass => theme.good(self.token()),
            Status::Warn => theme.warn(self.token()),
            Status::Fail => theme.bad(self.token()),
            Status::Unknown => theme.muted(self.token()),
        }
    }
}

/// One line of the checklist.
#[derive(Debug, Clone, PartialEq, Eq)]
pub struct Check {
    /// Stable identifier, for JSON consumers. Never changes wording.
    pub id: &'static str,
    /// Human-readable name, shown in the text report.
    pub label: String,
    /// What the check concluded.
    pub status: Status,
    /// One sentence of explanation. Always present, including on a pass.
    pub detail: String,
}

/// A check as values: its id, label, status and detail.
pub open spec fn check_view(c: Check) -> (Seq<char>, Seq<char>, Status, Seq<char>) {
    (c.id@, c.label@, c.status, c.detail@)
}

/// The checks, as values.
pub open spec fn checks_view(v: Seq<Check>) -> Seq<(Seq<char>, Seq<char>, Status, Seq<char>)> {
    v.map_values(|c: Check| check_view(c))
}

/// A network snapshot and what the selector made of it.
pub struct Snapshot<'a> {
    /// The machine's interfaces and routes.
    pub state: &'a NetworkState,
    /// The selector's full result, candidates included.
    pub selection: &'a Selection,
    /// The configuration the selection ran under.
    pub config: &'a SelectionConfig,
}

/// Everything the checks read.
pub struct Diagnosis<'a> {
    /// The backend's own name, for example `linux-netlink`.
    pub platform: &'a str,
    /// The target this binary was built for, for example `linux`.
    pub os: &'a str,
    /// The snapshot, or the reason there is not one.
    pub network: Result<Snapshot<'a>, String>,
    /// The port under examination and what probing it found, if any.
    pub port: Option<(u16, &'a PortCheck)>,
}

// ---------------------------------------------------------------------------
// What each check says
// ---------------------------------------------------------------------------

/// The operating-system row: supported, or the reason it could not be
/// queried.
pub open spec fn os_check(os: Seq<char>, platform: Seq<char>, network: Result<(), Seq<char>>) -> (
    Seq<char>,
    Seq<char>,
    Status,
    Seq<char>,
) {
    match network {
        Ok(_) => ("operating_system"@, "Operating system"@, Status::Pass, os + ", via "@ + platform),
        Err(e) => (
            "operating_system"@,
            "Operating system"@,
            Status::Fail,
            os + " is not supported, or could not be queried: "@ + e,
        ),
    }
}

/// Whether an interface could plausibly carry traffic to another device:
/// not loopback, and not down.
pub open spec fn usable_link(i: Interface) -> bool {
    !(i.kind@ is Loopback) && !(i.state is Down)
}

/// How many interfaces are usable links.
pub open spec fn usable_count(ifaces: Seq<Interface>) -> nat
    decreases ifaces.len(),
{
    if ifaces.len() == 0 {
        0
    } else {
        usable_count(ifaces.drop_last()) + if usable_link(ifaces.last()) {
            1nat
        } else {
            0nat
        }
    }
}

/// The position of the first usable link.
pub open spec fn first_usable(ifaces: Seq<Interface>) -> Option<int>
    decreases ifaces.len(),
{
    if ifaces.len() == 0 {
        None
    } else if usable_link(ifaces[0]) {
        Some(0)
    } else {
        match first_usable(ifaces.drop_first()) {
            Some(k) => Some(k + 1),
            None => None,
        }
    }
}

/// `", and N more"` when there are `n > 1`, else nothing.
pub open spec fn and_more(n: nat) -> Seq<char> {
    if n <= 1 {
        Seq::empty()
    } else {
        ", and "@ + decimal((n - 1) as nat) + " more"@
    }
}

/// The network-interface row: the first usable link, and how many more.
pub open spec fn interface_check(ifaces: Seq<Interface>) -> (Seq<char>, Seq<char>, Status, Seq<char>) {
    match first_usable(ifaces) {
        None => (
            "network_interface"@,
            "Network interface"@,
            Status::Fail,
            "no interface is both up and something other than loopback"@,
        ),
        Some(k) => (
            "network_interface"@,
            "Network interface"@,
            Status::Pass,
            ifaces[k].name@ + " ("@ + ifaces[k].kind@.text() + ", "@ + ifaces[k].state.text()
                + ")"@ + and_more(usable_count(ifaces)),
        ),
    }
}

/// The first address of `family` in `addrs`.
pub open spec fn first_of_family(addrs: Seq<Address>, family: Family) -> Option<Address>
    decreases addrs.len(),
{
    if addrs.len() == 0 {
        None
    } else if addrs[0].family == family {
        Some(addrs[0])
    } else {
        first_of_family(addrs.drop_first(), family)
    }
}

/// `address on name` for the first usable link holding an address of
/// `family`, with that address.
pub open spec fn first_addressed(ifaces: Seq<Interface>, family: Family) -> Option<Seq<char>>
    decreases ifaces.len(),
{
    if ifaces.len() == 0 {
        None
    } else if usable_link(ifaces[0]) && first_of_family(ifaces[0].addresses@, family) is Some {
        Some(first_of_family(ifaces[0].addresses@, family)->0.text() + " on "@ + ifaces[0].name@)
    } else {
        first_addressed(ifaces.drop_first(), family)
    }
}

/// The IPv4 row: an IPv4 address passes; only IPv6 warns (and passes when
/// IPv6 was asked for), since AutoNet works over IPv6; neither fails.
pub open spec fn ipv4_check(ifaces: Seq<Interface>, config: SelectionConfig) -> (
    Seq<char>,
    Seq<char>,
    Status,
    Seq<char>,
) {
    match first_addressed(ifaces, Family::V4) {
        Some(found) => ("ipv4_address"@, "IPv4 address"@, Status::Pass, found),
        None => match first_addressed(ifaces, Family::V6) {
            None => (
                "ipv4_address"@,
                "IPv4 address"@,
                Status::Fail,
                "no interface off loopback holds an address of either family"@,
            ),
            Some(found) => (
                "ipv4_address"@,
                "IPv4 address"@,
                if config.prefer_family.spec_preferred() == Some(Family::V6) {
                    Status::Pass
                } else {
                    Status::Warn
                },
                "none; this machine is IPv6-only ("@ + found
                    + "), which works if the other device speaks IPv6"@,
            ),
        },
    }
}

/// The default-route row: the first default route, how it leaves, through
/// which interface (by name, or `#index`), and how many more.
pub open spec fn route_check(state: NetworkState) -> (Seq<char>, Seq<char>, Status, Seq<char>) {
    let routes = state.routes@.filter(|r: Route| r.spec_is_default());
    if routes.len() == 0 {
        (
            "default_route"@,
            "Default route"@,
            Status::Fail,
            "none; this machine has no route off its own link"@,
        )
    } else {
        let best = routes[0];
        let via = match best.gateway {
            Some(g) => "via "@ + g.text(),
            None => "on-link"@,
        };
        let interface = match first_indexed(state.interfaces@, best.interface_index) {
            Some(k) => state.interfaces@[k].name@,
            None => "#"@ + decimal(best.interface_index as nat),
        };
        (
            "default_route"@,
            "Default route"@,
            Status::Pass,
            via + " on "@ + interface + and_more(routes.len()),
        )
    }
}

/// The selected-address row: nothing selected fails with the selector's own
/// reason; a loopback address warns; anything else passes.
pub open spec fn selected_check(selection: Selection, config: SelectionConfig) -> (
    Seq<char>,
    Seq<char>,
    Status,
    Seq<char>,
) {
    match selection.selected {
        None => (
            "selected_address"@,
            "Selected address"@,
            Status::Fail,
            failure_text(selection.candidates@, config),
        ),
        Some(s) => if s.scope is Loopback {
            (
                "selected_address"@,
                "Selected address"@,
                Status::Warn,
                s.ip.text()
                    + " is a loopback address, reachable only from this machine; it was selected because loopback is allowed"@,
            )
        } else {
            (
                "selected_address"@,
                "Selected address"@,
                Status::Pass,
                s.ip.text() + " ("@ + s.scope.text() + ") on "@ + s.interface@
                    + ", which is not loopback"@,
            )
        },
    }
}

/// How many eligible candidates another device could reach.
pub open spec fn reachable_count(cands: Seq<crate::select::Candidate>) -> nat
    decreases cands.len(),
{
    if cands.len() == 0 {
        0
    } else {
        reachable_count(cands.drop_last()) + if cands.last().disqualified is None
            && cands.last().address.scope.spec_reachable() {
            1nat
        } else {
            0nat
        }
    }
}

/// The LAN row: how many eligible addresses another device could reach.
pub open spec fn lan_check(selection: Selection) -> (Seq<char>, Seq<char>, Status, Seq<char>) {
    let n = reachable_count(selection.candidates@);
    if n == 0 {
        (
            "lan_candidate"@,
            "LAN reachable"@,
            Status::Fail,
            "no address on this machine is in a range another device on the network could reach"@,
        )
    } else {
        (
            "lan_candidate"@,
            "LAN reachable"@,
            Status::Pass,
            decimal(n) + " address"@ + (if n == 1 {
                Seq::empty()
            } else {
                "es"@
            }) + " another device could reach"@,
        )
    }
}

/// The port row's status and first sentence: busy on the address or the
/// wildcard warns, free passes, a bind refused for another reason is
/// unknown.
pub open spec fn port_verdict(port: u16, check: PortCheck) -> (Status, Seq<char>) {
    match (check.on_address, check.on_wildcard) {
        (Availability::InUse, _) => (Status::Warn, "already in use on "@ + check.address.text()),
        (Availability::Free, Availability::InUse) => (
            Status::Warn,
            "free on "@ + check.address.text()
                + ", but held elsewhere on this machine; a server binding "@
                + check.wildcard.text() + " will fail"@,
        ),
        (Availability::Free, _) => (Status::Pass, "nothing is listening on "@ + check.address.text()),
        (Availability::Undetermined, _) => (
            Status::Unknown,
            "AutoNet may not bind "@ + decimal(port as nat) + " as this user, so it could not be tested"@,
        ),
    }
}

/// The port row: warns rather than fails, since `--port` says what URL to
/// print, not what any program binds; names the holder unless it passed.
pub open spec fn port_check(port: u16, check: PortCheck) -> (Seq<char>, Seq<char>, Status, Seq<char>) {
    let (status, detail) = port_verdict(port, check);
    (
        "port"@,
        "Port "@ + decimal(port as nat),
        status,
        match holder_text(check.holder) {
            Some(note) => if status != Status::Pass {
                detail + ". "@ + note
            } else {
                detail
            },
            None => detail,
        },
    )
}

/// The bind-address row, always unknown: guidance, not a detection.
pub open spec fn bind_check(selected: Option<SelectedAddress>) -> (Seq<char>, Seq<char>, Status, Seq<char>) {
    let detail = match selected {
        Some(a) => if a.scope is Loopback {
            "Bound to "@ + a.ip.text()
                + " it is reachable only from this machine; bound to the wildcard it answers on every address this machine has. Check your program's host or bind setting."@
        } else {
            "If it binds "@ + a.ip.text()
                + " specifically, it stops answering when the network changes; if it binds "@ + (
            if a.ip is V4 {
                "0.0.0.0"@
            } else {
                "::"@
            }) + ", it follows the change. Check your program's host or bind setting."@
        },
        None =>
            "A server bound to one specific address stops answering when the network changes; one bound to the wildcard follows it. Check your program's host or bind setting."@,
    };
    (
        "bind_address"@,
        "Bind address"@,
        Status::Unknown,
        "AutoNet cannot see what address your server binds. "@ + detail,
    )
}

/// A row not checked because there is no snapshot.
pub open spec fn deferred_check(id: Seq<char>, label: Seq<char>) -> (Seq<char>, Seq<char>, Status, Seq<char>) {
    (id, label, Status::Unknown, "not checked - there is no network snapshot to check"@)
}

// ---------------------------------------------------------------------------
// Running the checks
// ---------------------------------------------------------------------------

/// A check from its parts.
fn check(id: &'static str, label: String, status: Status, detail: String) -> (c: Check)
    ensures
        check_view(c) == (id@, label@, status, detail@),
{
    Check { id, label, status, detail }
}

/// The operating-system row.
pub fn operating_system(diagnosis: &Diagnosis) -> (c: Check)
    ensures
        check_view(c) == os_check(
            diagnosis.os@,
            diagnosis.platform@,
            match diagnosis.network {
                Ok(_) => Ok::<(), Seq<char>>(()),
                Err(e) => Err(e@),
            },
        ),
{
    let mut detail = owned(diagnosis.os);
    match &diagnosis.network {
        Ok(_) => {
            push_str(&mut detail, ", via ");
            push_str(&mut detail, diagnosis.platform);
            check("operating_system", owned("Operating system"), Status::Pass, detail)
        },
        Err(error) => {
            push_str(&mut detail, " is not supported, or could not be queried: ");
            push_str(&mut detail, error.as_str());
            check("operating_system", owned("Operating system"), Status::Fail, detail)
        },
    }
}

/// Whether an interface could plausibly carry traffic to another device.
pub fn is_usable_link(interface: &Interface) -> (b: bool)
    ensures
        b == usable_link(*interface),
{
    !interface.kind.is_loopback() && !interface.state.is_down()
}

/// Append `", and N more"` for `n > 1`.
fn push_and_more(out: &mut String, n: usize)
    ensures
        final(out)@ == old(out)@ + and_more(n as nat),
{
    if n > 1 {
        push_str(out, ", and ");
        push_numeral(out, (n - 1) as u64, 10);
        push_str(out, " more");
    } else {
        assert(old(out)@ + and_more(n as nat) =~= old(out)@);
    }
}

/// Is there anything that could carry traffic off this machine? Loopback is
/// always present and never an answer; a down interface is not a network.
pub fn network_interface(snapshot: &Snapshot) -> (c: Check)
    ensures
        check_view(c) == interface_check(snapshot.state.interfaces@),
{
    let ifaces = &snapshot.state.interfaces;
    let ghost all = ifaces@;
    let mut first: Option<usize> = None;
    let mut count: usize = 0;
    let mut i: usize = 0;
    while i < ifaces.len()
        invariant
            all == ifaces@,
            i <= all.len(),
            count == usable_count(all.subrange(0, i as int)),
            count <= i,
            match first {
                Some(k) => k < i && first_usable(all) == Some(k as int),
                None => forall|j: int| 0 <= j < i ==> !usable_link(#[trigger] all[j]),
            },
        decreases all.len() - i,
    {
        assert(all.subrange(0, i + 1).drop_last() =~= all.subrange(0, i as int));
        if is_usable_link(&ifaces[i]) {
            if first.is_none() {
                proof {
                    lemma_first_usable(all, i as int);
                }
                first = Some(i);
            }
            count = count + 1;
        }
        i = i + 1;
    }
    assert(all.subrange(0, all.len() as int) =~= all);
    match first {
        None => {
            proof {
                lemma_first_usable(all, all.len() as int);
            }
            check(
                "network_interface",
                owned("Network interface"),
                Status::Fail,
                owned("no interface is both up and something other than loopback"),
            )
        },
        Some(k) => {
            let f = &ifaces[k];
            let mut detail = owned(f.name.as_str());
            push_str(&mut detail, " (");
            f.kind.push_text(&mut detail);
            push_str(&mut detail, ", ");
            push_str(&mut detail, f.state.as_str());
            push_str(&mut detail, ")");
            push_and_more(&mut detail, count);
            check("network_interface", owned("Network interface"), Status::Pass, detail)
        },
    }
}

/// `first_usable` is the first usable position.
proof fn lemma_first_usable(ifaces: Seq<Interface>, p: int)
    requires
        0 <= p <= ifaces.len(),
        forall|j: int| 0 <= j < p ==> !usable_link(#[trigger] ifaces[j]),
        p == ifaces.len() || usable_link(ifaces[p]),
    ensures
        first_usable(ifaces) == (if p == ifaces.len() {
            None
        } else {
            Some(p)
        }),
    decreases ifaces.len(),
{
    if ifaces.len() > 0 && p > 0 {
        assert forall|j: int| 0 <= j < p - 1 implies !usable_link(#[trigger] ifaces.drop_first()[j]) by {
            assert(ifaces.drop_first()[j] == ifaces[j + 1]);
        }
        lemma_first_usable(ifaces.drop_first(), p - 1);
    }
}

/// The first address of `family` on an interface.
fn first_address(addrs: &Vec<Address>, family: Family) -> (a: Option<Address>)
    ensures
        a == first_of_family(addrs@, family),
{
    let mut i: usize = 0;
    assert(addrs@.subrange(0, addrs@.len() as int) =~= addrs@);
    while i < addrs.len()
        invariant
            i <= addrs@.len(),
            first_of_family(addrs@, family) == first_of_family(addrs@.subrange(i as int, addrs@.len() as int), family),
        decreases addrs.len() - i,
    {
        let ghost rest = addrs@.subrange(i as int, addrs@.len() as int);
        assert(rest.drop_first() =~= addrs@.subrange(i + 1, addrs@.len() as int));
        if addrs[i].family == family {
            return Some(addrs[i]);
        }
        i = i + 1;
    }
    None
}

/// `address on name` for the first usable link with an address of `family`.
fn addressed(state: &NetworkState, family: Family) -> (r: Option<String>)
    ensures
        match r {
            Some(s) => first_addressed(state.interfaces@, family) == Some(s@),
            None => first_addressed(state.interfaces@, family) is None,
        },
{
    let ifaces = &state.interfaces;
    let ghost all = ifaces@;
    let mut i: usize = 0;
    assert(all.subrange(0, all.len() as int) =~= all);
    while i < ifaces.len()
        invariant
            all == ifaces@,
            all == state.interfaces@,
            i <= all.len(),
            first_addressed(all, family) == first_addressed(all.subrange(i as int, all.len() as int), family),
        decreases all.len() - i,
    {
        let ghost rest = all.subrange(i as int, all.len() as int);
        assert(rest.drop_first() =~= all.subrange(i + 1, all.len() as int));
        let interface = &ifaces[i];
        assert(rest[0] == all[i as int]);
        if is_usable_link(interface) {
            if let Some(a) = first_address(&interface.addresses, family) {
                let mut s = String::new();
                a.push_text(&mut s);
                push_str(&mut s, " on ");
                push_str(&mut s, interface.name.as_str());
                assert(s@ =~= a.text() + " on "@ + interface.name@);
                return Some(s);
            }
        }
        i = i + 1;
    }
    None
}

/// The IPv4 row.
pub fn ipv4_address(snapshot: &Snapshot) -> (c: Check)
    ensures
        check_view(c) == ipv4_check(snapshot.state.interfaces@, *snapshot.config),
{
    if let Some(found) = addressed(snapshot.state, Family::V4) {
        return check("ipv4_address", owned("IPv4 address"), Status::Pass, found);
    }
    match addressed(snapshot.state, Family::V6) {
        None => check(
            "ipv4_address",
            owned("IPv4 address"),
            Status::Fail,
            owned("no interface off loopback holds an address of either family"),
        ),
        Some(found) => {
            let status = if snapshot.config.prefer_family.preferred() == Some(Family::V6) {
                Status::Pass
            } else {
                Status::Warn
            };
            let mut detail = owned("none; this machine is IPv6-only (");
            push_str(&mut detail, found.as_str());
            push_str(&mut detail, "), which works if the other device speaks IPv6");
            check("ipv4_address", owned("IPv4 address"), status, detail)
        },
    }
}

/// The default-route row.
pub fn default_route(snapshot: &Snapshot) -> (c: Check)
    ensures
        check_view(c) == route_check(*snapshot.state),
{
    let state = snapshot.state;
    let routes = state.default_routes();
    if routes.len() == 0 {
        return check(
            "default_route",
            owned("Default route"),
            Status::Fail,
            owned("none; this machine has no route off its own link"),
        );
    }
    let best = routes[0];
    let mut detail = String::new();
    match best.gateway {
        Some(g) => {
            push_str(&mut detail, "via ");
            g.push_text(&mut detail);
        },
        None => push_str(&mut detail, "on-link"),
    }
    push_str(&mut detail, " on ");
    let found = state.interface_by_index(best.interface_index);
    proof {
        match found {
            Some(p) => crate::event::lemma_first_indexed(state.interfaces@, best.interface_index, p as int),
            None => crate::event::lemma_first_indexed(
                state.interfaces@,
                best.interface_index,
                state.interfaces@.len() as int,
            ),
        }
    }
    match found {
        Some(p) => push_str(&mut detail, state.interfaces[p].name.as_str()),
        None => {
            push_str(&mut detail, "#");
            push_numeral(&mut detail, best.interface_index as u64, 10);
        },
    }
    push_and_more(&mut detail, routes.len());
    check("default_route", owned("Default route"), Status::Pass, detail)
}

/// The selected-address row.
pub fn selected_address(snapshot: &Snapshot) -> (c: Check)
    ensures
        check_view(c) == selected_check(*snapshot.selection, *snapshot.config),
{
    match &snapshot.selection.selected {
        None => check(
            "selected_address",
            owned("Selected address"),
            Status::Fail,
            snapshot.selection.failure_reason(snapshot.config),
        ),
        Some(selected) => {
            let mut detail = String::new();
            selected.ip.push_text(&mut detail);
            if selected.scope == AddressScope::Loopback {
                push_str(
                    &mut detail,
                    " is a loopback address, reachable only from this machine; it was selected because loopback is allowed",
                );
                check("selected_address", owned("Selected address"), Status::Warn, detail)
            } else {
                push_str(&mut detail, " (");
                push_str(&mut detail, selected.scope.as_str());
                push_str(&mut detail, ") on ");
                push_str(&mut detail, selected.interface.as_str());
                push_str(&mut detail, ", which is not loopback");
                check("selected_address", owned("Selected address"), Status::Pass, detail)
            }
        },
    }
}

/// The LAN row.
pub fn lan_candidate(snapshot: &Snapshot) -> (c: Check)
    ensures
        check_view(c) == lan_check(*snapshot.selection),
{
    let cands = &snapshot.selection.candidates;
    let mut n: usize = 0;
    let mut i: usize = 0;
    while i < cands.len()
        invariant
            i <= cands@.len(),
            n == reachable_count(cands@.subrange(0, i as int)),
            n <= i,
        decreases cands.len() - i,
    {
        assert(cands@.subrange(0, i + 1).drop_last() =~= cands@.subrange(0, i as int));
        if cands[i].is_eligible() && cands[i].address.scope.is_reachable_by_peers() {
            n = n + 1;
        }
        i = i + 1;
    }
    assert(cands@.subrange(0, cands@.len() as int) =~= cands@);
    if n == 0 {
        return check(
            "lan_candidate",
            owned("LAN reachable"),
            Status::Fail,
            owned(
                "no address on this machine is in a range another device on the network could reach",
            ),
        );
    }
    let mut detail = String::new();
    push_numeral(&mut detail, n as u64, 10);
    push_str(&mut detail, " address");
    if n != 1 {
        push_str(&mut detail, "es");
    }
    push_str(&mut detail, " another device could reach");
    check("lan_candidate", owned("LAN reachable"), Status::Pass, detail)
}

/// The port row.
pub fn port_row(port: u16, probe: &PortCheck) -> (c: Check)
    ensures
        check_view(c) == port_check(port, *probe),
{
    let mut detail = String::new();
    let status = match (probe.on_address, probe.on_wildcard) {
        (Availability::InUse, _) => {
            push_str(&mut detail, "already in use on ");
            probe.address.push_text(&mut detail);
            Status::Warn
        },
        (Availability::Free, Availability::InUse) => {
            push_str(&mut detail, "free on ");
            probe.address.push_text(&mut detail);
            push_str(&mut detail, ", but held elsewhere on this machine; a server binding ");
            probe.wildcard.push_text(&mut detail);
            push_str(&mut detail, " will fail");
            Status::Warn
        },
        (Availability::Free, _) => {
            push_str(&mut detail, "nothing is listening on ");
            probe.address.push_text(&mut detail);
            Status::Pass
        },
        (Availability::Undetermined, _) => {
            push_str(&mut detail, "AutoNet may not bind ");
            push_numeral(&mut detail, port as u64, 10);
            push_str(&mut detail, " as this user, so it could not be tested");
            Status::Unknown
        },
    };
    match holder_note(&probe.holder) {
        Some(note) => {
            if status != Status::Pass {
                push_str(&mut detail, ". ");
                push_str(&mut detail, note.as_str());
            }
        },
        None => {},
    }
    let mut label = owned("Port ");
    push_numeral(&mut label, port as u64, 10);
    check("port", label, status, detail)
}

/// The bind-address row, as guidance.
pub fn bind_address(selected: Option<&SelectedAddress>) -> (c: Check)
    ensures
        check_view(c) == bind_check(
            match selected {
                Some(s) => Some(*s),
                None => None,
            },
        ),
{
    let mut detail = owned("AutoNet cannot see what address your server binds. ");
    match selected {
        Some(address) => {
            if address.scope == AddressScope::Loopback {
                push_str(&mut detail, "Bound to ");
                address.ip.push_text(&mut detail);
                push_str(
                    &mut detail,
                    " it is reachable only from this machine; bound to the wildcard it answers on every address this machine has. Check your program's host or bind setting.",
                );
            } else {
                push_str(&mut detail, "If it binds ");
                address.ip.push_text(&mut detail);
                push_str(
                    &mut detail,
                    " specifically, it stops answering when the network changes; if it binds ",
                );
                if address.ip.is_ipv4() {
                    push_str(&mut detail, "0.0.0.0");
                } else {
                    push_str(&mut detail, "::");
                }
                push_str(
                    &mut detail,
                    ", it follows the change. Check your program's host or bind setting.",
                );
            }
        },
        None => {
            push_str(
                &mut detail,
                "A server bound to one specific address stops answering when the network changes; one bound to the wildcard follows it. Check your program's host or bind setting.",
            );
        },
    }
    check("bind_address", owned("Bind address"), Status::Unknown, detail)
}

/// Every check, in order: the operating system; then, with a snapshot, the
/// interface, IPv4, default-route, selected-address and LAN rows, the port
/// row when a port is known, and the bind-address row; without one, the same
/// five rows unknown (the first row carries the reason) and the bind row.
pub open spec fn checks_of(d: Diagnosis) -> Seq<(Seq<char>, Seq<char>, Status, Seq<char>)> {
    let os = os_check(
        d.os@,
        d.platform@,
        match d.network {
            Ok(_) => Ok::<(), Seq<char>>(()),
            Err(e) => Err(e@),
        },
    );
    match d.network {
        Err(_) => seq![
            os,
            deferred_check("network_interface"@, "Network interface"@),
            deferred_check("ipv4_address"@, "IPv4 address"@),
            deferred_check("default_route"@, "Default route"@),
            deferred_check("selected_address"@, "Selected address"@),
            deferred_check("lan_candidate"@, "LAN reachable"@),
            bind_check(None),
        ],
        Ok(s) => seq![
            os,
            interface_check(s.state.interfaces@),
            ipv4_check(s.state.interfaces@, *s.config),
            route_check(*s.state),
            selected_check(*s.selection, *s.config),
            lan_check(*s.selection),
        ] + (match d.port {
            Some(p) => seq![port_check(p.0, *p.1)],
            None => Seq::empty(),
        }) + seq![bind_check(s.selection.selected)],
    }
}

/// A row not checked because there is no snapshot.
fn deferred(id: &'static str, label: &'static str) -> (c: Check)
    ensures
        check_view(c) == deferred_check(id@, label@),
{
    check(id, owned(label), Status::Unknown, owned("not checked - there is no network snapshot to check"))
}

/// Run every check.
pub fn checks(diagnosis: &Diagnosis) -> (out: Vec<Check>)
    ensures
        checks_view(out@) == checks_of(*diagnosis),
{
    let mut out: Vec<Check> = Vec::new();
    out.push(operating_system(diagnosis));
    match &diagnosis.network {
        Err(_) => {
            out.push(deferred("network_interface", "Network interface"));
            out.push(deferred("ipv4_address", "IPv4 address"));
            out.push(deferred("default_route", "Default route"));
            out.push(deferred("selected_address", "Selected address"));
            out.push(deferred("lan_candidate", "LAN reachable"));
            out.push(bind_address(None));
            assert(checks_view(out@) =~= checks_of(*diagnosis));
            out
        },
        Ok(snapshot) => {
            out.push(network_interface(snapshot));
            out.push(ipv4_address(snapshot));
            out.push(default_route(snapshot));
            out.push(selected_address(snapshot));
            out.push(lan_candidate(snapshot));
            if let Some((port, probe)) = diagnosis.port {
                out.push(port_row(port, probe));
            }
            let selected = match &snapshot.selection.selected {
                Some(s) => Some(s),
                None => None,
            };
            out.push(bind_address(selected));
            assert(checks_view(out@) =~= checks_of(*diagnosis));
            out
        },
    }
}

/// Whether some check has the given status.
pub open spec fn any_status(checks: Seq<Check>, status: Status) -> bool {
    exists|k: int| 0 <= k < checks.len() && (#[trigger] checks[k]).status == status
}

/// The worst status that was actually checked: unknown rows are the absence
/// of a verdict, not a bad one.
pub open spec fn verdict_of(checks: Seq<Check>) -> Status {
    if any_status(checks, Status::Fail) {
        Status::Fail
    } else if any_status(checks, Status::Warn) {
        Status::Warn
    } else {
        Status::Pass
    }
}

/// Whether some check has the given status.
fn has_status(checks: &[Check], status: Status) -> (b: bool)
    ensures
        b == any_status(checks@, status),
{
    let mut i: usize = 0;
    while i < checks.len()
        invariant
            i <= checks@.len(),
            forall|k: int| 0 <= k < i ==> (#[trigger] checks@[k]).status != status,
        decreases checks.len() - i,
    {
        if checks[i].status == status {
            return true;
        }
        i = i + 1;
    }
    false
}

/// The worst thing that happened, ignoring what was never checked.
pub fn verdict(checks: &[Check]) -> (s: Status)
    ensures
        s == verdict_of(checks@),
{
    if has_status(checks, Status::Fail) {
        Status::Fail
    } else if has_status(checks, Status::Warn) {
        Status::Warn
    } else {
        Status::Pass
    }
}

/// Whether the exit code should be a success: only a real failure counts.
pub fn healthy(checks: &[Check]) -> (b: bool)
    ensures
        b == (verdict_of(checks@) != Status::Fail),
{
    verdict(checks) != Status::Fail
}

/// How many checks have the given status.
pub open spec fn status_count(checks: Seq<Check>, status: Status) -> nat
    decreases checks.len(),
{
    if checks.len() == 0 {
        0
    } else {
        status_count(checks.drop_last(), status) + if checks.last().status == status {
            1nat
        } else {
            0nat
        }
    }
}

/// `s` unless there is exactly one.
pub open spec fn plural_text(n: nat) -> Seq<char> {
    if n == 1 {
        Seq::empty()
    } else {
        "s"@
    }
}

/// The suffix for a count: nothing for one, `s` otherwise.
pub fn plural(n: usize) -> (s: &'static str)
    ensures
        s@ == plural_text(n as nat),
{
    if n == 1 {
        proof {
            reveal_strlit("");
        }
        ""
    } else {
        "s"
    }
}

/// The position of the first check with id `selected_address`.
pub open spec fn selected_row(checks: Seq<Check>) -> Option<int>
    decreases checks.len(),
{
    if checks.len() == 0 {
        None
    } else if checks[0].id@ == "selected_address"@ {
        Some(0)
    } else {
        match selected_row(checks.drop_first()) {
            Some(k) => Some(k + 1),
            None => None,
        }
    }
}

/// What the selected-address row means for the question AutoNet answers.
pub open spec fn outcome_text(checks: Seq<Check>) -> Seq<char> {
    match selected_row(checks) {
        Some(k) => match checks[k].status {
            Status::Pass => "AutoNet can give another device an address that reaches this machine."@,
            Status::Warn => "The selected address is loopback, so only this machine can reach it."@,
            Status::Fail => "AutoNet has no address to offer."@,
            Status::Unknown => "AutoNet could not get far enough to look for an address."@,
        },
        None => "AutoNet could not get far enough to look for an address."@,
    }
}

/// How the run went: failures, else warnings, else how many passed (never
/// counting an unverified row as a pass), then how many were not verified.
pub open spec fn tally_text(checks: Seq<Check>) -> Seq<char> {
    let failed = status_count(checks, Status::Fail);
    let warned = status_count(checks, Status::Warn);
    let unknown = status_count(checks, Status::Unknown);
    let head = if failed > 0 {
        decimal(failed) + " check"@ + plural_text(failed) + " failed"@
    } else if warned > 0 {
        decimal(warned) + " warning"@ + plural_text(warned) + ", nothing failed"@
    } else {
        "All "@ + decimal(status_count(checks, Status::Pass)) + " checks passed"@
    };
    if unknown > 0 {
        head + ", "@ + decimal(unknown) + " not verified"@
    } else {
        head
    }
}

/// The plain-language line under the checklist: the tally, then what it
/// means for the question AutoNet exists to answer.
pub open spec fn summary_text(checks: Seq<Check>) -> Seq<char> {
    tally_text(checks) + ". "@ + outcome_text(checks)
}

/// How many checks have the given status.
fn count_status(checks: &[Check], status: Status) -> (n: usize)
    ensures
        n == status_count(checks@, status),
{
    let mut n: usize = 0;
    let mut i: usize = 0;
    while i < checks.len()
        invariant
            i <= checks@.len(),
            n == status_count(checks@.subrange(0, i as int), status),
            n <= i,
        decreases checks.len() - i,
    {
        assert(checks@.subrange(0, i + 1).drop_last() =~= checks@.subrange(0, i as int));
        if checks[i].status == status {
            n = n + 1;
        }
        i = i + 1;
    }
    assert(checks@.subrange(0, checks@.len() as int) =~= checks@);
    n
}

/// `selected_row` is the first position whose id is `selected_address`.
proof fn lemma_selected_row(checks: Seq<Check>, p: int)
    requires
        0 <= p <= checks.len(),
        forall|j: int| 0 <= j < p ==> (#[trigger] checks[j]).id@ != "selected_address"@,
        p == checks.len() || checks[p].id@ == "selected_address"@,
    ensures
        selected_row(checks) == (if p == checks.len() {
            None
        } else {
            Some(p)
        }),
    decreases checks.len(),
{
    if checks.len() > 0 && p > 0 {
        assert forall|j: int| 0 <= j < p - 1 implies (#[trigger] checks.drop_first()[j]).id@
            != "selected_address"@ by {
            assert(checks.drop_first()[j] == checks[j + 1]);
        }
        lemma_selected_row(checks.drop_first(), p - 1);
    }
}

/// The position of the selected-address row.
fn find_selected_row(checks: &[Check]) -> (r: Option<usize>)
    ensures
        match r {
            Some(k) => k < checks@.len() && selected_row(checks@) == Some(k as int),
            None => selected_row(checks@) is None,
        },
{
    let mut i: usize = 0;
    while i < checks.len() && !crate::text::str_eq(checks[i].id, "selected_address")
        invariant
            i <= checks@.len(),
            forall|j: int| 0 <= j < i ==> (#[trigger] checks@[j]).id@ != "selected_address"@,
        decreases checks.len() - i,
    {
        i = i + 1;
    }
    proof {
        lemma_selected_row(checks@, i as int);
    }
    if i < checks.len() {
        Some(i)
    } else {
        None
    }
}

/// The plain-language line under the checklist.
pub fn summary(checks: &[Check]) -> (s: String)
    ensures
        s@ == summary_text(checks@),
{
    let failed = count_status(checks, Status::Fail);
    let warned = count_status(checks, Status::Warn);
    let unknown = count_status(checks, Status::Unknown);
    let mut s = String::new();
    if failed > 0 {
        push_numeral(&mut s, failed as u64, 10);
        push_str(&mut s, " check");
        push_str(&mut s, plural(failed));
        push_str(&mut s, " failed");
    } else if warned > 0 {
        push_numeral(&mut s, warned as u64, 10);
        push_str(&mut s, " warning");
        push_str(&mut s, plural(warned));
        push_str(&mut s, ", nothing failed");
    } else {
        push_str(&mut s, "All ");
        push_numeral(&mut s, count_status(checks, Status::Pass) as u64, 10);
        push_str(&mut s, " checks passed");
    }
    if unknown > 0 {
        push_str(&mut s, ", ");
        push_numeral(&mut s, unknown as u64, 10);
        push_str(&mut s, " not verified");
    }
    push_str(&mut s, ". ");
    let found = match find_selected_row(checks) {
        Some(k) => Some(checks[k].status),
        None => None,
    };
    match found {
        Some(Status::Pass) => push_str(&mut s, "AutoNet can give another device an address that reaches this machine."),
        Some(Status::Warn) => push_str(&mut s, "The selected address is loopback, so only this machine can reach it."),
        Some(Status::Fail) => push_str(&mut s, "AutoNet has no address to offer."),
        _ => push_str(&mut s, "AutoNet could not get far enough to look for an address."),
    }
    s
}

// ---------------------------------------------------------------------------
// Rendering
// ---------------------------------------------------------------------------

/// The words of `s`: its maximal runs of non-whitespace, in order
/// (`str::split_whitespace`).
pub open spec fn words_of(s: Seq<char>) -> Seq<Seq<char>>
    decreases s.len(),
{
    if s.len() == 0 {
        Seq::empty()
    } else if is_whitespace(s.last()) {
        words_of(s.drop_last())
    } else if s.len() >= 2 && !is_whitespace(s[s.len() - 2]) {
        let w = words_of(s.drop_last());
        w.update(w.len() - 1, w.last().push(s.last()))
    } else {
        words_of(s.drop_last()).push(seq![s.last()])
    }
}

/// Greedy wrapping of `words`: the finished lines, and the line being
/// filled. A word joins the current line when the line and a space and the
/// word fit in `width`; otherwise it starts the next line, even when it is
/// longer than `width` on its own (an address split in two is unusable).
pub open spec fn wrap_words(words: Seq<Seq<char>>, width: int) -> (Seq<Seq<char>>, Seq<char>)
    decreases words.len(),
{
    if words.len() == 0 {
        (Seq::empty(), Seq::empty())
    } else {
        let (lines, line) = wrap_words(words.drop_last(), width);
        let w = words.last();
        if line.len() == 0 {
            (lines, w)
        } else if line.len() + 1 + w.len() <= width {
            (lines, line + seq![' '] + w)
        } else {
            (lines.push(line), w)
        }
    }
}

/// `text` wrapped to `width`: at least one line, empty when the text has no
/// words.
pub open spec fn wrapped(text: Seq<char>, width: int) -> Seq<Seq<char>> {
    let (lines, line) = wrap_words(words_of(text), width);
    let all = if line.len() > 0 {
        lines.push(line)
    } else {
        lines
    };
    if all.len() == 0 {
        seq![Seq::empty()]
    } else {
        all
    }
}

/// Words are never empty.
proof fn lemma_words_nonempty(s: Seq<char>)
    ensures
        forall|k: int| 0 <= k < words_of(s).len() ==> (#[trigger] words_of(s)[k]).len() > 0,
    decreases s.len(),
{
    if s.len() > 0 {
        lemma_words_nonempty(s.drop_last());
        if !is_whitespace(s.last()) && s.len() >= 2 && !is_whitespace(s[s.len() - 2]) {
            lemma_words_open(s.drop_last());
        }
    }
}

/// A text ending in a non-whitespace character has a last word.
proof fn lemma_words_open(s: Seq<char>)
    requires
        s.len() > 0,
        !is_whitespace(s.last()),
    ensures
        words_of(s).len() > 0,
    decreases s.len(),
{
    if s.len() >= 2 && !is_whitespace(s[s.len() - 2]) {
        lemma_words_open(s.drop_last());
    }
}

/// The current line is empty only before the first word.
proof fn lemma_wrap_line(words: Seq<Seq<char>>, width: int)
    requires
        forall|k: int| 0 <= k < words.len() ==> (#[trigger] words[k]).len() > 0,
    ensures
        words.len() > 0 ==> wrap_words(words, width).1.len() > 0,
    decreases words.len(),
{
    if words.len() > 0 {
        lemma_wrap_line(words.drop_last(), width);
    }
}

/// Greedy word wrap.
pub fn wrap(text: &str, width: usize) -> (lines: Vec<String>)
    ensures
        lines@.map_values(|l: String| l@) == wrapped(text@, width as int),
{
    let n = text.unicode_len();
    let ghost t = text@;
    let mut lines: Vec<String> = Vec::new();
    let mut line = String::new();
    let mut word = String::new();
    let mut i: usize = 0;
    proof {
        assert(t.subrange(0, 0) =~= Seq::<char>::empty());
    }
    while i < n
        invariant
            n == t.len(),
            t == text@,
            i <= n,
            word@.len() > 0 ==> (i > 0 && !is_whitespace(t[i - 1])),
            word@.len() == 0 ==> (i == 0 || is_whitespace(t[i - 1])),
            ({
                let done = if word@.len() > 0 {
                    words_of(t.subrange(0, i as int)).drop_last()
                } else {
                    words_of(t.subrange(0, i as int))
                };
                &&& wrap_words(done, width as int) == (lines@.map_values(|l: String| l@), line@)
                &&& word@.len() > 0 ==> words_of(t.subrange(0, i as int)).len() > 0
                    && words_of(t.subrange(0, i as int)).last() == word@
            }),
        decreases n - i,
    {
        let c = text.get_char(i);
        let ghost pre = t.subrange(0, i as int);
        let ghost next = t.subrange(0, i + 1);
        proof {
            assert(next.drop_last() =~= pre);
            assert(next.last() == c);
        }
        if crate::text::whitespace(c) {
            if word.as_str().unicode_len() > 0 {
                let ghost before_lines = lines@.map_values(|l: String| l@);
                let ghost before_line = line@;
                self::place_word(&mut lines, &mut line, &word, width);
                proof {
                    let done = words_of(pre).drop_last();
                    assert(words_of(pre) =~= done.push(word@));
                    assert(done.push(word@).drop_last() =~= done);
                }
                word = String::new();
            }
        } else {
            proof {
                if i > 0 && !is_whitespace(t[i - 1]) {
                    assert(pre[pre.len() - 1] == t[i - 1]);
                    lemma_words_open(pre);
                    let w = words_of(pre);
                    assert(words_of(next) == w.update(w.len() - 1, w.last().push(c)));
                    assert(words_of(next).drop_last() =~= w.drop_last());
                } else {
                    if i > 0 {
                        assert(next[next.len() - 2] == t[i - 1]);
                    }
                    assert(words_of(next) == words_of(pre).push(seq![c]));
                    assert(words_of(next).drop_last() =~= words_of(pre));
                }
            }
            push_char(&mut word, c);
        }
        i = i + 1;
    }
    proof {
        assert(t.subrange(0, n as int) =~= t);
    }
    if word.as_str().unicode_len() > 0 {
        self::place_word(&mut lines, &mut line, &word, width);
        proof {
            let done = words_of(t).drop_last();
            assert(words_of(t) =~= done.push(word@));
            assert(done.push(word@).drop_last() =~= done);
        }
    }
    proof {
        lemma_words_nonempty(t);
        lemma_wrap_line(words_of(t), width as int);
    }
    if line.as_str().unicode_len() > 0 {
        let ghost before = lines@.map_values(|l: String| l@);
        lines.push(line);
        assert(lines@.map_values(|l: String| l@) =~= before.push(lines@.last()@));
    }
    if lines.len() == 0 {
        lines.push(String::new());
        assert(lines@.map_values(|l: String| l@) =~= seq![Seq::<char>::empty()]);
    }
    lines
}

/// Place one more word: on the current line if it fits, else on a new one.
fn place_word(lines: &mut Vec<String>, line: &mut String, word: &String, width: usize)
    ensures
        ({
            let before = (old(lines)@.map_values(|l: String| l@), old(line)@);
            let w = word@;
            let after = if before.1.len() == 0 {
                (before.0, w)
            } else if before.1.len() + 1 + w.len() <= width {
                (before.0, before.1 + seq![' '] + w)
            } else {
                (before.0.push(before.1), w)
            };
            (final(lines)@.map_values(|l: String| l@), final(line)@) == after
        }),
{
    let len = line.as_str().unicode_len();
    let wlen = word.as_str().unicode_len();
    if len == 0 {
        push_str(line, word.as_str());
    } else if wlen <= width && len <= width - wlen && width - wlen - len >= 1 {
        push_char(line, ' ');
        push_str(line, word.as_str());
    } else {
        let ghost before = lines@.map_values(|l: String| l@);
        let mut finished = String::new();
        std::mem::swap(&mut finished, line);
        lines.push(finished);
        assert(lines@.map_values(|l: String| l@) =~= before.push(old(line)@));
        push_str(line, word.as_str());
    }
}

/// The widest label among `checks`, in characters.
pub open spec fn label_width(checks: Seq<Check>) -> int
    decreases checks.len(),
{
    if checks.len() == 0 {
        0
    } else {
        let w = label_width(checks.drop_last());
        if checks.last().label@.len() > w {
            checks.last().label@.len() as int
        } else {
            w
        }
    }
}

/// `s` padded with spaces to `w` characters.
pub open spec fn pad_to(s: Seq<char>, w: int) -> Seq<char> {
    s + spaces((if w > s.len() {
        w - s.len()
    } else {
        0
    }) as nat)
}

/// Lines each indented by `g` spaces and ended.
pub open spec fn indented_lines(lines: Seq<Seq<char>>, g: int) -> Seq<char>
    decreases lines.len(),
{
    if lines.len() == 0 {
        Seq::empty()
    } else {
        indented_lines(lines.drop_last(), g) + spaces(g as nat) + lines.last() + seq!['\n']
    }
}

/// One check as printed: its coloured token, padded label and the first line
/// of its wrapped detail (trailing space trimmed), then the rest of the
/// detail under the detail column.
pub open spec fn check_block(c: Check, colours: bool, lw: int, g: int, dw: int) -> Seq<char> {
    let lines = wrapped(c.detail@, dw);
    trimmed_end("  "@ + c.status.painted(colours) + "  "@ + pad_to(c.label@, lw) + "  "@ + lines[0])
        + seq!['\n'] + indented_lines(lines.drop_first(), g)
}

/// Every check as printed.
pub open spec fn check_blocks(checks: Seq<Check>, colours: bool, lw: int, g: int, dw: int) -> Seq<char>
    decreases checks.len(),
{
    if checks.len() == 0 {
        Seq::empty()
    } else {
        check_blocks(checks.drop_last(), colours, lw, g, dw) + check_block(checks.last(), colours, lw, g, dw)
    }
}

/// The text report: a heading with the platform, the checklist with labels
/// padded to the widest and details wrapped to the width left over (at
/// least 24 columns), then the summary wrapped to 78.
pub open spec fn report_text(platform: Seq<char>, checks: Seq<Check>, colours: bool) -> Seq<char> {
    let lw = label_width(checks);
    let g = 2 + 6 + 2 + lw + 2;
    let dw = if 78 - g > 24 {
        78 - g
    } else {
        24
    };
    (if colours {
        crate::cli::render::bold_text("AutoNet doctor"@)
    } else {
        "AutoNet doctor"@
    }) + seq![' '] + (if colours {
        dim_text(platform)
    } else {
        platform
    }) + seq!['\n', '\n'] + check_blocks(checks, colours, lw, g, dw) + seq!['\n'] + indented_lines(
        wrapped(summary_text(checks), 78),
        0,
    )
}

/// Append each line, indented by `g` spaces and ended.
fn push_indented(out: &mut String, lines: &Vec<String>, from: usize, g: usize)
    requires
        from <= lines@.len(),
    ensures
        final(out)@ == old(out)@ + indented_lines(
            lines@.map_values(|l: String| l@).subrange(from as int, lines@.len() as int),
            g as int,
        ),
{
    let ghost lv = lines@.map_values(|l: String| l@);
    let mut i = from;
    assert(lv.subrange(from as int, from as int) =~= Seq::<Seq<char>>::empty());
    while i < lines.len()
        invariant
            from <= i <= lines@.len(),
            lv == lines@.map_values(|l: String| l@),
            out@ == old(out)@ + indented_lines(lv.subrange(from as int, i as int), g as int),
        decreases lines.len() - i,
    {
        assert(lv.subrange(from as int, i + 1).drop_last() =~= lv.subrange(from as int, i as int));
        crate::cli::render::push_spaces(out, g);
        push_str(out, lines[i].as_str());
        push_char(out, '\n');
        i = i + 1;
    }
}

/// The text report: the checklist, then the summary line.
pub fn report(platform: &str, checks: &[Check], theme: Theme) -> (out: String)
    requires
        forall|k: int| 0 <= k < checks@.len() ==> (#[trigger] checks@[k]).label@.len() <= usize::MAX - 12,
    ensures
        out@ == report_text(platform@, checks@, theme.colours()),
{
    let mut out = theme.heading("AutoNet doctor");
    push_char(&mut out, ' ');
    let muted = theme.muted(platform);
    push_str(&mut out, muted.as_str());
    push_char(&mut out, '\n');
    push_char(&mut out, '\n');
    let mut lw: usize = 0;
    let mut k: usize = 0;
    while k < checks.len()
        invariant
            k <= checks@.len(),
            lw == label_width(checks@.subrange(0, k as int)),
            lw <= usize::MAX - 12,
            forall|j: int| 0 <= j < checks@.len() ==> (#[trigger] checks@[j]).label@.len() <= usize::MAX - 12,
        decreases checks.len() - k,
    {
        assert(checks@.subrange(0, k + 1).drop_last() =~= checks@.subrange(0, k as int));
        let n = checks[k].label.as_str().unicode_len();
        if n > lw {
            lw = n;
        }
        k = k + 1;
    }
    assert(checks@.subrange(0, checks@.len() as int) =~= checks@);
    let g: usize = if lw <= usize::MAX - 12 {
        2 + 6 + 2 + lw + 2
    } else {
        usize::MAX
    };
    let ghost colours = theme.colours();
    let ghost lwi = label_width(checks@);
    let ghost gi = 2 + 6 + 2 + lwi + 2;
    let dw: usize = if LINE_WIDTH > g && LINE_WIDTH - g > MIN_DETAIL {
        LINE_WIDTH - g
    } else {
        MIN_DETAIL
    };
    let ghost head = out@;
    let mut i: usize = 0;
    while i < checks.len()
        invariant
            i <= checks@.len(),
            lw == lwi,
            lwi == label_width(checks@),
            dw == (if 78 - gi > 24 {
                78 - gi
            } else {
                24
            }),
            colours == theme.colours(),
            g == gi,
            out@ == head + check_blocks(checks@.subrange(0, i as int), colours, lwi, gi, dw as int),
        decreases checks.len() - i,
    {
        assert(checks@.subrange(0, i + 1).drop_last() =~= checks@.subrange(0, i as int));
        let c = &checks[i];
        let wrapped_detail = wrap(c.detail.as_str(), dw);
        proof {
            let lv = wrapped_detail@.map_values(|l: String| l@);
            assert(lv.len() == wrapped_detail@.len());
            assert(wrapped(c.detail@, dw as int).len() >= 1);
        }
        let mut line = String::new();
        push_str(&mut line, "  ");
        let token = c.status.paint(theme);
        push_str(&mut line, token.as_str());
        push_str(&mut line, "  ");
        push_str(&mut line, c.label.as_str());
        let len = c.label.as_str().unicode_len();
        if lw > len {
            crate::cli::render::push_spaces(&mut line, lw - len);
        }
        push_str(&mut line, "  ");
        push_str(&mut line, wrapped_detail[0].as_str());
        proof {
            let lv = wrapped_detail@.map_values(|l: String| l@);
            assert(lv[0] == wrapped_detail@[0]@);
            assert(line@ =~= "  "@ + c.status.painted(colours) + "  "@ + pad_to(c.label@, lwi) + "  "@ + lv[0]);
        }
        let trimmed = crate::cli::render::trim_end(line.as_str());
        push_str(&mut out, trimmed.as_str());
        push_char(&mut out, '\n');
        push_indented(&mut out, &wrapped_detail, 1, g);
        proof {
            let lv = wrapped_detail@.map_values(|l: String| l@);
            assert(lv.subrange(1, lv.len() as int) =~= lv.drop_first());
        }
        i = i + 1;
    }
    push_char(&mut out, '\n');
    let summary_line = summary(checks);
    let wrapped_summary = wrap(summary_line.as_str(), LINE_WIDTH);
    push_indented(&mut out, &wrapped_summary, 0, 0);
    proof {
        let lv = wrapped_summary@.map_values(|l: String| l@);
        assert(lv.subrange(0, lv.len() as int) =~= lv);
    }
    out
}

// ---------------------------------------------------------------------------
// Laws
// ---------------------------------------------------------------------------

/// A row that was not checked never makes the verdict worse: adding one
/// leaves the verdict as it was.
pub proof fn law_unknown_never_worsens(checks: Seq<Check>, c: Check)
    requires
        c.status == Status::Unknown,
    ensures
        verdict_of(checks.push(c)) == verdict_of(checks),
{
    let all = checks.push(c);
    assert(any_status(all, Status::Fail) == any_status(checks, Status::Fail)) by {
        if any_status(all, Status::Fail) {
            let k = choose|k: int| 0 <= k < all.len() && (#[trigger] all[k]).status == Status::Fail;
            assert(k < checks.len());
            assert(checks[k] == all[k]);
        }
        if any_status(checks, Status::Fail) {
            let k = choose|k: int| 0 <= k < checks.len() && (#[trigger] checks[k]).status == Status::Fail;
            assert(all[k] == checks[k]);
        }
    }
    assert(any_status(all, Status::Warn) == any_status(checks, Status::Warn)) by {
        if any_status(all, Status::Warn) {
            let k = choose|k: int| 0 <= k < all.len() && (#[trigger] all[k]).status == Status::Warn;
            assert(k < checks.len());
            assert(checks[k] == all[k]);
        }
        if any_status(checks, Status::Warn) {
            let k = choose|k: int| 0 <= k < checks.len() && (#[trigger] checks[k]).status == Status::Warn;
            assert(all[k] == checks[k]);
        }
    }
}

/// Whether a row was actually checked.
pub open spec fn checked() -> spec_fn(Check) -> bool {
    |c: Check| c.status != Status::Unknown
}

/// A status other than unknown occurs among the rows exactly when it occurs
/// among the rows that were checked.
proof fn lemma_status_among_checked(s: Seq<Check>, st: Status)
    requires
        st != Status::Unknown,
    ensures
        any_status(s, st) == any_status(s.filter(checked()), st),
    decreases s.len(),
{
    reveal(Seq::filter);
    if s.len() > 0 {
        let rest = s.drop_last();
        lemma_status_among_checked(rest, st);
        let f = rest.filter(checked());
        assert(s.filter(checked()) == if checked()(s.last()) {
            f.push(s.last())
        } else {
            f
        });
        if any_status(s, st) {
            let k = choose|k: int| 0 <= k < s.len() && (#[trigger] s[k]).status == st;
            if k < s.len() - 1 {
                assert(rest[k] == s[k]);
                let j = choose|j: int| 0 <= j < f.len() && (#[trigger] f[j]).status == st;
                assert(s.filter(checked())[j] == f[j]);
            } else {
                assert(s.filter(checked())[f.len() as int] == s.last());
            }
        }
        if any_status(s.filter(checked()), st) {
            let g = s.filter(checked());
            let j = choose|j: int| 0 <= j < g.len() && (#[trigger] g[j]).status == st;
            if j < f.len() {
                assert(g[j] == f[j]);
                let k = choose|k: int| 0 <= k < rest.len() && (#[trigger] rest[k]).status == st;
                assert(s[k] == rest[k]);
            } else {
                assert(s[s.len() - 1] == s.last());
            }
        }
    }
}

/// Inserting or deleting unknown rows, anywhere in the list, leaves the
/// verdict as it was.
pub proof fn law_unknown_rows_never_matter(a: Seq<Check>, b: Seq<Check>)
    requires
        a.filter(checked()) == b.filter(checked()),
    ensures
        verdict_of(a) == verdict_of(b),
{
    lemma_status_among_checked(a, Status::Fail);
    lemma_status_among_checked(b, Status::Fail);
    lemma_status_among_checked(a, Status::Warn);
    lemma_status_among_checked(b, Status::Warn);
}

/// The run is healthy exactly when no row failed; warnings and unknown rows
/// never fail it.
pub proof fn law_healthy_iff_nothing_failed(checks: Seq<Check>)
    ensures
        (verdict_of(checks) != Status::Fail) == !any_status(checks, Status::Fail),
{
}

/// The bind-address row is always last and always unknown: it is guidance,
/// and never claims to have checked anything.
pub proof fn law_bind_row_is_unknown(d: Diagnosis)
    ensures
        checks_of(d).len() > 0,
        checks_of(d).last().0 == "bind_address"@,
        checks_of(d).last().2 == Status::Unknown,
{
}

/// The ids of the checks, in order.
pub open spec fn check_ids(v: Seq<(Seq<char>, Seq<char>, Status, Seq<char>)>) -> Seq<Seq<char>> {
    v.map_values(|c: (Seq<char>, Seq<char>, Status, Seq<char>)| c.0)
}

/// The same rows, with the same ids in the same order, whether or not a
/// snapshot could be taken (and no port was given): a JSON consumer never
/// meets a row that appears only sometimes.
pub proof fn law_same_rows_either_way(with_snapshot: Diagnosis, without: Diagnosis)
    requires
        with_snapshot.network is Ok,
        with_snapshot.port is None,
        without.network is Err,
    ensures
        check_ids(checks_of(with_snapshot)) == check_ids(checks_of(without)),
        check_ids(checks_of(without)) == seq![
            "operating_system"@,
            "network_interface"@,
            "ipv4_address"@,
            "default_route"@,
            "selected_address"@,
            "lan_candidate"@,
            "bind_address"@,
        ],
{
    assert(check_ids(checks_of(with_snapshot)) =~= check_ids(checks_of(without)));
    assert(check_ids(checks_of(without)) =~= seq![
        "operating_system"@,
        "network_interface"@,
        "ipv4_address"@,
        "default_route"@,
        "selected_address"@,
        "lan_candidate"@,
        "bind_address"@,
    ]);
}

} // verus!
