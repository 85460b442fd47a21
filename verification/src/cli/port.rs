//! Is the port already taken, and by whom: the wording of the warning.
//!
//! It warns; it never refuses. `--port` says what URL to print, not what the
//! command will bind, so a busy port is a very good guess about a problem and
//! not a fact about one. The evidence is a real bind, made by the caller.

use vstd::prelude::*;

use crate::ip::IpAddr;
use crate::platform::holder::PortHolder;
use crate::text::{decimal, push_numeral, push_str};

verus! {

/// What a real bind attempt said about a port.
#[derive(Debug, Clone, Copy, PartialEq, Eq, Structural)]
pub enum Availability {
    /// The bind succeeded, and was released again immediately.
    Free,
    /// The bind was refused with `EADDRINUSE`: the only positive evidence.
    InUse,
    /// The bind failed for a reason that says nothing about the port, such as
    /// `EACCES` for a privileged port.
    Undetermined,
}

/// What two probes and a table lookup found out about one port.
#[derive(Debug)]
pub struct PortCheck {
    /// The address AutoNet selected.
    pub address: IpAddr,
    /// The wildcard in that address's family.
    pub wildcard: IpAddr,
    /// Whether the selected address is bindable.
    pub on_address: Availability,
    /// Whether the wildcard is bindable.
    pub on_wildcard: Availability,
    /// Who holds it, as far as this platform will say.
    pub holder: PortHolder,
}

/// The any-address of the same family.
pub fn wildcard_for(address: IpAddr) -> (w: IpAddr)
    ensures
        w.spec_is_unspecified(),
        w.spec_is_v4() == address.spec_is_v4(),
{
    address.wildcard_of()
}

/// Which address to ask the platform about, after the two probes: the one
/// whose bind was refused, the selected address first; none when neither
/// was, since the lookup walks every process on the machine.
pub fn holder_target(address: IpAddr, on_address: Availability, on_wildcard: Availability) -> (t:
    Option<IpAddr>)
    ensures
        on_address == Availability::InUse ==> t == Some(address),
        on_address != Availability::InUse && on_wildcard == Availability::InUse ==> (t matches Some(
            w,
        ) && w.spec_is_unspecified() && w.spec_is_v4() == address.spec_is_v4()),
        on_address != Availability::InUse && on_wildcard != Availability::InUse ==> t is None,
{
    if on_address == Availability::InUse {
        Some(address)
    } else if on_wildcard == Availability::InUse {
        Some(wildcard_for(address))
    } else {
        None
    }
}

/// What the probes found, put together; the holder is `NotListed` when
/// there was no one to ask about (see [`holder_target`]).
pub fn port_check(
    address: IpAddr,
    on_address: Availability,
    on_wildcard: Availability,
    holder: Option<PortHolder>,
) -> (c: PortCheck)
    ensures
        c.address == address,
        c.wildcard.spec_is_unspecified() && c.wildcard.spec_is_v4() == address.spec_is_v4(),
        c.on_address == on_address,
        c.on_wildcard == on_wildcard,
        c.holder == (match holder {
            Some(h) => h,
            None => PortHolder::NotListed,
        }),
{
    PortCheck {
        address,
        wildcard: wildcard_for(address),
        on_address,
        on_wildcard,
        holder: match holder {
            Some(h) => h,
            None => PortHolder::NotListed,
        },
    }
}

/// How a platform's answer about the holder reads; nothing when no listener
/// was found.
pub open spec fn holder_text(holder: PortHolder) -> Option<Seq<char>> {
    match holder {
        PortHolder::Named { pid, name } => Some(
            "It is held by "@ + name@ + " (pid "@ + decimal(pid as nat) + ")."@,
        ),
        PortHolder::Unnamed { pid } => Some("It is held by pid "@ + decimal(pid as nat) + "."@),
        PortHolder::OtherUser { uid } => Some(
            "It is held by a process owned by uid "@ + decimal(uid as nat)
                + ", which this user may not inspect."@,
        ),
        PortHolder::NotListed => None,
        PortHolder::Unsupported { platform } => Some(
            "AutoNet cannot identify which process holds a port on "@ + platform@ + "."@,
        ),
    }
}

/// How this platform names the holder, if it will. Every variant is
/// phrased, including the ones that decline.
pub fn holder_note(holder: &PortHolder) -> (n: Option<String>)
    ensures
        match n {
            Some(s) => holder_text(*holder) == Some(s@),
            None => holder_text(*holder) is None,
        },
{
    let mut s = String::new();
    match holder {
        PortHolder::Named { pid, name } => {
            push_str(&mut s, "It is held by ");
            push_str(&mut s, name.as_str());
            push_str(&mut s, " (pid ");
            push_numeral(&mut s, *pid as u64, 10);
            push_str(&mut s, ").");
        },
        PortHolder::Unnamed { pid } => {
            push_str(&mut s, "It is held by pid ");
            push_numeral(&mut s, *pid as u64, 10);
            push_str(&mut s, ".");
        },
        PortHolder::OtherUser { uid } => {
            push_str(&mut s, "It is held by a process owned by uid ");
            push_numeral(&mut s, *uid as u64, 10);
            push_str(&mut s, ", which this user may not inspect.");
        },
        PortHolder::NotListed => {
            return None;
        },
        PortHolder::Unsupported { platform } => {
            push_str(&mut s, "AutoNet cannot identify which process holds a port on ");
            push_str(&mut s, platform);
            push_str(&mut s, ".");
        },
    }
    Some(s)
}

/// The situation and the advice a port check calls for, or nothing to say.
pub open spec fn port_situation(check: PortCheck, port: u16) -> Option<(Seq<char>, Seq<char>)> {
    match (check.on_address, check.on_wildcard) {
        (Availability::InUse, _) => Some(
            (
                "port "@ + decimal(port as nat) + " is already in use on "@ + check.address.text()
                    + "."@,
                "Starting the command anyway: --port renders URLs, it does not choose what the command binds."@,
            ),
        ),
        (Availability::Free, Availability::InUse) => Some(
            (
                "port "@ + decimal(port as nat) + " is free on "@ + check.address.text()
                    + ", but held elsewhere on this machine."@,
                "A command that binds "@ + check.wildcard.text() + " will fail; one that binds "@
                    + check.address.text() + " will not."@,
            ),
        ),
        _ => None,
    }
}

/// The warning for a port check: the situation, what the platform says of
/// the holder, and the advice.
pub open spec fn port_warning(check: PortCheck, port: u16) -> Option<Seq<char>> {
    match port_situation(check, port) {
        None => None,
        Some((situation, advice)) => Some(
            match holder_text(check.holder) {
                Some(note) => situation + " "@ + note + " "@ + advice,
                None => situation + " "@ + advice,
            },
        ),
    }
}

/// The warning to print, or nothing if there is nothing to say: in use on
/// the selected address, or free there but held on the wildcard.
pub fn describe(check: &PortCheck, port: u16) -> (w: Option<String>)
    ensures
        match w {
            Some(s) => port_warning(*check, port) == Some(s@),
            None => port_warning(*check, port) is None,
        },
{
    let mut situation = String::new();
    let mut advice = String::new();
    match (check.on_address, check.on_wildcard) {
        (Availability::InUse, _) => {
            push_str(&mut situation, "port ");
            push_numeral(&mut situation, port as u64, 10);
            push_str(&mut situation, " is already in use on ");
            check.address.push_text(&mut situation);
            push_str(&mut situation, ".");
            push_str(
                &mut advice,
                "Starting the command anyway: --port renders URLs, it does not choose what the command binds.",
            );
        },
        (Availability::Free, Availability::InUse) => {
            push_str(&mut situation, "port ");
            push_numeral(&mut situation, port as u64, 10);
            push_str(&mut situation, " is free on ");
            check.address.push_text(&mut situation);
            push_str(&mut situation, ", but held elsewhere on this machine.");
            push_str(&mut advice, "A command that binds ");
            check.wildcard.push_text(&mut advice);
            push_str(&mut advice, " will fail; one that binds ");
            check.address.push_text(&mut advice);
            push_str(&mut advice, " will not.");
        },
        _ => {
            return None;
        },
    }
    let mut out = situation;
    push_str(&mut out, " ");
    match holder_note(&check.holder) {
        Some(note) => {
            push_str(&mut out, note.as_str());
            push_str(&mut out, " ");
        },
        None => {},
    }
    push_str(&mut out, advice.as_str());
    Some(out)
}

} // verus!
