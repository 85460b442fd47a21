//! The pure parts of reading `getifaddrs` on macOS: what the interface flags
//! say about a link's state, and what is known of an interface that only
//! the address list mentioned.

use vstd::prelude::*;

use crate::model::{Interface, InterfaceFlags, InterfaceKind, InterfaceState, KindView};
use crate::platform::linktype::UNCLASSIFIED;
use crate::text::owned;

verus! {

/// `IFF_UP`.
pub const IFF_UP: u32 = 0x1;

/// `IFF_RUNNING`.
pub const IFF_RUNNING: u32 = 0x40;

/// A link's state from its flags: down unless administratively up; up when
/// also running; otherwise unknown, not down, since tunnels commonly report
/// up-but-not-running while passing traffic. macOS has nothing like Linux's
/// dormant state.
pub open spec fn state_of_flags(flags: u32) -> InterfaceState {
    if flags & IFF_UP == 0 {
        InterfaceState::Down
    } else if flags & IFF_RUNNING != 0 {
        InterfaceState::Up
    } else {
        InterfaceState::Unknown
    }
}

/// A link's state from its `ifa_flags`.
pub fn interface_state(flags: u32) -> (s: InterfaceState)
    ensures
        s == state_of_flags(flags),
{
    if flags & IFF_UP == 0 {
        InterfaceState::Down
    } else if flags & IFF_RUNNING != 0 {
        InterfaceState::Up
    } else {
        InterfaceState::Unknown
    }
}

/// An interface that appeared in the address list but not in the link
/// walk. With no link record there are no flags and no link type to
/// classify from, so it is reported as unclassified and of unknown state,
/// with nothing else known of it; its index is zero where none was given.
pub fn orphan(name: &str, index: Option<u32>) -> (i: Interface)
    ensures
        i.name@ == name@,
        i.index == (match index {
            Some(x) => x,
            None => 0,
        }),
        i.kind@ == KindView::Other("unclassified"@),
        i.state == InterfaceState::Unknown,
        !i.flags.up && !i.flags.running && !i.flags.loopback && !i.flags.broadcast
            && !i.flags.point_to_point && !i.flags.multicast,
        i.mac is None,
        i.mtu is None,
        i.addresses@.len() == 0,
{
    Interface {
        name: owned(name),
        index: match index {
            Some(x) => x,
            None => 0,
        },
        kind: InterfaceKind::other(UNCLASSIFIED),
        state: InterfaceState::Unknown,
        flags: InterfaceFlags {
            up: false,
            running: false,
            loopback: false,
            broadcast: false,
            point_to_point: false,
            multicast: false,
        },
        mac: None,
        mtu: None,
        addresses: Vec::new(),
    }
}

} // verus!
