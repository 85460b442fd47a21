//! Who holds a port on Linux, decided from what `/proc` says: the socket
//! tables, this process's own uid, the process whose descriptors point at
//! the socket, and that process's name. Reading `/proc` is the caller's
//! business; each function here takes what was read and says what it means.

use vstd::prelude::*;

use crate::ip::IpAddr;
use crate::platform::holder::PortHolder;
use crate::platform::portmatch::{collides, collision};
use crate::platform::procnet::Listener;
use crate::text::{trim, trimmed};

verus! {

/// Where a search of the socket tables leaves the question.
#[derive(Debug)]
pub enum Search {
    /// The answer is already known.
    Done(PortHolder),
    /// A listener was found and the process holding its socket should be
    /// looked for, by the socket's inode.
    Scan {
        /// The socket's inode.
        inode: u64,
        /// The user that owns it.
        uid: u32,
    },
}

/// What the tables say, before any process is looked at: nothing listed
/// when no listener would collide; another user's socket, when this
/// process is neither root nor its owner (a scan would only meet
/// permission errors); otherwise a scan for the process.
pub open spec fn search_outcome(found: Option<Listener>, ours: Option<u32>) -> Search {
    match found {
        None => Search::Done(PortHolder::NotListed),
        Some(l) => match ours {
            Some(o) => if o != 0 && o != l.uid {
                Search::Done(PortHolder::OtherUser { uid: l.uid })
            } else {
                Search::Scan { inode: l.inode, uid: l.uid }
            },
            None => Search::Scan { inode: l.inode, uid: l.uid },
        },
    }
}

/// Search the socket tables (`rows`, both of them in order) for a listener
/// a bind to `address:port` would collide with, given this process's uid
/// where it could be read.
pub fn search(rows: &[Listener], address: IpAddr, port: u16, ours: Option<u32>) -> (s: Search)
    ensures
        s == search_outcome(
            match collision(rows@, address, port) {
                Some(k) => Some(rows@[k]),
                None => None,
            },
            ours,
        ),
{
    let found = collides(rows, address, port);
    match found {
        None => Search::Done(PortHolder::NotListed),
        Some(l) => match ours {
            Some(o) => if o != 0 && o != l.uid {
                Search::Done(PortHolder::OtherUser { uid: l.uid })
            } else {
                Search::Scan { inode: l.inode, uid: l.uid }
            },
            None => Search::Scan { inode: l.inode, uid: l.uid },
        },
    }
}

/// The holder once the process scan found `pid`: named where its name
/// could be read, else just the pid.
pub fn held_by(pid: u32, name: Option<String>) -> (h: PortHolder)
    ensures
        match name {
            Some(n) => h == PortHolder::Named { pid, name: n },
            None => h == PortHolder::Unnamed { pid },
        },
{
    match name {
        Some(name) => PortHolder::Named { pid, name },
        None => PortHolder::Unnamed { pid },
    }
}

/// The holder when no process could be found holding the socket: if it is
/// our own, it was a socket of ours that has since gone, so nothing is
/// listed; otherwise it belongs to an account whose processes we could not
/// see.
pub fn unseen(uid: u32, ours: Option<u32>) -> (h: PortHolder)
    ensures
        ours == Some(uid) ==> h == PortHolder::NotListed,
        ours != Some(uid) ==> h == (PortHolder::OtherUser { uid }),
{
    match ours {
        Some(o) => if o == uid {
            PortHolder::NotListed
        } else {
            PortHolder::OtherUser { uid }
        },
        None => PortHolder::OtherUser { uid },
    }
}

/// A process's short name from the text of its `comm` file: trimmed, and
/// none when nothing is left.
pub fn command_name(comm: &str) -> (n: Option<String>)
    ensures
        trimmed(comm@).len() == 0 ==> n is None,
        trimmed(comm@).len() > 0 ==> (n matches Some(s) && s@ == trimmed(comm@)),
{
    let name = trim(comm);
    if name.unicode_len() == 0 {
        None
    } else {
        Some(name)
    }
}

} // verus!
