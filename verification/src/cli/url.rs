//! The one place that answers "what URL reaches this machine right now".
//!
//! A `.local` name is a better answer than an address only while something
//! in this process is publishing it, so the caller says whether a name is
//! live; nothing here guesses from configuration.

use vstd::prelude::*;

use crate::model::Family;
use crate::select::{url_text, SelectedAddress};
use crate::text::{owned, push_char, push_numeral, push_str};

verus! {

/// The scheme every URL AutoNet renders uses: nothing can know whether the
/// server behind the port speaks TLS.
pub const SCHEME: &'static str = "http";

/// The URL another device on the network can open: the live `.local` name
/// when one is being published, else the selected address.
pub fn network_url(selected: &SelectedAddress, port: u16, name: Option<&str>) -> (u: String)
    ensures
        u@ == url_text(
            "http"@,
            match name {
                Some(host) => host@,
                None => selected.ip.url_text(),
            },
            port,
        ),
{
    match name {
        Some(host) => {
            let mut u = owned(SCHEME);
            push_str(&mut u, "://");
            push_str(&mut u, host);
            push_char(&mut u, ':');
            push_numeral(&mut u, port as u64, 10);
            u
        },
        None => selected.url(port, SCHEME),
    }
}

/// The loopback host of a family, as it stands in a URL.
pub open spec fn loopback_host(family: Family) -> Seq<char> {
    match family {
        Family::V4 => "127.0.0.1"@,
        Family::V6 => "[::1]"@,
    }
}

/// The URL a browser on this machine would open. Kept apart from
/// [`network_url`]: `127.0.0.1` looks right on the developer's screen and is
/// useless on everyone else's.
pub fn local_url(family: Family, port: u16) -> (u: String)
    ensures
        u@ == url_text("http"@, loopback_host(family), port),
{
    let mut u = owned(SCHEME);
    push_str(&mut u, "://");
    match family {
        Family::V4 => push_str(&mut u, "127.0.0.1"),
        Family::V6 => push_str(&mut u, "[::1]"),
    }
    push_char(&mut u, ':');
    push_numeral(&mut u, port as u64, 10);
    u
}

} // verus!
