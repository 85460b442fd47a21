//! Address families, as Darwin numbers them.

use vstd::prelude::*;

verus! {

/// IPv4.
pub const INET: i32 = 2;

/// A link-layer address: `sockaddr_dl`.
pub const LINK: i32 = 18;

/// IPv6. Not Linux's 10.
pub const INET6: i32 = 30;

} // verus!
