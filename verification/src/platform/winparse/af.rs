//! Address families, as Windows numbers them.

use vstd::prelude::*;

verus! {

/// IPv4. The same number everywhere, as it happens.
pub const INET: u16 = 2;

/// IPv6. Neither Linux's 10 nor Darwin's 30.
pub const INET6: u16 = 23;

} // verus!
