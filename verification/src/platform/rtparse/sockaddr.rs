//! Field offsets shared by every BSD `sockaddr` variant.

use vstd::prelude::*;

verus! {

/// `sa_len`: always the first byte, whatever the concrete type.
pub const LEN: usize = 0;

/// `sa_family`.
pub const FAMILY: usize = 1;

/// `sin_addr` within a `sockaddr_in`.
pub const V4_ADDR: usize = 4;

/// `sin6_addr` within a `sockaddr_in6`.
pub const V6_ADDR: usize = 8;

/// `sdl_index` within a `sockaddr_dl`.
pub const DL_INDEX: usize = 2;

} // verus!
