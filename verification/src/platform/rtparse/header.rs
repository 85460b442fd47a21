//! Byte offsets into `struct rt_msghdr`, and its total size: 92 on both
//! Darwin targets, since `rt_metrics` is fourteen 32-bit fields.

use vstd::prelude::*;

verus! {

/// `rtm_msglen`: the total length of this message, header included.
pub const MSGLEN: usize = 0;

/// `rtm_version`.
pub const VERSION: usize = 2;

/// `rtm_type`.
pub const KIND: usize = 3;

/// `rtm_index`: the interface this route exits through.
pub const INDEX: usize = 4;

/// `rtm_flags`.
pub const FLAGS: usize = 8;

/// `rtm_addrs`: the sockaddr bitmask.
pub const ADDRS: usize = 12;

/// `size_of::<rt_msghdr>()`, and so the offset of the first sockaddr.
pub const LEN: usize = 92;

} // verus!
