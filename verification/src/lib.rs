//! Finding the LAN address other devices can actually reach: the network
//! model, address and interface classification, the selection engine, the
//! platform decoders that feed it, and the command-line renderings built on
//! top of it.

pub mod error;
pub mod event;
pub mod ip;
pub mod model;
pub mod platform;
pub mod classify;
pub mod cli;
pub mod config;
pub mod select;
pub mod text;

use vstd::prelude::*;

verus! {

} // verus!
