//! Verified core of the NoxVR relay: instance and player bookkeeping, view
//! groups, the binary packet layouts, and the decisions of every packet
//! handler, with the I/O left to the caller.
use vstd::prelude::*;

pub mod avatar;
pub mod config;
pub mod constants;
pub mod client;
pub mod commands;
pub mod handlers;
pub mod hashing;
pub mod instance;
pub mod master;
pub mod player;
pub mod text;
pub mod wire;

verus! {

} // verus!
