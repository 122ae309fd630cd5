//! Flags that describe the properties and access rules of an instance
//! (bits of a `u32`).
use vstd::prelude::*;

verus! {

pub const NONE: u32 = 0;

pub const IS_PUBLIC: u32 = 1 << 0;

pub const USE_PASSWORD: u32 = 1 << 1;

pub const USE_WHITELIST: u32 = 1 << 2;

pub const AUTHORIZE_BOT: u32 = 1 << 3;

pub const ALLOW_OVERLOAD: u32 = 1 << 4;
/// Every defined instance flag; other bits are dropped when flags are set.
pub const KNOWN: u32 = 0x1F;

} // verus!
