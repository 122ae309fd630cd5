//! Flags describing the role and properties of a player in an instance
//! (bits of a `u32`).
use vstd::prelude::*;

verus! {

pub const NONE: u32 = 0;

pub const IS_BOT: u32 = 1 << 0;

pub const INSTANCE_MASTER: u32 = 1 << 1;

pub const INSTANCE_MODERATOR: u32 = 1 << 2;

pub const INSTANCE_OWNER: u32 = 1 << 3;

pub const GUILD_MODERATOR: u32 = 1 << 4;

pub const MASTER_MODERATOR: u32 = 1 << 5;

pub const WORLD_OWNER: u32 = 1 << 6;

pub const WORLD_MODERATOR: u32 = 1 << 7;

pub const AUTH_UNVERIFIED: u32 = 1 << 8;

pub const HIDE_IN_LIST: u32 = 1 << 9;

pub const HAS_CUSTOM_DISPLAY: u32 = 1 << 10;

/// Any of these roles grants privilege: master, moderators, owners.
pub const HAS_PRIVILEGE: u32 = 0xFE;

/// Any of these roles grants high privilege: instance owner, master moderator.
pub const HAS_HIGH_PRIVILEGE: u32 = 0x28;

} // verus!
