//! A player inside an instance.
use vstd::prelude::*;

use super::player_flags::{HAS_HIGH_PRIVILEGE, HAS_PRIVILEGE, INSTANCE_MASTER, NONE};
use super::player_status::PlayerStatus;
use super::player_transform::PlayerTransforms;
use crate::avatar::Avatar;

verus! {

/// A player inside an instance.
#[derive(Debug, Clone)]
pub struct Player {
    /// Relay-assigned player ID (unique within the instance).
    pub id: u16,
    /// ID of the owning client connection.
    pub client_id: u16,
    /// Internal instance ID.
    pub instance_id: u8,
    /// Player lifecycle status.
    pub status: PlayerStatus,
    /// Optional custom display name (overrides the user's display name).
    pub display: Option<String>,
    /// Unix millisecond timestamp when the player entered the instance.
    pub created_at: i64,
    /// Role and state flags (see `player_flags`).
    pub flags: u32,
    /// Currently equipped avatar.
    pub avatar: Option<Avatar>,
    /// Per-rig-part transforms.
    pub transforms: PlayerTransforms,
    /// Per-player TPS override (0 = use the instance's).
    pub custom_tps: u8,
    /// Per-player threshold override, as the bits of an `f32` (zero = use the instance's).
    pub custom_threshold: u32,
}

/// Whether the `f32` with bit pattern `bits` differs from zero (both `0.0`
/// and `-0.0` count as zero).
pub open spec fn f32_bits_nonzero(bits: u32) -> bool {
    bits & 0x7FFF_FFFF != 0
}

/// Whether the `f32` with bit pattern `bits` differs from zero.
pub fn f32_is_nonzero(bits: u32) -> (b: bool)
    ensures
        b == f32_bits_nonzero(bits),
{
    bits & 0x7FFF_FFFF != 0
}

impl Player {
    /// A fresh player: status `None`, no flags, no display, no avatar, no
    /// transforms, no overrides; `now_ms` is the entry time.
    pub fn new(id: u16, client_id: u16, instance_id: u8, now_ms: i64) -> (p: Player)
        ensures
            p.id == id,
            p.client_id == client_id,
            p.instance_id == instance_id,
            p.status == PlayerStatus::Unset,
            p.display is None,
            p.created_at == now_ms,
            p.flags == NONE,
            p.avatar is None,
            p.transforms@ == Map::<u16, (u8, super::rig::Transform)>::empty(),
            p.custom_tps == 0,
            p.custom_threshold == 0,
    {
        Player {
            id,
            client_id,
            instance_id,
            status: PlayerStatus::Unset,
            display: None,
            created_at: now_ms,
            flags: NONE,
            avatar: None,
            transforms: PlayerTransforms::new(),
            custom_tps: 0,
            custom_threshold: 0,
        }
    }

    /// Whether the player holds the instance-master role.
    pub open spec fn spec_is_master(&self) -> bool {
        self.flags & INSTANCE_MASTER != 0
    }

    /// Whether the player has any privileged role.
    pub open spec fn spec_has_privilege(&self) -> bool {
        self.flags & HAS_PRIVILEGE != 0
    }

    /// Whether the player has a high-privilege role.
    pub open spec fn spec_has_high_privilege(&self) -> bool {
        self.flags & HAS_HIGH_PRIVILEGE != 0
    }

    pub fn is_master(&self) -> (b: bool)
        ensures
            b == self.spec_is_master(),
    {
        self.flags & INSTANCE_MASTER != 0
    }

    pub fn has_privilege(&self) -> (b: bool)
        ensures
            b == self.spec_has_privilege(),
    {
        self.flags & HAS_PRIVILEGE != 0
    }

    pub fn has_high_privilege(&self) -> (b: bool)
        ensures
            b == self.spec_has_high_privilege(),
    {
        self.flags & HAS_HIGH_PRIVILEGE != 0
    }

    pub fn is_ready(&self) -> (b: bool)
        ensures
            b == (self.status == PlayerStatus::Ready),
    {
        self.status == PlayerStatus::Ready
    }
}

} // verus!
