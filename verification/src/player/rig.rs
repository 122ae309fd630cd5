//! Per-rig-part transforms, held as the IEEE-754 bit patterns of their
//! components so that they can be stored and forwarded without change.
use vstd::prelude::*;

verus! {

/// Bitmask of the transform fields present in a Transform packet.
pub const NONE: u8 = 0;

pub const POSITION: u8 = 1 << 0;

pub const ROTATION: u8 = 1 << 1;

pub const SCALE: u8 = 1 << 2;

pub const VELOCITY: u8 = 1 << 3;

pub const ANG_VELOCITY: u8 = 1 << 4;

pub const RESET: u8 = 1 << 5;

/// Every field flag.
pub const ALL: u8 = 0x1F;

/// The rigid-body fields: velocity and angular velocity.
pub const RIGIDBODY: u8 = 0x18;

/// The spatial fields: position, rotation, scale.
pub const TRANSFORM: u8 = 0x07;

/// Bit pattern of `1.0f32`.
pub const ONE_BITS: u32 = 0x3F80_0000;

/// A 3-vector as the bit patterns of its `f32` components.
#[derive(Debug, Clone, Copy, PartialEq, Eq, Structural)]
pub struct Vec3Bits {
    pub x: u32,
    pub y: u32,
    pub z: u32,
}

/// A quaternion as the bit patterns of its `f32` components.
#[derive(Debug, Clone, Copy, PartialEq, Eq, Structural)]
pub struct QuatBits {
    pub x: u32,
    pub y: u32,
    pub z: u32,
    pub w: u32,
}

/// Full spatial transform for one rig part.
#[derive(Debug, Clone, Copy, PartialEq, Eq, Structural)]
pub struct Transform {
    pub position: Vec3Bits,
    pub rotation: QuatBits,
    pub scale: Vec3Bits,
    pub velocity: Vec3Bits,
    pub ang_velocity: Vec3Bits,
}

impl Transform {
    /// Zero position, identity rotation, unit scale, no motion.
    pub open spec fn spec_default() -> Transform {
        Transform {
            position: Vec3Bits { x: 0, y: 0, z: 0 },
            rotation: QuatBits { x: 0, y: 0, z: 0, w: ONE_BITS },
            scale: Vec3Bits { x: ONE_BITS, y: ONE_BITS, z: ONE_BITS },
            velocity: Vec3Bits { x: 0, y: 0, z: 0 },
            ang_velocity: Vec3Bits { x: 0, y: 0, z: 0 },
        }
    }
}

impl Default for Transform {
    fn default() -> (t: Transform)
        ensures
            t == Transform::spec_default(),
    {
        Transform {
            position: Vec3Bits { x: 0, y: 0, z: 0 },
            rotation: QuatBits { x: 0, y: 0, z: 0, w: ONE_BITS },
            scale: Vec3Bits { x: ONE_BITS, y: ONE_BITS, z: ONE_BITS },
            velocity: Vec3Bits { x: 0, y: 0, z: 0 },
            ang_velocity: Vec3Bits { x: 0, y: 0, z: 0 },
        }
    }
}

} // verus!
