//! Protocol and server constants.
use vstd::prelude::*;

verus! {

pub const PROTOCOL_VERSION: u16 = 2;

pub const ENGINE: &'static str = "nox";

pub const VERSION: &'static str = "0.1.0";

/// Default network settings.
pub const DEFAULT_PORT: u16 = 23032;

pub const DEFAULT_NODE_GATEWAY: &'static str = "http://127.0.0.1:3042";

pub const DEFAULT_NODE_ADDRESS: &'static str = "127.0.0.1:23032";

/// Special world address meaning "use the relay's own public address".
pub const SAFE_LOCAL_ADDRESS: &'static str = "::";

/// Largest packet: 1024 payload bytes and a 5-byte header.
pub const MAX_PACKET_SIZE: usize = 1029;

/// Stream header: `[Length: u16][UID: u16][Type: u8]`.
pub const STREAM_HEADER_SIZE: usize = 5;

/// Datagram header: same layout as the stream header.
pub const DGRAM_HEADER_SIZE: usize = 5;

/// Session timeouts (seconds).
pub const DEFAULT_CONNECTION_TIMEOUT: u16 = 15;

pub const DEFAULT_KEEP_ALIVE_INTERVAL: u16 = 5;

/// Interval (seconds) at which clients re-send unchanged LocalEmit properties; 0 disables it.
pub const DEFAULT_PROPERTY_RESEND_INTERVAL: u8 = 5;

/// Instance limits.
pub const DEFAULT_MAX_INSTANCES: u8 = 3;

/// Default instance tick rate.
pub const DEFAULT_TPS: u8 = 60;

/// Bit pattern of the default transform threshold `0.001f32`.
pub const DEFAULT_THRESHOLD_BITS: u32 = 0x3A83_126F;

/// Bit pattern of the default entity render distance `500.0f32`.
pub const DEFAULT_RENDER_ENTITY_BITS: u32 = 0x43FA_0000;

/// Master server periodic intervals (ms).
pub const MASTER_PING_INTERVAL_MS: u64 = 15_000;

pub const MASTER_SPECS_INTERVAL_MS: u64 = 500;

/// Outgoing packet channel buffer capacity per client.
pub const CLIENT_TX_BUFFER: usize = 256;

} // verus!
