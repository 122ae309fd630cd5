//! The messages exchanged with the node server, as plain values. Their JSON
//! form (field names, envelopes) is given by the transport around the library.
use vstd::prelude::*;

verus! {

// ── Generic envelope ────────────────────────────────────────────────────────

/// The envelope exchanged over the node WebSocket:
/// `{ "type": "...", "payload": {...}, "id": "uuid" }`.
#[derive(Debug, Clone)]
pub struct WsMessage<T> {
    pub msg_type: String,
    pub payload: T,
    pub id: Option<String>,
}

impl<T> WsMessage<T> {
    /// A message of type `msg_type` without correlation id.
    pub fn new(msg_type: &str, payload: T) -> (m: Self)
        ensures
            m.msg_type@ == msg_type@,
            m.payload == payload,
            m.id is None,
    {
        WsMessage { msg_type: msg_type.to_string(), payload, id: None }
    }

    /// The same message carrying correlation id `id`.
    pub fn with_id(self, id: &str) -> (m: Self)
        ensures
            m.msg_type == self.msg_type,
            m.payload == self.payload,
            m.id matches Some(i) && i@ == id@,
    {
        WsMessage { msg_type: self.msg_type, payload: self.payload, id: Some(id.to_string()) }
    }
}

// ── Status response ─────────────────────────────────────────────────────────

/// The relay status snapshot. The system specs that go with it are sampled
/// by the caller.
#[derive(Debug, Clone)]
pub struct RelayStatus {
    /// Active client count.
    pub c: u32,
    /// Active instance count.
    pub i: u32,
    /// Max instances.
    pub m: u8,
    /// Engine identifier.
    pub e: String,
    /// Relay version string.
    pub v: String,
    /// Protocol version.
    pub p: u16,
    /// Relay start Unix-ms timestamp.
    pub u: i64,
    /// Connection addresses: protocol and `"host:port"`.
    pub a: Vec<(String, String)>,
}

// ── resolve_user ────────────────────────────────────────────────────────────

#[derive(Debug, Clone)]
pub struct ResolveUserRequest {
    pub user_id: u32,
    pub server: String,
    pub fingerprint: String,
}

#[derive(Debug, Clone)]
pub struct ResolveUserResponse {
    pub result: String,
    pub user: Option<ResolveUserInfo>,
    pub expire_at: i64,
    pub reason: Option<String>,
    pub error: Option<String>,
}

#[derive(Debug, Clone)]
pub struct ResolveUserInfo {
    pub id: u32,
    pub display: String,
    pub server: String,
}

// ── request_instances ───────────────────────────────────────────────────────

#[derive(Debug, Clone)]
pub struct RequestInstancesReq {
    pub count: u8,
}

#[derive(Debug, Clone)]
pub struct RequestInstancesResp {
    pub success: bool,
    pub error: Option<String>,
    pub instances: Vec<InstanceSpec>,
}

#[derive(Debug, Clone)]
pub struct InstanceSpec {
    pub id: u32,
    pub password: Option<String>,
    pub capacity: u16,
    pub world: Option<WorldSpec>,
}

#[derive(Debug, Clone)]
pub struct WorldSpec {
    pub id: u32,
    pub address: String,
    pub version: u16,
}

// ── relay_sync_instances ────────────────────────────────────────────────────

#[derive(Debug, Clone)]
pub struct SyncInstanceData {
    pub master_id: u32,
    pub internal_id: u32,
    pub password: Option<String>,
    pub capacity: u16,
    pub player_count: usize,
    pub world: String,
    /// The instance flags (bits); their textual form is given by the transport.
    pub flags: u32,
}

#[derive(Debug, Clone)]
pub struct SyncInstancesResp {
    pub success: bool,
    pub error: Option<String>,
    pub invalid_instances: Option<Vec<u32>>,
    pub synced_count: i32,
    pub conflicts_resolved: i32,
}

// ── relay_connected ─────────────────────────────────────────────────────────

#[derive(Debug, Clone)]
pub struct RelayConnected {
    pub id: u32,
    pub master_address: String,
}

// ── relay events ────────────────────────────────────────────────────────────

/// Emitted to the node when a QUIC client completes the handshake.
#[derive(Debug, Clone)]
pub struct EventClientConnected {
    /// Relay-assigned client ID.
    pub id: u16,
    /// Remote IP:port.
    pub address: String,
    /// Client platform (e.g. "windows", "android").
    pub platform: String,
    /// Client engine identifier (e.g. "unity").
    pub engine: String,
    /// Unix millisecond timestamp when the client connected.
    pub connected_at: i64,
}

/// Emitted to the node when a client authenticates successfully.
#[derive(Debug, Clone)]
pub struct EventClientAuthentified {
    /// Relay-assigned client ID.
    pub id: u16,
    /// Identifier of the authenticated user (e.g. "1@hactazia.fr").
    pub user: String,
}

/// Emitted to the node when a QUIC client disconnects.
#[derive(Debug, Clone)]
pub struct EventClientDisconnected {
    /// Relay-assigned client ID.
    pub id: u16,
    /// Disconnect reason string (e.g. "normal", "timeout", "kicked").
    pub reason: String,
    /// Disconnect type category.
    pub kind: String,
}

/// Emitted to the node when a player joins an instance.
#[derive(Debug, Clone)]
pub struct EventPlayerJoin {
    pub client_id: u16,
    pub player_id: u16,
    pub display: String,
    /// Relay-internal instance slot (0–254).
    pub internal_id: u8,
    pub flags: u32,
    /// Unix millisecond timestamp when the player joined.
    pub joined_at: i64,
}

/// Emitted to the node when a player leaves an instance.
#[derive(Debug, Clone)]
pub struct EventPlayerLeave {
    pub player_id: u16,
    /// Relay-internal instance slot (0–254).
    pub internal_id: u8,
    /// Quit type ("normal", "timeout", "moderation_kick", "vote_kick",
    /// "configuration_error", "unknown_error").
    pub kind: String,
    pub reason: String,
}

// ── drop_instance ───────────────────────────────────────────────────────────

#[derive(Debug, Clone)]
pub struct DropInstance {
    pub instance_id: u32,
    pub reason: String,
    pub message: Option<String>,
}

// ── logs request ────────────────────────────────────────────────────────────

#[derive(Debug, Clone)]
pub struct LogsRequest {
    pub since: i64,
    pub limit: usize,
}

/// The number of log entries a logs request returns when it names none.
pub fn default_limit() -> (n: usize)
    ensures
        n == 100,
{
    100
}

// ── has_instance ────────────────────────────────────────────────────────────

#[derive(Debug, Clone)]
pub struct HasInstanceReq {
    pub id: u32,
}

#[derive(Debug, Clone)]
pub struct HasInstanceResp {
    pub exists: bool,
}

// ── get_clients ─────────────────────────────────────────────────────────────

#[derive(Debug, Clone)]
pub struct GetClientsReq {
    pub limit: usize,
    pub offset: usize,
}

#[derive(Debug, Clone)]
pub struct GetClientsResp {
    pub total: u32,
    pub clients: Vec<ClientInfo>,
}

#[derive(Debug, Clone)]
pub struct ClientInfo {
    /// Client ID.
    pub i: u16,
    /// Address.
    pub a: String,
    /// Platform.
    pub p: String,
    /// Engine.
    pub e: String,
    /// User identifier, when authenticated.
    pub u: Option<String>,
    /// Connection time (Unix ms).
    pub t: i64,
}

// ── ping ────────────────────────────────────────────────────────────────────

#[derive(Debug, Clone)]
pub struct PingResponse {
    pub time: i64,
    pub received: i64,
}

// ── command ─────────────────────────────────────────────────────────────────

#[derive(Debug, Clone)]
pub struct CommandRequest {
    pub content: String,
}

// ── get_instances ───────────────────────────────────────────────────────────

#[derive(Debug, Clone)]
pub struct GetInstancesReq {
    pub limit: usize,
    pub offset: usize,
}

#[derive(Debug, Clone)]
pub struct GetInstancesResp {
    pub total: u32,
    pub instances: Vec<InstanceInfo>,
}

#[derive(Debug, Clone)]
pub struct InstanceInfo {
    /// Internal ID (relay-local slot 0–254).
    pub i: u32,
    /// Node ID (master/DB ID).
    pub n: u32,
    /// Flags.
    pub f: u32,
    /// Player count (all, including hidden players).
    pub p: u32,
    /// World identifier.
    pub w: String,
    /// Capacity.
    pub c: u16,
}

#[derive(Debug, Clone)]
pub struct PlayerInfo {
    /// Player ID.
    pub i: u16,
    /// Client ID.
    pub c: u16,
    /// Display name.
    pub d: String,
    /// Flags.
    pub f: u32,
    /// User identifier (e.g. "1@hactazia.fr"), when authenticated.
    pub u: Option<String>,
    /// Join time (Unix ms).
    pub j: i64,
}

// ── get_players ─────────────────────────────────────────────────────────────

#[derive(Debug, Clone)]
pub struct GetPlayersReq {
    /// Internal instance ID (matches `InstanceInfo::i`).
    pub i: u32,
    /// Page size.
    pub l: usize,
    /// Offset.
    pub o: usize,
    /// Whether to include players hidden from lists.
    pub a: bool,
}

#[derive(Debug, Clone)]
pub struct GetPlayersResp {
    /// Total number of listed players in the instance.
    pub t: u32,
    /// The requested page of players.
    pub i: Vec<PlayerInfo>,
}

} // verus!
