//! A connected client: the state the relay keeps about one QUIC connection.
//! The connection handles themselves (send channel, datagram sender, the
//! instant of the last packet) live with the transport.
use vstd::prelude::*;

use super::user::User;

verus! {

/// Whether to send via a reliable QUIC stream or an unreliable datagram.
#[derive(Debug, Clone, Copy, PartialEq, Eq, Structural)]
pub enum SendType {
    /// Reliable: pushed to the outgoing uni-stream channel.
    Stream,
    /// Best-effort: sent as a QUIC datagram.
    Datagram,
}

/// The authentication phase of a client.
#[derive(Debug, Clone, Copy, PartialEq, Eq, Structural)]
pub enum AuthState {
    /// No handshake performed yet.
    NotHandshaked,
    /// Handshake accepted; awaiting auth.
    Handshaked,
    /// Challenge was issued; awaiting signature response.
    ChallengeIssued,
    /// Fully authenticated.
    Authenticated,
}

/// A connected QUIC client.
#[derive(Debug, Clone)]
pub struct Client {
    /// Relay-assigned numeric client ID.
    pub id: u16,
    /// Client platform string (e.g. `"PC"`, `"Quest"`).
    pub platform: String,
    /// Client engine string (e.g. `"Unity"`, `"Unreal"`).
    pub engine: String,
    /// Remote `IP:port`.
    pub address: String,
    /// Unix millisecond timestamp when the client connected.
    pub connected_at: i64,
    /// Authenticated user, if auth succeeded.
    pub user: Option<User>,
    /// Random challenge bytes sent for RSA challenge-response.
    pub challenge: Vec<u8>,
    /// Current authentication state.
    pub auth_state: AuthState,
}

impl Client {
    /// A client that has not handshaked yet.
    pub fn new(id: u16, address: String, connected_at: i64) -> (c: Self)
        ensures
            c.id == id,
            c.platform@ == Seq::<char>::empty(),
            c.engine@ == Seq::<char>::empty(),
            c.address@ == address@,
            c.connected_at == connected_at,
            c.user is None,
            c.challenge@ == Seq::<u8>::empty(),
            c.auth_state == AuthState::NotHandshaked,
    {
        Client {
            id,
            platform: String::new(),
            engine: String::new(),
            address,
            connected_at,
            user: None,
            challenge: Vec::new(),
            auth_state: AuthState::NotHandshaked,
        }
    }

    pub open spec fn spec_is_handshaked(&self) -> bool {
        self.auth_state != AuthState::NotHandshaked
    }

    pub open spec fn spec_is_authenticated(&self) -> bool {
        self.auth_state == AuthState::Authenticated
    }

    pub fn is_handshaked(&self) -> (b: bool)
        ensures
            b == self.spec_is_handshaked(),
    {
        self.auth_state != AuthState::NotHandshaked
    }

    pub fn is_authenticated(&self) -> (b: bool)
        ensures
            b == self.spec_is_authenticated(),
    {
        self.auth_state == AuthState::Authenticated
    }

    pub fn is_authenticating(&self) -> (b: bool)
        ensures
            b == (self.auth_state == AuthState::ChallengeIssued),
    {
        self.auth_state == AuthState::ChallengeIssued
    }
}

} // verus!
