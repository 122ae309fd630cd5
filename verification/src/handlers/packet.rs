//! Packet kinds and the packets a handler hands back for sending.
use vstd::prelude::*;

verus! {

/// The kinds of relay packets.
#[derive(Debug, Clone, Copy, PartialEq, Eq, Structural)]
pub enum PacketType {
    Disconnect,
    Handshake,
    Reliable,
    Segmentation,
    Latency,
    Authentication,
    Enter,
    Quit,
    Join,
    Leave,
    Custom,
    Traveling,
    Teleport,
    AvatarChanged,
    ServerConfig,
    Properties,
    PlayerUpdate,
    Sessions,
    Event,
    Message,
    PasswordRequirement,
    Transform,
    Stream,
    Voice,
}

/// How a packet reaches its client.
#[derive(Debug, Clone, Copy, PartialEq, Eq, Structural)]
pub enum Delivery {
    /// Back on the bidirectional stream the request came on.
    Reply,
    /// Pushed on the client's outgoing stream.
    Push,
    /// Sent as a QUIC datagram.
    Datagram,
}

/// A packet to send: its recipient, request UID (0 when unsolicited), kind,
/// payload (header excluded) and delivery.
#[derive(Debug, Clone)]
pub struct Outgoing {
    pub client_id: u16,
    pub uid: u16,
    pub packet_type: PacketType,
    pub payload: Vec<u8>,
    pub delivery: Delivery,
}

/// What an outgoing packet holds.
pub struct OutView {
    pub client_id: u16,
    pub uid: u16,
    pub packet_type: PacketType,
    pub payload: Seq<u8>,
    pub delivery: Delivery,
}

impl View for Outgoing {
    type V = OutView;

    open spec fn view(&self) -> OutView {
        OutView {
            client_id: self.client_id,
            uid: self.uid,
            packet_type: self.packet_type,
            payload: self.payload@,
            delivery: self.delivery,
        }
    }
}

/// A packet for `client_id` with the given parts.
pub open spec fn out(client_id: u16, uid: u16, packet_type: PacketType, payload: Seq<u8>, delivery: Delivery) -> OutView {
    OutView { client_id, uid, packet_type, payload, delivery }
}

/// The views of a list of packets.
pub open spec fn outs_view(v: Seq<Outgoing>) -> Seq<OutView> {
    v.map_values(|o: Outgoing| o@)
}

impl Outgoing {
    pub fn new(client_id: u16, uid: u16, packet_type: PacketType, payload: Vec<u8>, delivery: Delivery) -> (o: Self)
        ensures
            o@ == out(client_id, uid, packet_type, payload@, delivery),
    {
        Outgoing { client_id, uid, packet_type, payload, delivery }
    }
}

} // verus!
