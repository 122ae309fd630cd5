//! Traveling: a player asks where its world is, then reports it is ready.
//!
//! Request: `[iid: u8][TravelingAction: u8]`. Actions: Travel (0) asks for the
//! world node; Ready (1) reports loading is done; Failed (2) is accepted with
//! no answer.
//!
//! Response: `[iid: u8][TravelingResults: u8]` followed by the world fields
//! (`[master_id: u32][address: string][version: u16]`) or a reason string.
use vstd::prelude::*;

use super::context::{lemma_put_back, AppState};
use super::packet::{out, Delivery, OutView, Outgoing, PacketType};
use crate::constants::SAFE_LOCAL_ADDRESS;
use crate::instance::instance::{seq_client_index, with_status, Instance};
use crate::player::PlayerStatus;
use crate::wire::{le16, le32, string_field, take_u8, PacketReader, PacketWriter};

verus! {

/// Traveling actions.
#[derive(Debug, Clone, Copy, PartialEq, Eq, Structural)]
pub enum TravelingAction {
    Travel,
    Ready,
    Failed,
}

impl TravelingAction {
    /// The action with wire code `v`.
    pub fn from_u8(v: u8) -> (a: Option<TravelingAction>)
        ensures
            a == (if v == 0 {
                Some(TravelingAction::Travel)
            } else if v == 1 {
                Some(TravelingAction::Ready)
            } else if v == 2 {
                Some(TravelingAction::Failed)
            } else {
                None::<TravelingAction>
            }),
    {
        if v == 0 {
            Some(TravelingAction::Travel)
        } else if v == 1 {
            Some(TravelingAction::Ready)
        } else if v == 2 {
            Some(TravelingAction::Failed)
        } else {
            None
        }
    }
}

/// Result code: use the node address that follows.
pub const USE_NODE: u8 = 1 << 2;

/// Result code: the request failed; a reason follows.
pub const UNKNOWN: u8 = 1 << 4;

/// Result code: the player is now ready.
pub const READY: u8 = 1 << 5;

/// `[iid][result](reason)`.
pub open spec fn travel_payload(iid: u8, result: u8, reason: Option<Seq<char>>) -> Seq<u8> {
    seq![iid, result] + match reason {
        Some(r) => string_field(r),
        None => Seq::empty(),
    }
}

/// The reply to the sender carrying `payload`.
pub open spec fn travel_reply(client_id: u16, uid: u16, payload: Seq<u8>) -> OutView {
    out(client_id, uid, PacketType::Traveling, payload, Delivery::Reply)
}

/// The address clients travel to: the relay's node address for `"::"`,
/// otherwise the world's own.
pub open spec fn travel_address(world_address: Seq<char>, node_address: Seq<char>) -> Seq<char> {
    if world_address == SAFE_LOCAL_ADDRESS@ {
        node_address
    } else {
        world_address
    }
}

/// What a Traveling request answers, and the status the sender's player takes
/// (`None` when no player changes).
pub open spec fn spec_traveling(
    state: AppState,
    client_id: u16,
    uid: u16,
    payload: Seq<u8>,
) -> (Option<OutView>, Option<PlayerStatus>) {
    let (iid, r1) = take_u8(payload);
    let fail = |reason: Seq<char>| Some(travel_reply(client_id, uid, travel_payload(iid, UNKNOWN, Some(reason))));
    if !state.instances@.contains_key(iid) {
        (fail("Instance not found."@), None)
    } else {
        let inst = state.instances@[iid];
        if !inst.has_client(client_id) {
            (fail("You are not in the instance."@), None)
        } else {
            let p = inst.client_player(client_id);
            let (action, _) = take_u8(r1);
            if action == 0 {
                if p.status == PlayerStatus::Unset {
                    (fail("Player is not ready to travel."@), None)
                } else if inst.world.master_id == 0 && inst.world.address@.len() == 0 {
                    (fail("World is not set for the instance."@), None)
                } else {
                    let addr = travel_address(inst.world.address@, state.config.node_address@);
                    (
                        Some(travel_reply(
                            client_id,
                            uid,
                            seq![iid, USE_NODE] + le32(inst.world.master_id) + string_field(addr) + le16(
                                inst.world.version,
                            ),
                        )),
                        Some(PlayerStatus::Traveling),
                    )
                }
            } else if action == 1 {
                if p.status != PlayerStatus::Traveling {
                    (fail("Player is not traveling."@), None)
                } else {
                    (Some(travel_reply(client_id, uid, travel_payload(iid, READY, None))), Some(PlayerStatus::Ready))
                }
            } else if action == 2 {
                (None, None)
            } else {
                (fail("Unknown action."@), None)
            }
        }
    }
}

fn make_response(client_id: u16, uid: u16, iid: u8, result: u8, reason: Option<&str>) -> (o: Outgoing)
    ensures
        o@ == travel_reply(
            client_id,
            uid,
            travel_payload(
                iid,
                result,
                match reason {
                    Some(r) => Some(r@),
                    None => None,
                },
            ),
        ),
{
    let mut w = PacketWriter::new();
    w.write_u8(iid);
    w.write_u8(result);
    if let Some(r) = reason {
        w.write_string(r);
    }
    let ghost v = w@;
    proof {
        match reason {
            Some(r) => assert(v =~= seq![iid, result] + string_field(r@)),
            None => assert(v =~= seq![iid, result] + Seq::<u8>::empty()),
        }
    }
    Outgoing::new(client_id, uid, PacketType::Traveling, w.finish(), Delivery::Reply)
}

/// Handles a Traveling request from client `client_id`.
pub fn handle(state: &mut AppState, client_id: u16, uid: u16, payload: Vec<u8>) -> (reply: Option<Outgoing>)
    requires
        old(state).wf(),
    ensures
        final(state).wf(),
        final(state).clients@ == old(state).clients@,
        final(state).config == old(state).config,
        ({
            let (r, st) = spec_traveling(*old(state), client_id, uid, payload@);
            let iid = take_u8(payload@).0;
            &&& match reply {
                Some(o) => r == Some(o@),
                None => r is None,
            }
            &&& match st {
                None => final(state).instances@ == old(state).instances@,
                Some(s) => {
                    let inst = old(state).instances@[iid];
                    let i = seq_client_index(inst.players(), client_id);
                    &&& final(state).instances@.dom() == old(state).instances@.dom()
                    &&& forall|k: u8| k != iid && #[trigger] old(state).instances@.contains_key(k)
                        ==> final(state).instances@[k] == old(state).instances@[k]
                    &&& final(state).instances@[iid].players() == inst.players().update(i, with_status(inst.players()[i], s))
                    &&& final(state).instances@[iid].groups() == inst.groups()
                    &&& crate::instance::instance::same_settings(final(state).instances@[iid], inst)
                },
            }
        }),
{
    let mut r = PacketReader::new(payload);
    let iid = r.read_u8();
    let mut inst = match state.instances.remove(iid) {
        Some(i) => i,
        None => return Some(make_response(client_id, uid, iid, UNKNOWN, Some("Instance not found."))),
    };
    let idx = match inst.find_client(client_id) {
        Some(i) => i,
        None => {
            state.instances.add(inst);
            proof { lemma_put_back(old(state).instances@, iid); }
            return Some(make_response(client_id, uid, iid, UNKNOWN, Some("You are not in the instance.")));
        },
    };
    let player_id = inst.players[idx].id;
    let status = inst.players[idx].status;
    proof {
        assert(inst.players()[idx as int] == inst.client_player(client_id));
        assert(inst.has_player(player_id));
        assert(inst.player(player_id) == inst.players()[idx as int]);
    }
    let action = r.read_u8();
    if action == 0 {
        if status == PlayerStatus::Unset {
            state.instances.add(inst);
            proof { lemma_put_back(old(state).instances@, iid); }
            return Some(make_response(client_id, uid, iid, UNKNOWN, Some("Player is not ready to travel.")));
        }
        if inst.world.master_id == 0 && inst.world.address.as_str().is_empty() {
            state.instances.add(inst);
            proof { lemma_put_back(old(state).instances@, iid); }
            return Some(make_response(client_id, uid, iid, UNKNOWN, Some("World is not set for the instance.")));
        }
        let address = if crate::text::str_eq(inst.world.address.as_str(), SAFE_LOCAL_ADDRESS) {
            state.config.node_address.clone()
        } else {
            inst.world.address.clone()
        };
        let master_id = inst.world.master_id;
        let version = inst.world.version;
        inst.set_player_status(player_id, PlayerStatus::Traveling);
        state.instances.add(inst);
        let mut w = PacketWriter::new();
        w.write_u8(iid);
        w.write_u8(USE_NODE);
        w.write_u32(master_id);
        w.write_string(address.as_str());
        w.write_u16(version);
        let ghost v = w@;
        proof {
            assert(v =~= seq![iid, USE_NODE] + le32(master_id) + string_field(address@) + le16(version));
        }
        Some(Outgoing::new(client_id, uid, PacketType::Traveling, w.finish(), Delivery::Reply))
    } else if action == 1 {
        if status != PlayerStatus::Traveling {
            state.instances.add(inst);
            proof { lemma_put_back(old(state).instances@, iid); }
            return Some(make_response(client_id, uid, iid, UNKNOWN, Some("Player is not traveling.")));
        }
        inst.set_player_status(player_id, PlayerStatus::Ready);
        state.instances.add(inst);
        Some(make_response(client_id, uid, iid, READY, None))
    } else {
        state.instances.add(inst);
        proof { lemma_put_back(old(state).instances@, iid); }
        if action == 2 {
            None
        } else {
            Some(make_response(client_id, uid, iid, UNKNOWN, Some("Unknown action.")))
        }
    }
}

/// A player whose status is not set yet cannot travel, and a traveling
/// player who reports Ready becomes ready.
pub proof fn lemma_traveling_lifecycle(state: AppState, client_id: u16, uid: u16, iid: u8)
    requires
        state.instances@.contains_key(iid),
        state.instances@[iid].has_client(client_id),
    ensures
        state.instances@[iid].client_player(client_id).status == PlayerStatus::Unset
            ==> spec_traveling(state, client_id, uid, seq![iid, 0u8]).1 is None,
        state.instances@[iid].client_player(client_id).status == PlayerStatus::Traveling
            ==> spec_traveling(state, client_id, uid, seq![iid, 1u8]).1 == Some(PlayerStatus::Ready),
{
    assert(take_u8(seq![iid, 0u8]).0 == iid);
    assert(take_u8(seq![iid, 0u8]).1 =~= seq![0u8]);
    assert(take_u8(seq![0u8]).0 == 0);
    assert(take_u8(seq![iid, 1u8]).0 == iid);
    assert(take_u8(seq![iid, 1u8]).1 =~= seq![1u8]);
    assert(take_u8(seq![1u8]).0 == 1);
}

} // verus!
