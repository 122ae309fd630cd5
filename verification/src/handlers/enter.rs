//! Enter: a client asks to become a player of an instance.
//!
//! Request: `[iid: u8][EnterFlags: u8]`, then `[display: string]` when
//! `USE_PSEUDONYM` is set and `[password: string]` when `USE_PASSWORD` is set.
//!
//! Success response: `[iid][0][PlayerFlags: u32][PlayerId: u16][UserId: u32]
//! [UserAddress: string][Display: string][CreatedAt: i64][Tps: u8]
//! [Threshold: f32][RenderEntity: f32]`; failure: `[iid][EnterResult][reason: string]`.
//!
//! Join (pushed): `[iid][PlayerFlags: u32][PlayerId: u16][UserId: u32]
//! [UserAddress: string][Display: string][CreatedAt: i64][Engine: string][Platform: string]`.
use vstd::prelude::*;

use super::context::{clients_except, collect_clients_except, lemma_put_back, push_to_clients, pushes_to, AppState};
use super::packet::{out, outs_view, Delivery, OutView, Outgoing, PacketType};
use crate::client::client::Client;
use crate::client::ClientManager;
use crate::instance::flags::AUTHORIZE_BOT;
use crate::instance::instance::{
    same_settings, spec_is_full, spec_password_accepts, with_auto_group, Instance,
};
use crate::master::messages::EventPlayerJoin;
use crate::player::player_flags::{INSTANCE_MASTER, IS_BOT};
use crate::player::{Player, PlayerStatus};
use crate::text::{blank, default_player_name, is_blank, player_name};
use vstd::utf8::encode_utf8;
use crate::wire::{le16, le32, le64, lemma_string_roundtrip, string_field, take_string, take_u8, PacketReader, PacketWriter};

verus! {

// ── Enter flags (bits of a `u8`) ────────────────────────────────────────────

pub const ENTER_NONE: u8 = 0;
pub const ENTER_AS_BOT: u8 = 1 << 0;
pub const ENTER_USE_PSEUDONYM: u8 = 1 << 1;
pub const ENTER_USE_PASSWORD: u8 = 1 << 2;
pub const ENTER_HIDE_IN_LIST: u8 = 1 << 3;
/// Every defined enter flag; other bits are dropped.
pub const ENTER_KNOWN: u8 = 0x0F;

/// The outcome codes of an Enter request.
#[derive(Debug, Clone, Copy, PartialEq, Eq, Structural)]
pub enum EnterResult {
    Success,
    NotFound,
    Full,
    Blacklisted,
    NotWhitelisted,
    InvalidGame,
    IncorrectPassword,
    Unknown,
    Refused,
    InvalidPseudonyme,
}

impl EnterResult {
    pub open spec fn spec_code(self) -> u8 {
        match self {
            EnterResult::Success => 0,
            EnterResult::NotFound => 1,
            EnterResult::Full => 2,
            EnterResult::Blacklisted => 3,
            EnterResult::NotWhitelisted => 4,
            EnterResult::InvalidGame => 5,
            EnterResult::IncorrectPassword => 6,
            EnterResult::Unknown => 7,
            EnterResult::Refused => 8,
            EnterResult::InvalidPseudonyme => 9,
        }
    }

    /// The wire code.
    pub fn code(self) -> (c: u8)
        ensures
            c == self.spec_code(),
    {
        match self {
            EnterResult::Success => 0,
            EnterResult::NotFound => 1,
            EnterResult::Full => 2,
            EnterResult::Blacklisted => 3,
            EnterResult::NotWhitelisted => 4,
            EnterResult::InvalidGame => 5,
            EnterResult::IncorrectPassword => 6,
            EnterResult::Unknown => 7,
            EnterResult::Refused => 8,
            EnterResult::InvalidPseudonyme => 9,
        }
    }
}

/// What an Enter request decides before anything changes.
pub enum EnterDecision {
    /// No answer: the sender is unknown, or neither authenticated nor a bot
    /// in debug mode.
    Ignore,
    /// Refused with this result and reason.
    Refuse(EnterResult, Seq<char>),
    /// Admitted with these player flags and pseudonym.
    Admit(u32, Option<Seq<char>>),
}

/// The player flags an enter request asks for.
pub open spec fn requested_player_flags(enter_flags: u8) -> u32 {
    (if enter_flags & ENTER_AS_BOT != 0 { IS_BOT } else { 0u32 }) | (if enter_flags & ENTER_HIDE_IN_LIST != 0 {
        crate::player::player_flags::HIDE_IN_LIST
    } else {
        0u32
    })
}

/// The pseudonym kept: a string that does not trim to nothing.
pub open spec fn kept_display(d: Option<Seq<char>>) -> Option<Seq<char>> {
    match d {
        Some(s) => if is_blank(s) {
            None
        } else {
            Some(s)
        },
        None => None,
    }
}

/// The decision on an Enter request (instance id, decision).
pub open spec fn spec_enter_decision(state: AppState, client_id: u16, payload: Seq<u8>) -> (u8, EnterDecision) {
    let (iid, r1) = take_u8(payload);
    let (raw, r2) = take_u8(r1);
    let ef = raw & ENTER_KNOWN;
    let is_bot = ef & ENTER_AS_BOT != 0;
    let decision = if !state.clients@.contains_key(client_id) || !(state.clients@[client_id].spec_is_authenticated()
        || (state.config.debug && is_bot)) {
        EnterDecision::Ignore
    } else if !state.instances@.contains_key(iid) {
        EnterDecision::Refuse(EnterResult::NotFound, "Instance not found."@)
    } else {
        let inst = state.instances@[iid];
        let (display, r3) = if ef & ENTER_USE_PSEUDONYM != 0 {
            take_string(r2)
        } else {
            (None, r2)
        };
        let provided = if ef & ENTER_USE_PASSWORD != 0 {
            match take_string(r3).0 {
                Some(s) => s,
                None => Seq::empty(),
            }
        } else {
            Seq::empty()
        };
        if inst.has_client(client_id) {
            EnterDecision::Refuse(EnterResult::Unknown, "Already in instance."@)
        } else if spec_is_full(inst.flags, inst.capacity, inst.players().len()) {
            EnterDecision::Refuse(EnterResult::Full, "Instance is full."@)
        } else if is_bot && inst.flags & AUTHORIZE_BOT == 0 {
            EnterDecision::Refuse(EnterResult::Refused, "Bots are not authorized in this instance."@)
        } else if inst.spec_has_password() && !spec_password_accepts(inst.password_hash(), provided) {
            EnterDecision::Refuse(EnterResult::IncorrectPassword, "Incorrect password."@)
        } else if forall|k: u16| #[trigger] inst.has_player(k) {
            EnterDecision::Refuse(EnterResult::Full, "Instance is full."@)
        } else {
            EnterDecision::Admit(requested_player_flags(ef), kept_display(display))
        }
    };
    (iid, decision)
}

/// `[iid][result][reason]`.
pub open spec fn enter_error_payload(iid: u8, result: EnterResult, reason: Seq<char>) -> Seq<u8> {
    seq![iid, result.spec_code()] + string_field(reason)
}

/// The user fields shown for a player of client `c`: user id, user address
/// and display name (the pseudonym, else the user's display name, else
/// `"Player {id}"`).
pub open spec fn shown_identity(p: Player, c: Client) -> (u32, Seq<char>, Seq<char>) {
    let pd = match p.display {
        Some(d) => Some(d@),
        None => None,
    };
    match c.user {
        Some(u) => (u.id, u.address@, match pd {
            Some(d) => d,
            None => u.display_name@,
        }),
        None => (0u32, Seq::empty(), match pd {
            Some(d) => d,
            None => default_player_name(p.id),
        }),
    }
}

/// The Join announcing player `p` of client `c` in instance `iid`.
pub open spec fn join_payload(iid: u8, p: Player, c: Client) -> Seq<u8> {
    let (uid, addr, display) = shown_identity(p, c);
    seq![iid] + le32(p.flags) + le16(p.id) + le32(uid) + string_field(addr) + string_field(display) + le64(
        p.created_at as u64,
    ) + string_field(c.engine@) + string_field(c.platform@)
}

/// The Enter success payload for player `p` of client `c`.
pub open spec fn enter_success_payload(
    iid: u8,
    p: Player,
    c: Client,
    tps: u8,
    threshold: u32,
    render_entity: u32,
) -> Seq<u8> {
    let (uid, addr, display) = shown_identity(p, c);
    seq![iid, EnterResult::Success.spec_code()] + le32(p.flags) + le16(p.id) + le32(uid) + string_field(addr)
        + string_field(display) + le64(p.created_at as u64) + seq![tps] + le32(threshold) + le32(render_entity)
}

/// The Joins of the players already present, pushed to the entering client
/// `cid`, in player order. A player whose client is no longer registered has
/// no Join to describe it; its slot is an empty buffer, which puts no bytes on
/// the stream, so no packet is pushed for it.
pub open spec fn existing_joins(ps: Seq<Player>, clients: Map<u16, Client>, iid: u8, cid: u16) -> Seq<OutView>
    decreases ps.len(),
{
    if ps.len() == 0 {
        Seq::empty()
    } else {
        let r = existing_joins(ps.drop_last(), clients, iid, cid);
        let p = ps.last();
        if p.client_id != cid && clients.contains_key(p.client_id) {
            r.push(out(cid, 0, PacketType::Join, join_payload(iid, p, clients[p.client_id]), Delivery::Push))
        } else {
            r
        }
    }
}

/// `ps` with the first player made instance master, when none of them is.
pub open spec fn with_master(ps: Seq<Player>) -> Seq<Player> {
    if ps.len() > 0 && forall|i: int| 0 <= i < ps.len() ==> !(#[trigger] ps[i]).spec_is_master() {
        ps.update(0, Player { flags: ps[0].flags | INSTANCE_MASTER, ..ps[0] })
    } else {
        ps
    }
}

/// Whether `np` is the player created for client `cid` entering instance
/// `iid` with id `pid`, flags `flags` and pseudonym `display` at `now_ms`.
pub open spec fn is_new_player(
    np: Player,
    pid: u16,
    cid: u16,
    iid: u8,
    flags: u32,
    display: Option<Seq<char>>,
    now_ms: i64,
) -> bool {
    &&& np.id == pid
    &&& np.client_id == cid
    &&& np.instance_id == iid
    &&& np.status == PlayerStatus::Preparing
    &&& np.flags == flags
    &&& match np.display {
        Some(d) => display == Some(d@),
        None => display is None,
    }
    &&& np.created_at == now_ms
    &&& np.avatar is None
    &&& np.transforms@ == Map::<u16, (u8, crate::player::rig::Transform)>::empty()
    &&& np.custom_tps == 0
    &&& np.custom_threshold == 0
}

/// What an Enter request produced: the packets sent so far (a refusal, or
/// the Joins), the event for the node, and the id of the player created.
/// The success reply is built by `respond` once the player is in.
pub struct EnterOutcome {
    pub outs: Vec<Outgoing>,
    pub event: Option<EventPlayerJoin>,
    pub entered: Option<u16>,
}

fn error_reply(client_id: u16, uid: u16, iid: u8, result: EnterResult, reason: &str) -> (o: Outgoing)
    ensures
        o@ == out(client_id, uid, PacketType::Enter, enter_error_payload(iid, result, reason@), Delivery::Reply),
{
    let mut w = PacketWriter::new();
    w.write_u8(iid);
    w.write_u8(result.code());
    w.write_string(reason);
    let ghost v = w@;
    assert(v =~= seq![iid, result.spec_code()] + string_field(reason@));
    Outgoing::new(client_id, uid, PacketType::Enter, w.finish(), Delivery::Reply)
}

fn refused(client_id: u16, uid: u16, iid: u8, result: EnterResult, reason: &str) -> (r: EnterOutcome)
    ensures
        outs_view(r.outs@) == seq![
            out(client_id, uid, PacketType::Enter, enter_error_payload(iid, result, reason@), Delivery::Reply),
        ],
        r.event is None,
        r.entered is None,
{
    let mut outs: Vec<Outgoing> = Vec::new();
    outs.push(error_reply(client_id, uid, iid, result, reason));
    assert(outs_view(outs@) =~= seq![
        out(client_id, uid, PacketType::Enter, enter_error_payload(iid, result, reason@), Delivery::Reply),
    ]);
    EnterOutcome { outs, event: None, entered: None }
}

fn opt_view(s: &Option<String>) -> (r: Option<&str>)
    ensures
        match r {
            Some(t) => s matches Some(u) && t@ == u@,
            None => s is None,
        },
{
    match s {
        Some(t) => Some(t.as_str()),
        None => None,
    }
}

/// The user fields shown for player `p` of client `c`.
fn identity(p: &Player, c: &Client) -> (r: (u32, String, String))
    ensures
        (r.0, r.1@, r.2@) == shown_identity(*p, *c),
{
    match &c.user {
        Some(u) => {
            let d = match &p.display {
                Some(d) => d.clone(),
                None => u.display_name.clone(),
            };
            (u.id, u.address.clone(), d)
        },
        None => {
            let d = match &p.display {
                Some(d) => d.clone(),
                None => player_name(p.id),
            };
            (0, String::new(), d)
        },
    }
}

/// Builds the Join announcing player `p` of client `c`.
pub fn build_join(iid: u8, p: &Player, c: &Client) -> (bytes: Vec<u8>)
    ensures
        bytes@ == join_payload(iid, *p, *c),
{
    let (user_id, addr, display) = identity(p, c);
    let mut w = PacketWriter::new();
    w.write_u8(iid);
    w.write_u32(p.flags);
    w.write_u16(p.id);
    w.write_u32(user_id);
    w.write_string(addr.as_str());
    w.write_string(display.as_str());
    w.write_i64(p.created_at);
    w.write_string(c.engine.as_str());
    w.write_string(c.platform.as_str());
    let ghost v = w@;
    assert(v =~= join_payload(iid, *p, *c));
    w.finish()
}

/// Builds the Enter success payload.
pub fn build_enter_success(iid: u8, p: &Player, c: &Client, tps: u8, threshold: u32, render_entity: u32) -> (bytes: Vec<u8>)
    ensures
        bytes@ == enter_success_payload(iid, *p, *c, tps, threshold, render_entity),
{
    let (user_id, addr, display) = identity(p, c);
    let mut w = PacketWriter::new();
    w.write_u8(iid);
    w.write_u8(EnterResult::Success.code());
    w.write_u32(p.flags);
    w.write_u16(p.id);
    w.write_u32(user_id);
    w.write_string(addr.as_str());
    w.write_string(display.as_str());
    w.write_i64(p.created_at);
    w.write_u8(tps);
    w.write_u32(threshold);
    w.write_u32(render_entity);
    let ghost v = w@;
    assert(v =~= enter_success_payload(iid, *p, *c, tps, threshold, render_entity));
    w.finish()
}

/// Pushes to `cid` the Join of every player of `inst` of another client
/// (none for a player whose client is no longer registered).
fn push_existing_joins(clients: &ClientManager, inst: &Instance, iid: u8, cid: u16, outs: &mut Vec<Outgoing>)
    ensures
        outs_view(final(outs)@) == outs_view(old(outs)@) + existing_joins(inst.players(), clients@, iid, cid),
{
    let ghost start = outs_view(outs@);
    let ps = inst.get_players();
    let mut i: usize = 0;
    while i < ps.len()
        invariant
            ps@ == inst.players(),
            i <= ps@.len(),
            outs_view(outs@) == start + existing_joins(ps@.take(i as int), clients@, iid, cid),
        decreases ps@.len() - i,
    {
        proof {
            assert(ps@.take(i + 1).drop_last() =~= ps@.take(i as int));
        }
        let p = &ps[i];
        if p.client_id != cid {
            match clients.get(p.client_id) {
                Some(c) => {
                    let ghost before = outs@;
                    let bytes = build_join(iid, p, &c);
                    outs.push(Outgoing::new(cid, 0, PacketType::Join, bytes, Delivery::Push));
                    proof {
                        assert(outs_view(outs@) =~= outs_view(before).push(
                            out(cid, 0, PacketType::Join, join_payload(iid, *p, clients@[p.client_id]), Delivery::Push),
                        ));
                    }
                },
                None => {},
            }
        }
        i = i + 1;
    }
    assert(ps@.take(ps@.len() as int) =~= ps@);
}

/// The event announced to the node for the player `pid` of client `c`.
pub open spec fn join_event_ok(ev: EventPlayerJoin, client_id: u16, pid: u16, c: Client, iid: u8, flags: u32, now_ms: i64) -> bool {
    &&& ev.client_id == client_id
    &&& ev.player_id == pid
    &&& ev.display@ == match c.user {
        Some(u) => u.display_name@,
        None => default_player_name(pid),
    }
    &&& ev.internal_id == iid
    &&& ev.flags == flags
    &&& ev.joined_at == now_ms
}

/// What an admitted Enter request leaves: instance `iid` gains the new player
/// `pid` (the lowest free id) and its automatic group, the oldest player
/// becomes master when nobody is, and the Joins go out.
pub open spec fn spec_admitted(
    old_state: AppState,
    new_state: AppState,
    r_outs: Seq<OutView>,
    r_event: Option<EventPlayerJoin>,
    pid: u16,
    client_id: u16,
    iid: u8,
    flags: u32,
    display: Option<Seq<char>>,
    now_ms: i64,
) -> bool {
    let inst = old_state.instances@[iid];
    let c = old_state.clients@[client_id];
    let fi = new_state.instances@[iid];
    &&& !inst.has_player(pid)
    &&& forall|k: u16| k < pid ==> #[trigger] inst.has_player(k)
    &&& new_state.instances@.dom() == old_state.instances@.dom()
    &&& forall|k: u8| k != iid && #[trigger] old_state.instances@.contains_key(k)
        ==> new_state.instances@[k] == old_state.instances@[k]
    &&& exists|np: Player| #[trigger] is_new_player(np, pid, client_id, iid, flags, display, now_ms)
        && fi.players() == with_master(inst.players().push(np))
    &&& fi.groups() == with_auto_group(inst.groups(), pid)
    &&& same_settings(fi, inst)
    &&& r_outs == pushes_to(
        clients_except(fi.players(), Some(client_id)),
        old_state.clients@,
        0,
        PacketType::Join,
        join_payload(iid, fi.players().last(), c),
        Delivery::Push,
    ) + existing_joins(fi.players(), old_state.clients@, iid, client_id)
    &&& r_event matches Some(ev) && join_event_ok(ev, client_id, pid, c, iid, flags, now_ms)
}

/// Handles an Enter request from client `client_id` received at `now_ms`.
pub fn handle(state: &mut AppState, client_id: u16, uid: u16, payload: Vec<u8>, now_ms: i64) -> (r: EnterOutcome)
    requires
        old(state).wf(),
    ensures
        final(state).wf(),
        final(state).clients@ == old(state).clients@,
        final(state).config == old(state).config,
        ({
            let (iid, d) = spec_enter_decision(*old(state), client_id, payload@);
            match d {
                EnterDecision::Ignore => {
                    &&& outs_view(r.outs@) == Seq::<OutView>::empty()
                    &&& r.event is None
                    &&& r.entered is None
                    &&& final(state).instances@ == old(state).instances@
                },
                EnterDecision::Refuse(res, reason) => {
                    &&& outs_view(r.outs@) == seq![
                        out(client_id, uid, PacketType::Enter, enter_error_payload(iid, res, reason), Delivery::Reply),
                    ]
                    &&& r.event is None
                    &&& r.entered is None
                    &&& final(state).instances@ == old(state).instances@
                },
                EnterDecision::Admit(flags, display) => {
                    &&& r.entered is Some
                    &&& spec_admitted(
                        *old(state),
                        *final(state),
                        outs_view(r.outs@),
                        r.event,
                        r.entered->0,
                        client_id,
                        iid,
                        flags,
                        display,
                        now_ms,
                    )
                },
            }
        }),
{
    let mut r = PacketReader::new(payload);
    let iid = r.read_u8();
    let ef = r.read_u8() & ENTER_KNOWN;
    let is_bot = ef & ENTER_AS_BOT != 0;
    let allow_no_auth = state.config.debug && is_bot;
    let client = match state.clients.get(client_id) {
        Some(c) => if c.is_authenticated() || allow_no_auth {
            c
        } else {
            let outs: Vec<Outgoing> = Vec::new();
            assert(outs_view(outs@) =~= Seq::<OutView>::empty());
            return EnterOutcome { outs, event: None, entered: None };
        },
        None => {
            let outs: Vec<Outgoing> = Vec::new();
            assert(outs_view(outs@) =~= Seq::<OutView>::empty());
            return EnterOutcome { outs, event: None, entered: None };
        },
    };
    let mut inst = match state.instances.remove(iid) {
        Some(i) => i,
        None => return refused(client_id, uid, iid, EnterResult::NotFound, "Instance not found."),
    };
    let display = if ef & ENTER_USE_PSEUDONYM != 0 {
        r.read_string()
    } else {
        None
    };
    let provided = if ef & ENTER_USE_PASSWORD != 0 {
        match r.read_string() {
            Some(s) => s,
            None => String::new(),
        }
    } else {
        String::new()
    };
    if inst.find_client(client_id).is_some() {
        state.instances.add(inst);
        proof { lemma_put_back(old(state).instances@, iid); }
        return refused(client_id, uid, iid, EnterResult::Unknown, "Already in instance.");
    }
    if inst.is_full() {
        state.instances.add(inst);
        proof { lemma_put_back(old(state).instances@, iid); }
        return refused(client_id, uid, iid, EnterResult::Full, "Instance is full.");
    }
    if is_bot && inst.flags & AUTHORIZE_BOT == 0 {
        state.instances.add(inst);
        proof { lemma_put_back(old(state).instances@, iid); }
        return refused(client_id, uid, iid, EnterResult::Refused, "Bots are not authorized in this instance.");
    }
    if inst.has_password() && !inst.verify_password(provided.as_str()) {
        state.instances.add(inst);
        proof { lemma_put_back(old(state).instances@, iid); }
        return refused(client_id, uid, iid, EnterResult::IncorrectPassword, "Incorrect password.");
    }
    let pid = inst.next_player_id();
    if inst.find_player(pid).is_some() {
        proof {
            assert forall|k: u16| #[trigger] inst.has_player(k) by {
                if k >= pid {
                    assert(k == pid);
                }
            }
        }
        state.instances.add(inst);
        proof { lemma_put_back(old(state).instances@, iid); }
        return refused(client_id, uid, iid, EnterResult::Full, "Instance is full.");
    }
    proof {
        assert(!inst.has_player(pid));
        assert(!(forall|k: u16| #[trigger] inst.has_player(k)));
    }
    let bot_flag: u32 = if ef & ENTER_AS_BOT != 0 { IS_BOT } else { 0 };
    let hide_flag: u32 = if ef & ENTER_HIDE_IN_LIST != 0 { crate::player::player_flags::HIDE_IN_LIST } else { 0 };
    let flags = bot_flag | hide_flag;
    let kept = match display {
        Some(d) => if blank(d.as_str()) {
            None
        } else {
            Some(d)
        },
        None => None,
    };
    let ghost kept_v = crate::instance::view_group::opt_chars(kept);
    let mut player = Player::new(pid, client_id, iid, now_ms);
    player.flags = flags;
    player.status = PlayerStatus::Preparing;
    player.display = kept;
    let ghost np = player;
    assert(is_new_player(np, pid, client_id, iid, flags, kept_v, now_ms));
    let ghost inst0 = inst;
    inst.add_player(player);
    let ev_display = match &client.user {
        Some(u) => u.display_name.clone(),
        None => player_name(pid),
    };
    let event = EventPlayerJoin { client_id, player_id: pid, display: ev_display, internal_id: iid, flags, joined_at: now_ms };
    inst.promote_master_if_none();
    assert(inst.players() == with_master(inst0.players().push(np)));
    let last = inst.players.len() - 1;
    let join = build_join(iid, &inst.players[last], &client);
    let cids = collect_clients_except(&inst, Some(client_id));
    let mut outs: Vec<Outgoing> = Vec::new();
    assert(outs_view(outs@) =~= Seq::<OutView>::empty());
    push_to_clients(&state.clients, &cids, 0, PacketType::Join, &join, Delivery::Push, &mut outs);
    push_existing_joins(&state.clients, &inst, iid, client_id, &mut outs);
    let ghost fi = inst;
    state.instances.add(inst);
    proof {
        assert(state.instances@[iid] == fi);
        assert(outs_view(outs@) =~= pushes_to(
            clients_except(fi.players(), Some(client_id)),
            old(state).clients@,
            0,
            PacketType::Join,
            join_payload(iid, fi.players().last(), client),
            Delivery::Push,
        ) + existing_joins(fi.players(), old(state).clients@, iid, client_id));
    }
    EnterOutcome { outs, event: Some(event), entered: Some(pid) }
}

/// The success reply for player `pid` of client `client_id` in instance `iid`,
/// when all three exist. `adaptive_tps` is what load balancing gives the
/// instance now.
pub open spec fn spec_enter_reply(
    state: AppState,
    client_id: u16,
    uid: u16,
    iid: u8,
    pid: u16,
    adaptive_tps: u8,
) -> Option<OutView> {
    if state.instances@.contains_key(iid) && state.instances@[iid].has_player(pid) && state.clients@.contains_key(client_id) {
        let inst = state.instances@[iid];
        Some(out(
            client_id,
            uid,
            PacketType::Enter,
            enter_success_payload(
                iid,
                inst.player(pid),
                state.clients@[client_id],
                inst.spec_get_player_tps(pid, state.config.load_balancing, adaptive_tps),
                inst.spec_get_player_threshold(pid),
                inst.render_entity,
            ),
            Delivery::Reply,
        ))
    } else {
        None
    }
}

/// Builds the success reply to the Enter request that created player `pid`.
pub fn respond(state: &mut AppState, client_id: u16, uid: u16, iid: u8, pid: u16, adaptive_tps: u8) -> (o: Option<Outgoing>)
    requires
        old(state).wf(),
    ensures
        final(state).wf(),
        final(state).clients@ == old(state).clients@,
        final(state).instances@ == old(state).instances@,
        final(state).config == old(state).config,
        match o {
            Some(x) => spec_enter_reply(*old(state), client_id, uid, iid, pid, adaptive_tps) == Some(x@),
            None => spec_enter_reply(*old(state), client_id, uid, iid, pid, adaptive_tps) is None,
        },
{
    let client = match state.clients.get(client_id) {
        Some(c) => c,
        None => return None,
    };
    let inst = match state.instances.remove(iid) {
        Some(i) => i,
        None => return None,
    };
    let reply = match inst.find_player(pid) {
        Some(idx) => {
            proof {
                assert(inst.player(pid) == inst.players()[idx as int]);
            }
            let tps = inst.get_player_tps(pid, &state.config.load_balancing, adaptive_tps);
            let threshold = inst.get_player_threshold(pid);
            let bytes = build_enter_success(iid, &inst.players[idx], &client, tps, threshold, inst.render_entity);
            Some(Outgoing::new(client_id, uid, PacketType::Enter, bytes, Delivery::Reply))
        },
        None => None,
    };
    state.instances.add(inst);
    proof { lemma_put_back(old(state).instances@, iid); }
    reply
}

/// The name an authenticated user's player goes by: the pseudonym it kept,
/// else the user's display name.
pub open spec fn name_shown(p: Player, u: crate::client::user::User) -> Seq<char> {
    match p.display {
        Some(d) => d@,
        None => u.display_name@,
    }
}

proof fn lemma_reads_identity(head: Seq<u8>, addr: Seq<char>, name: Seq<char>, tail: Seq<u8>)
    requires
        encode_utf8(addr).len() <= 65535,
        encode_utf8(name).len() <= 65535,
    ensures
        ({
            let s = head + string_field(addr) + string_field(name) + tail;
            let (a, rest) = take_string(s.skip(head.len() as int));
            a == Some(addr) && take_string(rest).0 == Some(name)
        }),
{
    let s = head + string_field(addr) + string_field(name) + tail;
    assert(s.skip(head.len() as int) =~= string_field(addr) + (string_field(name) + tail));
    lemma_string_roundtrip(addr, string_field(name) + tail);
    lemma_string_roundtrip(name, tail);
}

proof fn lemma_append3(x: Seq<u8>, a: Seq<u8>, b: Seq<u8>, c: Seq<u8>)
    ensures
        x + a + b + c == x + (a + b + c),
{
    assert(x + a + b + c =~= x + (a + b + c));
}

proof fn lemma_append4(x: Seq<u8>, a: Seq<u8>, b: Seq<u8>, c: Seq<u8>, d: Seq<u8>)
    ensures
        x + a + b + c + d == x + (a + b + c + d),
{
    assert(x + a + b + c + d =~= x + (a + b + c + d));
}

/// The Join announcing the player of an authenticated client carries, read
/// field by field, the user's server address and then the player's kept
/// pseudonym, or the user's display name when it kept none (when both fit in
/// a string field).
pub proof fn lemma_join_shows_pseudonym(iid: u8, p: Player, c: Client)
    requires
        c.user is Some,
        encode_utf8(c.user->0.address@).len() <= 65535,
        encode_utf8(name_shown(p, c.user->0)).len() <= 65535,
    ensures
        ({
            let u = c.user->0;
            let (a, rest) = take_string(join_payload(iid, p, c).skip(11));
            a == Some(u.address@) && take_string(rest).0 == Some(name_shown(p, u))
        }),
{
    let u = c.user->0;
    let name = name_shown(p, u);
    let head = seq![iid] + le32(p.flags) + le16(p.id) + le32(u.id);
    let x = head + string_field(u.address@) + string_field(name);
    lemma_append3(x, le64(p.created_at as u64), string_field(c.engine@), string_field(c.platform@));
    let tail = le64(p.created_at as u64) + string_field(c.engine@) + string_field(c.platform@);
    assert(join_payload(iid, p, c) == x + tail);
    lemma_reads_identity(head, u.address@, name, tail);
}

/// The Enter success reply to an authenticated client carries, read field
/// by field, the user's server address and then the player's kept
/// pseudonym, or the user's display name when it kept none (when both fit in
/// a string field).
pub proof fn lemma_enter_reply_shows_pseudonym(iid: u8, p: Player, c: Client, tps: u8, threshold: u32, render_entity: u32)
    requires
        c.user is Some,
        encode_utf8(c.user->0.address@).len() <= 65535,
        encode_utf8(name_shown(p, c.user->0)).len() <= 65535,
    ensures
        ({
            let u = c.user->0;
            let (a, rest) = take_string(enter_success_payload(iid, p, c, tps, threshold, render_entity).skip(12));
            a == Some(u.address@) && take_string(rest).0 == Some(name_shown(p, u))
        }),
{
    let u = c.user->0;
    let name = name_shown(p, u);
    let head = seq![iid, EnterResult::Success.spec_code()] + le32(p.flags) + le16(p.id) + le32(u.id);
    let x = head + string_field(u.address@) + string_field(name);
    lemma_append4(x, le64(p.created_at as u64), seq![tps], le32(threshold), le32(render_entity));
    let tail = le64(p.created_at as u64) + seq![tps] + le32(threshold) + le32(render_entity);
    assert(enter_success_payload(iid, p, c, tps, threshold, render_entity) == x + tail);
    lemma_reads_identity(head, u.address@, name, tail);
}

} // verus!
