//! ServerConfig: a highly privileged player reads or changes the settings of
//! its instance.
//!
//! Request: `[iid: u8][flags: u8]`, then per flag in this order: TPS `[u8]`,
//! THRESHOLD `[f32]`, CAPACITY `[u16]`, PASSWORD `[string]`, FLAGS `[u32]`,
//! LOAD_BALANCING `[u8]`. No flag asks for the current settings.
//!
//! Response / broadcast: `[iid][Change][flags]` and, per flag, the player's
//! TPS `[u8]`, threshold `[f32]`, capacity `[u16]`, instance flags `[u32]`,
//! password presence `[u8]`, minimum TPS `[u8]`, maximum TPS `[u8]`,
//! load-balancing switch `[u8]`. Failure: `[iid][Failure][reason: string]`.
use vstd::prelude::*;

use super::context::{lemma_put_back, AppState};
use super::packet::{out, outs_view, Delivery, OutView, Outgoing, PacketType};
use crate::client::client::Client;
use crate::client::ClientManager;
use crate::config::LoadBalancingConfig;
use crate::hashing::fits_argon2;
use crate::instance::flags::{KNOWN, USE_PASSWORD};
use crate::instance::instance::{spec_password_accepts, Instance};
use crate::player::Player;
use crate::wire::{le16, le32, string_field, take_string, take_u16, take_u32, take_u8, PacketReader, PacketWriter};

verus! {

pub const SC_NONE: u8 = 0x00;
pub const SC_TPS: u8 = 0x01;
pub const SC_THRESHOLD: u8 = 0x02;
pub const SC_CAPACITY: u8 = 0x04;
pub const SC_PASSWORD: u8 = 0x08;
pub const SC_FLAGS: u8 = 0x10;
pub const SC_MIN_TPS: u8 = 0x20;
pub const SC_MAX_TPS: u8 = 0x40;
pub const SC_LOAD_BALANCING: u8 = 0x80;
pub const SC_ALL: u8 = 0xFF;
/// The settings a request can change.
pub const SC_SETTABLE: u8 = 0x9F;

/// Result codes of a ServerConfig packet.
#[derive(Debug, Clone, Copy, PartialEq, Eq, Structural)]
pub enum ServerConfigResult {
    Success,
    Failure,
    Change,
}

impl ServerConfigResult {
    pub open spec fn spec_code(self) -> u8 {
        match self {
            ServerConfigResult::Success => 0,
            ServerConfigResult::Failure => 1,
            ServerConfigResult::Change => 2,
        }
    }

    pub fn code(self) -> (c: u8)
        ensures
            c == self.spec_code(),
    {
        match self {
            ServerConfigResult::Success => 0,
            ServerConfigResult::Failure => 1,
            ServerConfigResult::Change => 2,
        }
    }
}

/// The values a request carries, per flag.
pub struct ConfigFields {
    pub tps: Option<u8>,
    pub threshold: Option<u32>,
    pub capacity: Option<u16>,
    /// The new password (a missing or unreadable string reads as empty).
    pub password: Option<Seq<char>>,
    /// The new instance flags, unknown bits dropped.
    pub flags: Option<u32>,
    pub load_balancing: Option<bool>,
}

/// Reads the values of the request flags `req` from `s`, in wire order.
pub open spec fn parse_config(req: u8, s: Seq<u8>) -> ConfigFields {
    let (tps, s1) = if req & SC_TPS != 0 {
        (Some(take_u8(s).0), take_u8(s).1)
    } else {
        (None, s)
    };
    let (threshold, s2) = if req & SC_THRESHOLD != 0 {
        (Some(take_u32(s1).0), take_u32(s1).1)
    } else {
        (None, s1)
    };
    let (capacity, s3) = if req & SC_CAPACITY != 0 {
        (Some(take_u16(s2).0), take_u16(s2).1)
    } else {
        (None, s2)
    };
    let (password, s4) = if req & SC_PASSWORD != 0 {
        (Some(match take_string(s3).0 {
            Some(p) => p,
            None => Seq::<char>::empty(),
        }), take_string(s3).1)
    } else {
        (None, s3)
    };
    let (flags, s5) = if req & SC_FLAGS != 0 {
        (Some(take_u32(s4).0 & KNOWN), take_u32(s4).1)
    } else {
        (None, s4)
    };
    let load_balancing = if req & SC_LOAD_BALANCING != 0 {
        Some(take_u8(s5).0 != 0)
    } else {
        None
    };
    ConfigFields { tps, threshold, capacity, password, flags, load_balancing }
}

/// The byte of a boolean.
pub open spec fn bool_byte(b: bool) -> u8 {
    if b {
        1
    } else {
        0
    }
}

/// `bytes` when `flags` has `bit`, else nothing.
pub open spec fn when_set(flags: u8, bit: u8, bytes: Seq<u8>) -> Seq<u8> {
    if flags & bit != 0 {
        bytes
    } else {
        Seq::empty()
    }
}

/// The settings of `inst` for player `pid` selected by `flags`.
pub open spec fn config_payload(inst: Instance, iid: u8, flags: u8, pid: u16, lb: LoadBalancingConfig, adaptive_tps: u8) -> Seq<u8> {
    seq![iid, ServerConfigResult::Change.spec_code(), flags]
        + when_set(flags, SC_TPS, seq![inst.spec_get_player_tps(pid, lb, adaptive_tps)])
        + when_set(flags, SC_THRESHOLD, le32(inst.spec_get_player_threshold(pid)))
        + when_set(flags, SC_CAPACITY, le16(inst.capacity))
        + when_set(flags, SC_FLAGS, le32(inst.flags))
        + when_set(flags, SC_PASSWORD, seq![bool_byte(inst.spec_has_password())])
        + when_set(flags, SC_MIN_TPS, seq![lb.min_tps])
        + when_set(flags, SC_MAX_TPS, seq![inst.tps])
        + when_set(flags, SC_LOAD_BALANCING, seq![bool_byte(inst.spec_lb_enabled(lb))])
}

fn put_u8_when(w: &mut PacketWriter, flags: u8, bit: u8, v: u8)
    ensures
        final(w)@ == old(w)@ + when_set(flags, bit, seq![v]),
{
    if flags & bit != 0 {
        w.write_u8(v);
    } else {
        assert(w@ =~= old(w)@ + Seq::<u8>::empty());
    }
}

fn put_u16_when(w: &mut PacketWriter, flags: u8, bit: u8, v: u16)
    ensures
        final(w)@ == old(w)@ + when_set(flags, bit, le16(v)),
{
    if flags & bit != 0 {
        w.write_u16(v);
    } else {
        assert(w@ =~= old(w)@ + Seq::<u8>::empty());
    }
}

fn put_u32_when(w: &mut PacketWriter, flags: u8, bit: u8, v: u32)
    ensures
        final(w)@ == old(w)@ + when_set(flags, bit, le32(v)),
{
    if flags & bit != 0 {
        w.write_u32(v);
    } else {
        assert(w@ =~= old(w)@ + Seq::<u8>::empty());
    }
}

/// Builds the settings payload of `inst` for player `pid`.
pub fn build_config_response(inst: &Instance, iid: u8, flags: u8, pid: u16, lb: &LoadBalancingConfig, adaptive_tps: u8) -> (bytes: Vec<u8>)
    requires
        inst.wf(),
    ensures
        bytes@ == config_payload(*inst, iid, flags, pid, *lb, adaptive_tps),
{
    let mut w = PacketWriter::new();
    w.write_u8(iid);
    w.write_u8(ServerConfigResult::Change.code());
    w.write_u8(flags);
    assert(w@ =~= seq![iid, ServerConfigResult::Change.spec_code(), flags]);
    let tps = inst.get_player_tps(pid, lb, adaptive_tps);
    put_u8_when(&mut w, flags, SC_TPS, tps);
    let threshold = inst.get_player_threshold(pid);
    put_u32_when(&mut w, flags, SC_THRESHOLD, threshold);
    put_u16_when(&mut w, flags, SC_CAPACITY, inst.capacity);
    put_u32_when(&mut w, flags, SC_FLAGS, inst.flags);
    let has_pw: u8 = if inst.has_password() { 1 } else { 0 };
    put_u8_when(&mut w, flags, SC_PASSWORD, has_pw);
    put_u8_when(&mut w, flags, SC_MIN_TPS, lb.min_tps);
    put_u8_when(&mut w, flags, SC_MAX_TPS, inst.tps);
    let enabled = match inst.load_balancing_enabled {
        Some(b) => b,
        None => lb.enabled,
    };
    let lb_byte: u8 = if enabled { 1 } else { 0 };
    put_u8_when(&mut w, flags, SC_LOAD_BALANCING, lb_byte);
    w.finish()
}

/// `[iid][Failure][reason]`.
pub open spec fn config_failure(iid: u8, reason: Seq<char>) -> Seq<u8> {
    seq![iid, ServerConfigResult::Failure.spec_code()] + string_field(reason)
}

fn failure(client_id: u16, uid: u16, iid: u8, reason: &str) -> (o: Outgoing)
    ensures
        o@ == out(client_id, uid, PacketType::ServerConfig, config_failure(iid, reason@), Delivery::Reply),
{
    let mut w = PacketWriter::new();
    w.write_u8(iid);
    w.write_u8(ServerConfigResult::Failure.code());
    w.write_string(reason);
    let ghost v = w@;
    assert(v =~= config_failure(iid, reason@));
    Outgoing::new(client_id, uid, PacketType::ServerConfig, w.finish(), Delivery::Reply)
}

/// The values of a request, as read.
pub struct ConfigRequest {
    pub tps: Option<u8>,
    pub threshold: Option<u32>,
    pub capacity: Option<u16>,
    pub password: Option<String>,
    pub flags: Option<u32>,
    pub load_balancing: Option<bool>,
}

impl View for ConfigRequest {
    type V = ConfigFields;

    open spec fn view(&self) -> ConfigFields {
        ConfigFields {
            tps: self.tps,
            threshold: self.threshold,
            capacity: self.capacity,
            password: match self.password {
                Some(p) => Some(p@),
                None => None,
            },
            flags: self.flags,
            load_balancing: self.load_balancing,
        }
    }
}

/// Reads the values of the request flags `req`.
pub fn read_config(r: &mut PacketReader, req: u8) -> (cr: ConfigRequest)
    requires
        old(r).wf(),
    ensures
        final(r).wf(),
        cr@ == parse_config(req, old(r)@),
{
    let tps = if req & SC_TPS != 0 {
        Some(r.read_u8())
    } else {
        None
    };
    let threshold = if req & SC_THRESHOLD != 0 {
        Some(r.read_u32())
    } else {
        None
    };
    let capacity = if req & SC_CAPACITY != 0 {
        Some(r.read_u16())
    } else {
        None
    };
    let password = if req & SC_PASSWORD != 0 {
        match r.read_string() {
            Some(p) => Some(p),
            None => Some(String::new()),
        }
    } else {
        None
    };
    let flags = if req & SC_FLAGS != 0 {
        Some(r.read_u32() & KNOWN)
    } else {
        None
    };
    let load_balancing = if req & SC_LOAD_BALANCING != 0 {
        Some(r.read_u8() != 0)
    } else {
        None
    };
    ConfigRequest { tps, threshold, capacity, password, flags, load_balancing }
}

/// `f` when given, else `base`.
pub open spec fn or_base<T>(f: Option<T>, base: T) -> T {
    match f {
        Some(x) => x,
        None => base,
    }
}

/// `after` is `before` with the values of `f` applied: the password is set
/// (or, when empty, cleared) with its flag before the flags are replaced.
/// A password too long to hash leaves the old one.
pub open spec fn config_applied(before: Instance, after: Instance, f: ConfigFields) -> bool {
    &&& after.wf()
    &&& after.players() == before.players()
    &&& after.groups() == before.groups()
    &&& after.tps == or_base(f.tps, before.tps)
    &&& after.threshold == or_base(f.threshold, before.threshold)
    &&& after.capacity == or_base(f.capacity, before.capacity)
    &&& after.load_balancing_enabled == match f.load_balancing {
        Some(b) => Some(b),
        None => before.load_balancing_enabled,
    }
    &&& match f.password {
        None => after.password_hash() == before.password_hash() && after.flags == or_base(f.flags, before.flags),
        Some(pw) => if pw.len() == 0 {
            after.password_hash() is None && after.flags == or_base(f.flags, before.flags & !USE_PASSWORD)
        } else {
            ||| (after.password_hash() is Some && spec_password_accepts(after.password_hash(), pw)
                && after.flags == or_base(f.flags, before.flags | USE_PASSWORD))
            ||| (!fits_argon2(pw) && after.password_hash() == before.password_hash() && after.flags == or_base(f.flags, before.flags))
        },
    }
    &&& after.internal_id == before.internal_id
    &&& after.master_id == before.master_id
    &&& after.render_entity == before.render_entity
    &&& after.world == before.world
    &&& after.last_tick_duration == before.last_tick_duration
    &&& after.property_resend_interval == before.property_resend_interval
    &&& after.moderated == before.moderated
    &&& after.next_view_group_id == before.next_view_group_id
    &&& after.effective_tps == before.effective_tps
    &&& after.effective_threshold == before.effective_threshold
    &&& after.hearing == before.hearing
}

/// Applies the values of a request to an instance.
pub fn apply_config(inst: &mut Instance, cr: ConfigRequest)
    requires
        old(inst).wf(),
    ensures
        config_applied(*old(inst), *final(inst), cr@),
{
    let ghost f = cr@;
    if let Some(t) = cr.tps {
        inst.tps = t;
    }
    if let Some(t) = cr.threshold {
        inst.threshold = t;
    }
    if let Some(c) = cr.capacity {
        inst.capacity = c;
    }
    let ghost mid = *inst;
    match cr.password {
        Some(pw) => {
            if pw.as_str().is_empty() {
                inst.set_password(None);
            } else {
                inst.set_password(Some(pw));
            }
        },
        None => {},
    }
    if let Some(fl) = cr.flags {
        inst.flags = fl;
    }
    if let Some(b) = cr.load_balancing {
        inst.load_balancing_enabled = Some(b);
    }
}

/// What the first part of a ServerConfig request decided.
pub enum ConfigStep {
    /// Refused; the reply.
    Failed(Outgoing),
    /// The caller (player `pid` of instance `iid`) asks for every setting.
    Echo(u8, u16),
    /// Instance `iid` changed the settings `flags` at the request of player `pid`.
    Changed(u8, u16, u8),
}

/// The refusal reason of a ServerConfig request, if it is refused before any change.
pub open spec fn config_refusal(state: AppState, client_id: u16, payload: Seq<u8>) -> Option<Seq<char>> {
    let (iid, r1) = take_u8(payload);
    let req = take_u8(r1).0;
    if !state.instances@.contains_key(iid) {
        Some("Instance not found."@)
    } else if !state.instances@[iid].has_client(client_id) {
        Some("You are not in this instance."@)
    } else if !state.instances@[iid].client_player(client_id).spec_has_high_privilege() {
        Some("Permission denied."@)
    } else if req != 0 && req & SC_SETTABLE == 0 {
        Some("No valid configuration flags."@)
    } else {
        None
    }
}

/// Handles the first part of a ServerConfig request from `client_id`: checks
/// it and applies the changes. The answers are built by `config_responses`.
pub fn apply(state: &mut AppState, client_id: u16, uid: u16, payload: Vec<u8>) -> (step: ConfigStep)
    requires
        old(state).wf(),
    ensures
        final(state).wf(),
        final(state).clients@ == old(state).clients@,
        final(state).config == old(state).config,
        ({
            let (iid, r1) = take_u8(payload@);
            let (req, r2) = take_u8(r1);
            match config_refusal(*old(state), client_id, payload@) {
                Some(reason) => {
                    &&& step matches ConfigStep::Failed(o)
                        && o@ == out(client_id, uid, PacketType::ServerConfig, config_failure(iid, reason), Delivery::Reply)
                    &&& final(state).instances@ == old(state).instances@
                },
                None => {
                    let inst = old(state).instances@[iid];
                    let pid = inst.client_player(client_id).id;
                    if req == 0 {
                        &&& step == ConfigStep::Echo(iid, pid)
                        &&& final(state).instances@ == old(state).instances@
                    } else {
                        &&& step == ConfigStep::Changed(iid, pid, req & SC_SETTABLE)
                        &&& final(state).instances@.dom() == old(state).instances@.dom()
                        &&& forall|k: u8| k != iid && #[trigger] old(state).instances@.contains_key(k)
                            ==> final(state).instances@[k] == old(state).instances@[k]
                        &&& config_applied(inst, final(state).instances@[iid], parse_config(req, r2))
                    }
                },
            }
        }),
{
    let mut r = PacketReader::new(payload);
    let iid = r.read_u8();
    let mut inst = match state.instances.remove(iid) {
        Some(i) => i,
        None => return ConfigStep::Failed(failure(client_id, uid, iid, "Instance not found.")),
    };
    let idx = match inst.find_client(client_id) {
        Some(i) => i,
        None => {
            state.instances.add(inst);
            proof { lemma_put_back(old(state).instances@, iid); }
            return ConfigStep::Failed(failure(client_id, uid, iid, "You are not in this instance."));
        },
    };
    proof {
        assert(inst.players()[idx as int] == inst.client_player(client_id));
    }
    let pid = inst.players[idx].id;
    if !inst.players[idx].has_high_privilege() {
        state.instances.add(inst);
        proof { lemma_put_back(old(state).instances@, iid); }
        return ConfigStep::Failed(failure(client_id, uid, iid, "Permission denied."));
    }
    let req = r.read_u8();
    if req == 0 {
        state.instances.add(inst);
        proof { lemma_put_back(old(state).instances@, iid); }
        return ConfigStep::Echo(iid, pid);
    }
    if req & SC_SETTABLE == 0 {
        state.instances.add(inst);
        proof { lemma_put_back(old(state).instances@, iid); }
        return ConfigStep::Failed(failure(client_id, uid, iid, "No valid configuration flags."));
    }
    let cr = read_config(&mut r, req);
    apply_config(&mut inst, cr);
    state.instances.add(inst);
    ConfigStep::Changed(iid, pid, req & SC_SETTABLE)
}

/// The settings `flags` pushed (uid 0) to each player of `ps` whose client is
/// connected and is not `exclude`, each with its own TPS and threshold.
pub open spec fn config_pushes(
    ps: Seq<Player>,
    inst: Instance,
    clients: Map<u16, Client>,
    iid: u8,
    exclude: Option<u16>,
    flags: u8,
    lb: LoadBalancingConfig,
    adaptive_tps: u8,
) -> Seq<OutView>
    decreases ps.len(),
{
    if ps.len() == 0 {
        Seq::empty()
    } else {
        let r = config_pushes(ps.drop_last(), inst, clients, iid, exclude, flags, lb, adaptive_tps);
        let p = ps.last();
        if exclude != Some(p.client_id) && clients.contains_key(p.client_id) {
            r.push(out(p.client_id, 0, PacketType::ServerConfig, config_payload(inst, iid, flags, p.id, lb, adaptive_tps), Delivery::Push))
        } else {
            r
        }
    }
}

fn push_configs(
    clients: &ClientManager,
    inst: &Instance,
    iid: u8,
    exclude: Option<u16>,
    flags: u8,
    lb: &LoadBalancingConfig,
    adaptive_tps: u8,
    outs: &mut Vec<Outgoing>,
)
    requires
        inst.wf(),
    ensures
        outs_view(final(outs)@) == outs_view(old(outs)@) + config_pushes(
            inst.players(),
            *inst,
            clients@,
            iid,
            exclude,
            flags,
            *lb,
            adaptive_tps,
        ),
{
    let ghost start = outs_view(outs@);
    let ps = inst.get_players();
    let mut i: usize = 0;
    while i < ps.len()
        invariant
            inst.wf(),
            ps@ == inst.players(),
            i <= ps@.len(),
            outs_view(outs@) == start + config_pushes(ps@.take(i as int), *inst, clients@, iid, exclude, flags, *lb, adaptive_tps),
        decreases ps@.len() - i,
    {
        proof {
            assert(ps@.take(i + 1).drop_last() =~= ps@.take(i as int));
        }
        let cid = ps[i].client_id;
        let skip = match exclude {
            Some(x) => x == cid,
            None => false,
        };
        if !skip && clients.contains(cid) {
            let ghost before = outs@;
            let bytes = build_config_response(inst, iid, flags, ps[i].id, lb, adaptive_tps);
            outs.push(Outgoing::new(cid, 0, PacketType::ServerConfig, bytes, Delivery::Push));
            proof {
                assert(outs_view(outs@) =~= outs_view(before).push(
                    out(cid, 0, PacketType::ServerConfig, config_payload(*inst, iid, flags, ps@[i as int].id, *lb, adaptive_tps), Delivery::Push),
                ));
            }
        }
        i = i + 1;
    }
    assert(ps@.take(ps@.len() as int) =~= ps@);
}

/// The reply to an Echo request: every setting of instance `iid` for the
/// caller's player `pid` (nothing when the instance is gone).
pub fn echo_response(state: &mut AppState, client_id: u16, uid: u16, iid: u8, pid: u16, adaptive_tps: u8) -> (o: Option<Outgoing>)
    requires
        old(state).wf(),
    ensures
        final(state).wf(),
        final(state).clients@ == old(state).clients@,
        final(state).instances@ == old(state).instances@,
        final(state).config == old(state).config,
        match o {
            Some(x) => old(state).instances@.contains_key(iid) && x@ == out(
                client_id,
                uid,
                PacketType::ServerConfig,
                config_payload(old(state).instances@[iid], iid, SC_ALL, pid, old(state).config.load_balancing, adaptive_tps),
                Delivery::Reply,
            ),
            None => !old(state).instances@.contains_key(iid),
        },
{
    let inst = match state.instances.remove(iid) {
        Some(i) => i,
        None => return None,
    };
    let bytes = build_config_response(&inst, iid, SC_ALL, pid, &state.config.load_balancing, adaptive_tps);
    state.instances.add(inst);
    proof { lemma_put_back(old(state).instances@, iid); }
    Some(Outgoing::new(client_id, uid, PacketType::ServerConfig, bytes, Delivery::Reply))
}

/// The answers to a change: the changed settings pushed to every other
/// player of instance `iid`, then the reply to the caller's player `pid`.
pub fn change_responses(
    state: &mut AppState,
    client_id: u16,
    uid: u16,
    iid: u8,
    pid: u16,
    flags: u8,
    adaptive_tps: u8,
) -> (outs: Vec<Outgoing>)
    requires
        old(state).wf(),
    ensures
        final(state).wf(),
        final(state).clients@ == old(state).clients@,
        final(state).instances@ == old(state).instances@,
        final(state).config == old(state).config,
        outs_view(outs@) == if old(state).instances@.contains_key(iid) {
            let inst = old(state).instances@[iid];
            let lb = old(state).config.load_balancing;
            config_pushes(inst.players(), inst, old(state).clients@, iid, Some(client_id), flags, lb, adaptive_tps).push(
                out(client_id, uid, PacketType::ServerConfig, config_payload(inst, iid, flags, pid, lb, adaptive_tps), Delivery::Reply),
            )
        } else {
            Seq::<OutView>::empty()
        },
{
    let mut outs: Vec<Outgoing> = Vec::new();
    assert(outs_view(outs@) =~= Seq::<OutView>::empty());
    let inst = match state.instances.remove(iid) {
        Some(i) => i,
        None => return outs,
    };
    push_configs(&state.clients, &inst, iid, Some(client_id), flags, &state.config.load_balancing, adaptive_tps, &mut outs);
    let ghost pushed = outs_view(outs@);
    let bytes = build_config_response(&inst, iid, flags, pid, &state.config.load_balancing, adaptive_tps);
    outs.push(Outgoing::new(client_id, uid, PacketType::ServerConfig, bytes, Delivery::Reply));
    assert(outs_view(outs@) =~= pushed.push(
        out(client_id, uid, PacketType::ServerConfig, config_payload(inst, iid, flags, pid, state.config.load_balancing, adaptive_tps), Delivery::Reply),
    ));
    state.instances.add(inst);
    proof { lemma_put_back(old(state).instances@, iid); }
    outs
}

/// Pushes the settings `flags` to every player of instance `iid`, as when
/// load balancing changed them.
pub fn broadcast_config_change(state: &mut AppState, iid: u8, flags: u8, adaptive_tps: u8) -> (outs: Vec<Outgoing>)
    requires
        old(state).wf(),
    ensures
        final(state).wf(),
        final(state).clients@ == old(state).clients@,
        final(state).instances@ == old(state).instances@,
        final(state).config == old(state).config,
        outs_view(outs@) == if old(state).instances@.contains_key(iid) {
            let inst = old(state).instances@[iid];
            config_pushes(inst.players(), inst, old(state).clients@, iid, None, flags, old(state).config.load_balancing, adaptive_tps)
        } else {
            Seq::<OutView>::empty()
        },
{
    let mut outs: Vec<Outgoing> = Vec::new();
    assert(outs_view(outs@) =~= Seq::<OutView>::empty());
    let inst = match state.instances.remove(iid) {
        Some(i) => i,
        None => return outs,
    };
    push_configs(&state.clients, &inst, iid, None, flags, &state.config.load_balancing, adaptive_tps, &mut outs);
    assert(outs_view(outs@) =~= Seq::<OutView>::empty() + config_pushes(inst.players(), inst, state.clients@, iid, None, flags, state.config.load_balancing, adaptive_tps));
    state.instances.add(inst);
    proof { lemma_put_back(old(state).instances@, iid); }
    outs
}

/// Whether load balancing is on for `inst`: its own override when it has
/// one, else the global switch.
pub open spec fn balancing_on(inst: Instance, lb: LoadBalancingConfig) -> bool {
    inst.load_balancing_enabled == Some(true) || (inst.load_balancing_enabled is None && lb.enabled)
}

/// A Change that reports the load-balancing switch ends with it: 1 exactly
/// when the instance's override is on, or it has none and the global switch
/// is on; 0 otherwise.
pub proof fn lemma_change_reports_instance_balancing(
    inst: Instance,
    iid: u8,
    flags: u8,
    pid: u16,
    lb: LoadBalancingConfig,
    adaptive_tps: u8,
)
    requires
        flags & SC_LOAD_BALANCING != 0,
    ensures
        config_payload(inst, iid, flags, pid, lb, adaptive_tps).len() > 0,
        config_payload(inst, iid, flags, pid, lb, adaptive_tps).last() == (if balancing_on(inst, lb) { 1u8 } else { 0u8 }),
{
    let p = config_payload(inst, iid, flags, pid, lb, adaptive_tps);
    let tail = when_set(flags, SC_LOAD_BALANCING, seq![bool_byte(inst.spec_lb_enabled(lb))]);
    assert(tail == seq![bool_byte(inst.spec_lb_enabled(lb))]);
    assert(p.last() == tail.last());
}

/// After a request that sets the load-balancing switch, the settings the
/// instance reports carry the value just set, whatever the global switch.
pub proof fn lemma_change_reports_set_balancing(
    before: Instance,
    after: Instance,
    f: ConfigFields,
    iid: u8,
    flags: u8,
    pid: u16,
    lb: LoadBalancingConfig,
    adaptive_tps: u8,
    on: bool,
)
    requires
        config_applied(before, after, f),
        f.load_balancing == Some(on),
        flags & SC_LOAD_BALANCING != 0,
    ensures
        config_payload(after, iid, flags, pid, lb, adaptive_tps).last() == (if on { 1u8 } else { 0u8 }),
{
    lemma_change_reports_instance_balancing(after, iid, flags, pid, lb, adaptive_tps);
}

} // verus!
