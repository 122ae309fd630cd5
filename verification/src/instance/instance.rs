//! A relay-hosted instance: a room that players enter.
use vstd::prelude::*;

use super::flags::{ALLOW_OVERLOAD, NONE, USE_PASSWORD};
use crate::hashing::{argon2_accepts, fits_argon2};
use crate::avatar::Avatar;
use crate::config::LoadBalancingConfig;
use crate::player::player_transform::PlayerTransforms;
use crate::player::rig::Transform;
use crate::player::PlayerStatus;
use super::user_moderated::UserModerated;
use super::view_group::{is_auto_id, GroupView, ViewGroup};
use super::world::World;
use crate::constants::{DEFAULT_RENDER_ENTITY_BITS, DEFAULT_THRESHOLD_BITS, DEFAULT_TPS};
use crate::player::player::f32_bits_nonzero;
use crate::player::player_flags::INSTANCE_MASTER;
use crate::player::Player;
use crate::text::decimal;

verus! {

/// First custom view-group id: one past every auto-group id.
pub const FIRST_CUSTOM_GROUP_ID: u32 = 0x1_0000;

/// A relay-hosted instance (a "room" players can enter).
///
/// `f32` settings are held as their IEEE-754 bit patterns.
#[derive(Debug)]
pub struct Instance {
    /// Relay-internal unique ID (0–254; 255 = invalid/unassigned).
    pub internal_id: u8,
    /// Master-server assigned instance ID.
    pub master_id: u32,
    /// Feature flags (see `instance::flags`).
    pub flags: u32,
    /// Maximum player count (0 = unlimited).
    pub capacity: u16,
    /// Target ticks-per-second for this instance.
    pub tps: u8,
    /// Transform equality threshold (bits of an `f32`).
    pub threshold: u32,
    /// Maximum entity render distance (bits of an `f32`).
    pub render_entity: u32,
    /// The virtual world this instance belongs to.
    pub world: World,
    /// Duration of the last tick in milliseconds (bits of an `f32`).
    pub last_tick_duration: u32,
    /// Load balancing enabled override (`None` = use the global config).
    pub load_balancing_enabled: Option<bool>,
    /// Interval (seconds) at which clients re-send unchanged properties.
    pub property_resend_interval: u8,
    /// Argon2 password hash (set together with the `USE_PASSWORD` flag).
    pub password_hash: Option<String>,
    /// Players currently in this instance, oldest first.
    pub players: Vec<Player>,
    /// View-visibility groups.
    pub view_groups: Vec<ViewGroup>,
    /// Moderation records.
    pub moderated: Vec<UserModerated>,
    /// Next custom view-group id.
    pub next_view_group_id: u32,
    /// Effective TPS computed by load balancing (`None` = not yet computed).
    pub effective_tps: Option<u8>,
    /// Effective threshold computed by load balancing (bits of an `f32`).
    pub effective_threshold: Option<u32>,
    /// Hearing permissions `(listener, speaker, channel)`.
    pub hearing: Vec<(u16, u16, u32)>,
}

// ── Spec helpers over player sequences ─────────────────────────────────────

/// Whether a player with id `pid` is in `ps`.
pub open spec fn seq_has_player(ps: Seq<Player>, pid: u16) -> bool {
    exists|i: int| 0 <= i < ps.len() && #[trigger] ps[i].id == pid
}

/// Whether no two players of `ps` share an id.
pub open spec fn unique_player_ids(ps: Seq<Player>) -> bool {
    forall|i: int, j: int| 0 <= i < ps.len() && 0 <= j < ps.len() && i != j ==> #[trigger] ps[i].id != #[trigger] ps[j].id
}

/// The position of the player with id `pid` in `ps` (when there is one).
pub open spec fn seq_player_index(ps: Seq<Player>, pid: u16) -> int {
    choose|i: int| 0 <= i < ps.len() && #[trigger] ps[i].id == pid
}

/// Whether `i` is the first position of a player of client `cid` in `ps`.
pub open spec fn is_first_of_client(ps: Seq<Player>, cid: u16, i: int) -> bool {
    0 <= i < ps.len() && ps[i].client_id == cid && forall|j: int| 0 <= j < i ==> #[trigger] ps[j].client_id != cid
}

/// Whether some player of `ps` belongs to client `cid`.
pub open spec fn seq_has_client(ps: Seq<Player>, cid: u16) -> bool {
    exists|i: int| 0 <= i < ps.len() && #[trigger] ps[i].client_id == cid
}

/// The first position of a player of client `cid` in `ps` (when there is one).
pub open spec fn seq_client_index(ps: Seq<Player>, cid: u16) -> int {
    choose|i: int| is_first_of_client(ps, cid, i)
}

/// Whether the instance has room for one more player.
pub open spec fn spec_is_full(flags: u32, capacity: u16, count: nat) -> bool {
    flags & ALLOW_OVERLOAD == 0 && capacity != 0 && count >= capacity
}

// ── Spec helpers over view groups ───────────────────────────────────────────

/// Whether a group with id `id` is in `gs`.
pub open spec fn seq_has_group(gs: Seq<GroupView>, id: u32) -> bool {
    exists|i: int| 0 <= i < gs.len() && #[trigger] gs[i].id == id
}

/// Whether no two groups of `gs` share an id.
pub open spec fn unique_group_ids(gs: Seq<GroupView>) -> bool {
    forall|i: int, j: int| 0 <= i < gs.len() && 0 <= j < gs.len() && i != j ==> #[trigger] gs[i].id != #[trigger] gs[j].id
}

/// The position of the group with id `id` in `gs` (when there is one).
pub open spec fn seq_group_index(gs: Seq<GroupView>, id: u32) -> int {
    choose|i: int| 0 <= i < gs.len() && #[trigger] gs[i].id == id
}

/// The automatic group of a player: named `"User_{pid}"`, holding the player
/// and seeing itself.
pub open spec fn auto_group(pid: u16) -> GroupView {
    GroupView {
        id: pid as u32,
        name: Some("User_"@ + decimal(pid as nat)),
        members: Set::empty().insert(pid),
        visible_groups: Set::empty().insert(pid as u32),
    }
}

/// `gs` with the automatic group of `pid` appended when no group has its id.
pub open spec fn with_auto_group(gs: Seq<GroupView>, pid: u16) -> Seq<GroupView> {
    if seq_has_group(gs, pid as u32) {
        gs
    } else {
        gs.push(auto_group(pid))
    }
}

/// `g` without the member `pid`.
pub open spec fn group_without_member(g: GroupView, pid: u16) -> GroupView {
    GroupView { members: g.members.remove(pid), ..g }
}

/// `g` no longer seeing the group `id`.
pub open spec fn group_without_visible(g: GroupView, id: u32) -> GroupView {
    GroupView { visible_groups: g.visible_groups.remove(id), ..g }
}

/// Whether position `i` of `gs` holds the automatic group of `pid` and it is empty.
pub open spec fn is_empty_auto_group(gs: Seq<GroupView>, pid: u16, i: int) -> bool {
    0 <= i < gs.len() && gs[i].id == pid as u32 && gs[i].members.is_empty()
}

/// The groups after a player leaves them all: it is no member of any group,
/// and its automatic group goes away once empty.
pub open spec fn groups_after_cleanup(gs: Seq<GroupView>, pid: u16) -> Seq<GroupView> {
    let stripped = gs.map_values(|g: GroupView| group_without_member(g, pid));
    if exists|i: int| is_empty_auto_group(stripped, pid, i) {
        stripped.remove(choose|i: int| is_empty_auto_group(stripped, pid, i))
    } else {
        stripped
    }
}

/// Whether a player in group `vg` sees a player in group `tg` through `gs`.
pub open spec fn sees_via(gs: Seq<GroupView>, viewer: u16, target: u16, a: int, b: int) -> bool {
    0 <= a < gs.len() && 0 <= b < gs.len() && gs[a].members.contains(viewer)
        && gs[b].members.contains(target) && gs[a].visible_groups.contains(gs[b].id)
}

/// Whether `viewer` can see `target`: a player always sees itself; otherwise
/// some group holding the viewer must see some group holding the target.
pub open spec fn spec_can_see(gs: Seq<GroupView>, viewer: u16, target: u16) -> bool {
    viewer == target || exists|a: int, b: int| #[trigger] sees_via(gs, viewer, target, a, b)
}

/// The ids of the groups of `gs` that hold `pid`, in order.
pub open spec fn groups_of(gs: Seq<GroupView>, pid: u16) -> Seq<u32>
    decreases gs.len(),
{
    if gs.len() == 0 {
        Seq::empty()
    } else {
        let r = groups_of(gs.drop_last(), pid);
        if gs.last().members.contains(pid) {
            r.push(gs.last().id)
        } else {
            r
        }
    }
}

/// Whether two instances agree on everything but their players and groups.
pub open spec fn same_settings(a: Instance, b: Instance) -> bool {
    &&& a.internal_id == b.internal_id
    &&& a.master_id == b.master_id
    &&& a.flags == b.flags
    &&& a.capacity == b.capacity
    &&& a.tps == b.tps
    &&& a.threshold == b.threshold
    &&& a.render_entity == b.render_entity
    &&& a.world == b.world
    &&& a.last_tick_duration == b.last_tick_duration
    &&& a.load_balancing_enabled == b.load_balancing_enabled
    &&& a.property_resend_interval == b.property_resend_interval
    &&& a.password_hash == b.password_hash
    &&& a.moderated == b.moderated
    &&& a.next_view_group_id == b.next_view_group_id
    &&& a.effective_tps == b.effective_tps
    &&& a.effective_threshold == b.effective_threshold
    &&& a.hearing == b.hearing
}

impl Instance {
    // ── Views ──────────────────────────────────────────────────────────────

    /// The players, oldest first.
    pub open spec fn players(&self) -> Seq<Player> {
        self.players@
    }

    /// The view groups.
    pub open spec fn groups(&self) -> Seq<GroupView> {
        self.view_groups@.map_values(|g: ViewGroup| g@)
    }

    /// The custom group id the next `create_custom_group` hands out.
    pub open spec fn next_group_id(&self) -> u32 {
        self.next_view_group_id
    }

    /// The stored password hash.
    pub open spec fn password_hash(&self) -> Option<Seq<char>> {
        match self.password_hash {
            Some(h) => Some(h@),
            None => None,
        }
    }

    /// Effective TPS computed by load balancing.
    pub open spec fn spec_effective_tps(&self) -> Option<u8> {
        self.effective_tps
    }

    /// Effective threshold computed by load balancing.
    pub open spec fn spec_effective_threshold(&self) -> Option<u32> {
        self.effective_threshold
    }

    /// The hearing permissions `(listener, speaker, channel)`.
    pub open spec fn hearing(&self) -> Set<(u16, u16, u32)> {
        self.hearing@.to_set()
    }

    /// The moderation records.
    pub open spec fn moderated(&self) -> Seq<UserModerated> {
        self.moderated@
    }

    /// The instance's internal invariant.
    pub open spec fn wf(&self) -> bool {
        &&& unique_player_ids(self.players@)
        &&& unique_group_ids(self.groups())
        &&& self.next_view_group_id >= FIRST_CUSTOM_GROUP_ID
        &&& forall|i: int|
            0 <= i < self.view_groups@.len() ==> #[trigger] self.view_groups@[i].id
                < self.next_view_group_id || is_auto_id(self.view_groups@[i].id)
        &&& self.hearing@.no_duplicates()
    }

    pub open spec fn has_player(&self, pid: u16) -> bool {
        seq_has_player(self.players(), pid)
    }

    pub open spec fn player(&self, pid: u16) -> Player {
        self.players()[seq_player_index(self.players(), pid)]
    }

    pub open spec fn has_client(&self, cid: u16) -> bool {
        seq_has_client(self.players(), cid)
    }

    pub open spec fn client_player(&self, cid: u16) -> Player {
        self.players()[seq_client_index(self.players(), cid)]
    }

    pub open spec fn has_group(&self, id: u32) -> bool {
        seq_has_group(self.groups(), id)
    }

    pub open spec fn group(&self, id: u32) -> GroupView {
        self.groups()[seq_group_index(self.groups(), id)]
    }

    pub open spec fn spec_has_password(&self) -> bool {
        self.flags & USE_PASSWORD != 0
    }

    /// An empty instance with default settings and the default world.
    pub fn new(internal_id: u8, master_id: u32) -> (inst: Self)
        ensures
            inst.wf(),
            inst.internal_id == internal_id,
            inst.master_id == master_id,
            inst.flags == NONE,
            inst.capacity == 0,
            inst.tps == DEFAULT_TPS,
            inst.threshold == DEFAULT_THRESHOLD_BITS,
            inst.render_entity == DEFAULT_RENDER_ENTITY_BITS,
            inst.world.master_id == 0,
            inst.world.address@ == crate::constants::SAFE_LOCAL_ADDRESS@,
            inst.world.version == u16::MAX,
            inst.last_tick_duration == 0,
            inst.load_balancing_enabled is None,
            inst.property_resend_interval == 0,
            inst.password_hash() is None,
            inst.players() == Seq::<Player>::empty(),
            inst.groups() == Seq::<GroupView>::empty(),
            inst.moderated() == Seq::<UserModerated>::empty(),
            inst.next_group_id() == FIRST_CUSTOM_GROUP_ID,
            inst.spec_effective_tps() is None,
            inst.spec_effective_threshold() is None,
            inst.hearing() == Set::<(u16, u16, u32)>::empty(),
    {
        let inst = Instance {
            internal_id,
            master_id,
            flags: NONE,
            capacity: 0,
            tps: DEFAULT_TPS,
            threshold: DEFAULT_THRESHOLD_BITS,
            render_entity: DEFAULT_RENDER_ENTITY_BITS,
            world: World::default(),
            last_tick_duration: 0,
            load_balancing_enabled: None,
            property_resend_interval: 0,
            password_hash: None,
            players: Vec::new(),
            view_groups: Vec::new(),
            moderated: Vec::new(),
            next_view_group_id: FIRST_CUSTOM_GROUP_ID,
            effective_tps: None,
            effective_threshold: None,
            hearing: Vec::new(),
        };
        assert(inst.groups() =~= Seq::<GroupView>::empty());
        assert(inst.hearing() =~= Set::<(u16, u16, u32)>::empty());
        inst
    }

    // ── Players ────────────────────────────────────────────────────────────

    /// The players, oldest first.
    pub fn get_players(&self) -> (ps: &[Player])
        ensures
            ps@ == self.players(),
    {
        self.players.as_slice()
    }

    pub fn player_count(&self) -> (n: usize)
        ensures
            n == self.players().len(),
    {
        self.players.len()
    }

    /// The player with id `player_id`.
    pub fn get_player(&self, player_id: u16) -> (p: Option<&Player>)
        requires
            self.wf(),
        ensures
            match p {
                Some(q) => self.has_player(player_id) && *q == self.player(player_id),
                None => !self.has_player(player_id),
            },
    {
        match self.find_player(player_id) {
            Some(i) => Some(&self.players[i]),
            None => None,
        }
    }

    /// The position of the player with id `player_id`.
    pub fn find_player(&self, player_id: u16) -> (r: Option<usize>)
        requires
            self.wf(),
        ensures
            match r {
                Some(i) => self.has_player(player_id) && i == seq_player_index(self.players(), player_id)
                    && self.players()[i as int].id == player_id,
                None => !self.has_player(player_id),
            },
    {
        let mut i: usize = 0;
        while i < self.players.len()
            invariant
                self.wf(),
                i <= self.players@.len(),
                forall|j: int| 0 <= j < i ==> #[trigger] self.players@[j].id != player_id,
            decreases self.players@.len() - i,
        {
            if self.players[i].id == player_id {
                proof {
                    let k = seq_player_index(self.players(), player_id);
                    assert(self.players()[i as int].id == player_id);
                    assert(unique_player_ids(self.players@));
                    assert(self.players()[k].id == player_id);
                }
                return Some(i);
            }
            i = i + 1;
        }
        None
    }

    /// The first position of a player of client `client_id`.
    pub fn find_client(&self, client_id: u16) -> (r: Option<usize>)
        ensures
            match r {
                Some(i) => self.has_client(client_id) && i == seq_client_index(self.players(), client_id)
                    && is_first_of_client(self.players(), client_id, i as int),
                None => !self.has_client(client_id),
            },
    {
        let mut i: usize = 0;
        while i < self.players.len()
            invariant
                i <= self.players@.len(),
                forall|j: int| 0 <= j < i ==> #[trigger] self.players@[j].client_id != client_id,
            decreases self.players@.len() - i,
        {
            if self.players[i].client_id == client_id {
                proof {
                    assert(is_first_of_client(self.players(), client_id, i as int));
                    let k = seq_client_index(self.players(), client_id);
                    assert(is_first_of_client(self.players(), client_id, k));
                    if k < i {
                        assert(self.players@[k].client_id != client_id);
                    }
                    if i < k {
                        assert(self.players@[i as int].client_id != client_id);
                    }
                }
                return Some(i);
            }
            i = i + 1;
        }
        None
    }

    /// The first player holding the instance-master role.
    pub fn get_master(&self) -> (p: Option<&Player>)
        ensures
            match p {
                Some(q) => exists|i: int|
                    0 <= i < self.players().len() && self.players()[i] == *q && q.spec_is_master()
                        && forall|j: int| 0 <= j < i ==> !(#[trigger] self.players()[j]).spec_is_master(),
                None => forall|i: int| 0 <= i < self.players().len() ==> !(#[trigger] self.players()[i]).spec_is_master(),
            },
    {
        let mut i: usize = 0;
        while i < self.players.len()
            invariant
                i <= self.players@.len(),
                forall|j: int| 0 <= j < i ==> !(#[trigger] self.players@[j]).spec_is_master(),
            decreases self.players@.len() - i,
        {
            if self.players[i].is_master() {
                assert(0 <= i < self.players().len() && self.players()[i as int] == self.players@[i as int]
                    && self.players@[i as int].spec_is_master()
                    && forall|j: int| 0 <= j < i ==> !(#[trigger] self.players()[j]).spec_is_master());
                return Some(&self.players[i]);
            }
            i = i + 1;
        }
        None
    }

    /// Whether the instance refuses one more player: never with
    /// `ALLOW_OVERLOAD`; otherwise when a capacity is set and reached.
    pub fn is_full(&self) -> (b: bool)
        ensures
            b == spec_is_full(self.flags, self.capacity, self.players().len()),
    {
        if self.flags & ALLOW_OVERLOAD != 0 {
            return false;
        }
        self.capacity != 0 && self.players.len() >= self.capacity as usize
    }

    /// The lowest player id not in use (`u16::MAX` when every lower id is taken).
    pub fn next_player_id(&self) -> (id: u16)
        ensures
            id < u16::MAX ==> !self.has_player(id),
            forall|k: u16| k < id ==> self.has_player(k),
    {
        let mut id: u16 = 0;
        while id < u16::MAX
            invariant
                forall|k: u16| k < id ==> seq_has_player(self.players@, k),
            decreases u16::MAX - id,
        {
            if !self.contains_player_id(id) {
                return id;
            }
            id = id + 1;
        }
        id
    }

    fn contains_player_id(&self, id: u16) -> (b: bool)
        ensures
            b == seq_has_player(self.players@, id),
    {
        let mut i: usize = 0;
        while i < self.players.len()
            invariant
                i <= self.players@.len(),
                forall|j: int| 0 <= j < i ==> #[trigger] self.players@[j].id != id,
            decreases self.players@.len() - i,
        {
            if self.players[i].id == id {
                return true;
            }
            i = i + 1;
        }
        false
    }
}


impl Instance {
    /// Removes `pid` from the members of every group.
    fn strip_member_everywhere(&mut self, pid: u16)
        ensures
            final(self).groups() == old(self).groups().map_values(|g: GroupView| group_without_member(g, pid)),
            final(self).players() == old(self).players(),
            same_settings(*final(self), *old(self)),
    {
        let ghost old_groups = self.groups();
        let mut i: usize = 0;
        while i < self.view_groups.len()
            invariant
                i <= self.view_groups@.len() == old_groups.len(),
                self.players() == old(self).players(),
                same_settings(*self, *old(self)),
                forall|j: int| 0 <= j < i ==> #[trigger] self.groups()[j] == group_without_member(old_groups[j], pid),
                forall|j: int| i <= j < old_groups.len() ==> #[trigger] self.groups()[j] == old_groups[j],
            decreases old_groups.len() - i,
        {
            let ghost before = self.view_groups@;
            let ghost before_groups = self.groups();
            self.view_groups[i].remove_member(pid);
            proof {
                assert(self.view_groups@.len() == before.len());
                assert forall|j: int| 0 <= j < old_groups.len() implies #[trigger] self.groups()[j] == (if j == i {
                    group_without_member(before_groups[j], pid)
                } else {
                    before_groups[j]
                }) by {
                    assert(self.groups()[j] == self.view_groups@[j]@);
                    assert(before_groups[j] == before[j]@);
                    if j != i {
                        assert(self.view_groups@[j] == before[j]);
                    }
                }
            }
            i = i + 1;
        }
        assert(self.groups() =~= old_groups.map_values(|g: GroupView| group_without_member(g, pid)));
    }
}


impl Instance {
    /// The position of the group with id `id`.
    pub fn find_group(&self, id: u32) -> (r: Option<usize>)
        requires
            self.wf(),
        ensures
            match r {
                Some(i) => self.has_group(id) && i == seq_group_index(self.groups(), id)
                    && self.groups()[i as int].id == id && i < self.groups().len(),
                None => !self.has_group(id),
            },
    {
        let mut i: usize = 0;
        while i < self.view_groups.len()
            invariant
                self.wf(),
                i <= self.view_groups@.len(),
                forall|j: int| 0 <= j < i ==> #[trigger] self.groups()[j].id != id,
            decreases self.view_groups@.len() - i,
        {
            assert(self.groups()[i as int] == self.view_groups@[i as int]@);
            if self.view_groups[i].id == id {
                proof {
                    let k = seq_group_index(self.groups(), id);
                    assert(self.groups()[i as int].id == id);
                    assert(self.groups()[k].id == id);
                }
                return Some(i);
            }
            i = i + 1;
        }
        None
    }

    /// The group with id `group_id`.
    pub fn get_view_group(&self, group_id: u32) -> (g: Option<&ViewGroup>)
        requires
            self.wf(),
        ensures
            match g {
                Some(x) => self.has_group(group_id) && x@ == self.group(group_id),
                None => !self.has_group(group_id),
            },
    {
        match self.find_group(group_id) {
            Some(i) => Some(&self.view_groups[i]),
            None => None,
        }
    }

    /// Makes sure the automatic group of `player_id` exists and returns its position.
    pub fn get_or_create_view_group(&mut self, player_id: u16) -> (idx: usize)
        requires
            old(self).wf(),
        ensures
            final(self).wf(),
            final(self).groups() == with_auto_group(old(self).groups(), player_id),
            final(self).players() == old(self).players(),
            same_settings(*final(self), *old(self)),
            idx < final(self).groups().len(),
            final(self).groups()[idx as int].id == player_id as u32,
    {
        let group_id = player_id as u32;
        match self.find_group(group_id) {
            Some(i) => i,
            None => {
                let mut name = String::new();
                name.append("User_");
                crate::text::push_decimal(&mut name, player_id as u64);
                let mut g = ViewGroup::new(group_id, Some(name));
                g.add_member(player_id);
                g.add_visible_group(group_id);
                let ghost old_groups = self.groups();
                self.view_groups.push(g);
                proof {
                    assert(g@ == auto_group(player_id));
                    assert(self.groups() =~= old_groups.push(auto_group(player_id)));
                    assert forall|a: int, b: int|
                        0 <= a < self.groups().len() && 0 <= b < self.groups().len() && a != b
                        implies #[trigger] self.groups()[a].id != #[trigger] self.groups()[b].id by {
                        if a == old_groups.len() {
                            assert(old_groups[b].id != group_id);
                        } else if b == old_groups.len() {
                            assert(old_groups[a].id != group_id);
                        }
                    }
                    assert forall|j: int| 0 <= j < self.view_groups@.len() implies #[trigger] self.view_groups@[j].id
                        < self.next_view_group_id || is_auto_id(self.view_groups@[j].id) by {
                        if j < old_groups.len() {
                            assert(self.view_groups@[j] == old(self).view_groups@[j]);
                        }
                    }
                }
                self.view_groups.len() - 1
            },
        }
    }

    /// Adds a player (whose id is not in use) and its automatic group.
    pub fn add_player(&mut self, player: Player)
        requires
            old(self).wf(),
            !old(self).has_player(player.id),
        ensures
            final(self).wf(),
            final(self).players() == old(self).players().push(player),
            final(self).groups() == with_auto_group(old(self).groups(), player.id),
            same_settings(*final(self), *old(self)),
    {
        let pid = player.id;
        self.get_or_create_view_group(pid);
        let ghost before = self.players@;
        self.players.push(player);
        proof {
            assert forall|a: int, b: int|
                0 <= a < self.players@.len() && 0 <= b < self.players@.len() && a != b
                implies #[trigger] self.players@[a].id != #[trigger] self.players@[b].id by {
                if a == before.len() {
                    assert(before[b].id != pid);
                } else if b == before.len() {
                    assert(before[a].id != pid);
                }
            }
        }
    }

    /// Whether another custom group can still be numbered.
    pub open spec fn can_create_custom_group(&self) -> bool {
        self.next_view_group_id < u32::MAX
    }

    /// Creates an empty custom group and returns its id.
    pub fn create_custom_group(&mut self, name: Option<String>) -> (id: u32)
        requires
            old(self).wf(),
            old(self).can_create_custom_group(),
        ensures
            final(self).wf(),
            id == old(self).next_view_group_id,
            final(self).next_view_group_id == old(self).next_view_group_id + 1,
            final(self).groups() == old(self).groups().push(GroupView {
                id,
                name: crate::instance::view_group::opt_chars(name),
                members: Set::empty(),
                visible_groups: Set::empty(),
            }),
            final(self).players() == old(self).players(),
    {
        let id = self.next_view_group_id;
        self.next_view_group_id = self.next_view_group_id + 1;
        let g = ViewGroup::new(id, name);
        let ghost old_groups = self.groups();
        self.view_groups.push(g);
        proof {
            assert(self.groups() =~= old_groups.push(g@));
            assert forall|a: int, b: int|
                0 <= a < self.groups().len() && 0 <= b < self.groups().len() && a != b
                implies #[trigger] self.groups()[a].id != #[trigger] self.groups()[b].id by {
                if a == old_groups.len() {
                    assert(old(self).view_groups@[b] == self.view_groups@[b]);
                } else if b == old_groups.len() {
                    assert(old(self).view_groups@[a] == self.view_groups@[a]);
                }
            }
            assert forall|j: int| 0 <= j < self.view_groups@.len() implies #[trigger] self.view_groups@[j].id
                < self.next_view_group_id || is_auto_id(self.view_groups@[j].id) by {
                if j < old_groups.len() {
                    assert(self.view_groups@[j] == old(self).view_groups@[j]);
                }
            }
        }
        id
    }

    /// Stops every group seeing `gid`.
    fn strip_visible_everywhere(&mut self, gid: u32)
        ensures
            final(self).groups() == old(self).groups().map_values(|g: GroupView| group_without_visible(g, gid)),
            final(self).view_groups@.len() == old(self).view_groups@.len(),
            forall|j: int| 0 <= j < old(self).view_groups@.len() ==> #[trigger] final(self).view_groups@[j].id == old(self).view_groups@[j].id,
            final(self).players() == old(self).players(),
            same_settings(*final(self), *old(self)),
    {
        let ghost old_groups = self.groups();
        let mut i: usize = 0;
        while i < self.view_groups.len()
            invariant
                i <= self.view_groups@.len() == old_groups.len() == old(self).view_groups@.len(),
                self.players() == old(self).players(),
                same_settings(*self, *old(self)),
                forall|j: int| 0 <= j < old(self).view_groups@.len() ==> #[trigger] self.view_groups@[j].id == old(self).view_groups@[j].id,
                forall|j: int| 0 <= j < i ==> #[trigger] self.groups()[j] == group_without_visible(old_groups[j], gid),
                forall|j: int| i <= j < old_groups.len() ==> #[trigger] self.groups()[j] == old_groups[j],
            decreases old_groups.len() - i,
        {
            let ghost before = self.view_groups@;
            let ghost before_groups = self.groups();
            self.view_groups[i].remove_visible_group(gid);
            proof {
                assert(self.view_groups@.len() == before.len());
                assert forall|j: int| 0 <= j < old_groups.len() implies #[trigger] self.groups()[j] == (if j == i {
                    group_without_visible(before_groups[j], gid)
                } else {
                    before_groups[j]
                }) by {
                    assert(self.groups()[j] == self.view_groups@[j]@);
                    assert(before_groups[j] == before[j]@);
                    if j != i {
                        assert(self.view_groups@[j] == before[j]);
                    }
                }
                assert forall|j: int| 0 <= j < old(self).view_groups@.len() implies #[trigger] self.view_groups@[j].id == old(self).view_groups@[j].id by {
                    assert(self.groups()[j] == self.view_groups@[j]@);
                    assert(before_groups[j] == before[j]@);
                    if j != i {
                        assert(self.view_groups@[j] == before[j]);
                    }
                }
            }
            i = i + 1;
        }
        assert(self.groups() =~= old_groups.map_values(|g: GroupView| group_without_visible(g, gid)));
    }

    /// Removes a custom group and stops every other group seeing it. Auto-groups
    /// are never removed. `true` when a group was removed.
    pub fn remove_view_group(&mut self, group_id: u32) -> (removed: bool)
        requires
            old(self).wf(),
        ensures
            final(self).wf(),
            removed == (!is_auto_id(group_id) && old(self).has_group(group_id)),
            removed ==> final(self).groups() == old(self).groups().remove(
                seq_group_index(old(self).groups(), group_id),
            ).map_values(|g: GroupView| group_without_visible(g, group_id)),
            !removed ==> final(self).groups() == old(self).groups(),
            final(self).players() == old(self).players(),
            same_settings(*final(self), *old(self)),
    {
        if group_id <= 0xFFFF {
            return false;
        }
        match self.find_group(group_id) {
            None => false,
            Some(k) => {
                let ghost g0 = self.groups();
                let ghost vg0 = self.view_groups@;
                self.view_groups.remove(k);
                proof {
                    assert(self.groups() =~= g0.remove(k as int));
                    g0.remove_ensures(k as int);
                    vg0.remove_ensures(k as int);
                }
                let ghost vg1 = self.view_groups@;
                self.strip_visible_everywhere(group_id);
                proof {
                    assert forall|a: int, b: int|
                        0 <= a < self.groups().len() && 0 <= b < self.groups().len() && a != b
                        implies #[trigger] self.groups()[a].id != #[trigger] self.groups()[b].id by {
                        let a0 = if a < k { a } else { a + 1 };
                        let b0 = if b < k { b } else { b + 1 };
                        assert(self.groups()[a] == self.view_groups@[a]@);
                        assert(self.groups()[b] == self.view_groups@[b]@);
                        assert(self.view_groups@[a].id == vg1[a].id);
                        assert(self.view_groups@[b].id == vg1[b].id);
                        assert(vg1[a] == vg0[a0]);
                        assert(vg1[b] == vg0[b0]);
                        assert(g0[a0] == vg0[a0]@);
                        assert(g0[b0] == vg0[b0]@);
                    }
                    assert forall|j: int| 0 <= j < self.view_groups@.len() implies #[trigger] self.view_groups@[j].id
                        < self.next_view_group_id || is_auto_id(self.view_groups@[j].id) by {
                        let j0 = if j < k { j } else { j + 1 };
                        assert(self.view_groups@[j].id == vg1[j].id);
                        assert(vg1[j] == vg0[j0]);
                    }
                }
                true
            },
        }
    }

    /// The ids of the groups that hold `player_id`, in order.
    pub fn get_user_groups(&self, player_id: u16) -> (ids: Vec<u32>)
        ensures
            ids@ == groups_of(self.groups(), player_id),
    {
        let mut ids: Vec<u32> = Vec::new();
        let mut i: usize = 0;
        while i < self.view_groups.len()
            invariant
                i <= self.view_groups@.len(),
                ids@ == groups_of(self.groups().take(i as int), player_id),
            decreases self.view_groups@.len() - i,
        {
            assert(self.groups().take(i + 1).drop_last() =~= self.groups().take(i as int));
            assert(self.groups()[i as int] == self.view_groups@[i as int]@);
            if self.view_groups[i].is_member(player_id) {
                ids.push(self.view_groups[i].id);
            }
            i = i + 1;
        }
        assert(self.groups().take(i as int) =~= self.groups());
        ids
    }

    /// Whether `viewer_id` can see `target_id`: itself always, others when a
    /// group holding the viewer sees a group holding the target.
    pub fn can_user_see_user(&self, viewer_id: u16, target_id: u16) -> (b: bool)
        ensures
            b == spec_can_see(self.groups(), viewer_id, target_id),
    {
        if viewer_id == target_id {
            return true;
        }
        let n = self.view_groups.len();
        let mut a: usize = 0;
        while a < n
            invariant
                n == self.groups().len(),
                a <= n,
                forall|x: int, y: int| 0 <= x < a ==> !#[trigger] sees_via(self.groups(), viewer_id, target_id, x, y),
            decreases n - a,
        {
            assert(self.groups()[a as int] == self.view_groups@[a as int]@);
            if self.view_groups[a].is_member(viewer_id) {
                let mut b: usize = 0;
                while b < n
                    invariant
                        n == self.groups().len(),
                        a < n,
                        b <= n,
                        self.groups()[a as int].members.contains(viewer_id),
                        forall|x: int, y: int| 0 <= x < a ==> !#[trigger] sees_via(self.groups(), viewer_id, target_id, x, y),
                        forall|y: int| 0 <= y < b ==> !#[trigger] sees_via(self.groups(), viewer_id, target_id, a as int, y),
                    decreases n - b,
                {
                    assert(self.groups()[b as int] == self.view_groups@[b as int]@);
                    if self.view_groups[b].is_member(target_id)
                        && self.view_groups[a].can_see_group(self.view_groups[b].id) {
                        assert(sees_via(self.groups(), viewer_id, target_id, a as int, b as int));
                        return true;
                    }
                    b = b + 1;
                }
            }
            a = a + 1;
        }
        false
    }

    /// Takes `player_id` out of every group and drops its automatic group once empty.
    pub fn cleanup_user(&mut self, player_id: u16)
        requires
            old(self).wf(),
        ensures
            final(self).wf(),
            final(self).groups() == groups_after_cleanup(old(self).groups(), player_id),
            final(self).players() == old(self).players(),
            same_settings(*final(self), *old(self)),
    {
        let ghost g0 = self.groups();
        let ghost vg0 = self.view_groups@;
        self.strip_member_everywhere(player_id);
        let ghost stripped = self.groups();
        let ghost vg1 = self.view_groups@;
        proof {
            assert(stripped.len() == g0.len());
            assert(stripped.len() == vg1.len());
            assert(g0.len() == vg0.len());
            assert forall|j: int| 0 <= j < vg1.len() implies #[trigger] vg1[j].id == vg0[j].id by {
                assert(stripped[j] == vg1[j]@);
                assert(stripped[j] == group_without_member(g0[j], player_id));
                assert(g0[j] == vg0[j]@);
            }
        }
        let found = self.find_empty_auto_group(player_id);
        match found {
            Some(k) => {
                proof {
                    let c = choose|j: int| is_empty_auto_group(stripped, player_id, j);
                    assert(is_empty_auto_group(stripped, player_id, c));
                    if c != k {
                        assert(stripped[c] == vg1[c]@);
                        assert(stripped[k as int] == vg1[k as int]@);
                        assert(g0[c] == vg0[c]@);
                        assert(g0[k as int] == vg0[k as int]@);
                        assert(g0[c].id == g0[k as int].id);
                    }
                }
                self.view_groups.remove(k);
                proof {
                    assert(self.groups() =~= stripped.remove(k as int));
                    vg1.remove_ensures(k as int);
                    assert forall|a: int, b: int|
                        0 <= a < self.groups().len() && 0 <= b < self.groups().len() && a != b
                        implies #[trigger] self.groups()[a].id != #[trigger] self.groups()[b].id by {
                        let a0 = if a < k { a } else { a + 1 };
                        let b0 = if b < k { b } else { b + 1 };
                        assert(self.view_groups@[a] == vg1[a0]);
                        assert(self.view_groups@[b] == vg1[b0]);
                        assert(g0[a0] == vg0[a0]@);
                        assert(g0[b0] == vg0[b0]@);
                    }
                    assert forall|j: int| 0 <= j < self.view_groups@.len() implies #[trigger] self.view_groups@[j].id
                        < self.next_view_group_id || is_auto_id(self.view_groups@[j].id) by {
                        let j0 = if j < k { j } else { j + 1 };
                        assert(self.view_groups@[j] == vg1[j0]);
                        assert(vg0[j0] == old(self).view_groups@[j0]);
                    }
                }
            },
            None => {
                proof {
                    assert forall|a: int, b: int|
                        0 <= a < self.groups().len() && 0 <= b < self.groups().len() && a != b
                        implies #[trigger] self.groups()[a].id != #[trigger] self.groups()[b].id by {
                        assert(g0[a] == vg0[a]@);
                        assert(g0[b] == vg0[b]@);
                    }
                    assert forall|j: int| 0 <= j < self.view_groups@.len() implies #[trigger] self.view_groups@[j].id
                        < self.next_view_group_id || is_auto_id(self.view_groups@[j].id) by {
                        assert(vg0[j] == old(self).view_groups@[j]);
                    }
                }
            },
        }
    }

    /// Removes the player with id `player_id` and cleans up its view groups.
    pub fn remove_player(&mut self, player_id: u16) -> (p: Option<Player>)
        requires
            old(self).wf(),
        ensures
            final(self).wf(),
            same_settings(*final(self), *old(self)),
            match p {
                Some(q) => old(self).has_player(player_id) && q == old(self).player(player_id)
                    && final(self).players() == old(self).players().remove(
                        seq_player_index(old(self).players(), player_id),
                    ) && final(self).groups() == groups_after_cleanup(old(self).groups(), player_id),
                None => !old(self).has_player(player_id) && final(self).players() == old(self).players()
                    && final(self).groups() == old(self).groups(),
            },
    {
        match self.find_player(player_id) {
            None => None,
            Some(i) => {
                let ghost ps = self.players@;
                let p = self.players.remove(i);
                proof {
                    ps.remove_ensures(i as int);
                    assert(self.players@ =~= ps.remove(i as int));
                    assert forall|a: int, b: int|
                        0 <= a < self.players@.len() && 0 <= b < self.players@.len() && a != b
                        implies #[trigger] self.players@[a].id != #[trigger] self.players@[b].id by {
                        let a0 = if a < i { a } else { a + 1 };
                        let b0 = if b < i { b } else { b + 1 };
                        assert(self.players@[a] == ps[a0]);
                        assert(self.players@[b] == ps[b0]);
                    }
                }
                self.cleanup_user(player_id);
                Some(p)
            },
        }
    }
}


impl Instance {
    /// The position of the automatic group of `player_id` when it is empty.
    fn find_empty_auto_group(&self, player_id: u16) -> (r: Option<usize>)
        ensures
            match r {
                Some(k) => is_empty_auto_group(self.groups(), player_id, k as int),
                None => forall|j: int| !#[trigger] is_empty_auto_group(self.groups(), player_id, j),
            },
    {
        let auto_id = player_id as u32;
        let mut i: usize = 0;
        while i < self.view_groups.len()
            invariant
                auto_id == player_id as u32,
                i <= self.view_groups@.len(),
                forall|j: int| 0 <= j < i ==> !#[trigger] is_empty_auto_group(self.groups(), player_id, j),
            decreases self.view_groups@.len() - i,
        {
            assert(self.groups()[i as int] == self.view_groups@[i as int]@);
            let is_auto = self.view_groups[i].id == auto_id;
            let empty = self.view_groups[i].has_no_members();
            assert(self.groups()[i as int].id == self.view_groups@[i as int].id);
            assert(empty == self.groups()[i as int].members.is_empty());
            assert(is_auto == (self.groups()[i as int].id == player_id as u32));
            if is_auto && empty {
                return Some(i);
            }
            i = i + 1;
        }
        None
    }
}


/// Whether a password is accepted: anything when none is set; otherwise when
/// Argon2 accepts it against the stored hash.
pub open spec fn spec_password_accepts(hash: Option<Seq<char>>, raw: Seq<char>) -> bool {
    match hash {
        None => true,
        Some(h) => argon2_accepts(raw, h),
    }
}

/// The first moderation record for `(user_id, address)`: position `i`.
pub open spec fn is_first_moderated(ms: Seq<UserModerated>, user_id: u32, address: Seq<char>, i: int) -> bool {
    0 <= i < ms.len() && ms[i].user_id == user_id && ms[i].address@ == address
        && forall|j: int| 0 <= j < i ==> !(#[trigger] ms[j].user_id == user_id && ms[j].address@ == address)
}

/// `p` with another status.
pub open spec fn with_status(p: Player, status: PlayerStatus) -> Player {
    Player { status, ..p }
}

impl Instance {
    // ── Password ───────────────────────────────────────────────────────────

    /// Sets (`Some`) or clears (`None`) the password together with the
    /// `USE_PASSWORD` flag. `false` only when the password is too long to
    /// hash, and then nothing changes.
    pub fn set_password(&mut self, raw: Option<String>) -> (ok: bool)
        requires
            old(self).wf(),
        ensures
            final(self).wf(),
            final(self).players() == old(self).players(),
            final(self).groups() == old(self).groups(),
            match raw {
                None => ok && final(self).password_hash() is None
                    && final(self).flags == old(self).flags & !USE_PASSWORD,
                Some(p) => (fits_argon2(p@) ==> ok) && (ok ==> (final(self).password_hash() is Some
                    && spec_password_accepts(final(self).password_hash(), p@)
                    && final(self).flags == old(self).flags | USE_PASSWORD)),
            },
            !ok ==> *final(self) == *old(self),
            final(self).internal_id == old(self).internal_id,
            final(self).master_id == old(self).master_id,
            final(self).capacity == old(self).capacity,
            final(self).tps == old(self).tps,
            final(self).threshold == old(self).threshold,
            final(self).load_balancing_enabled == old(self).load_balancing_enabled,
            final(self).render_entity == old(self).render_entity,
            final(self).world == old(self).world,
            final(self).last_tick_duration == old(self).last_tick_duration,
            final(self).property_resend_interval == old(self).property_resend_interval,
            final(self).moderated == old(self).moderated,
            final(self).next_view_group_id == old(self).next_view_group_id,
            final(self).effective_tps == old(self).effective_tps,
            final(self).effective_threshold == old(self).effective_threshold,
            final(self).hearing == old(self).hearing,
    {
        match raw {
            None => {
                self.password_hash = None;
                self.flags = self.flags & !USE_PASSWORD;
                true
            },
            Some(p) => match crate::hashing::hash_password(p.as_str()) {
                Some(h) => {
                    self.password_hash = Some(h);
                    self.flags = self.flags | USE_PASSWORD;
                    true
                },
                None => false,
            },
        }
    }

    /// Whether `raw` is accepted as the instance password (always, when none is set).
    pub fn verify_password(&self, raw: &str) -> (ok: bool)
        ensures
            ok == spec_password_accepts(self.password_hash(), raw@),
    {
        match &self.password_hash {
            None => true,
            Some(h) => crate::hashing::verify_password(raw, h.as_str()),
        }
    }

    pub fn has_password(&self) -> (b: bool)
        ensures
            b == self.spec_has_password(),
    {
        self.flags & USE_PASSWORD != 0
    }

    // ── Player updates ─────────────────────────────────────────────────────

    /// Sets the status of the player with id `player_id`; `false` when absent.
    pub fn set_player_status(&mut self, player_id: u16, status: PlayerStatus) -> (found: bool)
        requires
            old(self).wf(),
        ensures
            final(self).wf(),
            found == old(self).has_player(player_id),
            found ==> final(self).players() == old(self).players().update(
                seq_player_index(old(self).players(), player_id),
                with_status(old(self).player(player_id), status),
            ),
            !found ==> final(self).players() == old(self).players(),
            final(self).groups() == old(self).groups(),
            same_settings(*final(self), *old(self)),
    {
        match self.find_player(player_id) {
            Some(i) => {
                self.players[i].status = status;
                proof { self.lemma_unique_after_update(*old(self), i as int); }
                true
            },
            None => false,
        }
    }

    /// Sets the display name of the player with id `player_id`; `false` when absent.
    pub fn set_player_display(&mut self, player_id: u16, display: Option<String>) -> (found: bool)
        requires
            old(self).wf(),
        ensures
            final(self).wf(),
            found == old(self).has_player(player_id),
            found ==> final(self).players() == old(self).players().update(
                seq_player_index(old(self).players(), player_id),
                Player { display, ..old(self).player(player_id) },
            ),
            !found ==> final(self).players() == old(self).players(),
            final(self).groups() == old(self).groups(),
            same_settings(*final(self), *old(self)),
    {
        match self.find_player(player_id) {
            Some(i) => {
                self.players[i].display = display;
                proof { self.lemma_unique_after_update(*old(self), i as int); }
                true
            },
            None => false,
        }
    }

    /// Sets the avatar of the player with id `player_id`; `false` when absent.
    pub fn set_player_avatar(&mut self, player_id: u16, avatar: Avatar) -> (found: bool)
        requires
            old(self).wf(),
        ensures
            final(self).wf(),
            found == old(self).has_player(player_id),
            found ==> final(self).players() == old(self).players().update(
                seq_player_index(old(self).players(), player_id),
                Player { avatar: Some(avatar), ..old(self).player(player_id) },
            ),
            !found ==> final(self).players() == old(self).players(),
            final(self).groups() == old(self).groups(),
            same_settings(*final(self), *old(self)),
    {
        match self.find_player(player_id) {
            Some(i) => {
                self.players[i].avatar = Some(avatar);
                proof { self.lemma_unique_after_update(*old(self), i as int); }
                true
            },
            None => false,
        }
    }

    /// Stores a rig-part transform for the player with id `player_id`
    /// (see `PlayerTransforms::set`); `false` when absent.
    pub fn set_player_transform(
        &mut self,
        player_id: u16,
        rig_id: u16,
        flags: u8,
        transform: Transform,
        reset: bool,
    ) -> (found: bool)
        requires
            old(self).wf(),
        ensures
            final(self).wf(),
            found == old(self).has_player(player_id),
            found ==> {
                let i = seq_player_index(old(self).players(), player_id);
                let p = old(self).player(player_id);
                &&& final(self).players().len() == old(self).players().len()
                &&& forall|j: int| 0 <= j < old(self).players().len() && j != i ==> #[trigger] final(self).players()[j] == old(self).players()[j]
                &&& final(self).players()[i].transforms@ == p.transforms@.insert(
                    rig_id,
                    PlayerTransforms::updated_entry(p.transforms@, rig_id, flags, transform, reset),
                )
                &&& final(self).players()[i].id == p.id
                &&& final(self).players()[i].client_id == p.client_id
                &&& final(self).players()[i].status == p.status
                &&& final(self).players()[i].flags == p.flags
            },
            !found ==> final(self).players() == old(self).players(),
            final(self).groups() == old(self).groups(),
            same_settings(*final(self), *old(self)),
    {
        match self.find_player(player_id) {
            Some(i) => {
                self.players[i].transforms.set(rig_id, flags, transform, reset);
                proof { self.lemma_unique_after_update(*old(self), i as int); }
                true
            },
            None => false,
        }
    }

    /// Gives the instance-master role to the oldest player when no player holds it.
    /// `true` when a player was promoted.
    pub fn promote_master_if_none(&mut self) -> (promoted: bool)
        requires
            old(self).wf(),
        ensures
            final(self).wf(),
            promoted == (old(self).players().len() > 0
                && forall|i: int| 0 <= i < old(self).players().len() ==> !(#[trigger] old(self).players()[i]).spec_is_master()),
            promoted ==> final(self).players() == old(self).players().update(
                0,
                Player { flags: old(self).players()[0].flags | INSTANCE_MASTER, ..old(self).players()[0] },
            ),
            !promoted ==> final(self).players() == old(self).players(),
            final(self).groups() == old(self).groups(),
            same_settings(*final(self), *old(self)),
    {
        let has_master = match self.get_master() {
            Some(_) => true,
            None => false,
        };
        if has_master || self.players.len() == 0 {
            return false;
        }
        let f = self.players[0].flags;
        self.players[0].flags = f | INSTANCE_MASTER;
        proof { self.lemma_unique_after_update(*old(self), 0); }
        true
    }

    proof fn lemma_unique_after_update(&self, before: Instance, i: int)
        requires
            before.wf(),
            0 <= i < before.players@.len(),
            self.players@.len() == before.players@.len(),
            self.players@[i].id == before.players@[i].id,
            forall|j: int| 0 <= j < before.players@.len() && j != i ==> #[trigger] self.players@[j] == before.players@[j],
            self.view_groups == before.view_groups,
            same_settings(*self, before),
        ensures
            self.wf(),
    {
        assert forall|a: int, b: int|
            0 <= a < self.players@.len() && 0 <= b < self.players@.len() && a != b
            implies #[trigger] self.players@[a].id != #[trigger] self.players@[b].id by {
            assert(before.players@[a].id != before.players@[b].id);
        }
    }

    // ── Moderation ─────────────────────────────────────────────────────────

    /// The first moderation record for `(user_id, address)`.
    pub fn get_moderated(&self, user_id: u32, address: &str) -> (m: Option<&UserModerated>)
        ensures
            match m {
                Some(r) => exists|i: int| is_first_moderated(self.moderated(), user_id, address@, i)
                    && self.moderated()[i] == *r,
                None => forall|i: int| 0 <= i < self.moderated().len() ==> !(#[trigger] self.moderated()[i].user_id == user_id
                    && self.moderated()[i].address@ == address@),
            },
    {
        let mut i: usize = 0;
        while i < self.moderated.len()
            invariant
                i <= self.moderated@.len(),
                forall|j: int| 0 <= j < i ==> !(#[trigger] self.moderated@[j].user_id == user_id
                    && self.moderated@[j].address@ == address@),
            decreases self.moderated@.len() - i,
        {
            if self.moderated[i].user_id == user_id && crate::text::str_eq(self.moderated[i].address.as_str(), address) {
                assert(is_first_moderated(self.moderated(), user_id, address@, i as int));
                return Some(&self.moderated[i]);
            }
            i = i + 1;
        }
        None
    }

    /// Same as `get_moderated`.
    pub fn get_moderated_by_user(&self, user_id: u32, address: &str) -> (m: Option<&UserModerated>)
        ensures
            match m {
                Some(r) => exists|i: int| is_first_moderated(self.moderated(), user_id, address@, i)
                    && self.moderated()[i] == *r,
                None => forall|i: int| 0 <= i < self.moderated().len() ==> !(#[trigger] self.moderated()[i].user_id == user_id
                    && self.moderated()[i].address@ == address@),
            },
    {
        self.get_moderated(user_id, address)
    }

    // ── Load balancing ─────────────────────────────────────────────────────

    /// Whether load balancing applies: the instance's override, else the global switch.
    pub open spec fn spec_lb_enabled(&self, config: LoadBalancingConfig) -> bool {
        match self.load_balancing_enabled {
            Some(b) => b,
            None => config.enabled,
        }
    }

    /// The effective TPS: the stored one once load balancing computed it;
    /// before that the base TPS when load balancing is off, else `adaptive_tps`
    /// (what the load-balancing formula gives for the current load).
    pub open spec fn spec_get_effective_tps(&self, config: LoadBalancingConfig, adaptive_tps: u8) -> u8 {
        match self.effective_tps {
            Some(t) => t,
            None => if !self.spec_lb_enabled(config) {
                self.tps
            } else {
                adaptive_tps
            },
        }
    }

    pub fn get_effective_tps(&self, config: &LoadBalancingConfig, adaptive_tps: u8) -> (t: u8)
        ensures
            t == self.spec_get_effective_tps(*config, adaptive_tps),
    {
        match self.effective_tps {
            Some(t) => t,
            None => {
                let enabled = match self.load_balancing_enabled {
                    Some(b) => b,
                    None => config.enabled,
                };
                if !enabled {
                    self.tps
                } else {
                    adaptive_tps
                }
            },
        }
    }

    /// The effective threshold: the stored one once computed, else the base threshold.
    pub open spec fn spec_get_effective_threshold(&self) -> u32 {
        match self.effective_threshold {
            Some(t) => t,
            None => self.threshold,
        }
    }

    pub fn get_effective_threshold(&self) -> (t: u32)
        ensures
            t == self.spec_get_effective_threshold(),
    {
        match self.effective_threshold {
            Some(t) => t,
            None => self.threshold,
        }
    }

    /// The TPS a player runs at: its override when set, else the effective TPS.
    pub open spec fn spec_get_player_tps(&self, player_id: u16, config: LoadBalancingConfig, adaptive_tps: u8) -> u8 {
        if self.has_player(player_id) && self.player(player_id).custom_tps != 0 {
            self.player(player_id).custom_tps
        } else {
            self.spec_get_effective_tps(config, adaptive_tps)
        }
    }

    pub fn get_player_tps(&self, player_id: u16, config: &LoadBalancingConfig, adaptive_tps: u8) -> (t: u8)
        requires
            self.wf(),
        ensures
            t == self.spec_get_player_tps(player_id, *config, adaptive_tps),
    {
        if let Some(p) = self.get_player(player_id) {
            if p.custom_tps != 0 {
                return p.custom_tps;
            }
        }
        self.get_effective_tps(config, adaptive_tps)
    }

    /// The threshold a player uses: its override when nonzero, else the effective threshold.
    pub open spec fn spec_get_player_threshold(&self, player_id: u16) -> u32 {
        if self.has_player(player_id) && f32_bits_nonzero(self.player(player_id).custom_threshold) {
            self.player(player_id).custom_threshold
        } else {
            self.spec_get_effective_threshold()
        }
    }

    pub fn get_player_threshold(&self, player_id: u16) -> (t: u32)
        requires
            self.wf(),
        ensures
            t == self.spec_get_player_threshold(player_id),
    {
        if let Some(p) = self.get_player(player_id) {
            if crate::player::player::f32_is_nonzero(p.custom_threshold) {
                return p.custom_threshold;
            }
        }
        self.get_effective_threshold()
    }

    /// Sets the base transform threshold (bits of an `f32`).
    pub fn set_threshold(&mut self, threshold: u32)
        ensures
            *final(self) == (Instance { threshold, ..*old(self) }),
    {
        self.threshold = threshold;
    }

    /// Stores the settings load balancing computed.
    pub fn set_effective_settings(&mut self, tps: u8, threshold: u32)
        ensures
            final(self).effective_tps == Some(tps),
            final(self).effective_threshold == Some(threshold),
            final(self).players == old(self).players,
            final(self).view_groups == old(self).view_groups,
            final(self).next_view_group_id == old(self).next_view_group_id,
            final(self).hearing == old(self).hearing,
            final(self).tps == old(self).tps,
            final(self).threshold == old(self).threshold,
            final(self).internal_id == old(self).internal_id,
    {
        self.effective_tps = Some(tps);
        self.effective_threshold = Some(threshold);
    }

    /// With load balancing off, the effective settings are the base ones:
    /// stores them and returns them with whether they changed.
    pub fn reset_adaptive_settings(&mut self) -> (r: (u8, u32, bool))
        ensures
            r.0 == old(self).tps,
            r.1 == old(self).threshold,
            r.2 == (old(self).effective_tps != Some(old(self).tps) || old(self).effective_threshold != Some(old(self).threshold)),
            final(self).effective_tps == Some(old(self).tps),
            final(self).effective_threshold == Some(old(self).threshold),
            final(self).players == old(self).players,
            final(self).view_groups == old(self).view_groups,
            final(self).next_view_group_id == old(self).next_view_group_id,
            final(self).hearing == old(self).hearing,
            final(self).tps == old(self).tps,
            final(self).threshold == old(self).threshold,
            final(self).internal_id == old(self).internal_id,
    {
        let changed = match (self.effective_tps, self.effective_threshold) {
            (Some(t), Some(h)) => t != self.tps || h != self.threshold,
            _ => true,
        };
        let (tps, threshold) = (self.tps, self.threshold);
        self.set_effective_settings(tps, threshold);
        (tps, threshold, changed)
    }

    /// Whether load balancing applies: the instance's override, else the global switch.
    pub fn lb_enabled(&self, config: &LoadBalancingConfig) -> (b: bool)
        ensures
            b == self.spec_lb_enabled(*config),
    {
        match self.load_balancing_enabled {
            Some(b) => b,
            None => config.enabled,
        }
    }

    /// One load-balancing update. With balancing off, the base settings are
    /// stored (as `reset_adaptive_settings`). With it on, `tps` and
    /// `threshold` (what the load formula gives) are stored; they count as a
    /// change when the TPS differs from the stored one or `moved` says the
    /// threshold moved beyond the formula's tolerance.
    pub fn update_adaptive_settings(&mut self, config: &LoadBalancingConfig, tps: u8, threshold: u32, moved: bool) -> (r: (u8, u32, bool))
        ensures
            if old(self).spec_lb_enabled(*config) {
                &&& r == (tps, threshold, old(self).effective_tps != Some(tps) || moved)
                &&& final(self).effective_tps == Some(tps)
                &&& final(self).effective_threshold == Some(threshold)
            } else {
                &&& r.0 == old(self).tps
                &&& r.1 == old(self).threshold
                &&& r.2 == (old(self).effective_tps != Some(old(self).tps) || old(self).effective_threshold != Some(old(self).threshold))
                &&& final(self).effective_tps == Some(old(self).tps)
                &&& final(self).effective_threshold == Some(old(self).threshold)
            },
            final(self).players == old(self).players,
            final(self).view_groups == old(self).view_groups,
            final(self).next_view_group_id == old(self).next_view_group_id,
            final(self).hearing == old(self).hearing,
            final(self).tps == old(self).tps,
            final(self).threshold == old(self).threshold,
            final(self).internal_id == old(self).internal_id,
    {
        if !self.lb_enabled(config) {
            return self.reset_adaptive_settings();
        }
        let changed = match self.effective_tps {
            Some(t) => t != tps || moved,
            None => true,
        };
        self.set_effective_settings(tps, threshold);
        (tps, threshold, changed)
    }

    /// The settings load balancing stored, if any.
    pub fn effective_settings(&self) -> (r: (Option<u8>, Option<u32>))
        ensures
            r == (self.effective_tps, self.effective_threshold),
    {
        (self.effective_tps, self.effective_threshold)
    }

    // ── Hearing ────────────────────────────────────────────────────────────

    /// Whether no hearing permission is recorded (then everyone hears everyone).
    pub fn hearing_is_empty(&self) -> (b: bool)
        ensures
            b == (self.hearing() == Set::<(u16, u16, u32)>::empty()),
    {
        let b = self.hearing.len() == 0;
        proof {
            if !b {
                assert(self.hearing().contains(self.hearing@[0]));
            } else {
                assert(self.hearing() =~= Set::<(u16, u16, u32)>::empty());
            }
        }
        b
    }

    /// Whether `listener` may hear `speaker` on `channel`.
    pub fn hears(&self, listener: u16, speaker: u16, channel: u32) -> (b: bool)
        ensures
            b == self.hearing().contains((listener, speaker, channel)),
    {
        let mut i: usize = 0;
        while i < self.hearing.len()
            invariant
                i <= self.hearing@.len(),
                forall|j: int| 0 <= j < i ==> #[trigger] self.hearing@[j] != (listener, speaker, channel),
            decreases self.hearing@.len() - i,
        {
            let (a, b, c) = self.hearing[i];
            if a == listener && b == speaker && c == channel {
                assert(self.hearing@[i as int] == (listener, speaker, channel));
                return true;
            }
            i = i + 1;
        }
        false
    }

    /// Grants (`can_hear`) or revokes the permission for `listener` to hear `speaker` on `channel`.
    pub fn set_hearing(&mut self, listener: u16, speaker: u16, channel: u32, can_hear: bool)
        requires
            old(self).wf(),
        ensures
            final(self).wf(),
            can_hear ==> final(self).hearing() == old(self).hearing().insert((listener, speaker, channel)),
            !can_hear ==> final(self).hearing() == old(self).hearing().remove((listener, speaker, channel)),
            final(self).players() == old(self).players(),
            final(self).groups() == old(self).groups(),
            final(self).view_groups == old(self).view_groups,
            final(self).tps == old(self).tps,
            final(self).flags == old(self).flags,
            final(self).internal_id == old(self).internal_id,
            final(self).master_id == old(self).master_id,
            final(self).capacity == old(self).capacity,
            final(self).threshold == old(self).threshold,
            final(self).render_entity == old(self).render_entity,
            final(self).world == old(self).world,
            final(self).last_tick_duration == old(self).last_tick_duration,
            final(self).load_balancing_enabled == old(self).load_balancing_enabled,
            final(self).property_resend_interval == old(self).property_resend_interval,
            final(self).password_hash == old(self).password_hash,
            final(self).moderated == old(self).moderated,
            final(self).next_view_group_id == old(self).next_view_group_id,
            final(self).effective_tps == old(self).effective_tps,
            final(self).effective_threshold == old(self).effective_threshold,
    {
        let key = (listener, speaker, channel);
        let present = self.hears(listener, speaker, channel);
        if can_hear {
            if !present {
                let ghost h0 = self.hearing@;
                self.hearing.push(key);
                proof {
                    assert(self.hearing@ =~= h0.push(key));
                    assert forall|e: (u16, u16, u32)| #[trigger] self.hearing().contains(e) <==> (h0.to_set().contains(e) || e == key) by {
                        if self.hearing@.contains(e) {
                            let k = choose|k: int| 0 <= k < self.hearing@.len() && self.hearing@[k] == e;
                            if k < h0.len() {
                                assert(h0[k] == e);
                                assert(h0.contains(e));
                            }
                        }
                        if h0.contains(e) {
                            let k = choose|k: int| 0 <= k < h0.len() && h0[k] == e;
                            assert(self.hearing@[k] == e);
                        }
                        if e == key {
                            assert(self.hearing@[h0.len() as int] == e);
                        }
                    }
                    assert(self.hearing() =~= h0.to_set().insert(key));
                    assert forall|a: int, b: int| 0 <= a < self.hearing@.len() && 0 <= b < self.hearing@.len() && a != b
                        implies self.hearing@[a] != self.hearing@[b] by {
                        if a == h0.len() {
                            assert(!h0.contains(key));
                            assert(self.hearing@[b] == h0[b]);
                        } else if b == h0.len() {
                            assert(!h0.contains(key));
                            assert(self.hearing@[a] == h0[a]);
                        }
                    }
                }
            } else {
                assert(self.hearing() =~= old(self).hearing().insert(key));
            }
        } else if present {
            let ghost h0 = self.hearing@;
            let i = self.hearing_position(key);
            self.hearing.remove(i);
            proof {
                h0.remove_ensures(i as int);
                assert forall|e: (u16, u16, u32)| #[trigger] self.hearing().contains(e) <==> (h0.to_set().contains(e) && e != key) by {
                    if self.hearing@.contains(e) {
                        let k = choose|k: int| 0 <= k < self.hearing@.len() && self.hearing@[k] == e;
                        let k0 = if k < i { k } else { k + 1 };
                        assert(h0[k0] == e);
                        assert(k0 != i);
                        assert(h0.contains(e));
                    }
                    if h0.contains(e) && e != key {
                        let k = choose|k: int| 0 <= k < h0.len() && h0[k] == e;
                        assert(k != i);
                        let k1 = if k < i { k } else { k - 1 };
                        assert(self.hearing@[k1] == e);
                    }
                }
                assert(self.hearing() =~= old(self).hearing().remove(key));
                assert forall|a: int, b: int| 0 <= a < self.hearing@.len() && 0 <= b < self.hearing@.len() && a != b
                    implies self.hearing@[a] != self.hearing@[b] by {
                    let a0 = if a < i { a } else { a + 1 };
                    let b0 = if b < i { b } else { b + 1 };
                    assert(self.hearing@[a] == h0[a0]);
                    assert(self.hearing@[b] == h0[b0]);
                }
            }
        } else {
            assert(self.hearing() =~= old(self).hearing().remove(key));
        }
    }
}


impl Instance {
    fn hearing_position(&self, key: (u16, u16, u32)) -> (i: usize)
        requires
            self.hearing().contains(key),
        ensures
            i < self.hearing@.len(),
            self.hearing@[i as int] == key,
    {
        let mut i: usize = 0;
        while i < self.hearing.len()
            invariant
                i <= self.hearing@.len(),
                self.hearing@.contains(key),
                forall|j: int| 0 <= j < i ==> #[trigger] self.hearing@[j] != key,
            decreases self.hearing@.len() - i,
        {
            let e = self.hearing[i];
            if e.0 == key.0 && e.1 == key.1 && e.2 == key.2 {
                return i;
            }
            i = i + 1;
        }
        proof {
            let k = choose|k: int| 0 <= k < self.hearing@.len() && self.hearing@[k] == key;
            assert(self.hearing@[k] != key);
        }
        0
    }
}


// ── Laws ────────────────────────────────────────────────────────────────────

/// A player always sees itself.
pub proof fn lemma_sees_itself(gs: Seq<GroupView>, pid: u16)
    ensures
        spec_can_see(gs, pid, pid),
{
}

/// An instance that allows overload is never full.
pub proof fn lemma_overload_never_full(flags: u32, capacity: u16, count: nat)
    requires
        flags & ALLOW_OVERLOAD != 0,
    ensures
        !spec_is_full(flags, capacity, count),
{
}

/// Without a password, every password is accepted.
pub proof fn lemma_no_password_accepts_all(raw: Seq<char>)
    ensures
        spec_password_accepts(None, raw),
{
}

/// A player added to an instance is found there under its id.
pub proof fn lemma_add_then_get(before: Seq<Player>, p: Player)
    requires
        unique_player_ids(before),
        !seq_has_player(before, p.id),
    ensures
        unique_player_ids(before.push(p)),
        seq_has_player(before.push(p), p.id),
        before.push(p)[seq_player_index(before.push(p), p.id)] == p,
{
    let after = before.push(p);
    assert(after[before.len() as int].id == p.id);
    let i = seq_player_index(after, p.id);
    assert forall|a: int, b: int| 0 <= a < after.len() && 0 <= b < after.len() && a != b
        implies #[trigger] after[a].id != #[trigger] after[b].id by {
        if a == before.len() {
            assert(before[b].id != p.id);
        } else if b == before.len() {
            assert(before[a].id != p.id);
        }
    }
    if i != before.len() {
        assert(after[i].id == after[before.len() as int].id);
    }
}

/// Removing a player leaves no player with its id.
pub proof fn lemma_remove_then_absent(before: Seq<Player>, pid: u16)
    requires
        unique_player_ids(before),
        seq_has_player(before, pid),
    ensures
        !seq_has_player(before.remove(seq_player_index(before, pid)), pid),
{
    let i = seq_player_index(before, pid);
    let after = before.remove(i);
    if seq_has_player(after, pid) {
        let j = choose|j: int| 0 <= j < after.len() && #[trigger] after[j].id == pid;
        let j0 = if j < i { j } else { j + 1 };
        assert(after[j] == before[j0]);
        assert(before[j0].id == before[i].id);
    }
}

/// Adding a player and removing it again gives back the players there were.
pub proof fn lemma_add_then_remove(before: Seq<Player>, p: Player)
    requires
        unique_player_ids(before),
        !seq_has_player(before, p.id),
    ensures
        before.push(p).remove(seq_player_index(before.push(p), p.id)) == before,
{
    lemma_add_then_get(before, p);
    let after = before.push(p);
    let i = seq_player_index(after, p.id);
    if i != before.len() {
        assert(after[i].id == p.id);
        assert(before[i].id == p.id);
    }
    assert(after.remove(before.len() as int) =~= before);
}

/// Once a player has left the groups, no group holds it.
pub proof fn lemma_cleanup_leaves_no_membership(gs: Seq<GroupView>, pid: u16)
    ensures
        forall|i: int| 0 <= i < groups_after_cleanup(gs, pid).len()
            ==> !(#[trigger] groups_after_cleanup(gs, pid)[i]).members.contains(pid),
{
    let stripped = gs.map_values(|g: GroupView| group_without_member(g, pid));
    assert forall|i: int| 0 <= i < stripped.len() implies !(#[trigger] stripped[i]).members.contains(pid) by {
        assert(stripped[i] == group_without_member(gs[i], pid));
    }
    if exists|i: int| is_empty_auto_group(stripped, pid, i) {
        let k = choose|i: int| is_empty_auto_group(stripped, pid, i);
        let r = stripped.remove(k);
        assert forall|i: int| 0 <= i < r.len() implies !(#[trigger] r[i]).members.contains(pid) by {
            if i < k {
                assert(r[i] == stripped[i]);
            } else {
                assert(r[i] == stripped[i + 1]);
            }
        }
    }
}

/// A player entering an instance where no group has its id is a member of
/// its new automatic group, which sees itself.
pub proof fn lemma_enter_creates_auto_group(gs: Seq<GroupView>, pid: u16)
    requires
        !seq_has_group(gs, pid as u32),
    ensures
        with_auto_group(gs, pid).last() == auto_group(pid),
        auto_group(pid).members.contains(pid),
        auto_group(pid).visible_groups.contains(pid as u32),
{
}

/// A player of client `cid` at `w` means the first one is found.
pub proof fn lemma_first_client(ps: Seq<Player>, cid: u16, w: int)
    requires
        0 <= w < ps.len(),
        ps[w].client_id == cid,
    ensures
        is_first_of_client(ps, cid, seq_client_index(ps, cid)),
    decreases w,
{
    if forall|j: int| 0 <= j < w ==> #[trigger] ps[j].client_id != cid {
        assert(is_first_of_client(ps, cid, w));
    } else {
        let j = choose|j: int| 0 <= j < w && !(#[trigger] ps[j].client_id != cid);
        lemma_first_client(ps, cid, j);
    }
}

} // verus!
