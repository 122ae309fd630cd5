//! Visibility relationships between players within an instance.
//!
//! - Auto-groups: `id <= u16::MAX`, one per player, created when it joins.
//! - Custom groups: `id > u16::MAX`, created by instance logic.
use vstd::prelude::*;
use std::collections::HashSet;

verus! {

/// What a view group holds.
pub struct GroupView {
    pub id: u32,
    pub name: Option<Seq<char>>,
    pub members: Set<u16>,
    pub visible_groups: Set<u32>,
}

/// A set of players and the groups whose members they can see.
#[derive(Debug)]
pub struct ViewGroup {
    /// Unique group ID within the instance.
    pub id: u32,
    /// Optional human-readable name.
    pub name: Option<String>,
    /// Player IDs that are members of this group.
    pub members: HashSet<u16>,
    /// IDs of groups whose members this group can see.
    pub visible_groups: HashSet<u32>,
}

/// The characters of an optional string.
pub open spec fn opt_chars(s: Option<String>) -> Option<Seq<char>> {
    match s {
        Some(t) => Some(t@),
        None => None,
    }
}

impl View for ViewGroup {
    type V = GroupView;

    open spec fn view(&self) -> GroupView {
        GroupView {
            id: self.id,
            name: opt_chars(self.name),
            members: self.members@,
            visible_groups: self.visible_groups@,
        }
    }
}

/// Whether a group id names an auto-group (one per player).
pub open spec fn is_auto_id(id: u32) -> bool {
    id <= 0xFFFF
}

impl ViewGroup {
    /// A group with no members that sees no group.
    pub fn new(id: u32, name: Option<String>) -> (g: Self)
        ensures
            g@.id == id,
            g@.name == opt_chars(name),
            g@.members == Set::<u16>::empty(),
            g@.visible_groups == Set::<u32>::empty(),
    {
        ViewGroup { id, name, members: HashSet::new(), visible_groups: HashSet::new() }
    }

    pub fn is_auto_group(&self) -> (b: bool)
        ensures
            b == is_auto_id(self.id),
    {
        self.id <= 0xFFFF
    }

    pub fn is_custom_group(&self) -> (b: bool)
        ensures
            b == !is_auto_id(self.id),
    {
        !self.is_auto_group()
    }

    /// Adds a member; `true` when it was not one before.
    pub fn add_member(&mut self, player_id: u16) -> (added: bool)
        ensures
            final(self)@ == (GroupView { members: old(self)@.members.insert(player_id), ..old(self)@ }),
            added == !old(self)@.members.contains(player_id),
    {
        self.members.insert(player_id)
    }

    /// Removes a member; `true` when it was one.
    pub fn remove_member(&mut self, player_id: u16) -> (removed: bool)
        ensures
            final(self)@ == (GroupView { members: old(self)@.members.remove(player_id), ..old(self)@ }),
            removed == old(self)@.members.contains(player_id),
    {
        self.members.remove(&player_id)
    }

    pub fn is_member(&self, player_id: u16) -> (b: bool)
        ensures
            b == self@.members.contains(player_id),
    {
        self.members.contains(&player_id)
    }

    /// Lets this group see the members of `group_id`; `true` when it could not before.
    pub fn add_visible_group(&mut self, group_id: u32) -> (added: bool)
        ensures
            final(self)@ == (GroupView {
                visible_groups: old(self)@.visible_groups.insert(group_id),
                ..old(self)@
            }),
            added == !old(self)@.visible_groups.contains(group_id),
    {
        self.visible_groups.insert(group_id)
    }

    /// Stops this group seeing `group_id`; `true` when it could before.
    pub fn remove_visible_group(&mut self, group_id: u32) -> (removed: bool)
        ensures
            final(self)@ == (GroupView {
                visible_groups: old(self)@.visible_groups.remove(group_id),
                ..old(self)@
            }),
            removed == old(self)@.visible_groups.contains(group_id),
    {
        self.visible_groups.remove(&group_id)
    }

    /// Returns `true` if this group can see `target_group_id`.
    pub fn can_see_group(&self, target_group_id: u32) -> (b: bool)
        ensures
            b == self@.visible_groups.contains(target_group_id),
    {
        self.visible_groups.contains(&target_group_id)
    }

    /// Whether the group has no member.
    pub fn has_no_members(&self) -> (b: bool)
        ensures
            b == self@.members.is_empty(),
    {
        self.members.is_empty()
    }
}

} // verus!
