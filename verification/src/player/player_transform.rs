//! The transforms a player last sent for each rig part.
use vstd::prelude::*;
use std::collections::HashMap;

use super::rig::{Transform, RESET};

verus! {

/// Map from rig-part index to its accumulated field flags and current transform.
/// The flags gather every field that was ever set since the last reset; the
/// RESET bit itself is never stored.
#[derive(Debug, Clone)]
pub struct PlayerTransforms {
    parts: HashMap<u16, (u8, Transform)>,
}

impl View for PlayerTransforms {
    type V = Map<u16, (u8, Transform)>;

    closed spec fn view(&self) -> Map<u16, (u8, Transform)> {
        self.parts@
    }
}

impl PlayerTransforms {
    /// No rig part stored.
    pub fn new() -> (t: Self)
        ensures
            t@ == Map::<u16, (u8, Transform)>::empty(),
    {
        PlayerTransforms { parts: HashMap::new() }
    }

    /// The entry a transform update leaves for a rig part: a reset (or a part
    /// never seen) takes the new flags; otherwise the flags accumulate. RESET
    /// is stripped before storing. The transform is always the new one.
    pub open spec fn updated_entry(
        old: Map<u16, (u8, Transform)>,
        rig_id: u16,
        flags: u8,
        transform: Transform,
        reset: bool,
    ) -> (u8, Transform) {
        if reset || !old.contains_key(rig_id) {
            (flags & !RESET, transform)
        } else {
            ((old[rig_id].0 | flags) & !RESET, transform)
        }
    }

    /// Stores a transform update for one rig part.
    pub fn set(&mut self, rig_id: u16, flags: u8, transform: Transform, reset: bool)
        ensures
            final(self)@ == old(self)@.insert(
                rig_id,
                Self::updated_entry(old(self)@, rig_id, flags, transform, reset),
            ),
    {
        let kept = flags & !RESET;
        if reset {
            self.parts.insert(rig_id, (kept, transform));
        } else {
            let prev = match self.parts.get(&rig_id) {
                Some(e) => Some(e.0),
                None => None,
            };
            match prev {
                Some(f) => {
                    self.parts.insert(rig_id, ((f | flags) & !RESET, transform));
                },
                None => {
                    self.parts.insert(rig_id, (kept, transform));
                },
            }
        }
    }

    /// Every stored part as `(rig_id, flags, transform)`, each once, in an
    /// order the map does not fix.
    pub fn iter(&self) -> (v: Vec<(u16, u8, Transform)>)
        ensures
            v@.len() == self@.dom().len(),
            forall|i: int| 0 <= i < v@.len() ==> #[trigger] self@.contains_key(v@[i].0)
                && self@[v@[i].0] == (v@[i].1, v@[i].2),
            forall|k: u16| #[trigger] self@.contains_key(k) ==> exists|i: int| 0 <= i < v@.len() && v@[i].0 == k,
    {
        broadcast use vstd::std_specs::hash::group_hash_axioms;
        let mut v: Vec<(u16, u8, Transform)> = Vec::new();
        let ghost all = vstd::std_specs::iter::IteratorSpec::remaining(&vstd::std_specs::hash::spec_hash_map_iter(&self.parts));
        for e in it: self.parts.iter()
            invariant
                all == vstd::std_specs::iter::IteratorSpec::remaining(&vstd::std_specs::hash::spec_hash_map_iter(&self.parts)),
                it.seq() == all,
                v@.len() == it.index(),
                forall|i: int| 0 <= i < it.index() ==> #[trigger] v@[i] == (*it.seq()[i].0, it.seq()[i].1.0, it.seq()[i].1.1),
        {
            v.push((*e.0, e.1.0, e.1.1));
        }
        proof {
            assert forall|k: u16| #[trigger] self@.contains_key(k) implies exists|i: int| 0 <= i < v@.len() && v@[i].0 == k by {
                assert(all.contains((&k, &self.parts@[k])));
                let j = choose|j: int| 0 <= j < all.len() && all[j] == (&k, &self.parts@[k]);
                assert(v@[j] == (*all[j].0, all[j].1.0, all[j].1.1));
            }
        }
        v
    }

    /// The current transform of a rig part, if one was stored.
    pub fn get(&self, rig_id: u16) -> (t: Option<Transform>)
        ensures
            t == (if self@.contains_key(rig_id) {
                Some(self@[rig_id].1)
            } else {
                None
            }),
    {
        match self.parts.get(&rig_id) {
            Some(e) => Some(e.1),
            None => None,
        }
    }
}

/// Whether no stored entry holds the RESET bit.
pub open spec fn no_reset_stored(m: Map<u16, (u8, Transform)>) -> bool {
    forall|k: u16| #[trigger] m.contains_key(k) ==> m[k].0 & RESET == 0
}

/// The stored flags never hold RESET: none are stored at first, and every
/// update keeps it so, whatever flags it is given.
pub proof fn lemma_reset_never_stored(
    m: Map<u16, (u8, Transform)>,
    rig_id: u16,
    flags: u8,
    transform: Transform,
    reset: bool,
)
    requires
        no_reset_stored(m),
    ensures
        no_reset_stored(Map::<u16, (u8, Transform)>::empty()),
        no_reset_stored(m.insert(rig_id, PlayerTransforms::updated_entry(m, rig_id, flags, transform, reset))),
{
    let e = PlayerTransforms::updated_entry(m, rig_id, flags, transform, reset);
    let prev: u8 = if m.contains_key(rig_id) { m[rig_id].0 } else { 0u8 };
    assert((flags & !RESET) & RESET == 0) by (bit_vector);
    assert(((prev | flags) & !RESET) & RESET == 0) by (bit_vector);
    assert(e.0 & RESET == 0);
}

/// Updates without reset gather their field flags (less RESET); the
/// transform is always the latest.
pub proof fn lemma_flags_accumulate(
    m: Map<u16, (u8, Transform)>,
    rig_id: u16,
    f1: u8,
    t1: Transform,
    f2: u8,
    t2: Transform,
)
    ensures
        ({
            let m1 = m.insert(rig_id, PlayerTransforms::updated_entry(m, rig_id, f1, t1, false));
            let e = PlayerTransforms::updated_entry(m1, rig_id, f2, t2, false);
            &&& e.1 == t2
            &&& e.0 == ((if m.contains_key(rig_id) { m[rig_id].0 | f1 } else { f1 }) | f2) & !RESET
        }),
{
    let a: u8 = if m.contains_key(rig_id) { m[rig_id].0 | f1 } else { f1 };
    assert(((a & !RESET) | f2) & !RESET == (a | f2) & !RESET) by (bit_vector);
    if m.contains_key(rig_id) {
        assert((m[rig_id].0 | f1) & !RESET == a & !RESET);
    }
}

/// A reset forgets the flags gathered before it.
pub proof fn lemma_reset_replaces(m: Map<u16, (u8, Transform)>, rig_id: u16, flags: u8, t: Transform)
    ensures
        PlayerTransforms::updated_entry(m, rig_id, flags, t, true) == (flags & !RESET, t),
{
}

} // verus!
