//! Avatar data attached to a player.
use vstd::prelude::*;
use std::collections::HashMap;

verus! {

/// Avatar data attached to a player.
/// Wire format (in AvatarChanged): `[Id: u32][Server: string][Version: u16]`.
#[derive(Debug, Clone)]
pub struct Avatar {
    pub id: u32,
    pub server: String,
    pub version: u16,
    /// Keyed parameter blobs (parameter index → bytes).
    pub parameters: HashMap<i32, Vec<u8>>,
}

impl Avatar {
    /// An avatar with no parameters.
    pub fn new(id: u32, server: String, version: u16) -> (a: Avatar)
        ensures
            a.id == id,
            a.server@ == server@,
            a.version == version,
            a.parameters@ == Map::<i32, Vec<u8>>::empty(),
    {
        Avatar { id, server, version, parameters: HashMap::new() }
    }
}

impl Default for Avatar {
    /// Id 0, no server, version `u16::MAX`, no parameters.
    fn default() -> (a: Avatar)
        ensures
            a.id == 0,
            a.server@ == Seq::<char>::empty(),
            a.version == u16::MAX,
            a.parameters@ == Map::<i32, Vec<u8>>::empty(),
    {
        Avatar { id: 0, server: String::new(), version: u16::MAX, parameters: HashMap::new() }
    }
}

} // verus!
