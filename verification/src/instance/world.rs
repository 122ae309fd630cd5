//! The virtual world an instance runs inside.
use vstd::prelude::*;

use crate::constants::SAFE_LOCAL_ADDRESS;
use crate::text::{decimal, push_decimal};

verus! {

/// Describes the virtual world that an instance is running inside.
#[derive(Debug, Clone)]
pub struct World {
    /// Master-server world ID.
    pub master_id: u32,
    /// Deploy address of the world (e.g. `"nox.example.com"`).
    pub address: String,
    /// World version number.
    pub version: u16,
}

/// `"{master_id}?v={version}@{address}"`
pub open spec fn world_identifier(master_id: u32, version: u16, address: Seq<char>) -> Seq<char> {
    decimal(master_id as nat) + "?v="@ + decimal(version as nat) + "@"@ + address
}

impl World {
    pub fn new(master_id: u32, address: String, version: u16) -> (w: Self)
        ensures
            w.master_id == master_id,
            w.address@ == address@,
            w.version == version,
    {
        World { master_id, address, version }
    }

    /// `"{master_id}?v={version}@{address}"`
    pub fn to_identifier(&self) -> (s: String)
        ensures
            s@ == world_identifier(self.master_id, self.version, self.address@),
    {
        let mut s = String::new();
        push_decimal(&mut s, self.master_id as u64);
        s.append("?v=");
        push_decimal(&mut s, self.version as u64);
        s.append("@");
        s.append(self.address.as_str());
        s
    }
}

impl Default for World {
    /// World 0, version `u16::MAX`, at the relay's own address (`"::"`).
    fn default() -> (w: Self)
        ensures
            w.master_id == 0,
            w.address@ == SAFE_LOCAL_ADDRESS@,
            w.version == u16::MAX,
    {
        World::new(0, String::from_str(SAFE_LOCAL_ADDRESS), u16::MAX)
    }
}

} // verus!
