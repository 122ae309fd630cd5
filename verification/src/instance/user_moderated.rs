//! Moderation record for a `(user_id, address)` pair within an instance.
use vstd::prelude::*;

verus! {

/// Moderation record for a specific `(user_id, address)` pair within an instance.
#[derive(Debug, Clone)]
pub struct UserModerated {
    pub user_id: u32,
    pub address: String,
    pub is_blacklisted: bool,
    pub is_whitelisted: bool,
}

impl UserModerated {
    /// A record that neither blacklists nor whitelists the user.
    pub fn new(user_id: u32, address: String) -> (m: Self)
        ensures
            m.user_id == user_id,
            m.address@ == address@,
            !m.is_blacklisted,
            !m.is_whitelisted,
    {
        UserModerated { user_id, address, is_blacklisted: false, is_whitelisted: false }
    }
}

} // verus!
