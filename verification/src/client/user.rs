//! Authenticated user attached to a client connection.
use vstd::prelude::*;

use crate::text::{decimal, push_decimal};

verus! {

/// Authenticated user attached to a client connection.
#[derive(Debug, Clone)]
pub struct User {
    /// Master-server assigned numeric user ID (0 is invalid / unauthenticated).
    pub id: u32,
    /// The user's login name.
    pub username: String,
    /// The user's display name.
    pub display_name: String,
    /// The origin server address (e.g. `"nox.example.com"`).
    pub address: String,
}

/// `"{id}@{address}"`
pub open spec fn user_identifier(id: u32, address: Seq<char>) -> Seq<char> {
    decimal(id as nat) + "@"@ + address
}

impl User {
    pub const INVALID_ID: u32 = 0;

    /// `"{id}@{address}"`
    pub fn to_identifier(&self) -> (s: String)
        ensures
            s@ == user_identifier(self.id, self.address@),
    {
        let mut s = String::new();
        push_decimal(&mut s, self.id as u64);
        s.append("@");
        s.append(self.address.as_str());
        s
    }

    pub fn is_valid(&self) -> (b: bool)
        ensures
            b == (self.id != 0),
    {
        self.id != Self::INVALID_ID
    }
}

} // verus!
