//! Lifecycle status of a player in an instance.
use vstd::prelude::*;

verus! {

/// Current lifecycle status of a player in an instance.
#[derive(Debug, Clone, Copy, PartialEq, Eq, Structural, Hash, Default)]
pub enum PlayerStatus {
    #[default]
    Unset,
    NeedPassword,
    Preparing,
    Traveling,
    Ready,
}

impl PlayerStatus {
    /// The wire code of a status.
    pub open spec fn spec_code(self) -> u8 {
        match self {
            PlayerStatus::Unset => 0,
            PlayerStatus::NeedPassword => 1,
            PlayerStatus::Preparing => 2,
            PlayerStatus::Traveling => 3,
            PlayerStatus::Ready => 4,
        }
    }

    /// The wire code of a status.
    pub fn code(self) -> (c: u8)
        ensures
            c == self.spec_code(),
    {
        match self {
            PlayerStatus::Unset => 0,
            PlayerStatus::NeedPassword => 1,
            PlayerStatus::Preparing => 2,
            PlayerStatus::Traveling => 3,
            PlayerStatus::Ready => 4,
        }
    }

    /// The status with wire code `v`; `Err(v)` for a code no status has.
    pub fn try_from(v: u8) -> (r: Result<PlayerStatus, u8>)
        ensures
            v <= 4 ==> (r matches Ok(s) && s.spec_code() == v),
            v > 4 ==> r == Err::<PlayerStatus, u8>(v),
    {
        if v == 0 {
            Ok(PlayerStatus::Unset)
        } else if v == 1 {
            Ok(PlayerStatus::NeedPassword)
        } else if v == 2 {
            Ok(PlayerStatus::Preparing)
        } else if v == 3 {
            Ok(PlayerStatus::Traveling)
        } else if v == 4 {
            Ok(PlayerStatus::Ready)
        } else {
            Err(v)
        }
    }
}

/// Decoding the code of a status gives the status back.
pub proof fn lemma_status_code_roundtrip(s: PlayerStatus)
    ensures
        s.spec_code() <= 4,
        forall|t: PlayerStatus| t.spec_code() == s.spec_code() ==> t == s,
{
}

} // verus!
