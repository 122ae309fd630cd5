pub mod player;
pub mod player_flags;
pub mod player_status;
pub mod player_transform;
pub mod rig;

pub use player::Player;
pub use player_status::PlayerStatus;
