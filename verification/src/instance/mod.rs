pub mod flags;
pub mod instance;
pub mod instance_manager;
pub mod user_moderated;
pub mod view_group;
pub mod world;

pub use instance::Instance;
pub use instance_manager::InstanceManager;
pub use world::World;
