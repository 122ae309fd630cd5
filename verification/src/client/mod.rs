pub mod client;
pub mod client_manager;
pub mod user;

pub use client_manager::ClientManager;
