pub mod auth;
pub mod avatar_changed;
pub mod context;
pub mod disconnect;
pub mod enter;
pub mod handshake;
pub mod event;
pub mod latency;
pub mod packet;
pub mod player_update;
pub mod properties;
pub mod quit;
pub mod server_config;
pub mod sessions;
pub mod stream;
pub mod transform;
pub mod voice;
pub mod traveling;
