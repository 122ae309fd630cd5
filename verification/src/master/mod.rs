pub mod master_client;
pub mod messages;
pub mod relay_extensions;
