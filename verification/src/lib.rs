//! Machine, container and tunnel management logic of the Ark developer console.
pub mod model;
pub mod text;
pub mod ssh;
pub mod discovery;
pub mod ssh_users;
pub mod sources;
pub mod projection;
pub mod inventory;
pub mod local_machine;
pub mod chain;
pub mod runtime;
pub mod actions;
pub mod tunnel;
pub mod http;
pub mod rate;
pub mod scan;
pub mod browser;
pub mod sessions;
pub mod load;
pub mod json;
