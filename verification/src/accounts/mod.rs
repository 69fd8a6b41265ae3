//! Saved accounts: their credentials, how one is selected, and what is shown of them.

pub mod answers;
pub mod auth_profiles;
pub mod backend;
pub mod laws;
pub mod login;
pub mod model;
pub mod operations;
pub mod order;
pub mod priming;
pub mod properties;
pub mod readers;
pub mod rotation;
pub mod rpc;
pub mod sessions;
pub mod slots;
pub mod store;
pub mod usage;
