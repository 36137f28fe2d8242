//! Encrypted, versioned configuration synchronization: the verified core of
//! the client engine, the sync service's rules and the live-config preview.

pub mod text;
pub mod error;
pub mod crypto;
pub mod json;
pub mod files;
pub mod merge;
pub mod protocol;
pub mod contents;
pub mod projection;
pub mod snapshot;
pub mod engine;
pub mod run;
pub mod apply;
pub mod server;
pub mod live_config;
