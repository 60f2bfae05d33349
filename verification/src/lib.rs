//! Core logic shared by the connectors: the record model, the file-tailing
//! source, the record-forwarding bridge and the configuration value model.
//!
//! Every function here carries a contract that Verus proves. Calls into other
//! crates are confined to small wrappers whose contracts are stated, not proved;
//! each of them says so in its documentation.

pub mod bridge;
pub mod config;
pub mod kafka;
pub mod lines;
pub mod manager;
pub mod mqtt;
pub mod namemap;
pub mod record;
pub mod secret;
pub mod slack;
pub mod syslog;
pub mod tail;
pub mod text;
pub mod units;
pub mod value;
