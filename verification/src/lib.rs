//! Verified core of a personal-configuration backup tool.
//!
//! The library holds the logic that is worth proving: the crypto engine's
//! contracts, the settings and os-release parsers, exclusion filtering,
//! progress accounting, the backup and restore orchestration, and the
//! scheduler's decisions.  Network and file I/O live outside the library
//! and hand it plain values.

pub mod backup;
pub mod config;
pub mod crypto;
pub mod logging;
pub mod progress;
pub mod restore;
pub mod scheduler;
pub mod settings;
pub mod text;
