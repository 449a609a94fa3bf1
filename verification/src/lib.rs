//! Verified core of a configuration-database synchronizer.
//!
//! The library models the synchronized state (directories, backups, clock
//! instants) as plain values and proves the decision logic that operates on
//! them: header validation, backup retention, provider push/pull, and the
//! sync engine's gating and feedback suppression.  Filesystem, network and
//! process-table access happen outside; the few outside calls the logic
//! itself needs (process scanning, the clock, base64) sit behind small
//! trusted wrappers.

pub mod backup;
pub mod config;
pub mod folder;
pub mod fsmodel;
pub mod hosted;
pub mod jsontext;
pub mod provider;
pub mod safety;
pub mod strutil;
pub mod sync_engine;
pub mod time;
pub mod watcher;
