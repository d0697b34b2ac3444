//! Barrier coordination for distributed checkpoint/restore.
//!
//! The library holds the logic shared by the coordinator and the hook that a
//! local checkpoint/restore engine runs at each phase: the phase vocabulary,
//! per-connection session state, the dependency store with prefix lookup, the
//! barrier's release decisions, and the small text formats that the hook reads
//! and writes.

pub mod barrier;
pub mod client_status;
pub mod config;
pub mod deps;
pub mod hook;
pub mod network;
pub mod phase;
pub mod protocol;
pub mod registry;
pub mod text;
