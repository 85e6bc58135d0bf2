//! Launcher shim for a desktop application shell that runs its real logic
//! in a separate backend server process.
//!
//! The library holds the shim's decisions, verified: which candidate
//! directories may hold the backend and in what priority order
//! ([`paths`]), the two launch commands and their fixed host and port
//! ([`command`]), the probe-and-launch sequence with its two-step fallback
//! ([`supervisor`]), and the lifecycle slot that owns the started process's
//! handle until the window-destruction event clears it ([`slot`]). The
//! outside work itself — filesystem probes, process spawns and kills, the
//! window host — is performed by the caller, one action at a time, as the
//! supervisor state machine directs.

pub mod command;
pub mod paths;
pub mod slot;
pub mod supervisor;
