//! Report-never-assume diagnostics for ZK proving lanes on Apple Silicon.
//!
//! The library holds the decisions of the doctor: which compute lane a captured
//! proof log shows, what verdict and exit code follow, how reports are redacted
//! and rendered, and the honesty registry of proving targets. Probing the
//! machine (processes, sockets, files, the Metal device) is left to callers.
pub mod text;
pub mod sanitize;
pub mod lane;
pub mod versions;
pub mod target;
pub mod midnight;
pub mod envprobe;
pub mod device;
pub mod report;
pub mod prove;
pub mod check;
pub mod bundle;
