//! Keeps a cloud allowlist (a managed prefix list) in step with the host's
//! current external IPv4 address.
//!
//! This crate holds the verified core: IPv4 text validation, CIDR formatting,
//! and the reconciliation state machine that decides, one remote reply at a
//! time, whether and how the remote list must change. The surrounding
//! process (argument handling, HTTP and cloud RPC calls, the timer loop)
//! lives outside and feeds plain values in.

pub mod cidr;
pub mod ipv4;
pub mod reconcile;
pub mod text;

pub use cidr::format_cidr;
pub use ipv4::is_valid_ipv4;
pub use text::trim_text;
