//! Client-side helpers for a P4Runtime control-plane connection.
//!
//! The crate offers three facilities:
//!
//! - a structural decoder that turns a self-describing tagged wire value
//!   into a statically shaped record, driven by a schema description of the
//!   target (`utils::de`);
//! - a stream router model that classifies inbound envelopes by kind and fans
//!   each one out to independent per-kind broadcast channels (`router`,
//!   `fanout`);
//! - small byte-level helpers for the wire formats the control plane expects
//!   (`utils::canonicalize_bitstring`, `config::build_tofino_config`).

pub mod config;
pub mod fanout;
pub mod p4info;
pub mod router;
pub mod utils;
