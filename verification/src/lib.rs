//! Backing logic for an editor-integrated Java tooling bridge.
//!
//! The crate locates, installs, updates and launches a Java language
//! server together with two auxiliary components (an annotation-processing
//! agent and a debug-protocol plugin), and translates editor-supplied debug
//! requests into concrete runnable configurations.
//!
//! Everything here is pure decision and transformation logic with verified
//! contracts.  Filesystem access, network fetches and subprocess invocation
//! are performed by the embedding layer, which feeds the results in as plain
//! values and carries the decisions out.

pub mod artifact;
pub mod config;
pub mod debugger;
pub mod digest;
pub mod error;
pub mod json;
pub mod launch;
pub mod lsp;
pub mod platform;
pub mod policy;
pub mod strutil;
pub mod versions;
