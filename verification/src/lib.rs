//! Core logic of a tool-calling coding-assistant orchestrator.
//!
//! The crate verifies the decision logic of the system: the tool registry and
//! the built-in tools' argument handling, the bounded single-agent loop, the
//! multi-agent pipeline, the verification-gated edit protocol, and the
//! append-only session log with its binary codec. External capabilities (the
//! language model, the retrieval backend, subprocesses, the filesystem) are
//! consumed as plain values; the code that talks to them lives outside this
//! library.

pub mod agent;
pub mod agents;
pub mod barq;
pub mod config;
pub mod orchestrator;
pub mod macro_goals;
pub mod session;
pub mod strutil;
pub mod symbolic;
pub mod tools;
pub mod tui;
pub mod verify;
