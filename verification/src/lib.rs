//! Verified core of a conversational media assistant.
//!
//! The crate models one user request as a bounded sequence of rounds: a
//! language model produces text, embedded tool commands are extracted from
//! the accumulated text, each distinct command is dispatched at most once,
//! results are folded back into the conversation, and a throttled progress
//! feed keeps the user informed. The surrounding transport (chat gateway,
//! HTTP calls of the individual tools) lives outside this crate and talks
//! to it through plain values.

pub mod apis;
pub mod catalog;
pub mod context;
pub mod engine;
pub mod examples;
pub mod extract;
pub mod plugins;
pub mod progress;
pub mod relevance;
pub mod text;

pub use apis::ArrService;
