//! Tag synchronisation between upstream repositories and their forks.
//!
//! The crate keeps, for every tracked repository, the two most recently seen
//! release tags, detects when a new tag appears upstream, and decides whether
//! the tag may be replicated onto a fork. All network and file access is left
//! to the caller: the engine is a state machine that is told what happened
//! and answers with the next request to make.
pub mod config;
pub mod engine;
pub mod guarantees;
pub mod pass;
pub mod push;
pub mod state;
