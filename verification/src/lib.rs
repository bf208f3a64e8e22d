//! Decisions of agent hooks and of Poe task runs.
//!
//! A hook call is read and settled in [`session`], by the rules in [`hook`]; a task run is
//! taken step by step in [`poe`]. What the host has to answer or to do is named there, and done
//! elsewhere.

pub mod audit;
pub mod entries;
pub mod hook;
pub mod json;
pub mod laws;
pub mod oneshot;
pub mod poe;
pub mod protocol;
pub mod pyproject;
pub mod session;
pub mod text;
