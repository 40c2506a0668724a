//! Versioning and update diffing for chunk lists.
//!
//! A chunk list is the manifest of the chunks of one build. Given the snapshot a
//! client holds and the current listing, the library decides which chunk and
//! merger diffs have to be computed, and folds their outcomes into one update.

pub mod content;
pub mod engine;
pub mod laws;
pub mod ordered;
pub mod plan;
pub mod update;
pub mod wire;
