//! Windowed analytics over a stream of application events.
//!
//! The library decodes raw message payloads into events (a category label
//! and an optional originating user id) and folds them into an aggregation
//! window that tracks per-category counts and the set of distinct users,
//! emitting a snapshot and resetting itself on a fixed flush cadence.

pub mod event;
pub mod laws;
pub mod render;
pub mod window;
