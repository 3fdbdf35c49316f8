//! Decision logic for a watch-driven file organiser.
//!
//! Watched source directories feed change events into one of two engines:
//! a completion-aware copier that moves finished downloads into a
//! destination (optionally namespaced by an extracted title), or a mirror
//! engine that reconciles a destination tree against a source tree once and
//! then propagates live create/remove events. This crate holds the parts
//! that decide *when* an object is safe to act on and *what* action to
//! take; the surrounding process performs the filesystem work.

pub mod config;
pub mod copy_watcher;
pub mod detect;
pub mod events;
pub mod mover;
pub mod paths;
pub mod registry;
pub mod sync_watcher;
