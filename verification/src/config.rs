//! Configuration of one watched root.

use vstd::prelude::*;
use crate::paths::FsPath;

verus! {

/// Which engine a watched root runs: `Sync` mirrors the destination against
/// the source (reconcile once, then copy creations and propagate removals);
/// `Copy` only copies completed objects and never deletes.
#[derive(Clone, Copy, PartialEq, Eq, Structural)]
pub enum WatcherType {
    Sync,
    Copy,
}

/// One configured pair of source and destination directories with a chosen
/// mode. Immutable after load; owned by the engine that watches it.
pub struct PathConfig {
    pub source: FsPath,
    pub destination: FsPath,
    pub place_in_sub: bool,
    pub name: String,
    pub watcher_type: WatcherType,
}

} // verus!
