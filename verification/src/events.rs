//! Typed change events and the bridge filter that admits them.

use vstd::prelude::*;
use crate::config::WatcherType;
use crate::paths::FsPath;

verus! {

/// The kind of a native filesystem notification, as the watching layer
/// reports it.
#[derive(Clone, Copy, PartialEq, Eq, Structural)]
pub enum NativeEventKind {
    Create,
    Remove,
    Modify,
    Access,
    Other,
}

/// The kind of a typed change event an engine consumes.
#[derive(Clone, Copy, PartialEq, Eq, Structural)]
pub enum ChangeKind {
    Created,
    Removed,
}

/// A typed change event: a kind and the paths it reports, in notification
/// order.
pub struct ChangeEvent {
    pub kind: ChangeKind,
    pub paths: Vec<FsPath>,
}

/// Which typed event, if any, a native notification becomes for a root of
/// the given mode: creations are kept in both modes, removals only in
/// `Sync` mode, and every other native kind is dropped.
pub open spec fn accepted_kind(mode: WatcherType, kind: NativeEventKind) -> Option<ChangeKind> {
    match kind {
        NativeEventKind::Create => Some(ChangeKind::Created),
        NativeEventKind::Remove => if mode is Sync {
            Some(ChangeKind::Removed)
        } else {
            None
        },
        _ => None,
    }
}

/// The bridge's kind filter: no reordering or coalescing happens around it,
/// so a native event stream maps one by one through this function.
pub fn bridge_filter(mode: WatcherType, kind: NativeEventKind) -> (r: Option<ChangeKind>)
    ensures
        r == accepted_kind(mode, kind),
{
    match kind {
        NativeEventKind::Create => Some(ChangeKind::Created),
        NativeEventKind::Remove => match mode {
            WatcherType::Sync => Some(ChangeKind::Removed),
            WatcherType::Copy => None,
        },
        _ => None,
    }
}

} // verus!
