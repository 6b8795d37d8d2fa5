//! Opportunistic dirty file tracker.
//!
//! Watches a directory tree for filesystem changes and answers, without
//! rescanning the tree, whether anything under it changed since the last
//! mark-clean. Change notifications arrive asynchronously; each query runs a
//! synchronization barrier (a uniquely named marker file, created and at once
//! removed) and reconciles every notification up to the marker's own removal,
//! so that the answer reflects all activity that happened before the query.

use vstd::prelude::*;

mod events;
pub mod laws;
mod reconciler;
mod source;
mod tracker;

pub use events::ChangeEvent;
pub use events::ChangeKind;
pub use events::EventModel;
pub use reconciler::Reconciler;
pub use reconciler::ReconcilerModel;
pub use tracker::DirtyTracker;
pub use tracker::TrackerModel;

verus! {

/// What the tracker can report of the watched tree.
#[derive(Debug, PartialEq, Eq, Structural, Clone, Copy)]
pub enum State {
    /// Nothing under the root changed since the last mark-clean.
    Clean,
    /// At least one path under the root was created, modified or removed.
    Dirty,
    /// The tracker cannot vouch for completeness: notifications were
    /// dropped, or the notification channel is gone.
    Unknown,
}

/// Why a drain of pending notifications failed.
#[derive(Debug, PartialEq, Eq, Structural, Clone, Copy)]
pub enum ProcessError {
    /// The marker's removal was not observed within the given bound,
    /// in milliseconds. Already-drained notifications stay applied.
    Timeout(u64),
    /// The notification channel closed; terminal for the tracker.
    Disconnected,
    /// The marker file could not be placed under the root.
    Resource,
}

/// Watch registration on the root directory failed.
#[derive(Debug, PartialEq, Eq, Structural, Clone, Copy)]
pub struct ResourceError;

} // verus!
