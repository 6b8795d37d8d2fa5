//! The logical shape of one change notification, as the reconciler sees it.

use vstd::prelude::*;

verus! {

/// The logical kind of one change notification.
#[derive(Debug, PartialEq, Eq, Structural, Clone, Copy)]
pub enum ChangeKind {
    /// A path came into existence.
    Create,
    /// A path's contents changed (a rename reports both names this way
    /// on some platforms).
    Modify,
    /// A path went away.
    Remove,
    /// Anything else; a no-op for the dirty set.
    Other,
}

/// One change notification: a kind, the affected absolute paths, and
/// whether the source reports that notifications were dropped in this
/// window (in which case the tracked state is stale).
pub struct ChangeEvent {
    pub kind: ChangeKind,
    pub paths: Vec<String>,
    pub need_rescan: bool,
}

/// The mathematical form of a change notification: paths as character
/// sequences.
pub struct EventModel {
    pub kind: ChangeKind,
    pub paths: Seq<Seq<char>>,
    pub rescan: bool,
}

impl View for ChangeEvent {
    type V = EventModel;

    open spec fn view(&self) -> EventModel {
        EventModel { kind: self.kind, paths: self.paths.deep_view(), rescan: self.need_rescan }
    }
}

/// A notification that names a single path and reports no loss.
pub open spec fn single_event(kind: ChangeKind, p: Seq<char>) -> EventModel {
    EventModel { kind, paths: seq![p], rescan: false }
}

} // verus!
