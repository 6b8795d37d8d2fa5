//! The tracker facade: owns the reconciler, the watcher and the channel,
//! and runs the synchronization barrier on every query, so that the answer
//! reflects every change that happened before the query was issued.

use vstd::prelude::*;
use vstd::string::StringExecFns;

use std::sync::mpsc::Receiver;

use crate::events::ChangeEvent;
use crate::events::ChangeKind;
use crate::events::EventModel;
use crate::reconciler::apply_events;
use crate::reconciler::clean_model;
use crate::reconciler::lemma_apply_event_rescan;
use crate::reconciler::lemma_apply_events_snoc;
use crate::reconciler::set_of;
use crate::reconciler::unique;
use crate::reconciler::vec_contains;
use crate::reconciler::Reconciler;
use crate::reconciler::ReconcilerModel;
use crate::source::convert_event;
use crate::source::place_marker;
use crate::source::recv_next;
use crate::source::recv_next_timeout;
use crate::source::watch_root;
use crate::ProcessError;
use crate::ResourceError;
use crate::State;

verus! {

/// Everything a contract needs of a tracker: the watched root, the
/// reconciled sets, whether the channel is gone, and whether the most
/// recent drain completed.
pub struct TrackerModel {
    pub root: Seq<char>,
    pub sets: ReconcilerModel,
    pub disconnected: bool,
    pub drain_ok: bool,
}

/// The derived state: Unknown once the channel is gone, the most recent
/// drain failed, or notifications were dropped; otherwise Clean or Dirty
/// by emptiness of the dirty set.
pub open spec fn tracker_state(t: TrackerModel) -> State {
    if t.disconnected || !t.drain_ok || t.sets.rescan {
        State::Unknown
    } else if t.sets.dirty.is_empty() {
        State::Clean
    } else {
        State::Dirty
    }
}

/// The path with the root and its separator stripped as a prefix, or the
/// path itself where the root is no prefix of it.
pub open spec fn rel_of(root: Seq<char>, p: Seq<char>) -> Seq<char> {
    let pre = root + seq!['/'];
    if pre.len() <= p.len() && p.subrange(0, pre.len() as int) == pre {
        p.subrange(pre.len() as int, p.len() as int)
    } else {
        p
    }
}

/// Tracks which paths under one root directory changed since the last
/// mark-clean, by reconciling the watcher's notifications on every query.
pub struct DirtyTracker {
    path: String,
    watcher: notify::RecommendedWatcher,
    rx: Receiver<notify::Result<notify::Event>>,
    recon: Reconciler,
    disconnected: bool,
    drain_ok: bool,
}

impl View for DirtyTracker {
    type V = TrackerModel;

    closed spec fn view(&self) -> TrackerModel {
        TrackerModel {
            root: self.path@,
            sets: self.recon@,
            disconnected: self.disconnected,
            drain_ok: self.drain_ok,
        }
    }
}

/// A record standing for "notifications were dropped": it moves no path and
/// only sets the sticky rescan flag.
fn overflow_event() -> (r: ChangeEvent)
    ensures
        r@ == (EventModel { kind: ChangeKind::Other, paths: Seq::empty(), rescan: true }),
{
    let r = ChangeEvent { kind: ChangeKind::Other, paths: Vec::new(), need_rescan: true };
    proof {
        assert(r.paths.deep_view() =~= Seq::<Seq<char>>::empty());
    }
    r
}

/// Whether the notification is the removal of the barrier's marker file.
fn is_marker_removal(event: &ChangeEvent, marker: &String) -> (r: bool)
    ensures
        r == (event@.kind == ChangeKind::Remove && event@.paths.contains(marker@)),
{
    match event.kind {
        ChangeKind::Remove => vec_contains(&event.paths, marker),
        _ => false,
    }
}

impl DirtyTracker {
    /// The reconciler's vectors hold each path once, created within dirty.
    pub closed spec fn wf(&self) -> bool {
        self.recon.wf()
    }

    /// Registers a recursive watch on the directory at `path`. The tracker
    /// starts clean: nothing dirty, nothing suspected lost.
    pub fn new(path: &str) -> (r: Result<DirtyTracker, ResourceError>)
        ensures
            r matches Ok(t) ==> t.wf() && t@ == (TrackerModel {
                root: path@,
                sets: clean_model(),
                disconnected: false,
                drain_ok: true,
            }),
    {
        match watch_root(path) {
            Ok((watcher, rx)) => Ok(
                DirtyTracker {
                    path: String::from_str(path),
                    watcher,
                    rx,
                    recon: Reconciler::new(),
                    disconnected: false,
                    drain_ok: true,
                },
            ),
            Err(_) => Err(ResourceError),
        }
    }

    /// The synchronization barrier: places a marker file under the root,
    /// which the watch mechanism reports strictly after everything that
    /// happened before, then reconciles arriving notifications until the
    /// marker's own removal is observed. Notifications drained before a
    /// timeout stay applied; a disconnected channel is terminal. A record
    /// the source hands over as an error is taken as loss, setting the
    /// sticky rescan flag, as is the (practically unreachable) exhaustion
    /// of the drain's iteration budget.
    pub fn process_pending(&mut self, timeout_ms: Option<u64>) -> (r: Result<(), ProcessError>)
        requires
            old(self).wf(),
        ensures
            final(self).wf(),
            final(self)@.root == old(self)@.root,
            exists|evs: Seq<EventModel>|
                final(self)@.sets == apply_events(old(self)@.sets, evs),
            old(self)@.sets.rescan ==> final(self)@.sets.rescan,
            final(self)@.drain_ok == (r is Ok),
            final(self)@.disconnected == (old(self)@.disconnected || r == Err::<(),
            ProcessError>(ProcessError::Disconnected)),
            old(self)@.disconnected ==> final(self)@.sets == old(self)@.sets && r == Err::<
                (),
                ProcessError,
            >(ProcessError::Disconnected),
            r matches Err(e) ==> (e is Disconnected || e is Resource || (e matches
            ProcessError::Timeout(t) && timeout_ms == Some(t))),
    {
        let ghost m0 = self@.sets;
        if self.disconnected {
            self.drain_ok = false;
            proof {
                assert(self@.sets == apply_events(m0, Seq::<EventModel>::empty()));
            }
            return Err(ProcessError::Disconnected);
        }
        let marker = match place_marker(&self.path) {
            Ok(s) => s,
            Err(_) => {
                self.drain_ok = false;
                proof {
                    assert(self@.sets == apply_events(m0, Seq::<EventModel>::empty()));
                }
                return Err(ProcessError::Resource);
            },
        };
        let ghost mut evs: Seq<EventModel> = Seq::empty();
        let mut saw_marker = false;
        let mut budget: u64 = u64::MAX;
        while !saw_marker && budget > 0
            invariant
                self.wf(),
                self@.root == old(self)@.root,
                !self@.disconnected,
                !old(self)@.disconnected,
                m0 == old(self)@.sets,
                self@.sets == apply_events(m0, evs),
                m0.rescan ==> self@.sets.rescan,
            decreases budget,
        {
            budget = budget - 1;
            let received = match timeout_ms {
                Some(ms) => recv_next_timeout(&self.rx, ms),
                None => recv_next(&self.rx),
            };
            match received {
                Ok(record) => {
                    let event = match record {
                        Ok(raw) => convert_event(raw),
                        Err(_) => overflow_event(),
                    };
                    if is_marker_removal(&event, &marker) {
                        saw_marker = true;
                    }
                    proof {
                        lemma_apply_events_snoc(m0, evs, event@);
                        lemma_apply_event_rescan(apply_events(m0, evs), event@);
                    }
                    self.recon.apply(&event);
                    proof {
                        evs = evs.push(event@);
                    }
                },
                Err(e) => {
                    if matches!(e, ProcessError::Disconnected) {
                        self.disconnected = true;
                    }
                    self.drain_ok = false;
                    proof {
                        assert(self@.sets == apply_events(old(self)@.sets, evs));
                    }
                    return Err(e);
                },
            }
        }
        if !saw_marker {
            // the budget ran out with the marker unseen: more records than
            // fit in a u64 cannot really arrive, but give up conservatively
            let overflow = overflow_event();
            proof {
                lemma_apply_events_snoc(m0, evs, overflow@);
                lemma_apply_event_rescan(apply_events(m0, evs), overflow@);
            }
            self.recon.apply(&overflow);
            proof {
                evs = evs.push(overflow@);
            }
        }
        self.drain_ok = true;
        proof {
            assert(self@.sets == apply_events(old(self)@.sets, evs));
        }
        Ok(())
    }

    /// Drains best-effort (a failure is swallowed: the caller is discarding
    /// all accumulated state regardless), then forgets everything: the dirty
    /// set, the created-since-mark set, the rescan flag and the last drain's
    /// failure. The tracker lands clean unless the channel is gone.
    pub fn mark_clean(&mut self)
        requires
            old(self).wf(),
        ensures
            final(self).wf(),
            final(self)@.root == old(self)@.root,
            final(self)@.sets == clean_model(),
            final(self)@.drain_ok,
            old(self)@.disconnected ==> final(self)@.disconnected,
            !final(self)@.disconnected ==> tracker_state(final(self)@) == State::Clean,
    {
        let _ = self.process_pending(None);
        self.recon.clear();
        self.drain_ok = true;
    }

    /// Runs the barrier, then answers: Unknown once the drain failed or
    /// notifications were dropped; else Clean or Dirty by whether any path
    /// under the root changed since the last mark-clean.
    pub fn state(&mut self) -> (r: State)
        requires
            old(self).wf(),
        ensures
            final(self).wf(),
            final(self)@.root == old(self)@.root,
            exists|evs: Seq<EventModel>|
                final(self)@.sets == apply_events(old(self)@.sets, evs),
            old(self)@.sets.rescan ==> final(self)@.sets.rescan,
            old(self)@.disconnected ==> final(self)@.disconnected,
            r == tracker_state(final(self)@),
            old(self)@.disconnected ==> r == State::Unknown,
    {
        match self.process_pending(None) {
            Ok(()) => self.recon.state(),
            Err(_) => State::Unknown,
        }
    }

    /// Whether the state is Dirty: some path changed and no loss is
    /// suspected.
    pub fn is_dirty(&mut self) -> (r: bool)
        requires
            old(self).wf(),
        ensures
            final(self).wf(),
            final(self)@.root == old(self)@.root,
            old(self)@.disconnected ==> final(self)@.disconnected,
            r == (tracker_state(final(self)@) == State::Dirty),
    {
        let s = self.state();
        s == State::Dirty
    }

    /// Runs the barrier, then returns the dirty absolute paths, each once
    /// and in no promised order — or None exactly when the state is
    /// Unknown, since the set may then be incomplete.
    pub fn paths(&mut self) -> (r: Option<Vec<String>>)
        requires
            old(self).wf(),
        ensures
            final(self).wf(),
            final(self)@.root == old(self)@.root,
            exists|evs: Seq<EventModel>|
                final(self)@.sets == apply_events(old(self)@.sets, evs),
            old(self)@.sets.rescan ==> final(self)@.sets.rescan,
            old(self)@.disconnected ==> final(self)@.disconnected,
            (r is Some) == (tracker_state(final(self)@) != State::Unknown),
            r matches Some(v) ==> unique(v.deep_view()) && set_of(v.deep_view())
                == final(self)@.sets.dirty,
    {
        match self.process_pending(None) {
            Ok(()) => {
                if self.recon.rescan_needed() {
                    None
                } else {
                    Some(self.recon.dirty_paths())
                }
            },
            Err(_) => None,
        }
    }

    /// Runs the barrier, then returns the dirty paths with the root and its
    /// separator stripped as a prefix (a path not under the root is handed
    /// back whole) — or None exactly when the state is Unknown.
    pub fn relpaths(&mut self) -> (r: Option<Vec<String>>)
        requires
            old(self).wf(),
        ensures
            final(self).wf(),
            final(self)@.root == old(self)@.root,
            exists|evs: Seq<EventModel>|
                final(self)@.sets == apply_events(old(self)@.sets, evs),
            old(self)@.disconnected ==> final(self)@.disconnected,
            (r is Some) == (tracker_state(final(self)@) != State::Unknown),
            r matches Some(v) ==> forall|q: Seq<char>|
                set_of(v.deep_view()).contains(q) <==> exists|p: Seq<char>|
                    #[trigger] final(self)@.sets.dirty.contains(p) && q == rel_of(
                        final(self)@.root,
                        p,
                    ),
    {
        let abs = match self.paths() {
            Some(v) => v,
            None => {
                return None;
            },
        };
        let ghost root = self@.root;
        let ghost dirty = self@.sets.dirty;
        let prefix = self.path.clone().concat("/");
        proof {
            reveal_strlit("/");
            assert(("/")@ =~= seq!['/']);
            assert(prefix@ == root + seq!['/']);
        }
        let mut out: Vec<String> = Vec::new();
        let mut i: usize = 0;
        while i < abs.len()
            invariant
                i <= abs.len(),
                abs.deep_view().len() == abs.len(),
                set_of(abs.deep_view()) == dirty,
                prefix@ == root + seq!['/'],
                out.deep_view().len() == i,
                forall|k: int| 0 <= k < i ==> out.deep_view()[k] == rel_of(
                    root,
                    abs.deep_view()[k],
                ),
            decreases abs.len() - i,
        {
            let ghost d0 = out.deep_view();
            let p = &abs[i];
            let rel = match strip_prefix_string(p, &prefix) {
                Some(s) => {
                    proof {
                        assert(p@ == prefix@ + s@);
                        assert(p@.subrange(0, prefix@.len() as int) =~= prefix@);
                        assert(p@.subrange(prefix@.len() as int, p@.len() as int) =~= s@);
                    }
                    s
                },
                None => p.clone(),
            };
            proof {
                assert(rel@ == rel_of(root, p@));
            }
            out.push(rel);
            proof {
                assert(out.deep_view() =~= d0.push(rel_of(root, abs.deep_view()[i as int])));
            }
            i = i + 1;
        }
        proof {
            let dv = abs.deep_view();
            let rv = out.deep_view();
            assert forall|q: Seq<char>| set_of(rv).contains(q) <==> exists|p: Seq<char>|
                #[trigger] dirty.contains(p) && q == rel_of(root, p) by {
                if rv.contains(q) {
                    let k = choose|k: int| 0 <= k < rv.len() && rv[k] == q;
                    assert(dv.contains(dv[k]));
                    assert(dirty.contains(dv[k]) && q == rel_of(root, dv[k]));
                }
                if exists|p: Seq<char>| #[trigger] dirty.contains(p) && q == rel_of(root, p) {
                    let p = choose|p: Seq<char>| #[trigger] dirty.contains(p) && q == rel_of(
                        root,
                        p,
                    );
                    assert(dv.contains(p));
                    let k = choose|k: int| 0 <= k < dv.len() && dv[k] == p;
                    assert(rv[k] == q);
                    assert(rv.contains(q));
                }
            }
        }
        Some(out)
    }
}

/// Relies on str::strip_prefix: the remainder when the string starts with
/// the given prefix, None otherwise.
#[verifier::external_body]
fn strip_prefix_string(p: &String, prefix: &String) -> (r: Option<String>)
    ensures
        r matches Some(s) ==> p@ == prefix@ + s@,
        r is None ==> !(prefix@.len() <= p@.len() && p@.subrange(0, prefix@.len() as int)
            == prefix@),
{
    p.as_str().strip_prefix(prefix.as_str()).map(|s| s.to_string())
}

} // verus!
