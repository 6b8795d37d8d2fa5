//! The reconciler: a pure state reduction over the dirty-path set.
//!
//! One notification at a time is folded into two sets of absolute paths —
//! the paths believed dirty, and the subset whose creation was itself
//! observed since the last mark-clean — plus a sticky rescan flag. The
//! only cancellation rule: a path that is created and later removed, both
//! within the same tracking window, never counts as dirty.

use vstd::prelude::*;

use crate::events::ChangeEvent;
use crate::events::ChangeKind;
use crate::events::EventModel;
use crate::State;

verus! {

/// The mathematical state of the reconciler.
#[verifier::ext_equal]
pub struct ReconcilerModel {
    /// Paths believed created, modified or removed since the last mark-clean.
    pub dirty: Set<Seq<char>>,
    /// Paths whose creation was itself observed since the last mark-clean.
    pub created: Set<Seq<char>>,
    /// Notifications were dropped; the sets may be incomplete.
    pub rescan: bool,
}

/// The state immediately after construction or mark-clean.
pub open spec fn clean_model() -> ReconcilerModel {
    ReconcilerModel { dirty: Set::empty(), created: Set::empty(), rescan: false }
}

/// How one path of a notification changes the sets.
pub open spec fn apply_path(m: ReconcilerModel, kind: ChangeKind, p: Seq<char>) -> ReconcilerModel {
    match kind {
        ChangeKind::Create => ReconcilerModel {
            dirty: m.dirty.insert(p),
            created: m.created.insert(p),
            ..m
        },
        ChangeKind::Modify => ReconcilerModel { dirty: m.dirty.insert(p), ..m },
        ChangeKind::Remove => if m.created.contains(p) {
            ReconcilerModel { dirty: m.dirty.remove(p), created: m.created.remove(p), ..m }
        } else {
            ReconcilerModel { dirty: m.dirty.insert(p), ..m }
        },
        ChangeKind::Other => m,
    }
}

/// The paths of one notification, folded in order.
pub open spec fn apply_paths(
    m: ReconcilerModel,
    kind: ChangeKind,
    paths: Seq<Seq<char>>,
) -> ReconcilerModel
    decreases paths.len(),
{
    if paths.len() == 0 {
        m
    } else {
        apply_path(apply_paths(m, kind, paths.drop_last()), kind, paths.last())
    }
}

/// One whole notification: the rescan flag sticks, then every path is folded.
pub open spec fn apply_event(m: ReconcilerModel, e: EventModel) -> ReconcilerModel {
    apply_paths(ReconcilerModel { rescan: m.rescan || e.rescan, ..m }, e.kind, e.paths)
}

/// A sequence of notifications, folded in order.
pub open spec fn apply_events(m: ReconcilerModel, evs: Seq<EventModel>) -> ReconcilerModel
    decreases evs.len(),
{
    if evs.len() == 0 {
        m
    } else {
        apply_event(apply_events(m, evs.drop_last()), evs.last())
    }
}

/// The state derived from the sets alone: Unknown once notifications were
/// dropped, else Clean or Dirty by emptiness of the dirty set.
pub open spec fn model_state(m: ReconcilerModel) -> State {
    if m.rescan {
        State::Unknown
    } else if m.dirty.is_empty() {
        State::Clean
    } else {
        State::Dirty
    }
}

/// The set of character sequences a sequence holds.
pub open spec fn set_of(s: Seq<Seq<char>>) -> Set<Seq<char>> {
    Set::new(|p: Seq<char>| s.contains(p))
}

/// No two entries are the same path.
pub open spec fn unique(s: Seq<Seq<char>>) -> bool {
    forall|i: int, j: int| 0 <= i < j < s.len() ==> s[i] != s[j]
}

proof fn lemma_apply_paths_snoc(
    m: ReconcilerModel,
    kind: ChangeKind,
    paths: Seq<Seq<char>>,
    q: Seq<char>,
)
    ensures
        apply_paths(m, kind, paths.push(q)) == apply_path(apply_paths(m, kind, paths), kind, q),
{
    assert(paths.push(q).drop_last() =~= paths);
    assert(paths.push(q).last() == q);
}

pub proof fn lemma_apply_events_snoc(m: ReconcilerModel, evs: Seq<EventModel>, e: EventModel)
    ensures
        apply_events(m, evs.push(e)) == apply_event(apply_events(m, evs), e),
{
    assert(evs.push(e).drop_last() =~= evs);
    assert(evs.push(e).last() == e);
}

proof fn lemma_apply_paths_keeps_rescan(
    m: ReconcilerModel,
    kind: ChangeKind,
    paths: Seq<Seq<char>>,
)
    ensures
        apply_paths(m, kind, paths).rescan == m.rescan,
    decreases paths.len(),
{
    if paths.len() > 0 {
        lemma_apply_paths_keeps_rescan(m, kind, paths.drop_last());
    }
}

/// One notification leaves the rescan flag set exactly when it already was,
/// or the notification itself reports loss.
pub proof fn lemma_apply_event_rescan(m: ReconcilerModel, e: EventModel)
    ensures
        apply_event(m, e).rescan == (m.rescan || e.rescan),
{
    lemma_apply_paths_keeps_rescan(
        ReconcilerModel { rescan: m.rescan || e.rescan, ..m },
        e.kind,
        e.paths,
    );
}

/// Whether a path stands in the vector, by character-sequence equality.
pub(crate) fn vec_contains(v: &Vec<String>, p: &String) -> (r: bool)
    ensures
        r == v.deep_view().contains(p@),
{
    let mut i: usize = 0;
    while i < v.len()
        invariant
            i <= v.len(),
            forall|k: int| 0 <= k < i ==> v.deep_view()[k] != p@,
        decreases v.len() - i,
    {
        if v[i] == *p {
            assert(v.deep_view()[i as int] == p@);
            return true;
        }
        i = i + 1;
    }
    false
}

/// The index of a path in the vector, if it stands there.
fn vec_index_of(v: &Vec<String>, p: &String) -> (r: Option<usize>)
    ensures
        r matches Some(i) ==> i < v.len() && v.deep_view()[i as int] == p@,
        r is None ==> !v.deep_view().contains(p@),
{
    let mut i: usize = 0;
    while i < v.len()
        invariant
            i <= v.len(),
            forall|k: int| 0 <= k < i ==> v.deep_view()[k] != p@,
        decreases v.len() - i,
    {
        if v[i] == *p {
            return Some(i);
        }
        i = i + 1;
    }
    None
}

/// Inserts a path, keeping entries unique: the vector as a set grows by it.
pub(crate) fn vec_set_insert(v: &mut Vec<String>, p: String)
    requires
        unique(old(v).deep_view()),
    ensures
        unique(final(v).deep_view()),
        set_of(final(v).deep_view()) == set_of(old(v).deep_view()).insert(p@),
{
    let ghost d0 = v.deep_view();
    let ghost pv = p@;
    if !vec_contains(v, &p) {
        v.push(p);
        proof {
            let d1 = v.deep_view();
            assert(d1 =~= d0.push(pv));
            assert forall|a: int, b: int| 0 <= a < b < d1.len() implies d1[a] != d1[b] by {
                if b == d0.len() {
                    if d1[a] == pv {
                        assert(d0[a] == pv);
                        assert(d0.contains(pv));
                    }
                }
            }
            assert forall|q: Seq<char>| set_of(d1).contains(q)
                <==> set_of(d0).insert(pv).contains(q) by {
                if d1.contains(q) {
                    let i = choose|i: int| 0 <= i < d1.len() && d1[i] == q;
                    if i < d0.len() {
                        assert(d0.contains(q));
                    }
                }
                if d0.contains(q) {
                    let i = choose|i: int| 0 <= i < d0.len() && d0[i] == q;
                    assert(d1[i] == q);
                }
                if q == pv {
                    assert(d1[d0.len() as int] == q);
                }
            }
            assert(set_of(d1) =~= set_of(d0).insert(pv));
        }
    } else {
        proof {
            assert(set_of(v.deep_view()) =~= set_of(d0).insert(pv));
        }
    }
}

/// Removes a path if it stands there: the vector as a set shrinks by it.
pub(crate) fn vec_set_remove(v: &mut Vec<String>, p: &String)
    requires
        unique(old(v).deep_view()),
    ensures
        unique(final(v).deep_view()),
        set_of(final(v).deep_view()) == set_of(old(v).deep_view()).remove(p@),
{
    let ghost d0 = v.deep_view();
    match vec_index_of(v, p) {
        Some(i) => {
            let ghost ii = i as int;
            v.swap_remove(i);
            proof {
                let d1 = v.deep_view();
                assert forall|k: int| 0 <= k < d1.len() implies d1[k] == (if k == ii {
                    d0.last()
                } else {
                    d0[k]
                }) by {
                    assert(v@[k] == old(v)@.update(ii, old(v)@.last()).drop_last()[k]);
                }
                assert forall|q: Seq<char>| set_of(d1).contains(q)
                    <==> set_of(d0).remove(p@).contains(q) by {
                    if d1.contains(q) {
                        let k = choose|k: int| 0 <= k < d1.len() && d1[k] == q;
                        if k == ii {
                            assert(d0[d0.len() - 1] == q);
                            assert(d0.contains(q));
                        } else {
                            assert(d0.contains(q));
                        }
                        assert(q != p@);
                    }
                    if d0.contains(q) && q != p@ {
                        let k = choose|k: int| 0 <= k < d0.len() && d0[k] == q;
                        if k == ii {
                            assert(q == p@);
                        } else if k == d0.len() - 1 {
                            if ii < d1.len() {
                                assert(d1[ii] == q);
                            } else {
                                assert(ii == d0.len() - 1);
                            }
                        } else {
                            assert(d1[k] == q);
                        }
                    }
                }
                assert(set_of(d1) =~= set_of(d0).remove(p@));
                assert forall|a: int, b: int| 0 <= a < b < d1.len() implies d1[a] != d1[b] by {
                    assert(d1[a] == (if a == ii { d0.last() } else { d0[a] }));
                    assert(d1[b] == (if b == ii { d0.last() } else { d0[b] }));
                }
            }
        },
        None => {
            proof {
                assert(set_of(v.deep_view()) =~= set_of(d0).remove(p@));
            }
        },
    }
}

/// Owns the dirty and created-since-mark sets and the rescan flag, and
/// folds notifications into them.
pub struct Reconciler {
    paths: Vec<String>,
    created: Vec<String>,
    need_rescan: bool,
}

impl View for Reconciler {
    type V = ReconcilerModel;

    closed spec fn view(&self) -> ReconcilerModel {
        ReconcilerModel {
            dirty: set_of(self.paths.deep_view()),
            created: set_of(self.created.deep_view()),
            rescan: self.need_rescan,
        }
    }
}

impl Reconciler {
    /// Both vectors hold each path once, and every created path is dirty.
    pub closed spec fn wf(&self) -> bool {
        &&& unique(self.paths.deep_view())
        &&& unique(self.created.deep_view())
        &&& self@.created.subset_of(self@.dirty)
    }

    /// A reconciler with nothing dirty and nothing suspected lost.
    pub fn new() -> (r: Reconciler)
        ensures
            r.wf(),
            r@ == clean_model(),
    {
        let r = Reconciler { paths: Vec::new(), created: Vec::new(), need_rescan: false };
        proof {
            assert(r@.dirty =~= Set::<Seq<char>>::empty());
            assert(r@.created =~= Set::<Seq<char>>::empty());
        }
        r
    }

    /// Forgets everything: dirty set, created set and rescan flag.
    pub fn clear(&mut self)
        ensures
            final(self).wf(),
            final(self)@ == clean_model(),
    {
        self.paths = Vec::new();
        self.created = Vec::new();
        self.need_rescan = false;
        proof {
            assert(self@.dirty =~= Set::<Seq<char>>::empty());
            assert(self@.created =~= Set::<Seq<char>>::empty());
        }
    }

    fn apply_one_path(&mut self, kind: ChangeKind, path: &String)
        requires
            old(self).wf(),
        ensures
            final(self).wf(),
            final(self)@ == apply_path(old(self)@, kind, path@),
    {
        match kind {
            ChangeKind::Create => {
                vec_set_insert(&mut self.created, path.clone());
                vec_set_insert(&mut self.paths, path.clone());
            },
            ChangeKind::Modify => {
                vec_set_insert(&mut self.paths, path.clone());
            },
            ChangeKind::Remove => {
                if vec_contains(&self.created, path) {
                    vec_set_remove(&mut self.paths, path);
                    vec_set_remove(&mut self.created, path);
                } else {
                    vec_set_insert(&mut self.paths, path.clone());
                }
            },
            ChangeKind::Other => {},
        }
    }

    /// Folds one notification into the sets, by the fixed rules: the rescan
    /// flag sticks; Create adds the path to both sets; Modify adds it to the
    /// dirty set; Remove cancels a creation observed in the same window and
    /// otherwise dirties the path; anything else moves no path.
    pub fn apply(&mut self, event: &ChangeEvent)
        requires
            old(self).wf(),
        ensures
            final(self).wf(),
            final(self)@ == apply_event(old(self)@, event@),
    {
        if event.need_rescan {
            self.need_rescan = true;
        }
        let ghost m1 = self@;
        assert(m1 == ReconcilerModel {
            rescan: old(self)@.rescan || event@.rescan,
            ..old(self)@
        });
        let ghost dv = event.paths.deep_view();
        let mut i: usize = 0;
        while i < event.paths.len()
            invariant
                i <= event.paths.len(),
                dv == event.paths.deep_view(),
                dv.len() == event.paths.len(),
                self.wf(),
                self@ == apply_paths(m1, event.kind, dv.subrange(0, i as int)),
            decreases event.paths.len() - i,
        {
            let ghost pre = dv.subrange(0, i as int);
            self.apply_one_path(event.kind, &event.paths[i]);
            proof {
                assert(dv.subrange(0, i as int + 1) =~= pre.push(dv[i as int]));
                lemma_apply_paths_snoc(m1, event.kind, pre, dv[i as int]);
            }
            i = i + 1;
        }
        proof {
            assert(dv.subrange(0, dv.len() as int) =~= dv);
        }
    }

    /// The derived state of the sets alone: Unknown once notifications were
    /// dropped, else Clean or Dirty by emptiness of the dirty set.
    pub fn state(&self) -> (r: State)
        ensures
            r == model_state(self@),
    {
        if self.need_rescan {
            State::Unknown
        } else if self.paths.len() == 0 {
            proof {
                assert(self@.dirty =~= Set::<Seq<char>>::empty());
            }
            State::Clean
        } else {
            proof {
                assert(self@.dirty.contains(self.paths.deep_view()[0]));
            }
            State::Dirty
        }
    }

    /// Whether notifications were dropped since the last mark-clean.
    pub fn rescan_needed(&self) -> (r: bool)
        ensures
            r == self@.rescan,
    {
        self.need_rescan
    }

    /// The dirty paths, each once, in no promised order.
    pub fn dirty_paths(&self) -> (r: Vec<String>)
        requires
            self.wf(),
        ensures
            unique(r.deep_view()),
            set_of(r.deep_view()) == self@.dirty,
    {
        let r = self.paths.clone();
        proof {
            broadcast use vstd::std_specs::vec::vec_clone_deep_view_proof;

            assert(r.deep_view() =~~= self.paths.deep_view());
        }
        r
    }
}

} // verus!
