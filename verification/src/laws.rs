//! Laws of the reconciler, proved once and for all: a path's standing in
//! the sets is decided by the replay of its own occurrences alone, and the
//! cancellation and stickiness rules follow.

use vstd::prelude::*;

use crate::events::single_event;
use crate::events::ChangeKind;
use crate::events::EventModel;
use crate::reconciler::apply_event;
use crate::reconciler::apply_events;
use crate::reconciler::apply_path;
use crate::reconciler::apply_paths;
use crate::reconciler::clean_model;
use crate::reconciler::lemma_apply_event_rescan;
use crate::reconciler::ReconcilerModel;

verus! {

/// A path's standing in the two sets: dirty, and created since mark-clean.
pub open spec fn mem_of(m: ReconcilerModel, p: Seq<char>) -> (bool, bool) {
    (m.dirty.contains(p), m.created.contains(p))
}

/// How one occurrence of the path moves its standing: a creation marks it
/// dirty and created; a modification marks it dirty; a removal cancels a
/// creation observed in the same window and otherwise marks it dirty.
pub open spec fn touch_step(s: (bool, bool), kind: ChangeKind) -> (bool, bool) {
    match kind {
        ChangeKind::Create => (true, true),
        ChangeKind::Modify => (true, s.1),
        ChangeKind::Remove => if s.1 {
            (false, false)
        } else {
            (true, false)
        },
        ChangeKind::Other => s,
    }
}

/// The path's standing after its occurrences in one notification's paths.
pub open spec fn touch_paths(
    s: (bool, bool),
    kind: ChangeKind,
    paths: Seq<Seq<char>>,
    p: Seq<char>,
) -> (bool, bool)
    decreases paths.len(),
{
    if paths.len() == 0 {
        s
    } else {
        let s1 = touch_paths(s, kind, paths.drop_last(), p);
        if paths.last() == p {
            touch_step(s1, kind)
        } else {
            s1
        }
    }
}

/// The path's standing after a whole window of notifications.
pub open spec fn touch_events(s: (bool, bool), evs: Seq<EventModel>, p: Seq<char>) -> (bool, bool)
    decreases evs.len(),
{
    if evs.len() == 0 {
        s
    } else {
        touch_paths(
            touch_events(s, evs.drop_last(), p),
            evs.last().kind,
            evs.last().paths,
            p,
        )
    }
}

proof fn lemma_mem_apply_path(m: ReconcilerModel, kind: ChangeKind, q: Seq<char>, p: Seq<char>)
    ensures
        mem_of(apply_path(m, kind, q), p) == (if q == p {
            touch_step(mem_of(m, p), kind)
        } else {
            mem_of(m, p)
        }),
{
}

proof fn lemma_mem_apply_paths(
    m: ReconcilerModel,
    kind: ChangeKind,
    paths: Seq<Seq<char>>,
    p: Seq<char>,
)
    ensures
        mem_of(apply_paths(m, kind, paths), p) == touch_paths(mem_of(m, p), kind, paths, p),
    decreases paths.len(),
{
    if paths.len() > 0 {
        lemma_mem_apply_paths(m, kind, paths.drop_last(), p);
        lemma_mem_apply_path(apply_paths(m, kind, paths.drop_last()), kind, paths.last(), p);
    }
}

proof fn lemma_mem_apply_event(m: ReconcilerModel, e: EventModel, p: Seq<char>)
    ensures
        mem_of(apply_event(m, e), p) == touch_paths(mem_of(m, p), e.kind, e.paths, p),
{
    lemma_mem_apply_paths(
        ReconcilerModel { rescan: m.rescan || e.rescan, ..m },
        e.kind,
        e.paths,
        p,
    );
}

/// The locality half of the cancellation law: after reconciling any window
/// of notifications, a path's standing in the dirty and created-since-mark
/// sets is exactly the replay of its own occurrences by `touch_step` —
/// notifications for other paths never move it. So the dirty set equals
/// the touched paths minus those whose replay ends clean, which are
/// exactly the paths created and then removed within the window.
pub proof fn lemma_membership_local(m: ReconcilerModel, evs: Seq<EventModel>, p: Seq<char>)
    ensures
        mem_of(apply_events(m, evs), p) == touch_events(mem_of(m, p), evs, p),
    decreases evs.len(),
{
    if evs.len() > 0 {
        lemma_membership_local(m, evs.drop_last(), p);
        lemma_mem_apply_event(apply_events(m, evs.drop_last()), evs.last(), p);
    }
}

proof fn lemma_touch_paths_absent(
    s: (bool, bool),
    kind: ChangeKind,
    paths: Seq<Seq<char>>,
    p: Seq<char>,
)
    requires
        !paths.contains(p),
    ensures
        touch_paths(s, kind, paths, p) == s,
    decreases paths.len(),
{
    if paths.len() > 0 {
        assert(paths.last() != p);
        assert forall|k: int| 0 <= k < paths.drop_last().len() implies paths.drop_last()[k]
            != p by {
            assert(paths[k] == paths.drop_last()[k]);
        }
        assert(!paths.drop_last().contains(p));
        lemma_touch_paths_absent(s, kind, paths.drop_last(), p);
    }
}

/// A path no notification in the window mentions keeps its standing.
pub proof fn lemma_untouched_path_keeps(m: ReconcilerModel, evs: Seq<EventModel>, p: Seq<char>)
    requires
        forall|i: int| 0 <= i < evs.len() ==> !(#[trigger] evs[i]).paths.contains(p),
    ensures
        mem_of(apply_events(m, evs), p) == mem_of(m, p),
    decreases evs.len(),
{
    if evs.len() > 0 {
        assert forall|i: int| 0 <= i < evs.drop_last().len() implies !(#[trigger] evs.drop_last()[
            i
        ]).paths.contains(p) by {
            assert(evs.drop_last()[i] == evs[i]);
        }
        lemma_untouched_path_keeps(m, evs.drop_last(), p);
        lemma_mem_apply_event(apply_events(m, evs.drop_last()), evs.last(), p);
        assert(evs[evs.len() - 1] == evs.last());
        lemma_touch_paths_absent(mem_of(m, p), evs.last().kind, evs.last().paths, p);
    }
}

proof fn lemma_apply_event_single(m: ReconcilerModel, kind: ChangeKind, p: Seq<char>)
    ensures
        apply_event(m, single_event(kind, p)) == apply_path(m, kind, p),
{
    let e = single_event(kind, p);
    let m0 = ReconcilerModel { rescan: m.rescan || e.rescan, ..m };
    assert(m0 == m);
    assert(e.paths.drop_last().len() == 0);
    assert(apply_paths(m0, kind, e.paths.drop_last()) == m0);
    assert(e.paths.last() == p);
    assert(apply_paths(m0, kind, e.paths) == apply_path(m0, kind, p));
}

proof fn lemma_touch_single(s: (bool, bool), kind: ChangeKind, p: Seq<char>)
    ensures
        touch_paths(s, kind, seq![p], p) == touch_step(s, kind),
{
    assert(seq![p].drop_last().len() == 0);
    assert(touch_paths(s, kind, seq![p].drop_last(), p) == s);
    assert(seq![p].last() == p);
}

proof fn lemma_touch_single_other(s: (bool, bool), kind: ChangeKind, p: Seq<char>, q: Seq<char>)
    requires
        p != q,
    ensures
        touch_paths(s, kind, seq![p], q) == s,
{
    assert(seq![p].drop_last().len() == 0);
    assert(touch_paths(s, kind, seq![p].drop_last(), q) == s);
    assert(seq![p].last() == p);
}

/// The other half of the cancellation law: starting from a clean state, a
/// path no notification of the window mentions is not dirty afterwards —
/// the dirty set holds touched paths only.
pub proof fn lemma_untouched_never_dirty(evs: Seq<EventModel>, p: Seq<char>)
    requires
        forall|i: int| 0 <= i < evs.len() ==> !(#[trigger] evs[i]).paths.contains(p),
    ensures
        !apply_events(clean_model(), evs).dirty.contains(p),
        !apply_events(clean_model(), evs).created.contains(p),
{
    lemma_untouched_path_keeps(clean_model(), evs, p);
}

/// Create/delete cancellation: a path with no prior standing whose creation
/// is observed, and which is removed later in the same window with no other
/// notification naming it in between, ends with no mention in either set.
pub proof fn lemma_create_then_remove_cancels(
    m: ReconcilerModel,
    mid: Seq<EventModel>,
    p: Seq<char>,
)
    requires
        !m.dirty.contains(p),
        !m.created.contains(p),
        forall|i: int| 0 <= i < mid.len() ==> !(#[trigger] mid[i]).paths.contains(p),
    ensures
        ({
            let m1 = apply_event(m, single_event(ChangeKind::Create, p));
            let m2 = apply_events(m1, mid);
            let m3 = apply_event(m2, single_event(ChangeKind::Remove, p));
            !m3.dirty.contains(p) && !m3.created.contains(p)
        }),
{
    let m1 = apply_event(m, single_event(ChangeKind::Create, p));
    let m2 = apply_events(m1, mid);
    lemma_mem_apply_event(m, single_event(ChangeKind::Create, p), p);
    lemma_touch_single(mem_of(m, p), ChangeKind::Create, p);
    assert(mem_of(m1, p) == (true, true));
    lemma_untouched_path_keeps(m1, mid, p);
    lemma_mem_apply_event(m2, single_event(ChangeKind::Remove, p), p);
    lemma_touch_single(mem_of(m2, p), ChangeKind::Remove, p);
}

/// Renaming a pre-existing path — a removal of the vacated name followed by
/// a creation of the new one — leaves both names dirty.
pub proof fn lemma_rename_dirties(m: ReconcilerModel, from: Seq<char>, to: Seq<char>)
    requires
        !m.created.contains(from),
    ensures
        ({
            let m1 = apply_event(m, single_event(ChangeKind::Remove, from));
            let m2 = apply_event(m1, single_event(ChangeKind::Create, to));
            m2.dirty.contains(from) && m2.dirty.contains(to)
        }),
{
    let m1 = apply_event(m, single_event(ChangeKind::Remove, from));
    lemma_mem_apply_event(m, single_event(ChangeKind::Remove, from), from);
    lemma_touch_single(mem_of(m, from), ChangeKind::Remove, from);
    assert(mem_of(m1, from) == (true, false));
    lemma_mem_apply_event(m1, single_event(ChangeKind::Create, to), to);
    lemma_touch_single(mem_of(m1, to), ChangeKind::Create, to);
    if from != to {
        lemma_mem_apply_event(m1, single_event(ChangeKind::Create, to), from);
        lemma_touch_single_other(mem_of(m1, from), ChangeKind::Create, to, from);
    }
}

/// The barrier's marker is invisible: its own creation, an optional
/// modification, and its removal, reconciled in order against a state that
/// never held the marker, give that state back unchanged. Hence repeated
/// queries with no intervening filesystem activity agree with each other.
pub proof fn lemma_marker_window_invisible(m: ReconcilerModel, p: Seq<char>)
    requires
        !m.dirty.contains(p),
        !m.created.contains(p),
    ensures
        apply_event(
            apply_event(m, single_event(ChangeKind::Create, p)),
            single_event(ChangeKind::Remove, p),
        ) == m,
        apply_event(
            apply_event(
                apply_event(m, single_event(ChangeKind::Create, p)),
                single_event(ChangeKind::Modify, p),
            ),
            single_event(ChangeKind::Remove, p),
        ) == m,
{
    let m1 = apply_event(m, single_event(ChangeKind::Create, p));
    lemma_apply_event_single(m, ChangeKind::Create, p);
    let m2 = apply_event(m1, single_event(ChangeKind::Remove, p));
    lemma_apply_event_single(m1, ChangeKind::Remove, p);
    assert(m2.dirty =~= m.dirty);
    assert(m2.created =~= m.created);
    assert(m2 =~= m);
    let n2 = apply_event(m1, single_event(ChangeKind::Modify, p));
    lemma_apply_event_single(m1, ChangeKind::Modify, p);
    let n3 = apply_event(n2, single_event(ChangeKind::Remove, p));
    lemma_apply_event_single(n2, ChangeKind::Remove, p);
    assert(n3.dirty =~= m.dirty);
    assert(n3.created =~= m.created);
    assert(n3 =~= m);
}

/// Loss is sticky: the rescan flag holds after a window exactly when it
/// held before, or some notification of the window reported dropped
/// records.
pub proof fn lemma_overflow_sticky(m: ReconcilerModel, evs: Seq<EventModel>)
    ensures
        apply_events(m, evs).rescan == (m.rescan || exists|i: int|
            0 <= i < evs.len() && (#[trigger] evs[i]).rescan),
    decreases evs.len(),
{
    if evs.len() > 0 {
        let pre = evs.drop_last();
        lemma_overflow_sticky(m, pre);
        lemma_apply_event_rescan(apply_events(m, pre), evs.last());
        if evs.last().rescan {
            assert(evs[evs.len() - 1].rescan);
        }
        if exists|i: int| 0 <= i < pre.len() && (#[trigger] pre[i]).rescan {
            let i = choose|i: int| 0 <= i < pre.len() && (#[trigger] pre[i]).rescan;
            assert(evs[i].rescan);
        }
        if exists|i: int| 0 <= i < evs.len() && (#[trigger] evs[i]).rescan {
            let i = choose|i: int| 0 <= i < evs.len() && (#[trigger] evs[i]).rescan;
            if i < evs.len() - 1 {
                assert(pre[i].rescan);
            } else {
                assert(evs.last().rescan);
            }
        }
    }
}

proof fn lemma_subset_apply_path(m: ReconcilerModel, kind: ChangeKind, p: Seq<char>)
    requires
        m.created.subset_of(m.dirty),
    ensures
        apply_path(m, kind, p).created.subset_of(apply_path(m, kind, p).dirty),
{
}

proof fn lemma_subset_apply_paths(m: ReconcilerModel, kind: ChangeKind, paths: Seq<Seq<char>>)
    requires
        m.created.subset_of(m.dirty),
    ensures
        apply_paths(m, kind, paths).created.subset_of(apply_paths(m, kind, paths).dirty),
    decreases paths.len(),
{
    if paths.len() > 0 {
        lemma_subset_apply_paths(m, kind, paths.drop_last());
        lemma_subset_apply_path(apply_paths(m, kind, paths.drop_last()), kind, paths.last());
    }
}

/// The standing invariant: every path created since the mark is dirty, and
/// every window of notifications preserves that.
pub proof fn lemma_created_within_dirty(m: ReconcilerModel, evs: Seq<EventModel>)
    requires
        m.created.subset_of(m.dirty),
    ensures
        apply_events(m, evs).created.subset_of(apply_events(m, evs).dirty),
    decreases evs.len(),
{
    if evs.len() > 0 {
        lemma_created_within_dirty(m, evs.drop_last());
        lemma_subset_apply_paths(
            ReconcilerModel {
                rescan: apply_events(m, evs.drop_last()).rescan || evs.last().rescan,
                ..apply_events(m, evs.drop_last())
            },
            evs.last().kind,
            evs.last().paths,
        );
    }
}

} // verus!
