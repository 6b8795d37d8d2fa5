use dirty_tracker::ChangeEvent;
use dirty_tracker::ChangeKind;
use dirty_tracker::Reconciler;
use dirty_tracker::State;

fn event(kind: ChangeKind, paths: &[&str]) -> ChangeEvent {
    ChangeEvent {
        kind,
        paths: paths.iter().map(|p| p.to_string()).collect(),
        need_rescan: false,
    }
}

fn sorted_paths(r: &Reconciler) -> Vec<String> {
    let mut v = r.dirty_paths();
    v.sort();
    v
}

#[test]
fn cancellation_law_concrete() {
    // create a, modify a, remove a cancels; modify b stays
    let mut r = Reconciler::new();
    r.apply(&event(ChangeKind::Create, &["/r/a"]));
    r.apply(&event(ChangeKind::Modify, &["/r/a"]));
    r.apply(&event(ChangeKind::Modify, &["/r/b"]));
    r.apply(&event(ChangeKind::Remove, &["/r/a"]));
    assert_eq!(sorted_paths(&r), vec!["/r/b".to_string()]);
    assert_eq!(r.state(), State::Dirty);
}

#[test]
fn queries_idempotent() {
    let mut r = Reconciler::new();
    r.apply(&event(ChangeKind::Modify, &["/r/a"]));
    let s1 = r.state();
    let p1 = sorted_paths(&r);
    let s2 = r.state();
    let p2 = sorted_paths(&r);
    assert_eq!(s1, s2);
    assert_eq!(p1, p2);
}

#[test]
fn marker_window_invisible_concrete() {
    // a fresh path created, modified and removed in one window leaves the
    // sets exactly as they were
    let mut r = Reconciler::new();
    r.apply(&event(ChangeKind::Modify, &["/r/b"]));
    let before = sorted_paths(&r);
    r.apply(&event(ChangeKind::Create, &["/r/.marker"]));
    r.apply(&event(ChangeKind::Modify, &["/r/.marker"]));
    r.apply(&event(ChangeKind::Remove, &["/r/.marker"]));
    assert_eq!(sorted_paths(&r), before);
    assert_eq!(r.state(), State::Dirty);
}

#[test]
fn rename_dirties_both_names() {
    // a rename of a pre-existing file arrives as remove(from), create(to)
    let mut r = Reconciler::new();
    r.apply(&event(ChangeKind::Remove, &["/r/from"]));
    r.apply(&event(ChangeKind::Create, &["/r/to"]));
    assert_eq!(
        sorted_paths(&r),
        vec!["/r/from".to_string(), "/r/to".to_string()]
    );
    assert_eq!(r.state(), State::Dirty);
}

#[test]
fn create_then_delete_never_dirty() {
    let mut r = Reconciler::new();
    r.apply(&event(ChangeKind::Create, &["/r/tmp"]));
    r.apply(&event(ChangeKind::Remove, &["/r/tmp"]));
    assert!(r.dirty_paths().is_empty());
    assert_eq!(r.state(), State::Clean);
}

#[test]
fn remove_preexisting_is_dirty() {
    let mut r = Reconciler::new();
    r.apply(&event(ChangeKind::Remove, &["/r/file"]));
    assert_eq!(sorted_paths(&r), vec!["/r/file".to_string()]);
    assert_eq!(r.state(), State::Dirty);
}

#[test]
fn hundred_creations_all_dirty() {
    let mut r = Reconciler::new();
    let mut expected: Vec<String> = Vec::new();
    for i in 0..100 {
        let p = format!("/r/file{}", i);
        r.apply(&event(ChangeKind::Create, &[&p]));
        expected.push(p);
    }
    expected.sort();
    assert_eq!(sorted_paths(&r), expected);
    assert_eq!(r.state(), State::Dirty);
}

#[test]
fn repeated_touches_count_once() {
    let mut r = Reconciler::new();
    r.apply(&event(ChangeKind::Create, &["/r/a"]));
    r.apply(&event(ChangeKind::Create, &["/r/a"]));
    r.apply(&event(ChangeKind::Modify, &["/r/a", "/r/a"]));
    assert_eq!(sorted_paths(&r), vec!["/r/a".to_string()]);
}

#[test]
fn overflow_is_sticky_unknown() {
    let mut r = Reconciler::new();
    assert_eq!(r.state(), State::Clean);
    r.apply(&ChangeEvent { kind: ChangeKind::Other, paths: Vec::new(), need_rescan: true });
    assert_eq!(r.state(), State::Unknown);
    // later activity does not lift the suspicion
    r.apply(&event(ChangeKind::Modify, &["/r/a"]));
    assert_eq!(r.state(), State::Unknown);
    // only a full reset does
    r.clear();
    assert_eq!(r.state(), State::Clean);
    assert!(r.dirty_paths().is_empty());
}

#[test]
fn other_kinds_move_no_path() {
    let mut r = Reconciler::new();
    r.apply(&event(ChangeKind::Other, &["/r/a"]));
    assert!(r.dirty_paths().is_empty());
    assert_eq!(r.state(), State::Clean);
}
