use std::io::Write;

use dirty_tracker::DirtyTracker;
use dirty_tracker::State;

use tempfile::tempdir;
use tempfile::NamedTempFile;

fn sorted(v: Vec<String>) -> Vec<String> {
    let mut v = v;
    v.sort();
    v
}

#[test]
fn test_no_changes() {
    let dir = tempdir().unwrap();
    let mut tracker = DirtyTracker::new(dir.path().to_str().unwrap()).unwrap();
    assert_eq!(tracker.state(), State::Clean);
    assert!(tracker.paths().unwrap().is_empty());

    let state = tracker.state();
    let paths = tracker.paths().unwrap();
    assert_eq!(state, State::Clean);
    assert!(paths.is_empty());

    assert!(tracker.paths().unwrap().is_empty());
    assert_eq!(tracker.state(), State::Clean);
}

#[test]
fn new_fails_on_missing_root() {
    let dir = tempdir().unwrap();
    let missing = format!("{}/not-there", dir.path().to_str().unwrap());
    assert!(DirtyTracker::new(&missing).is_err());
}

#[test]
fn created_file_is_dirty_then_mark_clean() {
    let dir = tempdir().unwrap();
    let mut tracker = DirtyTracker::new(dir.path().to_str().unwrap()).unwrap();
    assert_eq!(tracker.state(), State::Clean);

    let mut file = NamedTempFile::new_in(dir.path()).unwrap();
    file.write_all(b"hello").unwrap();
    let (handle, kept) = file.keep().unwrap();
    drop(handle);
    let kept_str = kept.to_str().unwrap().to_string();

    assert_eq!(tracker.state(), State::Dirty);
    assert_eq!(sorted(tracker.paths().unwrap()), vec![kept_str.clone()]);
    assert!(tracker.is_dirty());

    tracker.mark_clean();
    assert_eq!(tracker.state(), State::Clean);
    assert!(tracker.paths().unwrap().is_empty());
}

#[test]
fn deleting_preexisting_file_is_dirty() {
    let dir = tempdir().unwrap();
    let mut file = NamedTempFile::new_in(dir.path()).unwrap();
    file.write_all(b"hello").unwrap();
    let path = file.path().to_str().unwrap().to_string();

    let mut tracker = DirtyTracker::new(dir.path().to_str().unwrap()).unwrap();
    assert_eq!(tracker.state(), State::Clean);
    assert!(tracker.paths().unwrap().is_empty());

    drop(file);  // removes the file

    assert_eq!(tracker.state(), State::Dirty);
    assert_eq!(sorted(tracker.paths().unwrap()), vec![path]);
}

#[test]
fn create_then_delete_within_window_cancels() {
    let dir = tempdir().unwrap();
    let mut tracker = DirtyTracker::new(dir.path().to_str().unwrap()).unwrap();
    assert_eq!(tracker.state(), State::Clean);

    let mut file = NamedTempFile::new_in(dir.path()).unwrap();
    file.write_all(b"transient").unwrap();
    let path = file.path().to_str().unwrap().to_string();
    drop(file);  // removes the file again, within the same window

    assert_eq!(tracker.state(), State::Clean);
    let paths = tracker.paths().unwrap();
    assert!(!paths.contains(&path));
    assert!(paths.is_empty());
}

#[test]
fn many_created_files_all_reported() {
    let dir = tempdir().unwrap();
    let mut tracker = DirtyTracker::new(dir.path().to_str().unwrap()).unwrap();
    assert_eq!(tracker.state(), State::Clean);

    let mut expected: Vec<String> = Vec::new();
    for _ in 0..100 {
        let mut file = NamedTempFile::new_in(dir.path()).unwrap();
        file.write_all(b"hello").unwrap();
        let (handle, kept) = file.keep().unwrap();
        drop(handle);
        expected.push(kept.to_str().unwrap().to_string());
    }
    expected.sort();

    assert_eq!(tracker.state(), State::Dirty);
    assert_eq!(sorted(tracker.paths().unwrap()), expected);
}

#[test]
fn bounded_drain_completes() {
    let dir = tempdir().unwrap();
    let mut tracker = DirtyTracker::new(dir.path().to_str().unwrap()).unwrap();
    tracker.process_pending(Some(10_000)).unwrap();
    assert_eq!(tracker.state(), State::Clean);
}

#[test]
fn relpaths_strip_the_root() {
    let dir = tempdir().unwrap();
    let mut tracker = DirtyTracker::new(dir.path().to_str().unwrap()).unwrap();

    let mut file = NamedTempFile::new_in(dir.path()).unwrap();
    file.write_all(b"hello").unwrap();
    let (handle, kept) = file.keep().unwrap();
    drop(handle);
    let name = kept.file_name().unwrap().to_str().unwrap().to_string();

    assert_eq!(tracker.state(), State::Dirty);
    assert_eq!(sorted(tracker.relpaths().unwrap()), vec![name]);
}
