//! The event source boundary: the watcher registration, the channel its
//! notifications arrive on, and the marker file of the synchronization
//! barrier. Everything here is a trusted declaration around an outside
//! call; the reconciler and the tracker are verified against these
//! contracts.

use vstd::prelude::*;

use std::sync::mpsc::Receiver;
use std::sync::mpsc::RecvTimeoutError;

use crate::events::ChangeEvent;
use crate::events::ChangeKind;
use crate::ProcessError;
use crate::ResourceError;

verus! {

#[verifier::external_type_specification]
#[verifier::external_body]
pub struct ExWatcher(notify::RecommendedWatcher);

#[verifier::external_type_specification]
#[verifier::external_body]
pub struct ExEvent(notify::Event);

#[verifier::external_type_specification]
#[verifier::external_body]
pub struct ExNotifyError(notify::Error);

#[verifier::external_type_specification]
#[verifier::external_body]
#[verifier::reject_recursive_types(T)]
pub struct ExReceiver<T>(Receiver<T>);

/// Relies on notify::RecommendedWatcher::new and notify::Watcher::watch:
/// registers a recursive watch rooted at the given directory, whose
/// notifications a delivery thread sends to the returned channel.
#[verifier::external_body]
pub(crate) fn watch_root(root: &str) -> (r: Result<
    (notify::RecommendedWatcher, Receiver<notify::Result<notify::Event>>),
    notify::Error,
>) {
    let (tx, rx) = std::sync::mpsc::channel();
    let mut watcher: notify::RecommendedWatcher = notify::Watcher::new(
        tx,
        notify::Config::default(),
    )?;
    notify::Watcher::watch(
        &mut watcher,
        std::path::Path::new(root),
        notify::RecursiveMode::Recursive,
    )?;
    Ok((watcher, rx))
}

/// Relies on std::sync::mpsc::Receiver::recv: blocks until the delivery
/// thread sends the next record, and fails only once the channel has
/// disconnected.
#[verifier::external_body]
pub(crate) fn recv_next(rx: &Receiver<notify::Result<notify::Event>>) -> (r: Result<
    notify::Result<notify::Event>,
    ProcessError,
>)
    ensures
        r matches Err(e) ==> e == ProcessError::Disconnected,
{
    rx.recv().map_err(|_| ProcessError::Disconnected)
}

/// Relies on std::sync::mpsc::Receiver::recv_timeout: like recv, but gives
/// up once the bound, in milliseconds, passes with nothing arriving.
#[verifier::external_body]
pub(crate) fn recv_next_timeout(
    rx: &Receiver<notify::Result<notify::Event>>,
    timeout_ms: u64,
) -> (r: Result<notify::Result<notify::Event>, ProcessError>)
    ensures
        r matches Err(e) ==> e == ProcessError::Timeout(timeout_ms) || e
            == ProcessError::Disconnected,
{
    match rx.recv_timeout(core::time::Duration::from_millis(timeout_ms)) {
        Ok(record) => Ok(record),
        Err(RecvTimeoutError::Timeout) => Err(ProcessError::Timeout(timeout_ms)),
        Err(RecvTimeoutError::Disconnected) => Err(ProcessError::Disconnected),
    }
}

/// Relies on notify::Event::need_rescan and on the event's public kind and
/// paths fields: carries the record over into plain values, one for one.
/// Kinds beyond create, modify and remove move no path.
#[verifier::external_body]
pub(crate) fn convert_event(event: notify::Event) -> (r: ChangeEvent) {
    let kind = match event.kind {
        notify::EventKind::Create(_) => ChangeKind::Create,
        notify::EventKind::Modify(_) => ChangeKind::Modify,
        notify::EventKind::Remove(_) => ChangeKind::Remove,
        _ => ChangeKind::Other,
    };
    let need_rescan = event.need_rescan();
    let paths = event.paths.iter().map(|p| p.to_string_lossy().into_owned()).collect();
    ChangeEvent { kind, paths, need_rescan }
}

/// Relies on tempfile::NamedTempFile::new_in: creates a uniquely named file
/// directly under the given directory and removes it again when the handle
/// drops, so that a removal notification for the returned path is enqueued
/// after every notification for earlier activity under the root.
#[verifier::external_body]
pub(crate) fn place_marker(root: &String) -> (r: Result<String, ResourceError>) {
    match tempfile::NamedTempFile::new_in(root) {
        Ok(file) => {
            let marker = file.path().to_string_lossy().into_owned();
            drop(file);
            Ok(marker)
        },
        Err(_) => Err(ResourceError),
    }
}

} // verus!
