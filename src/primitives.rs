//! The outside types the watch table holds, and the calls it makes on them.

use crate::events::DirectoryWatchEvent;
use tokio::sync::mpsc::error::TrySendError;
use vstd::prelude::*;

verus! {

/// A kernel watch descriptor, as nix hands it out.
#[verifier::external_type_specification]
#[verifier::external_body]
pub struct ExWatchDescriptor(nix::sys::inotify::WatchDescriptor);

/// The sending half of a one-shot channel.
#[verifier::external_type_specification]
#[verifier::external_body]
#[verifier::reject_recursive_types(T)]
pub struct ExOnceSender<T>(tokio::sync::oneshot::Sender<T>);

/// The sending half of a bounded channel.
#[verifier::external_type_specification]
#[verifier::external_body]
#[verifier::reject_recursive_types(T)]
pub struct ExStreamSender<T>(tokio::sync::mpsc::Sender<T>);

/// The receiving half of a one-shot channel.
#[verifier::external_type_specification]
#[verifier::external_body]
#[verifier::reject_recursive_types(T)]
pub struct ExOnceReceiver<T>(tokio::sync::oneshot::Receiver<T>);

/// The receiving half of a bounded channel.
#[verifier::external_type_specification]
#[verifier::external_body]
#[verifier::reject_recursive_types(T)]
pub struct ExStreamReceiver<T>(tokio::sync::mpsc::Receiver<T>);

/// The error a one-shot receiver yields when its sender is dropped.
#[verifier::external_type_specification]
#[verifier::external_body]
pub struct ExRecvError(tokio::sync::oneshot::error::RecvError);

/// Relies on tokio's `Clone` for `mpsc::Sender`: another handle on the same
/// channel.
pub assume_specification<T>[ <tokio::sync::mpsc::Sender<T> as core::clone::Clone>::clone ](
    tx: &tokio::sync::mpsc::Sender<T>,
) -> tokio::sync::mpsc::Sender<T>;

/// The largest buffer tokio's bounded channels accept.
pub const MAX_BUFFER: usize = usize::MAX >> 3;

/// Relies on nix's derived equality of watch descriptors, which compares
/// the one integer a descriptor holds.
pub assume_specification[ <nix::sys::inotify::WatchDescriptor as core::cmp::PartialEq>::eq ](
    a: &nix::sys::inotify::WatchDescriptor,
    b: &nix::sys::inotify::WatchDescriptor,
) -> (r: bool)
    ensures
        r == (*a == *b),
;

/// What became of an attempt to hand an event to a subscriber.
#[derive(Debug, Clone, Copy, PartialEq, Eq, Structural)]
pub enum SendOutcome {
    /// The event was handed over.
    Sent,
    /// The subscriber's buffer was full: the event is lost to it.
    Full,
    /// The receiving side is gone for good.
    Closed,
}

/// Relies on tokio's `oneshot::Sender::send`, which fails only when the
/// receiver has been dropped; it never reports a full buffer.
#[verifier::external_body]
pub(crate) fn send_once(
    tx: tokio::sync::oneshot::Sender<DirectoryWatchEvent>,
    event: DirectoryWatchEvent,
) -> (r: SendOutcome)
    ensures
        r != SendOutcome::Full,
{
    match tx.send(event) {
        Ok(()) => SendOutcome::Sent,
        Err(_) => SendOutcome::Closed,
    }
}

/// Relies on tokio's `mpsc::Sender::try_send`, which does not wait: the
/// buffer may be full, or the receiver gone.
#[verifier::external_body]
pub(crate) fn offer(
    tx: &tokio::sync::mpsc::Sender<DirectoryWatchEvent>,
    event: DirectoryWatchEvent,
) -> (r: SendOutcome) {
    match tx.try_send(event) {
        Ok(()) => SendOutcome::Sent,
        Err(TrySendError::Full(_)) => SendOutcome::Full,
        Err(TrySendError::Closed(_)) => SendOutcome::Closed,
    }
}

/// Relies on tokio's `oneshot::Sender::is_closed`: whether the receiver
/// has been dropped.
#[verifier::external_body]
pub(crate) fn once_closed(tx: &tokio::sync::oneshot::Sender<DirectoryWatchEvent>) -> (r: bool) {
    tx.is_closed()
}

/// Relies on tokio's `mpsc::Sender::is_closed`: whether the receiver has
/// been dropped or closed.
#[verifier::external_body]
pub(crate) fn stream_closed(tx: &tokio::sync::mpsc::Sender<DirectoryWatchEvent>) -> (r: bool) {
    tx.is_closed()
}

/// Relies on tokio's `oneshot::channel`, which cannot fail.
#[verifier::external_body]
pub(crate) fn once_channel() -> (r: (
    tokio::sync::oneshot::Sender<DirectoryWatchEvent>,
    tokio::sync::oneshot::Receiver<DirectoryWatchEvent>,
)) {
    tokio::sync::oneshot::channel()
}

/// Relies on tokio's `mpsc::channel`, which panics on a buffer of zero or
/// above its permit limit, and otherwise cannot fail.
#[verifier::external_body]
pub(crate) fn stream_channel(buffer: usize) -> (r: (
    tokio::sync::mpsc::Sender<DirectoryWatchEvent>,
    tokio::sync::mpsc::Receiver<DirectoryWatchEvent>,
))
    requires
        0 < buffer <= MAX_BUFFER,
{
    tokio::sync::mpsc::channel(buffer)
}

/// Relies on tokio's `mpsc::Sender::try_send` for the request channel:
/// `false` where the buffer is full or the receiving task is gone.
#[verifier::external_body]
pub(crate) fn submit(
    tx: &tokio::sync::mpsc::Sender<crate::table::WatchRequestInner>,
    request: crate::table::WatchRequestInner,
) -> (r: bool) {
    tx.try_send(request).is_ok()
}

} // verus!
