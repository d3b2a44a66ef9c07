//! The caller-facing side: handles to the watcher task and the builders of
//! watch requests.

use crate::events::DirectoryWatchEvent;
use crate::flags::{EventFlag, EventMask, InterestFlag};
use crate::primitives::{once_channel, stream_channel, submit, MAX_BUFFER};
use crate::sealed::Sealed;
use crate::table::{Delivery, WatchRequestInner};
use core::marker::PhantomData;
use tokio::sync::mpsc::Receiver as StreamReceiver;
use tokio::sync::mpsc::Sender as RequestSender;
use tokio::sync::oneshot::Receiver as OnceReceiver;
use vstd::prelude::*;

verus! {

/// A cheaply cloned handle through which callers register watches with the
/// watcher task.
#[derive(Debug)]
pub struct Handle {
    pub(crate) request_tx: RequestSender<WatchRequestInner>,
}

impl Clone for Handle {
    fn clone(&self) -> (r: Handle) {
        Handle { request_tx: self.request_tx.clone() }
    }
}

/// Why a watch request could not be built.
#[derive(Debug, Clone, PartialEq, Eq)]
pub enum RequestError {
    /// There is no file or directory at the path.
    DoesNotExist(String),
    /// The object at the path is not of the kind the watch is for.
    IncorrectType(String),
    /// The path is not valid Unicode, so it cannot be watched under its
    /// name; the name shown has the invalid parts replaced.
    NotUnicode(String),
}

/// Why a watch could not be had.
#[derive(Debug, Clone, Copy, PartialEq, Eq, Structural)]
pub enum WatchError {
    /// The watcher task is gone, or was before the event arrived.
    WatcherShutdown,
}

/// What the filesystem holds at a path.
#[derive(Debug, Clone, Copy, PartialEq, Eq, Structural)]
pub enum PathKind {
    Missing,
    File,
    Directory,
}

/// A kind of watch: on a file, or on a directory and its entries.
pub trait WatchType: Sealed {
    /// Whether watches of this kind report events on directory entries.
    spec fn spec_directory() -> bool;

    /// The delivery buffer of a stream watch of this kind, unless set.
    spec fn spec_default_buffer() -> usize;

    /// Whether watches of this kind report events on directory entries.
    fn directory() -> (r: bool)
        ensures
            r == Self::spec_directory(),
    ;

    /// The delivery buffer of a stream watch of this kind, unless set.
    fn default_buffer() -> (r: usize)
        ensures
            r == Self::spec_default_buffer(),
    ;
}

/// Watches on a single file. The type only marks the kind of a request.
pub enum FileEvents {
    Marker,
}

/// Watches on a directory, reporting events on its entries too. The type
/// only marks the kind of a request.
pub enum DirectoryEvents {
    Marker,
}

impl Sealed for FileEvents {}

impl Sealed for DirectoryEvents {}

/// The default delivery buffer of a file stream.
pub const FILE_DEFAULT_BUFFER: usize = 16;

/// The default delivery buffer of a directory stream: directories see more
/// events.
pub const DIRECTORY_DEFAULT_BUFFER: usize = 32;

/// The filter a request starts with: content writes.
pub const DEFAULT_FILTER: u32 = 0x2;

impl WatchType for FileEvents {
    open spec fn spec_directory() -> bool {
        false
    }

    open spec fn spec_default_buffer() -> usize {
        FILE_DEFAULT_BUFFER
    }

    fn directory() -> (r: bool) {
        false
    }

    fn default_buffer() -> (r: usize) {
        FILE_DEFAULT_BUFFER
    }
}

impl WatchType for DirectoryEvents {
    open spec fn spec_directory() -> bool {
        true
    }

    open spec fn spec_default_buffer() -> usize {
        DIRECTORY_DEFAULT_BUFFER
    }

    fn directory() -> (r: bool) {
        true
    }

    fn default_buffer() -> (r: usize) {
        DIRECTORY_DEFAULT_BUFFER
    }
}

/// A watch request being built: the path, the filter, and the buffer of a
/// stream watch.
pub struct WatchRequest<'handle, T: WatchType> {
    handle: &'handle Handle,
    path: String,
    buffer: usize,
    flags: u32,
    _type: PhantomData<T>,
}

impl Handle {
    /// The request channel this handle submits to.
    pub closed spec fn requests(&self) -> RequestSender<WatchRequestInner> {
        self.request_tx
    }

    /// A handle on the request channel of a watcher task.
    pub fn new(request_tx: RequestSender<WatchRequestInner>) -> (r: Handle)
        ensures
            r.requests() == request_tx,
    {
        Handle { request_tx }
    }

    /// Tells the watcher task that a subscriber went away, so that its next
    /// maintenance sweeps the table. Does not wait; `false` where the task
    /// is gone or its queue full.
    pub fn notify_dropped(&self) -> (r: bool) {
        submit(&self.request_tx, WatchRequestInner::Drop)
    }

    /// Starts a watch request on the file at `path`, given what the
    /// filesystem holds there.
    pub fn file(&self, path: String, kind: PathKind) -> (r: Result<
        WatchRequest<'_, FileEvents>,
        RequestError,
    >)
        ensures
            kind == PathKind::Missing ==> (r matches Err(RequestError::DoesNotExist(p)) && p@
                == path@),
            kind == PathKind::Directory ==> (r matches Err(RequestError::IncorrectType(p)) && p@
                == path@),
            kind == PathKind::File ==> (r matches Ok(req) && req.spec_path() == path@
                && req.spec_flags() == DEFAULT_FILTER && req.spec_buffer() == FILE_DEFAULT_BUFFER
                && req.spec_handle() == *self),
    {
        match kind {
            PathKind::Missing => Err(RequestError::DoesNotExist(path)),
            PathKind::Directory => Err(RequestError::IncorrectType(path)),
            PathKind::File => Ok(
                WatchRequest {
                    handle: self,
                    path,
                    buffer: FileEvents::default_buffer(),
                    flags: DEFAULT_FILTER,
                    _type: PhantomData,
                },
            ),
        }
    }

    /// Starts a watch request on the directory at `path`, given what the
    /// filesystem holds there.
    pub fn dir(&self, path: String, kind: PathKind) -> (r: Result<
        WatchRequest<'_, DirectoryEvents>,
        RequestError,
    >)
        ensures
            kind == PathKind::Missing ==> (r matches Err(RequestError::DoesNotExist(p)) && p@
                == path@),
            kind == PathKind::File ==> (r matches Err(RequestError::IncorrectType(p)) && p@
                == path@),
            kind == PathKind::Directory ==> (r matches Ok(req) && req.spec_path() == path@
                && req.spec_flags() == DEFAULT_FILTER && req.spec_buffer()
                == DIRECTORY_DEFAULT_BUFFER && req.spec_handle() == *self),
    {
        match kind {
            PathKind::Missing => Err(RequestError::DoesNotExist(path)),
            PathKind::File => Err(RequestError::IncorrectType(path)),
            PathKind::Directory => Ok(
                WatchRequest {
                    handle: self,
                    path,
                    buffer: DirectoryEvents::default_buffer(),
                    flags: DEFAULT_FILTER,
                    _type: PhantomData,
                },
            ),
        }
    }
}

impl<'handle, T: WatchType> WatchRequest<'handle, T> {
    pub closed spec fn spec_path(&self) -> Seq<char> {
        self.path@
    }

    pub closed spec fn spec_flags(&self) -> u32 {
        self.flags
    }

    pub closed spec fn spec_buffer(&self) -> usize {
        self.buffer
    }

    pub closed spec fn spec_handle(&self) -> Handle {
        *self.handle
    }

    /// The handle the request will be submitted through.
    pub fn handle(&self) -> (r: &'handle Handle)
        ensures
            *r == self.spec_handle(),
    {
        self.handle
    }

    /// The path to watch.
    pub fn path(&self) -> (r: &String)
        ensures
            r@ == self.spec_path(),
    {
        &self.path
    }

    /// The filter handed to the kernel and tested against its events.
    pub fn flags(&self) -> (r: u32)
        ensures
            r == self.spec_flags(),
    {
        self.flags
    }

    /// The delivery buffer of a stream watch.
    pub fn buffer_size(&self) -> (r: usize)
        ensures
            r == self.spec_buffer(),
    {
        self.buffer
    }

    /// Adds an event kind to the filter.
    pub fn event(self, flag: EventFlag) -> (r: Self)
        ensures
            r.spec_flags() == self.spec_flags() | flag.spec_bits(),
            r.spec_path() == self.spec_path(),
            r.spec_buffer() == self.spec_buffer(),
            r.spec_handle() == self.spec_handle(),
    {
        WatchRequest { flags: self.flags | flag.bits(), ..self }
    }

    /// Adds a selection of event kinds to the filter.
    pub fn events(self, mask: EventMask) -> (r: Self)
        ensures
            r.spec_flags() == self.spec_flags() | mask@,
            r.spec_path() == self.spec_path(),
            r.spec_buffer() == self.spec_buffer(),
            r.spec_handle() == self.spec_handle(),
    {
        WatchRequest { flags: self.flags | mask.bits(), ..self }
    }

    /// Adds an interest modifier to the filter.
    pub fn interest(self, flag: InterestFlag) -> (r: Self)
        ensures
            r.spec_flags() == self.spec_flags() | flag.spec_bits(),
            r.spec_path() == self.spec_path(),
            r.spec_buffer() == self.spec_buffer(),
            r.spec_handle() == self.spec_handle(),
    {
        WatchRequest { flags: self.flags | flag.bits(), ..self }
    }

    /// Selects content writes, or leaves them out.
    pub fn modify(self, on: bool) -> (r: Self)
        ensures
            on ==> r.spec_flags() == self.spec_flags() | DEFAULT_FILTER,
            !on ==> r.spec_flags() == self.spec_flags() & !DEFAULT_FILTER,
            r.spec_path() == self.spec_path(),
            r.spec_buffer() == self.spec_buffer(),
            r.spec_handle() == self.spec_handle(),
    {
        let flags = if on {
            self.flags | DEFAULT_FILTER
        } else {
            self.flags & !DEFAULT_FILTER
        };
        WatchRequest { flags, ..self }
    }

    /// Sets the delivery buffer of a stream watch; `watch` takes it only
    /// between 1 and `MAX_BUFFER`.
    pub fn buffer(self, size: usize) -> (r: Self)
        ensures
            r.spec_buffer() == size,
            r.spec_flags() == self.spec_flags(),
            r.spec_path() == self.spec_path(),
            r.spec_handle() == self.spec_handle(),
    {
        WatchRequest { buffer: size, ..self }
    }

    /// The registration this request makes, delivering through `sender`.
    pub fn registration(self, sender: Delivery) -> (r: WatchRequestInner)
        ensures
            (r matches WatchRequestInner::Start { path, filter, dir, sender: s } && path@
                == self.spec_path() && filter == self.spec_flags() && dir == T::spec_directory()
                && s == sender),
    {
        WatchRequestInner::Start { path: self.path, filter: self.flags, dir: T::directory(), sender }
    }

    /// Registers a watch for the first matching event, and returns the
    /// receiver it will arrive on. Submission does not wait: where the
    /// watcher task is gone, or its request queue full, it fails at once.
    pub fn next(self) -> (r: Result<OnceReceiver<DirectoryWatchEvent>, WatchError>)
        ensures
            r is Err ==> r == Err::<OnceReceiver<DirectoryWatchEvent>, WatchError>(
                WatchError::WatcherShutdown,
            ),
    {
        let (tx, rx) = once_channel();
        let handle = self.handle;
        let request = self.registration(Delivery::Once(tx));
        if submit(&handle.request_tx, request) {
            Ok(rx)
        } else {
            Err(WatchError::WatcherShutdown)
        }
    }

    /// Registers a watch for every matching event, delivered through a
    /// buffer of the chosen size, and returns the receiver.
    pub fn watch(self) -> (r: Result<StreamReceiver<DirectoryWatchEvent>, WatchError>)
        requires
            0 < self.spec_buffer() <= MAX_BUFFER,
        ensures
            r is Err ==> r == Err::<StreamReceiver<DirectoryWatchEvent>, WatchError>(
                WatchError::WatcherShutdown,
            ),
    {
        let (tx, rx) = stream_channel(self.buffer);
        let handle = self.handle;
        let request = self.registration(Delivery::Stream(tx));
        if submit(&handle.request_tx, request) {
            Ok(rx)
        } else {
            Err(WatchError::WatcherShutdown)
        }
    }
}

} // verus!
