//! Events delivered to subscribers.

use vstd::prelude::*;
use vstd::string::*;

verus! {

/// What happened to a watched file.
#[derive(Debug, Clone, Copy, PartialEq, Eq, Structural)]
pub enum FileWatchEvent {
    /// It was read.
    Read,
    /// Its contents were written.
    Write,
    /// It was opened.
    Open,
    /// It was closed; `writable` where it had been opened for writing.
    Close { writable: bool },
}

/// The kernel's mask of a read.
pub const MASK_ACCESS: u32 = 0x1;

/// The kernel's mask of a content write.
pub const MASK_MODIFY: u32 = 0x2;

/// The kernel's mask of a close after writing.
pub const MASK_CLOSE_WRITE: u32 = 0x8;

/// The kernel's mask of a close without writing.
pub const MASK_CLOSE_NOWRITE: u32 = 0x10;

/// The kernel's mask of an open.
pub const MASK_OPEN: u32 = 0x20;

/// The event that a kernel mask stands for, where it stands for exactly one
/// reported kind.
pub open spec fn event_of_mask(mask: u32) -> Option<FileWatchEvent> {
    if mask == MASK_ACCESS {
        Some(FileWatchEvent::Read)
    } else if mask == MASK_MODIFY {
        Some(FileWatchEvent::Write)
    } else if mask == MASK_OPEN {
        Some(FileWatchEvent::Open)
    } else if mask == MASK_CLOSE_NOWRITE {
        Some(FileWatchEvent::Close { writable: false })
    } else if mask == MASK_CLOSE_WRITE {
        Some(FileWatchEvent::Close { writable: true })
    } else {
        None
    }
}

/// The words that describe an event.
pub open spec fn describe_event(e: FileWatchEvent) -> Seq<char> {
    match e {
        FileWatchEvent::Read => "read"@,
        FileWatchEvent::Write => "written"@,
        FileWatchEvent::Open => "opened"@,
        FileWatchEvent::Close { writable } => if writable {
            "closed for writing"@
        } else {
            "closed for reading"@
        },
    }
}

impl FileWatchEvent {
    /// Decodes a kernel mask; a mask that is not exactly one reported kind
    /// comes back as the error.
    pub fn from_mask(mask: u32) -> (r: Result<FileWatchEvent, u32>)
        ensures
            match event_of_mask(mask) {
                Some(e) => r == Ok::<FileWatchEvent, u32>(e),
                None => r == Err::<FileWatchEvent, u32>(mask),
            },
    {
        if mask == MASK_ACCESS {
            Ok(FileWatchEvent::Read)
        } else if mask == MASK_MODIFY {
            Ok(FileWatchEvent::Write)
        } else if mask == MASK_OPEN {
            Ok(FileWatchEvent::Open)
        } else if mask == MASK_CLOSE_NOWRITE {
            Ok(FileWatchEvent::Close { writable: false })
        } else if mask == MASK_CLOSE_WRITE {
            Ok(FileWatchEvent::Close { writable: true })
        } else {
            Err(mask)
        }
    }

    /// A short description: "written", "closed for reading", ...
    pub fn describe(&self) -> (r: String)
        ensures
            r@ == describe_event(*self),
    {
        match *self {
            FileWatchEvent::Read => String::from_str("read"),
            FileWatchEvent::Write => String::from_str("written"),
            FileWatchEvent::Open => String::from_str("opened"),
            FileWatchEvent::Close { writable } => if writable {
                String::from_str("closed for writing")
            } else {
                String::from_str("closed for reading")
            },
        }
    }
}

/// An event on a watched path, with the name of the entry inside a watched
/// directory that it concerns, if any.
#[derive(Debug, Clone, PartialEq)]
pub struct DirectoryWatchEvent {
    pub inner_path: Option<String>,
    pub event: FileWatchEvent,
}

/// The words that describe an event on a watched path.
pub open spec fn describe_directory_event(e: DirectoryWatchEvent) -> Seq<char> {
    match e.inner_path {
        Some(p) => p@ + " was "@ + describe_event(e.event),
        None => "a file was "@ + describe_event(e.event),
    }
}

impl DirectoryWatchEvent {
    /// A copy of this event.
    pub fn duplicate(&self) -> (r: DirectoryWatchEvent)
        ensures
            r == *self,
    {
        let inner_path = match &self.inner_path {
            Some(p) => Some(p.clone()),
            None => None,
        };
        DirectoryWatchEvent { inner_path, event: self.event }
    }

    /// A short description: "notes.txt was written", "a file was opened".
    pub fn describe(&self) -> (r: String)
        ensures
            r@ == describe_directory_event(*self),
    {
        let what = self.event.describe();
        match &self.inner_path {
            Some(p) => p.clone().concat(" was ").concat(what.as_str()),
            None => String::from_str("a file was ").concat(what.as_str()),
        }
    }
}

} // verus!
