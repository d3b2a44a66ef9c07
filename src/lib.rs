//! Asynchronous file and directory change notification on top of the
//! kernel's inotify facility: the flag model, the watch table that
//! multiplexes kernel watches among subscribers, and the decisions of the
//! task that owns it.

pub mod auth;
pub mod events;
pub mod flags;
pub mod handle;
pub mod primitives;
mod sealed;
pub mod table;
pub mod watcher;
