use async_inotify::handle::{
    Handle, PathKind, RequestError, WatchError, DIRECTORY_DEFAULT_BUFFER, FILE_DEFAULT_BUFFER,
};
use async_inotify::flags::{EventFlag, InterestFlag};
use async_inotify::table::{Delivery, WatchRequestInner};

#[test]
fn file_requests_check_the_path_kind() {
    let (tx, _rx) = tokio::sync::mpsc::channel(4);
    let handle = Handle::new(tx);
    assert_eq!(
        handle.file("/x".to_string(), PathKind::Missing).err(),
        Some(RequestError::DoesNotExist("/x".to_string()))
    );
    assert_eq!(
        handle.file("/x".to_string(), PathKind::Directory).err(),
        Some(RequestError::IncorrectType("/x".to_string()))
    );
    let req = handle.file("/x".to_string(), PathKind::File).ok().unwrap();
    assert_eq!(req.path(), "/x");
    assert_eq!(req.flags(), 0x2);
    assert_eq!(req.buffer_size(), FILE_DEFAULT_BUFFER);
    assert_eq!(FILE_DEFAULT_BUFFER, 16);
}

#[test]
fn dir_requests_check_the_path_kind() {
    let (tx, _rx) = tokio::sync::mpsc::channel(4);
    let handle = Handle::new(tx);
    assert_eq!(
        handle.dir("/d".to_string(), PathKind::Missing).err(),
        Some(RequestError::DoesNotExist("/d".to_string()))
    );
    assert_eq!(
        handle.dir("/d".to_string(), PathKind::File).err(),
        Some(RequestError::IncorrectType("/d".to_string()))
    );
    let req = handle.dir("/d".to_string(), PathKind::Directory).ok().unwrap();
    assert_eq!(req.buffer_size(), DIRECTORY_DEFAULT_BUFFER);
    assert_eq!(DIRECTORY_DEFAULT_BUFFER, 32);
}

#[test]
fn builder_composes_the_filter() {
    let (tx, _rx) = tokio::sync::mpsc::channel(4);
    let handle = Handle::new(tx);
    let req = handle
        .file("/x".to_string(), PathKind::File)
        .ok()
        .unwrap()
        .event(EventFlag::Open)
        .interest(InterestFlag::NoFollow)
        .modify(false)
        .buffer(3);
    assert_eq!(req.flags(), 0x0200_0020);
    assert_eq!(req.buffer_size(), 3);
    let req = req.modify(true).events(EventFlag::CloseWrite | EventFlag::Delete);
    assert_eq!(req.flags(), 0x0200_022a);
}

#[test]
fn next_submits_one_registration() {
    let (tx, mut rx) = tokio::sync::mpsc::channel(4);
    let handle = Handle::new(tx);
    let req = handle.dir("/d".to_string(), PathKind::Directory).ok().unwrap();
    assert!(req.next().is_ok());
    match rx.try_recv().unwrap() {
        WatchRequestInner::Start {
            path,
            filter,
            dir,
            sender,
        } => {
            assert_eq!(path, "/d");
            assert_eq!(filter, 0x2);
            assert!(dir);
            assert!(matches!(sender, Delivery::Once(_)));
        }
        WatchRequestInner::Drop => panic!("expected a registration"),
    }
}

#[test]
fn watch_submits_a_stream_registration() {
    let (tx, mut rx) = tokio::sync::mpsc::channel(4);
    let handle = Handle::new(tx);
    let req = handle.file("/f".to_string(), PathKind::File).ok().unwrap();
    assert!(req.watch().is_ok());
    match rx.try_recv().unwrap() {
        WatchRequestInner::Start { dir, sender, .. } => {
            assert!(!dir);
            assert!(matches!(sender, Delivery::Stream(_)));
        }
        WatchRequestInner::Drop => panic!("expected a registration"),
    }
}

#[test]
fn submission_fails_once_the_task_is_gone() {
    let (tx, rx) = tokio::sync::mpsc::channel(4);
    let handle = Handle::new(tx);
    drop(rx);
    let req = handle.file("/f".to_string(), PathKind::File).ok().unwrap();
    assert_eq!(req.next().err(), Some(WatchError::WatcherShutdown));
    let req = handle.file("/f".to_string(), PathKind::File).ok().unwrap();
    assert_eq!(req.watch().err(), Some(WatchError::WatcherShutdown));
}

#[test]
fn registration_carries_the_request() {
    let (tx, _rx) = tokio::sync::mpsc::channel(4);
    let handle = Handle::new(tx);
    let req = handle
        .dir("/d".to_string(), PathKind::Directory)
        .ok()
        .unwrap()
        .event(EventFlag::Create);
    match req.registration(Delivery::Spent) {
        WatchRequestInner::Start {
            path,
            filter,
            dir,
            sender,
        } => {
            assert_eq!(path, "/d");
            assert_eq!(filter, 0x102);
            assert!(dir);
            assert!(matches!(sender, Delivery::Spent));
        }
        WatchRequestInner::Drop => panic!("expected a registration"),
    }
}

#[test]
fn dropped_subscribers_are_announced() {
    let (tx, mut rx) = tokio::sync::mpsc::channel(4);
    let handle = Handle::new(tx);
    assert!(handle.clone().notify_dropped());
    assert!(matches!(rx.try_recv().unwrap(), WatchRequestInner::Drop));
    drop(rx);
    assert!(!handle.notify_dropped());
}

#[test]
fn any_buffer_size_is_recorded() {
    let (tx, _rx) = tokio::sync::mpsc::channel(4);
    let handle = Handle::new(tx);
    let req = handle.file("/f".to_string(), PathKind::File).ok().unwrap().buffer(0);
    assert_eq!(req.buffer_size(), 0);
}
