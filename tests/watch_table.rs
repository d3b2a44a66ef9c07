use async_inotify::events::{DirectoryWatchEvent, FileWatchEvent};
use async_inotify::primitives::SendOutcome;
use async_inotify::table::{
    Delivery, Dispatch, DispatchError, RawEvent, Subscription, WatchRequestInner, Watches,
};
use nix::sys::inotify::{AddWatchFlags, InitFlags, Inotify, WatchDescriptor};

const MODIFY: u32 = 0x2;
const ACCESS: u32 = 0x1;

/// Two distinct kernel descriptors to key the table with.
fn descriptors() -> (Inotify, WatchDescriptor, WatchDescriptor) {
    let fd = Inotify::init(InitFlags::IN_NONBLOCK).unwrap();
    let a = fd.add_watch("/", AddWatchFlags::IN_MODIFY).unwrap();
    let b = fd.add_watch("/tmp", AddWatchFlags::IN_MODIFY).unwrap();
    assert_ne!(a, b);
    (fd, a, b)
}

fn start(path: &str, filter: u32, dir: bool, sender: Delivery) -> WatchRequestInner {
    WatchRequestInner::Start {
        path: path.to_string(),
        filter,
        dir,
        sender,
    }
}

fn register(table: &mut Watches, wd: WatchDescriptor, request: WatchRequestInner) {
    if let Some(request) = table.handle_request(request) {
        table.complete_request(wd, request);
    }
}

fn raw(wd: WatchDescriptor, mask: u32, name: Option<&str>) -> RawEvent {
    RawEvent {
        wd,
        mask,
        cookie: 0,
        name: name.map(str::to_string),
    }
}

fn outcomes(d: Result<Dispatch, DispatchError>) -> Vec<Option<SendOutcome>> {
    match d {
        Ok(Dispatch::Delivered { outcomes, .. }) => outcomes,
        Ok(Dispatch::Unsupported(m)) => panic!("unsupported mask {m:x}"),
        Ok(Dispatch::Ignored) => panic!("a dropped-watch notice"),
        Err(e) => panic!("dispatch failed: {e:?}"),
    }
}

#[test]
fn same_path_twice_makes_one_watch() {
    let (_fd, wd, _) = descriptors();
    let mut table = Watches::new();
    let (tx1, _rx1) = tokio::sync::oneshot::channel();
    let (tx2, _rx2) = tokio::sync::mpsc::channel(4);

    let first = table.handle_request(start("/w/f", MODIFY, false, Delivery::Once(tx1)));
    let first = first.expect("a new path needs a kernel watch");
    table.complete_request(wd, first);
    assert_eq!(table.watch_count(), 1);

    let second = table.handle_request(start("/w/f", MODIFY, false, Delivery::Stream(tx2)));
    assert!(second.is_none());
    assert_eq!(table.watch_count(), 1);
    assert_eq!(table.subscriber_count(&"/w/f".to_string()), 2);
    assert_eq!(table.subscriber_count(&"/w/g".to_string()), 0);
}

#[test]
fn once_watch_resolves_with_first_matching_event() {
    let (_fd, wd, _) = descriptors();
    let mut table = Watches::new();
    let (tx, mut rx) = tokio::sync::oneshot::channel();
    register(&mut table, wd, start("/w/f", MODIFY, false, Delivery::Once(tx)));

    assert_eq!(outcomes(table.handle_event(raw(wd, ACCESS, None))), vec![None]);
    assert!(rx.try_recv().is_err());
    assert!(!table.is_dirty());

    assert_eq!(
        outcomes(table.handle_event(raw(wd, MODIFY, None))),
        vec![Some(SendOutcome::Sent)]
    );
    let got = rx.try_recv().unwrap();
    assert_eq!(
        got,
        DirectoryWatchEvent {
            inner_path: None,
            event: FileWatchEvent::Write
        }
    );
    assert!(table.is_dirty());
    assert_eq!(outcomes(table.handle_event(raw(wd, MODIFY, None))), vec![None]);
}

#[test]
fn stream_watch_sees_three_writes() {
    let (_fd, wd, _) = descriptors();
    let mut table = Watches::new();
    let (tx, mut rx) = tokio::sync::mpsc::channel(16);
    register(&mut table, wd, start("/w/f", MODIFY, false, Delivery::Stream(tx)));
    for _ in 0..3 {
        assert_eq!(
            outcomes(table.handle_event(raw(wd, MODIFY, None))),
            vec![Some(SendOutcome::Sent)]
        );
    }
    let mut count = 0;
    while let Ok(item) = rx.try_recv() {
        assert_eq!(item.event, FileWatchEvent::Write);
        count += 1;
    }
    assert_eq!(count, 3);
}

#[test]
fn directory_watch_names_entries_in_order() {
    let (_fd, wd, _) = descriptors();
    let mut table = Watches::new();
    let (dir_tx, mut dir_rx) = tokio::sync::mpsc::channel(32);
    let (file_tx, mut file_rx) = tokio::sync::mpsc::channel(16);
    register(&mut table, wd, start("/w/d", MODIFY, true, Delivery::Stream(dir_tx)));
    register(&mut table, wd, start("/w/d", MODIFY, false, Delivery::Stream(file_tx)));

    let d = table.handle_event(raw(wd, MODIFY, Some("a")));
    match d {
        Ok(Dispatch::Delivered { event, outcomes }) => {
            assert_eq!(event.inner_path.as_deref(), Some("a"));
            assert_eq!(outcomes, vec![Some(SendOutcome::Sent), None]);
        }
        _ => panic!("expected a delivery"),
    }
    assert_eq!(
        outcomes(table.handle_event(raw(wd, MODIFY, Some("b")))),
        vec![Some(SendOutcome::Sent), None]
    );
    assert_eq!(dir_rx.try_recv().unwrap().inner_path.as_deref(), Some("a"));
    assert_eq!(dir_rx.try_recv().unwrap().inner_path.as_deref(), Some("b"));
    assert!(dir_rx.try_recv().is_err());
    assert!(file_rx.try_recv().is_err());
}

#[test]
fn untracked_descriptor_is_an_error() {
    let (_fd, wd, other) = descriptors();
    let mut table = Watches::new();
    let (tx, _rx) = tokio::sync::oneshot::channel();
    register(&mut table, wd, start("/w/f", MODIFY, false, Delivery::Once(tx)));
    assert_eq!(
        table.handle_event(raw(other, MODIFY, None)).err(),
        Some(DispatchError::UntrackedDescriptor)
    );
}

#[test]
fn unsupported_mask_is_skipped() {
    let (_fd, wd, _) = descriptors();
    let mut table = Watches::new();
    let (tx, mut rx) = tokio::sync::oneshot::channel();
    register(&mut table, wd, start("/w/f", 0xfff, false, Delivery::Once(tx)));
    match table.handle_event(raw(wd, 0x4, None)) {
        Ok(Dispatch::Unsupported(mask)) => assert_eq!(mask, 0x4),
        _ => panic!("expected the event to be skipped"),
    }
    assert!(rx.try_recv().is_err());
    assert!(!table.is_dirty());
}

#[test]
fn untracked_descriptor_is_an_error_whatever_the_mask() {
    let (_fd, wd, other) = descriptors();
    let mut table = Watches::new();
    let (tx, _rx) = tokio::sync::oneshot::channel();
    register(&mut table, wd, start("/w/f", MODIFY, false, Delivery::Once(tx)));
    assert_eq!(
        table.handle_event(raw(other, 0x4, None)).err(),
        Some(DispatchError::UntrackedDescriptor)
    );
}

#[test]
fn dropped_watch_notice_is_passed_over() {
    let (_fd, wd, other) = descriptors();
    let mut table = Watches::new();
    let (tx, _rx) = tokio::sync::oneshot::channel();
    register(&mut table, wd, start("/w/f", MODIFY, false, Delivery::Once(tx)));
    assert!(matches!(
        table.handle_event(raw(other, 0x8000, None)),
        Ok(Dispatch::Ignored)
    ));
    assert!(matches!(
        table.handle_event(raw(wd, 0x8000, None)),
        Ok(Dispatch::Ignored)
    ));
    assert!(!table.is_dirty());
    assert_eq!(table.subscriber_count(&"/w/f".to_string()), 1);
}

#[test]
fn full_buffer_drops_the_event_only() {
    let (_fd, wd, _) = descriptors();
    let mut table = Watches::new();
    let (tx, mut rx) = tokio::sync::mpsc::channel(1);
    register(&mut table, wd, start("/w/f", MODIFY, false, Delivery::Stream(tx)));
    assert_eq!(
        outcomes(table.handle_event(raw(wd, MODIFY, None))),
        vec![Some(SendOutcome::Sent)]
    );
    assert_eq!(
        outcomes(table.handle_event(raw(wd, MODIFY, None))),
        vec![Some(SendOutcome::Full)]
    );
    assert!(!table.is_dirty());
    assert!(rx.try_recv().is_ok());
    assert_eq!(
        outcomes(table.handle_event(raw(wd, MODIFY, None))),
        vec![Some(SendOutcome::Sent)]
    );
}

#[test]
fn dropped_stream_is_swept_and_released() {
    let (_fd, wd, _) = descriptors();
    let mut table = Watches::new();
    let (tx, rx) = tokio::sync::mpsc::channel(4);
    register(&mut table, wd, start("/w/f", MODIFY, false, Delivery::Stream(tx)));
    drop(rx);
    assert_eq!(
        outcomes(table.handle_event(raw(wd, MODIFY, None))),
        vec![Some(SendOutcome::Closed)]
    );
    assert!(table.is_dirty());
    let (released, gone) = table.clean_watches();
    assert_eq!(released, vec![wd]);
    assert_eq!(gone, vec![vec![false]]);
    assert_eq!(table.watch_count(), 0);
    assert!(!table.is_dirty());
}

#[test]
fn sweep_finds_closed_receivers_itself() {
    let (_fd, wd, other) = descriptors();
    let mut table = Watches::new();
    let (tx1, rx1) = tokio::sync::mpsc::channel(4);
    let (tx2, _rx2) = tokio::sync::oneshot::channel();
    register(&mut table, wd, start("/w/f", MODIFY, false, Delivery::Stream(tx1)));
    register(&mut table, other, start("/w/g", MODIFY, false, Delivery::Once(tx2)));
    drop(rx1);
    table.handle_request(WatchRequestInner::Drop);
    assert!(table.is_dirty());
    let (released, gone) = table.clean_watches();
    assert_eq!(released, vec![wd]);
    assert_eq!(gone, vec![vec![true], vec![false]]);
    assert_eq!(table.watch_count(), 1);
    assert_eq!(table.subscriber_count(&"/w/g".to_string()), 1);
}

#[test]
fn exhausting_one_subscription_keeps_the_other() {
    let (_fd, wd, _) = descriptors();
    let mut table = Watches::new();
    let (once_tx, mut once_rx) = tokio::sync::oneshot::channel();
    let (stream_tx, mut stream_rx) = tokio::sync::mpsc::channel(4);
    register(&mut table, wd, start("/w/f", MODIFY, false, Delivery::Once(once_tx)));
    register(&mut table, wd, start("/w/f", MODIFY, false, Delivery::Stream(stream_tx)));
    assert_eq!(
        outcomes(table.handle_event(raw(wd, MODIFY, None))),
        vec![Some(SendOutcome::Sent), Some(SendOutcome::Sent)]
    );
    assert!(once_rx.try_recv().is_ok());
    assert!(table.clean_watches().0.is_empty());
    assert_eq!(table.watch_count(), 1);
    assert_eq!(table.subscriber_count(&"/w/f".to_string()), 1);
    assert_eq!(
        outcomes(table.handle_event(raw(wd, MODIFY, None))),
        vec![Some(SendOutcome::Sent)]
    );
    assert_eq!(stream_rx.try_recv().unwrap().event, FileWatchEvent::Write);
    assert_eq!(stream_rx.try_recv().unwrap().event, FileWatchEvent::Write);
}

#[test]
fn sweep_decision_marks_gone_and_spent() {
    let (tx, _rx) = tokio::sync::mpsc::channel(4);
    let mut live = Subscription {
        filter: MODIFY,
        dir: false,
        remove: false,
        sender: Delivery::Stream(tx),
    };
    live.mark_if_gone(false);
    assert!(!live.remove);
    live.mark_if_gone(true);
    assert!(live.remove);

    let mut spent = Subscription {
        filter: MODIFY,
        dir: false,
        remove: false,
        sender: Delivery::Spent,
    };
    spent.mark_if_gone(false);
    assert!(spent.remove);
}
