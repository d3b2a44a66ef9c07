use async_inotify::table::{Delivery, Dispatch, RawEvent, WatchRequestInner};
use async_inotify::watcher::{Action, Input, WatcherState};
use nix::sys::inotify::{AddWatchFlags, InitFlags, Inotify};

fn start(path: &str, sender: Delivery) -> WatchRequestInner {
    WatchRequestInner::Start {
        path: path.to_string(),
        filter: 0x2,
        dir: false,
        sender,
    }
}

#[test]
fn shutdown_of_a_fresh_state_stops() {
    let mut state = WatcherState::new();
    assert!(state.is_running());
    assert!(matches!(state.step(Input::Shutdown), Action::Stop));
    assert!(!state.is_running());
    assert!(matches!(state.step(Input::Tick), Action::Stop));
}

#[test]
fn end_of_requests_stops() {
    let mut state = WatcherState::new();
    assert!(matches!(state.step(Input::RequestsClosed), Action::Stop));
    let mut other = WatcherState::new();
    assert!(matches!(other.step(Input::ReadFailed), Action::Stop));
}

#[test]
fn registration_then_sweep() {
    let fd = Inotify::init(InitFlags::IN_NONBLOCK).unwrap();
    let wd = fd.add_watch("/", AddWatchFlags::IN_MODIFY).unwrap();
    let mut state = WatcherState::new();
    let (tx, rx) = tokio::sync::mpsc::channel(4);

    let request = match state.step(Input::Request(start("/w/f", Delivery::Stream(tx)))) {
        Action::AddWatch(request) => request,
        _ => panic!("a new path needs a kernel watch"),
    };
    assert!(matches!(state.step(Input::WatchAdded(wd, request)), Action::Continue));
    assert_eq!(state.watches().watch_count(), 1);

    let (tx2, _rx2) = tokio::sync::oneshot::channel();
    assert!(matches!(
        state.step(Input::Request(start("/w/f", Delivery::Once(tx2)))),
        Action::Continue
    ));
    assert_eq!(state.watches().watch_count(), 1);

    assert!(!state.needs_cleaning());
    assert!(matches!(state.step(Input::Tick), Action::Continue));

    drop(rx);
    drop(_rx2);
    assert!(matches!(state.step(Input::Request(WatchRequestInner::Drop)), Action::Continue));
    assert!(state.needs_cleaning());
    match state.step(Input::Tick) {
        Action::RemoveWatches(gone) => assert_eq!(gone, vec![wd]),
        _ => panic!("a dirty table is swept"),
    }
    assert_eq!(state.watches().watch_count(), 0);
    assert!(state.is_running());
}

#[test]
fn refused_kernel_watch_stops() {
    let mut state = WatcherState::new();
    let (tx, _rx) = tokio::sync::oneshot::channel();
    assert!(matches!(
        state.step(Input::Request(start("/w/f", Delivery::Once(tx)))),
        Action::AddWatch(_)
    ));
    assert!(matches!(state.step(Input::WatchFailed), Action::Stop));
    assert!(!state.is_running());
}

fn raw(wd: nix::sys::inotify::WatchDescriptor, mask: u32) -> RawEvent {
    RawEvent {
        wd,
        mask,
        cookie: 0,
        name: None,
    }
}

#[test]
fn batch_is_dispatched_in_order_until_a_stray_event() {
    let fd = Inotify::init(InitFlags::IN_NONBLOCK).unwrap();
    let wd = fd.add_watch("/", AddWatchFlags::IN_MODIFY).unwrap();
    let other = fd.add_watch("/tmp", AddWatchFlags::IN_MODIFY).unwrap();
    let mut state = WatcherState::new();
    let (tx, mut rx) = tokio::sync::mpsc::channel(8);
    let request = match state.step(Input::Request(start("/w/f", Delivery::Stream(tx)))) {
        Action::AddWatch(request) => request,
        _ => panic!("a new path needs a kernel watch"),
    };
    state.step(Input::WatchAdded(wd, request));

    let (action, results) = state.dispatch_all(vec![
        raw(wd, 0x2),
        raw(wd, 0x4),
        raw(other, 0x8000),
        raw(wd, 0x2),
    ]);
    assert!(matches!(action, Action::Continue));
    assert_eq!(results.len(), 4);
    assert!(matches!(results[1], Ok(Dispatch::Unsupported(0x4))));
    assert!(matches!(results[2], Ok(Dispatch::Ignored)));
    assert!(rx.try_recv().is_ok());
    assert!(rx.try_recv().is_ok());
    assert!(rx.try_recv().is_err());

    let (action, results) = state.dispatch_all(vec![raw(wd, 0x2), raw(other, 0x4), raw(wd, 0x2)]);
    assert!(matches!(action, Action::Stop));
    assert_eq!(results.len(), 2);
    assert!(results[1].is_err());
    assert!(!state.is_running());
    assert!(rx.try_recv().is_ok());
    assert!(rx.try_recv().is_err());
}
