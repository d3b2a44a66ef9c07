//! The decisions of the task that owns the watch table. The task itself
//! waits on the kernel, on requests, on the shutdown signal and on the
//! maintenance timer; each time one of them fires it hands what it got to
//! `WatcherState::step` and carries out the action that comes back.

use crate::table::{
    apply_result, batch_fits, distinct, is_ignored, join, marked_by, path_in, released,
    result_fits, run_batch, subscription_of, swept, wd_in, Dispatch, DispatchError, EntryView,
    RawEvent, WatchRequestInner, Watches,
};
use nix::sys::inotify::WatchDescriptor;
use vstd::prelude::*;

verus! {

/// What woke the task.
pub enum Input {
    /// The owner asked for shutdown.
    Shutdown,
    /// The kernel channel was readable; these are the events read from it.
    Readable(Vec<RawEvent>),
    /// Reading the kernel channel failed with something other than "would
    /// block".
    ReadFailed,
    /// A registration arrived.
    Request(WatchRequestInner),
    /// Every handle is gone and the request queue is drained.
    RequestsClosed,
    /// The kernel established the watch asked for by `Action::AddWatch`.
    WatchAdded(WatchDescriptor, WatchRequestInner),
    /// The kernel refused the watch asked for by `Action::AddWatch`.
    WatchFailed,
    /// The maintenance timer fired.
    Tick,
}

/// What the task is to do next.
pub enum Action {
    /// Wait for the next input.
    Continue,
    /// Establish a kernel watch on the request's path with its filter, then
    /// report `Input::WatchAdded` or `Input::WatchFailed`.
    AddWatch(WatchRequestInner),
    /// Release these kernel watches, then wait for the next input.
    RemoveWatches(Vec<WatchDescriptor>),
    /// Leave the loop; the task ends.
    Stop,
}

/// The state of the multiplexer: running with its table, or terminated.
pub struct WatcherState {
    pub(crate) watches: Watches,
    pub(crate) running: bool,
}

/// The two tables have the same watches, in the same order, whatever their
/// subscriptions.
pub open spec fn same_watches(a: Seq<EntryView>, b: Seq<EntryView>) -> bool {
    &&& a.len() == b.len()
    &&& forall|i: int| 0 <= i < a.len() ==> a[i].0 == b[i].0 && a[i].1 == b[i].1
}

/// Whether one of the events, other than a notice of a dropped watch, is on
/// a descriptor the table does not track.
pub open spec fn has_stray_event(es: Seq<EntryView>, events: Seq<RawEvent>) -> bool {
    exists|i: int|
        0 <= i < events.len() && !is_ignored(#[trigger] events[i].mask) && !wd_in(
            es,
            events[i].wd,
        )
}

/// The outcome of dispatching a batch: `results` holds the result of each
/// event handled, in order; the table and dirty flag went from `before` to
/// `after` exactly as those results say. Every event was handled unless
/// one was on an untracked descriptor, which ends the batch and the task.
pub open spec fn batch_done(
    before: (Seq<EntryView>, bool),
    after: (Seq<EntryView>, bool),
    events: Seq<RawEvent>,
    results: Seq<Result<Dispatch, DispatchError>>,
    stopped: bool,
) -> bool {
    &&& batch_fits(before.0, before.1, events, results)
    &&& after == run_batch(before.0, before.1, events, results)
    &&& stopped == has_stray_event(before.0, events)
    &&& !stopped ==> results.len() == events.len()
    &&& stopped ==> results.len() > 0 && results.last() is Err
    &&& forall|i: int| 0 <= i < results.len() - 1 ==> results[i] is Ok
}

impl WatcherState {
    /// The table.
    pub closed spec fn table(&self) -> Seq<EntryView> {
        self.watches@
    }

    /// Whether the table warrants a sweep.
    pub closed spec fn dirty(&self) -> bool {
        self.watches.marked_dirty()
    }

    /// Whether the task still runs.
    pub closed spec fn running(&self) -> bool {
        self.running
    }

    /// A running task with an empty table.
    pub fn new() -> (r: WatcherState)
        ensures
            r.running(),
            r.table() == Seq::<EntryView>::empty(),
            !r.dirty(),
            distinct(r.table()),
    {
        WatcherState { watches: Watches::new(), running: true }
    }

    /// Whether the task still runs.
    pub fn is_running(&self) -> (r: bool)
        ensures
            r == self.running(),
    {
        self.running
    }

    /// Whether the maintenance timer should be listened to.
    pub fn needs_cleaning(&self) -> (r: bool)
        ensures
            r == self.dirty(),
    {
        self.watches.is_dirty()
    }

    /// The table itself, for inspection.
    pub fn watches(&self) -> (r: &Watches)
        ensures
            r@ == self.table(),
            r.marked_dirty() == self.dirty(),
    {
        &self.watches
    }

    /// Ends the task.
    fn stop(&mut self) -> (r: Action)
        ensures
            r is Stop,
            !final(self).running(),
            final(self).table() == old(self).table(),
            final(self).dirty() == old(self).dirty(),
    {
        self.running = false;
        Action::Stop
    }

    /// Dispatches a batch of events in the order the kernel reported them,
    /// and returns the result of each. An event on an untracked descriptor
    /// ends the batch and the task.
    pub fn dispatch_all(&mut self, events: Vec<RawEvent>) -> (r: (
        Action,
        Vec<Result<Dispatch, DispatchError>>,
    ))
        requires
            distinct(old(self).table()),
            old(self).running(),
        ensures
            distinct(final(self).table()),
            same_watches(old(self).table(), final(self).table()),
            batch_done(
                (old(self).table(), old(self).dirty()),
                (final(self).table(), final(self).dirty()),
                events@,
                r.1@,
                r.0 is Stop,
            ),
            !(r.0 is Stop) ==> r.0 is Continue,
            final(self).running() == !(r.0 is Stop),
    {
        let ghost start = self.watches@;
        let ghost start_dirty = self.watches.marked_dirty();
        let ghost all = events@;
        let mut rest = events;
        let mut results: Vec<Result<Dispatch, DispatchError>> = Vec::new();
        while rest.len() > 0
            invariant
                start == old(self).table(),
                start_dirty == old(self).dirty(),
                all == events@,
                self.watches.wf(),
                self.running,
                same_watches(start, self.watches@),
                rest@.len() <= all.len(),
                rest@ == all.subrange(all.len() - rest@.len(), all.len() as int),
                results@.len() == all.len() - rest@.len(),
                !has_stray_event(start, all.subrange(0, all.len() - rest@.len())),
                batch_fits(start, start_dirty, all, results@),
                (self.watches@, self.watches.marked_dirty()) == run_batch(
                    start,
                    start_dirty,
                    all,
                    results@,
                ),
                forall|i: int| 0 <= i < results@.len() ==> results@[i] is Ok,
            decreases rest@.len(),
        {
            let ghost j = all.len() - rest@.len();
            let event = rest.remove(0);
            assert(event == all[j]);
            assert(rest@ =~= all.subrange(j + 1, all.len() as int));
            let ghost before = self.watches@;
            let ghost before_dirty = self.watches.marked_dirty();
            let ghost wd = event.wd;
            let ghost mask = event.mask;
            assert(wd_in(start, wd) == wd_in(before, wd)) by {
                if wd_in(start, wd) {
                    let i = choose|i: int| 0 <= i < start.len() && start[i].0 == wd;
                    assert(before[i].0 == wd);
                }
                if wd_in(before, wd) {
                    let i = choose|i: int| 0 <= i < before.len() && before[i].0 == wd;
                    assert(start[i].0 == wd);
                }
            }
            let r = self.watches.handle_event(event);
            let ghost prev = results@;
            let is_err = r.is_err();
            results.push(r);
            assert(results@.drop_last() =~= prev);
            assert(results@.last() == r);
            assert(all[results@.len() - 1] == all[j]);
            assert(same_watches(start, self.watches@)) by {
                assert(same_watches(before, self.watches@));
            }
            if is_err {
                assert(!is_ignored(mask) && !wd_in(start, wd));
                assert(!is_ignored(all[j].mask));
                self.running = false;
                return (Action::Stop, results);
            }
            assert(is_ignored(mask) || wd_in(start, wd));
            assert forall|i: int|
                0 <= i < j + 1 && !is_ignored(
                    #[trigger] all.subrange(0, j + 1)[i].mask,
                ) implies wd_in(start, all.subrange(0, j + 1)[i].wd) by {
                if i < j {
                    assert(all.subrange(0, j + 1)[i] == all.subrange(0, j)[i]);
                }
            }
        }
        assert(all.subrange(0, all.len() as int) =~= all);
        (Action::Continue, results)
    }

    /// Decides what to do about one input, and updates the table.
    ///
    /// Shutdown, a failed kernel read, the last handle going away and a
    /// refused kernel watch end the task, and so does an event on a
    /// descriptor the table does not track, whatever its mask; the one
    /// exception is the kernel's notice that it dropped a watch, which comes
    /// after every release and is passed over. A registration joins the watch
    /// on its path, or asks for a new kernel watch. The timer sweeps the
    /// table when it is dirty. A task that has ended stays ended.
    pub fn step(&mut self, input: Input) -> (r: Action)
        requires
            distinct(old(self).table()),
        ensures
            distinct(final(self).table()),
            final(self).running() == (old(self).running() && !(r is Stop)),
            !old(self).running() ==> r is Stop && final(self).table() == old(self).table()
                && final(self).dirty() == old(self).dirty(),
            old(self).running() ==> match input {
                Input::Shutdown | Input::ReadFailed | Input::RequestsClosed | Input::WatchFailed => {
                    &&& r is Stop
                    &&& final(self).table() == old(self).table()
                    &&& final(self).dirty() == old(self).dirty()
                },
                Input::Readable(events) => {
                    &&& !(r is Stop) ==> r is Continue
                    &&& same_watches(old(self).table(), final(self).table())
                    &&& exists|results: Seq<Result<Dispatch, DispatchError>>|
                        #[trigger] batch_done(
                            (old(self).table(), old(self).dirty()),
                            (final(self).table(), final(self).dirty()),
                            events@,
                            results,
                            r is Stop,
                        )
                },
                Input::Request(request) => match request {
                    WatchRequestInner::Drop => {
                        &&& r is Continue
                        &&& final(self).table() == old(self).table()
                        &&& final(self).dirty()
                    },
                    WatchRequestInner::Start { path, filter, dir, sender } => {
                        &&& final(self).dirty() == old(self).dirty()
                        &&& path_in(old(self).table(), path@) ==> r is Continue
                        &&& forall|k: int|
                            0 <= k < old(self).table().len() && old(self).table()[k].1 == path@
                                ==> final(self).table() == join(
                                old(self).table(),
                                k,
                                subscription_of(filter, dir, sender),
                            )
                        &&& !path_in(old(self).table(), path@) ==> {
                            &&& r == Action::AddWatch(request)
                            &&& final(self).table() == old(self).table()
                        }
                    },
                },
                Input::WatchAdded(wd, request) => match request {
                    WatchRequestInner::Drop => {
                        &&& r is Continue
                        &&& final(self).table() == old(self).table()
                        &&& final(self).dirty()
                    },
                    WatchRequestInner::Start { path, filter, dir, sender } => {
                        let sub = subscription_of(filter, dir, sender);
                        &&& r is Continue
                        &&& final(self).dirty() == old(self).dirty()
                        &&& forall|k: int|
                            0 <= k < old(self).table().len() && old(self).table()[k].1 == path@
                                ==> final(self).table() == join(old(self).table(), k, sub)
                        &&& !path_in(old(self).table(), path@) ==> {
                            &&& forall|k: int|
                                0 <= k < old(self).table().len() && old(self).table()[k].0 == wd
                                    ==> final(self).table() == join(old(self).table(), k, sub)
                            &&& !wd_in(old(self).table(), wd) ==> final(self).table() == old(
                                self,
                            ).table().push((wd, path@, seq![sub]))
                        }
                    },
                },
                Input::Tick => {
                    &&& old(self).dirty() ==> {
                        &&& r matches Action::RemoveWatches(gone)
                        &&& !final(self).dirty()
                        &&& exists|m: Seq<EntryView>, checks: Seq<Seq<bool>>|
                            {
                                &&& #[trigger] marked_by(old(self).table(), m, checks)
                                &&& final(self).table() == swept(m)
                                &&& gone@ == released(m)
                            }
                    }
                    &&& !old(self).dirty() ==> r is Continue && final(self).table() == old(
                        self,
                    ).table()
                },
            },
    {
        if !self.running {
            return Action::Stop;
        }
        match input {
            Input::Shutdown => self.stop(),
            Input::ReadFailed => self.stop(),
            Input::RequestsClosed => self.stop(),
            Input::WatchFailed => self.stop(),
            Input::Readable(events) => {
                let (action, results) = self.dispatch_all(events);
                assert(batch_done(
                    (old(self).table(), old(self).dirty()),
                    (self.table(), self.dirty()),
                    events@,
                    results@,
                    action is Stop,
                ));
                action
            },
            Input::Request(request) => match self.watches.handle_request(request) {
                None => Action::Continue,
                Some(request) => Action::AddWatch(request),
            },
            Input::WatchAdded(wd, request) => {
                match self.watches.handle_request(request) {
                    None => {},
                    Some(request) => self.watches.complete_request(wd, request),
                }
                Action::Continue
            },
            Input::Tick => {
                if self.watches.is_dirty() {
                    Action::RemoveWatches(self.watches.clean_watches().0)
                } else {
                    Action::Continue
                }
            },
        }
    }
}

} // verus!
