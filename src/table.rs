//! The watch table: one kernel watch per path, shared by any number of
//! subscriptions, each with its own filter and delivery channel.

use crate::events::{event_of_mask, DirectoryWatchEvent, FileWatchEvent};
use crate::primitives::{offer, once_closed, send_once, stream_closed, SendOutcome};
use nix::sys::inotify::WatchDescriptor;
use tokio::sync::mpsc::Sender as StreamSender;
use tokio::sync::oneshot::Sender as OnceSender;
use vstd::prelude::*;

verus! {

/// Where a subscription's events go.
pub enum Delivery {
    /// A single event, then the subscription is exhausted.
    Once(OnceSender<DirectoryWatchEvent>),
    /// Every matching event, while the receiver lives.
    Stream(StreamSender<DirectoryWatchEvent>),
    /// A one-shot sender that has been used.
    Spent,
}

/// A registration as it travels to the task that owns the table.
pub enum WatchRequestInner {
    /// Watch `path` for events in `filter`; `dir` asks for events on
    /// entries inside a directory too.
    Start { path: String, filter: u32, dir: bool, sender: Delivery },
    /// A subscriber went away: the table deserves a sweep.
    Drop,
}

/// One caller's interest in a watched path.
pub struct Subscription {
    /// The kernel mask bits the caller wants to hear of.
    pub filter: u32,
    /// Whether events on entries inside a watched directory are wanted.
    pub dir: bool,
    /// Marked for removal at the next sweep; no longer handed events.
    pub remove: bool,
    pub sender: Delivery,
}

/// A kernel watch and the subscriptions that share it, in order of
/// registration.
pub struct WatchState {
    pub wd: WatchDescriptor,
    pub path: String,
    pub watchers: Vec<Subscription>,
}

/// A raw event read from the kernel.
pub struct RawEvent {
    pub wd: WatchDescriptor,
    pub mask: u32,
    /// Pairs the two halves of a move.
    pub cookie: u32,
    /// The entry inside a watched directory that the event concerns.
    pub name: Option<String>,
}

/// What dispatching one raw event did.
pub enum Dispatch {
    /// The kernel's notice that it dropped a watch: nothing to deliver.
    Ignored,
    /// The mask is not exactly one reported kind: the event was skipped.
    Unsupported(u32),
    /// The event went to its watch: `event` is what was handed over, and
    /// `outcomes` holds, for each subscription in order, the outcome of
    /// handing it over, or `None` where the subscription did not want it.
    Delivered { event: DirectoryWatchEvent, outcomes: Vec<Option<SendOutcome>> },
}

/// A broken invariant found while dispatching.
#[derive(Debug, Clone, Copy, PartialEq, Eq, Structural)]
pub enum DispatchError {
    /// The kernel reported an event for a descriptor the table does not
    /// track.
    UntrackedDescriptor,
}

/// The table of kernel watches. Each entry carries both its descriptor and
/// its path, so the two keys cannot disagree; each occurs at most once.
/// `dirty` says that some subscription is marked for removal.
pub struct Watches {
    pub(crate) watches: Vec<WatchState>,
    pub(crate) dirty: bool,
}

/// An entry of the table as the contracts see it: descriptor, path,
/// subscriptions in order of registration.
pub type EntryView = (WatchDescriptor, Seq<char>, Seq<Subscription>);

/// How the contracts see one watch.
pub open spec fn entry_view(e: WatchState) -> EntryView {
    (e.wd, e.path@, e.watchers@)
}

/// How the contracts see a list of watches.
pub open spec fn entries_view(es: Seq<WatchState>) -> Seq<EntryView> {
    es.map_values(|e: WatchState| entry_view(e))
}

impl View for Watches {
    type V = Seq<EntryView>;

    closed spec fn view(&self) -> Seq<EntryView> {
        entries_view(self.watches@)
    }
}

/// Whether a subscription wants an event with this mask, on the watched
/// object itself (`named` false) or on an entry inside it (`named` true).
pub open spec fn wants(sub: Subscription, mask: u32, named: bool) -> bool {
    &&& !sub.remove
    &&& (sub.dir || !named)
    &&& mask & sub.filter != 0
}

/// A subscription after an event was or was not handed to it.
pub open spec fn after_delivery(sub: Subscription, outcome: Option<SendOutcome>) -> Subscription {
    match outcome {
        None => sub,
        Some(o) => match sub.sender {
            Delivery::Stream(_) => if o == SendOutcome::Closed {
                Subscription { remove: true, ..sub }
            } else {
                sub
            },
            _ => Subscription { remove: true, sender: Delivery::Spent, ..sub },
        },
    }
}

/// The subscription that a registration becomes.
pub open spec fn subscription_of(filter: u32, dir: bool, sender: Delivery) -> Subscription {
    Subscription { filter, dir, remove: false, sender }
}

/// The subscriptions of a list that are not marked for removal, in order.
pub open spec fn live(subs: Seq<Subscription>) -> Seq<Subscription>
    decreases subs.len(),
{
    if subs.len() == 0 {
        Seq::empty()
    } else if subs.last().remove {
        live(subs.drop_last())
    } else {
        live(subs.drop_last()).push(subs.last())
    }
}

/// The table after a sweep: marked subscriptions dropped, and watches left
/// without subscriptions removed.
pub open spec fn swept(es: Seq<EntryView>) -> Seq<EntryView>
    decreases es.len(),
{
    if es.len() == 0 {
        Seq::empty()
    } else if live(es.last().2).len() == 0 {
        swept(es.drop_last())
    } else {
        swept(es.drop_last()).push((es.last().0, es.last().1, live(es.last().2)))
    }
}

/// The descriptors of the watches a sweep removes, in table order.
pub open spec fn released(es: Seq<EntryView>) -> Seq<WatchDescriptor>
    decreases es.len(),
{
    if es.len() == 0 {
        Seq::empty()
    } else if live(es.last().2).len() == 0 {
        released(es.drop_last()).push(es.last().0)
    } else {
        released(es.drop_last())
    }
}

/// No two watches share a descriptor or a path.
pub open spec fn distinct(es: Seq<EntryView>) -> bool {
    forall|i: int, j: int| 0 <= i < j < es.len() ==> es[i].0 != es[j].0 && es[i].1 != es[j].1
}

/// Every watch left by a sweep is a watch of `es` with its live
/// subscriptions, of which it has at least one.
proof fn lemma_swept_from(es: Seq<EntryView>)
    ensures
        swept(es).len() <= es.len(),
        forall|i: int|
            0 <= i < swept(es).len() ==> exists|t: int|
                0 <= t < es.len() && #[trigger] swept(es)[i] == (es[t].0, es[t].1, live(es[t].2)),
        forall|i: int| 0 <= i < swept(es).len() ==> #[trigger] swept(es)[i].2.len() > 0,
        distinct(es) ==> distinct(swept(es)),
    decreases es.len(),
{
    if es.len() > 0 {
        let init = es.drop_last();
        lemma_swept_from(init);
        assert forall|i: int| 0 <= i < swept(init).len() implies exists|t: int|
            0 <= t < es.len() && #[trigger] swept(init)[i] == (es[t].0, es[t].1, live(es[t].2)) by {
            let t = choose|t: int|
                0 <= t < init.len() && #[trigger] swept(init)[i] == (
                    init[t].0,
                    init[t].1,
                    live(init[t].2),
                );
            assert(es[t] == init[t]);
        }
        if distinct(es) {
            assert(distinct(init));
            assert forall|i: int| 0 <= i < swept(init).len() implies swept(init)[i].0 != es.last().0
                && swept(init)[i].1 != es.last().1 by {
                let t = choose|t: int|
                    0 <= t < init.len() && #[trigger] swept(init)[i] == (
                        init[t].0,
                        init[t].1,
                        live(init[t].2),
                    );
                assert(es[t] == init[t]);
            }
        }
    }
}

/// A subscription after the sweep's check of its receiver: marked where it
/// was marked already, where its one-shot sender is spent, or where the
/// check reported its receiver `gone`; otherwise unchanged.
pub open spec fn marked_if_gone(a: Subscription, gone: bool) -> Subscription {
    Subscription { remove: a.remove || a.sender is Spent || gone, ..a }
}

/// Entry `b` is entry `a` after the checks reported `gone`, one for each
/// subscription in order.
pub open spec fn entry_marked(a: EntryView, b: EntryView, gone: Seq<bool>) -> bool {
    &&& b.0 == a.0
    &&& b.1 == a.1
    &&& b.2.len() == a.2.len()
    &&& gone.len() == a.2.len()
    &&& forall|j: int| 0 <= j < a.2.len() ==> b.2[j] == marked_if_gone(a.2[j], gone[j])
}

/// `after` is `before` after the checks reported `gone`, one list for each
/// watch in order.
pub open spec fn marked_by(before: Seq<EntryView>, after: Seq<EntryView>, gone: Seq<Seq<bool>>) -> bool {
    &&& after.len() == before.len()
    &&& gone.len() == before.len()
    &&& forall|k: int| 0 <= k < before.len() ==> entry_marked(before[k], after[k], gone[k])
}

/// The reports of the checks, as the contracts see them.
pub open spec fn reports(gone: Seq<Vec<bool>>) -> Seq<Seq<bool>> {
    gone.map_values(|row: Vec<bool>| row@)
}

/// The kernel's mask bit of a watch it has dropped, after a removal or after
/// the watched object went away. Such a notice may come for a descriptor
/// that a sweep already took out of the table.
pub const MASK_IGNORED: u32 = 0x8000;

/// Whether the mask is the kernel's notice of a dropped watch.
pub open spec fn is_ignored(mask: u32) -> bool {
    mask & MASK_IGNORED != 0
}

/// The position of the watch with descriptor `wd`.
pub open spec fn wd_index(es: Seq<EntryView>, wd: WatchDescriptor) -> int {
    choose|k: int| 0 <= k < es.len() && es[k].0 == wd
}

/// Subscriptions after an event was handed to each with the given outcome,
/// or not handed where the outcome is `None`.
pub open spec fn delivered_subs(subs: Seq<Subscription>, outs: Seq<Option<SendOutcome>>) -> Seq<
    Subscription,
> {
    Seq::new(subs.len(), |j: int| after_delivery(subs[j], outs[j]))
}

/// Whether some subscription is marked in `after` that was not in `before`.
pub open spec fn newly_marked(before: Seq<Subscription>, after: Seq<Subscription>) -> bool {
    exists|j: int| 0 <= j < before.len() && after[j].remove && !before[j].remove
}

/// Whether `r` is a result that dispatching `event` on table `es` may give.
/// A notice of a dropped watch is passed over; otherwise an untracked
/// descriptor is an error, whatever the mask; an unsupported mask is
/// skipped; a supported one is handed, as one event, to exactly the
/// subscriptions of the watch that want it.
pub open spec fn result_fits(es: Seq<EntryView>, event: RawEvent, r: Result<Dispatch, DispatchError>) -> bool {
    if is_ignored(event.mask) {
        r == Ok::<Dispatch, DispatchError>(Dispatch::Ignored)
    } else if !wd_in(es, event.wd) {
        r == Err::<Dispatch, DispatchError>(DispatchError::UntrackedDescriptor)
    } else if event_of_mask(event.mask) is None {
        r == Ok::<Dispatch, DispatchError>(Dispatch::Unsupported(event.mask))
    } else {
        let subs = es[wd_index(es, event.wd)].2;
        &&& r matches Ok(Dispatch::Delivered { event: sent, outcomes })
        &&& r->Ok_0->Delivered_event == DirectoryWatchEvent {
            inner_path: event.name,
            event: event_of_mask(event.mask)->0,
        }
        &&& r->Ok_0->Delivered_outcomes@.len() == subs.len()
        &&& forall|j: int|
            0 <= j < subs.len() ==> (#[trigger] r->Ok_0->Delivered_outcomes@[j] is Some == wants(
                subs[j],
                event.mask,
                event.name is Some,
            ))
    }
}

/// The table and dirty flag after dispatching `event` with result `r`: only
/// a delivery changes anything, and only the subscriptions of its watch.
pub open spec fn apply_result(
    es: Seq<EntryView>,
    dirty: bool,
    event: RawEvent,
    r: Result<Dispatch, DispatchError>,
) -> (Seq<EntryView>, bool) {
    match r {
        Ok(Dispatch::Delivered { event: _, outcomes }) => {
            let k = wd_index(es, event.wd);
            let subs = delivered_subs(es[k].2, outcomes@);
            (es.update(k, (es[k].0, es[k].1, subs)), dirty || newly_marked(es[k].2, subs))
        },
        _ => (es, dirty),
    }
}

/// The table and dirty flag after dispatching the first `results.len()`
/// events, in order, with those results.
pub open spec fn run_batch(
    es: Seq<EntryView>,
    dirty: bool,
    events: Seq<RawEvent>,
    results: Seq<Result<Dispatch, DispatchError>>,
) -> (Seq<EntryView>, bool)
    decreases results.len(),
{
    if results.len() == 0 {
        (es, dirty)
    } else {
        let prev = run_batch(es, dirty, events, results.drop_last());
        apply_result(prev.0, prev.1, events[results.len() - 1], results.last())
    }
}

/// Each result is one that its event may give on the table it met.
pub open spec fn batch_fits(
    es: Seq<EntryView>,
    dirty: bool,
    events: Seq<RawEvent>,
    results: Seq<Result<Dispatch, DispatchError>>,
) -> bool
    decreases results.len(),
{
    &&& results.len() <= events.len()
    &&& results.len() > 0 ==> {
        let prev = run_batch(es, dirty, events, results.drop_last());
        &&& batch_fits(es, dirty, events, results.drop_last())
        &&& result_fits(prev.0, events[results.len() - 1], results.last())
    }
}

/// Whether a subscription `sub` of the watch with descriptor `wd` takes
/// `event`: a supported event on that watch that it wants.
pub open spec fn takes(sub: Subscription, wd: WatchDescriptor, event: RawEvent) -> bool {
    &&& !is_ignored(event.mask)
    &&& event.wd == wd
    &&& event_of_mask(event.mask) is Some
    &&& wants(sub, event.mask, event.name is Some)
}

/// Whether dispatch result `r` handed its event to subscription `j` of the
/// watch it went to.
pub open spec fn handed_to(r: Result<Dispatch, DispatchError>, j: int) -> bool {
    &&& r matches Ok(Dispatch::Delivered { event: _, outcomes: _ })
    &&& 0 <= j < r->Ok_0->Delivered_outcomes@.len()
    &&& r->Ok_0->Delivered_outcomes@[j] is Some
}

/// A batch keeps every watch's descriptor, path and number of
/// subscriptions.
proof fn lemma_batch_shape(
    es: Seq<EntryView>,
    dirty: bool,
    events: Seq<RawEvent>,
    results: Seq<Result<Dispatch, DispatchError>>,
)
    requires
        distinct(es),
        batch_fits(es, dirty, events, results),
    ensures
        ({
            let t = run_batch(es, dirty, events, results).0;
            &&& t.len() == es.len()
            &&& forall|a: int|
                0 <= a < es.len() ==> (#[trigger] t[a]).0 == es[a].0 && t[a].1 == es[a].1
                    && t[a].2.len() == es[a].2.len()
            &&& distinct(t)
        }),
    decreases results.len(),
{
    if results.len() > 0 {
        lemma_batch_shape(es, dirty, events, results.drop_last());
        let prev = run_batch(es, dirty, events, results.drop_last());
        let t = prev.0;
        let e = events[results.len() - 1];
        let r = results.last();
        if r is Ok && r->Ok_0 is Delivered {
            let kk = wd_index(t, e.wd);
            assert(wd_in(t, e.wd));
            let after = run_batch(es, dirty, events, results).0;
            assert forall|a: int| 0 <= a < es.len() implies (#[trigger] after[a]).0 == es[a].0
                && after[a].1 == es[a].1 && after[a].2.len() == es[a].2.len() by {
                assert(t[a].0 == es[a].0);
            }
        }
        let after = run_batch(es, dirty, events, results).0;
        assert forall|a: int, b: int| 0 <= a < b < after.len() implies after[a].0 != after[b].0
            && after[a].1 != after[b].1 by {
            assert(after[a].0 == es[a].0 && after[a].1 == es[a].1);
            assert(after[b].0 == es[b].0 && after[b].1 == es[b].1);
        }
    }
}

/// In a batch dispatched as `dispatch_all` states, a one-shot subscription
/// is handed the first event it takes, and no other; it is marked once it
/// has been handed one, and left exactly as it was where none came.
pub proof fn lemma_once_takes_first_in_batch(
    es: Seq<EntryView>,
    dirty: bool,
    events: Seq<RawEvent>,
    results: Seq<Result<Dispatch, DispatchError>>,
    k: int,
    j: int,
)
    requires
        distinct(es),
        batch_fits(es, dirty, events, results),
        0 <= k < es.len(),
        0 <= j < es[k].2.len(),
        es[k].2[j].sender is Once,
        !es[k].2[j].remove,
    ensures
        forall|i: int|
            0 <= i < results.len() ==> ((events[i].wd == es[k].0 && handed_to(
                #[trigger] results[i],
                j,
            )) == (takes(es[k].2[j], es[k].0, events[i]) && forall|t: int|
                0 <= t < i ==> !takes(es[k].2[j], es[k].0, #[trigger] events[t]))),
        (exists|i: int| 0 <= i < results.len() && takes(es[k].2[j], es[k].0, #[trigger] events[i]))
            ==> run_batch(es, dirty, events, results).0[k].2[j].remove,
        !(exists|i: int| 0 <= i < results.len() && takes(es[k].2[j], es[k].0, #[trigger] events[i]))
            ==> run_batch(es, dirty, events, results).0[k].2[j] == es[k].2[j],
    decreases results.len(),
{
    let sub = es[k].2[j];
    let wd = es[k].0;
    if results.len() > 0 {
        let n = results.len() - 1;
        let init = results.drop_last();
        lemma_once_takes_first_in_batch(es, dirty, events, init, k, j);
        lemma_batch_shape(es, dirty, events, init);
        let t = run_batch(es, dirty, events, init).0;
        let e = events[n];
        let r = results.last();
        assert(result_fits(t, e, r));
        assert(t[k].0 == wd);
        let prior = exists|i: int| 0 <= i < init.len() && takes(sub, wd, #[trigger] events[i]);
        let after = run_batch(es, dirty, events, results).0;
        if r is Ok && r->Ok_0 is Delivered {
            assert(!is_ignored(e.mask) && wd_in(t, e.wd) && event_of_mask(e.mask) is Some);
            let kk = wd_index(t, e.wd);
            if e.wd == wd {
                if kk != k {
                    if kk < k {
                        assert(t[kk].0 != t[k].0);
                    } else {
                        assert(t[k].0 != t[kk].0);
                    }
                }
                assert(after[k].2[j] == after_delivery(t[k].2[j], r->Ok_0->Delivered_outcomes@[j]));
                assert(r->Ok_0->Delivered_outcomes@[j] is Some == wants(
                    t[k].2[j],
                    e.mask,
                    e.name is Some,
                ));
            } else {
                assert(after[k] == t[k]);
                assert(!takes(sub, wd, e));
            }
        } else {
            assert(after == t);
            assert(!takes(sub, wd, e));
            assert(!handed_to(r, j));
        }
        assert forall|i: int| 0 <= i < results.len() implies ((events[i].wd == wd && handed_to(
            #[trigger] results[i],
            j,
        )) == (takes(sub, wd, events[i]) && forall|u: int|
            0 <= u < i ==> !takes(sub, wd, #[trigger] events[u]))) by {
            if i < n {
                assert(results[i] == init[i]);
            } else {
                if prior {
                    let w = choose|w: int| 0 <= w < init.len() && takes(sub, wd, #[trigger] events[w]);
                    assert(!takes(sub, wd, events[w]) || w < i);
                }
            }
        }
        if exists|i: int| 0 <= i < results.len() && takes(sub, wd, #[trigger] events[i]) {
            if !prior {
                let w = choose|w: int| 0 <= w < results.len() && takes(sub, wd, #[trigger] events[w]);
                assert(w == n);
            }
        } else {
            assert forall|i: int| 0 <= i < init.len() implies !takes(sub, wd, #[trigger] events[i]) by {}
        }
    }
}

/// A plain file subscription is never handed an event on an entry inside a
/// directory; a directory subscription is handed those its filter selects.
pub proof fn lemma_named_events(sub: Subscription, mask: u32)
    ensures
        !sub.dir ==> !wants(sub, mask, true),
        sub.dir ==> (wants(sub, mask, true) == (!sub.remove && mask & sub.filter != 0)),
{
}

/// Whether some watch of `es` is on `path`.
pub open spec fn path_in(es: Seq<EntryView>, path: Seq<char>) -> bool {
    exists|i: int| 0 <= i < es.len() && es[i].1 == path
}

/// Whether some watch of `es` has descriptor `wd`.
pub open spec fn wd_in(es: Seq<EntryView>, wd: WatchDescriptor) -> bool {
    exists|i: int| 0 <= i < es.len() && es[i].0 == wd
}

/// `es` with `sub` added to the subscriptions of watch `k`.
pub open spec fn join(es: Seq<EntryView>, k: int, sub: Subscription) -> Seq<EntryView> {
    es.update(k, (es[k].0, es[k].1, es[k].2.push(sub)))
}

/// Two registrations on one path make one kernel watch carrying two
/// subscriptions; when the first is exhausted and swept, the watch stays,
/// and the second with it.
pub proof fn lemma_register_twice(
    es: Seq<EntryView>,
    wd: WatchDescriptor,
    path: Seq<char>,
    s1: Subscription,
    s2: Subscription,
)
    requires
        distinct(es),
        !path_in(es, path),
        !wd_in(es, wd),
    ensures
        ({
            let first = es.push((wd, path, seq![s1]));
            let both = join(first, es.len() as int, s2);
            &&& path_in(first, path)
            &&& distinct(both)
            &&& forall|k: int| 0 <= k < both.len() && both[k].1 == path ==> k == es.len()
            &&& both[es.len() as int] == (wd, path, seq![s1, s2])
        }),
        s1.remove && !s2.remove ==> {
            &&& swept(seq![(wd, path, seq![s1, s2])]) == seq![(wd, path, seq![s2])]
            &&& released(seq![(wd, path, seq![s1, s2])]) == Seq::<WatchDescriptor>::empty()
        },
{
    let first = es.push((wd, path, seq![s1]));
    let both = join(first, es.len() as int, s2);
    assert(first[es.len() as int].1 == path);
    assert(seq![s1].push(s2) =~= seq![s1, s2]);
    assert forall|k: int| 0 <= k < both.len() && both[k].1 == path implies k == es.len() by {
        if k < es.len() {
            assert(both[k] == es[k]);
        }
    }
    if s1.remove && !s2.remove {
        let subs = seq![s1, s2];
        assert(subs.drop_last() =~= seq![s1]);
        assert(subs.last() == s2);
        assert(seq![s1].drop_last() =~= Seq::<Subscription>::empty());
        assert(seq![s1].last() == s1);
        assert(live(seq![s1]) == live(Seq::<Subscription>::empty()));
        assert(live(subs) == live(seq![s1]).push(s2));
        assert(live(subs) =~= seq![s2]);
        let one = seq![(wd, path, subs)];
        assert(one.drop_last() =~= Seq::<EntryView>::empty());
        assert(one.last() == (wd, path, subs));
        assert(live(one.last().2).len() == 1);
        assert(swept(one) == swept(Seq::<EntryView>::empty()).push((wd, path, live(subs))));
        assert(swept(one) =~= seq![(wd, path, seq![s2])]);
        assert(released(one) == released(Seq::<EntryView>::empty()));
    }
}

proof fn lemma_live_unmarked(subs: Seq<Subscription>)
    ensures
        forall|j: int| 0 <= j < live(subs).len() ==> !(#[trigger] live(subs)[j]).remove,
        (forall|j: int| 0 <= j < subs.len() ==> (#[trigger] subs[j]).remove) ==> live(subs).len()
            == 0,
    decreases subs.len(),
{
    if subs.len() > 0 {
        lemma_live_unmarked(subs.drop_last());
        if forall|j: int| 0 <= j < subs.len() ==> (#[trigger] subs[j]).remove {
            assert forall|j: int| 0 <= j < subs.drop_last().len() implies (#[trigger] subs.drop_last()[j]).remove by {
                assert(subs.drop_last()[j] == subs[j]);
            }
            assert(subs[subs.len() - 1].remove);
        }
    }
}

/// A watch each of whose subscriptions was marked already or reported gone
/// by the sweep's checks is released and gone from the table after it.
pub proof fn lemma_reported_gone_released(
    before: Seq<EntryView>,
    m: Seq<EntryView>,
    checks: Seq<Seq<bool>>,
    k: int,
)
    requires
        distinct(before),
        marked_by(before, m, checks),
        0 <= k < before.len(),
        forall|j: int| 0 <= j < before[k].2.len() ==> before[k].2[j].remove || checks[k][j],
    ensures
        released(m).contains(before[k].0),
        !wd_in(swept(m), before[k].0),
{
    assert(entry_marked(before[k], m[k], checks[k]));
    assert forall|a: int, b: int| 0 <= a < b < m.len() implies m[a].0 != m[b].0 && m[a].1 != m[b].1 by {
        assert(entry_marked(before[a], m[a], checks[a]));
        assert(entry_marked(before[b], m[b], checks[b]));
    }
    assert forall|j: int| 0 <= j < m[k].2.len() implies (#[trigger] m[k].2[j]).remove by {
        assert(m[k].2[j] == marked_if_gone(before[k].2[j], checks[k][j]));
    }
    lemma_sweep_releases(m, k);
}

proof fn lemma_released_has(es: Seq<EntryView>, k: int)
    requires
        0 <= k < es.len(),
        live(es[k].2).len() == 0,
    ensures
        released(es).contains(es[k].0),
    decreases es.len(),
{
    let init = es.drop_last();
    if k == es.len() - 1 {
        assert(released(es).last() == es[k].0);
        assert(released(es)[released(es).len() - 1] == es[k].0);
    } else {
        assert(init[k] == es[k]);
        lemma_released_has(init, k);
        let i = choose|i: int| 0 <= i < released(init).len() && released(init)[i] == es[k].0;
        assert(released(es)[i] == es[k].0);
    }
}

/// After a sweep no subscription marked for removal remains, and a watch
/// whose subscriptions were all marked is gone from the table and among
/// the descriptors handed back for release in the kernel.
pub proof fn lemma_sweep_releases(es: Seq<EntryView>, k: int)
    requires
        distinct(es),
        0 <= k < es.len(),
        forall|j: int| 0 <= j < es[k].2.len() ==> (#[trigger] es[k].2[j]).remove,
    ensures
        released(es).contains(es[k].0),
        !wd_in(swept(es), es[k].0),
        forall|i: int, j: int|
            0 <= i < swept(es).len() && 0 <= j < swept(es)[i].2.len() ==> !(#[trigger] swept(
                es,
            )[i].2[j]).remove,
{
    lemma_live_unmarked(es[k].2);
    lemma_released_has(es, k);
    lemma_swept_from(es);
    assert forall|i: int| 0 <= i < swept(es).len() implies swept(es)[i].0 != es[k].0 by {
        let t = choose|t: int|
            0 <= t < es.len() && #[trigger] swept(es)[i] == (es[t].0, es[t].1, live(es[t].2));
        assert(swept(es)[i].2.len() > 0);
        if t == k {
            assert(swept(es)[i].2 == live(es[k].2));
        } else {
            if t < k {
                assert(es[t].0 != es[k].0);
            } else {
                assert(es[k].0 != es[t].0);
            }
        }
    }
    assert forall|i: int, j: int|
        0 <= i < swept(es).len() && 0 <= j < swept(es)[i].2.len() implies !(#[trigger] swept(
        es,
    )[i].2[j]).remove by {
        let t = choose|t: int|
            0 <= t < es.len() && #[trigger] swept(es)[i] == (es[t].0, es[t].1, live(es[t].2));
        lemma_live_unmarked(es[t].2);
    }
}

impl Subscription {
    /// Marks this subscription for removal where the check of its receiver
    /// reported it `gone`, or where its one-shot sender is spent.
    pub fn mark_if_gone(&mut self, gone: bool)
        ensures
            *final(self) == marked_if_gone(*old(self), gone),
    {
        let spent = match &self.sender {
            Delivery::Spent => true,
            _ => false,
        };
        if gone || spent {
            self.remove = true;
        }
    }
}

impl Watches {
    /// Descriptors and paths are each unique in the table.
    pub open spec fn wf(&self) -> bool {
        distinct(self@)
    }

    /// Whether a sweep is warranted.
    pub closed spec fn marked_dirty(&self) -> bool {
        self.dirty
    }

    /// Whether the table holds a watch on `path`.
    pub open spec fn has_path(&self, path: Seq<char>) -> bool {
        exists|i: int| 0 <= i < self@.len() && self@[i].1 == path
    }

    /// Whether the table holds a watch with descriptor `wd`.
    pub open spec fn has_wd(&self, wd: WatchDescriptor) -> bool {
        exists|i: int| 0 <= i < self@.len() && self@[i].0 == wd
    }

    /// An empty table.
    pub fn new() -> (r: Watches)
        ensures
            r.wf(),
            r@ == Seq::<EntryView>::empty(),
            !r.marked_dirty(),
    {
        let r = Watches { watches: Vec::new(), dirty: false };
        assert(r@ =~= Seq::<EntryView>::empty());
        r
    }

    /// Whether a sweep is warranted.
    pub fn is_dirty(&self) -> (r: bool)
        ensures
            r == self.marked_dirty(),
    {
        self.dirty
    }

    /// The number of kernel watches held.
    pub fn watch_count(&self) -> (r: usize)
        ensures
            r == self@.len(),
    {
        self.watches.len()
    }

    /// The index of the watch on `path`.
    pub fn find_path(&self, path: &String) -> (r: Option<usize>)
        requires
            self.wf(),
        ensures
            match r {
                Some(k) => k < self@.len() && self@[k as int].1 == path@,
                None => !self.has_path(path@),
            },
    {
        let mut i: usize = 0;
        while i < self.watches.len()
            invariant
                i <= self.watches@.len(),
                forall|j: int| 0 <= j < i ==> self@[j].1 != path@,
            decreases self.watches@.len() - i,
        {
            if self.watches[i].path == *path {
                return Some(i);
            }
            i = i + 1;
        }
        None
    }

    /// The index of the watch with descriptor `wd`.
    pub fn find_wd(&self, wd: &WatchDescriptor) -> (r: Option<usize>)
        requires
            self.wf(),
        ensures
            match r {
                Some(k) => k < self@.len() && self@[k as int].0 == *wd,
                None => !self.has_wd(*wd),
            },
    {
        let mut i: usize = 0;
        while i < self.watches.len()
            invariant
                i <= self.watches@.len(),
                forall|j: int| 0 <= j < i ==> self@[j].0 != *wd,
            decreases self.watches@.len() - i,
        {
            if self.watches[i].wd == *wd {
                return Some(i);
            }
            i = i + 1;
        }
        None
    }

    /// The number of subscriptions on the watch of `path`, marked ones
    /// included.
    pub fn subscriber_count(&self, path: &String) -> (r: usize)
        requires
            self.wf(),
        ensures
            forall|k: int| 0 <= k < self@.len() && self@[k].1 == path@ ==> r == self@[k].2.len(),
            !self.has_path(path@) ==> r == 0,
    {
        match self.find_path(path) {
            Some(k) => self.watches[k].watchers.len(),
            None => 0,
        }
    }
    /// Handles a registration. A registration for a path that already has
    /// a watch joins it, and `None` comes back. One for a new path comes
    /// back unchanged, with the table untouched: the caller establishes the
    /// kernel watch and hands the request to `complete_request`.
    pub fn handle_request(&mut self, request: WatchRequestInner) -> (r: Option<WatchRequestInner>)
        requires
            old(self).wf(),
        ensures
            final(self).wf(),
            match request {
                WatchRequestInner::Drop => {
                    &&& r is None
                    &&& final(self)@ == old(self)@
                    &&& final(self).marked_dirty()
                },
                WatchRequestInner::Start { path, filter, dir, sender } => {
                    &&& final(self).marked_dirty() == old(self).marked_dirty()
                    &&& old(self).has_path(path@) ==> r is None
                    &&& forall|k: int|
                        0 <= k < old(self)@.len() && old(self)@[k].1 == path@ ==> final(self)@
                            == old(self)@.update(
                            k,
                            (
                                old(self)@[k].0,
                                old(self)@[k].1,
                                old(self)@[k].2.push(subscription_of(filter, dir, sender)),
                            ),
                        )
                    &&& !old(self).has_path(path@) ==> r == Some(request) && final(self)@ == old(
                        self,
                    )@
                },
            },
    {
        match request {
            WatchRequestInner::Drop => {
                self.dirty = true;
                None
            },
            WatchRequestInner::Start { path, filter, dir, sender } => {
                match self.find_path(&path) {
                    Some(k) => {
                        let watch = Subscription { filter, dir, remove: false, sender };
                        self.watches[k].watchers.push(watch);
                        assert(self@ =~= old(self)@.update(
                            k as int,
                            (
                                old(self)@[k as int].0,
                                old(self)@[k as int].1,
                                old(self)@[k as int].2.push(subscription_of(filter, dir, sender)),
                            ),
                        ));
                        None
                    },
                    None => Some(WatchRequestInner::Start { path, filter, dir, sender }),
                }
            },
        }
    }

    /// Completes a registration whose path had no watch, now that the
    /// kernel has handed out `wd` for it. Where `wd` is already in the table
    /// (the kernel watches the same object under another path), the
    /// subscription joins that watch; otherwise a new watch is recorded.
    pub fn complete_request(&mut self, wd: WatchDescriptor, request: WatchRequestInner)
        requires
            old(self).wf(),
            match request {
                WatchRequestInner::Start { path, .. } => !old(self).has_path(path@),
                WatchRequestInner::Drop => true,
            },
        ensures
            final(self).wf(),
            match request {
                WatchRequestInner::Drop => final(self)@ == old(self)@ && final(self).marked_dirty(),
                WatchRequestInner::Start { path, filter, dir, sender } => {
                    &&& final(self).marked_dirty() == old(self).marked_dirty()
                    &&& forall|k: int|
                        0 <= k < old(self)@.len() && old(self)@[k].0 == wd ==> final(self)@
                            == old(self)@.update(
                            k,
                            (
                                old(self)@[k].0,
                                old(self)@[k].1,
                                old(self)@[k].2.push(subscription_of(filter, dir, sender)),
                            ),
                        )
                    &&& !old(self).has_wd(wd) ==> final(self)@ == old(self)@.push(
                        (wd, path@, seq![subscription_of(filter, dir, sender)]),
                    )
                },
            },
    {
        match request {
            WatchRequestInner::Drop => {
                self.dirty = true;
            },
            WatchRequestInner::Start { path, filter, dir, sender } => {
                let watch = Subscription { filter, dir, remove: false, sender };
                match self.find_wd(&wd) {
                    Some(k) => {
                        self.watches[k].watchers.push(watch);
                        assert(self@ =~= old(self)@.update(
                            k as int,
                            (
                                old(self)@[k as int].0,
                                old(self)@[k as int].1,
                                old(self)@[k as int].2.push(subscription_of(filter, dir, sender)),
                            ),
                        ));
                    },
                    None => {
                        let mut watchers: Vec<Subscription> = Vec::new();
                        watchers.push(watch);
                        let state = WatchState { wd, path, watchers };
                        self.watches.push(state);
                        assert(watchers@ =~= seq![subscription_of(filter, dir, sender)]);
                        assert(self@ =~= old(self)@.push(
                            (wd, path@, seq![subscription_of(filter, dir, sender)]),
                        ));
                    },
                }
            },
        }
    }
    /// Hands one subscription the event, if it wants it, and records what
    /// followed: a one-shot subscription is exhausted, a stream whose
    /// receiver is gone is marked for removal.
    fn deliver_to(sub: &mut Subscription, event: &DirectoryWatchEvent, mask: u32) -> (r: Option<
        SendOutcome,
    >)
        ensures
            r is Some == wants(*old(sub), mask, event.inner_path is Some),
            *final(sub) == after_delivery(*old(sub), r),
    {
        if sub.remove || (!sub.dir && event.inner_path.is_some()) || mask & sub.filter == 0 {
            return None;
        }
        let mut sender = Delivery::Spent;
        std::mem::swap(&mut sender, &mut sub.sender);
        let outcome = match sender {
            Delivery::Once(tx) => {
                let o = send_once(tx, event.duplicate());
                sub.remove = true;
                o
            },
            Delivery::Stream(tx) => {
                let o = offer(&tx, event.duplicate());
                if o == SendOutcome::Closed {
                    sub.remove = true;
                }
                sub.sender = Delivery::Stream(tx);
                o
            },
            Delivery::Spent => {
                sub.remove = true;
                SendOutcome::Closed
            },
        };
        Some(outcome)
    }

    /// Dispatches one raw kernel event to the subscriptions of its watch,
    /// in order of registration.
    pub fn handle_event(&mut self, event: RawEvent) -> (r: Result<Dispatch, DispatchError>)
        requires
            old(self).wf(),
        ensures
            final(self).wf(),
            result_fits(old(self)@, event, r),
            (final(self)@, final(self).marked_dirty()) == apply_result(
                old(self)@,
                old(self).marked_dirty(),
                event,
                r,
            ),
    {
        if event.mask & MASK_IGNORED != 0 {
            return Ok(Dispatch::Ignored);
        }
        let k = match self.find_wd(&event.wd) {
            Some(k) => k,
            None => {
                return Err(DispatchError::UntrackedDescriptor);
            },
        };
        proof {
            assert(wd_index(old(self)@, event.wd) == k as int) by {
                let c = wd_index(old(self)@, event.wd);
                if c != k as int {
                    if c < k as int {
                        assert(old(self)@[c].0 != old(self)@[k as int].0);
                    } else {
                        assert(old(self)@[k as int].0 != old(self)@[c].0);
                    }
                }
            }
        }
        let kind = match FileWatchEvent::from_mask(event.mask) {
            Ok(kind) => kind,
            Err(mask) => {
                return Ok(Dispatch::Unsupported(mask));
            },
        };
        let mask = event.mask;
        let delivered = DirectoryWatchEvent { inner_path: event.name, event: kind };
        let mut subs: Vec<Subscription> = Vec::new();
        std::mem::swap(&mut subs, &mut self.watches[k].watchers);
        let ghost old_subs = subs@;
        let mut out: Vec<Option<SendOutcome>> = Vec::new();
        let mut marked = false;
        let mut j: usize = 0;
        while j < subs.len()
            invariant
                subs@.len() == old_subs.len(),
                j <= old_subs.len(),
                out@.len() == j,
                delivered.inner_path is Some == event.name is Some,
                forall|t: int| 0 <= t < j ==> (out@[t] is Some == wants(
                    old_subs[t],
                    mask,
                    event.name is Some,
                )),
                forall|t: int| 0 <= t < j ==> subs@[t] == after_delivery(old_subs[t], out@[t]),
                forall|t: int| j <= t < old_subs.len() ==> subs@[t] == old_subs[t],
                marked == exists|t: int| 0 <= t < j && subs@[t].remove && !old_subs[t].remove,
            decreases old_subs.len() - j,
        {
            let was_removed = subs[j].remove;
            let o = Self::deliver_to(&mut subs[j], &delivered, mask);
            if subs[j].remove && !was_removed {
                marked = true;
            }
            out.push(o);
            j = j + 1;
        }
        std::mem::swap(&mut subs, &mut self.watches[k].watchers);
        if marked {
            self.dirty = true;
        }
        let ghost ki = k as int;
        assert(self.watches@[ki].watchers@ =~= delivered_subs(old_subs, out@));
        assert(self@ =~= old(self)@.update(
            ki,
            (old(self)@[ki].0, old(self)@[ki].1, delivered_subs(old_subs, out@)),
        ));
        assert(forall|i: int|
            0 <= i < self@.len() ==> self@[i].0 == old(self)@[i].0 && self@[i].1 == old(
                self,
            )@[i].1);
        Ok(Dispatch::Delivered { event: delivered, outcomes: out })
    }
    /// Checks the receiver of every subscription not yet marked, marks
    /// those reported gone, and returns the reports, one list for each
    /// watch; a marked subscription is not checked and reported `false`.
    pub fn mark_closed(&mut self) -> (gone: Vec<Vec<bool>>)
        requires
            old(self).wf(),
        ensures
            final(self).wf(),
            marked_by(old(self)@, final(self)@, reports(gone@)),
            forall|k: int, j: int|
                0 <= k < old(self)@.len() && 0 <= j < old(self)@[k].2.len() && old(self)@[k].2[j].remove
                    ==> !(#[trigger] reports(gone@)[k][j]),
            final(self).marked_dirty() == old(self).marked_dirty(),
    {
        let mut rows: Vec<Vec<bool>> = Vec::new();
        let mut k: usize = 0;
        while k < self.watches.len()
            invariant
                self@.len() == old(self)@.len(),
                k <= self@.len(),
                rows@.len() == k,
                self.dirty == old(self).dirty,
                forall|t: int| 0 <= t < k ==> entry_marked(old(self)@[t], self@[t], #[trigger] rows@[t]@),
                forall|t: int, j: int|
                    0 <= t < k && 0 <= j < old(self)@[t].2.len() && old(self)@[t].2[j].remove ==> !(
                    #[trigger] rows@[t]@[j]),
                forall|t: int| k <= t < self@.len() ==> self@[t] == old(self)@[t],
            decreases self@.len() - k,
        {
            let ghost pre = self@;
            let mut subs: Vec<Subscription> = Vec::new();
            std::mem::swap(&mut subs, &mut self.watches[k].watchers);
            let ghost before = subs@;
            let mut row: Vec<bool> = Vec::new();
            let mut j: usize = 0;
            while j < subs.len()
                invariant
                    subs@.len() == before.len(),
                    j <= before.len(),
                    row@.len() == j,
                    forall|t: int| 0 <= t < j ==> subs@[t] == marked_if_gone(before[t], row@[t]),
                    forall|t: int| 0 <= t < j && before[t].remove ==> !row@[t],
                    forall|t: int| j <= t < before.len() ==> subs@[t] == before[t],
                decreases before.len() - j,
            {
                let gone = if subs[j].remove {
                    false
                } else {
                    match &subs[j].sender {
                        Delivery::Once(tx) => once_closed(tx),
                        Delivery::Stream(tx) => stream_closed(tx),
                        Delivery::Spent => true,
                    }
                };
                subs[j].mark_if_gone(gone);
                row.push(gone);
                j = j + 1;
            }
            let ghost done = subs@;
            std::mem::swap(&mut subs, &mut self.watches[k].watchers);
            assert(self@ =~= pre.update(k as int, (pre[k as int].0, pre[k as int].1, done)));
            rows.push(row);
            assert(entry_marked(old(self)@[k as int], self@[k as int], rows@[k as int]@));
            k = k + 1;
        }
        assert(reports(rows@) =~= rows@.map_values(|row: Vec<bool>| row@));
        assert forall|t: int| 0 <= t < self@.len() implies entry_marked(
            old(self)@[t],
            self@[t],
            reports(rows@)[t],
        ) by {
            assert(reports(rows@)[t] == rows@[t]@);
        }
        assert forall|t: int, j: int|
            0 <= t < old(self)@.len() && 0 <= j < old(self)@[t].2.len() && old(self)@[t].2[j].remove
                implies !(#[trigger] reports(rows@)[t][j]) by {
            assert(reports(rows@)[t] == rows@[t]@);
        }
        assert forall|a: int, b: int| 0 <= a < b < self@.len() implies self@[a].0 != self@[b].0
            && self@[a].1 != self@[b].1 by {
            assert(entry_marked(old(self)@[a], self@[a], rows@[a]@));
            assert(entry_marked(old(self)@[b], self@[b], rows@[b]@));
        }
        rows
    }

    /// The periodic maintenance: checks the receivers of the subscriptions
    /// not yet marked and marks those reported gone, drops the marked ones,
    /// drops the watches left without subscriptions, and returns their
    /// descriptors, for the caller to release in the kernel, with the
    /// reports of the checks. A subscription not marked before, with a
    /// sender not spent, is dropped only where its check reported it gone.
    /// The table is clean afterwards.
    pub fn clean_watches(&mut self) -> (r: (Vec<WatchDescriptor>, Vec<Vec<bool>>))
        requires
            old(self).wf(),
        ensures
            final(self).wf(),
            !final(self).marked_dirty(),
            exists|m: Seq<EntryView>|
                {
                    &&& #[trigger] marked_by(old(self)@, m, reports(r.1@))
                    &&& final(self)@ == swept(m)
                    &&& r.0@ == released(m)
                },
    {
        let gone = self.mark_closed();
        let ghost m = self@;
        let dropped = self.sweep();
        proof {
            lemma_swept_from(m);
        }
        let r = (dropped, gone);
        assert(marked_by(old(self)@, m, reports(r.1@)));
        assert(self@ == swept(m));
        assert(r.0@ == released(m));
        r
    }

    /// The subscriptions of `subs` that are not marked for removal.
    fn keep_live(subs: Vec<Subscription>) -> (r: Vec<Subscription>)
        ensures
            r@ == live(subs@),
    {
        let ghost all = subs@;
        let mut rest = subs;
        let mut kept: Vec<Subscription> = Vec::new();
        while rest.len() > 0
            invariant
                rest@.len() <= all.len(),
                rest@ == all.subrange(all.len() - rest@.len(), all.len() as int),
                kept@ == live(all.subrange(0, all.len() - rest@.len())),
            decreases rest@.len(),
        {
            let ghost j = all.len() - rest@.len();
            let sub = rest.remove(0);
            assert(all.subrange(0, j + 1).drop_last() =~= all.subrange(0, j));
            assert(all.subrange(0, j + 1).last() == all[j]);
            assert(rest@ =~= all.subrange(j + 1, all.len() as int));
            if !sub.remove {
                kept.push(sub);
            }
        }
        assert(all.subrange(0, all.len() as int) =~= all);
        kept
    }

    /// Drops every marked subscription and every watch left without
    /// subscriptions, and returns the descriptors of the watches dropped,
    /// which the caller releases in the kernel.
    fn sweep(&mut self) -> (r: Vec<WatchDescriptor>)
        requires
            old(self).wf(),
        ensures
            final(self)@ == swept(old(self)@),
            r@ == released(old(self)@),
            !final(self).marked_dirty(),
    {
        let ghost all = self@;
        let mut kept: Vec<WatchState> = Vec::new();
        let mut gone: Vec<WatchDescriptor> = Vec::new();
        let mut k: usize = 0;
        while k < self.watches.len()
            invariant
                self@.len() == all.len(),
                k <= all.len(),
                forall|t: int| k <= t < all.len() ==> self@[t] == all[t],
                entries_view(kept@) == swept(all.subrange(0, k as int)),
                gone@ == released(all.subrange(0, k as int)),
            decreases all.len() - k,
        {
            let ghost pre = self@;
            let mut subs: Vec<Subscription> = Vec::new();
            std::mem::swap(&mut subs, &mut self.watches[k].watchers);
            assert(subs@ == all[k as int].2);
            assert(all.subrange(0, k + 1).drop_last() =~= all.subrange(0, k as int));
            assert(all.subrange(0, k + 1).last() == all[k as int]);
            let live_subs = Self::keep_live(subs);
            let wd = self.watches[k].wd;
            if live_subs.len() == 0 {
                gone.push(wd);
            } else {
                let ghost kept_before = kept@;
                let path = self.watches[k].path.clone();
                kept.push(WatchState { wd, path, watchers: live_subs });
                assert(entries_view(kept@) =~= entries_view(kept_before).push(
                    (all[k as int].0, all[k as int].1, live(all[k as int].2)),
                ));
            }
            assert(forall|t: int| k < t < all.len() ==> self@[t] == pre[t]);
            k = k + 1;
        }
        assert(all.subrange(0, all.len() as int) =~= all);
        self.watches = kept;
        self.dirty = false;
        gone
    }
}

} // verus!
