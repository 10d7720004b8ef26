use crate::model::{Event, PoolState, PoolView};
use crate::worker::WorkerStatus;
use vstd::prelude::*;

verus! {

/// A freshly built pool satisfies the invariant, has exactly `size`
/// workers, all of them idle, and is running.
pub proof fn lemma_fresh_inv<J>(size: nat)
    requires
        size >= 1,
    ensures
        PoolView::<J>::fresh(size).inv(),
        PoolView::<J>::fresh(size).size() == size,
        forall|i: int| 0 <= i < size ==> PoolView::<J>::fresh(size).worker_is(i, WorkerStatus::Idle),
        PoolView::<J>::fresh(size).state() == PoolState::Running,
        PoolView::<J>::fresh(size).pending().len() == 0,
{
    let s = PoolView::<J>::fresh(size);
    assert(s.channel.pending() =~= Seq::<J>::empty());
}

/// Accepting a job keeps the invariant and appends the job to the waiting
/// ones; nothing else changes.
pub proof fn lemma_submit_inv<J>(s: PoolView<J>, job: J)
    requires
        s.inv(),
        s.channel.open,
    ensures
        s.submit(job).inv(),
        s.submit(job).pending() == s.pending().push(job),
{
    let n = s.submit(job);
    assert(n.pending() =~= s.pending().push(job));
    assert forall|t: int| 0 <= t < n.assigned.len() implies (#[trigger] n.running(t)
        <==> !n.completed.contains(t)) by {
        assert(n.running(t) == s.running(t));
    }
    assert forall|i: int|
        0 <= i < n.workers.len() && (#[trigger] n.workers[i] == WorkerStatus::Exited
            || n.workers[i] == WorkerStatus::Joined) implies !n.channel.open
        && n.channel.received == n.channel.sent.len() by {
        assert(s.workers[i] == n.workers[i]);
    }
}

/// Handing the oldest waiting job to an idle worker keeps the invariant.
pub proof fn lemma_deliver_inv<J>(s: PoolView<J>, id: int)
    requires
        s.inv(),
        s.worker_is(id, WorkerStatus::Idle),
        s.pending().len() > 0,
    ensures
        s.deliver(id).inv(),
        s.deliver(id).pending() == s.pending().skip(1),
        s.deliver(id).running(s.assigned.len() as int),
{
    let n = s.deliver(id);
    let fresh = s.assigned.len() as int;
    assert(n.pending() =~= s.pending().skip(1));
    assert forall|t: int| 0 <= t < n.assigned.len() implies 0 <= #[trigger] n.assigned[t]
        < n.workers.len() by {
        if t < fresh {
            assert(n.assigned[t] == s.assigned[t]);
        }
    }
    assert forall|k: int| 0 <= k < n.completed.len() implies 0 <= #[trigger] n.completed[k]
        < n.assigned.len() by {
        assert(n.completed[k] == s.completed[k]);
    }
    assert forall|i: int|
        0 <= i < n.workers.len() && #[trigger] n.workers[i] == WorkerStatus::Busy implies 0
        <= n.holding[i] < n.assigned.len() && n.assigned[n.holding[i]] == i by {
        if i != id {
            assert(s.workers[i] == WorkerStatus::Busy);
        }
    }
    assert(!s.completed.contains(fresh)) by {
        if s.completed.contains(fresh) {
            let k = choose|k: int| 0 <= k < s.completed.len() && s.completed[k] == fresh;
            assert(s.completed[k] < s.assigned.len());
        }
    }
    assert forall|t: int| 0 <= t < n.assigned.len() implies (#[trigger] n.running(t)
        <==> !n.completed.contains(t)) by {
        if t < fresh {
            assert(n.assigned[t] == s.assigned[t]);
            assert(s.running(t) <==> !s.completed.contains(t));
            if s.assigned[t] == id {
                assert(!s.running(t));
                assert(!n.running(t));
            } else {
                assert(n.running(t) == s.running(t));
            }
        }
    }
    assert forall|i: int|
        0 <= i < n.workers.len() && (#[trigger] n.workers[i] == WorkerStatus::Exited
            || n.workers[i] == WorkerStatus::Joined) implies !n.channel.open
        && n.channel.received == n.channel.sent.len() by {
        assert(s.workers[i] == n.workers[i]);
        assert(s.channel.received == s.channel.sent.len());
    }
    assert forall|i: int, j: int|
        0 <= i < j < n.workers.len() && #[trigger] n.workers[j]
            == WorkerStatus::Joined implies #[trigger] n.workers[i] == WorkerStatus::Joined by {
        assert(s.workers[j] == WorkerStatus::Joined);
        assert(s.workers[i] == WorkerStatus::Joined);
    }
}

/// An idle worker that leaves once the channel is closed and drained keeps
/// the invariant.
pub proof fn lemma_retire_inv<J>(s: PoolView<J>, id: int)
    requires
        s.inv(),
        s.worker_is(id, WorkerStatus::Idle),
        !s.channel.open,
        s.pending().len() == 0,
    ensures
        s.retire(id).inv(),
{
    let n = s.retire(id);
    assert forall|i: int|
        0 <= i < n.workers.len() && #[trigger] n.workers[i] == WorkerStatus::Busy implies 0
        <= n.holding[i] < n.assigned.len() && n.assigned[n.holding[i]] == i by {
        assert(s.workers[i] == WorkerStatus::Busy);
    }
    assert forall|t: int| 0 <= t < n.assigned.len() implies (#[trigger] n.running(t)
        <==> !n.completed.contains(t)) by {
        assert(s.running(t) <==> !s.completed.contains(t));
        assert(n.running(t) == s.running(t));
    }
    assert forall|i: int, j: int|
        0 <= i < j < n.workers.len() && #[trigger] n.workers[j]
            == WorkerStatus::Joined implies #[trigger] n.workers[i] == WorkerStatus::Joined by {
        assert(s.workers[j] == WorkerStatus::Joined);
        assert(s.workers[i] == WorkerStatus::Joined);
    }
}

/// Asking for work keeps the invariant, whatever the answer is.
pub proof fn lemma_dispatch_inv<J>(s: PoolView<J>, id: int)
    requires
        s.inv(),
        s.worker_is(id, WorkerStatus::Idle),
    ensures
        s.dispatch(id).inv(),
{
    if s.pending().len() > 0 {
        lemma_deliver_inv(s, id);
    } else if !s.channel.open {
        lemma_retire_inv(s, id);
    }
}

/// A busy worker that reports its job done keeps the invariant; its ticket
/// joins the completed ones, where it did not stand before.
pub proof fn lemma_complete_inv<J>(s: PoolView<J>, id: int)
    requires
        s.inv(),
        s.worker_is(id, WorkerStatus::Busy),
    ensures
        s.complete(id).inv(),
        s.running(s.holding[id]),
        !s.completed.contains(s.holding[id]),
        s.complete(id).completed.contains(s.holding[id]),
{
    let n = s.complete(id);
    let t0 = s.holding[id];
    assert(s.workers[id] == WorkerStatus::Busy);
    assert(s.running(t0));
    assert(!s.completed.contains(t0));
    assert(n.completed[s.completed.len() as int] == t0);
    assert(n.completed.no_duplicates()) by {
        assert forall|a: int, b: int|
            0 <= a < n.completed.len() && 0 <= b < n.completed.len() && a != b implies n.completed[a]
            != n.completed[b] by {
            if a < s.completed.len() && b < s.completed.len() {
                assert(s.completed[a] != s.completed[b]);
            } else if a < s.completed.len() {
                assert(s.completed[a] != t0);
            } else {
                assert(s.completed[b] != t0);
            }
        }
    }
    assert forall|k: int| 0 <= k < n.completed.len() implies 0 <= #[trigger] n.completed[k]
        < n.assigned.len() by {
        if k < s.completed.len() {
            assert(n.completed[k] == s.completed[k]);
        }
    }
    assert forall|i: int|
        0 <= i < n.workers.len() && #[trigger] n.workers[i] == WorkerStatus::Busy implies 0
        <= n.holding[i] < n.assigned.len() && n.assigned[n.holding[i]] == i by {
        assert(s.workers[i] == WorkerStatus::Busy);
    }
    assert forall|t: int| 0 <= t < n.assigned.len() implies (#[trigger] n.running(t)
        <==> !n.completed.contains(t)) by {
        assert(s.running(t) <==> !s.completed.contains(t));
        if t == t0 {
            assert(!n.running(t));
        } else {
            if s.assigned[t] == id {
                assert(!s.running(t));
                assert(!n.running(t));
            } else {
                assert(n.running(t) == s.running(t));
            }
            if n.completed.contains(t) {
                let k = choose|k: int| 0 <= k < n.completed.len() && n.completed[k] == t;
                assert(k < s.completed.len());
                assert(s.completed[k] == t);
            }
            if s.completed.contains(t) {
                let k = choose|k: int| 0 <= k < s.completed.len() && s.completed[k] == t;
                assert(n.completed[k] == t);
            }
        }
    }
    assert forall|i: int|
        0 <= i < n.workers.len() && (#[trigger] n.workers[i] == WorkerStatus::Exited
            || n.workers[i] == WorkerStatus::Joined) implies !n.channel.open
        && n.channel.received == n.channel.sent.len() by {
        assert(s.workers[i] == n.workers[i]);
    }
    assert forall|i: int, j: int|
        0 <= i < j < n.workers.len() && #[trigger] n.workers[j]
            == WorkerStatus::Joined implies #[trigger] n.workers[i] == WorkerStatus::Joined by {
        assert(s.workers[j] == WorkerStatus::Joined);
        assert(s.workers[i] == WorkerStatus::Joined);
    }
}

/// Closing the channel keeps the invariant and leaves the waiting jobs in
/// place.
pub proof fn lemma_close_inv<J>(s: PoolView<J>)
    requires
        s.inv(),
    ensures
        s.close().inv(),
        s.close().pending() == s.pending(),
        !s.close().channel.open,
{
    let n = s.close();
    assert forall|t: int| 0 <= t < n.assigned.len() implies (#[trigger] n.running(t)
        <==> !n.completed.contains(t)) by {
        assert(n.running(t) == s.running(t));
    }
    assert forall|i: int|
        0 <= i < n.workers.len() && (#[trigger] n.workers[i] == WorkerStatus::Exited
            || n.workers[i] == WorkerStatus::Joined) implies !n.channel.open
        && n.channel.received == n.channel.sent.len() by {
        assert(s.workers[i] == n.workers[i]);
    }
}

/// Collecting the next worker in index order, once it has left its loop,
/// keeps the invariant.
pub proof fn lemma_join_inv<J>(s: PoolView<J>, id: int)
    requires
        s.inv(),
        s.joins_next(id),
        s.worker_is(id, WorkerStatus::Exited),
    ensures
        s.join(id).inv(),
{
    let n = s.join(id);
    assert(s.workers[id] == WorkerStatus::Exited);
    assert forall|i: int|
        0 <= i < n.workers.len() && #[trigger] n.workers[i] == WorkerStatus::Busy implies 0
        <= n.holding[i] < n.assigned.len() && n.assigned[n.holding[i]] == i by {
        assert(s.workers[i] == WorkerStatus::Busy);
    }
    assert forall|t: int| 0 <= t < n.assigned.len() implies (#[trigger] n.running(t)
        <==> !n.completed.contains(t)) by {
        assert(s.running(t) <==> !s.completed.contains(t));
        assert(n.running(t) == s.running(t));
    }
    assert forall|i: int|
        0 <= i < n.workers.len() && (#[trigger] n.workers[i] == WorkerStatus::Exited
            || n.workers[i] == WorkerStatus::Joined) implies !n.channel.open
        && n.channel.received == n.channel.sent.len() by {
    }
    assert forall|i: int, j: int|
        0 <= i < j < n.workers.len() && #[trigger] n.workers[j]
            == WorkerStatus::Joined implies #[trigger] n.workers[i] == WorkerStatus::Joined by {
        if j != id {
            assert(s.workers[j] == WorkerStatus::Joined);
            if i != id {
                assert(s.workers[i] == WorkerStatus::Joined);
            }
        }
    }
}

/// Every event that may happen keeps the invariant and the number of
/// workers.
pub proof fn lemma_step_inv<J>(s: PoolView<J>, event: Event<J>)
    requires
        s.inv(),
        s.enabled(event),
    ensures
        s.step(event).inv(),
        s.step(event).size() == s.size(),
{
    match event {
        Event::Submit(job) => lemma_submit_inv(s, job),
        Event::Dispatch(id) => lemma_dispatch_inv(s, id),
        Event::Complete(id) => lemma_complete_inv(s, id),
        Event::Close => lemma_close_inv(s),
        Event::Join(id) => lemma_join_inv(s, id),
    }
}

/// Whatever happens to a pool, in whatever order, it satisfies the
/// invariant afterwards and has as many workers as before.
pub proof fn lemma_run_inv<J>(s: PoolView<J>, events: Seq<Event<J>>)
    requires
        s.inv(),
        s.admits(events),
    ensures
        s.run(events).inv(),
        s.run(events).size() == s.size(),
    decreases events.len(),
{
    if events.len() > 0 {
        lemma_run_inv(s, events.drop_last());
        lemma_step_inv(s.run(events.drop_last()), events.last());
    }
}

/// An event moves at most one worker, and that one a single step along
/// its life cycle.
pub proof fn lemma_step_lifecycle<J>(s: PoolView<J>, event: Event<J>, id: int)
    requires
        s.inv(),
        s.enabled(event),
        0 <= id < s.size(),
    ensures
        s.step(event).workers[id] == s.workers[id] || s.workers[id].precedes(
            s.step(event).workers[id],
        ),
        forall|other: int|
            0 <= other < s.size() && other != id && s.step(event).workers[id] != s.workers[id]
                ==> s.step(event).workers[other] == s.workers[other],
{
}

} // verus!
