use crate::laws::delivery::{lemma_run_history, lemma_step_history, lemma_terminated};
use crate::laws::steps::{lemma_deliver_inv, lemma_run_inv, lemma_step_inv};
use crate::model::{load, weight, Event, PoolState, PoolView};
use crate::worker::WorkerStatus;
use vstd::prelude::*;

verus! {

/// Changing one worker's status changes the load by the difference of the
/// two weights.
proof fn lemma_load_update(workers: Seq<WorkerStatus>, id: int, status: WorkerStatus)
    requires
        0 <= id < workers.len(),
    ensures
        load(workers.update(id, status)) + weight(workers[id]) == load(workers) + weight(status),
    decreases workers.len(),
{
    let changed = workers.update(id, status);
    if id == workers.len() - 1 {
        assert(changed.drop_last() =~= workers.drop_last());
    } else {
        assert(changed.drop_last() =~= workers.drop_last().update(id, status));
        lemma_load_update(workers.drop_last(), id, status);
    }
}

/// The load is zero exactly when every worker has been collected.
proof fn lemma_load_zero(workers: Seq<WorkerStatus>)
    ensures
        load(workers) == 0 <==> forall|i: int|
            0 <= i < workers.len() ==> workers[i] == WorkerStatus::Joined,
    decreases workers.len(),
{
    if workers.len() > 0 {
        let front = workers.drop_last();
        lemma_load_zero(front);
        if load(workers) == 0 {
            assert forall|i: int| 0 <= i < workers.len() implies workers[i]
                == WorkerStatus::Joined by {
                if i < front.len() {
                    assert(front[i] == workers[i]);
                }
            }
        } else if weight(workers.last()) == 0 {
            let i = choose|i: int| 0 <= i < front.len() && front[i] != WorkerStatus::Joined;
            assert(workers[i] != WorkerStatus::Joined);
        }
    }
}

/// Among workers of which one has not been collected there is a first
/// such.
proof fn lemma_first_uncollected(workers: Seq<WorkerStatus>, k: int) -> (id: int)
    requires
        0 <= k < workers.len(),
        workers[k] != WorkerStatus::Joined,
    ensures
        0 <= id <= k,
        workers[id] != WorkerStatus::Joined,
        forall|j: int| 0 <= j < id ==> workers[j] == WorkerStatus::Joined,
    decreases k,
{
    if exists|j: int| 0 <= j < k && workers[j] != WorkerStatus::Joined {
        let j = choose|j: int| 0 <= j < k && workers[j] != WorkerStatus::Joined;
        lemma_first_uncollected(workers, j)
    } else {
        k
    }
}

/// At any moment teardown has at most one worker to collect next.
pub proof fn lemma_joins_next_unique<J>(s: PoolView<J>, a: int, b: int)
    requires
        s.joins_next(a),
        s.joins_next(b),
    ensures
        a == b,
{
    if a < b {
        assert(s.workers[a] == WorkerStatus::Joined);
    } else if b < a {
        assert(s.workers[b] == WorkerStatus::Joined);
    }
}

/// A pool's life runs one way: a running pool stays running until it is
/// closed, a closed pool shuts down until its last worker is collected, and
/// a terminated pool stays terminated, where nothing but a repeated close
/// can happen to it.
pub proof fn lemma_step_state<J>(s: PoolView<J>, event: Event<J>)
    requires
        s.inv(),
        s.enabled(event),
    ensures
        match s.state() {
            PoolState::Running => s.step(event).state() == (if event is Close {
                PoolState::ShuttingDown
            } else {
                PoolState::Running
            }),
            PoolState::ShuttingDown => s.step(event).state() != PoolState::Running,
            PoolState::Terminated => event is Close && s.step(event) == s,
        },
{
    lemma_step_inv(s, event);
    let n = s.step(event);
    match s.state() {
        PoolState::Running => {
            if event is Close {
                assert(s.workers[0] != WorkerStatus::Joined);
                assert(n.workers[0] != WorkerStatus::Joined);
            }
        },
        PoolState::ShuttingDown => {},
        PoolState::Terminated => {
            lemma_terminated(s);
            match event {
                Event::Dispatch(id) => {
                    assert(s.worker_is(id, WorkerStatus::Joined));
                },
                Event::Complete(id) => {
                    assert(s.worker_is(id, WorkerStatus::Joined));
                },
                _ => {},
            }
        },
    }
}

/// Teardown of a closed pool is over exactly when nothing remains to be
/// done.
pub proof fn lemma_remaining_zero<J>(s: PoolView<J>)
    requires
        s.inv(),
        !s.channel.open,
    ensures
        s.remaining() == 0 <==> s.state() == PoolState::Terminated,
{
    lemma_load_zero(s.workers);
    if s.state() == PoolState::Terminated {
        lemma_terminated(s);
    }
}

/// In a closed pool every event but a repeated close brings teardown one
/// step nearer to its end.
pub proof fn lemma_teardown_step<J>(s: PoolView<J>, event: Event<J>)
    requires
        s.inv(),
        !s.channel.open,
        s.enabled(event),
        !(event is Close),
    ensures
        s.step(event).remaining() + 1 == s.remaining(),
{
    match event {
        Event::Submit(job) => {},
        Event::Dispatch(id) => {
            if s.pending().len() > 0 {
                lemma_deliver_inv(s, id);
                lemma_load_update(s.workers, id, WorkerStatus::Busy);
            } else {
                lemma_load_update(s.workers, id, WorkerStatus::Exited);
            }
        },
        Event::Complete(id) => {
            lemma_load_update(s.workers, id, WorkerStatus::Idle);
        },
        Event::Close => {},
        Event::Join(id) => {
            lemma_load_update(s.workers, id, WorkerStatus::Joined);
        },
    }
}

/// Teardown never gets stuck: as long as a closed pool has a worker that
/// was not collected, some worker can report its job done, ask for work, or
/// be collected.
pub proof fn lemma_teardown_progress<J>(s: PoolView<J>) -> (event: Event<J>)
    requires
        s.inv(),
        s.state() == PoolState::ShuttingDown,
    ensures
        s.enabled(event),
        !(event is Close),
        !(event is Submit),
{
    if exists|i: int| s.worker_is(i, WorkerStatus::Busy) {
        let i = choose|i: int| s.worker_is(i, WorkerStatus::Busy);
        Event::Complete(i)
    } else if exists|i: int| s.worker_is(i, WorkerStatus::Idle) {
        let i = choose|i: int| s.worker_is(i, WorkerStatus::Idle);
        Event::Dispatch(i)
    } else {
        let k = choose|k: int| 0 <= k < s.workers.len() && s.workers[k] != WorkerStatus::Joined;
        let id = lemma_first_uncollected(s.workers, k);
        assert(!s.worker_is(id, WorkerStatus::Busy));
        assert(!s.worker_is(id, WorkerStatus::Idle));
        Event::Join(id)
    }
}

/// Running `first` and then `rest` is running the two one after the other.
proof fn lemma_run_prepend<J>(s: PoolView<J>, first: Event<J>, rest: Seq<Event<J>>)
    ensures
        s.run(seq![first] + rest) == s.step(first).run(rest),
        s.admits(seq![first] + rest) == (s.enabled(first) && s.step(first).admits(rest)),
    decreases rest.len(),
{
    let all = seq![first] + rest;
    if rest.len() == 0 {
        assert(all.drop_last() =~= Seq::<Event<J>>::empty());
        assert(all.last() == first);
        assert(s.run(all.drop_last()) == s);
        assert(s.admits(all.drop_last()));
        assert(s.step(first).admits(rest));
    } else {
        let front = seq![first] + rest.drop_last();
        assert(all.drop_last() =~= front);
        assert(all.last() == rest.last());
        lemma_run_prepend(s, first, rest.drop_last());
        assert(s.admits(all) == (s.admits(front) && s.run(front).enabled(rest.last())));
        assert(s.step(first).admits(rest) == (s.step(first).admits(rest.drop_last())
            && s.step(first).run(rest.drop_last()).enabled(rest.last())));
    }
}

/// Teardown takes exactly as many events as remain: whatever a closed pool
/// goes through, repeated closes aside, the number of events that remain
/// goes down by the number of events that happened. So no teardown is
/// longer than what remained at its start, and one of that length has
/// collected every worker.
pub proof fn lemma_teardown_length<J>(s: PoolView<J>, events: Seq<Event<J>>)
    requires
        s.inv(),
        !s.channel.open,
        s.admits(events),
        forall|k: int| 0 <= k < events.len() ==> !(#[trigger] events[k] is Close),
    ensures
        s.run(events).remaining() + events.len() == s.remaining(),
        events.len() <= s.remaining(),
        events.len() == s.remaining() <==> s.run(events).state() == PoolState::Terminated,
    decreases events.len(),
{
    lemma_run_inv(s, events);
    lemma_run_history(s, events);
    if events.len() > 0 {
        let front = events.drop_last();
        assert forall|k: int| 0 <= k < front.len() implies !(#[trigger] front[k] is Close) by {
            assert(front[k] == events[k]);
        }
        lemma_teardown_length(s, front);
        lemma_run_inv(s, front);
        lemma_run_history(s, front);
        assert(!(events[events.len() - 1] is Close));
        lemma_teardown_step(s.run(front), events.last());
    }
    lemma_remaining_zero(s.run(events));
}

/// Every closed pool can be torn down: there are events, as many as remain,
/// that may happen one after the other and leave the pool terminated, with
/// every job that it ever accepted completed.
pub proof fn lemma_teardown_completes<J>(s: PoolView<J>) -> (events: Seq<Event<J>>)
    requires
        s.inv(),
        !s.channel.open,
    ensures
        s.admits(events),
        events.len() == s.remaining(),
        s.run(events).state() == PoolState::Terminated,
        s.run(events).channel.sent == s.channel.sent,
        forall|t: int| 0 <= t < s.channel.sent.len() ==> s.run(events).done(t),
    decreases s.remaining(),
{
    lemma_remaining_zero(s);
    let events = if s.state() == PoolState::Terminated {
        Seq::<Event<J>>::empty()
    } else {
        let first = lemma_teardown_progress(s);
        lemma_step_inv(s, first);
        lemma_step_history(s, first);
        lemma_teardown_step(s, first);
        let rest = lemma_teardown_completes(s.step(first));
        lemma_run_prepend(s, first, rest);
        seq![first] + rest
    };
    lemma_run_inv(s, events);
    lemma_run_history(s, events);
    lemma_terminated(s.run(events));
    assert(s.run(events).channel.sent =~= s.channel.sent);
    events
}

} // verus!
