use crate::laws::steps::{lemma_deliver_inv, lemma_fresh_inv, lemma_run_inv};
use crate::model::{submitted, Event, PoolState, PoolView};
use crate::worker::WorkerStatus;
use vstd::prelude::*;
use vstd::set_lib::lemma_int_range;

verus! {

/// An event only adds to the history: what was accepted, delivered and
/// completed before it stays so, in the same order and with the same
/// workers. Jobs are added by submission alone, and a closed pool stays
/// closed.
pub proof fn lemma_step_history<J>(s: PoolView<J>, event: Event<J>)
    requires
        s.inv(),
        s.enabled(event),
    ensures
        s.channel.sent.is_prefix_of(s.step(event).channel.sent),
        s.assigned.is_prefix_of(s.step(event).assigned),
        s.completed.is_prefix_of(s.step(event).completed),
        !s.channel.open ==> !s.step(event).channel.open,
        match event {
            Event::Submit(job) => s.step(event).channel.sent == s.channel.sent.push(job),
            _ => s.step(event).channel.sent == s.channel.sent,
        },
{
}

/// The same over any number of events: the history after them extends the
/// history before them, the jobs accepted meanwhile are exactly those that
/// were submitted, in the order of submission, and a closed pool stays
/// closed.
pub proof fn lemma_run_history<J>(s: PoolView<J>, events: Seq<Event<J>>)
    requires
        s.inv(),
        s.admits(events),
    ensures
        s.run(events).channel.sent == s.channel.sent + submitted(events),
        s.assigned.is_prefix_of(s.run(events).assigned),
        s.completed.is_prefix_of(s.run(events).completed),
        !s.channel.open ==> !s.run(events).channel.open && submitted(events).len() == 0,
    decreases events.len(),
{
    if events.len() == 0 {
        assert(s.channel.sent =~= s.channel.sent + submitted(events));
    } else {
        let before = s.run(events.drop_last());
        lemma_run_history(s, events.drop_last());
        lemma_run_inv(s, events.drop_last());
        lemma_step_history(before, events.last());
        assert(s.run(events).channel.sent =~= s.channel.sent + submitted(events));
    }
}

/// Jobs leave the channel in the order in which they were accepted: the
/// `k`-th waiting job is the one with ticket `delivered + k`, and the job
/// handed out next is the one accepted earliest among those waiting.
pub proof fn lemma_fifo<J>(s: PoolView<J>, k: int)
    requires
        s.inv(),
        0 <= k < s.pending().len(),
    ensures
        s.pending().len() == s.channel.sent.len() - s.assigned.len(),
        s.pending()[k] == s.channel.sent[s.assigned.len() + k],
        s.waiting(s.assigned.len() + k),
{
}

/// Every accepted job is in exactly one place: waiting in the channel,
/// running, or completed. A running job is with exactly one worker, which
/// runs nothing else, and a completed job stands exactly once in the record
/// of completions.
pub proof fn lemma_exactly_once<J>(s: PoolView<J>, t: int)
    requires
        s.inv(),
        0 <= t < s.channel.sent.len(),
    ensures
        s.waiting(t) || s.running(t) || s.done(t),
        !(s.waiting(t) && s.running(t)),
        !(s.waiting(t) && s.done(t)),
        !(s.running(t) && s.done(t)),
        forall|i: int|
            s.worker_is(i, WorkerStatus::Busy) && s.holding[i] == t ==> s.running(t)
                && i == s.assigned[t],
        forall|u: int| s.running(t) && s.running(u) && s.assigned[u] == s.assigned[t] ==> u == t,
        forall|a: int, b: int|
            0 <= a < s.completed.len() && 0 <= b < s.completed.len() && s.completed[a] == t
                && s.completed[b] == t ==> a == b,
{
    if t < s.assigned.len() {
        assert(s.running(t) <==> !s.completed.contains(t));
    } else {
        if s.completed.contains(t) {
            let k = choose|k: int| 0 <= k < s.completed.len() && s.completed[k] == t;
            assert(s.completed[k] < s.assigned.len());
        }
    }
    assert forall|i: int| s.worker_is(i, WorkerStatus::Busy) && s.holding[i] == t implies s.running(
        t,
    ) && i == s.assigned[t] by {
        assert(s.workers[i] == WorkerStatus::Busy);
    }
}

/// A busy worker does not keep an idle one from work: while a job is
/// waiting, an idle worker that asks is handed the oldest waiting job at
/// once, and the busy worker goes on with its own.
pub proof fn lemma_busy_worker_does_not_block<J>(s: PoolView<J>, busy: int, idle: int)
    requires
        s.inv(),
        s.worker_is(busy, WorkerStatus::Busy),
        s.worker_is(idle, WorkerStatus::Idle),
        s.pending().len() > 0,
    ensures
        s.enabled(Event::Dispatch(idle)),
        s.step(Event::Dispatch(idle)) == s.deliver(idle),
        s.deliver(idle).worker_is(idle, WorkerStatus::Busy),
        s.deliver(idle).running(s.assigned.len() as int),
        s.deliver(idle).assigned[s.assigned.len() as int] == idle,
        s.deliver(idle).worker_is(busy, WorkerStatus::Busy),
        s.deliver(idle).running(s.holding[busy]),
        s.deliver(idle).holding[busy] == s.holding[busy],
{
    lemma_deliver_inv(s, idle);
    assert(s.workers[busy] == WorkerStatus::Busy);
}

/// No worker leaves while the pool is open or a job is waiting: where a
/// worker has left, the channel is closed and drained.
pub proof fn lemma_worker_leaves_drained_pool<J>(s: PoolView<J>, id: int)
    requires
        s.inv(),
        s.worker_is(id, WorkerStatus::Exited) || s.worker_is(id, WorkerStatus::Joined),
    ensures
        !s.channel.open,
        s.pending().len() == 0,
        s.assigned.len() == s.channel.sent.len(),
{
    assert(s.workers[id] == WorkerStatus::Exited || s.workers[id] == WorkerStatus::Joined);
}

/// Once teardown is over, no worker is left and no job is lost: every
/// worker has been collected, nothing is waiting or running, and every job
/// that was ever accepted stands exactly once in the record of completions.
pub proof fn lemma_terminated<J>(s: PoolView<J>)
    requires
        s.inv(),
        s.state() == PoolState::Terminated,
    ensures
        !s.channel.open,
        forall|i: int| 0 <= i < s.size() ==> s.worker_is(i, WorkerStatus::Joined),
        s.pending().len() == 0,
        forall|t: int| 0 <= t < s.channel.sent.len() ==> s.done(t) && !s.running(t) && !s.waiting(t),
        s.completed.no_duplicates(),
        s.completed.len() == s.channel.sent.len(),
{
    assert(s.workers[0] == WorkerStatus::Joined);
    let n = s.channel.sent.len() as int;
    assert(s.assigned.len() == n);
    assert forall|t: int| 0 <= t < n implies s.done(t) && !s.running(t) && !s.waiting(t) by {
        assert(s.running(t) <==> !s.completed.contains(t));
        if s.running(t) {
            assert(s.workers[s.assigned[t]] == WorkerStatus::Joined);
        }
    }
    let range = Set::new(|t: int| 0 <= t < n);
    assert(s.completed.to_set() =~= range) by {
        assert forall|t: int| s.completed.to_set().contains(t) <==> range.contains(t) by {
            if s.completed.contains(t) {
                let k = choose|k: int| 0 <= k < s.completed.len() && s.completed[k] == t;
                assert(0 <= s.completed[k] < n);
            }
            if 0 <= t < n {
                assert(s.done(t));
            }
        }
    }
    s.completed.unique_seq_to_set();
    lemma_int_range(0, n);
    assert(vstd::set_lib::set_int_range(0, n) =~= range);
}

/// A pool that was built with `size` workers, went through any events and
/// was torn down has run every job that was submitted to it exactly once,
/// each on one of its workers.
pub proof fn lemma_every_job_runs_once<J>(size: nat, events: Seq<Event<J>>)
    requires
        size >= 1,
        PoolView::<J>::fresh(size).admits(events),
        PoolView::<J>::fresh(size).run(events).state() == PoolState::Terminated,
    ensures
        ({
            let end = PoolView::<J>::fresh(size).run(events);
            &&& end.channel.sent == submitted(events)
            &&& end.completed.len() == submitted(events).len()
            &&& end.completed.no_duplicates()
            &&& forall|t: int|
                0 <= t < submitted(events).len() ==> end.done(t) && 0 <= #[trigger] end.assigned[t]
                    < size
        }),
{
    let start = PoolView::<J>::fresh(size);
    let end = start.run(events);
    lemma_fresh_inv::<J>(size);
    lemma_run_inv(start, events);
    lemma_run_history(start, events);
    lemma_terminated(end);
    assert(end.channel.sent =~= submitted(events));
}

} // verus!
