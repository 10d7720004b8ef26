use std::sync::{Arc, Mutex};
use std::time::{Duration, Instant};
use webserver::{Directive, PoolCreationError, PoolState, ThreadPool, WorkerStatus};

/// Lets worker `id` ask for work and returns the job it is handed, if any.
fn take(pool: &mut ThreadPool<u32>, id: usize) -> Option<u32> {
    assert_eq!(pool.status(id), Some(WorkerStatus::Idle));
    match pool.dispatch(id) {
        Directive::Run(job) => Some(job),
        _ => None,
    }
}

#[test]
fn build_zero_is_refused() {
    let built = ThreadPool::<u32>::build(0);
    assert!(matches!(built, Err(PoolCreationError)));
}

#[test]
fn build_gives_as_many_idle_workers_as_asked() {
    for size in 1..=16usize {
        let pool = ThreadPool::<u32>::build(size).expect("a positive size is accepted");
        assert_eq!(pool.size(), size);
        for id in 0..size {
            assert_eq!(pool.status(id), Some(WorkerStatus::Idle));
        }
        assert_eq!(pool.status(size), None);
        assert_eq!(pool.state(), PoolState::Running);
        assert!(pool.is_open());
        assert_eq!(pool.pending(), 0);
        assert_eq!(pool.next_join(), None);
    }
}

#[test]
fn each_worker_carries_its_index() {
    let mut pool = ThreadPool::<u32>::build(3).unwrap();
    pool.execute(1);
    assert!(matches!(pool.dispatch(1), Directive::Run(1)));
    for id in 0..3usize {
        let worker = pool.worker(id).expect("the pool has three workers");
        assert_eq!(worker.id, id);
        assert_eq!(Some(worker.status), pool.status(id));
    }
    assert_eq!(pool.status(1), Some(WorkerStatus::Busy));
    assert!(pool.worker(3).is_none());
}

#[test]
fn execute_only_enqueues() {
    let mut pool = ThreadPool::<u32>::build(2).unwrap();
    pool.execute(10);
    pool.execute(20);
    pool.execute(30);
    assert_eq!(pool.pending(), 3);
    assert_eq!(pool.status(0), Some(WorkerStatus::Idle));
    assert_eq!(pool.status(1), Some(WorkerStatus::Idle));
    assert_eq!(pool.state(), PoolState::Running);
}

#[test]
fn jobs_leave_in_the_order_they_came() {
    let mut pool = ThreadPool::<u32>::build(3).unwrap();
    for job in 0..9u32 {
        pool.execute(job);
    }
    let mut seen = Vec::new();
    for round in 0..3 {
        for id in [2usize, 0, 1] {
            let job = take(&mut pool, id).expect("a job is waiting");
            seen.push(job);
            assert_eq!(pool.status(id), Some(WorkerStatus::Busy));
        }
        assert_eq!(pool.pending(), 9 - 3 * (round + 1));
        for id in 0..3usize {
            pool.complete(id);
            assert_eq!(pool.status(id), Some(WorkerStatus::Idle));
        }
    }
    assert_eq!(seen, vec![0, 1, 2, 3, 4, 5, 6, 7, 8]);
    assert_eq!(pool.pending(), 0);
}

#[test]
fn idle_worker_waits_while_pool_is_open_and_empty() {
    let mut pool = ThreadPool::<u32>::build(1).unwrap();
    assert!(matches!(pool.dispatch(0), Directive::Wait));
    assert_eq!(pool.status(0), Some(WorkerStatus::Idle));
    pool.execute(5);
    assert!(matches!(pool.dispatch(0), Directive::Run(5)));
    pool.complete(0);
    assert!(matches!(pool.dispatch(0), Directive::Wait));
    assert_eq!(pool.state(), PoolState::Running);
}

#[test]
fn ten_jobs_on_four_workers_count_to_ten() {
    let counter = Arc::new(Mutex::new(0u32));
    let mut pool = ThreadPool::<Box<dyn FnOnce() + Send + 'static>>::build(4).unwrap();
    for _ in 0..10 {
        let counter = Arc::clone(&counter);
        pool.execute(Box::new(move || *counter.lock().unwrap() += 1));
    }
    assert_eq!(*counter.lock().unwrap(), 0);
    pool.close();
    let mut left = 4;
    while left > 0 {
        for id in 0..4usize {
            if pool.status(id) != Some(WorkerStatus::Idle) {
                continue;
            }
            match pool.dispatch(id) {
                Directive::Run(job) => {
                    job();
                    pool.complete(id);
                },
                Directive::Wait => panic!("a closed pool lets nobody wait"),
                Directive::Exit => left -= 1,
            }
        }
    }
    while let Some(id) = pool.next_join() {
        assert_eq!(pool.status(id), Some(WorkerStatus::Exited));
        pool.join(id);
    }
    assert_eq!(pool.state(), PoolState::Terminated);
    assert_eq!(*counter.lock().unwrap(), 10);
}

#[test]
fn single_worker_takes_one_job_at_a_time() {
    let mut pool = ThreadPool::<u32>::build(1).unwrap();
    pool.execute(1);
    pool.execute(2);
    assert_eq!(take(&mut pool, 0), Some(1));
    // The second job stays in the channel for as long as the first one runs.
    assert_eq!(pool.status(0), Some(WorkerStatus::Busy));
    assert_eq!(pool.pending(), 1);
    pool.complete(0);
    assert_eq!(take(&mut pool, 0), Some(2));
    assert_eq!(pool.pending(), 0);
}

#[test]
fn second_worker_starts_while_first_is_busy() {
    let mut pool = ThreadPool::<u32>::build(2).unwrap();
    pool.execute(500);
    pool.execute(1);
    assert_eq!(take(&mut pool, 0), Some(500));
    // Worker 0 has not reported back; worker 1 is served all the same.
    assert_eq!(take(&mut pool, 1), Some(1));
    assert_eq!(pool.status(0), Some(WorkerStatus::Busy));
    assert_eq!(pool.status(1), Some(WorkerStatus::Busy));
    pool.complete(1);
    assert_eq!(pool.status(0), Some(WorkerStatus::Busy));
    assert_eq!(pool.status(1), Some(WorkerStatus::Idle));
}

#[test]
fn close_keeps_waiting_jobs_and_stops_new_ones() {
    let mut pool = ThreadPool::<u32>::build(2).unwrap();
    pool.execute(7);
    pool.execute(8);
    pool.close();
    assert!(!pool.is_open());
    assert_eq!(pool.state(), PoolState::ShuttingDown);
    assert_eq!(pool.pending(), 2);
    assert_eq!(take(&mut pool, 1), Some(7));
    assert_eq!(take(&mut pool, 0), Some(8));
    pool.complete(0);
    pool.complete(1);
    assert!(matches!(pool.dispatch(0), Directive::Exit));
    assert_eq!(pool.status(0), Some(WorkerStatus::Exited));
    assert!(matches!(pool.dispatch(1), Directive::Exit));
    assert_eq!(pool.status(1), Some(WorkerStatus::Exited));
}

#[test]
fn close_twice_changes_nothing() {
    let mut pool = ThreadPool::<u32>::build(1).unwrap();
    pool.execute(3);
    pool.close();
    pool.close();
    assert_eq!(pool.state(), PoolState::ShuttingDown);
    assert_eq!(pool.pending(), 1);
    assert_eq!(take(&mut pool, 0), Some(3));
}

#[test]
fn workers_are_collected_in_index_order() {
    let mut pool = ThreadPool::<u32>::build(3).unwrap();
    assert_eq!(pool.next_join(), None);
    pool.close();
    // Workers leave in some other order than they are collected.
    for id in [2usize, 0, 1] {
        assert_eq!(pool.next_join(), Some(0));
        assert!(matches!(pool.dispatch(id), Directive::Exit));
    }
    for id in 0..3usize {
        assert_eq!(pool.state(), PoolState::ShuttingDown);
        assert_eq!(pool.next_join(), Some(id));
        pool.join(id);
        assert_eq!(pool.status(id), Some(WorkerStatus::Joined));
    }
    assert_eq!(pool.next_join(), None);
    assert_eq!(pool.state(), PoolState::Terminated);
}

#[test]
fn busy_worker_finishes_before_it_sees_the_closed_channel() {
    let mut pool = ThreadPool::<u32>::build(1).unwrap();
    pool.execute(42);
    assert_eq!(take(&mut pool, 0), Some(42));
    pool.close();
    assert_eq!(pool.next_join(), Some(0));
    assert_eq!(pool.status(0), Some(WorkerStatus::Busy));
    pool.complete(0);
    assert_eq!(pool.status(0), Some(WorkerStatus::Idle));
    assert!(matches!(pool.dispatch(0), Directive::Exit));
    pool.join(0);
    assert_eq!(pool.state(), PoolState::Terminated);
}

type Job = Box<dyn FnOnce() + Send + 'static>;

/// Keeps the calling job at work for `span`.
fn stay_busy(span: Duration) {
    let begin = Instant::now();
    while begin.elapsed() < span {
        std::hint::spin_loop();
    }
}

#[test]
fn single_worker_starts_second_job_after_first_has_ended() {
    let log: Arc<Mutex<Vec<Instant>>> = Arc::new(Mutex::new(Vec::new()));
    let mut pool = ThreadPool::<Job>::build(1).unwrap();
    let first = Arc::clone(&log);
    pool.execute(Box::new(move || {
        first.lock().unwrap().push(Instant::now());
        stay_busy(Duration::from_millis(100));
    }));
    let second = Arc::clone(&log);
    pool.execute(Box::new(move || second.lock().unwrap().push(Instant::now())));
    pool.close();
    loop {
        assert_eq!(pool.status(0), Some(WorkerStatus::Idle));
        match pool.dispatch(0) {
            Directive::Run(job) => {
                job();
                pool.complete(0);
            },
            Directive::Wait => panic!("a closed pool lets nobody wait"),
            Directive::Exit => break,
        }
    }
    pool.join(0);
    assert_eq!(pool.state(), PoolState::Terminated);
    let log = log.lock().unwrap();
    assert_eq!(log.len(), 2);
    assert!(log[1].duration_since(log[0]) >= Duration::from_millis(100));
}

#[test]
fn short_job_starts_while_long_job_is_running() {
    let started: Arc<Mutex<Option<Instant>>> = Arc::new(Mutex::new(None));
    let mut pool = ThreadPool::<Job>::build(2).unwrap();
    pool.execute(Box::new(|| stay_busy(Duration::from_millis(500))));
    let slot = Arc::clone(&started);
    pool.execute(Box::new(move || *slot.lock().unwrap() = Some(Instant::now())));
    let submitted = Instant::now();
    // Worker 0 is handed the long job and has not come back from it when
    // worker 1 asks.
    let Directive::Run(long) = pool.dispatch(0) else { panic!("the long job is waiting") };
    let Directive::Run(short) = pool.dispatch(1) else { panic!("the short job is waiting") };
    short();
    pool.complete(1);
    long();
    pool.complete(0);
    let started = started.lock().unwrap().expect("the short job ran");
    assert!(started.duration_since(submitted) < Duration::from_millis(50));
    assert_eq!(pool.pending(), 0);
}

/// A small generator of a fixed sequence of numbers, to mix events.
fn next(seed: &mut u64) -> usize {
    *seed = seed.wrapping_mul(6364136223846793005).wrapping_add(1442695040888963407);
    (*seed >> 33) as usize
}

#[test]
fn every_job_of_every_producer_is_delivered_once() {
    const PRODUCERS: usize = 8;
    const JOBS: usize = 250;
    const WORKERS: usize = 4;
    let mut pool = ThreadPool::<(usize, usize)>::build(WORKERS).unwrap();
    let mut seed = 0x5eed_u64;
    let mut produced = [0usize; PRODUCERS];
    let mut running: [Option<(usize, usize)>; WORKERS] = [None; WORKERS];
    let mut runs = vec![[0u32; JOBS]; PRODUCERS];
    let mut last_seen = [None::<usize>; PRODUCERS];
    let mut done = 0;
    while done < PRODUCERS * JOBS {
        let pick = next(&mut seed);
        if pick % 2 == 0 {
            // Some producer submits its next job.
            let producer = (pick / 2) % PRODUCERS;
            if produced[producer] < JOBS {
                pool.execute((producer, produced[producer]));
                produced[producer] += 1;
            }
        } else {
            // Some worker takes its next step.
            let id = (pick / 2) % WORKERS;
            match running[id].take() {
                Some((producer, job)) => {
                    runs[producer][job] += 1;
                    done += 1;
                    pool.complete(id);
                },
                None => match pool.dispatch(id) {
                    Directive::Run((producer, job)) => {
                        // Jobs of one producer are handed out in its order.
                        assert!(last_seen[producer] < Some(job));
                        last_seen[producer] = Some(job);
                        running[id] = Some((producer, job));
                    },
                    Directive::Wait => assert_eq!(pool.pending(), 0),
                    Directive::Exit => panic!("the pool is open"),
                },
            }
        }
    }
    assert_eq!(pool.pending(), 0);
    for producer in 0..PRODUCERS {
        for job in 0..JOBS {
            assert_eq!(runs[producer][job], 1);
        }
    }
    pool.close();
    for id in 0..WORKERS {
        assert!(matches!(pool.dispatch(id), Directive::Exit));
    }
    while let Some(id) = pool.next_join() {
        pool.join(id);
    }
    assert_eq!(pool.state(), PoolState::Terminated);
}
