use webserver::{JobChannel, TryRecvError, Worker, WorkerStatus};

#[test]
fn new_channel_is_open_and_empty() {
    let mut channel = JobChannel::<u8>::new();
    assert!(channel.is_open());
    assert_eq!(channel.len(), 0);
    assert_eq!(channel.try_recv(), Err(TryRecvError::Empty));
}

#[test]
fn channel_is_first_in_first_out() {
    let mut channel = JobChannel::<u8>::new();
    for job in [3u8, 1, 2] {
        assert_eq!(channel.send(job), Ok(()));
    }
    assert_eq!(channel.len(), 3);
    assert_eq!(channel.try_recv(), Ok(3));
    assert_eq!(channel.send(9), Ok(()));
    assert_eq!(channel.try_recv(), Ok(1));
    assert_eq!(channel.try_recv(), Ok(2));
    assert_eq!(channel.try_recv(), Ok(9));
    assert_eq!(channel.try_recv(), Err(TryRecvError::Empty));
}

#[test]
fn closed_channel_hands_the_job_back() {
    let mut channel = JobChannel::<u8>::new();
    assert_eq!(channel.send(1), Ok(()));
    channel.close();
    assert!(!channel.is_open());
    assert_eq!(channel.send(2), Err(2));
    assert_eq!(channel.len(), 1);
}

#[test]
fn closed_channel_drains_before_it_disconnects() {
    let mut channel = JobChannel::<u8>::new();
    assert_eq!(channel.send(1), Ok(()));
    assert_eq!(channel.send(2), Ok(()));
    channel.close();
    assert_eq!(channel.try_recv(), Ok(1));
    assert_eq!(channel.try_recv(), Ok(2));
    assert_eq!(channel.try_recv(), Err(TryRecvError::Disconnected));
    assert_eq!(channel.try_recv(), Err(TryRecvError::Disconnected));
}

#[test]
fn new_worker_is_idle() {
    let worker = Worker::new(3);
    assert_eq!(worker.id, 3);
    assert_eq!(worker.status, WorkerStatus::Idle);
}

#[test]
fn worker_keeps_its_index_through_its_life() {
    let mut worker = Worker::new(5);
    for next in [
        WorkerStatus::Busy,
        WorkerStatus::Idle,
        WorkerStatus::Busy,
        WorkerStatus::Idle,
        WorkerStatus::Exited,
        WorkerStatus::Joined,
    ] {
        worker = worker.advance(next);
        assert_eq!(worker.id, 5);
        assert_eq!(worker.status, next);
    }
}
