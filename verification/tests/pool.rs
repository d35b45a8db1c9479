use worker_pool::message::ControlMessage;
use worker_pool::pool::ThreadPoll;
use worker_pool::worker::{Worker, WorkerState};

#[test]
fn new_spawns_workers_idle() {
    let pool = ThreadPoll::new(3);
    assert_eq!(pool.worker_count(), 3);
    assert!(!pool.is_disposed());
    assert_eq!(pool.queue_len(), 0);
    for w in 0..3 {
        assert_eq!(pool.worker_state(w), WorkerState::Idle);
        assert!(pool.worker_handle_held(w));
    }
    assert_eq!(pool.submitted_jobs().len(), 0);
    assert_eq!(pool.completed_jobs().len(), 0);
}

#[test]
fn worker_starts_idle_with_handle() {
    let w = Worker::new(5);
    assert_eq!(w.id, 5);
    assert_eq!(w.state, WorkerState::Idle);
    assert!(w.handle_held);
}

#[test]
fn execute_enqueues_in_order() {
    let mut pool = ThreadPoll::new(1);
    pool.execute(10);
    pool.execute(11);
    pool.execute(12);
    assert_eq!(pool.queue_len(), 3);
    assert_eq!(pool.submitted_jobs().as_slice(), &[10, 11, 12]);
}

#[test]
fn delivery_is_fifo_per_producer() {
    let mut pool = ThreadPoll::new(1);
    pool.execute(10);
    pool.execute(11);
    pool.execute(12);
    let first = pool.worker_dequeue(0);
    assert_eq!(first, ControlMessage::Work(10));
    assert_eq!(pool.worker_state(0), WorkerState::Executing(10));
    let done = pool.worker_finish(0);
    assert_eq!(done, 10);
    assert_eq!(pool.worker_dequeue(0), ControlMessage::Work(11));
    pool.worker_finish(0);
    assert_eq!(pool.worker_dequeue(0), ControlMessage::Work(12));
    pool.worker_finish(0);
    assert_eq!(pool.completed_jobs().as_slice(), &[10, 11, 12]);
}

#[test]
fn execution_overlaps_across_workers() {
    // Two workers hold two different jobs at the same time: dequeuing is
    // exclusive, executing is not, so a long job on one worker does not
    // serialize the pool.
    let mut pool = ThreadPoll::new(2);
    pool.execute(7);
    pool.execute(8);
    let m0 = pool.worker_dequeue(0);
    let m1 = pool.worker_dequeue(1);
    assert_eq!(m0, ControlMessage::Work(7));
    assert_eq!(m1, ControlMessage::Work(8));
    assert_eq!(pool.worker_state(0), WorkerState::Executing(7));
    assert_eq!(pool.worker_state(1), WorkerState::Executing(8));
    // the later-submitted job may well finish first
    assert_eq!(pool.worker_finish(1), 8);
    assert_eq!(pool.worker_finish(0), 7);
    pool.dispose();
    assert_eq!(pool.completed_jobs().as_slice(), &[8, 7]);
}

#[test]
fn all_jobs_complete_exactly_once() {
    let mut pool = ThreadPoll::new(3);
    for id in 0..10 {
        pool.execute(id);
    }
    pool.dispose();
    let mut seen = pool.completed_jobs().clone();
    seen.sort();
    let expected: Vec<usize> = (0..10).collect();
    assert_eq!(seen, expected);
}

#[test]
fn dispose_terminates_and_joins_every_worker() {
    let mut pool = ThreadPoll::new(4);
    pool.execute(1);
    pool.dispose();
    assert!(pool.is_disposed());
    assert_eq!(pool.queue_len(), 0);
    for w in 0..4 {
        assert_eq!(pool.worker_state(w), WorkerState::Terminated);
        assert!(!pool.worker_handle_held(w));
    }
}

#[test]
fn shutdown_sentinels_one_per_worker_behind_work() {
    let mut pool = ThreadPoll::new(1);
    pool.execute(42);
    pool.send_shutdowns();
    assert!(pool.is_disposed());
    // the pending job still comes first, the sentinel after it
    assert_eq!(pool.queue_len(), 2);
    assert_eq!(pool.worker_dequeue(0), ControlMessage::Work(42));
    assert_eq!(pool.worker_finish(0), 42);
    assert_eq!(pool.worker_dequeue(0), ControlMessage::Shutdown);
    assert_eq!(pool.worker_state(0), WorkerState::Terminated);
    assert!(pool.worker_handle_held(0));
    pool.join_worker(0);
    assert!(!pool.worker_handle_held(0));
}

#[test]
fn submission_after_dispose_is_refused() {
    let mut pool = ThreadPoll::new(2);
    assert!(pool.try_execute(1));
    pool.dispose();
    assert!(!pool.try_execute(2));
    assert_eq!(pool.submitted_jobs().as_slice(), &[1]);
    assert_eq!(pool.completed_jobs().as_slice(), &[1]);
}

#[test]
fn counter_scenario_pool_of_two_four_increments() {
    // Four jobs that each stand for one increment of a shared counter: after
    // disposal all four ran, none twice, so the counter reads four — on
    // every run.
    for _ in 0..20 {
        let mut pool = ThreadPoll::new(2);
        for id in 0..4 {
            pool.execute(id);
        }
        pool.dispose();
        let mut counter = 0usize;
        let mut seen = [false; 4];
        for &id in pool.completed_jobs().iter() {
            assert!(id < 4);
            assert!(!seen[id], "job ran twice");
            seen[id] = true;
            counter += 1;
        }
        assert_eq!(counter, 4);
    }
}

#[test]
fn run_workers_drains_work_before_sentinels() {
    let mut pool = ThreadPoll::new(2);
    pool.execute(5);
    pool.execute(6);
    pool.send_shutdowns();
    assert_eq!(pool.queue_len(), 4);
    pool.run_workers();
    assert_eq!(pool.queue_len(), 0);
    let mut seen = pool.completed_jobs().clone();
    seen.sort();
    assert_eq!(seen, vec![5, 6]);
    // terminated, but not yet joined: the handles are still owned
    for w in 0..2 {
        assert_eq!(pool.worker_state(w), WorkerState::Terminated);
        assert!(pool.worker_handle_held(w));
    }
    pool.join_all();
    for w in 0..2 {
        assert!(!pool.worker_handle_held(w));
    }
}
