use threadpool::job::Job;
use threadpool::pool::ThreadPool;
use threadpool::worker::Phase;

#[test]
fn new_creates_size_workers() {
    let one = ThreadPool::new(1);
    assert_eq!(one.workers.len(), 1);
    let four = ThreadPool::new(4);
    assert_eq!(four.workers.len(), 4);
    for (i, w) in four.workers.iter().enumerate() {
        assert_eq!(w.id, i);
        assert_eq!(w.phase, Phase::Waiting);
    }
    assert!(four.sender);
    assert_eq!(four.queue.len(), 0);
    assert_eq!(four.log.len(), 0);
}

#[test]
fn execute_enqueues_in_order() {
    let mut pool = ThreadPool::new(2);
    pool.execute(Job { id: 10, faulty: false });
    pool.execute(Job { id: 20, faulty: false });
    pool.execute(Job { id: 30, faulty: false });
    assert_eq!(pool.queue.len(), 3);
    for (i, qj) in pool.queue.iter().enumerate() {
        assert_eq!(qj.ticket, i as u64);
    }
    assert_eq!(pool.queue[0].job.id, 10);
    assert_eq!(pool.queue[1].job.id, 20);
    assert_eq!(pool.queue[2].job.id, 30);
    assert_eq!(pool.log.len(), 0);
    assert_eq!(pool.next_ticket, 3);
}

#[test]
fn size_one_pool_runs_jobs_in_submission_order() {
    let mut pool = ThreadPool::new(1);
    pool.execute(Job { id: 0, faulty: false });
    pool.execute(Job { id: 1, faulty: false });
    pool.execute(Job { id: 2, faulty: false });
    pool.shutdown();
    assert_eq!(pool.log, vec![0u64, 1, 2]);
    assert_eq!(pool.queue.len(), 0);
    assert!(pool.workers.iter().all(|w| w.phase == Phase::Exited));
}

#[test]
fn four_workers_run_hundred_jobs_to_completion() {
    let mut pool = ThreadPool::new(4);
    for i in 0..100u64 {
        pool.execute(Job { id: i, faulty: false });
    }
    pool.shutdown();
    assert_eq!(pool.log.len(), 100);
    let expected: Vec<u64> = (0..100u64).collect();
    assert_eq!(pool.log, expected);
}

#[test]
fn faulty_job_kills_one_worker_but_not_teardown() {
    let mut pool = ThreadPool::new(2);
    pool.execute(Job { id: 0, faulty: true });
    pool.execute(Job { id: 1, faulty: false });
    pool.execute(Job { id: 2, faulty: false });
    pool.shutdown();
    assert!(pool.workers.iter().all(|w| w.phase == Phase::Exited));
    assert_eq!(pool.log, vec![1u64, 2]);
    assert_eq!(pool.queue.len(), 0);
    assert!(!pool.sender);
}

#[test]
fn zero_jobs_round_trip_runs_nothing() {
    let mut one = ThreadPool::new(1);
    one.shutdown();
    assert_eq!(one.log.len(), 0);
    assert!(one.workers.iter().all(|w| w.phase == Phase::Exited));
    assert!(!one.sender);

    let mut five = ThreadPool::new(5);
    five.shutdown();
    assert_eq!(five.log.len(), 0);
    assert_eq!(five.workers.len(), 5);
    assert!(five.workers.iter().all(|w| w.phase == Phase::Exited));
    assert!(!five.sender);
}

#[test]
fn teardown_consumes_the_sending_handle() {
    let mut pool = ThreadPool::new(3);
    assert!(pool.sender);
    pool.shutdown();
    assert!(!pool.sender);
    assert!(pool.workers.iter().all(|w| w.phase == Phase::Exited));
}

#[test]
fn two_workers_never_hold_the_same_instance() {
    let mut pool = ThreadPool::new(2);
    pool.execute(Job { id: 5, faulty: false });
    pool.execute(Job { id: 5, faulty: false });

    pool.acquire(0);
    pool.dequeue(0);
    pool.acquire(1);
    pool.dequeue(1);

    let first = match pool.workers[0].phase {
        Phase::Running(qj) => qj,
        _ => panic!("worker 0 should be running a job"),
    };
    let second = match pool.workers[1].phase {
        Phase::Running(qj) => qj,
        _ => panic!("worker 1 should be running a job"),
    };
    assert_eq!(first.job.id, 5);
    assert_eq!(second.job.id, 5);
    assert_ne!(first.ticket, second.ticket);

    pool.finish(0);
    pool.finish(1);
    pool.shutdown();
    assert_eq!(pool.log, vec![5u64, 5]);
}

#[test]
fn dequeue_on_open_empty_queue_keeps_waiting() {
    let mut pool = ThreadPool::new(1);
    pool.acquire(0);
    pool.dequeue(0);
    assert_eq!(pool.workers[0].phase, Phase::Waiting);
    pool.shutdown();
    assert_eq!(pool.log.len(), 0);
}
