use hello_server::error::ThreadPoolError;
use hello_server::model::Phase;
use hello_server::pool::ThreadPool;
use hello_server::worker::{Dispatch, WorkerState};
use std::cell::Cell;
use std::io::{Error, ErrorKind};
use std::rc::Rc;

type Job = Box<dyn FnOnce()>;

fn refused() -> Result<u32, Error> {
    Err(Error::new(ErrorKind::Other, "no thread"))
}

/// A running pool of `size` workers whose handles are 100, 101, ...
fn running<J>(size: usize) -> ThreadPool<J, u32> {
    let mut pool = ThreadPool::new(size).unwrap();
    while let Some(id) = pool.next_slot() {
        pool.register(Ok(100 + id as u32));
    }
    pool
}

/// Closes the pool, lets every worker leave, and joins them all.
fn shut_down<J>(pool: &mut ThreadPool<J, u32>, ids: &[usize]) {
    assert!(pool.close());
    for id in ids {
        assert!(matches!(pool.next_job(*id), Dispatch::Exit));
    }
    for id in ids {
        let (joined, _) = pool.next_join().unwrap();
        assert_eq!(joined, *id);
        assert!(pool.finish_join());
    }
}

#[test]
fn new_with_zero_workers_is_refused() {
    let r: Result<ThreadPool<u32, u32>, ThreadPoolError> = ThreadPool::new(0);
    match r {
        Err(ThreadPoolError::ThreadCreationError(m)) => assert_eq!(m, "Low number of threads!"),
        _ => panic!("a pool of no workers must be refused"),
    }
}

#[test]
fn new_pool_has_started_nothing() {
    let pool: ThreadPool<u32, u32> = ThreadPool::new(3).unwrap();
    assert_eq!(pool.phase(), Phase::Constructing);
    assert_eq!(pool.size(), 3);
    assert_eq!(pool.worker_count(), 0);
    assert_eq!(pool.failed_spawns(), 0);
    assert_eq!(pool.pending(), 0);
    assert_eq!(pool.next_slot(), Some(0));
    assert!(!pool.accepts_jobs());
}

#[test]
fn every_slot_started_gives_the_workers_asked_for() {
    let pool: ThreadPool<u32, u32> = running(4);
    assert_eq!(pool.phase(), Phase::Running);
    assert_eq!(pool.worker_count(), 4);
    assert_eq!(pool.failed_spawns(), 0);
    assert_eq!(pool.next_slot(), None);
    for id in 0..4 {
        assert_eq!(pool.worker_state(id), Some(WorkerState::Idle));
    }
    assert_eq!(pool.worker_state(4), None);
    assert_eq!(pool.live_workers(), 4);
    assert!(pool.accepts_jobs());
}

#[test]
fn one_worker_pool() {
    let pool: ThreadPool<u32, u32> = running(1);
    assert_eq!(pool.worker_count(), 1);
    assert_eq!(pool.phase(), Phase::Running);
}

#[test]
fn slots_are_tried_in_order() {
    let mut pool: ThreadPool<u32, u32> = ThreadPool::new(3).unwrap();
    assert_eq!(pool.next_slot(), Some(0));
    pool.register(Ok(7));
    assert_eq!(pool.next_slot(), Some(1));
    pool.register(refused());
    assert_eq!(pool.next_slot(), Some(2));
    assert_eq!(pool.phase(), Phase::Constructing);
    pool.register(Ok(9));
    assert_eq!(pool.next_slot(), None);
    assert_eq!(pool.phase(), Phase::Running);
}

#[test]
fn a_failed_slot_is_passed_over() {
    let mut pool: ThreadPool<u32, u32> = ThreadPool::new(4).unwrap();
    pool.register(Ok(10));
    pool.register(refused());
    pool.register(Ok(12));
    pool.register(refused());
    assert_eq!(pool.phase(), Phase::Running);
    assert_eq!(pool.worker_count(), 2);
    assert_eq!(pool.failed_spawns(), 2);
    assert_eq!(pool.worker_state(0), Some(WorkerState::Idle));
    assert_eq!(pool.worker_state(1), None);
    assert_eq!(pool.worker_state(2), Some(WorkerState::Idle));
    assert_eq!(pool.worker_state(3), None);
    assert!(pool.accepts_jobs());
    // the workers are joined in the order of their ids, with their own handles
    assert!(pool.close());
    assert!(matches!(pool.next_job(0), Dispatch::Exit));
    assert!(matches!(pool.next_job(2), Dispatch::Exit));
    assert_eq!(pool.next_join(), Some((0, 10)));
    assert!(pool.finish_join());
    assert_eq!(pool.next_join(), Some((2, 12)));
    assert!(pool.finish_join());
    assert_eq!(pool.phase(), Phase::Stopped);
}

#[test]
fn failed_slots_at_both_ends_are_passed_over_at_shutdown() {
    let mut pool: ThreadPool<u32, u32> = ThreadPool::new(5).unwrap();
    pool.register(refused());
    pool.register(Ok(11));
    pool.register(refused());
    pool.register(Ok(13));
    pool.register(refused());
    assert_eq!(pool.worker_count(), 2);
    assert_eq!(pool.failed_spawns(), 3);
    assert_eq!(pool.live_workers(), 2);
    pool.execute(1);
    assert!(matches!(pool.next_job(0), Dispatch::Exit));
    assert!(matches!(pool.next_job(3), Dispatch::Run(1)));
    assert!(pool.close());
    assert_eq!(pool.phase(), Phase::ShuttingDown);
    assert!(matches!(pool.next_job(3), Dispatch::Exit));
    assert!(matches!(pool.next_job(1), Dispatch::Exit));
    assert_eq!(pool.live_workers(), 0);
    assert_eq!(pool.next_join(), Some((1, 11)));
    assert!(pool.finish_join());
    assert_eq!(pool.phase(), Phase::ShuttingDown);
    assert_eq!(pool.next_join(), Some((3, 13)));
    assert!(pool.finish_join());
    assert_eq!(pool.phase(), Phase::Stopped);
    assert_eq!(pool.next_join(), None);
}

#[test]
fn a_pool_whose_slots_all_failed_takes_no_job() {
    let mut pool: ThreadPool<u32, u32> = ThreadPool::new(2).unwrap();
    pool.register(refused());
    pool.register(refused());
    assert_eq!(pool.phase(), Phase::Running);
    assert_eq!(pool.worker_count(), 0);
    assert_eq!(pool.failed_spawns(), 2);
    assert!(!pool.accepts_jobs());
    assert!(pool.close());
    assert_eq!(pool.phase(), Phase::Stopped);
    assert_eq!(pool.next_join(), None);
}

#[test]
fn jobs_are_handed_out_oldest_first() {
    let mut pool: ThreadPool<u32, u32> = running(2);
    pool.execute(11);
    pool.execute(22);
    pool.execute(33);
    assert_eq!(pool.pending(), 3);
    assert!(matches!(pool.next_job(1), Dispatch::Run(11)));
    assert_eq!(pool.worker_state(1), Some(WorkerState::Busy));
    assert_eq!(pool.worker_state(0), Some(WorkerState::Idle));
    assert!(matches!(pool.next_job(0), Dispatch::Run(22)));
    assert!(matches!(pool.next_job(1), Dispatch::Run(33)));
    assert_eq!(pool.pending(), 0);
    assert!(matches!(pool.next_job(0), Dispatch::Wait));
    assert_eq!(pool.worker_state(0), Some(WorkerState::Idle));
    assert_eq!(pool.worker_state(1), Some(WorkerState::Busy));
}

#[test]
fn a_worker_waits_while_the_pool_is_open_and_leaves_once_it_is_closed() {
    let mut pool: ThreadPool<u32, u32> = running(1);
    assert!(matches!(pool.next_job(0), Dispatch::Wait));
    assert!(matches!(pool.next_job(0), Dispatch::Wait));
    assert!(pool.close());
    assert!(matches!(pool.next_job(0), Dispatch::Exit));
    assert_eq!(pool.worker_state(0), Some(WorkerState::Exited));
    // once it has left it is not handed anything
    assert!(matches!(pool.next_job(0), Dispatch::Exit));
}

#[test]
fn an_unknown_worker_is_sent_away() {
    let mut pool: ThreadPool<u32, u32> = running(2);
    pool.execute(5);
    assert!(matches!(pool.next_job(2), Dispatch::Exit));
    assert!(matches!(pool.next_job(usize::MAX), Dispatch::Exit));
    assert_eq!(pool.pending(), 1);
    assert!(matches!(pool.next_job(0), Dispatch::Run(5)));
}

#[test]
fn thousand_jobs_on_four_workers_all_run() {
    let counter = Rc::new(Cell::new(0u32));
    let mut pool: ThreadPool<Job, u32> = running(4);
    for _ in 0..1000 {
        let c = Rc::clone(&counter);
        assert!(pool.accepts_jobs());
        pool.execute(Box::new(move || c.set(c.get() + 1)));
    }
    assert!(pool.close());
    let mut left = 4;
    let mut turn = 0;
    let mut ran = [0u32; 4];
    let mut gone = [false; 4];
    while left > 0 {
        let id = turn % 4;
        turn += 1;
        if gone[id] {
            continue;
        }
        match pool.next_job(id) {
            Dispatch::Run(job) => {
                job();
                ran[id] += 1;
            }
            Dispatch::Wait => panic!("a closed pool lets no worker wait"),
            Dispatch::Exit => {
                gone[id] = true;
                left -= 1;
            }
        }
    }
    for id in 0..4 {
        let (joined, handle) = pool.next_join().unwrap();
        assert_eq!(joined, id);
        assert_eq!(handle, 100 + id as u32);
        assert!(pool.finish_join());
    }
    assert_eq!(pool.phase(), Phase::Stopped);
    assert_eq!(counter.get(), 1000);
    assert_eq!(ran, [250, 250, 250, 250]);
    assert_eq!(pool.pending(), 0);
}

#[test]
fn jobs_taken_while_the_pool_is_open_all_run() {
    let counter = Rc::new(Cell::new(0u32));
    let mut pool: ThreadPool<Job, u32> = running(4);
    for n in 0..1000usize {
        let c = Rc::clone(&counter);
        pool.execute(Box::new(move || c.set(c.get() + 1)));
        // a worker picks up work now and then, not in step with the submitter
        if n % 3 == 0 {
            if let Dispatch::Run(job) = pool.next_job(n % 4) {
                job();
            }
        }
    }
    assert!(pool.close());
    for id in 0..4 {
        loop {
            match pool.next_job(id) {
                Dispatch::Run(job) => job(),
                Dispatch::Wait => panic!("a closed pool lets no worker wait"),
                Dispatch::Exit => break,
            }
        }
    }
    assert_eq!(counter.get(), 1000);
}

#[test]
fn a_job_queued_before_shutdown_runs_before_the_pool_stops() {
    let done = Rc::new(Cell::new(false));
    let mut pool: ThreadPool<Job, u32> = running(1);
    let d = Rc::clone(&done);
    pool.execute(Box::new(move || d.set(true)));
    assert!(pool.close());
    assert_eq!(pool.phase(), Phase::ShuttingDown);
    // the handle can be taken, but the join cannot end while the job waits
    assert_eq!(pool.next_join().map(|(id, _)| id), Some(0));
    assert!(!pool.finish_join());
    match pool.next_job(0) {
        Dispatch::Run(job) => {
            // nor while the job runs
            assert!(!pool.finish_join());
            assert_eq!(pool.phase(), Phase::ShuttingDown);
            job();
        }
        _ => panic!("the queued job must be handed out"),
    }
    assert!(!pool.finish_join());
    assert!(matches!(pool.next_job(0), Dispatch::Exit));
    assert!(pool.finish_join());
    assert_eq!(pool.phase(), Phase::Stopped);
    assert!(done.get());
}

#[test]
fn no_handle_is_taken_before_the_pool_is_closed() {
    let mut pool: ThreadPool<u32, u32> = running(2);
    assert_eq!(pool.next_join(), None);
    assert!(!pool.finish_join());
    assert!(pool.close());
    assert_eq!(pool.next_join(), Some((0, 100)));
}

#[test]
fn workers_are_joined_one_at_a_time() {
    let mut pool: ThreadPool<u32, u32> = running(2);
    assert!(pool.close());
    assert_eq!(pool.next_join(), Some((0, 100)));
    // the first join has not returned yet
    assert_eq!(pool.next_join(), None);
    assert!(matches!(pool.next_job(1), Dispatch::Exit));
    assert!(!pool.finish_join());
    assert!(matches!(pool.next_job(0), Dispatch::Exit));
    assert!(pool.finish_join());
    assert!(!pool.finish_join());
    assert_eq!(pool.next_join(), Some((1, 101)));
    assert!(pool.finish_join());
    assert_eq!(pool.phase(), Phase::Stopped);
}

#[test]
fn a_stopped_pool_has_no_live_worker_and_stays_stopped() {
    let mut pool: ThreadPool<u32, u32> = running(3);
    pool.execute(1);
    assert!(matches!(pool.next_job(2), Dispatch::Run(1)));
    shut_down(&mut pool, &[0, 1, 2]);
    assert_eq!(pool.phase(), Phase::Stopped);
    for id in 0..3 {
        assert_eq!(pool.worker_state(id), Some(WorkerState::Exited));
    }
    assert_eq!(pool.live_workers(), 0);
    assert!(!pool.accepts_jobs());
    assert!(!pool.close());
    assert_eq!(pool.next_join(), None);
    assert!(!pool.finish_join());
    assert!(!pool.abandon(0));
    assert!(matches!(pool.next_job(0), Dispatch::Exit));
    assert_eq!(pool.phase(), Phase::Stopped);
    assert_eq!(pool.worker_count(), 3);
    assert_eq!(pool.pending(), 0);
}

#[test]
fn close_only_closes_a_running_pool() {
    let mut pool: ThreadPool<u32, u32> = ThreadPool::new(2).unwrap();
    assert!(!pool.close());
    assert_eq!(pool.phase(), Phase::Constructing);
    pool.register(Ok(1));
    assert!(!pool.close());
    pool.register(Ok(2));
    assert!(pool.accepts_jobs());
    assert!(pool.close());
    assert!(!pool.accepts_jobs());
    assert!(!pool.close());
    assert_eq!(pool.phase(), Phase::ShuttingDown);
}

#[test]
fn a_lost_worker_takes_no_more_jobs() {
    let mut pool: ThreadPool<u32, u32> = running(2);
    pool.execute(1);
    pool.execute(2);
    assert!(matches!(pool.next_job(0), Dispatch::Run(1)));
    assert_eq!(pool.live_workers(), 2);
    assert!(pool.abandon(0));
    assert_eq!(pool.live_workers(), 1);
    assert_eq!(pool.worker_state(0), Some(WorkerState::Lost));
    assert!(!pool.abandon(0));
    assert!(!pool.abandon(5));
    assert!(matches!(pool.next_job(0), Dispatch::Exit));
    assert_eq!(pool.pending(), 1);
    assert!(pool.accepts_jobs());
    assert!(matches!(pool.next_job(1), Dispatch::Run(2)));
    assert!(pool.abandon(1));
    assert!(!pool.accepts_jobs());
    assert_eq!(pool.phase(), Phase::Running);
}

#[test]
fn a_lost_worker_is_joined_like_any_other() {
    let mut pool: ThreadPool<u32, u32> = running(1);
    pool.execute(1);
    assert!(matches!(pool.next_job(0), Dispatch::Run(1)));
    assert!(pool.abandon(0));
    assert!(pool.close());
    assert_eq!(pool.next_join(), Some((0, 100)));
    assert!(pool.finish_join());
    assert_eq!(pool.phase(), Phase::Stopped);
    assert_eq!(pool.worker_state(0), Some(WorkerState::Lost));
    assert_eq!(pool.live_workers(), 0);
    assert_eq!(pool.next_join(), None);
}

#[test]
fn a_lost_worker_does_not_hold_up_the_others_at_shutdown() {
    let mut pool: ThreadPool<u32, u32> = running(2);
    pool.execute(7);
    assert!(matches!(pool.next_job(0), Dispatch::Run(7)));
    assert!(pool.abandon(0));
    assert!(pool.close());
    assert!(matches!(pool.next_job(1), Dispatch::Exit));
    assert_eq!(pool.next_join(), Some((0, 100)));
    assert!(pool.finish_join());
    assert_eq!(pool.phase(), Phase::ShuttingDown);
    assert_eq!(pool.next_join(), Some((1, 101)));
    assert!(pool.finish_join());
    assert_eq!(pool.phase(), Phase::Stopped);
    assert_eq!(pool.worker_state(0), Some(WorkerState::Lost));
    assert_eq!(pool.worker_state(1), Some(WorkerState::Exited));
    assert_eq!(pool.pending(), 0);
    assert_eq!(pool.next_join(), None);
}

#[test]
fn a_worker_lost_in_the_middle_is_joined_in_its_turn() {
    let mut pool: ThreadPool<u32, u32> = running(3);
    pool.execute(1);
    pool.execute(2);
    assert!(matches!(pool.next_job(1), Dispatch::Run(1)));
    assert!(pool.abandon(1));
    assert!(pool.close());
    // the job that waited is still run by a worker that lives
    assert!(matches!(pool.next_job(2), Dispatch::Run(2)));
    assert!(matches!(pool.next_job(2), Dispatch::Exit));
    assert!(matches!(pool.next_job(0), Dispatch::Exit));
    let mut joined = Vec::new();
    while let Some((id, handle)) = pool.next_join() {
        joined.push((id, handle));
        assert!(pool.finish_join());
    }
    assert_eq!(joined, vec![(0, 100), (1, 101), (2, 102)]);
    assert_eq!(pool.phase(), Phase::Stopped);
    assert_eq!(pool.pending(), 0);
}

#[test]
fn a_worker_that_dies_while_it_is_joined_is_recorded_once_it_died() {
    let mut pool: ThreadPool<u32, u32> = running(1);
    pool.execute(1);
    assert!(matches!(pool.next_job(0), Dispatch::Run(1)));
    assert!(pool.close());
    assert_eq!(pool.next_join(), Some((0, 100)));
    // the job still runs: the join has not returned
    assert!(!pool.finish_join());
    assert!(pool.abandon(0));
    assert!(pool.finish_join());
    assert_eq!(pool.phase(), Phase::Stopped);
}

#[test]
fn a_pool_whose_workers_all_died_stops_with_its_jobs_left_over() {
    let mut pool: ThreadPool<u32, u32> = running(2);
    pool.execute(1);
    pool.execute(2);
    pool.execute(3);
    assert!(matches!(pool.next_job(0), Dispatch::Run(1)));
    assert!(matches!(pool.next_job(1), Dispatch::Run(2)));
    assert!(pool.abandon(1));
    assert!(pool.abandon(0));
    assert!(!pool.accepts_jobs());
    assert!(pool.close());
    assert_eq!(pool.next_join(), Some((0, 100)));
    assert!(pool.finish_join());
    assert_eq!(pool.next_join(), Some((1, 101)));
    assert!(pool.finish_join());
    assert_eq!(pool.phase(), Phase::Stopped);
    assert_eq!(pool.pending(), 1);
    assert_eq!(pool.live_workers(), 0);
}

#[test]
fn two_pools_keep_their_jobs_apart() {
    let mut a: ThreadPool<u32, u32> = running(2);
    let mut b: ThreadPool<u32, u32> = running(2);
    let mut from_a = Vec::new();
    let mut from_b = Vec::new();
    for n in 0..50u32 {
        a.execute(2 * n);
        b.execute(2 * n + 1);
        if n % 2 == 1 {
            if let Dispatch::Run(j) = b.next_job((n % 2) as usize) {
                from_b.push(j);
            }
            if let Dispatch::Run(j) = a.next_job(0) {
                from_a.push(j);
            }
        }
    }
    assert!(a.close());
    assert!(b.close());
    for id in [1usize, 0] {
        while let Dispatch::Run(j) = a.next_job(id) {
            from_a.push(j);
        }
        while let Dispatch::Run(j) = b.next_job(id) {
            from_b.push(j);
        }
    }
    let even: Vec<u32> = (0..50).map(|n| 2 * n).collect();
    let odd: Vec<u32> = (0..50).map(|n| 2 * n + 1).collect();
    assert_eq!(from_a, even);
    assert_eq!(from_b, odd);
}

#[test]
fn phases_follow_one_another() {
    let mut pool: ThreadPool<u32, u32> = ThreadPool::new(1).unwrap();
    assert_eq!(pool.phase(), Phase::Constructing);
    pool.register(Ok(1));
    assert_eq!(pool.phase(), Phase::Running);
    pool.execute(9);
    assert_eq!(pool.phase(), Phase::Running);
    assert!(pool.close());
    assert_eq!(pool.phase(), Phase::ShuttingDown);
    assert!(matches!(pool.next_job(0), Dispatch::Run(9)));
    assert!(matches!(pool.next_job(0), Dispatch::Exit));
    assert_eq!(pool.phase(), Phase::ShuttingDown);
    assert_eq!(pool.next_join(), Some((0, 1)));
    assert_eq!(pool.phase(), Phase::ShuttingDown);
    assert!(pool.finish_join());
    assert_eq!(pool.phase(), Phase::Stopped);
}
