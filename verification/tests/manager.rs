use zippy::fib::{fib_base, fib_join};
use zippy::pool::{get_stats, send_work};
use zippy::{Assignment, Event, Pool, Reply, WorkerSet};

#[test]
fn dispatch_goes_to_lowest_idle_worker() {
    let mut pool: Pool<u32> = Pool::new(3);
    assert!(matches!(send_work(&mut pool, 10, false), Assignment::Dispatch { worker: 0, work: 10 }));
    assert!(matches!(send_work(&mut pool, 11, false), Assignment::Dispatch { worker: 1, work: 11 }));
    let done = pool.complete(0, false);
    assert!(!done.respawn);
    assert!(done.next.is_none());
    assert!(matches!(send_work(&mut pool, 12, true), Assignment::Dispatch { worker: 0, work: 12 }));
    assert!(matches!(send_work(&mut pool, 13, false), Assignment::Dispatch { worker: 2, work: 13 }));
    let stats = get_stats(&pool);
    assert_eq!(stats.available_workers, 0);
    assert_eq!(stats.taken_workers, 3);
    assert_eq!(stats.total_work_count, 4);
}

#[test]
fn backlog_is_last_in_first_out() {
    let mut pool: Pool<u32> = Pool::new(1);
    assert!(matches!(send_work(&mut pool, 1, false), Assignment::Dispatch { worker: 0, work: 1 }));
    assert!(matches!(send_work(&mut pool, 2, false), Assignment::Queued));
    assert!(matches!(send_work(&mut pool, 3, false), Assignment::Queued));
    assert_eq!(get_stats(&pool).backlog, 2);
    let done = pool.complete(0, false);
    assert_eq!(done.next, Some(3));
    assert!(pool.is_taken(0));
    let done = pool.complete(0, false);
    assert_eq!(done.next, Some(2));
    let done = pool.complete(0, false);
    assert_eq!(done.next, None);
    assert!(!pool.is_taken(0));
    let stats = get_stats(&pool);
    assert_eq!(stats.available_workers, 1);
    assert_eq!(stats.taken_workers, 0);
    assert_eq!(stats.backlog, 0);
}

#[test]
fn recursive_work_gets_rescue_threads() {
    let mut pool: Pool<u32> = Pool::new(1);
    assert!(matches!(send_work(&mut pool, 1, true), Assignment::Dispatch { worker: 0, work: 1 }));
    assert!(matches!(send_work(&mut pool, 2, true), Assignment::Rescue { work: 2, rescue_number: 1 }));
    assert!(matches!(send_work(&mut pool, 3, true), Assignment::Rescue { work: 3, rescue_number: 2 }));
    let stats = get_stats(&pool);
    assert_eq!(stats.total_rescue_threads, 2);
    assert_eq!(stats.backlog, 0);
    assert_eq!(stats.total_work_count, 3);
}

#[test]
fn panicked_worker_is_respawned() {
    let mut pool: Pool<u32> = Pool::new(2);
    assert!(matches!(send_work(&mut pool, 1, false), Assignment::Dispatch { worker: 0, work: 1 }));
    assert!(matches!(send_work(&mut pool, 2, false), Assignment::Dispatch { worker: 1, work: 2 }));
    assert!(matches!(send_work(&mut pool, 3, false), Assignment::Queued));
    let done = pool.complete(1, true);
    assert!(done.respawn);
    assert_eq!(done.next, Some(3));
    let stats = get_stats(&pool);
    assert_eq!(stats.total_panics, 1);
    assert_eq!(stats.taken_workers, 2);
    let done = pool.complete(0, true);
    assert!(done.respawn);
    assert_eq!(done.next, None);
    let stats = get_stats(&pool);
    assert_eq!(stats.total_panics, 2);
    assert_eq!(stats.available_workers, 1);
    assert_eq!(stats.taken_workers, 1);
}

#[test]
fn submit_then_complete_restores_the_pool() {
    let mut pool: Pool<u32> = Pool::new(4);
    let before = get_stats(&pool);
    let worker = match send_work(&mut pool, 5, false) {
        Assignment::Dispatch { worker, work } => {
            assert_eq!(work, 5);
            worker
        }
        _ => panic!("an idle worker should have taken the job"),
    };
    let done = pool.complete(worker, false);
    assert!(!done.respawn);
    assert!(done.next.is_none());
    let after = get_stats(&pool);
    assert_eq!(after.available_workers, before.available_workers);
    assert_eq!(after.taken_workers, before.taken_workers);
    assert_eq!(after.backlog, before.backlog);
    assert_eq!(after.total_work_count, before.total_work_count + 1);
}

#[test]
fn step_handles_every_event() {
    let mut pool: Pool<u32> = Pool::new(1);
    assert!(matches!(
        pool.step(Event::Work(7, false)),
        Reply::Assigned(Assignment::Dispatch { worker: 0, work: 7 })
    ));
    assert!(matches!(pool.step(Event::Work(8, false)), Reply::Assigned(Assignment::Queued)));
    match pool.step(Event::GetStats) {
        Reply::Stats(stats) => {
            assert_eq!(stats.taken_workers, 1);
            assert_eq!(stats.backlog, 1);
            assert_eq!(stats.total_work_count, 2);
        }
        _ => panic!("a stats request gets stats"),
    }
    match pool.step(Event::Done(0, false)) {
        Reply::Completed(done) => {
            assert!(!done.respawn);
            assert_eq!(done.next, Some(8));
        }
        _ => panic!("a completion gets a completion"),
    }
    match pool.step(Event::Done(0, false)) {
        Reply::Completed(done) => assert_eq!(done.next, None),
        _ => panic!("a completion gets a completion"),
    }
    match pool.step(Event::GetStats) {
        Reply::Stats(stats) => {
            assert_eq!(stats.available_workers, 1);
            assert_eq!(stats.taken_workers, 0);
            assert_eq!(stats.backlog, 0);
        }
        _ => panic!("a stats request gets stats"),
    }
}

#[test]
fn pool_without_workers_queues_everything() {
    let mut pool: Pool<u32> = Pool::new(0);
    assert!(matches!(send_work(&mut pool, 1, false), Assignment::Queued));
    assert!(matches!(send_work(&mut pool, 2, true), Assignment::Rescue { work: 2, rescue_number: 1 }));
    let stats = get_stats(&pool);
    assert_eq!(stats.available_workers, 0);
    assert_eq!(stats.backlog, 1);
}

#[test]
fn worker_set_keeps_indices_sorted() {
    let mut set = WorkerSet::new();
    assert!(set.is_empty());
    set.insert(5);
    set.insert(2);
    set.insert(9);
    set.insert(2);
    assert_eq!(set.len(), 3);
    assert!(set.contains(5));
    assert!(!set.contains(3));
    assert!(set.remove(5));
    assert!(!set.remove(5));
    assert_eq!(set.pop_first(), Some(2));
    assert_eq!(set.pop_first(), Some(9));
    assert_eq!(set.pop_first(), None);
    assert!(set.is_empty());
}

#[test]
fn worker_set_from_range() {
    let mut set = WorkerSet::from_range(3);
    assert_eq!(set.len(), 3);
    assert!(set.contains(0) && set.contains(2) && !set.contains(3));
    assert_eq!(set.pop_first(), Some(0));
    set.insert(0);
    assert_eq!(set.pop_first(), Some(0));
    assert_eq!(set.pop_first(), Some(1));
}

#[test]
fn fib_pieces() {
    assert_eq!(fib_base(0), Some(0));
    assert_eq!(fib_base(1), Some(1));
    assert_eq!(fib_base(2), None);
    assert_eq!(fib_join(22, 10946, 6765), 17711);
}

#[test]
fn busy_pool_queues_outside_jobs() {
    let mut pool: Pool<u32> = Pool::new(1);
    assert!(matches!(send_work(&mut pool, 0, false), Assignment::Dispatch { worker: 0, work: 0 }));
    let before = get_stats(&pool);
    for k in 1..=5 {
        assert!(matches!(send_work(&mut pool, k, false), Assignment::Queued));
    }
    let after = get_stats(&pool);
    assert_eq!(after.backlog, before.backlog + 5);
    assert_eq!(after.total_work_count, before.total_work_count + 5);
    assert_eq!(after.total_rescue_threads, before.total_rescue_threads);
    assert_eq!(after.available_workers, 0);
}

#[test]
fn every_job_is_handed_out_once() {
    let mut pool: Pool<u32> = Pool::new(2);
    let mut handed: Vec<(usize, u32)> = Vec::new();
    for job in 0..10u32 {
        match send_work(&mut pool, job, false) {
            Assignment::Dispatch { worker, work } => handed.push((worker, work)),
            Assignment::Rescue { .. } => panic!("an outside job gets no rescue thread"),
            Assignment::Queued => {}
        }
    }
    let mut done: Vec<u32> = Vec::new();
    while let Some((worker, work)) = handed.pop() {
        done.push(work);
        let completion = pool.complete(worker, work % 3 == 0);
        if let Some(next) = completion.next {
            handed.push((worker, next));
        }
    }
    done.sort();
    assert_eq!(done, (0..10u32).collect::<Vec<u32>>());
    let stats = get_stats(&pool);
    assert_eq!(stats.available_workers, 2);
    assert_eq!(stats.taken_workers, 0);
    assert_eq!(stats.backlog, 0);
    assert_eq!(stats.total_panics, 4);
}
