// The pool's manager driven by a single-threaded executor: a job dispatched
// to a worker runs when someone waits, a job on a rescue thread runs at once,
// and a worker reports back to the manager when its job ends.

use zippy::pool::{get_stats, send_work};
use zippy::{Assignment, Pool, PoolStats};

const WORKERS: usize = 4;

type Task = Box<dyn FnOnce(&mut Sim) -> Option<usize>>;

struct Sim {
    pool: Pool<(usize, Task)>,
    running: Vec<(usize, (usize, Task))>,
    results: Vec<Option<Option<usize>>>,
    depth: usize,
}

impl Sim {
    fn new(workers: usize) -> Sim {
        Sim { pool: Pool::new(workers), running: Vec::new(), results: Vec::new(), depth: 0 }
    }

    fn stats(&self) -> PoolStats {
        get_stats(&self.pool)
    }

    fn submit(&mut self, task: Task) -> usize {
        let id = self.results.len();
        self.results.push(None);
        let recursive = self.depth > 0;
        match send_work(&mut self.pool, (id, task), recursive) {
            Assignment::Dispatch { worker, work } => self.running.push((worker, work)),
            Assignment::Rescue { work, .. } => {
                self.execute(work);
            }
            Assignment::Queued => {}
        }
        id
    }

    // Runs a job; tells whether it panicked.
    fn execute(&mut self, work: (usize, Task)) -> bool {
        let (id, task) = work;
        self.depth += 1;
        let res = task(self);
        self.depth -= 1;
        self.results[id] = Some(res);
        res.is_none()
    }

    fn run_one(&mut self) -> bool {
        if self.running.is_empty() {
            return false;
        }
        let (worker, work) = self.running.remove(0);
        let panicked = self.execute(work);
        assert!(panicked || self.pool.is_taken(worker));
        let done = self.pool.complete(worker, panicked);
        assert_eq!(done.respawn, panicked);
        if let Some(next) = done.next {
            self.running.push((worker, next));
        }
        true
    }

    fn try_wait(&mut self, id: usize) -> Option<usize> {
        while self.results[id].is_none() {
            assert!(self.run_one(), "a job waits with no worker to run it");
        }
        self.results[id].unwrap()
    }

    fn wait(&mut self, id: usize) -> usize {
        self.try_wait(id).unwrap()
    }
}

fn fib(sim: &mut Sim, num: usize) -> usize {
    match num {
        0 => 0,
        1 => 1,
        _ => {
            let a = sim.submit(Box::new(move |s: &mut Sim| Some(fib(s, num - 1))));
            let a = sim.wait(a);
            let b = sim.submit(Box::new(move |s: &mut Sim| Some(fib(s, num - 2))));
            let b = sim.wait(b);
            a + b
        }
    }
}

fn panic_job() -> Option<usize> {
    let rand = rand::random::<u8>() % 2;
    if rand == 0 {
        // the job panics with "OUCH!"
        None
    } else {
        Some(0)
    }
}

#[test]
fn linear() {
    let mut sim = Sim::new(WORKERS);
    let before_stats = sim.stats();
    let mut jobs = Vec::new();
    let count = 100000;
    for _ in 0..count {
        jobs.push(sim.submit(Box::new(move |_s: &mut Sim| Some(1))));
    }
    let res = jobs.into_iter().map(|a| sim.wait(a)).sum::<usize>();
    let after_stats = sim.stats();

    assert_eq!(res, count);
    assert_eq!(before_stats.total_work_count + count, after_stats.total_work_count);
    assert_eq!(before_stats.available_workers, after_stats.available_workers);
    assert_eq!(before_stats.taken_workers, after_stats.taken_workers);
    assert_eq!(before_stats.total_panics, after_stats.total_panics);
    assert_eq!(before_stats.total_rescue_threads, after_stats.total_rescue_threads);
}

#[test]
fn recursive() {
    let mut sim = Sim::new(WORKERS);
    let before_stats = sim.stats();
    let job = sim.submit(Box::new(|s: &mut Sim| Some(fib(s, 22))));
    let res = sim.wait(job);
    let after_stats = sim.stats();

    assert_eq!(res, 17711);
    assert!(before_stats.total_work_count < after_stats.total_work_count);
    assert_eq!(before_stats.available_workers, after_stats.available_workers);
    assert_eq!(before_stats.taken_workers, after_stats.taken_workers);
    assert_eq!(before_stats.total_panics, after_stats.total_panics);
    assert!(before_stats.total_rescue_threads < after_stats.total_rescue_threads);
}

#[test]
fn crash() {
    let mut sim = Sim::new(WORKERS);
    let mut jobs = Vec::new();
    let before_stats = sim.stats();

    let count = 100000;
    for _ in 0..count {
        jobs.push(sim.submit(Box::new(|_s: &mut Sim| panic_job())));
    }

    let mut sum = 0;
    while let Some(w) = jobs.pop() {
        if sim.try_wait(w).is_some() {
            sum += 1;
        } else {
            jobs.push(sim.submit(Box::new(|_s: &mut Sim| panic_job())));
        }
    }
    let after_stats = sim.stats();

    assert_eq!(sum, count);
    assert!(before_stats.total_work_count < after_stats.total_work_count);
    assert_eq!(before_stats.available_workers, after_stats.available_workers);
    assert_eq!(before_stats.taken_workers, after_stats.taken_workers);
    assert!(before_stats.total_panics <= after_stats.total_panics);
    assert_eq!(before_stats.total_rescue_threads, after_stats.total_rescue_threads);
}

#[test]
fn idle_pool_counts_every_worker() {
    let sim = Sim::new(WORKERS);
    let stats = sim.stats();
    assert_eq!(stats.available_workers, WORKERS);
    assert_eq!(stats.taken_workers, 0);
    assert_eq!(stats.backlog, 0);
    assert_eq!(stats.total_work_count, 0);
    assert_eq!(stats.total_rescue_threads, 0);
    assert_eq!(stats.total_panics, 0);
}

#[test]
fn busy_pool_counts_every_worker() {
    let mut sim = Sim::new(WORKERS);
    for _ in 0..WORKERS + 3 {
        sim.submit(Box::new(|_s: &mut Sim| Some(1)));
    }
    let stats = sim.stats();
    assert_eq!(stats.available_workers + stats.taken_workers, WORKERS);
    assert_eq!(stats.taken_workers, WORKERS);
    assert_eq!(stats.backlog, 3);
    assert_eq!(stats.total_work_count, WORKERS + 3);
}
