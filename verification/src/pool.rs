use vstd::prelude::*;

use crate::worker_set::{index_range, WorkerSet};

verus! {

/// A snapshot of the pool's bookkeeping, as `get_stats` reports it.
#[derive(Debug, Clone, Copy)]
pub struct PoolStats {
    /// Workers waiting for a job.
    pub available_workers: usize,
    /// Workers running a job.
    pub taken_workers: usize,
    /// Jobs waiting for a worker.
    pub backlog: usize,
    /// Jobs submitted so far (wrapping).
    pub total_work_count: usize,
    /// Rescue threads started so far (wrapping).
    pub total_rescue_threads: usize,
    /// Workers that died from a panicking job so far (wrapping).
    pub total_panics: usize,
}

/// Where a submitted job went.
pub enum Assignment<W> {
    /// Handed to the idle worker with this index, which is now taken.
    Dispatch { worker: usize, work: W },
    /// No worker was idle and the job came from inside the pool: it runs on
    /// a new rescue thread, the `rescue_number`-th one.
    Rescue { work: W, rescue_number: usize },
    /// No worker was idle: the job waits in the backlog.
    Queued,
}

/// What the pool does once a worker reports that its job ended.
pub struct Completion<W> {
    /// The worker died with its job and must be started again.
    pub respawn: bool,
    /// The most recently queued job, handed to the same worker at once.
    pub next: Option<W>,
}

/// A message to the pool's manager.
pub enum Event<W> {
    /// A job, and whether it was submitted from inside a job.
    Work(W, bool),
    /// A worker finished its job; the flag tells whether the job panicked.
    Done(usize, bool),
    /// A request for a snapshot of the bookkeeping.
    GetStats,
}

/// The manager's answer to an [`Event`].
pub enum Reply<W> {
    Assigned(Assignment<W>),
    Completed(Completion<W>),
    Stats(PoolStats),
}

/// The abstract state of a pool.
pub struct PoolView<W> {
    /// Indices of idle workers.
    pub available: Set<usize>,
    /// Indices of busy workers.
    pub taken: Set<usize>,
    /// Queued jobs, oldest first.
    pub backlog: Seq<W>,
    pub work_count: usize,
    pub rescue_threads: usize,
    pub panics: usize,
}

/// The manager of a work pool: which workers are idle, which are busy, the
/// jobs that wait, and running totals.
pub struct Pool<W> {
    available: WorkerSet,
    taken: WorkerSet,
    backlog: Vec<W>,
    work_count: usize,
    rescue_threads: usize,
    panics: usize,
}

impl<W> View for Pool<W> {
    type V = PoolView<W>;

    open spec fn view(&self) -> PoolView<W> {
        PoolView {
            available: self.available_view(),
            taken: self.taken_view(),
            backlog: self.backlog_view(),
            work_count: self.work_count_view(),
            rescue_threads: self.rescue_threads_view(),
            panics: self.panics_view(),
        }
    }
}

/// `n + 1`, wrapping to zero past `usize::MAX`.
pub open spec fn bump(n: usize) -> usize {
    if n == usize::MAX {
        0
    } else {
        (n + 1) as usize
    }
}

/// `i` is the smallest element of `s`.
pub open spec fn is_least(s: Set<usize>, i: usize) -> bool {
    &&& s.contains(i)
    &&& forall|x: usize| #[trigger] s.contains(x) ==> i <= x
}

/// The smallest element of a nonempty set of indices.
pub open spec fn least(s: Set<usize>) -> usize {
    choose|i: usize| is_least(s, i)
}

/// The pool as `Pool::new(thread_count)` makes it.
pub open spec fn initial_view<W>(thread_count: nat) -> PoolView<W> {
    PoolView {
        available: index_range(thread_count),
        taken: Set::empty(),
        backlog: Seq::empty(),
        work_count: 0,
        rescue_threads: 0,
        panics: 0,
    }
}

/// State and answer after a job is submitted.
pub open spec fn submit_spec<W>(pre: PoolView<W>, work: W, recursive: bool) -> (PoolView<W>, Assignment<W>) {
    let counted = PoolView { work_count: bump(pre.work_count), ..pre };
    if pre.available.is_empty() {
        if recursive {
            let n = bump(pre.rescue_threads);
            (PoolView { rescue_threads: n, ..counted }, Assignment::Rescue { work, rescue_number: n })
        } else {
            (PoolView { backlog: pre.backlog.push(work), ..counted }, Assignment::Queued)
        }
    } else {
        let w = least(pre.available);
        (
            PoolView { available: pre.available.remove(w), taken: pre.taken.insert(w), ..counted },
            Assignment::Dispatch { worker: w, work },
        )
    }
}

/// State and answer after `worker` reports that its job ended.
pub open spec fn complete_spec<W>(pre: PoolView<W>, worker: usize, panicked: bool) -> (PoolView<W>, Completion<W>) {
    let panics = if panicked { bump(pre.panics) } else { pre.panics };
    let taken = pre.taken.remove(worker);
    let available = pre.available.insert(worker);
    if pre.backlog.len() > 0 {
        (
            PoolView {
                available: available.remove(worker),
                taken: taken.insert(worker),
                backlog: pre.backlog.drop_last(),
                panics,
                ..pre
            },
            Completion { respawn: panicked, next: Some(pre.backlog.last()) },
        )
    } else {
        (PoolView { available, taken, panics, ..pre }, Completion { respawn: panicked, next: None })
    }
}

/// The snapshot of a pool.
pub open spec fn stats_spec<W>(v: PoolView<W>) -> PoolStats {
    PoolStats {
        available_workers: v.available.len() as usize,
        taken_workers: v.taken.len() as usize,
        backlog: v.backlog.len() as usize,
        total_work_count: v.work_count,
        total_rescue_threads: v.rescue_threads,
        total_panics: v.panics,
    }
}

/// A completion report is acceptable: a worker that did not panic must be
/// one that was busy.
pub open spec fn completion_allowed<W>(pre: PoolView<W>, worker: usize, panicked: bool) -> bool {
    panicked || pre.taken.contains(worker)
}

proof fn lemma_least_unique(s: Set<usize>, i: usize)
    requires
        is_least(s, i),
    ensures
        least(s) == i,
{
    let m = least(s);
    assert(is_least(s, m));
    assert(m <= i && i <= m);
}

impl<W> Pool<W> {
    pub closed spec fn available_view(&self) -> Set<usize> {
        self.available@
    }

    pub closed spec fn taken_view(&self) -> Set<usize> {
        self.taken@
    }

    pub closed spec fn backlog_view(&self) -> Seq<W> {
        self.backlog@
    }

    pub closed spec fn work_count_view(&self) -> usize {
        self.work_count
    }

    pub closed spec fn rescue_threads_view(&self) -> usize {
        self.rescue_threads
    }

    pub closed spec fn panics_view(&self) -> usize {
        self.panics
    }

    /// Both sets of workers are finite, and they and the backlog each fit a
    /// `usize`.
    pub proof fn lemma_sizes(&self)
        ensures
            self@.available.finite(),
            self@.taken.finite(),
            self@.available.len() <= usize::MAX,
            self@.taken.len() <= usize::MAX,
            self@.backlog.len() <= usize::MAX,
    {
        self.available.lemma_finite();
        self.taken.lemma_finite();
        assert(self.backlog.len() == self.backlog@.len());
    }

    /// A pool with `thread_count` idle workers, numbered from zero.
    pub fn new(thread_count: usize) -> (pool: Pool<W>)
        ensures
            pool@ == initial_view::<W>(thread_count as nat),
    {
        let pool = Pool {
            available: WorkerSet::from_range(thread_count),
            taken: WorkerSet::new(),
            backlog: Vec::new(),
            work_count: 0,
            rescue_threads: 0,
            panics: 0,
        };
        assert(pool@.backlog =~= Seq::<W>::empty());
        pool
    }

    /// Whether the worker with this index is busy.
    pub fn is_taken(&self, worker: usize) -> (b: bool)
        ensures
            b == self@.taken.contains(worker),
    {
        self.taken.contains(worker)
    }

    /// Handles the report of `worker` that its job ended, `panicked` telling
    /// whether the job panicked (and took the worker with it).
    ///
    /// The worker becomes idle, or takes the most recently queued job at
    /// once; a panicked worker is to be started again.
    pub fn complete(&mut self, worker: usize, panicked: bool) -> (done: Completion<W>)
        requires
            completion_allowed(old(self)@, worker, panicked),
        ensures
            (final(self)@, done) == complete_spec(old(self)@, worker, panicked),
    {
        self.taken.remove(worker);
        if panicked {
            self.panics = self.panics.wrapping_add(1);
        }
        self.available.insert(worker);
        match self.backlog.pop() {
            Some(work) => {
                self.available.remove(worker);
                self.taken.insert(worker);
                Completion { respawn: panicked, next: Some(work) }
            },
            None => Completion { respawn: panicked, next: None },
        }
    }

    /// Handles one message, as the manager's loop does.
    pub fn step(&mut self, event: Event<W>) -> (reply: Reply<W>)
        requires
            event matches Event::Done(worker, panicked) ==> completion_allowed(
                old(self)@,
                worker,
                panicked,
            ),
        ensures
            match event {
                Event::Work(work, recursive) => {
                    let (post, assignment) = submit_spec(old(self)@, work, recursive);
                    final(self)@ == post && reply == Reply::Assigned(assignment)
                },
                Event::Done(worker, panicked) => {
                    let (post, completion) = complete_spec(old(self)@, worker, panicked);
                    final(self)@ == post && reply == Reply::Completed(completion)
                },
                Event::GetStats => final(self)@ == old(self)@ && reply == Reply::<W>::Stats(
                    stats_spec(old(self)@),
                ),
            },
    {
        match event {
            Event::Work(work, recursive) => Reply::Assigned(send_work(self, work, recursive)),
            Event::Done(worker, panicked) => Reply::Completed(self.complete(worker, panicked)),
            Event::GetStats => Reply::Stats(get_stats(self)),
        }
    }
}

/// The manager's handling of a job submitted with `send_work`: the job goes
/// to the idle worker with the smallest index;
/// where every worker is busy, to a new rescue thread if the job was
/// submitted from inside a job (`recursive`), else to the backlog.
pub fn send_work<W>(pool: &mut Pool<W>, work: W, recursive: bool) -> (assignment: Assignment<W>)
    ensures
        (final(pool)@, assignment) == submit_spec(old(pool)@, work, recursive),
{
    pool.work_count = pool.work_count.wrapping_add(1);
    match pool.available.pop_first() {
        Some(worker) => {
            proof {
                lemma_least_unique(old(pool)@.available, worker);
            }
            pool.taken.insert(worker);
            Assignment::Dispatch { worker, work }
        },
        None => {
            if recursive {
                pool.rescue_threads = pool.rescue_threads.wrapping_add(1);
                Assignment::Rescue { work, rescue_number: pool.rescue_threads }
            } else {
                pool.backlog.push(work);
                Assignment::Queued
            }
        },
    }
}

/// The manager's answer to a `get_stats` request: the snapshot of the
/// pool's bookkeeping.
pub fn get_stats<W>(pool: &Pool<W>) -> (stats: PoolStats)
    ensures
        stats == stats_spec(pool@),
{
    PoolStats {
        available_workers: pool.available.len(),
        taken_workers: pool.taken.len(),
        backlog: pool.backlog.len(),
        total_work_count: pool.work_count,
        total_rescue_threads: pool.rescue_threads,
        total_panics: pool.panics,
    }
}

} // verus!
