use vstd::multiset::Multiset;
use vstd::prelude::*;

use crate::pool::{
    bump, complete_spec, completion_allowed, initial_view, is_least, least, stats_spec, submit_spec,
    Assignment, Completion, Event, Pool, PoolStats, PoolView,
};
use crate::worker_set::index_range;

verus! {

/// Each of the `n` workers is either idle or busy, never both, and there is
/// no other worker.
pub open spec fn workers_accounted<W>(v: PoolView<W>, n: nat) -> bool {
    &&& v.available.disjoint(v.taken)
    &&& v.available + v.taken == index_range(n)
}

/// No job waits in the backlog while a worker is idle.
pub open spec fn no_idle_while_backlogged<W>(v: PoolView<W>) -> bool {
    v.backlog.len() > 0 ==> v.available.is_empty()
}

/// The invariant that every state of a pool of `n` workers keeps.
pub open spec fn pool_invariant<W>(v: PoolView<W>, n: nat) -> bool {
    &&& workers_accounted(v, n)
    &&& no_idle_while_backlogged(v)
}

/// The indices `0 .. n` are `n` indices.
pub proof fn lemma_index_range_len(n: nat)
    requires
        n <= usize::MAX + 1,
    ensures
        index_range(n).finite(),
        index_range(n).len() == n,
    decreases n,
{
    if n == 0 {
        assert(index_range(0) =~= Set::<usize>::empty());
    } else {
        let m = (n - 1) as nat;
        lemma_index_range_len(m);
        let k = m as usize;
        assert(index_range(n) =~= index_range(m).insert(k));
    }
}

/// A new pool of `thread_count` workers has all of them idle and nothing
/// queued.
pub proof fn law_initial_invariant<W>(thread_count: usize)
    ensures
        pool_invariant(initial_view::<W>(thread_count as nat), thread_count as nat),
{
    let v = initial_view::<W>(thread_count as nat);
    assert(v.available + v.taken =~= index_range(thread_count as nat));
}

/// Submitting a job keeps every worker accounted for and never leaves a job
/// waiting while a worker is idle.
pub proof fn law_submit_keeps_invariant<W>(pre: PoolView<W>, work: W, recursive: bool, n: usize)
    requires
        pool_invariant(pre, n as nat),
    ensures
        pool_invariant(submit_spec(pre, work, recursive).0, n as nat),
{
    let post = submit_spec(pre, work, recursive).0;
    if !pre.available.is_empty() {
        lemma_accounted_finite(pre, n as nat);
        lemma_least_exists(pre.available);
        assert(post.available + post.taken =~= pre.available + pre.taken);
    }
}

/// The sets of an accounted pool are finite, and their sizes add up to `n`.
pub proof fn lemma_accounted_finite<W>(v: PoolView<W>, n: nat)
    requires
        n <= usize::MAX,
        workers_accounted(v, n),
    ensures
        v.available.finite(),
        v.taken.finite(),
        v.available.len() + v.taken.len() == n,
{
    lemma_index_range_len(n);
    vstd::set_lib::lemma_len_subset(v.available, index_range(n));
    vstd::set_lib::lemma_len_subset(v.taken, index_range(n));
    vstd::set_lib::lemma_set_disjoint_lens(v.available, v.taken);
}

/// A nonempty finite set of indices has a smallest element.
pub proof fn lemma_least_exists(s: Set<usize>)
    requires
        s.finite(),
        !s.is_empty(),
    ensures
        is_least(s, least(s)),
    decreases s.len(),
{
    let x = s.choose();
    assert(s.contains(x));
    let rest = s.remove(x);
    if rest.is_empty() {
        assert forall|y: usize| #[trigger] s.contains(y) implies x <= y by {
            if y != x {
                assert(rest.contains(y));
            }
        }
        assert(is_least(s, x));
    } else {
        lemma_least_exists(rest);
        let m = least(rest);
        if m < x {
            assert(is_least(s, m));
        } else {
            assert forall|y: usize| #[trigger] s.contains(y) implies x <= y by {
                if y != x {
                    assert(rest.contains(y));
                }
            }
            assert(is_least(s, x));
        }
    }
}

/// When every completion is reported by a busy worker, completing a job
/// keeps every worker accounted for and never leaves a job waiting while a
/// worker is idle.
pub proof fn law_complete_keeps_invariant<W>(pre: PoolView<W>, worker: usize, panicked: bool, n: usize)
    requires
        pool_invariant(pre, n as nat),
        pre.taken.contains(worker),
    ensures
        completion_allowed(pre, worker, panicked),
        pool_invariant(complete_spec(pre, worker, panicked).0, n as nat),
{
    let post = complete_spec(pre, worker, panicked).0;
    assert(post.available + post.taken =~= pre.available + pre.taken);
}

/// The snapshot of a pool of `n` workers counts them all: the idle and the
/// busy ones add up to `n`.
pub proof fn law_stats_count_all_workers<W>(v: PoolView<W>, n: usize)
    requires
        pool_invariant(v, n as nat),
    ensures
        stats_spec(v).available_workers + stats_spec(v).taken_workers == n,
{
    lemma_accounted_finite(v, n as nat);
}

/// Two snapshots of a pool of `n` workers taken while no job runs agree on
/// the idle and the busy workers and on the backlog: all `n` are idle and
/// nothing waits.
pub proof fn law_idle_stats<W>(v: PoolView<W>, n: usize)
    requires
        pool_invariant(v, n as nat),
        v.taken.is_empty(),
    ensures
        stats_spec(v).available_workers == n,
        stats_spec(v).taken_workers == 0,
        n > 0 ==> stats_spec(v).backlog == 0,
{
    lemma_accounted_finite(v, n as nat);
    assert(v.taken =~= Set::<usize>::empty());
    if n > 0 {
        assert(index_range(n as nat).contains(0));
        assert(v.available.contains(0));
    }
}

/// Where a worker is idle, a job submitted and then reported done by the
/// worker it went to leaves the pool as it was, but for one more job counted
/// and, where the job panicked, one more panic counted and the worker to be
/// started again.
pub proof fn law_submit_then_complete<W>(
    pre: PoolView<W>,
    work: W,
    recursive: bool,
    panicked: bool,
    n: usize,
)
    requires
        pool_invariant(pre, n as nat),
        !pre.available.is_empty(),
    ensures
        ({
            let (mid, assignment) = submit_spec(pre, work, recursive);
            &&& assignment matches Assignment::Dispatch { worker, work: w }
            &&& w == work
            &&& completion_allowed(mid, worker, panicked)
            &&& complete_spec(mid, worker, panicked) == (
                PoolView {
                    work_count: bump(pre.work_count),
                    panics: if panicked {
                        bump(pre.panics)
                    } else {
                        pre.panics
                    },
                    ..pre
                },
                Completion::<W> { respawn: panicked, next: None },
            )
        }),
{
    lemma_accounted_finite(pre, n as nat);
    lemma_least_exists(pre.available);
    let w = least(pre.available);
    let (mid, assignment) = submit_spec(pre, work, recursive);
    let post = complete_spec(mid, w, panicked).0;
    assert(!pre.taken.contains(w));
    assert(post.available =~= pre.available);
    assert(post.taken =~= pre.taken);
}

/// A job queued while every worker is busy goes to the first worker that
/// reports its job done.
pub proof fn law_queued_job_goes_to_next_free_worker<W>(
    pre: PoolView<W>,
    work: W,
    worker: usize,
    panicked: bool,
)
    requires
        pre.available.is_empty(),
        completion_allowed(pre, worker, panicked),
    ensures
        ({
            let (mid, assignment) = submit_spec(pre, work, false);
            let (post, done) = complete_spec(mid, worker, panicked);
            &&& assignment == Assignment::<W>::Queued
            &&& done.next == Some(work)
            &&& post.backlog == pre.backlog
            &&& post.taken.contains(worker)
        }),
{
}

/// A job submitted from inside a job never waits in the backlog, and a job
/// submitted from outside never gets a rescue thread.
pub proof fn law_recursive_jobs_never_wait<W>(pre: PoolView<W>, work: W, recursive: bool)
    ensures
        recursive ==> submit_spec(pre, work, recursive).1 !is Queued,
        recursive ==> submit_spec(pre, work, recursive).0.backlog == pre.backlog,
        !recursive ==> submit_spec(pre, work, recursive).1 !is Rescue,
        !recursive ==> submit_spec(pre, work, recursive).0.rescue_threads == pre.rescue_threads,
{
}

/// A worker that died with its job is started again in its place: the pool
/// keeps all its workers, the death is counted, and the job is not repeated.
pub proof fn law_panicked_worker_is_replaced<W>(pre: PoolView<W>, worker: usize, n: usize)
    requires
        pool_invariant(pre, n as nat),
        pre.taken.contains(worker),
    ensures
        ({
            let (post, done) = complete_spec(pre, worker, true);
            &&& done.respawn
            &&& post.panics == bump(pre.panics)
            &&& post.work_count == pre.work_count
            &&& pool_invariant(post, n as nat)
            &&& stats_spec(post).available_workers + stats_spec(post).taken_workers == n
        }),
{
    law_complete_keeps_invariant(pre, worker, true, n);
    law_stats_count_all_workers(complete_spec(pre, worker, true).0, n);
}

/// `usize::MAX + 1`: the counters of a pool wrap modulo this.
pub open spec fn counter_modulus() -> int {
    usize::MAX as int + 1
}

/// The pool's state after one event.
pub open spec fn apply_event<W>(v: PoolView<W>, e: Event<W>) -> PoolView<W> {
    match e {
        Event::Work(work, recursive) => submit_spec(v, work, recursive).0,
        Event::Done(worker, panicked) => complete_spec(v, worker, panicked).0,
        Event::GetStats => v,
    }
}

/// The pool's state after a history of events, oldest first.
pub open spec fn run_events<W>(v: PoolView<W>, es: Seq<Event<W>>) -> PoolView<W>
    decreases es.len(),
{
    if es.len() == 0 {
        v
    } else {
        apply_event(run_events(v, es.drop_last()), es.last())
    }
}

/// Every completion in the history is reported by a worker that is busy
/// at that point.
pub open spec fn history_valid<W>(v: PoolView<W>, es: Seq<Event<W>>) -> bool
    decreases es.len(),
{
    es.len() == 0 || {
        &&& history_valid(v, es.drop_last())
        &&& (es.last() matches Event::Done(worker, _) ==> run_events(
            v,
            es.drop_last(),
        ).taken.contains(worker))
    }
}

/// The event is a job that the pool, in state `v`, hands to a rescue thread.
pub open spec fn rescued<W>(v: PoolView<W>, e: Event<W>) -> bool {
    e matches Event::Work(work, recursive) && submit_spec(v, work, recursive).1 is Rescue
}

/// How many jobs of the history went to rescue threads.
pub open spec fn count_rescues<W>(v: PoolView<W>, es: Seq<Event<W>>) -> nat
    decreases es.len(),
{
    if es.len() == 0 {
        0
    } else {
        count_rescues(v, es.drop_last()) + if rescued(run_events(v, es.drop_last()), es.last()) {
            1nat
        } else {
            0nat
        }
    }
}

/// How many jobs the history submits.
pub open spec fn count_works<W>(es: Seq<Event<W>>) -> nat
    decreases es.len(),
{
    if es.len() == 0 {
        0
    } else {
        count_works(es.drop_last()) + if es.last() is Work {
            1nat
        } else {
            0nat
        }
    }
}

/// How many completions the history reports.
pub open spec fn count_dones<W>(es: Seq<Event<W>>) -> nat
    decreases es.len(),
{
    if es.len() == 0 {
        0
    } else {
        count_dones(es.drop_last()) + if es.last() is Done {
            1nat
        } else {
            0nat
        }
    }
}

/// How many completions of the history report a panicked job.
pub open spec fn count_panics<W>(es: Seq<Event<W>>) -> nat
    decreases es.len(),
{
    if es.len() == 0 {
        0
    } else {
        count_panics(es.drop_last()) + if es.last() matches Event::Done(_, true) {
            1nat
        } else {
            0nat
        }
    }
}

/// The event is a job that the pool, in state `v`, puts in the backlog.
pub open spec fn queued<W>(v: PoolView<W>, e: Event<W>) -> bool {
    e matches Event::Work(work, recursive) && submit_spec(v, work, recursive).1 is Queued
}

/// The event is a completion on which the pool, in state `v`, hands the
/// newest queued job to the reporting worker.
pub open spec fn handoff<W>(v: PoolView<W>, e: Event<W>) -> bool {
    e is Done && v.backlog.len() > 0
}

/// How many jobs of the history went to the backlog.
pub open spec fn count_queued<W>(v: PoolView<W>, es: Seq<Event<W>>) -> nat
    decreases es.len(),
{
    if es.len() == 0 {
        0
    } else {
        count_queued(v, es.drop_last()) + if queued(run_events(v, es.drop_last()), es.last()) {
            1nat
        } else {
            0nat
        }
    }
}

/// How many completions of the history took a job from the backlog.
pub open spec fn count_handoffs<W>(v: PoolView<W>, es: Seq<Event<W>>) -> nat
    decreases es.len(),
{
    if es.len() == 0 {
        0
    } else {
        count_handoffs(v, es.drop_last()) + if handoff(run_events(v, es.drop_last()), es.last()) {
            1nat
        } else {
            0nat
        }
    }
}

/// The job that the pool, in state `v`, hands to a worker or to a rescue
/// thread on event `e`, if any.
pub open spec fn handed_out<W>(v: PoolView<W>, e: Event<W>) -> Option<W> {
    match e {
        Event::Work(work, recursive) => match submit_spec(v, work, recursive).1 {
            Assignment::Dispatch { work, .. } => Some(work),
            Assignment::Rescue { work, .. } => Some(work),
            Assignment::Queued => None,
        },
        Event::Done(worker, panicked) => complete_spec(v, worker, panicked).1.next,
        Event::GetStats => None,
    }
}

/// The jobs handed to workers or rescue threads over a history, in order.
pub open spec fn jobs_handed_out<W>(v: PoolView<W>, es: Seq<Event<W>>) -> Seq<W>
    decreases es.len(),
{
    if es.len() == 0 {
        Seq::empty()
    } else {
        let earlier = jobs_handed_out(v, es.drop_last());
        match handed_out(run_events(v, es.drop_last()), es.last()) {
            Some(work) => earlier.push(work),
            None => earlier,
        }
    }
}

/// The jobs submitted over a history, in order.
pub open spec fn jobs_submitted<W>(es: Seq<Event<W>>) -> Seq<W>
    decreases es.len(),
{
    if es.len() == 0 {
        Seq::empty()
    } else {
        let earlier = jobs_submitted(es.drop_last());
        match es.last() {
            Event::Work(work, _) => earlier.push(work),
            _ => earlier,
        }
    }
}

/// Every event of the history is a job submitted from outside any job.
pub open spec fn only_outside_submissions<W>(es: Seq<Event<W>>) -> bool {
    forall|i: int| 0 <= i < es.len() ==> (#[trigger] es[i] matches Event::Work(_, false))
}

/// Every job of the history is submitted from outside any job.
pub open spec fn submitted_from_outside<W>(es: Seq<Event<W>>) -> bool {
    forall|i: int| 0 <= i < es.len() ==> !(#[trigger] es[i] matches Event::Work(_, true))
}

proof fn lemma_bump_mod(x: usize, a: int)
    requires
        x as int == a % counter_modulus(),
    ensures
        bump(x) as int == (a + 1) % counter_modulus(),
{
    let m = counter_modulus();
    vstd::arithmetic::div_mod::lemma_add_mod_noop(a, 1, m);
    vstd::arithmetic::div_mod::lemma_small_mod(1, m as nat);
    if x == usize::MAX {
        vstd::arithmetic::div_mod::lemma_mod_self_0(m);
    } else {
        vstd::arithmetic::div_mod::lemma_small_mod((x + 1) as nat, m as nat);
    }
}

/// One event keeps the invariant and moves the balance of busy workers,
/// queued jobs, completions and rescues by what it does.
proof fn lemma_event_balance<W>(v: PoolView<W>, e: Event<W>, n: usize)
    requires
        pool_invariant(v, n as nat),
        e matches Event::Done(worker, _) ==> v.taken.contains(worker),
    ensures
        pool_invariant(apply_event(v, e), n as nat),
        apply_event(v, e).taken.len() + apply_event(v, e).backlog.len() + (if e is Done {
            1int
        } else {
            0int
        }) + (if rescued(v, e) {
            1int
        } else {
            0int
        }) == v.taken.len() + v.backlog.len() + (if e is Work {
            1int
        } else {
            0int
        }),
        apply_event(v, e).work_count == if e is Work {
            bump(v.work_count)
        } else {
            v.work_count
        },
        apply_event(v, e).panics == if e matches Event::Done(_, true) {
            bump(v.panics)
        } else {
            v.panics
        },
        apply_event(v, e).rescue_threads == if rescued(v, e) {
            bump(v.rescue_threads)
        } else {
            v.rescue_threads
        },
        apply_event(v, e).backlog.len() + (if handoff(v, e) {
            1int
        } else {
            0int
        }) == v.backlog.len() + (if queued(v, e) {
            1int
        } else {
            0int
        }),
{
    lemma_accounted_finite(v, n as nat);
    match e {
        Event::Work(work, recursive) => {
            law_submit_keeps_invariant(v, work, recursive, n);
            if !v.available.is_empty() {
                lemma_least_exists(v.available);
                let w = least(v.available);
                assert(!v.taken.contains(w));
            }
        },
        Event::Done(worker, panicked) => {
            law_complete_keeps_invariant(v, worker, panicked, n);
            if v.backlog.len() > 0 {
                assert(v.taken.remove(worker).insert(worker) =~= v.taken);
            }
        },
        Event::GetStats => {},
    }
}

/// Over any history in which every completion comes from a busy worker,
/// the pool keeps its invariant, and the busy workers and queued jobs
/// change by the jobs submitted less the completions and the jobs sent to
/// rescue threads; the job, panic and rescue counters count (modulo
/// `usize::MAX + 1`) the jobs, the panicked completions and the rescues.
pub proof fn law_history_balance<W>(v: PoolView<W>, es: Seq<Event<W>>, n: usize)
    requires
        pool_invariant(v, n as nat),
        history_valid(v, es),
    ensures
        pool_invariant(run_events(v, es), n as nat),
        run_events(v, es).taken.len() + run_events(v, es).backlog.len() + count_dones(es)
            + count_rescues(v, es) == v.taken.len() + v.backlog.len() + count_works(es),
        run_events(v, es).work_count as int == (v.work_count + count_works(es))
            % counter_modulus(),
        run_events(v, es).panics as int == (v.panics + count_panics(es)) % counter_modulus(),
        run_events(v, es).rescue_threads as int == (v.rescue_threads + count_rescues(v, es))
            % counter_modulus(),
        v.work_count + count_works(es) <= usize::MAX ==> run_events(v, es).work_count
            == v.work_count + count_works(es),
        v.panics + count_panics(es) <= usize::MAX ==> run_events(v, es).panics == v.panics
            + count_panics(es),
        v.rescue_threads + count_rescues(v, es) <= usize::MAX ==> run_events(v, es).rescue_threads
            == v.rescue_threads + count_rescues(v, es),
        run_events(v, es).backlog.len() + count_handoffs(v, es) == v.backlog.len()
            + count_queued(v, es),
        stats_spec(run_events(v, es)).available_workers + stats_spec(
            run_events(v, es),
        ).taken_workers == n,
    decreases es.len(),
{
    let m = counter_modulus();
    lemma_history_balance_mod(v, es, n);
    law_stats_count_all_workers(run_events(v, es), n);
    if v.work_count + count_works(es) <= usize::MAX {
        vstd::arithmetic::div_mod::lemma_small_mod((v.work_count + count_works(es)) as nat, m as nat);
    }
    if v.panics + count_panics(es) <= usize::MAX {
        vstd::arithmetic::div_mod::lemma_small_mod((v.panics + count_panics(es)) as nat, m as nat);
    }
    if v.rescue_threads + count_rescues(v, es) <= usize::MAX {
        vstd::arithmetic::div_mod::lemma_small_mod(
            (v.rescue_threads + count_rescues(v, es)) as nat,
            m as nat,
        );
    }
}

proof fn lemma_history_balance_mod<W>(v: PoolView<W>, es: Seq<Event<W>>, n: usize)
    requires
        pool_invariant(v, n as nat),
        history_valid(v, es),
    ensures
        pool_invariant(run_events(v, es), n as nat),
        run_events(v, es).taken.len() + run_events(v, es).backlog.len() + count_dones(es)
            + count_rescues(v, es) == v.taken.len() + v.backlog.len() + count_works(es),
        run_events(v, es).work_count as int == (v.work_count + count_works(es))
            % counter_modulus(),
        run_events(v, es).panics as int == (v.panics + count_panics(es)) % counter_modulus(),
        run_events(v, es).rescue_threads as int == (v.rescue_threads + count_rescues(v, es))
            % counter_modulus(),
        run_events(v, es).backlog.len() + count_handoffs(v, es) == v.backlog.len()
            + count_queued(v, es),
    decreases es.len(),
{
    let m = counter_modulus();
    if es.len() == 0 {
        vstd::arithmetic::div_mod::lemma_small_mod(v.work_count as nat, m as nat);
        vstd::arithmetic::div_mod::lemma_small_mod(v.panics as nat, m as nat);
        vstd::arithmetic::div_mod::lemma_small_mod(v.rescue_threads as nat, m as nat);
    } else {
        let prefix = es.drop_last();
        let e = es.last();
        lemma_history_balance_mod(v, prefix, n);
        let mid = run_events(v, prefix);
        lemma_event_balance(mid, e, n);
        if e is Work {
            lemma_bump_mod(mid.work_count, v.work_count + count_works(prefix));
        }
        if e matches Event::Done(_, true) {
            lemma_bump_mod(mid.panics, v.panics + count_panics(prefix));
        }
        if rescued(mid, e) {
            lemma_bump_mod(mid.rescue_threads, v.rescue_threads + count_rescues(v, prefix));
        }
    }
}

/// Jobs submitted from outside any job never go to rescue threads.
pub proof fn law_outside_jobs_never_rescued<W>(v: PoolView<W>, es: Seq<Event<W>>)
    requires
        submitted_from_outside(es),
    ensures
        count_rescues(v, es) == 0,
    decreases es.len(),
{
    if es.len() > 0 {
        let prefix = es.drop_last();
        assert forall|i: int| 0 <= i < prefix.len() implies !(#[trigger] prefix[i] matches Event::Work(_, true)) by {
            assert(prefix[i] == es[i]);
        }
        law_outside_jobs_never_rescued(v, prefix);
        assert(!(es[es.len() - 1] matches Event::Work(_, true)));
    }
}

/// A batch of jobs run to completion on an idle pool leaves it as it was:
/// where every job of the history ends (its worker reports back, having
/// finished or panicked and been replaced) or runs on a rescue thread, the
/// snapshot afterwards shows the same idle and busy workers and an empty
/// backlog. Where the jobs come from outside any job, no rescue thread is
/// started either.
pub proof fn law_batch_leaves_pool_as_it_was<W>(v: PoolView<W>, es: Seq<Event<W>>, n: usize)
    requires
        pool_invariant(v, n as nat),
        v.taken.is_empty(),
        v.backlog.len() == 0,
        history_valid(v, es),
        count_dones(es) + count_rescues(v, es) == count_works(es),
    ensures
        stats_spec(run_events(v, es)).available_workers == stats_spec(v).available_workers,
        stats_spec(run_events(v, es)).taken_workers == stats_spec(v).taken_workers,
        stats_spec(run_events(v, es)).backlog == 0,
        stats_spec(run_events(v, es)).total_work_count as int == (v.work_count + count_works(es))
            % counter_modulus(),
        v.work_count + count_works(es) <= usize::MAX ==> stats_spec(
            run_events(v, es),
        ).total_work_count == v.work_count + count_works(es),
        v.panics + count_panics(es) <= usize::MAX ==> stats_spec(run_events(v, es)).total_panics
            == v.panics + count_panics(es),
        submitted_from_outside(es) ==> stats_spec(run_events(v, es)).total_rescue_threads
            == stats_spec(v).total_rescue_threads,
{
    let post = run_events(v, es);
    law_history_balance(v, es, n);
    lemma_accounted_finite(v, n as nat);
    lemma_accounted_finite(post, n as nat);
    assert(v.taken =~= Set::<usize>::empty());
    vstd::set_lib::lemma_set_empty_equivalency_len(post.taken);
    assert(post.taken.len() == 0);
    assert(post.taken =~= Set::<usize>::empty());
    if submitted_from_outside(es) {
        law_outside_jobs_never_rescued(v, es);
        vstd::arithmetic::div_mod::lemma_small_mod(v.rescue_threads as nat, counter_modulus() as nat);
    }
}

/// A job goes to a rescue thread exactly when it is submitted from inside a
/// job and no worker is idle.
pub proof fn law_rescue_when_recursive_and_no_idle_worker<W>(v: PoolView<W>, e: Event<W>)
    ensures
        rescued(v, e) <==> (e matches Event::Work(_, true) && v.available.is_empty()),
        queued(v, e) <==> (e matches Event::Work(_, false) && v.available.is_empty()),
{
}

proof fn lemma_insert_add<W>(a: Multiset<W>, b: Multiset<W>, w: W)
    ensures
        a.insert(w).add(b) == a.add(b).insert(w),
        a.add(b.insert(w)) == a.add(b).insert(w),
{
    broadcast use vstd::multiset::group_multiset_axioms;

    assert(a.insert(w).add(b) =~= a.add(b).insert(w));
    assert(a.add(b.insert(w)) =~= a.add(b).insert(w));
}

/// Every submitted job is handed out exactly once: over any history, the
/// jobs handed to workers or rescue threads together with those still
/// queued are exactly the jobs queued at the start together with those
/// submitted, each as often as it was submitted. No job is dropped, none is
/// handed out twice.
pub proof fn law_every_job_handed_out_once<W>(v: PoolView<W>, es: Seq<Event<W>>)
    ensures
        jobs_handed_out(v, es).to_multiset().add(run_events(v, es).backlog.to_multiset())
            == v.backlog.to_multiset().add(jobs_submitted(es).to_multiset()),
    decreases es.len(),
{
    broadcast use vstd::seq_lib::group_to_multiset_ensures, vstd::multiset::group_multiset_axioms;

    if es.len() == 0 {
        assert(jobs_handed_out(v, es).to_multiset() =~= Multiset::<W>::empty());
        assert(jobs_submitted(es).to_multiset() =~= Multiset::<W>::empty());
        assert(Multiset::<W>::empty().add(v.backlog.to_multiset()) =~= v.backlog.to_multiset());
        assert(v.backlog.to_multiset().add(Multiset::<W>::empty()) =~= v.backlog.to_multiset());
    } else {
        let prefix = es.drop_last();
        let e = es.last();
        law_every_job_handed_out_once(v, prefix);
        let mid = run_events(v, prefix);
        let h = jobs_handed_out(v, prefix);
        let sub = jobs_submitted(prefix);
        match e {
            Event::Work(work, recursive) => {
                assert(jobs_submitted(es) == sub.push(work));
                assert(sub.push(work).to_multiset() == sub.to_multiset().insert(work));
                if mid.available.is_empty() && !recursive {
                    assert(run_events(v, es).backlog == mid.backlog.push(work));
                    assert(jobs_handed_out(v, es) == h);
                    assert(mid.backlog.push(work).to_multiset() == mid.backlog.to_multiset().insert(
                        work,
                    ));
                    lemma_insert_add(h.to_multiset(), mid.backlog.to_multiset(), work);
                } else {
                    assert(run_events(v, es).backlog == mid.backlog);
                    assert(jobs_handed_out(v, es) == h.push(work));
                    assert(h.push(work).to_multiset() == h.to_multiset().insert(work));
                    lemma_insert_add(h.to_multiset(), mid.backlog.to_multiset(), work);
                }
                lemma_insert_add(v.backlog.to_multiset(), sub.to_multiset(), work);
                assert(jobs_handed_out(v, es).to_multiset().add(
                    run_events(v, es).backlog.to_multiset(),
                ) =~= v.backlog.to_multiset().add(jobs_submitted(es).to_multiset()));
            },
            Event::Done(worker, panicked) => {
                assert(jobs_submitted(es) == sub);
                if mid.backlog.len() > 0 {
                    let last = mid.backlog.last();
                    assert(mid.backlog.drop_last().push(last) =~= mid.backlog);
                    assert(run_events(v, es).backlog == mid.backlog.drop_last());
                    assert(jobs_handed_out(v, es) == h.push(last));
                    assert(h.push(last).to_multiset() == h.to_multiset().insert(last));
                    lemma_insert_add(h.to_multiset(), mid.backlog.drop_last().to_multiset(), last);
                    assert(mid.backlog.to_multiset() == mid.backlog.drop_last().to_multiset().insert(
                        last,
                    ));
                } else {
                    assert(run_events(v, es).backlog == mid.backlog);
                    assert(jobs_handed_out(v, es) == h);
                }
                assert(jobs_handed_out(v, es).to_multiset().add(
                    run_events(v, es).backlog.to_multiset(),
                ) =~= v.backlog.to_multiset().add(jobs_submitted(es).to_multiset()));
            },
            Event::GetStats => {
                assert(jobs_submitted(es) == sub);
                assert(jobs_handed_out(v, es) == h);
            },
        }
    }
}

/// While every worker is busy, jobs submitted from outside any job wait in
/// the backlog, newest last, and nothing else changes but the job count: no
/// job runs, no rescue thread starts.
pub proof fn law_busy_pool_queues_outside_jobs<W>(v: PoolView<W>, es: Seq<Event<W>>)
    requires
        v.available.is_empty(),
        only_outside_submissions(es),
    ensures
        run_events(v, es).backlog == v.backlog + jobs_submitted(es),
        jobs_submitted(es).len() == es.len(),
        run_events(v, es).available.is_empty(),
        run_events(v, es).taken == v.taken,
        run_events(v, es).rescue_threads == v.rescue_threads,
        run_events(v, es).panics == v.panics,
        run_events(v, es).work_count as int == (v.work_count + es.len()) % counter_modulus(),
        jobs_handed_out(v, es).len() == 0,
    decreases es.len(),
{
    if es.len() == 0 {
        assert(v.backlog + jobs_submitted(es) =~= v.backlog);
        vstd::arithmetic::div_mod::lemma_small_mod(v.work_count as nat, counter_modulus() as nat);
    } else {
        let prefix = es.drop_last();
        assert forall|i: int| 0 <= i < prefix.len() implies (#[trigger] prefix[i] matches Event::Work(_, false)) by {
            assert(prefix[i] == es[i]);
        }
        law_busy_pool_queues_outside_jobs(v, prefix);
        let mid = run_events(v, prefix);
        assert(es[es.len() - 1] matches Event::Work(_, false));
        let work = es.last()->Work_0;
        assert(jobs_submitted(es) == jobs_submitted(prefix).push(work));
        assert(v.backlog + jobs_submitted(es) =~= (v.backlog + jobs_submitted(prefix)).push(work));
        lemma_bump_mod(mid.work_count, v.work_count + prefix.len());
    }
}

/// The snapshot reports the pool as it is, busy or idle: the idle and the
/// busy workers, the jobs waiting in the backlog, and the job, rescue and
/// panic counters.
pub proof fn law_stats_report_the_pool<W>(pool: &Pool<W>)
    ensures
        stats_spec(pool@).available_workers == pool@.available.len(),
        stats_spec(pool@).taken_workers == pool@.taken.len(),
        stats_spec(pool@).backlog == pool@.backlog.len(),
        stats_spec(pool@).total_work_count == pool@.work_count,
        stats_spec(pool@).total_rescue_threads == pool@.rescue_threads,
        stats_spec(pool@).total_panics == pool@.panics,
{
    pool.lemma_sizes();
}

/// A new pool of `thread_count` workers has every worker `0 .. thread_count`
/// idle, none busy, nothing queued and every counter at zero; its snapshot
/// says so.
pub proof fn law_new_pool_is_idle<W>(thread_count: usize)
    ensures
        forall|i: usize| #[trigger] initial_view::<W>(thread_count as nat).available.contains(i)
            <==> i < thread_count,
        forall|i: usize| !(#[trigger] initial_view::<W>(thread_count as nat).taken.contains(i)),
        initial_view::<W>(thread_count as nat).backlog.len() == 0,
        initial_view::<W>(thread_count as nat).work_count == 0,
        initial_view::<W>(thread_count as nat).rescue_threads == 0,
        initial_view::<W>(thread_count as nat).panics == 0,
        stats_spec(initial_view::<W>(thread_count as nat)) == (PoolStats {
            available_workers: thread_count,
            taken_workers: 0,
            backlog: 0,
            total_work_count: 0,
            total_rescue_threads: 0,
            total_panics: 0,
        }),
{
    let v = initial_view::<W>(thread_count as nat);
    lemma_index_range_len(thread_count as nat);
    assert(v.taken =~= Set::<usize>::empty());
    assert forall|i: usize| #[trigger] v.available.contains(i) <==> i < thread_count by {
        assert(index_range(thread_count as nat).contains(i) <==> i < thread_count);
    }
    assert(v.available.len() == thread_count);
}

/// Where a submitted job goes. It is counted (modulo `usize::MAX + 1`) and
/// goes:
/// - where a worker is idle, to the idle worker with the smallest index,
///   which becomes busy;
/// - else, if it comes from inside a job, to a new rescue thread whose number
///   is the rescue counter after it: one more than before;
/// - else to the end of the backlog.
/// Nothing else changes.
pub proof fn law_submit<W>(pool: &Pool<W>, work: W, recursive: bool)
    ensures
        ({
            let pre = pool@;
            let (post, assignment) = submit_spec(pre, work, recursive);
            &&& post.work_count as int == (pre.work_count + 1) % counter_modulus()
            &&& post.panics == pre.panics
            &&& (assignment is Dispatch <==> !pre.available.is_empty())
            &&& match assignment {
                Assignment::Dispatch { worker, work: w } => {
                    &&& w == work
                    &&& pre.available.contains(worker)
                    &&& forall|x: usize| #[trigger] pre.available.contains(x) ==> worker <= x
                    &&& post.available == pre.available.remove(worker)
                    &&& post.taken == pre.taken.insert(worker)
                    &&& post.backlog == pre.backlog
                    &&& post.rescue_threads == pre.rescue_threads
                },
                Assignment::Rescue { work: w, rescue_number } => {
                    &&& w == work
                    &&& recursive
                    &&& rescue_number == post.rescue_threads
                    &&& rescue_number as int == (pre.rescue_threads + 1) % counter_modulus()
                    &&& post.available == pre.available
                    &&& post.taken == pre.taken
                    &&& post.backlog == pre.backlog
                },
                Assignment::Queued => {
                    &&& !recursive
                    &&& post.backlog == pre.backlog.push(work)
                    &&& post.available == pre.available
                    &&& post.taken == pre.taken
                    &&& post.rescue_threads == pre.rescue_threads
                },
            }
        }),
{
    let pre = pool@;
    pool.lemma_sizes();
    vstd::arithmetic::div_mod::lemma_small_mod(pre.work_count as nat, counter_modulus() as nat);
    vstd::arithmetic::div_mod::lemma_small_mod(pre.rescue_threads as nat, counter_modulus() as nat);
    lemma_bump_mod(pre.work_count, pre.work_count as int);
    lemma_bump_mod(pre.rescue_threads, pre.rescue_threads as int);
    if !pre.available.is_empty() {
        lemma_least_exists(pre.available);
    }
}

/// What a completion does. The panic counter counts it (modulo
/// `usize::MAX + 1`) where the job panicked, and the worker is to be started
/// again exactly then. Where jobs wait, the newest of them goes to the
/// reporting worker, which stays busy; else the worker becomes idle. The job
/// and rescue counters do not change.
pub proof fn law_complete<W>(pool: &Pool<W>, worker: usize, panicked: bool)
    ensures
        ({
            let pre = pool@;
            let (post, done) = complete_spec(pre, worker, panicked);
            &&& done.respawn == panicked
            &&& post.panics as int == (pre.panics + if panicked {
                1int
            } else {
                0int
            }) % counter_modulus()
            &&& post.work_count == pre.work_count
            &&& post.rescue_threads == pre.rescue_threads
            &&& if pre.backlog.len() > 0 {
                &&& done.next == Some(pre.backlog[pre.backlog.len() - 1])
                &&& post.backlog == pre.backlog.subrange(0, pre.backlog.len() - 1)
                &&& post.taken == pre.taken.insert(worker)
                &&& post.available == pre.available.remove(worker)
            } else {
                &&& done.next is None
                &&& post.backlog == pre.backlog
                &&& post.taken == pre.taken.remove(worker)
                &&& post.available == pre.available.insert(worker)
            }
        }),
{
    let pre = pool@;
    let (post, done) = complete_spec(pre, worker, panicked);
    vstd::arithmetic::div_mod::lemma_small_mod(pre.panics as nat, counter_modulus() as nat);
    lemma_bump_mod(pre.panics, pre.panics as int);
    assert(pre.taken.remove(worker).insert(worker) =~= pre.taken.insert(worker));
    assert(pre.available.insert(worker).remove(worker) =~= pre.available.remove(worker));
}

/// Over any history, the rescue thread started by the `k`-th job handed to a
/// rescue thread is numbered `k` past the counter at the start (modulo
/// `usize::MAX + 1`).
pub proof fn law_rescue_numbers_count_rescues<W>(v: PoolView<W>, es: Seq<Event<W>>, n: usize)
    requires
        pool_invariant(v, n as nat),
        history_valid(v, es),
        es.len() > 0,
        rescued(run_events(v, es.drop_last()), es.last()),
    ensures
        ({
            let mid = run_events(v, es.drop_last());
            let (post, assignment) = submit_spec(mid, es.last()->Work_0, es.last()->Work_1);
            &&& assignment matches Assignment::Rescue { rescue_number, .. }
            &&& rescue_number as int == (v.rescue_threads + count_rescues(v, es)) % counter_modulus()
        }),
{
    law_history_balance(v, es, n);
}

} // verus!
