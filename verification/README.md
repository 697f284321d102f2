# zippy

A dead-simple work pool. The library (`src/`) holds what the pool decides,
verified with Verus:

- `pool.rs`: `Pool<W>`, the manager's bookkeeping. A job goes to the idle
  worker with the smallest index, or to a rescue thread when it comes from
  inside a job and no worker is idle, or else to a last-in-first-out backlog.
  A worker that reports back takes the newest queued job or becomes idle; one
  that died with a panicking job is started again. `get_stats` gives the
  snapshot (`PoolStats`).
- `worker_set.rs`: a set of worker indices over std's `BTreeSet`, whose
  smallest index comes first.
- `laws.rs`: what every history of the pool keeps: each worker idle or busy,
  no job waiting while a worker is idle, the counters, and that a batch of
  jobs run to completion leaves an idle pool as it was, and that every
  submitted job is handed out exactly once.
- `job.rs`: the handle on which a job's result comes, with a non-blocking
  wait; `polling.rs`: a handle that is only polled (`try_wait`).
- `fib.rs`: the base cases and the join of the pool-driven Fibonacci demo.

`app/lib.rs` runs the pool: the manager and worker threads, the channels,
the public `send_work(f)` and `get_stats()`, and the blocking waits on a job.
