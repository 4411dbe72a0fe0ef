# workerpool

A worker threadpool used to execute a number of jobs atop stateful workers in parallel. It
spawns a specified number of worker threads and replenishes the pool if any worker threads
panic.

The library under `src/` is verified with Verus:

- `worker`, `thunk`: what executes jobs, and a worker for plain functions.
- `job`, `send`: a job, and how its output is sent over a channel of `std` or of crossbeam. What
  was sent, and what was refused, leaves evidence.
- `queue`: the queue of a pool, which is a crossbeam channel; it also tells one pool from another.
- `settings`, `builder`: how a pool is configured.
- `history`: what can happen to a pool, and what it is then.
- `pool`: the state of a pool, with one operation for each thing that can happen to it. A pool
  keeps its history as a ghost, and each operation leaves evidence: which pool it was, and its
  history before and after.
- `lock`: the mutex and the condition variables round one pool. What is found behind it is that
  pool, with a history that goes on from where it was.
- `sentinel`, `wake`: the watch over one thread, and the waking of threads after a step.
- `shared`: a pool behind its lock, for threads to share. Each method states which steps of that
  pool it makes, in which order, and whom it wakes after them.
- `text`: the debug text of a pool.
- `laws`: what holds of every history, and so of the pool behind the lock: every job is taken once
  and in order, its output is delivered once and to its sender, no more jobs run at a time than the
  pool may run, a join returns after all jobs that came in before it, joins end together when the
  work runs out, and different pools share nothing.
- `system`, `thread_laws`: a pool together with its threads, and what holds of them in whatever
  order they run: threads that panic are replaced, a pool with work is never stuck, and after the
  last handle is gone every job is executed and all threads end. What `shared` reports of a thread
  is a step of such a system. That a thread is where the system has it is not proved: it is so
  because each thread goes through `work` from its start to its end.

`app/` starts the threads and gives the handles of a pool the traits of the standard library.
