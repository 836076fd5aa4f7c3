# aerogel

A work-stealing runtime in the style of Go's G/M/P model, with a slice
iterator whose sum splits the work in halves (`into_aer_iter().sum()`, over
any machine integer type) and a concurrent one (`into_con_iter()`), verified
with Verus. The verified library evaluates the halves of a split through its
`join`, which runs both on the calling thread; the application crate's
runtime runs jobs on worker threads.

- `src/` is the verified library: jobs and latches (`job`), the parallel
  sum (`parallel`), the concurrent iterator's builder (`iter::con`), the
  local and global queues over crossbeam-deque (`queue`), the processors'
  stealing, scheduling and sleeping logic with its step functions (`processor`), the runtime's construction and
  join steps (`runtime`) and the reactor's waker bookkeeping (`reactor`).
- `app/` starts the worker threads, parks them, keeps the process-wide
  runtime and drives the I/O poller.
- `tests/` exercises the library.
