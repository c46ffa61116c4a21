# evalx

The verified core of EvalX, a service that compiles and runs untrusted code
in `isolate` sandboxes, queues jobs on SQS and keeps state and caches in
Redis.

## Layout

- `src/` — the library, verified with Verus:
  - `text` — decimal rendering and parsing, trimming, lines, joining.
  - `models` — requests, results and status values.
  - `languages` — language configurations, their file paths and checks,
    and the registry keyed by `name:version`.
  - `digest` — SHA-256, hex, gzip and UUID calls into their crates.
  - `ordering` — the stable sort by key used to order results.
  - `queue` — job tasks, state keys, fan-out of a compiled batch and
    fan-in of its results.
  - `job` — the lifecycle of a job as a step function from phase and
    event to next phase and action.
  - `concurrency` — the nominal/strained state machine and batch limits.
  - `sandbox` — box paths, the `isolate` command lines, the run report
    and the outcome of a compilation or a run.
  - `executor` — artifact plans and the results reported to clients.
  - `cache` — artifact packing, cache lifetimes, memory report parsing and
    least-recently-used eviction.
  - `api` — bearer tokens, result cache keys, submissions and status polls.
  - `pool` — the pool of sandbox boxes of a worker. The boxes waiting to
    be handed out and to be recycled are kept as queues in the verified
    pool; handing a box out and taking one back are awaited operations on
    tokio channels, which verified code cannot run, so `app/` does the
    waiting with a lock and notifications around the pool.
  - `containers`, `compilers` — the container pool and the compile
    commands of the container back end.
- `tests/` — tests of the library.
- `app/` — the server and worker program: HTTP routes, Redis, SQS, the
  sandbox processes and the JSON forms of the library's types.
