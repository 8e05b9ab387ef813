# ego_proc

Actor and orchestration primitives, with the decisions proved in Verus.

- `src/` is the verified library:
  - `proto`: control signals, lifecycle states, orchestration strategies.
  - `actor::lifecycle`: what each event does to an actor's run loop.
  - `actor::foreign`: the adapter that drives an opaque foreign handle
    (retry buffer, backpressure policy, parks, slice budget, dormancy).
  - `actor::dormant`: dormant stores, wake policies, dormancy errors.
  - `actor::orchestrator`: the bookkeeping of an actor group (live slots,
    names, dormant slots, restarts) with the laws of its restart policy.
  - `ipc`: request tokens and how a request settles.
- `app/` is the async runtime around it (tokio tasks and channels, the run
  loop, the async orchestrator, error messages, floating-point health).
- `tests/` exercises the library on concrete values.

Actor ids are 128-bit integers in the library; the runtime shows them as
`uuid::Uuid`.
