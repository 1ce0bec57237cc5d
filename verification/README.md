# shelterwood

Structured supervision and actors: the rules of the runtime as a verified
library, with the parts that wait, wake and print around it.

- `src/identity.rs` names memberships and incarnations and says which
  supersedes which.
- `src/policy.rs` holds restart, backoff, shutdown, readiness and mailbox
  policies, and how a child's options resolve against its scope's defaults.
- `src/plan.rs` declares a scope's children and lowers the declaration to a
  plan; `src/outline.rs` is the shape of a declared tree.
- `src/mailbox/` is the mailbox: acceptance, parking, binding, freezing,
  termination, sends and calls under a deadline, and replies.
- `src/raw/` is one running incarnation: its timers, offloaded work,
  continuations, the fair selection of its next input, and its end.
- `src/monitor.rs` and `src/observe/` are what others may learn of an actor or
  a scope: watches, the lifecycle stream and snapshots.
- `src/time.rs`, `src/table.rs`, `src/poll.rs`, `src/exit.rs` are what these
  share.

State machines take the time, the waker and the outcome of user code as
arguments, and hand back what is to be woken, spawned or destroyed. `app/` does
that: futures, wakers, tasks, panics, floating point, and the serialisable and
printable copies of the library's types.

Properties that relate several functions are public proof functions whose names
begin with `law_`.
