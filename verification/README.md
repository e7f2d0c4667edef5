# awaitgroup

Wait groups for asynchronous tasks, verified with Verus.

| Type | Model |
|------|-------|
| `WaitGroup` | Register work with `add`, report it with `done`, wait until the counter is zero. Any number of tasks may wait, again and again. |
| `wait_group::WaitGroup` | The same for one wait cycle: all work is registered first, then one task waits, once. |
| `wait_group_arrive::WaitGroupArrive` | Tasks call `arrive`; `wait_arrive(n)` completes when `n` have arrived. One task waits at a time, and always for the same number. |

The first error reported to a group fails its wait. A call that the rules of a group forbid comes back
as a `Misuse`, whose message is meant for a panic.

## Layout

- `src/` is the library. A group is a plain value; each method states how it changes the group, and
  which tasks it wakes. The files ending in `_laws.rs` prove what holds over any run of calls: what the
  counter amounts to, that the first error is kept, when a wait is over, and that no wake-up is lost
  (but where the counter wraps around, arrivals jump over the number waited for, or a refused wait
  changes that number).
  `outside.rs` holds what is relied on of tokio, futures, anyhow and the wakers of std.
- `app/` shares a group among tasks behind a lock, holds wake-ups back until the lock is free, and turns
  a wait into a future.
- `tests/` runs the groups on real runtimes and as plain values.
