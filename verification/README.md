# signal_ext

Combinators over reactive signals, as verified state machines.

- `src/` is the library. Each combinator is a machine whose steps have contracts: what a step hands
  to the closures that it is given, what it publishes, which task it holds. Proof functions named
  `law_..` state what holds of whole runs: that a rate-limited signal is updated at most once in its
  span, loses no change and catches up within the span, that two bound signals do not echo, that a
  filtered signal is given the kept values in order, that every push into a bag and every change in
  it notifies, that a cleaned owner keeps its deferred functions from running.
- `app/` subscribes the machines to the signals of `leptos` and runs their tasks.
- `tests/` runs the machines on concrete values, with the real signals and the real clock.

The library trusts three outside crates, through the items in `src/output.rs` (signals of `leptos`),
`src/clock.rs` (instants of `web_time`) and `src/tasks.rs` (the sum type of `either`).
