# lau-async-tick

A tick engine: tasks with priorities wait in a queue; each tick hands every
queued task, highest priority first, to the handler registered for its kind,
records what the handler did, and runs the tasks that handlers delegate in
the same tick.

The scheduling logic is written in Verus and proved against its contracts.

## Layout

- `src/priority.rs`: priorities and their order (`rank_of`), with the laws
  that the order is total and that the bands are ordered as documented.
- `src/text.rs`: decimal rendering of numbers and the proof that it is
  injective.
- `src/task.rs`: task kinds, task data (a string map) and tasks; task ids
  are `task-<n>`, and tasks with different numbers have different ids.
- `src/action.rs`: handler errors, actions and tick results, with their
  exact texts.
- `src/schedule.rs`: the order in which a queue is drained, with the laws
  that it is a permutation of the queue and non-increasing in priority.
- `src/tally.rs`: how recorded actions are counted.
- `src/engine.rs`: the engine state (queue, handlers, context, totals) and
  the steps of a tick: `begin_tick` (which stamps the tick number into the
  context), `process_batch`, `finish_tick`.
- `src/cycle.rs`: laws over a whole tick (its chain of batches) and over
  runs of ticks: queue drained, one action per queued and per delegated
  task, totals and mean duration as sums over the ticks' results, and a
  registered handler serving every later task of its kind.
- `src/clock.rs`: the wall clock.
- `app/`: the part that is not verified: handler trait objects, the
  floating-point part of the context and the pre-built handlers that compare floats,
  the tick loop that times ticks and calls `process_batch` until nothing is
  delegated, the process-wide task counter, and serde copies of the types.
- `tests/`: tests of the library; `tests/engine.rs` drives the engine with
  handlers of its own.
