# windows_task

A verified library for Windows Task Scheduler definitions: the portable task
model and its validation, Task XML reading and writing, cron compilation,
event-history decoding, desired-state planning and the apply and wait state
machines. Every function in `src/` is checked by Verus against its contract, except the
small wrappers around outside crates, whose contracts are trusted.

Layout:

- `src/model/` — the task model (actions, triggers, principals, settings,
  times and durations), the builder, and laws on durations, civil times and
  argument quoting.
- `src/xml*.rs`, `src/markup.rs` — Task XML: decoding, the element tree read
  from quick-xml's events, the tree-to-definition reader and the writer;
  `src/xml_round_trip.rs` states each written section, and the whole
  document, as an element tree and proves that such a tree reads back as the
  definition it was written from.
- `src/validation_laws.rs` — when a definition and a manifest validate,
  condition by condition.
- `src/history.rs`, `src/wait.rs` — event decoding and the run-wait machine.
- `src/reconcile*` — planning, the apply machine, recovery and the laws on
  plans.
- `tests/` — scenario tests; `app/` — the scheduler-facing loops and I/O.

Outside results (quick-xml's events and attributes, jiff's timestamps, uuid
text, std durations) are named by uninterpreted spec functions, and the
contracts that depend on them are stated over those names.
