# meepo

A coding agent's core, its host daemon's protocol and services, its headless task
runner and its command line, written in Verus: every rule and every state machine in
`src/` carries a contract that is proved.

- `src/` is the library. Pure logic: events and their JSON, the permission policy, the
  tool ledger scanner, the event store, the headless task loop, the host protocol
  (frames, handshake, codec), the dispatcher and its operations, turn admission and
  resume, continuity snapshots, the outbound queue, and the election of a host. Where
  outside work decides what comes next, the library holds a machine that says what to
  do and takes in what happened.
- `app/` performs that work: sockets, files, locks, signals, the terminal. Started as
  `meepo-host` the program is the daemon, otherwise the command line.
- `tests/` runs the library on concrete values, with the outside crates linked.

Laws that span several functions are public proof functions named `law_…`, next to
what they speak of. Outside crates are reached through small trusted items in
`digest.rs`, `ids.rs`, `json.rs`, `permission.rs`, `text.rs`, `protocol/codec.rs` and
`protocol/errors.rs`; the doc comment of each says what is believed of the outside
function.
