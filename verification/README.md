# sqlite_mcp_core

The core of a local SQLite server for tool-calling clients: what may run on a
database, in which order, and what callers are told of it. The rules are
executable Rust with contracts that Verus proves.

## Layout

- `src/` is the verified library.
  - `config`, `admission`, `operation`, `handles`, `paths`, `schema`, `sql`,
    `envelope` and `tools` hold the plain parts: settings and their bounds, who is
    let in, what an operation reports, cells and their text forms.
  - `policy/` decides which statements are allowed: the authorizer's verdicts, the
    guards on the text of a statement, and the rule that a text holds exactly one.
  - `worker/` is the state of one worker thread: its commands, idle expiry, busy
    retries and engine limits.
  - `server/` is the registry of handles and the state machines of a query, a
    batch, a schema reading, a transaction and a shutdown.
  - `merge/` writes a database as text, reads such text back and checks it. The
    round trip is proved in `merge/roundtrip.rs` and `merge/replay.rs`.
  - `outside.rs` holds the contracts of the functions of other crates that the
    library calls. These are believed, not proved; each says what it claims.
- `tests/` runs the library on concrete values.
- `app/` is ordinary Rust around it: connections, files, threads, the protocol.

A state machine of the library takes an event, says in its contract what the next
state is, and returns the action to perform. `app/` performs it and hands back
what came of it.
