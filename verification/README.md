# nodeget_server

The decision logic of a node-monitoring server, written in Verus: who is sent which live message, how
queries about many agents proceed, how scheduled tasks are handed out, and how visits are counted.

- `src/` is the verified library. Work that takes place outside (the database, channels, sockets) is
  driven through state machines: a `step` takes what came of the last action and returns the next
  action. Facts that hold over whole runs are proof functions whose names start with `law_`.
- `app/` is the server around it: the database entities and migrations, the remote interface and the
  HTTP endpoint.
- `tests/` runs the library.

Calls into `chrono`, `http`, `serde_json`, `std` and `uuid` stand in small wrappers in `src/clock.rs`,
`src/visitor_stats/mod.rs`, `src/json.rs`, `src/text.rs` and `src/agent_id.rs`. What their contracts
say is believed, not proved.
