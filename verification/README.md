# agentbus

A message bus for AI instances, humans and programs: `message`, `ask`,
`reply` and `event` envelopes exchanged through a shared local store, a
resident daemon, or an MCP stdio shim.

`src/` is the verified library. Its functions carry contracts that Verus
proves; where a function draws a fresh id or reads the clock, its contract
states what holds of every outcome, and `ids::now_utc`, the clock itself,
states nothing. The modules:

- `envelope`, `ids`: the envelope, its validation rules, envelope ids and
  RFC 3339 instants.
- `mailbox`, `registry`, `router`: bounded drop-oldest mailboxes, the
  instance registry with owner tokens, and ask/reply correlation.
- `daemon`: the daemon's request dispatcher over the registry and router.
- `client`: the daemon client's request lines, response decoding and
  reconnect backoff.
- `store`: the decisions of the daemonless spool store (registration
  verdicts, event-log pages and cursors, the await backoff, sweeps, hooks,
  error codes and messages, store paths).
- `eventlog`, `lines`: the JSONL event log's size limit and replay.
- `service`, `tools`, `cli`, `instructions`: the daemon's configuration,
  error codes and statuses, the MCP shim's tools and session, and the
  command line's parsing decisions.

`app/` holds the programs around it: the `agentbus` command line over
SQLite and spool files, the `agentbus-stdio` MCP shim, the `agentbusd`
daemon (Unix-socket JSON-RPC and HTTP), and the `mcp-bus-stdio` shim that
forwards to it. `tests/` exercises the library on concrete values.
