# kv_search

A verified library (Verus) with a thin command-line front end.

- `src/text.rs` — Unicode whitespace, word splitting, trimming, exact text
  comparison, lower-casing.
- `src/search_engine.rs` — word index: word → ids of the documents it occurs in.
- `src/documents.rs` — document collection searched through the index.
- `src/kv/` — generic key-value stores over `HashMap` (one with a journal of writes for the log) and a shared handle.
- `src/string_map.rs` — text-keyed hash map used by the server and the shell.
- `src/server.rs` — the key-value server's command handling and the client
  retry schedule.
- `src/warm_up.rs` — the line-oriented key-value shell.
- `src/chat_room.rs` — role parsing and message routing for the chat room.
- `src/log.rs` — the channel-fed logger and log-file rotation.
- `src/node.rs` — cluster node records with random ids.
- `app/` — I/O: the async server and clients with tracing, the shell's terminal loop, the
  TCP chat room, log files.
