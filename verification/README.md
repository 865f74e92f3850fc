# rrt_daemon

The logic of a sandbox runtime daemon, verified with Verus: running commands and
shells, reading and writing files, an HTTP server for both, a message stream to
a proxy, and a reverse tunnel for HTTP and WebSocket traffic.

- `src/` is the library. It performs no input or output: each operation takes
  what was read, and says in its result what to send, start or store. Shared
  state is a plain value that operations change, time is a number of
  nanoseconds, and what an operation does is stated over models of that state.
- `src/tunnel/` holds the tunnel: envelopes, negotiation, flow control, the
  table of exchanges, in `laws.rs` what holds of it in every state, and in
  `upload_laws.rs` what is sent of a request body, in which order and for how
  much credit.
- `src/http/` reads requests and writes responses.
- `tests/` runs the library on concrete values.
- `app/` is the daemon around the library: sockets, processes, files, terminals
  and the serde copies of types that travel as JSON. The message stream is
  opened through the `Uplink` trait, for which a deployment supplies the
  bindings of its RPC service.

What the library takes from other crates (MessagePack, JSON, base64 and pickle
codecs) stands behind small wrappers whose contracts say what is relied on.
