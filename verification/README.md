# wsm

A small WebSocket messaging protocol between a server and its clients, written in
Verus: the library under `src/` is verified, `app/` is the server program around it.

- `text`, `json`: character classes, string search, JSON string/array text, and the
  `Json` value that serde_json's parse is read into (one level deep, each nested
  value kept as its own JSON text).
- `method`: `{method}@v{version}/{endpoint}` strings, built and parsed.
- `message`, `wsa`: the wire form of requests, events and responses, and the checked
  constructors for each direction (server to client, client to server, client to
  client).
- `strmap`: a string-keyed map with distinct keys, the storage behind the registries.
- `pool`: named message pools (message id to stored message).
- `client`: the registry of connected clients and their metadata.
- `id`, `server`: random five-character ids, unique within a pool.
- `handler`: the application's callbacks (disconnect, authentication, responses).
- `wire`: the fields of a received message (`i`, `f`, `t`, and `r`, `c` under `p`),
  looked up in its parsed JSON value.
- `handshake`, `socket`, `process`, `wsm`: the protocol steps — opening a connection,
  checking each incoming message, authenticating, and settling responses.
- `pretty`: pretty-printed JSON text.

`app/state.rs` holds the shared state; `app/main.rs` serves `/socket` with axum,
hands each received frame to `socket::handle_frame`, which decides the next step
(a text frame is parsed and checked), and performs that step on the socket.
