# clob_websocket

A WebSocket client for the CLOB market and user channels, split in two:

- `src/` is the verified core (Verus). It holds the endpoint settings
  (`config`), the reconnection backoff and the state of a reconnection round
  (`backoff`), the error texts (`error`), the JSON framing of the subscription
  and authentication messages (`json`), the decision taken after each read
  (`frame`), and the plain state of a market client and of a user client
  (`market`, `user`).
- `app/` is ordinary async Rust on tokio and tokio-tungstenite. It owns the
  connections, performs every await (connect, send, receive, sleep), decodes
  the received messages with serde, and asks the core what to do at each step.

`tests/` runs the core against `serde_json`'s own serialisation and checks the
backoff sequence, the error texts and the session transitions.
