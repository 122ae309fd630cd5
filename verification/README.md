# nox_relay

The NoxVR relay: clients connect over QUIC, hand-shake, authenticate with a
signed challenge, enter instances hosted for the node server, and exchange
transforms, properties, events, voice and streams with the other players.

- `src/` is the verified library (Verus). Packet payloads are read and written
  by `wire` against byte-level specifications; each handler in `handlers`
  takes the relay state and a payload and returns the packets to send, with a
  contract that fixes both the new state and every packet. `instance`,
  `client` and `player` hold the state and its invariants; `master` answers the
  node server's queries; `commands` resolves and runs console commands.
- `app/` is the process around it: configuration loading, logging, the
  WebSocket link to the node server (its set-up steps decided by the library),
  the log buffer the node queries, load balancing (an `f32` formula), the
  packet dispatch table and the console's system queries.
- `tests/` runs the library on concrete inputs.
