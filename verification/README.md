# binary_options_tools (verified core)

The verified part of a binary-options trading client, written in Verus.

- `src/amount.rs`: decimal amounts as mantissa and scale, comparisons with
  whole numbers, and normalization (equal numbers have equal normal forms).
- `src/keyed.rs`: sequences of key/value pairs read as maps, with the lemmas
  that carry `push` and `filter` over to the map.
- `src/trade.rs`: the trade guard: amount limits, the two-second duplicate
  window, pending market orders and their reconciliation after a reconnect.
- `src/client.rs`: the client's smaller decisions (server choice, history
  period, asset checks, the unknown balance, the assets timeout message).
- `src/utils.rs`: request indices, the address and location providers,
  reading a provider's reply, and the websocket handshake request.
- `src/ids.rs`, `src/error.rs`: identifiers and error types.

`app/` holds the I/O: HTTP requests, the TLS websocket connection, serde of
timestamps, floating-point geometry, and the asynchronous flow of a trade.

The client type that holds a live connection, with its trading, subscription
and history methods, is not part of this crate: it runs on the client core
crate `binary_options_tools_core`, on which this crate does not depend. What
those methods decide stands here as verified functions (`trade`, `client`), and
`app/trading.rs` shows the asynchronous flow of a trade around the guard.
