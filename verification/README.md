# rmux_web

The verified core of a terminal multiplexer's web-share layer and of its
pane bookkeeping, written in Verus.

- `src/` is the library. Every function there carries a contract that Verus
  proves: encrypted record framing and the key schedule (`record`, `framing`,
  `schedule`, `aead`), share secrets and links (`secrets`, `urls`,
  `share_record`, `share`, `share_output`), the WebSocket handshake and framing
  (`http`, `websocket`, `handshake`), authentication backoff, pre-auth and
  rate limits, reader and operator leases, the per-connection stream state
  machines (`stream`, `session`, `protocol`), refresh scheduling, linked
  windows and auto-named windows, retained output of exited panes, and the
  small helpers they share (`bytes`, `text`, `order`, `ansi`).
- Calls into outside crates (AES-GCM, HKDF, SHA-1/SHA-256, base64, constant-time
  comparison, the system random source, `chrono`) go through small trusted
  wrappers whose contracts name what the call returns.
- `tests/` runs the library on concrete values.
- `app/` holds what Verus does not take: the serde wire types, wall-clock reads
  and the locks around shared state.
