# oxiscale

The verified core of an embeddable Tailscale control server.

- `src/` — the library, written in Verus and proved:
  - `tailcfg` — wire constants and the `/key` and EarlyNoise messages;
  - `keys` — Curve25519 key types held as bytes (key material from `ts_keys`);
  - `handshake` — the TS2021 Noise IK responder: decoding and checking the
    initiation, the capability-version gate, the prologue, the response frame;
  - `early_noise` — the EarlyNoise frame;
  - `framed_io` — the read buffering of the encrypted chunk stream;
  - `store` — the `Store` interface, the in-memory and file-backed stores and
    their model (records in insertion order, looked up by first match), and
    the expiry of pre-auth keys against the clock;
  - `server` — the decisions of the HTTP edge;
  - `api` — tenant routing, events, the server builder and handle.
- `app/` — the `tailcontrold` program: tokio, axum and hyper, socket I/O,
  JSON encoding and logging around the library, and the file side of the
  file-backed store (encoding its snapshot, write-then-rename, reading it back).
- `tests/` — tests of the library.
