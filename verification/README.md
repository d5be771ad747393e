# ecson

An ECS-driven, stateful bidirectional server framework: network transports
(WebSocket, WebSocket over TLS, WebTransport, raw TCP, raw UDP) feed a
`bevy_ecs` world, and built-in plugins add heartbeats, rate limiting,
presence, lobbies and spatial interest management.

## Layout

- `src/` — the verified core, written in Verus. Each public function states
  its result in `requires`/`ensures` over mathematical models, and the
  `law_*` proof functions state properties that span several calls.
  - `varint` — VarInt length framing of the TCP transport: encoder, byte-wise
    decoder, packet length check, the packet reader's next step; round trip
    of a frame.
  - `payload` — text/binary payloads, their bytes on the wire, datagram
    classification, a client's channel with the record of what it accepted,
    delivery to it, and the WebSocket read loop's next step.
  - `connection` — routing of network events to ECS entities.
  - `peers` — virtual connections of the UDP transport, one per sender address.
  - `timing` — fixed-timestep accumulator and the server's main loop
    (startup, frames, per-plugin cleanup, shutdown).
  - `tls` — the certificate chain and private key read from PEM text.
  - `rate_limit`, `heartbeat`, `presence`, `lobby` — plugin state machines.
  - `spatial` — grid zones, the block of zones an interest radius spans,
    candidate pairs for proximity broadcasts, and the `/move` command.
  - `text` — white space, trimming and words, as `str::trim` and
    `str::split_whitespace` define them.
  - `plugin` — plugin lifecycle states, network plugin configurations, and
    the check that a listen address names a port.
- `app/` — the ordinary Rust around the core: the `EcsonApp` runner, the
  tokio servers, TLS setup, `bevy_ecs` systems, and floating-point geometry.
- `tests/` — tests of the core on concrete values.

Times in the core are whole nanoseconds from an origin chosen by the caller;
`app/` converts from `std::time::Instant` and from the configured seconds.
