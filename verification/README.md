# spindle

A small multi-threaded chat/game server: one reactor thread (mio) for the
sockets, a pool of worker threads for the room logic, and pooled byte
buffers. The logic is a Verus-verified library; the program around it is
plain Rust.

## Layout

- `src/` — the verified library
  - `protocol.rs` — length-prefixed frames `[4-byte big-endian length][1-byte type][payload]`;
    encoding, parsing, and the round-trip laws.
  - `room.rs` — rooms and the room manager; the invariant that a session is in at
    most one room and no room exceeds its bound, and the laws that every operation keeps it.
  - `worker.rs` — what a worker does with each task and message, and a worker's task
    scheduling (a `next` slot before a FIFO queue).
  - `session.rs` — per-connection state: unparsed input, pending output, state.
  - `buffer_pool.rs` — reusable byte buffers with counters.
  - `task.rs` — the tasks and responses passed between the reactor and the workers.
  - `buf.rs`, `text.rs` — byte buffers of the `bytes` crate, and ASCII/decimal text.
- `app/` — the program: sockets, threads, channels, futures.
- `tests/` — tests of the library.

## Protocol

Message types: `0x01` Echo, `0x02` JoinRoom (payload: u64 room id, big-endian),
`0x03` LeaveRoom, `0x04` RoomMessage, `0x05` Response.
A frame's length counts the type byte and the payload, so a length of 0 is
refused, as is one above 16 MiB. A join request for a room that does not
exist creates it under the requested id, named `Room <id>`, with no bound.
