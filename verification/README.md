# syfala

A verified library for syfala, a small protocol for real-time audio between
networked endpoints (servers on audio hardware, clients on user machines),
with the bookkeeping of its endpoints and of a Core Audio virtual device.

## Layout

- `src/` — the library, verified with Verus:
  - `format`, `message`, `messages` — stream formats and protocol messages;
  - `codec`, `wire`, `encoding` — the byte-level wire format, the flat wire
    messages and their encoding and decoding, with round-trip laws;
  - `sample` — integer samples and their little-endian bytes;
  - `ring` — the `rtrb` ring buffer endpoints the rest builds on;
  - `queue`, `net` — counters, periodic wake-ups, and ring-buffer senders
    and receivers that align samples to a timeline;
  - `io`, `socket` — writers over byte buffers, error kinds, the client's
    socket and connection timer;
  - `peer`, `session` — how client and server endpoints track their peers;
  - `process` — the arithmetic of the sound-card callbacks;
  - `hal` — the decisions of the Core Audio server plug-in: its object
    tree, property tables, status codes, reference count and IO clock.
- `tests/` — tests of the library on concrete values.
- `app/` — the input and output around the library: standard sockets, the
  client node loop, thread wake-ups, volume curves, the JACK callbacks and
  the Core Audio plug-in entry points.
