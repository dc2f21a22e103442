# Peerlink

Peerlink is a low-level building block for P2P applications. A nonblocking reactor accepts inbound
connections, makes outbound connections, streams and reassembles messages, tracks peers and
schedules what is ready. There is a single trait, `Message`, that has to be implemented on whatever
message type is sent and received.

## Layout

- `src/` is the library: everything the reactor decides, verified with Verus. It performs no I/O.
  - `message`, `message_stream`: the codec contract, framing and reassembly on the read side,
    queueing and flushing on the write side, and the proof that what is sent arrives.
  - `reactor/manager`, `reactor/connection`: the connections and the ids of their peers.
  - `reactor/scheduler`, `reactor/readiness`, `reactor/passes`, `reactor/token`: which connections
    get a turn.
  - `reactor`, `reactor/turn`: what becomes of commands, connect attempts, listeners and turns.
  - `connector`: targets and how connecting to them goes on.
- `app/` drives the library with real sockets, threads and channels.
- `tests/` runs the library on concrete values.

## How it fits together

The library takes plain values and returns what is to be done as actions, in order. The driver in
`app/` performs them and reports what came of each read, write, accept and connect attempt. Points
in time are passed in, so nothing in the library depends on a clock.

A message type states in `encoding` and `parse` what its codec does, and in `same` which values
are the same message. The laws on delivery hold of all messages that the codec gives back from
their encodings and that are not larger than `MAX_SIZE`, on connections that read and write by
turns. Other values of the type do not matter.
