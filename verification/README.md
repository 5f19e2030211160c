# IPFI

The Interplanetary Function Interface: a remote procedure call mechanism over anything that carries
bytes, such as pipes, sockets or buffers.

- `src/` is the library, verified with Verus. It is a plain state machine that never blocks and
  never performs I/O: bytes go in, bytes come out, and procedures that have to be executed are
  handed out. What every operation does is stated over the views `InterfaceState` and `WireState`,
  and what holds of all of them together is proved in `interface_laws.rs`, `wire_laws.rs` and
  `sharing_laws.rs`.
- `app/` drives the library: interfaces shared between threads or tasks, wires over readers and
  writers (blocking, or with `tokio`), closures as procedures, and values of any type that `serde`
  can serialise.
- `tests/` exercises the library from outside.

The collections of `dashmap` and `crossbeam-queue`, and the serialisers of `rmp` and `rmp-serde`, are
used as they are. What is taken for granted of them is stated in `collections.rs` and `pack.rs`.
