# arbitro_kit

Synchronization and transport primitives for threads and tasks: signals,
single-slot pipes and request/response channels, bounded rings, an unbounded
log, fan-in and sharded channels, a hub, one-shot replies, and a work-sharing
ring. What each operation does is stated in its contract and proved by Verus.

- `src/` is the verified library. The state that the parties of a transport
  share is a value; a blocking or awaited operation is a sequence of passes.
- `app/` puts that state behind a lock, parks threads, awaits tasks and
  delivers the wakes that the library leaves owed.
- `tests/` runs the library on concrete values.

The laws that hold over any sequence or interleaving of operations are public
proof functions: see `waiter/no_lost_wake.rs`, `stream/{fifo,interleave,log}.rs`,
`gate/{bitmap_wake,shard_history}.rs`, `route/{fanin,sharded,eliding}.rs` and
`synapse/{no_lost_wake,history}.rs`, and the ends of the modules of the single
transports.
