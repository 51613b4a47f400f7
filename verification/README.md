# rustand

A small state container with subscriptions, in the style of Zustand: a store
holds one value, replaces it through update closures, and calls its
subscribers, in the order they subscribed, after every update.

## Layout

- `src/` — the library, verified with Verus.
  - `single_threaded/` — the store for single-threaded use (`rustand::Store`).
  - `common/` — the store for threaded runtimes (a ring of four state
    slots, and a variant whose slots count their readers), the ordered
    subscriber list shared by all stores, and the subscriber worker that a
    channel-based store feeds with `StoreEvent`s.
  - `fuzz.rs` — the operations of the fuzzing harness and their effects.
  - `error.rs` — `StoreError`.
- `app/` — ordinary Rust around the library: the lock, channel and task
  primitives of the std, tokio and async-std runtimes; stores shared behind
  `Rc`/`Arc` whose subscription handles unsubscribe when dropped; stores
  behind a lock whose subscribers are called under the write lock; the
  `async` entry points; `Display` for the error; and the fuzzing loop.
- `tests/` — tests of the library.

In the library a store is updated through `&mut`, so an update or a
subscriber can never reach back into the store it runs in. Each store's
model records every subscriber call it makes, so the contracts say whom an
update calls: every subscriber, once, in the order they subscribed, with
the new state. In the shared single-threaded store of `app/`, a subscriber
may read the store and subscribe or unsubscribe; those changes take effect
once the current round of calls is over.
