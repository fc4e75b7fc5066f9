# cordis_runtime

The lifecycle core of a plugin runtime, verified with Verus: a tree of scopes, fibers
that run plugins in them, the services that fibers provide to each other, and the rules
by which all of it is installed, activated, replaced, disposed and shut down.

## Layout

- `src/` is the verified library. Every decision of a lifecycle is one call on
  `runtime::Runtime`, with a contract over the state before and after it.
  - `arena`, `id_list`: generation-safe ids and short lists.
  - `scope_registry`, `scope_revision`, `service_registry`, `dependency_graph`,
    `plugin_registry`, `fiber_registry`, `task`, `gate`: what a runtime is made of.
  - `runtime`: the decisions themselves, and in `runtime::laws`, `runtime::traversal`,
    `runtime::permanence` and beside the decisions the `law_*` proofs of what holds whatever
    happens.
- `tests/` runs the library on concrete lifecycles.
- `app/` drives the library with Tokio: it awaits, spawns and joins, and hands back what
  came of it.

## What is promised

- A disposed scope holds no active fiber: every fiber in it is disposed, and stays so.
- What an activation prepares stays hidden until it commits, and a failed activation
  leaves nothing behind.
- Every task and every effect has one owner.
- Once shutdown began, nothing new is taken in; a shutdown that could not finish names
  what is in its way and can be tried again.
- A reload switches from the old generation to the new one at one point, or keeps the old
  one.
- Symbols, remembered resolutions, fibers and scopes stay within their limits.

## What is trusted

Ids come from `slotmap` and short lists from `smallvec`. Their calls stand behind small
functions in `arena.rs` and `id_list.rs` whose contracts are believed, not proved. So does
the call in `text.rs` that puts a text in quotation marks as the standard library does.
