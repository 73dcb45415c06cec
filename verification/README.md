# valence_kernel

The logic of the Valence session kernel for Solana, written in Verus and
proved against its contracts: sessions and their isolation, namespace
capabilities, ordering rules and their composition across shards, the
schedulers and queues, state diffs and their optimization, the processor and
its verification chain, the function registry, and the protocol's events.

- `src/` is the verified library. Each module states its model with spec
  functions and views; the public functions' `ensures` say what they return
  or change, and the public `proof fn`s state the laws that relate several
  functions (what a read gives back of a write, what a queue keeps, what an
  optimization can never do).
- Calls into the Solana runtime (the clock, program-derived addresses,
  SHA-256, base58 addresses) and into Borsh go through the small trusted
  wrappers in `src/runtime.rs` and beside their callers; each says in its doc
  comment what is assumed of the outside code.
- `app/` holds what stays outside the proofs: the token and SOL transfers a
  session signs, the program log, Anchor events and errors, and the
  aggregation settings and statistics that use floating point (the library
  creates and runs aggregations on `AggregationRecord`, the account's other
  fields).
- `tests/` runs the library on concrete values.

## Collections

Where the kernel's accounts keep maps and sets keyed by strings (the
dependency graph, the queues per shard, the items being processed), the
library keeps them in `Vec`s with an invariant that no key occurs twice
(`no_duplicates`, `manager_wf`). Three reasons:

- vstd specifies `HashMap` and `HashSet` with `String` keys only through a
  key model that does not let the calls prove what the kernel needs (that a
  key inserted is then found, that a removed key is gone);
- the order in which a `HashMap` is walked depends on a hasher seeded per
  process, so results read from such a walk (which queue is served first,
  the order of counted types) are not a function of the contents; the `Vec`
  fixes that order as the order of first insertion;
- a `Vec` with the invariant has a `Seq` view that the contracts state
  exactly.
