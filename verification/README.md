# pallet-kitties

A kitties marketplace whose logic is proved against its contracts: accounts mint
kitties with a random DNA against a stake, breed two kitties into a third,
give kitties away, put a price on them and buy them.

- `src/types.rs` — kitties, errors, events.
- `src/dna.rs` — the bytes hashed into a random DNA, the Blake2-128 hash
  (from `sp-io`), and the bit-wise mixing of two parents' DNA.
- `src/runtime.rs` — the `Config` trait through which the pallet reaches the
  runtime's currency and randomness (each implementation states what its
  calls do by its own spec relations), and `Env`, which makes those calls and
  keeps a ghost record of them and of the runtime's states: a history that
  only `Env` can extend.
- `src/state.rs` — the abstract storage and what each call does to it, as a
  function of the runtime's answers.
- `src/pallet.rs` — the storage and the calls, each proved against
  `state.rs`.
- `src/laws.rs` — properties of every call: refusals change nothing,
  kitties are never lost, only owners give kitties away, one event per
  success, shop prices read back as written, bred DNA comes from the parents,
  a kitty costs its new owner a stake the runtime really reserved, a sale
  really pays the seller, minting asks for the stake before it checks the
  next index.
- `app/lib.rs` — glue to a FRAME runtime: its currency and randomness answer
  the pallet, each dispatch runs in a storage transaction, and the pallet's
  events are deposited as runtime events.
