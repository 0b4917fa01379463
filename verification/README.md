# northstar_index_fund

The state logic of the Northstar index office, verified with Verus: the
structural market state (session structure, opening ranges, range
projections, the atomic Level Book, the node graph, market location and
replay fingerprints), the Desk market projector and its bar timelines, the
Ledger (command validation, entry drafts, correlation into trade cases and
the bounded projection the Ledger page reads), venue account truth and the
Ledger events it implies, the immutable office snapshot, and the UTC civil
time and labels the office pages print.

Layout:

- `src/` — the verified library. Every public function carries a contract;
  the laws that relate several functions are public proof functions next to
  the functions they speak of. Calls into blake3, memchr, hashbrown and smallvec
  stand behind small trusted wrappers whose doc comments say what is
  assumed. The short lists of a structural node (roles, contributors,
  families) and the node identities of a merge or split are `SmallVec`s held
  in opaque list types of `src/market_state/inline_lists.rs`: Verus does not
  accept `SmallVec` declared as an outside type, because of its `Array`
  bound, so each list type names what it holds and reads it back through
  `SmallVec::from_vec` and `SmallVec::as_slice`.
- `tests/` — ordinary Rust tests of the library.
- `app/` — the headless replay lab: it feeds canonical index values through
  the market projector and publishes office snapshots through a lock-free
  store. Floating-point presentation of venue figures lives here too.

Not in this crate: the bar aggregator, the journals and provider decoders of
the data plane, and the durable ledger store. The macro projector, the
Massive market plane and desk pipeline, and the ledger command port sit on
them and are not here either. What the state writer publishes after each
event is decided in `operating::writer`; `app/` hands the market projector
an empty bar aggregation.
