# relyo

The core of the Relyo payment network, a blockless DAG ledger with
proof-of-stake voting, written in Verus and verified.

- `src/` is the verified library: addresses, hashing and Merkle proofs,
  transactions and their validation, the emission schedule, the account
  ledger (balances, nonces, stakes, unstaking locks and the validator fee
  pool), the DAG and its traversal, tip selection, the mempool, conflict
  detection, vote aggregation, the consensus engine, peers, the rate limiter,
  the node's submission rules and its decision on each network event or timer
  tick (`RelyoNode::on_event`), the startup check of the consensus constants,
  the keystore and the wallet.
  Calls into outside crates (hashing, signatures, encodings, concurrent maps,
  randomness, key derivation and encryption) sit behind small trusted
  wrappers whose contracts are stated in their doc comments.
- `tests/` exercises the library on concrete values.
- `app/` holds what cannot be verified: the event loop's decoding of peer
  messages and carrying out of the node's actions, storage, configuration files, the
  JSON-RPC and explorer handlers, wire formats, and the floating-point views
  of amounts and of the emission curve.

Sets and ordered maps whose keys are the library's own types (the tips, a
tally's voters, a conflict set, a sender's pending hashes, a snapshot's tables)
are held as `Vec`s: the contracts of std's `HashSet` and `BTreeMap` cannot be
relied on for such keys. What the set or the order gave is stated instead, as
an invariant (no element twice, ascending keys) that the operations keep.

Laws of the library are public proof functions named `law_*`.
