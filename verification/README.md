# conduit_contracts

Verified models of two Soroban contracts of a relay network, written in Verus.

- `dispute_resolver` arbitrates double-spend conflicts: a party raises a
  dispute over a transaction with a signed relay chain proof, the named
  respondent may answer with a counter-proof before the deadline, and a
  ruling names the winner and the loser.
- `relay_registry` tracks relay nodes: registration, staking (a node becomes
  active at the minimum stake), withdrawals locked for a period, and
  council-approved slashing and reinstatement.

Layout:

- `src/` — the library. Each contract's state is a plain Rust value with a
  mathematical view (maps from identifiers and accounts to records); every
  operation states in its contract exactly what it answers and how the view
  changes, and keeps the representation invariant. The `laws` modules state
  and prove properties that hold across operations.
- `tests/` — scenarios run against the library.
- `app/` — the Soroban contracts around the library: authorization, ledger
  clock, instance storage, signature checks, token transfers and events.
