# linkora-contracts

A verified model of the Linkora social contract for the Soroban ledger:
user profiles, a follow graph, posts that can be tipped (with a fee to a
treasury), and community token pools spent by a quorum of their admins.

- `src/` — the library, verified with Verus.
  - `model.rs`: the contract as a mathematical state machine (one spec
    function per call).
  - `contract.rs`: `LinkoraContract`, the executable contract; every call is
    proved to behave as its spec function says, and a refused call changes
    nothing. Calls do not touch the ledger themselves: they record, in
    order, the effects they ask of it (authorizations, token transfers,
    events, code updates).
  - `laws.rs`: properties proved across calls (consistency of every
    reachable state, follow/unfollow, tip split, pool quorum, ...).
  - `store.rs`, `account.rs`, `types.rs`, `validation.rs`: keyed storage,
    account identifiers, data types, input checks.
- `app/` — the Soroban contract: each entry point loads the storage entries
  its call touches into the model, runs the call, writes the entries back
  and performs the recorded effects.
- `tests/` — tests of the library.
