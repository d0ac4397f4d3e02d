# acropolis_state

Verified state logic of a Cardano node's DRep, accounts-query, synchronisation
and UTxO REST modules, written in Verus.

- `src/` is the library. Its functions are verified by Verus against their
  `requires`/`ensures` contracts, except the few marked `external_body` that
  call `hex` and std's integer parser (their contracts are trusted); `src/laws.rs` holds properties that span
  several calls (rollback forgets later commits, an accepted certificate answers
  `true` exactly when it changes the set of DReps, expiry checks are idempotent,
  delegators move between DReps, ...).
  - `types.rs`, `messages.rs`, `accounts.rs`, `governance.rs`: ledger values,
    certificates, votes and query/answer types, with their models; the debug
    text of queries.
  - `cred_map.rs`: a map keyed by credentials, modelled as a `Map`.
  - `drep_state.rs`: the DRep state and its history.
  - `drep_module.rs`: when buffered blocks can be applied, how rollbacks reach
    the buffer and the history, how a block is processed and committed, and
    answers to DRep queries.
  - `ordered_keys.rs`: facts about `BTreeMap`s keyed by block number.
  - `state_history.rs`: committed states by block number, and rollback.
  - `rest.rs`: REST parameters, answers and refusals (status and text).
  - `synchronization.rs`, `distribution_history.rs`, `text.rs`.
- `tests/` runs the library on concrete values.
- `app/` is the input/output around it: bus forwarding, the DRep module's loop,
  REST handlers and serializable copies of the library's types.
