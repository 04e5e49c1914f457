# bc_forge

The decision logic of the bc-forge Soroban contract suite, written in Verus
and proved against its contracts.

- `src/` is the verified library. Each module models one contract's ledger
  state as plain values (`address`, `ledger_map`) and states, for every
  operation, what it returns and how the state changes:
  - `rbac`: roles as bitmasks, the contract admin, grants and revocations;
  - `admin_multisig`: the admin pool, governance proposals with their
    timelock, and weighted WASM upgrade proposals;
  - `token`: the fungible token (balances, allowances, supply cap, pausing,
    fees configuration, rate-limited mint/transfer/burn, batches);
  - `rate_limit`: global and per-address operation windows;
  - `split`: invoices split between recipients, payout release and retries;
  - `governance`: the signer-threshold multisig contract;
  - `lifecycle`, `freeze`, `flash_loan_guard`, `reentrancy_guard`,
    `treasury`, `fee_vault`: the smaller contracts.

  Public `lemma_*` proof functions state the properties that hold across
  calls (a revocation undoes a grant, a transfer conserves supply, a recorded
  timelock is never moved, and so on).
- `app/` holds the Soroban contracts themselves: authorization, storage,
  events and cross-contract calls around the library.
- `tests/` runs the library on concrete scenarios.
