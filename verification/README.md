# utility_contracts

Billing logic of a prepaid utility-metering contract on Stellar/Soroban,
verified with Verus.

- `src/` — the verified library:
  - `contract.rs`: the contract's storage (`UtilityContract`, viewed as
    `ContractState`) and every entry point as a transition of that storage,
    returning the effects the host must carry out (authorizations, token
    transfers, events).
  - `meter.rs`: a single meter's transitions (registration, top-up, usage,
    capped hourly claims, the user's hourly limit, heartbeat, shutdown,
    depletion forecast).
  - `billing.rs`: billing groups and their member lists.
  - `webhook.rs`: webhook configurations, low-balance alert records and
    their keys.
  - `gas_estimator.rs`: fee tables, monthly/annual cost estimates and the
    cost summary text.
  - `text.rs`: decimal rendering of integers.
  - `laws.rs`: properties across operations (hourly cap, no overdraft,
    balances follow transfers, group membership, alert cooldown, ...).
- `tests/` — tests of the library on concrete values.
- `app/` — the Soroban contract around the library: it keeps the storage in
  one ledger entry, performs the effects through `soroban-sdk`, and holds
  the `f32` arithmetic (alert threshold, grouped-meter share).

A billing group's member list is a `Vec<u64>` of the standard library in
`src/`. On the ledger it is a `soroban_sdk::Vec`, a handle to a host object
that exists only inside a Soroban `Env`; reading and writing it is host I/O,
which stays in `app/`. The library takes the list as plain values, so that
what a member list is for (membership, listing a meter once, removal that
keeps the others in order) is verified logic with contracts of its own;
`app/` converts between the two when it loads and saves the storage.
