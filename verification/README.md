# ttl_legacy

Verified rules of the TTL-Legacy vaults, with their contracts proved by Verus.

- `src/account.rs`: account identities (the bytes of an address) and their equality.
- `src/types.rs`: limits, storage keys, release status and conditions, release events,
  beneficiary entries, errors, and vault numbering.
- `src/vault.rs`: the vault and every change to it (check-in, deposit, withdrawal,
  beneficiaries, metadata, pausing, full and partial release, cancellation, vesting
  claims), each with an exact contract, and the laws that relate them.
- `src/split.rs`: how a released balance is split between beneficiaries by basis points.
- `src/vesting.rs`: vesting schedules: installment amounts, unlocking and claims.
- `src/index.rs`: the per-account lists of vault identifiers: the lists to store when a
  vault's key changes, and the law that keeps each vault listed under exactly its key.
- `src/control.rs`: contract administration: admin hand-over in two steps, the
  contract-wide pause, and which tokens a vault may hold.
- `src/notes.rs`: a vault's name, description and notes, with their length limits.
- `src/zk.rs`: the claim verifier.
- `app/lib.rs`: the Soroban contracts that keep vaults in ledger storage, check
  authorization, move tokens and publish events around the library.
- `tests/`: vault and verifier scenarios, and tests of the laws.
