//! TTL-Legacy: dead-man's-switch vaults. An owner keeps a vault locked by checking in
//! within a fixed interval; once a deadline passes without a check-in, anyone may
//! release the vault's funds to its beneficiaries. A vault may also carry a vesting
//! schedule, and a small verifier checks claims against proofs.

pub mod account;
pub mod control;
pub mod index;
pub mod notes;
pub mod split;
pub mod types;
pub mod vault;
pub mod vault_laws;
pub mod vesting;
pub mod zk;
