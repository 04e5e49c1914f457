//! Verified core logic of the bc-forge Soroban contract suite.
//!
//! Every contract of the suite keeps its state in ledger storage and talks to
//! the host through `soroban_sdk`. This crate holds what those contracts
//! decide: each module models one contract's ledger state as plain values and
//! exposes the operations on it, with contracts that say exactly what every
//! operation returns and how it changes the state.

pub mod address;
pub mod ledger_map;
pub mod rbac;
pub mod admin_multisig;
pub mod rate_limit;
pub mod lifecycle;
pub mod reentrancy_guard;
pub mod token;
pub mod split;
pub mod governance;
pub mod freeze;
pub mod flash_loan_guard;
pub mod treasury;
pub mod fee_vault;
