//! A minimal account-balance ledger.
//!
//! The ledger tracks named accounts, their balances, and the total supply of a
//! fungible unit. New supply is deposited with `mint`; existing balance moves
//! between accounts with `transfer`. Across every operation the ledger keeps
//! the invariant that the recorded total supply equals the sum of all account
//! balances.
//!
//! Persistence and transport are collaborators, not part of this crate: a host
//! loads a [`ledger::Ledger`] value, runs operations on it, and saves it back.

pub mod account;
pub mod balances;
pub mod ledger;
