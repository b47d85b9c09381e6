//! Verified core of the gateway contracts: the username auction and the
//! escrow of scheduled and recurring payments between vaults.
//!
//! Each contract is modelled by the state its storage holds. An entry point
//! of a contract is a method that takes that state, the request and the
//! ledger time, and either returns the effect to carry out (a transfer, a
//! call, an event) with the state updated, or an error with the state left
//! as it was.
pub mod address;
pub mod auction;
pub mod escrow;
pub mod escrow_laws;
pub mod escrow_runs;
pub mod escrow_types;
pub mod vault_table;
