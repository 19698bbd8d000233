//! A minimal fungible-asset ledger.
//!
//! The ledger owns a fixed total supply and a sparse account-to-balance
//! table. Supply is issued once, at construction, entirely to the issuing
//! account; afterwards the ledger is mutated only through peer-to-peer
//! transfers. The central invariant, carried by [`ledger::Erc20::wf`], is
//! conservation: no transfer creates or destroys value, so the balances
//! always sum to the total supply.

pub mod account;
pub mod balances;
pub mod ledger;

pub use account::AccountId;
pub use account::same_account;
pub use ledger::Erc20;
pub use ledger::Error;
pub use ledger::Transfer;
