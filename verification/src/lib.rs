//! A minimal append-only ledger: signed transfers are bundled into blocks,
//! each block carries a proof of work, and balances are derived by replaying
//! the chain.

pub mod balance;
pub mod blockchain;
pub mod encoding;
pub mod error;
pub mod hashing;
pub mod keys;
pub mod network;
pub mod transaction;
pub mod validation;
pub mod wallet;
