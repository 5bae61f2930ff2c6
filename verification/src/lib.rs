//! A minimal proof-of-work ledger: transactions, hash-linked blocks and the
//! chain that mines and appends them.

pub mod block;
pub mod blockchain;
pub mod common;
pub mod decimal;
pub mod transaction;
