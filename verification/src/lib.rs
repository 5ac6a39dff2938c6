//! A minimal proof-of-work ledger: pending transfers are minted, one at a
//! time, into a chain of blocks whose hashes pass a digit-counting difficulty
//! rule.

pub mod chain;
pub mod digits;
pub mod hasher;
pub mod invariants;
pub mod nonce;
