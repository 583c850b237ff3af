//! An automated-market-maker accounting engine.
//!
//! The crate keeps pooled reserves of two asset kinds per trading pair and
//! lets participants create a pool, deposit two assets for a proportional
//! claim token, redeem the claim token for a share of the reserves, and swap
//! one asset for the other at a price set by the constant-product rule.
//! Balances and issuance live in a plain in-memory asset ledger, so every
//! state change an operation makes is stated in its contract and proved.

pub mod arith;
pub mod assoc;
pub mod errors;
pub mod events;
pub mod laws;
pub mod ledger;
pub mod pallet;
pub mod pair;
pub mod pool;
