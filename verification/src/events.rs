//! Domain events, delivered exactly once per successful operation and
//! never on failure.

use vstd::prelude::*;

use crate::pair::AssetPair;

verus! {

/// What a successful operation reports.
#[derive(Clone, Copy, Debug, PartialEq, Eq, Structural)]
pub enum Event {
    /// A new liquidity pool was created.
    PoolCreated { creator: u64, pair: AssetPair, claim_asset: u32 },
    /// Liquidity was added to a pool.
    LiquidityAdded {
        sender: u64,
        pair: AssetPair,
        claim_asset: u32,
        amount_a: u128,
        amount_b: u128,
        minted: u128,
    },
    /// Liquidity was removed from a pool.
    LiquidityRemoved {
        sender: u64,
        pair: AssetPair,
        claim_asset: u32,
        amount_a: u128,
        amount_b: u128,
        burned: u128,
        fee: u128,
    },
    /// One asset was swapped for the other.
    Swapped { sender: u64, asset_in: u32, amount_in: u128, asset_out: u32, amount_out: u128 },
}

} // verus!
