//! Error types for the engine and for the asset ledger.

use vstd::prelude::*;

verus! {

/// Failures raised by the pool engine itself.
#[derive(Clone, Copy, Debug, PartialEq, Eq, Structural)]
pub enum Error {
    /// An arithmetic step could not be represented exactly.
    Overflow,
    /// The two assets of a would-be pair are the same asset.
    IdenticalAssets,
    /// A pool for this pair already exists.
    PoolExists,
    /// No pool is registered for this pair.
    PoolNotFound,
    /// One of the underlying assets does not exist.
    AssetNotExists,
    /// The requested claim-token identifier is already an existing asset.
    AssetIdAlreadyTaken,
    /// The claim token recorded for the pool does not exist.
    LiquidityPoolTokenNotExists,
    /// A desired deposit amount is zero.
    InvalidDesiredAmount,
    /// A swap amount is zero.
    InvalidAmount,
    /// A claim-token burn amount is zero.
    InvalidLiquidityAmount,
    /// An amount is below the caller's stated minimum, or rounds to zero.
    InsufficientAmount,
    /// A first deposit is too small to mint any claim tokens.
    InsufficientLiquidity,
    /// A withdrawal would leave a reserve below the asset's minimum balance.
    AmountLessThanMinimal,
    /// Both reserves of the pool are zero.
    ReserveIsZero,
    /// The computed output is below the caller's minimum for a swap.
    ProvidedMinimumNotSufficientForSwap,
    /// The computed input is above the caller's maximum for a swap.
    ProvidedMaximumNotSufficientForSwap,
}

/// Failures raised by the asset ledger.
#[derive(Clone, Copy, Debug, PartialEq, Eq, Structural)]
pub enum TokenError {
    /// The paying account does not hold enough funds.
    FundsUnavailable,
    /// The asset identifier is not known to the ledger.
    UnknownAsset,
    /// An asset with this identifier already exists.
    InUse,
    /// A balance or an issuance figure would not fit its width.
    Overflow,
}

/// The error type of a whole operation: either an engine error or a
/// ledger error, surfaced verbatim.
#[derive(Clone, Copy, Debug, PartialEq, Eq, Structural)]
pub enum DispatchError {
    Module(Error),
    Token(TokenError),
}

} // verus!
