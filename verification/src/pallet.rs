//! The engine itself: pool creation, deposits, redemptions and swaps, as
//! atomic read-modify-write operations over the registry and the ledger.
//!
//! Each operation's contract is a transition function on the mathematical
//! state: the result and the whole next state are both pinned down, and a
//! failed operation leaves every piece of state exactly as it was.

use vstd::prelude::*;

use crate::arith::{fee_amount, isqrt, integer_sqrt, mul_div, pool_fee_amount};
use crate::errors::{DispatchError, Error};
use crate::events::Event;
use crate::ledger::{Ledger, LedgerView};
use crate::pair::AssetPair;
use crate::pool::{PoolInfo, Pools};

verus! {

/// The fixed parameters an engine instance runs with.
#[derive(Clone, Copy, Debug, PartialEq, Eq, Structural)]
pub struct Config {
    /// The account that custodies every pool's reserves and collects the
    /// pool-creation fee.
    pub pallet_account: u64,
    /// The fixed fee, in native currency, charged for creating a pool.
    pub pool_create_fee: u128,
    /// Claim tokens permanently locked with the custodian at a pool's
    /// first deposit.
    pub min_liquidity: u128,
    /// The minimum-balance floor each claim token is created with.
    pub min_balance: u128,
    /// The trading fee, in whole per cent.
    pub pool_fee_percent: u8,
}

impl Config {
    /// A percentage cannot exceed one hundred.
    pub open spec fn wf(&self) -> bool {
        self.pool_fee_percent <= 100
    }
}

/// The mathematical state of a whole engine instance.
pub ghost struct State {
    pub config: Config,
    pub pools: Map<AssetPair, PoolInfo>,
    pub ledger: LedgerView,
    pub events: Seq<Event>,
}

/// The engine: configuration, pool registry, asset ledger, and the events
/// of every successful operation so far.
pub struct Pallet {
    pub config: Config,
    pub pools: Pools,
    pub ledger: Ledger,
    pub events: Vec<Event>,
}

impl View for Pallet {
    type V = State;

    open spec fn view(&self) -> State {
        State {
            config: self.config,
            pools: self.pools@,
            ledger: self.ledger@,
            events: self.events@,
        }
    }
}

/// The canonical pair of two distinct assets, as a spec value.
pub open spec fn pair_of(asset_a: u32, asset_b: u32) -> AssetPair
    recommends
        asset_a != asset_b,
{
    if asset_a < asset_b {
        AssetPair { asset_a, asset_b }
    } else {
        AssetPair { asset_a: asset_b, asset_b: asset_a }
    }
}

/// What `quote` returns: `floor(amount * reserve_b / reserve_a)`, or
/// `Overflow` when the product does not fit or `reserve_a` is zero.
pub open spec fn spec_quote(amount: int, reserve_a: int, reserve_b: int) -> Result<u128, Error> {
    if amount * reserve_b > u128::MAX {
        Err(Error::Overflow)
    } else if reserve_a == 0 {
        Err(Error::Overflow)
    } else {
        Ok((amount * reserve_b / reserve_a) as u128)
    }
}

/// What `mul_div` returns, for use inside the transition functions.
pub open spec fn spec_mul_div(a: int, b: int, c: int) -> Result<u128, Error> {
    if a * b > u128::MAX {
        Err(Error::Overflow)
    } else if c == 0 {
        Err(Error::Overflow)
    } else {
        Ok((a * b / c) as u128)
    }
}

/// What `get_amount_out` returns: the constant-product output for a
/// fee-discounted input, `floor(f * reserve_out / (reserve_in + f))` with
/// `f = amount_in - fee`.
pub open spec fn spec_amount_out(amount_in: int, reserve_in: int, reserve_out: int, percent: int)
    -> Result<u128, Error> {
    if reserve_in == 0 && reserve_out == 0 {
        Err(Error::ReserveIsZero)
    } else {
        let f = amount_in - fee_amount(amount_in, percent);
        if f * reserve_out > u128::MAX {
            Err(Error::Overflow)
        } else if reserve_in + f > u128::MAX {
            Err(Error::Overflow)
        } else if reserve_in + f == 0 {
            Err(Error::Overflow)
        } else {
            Ok((f * reserve_out / (reserve_in + f)) as u128)
        }
    }
}

/// What `get_amount_in` returns: the input owed for an exact output,
/// `floor(reserve_in * amount_out / (reserve_out - fee)) + 1`, rounded up
/// so the pool is never shorted.
pub open spec fn spec_amount_in(amount_out: int, reserve_in: int, reserve_out: int, percent: int)
    -> Result<u128, Error> {
    if reserve_in == 0 && reserve_out == 0 {
        Err(Error::ReserveIsZero)
    } else if amount_out >= reserve_out {
        Err(Error::InsufficientAmount)
    } else {
        let num = reserve_in * amount_out;
        let den = reserve_out - fee_amount(amount_out, percent);
        if num > u128::MAX {
            Err(Error::Overflow)
        } else if den <= 0 {
            Err(Error::Overflow)
        } else if num / den + 1 > u128::MAX {
            Err(Error::Overflow)
        } else {
            Ok((num / den + 1) as u128)
        }
    }
}

/// What `get_lp_amount_for_zero_supply` returns: claim tokens for a first
/// deposit, `sqrt(amount_a * amount_b) - min_liquidity`, rejecting dust
/// deposits whose square root is below the locked minimum.
pub open spec fn spec_lp_for_zero_supply(amount_a: int, amount_b: int, min_liquidity: int)
    -> Result<u128, Error> {
    if amount_a * amount_b > u128::MAX {
        Err(Error::Overflow)
    } else if isqrt(amount_a * amount_b) < min_liquidity {
        Err(Error::InsufficientLiquidity)
    } else {
        Ok((isqrt(amount_a * amount_b) - min_liquidity) as u128)
    }
}

/// The deposit amounts accepted against the current reserves: the first
/// liquidity sets the initial price; later deposits follow the
/// proportional rule, so the caller never loses value to an unfavourable
/// ratio and any over-contribution is left uncommitted.
pub open spec fn spec_deposit_amounts(reserve_a: int, reserve_b: int, amount_a_desired: u128,
    amount_b_desired: u128, amount_a_min: u128, amount_b_min: u128) -> Result<(u128, u128), Error> {
    if reserve_a == 0 || reserve_b == 0 {
        Ok((amount_a_desired, amount_b_desired))
    } else {
        match spec_quote(amount_a_desired as int, reserve_a, reserve_b) {
            Err(e) => Err(e),
            Ok(b_optimal) => if b_optimal <= amount_b_desired {
                if b_optimal < amount_b_min {
                    Err(Error::InsufficientAmount)
                } else {
                    Ok((amount_a_desired, b_optimal))
                }
            } else {
                match spec_quote(amount_b_desired as int, reserve_b, reserve_a) {
                    Err(e) => Err(e),
                    Ok(a_optimal) => if a_optimal > amount_a_desired {
                        Err(Error::InsufficientAmount)
                    } else if a_optimal < amount_a_min {
                        Err(Error::InsufficientAmount)
                    } else {
                        Ok((a_optimal, amount_b_desired))
                    },
                }
            },
        }
    }
}

impl State {
    /// The transition of `create_pool`: on success the fee moves to the
    /// custodian, the claim asset is originated, a zero-reserve pool is
    /// registered and a `PoolCreated` event is emitted; every failure
    /// leaves the state exactly as it was.
    pub open spec fn spec_create_pool(self, creator: u64, asset_a: u32, asset_b: u32,
        claim_asset: u32) -> (State, Result<(), DispatchError>) {
        if asset_a == asset_b {
            (self, Err(DispatchError::Module(Error::IdenticalAssets)))
        } else if !self.ledger.asset_exists(asset_a) {
            (self, Err(DispatchError::Module(Error::AssetNotExists)))
        } else if !self.ledger.asset_exists(asset_b) {
            (self, Err(DispatchError::Module(Error::AssetNotExists)))
        } else {
            let pair = pair_of(asset_a, asset_b);
            if self.pools.contains_key(pair) {
                (self, Err(DispatchError::Module(Error::PoolExists)))
            } else if self.ledger.asset_exists(claim_asset) {
                (self, Err(DispatchError::Module(Error::AssetIdAlreadyTaken)))
            } else {
                match self.ledger.native_transfer_result(
                    creator,
                    self.config.pallet_account,
                    self.config.pool_create_fee,
                    true,
                ) {
                    Err(e) => (self, Err(DispatchError::Token(e))),
                    Ok(()) => {
                        let paid = self.ledger.native_transfer_update(
                            creator,
                            self.config.pallet_account,
                            self.config.pool_create_fee,
                        );
                        let originated = paid.create_update(claim_asset, self.config.min_balance);
                        (
                            State {
                                pools: self.pools.insert(
                                    pair,
                                    PoolInfo { claim_asset, reserve_a: 0, reserve_b: 0 },
                                ),
                                ledger: originated,
                                events: self.events.push(
                                    Event::PoolCreated { creator, pair, claim_asset },
                                ),
                                ..self
                            },
                            Ok(()),
                        )
                    },
                }
            }
        }
    }

    /// The transition of `do_add_liquidity`: the accepted amounts move
    /// from the sender to the custodian, claim tokens are minted against
    /// them, the reserves grow by exactly the deposited amounts, and
    /// every failure leaves the state exactly as it was.
    pub open spec fn spec_add_liquidity(self, sender: u64, asset_a: u32, asset_b: u32,
        amount_a_desired: u128, amount_b_desired: u128, amount_a_min: u128, amount_b_min: u128,
        mint_to: u64) -> (State, Result<(), DispatchError>) {
        if asset_a == asset_b {
            (self, Err(DispatchError::Module(Error::IdenticalAssets)))
        } else {
            let pair = pair_of(asset_a, asset_b);
            if !self.pools.contains_key(pair) {
                (self, Err(DispatchError::Module(Error::PoolNotFound)))
            } else {
                let info = self.pools[pair];
                if !self.ledger.asset_exists(info.claim_asset) {
                    (self, Err(DispatchError::Module(Error::LiquidityPoolTokenNotExists)))
                } else if amount_a_desired == 0 || amount_b_desired == 0 {
                    (self, Err(DispatchError::Module(Error::InvalidDesiredAmount)))
                } else {
                    match spec_deposit_amounts(
                        info.reserve_a as int,
                        info.reserve_b as int,
                        amount_a_desired,
                        amount_b_desired,
                        amount_a_min,
                        amount_b_min,
                    ) {
                        Err(e) => (self, Err(DispatchError::Module(e))),
                        Ok((amount_a, amount_b)) => self.add_liquidity_fund(
                            sender,
                            asset_a,
                            asset_b,
                            pair,
                            info,
                            amount_a,
                            amount_b,
                            mint_to,
                        ),
                    }
                }
            }
        }
    }

    /// The funding step of the deposit transition: both accepted amounts
    /// move from the sender to the custodian, then claim tokens are
    /// minted and the reserves committed.
    pub open spec fn add_liquidity_fund(self, sender: u64, asset_a: u32, asset_b: u32,
        pair: AssetPair, info: PoolInfo, amount_a: u128, amount_b: u128, mint_to: u64) -> (
        State,
        Result<(), DispatchError>,
    ) {
        match self.ledger.transfer_result(
            asset_a,
            sender,
            self.config.pallet_account,
            amount_a,
            true,
        ) {
            Err(e) => (self, Err(DispatchError::Token(e))),
            Ok(()) => {
                let funded_a = self.ledger.transfer_update(
                    asset_a,
                    sender,
                    self.config.pallet_account,
                    amount_a,
                );
                match funded_a.transfer_result(
                    asset_b,
                    sender,
                    self.config.pallet_account,
                    amount_b,
                    true,
                ) {
                    Err(e) => (self, Err(DispatchError::Token(e))),
                    Ok(()) => {
                        let funded = funded_a.transfer_update(
                            asset_b,
                            sender,
                            self.config.pallet_account,
                            amount_b,
                        );
                        self.add_liquidity_settlement(
                            funded,
                            sender,
                            pair,
                            info,
                            amount_a,
                            amount_b,
                            mint_to,
                        )
                    },
                }
            },
        }
    }

    /// The tail of the deposit transition: the claim-token amount is the
    /// square root of a first deposit less the permanently locked
    /// minimum, or the smaller of the two proportional computations for a
    /// later one.
    pub open spec fn add_liquidity_settlement(self, funded: LedgerView, sender: u64,
        pair: AssetPair, info: PoolInfo, amount_a: u128, amount_b: u128, mint_to: u64) -> (
        State,
        Result<(), DispatchError>,
    ) {
        let supply = funded.issuance_of(info.claim_asset);
        if supply == 0 {
            match spec_lp_for_zero_supply(
                amount_a as int,
                amount_b as int,
                self.config.min_liquidity as int,
            ) {
                Err(e) => (self, Err(DispatchError::Module(e))),
                Ok(lp_amount) => {
                    match funded.mint_result(
                        info.claim_asset,
                        self.config.pallet_account,
                        self.config.min_liquidity,
                    ) {
                        Err(e) => (self, Err(DispatchError::Token(e))),
                        Ok(()) => {
                            let locked = funded.mint_update(
                                info.claim_asset,
                                self.config.pallet_account,
                                self.config.min_liquidity,
                            );
                            self.add_liquidity_commit(
                                locked,
                                sender,
                                pair,
                                info,
                                amount_a,
                                amount_b,
                                mint_to,
                                lp_amount,
                            )
                        },
                    }
                },
            }
        } else {
            match spec_mul_div(amount_a as int, supply as int, info.reserve_a as int) {
                Err(e) => (self, Err(DispatchError::Module(e))),
                Ok(by_a) => match spec_mul_div(
                    amount_b as int,
                    supply as int,
                    info.reserve_b as int,
                ) {
                    Err(e) => (self, Err(DispatchError::Module(e))),
                    Ok(by_b) => self.add_liquidity_commit(
                        funded,
                        sender,
                        pair,
                        info,
                        amount_a,
                        amount_b,
                        mint_to,
                        if by_a <= by_b {
                            by_a
                        } else {
                            by_b
                        },
                    ),
                },
            }
        }
    }

    /// The final step of the deposit transition: mint the claim tokens
    /// and grow both reserves by the deposited amounts, atomically.
    pub open spec fn add_liquidity_commit(self, led: LedgerView, sender: u64, pair: AssetPair,
        info: PoolInfo, amount_a: u128, amount_b: u128, mint_to: u64, lp_amount: u128) -> (
        State,
        Result<(), DispatchError>,
    ) {
        match led.mint_result(info.claim_asset, mint_to, lp_amount) {
            Err(e) => (self, Err(DispatchError::Token(e))),
            Ok(()) => {
                let minted = led.mint_update(info.claim_asset, mint_to, lp_amount);
                if info.reserve_a + amount_a > u128::MAX || info.reserve_b + amount_b
                    > u128::MAX {
                    (self, Err(DispatchError::Module(Error::Overflow)))
                } else {
                    (
                        State {
                            pools: self.pools.insert(
                                pair,
                                PoolInfo {
                                    claim_asset: info.claim_asset,
                                    reserve_a: (info.reserve_a + amount_a) as u128,
                                    reserve_b: (info.reserve_b + amount_b) as u128,
                                },
                            ),
                            ledger: minted,
                            events: self.events.push(
                                Event::LiquidityAdded {
                                    sender,
                                    pair,
                                    claim_asset: info.claim_asset,
                                    amount_a,
                                    amount_b,
                                    minted: lp_amount,
                                },
                            ),
                            ..self
                        },
                        Ok(()),
                    )
                }
            },
        }
    }

    /// The transition of `do_remove_liquidity`: the full burn amount of
    /// claim tokens leaves the sender, the net share of both reserves
    /// (after the redemption fee) moves back, and the fee is socialized
    /// to the remaining holders by shrinking supply without returning
    /// reserves; every failure leaves the state exactly as it was.
    pub open spec fn spec_remove_liquidity(self, sender: u64, asset_a: u32, asset_b: u32,
        lp_token_burn: u128, amount_a_min_receive: u128, amount_b_min_receive: u128) -> (
        State,
        Result<(), DispatchError>,
    ) {
        if asset_a == asset_b {
            (self, Err(DispatchError::Module(Error::IdenticalAssets)))
        } else if lp_token_burn == 0 {
            (self, Err(DispatchError::Module(Error::InvalidLiquidityAmount)))
        } else {
            let pair = pair_of(asset_a, asset_b);
            if !self.pools.contains_key(pair) {
                (self, Err(DispatchError::Module(Error::PoolNotFound)))
            } else {
                let info = self.pools[pair];
                let supply = self.ledger.issuance_of(info.claim_asset);
                let fee = fee_amount(lp_token_burn as int, self.config.pool_fee_percent as int);
                let net = lp_token_burn - fee;
                match spec_mul_div(net, info.reserve_a as int, supply as int) {
                    Err(e) => (self, Err(DispatchError::Module(e))),
                    Ok(amount_a) => match spec_mul_div(
                        net,
                        info.reserve_b as int,
                        supply as int,
                    ) {
                        Err(e) => (self, Err(DispatchError::Module(e))),
                        Ok(amount_b) => if amount_a == 0 || amount_a < amount_a_min_receive {
                            (self, Err(DispatchError::Module(Error::InsufficientAmount)))
                        } else if amount_b == 0 || amount_b < amount_b_min_receive {
                            (self, Err(DispatchError::Module(Error::InsufficientAmount)))
                        } else {
                            let reserve_a_left: int = if amount_a > info.reserve_a {
                                0
                            } else {
                                info.reserve_a - amount_a
                            };
                            let reserve_b_left: int = if amount_b > info.reserve_b {
                                0
                            } else {
                                info.reserve_b - amount_b
                            };
                            if reserve_a_left < self.ledger.min_balance_of(asset_a) {
                                (self, Err(DispatchError::Module(Error::AmountLessThanMinimal)))
                            } else if reserve_b_left < self.ledger.min_balance_of(asset_b) {
                                (self, Err(DispatchError::Module(Error::AmountLessThanMinimal)))
                            } else {
                                self.remove_liquidity_settlement(
                                    sender,
                                    asset_a,
                                    asset_b,
                                    pair,
                                    info,
                                    lp_token_burn,
                                    (fee as u128),
                                    amount_a,
                                    amount_b,
                                )
                            }
                        },
                    },
                }
            }
        }
    }

    /// The tail of the redemption transition: burn the full amount from
    /// the sender, shrink the reserves, and pay the owed amounts out.
    pub open spec fn remove_liquidity_settlement(self, sender: u64, asset_a: u32, asset_b: u32,
        pair: AssetPair, info: PoolInfo, lp_token_burn: u128, fee: u128, amount_a: u128,
        amount_b: u128) -> (State, Result<(), DispatchError>) {
        match self.ledger.burn_result(info.claim_asset, sender, lp_token_burn) {
            Err(e) => (self, Err(DispatchError::Token(e))),
            Ok(()) => {
                let burned = self.ledger.burn_update(info.claim_asset, sender, lp_token_burn);
                if amount_a > info.reserve_a || amount_b > info.reserve_b {
                    (self, Err(DispatchError::Module(Error::Overflow)))
                } else {
                    match burned.transfer_result(
                        asset_a,
                        self.config.pallet_account,
                        sender,
                        amount_a,
                        false,
                    ) {
                        Err(e) => (self, Err(DispatchError::Token(e))),
                        Ok(()) => {
                            let paid_a = burned.transfer_update(
                                asset_a,
                                self.config.pallet_account,
                                sender,
                                amount_a,
                            );
                            match paid_a.transfer_result(
                                asset_b,
                                self.config.pallet_account,
                                sender,
                                amount_b,
                                false,
                            ) {
                                Err(e) => (self, Err(DispatchError::Token(e))),
                                Ok(()) => {
                                    let paid_b = paid_a.transfer_update(
                                        asset_b,
                                        self.config.pallet_account,
                                        sender,
                                        amount_b,
                                    );
                                    (
                                        State {
                                            pools: self.pools.insert(
                                                pair,
                                                PoolInfo {
                                                    claim_asset: info.claim_asset,
                                                    reserve_a: (info.reserve_a - amount_a) as u128,
                                                    reserve_b: (info.reserve_b - amount_b) as u128,
                                                },
                                            ),
                                            ledger: paid_b,
                                            events: self.events.push(
                                                Event::LiquidityRemoved {
                                                    sender,
                                                    pair,
                                                    claim_asset: info.claim_asset,
                                                    amount_a,
                                                    amount_b,
                                                    burned: lp_token_burn,
                                                    fee,
                                                },
                                            ),
                                            ..self
                                        },
                                        Ok(()),
                                    )
                                },
                            }
                        },
                    }
                }
            },
        }
    }

    /// The transition of `do_swap_exact_asset_for_asset`: the caller
    /// supplies exactly `amount_in` and receives the constant-product
    /// output, the reserves move by exactly the transferred amounts, and
    /// every failure leaves the state exactly as it was.
    pub open spec fn spec_swap_exact_asset_for_asset(self, sender: u64, exact_in: u32,
        asset_out: u32, amount_in: u128, amount_out_min: u128) -> (State, Result<
        u128,
        DispatchError,
    >) {
        if amount_in == 0 || amount_out_min == 0 {
            (self, Err(DispatchError::Module(Error::InvalidAmount)))
        } else if exact_in == asset_out {
            (self, Err(DispatchError::Module(Error::IdenticalAssets)))
        } else {
            let pair = pair_of(exact_in, asset_out);
            if !self.pools.contains_key(pair) {
                (self, Err(DispatchError::Module(Error::PoolNotFound)))
            } else {
                let info = self.pools[pair];
                let out_result = if exact_in < asset_out {
                    spec_amount_out(
                        amount_in as int,
                        info.reserve_a as int,
                        info.reserve_b as int,
                        self.config.pool_fee_percent as int,
                    )
                } else {
                    spec_amount_out(
                        amount_in as int,
                        info.reserve_b as int,
                        info.reserve_a as int,
                        self.config.pool_fee_percent as int,
                    )
                };
                match out_result {
                    Err(e) => (self, Err(DispatchError::Module(e))),
                    Ok(amount_out) => self.swap_settlement(
                        sender,
                        exact_in,
                        asset_out,
                        amount_in,
                        amount_out,
                        if amount_out < amount_out_min {
                            Some(Error::ProvidedMinimumNotSufficientForSwap)
                        } else {
                            None
                        },
                        amount_out,
                    ),
                }
            }
        }
    }

    /// The transition of `do_swap_asset_for_exact_asset`: the caller
    /// receives exactly `amount_out` and supplies the rounded-up input.
    pub open spec fn spec_swap_asset_for_exact_asset(self, sender: u64, asset_in: u32,
        exact_out: u32, amount_out: u128, amount_in_max: u128) -> (State, Result<
        u128,
        DispatchError,
    >) {
        if amount_out == 0 || amount_in_max == 0 {
            (self, Err(DispatchError::Module(Error::InvalidAmount)))
        } else if asset_in == exact_out {
            (self, Err(DispatchError::Module(Error::IdenticalAssets)))
        } else {
            let pair = pair_of(asset_in, exact_out);
            if !self.pools.contains_key(pair) {
                (self, Err(DispatchError::Module(Error::PoolNotFound)))
            } else {
                let info = self.pools[pair];
                let in_result = if asset_in < exact_out {
                    spec_amount_in(
                        amount_out as int,
                        info.reserve_a as int,
                        info.reserve_b as int,
                        self.config.pool_fee_percent as int,
                    )
                } else {
                    spec_amount_in(
                        amount_out as int,
                        info.reserve_b as int,
                        info.reserve_a as int,
                        self.config.pool_fee_percent as int,
                    )
                };
                match in_result {
                    Err(e) => (self, Err(DispatchError::Module(e))),
                    Ok(amount_in) => self.swap_settlement(
                        sender,
                        asset_in,
                        exact_out,
                        amount_in,
                        amount_out,
                        if amount_in > amount_in_max {
                            Some(Error::ProvidedMaximumNotSufficientForSwap)
                        } else {
                            None
                        },
                        amount_out,
                    ),
                }
            }
        }
    }

    /// The shared tail of both swap transitions: checked reserve updates,
    /// the slippage bound, the two transfers, and the event. The input
    /// reserve grows by `amount_in`; the output reserve shrinks by
    /// `amount_out`.
    pub open spec fn swap_settlement(self, sender: u64, asset_in: u32, asset_out: u32,
        amount_in: u128, amount_out: u128, slippage: Option<Error>, returned: u128) -> (
        State,
        Result<u128, DispatchError>,
    )
        recommends
            asset_in != asset_out,
            self.pools.contains_key(pair_of(asset_in, asset_out)),
    {
        let pair = pair_of(asset_in, asset_out);
        let info = self.pools[pair];
        let new_a = if asset_in < asset_out {
            info.reserve_a + amount_in
        } else {
            info.reserve_a - amount_out
        };
        let new_b = if asset_in < asset_out {
            info.reserve_b - amount_out
        } else {
            info.reserve_b + amount_in
        };
        if !(0 <= new_a <= u128::MAX) || !(0 <= new_b <= u128::MAX) {
            (self, Err(DispatchError::Module(Error::Overflow)))
        } else if slippage is Some {
            (self, Err(DispatchError::Module(slippage.unwrap())))
        } else {
            match self.ledger.transfer_result(
                asset_in,
                sender,
                self.config.pallet_account,
                amount_in,
                true,
            ) {
                Err(e) => (self, Err(DispatchError::Token(e))),
                Ok(()) => {
                    let paid_in = self.ledger.transfer_update(
                        asset_in,
                        sender,
                        self.config.pallet_account,
                        amount_in,
                    );
                    match paid_in.transfer_result(
                        asset_out,
                        self.config.pallet_account,
                        sender,
                        amount_out,
                        true,
                    ) {
                        Err(e) => (self, Err(DispatchError::Token(e))),
                        Ok(()) => {
                            let paid_out = paid_in.transfer_update(
                                asset_out,
                                self.config.pallet_account,
                                sender,
                                amount_out,
                            );
                            (
                                State {
                                    pools: self.pools.insert(
                                        pair,
                                        PoolInfo {
                                            claim_asset: info.claim_asset,
                                            reserve_a: new_a as u128,
                                            reserve_b: new_b as u128,
                                        },
                                    ),
                                    ledger: paid_out,
                                    events: self.events.push(
                                        Event::Swapped {
                                            sender,
                                            asset_in,
                                            amount_in,
                                            asset_out,
                                            amount_out,
                                        },
                                    ),
                                    ..self
                                },
                                Ok(returned),
                            )
                        },
                    }
                },
            }
        }
    }
}

impl Pallet {
    /// Configuration is sound, the registry is sound and holds only
    /// canonical pairs, and the ledger is sound.
    pub open spec fn wf(&self) -> bool {
        &&& self.config.wf()
        &&& self.pools.wf()
        &&& self.ledger.wf()
        &&& forall|p: AssetPair| self.pools@.contains_key(p) ==> (#[trigger] p.is_canonical())
    }

    /// A fresh engine: no pools, no assets, no balances, no events.
    pub fn new(config: Config, native_min_balance: u128) -> (r: Pallet)
        requires
            config.wf(),
        ensures
            r.wf(),
            r@.config == config,
            r@.pools == Map::<AssetPair, PoolInfo>::empty(),
            r@.ledger == (LedgerView {
                native_min_balance,
                native: Map::<u64, u128>::empty(),
                assets: Map::<u32, crate::ledger::AssetView>::empty(),
            }),
            r@.events == Seq::<Event>::empty(),
    {
        Pallet {
            config,
            pools: Pools::new(),
            ledger: Ledger::new(native_min_balance),
            events: Vec::new(),
        }
    }

    /// The account that custodies all pool reserves.
    pub fn account_id(&self) -> (r: u64)
        ensures
            r == self.config.pallet_account,
    {
        self.config.pallet_account
    }

    /// The proportional trading fee on an amount, truncating.
    pub fn pool_fee(&self, amount: u128) -> (r: u128)
        requires
            self.config.wf(),
        ensures
            r as int == fee_amount(amount as int, self.config.pool_fee_percent as int),
            r <= amount,
    {
        pool_fee_amount(amount, self.config.pool_fee_percent)
    }

    /// Whether an asset exists in the ledger.
    pub fn asset_exists(&self, asset_id: u32) -> (r: bool)
        requires
            self.wf(),
        ensures
            r == self@.ledger.asset_exists(asset_id),
    {
        self.ledger.asset_exists(asset_id)
    }

    /// Total issuance of an asset.
    pub fn total_issuance(&self, asset_id: u32) -> (r: u128)
        requires
            self.wf(),
        ensures
            r == self@.ledger.issuance_of(asset_id),
    {
        self.ledger.total_issuance(asset_id)
    }

    /// The reducible balance of an asset held by an account.
    pub fn balance(&self, owner: u64, asset_id: u32) -> (r: u128)
        requires
            self.wf(),
        ensures
            r == self@.ledger.balance_of(asset_id, owner),
    {
        self.ledger.reducible_balance(asset_id, owner)
    }

    /// The reducible balance of an asset held by an account.
    pub fn get_balance(&self, owner: u64, asset: u32) -> (r: u128)
        requires
            self.wf(),
        ensures
            r == self@.ledger.balance_of(asset, owner),
    {
        self.ledger.reducible_balance(asset, owner)
    }

    /// The events of every successful operation so far, oldest first.
    pub fn events(&self) -> (r: &Vec<Event>)
        ensures
            r@ == self@.events,
    {
        &self.events
    }

    /// The amount of the second asset received for `amount` of the first,
    /// at the pure reserve ratio: no fee is applied to quoting.
    pub fn quote(amount: u128, reserve_a: u128, reserve_b: u128) -> (r: Result<u128, Error>)
        ensures
            r == spec_quote(amount as int, reserve_a as int, reserve_b as int),
    {
        mul_div(amount, reserve_b, reserve_a)
    }

    /// The output owed for an exact, fee-discounted input against the
    /// given reserves; fails `ReserveIsZero` only when both reserves are
    /// zero.
    pub fn get_amount_out(&self, amount_in: u128, reserve_in: u128, reserve_out: u128) -> (r:
        Result<u128, Error>)
        requires
            self.config.wf(),
        ensures
            r == spec_amount_out(
                amount_in as int,
                reserve_in as int,
                reserve_out as int,
                self.config.pool_fee_percent as int,
            ),
    {
        if reserve_in == 0 && reserve_out == 0 {
            return Err(Error::ReserveIsZero);
        }
        let amount_in_with_fee = amount_in - self.pool_fee(amount_in);
        let numerator = match amount_in_with_fee.checked_mul(reserve_out) {
            None => {
                return Err(Error::Overflow);
            },
            Some(v) => v,
        };
        let denominator = match reserve_in.checked_add(amount_in_with_fee) {
            None => {
                return Err(Error::Overflow);
            },
            Some(v) => v,
        };
        match numerator.checked_div(denominator) {
            None => Err(Error::Overflow),
            Some(v) => Ok(v),
        }
    }

    /// The input owed for an exact output against the given reserves,
    /// rounded up in the pool's favour; an output that would drain the
    /// whole opposite reserve is refused.
    pub fn get_amount_in(&self, amount_out: u128, reserve_in: u128, reserve_out: u128) -> (r:
        Result<u128, Error>)
        requires
            self.config.wf(),
        ensures
            r == spec_amount_in(
                amount_out as int,
                reserve_in as int,
                reserve_out as int,
                self.config.pool_fee_percent as int,
            ),
    {
        if reserve_in == 0 && reserve_out == 0 {
            return Err(Error::ReserveIsZero);
        }
        if amount_out >= reserve_out {
            return Err(Error::InsufficientAmount);
        }
        let numerator = match reserve_in.checked_mul(amount_out) {
            None => {
                return Err(Error::Overflow);
            },
            Some(v) => v,
        };
        let denominator = reserve_out - self.pool_fee(amount_out);
        let q = match numerator.checked_div(denominator) {
            None => {
                return Err(Error::Overflow);
            },
            Some(v) => v,
        };
        match q.checked_add(1) {
            None => Err(Error::Overflow),
            Some(v) => Ok(v),
        }
    }

    /// Claim tokens minted for a first deposit: the square root of the
    /// deposited product, less the permanently locked minimum.
    pub fn get_lp_amount_for_zero_supply(&self, amount_a: u128, amount_b: u128) -> (r: Result<
        u128,
        Error,
    >)
        ensures
            r == spec_lp_for_zero_supply(
                amount_a as int,
                amount_b as int,
                self.config.min_liquidity as int,
            ),
    {
        let product = match amount_a.checked_mul(amount_b) {
            None => {
                return Err(Error::Overflow);
            },
            Some(v) => v,
        };
        let root = integer_sqrt(product);
        match root.checked_sub(self.config.min_liquidity) {
            None => Err(Error::InsufficientLiquidity),
            Some(v) => Ok(v),
        }
    }

    /// Create a new liquidity pool for two existing, distinct assets.
    /// The creator pays the fixed pool-creation fee, the claim token is
    /// originated for the custodian, and a zero-reserve pool is
    /// registered; a claim-token identifier colliding with an existing
    /// asset is refused.
    pub fn create_pool(&mut self, creator: u64, asset_a: u32, asset_b: u32, claim_asset: u32) -> (r:
        Result<(), DispatchError>)
        requires
            old(self).wf(),
        ensures
            final(self).wf(),
            r == old(self)@.spec_create_pool(creator, asset_a, asset_b, claim_asset).1,
            final(self)@ == old(self)@.spec_create_pool(creator, asset_a, asset_b, claim_asset).0,
    {
        if asset_a == asset_b {
            return Err(DispatchError::Module(Error::IdenticalAssets));
        }
        if !self.ledger.asset_exists(asset_a) {
            return Err(DispatchError::Module(Error::AssetNotExists));
        }
        if !self.ledger.asset_exists(asset_b) {
            return Err(DispatchError::Module(Error::AssetNotExists));
        }
        let pair = match AssetPair::new(asset_a, asset_b) {
            Err(e) => {
                return Err(DispatchError::Module(e));
            },
            Ok(p) => p,
        };
        if self.pools.contains_key(&pair) {
            return Err(DispatchError::Module(Error::PoolExists));
        }
        if self.ledger.asset_exists(claim_asset) {
            return Err(DispatchError::Module(Error::AssetIdAlreadyTaken));
        }
        // Pay the creation fee, keeping the creator's account alive.
        let mut led = self.ledger.duplicate();
        match led.native_transfer(creator, self.config.pallet_account, self.config.pool_create_fee,
            true) {
            Err(e) => {
                return Err(DispatchError::Token(e));
            },
            Ok(()) => {},
        }
        // Originate the claim token with its minimum-balance floor; its
        // identifier was just checked to be free.
        match led.create(claim_asset, self.config.min_balance) {
            Err(e) => {
                return Err(DispatchError::Token(e));
            },
            Ok(()) => {},
        }
        self.ledger = led;
        match self.pools.create(&pair, claim_asset) {
            Err(e) => {
                return Err(DispatchError::Module(e));
            },
            Ok(()) => {},
        }
        self.events.push(Event::PoolCreated { creator, pair, claim_asset });
        Ok(())
    }

    /// Add liquidity to an existing pool: take the accepted amounts of
    /// both assets from the sender and mint proportional claim tokens to
    /// `mint_to`. A first deposit also mints the permanently locked
    /// minimum to the custodian.
    pub fn do_add_liquidity(&mut self, sender: u64, asset_a: u32, asset_b: u32,
        amount_a_desired: u128, amount_b_desired: u128, amount_a_min: u128, amount_b_min: u128,
        mint_to: u64) -> (r: Result<(), DispatchError>)
        requires
            old(self).wf(),
        ensures
            final(self).wf(),
            r == old(self)@.spec_add_liquidity(
                sender,
                asset_a,
                asset_b,
                amount_a_desired,
                amount_b_desired,
                amount_a_min,
                amount_b_min,
                mint_to,
            ).1,
            final(self)@ == old(self)@.spec_add_liquidity(
                sender,
                asset_a,
                asset_b,
                amount_a_desired,
                amount_b_desired,
                amount_a_min,
                amount_b_min,
                mint_to,
            ).0,
    {
        if asset_a == asset_b {
            return Err(DispatchError::Module(Error::IdenticalAssets));
        }
        let pair = match AssetPair::new(asset_a, asset_b) {
            Err(e) => {
                return Err(DispatchError::Module(e));
            },
            Ok(p) => p,
        };
        let info = match self.pools.get(&pair) {
            None => {
                return Err(DispatchError::Module(Error::PoolNotFound));
            },
            Some(info) => info,
        };
        if !self.ledger.asset_exists(info.claim_asset) {
            return Err(DispatchError::Module(Error::LiquidityPoolTokenNotExists));
        }
        if amount_a_desired == 0 || amount_b_desired == 0 {
            return Err(DispatchError::Module(Error::InvalidDesiredAmount));
        }
        // The proportional-deposit rule against the current reserves.
        let amount_a: u128;
        let amount_b: u128;
        if info.reserve_a == 0 || info.reserve_b == 0 {
            amount_a = amount_a_desired;
            amount_b = amount_b_desired;
        } else {
            let b_optimal = match Self::quote(amount_a_desired, info.reserve_a, info.reserve_b) {
                Err(e) => {
                    return Err(DispatchError::Module(e));
                },
                Ok(v) => v,
            };
            if b_optimal <= amount_b_desired {
                if b_optimal < amount_b_min {
                    return Err(DispatchError::Module(Error::InsufficientAmount));
                }
                amount_a = amount_a_desired;
                amount_b = b_optimal;
            } else {
                let a_optimal = match Self::quote(
                    amount_b_desired,
                    info.reserve_b,
                    info.reserve_a,
                ) {
                    Err(e) => {
                        return Err(DispatchError::Module(e));
                    },
                    Ok(v) => v,
                };
                if a_optimal > amount_a_desired {
                    return Err(DispatchError::Module(Error::InsufficientAmount));
                }
                if a_optimal < amount_a_min {
                    return Err(DispatchError::Module(Error::InsufficientAmount));
                }
                amount_a = a_optimal;
                amount_b = amount_b_desired;
            }
        }
        self.add_liquidity_execute(sender, asset_a, asset_b, pair, info, amount_a, amount_b,
            mint_to)
    }

    /// The funding and settlement steps of a deposit, committed
    /// atomically: transfers in, claim-token minting, reserve growth.
    #[verifier::rlimit(100)]
    fn add_liquidity_execute(&mut self, sender: u64, asset_a: u32, asset_b: u32, pair: AssetPair,
        info: PoolInfo, amount_a: u128, amount_b: u128, mint_to: u64) -> (r: Result<
        (),
        DispatchError,
    >)
        requires
            old(self).wf(),
            old(self)@.pools.contains_key(pair),
            old(self)@.pools[pair] == info,
            pair.is_canonical(),
        ensures
            final(self).wf(),
            r == old(self)@.add_liquidity_fund(
                sender,
                asset_a,
                asset_b,
                pair,
                info,
                amount_a,
                amount_b,
                mint_to,
            ).1,
            final(self)@ == old(self)@.add_liquidity_fund(
                sender,
                asset_a,
                asset_b,
                pair,
                info,
                amount_a,
                amount_b,
                mint_to,
            ).0,
    {
        let mut led = self.ledger.duplicate();
        match led.transfer(asset_a, sender, self.config.pallet_account, amount_a, true) {
            Err(e) => {
                return Err(DispatchError::Token(e));
            },
            Ok(()) => {},
        }
        match led.transfer(asset_b, sender, self.config.pallet_account, amount_b, true) {
            Err(e) => {
                return Err(DispatchError::Token(e));
            },
            Ok(()) => {},
        }
        let total_supply = led.total_issuance(info.claim_asset);
        let lp_amount: u128;
        if total_supply == 0 {
            lp_amount = match self.get_lp_amount_for_zero_supply(amount_a, amount_b) {
                Err(e) => {
                    return Err(DispatchError::Module(e));
                },
                Ok(v) => v,
            };
            match led.mint_into(
                info.claim_asset,
                self.config.pallet_account,
                self.config.min_liquidity,
            ) {
                Err(e) => {
                    return Err(DispatchError::Token(e));
                },
                Ok(()) => {},
            }
        } else {
            let by_a = match mul_div(amount_a, total_supply, info.reserve_a) {
                Err(e) => {
                    return Err(DispatchError::Module(e));
                },
                Ok(v) => v,
            };
            let by_b = match mul_div(amount_b, total_supply, info.reserve_b) {
                Err(e) => {
                    return Err(DispatchError::Module(e));
                },
                Ok(v) => v,
            };
            lp_amount = if by_a <= by_b {
                by_a
            } else {
                by_b
            };
        }
        match led.mint_into(info.claim_asset, mint_to, lp_amount) {
            Err(e) => {
                return Err(DispatchError::Token(e));
            },
            Ok(()) => {},
        }
        let new_info = match info.add_reserves(amount_a, amount_b) {
            Err(e) => {
                return Err(DispatchError::Module(e));
            },
            Ok(p) => p,
        };
        self.ledger = led;
        self.pools.set(&pair, new_info);
        self.events.push(
            Event::LiquidityAdded {
                sender,
                pair,
                claim_asset: info.claim_asset,
                amount_a,
                amount_b,
                minted: lp_amount,
            },
        );
        Ok(())
    }

    /// Remove liquidity by burning claim tokens: the net share of both
    /// reserves, after the redemption fee, returns to the sender.
    pub fn do_remove_liquidity(&mut self, sender: u64, asset_a: u32, asset_b: u32,
        lp_token_burn: u128, amount_a_min_receive: u128, amount_b_min_receive: u128) -> (r: Result<
        (),
        DispatchError,
    >)
        requires
            old(self).wf(),
        ensures
            final(self).wf(),
            r == old(self)@.spec_remove_liquidity(
                sender,
                asset_a,
                asset_b,
                lp_token_burn,
                amount_a_min_receive,
                amount_b_min_receive,
            ).1,
            final(self)@ == old(self)@.spec_remove_liquidity(
                sender,
                asset_a,
                asset_b,
                lp_token_burn,
                amount_a_min_receive,
                amount_b_min_receive,
            ).0,
    {
        if asset_a == asset_b {
            return Err(DispatchError::Module(Error::IdenticalAssets));
        }
        if lp_token_burn == 0 {
            return Err(DispatchError::Module(Error::InvalidLiquidityAmount));
        }
        let pair = match AssetPair::new(asset_a, asset_b) {
            Err(e) => {
                return Err(DispatchError::Module(e));
            },
            Ok(p) => p,
        };
        let info = match self.pools.get(&pair) {
            None => {
                return Err(DispatchError::Module(Error::PoolNotFound));
            },
            Some(info) => info,
        };
        let total_supply = self.ledger.total_issuance(info.claim_asset);
        // The redemption fee stays with the pool: only the net amount is
        // redeemed, while the full burn amount leaves circulation.
        let removal_fee = self.pool_fee(lp_token_burn);
        let lp_redeem = lp_token_burn - removal_fee;
        let amount_a = match mul_div(lp_redeem, info.reserve_a, total_supply) {
            Err(e) => {
                return Err(DispatchError::Module(e));
            },
            Ok(v) => v,
        };
        let amount_b = match mul_div(lp_redeem, info.reserve_b, total_supply) {
            Err(e) => {
                return Err(DispatchError::Module(e));
            },
            Ok(v) => v,
        };
        if amount_a == 0 || amount_a < amount_a_min_receive {
            return Err(DispatchError::Module(Error::InsufficientAmount));
        }
        if amount_b == 0 || amount_b < amount_b_min_receive {
            return Err(DispatchError::Module(Error::InsufficientAmount));
        }
        // What would remain must stay at or above each asset's minimum
        // balance: a dust reserve is unusable.
        let reserve_a_left = if amount_a > info.reserve_a {
            0
        } else {
            info.reserve_a - amount_a
        };
        let reserve_b_left = if amount_b > info.reserve_b {
            0
        } else {
            info.reserve_b - amount_b
        };
        if reserve_a_left < self.ledger.minimum_balance(asset_a) {
            return Err(DispatchError::Module(Error::AmountLessThanMinimal));
        }
        if reserve_b_left < self.ledger.minimum_balance(asset_b) {
            return Err(DispatchError::Module(Error::AmountLessThanMinimal));
        }
        let mut led = self.ledger.duplicate();
        match led.burn_from(info.claim_asset, sender, lp_token_burn) {
            Err(e) => {
                return Err(DispatchError::Token(e));
            },
            Ok(()) => {},
        }
        let new_info = match info.sub_reserves(amount_a, amount_b) {
            Err(e) => {
                return Err(DispatchError::Module(e));
            },
            Ok(p) => p,
        };
        match led.transfer(asset_a, self.config.pallet_account, sender, amount_a, false) {
            Err(e) => {
                return Err(DispatchError::Token(e));
            },
            Ok(()) => {},
        }
        match led.transfer(asset_b, self.config.pallet_account, sender, amount_b, false) {
            Err(e) => {
                return Err(DispatchError::Token(e));
            },
            Ok(()) => {},
        }
        self.ledger = led;
        self.pools.set(&pair, new_info);
        self.events.push(
            Event::LiquidityRemoved {
                sender,
                pair,
                claim_asset: info.claim_asset,
                amount_a,
                amount_b,
                burned: lp_token_burn,
                fee: removal_fee,
            },
        );
        Ok(())
    }

    /// Add liquidity to an existing pool.
    pub fn add_liquidity(&mut self, sender: u64, asset_a: u32, asset_b: u32,
        amount_a_desired: u128, amount_b_desired: u128, amount_a_min: u128, amount_b_min: u128,
        mint_to: u64) -> (r: Result<(), DispatchError>)
        requires
            old(self).wf(),
        ensures
            final(self).wf(),
            r == old(self)@.spec_add_liquidity(
                sender,
                asset_a,
                asset_b,
                amount_a_desired,
                amount_b_desired,
                amount_a_min,
                amount_b_min,
                mint_to,
            ).1,
            final(self)@ == old(self)@.spec_add_liquidity(
                sender,
                asset_a,
                asset_b,
                amount_a_desired,
                amount_b_desired,
                amount_a_min,
                amount_b_min,
                mint_to,
            ).0,
    {
        self.do_add_liquidity(
            sender,
            asset_a,
            asset_b,
            amount_a_desired,
            amount_b_desired,
            amount_a_min,
            amount_b_min,
            mint_to,
        )
    }

    /// Remove liquidity from an existing pool by burning claim tokens.
    pub fn remove_liquidity(&mut self, sender: u64, asset_a: u32, asset_b: u32,
        lp_token_burn: u128, amount_a_min_receive: u128, amount_b_min_receive: u128) -> (r: Result<
        (),
        DispatchError,
    >)
        requires
            old(self).wf(),
        ensures
            final(self).wf(),
            r == old(self)@.spec_remove_liquidity(
                sender,
                asset_a,
                asset_b,
                lp_token_burn,
                amount_a_min_receive,
                amount_b_min_receive,
            ).1,
            final(self)@ == old(self)@.spec_remove_liquidity(
                sender,
                asset_a,
                asset_b,
                lp_token_burn,
                amount_a_min_receive,
                amount_b_min_receive,
            ).0,
    {
        self.do_remove_liquidity(
            sender,
            asset_a,
            asset_b,
            lp_token_burn,
            amount_a_min_receive,
            amount_b_min_receive,
        )
    }

    /// Swap an exact input for at least `amount_out_min` of the output
    /// asset, at the constant-product price less the trading fee.
    pub fn do_swap_exact_asset_for_asset(&mut self, sender: u64, exact_in: u32, asset_out: u32,
        amount_in: u128, amount_out_min: u128) -> (r: Result<u128, DispatchError>)
        requires
            old(self).wf(),
        ensures
            final(self).wf(),
            r == old(self)@.spec_swap_exact_asset_for_asset(
                sender,
                exact_in,
                asset_out,
                amount_in,
                amount_out_min,
            ).1,
            final(self)@ == old(self)@.spec_swap_exact_asset_for_asset(
                sender,
                exact_in,
                asset_out,
                amount_in,
                amount_out_min,
            ).0,
    {
        if amount_in == 0 {
            return Err(DispatchError::Module(Error::InvalidAmount));
        }
        if amount_out_min == 0 {
            return Err(DispatchError::Module(Error::InvalidAmount));
        }
        let pair = match AssetPair::new(exact_in, asset_out) {
            Err(e) => {
                return Err(DispatchError::Module(e));
            },
            Ok(p) => p,
        };
        let info = match self.pools.get(&pair) {
            None => {
                return Err(DispatchError::Module(Error::PoolNotFound));
            },
            Some(info) => info,
        };
        let reserve_in = info.reserve_a;
        let reserve_out = info.reserve_b;
        let amount_out: u128;
        let new_a: u128;
        let new_b: u128;
        if exact_in < asset_out {
            amount_out = match self.get_amount_out(amount_in, reserve_in, reserve_out) {
                Err(e) => {
                    return Err(DispatchError::Module(e));
                },
                Ok(v) => v,
            };
            new_a = match info.reserve_a.checked_add(amount_in) {
                None => {
                    return Err(DispatchError::Module(Error::Overflow));
                },
                Some(v) => v,
            };
            new_b = match info.reserve_b.checked_sub(amount_out) {
                None => {
                    return Err(DispatchError::Module(Error::Overflow));
                },
                Some(v) => v,
            };
        } else {
            amount_out = match self.get_amount_out(amount_in, reserve_out, reserve_in) {
                Err(e) => {
                    return Err(DispatchError::Module(e));
                },
                Ok(v) => v,
            };
            new_a = match info.reserve_a.checked_sub(amount_out) {
                None => {
                    return Err(DispatchError::Module(Error::Overflow));
                },
                Some(v) => v,
            };
            new_b = match info.reserve_b.checked_add(amount_in) {
                None => {
                    return Err(DispatchError::Module(Error::Overflow));
                },
                Some(v) => v,
            };
        }
        if amount_out < amount_out_min {
            return Err(DispatchError::Module(Error::ProvidedMinimumNotSufficientForSwap));
        }
        let mut led = self.ledger.duplicate();
        match led.transfer(exact_in, sender, self.config.pallet_account, amount_in, true) {
            Err(e) => {
                return Err(DispatchError::Token(e));
            },
            Ok(()) => {},
        }
        match led.transfer(asset_out, self.config.pallet_account, sender, amount_out, true) {
            Err(e) => {
                return Err(DispatchError::Token(e));
            },
            Ok(()) => {},
        }
        self.ledger = led;
        self.pools.set(
            &pair,
            PoolInfo { claim_asset: info.claim_asset, reserve_a: new_a, reserve_b: new_b },
        );
        self.events.push(
            Event::Swapped { sender, asset_in: exact_in, amount_in, asset_out, amount_out },
        );
        Ok(amount_out)
    }

    /// Swap at most `amount_in_max` of the input asset for an exact
    /// output, the input rounded up in the pool's favour.
    pub fn do_swap_asset_for_exact_asset(&mut self, sender: u64, asset_in: u32, exact_out: u32,
        amount_out: u128, amount_in_max: u128) -> (r: Result<u128, DispatchError>)
        requires
            old(self).wf(),
        ensures
            final(self).wf(),
            r == old(self)@.spec_swap_asset_for_exact_asset(
                sender,
                asset_in,
                exact_out,
                amount_out,
                amount_in_max,
            ).1,
            final(self)@ == old(self)@.spec_swap_asset_for_exact_asset(
                sender,
                asset_in,
                exact_out,
                amount_out,
                amount_in_max,
            ).0,
    {
        if amount_out == 0 {
            return Err(DispatchError::Module(Error::InvalidAmount));
        }
        if amount_in_max == 0 {
            return Err(DispatchError::Module(Error::InvalidAmount));
        }
        let pair = match AssetPair::new(asset_in, exact_out) {
            Err(e) => {
                return Err(DispatchError::Module(e));
            },
            Ok(p) => p,
        };
        let info = match self.pools.get(&pair) {
            None => {
                return Err(DispatchError::Module(Error::PoolNotFound));
            },
            Some(info) => info,
        };
        let reserve_in = info.reserve_a;
        let reserve_out = info.reserve_b;
        let amount_in: u128;
        let new_a: u128;
        let new_b: u128;
        if asset_in < exact_out {
            amount_in = match self.get_amount_in(amount_out, reserve_in, reserve_out) {
                Err(e) => {
                    return Err(DispatchError::Module(e));
                },
                Ok(v) => v,
            };
            new_a = match info.reserve_a.checked_add(amount_in) {
                None => {
                    return Err(DispatchError::Module(Error::Overflow));
                },
                Some(v) => v,
            };
            new_b = match info.reserve_b.checked_sub(amount_out) {
                None => {
                    return Err(DispatchError::Module(Error::Overflow));
                },
                Some(v) => v,
            };
        } else {
            amount_in = match self.get_amount_in(amount_out, reserve_out, reserve_in) {
                Err(e) => {
                    return Err(DispatchError::Module(e));
                },
                Ok(v) => v,
            };
            new_a = match info.reserve_a.checked_sub(amount_out) {
                None => {
                    return Err(DispatchError::Module(Error::Overflow));
                },
                Some(v) => v,
            };
            new_b = match info.reserve_b.checked_add(amount_in) {
                None => {
                    return Err(DispatchError::Module(Error::Overflow));
                },
                Some(v) => v,
            };
        }
        if amount_in > amount_in_max {
            return Err(DispatchError::Module(Error::ProvidedMaximumNotSufficientForSwap));
        }
        let mut led = self.ledger.duplicate();
        match led.transfer(asset_in, sender, self.config.pallet_account, amount_in, true) {
            Err(e) => {
                return Err(DispatchError::Token(e));
            },
            Ok(()) => {},
        }
        match led.transfer(exact_out, self.config.pallet_account, sender, amount_out, true) {
            Err(e) => {
                return Err(DispatchError::Token(e));
            },
            Ok(()) => {},
        }
        self.ledger = led;
        self.pools.set(
            &pair,
            PoolInfo { claim_asset: info.claim_asset, reserve_a: new_a, reserve_b: new_b },
        );
        self.events.push(
            Event::Swapped { sender, asset_in, amount_in, asset_out: exact_out, amount_out },
        );
        Ok(amount_out)
    }

    /// Swap an exact input for at least a minimum output.
    pub fn swap_exact_asset_for_asset(&mut self, sender: u64, exact_in: u32, asset_out: u32,
        amount_in: u128, amount_out_min: u128) -> (r: Result<(), DispatchError>)
        requires
            old(self).wf(),
        ensures
            final(self).wf(),
            final(self)@ == old(self)@.spec_swap_exact_asset_for_asset(
                sender,
                exact_in,
                asset_out,
                amount_in,
                amount_out_min,
            ).0,
            ({
                let rr = old(self)@.spec_swap_exact_asset_for_asset(
                    sender,
                    exact_in,
                    asset_out,
                    amount_in,
                    amount_out_min,
                ).1;
                r == (match rr {
                    Ok(_) => Ok::<(), DispatchError>(()),
                    Err(e) => Err(e),
                })
            }),
    {
        match self.do_swap_exact_asset_for_asset(sender, exact_in, asset_out, amount_in,
            amount_out_min) {
            Ok(_) => Ok(()),
            Err(e) => Err(e),
        }
    }

    /// Swap at most a maximum input for an exact output.
    pub fn swap_asset_for_exact_asset(&mut self, sender: u64, asset_in: u32, exact_out: u32,
        amount_out: u128, amount_in_max: u128) -> (r: Result<(), DispatchError>)
        requires
            old(self).wf(),
        ensures
            final(self).wf(),
            final(self)@ == old(self)@.spec_swap_asset_for_exact_asset(
                sender,
                asset_in,
                exact_out,
                amount_out,
                amount_in_max,
            ).0,
            ({
                let rr = old(self)@.spec_swap_asset_for_exact_asset(
                    sender,
                    asset_in,
                    exact_out,
                    amount_out,
                    amount_in_max,
                ).1;
                r == (match rr {
                    Ok(_) => Ok::<(), DispatchError>(()),
                    Err(e) => Err(e),
                })
            }),
    {
        match self.do_swap_asset_for_exact_asset(sender, asset_in, exact_out, amount_out,
            amount_in_max) {
            Ok(_) => Ok(()),
            Err(e) => Err(e),
        }
    }

    /// The canonical reserves of the pool for two assets.
    pub fn get_reserves(&self, asset_a: u32, asset_b: u32) -> (r: Result<
        (u128, u128),
        DispatchError,
    >)
        requires
            self.wf(),
        ensures
            match r {
                Ok(res) => asset_a != asset_b && self@.pools.contains_key(pair_of(asset_a, asset_b))
                    && res.0 == self@.pools[pair_of(asset_a, asset_b)].reserve_a && res.1
                    == self@.pools[pair_of(asset_a, asset_b)].reserve_b,
                Err(e) => if asset_a == asset_b {
                    e == DispatchError::Module(Error::IdenticalAssets)
                } else {
                    e == DispatchError::Module(Error::PoolNotFound) && !self@.pools.contains_key(
                        pair_of(asset_a, asset_b),
                    )
                },
            },
    {
        let pair = match AssetPair::new(asset_a, asset_b) {
            Err(e) => {
                return Err(DispatchError::Module(e));
            },
            Ok(p) => p,
        };
        match self.pools.get(&pair) {
            None => Err(DispatchError::Module(Error::PoolNotFound)),
            Some(info) => Ok((info.reserve_a, info.reserve_b)),
        }
    }

    /// The estimated output of swapping `amount` at the pure reserve
    /// ratio of the two assets' pool; `None` when there is no such pool,
    /// the first reserve is empty, or the ratio cannot be computed.
    /// Whatever the argument order, the quote runs from the pair's first
    /// member to its second.
    pub fn calc_price_exact_asset_for_asset(&self, asset_a: u32, asset_b: u32, amount: u128) -> (r:
        Option<u128>)
        requires
            self.wf(),
        ensures
            ({
                let pair = pair_of(asset_a, asset_b);
                if asset_a == asset_b || !self@.pools.contains_key(pair) {
                    r is None
                } else {
                    let info = self@.pools[pair];
                    if info.reserve_a == 0 {
                        r is None
                    } else {
                        r == spec_quote(
                            amount as int,
                            info.reserve_a as int,
                            info.reserve_b as int,
                        ).ok()
                    }
                }
            }),
    {
        let pair = match AssetPair::new(asset_a, asset_b) {
            Err(_) => {
                return None;
            },
            Ok(p) => p,
        };
        let info = match self.pools.get(&pair) {
            None => {
                return None;
            },
            Some(info) => info,
        };
        if info.reserve_a != 0 {
            match Self::quote(amount, info.reserve_a, info.reserve_b) {
                Ok(v) => Some(v),
                Err(_) => None,
            }
        } else {
            None
        }
    }

    /// The estimated input required to take `amount` out at the pure
    /// reserve ratio; the exact inverse of the forward quote. Whatever
    /// the argument order, the quote runs from the pair's second member
    /// to its first.
    pub fn calc_price_asset_for_exact_asset(&self, asset_a: u32, asset_b: u32, amount: u128) -> (r:
        Option<u128>)
        requires
            self.wf(),
        ensures
            ({
                let pair = pair_of(asset_a, asset_b);
                if asset_a == asset_b || !self@.pools.contains_key(pair) {
                    r is None
                } else {
                    let info = self@.pools[pair];
                    if info.reserve_a == 0 {
                        r is None
                    } else {
                        r == spec_quote(
                            amount as int,
                            info.reserve_b as int,
                            info.reserve_a as int,
                        ).ok()
                    }
                }
            }),
    {
        let pair = match AssetPair::new(asset_a, asset_b) {
            Err(_) => {
                return None;
            },
            Ok(p) => p,
        };
        let info = match self.pools.get(&pair) {
            None => {
                return None;
            },
            Some(info) => info,
        };
        if info.reserve_a != 0 {
            match Self::quote(amount, info.reserve_b, info.reserve_a) {
                Ok(v) => Some(v),
                Err(_) => None,
            }
        } else {
            None
        }
    }
}

} // verus!
