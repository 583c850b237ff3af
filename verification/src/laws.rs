//! The laws the library states about itself: order-independence of pair
//! canonicalization, conservation of value under transfers and swaps,
//! exactness of quote inversion, and the pool-favouring rounding of the
//! swap round trip.

use vstd::prelude::*;
use vstd::arithmetic::div_mod::*;

use crate::arith::fee_amount;
use crate::errors::Error;
use crate::ledger::LedgerView;
use crate::pair::AssetPair;
use crate::pallet::{pair_of, spec_amount_in, spec_amount_out, spec_deposit_amounts, spec_mul_div, spec_quote, State};

verus! {

/// Making a pair is order-independent: the two argument orders give the
/// same result, a distinct pair always succeeds, and a pair of one asset
/// with itself is refused.
pub proof fn lemma_make_pair_order_independent(asset_a: u32, asset_b: u32)
    ensures
        AssetPair::spec_new(asset_a, asset_b) == AssetPair::spec_new(asset_b, asset_a),
        asset_a != asset_b ==> AssetPair::spec_new(asset_a, asset_b) is Ok,
        AssetPair::spec_new(asset_a, asset_a) == Err::<AssetPair, Error>(Error::IdenticalAssets),
{
}

/// Conservation under a transfer: a successful transfer moves exactly
/// `amount` from payer to payee, leaves every other balance of every
/// asset unchanged, and changes no issuance and no native balance.
pub proof fn lemma_transfer_conserves(l: LedgerView, id: u32, from: u64, to: u64, amount: u128)
    requires
        from != to,
        l.asset_exists(id),
        amount <= l.balance_of(id, from),
        l.balance_of(id, to) + amount <= u128::MAX,
    ensures
        ({
            let moved = l.transfer_update(id, from, to, amount);
            &&& moved.balance_of(id, from) == l.balance_of(id, from) - amount
            &&& moved.balance_of(id, to) == l.balance_of(id, to) + amount
            &&& forall|a: u32, w: u64|
                !(a == id && (w == from || w == to)) ==> #[trigger] moved.balance_of(a, w)
                    == l.balance_of(a, w)
            &&& forall|a: u32| #[trigger] moved.issuance_of(a) == l.issuance_of(a)
            &&& forall|w: u64| #[trigger] moved.native_of(w) == l.native_of(w)
        }),
{
}

/// Quoting is its own exact inverse: quoting `amount` forward and then
/// backward returns `amount` exactly, whenever the forward quote loses
/// nothing to rounding (the divisibility premise). No fee is applied to
/// quoting.
pub proof fn lemma_quote_round_trip(amount: u128, reserve_a: u128, reserve_b: u128)
    requires
        amount > 0,
        reserve_a > 0,
        reserve_b > 0,
        (amount as int * reserve_b as int) % (reserve_a as int) == 0,
        amount as int * reserve_b as int <= u128::MAX as int,
    ensures
        ({
            let forward = spec_quote(amount as int, reserve_a as int, reserve_b as int);
            &&& forward is Ok
            &&& spec_quote(forward.unwrap() as int, reserve_b as int, reserve_a as int)
                == Ok::<u128, Error>(amount)
        }),
{
    let a = amount as int;
    let ra = reserve_a as int;
    let rb = reserve_b as int;
    let f = a * rb / ra;
    lemma_fundamental_div_mod(a * rb, ra);
    assert(f * ra == a * rb) by (nonlinear_arith)
        requires
            a * rb == ra * (a * rb / ra) + (a * rb) % ra && (a * rb) % ra == 0 && f == a * rb
                / ra,
    ;
    assert(f * ra / rb == a) by {
        lemma_div_multiples_vanish(a, rb);
        assert(f * ra == rb * a) by (nonlinear_arith)
            requires
                f * ra == a * rb,
        ;
    }
    assert(f >= 0) by {
        lemma_div_pos_is_pos(a * rb, ra);
        assert(a * rb >= 0) by (nonlinear_arith)
            requires
                a >= 0 && rb >= 0,
        ;
    }
    assert(f * ra <= u128::MAX as int);
}

/// Rounding in the swap formulas favours the pool, never the caller: the
/// input quoted for the output of `x` is at least `x`. This is stated
/// for inputs on which the forward computation loses nothing: the fee on
/// `x` truncates to zero, the output division is exact, and
/// `x * x <= reserve_in + x`. (With rounding loss the round trip can
/// fall short: `x = 100` against reserves `(10000, 200)` at a one per
/// cent fee quotes an output of 1 and a round-trip input of only 51.)
pub proof fn lemma_swap_round_trip_favours_pool(
    x: u128,
    reserve_in: u128,
    reserve_out: u128,
    percent: u8,
)
    requires
        0 < x,
        reserve_in > 0,
        reserve_out > 0,
        percent <= 100,
        fee_amount(x as int, percent as int) == 0,
        (x as int * reserve_out as int) % (reserve_in as int + x as int) == 0,
        x as int * x as int <= reserve_in as int + x as int,
        (x as int * reserve_out as int) < u128::MAX as int,
        reserve_in as int + x as int <= u128::MAX as int,
    ensures
        ({
            let p = percent as int;
            let out_r = spec_amount_out(x as int, reserve_in as int, reserve_out as int, p);
            let in_r = spec_amount_in(
                out_r.unwrap() as int,
                reserve_in as int,
                reserve_out as int,
                p,
            );
            &&& out_r is Ok
            &&& in_r is Ok
            &&& in_r.unwrap() >= x
        }),
{
    let xi = x as int;
    let ri = reserve_in as int;
    let ro = reserve_out as int;
    let p = percent as int;
    let den1 = ri + xi;
    let out = xi * ro / den1;
    // The forward division is exact: out * (ri + xi) == xi * ro.
    lemma_fundamental_div_mod(xi * ro, den1);
    assert(out * den1 == xi * ro) by (nonlinear_arith)
        requires
            xi * ro == den1 * (xi * ro / den1) + (xi * ro) % den1 && (xi * ro) % den1 == 0 && out
                == xi * ro / den1,
    ;
    assert(xi * ro > 0) by (nonlinear_arith)
        requires
            xi > 0 && ro > 0,
    ;
    lemma_div_pos_is_pos(xi * ro, den1);
    assert(out >= 1) by {
        if out == 0 {
            assert(out * den1 == 0) by (nonlinear_arith)
                requires
                    out == 0,
            ;
        }
    }
    assert(out < ro) by (nonlinear_arith)
        requires
            out * den1 == xi * ro && ri > 0 && xi > 0 && ro > 0 && den1 == ri + xi && out >= 0,
    ;
    assert(spec_amount_out(xi, ri, ro, p) == Ok::<u128, Error>(out as u128));
    // The fee on the output is between zero and the output.
    let fo = fee_amount(out, p);
    assert(out * p >= 0) by (nonlinear_arith)
        requires
            out >= 0 && p >= 0,
    ;
    lemma_div_pos_is_pos(out * p, 100);
    assert(fo <= out) by {
        assert(out * p <= out * 100) by (nonlinear_arith)
            requires
                out >= 0 && p <= 100,
        ;
        lemma_div_is_ordered(out * p, out * 100, 100);
        lemma_div_multiples_vanish(out, 100);
        assert(out * 100 == 100 * out);
    }
    let den2 = ro - fo;
    assert(den2 > 0);
    let num2 = ri * out;
    // The round-trip input needs at least x - 1 whole units before the
    // final rounding up.
    assert(num2 <= xi * ro) by (nonlinear_arith)
        requires
            num2 == ri * out && out >= 0 && xi > 0 && den1 == ri + xi && out * den1 == xi * ro,
    ;
    assert(num2 >= 0) by (nonlinear_arith)
        requires
            num2 == ri * out && ri >= 0 && out >= 0,
    ;
    assert(ri * xi >= (xi - 1) * den1) by (nonlinear_arith)
        requires
            den1 == ri + xi && xi * xi <= den1 && xi >= 1,
    ;
    assert(num2 * den1 == (ri * xi) * ro) by (nonlinear_arith)
        requires
            num2 == ri * out && out * den1 == xi * ro,
    ;
    assert(num2 >= (xi - 1) * ro) by (nonlinear_arith)
        requires
            num2 * den1 == (ri * xi) * ro && ri * xi >= (xi - 1) * den1 && den1 > 0 && ro >= 0,
    ;
    assert((xi - 1) * ro >= (xi - 1) * den2) by (nonlinear_arith)
        requires
            xi >= 1 && den2 <= ro,
    ;
    let q = num2 / den2;
    assert(q >= xi - 1) by {
        lemma_div_is_ordered((xi - 1) * den2, num2, den2);
        lemma_div_multiples_vanish(xi - 1, den2);
        assert((xi - 1) * den2 == den2 * (xi - 1));
    }
    assert(q <= num2) by {
        lemma_div_is_ordered_by_denominator(num2, 1, den2);
        lemma_div_multiples_vanish(num2, 1);

    }
    assert(spec_amount_in(out, ri, ro, p) == Ok::<u128, Error>((q + 1) as u128));
}

/// A transfer between two accounts changes no asset's issuance.
pub proof fn lemma_transfer_update_preserves_issuance(
    l: LedgerView,
    id: u32,
    from: u64,
    to: u64,
    amount: u128,
)
    requires
        l.asset_exists(id) || from == to,
    ensures
        forall|a: u32| #[trigger] l.transfer_update(id, from, to, amount).issuance_of(a)
            == l.issuance_of(a),
{
}

/// A mint or burn of one asset leaves every other asset's issuance
/// unchanged.
pub proof fn lemma_mint_burn_touch_only_their_asset(l: LedgerView, id: u32, who: u64, amount: u128)
    ensures
        forall|a: u32|
            a != id ==> #[trigger] l.mint_update(id, who, amount).issuance_of(a) == l.issuance_of(
                a,
            ),
        forall|a: u32|
            a != id ==> #[trigger] l.burn_update(id, who, amount).issuance_of(a) == l.issuance_of(
                a,
            ),
{
}

/// Conservation under a swap: whatever a swap returns, success or any
/// failure, no asset's issuance changes. Swaps only move value between
/// the sender and the custodian; nothing is minted or burned.
pub proof fn lemma_swap_exact_preserves_issuance(
    s: State,
    sender: u64,
    exact_in: u32,
    asset_out: u32,
    amount_in: u128,
    amount_out_min: u128,
)
    ensures
        forall|a: u32|
            #[trigger] s.spec_swap_exact_asset_for_asset(
                sender,
                exact_in,
                asset_out,
                amount_in,
                amount_out_min,
            ).0.ledger.issuance_of(a) == s.ledger.issuance_of(a),
{
    lemma_swap_settlement_preserves_issuance(s, sender, exact_in, asset_out);
}

/// Conservation under the exact-output swap, stated the same way.
pub proof fn lemma_swap_for_exact_preserves_issuance(
    s: State,
    sender: u64,
    asset_in: u32,
    exact_out: u32,
    amount_out: u128,
    amount_in_max: u128,
)
    ensures
        forall|a: u32|
            #[trigger] s.spec_swap_asset_for_exact_asset(
                sender,
                asset_in,
                exact_out,
                amount_out,
                amount_in_max,
            ).0.ledger.issuance_of(a) == s.ledger.issuance_of(a),
{
    lemma_swap_settlement_preserves_issuance(s, sender, asset_in, exact_out);
}

/// The settlement step of either swap leaves every issuance unchanged,
/// for any amounts and any slippage verdict.
proof fn lemma_swap_settlement_preserves_issuance(s: State, sender: u64, asset_in: u32,
    asset_out: u32)
    ensures
        forall|amount_in: u128, amount_out: u128, slippage: Option<Error>, returned: u128, a: u32|
            #[trigger] s.swap_settlement(
                sender,
                asset_in,
                asset_out,
                amount_in,
                amount_out,
                slippage,
                returned,
            ).0.ledger.issuance_of(a) == s.ledger.issuance_of(a),
{
    assert forall|amount_in: u128, amount_out: u128, slippage: Option<Error>, returned: u128,
        a: u32|
        #[trigger] s.swap_settlement(
            sender,
            asset_in,
            asset_out,
            amount_in,
            amount_out,
            slippage,
            returned,
        ).0.ledger.issuance_of(a) == s.ledger.issuance_of(a) by {
        let custodian = s.config.pallet_account;
        match s.ledger.transfer_result(asset_in, sender, custodian, amount_in, true) {
            Err(_) => {},
            Ok(()) => {
                lemma_transfer_update_preserves_issuance(
                    s.ledger,
                    asset_in,
                    sender,
                    custodian,
                    amount_in,
                );
                let paid_in = s.ledger.transfer_update(asset_in, sender, custodian, amount_in);
                match paid_in.transfer_result(asset_out, custodian, sender, amount_out, true) {
                    Err(_) => {},
                    Ok(()) => {
                        lemma_transfer_update_preserves_issuance(
                            paid_in,
                            asset_out,
                            custodian,
                            sender,
                            amount_out,
                        );
                    },
                }
            },
        }
    }
}

/// Conservation under a successful swap: the custodian gains exactly the
/// input and pays out exactly the output, the sender mirrors both, and
/// the recorded reserves move by the same two amounts — no value is
/// created, destroyed, or left unaccounted between the ledger and the
/// registry.
pub proof fn lemma_swap_settlement_conserves(
    s: State,
    sender: u64,
    asset_in: u32,
    asset_out: u32,
    amount_in: u128,
    amount_out: u128,
    slippage: Option<Error>,
    returned: u128,
)
    requires
        sender != s.config.pallet_account,
        asset_in != asset_out,
        s.pools.contains_key(pair_of(asset_in, asset_out)),
    ensures
        ({
            let outcome = s.swap_settlement(
                sender,
                asset_in,
                asset_out,
                amount_in,
                amount_out,
                slippage,
                returned,
            );
            outcome.1 is Ok ==> {
                let s2 = outcome.0;
                let custodian = s.config.pallet_account;
                let pair = pair_of(asset_in, asset_out);
                let info = s.pools[pair];
                let info2 = s2.pools[pair];
                &&& s2.ledger.balance_of(asset_in, custodian) == s.ledger.balance_of(
                    asset_in,
                    custodian,
                ) + amount_in
                &&& s2.ledger.balance_of(asset_out, custodian) == s.ledger.balance_of(
                    asset_out,
                    custodian,
                ) - amount_out
                &&& s2.ledger.balance_of(asset_in, sender) == s.ledger.balance_of(
                    asset_in,
                    sender,
                ) - amount_in
                &&& s2.ledger.balance_of(asset_out, sender) == s.ledger.balance_of(
                    asset_out,
                    sender,
                ) + amount_out
                &&& if asset_in < asset_out {
                    info2.reserve_a == info.reserve_a + amount_in && info2.reserve_b
                        == info.reserve_b - amount_out
                } else {
                    info2.reserve_a == info.reserve_a - amount_out && info2.reserve_b
                        == info.reserve_b + amount_in
                }
            }
        }),
{
    let custodian = s.config.pallet_account;
    match s.ledger.transfer_result(asset_in, sender, custodian, amount_in, true) {
        Err(_) => {},
        Ok(()) => {
            lemma_transfer_conserves(s.ledger, asset_in, sender, custodian, amount_in);
            let paid_in = s.ledger.transfer_update(asset_in, sender, custodian, amount_in);
            match paid_in.transfer_result(asset_out, custodian, sender, amount_out, true) {
                Err(_) => {},
                Ok(()) => {
                    lemma_transfer_conserves(paid_in, asset_out, custodian, sender, amount_out);
                },
            }
        },
    }
}

/// A successful redemption shrinks the claim token's circulating supply
/// by the full burn amount, fee included: the fee portion is socialized
/// to the remaining holders rather than paid back in reserves.
pub proof fn lemma_remove_liquidity_burns_full_amount(
    s: State,
    sender: u64,
    asset_a: u32,
    asset_b: u32,
    lp_token_burn: u128,
    amount_a_min_receive: u128,
    amount_b_min_receive: u128,
)
    ensures
        ({
            let outcome = s.spec_remove_liquidity(
                sender,
                asset_a,
                asset_b,
                lp_token_burn,
                amount_a_min_receive,
                amount_b_min_receive,
            );
            outcome.1 is Ok ==> {
                let claim = s.pools[pair_of(asset_a, asset_b)].claim_asset;
                outcome.0.ledger.issuance_of(claim) == s.ledger.issuance_of(claim)
                    - lp_token_burn
            }
        }),
{
    if asset_a != asset_b && lp_token_burn != 0 && s.pools.contains_key(
        pair_of(asset_a, asset_b),
    ) {
        let pair = pair_of(asset_a, asset_b);
        let info = s.pools[pair];
        let claim = info.claim_asset;
        let custodian = s.config.pallet_account;
        match s.ledger.burn_result(claim, sender, lp_token_burn) {
            Err(_) => {},
            Ok(()) => {
                let burned = s.ledger.burn_update(claim, sender, lp_token_burn);
                assert(burned.issuance_of(claim) == s.ledger.issuance_of(claim) - lp_token_burn);
                let supply = s.ledger.issuance_of(claim);
                let fee = fee_amount(lp_token_burn as int, s.config.pool_fee_percent as int);
                let net = lp_token_burn - fee;
                match spec_mul_div(net, info.reserve_a as int, supply as int) {
                    Err(_) => {},
                    Ok(amount_a_out) => {
                        match spec_mul_div(net, info.reserve_b as int, supply as int) {
                            Err(_) => {},
                            Ok(amount_b_out) => {
                                match burned.transfer_result(
                                    asset_a,
                                    custodian,
                                    sender,
                                    amount_a_out,
                                    false,
                                ) {
                                    Err(_) => {},
                                    Ok(()) => {
                                        lemma_transfer_update_preserves_issuance(
                                            burned,
                                            asset_a,
                                            custodian,
                                            sender,
                                            amount_a_out,
                                        );
                                        let paid_a = burned.transfer_update(
                                            asset_a,
                                            custodian,
                                            sender,
                                            amount_a_out,
                                        );
                                        match paid_a.transfer_result(
                                            asset_b,
                                            custodian,
                                            sender,
                                            amount_b_out,
                                            false,
                                        ) {
                                            Err(_) => {},
                                            Ok(()) => {
                                                lemma_transfer_update_preserves_issuance(
                                                    paid_a,
                                                    asset_b,
                                                    custodian,
                                                    sender,
                                                    amount_b_out,
                                                );
                                            },
                                        }
                                    },
                                }
                            },
                        }
                    },
                }
            },
        }
    }
}

/// Conservation under a deposit: whatever `do_add_liquidity` returns, the
/// issuance of every asset other than the pool's claim token is
/// unchanged. The deposited assets only move from the sender to the
/// custodian; only claim tokens are minted.
pub proof fn lemma_add_liquidity_preserves_other_issuance(
    s: State,
    sender: u64,
    asset_a: u32,
    asset_b: u32,
    amount_a_desired: u128,
    amount_b_desired: u128,
    amount_a_min: u128,
    amount_b_min: u128,
    mint_to: u64,
)
    ensures
        ({
            let moved = s.spec_add_liquidity(
                sender,
                asset_a,
                asset_b,
                amount_a_desired,
                amount_b_desired,
                amount_a_min,
                amount_b_min,
                mint_to,
            ).0;
            forall|a: u32|
                (!s.pools.contains_key(pair_of(asset_a, asset_b)) || a != s.pools[pair_of(
                    asset_a,
                    asset_b,
                )].claim_asset) ==> #[trigger] moved.ledger.issuance_of(a) == s.ledger.issuance_of(
                    a,
                )
        }),
{
    if asset_a != asset_b && s.pools.contains_key(pair_of(asset_a, asset_b)) {
        let pair = pair_of(asset_a, asset_b);
        let info = s.pools[pair];
        let claim = info.claim_asset;
        let custodian = s.config.pallet_account;
        assert forall|a: u32|
            a != claim implies #[trigger] s.spec_add_liquidity(
            sender,
            asset_a,
            asset_b,
            amount_a_desired,
            amount_b_desired,
            amount_a_min,
            amount_b_min,
            mint_to,
        ).0.ledger.issuance_of(a) == s.ledger.issuance_of(a) by {
            match spec_deposit_amounts(
                info.reserve_a as int,
                info.reserve_b as int,
                amount_a_desired,
                amount_b_desired,
                amount_a_min,
                amount_b_min,
            ) {
                Err(_) => {},
                Ok((amount_a, amount_b)) => {
                    match s.ledger.transfer_result(asset_a, sender, custodian, amount_a, true) {
                        Err(_) => {},
                        Ok(()) => {
                            lemma_transfer_update_preserves_issuance(
                                s.ledger,
                                asset_a,
                                sender,
                                custodian,
                                amount_a,
                            );
                            let funded_a = s.ledger.transfer_update(
                                asset_a,
                                sender,
                                custodian,
                                amount_a,
                            );
                            match funded_a.transfer_result(
                                asset_b,
                                sender,
                                custodian,
                                amount_b,
                                true,
                            ) {
                                Err(_) => {},
                                Ok(()) => {
                                    lemma_transfer_update_preserves_issuance(
                                        funded_a,
                                        asset_b,
                                        sender,
                                        custodian,
                                        amount_b,
                                    );
                                    let funded = funded_a.transfer_update(
                                        asset_b,
                                        sender,
                                        custodian,
                                        amount_b,
                                    );
                                    lemma_mint_burn_touch_only_their_asset(
                                        funded,
                                        claim,
                                        custodian,
                                        s.config.min_liquidity,
                                    );
                                    let locked = funded.mint_update(
                                        claim,
                                        custodian,
                                        s.config.min_liquidity,
                                    );
                                    lemma_mint_burn_touch_only_their_asset(
                                        locked,
                                        claim,
                                        mint_to,
                                        0,
                                    );
                                    assert(forall|lp: u128, w: u64|
                                        a != claim ==> #[trigger] funded.mint_update(
                                            claim,
                                            w,
                                            lp,
                                        ).issuance_of(a) == funded.issuance_of(a));
                                    assert(forall|lp: u128, w: u64|
                                        a != claim ==> #[trigger] locked.mint_update(
                                            claim,
                                            w,
                                            lp,
                                        ).issuance_of(a) == locked.issuance_of(a));
                                },
                            }
                        },
                    }
                },
            }
        }
    }
}

/// Conservation under a redemption: whatever `do_remove_liquidity`
/// returns, the issuance of every asset other than the pool's claim
/// token is unchanged. The redeemed reserves only move from the
/// custodian to the sender; only claim tokens are burned.
pub proof fn lemma_remove_liquidity_preserves_other_issuance(
    s: State,
    sender: u64,
    asset_a: u32,
    asset_b: u32,
    lp_token_burn: u128,
    amount_a_min_receive: u128,
    amount_b_min_receive: u128,
)
    ensures
        ({
            let moved = s.spec_remove_liquidity(
                sender,
                asset_a,
                asset_b,
                lp_token_burn,
                amount_a_min_receive,
                amount_b_min_receive,
            ).0;
            forall|a: u32|
                (!s.pools.contains_key(pair_of(asset_a, asset_b)) || a != s.pools[pair_of(
                    asset_a,
                    asset_b,
                )].claim_asset) ==> #[trigger] moved.ledger.issuance_of(a) == s.ledger.issuance_of(
                    a,
                )
        }),
{
    if asset_a != asset_b && s.pools.contains_key(pair_of(asset_a, asset_b)) {
        let pair = pair_of(asset_a, asset_b);
        let info = s.pools[pair];
        let claim = info.claim_asset;
        let custodian = s.config.pallet_account;
        assert forall|a: u32|
            a != claim implies #[trigger] s.spec_remove_liquidity(
            sender,
            asset_a,
            asset_b,
            lp_token_burn,
            amount_a_min_receive,
            amount_b_min_receive,
        ).0.ledger.issuance_of(a) == s.ledger.issuance_of(a) by {
            match s.ledger.burn_result(claim, sender, lp_token_burn) {
                Err(_) => {},
                Ok(()) => {
                    lemma_mint_burn_touch_only_their_asset(s.ledger, claim, sender, lp_token_burn);
                    let burned = s.ledger.burn_update(claim, sender, lp_token_burn);
                    let supply = s.ledger.issuance_of(claim);
                    let fee = fee_amount(lp_token_burn as int, s.config.pool_fee_percent as int);
                    let net = lp_token_burn - fee;
                    match spec_mul_div(net, info.reserve_a as int, supply as int) {
                        Err(_) => {},
                        Ok(amount_a_out) => {
                            match spec_mul_div(net, info.reserve_b as int, supply as int) {
                                Err(_) => {},
                                Ok(amount_b_out) => {
                                    match burned.transfer_result(
                                        asset_a,
                                        custodian,
                                        sender,
                                        amount_a_out,
                                        false,
                                    ) {
                                        Err(_) => {},
                                        Ok(()) => {
                                            lemma_transfer_update_preserves_issuance(
                                                burned,
                                                asset_a,
                                                custodian,
                                                sender,
                                                amount_a_out,
                                            );
                                            let paid_a = burned.transfer_update(
                                                asset_a,
                                                custodian,
                                                sender,
                                                amount_a_out,
                                            );
                                            match paid_a.transfer_result(
                                                asset_b,
                                                custodian,
                                                sender,
                                                amount_b_out,
                                                false,
                                            ) {
                                                Err(_) => {},
                                                Ok(()) => {
                                                    lemma_transfer_update_preserves_issuance(
                                                        paid_a,
                                                        asset_b,
                                                        custodian,
                                                        sender,
                                                        amount_b_out,
                                                    );
                                                },
                                            }
                                        },
                                    }
                                },
                            }
                        },
                    }
                },
            }
        }
    }
}

} // verus!
