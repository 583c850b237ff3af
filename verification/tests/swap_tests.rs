use dex::errors::{DispatchError, Error};
use dex::events::Event;
use dex::pallet::{Config, Pallet};

const PALLET_ACCOUNT: u64 = 7777;
const POOL_CREATE_FEE: u128 = 100;
const MIN_LIQUIDITY: u128 = 10;
const MIN_BALANCE: u128 = 10;
const POOL_FEE_PERCENT: u8 = 1;
const NATIVE_MIN_BALANCE: u128 = 1;

fn new_dex() -> Pallet {
    Pallet::new(
        Config {
            pallet_account: PALLET_ACCOUNT,
            pool_create_fee: POOL_CREATE_FEE,
            min_liquidity: MIN_LIQUIDITY,
            min_balance: MIN_BALANCE,
            pool_fee_percent: POOL_FEE_PERCENT,
        },
        NATIVE_MIN_BALANCE,
    )
}

fn create_token(dex: &mut Pallet, asset_id: u32) {
    assert_eq!(dex.ledger.create(asset_id, 1u128), Ok(()));
}

fn get_asset_balance(dex: &Pallet, who: u64, asset_id: u32) -> u128 {
    dex.get_balance(who, asset_id)
}

fn get_events(dex: &Pallet) -> Vec<Event> {
    dex.events().clone()
}

#[test]
fn quote_prices() {
    let mut dex = new_dex();
    let sender = 1u64;
    let asset_a = 1u32;
    let asset_b = 2u32;

    let lp_asset_a = 1234u32;

    create_token(&mut dex, asset_a);
    create_token(&mut dex, asset_b);

    dex.ledger.force_set_native_balance(sender, 10_000u128);

    let min_balance = MIN_BALANCE;
    assert_eq!(dex.ledger.mint_into(asset_a, sender, 100_000u128 + min_balance), Ok(()));
    assert_eq!(dex.ledger.mint_into(asset_b, sender, 1_000u128 + min_balance), Ok(()));

    assert_eq!(dex.create_pool(sender, asset_a, asset_b, lp_asset_a), Ok(()));

    let amount_a_desired = 10_000u128;
    let amount_b_desired = 200u128;
    let amount_a_min = 1u128;
    let amount_b_min = 1u128;

    assert_eq!(
        dex.add_liquidity(
            sender,
            asset_a,
            asset_b,
            amount_a_desired,
            amount_b_desired,
            amount_a_min,
            amount_b_min,
            sender,
        ),
        Ok(())
    );

    assert_eq!(dex.calc_price_exact_asset_for_asset(asset_a, asset_b, 3000), Some(60));

    assert_eq!(dex.calc_price_exact_asset_for_asset(asset_b, asset_a, 3000), Some(60));

    assert_eq!(dex.calc_price_asset_for_exact_asset(asset_a, asset_b, 60), Some(3000));

    assert_eq!(dex.calc_price_asset_for_exact_asset(asset_b, asset_a, 60), Some(3000));

    let amount_in = 100u128;

    assert_eq!(
        dex.calc_price_exact_asset_for_asset(asset_a, asset_b, amount_in)
            .and_then(|amount| dex.calc_price_asset_for_exact_asset(asset_a, asset_b, amount)),
        Some(amount_in)
    );

    assert_eq!(
        dex.calc_price_exact_asset_for_asset(asset_a, asset_b, amount_in)
            .and_then(|amount| dex.calc_price_asset_for_exact_asset(asset_b, asset_a, amount)),
        Some(amount_in)
    );

    assert_eq!(
        dex.calc_price_asset_for_exact_asset(asset_b, asset_a, amount_in)
            .and_then(|amount| dex.calc_price_exact_asset_for_asset(asset_a, asset_b, amount)),
        Some(amount_in)
    );

    assert_eq!(
        dex.calc_price_asset_for_exact_asset(asset_a, asset_b, amount_in)
            .and_then(|amount| dex.calc_price_exact_asset_for_asset(asset_b, asset_a, amount)),
        Some(amount_in)
    );
}

#[test]
fn swap_successfully() {
    let mut dex = new_dex();
    let sender = 1u64;
    let asset_a = 1u32;
    let asset_b = 2u32;

    let lp_asset_a = 1234u32;

    create_token(&mut dex, asset_a);
    create_token(&mut dex, asset_b);

    dex.ledger.force_set_native_balance(sender, 10_000u128);

    assert_eq!(dex.create_pool(sender, asset_a, asset_b, lp_asset_a), Ok(()));

    let min_balance = MIN_BALANCE;
    assert_eq!(dex.ledger.mint_into(asset_a, sender, 10_000u128 + min_balance), Ok(()));
    assert_eq!(dex.ledger.mint_into(asset_b, sender, 1_000u128 + min_balance), Ok(()));

    let liquidity_1 = 10_000u128;
    let liquidity_2 = 200u128;
    let amount_a_min = 1u128;
    let amount_b_min = 1u128;

    assert_eq!(
        dex.add_liquidity(
            sender,
            asset_a,
            asset_b,
            liquidity_1,
            liquidity_2,
            amount_a_min,
            amount_b_min,
            sender,
        ),
        Ok(())
    );

    let amount_in = 100u128;
    let expect_receive = dex.get_amount_out(amount_in, liquidity_2, liquidity_1).ok().unwrap();

    assert_eq!(dex.swap_exact_asset_for_asset(sender, asset_b, asset_a, amount_in, 1), Ok(()));

    assert_eq!(get_asset_balance(&dex, sender, asset_a), expect_receive + min_balance);
    assert_eq!(
        get_asset_balance(&dex, sender, asset_b),
        1_000u128 - liquidity_2 - amount_in + min_balance
    );
    assert_eq!(get_asset_balance(&dex, PALLET_ACCOUNT, asset_a), liquidity_1 - expect_receive);
    assert_eq!(get_asset_balance(&dex, PALLET_ACCOUNT, asset_b), liquidity_2 + amount_in);
}

#[test]
fn swappable_with_real_values() {
    let mut dex = new_dex();
    let sender = 1u64;
    let dot = 1u32;
    let usdt = 2u32;

    let lp_asset_a = 1234u32;

    create_token(&mut dex, dot);
    create_token(&mut dex, usdt);

    let initial_balance = 10_000u128;
    dex.ledger.force_set_native_balance(sender, initial_balance);

    assert_eq!(dex.create_pool(sender, dot, usdt, lp_asset_a), Ok(()));

    const UNIT: u128 = 1_000_000_000;
    let min_balance = MIN_BALANCE;
    assert_eq!(dex.ledger.mint_into(dot, sender, 300_000u128 * UNIT + min_balance), Ok(()));
    assert_eq!(dex.ledger.mint_into(usdt, sender, 1_100_000u128 * UNIT + min_balance), Ok(()));

    let liquidity_dot = 200_000u128 * UNIT;
    let liquidity_usdt = 1_000_000u128 * UNIT;
    let amount_a_min = 1u128;
    let amount_b_min = 1u128;

    assert_eq!(
        dex.add_liquidity(
            sender,
            dot,
            usdt,
            liquidity_dot,
            liquidity_usdt,
            amount_a_min,
            amount_b_min,
            sender,
        ),
        Ok(())
    );

    let amount_in = 10u128 * UNIT;

    assert_eq!(dex.swap_exact_asset_for_asset(sender, usdt, dot, amount_in, 1), Ok(()));

    assert!(get_events(&dex).contains(&Event::Swapped {
        sender,
        asset_in: usdt,
        amount_in,
        asset_out: dot,
        amount_out: 1_979_980_398,
    }));
}

#[test]
fn disallow_swap_in_empty_liquidity_pool() {
    let mut dex = new_dex();
    let sender = 1u64;
    let asset_a = 1u32;
    let asset_b = 2u32;

    create_token(&mut dex, asset_a);
    create_token(&mut dex, asset_b);

    let amount_in = 10u128;

    assert_eq!(
        dex.swap_exact_asset_for_asset(sender, asset_b, asset_a, amount_in, 1),
        Err(DispatchError::Module(Error::PoolNotFound))
    );
}

#[test]
fn prevent_swap_on_high_slippage() {
    let mut dex = new_dex();
    let sender = 1u64;
    let asset_a = 1u32;
    let asset_b = 2u32;

    let lp_asset = 1234u32;

    create_token(&mut dex, asset_a);
    create_token(&mut dex, asset_b);

    let initial_balance = 10_000u128;
    dex.ledger.force_set_native_balance(sender, initial_balance);

    assert_eq!(dex.create_pool(sender, asset_a, asset_b, lp_asset), Ok(()));

    let min_balance = MIN_BALANCE;
    assert_eq!(dex.ledger.mint_into(asset_a, sender, 10_000u128 + min_balance), Ok(()));
    assert_eq!(dex.ledger.mint_into(asset_b, sender, 1_000u128), Ok(()));

    let liquidity_1 = 10_000u128;
    let liquidity_2 = 200u128;
    let amount_a_min = 1u128;
    let amount_b_min = 1u128;

    assert_eq!(
        dex.add_liquidity(
            sender,
            asset_a,
            asset_b,
            liquidity_1,
            liquidity_2,
            amount_a_min,
            amount_b_min,
            sender,
        ),
        Ok(())
    );

    let amount_in = 100u128;

    assert_eq!(
        dex.swap_exact_asset_for_asset(sender, asset_b, asset_a, amount_in, 4000),
        Err(DispatchError::Module(Error::ProvidedMinimumNotSufficientForSwap))
    );
}

#[test]
fn execute_exact_token_swap_as_non_liquidity_provider() {
    let mut dex = new_dex();
    let sender_1 = 1u64;
    let sender_2 = 2u64;
    let asset_a = 1u32;
    let asset_b = 2u32;

    let lp_asset = 1234u32;

    create_token(&mut dex, asset_a);
    create_token(&mut dex, asset_b);

    let initial_balance = 10_000u128;
    dex.ledger.force_set_native_balance(sender_1, initial_balance);
    dex.ledger.force_set_native_balance(sender_2, initial_balance);

    assert_eq!(dex.create_pool(sender_1, asset_a, asset_b, lp_asset), Ok(()));

    let min_balance = MIN_BALANCE;
    assert_eq!(dex.ledger.mint_into(asset_a, sender_1, 10_000u128 + min_balance), Ok(()));
    assert_eq!(dex.ledger.mint_into(asset_a, sender_2, 10_000u128 + min_balance), Ok(()));
    assert_eq!(dex.ledger.mint_into(asset_b, sender_2, 1_000u128), Ok(()));

    let asset_a_balances_before = get_asset_balance(&dex, sender_1, asset_a)
        + get_asset_balance(&dex, sender_2, asset_a)
        + get_asset_balance(&dex, PALLET_ACCOUNT, asset_a);

    let asset_b_balances_before = get_asset_balance(&dex, sender_1, asset_b)
        + get_asset_balance(&dex, sender_2, asset_b)
        + get_asset_balance(&dex, PALLET_ACCOUNT, asset_b);

    let liquidity_1 = 10_000u128;
    let liquidity_2 = 200u128;

    assert_eq!(
        dex.add_liquidity(sender_2, asset_a, asset_b, liquidity_1, liquidity_2, 1, 1, sender_2),
        Ok(())
    );

    assert_eq!(get_asset_balance(&dex, sender_1, asset_a), 10_000u128 + min_balance);
    assert_eq!(get_asset_balance(&dex, sender_1, asset_b), 0);

    let exchange_out = 50u128;
    let expect_in = dex.get_amount_in(exchange_out, liquidity_1, liquidity_2).ok().unwrap();

    assert_eq!(
        dex.swap_asset_for_exact_asset(sender_1, asset_a, asset_b, exchange_out, 3500),
        Ok(())
    );

    assert_eq!(get_asset_balance(&dex, sender_1, asset_a), 10_000u128 + min_balance - expect_in);
    assert_eq!(get_asset_balance(&dex, PALLET_ACCOUNT, asset_a), liquidity_1 + expect_in);
    assert_eq!(get_asset_balance(&dex, sender_1, asset_b), exchange_out);
    assert_eq!(get_asset_balance(&dex, PALLET_ACCOUNT, asset_b), liquidity_2 - exchange_out);

    assert_eq!(
        asset_a_balances_before,
        get_asset_balance(&dex, sender_1, asset_a) + get_asset_balance(&dex, sender_2, asset_a)
            + get_asset_balance(&dex, PALLET_ACCOUNT, asset_a)
    );

    assert_eq!(
        asset_b_balances_before,
        get_asset_balance(&dex, sender_1, asset_b) + get_asset_balance(&dex, sender_2, asset_b)
            + get_asset_balance(&dex, PALLET_ACCOUNT, asset_b)
    );
}

#[test]
fn swap_of_same_asset_not_allowed() {
    let mut dex = new_dex();
    let sender = 1u64;
    let asset_a = 1u32;
    let asset_b = 2u32;

    let lp_asset = 1234u32;

    create_token(&mut dex, asset_a);
    create_token(&mut dex, asset_b);

    let initial_balance = 10_000u128;
    dex.ledger.force_set_native_balance(sender, initial_balance);

    assert_eq!(dex.create_pool(sender, asset_a, asset_b, lp_asset), Ok(()));

    let min_balance = MIN_BALANCE;
    assert_eq!(dex.ledger.mint_into(asset_a, sender, 10_000u128 + min_balance), Ok(()));
    assert_eq!(dex.ledger.mint_into(asset_b, sender, 1_000u128), Ok(()));

    let liquidity_1 = 1000u128;
    let liquidity_2 = 20u128;
    assert_eq!(
        dex.add_liquidity(sender, asset_a, asset_b, liquidity_1, liquidity_2, 1, 1, sender),
        Ok(())
    );

    let amount_in = 10u128;
    assert_eq!(
        dex.swap_exact_asset_for_asset(sender, asset_a, asset_a, amount_in, 1),
        Err(DispatchError::Module(Error::IdenticalAssets))
    );

    assert_eq!(
        dex.swap_exact_asset_for_asset(sender, asset_b, asset_b, amount_in, 1),
        Err(DispatchError::Module(Error::IdenticalAssets))
    );
}
