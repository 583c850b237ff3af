use dex::errors::{DispatchError, Error, TokenError};
use dex::events::Event;
use dex::pair::AssetPair;
use dex::pallet::{Config, Pallet};

const PALLET_ACCOUNT: u64 = 7777;
const POOL_CREATE_FEE: u128 = 100;
const MIN_LIQUIDITY: u128 = 10;
const MIN_BALANCE: u128 = 10;
const POOL_FEE_PERCENT: u8 = 1;
const NATIVE_MIN_BALANCE: u128 = 1;

fn new_dex() -> Pallet {
    Pallet::new(
        Config {
            pallet_account: PALLET_ACCOUNT,
            pool_create_fee: POOL_CREATE_FEE,
            min_liquidity: MIN_LIQUIDITY,
            min_balance: MIN_BALANCE,
            pool_fee_percent: POOL_FEE_PERCENT,
        },
        NATIVE_MIN_BALANCE,
    )
}

fn create_token(dex: &mut Pallet, asset_id: u32) {
    assert_eq!(dex.ledger.create(asset_id, 1u128), Ok(()));
}

fn get_asset_balance(dex: &Pallet, who: u64, asset_id: u32) -> u128 {
    dex.get_balance(who, asset_id)
}

fn get_events(dex: &Pallet) -> Vec<Event> {
    dex.events().clone()
}

#[test]
fn add_liqudity_sucessfully() {
    let mut dex = new_dex();
    let sender = 1u64;
    let asset_a = 1u32;
    let asset_b = 2u32;
    let asset_c = 3u32;

    let lp_asset_a = 1234u32;
    let lp_asset_b = 4321u32;

    create_token(&mut dex, asset_a);
    create_token(&mut dex, asset_b);
    create_token(&mut dex, asset_c);

    dex.ledger.force_set_native_balance(sender, 1_000_000u128);

    assert_eq!(dex.create_pool(sender, asset_a, asset_b, lp_asset_a), Ok(()));
    assert_eq!(dex.create_pool(sender, asset_a, asset_c, lp_asset_b), Ok(()));

    let initial_balance = 100_000u128;
    let min_balance = MIN_BALANCE;
    assert_eq!(dex.ledger.mint_into(asset_a, sender, initial_balance + min_balance), Ok(()));
    assert_eq!(dex.ledger.mint_into(asset_b, sender, initial_balance + min_balance), Ok(()));

    assert_eq!(
        dex.add_liquidity(sender, asset_a, asset_b, 10_000u128, 10u128, 10_000u128, 10u128, sender),
        Ok(())
    );

    let pair_1 = AssetPair::new(asset_a, asset_b).expect("Can create pair");

    assert!(get_events(&dex).contains(&Event::LiquidityAdded {
        sender,
        pair: pair_1,
        claim_asset: lp_asset_a,
        amount_a: 10_000u128,
        amount_b: 10u128,
        minted: 306u128,
    }));

    assert_eq!(get_asset_balance(&dex, PALLET_ACCOUNT, asset_a), 10_000u128);
    assert_eq!(get_asset_balance(&dex, PALLET_ACCOUNT, asset_b), 10u128);
    assert_eq!(get_asset_balance(&dex, sender, asset_a), 90000u128 + 10u128);
    assert_eq!(get_asset_balance(&dex, sender, asset_b), 100_000u128);
    assert_eq!(get_asset_balance(&dex, sender, lp_asset_a), 306u128);
}

#[test]
fn add_tiny_liquidity_leads_to_insufficient_liquidity_error() {
    let mut dex = new_dex();
    let sender = 1u64;
    let asset_a = 1u32;
    let asset_b = 2u32;
    let lp_asset_a = 1234u32;

    create_token(&mut dex, asset_a);
    create_token(&mut dex, asset_b);

    dex.ledger.force_set_native_balance(sender, 1_000_000u128);

    assert_eq!(dex.create_pool(sender, asset_a, asset_b, lp_asset_a), Ok(()));

    let initial_balance = 100_000u128;
    let min_balance = MIN_BALANCE;
    assert_eq!(dex.ledger.mint_into(asset_a, sender, initial_balance + min_balance), Ok(()));
    assert_eq!(dex.ledger.mint_into(asset_b, sender, initial_balance + min_balance), Ok(()));

    assert_eq!(
        dex.add_liquidity(sender, asset_a, asset_b, 0, 1, 1, 1, sender),
        Err(DispatchError::Module(Error::InvalidDesiredAmount))
    );

    assert_eq!(
        dex.add_liquidity(sender, asset_a, asset_b, 1, 1, 1, 1, sender),
        Err(DispatchError::Module(Error::InsufficientLiquidity))
    );
}

#[test]
fn add_tiny_liquidity_directly_to_pool_address() {
    let mut dex = new_dex();
    let sender = 1u64;
    let asset_a = 1u32;
    let asset_b = 2u32;
    let asset_c = 3u32;
    let lp_asset_a = 1234u32;
    let lp_asset_b = 4321u32;

    create_token(&mut dex, asset_a);
    create_token(&mut dex, asset_b);
    create_token(&mut dex, asset_c);

    dex.ledger.force_set_native_balance(sender, 1_000_000u128);

    assert_eq!(dex.create_pool(sender, asset_a, asset_b, lp_asset_a), Ok(()));
    assert_eq!(dex.create_pool(sender, asset_a, asset_c, lp_asset_b), Ok(()));

    let initial_balance = 100_000u128;
    let min_balance = MIN_BALANCE;
    assert_eq!(dex.ledger.mint_into(asset_a, sender, initial_balance + min_balance), Ok(()));
    assert_eq!(dex.ledger.mint_into(asset_b, sender, initial_balance + min_balance), Ok(()));
    assert_eq!(dex.ledger.mint_into(asset_c, sender, initial_balance + min_balance), Ok(()));

    dex.ledger.force_set_native_balance(PALLET_ACCOUNT, initial_balance);

    assert_eq!(
        dex.add_liquidity(sender, asset_a, asset_b, 10000, 10, 10000, 10, sender),
        Ok(())
    );

    assert_eq!(
        dex.add_liquidity(sender, asset_a, asset_c, 10000, 10, 10000, 10, sender),
        Ok(())
    );
}

#[test]
fn remove_liquidity_sucessfully() {
    let mut dex = new_dex();
    let sender = 1u64;
    let asset_a = 1u32;
    let asset_b = 2u32;

    let lp_asset_a = 1234u32;

    create_token(&mut dex, asset_a);
    create_token(&mut dex, asset_b);

    dex.ledger.force_set_native_balance(sender, 1_000_000u128);

    assert_eq!(dex.create_pool(sender, asset_a, asset_b, lp_asset_a), Ok(()));

    let initial_balance = 100_000u128;
    let min_balance = MIN_BALANCE;
    assert_eq!(dex.ledger.mint_into(asset_a, sender, initial_balance + min_balance), Ok(()));
    assert_eq!(dex.ledger.mint_into(asset_b, sender, initial_balance + min_balance), Ok(()));

    let amount_a_desired = 100_000u128;
    let amount_b_desired = 10_000u128;
    let amount_a_min = 100_000u128;
    let amount_b_min = 10_000u128;

    assert_eq!(
        dex.add_liquidity(
            sender,
            asset_a,
            asset_b,
            amount_a_desired,
            amount_b_desired,
            amount_a_min,
            amount_b_min,
            sender,
        ),
        Ok(())
    );

    assert_eq!(get_asset_balance(&dex, PALLET_ACCOUNT, asset_a), 100_000u128);
    assert_eq!(get_asset_balance(&dex, PALLET_ACCOUNT, asset_b), 10_000u128);
    assert_eq!(get_asset_balance(&dex, PALLET_ACCOUNT, lp_asset_a), 10);

    let sender_lp_asset_balance = get_asset_balance(&dex, sender, lp_asset_a);

    assert_eq!(
        dex.remove_liquidity(sender, asset_a, asset_b, sender_lp_asset_balance, 0, 0),
        Ok(())
    );

    let pair_1 = AssetPair::new(asset_a, asset_b).expect("Can create pair");

    let liqudity_removed_a = 98969u128;
    let liqudity_removed_b = 9896u128;

    let removal_fee = dex.pool_fee(sender_lp_asset_balance);

    assert!(get_events(&dex).contains(&Event::LiquidityRemoved {
        sender,
        pair: pair_1,
        claim_asset: lp_asset_a,
        amount_a: liqudity_removed_a,
        amount_b: liqudity_removed_b,
        burned: sender_lp_asset_balance,
        fee: removal_fee,
    }));

    assert_eq!(get_asset_balance(&dex, PALLET_ACCOUNT, asset_a), 1031);
    assert_eq!(get_asset_balance(&dex, PALLET_ACCOUNT, asset_b), 104);
    assert_eq!(get_asset_balance(&dex, PALLET_ACCOUNT, lp_asset_a), 10);

    assert_eq!(
        get_asset_balance(&dex, sender, asset_a),
        initial_balance - amount_a_desired + liqudity_removed_a + min_balance
    );
    assert_eq!(
        get_asset_balance(&dex, sender, asset_b),
        initial_balance - amount_b_desired + liqudity_removed_b + min_balance
    );

    assert_eq!(get_asset_balance(&dex, sender, lp_asset_a), 0);
}

#[test]
fn can_not_redeem_more_lp_tokens_than_were_minted() {
    let mut dex = new_dex();
    let sender = 1u64;
    let asset_a = 1u32;
    let asset_b = 2u32;

    let lp_asset_a = 1234u32;

    create_token(&mut dex, asset_a);
    create_token(&mut dex, asset_b);

    dex.ledger.force_set_native_balance(sender, 10_000u128);

    assert_eq!(dex.create_pool(sender, asset_a, asset_b, lp_asset_a), Ok(()));

    let initial_balance = 10_000u128;
    let min_balance = MIN_BALANCE;
    assert_eq!(dex.ledger.mint_into(asset_a, sender, initial_balance + min_balance), Ok(()));
    assert_eq!(dex.ledger.mint_into(asset_b, sender, initial_balance + min_balance), Ok(()));

    let amount_a_desired = 1_000u128;
    let amount_b_desired = 100u128;
    let amount_a_min = 1_000u128;
    let amount_b_min = 100u128;

    assert_eq!(
        dex.add_liquidity(
            sender,
            asset_a,
            asset_b,
            amount_a_desired,
            amount_b_desired,
            amount_a_min,
            amount_b_min,
            sender,
        ),
        Ok(())
    );

    let minted_lp_amount = 306u128;
    assert_eq!(get_asset_balance(&dex, sender, lp_asset_a), minted_lp_amount);

    assert_eq!(
        dex.remove_liquidity(sender, asset_a, asset_b, minted_lp_amount + 1, 0, 0),
        Err(DispatchError::Token(TokenError::FundsUnavailable))
    );
}
