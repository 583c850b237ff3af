use dex::errors::{DispatchError, Error, TokenError};
use dex::events::Event;
use dex::pair::AssetPair;
use dex::pallet::{Config, Pallet};

const PALLET_ACCOUNT: u64 = 7777;
const POOL_CREATE_FEE: u128 = 100;
const MIN_LIQUIDITY: u128 = 10;
const MIN_BALANCE: u128 = 10;
const POOL_FEE_PERCENT: u8 = 1;
const NATIVE_MIN_BALANCE: u128 = 1;

fn new_dex() -> Pallet {
    Pallet::new(
        Config {
            pallet_account: PALLET_ACCOUNT,
            pool_create_fee: POOL_CREATE_FEE,
            min_liquidity: MIN_LIQUIDITY,
            min_balance: MIN_BALANCE,
            pool_fee_percent: POOL_FEE_PERCENT,
        },
        NATIVE_MIN_BALANCE,
    )
}

fn create_token(dex: &mut Pallet, asset_id: u32) {
    assert_eq!(dex.ledger.create(asset_id, 1u128), Ok(()));
}

fn get_native_balance(dex: &Pallet, who: u64) -> u128 {
    dex.ledger.native_balance(who)
}

fn get_pools(dex: &Pallet) -> Vec<AssetPair> {
    dex.pools.pairs()
}

fn get_assets(dex: &Pallet) -> Vec<u32> {
    let mut s = dex.ledger.asset_ids();
    s.sort();
    s
}

fn get_events(dex: &Pallet) -> Vec<Event> {
    dex.events().clone()
}

#[test]
fn create_pool_successfully() {
    let mut dex = new_dex();
    let creator = 1u64;
    let asset_a = 1u32;
    let asset_b = 2u32;
    let pair = AssetPair::new(asset_a, asset_b).expect("Can create pair");

    create_token(&mut dex, asset_a);
    create_token(&mut dex, asset_b);

    let initial_balance = 1_000u128;
    dex.ledger.force_set_native_balance(creator, initial_balance);

    let lp_asset = 1234u32;
    assert_eq!(dex.create_pool(creator, asset_a, asset_b, lp_asset), Ok(()));

    let fee = 100u128;
    assert_eq!(get_native_balance(&dex, creator), initial_balance - fee);

    let pallet_balance = get_native_balance(&dex, PALLET_ACCOUNT);
    assert_eq!(pallet_balance, fee);

    assert_eq!(
        get_events(&dex),
        vec![Event::PoolCreated { creator, pair, claim_asset: lp_asset }]
    );

    assert_eq!(get_pools(&dex), vec![pair]);
    assert_eq!(get_assets(&dex), vec![asset_a, asset_b, lp_asset]);

    assert_eq!(
        dex.create_pool(creator, asset_a, asset_a, lp_asset),
        Err(DispatchError::Module(Error::IdenticalAssets))
    );

    assert_eq!(
        dex.create_pool(creator, asset_b, asset_b, lp_asset),
        Err(DispatchError::Module(Error::IdenticalAssets))
    );

    let non_existent_asset = 999u32;
    assert_eq!(
        dex.create_pool(creator, non_existent_asset, asset_b, lp_asset),
        Err(DispatchError::Module(Error::AssetNotExists))
    );

    assert_eq!(
        dex.create_pool(creator, asset_a, non_existent_asset, lp_asset),
        Err(DispatchError::Module(Error::AssetNotExists))
    );

    assert_eq!(
        dex.create_pool(creator, asset_a, asset_b, lp_asset),
        Err(DispatchError::Module(Error::PoolExists))
    );

    let asset_c = 3u32;
    create_token(&mut dex, asset_c);

    assert_eq!(
        dex.create_pool(creator, asset_a, asset_c, lp_asset),
        Err(DispatchError::Module(Error::AssetIdAlreadyTaken))
    );
}

#[test]
fn create_pool_twice_failure() {
    let mut dex = new_dex();
    let creator = 1u64;
    let asset_a = 1u32;
    let asset_b = 2u32;
    let pair = AssetPair::new(asset_a, asset_b).expect("Can create pair");

    create_token(&mut dex, asset_a);
    create_token(&mut dex, asset_b);

    let initial_balance = 1_000u128;
    dex.ledger.force_set_native_balance(creator, initial_balance);

    let lp_asset = 1234u32;
    assert_eq!(dex.create_pool(creator, asset_a, asset_b, lp_asset), Ok(()));

    let fee = 100u128;
    assert_eq!(get_native_balance(&dex, creator), initial_balance - fee);

    let pallet_balance = get_native_balance(&dex, PALLET_ACCOUNT);
    assert_eq!(pallet_balance, fee);

    assert_eq!(
        get_events(&dex),
        vec![Event::PoolCreated { creator, pair, claim_asset: lp_asset }]
    );

    assert_eq!(
        dex.create_pool(creator, asset_a, asset_b, lp_asset),
        Err(DispatchError::Module(Error::PoolExists))
    );

    assert_eq!(get_pools(&dex), vec![pair]);
    assert_eq!(get_assets(&dex), vec![asset_a, asset_b, lp_asset]);
}

#[test]
fn different_pools_should_have_different_lp_assets() {
    let mut dex = new_dex();
    let creator = 1u64;
    let asset_a = 1u32;
    let asset_b = 2u32;
    let asset_c = 3u32;
    let pair_1 = AssetPair::new(asset_a, asset_b).expect("Can create pair");
    let pair_2 = AssetPair::new(asset_a, asset_c).expect("Can create pair");

    create_token(&mut dex, asset_a);
    create_token(&mut dex, asset_b);
    create_token(&mut dex, asset_c);

    dex.ledger.force_set_native_balance(creator, 1_000u128);

    let lp_asset_a = 1234u32;
    assert_eq!(dex.create_pool(creator, asset_a, asset_b, lp_asset_a), Ok(()));

    let lp_asset_b = 4321u32;
    assert_eq!(dex.create_pool(creator, asset_a, asset_c, lp_asset_b), Ok(()));

    assert_eq!(
        get_events(&dex),
        vec![
            Event::PoolCreated { creator, pair: pair_1, claim_asset: lp_asset_a },
            Event::PoolCreated { creator, pair: pair_2, claim_asset: lp_asset_b },
        ]
    );
}

#[test]
fn create_pool_fails_when_creator_cannot_pay_the_fee() {
    let mut dex = new_dex();
    let creator = 1u64;
    create_token(&mut dex, 1);
    create_token(&mut dex, 2);
    // The fee is 100 and the creator must stay above the native minimum.
    dex.ledger.force_set_native_balance(creator, 99);
    assert_eq!(
        dex.create_pool(creator, 1, 2, 1234),
        Err(DispatchError::Token(TokenError::FundsUnavailable))
    );
    // Nothing happened: no pool, no claim token, no fee moved, no event.
    assert_eq!(get_pools(&dex), vec![]);
    assert_eq!(get_assets(&dex), vec![1, 2]);
    assert_eq!(get_native_balance(&dex, creator), 99);
    assert_eq!(get_native_balance(&dex, PALLET_ACCOUNT), 0);
    assert_eq!(get_events(&dex), vec![]);
}

#[test]
fn failed_deposit_leaves_every_balance_untouched() {
    let mut dex = new_dex();
    let sender = 1u64;
    create_token(&mut dex, 1);
    create_token(&mut dex, 2);
    dex.ledger.force_set_native_balance(sender, 1_000);
    assert_eq!(dex.create_pool(sender, 1, 2, 1234), Ok(()));
    assert_eq!(dex.ledger.mint_into(1, sender, 500), Ok(()));
    assert_eq!(dex.ledger.mint_into(2, sender, 500), Ok(()));
    // The first transfer would succeed, but the second asset's balance
    // cannot cover the deposit: the whole operation must back out.
    assert_eq!(
        dex.add_liquidity(sender, 1, 2, 400, 501, 1, 1, sender),
        Err(DispatchError::Token(TokenError::FundsUnavailable))
    );
    assert_eq!(dex.get_balance(sender, 1), 500);
    assert_eq!(dex.get_balance(sender, 2), 500);
    assert_eq!(dex.get_balance(PALLET_ACCOUNT, 1), 0);
    assert_eq!(dex.get_balance(PALLET_ACCOUNT, 2), 0);
    assert_eq!(dex.total_issuance(1234), 0);
    assert_eq!(dex.get_reserves(1, 2), Ok((0, 0)));
}
