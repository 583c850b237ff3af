use dex::errors::TokenError;
use dex::ledger::Ledger;

#[test]
fn transfer_moves_exactly_what_the_payer_loses() {
    let mut l = Ledger::new(1);
    assert_eq!(l.create(1, 1), Ok(()));
    assert_eq!(l.mint_into(1, 10, 500), Ok(()));
    assert_eq!(l.transfer(1, 10, 20, 120, true), Ok(()));
    assert_eq!(l.reducible_balance(1, 10), 380);
    assert_eq!(l.reducible_balance(1, 20), 120);
    assert_eq!(l.total_issuance(1), 500);
}

#[test]
fn transfer_fails_without_funds_and_changes_nothing() {
    let mut l = Ledger::new(1);
    assert_eq!(l.create(1, 1), Ok(()));
    assert_eq!(l.mint_into(1, 10, 100), Ok(()));
    assert_eq!(l.transfer(1, 10, 20, 101, false), Err(TokenError::FundsUnavailable));
    assert_eq!(l.transfer(2, 10, 20, 1, false), Err(TokenError::UnknownAsset));
    assert_eq!(l.reducible_balance(1, 10), 100);
    assert_eq!(l.reducible_balance(1, 20), 0);
    assert_eq!(l.total_issuance(1), 100);
}

#[test]
fn preserving_transfer_keeps_the_payer_above_the_minimum() {
    let mut l = Ledger::new(1);
    assert_eq!(l.create(1, 25), Ok(()));
    assert_eq!(l.mint_into(1, 10, 100), Ok(()));
    // Keeping the account alive demands 25 left behind.
    assert_eq!(l.transfer(1, 10, 20, 80, true), Err(TokenError::FundsUnavailable));
    assert_eq!(l.transfer(1, 10, 20, 75, true), Ok(()));
    assert_eq!(l.reducible_balance(1, 10), 25);
    // An expendable transfer may drain the account completely.
    assert_eq!(l.transfer(1, 10, 20, 25, false), Ok(()));
    assert_eq!(l.reducible_balance(1, 10), 0);
}

#[test]
fn mint_and_burn_move_issuance_with_the_balance() {
    let mut l = Ledger::new(1);
    assert_eq!(l.create(9, 1), Ok(()));
    assert_eq!(l.create(9, 1), Err(TokenError::InUse));
    assert_eq!(l.mint_into(9, 10, 300), Ok(()));
    assert_eq!(l.mint_into(9, 11, 40), Ok(()));
    assert_eq!(l.total_issuance(9), 340);
    assert_eq!(l.burn_from(9, 10, 50), Ok(()));
    assert_eq!(l.total_issuance(9), 290);
    assert_eq!(l.reducible_balance(9, 10), 250);
    // Burning more than the account holds burns nothing.
    assert_eq!(l.burn_from(9, 11, 41), Err(TokenError::FundsUnavailable));
    assert_eq!(l.reducible_balance(9, 11), 40);
    assert_eq!(l.total_issuance(9), 290);
    assert_eq!(l.burn_from(8, 10, 1), Err(TokenError::UnknownAsset));
    assert_eq!(l.mint_into(8, 10, 1), Err(TokenError::UnknownAsset));
}

#[test]
fn mint_overflow_is_rejected() {
    let mut l = Ledger::new(1);
    assert_eq!(l.create(1, 1), Ok(()));
    assert_eq!(l.mint_into(1, 10, u128::MAX), Ok(()));
    assert_eq!(l.mint_into(1, 11, 1), Err(TokenError::Overflow));
    assert_eq!(l.total_issuance(1), u128::MAX);
}

#[test]
fn ledger_reports_existence_and_minimum_balance() {
    let mut l = Ledger::new(1);
    assert!(!l.asset_exists(3));
    assert_eq!(l.create(3, 17), Ok(()));
    assert!(l.asset_exists(3));
    assert_eq!(l.minimum_balance(3), 17);
    assert_eq!(l.minimum_balance(4), 0);
    assert_eq!(l.total_issuance(3), 0);
    assert_eq!(l.asset_ids(), vec![3]);
}

#[test]
fn native_balances_follow_the_same_rules() {
    let mut l = Ledger::new(5);
    l.force_set_native_balance(10, 100);
    assert_eq!(l.native_balance(10), 100);
    // Keeping the payer alive demands the native minimum of 5.
    assert_eq!(l.native_transfer(10, 20, 96, true), Err(TokenError::FundsUnavailable));
    assert_eq!(l.native_transfer(10, 20, 95, true), Ok(()));
    assert_eq!(l.native_balance(10), 5);
    assert_eq!(l.native_balance(20), 95);
    assert_eq!(l.native_transfer(10, 20, 6, false), Err(TokenError::FundsUnavailable));
}
