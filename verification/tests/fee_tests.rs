//! Fee settlement tests: resolution of the fee asset, charging,
//! refunding, and the fee-coin pre-check on ledger operations.

use multicoin::fees::{FeeError, FeeReceipt, NativeRefund};
use multicoin::ledger::{Error, Ledger};

fn test_ledger() -> Ledger {
    Ledger::new(32, 64, 1000, 10, 1_000_000_000_000)
}

// Creates a fee-eligible coin with supply 1000 owned by `creator`.
fn create_fee_coin(l: &mut Ledger, creator: u64, symbol: &str) -> u32 {
    l.create_coin(
        creator,
        symbol.as_bytes().to_vec(),
        symbol.as_bytes().to_vec(),
        18,
        1000,
        None,
        None,
        true,
        None,
        true,
    )
    .unwrap();
    l.next_coin_id() - 1
}

#[test]
fn determine_fee_coin_prefers_explicit_choice() {
    let mut l = test_ledger();
    let c0 = create_fee_coin(&mut l, 1, "AAA");
    let c1 = create_fee_coin(&mut l, 1, "BBB");
    assert!(l.set_preferred_fee_coin(1, Some(c0), None).is_ok());
    assert_eq!(l.determine_fee_coin(Some(c1), 1), Some(c1));
    assert_eq!(l.determine_fee_coin(None, 1), Some(c0));
    assert_eq!(l.determine_fee_coin(None, 2), None);
}

#[test]
fn can_withdraw_fee_native_asset() {
    let l = test_ledger();
    assert_eq!(l.can_withdraw_fee(1, None, 50, 100), Ok(()));
    assert_eq!(l.can_withdraw_fee(1, None, 200, 100), Err(FeeError::Payment));
}

#[test]
fn can_withdraw_fee_ledger_coin() {
    let mut l = test_ledger();
    let c0 = create_fee_coin(&mut l, 1, "AAA");
    assert_eq!(l.can_withdraw_fee(1, Some(c0), 500, 0), Ok(()));
    assert_eq!(l.can_withdraw_fee(1, Some(c0), 5000, 0), Err(FeeError::Payment));
    // unknown coin
    assert_eq!(l.can_withdraw_fee(1, Some(99), 1, 0), Err(FeeError::Payment));
}

#[test]
fn can_withdraw_fee_rejects_ineligible_coin() {
    let mut l = test_ledger();
    assert!(l
        .create_coin(1, b"CCC".to_vec(), b"CCC".to_vec(), 18, 1000, None, None, false, None, true)
        .is_ok());
    assert_eq!(l.can_withdraw_fee(1, Some(0), 1, 0), Err(FeeError::Payment));
}

#[test]
fn withdraw_fee_destroys_ledger_charge() {
    let mut l = test_ledger();
    let c0 = create_fee_coin(&mut l, 1, "AAA");
    let receipt = l.withdraw_fee(1, Some(c0), 100, 0).unwrap();
    assert_eq!(receipt, FeeReceipt { payer: 1, fee_coin: Some(c0), amount: 100 });
    assert_eq!(l.balance_of(&1, c0), 900);
    assert_eq!(l.total_supply_of(c0), 900);
}

#[test]
fn withdraw_fee_native_leaves_ledger_untouched() {
    let mut l = test_ledger();
    let receipt = l.withdraw_fee(1, None, 30, 100).unwrap();
    assert_eq!(receipt, FeeReceipt { payer: 1, fee_coin: None, amount: 30 });
    assert_eq!(l.withdraw_fee(1, None, 200, 100), Err(FeeError::Payment));
}

#[test]
fn withdraw_fee_uses_preferred_coin() {
    let mut l = test_ledger();
    let c0 = create_fee_coin(&mut l, 1, "AAA");
    assert!(l.set_preferred_fee_coin(1, Some(c0), None).is_ok());
    let receipt = l.withdraw_fee(1, None, 40, 0).unwrap();
    assert_eq!(receipt.fee_coin, Some(c0));
    assert_eq!(l.balance_of(&1, c0), 960);
}

#[test]
fn correct_and_deposit_fee_refunds_ledger_coin() {
    let mut l = test_ledger();
    let c0 = create_fee_coin(&mut l, 1, "AAA");
    let receipt = l.withdraw_fee(1, Some(c0), 100, 0).unwrap();
    let refund = l.correct_and_deposit_fee(Some(receipt), 30).unwrap();
    assert_eq!(refund, None);
    assert_eq!(l.balance_of(&1, c0), 970);
    assert_eq!(l.total_supply_of(c0), 970);
}

#[test]
fn correct_and_deposit_fee_directs_native_refund() {
    let mut l = test_ledger();
    let receipt = l.withdraw_fee(7, None, 100, 500).unwrap();
    let refund = l.correct_and_deposit_fee(Some(receipt), 60).unwrap();
    assert_eq!(refund, Some(NativeRefund { account: 7, amount: 40 }));
}

#[test]
fn correct_and_deposit_fee_without_overcharge_refunds_nothing() {
    let mut l = test_ledger();
    let c0 = create_fee_coin(&mut l, 1, "AAA");
    let receipt = l.withdraw_fee(1, Some(c0), 100, 0).unwrap();
    assert_eq!(l.correct_and_deposit_fee(Some(receipt), 100), Ok(None));
    assert_eq!(l.correct_and_deposit_fee(None, 5), Ok(None));
    assert_eq!(l.balance_of(&1, c0), 900);
}

#[test]
fn tx_fee_coin_precheck_guards_operations() {
    let mut l = test_ledger();
    let c0 = create_fee_coin(&mut l, 1, "AAA");
    // an override naming a missing coin fails every operation up front
    assert_eq!(l.mint(1, c0, 2, 10, Some(99)), Err(Error::CoinNotFound));
    // a non-eligible coin is refused as fee coin
    assert!(l
        .create_coin(1, b"NOF".to_vec(), b"NOF".to_vec(), 18, 1000, None, None, false, None, true)
        .is_ok());
    let plain = l.next_coin_id() - 1;
    assert_eq!(l.mint(1, c0, 2, 10, Some(plain)), Err(Error::CannotPayFees));
    // an eligible override lets the operation through
    assert!(l.mint(1, c0, 2, 10, Some(c0)).is_ok());
    // the pre-check takes no charge by itself
    assert_eq!(l.balance_of(&1, c0), 1000);
}

#[test]
fn set_preferred_fee_coin_requires_eligibility() {
    let mut l = test_ledger();
    assert!(l
        .create_coin(1, b"NOF".to_vec(), b"NOF".to_vec(), 18, 1000, None, None, false, None, true)
        .is_ok());
    assert_eq!(l.set_preferred_fee_coin(1, Some(0), None), Err(Error::CannotPayFees));
    assert_eq!(l.set_preferred_fee_coin(1, Some(42), None), Err(Error::CoinNotFound));
    let c1 = create_fee_coin(&mut l, 1, "AAA");
    assert!(l.set_preferred_fee_coin(1, Some(c1), None).is_ok());
    assert_eq!(l.get_preferred_fee_coin(&1), Some(c1));
    assert!(l.set_preferred_fee_coin(1, None, None).is_ok());
    assert_eq!(l.get_preferred_fee_coin(&1), None);
}
