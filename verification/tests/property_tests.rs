//! Concrete checks of the library-wide properties: supply
//! conservation, dense coin ids, stable symbol registration, minimum
//! balance protection, supply caps, permission and event details.

use multicoin::ledger::{Error, Event, Ledger};
use multicoin::types::AccountBalance;

fn test_ledger() -> Ledger {
    Ledger::new(32, 64, 1000, 10, 1_000_000_000_000)
}

// Sums the balances the given accounts hold of one coin.
fn balance_sum(l: &Ledger, coin: u32, accounts: &[u64]) -> u128 {
    accounts.iter().map(|a| l.balance_of(a, coin)).sum()
}

#[test]
fn balances_plus_fee_burn_track_mint_minus_burn() {
    let mut l = test_ledger();
    assert!(l
        .create_coin(1, b"AAA".to_vec(), b"AAA".to_vec(), 18, 10_000, None, None, false, None, true)
        .is_ok());
    assert!(l.set_fee_config(1, 0, 7, 0, false, None).is_ok());
    assert!(l.transfer(1, 0, 2, 1_000, None).is_ok());
    assert!(l.mint(1, 0, 3, 500, None).is_ok());
    assert!(l.burn(1, 0, 200, None).is_ok());
    assert!(l.transfer(2, 0, 3, 100, None).is_ok());

    // cumulative: minted 10_000 + 500, burned 200, fee-burned 2 * 7
    let minted: u128 = 10_500;
    let burned: u128 = 200;
    let fee_burned: u128 = 14;
    let sum = balance_sum(&l, 0, &[1, 2, 3]);
    assert_eq!(sum + fee_burned, minted - burned);
    assert_eq!(l.total_supply_of(0), sum);
}

#[test]
fn coin_ids_are_dense_and_sequential() {
    let mut l = test_ledger();
    for (k, sym) in [b"AAA", b"BBB", b"CCC"].iter().enumerate() {
        assert_eq!(l.next_coin_id(), k as u32);
        assert!(l
            .create_coin(1, sym.to_vec(), sym.to_vec(), 18, 100, None, None, false, None, true)
            .is_ok());
        assert_eq!(l.next_coin_id(), k as u32 + 1);
        assert!(l.get_coin_metadata(k as u32).is_some());
    }
    assert!(l.get_coin_metadata(3).is_none());
}

#[test]
fn symbol_keeps_naming_the_same_coin() {
    let mut l = test_ledger();
    assert!(l
        .create_coin(1, b"BTC".to_vec(), b"Bitcoin".to_vec(), 8, 100, None, None, false, None, true)
        .is_ok());
    assert_eq!(l.get_coin_id_by_symbol(&b"BTC".to_vec()), Some(0));
    assert!(l
        .create_coin(2, b"ETH".to_vec(), b"Ether".to_vec(), 18, 100, None, None, false, None, true)
        .is_ok());
    assert!(l.transfer_ownership(1, 0, 5, None).is_ok());
    assert!(l.set_fee_config(5, 0, 1, 1, true, None).is_ok());
    assert_eq!(l.get_coin_id_by_symbol(&b"BTC".to_vec()), Some(0));
    assert_eq!(l.get_coin_id_by_symbol(&b"ETH".to_vec()), Some(1));
    // a symbol longer than the bound is registered nowhere
    assert_eq!(l.get_coin_id_by_symbol(&vec![65u8; 33]), None);
}

#[test]
fn transfer_respects_minimum_balance() {
    let mut l = test_ledger();
    assert!(l
        .create_coin(1, b"AAA".to_vec(), b"AAA".to_vec(), 18, 1_000, None, None, false, None, true)
        .is_ok());
    assert!(l.set_fee_config(1, 0, 0, 300, false, None).is_ok());
    // 1000 - 701 = 299 < 300
    assert_eq!(l.transfer(1, 0, 2, 701, None), Err(Error::BelowMinimumBalance));
    assert_eq!(l.balance_of(&1, 0), 1_000);
    // 1000 - 700 = 300 is allowed, and the sender stays at the floor
    assert!(l.transfer(1, 0, 2, 700, None).is_ok());
    assert_eq!(l.balance_of(&1, 0), 300);
}

#[test]
fn mint_never_exceeds_max_supply() {
    let mut l = test_ledger();
    assert!(l
        .create_coin(1, b"AAA".to_vec(), b"AAA".to_vec(), 18, 1_000, None, None, false, None, true)
        .is_ok());
    let max_supply: u128 = 1_000_000_000_000;
    assert!(l.mint(1, 0, 1, max_supply - 1_000, None).is_ok());
    assert_eq!(l.total_supply_of(0), max_supply);
    assert_eq!(l.mint(1, 0, 1, 1, None), Err(Error::ExceedsMaxSupply));
    assert_eq!(l.total_supply_of(0), max_supply);
}

#[test]
fn create_coin_grants_listed_minters_and_burners() {
    let mut l = test_ledger();
    let r = l
        .create_coin(
            1,
            b"AAA".to_vec(),
            b"AAA".to_vec(),
            18,
            1_000,
            Some(vec![7, 8]),
            Some(vec![9]),
            false,
            None,
            true,
        )
        .unwrap();
    assert!(l.has_mint_permission(0, &1));
    assert!(l.has_mint_permission(0, &7));
    assert!(l.has_mint_permission(0, &8));
    assert!(!l.has_mint_permission(0, &9));
    assert!(l.has_burn_permission(0, &1));
    assert!(l.has_burn_permission(0, &9));
    assert!(!l.has_burn_permission(0, &7));

    // one notification per listed grant, then the creation notification
    assert_eq!(r.len(), 4);
    assert_eq!(r[0], Event::MintPermissionSet { coin_id: 0, account: 7, can_mint: true });
    assert_eq!(r[1], Event::MintPermissionSet { coin_id: 0, account: 8, can_mint: true });
    assert_eq!(r[2], Event::BurnPermissionSet { coin_id: 0, account: 9, can_burn: true });
    assert!(matches!(r[3], Event::CoinCreated { coin_id: 0, .. }));
}

#[test]
fn transfer_fee_emits_burn_before_transfer() {
    let mut l = test_ledger();
    assert!(l
        .create_coin(1, b"AAA".to_vec(), b"AAA".to_vec(), 18, 1_000, None, None, false, None, true)
        .is_ok());
    assert!(l.set_fee_config(1, 0, 25, 0, false, None).is_ok());
    let events = l.transfer(1, 0, 2, 100, None).unwrap();
    assert_eq!(
        events,
        vec![
            Event::Burned { coin_id: 0, from: 1, amount: 25 },
            Event::Transfer { coin_id: 0, from: 1, to: 2, amount: 100 },
        ]
    );
}

#[test]
fn transfer_ownership_moves_only_mint_grant() {
    let mut l = test_ledger();
    assert!(l
        .create_coin(1, b"AAA".to_vec(), b"AAA".to_vec(), 18, 1_000, None, None, false, None, true)
        .is_ok());
    assert!(l.transfer_ownership(1, 0, 2, None).is_ok());
    assert!(!l.has_mint_permission(0, &1));
    assert!(l.has_mint_permission(0, &2));
    // the old owner keeps the burn grant; the new owner gains none
    assert!(l.has_burn_permission(0, &1));
    assert!(!l.has_burn_permission(0, &2));
}

#[test]
fn set_burn_permission_works() {
    let mut l = test_ledger();
    assert!(l
        .create_coin(1, b"AAA".to_vec(), b"AAA".to_vec(), 18, 1_000, None, None, false, None, true)
        .is_ok());
    assert_eq!(l.set_burn_permission(2, 0, 3, true, None), Err(Error::NotAuthorized));
    let r = l.set_burn_permission(1, 0, 3, true, None).unwrap();
    assert_eq!(r, vec![Event::BurnPermissionSet { coin_id: 0, account: 3, can_burn: true }]);
    assert!(l.has_burn_permission(0, &3));
    // the grantee can burn only what it holds
    assert_eq!(l.burn(3, 0, 10, None), Err(Error::InsufficientBalance));
    assert!(l.transfer(1, 0, 3, 10, None).is_ok());
    assert!(l.burn(3, 0, 10, None).is_ok());
    assert!(l.set_burn_permission(1, 0, 3, false, None).is_ok());
    assert!(!l.has_burn_permission(0, &3));
    assert_eq!(l.burn(3, 0, 1, None), Err(Error::NoBurnPermission));
}

#[test]
fn too_many_coins_is_refused() {
    let mut l = Ledger::new(32, 64, 2, 10, 1_000_000_000_000);
    assert!(l
        .create_coin(1, b"AAA".to_vec(), b"AAA".to_vec(), 18, 10, None, None, false, None, true)
        .is_ok());
    assert!(l
        .create_coin(1, b"BBB".to_vec(), b"BBB".to_vec(), 18, 10, None, None, false, None, true)
        .is_ok());
    assert_eq!(
        l.create_coin(1, b"CCC".to_vec(), b"CCC".to_vec(), 18, 10, None, None, false, None, true),
        Err(Error::TooManyCoins)
    );
}

#[test]
fn long_symbol_and_name_are_refused() {
    let mut l = test_ledger();
    assert_eq!(
        l.create_coin(1, vec![65u8; 33], b"N".to_vec(), 18, 10, None, None, false, None, true),
        Err(Error::SymbolTooLong)
    );
    assert_eq!(
        l.create_coin(1, b"S".to_vec(), vec![65u8; 65], 18, 10, None, None, false, None, true),
        Err(Error::NameTooLong)
    );
}

#[test]
fn transfer_overflow_is_refused() {
    let mut l = Ledger::new(32, 64, 1000, 10, u128::MAX);
    assert!(l
        .create_coin(1, b"AAA".to_vec(), b"AAA".to_vec(), 18, 1_000, None, None, false, None, true)
        .is_ok());
    assert!(l.set_fee_config(1, 0, u128::MAX, 0, false, None).is_ok());
    assert_eq!(l.transfer(1, 0, 2, 1, None), Err(Error::Overflow));
}

#[test]
fn account_balance_helpers_saturate() {
    let b = AccountBalance { free: 70, reserved: 30, frozen: 20 };
    assert_eq!(b.total(), 100);
    assert_eq!(b.usable(), 50);
    let c = AccountBalance { free: u128::MAX, reserved: 5, frozen: 0 };
    assert_eq!(c.total(), u128::MAX);
    let d = AccountBalance { free: 10, reserved: 0, frozen: 50 };
    assert_eq!(d.usable(), 0);
    let e = AccountBalance::default();
    assert_eq!(e.total(), 0);
    assert_eq!(e.usable(), 0);
}
