//! Ledger operation tests: coin creation, transfers, minting, burning,
//! ownership and permission management.

use multicoin::ledger::{Error, Event, Ledger};

// Host-chosen limits used throughout the tests: symbol bound 32, name
// bound 64, at most 1000 coins, creation deposit 10, maximum supply
// 1_000_000_000_000.
fn test_ledger() -> Ledger {
    Ledger::new(32, 64, 1000, 10, 1_000_000_000_000)
}

// Creates a coin with 18 decimals and initial supply 1000, reporting
// the id it got.  Accounts 1..=3 hold enough native funds for the
// creation deposit, so the host's reservation succeeds for them.
fn create_test_coin(l: &mut Ledger, creator: u64, symbol: &str, name: &str) -> u32 {
    l.create_coin(
        creator,
        symbol.as_bytes().to_vec(),
        name.as_bytes().to_vec(),
        18,
        1000,
        None,
        None,
        false,
        None,
        true,
    )
    .unwrap();
    l.next_coin_id() - 1
}

#[test]
fn create_coin_works() {
    let mut l = test_ledger();
    let r = l.create_coin(
        1,
        b"BTC".to_vec(),
        b"Bitcoin".to_vec(),
        8,
        21_000_000,
        None,
        None,
        false,
        None,
        true,
    );
    assert!(r.is_ok());

    let coin_id = 0;
    let metadata = l.get_coin_metadata(coin_id).unwrap();
    assert_eq!(metadata.symbol.to_vec(), b"BTC".to_vec());
    assert_eq!(metadata.name.to_vec(), b"Bitcoin".to_vec());
    assert_eq!(metadata.decimals, 8);
    assert_eq!(metadata.owner, 1);

    assert_eq!(l.balance_of(&1, coin_id), 21_000_000);
    assert_eq!(l.total_supply_of(coin_id), 21_000_000);

    assert_eq!(l.get_coin_id_by_symbol(&b"BTC".to_vec()), Some(coin_id));
    assert!(l.has_mint_permission(coin_id, &1));
    assert_eq!(l.next_coin_id(), 1);

    let events = r.unwrap();
    assert_eq!(
        events.last(),
        Some(&Event::CoinCreated {
            coin_id,
            symbol: b"BTC".to_vec(),
            name: b"Bitcoin".to_vec(),
            creator: 1,
            initial_supply: 21_000_000,
        })
    );
}

#[test]
fn create_coin_fails_with_duplicate_symbol() {
    let mut l = test_ledger();
    assert!(l
        .create_coin(1, b"BTC".to_vec(), b"Bitcoin".to_vec(), 8, 21_000_000, None, None, false, None, true)
        .is_ok());
    let r = l.create_coin(
        2,
        b"BTC".to_vec(),
        b"Bitcoin Cash".to_vec(),
        8,
        21_000_000,
        None,
        None,
        false,
        None,
        true,
    );
    assert_eq!(r, Err(Error::SymbolAlreadyExists));
}

#[test]
fn create_coin_fails_with_zero_supply() {
    let mut l = test_ledger();
    let r = l.create_coin(
        1,
        b"ZERO".to_vec(),
        b"Zero Coin".to_vec(),
        18,
        0,
        None,
        None,
        false,
        None,
        true,
    );
    assert_eq!(r, Err(Error::ZeroAmount));
}

#[test]
fn create_coin_fails_with_exceeding_max_supply() {
    let mut l = test_ledger();
    let max_supply: u128 = 1_000_000_000_000;
    let r = l.create_coin(
        1,
        b"BIG".to_vec(),
        b"Big Coin".to_vec(),
        18,
        max_supply + 1,
        None,
        None,
        false,
        None,
        true,
    );
    assert_eq!(r, Err(Error::ExceedsMaxSupply));
}

#[test]
fn transfer_works() {
    let mut l = test_ledger();
    let coin_id = create_test_coin(&mut l, 1, "TEST", "Test Coin");
    let r = l.transfer(1, coin_id, 2, 100, None);
    assert!(r.is_ok());

    assert_eq!(l.balance_of(&1, coin_id), 900);
    assert_eq!(l.balance_of(&2, coin_id), 100);

    let events = r.unwrap();
    assert_eq!(
        events.last(),
        Some(&Event::Transfer { coin_id, from: 1, to: 2, amount: 100 })
    );
}

#[test]
fn transfer_fails_with_insufficient_balance() {
    let mut l = test_ledger();
    let coin_id = create_test_coin(&mut l, 1, "TEST", "Test Coin");
    let r = l.transfer(1, coin_id, 2, 2000, None);
    assert_eq!(r, Err(Error::InsufficientBalance));
    assert_eq!(l.balance_of(&1, coin_id), 1000);
}

#[test]
fn transfer_fails_with_nonexistent_coin() {
    let mut l = test_ledger();
    let r = l.transfer(1, 999, 2, 100, None);
    assert_eq!(r, Err(Error::CoinNotFound));
}

#[test]
fn transfer_fails_to_self() {
    let mut l = test_ledger();
    let coin_id = create_test_coin(&mut l, 1, "TEST", "Test Coin");
    let r = l.transfer(1, coin_id, 1, 100, None);
    assert_eq!(r, Err(Error::TransferToSelf));
}

#[test]
fn transfer_fails_with_zero_amount() {
    let mut l = test_ledger();
    let coin_id = create_test_coin(&mut l, 1, "TEST", "Test Coin");
    let r = l.transfer(1, coin_id, 2, 0, None);
    assert_eq!(r, Err(Error::ZeroAmount));
}

#[test]
fn mint_works() {
    let mut l = test_ledger();
    let coin_id = create_test_coin(&mut l, 1, "TEST", "Test Coin");
    let r = l.mint(1, coin_id, 2, 500, None);
    assert!(r.is_ok());

    assert_eq!(l.balance_of(&2, coin_id), 500);
    assert_eq!(l.total_supply_of(coin_id), 1500);

    let events = r.unwrap();
    assert_eq!(events.last(), Some(&Event::Minted { coin_id, to: 2, amount: 500 }));
}

#[test]
fn mint_fails_without_permission() {
    let mut l = test_ledger();
    let coin_id = create_test_coin(&mut l, 1, "TEST", "Test Coin");
    let r = l.mint(2, coin_id, 2, 500, None);
    assert_eq!(r, Err(Error::NoMintPermission));
    assert_eq!(l.balance_of(&2, coin_id), 0);
}

#[test]
fn burn_works() {
    let mut l = test_ledger();
    let coin_id = create_test_coin(&mut l, 1, "TEST", "Test Coin");
    let r = l.burn(1, coin_id, 200, None);
    assert!(r.is_ok());

    assert_eq!(l.balance_of(&1, coin_id), 800);
    assert_eq!(l.total_supply_of(coin_id), 800);

    let events = r.unwrap();
    assert_eq!(events.last(), Some(&Event::Burned { coin_id, from: 1, amount: 200 }));
}

#[test]
fn burn_fails_with_insufficient_balance() {
    let mut l = test_ledger();
    let coin_id = create_test_coin(&mut l, 1, "TEST", "Test Coin");
    let r = l.burn(1, coin_id, 2000, None);
    assert_eq!(r, Err(Error::InsufficientBalance));
    assert_eq!(l.balance_of(&1, coin_id), 1000);
}

#[test]
fn transfer_ownership_works() {
    let mut l = test_ledger();
    let coin_id = create_test_coin(&mut l, 1, "TEST", "Test Coin");
    let r = l.transfer_ownership(1, coin_id, 2, None);
    assert!(r.is_ok());

    let metadata = l.get_coin_metadata(coin_id).unwrap();
    assert_eq!(metadata.owner, 2);

    assert!(!l.has_mint_permission(coin_id, &1));
    assert!(l.has_mint_permission(coin_id, &2));

    let events = r.unwrap();
    assert_eq!(
        events.last(),
        Some(&Event::OwnershipTransferred { coin_id, old_owner: 1, new_owner: 2 })
    );
}

#[test]
fn transfer_ownership_fails_if_not_owner() {
    let mut l = test_ledger();
    let coin_id = create_test_coin(&mut l, 1, "TEST", "Test Coin");
    let r = l.transfer_ownership(2, coin_id, 3, None);
    assert_eq!(r, Err(Error::NotAuthorized));
}

#[test]
fn set_mint_permission_works() {
    let mut l = test_ledger();
    let coin_id = create_test_coin(&mut l, 1, "TEST", "Test Coin");

    assert!(l.set_mint_permission(1, coin_id, 2, true, None).is_ok());
    assert!(l.has_mint_permission(coin_id, &2));

    assert!(l.mint(2, coin_id, 3, 100, None).is_ok());

    assert!(l.set_mint_permission(1, coin_id, 2, false, None).is_ok());
    assert!(!l.has_mint_permission(coin_id, &2));

    let r = l.mint(2, coin_id, 3, 100, None);
    assert_eq!(r, Err(Error::NoMintPermission));
}

#[test]
fn set_mint_permission_fails_if_not_owner() {
    let mut l = test_ledger();
    let coin_id = create_test_coin(&mut l, 1, "TEST", "Test Coin");
    let r = l.set_mint_permission(2, coin_id, 3, true, None);
    assert_eq!(r, Err(Error::NotAuthorized));
}

#[test]
fn multiple_coins_work() {
    let mut l = test_ledger();
    let btc_id = create_test_coin(&mut l, 1, "BTC", "Bitcoin");
    let eth_id = create_test_coin(&mut l, 2, "ETH", "Ethereum");
    let ada_id = create_test_coin(&mut l, 3, "ADA", "Cardano");

    assert_eq!(btc_id, 0);
    assert_eq!(eth_id, 1);
    assert_eq!(ada_id, 2);

    assert_eq!(l.balance_of(&1, btc_id), 1000);
    assert_eq!(l.balance_of(&2, eth_id), 1000);
    assert_eq!(l.balance_of(&3, ada_id), 1000);

    assert_eq!(l.get_coin_metadata(btc_id).unwrap().owner, 1);
    assert_eq!(l.get_coin_metadata(eth_id).unwrap().owner, 2);
    assert_eq!(l.get_coin_metadata(ada_id).unwrap().owner, 3);

    assert!(l.transfer(1, btc_id, 2, 100, None).is_ok());
    assert!(l.transfer(2, eth_id, 1, 200, None).is_ok());

    assert_eq!(l.balance_of(&1, btc_id), 900);
    assert_eq!(l.balance_of(&2, btc_id), 100);
    assert_eq!(l.balance_of(&1, eth_id), 200);
    assert_eq!(l.balance_of(&2, eth_id), 800);
}

#[test]
fn helper_functions_work() {
    let mut l = test_ledger();
    let coin_id = create_test_coin(&mut l, 1, "TEST", "Test Coin");

    assert_eq!(l.balance_of(&1, coin_id), 1000);
    assert_eq!(l.balance_of(&2, coin_id), 0);

    assert_eq!(l.total_supply_of(coin_id), 1000);

    let metadata = l.get_coin_metadata(coin_id).unwrap();
    assert_eq!(metadata.symbol.to_vec(), b"TEST".to_vec());
    assert_eq!(metadata.name.to_vec(), b"Test Coin".to_vec());

    assert_eq!(l.get_coin_id_by_symbol(&b"TEST".to_vec()), Some(coin_id));
    assert_eq!(l.get_coin_id_by_symbol(&b"NOTFOUND".to_vec()), None);

    assert!(l.has_mint_permission(coin_id, &1));
    assert!(!l.has_mint_permission(coin_id, &2));
}

#[test]
fn mint_exceeding_max_supply_fails() {
    let mut l = test_ledger();
    let coin_id = create_test_coin(&mut l, 1, "TEST", "Test Coin");

    let max_supply: u128 = 1_000_000_000_000;
    let current_supply = l.total_supply_of(coin_id);
    let amount_to_exceed = max_supply - current_supply + 1;

    let r = l.mint(1, coin_id, 2, amount_to_exceed, None);
    assert_eq!(r, Err(Error::ExceedsMaxSupply));
}

#[test]
fn coin_creation_with_insufficient_deposit_fails() {
    let mut l = test_ledger();
    // account 4 holds no native funds, so the host cannot reserve the
    // creation deposit from it
    let r = l.create_coin(
        4,
        b"POOR".to_vec(),
        b"Poor Coin".to_vec(),
        18,
        1000,
        None,
        None,
        false,
        None,
        false,
    );
    assert_eq!(r, Err(Error::InsufficientBalance));
}

#[test]
fn workflow_test() {
    let mut l = test_ledger();
    let coin_id = create_test_coin(&mut l, 1, "WORK", "Workflow Token");

    assert!(l.transfer(1, coin_id, 2, 250, None).is_ok());
    assert!(l.transfer(1, coin_id, 3, 250, None).is_ok());

    assert!(l.set_mint_permission(1, coin_id, 2, true, None).is_ok());

    assert!(l.mint(2, coin_id, 3, 100, None).is_ok());

    assert!(l.transfer(2, coin_id, 3, 50, None).is_ok());
    assert!(l.transfer(3, coin_id, 2, 25, None).is_ok());

    assert_eq!(l.balance_of(&1, coin_id), 500);
    assert_eq!(l.balance_of(&2, coin_id), 225);
    assert_eq!(l.balance_of(&3, coin_id), 375);

    assert_eq!(l.total_supply_of(coin_id), 1100);
}

#[test]
fn transfer_with_fee_works() {
    let mut l = test_ledger();
    let caller: u64 = 1;
    let recipient: u64 = 2;
    let coin_id = 0;

    assert!(l
        .create_coin(
            caller,
            b"TEST".to_vec(),
            b"Test Token".to_vec(),
            18,
            1_000_000,
            None,
            None,
            false,
            None,
            true,
        )
        .is_ok());

    assert!(l.set_fee_config(caller, coin_id, 100, 50, false, None).is_ok());

    assert!(l.transfer(caller, coin_id, recipient, 500_000, None).is_ok());

    assert_eq!(l.balance_of(&caller, coin_id), 1_000_000 - 500_000 - 100);
    assert_eq!(l.balance_of(&recipient, coin_id), 500_000);
    assert_eq!(l.total_supply_of(coin_id), 1_000_000 - 100);
}

#[test]
fn set_fee_config_fails_non_owner() {
    let mut l = test_ledger();
    let caller: u64 = 1;
    let non_owner: u64 = 2;
    let coin_id = 0;

    assert!(l
        .create_coin(
            caller,
            b"TEST".to_vec(),
            b"Test Token".to_vec(),
            18,
            1_000_000,
            None,
            None,
            false,
            None,
            true,
        )
        .is_ok());

    let r = l.set_fee_config(non_owner, coin_id, 100, 50, false, None);
    assert_eq!(r, Err(Error::NotAuthorized));
}
