//! Reserve workflow tests: deposit and withdrawal request lifecycle,
//! ratio conversion, arbitration and supply accounting.

use multicoin::reserve::{DepositStatus, Error, Event, Reserve, WithdrawalStatus};

// Host-chosen field bounds: transaction reference 64, wallet 64, coin
// name 16 bytes.
fn test_reserve() -> Reserve {
    Reserve::new(64, 64, 16)
}

fn request_id_of(ev: &Event) -> u64 {
    match ev {
        Event::DepositRequested { request_id, .. } => *request_id,
        Event::WithdrawalRequested { request_id, .. } => *request_id,
        Event::DepositApproved { request_id, .. } => *request_id,
        Event::DepositRejected { request_id, .. } => *request_id,
        Event::WithdrawalCompleted { request_id, .. } => *request_id,
        Event::WithdrawalRejected { request_id, .. } => *request_id,
    }
}

#[test]
fn deposit_request_computes_native_amount() {
    let mut r = test_reserve();
    let ev = r
        .request_deposit(1, 2, b"tx-1".to_vec(), b"wallet-1".to_vec(), b"BTC".to_vec(), 1000, 50, 7)
        .unwrap();
    let id = request_id_of(&ev);
    assert_eq!(
        ev,
        Event::DepositRequested {
            request_id: id,
            submitter: 1,
            recipient: 2,
            external_tx_id: b"tx-1".to_vec(),
            external_wallet: b"wallet-1".to_vec(),
            coin_name: b"BTC".to_vec(),
            external_amount: 1000,
            native_amount: 50_000,
        }
    );
    let req = r.get_deposit_request(id).unwrap();
    assert_eq!(req.native_amount, 50_000);
    assert_eq!(req.status, DepositStatus::Pending);
    assert_eq!(req.submitted_at, 7);
    assert_eq!(req.approved_by, None);
}

#[test]
fn reject_deposit_keeps_funds_untouched() {
    let mut r = test_reserve();
    let ev = r
        .request_deposit(1, 2, b"tx-1".to_vec(), b"w".to_vec(), b"BTC".to_vec(), 1000, 50, 7)
        .unwrap();
    let id = request_id_of(&ev);
    let ev2 = r.reject_deposit(3, id).unwrap();
    assert_eq!(ev2, Event::DepositRejected { request_id: id, validator: 3 });
    assert_eq!(r.get_deposit_request(id).unwrap().status, DepositStatus::Rejected);
    assert_eq!(r.total_minted(), 0);
}

#[test]
fn approve_deposit_works() {
    let mut r = test_reserve();
    let ev = r
        .request_deposit(1, 2, b"tx-1".to_vec(), b"w".to_vec(), b"BTC".to_vec(), 10, 3, 7)
        .unwrap();
    let id = request_id_of(&ev);
    let ev2 = r.approve_deposit(9, id).unwrap();
    assert_eq!(
        ev2,
        Event::DepositApproved { request_id: id, user: 2, validator: 9, native_amount: 30 }
    );
    let req = r.get_deposit_request(id).unwrap();
    assert_eq!(req.status, DepositStatus::Approved);
    assert_eq!(req.approved_by, Some(9));
    assert_eq!(r.total_minted(), 30);
}

#[test]
fn approve_own_deposit_fails() {
    let mut r = test_reserve();
    let ev = r
        .request_deposit(1, 2, b"tx-1".to_vec(), b"w".to_vec(), b"BTC".to_vec(), 10, 3, 7)
        .unwrap();
    let id = request_id_of(&ev);
    assert_eq!(r.approve_deposit(1, id), Err(Error::CannotApproveOwnRequest));
    assert_eq!(r.get_deposit_request(id).unwrap().status, DepositStatus::Pending);
    // rejecting one's own request is allowed
    assert!(r.reject_deposit(1, id).is_ok());
}

#[test]
fn deposit_terminal_states_never_revert() {
    let mut r = test_reserve();
    let ev = r
        .request_deposit(1, 2, b"tx-1".to_vec(), b"w".to_vec(), b"BTC".to_vec(), 10, 3, 7)
        .unwrap();
    let id = request_id_of(&ev);
    assert!(r.reject_deposit(3, id).is_ok());
    assert_eq!(r.approve_deposit(3, id), Err(Error::AlreadyProcessed));
    assert_eq!(r.reject_deposit(3, id), Err(Error::AlreadyProcessed));
    assert_eq!(r.get_deposit_request(id).unwrap().status, DepositStatus::Rejected);
}

#[test]
fn deposit_request_validation_errors() {
    let mut r = test_reserve();
    assert_eq!(
        r.request_deposit(1, 2, b"t".to_vec(), b"w".to_vec(), b"BTC".to_vec(), 0, 50, 7),
        Err(Error::InvalidAmount)
    );
    assert_eq!(
        r.request_deposit(1, 2, b"t".to_vec(), b"w".to_vec(), b"BTC".to_vec(), 10, 0, 7),
        Err(Error::InvalidRatio)
    );
    assert_eq!(
        r.request_deposit(1, 2, vec![0u8; 65], b"w".to_vec(), b"BTC".to_vec(), 10, 5, 7),
        Err(Error::DataTooLong)
    );
    assert_eq!(
        r.request_deposit(1, 2, b"t".to_vec(), vec![0u8; 65], b"BTC".to_vec(), 10, 5, 7),
        Err(Error::DataTooLong)
    );
    assert_eq!(
        r.request_deposit(1, 2, b"t".to_vec(), b"w".to_vec(), vec![0u8; 17], 10, 5, 7),
        Err(Error::DataTooLong)
    );
    assert_eq!(
        r.request_deposit(1, 2, b"t".to_vec(), b"w".to_vec(), b"BTC".to_vec(), u128::MAX, 2, 7),
        Err(Error::ArithmeticOverflow)
    );
    assert_eq!(r.total_minted(), 0);
    assert_eq!(r.get_deposit_request(0), None);
}

#[test]
fn deposit_index_cap_aborts_submission() {
    let mut r = test_reserve();
    for k in 0..100u64 {
        assert!(r
            .request_deposit(1, 2, b"t".to_vec(), b"w".to_vec(), b"BTC".to_vec(), 1 + k as u128, 1, 7)
            .is_ok());
    }
    assert_eq!(
        r.request_deposit(1, 2, b"t".to_vec(), b"w".to_vec(), b"BTC".to_vec(), 5, 1, 7),
        Err(Error::ArithmeticOverflow)
    );
    // a different recipient still has room
    assert!(r
        .request_deposit(1, 3, b"t".to_vec(), b"w".to_vec(), b"BTC".to_vec(), 5, 1, 7)
        .is_ok());
}

#[test]
fn withdrawal_request_floors_external_amount() {
    let mut r = test_reserve();
    let ev = r
        .request_withdrawal(5, b"wallet-9".to_vec(), b"BTC".to_vec(), 999, 100, 7, 1000)
        .unwrap();
    let id = request_id_of(&ev);
    assert_eq!(
        ev,
        Event::WithdrawalRequested {
            request_id: id,
            user: 5,
            external_wallet: b"wallet-9".to_vec(),
            native_amount: 999,
            external_amount: 9,
        }
    );
    let req = r.get_withdrawal_request(id).unwrap();
    assert_eq!(req.external_amount, 9);
    assert_eq!(req.status, WithdrawalStatus::Pending);
    assert_eq!(req.processed_by, None);
}

#[test]
fn complete_withdrawal_accounts_burn() {
    let mut r = test_reserve();
    let ev = r
        .request_withdrawal(5, b"w".to_vec(), b"BTC".to_vec(), 999, 100, 7, 1000)
        .unwrap();
    let id = request_id_of(&ev);
    let ev2 = r.complete_withdrawal(6, id).unwrap();
    assert_eq!(
        ev2,
        Event::WithdrawalCompleted { request_id: id, user: 5, processor: 6, native_amount: 999 }
    );
    let req = r.get_withdrawal_request(id).unwrap();
    assert_eq!(req.status, WithdrawalStatus::Completed);
    assert_eq!(req.processed_by, Some(6));
    assert_eq!(r.total_burned(), 999);
}

#[test]
fn withdrawal_terminal_states_never_revert() {
    let mut r = test_reserve();
    let ev = r
        .request_withdrawal(5, b"w".to_vec(), b"BTC".to_vec(), 10, 2, 7, 100)
        .unwrap();
    let id = request_id_of(&ev);
    assert!(r.complete_withdrawal(6, id).is_ok());
    assert_eq!(r.complete_withdrawal(6, id), Err(Error::AlreadyProcessed));
    assert_eq!(r.reject_withdrawal(6, id), Err(Error::AlreadyProcessed));
    assert_eq!(r.get_withdrawal_request(id).unwrap().status, WithdrawalStatus::Completed);
}

#[test]
fn reject_withdrawal_works() {
    let mut r = test_reserve();
    let ev = r
        .request_withdrawal(5, b"w".to_vec(), b"BTC".to_vec(), 10, 2, 7, 100)
        .unwrap();
    let id = request_id_of(&ev);
    let ev2 = r.reject_withdrawal(6, id).unwrap();
    assert_eq!(ev2, Event::WithdrawalRejected { request_id: id, processor: 6 });
    assert_eq!(r.get_withdrawal_request(id).unwrap().status, WithdrawalStatus::Rejected);
    assert_eq!(r.total_burned(), 0);
}

#[test]
fn withdrawal_request_validation_errors() {
    let mut r = test_reserve();
    assert_eq!(
        r.request_withdrawal(5, b"w".to_vec(), b"BTC".to_vec(), 0, 2, 7, 100),
        Err(Error::InvalidAmount)
    );
    assert_eq!(
        r.request_withdrawal(5, b"w".to_vec(), b"BTC".to_vec(), 10, 0, 7, 100),
        Err(Error::InvalidRatio)
    );
    assert_eq!(
        r.request_withdrawal(5, b"w".to_vec(), b"BTC".to_vec(), 200, 2, 7, 100),
        Err(Error::InsufficientBalance)
    );
    assert_eq!(
        r.request_withdrawal(5, vec![0u8; 65], b"BTC".to_vec(), 10, 2, 7, 100),
        Err(Error::DataTooLong)
    );
    assert_eq!(
        r.request_withdrawal(5, b"w".to_vec(), vec![0u8; 17], 10, 2, 7, 100),
        Err(Error::DataTooLong)
    );
}

#[test]
fn unknown_request_ids_are_rejected() {
    let mut r = test_reserve();
    assert_eq!(r.approve_deposit(1, 42), Err(Error::RequestNotFound));
    assert_eq!(r.reject_deposit(1, 42), Err(Error::RequestNotFound));
    assert_eq!(r.complete_withdrawal(1, 42), Err(Error::RequestNotFound));
    assert_eq!(r.reject_withdrawal(1, 42), Err(Error::RequestNotFound));
}

#[test]
fn request_ids_are_sequential_across_both_kinds() {
    let mut r = test_reserve();
    let e0 = r
        .request_deposit(1, 2, b"t".to_vec(), b"w".to_vec(), b"BTC".to_vec(), 10, 2, 7)
        .unwrap();
    let e1 = r
        .request_withdrawal(5, b"w".to_vec(), b"BTC".to_vec(), 10, 2, 7, 100)
        .unwrap();
    let e2 = r
        .request_deposit(1, 2, b"t".to_vec(), b"w".to_vec(), b"BTC".to_vec(), 10, 2, 8)
        .unwrap();
    assert_eq!(request_id_of(&e0), 0);
    assert_eq!(request_id_of(&e1), 1);
    assert_eq!(request_id_of(&e2), 2);
}

#[test]
fn net_supply_tracks_minted_minus_burned() {
    let mut r = test_reserve();
    let e0 = r
        .request_deposit(1, 2, b"t".to_vec(), b"w".to_vec(), b"BTC".to_vec(), 100, 3, 7)
        .unwrap();
    assert!(r.approve_deposit(9, request_id_of(&e0)).is_ok());
    assert_eq!(r.net_supply(), 300);

    let e1 = r
        .request_withdrawal(5, b"w".to_vec(), b"BTC".to_vec(), 120, 2, 7, 500)
        .unwrap();
    assert!(r.complete_withdrawal(6, request_id_of(&e1)).is_ok());
    assert_eq!(r.total_minted(), 300);
    assert_eq!(r.total_burned(), 120);
    assert_eq!(r.net_supply(), 180);
}

#[test]
fn net_supply_saturates_at_zero() {
    let mut r = test_reserve();
    let e0 = r
        .request_withdrawal(5, b"w".to_vec(), b"BTC".to_vec(), 50, 2, 7, 100)
        .unwrap();
    assert!(r.complete_withdrawal(6, request_id_of(&e0)).is_ok());
    assert_eq!(r.total_burned(), 50);
    assert_eq!(r.net_supply(), 0);
}
