use darkpool_settlement::{DarkPoolSettlement, SettlementError};

fn fresh_ledger() -> DarkPoolSettlement {
    DarkPoolSettlement::new(1, 2, 3, vec![0xAB, 0xCD])
}

#[test]
fn deposit_credits_available_balance() {
    // Scenario: participant deposits 1000 of an asset.
    let mut ledger = fresh_ledger();
    let r = ledger.deposit(10, 20, 1000);
    assert_eq!(r, Ok(1000));
    assert_eq!(ledger.get_available_balance(10, 20), 1000);
    assert_eq!(ledger.get_escrow_balance(10, 20), 1000);
    assert_eq!(ledger.get_locked_balance(10, 20), 0);
}

#[test]
fn unknown_keys_read_zero() {
    let ledger = fresh_ledger();
    assert_eq!(ledger.get_escrow_balance(7, 8), 0);
    assert_eq!(ledger.get_locked_balance(7, 8), 0);
    assert_eq!(ledger.get_available_balance(7, 8), 0);
}

#[test]
fn lock_reserves_and_overdraw_fails() {
    // Scenario: lock 400 of 1000; then a further 700 lock and a 700
    // withdrawal must both fail.
    let mut ledger = fresh_ledger();
    ledger.deposit(10, 20, 1000).unwrap();
    assert_eq!(ledger.lock_escrow(10, 20, 400), Ok(()));
    assert_eq!(ledger.get_locked_balance(10, 20), 400);
    assert_eq!(ledger.get_available_balance(10, 20), 600);
    assert_eq!(ledger.lock_escrow(10, 20, 700), Err(SettlementError::InsufficientEscrow));
    assert_eq!(ledger.withdraw(10, 20, 700), Err(SettlementError::InsufficientBalance));
    // Failed operations left everything as it was.
    assert_eq!(ledger.get_locked_balance(10, 20), 400);
    assert_eq!(ledger.get_available_balance(10, 20), 600);
}

#[test]
fn deposit_withdraw_round_trip_restores_balance() {
    let mut ledger = fresh_ledger();
    ledger.deposit(10, 20, 250).unwrap();
    let before = ledger.get_escrow_balance(10, 20);
    ledger.deposit(10, 20, 777).unwrap();
    let r = ledger.withdraw(10, 20, 777);
    assert_eq!(r, Ok(250));
    assert_eq!(ledger.get_escrow_balance(10, 20), before);
    assert_eq!(ledger.get_available_balance(10, 20), before);
}

#[test]
fn withdraw_respects_locks() {
    let mut ledger = fresh_ledger();
    ledger.deposit(10, 20, 100).unwrap();
    ledger.lock_escrow(10, 20, 100).unwrap();
    assert_eq!(ledger.withdraw(10, 20, 1), Err(SettlementError::InsufficientBalance));
    assert_eq!(ledger.unlock_escrow(10, 20, 40), Ok(()));
    assert_eq!(ledger.withdraw(10, 20, 40), Ok(60));
    assert_eq!(ledger.get_escrow_balance(10, 20), 60);
    assert_eq!(ledger.get_locked_balance(10, 20), 60);
}

#[test]
fn unlock_more_than_locked_fails() {
    let mut ledger = fresh_ledger();
    ledger.deposit(10, 20, 100).unwrap();
    ledger.lock_escrow(10, 20, 30).unwrap();
    assert_eq!(ledger.unlock_escrow(10, 20, 31), Err(SettlementError::InsufficientLockedFunds));
    assert_eq!(ledger.get_locked_balance(10, 20), 30);
}

#[test]
fn balances_are_per_participant_and_asset() {
    let mut ledger = fresh_ledger();
    ledger.deposit(10, 20, 100).unwrap();
    ledger.deposit(10, 21, 200).unwrap();
    ledger.deposit(11, 20, 300).unwrap();
    assert_eq!(ledger.get_escrow_balance(10, 20), 100);
    assert_eq!(ledger.get_escrow_balance(10, 21), 200);
    assert_eq!(ledger.get_escrow_balance(11, 20), 300);
    ledger.withdraw(10, 21, 150).unwrap();
    assert_eq!(ledger.get_escrow_balance(10, 20), 100);
    assert_eq!(ledger.get_escrow_balance(10, 21), 50);
    assert_eq!(ledger.get_escrow_balance(11, 20), 300);
}

#[test]
fn configuration_is_stored_at_construction() {
    let ledger = DarkPoolSettlement::new(41, 42, 43, vec![9, 9, 9]);
    assert_eq!(ledger.get_admin(), 41);
    assert_eq!(ledger.get_registry(), 42);
    assert_eq!(ledger.get_verifier(), 43);
    assert_eq!(ledger.get_verification_key().as_slice(), &[9, 9, 9]);
}

#[test]
fn locked_never_exceeds_escrow_across_operations() {
    // Mixed sequence of operations, some refused: after each one, the
    // locked balance stays within the escrow balance.
    let mut ledger = fresh_ledger();
    let check = |l: &DarkPoolSettlement| {
        let escrow = l.get_escrow_balance(10, 20);
        let locked = l.get_locked_balance(10, 20);
        assert!(0 <= locked && locked <= escrow);
    };
    check(&ledger);
    ledger.deposit(10, 20, 1000).unwrap();
    check(&ledger);
    ledger.lock_escrow(10, 20, 999).unwrap();
    check(&ledger);
    let _ = ledger.lock_escrow(10, 20, 2);
    check(&ledger);
    let _ = ledger.withdraw(10, 20, 2);
    check(&ledger);
    ledger.unlock_escrow(10, 20, 500).unwrap();
    check(&ledger);
    ledger.withdraw(10, 20, 501).unwrap();
    check(&ledger);
    assert_eq!(ledger.get_escrow_balance(10, 20), 499);
    assert_eq!(ledger.get_locked_balance(10, 20), 499);
}

#[test]
fn fresh_ledger_has_no_nullifiers_or_settlements() {
    let ledger = fresh_ledger();
    assert!(!ledger.is_nullifier_used(&vec![0u8; 32]));
    assert!(ledger.get_settlements().is_empty());
    assert!(ledger.get_settlement(&vec![1u8; 32]).is_none());
}
