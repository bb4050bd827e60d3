use darkpool_settlement::{DarkPoolSettlement, SettlementError};

const BUYER: u64 = 100;
const SELLER: u64 = 200;
const ASSET: u64 = 300;
const PAYMENT: u64 = 400;

fn payload_with_signals(count: u32, fill: u8) -> Vec<u8> {
    let mut payload = count.to_be_bytes().to_vec();
    for i in 0..count {
        let mut field = vec![fill; 32];
        field[31] = i as u8;
        payload.extend_from_slice(&field);
    }
    payload
}

fn nullifier_of(payload: &[u8]) -> Vec<u8> {
    payload[4..36].to_vec()
}

/// Buyer escrows and locks 500 payment-asset; seller escrows and locks 10
/// traded-asset.
fn funded_ledger() -> DarkPoolSettlement {
    let mut ledger = DarkPoolSettlement::new(1, 2, 3, vec![0xAA]);
    ledger.deposit(BUYER, PAYMENT, 500).unwrap();
    ledger.lock_escrow(BUYER, PAYMENT, 500).unwrap();
    ledger.deposit(SELLER, ASSET, 10).unwrap();
    ledger.lock_escrow(SELLER, ASSET, 10).unwrap();
    ledger
}

#[test]
fn valid_settlement_swaps_both_legs() {
    // Scenario: quantity 10 at price 500 settles atomically.
    let mut ledger = funded_ledger();
    let payload = payload_with_signals(7, 0x11);
    let match_id = vec![0x42u8; 32];
    let record = ledger
        .settle_trade(&match_id, BUYER, SELLER, ASSET, PAYMENT, 10, 500, true, &payload, &vec![], 777)
        .unwrap();

    assert_eq!(ledger.get_escrow_balance(SELLER, ASSET), 0);
    assert_eq!(ledger.get_locked_balance(SELLER, ASSET), 0);
    assert_eq!(ledger.get_escrow_balance(BUYER, ASSET), 10);
    assert_eq!(ledger.get_escrow_balance(BUYER, PAYMENT), 0);
    assert_eq!(ledger.get_locked_balance(BUYER, PAYMENT), 0);
    assert_eq!(ledger.get_escrow_balance(SELLER, PAYMENT), 500);

    assert_eq!(record.match_id, match_id);
    assert_eq!(record.buyer, BUYER);
    assert_eq!(record.seller, SELLER);
    assert_eq!(record.asset_address, ASSET);
    assert_eq!(record.quantity, 10);
    assert_eq!(record.price, 500);
    assert_eq!(record.timestamp, 777);
    assert_eq!(record.nullifier, nullifier_of(&payload));
    assert!(ledger.is_nullifier_used(&nullifier_of(&payload)));

    let journal = ledger.get_settlements();
    assert_eq!(journal.len(), 1);
    assert_eq!(journal[0].match_id, match_id);
    let by_id = ledger.get_settlement(&match_id).unwrap();
    assert_eq!(by_id.nullifier, nullifier_of(&payload));
}

#[test]
fn replayed_nullifier_is_refused() {
    let mut ledger = funded_ledger();
    // Extra funds so a second settlement could otherwise succeed.
    ledger.deposit(BUYER, PAYMENT, 500).unwrap();
    ledger.lock_escrow(BUYER, PAYMENT, 500).unwrap();
    ledger.deposit(SELLER, ASSET, 10).unwrap();
    ledger.lock_escrow(SELLER, ASSET, 10).unwrap();

    let payload = payload_with_signals(7, 0x11);
    let match_id = vec![0x42u8; 32];
    ledger
        .settle_trade(&match_id, BUYER, SELLER, ASSET, PAYMENT, 10, 500, true, &payload, &vec![], 777)
        .unwrap();
    let before_escrow = ledger.get_escrow_balance(SELLER, PAYMENT);
    let second = ledger.settle_trade(
        &vec![0x43u8; 32],
        BUYER,
        SELLER,
        ASSET,
        PAYMENT,
        10,
        500,
        true,
        &payload,
        &vec![],
        778,
    );
    assert!(matches!(second, Err(SettlementError::NullifierUsed)));
    // Nothing moved and nothing was journalled by the refused replay.
    assert_eq!(ledger.get_escrow_balance(SELLER, PAYMENT), before_escrow);
    assert_eq!(ledger.get_settlements().len(), 1);
}

#[test]
fn rejected_proof_changes_nothing() {
    let mut ledger = funded_ledger();
    let payload = payload_with_signals(7, 0x11);
    let r = ledger.settle_trade(
        &vec![0x42u8; 32],
        BUYER,
        SELLER,
        ASSET,
        PAYMENT,
        10,
        500,
        false,
        &payload,
        &vec![],
        777,
    );
    assert!(matches!(r, Err(SettlementError::InvalidProof)));
    assert_eq!(ledger.get_escrow_balance(BUYER, PAYMENT), 500);
    assert_eq!(ledger.get_locked_balance(BUYER, PAYMENT), 500);
    assert_eq!(ledger.get_escrow_balance(SELLER, ASSET), 10);
    assert!(!ledger.is_nullifier_used(&nullifier_of(&payload)));
    assert!(ledger.get_settlements().is_empty());
}

#[test]
fn truncated_payload_is_refused() {
    // Scenario: the declared field count times 32 plus 4 exceeds the actual
    // payload length.
    let mut ledger = funded_ledger();
    let mut payload = payload_with_signals(7, 0x11);
    payload.truncate(4 + 32 * 7 - 1);
    let r = ledger.settle_trade(
        &vec![0x42u8; 32],
        BUYER,
        SELLER,
        ASSET,
        PAYMENT,
        10,
        500,
        true,
        &payload,
        &vec![],
        777,
    );
    assert!(matches!(r, Err(SettlementError::InvalidProof)));
    assert_eq!(ledger.get_escrow_balance(BUYER, PAYMENT), 500);
    assert!(ledger.get_settlements().is_empty());
}

#[test]
fn wrong_signal_count_is_refused() {
    let mut ledger = funded_ledger();
    let payload = payload_with_signals(6, 0x11);
    let r = ledger.settle_trade(
        &vec![0x42u8; 32],
        BUYER,
        SELLER,
        ASSET,
        PAYMENT,
        10,
        500,
        true,
        &payload,
        &vec![],
        777,
    );
    assert!(matches!(r, Err(SettlementError::InvalidProof)));
}

#[test]
fn insufficient_seller_lock_keeps_nullifier_fresh() {
    // Scenario: the seller's locked traded-asset balance cannot cover the
    // quantity; the nullifier stays unmarked so a corrected retry succeeds.
    let mut ledger = funded_ledger();
    ledger.unlock_escrow(SELLER, ASSET, 5).unwrap();
    let payload = payload_with_signals(7, 0x11);
    let r = ledger.settle_trade(
        &vec![0x42u8; 32],
        BUYER,
        SELLER,
        ASSET,
        PAYMENT,
        10,
        500,
        true,
        &payload,
        &vec![],
        777,
    );
    assert!(matches!(r, Err(SettlementError::InsufficientLockedFunds)));
    assert!(!ledger.is_nullifier_used(&nullifier_of(&payload)));
    assert_eq!(ledger.get_escrow_balance(SELLER, ASSET), 10);
    assert_eq!(ledger.get_locked_balance(SELLER, ASSET), 5);

    ledger.lock_escrow(SELLER, ASSET, 5).unwrap();
    let retry = ledger.settle_trade(
        &vec![0x42u8; 32],
        BUYER,
        SELLER,
        ASSET,
        PAYMENT,
        10,
        500,
        true,
        &payload,
        &vec![],
        779,
    );
    assert!(retry.is_ok());
    assert!(ledger.is_nullifier_used(&nullifier_of(&payload)));
}

#[test]
fn insufficient_buyer_lock_is_refused() {
    let mut ledger = funded_ledger();
    ledger.unlock_escrow(BUYER, PAYMENT, 1).unwrap();
    let payload = payload_with_signals(7, 0x11);
    let r = ledger.settle_trade(
        &vec![0x42u8; 32],
        BUYER,
        SELLER,
        ASSET,
        PAYMENT,
        10,
        500,
        true,
        &payload,
        &vec![],
        777,
    );
    assert!(matches!(r, Err(SettlementError::InsufficientLockedFunds)));
    assert!(ledger.get_settlements().is_empty());
}

#[test]
fn self_trade_in_one_asset_is_a_no_op_on_balances() {
    // Degenerate but legal: a party settles with itself in one asset.
    let mut ledger = DarkPoolSettlement::new(1, 2, 3, vec![]);
    ledger.deposit(BUYER, ASSET, 40).unwrap();
    ledger.lock_escrow(BUYER, ASSET, 40).unwrap();
    let payload = payload_with_signals(7, 0x22);
    let r = ledger.settle_trade(
        &vec![0x77u8; 32],
        BUYER,
        BUYER,
        ASSET,
        ASSET,
        10,
        20,
        true,
        &payload,
        &vec![],
        5,
    );
    assert!(r.is_ok());
    assert_eq!(ledger.get_escrow_balance(BUYER, ASSET), 40);
    assert_eq!(ledger.get_locked_balance(BUYER, ASSET), 10);
    assert!(ledger.is_nullifier_used(&nullifier_of(&payload)));
}

#[test]
fn journal_keeps_insertion_order_and_first_match() {
    let mut ledger = funded_ledger();
    ledger.deposit(BUYER, PAYMENT, 500).unwrap();
    ledger.lock_escrow(BUYER, PAYMENT, 500).unwrap();
    ledger.deposit(SELLER, ASSET, 10).unwrap();
    ledger.lock_escrow(SELLER, ASSET, 10).unwrap();

    let match_id = vec![0x55u8; 32];
    let first = payload_with_signals(7, 0x01);
    let second = payload_with_signals(7, 0x02);
    ledger
        .settle_trade(&match_id, BUYER, SELLER, ASSET, PAYMENT, 10, 500, true, &first, &vec![], 1)
        .unwrap();
    ledger
        .settle_trade(&match_id, BUYER, SELLER, ASSET, PAYMENT, 10, 500, true, &second, &vec![], 2)
        .unwrap();

    let journal = ledger.get_settlements();
    assert_eq!(journal.len(), 2);
    assert_eq!(journal[0].timestamp, 1);
    assert_eq!(journal[1].timestamp, 2);
    // Lookup by match identifier returns the earliest record.
    let found = ledger.get_settlement(&match_id).unwrap();
    assert_eq!(found.timestamp, 1);
    assert_eq!(found.nullifier, nullifier_of(&first));
}
