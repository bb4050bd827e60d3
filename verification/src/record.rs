use vstd::prelude::*;

use crate::bytes::copy_bytes;

verus! {

/// A completed trade settlement, immutable once journalled.
pub struct SettlementRecord {
    /// Identifier of the match, supplied by the settlement caller.
    pub match_id: Vec<u8>,
    /// Participant that received the traded asset.
    pub buyer: u64,
    /// Participant that delivered the traded asset.
    pub seller: u64,
    /// Identity of the traded asset.
    pub asset_address: u64,
    /// Amount of the traded asset delivered to the buyer.
    pub quantity: i128,
    /// Total payment delivered to the seller.
    pub price: i128,
    /// Time at which the settlement committed, assigned by the execution
    /// environment.
    pub timestamp: u64,
    /// The proof nullifier this settlement consumed.
    pub nullifier: Vec<u8>,
}

/// The mathematical content of a settlement record.
pub ghost struct RecordView {
    pub match_id: Seq<u8>,
    pub buyer: u64,
    pub seller: u64,
    pub asset_address: u64,
    pub quantity: int,
    pub price: int,
    pub timestamp: u64,
    pub nullifier: Seq<u8>,
}

impl View for SettlementRecord {
    type V = RecordView;

    open spec fn view(&self) -> RecordView {
        RecordView {
            match_id: self.match_id@,
            buyer: self.buyer,
            seller: self.seller,
            asset_address: self.asset_address,
            quantity: self.quantity as int,
            price: self.price as int,
            timestamp: self.timestamp,
            nullifier: self.nullifier@,
        }
    }
}

impl Clone for SettlementRecord {
    /// Clones preserve the record's content.
    fn clone(&self) -> (r: Self)
        ensures
            r@ == self@,
    {
        SettlementRecord {
            match_id: copy_bytes(&self.match_id),
            buyer: self.buyer,
            seller: self.seller,
            asset_address: self.asset_address,
            quantity: self.quantity,
            price: self.price,
            timestamp: self.timestamp,
            nullifier: copy_bytes(&self.nullifier),
        }
    }
}

} // verus!
