//! Escrow-and-settlement ledger for a confidential asset exchange.
//!
//! Participants deposit collateral, lock it against pending orders, and
//! settle matched trades atomically once an external zero-knowledge
//! verifier attests that the match is valid. The ledger guarantees
//! exactly-once settlement per proof nullifier and maintains the
//! invariant that locked funds never exceed escrowed funds.

pub mod balances;
pub mod bytes;
pub mod codec;
pub mod errors;
pub mod laws;
pub mod ledger;
pub mod record;

pub use balances::EscrowKey;
pub use errors::SettlementError;
pub use ledger::DarkPoolSettlement;
pub use record::SettlementRecord;
