use vstd::prelude::*;

verus! {

/// Failure taxonomy for the ledger. Every error is terminal for the current
/// operation and always means the operation left the ledger state untouched.
#[derive(Copy, Clone, Debug, PartialEq, Eq, Structural)]
pub enum SettlementError {
    /// A privileged operation was called by a non-admin participant.
    OnlyAdmin,
    /// A withdrawal exceeds the available (escrow minus locked) balance.
    InsufficientBalance,
    /// A lock, or an internal escrow transfer, exceeds the escrow balance.
    InsufficientEscrow,
    /// The settlement's proof nullifier was already consumed.
    NullifierUsed,
    /// The public-signal payload is malformed, has the wrong signal count,
    /// or the external verifier rejected the proof.
    InvalidProof,
    /// Reserved for the whitelist-root comparison gate.
    WhitelistRootMismatch,
    /// Reserved: the traded asset is not eligible for settlement.
    AssetNotEligible,
    /// Reserved: a trading party is not eligible for settlement.
    ParticipantNotEligible,
    /// Reserved: no settlement exists for a requested match.
    MatchNotFound,
    /// Reserved: the requested match was already settled.
    AlreadySettled,
    /// An unlock, or an internal escrow transfer, exceeds the locked balance.
    InsufficientLockedFunds,
    /// The external token transfer collaborator failed.
    TransferFailed,
}

} // verus!
