use vstd::prelude::*;

use crate::ledger::DarkPoolSettlement;

verus! {

/// Locked funds never exceed escrowed funds, and neither is ever negative.
/// Every public operation requires well-formedness and establishes it
/// again, so this bound holds after any sequence of deposits, withdrawals,
/// locks, unlocks and settlements.
pub proof fn lemma_locked_within_escrow(s: DarkPoolSettlement, p: u64, a: u64)
    requires
        s.wf(),
    ensures
        0 <= s.locked_of(p, a) <= s.escrow_of(p, a),
        0 <= s.available_of(p, a) <= s.escrow_of(p, a),
{
}

/// Depositing an amount and then withdrawing the same amount, with no
/// operation in between, returns every balance to its starting value and
/// touches neither the nullifier registry nor the journal.
pub proof fn lemma_deposit_withdraw_round_trip(
    s0: DarkPoolSettlement,
    s1: DarkPoolSettlement,
    s2: DarkPoolSettlement,
    p: u64,
    a: u64,
    amount: int,
)
    requires
        DarkPoolSettlement::deposit_transition(s0, s1, p, a, amount),
        DarkPoolSettlement::withdraw_transition(s1, s2, p, a, amount),
    ensures
        forall|q: u64, b: u64| #[trigger] s2.escrow_of(q, b) == s0.escrow_of(q, b),
        forall|q: u64, b: u64| #[trigger] s2.locked_of(q, b) == s0.locked_of(q, b),
        s2.nullifier_table() == s0.nullifier_table(),
        s2.journal() == s0.journal(),
        DarkPoolSettlement::same_config(s0, s2),
{
    assert forall|q: u64, b: u64| #[trigger] s2.escrow_of(q, b) == s0.escrow_of(q, b) by {
        if !(q == p && b == a) {
            assert(s1.escrow_of(q, b) == s0.escrow_of(q, b));
            assert(s2.escrow_of(q, b) == s1.escrow_of(q, b));
        }
    }
    assert forall|q: u64, b: u64| #[trigger] s2.locked_of(q, b) == s0.locked_of(q, b) by {
        assert(s1.locked_of(q, b) == s0.locked_of(q, b));
        assert(s2.locked_of(q, b) == s1.locked_of(q, b));
    }
}

/// A successful settlement consumes its proof's nullifier, and it never
/// un-consumes any other: once recorded, a nullifier stays recorded, so a
/// later settlement attempt over a payload carrying the same nullifier
/// finds it consumed and is refused.
pub proof fn lemma_settlement_consumes_nullifier(
    pre: DarkPoolSettlement,
    post: DarkPoolSettlement,
    match_id: Seq<u8>,
    buyer: u64,
    seller: u64,
    asset: u64,
    payment: u64,
    quantity: int,
    price: int,
    nullifier: Seq<u8>,
    timestamp: u64,
)
    requires
        DarkPoolSettlement::settle_transition(
            pre,
            post,
            match_id,
            buyer,
            seller,
            asset,
            payment,
            quantity,
            price,
            nullifier,
            timestamp,
        ),
    ensures
        post.nullifier_used_spec(nullifier),
        forall|n: Seq<u8>|
            pre.nullifier_used_spec(n) ==> #[trigger] post.nullifier_used_spec(n),
{
}

/// Deposits, withdrawals, locks and unlocks never touch the nullifier
/// registry or the settlement journal: only settlement consumes nullifiers
/// and appends records.
pub proof fn lemma_balance_ops_preserve_registry(
    pre: DarkPoolSettlement,
    post: DarkPoolSettlement,
    p: u64,
    a: u64,
    amount: int,
)
    requires
        DarkPoolSettlement::deposit_transition(pre, post, p, a, amount)
            || DarkPoolSettlement::withdraw_transition(pre, post, p, a, amount)
            || DarkPoolSettlement::lock_transition(pre, post, p, a, amount)
            || DarkPoolSettlement::unlock_transition(pre, post, p, a, amount),
    ensures
        forall|n: Seq<u8>|
            #[trigger] post.nullifier_used_spec(n) <==> pre.nullifier_used_spec(n),
        post.journal() == pre.journal(),
{
}

/// A failed operation is observationally a no-op: a ledger reported
/// unchanged reports the same balances, the same consumed nullifiers and
/// the same journal as before the call.
pub proof fn lemma_unchanged_is_observational_noop(
    pre: DarkPoolSettlement,
    post: DarkPoolSettlement,
)
    requires
        DarkPoolSettlement::unchanged(pre, post),
    ensures
        forall|q: u64, b: u64| #[trigger] post.escrow_of(q, b) == pre.escrow_of(q, b),
        forall|q: u64, b: u64| #[trigger] post.locked_of(q, b) == pre.locked_of(q, b),
        forall|q: u64, b: u64| #[trigger] post.available_of(q, b) == pre.available_of(q, b),
        forall|n: Seq<u8>|
            #[trigger] post.nullifier_used_spec(n) <==> pre.nullifier_used_spec(n),
        post.journal() == pre.journal(),
{
}

} // verus!
