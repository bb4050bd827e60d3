use vstd::prelude::*;

use crate::balances::{bal_of, lemma_bal_in_range, lookup, store, unique_keys, BalanceEntry};
use crate::bytes::{bytes_eq, copy_bytes};
use crate::codec::{declared_count, decode_ok, parse_public_signals, signal_at};
use crate::errors::SettlementError;
use crate::record::{RecordView, SettlementRecord};

verus! {

/// Number of public signals a settlement proof must carry.
pub const SETTLEMENT_SIGNAL_COUNT: usize = 7;

/// Position of the nullifier among the decoded public signals: it is the
/// proof's output signal.
pub const NULLIFIER_SIGNAL_INDEX: usize = 0;

/// Position of the whitelist root among the decoded public signals.
pub const WHITELIST_ROOT_SIGNAL_INDEX: usize = 6;

/// Gate for the whitelist-root comparison during settlement. Disabled until
/// the off-chain proof generation and the registry agree on one hash
/// computation; the data model and the error variant are already wired.
pub const WHITELIST_CHECK_ENABLED: bool = false;

/// Whether a recorded nullifier table contains `n`.
pub open spec fn used_in(nullifiers: Seq<Vec<u8>>, n: Seq<u8>) -> bool {
    exists|i: int| 0 <= i < nullifiers.len() && #[trigger] nullifiers[i]@ == n
}

/// Net escrow change at key `(q, b)` caused by the two-leg settlement swap:
/// the seller delivers `quantity` of the traded asset to the buyer, and the
/// buyer delivers `price` of the payment asset to the seller.
pub open spec fn swap_escrow_delta(
    q: u64,
    b: u64,
    buyer: u64,
    seller: u64,
    asset: u64,
    payment: u64,
    quantity: int,
    price: int,
) -> int {
    (if q == buyer && b == asset {
        quantity
    } else {
        0
    }) - (if q == seller && b == asset {
        quantity
    } else {
        0
    }) + (if q == seller && b == payment {
        price
    } else {
        0
    }) - (if q == buyer && b == payment {
        price
    } else {
        0
    })
}

/// Net locked change at key `(q, b)` caused by the swap: each leg releases
/// the sending party's lock on what it delivers.
pub open spec fn swap_locked_delta(
    q: u64,
    b: u64,
    buyer: u64,
    seller: u64,
    asset: u64,
    payment: u64,
    quantity: int,
    price: int,
) -> int {
    (if q == seller && b == asset {
        -quantity
    } else {
        0
    }) + (if q == buyer && b == payment {
        -price
    } else {
        0
    })
}

/// The escrow-and-settlement ledger: escrow and locked balances keyed by
/// (participant, asset), the append-only nullifier registry, the settlement
/// journal, and the configuration fixed at construction.
pub struct DarkPoolSettlement {
    admin: u64,
    registry: u64,
    verifier: u64,
    verification_key: Vec<u8>,
    escrow: Vec<BalanceEntry>,
    locked: Vec<BalanceEntry>,
    nullifiers: Vec<Vec<u8>>,
    settlements: Vec<SettlementRecord>,
}

impl DarkPoolSettlement {
    /// The escrow balance table, as a mathematical sequence.
    pub closed spec fn escrow_table(self) -> Seq<BalanceEntry> {
        self.escrow@
    }

    /// The locked balance table, as a mathematical sequence.
    pub closed spec fn locked_table(self) -> Seq<BalanceEntry> {
        self.locked@
    }

    /// The registry of consumed nullifiers, in insertion order.
    pub closed spec fn nullifier_table(self) -> Seq<Vec<u8>> {
        self.nullifiers@
    }

    /// The journal of completed settlements, in insertion order.
    pub closed spec fn journal(self) -> Seq<RecordView> {
        self.settlements@.map_values(|r: SettlementRecord| r@)
    }

    /// Total custodied funds credited to `p` for asset `a`.
    pub open spec fn escrow_of(self, p: u64, a: u64) -> int {
        bal_of(self.escrow_table(), p, a)
    }

    /// The part of `p`'s escrow reserved against pending orders.
    pub open spec fn locked_of(self, p: u64, a: u64) -> int {
        bal_of(self.locked_table(), p, a)
    }

    /// The only amount withdrawable or further lockable.
    pub open spec fn available_of(self, p: u64, a: u64) -> int {
        self.escrow_of(p, a) - self.locked_of(p, a)
    }

    /// Whether the nullifier `n` has been consumed by a settlement.
    pub open spec fn nullifier_used_spec(self, n: Seq<u8>) -> bool {
        used_in(self.nullifier_table(), n)
    }

    pub closed spec fn admin_id(self) -> u64 {
        self.admin
    }

    pub closed spec fn registry_id(self) -> u64 {
        self.registry
    }

    pub closed spec fn verifier_id(self) -> u64 {
        self.verifier
    }

    pub closed spec fn verification_key_view(self) -> Seq<u8> {
        self.verification_key@
    }

    /// Well-formedness: balance tables have unique keys, and for every key
    /// the locked balance lies between zero and the escrow balance. Every
    /// public operation requires this and establishes it again, so it holds
    /// after any sequence of operations.
    pub open spec fn wf(self) -> bool {
        &&& unique_keys(self.escrow_table())
        &&& unique_keys(self.locked_table())
        &&& forall|p: u64, a: u64|
            0 <= #[trigger] self.locked_of(p, a) && self.locked_of(p, a) <= self.escrow_of(p, a)
    }

    /// The configuration fixed at construction never changes.
    pub open spec fn same_config(pre: Self, post: Self) -> bool {
        &&& post.admin_id() == pre.admin_id()
        &&& post.registry_id() == pre.registry_id()
        &&& post.verifier_id() == pre.verifier_id()
        &&& post.verification_key_view() == pre.verification_key_view()
    }

    /// Two ledger states that agree in every observable respect: a failed
    /// operation leaves the ledger exactly as if it never ran.
    pub open spec fn unchanged(pre: Self, post: Self) -> bool {
        &&& post.escrow_table() == pre.escrow_table()
        &&& post.locked_table() == pre.locked_table()
        &&& post.nullifier_table() == pre.nullifier_table()
        &&& post.journal() == pre.journal()
        &&& Self::same_config(pre, post)
    }

    /// How a successful deposit transforms the ledger: exactly the target
    /// escrow balance grows, by exactly the deposited amount.
    pub open spec fn deposit_transition(pre: Self, post: Self, p: u64, a: u64, amount: int) -> bool {
        &&& post.escrow_of(p, a) == pre.escrow_of(p, a) + amount
        &&& (forall|q: u64, b: u64|
            !(q == p && b == a) ==> #[trigger] post.escrow_of(q, b) == pre.escrow_of(q, b))
        &&& (forall|q: u64, b: u64| #[trigger] post.locked_of(q, b) == pre.locked_of(q, b))
        &&& post.nullifier_table() == pre.nullifier_table()
        &&& post.journal() == pre.journal()
        &&& Self::same_config(pre, post)
    }

    /// How a successful withdrawal transforms the ledger: exactly the target
    /// escrow balance shrinks, by exactly the withdrawn amount.
    pub open spec fn withdraw_transition(
        pre: Self,
        post: Self,
        p: u64,
        a: u64,
        amount: int,
    ) -> bool {
        &&& post.escrow_of(p, a) == pre.escrow_of(p, a) - amount
        &&& (forall|q: u64, b: u64|
            !(q == p && b == a) ==> #[trigger] post.escrow_of(q, b) == pre.escrow_of(q, b))
        &&& (forall|q: u64, b: u64| #[trigger] post.locked_of(q, b) == pre.locked_of(q, b))
        &&& post.nullifier_table() == pre.nullifier_table()
        &&& post.journal() == pre.journal()
        &&& Self::same_config(pre, post)
    }

    /// How a successful lock transforms the ledger: exactly the target
    /// locked balance grows, by exactly the locked amount.
    pub open spec fn lock_transition(pre: Self, post: Self, p: u64, a: u64, amount: int) -> bool {
        &&& post.locked_of(p, a) == pre.locked_of(p, a) + amount
        &&& (forall|q: u64, b: u64|
            !(q == p && b == a) ==> #[trigger] post.locked_of(q, b) == pre.locked_of(q, b))
        &&& (forall|q: u64, b: u64| #[trigger] post.escrow_of(q, b) == pre.escrow_of(q, b))
        &&& post.nullifier_table() == pre.nullifier_table()
        &&& post.journal() == pre.journal()
        &&& Self::same_config(pre, post)
    }

    /// How a successful unlock transforms the ledger: exactly the target
    /// locked balance shrinks, by exactly the unlocked amount.
    pub open spec fn unlock_transition(pre: Self, post: Self, p: u64, a: u64, amount: int) -> bool {
        &&& post.locked_of(p, a) == pre.locked_of(p, a) - amount
        &&& (forall|q: u64, b: u64|
            !(q == p && b == a) ==> #[trigger] post.locked_of(q, b) == pre.locked_of(q, b))
        &&& (forall|q: u64, b: u64| #[trigger] post.escrow_of(q, b) == pre.escrow_of(q, b))
        &&& post.nullifier_table() == pre.nullifier_table()
        &&& post.journal() == pre.journal()
        &&& Self::same_config(pre, post)
    }

    /// Create a fresh ledger: no balances, no consumed nullifiers, an empty
    /// journal, and the given administrator, registry and verifier
    /// identities together with the verification key for settlement proofs.
    pub fn new(admin: u64, registry: u64, verifier: u64, verification_key: Vec<u8>) -> (r: Self)
        ensures
            r.wf(),
            r.admin_id() == admin,
            r.registry_id() == registry,
            r.verifier_id() == verifier,
            r.verification_key_view() == verification_key@,
            forall|p: u64, a: u64| #[trigger] r.escrow_of(p, a) == 0,
            forall|p: u64, a: u64| #[trigger] r.locked_of(p, a) == 0,
            forall|n: Seq<u8>| !(#[trigger] r.nullifier_used_spec(n)),
            r.journal() == Seq::<RecordView>::empty(),
    {
        let r = DarkPoolSettlement {
            admin,
            registry,
            verifier,
            verification_key,
            escrow: Vec::new(),
            locked: Vec::new(),
            nullifiers: Vec::new(),
            settlements: Vec::new(),
        };
        proof {
            assert(r.journal() =~= Seq::<RecordView>::empty());
        }
        r
    }

    /// Credit `amount` of `asset` to `participant`'s escrow and return the
    /// new escrow balance. The matching external token transfer into the
    /// ledger's custody is the caller's duty: it must have succeeded before
    /// the credit is applied, so that the two effects commit as one unit.
    pub fn deposit(&mut self, participant: u64, asset: u64, amount: i128) -> (r: Result<
        i128,
        SettlementError,
    >)
        requires
            old(self).wf(),
            amount >= 0,
            old(self).escrow_of(participant, asset) + amount <= i128::MAX,
        ensures
            final(self).wf(),
            Self::deposit_transition(*old(self), *final(self), participant, asset, amount as int),
            r matches Ok(v) && v as int == old(self).escrow_of(participant, asset) + amount,
    {
        let current = lookup(&self.escrow, participant, asset);
        proof {
            assert(0 <= old(self).locked_of(participant, asset) && old(self).locked_of(
                participant,
                asset,
            ) <= old(self).escrow_of(participant, asset));
        }
        let updated = current + amount;
        store(&mut self.escrow, participant, asset, updated);
        proof {
            self.lemma_wf_after_escrow_grow(*old(self), participant, asset);
        }
        Ok(updated)
    }

    /// Debit `amount` of `asset` from `participant`'s escrow and return the
    /// new escrow balance; fails when the available (unlocked) balance
    /// cannot cover it. The matching external token transfer back to the
    /// participant is the caller's duty, after the debit commits.
    pub fn withdraw(&mut self, participant: u64, asset: u64, amount: i128) -> (r: Result<
        i128,
        SettlementError,
    >)
        requires
            old(self).wf(),
            amount >= 0,
        ensures
            final(self).wf(),
            old(self).available_of(participant, asset) < amount ==> r == Err::<
                i128,
                SettlementError,
            >(SettlementError::InsufficientBalance) && Self::unchanged(*old(self), *final(self)),
            old(self).available_of(participant, asset) >= amount ==> {
                &&& Self::withdraw_transition(
                    *old(self),
                    *final(self),
                    participant,
                    asset,
                    amount as int,
                )
                &&& r matches Ok(v) && v as int == old(self).escrow_of(participant, asset) - amount
            },
    {
        let escrow_balance = lookup(&self.escrow, participant, asset);
        let locked_balance = lookup(&self.locked, participant, asset);
        proof {
            assert(0 <= old(self).locked_of(participant, asset) && old(self).locked_of(
                participant,
                asset,
            ) <= old(self).escrow_of(participant, asset));
        }
        let available = escrow_balance - locked_balance;
        if available < amount {
            return Err(SettlementError::InsufficientBalance);
        }
        let updated = escrow_balance - amount;
        store(&mut self.escrow, participant, asset, updated);
        proof {
            assert forall|q: u64, b: u64|
                0 <= #[trigger] self.locked_of(q, b) && self.locked_of(q, b) <= self.escrow_of(
                    q,
                    b,
                ) by {
                assert(0 <= old(self).locked_of(q, b) && old(self).locked_of(q, b) <= old(
                    self,
                ).escrow_of(q, b));
                assert(self.locked_of(q, b) == old(self).locked_of(q, b));
                if !(q == participant && b == asset) {
                    assert(bal_of(self.escrow@, q, b) == bal_of(old(self).escrow@, q, b));
                }
            }
        }
        Ok(updated)
    }

    /// Reserve `amount` of `participant`'s escrowed `asset` against a
    /// pending order; fails when the available balance cannot cover it.
    pub fn lock_escrow(&mut self, participant: u64, asset: u64, amount: i128) -> (r: Result<
        (),
        SettlementError,
    >)
        requires
            old(self).wf(),
            amount >= 0,
        ensures
            final(self).wf(),
            old(self).available_of(participant, asset) < amount ==> r == Err::<
                (),
                SettlementError,
            >(SettlementError::InsufficientEscrow) && Self::unchanged(*old(self), *final(self)),
            old(self).available_of(participant, asset) >= amount ==> r is Ok
                && Self::lock_transition(
                *old(self),
                *final(self),
                participant,
                asset,
                amount as int,
            ),
    {
        let escrow_balance = lookup(&self.escrow, participant, asset);
        let locked_balance = lookup(&self.locked, participant, asset);
        proof {
            assert(0 <= old(self).locked_of(participant, asset) && old(self).locked_of(
                participant,
                asset,
            ) <= old(self).escrow_of(participant, asset));
            lemma_bal_in_range(self.escrow@, participant, asset);
        }
        let available = escrow_balance - locked_balance;
        if available < amount {
            return Err(SettlementError::InsufficientEscrow);
        }
        store(&mut self.locked, participant, asset, locked_balance + amount);
        proof {
            assert forall|q: u64, b: u64|
                0 <= #[trigger] self.locked_of(q, b) && self.locked_of(q, b) <= self.escrow_of(
                    q,
                    b,
                ) by {
                assert(0 <= old(self).locked_of(q, b) && old(self).locked_of(q, b) <= old(
                    self,
                ).escrow_of(q, b));
                assert(self.escrow_of(q, b) == old(self).escrow_of(q, b));
                if !(q == participant && b == asset) {
                    assert(bal_of(self.locked@, q, b) == bal_of(old(self).locked@, q, b));
                }
            }
        }
        Ok(())
    }

    /// Release `amount` of `participant`'s locked `asset` when a pending
    /// order is cancelled; fails when the locked balance cannot cover it.
    pub fn unlock_escrow(&mut self, participant: u64, asset: u64, amount: i128) -> (r: Result<
        (),
        SettlementError,
    >)
        requires
            old(self).wf(),
            amount >= 0,
        ensures
            final(self).wf(),
            old(self).locked_of(participant, asset) < amount ==> r == Err::<
                (),
                SettlementError,
            >(SettlementError::InsufficientLockedFunds) && Self::unchanged(
                *old(self),
                *final(self),
            ),
            old(self).locked_of(participant, asset) >= amount ==> r is Ok
                && Self::unlock_transition(
                *old(self),
                *final(self),
                participant,
                asset,
                amount as int,
            ),
    {
        let locked_balance = lookup(&self.locked, participant, asset);
        if locked_balance < amount {
            return Err(SettlementError::InsufficientLockedFunds);
        }
        proof {
            assert(0 <= old(self).locked_of(participant, asset) && old(self).locked_of(
                participant,
                asset,
            ) <= old(self).escrow_of(participant, asset));
        }
        store(&mut self.locked, participant, asset, locked_balance - amount);
        proof {
            assert forall|q: u64, b: u64|
                0 <= #[trigger] self.locked_of(q, b) && self.locked_of(q, b) <= self.escrow_of(
                    q,
                    b,
                ) by {
                assert(0 <= old(self).locked_of(q, b) && old(self).locked_of(q, b) <= old(
                    self,
                ).escrow_of(q, b));
                assert(self.escrow_of(q, b) == old(self).escrow_of(q, b));
                if !(q == participant && b == asset) {
                    assert(bal_of(self.locked@, q, b) == bal_of(old(self).locked@, q, b));
                }
            }
        }
        Ok(())
    }

    /// The escrow balance for `(participant, asset)`; zero for unknown keys.
    pub fn get_escrow_balance(&self, participant: u64, asset: u64) -> (r: i128)
        requires
            self.wf(),
        ensures
            r as int == self.escrow_of(participant, asset),
    {
        lookup(&self.escrow, participant, asset)
    }

    /// The locked balance for `(participant, asset)`; zero for unknown keys.
    pub fn get_locked_balance(&self, participant: u64, asset: u64) -> (r: i128)
        requires
            self.wf(),
        ensures
            r as int == self.locked_of(participant, asset),
    {
        lookup(&self.locked, participant, asset)
    }

    /// The available (escrow minus locked) balance for
    /// `(participant, asset)`; zero for unknown keys.
    pub fn get_available_balance(&self, participant: u64, asset: u64) -> (r: i128)
        requires
            self.wf(),
        ensures
            r as int == self.available_of(participant, asset),
    {
        let escrow_balance = lookup(&self.escrow, participant, asset);
        let locked_balance = lookup(&self.locked, participant, asset);
        proof {
            assert(0 <= self.locked_of(participant, asset) && self.locked_of(participant, asset)
                <= self.escrow_of(participant, asset));
        }
        escrow_balance - locked_balance
    }

    /// Whether `nullifier` has been consumed by an earlier settlement.
    pub fn is_nullifier_used(&self, nullifier: &Vec<u8>) -> (r: bool)
        ensures
            r == self.nullifier_used_spec(nullifier@),
    {
        let mut i: usize = 0;
        while i < self.nullifiers.len()
            invariant
                i <= self.nullifiers@.len(),
                forall|j: int| 0 <= j < i ==> #[trigger] self.nullifiers@[j]@ != nullifier@,
            decreases self.nullifiers@.len() - i,
        {
            if bytes_eq(&self.nullifiers[i], nullifier) {
                return true;
            }
            i += 1;
        }
        false
    }

    /// The administrator identity fixed at construction.
    pub fn get_admin(&self) -> (r: u64)
        ensures
            r == self.admin_id(),
    {
        self.admin
    }

    /// The whitelist registry service identity fixed at construction.
    pub fn get_registry(&self) -> (r: u64)
        ensures
            r == self.registry_id(),
    {
        self.registry
    }

    /// The proof verifier service identity fixed at construction.
    pub fn get_verifier(&self) -> (r: u64)
        ensures
            r == self.verifier_id(),
    {
        self.verifier
    }

    /// The verification key for settlement proofs, as stored at
    /// construction; the caller hands it to the external verifier.
    pub fn get_verification_key(&self) -> (r: &Vec<u8>)
        ensures
            r@ == self.verification_key_view(),
    {
        &self.verification_key
    }

    /// All settlement records, in insertion order.
    pub fn get_settlements(&self) -> (r: Vec<SettlementRecord>)
        ensures
            r@.len() == self.journal().len(),
            forall|i: int| 0 <= i < r@.len() ==> #[trigger] r@[i]@ == self.journal()[i],
    {
        let mut out: Vec<SettlementRecord> = Vec::new();
        let mut i: usize = 0;
        while i < self.settlements.len()
            invariant
                i <= self.settlements@.len(),
                out@.len() == i,
                forall|j: int| 0 <= j < i ==> #[trigger] out@[j]@ == self.settlements@[j]@,
            decreases self.settlements@.len() - i,
        {
            out.push(self.settlements[i].clone());
            i += 1;
        }
        out
    }

    /// The first settlement recorded under `match_id`, by insertion order,
    /// if any. Match identifiers are not required to be unique, so "first"
    /// matters only when they repeat.
    pub fn get_settlement(&self, match_id: &Vec<u8>) -> (r: Option<SettlementRecord>)
        ensures
            r is Some <==> (exists|i: int|
                0 <= i < self.journal().len() && (#[trigger] self.journal()[i]).match_id
                    == match_id@),
            r matches Some(rec) ==> (exists|i: int|
                {
                    &&& 0 <= i < self.journal().len()
                    &&& rec@ == #[trigger] self.journal()[i]
                    &&& self.journal()[i].match_id == match_id@
                    &&& forall|j: int|
                        0 <= j < i ==> (#[trigger] self.journal()[j]).match_id != match_id@
                }),
    {
        let mut i: usize = 0;
        while i < self.settlements.len()
            invariant
                i <= self.settlements@.len(),
                forall|j: int| 0 <= j < i ==> (#[trigger] self.settlements@[j])@.match_id != match_id@,
            decreases self.settlements@.len() - i,
        {
            if bytes_eq(&self.settlements[i].match_id, match_id) {
                let found = self.settlements[i].clone();
                proof {
                    assert(self.journal()[i as int] == self.settlements@[i as int]@);
                    assert(forall|j: int|
                        0 <= j < i ==> (#[trigger] self.journal()[j]).match_id != match_id@);
                }
                return Some(found);
            }
            i += 1;
        }
        proof {
            assert(forall|j: int|
                0 <= j < self.journal().len() ==> (#[trigger] self.journal()[j]).match_id
                    != match_id@);
        }
        None
    }

    /// Record `nullifier` as consumed. Internal: only settlement calls
    /// this, after all its checks have passed.
    fn mark_nullifier_used(&mut self, nullifier: &Vec<u8>)
        ensures
            final(self).escrow@ == old(self).escrow@,
            final(self).locked@ == old(self).locked@,
            final(self).settlements@ == old(self).settlements@,
            Self::same_config(*old(self), *final(self)),
            forall|n: Seq<u8>|
                #[trigger] final(self).nullifier_used_spec(n) <==> (old(
                    self,
                ).nullifier_used_spec(n) || n == nullifier@),
    {
        let entry = copy_bytes(nullifier);
        self.nullifiers.push(entry);
        proof {
            let s0 = old(self).nullifiers@;
            let s1 = self.nullifiers@;
            assert forall|n: Seq<u8>|
                #[trigger] self.nullifier_used_spec(n) <==> (old(self).nullifier_used_spec(n) || n
                    == nullifier@) by {
                if used_in(s1, n) {
                    let i = choose|i: int| 0 <= i < s1.len() && #[trigger] s1[i]@ == n;
                    if i < s0.len() {
                        assert(s0[i]@ == n);
                    } else {
                        assert(n == nullifier@);
                    }
                }
                if used_in(s0, n) {
                    let i = choose|i: int| 0 <= i < s0.len() && #[trigger] s0[i]@ == n;
                    assert(s1[i]@ == n);
                }
                if n == nullifier@ {
                    assert(s1[s1.len() - 1]@ == n);
                }
            }
        }
    }

    /// How a successful one-leg escrow transfer transforms the ledger:
    /// `from`'s lock and escrow each shrink by `amount`, and `to`'s escrow
    /// grows by it.
    pub open spec fn transfer_transition(
        pre: Self,
        post: Self,
        from: u64,
        to: u64,
        asset: u64,
        amount: int,
    ) -> bool {
        &&& (forall|q: u64, b: u64|
            #[trigger] post.escrow_of(q, b) == pre.escrow_of(q, b) - (if q == from && b == asset {
                amount
            } else {
                0
            }) + (if q == to && b == asset {
                amount
            } else {
                0
            }))
        &&& (forall|q: u64, b: u64|
            #[trigger] post.locked_of(q, b) == pre.locked_of(q, b) - (if q == from && b == asset {
                amount
            } else {
                0
            }))
        &&& post.nullifier_table() == pre.nullifier_table()
        &&& post.journal() == pre.journal()
        &&& Self::same_config(pre, post)
    }

    /// Move `amount` of `asset` from `from`'s locked escrow into `to`'s
    /// escrow: the sender's lock and escrow shrink together and the
    /// receiver's escrow grows. Internal primitive used only by settlement;
    /// its three balance updates commit together or the ledger stays
    /// untouched.
    fn transfer_from_escrow(&mut self, from: u64, to: u64, asset: u64, amount: i128) -> (r: Result<
        (),
        SettlementError,
    >)
        requires
            old(self).wf(),
            amount >= 0,
            old(self).escrow_of(to, asset) + amount <= i128::MAX,
        ensures
            final(self).wf(),
            old(self).locked_of(from, asset) < amount ==> r == Err::<(), SettlementError>(
                SettlementError::InsufficientLockedFunds,
            ) && Self::unchanged(*old(self), *final(self)),
            old(self).locked_of(from, asset) >= amount ==> r is Ok && Self::transfer_transition(
                *old(self),
                *final(self),
                from,
                to,
                asset,
                amount as int,
            ),
    {
        let from_locked = lookup(&self.locked, from, asset);
        if from_locked < amount {
            return Err(SettlementError::InsufficientLockedFunds);
        }
        proof {
            assert(0 <= old(self).locked_of(from, asset) && old(self).locked_of(from, asset) <= old(
                self,
            ).escrow_of(from, asset));
        }
        store(&mut self.locked, from, asset, from_locked - amount);
        let ghost mid1 = *self;
        let from_escrow = lookup(&self.escrow, from, asset);
        if from_escrow < amount {
            // Unreachable in a well-formed ledger: escrow always covers the
            // lock that was just released. Kept as the consistency check
            // that the funds were properly locked before settlement.
            return Err(SettlementError::InsufficientEscrow);
        }
        store(&mut self.escrow, from, asset, from_escrow - amount);
        let ghost mid2 = *self;
        let to_escrow = lookup(&self.escrow, to, asset);
        proof {
            if !(to == from) {
                assert(bal_of(mid2.escrow@, to, asset) == bal_of(mid1.escrow@, to, asset));
            }
        }
        store(&mut self.escrow, to, asset, to_escrow + amount);
        proof {
            let pre = *old(self);
            let post = *self;
            assert forall|q: u64, b: u64|
                #[trigger] post.escrow_of(q, b) == pre.escrow_of(q, b) - (if q == from && b
                    == asset {
                    amount as int
                } else {
                    0
                }) + (if q == to && b == asset {
                    amount as int
                } else {
                    0
                }) by {
                if !(q == to && b == asset) {
                    assert(bal_of(post.escrow@, q, b) == bal_of(mid2.escrow@, q, b));
                }
                if !(q == from && b == asset) {
                    assert(bal_of(mid2.escrow@, q, b) == bal_of(mid1.escrow@, q, b));
                }
            }
            assert forall|q: u64, b: u64|
                #[trigger] post.locked_of(q, b) == pre.locked_of(q, b) - (if q == from && b
                    == asset {
                    amount as int
                } else {
                    0
                }) by {
                if !(q == from && b == asset) {
                    assert(bal_of(post.locked@, q, b) == bal_of(pre.locked@, q, b));
                }
            }
            assert forall|q: u64, b: u64|
                0 <= #[trigger] post.locked_of(q, b) && post.locked_of(q, b) <= post.escrow_of(
                    q,
                    b,
                ) by {
                assert(0 <= pre.locked_of(q, b) && pre.locked_of(q, b) <= pre.escrow_of(q, b));
                assert(post.escrow_of(q, b) == pre.escrow_of(q, b) - (if q == from && b == asset {
                    amount as int
                } else {
                    0
                }) + (if q == to && b == asset {
                    amount as int
                } else {
                    0
                }));
            }
        }
        Ok(())
    }

    /// The payload decodes to exactly the signal count a settlement needs.
    pub open spec fn signals_well_formed(payload: Seq<u8>) -> bool {
        decode_ok(payload) && declared_count(payload) == SETTLEMENT_SIGNAL_COUNT as int
    }

    /// The buyer's locked payment balance once the first settlement leg has
    /// released the seller's lock on the traded asset.
    pub open spec fn locked_payment_after_first_leg(
        pre: Self,
        buyer: u64,
        seller: u64,
        asset: u64,
        payment: u64,
        quantity: int,
    ) -> int {
        pre.locked_of(buyer, payment) - (if buyer == seller && payment == asset {
            quantity
        } else {
            0
        })
    }

    /// How a successful settlement transforms the ledger: the two-leg swap
    /// is applied to the balances, the proof's nullifier is consumed, and
    /// one record is appended to the journal.
    pub open spec fn settle_transition(
        pre: Self,
        post: Self,
        match_id: Seq<u8>,
        buyer: u64,
        seller: u64,
        asset: u64,
        payment: u64,
        quantity: int,
        price: int,
        nullifier: Seq<u8>,
        timestamp: u64,
    ) -> bool {
        &&& (forall|q: u64, b: u64|
            #[trigger] post.escrow_of(q, b) == pre.escrow_of(q, b) + swap_escrow_delta(
                q,
                b,
                buyer,
                seller,
                asset,
                payment,
                quantity,
                price,
            ))
        &&& (forall|q: u64, b: u64|
            #[trigger] post.locked_of(q, b) == pre.locked_of(q, b) + swap_locked_delta(
                q,
                b,
                buyer,
                seller,
                asset,
                payment,
                quantity,
                price,
            ))
        &&& (forall|n: Seq<u8>|
            #[trigger] post.nullifier_used_spec(n) <==> (pre.nullifier_used_spec(n) || n
                == nullifier))
        &&& post.journal() == pre.journal().push(
            (RecordView {
                match_id,
                buyer,
                seller,
                asset_address: asset,
                quantity,
                price,
                timestamp,
                nullifier,
            }),
        )
        &&& Self::same_config(pre, post)
    }

    /// Settle a matched trade: decode the proof's public signals, refuse a
    /// consumed nullifier, trust the external verifier's verdict, execute
    /// the atomic two-leg swap, consume the nullifier, and journal the
    /// settlement. Any failure leaves the ledger exactly as it was.
    ///
    /// `proof_valid` is the verdict of the external proof verifier over the
    /// verification key, the proof bytes and this same raw signal payload;
    /// `current_whitelist_root` is the registry's current whitelist root
    /// (compared only while the whitelist gate is enabled); `timestamp` is
    /// assigned by the execution environment at this instant.
    ///
    /// Settlement deliberately authenticates neither party: the proof is
    /// the cryptographic evidence of mutual agreement, and the funds were
    /// authorized into escrow under separate authenticated calls.
    pub fn settle_trade(
        &mut self,
        match_id: &Vec<u8>,
        buyer: u64,
        seller: u64,
        asset_address: u64,
        payment_asset: u64,
        quantity: i128,
        price: i128,
        proof_valid: bool,
        pub_signals_bytes: &Vec<u8>,
        current_whitelist_root: &Vec<u8>,
        timestamp: u64,
    ) -> (r: Result<SettlementRecord, SettlementError>)
        requires
            old(self).wf(),
            quantity >= 0,
            price >= 0,
            old(self).escrow_of(buyer, asset_address) + quantity + price <= i128::MAX,
            old(self).escrow_of(seller, payment_asset) + quantity + price <= i128::MAX,
        ensures
            final(self).wf(),
            r is Err ==> Self::unchanged(*old(self), *final(self)),
            !Self::signals_well_formed(pub_signals_bytes@) ==> r == Err::<
                SettlementRecord,
                SettlementError,
            >(SettlementError::InvalidProof),
            Self::signals_well_formed(pub_signals_bytes@) ==> ({
                let nullifier = signal_at(pub_signals_bytes@, NULLIFIER_SIGNAL_INDEX as int);
                let root_mismatch = WHITELIST_CHECK_ENABLED && signal_at(
                    pub_signals_bytes@,
                    WHITELIST_ROOT_SIGNAL_INDEX as int,
                ) != current_whitelist_root@;
                &&& (root_mismatch ==> r == Err::<SettlementRecord, SettlementError>(
                    SettlementError::WhitelistRootMismatch,
                ))
                &&& (!root_mismatch && old(self).nullifier_used_spec(nullifier) ==> r == Err::<
                    SettlementRecord,
                    SettlementError,
                >(SettlementError::NullifierUsed))
                &&& (!root_mismatch && !old(self).nullifier_used_spec(nullifier) && !proof_valid
                    ==> r == Err::<SettlementRecord, SettlementError>(SettlementError::InvalidProof))
                &&& (!root_mismatch && !old(self).nullifier_used_spec(nullifier) && proof_valid
                    ==> ({
                    let leg1_ok = old(self).locked_of(seller, asset_address) >= quantity;
                    let leg2_ok = Self::locked_payment_after_first_leg(
                        *old(self),
                        buyer,
                        seller,
                        asset_address,
                        payment_asset,
                        quantity as int,
                    ) >= price;
                    &&& (!(leg1_ok && leg2_ok) ==> r == Err::<SettlementRecord, SettlementError>(
                        SettlementError::InsufficientLockedFunds,
                    ))
                    &&& (leg1_ok && leg2_ok ==> ({
                        &&& Self::settle_transition(
                            *old(self),
                            *final(self),
                            match_id@,
                            buyer,
                            seller,
                            asset_address,
                            payment_asset,
                            quantity as int,
                            price as int,
                            nullifier,
                            timestamp,
                        )
                        &&& r matches Ok(rec) && rec@ == (RecordView {
                            match_id: match_id@,
                            buyer,
                            seller,
                            asset_address,
                            quantity: quantity as int,
                            price: price as int,
                            timestamp,
                            nullifier,
                        })
                    }))
                }))
            }),
    {
        let signals = match parse_public_signals(pub_signals_bytes) {
            Ok(s) => s,
            Err(e) => {
                return Err(e);
            },
        };
        if signals.len() != SETTLEMENT_SIGNAL_COUNT {
            return Err(SettlementError::InvalidProof);
        }
        let ghost nullifier_v = signal_at(pub_signals_bytes@, NULLIFIER_SIGNAL_INDEX as int);
        assert(signals@[NULLIFIER_SIGNAL_INDEX as int]@ == nullifier_v);

        if WHITELIST_CHECK_ENABLED {
            if !bytes_eq(&signals[WHITELIST_ROOT_SIGNAL_INDEX], current_whitelist_root) {
                return Err(SettlementError::WhitelistRootMismatch);
            }
        }

        if self.is_nullifier_used(&signals[NULLIFIER_SIGNAL_INDEX]) {
            return Err(SettlementError::NullifierUsed);
        }

        if !proof_valid {
            return Err(SettlementError::InvalidProof);
        }

        // Check both legs before mutating anything, so that the swap commits
        // atomically or not at all.
        let seller_locked = self.get_locked_balance(seller, asset_address);
        if seller_locked < quantity {
            return Err(SettlementError::InsufficientLockedFunds);
        }
        let buyer_locked = self.get_locked_balance(buyer, payment_asset);
        let buyer_locked_after_leg1 = if buyer == seller && payment_asset == asset_address {
            buyer_locked - quantity
        } else {
            buyer_locked
        };
        if buyer_locked_after_leg1 < price {
            return Err(SettlementError::InsufficientLockedFunds);
        }

        // Leg 1: the seller delivers the traded asset to the buyer.
        match self.transfer_from_escrow(seller, buyer, asset_address, quantity) {
            Ok(()) => {},
            Err(e) => {
                return Err(e);
            },
        }
        let ghost mid1 = *self;
        proof {
            assert(mid1.escrow_of(seller, payment_asset) <= old(self).escrow_of(
                seller,
                payment_asset,
            ) + quantity);
            assert(mid1.locked_of(buyer, payment_asset) == buyer_locked_after_leg1 as int);
        }

        // Leg 2: the buyer delivers the payment to the seller.
        match self.transfer_from_escrow(buyer, seller, payment_asset, price) {
            Ok(()) => {},
            Err(e) => {
                return Err(e);
            },
        }
        let ghost mid2 = *self;

        self.mark_nullifier_used(&signals[NULLIFIER_SIGNAL_INDEX]);
        let ghost mid3 = *self;

        let record = SettlementRecord {
            match_id: copy_bytes(match_id),
            buyer,
            seller,
            asset_address,
            quantity,
            price,
            timestamp,
            nullifier: copy_bytes(&signals[NULLIFIER_SIGNAL_INDEX]),
        };
        let appended = record.clone();
        self.settlements.push(appended);

        proof {
            let pre = *old(self);
            let post = *self;
            let view = (RecordView {
                match_id: match_id@,
                buyer,
                seller,
                asset_address,
                quantity: quantity as int,
                price: price as int,
                timestamp,
                nullifier: nullifier_v,
            });
            assert(record@ == view);

            assert forall|q: u64, b: u64|
                #[trigger] post.escrow_of(q, b) == pre.escrow_of(q, b) + swap_escrow_delta(
                    q,
                    b,
                    buyer,
                    seller,
                    asset_address,
                    payment_asset,
                    quantity as int,
                    price as int,
                ) by {
                assert(post.escrow_of(q, b) == mid2.escrow_of(q, b));
                assert(mid2.escrow_of(q, b) == mid1.escrow_of(q, b) - (if q == buyer && b
                    == payment_asset {
                    price as int
                } else {
                    0
                }) + (if q == seller && b == payment_asset {
                    price as int
                } else {
                    0
                }));
                assert(mid1.escrow_of(q, b) == pre.escrow_of(q, b) - (if q == seller && b
                    == asset_address {
                    quantity as int
                } else {
                    0
                }) + (if q == buyer && b == asset_address {
                    quantity as int
                } else {
                    0
                }));
            }
            assert forall|q: u64, b: u64|
                #[trigger] post.locked_of(q, b) == pre.locked_of(q, b) + swap_locked_delta(
                    q,
                    b,
                    buyer,
                    seller,
                    asset_address,
                    payment_asset,
                    quantity as int,
                    price as int,
                ) by {
                assert(post.locked_of(q, b) == mid2.locked_of(q, b));
                assert(mid2.locked_of(q, b) == mid1.locked_of(q, b) - (if q == buyer && b
                    == payment_asset {
                    price as int
                } else {
                    0
                }));
                assert(mid1.locked_of(q, b) == pre.locked_of(q, b) - (if q == seller && b
                    == asset_address {
                    quantity as int
                } else {
                    0
                }));
            }
            assert forall|q: u64, b: u64|
                0 <= #[trigger] post.locked_of(q, b) && post.locked_of(q, b) <= post.escrow_of(
                    q,
                    b,
                ) by {
                assert(0 <= mid2.locked_of(q, b) && mid2.locked_of(q, b) <= mid2.escrow_of(q, b));
                assert(post.locked_of(q, b) == mid2.locked_of(q, b));
                assert(post.escrow_of(q, b) == mid2.escrow_of(q, b));
            }
            assert forall|n: Seq<u8>|
                #[trigger] post.nullifier_used_spec(n) <==> (pre.nullifier_used_spec(n) || n
                    == nullifier_v) by {
                assert(mid3.nullifier_used_spec(n) <==> (mid2.nullifier_used_spec(n) || n
                    == nullifier_v));
            }
            assert(post.journal() =~= pre.journal().push(view));
        }
        Ok(record)
    }

    /// Re-establish well-formedness after a store that only increased one
    /// escrow balance and touched nothing else.
    proof fn lemma_wf_after_escrow_grow(self, pre: Self, p: u64, a: u64)
        requires
            pre.wf(),
            self.locked@ == pre.locked@,
            unique_keys(self.escrow@),
            self.escrow_of(p, a) >= pre.escrow_of(p, a),
            forall|q: u64, b: u64|
                !(q == p && b == a) ==> #[trigger] bal_of(self.escrow@, q, b) == bal_of(
                    pre.escrow@,
                    q,
                    b,
                ),
        ensures
            self.wf(),
    {
        assert forall|q: u64, b: u64|
            0 <= #[trigger] self.locked_of(q, b) && self.locked_of(q, b) <= self.escrow_of(
                q,
                b,
            ) by {
            assert(0 <= pre.locked_of(q, b) && pre.locked_of(q, b) <= pre.escrow_of(q, b));
            assert(self.locked_of(q, b) == pre.locked_of(q, b));
            if !(q == p && b == a) {
                assert(bal_of(self.escrow@, q, b) == bal_of(pre.escrow@, q, b));
            }
        }
    }
}

} // verus!
