use vstd::prelude::*;

verus! {

/// The key of one balance cell: a participant identity and an asset
/// identity. Identities are opaque tokens supplied by the caller; equality
/// is exact.
#[derive(Clone, Copy, PartialEq, Eq, Structural)]
pub struct EscrowKey {
    pub participant: u64,
    pub asset: u64,
}

/// One balance cell of a table: a key and the amount it holds.
#[derive(Clone, Copy, PartialEq, Eq, Structural)]
pub struct BalanceEntry {
    pub key: EscrowKey,
    pub amount: i128,
}

/// Whether an entry is keyed by `(p, a)`.
pub open spec fn entry_matches(e: BalanceEntry, p: u64, a: u64) -> bool {
    e.key.participant == p && e.key.asset == a
}

/// The balance a table assigns to `(p, a)`: the amount of its matching
/// entry, or zero when no entry matches. With unique keys the matching
/// entry is unique.
pub open spec fn bal_of(s: Seq<BalanceEntry>, p: u64, a: u64) -> int
    decreases s.len(),
{
    if s.len() == 0 {
        0
    } else if entry_matches(s.last(), p, a) {
        s.last().amount as int
    } else {
        bal_of(s.drop_last(), p, a)
    }
}

/// Whether some entry of the table is keyed by `(p, a)`.
pub open spec fn has_key(s: Seq<BalanceEntry>, p: u64, a: u64) -> bool {
    exists|i: int| 0 <= i < s.len() && entry_matches(#[trigger] s[i], p, a)
}

/// No two entries of the table share a key.
pub open spec fn unique_keys(s: Seq<BalanceEntry>) -> bool {
    forall|i: int, j: int|
        0 <= i < j < s.len() ==> !entry_matches(
            #[trigger] s[i],
            (#[trigger] s[j]).key.participant,
            s[j].key.asset,
        )
}

/// A table without an entry for `(p, a)` assigns it balance zero.
pub proof fn lemma_bal_absent(s: Seq<BalanceEntry>, p: u64, a: u64)
    requires
        !has_key(s, p, a),
    ensures
        bal_of(s, p, a) == 0,
    decreases s.len(),
{
    if s.len() > 0 {
        assert(!entry_matches(s[s.len() - 1], p, a));
        assert(forall|i: int| 0 <= i < s.len() - 1 ==> s.drop_last()[i] == s[i]);
        lemma_bal_absent(s.drop_last(), p, a);
    }
}

/// In a table with unique keys, the balance of `(p, a)` is the amount of
/// the entry found at any matching index.
pub proof fn lemma_bal_found(s: Seq<BalanceEntry>, p: u64, a: u64, i: int)
    requires
        unique_keys(s),
        0 <= i < s.len(),
        entry_matches(s[i], p, a),
    ensures
        bal_of(s, p, a) == s[i].amount as int,
    decreases s.len(),
{
    if i == s.len() - 1 {
        assert(entry_matches(s.last(), p, a));
    } else {
        assert(!entry_matches(s[s.len() - 1], p, a));
        assert(forall|x: int| 0 <= x < s.len() - 1 ==> s.drop_last()[x] == s[x]);
        lemma_bal_found(s.drop_last(), p, a, i);
    }
}

/// Updating the entry at a matching index leaves every other key's balance
/// unchanged.
pub proof fn lemma_bal_update_frame(s: Seq<BalanceEntry>, i: int, e: BalanceEntry, p: u64, a: u64)
    requires
        unique_keys(s),
        0 <= i < s.len(),
        entry_matches(s[i], e.key.participant, e.key.asset),
        !entry_matches(e, p, a),
        !entry_matches(s[i], p, a),
    ensures
        bal_of(s.update(i, e), p, a) == bal_of(s, p, a),
    decreases s.len(),
{
    let t = s.update(i, e);
    if i == s.len() - 1 {
        assert(t.drop_last() =~= s.drop_last());
    } else {
        assert(t.last() == s.last());
        assert(t.drop_last() =~= s.drop_last().update(i, e));
        assert(forall|x: int| 0 <= x < s.len() - 1 ==> s.drop_last()[x] == s[x]);
        if entry_matches(s.last(), p, a) {
        } else {
            lemma_bal_update_frame(s.drop_last(), i, e, p, a);
        }
    }
}

/// Appending an entry for a fresh key leaves every other key's balance
/// unchanged.
pub proof fn lemma_bal_push_frame(s: Seq<BalanceEntry>, e: BalanceEntry, p: u64, a: u64)
    requires
        !entry_matches(e, p, a),
    ensures
        bal_of(s.push(e), p, a) == bal_of(s, p, a),
{
    assert(s.push(e).drop_last() =~= s);
}

/// Every balance a table assigns is the amount of one of its entries or
/// zero, so it always fits a signed 128-bit value.
pub proof fn lemma_bal_in_range(s: Seq<BalanceEntry>, p: u64, a: u64)
    ensures
        i128::MIN <= bal_of(s, p, a) <= i128::MAX,
    decreases s.len(),
{
    if s.len() > 0 && !entry_matches(s.last(), p, a) {
        lemma_bal_in_range(s.drop_last(), p, a);
    }
}

/// Read the balance for `(p, a)`; unknown keys read as zero.
pub fn lookup(table: &Vec<BalanceEntry>, p: u64, a: u64) -> (r: i128)
    requires
        unique_keys(table@),
    ensures
        r as int == bal_of(table@, p, a),
{
    let mut i: usize = 0;
    while i < table.len()
        invariant
            unique_keys(table@),
            i <= table@.len(),
            forall|j: int| 0 <= j < i ==> !entry_matches(#[trigger] table@[j], p, a),
        decreases table@.len() - i,
    {
        if table[i].key.participant == p && table[i].key.asset == a {
            proof {
                lemma_bal_found(table@, p, a, i as int);
            }
            return table[i].amount;
        }
        i += 1;
    }
    proof {
        assert(!has_key(table@, p, a));
        lemma_bal_absent(table@, p, a);
    }
    0
}

/// Write `value` as the balance for `(p, a)`, adding an entry when none
/// exists. Every other key's balance is untouched.
pub fn store(table: &mut Vec<BalanceEntry>, p: u64, a: u64, value: i128)
    requires
        unique_keys(old(table)@),
    ensures
        unique_keys(final(table)@),
        bal_of(final(table)@, p, a) == value as int,
        forall|q: u64, b: u64|
            !(q == p && b == a) ==> #[trigger] bal_of(final(table)@, q, b) == bal_of(
                old(table)@,
                q,
                b,
            ),
{
    let ghost s0 = table@;
    let n = table.len();
    let mut i: usize = 0;
    while i < n
        invariant
            n == table@.len(),
            unique_keys(table@),
            table@ == s0,
            s0 == old(table)@,
            i <= n,
            forall|j: int| 0 <= j < i ==> !entry_matches(#[trigger] table@[j], p, a),
        decreases n - i,
    {
        if table[i].key.participant == p && table[i].key.asset == a {
            let e = BalanceEntry { key: (EscrowKey { participant: p, asset: a }), amount: value };
            proof {
                let ii = i as int;
                assert(s0[ii].key.participant == p && s0[ii].key.asset == a);
                let t = s0.update(ii, e);
                assert forall|x: int, y: int| 0 <= x < y < t.len() implies !entry_matches(
                    #[trigger] t[x],
                    (#[trigger] t[y]).key.participant,
                    t[y].key.asset,
                ) by {
                    assert(t[x] == (if x == ii { e } else { s0[x] }));
                    assert(t[y] == (if y == ii { e } else { s0[y] }));
                    assert(t[x].key.participant == s0[x].key.participant && t[x].key.asset == s0[x].key.asset);
                    assert(t[y].key.participant == s0[y].key.participant && t[y].key.asset == s0[y].key.asset);
                    assert(!entry_matches(s0[x], s0[y].key.participant, s0[y].key.asset));
                }
                assert(unique_keys(t));
            }
            table.set(i, e);
            proof {
                lemma_bal_found(table@, p, a, i as int);
                assert forall|q: u64, b: u64| !(q == p && b == a) implies #[trigger] bal_of(
                    table@,
                    q,
                    b,
                ) == bal_of(s0, q, b) by {
                    lemma_bal_update_frame(s0, i as int, e, q, b);
                }
            }
            return;
        }
        i += 1;
    }
    proof {
        assert(!has_key(s0, p, a));
    }
    let e = BalanceEntry { key: (EscrowKey { participant: p, asset: a }), amount: value };
    table.push(e);
    proof {
        assert(table@ == s0.push(e));
        assert(table@.last() == e);
        assert(table@.drop_last() =~= s0);
        assert forall|x: int, y: int| 0 <= x < y < table@.len() implies !entry_matches(
            #[trigger] table@[x],
            (#[trigger] table@[y]).key.participant,
            table@[y].key.asset,
        ) by {
            if y < s0.len() {
                assert(table@[x] == s0[x] && table@[y] == s0[y]);
            } else {
                assert(table@[y] == e);
                assert(table@[x] == s0[x]);
                assert(!entry_matches(s0[x], p, a));
            }
        }
        assert forall|q: u64, b: u64| !(q == p && b == a) implies #[trigger] bal_of(table@, q, b)
            == bal_of(s0, q, b) by {
            lemma_bal_push_frame(s0, e, q, b);
        }
    }
}

} // verus!
