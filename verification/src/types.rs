use vstd::prelude::*;

verus! {

/// Identity of an unspent transaction output: the 32-byte id of the
/// transaction that created it and the index of the output within it.
pub struct Outpoint {
    pub txid: Vec<u8>,
    pub vout: u32,
}

/// A spendable plain-value output, as observed on chain.
pub struct Utxo {
    pub outpoint: Outpoint,
    pub value: u64,
    pub height: u32,
}

/// An output that carries a fungible-asset balance in addition to its
/// (dust-level) bitcoin value.
pub struct RunicUtxo {
    pub utxo: Utxo,
    pub balance: u128,
}

/// Stable asset identifier: the block that holds the etching transaction
/// and the transaction's index within that block.
#[derive(PartialEq, Eq, Structural, Clone, Copy, Debug)]
pub struct RuneId {
    pub block: u64,
    pub tx: u32,
}

/// A bitcoin destination, reduced to what transaction assembly reads of it:
/// its textual form (the custody pool key) and its output script.
pub struct Address {
    pub text: String,
    pub script_pubkey: Vec<u8>,
}

/// The chain a transaction is destined for.
#[derive(PartialEq, Eq, Structural, Clone, Copy)]
pub enum Network {
    Mainnet,
    Testnet,
    Regtest,
}

/// An owner identity: the raw bytes of the owning principal and an optional
/// 32-byte sub-identity.
pub struct Account {
    pub owner: Vec<u8>,
    pub subaccount: Option<Vec<u8>>,
}

/// Sum of the satoshi values of a sequence of plain outputs.
pub open spec fn sum_value(s: Seq<Utxo>) -> int
    decreases s.len(),
{
    if s.len() == 0 {
        0
    } else {
        sum_value(s.drop_last()) + s.last().value
    }
}

/// Sum of the asset balances of a sequence of rune-bearing outputs.
pub open spec fn sum_balance(s: Seq<RunicUtxo>) -> int
    decreases s.len(),
{
    if s.len() == 0 {
        0
    } else {
        sum_balance(s.drop_last()) + s.last().balance
    }
}

/// Sum of the satoshi values locked in a sequence of rune-bearing outputs.
pub open spec fn sum_runic_value(s: Seq<RunicUtxo>) -> int
    decreases s.len(),
{
    if s.len() == 0 {
        0
    } else {
        sum_runic_value(s.drop_last()) + s.last().utxo.value
    }
}

pub open spec fn same_outpoint(a: Outpoint, b: Outpoint) -> bool {
    a.txid@ == b.txid@ && a.vout == b.vout
}

pub open spec fn has_outpoint(s: Seq<Utxo>, op: Outpoint) -> bool {
    exists|i: int| 0 <= i < s.len() && same_outpoint(s[i].outpoint, op)
}

pub open spec fn has_outpoint_runic(s: Seq<RunicUtxo>, op: Outpoint) -> bool {
    exists|i: int| 0 <= i < s.len() && same_outpoint(s[i].utxo.outpoint, op)
}

/// No two outputs in the sequence refer to the same previous output.
pub open spec fn unique_outpoints(s: Seq<Utxo>) -> bool {
    forall|i: int, j: int|
        0 <= i < j < s.len() ==> !same_outpoint(s[i].outpoint, s[j].outpoint)
}

pub open spec fn unique_outpoints_runic(s: Seq<RunicUtxo>) -> bool {
    forall|i: int, j: int|
        0 <= i < j < s.len() ==> !same_outpoint(s[i].utxo.outpoint, s[j].utxo.outpoint)
}

/// Index of the first output with minimal satoshi value.
pub open spec fn min_value_index(s: Seq<Utxo>) -> int
    decreases s.len(),
{
    if s.len() <= 1 {
        0
    } else {
        let j = min_value_index(s.drop_last());
        if s.last().value < s[j].value {
            s.len() - 1
        } else {
            j
        }
    }
}

/// Index of the first rune-bearing output with minimal asset balance.
pub open spec fn min_balance_index(s: Seq<RunicUtxo>) -> int
    decreases s.len(),
{
    if s.len() <= 1 {
        0
    } else {
        let j = min_balance_index(s.drop_last());
        if s.last().balance < s[j].balance {
            s.len() - 1
        } else {
            j
        }
    }
}

/// Result of the idempotent merge: outputs of `add` whose outpoint is already
/// present (in `cur` or earlier in `add`) are skipped, the rest are appended
/// in order.
pub open spec fn merge_utxos(cur: Seq<Utxo>, add: Seq<Utxo>) -> Seq<Utxo>
    decreases add.len(),
{
    if add.len() == 0 {
        cur
    } else {
        let prev = merge_utxos(cur, add.drop_last());
        if has_outpoint(prev, add.last().outpoint) {
            prev
        } else {
            prev.push(add.last())
        }
    }
}

pub open spec fn merge_runic_utxos(cur: Seq<RunicUtxo>, add: Seq<RunicUtxo>) -> Seq<RunicUtxo>
    decreases add.len(),
{
    if add.len() == 0 {
        cur
    } else {
        let prev = merge_runic_utxos(cur, add.drop_last());
        if has_outpoint_runic(prev, add.last().utxo.outpoint) {
            prev
        } else {
            prev.push(add.last())
        }
    }
}

pub proof fn lemma_min_value_index(s: Seq<Utxo>)
    requires
        s.len() > 0,
    ensures
        0 <= min_value_index(s) < s.len(),
        forall|t: int| 0 <= t < s.len() ==> s[min_value_index(s)].value <= #[trigger] s[t].value,
        forall|t: int| 0 <= t < min_value_index(s) ==> s[min_value_index(s)].value < #[trigger] s[t].value,
    decreases s.len(),
{
    if s.len() > 1 {
        lemma_min_value_index(s.drop_last());
        assert(forall|t: int| 0 <= t < s.len() - 1 ==> s.drop_last()[t] == s[t]);
    }
}

pub proof fn lemma_min_balance_index(s: Seq<RunicUtxo>)
    requires
        s.len() > 0,
    ensures
        0 <= min_balance_index(s) < s.len(),
        forall|t: int| 0 <= t < s.len() ==> s[min_balance_index(s)].balance <= #[trigger] s[t].balance,
        forall|t: int| 0 <= t < min_balance_index(s) ==> s[min_balance_index(s)].balance < #[trigger] s[t].balance,
    decreases s.len(),
{
    if s.len() > 1 {
        lemma_min_balance_index(s.drop_last());
        assert(forall|t: int| 0 <= t < s.len() - 1 ==> s.drop_last()[t] == s[t]);
    }
}

/// Removing the element at `i` removes exactly its value from the sum.
pub proof fn lemma_sum_value_remove(s: Seq<Utxo>, i: int)
    requires
        0 <= i < s.len(),
    ensures
        sum_value(s.remove(i)) == sum_value(s) - s[i].value,
    decreases s.len(),
{
    if i == s.len() - 1 {
        assert(s.remove(i) =~= s.drop_last());
    } else {
        lemma_sum_value_remove(s.drop_last(), i);
        assert(s.remove(i).drop_last() =~= s.drop_last().remove(i));
        assert(s.remove(i).last() == s.last());
    }
}

pub proof fn lemma_sum_balance_remove(s: Seq<RunicUtxo>, i: int)
    requires
        0 <= i < s.len(),
    ensures
        sum_balance(s.remove(i)) == sum_balance(s) - s[i].balance,
        sum_runic_value(s.remove(i)) == sum_runic_value(s) - s[i].utxo.value,
    decreases s.len(),
{
    if i == s.len() - 1 {
        assert(s.remove(i) =~= s.drop_last());
    } else {
        lemma_sum_balance_remove(s.drop_last(), i);
        assert(s.remove(i).drop_last() =~= s.drop_last().remove(i));
        assert(s.remove(i).last() == s.last());
    }
}

/// Every element's value is bounded by the sum of a sequence of non-negative values.
pub proof fn lemma_sum_value_bounds(s: Seq<Utxo>)
    ensures
        sum_value(s) >= 0,
        forall|i: int| 0 <= i < s.len() ==> s[i].value <= sum_value(s),
    decreases s.len(),
{
    if s.len() > 0 {
        lemma_sum_value_bounds(s.drop_last());
        assert(forall|i: int| 0 <= i < s.len() - 1 ==> s.drop_last()[i] == s[i]);
    }
}

pub proof fn lemma_sum_balance_bounds(s: Seq<RunicUtxo>)
    ensures
        sum_balance(s) >= 0,
        sum_runic_value(s) >= 0,
        forall|i: int| 0 <= i < s.len() ==> s[i].balance <= sum_balance(s),
        forall|i: int| 0 <= i < s.len() ==> s[i].utxo.value <= sum_runic_value(s),
    decreases s.len(),
{
    if s.len() > 0 {
        lemma_sum_balance_bounds(s.drop_last());
        assert(forall|i: int| 0 <= i < s.len() - 1 ==> s.drop_last()[i] == s[i]);
    }
}

/// The idempotent merge keeps outpoints unique and never grows the sum past
/// the sum of both parts.
pub proof fn lemma_merge_utxos(cur: Seq<Utxo>, add: Seq<Utxo>)
    requires
        unique_outpoints(cur),
    ensures
        unique_outpoints(merge_utxos(cur, add)),
        sum_value(merge_utxos(cur, add)) <= sum_value(cur) + sum_value(add),
        sum_value(merge_utxos(cur, add)) >= sum_value(cur),
        forall|op: Outpoint|
            has_outpoint(merge_utxos(cur, add), op) <==> has_outpoint(cur, op) || has_outpoint(
                add,
                op,
            ),
    decreases add.len(),
{
    lemma_sum_value_bounds(add);
    if add.len() > 0 {
        lemma_merge_utxos(cur, add.drop_last());
        lemma_sum_value_bounds(add.drop_last());
        let prev = merge_utxos(cur, add.drop_last());
        let u = add.last();
        assert forall|op: Outpoint| has_outpoint(add, op) implies has_outpoint(add.drop_last(), op)
            || same_outpoint(u.outpoint, op) by {
            let i = choose|i: int| 0 <= i < add.len() && same_outpoint(add[i].outpoint, op);
            if i < add.len() - 1 {
                assert(add.drop_last()[i] == add[i]);
            }
        }
        assert forall|op: Outpoint| has_outpoint(add.drop_last(), op) implies has_outpoint(
            add,
            op,
        ) by {
            let i = choose|i: int|
                0 <= i < add.drop_last().len() && same_outpoint(add.drop_last()[i].outpoint, op);
            assert(add[i] == add.drop_last()[i]);
        }
        if !has_outpoint(prev, u.outpoint) {
            let merged = prev.push(u);
            assert forall|i: int, j: int| 0 <= i < j < merged.len() implies !same_outpoint(
                merged[i].outpoint,
                merged[j].outpoint,
            ) by {
                if j == merged.len() - 1 {
                    assert(merged[i] == prev[i]);
                    assert(!same_outpoint(prev[i].outpoint, u.outpoint));
                }
            }
            assert forall|op: Outpoint| has_outpoint(merged, op) implies has_outpoint(prev, op)
                || same_outpoint(u.outpoint, op) by {
                let i = choose|i: int|
                    0 <= i < merged.len() && same_outpoint(merged[i].outpoint, op);
                if i < merged.len() - 1 {
                    assert(merged[i] == prev[i]);
                }
            }
            assert forall|op: Outpoint| has_outpoint(prev, op) implies has_outpoint(merged, op) by {
                let i = choose|i: int| 0 <= i < prev.len() && same_outpoint(prev[i].outpoint, op);
                assert(merged[i] == prev[i]);
            }
            assert(merged.drop_last() =~= prev);
            assert(sum_value(merged) == sum_value(prev) + u.value);
        }
    }
}

pub proof fn lemma_merge_runic_utxos(cur: Seq<RunicUtxo>, add: Seq<RunicUtxo>)
    requires
        unique_outpoints_runic(cur),
    ensures
        unique_outpoints_runic(merge_runic_utxos(cur, add)),
        sum_balance(merge_runic_utxos(cur, add)) <= sum_balance(cur) + sum_balance(add),
        sum_balance(merge_runic_utxos(cur, add)) >= sum_balance(cur),
        forall|op: Outpoint|
            has_outpoint_runic(merge_runic_utxos(cur, add), op) <==> has_outpoint_runic(cur, op)
                || has_outpoint_runic(add, op),
    decreases add.len(),
{
    lemma_sum_balance_bounds(add);
    if add.len() > 0 {
        lemma_merge_runic_utxos(cur, add.drop_last());
        lemma_sum_balance_bounds(add.drop_last());
        let prev = merge_runic_utxos(cur, add.drop_last());
        let u = add.last();
        assert forall|op: Outpoint| has_outpoint_runic(add, op) implies has_outpoint_runic(
            add.drop_last(),
            op,
        ) || same_outpoint(u.utxo.outpoint, op) by {
            let i = choose|i: int| 0 <= i < add.len() && same_outpoint(add[i].utxo.outpoint, op);
            if i < add.len() - 1 {
                assert(add.drop_last()[i] == add[i]);
            }
        }
        assert forall|op: Outpoint| has_outpoint_runic(add.drop_last(), op) implies
            has_outpoint_runic(add, op) by {
            let i = choose|i: int|
                0 <= i < add.drop_last().len() && same_outpoint(
                    add.drop_last()[i].utxo.outpoint,
                    op,
                );
            assert(add[i] == add.drop_last()[i]);
        }
        if !has_outpoint_runic(prev, u.utxo.outpoint) {
            let merged = prev.push(u);
            assert forall|i: int, j: int| 0 <= i < j < merged.len() implies !same_outpoint(
                merged[i].utxo.outpoint,
                merged[j].utxo.outpoint,
            ) by {
                if j == merged.len() - 1 {
                    assert(merged[i] == prev[i]);
                    assert(!same_outpoint(prev[i].utxo.outpoint, u.utxo.outpoint));
                }
            }
            assert forall|op: Outpoint| has_outpoint_runic(merged, op) implies has_outpoint_runic(
                prev,
                op,
            ) || same_outpoint(u.utxo.outpoint, op) by {
                let i = choose|i: int|
                    0 <= i < merged.len() && same_outpoint(merged[i].utxo.outpoint, op);
                if i < merged.len() - 1 {
                    assert(merged[i] == prev[i]);
                }
            }
            assert forall|op: Outpoint| has_outpoint_runic(prev, op) implies has_outpoint_runic(
                merged,
                op,
            ) by {
                let i = choose|i: int|
                    0 <= i < prev.len() && same_outpoint(prev[i].utxo.outpoint, op);
                assert(merged[i] == prev[i]);
            }
            assert(merged.drop_last() =~= prev);
            assert(sum_balance(merged) == sum_balance(prev) + u.balance);
        }
    }
}

/// Merging outputs whose outpoints are all new appends every one of them,
/// so the sums add up exactly.
#[verifier::rlimit(60)]
#[verifier::spinoff_prover]
pub proof fn lemma_merge_utxos_disjoint(cur: Seq<Utxo>, add: Seq<Utxo>)
    requires
        unique_outpoints(cur),
        unique_outpoints(add),
        forall|i: int| 0 <= i < add.len() ==> !has_outpoint(cur, #[trigger] add[i].outpoint),
    ensures
        merge_utxos(cur, add) =~= cur + add,
        sum_value(merge_utxos(cur, add)) == sum_value(cur) + sum_value(add),
    decreases add.len(),
{
    if add.len() == 0 {
        assert(merge_utxos(cur, add) =~= cur + add);
        assert(sum_value(cur + add) == sum_value(cur)) by {
            assert(cur + add =~= cur);
        }
    } else {
        let front = add.drop_last();
        assert(forall|i: int| 0 <= i < front.len() ==> front[i] == add[i]);
        lemma_merge_utxos_disjoint(cur, front);
        lemma_merge_utxos(cur, front);
        let prev = merge_utxos(cur, add.drop_last());
        let u = add.last();
        assert(!has_outpoint(cur, u.outpoint));
        assert(!has_outpoint(front, u.outpoint)) by {
            if has_outpoint(front, u.outpoint) {
                let i = choose|i: int|
                    0 <= i < front.len() && same_outpoint(front[i].outpoint, u.outpoint);
                assert(same_outpoint(add[i].outpoint, add[add.len() - 1].outpoint));
            }
        }
        assert(!has_outpoint(prev, u.outpoint));
        assert(merge_utxos(cur, add) =~= cur + add) by {
            assert(prev =~= cur + front);
            assert(prev.push(u) =~= cur + add);
        }
        assert(sum_value(cur + add) == sum_value(cur) + sum_value(add)) by {
            assert((cur + add).drop_last() =~= cur + front);
            assert(sum_value(cur + front) == sum_value(cur) + sum_value(front));
            assert(sum_value(add) == sum_value(front) + u.value);
        }
    }
}

#[verifier::rlimit(60)]
#[verifier::spinoff_prover]
pub proof fn lemma_merge_runic_utxos_disjoint(cur: Seq<RunicUtxo>, add: Seq<RunicUtxo>)
    requires
        unique_outpoints_runic(cur),
        unique_outpoints_runic(add),
        forall|i: int|
            0 <= i < add.len() ==> !has_outpoint_runic(cur, #[trigger] add[i].utxo.outpoint),
    ensures
        merge_runic_utxos(cur, add) =~= cur + add,
        sum_balance(merge_runic_utxos(cur, add)) == sum_balance(cur) + sum_balance(add),
    decreases add.len(),
{
    if add.len() == 0 {
        assert(merge_runic_utxos(cur, add) =~= cur + add);
        assert(sum_balance(cur + add) == sum_balance(cur)) by {
            assert(cur + add =~= cur);
        }
    } else {
        let front = add.drop_last();
        assert(forall|i: int| 0 <= i < front.len() ==> front[i] == add[i]);
        lemma_merge_runic_utxos_disjoint(cur, front);
        lemma_merge_runic_utxos(cur, front);
        let prev = merge_runic_utxos(cur, add.drop_last());
        let u = add.last();
        assert(!has_outpoint_runic(cur, u.utxo.outpoint));
        assert(!has_outpoint_runic(front, u.utxo.outpoint)) by {
            if has_outpoint_runic(front, u.utxo.outpoint) {
                let i = choose|i: int|
                    0 <= i < front.len() && same_outpoint(front[i].utxo.outpoint, u.utxo.outpoint);
                assert(same_outpoint(add[i].utxo.outpoint, add[add.len() - 1].utxo.outpoint));
            }
        }
        assert(!has_outpoint_runic(prev, u.utxo.outpoint));
        assert(merge_runic_utxos(cur, add) =~= cur + add) by {
            assert(prev =~= cur + front);
            assert(prev.push(u) =~= cur + add);
        }
        assert(sum_balance(cur + add) == sum_balance(cur) + sum_balance(add)) by {
            assert((cur + add).drop_last() =~= cur + front);
            assert(sum_balance(cur + front) == sum_balance(cur) + sum_balance(front));
            assert(sum_balance(add) == sum_balance(front) + u.balance);
        }
    }
}

} // verus!
// Multiset accounting for extraction and restoration.
use vstd::prelude::*;
use vstd::multiset::Multiset;

verus! {

broadcast use vstd::multiset::group_multiset_axioms;

/// Concatenation adds the element counts of both parts.
pub proof fn lemma_concat_to_multiset<T>(a: Seq<T>, b: Seq<T>)
    ensures
        (a + b).to_multiset() == a.to_multiset().add(b.to_multiset()),
    decreases b.len(),
{
    a.to_multiset_ensures();
    b.to_multiset_ensures();
    (a + b).to_multiset_ensures();
    if b.len() == 0 {
        assert(a + b =~= a);
        assert(b.to_multiset().len() == 0);
        assert(b.to_multiset() =~= Multiset::<T>::empty());
        assert((a + b).to_multiset() =~= a.to_multiset().add(b.to_multiset()));
    } else {
        lemma_concat_to_multiset(a, b.drop_last());
        b.drop_last().to_multiset_ensures();
        (a + b.drop_last()).to_multiset_ensures();
        assert(a + b =~= (a + b.drop_last()).push(b.last()));
        assert(b =~= b.drop_last().push(b.last()));
        assert((a + b).to_multiset() =~= a.to_multiset().add(b.to_multiset()));
    }
}

/// Moving the minimum-index element from the pool to the taken list keeps the
/// combined contents unchanged.
pub proof fn lemma_take_step_multiset(s: Seq<Utxo>, k: int, taken: Seq<Utxo>, orig: Seq<Utxo>)
    requires
        0 <= k < s.len(),
        s.to_multiset().add(taken.to_multiset()) == orig.to_multiset(),
    ensures
        s.remove(k).to_multiset().add(taken.push(s[k]).to_multiset()) == orig.to_multiset(),
{
    s.to_multiset_ensures();
    taken.to_multiset_ensures();
    let u = s[k];
    assert(s.remove(k).to_multiset() =~= s.to_multiset().remove(u));
    assert(taken.push(u).to_multiset() =~= taken.to_multiset().insert(u));
    assert(s.contains(u));
    assert(s.to_multiset().count(u) > 0);
    assert(s.remove(k).to_multiset().add(taken.push(u).to_multiset())
        =~= orig.to_multiset());
}

pub proof fn lemma_take_step_multiset_runic(
    s: Seq<RunicUtxo>,
    k: int,
    taken: Seq<RunicUtxo>,
    orig: Seq<RunicUtxo>,
)
    requires
        0 <= k < s.len(),
        s.to_multiset().add(taken.to_multiset()) == orig.to_multiset(),
    ensures
        s.remove(k).to_multiset().add(taken.push(s[k]).to_multiset()) == orig.to_multiset(),
{
    s.to_multiset_ensures();
    taken.to_multiset_ensures();
    let u = s[k];
    assert(s.remove(k).to_multiset() =~= s.to_multiset().remove(u));
    assert(taken.push(u).to_multiset() =~= taken.to_multiset().insert(u));
    assert(s.contains(u));
    assert(s.to_multiset().count(u) > 0);
    assert(s.remove(k).to_multiset().add(taken.push(u).to_multiset())
        =~= orig.to_multiset());
}

/// What remains after removing an element: its outpoint is gone (under
/// uniqueness), and nothing new appears.
pub proof fn lemma_remove_has_outpoint(s: Seq<Utxo>, k: int)
    requires
        unique_outpoints(s),
        0 <= k < s.len(),
    ensures
        !has_outpoint(s.remove(k), s[k].outpoint),
        forall|op: Outpoint| has_outpoint(s.remove(k), op) ==> has_outpoint(s, op),
{
    let t = s.remove(k);
    assert(!has_outpoint(t, s[k].outpoint)) by {
        if has_outpoint(t, s[k].outpoint) {
            let i = choose|i: int| 0 <= i < t.len() && same_outpoint(t[i].outpoint, s[k].outpoint);
            if i < k {
                assert(t[i] == s[i]);
                assert(!same_outpoint(s[i].outpoint, s[k].outpoint));
            } else {
                assert(t[i] == s[i + 1]);
                assert(!same_outpoint(s[k].outpoint, s[i + 1].outpoint));
            }
        }
    }
    assert forall|op: Outpoint| has_outpoint(t, op) implies has_outpoint(s, op) by {
        let i = choose|i: int| 0 <= i < t.len() && same_outpoint(t[i].outpoint, op);
        if i < k {
            assert(t[i] == s[i]);
        } else {
            assert(t[i] == s[i + 1]);
        }
    }
}

pub proof fn lemma_remove_has_outpoint_runic(s: Seq<RunicUtxo>, k: int)
    requires
        unique_outpoints_runic(s),
        0 <= k < s.len(),
    ensures
        !has_outpoint_runic(s.remove(k), s[k].utxo.outpoint),
        forall|op: Outpoint| has_outpoint_runic(s.remove(k), op) ==> has_outpoint_runic(s, op),
{
    let t = s.remove(k);
    assert(!has_outpoint_runic(t, s[k].utxo.outpoint)) by {
        if has_outpoint_runic(t, s[k].utxo.outpoint) {
            let i = choose|i: int|
                0 <= i < t.len() && same_outpoint(t[i].utxo.outpoint, s[k].utxo.outpoint);
            if i < k {
                assert(t[i] == s[i]);
                assert(!same_outpoint(s[i].utxo.outpoint, s[k].utxo.outpoint));
            } else {
                assert(t[i] == s[i + 1]);
                assert(!same_outpoint(s[k].utxo.outpoint, s[i + 1].utxo.outpoint));
            }
        }
    }
    assert forall|op: Outpoint| has_outpoint_runic(t, op) implies has_outpoint_runic(s, op) by {
        let i = choose|i: int| 0 <= i < t.len() && same_outpoint(t[i].utxo.outpoint, op);
        if i < k {
            assert(t[i] == s[i]);
        } else {
            assert(t[i] == s[i + 1]);
        }
    }
}

/// Multiset-equal pools hold malformed ids together or not at all.
pub proof fn lemma_ms_preserves_bad_txid(a: Seq<Utxo>, b: Seq<Utxo>)
    requires
        a.to_multiset() == b.to_multiset(),
        exists|i: int| 0 <= i < a.len() && a[i].outpoint.txid@.len() != 32,
    ensures
        exists|i: int| 0 <= i < b.len() && b[i].outpoint.txid@.len() != 32,
{
    a.to_multiset_ensures();
    b.to_multiset_ensures();
    let i = choose|i: int| 0 <= i < a.len() && a[i].outpoint.txid@.len() != 32;
    let u = a[i];
    assert(a.contains(u));
    assert(a.to_multiset().count(u) > 0);
    assert(b.contains(u));
    let j = choose|j: int| 0 <= j < b.len() && b[j] == u;
    assert(b[j].outpoint.txid@.len() != 32);
}


pub proof fn lemma_ms_preserves_bad_txid_runic(a: Seq<RunicUtxo>, b: Seq<RunicUtxo>)
    requires
        a.to_multiset() == b.to_multiset(),
        exists|i: int| 0 <= i < a.len() && a[i].utxo.outpoint.txid@.len() != 32,
    ensures
        exists|i: int| 0 <= i < b.len() && b[i].utxo.outpoint.txid@.len() != 32,
{
    a.to_multiset_ensures();
    b.to_multiset_ensures();
    let i = choose|i: int| 0 <= i < a.len() && a[i].utxo.outpoint.txid@.len() != 32;
    let u = a[i];
    assert(a.contains(u));
    assert(a.to_multiset().count(u) > 0);
    assert(b.contains(u));
    let j = choose|j: int| 0 <= j < b.len() && b[j] == u;
    assert(b[j].utxo.outpoint.txid@.len() != 32);
}

/// All transaction ids in the sequence have the 32-byte length the chain
/// format requires.
pub open spec fn txids_wf(s: Seq<Utxo>) -> bool {
    forall|i: int| 0 <= i < s.len() ==> #[trigger] s[i].outpoint.txid@.len() == 32
}

pub open spec fn txids_wf_runic(s: Seq<RunicUtxo>) -> bool {
    forall|i: int| 0 <= i < s.len() ==> #[trigger] s[i].utxo.outpoint.txid@.len() == 32
}

} // verus!
// The smallest-first drain, as a deterministic function of the pool order.
use vstd::prelude::*;

verus! {

/// What a smallest-first drain yields: the extracted outputs in extraction
/// order, the remaining pool in its surviving order, and whether the target
/// was reached.
#[verifier::ext_equal]
pub struct Selection {
    pub taken: Seq<Utxo>,
    pub rest: Seq<Utxo>,
    pub reached: bool,
}

/// Drains the first-minimum output repeatedly until the accumulated value
/// passes the target (strictly, or at-or-above), or the pool runs out; the
/// drain that the pool's extraction order makes deterministic.
pub open spec fn smallest_first(s: Seq<Utxo>, total: int, target: int, at_or_above: bool)
    -> Selection
    decreases s.len(),
    via smallest_first_decreases
{
    if s.len() == 0 {
        Selection { taken: Seq::empty(), rest: s, reached: total >= target }
    } else {
        let k = min_value_index(s);
        let u = s[k];
        let t2 = total + u.value;
        if (if at_or_above {
            t2 >= target
        } else {
            t2 > target
        }) {
            Selection { taken: seq![u], rest: s.remove(k), reached: true }
        } else {
            let c = smallest_first(s.remove(k), t2, target, at_or_above);
            Selection { taken: seq![u] + c.taken, rest: c.rest, reached: c.reached }
        }
    }
}

/// The same drain over rune-bearing outputs, smallest balance first, strictly
/// past the target.
#[verifier::ext_equal]
pub struct RunicSelection {
    pub taken: Seq<RunicUtxo>,
    pub rest: Seq<RunicUtxo>,
    pub reached: bool,
}

pub open spec fn smallest_balance_first(s: Seq<RunicUtxo>, total: int, target: int)
    -> RunicSelection
    decreases s.len(),
    via smallest_balance_first_decreases
{
    if s.len() == 0 {
        RunicSelection { taken: Seq::empty(), rest: s, reached: total >= target }
    } else {
        let k = min_balance_index(s);
        let u = s[k];
        let t2 = total + u.balance;
        if t2 > target {
            RunicSelection { taken: seq![u], rest: s.remove(k), reached: true }
        } else {
            let c = smallest_balance_first(s.remove(k), t2, target);
            RunicSelection { taken: seq![u] + c.taken, rest: c.rest, reached: c.reached }
        }
    }
}

#[via_fn]
proof fn smallest_first_decreases(s: Seq<Utxo>, total: int, target: int, at_or_above: bool) {
    if s.len() > 0 {
        lemma_min_value_index(s);
    }
}

#[via_fn]
proof fn smallest_balance_first_decreases(s: Seq<RunicUtxo>, total: int, target: int) {
    if s.len() > 0 {
        lemma_min_balance_index(s);
    }
}


} // verus!
