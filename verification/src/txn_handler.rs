use vstd::prelude::*;

use crate::script::sig_script;
use crate::signer::der_of;
use crate::transaction::{Transaction, TransactionV, TxInV};
use crate::types::{Account, Address, RuneId, RunicUtxo, Utxo};

verus! {

/// Blocks a commit output must have on top of it before its reveal
/// transaction may be broadcast.
pub const COMMIT_CONFIRMATIONS: u32 = 6;

/// The fee rate used when the chain reports no percentiles: the regtest
/// default, in millisatoshi per vbyte.
pub const DEFAULT_FEE_MILLISAT_PER_VBYTE: u64 = 2000;

/// Picks the fee rate drafts are priced at: the 50th percentile of what the
/// chain reports, or the default when it reports nothing.
pub fn choose_fee_per_vbyte(percentiles: &Vec<u64>) -> (r: u64)
    requires
        percentiles@.len() == 0 || percentiles@.len() > 50,
    ensures
        r == (if percentiles@.len() == 0 {
            DEFAULT_FEE_MILLISAT_PER_VBYTE as int
        } else {
            percentiles@[50] as int
        }),
{
    if percentiles.len() == 0 {
        DEFAULT_FEE_MILLISAT_PER_VBYTE
    } else {
        percentiles[50]
    }
}

/// The id a successfully submitted transaction is reported under.
pub enum SubmittedTxidType {
    Bitcoin { txid: String },
}

/// Which derived key must sign a given input.
#[derive(PartialEq, Eq, Structural, Clone, Copy, Debug)]
pub enum SignerRole {
    AssetSender,
    BitcoinSender,
    FeePayer,
}

/// A converged draft waiting to be signed and broadcast, together with
/// everything the submission step needs: the consumed outputs (for
/// restoration on failure) and the owning roles' addresses and accounts.
pub enum TransactionType {
    Etching {
        commit_tx_address: Address,
        commit: Transaction,
        reveal: Transaction,
        fee_utxos: Vec<Utxo>,
        fee_payer: Address,
    },
    Bitcoin { utxos: Vec<Utxo>, txn: Transaction, sender: Address, sender_account: Account },
    Rune {
        runic_utxos: Vec<RunicUtxo>,
        runeid: RuneId,
        rune_amount: u128,
        rune_sender: Address,
        rune_receiver: Address,
        rune_sender_account: Account,
        fee_utxos: Vec<Utxo>,
        fee: u64,
        fee_payer: Address,
        fee_payer_account: Account,
        postage: u64,
        txn: Transaction,
    },
    Combined {
        runic_utxos: Vec<RunicUtxo>,
        runeid: RuneId,
        rune_amount: u128,
        rune_sender: Address,
        rune_receiver: Address,
        rune_sender_account: Account,
        bitcoin_utxos: Vec<Utxo>,
        bitcoin_amount: u64,
        bitcoin_sender: Address,
        bitcoin_receiver: Address,
        bitcoin_sender_account: Account,
        fee_utxos: Vec<Utxo>,
        fee: u64,
        fee_payer: Address,
        fee_payer_account: Account,
        postage: u64,
        txn: Transaction,
    },
}

impl TransactionType {
    /// Which role's key must sign the input at `index`: drafts lay out their
    /// inputs as the asset sender's, then (for combined transfers) the
    /// bitcoin sender's, then the fee payer's.
    pub fn input_role(&self, index: usize) -> (r: SignerRole)
        ensures
            (self matches TransactionType::Bitcoin { .. } ==> r == SignerRole::BitcoinSender),
            (self matches TransactionType::Etching { .. } ==> r == SignerRole::FeePayer),
            (self matches TransactionType::Rune { runic_utxos, .. } ==> r == (if (index as int)
                < runic_utxos@.len() {
                SignerRole::AssetSender
            } else {
                SignerRole::FeePayer
            })),
            (self matches TransactionType::Combined { runic_utxos, bitcoin_utxos, .. } ==> r == (
            if (index as int) < runic_utxos@.len() {
                SignerRole::AssetSender
            } else if (index as int) < runic_utxos@.len() + bitcoin_utxos@.len() {
                SignerRole::BitcoinSender
            } else {
                SignerRole::FeePayer
            })),
    {
        match self {
            TransactionType::Bitcoin { .. } => SignerRole::BitcoinSender,
            TransactionType::Etching { .. } => SignerRole::FeePayer,
            TransactionType::Rune { runic_utxos, .. } => {
                if index < runic_utxos.len() {
                    SignerRole::AssetSender
                } else {
                    SignerRole::FeePayer
                }
            },
            TransactionType::Combined { runic_utxos, bitcoin_utxos, .. } => {
                if index < runic_utxos.len() {
                    SignerRole::AssetSender
                } else if index - runic_utxos.len() < bitcoin_utxos.len() {
                    SignerRole::BitcoinSender
                } else {
                    SignerRole::FeePayer
                }
            },
        }
    }
}

/// The transaction after a legacy input has been signed: that input's
/// scriptSig holds the DER signature (with its sighash-type byte) and the
/// public key, its witness is cleared, and nothing else changes.
pub open spec fn with_legacy_signature(
    t: TransactionV,
    index: int,
    signature_sec1: Seq<u8>,
    pubkey: Seq<u8>,
) -> TransactionV {
    TransactionV {
        input: t.input.update(
            index,
            TxInV {
                previous_output: t.input[index].previous_output,
                script_sig: sig_script(der_of(signature_sec1).push(1u8), pubkey),
                sequence: t.input[index].sequence,
                witness: Seq::empty(),
            },
        ),
        ..t
    }
}

/// Installs a real ECDSA signature on one legacy input.
pub fn apply_ecdsa_signature(
    txn: &mut Transaction,
    index: usize,
    signature_sec1: Vec<u8>,
    pubkey: &Vec<u8>,
)
    requires
        (index as int) < old(txn)@.input.len(),
        signature_sec1@.len() == 64,
        pubkey@.len() < 0x10000,
    ensures
        final(txn)@ == with_legacy_signature(old(txn)@, index as int, signature_sec1@, pubkey@),
{
    let ghost sig0 = signature_sec1@;
    let mut der = crate::signer::sec1_to_der(signature_sec1);
    der.push(1u8);
    proof {
        assert(der@ =~= der_of(sig0).push(1u8));
        assert(der_of(sig0).len() <= 72);
    }
    let script_sig = crate::script::p2pkh_sig_script(&der, pubkey);
    let mut e = txn.input.remove(index);
    e.script_sig = script_sig;
    e.witness = Vec::new();
    txn.input.insert(index, e);
    proof {
        assert(txn.input@ =~= old(txn).input@.update(index as int, txn.input@[index as int]));
        assert(txn@ =~~= with_legacy_signature(old(txn)@, index as int, sig0, pubkey@));
    }
}

/// The transaction after the taproot reveal input has been signed: its
/// witness holds the raw 64-byte Schnorr signature, the leaf script, and the
/// control block, and nothing else changes.
pub open spec fn with_reveal_witness(
    t: TransactionV,
    index: int,
    signature: Seq<u8>,
    leaf_script: Seq<u8>,
    control_block: Seq<u8>,
) -> TransactionV {
    TransactionV {
        input: t.input.update(
            index,
            TxInV {
                previous_output: t.input[index].previous_output,
                script_sig: t.input[index].script_sig,
                sequence: t.input[index].sequence,
                witness: seq![signature, leaf_script, control_block],
            },
        ),
        ..t
    }
}

/// Installs the script-path witness on the reveal input: signature, leaf
/// script, control block.
pub fn apply_reveal_witness(
    txn: &mut Transaction,
    index: usize,
    signature: Vec<u8>,
    leaf_script: Vec<u8>,
    control_block: Vec<u8>,
)
    requires
        (index as int) < old(txn)@.input.len(),
    ensures
        final(txn)@ == with_reveal_witness(
            old(txn)@,
            index as int,
            signature@,
            leaf_script@,
            control_block@,
        ),
{
    let ghost sv = signature@;
    let ghost lv = leaf_script@;
    let ghost cv = control_block@;
    let mut w: Vec<Vec<u8>> = Vec::new();
    w.push(signature);
    w.push(leaf_script);
    w.push(control_block);
    proof {
        assert(w.deep_view() =~~= seq![sv, lv, cv]);
    }
    let mut e = txn.input.remove(index);
    e.witness = w;
    txn.input.insert(index, e);
    proof {
        assert(txn.input@ =~= old(txn).input@.update(index as int, txn.input@[index as int]));
        assert(txn@ =~~= with_reveal_witness(old(txn)@, index as int, sv, lv, cv));
    }
}

/// Whether a commit output is mature enough for its reveal to be broadcast:
/// the pool of the commit address must hold an output whose first entry has
/// the protocol-mandated number of confirmations under the current tip.
pub fn should_broadcast_reveal(utxos: &Vec<Utxo>, tip_height: u32) -> (r: bool)
    ensures
        r == (utxos@.len() > 0 && utxos@[0].height + COMMIT_CONFIRMATIONS <= tip_height as int),
{
    if utxos.len() == 0 {
        return false;
    }
    let h = utxos[0].height;
    if h > u32::MAX - COMMIT_CONFIRMATIONS {
        return false;
    }
    h + COMMIT_CONFIRMATIONS <= tip_height
}

/// A reveal transaction parked until its commit transaction has enough
/// confirmations, with the timer that retries it.
pub struct ScheduledTransaction {
    pub commit_tx_address: String,
    pub txn: Transaction,
    pub timer_id: u64,
}

/// Map from a scheduled-transaction sequence to its entries.
pub open spec fn sched_map(s: Seq<(u128, ScheduledTransaction)>) -> Map<u128, ScheduledTransaction>
    decreases s.len(),
{
    if s.len() == 0 {
        Map::empty()
    } else {
        sched_map(s.drop_last()).insert(s.last().0, s.last().1)
    }
}

/// The reveal transactions awaiting commit maturity, keyed by an id that is
/// handed out once and never reused.
pub struct ScheduledState {
    pub txn_count: u128,
    pub entries: Vec<(u128, ScheduledTransaction)>,
}

impl ScheduledState {
    pub open spec fn wf(self) -> bool {
        &&& forall|i: int, j: int|
            0 <= i < j < self.entries@.len() ==> (#[trigger] self.entries@[i]).0 != (
            #[trigger] self.entries@[j]).0
        &&& forall|i: int|
            0 <= i < self.entries@.len() ==> (#[trigger] self.entries@[i]).0 < self.txn_count
    }

    pub open spec fn spec_map(self) -> Map<u128, ScheduledTransaction> {
        sched_map(self.entries@)
    }

    pub fn new() -> (r: ScheduledState)
        ensures
            r.wf(),
            r.spec_map() == Map::<u128, ScheduledTransaction>::empty(),
            r.txn_count == 0,
    {
        ScheduledState { txn_count: 0, entries: Vec::new() }
    }

    /// Hands out the next scheduling id.
    pub fn get_id(&mut self) -> (r: u128)
        requires
            old(self).txn_count < u128::MAX,
        ensures
            r == old(self).txn_count,
            final(self).txn_count == old(self).txn_count + 1,
            final(self).entries == old(self).entries,
            old(self).wf() ==> final(self).wf(),
    {
        let id = self.txn_count;
        self.txn_count = self.txn_count + 1;
        id
    }

    /// Parks a reveal transaction under an id: one the state handed out and
    /// never parked before.
    pub fn record_txn(&mut self, id: u128, txn: ScheduledTransaction)
        requires
            old(self).wf(),
            id < old(self).txn_count,
            !old(self).spec_map().contains_key(id),
        ensures
            final(self).wf(),
            final(self).spec_map() == old(self).spec_map().insert(id, txn),
            final(self).txn_count == old(self).txn_count,
    {
        proof {
            lemma_sched_map_keys(self.entries@);
        }
        self.entries.push((id, txn));
        proof {
            assert(self.entries@.drop_last() =~= old(self).entries@);
            assert forall|i: int, j: int|
                0 <= i < j < self.entries@.len() implies (#[trigger] self.entries@[i]).0 != (
            #[trigger] self.entries@[j]).0 by {
                if j == self.entries@.len() - 1 {
                    assert(self.entries@[i] == old(self).entries@[i]);
                    lemma_sched_map_keys(old(self).entries@);
                }
            }
        }
    }

    /// Takes a parked reveal back out; returns nothing when the id is not
    /// (or no longer) scheduled.
    pub fn remove_txn(&mut self, key: u128) -> (r: Option<ScheduledTransaction>)
        requires
            old(self).wf(),
        ensures
            final(self).wf(),
            final(self).txn_count == old(self).txn_count,
            match r {
                Some(t) => old(self).spec_map().contains_key(key) && t == old(
                    self,
                ).spec_map()[key] && final(self).spec_map() == old(self).spec_map().remove(key),
                None => !old(self).spec_map().contains_key(key) && final(self).spec_map() == old(
                    self,
                ).spec_map(),
            },
    {
        proof {
            lemma_sched_map_keys(self.entries@);
        }
        let mut i: usize = 0;
        while i < self.entries.len()
            invariant
                self.wf(),
                self.entries@ == old(self).entries@,
                self.txn_count == old(self).txn_count,
                i <= self.entries@.len(),
                forall|k: int| 0 <= k < i ==> (#[trigger] self.entries@[k]).0 != key,
            decreases self.entries@.len() - i,
        {
            if self.entries[i].0 == key {
                let (_, t) = self.entries.remove(i);
                proof {
                    lemma_sched_map_remove(old(self).entries@, i as int);
                    assert forall|p: int, q: int|
                        0 <= p < q < self.entries@.len() implies (#[trigger] self.entries@[p]).0
                        != (#[trigger] self.entries@[q]).0 by {
                        let sp = if p < i as int {
                            p
                        } else {
                            p + 1
                        };
                        let sq = if q < i as int {
                            q
                        } else {
                            q + 1
                        };
                        assert(self.entries@[p] == old(self).entries@[sp]);
                        assert(self.entries@[q] == old(self).entries@[sq]);
                    }
                }
                return Some(t);
            }
            i += 1;
        }
        proof {
            lemma_sched_map_keys(self.entries@);
        }
        None
    }
}

/// The keys of the association list are exactly the map's keys, and the last
/// binding of a key wins.
proof fn lemma_sched_map_keys(s: Seq<(u128, ScheduledTransaction)>)
    ensures
        forall|k: u128|
            sched_map(s).contains_key(k) <==> exists|i: int|
                0 <= i < s.len() && (#[trigger] s[i]).0 == k,
    decreases s.len(),
{
    if s.len() > 0 {
        lemma_sched_map_keys(s.drop_last());
        assert forall|k: u128| sched_map(s).contains_key(k) implies exists|i: int|
            0 <= i < s.len() && (#[trigger] s[i]).0 == k by {
            if k == s.last().0 {
                assert(s[s.len() - 1].0 == k);
            } else {
                assert(sched_map(s) == sched_map(s.drop_last()).insert(s.last().0, s.last().1));
                assert(sched_map(s.drop_last()).contains_key(k));
                let i = choose|i: int|
                    0 <= i < s.drop_last().len() && (#[trigger] s.drop_last()[i]).0 == k;
                assert(s.drop_last()[i] == s[i]);
                assert(s[i].0 == k);
            }
        }
        assert forall|k: u128| (exists|i: int| 0 <= i < s.len() && (#[trigger] s[i]).0 == k)
            implies sched_map(s).contains_key(k) by {
            let i = choose|i: int| 0 <= i < s.len() && (#[trigger] s[i]).0 == k;
            if i < s.len() - 1 {
                assert(s.drop_last()[i].0 == k);
                assert(sched_map(s.drop_last()).contains_key(k));
                assert(sched_map(s) == sched_map(s.drop_last()).insert(s.last().0, s.last().1));
            }
        }
    }
}

/// Removing the (unique) binding of a key removes exactly that key from the
/// map.
proof fn lemma_sched_map_remove(s: Seq<(u128, ScheduledTransaction)>, i: int)
    requires
        0 <= i < s.len(),
        forall|p: int, q: int| 0 <= p < q < s.len() ==> (#[trigger] s[p]).0 != (#[trigger] s[q]).0,
    ensures
        sched_map(s.remove(i)) == sched_map(s).remove(s[i].0),
        sched_map(s)[s[i].0] == s[i].1,
        sched_map(s).contains_key(s[i].0),
    decreases s.len(),
{
    lemma_sched_map_keys(s);
    lemma_sched_map_keys(s.remove(i));
    lemma_sched_map_keys(s.drop_last());
    if i == s.len() - 1 {
        assert(s.remove(i) =~= s.drop_last());
        assert(!sched_map(s.drop_last()).contains_key(s[i].0)) by {
            if sched_map(s.drop_last()).contains_key(s[i].0) {
                let j = choose|j: int|
                    0 <= j < s.drop_last().len() && (#[trigger] s.drop_last()[j]).0 == s[i].0;
                assert(s[j].0 == s[i].0);
            }
        }
        assert(sched_map(s.remove(i)) =~= sched_map(s).remove(s[i].0));
    } else {
        lemma_sched_map_remove(s.drop_last(), i);
        assert(s.remove(i).drop_last() =~= s.drop_last().remove(i));
        assert(s.remove(i).last() == s.last());
        assert(s.drop_last()[i] == s[i]);
        assert(s.last().0 != s[i].0);
        assert(sched_map(s.remove(i)) =~= sched_map(s).remove(s[i].0));
    }
}

} // verus!
