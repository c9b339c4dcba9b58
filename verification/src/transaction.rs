use vstd::prelude::*;

use bitcoin::Transaction as ChainTransaction;
use bitcoin::TxIn as ChainTxIn;
use bitcoin::TxOut as ChainTxOut;

use crate::bytes::clone_bytes;
use crate::script::{is_op_return, is_op_return_exec, sig_script, p2pkh_sig_script};
use crate::signer::{der_of, sec1_to_der};
use crate::types::{
    Outpoint, Utxo, sum_value, unique_outpoints, has_outpoint,
};
use crate::utxo_manager::{UtxoManager, SelectError, select_bitcoin, restore_bitcoin, lemma_pool_entry_wf};

verus! {

/// Input sequence number that opts out of relative locktime and replacement.
pub const SEQUENCE_MAX: u32 = 0xFFFF_FFFF;

/// Input sequence number that signals replaceability without a locktime.
pub const SEQUENCE_RBF: u32 = 0xFFFF_FFFD;

/// Bound on the fee-convergence search: each round either converges or
/// replaces the assumed fee, and the search fails closed past this many
/// rounds.
pub const MAX_FEE_ROUNDS: u32 = 64;

#[verifier::ext_equal]
pub struct OutpointV {
    pub txid: Seq<u8>,
    pub vout: u32,
}

#[verifier::ext_equal]
pub struct TxInV {
    pub previous_output: OutpointV,
    pub script_sig: Seq<u8>,
    pub sequence: u32,
    pub witness: Seq<Seq<u8>>,
}

#[verifier::ext_equal]
pub struct TxOutV {
    pub value: u64,
    pub script_pubkey: Seq<u8>,
}

#[verifier::ext_equal]
pub struct TransactionV {
    pub version: i32,
    pub lock_time: u32,
    pub input: Seq<TxInV>,
    pub output: Seq<TxOutV>,
}

/// One input of a transaction under construction.
pub struct TxIn {
    pub previous_output: Outpoint,
    pub script_sig: Vec<u8>,
    pub sequence: u32,
    pub witness: Vec<Vec<u8>>,
}

/// One output of a transaction under construction.
pub struct TxOut {
    pub value: u64,
    pub script_pubkey: Vec<u8>,
}

/// A bitcoin transaction held as plain values: exactly what the chain
/// serialization format carries.
pub struct Transaction {
    pub version: i32,
    pub lock_time: u32,
    pub input: Vec<TxIn>,
    pub output: Vec<TxOut>,
}

pub open spec fn outpoint_view(o: Outpoint) -> OutpointV {
    OutpointV { txid: o.txid@, vout: o.vout }
}

impl View for TxIn {
    type V = TxInV;

    open spec fn view(&self) -> TxInV {
        TxInV {
            previous_output: outpoint_view(self.previous_output),
            script_sig: self.script_sig@,
            sequence: self.sequence,
            witness: self.witness.deep_view(),
        }
    }
}

impl View for TxOut {
    type V = TxOutV;

    open spec fn view(&self) -> TxOutV {
        TxOutV { value: self.value, script_pubkey: self.script_pubkey@ }
    }
}

impl View for Transaction {
    type V = TransactionV;

    open spec fn view(&self) -> TransactionV {
        TransactionV {
            version: self.version,
            lock_time: self.lock_time,
            input: Seq::new(self.input@.len(), |i: int| self.input@[i]@),
            output: Seq::new(self.output@.len(), |i: int| self.output@[i]@),
        }
    }
}

/// Sum of the satoshi values of a transaction's outputs.
pub open spec fn output_sum(s: Seq<TxOutV>) -> int
    decreases s.len(),
{
    if s.len() == 0 {
        0
    } else {
        output_sum(s.drop_last()) + s.last().value
    }
}

/// Every previous-output id has the 32 bytes the chain format requires.
pub open spec fn tx_txids_wf(t: TransactionV) -> bool {
    forall|i: int|
        0 <= i < t.input.len() ==> #[trigger] t.input[i].previous_output.txid.len() == 32
}

/// Every non-data-carrier output is at or above the dust floor of its script.
pub open spec fn outputs_non_dust(s: Seq<TxOutV>) -> bool {
    forall|i: int|
        0 <= i < s.len() ==> is_op_return(#[trigger] s[i].script_pubkey) || s[i].value as nat
            >= min_non_dust_of(s[i].script_pubkey)
}

/// The virtual size (in vbytes) that the chain's weight rules assign to this
/// transaction: a pure function of its serialized form.
pub uninterp spec fn tx_vsize(t: TransactionV) -> nat;

/// The transaction's id: the double-SHA-256 of its serialization without
/// witness data, a pure function of the transaction.
pub uninterp spec fn txid_of(t: TransactionV) -> Seq<u8>;

/// The legacy (pre-segwit) signature hash of one input against a script,
/// with sighash type ALL: a pure function of its arguments.
pub uninterp spec fn legacy_sighash_of(t: TransactionV, index: int, spk: Seq<u8>) -> Seq<u8>;

/// The taproot script-path signature hash of one input, with the default
/// sighash type: a pure function of its arguments.
pub uninterp spec fn taproot_sighash_of(
    t: TransactionV,
    index: int,
    prevouts: Seq<TxOutV>,
    leaf_script: Seq<u8>,
) -> Seq<u8>;

/// The minimum value an output with this script must carry to be relayed:
/// a pure function of the script.
pub uninterp spec fn min_non_dust_of(spk: Seq<u8>) -> nat;

pub open spec fn txouts_view(s: Seq<TxOut>) -> Seq<TxOutV> {
    Seq::new(s.len(), |i: int| s[i]@)
}

#[verifier::external_type_specification]
#[verifier::external_body]
pub struct ExChainTransaction(ChainTransaction);

#[verifier::external_type_specification]
#[verifier::external_body]
pub struct ExChainTxIn(ChainTxIn);

#[verifier::external_type_specification]
#[verifier::external_body]
pub struct ExChainTxOut(ChainTxOut);

/// Converts one input into the chain library's form, field for field.
#[verifier::external_body]
fn chain_input(i: &TxIn) -> ChainTxIn
    requires
        i.previous_output.txid@.len() == 32,
{
    ChainTxIn {
        previous_output: bitcoin::OutPoint {
            txid: <bitcoin::Txid as bitcoin::hashes::Hash>::from_slice(&i.previous_output.txid)
                .unwrap(),
            vout: i.previous_output.vout,
        },
        script_sig: bitcoin::ScriptBuf::from_bytes(i.script_sig.clone()),
        sequence: bitcoin::Sequence(i.sequence),
        witness: bitcoin::Witness::from_slice(&i.witness),
    }
}

/// Converts one output into the chain library's form, field for field.
#[verifier::external_body]
fn chain_output(o: &TxOut) -> ChainTxOut
{
    ChainTxOut {
        value: bitcoin::Amount::from_sat(o.value),
        script_pubkey: bitcoin::ScriptBuf::from_bytes(o.script_pubkey.clone()),
    }
}

/// Converts the plain transaction into the chain library's form, field for
/// field.
#[verifier::external_body]
pub(crate) fn to_chain(t: &Transaction) -> ChainTransaction
    requires
        tx_txids_wf(t@),
{
    ChainTransaction {
        version: bitcoin::transaction::Version(t.version),
        lock_time: bitcoin::absolute::LockTime::from_consensus(t.lock_time),
        input: t.input.iter().map(chain_input).collect(),
        output: t.output.iter().map(chain_output).collect(),
    }
}

/// Relies on bitcoin::Transaction::vsize: the virtual size is computed from
/// the serialized transaction alone.
#[verifier::external_body]
pub fn transaction_vsize(t: &Transaction) -> (r: u64)
    requires
        tx_txids_wf(t@),
    ensures
        r as nat == tx_vsize(t@),
{
    to_chain(t).vsize() as u64
}

/// Relies on bitcoin::Transaction::compute_txid: the id is a hash of the
/// serialized transaction, a pure function of it.
#[verifier::external_body]
pub fn transaction_txid(t: &Transaction) -> (r: Vec<u8>)
    requires
        tx_txids_wf(t@),
    ensures
        r@ == txid_of(t@),
        r@.len() == 32,
{
    let txid = to_chain(t).compute_txid();
    <bitcoin::Txid as bitcoin::hashes::Hash>::as_byte_array(&txid).to_vec()
}

/// Relies on bitcoin::sighash::SighashCache::legacy_signature_hash with
/// sighash type ALL (1): a pure function of the transaction, the input index
/// and the script being satisfied.
#[verifier::external_body]
pub fn legacy_sighash(t: &Transaction, index: usize, script_pubkey: &Vec<u8>) -> (r: Vec<u8>)
    requires
        tx_txids_wf(t@),
        (index as int) < t@.input.len(),
    ensures
        r@ == legacy_sighash_of(t@, index as int, script_pubkey@),
        r@.len() == 32,
{
    let cache = bitcoin::sighash::SighashCache::new(to_chain(t));
    let h = cache
        .legacy_signature_hash(
            index,
            bitcoin::Script::from_bytes(script_pubkey.as_slice()),
            bitcoin::EcdsaSighashType::All.to_u32(),
        )
        .unwrap();
    <bitcoin::LegacySighash as bitcoin::hashes::Hash>::as_byte_array(&h).to_vec()
}

/// Relies on bitcoin::sighash::SighashCache::taproot_script_spend_signature_hash
/// with the default sighash type: a pure function of the transaction, the
/// input index, the spent outputs and the leaf script.
#[verifier::external_body]
pub fn taproot_sighash(
    t: &Transaction,
    index: usize,
    prevouts: &Vec<TxOut>,
    leaf_script: &Vec<u8>,
) -> (r: Vec<u8>)
    requires
        tx_txids_wf(t@),
        (index as int) < t@.input.len(),
        prevouts@.len() == t@.input.len(),
    ensures
        r@ == taproot_sighash_of(t@, index as int, txouts_view(prevouts@), leaf_script@),
        r@.len() == 32,
{
    let outs: Vec<ChainTxOut> = prevouts.iter().map(chain_output).collect();
    let mut cache = bitcoin::sighash::SighashCache::new(to_chain(t));
    let h = cache
        .taproot_script_spend_signature_hash(
            index,
            &bitcoin::sighash::Prevouts::All(&outs),
            bitcoin::TapLeafHash::from_script(
                bitcoin::Script::from_bytes(leaf_script.as_slice()),
                bitcoin::taproot::LeafVersion::TapScript,
            ),
            bitcoin::TapSighashType::Default,
        )
        .unwrap();
    <bitcoin::TapSighash as bitcoin::hashes::Hash>::as_byte_array(&h).to_vec()
}

/// Relies on bitcoin::Script::minimal_non_dust: the dust floor of a script is
/// a pure function of the script alone.
#[verifier::external_body]
pub fn minimal_non_dust(spk: &Vec<u8>) -> (r: u64)
    requires
        spk@.len() <= 0x10000,
    ensures
        r as nat == min_non_dust_of(spk@),
{
    bitcoin::Script::from_bytes(spk.as_slice()).minimal_non_dust().to_sat()
}

/// The fee a transaction of this virtual size pays at a millisat-per-vbyte
/// rate, rounded down.
pub open spec fn fee_for(vsize: nat, fee_per_vbytes: u64) -> int {
    (vsize * fee_per_vbytes) / 1000
}

/// The fixed 64-byte placeholder substituted for each missing ECDSA signature.
pub open spec fn dummy_sig() -> Seq<u8> {
    Seq::new(64, |i: int| 255u8)
}

pub open spec fn dummy_der_sig_with_type() -> Seq<u8> {
    der_of(dummy_sig()).push(1u8)
}

/// One input of the placeholder-signed clone used for sizing.
pub open spec fn mock_signed_input(i: TxInV, pubkey: Seq<u8>) -> TxInV {
    TxInV {
        previous_output: i.previous_output,
        script_sig: sig_script(dummy_der_sig_with_type(), pubkey),
        sequence: SEQUENCE_RBF,
        witness: Seq::empty(),
    }
}

/// The placeholder-signed clone of a transaction: same outputs, each input
/// carrying a fixed-size dummy signature, used only to measure size.
pub open spec fn mock_signed_view(t: TransactionV, pubkey: Seq<u8>) -> TransactionV {
    TransactionV {
        version: t.version,
        lock_time: t.lock_time,
        input: Seq::new(t.input.len(), |i: int| mock_signed_input(t.input[i], pubkey)),
        output: t.output,
    }
}

/// Builds the byte-identical placeholder-signed clone of a candidate
/// transaction, substituting a fixed-size dummy signature per input, solely
/// so its virtual size can be measured.
pub fn mock_ecdsa_signature(txn: &Transaction, pubkey: &Vec<u8>) -> (r: Transaction)
    requires
        pubkey@.len() < 0x10000,
    ensures
        r@ == mock_signed_view(txn@, pubkey@),
        tx_txids_wf(txn@) ==> tx_txids_wf(r@),
{
    let dummy: Vec<u8> = vec![255u8; 64];
    proof {
        assert(dummy@ =~= dummy_sig());
    }
    let mut der = sec1_to_der(dummy);
    der.push(1u8);
    proof {
        assert(der@ =~= dummy_der_sig_with_type());
        assert(der_of(dummy_sig()).len() <= 72);
    }
    let mut input: Vec<TxIn> = Vec::new();
    let n = txn.input.len();
    let mut i: usize = 0;
    while i < n
        invariant
            n == txn.input@.len(),
            i <= n,
            der@ == dummy_der_sig_with_type(),
            der@.len() <= 73,
            pubkey@.len() < 0x10000,
            input@.len() == i,
            forall|k: int| 0 <= k < i ==> #[trigger] input@[k]@ == mock_signed_input(
                txn.input@[k]@,
                pubkey@,
            ),
        decreases n - i,
    {
        let txin = TxIn {
            previous_output: Outpoint {
                txid: clone_bytes(&txn.input[i].previous_output.txid),
                vout: txn.input[i].previous_output.vout,
            },
            script_sig: p2pkh_sig_script(&der, pubkey),
            sequence: SEQUENCE_RBF,
            witness: Vec::new(),
        };
        proof {
            assert(txin@ =~~= mock_signed_input(txn.input@[i as int]@, pubkey@));
        }
        input.push(txin);
        i += 1;
    }
    let mut output: Vec<TxOut> = Vec::new();
    let m = txn.output.len();
    let mut j: usize = 0;
    while j < m
        invariant
            m == txn.output@.len(),
            j <= m,
            output@.len() == j,
            forall|k: int| 0 <= k < j ==> #[trigger] output@[k]@ == txn.output@[k]@,
        decreases m - j,
    {
        let o = TxOut {
            value: txn.output[j].value,
            script_pubkey: clone_bytes(&txn.output[j].script_pubkey),
        };
        proof {
            assert(o@ =~~= txn.output@[j as int]@);
        }
        output.push(o);
        j += 1;
    }
    let r = Transaction { version: txn.version, lock_time: txn.lock_time, input, output };
    proof {
        assert(r@ =~~= mock_signed_view(txn@, pubkey@));
    }
    r
}

/// Why a draft could not be constructed.
#[derive(Debug)]
pub enum BuildError {
    /// The paying address does not hold the required satoshi value; the exact
    /// requirement is reported so the caller can top up and retry.
    InsufficientBitcoin { required: u64 },
    /// The sending address does not hold the required rune balance.
    InsufficientRune { rune_required: u128, fee_required: u64 },
    /// One of the three legs of a combined transfer cannot be funded.
    InsufficientCombined { rune_required: u128, bitcoin_required: u64, fee_required: u64 },
    /// A non-data-carrier output would fall below the dust floor of its
    /// script; fatal, never retried.
    Dust { output_value: u64, minimum: u64 },
    /// The rune directive would not fit in a standard data-carrier output;
    /// fatal, never retried.
    OversizeRunestone { size: usize },
    /// A checked arithmetic step would have wrapped.
    ArithmeticOverflow,
    /// The fee search did not reach a fixed point within its round bound.
    FeeDidNotConverge,
    /// A held output is malformed (its transaction id is not 32 bytes).
    MalformedUtxo,
    /// An output script is too large to be priced for dust.
    OversizeScript,
    /// A signing key has the wrong form for its role.
    InvalidKey,
    /// The assembled transaction's directive did not decode back to the
    /// directive that was intended; fatal.
    EncodingMismatch,
}

/// The satoshi value the paying address must raise.
pub open spec fn required_amount(amount: u64, paid_by_sender: bool, fee: int) -> int {
    if paid_by_sender {
        amount + fee
    } else {
        amount as int
    }
}

/// The satoshi value the receiver's output carries.
pub open spec fn receiver_value(amount: u64, paid_by_sender: bool, fee: int) -> int {
    if paid_by_sender {
        amount as int
    } else {
        amount - fee
    }
}

/// The outputs of a plain transfer: the receiver's output, then a change
/// output back to the sender exactly when the remainder is at or above the
/// dust threshold (smaller remainders are forfeited to the fee).
pub open spec fn transfer_outputs(
    receiver_amount: u64,
    receiver_spk: Seq<u8>,
    remaining: u64,
    sender_spk: Seq<u8>,
) -> Seq<TxOutV> {
    let base = seq![TxOutV { value: receiver_amount, script_pubkey: receiver_spk }];
    if remaining >= crate::DUST_THRESHOLD {
        base.push(TxOutV { value: remaining, script_pubkey: sender_spk })
    } else {
        base
    }
}

/// The inputs referencing the selected outputs, in selection order, with no
/// signatures yet.
pub open spec fn inputs_from_utxos(s: Seq<Utxo>, seq_no: u32) -> Seq<TxInV> {
    Seq::new(
        s.len(),
        |i: int|
            TxInV {
                previous_output: outpoint_view(s[i].outpoint),
                script_sig: Seq::empty(),
                sequence: seq_no,
                witness: Seq::empty(),
            },
    )
}

/// Builds the unsigned input list for a list of selected outputs.
pub fn inputs_for(utxos: &Vec<Utxo>, seq_no: u32) -> (r: Vec<TxIn>)
    ensures
        r@.len() == utxos@.len(),
        forall|i: int| 0 <= i < r@.len() ==> #[trigger] r@[i]@ == inputs_from_utxos(
            utxos@,
            seq_no,
        )[i],
{
    let mut r: Vec<TxIn> = Vec::new();
    let mut i: usize = 0;
    while i < utxos.len()
        invariant
            i <= utxos@.len(),
            r@.len() == i,
            forall|k: int| 0 <= k < i ==> #[trigger] r@[k]@ == inputs_from_utxos(
                utxos@,
                seq_no,
            )[k],
        decreases utxos@.len() - i,
    {
        let txin = TxIn {
            previous_output: Outpoint {
                txid: clone_bytes(&utxos[i].outpoint.txid),
                vout: utxos[i].outpoint.vout,
            },
            script_sig: Vec::new(),
            sequence: seq_no,
            witness: Vec::new(),
        };
        proof {
            assert(txin@ =~~= inputs_from_utxos(utxos@, seq_no)[i as int]);
        }
        r.push(txin);
        i += 1;
    }
    r
}

/// Shapes one candidate plain transfer at an assumed fee: selects sender
/// outputs smallest-first until they cover `amount` plus (when the sender
/// pays it) the fee, emits the receiver output and a dust-safe change output,
/// and restores the pool in full on every error.
pub fn build_transaction_with_fee(
    pool: &mut UtxoManager,
    sender: &crate::types::Address,
    receiver: &crate::types::Address,
    amount: u64,
    paid_by_sender: bool,
    fee: u64,
) -> (r: Result<(Transaction, Vec<Utxo>), BuildError>)
    requires
        old(pool).wf(),
        sender.script_pubkey@.len() <= 0x10000,
        receiver.script_pubkey@.len() <= 0x10000,
    ensures
        final(pool).wf(),
        final(pool).btc_frame(*old(pool), sender.text@),
        final(pool).runic_all_frame(*old(pool)),
        match r {
            Ok((txn, utxos)) => {
                let orig = old(pool).btc_utxos(sender.text@);
                let c = crate::types::smallest_first(orig, 0, required_amount(
                    amount,
                    paid_by_sender,
                    fee as int,
                ), false);
                let total = sum_value(utxos@);
                let required = required_amount(amount, paid_by_sender, fee as int);
                let remaining = total - required;
                &&& c.reached
                &&& utxos@ == c.taken
                &&& final(pool).btc_utxos(sender.text@) == c.rest
                &&& receiver_value(amount, paid_by_sender, fee as int) >= 0
                &&& total >= required
                &&& txn@.version == 2
                &&& txn@.lock_time == 0
                &&& txn@.input == inputs_from_utxos(utxos@, SEQUENCE_MAX)
                &&& txn@.output == transfer_outputs(
                    receiver_value(amount, paid_by_sender, fee as int) as u64,
                    receiver.script_pubkey@,
                    remaining as u64,
                    sender.script_pubkey@,
                )
                &&& outputs_non_dust(txn@.output)
                &&& tx_txids_wf(txn@)
                &&& unique_outpoints(utxos@)
                &&& forall|i: int|
                    0 <= i < utxos@.len() ==> !has_outpoint(
                        final(pool).btc_utxos(sender.text@),
                        #[trigger] utxos@[i].outpoint,
                    )
                &&& final(pool).btc_utxos(sender.text@).to_multiset().add(utxos@.to_multiset())
                    == orig.to_multiset()
                &&& sum_value(final(pool).btc_utxos(sender.text@)) == sum_value(orig) - total
            },
            Err(e) => {
                let orig = old(pool).btc_utxos(sender.text@);
                &&& final(pool).btc_utxos(sender.text@).to_multiset() == orig.to_multiset()
                &&& sum_value(final(pool).btc_utxos(sender.text@)) == sum_value(orig)
                &&& match e {
                    BuildError::ArithmeticOverflow => (paid_by_sender && amount + fee > u64::MAX)
                        || (!paid_by_sender && amount < fee),
                    BuildError::InsufficientBitcoin { required } => required as int
                        == required_amount(amount, paid_by_sender, fee as int) && sum_value(orig)
                        < required && !crate::types::smallest_first(
                        orig,
                        0,
                        required as int,
                        false,
                    ).reached,
                    BuildError::Dust { output_value, minimum } => transfer_dust_case(
                        orig,
                        sender.script_pubkey@,
                        receiver.script_pubkey@,
                        amount,
                        paid_by_sender,
                        fee as int,
                        output_value,
                        minimum,
                    ),
                    BuildError::MalformedUtxo => exists|i: int|
                        0 <= i < orig.len() && orig[i].outpoint.txid@.len() != 32,
                    _ => false,
                }
            },
        },
{
    let required: u64 = if paid_by_sender {
        match amount.checked_add(fee) {
            Some(v) => v,
            None => {
                return Err(BuildError::ArithmeticOverflow);
            },
        }
    } else {
        amount
    };
    let receiver_amount: u64 = if paid_by_sender {
        amount
    } else {
        match amount.checked_sub(fee) {
            Some(v) => v,
            None => {
                return Err(BuildError::ArithmeticOverflow);
            },
        }
    };
    if !is_op_return_exec(&receiver.script_pubkey) {
        let md = minimal_non_dust(&receiver.script_pubkey);
        if receiver_amount < md {
            return Err(BuildError::Dust { output_value: receiver_amount, minimum: md });
        }
    }
    let (utxos, total) = match select_bitcoin(pool, &sender.text, required, false) {
        Ok(v) => v,
        Err(SelectError::Insufficient) => {
            return Err(BuildError::InsufficientBitcoin { required });
        },
        Err(SelectError::MalformedUtxo) => {
            return Err(BuildError::MalformedUtxo);
        },
        Err(SelectError::ValueOverflow) => {
            return Err(BuildError::MalformedUtxo);
        },
    };
    let remaining = total - required;
    let ghost mid = *pool;
    if remaining >= crate::DUST_THRESHOLD {
        let md = minimal_non_dust(&sender.script_pubkey);
        if remaining < md && !is_op_return_exec(&sender.script_pubkey) {
            proof {
                crate::types::lemma_sum_value_bounds(utxos@);
                lemma_pool_entry_wf(*pool, sender.text@);
                lemma_pool_entry_wf(*old(pool), sender.text@);
            }
            restore_bitcoin(pool, &sender.text, utxos, Ghost(old(pool).btc_utxos(sender.text@)));
            return Err(BuildError::Dust { output_value: remaining, minimum: md });
        }
    }
    let input = inputs_for(&utxos, SEQUENCE_MAX);
    let mut output: Vec<TxOut> = Vec::new();
    output.push(TxOut { value: receiver_amount, script_pubkey: clone_bytes(&receiver.script_pubkey) });
    if remaining >= crate::DUST_THRESHOLD {
        output.push(TxOut { value: remaining, script_pubkey: clone_bytes(&sender.script_pubkey) });
    }
    let txn = Transaction { version: 2, lock_time: 0, input, output };
    proof {
        assert(txn@.input =~~= inputs_from_utxos(utxos@, SEQUENCE_MAX));
        assert(txn@.output =~~= transfer_outputs(
            receiver_amount,
            receiver.script_pubkey@,
            remaining,
            sender.script_pubkey@,
        ));
        assert(tx_txids_wf(txn@));
        assert(outputs_non_dust(txn@.output));
    }
    Ok((txn, utxos))
}

} // verus!

verus! {

/// Arguments of a plain bitcoin transfer.
pub struct BtcTransferArgs {
    pub sender: crate::types::Address,
    pub receiver: crate::types::Address,
    pub sender_account: crate::types::Account,
    pub amount: u64,
    pub paid_by_sender: bool,
    pub fee_per_vbytes: u64,
}

/// The fee that a candidate plain transfer actually pays at the given rate:
/// computed from the virtual size of its placeholder-signed clone.
pub open spec fn real_fee_of(t: TransactionV, pubkey: Seq<u8>, fee_per_vbytes: u64) -> int {
    fee_for(tx_vsize(mock_signed_view(t, pubkey)), fee_per_vbytes)
}

/// One of a plain transfer's two possible dust failures: the receiver's
/// output below its script's floor, or a change output that cleared the dust
/// threshold but not the sender script's floor.
pub open spec fn transfer_dust_case(
    pool: Seq<Utxo>,
    sender_spk: Seq<u8>,
    receiver_spk: Seq<u8>,
    amount: u64,
    paid_by_sender: bool,
    fee: int,
    output_value: u64,
    minimum: u64,
) -> bool {
    let required = required_amount(amount, paid_by_sender, fee);
    let c = crate::types::smallest_first(pool, 0, required, false);
    ||| (output_value as int == receiver_value(amount, paid_by_sender, fee) && minimum as nat
        == min_non_dust_of(receiver_spk) && !is_op_return(receiver_spk) && output_value < minimum)
    ||| (c.reached && output_value as int == sum_value(c.taken) - required && minimum as nat
        == min_non_dust_of(sender_spk) && !is_op_return(sender_spk) && output_value
        >= crate::DUST_THRESHOLD && output_value < minimum)
}

/// Everything round arithmetic of a plain transfer depends on: the pool as
/// the call found it, the two scripts, the sizing key, and the request.
#[verifier::ext_equal]
pub struct TransferQuery {
    pub pool: Seq<Utxo>,
    pub sender_spk: Seq<u8>,
    pub receiver_spk: Seq<u8>,
    pub mock_key: Seq<u8>,
    pub amount: u64,
    pub paid_by_sender: bool,
    pub fee_per_vbytes: u64,
}

/// The candidate transfer shaped at an assumed fee over a pool order.
pub open spec fn transfer_candidate(q: TransferQuery, pool: Seq<Utxo>, fee: int) -> TransactionV {
    let required = required_amount(q.amount, q.paid_by_sender, fee);
    let c = crate::types::smallest_first(pool, 0, required, false);
    TransactionV {
        version: 2,
        lock_time: 0,
        input: inputs_from_utxos(c.taken, SEQUENCE_MAX),
        output: transfer_outputs(
            receiver_value(q.amount, q.paid_by_sender, fee) as u64,
            q.receiver_spk,
            (sum_value(c.taken) - required) as u64,
            q.sender_spk,
        ),
    }
}

/// The fee search after `k` rounds: the pool order that restoration leaves
/// (the untouched remainder, then the returned outputs), and the next assumed
/// fee — the fee measured from round `k - 1`'s candidate. The whole search is
/// a function of the query alone.
pub open spec fn transfer_round(q: TransferQuery, k: nat) -> (Seq<Utxo>, int)
    decreases k,
{
    if k == 0 {
        (q.pool, 0)
    } else {
        let (p, f) = transfer_round(q, (k - 1) as nat);
        let required = required_amount(q.amount, q.paid_by_sender, f);
        let c = crate::types::smallest_first(p, 0, required, false);
        let f2 = fee_for(
            tx_vsize(mock_signed_view(transfer_candidate(q, p, f), q.mock_key)),
            q.fee_per_vbytes,
        );
        (c.rest + c.taken, f2)
    }
}

pub open spec fn transfer_round_pool(q: TransferQuery, k: nat) -> Seq<Utxo> {
    transfer_round(q, k).0
}

pub open spec fn transfer_round_fee(q: TransferQuery, k: nat) -> int {
    transfer_round(q, k).1
}

/// The search has its fixed point at round `k`: the fee measured from round
/// `k`'s candidate is the fee that candidate was built with.
pub open spec fn transfer_converges_at(q: TransferQuery, k: int) -> bool {
    0 <= k && transfer_round_fee(q, (k + 1) as nat) == transfer_round_fee(q, k as nat)
}

/// Round `k` cannot be funded: the pool as that round sees it does not reach
/// the amount plus the round's assumed fee.
pub open spec fn transfer_round_insufficient(q: TransferQuery, k: int, required: u64) -> bool {
    &&& 0 <= k
    &&& required as int == required_amount(
        q.amount,
        q.paid_by_sender,
        transfer_round_fee(q, k as nat),
    )
    &&& !crate::types::smallest_first(
        transfer_round_pool(q, k as nat),
        0,
        required as int,
        false,
    ).reached
}

/// Round `k` failed one of the dust checks at the reported values.
pub open spec fn transfer_round_dust(
    q: TransferQuery,
    k: int,
    output_value: u64,
    minimum: u64,
) -> bool {
    &&& 0 <= k
    &&& transfer_dust_case(
        transfer_round_pool(q, k as nat),
        q.sender_spk,
        q.receiver_spk,
        q.amount,
        q.paid_by_sender,
        transfer_round_fee(q, k as nat),
        output_value,
        minimum,
    )
}

/// Round `k` hits a 64-bit limit: the amount and the round's fee do not
/// combine, or the candidate's size times the rate does not.
pub open spec fn transfer_round_overflows(q: TransferQuery, k: int) -> bool {
    let f = transfer_round_fee(q, k as nat);
    let p = transfer_round_pool(q, k as nat);
    ||| (q.paid_by_sender && q.amount + f > u64::MAX)
    ||| (!q.paid_by_sender && q.amount < f)
    ||| (0 <= k && tx_vsize(mock_signed_view(transfer_candidate(q, p, f), q.mock_key))
        * q.fee_per_vbytes > u64::MAX)
}

pub open spec fn transfer_query_of(
    pool: Seq<Utxo>,
    args: BtcTransferArgs,
    mock_key: Seq<u8>,
) -> TransferQuery {
    TransferQuery {
        pool,
        sender_spk: args.sender.script_pubkey@,
        receiver_spk: args.receiver.script_pubkey@,
        mock_key,
        amount: args.amount,
        paid_by_sender: args.paid_by_sender,
        fee_per_vbytes: args.fee_per_vbytes,
    }
}

/// Assembles a plain transfer whose real fee — recomputed from the virtual
/// size of a byte-identical placeholder-signed clone — equals the fee that was
/// assumed when its inputs were selected. Every failure restores the pool.
pub fn transfer(
    pool: &mut crate::utxo_manager::UtxoManager,
    args: BtcTransferArgs,
    sender_public_key: Vec<u8>,
) -> (r: Result<crate::txn_handler::TransactionType, BuildError>)
    requires
        old(pool).wf(),
        args.sender.script_pubkey@.len() <= 0x10000,
        args.receiver.script_pubkey@.len() <= 0x10000,
        sender_public_key@.len() < 0x10000,
    ensures
        final(pool).wf(),
        final(pool).btc_frame(*old(pool), args.sender.text@),
        final(pool).runic_all_frame(*old(pool)),
        match r {
            Ok(t) => t matches crate::txn_handler::TransactionType::Bitcoin {
                utxos,
                txn,
                sender,
                sender_account,
            } && {
                let orig = old(pool).btc_utxos(args.sender.text@);
                let total = sum_value(utxos@);
                let fee = real_fee_of(txn@, sender_public_key@, args.fee_per_vbytes);
                let required = required_amount(args.amount, args.paid_by_sender, fee);
                let remaining = total - required;
                &&& total >= required
                &&& txn@.version == 2
                &&& txn@.lock_time == 0
                &&& txn@.input == inputs_from_utxos(utxos@, SEQUENCE_MAX)
                &&& txn@.output == transfer_outputs(
                    receiver_value(args.amount, args.paid_by_sender, fee) as u64,
                    args.receiver.script_pubkey@,
                    remaining as u64,
                    args.sender.script_pubkey@,
                )
                &&& receiver_value(args.amount, args.paid_by_sender, fee) >= 0
                &&& outputs_non_dust(txn@.output)
                &&& tx_txids_wf(txn@)
                &&& unique_outpoints(utxos@)
                &&& sender.text@ == args.sender.text@
                &&& sender_account == args.sender_account
                &&& final(pool).btc_utxos(args.sender.text@).to_multiset().add(utxos@.to_multiset())
                    == orig.to_multiset()
                &&& sum_value(final(pool).btc_utxos(args.sender.text@)) == sum_value(orig) - total
                &&& ({
                    let q = transfer_query_of(orig, args, sender_public_key@);
                    exists|k: int|
                        0 <= k < MAX_FEE_ROUNDS && #[trigger] transfer_converges_at(q, k) && txn@
                            == transfer_candidate(
                            q,
                            transfer_round_pool(q, k as nat),
                            transfer_round_fee(q, k as nat),
                        )
                })
            },
            Err(e) => {
                let orig = old(pool).btc_utxos(args.sender.text@);
                let q = transfer_query_of(orig, args, sender_public_key@);
                &&& final(pool).btc_utxos(args.sender.text@).to_multiset() == orig.to_multiset()
                &&& sum_value(final(pool).btc_utxos(args.sender.text@)) == sum_value(orig)
                &&& match e {
                    BuildError::InsufficientBitcoin { required } => sum_value(orig) < required
                        && exists|k: int|
                        k < MAX_FEE_ROUNDS && #[trigger] transfer_round_insufficient(
                            q,
                            k,
                            required,
                        ),
                    BuildError::Dust { output_value, minimum } => exists|k: int|
                        k < MAX_FEE_ROUNDS && #[trigger] transfer_round_dust(
                            q,
                            k,
                            output_value,
                            minimum,
                        ),
                    BuildError::MalformedUtxo => exists|i: int|
                        0 <= i < orig.len() && orig[i].outpoint.txid@.len() != 32,
                    BuildError::ArithmeticOverflow => exists|k: int|
                        0 <= k < MAX_FEE_ROUNDS && #[trigger] transfer_round_overflows(q, k),
                    BuildError::FeeDidNotConverge => forall|k: int|
                        0 <= k < MAX_FEE_ROUNDS ==> !(#[trigger] transfer_converges_at(q, k)),
                    _ => false,
                }
            },
        },
{
    let ghost orig0 = old(pool).btc_utxos(args.sender.text@);
    let ghost q = transfer_query_of(orig0, args, sender_public_key@);
    let mut total_fee: u64 = 0;
    let mut round: u32 = 0;
    while round < MAX_FEE_ROUNDS
        invariant
            pool.wf(),
            args.sender.script_pubkey@.len() <= 0x10000,
            args.receiver.script_pubkey@.len() <= 0x10000,
            sender_public_key@.len() < 0x10000,
            orig0 == old(pool).btc_utxos(args.sender.text@),
            q == transfer_query_of(orig0, args, sender_public_key@),
            transfer_round_pool(q, round as nat) == pool.btc_utxos(args.sender.text@),
            transfer_round_fee(q, round as nat) == total_fee as int,
            forall|j: int| 0 <= j < round ==> !(#[trigger] transfer_converges_at(q, j)),
            pool.btc_utxos(args.sender.text@).to_multiset() == orig0.to_multiset(),
            sum_value(pool.btc_utxos(args.sender.text@)) == sum_value(orig0),
            pool.btc_frame(*old(pool), args.sender.text@),
            pool.runic_all_frame(*old(pool)),
        decreases MAX_FEE_ROUNDS - round,
    {
        let ghost round_pool = *pool;
        match build_transaction_with_fee(
            pool,
            &args.sender,
            &args.receiver,
            args.amount,
            args.paid_by_sender,
            total_fee,
        ) {
            Err(e) => {
                proof {
                    if e is MalformedUtxo {
                        crate::types::lemma_ms_preserves_bad_txid(
                            round_pool.btc_utxos(args.sender.text@),
                            orig0,
                        );
                    }
                    if e is InsufficientBitcoin {
                        assert(transfer_round_insufficient(
                            q,
                            round as int,
                            e->InsufficientBitcoin_required,
                        ));
                    }
                    if e is Dust {
                        assert(transfer_round_dust(
                            q,
                            round as int,
                            e->Dust_output_value,
                            e->Dust_minimum,
                        ));
                    }
                    if e is ArithmeticOverflow {
                        assert(transfer_round_overflows(q, round as int));
                    }
                }
                return Err(e);
            },
            Ok((txn, utxos)) => {
                let ghost pk = transfer_round_pool(q, round as nat);
                let ghost fk = transfer_round_fee(q, round as nat);
                let ghost csel = crate::types::smallest_first(
                    pk,
                    0,
                    required_amount(args.amount, args.paid_by_sender, fk),
                    false,
                );
                proof {
                    assert(txn@ =~~= transfer_candidate(q, pk, fk));
                }
                let mock = mock_ecdsa_signature(&txn, &sender_public_key);
                let vsize = transaction_vsize(&mock);
                proof {
                    assert(mock@ == mock_signed_view(transfer_candidate(q, pk, fk), q.mock_key));
                    assert(transfer_round_fee(q, (round + 1) as nat) == fee_for(
                        tx_vsize(mock@),
                        args.fee_per_vbytes,
                    ));
                    assert(transfer_round_pool(q, (round + 1) as nat) == csel.rest + csel.taken);
                }
                let real_fee = match vsize.checked_mul(args.fee_per_vbytes) {
                    None => {
                        proof {
                            lemma_pool_entry_wf(round_pool, args.sender.text@);
                            assert(transfer_round_overflows(q, round as int));
                        }
                        restore_bitcoin(pool, &args.sender.text, utxos, Ghost(orig0));
                        return Err(BuildError::ArithmeticOverflow);
                    },
                    Some(p) => p / 1000,
                };
                proof {
                    assert(real_fee as int == transfer_round_fee(q, (round + 1) as nat));
                }
                if real_fee == total_fee {
                    proof {
                        assert(mock@ == mock_signed_view(txn@, sender_public_key@));
                        assert(real_fee_of(txn@, sender_public_key@, args.fee_per_vbytes)
                            == total_fee as int);
                        assert(transfer_converges_at(q, round as int));
                    }
                    return Ok(crate::txn_handler::TransactionType::Bitcoin {
                        utxos,
                        txn,
                        sender: args.sender,
                        sender_account: args.sender_account,
                    });
                }
                proof {
                    lemma_pool_entry_wf(round_pool, args.sender.text@);
                    assert(!transfer_converges_at(q, round as int));
                }
                restore_bitcoin(pool, &args.sender.text, utxos, Ghost(orig0));
                proof {
                    assert(pool.btc_utxos(args.sender.text@) =~= csel.rest + csel.taken);
                }
                total_fee = real_fee;
                round += 1;
            },
        }
    }
    Err(BuildError::FeeDidNotConverge)
}

} // verus!
