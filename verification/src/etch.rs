use vstd::prelude::*;

use bitcoin::Network as ChainNetwork;
use bitcoin::taproot::{LeafVersion, TaprootBuilder};

use crate::bytes::{clone_bytes, txid_to_string, ascii_chars, txid_hex_ascii};
use crate::inscription::{Inscription, envelope, inscription_fits};
use crate::runestone::{
    Artifact, ArtifactV, EtchingData, RunestoneData, RunestoneV, SpacedRune, decipher_runestone,
    deciphered_runestone, encipher_runestone, runestone_payload, MAX_STANDARD_OP_RETURN_SIZE,
};
use crate::script::{OP_CHECKSIG, is_op_return, push_encoding, push_opcode, push_slice};
use crate::transaction::{
    BuildError, SEQUENCE_RBF, Transaction, TransactionV, TxIn, TxInV, TxOut, TxOutV, fee_for,
    min_non_dust_of, minimal_non_dust, outputs_non_dust, transaction_txid, transaction_vsize,
    tx_txids_wf, txid_of, tx_vsize,
};
use crate::types::{
    Account, Address, Network, Outpoint, Utxo, sum_value, unique_outpoints, has_outpoint,
};
use crate::utxo_manager::{
    SelectError, UtxoManager, lemma_pool_entry_wf, restore_bitcoin, select_bitcoin,
};

verus! {

/// Satoshi value attached to the premine output of a reveal transaction.
pub const TARGET_POSTAGE: u64 = 10_000;

/// Relative-locktime sequence carried by reveal inputs: one less than the
/// required commit confirmations.
pub const REVEAL_SEQUENCE: u32 = 5;

pub uninterp spec fn taproot_address_text_of(
    script: Seq<u8>,
    internal_key: Seq<u8>,
    network: Network,
) -> Seq<char>;

pub uninterp spec fn taproot_spk_of(script: Seq<u8>, internal_key: Seq<u8>, network: Network) -> Seq<
    u8,
>;

pub uninterp spec fn taproot_control_block_of(
    script: Seq<u8>,
    internal_key: Seq<u8>,
    network: Network,
) -> Seq<u8>;

/// Whether the taproot commitment can be formed at all: the internal key
/// parses as a public key and the single-leaf tree finalizes. A pure
/// function of the same arguments.
pub uninterp spec fn taproot_commit_succeeds(
    script: Seq<u8>,
    internal_key: Seq<u8>,
    network: Network,
) -> bool;

/// The single-leaf taproot commitment of a reveal script.
pub struct TaprootCommitInfo {
    pub address_text: String,
    pub script_pubkey: Vec<u8>,
    pub control_block: Vec<u8>,
}

#[verifier::external_type_specification]
#[verifier::external_body]
pub struct ExChainNetwork(ChainNetwork);

/// Converts the network tag into the chain library's form.
#[verifier::external_body]
fn chain_network(network: Network) -> ChainNetwork {
    match network {
        Network::Mainnet => ChainNetwork::Bitcoin,
        Network::Testnet => ChainNetwork::Testnet,
        Network::Regtest => ChainNetwork::Regtest,
    }
}

/// Relies on bitcoin::taproot::TaprootBuilder (one leaf at depth zero,
/// finalized over the given internal key), bitcoin::Address::p2tr_tweaked and
/// bitcoin::taproot::ControlBlock::serialize: the resulting address, its
/// output script and the control block are pure functions of the leaf script,
/// the internal key and the network. Returns nothing when the internal key
/// does not parse as a public key or the tree cannot be finalized.
#[verifier::external_body]
pub fn taproot_commit(script: &Vec<u8>, internal_key_sec1: &Vec<u8>, network: Network) -> (r:
    Option<TaprootCommitInfo>)
    ensures
        (r is Some) == taproot_commit_succeeds(script@, internal_key_sec1@, network),
        r matches Some(info) ==> {
            &&& info.address_text@ == taproot_address_text_of(script@, internal_key_sec1@, network)
            &&& info.script_pubkey@ == taproot_spk_of(script@, internal_key_sec1@, network)
            &&& info.control_block@ == taproot_control_block_of(script@, internal_key_sec1@, network)
        },
{
    let secp = bitcoin::key::Secp256k1::new();
    let pk = bitcoin::PublicKey::from_slice(internal_key_sec1.as_slice()).ok()?;
    let leaf = bitcoin::ScriptBuf::from_bytes(script.clone());
    let spend = TaprootBuilder::new().add_leaf(0, leaf.clone()).ok()?.finalize(&secp, pk.into()).ok()?;
    let control = spend.control_block(&(leaf, LeafVersion::TapScript))?;
    let addr = bitcoin::Address::p2tr_tweaked(spend.output_key(), chain_network(network));
    Some(TaprootCommitInfo {
        address_text: addr.to_string(),
        script_pubkey: addr.script_pubkey().into_bytes(),
        control_block: control.serialize(),
    })
}

/// The x-only form of a SEC1-compressed public key: its 32 coordinate bytes
/// without the parity prefix.
pub fn xonly_of_sec1(key: &Vec<u8>) -> (r: Option<Vec<u8>>)
    ensures
        match r {
            Some(x) => key@.len() == 33 && x@ == key@.skip(1),
            None => key@.len() != 33,
        },
{
    if key.len() != 33 {
        return None;
    }
    let mut x: Vec<u8> = Vec::new();
    crate::bytes::extend_range(&mut x, key, 1, 33);
    proof {
        assert(x@ =~= key@.skip(1));
    }
    Some(x)
}

/// Unsigned reveal inputs: one per spent outpoint, with the relative
/// locktime that enforces the commit confirmations.
pub open spec fn reveal_inputs(ops: Seq<Outpoint>) -> Seq<TxInV> {
    Seq::new(
        ops.len(),
        |i: int|
            TxInV {
                previous_output: crate::transaction::outpoint_view(ops[i]),
                script_sig: Seq::empty(),
                sequence: REVEAL_SEQUENCE,
                witness: Seq::empty(),
            },
    )
}

/// The reveal transaction with placeholder witnesses, used only for sizing:
/// the commit input carries a dummy signature, the leaf script and the
/// control block; any other input a dummy signature alone.
pub open spec fn reveal_dummy_view(
    t: TransactionV,
    idx: int,
    script: Seq<u8>,
    control: Seq<u8>,
) -> TransactionV {
    TransactionV {
        input: Seq::new(
            t.input.len(),
            |i: int|
                TxInV {
                    previous_output: t.input[i].previous_output,
                    script_sig: t.input[i].script_sig,
                    sequence: t.input[i].sequence,
                    witness: if i == idx {
                        seq![Seq::new(64, |j: int| 0u8), script, control]
                    } else {
                        seq![Seq::new(64, |j: int| 0u8)]
                    },
                },
        ),
        ..t
    }
}

fn clone_outputs(outs: &Vec<TxOut>) -> (r: Vec<TxOut>)
    ensures
        r@.len() == outs@.len(),
        forall|i: int| 0 <= i < r@.len() ==> #[trigger] r@[i]@ == outs@[i]@,
{
    let mut r: Vec<TxOut> = Vec::new();
    let mut i: usize = 0;
    while i < outs.len()
        invariant
            i <= outs@.len(),
            r@.len() == i,
            forall|k: int| 0 <= k < i ==> #[trigger] r@[k]@ == outs@[k]@,
        decreases outs@.len() - i,
    {
        let o = TxOut { value: outs[i].value, script_pubkey: clone_bytes(&outs[i].script_pubkey) };
        proof {
            assert(o@ =~~= outs@[i as int]@);
        }
        r.push(o);
        i += 1;
    }
    r
}

/// Builds the unsigned reveal transaction over the given outpoints and
/// outputs, and prices it: the fee is computed from the virtual size of the
/// same transaction with fixed-size placeholder witnesses, so no placeholder
/// re-signing pass is needed.
pub fn build_reveal_transaction(
    commit_input_index: usize,
    control_block: &Vec<u8>,
    fee_per_vbytes: u64,
    output: &Vec<TxOut>,
    input: &Vec<Outpoint>,
    script: &Vec<u8>,
) -> (r: Result<(Transaction, u64), BuildError>)
    requires
        (commit_input_index as int) < input@.len(),
        forall|i: int| 0 <= i < input@.len() ==> #[trigger] input@[i].txid@.len() == 32,
    ensures
        match r {
            Ok((txn, fee)) => {
                &&& txn@.version == 2
                &&& txn@.lock_time == 0
                &&& txn@.input == reveal_inputs(Seq::new(input@.len(), |i: int| input@[i]))
                &&& txn@.output == Seq::new(output@.len(), |i: int| output@[i]@)
                &&& tx_txids_wf(txn@)
                &&& fee as int == fee_for(
                    tx_vsize(
                        reveal_dummy_view(txn@, commit_input_index as int, script@, control_block@),
                    ),
                    fee_per_vbytes,
                )
            },
            Err(e) => {
                let shaped = TransactionV {
                    version: 2,
                    lock_time: 0,
                    input: reveal_inputs(Seq::new(input@.len(), |i: int| input@[i])),
                    output: Seq::new(output@.len(), |i: int| output@[i]@),
                };
                &&& e is ArithmeticOverflow
                &&& tx_vsize(
                    reveal_dummy_view(shaped, commit_input_index as int, script@, control_block@),
                ) * fee_per_vbytes > u64::MAX
            },
        },
{
    let mut txin: Vec<TxIn> = Vec::new();
    let mut i: usize = 0;
    while i < input.len()
        invariant
            i <= input@.len(),
            txin@.len() == i,
            forall|k: int| 0 <= k < input@.len() ==> #[trigger] input@[k].txid@.len() == 32,
            forall|k: int| 0 <= k < i ==> #[trigger] txin@[k]@ == reveal_inputs(
                Seq::new(input@.len(), |t: int| input@[t]),
            )[k],
        decreases input@.len() - i,
    {
        let t = TxIn {
            previous_output: Outpoint {
                txid: clone_bytes(&input[i].txid),
                vout: input[i].vout,
            },
            script_sig: Vec::new(),
            sequence: REVEAL_SEQUENCE,
            witness: Vec::new(),
        };
        proof {
            assert(t@ =~~= reveal_inputs(Seq::new(input@.len(), |t: int| input@[t]))[i as int]);
        }
        txin.push(t);
        i += 1;
    }
    let txn = Transaction {
        version: 2,
        lock_time: 0,
        input: txin,
        output: clone_outputs(output),
    };
    proof {
        assert(txn@.input =~~= reveal_inputs(Seq::new(input@.len(), |t: int| input@[t])));
        assert(txn@.output =~~= Seq::new(output@.len(), |i: int| output@[i]@));
        assert(tx_txids_wf(txn@));
    }
    // The placeholder-witness clone measured for size.
    let mut sized = Transaction {
        version: 2,
        lock_time: 0,
        input: Vec::new(),
        output: clone_outputs(output),
    };
    let n = input.len();
    let mut k: usize = 0;
    while k < n
        invariant
            n == input@.len(),
            k <= n,
            sized.output@.len() == output@.len(),
            forall|t: int| 0 <= t < output@.len() ==> #[trigger] sized.output@[t]@ == output@[t]@,
            sized.version == 2,
            sized.lock_time == 0,
            forall|t: int| 0 <= t < input@.len() ==> #[trigger] input@[t].txid@.len() == 32,
            sized.input@.len() == k,
            forall|t: int| 0 <= t < k ==> #[trigger] sized.input@[t]@ == reveal_dummy_view(
                txn@,
                commit_input_index as int,
                script@,
                control_block@,
            ).input[t],
            txn@.input == reveal_inputs(Seq::new(input@.len(), |t: int| input@[t])),
            txn@.output == Seq::new(output@.len(), |i: int| output@[i]@),
        decreases n - k,
    {
        let zeros: Vec<u8> = vec![0u8; 64];
        proof {
            assert(zeros@ =~= Seq::new(64, |j: int| 0u8));
        }
        let mut w: Vec<Vec<u8>> = Vec::new();
        w.push(zeros);
        if k == commit_input_index {
            w.push(clone_bytes(script));
            w.push(clone_bytes(control_block));
        }
        let t = TxIn {
            previous_output: Outpoint {
                txid: clone_bytes(&input[k].txid),
                vout: input[k].vout,
            },
            script_sig: Vec::new(),
            sequence: REVEAL_SEQUENCE,
            witness: w,
        };
        proof {
            if k == commit_input_index {
                assert(t@.witness =~~= seq![Seq::new(64, |j: int| 0u8), script@, control_block@]);
            } else {
                assert(t@.witness =~~= seq![Seq::new(64, |j: int| 0u8)]);
            }
            assert(t@ =~~= reveal_dummy_view(
                txn@,
                commit_input_index as int,
                script@,
                control_block@,
            ).input[k as int]);
        }
        sized.input.push(t);
        k += 1;
    }
    proof {
        assert(sized@ =~~= reveal_dummy_view(
            txn@,
            commit_input_index as int,
            script@,
            control_block@,
        ));
        assert(tx_txids_wf(sized@));
    }
    let vsize = transaction_vsize(&sized);
    let fee = match vsize.checked_mul(fee_per_vbytes) {
        None => {
            proof {
                assert(txn@ =~~= (TransactionV {
                    version: 2,
                    lock_time: 0,
                    input: reveal_inputs(Seq::new(input@.len(), |i: int| input@[i])),
                    output: Seq::new(output@.len(), |i: int| output@[i]@),
                }));
            }
            return Err(BuildError::ArithmeticOverflow);
        },
        Some(p) => p / 1000,
    };
    Ok((txn, fee))
}

/// The outputs of a commit transaction: the taproot commitment carrying the
/// whole target, and a change output back to the fee payer exactly when the
/// remainder is at or above the dust threshold.
pub open spec fn commit_outputs(
    target: u64,
    recipient_spk: Seq<u8>,
    remaining: u64,
    payer_spk: Seq<u8>,
) -> Seq<TxOutV> {
    let base = seq![TxOutV { value: target, script_pubkey: recipient_spk }];
    if remaining >= crate::DUST_THRESHOLD {
        base.push(TxOutV { value: remaining, script_pubkey: payer_spk })
    } else {
        base
    }
}

/// Inputs of a commit transaction: replaceable, with a placeholder witness
/// kept only so the measured size covers the eventual signatures.
pub open spec fn commit_inputs(s: Seq<Utxo>) -> Seq<TxInV> {
    Seq::new(
        s.len(),
        |i: int|
            TxInV {
                previous_output: crate::transaction::outpoint_view(s[i].outpoint),
                script_sig: Seq::empty(),
                sequence: SEQUENCE_RBF,
                witness: seq![Seq::new(64, |j: int| 0u8)],
            },
    )
}

/// Everything round arithmetic of a commit transaction depends on.
#[verifier::ext_equal]
pub struct CommitQuery {
    pub pool: Seq<Utxo>,
    pub payer_spk: Seq<u8>,
    pub recipient_spk: Seq<u8>,
    pub fee_per_vbytes: u64,
    pub target: u64,
}

pub open spec fn commit_query_of(
    pool: Seq<Utxo>,
    payer_spk: Seq<u8>,
    recipient_spk: Seq<u8>,
    fee_per_vbytes: u64,
    target: u64,
) -> CommitQuery {
    CommitQuery { pool, payer_spk, recipient_spk, fee_per_vbytes, target }
}

/// The candidate commit transaction shaped at an assumed fee over a pool
/// order; it carries its own placeholder witnesses, so it is measured as is.
pub open spec fn commit_candidate(cq: CommitQuery, pool: Seq<Utxo>, fee: int) -> TransactionV {
    let required = cq.target + fee;
    let c = crate::types::smallest_first(pool, 0, required, true);
    TransactionV {
        version: 2,
        lock_time: 0,
        input: commit_inputs(c.taken),
        output: commit_outputs(
            cq.target,
            cq.recipient_spk,
            (sum_value(c.taken) - required) as u64,
            cq.payer_spk,
        ),
    }
}

/// The commit fee search after `k` rounds: the pool order restoration leaves,
/// and the next assumed fee.
pub open spec fn commit_round(cq: CommitQuery, k: nat) -> (Seq<Utxo>, int)
    decreases k,
{
    if k == 0 {
        (cq.pool, 0)
    } else {
        let (p, f) = commit_round(cq, (k - 1) as nat);
        let c = crate::types::smallest_first(p, 0, cq.target + f, true);
        let f2 = fee_for(tx_vsize(commit_candidate(cq, p, f)), cq.fee_per_vbytes);
        (c.rest + c.taken, f2)
    }
}

pub open spec fn commit_round_pool(cq: CommitQuery, k: nat) -> Seq<Utxo> {
    commit_round(cq, k).0
}

pub open spec fn commit_round_fee(cq: CommitQuery, k: nat) -> int {
    commit_round(cq, k).1
}

/// The search has its fixed point at round `k`.
pub open spec fn commit_converges_at(cq: CommitQuery, k: int) -> bool {
    0 <= k && commit_round_fee(cq, (k + 1) as nat) == commit_round_fee(cq, k as nat)
}

/// Round `k` cannot be funded: the pool does not reach the commitment target
/// plus the round's assumed fee.
pub open spec fn commit_round_insufficient(cq: CommitQuery, k: int, required: u64) -> bool {
    &&& 0 <= k
    &&& required as int == cq.target + commit_round_fee(cq, k as nat)
    &&& !crate::types::smallest_first(
        commit_round_pool(cq, k as nat),
        0,
        required as int,
        true,
    ).reached
}

/// A dust failure the commit builder reports: the committed target below the
/// commitment script's floor, or, at round `k`, a change output that cleared
/// the dust threshold but not the payer script's floor.
#[verifier::opaque]
pub open spec fn commit_dust_report(
    cq: CommitQuery,
    k: int,
    output_value: u64,
    minimum: u64,
) -> bool {
    ||| (output_value == cq.target && minimum as nat == min_non_dust_of(cq.recipient_spk)
        && !is_op_return(cq.recipient_spk) && output_value < minimum)
    ||| commit_round_change_dust(cq, k, output_value, minimum)
}

/// Round `k` emitted a change output that cleared the dust threshold but not
/// the payer script's floor.
pub open spec fn commit_round_change_dust(
    cq: CommitQuery,
    k: int,
    output_value: u64,
    minimum: u64,
) -> bool {
    let f = commit_round_fee(cq, k as nat);
    let p = commit_round_pool(cq, k as nat);
    let c = crate::types::smallest_first(p, 0, cq.target + f, true);
    &&& 0 <= k
    &&& c.reached
    &&& output_value as int == sum_value(c.taken) - cq.target - f
    &&& minimum as nat == min_non_dust_of(cq.payer_spk)
    &&& !is_op_return(cq.payer_spk)
    &&& output_value >= crate::DUST_THRESHOLD
    &&& output_value < minimum
}

/// Round `k` hits a 64-bit limit.
pub open spec fn commit_round_overflows(cq: CommitQuery, k: int) -> bool {
    let f = commit_round_fee(cq, k as nat);
    let p = commit_round_pool(cq, k as nat);
    ||| cq.target + f > u64::MAX
    ||| (0 <= k && tx_vsize(commit_candidate(cq, p, f)) * cq.fee_per_vbytes > u64::MAX)
}

/// Funds and sizes the commit transaction: selects the fee payer's outputs
/// smallest-first until they reach the target plus the assumed fee, and
/// repeats with the measured fee until the two agree. Every failure restores
/// the pool.
#[verifier::rlimit(100)]
#[verifier::spinoff_prover]
pub fn build_commit_transaction_with_fee(
    pool: &mut UtxoManager,
    fee_payer: &Address,
    recipient: &Vec<u8>,
    fee_per_vbytes: u64,
    target: u64,
) -> (r: Result<(Transaction, Vec<Utxo>), BuildError>)
    requires
        old(pool).wf(),
        fee_payer.script_pubkey@.len() <= 0x10000,
        recipient@.len() <= 0x10000,
    ensures
        final(pool).wf(),
        final(pool).btc_frame(*old(pool), fee_payer.text@),
        final(pool).runic_all_frame(*old(pool)),
        match r {
            Ok((txn, utxos)) => {
                let orig = old(pool).btc_utxos(fee_payer.text@);
                let cq = commit_query_of(
                    orig,
                    fee_payer.script_pubkey@,
                    recipient@,
                    fee_per_vbytes,
                    target,
                );
                let total = sum_value(utxos@);
                let fee = fee_for(tx_vsize(txn@), fee_per_vbytes);
                let remaining = total - target - fee;
                &&& exists|k: int|
                    0 <= k < crate::transaction::MAX_FEE_ROUNDS && #[trigger] commit_converges_at(
                        cq,
                        k,
                    ) && txn@ == commit_candidate(
                        cq,
                        commit_round_pool(cq, k as nat),
                        commit_round_fee(cq, k as nat),
                    )
                &&& total >= target + fee
                &&& txn@.version == 2
                &&& txn@.lock_time == 0
                &&& txn@.input == commit_inputs(utxos@)
                &&& txn@.output == commit_outputs(
                    target,
                    recipient@,
                    remaining as u64,
                    fee_payer.script_pubkey@,
                )
                &&& outputs_non_dust(txn@.output)
                &&& tx_txids_wf(txn@)
                &&& unique_outpoints(utxos@)
                &&& forall|i: int|
                    0 <= i < utxos@.len() ==> !has_outpoint(
                        final(pool).btc_utxos(fee_payer.text@),
                        #[trigger] utxos@[i].outpoint,
                    )
                &&& final(pool).btc_utxos(fee_payer.text@).to_multiset().add(utxos@.to_multiset())
                    == orig.to_multiset()
                &&& sum_value(final(pool).btc_utxos(fee_payer.text@)) == sum_value(orig) - total
            },
            Err(e) => {
                let orig = old(pool).btc_utxos(fee_payer.text@);
                let cq = commit_query_of(
                    orig,
                    fee_payer.script_pubkey@,
                    recipient@,
                    fee_per_vbytes,
                    target,
                );
                &&& final(pool).btc_utxos(fee_payer.text@).to_multiset() == orig.to_multiset()
                &&& sum_value(final(pool).btc_utxos(fee_payer.text@)) == sum_value(orig)
                &&& match e {
                    BuildError::InsufficientBitcoin { required } => sum_value(orig) < required
                        && required >= target && exists|k: int|
                        k < crate::transaction::MAX_FEE_ROUNDS
                            && #[trigger] commit_round_insufficient(cq, k, required),
                    BuildError::Dust { output_value, minimum } => commit_dust_report(
                        cq,
                        0,
                        output_value,
                        minimum,
                    ) || exists|k: int|
                        0 <= k < crate::transaction::MAX_FEE_ROUNDS
                            && #[trigger] commit_round_change_dust(cq, k, output_value, minimum),
                    BuildError::ArithmeticOverflow => exists|k: int|
                        0 <= k < crate::transaction::MAX_FEE_ROUNDS
                            && #[trigger] commit_round_overflows(cq, k),
                    BuildError::MalformedUtxo => exists|i: int|
                        0 <= i < orig.len() && orig[i].outpoint.txid@.len() != 32,
                    BuildError::FeeDidNotConverge => forall|k: int|
                        0 <= k < crate::transaction::MAX_FEE_ROUNDS ==> !(
                        #[trigger] commit_converges_at(cq, k)),
                    _ => false,
                }
            },
        },
{
    // A sub-dust commitment output is a fatal construction error, raised
    // before any pool mutation.
    if !crate::script::is_op_return_exec(recipient) {
        let dust_value = minimal_non_dust(recipient);
        if target < dust_value {
            proof {
                reveal(commit_dust_report);
                let cq0 = commit_query_of(
                    old(pool).btc_utxos(fee_payer.text@),
                    fee_payer.script_pubkey@,
                    recipient@,
                    fee_per_vbytes,
                    target,
                );
                assert(commit_dust_report(cq0, 0, target, dust_value));
                assert(exists|k: int|
                    k < crate::transaction::MAX_FEE_ROUNDS && #[trigger] commit_dust_report(
                        cq0,
                        k,
                        target,
                        dust_value,
                    ));
            }
            return Err(BuildError::Dust { output_value: target, minimum: dust_value });
        }
    }
    let ghost orig0 = old(pool).btc_utxos(fee_payer.text@);
    let ghost cq = commit_query_of(
        orig0,
        fee_payer.script_pubkey@,
        recipient@,
        fee_per_vbytes,
        target,
    );
    let mut total_fee: u64 = 0;
    let mut round: u32 = 0;
    while round < crate::transaction::MAX_FEE_ROUNDS
        invariant
            pool.wf(),
            fee_payer.script_pubkey@.len() <= 0x10000,
            recipient@.len() <= 0x10000,
            orig0 == old(pool).btc_utxos(fee_payer.text@),
            cq == commit_query_of(
                orig0,
                fee_payer.script_pubkey@,
                recipient@,
                fee_per_vbytes,
                target,
            ),
            commit_round_pool(cq, round as nat) == pool.btc_utxos(fee_payer.text@),
            commit_round_fee(cq, round as nat) == total_fee as int,
            forall|j: int| 0 <= j < round ==> !(#[trigger] commit_converges_at(cq, j)),
            is_op_return(recipient@) || target as nat >= min_non_dust_of(recipient@),
            pool.btc_utxos(fee_payer.text@).to_multiset() == orig0.to_multiset(),
            sum_value(pool.btc_utxos(fee_payer.text@)) == sum_value(orig0),
            pool.btc_frame(*old(pool), fee_payer.text@),
            pool.runic_all_frame(*old(pool)),
        decreases crate::transaction::MAX_FEE_ROUNDS - round,
    {
        let ghost round_pool = *pool;
        let required: u64 = match target.checked_add(total_fee) {
            None => {
                proof {
                    assert(commit_round_overflows(cq, round as int));
                }
                return Err(BuildError::ArithmeticOverflow);
            },
            Some(v) => v,
        };
        let ghost pk = commit_round_pool(cq, round as nat);
        let ghost fk = commit_round_fee(cq, round as nat);
        let ghost csel = crate::types::smallest_first(pk, 0, target + fk, true);
        let (utxos, total) = match select_bitcoin(pool, &fee_payer.text, required, true) {
            Ok(v) => v,
            Err(SelectError::Insufficient) => {
                proof {
                    assert(commit_round_insufficient(cq, round as int, required));
                }
                return Err(BuildError::InsufficientBitcoin { required });
            },
            Err(SelectError::MalformedUtxo) => {
                proof {
                    crate::types::lemma_ms_preserves_bad_txid(round_pool.btc_utxos(fee_payer.text@), orig0);
                }
                return Err(BuildError::MalformedUtxo);
            },
            Err(SelectError::ValueOverflow) => {
                proof {
                    crate::types::lemma_ms_preserves_bad_txid(round_pool.btc_utxos(fee_payer.text@), orig0);
                }
                return Err(BuildError::MalformedUtxo);
            },
        };
        let remaining = total - required;
        if remaining >= crate::DUST_THRESHOLD {
            let md = minimal_non_dust(&fee_payer.script_pubkey);
            if remaining < md && !crate::script::is_op_return_exec(&fee_payer.script_pubkey) {
                proof {
                    lemma_pool_entry_wf(round_pool, fee_payer.text@);
                    crate::types::lemma_sum_value_bounds(utxos@);
                    reveal(commit_dust_report);
                    assert(commit_round_change_dust(cq, round as int, remaining, md));
                    assert(commit_dust_report(cq, round as int, remaining, md));
                    assert(exists|k: int|
                        k < crate::transaction::MAX_FEE_ROUNDS && #[trigger] commit_dust_report(
                            cq,
                            k,
                            remaining,
                            md,
                        ));
                }
                restore_bitcoin(pool, &fee_payer.text, utxos, Ghost(orig0));
                return Err(BuildError::Dust { output_value: remaining, minimum: md });
            }
        }
        let mut input: Vec<TxIn> = Vec::new();
        let mut i: usize = 0;
        while i < utxos.len()
            invariant
                i <= utxos@.len(),
                input@.len() == i,
                crate::types::txids_wf(utxos@),
                forall|k: int| 0 <= k < i ==> #[trigger] input@[k]@ == commit_inputs(utxos@)[k],
            decreases utxos@.len() - i,
        {
            let zeros: Vec<u8> = vec![0u8; 64];
            proof {
                assert(zeros@ =~= Seq::new(64, |j: int| 0u8));
            }
            let mut w: Vec<Vec<u8>> = Vec::new();
            w.push(zeros);
            let t = TxIn {
                previous_output: Outpoint {
                    txid: clone_bytes(&utxos[i].outpoint.txid),
                    vout: utxos[i].outpoint.vout,
                },
                script_sig: Vec::new(),
                sequence: SEQUENCE_RBF,
                witness: w,
            };
            proof {
                assert(t@ =~~= commit_inputs(utxos@)[i as int]);
            }
            input.push(t);
            i += 1;
        }
        let mut output: Vec<TxOut> = Vec::new();
        output.push(TxOut { value: target, script_pubkey: clone_bytes(recipient) });
        if remaining >= crate::DUST_THRESHOLD {
            output.push(
                TxOut { value: remaining, script_pubkey: clone_bytes(&fee_payer.script_pubkey) },
            );
        }
        let txn = Transaction { version: 2, lock_time: 0, input, output };
        proof {
            assert(txn@.input =~~= commit_inputs(utxos@));
            assert(txn@.output =~~= commit_outputs(
                target,
                recipient@,
                remaining,
                fee_payer.script_pubkey@,
            ));
            assert(tx_txids_wf(txn@));
            assert(outputs_non_dust(txn@.output));
        }
        proof {
            assert(txn@ =~~= commit_candidate(cq, pk, fk));
            assert(commit_round_fee(cq, (round + 1) as nat) == fee_for(
                tx_vsize(txn@),
                fee_per_vbytes,
            ));
            assert(commit_round_pool(cq, (round + 1) as nat) == csel.rest + csel.taken);
        }
        let vsize = transaction_vsize(&txn);
        let real_fee = match vsize.checked_mul(fee_per_vbytes) {
            None => {
                proof {
                    lemma_pool_entry_wf(round_pool, fee_payer.text@);
                    assert(commit_round_overflows(cq, round as int));
                }
                restore_bitcoin(pool, &fee_payer.text, utxos, Ghost(orig0));
                return Err(BuildError::ArithmeticOverflow);
            },
            Some(p) => p / 1000,
        };
        proof {
            assert(real_fee as int == commit_round_fee(cq, (round + 1) as nat));
        }
        if real_fee == total_fee {
            proof {
                assert(commit_converges_at(cq, round as int));
            }
            return Ok((txn, utxos));
        }
        proof {
            lemma_pool_entry_wf(round_pool, fee_payer.text@);
            assert(!commit_converges_at(cq, round as int));
        }
        restore_bitcoin(pool, &fee_payer.text, utxos, Ghost(orig0));
        proof {
            assert(pool.btc_utxos(fee_payer.text@) =~= csel.rest + csel.taken);
        }
        total_fee = real_fee;
        round += 1;
    }
    Err(BuildError::FeeDidNotConverge)
}

} // verus!
verus! {

/// What an etching request needs: the parsed rune name, the asset parameters,
/// an optional logo to inscribe, the fee-paying role, and the signing key the
/// commit script is built over.
pub struct EtchingArgs {
    pub reveal_address: Address,
    pub logo: Option<Vec<u8>>,
    pub content_type: Option<Vec<u8>>,
    pub spaced_rune: SpacedRune,
    pub premine: u128,
    pub divisibility: u8,
    pub symbol: Option<char>,
    pub turbo: bool,
    pub fee_payer: Address,
    pub fee_payer_account: Account,
    pub fee_per_vbytes: u64,
    pub schnorr_public_key: Vec<u8>,
    pub network: Network,
}

/// The rune-creation directive an etching embeds: no edicts, no mint terms
/// (the rune is unmintable), and a pointer to the premine output when there
/// is one.
pub open spec fn etching_runestone(
    sr: SpacedRune,
    premine: u128,
    divisibility: u8,
    symbol: Option<char>,
    turbo: bool,
) -> RunestoneV {
    RunestoneV {
        edicts: Seq::empty(),
        etching: Some(
            EtchingData {
                divisibility: Some(divisibility),
                premine: Some(premine),
                rune: Some(sr.rune),
                spacers: Some(sr.spacers),
                symbol,
                terms: None,
                turbo,
            },
        ),
        mint: None,
        pointer: if premine > 0 {
            Some(0u32)
        } else {
            None
        },
    }
}

/// The outputs of a reveal transaction: the premine output (when there is a
/// premine), then the data-carrier directive.
pub open spec fn reveal_outputs_spec(premine: u128, reveal_spk: Seq<u8>, payload: Seq<u8>) -> Seq<
    TxOutV,
> {
    if premine > 0 {
        seq![
            TxOutV { value: TARGET_POSTAGE, script_pubkey: reveal_spk },
            TxOutV { value: 0, script_pubkey: payload },
        ]
    } else {
        seq![TxOutV { value: 0, script_pubkey: payload }]
    }
}

/// The unsigned reveal transaction as it is first priced: identical to the
/// final one except that its single input still spends the null outpoint.
pub open spec fn null_reveal_view(outputs: Seq<TxOutV>) -> TransactionV {
    TransactionV {
        version: 2,
        lock_time: 0,
        input: seq![
            TxInV {
                previous_output: crate::transaction::OutpointV {
                    txid: Seq::new(32, |j: int| 0u8),
                    vout: 0xFFFF_FFFFu32,
                },
                script_sig: Seq::empty(),
                sequence: REVEAL_SEQUENCE,
                witness: Seq::empty(),
            },
        ],
        output: outputs,
    }
}

/// The reveal leaf script: a push of the x-only signing key, OP_CHECKSIG,
/// then the inscription envelope.
pub open spec fn reveal_script_spec(xonly: Seq<u8>, insc: crate::inscription::InscriptionV) -> Seq<
    u8,
> {
    push_encoding(xonly) + seq![OP_CHECKSIG] + envelope(insc)
}

/// The inscription an etching carries: the logo as body, its content type,
/// and the commitment to the rune being etched.
pub open spec fn etching_inscription(
    logo: Option<Seq<u8>>,
    content_type: Option<Seq<u8>>,
    rune: u128,
) -> crate::inscription::InscriptionV {
    crate::inscription::InscriptionV {
        body: logo,
        content_encoding: None,
        content_type,
        delegate: None,
        metadata: None,
        metaprotocol: None,
        parents: Seq::empty(),
        pointer: None,
        rune: Some(crate::runestone::rune_commitment(rune)),
    }
}

/// A fully shaped etching, waiting only for its signatures: the fee-converged
/// commit transaction paying into the taproot commitment, and the unsigned
/// reveal transaction spending it, whose data-carrier output has been decoded
/// back and checked against the intended directive.
pub struct EtchingPlan {
    pub commit_tx_address: Address,
    pub commit: Transaction,
    pub reveal: Transaction,
    pub fee_utxos: Vec<Utxo>,
    pub fee_payer: Address,
    pub fee_payer_account: Account,
    pub reveal_script: Vec<u8>,
    pub control_block: Vec<u8>,
    pub commit_txid: String,
    pub reveal_txid: String,
    pub runestone: RunestoneData,
}

/// The inscription an etching request carries.
pub open spec fn etch_inscription_of(args: EtchingArgs) -> crate::inscription::InscriptionV {
    etching_inscription(
        crate::inscription::opt_view(args.logo),
        crate::inscription::opt_view(args.content_type),
        args.spaced_rune.rune,
    )
}

/// The directive an etching request embeds.
pub open spec fn etch_runestone_of(args: EtchingArgs) -> RunestoneV {
    etching_runestone(args.spaced_rune, args.premine, args.divisibility, args.symbol, args.turbo)
}

/// The reveal leaf script an etching request determines.
pub open spec fn etch_script_of(args: EtchingArgs) -> Seq<u8> {
    reveal_script_spec(args.schnorr_public_key@.skip(1), etch_inscription_of(args))
}

/// The reveal outputs an etching request determines.
pub open spec fn etch_outputs_of(args: EtchingArgs) -> Seq<TxOutV> {
    reveal_outputs_spec(
        args.premine,
        args.reveal_address.script_pubkey@,
        runestone_payload(etch_runestone_of(args)),
    )
}

pub open spec fn etch_control_of(args: EtchingArgs) -> Seq<u8> {
    taproot_control_block_of(etch_script_of(args), args.schnorr_public_key@, args.network)
}

/// The virtual size the reveal is priced at: its null-input form under
/// placeholder witnesses.
pub open spec fn etch_sizing_vsize(args: EtchingArgs) -> nat {
    tx_vsize(
        reveal_dummy_view(
            null_reveal_view(etch_outputs_of(args)),
            0,
            etch_script_of(args),
            etch_control_of(args),
        ),
    )
}

pub open spec fn etch_sizing_fee(args: EtchingArgs) -> int {
    fee_for(etch_sizing_vsize(args), args.fee_per_vbytes)
}

/// The commit funding question an etching request reduces to.
pub open spec fn etch_commit_query(args: EtchingArgs, orig: Seq<Utxo>) -> CommitQuery {
    CommitQuery {
        pool: orig,
        payer_spk: args.fee_payer.script_pubkey@,
        recipient_spk: taproot_spk_of(etch_script_of(args), args.schnorr_public_key@, args.network),
        fee_per_vbytes: args.fee_per_vbytes,
        target: (etch_sizing_fee(args) + TARGET_POSTAGE) as u64,
    }
}

/// Shapes the two etching transactions. The commit transaction is funded and
/// fee-converged from the fee payer's pool; the reveal transaction embeds the
/// envelope and the rune directive, is priced with a fixed-size placeholder
/// witness, and is decoded back to confirm it carries exactly the intended
/// directive. Every failure restores the pool.
#[verifier::rlimit(100)]
#[verifier::spinoff_prover]
pub fn etch(pool: &mut UtxoManager, args: EtchingArgs) -> (r: Result<EtchingPlan, BuildError>)
    requires
        old(pool).wf(),
        args.fee_payer.script_pubkey@.len() <= 0x10000,
        args.reveal_address.script_pubkey@.len() <= 0x10000,
        crate::inscription::opt_fits(crate::inscription::opt_view(args.content_type)),
    ensures
        final(pool).wf(),
        final(pool).btc_frame(*old(pool), args.fee_payer.text@),
        final(pool).runic_all_frame(*old(pool)),
        match r {
            Ok(plan) => {
                let orig = old(pool).btc_utxos(args.fee_payer.text@);
                let intended = etching_runestone(
                    args.spaced_rune,
                    args.premine,
                    args.divisibility,
                    args.symbol,
                    args.turbo,
                );
                let payload = runestone_payload(intended);
                let insc = etching_inscription(
                    crate::inscription::opt_view(args.logo),
                    crate::inscription::opt_view(args.content_type),
                    args.spaced_rune.rune,
                );
                let xonly = args.schnorr_public_key@.skip(1);
                let commit_spk = taproot_spk_of(
                    plan.reveal_script@,
                    args.schnorr_public_key@,
                    args.network,
                );
                let total = sum_value(plan.fee_utxos@);
                let commit_fee = fee_for(tx_vsize(plan.commit@), args.fee_per_vbytes);
                let reveal_fee = fee_for(
                    tx_vsize(
                        reveal_dummy_view(
                            null_reveal_view(plan.reveal@.output),
                            0,
                            plan.reveal_script@,
                            plan.control_block@,
                        ),
                    ),
                    args.fee_per_vbytes,
                );
                let target = reveal_fee + TARGET_POSTAGE;
                &&& plan.runestone@ == intended
                &&& deciphered_runestone(plan.reveal@.output) == Some(
                    ArtifactV::Runestone(intended),
                )
                &&& payload.len() <= MAX_STANDARD_OP_RETURN_SIZE
                &&& plan.reveal@.output == reveal_outputs_spec(
                    args.premine,
                    args.reveal_address.script_pubkey@,
                    payload,
                )
                &&& plan.reveal@.version == 2
                &&& plan.reveal@.lock_time == 0
                &&& plan.reveal@.input.len() == 1
                &&& plan.reveal@.input[0].previous_output.txid == txid_of(plan.commit@)
                &&& plan.reveal@.input[0].previous_output.vout == 0
                &&& plan.reveal@.input[0].sequence == REVEAL_SEQUENCE
                &&& plan.reveal@.input[0].script_sig.len() == 0
                &&& plan.reveal@.input[0].witness.len() == 0
                &&& outputs_non_dust(plan.reveal@.output)
                &&& tx_txids_wf(plan.reveal@)
                &&& plan.reveal_script@ == reveal_script_spec(xonly, insc)
                &&& args.schnorr_public_key@.len() == 33
                &&& plan.control_block@ == taproot_control_block_of(
                    plan.reveal_script@,
                    args.schnorr_public_key@,
                    args.network,
                )
                &&& plan.commit_tx_address.text@ == taproot_address_text_of(
                    plan.reveal_script@,
                    args.schnorr_public_key@,
                    args.network,
                )
                &&& plan.commit_tx_address.script_pubkey@ == commit_spk
                &&& plan.commit@.version == 2
                &&& plan.commit@.lock_time == 0
                &&& plan.commit@.input == commit_inputs(plan.fee_utxos@)
                &&& plan.commit@.output == commit_outputs(
                    target as u64,
                    commit_spk,
                    (total - target - commit_fee) as u64,
                    args.fee_payer.script_pubkey@,
                )
                &&& target <= u64::MAX
                &&& total >= target + commit_fee
                &&& outputs_non_dust(plan.commit@.output)
                &&& tx_txids_wf(plan.commit@)
                &&& unique_outpoints(plan.fee_utxos@)
                &&& plan.commit_txid@ == ascii_chars(txid_hex_ascii(txid_of(plan.commit@)))
                &&& plan.reveal_txid@ == ascii_chars(txid_hex_ascii(txid_of(plan.reveal@)))
                &&& plan.fee_payer.text@ == args.fee_payer.text@
                &&& final(pool).btc_utxos(args.fee_payer.text@).to_multiset().add(
                    plan.fee_utxos@.to_multiset(),
                ) == orig.to_multiset()
                &&& sum_value(final(pool).btc_utxos(args.fee_payer.text@)) == sum_value(orig)
                    - total
                &&& forall|i: int|
                    0 <= i < plan.fee_utxos@.len() ==> !has_outpoint(
                        final(pool).btc_utxos(args.fee_payer.text@),
                        #[trigger] plan.fee_utxos@[i].outpoint,
                    )
            },
            Err(e) => {
                let orig = old(pool).btc_utxos(args.fee_payer.text@);
                let ecq = etch_commit_query(args, orig);
                &&& final(pool).btc_utxos(args.fee_payer.text@).to_multiset() == orig.to_multiset()
                &&& sum_value(final(pool).btc_utxos(args.fee_payer.text@)) == sum_value(orig)
                &&& match e {
                    BuildError::OversizeRunestone { size } => size > MAX_STANDARD_OP_RETURN_SIZE
                        && size == runestone_payload(etch_runestone_of(args)).len(),
                    BuildError::InvalidKey => args.schnorr_public_key@.len() != 33
                        || !taproot_commit_succeeds(
                        etch_script_of(args),
                        args.schnorr_public_key@,
                        args.network,
                    ),
                    BuildError::Dust { output_value, minimum } => {
                        ||| (output_value == TARGET_POSTAGE && minimum as nat == min_non_dust_of(
                            args.reveal_address.script_pubkey@,
                        ) && !is_op_return(args.reveal_address.script_pubkey@) && output_value
                            < minimum)
                        ||| commit_dust_report(ecq, 0, output_value, minimum)
                        ||| exists|k: int|
                            0 <= k < crate::transaction::MAX_FEE_ROUNDS
                                && #[trigger] commit_round_change_dust(
                                ecq,
                                k,
                                output_value,
                                minimum,
                            )
                    },
                    BuildError::InsufficientBitcoin { required } => sum_value(orig) < required
                        && required as int >= TARGET_POSTAGE + etch_sizing_fee(args) && exists|
                        k: int,
                    |
                        k < crate::transaction::MAX_FEE_ROUNDS
                            && #[trigger] commit_round_insufficient(ecq, k, required),
                    BuildError::ArithmeticOverflow => {
                        ||| etch_sizing_vsize(args) * args.fee_per_vbytes > u64::MAX
                        ||| etch_sizing_fee(args) + TARGET_POSTAGE > u64::MAX
                        ||| exists|k: int|
                            0 <= k < crate::transaction::MAX_FEE_ROUNDS
                                && #[trigger] commit_round_overflows(ecq, k)
                        ||| exists|t: TransactionV|
                            #[trigger] tx_vsize(
                                reveal_dummy_view(t, 0, etch_script_of(args), etch_control_of(args)),
                            ) * args.fee_per_vbytes > u64::MAX
                    },
                    BuildError::MalformedUtxo => exists|i: int|
                        0 <= i < orig.len() && orig[i].outpoint.txid@.len() != 32,
                    BuildError::FeeDidNotConverge => forall|k: int|
                        0 <= k < crate::transaction::MAX_FEE_ROUNDS ==> !(
                        #[trigger] commit_converges_at(ecq, k)),
                    BuildError::EncodingMismatch => deciphered_runestone(etch_outputs_of(args))
                        != Some(ArtifactV::Runestone(etch_runestone_of(args))),
                    BuildError::OversizeScript => taproot_spk_of(
                        etch_script_of(args),
                        args.schnorr_public_key@,
                        args.network,
                    ).len() > 0x10000,
                    _ => false,
                }
            },
        },
{
    let ghost orig0 = old(pool).btc_utxos(args.fee_payer.text@);
    let intended = RunestoneData {
        edicts: Vec::new(),
        etching: Some(
            EtchingData {
                divisibility: Some(args.divisibility),
                premine: Some(args.premine),
                rune: Some(args.spaced_rune.rune),
                spacers: Some(args.spaced_rune.spacers),
                symbol: args.symbol,
                terms: None,
                turbo: args.turbo,
            },
        ),
        mint: None,
        pointer: if args.premine > 0 {
            Some(0u32)
        } else {
            None
        },
    };
    proof {
        assert(intended@ =~~= etching_runestone(
            args.spaced_rune,
            args.premine,
            args.divisibility,
            args.symbol,
            args.turbo,
        ));
    }
    let enciphered = encipher_runestone(&intended);
    if enciphered.len() > MAX_STANDARD_OP_RETURN_SIZE {
        return Err(BuildError::OversizeRunestone { size: enciphered.len() });
    }
    // The premine output must clear the dust floor of the reveal address.
    if args.premine > 0 {
        let md = minimal_non_dust(&args.reveal_address.script_pubkey);
        if TARGET_POSTAGE < md && !crate::script::is_op_return_exec(
            &args.reveal_address.script_pubkey,
        ) {
            return Err(BuildError::Dust { output_value: TARGET_POSTAGE, minimum: md });
        }
    }
    let mut reveal_output: Vec<TxOut> = Vec::new();
    if args.premine > 0 {
        reveal_output.push(
            TxOut {
                value: TARGET_POSTAGE,
                script_pubkey: clone_bytes(&args.reveal_address.script_pubkey),
            },
        );
    }
    reveal_output.push(TxOut { value: 0, script_pubkey: enciphered });
    proof {
        assert(Seq::new(reveal_output@.len(), |i: int| reveal_output@[i]@) =~~= etch_outputs_of(
            args,
        ));
    }
    let inscription = Inscription::new(args.logo, args.content_type, args.spaced_rune.rune);
    let xonly = match xonly_of_sec1(&args.schnorr_public_key) {
        None => {
            return Err(BuildError::InvalidKey);
        },
        Some(x) => x,
    };
    let mut script_start: Vec<u8> = Vec::new();
    push_slice(&mut script_start, &xonly);
    push_opcode(&mut script_start, OP_CHECKSIG);
    proof {
        crate::runestone::lemma_le_bytes_len(args.spaced_rune.rune as nat, 16);
        crate::runestone::lemma_trim_len(
            crate::runestone::le_bytes(args.spaced_rune.rune as nat, 16),
        );
        assert(inscription_fits(inscription@));
    }
    let reveal_script = inscription.append_reveal_script_to_builder(script_start);
    proof {
        assert(reveal_script@ =~= reveal_script_spec(
            args.schnorr_public_key@.skip(1),
            etching_inscription(
                crate::inscription::opt_view(args.logo),
                crate::inscription::opt_view(args.content_type),
                args.spaced_rune.rune,
            ),
        )) by {
            assert(inscription@ =~~= etching_inscription(
                crate::inscription::opt_view(args.logo),
                crate::inscription::opt_view(args.content_type),
                args.spaced_rune.rune,
            ));
        }
        assert(reveal_script@ == etch_script_of(args));
    }
    let info = match taproot_commit(&reveal_script, &args.schnorr_public_key, args.network) {
        None => {
            proof {
                assert(!taproot_commit_succeeds(
                    etch_script_of(args),
                    args.schnorr_public_key@,
                    args.network,
                ));
            }
            return Err(BuildError::InvalidKey);
        },
        Some(i) => i,
    };
    let mut null_outpoint: Vec<Outpoint> = Vec::new();
    null_outpoint.push(Outpoint { txid: vec![0u8; 32], vout: 0xFFFF_FFFF });
    proof {
        assert(null_outpoint@[0].txid@.len() == 32);
    }
    let (sizing_txn, reveal_fee) = match build_reveal_transaction(
        0,
        &info.control_block,
        args.fee_per_vbytes,
        &reveal_output,
        &null_outpoint,
        &reveal_script,
    ) {
        Err(e) => {
            proof {
                assert((TransactionV {
                    version: 2,
                    lock_time: 0,
                    input: reveal_inputs(
                        Seq::new(null_outpoint@.len(), |i: int| null_outpoint@[i]),
                    ),
                    output: Seq::new(reveal_output@.len(), |i: int| reveal_output@[i]@),
                }) =~~= null_reveal_view(etch_outputs_of(args)));
                assert(info.control_block@ == etch_control_of(args));
                assert(etch_sizing_vsize(args) * args.fee_per_vbytes > u64::MAX);
            }
            return Err(BuildError::ArithmeticOverflow);
        },
        Ok(v) => v,
    };
    proof {
        assert(sizing_txn@ =~~= null_reveal_view(
            Seq::new(reveal_output@.len(), |i: int| reveal_output@[i]@),
        ));
    }
    proof {
        assert(sizing_txn@ =~~= null_reveal_view(etch_outputs_of(args)));
        assert(info.control_block@ == etch_control_of(args));
        assert(reveal_fee as int == etch_sizing_fee(args));
    }
    let target = match reveal_fee.checked_add(TARGET_POSTAGE) {
        None => {
            proof {
                assert(etch_sizing_fee(args) + TARGET_POSTAGE > u64::MAX);
            }
            return Err(BuildError::ArithmeticOverflow);
        },
        Some(t) => t,
    };
    if info.script_pubkey.len() > 0x10000 {
        return Err(BuildError::OversizeScript);
    }
    proof {
        assert(pool.btc_utxos(args.fee_payer.text@) == orig0);
        assert(etch_commit_query(args, orig0) =~~= commit_query_of(
            orig0,
            args.fee_payer.script_pubkey@,
            info.script_pubkey@,
            args.fee_per_vbytes,
            target,
        ));
    }
    let (commit_txn, fee_utxos) = match build_commit_transaction_with_fee(
        pool,
        &args.fee_payer,
        &info.script_pubkey,
        args.fee_per_vbytes,
        target,
    ) {
        Err(e) => {
            return Err(e);
        },
        Ok(v) => v,
    };
    let ghost after_commit = *pool;
    let commit_txid_bytes = transaction_txid(&commit_txn);
    let commit_txid = txid_to_string(&commit_txid_bytes);
    let mut reveal_input: Vec<Outpoint> = Vec::new();
    reveal_input.push(Outpoint { txid: commit_txid_bytes, vout: 0 });
    let (mut reveal_txn, _) = match build_reveal_transaction(
        0,
        &info.control_block,
        args.fee_per_vbytes,
        &reveal_output,
        &reveal_input,
        &reveal_script,
    ) {
        Err(e) => {
            proof {
                lemma_pool_entry_wf(*old(pool), args.fee_payer.text@);
                crate::types::lemma_sum_value_bounds(fee_utxos@);
                assert(tx_vsize(
                    reveal_dummy_view(
                        TransactionV {
                            version: 2,
                            lock_time: 0,
                            input: reveal_inputs(
                                Seq::new(reveal_input@.len(), |i: int| reveal_input@[i]),
                            ),
                            output: Seq::new(reveal_output@.len(), |i: int| reveal_output@[i]@),
                        },
                        0,
                        etch_script_of(args),
                        etch_control_of(args),
                    ),
                ) * args.fee_per_vbytes > u64::MAX);
            }
            restore_bitcoin(
                pool,
                &args.fee_payer.text,
                fee_utxos,
                Ghost(old(pool).btc_utxos(args.fee_payer.text@)),
            );
            return Err(BuildError::ArithmeticOverflow);
        },
        Ok(v) => v,
    };
    // Decode the assembled directive back and insist it is the one intended.
    let deciphered = decipher_runestone(&reveal_txn);
    let matches_intent = match &deciphered {
        Some(Artifact::Runestone(found)) => crate::runestone::runestone_eq(found, &intended),
        _ => false,
    };
    if !matches_intent {
        proof {
            lemma_pool_entry_wf(*old(pool), args.fee_payer.text@);
            crate::types::lemma_sum_value_bounds(fee_utxos@);
            assert(reveal_txn@.output =~~= etch_outputs_of(args));
            assert(deciphered_runestone(etch_outputs_of(args)) != Some(
                ArtifactV::Runestone(etch_runestone_of(args)),
            )) by {
                match deciphered {
                    None => {},
                    Some(a) => {
                        match a {
                            Artifact::Cenotaph => {},
                            Artifact::Runestone(found) => {
                                assert(!(found@ =~~= intended@));
                                assert(found@ != etch_runestone_of(args));
                            },
                        }
                    },
                }
            }
        }
        restore_bitcoin(
            pool,
            &args.fee_payer.text,
            fee_utxos,
            Ghost(old(pool).btc_utxos(args.fee_payer.text@)),
        );
        return Err(BuildError::EncodingMismatch);
    }
    let reveal_txid_bytes = transaction_txid(&reveal_txn);
    let reveal_txid = txid_to_string(&reveal_txid_bytes);
    proof {
        assert(reveal_txn@.output =~~= reveal_outputs_spec(
            args.premine,
            args.reveal_address.script_pubkey@,
            runestone_payload(intended@),
        ));
        assert(outputs_non_dust(reveal_txn@.output));
        assert(reveal_txn@.output =~~= sizing_txn@.output);
        assert(null_reveal_view(reveal_txn@.output) =~~= sizing_txn@);
    }
    Ok(EtchingPlan {
        commit_tx_address: Address {
            text: info.address_text,
            script_pubkey: info.script_pubkey,
        },
        commit: commit_txn,
        reveal: reveal_txn,
        fee_utxos,
        fee_payer: args.fee_payer,
        fee_payer_account: args.fee_payer_account,
        reveal_script,
        control_block: info.control_block,
        commit_txid,
        reveal_txid,
        runestone: intended,
    })
}

} // verus!
