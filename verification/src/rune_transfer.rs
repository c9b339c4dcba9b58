use vstd::prelude::*;

use crate::bytes::clone_bytes;
use crate::runestone::{Edict, RunestoneData, RunestoneV, encipher_runestone, runestone_payload};
use crate::transaction::{
    BuildError, SEQUENCE_MAX, Transaction, TransactionV, TxInV, TxOut, TxOutV, fee_for,
    inputs_from_utxos, inputs_for, min_non_dust_of, minimal_non_dust, mock_ecdsa_signature,
    mock_signed_view, outputs_non_dust, real_fee_of, transaction_vsize, tx_txids_wf, tx_vsize,
};
use crate::types::{
    Account, Address, RuneId, RunicUtxo, Utxo, sum_balance, sum_runic_value, sum_value,
    unique_outpoints, unique_outpoints_runic,
};
use crate::txn_handler::TransactionType;
use crate::utxo_manager::{
    SelectError, UtxoManager, lemma_pool_entry_wf, lemma_pool_rune_entry_wf, restore_bitcoin,
    restore_runic, select_bitcoin, select_runic,
};

verus! {

/// The directive that moves `amount` of one rune to the transaction's third
/// output (the receiver's postage output), leaving the rest with the sender.
pub open spec fn transfer_runestone(runeid: RuneId, amount: u128) -> RunestoneV {
    RunestoneV {
        edicts: seq![Edict { block: runeid.block, tx: runeid.tx, amount, output: 2 }],
        etching: None,
        mint: None,
        pointer: None,
    }
}

/// The inputs referencing selected rune-bearing outputs, in selection order.
pub open spec fn inputs_from_runic(s: Seq<RunicUtxo>, seq_no: u32) -> Seq<TxInV> {
    Seq::new(
        s.len(),
        |i: int|
            TxInV {
                previous_output: crate::transaction::outpoint_view(s[i].utxo.outpoint),
                script_sig: Seq::empty(),
                sequence: seq_no,
                witness: Seq::empty(),
            },
    )
}

pub fn inputs_for_runic(utxos: &Vec<RunicUtxo>, seq_no: u32) -> (r: Vec<crate::transaction::TxIn>)
    ensures
        r@.len() == utxos@.len(),
        forall|i: int| 0 <= i < r@.len() ==> #[trigger] r@[i]@ == inputs_from_runic(
            utxos@,
            seq_no,
        )[i],
{
    let mut r: Vec<crate::transaction::TxIn> = Vec::new();
    let mut i: usize = 0;
    while i < utxos.len()
        invariant
            i <= utxos@.len(),
            r@.len() == i,
            forall|k: int| 0 <= k < i ==> #[trigger] r@[k]@ == inputs_from_runic(
                utxos@,
                seq_no,
            )[k],
        decreases utxos@.len() - i,
    {
        let txin = crate::transaction::TxIn {
            previous_output: crate::types::Outpoint {
                txid: clone_bytes(&utxos[i].utxo.outpoint.txid),
                vout: utxos[i].utxo.outpoint.vout,
            },
            script_sig: Vec::new(),
            sequence: seq_no,
            witness: Vec::new(),
        };
        proof {
            assert(txin@ =~~= inputs_from_runic(utxos@, seq_no)[i as int]);
        }
        r.push(txin);
        i += 1;
    }
    r
}

/// Whether a rune transfer needs an explicit change directive: more than one
/// rune input was consumed, or the consumed balance exceeds the target.
pub open spec fn needs_rune_change(runic: Seq<RunicUtxo>, amount: u128) -> bool {
    runic.len() > 1 || sum_balance(runic) > amount
}

/// The outputs of a rune transfer: with change, the data-carrier directive,
/// the sender's postage output and the receiver's postage output; without,
/// the receiver's postage output alone. A bitcoin change output back to the
/// fee payer follows exactly when the remainder is at or above the dust
/// threshold.
pub open spec fn rune_transfer_outputs(
    need_change: bool,
    directive: Seq<u8>,
    sender_spk: Seq<u8>,
    receiver_spk: Seq<u8>,
    postage: u64,
    remaining: u64,
    fee_payer_spk: Seq<u8>,
) -> Seq<TxOutV> {
    let base = if need_change {
        seq![
            TxOutV { value: 0, script_pubkey: directive },
            TxOutV { value: postage, script_pubkey: sender_spk },
            TxOutV { value: postage, script_pubkey: receiver_spk },
        ]
    } else {
        seq![TxOutV { value: postage, script_pubkey: receiver_spk }]
    };
    if remaining >= crate::DUST_THRESHOLD {
        base.push(TxOutV { value: remaining, script_pubkey: fee_payer_spk })
    } else {
        base
    }
}

/// Shapes one candidate rune transfer at an assumed fee: selects the sender's
/// rune outputs smallest-balance-first past the target, then the fee payer's
/// bitcoin outputs to cover the fee and whatever postage the rune inputs do
/// not already carry. Every error path restores both pools in full.
pub fn build_transaction_with_fee(
    pool: &mut UtxoManager,
    runeid: RuneId,
    rune_amount: u128,
    rune_sender: &Address,
    rune_receiver: &Address,
    fee_payer: &Address,
    postage: u64,
    fee: u64,
) -> (r: Result<(Transaction, Vec<RunicUtxo>, Vec<Utxo>), BuildError>)
    requires
        old(pool).wf(),
        rune_sender.script_pubkey@.len() <= 0x10000,
        rune_receiver.script_pubkey@.len() <= 0x10000,
        fee_payer.script_pubkey@.len() <= 0x10000,
    ensures
        final(pool).wf(),
        final(pool).runic_frame(*old(pool), rune_sender.text@, runeid),
        final(pool).btc_frame(*old(pool), fee_payer.text@),
        match r {
            Ok((txn, runic_utxos, fee_utxos)) => {
                let runic_orig = old(pool).runic_utxos(rune_sender.text@, runeid);
                let fee_orig = old(pool).btc_utxos(fee_payer.text@);
                let rc = crate::types::smallest_balance_first(runic_orig, 0, rune_amount as int);
                let runic_total = sum_balance(runic_utxos@);
                let carried = sum_runic_value(runic_utxos@);
                let need_change = needs_rune_change(runic_utxos@, rune_amount);
                let postage_due = (if need_change {
                    2 * postage
                } else {
                    postage as int
                }) - carried;
                let required = fee + postage_due;
                let fee_total = sum_value(fee_utxos@);
                let remaining = fee_total - required;
                &&& rc.reached
                &&& runic_utxos@ == rc.taken
                &&& final(pool).runic_utxos(rune_sender.text@, runeid) == rc.rest
                &&& ({
                    let fc = crate::types::smallest_first(fee_orig, 0, required, false);
                    fc.reached && fee_utxos@ == fc.taken && final(pool).btc_utxos(fee_payer.text@)
                        == fc.rest
                })
                &&& runic_total >= rune_amount
                &&& postage_due >= 0
                &&& fee_total >= required
                &&& txn@.version == 2
                &&& txn@.lock_time == 0
                &&& txn@.input == inputs_from_runic(runic_utxos@, SEQUENCE_MAX)
                    + inputs_from_utxos(fee_utxos@, SEQUENCE_MAX)
                &&& txn@.output == rune_transfer_outputs(
                    need_change,
                    runestone_payload(transfer_runestone(runeid, rune_amount)),
                    rune_sender.script_pubkey@,
                    rune_receiver.script_pubkey@,
                    postage,
                    remaining as u64,
                    fee_payer.script_pubkey@,
                )
                &&& outputs_non_dust(txn@.output)
                &&& tx_txids_wf(txn@)
                &&& unique_outpoints_runic(runic_utxos@)
                &&& unique_outpoints(fee_utxos@)
                &&& forall|i: int|
                    0 <= i < runic_utxos@.len() ==> !crate::types::has_outpoint_runic(
                        final(pool).runic_utxos(rune_sender.text@, runeid),
                        #[trigger] runic_utxos@[i].utxo.outpoint,
                    )
                &&& forall|i: int|
                    0 <= i < fee_utxos@.len() ==> !crate::types::has_outpoint(
                        final(pool).btc_utxos(fee_payer.text@),
                        #[trigger] fee_utxos@[i].outpoint,
                    )
                &&& final(pool).runic_utxos(rune_sender.text@, runeid).to_multiset().add(
                    runic_utxos@.to_multiset(),
                ) == runic_orig.to_multiset()
                &&& sum_balance(final(pool).runic_utxos(rune_sender.text@, runeid)) == sum_balance(
                    runic_orig,
                ) - runic_total
                &&& final(pool).btc_utxos(fee_payer.text@).to_multiset().add(
                    fee_utxos@.to_multiset(),
                ) == fee_orig.to_multiset()
                &&& sum_value(final(pool).btc_utxos(fee_payer.text@)) == sum_value(fee_orig)
                    - fee_total
            },
            Err(e) => {
                let runic_orig = old(pool).runic_utxos(rune_sender.text@, runeid);
                let fee_orig = old(pool).btc_utxos(fee_payer.text@);
                &&& final(pool).runic_utxos(rune_sender.text@, runeid).to_multiset()
                    == runic_orig.to_multiset()
                &&& sum_balance(final(pool).runic_utxos(rune_sender.text@, runeid)) == sum_balance(
                    runic_orig,
                )
                &&& final(pool).btc_utxos(fee_payer.text@).to_multiset() == fee_orig.to_multiset()
                &&& sum_value(final(pool).btc_utxos(fee_payer.text@)) == sum_value(fee_orig)
                &&& ({
                    let rc = crate::types::smallest_balance_first(
                        runic_orig,
                        0,
                        rune_amount as int,
                    );
                    let postage_due = (if needs_rune_change(rc.taken, rune_amount) {
                        2 * postage
                    } else {
                        postage as int
                    }) - sum_runic_value(rc.taken);
                    match e {
                        BuildError::InsufficientRune { rune_required, fee_required } =>
                            rune_required == rune_amount && fee_required == fee && sum_balance(
                            runic_orig,
                        ) < rune_amount && !rc.reached,
                        BuildError::InsufficientBitcoin { required } => sum_value(fee_orig)
                            < required && required as int == fee + postage_due
                            && !crate::types::smallest_first(
                            fee_orig,
                            0,
                            required as int,
                            false,
                        ).reached,
                        BuildError::Dust { output_value, minimum } => rune_dust_case(
                            runic_orig,
                            fee_orig,
                            fee as int,
                            postage,
                            rune_amount,
                            rune_sender.script_pubkey@,
                            rune_receiver.script_pubkey@,
                            fee_payer.script_pubkey@,
                            output_value,
                            minimum,
                        ),
                        BuildError::ArithmeticOverflow => {
                            ||| sum_runic_value(runic_orig) > u64::MAX
                            ||| (needs_rune_change(rc.taken, rune_amount) && 2 * postage
                                > u64::MAX)
                            ||| postage_due < 0
                            ||| fee + postage_due > u64::MAX
                        },
                        BuildError::MalformedUtxo => (exists|i: int|
                            0 <= i < runic_orig.len() && runic_orig[i].utxo.outpoint.txid@.len()
                                != 32) || (exists|i: int|
                            0 <= i < fee_orig.len() && fee_orig[i].outpoint.txid@.len() != 32),
                        _ => false,
                    }
                })
            },
        },
{
    // The receiver's (and possibly the sender's) postage output must clear
    // the dust floor; this is checked before any pool mutation.
    let md_receiver = minimal_non_dust(&rune_receiver.script_pubkey);
    if postage < md_receiver && !crate::script::is_op_return_exec(&rune_receiver.script_pubkey) {
        return Err(BuildError::Dust { output_value: postage, minimum: md_receiver });
    }
    let md_sender = minimal_non_dust(&rune_sender.script_pubkey);
    if postage < md_sender && !crate::script::is_op_return_exec(&rune_sender.script_pubkey) {
        return Err(BuildError::Dust { output_value: postage, minimum: md_sender });
    }
    let (runic_utxos, runic_total, carried) = match select_runic(
        pool,
        &rune_sender.text,
        runeid,
        rune_amount,
    ) {
        Ok(v) => v,
        Err(SelectError::Insufficient) => {
            return Err(BuildError::InsufficientRune {
                rune_required: rune_amount,
                fee_required: fee,
            });
        },
        Err(SelectError::MalformedUtxo) => {
            return Err(BuildError::MalformedUtxo);
        },
        Err(SelectError::ValueOverflow) => {
            return Err(BuildError::ArithmeticOverflow);
        },
    };
    let ghost after_runic = *pool;
    let need_change = runic_utxos.len() > 1 || runic_total > rune_amount;
    let postage_total: u64 = if need_change {
        match postage.checked_mul(2) {
            Some(v) => v,
            None => {
                proof {
                    lemma_pool_rune_entry_wf(after_runic, rune_sender.text@, runeid);
                    lemma_pool_rune_entry_wf(*old(pool), rune_sender.text@, runeid);
                }
                restore_runic(
                    pool,
                    &rune_sender.text,
                    runeid,
                    runic_utxos,
                    Ghost(old(pool).runic_utxos(rune_sender.text@, runeid)),
                );
                return Err(BuildError::ArithmeticOverflow);
            },
        }
    } else {
        postage
    };
    let postage_due: u64 = match postage_total.checked_sub(carried) {
        Some(v) => v,
        None => {
            proof {
                lemma_pool_rune_entry_wf(*old(pool), rune_sender.text@, runeid);
            }
            restore_runic(
                pool,
                &rune_sender.text,
                runeid,
                runic_utxos,
                Ghost(old(pool).runic_utxos(rune_sender.text@, runeid)),
            );
            return Err(BuildError::ArithmeticOverflow);
        },
    };
    let required: u64 = match fee.checked_add(postage_due) {
        Some(v) => v,
        None => {
            proof {
                lemma_pool_rune_entry_wf(*old(pool), rune_sender.text@, runeid);
            }
            restore_runic(
                pool,
                &rune_sender.text,
                runeid,
                runic_utxos,
                Ghost(old(pool).runic_utxos(rune_sender.text@, runeid)),
            );
            return Err(BuildError::ArithmeticOverflow);
        },
    };
    let (fee_utxos, fee_total) = match select_bitcoin(pool, &fee_payer.text, required, false) {
        Ok(v) => v,
        Err(e) => {
            let out = match e {
                SelectError::Insufficient => BuildError::InsufficientBitcoin { required },
                SelectError::MalformedUtxo => BuildError::MalformedUtxo,
                SelectError::ValueOverflow => BuildError::MalformedUtxo,
            };
            proof {
                lemma_pool_rune_entry_wf(*old(pool), rune_sender.text@, runeid);
            }
            restore_runic(
                pool,
                &rune_sender.text,
                runeid,
                runic_utxos,
                Ghost(old(pool).runic_utxos(rune_sender.text@, runeid)),
            );
            return Err(out);
        },
    };
    let ghost after_fee = *pool;
    let remaining = fee_total - required;
    if remaining >= crate::DUST_THRESHOLD {
        let md_payer = minimal_non_dust(&fee_payer.script_pubkey);
        if remaining < md_payer && !crate::script::is_op_return_exec(&fee_payer.script_pubkey) {
            proof {
                lemma_pool_entry_wf(after_runic, fee_payer.text@);
                crate::types::lemma_sum_value_bounds(fee_utxos@);
            }
            restore_bitcoin(
                pool,
                &fee_payer.text,
                fee_utxos,
                Ghost(after_runic.btc_utxos(fee_payer.text@)),
            );
            proof {
                lemma_pool_rune_entry_wf(*old(pool), rune_sender.text@, runeid);
                crate::types::lemma_sum_balance_bounds(runic_utxos@);
            }
            restore_runic(
                pool,
                &rune_sender.text,
                runeid,
                runic_utxos,
                Ghost(old(pool).runic_utxos(rune_sender.text@, runeid)),
            );
            return Err(BuildError::Dust { output_value: remaining, minimum: md_payer });
        }
    }
    let mut input = inputs_for_runic(&runic_utxos, SEQUENCE_MAX);
    let mut fee_input = inputs_for(&fee_utxos, SEQUENCE_MAX);
    let ghost runic_inputs = input@;
    input.append(&mut fee_input);
    let mut output: Vec<TxOut> = Vec::new();
    let directive = RunestoneData {
        edicts: vec![Edict { block: runeid.block, tx: runeid.tx, amount: rune_amount, output: 2 }],
        etching: None,
        mint: None,
        pointer: None,
    };
    proof {
        assert(directive@ =~~= transfer_runestone(runeid, rune_amount));
    }
    if need_change {
        let script = encipher_runestone(&directive);
        output.push(TxOut { value: 0, script_pubkey: script });
        output.push(
            TxOut { value: postage, script_pubkey: clone_bytes(&rune_sender.script_pubkey) },
        );
        output.push(
            TxOut { value: postage, script_pubkey: clone_bytes(&rune_receiver.script_pubkey) },
        );
    } else {
        output.push(
            TxOut { value: postage, script_pubkey: clone_bytes(&rune_receiver.script_pubkey) },
        );
    }
    if remaining >= crate::DUST_THRESHOLD {
        output.push(
            TxOut { value: remaining, script_pubkey: clone_bytes(&fee_payer.script_pubkey) },
        );
    }
    let txn = Transaction { version: 2, lock_time: 0, input, output };
    proof {
        assert(txn@.input =~~= inputs_from_runic(runic_utxos@, SEQUENCE_MAX) + inputs_from_utxos(
            fee_utxos@,
            SEQUENCE_MAX,
        ));
        assert(txn@.output =~~= rune_transfer_outputs(
            need_change,
            runestone_payload(transfer_runestone(runeid, rune_amount)),
            rune_sender.script_pubkey@,
            rune_receiver.script_pubkey@,
            postage,
            remaining,
            fee_payer.script_pubkey@,
        ));
        assert(tx_txids_wf(txn@));
        assert(outputs_non_dust(txn@.output));
    }
    Ok((txn, runic_utxos, fee_utxos))
}

/// Everything round arithmetic of a rune transfer depends on.
#[verifier::ext_equal]
pub struct RuneQuery {
    pub runic_pool: Seq<RunicUtxo>,
    pub fee_pool: Seq<Utxo>,
    pub rune_sender_spk: Seq<u8>,
    pub rune_receiver_spk: Seq<u8>,
    pub fee_payer_spk: Seq<u8>,
    pub mock_key: Seq<u8>,
    pub runeid: RuneId,
    pub rune_amount: u128,
    pub postage: u64,
    pub fee_per_vbytes: u64,
}

/// The candidate rune transfer shaped at an assumed fee over the two pool
/// orders.
pub open spec fn rune_candidate(q: RuneQuery, rp: Seq<RunicUtxo>, fp: Seq<Utxo>, fee: int)
    -> TransactionV {
    let rc = crate::types::smallest_balance_first(rp, 0, q.rune_amount as int);
    let need_change = needs_rune_change(rc.taken, q.rune_amount);
    let postage_due = (if need_change {
        2 * q.postage
    } else {
        q.postage as int
    }) - sum_runic_value(rc.taken);
    let required = fee + postage_due;
    let fc = crate::types::smallest_first(fp, 0, required, false);
    TransactionV {
        version: 2,
        lock_time: 0,
        input: inputs_from_runic(rc.taken, SEQUENCE_MAX) + inputs_from_utxos(
            fc.taken,
            SEQUENCE_MAX,
        ),
        output: rune_transfer_outputs(
            need_change,
            runestone_payload(transfer_runestone(q.runeid, q.rune_amount)),
            q.rune_sender_spk,
            q.rune_receiver_spk,
            q.postage,
            (sum_value(fc.taken) - required) as u64,
            q.fee_payer_spk,
        ),
    }
}

/// The fee search after `k` rounds: both pool orders as restoration leaves
/// them, and the next assumed fee.
pub open spec fn rune_round(q: RuneQuery, k: nat) -> (Seq<RunicUtxo>, Seq<Utxo>, int)
    decreases k,
{
    if k == 0 {
        (q.runic_pool, q.fee_pool, 0)
    } else {
        let (rp, fp, f) = rune_round(q, (k - 1) as nat);
        let rc = crate::types::smallest_balance_first(rp, 0, q.rune_amount as int);
        let need_change = needs_rune_change(rc.taken, q.rune_amount);
        let postage_due = (if need_change {
            2 * q.postage
        } else {
            q.postage as int
        }) - sum_runic_value(rc.taken);
        let fc = crate::types::smallest_first(fp, 0, f + postage_due, false);
        let f2 = fee_for(
            tx_vsize(mock_signed_view(rune_candidate(q, rp, fp, f), q.mock_key)),
            q.fee_per_vbytes,
        );
        (rc.rest + rc.taken, fc.rest + fc.taken, f2)
    }
}

pub open spec fn rune_round_fee(q: RuneQuery, k: nat) -> int {
    rune_round(q, k).2
}

/// The search has its fixed point at round `k`.
pub open spec fn rune_converges_at(q: RuneQuery, k: int) -> bool {
    0 <= k && rune_round_fee(q, (k + 1) as nat) == rune_round_fee(q, k as nat)
}

/// Round `k`'s fee leg cannot be funded at the reported requirement.
pub open spec fn rune_round_fee_insufficient(q: RuneQuery, k: int, required: u64) -> bool {
    let (rp, fp, f) = rune_round(q, k as nat);
    let rc = crate::types::smallest_balance_first(rp, 0, q.rune_amount as int);
    let postage_due = (if needs_rune_change(rc.taken, q.rune_amount) {
        2 * q.postage
    } else {
        q.postage as int
    }) - sum_runic_value(rc.taken);
    &&& 0 <= k
    &&& required as int == f + postage_due
    &&& !crate::types::smallest_first(fp, 0, required as int, false).reached
}

/// One of a rune transfer's dust failures: a postage output below the
/// receiver's or the sender's script floor, or a fee-change output that
/// cleared the dust threshold but not the fee payer script's floor.
pub open spec fn rune_dust_case(
    rp: Seq<RunicUtxo>,
    fp: Seq<Utxo>,
    fee: int,
    postage: u64,
    rune_amount: u128,
    rune_sender_spk: Seq<u8>,
    rune_receiver_spk: Seq<u8>,
    fee_payer_spk: Seq<u8>,
    output_value: u64,
    minimum: u64,
) -> bool {
    let rc = crate::types::smallest_balance_first(rp, 0, rune_amount as int);
    let postage_due = (if needs_rune_change(rc.taken, rune_amount) {
        2 * postage
    } else {
        postage as int
    }) - sum_runic_value(rc.taken);
    let fc = crate::types::smallest_first(fp, 0, fee + postage_due, false);
    ||| (output_value == postage && minimum as nat == min_non_dust_of(rune_receiver_spk)
        && !crate::script::is_op_return(rune_receiver_spk) && output_value < minimum)
    ||| (output_value == postage && minimum as nat == min_non_dust_of(rune_sender_spk)
        && !crate::script::is_op_return(rune_sender_spk) && output_value < minimum)
    ||| (rc.reached && postage_due >= 0 && fc.reached && output_value as int == sum_value(fc.taken)
        - (fee + postage_due) && minimum as nat == min_non_dust_of(fee_payer_spk)
        && !crate::script::is_op_return(fee_payer_spk) && output_value >= crate::DUST_THRESHOLD
        && output_value < minimum)
}

/// Round `k` failed one of the dust checks at the reported values.
pub open spec fn rune_round_dust(q: RuneQuery, k: int, output_value: u64, minimum: u64) -> bool {
    &&& 0 <= k
    &&& rune_dust_case(
        rune_round(q, k as nat).0,
        rune_round(q, k as nat).1,
        rune_round(q, k as nat).2,
        q.postage,
        q.rune_amount,
        q.rune_sender_spk,
        q.rune_receiver_spk,
        q.fee_payer_spk,
        output_value,
        minimum,
    )
}

/// The fee reported for a failed round is round `k`'s assumed fee.
pub open spec fn rune_round_fee_is(q: RuneQuery, k: int, f: u64) -> bool {
    0 <= k && f as int == rune_round_fee(q, k as nat)
}

/// Round `k` hits a 64-bit limit somewhere in its arithmetic.
pub open spec fn rune_round_overflows(q: RuneQuery, k: int) -> bool {
    let (rp, fp, f) = rune_round(q, k as nat);
    let rc = crate::types::smallest_balance_first(rp, 0, q.rune_amount as int);
    let postage_due = (if needs_rune_change(rc.taken, q.rune_amount) {
        2 * q.postage
    } else {
        q.postage as int
    }) - sum_runic_value(rc.taken);
    ||| sum_runic_value(rp) > u64::MAX
    ||| (needs_rune_change(rc.taken, q.rune_amount) && 2 * q.postage > u64::MAX)
    ||| postage_due < 0
    ||| f + postage_due > u64::MAX
    ||| (0 <= k && tx_vsize(mock_signed_view(rune_candidate(q, rp, fp, f), q.mock_key))
        * q.fee_per_vbytes > u64::MAX)
}

pub open spec fn rune_query_of(
    runic_pool: Seq<RunicUtxo>,
    fee_pool: Seq<Utxo>,
    args: RuneTransferArgs,
    mock_key: Seq<u8>,
) -> RuneQuery {
    RuneQuery {
        runic_pool,
        fee_pool,
        rune_sender_spk: args.rune_sender.script_pubkey@,
        rune_receiver_spk: args.rune_receiver.script_pubkey@,
        fee_payer_spk: args.fee_payer.script_pubkey@,
        mock_key,
        runeid: args.runeid,
        rune_amount: args.rune_amount,
        postage: (match args.postage {
            Some(p) => p,
            None => crate::DEFAULT_POSTAGE,
        }),
        fee_per_vbytes: args.fee_per_vbytes,
    }
}

/// Arguments of a rune transfer.
pub struct RuneTransferArgs {
    pub runeid: RuneId,
    pub rune_amount: u128,
    pub rune_sender: Address,
    pub rune_receiver: Address,
    pub rune_sender_account: Account,
    pub fee_payer: Address,
    pub fee_payer_account: Account,
    pub postage: Option<u64>,
    pub fee_per_vbytes: u64,
}

/// Assembles a rune transfer whose real fee — recomputed from the virtual
/// size of a placeholder-signed clone — equals the fee assumed when its
/// inputs were selected. Every failure restores both pools.
pub fn transfer(pool: &mut UtxoManager, args: RuneTransferArgs, mock_public_key: Vec<u8>) -> (r:
    Result<TransactionType, BuildError>)
    requires
        old(pool).wf(),
        args.rune_sender.script_pubkey@.len() <= 0x10000,
        args.rune_receiver.script_pubkey@.len() <= 0x10000,
        args.fee_payer.script_pubkey@.len() <= 0x10000,
        mock_public_key@.len() < 0x10000,
    ensures
        final(pool).wf(),
        final(pool).runic_frame(*old(pool), args.rune_sender.text@, args.runeid),
        final(pool).btc_frame(*old(pool), args.fee_payer.text@),
        match r {
            Ok(t) => t matches TransactionType::Rune {
                runic_utxos,
                runeid,
                rune_amount,
                fee_utxos,
                fee,
                postage,
                txn,
                ..
            } && {
                let runic_orig = old(pool).runic_utxos(args.rune_sender.text@, args.runeid);
                let fee_orig = old(pool).btc_utxos(args.fee_payer.text@);
                let need_change = needs_rune_change(runic_utxos@, rune_amount);
                let carried = sum_runic_value(runic_utxos@);
                let postage_due = (if need_change {
                    2 * postage
                } else {
                    postage as int
                }) - carried;
                let required = fee + postage_due;
                let fee_total = sum_value(fee_utxos@);
                let remaining = fee_total - required;
                &&& runeid == args.runeid
                &&& rune_amount == args.rune_amount
                &&& postage as int == (match args.postage {
                    Some(p) => p as int,
                    None => crate::DEFAULT_POSTAGE as int,
                })
                &&& fee as int == real_fee_of(txn@, mock_public_key@, args.fee_per_vbytes)
                &&& sum_balance(runic_utxos@) >= rune_amount
                &&& fee_total >= required
                &&& postage_due >= 0
                &&& txn@.input == inputs_from_runic(runic_utxos@, SEQUENCE_MAX)
                    + inputs_from_utxos(fee_utxos@, SEQUENCE_MAX)
                &&& txn@.output == rune_transfer_outputs(
                    need_change,
                    runestone_payload(transfer_runestone(args.runeid, args.rune_amount)),
                    args.rune_sender.script_pubkey@,
                    args.rune_receiver.script_pubkey@,
                    postage,
                    remaining as u64,
                    args.fee_payer.script_pubkey@,
                )
                &&& outputs_non_dust(txn@.output)
                &&& tx_txids_wf(txn@)
                &&& final(pool).runic_utxos(args.rune_sender.text@, args.runeid).to_multiset().add(
                    runic_utxos@.to_multiset(),
                ) == runic_orig.to_multiset()
                &&& final(pool).btc_utxos(args.fee_payer.text@).to_multiset().add(
                    fee_utxos@.to_multiset(),
                ) == fee_orig.to_multiset()
                &&& sum_balance(final(pool).runic_utxos(args.rune_sender.text@, args.runeid))
                    == sum_balance(runic_orig) - sum_balance(runic_utxos@)
                &&& sum_value(final(pool).btc_utxos(args.fee_payer.text@)) == sum_value(fee_orig)
                    - fee_total
                &&& ({
                    let q = rune_query_of(runic_orig, fee_orig, args, mock_public_key@);
                    exists|k: int|
                        0 <= k < crate::transaction::MAX_FEE_ROUNDS
                            && #[trigger] rune_converges_at(q, k) && txn@ == rune_candidate(
                            q,
                            rune_round(q, k as nat).0,
                            rune_round(q, k as nat).1,
                            rune_round(q, k as nat).2,
                        )
                })
            },
            Err(e) => {
                let runic_orig = old(pool).runic_utxos(args.rune_sender.text@, args.runeid);
                let fee_orig = old(pool).btc_utxos(args.fee_payer.text@);
                let q = rune_query_of(runic_orig, fee_orig, args, mock_public_key@);
                &&& final(pool).runic_utxos(args.rune_sender.text@, args.runeid).to_multiset()
                    == runic_orig.to_multiset()
                &&& sum_balance(final(pool).runic_utxos(args.rune_sender.text@, args.runeid))
                    == sum_balance(runic_orig)
                &&& final(pool).btc_utxos(args.fee_payer.text@).to_multiset()
                    == fee_orig.to_multiset()
                &&& sum_value(final(pool).btc_utxos(args.fee_payer.text@)) == sum_value(fee_orig)
                &&& match e {
                    BuildError::InsufficientRune { rune_required, fee_required } => rune_required
                        == args.rune_amount && sum_balance(runic_orig) < args.rune_amount
                        && exists|k: int|
                        k < crate::transaction::MAX_FEE_ROUNDS && #[trigger] rune_round_fee_is(
                            q,
                            k,
                            fee_required,
                        ),
                    BuildError::InsufficientBitcoin { required } => sum_value(fee_orig) < required
                        && exists|k: int|
                        k < crate::transaction::MAX_FEE_ROUNDS
                            && #[trigger] rune_round_fee_insufficient(q, k, required),
                    BuildError::Dust { output_value, minimum } => exists|k: int|
                        k < crate::transaction::MAX_FEE_ROUNDS && #[trigger] rune_round_dust(
                            q,
                            k,
                            output_value,
                            minimum,
                        ),
                    BuildError::ArithmeticOverflow => exists|k: int|
                        0 <= k < crate::transaction::MAX_FEE_ROUNDS
                            && #[trigger] rune_round_overflows(q, k),
                    BuildError::MalformedUtxo => (exists|i: int|
                        0 <= i < runic_orig.len() && runic_orig[i].utxo.outpoint.txid@.len()
                            != 32) || (exists|i: int|
                        0 <= i < fee_orig.len() && fee_orig[i].outpoint.txid@.len() != 32),
                    BuildError::FeeDidNotConverge => forall|k: int|
                        0 <= k < crate::transaction::MAX_FEE_ROUNDS ==> !(
                        #[trigger] rune_converges_at(q, k)),
                    _ => false,
                }
            },
        },
{
    let postage = match args.postage {
        Some(p) => p,
        None => crate::DEFAULT_POSTAGE,
    };
    let ghost runic_orig = old(pool).runic_utxos(args.rune_sender.text@, args.runeid);
    let ghost fee_orig = old(pool).btc_utxos(args.fee_payer.text@);
    let ghost q = rune_query_of(runic_orig, fee_orig, args, mock_public_key@);
    let mut total_fee: u64 = 0;
    let mut round: u32 = 0;
    while round < crate::transaction::MAX_FEE_ROUNDS
        invariant
            pool.wf(),
            q == rune_query_of(runic_orig, fee_orig, args, mock_public_key@),
            q.postage == postage,
            rune_round(q, round as nat).0 == pool.runic_utxos(args.rune_sender.text@, args.runeid),
            rune_round(q, round as nat).1 == pool.btc_utxos(args.fee_payer.text@),
            rune_round(q, round as nat).2 == total_fee as int,
            forall|j: int| 0 <= j < round ==> !(#[trigger] rune_converges_at(q, j)),
            args.rune_sender.script_pubkey@.len() <= 0x10000,
            args.rune_receiver.script_pubkey@.len() <= 0x10000,
            args.fee_payer.script_pubkey@.len() <= 0x10000,
            mock_public_key@.len() < 0x10000,
            postage as int == (match args.postage {
                Some(p) => p as int,
                None => crate::DEFAULT_POSTAGE as int,
            }),
            runic_orig == old(pool).runic_utxos(args.rune_sender.text@, args.runeid),
            fee_orig == old(pool).btc_utxos(args.fee_payer.text@),
            pool.runic_utxos(args.rune_sender.text@, args.runeid).to_multiset()
                == runic_orig.to_multiset(),
            sum_balance(pool.runic_utxos(args.rune_sender.text@, args.runeid)) == sum_balance(
                runic_orig,
            ),
            pool.btc_utxos(args.fee_payer.text@).to_multiset() == fee_orig.to_multiset(),
            sum_value(pool.btc_utxos(args.fee_payer.text@)) == sum_value(fee_orig),
            pool.runic_frame(*old(pool), args.rune_sender.text@, args.runeid),
            pool.btc_frame(*old(pool), args.fee_payer.text@),
        decreases crate::transaction::MAX_FEE_ROUNDS - round,
    {
        let ghost round_pool = *pool;
        let ghost rp = rune_round(q, round as nat).0;
        let ghost fp = rune_round(q, round as nat).1;
        let ghost fk = rune_round(q, round as nat).2;
        let ghost rc = crate::types::smallest_balance_first(rp, 0, q.rune_amount as int);
        let ghost postage_due_k = (if needs_rune_change(rc.taken, q.rune_amount) {
            2 * q.postage
        } else {
            q.postage as int
        }) - sum_runic_value(rc.taken);
        let ghost fc = crate::types::smallest_first(fp, 0, fk + postage_due_k, false);
        match build_transaction_with_fee(
            pool,
            args.runeid,
            args.rune_amount,
            &args.rune_sender,
            &args.rune_receiver,
            &args.fee_payer,
            postage,
            total_fee,
        ) {
            Err(e) => {
                proof {
                    if e is MalformedUtxo {
                        let rpool = round_pool.runic_utxos(args.rune_sender.text@, args.runeid);
                        let bpool = round_pool.btc_utxos(args.fee_payer.text@);
                        if exists|i: int|
                            0 <= i < rpool.len() && rpool[i].utxo.outpoint.txid@.len() != 32 {
                            crate::types::lemma_ms_preserves_bad_txid_runic(rpool, runic_orig);
                        } else {
                            crate::types::lemma_ms_preserves_bad_txid(bpool, fee_orig);
                        }
                    }
                    if e is InsufficientRune {
                        assert(rune_round_fee_is(
                            q,
                            round as int,
                            e->InsufficientRune_fee_required,
                        ));
                    }
                    if e is InsufficientBitcoin {
                        assert(rune_round_fee_insufficient(
                            q,
                            round as int,
                            e->InsufficientBitcoin_required,
                        ));
                    }
                    if e is Dust {
                        assert(rune_round_dust(
                            q,
                            round as int,
                            e->Dust_output_value,
                            e->Dust_minimum,
                        ));
                    }
                    if e is ArithmeticOverflow {
                        assert(rune_round_overflows(q, round as int));
                    }
                }
                return Err(e);
            },
            Ok((txn, runic_utxos, fee_utxos)) => {
                proof {
                    assert(txn@ =~~= rune_candidate(q, rp, fp, fk));
                }
                let mock = mock_ecdsa_signature(&txn, &mock_public_key);
                let vsize = transaction_vsize(&mock);
                proof {
                    assert(mock@ == mock_signed_view(rune_candidate(q, rp, fp, fk), q.mock_key));
                    assert(rune_round(q, (round + 1) as nat).2 == fee_for(
                        tx_vsize(mock@),
                        args.fee_per_vbytes,
                    ));
                    assert(rune_round(q, (round + 1) as nat).0 == rc.rest + rc.taken);
                    assert(rune_round(q, (round + 1) as nat).1 == fc.rest + fc.taken);
                }
                let real_fee = match vsize.checked_mul(args.fee_per_vbytes) {
                    None => {
                        proof {
                            assert(rune_round_overflows(q, round as int));
                        }
                        restore_rune_build(
                            pool,
                            &args.rune_sender.text,
                            args.runeid,
                            runic_utxos,
                            &args.fee_payer.text,
                            fee_utxos,
                            Ghost(round_pool),
                            Ghost(runic_orig),
                            Ghost(fee_orig),
                        );
                        return Err(BuildError::ArithmeticOverflow);
                    },
                    Some(p) => p / 1000,
                };
                proof {
                    assert(real_fee as int == rune_round(q, (round + 1) as nat).2);
                }
                if real_fee == total_fee {
                    proof {
                        assert(mock@ == crate::transaction::mock_signed_view(
                            txn@,
                            mock_public_key@,
                        ));
                        assert(real_fee_of(txn@, mock_public_key@, args.fee_per_vbytes)
                            == total_fee as int);
                        assert(rune_converges_at(q, round as int));
                    }
                    return Ok(TransactionType::Rune {
                        runic_utxos,
                        runeid: args.runeid,
                        rune_amount: args.rune_amount,
                        rune_sender: args.rune_sender,
                        rune_receiver: args.rune_receiver,
                        rune_sender_account: args.rune_sender_account,
                        fee_utxos,
                        fee: total_fee,
                        fee_payer: args.fee_payer,
                        fee_payer_account: args.fee_payer_account,
                        postage,
                        txn,
                    });
                }
                proof {
                    assert(!rune_converges_at(q, round as int));
                }
                restore_rune_build(
                    pool,
                    &args.rune_sender.text,
                    args.runeid,
                    runic_utxos,
                    &args.fee_payer.text,
                    fee_utxos,
                    Ghost(round_pool),
                    Ghost(runic_orig),
                    Ghost(fee_orig),
                );
                proof {
                    assert(pool.runic_utxos(args.rune_sender.text@, args.runeid) =~= rc.rest
                        + rc.taken);
                    assert(pool.btc_utxos(args.fee_payer.text@) =~= fc.rest + fc.taken);
                }
                total_fee = real_fee;
                round += 1;
            },
        }
    }
    Err(BuildError::FeeDidNotConverge)
}

/// Restores both pools after a sizing round that did not converge.
#[verifier::spinoff_prover]
fn restore_rune_build(
    pool: &mut UtxoManager,
    rune_addr: &String,
    runeid: RuneId,
    runic_utxos: Vec<RunicUtxo>,
    fee_addr: &String,
    fee_utxos: Vec<Utxo>,
    Ghost(round_pool): Ghost<UtxoManager>,
    Ghost(runic_orig): Ghost<Seq<RunicUtxo>>,
    Ghost(fee_orig): Ghost<Seq<Utxo>>,
)
    requires
        old(pool).wf(),
        round_pool.wf(),
        unique_outpoints_runic(runic_utxos@),
        unique_outpoints(fee_utxos@),
        round_pool.runic_utxos(rune_addr@, runeid).to_multiset() == runic_orig.to_multiset(),
        sum_balance(round_pool.runic_utxos(rune_addr@, runeid)) == sum_balance(runic_orig),
        round_pool.btc_utxos(fee_addr@).to_multiset() == fee_orig.to_multiset(),
        sum_value(round_pool.btc_utxos(fee_addr@)) == sum_value(fee_orig),
        old(pool).runic_utxos(rune_addr@, runeid).to_multiset().add(runic_utxos@.to_multiset())
            == runic_orig.to_multiset(),
        sum_balance(old(pool).runic_utxos(rune_addr@, runeid)) == sum_balance(runic_orig)
            - sum_balance(runic_utxos@),
        old(pool).btc_utxos(fee_addr@).to_multiset().add(fee_utxos@.to_multiset())
            == fee_orig.to_multiset(),
        sum_value(old(pool).btc_utxos(fee_addr@)) == sum_value(fee_orig) - sum_value(fee_utxos@),
        forall|i: int|
            0 <= i < runic_utxos@.len() ==> !crate::types::has_outpoint_runic(
                old(pool).runic_utxos(rune_addr@, runeid),
                #[trigger] runic_utxos@[i].utxo.outpoint,
            ),
        forall|i: int|
            0 <= i < fee_utxos@.len() ==> !crate::types::has_outpoint(
                old(pool).btc_utxos(fee_addr@),
                #[trigger] fee_utxos@[i].outpoint,
            ),
    ensures
        final(pool).wf(),
        final(pool).runic_frame(*old(pool), rune_addr@, runeid),
        final(pool).btc_frame(*old(pool), fee_addr@),
        final(pool).runic_utxos(rune_addr@, runeid) == old(pool).runic_utxos(rune_addr@, runeid)
            + runic_utxos@,
        final(pool).btc_utxos(fee_addr@) == old(pool).btc_utxos(fee_addr@) + fee_utxos@,
        final(pool).runic_utxos(rune_addr@, runeid).to_multiset() == runic_orig.to_multiset(),
        sum_balance(final(pool).runic_utxos(rune_addr@, runeid)) == sum_balance(runic_orig),
        final(pool).btc_utxos(fee_addr@).to_multiset() == fee_orig.to_multiset(),
        sum_value(final(pool).btc_utxos(fee_addr@)) == sum_value(fee_orig),
{
    proof {
        lemma_pool_entry_wf(round_pool, fee_addr@);
        crate::types::lemma_sum_value_bounds(fee_utxos@);
    }
    restore_bitcoin(pool, fee_addr, fee_utxos, Ghost(fee_orig));
    proof {
        lemma_pool_rune_entry_wf(round_pool, rune_addr@, runeid);
        crate::types::lemma_sum_balance_bounds(runic_utxos@);
    }
    restore_runic(pool, rune_addr, runeid, runic_utxos, Ghost(runic_orig));
}

} // verus!
