use vstd::prelude::*;

use crate::bytes::clone_bytes;
use crate::rune_transfer::{
    inputs_for_runic, inputs_from_runic, needs_rune_change, transfer_runestone,
};
use crate::runestone::{Edict, RunestoneData, encipher_runestone, runestone_payload};
use crate::transaction::{
    BuildError, SEQUENCE_MAX, Transaction, TransactionV, TxOut, TxOutV, fee_for,
    inputs_from_utxos, inputs_for, min_non_dust_of, minimal_non_dust, mock_ecdsa_signature,
    mock_signed_view, outputs_non_dust, real_fee_of, transaction_vsize, tx_txids_wf, tx_vsize,
};
use crate::types::{
    Account, Address, RuneId, RunicUtxo, Utxo, sum_balance, sum_runic_value, sum_value,
    unique_outpoints, unique_outpoints_runic,
};
use crate::txn_handler::TransactionType;
use crate::utxo_manager::{
    SelectError, UtxoManager, lemma_pool_entry_wf, lemma_pool_rune_entry_wf, restore_bitcoin,
    restore_runic, select_bitcoin, select_runic,
};

verus! {

/// The outputs of a combined transfer: the rune part (directive and postage
/// outputs, or the receiver's postage output alone), the bitcoin receiver's
/// output, and then the change outputs the remainders justify.
pub open spec fn combined_outputs(
    need_change: bool,
    directive: Seq<u8>,
    rune_sender_spk: Seq<u8>,
    rune_receiver_spk: Seq<u8>,
    postage: u64,
    bitcoin_amount: u64,
    bitcoin_receiver_spk: Seq<u8>,
    same_payer: bool,
    btc_remaining: u64,
    fee_remaining: u64,
    bitcoin_sender_spk: Seq<u8>,
    fee_payer_spk: Seq<u8>,
) -> Seq<TxOutV> {
    let rune_part = if need_change {
        seq![
            TxOutV { value: 0, script_pubkey: directive },
            TxOutV { value: postage, script_pubkey: rune_sender_spk },
            TxOutV { value: postage, script_pubkey: rune_receiver_spk },
        ]
    } else {
        seq![TxOutV { value: postage, script_pubkey: rune_receiver_spk }]
    };
    let with_receiver = rune_part.push(
        TxOutV { value: bitcoin_amount, script_pubkey: bitcoin_receiver_spk },
    );
    if same_payer {
        if btc_remaining >= crate::DUST_THRESHOLD {
            with_receiver.push(TxOutV { value: btc_remaining, script_pubkey: bitcoin_sender_spk })
        } else {
            with_receiver
        }
    } else {
        let w1 = if btc_remaining >= crate::DUST_THRESHOLD {
            with_receiver.push(TxOutV { value: btc_remaining, script_pubkey: bitcoin_sender_spk })
        } else {
            with_receiver
        };
        if fee_remaining >= crate::DUST_THRESHOLD {
            w1.push(TxOutV { value: fee_remaining, script_pubkey: fee_payer_spk })
        } else {
            w1
        }
    }
}

/// Arguments of a combined rune-and-bitcoin transfer.
pub struct CombinedTransferArgs {
    pub runeid: RuneId,
    pub rune_amount: u128,
    pub rune_sender: Address,
    pub rune_sender_account: Account,
    pub rune_receiver: Address,
    pub bitcoin_amount: u64,
    pub bitcoin_sender: Address,
    pub bitcoin_sender_account: Account,
    pub bitcoin_receiver: Address,
    pub fee_payer: Address,
    pub fee_payer_account: Account,
    pub postage: Option<u64>,
    pub fee_per_vbytes: u64,
}

/// Shapes one candidate combined transfer at an assumed fee. The rune leg is
/// selected first, then the plain bitcoin leg; when the fee payer is the
/// bitcoin sender, one selection covers the amount, the fee and the missing
/// postage, otherwise the fee payer's pool is drawn on separately. Every
/// error path restores every pool it touched.
#[verifier::rlimit(60)]
#[verifier::spinoff_prover]
pub fn build_transaction_with_fee(
    pool: &mut UtxoManager,
    args: &CombinedTransferArgs,
    postage: u64,
    fee: u64,
) -> (r: Result<(Transaction, Vec<RunicUtxo>, Vec<Utxo>, Vec<Utxo>), BuildError>)
    requires
        old(pool).wf(),
        args.rune_sender.script_pubkey@.len() <= 0x10000,
        args.rune_receiver.script_pubkey@.len() <= 0x10000,
        args.bitcoin_sender.script_pubkey@.len() <= 0x10000,
        args.bitcoin_receiver.script_pubkey@.len() <= 0x10000,
        args.fee_payer.script_pubkey@.len() <= 0x10000,
    ensures
        final(pool).wf(),
        final(pool).runic_frame(*old(pool), args.rune_sender.text@, args.runeid),
        final(pool).btc_frame2(
            *old(pool),
            args.bitcoin_sender.text@,
            args.fee_payer.text@,
        ),
        match r {
            Ok((txn, runic_utxos, bitcoin_utxos, fee_utxos)) => {
                let runic_orig = old(pool).runic_utxos(args.rune_sender.text@, args.runeid);
                let btc_orig = old(pool).btc_utxos(args.bitcoin_sender.text@);
                let fee_orig = old(pool).btc_utxos(args.fee_payer.text@);
                let same_payer = args.fee_payer.text@ == args.bitcoin_sender.text@;
                let carried = sum_runic_value(runic_utxos@);
                let need_change = needs_rune_change(runic_utxos@, args.rune_amount);
                let postage_due = (if need_change {
                    2 * postage
                } else {
                    postage as int
                }) - carried;
                let required_fee_total = fee + postage_due;
                let btc_target = if same_payer {
                    args.bitcoin_amount + required_fee_total
                } else {
                    args.bitcoin_amount as int
                };
                let rc = crate::types::smallest_balance_first(
                    runic_orig,
                    0,
                    args.rune_amount as int,
                );
                let bc = crate::types::smallest_first(btc_orig, 0, btc_target, false);
                let fc = crate::types::smallest_first(fee_orig, 0, required_fee_total, false);
                let btc_total = sum_value(bitcoin_utxos@);
                let fee_total = sum_value(fee_utxos@);
                let btc_remaining = if same_payer {
                    btc_total - args.bitcoin_amount - required_fee_total
                } else {
                    btc_total - args.bitcoin_amount
                };
                let fee_remaining = fee_total - required_fee_total;
                &&& rc.reached
                &&& runic_utxos@ == rc.taken
                &&& final(pool).runic_utxos(args.rune_sender.text@, args.runeid) == rc.rest
                &&& bc.reached
                &&& bitcoin_utxos@ == bc.taken
                &&& final(pool).btc_utxos(args.bitcoin_sender.text@) == bc.rest
                &&& (!same_payer ==> fc.reached && fee_utxos@ == fc.taken
                    && final(pool).btc_utxos(args.fee_payer.text@) == fc.rest)
                &&& sum_balance(runic_utxos@) >= args.rune_amount
                &&& postage_due >= 0
                &&& (same_payer ==> btc_total >= args.bitcoin_amount + required_fee_total
                    && fee_utxos@.len() == 0)
                &&& (!same_payer ==> btc_total >= args.bitcoin_amount && fee_total
                    >= required_fee_total)
                &&& txn@.version == 2
                &&& txn@.lock_time == 0
                &&& txn@.input == inputs_from_runic(runic_utxos@, SEQUENCE_MAX)
                    + inputs_from_utxos(bitcoin_utxos@, SEQUENCE_MAX) + inputs_from_utxos(
                    fee_utxos@,
                    SEQUENCE_MAX,
                )
                &&& txn@.output == combined_outputs(
                    need_change,
                    runestone_payload(transfer_runestone(args.runeid, args.rune_amount)),
                    args.rune_sender.script_pubkey@,
                    args.rune_receiver.script_pubkey@,
                    postage,
                    args.bitcoin_amount,
                    args.bitcoin_receiver.script_pubkey@,
                    same_payer,
                    btc_remaining as u64,
                    fee_remaining as u64,
                    args.bitcoin_sender.script_pubkey@,
                    args.fee_payer.script_pubkey@,
                )
                &&& outputs_non_dust(txn@.output)
                &&& tx_txids_wf(txn@)
                &&& unique_outpoints_runic(runic_utxos@)
                &&& unique_outpoints(bitcoin_utxos@)
                &&& unique_outpoints(fee_utxos@)
                &&& forall|i: int|
                    0 <= i < runic_utxos@.len() ==> !crate::types::has_outpoint_runic(
                        final(pool).runic_utxos(args.rune_sender.text@, args.runeid),
                        #[trigger] runic_utxos@[i].utxo.outpoint,
                    )
                &&& forall|i: int|
                    0 <= i < bitcoin_utxos@.len() ==> !crate::types::has_outpoint(
                        final(pool).btc_utxos(args.bitcoin_sender.text@),
                        #[trigger] bitcoin_utxos@[i].outpoint,
                    )
                &&& forall|i: int|
                    0 <= i < fee_utxos@.len() ==> !crate::types::has_outpoint(
                        final(pool).btc_utxos(args.fee_payer.text@),
                        #[trigger] fee_utxos@[i].outpoint,
                    )
                &&& final(pool).runic_utxos(args.rune_sender.text@, args.runeid).to_multiset().add(
                    runic_utxos@.to_multiset(),
                ) == runic_orig.to_multiset()
                &&& sum_balance(final(pool).runic_utxos(args.rune_sender.text@, args.runeid))
                    == sum_balance(runic_orig) - sum_balance(runic_utxos@)
                &&& final(pool).btc_utxos(args.bitcoin_sender.text@).to_multiset().add(
                    bitcoin_utxos@.to_multiset(),
                ) == btc_orig.to_multiset()
                &&& (!same_payer ==> final(pool).btc_utxos(args.fee_payer.text@).to_multiset().add(
                    fee_utxos@.to_multiset(),
                ) == fee_orig.to_multiset())
                &&& sum_value(final(pool).btc_utxos(args.bitcoin_sender.text@)) == sum_value(
                    btc_orig,
                ) - btc_total
                &&& (!same_payer ==> sum_value(final(pool).btc_utxos(args.fee_payer.text@))
                    == sum_value(fee_orig) - fee_total)
            },
            Err(e) => {
                let runic_orig = old(pool).runic_utxos(args.rune_sender.text@, args.runeid);
                let btc_orig = old(pool).btc_utxos(args.bitcoin_sender.text@);
                let fee_orig = old(pool).btc_utxos(args.fee_payer.text@);
                &&& final(pool).runic_utxos(args.rune_sender.text@, args.runeid).to_multiset()
                    == runic_orig.to_multiset()
                &&& sum_balance(final(pool).runic_utxos(args.rune_sender.text@, args.runeid))
                    == sum_balance(runic_orig)
                &&& final(pool).btc_utxos(args.bitcoin_sender.text@).to_multiset()
                    == btc_orig.to_multiset()
                &&& sum_value(final(pool).btc_utxos(args.bitcoin_sender.text@)) == sum_value(
                    btc_orig,
                )
                &&& final(pool).btc_utxos(args.fee_payer.text@).to_multiset()
                    == fee_orig.to_multiset()
                &&& sum_value(final(pool).btc_utxos(args.fee_payer.text@)) == sum_value(fee_orig)
                &&& ({
                    let same_payer = args.fee_payer.text@ == args.bitcoin_sender.text@;
                    let rc = crate::types::smallest_balance_first(
                        runic_orig,
                        0,
                        args.rune_amount as int,
                    );
                    let postage_due = (if needs_rune_change(rc.taken, args.rune_amount) {
                        2 * postage
                    } else {
                        postage as int
                    }) - sum_runic_value(rc.taken);
                    let required_fee_total = fee + postage_due;
                    let btc_target = if same_payer {
                        args.bitcoin_amount + required_fee_total
                    } else {
                        args.bitcoin_amount as int
                    };
                    match e {
                        BuildError::InsufficientCombined {
                            rune_required,
                            bitcoin_required,
                            fee_required,
                        } => rune_required == args.rune_amount && {
                            ||| (!rc.reached && sum_balance(runic_orig) < args.rune_amount
                                && bitcoin_required == args.bitcoin_amount && fee_required == fee)
                            ||| (rc.reached && postage_due >= 0 && bitcoin_required as int
                                == btc_target && !crate::types::smallest_first(
                                btc_orig,
                                0,
                                btc_target,
                                false,
                            ).reached && sum_value(btc_orig) < btc_target && fee_required == fee)
                            ||| (rc.reached && postage_due >= 0 && !same_payer
                                && bitcoin_required as int == btc_target && fee_required as int
                                == required_fee_total && !crate::types::smallest_first(
                                fee_orig,
                                0,
                                required_fee_total,
                                false,
                            ).reached && sum_value(fee_orig) < required_fee_total)
                        },
                        BuildError::Dust { output_value, minimum } => combined_dust_case(
                            runic_orig,
                            btc_orig,
                            fee_orig,
                            fee as int,
                            postage,
                            combined_query_of(runic_orig, btc_orig, fee_orig, *args, Seq::empty()),
                            output_value,
                            minimum,
                        ),
                        BuildError::ArithmeticOverflow => {
                            ||| sum_runic_value(runic_orig) > u64::MAX
                            ||| (needs_rune_change(rc.taken, args.rune_amount) && 2 * postage
                                > u64::MAX)
                            ||| postage_due < 0
                            ||| fee + postage_due > u64::MAX
                            ||| (same_payer && args.bitcoin_amount + required_fee_total
                                > u64::MAX)
                        },
                        BuildError::MalformedUtxo => (exists|i: int|
                            0 <= i < runic_orig.len() && runic_orig[i].utxo.outpoint.txid@.len()
                                != 32) || (exists|i: int|
                            0 <= i < btc_orig.len() && btc_orig[i].outpoint.txid@.len() != 32) || (
                        exists|i: int|
                            0 <= i < fee_orig.len() && fee_orig[i].outpoint.txid@.len() != 32),
                        _ => false,
                    }
                })
            },
        },
{
    let same_payer = args.fee_payer.text == args.bitcoin_sender.text;
    // Fatal dust checks that need no pool state come first.
    let md_rune_receiver = minimal_non_dust(&args.rune_receiver.script_pubkey);
    if postage < md_rune_receiver && !crate::script::is_op_return_exec(
        &args.rune_receiver.script_pubkey,
    ) {
        return Err(BuildError::Dust { output_value: postage, minimum: md_rune_receiver });
    }
    let md_rune_sender = minimal_non_dust(&args.rune_sender.script_pubkey);
    if postage < md_rune_sender && !crate::script::is_op_return_exec(
        &args.rune_sender.script_pubkey,
    ) {
        return Err(BuildError::Dust { output_value: postage, minimum: md_rune_sender });
    }
    let md_btc_receiver = minimal_non_dust(&args.bitcoin_receiver.script_pubkey);
    if args.bitcoin_amount < md_btc_receiver && !crate::script::is_op_return_exec(
        &args.bitcoin_receiver.script_pubkey,
    ) {
        return Err(BuildError::Dust { output_value: args.bitcoin_amount, minimum: md_btc_receiver });
    }
    let (runic_utxos, runic_total, carried) = match select_runic(
        pool,
        &args.rune_sender.text,
        args.runeid,
        args.rune_amount,
    ) {
        Ok(v) => v,
        Err(SelectError::Insufficient) => {
            return Err(BuildError::InsufficientCombined {
                rune_required: args.rune_amount,
                bitcoin_required: args.bitcoin_amount,
                fee_required: fee,
            });
        },
        Err(SelectError::MalformedUtxo) => {
            return Err(BuildError::MalformedUtxo);
        },
        Err(SelectError::ValueOverflow) => {
            return Err(BuildError::ArithmeticOverflow);
        },
    };
    let ghost after_runic = *pool;
    let need_change = runic_utxos.len() > 1 || runic_total > args.rune_amount;
    let postage_due: u64 = {
        let postage_total: u64 = if need_change {
            match postage.checked_mul(2) {
                Some(v) => v,
                None => {
                    proof {
                        lemma_pool_rune_entry_wf(*old(pool), args.rune_sender.text@, args.runeid);
                    }
                    restore_runic(
                        pool,
                        &args.rune_sender.text,
                        args.runeid,
                        runic_utxos,
                        Ghost(old(pool).runic_utxos(args.rune_sender.text@, args.runeid)),
                    );
                    return Err(BuildError::ArithmeticOverflow);
                },
            }
        } else {
            postage
        };
        match postage_total.checked_sub(carried) {
            Some(v) => v,
            None => {
                proof {
                    lemma_pool_rune_entry_wf(*old(pool), args.rune_sender.text@, args.runeid);
                }
                restore_runic(
                    pool,
                    &args.rune_sender.text,
                    args.runeid,
                    runic_utxos,
                    Ghost(old(pool).runic_utxos(args.rune_sender.text@, args.runeid)),
                );
                return Err(BuildError::ArithmeticOverflow);
            },
        }
    };
    let required_fee_total: u64 = match fee.checked_add(postage_due) {
        Some(v) => v,
        None => {
            proof {
                lemma_pool_rune_entry_wf(*old(pool), args.rune_sender.text@, args.runeid);
            }
            restore_runic(
                pool,
                &args.rune_sender.text,
                args.runeid,
                runic_utxos,
                Ghost(old(pool).runic_utxos(args.rune_sender.text@, args.runeid)),
            );
            return Err(BuildError::ArithmeticOverflow);
        },
    };
    let btc_target: u64 = if same_payer {
        match args.bitcoin_amount.checked_add(required_fee_total) {
            Some(v) => v,
            None => {
                proof {
                    lemma_pool_rune_entry_wf(*old(pool), args.rune_sender.text@, args.runeid);
                }
                restore_runic(
                    pool,
                    &args.rune_sender.text,
                    args.runeid,
                    runic_utxos,
                    Ghost(old(pool).runic_utxos(args.rune_sender.text@, args.runeid)),
                );
                return Err(BuildError::ArithmeticOverflow);
            },
        }
    } else {
        args.bitcoin_amount
    };
    let (bitcoin_utxos, btc_total) = match select_bitcoin(
        pool,
        &args.bitcoin_sender.text,
        btc_target,
        false,
    ) {
        Ok(v) => v,
        Err(e) => {
            let out = match e {
                SelectError::Insufficient => BuildError::InsufficientCombined {
                    rune_required: args.rune_amount,
                    bitcoin_required: btc_target,
                    fee_required: fee,
                },
                SelectError::MalformedUtxo => BuildError::MalformedUtxo,
                SelectError::ValueOverflow => BuildError::MalformedUtxo,
            };
            proof {
                lemma_pool_rune_entry_wf(*old(pool), args.rune_sender.text@, args.runeid);
            }
            restore_runic(
                pool,
                &args.rune_sender.text,
                args.runeid,
                runic_utxos,
                Ghost(old(pool).runic_utxos(args.rune_sender.text@, args.runeid)),
            );
            return Err(out);
        },
    };
    let ghost after_btc = *pool;
    let (fee_utxos, fee_total) = if same_payer {
        (Vec::<Utxo>::new(), 0u64)
    } else {
        match select_bitcoin(pool, &args.fee_payer.text, required_fee_total, false) {
            Ok(v) => v,
            Err(e) => {
                let out = match e {
                    SelectError::Insufficient => BuildError::InsufficientCombined {
                        rune_required: args.rune_amount,
                        bitcoin_required: btc_target,
                        fee_required: required_fee_total,
                    },
                    SelectError::MalformedUtxo => BuildError::MalformedUtxo,
                    SelectError::ValueOverflow => BuildError::MalformedUtxo,
                };
                proof {
                    lemma_pool_entry_wf(after_runic, args.bitcoin_sender.text@);
                    crate::types::lemma_sum_value_bounds(bitcoin_utxos@);
                }
                restore_bitcoin(
                    pool,
                    &args.bitcoin_sender.text,
                    bitcoin_utxos,
                    Ghost(after_runic.btc_utxos(args.bitcoin_sender.text@)),
                );
                proof {
                    lemma_pool_rune_entry_wf(*old(pool), args.rune_sender.text@, args.runeid);
                    crate::types::lemma_sum_balance_bounds(runic_utxos@);
                }
                restore_runic(
                    pool,
                    &args.rune_sender.text,
                    args.runeid,
                    runic_utxos,
                    Ghost(old(pool).runic_utxos(args.rune_sender.text@, args.runeid)),
                );
                return Err(out);
            },
        }
    };
    let btc_remaining: u64 = if same_payer {
        btc_total - btc_target
    } else {
        btc_total - args.bitcoin_amount
    };
    let fee_remaining: u64 = if same_payer {
        0
    } else {
        fee_total - required_fee_total
    };
    // Change outputs that would themselves be dust for their script are a
    // fatal construction error; everything is restored first.
    let mut dust_failure: Option<(u64, u64)> = None;
    if btc_remaining >= crate::DUST_THRESHOLD {
        let md = minimal_non_dust(&args.bitcoin_sender.script_pubkey);
        if btc_remaining < md && !crate::script::is_op_return_exec(
            &args.bitcoin_sender.script_pubkey,
        ) {
            dust_failure = Some((btc_remaining, md));
        }
    }
    if !same_payer && fee_remaining >= crate::DUST_THRESHOLD && dust_failure.is_none() {
        let md = minimal_non_dust(&args.fee_payer.script_pubkey);
        if fee_remaining < md && !crate::script::is_op_return_exec(&args.fee_payer.script_pubkey) {
            dust_failure = Some((fee_remaining, md));
        }
    }
    if let Some((v, md)) = dust_failure {
        if !same_payer {
            proof {
                lemma_pool_entry_wf(after_btc, args.fee_payer.text@);
                crate::types::lemma_sum_value_bounds(fee_utxos@);
            }
            restore_bitcoin(
                pool,
                &args.fee_payer.text,
                fee_utxos,
                Ghost(after_btc.btc_utxos(args.fee_payer.text@)),
            );
        }
        proof {
            lemma_pool_entry_wf(after_runic, args.bitcoin_sender.text@);
            crate::types::lemma_sum_value_bounds(bitcoin_utxos@);
        }
        restore_bitcoin(
            pool,
            &args.bitcoin_sender.text,
            bitcoin_utxos,
            Ghost(after_runic.btc_utxos(args.bitcoin_sender.text@)),
        );
        proof {
            lemma_pool_rune_entry_wf(*old(pool), args.rune_sender.text@, args.runeid);
            crate::types::lemma_sum_balance_bounds(runic_utxos@);
        }
        restore_runic(
            pool,
            &args.rune_sender.text,
            args.runeid,
            runic_utxos,
            Ghost(old(pool).runic_utxos(args.rune_sender.text@, args.runeid)),
        );
        return Err(BuildError::Dust { output_value: v, minimum: md });
    }
    let mut input = inputs_for_runic(&runic_utxos, SEQUENCE_MAX);
    let mut btc_input = inputs_for(&bitcoin_utxos, SEQUENCE_MAX);
    let mut fee_input = inputs_for(&fee_utxos, SEQUENCE_MAX);
    input.append(&mut btc_input);
    input.append(&mut fee_input);
    let mut output: Vec<TxOut> = Vec::new();
    let directive = RunestoneData {
        edicts: vec![
            Edict {
                block: args.runeid.block,
                tx: args.runeid.tx,
                amount: args.rune_amount,
                output: 2,
            },
        ],
        etching: None,
        mint: None,
        pointer: None,
    };
    proof {
        assert(directive@ =~~= transfer_runestone(args.runeid, args.rune_amount));
    }
    if need_change {
        let script = encipher_runestone(&directive);
        output.push(TxOut { value: 0, script_pubkey: script });
        output.push(
            TxOut { value: postage, script_pubkey: clone_bytes(&args.rune_sender.script_pubkey) },
        );
        output.push(
            TxOut {
                value: postage,
                script_pubkey: clone_bytes(&args.rune_receiver.script_pubkey),
            },
        );
    } else {
        output.push(
            TxOut {
                value: postage,
                script_pubkey: clone_bytes(&args.rune_receiver.script_pubkey),
            },
        );
    }
    output.push(
        TxOut {
            value: args.bitcoin_amount,
            script_pubkey: clone_bytes(&args.bitcoin_receiver.script_pubkey),
        },
    );
    if btc_remaining >= crate::DUST_THRESHOLD {
        output.push(
            TxOut {
                value: btc_remaining,
                script_pubkey: clone_bytes(&args.bitcoin_sender.script_pubkey),
            },
        );
    }
    if !same_payer && fee_remaining >= crate::DUST_THRESHOLD {
        output.push(
            TxOut {
                value: fee_remaining,
                script_pubkey: clone_bytes(&args.fee_payer.script_pubkey),
            },
        );
    }
    let txn = Transaction { version: 2, lock_time: 0, input, output };
    proof {
        assert(txn@.input =~~= inputs_from_runic(runic_utxos@, SEQUENCE_MAX) + inputs_from_utxos(
            bitcoin_utxos@,
            SEQUENCE_MAX,
        ) + inputs_from_utxos(fee_utxos@, SEQUENCE_MAX));
        assert(txn@.output =~~= combined_outputs(
            need_change,
            runestone_payload(transfer_runestone(args.runeid, args.rune_amount)),
            args.rune_sender.script_pubkey@,
            args.rune_receiver.script_pubkey@,
            postage,
            args.bitcoin_amount,
            args.bitcoin_receiver.script_pubkey@,
            same_payer,
            btc_remaining,
            fee_remaining,
            args.bitcoin_sender.script_pubkey@,
            args.fee_payer.script_pubkey@,
        ));
        assert(tx_txids_wf(txn@));
        assert(outputs_non_dust(txn@.output));
        if same_payer {
            assert(fee_utxos@ =~= Seq::<Utxo>::empty());
        }
    }
    Ok((txn, runic_utxos, bitcoin_utxos, fee_utxos))
}

} // verus!
verus! {

/// Everything round arithmetic of a combined transfer depends on.
#[verifier::ext_equal]
pub struct CombinedQuery {
    pub runic_pool: Seq<RunicUtxo>,
    pub btc_pool: Seq<Utxo>,
    pub fee_pool: Seq<Utxo>,
    pub rune_sender_spk: Seq<u8>,
    pub rune_receiver_spk: Seq<u8>,
    pub bitcoin_sender_spk: Seq<u8>,
    pub bitcoin_receiver_spk: Seq<u8>,
    pub fee_payer_spk: Seq<u8>,
    pub mock_key: Seq<u8>,
    pub runeid: RuneId,
    pub rune_amount: u128,
    pub bitcoin_amount: u64,
    pub postage: u64,
    pub fee_per_vbytes: u64,
    pub same_payer: bool,
}

/// The candidate combined transfer shaped at an assumed fee over the three
/// pool orders.
pub open spec fn combined_candidate(
    q: CombinedQuery,
    rp: Seq<RunicUtxo>,
    bp: Seq<Utxo>,
    fp: Seq<Utxo>,
    fee: int,
) -> TransactionV {
    let rc = crate::types::smallest_balance_first(rp, 0, q.rune_amount as int);
    let need_change = needs_rune_change(rc.taken, q.rune_amount);
    let postage_due = (if need_change {
        2 * q.postage
    } else {
        q.postage as int
    }) - sum_runic_value(rc.taken);
    let required_fee_total = fee + postage_due;
    let btc_target = if q.same_payer {
        q.bitcoin_amount + required_fee_total
    } else {
        q.bitcoin_amount as int
    };
    let bc = crate::types::smallest_first(bp, 0, btc_target, false);
    let fc = crate::types::smallest_first(fp, 0, required_fee_total, false);
    let fee_taken = if q.same_payer {
        Seq::<Utxo>::empty()
    } else {
        fc.taken
    };
    let btc_remaining = if q.same_payer {
        sum_value(bc.taken) - q.bitcoin_amount - required_fee_total
    } else {
        sum_value(bc.taken) - q.bitcoin_amount
    };
    let fee_remaining = sum_value(fee_taken) - required_fee_total;
    TransactionV {
        version: 2,
        lock_time: 0,
        input: inputs_from_runic(rc.taken, SEQUENCE_MAX) + inputs_from_utxos(
            bc.taken,
            SEQUENCE_MAX,
        ) + inputs_from_utxos(fee_taken, SEQUENCE_MAX),
        output: combined_outputs(
            need_change,
            runestone_payload(transfer_runestone(q.runeid, q.rune_amount)),
            q.rune_sender_spk,
            q.rune_receiver_spk,
            q.postage,
            q.bitcoin_amount,
            q.bitcoin_receiver_spk,
            q.same_payer,
            btc_remaining as u64,
            fee_remaining as u64,
            q.bitcoin_sender_spk,
            q.fee_payer_spk,
        ),
    }
}

/// The fee search after `k` rounds: the three pool orders as restoration
/// leaves them, and the next assumed fee. When the fee payer is the bitcoin
/// sender the third pool mirrors the second, since they are one pool.
pub open spec fn combined_round(q: CombinedQuery, k: nat) -> (
    Seq<RunicUtxo>,
    Seq<Utxo>,
    Seq<Utxo>,
    int,
)
    decreases k,
{
    if k == 0 {
        (q.runic_pool, q.btc_pool, q.fee_pool, 0)
    } else {
        let (rp, bp, fp, f) = combined_round(q, (k - 1) as nat);
        let rc = crate::types::smallest_balance_first(rp, 0, q.rune_amount as int);
        let need_change = needs_rune_change(rc.taken, q.rune_amount);
        let postage_due = (if need_change {
            2 * q.postage
        } else {
            q.postage as int
        }) - sum_runic_value(rc.taken);
        let required_fee_total = f + postage_due;
        let btc_target = if q.same_payer {
            q.bitcoin_amount + required_fee_total
        } else {
            q.bitcoin_amount as int
        };
        let bc = crate::types::smallest_first(bp, 0, btc_target, false);
        let fc = crate::types::smallest_first(fp, 0, required_fee_total, false);
        let f2 = fee_for(
            tx_vsize(mock_signed_view(combined_candidate(q, rp, bp, fp, f), q.mock_key)),
            q.fee_per_vbytes,
        );
        (
            rc.rest + rc.taken,
            bc.rest + bc.taken,
            if q.same_payer {
                bc.rest + bc.taken
            } else {
                fc.rest + fc.taken
            },
            f2,
        )
    }
}

pub open spec fn combined_round_fee(q: CombinedQuery, k: nat) -> int {
    combined_round(q, k).3
}

/// The search has its fixed point at round `k`.
pub open spec fn combined_converges_at(q: CombinedQuery, k: int) -> bool {
    0 <= k && combined_round_fee(q, (k + 1) as nat) == combined_round_fee(q, k as nat)
}

/// The requirement a failed round `k` reported for one of its legs.
pub open spec fn combined_round_shortfall(
    q: CombinedQuery,
    k: int,
    bitcoin_required: u64,
    fee_required: u64,
) -> bool {
    let (rp, bp, fp, f) = combined_round(q, k as nat);
    let rc = crate::types::smallest_balance_first(rp, 0, q.rune_amount as int);
    let postage_due = (if needs_rune_change(rc.taken, q.rune_amount) {
        2 * q.postage
    } else {
        q.postage as int
    }) - sum_runic_value(rc.taken);
    let required_fee_total = f + postage_due;
    let btc_target = if q.same_payer {
        q.bitcoin_amount + required_fee_total
    } else {
        q.bitcoin_amount as int
    };
    &&& 0 <= k
    &&& {
        ||| (!rc.reached && bitcoin_required == q.bitcoin_amount && fee_required as int == f)
        ||| (rc.reached && postage_due >= 0 && bitcoin_required as int == btc_target
            && !crate::types::smallest_first(bp, 0, btc_target, false).reached
            && fee_required as int == f)
        ||| (rc.reached && postage_due >= 0 && !q.same_payer && bitcoin_required as int
            == btc_target && fee_required as int == required_fee_total
            && !crate::types::smallest_first(fp, 0, required_fee_total, false).reached)
    }
}

/// One of a combined transfer's dust failures: a postage output below the
/// rune receiver's or sender's floor, the bitcoin receiver's output below its
/// floor, or a change output that cleared the dust threshold but not its
/// script's floor.
pub open spec fn combined_dust_case(
    rp: Seq<RunicUtxo>,
    bp: Seq<Utxo>,
    fp: Seq<Utxo>,
    fee: int,
    postage: u64,
    q: CombinedQuery,
    output_value: u64,
    minimum: u64,
) -> bool {
    let rc = crate::types::smallest_balance_first(rp, 0, q.rune_amount as int);
    let postage_due = (if needs_rune_change(rc.taken, q.rune_amount) {
        2 * postage
    } else {
        postage as int
    }) - sum_runic_value(rc.taken);
    let required_fee_total = fee + postage_due;
    let btc_target = if q.same_payer {
        q.bitcoin_amount + required_fee_total
    } else {
        q.bitcoin_amount as int
    };
    let bc = crate::types::smallest_first(bp, 0, btc_target, false);
    let fc = crate::types::smallest_first(fp, 0, required_fee_total, false);
    ||| (output_value == postage && minimum as nat == min_non_dust_of(q.rune_receiver_spk)
        && !crate::script::is_op_return(q.rune_receiver_spk) && output_value < minimum)
    ||| (output_value == postage && minimum as nat == min_non_dust_of(q.rune_sender_spk)
        && !crate::script::is_op_return(q.rune_sender_spk) && output_value < minimum)
    ||| (output_value == q.bitcoin_amount && minimum as nat == min_non_dust_of(
        q.bitcoin_receiver_spk,
    ) && !crate::script::is_op_return(q.bitcoin_receiver_spk) && output_value < minimum)
    ||| (rc.reached && postage_due >= 0 && bc.reached && output_value as int == (if q.same_payer {
        sum_value(bc.taken) - q.bitcoin_amount - required_fee_total
    } else {
        sum_value(bc.taken) - q.bitcoin_amount
    }) && minimum as nat == min_non_dust_of(q.bitcoin_sender_spk)
        && !crate::script::is_op_return(q.bitcoin_sender_spk) && output_value
        >= crate::DUST_THRESHOLD && output_value < minimum)
    ||| (rc.reached && postage_due >= 0 && !q.same_payer && bc.reached && fc.reached
        && output_value as int == sum_value(fc.taken) - required_fee_total && minimum as nat
        == min_non_dust_of(q.fee_payer_spk) && !crate::script::is_op_return(q.fee_payer_spk)
        && output_value >= crate::DUST_THRESHOLD && output_value < minimum)
}

/// Round `k` failed one of the dust checks at the reported values.
pub open spec fn combined_round_dust(
    q: CombinedQuery,
    k: int,
    output_value: u64,
    minimum: u64,
) -> bool {
    &&& 0 <= k
    &&& combined_dust_case(
        combined_round(q, k as nat).0,
        combined_round(q, k as nat).1,
        combined_round(q, k as nat).2,
        combined_round(q, k as nat).3,
        q.postage,
        q,
        output_value,
        minimum,
    )
}

/// Round `k` hits a 64-bit limit somewhere in its arithmetic.
pub open spec fn combined_round_overflows(q: CombinedQuery, k: int) -> bool {
    let (rp, bp, fp, f) = combined_round(q, k as nat);
    let rc = crate::types::smallest_balance_first(rp, 0, q.rune_amount as int);
    let postage_due = (if needs_rune_change(rc.taken, q.rune_amount) {
        2 * q.postage
    } else {
        q.postage as int
    }) - sum_runic_value(rc.taken);
    let required_fee_total = f + postage_due;
    ||| sum_runic_value(rp) > u64::MAX
    ||| (needs_rune_change(rc.taken, q.rune_amount) && 2 * q.postage > u64::MAX)
    ||| postage_due < 0
    ||| f + postage_due > u64::MAX
    ||| (q.same_payer && q.bitcoin_amount + required_fee_total > u64::MAX)
    ||| (0 <= k && tx_vsize(mock_signed_view(combined_candidate(q, rp, bp, fp, f), q.mock_key))
        * q.fee_per_vbytes > u64::MAX)
}

pub open spec fn combined_query_of(
    runic_pool: Seq<RunicUtxo>,
    btc_pool: Seq<Utxo>,
    fee_pool: Seq<Utxo>,
    args: CombinedTransferArgs,
    mock_key: Seq<u8>,
) -> CombinedQuery {
    CombinedQuery {
        runic_pool,
        btc_pool,
        fee_pool,
        rune_sender_spk: args.rune_sender.script_pubkey@,
        rune_receiver_spk: args.rune_receiver.script_pubkey@,
        bitcoin_sender_spk: args.bitcoin_sender.script_pubkey@,
        bitcoin_receiver_spk: args.bitcoin_receiver.script_pubkey@,
        fee_payer_spk: args.fee_payer.script_pubkey@,
        mock_key,
        runeid: args.runeid,
        rune_amount: args.rune_amount,
        bitcoin_amount: args.bitcoin_amount,
        postage: (match args.postage {
            Some(p) => p,
            None => crate::DEFAULT_POSTAGE,
        }),
        fee_per_vbytes: args.fee_per_vbytes,
        same_payer: args.fee_payer.text@ == args.bitcoin_sender.text@,
    }
}

/// Restores the three pools a combined sizing round drew on.
#[verifier::spinoff_prover]
fn restore_combined(
    pool: &mut UtxoManager,
    rune_addr: &String,
    runeid: RuneId,
    runic_utxos: Vec<RunicUtxo>,
    btc_addr: &String,
    btc_utxos: Vec<Utxo>,
    fee_addr: &String,
    fee_utxos: Vec<Utxo>,
    same_payer: bool,
    Ghost(round_pool): Ghost<UtxoManager>,
    Ghost(runic_orig): Ghost<Seq<RunicUtxo>>,
    Ghost(btc_orig): Ghost<Seq<Utxo>>,
    Ghost(fee_orig): Ghost<Seq<Utxo>>,
)
    requires
        old(pool).wf(),
        round_pool.wf(),
        same_payer == (fee_addr@ == btc_addr@),
        same_payer ==> fee_utxos@.len() == 0 && fee_orig == btc_orig,
        unique_outpoints_runic(runic_utxos@),
        unique_outpoints(btc_utxos@),
        unique_outpoints(fee_utxos@),
        round_pool.runic_utxos(rune_addr@, runeid).to_multiset() == runic_orig.to_multiset(),
        sum_balance(round_pool.runic_utxos(rune_addr@, runeid)) == sum_balance(runic_orig),
        round_pool.btc_utxos(btc_addr@).to_multiset() == btc_orig.to_multiset(),
        sum_value(round_pool.btc_utxos(btc_addr@)) == sum_value(btc_orig),
        round_pool.btc_utxos(fee_addr@).to_multiset() == fee_orig.to_multiset(),
        sum_value(round_pool.btc_utxos(fee_addr@)) == sum_value(fee_orig),
        old(pool).runic_utxos(rune_addr@, runeid).to_multiset().add(runic_utxos@.to_multiset())
            == runic_orig.to_multiset(),
        sum_balance(old(pool).runic_utxos(rune_addr@, runeid)) == sum_balance(runic_orig)
            - sum_balance(runic_utxos@),
        old(pool).btc_utxos(btc_addr@).to_multiset().add(btc_utxos@.to_multiset())
            == btc_orig.to_multiset(),
        sum_value(old(pool).btc_utxos(btc_addr@)) == sum_value(btc_orig) - sum_value(btc_utxos@),
        !same_payer ==> old(pool).btc_utxos(fee_addr@).to_multiset().add(fee_utxos@.to_multiset())
            == fee_orig.to_multiset(),
        !same_payer ==> sum_value(old(pool).btc_utxos(fee_addr@)) == sum_value(fee_orig)
            - sum_value(fee_utxos@),
        forall|i: int|
            0 <= i < runic_utxos@.len() ==> !crate::types::has_outpoint_runic(
                old(pool).runic_utxos(rune_addr@, runeid),
                #[trigger] runic_utxos@[i].utxo.outpoint,
            ),
        forall|i: int|
            0 <= i < btc_utxos@.len() ==> !crate::types::has_outpoint(
                old(pool).btc_utxos(btc_addr@),
                #[trigger] btc_utxos@[i].outpoint,
            ),
        forall|i: int|
            0 <= i < fee_utxos@.len() ==> !crate::types::has_outpoint(
                old(pool).btc_utxos(fee_addr@),
                #[trigger] fee_utxos@[i].outpoint,
            ),
    ensures
        final(pool).wf(),
        final(pool).runic_frame(*old(pool), rune_addr@, runeid),
        final(pool).btc_frame2(*old(pool), btc_addr@, fee_addr@),
        final(pool).runic_utxos(rune_addr@, runeid) == old(pool).runic_utxos(rune_addr@, runeid)
            + runic_utxos@,
        !same_payer ==> final(pool).btc_utxos(fee_addr@) == old(pool).btc_utxos(fee_addr@)
            + fee_utxos@,
        same_payer ==> final(pool).btc_utxos(btc_addr@) == old(pool).btc_utxos(btc_addr@)
            + btc_utxos@,
        !same_payer ==> final(pool).btc_utxos(btc_addr@) == old(pool).btc_utxos(btc_addr@)
            + btc_utxos@,
        final(pool).runic_utxos(rune_addr@, runeid).to_multiset() == runic_orig.to_multiset(),
        sum_balance(final(pool).runic_utxos(rune_addr@, runeid)) == sum_balance(runic_orig),
        final(pool).btc_utxos(btc_addr@).to_multiset() == btc_orig.to_multiset(),
        sum_value(final(pool).btc_utxos(btc_addr@)) == sum_value(btc_orig),
        final(pool).btc_utxos(fee_addr@).to_multiset() == fee_orig.to_multiset(),
        sum_value(final(pool).btc_utxos(fee_addr@)) == sum_value(fee_orig),
{
    if !same_payer {
        proof {
            lemma_pool_entry_wf(round_pool, fee_addr@);
            crate::types::lemma_sum_value_bounds(fee_utxos@);
        }
        restore_bitcoin(pool, fee_addr, fee_utxos, Ghost(fee_orig));
    }
    proof {
        lemma_pool_entry_wf(round_pool, btc_addr@);
        crate::types::lemma_sum_value_bounds(btc_utxos@);
    }
    restore_bitcoin(pool, btc_addr, btc_utxos, Ghost(btc_orig));
    proof {
        lemma_pool_rune_entry_wf(round_pool, rune_addr@, runeid);
        crate::types::lemma_sum_balance_bounds(runic_utxos@);
    }
    restore_runic(pool, rune_addr, runeid, runic_utxos, Ghost(runic_orig));
}

/// Assembles a combined rune-and-bitcoin transfer whose real fee —
/// recomputed from the virtual size of a placeholder-signed clone — equals
/// the fee assumed when its inputs were selected. Every failure restores
/// every pool drawn on.
#[verifier::rlimit(60)]
#[verifier::spinoff_prover]
pub fn transfer(pool: &mut UtxoManager, args: CombinedTransferArgs, mock_public_key: Vec<u8>) -> (r:
    Result<TransactionType, BuildError>)
    requires
        old(pool).wf(),
        args.rune_sender.script_pubkey@.len() <= 0x10000,
        args.rune_receiver.script_pubkey@.len() <= 0x10000,
        args.bitcoin_sender.script_pubkey@.len() <= 0x10000,
        args.bitcoin_receiver.script_pubkey@.len() <= 0x10000,
        args.fee_payer.script_pubkey@.len() <= 0x10000,
        mock_public_key@.len() < 0x10000,
    ensures
        final(pool).wf(),
        final(pool).runic_frame(*old(pool), args.rune_sender.text@, args.runeid),
        final(pool).btc_frame2(*old(pool), args.bitcoin_sender.text@, args.fee_payer.text@),
        match r {
            Ok(t) => t matches TransactionType::Combined {
                runic_utxos,
                runeid,
                rune_amount,
                bitcoin_utxos,
                bitcoin_amount,
                fee_utxos,
                fee,
                postage,
                txn,
                ..
            } && {
                let runic_orig = old(pool).runic_utxos(args.rune_sender.text@, args.runeid);
                let btc_orig = old(pool).btc_utxos(args.bitcoin_sender.text@);
                let fee_orig = old(pool).btc_utxos(args.fee_payer.text@);
                let same_payer = args.fee_payer.text@ == args.bitcoin_sender.text@;
                let carried = sum_runic_value(runic_utxos@);
                let need_change = needs_rune_change(runic_utxos@, args.rune_amount);
                let postage_due = (if need_change {
                    2 * postage
                } else {
                    postage as int
                }) - carried;
                let required_fee_total = fee + postage_due;
                let btc_total = sum_value(bitcoin_utxos@);
                let fee_total = sum_value(fee_utxos@);
                let btc_remaining = if same_payer {
                    btc_total - args.bitcoin_amount - required_fee_total
                } else {
                    btc_total - args.bitcoin_amount
                };
                let fee_remaining = fee_total - required_fee_total;
                &&& runeid == args.runeid
                &&& rune_amount == args.rune_amount
                &&& bitcoin_amount == args.bitcoin_amount
                &&& postage as int == (match args.postage {
                    Some(p) => p as int,
                    None => crate::DEFAULT_POSTAGE as int,
                })
                &&& fee as int == real_fee_of(txn@, mock_public_key@, args.fee_per_vbytes)
                &&& sum_balance(runic_utxos@) >= args.rune_amount
                &&& postage_due >= 0
                &&& (same_payer ==> btc_total >= args.bitcoin_amount + required_fee_total
                    && fee_utxos@.len() == 0)
                &&& (!same_payer ==> btc_total >= args.bitcoin_amount && fee_total
                    >= required_fee_total)
                &&& txn@.input == inputs_from_runic(runic_utxos@, SEQUENCE_MAX)
                    + inputs_from_utxos(bitcoin_utxos@, SEQUENCE_MAX) + inputs_from_utxos(
                    fee_utxos@,
                    SEQUENCE_MAX,
                )
                &&& txn@.output == combined_outputs(
                    need_change,
                    runestone_payload(transfer_runestone(args.runeid, args.rune_amount)),
                    args.rune_sender.script_pubkey@,
                    args.rune_receiver.script_pubkey@,
                    postage,
                    args.bitcoin_amount,
                    args.bitcoin_receiver.script_pubkey@,
                    same_payer,
                    btc_remaining as u64,
                    fee_remaining as u64,
                    args.bitcoin_sender.script_pubkey@,
                    args.fee_payer.script_pubkey@,
                )
                &&& outputs_non_dust(txn@.output)
                &&& tx_txids_wf(txn@)
                &&& final(pool).runic_utxos(args.rune_sender.text@, args.runeid).to_multiset().add(
                    runic_utxos@.to_multiset(),
                ) == runic_orig.to_multiset()
                &&& sum_balance(final(pool).runic_utxos(args.rune_sender.text@, args.runeid))
                    == sum_balance(runic_orig) - sum_balance(runic_utxos@)
                &&& final(pool).btc_utxos(args.bitcoin_sender.text@).to_multiset().add(
                    bitcoin_utxos@.to_multiset(),
                ) == btc_orig.to_multiset()
                &&& sum_value(final(pool).btc_utxos(args.bitcoin_sender.text@)) == sum_value(
                    btc_orig,
                ) - btc_total
                &&& (!same_payer ==> final(pool).btc_utxos(args.fee_payer.text@).to_multiset().add(
                    fee_utxos@.to_multiset(),
                ) == fee_orig.to_multiset())
                &&& (!same_payer ==> sum_value(final(pool).btc_utxos(args.fee_payer.text@))
                    == sum_value(fee_orig) - fee_total)
                &&& ({
                    let q = combined_query_of(
                        runic_orig,
                        btc_orig,
                        fee_orig,
                        args,
                        mock_public_key@,
                    );
                    exists|k: int|
                        0 <= k < crate::transaction::MAX_FEE_ROUNDS
                            && #[trigger] combined_converges_at(q, k) && txn@ == combined_candidate(
                            q,
                            combined_round(q, k as nat).0,
                            combined_round(q, k as nat).1,
                            combined_round(q, k as nat).2,
                            combined_round(q, k as nat).3,
                        )
                })
            },
            Err(e) => {
                let runic_orig = old(pool).runic_utxos(args.rune_sender.text@, args.runeid);
                let btc_orig = old(pool).btc_utxos(args.bitcoin_sender.text@);
                let fee_orig = old(pool).btc_utxos(args.fee_payer.text@);
                let q = combined_query_of(runic_orig, btc_orig, fee_orig, args, mock_public_key@);
                &&& final(pool).runic_utxos(args.rune_sender.text@, args.runeid).to_multiset()
                    == runic_orig.to_multiset()
                &&& sum_balance(final(pool).runic_utxos(args.rune_sender.text@, args.runeid))
                    == sum_balance(runic_orig)
                &&& final(pool).btc_utxos(args.bitcoin_sender.text@).to_multiset()
                    == btc_orig.to_multiset()
                &&& sum_value(final(pool).btc_utxos(args.bitcoin_sender.text@)) == sum_value(
                    btc_orig,
                )
                &&& final(pool).btc_utxos(args.fee_payer.text@).to_multiset()
                    == fee_orig.to_multiset()
                &&& sum_value(final(pool).btc_utxos(args.fee_payer.text@)) == sum_value(fee_orig)
                &&& match e {
                    BuildError::InsufficientCombined {
                        rune_required,
                        bitcoin_required,
                        fee_required,
                    } => rune_required == args.rune_amount && bitcoin_required
                        >= args.bitcoin_amount && (sum_balance(runic_orig) < args.rune_amount
                        || sum_value(btc_orig) < bitcoin_required || sum_value(fee_orig)
                        < fee_required) && exists|k: int|
                        k < crate::transaction::MAX_FEE_ROUNDS
                            && #[trigger] combined_round_shortfall(
                            q,
                            k,
                            bitcoin_required,
                            fee_required,
                        ),
                    BuildError::Dust { output_value, minimum } => exists|k: int|
                        k < crate::transaction::MAX_FEE_ROUNDS && #[trigger] combined_round_dust(
                            q,
                            k,
                            output_value,
                            minimum,
                        ),
                    BuildError::ArithmeticOverflow => exists|k: int|
                        0 <= k < crate::transaction::MAX_FEE_ROUNDS
                            && #[trigger] combined_round_overflows(q, k),
                    BuildError::MalformedUtxo => (exists|i: int|
                        0 <= i < runic_orig.len() && runic_orig[i].utxo.outpoint.txid@.len()
                            != 32) || (exists|i: int|
                        0 <= i < btc_orig.len() && btc_orig[i].outpoint.txid@.len() != 32) || (
                    exists|i: int|
                        0 <= i < fee_orig.len() && fee_orig[i].outpoint.txid@.len() != 32),
                    BuildError::FeeDidNotConverge => forall|k: int|
                        0 <= k < crate::transaction::MAX_FEE_ROUNDS ==> !(
                        #[trigger] combined_converges_at(q, k)),
                    _ => false,
                }
            },
        },
{
    let postage = match args.postage {
        Some(p) => p,
        None => crate::DEFAULT_POSTAGE,
    };
    let ghost runic_orig = old(pool).runic_utxos(args.rune_sender.text@, args.runeid);
    let ghost btc_orig = old(pool).btc_utxos(args.bitcoin_sender.text@);
    let ghost fee_orig = old(pool).btc_utxos(args.fee_payer.text@);
    let same_payer = args.fee_payer.text == args.bitcoin_sender.text;
    let ghost q = combined_query_of(runic_orig, btc_orig, fee_orig, args, mock_public_key@);
    let mut total_fee: u64 = 0;
    let mut round: u32 = 0;
    while round < crate::transaction::MAX_FEE_ROUNDS
        invariant
            pool.wf(),
            q == combined_query_of(runic_orig, btc_orig, fee_orig, args, mock_public_key@),
            q.postage == postage,
            q.same_payer == same_payer,
            combined_round(q, round as nat).0 == pool.runic_utxos(
                args.rune_sender.text@,
                args.runeid,
            ),
            combined_round(q, round as nat).1 == pool.btc_utxos(args.bitcoin_sender.text@),
            combined_round(q, round as nat).2 == pool.btc_utxos(args.fee_payer.text@),
            combined_round(q, round as nat).3 == total_fee as int,
            forall|j: int| 0 <= j < round ==> !(#[trigger] combined_converges_at(q, j)),
            args.rune_sender.script_pubkey@.len() <= 0x10000,
            args.rune_receiver.script_pubkey@.len() <= 0x10000,
            args.bitcoin_sender.script_pubkey@.len() <= 0x10000,
            args.bitcoin_receiver.script_pubkey@.len() <= 0x10000,
            args.fee_payer.script_pubkey@.len() <= 0x10000,
            mock_public_key@.len() < 0x10000,
            same_payer == (args.fee_payer.text@ == args.bitcoin_sender.text@),
            postage as int == (match args.postage {
                Some(p) => p as int,
                None => crate::DEFAULT_POSTAGE as int,
            }),
            runic_orig == old(pool).runic_utxos(args.rune_sender.text@, args.runeid),
            btc_orig == old(pool).btc_utxos(args.bitcoin_sender.text@),
            fee_orig == old(pool).btc_utxos(args.fee_payer.text@),
            pool.runic_utxos(args.rune_sender.text@, args.runeid).to_multiset()
                == runic_orig.to_multiset(),
            sum_balance(pool.runic_utxos(args.rune_sender.text@, args.runeid)) == sum_balance(
                runic_orig,
            ),
            pool.btc_utxos(args.bitcoin_sender.text@).to_multiset() == btc_orig.to_multiset(),
            sum_value(pool.btc_utxos(args.bitcoin_sender.text@)) == sum_value(btc_orig),
            pool.btc_utxos(args.fee_payer.text@).to_multiset() == fee_orig.to_multiset(),
            sum_value(pool.btc_utxos(args.fee_payer.text@)) == sum_value(fee_orig),
            pool.runic_frame(*old(pool), args.rune_sender.text@, args.runeid),
            pool.btc_frame2(*old(pool), args.bitcoin_sender.text@, args.fee_payer.text@),
        decreases crate::transaction::MAX_FEE_ROUNDS - round,
    {
        let ghost round_pool = *pool;
        let ghost rp = combined_round(q, round as nat).0;
        let ghost bp = combined_round(q, round as nat).1;
        let ghost fp = combined_round(q, round as nat).2;
        let ghost fk = combined_round(q, round as nat).3;
        let ghost rc = crate::types::smallest_balance_first(rp, 0, q.rune_amount as int);
        let ghost postage_due_k = (if needs_rune_change(rc.taken, q.rune_amount) {
            2 * q.postage
        } else {
            q.postage as int
        }) - sum_runic_value(rc.taken);
        let ghost btc_target_k = if q.same_payer {
            q.bitcoin_amount + (fk + postage_due_k)
        } else {
            q.bitcoin_amount as int
        };
        let ghost bc = crate::types::smallest_first(bp, 0, btc_target_k, false);
        let ghost fc = crate::types::smallest_first(fp, 0, fk + postage_due_k, false);
        match build_transaction_with_fee(pool, &args, postage, total_fee) {
            Err(e) => {
                proof {
                    if e is MalformedUtxo {
                        let rpool = round_pool.runic_utxos(args.rune_sender.text@, args.runeid);
                        let bpool = round_pool.btc_utxos(args.bitcoin_sender.text@);
                        let fpool = round_pool.btc_utxos(args.fee_payer.text@);
                        if exists|i: int|
                            0 <= i < rpool.len() && rpool[i].utxo.outpoint.txid@.len() != 32 {
                            crate::types::lemma_ms_preserves_bad_txid_runic(rpool, runic_orig);
                        } else if exists|i: int|
                            0 <= i < bpool.len() && bpool[i].outpoint.txid@.len() != 32 {
                            crate::types::lemma_ms_preserves_bad_txid(bpool, btc_orig);
                        } else {
                            crate::types::lemma_ms_preserves_bad_txid(fpool, fee_orig);
                        }
                    }
                    if e is InsufficientCombined {
                        assert(combined_round_shortfall(
                            q,
                            round as int,
                            e->InsufficientCombined_bitcoin_required,
                            e->InsufficientCombined_fee_required,
                        ));
                    }
                    if e is Dust {
                        assert(combined_round_dust(
                            q,
                            round as int,
                            e->Dust_output_value,
                            e->Dust_minimum,
                        ));
                    }
                    if e is ArithmeticOverflow {
                        assert(combined_round_overflows(q, round as int));
                    }
                }
                return Err(e);
            },
            Ok((txn, runic_utxos, bitcoin_utxos, fee_utxos)) => {
                proof {
                    assert(txn@ =~~= combined_candidate(q, rp, bp, fp, fk));
                }
                let mock = mock_ecdsa_signature(&txn, &mock_public_key);
                let vsize = transaction_vsize(&mock);
                proof {
                    assert(mock@ == mock_signed_view(
                        combined_candidate(q, rp, bp, fp, fk),
                        q.mock_key,
                    ));
                    assert(combined_round(q, (round + 1) as nat).3 == fee_for(
                        tx_vsize(mock@),
                        args.fee_per_vbytes,
                    ));
                    assert(combined_round(q, (round + 1) as nat).0 == rc.rest + rc.taken);
                    assert(combined_round(q, (round + 1) as nat).1 == bc.rest + bc.taken);
                    assert(combined_round(q, (round + 1) as nat).2 == (if q.same_payer {
                        bc.rest + bc.taken
                    } else {
                        fc.rest + fc.taken
                    }));
                }
                let real_fee = match vsize.checked_mul(args.fee_per_vbytes) {
                    None => {
                        proof {
                            assert(combined_round_overflows(q, round as int));
                        }
                        restore_combined(
                            pool,
                            &args.rune_sender.text,
                            args.runeid,
                            runic_utxos,
                            &args.bitcoin_sender.text,
                            bitcoin_utxos,
                            &args.fee_payer.text,
                            fee_utxos,
                            same_payer,
                            Ghost(round_pool),
                            Ghost(runic_orig),
                            Ghost(btc_orig),
                            Ghost(fee_orig),
                        );
                        return Err(BuildError::ArithmeticOverflow);
                    },
                    Some(p) => p / 1000,
                };
                proof {
                    assert(real_fee as int == combined_round(q, (round + 1) as nat).3);
                }
                if real_fee == total_fee {
                    proof {
                        assert(mock@ == crate::transaction::mock_signed_view(
                            txn@,
                            mock_public_key@,
                        ));
                        assert(real_fee_of(txn@, mock_public_key@, args.fee_per_vbytes)
                            == total_fee as int);
                        assert(combined_converges_at(q, round as int));
                    }
                    return Ok(TransactionType::Combined {
                        runic_utxos,
                        runeid: args.runeid,
                        rune_amount: args.rune_amount,
                        rune_sender: args.rune_sender,
                        rune_receiver: args.rune_receiver,
                        rune_sender_account: args.rune_sender_account,
                        bitcoin_utxos,
                        bitcoin_amount: args.bitcoin_amount,
                        bitcoin_sender: args.bitcoin_sender,
                        bitcoin_receiver: args.bitcoin_receiver,
                        bitcoin_sender_account: args.bitcoin_sender_account,
                        fee_utxos,
                        fee: total_fee,
                        fee_payer: args.fee_payer,
                        fee_payer_account: args.fee_payer_account,
                        postage,
                        txn,
                    });
                }
                proof {
                    assert(!combined_converges_at(q, round as int));
                }
                restore_combined(
                    pool,
                    &args.rune_sender.text,
                    args.runeid,
                    runic_utxos,
                    &args.bitcoin_sender.text,
                    bitcoin_utxos,
                    &args.fee_payer.text,
                    fee_utxos,
                    same_payer,
                    Ghost(round_pool),
                    Ghost(runic_orig),
                    Ghost(btc_orig),
                    Ghost(fee_orig),
                );
                proof {
                    assert(pool.runic_utxos(args.rune_sender.text@, args.runeid) =~= rc.rest
                        + rc.taken);
                    assert(pool.btc_utxos(args.bitcoin_sender.text@) =~= bc.rest + bc.taken);
                    if q.same_payer {
                        assert(pool.btc_utxos(args.fee_payer.text@) =~= bc.rest + bc.taken);
                    } else {
                        assert(pool.btc_utxos(args.fee_payer.text@) =~= fc.rest + fc.taken);
                    }
                }
                total_fee = real_fee;
                round += 1;
            },
        }
    }
    Err(BuildError::FeeDidNotConverge)
}

} // verus!
