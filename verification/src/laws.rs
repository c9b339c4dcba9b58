use vstd::prelude::*;

use crate::combined::combined_outputs;
use crate::etch::commit_outputs;
use crate::rune_transfer::rune_transfer_outputs;
use crate::transaction::{
    TxOutV, output_sum, receiver_value, required_amount, transfer_outputs,
};
use crate::types::{
    Utxo, same_outpoint, sum_value, unique_outpoints,
};

verus! {

broadcast use vstd::multiset::group_multiset_axioms;

/// Conservation for a plain transfer: the selected input value equals the
/// output value plus the assumed fee exactly; when the remainder was below
/// the dust threshold no change output exists and the remainder is forfeited
/// to the fee on top of it.
pub proof fn lemma_transfer_conservation(
    utxos: Seq<Utxo>,
    amount: u64,
    paid_by_sender: bool,
    fee: u64,
    receiver_spk: Seq<u8>,
    sender_spk: Seq<u8>,
)
    requires
        sum_value(utxos) >= required_amount(amount, paid_by_sender, fee as int),
        sum_value(utxos) - required_amount(amount, paid_by_sender, fee as int) <= u64::MAX,
        receiver_value(amount, paid_by_sender, fee as int) >= 0,
    ensures
        ({
            let remaining = (sum_value(utxos) - required_amount(
                amount,
                paid_by_sender,
                fee as int,
            )) as u64;
            let outs = transfer_outputs(
                receiver_value(amount, paid_by_sender, fee as int) as u64,
                receiver_spk,
                remaining,
                sender_spk,
            );
            if remaining >= crate::DUST_THRESHOLD {
                sum_value(utxos) == output_sum(outs) + fee
            } else {
                sum_value(utxos) == output_sum(outs) + fee + remaining && remaining
                    < crate::DUST_THRESHOLD
            }
        }),
{
    let remaining = (sum_value(utxos) - required_amount(amount, paid_by_sender, fee as int)) as u64;
    let ra = receiver_value(amount, paid_by_sender, fee as int) as u64;
    let base = seq![TxOutV { value: ra, script_pubkey: receiver_spk }];
    assert(output_sum(base) == ra) by {
        assert(base.drop_last() =~= Seq::<TxOutV>::empty());
        assert(output_sum(Seq::<TxOutV>::empty()) == 0);
    }
    if remaining >= crate::DUST_THRESHOLD {
        let outs = base.push(TxOutV { value: remaining, script_pubkey: sender_spk });
        assert(outs.drop_last() =~= base);
        assert(output_sum(outs) == ra + remaining);
    }
}

/// Conservation for a rune transfer's bitcoin side: the bitcoin carried by
/// the rune inputs plus the fee payer's inputs equals the postage outputs
/// plus the fee (plus a sub-dust forfeit exactly when no change was emitted).
pub proof fn lemma_rune_transfer_conservation(
    carried: u64,
    fee_total: u64,
    need_change: bool,
    directive: Seq<u8>,
    sender_spk: Seq<u8>,
    receiver_spk: Seq<u8>,
    postage: u64,
    fee: u64,
    fee_payer_spk: Seq<u8>,
)
    requires
        fee_total + carried >= fee + (if need_change {
            2 * postage
        } else {
            postage as int
        }),
        fee_total - (fee + (if need_change {
            2 * postage
        } else {
            postage as int
        }) - carried) <= u64::MAX,
        fee + (if need_change {
            2 * postage
        } else {
            postage as int
        }) - carried >= 0,
    ensures
        ({
            let postage_due = (if need_change {
                2 * postage
            } else {
                postage as int
            }) - carried;
            let remaining = (fee_total - fee - postage_due) as u64;
            let outs = rune_transfer_outputs(
                need_change,
                directive,
                sender_spk,
                receiver_spk,
                postage,
                remaining,
                fee_payer_spk,
            );
            if remaining >= crate::DUST_THRESHOLD {
                carried + fee_total == output_sum(outs) + fee
            } else {
                carried + fee_total == output_sum(outs) + fee + remaining
            }
        }),
{
    let postage_due = (if need_change {
        2 * postage
    } else {
        postage as int
    }) - carried;
    let remaining = (fee_total - fee - postage_due) as u64;
    let base = if need_change {
        seq![
            TxOutV { value: 0, script_pubkey: directive },
            TxOutV { value: postage, script_pubkey: sender_spk },
            TxOutV { value: postage, script_pubkey: receiver_spk },
        ]
    } else {
        seq![TxOutV { value: postage, script_pubkey: receiver_spk }]
    };
    assert(output_sum(base) == if need_change {
        2 * postage
    } else {
        postage as int
    }) by {
        assert(output_sum(Seq::<TxOutV>::empty()) == 0);
        if need_change {
            let b1 = base.drop_last();
            let b2 = b1.drop_last();
            assert(b2.drop_last() =~= Seq::<TxOutV>::empty());
            assert(output_sum(b2) == b2.last().value + output_sum(b2.drop_last()));
            assert(output_sum(b1) == b1.last().value + output_sum(b2));
            assert(output_sum(base) == base.last().value + output_sum(b1));
        } else {
            assert(base.drop_last() =~= Seq::<TxOutV>::empty());
        }
    }
    if remaining >= crate::DUST_THRESHOLD {
        let outs = base.push(TxOutV { value: remaining, script_pubkey: fee_payer_spk });
        assert(outs.drop_last() =~= base);
    }
}

/// Under outpoint uniqueness, a pool never holds the same output twice.
proof fn lemma_unique_count(s: Seq<Utxo>)
    requires
        unique_outpoints(s),
    ensures
        forall|v: Utxo| #[trigger] s.to_multiset().count(v) <= 1,
    decreases s.len(),
{
    s.to_multiset_ensures();
    if s.len() > 0 {
        let front = s.drop_last();
        assert(unique_outpoints(front)) by {
            assert(forall|i: int| 0 <= i < front.len() ==> front[i] == s[i]);
        }
        lemma_unique_count(front);
        front.to_multiset_ensures();
        assert(s =~= front.push(s.last()));
        assert(s.to_multiset() =~= front.to_multiset().insert(s.last()));
        assert forall|v: Utxo| #[trigger] s.to_multiset().count(v) <= 1 by {
            if v == s.last() {
                assert(!front.contains(v)) by {
                    if front.contains(v) {
                        let i = choose|i: int| 0 <= i < front.len() && front[i] == v;
                        assert(same_outpoint(s[i].outpoint, s[s.len() - 1].outpoint));
                    }
                }
                assert(front.to_multiset().count(v) == 0);
            }
        }
    }
}

/// No double spend under interleaving: when one draft takes `t1` from a pool
/// and a second draft then takes `t2` from what remains, the two never
/// consume the same outpoint — so drafts built from one pool can never spend
/// an output twice, however their work interleaves.
pub proof fn lemma_no_double_spend(
    orig: Seq<Utxo>,
    mid: Seq<Utxo>,
    t1: Seq<Utxo>,
    fin: Seq<Utxo>,
    t2: Seq<Utxo>,
)
    requires
        unique_outpoints(orig),
        mid.to_multiset().add(t1.to_multiset()) == orig.to_multiset(),
        fin.to_multiset().add(t2.to_multiset()) == mid.to_multiset(),
    ensures
        forall|i: int, j: int|
            0 <= i < t1.len() && 0 <= j < t2.len() ==> !same_outpoint(
                t1[i].outpoint,
                t2[j].outpoint,
            ),
{
    lemma_unique_count(orig);
    orig.to_multiset_ensures();
    mid.to_multiset_ensures();
    fin.to_multiset_ensures();
    t1.to_multiset_ensures();
    t2.to_multiset_ensures();
    assert forall|i: int, j: int|
        0 <= i < t1.len() && 0 <= j < t2.len() implies !same_outpoint(
        t1[i].outpoint,
        t2[j].outpoint,
    ) by {
        let u1 = t1[i];
        let u2 = t2[j];
        assert(t1.contains(u1));
        assert(t2.contains(u2));
        assert(t1.to_multiset().count(u1) > 0);
        assert(t2.to_multiset().count(u2) > 0);
        assert(orig.to_multiset().count(u1) >= t1.to_multiset().count(u1));
        assert(mid.to_multiset().count(u2) >= t2.to_multiset().count(u2));
        assert(orig.to_multiset().count(u2) >= mid.to_multiset().count(u2));
        if u1 == u2 {
            assert(orig.to_multiset().count(u1) >= t1.to_multiset().count(u1)
                + t2.to_multiset().count(u1));
            assert(orig.to_multiset().count(u1) >= 2);
        } else {
            if same_outpoint(u1.outpoint, u2.outpoint) {
                assert(orig.contains(u1));
                assert(orig.contains(u2));
                let a = choose|a: int| 0 <= a < orig.len() && orig[a] == u1;
                let b = choose|b: int| 0 <= b < orig.len() && orig[b] == u2;
                assert(a != b);
                if a < b {
                    assert(!same_outpoint(orig[a].outpoint, orig[b].outpoint));
                } else {
                    assert(!same_outpoint(orig[b].outpoint, orig[a].outpoint));
                }
            }
        }
    }
}

} // verus!

verus! {

/// Conservation for a commit transaction: the selected input value equals the
/// committed target plus the fee, plus the change output or, when the change
/// fell below the dust threshold, a forfeit of that remainder to the fee.
pub proof fn lemma_commit_conservation(
    total: int,
    target: u64,
    fee: int,
    recipient_spk: Seq<u8>,
    payer_spk: Seq<u8>,
)
    requires
        total >= target + fee,
        fee >= 0,
        total - target - fee <= u64::MAX,
    ensures
        ({
            let remaining = (total - target - fee) as u64;
            let outs = commit_outputs(target, recipient_spk, remaining, payer_spk);
            if remaining >= crate::DUST_THRESHOLD {
                total == output_sum(outs) + fee
            } else {
                total == output_sum(outs) + fee + remaining
            }
        }),
{
    let remaining = (total - target - fee) as u64;
    let base = seq![TxOutV { value: target, script_pubkey: recipient_spk }];
    assert(output_sum(base) == target) by {
        assert(base.drop_last() =~= Seq::<TxOutV>::empty());
        assert(output_sum(Seq::<TxOutV>::empty()) == 0);
    }
    if remaining >= crate::DUST_THRESHOLD {
        let outs = base.push(TxOutV { value: remaining, script_pubkey: payer_spk });
        assert(outs.drop_last() =~= base);
    }
}

/// Conservation for a combined transfer when the fee payer is the bitcoin
/// sender: all bitcoin that entered (carried by rune inputs or selected)
/// leaves through the outputs and the fee, up to a sub-dust forfeit.
pub proof fn lemma_combined_conservation_same_payer(
    carried: u64,
    btc_total: u64,
    need_change: bool,
    directive: Seq<u8>,
    rune_sender_spk: Seq<u8>,
    rune_receiver_spk: Seq<u8>,
    postage: u64,
    bitcoin_amount: u64,
    bitcoin_receiver_spk: Seq<u8>,
    fee: u64,
    bitcoin_sender_spk: Seq<u8>,
)
    requires
        ({
            let postage_due = (if need_change {
                2 * postage
            } else {
                postage as int
            }) - carried;
            &&& postage_due >= 0
            &&& btc_total >= bitcoin_amount + fee + postage_due
            &&& btc_total - bitcoin_amount - fee - postage_due <= u64::MAX
        }),
    ensures
        ({
            let postage_due = (if need_change {
                2 * postage
            } else {
                postage as int
            }) - carried;
            let remaining = (btc_total - bitcoin_amount - fee - postage_due) as u64;
            let outs = combined_outputs(
                need_change,
                directive,
                rune_sender_spk,
                rune_receiver_spk,
                postage,
                bitcoin_amount,
                bitcoin_receiver_spk,
                true,
                remaining,
                0u64,
                bitcoin_sender_spk,
                bitcoin_sender_spk,
            );
            if remaining >= crate::DUST_THRESHOLD {
                carried + btc_total == output_sum(outs) + fee
            } else {
                carried + btc_total == output_sum(outs) + fee + remaining
            }
        }),
{
    let postage_due = (if need_change {
        2 * postage
    } else {
        postage as int
    }) - carried;
    let remaining = (btc_total - bitcoin_amount - fee - postage_due) as u64;
    let rune_part = if need_change {
        seq![
            TxOutV { value: 0, script_pubkey: directive },
            TxOutV { value: postage, script_pubkey: rune_sender_spk },
            TxOutV { value: postage, script_pubkey: rune_receiver_spk },
        ]
    } else {
        seq![TxOutV { value: postage, script_pubkey: rune_receiver_spk }]
    };
    assert(output_sum(rune_part) == if need_change {
        2 * postage
    } else {
        postage as int
    }) by {
        assert(output_sum(Seq::<TxOutV>::empty()) == 0);
        if need_change {
            let b1 = rune_part.drop_last();
            let b2 = b1.drop_last();
            assert(b2.drop_last() =~= Seq::<TxOutV>::empty());
            assert(output_sum(b2) == b2.last().value + output_sum(b2.drop_last()));
            assert(output_sum(b1) == b1.last().value + output_sum(b2));
            assert(output_sum(rune_part) == rune_part.last().value + output_sum(b1));
        } else {
            assert(rune_part.drop_last() =~= Seq::<TxOutV>::empty());
        }
    }
    let with_receiver = rune_part.push(
        TxOutV { value: bitcoin_amount, script_pubkey: bitcoin_receiver_spk },
    );
    assert(with_receiver.drop_last() =~= rune_part);
    assert(output_sum(with_receiver) == output_sum(rune_part) + bitcoin_amount);
    let spec_outs = combined_outputs(
        need_change,
        directive,
        rune_sender_spk,
        rune_receiver_spk,
        postage,
        bitcoin_amount,
        bitcoin_receiver_spk,
        true,
        remaining,
        0u64,
        bitcoin_sender_spk,
        bitcoin_sender_spk,
    );
    if remaining >= crate::DUST_THRESHOLD {
        let outs = with_receiver.push(TxOutV { value: remaining, script_pubkey: bitcoin_sender_spk });
        assert(outs.drop_last() =~= with_receiver);
        assert(output_sum(outs) == output_sum(with_receiver) + remaining);
        assert(spec_outs =~= outs);
    } else {
        assert(spec_outs =~= with_receiver);
    }
}

} // verus!

verus! {

/// Conservation for a combined transfer when the fee payer is a separate
/// role: all bitcoin that entered — carried by rune inputs, the bitcoin
/// sender's inputs, the fee payer's inputs — leaves through the outputs and
/// the fee, with each of the two change remainders forfeited to the fee
/// exactly when it falls below the dust threshold.
pub proof fn lemma_combined_conservation_split_payer(
    carried: u64,
    btc_total: u64,
    fee_total: u64,
    need_change: bool,
    directive: Seq<u8>,
    rune_sender_spk: Seq<u8>,
    rune_receiver_spk: Seq<u8>,
    postage: u64,
    bitcoin_amount: u64,
    bitcoin_receiver_spk: Seq<u8>,
    fee: u64,
    bitcoin_sender_spk: Seq<u8>,
    fee_payer_spk: Seq<u8>,
)
    requires
        ({
            let postage_due = (if need_change {
                2 * postage
            } else {
                postage as int
            }) - carried;
            &&& postage_due >= 0
            &&& btc_total >= bitcoin_amount
            &&& fee_total >= fee + postage_due
        }),
    ensures
        ({
            let postage_due = (if need_change {
                2 * postage
            } else {
                postage as int
            }) - carried;
            let btc_remaining = (btc_total - bitcoin_amount) as u64;
            let fee_remaining = (fee_total - fee - postage_due) as u64;
            let outs = combined_outputs(
                need_change,
                directive,
                rune_sender_spk,
                rune_receiver_spk,
                postage,
                bitcoin_amount,
                bitcoin_receiver_spk,
                false,
                btc_remaining,
                fee_remaining,
                bitcoin_sender_spk,
                fee_payer_spk,
            );
            let btc_forfeit: int = if btc_remaining >= crate::DUST_THRESHOLD {
                0
            } else {
                btc_remaining as int
            };
            let fee_forfeit: int = if fee_remaining >= crate::DUST_THRESHOLD {
                0
            } else {
                fee_remaining as int
            };
            carried + btc_total + fee_total == output_sum(outs) + fee + btc_forfeit + fee_forfeit
        }),
{
    let postage_due = (if need_change {
        2 * postage
    } else {
        postage as int
    }) - carried;
    let btc_remaining = (btc_total - bitcoin_amount) as u64;
    let fee_remaining = (fee_total - fee - postage_due) as u64;
    let rune_part = if need_change {
        seq![
            TxOutV { value: 0, script_pubkey: directive },
            TxOutV { value: postage, script_pubkey: rune_sender_spk },
            TxOutV { value: postage, script_pubkey: rune_receiver_spk },
        ]
    } else {
        seq![TxOutV { value: postage, script_pubkey: rune_receiver_spk }]
    };
    assert(output_sum(rune_part) == if need_change {
        2 * postage
    } else {
        postage as int
    }) by {
        assert(output_sum(Seq::<TxOutV>::empty()) == 0);
        if need_change {
            let b1 = rune_part.drop_last();
            let b2 = b1.drop_last();
            assert(b2.drop_last() =~= Seq::<TxOutV>::empty());
            assert(output_sum(b2) == b2.last().value + output_sum(b2.drop_last()));
            assert(output_sum(b1) == b1.last().value + output_sum(b2));
            assert(output_sum(rune_part) == rune_part.last().value + output_sum(b1));
        } else {
            assert(rune_part.drop_last() =~= Seq::<TxOutV>::empty());
        }
    }
    let with_receiver = rune_part.push(
        TxOutV { value: bitcoin_amount, script_pubkey: bitcoin_receiver_spk },
    );
    assert(with_receiver.drop_last() =~= rune_part);
    assert(output_sum(with_receiver) == output_sum(rune_part) + bitcoin_amount);
    let w1 = if btc_remaining >= crate::DUST_THRESHOLD {
        with_receiver.push(TxOutV { value: btc_remaining, script_pubkey: bitcoin_sender_spk })
    } else {
        with_receiver
    };
    if btc_remaining >= crate::DUST_THRESHOLD {
        assert(w1.drop_last() =~= with_receiver);
        assert(output_sum(w1) == output_sum(with_receiver) + btc_remaining);
    }
    let spec_outs = combined_outputs(
        need_change,
        directive,
        rune_sender_spk,
        rune_receiver_spk,
        postage,
        bitcoin_amount,
        bitcoin_receiver_spk,
        false,
        btc_remaining,
        fee_remaining,
        bitcoin_sender_spk,
        fee_payer_spk,
    );
    if fee_remaining >= crate::DUST_THRESHOLD {
        let outs = w1.push(TxOutV { value: fee_remaining, script_pubkey: fee_payer_spk });
        assert(outs.drop_last() =~= w1);
        assert(output_sum(outs) == output_sum(w1) + fee_remaining);
        assert(spec_outs =~= outs);
    } else {
        assert(spec_outs =~= w1);
    }
}

} // verus!
