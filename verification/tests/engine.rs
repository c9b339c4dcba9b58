use rune_engine::bytes::{slice_to_txid, txid_to_string};
use rune_engine::signer::{mock_schnorr_signature, sec1_to_der};
use rune_engine::transaction::{
    build_transaction_with_fee, mock_ecdsa_signature, transaction_vsize, transfer, BtcTransferArgs,
    BuildError,
};
use rune_engine::types::{Account, Address, Outpoint, RuneId, RunicUtxo, Utxo};
use rune_engine::utxo_manager::UtxoManager;
use rune_engine::DUST_THRESHOLD;

fn p2pkh_spk(tag: u8) -> Vec<u8> {
    let mut spk = vec![0x76, 0xa9, 0x14];
    spk.extend_from_slice(&[tag; 20]);
    spk.push(0x88);
    spk.push(0xac);
    spk
}

fn addr(name: &str, tag: u8) -> Address {
    Address { text: name.to_string(), script_pubkey: p2pkh_spk(tag) }
}

fn utxo(seed: u8, value: u64) -> Utxo {
    Utxo { outpoint: Outpoint { txid: vec![seed; 32], vout: seed as u32 }, value, height: 10 }
}

fn account() -> Account {
    Account { owner: vec![1, 2, 3], subaccount: None }
}

fn test_pubkey() -> Vec<u8> {
    // The secp256k1 generator point, SEC1-compressed.
    hex::decode("0279be667ef9dcbbac55a06295ce870b07029bfcdb2dce28d959f2815b16f81798").unwrap()
}

#[test]
fn smallest_first_selection() {
    let mut pool = UtxoManager::new();
    let a = "alpha".to_string();
    pool.record_bitcoin_utxos(&a, vec![utxo(1, 10000), utxo(2, 100), utxo(3, 500)]);
    let first = pool.get_bitcoin_utxo(&a).unwrap();
    assert_eq!(first.value, 100);
    let second = pool.get_bitcoin_utxo(&a).unwrap();
    assert_eq!(second.value, 500);
    let third = pool.get_bitcoin_utxo(&a).unwrap();
    assert_eq!(third.value, 10000);
    assert!(pool.get_bitcoin_utxo(&a).is_none());
}

#[test]
fn record_is_idempotent_by_outpoint() {
    let mut pool = UtxoManager::new();
    let a = "alpha".to_string();
    pool.record_bitcoin_utxos(&a, vec![utxo(1, 700)]);
    pool.record_bitcoin_utxos(&a, vec![utxo(1, 700), utxo(2, 300)]);
    assert_eq!(pool.get_bitcoin_balance(&a), 1000);
}

#[test]
fn runic_pool_smallest_balance_first() {
    let mut pool = UtxoManager::new();
    let a = "alpha".to_string();
    let rid = RuneId { block: 840000, tx: 1 };
    pool.record_runic_utxos(
        &a,
        rid,
        vec![
            RunicUtxo { utxo: utxo(1, 546), balance: 70 },
            RunicUtxo { utxo: utxo(2, 546), balance: 30 },
        ],
    );
    assert_eq!(pool.get_runestone_balance(&a, &rid), 100);
    let first = pool.get_runic_utxo(&a, rid).unwrap();
    assert_eq!(first.balance, 30);
    assert!(pool.is_recorded_as_runic(&a, &utxo(1, 546)));
    assert!(!pool.is_recorded_as_runic(&a, &utxo(9, 546)));
    let all = pool.all_rune_with_balances(&a);
    assert_eq!(all.len(), 1);
    assert_eq!(all[0].1, 70);
}

#[test]
fn der_conversion_pads_high_r() {
    let mut sig = vec![0u8; 64];
    sig[0] = 0x80;
    sig[32] = 0x01;
    let der = sec1_to_der(sig);
    // r gains a leading zero byte, s does not.
    assert_eq!(der[0], 0x30);
    assert_eq!(der[1], 4 + 33 + 32);
    assert_eq!(der[2], 0x02);
    assert_eq!(der[3], 33);
    assert_eq!(der[4], 0x00);
    assert_eq!(der[5], 0x80);
    assert_eq!(der[4 + 33], 0x02);
    assert_eq!(der[5 + 33], 32);
    assert_eq!(der[6 + 33], 0x01);
    assert_eq!(der.len(), 6 + 33 + 32);
}

#[test]
fn der_conversion_low_components_unpadded() {
    let mut sig = vec![0u8; 64];
    sig[0] = 0x7f;
    sig[32] = 0x7f;
    let der = sec1_to_der(sig);
    assert_eq!(der[1], 4 + 32 + 32);
    assert_eq!(der[3], 32);
    assert_eq!(der[4], 0x7f);
    assert_eq!(der.len(), 6 + 32 + 32);
}

#[test]
fn mock_schnorr_signature_is_64_zero_bytes() {
    let sig = mock_schnorr_signature();
    assert_eq!(sig, vec![0u8; 64]);
}

#[test]
fn txid_display_is_reversed_hex() {
    let mut txid = vec![0u8; 32];
    txid[0] = 0xab;
    txid[31] = 0x01;
    let s = txid_to_string(&txid);
    assert_eq!(s.len(), 64);
    assert!(s.starts_with("01"));
    assert!(s.ends_with("ab"));
    let copied = slice_to_txid(&txid);
    assert_eq!(copied, txid);
}

#[test]
fn transfer_conserves_value_and_converges() {
    let mut pool = UtxoManager::new();
    let sender = addr("sender", 1);
    let receiver = addr("receiver", 2);
    pool.record_bitcoin_utxos(&sender.text, vec![utxo(1, 30000), utxo(2, 60000)]);
    let args = BtcTransferArgs {
        sender: addr("sender", 1),
        receiver,
        sender_account: account(),
        amount: 25000,
        paid_by_sender: true,
        fee_per_vbytes: 2000,
    };
    let draft = transfer(&mut pool, args, test_pubkey()).unwrap();
    match draft {
        rune_engine::txn_handler::TransactionType::Bitcoin { utxos, txn, .. } => {
            // The real fee, recomputed exactly as the builder measured it.
            let signed = mock_ecdsa_signature(&txn, &test_pubkey());
            let fee = transaction_vsize(&signed) * 2000 / 1000;
            let input_sum: u64 = utxos.iter().map(|u| u.value).sum();
            let output_sum: u64 = txn.output.iter().map(|o| o.value).sum();
            let forfeited = input_sum - output_sum - fee;
            assert!(forfeited < DUST_THRESHOLD);
            assert_eq!(input_sum, output_sum + fee + forfeited);
            assert_eq!(txn.output[0].value, 25000);
            // The fee leaves the sender's pool poorer by exactly the spent inputs.
            assert_eq!(pool.get_bitcoin_balance(&"sender".to_string()), 90000 - input_sum);
        },
        _ => panic!("expected a plain bitcoin draft"),
    }
}

#[test]
fn insufficient_funds_restores_pool() {
    let mut pool = UtxoManager::new();
    let sender = addr("sender", 1);
    let receiver = addr("receiver", 2);
    pool.record_bitcoin_utxos(&sender.text, vec![utxo(1, 700), utxo(2, 900)]);
    let before = pool.get_bitcoin_balance(&sender.text);
    let args = BtcTransferArgs {
        sender: addr("sender", 1),
        receiver,
        sender_account: account(),
        amount: 5000,
        paid_by_sender: true,
        fee_per_vbytes: 2000,
    };
    let r = transfer(&mut pool, args, test_pubkey());
    match r {
        Err(BuildError::InsufficientBitcoin { required }) => {
            assert!(required >= 5000);
        },
        other => panic!("expected an insufficiency error, got {:?}", other.is_ok()),
    }
    assert_eq!(pool.get_bitcoin_balance(&"sender".to_string()), before);
}

#[test]
fn dust_receiver_output_is_fatal() {
    let mut pool = UtxoManager::new();
    let sender = addr("sender", 1);
    let receiver = addr("receiver", 2);
    pool.record_bitcoin_utxos(&sender.text, vec![utxo(1, 50000)]);
    let r = build_transaction_with_fee(&mut pool, &sender, &receiver, 300, true, 0);
    match r {
        Err(BuildError::Dust { output_value, minimum }) => {
            assert_eq!(output_value, 300);
            assert!(minimum > 300);
        },
        _ => panic!("expected a dust error"),
    }
    assert_eq!(pool.get_bitcoin_balance(&sender.text), 50000);
}

#[test]
fn no_double_spend_across_interleaved_builds() {
    let mut pool = UtxoManager::new();
    let sender = addr("sender", 1);
    let receiver = addr("receiver", 2);
    pool.record_bitcoin_utxos(&sender.text, vec![utxo(1, 1500), utxo(2, 2000)]);
    let (txn1, taken1) =
        build_transaction_with_fee(&mut pool, &sender, &receiver, 900, true, 0).unwrap();
    let (txn2, taken2) =
        build_transaction_with_fee(&mut pool, &sender, &receiver, 900, true, 0).unwrap();
    for a in &taken1 {
        for b in &taken2 {
            assert!(
                a.outpoint.txid != b.outpoint.txid || a.outpoint.vout != b.outpoint.vout,
                "one outpoint was consumed twice"
            );
        }
    }
    assert!(!txn1.input.is_empty() && !txn2.input.is_empty());
    // With funds enough for only one more draft, the third request fails.
    let r = build_transaction_with_fee(&mut pool, &sender, &receiver, 900, true, 0);
    assert!(r.is_err());
}
