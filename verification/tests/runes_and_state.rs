use rune_engine::ledger::BalanceEntries;
use rune_engine::prize_pool::PrizePool;
use rune_engine::rune_transfer::{transfer as rune_transfer, RuneTransferArgs};
use rune_engine::combined::{transfer as combined_transfer, CombinedTransferArgs};
use rune_engine::runestone::{decipher_runestone, Artifact};
use rune_engine::signer::{
    account_to_derivation_path, account_to_p2pkh_address, base58_encode, ripemd160, sha256,
    EcdsaPublicKey,
};
use rune_engine::txn_handler::{
    should_broadcast_reveal, ScheduledState, ScheduledTransaction, SignerRole, TransactionType,
};
use rune_engine::types::{Account, Address, Outpoint, RuneId, RunicUtxo, Utxo};
use rune_engine::utxo_manager::UtxoManager;

fn p2pkh_spk(tag: u8) -> Vec<u8> {
    let mut spk = vec![0x76, 0xa9, 0x14];
    spk.extend_from_slice(&[tag; 20]);
    spk.push(0x88);
    spk.push(0xac);
    spk
}

fn addr(name: &str, tag: u8) -> Address {
    Address { text: name.to_string(), script_pubkey: p2pkh_spk(tag) }
}

fn utxo(seed: u8, value: u64) -> Utxo {
    Utxo { outpoint: Outpoint { txid: vec![seed; 32], vout: seed as u32 }, value, height: 10 }
}

fn account() -> Account {
    Account { owner: vec![1, 2, 3], subaccount: None }
}

fn test_pubkey() -> Vec<u8> {
    hex::decode("0279be667ef9dcbbac55a06295ce870b07029bfcdb2dce28d959f2815b16f81798").unwrap()
}

#[test]
fn rune_transfer_builds_change_directive() {
    let mut pool = UtxoManager::new();
    let sender = addr("runesender", 1);
    let receiver = addr("runereceiver", 2);
    let payer = addr("feepayer", 3);
    let rid = RuneId { block: 840000, tx: 5 };
    pool.record_runic_utxos(
        &sender.text,
        rid,
        vec![RunicUtxo { utxo: utxo(1, 546), balance: 100 }],
    );
    pool.record_bitcoin_utxos(&payer.text, vec![utxo(2, 100_000)]);
    let args = RuneTransferArgs {
        runeid: rid,
        rune_amount: 40,
        rune_sender: addr("runesender", 1),
        rune_receiver: receiver,
        rune_sender_account: account(),
        fee_payer: addr("feepayer", 3),
        fee_payer_account: account(),
        postage: None,
        fee_per_vbytes: 2000,
    };
    let draft = rune_transfer(&mut pool, args, test_pubkey()).unwrap();
    match &draft {
        TransactionType::Rune { runic_utxos, fee_utxos, fee, txn, postage, .. } => {
            assert_eq!(*postage, 10_000);
            // 100 runes consumed for a 40-rune transfer: an explicit change
            // directive is required.
            assert_eq!(txn.output[0].value, 0);
            assert_eq!(txn.output[0].script_pubkey[0], 0x6a);
            assert_eq!(txn.output[1].value, 10_000);
            assert_eq!(txn.output[2].value, 10_000);
            match decipher_runestone(txn).unwrap() {
                Artifact::Runestone(r) => {
                    assert_eq!(r.edicts.len(), 1);
                    assert_eq!(r.edicts[0].amount, 40);
                    assert_eq!(r.edicts[0].output, 2);
                    assert_eq!(r.edicts[0].block, 840000);
                    assert_eq!(r.edicts[0].tx, 5);
                },
                Artifact::Cenotaph => panic!("the transfer decoded to a cenotaph"),
            }
            // Conservation across both asset classes of bitcoin value.
            let carried: u64 = runic_utxos.iter().map(|u| u.utxo.value).sum();
            let paid: u64 = fee_utxos.iter().map(|u| u.value).sum();
            let out: u64 = txn.output.iter().map(|o| o.value).sum();
            let forfeited = carried + paid - out - *fee;
            assert!(forfeited < rune_engine::DUST_THRESHOLD);
            // The draft signs rune inputs with the sender role and the rest
            // with the fee payer's.
            assert_eq!(draft_role(&draft, 0), SignerRole::AssetSender);
            assert_eq!(draft_role(&draft, runic_utxos.len()), SignerRole::FeePayer);
        },
        _ => panic!("expected a rune draft"),
    }
}

fn draft_role(t: &TransactionType, index: usize) -> SignerRole {
    t.input_role(index)
}

#[test]
fn rune_transfer_insufficiency_restores_both_pools() {
    let mut pool = UtxoManager::new();
    let sender = addr("runesender", 1);
    let payer = addr("feepayer", 3);
    let rid = RuneId { block: 840000, tx: 5 };
    pool.record_runic_utxos(
        &sender.text,
        rid,
        vec![RunicUtxo { utxo: utxo(1, 546), balance: 100 }],
    );
    pool.record_bitcoin_utxos(&payer.text, vec![utxo(2, 500)]);
    let args = RuneTransferArgs {
        runeid: rid,
        rune_amount: 40,
        rune_sender: addr("runesender", 1),
        rune_receiver: addr("runereceiver", 2),
        rune_sender_account: account(),
        fee_payer: addr("feepayer", 3),
        fee_payer_account: account(),
        postage: None,
        fee_per_vbytes: 2000,
    };
    assert!(rune_transfer(&mut pool, args, test_pubkey()).is_err());
    assert_eq!(pool.get_runestone_balance(&"runesender".to_string(), &rid), 100);
    assert_eq!(pool.get_bitcoin_balance(&"feepayer".to_string()), 500);
}

#[test]
fn combined_transfer_moves_both_assets() {
    let mut pool = UtxoManager::new();
    let rid = RuneId { block: 840000, tx: 5 };
    pool.record_runic_utxos(
        &"runesender".to_string(),
        rid,
        vec![RunicUtxo { utxo: utxo(1, 546), balance: 100 }],
    );
    pool.record_bitcoin_utxos(&"btcsender".to_string(), vec![utxo(2, 200_000)]);
    let args = CombinedTransferArgs {
        runeid: rid,
        rune_amount: 100,
        rune_sender: addr("runesender", 1),
        rune_sender_account: account(),
        rune_receiver: addr("runereceiver", 2),
        bitcoin_amount: 30_000,
        bitcoin_sender: addr("btcsender", 3),
        bitcoin_sender_account: account(),
        bitcoin_receiver: addr("btcreceiver", 4),
        fee_payer: addr("btcsender", 3),
        fee_payer_account: account(),
        postage: Some(12_000),
        fee_per_vbytes: 2000,
    };
    let draft = combined_transfer(&mut pool, args, test_pubkey()).unwrap();
    match &draft {
        TransactionType::Combined { txn, fee_utxos, postage, .. } => {
            // Exactly the target balance moved with a single rune input: no
            // change directive, the receiver's postage output comes first.
            assert_eq!(*postage, 12_000);
            assert_eq!(txn.output[0].value, 12_000);
            assert_eq!(txn.output[1].value, 30_000);
            // Fee payer and bitcoin sender coincide: no separate fee inputs.
            assert!(fee_utxos.is_empty());
        },
        _ => panic!("expected a combined draft"),
    }
}

#[test]
fn reveal_broadcast_waits_for_confirmations() {
    let confirmed = vec![Utxo {
        outpoint: Outpoint { txid: vec![1; 32], vout: 0 },
        value: 20_000,
        height: 100,
    }];
    assert!(!should_broadcast_reveal(&Vec::new(), 200));
    assert!(!should_broadcast_reveal(&confirmed, 105));
    assert!(should_broadcast_reveal(&confirmed, 106));
}

#[test]
fn scheduled_reveals_are_parked_and_taken_back() {
    let mut state = ScheduledState::new();
    let id = state.get_id();
    assert_eq!(id, 0);
    let txn = rune_engine::transaction::Transaction {
        version: 2,
        lock_time: 0,
        input: Vec::new(),
        output: Vec::new(),
    };
    state.record_txn(
        id,
        ScheduledTransaction { commit_tx_address: "commit".to_string(), txn, timer_id: 7 },
    );
    assert!(state.remove_txn(99).is_none());
    let parked = state.remove_txn(id).unwrap();
    assert_eq!(parked.timer_id, 7);
    assert!(state.remove_txn(id).is_none());
}

#[test]
fn ledger_records_and_deducts() {
    let mut entries = BalanceEntries::new();
    entries.record_rune_balance(4, 1000);
    entries.record_agent_owned_balance(4, 250);
    assert_eq!(entries.restricted_bitcoin_balance, 250);
    entries.deduct_rune_balance(4, 400);
    entries.deduct_agent_owned_balance(4, 100);
    assert_eq!(entries.restricted_bitcoin_balance, 150);
    let entry = entries.ledger_entries.iter().find(|e| e.0 == 4).unwrap().1;
    assert_eq!(entry, (150, 600));
}

#[test]
fn query_prize_pool_reports_the_pot() {
    let pool = PrizePool {
        past_winners: Vec::new(),
        magical_words: "hush".to_string(),
        bitcoin: 4200,
        rune: 77,
    };
    let current = pool.query_prize_pool("840000:5".to_string());
    assert_eq!(current.bitcoin, 4200);
    assert_eq!(current.rune, ("840000:5".to_string(), 77));
}

#[test]
fn p2pkh_address_matches_direct_composition() {
    let master = EcdsaPublicKey { public_key: test_pubkey(), chain_code: vec![0u8; 32] };
    let acct = account();
    let s = account_to_p2pkh_address(false, &master, &acct).unwrap();
    // Recompose the same address directly from the outside crates.
    let path = account_to_derivation_path(&acct);
    let derived = rune_engine::signer::derive_public_key(&master, &path).unwrap();
    let keyhash = ripemd160(&sha256(&derived.public_key));
    let mut raw = vec![0x6fu8];
    raw.extend_from_slice(&keyhash);
    let checksum = sha256(&sha256(&raw));
    raw.extend_from_slice(&checksum[..4]);
    assert_eq!(s, base58_encode(&raw));
    assert!(!s.is_empty());
}

#[test]
fn agent_subaccount_is_the_digest_of_id_and_identity() {
    let service = vec![7u8, 8, 9];
    let sub = rune_engine::signer::generate_subaccount_for_agent(&service, 3);
    // Recompose directly from the hashing crate.
    let mut data = service.clone();
    data.extend_from_slice(&3u128.to_le_bytes());
    let mut expect = [0u8; 32];
    let mut hasher = tiny_keccak::Sha3::v256();
    tiny_keccak::Hasher::update(&mut hasher, &data);
    tiny_keccak::Hasher::finalize(hasher, &mut expect);
    assert_eq!(sub, expect.to_vec());
}

#[test]
fn derivation_path_is_fixed_per_account() {
    let acct = Account { owner: vec![1, 2, 3], subaccount: None };
    let path = account_to_derivation_path(&acct);
    assert_eq!(path.len(), 3);
    assert_eq!(path[0], vec![1u8]);
    assert_eq!(path[1], vec![1, 2, 3]);
    assert_eq!(path[2], vec![0u8; 32]);
    let again = account_to_derivation_path(&acct);
    assert_eq!(path, again);
}

#[test]
fn observed_utxos_never_join_two_sets() {
    let mut pool = UtxoManager::new();
    let a = "alpha".to_string();
    let rid = RuneId { block: 840000, tx: 5 };
    pool.record_runic_utxos(&a, rid, vec![RunicUtxo { utxo: utxo(1, 546), balance: 9 }]);
    // A fresh observation returns the rune-bearing output together with a
    // plain one; only the plain one may enter the bitcoin pool.
    pool.record_observed_utxos(&a, vec![utxo(1, 546), utxo(2, 800)]);
    assert_eq!(pool.get_bitcoin_balance(&a), 800);
    assert!(pool.is_recorded_as_runic(&a, &utxo(1, 546)));
}

#[test]
fn fee_rate_choice_takes_the_median_or_the_default() {
    assert_eq!(
        rune_engine::txn_handler::choose_fee_per_vbyte(&Vec::new()),
        rune_engine::txn_handler::DEFAULT_FEE_MILLISAT_PER_VBYTE
    );
    let mut percentiles = vec![0u64; 101];
    percentiles[50] = 3333;
    assert_eq!(rune_engine::txn_handler::choose_fee_per_vbyte(&percentiles), 3333);
}

#[test]
fn runeid_text_form() {
    let rid = RuneId { block: 840000, tx: 5 };
    assert_eq!(rid.to_text(), "840000:5");
    let zero = RuneId { block: 0, tx: 0 };
    assert_eq!(zero.to_text(), "0:0");
}

#[test]
fn p2pkh_address_requires_a_parsable_master_key() {
    let bad = EcdsaPublicKey { public_key: vec![1, 2, 3], chain_code: vec![0u8; 32] };
    assert!(account_to_p2pkh_address(false, &bad, &account()).is_none());
    let short_chain = EcdsaPublicKey { public_key: test_pubkey(), chain_code: vec![0u8; 31] };
    assert!(account_to_p2pkh_address(false, &short_chain, &account()).is_none());
}

#[test]
fn runeid_text_round_trips() {
    let rid = RuneId { block: 840000, tx: 5 };
    assert_eq!(RuneId::from_text("840000:5"), Some(rid));
    assert_eq!(RuneId::from_text(&rid.to_text()), Some(rid));
    assert_eq!(RuneId::from_text("840000"), None);
    assert_eq!(RuneId::from_text(":5"), None);
    assert_eq!(RuneId::from_text("84a:5"), None);
    assert_eq!(RuneId::from_text("840000:"), None);
    assert_eq!(RuneId::from_text("1:2:3"), None);
    assert_eq!(RuneId::from_text("340282366920938463463374607431768211455:1"), None);
}

#[test]
fn removing_an_outpoint_leaves_the_rest() {
    let mut pool = UtxoManager::new();
    let a = "alpha".to_string();
    pool.record_bitcoin_utxos(&a, vec![utxo(1, 100), utxo(2, 200), utxo(3, 300)]);
    pool.remove_bitcoin_utxo(&a, &utxo(2, 200));
    assert_eq!(pool.get_bitcoin_balance(&a), 400);
    // Removing an unknown outpoint changes nothing.
    pool.remove_bitcoin_utxo(&a, &utxo(9, 999));
    assert_eq!(pool.get_bitcoin_balance(&a), 400);
}
