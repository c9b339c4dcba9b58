use rune_engine::etch::{etch, EtchingArgs};
use rune_engine::runestone::{
    commitment_of_rune, decipher_runestone, parse_spaced_rune, rune_is_reserved, validate_etching,
    Artifact, EtchValidationError,
};
use rune_engine::types::{Account, Address, Network, Outpoint, Utxo};
use rune_engine::utxo_manager::UtxoManager;

fn p2pkh_spk(tag: u8) -> Vec<u8> {
    let mut spk = vec![0x76, 0xa9, 0x14];
    spk.extend_from_slice(&[tag; 20]);
    spk.push(0x88);
    spk.push(0xac);
    spk
}

fn addr(name: &str, tag: u8) -> Address {
    Address { text: name.to_string(), script_pubkey: p2pkh_spk(tag) }
}

fn utxo(seed: u8, value: u64) -> Utxo {
    Utxo { outpoint: Outpoint { txid: vec![seed; 32], vout: seed as u32 }, value, height: 10 }
}

fn test_pubkey() -> Vec<u8> {
    hex::decode("0279be667ef9dcbbac55a06295ce870b07029bfcdb2dce28d959f2815b16f81798").unwrap()
}

#[test]
fn etching_round_trip_decodes_to_intended_directive() {
    let mut pool = UtxoManager::new();
    let payer = addr("payer", 1);
    pool.record_bitcoin_utxos(&payer.text, vec![utxo(1, 40_000), utxo(2, 80_000)]);
    let sr = parse_spaced_rune(&"TESTRUNE".to_string()).unwrap();
    let args = EtchingArgs {
        reveal_address: addr("agent", 2),
        logo: None,
        content_type: None,
        spaced_rune: sr,
        premine: 500,
        divisibility: 3,
        symbol: Some('R'),
        turbo: true,
        fee_payer: addr("payer", 1),
        fee_payer_account: Account { owner: vec![9], subaccount: None },
        fee_per_vbytes: 2000,
        schnorr_public_key: test_pubkey(),
        network: Network::Regtest,
    };
    let plan = etch(&mut pool, args).unwrap();
    // The assembled reveal transaction's data-carrier output decodes back to
    // exactly the directive that was intended.
    match decipher_runestone(&plan.reveal).unwrap() {
        Artifact::Runestone(found) => {
            let e = found.etching.unwrap();
            assert_eq!(e.divisibility, Some(3));
            assert_eq!(e.premine, Some(500));
            assert_eq!(e.rune, Some(sr.rune));
            assert_eq!(e.spacers, Some(0));
            assert_eq!(e.symbol, Some('R'));
            assert!(e.turbo);
            assert!(e.terms.is_none());
            assert!(found.edicts.is_empty());
            assert_eq!(found.pointer, Some(0));
            assert!(found.mint.is_none());
        },
        Artifact::Cenotaph => panic!("the reveal decoded to a cenotaph"),
    }
    // The premine output carries the fixed postage; the directive output is a
    // data carrier.
    assert_eq!(plan.reveal.output[0].value, 10_000);
    assert_eq!(plan.reveal.output[1].value, 0);
    assert_eq!(plan.reveal.output[1].script_pubkey[0], 0x6a);
    assert!(plan.reveal.output[1].script_pubkey.len() <= 83);
    // The reveal spends the commit transaction's first output.
    assert_eq!(plan.reveal.input.len(), 1);
    assert_eq!(plan.reveal.input[0].previous_output.vout, 0);
    assert_eq!(plan.commit.output[0].script_pubkey, plan.commit_tx_address.script_pubkey);
    assert_eq!(plan.commit_txid.len(), 64);
    assert_eq!(plan.reveal_txid.len(), 64);
    // Conservation on the commit side.
    let input_sum: u64 = plan.fee_utxos.iter().map(|u| u.value).sum();
    let output_sum: u64 = plan.commit.output.iter().map(|o| o.value).sum();
    assert!(input_sum > output_sum);
}

#[test]
fn etching_insufficiency_restores_pool() {
    let mut pool = UtxoManager::new();
    let payer = addr("payer", 1);
    pool.record_bitcoin_utxos(&payer.text, vec![utxo(1, 700)]);
    let sr = parse_spaced_rune(&"TESTRUNE".to_string()).unwrap();
    let args = EtchingArgs {
        reveal_address: addr("agent", 2),
        logo: None,
        content_type: None,
        spaced_rune: sr,
        premine: 500,
        divisibility: 3,
        symbol: Some('R'),
        turbo: true,
        fee_payer: addr("payer", 1),
        fee_payer_account: Account { owner: vec![9], subaccount: None },
        fee_per_vbytes: 2000,
        schnorr_public_key: test_pubkey(),
        network: Network::Regtest,
    };
    assert!(etch(&mut pool, args).is_err());
    assert_eq!(pool.get_bitcoin_balance(&"payer".to_string()), 700);
}

#[test]
fn validate_etching_accepts_a_plain_name() {
    let (sr, total, sym) =
        validate_etching(&"TESTRUNE".to_string(), Some('R' as u32), 3, 1_000_000).unwrap();
    assert_eq!(sr.spacers, 0);
    assert!(!rune_is_reserved(sr.rune));
    assert_eq!(total, 1_000_000_000);
    assert_eq!(sym, Some('R'));
}

#[test]
fn validate_etching_rejects_bad_requests() {
    assert!(matches!(
        validate_etching(&"TEST8RUNE".to_string(), None, 3, 10),
        Err(EtchValidationError::InvalidName)
    ));
    assert!(matches!(
        validate_etching(&"BCGDENLQRQWDSLRUGSNLBTMFIJAV".to_string(), None, 3, 10),
        Err(EtchValidationError::Reserved { .. })
    ));
    assert!(matches!(
        validate_etching(&"TESTRUNE".to_string(), None, 39, 10),
        Err(EtchValidationError::DivisibilityTooHigh { divisibility: 39 })
    ));
    assert!(matches!(
        validate_etching(&"TESTRUNE".to_string(), None, 3, 0),
        Err(EtchValidationError::ZeroSupply)
    ));
    assert!(matches!(
        validate_etching(&"TESTRUNE".to_string(), None, 38, u128::MAX / 2),
        Err(EtchValidationError::SupplyOverflow)
    ));
    assert!(matches!(
        validate_etching(&"TESTRUNE".to_string(), Some(0xD800), 3, 10),
        Err(EtchValidationError::InvalidSymbol { codepoint: 0xD800 })
    ));
}

#[test]
fn commitment_matches_protocol_form() {
    // Little-endian bytes with trailing zeros removed, checked against the
    // protocol library's own commitment.
    assert_eq!(commitment_of_rune(0), Vec::<u8>::new());
    assert_eq!(commitment_of_rune(0x1234), vec![0x34, 0x12]);
    let sr = parse_spaced_rune(&"TESTRUNE".to_string()).unwrap();
    assert_eq!(commitment_of_rune(sr.rune), ordinals::Rune(sr.rune).commitment());
}

#[test]
fn spaced_rune_parse_matches_protocol_library() {
    let sr = parse_spaced_rune(&"TEST.RUNE".to_string()).unwrap();
    assert_eq!(sr.spacers, 0b1000);
    let direct: ordinals::SpacedRune = "TEST.RUNE".parse().unwrap();
    assert_eq!(sr.rune, direct.rune.0);
    assert_eq!(sr.spacers, direct.spacers);
    assert!(parse_spaced_rune(&".LEADING".to_string()).is_none());
}

#[test]
fn deep_spacer_names_are_rejected_up_front() {
    // Thirty-three letters and then a spacer: the protocol parser's spacer
    // bit would leave its field, so validation refuses the name outright.
    let name = format!("{}.A", "A".repeat(33));
    assert!(matches!(
        validate_etching(&name, None, 3, 10),
        Err(EtchValidationError::InvalidName)
    ));
    // A spacer deep in an ordinary-length name is still within range.
    let fine = format!("{}.A", "A".repeat(25));
    assert!(validate_etching(&fine, None, 3, 10).is_ok());
}
