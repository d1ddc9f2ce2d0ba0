use bitcoin_sdk::hex::{decode_hex, encode_hex};
use bitcoin_sdk::network::NetworkKind;
use bitcoin_sdk::transaction::{
    create_transaction, parse_txid, serialize_transaction, sign_transaction, TransactionError,
    TransactionInput, TransactionOutput, SEQUENCE_RBF_NO_LOCKTIME, SIGHASH_ALL,
};
use bitcoin_sdk::wallet::create_wallet;

const TXID: &str = "e3b0c44298fc1c149afbf4c8996fb92427ae41e4649b934ca495991b7852b855";

fn spend(script: &str) -> TransactionInput {
    TransactionInput { txid: TXID.to_string(), vout: 1, amount: 100_000, script_pubkey: script.to_string() }
}

#[test]
fn hex_round_trip() {
    assert_eq!(decode_hex("00ffA0"), Some(vec![0, 255, 160]));
    assert_eq!(decode_hex("abc"), None);
    assert_eq!(decode_hex("zz"), None);
    assert_eq!(encode_hex(&[0, 255, 160]), "00ffa0");
}

#[test]
fn txid_is_reversed() {
    let t = parse_txid(TXID).unwrap();
    assert_eq!(t[0], 0x55);
    assert_eq!(t[31], 0xe3);
    assert_eq!(parse_txid("e3b0"), None);
}

#[test]
fn end_to_end_build_and_sign() {
    let w = create_wallet(NetworkKind::Testnet).unwrap();
    let script = format!("0014{}", "11".repeat(20));
    let inputs = vec![spend(&script)];
    let outputs = vec![TransactionOutput { address: w.address.clone(), amount: 90_000 }];
    let unsigned = create_transaction(inputs, outputs, NetworkKind::Testnet).unwrap();
    assert_eq!(unsigned.transaction.version, 2);
    assert_eq!(unsigned.transaction.lock_time, 0);
    assert_eq!(unsigned.transaction.input[0].sequence, SEQUENCE_RBF_NO_LOCKTIME);
    assert_eq!(unsigned.transaction.input[0].vout, 1);
    assert_eq!(unsigned.transaction.output[0].value, 90_000);
    assert_eq!(unsigned.transaction.output[0].script_pubkey.len(), 22);
    let signed = sign_transaction(unsigned, vec![w.private_key.as_str()], NetworkKind::Testnet).unwrap();
    let witness = &signed.input[0].witness;
    assert_eq!(witness.len(), 2);
    assert_eq!(*witness[0].last().unwrap(), SIGHASH_ALL);
    assert_eq!(witness[0][0], 0x30);
    assert_eq!(encode_hex(&witness[1]), w.public_key);
    let bytes = serialize_transaction(&signed);
    assert_eq!(&bytes[0..6], &[2, 0, 0, 0, 0, 1]);
}

#[test]
fn too_few_keys() {
    let script = format!("0014{}", "11".repeat(20));
    let unsigned = create_transaction(vec![spend(&script)], vec![], NetworkKind::Testnet).unwrap();
    assert!(matches!(sign_transaction(unsigned, vec![], NetworkKind::Testnet), Err(TransactionError::InsufficientKeys)));
}

#[test]
fn mainnet_address_on_test_network() {
    let outputs = vec![TransactionOutput {
        address: "bc1qcr8te4kr609gcawutmrza0j4xv80jy8z306fyu".to_string(),
        amount: 1000,
    }];
    let r = create_transaction(vec![], outputs, NetworkKind::Testnet);
    assert!(matches!(r, Err(TransactionError::AddressNetworkMismatch)));
}

#[test]
fn unreadable_address_and_reference() {
    let outputs = vec![TransactionOutput { address: "nonsense".to_string(), amount: 1000 }];
    assert!(matches!(create_transaction(vec![], outputs, NetworkKind::Testnet), Err(TransactionError::InvalidAddress)));
    let bad = TransactionInput { txid: "xyz".to_string(), vout: 0, amount: 1, script_pubkey: String::new() };
    assert!(matches!(create_transaction(vec![bad], vec![], NetworkKind::Testnet), Err(TransactionError::InvalidReference)));
}

#[test]
fn bad_key_and_script() {
    let w = create_wallet(NetworkKind::Testnet).unwrap();
    let unsigned = create_transaction(vec![spend("0014")], vec![], NetworkKind::Testnet).unwrap();
    assert!(matches!(sign_transaction(unsigned, vec![w.private_key.as_str()], NetworkKind::Testnet), Err(TransactionError::InvalidScript)));
    let script = format!("0014{}", "11".repeat(20));
    let unsigned = create_transaction(vec![spend(&script)], vec![], NetworkKind::Testnet).unwrap();
    assert!(matches!(sign_transaction(unsigned, vec!["notwif"], NetworkKind::Testnet), Err(TransactionError::InvalidPrivateKey)));
}

#[test]
fn signature_verifies_against_the_witness_sighash() {
    let w = create_wallet(NetworkKind::Regtest).unwrap();
    let script_hex = format!("0014{}", "42".repeat(20));
    let inputs = vec![spend(&script_hex), TransactionInput { vout: 0, amount: 5_000, ..spend(&script_hex) }];
    let outputs = vec![TransactionOutput { address: w.address.clone(), amount: 104_000 }];
    let unsigned = create_transaction(inputs, outputs, NetworkKind::Regtest).unwrap();
    let keys = vec![w.private_key.as_str(), w.private_key.as_str()];
    let signed = sign_transaction(unsigned, keys, NetworkKind::Regtest).unwrap();
    let bytes = serialize_transaction(&signed);
    let tx: bitcoin::Transaction = bitcoin::consensus::encode::deserialize(&bytes).unwrap();
    assert_eq!(tx.input.len(), 2);
    let script = bitcoin::ScriptBuf::from_bytes(decode_hex(&script_hex).unwrap());
    let secp = bitcoin::secp256k1::Secp256k1::verification_only();
    for (i, amount) in [(0usize, 100_000u64), (1, 5_000)] {
        let mut cache = bitcoin::sighash::SighashCache::new(&tx);
        let all = bitcoin::sighash::EcdsaSighashType::All;
        let h = cache.p2wpkh_signature_hash(i, &script, bitcoin::Amount::from_sat(amount), all).unwrap();
        let msg = bitcoin::secp256k1::Message::from_digest_slice(&h[..]).unwrap();
        let item = &signed.input[i].witness[0];
        let sig = bitcoin::secp256k1::ecdsa::Signature::from_der(&item[..item.len() - 1]).unwrap();
        let pk = bitcoin::secp256k1::PublicKey::from_slice(&signed.input[i].witness[1]).unwrap();
        assert!(secp.verify_ecdsa(&msg, &sig, &pk).is_ok());
    }
}

#[test]
fn output_above_supply() {
    let w = create_wallet(NetworkKind::Testnet).unwrap();
    let outputs = vec![TransactionOutput { address: w.address.clone(), amount: 2_100_000_000_000_001 }];
    let r = create_transaction(vec![], outputs, NetworkKind::Testnet);
    assert!(matches!(r, Err(TransactionError::AmountAboveSupply)));
}

#[test]
fn first_bad_input_decides_the_error() {
    let w = create_wallet(NetworkKind::Testnet).unwrap();
    let good = format!("0014{}", "11".repeat(20));
    let unsigned = create_transaction(vec![spend("00"), spend(&good)], vec![], NetworkKind::Testnet).unwrap();
    let r = sign_transaction(unsigned, vec![w.private_key.as_str(), "notwif"], NetworkKind::Testnet);
    assert!(matches!(r, Err(TransactionError::InvalidScript)));
}

#[test]
fn signing_is_deterministic() {
    let w = create_wallet(NetworkKind::Testnet).unwrap();
    let script = format!("0014{}", "11".repeat(20));
    let a = create_transaction(vec![spend(&script)], vec![], NetworkKind::Testnet).unwrap();
    let b = create_transaction(vec![spend(&script)], vec![], NetworkKind::Testnet).unwrap();
    assert!(a.transaction.input[0].script_sig.is_empty());
    let sa = sign_transaction(a, vec![w.private_key.as_str()], NetworkKind::Testnet).unwrap();
    let sb = sign_transaction(b, vec![w.private_key.as_str()], NetworkKind::Testnet).unwrap();
    assert_eq!(serialize_transaction(&sa), serialize_transaction(&sb));
}
