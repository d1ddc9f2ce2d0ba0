use bitcoin_sdk::network::{network_from_code, NetworkKind};
use bitcoin_sdk::wallet::{
    create_wallet, derive_address_at_index, restore_from_mnemonic, validate_mnemonic,
    wallet_from_entropy, WalletError,
};
use bitcoin_sdk::{generate_wallet, restore_wallet_from_mnemonic, validate_address};

const ABANDON: &str = "abandon abandon abandon abandon abandon abandon abandon abandon abandon abandon abandon about";

#[test]
fn standard_path_vector_first_address() {
    let w = restore_from_mnemonic(ABANDON, NetworkKind::Bitcoin).unwrap();
    assert_eq!(w.address, "bc1qcr8te4kr609gcawutmrza0j4xv80jy8z306fyu");
    assert_eq!(w.private_key, "KyZpNDKnfs94vbrwhJneDi77V6jF64PWPF8x5cdJb8ifgg2DUc9d");
    assert_eq!(w.public_key, "0330d54fd0dd420a6e5f8d3624f5f3482cae350f79d5f0753bf5beef9c2d91af3c");
    assert_eq!(w.mnemonic, ABANDON);
}

#[test]
fn standard_path_vector_second_address() {
    let w = derive_address_at_index(ABANDON, NetworkKind::Bitcoin, 0, 1).unwrap();
    assert_eq!(w.address, "bc1qnjg0jd8228aq7egyzacy8cys3knf9xvrerkf9g");
}

#[test]
fn derivation_is_deterministic() {
    let a = derive_address_at_index(ABANDON, NetworkKind::Testnet, 3, 7).unwrap();
    let b = derive_address_at_index(ABANDON, NetworkKind::Testnet, 3, 7).unwrap();
    assert_eq!(a.address, b.address);
    assert_eq!(a.private_key, b.private_key);
    assert_eq!(a.public_key, b.public_key);
    let c = derive_address_at_index(ABANDON, NetworkKind::Testnet, 3, 8).unwrap();
    assert_ne!(a.address, c.address);
}

#[test]
fn test_network_encoding() {
    let w = restore_from_mnemonic(ABANDON, NetworkKind::Testnet).unwrap();
    assert!(w.address.starts_with("tb1q"));
    let r = restore_from_mnemonic(ABANDON, NetworkKind::Regtest).unwrap();
    assert!(r.address.starts_with("bcrt1q"));
    let m = restore_from_mnemonic(ABANDON, NetworkKind::Bitcoin).unwrap();
    assert_ne!(w.address, m.address);
}

#[test]
fn generated_wallet_restores_to_same_address() {
    let g = create_wallet(NetworkKind::Testnet).unwrap();
    assert_eq!(g.mnemonic.split(' ').count(), 12);
    assert!(validate_mnemonic(&g.mnemonic));
    let r = restore_from_mnemonic(&g.mnemonic, NetworkKind::Testnet).unwrap();
    assert_eq!(r.address, g.address);
    assert_eq!(r.private_key, g.private_key);
    assert_eq!(r.public_key, g.public_key);
}

#[test]
fn wallet_from_fixed_entropy() {
    let w = wallet_from_entropy(&[0u8; 16], NetworkKind::Bitcoin).unwrap();
    assert_eq!(w.mnemonic, ABANDON);
    assert_eq!(w.address, "bc1qcr8te4kr609gcawutmrza0j4xv80jy8z306fyu");
}

#[test]
fn eleven_words_are_refused() {
    let eleven = "abandon abandon abandon abandon abandon abandon abandon abandon abandon abandon about";
    assert!(matches!(restore_from_mnemonic(eleven, NetworkKind::Testnet), Err(WalletError::InvalidMnemonic)));
    assert!(!validate_mnemonic(eleven));
}

#[test]
fn bad_checksum_is_refused() {
    let bad = "abandon abandon abandon abandon abandon abandon abandon abandon abandon abandon abandon abandon";
    assert!(matches!(restore_from_mnemonic(bad, NetworkKind::Testnet), Err(WalletError::InvalidMnemonic)));
    let unknown = "abandon abandon abandon abandon abandon abandon abandon abandon abandon abandon abandon zzzz";
    assert!(matches!(restore_from_mnemonic(unknown, NetworkKind::Testnet), Err(WalletError::InvalidMnemonic)));
}

#[test]
fn hardened_index_out_of_range() {
    let r = derive_address_at_index(ABANDON, NetworkKind::Testnet, 0x8000_0000, 0);
    assert!(matches!(r, Err(WalletError::KeyDerivation)));
    let r = derive_address_at_index(ABANDON, NetworkKind::Testnet, 0, 0x8000_0000);
    assert!(matches!(r, Err(WalletError::KeyDerivation)));
}

#[test]
fn network_selector() {
    assert_eq!(network_from_code(0), NetworkKind::Bitcoin);
    assert_eq!(network_from_code(1), NetworkKind::Testnet);
    assert_eq!(network_from_code(2), NetworkKind::Signet);
    assert_eq!(network_from_code(3), NetworkKind::Regtest);
    assert_eq!(network_from_code(42), NetworkKind::Testnet);
    assert_eq!(network_from_code(-1), NetworkKind::Testnet);
}

#[test]
fn boundary_wallet_calls() {
    let w = restore_wallet_from_mnemonic(ABANDON, 0).unwrap();
    assert_eq!(w.address, "bc1qcr8te4kr609gcawutmrza0j4xv80jy8z306fyu");
    let g = generate_wallet(1).unwrap();
    assert!(g.address.starts_with("tb1q"));
}

#[test]
fn address_validation() {
    assert!(validate_address("bc1qcr8te4kr609gcawutmrza0j4xv80jy8z306fyu", 0));
    assert!(!validate_address("bc1qcr8te4kr609gcawutmrza0j4xv80jy8z306fyu", 1));
    assert!(!validate_address("not an address", 0));
}

#[test]
fn test_networks_share_keys() {
    let t = restore_from_mnemonic(ABANDON, NetworkKind::Testnet).unwrap();
    let s = restore_from_mnemonic(ABANDON, NetworkKind::Signet).unwrap();
    let r = restore_from_mnemonic(ABANDON, NetworkKind::Regtest).unwrap();
    assert_eq!(t.public_key, s.public_key);
    assert_eq!(t.public_key, r.public_key);
    assert_eq!(t.private_key, s.private_key);
}

#[test]
fn generated_address_validates() {
    let g = generate_wallet(7).unwrap();
    assert!(validate_address(&g.address, 1));
    assert!(validate_mnemonic(&g.mnemonic));
}

#[test]
fn derivation_matches_the_bitcoin_crate() {
    let m = bip39::Mnemonic::parse_in_normalized(bip39::Language::English, ABANDON).unwrap();
    let seed = m.to_seed_normalized("");
    let secp = bitcoin::secp256k1::Secp256k1::new();
    let master = bitcoin::bip32::Xpriv::new_master(bitcoin::Network::Testnet, &seed).unwrap();
    let path = [
        bitcoin::bip32::ChildNumber::Hardened { index: 84 },
        bitcoin::bip32::ChildNumber::Hardened { index: 1 },
        bitcoin::bip32::ChildNumber::Hardened { index: 5 },
        bitcoin::bip32::ChildNumber::Normal { index: 0 },
        bitcoin::bip32::ChildNumber::Normal { index: 9 },
    ];
    let expected = master.derive_priv(&secp, &path).unwrap().to_priv().to_wif();
    let w = derive_address_at_index(ABANDON, NetworkKind::Testnet, 5, 9).unwrap();
    assert_eq!(w.private_key, expected);
}
