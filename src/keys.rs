//! Calls into `bip39`, `bitcoin`, `secp256k1` and `rand`, each with the
//! contract the library relies on.
use vstd::prelude::*;
use crate::network::NetworkKind;
use crate::transaction::{BuiltTransaction, BuiltInput, BuiltOutput};
use std::str::FromStr;
use rand::RngCore;

verus! {

#[verifier::external_type_specification]
pub struct ExBitcoinNet(bitcoin::Network);

/// The network tag of the `bitcoin` crate for a network.
fn bitcoin_network(n: NetworkKind) -> bitcoin::Network {
    match n {
        NetworkKind::Bitcoin => bitcoin::Network::Bitcoin,
        NetworkKind::Testnet => bitcoin::Network::Testnet,
        NetworkKind::Signet => bitcoin::Network::Signet,
        NetworkKind::Regtest => bitcoin::Network::Regtest,
    }
}

/// Relies on `rand::rngs::OsRng::try_fill_bytes`: fills `len` bytes from
/// the operating system's random source, or reports that it failed.
#[verifier::external_body]
pub(crate) fn random_entropy(len: usize) -> (r: Result<Vec<u8>, ()>)
    ensures
        r matches Ok(v) ==> v@.len() == len,
{
    let mut e = vec![0u8; len];
    match rand::rngs::OsRng.try_fill_bytes(&mut e) {
        Ok(()) => Ok(e),
        Err(_) => Err(()),
    }
}

/// The English recovery phrase that `bip39::Mnemonic::from_entropy_in`
/// builds from entropy, its words joined by single spaces.
pub uninterp spec fn bip39_phrase(entropy: Seq<u8>) -> Seq<char>;

/// Whether `bip39::Mnemonic::parse_in_normalized` accepts a text as an
/// English phrase: known words, a valid count and a valid checksum.
pub uninterp spec fn bip39_accepts(text: Seq<char>) -> bool;

/// The 64-byte seed that `bip39::Mnemonic::to_seed_normalized` stretches
/// from a phrase with the empty passphrase.
pub uninterp spec fn bip39_seed(text: Seq<char>) -> Seq<u8>;

/// Relies on `bip39::Mnemonic::from_entropy_in` (English) and its
/// `Display`: entropy of 16 to 32 bytes, a multiple of 4, becomes a phrase,
/// which parses back.
#[verifier::external_body]
pub(crate) fn phrase_from_entropy(entropy: &[u8]) -> (r: Result<String, ()>)
    ensures
        r is Ok <==> (entropy@.len() % 4 == 0 && 16 <= entropy@.len() <= 32),
        r matches Ok(s) ==> s@ == bip39_phrase(entropy@) && bip39_accepts(s@),
{
    match bip39::Mnemonic::from_entropy_in(bip39::Language::English, entropy) {
        Ok(m) => Ok(m.to_string()),
        Err(_) => Err(()),
    }
}

/// Relies on `bip39::Mnemonic::parse_in_normalized` (English): whether it
/// accepts the phrase.
#[verifier::external_body]
pub(crate) fn phrase_accepted(text: &str) -> (r: bool)
    ensures
        r == bip39_accepts(text@),
{
    bip39::Mnemonic::parse_in_normalized(bip39::Language::English, text).is_ok()
}

/// Relies on `bip39::Mnemonic::parse_in_normalized` (English) to check a
/// phrase and on `Mnemonic::to_seed_normalized` with the empty passphrase
/// for its seed.
#[verifier::external_body]
pub(crate) fn phrase_seed(text: &str) -> (r: Result<Vec<u8>, ()>)
    ensures
        r is Ok <==> bip39_accepts(text@),
        r matches Ok(v) ==> v@ == bip39_seed(text@) && v@.len() == 64,
{
    match bip39::Mnemonic::parse_in_normalized(bip39::Language::English, text) {
        Ok(m) => Ok(m.to_seed_normalized("").to_vec()),
        Err(_) => Err(()),
    }
}

/// Whether `secp256k1::SecretKey::from_slice` accepts the bytes as a
/// secret key: 32 bytes, not zero, below the curve order.
pub uninterp spec fn secret_key_valid(secret: Seq<u8>) -> bool;

/// A 78-byte extended private key encoding as `Xpriv::encode` writes it: a
/// known version, and a valid secret key in its last 32 bytes.
pub open spec fn xkey_well_formed(k: Seq<u8>) -> bool {
    &&& k.len() == 78
    &&& (k.take(4) == seq![0x04u8, 0x88u8, 0xADu8, 0xE4u8] || k.take(4) == seq![0x04u8, 0x35u8, 0x83u8, 0x94u8])
    &&& secret_key_valid(k.subrange(46, 78))
}

/// The version bytes that `Xpriv::encode` writes for a network: one value
/// for the main network, one shared by every test network.
pub open spec fn xkey_version(n: NetworkKind) -> Seq<u8> {
    if n == NetworkKind::Bitcoin {
        seq![0x04u8, 0x88u8, 0xADu8, 0xE4u8]
    } else {
        seq![0x04u8, 0x35u8, 0x83u8, 0x94u8]
    }
}

/// Whether `bitcoin::bip32::Xpriv::new_master` finds a valid secret key in
/// what the seed hashes to.
pub uninterp spec fn bip32_master_ok(seed: Seq<u8>) -> bool;

/// Bytes 4 to 78 of the encoding (`Xpriv::encode`) of the master key that
/// `Xpriv::new_master` derives from a seed: depth, parent fingerprint,
/// child number, chain code and secret key, none of which depends on the
/// network.
pub uninterp spec fn bip32_master(seed: Seq<u8>) -> Seq<u8>;

/// Relies on `bitcoin::bip32::Xpriv::new_master`, and `Xpriv::encode` for
/// its 78-byte encoding, whose first four bytes only depend on the network.
#[verifier::external_body]
pub(crate) fn master_xkey(seed: &[u8], n: NetworkKind) -> (r: Result<Vec<u8>, ()>)
    ensures
        r is Ok <==> bip32_master_ok(seed@),
        r matches Ok(k) ==> k@.take(4) == xkey_version(n) && k@.skip(4) == bip32_master(seed@),
        r matches Ok(k) ==> xkey_well_formed(k@) && k@[4] == 0,
{
    match bitcoin::bip32::Xpriv::new_master(bitcoin_network(n), seed) {
        Ok(k) => Ok(k.encode().to_vec()),
        Err(_) => Err(()),
    }
}

/// HMAC-SHA512 of `data` under `key`.
pub uninterp spec fn hmac_sha512_of(key: Seq<u8>, data: Seq<u8>) -> Seq<u8>;

/// Relies on `bitcoin::hashes::hmac::HmacEngine` over `sha512`.
#[verifier::external_body]
pub(crate) fn hmac_sha512(key: &[u8], data: &[u8]) -> (r: Vec<u8>)
    ensures
        r@ == hmac_sha512_of(key@, data@),
        r@.len() == 64,
{
    let mut engine = bitcoin::hashes::hmac::HmacEngine::<bitcoin::hashes::sha512::Hash>::new(key);
    bitcoin::hashes::HashEngine::input(&mut engine, data);
    let h: bitcoin::hashes::hmac::Hmac<bitcoin::hashes::sha512::Hash> =
        bitcoin::hashes::Hash::from_engine(engine);
    bitcoin::hashes::Hash::to_byte_array(h).to_vec()
}

/// RIPEMD-160 of SHA-256 of `data`.
pub uninterp spec fn hash160_of(data: Seq<u8>) -> Seq<u8>;

/// Relies on `bitcoin::hashes::hash160::Hash::hash`.
#[verifier::external_body]
pub(crate) fn hash160(data: &[u8]) -> (r: Vec<u8>)
    ensures
        r@ == hash160_of(data@),
        r@.len() == 20,
{
    let h: bitcoin::hashes::hash160::Hash = bitcoin::hashes::Hash::hash(data);
    bitcoin::hashes::Hash::to_byte_array(h).to_vec()
}

/// Whether both byte strings read as secret keys and their sum modulo the
/// curve order is not zero.
pub uninterp spec fn tweak_add_ok(tweak: Seq<u8>, key: Seq<u8>) -> bool;

/// The sum of two secret keys modulo the curve order.
pub uninterp spec fn tweak_add_of(tweak: Seq<u8>, key: Seq<u8>) -> Seq<u8>;

/// Relies on `secp256k1::SecretKey::add_tweak`, both operands read by
/// `SecretKey::from_slice`; it fails where the sum is zero.
#[verifier::external_body]
pub(crate) fn secret_tweak_add(tweak: &[u8], key: &[u8]) -> (r: Result<Vec<u8>, ()>)
    ensures
        r is Ok <==> tweak_add_ok(tweak@, key@),
        r matches Ok(v) ==> v@ == tweak_add_of(tweak@, key@) && v@.len() == 32,
        r matches Ok(v) ==> secret_key_valid(v@),
{
    let t = bitcoin::secp256k1::SecretKey::from_slice(tweak).map_err(|_| ())?;
    let k = bitcoin::secp256k1::SecretKey::from_slice(key).map_err(|_| ())?;
    t.add_tweak(&k.into()).map(|s| s.secret_bytes().to_vec()).map_err(|_| ())
}

/// The WIF text (`PrivateKey::to_wif`) of a compressed private key.
pub uninterp spec fn wif_text(secret: Seq<u8>, n: NetworkKind) -> Seq<char>;

/// Relies on `bitcoin::PrivateKey::to_wif`, the key built by
/// `PrivateKey::from_slice`.
#[verifier::external_body]
pub(crate) fn wif_of_secret(secret: &[u8], n: NetworkKind) -> (r: Result<String, ()>)
    ensures
        r is Ok <==> secret_key_valid(secret@),
        r matches Ok(s) ==> s@ == wif_text(secret@, n),
        r matches Ok(s) ==> wif_reads(s@) && wif_secret(s@) == secret@,
{
    match bitcoin::PrivateKey::from_slice(secret, bitcoin_network(n)) {
        Ok(k) => Ok(k.to_wif()),
        Err(_) => Err(()),
    }
}

/// The 33-byte compressed public key of a secret key.
pub uninterp spec fn compressed_pubkey(secret: Seq<u8>) -> Seq<u8>;

/// Relies on `secp256k1::PublicKey::from_secret_key` and its `serialize`
/// (compressed form), the key read by `SecretKey::from_slice`.
#[verifier::external_body]
pub(crate) fn public_key_of(secret: &[u8]) -> (r: Result<Vec<u8>, ()>)
    ensures
        r is Ok <==> secret_key_valid(secret@),
        r matches Ok(p) ==> p@ == compressed_pubkey(secret@) && p@.len() == 33,
        r matches Ok(p) ==> public_key_reads(p@),
{
    let secp = bitcoin::secp256k1::Secp256k1::new();
    match bitcoin::secp256k1::SecretKey::from_slice(secret) {
        Ok(k) => Ok(bitcoin::secp256k1::PublicKey::from_secret_key(&secp, &k).serialize().to_vec()),
        Err(_) => Err(()),
    }
}

/// Whether `bitcoin::PublicKey::from_slice` reads the bytes as a key.
pub uninterp spec fn public_key_reads(pubkey: Seq<u8>) -> bool;

/// The text of the version-0 witness key hash address of a public key.
pub uninterp spec fn p2wpkh_address_text(pubkey: Seq<u8>, n: NetworkKind) -> Seq<char>;

/// Relies on `bitcoin::Address::p2wpkh` and its `Display`, the key read by
/// `PublicKey::from_slice`; only an uncompressed (65-byte) key is refused.
#[verifier::external_body]
pub(crate) fn p2wpkh_address(pubkey: &[u8], n: NetworkKind) -> (r: Result<String, ()>)
    ensures
        r is Ok <==> (public_key_reads(pubkey@) && pubkey@.len() == 33),
        r matches Ok(s) ==> s@ == p2wpkh_address_text(pubkey@, n),
        r matches Ok(s) ==> address_parses(s@) && address_valid_for(s@, n),
{
    let key = bitcoin::PublicKey::from_slice(pubkey).map_err(|_| ())?;
    match bitcoin::Address::p2wpkh(&key, bitcoin_network(n)) {
        Ok(a) => Ok(a.to_string()),
        Err(_) => Err(()),
    }
}

/// Whether `bitcoin::Address::from_str` reads the text as an address.
pub uninterp spec fn address_parses(text: Seq<char>) -> bool;

/// Whether `Address::require_network` accepts the address for a network.
pub uninterp spec fn address_valid_for(text: Seq<char>, n: NetworkKind) -> bool;

/// The locking script bytes (`Address::script_pubkey`) of an address.
pub uninterp spec fn address_script_of(text: Seq<char>) -> Seq<u8>;

/// Why an address text was refused.
pub enum AddressFault {
    Unreadable,
    WrongNetwork,
}

/// Relies on `bitcoin::Address::from_str`, then `require_network`, then
/// `script_pubkey` of the checked address.
#[verifier::external_body]
pub(crate) fn address_script(text: &str, n: NetworkKind) -> (r: Result<Vec<u8>, AddressFault>)
    ensures
        (r matches Err(AddressFault::Unreadable)) <==> !address_parses(text@),
        (r matches Err(AddressFault::WrongNetwork)) <==> (address_parses(text@) && !address_valid_for(text@, n)),
        r matches Ok(v) ==> v@ == address_script_of(text@),
{
    let a = bitcoin::Address::from_str(text).map_err(|_| AddressFault::Unreadable)?;
    match a.require_network(bitcoin_network(n)) {
        Ok(a) => Ok(a.script_pubkey().to_bytes()),
        Err(_) => Err(AddressFault::WrongNetwork),
    }
}

/// Whether `bitcoin::PrivateKey::from_wif` reads the text.
pub uninterp spec fn wif_reads(text: Seq<char>) -> bool;

/// The 32 secret bytes of the key that `PrivateKey::from_wif` reads.
pub uninterp spec fn wif_secret(text: Seq<char>) -> Seq<u8>;

/// Relies on `bitcoin::PrivateKey::from_wif`, handing out the secret bytes.
#[verifier::external_body]
pub(crate) fn secret_from_wif(text: &str) -> (r: Result<Vec<u8>, ()>)
    ensures
        r is Ok <==> wif_reads(text@),
        r matches Ok(v) ==> v@ == wif_secret(text@) && v@.len() == 32 && secret_key_valid(v@),
{
    match bitcoin::PrivateKey::from_wif(text) {
        Ok(k) => Ok(k.inner.secret_bytes().to_vec()),
        Err(_) => Err(()),
    }
}

/// The DER encoding of the deterministic-nonce ECDSA signature of a 32-byte
/// digest under a secret key.
pub uninterp spec fn ecdsa_der(secret: Seq<u8>, digest: Seq<u8>) -> Seq<u8>;

/// Relies on `secp256k1::Secp256k1::sign_ecdsa` and `Signature::serialize_der`,
/// the key read by `SecretKey::from_slice` and the digest by
/// `Message::from_digest_slice`, which takes exactly 32 bytes.
#[verifier::external_body]
pub(crate) fn ecdsa_sign_der(secret: &[u8], digest: &[u8]) -> (r: Result<Vec<u8>, ()>)
    ensures
        r is Ok <==> (secret_key_valid(secret@) && digest@.len() == 32),
        r matches Ok(s) ==> s@ == ecdsa_der(secret@, digest@),
{
    let secp = bitcoin::secp256k1::Secp256k1::new();
    let key = bitcoin::secp256k1::SecretKey::from_slice(secret).map_err(|_| ())?;
    let msg = bitcoin::secp256k1::Message::from_digest_slice(digest).map_err(|_| ())?;
    Ok(secp.sign_ecdsa(&msg, &key).serialize_der().to_vec())
}

#[verifier::external_type_specification]
#[verifier::external_body]
pub struct ExBitcoinTransaction(bitcoin::Transaction);

#[verifier::external_type_specification]
#[verifier::external_body]
pub struct ExBitcoinTxIn(bitcoin::TxIn);

#[verifier::external_type_specification]
#[verifier::external_body]
pub struct ExBitcoinTxOut(bitcoin::TxOut);

/// The `bitcoin` crate's form of an input.
#[verifier::external_body]
fn bitcoin_txin(i: &BuiltInput) -> bitcoin::TxIn
    requires
        i.prev_txid@.len() == 32,
{
    bitcoin::TxIn {
        previous_output: bitcoin::OutPoint::new(bitcoin::hashes::Hash::from_slice(&i.prev_txid).unwrap(), i.vout),
        script_sig: bitcoin::ScriptBuf::from_bytes(i.script_sig.clone()),
        sequence: bitcoin::Sequence(i.sequence),
        witness: bitcoin::Witness::from_slice(&i.witness),
    }
}

/// The `bitcoin` crate's form of an output.
#[verifier::external_body]
fn bitcoin_txout(o: &BuiltOutput) -> bitcoin::TxOut {
    bitcoin::TxOut {
        value: bitcoin::Amount::from_sat(o.value),
        script_pubkey: bitcoin::ScriptBuf::from_bytes(o.script_pubkey.clone()),
    }
}

/// The `bitcoin` crate's form of a transaction.
#[verifier::external_body]
fn bitcoin_transaction(tx: &BuiltTransaction) -> bitcoin::Transaction
    requires
        tx.inputs_well_formed(),
{
    bitcoin::Transaction {
        version: bitcoin::transaction::Version(tx.version),
        lock_time: bitcoin::absolute::LockTime::from_consensus(tx.lock_time),
        input: tx.input.iter().map(bitcoin_txin).collect(),
        output: tx.output.iter().map(bitcoin_txout).collect(),
    }
}

/// The version-0 witness signature hash (all inputs and outputs signed)
/// of input `index`, spending `amount` locked by `script`.
pub uninterp spec fn p2wpkh_sighash_of(tx: BuiltTransaction, index: nat, script: Seq<u8>, amount: u64) -> Seq<u8>;

/// Whether a locking script pays to a witness version 0 key hash.
pub open spec fn is_p2wpkh_script(script: Seq<u8>) -> bool {
    script.len() == 22 && script[0] == 0 && script[1] == 0x14
}

/// Relies on `bitcoin::sighash::SighashCache::p2wpkh_signature_hash` with
/// `EcdsaSighashType::All`, which fails only on a script that does not pay
/// to a key hash or an index past the inputs.
#[verifier::external_body]
pub(crate) fn p2wpkh_sighash(
    tx: &BuiltTransaction,
    index: usize,
    script: &[u8],
    amount: u64,
) -> (r: Result<Vec<u8>, ()>)
    requires
        tx.inputs_well_formed(),
    ensures
        r is Ok <==> (is_p2wpkh_script(script@) && index < tx.input@.len()),
        r matches Ok(h) ==> h@ == p2wpkh_sighash_of(*tx, index as nat, script@, amount),
        r matches Ok(h) ==> h@.len() == 32,
{
    let btx = bitcoin_transaction(tx);
    let script = bitcoin::Script::from_bytes(script);
    let all = bitcoin::sighash::EcdsaSighashType::All;
    let mut cache = bitcoin::sighash::SighashCache::new(&btx);
    match cache.p2wpkh_signature_hash(index, script, bitcoin::Amount::from_sat(amount), all) {
        Ok(h) => Ok(bitcoin::hashes::Hash::to_byte_array(h).to_vec()),
        Err(_) => Err(()),
    }
}

/// The consensus serialisation of a transaction, witnesses included.
pub uninterp spec fn consensus_bytes(tx: BuiltTransaction) -> Seq<u8>;

/// Relies on `bitcoin::consensus::encode::serialize`.
#[verifier::external_body]
pub(crate) fn consensus_serialize(tx: &BuiltTransaction) -> (r: Vec<u8>)
    requires
        tx.inputs_well_formed(),
    ensures
        r@ == consensus_bytes(*tx),
{
    bitcoin::consensus::encode::serialize(&bitcoin_transaction(tx))
}

} // verus!
