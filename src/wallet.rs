//! Recovery phrases to wallets: seed, hierarchical derivation on the
//! purpose 84 path, keys and address.
use vstd::prelude::*;
use crate::hex::{encode_hex, hex_text};
use crate::keys::{
    address_parses, address_valid_for, wif_reads, wif_secret, xkey_well_formed,
    bip32_master, bip32_master_ok, bip39_accepts, bip39_phrase, bip39_seed,
    compressed_pubkey, master_xkey, p2wpkh_address, p2wpkh_address_text,
    phrase_accepted, phrase_from_entropy, phrase_seed, public_key_of, random_entropy, wif_of_secret, wif_text,
};
use crate::bip32::{bip32_child, child_ok, child_xkey};
use crate::network::{coin_type, coin_type_of, NetworkKind};

verus! {

/// Derivation purpose of native witness key hash wallets.
pub const PURPOSE: u32 = 84;

/// The first index that a derivation step cannot carry.
pub const CHILD_INDEX_LIMIT: u32 = 0x8000_0000;

/// A wallet's keys and address as text, with the phrase it came from.
pub struct WalletData {
    pub private_key: String,
    pub public_key: String,
    pub address: String,
    pub mnemonic: String,
}

/// Why a wallet could not be produced.
#[derive(Clone, Copy, Debug, PartialEq, Eq, Structural)]
pub enum WalletError {
    /// The random source failed.
    EntropySource,
    /// The phrase has an unknown word, a wrong word count or a bad checksum.
    InvalidMnemonic,
    /// A derivation step has an index out of range or met an invalid key.
    KeyDerivation,
}

/// Bytes 4 to 78 of the key at the end of a derivation path, from bytes 4
/// to 78 of its start: each step is an index and whether it is hardened.
pub open spec fn path_key(key: Seq<u8>, path: Seq<(u32, bool)>) -> Seq<u8>
    decreases path.len(),
{
    if path.len() == 0 {
        key
    } else {
        bip32_child(path_key(key, path.drop_last()), path.last().0, path.last().1)
    }
}

/// Every step of the path gives a valid child key.
pub open spec fn path_ok(key: Seq<u8>, path: Seq<(u32, bool)>) -> bool
    decreases path.len(),
{
    if path.len() == 0 {
        true
    } else {
        path_ok(key, path.drop_last()) && child_ok(path_key(key, path.drop_last()), path.last().0, path.last().1)
    }
}

/// The phrase's seed gives a valid master key, and every step of the
/// wallet path from it a valid child key.
pub open spec fn wallet_derivable(phrase: Seq<char>, n: NetworkKind, account: u32, index: u32) -> bool {
    let seed = bip39_seed(phrase);
    bip32_master_ok(seed) && path_ok(bip32_master(seed), wallet_path(n, account, index))
}

pub open spec fn path_indices_valid(path: Seq<(u32, bool)>) -> bool {
    forall|i: int| 0 <= i < path.len() ==> (#[trigger] path[i]).0 < CHILD_INDEX_LIMIT
}

/// The path purpose'/coin_type'/account'/0/index.
pub open spec fn wallet_path(n: NetworkKind, account: u32, index: u32) -> Seq<(u32, bool)> {
    seq![(PURPOSE, true), (coin_type_of(n), true), (account, true), (0u32, false), (index, false)]
}

/// The secret key held in a 78-byte encoded extended key.
pub open spec fn xkey_secret(key: Seq<u8>) -> Seq<u8> {
    key.subrange(46, 78)
}

/// The secret key of the wallet at (account, index) under a seed: bytes 42
/// to 74 of the key's encoding past its version.
pub open spec fn wallet_secret(seed: Seq<u8>, n: NetworkKind, account: u32, index: u32) -> Seq<u8> {
    path_key(bip32_master(seed), wallet_path(n, account, index)).subrange(42, 74)
}

/// `w` is the wallet at (account, index) of the phrase on network `n`.
pub open spec fn wallet_matches(
    w: WalletData,
    phrase: Seq<char>,
    n: NetworkKind,
    account: u32,
    index: u32,
) -> bool {
    let secret = wallet_secret(bip39_seed(phrase), n, account, index);
    let pubkey = compressed_pubkey(secret);
    &&& w.private_key@ == wif_text(secret, n)
    &&& w.public_key@ == hex_text(pubkey)
    &&& w.address@ == p2wpkh_address_text(pubkey, n)
    &&& w.mnemonic@ == phrase
    &&& wif_reads(w.private_key@) && wif_secret(w.private_key@) == secret
    &&& address_parses(w.address@) && address_valid_for(w.address@, n)
}

/// Walks a derivation path from an encoded extended key, one step at a time.
pub fn derive_path(master: Vec<u8>, path: &Vec<(u32, bool)>) -> (r: Result<Vec<u8>, WalletError>)
    requires
        xkey_well_formed(master@),
        master@[4] + path@.len() <= 255,
    ensures
        !path_indices_valid(path@) ==> r == Err::<Vec<u8>, WalletError>(WalletError::KeyDerivation),
        path_indices_valid(path@) ==> (r is Ok <==> path_ok(master@.skip(4), path@)),
        r matches Ok(k) ==> k@.take(4) == master@.take(4) && k@.skip(4) == path_key(master@.skip(4), path@),
        r matches Ok(k) ==> xkey_well_formed(k@),
        r matches Err(e) ==> e == WalletError::KeyDerivation,
{
    let mut j: usize = 0;
    while j < path.len()
        invariant
            j <= path@.len(),
            forall|i: int| 0 <= i < j ==> (#[trigger] path@[i]).0 < CHILD_INDEX_LIMIT,
        decreases path@.len() - j,
    {
        if path[j].0 >= CHILD_INDEX_LIMIT {
            return Err(WalletError::KeyDerivation);
        }
        j = j + 1;
    }
    let mut key = master;
    let mut i: usize = 0;
    while i < path.len()
        invariant
            i <= path@.len(),
            key@.take(4) == master@.take(4),
            key@.skip(4) == path_key(master@.skip(4), path@.take(i as int)),
            key@[4] == master@[4] + i,
            path_ok(master@.skip(4), path@.take(i as int)),
            master@[4] + path@.len() <= 255,
            xkey_well_formed(key@),
            forall|k: int| 0 <= k < path@.len() ==> (#[trigger] path@[k]).0 < CHILD_INDEX_LIMIT,
        decreases path@.len() - i,
    {
        let (index, hardened) = path[i];
        proof {
            assert(path@.take(i + 1).drop_last() =~= path@.take(i as int));
        }
        match child_xkey(&key, index, hardened) {
            Ok(k) => {
                wipe(&mut key);
                key = k;
            }
            Err(_) => {
                proof {
                    lemma_path_ok_prefix(master@.skip(4), path@, i + 1);
                }
                return Err(WalletError::KeyDerivation);
            }
        }
        i = i + 1;
    }
    proof {
        assert(path@.take(path@.len() as int) =~= path@);
    }
    Ok(key)
}

/// A path whose prefix fails fails as a whole.
proof fn lemma_path_ok_prefix(key: Seq<u8>, path: Seq<(u32, bool)>, k: int)
    requires
        0 <= k <= path.len(),
        !path_ok(key, path.take(k)),
    ensures
        !path_ok(key, path),
    decreases path.len(),
{
    if k < path.len() {
        assert(path.drop_last().take(k) =~= path.take(k));
        lemma_path_ok_prefix(key, path.drop_last(), k);
    } else {
        assert(path.take(k) =~= path);
    }
}

/// Overwrites secret material with zeros before it is dropped.
pub fn wipe(buf: &mut Vec<u8>)
    ensures
        final(buf)@.len() == old(buf)@.len(),
        forall|i: int| 0 <= i < final(buf)@.len() ==> final(buf)@[i] == 0,
{
    let n = buf.len();
    let mut i: usize = 0;
    while i < n
        invariant
            i <= n == buf@.len(),
            forall|k: int| 0 <= k < i ==> buf@[k] == 0,
        decreases n - i,
    {
        buf[i] = 0;
        i = i + 1;
    }
}

fn secret_of_xkey(key: &Vec<u8>) -> (r: Vec<u8>)
    requires
        key@.len() == 78,
    ensures
        r@ == xkey_secret(key@),
{
    let mut out: Vec<u8> = Vec::new();
    let mut i: usize = 46;
    while i < 78
        invariant
            46 <= i <= 78,
            key@.len() == 78,
            out@ == key@.subrange(46, i as int),
        decreases 78 - i,
    {
        out.push(key[i]);
        proof {
            assert(out@ =~= key@.subrange(46, i + 1));
        }
        i = i + 1;
    }
    out
}

/// The wallet at (account, index) of a recovery phrase, on the standard
/// witness key hash path purpose'/coin_type'/account'/0/index.
pub fn derive_address_at_index(
    mnemonic_str: &str,
    network: NetworkKind,
    account: u32,
    index: u32,
) -> (r: Result<WalletData, WalletError>)
    ensures
        !bip39_accepts(mnemonic_str@) <==> r == Err::<WalletData, WalletError>(
            WalletError::InvalidMnemonic,
        ),
        bip39_accepts(mnemonic_str@) && (account >= CHILD_INDEX_LIMIT || index >= CHILD_INDEX_LIMIT)
            ==> r == Err::<WalletData, WalletError>(WalletError::KeyDerivation),
        bip39_accepts(mnemonic_str@) && account < CHILD_INDEX_LIMIT && index < CHILD_INDEX_LIMIT ==> (r is Ok <==> wallet_derivable(mnemonic_str@, network, account, index)),
        r matches Ok(w) ==> wallet_matches(w, mnemonic_str@, network, account, index),
        r matches Err(e) ==> e == WalletError::InvalidMnemonic || e == WalletError::KeyDerivation,
{
    let seed = match phrase_seed(mnemonic_str) {
        Ok(s) => s,
        Err(_) => {
            return Err(WalletError::InvalidMnemonic);
        },
    };
    let mut seed = seed;
    let master = master_xkey(&seed, network);
    wipe(&mut seed);
    let master = match master {
        Ok(k) => k,
        Err(_) => {
            return Err(WalletError::KeyDerivation);
        },
    };
    let mut path: Vec<(u32, bool)> = Vec::new();
    path.push((PURPOSE, true));
    path.push((coin_type(network), true));
    path.push((account, true));
    path.push((0, false));
    path.push((index, false));
    proof {
        assert(path@ =~= wallet_path(network, account, index));
        if account >= CHILD_INDEX_LIMIT {
            assert(path@[2].0 >= CHILD_INDEX_LIMIT);
        }
        if index >= CHILD_INDEX_LIMIT {
            assert(path@[4].0 >= CHILD_INDEX_LIMIT);
        }
    }
    if account >= CHILD_INDEX_LIMIT || index >= CHILD_INDEX_LIMIT {
        return Err(WalletError::KeyDerivation);
    }
    let mut key = derive_path(master, &path)?;
    let mut secret = secret_of_xkey(&key);
    proof {
        assert(key@.skip(4).subrange(42, 74) =~= key@.subrange(46, 78));
    }
    wipe(&mut key);
    let wif = wif_of_secret(&secret, network);
    let pubkey = public_key_of(&secret);
    wipe(&mut secret);
    let private_key = match wif {
        Ok(s) => s,
        Err(_) => {
            return Err(WalletError::KeyDerivation);
        },
    };
    let pubkey = match pubkey {
        Ok(p) => p,
        Err(_) => {
            return Err(WalletError::KeyDerivation);
        },
    };
    let address = match p2wpkh_address(&pubkey, network) {
        Ok(a) => a,
        Err(_) => {
            return Err(WalletError::KeyDerivation);
        },
    };
    let public_key = encode_hex(&pubkey);
    let mnemonic = mnemonic_str.to_string();
    Ok(WalletData { private_key, public_key, address, mnemonic })
}

/// The wallet at account 0, index 0 of a recovery phrase.
pub fn restore_from_mnemonic(mnemonic_str: &str, network: NetworkKind) -> (r: Result<
    WalletData,
    WalletError,
>)
    ensures
        !bip39_accepts(mnemonic_str@) <==> r == Err::<WalletData, WalletError>(
            WalletError::InvalidMnemonic,
        ),
        bip39_accepts(mnemonic_str@) ==> (r is Ok <==> wallet_derivable(mnemonic_str@, network, 0, 0)),
        r matches Ok(w) ==> wallet_matches(w, mnemonic_str@, network, 0, 0),
        r matches Err(e) ==> e == WalletError::InvalidMnemonic || e == WalletError::KeyDerivation,
{
    derive_address_at_index(mnemonic_str, network, 0, 0)
}

/// Whether a text is a valid English recovery phrase.
pub fn validate_mnemonic(mnemonic_str: &str) -> (r: bool)
    ensures
        r == bip39_accepts(mnemonic_str@),
{
    phrase_accepted(mnemonic_str)
}

/// The wallet at account 0, index 0 of the phrase that encodes 128 bits of
/// entropy.
pub fn wallet_from_entropy(entropy: &[u8], network: NetworkKind) -> (r: Result<
    WalletData,
    WalletError,
>)
    requires
        entropy@.len() == 16,
    ensures
        r matches Ok(w) ==> w.mnemonic@ == bip39_phrase(entropy@) && bip39_accepts(w.mnemonic@)
            && wallet_matches(w, bip39_phrase(entropy@), network, 0, 0),
        r is Ok <==> wallet_derivable(bip39_phrase(entropy@), network, 0, 0),
        r matches Ok(w) ==> wallet_derivable(w.mnemonic@, network, 0, 0),
        r matches Err(e) ==> e == WalletError::KeyDerivation,
{
    let phrase = match phrase_from_entropy(entropy) {
        Ok(p) => p,
        Err(_) => {
            return Err(WalletError::KeyDerivation);
        },
    };
    restore_from_mnemonic(phrase.as_str(), network)
}

/// A new wallet from 128 bits of entropy drawn from the operating system.
pub fn create_wallet(network: NetworkKind) -> (r: Result<WalletData, WalletError>)
    ensures
        r matches Ok(w) ==> bip39_accepts(w.mnemonic@) && exists|e: Seq<u8>|
            e.len() == 16 && w.mnemonic@ == bip39_phrase(e) && wallet_matches(
                w,
                #[trigger] bip39_phrase(e),
                network,
                0,
                0,
            ),
        r matches Ok(w) ==> wallet_derivable(w.mnemonic@, network, 0, 0),
        r matches Err(e) ==> e == WalletError::EntropySource || e == WalletError::KeyDerivation,
{
    let entropy = match random_entropy(16) {
        Ok(e) => e,
        Err(_) => {
            return Err(WalletError::EntropySource);
        },
    };
    wallet_from_entropy(entropy.as_slice(), network)
}

/// The same phrase, network, account and index give the same keys and
/// address, whenever and wherever they are derived.
pub proof fn lemma_derivation_deterministic(
    w1: WalletData,
    w2: WalletData,
    phrase: Seq<char>,
    n: NetworkKind,
    account: u32,
    index: u32,
)
    requires
        wallet_matches(w1, phrase, n, account, index),
        wallet_matches(w2, phrase, n, account, index),
    ensures
        w1.private_key@ == w2.private_key@,
        w1.public_key@ == w2.public_key@,
        w1.address@ == w2.address@,
        w1.mnemonic@ == w2.mnemonic@,
{
}

/// The test, signet and regtest networks give the same secret key, and so
/// the same public key, at every account and index: the network changes
/// only how keys and addresses are written.
pub proof fn lemma_test_networks_share_keys(seed: Seq<u8>, account: u32, index: u32)
    ensures
        wallet_secret(seed, NetworkKind::Testnet, account, index) == wallet_secret(seed, NetworkKind::Signet, account, index),
        wallet_secret(seed, NetworkKind::Testnet, account, index) == wallet_secret(seed, NetworkKind::Regtest, account, index),
{
    assert(wallet_path(NetworkKind::Testnet, account, index) == wallet_path(NetworkKind::Signet, account, index));
    assert(wallet_path(NetworkKind::Testnet, account, index) == wallet_path(NetworkKind::Regtest, account, index));
}

/// Restoring from the phrase of a generated wallet, on the same network,
/// gives back the same keys and address.
pub proof fn lemma_restore_round_trip(generated: WalletData, restored: WalletData, n: NetworkKind)
    requires
        exists|e: Seq<u8>|
            e.len() == 16 && generated.mnemonic@ == bip39_phrase(e) && wallet_matches(
                generated,
                #[trigger] bip39_phrase(e),
                n,
                0,
                0,
            ),
        wallet_matches(restored, generated.mnemonic@, n, 0, 0),
    ensures
        restored.private_key@ == generated.private_key@,
        restored.public_key@ == generated.public_key@,
        restored.address@ == generated.address@,
        restored.mnemonic@ == generated.mnemonic@,
{
}

} // verus!
