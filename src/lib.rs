//! A deterministic wallet engine for witness key hash (P2WPKH) spending:
//! recovery phrases, hierarchical key derivation, addresses, transaction
//! building and signing, fee estimation and amount conversion.
use vstd::prelude::*;

pub mod amount;
pub mod fee;
pub mod hex;
pub mod network;
pub mod keys;
pub mod bip32;
pub mod wallet;
pub mod transaction;

use crate::amount::{is_valid_amount_internal, within_supply_cap};
use crate::keys::{
    address_parses, address_script, address_valid_for, bip39_accepts, bip39_phrase,
};
use crate::network::{network_from_code, network_of_code};
use crate::wallet::{wallet_derivable, create_wallet, restore_from_mnemonic, wallet_matches, WalletData, WalletError};

verus! {

/// A new wallet on the network that the selector names (see
/// `network_from_code`).
pub fn generate_wallet(network_type: i32) -> (r: Result<WalletData, WalletError>)
    ensures
        r matches Ok(w) ==> bip39_accepts(w.mnemonic@) && exists|e: Seq<u8>|
            e.len() == 16 && w.mnemonic@ == bip39_phrase(e) && wallet_matches(
                w,
                #[trigger] bip39_phrase(e),
                network_of_code(network_type),
                0,
                0,
            ),
        r matches Ok(w) ==> wallet_derivable(w.mnemonic@, network_of_code(network_type), 0, 0),
        r matches Err(e) ==> e == WalletError::EntropySource || e == WalletError::KeyDerivation,
{
    create_wallet(network_from_code(network_type))
}

/// The wallet of a recovery phrase on the network that the selector names.
pub fn restore_wallet_from_mnemonic(mnemonic_str: &str, network_type: i32) -> (r: Result<
    WalletData,
    WalletError,
>)
    ensures
        !bip39_accepts(mnemonic_str@) <==> r == Err::<WalletData, WalletError>(
            WalletError::InvalidMnemonic,
        ),
        bip39_accepts(mnemonic_str@) ==> (r is Ok <==> wallet_derivable(mnemonic_str@, network_of_code(network_type), 0, 0)),
        r matches Ok(w) ==> wallet_matches(w, mnemonic_str@, network_of_code(network_type), 0, 0),
        r matches Err(e) ==> e == WalletError::InvalidMnemonic || e == WalletError::KeyDerivation,
{
    restore_from_mnemonic(mnemonic_str, network_from_code(network_type))
}

/// Whether a text is an address valid on the network that the selector
/// names.
pub fn validate_address(address_str: &str, network_type: i32) -> (r: bool)
    ensures
        r == (address_parses(address_str@) && address_valid_for(address_str@, network_of_code(network_type))),
{
    address_script(address_str, network_from_code(network_type)).is_ok()
}

/// Whether an amount in the smallest unit lies within the total supply.
pub fn is_valid_amount(satoshis: u64) -> (r: bool)
    ensures
        r == within_supply_cap(satoshis as int),
{
    is_valid_amount_internal(satoshis)
}

} // verus!
