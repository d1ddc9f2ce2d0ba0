//! Networks and the numeric network selector.
use vstd::prelude::*;

verus! {

/// The network a key or address is encoded for. The network changes only
/// the text encoding of keys and addresses, never a key itself.
#[derive(Clone, Copy, Debug, PartialEq, Eq, Structural)]
pub enum NetworkKind {
    Bitcoin,
    Testnet,
    Signet,
    Regtest,
}

/// The network that a numeric selector names: 0 main, 1 test, 2 signet,
/// 3 regtest; any other value selects the test network.
pub open spec fn network_of_code(code: i32) -> NetworkKind {
    if code == 0 {
        NetworkKind::Bitcoin
    } else if code == 2 {
        NetworkKind::Signet
    } else if code == 3 {
        NetworkKind::Regtest
    } else {
        NetworkKind::Testnet
    }
}

pub fn network_from_code(code: i32) -> (r: NetworkKind)
    ensures
        r == network_of_code(code),
{
    match code {
        0 => NetworkKind::Bitcoin,
        1 => NetworkKind::Testnet,
        2 => NetworkKind::Signet,
        3 => NetworkKind::Regtest,
        _ => NetworkKind::Testnet,
    }
}

/// Coin type of the derivation path: 0 on the main network, 1 on every
/// test network.
pub open spec fn coin_type_of(n: NetworkKind) -> u32 {
    if n == NetworkKind::Bitcoin {
        0
    } else {
        1
    }
}

pub fn coin_type(n: NetworkKind) -> (r: u32)
    ensures
        r == coin_type_of(n),
{
    match n {
        NetworkKind::Bitcoin => 0,
        _ => 1,
    }
}

} // verus!
