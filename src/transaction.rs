//! Building unsigned transactions and signing their witness key hash inputs.
use vstd::prelude::*;
use crate::hex::{decode_hex, hex_bytes, is_hex_text};
use crate::keys::{
    address_parses, address_script, address_script_of, address_valid_for, compressed_pubkey,
    consensus_bytes, consensus_serialize, ecdsa_der, ecdsa_sign_der, is_p2wpkh_script,
    p2wpkh_sighash, p2wpkh_sighash_of, public_key_of, secret_from_wif, wif_reads, wif_secret,
    AddressFault,
};
use crate::network::NetworkKind;
use crate::wallet::wipe;
use crate::amount::MAX_SUPPLY;

verus! {

/// Transaction version: enables relative lock times.
pub const TX_VERSION: i32 = 2;

/// Sequence number that signals replaceability and no absolute lock time.
pub const SEQUENCE_RBF_NO_LOCKTIME: u32 = 0xFFFF_FFFD;

/// Hash type byte that signs all inputs and all outputs.
pub const SIGHASH_ALL: u8 = 1;

/// A spendable output to consume: its transaction id as hex, its index,
/// its amount in the smallest unit, and its locking script as hex.
pub struct TransactionInput {
    pub txid: String,
    pub vout: u32,
    pub amount: u64,
    pub script_pubkey: String,
}

/// A destination address and the amount it receives.
pub struct TransactionOutput {
    pub address: String,
    pub amount: u64,
}

/// An input of a built transaction; `prev_txid` holds the id's bytes in
/// internal order.
pub struct BuiltInput {
    pub prev_txid: Vec<u8>,
    pub vout: u32,
    pub sequence: u32,
    pub script_sig: Vec<u8>,
    pub witness: Vec<Vec<u8>>,
}

/// An output of a built transaction.
pub struct BuiltOutput {
    pub value: u64,
    pub script_pubkey: Vec<u8>,
}

pub struct BuiltTransaction {
    pub version: i32,
    pub lock_time: u32,
    pub input: Vec<BuiltInput>,
    pub output: Vec<BuiltOutput>,
}

impl BuiltTransaction {
    /// Every input refers to a 32-byte transaction id.
    pub open spec fn inputs_well_formed(&self) -> bool {
        forall|i: int| 0 <= i < self.input@.len() ==> (#[trigger] self.input@[i]).prev_txid@.len() == 32
    }
}

/// A built transaction paired with the metadata of each input that signing
/// needs.
pub struct UnsignedTransaction {
    pub transaction: BuiltTransaction,
    pub inputs_info: Vec<TransactionInput>,
}

impl UnsignedTransaction {
    /// One metadata record per input, and well-formed inputs.
    pub open spec fn wf(&self) -> bool {
        &&& self.inputs_info@.len() == self.transaction.input@.len()
        &&& self.transaction.inputs_well_formed()
    }
}

/// Why a transaction could not be built or signed.
#[derive(Clone, Copy, Debug, PartialEq, Eq, Structural)]
pub enum TransactionError {
    /// A transaction id is not 64 hexadecimal digits.
    InvalidReference,
    /// An address does not parse.
    InvalidAddress,
    /// An address parses but belongs to another network.
    AddressNetworkMismatch,
    /// An output pays more than the total supply.
    AmountAboveSupply,
    /// Fewer private keys than inputs.
    InsufficientKeys,
    /// A private key is not valid WIF text.
    InvalidPrivateKey,
    /// A locking script is not hex, or does not pay to a witness key hash.
    InvalidScript,
    /// The signature could not be made.
    Signing,
}

pub open spec fn txid_valid(s: Seq<char>) -> bool {
    s.len() == 64 && is_hex_text(s)
}

/// The bytes of a transaction id text, which is written in reverse byte
/// order.
pub open spec fn txid_bytes(s: Seq<char>) -> Seq<u8> {
    hex_bytes(s).reverse()
}

/// Reads a transaction id written as 64 hexadecimal digits.
pub fn parse_txid(s: &str) -> (r: Option<Vec<u8>>)
    ensures
        r is Some <==> txid_valid(s@),
        r matches Some(v) ==> v@ == txid_bytes(s@) && v@.len() == 32,
{
    let bytes = match decode_hex(s) {
        Some(b) => b,
        None => {
            return None;
        },
    };
    if bytes.len() != 32 {
        return None;
    }
    let mut out: Vec<u8> = Vec::new();
    let mut i: usize = 0;
    while i < 32
        invariant
            i <= 32,
            bytes@.len() == 32,
            out@ == bytes@.reverse().take(i as int),
        decreases 32 - i,
    {
        out.push(bytes[31 - i]);
        proof {
            assert(out@ =~= bytes@.reverse().take(i + 1));
        }
        i = i + 1;
    }
    proof {
        assert(out@ =~= bytes@.reverse());
    }
    Some(out)
}

/// The input that spending `i` adds: empty unlocking script and witness,
/// replaceable sequence.
pub open spec fn built_input(i: TransactionInput, t: BuiltInput) -> bool {
    &&& t.prev_txid@ == txid_bytes(i.txid@)
    &&& t.vout == i.vout
    &&& t.sequence == SEQUENCE_RBF_NO_LOCKTIME
    &&& t.script_sig@.len() == 0
    &&& t.witness@.len() == 0
}

pub open spec fn built_output(o: TransactionOutput, t: BuiltOutput) -> bool {
    t.value == o.amount && t.script_pubkey@ == address_script_of(o.address@)
}

/// What is wrong with one output's address on a network, if anything.
pub open spec fn output_fault(o: TransactionOutput, n: NetworkKind) -> Option<TransactionError> {
    if !address_parses(o.address@) {
        Some(TransactionError::InvalidAddress)
    } else if !address_valid_for(o.address@, n) {
        Some(TransactionError::AddressNetworkMismatch)
    } else if o.amount > MAX_SUPPLY {
        Some(TransactionError::AmountAboveSupply)
    } else {
        None
    }
}

/// The fault of the first output that has one.
pub open spec fn first_output_fault(outs: Seq<TransactionOutput>, n: NetworkKind) -> Option<
    TransactionError,
>
    decreases outs.len(),
{
    if outs.len() == 0 {
        None
    } else {
        match first_output_fault(outs.drop_last(), n) {
            Some(e) => Some(e),
            None => output_fault(outs.last(), n),
        }
    }
}

pub open spec fn all_txids_valid(ins: Seq<TransactionInput>) -> bool {
    forall|i: int| 0 <= i < ins.len() ==> txid_valid((#[trigger] ins[i]).txid@)
}

/// Builds a version 2 transaction with lock time 0 that spends `inputs`
/// and pays `outputs`, keeping each input's metadata for signing.
pub fn create_transaction(
    inputs: Vec<TransactionInput>,
    outputs: Vec<TransactionOutput>,
    network: NetworkKind,
) -> (r: Result<UnsignedTransaction, TransactionError>)
    ensures
        !all_txids_valid(inputs@) ==> r == Err::<UnsignedTransaction, TransactionError>(
            TransactionError::InvalidReference,
        ),
        all_txids_valid(inputs@) ==> match first_output_fault(outputs@, network) {
            Some(e) => r == Err::<UnsignedTransaction, TransactionError>(e),
            None => r is Ok,
        },
        r matches Ok(u) ==> {
            &&& u.wf()
            &&& u.transaction.version == TX_VERSION
            &&& u.transaction.lock_time == 0
            &&& u.inputs_info@ == inputs@
            &&& u.transaction.input@.len() == inputs@.len()
            &&& forall|i: int|
                0 <= i < inputs@.len() ==> built_input(inputs@[i], #[trigger] u.transaction.input@[i])
            &&& u.transaction.output@.len() == outputs@.len()
            &&& forall|j: int|
                0 <= j < outputs@.len() ==> built_output(outputs@[j], #[trigger] u.transaction.output@[j])
        },
{
    let mut tx_inputs: Vec<BuiltInput> = Vec::new();
    let mut i: usize = 0;
    while i < inputs.len()
        invariant
            i <= inputs@.len(),
            tx_inputs@.len() == i,
            forall|k: int| 0 <= k < i ==> txid_valid((#[trigger] inputs@[k]).txid@),
            forall|k: int| 0 <= k < i ==> built_input(inputs@[k], #[trigger] tx_inputs@[k]),
            forall|k: int| 0 <= k < i ==> (#[trigger] tx_inputs@[k]).prev_txid@.len() == 32,
        decreases inputs@.len() - i,
    {
        let prev_txid = match parse_txid(inputs[i].txid.as_str()) {
            Some(t) => t,
            None => {
                return Err(TransactionError::InvalidReference);
            },
        };
        tx_inputs.push(
            BuiltInput {
                prev_txid,
                vout: inputs[i].vout,
                sequence: SEQUENCE_RBF_NO_LOCKTIME,
                script_sig: Vec::new(),
                witness: Vec::new(),
            },
        );
        i = i + 1;
    }
    let mut tx_outputs: Vec<BuiltOutput> = Vec::new();
    let mut j: usize = 0;
    while j < outputs.len()
        invariant
            j <= outputs@.len(),
            tx_outputs@.len() == j,
            all_txids_valid(inputs@),
            tx_inputs@.len() == inputs@.len(),
            forall|k: int| 0 <= k < inputs@.len() ==> built_input(inputs@[k], #[trigger] tx_inputs@[k]),
            forall|k: int| 0 <= k < inputs@.len() ==> (#[trigger] tx_inputs@[k]).prev_txid@.len() == 32,
            first_output_fault(outputs@.take(j as int), network) is None,
            forall|k: int| 0 <= k < j ==> built_output(outputs@[k], #[trigger] tx_outputs@[k]),
        decreases outputs@.len() - j,
    {
        proof {
            assert(outputs@.take(j + 1).drop_last() =~= outputs@.take(j as int));
        }
        let script = match address_script(outputs[j].address.as_str(), network) {
            Ok(s) => s,
            Err(AddressFault::Unreadable) => {
                proof {
                    lemma_first_fault_prefix(outputs@, network, j + 1);
                }
                return Err(TransactionError::InvalidAddress);
            },
            Err(AddressFault::WrongNetwork) => {
                proof {
                    lemma_first_fault_prefix(outputs@, network, j + 1);
                }
                return Err(TransactionError::AddressNetworkMismatch);
            },
        };
        if outputs[j].amount > MAX_SUPPLY {
            proof {
                lemma_first_fault_prefix(outputs@, network, j + 1);
            }
            return Err(TransactionError::AmountAboveSupply);
        }
        tx_outputs.push(BuiltOutput { value: outputs[j].amount, script_pubkey: script });
        j = j + 1;
    }
    proof {
        assert(outputs@.take(outputs@.len() as int) =~= outputs@);
    }
    let transaction = BuiltTransaction {
        version: TX_VERSION,
        lock_time: 0,
        input: tx_inputs,
        output: tx_outputs,
    };
    Ok(UnsignedTransaction { transaction, inputs_info: inputs })
}

/// A fault among the first `k` outputs is the first fault of all of them.
proof fn lemma_first_fault_prefix(outs: Seq<TransactionOutput>, n: NetworkKind, k: int)
    requires
        0 <= k <= outs.len(),
        first_output_fault(outs.take(k), n) is Some,
    ensures
        first_output_fault(outs, n) == first_output_fault(outs.take(k), n),
    decreases outs.len(),
{
    if k < outs.len() {
        assert(outs.drop_last().take(k) =~= outs.take(k));
        lemma_first_fault_prefix(outs.drop_last(), n, k);
    } else {
        assert(outs.take(k) =~= outs);
    }
}

/// The witness that signing input `i` of `tx` with the WIF key `key`
/// attaches: the DER signature with the hash type byte appended, then the
/// compressed public key.
pub open spec fn signed_witness(
    tx: BuiltTransaction,
    i: int,
    info: TransactionInput,
    key: Seq<char>,
) -> Seq<Seq<u8>> {
    let secret = wif_secret(key);
    let digest = p2wpkh_sighash_of(tx, i as nat, hex_bytes(info.script_pubkey@), info.amount);
    seq![ecdsa_der(secret, digest).push(SIGHASH_ALL), compressed_pubkey(secret)]
}

pub open spec fn witness_view(w: Seq<Vec<u8>>) -> Seq<Seq<u8>> {
    w.map_values(|item: Vec<u8>| item@)
}

/// Input `t` is input `u` with `witness` attached.
pub open spec fn input_signed(u: BuiltInput, t: BuiltInput, witness: Seq<Seq<u8>>) -> bool {
    &&& t.prev_txid@ == u.prev_txid@
    &&& t.vout == u.vout
    &&& t.sequence == u.sequence
    &&& t.script_sig@ == u.script_sig@
    &&& witness_view(t.witness@) == witness
}

/// The input's locking script is hex text of a witness key hash script.
pub open spec fn spends_key_hash(info: TransactionInput) -> bool {
    is_hex_text(info.script_pubkey@) && is_p2wpkh_script(hex_bytes(info.script_pubkey@))
}

/// What stops input `info` from being signed with the WIF key `key`.
pub open spec fn input_fault(info: TransactionInput, key: Seq<char>) -> Option<TransactionError> {
    if !wif_reads(key) {
        Some(TransactionError::InvalidPrivateKey)
    } else if !spends_key_hash(info) {
        Some(TransactionError::InvalidScript)
    } else {
        None
    }
}

/// The fault of the first of the first `k` inputs that has one.
pub open spec fn first_input_fault(infos: Seq<TransactionInput>, keys: Seq<&str>, k: nat) -> Option<
    TransactionError,
>
    decreases k,
{
    if k == 0 {
        None
    } else {
        match first_input_fault(infos, keys, (k - 1) as nat) {
            Some(e) => Some(e),
            None => input_fault(infos[k - 1], keys[k - 1]@),
        }
    }
}

proof fn lemma_first_input_fault_prefix(infos: Seq<TransactionInput>, keys: Seq<&str>, k: nat, m: nat)
    requires
        k <= m,
        first_input_fault(infos, keys, k) is Some,
    ensures
        first_input_fault(infos, keys, m) == first_input_fault(infos, keys, k),
    decreases m,
{
    if k < m {
        lemma_first_input_fault_prefix(infos, keys, k, (m - 1) as nat);
    }
}

/// Signs every input of an unsigned transaction with the key of the same
/// position, attaching to each a two-item witness.
pub fn sign_transaction(
    unsigned_tx: UnsignedTransaction,
    private_keys: Vec<&str>,
    _network: NetworkKind,
) -> (r: Result<BuiltTransaction, TransactionError>)
    requires
        unsigned_tx.wf(),
    ensures
        private_keys@.len() < unsigned_tx.inputs_info@.len() <==> r == Err::<BuiltTransaction, TransactionError>(TransactionError::InsufficientKeys),
        r matches Ok(t) ==> {
            &&& t.inputs_well_formed()
            &&& t.version == unsigned_tx.transaction.version
            &&& t.lock_time == unsigned_tx.transaction.lock_time
            &&& t.output == unsigned_tx.transaction.output
            &&& t.input@.len() == unsigned_tx.transaction.input@.len()
            &&& forall|i: int|
                0 <= i < t.input@.len() ==> input_signed(
                    unsigned_tx.transaction.input@[i],
                    #[trigger] t.input@[i],
                    signed_witness(unsigned_tx.transaction, i, unsigned_tx.inputs_info@[i], private_keys@[i]@),
                )
        },
        unsigned_tx.inputs_info@.len() <= private_keys@.len() ==> match first_input_fault(unsigned_tx.inputs_info@, private_keys@, unsigned_tx.inputs_info@.len()) {
            Some(e) => r == Err::<BuiltTransaction, TransactionError>(e),
            None => r is Ok,
        },
{
    let n = unsigned_tx.inputs_info.len();
    if private_keys.len() < n {
        return Err(TransactionError::InsufficientKeys);
    }
    let mut inputs: Vec<BuiltInput> = Vec::new();
    let mut i: usize = 0;
    while i < n
        invariant
            n == unsigned_tx.inputs_info@.len() == unsigned_tx.transaction.input@.len(),
            n <= private_keys@.len(),
            unsigned_tx.wf(),
            i <= n,
            inputs@.len() == i,
            first_input_fault(unsigned_tx.inputs_info@, private_keys@, i as nat) is None,
            forall|k: int| 0 <= k < i ==> (#[trigger] inputs@[k]).prev_txid@.len() == 32,
            forall|k: int|
                0 <= k < i ==> input_signed(
                    unsigned_tx.transaction.input@[k],
                    #[trigger] inputs@[k],
                    signed_witness(unsigned_tx.transaction, k, unsigned_tx.inputs_info@[k], private_keys@[k]@),
                ),
        decreases n - i,
    {
        let info = &unsigned_tx.inputs_info[i];
        let mut secret = match secret_from_wif(private_keys[i]) {
            Ok(s) => s,
            Err(_) => {
                proof {
                    assert(first_input_fault(unsigned_tx.inputs_info@, private_keys@, (i + 1) as nat) is Some);
                    lemma_first_input_fault_prefix(unsigned_tx.inputs_info@, private_keys@, (i + 1) as nat, n as nat);
                }
                return Err(TransactionError::InvalidPrivateKey);
            },
        };
        let script = match decode_hex(info.script_pubkey.as_str()) {
            Some(s) => s,
            None => {
                proof {
                    assert(!spends_key_hash(unsigned_tx.inputs_info@[i as int]));
                    assert(first_input_fault(unsigned_tx.inputs_info@, private_keys@, (i + 1) as nat) is Some);
                    lemma_first_input_fault_prefix(unsigned_tx.inputs_info@, private_keys@, (i + 1) as nat, n as nat);
                }
                return Err(TransactionError::InvalidScript);
            },
        };
        let digest = match p2wpkh_sighash(&unsigned_tx.transaction, i, script.as_slice(), info.amount) {
            Ok(d) => d,
            Err(_) => {
                proof {
                    assert(!spends_key_hash(unsigned_tx.inputs_info@[i as int]));
                    assert(first_input_fault(unsigned_tx.inputs_info@, private_keys@, (i + 1) as nat) is Some);
                    lemma_first_input_fault_prefix(unsigned_tx.inputs_info@, private_keys@, (i + 1) as nat, n as nat);
                }
                return Err(TransactionError::InvalidScript);
            },
        };
        let signed = ecdsa_sign_der(&secret, &digest);
        let pubkey = public_key_of(&secret);
        wipe(&mut secret);
        let mut signature = match signed {
            Ok(s) => s,
            Err(_) => {
                return Err(TransactionError::Signing);
            },
        };
        signature.push(SIGHASH_ALL);
        let pubkey = match pubkey {
            Ok(p) => p,
            Err(_) => {
                return Err(TransactionError::Signing);
            },
        };
        let mut witness: Vec<Vec<u8>> = Vec::new();
        witness.push(signature);
        witness.push(pubkey);
        let prev = &unsigned_tx.transaction.input[i];
        let prev_txid = prev.prev_txid.clone();
        let script_sig = prev.script_sig.clone();
        proof {
            assert(prev_txid@ =~= prev.prev_txid@);
            assert(script_sig@ =~= prev.script_sig@);
            assert(first_input_fault(unsigned_tx.inputs_info@, private_keys@, (i + 1) as nat) is None);
            assert(witness_view(witness@) =~= signed_witness(unsigned_tx.transaction, i as int, unsigned_tx.inputs_info@[i as int], private_keys@[i as int]@));
        }
        inputs.push(BuiltInput { prev_txid, vout: prev.vout, sequence: prev.sequence, script_sig, witness });
        i = i + 1;
    }
    let version = unsigned_tx.transaction.version;
    let lock_time = unsigned_tx.transaction.lock_time;
    Ok(BuiltTransaction { version, lock_time, input: inputs, output: unsigned_tx.transaction.output })
}

/// The consensus bytes of a transaction, ready to broadcast.
pub fn serialize_transaction(tx: &BuiltTransaction) -> (r: Vec<u8>)
    requires
        tx.inputs_well_formed(),
    ensures
        r@ == consensus_bytes(*tx),
{
    consensus_serialize(tx)
}

} // verus!
