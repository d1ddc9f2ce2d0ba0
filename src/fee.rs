//! Virtual size and fee estimation for witness key hash transactions.
use vstd::prelude::*;
use crate::transaction::{TransactionInput, TransactionOutput};

verus! {

/// Bytes of a transaction that do not depend on its inputs or outputs.
pub const TX_OVERHEAD_BYTES: usize = 10;

/// Non-witness bytes of one input spending a witness key hash output.
pub const INPUT_BYTES: usize = 41;

/// Witness bytes of one such input: a signature and a compressed key.
pub const INPUT_WITNESS_BYTES: usize = 107;

/// Bytes of one output paying to a witness key hash.
pub const OUTPUT_BYTES: usize = 31;

/// Weight of a transaction: non-witness bytes count four times, witness
/// bytes once.
pub open spec fn tx_weight(inputs: nat, outputs: nat) -> nat {
    ((TX_OVERHEAD_BYTES + INPUT_BYTES * inputs + OUTPUT_BYTES * outputs) * 4 + INPUT_WITNESS_BYTES
        * inputs) as nat
}

/// Virtual size: the weight divided by four, rounded up.
pub open spec fn tx_vsize(inputs: nat, outputs: nat) -> nat {
    (tx_weight(inputs, outputs) + 3) / 4
}

/// Virtual size of a transaction with `input_count` witness key hash inputs
/// and `output_count` witness key hash outputs.
pub fn estimate_transaction_size(input_count: usize, output_count: usize) -> (r: usize)
    requires
        tx_weight(input_count as nat, output_count as nat) + 3 <= usize::MAX,
    ensures
        r == tx_vsize(input_count as nat, output_count as nat),
{
    let non_witness = TX_OVERHEAD_BYTES + INPUT_BYTES * input_count + OUTPUT_BYTES * output_count;
    let weight = non_witness * 4 + INPUT_WITNESS_BYTES * input_count;
    (weight + 3) / 4
}

/// The virtual size grows with the number of inputs and with the number of
/// outputs.
pub proof fn lemma_vsize_monotone(i1: nat, o1: nat, i2: nat, o2: nat)
    requires
        i1 <= i2,
        o1 <= o2,
    ensures
        tx_vsize(i1, o1) <= tx_vsize(i2, o2),
{
    let a = tx_weight(i1, o1) + 3;
    let b = tx_weight(i2, o2) + 3;
    assert(a <= b);
    assert(a / 4 <= b / 4) by (nonlinear_arith)
        requires
            a <= b,
    ;
}

/// Why a fee could not be given.
#[derive(Clone, Copy, Debug, PartialEq, Eq, Structural)]
pub enum FeeError {
    /// The fee does not fit in 64 bits.
    Overflow,
}

/// The fee of a transaction: its virtual size times the fee rate.
pub open spec fn fee_result(inputs: nat, outputs: nat, fee_rate: u64) -> Result<u64, FeeError> {
    if tx_vsize(inputs, outputs) * fee_rate <= u64::MAX {
        Ok((tx_vsize(inputs, outputs) * fee_rate) as u64)
    } else {
        Err(FeeError::Overflow)
    }
}

/// Fee, in the smallest unit, of spending `inputs` to `outputs` at
/// `fee_rate` per virtual byte.
pub fn calculate_transaction_fee(
    inputs: &[TransactionInput],
    outputs: &[TransactionOutput],
    fee_rate: u64,
) -> (r: Result<u64, FeeError>)
    ensures
        r == fee_result(inputs@.len(), outputs@.len(), fee_rate),
{
    let i = inputs.len() as u128;
    let o = outputs.len() as u128;
    assert(41 * i <= 41 * 0xffff_ffff_ffff_ffffu128 && 31 * o <= 31 * 0xffff_ffff_ffff_ffffu128) by (nonlinear_arith)
        requires
            i <= 0xffff_ffff_ffff_ffffu128,
            o <= 0xffff_ffff_ffff_ffffu128,
    ;
    let non_witness = TX_OVERHEAD_BYTES as u128 + INPUT_BYTES as u128 * i + OUTPUT_BYTES as u128 * o;
    let weight = non_witness * 4 + INPUT_WITNESS_BYTES as u128 * i;
    let vsize = (weight + 3) / 4;
    assert(vsize == tx_vsize(inputs@.len(), outputs@.len()));
    if fee_rate == 0 {
        return Ok(0);
    }
    let limit = (u64::MAX as u128) / (fee_rate as u128);
    if vsize > limit {
        assert(vsize * fee_rate > u64::MAX) by (nonlinear_arith)
            requires
                vsize > limit,
                limit == (u64::MAX as int) / (fee_rate as int),
                fee_rate > 0,
        ;
        Err(FeeError::Overflow)
    } else {
        assert(vsize * fee_rate <= u64::MAX) by (nonlinear_arith)
            requires
                vsize <= limit,
                limit == (u64::MAX as int) / (fee_rate as int),
                fee_rate > 0,
        ;
        Ok((vsize as u64) * fee_rate)
    }
}

} // verus!
