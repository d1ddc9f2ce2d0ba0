use bitcoin_sdk::fee::{calculate_transaction_fee, estimate_transaction_size, FeeError};
use bitcoin_sdk::transaction::{TransactionInput, TransactionOutput};

fn input() -> TransactionInput {
    TransactionInput {
        txid: "00".repeat(32),
        vout: 0,
        amount: 1000,
        script_pubkey: String::new(),
    }
}

fn output() -> TransactionOutput {
    TransactionOutput { address: String::new(), amount: 500 }
}

#[test]
fn vsize_reference_values() {
    // (10 + 41 + 31) * 4 + 107 = 435 weight units, 109 virtual bytes.
    assert_eq!(estimate_transaction_size(1, 1), 109);
    assert_eq!(estimate_transaction_size(0, 0), 10);
    assert_eq!(estimate_transaction_size(2, 1), 177);
    assert_eq!(estimate_transaction_size(1, 2), 140);
}

#[test]
fn vsize_is_monotone() {
    for i in 0..20usize {
        for o in 0..20usize {
            let v = estimate_transaction_size(i, o);
            assert!(estimate_transaction_size(i + 1, o) >= v);
            assert!(estimate_transaction_size(i, o + 1) >= v);
        }
    }
}

#[test]
fn fee_is_vsize_times_rate() {
    let ins = vec![input()];
    let outs = vec![output()];
    assert_eq!(calculate_transaction_fee(&ins, &outs, 10), Ok(1090));
    assert_eq!(calculate_transaction_fee(&ins, &outs, 0), Ok(0));
    assert_eq!(calculate_transaction_fee(&[], &[], 1), Ok(10));
}

#[test]
fn fee_overflow() {
    let ins = vec![input()];
    let outs = vec![output()];
    assert_eq!(calculate_transaction_fee(&ins, &outs, u64::MAX), Err(FeeError::Overflow));
}
