//! The fee-transaction check against real consensus-encoded transactions.

use arch_program::bitcoin;
use arch_program::bitcoin::absolute::LockTime;
use arch_program::bitcoin::transaction::Version;
use arch_program::bitcoin::OutPoint;
use arch_program::bitcoin::ScriptBuf;
use arch_program::bitcoin::Sequence;
use arch_program::bitcoin::Transaction;
use arch_program::bitcoin::TxIn;
use arch_program::bitcoin::Witness;
use poll_engine::fees::validate_fee_transaction;
use poll_engine::VotingError;

fn one_input_tx() -> Transaction {
    Transaction {
        version: Version::TWO,
        lock_time: LockTime::ZERO,
        input: vec![TxIn {
            previous_output: OutPoint::null(),
            script_sig: ScriptBuf::new(),
            sequence: Sequence::MAX,
            witness: Witness::default(),
        }],
        output: vec![],
    }
}

#[test]
fn fee_transaction_with_an_input_is_accepted() {
    let tx_hex = bitcoin::consensus::serialize(&one_input_tx());
    assert_eq!(validate_fee_transaction(&tx_hex), Ok(1));
}

#[test]
fn fee_transaction_without_inputs_has_insufficient_fees() {
    let tx = Transaction {
        version: Version::TWO,
        lock_time: LockTime::ZERO,
        input: vec![],
        output: vec![],
    };
    let tx_hex = bitcoin::consensus::serialize(&tx);
    assert_eq!(validate_fee_transaction(&tx_hex), Err(VotingError::InsufficientFees));
}

#[test]
fn garbage_bytes_are_an_invalid_fee_transaction() {
    assert_eq!(
        validate_fee_transaction(&[1, 2, 3]),
        Err(VotingError::InvalidFeeTransaction)
    );
}

#[test]
fn trailing_bytes_are_an_invalid_fee_transaction() {
    let mut tx_hex = bitcoin::consensus::serialize(&one_input_tx());
    tx_hex.push(0);
    assert_eq!(validate_fee_transaction(&tx_hex), Err(VotingError::InvalidFeeTransaction));
}
