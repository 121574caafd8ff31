//! The checkable half of fee binding.
//!
//! Every state-changing call carries a caller-supplied, consensus-encoded
//! Bitcoin transaction meant to cover its fees.  Building the state
//! transition around it and submitting it for signing is the substrate's
//! work; what this module settles — and what the error taxonomy needs — is
//! whether the bytes parse as a transaction at all, and whether that
//! transaction carries a spendable input.

use vstd::prelude::*;

use crate::errors::VotingError;

verus! {

/// The number of inputs of the Bitcoin transaction the bytes encode, or
/// `None` when the bytes are not exactly one consensus-encoded transaction.
pub uninterp spec fn fee_tx_input_count(tx: Seq<u8>) -> Option<u64>;

/// Relies on `bitcoin::consensus::deserialize::<Transaction>` (reached
/// through `arch_program`'s re-export): whether and how a byte string
/// parses is a function of the bytes alone, and the parse fails unless the
/// bytes are consumed entirely.  The wrapper hands back how many inputs the
/// parsed transaction carries.
#[verifier::external_body]
fn parse_fee_tx_input_count(tx_hex: &[u8]) -> (r: Option<u64>)
    ensures
        r == fee_tx_input_count(tx_hex@),
{
    match arch_program::bitcoin::consensus::deserialize::<arch_program::bitcoin::Transaction>(
        tx_hex,
    ) {
        Ok(tx) => Some(tx.input.len() as u64),
        Err(_) => None,
    }
}

/// Checks the fee-covering transfer of a call: undecodable bytes are an
/// invalid fee transaction, a transaction without inputs has nothing to
/// spend, and otherwise the input count is handed back for the substrate to
/// bind.
pub fn validate_fee_transaction(tx_hex: &[u8]) -> (r: Result<u64, VotingError>)
    ensures
        r == match fee_tx_input_count(tx_hex@) {
            None => Err::<u64, VotingError>(VotingError::InvalidFeeTransaction),
            Some(n) => if n == 0 {
                Err::<u64, VotingError>(VotingError::InsufficientFees)
            } else {
                Ok::<u64, VotingError>(n)
            },
        },
{
    match parse_fee_tx_input_count(tx_hex) {
        None => Err(VotingError::InvalidFeeTransaction),
        Some(n) => if n == 0 {
            Err(VotingError::InsufficientFees)
        } else {
            Ok(n)
        },
    }
}

} // verus!
