//! The operation interface: instruction payloads, call shape, and the
//! decoded state of optional account records.

use vstd::prelude::*;

use crate::entities::opt_bytes_view;
use crate::errors::OpError;
use crate::keys::PubKey;

verus! {

/// What an operation sees of the call it was given, before any record is
/// decoded: how many account records were supplied, whether the caller's
/// account signed the call, and whether every account the operation writes
/// was marked writable.
#[derive(Debug, Clone, Copy)]
pub struct CallShape {
    pub n_accounts: usize,
    pub caller_is_signer: bool,
    pub writable_ok: bool,
}

/// The shape failure of a call, checked before anything else: too few
/// accounts, then a missing signature, then a non-writable account.
pub open spec fn shape_error(shape: CallShape, min_accounts: int) -> Option<OpError> {
    if shape.n_accounts < min_accounts {
        Some(OpError::NotEnoughAccountKeys)
    } else if !shape.caller_is_signer {
        Some(OpError::MissingRequiredSignature)
    } else if !shape.writable_ok {
        Some(OpError::InvalidAccountData)
    } else {
        None
    }
}

/// Checks the shape of a call against the number of accounts it must carry.
pub fn check_shape(shape: &CallShape, min_accounts: usize) -> (r: Result<(), OpError>)
    ensures
        r == match shape_error(*shape, min_accounts as int) {
            Some(e) => Err::<(), OpError>(e),
            None => Ok::<(), OpError>(()),
        },
{
    if shape.n_accounts < min_accounts {
        Err(OpError::NotEnoughAccountKeys)
    } else if !shape.caller_is_signer {
        Err(OpError::MissingRequiredSignature)
    } else if !shape.writable_ok {
        Err(OpError::InvalidAccountData)
    } else {
        Ok(())
    }
}

/// The decoded state of an optional account record: not supplied at all,
/// supplied but undecodable, or decoded.
#[derive(Debug, Clone)]
pub enum MaybeAccount<T> {
    Absent,
    Invalid,
    Decoded(T),
}

/// View of an optionally supplied record: `None` when absent, `Some(None)`
/// when supplied but undecodable, `Some(Some(v))` when decoded.
pub open spec fn maybe_view<T: View>(m: MaybeAccount<T>) -> Option<Option<T::V>> {
    match m {
        MaybeAccount::Absent => None,
        MaybeAccount::Invalid => Some(None),
        MaybeAccount::Decoded(t) => Some(Some(t@)),
    }
}

/// The caller-supplied payload of a CastVote operation.
#[derive(Debug, Clone)]
pub struct CastVoteArgs {
    pub poll_id: u64,
    pub option_index: u8,
    pub weight: Option<u64>,
    pub encrypted_data: Option<Vec<u8>>,
    pub zk_proof: Option<Vec<u8>>,
    pub nonce: Option<Vec<u8>>,
}

/// Mathematical view of a `CastVoteArgs`.
pub ghost struct CastVoteArgsV {
    pub poll_id: u64,
    pub option_index: u8,
    pub weight: Option<u64>,
    pub encrypted_data: Option<Seq<u8>>,
    pub zk_proof: Option<Seq<u8>>,
    pub nonce: Option<Seq<u8>>,
}

impl View for CastVoteArgs {
    type V = CastVoteArgsV;

    open spec fn view(&self) -> CastVoteArgsV {
        CastVoteArgsV {
            poll_id: self.poll_id,
            option_index: self.option_index,
            weight: self.weight,
            encrypted_data: opt_bytes_view(self.encrypted_data),
            zk_proof: opt_bytes_view(self.zk_proof),
            nonce: opt_bytes_view(self.nonce),
        }
    }
}

/// The caller-supplied payload of a ChangeVote operation.
#[derive(Debug, Clone)]
pub struct ChangeVoteArgs {
    pub poll_id: u64,
    pub new_option_index: u8,
    pub new_encrypted_data: Option<Vec<u8>>,
    pub new_zk_proof: Option<Vec<u8>>,
    pub new_nonce: Option<Vec<u8>>,
}

/// Mathematical view of a `ChangeVoteArgs`.
pub ghost struct ChangeVoteArgsV {
    pub poll_id: u64,
    pub new_option_index: u8,
    pub new_encrypted_data: Option<Seq<u8>>,
    pub new_zk_proof: Option<Seq<u8>>,
    pub new_nonce: Option<Seq<u8>>,
}

impl View for ChangeVoteArgs {
    type V = ChangeVoteArgsV;

    open spec fn view(&self) -> ChangeVoteArgsV {
        ChangeVoteArgsV {
            poll_id: self.poll_id,
            new_option_index: self.new_option_index,
            new_encrypted_data: opt_bytes_view(self.new_encrypted_data),
            new_zk_proof: opt_bytes_view(self.new_zk_proof),
            new_nonce: opt_bytes_view(self.new_nonce),
        }
    }
}

/// The caller-supplied parameters of a CreatePoll operation.
#[derive(Debug, Clone)]
pub struct CreatePollParams {
    pub title: Vec<u8>,
    pub description: Vec<u8>,
    pub options: Vec<Vec<u8>>,
    pub start_time: u64,
    pub end_time: u64,
    pub is_private: bool,
    pub allow_revote: bool,
    pub is_weighted: bool,
    pub allow_delegation: bool,
    pub is_encrypted: bool,
    pub weight_token: Option<PubKey>,
    pub early_voter_bonus: u8,
}

/// Mathematical view of a `CreatePollParams`.
pub ghost struct CreatePollParamsV {
    pub title: Seq<u8>,
    pub description: Seq<u8>,
    pub options: Seq<Seq<u8>>,
    pub start_time: u64,
    pub end_time: u64,
    pub is_private: bool,
    pub allow_revote: bool,
    pub is_weighted: bool,
    pub allow_delegation: bool,
    pub is_encrypted: bool,
    pub weight_token: Option<Seq<u8>>,
    pub early_voter_bonus: u8,
}

impl View for CreatePollParams {
    type V = CreatePollParamsV;

    open spec fn view(&self) -> CreatePollParamsV {
        CreatePollParamsV {
            title: self.title@,
            description: self.description@,
            options: self.options@.map_values(|o: Vec<u8>| o@),
            start_time: self.start_time,
            end_time: self.end_time,
            is_private: self.is_private,
            allow_revote: self.allow_revote,
            is_weighted: self.is_weighted,
            allow_delegation: self.allow_delegation,
            is_encrypted: self.is_encrypted,
            weight_token: crate::entities::opt_key_view(self.weight_token),
            early_voter_bonus: self.early_voter_bonus,
        }
    }
}

/// The instruction set of the ledger: every operation a caller can submit,
/// with its payload.  `tx_hex` is the caller-supplied fee-covering transfer
/// that accompanies each state-changing operation.
#[derive(Debug, Clone)]
pub enum PollInstruction {
    CreatePoll {
        title: Vec<u8>,
        description: Vec<u8>,
        options: Vec<Vec<u8>>,
        start_time: u64,
        end_time: u64,
        is_private: bool,
        allow_revote: bool,
        is_weighted: bool,
        allow_delegation: bool,
        is_encrypted: bool,
        weight_token: Option<PubKey>,
        early_voter_bonus: u8,
        tx_hex: Vec<u8>,
    },
    CancelPoll { poll_id: u64, tx_hex: Vec<u8> },
    CastVote {
        poll_id: u64,
        option_index: u8,
        weight: Option<u64>,
        encrypted_data: Option<Vec<u8>>,
        zk_proof: Option<Vec<u8>>,
        nonce: Option<Vec<u8>>,
        tx_hex: Vec<u8>,
    },
    ChangeVote {
        poll_id: u64,
        new_option_index: u8,
        new_encrypted_data: Option<Vec<u8>>,
        new_zk_proof: Option<Vec<u8>>,
        new_nonce: Option<Vec<u8>>,
        tx_hex: Vec<u8>,
    },
    ClosePoll { poll_id: u64, tx_hex: Vec<u8> },
    GetResults { poll_id: u64 },
    DecryptResults { poll_id: u64, decryption_key: Vec<u8>, tx_hex: Vec<u8> },
    DelegateVote { poll_id: Option<u64>, expiration: Option<u64>, tx_hex: Vec<u8> },
    RevokeDelegation { delegation_id: u64, tx_hex: Vec<u8> },
    UpdateTokenBalance { token: PubKey, amount: u64, tx_hex: Vec<u8> },
}

} // verus!
