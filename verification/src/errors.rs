//! The error taxonomy of the engine.
//!
//! `VotingError` lists the domain-level failures; every one of them is
//! reported to callers as a stable small-integer code.  `OpError` is the full
//! result of an operation handler: the call-shape failures checked before any
//! record is touched, plus the domain failures.

use vstd::prelude::*;

verus! {

/// A domain-level failure of a polling operation.
#[derive(Debug, Clone, PartialEq, Eq, Structural)]
pub enum VotingError {
    InvalidPollParameters,
    PollAlreadyExists,
    PollDoesNotExist,
    PollNotActive,
    PollNotStarted,
    PollEnded,
    NotPollCreator,
    AlreadyVoted,
    RevotingNotAllowed,
    InvalidOptionIndex,
    InvalidVoteWeight,
    InvalidDelegation,
    DelegationExpired,
    InvalidZkProof,
    InvalidEncryption,
    InsufficientFees,
    InvalidFeeTransaction,
    PollAlreadyStarted,
    PollNotEncrypted,
    ResultsAlreadyFinalized,
    InvalidDecryptionKey,
    PollStillActive,
    DelegationNotFound,
    NotDelegator,
    TokenBalanceNotFound,
    InvalidToken,
    MissingNonce,
}

/// What an operation handler can fail with: a malformed call shape, an
/// undecodable payload, or a domain failure.
#[derive(Debug, Clone, PartialEq, Eq, Structural)]
pub enum OpError {
    /// The call supplied fewer account records than the operation touches.
    NotEnoughAccountKeys,
    /// The caller's account did not sign the call.
    MissingRequiredSignature,
    /// An account record had the wrong flags or undecodable contents.
    InvalidAccountData,
    /// The instruction payload itself did not decode.
    InvalidInstructionData,
    /// A domain rule rejected the operation.
    Voting(VotingError),
}

/// The stable code under which each domain failure is reported.
pub open spec fn error_code_spec(e: VotingError) -> u32 {
    match e {
        VotingError::InvalidPollParameters => 1001,
        VotingError::PollAlreadyExists => 1002,
        VotingError::PollDoesNotExist => 1003,
        VotingError::PollNotActive => 1004,
        VotingError::PollNotStarted => 1005,
        VotingError::PollEnded => 1006,
        VotingError::NotPollCreator => 1007,
        VotingError::AlreadyVoted => 1008,
        VotingError::RevotingNotAllowed => 1009,
        VotingError::InvalidOptionIndex => 1010,
        VotingError::InvalidVoteWeight => 1011,
        VotingError::InvalidDelegation => 1012,
        VotingError::DelegationExpired => 1013,
        VotingError::InvalidZkProof => 1014,
        VotingError::InvalidEncryption => 1015,
        VotingError::InsufficientFees => 1016,
        VotingError::InvalidFeeTransaction => 1017,
        VotingError::PollAlreadyStarted => 1018,
        VotingError::PollNotEncrypted => 1019,
        VotingError::ResultsAlreadyFinalized => 1020,
        VotingError::InvalidDecryptionKey => 1021,
        VotingError::PollStillActive => 1022,
        VotingError::DelegationNotFound => 1023,
        VotingError::NotDelegator => 1024,
        VotingError::TokenBalanceNotFound => 1025,
        VotingError::InvalidToken => 1026,
        VotingError::MissingNonce => 1027,
    }
}

impl VotingError {
    /// The stable small-integer code of this failure.
    pub fn code(&self) -> (c: u32)
        ensures
            c == error_code_spec(*self),
    {
        match self {
            VotingError::InvalidPollParameters => 1001,
            VotingError::PollAlreadyExists => 1002,
            VotingError::PollDoesNotExist => 1003,
            VotingError::PollNotActive => 1004,
            VotingError::PollNotStarted => 1005,
            VotingError::PollEnded => 1006,
            VotingError::NotPollCreator => 1007,
            VotingError::AlreadyVoted => 1008,
            VotingError::RevotingNotAllowed => 1009,
            VotingError::InvalidOptionIndex => 1010,
            VotingError::InvalidVoteWeight => 1011,
            VotingError::InvalidDelegation => 1012,
            VotingError::DelegationExpired => 1013,
            VotingError::InvalidZkProof => 1014,
            VotingError::InvalidEncryption => 1015,
            VotingError::InsufficientFees => 1016,
            VotingError::InvalidFeeTransaction => 1017,
            VotingError::PollAlreadyStarted => 1018,
            VotingError::PollNotEncrypted => 1019,
            VotingError::ResultsAlreadyFinalized => 1020,
            VotingError::InvalidDecryptionKey => 1021,
            VotingError::PollStillActive => 1022,
            VotingError::DelegationNotFound => 1023,
            VotingError::NotDelegator => 1024,
            VotingError::TokenBalanceNotFound => 1025,
            VotingError::InvalidToken => 1026,
            VotingError::MissingNonce => 1027,
        }
    }
}

} // verus!
