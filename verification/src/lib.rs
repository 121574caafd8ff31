//! State-transition engine of a decentralized polling ledger.
//!
//! Polls, ballots, tallies, voter membership, delegations and token-weight
//! snapshots are plain records, mutated only through a fixed set of validated
//! operations.  Every operation handler is a verified function over decoded
//! records plus an injected logical timestamp; reading and writing the backing
//! account buffers, and binding the fee transaction, are left to the caller.

pub mod calls;
pub mod codec;
pub mod delegation_ops;
pub mod entities;
pub mod errors;
pub mod fees;
pub mod keys;
pub mod poll_ops;
pub mod registry;
pub mod results;
pub mod tally;
pub mod vote_ops;
pub mod weight;

pub use calls::CallShape;
pub use calls::CastVoteArgs;
pub use calls::ChangeVoteArgs;
pub use calls::CreatePollParams;
pub use calls::MaybeAccount;
pub use calls::PollInstruction;
pub use entities::Delegation;
pub use entities::Poll;
pub use entities::TokenBalance;
pub use entities::Vote;
pub use entities::VoteCount;
pub use entities::VoterRegistry;
pub use errors::OpError;
pub use errors::VotingError;
pub use keys::PubKey;
pub use poll_ops::create_poll;
