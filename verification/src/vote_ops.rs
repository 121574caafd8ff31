//! The vote ledger: casting a ballot (first time or revote) and moving an
//! existing ballot to another option.
//!
//! Each handler's contract equals a spec-level transition function over the
//! views of the decoded records, so the whole decision cascade — check
//! order, error codes, and the exact records written — is pinned down.

use vstd::prelude::*;

use crate::calls::maybe_view;
use crate::calls::shape_error;
use crate::calls::CallShape;
use crate::calls::CastVoteArgs;
use crate::calls::CastVoteArgsV;
use crate::calls::ChangeVoteArgs;
use crate::calls::ChangeVoteArgsV;
use crate::calls::MaybeAccount;
use crate::entities::Delegation;
use crate::entities::DelegationV;
use crate::entities::Poll;
use crate::entities::PollV;
use crate::entities::TokenBalance;
use crate::entities::TokenBalanceV;
use crate::entities::Vote;
use crate::entities::VoteCount;
use crate::entities::VoteCountV;
use crate::entities::VoteV;
use crate::entities::VoterRegistry;
use crate::entities::VoterRegistryV;
use crate::errors::OpError;
use crate::errors::VotingError;
use crate::keys::key_eq;
use crate::keys::slot_of;
use crate::keys::PubKey;
use crate::poll_ops::opt_view;
use crate::registry::add_voter_to_registry;
use crate::registry::find_voter_index;
use crate::registry::registry_contains;
use crate::registry::registry_wf;
use crate::registry::set_bit_in_bitmap;
use crate::tally::counts_after_event;
use crate::tally::get_previous_vote;
use crate::tally::sat_add_u64;
use crate::tally::sat_sub_u64;
use crate::tally::update_vote_count;
use crate::tally::update_vote_count_change;
use crate::weight::effective_weight;
use crate::weight::effective_weight_spec;

verus! {

// ---------------------------------------------------------------------------
// CastVote

/// Everything a successful CastVote writes back: the ballot, the grown (or
/// unchanged) registry, and the updated tally.
#[derive(Debug)]
pub struct CastVoteOutcome {
    pub vote: Vote,
    pub registry: VoterRegistry,
    pub vote_count: VoteCount,
}

/// Mathematical view of a `CastVoteOutcome`.
pub ghost struct CastOutcomeV {
    pub vote: VoteV,
    pub registry: VoterRegistryV,
    pub vote_count: VoteCountV,
}

/// Whether a supplied proof placeholder passes the presence check of a
/// private poll: present and non-empty.
pub open spec fn zk_proof_ok(zk_proof: Option<Seq<u8>>) -> bool {
    match zk_proof {
        Some(p) => p.len() > 0,
        None => false,
    }
}

/// Resolves the optional delegation of a CastVote call: `Ok(None)` when
/// none was supplied, `Ok(Some(delegate))` when the delegation is active,
/// scoped to this poll (or unscoped), unexpired, and granted by the calling
/// voter.
pub open spec fn delegation_check(
    p: PollV,
    delegation: Option<Option<DelegationV>>,
    voter: Seq<u8>,
    poll_id: u64,
    now: u64,
) -> Result<Option<Seq<u8>>, OpError> {
    match delegation {
        None => Ok(None),
        Some(decoded) => if !p.allow_delegation {
            Err(OpError::Voting(VotingError::InvalidDelegation))
        } else {
            match decoded {
                None => Err(OpError::InvalidAccountData),
                Some(d) => if d.delegator != voter {
                    Err(OpError::Voting(VotingError::InvalidDelegation))
                } else if !d.is_active {
                    Err(OpError::Voting(VotingError::InvalidDelegation))
                } else if (match d.poll_id {
                    Some(pid) => pid != poll_id,
                    None => false,
                }) {
                    Err(OpError::Voting(VotingError::InvalidDelegation))
                } else if (match d.expiration {
                    Some(exp) => now > exp,
                    None => false,
                }) {
                    Err(OpError::Voting(VotingError::DelegationExpired))
                } else {
                    Ok(Some(d.delegate))
                },
            }
        },
    }
}

/// Resolves the weight of a ballot: 1 for an unweighted poll; for a
/// weighted poll, the supplied balance (checked against the voter and the
/// poll's token) under the early-voter bonus, or, without a balance record,
/// the caller-asserted weight defaulting to 1.
pub open spec fn cast_weight_check(
    p: PollV,
    token_balance: Option<Option<TokenBalanceV>>,
    voter: Seq<u8>,
    arg_weight: Option<u64>,
    now: u64,
) -> Result<u64, OpError> {
    if !p.is_weighted {
        Ok(1u64)
    } else {
        match token_balance {
            None => Ok(
                match arg_weight {
                    Some(w) => w,
                    None => 1u64,
                },
            ),
            Some(None) => Err(OpError::Voting(VotingError::TokenBalanceNotFound)),
            Some(Some(tb)) => if tb.owner != voter {
                Err(OpError::InvalidAccountData)
            } else if (match p.weight_token {
                Some(t) => tb.token != t,
                None => false,
            }) {
                Err(OpError::Voting(VotingError::InvalidToken))
            } else {
                Ok(
                    effective_weight_spec(
                        tb.amount,
                        p.early_voter_bonus,
                        sat_sub_u64(now, p.start_time),
                        sat_sub_u64(p.end_time, p.start_time),
                    ),
                )
            },
        }
    }
}

/// The option and weight of the ballot a revote replaces, read from the
/// ballot record; a record of another voter or poll reads as no previous
/// ballot.
pub open spec fn previous_vote_pair(prev: Option<VoteV>, poll_id: u64, voter: Seq<u8>) -> Option<
    (u8, u64),
> {
    match prev {
        Some(v) => if v.voter == voter && v.poll_id == poll_id {
            Some((v.option_index, v.weight))
        } else {
            None
        },
        None => None,
    }
}

/// The full CastVote transition: every check in order, and on success the
/// three records written back.  A first-time cast registers the voter and
/// raises `total_voters`; a revote replaces the voter's previous ballot and
/// leaves `total_voters` unchanged.
pub open spec fn cast_vote_spec(
    shape: CallShape,
    voter: Seq<u8>,
    poll: Option<PollV>,
    prev_vote: Option<VoteV>,
    reg: Option<VoterRegistryV>,
    vc: Option<VoteCountV>,
    delegation: Option<Option<DelegationV>>,
    token_balance: Option<Option<TokenBalanceV>>,
    args: CastVoteArgsV,
    now: u64,
) -> Result<CastOutcomeV, OpError> {
    match shape_error(shape, 5) {
        Some(e) => Err(e),
        None => match poll {
            None => Err(OpError::InvalidAccountData),
            Some(p) => if p.id != args.poll_id {
                Err(OpError::Voting(VotingError::PollDoesNotExist))
            } else if !p.is_active {
                Err(OpError::Voting(VotingError::PollNotActive))
            } else if now < p.start_time {
                Err(OpError::Voting(VotingError::PollNotStarted))
            } else if now > p.end_time {
                Err(OpError::Voting(VotingError::PollEnded))
            } else if args.option_index as int >= p.options.len() {
                Err(OpError::Voting(VotingError::InvalidOptionIndex))
            } else {
                match reg {
                    None => Err(OpError::InvalidAccountData),
                    Some(r) => {
                        let already = registry_contains(r, voter);
                        if already && !p.allow_revote {
                            Err(OpError::Voting(VotingError::AlreadyVoted))
                        } else {
                            match delegation_check(p, delegation, voter, args.poll_id, now) {
                                Err(e) => Err(e),
                                Ok(effective) => if p.is_private && !zk_proof_ok(args.zk_proof) {
                                    Err(OpError::Voting(VotingError::InvalidZkProof))
                                } else if p.is_encrypted && args.encrypted_data is None {
                                    Err(OpError::Voting(VotingError::InvalidEncryption))
                                } else if p.is_encrypted && args.nonce is None {
                                    Err(OpError::Voting(VotingError::MissingNonce))
                                } else {
                                    match cast_weight_check(
                                        p,
                                        token_balance,
                                        voter,
                                        args.weight,
                                        now,
                                    ) {
                                        Err(e) => Err(e),
                                        Ok(w) => match vc {
                                            None => Err(OpError::InvalidAccountData),
                                            Some(c) => {
                                                let previous = if already {
                                                    match previous_vote_pair(
                                                        prev_vote,
                                                        args.poll_id,
                                                        voter,
                                                    ) {
                                                        Some(pair) => Some(pair),
                                                        None => Some((0u8, w)),
                                                    }
                                                } else {
                                                    None
                                                };
                                                Ok(
                                                    CastOutcomeV {
                                                        vote: VoteV {
                                                            poll_id: args.poll_id,
                                                            voter,
                                                            option_index: args.option_index,
                                                            timestamp: now,
                                                            weight: w,
                                                            delegated_to: effective,
                                                            encrypted_data: args.encrypted_data,
                                                            zk_proof: args.zk_proof,
                                                            nonce: args.nonce,
                                                        },
                                                        registry: if already {
                                                            r
                                                        } else {
                                                            VoterRegistryV {
                                                                poll_id: r.poll_id,
                                                                voter_bitmap: set_bit_in_bitmap(
                                                                    r.voter_bitmap,
                                                                    slot_of(voter),
                                                                ),
                                                                voters: r.voters.push(voter),
                                                            }
                                                        },
                                                        vote_count: VoteCountV {
                                                            poll_id: c.poll_id,
                                                            counts: counts_after_event(
                                                                c.counts,
                                                                args.option_index,
                                                                w,
                                                                previous,
                                                            ),
                                                            total_voters: if already {
                                                                c.total_voters
                                                            } else {
                                                                sat_add_u64(c.total_voters, 1)
                                                            },
                                                            last_updated: now,
                                                            is_finalized: c.is_finalized,
                                                        },
                                                    },
                                                )
                                            },
                                        },
                                    }
                                },
                            }
                        }
                    },
                }
            },
        },
    }
}

/// The CastVote handler.
///
/// On success the returned outcome is exactly what `cast_vote_spec`
/// prescribes; a well-formed registry stays well-formed, which is what
/// keeps the voter list free of duplicates.
pub fn process_cast_vote(
    shape: &CallShape,
    voter: &PubKey,
    poll: Option<&Poll>,
    prev_vote: Option<&Vote>,
    registry: Option<VoterRegistry>,
    vote_count: Option<VoteCount>,
    delegation: MaybeAccount<Delegation>,
    token_balance: MaybeAccount<TokenBalance>,
    args: CastVoteArgs,
    now: u64,
) -> (r: Result<CastVoteOutcome, OpError>)
    requires
        match registry {
            Some(reg) => registry_wf(reg@),
            None => true,
        },
    ensures
        ({
            let expected = cast_vote_spec(
                *shape,
                voter@,
                opt_view(poll),
                opt_view(prev_vote),
                opt_view(registry),
                opt_view(vote_count),
                maybe_view(delegation),
                maybe_view(token_balance),
                args@,
                now,
            );
            match (r, expected) {
                (Ok(out), Ok(exp)) => {
                    &&& out.vote@ == exp.vote
                    &&& out.registry@ == exp.registry
                    &&& out.vote_count@ == exp.vote_count
                },
                (Err(e), Err(exp_e)) => e == exp_e,
                _ => false,
            }
        }),
        r matches Ok(out) ==> registry_wf(out.registry@),
{
    match crate::calls::check_shape(shape, 5) {
        Ok(()) => {},
        Err(e) => {
            return Err(e);
        },
    }
    let p = match poll {
        Some(p) => p,
        None => {
            return Err(OpError::InvalidAccountData);
        },
    };
    if p.id != args.poll_id {
        return Err(OpError::Voting(VotingError::PollDoesNotExist));
    }
    if !p.is_active {
        return Err(OpError::Voting(VotingError::PollNotActive));
    }
    if now < p.start_time {
        return Err(OpError::Voting(VotingError::PollNotStarted));
    }
    if now > p.end_time {
        return Err(OpError::Voting(VotingError::PollEnded));
    }
    if args.option_index as usize >= p.options.len() {
        return Err(OpError::Voting(VotingError::InvalidOptionIndex));
    }
    let mut reg = match registry {
        Some(reg) => reg,
        None => {
            return Err(OpError::InvalidAccountData);
        },
    };
    let voter_index = find_voter_index(&reg, voter);
    let already = voter_index.is_some();
    proof {
        assert(already == registry_contains(reg@, voter@));
    }
    if already && !p.allow_revote {
        return Err(OpError::Voting(VotingError::AlreadyVoted));
    }

    // Resolve the delegation, when one accompanies the call.
    let effective: Option<PubKey> = match &delegation {
        MaybeAccount::Absent => None,
        MaybeAccount::Invalid => {
            if !p.allow_delegation {
                return Err(OpError::Voting(VotingError::InvalidDelegation));
            }
            return Err(OpError::InvalidAccountData);
        },
        MaybeAccount::Decoded(d) => {
            if !p.allow_delegation {
                return Err(OpError::Voting(VotingError::InvalidDelegation));
            }
            if !key_eq(&d.delegator, voter) {
                return Err(OpError::Voting(VotingError::InvalidDelegation));
            }
            if !d.is_active {
                return Err(OpError::Voting(VotingError::InvalidDelegation));
            }
            if let Some(pid) = d.poll_id {
                if pid != args.poll_id {
                    return Err(OpError::Voting(VotingError::InvalidDelegation));
                }
            }
            if let Some(exp) = d.expiration {
                if now > exp {
                    return Err(OpError::Voting(VotingError::DelegationExpired));
                }
            }
            Some(d.delegate)
        },
    };

    // Presence checks standing in for the real cryptography.
    if p.is_private {
        match &args.zk_proof {
            Some(zk) => {
                if zk.len() == 0 {
                    return Err(OpError::Voting(VotingError::InvalidZkProof));
                }
            },
            None => {
                return Err(OpError::Voting(VotingError::InvalidZkProof));
            },
        }
    }
    if p.is_encrypted {
        if args.encrypted_data.is_none() {
            return Err(OpError::Voting(VotingError::InvalidEncryption));
        }
        if args.nonce.is_none() {
            return Err(OpError::Voting(VotingError::MissingNonce));
        }
    }

    // Resolve the ballot's weight.
    let vote_weight: u64 = if p.is_weighted {
        match &token_balance {
            MaybeAccount::Absent => match args.weight {
                Some(w) => w,
                None => 1,
            },
            MaybeAccount::Invalid => {
                return Err(OpError::Voting(VotingError::TokenBalanceNotFound));
            },
            MaybeAccount::Decoded(tb) => {
                if !key_eq(&tb.owner, voter) {
                    return Err(OpError::InvalidAccountData);
                }
                if let Some(t) = &p.weight_token {
                    if !key_eq(&tb.token, t) {
                        return Err(OpError::Voting(VotingError::InvalidToken));
                    }
                }
                let elapsed = now.saturating_sub(p.start_time);
                let duration = p.end_time.saturating_sub(p.start_time);
                effective_weight(tb.amount, p.early_voter_bonus, elapsed, duration)
            },
        }
    } else {
        1
    };

    let mut vc = match vote_count {
        Some(vc) => vc,
        None => {
            return Err(OpError::InvalidAccountData);
        },
    };

    // The ballot a revote replaces; a registered voter without a readable
    // previous ballot falls back to option 0 at the new weight.
    let previous: Option<(u8, u64)> = if already {
        match get_previous_vote(prev_vote, args.poll_id, voter) {
            Some(pair) => Some(pair),
            None => Some((0, vote_weight)),
        }
    } else {
        None
    };

    let vote = Vote {
        poll_id: args.poll_id,
        voter: *voter,
        option_index: args.option_index,
        timestamp: now,
        weight: vote_weight,
        delegated_to: effective,
        encrypted_data: args.encrypted_data,
        zk_proof: args.zk_proof,
        nonce: args.nonce,
    };

    update_vote_count(&mut vc, args.option_index, vote_weight, previous, now);
    if !already {
        add_voter_to_registry(&mut reg, voter);
    }

    Ok(CastVoteOutcome { vote, registry: reg, vote_count: vc })
}

// ---------------------------------------------------------------------------
// ChangeVote

/// The full ChangeVote transition: every check in order, and on success the
/// moved ballot plus the updated tally.  The stored weight is reused, never
/// recomputed, and `total_voters` never changes.
pub open spec fn change_vote_spec(
    shape: CallShape,
    voter: Seq<u8>,
    poll: Option<PollV>,
    vote: Option<VoteV>,
    vc: Option<VoteCountV>,
    args: ChangeVoteArgsV,
    now: u64,
) -> Result<(VoteV, VoteCountV), OpError> {
    match shape_error(shape, 4) {
        Some(e) => Err(e),
        None => match poll {
            None => Err(OpError::InvalidAccountData),
            Some(p) => if p.id != args.poll_id {
                Err(OpError::Voting(VotingError::PollDoesNotExist))
            } else if !p.is_active {
                Err(OpError::Voting(VotingError::PollNotActive))
            } else if !p.allow_revote {
                Err(OpError::Voting(VotingError::RevotingNotAllowed))
            } else if now < p.start_time {
                Err(OpError::Voting(VotingError::PollNotStarted))
            } else if now > p.end_time {
                Err(OpError::Voting(VotingError::PollEnded))
            } else if args.new_option_index as int >= p.options.len() {
                Err(OpError::Voting(VotingError::InvalidOptionIndex))
            } else {
                match vote {
                    None => Err(OpError::InvalidAccountData),
                    Some(v) => if v.voter != voter {
                        Err(OpError::InvalidAccountData)
                    } else if v.poll_id != args.poll_id {
                        Err(OpError::InvalidAccountData)
                    } else if p.is_private && !zk_proof_ok(args.new_zk_proof) {
                        Err(OpError::Voting(VotingError::InvalidZkProof))
                    } else if p.is_encrypted && args.new_encrypted_data is None {
                        Err(OpError::Voting(VotingError::InvalidEncryption))
                    } else if p.is_encrypted && args.new_nonce is None {
                        Err(OpError::Voting(VotingError::MissingNonce))
                    } else {
                        match vc {
                            None => Err(OpError::InvalidAccountData),
                            Some(c) => Ok(
                                (
                                    VoteV {
                                        option_index: args.new_option_index,
                                        timestamp: now,
                                        encrypted_data: args.new_encrypted_data,
                                        zk_proof: args.new_zk_proof,
                                        nonce: args.new_nonce,
                                        ..v
                                    },
                                    VoteCountV {
                                        counts: counts_after_event(
                                            c.counts,
                                            args.new_option_index,
                                            v.weight,
                                            Some((v.option_index, v.weight)),
                                        ),
                                        last_updated: now,
                                        ..c
                                    },
                                ),
                            ),
                        }
                    },
                }
            },
        },
    }
}

/// The ChangeVote handler.
pub fn process_change_vote(
    shape: &CallShape,
    voter: &PubKey,
    poll: Option<&Poll>,
    vote: Option<Vote>,
    vote_count: Option<VoteCount>,
    args: ChangeVoteArgs,
    now: u64,
) -> (r: Result<(Vote, VoteCount), OpError>)
    ensures
        ({
            let expected = change_vote_spec(
                *shape,
                voter@,
                opt_view(poll),
                opt_view(vote),
                opt_view(vote_count),
                args@,
                now,
            );
            match (r, expected) {
                (Ok((v2, c2)), Ok((ev, ec))) => v2@ == ev && c2@ == ec,
                (Err(e), Err(exp_e)) => e == exp_e,
                _ => false,
            }
        }),
{
    match crate::calls::check_shape(shape, 4) {
        Ok(()) => {},
        Err(e) => {
            return Err(e);
        },
    }
    let p = match poll {
        Some(p) => p,
        None => {
            return Err(OpError::InvalidAccountData);
        },
    };
    if p.id != args.poll_id {
        return Err(OpError::Voting(VotingError::PollDoesNotExist));
    }
    if !p.is_active {
        return Err(OpError::Voting(VotingError::PollNotActive));
    }
    if !p.allow_revote {
        return Err(OpError::Voting(VotingError::RevotingNotAllowed));
    }
    if now < p.start_time {
        return Err(OpError::Voting(VotingError::PollNotStarted));
    }
    if now > p.end_time {
        return Err(OpError::Voting(VotingError::PollEnded));
    }
    if args.new_option_index as usize >= p.options.len() {
        return Err(OpError::Voting(VotingError::InvalidOptionIndex));
    }
    let mut v = match vote {
        Some(v) => v,
        None => {
            return Err(OpError::InvalidAccountData);
        },
    };
    if !key_eq(&v.voter, voter) {
        return Err(OpError::InvalidAccountData);
    }
    if v.poll_id != args.poll_id {
        return Err(OpError::InvalidAccountData);
    }
    if p.is_private {
        match &args.new_zk_proof {
            Some(zk) => {
                if zk.len() == 0 {
                    return Err(OpError::Voting(VotingError::InvalidZkProof));
                }
            },
            None => {
                return Err(OpError::Voting(VotingError::InvalidZkProof));
            },
        }
    }
    if p.is_encrypted {
        if args.new_encrypted_data.is_none() {
            return Err(OpError::Voting(VotingError::InvalidEncryption));
        }
        if args.new_nonce.is_none() {
            return Err(OpError::Voting(VotingError::MissingNonce));
        }
    }
    let mut vc = match vote_count {
        Some(vc) => vc,
        None => {
            return Err(OpError::InvalidAccountData);
        },
    };
    let old_option_index = v.option_index;
    v.option_index = args.new_option_index;
    v.timestamp = now;
    v.encrypted_data = args.new_encrypted_data;
    v.zk_proof = args.new_zk_proof;
    v.nonce = args.new_nonce;
    update_vote_count_change(&mut vc, old_option_index, args.new_option_index, v.weight, now);
    Ok((v, vc))
}

} // verus!
