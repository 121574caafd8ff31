//! The poll registry: creating, cancelling and closing polls, and revealing
//! the results of an encrypted poll.

use vstd::prelude::*;

use crate::calls::check_shape;
use crate::calls::shape_error;
use crate::calls::CallShape;
use crate::calls::CreatePollParams;
use crate::calls::CreatePollParamsV;
use crate::entities::poll_params_wf;
use crate::entities::Poll;
use crate::entities::PollV;
use crate::entities::VoteCount;
use crate::entities::VoteCountV;
use crate::entities::VoterRegistry;
use crate::entities::VoterRegistryV;
use crate::entities::MAX_DESCRIPTION_LEN;
use crate::entities::MAX_EARLY_VOTER_BONUS;
use crate::entities::MAX_OPTIONS;
use crate::entities::MAX_OPTION_LEN;
use crate::entities::MAX_TITLE_LEN;
use crate::entities::VOTER_BITMAP_BYTES;
use crate::errors::OpError;
use crate::errors::VotingError;
use crate::keys::key_eq;
use crate::keys::record_id_spec;
use crate::keys::PubKey;
use crate::registry::registry_wf;

verus! {

/// View of an optional decoded record.
pub open spec fn opt_view<T: View>(o: Option<T>) -> Option<T::V> {
    match o {
        Some(t) => Some(t@),
        None => None,
    }
}

// ---------------------------------------------------------------------------
// CreatePoll

/// Whether CreatePoll parameters pass validation: every field bound of the
/// data model, a forward time window that ends after the current time, a
/// token behind weighted voting, and a bonus of at most 100 percent.
pub open spec fn create_params_ok(p: CreatePollParamsV, now: u64) -> bool {
    &&& 1 <= p.title.len() <= MAX_TITLE_LEN
    &&& p.description.len() <= MAX_DESCRIPTION_LEN
    &&& 1 <= p.options.len() <= MAX_OPTIONS
    &&& forall|i: int|
        0 <= i < p.options.len() ==> 1 <= #[trigger] p.options[i].len() <= MAX_OPTION_LEN
    &&& p.start_time < p.end_time
    &&& p.end_time > now
    &&& p.is_weighted ==> p.weight_token is Some
    &&& p.early_voter_bonus <= MAX_EARLY_VOTER_BONUS
}

/// The poll record a successful CreatePoll writes.
pub open spec fn new_poll_view(p: CreatePollParamsV, id: u64, creator: Seq<u8>) -> PollV {
    PollV {
        id,
        creator,
        title: p.title,
        description: p.description,
        options: p.options,
        start_time: p.start_time,
        end_time: p.end_time,
        is_private: p.is_private,
        allow_revote: p.allow_revote,
        is_active: true,
        is_weighted: p.is_weighted,
        allow_delegation: p.allow_delegation,
        is_encrypted: p.is_encrypted,
        decryption_key: None,
        weight_token: p.weight_token,
        early_voter_bonus: p.early_voter_bonus,
    }
}

/// Validates CreatePoll parameters and builds the three fresh records of a
/// poll: the poll itself (active, with a deterministically derived id), a
/// zeroed tally sized to the option count, and an empty voter registry.
pub fn create_poll(creator: &PubKey, params: CreatePollParams, now: u64) -> (r: Result<
    (Poll, VoteCount, VoterRegistry),
    VotingError,
>)
    ensures
        match r {
            Ok((poll, vote_count, reg)) => {
                &&& create_params_ok(params@, now)
                &&& poll@ == new_poll_view(params@, record_id_spec(now, creator@), creator@)
                &&& vote_count@ == (VoteCountV {
                    poll_id: poll@.id,
                    counts: Seq::new(params@.options.len(), |i: int| 0u64),
                    total_voters: 0,
                    last_updated: now,
                    is_finalized: false,
                })
                &&& reg@ == (VoterRegistryV {
                    poll_id: poll@.id,
                    voter_bitmap: Seq::new(VOTER_BITMAP_BYTES as nat, |i: int| 0u8),
                    voters: Seq::<Seq<u8>>::empty(),
                })
                &&& poll_params_wf(poll@)
                &&& registry_wf(reg@)
            },
            Err(e) => e == VotingError::InvalidPollParameters && !create_params_ok(params@, now),
        },
{
    if params.title.len() == 0 || params.title.len() > MAX_TITLE_LEN {
        return Err(VotingError::InvalidPollParameters);
    }
    if params.description.len() > MAX_DESCRIPTION_LEN {
        return Err(VotingError::InvalidPollParameters);
    }
    if params.options.len() == 0 || params.options.len() > MAX_OPTIONS {
        return Err(VotingError::InvalidPollParameters);
    }
    let n_options = params.options.len();
    let mut i: usize = 0;
    while i < n_options
        invariant
            i <= n_options,
            n_options == params@.options.len(),
            forall|j: int| 0 <= j < i ==> 1 <= #[trigger] params@.options[j].len() <= MAX_OPTION_LEN,
        decreases n_options - i,
    {
        let len = params.options[i].len();
        if len == 0 || len > MAX_OPTION_LEN {
            proof {
                assert(params@.options[i as int].len() == len);
                assert(!create_params_ok(params@, now));
            }
            return Err(VotingError::InvalidPollParameters);
        }
        i += 1;
    }
    if params.start_time >= params.end_time {
        return Err(VotingError::InvalidPollParameters);
    }
    if params.end_time <= now {
        return Err(VotingError::InvalidPollParameters);
    }
    if params.is_weighted && params.weight_token.is_none() {
        return Err(VotingError::InvalidPollParameters);
    }
    if params.early_voter_bonus > MAX_EARLY_VOTER_BONUS {
        return Err(VotingError::InvalidPollParameters);
    }

    let poll_id = crate::keys::derive_record_id(now, creator);
    let vote_count = VoteCount::new_zeroed(poll_id, n_options, now);
    let reg = VoterRegistry::new_empty(poll_id);
    let poll = Poll {
        id: poll_id,
        creator: *creator,
        title: params.title,
        description: params.description,
        options: params.options,
        start_time: params.start_time,
        end_time: params.end_time,
        is_private: params.is_private,
        allow_revote: params.allow_revote,
        is_active: true,
        is_weighted: params.is_weighted,
        allow_delegation: params.allow_delegation,
        is_encrypted: params.is_encrypted,
        decryption_key: None,
        weight_token: params.weight_token,
        early_voter_bonus: params.early_voter_bonus,
    };
    Ok((poll, vote_count, reg))
}

/// How many accounts a CreatePoll call must carry: the creator, the three
/// fresh records, and the token account when the poll is weighted.
pub open spec fn create_min_accounts(p: CreatePollParamsV) -> int {
    if p.is_weighted && p.weight_token is Some {
        5
    } else {
        4
    }
}

/// The CreatePoll handler: call shape first, then parameter validation and
/// record construction.
pub fn process_create_poll(
    shape: &CallShape,
    creator: &PubKey,
    params: CreatePollParams,
    now: u64,
) -> (r: Result<(Poll, VoteCount, VoterRegistry), OpError>)
    ensures
        match r {
            Ok((poll, vote_count, reg)) => {
                &&& shape_error(*shape, create_min_accounts(params@)) is None
                &&& create_params_ok(params@, now)
                &&& poll@ == new_poll_view(params@, record_id_spec(now, creator@), creator@)
                &&& vote_count@ == (VoteCountV {
                    poll_id: poll@.id,
                    counts: Seq::new(params@.options.len(), |i: int| 0u64),
                    total_voters: 0,
                    last_updated: now,
                    is_finalized: false,
                })
                &&& reg@ == (VoterRegistryV {
                    poll_id: poll@.id,
                    voter_bitmap: Seq::new(VOTER_BITMAP_BYTES as nat, |i: int| 0u8),
                    voters: Seq::<Seq<u8>>::empty(),
                })
                &&& poll_params_wf(poll@)
                &&& registry_wf(reg@)
            },
            Err(e) => match shape_error(*shape, create_min_accounts(params@)) {
                Some(se) => e == se,
                None => e == OpError::Voting(VotingError::InvalidPollParameters)
                    && !create_params_ok(params@, now),
            },
        },
{
    let min_accounts: usize = if params.is_weighted && params.weight_token.is_some() {
        5
    } else {
        4
    };
    match check_shape(shape, min_accounts) {
        Ok(()) => {},
        Err(e) => {
            return Err(e);
        },
    }
    match create_poll(creator, params, now) {
        Ok(records) => Ok(records),
        Err(e) => Err(OpError::Voting(e)),
    }
}

// ---------------------------------------------------------------------------
// CancelPoll

/// The failure of a CancelPoll call, in check order, or `None` when it
/// succeeds: only the creator, only strictly before the start time.
pub open spec fn cancel_poll_error(
    shape: CallShape,
    caller: Seq<u8>,
    poll: Option<PollV>,
    poll_id: u64,
    now: u64,
) -> Option<OpError> {
    let se = shape_error(shape, 2);
    if se is Some {
        se
    } else {
        match poll {
            None => Some(OpError::InvalidAccountData),
            Some(p) => if p.id != poll_id {
                Some(OpError::Voting(VotingError::PollDoesNotExist))
            } else if p.creator != caller {
                Some(OpError::Voting(VotingError::NotPollCreator))
            } else if now >= p.start_time {
                Some(OpError::Voting(VotingError::PollAlreadyStarted))
            } else {
                None
            },
        }
    }
}

/// The CancelPoll handler: deactivates a poll that has not started yet, at
/// its creator's request.
pub fn process_cancel_poll(
    shape: &CallShape,
    caller: &PubKey,
    poll: Option<Poll>,
    poll_id: u64,
    now: u64,
) -> (r: Result<Poll, OpError>)
    ensures
        match r {
            Ok(updated) => {
                &&& cancel_poll_error(*shape, caller@, opt_view(poll), poll_id, now) is None
                &&& match poll {
                    Some(p) => updated@ == (PollV { is_active: false, ..p@ }),
                    None => false,
                }
            },
            Err(e) => Some(e) == cancel_poll_error(*shape, caller@, opt_view(poll), poll_id, now),
        },
{
    match check_shape(shape, 2) {
        Ok(()) => {},
        Err(e) => {
            return Err(e);
        },
    }
    let mut p = match poll {
        Some(p) => p,
        None => {
            return Err(OpError::InvalidAccountData);
        },
    };
    if p.id != poll_id {
        return Err(OpError::Voting(VotingError::PollDoesNotExist));
    }
    if !key_eq(&p.creator, caller) {
        return Err(OpError::Voting(VotingError::NotPollCreator));
    }
    if now >= p.start_time {
        return Err(OpError::Voting(VotingError::PollAlreadyStarted));
    }
    p.is_active = false;
    Ok(p)
}

// ---------------------------------------------------------------------------
// ClosePoll

/// The failure of a ClosePoll call, in check order, or `None` when it
/// succeeds: anyone may close after the end time, the creator at any time;
/// a non-encrypted poll also needs a decodable tally to finalize.
pub open spec fn close_poll_error(
    shape: CallShape,
    caller: Seq<u8>,
    poll: Option<PollV>,
    vote_count: Option<VoteCountV>,
    poll_id: u64,
    now: u64,
) -> Option<OpError> {
    let se = shape_error(shape, 3);
    if se is Some {
        se
    } else {
        match poll {
            None => Some(OpError::InvalidAccountData),
            Some(p) => if p.id != poll_id {
                Some(OpError::Voting(VotingError::PollDoesNotExist))
            } else if !p.is_active {
                Some(OpError::Voting(VotingError::PollNotActive))
            } else if now <= p.end_time && p.creator != caller {
                Some(OpError::Voting(VotingError::NotPollCreator))
            } else if !p.is_encrypted && vote_count is None {
                Some(OpError::InvalidAccountData)
            } else {
                None
            },
        }
    }
}

/// The ClosePoll handler: deactivates the poll and, unless the poll is
/// encrypted (whose finalization is deferred to DecryptResults), finalizes
/// its tally.  The per-option counters are never touched.
pub fn process_close_poll(
    shape: &CallShape,
    caller: &PubKey,
    poll: Option<Poll>,
    vote_count: Option<VoteCount>,
    poll_id: u64,
    now: u64,
) -> (r: Result<(Poll, Option<VoteCount>), OpError>)
    ensures
        match r {
            Ok((updated, vc2)) => {
                &&& close_poll_error(
                    *shape,
                    caller@,
                    opt_view(poll),
                    opt_view(vote_count),
                    poll_id,
                    now,
                ) is None
                &&& match poll {
                    Some(p) => {
                        &&& updated@ == (PollV { is_active: false, ..p@ })
                        &&& if p@.is_encrypted {
                            vc2 is None
                        } else {
                            match (vc2, vote_count) {
                                (Some(v2), Some(v)) => v2@ == (VoteCountV {
                                    is_finalized: true,
                                    last_updated: now,
                                    ..v@
                                }),
                                _ => false,
                            }
                        }
                    },
                    None => false,
                }
            },
            Err(e) => Some(e) == close_poll_error(
                *shape,
                caller@,
                opt_view(poll),
                opt_view(vote_count),
                poll_id,
                now,
            ),
        },
{
    match check_shape(shape, 3) {
        Ok(()) => {},
        Err(e) => {
            return Err(e);
        },
    }
    let mut p = match poll {
        Some(p) => p,
        None => {
            return Err(OpError::InvalidAccountData);
        },
    };
    if p.id != poll_id {
        return Err(OpError::Voting(VotingError::PollDoesNotExist));
    }
    if !p.is_active {
        return Err(OpError::Voting(VotingError::PollNotActive));
    }
    if now <= p.end_time && !key_eq(&p.creator, caller) {
        return Err(OpError::Voting(VotingError::NotPollCreator));
    }
    p.is_active = false;
    if !p.is_encrypted {
        let mut vc = match vote_count {
            Some(vc) => vc,
            None => {
                return Err(OpError::InvalidAccountData);
            },
        };
        vc.is_finalized = true;
        vc.last_updated = now;
        Ok((p, Some(vc)))
    } else {
        Ok((p, None))
    }
}

// ---------------------------------------------------------------------------
// DecryptResults

/// The failure of a DecryptResults call, in check order, or `None` when it
/// succeeds: creator-only, poll encrypted, past its end (auto-closing if
/// still active), tally present, matching and not yet finalized.
pub open spec fn decrypt_results_error(
    shape: CallShape,
    caller: Seq<u8>,
    poll: Option<PollV>,
    vote_count: Option<VoteCountV>,
    poll_id: u64,
    now: u64,
) -> Option<OpError> {
    let se = shape_error(shape, 3);
    if se is Some {
        se
    } else {
        match poll {
            None => Some(OpError::InvalidAccountData),
            Some(p) => if p.id != poll_id {
                Some(OpError::Voting(VotingError::PollDoesNotExist))
            } else if !p.is_encrypted {
                Some(OpError::Voting(VotingError::PollNotEncrypted))
            } else if p.creator != caller {
                Some(OpError::Voting(VotingError::NotPollCreator))
            } else if p.is_active && now <= p.end_time {
                Some(OpError::Voting(VotingError::PollStillActive))
            } else {
                match vote_count {
                    None => Some(OpError::InvalidAccountData),
                    Some(vc) => if vc.poll_id != poll_id {
                        Some(OpError::InvalidAccountData)
                    } else if vc.is_finalized {
                        Some(OpError::Voting(VotingError::ResultsAlreadyFinalized))
                    } else {
                        None
                    },
                }
            },
        }
    }
}

/// The DecryptResults handler: stores the revealed key on the poll, closes
/// it if the end time has passed while it was still active, and performs the
/// single finalize transition of its tally.  Re-tallying the individual
/// encrypted ballots against the revealed key is the caller's collaborator's
/// work; this transition only publishes the key and freezes the counters.
pub fn process_decrypt_results(
    shape: &CallShape,
    caller: &PubKey,
    poll: Option<Poll>,
    vote_count: Option<VoteCount>,
    poll_id: u64,
    decryption_key: Vec<u8>,
    now: u64,
) -> (r: Result<(Poll, VoteCount), OpError>)
    ensures
        match r {
            Ok((updated, vc2)) => {
                &&& decrypt_results_error(
                    *shape,
                    caller@,
                    opt_view(poll),
                    opt_view(vote_count),
                    poll_id,
                    now,
                ) is None
                &&& match (poll, vote_count) {
                    (Some(p), Some(vc)) => {
                        &&& updated@ == (PollV {
                            is_active: false,
                            decryption_key: Some(decryption_key@),
                            ..p@
                        })
                        &&& vc2@ == (VoteCountV { is_finalized: true, last_updated: now, ..vc@ })
                    },
                    _ => false,
                }
            },
            Err(e) => Some(e) == decrypt_results_error(
                *shape,
                caller@,
                opt_view(poll),
                opt_view(vote_count),
                poll_id,
                now,
            ),
        },
        // Finalization is one-way: on an already-finalized tally the call is
        // rejected, whatever else the call holds.
        (match vote_count {
            Some(vc) => vc@.is_finalized,
            None => false,
        }) ==> r is Err,
{
    match check_shape(shape, 3) {
        Ok(()) => {},
        Err(e) => {
            return Err(e);
        },
    }
    let mut p = match poll {
        Some(p) => p,
        None => {
            return Err(OpError::InvalidAccountData);
        },
    };
    if p.id != poll_id {
        return Err(OpError::Voting(VotingError::PollDoesNotExist));
    }
    if !p.is_encrypted {
        return Err(OpError::Voting(VotingError::PollNotEncrypted));
    }
    if !key_eq(&p.creator, caller) {
        return Err(OpError::Voting(VotingError::NotPollCreator));
    }
    if p.is_active {
        if now <= p.end_time {
            return Err(OpError::Voting(VotingError::PollStillActive));
        }
        p.is_active = false;
    }
    let mut vc = match vote_count {
        Some(vc) => vc,
        None => {
            return Err(OpError::InvalidAccountData);
        },
    };
    if vc.poll_id != poll_id {
        return Err(OpError::InvalidAccountData);
    }
    if vc.is_finalized {
        return Err(OpError::Voting(VotingError::ResultsAlreadyFinalized));
    }
    p.decryption_key = Some(decryption_key);
    p.is_active = false;
    vc.is_finalized = true;
    vc.last_updated = now;
    Ok((p, vc))
}

/// **Idempotent finalize.**  Once a tally is finalized its poll is inactive,
/// and in that state both ClosePoll and DecryptResults are rejected — so a
/// finalized tally's counters can never change again through either path.
pub proof fn lemma_finalize_idempotent(
    shape: CallShape,
    caller: Seq<u8>,
    p: PollV,
    vc: VoteCountV,
    poll_id: u64,
    now: u64,
)
    requires
        vc.is_finalized,
        !p.is_active,
    ensures
        close_poll_error(shape, caller, Some(p), Some(vc), poll_id, now) is Some,
        decrypt_results_error(shape, caller, Some(p), Some(vc), poll_id, now) is Some,
{
}

} // verus!
