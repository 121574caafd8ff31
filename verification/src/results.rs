//! GetResults: the pure read over a poll and its tally.

use vstd::prelude::*;

use crate::entities::PollV;
use crate::entities::VoteCount;
use crate::entities::VoteCountV;
use crate::entities::Poll;
use crate::errors::OpError;
use crate::errors::VotingError;
use crate::poll_ops::opt_view;

verus! {

/// The report GetResults produces.  For an encrypted poll whose tally is
/// not yet finalized the results are withheld (`available` is false and the
/// per-option data is empty) without this being an error.
#[derive(Debug, Clone, PartialEq, Eq)]
pub struct PollResults {
    pub available: bool,
    pub counts: Vec<u64>,
    pub percentages: Vec<u64>,
    pub total_voters: u64,
    pub is_active: bool,
    pub is_finalized: bool,
}

/// A counter as a percentage of the distinct-voter total: zero when nobody
/// voted, clamped to the largest `u64`; weighted counters can exceed 100.
pub open spec fn percent_spec(count: u64, total: u64) -> u64 {
    if total == 0 {
        0
    } else if count * 100 / (total as int) > u64::MAX {
        u64::MAX
    } else {
        (count * 100 / (total as int)) as u64
    }
}

/// The counter reported for option `i`: the tally's counter, or zero where
/// the tally is shorter than the option list.
pub open spec fn reported_count(vc: VoteCountV, i: int) -> u64 {
    if i < vc.counts.len() {
        vc.counts[i]
    } else {
        0
    }
}

/// The failure of a GetResults call, in check order, or `None` when it
/// succeeds.
pub open spec fn get_results_error(
    n_accounts: int,
    poll: Option<PollV>,
    vote_count: Option<VoteCountV>,
    poll_id: u64,
) -> Option<OpError> {
    if n_accounts < 2 {
        Some(OpError::NotEnoughAccountKeys)
    } else {
        match poll {
            None => Some(OpError::InvalidAccountData),
            Some(p) => if p.id != poll_id {
                Some(OpError::Voting(VotingError::PollDoesNotExist))
            } else {
                match vote_count {
                    None => Some(OpError::InvalidAccountData),
                    Some(vc) => if vc.poll_id != poll_id {
                        Some(OpError::InvalidAccountData)
                    } else {
                        None
                    },
                }
            },
        }
    }
}

fn percent_of(count: u64, total: u64) -> (p: u64)
    ensures
        p == percent_spec(count, total),
{
    if total == 0 {
        return 0;
    }
    let q: u128 = (count as u128) * 100u128 / (total as u128);
    if q > 0xFFFF_FFFF_FFFF_FFFFu128 {
        u64::MAX
    } else {
        q as u64
    }
}

/// The GetResults handler: reports the per-option counters, each also as a
/// percentage of the distinct-voter total, plus the poll's status — unless
/// the poll is encrypted and not yet finalized, in which case the report
/// only says the results are not yet available.
pub fn process_get_results(
    n_accounts: usize,
    poll: Option<&Poll>,
    vote_count: Option<&VoteCount>,
    poll_id: u64,
) -> (r: Result<PollResults, OpError>)
    ensures
        match r {
            Ok(res) => {
                &&& get_results_error(
                    n_accounts as int,
                    opt_view(poll),
                    opt_view(vote_count),
                    poll_id,
                ) is None
                &&& match (poll, vote_count) {
                    (Some(p), Some(vc)) => {
                        &&& res.available == !(p@.is_encrypted && !vc@.is_finalized)
                        &&& res.is_active == p@.is_active
                        &&& res.is_finalized == vc@.is_finalized
                        &&& if res.available {
                            &&& res.counts@ == Seq::new(
                                p@.options.len(),
                                |i: int| reported_count(vc@, i),
                            )
                            &&& res.percentages@ == Seq::new(
                                p@.options.len(),
                                |i: int| percent_spec(reported_count(vc@, i), vc@.total_voters),
                            )
                            &&& res.total_voters == vc@.total_voters
                        } else {
                            &&& res.counts@ == Seq::<u64>::empty()
                            &&& res.percentages@ == Seq::<u64>::empty()
                            &&& res.total_voters == 0
                        }
                    },
                    _ => false,
                }
            },
            Err(e) => Some(e) == get_results_error(
                n_accounts as int,
                opt_view(poll),
                opt_view(vote_count),
                poll_id,
            ),
        },
{
    if n_accounts < 2 {
        return Err(OpError::NotEnoughAccountKeys);
    }
    let p = match poll {
        Some(p) => p,
        None => {
            return Err(OpError::InvalidAccountData);
        },
    };
    if p.id != poll_id {
        return Err(OpError::Voting(VotingError::PollDoesNotExist));
    }
    let vc = match vote_count {
        Some(vc) => vc,
        None => {
            return Err(OpError::InvalidAccountData);
        },
    };
    if vc.poll_id != poll_id {
        return Err(OpError::InvalidAccountData);
    }

    if p.is_encrypted && !vc.is_finalized {
        let res = PollResults {
            available: false,
            counts: Vec::new(),
            percentages: Vec::new(),
            total_voters: 0,
            is_active: p.is_active,
            is_finalized: vc.is_finalized,
        };
        proof {
            assert(res.counts@ =~= Seq::<u64>::empty());
            assert(res.percentages@ =~= Seq::<u64>::empty());
        }
        return Ok(res);
    }

    let n = p.options.len();
    let mut counts: Vec<u64> = Vec::new();
    let mut percentages: Vec<u64> = Vec::new();
    let mut i: usize = 0;
    while i < n
        invariant
            i <= n,
            counts@.len() == i,
            percentages@.len() == i,
            forall|j: int| 0 <= j < i ==> counts@[j] == reported_count(vc@, j),
            forall|j: int|
                0 <= j < i ==> percentages@[j] == percent_spec(
                    reported_count(vc@, j),
                    vc@.total_voters,
                ),
        decreases n - i,
    {
        let c = if i < vc.counts.len() {
            vc.counts[i]
        } else {
            0
        };
        counts.push(c);
        percentages.push(percent_of(c, vc.total_voters));
        i += 1;
    }
    proof {
        assert(counts@ =~= Seq::new(p@.options.len(), |i: int| reported_count(vc@, i)));
        assert(percentages@ =~= Seq::new(
            p@.options.len(),
            |i: int| percent_spec(reported_count(vc@, i), vc@.total_voters),
        ));
    }
    Ok(
        PollResults {
            available: true,
            counts,
            percentages,
            total_voters: vc.total_voters,
            is_active: p.is_active,
            is_finalized: vc.is_finalized,
        },
    )
}

} // verus!
