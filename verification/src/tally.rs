//! The tally engine.
//!
//! A `VoteCount` carries one counter per option plus the number of distinct
//! voters.  Counting a ballot event means incrementing the chosen option by
//! the ballot's weight, after first removing the voter's previous ballot on
//! a revote.  The conservation lemmas at the end relate the counters to the
//! multiset of current ballots: after any sequence of cast and change
//! events, each counter equals the weight of the ballots standing on its
//! option, and the counters' sum equals the ballots' total weight.

use vstd::prelude::*;

use crate::entities::Vote;
use crate::entities::VoteCount;
use crate::keys::PubKey;

verus! {

/// `a + b` clamped to the largest `u64`.
pub open spec fn sat_add_u64(a: u64, b: u64) -> u64 {
    if a + b > u64::MAX {
        u64::MAX
    } else {
        (a + b) as u64
    }
}

/// `a - b` clamped to zero.
pub open spec fn sat_sub_u64(a: u64, b: u64) -> u64 {
    if a >= b {
        (a - b) as u64
    } else {
        0
    }
}

/// The counters after removing a ballot of weight `w` from option `opt`.
/// An out-of-range option leaves the counters untouched.
pub open spec fn counts_after_dec(c: Seq<u64>, opt: u8, w: u64) -> Seq<u64> {
    if (opt as int) < c.len() {
        c.update(opt as int, sat_sub_u64(c[opt as int], w))
    } else {
        c
    }
}

/// The counters after adding a ballot of weight `w` on option `opt`.
/// An out-of-range option leaves the counters untouched.
pub open spec fn counts_after_inc(c: Seq<u64>, opt: u8, w: u64) -> Seq<u64> {
    if (opt as int) < c.len() {
        c.update(opt as int, sat_add_u64(c[opt as int], w))
    } else {
        c
    }
}

/// The counters after one counted ballot event: a first-time cast adds the
/// new weight; a revote first removes the previous ballot.
pub open spec fn counts_after_event(
    c: Seq<u64>,
    opt: u8,
    w: u64,
    previous: Option<(u8, u64)>,
) -> Seq<u64> {
    let base = match previous {
        Some((prev_opt, prev_w)) => counts_after_dec(c, prev_opt, prev_w),
        None => c,
    };
    counts_after_inc(base, opt, w)
}

/// Counts one ballot event into the tally.
///
/// `previous` is the option and weight of the ballot this event replaces:
/// `None` on a first-time cast, which is the only event that raises
/// `total_voters`.
pub fn update_vote_count(
    vote_count: &mut VoteCount,
    option_index: u8,
    weight: u64,
    previous: Option<(u8, u64)>,
    now: u64,
)
    ensures
        final(vote_count)@.poll_id == old(vote_count)@.poll_id,
        final(vote_count)@.is_finalized == old(vote_count)@.is_finalized,
        final(vote_count)@.last_updated == now,
        final(vote_count)@.counts == counts_after_event(
            old(vote_count)@.counts,
            option_index,
            weight,
            previous,
        ),
        final(vote_count)@.total_voters == match previous {
            None => sat_add_u64(old(vote_count)@.total_voters, 1),
            Some(_) => old(vote_count)@.total_voters,
        },
{
    match previous {
        Some((prev_opt, prev_w)) => {
            if (prev_opt as usize) < vote_count.counts.len() {
                let cur = vote_count.counts[prev_opt as usize];
                vote_count.counts.set(prev_opt as usize, cur.saturating_sub(prev_w));
            }
        },
        None => {
            vote_count.total_voters = vote_count.total_voters.saturating_add(1);
        },
    }
    if (option_index as usize) < vote_count.counts.len() {
        let cur = vote_count.counts[option_index as usize];
        vote_count.counts.set(option_index as usize, cur.saturating_add(weight));
    }
    vote_count.last_updated = now;
}

/// Moves an existing ballot of the given stored weight from one option to
/// another; the number of voters does not change.
pub fn update_vote_count_change(
    vote_count: &mut VoteCount,
    old_option_index: u8,
    new_option_index: u8,
    weight: u64,
    now: u64,
)
    ensures
        final(vote_count)@.poll_id == old(vote_count)@.poll_id,
        final(vote_count)@.is_finalized == old(vote_count)@.is_finalized,
        final(vote_count)@.last_updated == now,
        final(vote_count)@.total_voters == old(vote_count)@.total_voters,
        final(vote_count)@.counts == counts_after_event(
            old(vote_count)@.counts,
            new_option_index,
            weight,
            Some((old_option_index, weight)),
        ),
{
    update_vote_count(vote_count, new_option_index, weight, Some((old_option_index, weight)), now);
}

/// Reads the ballot a voter already holds in a poll, as the pair of its
/// option and stored weight; anything that is not this voter's ballot in
/// this poll reads as no previous ballot.
pub fn get_previous_vote(vote: Option<&Vote>, poll_id: u64, voter: &PubKey) -> (r: Option<
    (u8, u64),
>)
    ensures
        r == match vote {
            Some(v) => if v@.voter == voter@ && v@.poll_id == poll_id {
                Some((v@.option_index, v@.weight))
            } else {
                None::<(u8, u64)>
            },
            None => None::<(u8, u64)>,
        },
{
    match vote {
        Some(v) => {
            if crate::keys::key_eq(&v.voter, voter) && v.poll_id == poll_id {
                Some((v.option_index, v.weight))
            } else {
                None
            }
        },
        None => None,
    }
}

// ---------------------------------------------------------------------------
// Conservation: counters against the ballots they stand for.

/// Total weight of a list of ballots, each a pair of option and weight.
pub open spec fn sum_weights(ballots: Seq<(u8, u64)>) -> int
    decreases ballots.len(),
{
    if ballots.len() == 0 {
        0
    } else {
        sum_weights(ballots.drop_last()) + ballots.last().1
    }
}

/// Total weight of the ballots standing on option `opt`.
pub open spec fn option_weight(ballots: Seq<(u8, u64)>, opt: int) -> int
    decreases ballots.len(),
{
    if ballots.len() == 0 {
        0
    } else {
        option_weight(ballots.drop_last(), opt) + if ballots.last().0 == opt {
            ballots.last().1 as int
        } else {
            0
        }
    }
}

/// Sum of all per-option counters.
pub open spec fn sum_counts(counts: Seq<u64>) -> int
    decreases counts.len(),
{
    if counts.len() == 0 {
        0
    } else {
        sum_counts(counts.drop_last()) + counts.last()
    }
}

/// The tally invariant: every ballot's option is in range, and each counter
/// equals the weight of the ballots standing on its option.
pub open spec fn tally_matches(counts: Seq<u64>, ballots: Seq<(u8, u64)>) -> bool {
    &&& forall|i: int|
        0 <= i < ballots.len() ==> (#[trigger] ballots[i].0 as int) < counts.len()
    &&& forall|opt: int|
        0 <= opt < counts.len() ==> counts[opt] == option_weight(ballots, opt)
}

proof fn lemma_option_weight_push(ballots: Seq<(u8, u64)>, x: (u8, u64), opt: int)
    ensures
        option_weight(ballots.push(x), opt) == option_weight(ballots, opt) + if x.0 == opt {
            x.1 as int
        } else {
            0
        },
{
    assert(ballots.push(x).drop_last() =~= ballots);
    assert(ballots.push(x).last() == x);
}

proof fn lemma_option_weight_update(ballots: Seq<(u8, u64)>, i: int, x: (u8, u64), opt: int)
    requires
        0 <= i < ballots.len(),
    ensures
        option_weight(ballots.update(i, x), opt) == option_weight(ballots, opt) - (if ballots[i].0
            == opt {
            ballots[i].1 as int
        } else {
            0
        }) + if x.0 == opt {
            x.1 as int
        } else {
            0
        },
    decreases ballots.len(),
{
    let updated = ballots.update(i, x);
    if i == ballots.len() - 1 {
        assert(updated.drop_last() =~= ballots.drop_last());
        assert(updated.last() == x);
    } else {
        assert(updated.drop_last() =~= ballots.drop_last().update(i, x));
        assert(updated.last() == ballots.last());
        lemma_option_weight_update(ballots.drop_last(), i, x, opt);
    }
}

/// **Tally conservation, first-time cast.**  If the counters match the
/// ballots, and a new ballot on an in-range option is counted without its
/// counter overflowing, the counters match the ballots extended by it.
pub proof fn lemma_tally_conservation_first_vote(
    counts: Seq<u64>,
    ballots: Seq<(u8, u64)>,
    opt: u8,
    w: u64,
)
    requires
        tally_matches(counts, ballots),
        (opt as int) < counts.len(),
        counts[opt as int] + w <= u64::MAX,
    ensures
        tally_matches(counts_after_event(counts, opt, w, None), ballots.push((opt, w))),
{
    let after = counts_after_event(counts, opt, w, None);
    let newb = ballots.push((opt, w));
    assert forall|o: int| 0 <= o < after.len() implies after[o] == option_weight(newb, o) by {
        lemma_option_weight_push(ballots, (opt, w), o);
    }
    assert forall|i: int| 0 <= i < newb.len() implies (#[trigger] newb[i].0 as int)
        < after.len() by {}
}

/// **Tally conservation, revote.**  If the counters match the ballots and
/// voter `i`'s ballot is replaced — its old weight removed from its old
/// option, the new weight added to the new in-range option, with neither
/// counter under- nor overflowing — the counters match the updated ballots.
/// A vote changed through the dedicated change entry point is the special
/// case where the new weight equals the stored one.
pub proof fn lemma_tally_conservation_revote(
    counts: Seq<u64>,
    ballots: Seq<(u8, u64)>,
    i: int,
    opt: u8,
    w: u64,
)
    requires
        tally_matches(counts, ballots),
        0 <= i < ballots.len(),
        (opt as int) < counts.len(),
        w <= counts_after_dec(counts, ballots[i].0, ballots[i].1)[opt as int] + w <= u64::MAX,
    ensures
        tally_matches(
            counts_after_event(counts, opt, w, Some((ballots[i].0, ballots[i].1))),
            ballots.update(i, (opt, w)),
        ),
{
    let prev_opt = ballots[i].0;
    let prev_w = ballots[i].1;
    let after = counts_after_event(counts, opt, w, Some((prev_opt, prev_w)));
    let newb = ballots.update(i, (opt, w));
    assert(counts[prev_opt as int] >= prev_w) by {
        lemma_option_weight_at_least(ballots, i);
    }
    assert forall|o: int| 0 <= o < after.len() implies after[o] == option_weight(newb, o) by {
        lemma_option_weight_update(ballots, i, (opt, w), o);
    }
}

/// The counter of a ballot's option covers at least that ballot's weight,
/// under the tally invariant.
proof fn lemma_option_weight_at_least(ballots: Seq<(u8, u64)>, i: int)
    requires
        0 <= i < ballots.len(),
    ensures
        option_weight(ballots, ballots[i].0 as int) >= ballots[i].1,
    decreases ballots.len(),
{
    lemma_option_weight_nonneg(ballots.drop_last(), ballots[i].0 as int);
    if i < ballots.len() - 1 {
        lemma_option_weight_at_least(ballots.drop_last(), i);
    }
}

proof fn lemma_option_weight_nonneg(ballots: Seq<(u8, u64)>, opt: int)
    ensures
        option_weight(ballots, opt) >= 0,
    decreases ballots.len(),
{
    if ballots.len() > 0 {
        lemma_option_weight_nonneg(ballots.drop_last(), opt);
    }
}

/// Sum of `option_weight` over the options below `n`.
spec fn sum_option_weights(ballots: Seq<(u8, u64)>, n: nat) -> int
    decreases n,
{
    if n == 0 {
        0
    } else {
        sum_option_weights(ballots, (n - 1) as nat) + option_weight(ballots, n - 1)
    }
}

proof fn lemma_sum_option_weights_empty(ballots: Seq<(u8, u64)>, n: nat)
    requires
        ballots.len() == 0,
    ensures
        sum_option_weights(ballots, n) == 0,
    decreases n,
{
    if n > 0 {
        lemma_sum_option_weights_empty(ballots, (n - 1) as nat);
    }
}

proof fn lemma_sum_option_weights_drop(ballots: Seq<(u8, u64)>, n: nat)
    requires
        ballots.len() > 0,
    ensures
        sum_option_weights(ballots, n) == sum_option_weights(ballots.drop_last(), n) + if (
        ballots.last().0 as int) < n {
            ballots.last().1 as int
        } else {
            0
        },
    decreases n,
{
    if n > 0 {
        lemma_sum_option_weights_drop(ballots, (n - 1) as nat);
    }
}

proof fn lemma_sum_option_weights_total(ballots: Seq<(u8, u64)>, n: nat)
    requires
        forall|i: int| 0 <= i < ballots.len() ==> (#[trigger] ballots[i].0 as int) < n,
    ensures
        sum_option_weights(ballots, n) == sum_weights(ballots),
    decreases ballots.len(),
{
    if ballots.len() == 0 {
        lemma_sum_option_weights_empty(ballots, n);
    } else {
        lemma_sum_option_weights_drop(ballots, n);
        lemma_sum_option_weights_total(ballots.drop_last(), n);
    }
}

proof fn lemma_sum_counts_as_option_weights(counts: Seq<u64>, ballots: Seq<(u8, u64)>)
    requires
        forall|opt: int| 0 <= opt < counts.len() ==> counts[opt] == option_weight(ballots, opt),
    ensures
        sum_counts(counts) == sum_option_weights(ballots, counts.len()),
    decreases counts.len(),
{
    if counts.len() > 0 {
        lemma_sum_counts_as_option_weights(counts.drop_last(), ballots);
    }
}

/// **Tally conservation, summed.**  Under the tally invariant the counters'
/// sum equals the total weight of the current ballots — one per distinct
/// voter.
pub proof fn lemma_tally_sum(counts: Seq<u64>, ballots: Seq<(u8, u64)>)
    requires
        tally_matches(counts, ballots),
    ensures
        sum_counts(counts) == sum_weights(ballots),
{
    lemma_sum_counts_as_option_weights(counts, ballots);
    lemma_sum_option_weights_total(ballots, counts.len() as nat);
}

} // verus!
