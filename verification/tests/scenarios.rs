//! End-to-end scenarios over the operation handlers: the vote state
//! machine's edge cases and one concrete instance of each library law.

use poll_engine::delegation_ops::process_delegate_vote;
use poll_engine::delegation_ops::process_revoke_delegation;
use poll_engine::delegation_ops::process_update_token_balance;
use poll_engine::entities::VoterRegistry;
use poll_engine::poll_ops::process_cancel_poll;
use poll_engine::poll_ops::process_close_poll;
use poll_engine::poll_ops::process_create_poll;
use poll_engine::poll_ops::process_decrypt_results;
use poll_engine::results::process_get_results;
use poll_engine::vote_ops::process_cast_vote;
use poll_engine::vote_ops::process_change_vote;
use poll_engine::CallShape;
use poll_engine::CastVoteArgs;
use poll_engine::ChangeVoteArgs;
use poll_engine::CreatePollParams;
use poll_engine::Delegation;
use poll_engine::MaybeAccount;
use poll_engine::OpError;
use poll_engine::Poll;
use poll_engine::PubKey;
use poll_engine::TokenBalance;
use poll_engine::VoteCount;
use poll_engine::VotingError;

const NOW: u64 = 1000000;

fn key(tag: u8) -> PubKey {
    PubKey::new([tag; 32])
}

fn shape(n_accounts: usize) -> CallShape {
    CallShape { n_accounts, caller_is_signer: true, writable_ok: true }
}

fn bytes(s: &str) -> Vec<u8> {
    s.as_bytes().to_vec()
}

fn running_poll(creator: PubKey) -> Poll {
    Poll {
        id: 7,
        creator,
        title: bytes("Scenario"),
        description: bytes("scenario poll"),
        options: vec![bytes("a"), bytes("b"), bytes("c")],
        start_time: NOW - 50,
        end_time: NOW + 1000,
        is_private: false,
        allow_revote: true,
        is_active: true,
        is_weighted: false,
        allow_delegation: false,
        is_encrypted: false,
        decryption_key: None,
        weight_token: None,
        early_voter_bonus: 0,
    }
}

fn zero_count(poll_id: u64, n: usize) -> VoteCount {
    VoteCount {
        poll_id,
        counts: vec![0; n],
        total_voters: 0,
        last_updated: NOW,
        is_finalized: false,
    }
}

fn plain_args(poll_id: u64, option_index: u8) -> CastVoteArgs {
    CastVoteArgs {
        poll_id,
        option_index,
        weight: None,
        encrypted_data: None,
        zk_proof: None,
        nonce: None,
    }
}

fn cast(
    voter: &PubKey,
    poll: &Poll,
    prev: Option<&poll_engine::Vote>,
    registry: VoterRegistry,
    vote_count: VoteCount,
    option_index: u8,
    now: u64,
) -> Result<poll_engine::vote_ops::CastVoteOutcome, OpError> {
    process_cast_vote(
        &shape(5),
        voter,
        Some(poll),
        prev,
        Some(registry),
        Some(vote_count),
        MaybeAccount::Absent,
        MaybeAccount::Absent,
        plain_args(poll.id, option_index),
        now,
    )
}

// Scenario: a poll whose window has not opened rejects every ballot.
#[test]
fn cast_before_start_fails_poll_not_started() {
    let creator = key(1);
    let params = CreatePollParams {
        title: bytes("Future"),
        description: bytes("starts later"),
        options: vec![bytes("a"), bytes("b"), bytes("c")],
        start_time: NOW + 100,
        end_time: NOW + 1000,
        is_private: false,
        allow_revote: false,
        is_weighted: false,
        allow_delegation: false,
        is_encrypted: false,
        weight_token: None,
        early_voter_bonus: 0,
    };
    let (poll, vote_count, registry) =
        process_create_poll(&shape(4), &creator, params, NOW).unwrap();

    let r = cast(&key(2), &poll, None, registry, vote_count, 0, NOW);
    assert_eq!(r.unwrap_err(), OpError::Voting(VotingError::PollNotStarted));
}

// Scenario: a revote moves the single ballot and keeps the voter count at 1.
#[test]
fn revote_moves_ballot_and_keeps_total_voters() {
    let voter = key(2);
    let poll = running_poll(key(1));
    let first = cast(&voter, &poll, None, VoterRegistry::new_empty(7), zero_count(7, 3), 1, NOW)
        .unwrap();
    assert_eq!(first.vote_count.counts, vec![0, 1, 0]);
    assert_eq!(first.vote_count.total_voters, 1);

    let second = cast(
        &voter,
        &poll,
        Some(&first.vote),
        first.registry,
        first.vote_count,
        2,
        NOW + 1,
    )
    .unwrap();
    assert_eq!(second.vote_count.counts, vec![0, 0, 1]);
    assert_eq!(second.vote_count.total_voters, 1);
    // Uniqueness: the registry still lists the voter exactly once.
    assert_eq!(second.registry.voters.len(), 1);
    assert_eq!(second.registry.voters[0], voter);
}

// Scenario: a weighted ballot cast exactly at the start time gets the full
// early-voter bonus: ceil(100 * 1.10) == 110.
#[test]
fn weighted_vote_at_start_gets_full_bonus() {
    let voter = key(2);
    let token = key(3);
    let mut poll = running_poll(key(1));
    poll.start_time = NOW;
    poll.is_weighted = true;
    poll.weight_token = Some(token);
    poll.early_voter_bonus = 10;
    let balance = TokenBalance { owner: voter, token, amount: 100, last_updated: NOW };

    let outcome = process_cast_vote(
        &shape(7),
        &voter,
        Some(&poll),
        None,
        Some(VoterRegistry::new_empty(7)),
        Some(zero_count(7, 3)),
        MaybeAccount::Absent,
        MaybeAccount::Decoded(balance),
        plain_args(7, 0),
        NOW,
    )
    .unwrap();
    assert_eq!(outcome.vote.weight, 110);
    assert_eq!(outcome.vote_count.counts, vec![110, 0, 0]);
}

// Scenario: an encrypted poll demands a nonce, and withholds results until
// the tally is finalized.
#[test]
fn encrypted_vote_needs_nonce_and_results_wait() {
    let voter = key(2);
    let mut poll = running_poll(key(1));
    poll.is_encrypted = true;

    let mut args = plain_args(7, 0);
    args.encrypted_data = Some(vec![1, 2, 3]);
    let r = process_cast_vote(
        &shape(5),
        &voter,
        Some(&poll),
        None,
        Some(VoterRegistry::new_empty(7)),
        Some(zero_count(7, 3)),
        MaybeAccount::Absent,
        MaybeAccount::Absent,
        args,
        NOW,
    );
    assert_eq!(r.unwrap_err(), OpError::Voting(VotingError::MissingNonce));

    let mut args = plain_args(7, 0);
    args.encrypted_data = Some(vec![1, 2, 3]);
    args.nonce = Some(vec![4, 5]);
    let outcome = process_cast_vote(
        &shape(5),
        &voter,
        Some(&poll),
        None,
        Some(VoterRegistry::new_empty(7)),
        Some(zero_count(7, 3)),
        MaybeAccount::Absent,
        MaybeAccount::Absent,
        args,
        NOW,
    )
    .unwrap();

    let report = process_get_results(2, Some(&poll), Some(&outcome.vote_count), 7).unwrap();
    assert!(!report.available);
    assert_eq!(report.counts.len(), 0);
}

// Scenario: cancelling after the start time is rejected.
#[test]
fn cancel_after_start_fails_poll_already_started() {
    let creator = key(1);
    let poll = running_poll(creator);
    let r = process_cancel_poll(&shape(2), &creator, Some(poll), 7, NOW);
    assert_eq!(r.unwrap_err(), OpError::Voting(VotingError::PollAlreadyStarted));
}

// Idempotent finalize: once a tally is finalized, Close and Decrypt are
// both rejected and the counters stand.
#[test]
fn finalize_is_one_way() {
    let creator = key(1);
    let mut poll = running_poll(creator);
    poll.allow_revote = false;
    let mut vc = zero_count(7, 3);
    vc.counts = vec![4, 2, 0];

    let (closed_poll, closed_vc) =
        process_close_poll(&shape(3), &creator, Some(poll), Some(vc), 7, NOW).unwrap();
    let closed_vc = closed_vc.unwrap();
    assert!(closed_vc.is_finalized);
    assert_eq!(closed_vc.counts, vec![4, 2, 0]);

    // A second close finds the poll inactive.
    let again = process_close_poll(
        &shape(3),
        &creator,
        Some(closed_poll.clone()),
        Some(closed_vc.clone()),
        7,
        NOW + 1,
    );
    assert_eq!(again.unwrap_err(), OpError::Voting(VotingError::PollNotActive));

    // Decrypt on a finalized tally is rejected even for an encrypted poll.
    let mut encrypted = closed_poll.clone();
    encrypted.is_encrypted = true;
    let r = process_decrypt_results(
        &shape(3),
        &creator,
        Some(encrypted),
        Some(closed_vc.clone()),
        7,
        vec![9, 9],
        NOW + 2,
    );
    assert_eq!(r.unwrap_err(), OpError::Voting(VotingError::ResultsAlreadyFinalized));
    assert_eq!(closed_vc.counts, vec![4, 2, 0]);
}

// Decrypt reveals the key, closes the poll and finalizes the tally.
#[test]
fn decrypt_results_finalizes_and_stores_key() {
    let creator = key(1);
    let mut poll = running_poll(creator);
    poll.is_encrypted = true;
    poll.end_time = NOW - 1; // already past its end, still marked active
    let vc = zero_count(7, 3);

    let (poll2, vc2) = process_decrypt_results(
        &shape(3),
        &creator,
        Some(poll),
        Some(vc),
        7,
        vec![42, 43],
        NOW,
    )
    .unwrap();
    assert!(!poll2.is_active);
    assert_eq!(poll2.decryption_key, Some(vec![42, 43]));
    assert!(vc2.is_finalized);

    // Once finalized the results are reported as available.
    let report = process_get_results(2, Some(&poll2), Some(&vc2), 7).unwrap();
    assert!(report.available);
    assert!(report.is_finalized);
}

// Tally conservation, concretely: three voters and a change keep the
// counters equal to the standing ballots' weights.
#[test]
fn tally_matches_ballots_after_casts_and_change() {
    let poll = running_poll(key(1));
    let a = cast(&key(2), &poll, None, VoterRegistry::new_empty(7), zero_count(7, 3), 0, NOW)
        .unwrap();
    let b = cast(&key(3), &poll, None, a.registry, a.vote_count, 0, NOW).unwrap();
    let c = cast(&key(4), &poll, None, b.registry, b.vote_count, 2, NOW).unwrap();
    assert_eq!(c.vote_count.counts, vec![2, 0, 1]);
    assert_eq!(c.vote_count.total_voters, 3);

    // Voter 3 moves from option 0 to option 1 through ChangeVote.
    let (moved, vc) = process_change_vote(
        &shape(4),
        &key(3),
        Some(&poll),
        Some(b.vote),
        Some(c.vote_count),
        ChangeVoteArgs {
            poll_id: 7,
            new_option_index: 1,
            new_encrypted_data: None,
            new_zk_proof: None,
            new_nonce: None,
        },
        NOW + 5,
    )
    .unwrap();
    assert_eq!(moved.option_index, 1);
    assert_eq!(vc.counts, vec![1, 1, 1]);
    assert_eq!(vc.total_voters, 3);
    let total: u64 = vc.counts.iter().sum();
    assert_eq!(total, 3); // one ballot of weight 1 per distinct voter
}

#[test]
fn revote_rejected_when_poll_forbids_it() {
    let voter = key(2);
    let mut poll = running_poll(key(1));
    poll.allow_revote = false;
    let first = cast(&voter, &poll, None, VoterRegistry::new_empty(7), zero_count(7, 3), 1, NOW)
        .unwrap();
    let r = cast(&voter, &poll, Some(&first.vote), first.registry, first.vote_count, 2, NOW);
    assert_eq!(r.unwrap_err(), OpError::Voting(VotingError::AlreadyVoted));
}

#[test]
fn change_vote_rejected_when_poll_forbids_revote() {
    let voter = key(2);
    let mut poll = running_poll(key(1));
    poll.allow_revote = false;
    let r = process_change_vote(
        &shape(4),
        &voter,
        Some(&poll),
        None,
        Some(zero_count(7, 3)),
        ChangeVoteArgs {
            poll_id: 7,
            new_option_index: 1,
            new_encrypted_data: None,
            new_zk_proof: None,
            new_nonce: None,
        },
        NOW,
    );
    assert_eq!(r.unwrap_err(), OpError::Voting(VotingError::RevotingNotAllowed));
}

#[test]
fn cast_after_end_fails_poll_ended() {
    let poll = running_poll(key(1));
    let r = cast(
        &key(2),
        &poll,
        None,
        VoterRegistry::new_empty(7),
        zero_count(7, 3),
        0,
        poll.end_time + 1,
    );
    assert_eq!(r.unwrap_err(), OpError::Voting(VotingError::PollEnded));
}

#[test]
fn cast_with_bad_option_fails_invalid_option_index() {
    let poll = running_poll(key(1));
    let r = cast(&key(2), &poll, None, VoterRegistry::new_empty(7), zero_count(7, 3), 3, NOW);
    assert_eq!(r.unwrap_err(), OpError::Voting(VotingError::InvalidOptionIndex));
}

#[test]
fn cast_on_wrong_poll_id_fails_poll_does_not_exist() {
    let poll = running_poll(key(1));
    let r = process_cast_vote(
        &shape(5),
        &key(2),
        Some(&poll),
        None,
        Some(VoterRegistry::new_empty(7)),
        Some(zero_count(7, 3)),
        MaybeAccount::Absent,
        MaybeAccount::Absent,
        plain_args(8, 0),
        NOW,
    );
    assert_eq!(r.unwrap_err(), OpError::Voting(VotingError::PollDoesNotExist));
}

#[test]
fn private_poll_requires_nonempty_proof() {
    let mut poll = running_poll(key(1));
    poll.is_private = true;
    let mut args = plain_args(7, 0);
    args.zk_proof = Some(Vec::new());
    let r = process_cast_vote(
        &shape(5),
        &key(2),
        Some(&poll),
        None,
        Some(VoterRegistry::new_empty(7)),
        Some(zero_count(7, 3)),
        MaybeAccount::Absent,
        MaybeAccount::Absent,
        args,
        NOW,
    );
    assert_eq!(r.unwrap_err(), OpError::Voting(VotingError::InvalidZkProof));

    let mut args = plain_args(7, 0);
    args.zk_proof = Some(vec![1]);
    let ok = process_cast_vote(
        &shape(5),
        &key(2),
        Some(&poll),
        None,
        Some(VoterRegistry::new_empty(7)),
        Some(zero_count(7, 3)),
        MaybeAccount::Absent,
        MaybeAccount::Absent,
        args,
        NOW,
    );
    assert!(ok.is_ok());
}

#[test]
fn encrypted_poll_requires_payload() {
    let mut poll = running_poll(key(1));
    poll.is_encrypted = true;
    let r = cast(&key(2), &poll, None, VoterRegistry::new_empty(7), zero_count(7, 3), 0, NOW);
    assert_eq!(r.unwrap_err(), OpError::Voting(VotingError::InvalidEncryption));
}

#[test]
fn delegated_cast_records_delegate() {
    let voter = key(2);
    let delegate = key(3);
    let mut poll = running_poll(key(1));
    poll.allow_delegation = true;
    let delegation = Delegation {
        id: 99,
        delegator: voter,
        delegate,
        poll_id: Some(7),
        expiration: Some(NOW + 100),
        is_active: true,
    };
    let outcome = process_cast_vote(
        &shape(6),
        &voter,
        Some(&poll),
        None,
        Some(VoterRegistry::new_empty(7)),
        Some(zero_count(7, 3)),
        MaybeAccount::Decoded(delegation),
        MaybeAccount::Absent,
        plain_args(7, 1),
        NOW,
    )
    .unwrap();
    assert_eq!(outcome.vote.delegated_to, Some(delegate));
    assert_eq!(outcome.vote.voter, voter);
}

#[test]
fn expired_delegation_is_rejected() {
    let voter = key(2);
    let mut poll = running_poll(key(1));
    poll.allow_delegation = true;
    let delegation = Delegation {
        id: 99,
        delegator: voter,
        delegate: key(3),
        poll_id: Some(7),
        expiration: Some(NOW - 1),
        is_active: true,
    };
    let r = process_cast_vote(
        &shape(6),
        &voter,
        Some(&poll),
        None,
        Some(VoterRegistry::new_empty(7)),
        Some(zero_count(7, 3)),
        MaybeAccount::Decoded(delegation),
        MaybeAccount::Absent,
        plain_args(7, 1),
        NOW,
    );
    assert_eq!(r.unwrap_err(), OpError::Voting(VotingError::DelegationExpired));
}

#[test]
fn foreign_delegation_is_rejected() {
    let voter = key(2);
    let mut poll = running_poll(key(1));
    poll.allow_delegation = true;
    let delegation = Delegation {
        id: 99,
        delegator: key(5), // someone else's grant
        delegate: key(3),
        poll_id: None,
        expiration: None,
        is_active: true,
    };
    let r = process_cast_vote(
        &shape(6),
        &voter,
        Some(&poll),
        None,
        Some(VoterRegistry::new_empty(7)),
        Some(zero_count(7, 3)),
        MaybeAccount::Decoded(delegation),
        MaybeAccount::Absent,
        plain_args(7, 1),
        NOW,
    );
    assert_eq!(r.unwrap_err(), OpError::Voting(VotingError::InvalidDelegation));
}

#[test]
fn wrong_token_is_rejected() {
    let voter = key(2);
    let mut poll = running_poll(key(1));
    poll.is_weighted = true;
    poll.weight_token = Some(key(3));
    let balance = TokenBalance { owner: voter, token: key(4), amount: 5, last_updated: NOW };
    let r = process_cast_vote(
        &shape(7),
        &voter,
        Some(&poll),
        None,
        Some(VoterRegistry::new_empty(7)),
        Some(zero_count(7, 3)),
        MaybeAccount::Absent,
        MaybeAccount::Decoded(balance),
        plain_args(7, 0),
        NOW,
    );
    assert_eq!(r.unwrap_err(), OpError::Voting(VotingError::InvalidToken));
}

#[test]
fn unreadable_balance_fails_token_balance_not_found() {
    let mut poll = running_poll(key(1));
    poll.is_weighted = true;
    poll.weight_token = Some(key(3));
    let r = process_cast_vote(
        &shape(7),
        &key(2),
        Some(&poll),
        None,
        Some(VoterRegistry::new_empty(7)),
        Some(zero_count(7, 3)),
        MaybeAccount::Absent,
        MaybeAccount::Invalid,
        plain_args(7, 0),
        NOW,
    );
    assert_eq!(r.unwrap_err(), OpError::Voting(VotingError::TokenBalanceNotFound));
}

#[test]
fn revoke_delegation_only_by_delegator() {
    let delegator = key(2);
    let delegation = process_delegate_vote(&shape(3), &delegator, &key(3), None, None, NOW)
        .unwrap();
    let id = delegation.id;

    let stranger = key(4);
    let r = process_revoke_delegation(&shape(2), &stranger, Some(delegation.clone()), id);
    assert_eq!(r.unwrap_err(), OpError::Voting(VotingError::NotDelegator));

    let revoked = process_revoke_delegation(&shape(2), &delegator, Some(delegation), id).unwrap();
    assert!(!revoked.is_active);

    let r = process_revoke_delegation(&shape(2), &delegator, None, id);
    assert_eq!(r.unwrap_err(), OpError::Voting(VotingError::DelegationNotFound));
}

#[test]
fn delegate_vote_rejects_past_expiration() {
    let r = process_delegate_vote(&shape(3), &key(2), &key(3), None, Some(NOW), NOW);
    assert_eq!(r.unwrap_err(), OpError::Voting(VotingError::InvalidPollParameters));
}

#[test]
fn update_token_balance_overwrites_snapshot() {
    let owner = key(2);
    let token = key(3);
    let tb = process_update_token_balance(&shape(3), &owner, &token, 250, NOW).unwrap();
    assert_eq!(tb.owner, owner);
    assert_eq!(tb.token, token);
    assert_eq!(tb.amount, 250);
    assert_eq!(tb.last_updated, NOW);
}

#[test]
fn close_early_by_stranger_fails_not_poll_creator() {
    let poll = running_poll(key(1));
    let r = process_close_poll(&shape(3), &key(9), Some(poll), Some(zero_count(7, 3)), 7, NOW);
    assert_eq!(r.unwrap_err(), OpError::Voting(VotingError::NotPollCreator));
}

#[test]
fn close_after_end_by_anyone_succeeds() {
    let poll = running_poll(key(1));
    let end = poll.end_time;
    let (p2, vc2) = process_close_poll(
        &shape(3),
        &key(9),
        Some(poll),
        Some(zero_count(7, 3)),
        7,
        end + 1,
    )
    .unwrap();
    assert!(!p2.is_active);
    assert!(vc2.unwrap().is_finalized);
}

#[test]
fn decrypt_on_plain_poll_fails_poll_not_encrypted() {
    let creator = key(1);
    let poll = running_poll(creator);
    let r = process_decrypt_results(
        &shape(3),
        &creator,
        Some(poll),
        Some(zero_count(7, 3)),
        7,
        vec![1],
        NOW,
    );
    assert_eq!(r.unwrap_err(), OpError::Voting(VotingError::PollNotEncrypted));
}

#[test]
fn decrypt_on_running_poll_fails_poll_still_active() {
    let creator = key(1);
    let mut poll = running_poll(creator);
    poll.is_encrypted = true;
    let r = process_decrypt_results(
        &shape(3),
        &creator,
        Some(poll),
        Some(zero_count(7, 3)),
        7,
        vec![1],
        NOW,
    );
    assert_eq!(r.unwrap_err(), OpError::Voting(VotingError::PollStillActive));
}

#[test]
fn create_poll_rejects_bad_parameters() {
    let creator = key(1);
    let good = CreatePollParams {
        title: bytes("t"),
        description: bytes("d"),
        options: vec![bytes("a")],
        start_time: NOW + 1,
        end_time: NOW + 2,
        is_private: false,
        allow_revote: false,
        is_weighted: false,
        allow_delegation: false,
        is_encrypted: false,
        weight_token: None,
        early_voter_bonus: 0,
    };

    let mut p = good.clone();
    p.title = Vec::new();
    let r = process_create_poll(&shape(4), &creator, p, NOW);
    assert_eq!(r.unwrap_err(), OpError::Voting(VotingError::InvalidPollParameters));

    let mut p = good.clone();
    p.start_time = NOW + 2;
    p.end_time = NOW + 1;
    let r = process_create_poll(&shape(4), &creator, p, NOW);
    assert_eq!(r.unwrap_err(), OpError::Voting(VotingError::InvalidPollParameters));

    let mut p = good.clone();
    p.is_weighted = true;
    let r = process_create_poll(&shape(4), &creator, p, NOW);
    assert_eq!(r.unwrap_err(), OpError::Voting(VotingError::InvalidPollParameters));

    let mut p = good.clone();
    p.early_voter_bonus = 101;
    let r = process_create_poll(&shape(4), &creator, p, NOW);
    assert_eq!(r.unwrap_err(), OpError::Voting(VotingError::InvalidPollParameters));

    let ok = process_create_poll(&shape(4), &creator, good, NOW);
    assert!(ok.is_ok());
}

#[test]
fn shape_errors_come_first() {
    let creator = key(1);
    let poll = running_poll(creator);

    let r = process_cancel_poll(
        &CallShape { n_accounts: 1, caller_is_signer: true, writable_ok: true },
        &creator,
        Some(poll.clone()),
        7,
        NOW,
    );
    assert_eq!(r.unwrap_err(), OpError::NotEnoughAccountKeys);

    let r = process_cancel_poll(
        &CallShape { n_accounts: 2, caller_is_signer: false, writable_ok: true },
        &creator,
        Some(poll.clone()),
        7,
        NOW,
    );
    assert_eq!(r.unwrap_err(), OpError::MissingRequiredSignature);

    let r = process_cancel_poll(
        &CallShape { n_accounts: 2, caller_is_signer: true, writable_ok: false },
        &creator,
        Some(poll),
        7,
        NOW,
    );
    assert_eq!(r.unwrap_err(), OpError::InvalidAccountData);
}

#[test]
fn cancel_before_start_by_creator_succeeds() {
    let creator = key(1);
    let mut poll = running_poll(creator);
    poll.start_time = NOW + 10;
    let p2 = process_cancel_poll(&shape(2), &creator, Some(poll), 7, NOW).unwrap();
    assert!(!p2.is_active);
}

#[test]
fn cancel_by_stranger_fails_not_poll_creator() {
    let mut poll = running_poll(key(1));
    poll.start_time = NOW + 10;
    let r = process_cancel_poll(&shape(2), &key(9), Some(poll), 7, NOW);
    assert_eq!(r.unwrap_err(), OpError::Voting(VotingError::NotPollCreator));
}

#[test]
fn results_report_counts_and_percentages() {
    let poll = running_poll(key(1));
    let vc = VoteCount {
        poll_id: 7,
        counts: vec![2, 1, 0],
        total_voters: 3,
        last_updated: NOW,
        is_finalized: false,
    };
    let report = process_get_results(2, Some(&poll), Some(&vc), 7).unwrap();
    assert!(report.available);
    assert_eq!(report.counts, vec![2, 1, 0]);
    assert_eq!(report.percentages, vec![66, 33, 0]);
    assert_eq!(report.total_voters, 3);
    assert!(report.is_active);
    assert!(!report.is_finalized);
}

#[test]
fn error_codes_are_stable() {
    assert_eq!(VotingError::InvalidPollParameters.code(), 1001);
    assert_eq!(VotingError::AlreadyVoted.code(), 1008);
    assert_eq!(VotingError::InsufficientFees.code(), 1016);
    assert_eq!(VotingError::MissingNonce.code(), 1027);
}
