//! The original operation tests, run against the verified handlers on
//! decoded records with a fixed mock clock.

use poll_engine::delegation_ops::process_delegate_vote;
use poll_engine::entities::VoterRegistry;
use poll_engine::poll_ops::process_close_poll;
use poll_engine::poll_ops::process_create_poll;
use poll_engine::vote_ops::process_cast_vote;
use poll_engine::vote_ops::process_change_vote;
use poll_engine::CallShape;
use poll_engine::CastVoteArgs;
use poll_engine::ChangeVoteArgs;
use poll_engine::CreatePollParams;
use poll_engine::MaybeAccount;
use poll_engine::Poll;
use poll_engine::PubKey;
use poll_engine::TokenBalance;
use poll_engine::Vote;
use poll_engine::VoteCount;

const MOCK_BLOCK_HEIGHT: u64 = 1000000;

fn key(tag: u8) -> PubKey {
    PubKey::new([tag; 32])
}

fn shape(n_accounts: usize) -> CallShape {
    CallShape { n_accounts, caller_is_signer: true, writable_ok: true }
}

fn bytes(s: &str) -> Vec<u8> {
    s.as_bytes().to_vec()
}

fn basic_poll(creator: PubKey) -> Poll {
    Poll {
        id: 12345,
        creator,
        title: bytes("Test Poll"),
        description: bytes("This is a test poll"),
        options: vec![bytes("Option 1"), bytes("Option 2"), bytes("Option 3")],
        start_time: MOCK_BLOCK_HEIGHT - 50,
        end_time: MOCK_BLOCK_HEIGHT + 1000,
        is_private: false,
        allow_revote: true,
        is_active: true,
        is_weighted: false,
        allow_delegation: false,
        is_encrypted: false,
        decryption_key: None,
        weight_token: None,
        early_voter_bonus: 0,
    }
}

fn zero_count(poll_id: u64, n: usize) -> VoteCount {
    VoteCount {
        poll_id,
        counts: vec![0; n],
        total_voters: 0,
        last_updated: MOCK_BLOCK_HEIGHT,
        is_finalized: false,
    }
}

#[test]
fn test_create_poll() {
    let creator_key = key(1);
    let params = CreatePollParams {
        title: bytes("Test Poll"),
        description: bytes("This is a test poll"),
        options: vec![bytes("Option 1"), bytes("Option 2"), bytes("Option 3")],
        start_time: MOCK_BLOCK_HEIGHT + 100,
        end_time: MOCK_BLOCK_HEIGHT + 1000,
        is_private: false,
        allow_revote: true,
        is_weighted: false,
        allow_delegation: false,
        is_encrypted: false,
        weight_token: None,
        early_voter_bonus: 0,
    };

    let result = process_create_poll(&shape(4), &creator_key, params, MOCK_BLOCK_HEIGHT);
    assert!(result.is_ok(), "Failed to create poll: {:?}", result);

    let (poll_data, vote_count_data, _registry) = result.unwrap();
    assert_eq!(poll_data.title, bytes("Test Poll"));
    assert_eq!(poll_data.options.len(), 3);
    assert_eq!(poll_data.is_active, true);
    assert_eq!(vote_count_data.counts.len(), 3);
    assert_eq!(vote_count_data.total_voters, 0);
}

#[test]
fn test_cast_vote() {
    let voter_key = key(2);
    let poll = basic_poll(key(9));
    let vote_count = zero_count(12345, 3);
    let registry = VoterRegistry::new_empty(12345);

    let args = CastVoteArgs {
        poll_id: 12345,
        option_index: 1, // Vote for Option 2
        weight: None,
        encrypted_data: None,
        zk_proof: None,
        nonce: None,
    };
    let result = process_cast_vote(
        &shape(5),
        &voter_key,
        Some(&poll),
        None,
        Some(registry),
        Some(vote_count),
        MaybeAccount::Absent,
        MaybeAccount::Absent,
        args,
        MOCK_BLOCK_HEIGHT,
    );
    assert!(result.is_ok(), "Failed to cast vote: {:?}", result);

    let outcome = result.unwrap();
    assert_eq!(outcome.vote.poll_id, 12345);
    assert_eq!(outcome.vote.option_index, 1);
    assert_eq!(outcome.vote_count.counts, vec![0, 1, 0]);
    assert_eq!(outcome.vote_count.total_voters, 1);
    assert_eq!(outcome.registry.voters.len(), 1);
    assert_eq!(outcome.registry.voters[0], voter_key);
}

#[test]
fn test_change_vote() {
    let voter_key = key(3);
    let poll = basic_poll(key(9));
    let vote = Vote {
        poll_id: 12345,
        voter: voter_key,
        option_index: 1, // Currently voted for Option 2
        timestamp: MOCK_BLOCK_HEIGHT,
        weight: 1,
        delegated_to: None,
        encrypted_data: None,
        zk_proof: None,
        nonce: None,
    };
    let vote_count = VoteCount {
        poll_id: 12345,
        counts: vec![0, 1, 0], // One vote for Option 2
        total_voters: 1,
        last_updated: MOCK_BLOCK_HEIGHT,
        is_finalized: false,
    };

    let args = ChangeVoteArgs {
        poll_id: 12345,
        new_option_index: 2, // Change vote to Option 3
        new_encrypted_data: None,
        new_zk_proof: None,
        new_nonce: None,
    };
    let result = process_change_vote(
        &shape(4),
        &voter_key,
        Some(&poll),
        Some(vote),
        Some(vote_count),
        args,
        MOCK_BLOCK_HEIGHT,
    );
    assert!(result.is_ok(), "Failed to change vote: {:?}", result);

    let (vote_data, vote_count_data) = result.unwrap();
    assert_eq!(vote_data.option_index, 2);
    assert_eq!(vote_count_data.counts, vec![0, 0, 1]);
    assert_eq!(vote_count_data.total_voters, 1);
}

#[test]
fn test_close_poll() {
    let caller_key = key(4);
    let poll = basic_poll(caller_key); // Caller is the creator
    let vote_count = VoteCount {
        poll_id: 12345,
        counts: vec![5, 10, 3], // Some votes already cast
        total_voters: 18,
        last_updated: MOCK_BLOCK_HEIGHT,
        is_finalized: false,
    };

    let result = process_close_poll(
        &shape(3),
        &caller_key,
        Some(poll),
        Some(vote_count),
        12345,
        MOCK_BLOCK_HEIGHT,
    );
    assert!(result.is_ok(), "Failed to close poll: {:?}", result);

    let (poll_data, vote_count_data) = result.unwrap();
    assert_eq!(poll_data.is_active, false);
    assert_eq!(vote_count_data.unwrap().is_finalized, true);
}

#[test]
fn test_delegate_vote() {
    let delegator_key = key(5);
    let delegate_key = key(6);

    let result = process_delegate_vote(
        &shape(3),
        &delegator_key,
        &delegate_key,
        Some(12345),
        Some(MOCK_BLOCK_HEIGHT + 2000),
        MOCK_BLOCK_HEIGHT,
    );
    assert!(result.is_ok(), "Failed to delegate vote: {:?}", result);

    let delegation_data = result.unwrap();
    assert_eq!(delegation_data.delegator, delegator_key);
    assert_eq!(delegation_data.delegate, delegate_key);
    assert_eq!(delegation_data.poll_id, Some(12345));
    assert_eq!(delegation_data.is_active, true);
}

#[test]
fn test_weighted_voting() {
    let voter_key = key(7);
    let token_key = key(8);
    let mut poll = basic_poll(key(9));
    poll.title = bytes("Weighted Poll");
    poll.description = bytes("This is a weighted poll");
    poll.options = vec![bytes("Option 1"), bytes("Option 2")];
    poll.allow_revote = false;
    poll.is_weighted = true; // Weighted voting enabled
    poll.weight_token = Some(token_key); // Token for weighting
    poll.early_voter_bonus = 10; // 10% early voter bonus
    let vote_count = zero_count(12345, 2);
    let registry = VoterRegistry::new_empty(12345);
    let token_balance = TokenBalance {
        owner: voter_key,
        token: token_key,
        amount: 100, // Voter has 100 tokens
        last_updated: MOCK_BLOCK_HEIGHT,
    };

    let args = CastVoteArgs {
        poll_id: 12345,
        option_index: 0, // Vote for Option 1
        weight: None,    // Use token balance for weight
        encrypted_data: None,
        zk_proof: None,
        nonce: None,
    };
    let result = process_cast_vote(
        &shape(7),
        &voter_key,
        Some(&poll),
        None,
        Some(registry),
        Some(vote_count),
        MaybeAccount::Absent,
        MaybeAccount::Decoded(token_balance),
        args,
        MOCK_BLOCK_HEIGHT,
    );
    assert!(result.is_ok(), "Failed to cast weighted vote: {:?}", result);

    let outcome = result.unwrap();
    assert!(
        outcome.vote.weight > 100,
        "Weight should be greater than token balance due to early voter bonus"
    );
    assert_eq!(outcome.vote_count.counts[0], outcome.vote.weight);
    assert_eq!(outcome.vote_count.total_voters, 1);
}

#[test]
fn test_encrypted_voting() {
    let voter_key = key(10);
    let mut poll = basic_poll(key(9));
    poll.title = bytes("Encrypted Poll");
    poll.description = bytes("This is an encrypted poll");
    poll.options = vec![bytes("Option 1"), bytes("Option 2")];
    poll.allow_revote = false;
    poll.is_encrypted = true; // Encryption enabled
    let vote_count = zero_count(12345, 2);
    let registry = VoterRegistry::new_empty(12345);

    let encrypted_data = vec![1, 2, 3, 4, 5]; // Mock encrypted vote
    let nonce = vec![6, 7, 8, 9, 10]; // Mock nonce

    let args = CastVoteArgs {
        poll_id: 12345,
        option_index: 0,
        weight: None,
        encrypted_data: Some(encrypted_data.clone()),
        zk_proof: None,
        nonce: Some(nonce.clone()),
    };
    let result = process_cast_vote(
        &shape(5),
        &voter_key,
        Some(&poll),
        None,
        Some(registry),
        Some(vote_count),
        MaybeAccount::Absent,
        MaybeAccount::Absent,
        args,
        MOCK_BLOCK_HEIGHT,
    );
    assert!(result.is_ok(), "Failed to cast encrypted vote: {:?}", result);

    let outcome = result.unwrap();
    assert_eq!(outcome.vote.encrypted_data.unwrap(), encrypted_data);
    assert_eq!(outcome.vote.nonce.unwrap(), nonce);
    assert_eq!(outcome.vote_count.total_voters, 1);
}
