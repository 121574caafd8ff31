//! The entity codec on concrete values: exact byte layouts, round trips,
//! and tolerance of trailing buffer padding.

use poll_engine::codec::decode_delegation;
use poll_engine::codec::decode_poll;
use poll_engine::codec::decode_token_balance;
use poll_engine::codec::decode_vote;
use poll_engine::codec::decode_vote_count;
use poll_engine::codec::decode_voter_registry;
use poll_engine::codec::encode_delegation;
use poll_engine::codec::encode_poll;
use poll_engine::codec::encode_token_balance;
use poll_engine::codec::encode_vote;
use poll_engine::codec::encode_vote_count;
use poll_engine::codec::encode_voter_registry;
use poll_engine::Delegation;
use poll_engine::Poll;
use poll_engine::PubKey;
use poll_engine::TokenBalance;
use poll_engine::Vote;
use poll_engine::VoteCount;
use poll_engine::VoterRegistry;

fn key(tag: u8) -> PubKey {
    PubKey::new([tag; 32])
}

#[test]
fn token_balance_layout_is_fixed_little_endian() {
    let tb = TokenBalance { owner: key(1), token: key(2), amount: 0x0102, last_updated: 3 };
    let bytes = encode_token_balance(&tb);
    let mut expected = vec![1u8; 32];
    expected.extend(vec![2u8; 32]);
    expected.extend(vec![0x02, 0x01, 0, 0, 0, 0, 0, 0]); // amount, little endian
    expected.extend(vec![3, 0, 0, 0, 0, 0, 0, 0]); // last_updated
    assert_eq!(bytes, expected);
}

#[test]
fn vote_count_layout_prefixes_counter_list() {
    let vc = VoteCount {
        poll_id: 1,
        counts: vec![7, 8],
        total_voters: 2,
        last_updated: 9,
        is_finalized: true,
    };
    let bytes = encode_vote_count(&vc);
    let mut expected = vec![1, 0, 0, 0, 0, 0, 0, 0]; // poll_id
    expected.extend(vec![2, 0, 0, 0]); // counts.len() as u32
    expected.extend(vec![7, 0, 0, 0, 0, 0, 0, 0]);
    expected.extend(vec![8, 0, 0, 0, 0, 0, 0, 0]);
    expected.extend(vec![2, 0, 0, 0, 0, 0, 0, 0]); // total_voters
    expected.extend(vec![9, 0, 0, 0, 0, 0, 0, 0]); // last_updated
    expected.push(1); // is_finalized
    assert_eq!(bytes, expected);
}

fn sample_poll() -> Poll {
    Poll {
        id: 0xDEAD_BEEF,
        creator: key(5),
        title: b"A title".to_vec(),
        description: b"words".to_vec(),
        options: vec![b"yes".to_vec(), b"no".to_vec()],
        start_time: 10,
        end_time: 999,
        is_private: true,
        allow_revote: false,
        is_active: true,
        is_weighted: true,
        allow_delegation: false,
        is_encrypted: true,
        decryption_key: Some(vec![1, 2, 3]),
        weight_token: Some(key(6)),
        early_voter_bonus: 55,
    }
}

#[test]
fn poll_round_trips_through_the_codec() {
    let poll = sample_poll();
    let bytes = encode_poll(&poll);
    let back = decode_poll(&bytes).unwrap();
    assert_eq!(back, poll);
}

#[test]
fn poll_decoding_ignores_trailing_padding() {
    let poll = sample_poll();
    let mut bytes = encode_poll(&poll);
    bytes.extend(vec![0u8; 100]); // buffer slack beyond the record
    let back = decode_poll(&bytes).unwrap();
    assert_eq!(back, poll);
}

#[test]
fn truncated_poll_fails_to_decode() {
    let poll = sample_poll();
    let mut bytes = encode_poll(&poll);
    bytes.truncate(bytes.len() - 1);
    assert!(decode_poll(&bytes).is_none());
}

#[test]
fn vote_round_trips_through_the_codec() {
    let vote = Vote {
        poll_id: 3,
        voter: key(7),
        option_index: 2,
        timestamp: 1234,
        weight: 99,
        delegated_to: Some(key(8)),
        encrypted_data: Some(vec![4, 5]),
        zk_proof: None,
        nonce: Some(vec![6]),
    };
    let bytes = encode_vote(&vote);
    assert_eq!(decode_vote(&bytes).unwrap(), vote);
}

#[test]
fn vote_count_round_trips_through_the_codec() {
    let vc = VoteCount {
        poll_id: 4,
        counts: vec![0, 110, 3],
        total_voters: 2,
        last_updated: 77,
        is_finalized: false,
    };
    let bytes = encode_vote_count(&vc);
    assert_eq!(decode_vote_count(&bytes).unwrap(), vc);
}

#[test]
fn voter_registry_round_trips_through_the_codec() {
    let reg = VoterRegistry {
        poll_id: 5,
        voter_bitmap: vec![0, 16, 0, 2],
        voters: vec![key(9), key(10)],
    };
    let bytes = encode_voter_registry(&reg);
    assert_eq!(decode_voter_registry(&bytes).unwrap(), reg);
}

#[test]
fn delegation_round_trips_through_the_codec() {
    let d = Delegation {
        id: 6,
        delegator: key(11),
        delegate: key(12),
        poll_id: None,
        expiration: Some(42),
        is_active: true,
    };
    let bytes = encode_delegation(&d);
    assert_eq!(decode_delegation(&bytes).unwrap(), d);
}

#[test]
fn token_balance_round_trips_through_the_codec() {
    let tb = TokenBalance { owner: key(13), token: key(14), amount: u64::MAX, last_updated: 0 };
    let bytes = encode_token_balance(&tb);
    assert_eq!(decode_token_balance(&bytes).unwrap(), tb);
}

#[test]
fn cancel_poll_instruction_decodes_from_tagged_bytes() {
    let mut data = vec![1u8]; // CancelPoll tag
    data.extend(vec![0x39, 0x30, 0, 0, 0, 0, 0, 0]); // poll_id 12345, little endian
    data.extend(vec![2, 0, 0, 0]); // tx_hex length
    data.extend(vec![0xAA, 0xBB]);
    match poll_engine::codec::decode_instruction(&data) {
        Some(poll_engine::PollInstruction::CancelPoll { poll_id, tx_hex }) => {
            assert_eq!(poll_id, 12345);
            assert_eq!(tx_hex, vec![0xAA, 0xBB]);
        },
        other => panic!("unexpected decode: {:?}", other),
    }
}

#[test]
fn instruction_with_trailing_bytes_is_rejected() {
    let mut data = vec![5u8]; // GetResults tag
    data.extend(vec![7, 0, 0, 0, 0, 0, 0, 0]);
    assert!(poll_engine::codec::decode_instruction(&data).is_some());
    data.push(0);
    assert!(poll_engine::codec::decode_instruction(&data).is_none());
}

#[test]
fn unknown_instruction_tag_is_rejected() {
    assert!(poll_engine::codec::decode_instruction(&vec![10u8]).is_none());
}

#[test]
fn cast_vote_instruction_decodes_option_fields() {
    let mut data = vec![2u8]; // CastVote tag
    data.extend(vec![7, 0, 0, 0, 0, 0, 0, 0]); // poll_id
    data.push(1); // option_index
    data.push(0); // weight: None
    data.push(1); // encrypted_data: Some
    data.extend(vec![3, 0, 0, 0]);
    data.extend(vec![9, 8, 7]);
    data.push(0); // zk_proof: None
    data.push(1); // nonce: Some
    data.extend(vec![1, 0, 0, 0]);
    data.push(5);
    data.extend(vec![0, 0, 0, 0]); // tx_hex: empty
    match poll_engine::codec::decode_instruction(&data) {
        Some(poll_engine::PollInstruction::CastVote {
            poll_id,
            option_index,
            weight,
            encrypted_data,
            zk_proof,
            nonce,
            tx_hex,
        }) => {
            assert_eq!(poll_id, 7);
            assert_eq!(option_index, 1);
            assert_eq!(weight, None);
            assert_eq!(encrypted_data, Some(vec![9, 8, 7]));
            assert_eq!(zk_proof, None);
            assert_eq!(nonce, Some(vec![5]));
            assert_eq!(tx_hex, Vec::<u8>::new());
        },
        other => panic!("unexpected decode: {:?}", other),
    }
}

#[test]
fn bool_bytes_other_than_zero_and_one_are_rejected() {
    let vc = VoteCount {
        poll_id: 1,
        counts: vec![],
        total_voters: 0,
        last_updated: 0,
        is_finalized: false,
    };
    let mut bytes = encode_vote_count(&vc);
    let last = bytes.len() - 1;
    bytes[last] = 2; // not a valid bool byte
    assert!(decode_vote_count(&bytes).is_none());
}
