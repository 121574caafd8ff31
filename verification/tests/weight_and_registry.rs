//! The weight resolver's exact values and the registry's dedup behavior,
//! including a deliberate hash collision.

use poll_engine::keys::hash_pubkey;
use poll_engine::registry::add_voter_to_registry;
use poll_engine::registry::find_voter_index;
use poll_engine::weight::effective_weight;
use poll_engine::PubKey;
use poll_engine::VoterRegistry;

#[test]
fn weight_without_bonus_is_the_amount() {
    assert_eq!(effective_weight(100, 0, 0, 1000), 100);
    assert_eq!(effective_weight(100, 10, 0, 0), 100);
}

#[test]
fn weight_at_start_gets_the_full_bonus() {
    assert_eq!(effective_weight(100, 10, 0, 1000), 110);
    assert_eq!(effective_weight(100, 100, 0, 1000), 200);
    assert_eq!(effective_weight(1, 50, 0, 1000), 2); // ceil(1.5)
}

#[test]
fn weight_at_end_falls_back_to_the_amount() {
    assert_eq!(effective_weight(100, 10, 1000, 1000), 100);
}

#[test]
fn weight_decays_with_progress_and_rounds_up() {
    // halfway: ceil(100 * 1.05) == 105
    assert_eq!(effective_weight(100, 10, 500, 1000), 105);
    // one quarter remaining: 100 + ceil(100*10*250 / 100000) == 103
    assert_eq!(effective_weight(100, 10, 750, 1000), 103);
    // tiny amount rounds up, never down
    assert_eq!(effective_weight(1, 10, 500, 1000), 2);
}

#[test]
fn weight_is_clamped_at_the_largest_u64() {
    assert_eq!(effective_weight(u64::MAX, 100, 0, 10), u64::MAX);
}

fn key_with_prefix(prefix: [u8; 8], tail: u8) -> PubKey {
    let mut bytes = [tail; 32];
    bytes[..8].copy_from_slice(&prefix);
    PubKey::new(bytes)
}

#[test]
fn colliding_keys_are_told_apart_by_the_list() {
    // Same first eight bytes: same hash, same bitmap slot.
    let a = key_with_prefix([1, 2, 3, 4, 5, 6, 7, 8], 0);
    let b = key_with_prefix([1, 2, 3, 4, 5, 6, 7, 8], 9);
    assert_eq!(hash_pubkey(&a), hash_pubkey(&b));

    let mut reg = VoterRegistry::new_empty(1);
    add_voter_to_registry(&mut reg, &a);
    // The bit is set, but the authoritative list rules the collision out.
    assert_eq!(find_voter_index(&reg, &a), Some(0));
    assert_eq!(find_voter_index(&reg, &b), None);

    add_voter_to_registry(&mut reg, &b);
    assert_eq!(find_voter_index(&reg, &b), Some(1));
    assert_eq!(reg.voters.len(), 2);
}

#[test]
fn absent_voter_is_answered_by_the_bitmap() {
    let mut reg = VoterRegistry::new_empty(1);
    add_voter_to_registry(&mut reg, &PubKey::new([3; 32]));
    assert_eq!(find_voter_index(&reg, &PubKey::new([4; 32])), None);
}

#[test]
fn hash_combines_first_eight_bytes_little_endian() {
    let k = key_with_prefix([0x11, 0x22, 0, 0, 0, 0, 0, 0], 0);
    assert_eq!(hash_pubkey(&k), 0x2211);
}
