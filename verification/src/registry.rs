//! Voter membership and dedup.
//!
//! A registry pairs a hash bitmap with the authoritative list of voter keys.
//! A clear bit proves absence; a set bit only licenses a linear scan of the
//! list, because two distinct keys may share a slot.  The registry grows
//! monotonically: voters are never removed.

use vstd::prelude::*;

use crate::entities::VoterRegistry;
use crate::entities::VOTER_SLOTS;
use crate::entities::VoterRegistryV;
use crate::keys::hash_pubkey;
use crate::keys::key_eq;
use crate::keys::slot_of;
use crate::keys::PubKey;

verus! {

/// Whether bit `bit` of `byte` is set.
pub open spec fn nth_bit(byte: u8, bit: u8) -> bool {
    (byte >> bit) & 1 == 1
}

/// Whether the bitmap covers `slot` and has its bit set.
pub open spec fn bitmap_has(bm: Seq<u8>, slot: int) -> bool {
    &&& 0 <= slot
    &&& slot / 8 < bm.len()
    &&& nth_bit(bm[slot / 8], (slot % 8) as u8)
}

/// The bitmap after setting the bit of `slot`, growing it with zero bytes
/// first when the slot lies beyond its current length.
pub open spec fn set_bit_in_bitmap(bm: Seq<u8>, slot: int) -> Seq<u8> {
    let byte = slot / 8;
    let grown = if byte < bm.len() {
        bm
    } else {
        bm + Seq::new((byte + 1 - bm.len()) as nat, |i: int| 0u8)
    };
    grown.update(byte, grown[byte] | (1u8 << ((slot % 8) as u8)))
}

/// Whether `key` is one of the registered voters.
pub open spec fn registry_contains(r: VoterRegistryV, key: Seq<u8>) -> bool {
    exists|i: int| 0 <= i < r.voters.len() && r.voters[i] == key
}

/// Structural soundness of a registry: every registered voter's slot is set
/// in the bitmap (so a clear bit proves absence), and no voter appears twice.
pub open spec fn registry_wf(r: VoterRegistryV) -> bool {
    &&& forall|i: int|
        0 <= i < r.voters.len() ==> bitmap_has(r.voter_bitmap, slot_of(#[trigger] r.voters[i]))
    &&& forall|i: int, j: int|
        0 <= i < j < r.voters.len() ==> r.voters[i] != r.voters[j]
}

proof fn lemma_set_bit(bm: Seq<u8>, slot: int, other: int)
    requires
        0 <= slot < 8192,
        0 <= other,
    ensures
        bitmap_has(set_bit_in_bitmap(bm, slot), slot),
        bitmap_has(bm, other) ==> bitmap_has(set_bit_in_bitmap(bm, slot), other),
        set_bit_in_bitmap(bm, slot).len() >= bm.len(),
{
    let byte = slot / 8;
    let bit = (slot % 8) as u8;
    let grown = if byte < bm.len() {
        bm
    } else {
        bm + Seq::new((byte + 1 - bm.len()) as nat, |i: int| 0u8)
    };
    let after = set_bit_in_bitmap(bm, slot);
    assert(0 <= slot % 8 < 8);
    let x = grown[byte];
    assert(nth_bit(x | (1u8 << bit), bit)) by (bit_vector)
        requires
            bit < 8,
    ;
    if bitmap_has(bm, other) {
        let obyte = other / 8;
        let obit = (other % 8) as u8;
        assert(grown[obyte] == bm[obyte]);
        if obyte == byte {
            if obit == bit {
                assert(nth_bit(after[obyte], obit));
            } else {
                assert(0 <= other % 8 < 8);
                let y = bm[obyte];
                assert(nth_bit(y, obit) ==> nth_bit(y | (1u8 << bit), obit)) by (bit_vector)
                    requires
                        bit < 8,
                        obit < 8,
                ;
            }
        } else {
            assert(after[obyte] == bm[obyte]);
        }
    }
}

/// Finds the position of `voter` in the registry list, or reports absence.
///
/// The bitmap is consulted first: a clear (or out-of-range) bit settles the
/// question without scanning the list.
pub fn find_voter_index(registry: &VoterRegistry, voter: &PubKey) -> (r: Option<usize>)
    requires
        registry_wf(registry@),
    ensures
        match r {
            Some(i) => {
                &&& i < registry@.voters.len()
                &&& registry@.voters[i as int] == voter@
                &&& forall|j: int| 0 <= j < i ==> registry@.voters[j] != voter@
            },
            None => !registry_contains(registry@, voter@),
        },
{
    let voter_hash = hash_pubkey(voter);
    let slot = voter_hash % VOTER_SLOTS;
    let byte_index = (slot / 8) as usize;
    let bit_index = (slot % 8) as u8;

    if byte_index < registry.voter_bitmap.len() {
        let byte = registry.voter_bitmap[byte_index];
        if (byte >> bit_index) & 1 == 0 {
            // Bit clear: no registered voter maps to this slot.
            proof {
                assert(!nth_bit(byte, bit_index));
                assert forall|i: int| 0 <= i < registry@.voters.len() implies registry@.voters[i]
                    != voter@ by {
                    if registry@.voters[i] == voter@ {
                        assert(bitmap_has(registry@.voter_bitmap, slot_of(voter@)));
                    }
                }
            }
            return None;
        }
    } else {
        // Bitmap does not cover the slot: the voter cannot be registered.
        proof {
            assert forall|i: int| 0 <= i < registry@.voters.len() implies registry@.voters[i]
                != voter@ by {
                if registry@.voters[i] == voter@ {
                    assert(bitmap_has(registry@.voter_bitmap, slot_of(voter@)));
                }
            }
        }
        return None;
    }

    // Bit set: scan the authoritative list to rule out a hash collision.
    let mut i: usize = 0;
    while i < registry.voters.len()
        invariant
            i <= registry@.voters.len(),
            forall|j: int| 0 <= j < i ==> registry@.voters[j] != voter@,
        decreases registry@.voters.len() - i,
    {
        if key_eq(&registry.voters[i], voter) {
            return Some(i);
        }
        i += 1;
    }
    None
}

/// Registers a new voter: sets its bitmap bit (growing the bitmap when the
/// slot lies beyond it) and appends the key to the list.
pub fn add_voter_to_registry(registry: &mut VoterRegistry, voter: &PubKey)
    requires
        registry_wf(old(registry)@),
        !registry_contains(old(registry)@, voter@),
    ensures
        registry_wf(final(registry)@),
        final(registry)@.poll_id == old(registry)@.poll_id,
        final(registry)@.voters == old(registry)@.voters.push(voter@),
        final(registry)@.voter_bitmap == set_bit_in_bitmap(
            old(registry)@.voter_bitmap,
            slot_of(voter@),
        ),
        registry_contains(final(registry)@, voter@),
{
    let ghost old_reg = registry@;
    let voter_hash = hash_pubkey(voter);
    let slot = voter_hash % VOTER_SLOTS;
    let byte_index = (slot / 8) as usize;
    let bit_index = (slot % 8) as u8;

    while byte_index >= registry.voter_bitmap.len()
        invariant
            registry.poll_id == old(registry).poll_id,
            registry.voters == old(registry).voters,
            old_reg == old(registry)@,
            old_reg.voter_bitmap.len() <= registry@.voter_bitmap.len(),
            forall|i: int|
                0 <= i < old_reg.voter_bitmap.len() ==> registry@.voter_bitmap[i]
                    == old_reg.voter_bitmap[i],
            forall|i: int|
                old_reg.voter_bitmap.len() <= i < registry@.voter_bitmap.len()
                    ==> registry@.voter_bitmap[i] == 0,
            registry@.voter_bitmap.len() == old_reg.voter_bitmap.len()
                || registry@.voter_bitmap.len() <= byte_index + 1,
        decreases byte_index + 1 - registry.voter_bitmap.len(),
    {
        registry.voter_bitmap.push(0);
    }

    let byte = registry.voter_bitmap[byte_index];
    registry.voter_bitmap.set(byte_index, byte | (1u8 << bit_index));
    registry.voters.push(*voter);

    proof {
        let ghost slot_i = slot_of(voter@);
        assert(slot_i == slot);
        let grown = if slot_i / 8 < old_reg.voter_bitmap.len() {
            old_reg.voter_bitmap
        } else {
            old_reg.voter_bitmap + Seq::new(
                (slot_i / 8 + 1 - old_reg.voter_bitmap.len()) as nat,
                |i: int| 0u8,
            )
        };
        assert(registry@.voter_bitmap =~= grown.update(
            slot_i / 8,
            grown[slot_i / 8] | (1u8 << ((slot_i % 8) as u8)),
        ));
        assert(registry@.voter_bitmap =~= set_bit_in_bitmap(old_reg.voter_bitmap, slot_i));
        assert(registry@.voters =~= old_reg.voters.push(voter@));

        assert forall|i: int| 0 <= i < registry@.voters.len() implies bitmap_has(
            registry@.voter_bitmap,
            slot_of(#[trigger] registry@.voters[i]),
        ) by {
            if i < old_reg.voters.len() {
                lemma_set_bit(old_reg.voter_bitmap, slot_i, slot_of(old_reg.voters[i]));
                assert(registry@.voters[i] == old_reg.voters[i]);
            } else {
                lemma_set_bit(old_reg.voter_bitmap, slot_i, slot_i);
            }
        }
        assert(registry_contains(registry@, voter@)) by {
            assert(registry@.voters[registry@.voters.len() - 1] == voter@);
        }
    }
}

} // verus!
