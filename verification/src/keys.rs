//! Account keys.
//!
//! A key is a fixed 32-byte identifier.  The engine never interprets a key
//! cryptographically: it compares keys for equality, and it derives a bitmap
//! slot for the voter registry from the little-endian value of the first
//! eight bytes.

use vstd::prelude::*;

verus! {

/// The number of bytes in an account key.
pub const KEY_BYTES: usize = 32;

/// A 32-byte account key.
#[derive(Debug, Clone, Copy, PartialEq, Eq, Hash)]
pub struct PubKey {
    pub bytes: [u8; 32],
}

impl View for PubKey {
    type V = Seq<u8>;

    open spec fn view(&self) -> Seq<u8> {
        self.bytes@
    }
}

impl PubKey {
    pub fn new(bytes: [u8; 32]) -> (k: PubKey)
        ensures
            k@ == bytes@,
    {
        PubKey { bytes }
    }
}

/// Whether two keys hold the same bytes.
pub fn key_eq(a: &PubKey, b: &PubKey) -> (r: bool)
    ensures
        r <==> a@ == b@,
{
    let mut i: usize = 0;
    while i < KEY_BYTES
        invariant
            i <= KEY_BYTES,
            forall|j: int| 0 <= j < i ==> a.bytes@[j] == b.bytes@[j],
        decreases 32 - i,
    {
        if a.bytes[i] != b.bytes[i] {
            assert(a@[i as int] != b@[i as int]);
            return false;
        }
        i += 1;
    }
    proof {
        assert(a@ =~= b@);
    }
    true
}

/// 256 to the power `n`.
pub open spec fn pow256(n: nat) -> int
    decreases n,
{
    if n == 0 {
        1
    } else {
        256 * pow256((n - 1) as nat)
    }
}

/// The little-endian value of the first `n` bytes of `s`.
pub open spec fn le_bytes(s: Seq<u8>, n: nat) -> int
    decreases n,
{
    if n == 0 {
        0
    } else {
        le_bytes(s, (n - 1) as nat) + s[n - 1] * pow256((n - 1) as nat)
    }
}

/// The fixed-width hash of a key: the little-endian value of its first
/// eight bytes.
pub open spec fn hash_key(key: Seq<u8>) -> int {
    le_bytes(key, 8)
}

/// The registry bitmap slot a key maps to.
pub open spec fn slot_of(key: Seq<u8>) -> int {
    hash_key(key) % 8192
}

/// The identifier derived for a new record: the current time plus the first
/// byte of the creating key, wrapping on overflow.
pub open spec fn record_id_spec(now: u64, key: Seq<u8>) -> u64 {
    if now + key[0] <= u64::MAX {
        (now + key[0]) as u64
    } else {
        (now + key[0] - 0x1_0000_0000_0000_0000) as u64
    }
}

/// Derives a fresh record identifier from the clock and the creating key.
pub fn derive_record_id(now: u64, key: &PubKey) -> (id: u64)
    ensures
        id == record_id_spec(now, key@),
{
    let b = key.bytes[0] as u64;
    if now <= u64::MAX - b {
        now + b
    } else {
        b - (u64::MAX - now) - 1
    }
}

pub(crate) proof fn lemma_le_bytes_8_bound(s: Seq<u8>)
    requires
        s.len() >= 8,
    ensures
        0 <= le_bytes(s, 8) < 0x1_0000_0000_0000_0000,
{
    lemma_le_bytes_8_expand(s);
}

pub(crate) proof fn lemma_le_bytes_8_expand(s: Seq<u8>)
    requires
        s.len() >= 8,
    ensures
        le_bytes(s, 8) == s[0] + s[1] * 0x100 + s[2] * 0x1_0000 + s[3] * 0x100_0000 + s[4]
            * 0x1_0000_0000 + s[5] * 0x100_0000_0000 + s[6] * 0x1_0000_0000_0000 + s[7]
            * 0x100_0000_0000_0000,
{
    reveal_with_fuel(le_bytes, 9);
    reveal_with_fuel(pow256, 9);
    assert(le_bytes(s, 0) == 0);
    assert(le_bytes(s, 1) == le_bytes(s, 0) + s[0] * pow256(0));
    assert(le_bytes(s, 2) == le_bytes(s, 1) + s[1] * pow256(1));
    assert(le_bytes(s, 3) == le_bytes(s, 2) + s[2] * pow256(2));
    assert(le_bytes(s, 4) == le_bytes(s, 3) + s[3] * pow256(3));
    assert(le_bytes(s, 5) == le_bytes(s, 4) + s[4] * pow256(4));
    assert(le_bytes(s, 6) == le_bytes(s, 5) + s[5] * pow256(5));
    assert(le_bytes(s, 7) == le_bytes(s, 6) + s[6] * pow256(6));
    assert(le_bytes(s, 8) == le_bytes(s, 7) + s[7] * pow256(7));
    assert(pow256(1) == 0x100);
    assert(pow256(2) == 0x1_0000);
    assert(pow256(3) == 0x100_0000);
    assert(pow256(4) == 0x1_0000_0000);
    assert(pow256(5) == 0x100_0000_0000);
    assert(pow256(6) == 0x1_0000_0000_0000);
    assert(pow256(7) == 0x100_0000_0000_0000);
}

/// Combines the first eight bytes of a key into its fixed-width hash.
pub fn hash_pubkey(key: &PubKey) -> (h: u64)
    ensures
        h == hash_key(key@),
{
    let b = &key.bytes;
    proof {
        lemma_le_bytes_8_expand(key@);
    }
    (b[0] as u64) + (b[1] as u64) * 0x100 + (b[2] as u64) * 0x1_0000 + (b[3] as u64) * 0x100_0000
        + (b[4] as u64) * 0x1_0000_0000 + (b[5] as u64) * 0x100_0000_0000 + (b[6] as u64)
        * 0x1_0000_0000_0000 + (b[7] as u64) * 0x100_0000_0000_0000
}

} // verus!
