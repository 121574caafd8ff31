//! The entity codec: a deterministic, fixed-schema, versionless binary
//! layout for every record of the ledger.
//!
//! The layout is the classic little-endian one: integers as fixed-width LE
//! bytes, `bool` as one byte (0 or 1), byte strings and lists prefixed by a
//! 32-bit length, options prefixed by a one-byte tag (0 or 1), keys as
//! their raw 32 bytes, and a struct as its fields in declaration order.
//!
//! For each shape there are a spec encoder (`enc_*`), a spec parser
//! (`p_*`), executable writers and readers proved against them, and a
//! round-trip lemma: parsing an encoding, whatever trailing bytes follow
//! it, yields the encoded value.  A record's backing buffer may therefore
//! carry trailing padding, which decoding ignores.

use vstd::arithmetic::div_mod::lemma_basic_div;
use vstd::arithmetic::div_mod::lemma_div_denominator;
use vstd::arithmetic::div_mod::lemma_fundamental_div_mod;
use vstd::prelude::*;

use crate::entities::Delegation;
use crate::entities::DelegationV;
use crate::entities::Poll;
use crate::entities::PollV;
use crate::entities::TokenBalance;
use crate::entities::TokenBalanceV;
use crate::entities::Vote;
use crate::entities::VoteCount;
use crate::entities::VoteCountV;
use crate::entities::VoteV;
use crate::entities::VoterRegistry;
use crate::entities::VoterRegistryV;
use crate::calls::PollInstruction;
use crate::keys::PubKey;

verus! {

// ---------------------------------------------------------------------------
// Spec encoders

/// One raw byte.
pub open spec fn enc_u8(x: u8) -> Seq<u8> {
    seq![x]
}

/// A `bool` as one byte, 1 for true.
pub open spec fn enc_bool(b: bool) -> Seq<u8> {
    seq![if b { 1u8 } else { 0u8 }]
}

/// A `u32` as four little-endian bytes.
#[verifier::opaque]
pub open spec fn enc_u32(x: u32) -> Seq<u8> {
    seq![
        (x % 0x100) as u8,
        ((x / 0x100) % 0x100) as u8,
        ((x / 0x1_0000) % 0x100) as u8,
        ((x / 0x100_0000) % 0x100) as u8,
    ]
}

/// A `u64` as eight little-endian bytes.
#[verifier::opaque]
pub open spec fn enc_u64(x: u64) -> Seq<u8> {
    seq![
        (x % 0x100) as u8,
        ((x / 0x100) % 0x100) as u8,
        ((x / 0x1_0000) % 0x100) as u8,
        ((x / 0x100_0000) % 0x100) as u8,
        ((x / 0x1_0000_0000) % 0x100) as u8,
        ((x / 0x100_0000_0000) % 0x100) as u8,
        ((x / 0x1_0000_0000_0000) % 0x100) as u8,
        ((x / 0x100_0000_0000_0000) % 0x100) as u8,
    ]
}

/// A byte string: its length as `u32`, then its bytes.
pub open spec fn enc_bytes(v: Seq<u8>) -> Seq<u8> {
    enc_u32(v.len() as u32) + v
}

/// A key: its raw 32 bytes.
pub open spec fn enc_key(k: Seq<u8>) -> Seq<u8> {
    k
}

/// An optional byte string: tag 0, or tag 1 followed by the string.
pub open spec fn enc_opt_bytes(o: Option<Seq<u8>>) -> Seq<u8> {
    match o {
        None => seq![0u8],
        Some(v) => seq![1u8] + enc_bytes(v),
    }
}

/// An optional key: tag 0, or tag 1 followed by the key.
pub open spec fn enc_opt_key(o: Option<Seq<u8>>) -> Seq<u8> {
    match o {
        None => seq![0u8],
        Some(k) => seq![1u8] + enc_key(k),
    }
}

/// An optional `u64`: tag 0, or tag 1 followed by the value.
pub open spec fn enc_opt_u64(o: Option<u64>) -> Seq<u8> {
    match o {
        None => seq![0u8],
        Some(x) => seq![1u8] + enc_u64(x),
    }
}

/// The elements of a byte-string list, first to last.
pub open spec fn enc_bytes_items(s: Seq<Seq<u8>>) -> Seq<u8>
    decreases s.len(),
{
    if s.len() == 0 {
        Seq::empty()
    } else {
        enc_bytes(s[0]) + enc_bytes_items(s.subrange(1, s.len() as int))
    }
}

/// A byte-string list: its length as `u32`, then its elements.
pub open spec fn enc_vec_bytes(s: Seq<Seq<u8>>) -> Seq<u8> {
    enc_u32(s.len() as u32) + enc_bytes_items(s)
}

/// The elements of a `u64` list, first to last.
pub open spec fn enc_u64_items(s: Seq<u64>) -> Seq<u8>
    decreases s.len(),
{
    if s.len() == 0 {
        Seq::empty()
    } else {
        enc_u64(s[0]) + enc_u64_items(s.subrange(1, s.len() as int))
    }
}

/// A `u64` list: its length as `u32`, then its elements.
pub open spec fn enc_vec_u64(s: Seq<u64>) -> Seq<u8> {
    enc_u32(s.len() as u32) + enc_u64_items(s)
}

/// The elements of a key list, first to last.
pub open spec fn enc_key_items(s: Seq<Seq<u8>>) -> Seq<u8>
    decreases s.len(),
{
    if s.len() == 0 {
        Seq::empty()
    } else {
        enc_key(s[0]) + enc_key_items(s.subrange(1, s.len() as int))
    }
}

/// A key list: its length as `u32`, then its raw keys.
pub open spec fn enc_vec_keys(s: Seq<Seq<u8>>) -> Seq<u8> {
    enc_u32(s.len() as u32) + enc_key_items(s)
}

// ---------------------------------------------------------------------------
// Spec parsers

/// Parses one byte.
pub open spec fn p_u8(b: Seq<u8>, i: int) -> Option<(u8, int)> {
    if 0 <= i && i + 1 <= b.len() {
        Some((b[i], i + 1))
    } else {
        None
    }
}

/// Parses a `bool` byte; anything but 0 or 1 is malformed.
pub open spec fn p_bool(b: Seq<u8>, i: int) -> Option<(bool, int)> {
    match p_u8(b, i) {
        None => None,
        Some((t, j)) => if t == 0 {
            Some((false, j))
        } else if t == 1 {
            Some((true, j))
        } else {
            None
        },
    }
}

/// Parses four little-endian bytes as a `u32`.
#[verifier::opaque]
pub open spec fn p_u32(b: Seq<u8>, i: int) -> Option<(u32, int)> {
    if 0 <= i && i + 4 <= b.len() {
        Some(
            (
                (b[i] + b[i + 1] * 0x100 + b[i + 2] * 0x1_0000 + b[i + 3] * 0x100_0000) as u32,
                i + 4,
            ),
        )
    } else {
        None
    }
}

/// Parses eight little-endian bytes as a `u64`.
#[verifier::opaque]
pub open spec fn p_u64(b: Seq<u8>, i: int) -> Option<(u64, int)> {
    if 0 <= i && i + 8 <= b.len() {
        Some(
            (
                (b[i] + b[i + 1] * 0x100 + b[i + 2] * 0x1_0000 + b[i + 3] * 0x100_0000 + b[i + 4]
                    * 0x1_0000_0000 + b[i + 5] * 0x100_0000_0000 + b[i + 6] * 0x1_0000_0000_0000 + b[i
                    + 7] * 0x100_0000_0000_0000) as u64,
                i + 8,
            ),
        )
    } else {
        None
    }
}

/// Parses a length-prefixed byte string.
pub open spec fn p_bytes(b: Seq<u8>, i: int) -> Option<(Seq<u8>, int)> {
    match p_u32(b, i) {
        None => None,
        Some((len, j)) => if j + len <= b.len() {
            Some((b.subrange(j, j + len), j + len))
        } else {
            None
        },
    }
}

/// Parses a raw 32-byte key.
pub open spec fn p_key(b: Seq<u8>, i: int) -> Option<(Seq<u8>, int)> {
    if 0 <= i && i + 32 <= b.len() {
        Some((b.subrange(i, i + 32), i + 32))
    } else {
        None
    }
}

/// Parses an optional byte string.
pub open spec fn p_opt_bytes(b: Seq<u8>, i: int) -> Option<(Option<Seq<u8>>, int)> {
    match p_u8(b, i) {
        None => None,
        Some((t, j)) => if t == 0 {
            Some((None, j))
        } else if t == 1 {
            match p_bytes(b, j) {
                None => None,
                Some((v, k)) => Some((Some(v), k)),
            }
        } else {
            None
        },
    }
}

/// Parses an optional key.
pub open spec fn p_opt_key(b: Seq<u8>, i: int) -> Option<(Option<Seq<u8>>, int)> {
    match p_u8(b, i) {
        None => None,
        Some((t, j)) => if t == 0 {
            Some((None, j))
        } else if t == 1 {
            match p_key(b, j) {
                None => None,
                Some((v, k)) => Some((Some(v), k)),
            }
        } else {
            None
        },
    }
}

/// Parses an optional `u64`.
pub open spec fn p_opt_u64(b: Seq<u8>, i: int) -> Option<(Option<u64>, int)> {
    match p_u8(b, i) {
        None => None,
        Some((t, j)) => if t == 0 {
            Some((None, j))
        } else if t == 1 {
            match p_u64(b, j) {
                None => None,
                Some((v, k)) => Some((Some(v), k)),
            }
        } else {
            None
        },
    }
}

/// Parses `n` byte strings.
pub open spec fn p_bytes_items(b: Seq<u8>, i: int, n: nat) -> Option<(Seq<Seq<u8>>, int)>
    decreases n,
{
    if n == 0 {
        Some((Seq::empty(), i))
    } else {
        match p_bytes(b, i) {
            None => None,
            Some((v, j)) => match p_bytes_items(b, j, (n - 1) as nat) {
                None => None,
                Some((vs, k)) => Some((seq![v] + vs, k)),
            },
        }
    }
}

/// Parses a length-prefixed byte-string list.
pub open spec fn p_vec_bytes(b: Seq<u8>, i: int) -> Option<(Seq<Seq<u8>>, int)> {
    match p_u32(b, i) {
        None => None,
        Some((n, j)) => p_bytes_items(b, j, n as nat),
    }
}

/// Parses `n` `u64` values.
pub open spec fn p_u64_items(b: Seq<u8>, i: int, n: nat) -> Option<(Seq<u64>, int)>
    decreases n,
{
    if n == 0 {
        Some((Seq::empty(), i))
    } else {
        match p_u64(b, i) {
            None => None,
            Some((v, j)) => match p_u64_items(b, j, (n - 1) as nat) {
                None => None,
                Some((vs, k)) => Some((seq![v] + vs, k)),
            },
        }
    }
}

/// Parses a length-prefixed `u64` list.
pub open spec fn p_vec_u64(b: Seq<u8>, i: int) -> Option<(Seq<u64>, int)> {
    match p_u32(b, i) {
        None => None,
        Some((n, j)) => p_u64_items(b, j, n as nat),
    }
}

/// Parses `n` raw keys.
pub open spec fn p_key_items(b: Seq<u8>, i: int, n: nat) -> Option<(Seq<Seq<u8>>, int)>
    decreases n,
{
    if n == 0 {
        Some((Seq::empty(), i))
    } else {
        match p_key(b, i) {
            None => None,
            Some((v, j)) => match p_key_items(b, j, (n - 1) as nat) {
                None => None,
                Some((vs, k)) => Some((seq![v] + vs, k)),
            },
        }
    }
}

/// Parses a length-prefixed key list.
pub open spec fn p_vec_keys(b: Seq<u8>, i: int) -> Option<(Seq<Seq<u8>>, int)> {
    match p_u32(b, i) {
        None => None,
        Some((n, j)) => p_key_items(b, j, n as nat),
    }
}

// ---------------------------------------------------------------------------
// Lengths and positions of the opaque integer encodings

pub broadcast proof fn lemma_enc_u32_len(x: u32)
    ensures
        (#[trigger] enc_u32(x)).len() == 4,
{
    reveal(enc_u32);
}

pub broadcast proof fn lemma_enc_u64_len(x: u64)
    ensures
        (#[trigger] enc_u64(x)).len() == 8,
{
    reveal(enc_u64);
}

pub broadcast proof fn lemma_p_u32_bounds(b: Seq<u8>, i: int)
    ensures
        match #[trigger] p_u32(b, i) {
            Some((v, j)) => j == i + 4 && 0 <= i && i + 4 <= b.len(),
            None => true,
        },
{
    reveal(p_u32);
}

pub broadcast proof fn lemma_p_u64_bounds(b: Seq<u8>, i: int)
    ensures
        match #[trigger] p_u64(b, i) {
            Some((v, j)) => j == i + 8 && 0 <= i && i + 8 <= b.len(),
            None => true,
        },
{
    reveal(p_u64);
}


// ---------------------------------------------------------------------------
// Little-endian reconstruction identities

proof fn lemma_u32_le_identity(x: u32)
    ensures
        (x % 0x100) + ((x / 0x100) % 0x100) * 0x100 + ((x / 0x1_0000) % 0x100) * 0x1_0000 + ((x
            / 0x100_0000) % 0x100) * 0x100_0000 == x,
{
    let xi = x as int;
    lemma_fundamental_div_mod(xi, 0x100);
    lemma_fundamental_div_mod(xi / 0x100, 0x100);
    lemma_fundamental_div_mod(xi / 0x1_0000, 0x100);
    lemma_div_denominator(xi, 0x100, 0x100);
    lemma_div_denominator(xi, 0x1_0000, 0x100);
    lemma_basic_div(xi / 0x100_0000, 0x100);
}

proof fn lemma_u64_le_identity(x: u64)
    ensures
        (x % 0x100) + ((x / 0x100) % 0x100) * 0x100 + ((x / 0x1_0000) % 0x100) * 0x1_0000 + ((x
            / 0x100_0000) % 0x100) * 0x100_0000 + ((x / 0x1_0000_0000) % 0x100) * 0x1_0000_0000 + ((x
            / 0x100_0000_0000) % 0x100) * 0x100_0000_0000 + ((x / 0x1_0000_0000_0000) % 0x100)
            * 0x1_0000_0000_0000 + ((x / 0x100_0000_0000_0000) % 0x100) * 0x100_0000_0000_0000
            == x,
{
    let xi = x as int;
    lemma_fundamental_div_mod(xi, 0x100);
    lemma_fundamental_div_mod(xi / 0x100, 0x100);
    lemma_fundamental_div_mod(xi / 0x1_0000, 0x100);
    lemma_fundamental_div_mod(xi / 0x100_0000, 0x100);
    lemma_fundamental_div_mod(xi / 0x1_0000_0000, 0x100);
    lemma_fundamental_div_mod(xi / 0x100_0000_0000, 0x100);
    lemma_fundamental_div_mod(xi / 0x1_0000_0000_0000, 0x100);
    lemma_div_denominator(xi, 0x100, 0x100);
    lemma_div_denominator(xi, 0x1_0000, 0x100);
    lemma_div_denominator(xi, 0x100_0000, 0x100);
    lemma_div_denominator(xi, 0x1_0000_0000, 0x100);
    lemma_div_denominator(xi, 0x100_0000_0000, 0x100);
    lemma_div_denominator(xi, 0x1_0000_0000_0000, 0x100);
    lemma_basic_div(xi / 0x100_0000_0000_0000, 0x100);
}

// ---------------------------------------------------------------------------
// Round-trip lemmas, in chaining form: if the bytes from position `i` are
// an encoding followed by `rest`, the parser at `i` yields the encoded
// value and stops where `rest` begins.

/// The workhorse of every round-trip proof: when the bytes from `i` on are
/// `front` followed by `rest`, the buffer holds `front` byte for byte at
/// `i`, and `rest` from `i + front.len()` on.
proof fn lemma_split_at(b: Seq<u8>, i: int, front: Seq<u8>, rest: Seq<u8>)
    requires
        0 <= i <= b.len(),
        b.subrange(i, b.len() as int) == front + rest,
    ensures
        b.len() - i == front.len() + rest.len(),
        forall|t: int| 0 <= t < front.len() ==> b[i + t] == #[trigger] front[t],
        b.subrange(i, i + front.len() as int) == front,
        b.subrange(i + front.len() as int, b.len() as int) == rest,
{
    let sub = b.subrange(i, b.len() as int);
    assert(sub.len() == b.len() - i);
    assert(sub.len() == front.len() + rest.len());
    assert forall|t: int| 0 <= t < front.len() implies b[i + t] == #[trigger] front[t] by {
        assert(sub[t] == front[t]);
        assert(sub[t] == b[i + t]);
    }
    assert forall|t: int| 0 <= t < front.len() implies b.subrange(i, i + front.len() as int)[t]
        == front[t] by {
        assert(sub[t] == front[t]);
        assert(sub[t] == b[i + t]);
    }
    assert(b.subrange(i, i + front.len() as int) =~= front);
    assert forall|t: int| 0 <= t < rest.len() implies b.subrange(
        i + front.len() as int,
        b.len() as int,
    )[t] == rest[t] by {
        assert(sub[front.len() + t] == rest[t]);
        assert(sub[front.len() + t] == b[i + front.len() + t]);
    }
    assert(b.subrange(i + front.len() as int, b.len() as int) =~= rest);
}

proof fn seq_assoc<A>(x: Seq<A>, y: Seq<A>, z: Seq<A>)
    ensures
        (x + y) + z == x + (y + z),
{
    assert((x + y) + z =~= x + (y + z));
}

proof fn seq_empty_left<A>(x: Seq<A>)
    ensures
        Seq::<A>::empty() + x == x,
{
    assert(Seq::<A>::empty() + x =~= x);
}

proof fn subrange_all<A>(s: Seq<A>)
    ensures
        s.subrange(0, s.len() as int) == s,
{
    assert(s.subrange(0, s.len() as int) =~= s);
}

proof fn lemma_parse_u8(b: Seq<u8>, i: int, x: u8, rest: Seq<u8>)
    requires
        0 <= i <= b.len(),
        b.subrange(i, b.len() as int) == enc_u8(x) + rest,
    ensures
        p_u8(b, i) == Some((x, i + 1)),
        b.subrange(i + 1, b.len() as int) == rest,
{
    lemma_split_at(b, i, enc_u8(x), rest);
    assert(b[i] == enc_u8(x)[0]);
}

proof fn lemma_parse_bool(b: Seq<u8>, i: int, v: bool, rest: Seq<u8>)
    requires
        0 <= i <= b.len(),
        b.subrange(i, b.len() as int) == enc_bool(v) + rest,
    ensures
        p_bool(b, i) == Some((v, i + 1)),
        b.subrange(i + 1, b.len() as int) == rest,
{
    lemma_parse_u8(b, i, if v { 1u8 } else { 0u8 }, rest);
}

proof fn lemma_parse_u32(b: Seq<u8>, i: int, x: u32, rest: Seq<u8>)
    requires
        0 <= i <= b.len(),
        b.subrange(i, b.len() as int) == enc_u32(x) + rest,
    ensures
        p_u32(b, i) == Some((x, i + 4)),
        b.subrange(i + 4, b.len() as int) == rest,
{
    reveal(enc_u32);
    reveal(p_u32);
    lemma_split_at(b, i, enc_u32(x), rest);
    assert(b[i] == enc_u32(x)[0]);
    assert(b[i + 1] == enc_u32(x)[1]);
    assert(b[i + 2] == enc_u32(x)[2]);
    assert(b[i + 3] == enc_u32(x)[3]);
    lemma_u32_le_identity(x);
}

proof fn lemma_parse_u64(b: Seq<u8>, i: int, x: u64, rest: Seq<u8>)
    requires
        0 <= i <= b.len(),
        b.subrange(i, b.len() as int) == enc_u64(x) + rest,
    ensures
        p_u64(b, i) == Some((x, i + 8)),
        b.subrange(i + 8, b.len() as int) == rest,
{
    reveal(enc_u64);
    reveal(p_u64);
    lemma_split_at(b, i, enc_u64(x), rest);
    assert(b[i] == enc_u64(x)[0]);
    assert(b[i + 1] == enc_u64(x)[1]);
    assert(b[i + 2] == enc_u64(x)[2]);
    assert(b[i + 3] == enc_u64(x)[3]);
    assert(b[i + 4] == enc_u64(x)[4]);
    assert(b[i + 5] == enc_u64(x)[5]);
    assert(b[i + 6] == enc_u64(x)[6]);
    assert(b[i + 7] == enc_u64(x)[7]);
    lemma_u64_le_identity(x);
}

proof fn lemma_parse_bytes(b: Seq<u8>, i: int, v: Seq<u8>, rest: Seq<u8>)
    requires
        0 <= i <= b.len(),
        v.len() < 0x1_0000_0000,
        b.subrange(i, b.len() as int) == enc_bytes(v) + rest,
    ensures
        p_bytes(b, i) == Some((v, i + 4 + v.len())),
        b.subrange(i + 4 + v.len() as int, b.len() as int) == rest,
{
    broadcast use lemma_enc_u32_len, lemma_enc_u64_len, lemma_p_u32_bounds, lemma_p_u64_bounds;
    seq_assoc(enc_u32(v.len() as u32), v, rest);
    lemma_parse_u32(b, i, v.len() as u32, v + rest);
    let j = i + 4;
    lemma_split_at(b, j, v, rest);
}

proof fn lemma_parse_key(b: Seq<u8>, i: int, k: Seq<u8>, rest: Seq<u8>)
    requires
        0 <= i <= b.len(),
        k.len() == 32,
        b.subrange(i, b.len() as int) == enc_key(k) + rest,
    ensures
        p_key(b, i) == Some((k, i + 32)),
        b.subrange(i + 32, b.len() as int) == rest,
{
    lemma_split_at(b, i, k, rest);
}

proof fn lemma_parse_opt_bytes(b: Seq<u8>, i: int, o: Option<Seq<u8>>, rest: Seq<u8>)
    requires
        0 <= i <= b.len(),
        match o {
            Some(v) => v.len() < 0x1_0000_0000,
            None => true,
        },
        b.subrange(i, b.len() as int) == enc_opt_bytes(o) + rest,
    ensures
        match p_opt_bytes(b, i) {
            Some((ov, j)) => ov == o && b.subrange(j, b.len() as int) == rest,
            None => false,
        },
{
    broadcast use lemma_enc_u32_len, lemma_enc_u64_len, lemma_p_u32_bounds, lemma_p_u64_bounds;
    match o {
        None => {
            lemma_parse_u8(b, i, 0, rest);
        },
        Some(v) => {
            assert(enc_opt_bytes(o) == enc_u8(1) + enc_bytes(v));
            seq_assoc(enc_u8(1), enc_bytes(v), rest);
            lemma_parse_u8(b, i, 1, enc_bytes(v) + rest);
            lemma_parse_bytes(b, i + 1, v, rest);
        },
    }
}

proof fn lemma_parse_opt_key(b: Seq<u8>, i: int, o: Option<Seq<u8>>, rest: Seq<u8>)
    requires
        0 <= i <= b.len(),
        match o {
            Some(k) => k.len() == 32,
            None => true,
        },
        b.subrange(i, b.len() as int) == enc_opt_key(o) + rest,
    ensures
        match p_opt_key(b, i) {
            Some((ov, j)) => ov == o && b.subrange(j, b.len() as int) == rest,
            None => false,
        },
{
    broadcast use lemma_enc_u32_len, lemma_enc_u64_len, lemma_p_u32_bounds, lemma_p_u64_bounds;
    match o {
        None => {
            lemma_parse_u8(b, i, 0, rest);
        },
        Some(k) => {
            assert(enc_opt_key(o) == enc_u8(1) + enc_key(k));
            seq_assoc(enc_u8(1), enc_key(k), rest);
            lemma_parse_u8(b, i, 1, enc_key(k) + rest);
            lemma_parse_key(b, i + 1, k, rest);
        },
    }
}

proof fn lemma_parse_opt_u64(b: Seq<u8>, i: int, o: Option<u64>, rest: Seq<u8>)
    requires
        0 <= i <= b.len(),
        b.subrange(i, b.len() as int) == enc_opt_u64(o) + rest,
    ensures
        match p_opt_u64(b, i) {
            Some((ov, j)) => ov == o && b.subrange(j, b.len() as int) == rest,
            None => false,
        },
{
    broadcast use lemma_enc_u32_len, lemma_enc_u64_len, lemma_p_u32_bounds, lemma_p_u64_bounds;
    match o {
        None => {
            lemma_parse_u8(b, i, 0, rest);
        },
        Some(x) => {
            assert(enc_opt_u64(o) == enc_u8(1) + enc_u64(x));
            seq_assoc(enc_u8(1), enc_u64(x), rest);
            lemma_parse_u8(b, i, 1, enc_u64(x) + rest);
            lemma_parse_u64(b, i + 1, x, rest);
        },
    }
}

proof fn lemma_parse_bytes_items(b: Seq<u8>, i: int, s: Seq<Seq<u8>>, rest: Seq<u8>)
    requires
        0 <= i <= b.len(),
        forall|t: int| 0 <= t < s.len() ==> #[trigger] s[t].len() < 0x1_0000_0000,
        b.subrange(i, b.len() as int) == enc_bytes_items(s) + rest,
    ensures
        match p_bytes_items(b, i, s.len() as nat) {
            Some((vs, j)) => vs == s && 0 <= j <= b.len() && b.subrange(j, b.len() as int)
                == rest,
            None => false,
        },
    decreases s.len(),
{
    broadcast use lemma_enc_u32_len, lemma_enc_u64_len, lemma_p_u32_bounds, lemma_p_u64_bounds;
    if s.len() == 0 {
        seq_empty_left(rest);
        assert(b.subrange(i, b.len() as int) == rest);
        assert(p_bytes_items(b, i, 0) == Some((Seq::<Seq<u8>>::empty(), i)));
        assert(Seq::<Seq<u8>>::empty() =~= s);
    } else {
        let tail = s.subrange(1, s.len() as int);
        assert(enc_bytes_items(s) == enc_bytes(s[0]) + enc_bytes_items(tail));
        seq_assoc(enc_bytes(s[0]), enc_bytes_items(tail), rest);
        lemma_parse_bytes(b, i, s[0], enc_bytes_items(tail) + rest);
        let j = i + 4 + s[0].len() as int;
        lemma_parse_bytes_items(b, j, tail, rest);
        match p_bytes_items(b, j, tail.len() as nat) {
            Some((vs, k)) => {
                assert(seq![s[0]] + vs =~= s);
            },
            None => {},
        }
    }
}

proof fn lemma_parse_u64_items(b: Seq<u8>, i: int, s: Seq<u64>, rest: Seq<u8>)
    requires
        0 <= i <= b.len(),
        b.subrange(i, b.len() as int) == enc_u64_items(s) + rest,
    ensures
        match p_u64_items(b, i, s.len() as nat) {
            Some((vs, j)) => vs == s && 0 <= j <= b.len() && b.subrange(j, b.len() as int)
                == rest,
            None => false,
        },
    decreases s.len(),
{
    broadcast use lemma_enc_u32_len, lemma_enc_u64_len, lemma_p_u32_bounds, lemma_p_u64_bounds;
    if s.len() == 0 {
        seq_empty_left(rest);
        assert(b.subrange(i, b.len() as int) == rest);
        assert(Seq::<u64>::empty() =~= s);
    } else {
        let tail = s.subrange(1, s.len() as int);
        assert(enc_u64_items(s) == enc_u64(s[0]) + enc_u64_items(tail));
        seq_assoc(enc_u64(s[0]), enc_u64_items(tail), rest);
        lemma_parse_u64(b, i, s[0], enc_u64_items(tail) + rest);
        lemma_parse_u64_items(b, i + 8, tail, rest);
        match p_u64_items(b, i + 8, tail.len() as nat) {
            Some((vs, k)) => {
                assert(seq![s[0]] + vs =~= s);
            },
            None => {},
        }
    }
}

proof fn lemma_parse_key_items(b: Seq<u8>, i: int, s: Seq<Seq<u8>>, rest: Seq<u8>)
    requires
        0 <= i <= b.len(),
        forall|t: int| 0 <= t < s.len() ==> #[trigger] s[t].len() == 32,
        b.subrange(i, b.len() as int) == enc_key_items(s) + rest,
    ensures
        match p_key_items(b, i, s.len() as nat) {
            Some((vs, j)) => vs == s && 0 <= j <= b.len() && b.subrange(j, b.len() as int)
                == rest,
            None => false,
        },
    decreases s.len(),
{
    broadcast use lemma_enc_u32_len, lemma_enc_u64_len, lemma_p_u32_bounds, lemma_p_u64_bounds;
    if s.len() == 0 {
        seq_empty_left(rest);
        assert(b.subrange(i, b.len() as int) == rest);
        assert(Seq::<Seq<u8>>::empty() =~= s);
    } else {
        let tail = s.subrange(1, s.len() as int);
        assert(enc_key_items(s) == enc_key(s[0]) + enc_key_items(tail));
        seq_assoc(enc_key(s[0]), enc_key_items(tail), rest);
        lemma_parse_key(b, i, s[0], enc_key_items(tail) + rest);
        lemma_parse_key_items(b, i + 32, tail, rest);
        match p_key_items(b, i + 32, tail.len() as nat) {
            Some((vs, k)) => {
                assert(seq![s[0]] + vs =~= s);
            },
            None => {},
        }
    }
}

proof fn lemma_parse_vec_bytes(b: Seq<u8>, i: int, s: Seq<Seq<u8>>, rest: Seq<u8>)
    requires
        0 <= i <= b.len(),
        s.len() < 0x1_0000_0000,
        forall|t: int| 0 <= t < s.len() ==> #[trigger] s[t].len() < 0x1_0000_0000,
        b.subrange(i, b.len() as int) == enc_vec_bytes(s) + rest,
    ensures
        match p_vec_bytes(b, i) {
            Some((vs, j)) => vs == s && 0 <= j <= b.len() && b.subrange(j, b.len() as int)
                == rest,
            None => false,
        },
{
    broadcast use lemma_enc_u32_len, lemma_enc_u64_len, lemma_p_u32_bounds, lemma_p_u64_bounds;
    seq_assoc(enc_u32(s.len() as u32), enc_bytes_items(s), rest);
    lemma_parse_u32(b, i, s.len() as u32, enc_bytes_items(s) + rest);
    lemma_parse_bytes_items(b, i + 4, s, rest);
}

proof fn lemma_parse_vec_u64(b: Seq<u8>, i: int, s: Seq<u64>, rest: Seq<u8>)
    requires
        0 <= i <= b.len(),
        s.len() < 0x1_0000_0000,
        b.subrange(i, b.len() as int) == enc_vec_u64(s) + rest,
    ensures
        match p_vec_u64(b, i) {
            Some((vs, j)) => vs == s && 0 <= j <= b.len() && b.subrange(j, b.len() as int)
                == rest,
            None => false,
        },
{
    broadcast use lemma_enc_u32_len, lemma_enc_u64_len, lemma_p_u32_bounds, lemma_p_u64_bounds;
    seq_assoc(enc_u32(s.len() as u32), enc_u64_items(s), rest);
    lemma_parse_u32(b, i, s.len() as u32, enc_u64_items(s) + rest);
    lemma_parse_u64_items(b, i + 4, s, rest);
}

proof fn lemma_enc_bytes_items_snoc(s: Seq<Seq<u8>>)
    requires
        s.len() > 0,
    ensures
        enc_bytes_items(s) == enc_bytes_items(s.drop_last()) + enc_bytes(s.last()),
    decreases s.len(),
{
    if s.len() == 1 {
        assert(s.subrange(1, s.len() as int) =~= Seq::<Seq<u8>>::empty());
        assert(s.drop_last() =~= Seq::<Seq<u8>>::empty());
        assert(enc_bytes_items(s) =~= enc_bytes_items(s.drop_last()) + enc_bytes(s.last()));
    } else {
        let tail = s.subrange(1, s.len() as int);
        lemma_enc_bytes_items_snoc(tail);
        assert(tail.drop_last() =~= s.drop_last().subrange(1, s.drop_last().len() as int));
        assert(tail.last() == s.last());
        assert(enc_bytes_items(s) =~= enc_bytes_items(s.drop_last()) + enc_bytes(s.last()));
    }
}

proof fn lemma_enc_u64_items_snoc(s: Seq<u64>)
    requires
        s.len() > 0,
    ensures
        enc_u64_items(s) == enc_u64_items(s.drop_last()) + enc_u64(s.last()),
    decreases s.len(),
{
    if s.len() == 1 {
        assert(s.subrange(1, s.len() as int) =~= Seq::<u64>::empty());
        assert(s.drop_last() =~= Seq::<u64>::empty());
        assert(enc_u64_items(s) =~= enc_u64_items(s.drop_last()) + enc_u64(s.last()));
    } else {
        let tail = s.subrange(1, s.len() as int);
        lemma_enc_u64_items_snoc(tail);
        assert(tail.drop_last() =~= s.drop_last().subrange(1, s.drop_last().len() as int));
        assert(tail.last() == s.last());
        assert(enc_u64_items(s) =~= enc_u64_items(s.drop_last()) + enc_u64(s.last()));
    }
}

proof fn lemma_enc_key_items_snoc(s: Seq<Seq<u8>>)
    requires
        s.len() > 0,
    ensures
        enc_key_items(s) == enc_key_items(s.drop_last()) + enc_key(s.last()),
    decreases s.len(),
{
    if s.len() == 1 {
        assert(s.subrange(1, s.len() as int) =~= Seq::<Seq<u8>>::empty());
        assert(s.drop_last() =~= Seq::<Seq<u8>>::empty());
        assert(enc_key_items(s) =~= enc_key_items(s.drop_last()) + enc_key(s.last()));
    } else {
        let tail = s.subrange(1, s.len() as int);
        lemma_enc_key_items_snoc(tail);
        assert(tail.drop_last() =~= s.drop_last().subrange(1, s.drop_last().len() as int));
        assert(tail.last() == s.last());
        assert(enc_key_items(s) =~= enc_key_items(s.drop_last()) + enc_key(s.last()));
    }
}

proof fn lemma_parse_vec_keys(b: Seq<u8>, i: int, s: Seq<Seq<u8>>, rest: Seq<u8>)
    requires
        0 <= i <= b.len(),
        s.len() < 0x1_0000_0000,
        forall|t: int| 0 <= t < s.len() ==> #[trigger] s[t].len() == 32,
        b.subrange(i, b.len() as int) == enc_vec_keys(s) + rest,
    ensures
        match p_vec_keys(b, i) {
            Some((vs, j)) => vs == s && 0 <= j <= b.len() && b.subrange(j, b.len() as int)
                == rest,
            None => false,
        },
{
    broadcast use lemma_enc_u32_len, lemma_enc_u64_len, lemma_p_u32_bounds, lemma_p_u64_bounds;
    seq_assoc(enc_u32(s.len() as u32), enc_key_items(s), rest);
    lemma_parse_u32(b, i, s.len() as u32, enc_key_items(s) + rest);
    lemma_parse_key_items(b, i + 4, s, rest);
}

// ---------------------------------------------------------------------------
// Executable writers

/// A byte string short enough for its length prefix.
pub open spec fn encodable_bytes(v: Seq<u8>) -> bool {
    v.len() < 0x1_0000_0000
}

fn write_u8(out: &mut Vec<u8>, x: u8)
    ensures
        final(out)@ == old(out)@ + enc_u8(x),
{
    out.push(x);
    proof {
        assert(out@ =~= old(out)@ + enc_u8(x));
    }
}

fn write_bool(out: &mut Vec<u8>, b: bool)
    ensures
        final(out)@ == old(out)@ + enc_bool(b),
{
    out.push(if b { 1 } else { 0 });
    proof {
        assert(out@ =~= old(out)@ + enc_bool(b));
    }
}

fn write_u32(out: &mut Vec<u8>, x: u32)
    ensures
        final(out)@ == old(out)@ + enc_u32(x),
{
    out.push((x % 0x100) as u8);
    out.push(((x / 0x100) % 0x100) as u8);
    out.push(((x / 0x1_0000) % 0x100) as u8);
    out.push(((x / 0x100_0000) % 0x100) as u8);
    proof {
        reveal(enc_u32);
        assert(out@ =~= old(out)@ + enc_u32(x));
    }
}

fn write_u64(out: &mut Vec<u8>, x: u64)
    ensures
        final(out)@ == old(out)@ + enc_u64(x),
{
    out.push((x % 0x100) as u8);
    out.push(((x / 0x100) % 0x100) as u8);
    out.push(((x / 0x1_0000) % 0x100) as u8);
    out.push(((x / 0x100_0000) % 0x100) as u8);
    out.push(((x / 0x1_0000_0000) % 0x100) as u8);
    out.push(((x / 0x100_0000_0000) % 0x100) as u8);
    out.push(((x / 0x1_0000_0000_0000) % 0x100) as u8);
    out.push(((x / 0x100_0000_0000_0000) % 0x100) as u8);
    proof {
        reveal(enc_u64);
        assert(out@ =~= old(out)@ + enc_u64(x));
    }
}

fn write_bytes(out: &mut Vec<u8>, v: &Vec<u8>)
    requires
        encodable_bytes(v@),
    ensures
        final(out)@ == old(out)@ + enc_bytes(v@),
{
    write_u32(out, v.len() as u32);
    let mut i: usize = 0;
    while i < v.len()
        invariant
            i <= v@.len(),
            out@ == old(out)@ + enc_u32(v@.len() as u32) + v@.subrange(0, i as int),
        decreases v@.len() - i,
    {
        out.push(v[i]);
        proof {
            assert(out@ =~= old(out)@ + enc_u32(v@.len() as u32) + v@.subrange(0, i + 1));
        }
        i += 1;
    }
    proof {
        assert(v@.subrange(0, v@.len() as int) =~= v@);
        assert(out@ =~= old(out)@ + enc_bytes(v@));
    }
}

fn write_key(out: &mut Vec<u8>, k: &PubKey)
    ensures
        final(out)@ == old(out)@ + enc_key(k@),
{
    let mut i: usize = 0;
    while i < 32
        invariant
            i <= 32,
            out@ == old(out)@ + k@.subrange(0, i as int),
        decreases 32 - i,
    {
        out.push(k.bytes[i]);
        proof {
            assert(out@ =~= old(out)@ + k@.subrange(0, i + 1));
        }
        i += 1;
    }
    proof {
        assert(k@.subrange(0, 32) =~= k@);
    }
}

fn write_opt_bytes(out: &mut Vec<u8>, o: &Option<Vec<u8>>)
    requires
        match o {
            Some(v) => encodable_bytes(v@),
            None => true,
        },
    ensures
        final(out)@ == old(out)@ + enc_opt_bytes(crate::entities::opt_bytes_view(*o)),
{
    match o {
        None => {
            write_u8(out, 0);
        },
        Some(v) => {
            write_u8(out, 1);
            write_bytes(out, v);
            proof {
                assert(out@ =~= old(out)@ + enc_opt_bytes(
                    crate::entities::opt_bytes_view(*o),
                ));
            }
        },
    }
}

fn write_opt_key(out: &mut Vec<u8>, o: &Option<PubKey>)
    ensures
        final(out)@ == old(out)@ + enc_opt_key(crate::entities::opt_key_view(*o)),
{
    match o {
        None => {
            write_u8(out, 0);
        },
        Some(k) => {
            write_u8(out, 1);
            write_key(out, k);
            proof {
                assert(out@ =~= old(out)@ + enc_opt_key(crate::entities::opt_key_view(*o)));
            }
        },
    }
}

fn write_opt_u64(out: &mut Vec<u8>, o: &Option<u64>)
    ensures
        final(out)@ == old(out)@ + enc_opt_u64(*o),
{
    match o {
        None => {
            write_u8(out, 0);
        },
        Some(x) => {
            write_u8(out, 1);
            write_u64(out, *x);
            proof {
                assert(out@ =~= old(out)@ + enc_opt_u64(*o));
            }
        },
    }
}

/// The views of a list of byte strings.
pub open spec fn deep_bytes(s: Seq<Vec<u8>>) -> Seq<Seq<u8>> {
    s.map_values(|v: Vec<u8>| v@)
}

/// The views of a list of keys.
pub open spec fn deep_keys(s: Seq<PubKey>) -> Seq<Seq<u8>> {
    s.map_values(|k: PubKey| k@)
}

fn write_vec_bytes(out: &mut Vec<u8>, s: &Vec<Vec<u8>>)
    requires
        s@.len() < 0x1_0000_0000,
        forall|t: int| 0 <= t < s@.len() ==> encodable_bytes(#[trigger] s@[t]@),
    ensures
        final(out)@ == old(out)@ + enc_vec_bytes(deep_bytes(s@)),
{
    write_u32(out, s.len() as u32);
    let mut i: usize = 0;
    while i < s.len()
        invariant
            i <= s@.len(),
            s@.len() < 0x1_0000_0000,
            forall|t: int| 0 <= t < s@.len() ==> encodable_bytes(#[trigger] s@[t]@),
            out@ == old(out)@ + enc_u32(s@.len() as u32) + enc_bytes_items(
                deep_bytes(s@).subrange(0, i as int),
            ),
        decreases s@.len() - i,
    {
        write_bytes(out, &s[i]);
        proof {
            let pre = deep_bytes(s@).subrange(0, i as int);
            let post = deep_bytes(s@).subrange(0, i + 1);
            lemma_enc_bytes_items_snoc(post);
            assert(post.drop_last() =~= pre);
            assert(post.last() == s@[i as int]@);
            assert(out@ =~= old(out)@ + enc_u32(s@.len() as u32) + enc_bytes_items(post));
        }
        i += 1;
    }
    proof {
        assert(deep_bytes(s@).subrange(0, s@.len() as int) =~= deep_bytes(s@));
        assert(out@ =~= old(out)@ + enc_vec_bytes(deep_bytes(s@)));
    }
}

fn write_vec_u64(out: &mut Vec<u8>, s: &Vec<u64>)
    requires
        s@.len() < 0x1_0000_0000,
    ensures
        final(out)@ == old(out)@ + enc_vec_u64(s@),
{
    write_u32(out, s.len() as u32);
    let mut i: usize = 0;
    while i < s.len()
        invariant
            i <= s@.len(),
            s@.len() < 0x1_0000_0000,
            out@ == old(out)@ + enc_u32(s@.len() as u32) + enc_u64_items(s@.subrange(0, i as int)),
        decreases s@.len() - i,
    {
        write_u64(out, s[i]);
        proof {
            let post = s@.subrange(0, i + 1);
            lemma_enc_u64_items_snoc(post);
            assert(post.drop_last() =~= s@.subrange(0, i as int));
            assert(out@ =~= old(out)@ + enc_u32(s@.len() as u32) + enc_u64_items(post));
        }
        i += 1;
    }
    proof {
        assert(s@.subrange(0, s@.len() as int) =~= s@);
        assert(out@ =~= old(out)@ + enc_vec_u64(s@));
    }
}

fn write_vec_keys(out: &mut Vec<u8>, s: &Vec<PubKey>)
    requires
        s@.len() < 0x1_0000_0000,
    ensures
        final(out)@ == old(out)@ + enc_vec_keys(deep_keys(s@)),
{
    write_u32(out, s.len() as u32);
    let mut i: usize = 0;
    while i < s.len()
        invariant
            i <= s@.len(),
            s@.len() < 0x1_0000_0000,
            out@ == old(out)@ + enc_u32(s@.len() as u32) + enc_key_items(
                deep_keys(s@).subrange(0, i as int),
            ),
        decreases s@.len() - i,
    {
        write_key(out, &s[i]);
        proof {
            let pre = deep_keys(s@).subrange(0, i as int);
            let post = deep_keys(s@).subrange(0, i + 1);
            lemma_enc_key_items_snoc(post);
            assert(post.drop_last() =~= pre);
            assert(post.last() == s@[i as int]@);
            assert(out@ =~= old(out)@ + enc_u32(s@.len() as u32) + enc_key_items(post));
        }
        i += 1;
    }
    proof {
        assert(deep_keys(s@).subrange(0, s@.len() as int) =~= deep_keys(s@));
        assert(out@ =~= old(out)@ + enc_vec_keys(deep_keys(s@)));
    }
}

// ---------------------------------------------------------------------------
// Executable readers

fn read_u8(buf: &Vec<u8>, pos: usize) -> (r: Option<(u8, usize)>)
    ensures
        match (r, p_u8(buf@, pos as int)) {
            (Some((v, n)), Some((sv, sn))) => v == sv && n == sn,
            (None, None) => true,
            _ => false,
        },
{
    if pos < buf.len() {
        Some((buf[pos], pos + 1))
    } else {
        None
    }
}

fn read_bool(buf: &Vec<u8>, pos: usize) -> (r: Option<(bool, usize)>)
    ensures
        match (r, p_bool(buf@, pos as int)) {
            (Some((v, n)), Some((sv, sn))) => v == sv && n == sn,
            (None, None) => true,
            _ => false,
        },
{
    match read_u8(buf, pos) {
        None => None,
        Some((t, n)) => if t == 0 {
            Some((false, n))
        } else if t == 1 {
            Some((true, n))
        } else {
            None
        },
    }
}

fn read_u32(buf: &Vec<u8>, pos: usize) -> (r: Option<(u32, usize)>)
    ensures
        match (r, p_u32(buf@, pos as int)) {
            (Some((v, n)), Some((sv, sn))) => v == sv && n == sn,
            (None, None) => true,
            _ => false,
        },
{
    proof {
        reveal(p_u32);
    }
    if buf.len() >= 4 && pos <= buf.len() - 4 {
        let x = (buf[pos] as u32) + (buf[pos + 1] as u32) * 0x100 + (buf[pos + 2] as u32) * 0x1_0000
            + (buf[pos + 3] as u32) * 0x100_0000;
        Some((x, pos + 4))
    } else {
        None
    }
}

fn read_u64(buf: &Vec<u8>, pos: usize) -> (r: Option<(u64, usize)>)
    ensures
        match (r, p_u64(buf@, pos as int)) {
            (Some((v, n)), Some((sv, sn))) => v == sv && n == sn,
            (None, None) => true,
            _ => false,
        },
{
    proof {
        reveal(p_u64);
    }
    if buf.len() >= 8 && pos <= buf.len() - 8 {
        let x = (buf[pos] as u64) + (buf[pos + 1] as u64) * 0x100 + (buf[pos + 2] as u64) * 0x1_0000
            + (buf[pos + 3] as u64) * 0x100_0000 + (buf[pos + 4] as u64) * 0x1_0000_0000 + (buf[pos
            + 5] as u64) * 0x100_0000_0000 + (buf[pos + 6] as u64) * 0x1_0000_0000_0000 + (buf[pos
            + 7] as u64) * 0x100_0000_0000_0000;
        Some((x, pos + 8))
    } else {
        None
    }
}

fn read_bytes(buf: &Vec<u8>, pos: usize) -> (r: Option<(Vec<u8>, usize)>)
    ensures
        match (r, p_bytes(buf@, pos as int)) {
            (Some((v, n)), Some((sv, sn))) => v@ == sv && n == sn,
            (None, None) => true,
            _ => false,
        },
{
    broadcast use lemma_enc_u32_len, lemma_enc_u64_len, lemma_p_u32_bounds, lemma_p_u64_bounds;
    match read_u32(buf, pos) {
        None => None,
        Some((len, j)) => {
            let len = len as usize;
            if len <= buf.len() - j {
                let mut v: Vec<u8> = Vec::new();
                let mut i: usize = 0;
                while i < len
                    invariant
                        i <= len,
                        j + len <= buf@.len(),
                        buf@.len() <= usize::MAX,
                        v@ == buf@.subrange(j as int, j + i),
                    decreases len - i,
                {
                    v.push(buf[j + i]);
                    proof {
                        assert(v@ =~= buf@.subrange(j as int, j + i + 1));
                    }
                    i += 1;
                }
                Some((v, j + len))
            } else {
                None
            }
        },
    }
}

fn read_key(buf: &Vec<u8>, pos: usize) -> (r: Option<(PubKey, usize)>)
    ensures
        match (r, p_key(buf@, pos as int)) {
            (Some((v, n)), Some((sv, sn))) => v@ == sv && n == sn,
            (None, None) => true,
            _ => false,
        },
{
    if buf.len() >= 32 && pos <= buf.len() - 32 {
        let mut bytes = [0u8; 32];
        let mut i: usize = 0;
        while i < 32
            invariant
                i <= 32,
                pos + 32 <= buf@.len(),
                buf@.len() <= usize::MAX,
                forall|t: int| 0 <= t < i ==> bytes@[t] == buf@[pos + t],
            decreases 32 - i,
        {
            bytes.set(i, buf[pos + i]);
            i += 1;
        }
        let k = PubKey { bytes };
        proof {
            assert(k@ =~= buf@.subrange(pos as int, pos + 32));
        }
        Some((k, pos + 32))
    } else {
        None
    }
}

fn read_opt_bytes(buf: &Vec<u8>, pos: usize) -> (r: Option<(Option<Vec<u8>>, usize)>)
    ensures
        match (r, p_opt_bytes(buf@, pos as int)) {
            (Some((v, n)), Some((sv, sn))) => crate::entities::opt_bytes_view(v) == sv && n == sn,
            (None, None) => true,
            _ => false,
        },
{
    match read_u8(buf, pos) {
        None => None,
        Some((t, j)) => if t == 0 {
            Some((None, j))
        } else if t == 1 {
            match read_bytes(buf, j) {
                None => None,
                Some((v, k)) => Some((Some(v), k)),
            }
        } else {
            None
        },
    }
}

fn read_opt_key(buf: &Vec<u8>, pos: usize) -> (r: Option<(Option<PubKey>, usize)>)
    ensures
        match (r, p_opt_key(buf@, pos as int)) {
            (Some((v, n)), Some((sv, sn))) => crate::entities::opt_key_view(v) == sv && n == sn,
            (None, None) => true,
            _ => false,
        },
{
    match read_u8(buf, pos) {
        None => None,
        Some((t, j)) => if t == 0 {
            Some((None, j))
        } else if t == 1 {
            match read_key(buf, j) {
                None => None,
                Some((v, k)) => Some((Some(v), k)),
            }
        } else {
            None
        },
    }
}

fn read_opt_u64(buf: &Vec<u8>, pos: usize) -> (r: Option<(Option<u64>, usize)>)
    ensures
        match (r, p_opt_u64(buf@, pos as int)) {
            (Some((v, n)), Some((sv, sn))) => v == sv && n == sn,
            (None, None) => true,
            _ => false,
        },
{
    match read_u8(buf, pos) {
        None => None,
        Some((t, j)) => if t == 0 {
            Some((None, j))
        } else if t == 1 {
            match read_u64(buf, j) {
                None => None,
                Some((v, k)) => Some((Some(v), k)),
            }
        } else {
            None
        },
    }
}

fn read_vec_bytes(buf: &Vec<u8>, pos: usize) -> (r: Option<(Vec<Vec<u8>>, usize)>)
    ensures
        match (r, p_vec_bytes(buf@, pos as int)) {
            (Some((v, n)), Some((sv, sn))) => deep_bytes(v@) == sv && n == sn,
            (None, None) => true,
            _ => false,
        },
{
    match read_u32(buf, pos) {
        None => None,
        Some((n_items, start)) => {
            let ghost total = p_bytes_items(buf@, start as int, n_items as nat);
            let mut acc: Vec<Vec<u8>> = Vec::new();
            let mut cur: usize = start;
            let mut k: u32 = 0;
            proof {
                assert(deep_bytes(acc@) =~= Seq::<Seq<u8>>::empty());
                assert(total == (match p_bytes_items(buf@, cur as int, (n_items - k) as nat) {
                    Some((vs, j)) => Some((deep_bytes(acc@) + vs, j)),
                    None => None::<(Seq<Seq<u8>>, int)>,
                })) by {
                    match p_bytes_items(buf@, cur as int, (n_items - k) as nat) {
                        Some((vs, j)) => {
                            assert(deep_bytes(acc@) + vs =~= vs);
                        },
                        None => {},
                    }
                }
            }
            while k < n_items
                invariant
                    k <= n_items,
                    acc@.len() == k,
                    total == p_bytes_items(buf@, start as int, n_items as nat),
                    p_vec_bytes(buf@, pos as int) == total,
                    total == (match p_bytes_items(buf@, cur as int, (n_items - k) as nat) {
                        Some((vs, j)) => Some((deep_bytes(acc@) + vs, j)),
                        None => None::<(Seq<Seq<u8>>, int)>,
                    }),
                decreases n_items - k,
            {
                match read_bytes(buf, cur) {
                    None => {
                        proof {
                            assert(p_bytes(buf@, cur as int) is None);
                            assert((n_items - k) as nat != 0);
                            assert(p_bytes_items(buf@, cur as int, (n_items - k) as nat) is None);
                            assert(total is None);
                            assert(p_vec_bytes(buf@, pos as int) == total);
                        }
                        return None;
                    },
                    Some((v, next)) => {
                        proof {
                            let m = (n_items - k) as nat;
                            let tail = p_bytes_items(buf@, next as int, (m - 1) as nat);
                            assert(p_bytes_items(buf@, cur as int, m) == (match tail {
                                Some((vs, j)) => Some((seq![v@] + vs, j)),
                                None => None::<(Seq<Seq<u8>>, int)>,
                            }));
                            match tail {
                                Some((vs, j)) => {
                                    assert(deep_bytes(acc@.push(v)) =~= deep_bytes(acc@).push(v@));
                                    assert(deep_bytes(acc@) + (seq![v@] + vs) =~= deep_bytes(
                                        acc@.push(v),
                                    ) + vs);
                                },
                                None => {},
                            }
                        }
                        acc.push(v);
                        cur = next;
                        k += 1;
                    },
                }
            }
            proof {
                assert(p_bytes_items(buf@, cur as int, 0) == Some(
                    (Seq::<Seq<u8>>::empty(), cur as int),
                ));
                assert(deep_bytes(acc@) + Seq::<Seq<u8>>::empty() =~= deep_bytes(acc@));
                assert(total == Some((deep_bytes(acc@), cur as int)));
            }
            Some((acc, cur))
        },
    }
}

fn read_vec_u64(buf: &Vec<u8>, pos: usize) -> (r: Option<(Vec<u64>, usize)>)
    ensures
        match (r, p_vec_u64(buf@, pos as int)) {
            (Some((v, n)), Some((sv, sn))) => v@ == sv && n == sn,
            (None, None) => true,
            _ => false,
        },
{
    match read_u32(buf, pos) {
        None => None,
        Some((n_items, start)) => {
            let ghost total = p_u64_items(buf@, start as int, n_items as nat);
            let mut acc: Vec<u64> = Vec::new();
            let mut cur: usize = start;
            let mut k: u32 = 0;
            proof {
                assert(total == (match p_u64_items(buf@, cur as int, (n_items - k) as nat) {
                    Some((vs, j)) => Some((acc@ + vs, j)),
                    None => None::<(Seq<u64>, int)>,
                })) by {
                    match p_u64_items(buf@, cur as int, (n_items - k) as nat) {
                        Some((vs, j)) => {
                            assert(acc@ + vs =~= vs);
                        },
                        None => {},
                    }
                }
            }
            while k < n_items
                invariant
                    k <= n_items,
                    acc@.len() == k,
                    total == p_u64_items(buf@, start as int, n_items as nat),
                    p_vec_u64(buf@, pos as int) == total,
                    total == (match p_u64_items(buf@, cur as int, (n_items - k) as nat) {
                        Some((vs, j)) => Some((acc@ + vs, j)),
                        None => None::<(Seq<u64>, int)>,
                    }),
                decreases n_items - k,
            {
                match read_u64(buf, cur) {
                    None => {
                        return None;
                    },
                    Some((v, next)) => {
                        proof {
                            let m = (n_items - k) as nat;
                            let tail = p_u64_items(buf@, next as int, (m - 1) as nat);
                            assert(p_u64_items(buf@, cur as int, m) == (match tail {
                                Some((vs, j)) => Some((seq![v] + vs, j)),
                                None => None::<(Seq<u64>, int)>,
                            }));
                            match tail {
                                Some((vs, j)) => {
                                    assert(acc@ + (seq![v] + vs) =~= acc@.push(v) + vs);
                                },
                                None => {},
                            }
                        }
                        acc.push(v);
                        cur = next;
                        k += 1;
                    },
                }
            }
            proof {
                assert(p_u64_items(buf@, cur as int, 0) == Some((Seq::<u64>::empty(), cur as int)));
                assert(acc@ + Seq::<u64>::empty() =~= acc@);
                assert(total == Some((acc@, cur as int)));
            }
            Some((acc, cur))
        },
    }
}

fn read_vec_keys(buf: &Vec<u8>, pos: usize) -> (r: Option<(Vec<PubKey>, usize)>)
    ensures
        match (r, p_vec_keys(buf@, pos as int)) {
            (Some((v, n)), Some((sv, sn))) => deep_keys(v@) == sv && n == sn,
            (None, None) => true,
            _ => false,
        },
{
    match read_u32(buf, pos) {
        None => None,
        Some((n_items, start)) => {
            let ghost total = p_key_items(buf@, start as int, n_items as nat);
            let mut acc: Vec<PubKey> = Vec::new();
            let mut cur: usize = start;
            let mut k: u32 = 0;
            proof {
                assert(deep_keys(acc@) =~= Seq::<Seq<u8>>::empty());
                assert(total == (match p_key_items(buf@, cur as int, (n_items - k) as nat) {
                    Some((vs, j)) => Some((deep_keys(acc@) + vs, j)),
                    None => None::<(Seq<Seq<u8>>, int)>,
                })) by {
                    match p_key_items(buf@, cur as int, (n_items - k) as nat) {
                        Some((vs, j)) => {
                            assert(deep_keys(acc@) + vs =~= vs);
                        },
                        None => {},
                    }
                }
            }
            while k < n_items
                invariant
                    k <= n_items,
                    acc@.len() == k,
                    total == p_key_items(buf@, start as int, n_items as nat),
                    p_vec_keys(buf@, pos as int) == total,
                    total == (match p_key_items(buf@, cur as int, (n_items - k) as nat) {
                        Some((vs, j)) => Some((deep_keys(acc@) + vs, j)),
                        None => None::<(Seq<Seq<u8>>, int)>,
                    }),
                decreases n_items - k,
            {
                match read_key(buf, cur) {
                    None => {
                        return None;
                    },
                    Some((v, next)) => {
                        proof {
                            let m = (n_items - k) as nat;
                            let tail = p_key_items(buf@, next as int, (m - 1) as nat);
                            assert(p_key_items(buf@, cur as int, m) == (match tail {
                                Some((vs, j)) => Some((seq![v@] + vs, j)),
                                None => None::<(Seq<Seq<u8>>, int)>,
                            }));
                            match tail {
                                Some((vs, j)) => {
                                    assert(deep_keys(acc@.push(v)) =~= deep_keys(acc@).push(v@));
                                    assert(deep_keys(acc@) + (seq![v@] + vs) =~= deep_keys(
                                        acc@.push(v),
                                    ) + vs);
                                },
                                None => {},
                            }
                        }
                        acc.push(v);
                        cur = next;
                        k += 1;
                    },
                }
            }
            proof {
                assert(p_key_items(buf@, cur as int, 0) == Some(
                    (Seq::<Seq<u8>>::empty(), cur as int),
                ));
                assert(deep_keys(acc@) + Seq::<Seq<u8>>::empty() =~= deep_keys(acc@));
                assert(total == Some((deep_keys(acc@), cur as int)));
            }
            Some((acc, cur))
        },
    }
}

// ---------------------------------------------------------------------------
// Entity encodings

/// Whether a poll's variable-length fields fit their length prefixes.
pub open spec fn encodable_poll(p: PollV) -> bool {
    &&& p.creator.len() == 32
    &&& encodable_bytes(p.title)
    &&& encodable_bytes(p.description)
    &&& p.options.len() < 0x1_0000_0000
    &&& forall|i: int| 0 <= i < p.options.len() ==> encodable_bytes(#[trigger] p.options[i])
    &&& match p.decryption_key {
        Some(k) => encodable_bytes(k),
        None => true,
    }
    &&& match p.weight_token {
        Some(k) => k.len() == 32,
        None => true,
    }
}

/// The encoding of a poll's flag and option fields: the six booleans, the
/// optional decryption key, the optional weight token, and the bonus.
pub open spec fn enc_poll_flags(p: PollV) -> Seq<u8> {
    enc_bool(p.is_private) + (enc_bool(p.allow_revote) + (enc_bool(p.is_active) + (enc_bool(
        p.is_weighted,
    ) + (enc_bool(p.allow_delegation) + (enc_bool(p.is_encrypted) + (enc_opt_bytes(
        p.decryption_key,
    ) + (enc_opt_key(p.weight_token) + enc_u8(p.early_voter_bonus))))))))
}

/// The encoding of a poll: its fields in declaration order.
pub open spec fn enc_poll(p: PollV) -> Seq<u8> {
    enc_u64(p.id) + (enc_key(p.creator) + (enc_bytes(p.title) + (enc_bytes(p.description) + (
    enc_vec_bytes(p.options) + (enc_u64(p.start_time) + (enc_u64(p.end_time) + enc_poll_flags(
        p,
    )))))))
}

/// Parses the flag and option fields of a poll.
pub open spec fn p_poll_flags(b: Seq<u8>, i: int) -> Option<
    ((bool, bool, bool, bool, bool, bool), (Option<Seq<u8>>, Option<Seq<u8>>, u8), int),
> {
    match p_bool(b, i) {
        None => None,
        Some((is_private, i)) => match p_bool(b, i) {
            None => None,
            Some((allow_revote, i)) => match p_bool(b, i) {
                None => None,
                Some((is_active, i)) => match p_bool(b, i) {
                    None => None,
                    Some((is_weighted, i)) => match p_bool(b, i) {
                        None => None,
                        Some((allow_delegation, i)) => match p_bool(b, i) {
                            None => None,
                            Some((is_encrypted, i)) => match p_opt_bytes(b, i) {
                                None => None,
                                Some((decryption_key, i)) => match p_opt_key(b, i) {
                                    None => None,
                                    Some((weight_token, i)) => match p_u8(b, i) {
                                        None => None,
                                        Some((early_voter_bonus, i)) => Some(
                                            (
                                                (
                                                    is_private,
                                                    allow_revote,
                                                    is_active,
                                                    is_weighted,
                                                    allow_delegation,
                                                    is_encrypted,
                                                ),
                                                (decryption_key, weight_token, early_voter_bonus),
                                                i,
                                            ),
                                        ),
                                    },
                                },
                            },
                        },
                    },
                },
            },
        },
    }
}

/// Parses a poll record.
pub open spec fn p_poll(b: Seq<u8>, i: int) -> Option<(PollV, int)> {
    match p_u64(b, i) {
        None => None,
        Some((id, i)) => match p_key(b, i) {
            None => None,
            Some((creator, i)) => match p_bytes(b, i) {
                None => None,
                Some((title, i)) => match p_bytes(b, i) {
                    None => None,
                    Some((description, i)) => match p_vec_bytes(b, i) {
                        None => None,
                        Some((options, i)) => match p_u64(b, i) {
                            None => None,
                            Some((start_time, i)) => match p_u64(b, i) {
                                None => None,
                                Some((end_time, i)) => match p_poll_flags(b, i) {
                                    None => None,
                                    Some((flags, extras, i)) => Some(
                                        (
                                            PollV {
                                                id,
                                                creator,
                                                title,
                                                description,
                                                options,
                                                start_time,
                                                end_time,
                                                is_private: flags.0,
                                                allow_revote: flags.1,
                                                is_active: flags.2,
                                                is_weighted: flags.3,
                                                allow_delegation: flags.4,
                                                is_encrypted: flags.5,
                                                decryption_key: extras.0,
                                                weight_token: extras.1,
                                                early_voter_bonus: extras.2,
                                            },
                                            i,
                                        ),
                                    ),
                                },
                            },
                        },
                    },
                },
            },
        },
    }
}

/// Round trip of the flag and option fields.
#[verifier::rlimit(100)]
proof fn lemma_poll_flags_roundtrip(b: Seq<u8>, i: int, p: PollV, rest: Seq<u8>)
    requires
        0 <= i <= b.len(),
        encodable_poll(p),
        b.subrange(i, b.len() as int) == enc_poll_flags(p) + rest,
    ensures
        match p_poll_flags(b, i) {
            Some((flags, extras, j)) => {
                &&& flags == (
                    p.is_private,
                    p.allow_revote,
                    p.is_active,
                    p.is_weighted,
                    p.allow_delegation,
                    p.is_encrypted,
                )
                &&& extras == (p.decryption_key, p.weight_token, p.early_voter_bonus)
                &&& 0 <= j <= b.len()
                &&& b.subrange(j, b.len() as int) == rest
            },
            None => false,
        },
{
    broadcast use lemma_enc_u32_len, lemma_enc_u64_len, lemma_p_u32_bounds, lemma_p_u64_bounds;

    let t15 = enc_opt_key(p.weight_token) + enc_u8(p.early_voter_bonus);
    let t14 = enc_opt_bytes(p.decryption_key) + t15;
    let t13 = enc_bool(p.is_encrypted) + t14;
    let t12 = enc_bool(p.allow_delegation) + t13;
    let t11 = enc_bool(p.is_weighted) + t12;
    let t10 = enc_bool(p.is_active) + t11;
    let t9 = enc_bool(p.allow_revote) + t10;
    seq_assoc(enc_bool(p.is_private), t9, rest);
    lemma_parse_bool(b, i, p.is_private, t9 + rest);
    let i8 = i + 1;
    seq_assoc(enc_bool(p.allow_revote), t10, rest);
    lemma_parse_bool(b, i8, p.allow_revote, t10 + rest);
    let i9 = i8 + 1;
    seq_assoc(enc_bool(p.is_active), t11, rest);
    lemma_parse_bool(b, i9, p.is_active, t11 + rest);
    let i10 = i9 + 1;
    seq_assoc(enc_bool(p.is_weighted), t12, rest);
    lemma_parse_bool(b, i10, p.is_weighted, t12 + rest);
    let i11 = i10 + 1;
    seq_assoc(enc_bool(p.allow_delegation), t13, rest);
    lemma_parse_bool(b, i11, p.allow_delegation, t13 + rest);
    let i12 = i11 + 1;
    seq_assoc(enc_bool(p.is_encrypted), t14, rest);
    lemma_parse_bool(b, i12, p.is_encrypted, t14 + rest);
    let i13 = i12 + 1;
    seq_assoc(enc_opt_bytes(p.decryption_key), t15, rest);
    lemma_parse_opt_bytes(b, i13, p.decryption_key, t15 + rest);
    let (_, i14) = p_opt_bytes(b, i13)->Some_0;
    seq_assoc(enc_opt_key(p.weight_token), enc_u8(p.early_voter_bonus), rest);
    lemma_parse_opt_key(b, i14, p.weight_token, enc_u8(p.early_voter_bonus) + rest);
    let (_, i15) = p_opt_key(b, i14)->Some_0;
    lemma_parse_u8(b, i15, p.early_voter_bonus, rest);
}

/// **Poll round trip.**/// **Poll round trip.**  Parsing the encoding of a poll, whatever trailing
/// bytes follow it, yields the poll back.
#[verifier::rlimit(100)]
#[verifier::spinoff_prover]
pub proof fn lemma_poll_roundtrip(b: Seq<u8>, p: PollV, rest: Seq<u8>)
    requires
        encodable_poll(p),
        b == enc_poll(p) + rest,
    ensures
        match p_poll(b, 0) {
            Some((pv, j)) => pv == p && b.subrange(j, b.len() as int) == rest,
            None => false,
        },
{
    broadcast use lemma_enc_u32_len, lemma_enc_u64_len, lemma_p_u32_bounds, lemma_p_u64_bounds;

    let t7 = enc_u64(p.end_time) + enc_poll_flags(p);
    let t6 = enc_u64(p.start_time) + t7;
    let t5 = enc_vec_bytes(p.options) + t6;
    let t4 = enc_bytes(p.description) + t5;
    let t3 = enc_bytes(p.title) + t4;
    let t2 = enc_key(p.creator) + t3;
    subrange_all(b);
    seq_assoc(enc_u64(p.id), t2, rest);
    lemma_parse_u64(b, 0, p.id, t2 + rest);
    let i1 = 8;
    seq_assoc(enc_key(p.creator), t3, rest);
    lemma_parse_key(b, i1, p.creator, t3 + rest);
    let i2 = i1 + 32;
    seq_assoc(enc_bytes(p.title), t4, rest);
    lemma_parse_bytes(b, i2, p.title, t4 + rest);
    let i3 = i2 + 4 + p.title.len() as int;
    seq_assoc(enc_bytes(p.description), t5, rest);
    lemma_parse_bytes(b, i3, p.description, t5 + rest);
    let i4 = i3 + 4 + p.description.len() as int;
    seq_assoc(enc_vec_bytes(p.options), t6, rest);
    lemma_parse_vec_bytes(b, i4, p.options, t6 + rest);
    let (_, i5) = p_vec_bytes(b, i4)->Some_0;
    seq_assoc(enc_u64(p.start_time), t7, rest);
    lemma_parse_u64(b, i5, p.start_time, t7 + rest);
    let i6 = i5 + 8;
    seq_assoc(enc_u64(p.end_time), enc_poll_flags(p), rest);
    lemma_parse_u64(b, i6, p.end_time, enc_poll_flags(p) + rest);
    let i7 = i6 + 8;
    lemma_poll_flags_roundtrip(b, i7, p, rest);
}

/// Serializes a poll.
#[verifier::rlimit(100)]
#[verifier::spinoff_prover]
pub fn encode_poll(p: &Poll) -> (out: Vec<u8>)
    requires
        encodable_poll(p@),
    ensures
        out@ == enc_poll(p@),
{
    let mut out: Vec<u8> = Vec::new();
    let ghost g0 = out@;
    write_u64(&mut out, p.id);
    let ghost g1 = out@;
    write_key(&mut out, &p.creator);
    let ghost g2 = out@;
    write_bytes(&mut out, &p.title);
    let ghost g3 = out@;
    write_bytes(&mut out, &p.description);
    let ghost g4 = out@;
    proof {
        assert(deep_bytes(p.options@) =~= p@.options);
        assert forall|t: int| 0 <= t < p.options@.len() implies encodable_bytes(
            #[trigger] p.options@[t]@,
        ) by {
            assert(p@.options[t] == p.options@[t]@);
        }
    }
    write_vec_bytes(&mut out, &p.options);
    let ghost g5 = out@;
    write_u64(&mut out, p.start_time);
    let ghost g6 = out@;
    write_u64(&mut out, p.end_time);
    let ghost g7 = out@;
    write_bool(&mut out, p.is_private);
    let ghost g8 = out@;
    write_bool(&mut out, p.allow_revote);
    let ghost g9 = out@;
    write_bool(&mut out, p.is_active);
    let ghost g10 = out@;
    write_bool(&mut out, p.is_weighted);
    let ghost g11 = out@;
    write_bool(&mut out, p.allow_delegation);
    let ghost g12 = out@;
    write_bool(&mut out, p.is_encrypted);
    let ghost g13 = out@;
    write_opt_bytes(&mut out, &p.decryption_key);
    let ghost g14 = out@;
    write_opt_key(&mut out, &p.weight_token);
    let ghost g15 = out@;
    write_u8(&mut out, p.early_voter_bonus);
    proof {
        assert(deep_bytes(p.options@) =~= p@.options);
        let e1 = enc_u64(p@.id);
        let e2 = enc_key(p@.creator);
        let e3 = enc_bytes(p@.title);
        let e4 = enc_bytes(p@.description);
        let e5 = enc_vec_bytes(p@.options);
        let e6 = enc_u64(p@.start_time);
        let e7 = enc_u64(p@.end_time);
        let e8 = enc_bool(p@.is_private);
        let e9 = enc_bool(p@.allow_revote);
        let e10 = enc_bool(p@.is_active);
        let e11 = enc_bool(p@.is_weighted);
        let e12 = enc_bool(p@.allow_delegation);
        let e13 = enc_bool(p@.is_encrypted);
        let e14 = enc_opt_bytes(p@.decryption_key);
        let e15 = enc_opt_key(p@.weight_token);
        let e16 = enc_u8(p@.early_voter_bonus);
        let t15 = e15 + e16;
        let t14 = e14 + t15;
        let t13 = e13 + t14;
        let t12 = e12 + t13;
        let t11 = e11 + t12;
        let t10 = e10 + t11;
        let t9 = e9 + t10;
        let t8 = e8 + t9;
        let t7 = e7 + t8;
        let t6 = e6 + t7;
        let t5 = e5 + t6;
        let t4 = e4 + t5;
        let t3 = e3 + t4;
        let t2 = e2 + t3;
        seq_assoc(g14, e15, e16);
        assert(out@ == g14 + t15);
        seq_assoc(g13, e14, t15);
        assert(out@ == g13 + t14);
        seq_assoc(g12, e13, t14);
        assert(out@ == g12 + t13);
        seq_assoc(g11, e12, t13);
        assert(out@ == g11 + t12);
        seq_assoc(g10, e11, t12);
        assert(out@ == g10 + t11);
        seq_assoc(g9, e10, t11);
        assert(out@ == g9 + t10);
        seq_assoc(g8, e9, t10);
        assert(out@ == g8 + t9);
        seq_assoc(g7, e8, t9);
        assert(out@ == g7 + t8);
        seq_assoc(g6, e7, t8);
        assert(out@ == g6 + t7);
        seq_assoc(g5, e6, t7);
        assert(out@ == g5 + t6);
        seq_assoc(g4, e5, t6);
        assert(out@ == g4 + t5);
        seq_assoc(g3, e4, t5);
        assert(out@ == g3 + t4);
        seq_assoc(g2, e3, t4);
        assert(out@ == g2 + t3);
        seq_assoc(g1, e2, t3);
        assert(out@ == g1 + t2);
        seq_assoc(g0, e1, t2);
        assert(out@ == g0 + (e1 + t2));
        seq_empty_left(e1 + t2);
        assert(t8 == enc_poll_flags(p@));
        assert(out@ == enc_poll(p@));
    }
    out
}

/// Deserializes a poll; trailing bytes are ignored.
pub fn decode_poll(buf: &Vec<u8>) -> (r: Option<Poll>)
    ensures
        match (r, p_poll(buf@, 0)) {
            (Some(p), Some((pv, j))) => p@ == pv,
            (None, None) => true,
            _ => false,
        },
{
    let pos: usize = 0;
    let (id, pos) = match read_u64(buf, pos) {
        Some(x) => x,
        None => { return None; },
    };
    let (creator, pos) = match read_key(buf, pos) {
        Some(x) => x,
        None => { return None; },
    };
    let (title, pos) = match read_bytes(buf, pos) {
        Some(x) => x,
        None => { return None; },
    };
    let (description, pos) = match read_bytes(buf, pos) {
        Some(x) => x,
        None => { return None; },
    };
    let (options, pos) = match read_vec_bytes(buf, pos) {
        Some(x) => x,
        None => { return None; },
    };
    let (start_time, pos) = match read_u64(buf, pos) {
        Some(x) => x,
        None => { return None; },
    };
    let (end_time, pos) = match read_u64(buf, pos) {
        Some(x) => x,
        None => { return None; },
    };
    let (is_private, pos) = match read_bool(buf, pos) {
        Some(x) => x,
        None => { return None; },
    };
    let (allow_revote, pos) = match read_bool(buf, pos) {
        Some(x) => x,
        None => { return None; },
    };
    let (is_active, pos) = match read_bool(buf, pos) {
        Some(x) => x,
        None => { return None; },
    };
    let (is_weighted, pos) = match read_bool(buf, pos) {
        Some(x) => x,
        None => { return None; },
    };
    let (allow_delegation, pos) = match read_bool(buf, pos) {
        Some(x) => x,
        None => { return None; },
    };
    let (is_encrypted, pos) = match read_bool(buf, pos) {
        Some(x) => x,
        None => { return None; },
    };
    let (decryption_key, pos) = match read_opt_bytes(buf, pos) {
        Some(x) => x,
        None => { return None; },
    };
    let (weight_token, pos) = match read_opt_key(buf, pos) {
        Some(x) => x,
        None => { return None; },
    };
    let (early_voter_bonus, _pos) = match read_u8(buf, pos) {
        Some(x) => x,
        None => { return None; },
    };
    let p = Poll {
        id,
        creator,
        title,
        description,
        options,
        start_time,
        end_time,
        is_private,
        allow_revote,
        is_active,
        is_weighted,
        allow_delegation,
        is_encrypted,
        decryption_key,
        weight_token,
        early_voter_bonus,
    };
    proof {
        assert(p@.options =~= deep_bytes(p.options@));
    }
    Some(p)
}

/// Whether a ballot's variable-length fields fit their length prefixes.
pub open spec fn encodable_vote(v: VoteV) -> bool {
    &&& v.voter.len() == 32
    &&& match v.delegated_to {
        Some(k) => k.len() == 32,
        None => true,
    }
    &&& match v.encrypted_data {
        Some(d) => encodable_bytes(d),
        None => true,
    }
    &&& match v.zk_proof {
        Some(d) => encodable_bytes(d),
        None => true,
    }
    &&& match v.nonce {
        Some(d) => encodable_bytes(d),
        None => true,
    }
}

/// The encoding of a ballot: its fields in declaration order.
pub open spec fn enc_vote(v: VoteV) -> Seq<u8> {
    enc_u64(v.poll_id) + (enc_key(v.voter) + (enc_u8(v.option_index) + (enc_u64(v.timestamp) + (
    enc_u64(v.weight) + (enc_opt_key(v.delegated_to) + (enc_opt_bytes(v.encrypted_data) + (
    enc_opt_bytes(v.zk_proof) + enc_opt_bytes(v.nonce))))))))
}

/// Parses a ballot record.
pub open spec fn p_vote(b: Seq<u8>, i: int) -> Option<(VoteV, int)> {
    match p_u64(b, i) {
        None => None,
        Some((poll_id, i)) => match p_key(b, i) {
            None => None,
            Some((voter, i)) => match p_u8(b, i) {
                None => None,
                Some((option_index, i)) => match p_u64(b, i) {
                    None => None,
                    Some((timestamp, i)) => match p_u64(b, i) {
                        None => None,
                        Some((weight, i)) => match p_opt_key(b, i) {
                            None => None,
                            Some((delegated_to, i)) => match p_opt_bytes(b, i) {
                                None => None,
                                Some((encrypted_data, i)) => match p_opt_bytes(b, i) {
                                    None => None,
                                    Some((zk_proof, i)) => match p_opt_bytes(b, i) {
                                        None => None,
                                        Some((nonce, i)) => Some(
                                            (
                                                VoteV {
                                                    poll_id,
                                                    voter,
                                                    option_index,
                                                    timestamp,
                                                    weight,
                                                    delegated_to,
                                                    encrypted_data,
                                                    zk_proof,
                                                    nonce,
                                                },
                                                i,
                                            ),
                                        ),
                                    },
                                },
                            },
                        },
                    },
                },
            },
        },
    }
}

/// **Ballot round trip.**
#[verifier::rlimit(100)]
pub proof fn lemma_vote_roundtrip(b: Seq<u8>, v: VoteV, rest: Seq<u8>)
    requires
        encodable_vote(v),
        b == enc_vote(v) + rest,
    ensures
        match p_vote(b, 0) {
            Some((vv, j)) => vv == v && b.subrange(j, b.len() as int) == rest,
            None => false,
        },
{
    broadcast use lemma_enc_u32_len, lemma_enc_u64_len, lemma_p_u32_bounds, lemma_p_u64_bounds;
    let t8 = enc_opt_bytes(v.zk_proof) + enc_opt_bytes(v.nonce);
    let t7 = enc_opt_bytes(v.encrypted_data) + t8;
    let t6 = enc_opt_key(v.delegated_to) + t7;
    let t5 = enc_u64(v.weight) + t6;
    let t4 = enc_u64(v.timestamp) + t5;
    let t3 = enc_u8(v.option_index) + t4;
    let t2 = enc_key(v.voter) + t3;
    subrange_all(b);
    seq_assoc(enc_u64(v.poll_id), t2, rest);
    lemma_parse_u64(b, 0, v.poll_id, t2 + rest);
    let i1 = 8;
    seq_assoc(enc_key(v.voter), t3, rest);
    lemma_parse_key(b, i1, v.voter, t3 + rest);
    let i2 = i1 + 32;
    seq_assoc(enc_u8(v.option_index), t4, rest);
    lemma_parse_u8(b, i2, v.option_index, t4 + rest);
    let i3 = i2 + 1;
    seq_assoc(enc_u64(v.timestamp), t5, rest);
    lemma_parse_u64(b, i3, v.timestamp, t5 + rest);
    let i4 = i3 + 8;
    seq_assoc(enc_u64(v.weight), t6, rest);
    lemma_parse_u64(b, i4, v.weight, t6 + rest);
    let i5 = i4 + 8;
    seq_assoc(enc_opt_key(v.delegated_to), t7, rest);
    lemma_parse_opt_key(b, i5, v.delegated_to, t7 + rest);
    let (_, i6) = p_opt_key(b, i5)->Some_0;
    seq_assoc(enc_opt_bytes(v.encrypted_data), t8, rest);
    lemma_parse_opt_bytes(b, i6, v.encrypted_data, t8 + rest);
    let (_, i7) = p_opt_bytes(b, i6)->Some_0;
    seq_assoc(enc_opt_bytes(v.zk_proof), enc_opt_bytes(v.nonce), rest);
    lemma_parse_opt_bytes(b, i7, v.zk_proof, enc_opt_bytes(v.nonce) + rest);
    let (_, i8) = p_opt_bytes(b, i7)->Some_0;
    lemma_parse_opt_bytes(b, i8, v.nonce, rest);
}

/// Serializes a ballot.
#[verifier::rlimit(100)]
pub fn encode_vote(v: &Vote) -> (out: Vec<u8>)
    requires
        encodable_vote(v@),
    ensures
        out@ == enc_vote(v@),
{
    let mut out: Vec<u8> = Vec::new();
    write_u64(&mut out, v.poll_id);
    write_key(&mut out, &v.voter);
    write_u8(&mut out, v.option_index);
    write_u64(&mut out, v.timestamp);
    write_u64(&mut out, v.weight);
    write_opt_key(&mut out, &v.delegated_to);
    write_opt_bytes(&mut out, &v.encrypted_data);
    write_opt_bytes(&mut out, &v.zk_proof);
    write_opt_bytes(&mut out, &v.nonce);
    proof {
        assert(out@ =~= enc_vote(v@));
    }
    out
}

/// Deserializes a ballot; trailing bytes are ignored.
pub fn decode_vote(buf: &Vec<u8>) -> (r: Option<Vote>)
    ensures
        match (r, p_vote(buf@, 0)) {
            (Some(v), Some((vv, j))) => v@ == vv,
            (None, None) => true,
            _ => false,
        },
{
    let pos: usize = 0;
    let (poll_id, pos) = match read_u64(buf, pos) {
        Some(x) => x,
        None => { return None; },
    };
    let (voter, pos) = match read_key(buf, pos) {
        Some(x) => x,
        None => { return None; },
    };
    let (option_index, pos) = match read_u8(buf, pos) {
        Some(x) => x,
        None => { return None; },
    };
    let (timestamp, pos) = match read_u64(buf, pos) {
        Some(x) => x,
        None => { return None; },
    };
    let (weight, pos) = match read_u64(buf, pos) {
        Some(x) => x,
        None => { return None; },
    };
    let (delegated_to, pos) = match read_opt_key(buf, pos) {
        Some(x) => x,
        None => { return None; },
    };
    let (encrypted_data, pos) = match read_opt_bytes(buf, pos) {
        Some(x) => x,
        None => { return None; },
    };
    let (zk_proof, pos) = match read_opt_bytes(buf, pos) {
        Some(x) => x,
        None => { return None; },
    };
    let (nonce, _pos) = match read_opt_bytes(buf, pos) {
        Some(x) => x,
        None => { return None; },
    };
    Some(
        Vote {
            poll_id,
            voter,
            option_index,
            timestamp,
            weight,
            delegated_to,
            encrypted_data,
            zk_proof,
            nonce,
        },
    )
}

/// Whether a tally's counter list fits its length prefix.
pub open spec fn encodable_vote_count(vc: VoteCountV) -> bool {
    vc.counts.len() < 0x1_0000_0000
}

/// The encoding of a tally: its fields in declaration order.
pub open spec fn enc_vote_count(vc: VoteCountV) -> Seq<u8> {
    enc_u64(vc.poll_id) + (enc_vec_u64(vc.counts) + (enc_u64(vc.total_voters) + (enc_u64(
        vc.last_updated,
    ) + enc_bool(vc.is_finalized))))
}

/// Parses a tally record.
pub open spec fn p_vote_count(b: Seq<u8>, i: int) -> Option<(VoteCountV, int)> {
    match p_u64(b, i) {
        None => None,
        Some((poll_id, i)) => match p_vec_u64(b, i) {
            None => None,
            Some((counts, i)) => match p_u64(b, i) {
                None => None,
                Some((total_voters, i)) => match p_u64(b, i) {
                    None => None,
                    Some((last_updated, i)) => match p_bool(b, i) {
                        None => None,
                        Some((is_finalized, i)) => Some(
                            (
                                VoteCountV {
                                    poll_id,
                                    counts,
                                    total_voters,
                                    last_updated,
                                    is_finalized,
                                },
                                i,
                            ),
                        ),
                    },
                },
            },
        },
    }
}

/// **Tally round trip.**
#[verifier::rlimit(100)]
#[verifier::spinoff_prover]
pub proof fn lemma_vote_count_roundtrip(b: Seq<u8>, vc: VoteCountV, rest: Seq<u8>)
    requires
        encodable_vote_count(vc),
        b == enc_vote_count(vc) + rest,
    ensures
        match p_vote_count(b, 0) {
            Some((v, j)) => v == vc && b.subrange(j, b.len() as int) == rest,
            None => false,
        },
{
    broadcast use lemma_enc_u32_len, lemma_enc_u64_len, lemma_p_u32_bounds, lemma_p_u64_bounds;
    let t4 = enc_u64(vc.last_updated) + enc_bool(vc.is_finalized);
    let t3 = enc_u64(vc.total_voters) + t4;
    let t2 = enc_vec_u64(vc.counts) + t3;
    subrange_all(b);
    seq_assoc(enc_u64(vc.poll_id), t2, rest);
    lemma_parse_u64(b, 0, vc.poll_id, t2 + rest);
    let i1 = 8;
    seq_assoc(enc_vec_u64(vc.counts), t3, rest);
    lemma_parse_vec_u64(b, i1, vc.counts, t3 + rest);
    let (_, i2) = p_vec_u64(b, i1)->Some_0;
    seq_assoc(enc_u64(vc.total_voters), t4, rest);
    lemma_parse_u64(b, i2, vc.total_voters, t4 + rest);
    let i3 = i2 + 8;
    seq_assoc(enc_u64(vc.last_updated), enc_bool(vc.is_finalized), rest);
    lemma_parse_u64(b, i3, vc.last_updated, enc_bool(vc.is_finalized) + rest);
    let i4 = i3 + 8;
    lemma_parse_bool(b, i4, vc.is_finalized, rest);
}

/// Serializes a tally.
pub fn encode_vote_count(vc: &VoteCount) -> (out: Vec<u8>)
    requires
        encodable_vote_count(vc@),
    ensures
        out@ == enc_vote_count(vc@),
{
    let mut out: Vec<u8> = Vec::new();
    write_u64(&mut out, vc.poll_id);
    write_vec_u64(&mut out, &vc.counts);
    write_u64(&mut out, vc.total_voters);
    write_u64(&mut out, vc.last_updated);
    write_bool(&mut out, vc.is_finalized);
    proof {
        assert(out@ =~= enc_vote_count(vc@));
    }
    out
}

/// Deserializes a tally; trailing bytes are ignored.
pub fn decode_vote_count(buf: &Vec<u8>) -> (r: Option<VoteCount>)
    ensures
        match (r, p_vote_count(buf@, 0)) {
            (Some(vc), Some((v, j))) => vc@ == v,
            (None, None) => true,
            _ => false,
        },
{
    let pos: usize = 0;
    let (poll_id, pos) = match read_u64(buf, pos) {
        Some(x) => x,
        None => { return None; },
    };
    let (counts, pos) = match read_vec_u64(buf, pos) {
        Some(x) => x,
        None => { return None; },
    };
    let (total_voters, pos) = match read_u64(buf, pos) {
        Some(x) => x,
        None => { return None; },
    };
    let (last_updated, pos) = match read_u64(buf, pos) {
        Some(x) => x,
        None => { return None; },
    };
    let (is_finalized, _pos) = match read_bool(buf, pos) {
        Some(x) => x,
        None => { return None; },
    };
    Some(VoteCount { poll_id, counts, total_voters, last_updated, is_finalized })
}

/// Whether a registry's bitmap and voter list fit their length prefixes.
pub open spec fn encodable_registry(r: VoterRegistryV) -> bool {
    &&& encodable_bytes(r.voter_bitmap)
    &&& r.voters.len() < 0x1_0000_0000
    &&& forall|i: int| 0 <= i < r.voters.len() ==> (#[trigger] r.voters[i]).len() == 32
}

/// The encoding of a registry: its fields in declaration order.
pub open spec fn enc_voter_registry(r: VoterRegistryV) -> Seq<u8> {
    enc_u64(r.poll_id) + (enc_bytes(r.voter_bitmap) + enc_vec_keys(r.voters))
}

/// Parses a registry record.
pub open spec fn p_voter_registry(b: Seq<u8>, i: int) -> Option<(VoterRegistryV, int)> {
    match p_u64(b, i) {
        None => None,
        Some((poll_id, i)) => match p_bytes(b, i) {
            None => None,
            Some((voter_bitmap, i)) => match p_vec_keys(b, i) {
                None => None,
                Some((voters, i)) => Some((VoterRegistryV { poll_id, voter_bitmap, voters }, i)),
            },
        },
    }
}

/// **Registry round trip.**
#[verifier::rlimit(100)]
pub proof fn lemma_voter_registry_roundtrip(b: Seq<u8>, r: VoterRegistryV, rest: Seq<u8>)
    requires
        encodable_registry(r),
        b == enc_voter_registry(r) + rest,
    ensures
        match p_voter_registry(b, 0) {
            Some((v, j)) => v == r && b.subrange(j, b.len() as int) == rest,
            None => false,
        },
{
    broadcast use lemma_enc_u32_len, lemma_enc_u64_len, lemma_p_u32_bounds, lemma_p_u64_bounds;
    let t2 = enc_bytes(r.voter_bitmap) + enc_vec_keys(r.voters);
    subrange_all(b);
    seq_assoc(enc_u64(r.poll_id), t2, rest);
    lemma_parse_u64(b, 0, r.poll_id, t2 + rest);
    let i1 = 8;
    seq_assoc(enc_bytes(r.voter_bitmap), enc_vec_keys(r.voters), rest);
    lemma_parse_bytes(b, i1, r.voter_bitmap, enc_vec_keys(r.voters) + rest);
    let i2 = i1 + 4 + r.voter_bitmap.len() as int;
    lemma_parse_vec_keys(b, i2, r.voters, rest);
}

/// Serializes a registry.
pub fn encode_voter_registry(r: &VoterRegistry) -> (out: Vec<u8>)
    requires
        encodable_registry(r@),
    ensures
        out@ == enc_voter_registry(r@),
{
    let mut out: Vec<u8> = Vec::new();
    write_u64(&mut out, r.poll_id);
    write_bytes(&mut out, &r.voter_bitmap);
    write_vec_keys(&mut out, &r.voters);
    proof {
        assert(deep_keys(r.voters@) =~= r@.voters);
        assert(out@ =~= enc_voter_registry(r@));
    }
    out
}

/// Deserializes a registry; trailing bytes are ignored.
pub fn decode_voter_registry(buf: &Vec<u8>) -> (r: Option<VoterRegistry>)
    ensures
        match (r, p_voter_registry(buf@, 0)) {
            (Some(reg), Some((v, j))) => reg@ == v,
            (None, None) => true,
            _ => false,
        },
{
    let pos: usize = 0;
    let (poll_id, pos) = match read_u64(buf, pos) {
        Some(x) => x,
        None => { return None; },
    };
    let (voter_bitmap, pos) = match read_bytes(buf, pos) {
        Some(x) => x,
        None => { return None; },
    };
    let (voters, _pos) = match read_vec_keys(buf, pos) {
        Some(x) => x,
        None => { return None; },
    };
    let reg = VoterRegistry { poll_id, voter_bitmap, voters };
    proof {
        assert(reg@.voters =~= deep_keys(reg.voters@));
    }
    Some(reg)
}

/// Whether a delegation's keys have their fixed width.
pub open spec fn encodable_delegation(d: DelegationV) -> bool {
    &&& d.delegator.len() == 32
    &&& d.delegate.len() == 32
}

/// The encoding of a delegation: its fields in declaration order.
pub open spec fn enc_delegation(d: DelegationV) -> Seq<u8> {
    enc_u64(d.id) + (enc_key(d.delegator) + (enc_key(d.delegate) + (enc_opt_u64(d.poll_id) + (
    enc_opt_u64(d.expiration) + enc_bool(d.is_active)))))
}

/// Parses a delegation record.
pub open spec fn p_delegation(b: Seq<u8>, i: int) -> Option<(DelegationV, int)> {
    match p_u64(b, i) {
        None => None,
        Some((id, i)) => match p_key(b, i) {
            None => None,
            Some((delegator, i)) => match p_key(b, i) {
                None => None,
                Some((delegate, i)) => match p_opt_u64(b, i) {
                    None => None,
                    Some((poll_id, i)) => match p_opt_u64(b, i) {
                        None => None,
                        Some((expiration, i)) => match p_bool(b, i) {
                            None => None,
                            Some((is_active, i)) => Some(
                                (
                                    DelegationV {
                                        id,
                                        delegator,
                                        delegate,
                                        poll_id,
                                        expiration,
                                        is_active,
                                    },
                                    i,
                                ),
                            ),
                        },
                    },
                },
            },
        },
    }
}

/// **Delegation round trip.**
#[verifier::rlimit(100)]
pub proof fn lemma_delegation_roundtrip(b: Seq<u8>, d: DelegationV, rest: Seq<u8>)
    requires
        encodable_delegation(d),
        b == enc_delegation(d) + rest,
    ensures
        match p_delegation(b, 0) {
            Some((v, j)) => v == d && b.subrange(j, b.len() as int) == rest,
            None => false,
        },
{
    broadcast use lemma_enc_u32_len, lemma_enc_u64_len, lemma_p_u32_bounds, lemma_p_u64_bounds;
    let t5 = enc_opt_u64(d.expiration) + enc_bool(d.is_active);
    let t4 = enc_opt_u64(d.poll_id) + t5;
    let t3 = enc_key(d.delegate) + t4;
    let t2 = enc_key(d.delegator) + t3;
    subrange_all(b);
    seq_assoc(enc_u64(d.id), t2, rest);
    lemma_parse_u64(b, 0, d.id, t2 + rest);
    let i1 = 8;
    seq_assoc(enc_key(d.delegator), t3, rest);
    lemma_parse_key(b, i1, d.delegator, t3 + rest);
    let i2 = i1 + 32;
    seq_assoc(enc_key(d.delegate), t4, rest);
    lemma_parse_key(b, i2, d.delegate, t4 + rest);
    let i3 = i2 + 32;
    seq_assoc(enc_opt_u64(d.poll_id), t5, rest);
    lemma_parse_opt_u64(b, i3, d.poll_id, t5 + rest);
    let (_, i4) = p_opt_u64(b, i3)->Some_0;
    seq_assoc(enc_opt_u64(d.expiration), enc_bool(d.is_active), rest);
    lemma_parse_opt_u64(b, i4, d.expiration, enc_bool(d.is_active) + rest);
    let (_, i5) = p_opt_u64(b, i4)->Some_0;
    lemma_parse_bool(b, i5, d.is_active, rest);
}

/// Serializes a delegation.
pub fn encode_delegation(d: &Delegation) -> (out: Vec<u8>)
    ensures
        out@ == enc_delegation(d@),
{
    let mut out: Vec<u8> = Vec::new();
    write_u64(&mut out, d.id);
    write_key(&mut out, &d.delegator);
    write_key(&mut out, &d.delegate);
    write_opt_u64(&mut out, &d.poll_id);
    write_opt_u64(&mut out, &d.expiration);
    write_bool(&mut out, d.is_active);
    proof {
        assert(out@ =~= enc_delegation(d@));
    }
    out
}

/// Deserializes a delegation; trailing bytes are ignored.
pub fn decode_delegation(buf: &Vec<u8>) -> (r: Option<Delegation>)
    ensures
        match (r, p_delegation(buf@, 0)) {
            (Some(d), Some((v, j))) => d@ == v,
            (None, None) => true,
            _ => false,
        },
{
    let pos: usize = 0;
    let (id, pos) = match read_u64(buf, pos) {
        Some(x) => x,
        None => { return None; },
    };
    let (delegator, pos) = match read_key(buf, pos) {
        Some(x) => x,
        None => { return None; },
    };
    let (delegate, pos) = match read_key(buf, pos) {
        Some(x) => x,
        None => { return None; },
    };
    let (poll_id, pos) = match read_opt_u64(buf, pos) {
        Some(x) => x,
        None => { return None; },
    };
    let (expiration, pos) = match read_opt_u64(buf, pos) {
        Some(x) => x,
        None => { return None; },
    };
    let (is_active, _pos) = match read_bool(buf, pos) {
        Some(x) => x,
        None => { return None; },
    };
    Some(Delegation { id, delegator, delegate, poll_id, expiration, is_active })
}

/// The encoding of a balance snapshot: its fields in declaration order.
pub open spec fn enc_token_balance(t: TokenBalanceV) -> Seq<u8> {
    enc_key(t.owner) + (enc_key(t.token) + (enc_u64(t.amount) + enc_u64(t.last_updated)))
}

/// Whether a balance snapshot's keys have their fixed width.
pub open spec fn encodable_token_balance(t: TokenBalanceV) -> bool {
    &&& t.owner.len() == 32
    &&& t.token.len() == 32
}

/// Parses a balance-snapshot record.
pub open spec fn p_token_balance(b: Seq<u8>, i: int) -> Option<(TokenBalanceV, int)> {
    match p_key(b, i) {
        None => None,
        Some((owner, i)) => match p_key(b, i) {
            None => None,
            Some((token, i)) => match p_u64(b, i) {
                None => None,
                Some((amount, i)) => match p_u64(b, i) {
                    None => None,
                    Some((last_updated, i)) => Some(
                        (TokenBalanceV { owner, token, amount, last_updated }, i),
                    ),
                },
            },
        },
    }
}

/// **Balance-snapshot round trip.**
#[verifier::rlimit(100)]
pub proof fn lemma_token_balance_roundtrip(b: Seq<u8>, t: TokenBalanceV, rest: Seq<u8>)
    requires
        encodable_token_balance(t),
        b == enc_token_balance(t) + rest,
    ensures
        match p_token_balance(b, 0) {
            Some((v, j)) => v == t && b.subrange(j, b.len() as int) == rest,
            None => false,
        },
{
    broadcast use lemma_enc_u32_len, lemma_enc_u64_len, lemma_p_u32_bounds, lemma_p_u64_bounds;
    let t3 = enc_u64(t.amount) + enc_u64(t.last_updated);
    let t2 = enc_key(t.token) + t3;
    subrange_all(b);
    seq_assoc(enc_key(t.owner), t2, rest);
    lemma_parse_key(b, 0, t.owner, t2 + rest);
    let i1 = 32;
    seq_assoc(enc_key(t.token), t3, rest);
    lemma_parse_key(b, i1, t.token, t3 + rest);
    let i2 = i1 + 32;
    seq_assoc(enc_u64(t.amount), enc_u64(t.last_updated), rest);
    lemma_parse_u64(b, i2, t.amount, enc_u64(t.last_updated) + rest);
    let i3 = i2 + 8;
    lemma_parse_u64(b, i3, t.last_updated, rest);
}

/// Serializes a balance snapshot.
pub fn encode_token_balance(t: &TokenBalance) -> (out: Vec<u8>)
    ensures
        out@ == enc_token_balance(t@),
{
    let mut out: Vec<u8> = Vec::new();
    write_key(&mut out, &t.owner);
    write_key(&mut out, &t.token);
    write_u64(&mut out, t.amount);
    write_u64(&mut out, t.last_updated);
    proof {
        assert(out@ =~= enc_token_balance(t@));
    }
    out
}

/// Deserializes a balance snapshot; trailing bytes are ignored.
pub fn decode_token_balance(buf: &Vec<u8>) -> (r: Option<TokenBalance>)
    ensures
        match (r, p_token_balance(buf@, 0)) {
            (Some(t), Some((v, j))) => t@ == v,
            (None, None) => true,
            _ => false,
        },
{
    let pos: usize = 0;
    let (owner, pos) = match read_key(buf, pos) {
        Some(x) => x,
        None => { return None; },
    };
    let (token, pos) = match read_key(buf, pos) {
        Some(x) => x,
        None => { return None; },
    };
    let (amount, pos) = match read_u64(buf, pos) {
        Some(x) => x,
        None => { return None; },
    };
    let (last_updated, _pos) = match read_u64(buf, pos) {
        Some(x) => x,
        None => { return None; },
    };
    Some(TokenBalance { owner, token, amount, last_updated })
}

// ---------------------------------------------------------------------------
// Instruction payloads

/// Mathematical view of an instruction payload.
pub ghost enum PollInstructionV {
    CreatePoll {
        title: Seq<u8>,
        description: Seq<u8>,
        options: Seq<Seq<u8>>,
        start_time: u64,
        end_time: u64,
        is_private: bool,
        allow_revote: bool,
        is_weighted: bool,
        allow_delegation: bool,
        is_encrypted: bool,
        weight_token: Option<Seq<u8>>,
        early_voter_bonus: u8,
        tx_hex: Seq<u8>,
    },
    CancelPoll { poll_id: u64, tx_hex: Seq<u8> },
    CastVote {
        poll_id: u64,
        option_index: u8,
        weight: Option<u64>,
        encrypted_data: Option<Seq<u8>>,
        zk_proof: Option<Seq<u8>>,
        nonce: Option<Seq<u8>>,
        tx_hex: Seq<u8>,
    },
    ChangeVote {
        poll_id: u64,
        new_option_index: u8,
        new_encrypted_data: Option<Seq<u8>>,
        new_zk_proof: Option<Seq<u8>>,
        new_nonce: Option<Seq<u8>>,
        tx_hex: Seq<u8>,
    },
    ClosePoll { poll_id: u64, tx_hex: Seq<u8> },
    GetResults { poll_id: u64 },
    DecryptResults { poll_id: u64, decryption_key: Seq<u8>, tx_hex: Seq<u8> },
    DelegateVote { poll_id: Option<u64>, expiration: Option<u64>, tx_hex: Seq<u8> },
    RevokeDelegation { delegation_id: u64, tx_hex: Seq<u8> },
    UpdateTokenBalance { token: Seq<u8>, amount: u64, tx_hex: Seq<u8> },
}

impl View for PollInstruction {
    type V = PollInstructionV;

    open spec fn view(&self) -> PollInstructionV {
        match self {
            PollInstruction::CreatePoll {
                title,
                description,
                options,
                start_time,
                end_time,
                is_private,
                allow_revote,
                is_weighted,
                allow_delegation,
                is_encrypted,
                weight_token,
                early_voter_bonus,
                tx_hex,
            } => PollInstructionV::CreatePoll {
                title: title@,
                description: description@,
                options: options@.map_values(|o: Vec<u8>| o@),
                start_time: *start_time,
                end_time: *end_time,
                is_private: *is_private,
                allow_revote: *allow_revote,
                is_weighted: *is_weighted,
                allow_delegation: *allow_delegation,
                is_encrypted: *is_encrypted,
                weight_token: crate::entities::opt_key_view(*weight_token),
                early_voter_bonus: *early_voter_bonus,
                tx_hex: tx_hex@,
            },
            PollInstruction::CancelPoll { poll_id, tx_hex } => PollInstructionV::CancelPoll {
                poll_id: *poll_id,
                tx_hex: tx_hex@,
            },
            PollInstruction::CastVote {
                poll_id,
                option_index,
                weight,
                encrypted_data,
                zk_proof,
                nonce,
                tx_hex,
            } => PollInstructionV::CastVote {
                poll_id: *poll_id,
                option_index: *option_index,
                weight: *weight,
                encrypted_data: crate::entities::opt_bytes_view(*encrypted_data),
                zk_proof: crate::entities::opt_bytes_view(*zk_proof),
                nonce: crate::entities::opt_bytes_view(*nonce),
                tx_hex: tx_hex@,
            },
            PollInstruction::ChangeVote {
                poll_id,
                new_option_index,
                new_encrypted_data,
                new_zk_proof,
                new_nonce,
                tx_hex,
            } => PollInstructionV::ChangeVote {
                poll_id: *poll_id,
                new_option_index: *new_option_index,
                new_encrypted_data: crate::entities::opt_bytes_view(*new_encrypted_data),
                new_zk_proof: crate::entities::opt_bytes_view(*new_zk_proof),
                new_nonce: crate::entities::opt_bytes_view(*new_nonce),
                tx_hex: tx_hex@,
            },
            PollInstruction::ClosePoll { poll_id, tx_hex } => PollInstructionV::ClosePoll {
                poll_id: *poll_id,
                tx_hex: tx_hex@,
            },
            PollInstruction::GetResults { poll_id } => PollInstructionV::GetResults {
                poll_id: *poll_id,
            },
            PollInstruction::DecryptResults {
                poll_id,
                decryption_key,
                tx_hex,
            } => PollInstructionV::DecryptResults {
                poll_id: *poll_id,
                decryption_key: decryption_key@,
                tx_hex: tx_hex@,
            },
            PollInstruction::DelegateVote {
                poll_id,
                expiration,
                tx_hex,
            } => PollInstructionV::DelegateVote {
                poll_id: *poll_id,
                expiration: *expiration,
                tx_hex: tx_hex@,
            },
            PollInstruction::RevokeDelegation {
                delegation_id,
                tx_hex,
            } => PollInstructionV::RevokeDelegation {
                delegation_id: *delegation_id,
                tx_hex: tx_hex@,
            },
            PollInstruction::UpdateTokenBalance {
                token,
                amount,
                tx_hex,
            } => PollInstructionV::UpdateTokenBalance {
                token: token@,
                amount: *amount,
                tx_hex: tx_hex@,
            },
        }
    }
}

/// Parses an instruction payload: a one-byte variant tag in declaration
/// order, the variant's fields, and nothing after them — an instruction
/// with trailing bytes is malformed.
pub open spec fn p_instruction(b: Seq<u8>) -> Option<PollInstructionV> {
    match p_u8(b, 0) {
        None => None,
        Some((tag, i)) => {
            let parsed: Option<(PollInstructionV, int)> = if tag == 0 {
                match p_bytes(b, i) {
                    None => None,
                    Some((title, i)) => match p_bytes(b, i) {
                        None => None,
                        Some((description, i)) => match p_vec_bytes(b, i) {
                            None => None,
                            Some((options, i)) => match p_u64(b, i) {
                                None => None,
                                Some((start_time, i)) => match p_u64(b, i) {
                                    None => None,
                                    Some((end_time, i)) => match p_bool(b, i) {
                                        None => None,
                                        Some((is_private, i)) => match p_bool(b, i) {
                                            None => None,
                                            Some((allow_revote, i)) => match p_bool(b, i) {
                                                None => None,
                                                Some((is_weighted, i)) => match p_bool(b, i) {
                                                    None => None,
                                                    Some((allow_delegation, i)) => match p_bool(
                                                        b,
                                                        i,
                                                    ) {
                                                        None => None,
                                                        Some((is_encrypted, i)) => match p_opt_key(
                                                            b,
                                                            i,
                                                        ) {
                                                            None => None,
                                                            Some((weight_token, i)) => match p_u8(
                                                                b,
                                                                i,
                                                            ) {
                                                                None => None,
                                                                Some(
                                                                    (early_voter_bonus, i),
                                                                ) => match p_bytes(b, i) {
                                                                    None => None,
                                                                    Some((tx_hex, i)) => Some(
                                                                        (
                                                                            PollInstructionV::CreatePoll {
                                                                                title,
                                                                                description,
                                                                                options,
                                                                                start_time,
                                                                                end_time,
                                                                                is_private,
                                                                                allow_revote,
                                                                                is_weighted,
                                                                                allow_delegation,
                                                                                is_encrypted,
                                                                                weight_token,
                                                                                early_voter_bonus,
                                                                                tx_hex,
                                                                            },
                                                                            i,
                                                                        ),
                                                                    ),
                                                                },
                                                            },
                                                        },
                                                    },
                                                },
                                            },
                                        },
                                    },
                                },
                            },
                        },
                    },
                }
            } else if tag == 1 {
                match p_u64(b, i) {
                    None => None,
                    Some((poll_id, i)) => match p_bytes(b, i) {
                        None => None,
                        Some((tx_hex, i)) => Some(
                            (PollInstructionV::CancelPoll { poll_id, tx_hex }, i),
                        ),
                    },
                }
            } else if tag == 2 {
                match p_u64(b, i) {
                    None => None,
                    Some((poll_id, i)) => match p_u8(b, i) {
                        None => None,
                        Some((option_index, i)) => match p_opt_u64(b, i) {
                            None => None,
                            Some((weight, i)) => match p_opt_bytes(b, i) {
                                None => None,
                                Some((encrypted_data, i)) => match p_opt_bytes(b, i) {
                                    None => None,
                                    Some((zk_proof, i)) => match p_opt_bytes(b, i) {
                                        None => None,
                                        Some((nonce, i)) => match p_bytes(b, i) {
                                            None => None,
                                            Some((tx_hex, i)) => Some(
                                                (
                                                    PollInstructionV::CastVote {
                                                        poll_id,
                                                        option_index,
                                                        weight,
                                                        encrypted_data,
                                                        zk_proof,
                                                        nonce,
                                                        tx_hex,
                                                    },
                                                    i,
                                                ),
                                            ),
                                        },
                                    },
                                },
                            },
                        },
                    },
                }
            } else if tag == 3 {
                match p_u64(b, i) {
                    None => None,
                    Some((poll_id, i)) => match p_u8(b, i) {
                        None => None,
                        Some((new_option_index, i)) => match p_opt_bytes(b, i) {
                            None => None,
                            Some((new_encrypted_data, i)) => match p_opt_bytes(b, i) {
                                None => None,
                                Some((new_zk_proof, i)) => match p_opt_bytes(b, i) {
                                    None => None,
                                    Some((new_nonce, i)) => match p_bytes(b, i) {
                                        None => None,
                                        Some((tx_hex, i)) => Some(
                                            (
                                                PollInstructionV::ChangeVote {
                                                    poll_id,
                                                    new_option_index,
                                                    new_encrypted_data,
                                                    new_zk_proof,
                                                    new_nonce,
                                                    tx_hex,
                                                },
                                                i,
                                            ),
                                        ),
                                    },
                                },
                            },
                        },
                    },
                }
            } else if tag == 4 {
                match p_u64(b, i) {
                    None => None,
                    Some((poll_id, i)) => match p_bytes(b, i) {
                        None => None,
                        Some((tx_hex, i)) => Some(
                            (PollInstructionV::ClosePoll { poll_id, tx_hex }, i),
                        ),
                    },
                }
            } else if tag == 5 {
                match p_u64(b, i) {
                    None => None,
                    Some((poll_id, i)) => Some((PollInstructionV::GetResults { poll_id }, i)),
                }
            } else if tag == 6 {
                match p_u64(b, i) {
                    None => None,
                    Some((poll_id, i)) => match p_bytes(b, i) {
                        None => None,
                        Some((decryption_key, i)) => match p_bytes(b, i) {
                            None => None,
                            Some((tx_hex, i)) => Some(
                                (
                                    PollInstructionV::DecryptResults {
                                        poll_id,
                                        decryption_key,
                                        tx_hex,
                                    },
                                    i,
                                ),
                            ),
                        },
                    },
                }
            } else if tag == 7 {
                match p_opt_u64(b, i) {
                    None => None,
                    Some((poll_id, i)) => match p_opt_u64(b, i) {
                        None => None,
                        Some((expiration, i)) => match p_bytes(b, i) {
                            None => None,
                            Some((tx_hex, i)) => Some(
                                (
                                    PollInstructionV::DelegateVote {
                                        poll_id,
                                        expiration,
                                        tx_hex,
                                    },
                                    i,
                                ),
                            ),
                        },
                    },
                }
            } else if tag == 8 {
                match p_u64(b, i) {
                    None => None,
                    Some((delegation_id, i)) => match p_bytes(b, i) {
                        None => None,
                        Some((tx_hex, i)) => Some(
                            (PollInstructionV::RevokeDelegation { delegation_id, tx_hex }, i),
                        ),
                    },
                }
            } else if tag == 9 {
                match p_key(b, i) {
                    None => None,
                    Some((token, i)) => match p_u64(b, i) {
                        None => None,
                        Some((amount, i)) => match p_bytes(b, i) {
                            None => None,
                            Some((tx_hex, i)) => Some(
                                (PollInstructionV::UpdateTokenBalance { token, amount, tx_hex }, i),
                            ),
                        },
                    },
                }
            } else {
                None
            };
            match parsed {
                None => None,
                Some((instr, end)) => if end == b.len() {
                    Some(instr)
                } else {
                    None
                },
            }
        },
    }
}

/// Decodes an instruction payload; trailing bytes are rejected.
pub fn decode_instruction(buf: &Vec<u8>) -> (r: Option<PollInstruction>)
    ensures
        match (r, p_instruction(buf@)) {
            (Some(instr), Some(v)) => instr@ == v,
            (None, None) => true,
            _ => false,
        },
{
    let (tag, pos) = match read_u8(buf, 0) {
        Some(x) => x,
        None => { return None; },
    };
    let end: usize;
    let instr: PollInstruction;
    if tag == 0 {
        let (title, pos) = match read_bytes(buf, pos) {
            Some(x) => x,
            None => { return None; },
        };
        let (description, pos) = match read_bytes(buf, pos) {
            Some(x) => x,
            None => { return None; },
        };
        let (options, pos) = match read_vec_bytes(buf, pos) {
            Some(x) => x,
            None => { return None; },
        };
        let (start_time, pos) = match read_u64(buf, pos) {
            Some(x) => x,
            None => { return None; },
        };
        let (end_time, pos) = match read_u64(buf, pos) {
            Some(x) => x,
            None => { return None; },
        };
        let (is_private, pos) = match read_bool(buf, pos) {
            Some(x) => x,
            None => { return None; },
        };
        let (allow_revote, pos) = match read_bool(buf, pos) {
            Some(x) => x,
            None => { return None; },
        };
        let (is_weighted, pos) = match read_bool(buf, pos) {
            Some(x) => x,
            None => { return None; },
        };
        let (allow_delegation, pos) = match read_bool(buf, pos) {
            Some(x) => x,
            None => { return None; },
        };
        let (is_encrypted, pos) = match read_bool(buf, pos) {
            Some(x) => x,
            None => { return None; },
        };
        let (weight_token, pos) = match read_opt_key(buf, pos) {
            Some(x) => x,
            None => { return None; },
        };
        let (early_voter_bonus, pos) = match read_u8(buf, pos) {
            Some(x) => x,
            None => { return None; },
        };
        let (tx_hex, pos) = match read_bytes(buf, pos) {
            Some(x) => x,
            None => { return None; },
        };
        proof {
            assert(deep_bytes(options@) =~= options@.map_values(|o: Vec<u8>| o@));
        }
        instr = PollInstruction::CreatePoll {
            title,
            description,
            options,
            start_time,
            end_time,
            is_private,
            allow_revote,
            is_weighted,
            allow_delegation,
            is_encrypted,
            weight_token,
            early_voter_bonus,
            tx_hex,
        };
        end = pos;
    } else if tag == 1 {
        let (poll_id, pos) = match read_u64(buf, pos) {
            Some(x) => x,
            None => { return None; },
        };
        let (tx_hex, pos) = match read_bytes(buf, pos) {
            Some(x) => x,
            None => { return None; },
        };
        instr = PollInstruction::CancelPoll { poll_id, tx_hex };
        end = pos;
    } else if tag == 2 {
        let (poll_id, pos) = match read_u64(buf, pos) {
            Some(x) => x,
            None => { return None; },
        };
        let (option_index, pos) = match read_u8(buf, pos) {
            Some(x) => x,
            None => { return None; },
        };
        let (weight, pos) = match read_opt_u64(buf, pos) {
            Some(x) => x,
            None => { return None; },
        };
        let (encrypted_data, pos) = match read_opt_bytes(buf, pos) {
            Some(x) => x,
            None => { return None; },
        };
        let (zk_proof, pos) = match read_opt_bytes(buf, pos) {
            Some(x) => x,
            None => { return None; },
        };
        let (nonce, pos) = match read_opt_bytes(buf, pos) {
            Some(x) => x,
            None => { return None; },
        };
        let (tx_hex, pos) = match read_bytes(buf, pos) {
            Some(x) => x,
            None => { return None; },
        };
        instr = PollInstruction::CastVote {
            poll_id,
            option_index,
            weight,
            encrypted_data,
            zk_proof,
            nonce,
            tx_hex,
        };
        end = pos;
    } else if tag == 3 {
        let (poll_id, pos) = match read_u64(buf, pos) {
            Some(x) => x,
            None => { return None; },
        };
        let (new_option_index, pos) = match read_u8(buf, pos) {
            Some(x) => x,
            None => { return None; },
        };
        let (new_encrypted_data, pos) = match read_opt_bytes(buf, pos) {
            Some(x) => x,
            None => { return None; },
        };
        let (new_zk_proof, pos) = match read_opt_bytes(buf, pos) {
            Some(x) => x,
            None => { return None; },
        };
        let (new_nonce, pos) = match read_opt_bytes(buf, pos) {
            Some(x) => x,
            None => { return None; },
        };
        let (tx_hex, pos) = match read_bytes(buf, pos) {
            Some(x) => x,
            None => { return None; },
        };
        instr = PollInstruction::ChangeVote {
            poll_id,
            new_option_index,
            new_encrypted_data,
            new_zk_proof,
            new_nonce,
            tx_hex,
        };
        end = pos;
    } else if tag == 4 {
        let (poll_id, pos) = match read_u64(buf, pos) {
            Some(x) => x,
            None => { return None; },
        };
        let (tx_hex, pos) = match read_bytes(buf, pos) {
            Some(x) => x,
            None => { return None; },
        };
        instr = PollInstruction::ClosePoll { poll_id, tx_hex };
        end = pos;
    } else if tag == 5 {
        let (poll_id, pos) = match read_u64(buf, pos) {
            Some(x) => x,
            None => { return None; },
        };
        instr = PollInstruction::GetResults { poll_id };
        end = pos;
    } else if tag == 6 {
        let (poll_id, pos) = match read_u64(buf, pos) {
            Some(x) => x,
            None => { return None; },
        };
        let (decryption_key, pos) = match read_bytes(buf, pos) {
            Some(x) => x,
            None => { return None; },
        };
        let (tx_hex, pos) = match read_bytes(buf, pos) {
            Some(x) => x,
            None => { return None; },
        };
        instr = PollInstruction::DecryptResults { poll_id, decryption_key, tx_hex };
        end = pos;
    } else if tag == 7 {
        let (poll_id, pos) = match read_opt_u64(buf, pos) {
            Some(x) => x,
            None => { return None; },
        };
        let (expiration, pos) = match read_opt_u64(buf, pos) {
            Some(x) => x,
            None => { return None; },
        };
        let (tx_hex, pos) = match read_bytes(buf, pos) {
            Some(x) => x,
            None => { return None; },
        };
        instr = PollInstruction::DelegateVote { poll_id, expiration, tx_hex };
        end = pos;
    } else if tag == 8 {
        let (delegation_id, pos) = match read_u64(buf, pos) {
            Some(x) => x,
            None => { return None; },
        };
        let (tx_hex, pos) = match read_bytes(buf, pos) {
            Some(x) => x,
            None => { return None; },
        };
        instr = PollInstruction::RevokeDelegation { delegation_id, tx_hex };
        end = pos;
    } else if tag == 9 {
        let (token, pos) = match read_key(buf, pos) {
            Some(x) => x,
            None => { return None; },
        };
        let (amount, pos) = match read_u64(buf, pos) {
            Some(x) => x,
            None => { return None; },
        };
        let (tx_hex, pos) = match read_bytes(buf, pos) {
            Some(x) => x,
            None => { return None; },
        };
        instr = PollInstruction::UpdateTokenBalance { token, amount, tx_hex };
        end = pos;
    } else {
        return None;
    }
    if end == buf.len() {
        Some(instr)
    } else {
        None
    }
}

} // verus!
