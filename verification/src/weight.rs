//! The weight resolver.
//!
//! A weighted ballot counts for the voter's token balance, raised by the
//! time-decaying early-voter bonus: with bonus `B` percent and a poll that
//! has run `elapsed` of its `duration`, the effective weight is
//! `ceil(amount * (1 + (B/100) * (1 - elapsed/duration)))`.  The arithmetic
//! here is exact rational arithmetic over integers; the result is clamped to
//! `u64::MAX` when the mathematical value exceeds it.

use vstd::arithmetic::div_mod::lemma_div_is_ordered;
use vstd::arithmetic::div_mod::lemma_div_pos_is_pos;
use vstd::arithmetic::div_mod::lemma_fundamental_div_mod;
use vstd::arithmetic::div_mod::lemma_fundamental_div_mod_converse;
use vstd::prelude::*;

verus! {

/// Ceiling division of a nonnegative dividend by a positive divisor.
pub open spec fn ceil_div(a: int, b: int) -> int {
    (a + b - 1) / b
}

/// The exact effective weight of a ballot: the token amount plus the
/// early-voter bonus share, rounded up.  Without a bonus, without a running
/// window, or at (or past) the end of the window, the weight is the amount
/// itself.
pub open spec fn effective_weight_math(amount: u64, bonus: u8, elapsed: u64, duration: u64) -> int {
    if bonus == 0 || duration == 0 || elapsed >= duration {
        amount as int
    } else {
        amount + ceil_div(
            (amount as int) * (bonus as int) * (duration - elapsed),
            100 * (duration as int),
        )
    }
}

/// The effective weight as stored on a ballot: the exact value, clamped to
/// the largest representable weight.
pub open spec fn effective_weight_spec(amount: u64, bonus: u8, elapsed: u64, duration: u64) -> u64 {
    if effective_weight_math(amount, bonus, elapsed, duration) > u64::MAX {
        u64::MAX
    } else {
        effective_weight_math(amount, bonus, elapsed, duration) as u64
    }
}

proof fn lemma_mul_le(a: int, b: int, c: int, d: int)
    by (nonlinear_arith)
    requires
        0 <= a <= c,
        0 <= b <= d,
    ensures
        a * b <= c * d,
{
}

/// Ceiling division splits over a multiple of the divisor plus a remainder
/// below twice the divisor.
proof fn lemma_ceil_div_decompose(q: int, rem: int, den: int)
    requires
        den > 0,
        0 <= rem < 2 * den,
    ensures
        ceil_div(q * den + rem, den) == q + if rem == 0 {
            0int
        } else if rem <= den {
            1int
        } else {
            2int
        },
{
    let x = q * den + rem + den - 1;
    if rem == 0 {
        assert(x == q * den + (den - 1)) by (nonlinear_arith)
            requires
                x == q * den + rem + den - 1,
                rem == 0,
        ;
        lemma_fundamental_div_mod_converse(x, den, q, den - 1);
    } else if rem <= den {
        assert(x == (q + 1) * den + (rem - 1)) by (nonlinear_arith)
            requires
                x == q * den + rem + den - 1,
        ;
        lemma_fundamental_div_mod_converse(x, den, q + 1, rem - 1);
    } else {
        assert(x == (q + 2) * den + (rem - den - 1)) by (nonlinear_arith)
            requires
                x == q * den + rem + den - 1,
        ;
        lemma_fundamental_div_mod_converse(x, den, q + 2, rem - den - 1);
    }
}

/// Scaling both dividend and divisor by the same positive factor does not
/// change a ceiling division.
proof fn lemma_ceil_div_scale(a: int, d: int)
    requires
        0 <= a,
        0 < d,
    ensures
        ceil_div(a * d, 100 * d) == ceil_div(a, 100),
{
    let q = ceil_div(a, 100);
    lemma_fundamental_div_mod(a + 99, 100);
    let s = (a + 99) % 100;
    assert(a + 99 == 100 * q + s);
    let x = a * d + 100 * d - 1;
    let r = d * (s - 99) + 100 * d - 1;
    assert(x == q * (100 * d) + r) by (nonlinear_arith)
        requires
            x == a * d + 100 * d - 1,
            r == d * (s - 99) + 100 * d - 1,
            a + 99 == 100 * q + s,
    ;
    assert(0 <= r < 100 * d) by (nonlinear_arith)
        requires
            r == d * (s - 99) + 100 * d - 1,
            0 <= s < 100,
            0 < d,
    ;
    lemma_fundamental_div_mod_converse(x, 100 * d, q, r);
}

/// Computes the effective weight of a weighted ballot.
pub fn effective_weight(amount: u64, bonus: u8, elapsed: u64, duration: u64) -> (w: u64)
    ensures
        w == effective_weight_spec(amount, bonus, elapsed, duration),
{
    if bonus == 0 || duration == 0 || elapsed >= duration {
        return amount;
    }
    let de: u64 = duration - elapsed;
    proof {
        lemma_mul_le(amount as int, bonus as int, u64::MAX as int, 255);
        lemma_mul_le(100, duration as int, 100, u64::MAX as int);
    }
    let t: u128 = (amount as u128) * (bonus as u128);
    let den: u128 = 100u128 * (duration as u128);
    let k: u128 = t / den;
    let m: u128 = t % den;
    proof {
        lemma_fundamental_div_mod(t as int, den as int);
        // k * de stays below t because k * den does.
        assert(k * de <= k * den) by (nonlinear_arith)
            requires
                0 <= k,
                0 < de <= den,
        ;
        assert(k * den <= t) by (nonlinear_arith)
            requires
                t == den * k + m,
                0 <= m,
        ;
    }
    let kd: u128 = k * (de as u128);
    let m1: u128 = m / 100;
    let m0: u128 = m % 100;
    proof {
        // m1 is below the duration, so m1 * de fits comfortably.
        lemma_div_is_ordered(m as int, den as int - 1, 100);
        lemma_fundamental_div_mod_converse(den as int - 1, 100, duration as int - 1, 99);
        lemma_mul_le(m1 as int, de as int, u64::MAX as int, u64::MAX as int);
    }
    let a: u128 = m1 * (de as u128);
    let aq: u128 = a / (duration as u128);
    let ar: u128 = a % (duration as u128);
    proof {
        lemma_fundamental_div_mod(a as int, duration as int);
        lemma_mul_le(m0 as int, de as int, 99, u64::MAX as int);
    }
    let rem: u128 = 100u128 * ar + m0 * (de as u128);
    proof {
        assert(rem < 2 * den) by (nonlinear_arith)
            requires
                rem == 100 * ar + m0 * de,
                ar < duration,
                m0 < 100,
                0 < de <= duration,
                den == 100 * duration,
        ;
        // aq never exceeds m1, because a == m1 * de <= m1 * duration.
        assert(a <= m1 * duration) by (nonlinear_arith)
            requires
                a == m1 * de,
                0 <= m1,
                0 < de <= duration,
        ;
        lemma_div_is_ordered(a as int, (m1 * duration) as int, duration as int);
        lemma_fundamental_div_mod_converse((m1 * duration) as int, duration as int, m1 as int, 0);
    }
    let frac: u128 = (rem + den - 1) / den;
    let addq: u128 = kd + aq + frac;
    let total: u128 = (amount as u128) + addq;
    proof {
        let ai = amount as int;
        let bi = bonus as int;
        let di = duration as int;
        let dei = de as int;
        let capital = ai * bi * dei;
        assert(capital == (den as int) * ((kd as int) + aq) + rem) by (nonlinear_arith)
            requires
                t == den * k + m,
                m == 100 * m1 + m0,
                a == m1 * dei,
                a == di * aq + ar,
                rem == 100 * ar + m0 * dei,
                den == 100 * di,
                kd == k * dei,
                t == ai * bi,
                capital == ai * bi * dei,
        ;
        lemma_ceil_div_decompose((kd + aq) as int, rem as int, den as int);
        lemma_ceil_div_decompose(0, rem as int, den as int);
        assert(frac == ceil_div(rem as int, den as int));
        assert(addq == ceil_div(capital, den as int));
        assert(total == effective_weight_math(amount, bonus, elapsed, duration));
    }
    if total > 0xFFFF_FFFF_FFFF_FFFFu128 {
        u64::MAX
    } else {
        total as u64
    }
}

/// **Bonus bounds.**  For any elapsed/duration ratio within the poll window,
/// the effective weight lies between the plain amount (multiplier 1) and the
/// amount raised by the full bonus (multiplier `1 + bonus/100`); at the end
/// of the window the multiplier is exactly 1, and at its start exactly
/// `1 + bonus/100`.
/// **Bonus decay.**  The effective weight never grows as the poll
/// progresses: a later ballot weighs no more than an earlier one.
pub proof fn lemma_bonus_monotone(amount: u64, bonus: u8, e1: u64, e2: u64, duration: u64)
    requires
        e1 <= e2 <= duration,
    ensures
        effective_weight_math(amount, bonus, e2, duration) <= effective_weight_math(
            amount,
            bonus,
            e1,
            duration,
        ),
{
    let ai = amount as int;
    let bi = bonus as int;
    let di = duration as int;
    if !(bonus == 0 || duration == 0) {
        let den = 100 * di;
        if e2 < duration {
            assert(0 <= ai * bi * (di - e2) <= ai * bi * (di - e1)) by (nonlinear_arith)
                requires
                    0 <= ai,
                    0 <= bi,
                    0 <= di - e2 <= di - e1,
            ;
            lemma_div_is_ordered(ai * bi * (di - e2) + den - 1, ai * bi * (di - e1) + den - 1, den);
        } else {
            // At (or past) the end the weight is the plain amount, which the
            // lower bonus bound covers.
            lemma_bonus_bounds(amount, bonus, e1, duration);
        }
    }
}

pub proof fn lemma_bonus_bounds(amount: u64, bonus: u8, elapsed: u64, duration: u64)
    requires
        elapsed <= duration,
    ensures
        amount <= effective_weight_math(amount, bonus, elapsed, duration),
        effective_weight_math(amount, bonus, elapsed, duration) <= amount + ceil_div(
            (amount as int) * (bonus as int),
            100,
        ),
        elapsed == duration ==> effective_weight_math(amount, bonus, elapsed, duration) == amount,
        elapsed == 0 && duration > 0 && bonus > 0 ==> effective_weight_math(
            amount,
            bonus,
            elapsed,
            duration,
        ) == amount + ceil_div((amount as int) * (bonus as int), 100),
{
    let ai = amount as int;
    let bi = bonus as int;
    let di = duration as int;
    assert(0 <= ai * bi) by (nonlinear_arith)
        requires
            0 <= ai,
            0 <= bi,
    ;
    lemma_div_pos_is_pos(ai * bi + 99, 100);
    if !(bonus == 0 || duration == 0 || elapsed >= duration) {
        let dei = di - elapsed;
        let n = ai * bi * dei;
        let den = 100 * di;
        assert(0 <= n <= ai * bi * di) by (nonlinear_arith)
            requires
                0 <= ai * bi,
                0 < dei <= di,
                n == ai * bi * dei,
        ;
        lemma_div_pos_is_pos(n + den - 1, den);
        lemma_div_is_ordered(n + den - 1, ai * bi * di + den - 1, den);
        lemma_ceil_div_scale(ai * bi, di);
        if elapsed == 0 {
            assert(n == ai * bi * di);
        }
    }
}

} // verus!
