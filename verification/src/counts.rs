//! Rounding of binary64 values to whole numbers, as electron counts need it.

use crate::binary64::{Real, INFINITY_BITS, SIGNIFICAND_RANGE, SIGN_BIT};
use vstd::arithmetic::div_mod::{
    lemma_div_multiples_vanish_quotient, lemma_fundamental_div_mod,
    lemma_fundamental_div_mod_converse,
};
use vstd::arithmetic::power2::{
    lemma2_to64, lemma2_to64_rest, lemma_pow2_adds, lemma_pow2_pos, lemma_pow2_strictly_increases,
    lemma_pow2_unfold, pow2,
};
use vstd::prelude::*;

verus! {

/// The number one in units of the smallest subnormal number.
pub open spec fn unit() -> int {
    pow2(1074) as int
}

/// A non-negative number divided by `parts` and rounded to the nearest whole number, halves
/// upwards.
pub open spec fn nearest(x: Real, parts: int) -> int {
    (2 * x.scaled() + parts * unit()) / (2 * parts * unit())
}

/// A number divided by `parts` and rounded to a count: numbers below zero and NaNs count as
/// zero, and counts that are too large as the largest.
pub open spec fn count_of(x: Real, parts: int) -> int {
    if x.nan() || x.bits >= SIGN_BIT {
        0
    } else if !x.finite() || nearest(x, parts) > usize::MAX {
        usize::MAX as int
    } else {
        nearest(x, parts)
    }
}

/// Two to a power below 64.
fn power_of_two(e: u64) -> (p: u128)
    requires
        e < 64,
    ensures
        p == pow2(e as nat),
        p < 0x1_0000_0000_0000_0000,
{
    let mut p: u128 = 1;
    let mut i: u64 = 0;
    proof {
        lemma2_to64();
    }
    while i < e
        invariant
            i <= e < 64,
            p == pow2(i as nat),
        decreases e - i,
    {
        proof {
            lemma_pow2_unfold((i + 1) as nat);
            lemma2_to64();
            lemma2_to64_rest();
            lemma_pow2_strictly_increases(i as nat, 64);
        }
        p = p * 2;
        i += 1;
    }
    proof {
        lemma2_to64();
        lemma2_to64_rest();
        lemma_pow2_strictly_increases(e as nat, 64);
    }
    p
}

/// With significand `m`, exponent `e` and `t` one more than the exponent of the rounding
/// unit: fractions of the unit are rounded.
proof fn lemma_nearest_fraction(m: int, e: nat, t: nat)
    requires
        0 <= m,
        e < t,
    ensures
        (m * pow2(e) + pow2((t - 1) as nat)) / pow2(t) as int == (m + pow2((t - e - 1) as nat))
            / pow2((t - e) as nat) as int,
{
    let s = (t - e) as nat;
    lemma_pow2_adds(e, s);
    lemma_pow2_adds(e, (s - 1) as nat);
    lemma_pow2_pos(e);
    lemma_pow2_pos(s);
    lemma_pow2_pos((s - 1) as nat);
    assert(e + s == t && e + (s - 1) as nat == (t - 1) as nat);
    let (p, q, r) = (pow2(e) as int, pow2(s) as int, pow2((s - 1) as nat) as int);
    assert(m * p + p * r == p * (m + r)) by (nonlinear_arith);
    lemma_div_multiples_vanish_quotient(p, m + r, q);
}

/// Whole multiples of the unit stay as they are.
proof fn lemma_nearest_whole(m: int, e: nat, t: nat)
    requires
        0 <= m,
        1 <= t <= e,
    ensures
        (m * pow2(e) + pow2((t - 1) as nat)) / pow2(t) as int == m * pow2((e - t) as nat),
{
    lemma_pow2_adds((e - t) as nat, t);
    lemma_pow2_unfold(t);
    lemma_pow2_pos((t - 1) as nat);
    let (p, q) = (pow2((e - t) as nat) as int, pow2(t) as int);
    assert((e - t) as nat + t == e);
    assert(m * (p * q) == (m * p) * q) by (nonlinear_arith);
    lemma_fundamental_div_mod_converse(
        m * pow2(e) + pow2((t - 1) as nat),
        q,
        m * p,
        pow2((t - 1) as nat) as int,
    );
}

/// The nearest count over powers of two.
proof fn lemma_nearest(x: Real, parts: int, t: nat)
    requires
        x.finite(),
        x.bits < SIGN_BIT,
        parts == 1 && t == 1075 || parts == 2 && t == 1076,
    ensures
        ({
            let e = x.magnitude() / SIGNIFICAND_RANGE as int;
            let f = x.magnitude() % SIGNIFICAND_RANGE as int;
            &&& e >= 1 ==> nearest(x, parts) == ((SIGNIFICAND_RANGE + f) * pow2(e as nat) + pow2(
                (t - 1) as nat,
            )) / pow2(t) as int
            &&& e == 0 ==> nearest(x, parts) == 0
        }),
{
    let e = x.magnitude() / SIGNIFICAND_RANGE as int;
    let f = x.magnitude() % SIGNIFICAND_RANGE as int;
    assert(x.magnitude() == e * SIGNIFICAND_RANGE + f && 0 <= f < SIGNIFICAND_RANGE && e >= 0);
    lemma_pow2_unfold(1075);
    lemma_pow2_unfold(1076);
    lemma_pow2_pos(1074);
    let u = unit();
    if parts == 1 {
        assert(2 * parts * u == 2 * u && parts * u == u) by (nonlinear_arith)
            requires
                parts == 1,
        ;
    } else {
        assert(2 * parts * u == 4 * u && parts * u == 2 * u) by (nonlinear_arith)
            requires
                parts == 2,
        ;
    }
    assert(pow2(t) == 2 * parts * u && pow2((t - 1) as nat) == parts * u);
    if e >= 1 {
        lemma_pow2_unfold(e as nat);
        let (m, p) = (SIGNIFICAND_RANGE + f, pow2((e - 1) as nat) as int);
        assert(2 * (m * p) == m * (2 * p)) by (nonlinear_arith);
    } else {
        lemma2_to64_rest();
        lemma_pow2_strictly_increases(53, 1074);
        assert(2 * f < u);
        assert(2 * parts * u == 2 * (parts * u)) by (nonlinear_arith);
        lemma_fundamental_div_mod_converse(
            2 * f + parts * unit(),
            2 * parts * unit(),
            0,
            2 * f + parts * unit(),
        );
    }
}

/// Rounds a number, or half of it, to a count.
pub fn rounded_count(x: Real, halved: bool) -> (n: usize)
    ensures
        n == count_of(x, if halved { 2 } else { 1 }),
{
    if x.is_nan() || x.bits >= SIGN_BIT {
        return 0;
    }
    if x.bits >= INFINITY_BITS {
        return usize::MAX;
    }
    let e: u64 = x.bits / SIGNIFICAND_RANGE;
    let m: u64 = SIGNIFICAND_RANGE + x.bits % SIGNIFICAND_RANGE;
    let t: u64 = if halved {
        1076
    } else {
        1075
    };
    let ghost parts: int = if halved { 2 } else { 1 };
    proof {
        lemma_nearest(x, parts, t as nat);
        lemma2_to64();
        lemma2_to64_rest();
    }
    if e == 0 {
        return 0;
    }
    if e < t {
        let s: u64 = t - e;
        proof {
            lemma_nearest_fraction(m as int, e as nat, t as nat);
            lemma_pow2_unfold(s as nat);
        }
        if s >= 64 {
            proof {
                if s > 64 {
                    lemma_pow2_strictly_increases(64, s as nat);
                }
                lemma_fundamental_div_mod_converse(
                    m + pow2((s - 1) as nat),
                    pow2(s as nat) as int,
                    0,
                    m + pow2((s - 1) as nat),
                );
            }
            return 0;
        }
        let half: u128 = power_of_two(s - 1);
        let whole: u128 = power_of_two(s);
        let r: u128 = (m as u128 + half) / whole;
        if r > usize::MAX as u128 {
            usize::MAX
        } else {
            r as usize
        }
    } else {
        let k: u64 = e - t;
        proof {
            lemma_nearest_whole(m as int, e as nat, t as nat);
            lemma_pow2_pos(k as nat);
        }
        if k >= 64 {
            proof {
                if k > 64 {
                    lemma_pow2_strictly_increases(64, k as nat);
                }
                let p = pow2(k as nat) as int;
                assert(m * p >= p) by (nonlinear_arith)
                    requires
                        m >= 1,
                        p >= 0,
                ;
            }
            return usize::MAX;
        }
        let p: u128 = power_of_two(k);
        assert(m * p <= 0x20_0000_0000_0000 * 0x1_0000_0000_0000_0000) by (nonlinear_arith)
            requires
                0 <= m <= 0x20_0000_0000_0000,
                0 <= p <= 0x1_0000_0000_0000_0000,
        ;
        let r: u128 = m as u128 * p;
        if r > usize::MAX as u128 {
            usize::MAX
        } else {
            r as usize
        }
    }
}

/// Two to the number of significant bits of a binary64 number.
pub const EXACT_RANGE: u128 = 0x20_0000_0000_0000;

/// The distance of neighbouring binary64 numbers around `x`, from a first guess on.
pub open spec fn spacing(x: int, guess: int) -> int
    decreases
            (if x < guess * EXACT_RANGE {
                0
            } else {
                x - guess * EXACT_RANGE + 1
            }),
    when guess > 0
{
    if x < guess * EXACT_RANGE {
        guess
    } else {
        spacing(x, 2 * guess)
    }
}

/// A whole number as the nearest binary64 number, ties to the even one.
pub open spec fn as_binary64(x: int) -> int {
    let u = spacing(x, 1);
    let (q, r) = (x / u, x % u);
    if 2 * r > u || (2 * r == u && q % 2 == 1) {
        (q + 1) * u
    } else {
        q * u
    }
}

/// Half of a whole number by way of binary64, rounded down.
pub fn half_count(x: usize) -> (h: usize)
    ensures
        h == as_binary64(x as int) / 2,
{
    let y: u128 = x as u128;
    let mut u: u128 = 1;
    while y >= u * EXACT_RANGE
        invariant
            y == x,
            1 <= u <= 0x1000,
            spacing(x as int, 1) == spacing(x as int, u as int),
        decreases 0x2000 - u,
    {
        assert(u < 0x800);
        u = 2 * u;
    }
    let (q, r): (u128, u128) = (y / u, y % u);
    proof {
        lemma_fundamental_div_mod(y as int, u as int);
        assert(q * u == u * q) by (nonlinear_arith);
        assert((q + 1) * u == q * u + u) by (nonlinear_arith);
        assert(0 <= q * u) by (nonlinear_arith)
            requires
                0 <= q,
                0 <= u,
        ;
    }
    let rounded: u128 = if 2 * r > u || (2 * r == u && q % 2 == 1) {
        (q + 1) * u
    } else {
        q * u
    };
    (rounded / 2) as usize
}

/// Whole numbers that binary64 holds exactly are halved exactly.
pub proof fn law_half_exact(x: int)
    requires
        0 <= x < EXACT_RANGE,
    ensures
        as_binary64(x) / 2 == x / 2,
{
    assert(spacing(x, 1) == 1);
    assert(x / 1 == x && x % 1 == 0);
}

/// A count is the whole number next to its share, with halves upwards: the share lies less than
/// one half above the count and no more than one half below.
pub proof fn law_count_is_nearest(x: Real, parts: int)
    requires
        x.finite(),
        x.bits < SIGN_BIT,
        parts > 0,
        count_of(x, parts) < usize::MAX,
    ensures
        ({
            let n = count_of(x, parts);
            let share = 2 * x.scaled();
            let one = parts * unit();
            (2 * n - 1) * one <= share < (2 * n + 1) * one
        }),
{
    lemma_pow2_pos(1074);
    let n = nearest(x, parts);
    let one = parts * unit();
    let share = 2 * x.scaled();
    assert(one > 0) by (nonlinear_arith)
        requires
            parts > 0,
            unit() > 0,
            one == parts * unit(),
    ;
    assert(2 * parts * unit() == 2 * one) by (nonlinear_arith)
        requires
            one == parts * unit(),
    ;
    let top = share + one;
    let d = 2 * one;
    lemma_fundamental_div_mod(top, d);
    assert(n == top / d);
    assert(d * n == 2 * n * one) by (nonlinear_arith)
        requires
            d == 2 * one,
    ;
    assert((2 * n - 1) * one == 2 * n * one - one) by (nonlinear_arith);
    assert((2 * n + 1) * one == 2 * n * one + one) by (nonlinear_arith);
    assert(0 <= top % d < d) by (nonlinear_arith)
        requires
            d > 0,
    ;
}

/// What is no number and what is negative counts as nothing, and infinity as the largest count.
pub proof fn law_count_limits(x: Real, parts: int)
    ensures
        x.nan() ==> count_of(x, parts) == 0,
        x.bits >= 0x8000_0000_0000_0000 ==> count_of(x, parts) == 0,
        x.bits == 0x7ff0_0000_0000_0000 ==> count_of(x, parts) == usize::MAX,
        count_of(x, parts) <= usize::MAX,
{
}

proof fn lemma_spacing(x: int, guess: int)
    requires
        0 <= x,
        guess > 0,
        guess == 1 || x >= guess * 0x10_0000_0000_0000,
    ensures
        ({
            let u = spacing(x, guess);
            &&& u >= guess
            &&& x < u * 0x20_0000_0000_0000
            &&& u == 1 || x >= u * 0x10_0000_0000_0000
        }),
    decreases
            (if x < guess * EXACT_RANGE {
                0
            } else {
                x - guess * EXACT_RANGE + 1
            }),
{
    if x >= guess * EXACT_RANGE {
        lemma_spacing(x, 2 * guess);
    }
}

/// A whole number as binary64 is a multiple of the distance of neighbouring numbers, which is one
/// as long as 53 bits suffice, and no more than half that distance away; of two as near, it is the
/// even multiple.
pub proof fn law_as_binary64(x: int)
    requires
        0 <= x,
    ensures
        ({
            let u = spacing(x, 1);
            let y = as_binary64(x);
            &&& u >= 1
            &&& x < u * 0x20_0000_0000_0000
            &&& u == 1 || x >= u * 0x10_0000_0000_0000
            &&& -u <= 2 * (y - x) <= u
            &&& exists|k: int| y == #[trigger] (k * u) && (2 * (y - x) == u || 2 * (x - y) == u ==> k
                % 2 == 0)
        }),
{
    lemma_spacing(x, 1);
    let u = spacing(x, 1);
    let (q, r) = (x / u, x % u);
    lemma_fundamental_div_mod(x, u);
    assert(u * q == q * u) by (nonlinear_arith);
    assert((q + 1) * u == q * u + u) by (nonlinear_arith);
    assert(0 <= r < u);
    let k = if 2 * r > u || (2 * r == u && q % 2 == 1) { q + 1 } else { q };
    assert(as_binary64(x) == k * u);
}

/// More never counts as less.
pub proof fn law_count_grows(x: Real, y: Real, parts: int)
    requires
        x.at_most(y),
        parts > 0,
    ensures
        count_of(x, parts) <= count_of(y, parts),
{
    lemma_pow2_pos(1074);
    if x.finite() && y.finite() && x.bits < SIGN_BIT && y.bits < SIGN_BIT {
        crate::binary64::law_order_is_numeric(x, y);
        let d = 2 * parts * unit();
        assert(d > 0) by (nonlinear_arith)
            requires
                parts > 0,
                unit() > 0,
                d == 2 * parts * unit(),
        ;
        vstd::arithmetic::div_mod::lemma_div_is_ordered(
            2 * x.scaled() + parts * unit(),
            2 * y.scaled() + parts * unit(),
            d,
        );
    } else if y.bits >= SIGN_BIT {
        if x.bits < SIGN_BIT {
            assert(x.magnitude() == 0);
            lemma_zero_count(x, parts);
        }
    } else if x.bits < SIGN_BIT {
        assert(!y.finite());
        if !x.finite() {
            assert(count_of(x, parts) == usize::MAX);
        }
    } else {
        lemma_count_not_negative(y, parts);
    }
}

proof fn lemma_count_not_negative(y: Real, parts: int)
    requires
        parts > 0,
    ensures
        count_of(y, parts) >= 0,
{
    lemma_pow2_pos(1074);
    if y.finite() && y.bits < SIGN_BIT {
        crate::binary64::law_order_is_numeric(Real { bits: 0 }, y);
        assert((Real { bits: 0 }).scaled() == 0);
        let d = 2 * parts * unit();
        let top = 2 * y.scaled() + parts * unit();
        assert(d > 0 && parts * unit() > 0) by (nonlinear_arith)
            requires
                parts > 0,
                unit() > 0,
                d == 2 * parts * unit(),
        ;
        assert(top >= 0);
        vstd::arithmetic::div_mod::lemma_div_pos_is_pos(top, d);
    }
}

proof fn lemma_zero_count(x: Real, parts: int)
    requires
        x.bits == 0,
        parts > 0,
    ensures
        count_of(x, parts) == 0,
{
    lemma_pow2_pos(1074);
    assert(x.scaled() == 0);
    let one = parts * unit();
    assert(one > 0 && 2 * parts * unit() == 2 * one) by (nonlinear_arith)
        requires
            parts > 0,
            unit() > 0,
            one == parts * unit(),
    ;
    vstd::arithmetic::div_mod::lemma_basic_div(one, 2 * one);
}

} // verus!
