//! Resource distribution: the share of the per-turn token pool that a caster
//! earns from the resources it burned during the committed turn.
use vstd::prelude::*;

use solana_maths::{Rate, TryMul};

use crate::constants::{DECIMALS_PRECISION, LADA_DISTRIBUTION_PER_TURN};

verus! {

/// The scale of a `solana_maths::Rate` (its WAD).
pub const RATE_WAD: u128 = 1_000_000_000_000_000_000;

/// Half of `RATE_WAD`, added before rounding.
pub const RATE_HALF_WAD: u128 = 500_000_000_000_000_000;

/// `2^128`, the first value that a `Rate` cannot hold.
pub open spec fn rate_bound() -> int {
    0x1_0000_0000_0000_0000_0000_0000_0000_0000int
}

/// What `Rate::from_scaled_val(scaled)`, multiplied by `a` and then by `b`
/// and rounded to `u64`, yields: `None` where a step overflows.
pub open spec fn rate_scaled_product(scaled: int, a: int, b: int) -> Option<u64> {
    let first = scaled * a;
    let second = first * b;
    if first >= rate_bound() || second >= rate_bound() || second + RATE_HALF_WAD >= rate_bound() {
        None
    } else if (second + RATE_HALF_WAD) / (RATE_WAD as int) > u64::MAX {
        None
    } else {
        Some(((second + RATE_HALF_WAD) / (RATE_WAD as int)) as u64)
    }
}

/// Relies on `solana_maths::Rate`: `from_scaled_val` holds `scaled` as a value
/// scaled by `10^18`; `try_mul` by a `u64` is a checked 128-bit product;
/// `try_round_u64` adds half of `10^18`, divides by `10^18` and fails when the
/// quotient does not fit a `u64`.
#[verifier::external_body]
fn rate_mul_round(scaled: u64, a: u64, b: u64) -> (r: Option<u64>)
    ensures
        r == rate_scaled_product(scaled as int, a as int, b as int),
{
    let rate = Rate::from_scaled_val(scaled);
    let rate = match rate.try_mul(a) {
        Ok(x) => x,
        Err(_) => return None,
    };
    let rate = match rate.try_mul(b) {
        Ok(x) => x,
        Err(_) => return None,
    };
    rate.try_round_u64().ok()
}

/// A denominator that is never zero: `0` becomes `1`.
pub open spec fn spec_non_zero(number: u64) -> u64 {
    if number == 0 {
        1
    } else {
        number
    }
}

pub fn non_zero(number: u64) -> (r: u64)
    ensures
        r == spec_non_zero(number),
        r >= 1,
{
    match number {
        0 => 1,
        _ => number,
    }
}

/// The share `min(1, burned / max(1, total))`, scaled by `DECIMALS_PRECISION`
/// and rounded down.
pub open spec fn spec_proportion(burned: u64, total: u64) -> int {
    let share = (burned as int) * (DECIMALS_PRECISION as int) / (spec_non_zero(total) as int);
    if share > DECIMALS_PRECISION as int {
        DECIMALS_PRECISION as int
    } else {
        share
    }
}

/// The numerator of one resource's share `min(1, burned / max(1, total))`.
pub open spec fn share_num(burned: u64, total: u64) -> int {
    if burned >= spec_non_zero(total) {
        1
    } else {
        burned as int
    }
}

/// The denominator of one resource's share.
pub open spec fn share_den(burned: u64, total: u64) -> int {
    if burned >= spec_non_zero(total) {
        1
    } else {
        spec_non_zero(total) as int
    }
}

/// The exact average of the three shares, scaled by `DECIMALS_PRECISION` and
/// rounded down once, after averaging.
pub open spec fn spec_average_proportion(burned: Seq<u64>, totals: Seq<u64>) -> int {
    let n0 = share_num(burned[0], totals[0]);
    let n1 = share_num(burned[1], totals[1]);
    let n2 = share_num(burned[2], totals[2]);
    let e0 = share_den(burned[0], totals[0]);
    let e1 = share_den(burned[1], totals[1]);
    let e2 = share_den(burned[2], totals[2]);
    (DECIMALS_PRECISION as int) * (n0 * e1 * e2 + n1 * e0 * e2 + n2 * e0 * e1) / (3 * e0 * e1 * e2)
}

/// The payout for an average share `p` (scaled by `DECIMALS_PRECISION`):
/// `p / DECIMALS_PRECISION` of the per-turn pool, rounded to the nearest unit.
pub open spec fn spec_payout(p: int) -> int {
    (p * (LADA_DISTRIBUTION_PER_TURN as int) * (DECIMALS_PRECISION as int) + RATE_HALF_WAD)
        / (RATE_WAD as int)
}

/// One resource's share, scaled by `DECIMALS_PRECISION`.
pub fn proportion_burned(burned: u64, total: u64) -> (r: u64)
    ensures
        r == spec_proportion(burned, total),
        r <= DECIMALS_PRECISION,
{
    let denominator = non_zero(total) as u128;
    let share: u128 = (burned as u128) * (DECIMALS_PRECISION as u128) / denominator;
    if share > DECIMALS_PRECISION as u128 {
        DECIMALS_PRECISION
    } else {
        share as u64
    }
}

/// Whether `a / b >= c / d`, by comparing integer parts and then the
/// reciprocals of the remainders, so that no product is formed.
fn frac_ge(a: u128, b: u128, c: u128, d: u128) -> (r: bool)
    requires
        b > 0,
        d > 0,
    ensures
        r == (a * d >= c * b),
    decreases b + d,
{
    let q1 = a / b;
    let q2 = c / d;
    let r1 = a % b;
    let r2 = c % d;
    proof {
        vstd::arithmetic::div_mod::lemma_fundamental_div_mod(a as int, b as int);
        vstd::arithmetic::div_mod::lemma_fundamental_div_mod(c as int, d as int);
        assert(b * (a / b) == (a / b) * b && d * (c / d) == (c / d) * d) by (nonlinear_arith);
        lemma_cross(a as int, b as int, c as int, d as int, q1 as int, r1 as int, q2 as int, r2 as int);
    }
    if q1 != q2 {
        assert(q1 > q2 ==> a * d > c * b);
        assert(q1 < q2 ==> a * d < c * b);
        assert((q1 > q2) == (a * d >= c * b));
        q1 > q2
    } else if r2 == 0 {
        proof {
            assert(r1 * d >= 0 && r2 * b == 0) by (nonlinear_arith)
                requires r1 >= 0, d > 0, r2 == 0;
            assert(a * d >= c * b);
        }
        true
    } else if r1 == 0 {
        proof {
            assert(r2 * b > 0 && r1 * d == 0) by (nonlinear_arith)
                requires r2 > 0, b > 0, r1 == 0;
            assert(!(a * d >= c * b));
        }
        false
    } else {
        proof {
            assert(r1 * d == d * r1 && r2 * b == b * r2) by (nonlinear_arith);
        }
        let r = frac_ge(d, r2, b, r1);
        assert(a * d - c * b == r1 * d - r2 * b);
        assert(r == (a * d >= c * b));
        r
    }
}

proof fn lemma_cross(a: int, b: int, c: int, d: int, q1: int, r1: int, q2: int, r2: int)
    requires
        b > 0,
        d > 0,
        a == q1 * b + r1,
        c == q2 * d + r2,
        0 <= r1 < b,
        0 <= r2 < d,
        q1 >= 0,
        q2 >= 0,
    ensures
        q1 > q2 ==> a * d > c * b,
        q1 < q2 ==> a * d < c * b,
        q1 == q2 ==> a * d - c * b == r1 * d - r2 * b,
{
    assert(a * d == q1 * b * d + r1 * d) by (nonlinear_arith)
        requires a == q1 * b + r1;
    assert(c * b == q2 * d * b + r2 * b) by (nonlinear_arith)
        requires c == q2 * d + r2;
    assert(q1 * b * d == q1 * (b * d) && q2 * d * b == q2 * (b * d)) by (nonlinear_arith);
    assert(0 <= r1 * d < b * d) by (nonlinear_arith)
        requires 0 <= r1 < b, d > 0;
    assert(0 <= r2 * b < b * d) by (nonlinear_arith)
        requires 0 <= r2 < d, b > 0;
    if q1 > q2 {
        assert(q1 * (b * d) >= (q2 + 1) * (b * d)) by (nonlinear_arith)
            requires q1 >= q2 + 1, b * d > 0;
        assert((q2 + 1) * (b * d) == q2 * (b * d) + b * d) by (nonlinear_arith);
    } else if q1 < q2 {
        assert(q2 * (b * d) >= (q1 + 1) * (b * d)) by (nonlinear_arith)
            requires q2 >= q1 + 1, b * d > 0;
        assert((q1 + 1) * (b * d) == q1 * (b * d) + b * d) by (nonlinear_arith);
    }
}

/// One share split as `DECIMALS_PRECISION * num == whole * den + rest`.
fn share_parts(burned: u64, total: u64) -> (r: (u128, u128, u128))
    ensures
        r.2 == share_den(burned, total),
        (DECIMALS_PRECISION as int) * share_num(burned, total) == r.0 * r.2 + r.1,
        r.1 < r.2,
        r.0 <= DECIMALS_PRECISION,
        1 <= r.2 <= u64::MAX,
{
    let d = non_zero(total);
    if burned >= d {
        (DECIMALS_PRECISION as u128, 0, 1)
    } else {
        proof {
            assert((burned as int) * (DECIMALS_PRECISION as int) <= u64::MAX * 1_000_000_000) by (nonlinear_arith)
                requires burned <= u64::MAX, DECIMALS_PRECISION == 1_000_000_000;
        }
        let n: u128 = (burned as u128) * (DECIMALS_PRECISION as u128);
        let dd = d as u128;
        proof {
            vstd::arithmetic::div_mod::lemma_fundamental_div_mod(n as int, dd as int);
            assert(n < (DECIMALS_PRECISION as int) * dd) by (nonlinear_arith)
                requires n == burned * DECIMALS_PRECISION, burned < dd;
            vstd::arithmetic::div_mod::lemma_div_is_ordered(n as int, (DECIMALS_PRECISION as int) * dd, dd as int);
            vstd::arithmetic::div_mod::lemma_div_multiples_vanish(DECIMALS_PRECISION as int, dd as int);
            assert((DECIMALS_PRECISION as int) * dd == dd * (DECIMALS_PRECISION as int)) by (nonlinear_arith);
            assert(dd * (n / dd) == (n / dd) * dd) by (nonlinear_arith);
            assert((DECIMALS_PRECISION as int) * burned == n) by (nonlinear_arith)
                requires n == burned * DECIMALS_PRECISION;
        }
        (n / dd, n % dd, dd)
    }
}

/// The floor of `DECIMALS_PRECISION` times the exact average, from the three
/// shares split as `DECIMALS_PRECISION * n == w * e + r`: with `k` the number
/// of whole denominators in the sum of the remainders, it is
/// `(w0 + w1 + w2 + k) / 3`.
proof fn lemma_average_from_parts(
    n0: int, w0: int, r0: int, e0: int,
    n1: int, w1: int, r1: int, e1: int,
    n2: int, w2: int, r2: int, e2: int,
    k: int,
)
    requires
        e0 >= 1, e1 >= 1, e2 >= 1,
        0 <= r0 < e0, 0 <= r1 < e1, 0 <= r2 < e2,
        w0 >= 0, w1 >= 0, w2 >= 0,
        (DECIMALS_PRECISION as int) * n0 == w0 * e0 + r0,
        (DECIMALS_PRECISION as int) * n1 == w1 * e1 + r1,
        (DECIMALS_PRECISION as int) * n2 == w2 * e2 + r2,
        0 <= k,
        k * (e0 * e1 * e2) <= r0 * (e1 * e2) + r1 * (e0 * e2) + r2 * (e0 * e1) < (k + 1) * (e0 * e1 * e2),
    ensures
        (DECIMALS_PRECISION as int) * (n0 * e1 * e2 + n1 * e0 * e2 + n2 * e0 * e1) / (3 * e0 * e1 * e2)
            == (w0 + w1 + w2 + k) / 3,
{
    let dp = DECIMALS_PRECISION as int;
    let d = e0 * e1 * e2;
    let big_r = r0 * (e1 * e2) + r1 * (e0 * e2) + r2 * (e0 * e1);
    assert(d > 0) by (nonlinear_arith)
        requires e0 >= 1, e1 >= 1, e2 >= 1, d == e0 * e1 * e2;
    assert(n0 * e1 * e2 == n0 * (e1 * e2) && n1 * e0 * e2 == n1 * (e0 * e2) && n2 * e0 * e1 == n2 * (
        e0 * e1)) by (nonlinear_arith);
    assert(d == e0 * (e1 * e2) && d == e1 * (e0 * e2) && d == e2 * (e0 * e1)) by (nonlinear_arith)
        requires d == e0 * e1 * e2;
    lemma_scaled_term(dp, n0, w0, e0, r0, e1 * e2, d);
    lemma_scaled_term(dp, n1, w1, e1, r1, e0 * e2, d);
    lemma_scaled_term(dp, n2, w2, e2, r2, e0 * e1, d);
    let x = dp * (n0 * e1 * e2 + n1 * e0 * e2 + n2 * e0 * e1);
    assert(x == dp * (n0 * e1 * e2) + dp * (n1 * e0 * e2) + dp * (n2 * e0 * e1)) by (nonlinear_arith)
        requires x == dp * (n0 * e1 * e2 + n1 * e0 * e2 + n2 * e0 * e1);
    let q = w0 + w1 + w2;
    assert(q * d == w0 * d + w1 * d + w2 * d) by (nonlinear_arith)
        requires q == w0 + w1 + w2;
    assert(x == (q + k) * d + (big_r - k * d)) by (nonlinear_arith)
        requires x == q * d + big_r, q == w0 + w1 + w2;
    let t = (q + k) / 3;
    let u = (q + k) % 3;
    vstd::arithmetic::div_mod::lemma_fundamental_div_mod(q + k, 3);
    assert(x == t * (3 * d) + (u * d + big_r - k * d)) by (nonlinear_arith)
        requires x == (q + k) * d + (big_r - k * d), q + k == 3 * t + u;
    assert(0 <= u * d <= 2 * d) by (nonlinear_arith)
        requires 0 <= u <= 2, d > 0;
    assert(big_r - k * d < d) by (nonlinear_arith)
        requires big_r < (k + 1) * d;
    assert(3 * e0 * e1 * e2 == 3 * d) by (nonlinear_arith)
        requires d == e0 * e1 * e2;
    vstd::arithmetic::div_mod::lemma_fundamental_div_mod_converse(x, 3 * d, t, u * d + big_r - k * d);
}

proof fn lemma_scaled_term(dp: int, n: int, w: int, e: int, r: int, other: int, d: int)
    requires
        dp * n == w * e + r,
        d == e * other,
    ensures
        dp * (n * other) == w * d + r * other,
{
    assert(dp * (n * other) == (dp * n) * other) by (nonlinear_arith);
    assert((w * e + r) * other == w * (e * other) + r * other) by (nonlinear_arith);
}

/// How the remainders of the three shares compare with whole units, from the
/// two cross products that the resolution computes.
proof fn lemma_remainder_thresholds(r0: int, e0: int, r1: int, e1: int, r2: int, e2: int)
    requires
        e0 >= 1, e1 >= 1, e2 >= 1,
        0 <= r0 < e0, 0 <= r1 < e1, 0 <= r2 < e2,
    ensures
        ({
            let p = e1 * e2;
            let a = r1 * e2 + r2 * e1;
            let big_r = r0 * (e1 * e2) + r1 * (e0 * e2) + r2 * (e0 * e1);
            let d = e0 * e1 * e2;
            &&& big_r < 3 * d
            &&& 0 <= big_r
            &&& (r1 * e2 >= (e2 - r2) * e1) == (a >= p)
            &&& ((e2 - r2) * e1 >= r1 * e2) == (p >= a)
            &&& a >= p ==> big_r >= d
            &&& a < p ==> ((big_r >= d) == (r0 * p >= (p - a) * e0))
            &&& a <= p ==> big_r < 2 * d
            &&& a > p ==> ((big_r >= 2 * d) == (r0 * p >= (2 * p - a) * e0))
        }),
{
    let p = e1 * e2;
    let a = r1 * e2 + r2 * e1;
    let big_r = r0 * (e1 * e2) + r1 * (e0 * e2) + r2 * (e0 * e1);
    let d = e0 * e1 * e2;
    assert(big_r == r0 * p + e0 * a) by (nonlinear_arith)
        requires big_r == r0 * (e1 * e2) + r1 * (e0 * e2) + r2 * (e0 * e1), p == e1 * e2, a == r1 * e2 + r2 * e1;
    assert(d == e0 * p) by (nonlinear_arith)
        requires d == e0 * e1 * e2, p == e1 * e2;
    assert(p >= 1) by (nonlinear_arith)
        requires e1 >= 1, e2 >= 1, p == e1 * e2;
    assert(0 <= r0 * p < e0 * p) by (nonlinear_arith)
        requires 0 <= r0 < e0, p >= 1;
    assert(0 <= r1 * e2 < p && 0 <= r2 * e1 < p) by (nonlinear_arith)
        requires 0 <= r1 < e1, 0 <= r2 < e2, e1 >= 1, e2 >= 1, p == e1 * e2;
    assert((e2 - r2) * e1 == p - r2 * e1) by (nonlinear_arith)
        requires p == e1 * e2;
    assert(0 <= e0 * a < 2 * (e0 * p)) by (nonlinear_arith)
        requires 0 <= a < 2 * p, e0 >= 1;
    if a >= p {
        assert(e0 * a >= e0 * p) by (nonlinear_arith)
            requires a >= p, e0 >= 1;
    } else {
        assert((p - a) * e0 == e0 * p - e0 * a) by (nonlinear_arith);
    }
    if a <= p {
        assert(e0 * a <= e0 * p) by (nonlinear_arith)
            requires a <= p, e0 >= 1;
    } else {
        assert((2 * p - a) * e0 == 2 * (e0 * p) - e0 * a) by (nonlinear_arith);
    }
}

/// The exact average share of the three resources, scaled by
/// `DECIMALS_PRECISION` and rounded down.
pub fn average_proportion_burned(burned: [u64; 3], totals: [u64; 3]) -> (r: u64)
    ensures
        r == spec_average_proportion(burned@, totals@),
        r <= DECIMALS_PRECISION,
{
    let (w0, r0, e0) = share_parts(burned[0], totals[0]);
    let (w1, r1, e1) = share_parts(burned[1], totals[1]);
    let (w2, r2, e2) = share_parts(burned[2], totals[2]);
    proof {
        lemma_remainder_thresholds(r0 as int, e0 as int, r1 as int, e1 as int, r2 as int, e2 as int);
        assert(e1 * e2 <= u64::MAX * u64::MAX) by (nonlinear_arith)
            requires 1 <= e1 <= u64::MAX, 1 <= e2 <= u64::MAX;
    }
    let p: u128 = e1 * e2;
    let one = if frac_ge(r1, e1, e2 - r2, e2) {
        true
    } else {
        let h: u128 = p - r1 * e2 - r2 * e1;
        frac_ge(r0, e0, h, p)
    };
    let two = if frac_ge(e2 - r2, e2, r1, e1) {
        false
    } else {
        proof {
            assert(e2 * (e1 - r1) == p - r1 * e2 && e1 * (e2 - r2) == p - r2 * e1) by (nonlinear_arith)
                requires p == e1 * e2;
        }
        let n: u128 = e2 * (e1 - r1) + e1 * (e2 - r2);
        frac_ge(r0, e0, n, p)
    };
    let k: u128 = if one {
        if two {
            2
        } else {
            1
        }
    } else {
        0
    };
    proof {
        let d = (e0 * e1 * e2) as int;
        assert(two ==> one);
        assert(k * d <= r0 * (e1 * e2) + r1 * (e0 * e2) + r2 * (e0 * e1) < (k + 1) * d) by (nonlinear_arith)
            requires
                (k == 0 || k == 1 || k == 2),
                k == 0 ==> r0 * (e1 * e2) + r1 * (e0 * e2) + r2 * (e0 * e1) < d,
                k == 1 ==> d <= r0 * (e1 * e2) + r1 * (e0 * e2) + r2 * (e0 * e1) < 2 * d,
                k == 2 ==> 2 * d <= r0 * (e1 * e2) + r1 * (e0 * e2) + r2 * (e0 * e1) < 3 * d;
        lemma_average_from_parts(
            share_num(burned[0], totals[0]), w0 as int, r0 as int, e0 as int,
            share_num(burned[1], totals[1]), w1 as int, r1 as int, e1 as int,
            share_num(burned[2], totals[2]), w2 as int, r2 as int, e2 as int,
            k as int,
        );
    }
    ((w0 + w1 + w2 + k) / 3) as u64
}

/// The tokens paid to a caster that burned `burned` of each resource while
/// `totals` were burned in all during the turn.
pub fn distribution_amount(burned: [u64; 3], totals: [u64; 3]) -> (r: u64)
    ensures
        r == spec_payout(spec_average_proportion(burned@, totals@)),
        r <= LADA_DISTRIBUTION_PER_TURN,
{
    let p = average_proportion_burned(burned, totals);
    let amount = rate_mul_round(p, LADA_DISTRIBUTION_PER_TURN, DECIMALS_PRECISION);
    proof {
        lemma_payout_bounds(p as int);
    }
    match amount {
        Some(a) => a,
        None => 0,
    }
}

proof fn lemma_payout_bounds(p: int)
    requires
        0 <= p <= DECIMALS_PRECISION,
    ensures
        rate_scaled_product(p, LADA_DISTRIBUTION_PER_TURN as int, DECIMALS_PRECISION as int)
            == Some(spec_payout(p) as u64),
        0 <= spec_payout(p) <= LADA_DISTRIBUTION_PER_TURN,
{
    let l = LADA_DISTRIBUTION_PER_TURN as int;
    let d = DECIMALS_PRECISION as int;
    assert(0 <= p * l <= d * l) by (nonlinear_arith)
        requires 0 <= p <= d, 0 <= l;
    assert(0 <= p * l * d <= d * l * d) by (nonlinear_arith)
        requires 0 <= p * l <= d * l, 0 <= d;
    assert(d * l * d == l * (RATE_WAD as int));
    let s = p * l * d + RATE_HALF_WAD;
    assert(s / (RATE_WAD as int) <= l) by {
        vstd::arithmetic::div_mod::lemma_div_is_ordered(s, l * (RATE_WAD as int) + RATE_HALF_WAD, RATE_WAD as int);
        vstd::arithmetic::div_mod::lemma_fundamental_div_mod_converse(
            l * (RATE_WAD as int) + RATE_HALF_WAD, RATE_WAD as int, l, RATE_HALF_WAD as int);
    }
    vstd::arithmetic::div_mod::lemma_div_pos_is_pos(s, RATE_WAD as int);
}

/// Distribution law: for any burned amounts, each share lies between 0 and
/// 1 (scaled by `DECIMALS_PRECISION`), so does their average, and the payout
/// lies between 0 and the per-turn pool.
pub proof fn lemma_distribution_bounds(burned: Seq<u64>, totals: Seq<u64>)
    requires
        burned.len() == 3,
        totals.len() == 3,
    ensures
        forall|k: int|
            0 <= k < 3 ==> 0 <= #[trigger] spec_proportion(burned[k], totals[k]) <= DECIMALS_PRECISION,
        0 <= spec_average_proportion(burned, totals) <= DECIMALS_PRECISION,
        0 <= spec_payout(spec_average_proportion(burned, totals)) <= LADA_DISTRIBUTION_PER_TURN,
{
    assert forall|k: int| 0 <= k < 3 implies 0 <= #[trigger] spec_proportion(burned[k], totals[k])
        <= DECIMALS_PRECISION by {
        let d = spec_non_zero(totals[k]) as int;
        vstd::arithmetic::div_mod::lemma_div_pos_is_pos(
            (burned[k] as int) * (DECIMALS_PRECISION as int),
            d,
        );
    }
    assert(0 <= spec_proportion(burned[0], totals[0]));
    assert(0 <= spec_proportion(burned[1], totals[1]));
    assert(0 <= spec_proportion(burned[2], totals[2]));
    lemma_average_bounds(burned, totals);
    lemma_payout_bounds(spec_average_proportion(burned, totals));
}

proof fn lemma_average_bounds(burned: Seq<u64>, totals: Seq<u64>)
    requires
        burned.len() == 3,
        totals.len() == 3,
    ensures
        0 <= spec_average_proportion(burned, totals) <= DECIMALS_PRECISION,
{
    let n0 = share_num(burned[0], totals[0]);
    let n1 = share_num(burned[1], totals[1]);
    let n2 = share_num(burned[2], totals[2]);
    let e0 = share_den(burned[0], totals[0]);
    let e1 = share_den(burned[1], totals[1]);
    let e2 = share_den(burned[2], totals[2]);
    let dp = DECIMALS_PRECISION as int;
    let num = n0 * e1 * e2 + n1 * e0 * e2 + n2 * e0 * e1;
    let den = 3 * e0 * e1 * e2;
    assert(0 <= num <= den && den > 0) by (nonlinear_arith)
        requires
            0 <= n0 <= e0, 0 <= n1 <= e1, 0 <= n2 <= e2, e0 >= 1, e1 >= 1, e2 >= 1,
            num == n0 * e1 * e2 + n1 * e0 * e2 + n2 * e0 * e1,
            den == 3 * e0 * e1 * e2;
    assert(0 <= dp * num <= dp * den) by (nonlinear_arith)
        requires 0 <= num <= den, dp >= 0;
    vstd::arithmetic::div_mod::lemma_div_is_ordered(dp * num, dp * den, den);
    vstd::arithmetic::div_mod::lemma_div_multiples_vanish(dp, den);
    vstd::arithmetic::div_mod::lemma_div_pos_is_pos(dp * num, den);
}

} // verus!
