//! Integer statistics of a window of readings.
//!
//! A reading is a whole number of thousandths. Mean and standard deviation are
//! never formed: with `n` readings of total `t` and total of squares `q`, the
//! spread `n*q - t*t` is `n*n` times the population variance, and for a probed
//! reading `v` the deviation `n*v - t` is `n` times its distance from the mean,
//! so the square of the z-score is the deviation's square over the spread.

use std::collections::VecDeque;
use vstd::prelude::*;

verus! {

/// The largest magnitude of a reading that the statistics take as it is:
/// a thousand million units.
pub const READING_LIMIT: i64 = 1_000_000_000_000;

/// The largest number of readings that a window may hold.
pub const WINDOW_LIMIT: usize = 10_000;

/// The number of readings below which a window scores nothing.
pub const MIN_SAMPLES: usize = 20;

/// `v`, or the bound nearest to it where it lies beyond `READING_LIMIT`.
pub open spec fn bounded(v: i64) -> i64 {
    if v > READING_LIMIT {
        READING_LIMIT
    } else if v < -READING_LIMIT {
        (-READING_LIMIT) as i64
    } else {
        v
    }
}

/// Every reading of `s` lies within `READING_LIMIT`.
pub open spec fn all_bounded(s: Seq<i64>) -> bool {
    forall|i: int| 0 <= i < s.len() ==> -READING_LIMIT <= #[trigger] s[i] <= READING_LIMIT
}

/// The sum of the readings.
pub open spec fn total(s: Seq<i64>) -> int
    decreases s.len(),
{
    if s.len() == 0 {
        0
    } else {
        total(s.drop_last()) + s.last()
    }
}

/// The sum of the squares of the readings.
pub open spec fn total_sq(s: Seq<i64>) -> int
    decreases s.len(),
{
    if s.len() == 0 {
        0
    } else {
        total_sq(s.drop_last()) + s.last() * s.last()
    }
}

/// The population variance of `s`, times the square of its length.
pub open spec fn spread(s: Seq<i64>) -> int {
    s.len() * total_sq(s) - total(s) * total(s)
}

/// The distance of `v` from the mean of `s`, with its sign, times the length
/// of `s`.
pub open spec fn deviation(s: Seq<i64>, v: i64) -> int {
    s.len() * v - total(s)
}

/// `r` is the square root of `n`, rounded down.
pub open spec fn is_floor_sqrt(r: nat, n: nat) -> bool {
    r * r <= n < (r + 1) * (r + 1)
}

/// The square root of `n`, rounded down.
pub open spec fn floor_sqrt(n: nat) -> nat {
    choose|r: nat| is_floor_sqrt(r, n)
}

/// The window has enough readings, and their standard deviation exceeds one
/// thousandth of a unit.
pub open spec fn scorable(s: Seq<i64>) -> bool {
    s.len() >= MIN_SAMPLES && spread(s) > s.len() * s.len()
}

/// The z-score of `v` against `s` in hundredths, rounded down; 0 for a window
/// that is not scorable.
pub open spec fn z_score_centi(s: Seq<i64>, v: i64) -> nat {
    if scorable(s) {
        floor_sqrt(((10_000 * (deviation(s, v) * deviation(s, v))) / spread(s)) as nat)
    } else {
        0
    }
}

/// Whether `v` is an outlier of `s`: the window is scorable and the z-score
/// of `v` exceeds `threshold` hundredths.
pub open spec fn is_outlier(s: Seq<i64>, v: i64, threshold: u64) -> bool {
    scorable(s) && 10_000 * (deviation(s, v) * deviation(s, v)) > (threshold * threshold) * spread(
        s,
    )
}

/// Only one number is the rounded-down square root of `n`.
pub proof fn lemma_floor_sqrt_unique(a: nat, b: nat, n: nat)
    requires
        is_floor_sqrt(a, n),
        is_floor_sqrt(b, n),
    ensures
        a == b,
{
    if a < b {
        assert((a + 1) * (a + 1) <= b * b) by (nonlinear_arith)
            requires
                a + 1 <= b,
        ;
    } else if b < a {
        assert((b + 1) * (b + 1) <= a * a) by (nonlinear_arith)
            requires
                b + 1 <= a,
        ;
    }
}

/// The square root of `n`, rounded down.
pub fn isqrt(n: u128) -> (r: u64)
    ensures
        is_floor_sqrt(r as nat, n as nat),
        r as nat == floor_sqrt(n as nat),
{
    let mut lo: u128 = 0;
    let mut hi: u128 = 0x1_0000_0000_0000_0000;
    assert(hi * hi > n) by (nonlinear_arith)
        requires
            hi == 0x1_0000_0000_0000_0000,
            n <= u128::MAX,
    ;
    while hi - lo > 1
        invariant
            lo < hi <= 0x1_0000_0000_0000_0000,
            lo * lo <= n < hi * hi,
        decreases hi - lo,
    {
        let mid: u128 = lo + (hi - lo) / 2;
        assert(mid * mid <= 0xffff_ffff_ffff_ffff * 0xffff_ffff_ffff_ffff) by (nonlinear_arith)
            requires
                0 <= mid <= 0xffff_ffff_ffff_ffff,
        ;
        if mid * mid <= n {
            lo = mid;
        } else {
            hi = mid;
        }
    }
    assert(hi == lo + 1);
    proof {
        let r = lo as nat;
        assert(is_floor_sqrt(r, n as nat));
        lemma_floor_sqrt_unique(r, floor_sqrt(n as nat), n as nat);
    }
    lo as u64
}

/// The totals of a window of bounded readings are bounded by its length.
pub proof fn lemma_totals_bounded(s: Seq<i64>)
    requires
        all_bounded(s),
    ensures
        -(s.len() * READING_LIMIT) <= total(s) <= s.len() * READING_LIMIT,
        0 <= total_sq(s) <= s.len() * (READING_LIMIT * READING_LIMIT),
    decreases s.len(),
{
    if s.len() > 0 {
        lemma_totals_bounded(s.drop_last());
        let x = s.last() as int;
        let l = READING_LIMIT as int;
        assert(0 <= x * x <= l * l) by (nonlinear_arith)
            requires
                -l <= x <= l,
        ;
        assert((s.len() - 1) * l + l == s.len() * l) by (nonlinear_arith);
        assert((s.len() - 1) * (l * l) + l * l == s.len() * (l * l)) by (nonlinear_arith);
    }
}

/// A window whose readings are all the same has no spread.
pub proof fn lemma_constant_window(s: Seq<i64>, c: i64)
    requires
        forall|i: int| 0 <= i < s.len() ==> s[i] == c,
    ensures
        total(s) == s.len() * c,
        total_sq(s) == s.len() * (c * c),
        spread(s) == 0,
    decreases s.len(),
{
    let n = s.len() as int;
    let c = c as int;
    if s.len() > 0 {
        lemma_constant_window(s.drop_last(), c as i64);
        assert((n - 1) * c + c == n * c) by (nonlinear_arith);
        assert((n - 1) * (c * c) + c * c == n * (c * c)) by (nonlinear_arith);
    }
    assert(n * (n * (c * c)) - (n * c) * (n * c) == 0) by (nonlinear_arith);
}

/// The sum of the readings of `window`, and the sum of their squares.
pub fn window_totals(window: &VecDeque<i64>) -> (t: (i128, i128))
    requires
        window@.len() <= WINDOW_LIMIT,
        all_bounded(window@),
    ensures
        t.0 == total(window@),
        t.1 == total_sq(window@),
{
    let n = window.len();
    let mut sum: i128 = 0;
    let mut sq: i128 = 0;
    let mut i: usize = 0;
    while i < n
        invariant
            n == window@.len(),
            n <= WINDOW_LIMIT,
            all_bounded(window@),
            0 <= i <= n,
            sum == total(window@.take(i as int)),
            sq == total_sq(window@.take(i as int)),
        decreases n - i,
    {
        let x: i128 = window[i] as i128;
        proof {
            let before = window@.take(i as int);
            let after = window@.take(i + 1);
            assert(after.drop_last() =~= before);
            assert(after.last() == window@[i as int]);
            lemma_totals_bounded(before);
            lemma_totals_bounded(after);
            let l = READING_LIMIT as int;
            assert(after.len() * l <= 10_000 * l) by (nonlinear_arith)
                requires
                    after.len() <= 10_000,
                    l >= 0,
            ;
            assert(after.len() * (l * l) <= 10_000 * (l * l)) by (nonlinear_arith)
                requires
                    after.len() <= 10_000,
                    l >= 0,
            ;
            assert(0 <= x * x <= l * l) by (nonlinear_arith)
                requires
                    -l <= x <= l,
            ;
        }
        sum = sum + x;
        sq = sq + x * x;
        i = i + 1;
    }
    assert(window@.take(n as int) =~= window@);
    (sum, sq)
}

/// Scores `value` against `window`: whether its z-score exceeds `threshold`
/// hundredths, and its z-score in hundredths, rounded down.
pub fn score(window: &VecDeque<i64>, value: i64, threshold: u64) -> (r: (bool, u64))
    requires
        window@.len() <= WINDOW_LIMIT,
        all_bounded(window@),
        -READING_LIMIT <= value <= READING_LIMIT,
    ensures
        r.0 == is_outlier(window@, value, threshold),
        r.1 == z_score_centi(window@, value),
{
    let n = window.len();
    if n < MIN_SAMPLES {
        return (false, 0);
    }
    let (t, q) = window_totals(window);
    let count: i128 = n as i128;
    let v: i128 = value as i128;
    proof {
        lemma_totals_bounded(window@);
        let l = READING_LIMIT as int;
        assert(n * l <= 10_000 * l) by (nonlinear_arith)
            requires
                n <= 10_000,
                l >= 0,
        ;
        assert(n * (l * l) <= 10_000 * (l * l)) by (nonlinear_arith)
            requires
                n <= 10_000,
                l >= 0,
        ;
        assert(0 <= count * q <= 10_000 * (10_000 * (l * l))) by (nonlinear_arith)
            requires
                0 <= count <= 10_000,
                0 <= q <= 10_000 * (l * l),
        ;
        assert(0 <= t * t <= (10_000 * l) * (10_000 * l)) by (nonlinear_arith)
            requires
                -(10_000 * l) <= t <= 10_000 * l,
        ;
        assert(-(10_000 * l) <= count * v <= 10_000 * l) by (nonlinear_arith)
            requires
                0 <= count <= 10_000,
                -l <= v <= l,
                l >= 0,
        ;
        assert(0 <= count * count <= 100_000_000) by (nonlinear_arith)
            requires
                0 <= count <= 10_000,
        ;
    }
    let spread_n: i128 = count * q - t * t;
    if spread_n <= count * count {
        return (false, 0);
    }
    let dev: i128 = count * v - t;
    proof {
        let l = READING_LIMIT as int;
        assert(0 <= dev * dev <= (20_000 * l) * (20_000 * l)) by (nonlinear_arith)
            requires
                -(20_000 * l) <= dev <= 20_000 * l,
        ;
    }
    let scaled: u128 = (10_000 * (dev * dev)) as u128;
    let within: u128 = spread_n as u128;
    let ratio: u128 = scaled / within;
    let rest: u128 = scaled % within;
    let z = isqrt(ratio);
    assert(threshold * threshold <= 0xffff_ffff_ffff_ffff * 0xffff_ffff_ffff_ffff) by (nonlinear_arith)
        requires
            0 <= threshold <= 0xffff_ffff_ffff_ffff,
    ;
    let limit: u128 = (threshold as u128) * (threshold as u128);
    let outlier = ratio > limit || (ratio == limit && rest > 0);
    proof {
        vstd::arithmetic::div_mod::lemma_fundamental_div_mod(scaled as int, within as int);
        assert(outlier == (scaled > limit * within)) by (nonlinear_arith)
            requires
                scaled == within * ratio + rest,
                0 <= rest < within,
                0 <= limit,
                0 <= ratio,
                outlier == (ratio > limit || (ratio == limit && rest > 0)),
        ;
    }
    (outlier, z)
}

/// A window of fewer than `MIN_SAMPLES` readings flags no reading, whatever
/// the reading and the threshold, and scores it 0.
pub proof fn lemma_short_window_never_flags(s: Seq<i64>, v: i64, threshold: u64)
    requires
        s.len() < MIN_SAMPLES,
    ensures
        !is_outlier(s, v, threshold),
        z_score_centi(s, v) == 0,
{
}

/// A window whose readings are all the same flags no reading, whatever the
/// reading and the threshold, and scores it 0.
pub proof fn lemma_constant_window_never_flags(s: Seq<i64>, c: i64, v: i64, threshold: u64)
    requires
        forall|i: int| 0 <= i < s.len() ==> s[i] == c,
    ensures
        !is_outlier(s, v, threshold),
        z_score_centi(s, v) == 0,
{
    lemma_constant_window(s, c);
    assert(s.len() * s.len() >= 0) by (nonlinear_arith);
}

} // verus!
