use vstd::prelude::*;
use vstd::arithmetic::div_mod::{lemma_fundamental_div_mod_converse, lemma_fundamental_div_mod, lemma_mod_pos_bound, lemma_div_is_ordered, lemma_div_multiples_vanish};
use crate::var::{bounded_series, MAX_RETURN, MAX_SERIES_LEN};

verus! {

/// The largest squared deviation of a bounded value from a bounded centre: (2 * MAX_RETURN)^2.
pub const MAX_SQ_DEV: i128 = 4_835_703_278_458_516_698_824_704;

/// The sum of the values of `s`.
pub open spec fn sum_of(s: Seq<i64>) -> int
    decreases s.len(),
{
    if s.len() == 0 {
        0
    } else {
        sum_of(s.drop_last()) + s.last()
    }
}

/// The arithmetic mean of `s`, rounded down to a whole billionth.
pub open spec fn mean_of(s: Seq<i64>) -> int {
    sum_of(s) / (s.len() as int)
}

/// The sum of the squared deviations of the values of `s` from `m`.
pub open spec fn sq_dev_sum(s: Seq<i64>, m: int) -> int
    decreases s.len(),
{
    if s.len() == 0 {
        0
    } else {
        sq_dev_sum(s.drop_last(), m) + (s.last() - m) * (s.last() - m)
    }
}

/// The population variance of `s` (divisor n), rounded down.
pub open spec fn variance_of(s: Seq<i64>) -> int {
    sq_dev_sum(s, mean_of(s)) / (s.len() as int)
}

/// `r` is the integer square root of `x`.
pub open spec fn is_isqrt(x: int, r: int) -> bool {
    0 <= r && r * r <= x < (r + 1) * (r + 1)
}

/// The population standard deviation of `s`: the integer square root of its variance.
pub open spec fn std_of(s: Seq<i64>) -> int {
    choose|r: int| is_isqrt(variance_of(s), r)
}

/// A normal distribution fitted to a return series, in billionths.
#[derive(Clone, Copy, Debug, PartialEq, Eq, Structural)]
pub struct NormalFit {
    pub mean: i64,
    pub std: i64,
}

/// A number has at most one integer square root.
pub proof fn lemma_isqrt_unique(x: int, a: int, b: int)
    requires
        is_isqrt(x, a),
        is_isqrt(x, b),
    ensures
        a == b,
{
    if a < b {
        assert((a + 1) * (a + 1) <= b * b) by (nonlinear_arith)
            requires
                0 <= a,
                a + 1 <= b,
        ;
    } else if b < a {
        assert((b + 1) * (b + 1) <= a * a) by (nonlinear_arith)
            requires
                0 <= b,
                b + 1 <= a,
        ;
    }
}

/// `a / b` rounded down, for a positive divisor.
pub fn floor_div(a: i128, b: i128) -> (r: i128)
    requires
        b > 0,
        a > i128::MIN + b,
    ensures
        r == a / b,
{
    if a >= 0 {
        ((a as u128) / (b as u128)) as i128
    } else {
        let c = (-a) as u128;
        let q = (c + (b as u128) - 1) / (b as u128);
        proof {
            let x = c + b - 1;
            lemma_fundamental_div_mod(x as int, b as int);
            lemma_mod_pos_bound(x as int, b as int);
            assert((-(q as int)) * b == -(q * b)) by (nonlinear_arith);
            assert(q * b == b * q) by (nonlinear_arith);
            lemma_fundamental_div_mod_converse(a as int, b as int, -(q as int), (q * b - c) as int);
        }
        -(q as i128)
    }
}

/// The sum of a bounded series.
fn series_sum(s: &Vec<i64>) -> (r: i128)
    requires
        bounded_series(s@),
    ensures
        r == sum_of(s@),
        -(s@.len() * MAX_RETURN) <= r <= s@.len() * MAX_RETURN,
{
    let mut total: i128 = 0;
    let mut i: usize = 0;
    while i < s.len()
        invariant
            i <= s@.len(),
            bounded_series(s@),
            total == sum_of(s@.subrange(0, i as int)),
            -(i * MAX_RETURN) <= total <= i * MAX_RETURN,
        decreases s@.len() - i,
    {
        proof {
            assert(s@.subrange(0, i + 1).drop_last() =~= s@.subrange(0, i as int));
        }
        total = total + s[i] as i128;
        i = i + 1;
    }
    proof {
        assert(s@.subrange(0, s@.len() as int) =~= s@);
    }
    total
}

/// The sum of squared deviations of a bounded series from a bounded centre.
fn series_sq_dev(s: &Vec<i64>, m: i128) -> (r: i128)
    requires
        bounded_series(s@),
        -MAX_RETURN <= m <= MAX_RETURN,
    ensures
        r == sq_dev_sum(s@, m as int),
        0 <= r <= s@.len() * (MAX_SQ_DEV),
{
    let mut total: i128 = 0;
    let mut i: usize = 0;
    while i < s.len()
        invariant
            i <= s@.len(),
            bounded_series(s@),
            -MAX_RETURN <= m <= MAX_RETURN,
            total == sq_dev_sum(s@.subrange(0, i as int), m as int),
            0 <= total <= i * (MAX_SQ_DEV),
        decreases s@.len() - i,
    {
        proof {
            assert(s@.subrange(0, i + 1).drop_last() =~= s@.subrange(0, i as int));
        }
        let d: i128 = s[i] as i128 - m;
        proof {
            assert(d * d <= MAX_SQ_DEV) by (nonlinear_arith)
                requires
                    -2 * MAX_RETURN <= d <= 2 * MAX_RETURN,
            ;
            assert(0 <= d * d) by (nonlinear_arith);
        }
        total = total + d * d;
        i = i + 1;
    }
    proof {
        assert(s@.subrange(0, s@.len() as int) =~= s@);
    }
    total
}

/// The integer square root of `x`, by bisection.
pub fn isqrt(x: u128) -> (r: u64)
    requires
        x < 0x100_0000_0000_0000_0000_0000_0000,
    ensures
        is_isqrt(x as int, r as int),
        r < 0x10_0000_0000_0000,
{
    let mut lo: u128 = 0;
    let mut hi: u128 = 0x10_0000_0000_0000;
    assert(hi * hi == 0x100_0000_0000_0000_0000_0000_0000);
    while hi - lo > 1
        invariant
            lo < hi <= 0x10_0000_0000_0000,
            lo * lo <= x,
            x < hi * hi,
        decreases hi - lo,
    {
        let mid = lo + (hi - lo) / 2;
        proof {
            assert(mid * mid < 0x100_0000_0000_0000_0000_0000_0000) by (nonlinear_arith)
                requires
                    mid < 0x10_0000_0000_0000,
            ;
        }
        if mid * mid <= x {
            lo = mid;
        } else {
            hi = mid;
        }
    }
    lo as u64
}

/// Fits a normal distribution to a non-empty series: its mean and its
/// population standard deviation.
pub fn normal_fit(series: &Vec<i64>) -> (fit: NormalFit)
    requires
        series@.len() > 0,
        bounded_series(series@),
    ensures
        fit.mean == mean_of(series@),
        fit.std == std_of(series@),
        -MAX_RETURN <= fit.mean <= MAX_RETURN,
        0 <= fit.std < 0x10_0000_0000_0000,
{
    let n = series.len();
    let total = series_sum(series);
    let mean = floor_div(total, n as i128);
    proof {
        let nn = n as int;
        lemma_div_is_ordered(total as int, nn * MAX_RETURN, nn);
        lemma_div_is_ordered(-(nn * MAX_RETURN), total as int, nn);
        lemma_div_multiples_vanish(MAX_RETURN as int, nn);
        lemma_div_multiples_vanish(-MAX_RETURN, nn);
        assert(nn * MAX_RETURN == MAX_RETURN * nn);
        assert(-(nn * MAX_RETURN) == nn * (-MAX_RETURN));
    }
    let dev = series_sq_dev(series, mean);
    let variance = (dev as u128) / (n as u128);
    proof {
        lemma_div_is_ordered(dev as int, dev as int, n as int);
        assert(dev <= MAX_SERIES_LEN * (MAX_SQ_DEV)) by (nonlinear_arith)
            requires
                dev <= n * (MAX_SQ_DEV),
                n <= MAX_SERIES_LEN,
        ;
    }
    let sd = isqrt(variance);
    proof {
        let v = variance_of(series@);
        assert(is_isqrt(v, sd as int));
        lemma_isqrt_unique(v, sd as int, std_of(series@));
    }
    NormalFit { mean: mean as i64, std: sd as i64 }
}

} // verus!
