use vstd::prelude::*;
use crate::RiskError;
use crate::order::{sorted_seq, sort_ascending, lemma_sorted_seq, lemma_sorted_seq_members};
use crate::stats::{mean_of, std_of, normal_fit, floor_div};
use vstd::arithmetic::div_mod::lemma_div_is_ordered;

verus! {

/// A confidence level is held in millionths: 950_000 stands for 0.95.
pub const CONFIDENCE_SCALE: u64 = 1_000_000;

/// Returns are held in billionths: 50_000_000 stands for a return of 0.05.
pub const RETURN_SCALE: i64 = 1_000_000_000;

/// The largest magnitude of a return, in billionths (2^40, a little over 1099).
pub const MAX_RETURN: i64 = 1_099_511_627_776;

/// The longest series the estimators take (2^20 values).
pub const MAX_SERIES_LEN: usize = 1_048_576;

/// The number of draws that a Monte Carlo estimate is made from.
pub const MONTE_CARLO_SAMPLES: usize = 10_000;

/// A standard-normal quantile is held in millionths: 1_644_854 stands for 1.644854.
pub const Z_SCALE: i64 = 1_000_000;

/// The largest magnitude of a standard-normal quantile, in millionths.
pub const MAX_Z: i64 = 100_000_000;

/// A confidence level strictly between 0 and 1.
pub open spec fn valid_confidence(confidence: u64) -> bool {
    0 < confidence < CONFIDENCE_SCALE
}

/// A series short enough, and with values small enough, for exact fixed-point arithmetic.
pub open spec fn bounded_series(s: Seq<i64>) -> bool {
    &&& s.len() <= MAX_SERIES_LEN
    &&& forall|i: int| 0 <= i < s.len() ==> -MAX_RETURN <= #[trigger] s[i] <= MAX_RETURN
}

/// The position of the tail quantile in an ascending series of `n` values:
/// floor((1 - confidence) * n), clamped into [0, n - 1].
pub open spec fn tail_index(n: int, confidence: int) -> int {
    let k = (CONFIDENCE_SCALE - confidence) * n / (CONFIDENCE_SCALE as int);
    if k > n - 1 {
        n - 1
    } else if k < 0 {
        0
    } else {
        k
    }
}

/// Historical simulation: the negated tail quantile of the observed returns.
pub open spec fn historical_of(s: Seq<i64>, confidence: u64) -> int {
    -sorted_seq(s)[tail_index(s.len() as int, confidence as int)]
}

/// The position of the tail quantile in `n` ascending values.
pub fn quantile_index(n: usize, confidence: u64) -> (r: usize)
    requires
        0 < n <= MAX_SERIES_LEN,
        valid_confidence(confidence),
    ensures
        r == tail_index(n as int, confidence as int),
        r < n,
{
    proof {
        assert((CONFIDENCE_SCALE - confidence) * n <= CONFIDENCE_SCALE * MAX_SERIES_LEN)
            by (nonlinear_arith)
            requires
                CONFIDENCE_SCALE - confidence <= CONFIDENCE_SCALE,
                n <= MAX_SERIES_LEN,
        ;
    }
    let k: u64 = ((CONFIDENCE_SCALE - confidence) * (n as u64)) / CONFIDENCE_SCALE;
    if k as usize > n - 1 {
        n - 1
    } else {
        k as usize
    }
}

/// The negated tail quantile of `values`, which must be non-empty.
fn tail_loss(values: &Vec<i64>, confidence: u64) -> (r: i64)
    requires
        values@.len() > 0,
        bounded_series(values@),
        valid_confidence(confidence),
    ensures
        r == historical_of(values@, confidence),
{
    let mut sorted = values.clone();
    proof {
        assert(sorted@ == values@);
        lemma_sorted_seq(values@);
    }
    sort_ascending(&mut sorted);
    let idx = quantile_index(sorted.len(), confidence);
    proof {
        lemma_sorted_seq_members(values@);
        let x = sorted@[idx as int];
        assert(values@.contains(x));
    }
    -sorted[idx]
}

/// Value-at-Risk by historical simulation: sort the series ascending and
/// negate the one at floor((1 - confidence) * n).
pub fn historical_var(series: &Vec<i64>, confidence: u64) -> (r: Result<i64, RiskError>)
    requires
        bounded_series(series@),
    ensures
        series@.len() == 0 || !valid_confidence(confidence) ==> r == Err::<i64, RiskError>(
            RiskError::InvalidParameter,
        ),
        series@.len() > 0 && valid_confidence(confidence) ==> (r matches Ok(v) && v
            == historical_of(series@, confidence)),
{
    if series.len() == 0 || confidence == 0 || confidence >= CONFIDENCE_SCALE {
        return Err(RiskError::InvalidParameter);
    }
    Ok(tail_loss(series, confidence))
}

/// The three ways of estimating Value-at-Risk.
#[derive(Clone, Copy, Debug, PartialEq, Eq, Structural)]
pub enum Method {
    Historical,
    Parametric,
    MonteCarlo,
}

/// The method that a selector names, if any.
pub open spec fn method_named(name: Seq<char>) -> Option<Method> {
    if name == "historical"@ {
        Some(Method::Historical)
    } else if name == "parametric"@ {
        Some(Method::Parametric)
    } else if name == "montecarlo"@ {
        Some(Method::MonteCarlo)
    } else {
        None
    }
}

/// Reads a method selector: "historical", "parametric" or "montecarlo".
pub fn parse_method(name: &str) -> (r: Result<Method, RiskError>)
    ensures
        r == (match method_named(name@) {
            Some(m) => Ok::<Method, RiskError>(m),
            None => Err(RiskError::InvalidMethod),
        }),
{
    let given = name.to_owned();
    if given == "historical".to_owned() {
        Ok(Method::Historical)
    } else if given == "parametric".to_owned() {
        Ok(Method::Parametric)
    } else if given == "montecarlo".to_owned() {
        Ok(Method::MonteCarlo)
    } else {
        Err(RiskError::InvalidMethod)
    }
}

/// Variance-covariance estimate: the negated lower bound mean - z * std, where
/// `z` is the standard-normal quantile at the confidence level, in millionths.
pub open spec fn parametric_of(s: Seq<i64>, z: int) -> int {
    (z * std_of(s)) / (Z_SCALE as int) - mean_of(s)
}

/// Value-at-Risk by the variance-covariance method, with `z` the
/// standard-normal quantile at `confidence` (in millionths).
pub fn parametric_var(series: &Vec<i64>, confidence: u64, z: i64) -> (r: Result<i64, RiskError>)
    requires
        bounded_series(series@),
        -MAX_Z <= z <= MAX_Z,
    ensures
        series@.len() == 0 || !valid_confidence(confidence) ==> r == Err::<i64, RiskError>(
            RiskError::InvalidParameter,
        ),
        series@.len() > 0 && valid_confidence(confidence) ==> (r matches Ok(v) && v
            == parametric_of(series@, z as int)),
{
    if series.len() == 0 || confidence == 0 || confidence >= CONFIDENCE_SCALE {
        return Err(RiskError::InvalidParameter);
    }
    let fit = normal_fit(series);
    let ghost bound: int = MAX_Z * 0x10_0000_0000_0000;
    proof {
        assert(-bound <= z * fit.std <= bound) by (nonlinear_arith)
            requires
                -MAX_Z <= z <= MAX_Z,
                0 <= fit.std < 0x10_0000_0000_0000,
                bound == MAX_Z * 0x10_0000_0000_0000,
        ;
    }
    let spread = (z as i128) * (fit.std as i128);
    proof {
        lemma_div_is_ordered(spread as int, bound, Z_SCALE as int);
        lemma_div_is_ordered(-bound, spread as int, Z_SCALE as int);
    }
    let scaled = floor_div(spread, Z_SCALE as i128);
    Ok((scaled - fit.mean as i128) as i64)
}

/// Value-at-Risk by Monte Carlo simulation: the historical estimate taken over
/// `simulated`, draws from the normal distribution that `normal_fit` gives for
/// the series.
pub fn monte_carlo_var(series: &Vec<i64>, confidence: u64, simulated: &Vec<i64>) -> (r: Result<
    i64,
    RiskError,
>)
    requires
        bounded_series(series@),
        bounded_series(simulated@),
    ensures
        series@.len() == 0 || simulated@.len() == 0 || !valid_confidence(confidence) ==> r
            == Err::<i64, RiskError>(RiskError::InvalidParameter),
        series@.len() > 0 && simulated@.len() > 0 && valid_confidence(confidence) ==> (r matches Ok(
            v,
        ) && v == historical_of(simulated@, confidence)),
{
    if series.len() == 0 || simulated.len() == 0 || confidence == 0 || confidence
        >= CONFIDENCE_SCALE {
        return Err(RiskError::InvalidParameter);
    }
    Ok(tail_loss(simulated, confidence))
}

/// Value-at-Risk of `series` at `confidence` by the method that `method` names.
/// `z` (the standard-normal quantile at `confidence`) is read by the parametric
/// method only, `simulated` (the Monte Carlo draws) by the Monte Carlo method only.
pub fn compute_var(
    method: &str,
    series: &Vec<i64>,
    confidence: u64,
    z: i64,
    simulated: &Vec<i64>,
) -> (r: Result<i64, RiskError>)
    requires
        bounded_series(series@),
        bounded_series(simulated@),
        -MAX_Z <= z <= MAX_Z,
    ensures
        method_named(method@) is None ==> r == Err::<i64, RiskError>(RiskError::InvalidMethod),
        method_named(method@) is Some && (series@.len() == 0 || !valid_confidence(confidence))
            ==> r == Err::<i64, RiskError>(RiskError::InvalidParameter),
        method_named(method@) == Some(Method::MonteCarlo) && simulated@.len() == 0 ==> r == Err::<
            i64,
            RiskError,
        >(RiskError::InvalidParameter),
        series@.len() > 0 && valid_confidence(confidence) ==> {
            &&& method_named(method@) == Some(Method::Historical) ==> (r matches Ok(v) && v
                == historical_of(series@, confidence))
            &&& method_named(method@) == Some(Method::Parametric) ==> (r matches Ok(v) && v
                == parametric_of(series@, z as int))
            &&& method_named(method@) == Some(Method::MonteCarlo) && simulated@.len() > 0 ==> (
            r matches Ok(v) && v == historical_of(simulated@, confidence))
        },
{
    match parse_method(method) {
        Err(e) => Err(e),
        Ok(Method::Historical) => historical_var(series, confidence),
        Ok(Method::Parametric) => parametric_var(series, confidence, z),
        Ok(Method::MonteCarlo) => monte_carlo_var(series, confidence, simulated),
    }
}

/// For a valid confidence level the clamp never acts: the historical estimate
/// is the negated value at floor((1 - confidence) * n) of the sorted series.
/// A higher confidence level never gives a smaller historical estimate.
pub proof fn lemma_historical_monotonic(s: Seq<i64>, low: u64, high: u64)
    requires
        s.len() > 0,
        valid_confidence(low),
        valid_confidence(high),
        low <= high,
    ensures
        historical_of(s, low) == -sorted_seq(s)[(CONFIDENCE_SCALE - low) * s.len()
            / (CONFIDENCE_SCALE as int)],
        historical_of(s, low) <= historical_of(s, high),
{
    let n = s.len() as int;
    let scale = CONFIDENCE_SCALE as int;
    assert((CONFIDENCE_SCALE - low) * n < scale * n) by (nonlinear_arith)
        requires
            0 < low,
            n > 0,
            scale == CONFIDENCE_SCALE,
    ;
    assert((CONFIDENCE_SCALE - high) * n <= (CONFIDENCE_SCALE - low) * n) by (nonlinear_arith)
        requires
            low <= high,
            n > 0,
    ;
    assert(0 <= (CONFIDENCE_SCALE - high) * n) by (nonlinear_arith)
        requires
            high < CONFIDENCE_SCALE,
            n > 0,
    ;
    lemma_div_is_ordered((CONFIDENCE_SCALE - high) * n, (CONFIDENCE_SCALE - low) * n, scale);
    lemma_div_is_ordered(0, (CONFIDENCE_SCALE - high) * n, scale);
    lemma_div_is_ordered((CONFIDENCE_SCALE - low) * n, scale * n - 1, scale);
    assert((scale * n - 1) / scale < n) by (nonlinear_arith)
        requires
            scale > 0,
            n > 0,
    ;
    lemma_sorted_seq(s);
}

/// A request for a Value-at-Risk estimate: the method selector, the return
/// series in billionths and the confidence level in millionths.
#[derive(Clone, Debug)]
pub struct VarRequest {
    pub method: String,
    pub series: Vec<i64>,
    pub confidence: u64,
}

} // verus!
