use rand::rngs::StdRng;
use rand::SeedableRng;
use rand_distr::{Distribution, Normal};
use var_backend::stats::{floor_div, isqrt, normal_fit};
use var_backend::var::{
    compute_var, historical_var, monte_carlo_var, parametric_var, parse_method, quantile_index,
    Method, MONTE_CARLO_SAMPLES,
};
use var_backend::RiskError;

fn billionths(x: f64) -> i64 {
    (x * 1e9).round() as i64
}

#[test]
fn historical_example_at_eighty_percent() {
    let series = vec![-50_000_000, -20_000_000, 10_000_000, 30_000_000, 40_000_000];
    assert_eq!(historical_var(&series, 800_000), Ok(20_000_000));
}

#[test]
fn historical_sorts_unsorted_input() {
    let series = vec![40_000_000, 10_000_000, -50_000_000, 30_000_000, -20_000_000];
    assert_eq!(historical_var(&series, 800_000), Ok(20_000_000));
    assert_eq!(historical_var(&series, 950_000), Ok(50_000_000));
}

#[test]
fn historical_is_monotonic_in_confidence() {
    let series = vec![-30, 12, -7, 44, 5, -61, 18, 0, -2, 9];
    let mut last = i64::MIN;
    for c in [100_000u64, 300_000, 500_000, 800_000, 950_000, 990_000] {
        let v = historical_var(&series, c).unwrap();
        assert!(v >= last);
        last = v;
    }
}

#[test]
fn quantile_index_examples() {
    assert_eq!(quantile_index(5, 800_000), 1);
    assert_eq!(quantile_index(10_000, 950_000), 500);
    assert_eq!(quantile_index(1, 999_999), 0);
    assert_eq!(quantile_index(3, 1), 2);
}

#[test]
fn parametric_exact_value() {
    let series = vec![-20_000_000, 20_000_000];
    assert_eq!(parametric_var(&series, 950_000, 1_644_854), Ok(32_897_080));
}

#[test]
fn normal_fit_mean_and_population_std() {
    let fit = normal_fit(&vec![2, 4, 4, 4, 5, 5, 7, 9]);
    assert_eq!(fit.mean, 5);
    assert_eq!(fit.std, 2);
    let fit = normal_fit(&vec![-3, -4]);
    assert_eq!(fit.mean, -4);
    assert_eq!(fit.std, 0);
}

#[test]
fn isqrt_and_floor_div() {
    assert_eq!(isqrt(0), 0);
    assert_eq!(isqrt(15), 3);
    assert_eq!(isqrt(16), 4);
    assert_eq!(floor_div(-7, 2), -4);
    assert_eq!(floor_div(7, 2), 3);
    assert_eq!(floor_div(-8, 2), -4);
}

#[test]
fn parametric_and_monte_carlo_agree_on_a_large_normal_sample() {
    let mut rng = StdRng::seed_from_u64(7);
    let source = Normal::new(0.0, 0.02).unwrap();
    let series: Vec<i64> = (0..50_000).map(|_| billionths(source.sample(&mut rng))).collect();
    let parametric = parametric_var(&series, 950_000, 1_644_854).unwrap();
    let fit = normal_fit(&series);
    let fitted = Normal::new(fit.mean as f64 / 1e9, fit.std as f64 / 1e9).unwrap();
    let simulated: Vec<i64> =
        (0..MONTE_CARLO_SAMPLES).map(|_| billionths(fitted.sample(&mut rng))).collect();
    let simulation = monte_carlo_var(&series, 950_000, &simulated).unwrap();
    let gap = (parametric - simulation).abs() as f64;
    assert!(gap <= 0.05 * parametric.abs() as f64);
}

#[test]
fn empty_series_is_invalid_for_every_method() {
    for m in ["historical", "parametric", "montecarlo"] {
        assert_eq!(
            compute_var(m, &vec![], 950_000, 1_644_854, &vec![1, 2, 3]),
            Err(RiskError::InvalidParameter)
        );
    }
}

#[test]
fn confidence_outside_open_unit_interval_is_invalid() {
    for c in [0u64, 1_000_000, 2_000_000] {
        assert_eq!(historical_var(&vec![1], c), Err(RiskError::InvalidParameter));
        assert_eq!(parametric_var(&vec![1], c, 0), Err(RiskError::InvalidParameter));
        assert_eq!(monte_carlo_var(&vec![1], c, &vec![1]), Err(RiskError::InvalidParameter));
    }
}

#[test]
fn monte_carlo_without_draws_is_invalid() {
    assert_eq!(monte_carlo_var(&vec![1], 950_000, &vec![]), Err(RiskError::InvalidParameter));
}

#[test]
fn unknown_method_is_reported() {
    assert_eq!(compute_var("bogus", &vec![10_000_000], 950_000, 0, &vec![]), Err(RiskError::InvalidMethod));
    assert_eq!(parse_method("Historical"), Err(RiskError::InvalidMethod));
}

#[test]
fn method_selectors() {
    assert_eq!(parse_method("historical"), Ok(Method::Historical));
    assert_eq!(parse_method("parametric"), Ok(Method::Parametric));
    assert_eq!(parse_method("montecarlo"), Ok(Method::MonteCarlo));
}

#[test]
fn compute_dispatches_to_each_method() {
    let series = vec![-50_000_000, -20_000_000, 10_000_000, 30_000_000, 40_000_000];
    let draws = vec![-7, 3, -1, 9, 4];
    assert_eq!(compute_var("historical", &series, 800_000, 0, &draws), Ok(20_000_000));
    assert_eq!(
        compute_var("parametric", &series, 800_000, 841_621, &series),
        parametric_var(&series, 800_000, 841_621)
    );
    assert_eq!(compute_var("montecarlo", &series, 800_000, 0, &draws), Ok(1));
}
