use var_backend::fetch::{
    next_fetch_action, price_query, secondary_points, FetchAction, FetchStage, SourceOutcome,
};
use var_backend::series::{derive_returns, points_from_chart, PreviewRow, PricePoint};
use var_backend::RiskError;

fn point(day: i64, price: u64) -> PricePoint {
    PricePoint { day, price }
}

#[test]
fn returns_and_preview_of_three_prices() {
    let points = vec![point(19_000, 100_000_000), point(19_001, 105_000_000), point(19_002, 103_000_000)];
    let (rets, preview) = derive_returns(&points);
    assert_eq!(rets, vec![50_000_000, -19_047_620]);
    assert_eq!(
        preview,
        vec![PreviewRow { day: 19_001, ret: 50_000_000 }, PreviewRow { day: 19_002, ret: -19_047_620 }]
    );
}

#[test]
fn short_price_series_give_no_returns() {
    assert_eq!(derive_returns(&vec![]), (vec![], vec![]));
    assert_eq!(derive_returns(&vec![point(1, 5)]), (vec![], vec![]));
}

#[test]
fn preview_keeps_the_last_five_in_order() {
    let points: Vec<PricePoint> = (0..8).map(|d| point(d, 1_000_000 + d as u64 * 1_000_000)).collect();
    let (rets, preview) = derive_returns(&points);
    assert_eq!(rets.len(), 7);
    assert_eq!(preview.len(), 5);
    let days: Vec<i64> = preview.iter().map(|r| r.day).collect();
    assert_eq!(days, vec![3, 4, 5, 6, 7]);
    assert_eq!(preview[4].ret, rets[6]);
    assert_eq!(preview[0].ret, rets[2]);
}

#[test]
fn chart_pairs_by_position_and_drops_gaps() {
    let ts = vec![Some(86_400), None, Some(3 * 86_400 + 5), Some(-1), Some(9 * 86_400)];
    let ps = vec![Some(10), Some(11), None, Some(12)];
    assert_eq!(points_from_chart(&ts, &ps), vec![point(1, 10), point(-1, 12)]);
}

#[test]
fn secondary_series_sorted_by_day_without_zero_prices() {
    let raw = vec![point(5, 50), point(2, 20), point(9, 0), point(3, 30)];
    assert_eq!(secondary_points(&raw), vec![point(2, 20), point(3, 30), point(5, 50)]);
}

#[test]
fn primary_transport_error_asks_the_secondary_once() {
    assert_eq!(
        next_fetch_action(FetchStage::Primary, SourceOutcome::TransportError, true),
        FetchAction::AskSecondary
    );
    for o in [
        SourceOutcome::Delivered,
        SourceOutcome::TransportError,
        SourceOutcome::BadStatus,
        SourceOutcome::Undecodable,
        SourceOutcome::ErrorMarked,
    ] {
        assert_ne!(next_fetch_action(FetchStage::Secondary, o, true), FetchAction::AskSecondary);
    }
    assert_eq!(
        next_fetch_action(FetchStage::Secondary, SourceOutcome::Delivered, true),
        FetchAction::UseSecondary
    );
    assert_eq!(
        next_fetch_action(FetchStage::Secondary, SourceOutcome::TransportError, true),
        FetchAction::Fail(RiskError::UpstreamError)
    );
}

#[test]
fn fallback_outcomes() {
    assert_eq!(
        next_fetch_action(FetchStage::Primary, SourceOutcome::Delivered, false),
        FetchAction::UsePrimary
    );
    assert_eq!(
        next_fetch_action(FetchStage::Primary, SourceOutcome::ErrorMarked, false),
        FetchAction::Fail(RiskError::ConfigurationError)
    );
    assert_eq!(
        next_fetch_action(FetchStage::Secondary, SourceOutcome::ErrorMarked, true),
        FetchAction::Fail(RiskError::UpstreamError)
    );
    assert_eq!(
        next_fetch_action(FetchStage::Secondary, SourceOutcome::Undecodable, true),
        FetchAction::Fail(RiskError::DecodeError)
    );
}

#[test]
fn query_uppercases_and_spans_a_year() {
    let q = price_query("aapl", 1_700_000_000);
    assert_eq!(q.symbol, "AAPL");
    assert_eq!(q.end, 1_700_000_000);
    assert_eq!(q.start, 1_700_000_000 - 365 * 86_400);
}
