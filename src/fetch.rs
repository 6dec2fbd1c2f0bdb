use vstd::prelude::*;
use crate::RiskError;
use crate::series::{
    PricePoint, valid_price, valid_points, ascending_days, sort_by_day, SECONDS_PER_DAY,
    WINDOW_DAYS, MAX_PRICE,
};

verus! {

broadcast use vstd::seq_lib::group_to_multiset_ensures, vstd::multiset::group_multiset_axioms;

/// The price source that was asked last.
#[derive(Clone, Copy, Debug, PartialEq, Eq, Structural)]
pub enum FetchStage {
    Primary,
    Secondary,
}

/// How an attempt on a price source ended.
#[derive(Clone, Copy, Debug, PartialEq, Eq, Structural)]
pub enum SourceOutcome {
    /// A decodable payload without an error marker.
    Delivered,
    /// The request did not complete.
    TransportError,
    /// The response status was not a success.
    BadStatus,
    /// The payload could not be decoded.
    Undecodable,
    /// The payload carries an error, rate-limit or informational marker.
    ErrorMarked,
}

/// What the fetch does next.
#[derive(Clone, Copy, Debug, PartialEq, Eq, Structural)]
pub enum FetchAction {
    /// Ask the secondary source.
    AskSecondary,
    /// Use the prices that the primary source delivered.
    UsePrimary,
    /// Use the prices that the secondary source delivered.
    UseSecondary,
    /// Stop with this error.
    Fail(RiskError),
}

/// The fallback policy: the primary source first; on any failure of it the
/// secondary source once, which needs a credential; the secondary's answer is final.
pub open spec fn fetch_next(stage: FetchStage, outcome: SourceOutcome, has_credential: bool) -> FetchAction {
    match stage {
        FetchStage::Primary => if outcome == SourceOutcome::Delivered {
            FetchAction::UsePrimary
        } else if !has_credential {
            FetchAction::Fail(RiskError::ConfigurationError)
        } else {
            FetchAction::AskSecondary
        },
        FetchStage::Secondary => match outcome {
            SourceOutcome::Delivered => FetchAction::UseSecondary,
            SourceOutcome::Undecodable => FetchAction::Fail(RiskError::DecodeError),
            _ => FetchAction::Fail(RiskError::UpstreamError),
        },
    }
}

/// Decides the next step of a fetch after an attempt on `stage` ended with `outcome`.
pub fn next_fetch_action(stage: FetchStage, outcome: SourceOutcome, has_credential: bool) -> (r:
    FetchAction)
    ensures
        r == fetch_next(stage, outcome, has_credential),
{
    match stage {
        FetchStage::Primary => {
            if outcome == SourceOutcome::Delivered {
                FetchAction::UsePrimary
            } else if !has_credential {
                FetchAction::Fail(RiskError::ConfigurationError)
            } else {
                FetchAction::AskSecondary
            }
        },
        FetchStage::Secondary => match outcome {
            SourceOutcome::Delivered => FetchAction::UseSecondary,
            SourceOutcome::Undecodable => FetchAction::Fail(RiskError::DecodeError),
            _ => FetchAction::Fail(RiskError::UpstreamError),
        },
    }
}

/// A failed primary attempt leads to exactly one secondary attempt (given the
/// credential), and whatever the secondary attempt gives ends the fetch: no
/// source is asked again.
pub proof fn lemma_single_fallback(primary: SourceOutcome, secondary: SourceOutcome, has_credential: bool)
    requires
        primary != SourceOutcome::Delivered,
    ensures
        has_credential ==> fetch_next(FetchStage::Primary, primary, has_credential)
            == FetchAction::AskSecondary,
        !has_credential ==> fetch_next(FetchStage::Primary, primary, has_credential)
            == FetchAction::Fail(RiskError::ConfigurationError),
        fetch_next(FetchStage::Secondary, secondary, has_credential) != FetchAction::AskSecondary,
        secondary == SourceOutcome::Delivered <==> fetch_next(
            FetchStage::Secondary,
            secondary,
            has_credential,
        ) == FetchAction::UseSecondary,
{
}

/// The points of `s` whose price is valid, in their order.
pub open spec fn priced_points(s: Seq<PricePoint>) -> Seq<PricePoint>
    decreases s.len(),
{
    if s.len() == 0 {
        Seq::empty()
    } else if valid_price(s.last().price) {
        priced_points(s.drop_last()).push(s.last())
    } else {
        priced_points(s.drop_last())
    }
}

/// The secondary source's daily series as a price series: points without a
/// valid price dropped, the rest ascending by day.
pub fn secondary_points(points: &Vec<PricePoint>) -> (r: Vec<PricePoint>)
    ensures
        ascending_days(r@),
        r@.to_multiset() == priced_points(points@).to_multiset(),
        valid_points(r@),
{
    let mut kept: Vec<PricePoint> = Vec::new();
    let mut i: usize = 0;
    while i < points.len()
        invariant
            i <= points@.len(),
            kept@ == priced_points(points@.subrange(0, i as int)),
            valid_points(kept@),
        decreases points@.len() - i,
    {
        proof {
            assert(points@.subrange(0, i + 1).drop_last() =~= points@.subrange(0, i as int));
        }
        let p = points[i];
        if p.price > 0 && p.price <= MAX_PRICE {
            kept.push(p);
        }
        i = i + 1;
    }
    proof {
        assert(points@.subrange(0, points@.len() as int) =~= points@);
    }
    let ghost before = kept@;
    sort_by_day(&mut kept);
    proof {
        assert forall|j: int| 0 <= j < kept@.len() implies valid_price(#[trigger] kept@[j].price) by {
            let x = kept@[j];
            assert(kept@.contains(x));
            assert(kept@.to_multiset().count(x) > 0);
            assert(before.to_multiset().count(x) > 0);
            assert(before.contains(x));
        }
    }
    kept
}

/// The ticker as the price sources expect it.
pub uninterp spec fn upper_of(s: Seq<char>) -> Seq<char>;

/// Relies on str::to_uppercase: the result depends on the characters alone.
#[verifier::external_body]
fn uppercase(s: &str) -> (r: String)
    ensures
        r@ == upper_of(s@),
{
    s.to_uppercase()
}

/// A request for a symbol's daily prices over a window of Unix seconds.
#[derive(Clone, Debug)]
pub struct PriceQuery {
    pub symbol: String,
    pub start: i64,
    pub end: i64,
}

/// The request for the trailing `WINDOW_DAYS`-day window that ends at `now`
/// (Unix seconds), for the ticker in upper case.
pub fn price_query(ticker: &str, now: i64) -> (q: PriceQuery)
    requires
        now >= i64::MIN + WINDOW_DAYS * SECONDS_PER_DAY,
    ensures
        q.symbol@ == upper_of(ticker@),
        q.end == now,
        q.start == now - WINDOW_DAYS * SECONDS_PER_DAY,
{
    PriceQuery { symbol: uppercase(ticker), start: now - WINDOW_DAYS * SECONDS_PER_DAY, end: now }
}

} // verus!
