use vstd::prelude::*;
use crate::RiskError;
use crate::stats::floor_div;
use crate::var::{MAX_RETURN, RETURN_SCALE, MAX_SERIES_LEN, bounded_series};

verus! {

broadcast use vstd::seq_lib::group_to_multiset_ensures, vstd::multiset::group_multiset_axioms;

/// Seconds in a calendar day.
pub const SECONDS_PER_DAY: i64 = 86_400;

/// The length of the trailing price window, in days.
pub const WINDOW_DAYS: i64 = 365;

/// The number of most recent rows that a preview shows.
pub const PREVIEW_ROWS: usize = 5;

/// The largest price, in millionths (2^40).
pub const MAX_PRICE: u64 = 1_099_511_627_776;

/// A daily price: the UTC day number (days since 1970-01-01) and the price in millionths.
#[derive(Clone, Copy, Debug, PartialEq, Eq, Structural)]
pub struct PricePoint {
    pub day: i64,
    pub price: u64,
}

/// One row of the preview: the day of a price and the return that led to it.
#[derive(Clone, Copy, Debug, PartialEq, Eq, Structural)]
pub struct PreviewRow {
    pub day: i64,
    pub ret: i64,
}

/// A price that the return arithmetic takes: positive and at most `MAX_PRICE`.
pub open spec fn valid_price(p: u64) -> bool {
    0 < p <= MAX_PRICE
}

/// The UTC day on which a Unix timestamp falls.
pub open spec fn day_of_timestamp(ts: int) -> int {
    ts / (SECONDS_PER_DAY as int)
}

/// The points of a chart's first `k` positions: a position whose timestamp or
/// price is missing, or whose price is not valid, is dropped.
pub open spec fn chart_points_upto(ts: Seq<Option<i64>>, ps: Seq<Option<u64>>, k: int) -> Seq<
    PricePoint,
>
    decreases k,
{
    if k <= 0 {
        Seq::empty()
    } else {
        let prev = chart_points_upto(ts, ps, k - 1);
        match (ts[k - 1], ps[k - 1]) {
            (Some(t), Some(p)) => if valid_price(p) {
                prev.push(PricePoint { day: day_of_timestamp(t as int) as i64, price: p })
            } else {
                prev
            },
            _ => prev,
        }
    }
}

/// The points of a chart: timestamps and prices paired by position, up to the shorter list.
pub open spec fn chart_points(ts: Seq<Option<i64>>, ps: Seq<Option<u64>>) -> Seq<PricePoint> {
    chart_points_upto(ts, ps, if ts.len() <= ps.len() { ts.len() as int } else { ps.len() as int })
}

/// Pairs a chart's timestamps and prices by position into daily points.
pub fn points_from_chart(timestamps: &Vec<Option<i64>>, prices: &Vec<Option<u64>>) -> (r: Vec<
    PricePoint,
>)
    ensures
        r@ == chart_points(timestamps@, prices@),
{
    let n = if timestamps.len() <= prices.len() {
        timestamps.len()
    } else {
        prices.len()
    };
    let mut out: Vec<PricePoint> = Vec::new();
    let mut i: usize = 0;
    while i < n
        invariant
            i <= n,
            n <= timestamps@.len(),
            n <= prices@.len(),
            out@ == chart_points_upto(timestamps@, prices@, i as int),
        decreases n - i,
    {
        match (timestamps[i], prices[i]) {
            (Some(t), Some(p)) => {
                if p > 0 && p <= MAX_PRICE {
                    let day = floor_div(t as i128, SECONDS_PER_DAY as i128);
                    out.push(PricePoint { day: day as i64, price: p });
                }
            },
            _ => {},
        }
        i = i + 1;
    }
    out
}

/// Points in ascending order of day.
pub open spec fn ascending_days(s: Seq<PricePoint>) -> bool {
    forall|a: int, b: int| 0 <= a < b < s.len() ==> s[a].day <= s[b].day
}

/// Sorts points ascending by day (insertion sort; points of equal day keep their order).
pub fn sort_by_day(v: &mut Vec<PricePoint>)
    ensures
        ascending_days(final(v)@),
        final(v)@.to_multiset() == old(v)@.to_multiset(),
{
    let n = v.len();
    let mut i: usize = 0;
    while i < n
        invariant
            n == v.len(),
            i <= n,
            v@.to_multiset() == old(v)@.to_multiset(),
            forall|a: int, b: int| 0 <= a < b < i ==> v[a].day <= v[b].day,
        decreases n - i,
    {
        let mut j: usize = i;
        while j > 0 && v[j - 1].day > v[j].day
            invariant
                n == v.len(),
                j <= i < n,
                v@.to_multiset() == old(v)@.to_multiset(),
                forall|a: int, b: int|
                    0 <= a < b <= i && a != j && b != j ==> v[a].day <= v[b].day,
                forall|b: int| j < b <= i ==> v[j as int].day < v[b].day,
            decreases j,
        {
            let lo = v[j - 1];
            let hi = v[j];
            let ghost before = v@;
            v.set(j - 1, hi);
            proof {
                assert(before.update(j - 1, hi).to_multiset() == before.to_multiset().insert(
                    hi,
                ).remove(lo));
            }
            let ghost mid = v@;
            v.set(j, lo);
            proof {
                assert(mid.update(j as int, lo).to_multiset() == mid.to_multiset().insert(
                    lo,
                ).remove(hi));
                assert(v@.to_multiset() =~= before.to_multiset());
            }
            j = j - 1;
        }
        i = i + 1;
    }
}

/// The simple return from price `p0` to price `p1`, in billionths:
/// (p1 - p0) / p0 rounded down, held at `MAX_RETURN` above.
pub open spec fn simple_return(p0: int, p1: int) -> int {
    let r = ((p1 - p0) * RETURN_SCALE) / p0;
    if r > MAX_RETURN {
        MAX_RETURN as int
    } else {
        r
    }
}

/// The return between consecutive points `i` and `i + 1`.
pub open spec fn return_at(s: Seq<PricePoint>, i: int) -> int {
    simple_return(s[i].price as int, s[i + 1].price as int)
}

/// Every point has a valid price.
pub open spec fn valid_points(s: Seq<PricePoint>) -> bool {
    forall|i: int| 0 <= i < s.len() ==> valid_price(#[trigger] s[i].price)
}

/// The return from price `p0` to price `p1`.
fn step_return(p0: u64, p1: u64) -> (r: i64)
    requires
        valid_price(p0),
        valid_price(p1),
    ensures
        r == simple_return(p0 as int, p1 as int),
        -RETURN_SCALE <= r <= MAX_RETURN,
{
    proof {
        assert(-(MAX_PRICE * RETURN_SCALE) <= (p1 - p0) * RETURN_SCALE <= MAX_PRICE * RETURN_SCALE)
            by (nonlinear_arith)
            requires
                0 < p0 <= MAX_PRICE,
                0 < p1 <= MAX_PRICE,
        ;
    }
    let gain: i128 = (p1 as i128 - p0 as i128) * (RETURN_SCALE as i128);
    proof {
        assert(gain >= -(p0 * RETURN_SCALE)) by (nonlinear_arith)
            requires
                gain == (p1 - p0) * RETURN_SCALE,
                0 < p0,
                0 < p1,
        ;
        vstd::arithmetic::div_mod::lemma_div_is_ordered(-(p0 * RETURN_SCALE), gain as int, p0 as int);
        vstd::arithmetic::div_mod::lemma_div_multiples_vanish(-RETURN_SCALE, p0 as int);
        assert(-(p0 * RETURN_SCALE) == p0 * (-RETURN_SCALE)) by (nonlinear_arith);
    }
    let q = floor_div(gain, p0 as i128);
    if q > MAX_RETURN as i128 {
        MAX_RETURN
    } else {
        q as i64
    }
}

/// Simple daily returns of chronological points, one for each consecutive pair,
/// and a preview of the last (up to `PREVIEW_ROWS`) of them with their days.
pub fn derive_returns(points: &Vec<PricePoint>) -> (r: (Vec<i64>, Vec<PreviewRow>))
    requires
        valid_points(points@),
    ensures
        points@.len() <= 1 ==> r.0@.len() == 0,
        points@.len() > 1 ==> r.0@.len() == points@.len() - 1,
        forall|i: int| 0 <= i < r.0@.len() ==> #[trigger] r.0@[i] == return_at(points@, i),
        points@.len() <= MAX_SERIES_LEN ==> bounded_series(r.0@),
        r.1@.len() == if r.0@.len() < PREVIEW_ROWS { r.0@.len() } else { PREVIEW_ROWS as nat },
        forall|k: int|
            0 <= k < r.1@.len() ==> #[trigger] r.1@[k] == (PreviewRow {
                day: points@[r.0@.len() - r.1@.len() + k + 1].day,
                ret: r.0@[r.0@.len() - r.1@.len() + k],
            }),
{
    let mut rets: Vec<i64> = Vec::new();
    let mut i: usize = 1;
    while i < points.len()
        invariant
            1 <= i,
            i <= points@.len() || i == 1,
            valid_points(points@),
            rets@.len() == i - 1,
            forall|k: int| 0 <= k < rets@.len() ==> #[trigger] rets@[k] == return_at(points@, k),
            forall|k: int|
                0 <= k < rets@.len() ==> -RETURN_SCALE <= #[trigger] rets@[k] <= MAX_RETURN,
        decreases points@.len() - i,
    {
        let r = step_return(points[i - 1].price, points[i].price);
        rets.push(r);
        i = i + 1;
    }
    proof {
        assert(points@.len() > 0 ==> i == points@.len());
    }
    let n = rets.len();
    let m = if n < PREVIEW_ROWS {
        n
    } else {
        PREVIEW_ROWS
    };
    let mut preview: Vec<PreviewRow> = Vec::new();
    let mut k: usize = 0;
    while k < m
        invariant
            k <= m,
            m <= n,
            n == rets@.len(),
            n > 0 ==> n == points@.len() - 1,
            preview@.len() == k,
            forall|j: int|
                0 <= j < k ==> #[trigger] preview@[j] == (PreviewRow {
                    day: points@[n - m + j + 1].day,
                    ret: rets@[n - m + j],
                }),
        decreases m - k,
    {
        let at = n - m + k;
        preview.push(PreviewRow { day: points[at + 1].day, ret: rets[at] });
        k = k + 1;
    }
    (rets, preview)
}

} // verus!
