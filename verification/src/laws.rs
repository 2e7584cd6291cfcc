//! What holds of every clipped curve.

use vstd::prelude::*;
use crate::binary64::{gt, le, lt, nan, same};
use crate::clipping::{
    blanked_point, clipped, clipped_before, crosses, crossings, crossings_at, crossings_before,
    inserted_at, placed_point, straddles, Crossing, Resolved,
};
use crate::point::{SamplePoint, Series};

verus! {

/// Where a series crosses the bound, the line between the two samples can
/// be followed to it: both values and the bound are numbers, and the two
/// values differ.
pub proof fn lemma_crossing_values_differ(y0: u64, y1: u64, bound: u64)
    requires
        straddles(y0, y1, bound),
    ensures
        !nan(y0),
        !nan(y1),
        !nan(bound),
        !same(y0, y1),
{
}

/// No value of the curve lies above the bound.
pub open spec fn within_bound(curve: Seq<SamplePoint>, bound: u64) -> bool {
    forall|k: int|
        0 <= k < curve.len() ==> !gt((#[trigger] curve[k]).y1, bound) && !gt(curve[k].y2, bound)
}

/// The radii strictly increase along the curve.
pub open spec fn radii_increase(curve: Seq<SamplePoint>) -> bool {
    forall|a: int, b: int|
        0 <= a < b < curve.len() ==> lt((#[trigger] curve[a]).x, (#[trigger] curve[b]).x)
}

/// The radii never decrease along the curve.
pub open spec fn radii_ascend(curve: Seq<SamplePoint>) -> bool {
    forall|a: int, b: int|
        0 <= a < b < curve.len() ==> le((#[trigger] curve[a]).x, (#[trigger] curve[b]).x)
}

/// No radius of the curve is NaN.
pub open spec fn radii_are_numbers(curve: Seq<SamplePoint>) -> bool {
    forall|k: int| 0 <= k < curve.len() ==> !nan((#[trigger] curve[k]).x)
}

/// Where sample `i` stands in the clipped curve: behind the samples and the
/// synthetic points of all earlier intervals.
pub open spec fn place(
    points: Seq<SamplePoint>,
    bound: u64,
    resolved: Seq<Resolved>,
    i: int,
) -> int {
    clipped_before(points, bound, resolved, i).len() as int
}

/// A synthetic point of the interval at sample `i`, if there is one, stands
/// on neither sample's radius.
pub open spec fn off_the_samples(
    points: Seq<SamplePoint>,
    bound: u64,
    resolved: Seq<Resolved>,
    i: int,
    series: Series,
) -> bool {
    placed_point(points, bound, resolved, i, series) matches Some(p) ==> !same(p.x, points[i].x)
        && !same(p.x, points[i + 1].x)
}

/// The synthetic points of the interval at sample `i` stand on neither
/// sample's radius, and two of them at radii that do not compare equal.
pub open spec fn apart_at(
    points: Seq<SamplePoint>,
    bound: u64,
    resolved: Seq<Resolved>,
    i: int,
) -> bool {
    &&& off_the_samples(points, bound, resolved, i, Series::First)
    &&& off_the_samples(points, bound, resolved, i, Series::Second)
    &&& match (
        placed_point(points, bound, resolved, i, Series::First),
        placed_point(points, bound, resolved, i, Series::Second),
    ) {
        (Some(p), Some(q)) => !same(p.x, q.x),
        _ => true,
    }
}

/// No synthetic point stands on a sample's radius, and no interval holds
/// two at the same radius.
pub open spec fn placed_apart(
    points: Seq<SamplePoint>,
    bound: u64,
    resolved: Seq<Resolved>,
) -> bool {
    forall|i: int| 0 <= i < points.len() ==> #[trigger] apart_at(points, bound, resolved, i)
}

proof fn lemma_length_before(points: Seq<SamplePoint>, bound: u64, resolved: Seq<Resolved>, n: int)
    requires
        0 <= n,
    ensures
        n <= clipped_before(points, bound, resolved, n).len() <= n + crossings_before(
            points,
            bound,
            n,
        ).len(),
    decreases n,
{
    if n > 0 {
        lemma_length_before(points, bound, resolved, n - 1);
        assert(inserted_at(points, bound, resolved, n - 1).len() <= crossings_at(
            points,
            bound,
            n - 1,
        ).len());
    }
}

/// The clipped curve holds every sample and at most one synthetic point per
/// crossing.
pub proof fn lemma_clipped_length(points: Seq<SamplePoint>, bound: u64, resolved: Seq<Resolved>)
    ensures
        points.len() <= clipped(points, bound, resolved).len() <= points.len() + crossings(
            points,
            bound,
        ).len(),
{
    lemma_length_before(points, bound, resolved, points.len() as int);
}

proof fn lemma_within_before(points: Seq<SamplePoint>, bound: u64, resolved: Seq<Resolved>, n: int)
    ensures
        within_bound(clipped_before(points, bound, resolved, n), bound),
    decreases n,
{
    if n > 0 {
        lemma_within_before(points, bound, resolved, n - 1);
        let head = clipped_before(points, bound, resolved, n - 1);
        let sample = seq![blanked_point(points[n - 1], bound)];
        let tail = inserted_at(points, bound, resolved, n - 1);
        assert(within_bound(sample, bound));
        assert(within_bound(tail, bound));
        assert(clipped_before(points, bound, resolved, n) == head + sample + tail);
    }
}

/// Whatever the caller resolved, no value of the clipped curve lies above
/// the bound: each is a number at or below it, or NaN.
pub proof fn lemma_clipped_within_bound(
    points: Seq<SamplePoint>,
    bound: u64,
    resolved: Seq<Resolved>,
)
    ensures
        within_bound(clipped(points, bound, resolved), bound),
{
    lemma_within_before(points, bound, resolved, points.len() as int);
}

proof fn lemma_unchanged_before(
    points: Seq<SamplePoint>,
    bound: u64,
    resolved: Seq<Resolved>,
    n: int,
)
    requires
        within_bound(points, bound),
        0 <= n <= points.len(),
    ensures
        crossings_before(points, bound, n).len() == 0,
        clipped_before(points, bound, resolved, n) == points.subrange(0, n),
    decreases n,
{
    if n > 0 {
        lemma_unchanged_before(points, bound, resolved, n - 1);
        assert(!crosses(points, bound, n - 1, Series::First));
        assert(!crosses(points, bound, n - 1, Series::Second));
        assert(blanked_point(points[n - 1], bound) == points[n - 1]);
        assert(clipped_before(points, bound, resolved, n) =~= points.subrange(0, n));
    } else {
        assert(clipped_before(points, bound, resolved, n) =~= points.subrange(0, n));
    }
}

/// A curve that has no value above the bound has no crossing, and clipping
/// returns it as it is.
pub proof fn lemma_within_bound_unchanged(
    points: Seq<SamplePoint>,
    bound: u64,
    resolved: Seq<Resolved>,
)
    requires
        within_bound(points, bound),
    ensures
        crossings(points, bound) == Seq::<Crossing>::empty(),
        clipped(points, bound, resolved) == points,
{
    lemma_unchanged_before(points, bound, resolved, points.len() as int);
    assert(crossings(points, bound) =~= Seq::<Crossing>::empty());
    assert(points.subrange(0, points.len() as int) =~= points);
}

/// Clipping is idempotent: a clipped curve has no crossing left, and
/// clipping it again at the same bound returns it as it is.
pub proof fn lemma_clipping_idempotent(
    points: Seq<SamplePoint>,
    bound: u64,
    resolved: Seq<Resolved>,
    again: Seq<Resolved>,
)
    ensures
        crossings(clipped(points, bound, resolved), bound) == Seq::<Crossing>::empty(),
        clipped(clipped(points, bound, resolved), bound, again) == clipped(
            points,
            bound,
            resolved,
        ),
{
    lemma_clipped_within_bound(points, bound, resolved);
    lemma_within_bound_unchanged(clipped(points, bound, resolved), bound, again);
}

proof fn lemma_clipped_prefix(
    points: Seq<SamplePoint>,
    bound: u64,
    resolved: Seq<Resolved>,
    n: int,
    m: int,
)
    requires
        0 <= n <= m,
    ensures
        clipped_before(points, bound, resolved, n).len() <= clipped_before(
            points,
            bound,
            resolved,
            m,
        ).len(),
        forall|k: int|
            0 <= k < clipped_before(points, bound, resolved, n).len() ==> clipped_before(
                points,
                bound,
                resolved,
                m,
            )[k] == clipped_before(points, bound, resolved, n)[k],
    decreases m - n,
{
    if n < m {
        lemma_clipped_prefix(points, bound, resolved, n, m - 1);
    }
}

/// Samples keep their order and their radius, and the synthetic points of an
/// interval stand directly behind the sample that starts it.
pub proof fn lemma_interval_layout(
    points: Seq<SamplePoint>,
    bound: u64,
    resolved: Seq<Resolved>,
    i: int,
)
    requires
        0 <= i < points.len(),
    ensures
        i <= place(points, bound, resolved, i),
        place(points, bound, resolved, i + 1) <= clipped(points, bound, resolved).len(),
        place(points, bound, resolved, i + 1) == place(points, bound, resolved, i) + 1
            + inserted_at(points, bound, resolved, i).len(),
        clipped(points, bound, resolved)[place(points, bound, resolved, i)] == blanked_point(
            points[i],
            bound,
        ),
        clipped(points, bound, resolved).subrange(
            place(points, bound, resolved, i) + 1,
            place(points, bound, resolved, i + 1),
        ) == inserted_at(points, bound, resolved, i),
{
    let whole = clipped(points, bound, resolved);
    let upto = clipped_before(points, bound, resolved, i + 1);
    let at = place(points, bound, resolved, i);
    lemma_length_before(points, bound, resolved, i);
    lemma_clipped_prefix(points, bound, resolved, i + 1, points.len() as int);
    assert(upto == clipped_before(points, bound, resolved, i) + seq![
        blanked_point(points[i], bound),
    ] + inserted_at(points, bound, resolved, i));
    assert(whole[at] == upto[at]);
    assert(whole.subrange(at + 1, place(points, bound, resolved, i + 1)) =~= inserted_at(
        points,
        bound,
        resolved,
        i,
    )) by {
        assert forall|k: int| 0 <= k < inserted_at(points, bound, resolved, i).len() implies whole[at
            + 1 + k] == inserted_at(points, bound, resolved, i)[k] by {
            assert(whole[at + 1 + k] == upto[at + 1 + k]);
        }
    }
}

/// Any two radii of a curve are in order: strictly, or with equality
/// allowed.
spec fn in_order(curve: Seq<SamplePoint>, strict: bool) -> bool {
    if strict {
        radii_increase(curve)
    } else {
        radii_ascend(curve)
    }
}

/// One radius stands before another: strictly, or with equality allowed.
spec fn before(a: u64, b: u64, strict: bool) -> bool {
    if strict {
        lt(a, b)
    } else {
        le(a, b)
    }
}

proof fn lemma_order_before(
    points: Seq<SamplePoint>,
    bound: u64,
    resolved: Seq<Resolved>,
    n: int,
    strict: bool,
)
    requires
        0 <= n <= points.len(),
        radii_increase(points),
        strict ==> placed_apart(points, bound, resolved),
    ensures
        in_order(clipped_before(points, bound, resolved, n), strict),
        n < points.len() ==> forall|k: int|
            0 <= k < clipped_before(points, bound, resolved, n).len() ==> before(
                (#[trigger] clipped_before(points, bound, resolved, n)[k]).x,
                points[n].x,
                strict,
            ),
    decreases n,
{
    if n > 0 {
        let i = n - 1;
        lemma_order_before(points, bound, resolved, i, strict);
        let head = clipped_before(points, bound, resolved, i);
        let sample = blanked_point(points[i], bound);
        let tail = inserted_at(points, bound, resolved, i);
        let now = clipped_before(points, bound, resolved, n);
        assert(now == head + seq![sample] + tail);
        if n < points.len() {
            assert(lt(points[i].x, points[n].x));
            assert(strict ==> apart_at(points, bound, resolved, i));
            assert forall|t: int| 0 <= t < tail.len() implies before(
                sample.x,
                (#[trigger] tail[t]).x,
                strict,
            ) && before(tail[t].x, points[n].x, strict) by {}
            assert(in_order(tail, strict));
            assert forall|a: int| 0 <= a < now.len() implies before(
                (#[trigger] now[a]).x,
                points[n].x,
                strict,
            ) by {
                if a < head.len() {
                    assert(now[a] == head[a]);
                } else if a == head.len() {
                    assert(now[a] == sample);
                } else {
                    assert(now[a] == tail[a - head.len() - 1]);
                }
            }
        } else {
            assert(tail.len() == 0);
        }
        assert forall|a: int, b: int| 0 <= a < b < now.len() implies before(
            (#[trigger] now[a]).x,
            (#[trigger] now[b]).x,
            strict,
        ) by {
            let h = head.len() as int;
            if b < h {
                assert(now[a] == head[a] && now[b] == head[b]);
            } else if a < h {
                assert(now[a] == head[a]);
                assert(before(head[a].x, points[i].x, strict));
                if b == h {
                    assert(now[b] == sample);
                } else {
                    assert(now[b] == tail[b - h - 1]);
                }
            } else if a == h {
                assert(now[a] == sample);
                assert(now[b] == tail[b - h - 1]);
            } else {
                assert(now[a] == tail[a - h - 1]);
                assert(now[b] == tail[b - h - 1]);
            }
        }
    }
}

/// Where the samples' radii strictly increase, the radii of the clipped
/// curve never decrease, whatever the caller resolved: a synthetic point
/// stands only between the two samples of its interval.
pub proof fn lemma_clipped_radii_ascend(
    points: Seq<SamplePoint>,
    bound: u64,
    resolved: Seq<Resolved>,
)
    requires
        radii_increase(points),
    ensures
        radii_ascend(clipped(points, bound, resolved)),
{
    lemma_order_before(points, bound, resolved, points.len() as int, false);
}

/// Where moreover no synthetic point stands on a sample's radius and no
/// interval holds two at the same radius, the radii of the clipped curve
/// strictly increase.
pub proof fn lemma_clipped_radii_increase(
    points: Seq<SamplePoint>,
    bound: u64,
    resolved: Seq<Resolved>,
)
    requires
        radii_increase(points),
        placed_apart(points, bound, resolved),
    ensures
        radii_increase(clipped(points, bound, resolved)),
{
    lemma_order_before(points, bound, resolved, points.len() as int, true);
}

proof fn lemma_numbers_before(points: Seq<SamplePoint>, bound: u64, resolved: Seq<Resolved>, n: int)
    requires
        0 <= n <= points.len(),
        radii_are_numbers(points),
    ensures
        radii_are_numbers(clipped_before(points, bound, resolved, n)),
    decreases n,
{
    if n > 0 {
        lemma_numbers_before(points, bound, resolved, n - 1);
        let head = clipped_before(points, bound, resolved, n - 1);
        let sample = seq![blanked_point(points[n - 1], bound)];
        let tail = inserted_at(points, bound, resolved, n - 1);
        assert(!nan(points[n - 1].x));
        assert(radii_are_numbers(sample));
        assert(radii_are_numbers(tail));
        assert(clipped_before(points, bound, resolved, n) == head + sample + tail);
    }
}

/// Where no sample's radius is NaN, no radius of the clipped curve is:
/// a NaN that the caller resolved places no point.
pub proof fn lemma_clipped_radii_numbers(
    points: Seq<SamplePoint>,
    bound: u64,
    resolved: Seq<Resolved>,
)
    requires
        radii_are_numbers(points),
    ensures
        radii_are_numbers(clipped(points, bound, resolved)),
{
    lemma_numbers_before(points, bound, resolved, points.len() as int);
}

} // verus!
