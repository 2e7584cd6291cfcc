//! Clipping a sampled curve at the chart's display bound.
//!
//! The renderer does not clip. A value above the bound is therefore replaced
//! by NaN, and where a series passes through the bound between two adjacent
//! samples a synthetic point is inserted after the left sample, with that
//! series pinned to the bound. The caller computes where the line meets the
//! bound and what the other series is worth there; this module decides where
//! such points are needed, what they show, and in which order they stand. A
//! point is placed only at a radius within its interval, the ends included,
//! so the curve stays in order of the radius whatever the caller computes.

use vstd::prelude::*;
use crate::binary64::{at_most, gt, greater, le, less, lt, NAN};
use crate::laws::{
    lemma_clipped_radii_ascend, lemma_clipped_radii_numbers, lemma_clipped_within_bound,
    radii_are_numbers, radii_ascend, radii_increase, within_bound,
};
use crate::point::{SamplePoint, Series};

verus! {

/// The place of a synthetic point: the interval between sample `index` and
/// its successor, and the series that passes through the bound there.
#[derive(Clone, Copy, Debug, PartialEq, Eq, Structural)]
pub struct Crossing {
    pub index: usize,
    pub series: Series,
}

/// What the caller has computed for one crossing: the radius at which the
/// line meets the bound, and the other series' value at that radius.
#[derive(Clone, Copy, Debug, PartialEq, Eq, Structural)]
pub struct Resolved {
    pub x: u64,
    pub companion: u64,
}

/// Two adjacent values lie strictly on opposite sides of the bound. A NaN on
/// either side, or a value equal to the bound, is no crossing; so the two
/// values differ whenever this holds.
pub open spec fn straddles(y0: u64, y1: u64, bound: u64) -> bool {
    (gt(y0, bound) && lt(y1, bound)) || (lt(y0, bound) && gt(y1, bound))
}

/// A value as the chart shows it: NaN if it lies above the bound.
pub open spec fn blanked(value: u64, bound: u64) -> u64 {
    if gt(value, bound) {
        NAN
    } else {
        value
    }
}

/// A sample as the chart shows it: the radius kept, each series blanked on
/// its own.
pub open spec fn blanked_point(p: SamplePoint, bound: u64) -> SamplePoint {
    SamplePoint { x: p.x, y1: blanked(p.y1, bound), y2: blanked(p.y2, bound) }
}

/// The other series' value on a synthetic point: shown only strictly below
/// the bound.
pub open spec fn shown_companion(value: u64, bound: u64) -> u64 {
    if lt(value, bound) {
        value
    } else {
        NAN
    }
}

/// The synthetic point of a crossing: the crossing series sits on the bound,
/// the other series shows the resolved companion value.
pub open spec fn crossing_point(series: Series, bound: u64, at: Resolved) -> SamplePoint {
    match series {
        Series::First => SamplePoint {
            x: at.x,
            y1: bound,
            y2: shown_companion(at.companion, bound),
        },
        Series::Second => SamplePoint {
            x: at.x,
            y1: shown_companion(at.companion, bound),
            y2: bound,
        },
    }
}

/// Whether `series` passes through the bound between sample `i` and the next.
/// The last sample has no successor and starts no interval.
pub open spec fn crosses(points: Seq<SamplePoint>, bound: u64, i: int, series: Series) -> bool {
    0 <= i && i + 1 < points.len() && straddles(
        points[i].value(series),
        points[i + 1].value(series),
        bound,
    )
}

/// The crossings of the interval that starts at sample `i`, first series
/// first.
pub open spec fn crossings_at(points: Seq<SamplePoint>, bound: u64, i: int) -> Seq<Crossing> {
    let first = if crosses(points, bound, i, Series::First) {
        seq![Crossing { index: i as usize, series: Series::First }]
    } else {
        Seq::empty()
    };
    let second = if crosses(points, bound, i, Series::Second) {
        seq![Crossing { index: i as usize, series: Series::Second }]
    } else {
        Seq::empty()
    };
    first + second
}

/// The crossings of the intervals that start before sample `n`, by interval.
pub open spec fn crossings_before(points: Seq<SamplePoint>, bound: u64, n: int) -> Seq<Crossing>
    decreases n,
{
    if n <= 0 {
        Seq::empty()
    } else {
        crossings_before(points, bound, n - 1) + crossings_at(points, bound, n - 1)
    }
}

/// Every crossing of the curve, by interval and within one interval first
/// series first.
pub open spec fn crossings(points: Seq<SamplePoint>, bound: u64) -> Seq<Crossing> {
    crossings_before(points, bound, points.len() as int)
}

/// Whether a radius lies between sample `i` and the next, the ends
/// included: rounding may put the point where a line meets the bound onto a
/// sample's own radius. A NaN lies nowhere.
pub open spec fn between(points: Seq<SamplePoint>, i: int, x: u64) -> bool {
    0 <= i && i + 1 < points.len() && le(points[i].x, x) && le(x, points[i + 1].x)
}

/// Where the resolved values of a series' crossing in the interval at sample
/// `i` stand in `resolved`: behind those of all earlier intervals, the
/// second series' behind the first's.
pub open spec fn resolved_index(
    points: Seq<SamplePoint>,
    bound: u64,
    i: int,
    series: Series,
) -> int {
    crossings_before(points, bound, i).len() + if series == Series::Second && crosses(
        points,
        bound,
        i,
        Series::First,
    ) {
        1int
    } else {
        0int
    }
}

/// The synthetic point of a series in the interval that starts at sample
/// `i`: there is one if the series crosses the bound there and its resolved
/// radius lies between the two samples, the ends included. A radius that is
/// NaN or lies elsewhere places no point.
pub open spec fn placed_point(
    points: Seq<SamplePoint>,
    bound: u64,
    resolved: Seq<Resolved>,
    i: int,
    series: Series,
) -> Option<SamplePoint> {
    let at = resolved[resolved_index(points, bound, i, series)];
    if crosses(points, bound, i, series) && between(points, i, at.x) {
        Some(crossing_point(series, bound, at))
    } else {
        None
    }
}

/// The synthetic points of the interval that starts at sample `i`, where
/// `resolved` lists the values of all crossings of the curve in the order of
/// `crossings`. Two points in one interval stand by ascending radius.
pub open spec fn inserted_at(
    points: Seq<SamplePoint>,
    bound: u64,
    resolved: Seq<Resolved>,
    i: int,
) -> Seq<SamplePoint> {
    match (
        placed_point(points, bound, resolved, i, Series::First),
        placed_point(points, bound, resolved, i, Series::Second),
    ) {
        (Some(p), Some(q)) => if lt(q.x, p.x) {
            seq![q, p]
        } else {
            seq![p, q]
        },
        (Some(p), None) => seq![p],
        (None, Some(q)) => seq![q],
        (None, None) => Seq::empty(),
    }
}

/// The clipped curve up to, and without, sample `n`: each sample blanked,
/// followed by the synthetic points of the interval it starts.
pub open spec fn clipped_before(
    points: Seq<SamplePoint>,
    bound: u64,
    resolved: Seq<Resolved>,
    n: int,
) -> Seq<SamplePoint>
    decreases n,
{
    if n <= 0 {
        Seq::empty()
    } else {
        clipped_before(points, bound, resolved, n - 1) + seq![
            blanked_point(points[n - 1], bound),
        ] + inserted_at(points, bound, resolved, n - 1)
    }
}

/// The clipped curve.
pub open spec fn clipped(points: Seq<SamplePoint>, bound: u64, resolved: Seq<Resolved>) -> Seq<
    SamplePoint,
> {
    clipped_before(points, bound, resolved, points.len() as int)
}

/// Whether two adjacent values lie strictly on opposite sides of the bound.
pub fn is_crossing(y0: u64, y1: u64, bound: u64) -> (r: bool)
    ensures
        r == straddles(y0, y1, bound),
{
    (greater(y0, bound) && less(y1, bound)) || (less(y0, bound) && greater(y1, bound))
}

/// Replaces a value above the bound by NaN.
pub fn blank(value: u64, bound: u64) -> (r: u64)
    ensures
        r == blanked(value, bound),
{
    if greater(value, bound) {
        NAN
    } else {
        value
    }
}

/// Replaces each value of a sample that lies above the bound by NaN.
pub fn blank_point(p: SamplePoint, bound: u64) -> (r: SamplePoint)
    ensures
        r == blanked_point(p, bound),
{
    SamplePoint { x: p.x, y1: blank(p.y1, bound), y2: blank(p.y2, bound) }
}

/// Builds the synthetic point of a crossing.
pub fn make_crossing_point(series: Series, bound: u64, at: Resolved) -> (r: SamplePoint)
    ensures
        r == crossing_point(series, bound, at),
{
    let shown: u64 = if less(at.companion, bound) {
        at.companion
    } else {
        NAN
    };
    match series {
        Series::First => SamplePoint { x: at.x, y1: bound, y2: shown },
        Series::Second => SamplePoint { x: at.x, y1: shown, y2: bound },
    }
}

/// Lists the crossings of a sampled curve.
pub fn find_crossings(points: &Vec<SamplePoint>, bound: u64) -> (found: Vec<Crossing>)
    ensures
        found@ == crossings(points@, bound),
{
    let mut found: Vec<Crossing> = Vec::new();
    let mut i: usize = 0;
    while i < points.len()
        invariant
            i <= points.len(),
            found@ == crossings_before(points@, bound, i as int),
        decreases points.len() - i,
    {
        if i + 1 < points.len() {
            let here = points[i];
            let next = points[i + 1];
            if is_crossing(here.y1, next.y1, bound) {
                found.push(Crossing { index: i, series: Series::First });
            }
            if is_crossing(here.y2, next.y2, bound) {
                found.push(Crossing { index: i, series: Series::Second });
            }
        }
        proof {
            assert(found@ =~= crossings_before(points@, bound, i as int) + crossings_at(
                points@,
                bound,
                i as int,
            ));
        }
        i += 1;
    }
    found
}

/// The crossings of the first intervals are the first crossings of all.
pub proof fn lemma_crossings_prefix(points: Seq<SamplePoint>, bound: u64, n: int, m: int)
    requires
        0 <= n <= m,
    ensures
        crossings_before(points, bound, n).len() <= crossings_before(points, bound, m).len(),
        forall|k: int|
            0 <= k < crossings_before(points, bound, n).len() ==> crossings_before(
                points,
                bound,
                m,
            )[k] == crossings_before(points, bound, n)[k],
    decreases m - n,
{
    if n < m {
        lemma_crossings_prefix(points, bound, n, m - 1);
    }
}

/// Builds the clipped curve from the samples and the resolved values of
/// their crossings, which stand in the order of `find_crossings`. Every
/// crossing gets its point, unless its resolved radius is NaN or lies
/// outside the interval. Without exactly one resolved value per crossing
/// there is no curve to build.
pub fn assemble(points: &Vec<SamplePoint>, bound: u64, resolved: &Vec<Resolved>) -> (out: Option<
    Vec<SamplePoint>,
>)
    ensures
        out is Some <==> resolved@.len() == crossings(points@, bound).len(),
        out matches Some(curve) ==> curve@ == clipped(points@, bound, resolved@),
{
    let mut curve: Vec<SamplePoint> = Vec::new();
    let mut used: usize = 0;
    let mut i: usize = 0;
    while i < points.len()
        invariant
            i <= points.len(),
            used <= resolved.len(),
            used == crossings_before(points@, bound, i as int).len(),
            curve@ == clipped_before(points@, bound, resolved@, i as int),
        decreases points.len() - i,
    {
        let here = points[i];
        curve.push(blank_point(here, bound));
        let ghost before = curve@;
        if i + 1 < points.len() {
            let next = points[i + 1];
            let first = is_crossing(here.y1, next.y1, bound);
            let second = is_crossing(here.y2, next.y2, bound);
            let left: usize = resolved.len() - used;
            if (first && left < 1) || (second && left < 1) || (first && second && left < 2) {
                proof {
                    lemma_crossings_prefix(points@, bound, i + 1, points@.len() as int);
                }
                return None;
            }
            let mut p: Option<SamplePoint> = None;
            let mut q: Option<SamplePoint> = None;
            if first {
                let at = resolved[used];
                if at_most(here.x, at.x) && at_most(at.x, next.x) {
                    p = Some(make_crossing_point(Series::First, bound, at));
                }
                used += 1;
            }
            if second {
                let at = resolved[used];
                if at_most(here.x, at.x) && at_most(at.x, next.x) {
                    q = Some(make_crossing_point(Series::Second, bound, at));
                }
                used += 1;
            }
            proof {
                assert(p == placed_point(points@, bound, resolved@, i as int, Series::First));
                assert(q == placed_point(points@, bound, resolved@, i as int, Series::Second));
            }
            match (p, q) {
                (Some(p), Some(q)) => {
                    if less(q.x, p.x) {
                        curve.push(q);
                        curve.push(p);
                    } else {
                        curve.push(p);
                        curve.push(q);
                    }
                },
                (Some(p), None) => {
                    curve.push(p);
                },
                (None, Some(q)) => {
                    curve.push(q);
                },
                (None, None) => {},
            }
        }
        proof {
            assert(curve@ =~= before + inserted_at(points@, bound, resolved@, i as int));
        }
        i += 1;
    }
    if used != resolved.len() {
        return None;
    }
    Some(curve)
}

/// Each resolved radius is what `locate` answers when asked where the line
/// from the left to the right sample of the crossing's interval meets the
/// bound. It is asked with `(x0, y0, x1, y1, bound)`, the values being those
/// of the crossing series.
pub open spec fn located_by<L: Fn(u64, u64, u64, u64, u64) -> u64>(
    points: Seq<SamplePoint>,
    bound: u64,
    resolved: Seq<Resolved>,
    locate: L,
) -> bool {
    forall|j: int|
        0 <= j < resolved.len() ==> {
            let c = crossings(points, bound)[j];
            let left = points[c.index as int];
            let right = points[c.index + 1];
            locate.ensures(
                (left.x, left.value(c.series), right.x, right.value(c.series), bound),
                (#[trigger] resolved[j]).x,
            )
        }
}

/// For each crossing whose resolved radius lies within its interval, the
/// resolved companion value is what the other series' own function answers
/// at that radius: it is evaluated there, not interpolated between the
/// samples.
pub open spec fn evaluated_by<F: Fn(u64) -> u64, G: Fn(u64) -> u64>(
    points: Seq<SamplePoint>,
    bound: u64,
    resolved: Seq<Resolved>,
    first: F,
    second: G,
) -> bool {
    forall|j: int|
        0 <= j < resolved.len() && between(
            points,
            crossings(points, bound)[j].index as int,
            (#[trigger] resolved[j]).x,
        ) ==> match crossings(points, bound)[j].series {
            Series::First => second.ensures((resolved[j].x,), resolved[j].companion),
            Series::Second => first.ensures((resolved[j].x,), resolved[j].companion),
        }
}

/// Each resolved companion value is the other series' value at the left
/// sample of the crossing's interval: the other series is a step function.
pub open spec fn stepped(points: Seq<SamplePoint>, bound: u64, resolved: Seq<Resolved>) -> bool {
    forall|j: int|
        0 <= j < resolved.len() ==> {
            let c = crossings(points, bound)[j];
            (#[trigger] resolved[j]).companion == points[c.index as int].value(
                c.series.companion(),
            )
        }
}

/// What holds of a curve clipped at `bound`, whatever was resolved: no
/// value lies above the bound; where no sample's radius is NaN, no radius
/// is; and where the samples' radii strictly increase, the radii never
/// decrease.
pub open spec fn well_clipped(
    points: Seq<SamplePoint>,
    bound: u64,
    curve: Seq<SamplePoint>,
) -> bool {
    &&& within_bound(curve, bound)
    &&& radii_are_numbers(points) ==> radii_are_numbers(curve)
    &&& radii_increase(points) ==> radii_ascend(curve)
}

/// A clipped curve is well clipped.
pub proof fn lemma_well_clipped(points: Seq<SamplePoint>, bound: u64, resolved: Seq<Resolved>)
    ensures
        well_clipped(points, bound, clipped(points, bound, resolved)),
{
    lemma_clipped_within_bound(points, bound, resolved);
    if radii_are_numbers(points) {
        lemma_clipped_radii_numbers(points, bound, resolved);
    }
    if radii_increase(points) {
        lemma_clipped_radii_ascend(points, bound, resolved);
    }
}

/// Clips a curve whose two series are sampled from the functions `first`
/// and `second`. For each crossing, `locate` gives the radius of the
/// synthetic point; where that radius lies within the interval, the ends
/// included, the other series' function is evaluated there and the point is
/// placed. Only a radius that is NaN or lies outside places no point. The result is the clipped
/// curve for exactly these answers.
pub fn clip<L, F, G>(
    points: &Vec<SamplePoint>,
    bound: u64,
    locate: &L,
    first: &F,
    second: &G,
) -> (curve: Vec<SamplePoint>) where
    L: Fn(u64, u64, u64, u64, u64) -> u64,
    F: Fn(u64) -> u64,
    G: Fn(u64) -> u64,

    requires
        forall|x0: u64, y0: u64, x1: u64, y1: u64, b: u64| locate.requires((x0, y0, x1, y1, b)),
        forall|x: u64| first.requires((x,)),
        forall|x: u64| second.requires((x,)),
    ensures
        exists|resolved: Seq<Resolved>|
            {
                &&& resolved.len() == crossings(points@, bound).len()
                &&& located_by(points@, bound, resolved, *locate)
                &&& evaluated_by(points@, bound, resolved, *first, *second)
                &&& curve@ == clipped(points@, bound, resolved)
            },
        well_clipped(points@, bound, curve@),
{
    let found = find_crossings(points, bound);
    let mut resolved: Vec<Resolved> = Vec::new();
    let mut j: usize = 0;
    while j < found.len()
        invariant
            j <= found.len(),
            found@ == crossings(points@, bound),
            resolved.len() == j,
            located_by(points@, bound, resolved@, *locate),
            evaluated_by(points@, bound, resolved@, *first, *second),
            forall|x0: u64, y0: u64, x1: u64, y1: u64, b: u64| locate.requires((x0, y0, x1, y1, b)),
            forall|x: u64| first.requires((x,)),
            forall|x: u64| second.requires((x,)),
        decreases found.len() - j,
    {
        let c = found[j];
        proof {
            assert(points@.len() == points.len());
            lemma_crossing_in_range(points@, bound, j as int);
        }
        let left = points[c.index];
        let right = points[c.index + 1];
        let x = locate(left.x, left.get(c.series), right.x, right.get(c.series), bound);
        let companion = if at_most(left.x, x) && at_most(x, right.x) {
            match c.series {
                Series::First => second(x),
                Series::Second => first(x),
            }
        } else {
            NAN
        };
        let ghost earlier = resolved@;
        resolved.push(Resolved { x, companion });
        proof {
            assert forall|k: int| 0 <= k < resolved@.len() implies {
                let d = crossings(points@, bound)[k];
                let l = points@[d.index as int];
                let r = points@[d.index + 1];
                locate.ensures(
                    (l.x, l.value(d.series), r.x, r.value(d.series), bound),
                    (#[trigger] resolved@[k]).x,
                )
            } by {
                if k < j {
                    assert(resolved@[k] == earlier[k]);
                }
            }
            assert forall|k: int|
                0 <= k < resolved@.len() && between(
                    points@,
                    crossings(points@, bound)[k].index as int,
                    (#[trigger] resolved@[k]).x,
                ) implies match crossings(points@, bound)[k].series {
                Series::First => second.ensures((resolved@[k].x,), resolved@[k].companion),
                Series::Second => first.ensures((resolved@[k].x,), resolved@[k].companion),
            } by {
                if k < j {
                    assert(resolved@[k] == earlier[k]);
                }
            }
        }
        j += 1;
    }
    let curve = assemble(points, bound, &resolved);
    proof {
        lemma_well_clipped(points@, bound, resolved@);
    }
    curve.unwrap()
}

/// Clips a curve whose other series is a step function: on a synthetic
/// point it keeps the value it has at the left sample of the interval. For
/// each crossing, `locate` gives the radius of the synthetic point, which
/// is placed unless that radius is NaN or lies outside the interval.
pub fn clip_stepped<L>(points: &Vec<SamplePoint>, bound: u64, locate: &L) -> (curve: Vec<
    SamplePoint,
>) where L: Fn(u64, u64, u64, u64, u64) -> u64
    requires
        forall|x0: u64, y0: u64, x1: u64, y1: u64, b: u64| locate.requires((x0, y0, x1, y1, b)),
    ensures
        exists|resolved: Seq<Resolved>|
            {
                &&& resolved.len() == crossings(points@, bound).len()
                &&& located_by(points@, bound, resolved, *locate)
                &&& stepped(points@, bound, resolved)
                &&& curve@ == clipped(points@, bound, resolved)
            },
        well_clipped(points@, bound, curve@),
{
    let found = find_crossings(points, bound);
    let mut resolved: Vec<Resolved> = Vec::new();
    let mut j: usize = 0;
    while j < found.len()
        invariant
            j <= found.len(),
            found@ == crossings(points@, bound),
            resolved.len() == j,
            located_by(points@, bound, resolved@, *locate),
            stepped(points@, bound, resolved@),
            forall|x0: u64, y0: u64, x1: u64, y1: u64, b: u64| locate.requires((x0, y0, x1, y1, b)),
        decreases found.len() - j,
    {
        let c = found[j];
        proof {
            assert(points@.len() == points.len());
            lemma_crossing_in_range(points@, bound, j as int);
        }
        let left = points[c.index];
        let right = points[c.index + 1];
        let x = locate(left.x, left.get(c.series), right.x, right.get(c.series), bound);
        let companion = left.get(c.series.other());
        let ghost earlier = resolved@;
        resolved.push(Resolved { x, companion });
        proof {
            assert forall|k: int| 0 <= k < resolved@.len() implies {
                let d = crossings(points@, bound)[k];
                let l = points@[d.index as int];
                let r = points@[d.index + 1];
                locate.ensures(
                    (l.x, l.value(d.series), r.x, r.value(d.series), bound),
                    (#[trigger] resolved@[k]).x,
                )
            } by {
                if k < j {
                    assert(resolved@[k] == earlier[k]);
                }
            }
            assert forall|k: int| 0 <= k < resolved@.len() implies {
                let d = crossings(points@, bound)[k];
                (#[trigger] resolved@[k]).companion == points@[d.index as int].value(
                    d.series.companion(),
                )
            } by {
                if k < j {
                    assert(resolved@[k] == earlier[k]);
                }
            }
        }
        j += 1;
    }
    let curve = assemble(points, bound, &resolved);
    proof {
        lemma_well_clipped(points@, bound, resolved@);
    }
    curve.unwrap()
}

/// Every listed crossing names an interval of the curve.
pub proof fn lemma_crossing_in_range(points: Seq<SamplePoint>, bound: u64, j: int)
    requires
        points.len() <= usize::MAX,
        0 <= j < crossings(points, bound).len(),
    ensures
        crossings(points, bound)[j].index + 1 < points.len(),
        crosses(
            points,
            bound,
            crossings(points, bound)[j].index as int,
            crossings(points, bound)[j].series,
        ),
{
    lemma_crossing_listed(points, bound, points.len() as int, j);
}

proof fn lemma_crossing_listed(points: Seq<SamplePoint>, bound: u64, n: int, j: int)
    requires
        points.len() <= usize::MAX,
        0 <= n <= points.len(),
        0 <= j < crossings_before(points, bound, n).len(),
    ensures
        crossings_before(points, bound, n)[j].index + 1 < points.len(),
        crosses(
            points,
            bound,
            crossings_before(points, bound, n)[j].index as int,
            crossings_before(points, bound, n)[j].series,
        ),
    decreases n,
{
    if j < crossings_before(points, bound, n - 1).len() {
        lemma_crossing_listed(points, bound, n - 1, j);
    }
}

} // verus!
