//! Sampling the two series of a chart at equal steps of the radius.

use vstd::prelude::*;
use crate::binary64::{lt, nan};
use crate::laws::{radii_are_numbers, radii_increase};
use crate::point::SamplePoint;
use crate::whole::{from_scaled, is_scaled, lemma_scaled_order, MAX_HALVINGS};

verus! {

/// The curve has `count` points; point `i` stands at the radius
/// `i / 2^halvings` and holds what `first` and `second` answer there.
pub open spec fn sampled_by<F: Fn(u64) -> u64, G: Fn(u64) -> u64>(
    points: Seq<SamplePoint>,
    count: nat,
    halvings: nat,
    first: F,
    second: G,
) -> bool {
    &&& points.len() == count
    &&& forall|i: int|
        0 <= i < count ==> {
            &&& is_scaled((#[trigger] points[i]).x, i as nat, halvings)
            &&& first.ensures((points[i].x,), points[i].y1)
            &&& second.ensures((points[i].x,), points[i].y2)
        }
}

/// Samples both series at the radii `0, s, 2s, ..` with `s = 1 / 2^halvings`,
/// `count` of them, in ascending order.
pub fn sample<F, G>(count: u32, halvings: u32, first: &F, second: &G) -> (points: Vec<
    SamplePoint,
>) where F: Fn(u64) -> u64, G: Fn(u64) -> u64
    requires
        halvings <= MAX_HALVINGS,
        forall|x: u64| first.requires((x,)),
        forall|x: u64| second.requires((x,)),
    ensures
        sampled_by(points@, count as nat, halvings as nat, *first, *second),
{
    let mut points: Vec<SamplePoint> = Vec::new();
    let mut i: u32 = 0;
    while i < count
        invariant
            i <= count,
            halvings <= MAX_HALVINGS,
            sampled_by(points@, i as nat, halvings as nat, *first, *second),
            forall|x: u64| first.requires((x,)),
            forall|x: u64| second.requires((x,)),
        decreases count - i,
    {
        let x = from_scaled(i, halvings);
        let y1 = first(x);
        let y2 = second(x);
        let ghost earlier = points@;
        points.push(SamplePoint { x, y1, y2 });
        proof {
            assert forall|k: int| 0 <= k < i + 1 implies {
                &&& is_scaled((#[trigger] points@[k]).x, k as nat, halvings as nat)
                &&& first.ensures((points@[k].x,), points@[k].y1)
                &&& second.ensures((points@[k].x,), points@[k].y2)
            } by {
                if k < i {
                    assert(points@[k] == earlier[k]);
                }
            }
        }
        i += 1;
    }
    points
}

/// The radii of a sampled curve strictly increase.
pub proof fn lemma_sampled_radii_increase<F: Fn(u64) -> u64, G: Fn(u64) -> u64>(
    points: Seq<SamplePoint>,
    count: nat,
    halvings: nat,
    first: F,
    second: G,
)
    requires
        sampled_by(points, count, halvings, first, second),
    ensures
        radii_increase(points),
{
    assert forall|a: int, b: int| 0 <= a < b < points.len() implies lt(
        (#[trigger] points[a]).x,
        (#[trigger] points[b]).x,
    ) by {
        lemma_scaled_order(points[a].x, a as nat, points[b].x, b as nat, halvings);
    }
}

/// No radius of a sampled curve is NaN.
pub proof fn lemma_sampled_radii_numbers<F: Fn(u64) -> u64, G: Fn(u64) -> u64>(
    points: Seq<SamplePoint>,
    count: nat,
    halvings: nat,
    first: F,
    second: G,
)
    requires
        sampled_by(points, count, halvings, first, second),
    ensures
        radii_are_numbers(points),
{
    assert forall|k: int| 0 <= k < points.len() implies !nan((#[trigger] points[k]).x) by {
        lemma_scaled_order(points[k].x, k as nat, points[k].x, k as nat, halvings);
    }
}

} // verus!
