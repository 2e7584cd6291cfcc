//! The velocity chart: the computed rotation curve beside measured values.

use vstd::prelude::*;
use crate::binary64::{equal, lt, nan, same, NAN, ZERO};
use crate::chart::{VELOCITY_BOUND, VELOCITY_SAMPLES};
use crate::clipping::{
    clip_stepped, clipped, crossings, located_by, stepped, well_clipped, Resolved,
};
use crate::laws::{radii_are_numbers, radii_ascend, radii_increase, within_bound};
use crate::point::SamplePoint;
use crate::whole::{from_whole, is_whole, lemma_scaled_order};

verus! {

/// A radius and a velocity, as binary64 patterns.
#[derive(Clone, Copy, Debug, PartialEq, Eq, Structural)]
pub struct VelocityPoint {
    pub x: u64,
    pub y: u64,
}

impl VelocityPoint {
    pub fn new(x: u64, y: u64) -> (p: VelocityPoint)
        ensures
            p == (VelocityPoint { x, y }),
    {
        VelocityPoint { x, y }
    }
}

/// What the rotation velocity at `radius` is, where `general` evaluates the
/// formula for a radius off the centre: at the centre the formula is
/// singular and the velocity is zero, whatever the parameters.
pub open spec fn velocity_is<F: Fn(u64) -> u64>(radius: u64, general: F, result: u64) -> bool {
    if same(radius, ZERO) {
        result == ZERO
    } else {
        general.ensures((radius,), result)
    }
}

/// The combined rotation velocity of disk and halo at a radius.
pub fn calculate_velocity<F: Fn(u64) -> u64>(radius: u64, general: &F) -> (result: u64)
    requires
        forall|r: u64| general.requires((r,)),
    ensures
        velocity_is(radius, *general, result),
        same(radius, ZERO) ==> result == ZERO,
{
    if equal(radius, ZERO) {
        ZERO
    } else {
        general(radius)
    }
}

/// The measured rotation velocities of NGC 3198 in km/s, at the radii
/// 0, 1, 2, .. kpc.
pub open spec fn defined_values() -> Seq<u32> {
    seq![
        0u32, 55, 92, 110, 123, 134, 142, 145, 147, 148, 152, 155, 156, 157, 153, 154, 153, 150,
        149, 148, 146, 147, 148, 148, 149, 150, 150, 149,
    ]
}

/// The number of measured values.
pub const DEFINED: u32 = 28;

fn defined_value(i: u32) -> (v: u32)
    requires
        i < DEFINED,
    ensures
        v == defined_values()[i as int],
{
    match i {
        0 => 0,
        1 => 55,
        2 => 92,
        3 => 110,
        4 => 123,
        5 => 134,
        6 => 142,
        7 => 145,
        8 => 147,
        9 => 148,
        10 => 152,
        11 => 155,
        12 => 156,
        13 => 157,
        14 => 153,
        15 => 154,
        16 => 153,
        17 => 150,
        18 => 149,
        19 => 148,
        20 => 146,
        21 => 147,
        22 => 148,
        23 => 148,
        24 => 149,
        25 => 150,
        26 => 150,
        _ => 149,
    }
}

/// The measured points: point `i` stands at the radius `i` and holds
/// measured value `i`.
pub open spec fn defined(points: Seq<VelocityPoint>) -> bool {
    &&& points.len() == DEFINED
    &&& forall|i: int|
        0 <= i < DEFINED ==> {
            &&& is_whole((#[trigger] points[i]).x, i as nat)
            &&& is_whole(points[i].y, defined_values()[i] as nat)
        }
}

/// The measured points.
pub fn get_defined_points() -> (points: Vec<VelocityPoint>)
    ensures
        defined(points@),
{
    let mut points: Vec<VelocityPoint> = Vec::new();
    let mut i: u32 = 0;
    while i < DEFINED
        invariant
            i <= DEFINED,
            points.len() == i,
            forall|k: int|
                0 <= k < i ==> {
                    &&& is_whole((#[trigger] points@[k]).x, k as nat)
                    &&& is_whole(points@[k].y, defined_values()[k] as nat)
                },
        decreases DEFINED - i,
    {
        let x = from_whole(i);
        let y = from_whole(defined_value(i));
        let ghost earlier = points@;
        points.push(VelocityPoint { x, y });
        proof {
            assert forall|k: int| 0 <= k < i + 1 implies {
                &&& is_whole((#[trigger] points@[k]).x, k as nat)
                &&& is_whole(points@[k].y, defined_values()[k] as nat)
            } by {
                if k < i {
                    assert(points@[k] == earlier[k]);
                }
            }
        }
        i += 1;
    }
    points
}

/// The curve has one point per sample of the velocity chart; point `i`
/// stands at the radius `i` and holds the rotation velocity there, for which
/// `general` is asked off the centre.
pub open spec fn velocities_of<F: Fn(u64) -> u64>(points: Seq<VelocityPoint>, general: F) -> bool {
    &&& points.len() == VELOCITY_SAMPLES
    &&& forall|i: int|
        0 <= i < VELOCITY_SAMPLES ==> {
            &&& is_whole((#[trigger] points[i]).x, i as nat)
            &&& velocity_is(points[i].x, general, points[i].y)
        }
}

/// Samples the rotation velocity at the radii 0, 1, .., 44 of the velocity
/// chart. `general` evaluates the formula for a radius off the centre; at
/// the centre the velocity is zero.
pub fn get_velocity_points<F: Fn(u64) -> u64>(general: &F) -> (points: Vec<VelocityPoint>)
    requires
        forall|x: u64| general.requires((x,)),
    ensures
        velocities_of(points@, *general),
        points@[0].y == ZERO,
{
    let mut points: Vec<VelocityPoint> = Vec::new();
    let mut i: u32 = 0;
    while i < VELOCITY_SAMPLES
        invariant
            i <= VELOCITY_SAMPLES,
            points.len() == i,
            forall|k: int|
                0 <= k < i ==> {
                    &&& is_whole((#[trigger] points@[k]).x, k as nat)
                    &&& velocity_is(points@[k].x, *general, points@[k].y)
                },
            forall|x: u64| general.requires((x,)),
        decreases VELOCITY_SAMPLES - i,
    {
        let x = from_whole(i);
        let y = calculate_velocity(x, general);
        let ghost earlier = points@;
        points.push(VelocityPoint { x, y });
        proof {
            assert forall|k: int| 0 <= k < i + 1 implies {
                &&& is_whole((#[trigger] points@[k]).x, k as nat)
                &&& velocity_is(points@[k].x, *general, points@[k].y)
            } by {
                if k < i {
                    assert(points@[k] == earlier[k]);
                }
            }
        }
        i += 1;
    }
    proof {
        assert(is_whole(points@[0].x, 0));
    }
    points
}

/// The measured value beside sample `i`: that of measured point `i / 2`,
/// so that each measured value stands beside two samples, and NaN where
/// there is none.
pub open spec fn defined_beside(defined_points: Seq<VelocityPoint>, i: int) -> u64 {
    if 0 <= i && i / 2 < defined_points.len() {
        defined_points[i / 2].y
    } else {
        NAN
    }
}

/// The computed velocities as first series, the measured values beside
/// them as second.
pub open spec fn combined(
    velocity_points: Seq<VelocityPoint>,
    defined_points: Seq<VelocityPoint>,
) -> Seq<SamplePoint> {
    Seq::new(
        velocity_points.len(),
        |i: int|
            SamplePoint {
                x: velocity_points[i].x,
                y1: velocity_points[i].y,
                y2: defined_beside(defined_points, i),
            },
    )
}

/// Puts the measured values beside the computed velocities.
pub fn combine(velocity_points: &Vec<VelocityPoint>, defined_points: &Vec<VelocityPoint>) -> (points:
    Vec<SamplePoint>)
    ensures
        points@ == combined(velocity_points@, defined_points@),
{
    let mut points: Vec<SamplePoint> = Vec::new();
    let mut i: usize = 0;
    while i < velocity_points.len()
        invariant
            i <= velocity_points.len(),
            points.len() == i,
            forall|k: int|
                0 <= k < i ==> #[trigger] points@[k] == combined(
                    velocity_points@,
                    defined_points@,
                )[k],
        decreases velocity_points.len() - i,
    {
        let v = velocity_points[i];
        let beside: u64 = if i / 2 < defined_points.len() {
            defined_points[i / 2].y
        } else {
            NAN
        };
        points.push(SamplePoint { x: v.x, y1: v.y, y2: beside });
        i += 1;
    }
    assert(points@ =~= combined(velocity_points@, defined_points@));
    points
}

/// Combines computed and measured velocities into the curve of the
/// velocity chart, clipped at its bound. The measured series is a step
/// function: a synthetic point shows the measured value of the sample to
/// its left.
pub fn combine_points<L>(
    velocity_points: &Vec<VelocityPoint>,
    defined_points: &Vec<VelocityPoint>,
    locate: &L,
) -> (curve: Vec<SamplePoint>) where L: Fn(u64, u64, u64, u64, u64) -> u64
    requires
        forall|x0: u64, y0: u64, x1: u64, y1: u64, b: u64| locate.requires((x0, y0, x1, y1, b)),
    ensures
        exists|resolved: Seq<Resolved>|
            {
                &&& resolved.len() == crossings(
                    combined(velocity_points@, defined_points@),
                    VELOCITY_BOUND,
                ).len()
                &&& located_by(
                    combined(velocity_points@, defined_points@),
                    VELOCITY_BOUND,
                    resolved,
                    *locate,
                )
                &&& stepped(combined(velocity_points@, defined_points@), VELOCITY_BOUND, resolved)
                &&& curve@ == clipped(
                    combined(velocity_points@, defined_points@),
                    VELOCITY_BOUND,
                    resolved,
                )
            },
        well_clipped(combined(velocity_points@, defined_points@), VELOCITY_BOUND, curve@),
{
    let points = combine(velocity_points, defined_points);
    clip_stepped(&points, VELOCITY_BOUND, locate)
}

/// The radii of the velocity chart's samples are numbers and strictly
/// increase, whatever is measured beside them.
pub proof fn lemma_combined_radii<F: Fn(u64) -> u64>(
    velocity_points: Seq<VelocityPoint>,
    defined_points: Seq<VelocityPoint>,
    general: F,
)
    requires
        velocities_of(velocity_points, general),
    ensures
        radii_increase(combined(velocity_points, defined_points)),
        radii_are_numbers(combined(velocity_points, defined_points)),
{
    let points = combined(velocity_points, defined_points);
    assert forall|a: int, b: int| 0 <= a < b < points.len() implies lt(
        (#[trigger] points[a]).x,
        (#[trigger] points[b]).x,
    ) by {
        lemma_scaled_order(velocity_points[a].x, a as nat, velocity_points[b].x, b as nat, 0);
    }
    assert forall|k: int| 0 <= k < points.len() implies !nan((#[trigger] points[k]).x) by {
        lemma_scaled_order(velocity_points[k].x, k as nat, velocity_points[k].x, k as nat, 0);
    }
}

/// The curve of the velocity chart: the rotation velocity sampled at the
/// radii 0, 1, .., 44, beside sample `i` the measured value `i / 2`,
/// clipped at 300.
/// `general` evaluates the velocity formula off the centre, `locate` says
/// where the line between two samples meets the bound. Whatever the two
/// answer, no value of the curve lies above the bound, no radius is NaN,
/// and the radii never decrease.
pub fn velocity_chart<F, L>(general: &F, locate: &L) -> (curve: Vec<SamplePoint>) where
    F: Fn(u64) -> u64,
    L: Fn(u64, u64, u64, u64, u64) -> u64,

    requires
        forall|x: u64| general.requires((x,)),
        forall|x0: u64, y0: u64, x1: u64, y1: u64, b: u64| locate.requires((x0, y0, x1, y1, b)),
    ensures
        exists|velocity_points: Seq<VelocityPoint>, defined_points: Seq<VelocityPoint>, resolved: Seq<
            Resolved,
        >|
            {
                &&& velocities_of(velocity_points, *general)
                &&& defined(defined_points)
                &&& resolved.len() == crossings(
                    combined(velocity_points, defined_points),
                    VELOCITY_BOUND,
                ).len()
                &&& located_by(
                    combined(velocity_points, defined_points),
                    VELOCITY_BOUND,
                    resolved,
                    *locate,
                )
                &&& stepped(combined(velocity_points, defined_points), VELOCITY_BOUND, resolved)
                &&& curve@ == clipped(
                    combined(velocity_points, defined_points),
                    VELOCITY_BOUND,
                    resolved,
                )
            },
        within_bound(curve@, VELOCITY_BOUND),
        radii_are_numbers(curve@),
        radii_ascend(curve@),
{
    let velocity_points = get_velocity_points(general);
    let defined_points = get_defined_points();
    proof {
        lemma_combined_radii(velocity_points@, defined_points@, *general);
    }
    combine_points(&velocity_points, &defined_points, locate)
}

} // verus!
