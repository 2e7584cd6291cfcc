//! The charts: what is drawn, up to which bound, from how many samples.

use vstd::prelude::*;
use vstd::arithmetic::power2::{lemma2_to64_rest, pow2};
use crate::clipping::{clip, clipped, crossings, evaluated_by, located_by, Resolved};
use crate::language::same_text;
use crate::laws::{radii_are_numbers, radii_ascend, within_bound};
use crate::point::SamplePoint;
use crate::sampling::{
    lemma_sampled_radii_increase, lemma_sampled_radii_numbers, sample, sampled_by,
};
use crate::whole::is_whole;

verus! {

/// The quantity that a chart draws for disk and halo.
#[derive(Clone, Copy, Debug, PartialEq, Eq, Structural)]
pub enum ProfileKind {
    Velocity,
    Mass,
    Density,
}

/// The number of samples of the density and the mass chart.
pub const PROFILE_SAMPLES: u32 = 182;

/// The radius step of the density and the mass chart is a quarter: two
/// halvings of one.
pub const PROFILE_HALVINGS: u32 = 2;

/// The number of samples of the velocity chart.
pub const VELOCITY_SAMPLES: u32 = 45;

/// The radius step of the velocity chart is one: no halving.
pub const VELOCITY_HALVINGS: u32 = 0;

/// The display bound of the density chart, 4.
pub const DENSITY_BOUND: u64 = 0x4010_0000_0000_0000;

/// The display bound of the mass chart, 30.
pub const MASS_BOUND: u64 = 0x403e_0000_0000_0000;

/// The display bound of the mass bar chart, 100.
pub const MASS_BAR_BOUND: u64 = 0x4059_0000_0000_0000;

/// The display bound of the velocity chart, 300.
pub const VELOCITY_BOUND: u64 = 0x4072_c000_0000_0000;

impl ProfileKind {
    /// The kinds in the order of the mode selector: velocity, mass, density.
    pub open spec fn at(position: usize) -> Option<ProfileKind> {
        if position == 0 {
            Some(ProfileKind::Velocity)
        } else if position == 1 {
            Some(ProfileKind::Mass)
        } else if position == 2 {
            Some(ProfileKind::Density)
        } else {
            None
        }
    }

    /// The kind at a position of the mode selector.
    pub fn from_index(position: usize) -> (kind: Option<ProfileKind>)
        ensures
            kind == Self::at(position),
    {
        if position == 0 {
            Some(ProfileKind::Velocity)
        } else if position == 1 {
            Some(ProfileKind::Mass)
        } else if position == 2 {
            Some(ProfileKind::Density)
        } else {
            None
        }
    }

    /// The position of the kind on the mode selector.
    pub fn index(self) -> (position: usize)
        ensures
            Self::at(position) == Some(self),
    {
        match self {
            ProfileKind::Velocity => 0,
            ProfileKind::Mass => 1,
            ProfileKind::Density => 2,
        }
    }

    /// The name of the kind's mode.
    pub open spec fn name_of(self) -> Seq<char> {
        match self {
            ProfileKind::Velocity => "velocity"@,
            ProfileKind::Mass => "mass"@,
            ProfileKind::Density => "density"@,
        }
    }

    /// The kind of a mode's name; `None` for a name of no mode.
    pub open spec fn named(name: Seq<char>) -> Option<ProfileKind> {
        if name == "velocity"@ {
            Some(ProfileKind::Velocity)
        } else if name == "mass"@ {
            Some(ProfileKind::Mass)
        } else if name == "density"@ {
            Some(ProfileKind::Density)
        } else {
            None
        }
    }

    /// The name of the kind's mode.
    pub fn name(self) -> (r: &'static str)
        ensures
            r@ == self.name_of(),
    {
        match self {
            ProfileKind::Velocity => "velocity",
            ProfileKind::Mass => "mass",
            ProfileKind::Density => "density",
        }
    }

    /// The kind of a mode's name.
    pub fn from_name(name: &str) -> (kind: Option<ProfileKind>)
        ensures
            kind == Self::named(name@),
    {
        if same_text(name, "velocity") {
            Some(ProfileKind::Velocity)
        } else if same_text(name, "mass") {
            Some(ProfileKind::Mass)
        } else if same_text(name, "density") {
            Some(ProfileKind::Density)
        } else {
            None
        }
    }

    /// Where the mode selector stands for a mode's name: at the kind's
    /// position, and at the first for a name of no mode.
    pub fn position_of(name: &str) -> (position: usize)
        ensures
            match Self::named(name@) {
                Some(kind) => Self::at(position) == Some(kind),
                None => position == 0,
            },
    {
        match Self::from_name(name) {
            Some(kind) => kind.index(),
            None => 0,
        }
    }

    /// The number of samples of the kind's line chart.
    pub open spec fn samples_of(self) -> u32 {
        match self {
            ProfileKind::Velocity => VELOCITY_SAMPLES,
            ProfileKind::Mass => PROFILE_SAMPLES,
            ProfileKind::Density => PROFILE_SAMPLES,
        }
    }

    /// How often one is halved to give the radius step of the kind's line
    /// chart.
    pub open spec fn halvings_of(self) -> u32 {
        match self {
            ProfileKind::Velocity => VELOCITY_HALVINGS,
            ProfileKind::Mass => PROFILE_HALVINGS,
            ProfileKind::Density => PROFILE_HALVINGS,
        }
    }

    /// The number of samples of the kind's line chart: 45 for velocity, 182
    /// for mass and density.
    pub fn samples(self) -> (count: u32)
        ensures
            count == self.samples_of(),
    {
        match self {
            ProfileKind::Velocity => VELOCITY_SAMPLES,
            ProfileKind::Mass => PROFILE_SAMPLES,
            ProfileKind::Density => PROFILE_SAMPLES,
        }
    }

    /// The halvings of the kind's radius step: none for velocity, which
    /// steps by one, two for mass and density, which step by a quarter.
    pub fn halvings(self) -> (halvings: u32)
        ensures
            halvings == self.halvings_of(),
    {
        match self {
            ProfileKind::Velocity => VELOCITY_HALVINGS,
            ProfileKind::Mass => PROFILE_HALVINGS,
            ProfileKind::Density => PROFILE_HALVINGS,
        }
    }

    /// The display bound of the kind's line chart.
    pub open spec fn bound_of(self) -> u64 {
        match self {
            ProfileKind::Velocity => VELOCITY_BOUND,
            ProfileKind::Mass => MASS_BOUND,
            ProfileKind::Density => DENSITY_BOUND,
        }
    }

    /// The display bound of the kind's line chart.
    pub fn bound(self) -> (b: u64)
        ensures
            b == self.bound_of(),
    {
        match self {
            ProfileKind::Velocity => VELOCITY_BOUND,
            ProfileKind::Mass => MASS_BOUND,
            ProfileKind::Density => DENSITY_BOUND,
        }
    }
}

/// The three names differ, so each kind is found again by its name.
pub proof fn lemma_names_differ(kind: ProfileKind)
    ensures
        ProfileKind::named(kind.name_of()) == Some(kind),
{
    reveal_strlit("velocity");
    reveal_strlit("mass");
    reveal_strlit("density");
    assert("velocity"@[0] != "mass"@[0]);
    assert("velocity"@[0] != "density"@[0]);
    assert("mass"@[0] != "density"@[0]);
}

/// The bounds are the whole numbers that their names say.
pub proof fn lemma_bounds_are_whole()
    ensures
        is_whole(DENSITY_BOUND, 4),
        is_whole(MASS_BOUND, 30),
        is_whole(MASS_BAR_BOUND, 100),
        is_whole(VELOCITY_BOUND, 300),
{
    lemma2_to64_rest();
    assert(pow2(50) == 0x4000000000000);
    assert(pow2(48) == 0x1000000000000);
    assert(pow2(46) == 0x400000000000);
    assert(pow2(44) == 0x100000000000);
}

/// Samples the two series of a profile at the radii of the kind's chart
/// and clips the curve at the kind's bound. `first` and `second` are the
/// series' functions of the radius; `locate` receives
/// `(x0, y0, x1, y1, bound)` and says where the line between two samples
/// meets the bound. Whatever the three answer, no value of the curve lies
/// above the bound, no radius is NaN, and the radii never decrease.
pub fn profile_chart<L, F, G>(kind: ProfileKind, locate: &L, first: &F, second: &G) -> (curve: Vec<
    SamplePoint,
>) where
    L: Fn(u64, u64, u64, u64, u64) -> u64,
    F: Fn(u64) -> u64,
    G: Fn(u64) -> u64,

    requires
        forall|x0: u64, y0: u64, x1: u64, y1: u64, b: u64| locate.requires((x0, y0, x1, y1, b)),
        forall|x: u64| first.requires((x,)),
        forall|x: u64| second.requires((x,)),
    ensures
        exists|points: Seq<SamplePoint>, resolved: Seq<Resolved>|
            {
                &&& sampled_by(
                    points,
                    kind.samples_of() as nat,
                    kind.halvings_of() as nat,
                    *first,
                    *second,
                )
                &&& resolved.len() == crossings(points, kind.bound_of()).len()
                &&& located_by(points, kind.bound_of(), resolved, *locate)
                &&& evaluated_by(points, kind.bound_of(), resolved, *first, *second)
                &&& curve@ == clipped(points, kind.bound_of(), resolved)
            },
        within_bound(curve@, kind.bound_of()),
        radii_are_numbers(curve@),
        radii_ascend(curve@),
{
    let points = sample(kind.samples(), kind.halvings(), first, second);
    let bound = kind.bound();
    proof {
        lemma_sampled_radii_increase(
            points@,
            kind.samples_of() as nat,
            kind.halvings_of() as nat,
            *first,
            *second,
        );
        lemma_sampled_radii_numbers(
            points@,
            kind.samples_of() as nat,
            kind.halvings_of() as nat,
            *first,
            *second,
        );
    }
    clip(&points, bound, locate, first, second)
}

} // verus!
