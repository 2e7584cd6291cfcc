//! The parameters of the galaxy model and the sliders that set them.

use vstd::prelude::*;
use crate::binary64::{greater, gt, less, lt, ZERO};
use crate::whole::{from_whole, is_whole};

verus! {

/// The four physical parameters of the model, as binary64 patterns, and the
/// choice of the halo profile: isothermal if `iso_nfw`, else NFW. The two
/// scale lengths must be positive: every profile divides by them.
#[derive(Clone, Copy, Debug, PartialEq, Eq, Structural)]
pub struct GalaxyParameters {
    pub disk_density: u64,
    pub disk_scale: u64,
    pub halo_density: u64,
    pub halo_scale: u64,
    pub iso_nfw: bool,
}

/// The number of sliders, one per physical parameter.
pub const SLIDERS: usize = 4;

/// The disk density on start, 1.01.
pub const INITIAL_DISK_DENSITY: u64 = 0x3ff0_28f5_c28f_5c29;

/// The disk scale length on start, 4.5.
pub const INITIAL_DISK_SCALE: u64 = 0x4012_0000_0000_0000;

/// The halo density on start, 1.52e-21.
pub const INITIAL_HALO_DENSITY: u64 = 0x3b9c_b644_dc16_33c1;

/// The halo scale length on start, 15.91.
pub const INITIAL_HALO_SCALE: u64 = 0x402f_d1eb_851e_b852;

impl GalaxyParameters {
    /// Both scale lengths are greater than zero.
    pub open spec fn scales_positive(self) -> bool {
        gt(self.disk_scale, ZERO) && gt(self.halo_scale, ZERO)
    }

    /// The parameters with slider `slider` set to `value`: the sliders are
    /// numbered as the fields stand, and a number that names no slider
    /// changes nothing.
    pub open spec fn updated(self, slider: usize, value: u64) -> GalaxyParameters {
        if slider == 0 {
            GalaxyParameters { disk_density: value, ..self }
        } else if slider == 1 {
            GalaxyParameters { disk_scale: value, ..self }
        } else if slider == 2 {
            GalaxyParameters { halo_density: value, ..self }
        } else if slider == 3 {
            GalaxyParameters { halo_scale: value, ..self }
        } else {
            self
        }
    }

    /// The parameters that the application starts with.
    pub fn initial() -> (p: GalaxyParameters)
        ensures
            p == (GalaxyParameters {
                disk_density: INITIAL_DISK_DENSITY,
                disk_scale: INITIAL_DISK_SCALE,
                halo_density: INITIAL_HALO_DENSITY,
                halo_scale: INITIAL_HALO_SCALE,
                iso_nfw: true,
            }),
            p.scales_positive(),
    {
        GalaxyParameters {
            disk_density: INITIAL_DISK_DENSITY,
            disk_scale: INITIAL_DISK_SCALE,
            halo_density: INITIAL_HALO_DENSITY,
            halo_scale: INITIAL_HALO_SCALE,
            iso_nfw: true,
        }
    }

    /// Whether both scale lengths are greater than zero.
    pub fn has_positive_scales(&self) -> (r: bool)
        ensures
            r == self.scales_positive(),
    {
        greater(self.disk_scale, ZERO) && greater(self.halo_scale, ZERO)
    }

    /// Sets the parameter of one slider.
    pub fn with_slider(self, slider: usize, value: u64) -> (p: GalaxyParameters)
        ensures
            p == self.updated(slider, value),
    {
        let mut p = self;
        if slider == 0 {
            p.disk_density = value;
        } else if slider == 1 {
            p.disk_scale = value;
        } else if slider == 2 {
            p.halo_density = value;
        } else if slider == 3 {
            p.halo_scale = value;
        }
        p
    }
}

/// A value moved into the range from `min` to `max`: the nearer end where it
/// lies outside. NaN is in no order and stays.
pub open spec fn clamped(value: u64, min: u64, max: u64) -> u64 {
    if lt(value, min) {
        min
    } else if gt(value, max) {
        max
    } else {
        value
    }
}

/// Moves a value into the range from `min` to `max`.
pub fn clamp(value: u64, min: u64, max: u64) -> (r: u64)
    ensures
        r == clamped(value, min, max),
{
    if less(value, min) {
        min
    } else if greater(value, max) {
        max
    } else {
        value
    }
}

/// A value as a bar shows it: the bound where it lies above the bound.
pub open spec fn capped(value: u64, bound: u64) -> u64 {
    if gt(value, bound) {
        bound
    } else {
        value
    }
}

/// Cuts a value down to the bound.
pub fn cap(value: u64, bound: u64) -> (r: u64)
    ensures
        r == capped(value, bound),
{
    if greater(value, bound) {
        bound
    } else {
        value
    }
}

/// The ends of each slider's range, in slider units.
pub open spec fn slider_limits(slider: usize) -> Option<(u32, u32)> {
    if slider == 0 {
        Some((1u32, 200u32))
    } else if slider == 1 {
        Some((20u32, 880u32))
    } else if slider == 2 {
        Some((1u32, 303u32))
    } else if slider == 3 {
        Some((1u32, 3180u32))
    } else {
        None
    }
}

/// The ends of a slider's range as binary64 patterns; `None` where the
/// number names no slider.
pub fn slider_range(slider: usize) -> (r: Option<(u64, u64)>)
    ensures
        r is Some <==> slider < SLIDERS,
        r matches Some((min, max)) ==> slider_limits(slider) matches Some((low, high)) && is_whole(
            min,
            low as nat,
        ) && is_whole(max, high as nat),
{
    if slider == 0 {
        Some((from_whole(1), from_whole(200)))
    } else if slider == 1 {
        Some((from_whole(20), from_whole(880)))
    } else if slider == 2 {
        Some((from_whole(1), from_whole(303)))
    } else if slider == 3 {
        Some((from_whole(1), from_whole(3180)))
    } else {
        None
    }
}

/// Moves a slider reading into the slider's range; a reading for a number
/// that names no slider is returned as it is.
pub fn clamp_to_slider(slider: usize, value: u64) -> (r: u64)
    ensures
        slider >= SLIDERS ==> r == value,
        slider < SLIDERS ==> exists|min: u64, max: u64|
            slider_limits(slider) matches Some((low, high)) && is_whole(min, low as nat)
                && is_whole(max, high as nat) && r == #[trigger] clamped(value, min, max),
{
    match slider_range(slider) {
        Some((min, max)) => clamp(value, min, max),
        None => value,
    }
}

} // verus!
