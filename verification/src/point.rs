//! The points of a two-series chart.

use vstd::prelude::*;

verus! {

/// One of the two series that a chart draws over the same radius axis.
#[derive(Clone, Copy, Debug, PartialEq, Eq, Structural)]
pub enum Series {
    First,
    Second,
}

impl Series {
    /// The other series of the chart.
    pub open spec fn companion(self) -> Series {
        match self {
            Series::First => Series::Second,
            Series::Second => Series::First,
        }
    }

    /// The other series of the chart.
    pub fn other(self) -> (r: Series)
        ensures
            r == self.companion(),
    {
        match self {
            Series::First => Series::Second,
            Series::Second => Series::First,
        }
    }
}

/// A radius and the value of each series there, as binary64 patterns. A NaN
/// value is a gap: the renderer does not draw it.
#[derive(Clone, Copy, Debug, PartialEq, Eq, Structural)]
pub struct SamplePoint {
    pub x: u64,
    pub y1: u64,
    pub y2: u64,
}

impl SamplePoint {
    /// The value of one series at this point.
    pub open spec fn value(self, series: Series) -> u64 {
        match series {
            Series::First => self.y1,
            Series::Second => self.y2,
        }
    }

    pub fn new(x: u64, y1: u64, y2: u64) -> (p: SamplePoint)
        ensures
            p == (SamplePoint { x, y1, y2 }),
    {
        SamplePoint { x, y1, y2 }
    }

    /// The value of one series at this point.
    pub fn get(&self, series: Series) -> (v: u64)
        ensures
            v == self.value(series),
    {
        match series {
            Series::First => self.y1,
            Series::Second => self.y2,
        }
    }
}

} // verus!
