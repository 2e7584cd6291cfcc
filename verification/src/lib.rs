//! Data preparation for charts of galaxy rotation curves.
//!
//! A chart draws two series over a common radius axis and has a fixed upper
//! display bound. This crate samples the series, decides which values are
//! blanked because they lie above the bound, and where synthetic points have
//! to be inserted so that a line ends exactly on the bound.
//!
//! Every number is a binary64 value carried as its 64-bit pattern
//! (`to_bits` / `from_bits` on the caller's side). All decisions the crate
//! takes are order comparisons, which are integer logic on those patterns;
//! the caller does the arithmetic and hands it in as functions on patterns.
//!
//! - `binary64`, `value`, `whole`: comparing patterns, what they stand for,
//!   and the patterns of whole numbers and binary fractions.
//! - `point`, `sampling`, `clipping`, `laws`: curves, how they are sampled
//!   and clipped, and what holds of every clipped curve.
//! - `chart`, `velocity`, `bessel`, `controls`: the charts and their bounds,
//!   the velocity chart's measured curve, the case analysis of the Bessel
//!   functions, and the model's parameters with their sliders.
//! - `translation`: the texts of the user interface.

pub mod bessel;
pub mod binary64;
pub mod chart;
pub mod clipping;
pub mod language;
pub mod controls;
pub mod laws;
pub mod point;
pub mod sampling;
pub mod translation;
pub mod value;
pub mod velocity;
pub mod whole;
