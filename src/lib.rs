//! Piecewise exponential survival sampling for clinical trial simulation.
//!
//! Floating-point values are modelled by their IEEE-754 binary64 bit patterns
//! (`f64::to_bits`), so that validation, range checks and the breakpoint lookup
//! of the inverse-CDF transform can be stated and proved over plain integers.

pub mod ieee;
pub mod error;
pub mod breakpoints;
pub mod intervals;

pub use error::{PiecewiseExponentialError, PiecewiseExponentialSampleError};
