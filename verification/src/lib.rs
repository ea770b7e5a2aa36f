//! Strength-training arithmetic in fixed point: unit conversion between pounds
//! and kilograms, one-repetition-maximum estimates, and barbell plate loading.
//!
//! A weight is a whole number of small parts of its unit: billionths of a
//! pound, or parts of a kilogram so fine that every value in pounds is a whole
//! value in kilograms. Every operation is a pure function whose contract gives
//! its result exactly, over integers.

pub mod one_rep_max;
pub mod plates;
pub mod rounding;
pub mod weight_conversion;
