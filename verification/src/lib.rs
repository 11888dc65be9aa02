//! Horizontal roadway-curve solver with verified geometry and station
//! arithmetic.
//!
//! The crate derives the standard dimensions of a circular horizontal curve
//! (tangent, curve length, long chord, middle ordinate, external, degree of
//! curve, obstruction-limited sight distance) from raw textual survey inputs,
//! propagates the three reference stations (PC, PI, PT) from whichever one is
//! known, and answers minimum-sight-distance lookups against a design-manual
//! table.
//!
//! All quantities are carried as signed Q32.32 fixed-point values (an `i64`
//! holding `value * 2^32`); the transcendental evaluations are delegated to
//! the `cordic` crate through a small set of trusted wrappers.

pub mod angle;
pub mod errors;
pub mod fixedpt;
pub mod horizontal;
pub mod parse;
pub mod sight_distance;
pub mod trig;
