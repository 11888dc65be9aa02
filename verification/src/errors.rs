use vstd::prelude::*;

verus! {

/// Failure taxonomy of the library.
///
/// Every fallible operation reports exactly one of these conditions; no
/// verified function of the crate panics.
#[derive(Clone, Copy, Debug, PartialEq, Eq, Structural)]
pub enum CurveError {
    /// A textual input (radius, angle, station, speed, table token) does not
    /// match the expected numeric grammar or does not fit the numeric range.
    ParseError,
    /// The requested build method has no implemented derivation.
    UnsupportedMethodError,
    /// A mathematically invalid configuration: non-positive radius, a
    /// deflection outside the open (0, 180) degree range, an obstruction
    /// offset outside [0, radius], or a derived value outside the
    /// representable fixed-point range.
    GeometryError,
    /// The requested design speed has no row in the loaded table.
    LookupError,
    /// The reference table text is malformed (for example a distance token
    /// with an embedded comma).
    ConfigError,
}

impl CurveError {
    /// Short description of the failure, suitable for reporting to a caller.
    pub fn message(&self) -> (r: &'static str) {
        match self {
            CurveError::ParseError => "failed to parse a numeric input",
            CurveError::UnsupportedMethodError => "this build method has not been implemented",
            CurveError::GeometryError => "mathematically invalid curve configuration",
            CurveError::LookupError => "design speed is not in the table",
            CurveError::ConfigError => "table is configured improperly",
        }
    }
}

} // verus!
