use vstd::prelude::*;
use crate::fixedpt::PI_Q;
use crate::fixedpt::Q_ONE;

verus! {

/// The Q32.32 raw value that `cordic::sin` returns for the angle whose raw
/// Q32.32 value is `x`.
pub uninterp spec fn sin_fix(x: int) -> int;

/// The Q32.32 raw value that `cordic::cos` returns for the angle whose raw
/// Q32.32 value is `x`.
pub uninterp spec fn cos_fix(x: int) -> int;

/// The Q32.32 raw value that `cordic::acos` returns for the ratio whose raw
/// Q32.32 value is `x`.
pub uninterp spec fn acos_fix(x: int) -> int;

/// Relies on `cordic::sin` over `fixed::FixedI64<U32>`: the result depends on
/// the angle bits alone.  The angle is kept in `[0, pi]`, where the
/// implementation's argument reduction takes at most one step.
#[verifier::external_body]
pub(crate) fn sin_w(x: i64) -> (r: i64)
    requires
        0 <= x <= PI_Q,
    ensures
        r as int == sin_fix(x as int),
{
    cordic::sin(fixed::FixedI64::<fixed::types::extra::U32>::from_bits(x)).to_bits()
}

/// Relies on `cordic::cos` over `fixed::FixedI64<U32>`: the result depends on
/// the angle bits alone.  The angle is kept in `[0, pi]`, where the
/// implementation's argument reduction takes at most one step.
#[verifier::external_body]
pub(crate) fn cos_w(x: i64) -> (r: i64)
    requires
        0 <= x <= PI_Q,
    ensures
        r as int == cos_fix(x as int),
{
    cordic::cos(fixed::FixedI64::<fixed::types::extra::U32>::from_bits(x)).to_bits()
}

/// Relies on `cordic::acos` over `fixed::FixedI64<U32>`: the result depends
/// on the ratio bits alone.  The ratio is kept in `[0, 1]`, inside the
/// mathematical domain of the arc-cosine.
#[verifier::external_body]
pub(crate) fn acos_w(x: i64) -> (r: i64)
    requires
        0 <= x <= Q_ONE,
    ensures
        r as int == acos_fix(x as int),
{
    cordic::acos(fixed::FixedI64::<fixed::types::extra::U32>::from_bits(x)).to_bits()
}

} // verus!
