use vstd::prelude::*;

verus! {

/// One whole unit in Q32.32 fixed point: `2^32`.
pub const Q_ONE: i64 = 0x1_0000_0000;

/// `pi` in Q32.32 fixed point, rounded down: `floor(pi * 2^32)`.
pub const PI_Q: i64 = 13493037704;

/// Mathematical value of the product quotient `(a * b) / (c * d)`, with the
/// unbounded Euclidean division of the specification language.  All of the
/// crate's fixed-point formulas are stated through this function on
/// non-negative operands, where Euclidean and truncating division agree.
pub open spec fn frac_val(a: int, b: int, c: int, d: int) -> int {
    (a * b) / (c * d)
}

/// `(a * b) / (c * d)` on non-negative operands, exactly when the quotient is
/// representable.
pub fn mul_div(a: i64, b: i64, c: i64, d: i64) -> (r: Option<i64>)
    requires
        0 <= a,
        0 <= b,
        1 <= c,
        1 <= d,
    ensures
        r is Some <==> frac_val(a as int, b as int, c as int, d as int) <= i64::MAX,
        (r matches Some(v) ==> v == frac_val(a as int, b as int, c as int, d as int)),
{
    proof {
        assert((a as int) * (b as int) <= (u128::MAX as int) && (c as int) * (d as int)
            <= (u128::MAX as int) && 1 <= (c as int) * (d as int)) by (nonlinear_arith)
            requires
                0 <= a <= i64::MAX,
                0 <= b <= i64::MAX,
                1 <= c <= i64::MAX,
                1 <= d <= i64::MAX,
        ;
    }
    let n: u128 = (a as u128) * (b as u128);
    let dd: u128 = (c as u128) * (d as u128);
    let v: u128 = n / dd;
    proof {
        assert(0 <= (a as int) * (b as int)) by (nonlinear_arith)
            requires
                0 <= a,
                0 <= b,
        ;
        vstd::arithmetic::div_mod::lemma_div_pos_is_pos(n as int, dd as int);
    }
    if v <= 0x7fff_ffff_ffff_ffffu128 {
        Some(v as i64)
    } else {
        None
    }
}

/// Checked `a + b` over `i64`, exactly when the sum is representable.
pub fn add_i64(a: i64, b: i64) -> (r: Option<i64>)
    ensures
        r is Some <==> i64::MIN <= a as int + b as int <= i64::MAX,
        (r matches Some(v) ==> v == a as int + b as int),
{
    let s: i128 = (a as i128) + (b as i128);
    if -0x8000_0000_0000_0000i128 <= s && s <= 0x7fff_ffff_ffff_ffffi128 {
        Some(s as i64)
    } else {
        None
    }
}

/// Checked `a - b` over `i64`, exactly when the difference is representable.
pub fn sub_i64(a: i64, b: i64) -> (r: Option<i64>)
    ensures
        r is Some <==> i64::MIN <= a as int - b as int <= i64::MAX,
        (r matches Some(v) ==> v == a as int - b as int),
{
    let s: i128 = (a as i128) - (b as i128);
    if -0x8000_0000_0000_0000i128 <= s && s <= 0x7fff_ffff_ffff_ffffi128 {
        Some(s as i64)
    } else {
        None
    }
}

} // verus!
