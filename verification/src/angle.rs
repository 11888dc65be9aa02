use vstd::prelude::*;
use vstd::slice::slice_subrange;
use crate::errors::CurveError;
use crate::fixedpt::PI_Q;
use crate::fixedpt::Q_ONE;
use crate::fixedpt::frac_val;
use crate::fixedpt::mul_div;
use crate::parse::find_byte;
use crate::parse::find_in;
use crate::parse::lemma_find_byte;
use crate::parse::parse_scaled;
use crate::parse::parse_scaled_spec;
use crate::parse::str_bytes;
use crate::parse::text_bytes;

verus! {

/// Q32.32 radians for non-negative Q32.32 decimal degrees:
/// `deg * pi / 180` rounded down at the fixed-point resolution.
pub open spec fn rad_of_deg(deg: int) -> int {
    (deg * PI_Q) / (180 * Q_ONE)
}

/// Q32.32 radians for decimal degrees of either sign, with the magnitude
/// converted as `rad_of_deg` and the sign carried over.
pub open spec fn rad_signed(deg: int) -> int {
    if deg >= 0 {
        rad_of_deg(deg)
    } else {
        -rad_of_deg(-deg)
    }
}

fn rad_nonneg(deg: i64) -> (r: i64)
    requires
        0 <= deg,
    ensures
        r as int == rad_of_deg(deg as int),
        0 <= r <= deg,
{
    proof {
        vstd::arithmetic::mul::lemma_mul_inequality(PI_Q as int, 180 * (Q_ONE as int), deg as int);
        vstd::arithmetic::div_mod::lemma_multiply_divide_le(
            deg as int * PI_Q,
            180 * (Q_ONE as int),
            deg as int,
        );
        vstd::arithmetic::div_mod::lemma_div_pos_is_pos(deg as int * PI_Q, 180 * (Q_ONE as int));
        assert(0 <= deg as int * PI_Q) by (nonlinear_arith)
            requires
                0 <= deg,
        ;
    }
    match mul_div(deg, PI_Q, 180, Q_ONE) {
        Some(v) => v,
        None => {
            proof {
                assert(false);
            }
            0
        },
    }
}

/// Radian bits from degree bits, mirroring `rad_signed`.
pub fn rad_from_deg(deg: i64) -> (r: i64)
    requires
        i64::MIN < deg,
    ensures
        r as int == rad_signed(deg as int),
        -deg <= r <= deg || deg < 0 && deg <= r <= -deg,
{
    if deg >= 0 {
        rad_nonneg(deg)
    } else {
        let m = rad_nonneg(-deg);
        -m
    }
}

/// A deflection angle held redundantly as Q32.32 radians and Q32.32 decimal
/// degrees; the two representations agree whenever `wf` holds, which every
/// constructor of the crate establishes.
#[derive(Clone, Copy, Debug, PartialEq, Eq, Structural)]
pub struct Angle {
    pub radians: i64,
    pub decimal_degrees: i64,
}

impl Angle {
    /// The representation invariant: radians are exactly the fixed-point
    /// conversion of the decimal degrees.
    pub open spec fn wf(&self) -> bool {
        self.radians as int == rad_signed(self.decimal_degrees as int)
    }

    /// An angle built directly from Q32.32 decimal degrees.
    pub fn of_degrees(deg: i64) -> (r: Angle)
        requires
            i64::MIN < deg,
        ensures
            r.decimal_degrees == deg,
            r.wf(),
    {
        Angle { radians: rad_from_deg(deg), decimal_degrees: deg }
    }

    /// Parse an angle from either a decimal-degree numeral or the
    /// degree-minute-second notation `{D}d{M}'{S}"`; absent minute or second
    /// components count as zero.  Matches `angle_deg_spec`.
    pub fn from(s: &str) -> (r: Result<Angle, CurveError>)
        ensures
            r is Ok <==> angle_deg_spec(text_bytes(s@)) is Some,
            (r matches Ok(a) ==> angle_deg_spec(text_bytes(s@)) == Some(a.decimal_degrees as int)
                && a.wf()),
            (r matches Err(e) ==> e == CurveError::ParseError),
    {
        let b = str_bytes(s);
        match parse_angle_deg(b) {
            None => Err(CurveError::ParseError),
            Some(deg) => Ok(Angle::of_degrees(deg)),
        }
    }
}

/// Q32.32 decimal degrees of the degree-minute-second notation, given the
/// text before the `d` marker and the text after it: the degrees numeral,
/// then an optional minutes numeral closed by `'`, then an optional seconds
/// numeral closed by `"`; each omitted component is zero, none may be
/// negative, and the total is `D + M/60 + S/3600`.
pub open spec fn dms_deg_spec(dpart: Seq<u8>, rest: Seq<u8>) -> Option<int> {
    let ti = find_byte(rest, 39);
    let mpart = if ti == -1 {
        Seq::<u8>::empty()
    } else {
        rest.take(ti)
    };
    let tail = if ti == -1 {
        rest
    } else {
        rest.skip(ti + 1)
    };
    if tail.len() == 0 || tail.last() == 34 {
        let spart = if tail.len() == 0 {
            tail
        } else {
            tail.drop_last()
        };
        let m = if ti == -1 {
            Some(0int)
        } else {
            parse_scaled_spec(mpart)
        };
        let s2 = if tail.len() == 0 {
            Some(0int)
        } else {
            parse_scaled_spec(spart)
        };
        match (parse_scaled_spec(dpart), m, s2) {
            (Some(dv), Some(mv), Some(sv)) => if dv >= 0 && mv >= 0 && sv >= 0 {
                let total = dv + mv / 60 + sv / 3600;
                if total <= i64::MAX {
                    Some(total)
                } else {
                    None
                }
            } else {
                None
            },
            _ => None,
        }
    } else {
        None
    }
}

/// Q32.32 decimal degrees of an angle numeral: a plain decimal when no `d`
/// marker occurs, the degree-minute-second notation otherwise.
pub open spec fn angle_deg_spec(s: Seq<u8>) -> Option<int> {
    let di = find_byte(s, 100);
    if di == -1 {
        parse_scaled_spec(s)
    } else {
        dms_deg_spec(s.take(di), s.skip(di + 1))
    }
}

fn parse_dms(dpart: &[u8], rest: &[u8]) -> (r: Option<i64>)
    ensures
        r is Some <==> dms_deg_spec(dpart@, rest@) is Some,
        (r matches Some(v) ==> dms_deg_spec(dpart@, rest@) == Some(v as int) && 0 <= v),
{
    proof {
        lemma_find_byte(rest@, 39);
    }
    let nrest = rest.len();
    let ti = find_in(rest, 39);
    let (mpart, tail): (&[u8], &[u8]) = match ti {
        None => (slice_subrange(rest, nrest, nrest), rest),
        Some(t) => (slice_subrange(rest, 0, t), slice_subrange(rest, t + 1, nrest)),
    };
    proof {
        match ti {
            None => {
                assert(mpart@ =~= Seq::<u8>::empty());
            },
            Some(t) => {
                assert(mpart@ =~= rest@.take(t as int));
                assert(tail@ =~= rest@.skip(t as int + 1));
            },
        }
    }
    let tn = tail.len();
    if tn > 0 && tail[tn - 1] != 34 {
        return None;
    }
    let spart: &[u8] = if tn == 0 {
        tail
    } else {
        slice_subrange(tail, 0, tn - 1)
    };
    proof {
        if tn > 0 {
            assert(spart@ =~= tail@.drop_last());
        }
    }
    let d = parse_scaled(dpart);
    let mv: Option<i64> = match ti {
        None => Some(0),
        Some(_) => parse_scaled(mpart),
    };
    let sv: Option<i64> = if tn == 0 {
        Some(0)
    } else {
        parse_scaled(spart)
    };
    match (d, mv, sv) {
        (Some(dv), Some(m2), Some(s2)) => {
            if dv >= 0 && m2 >= 0 && s2 >= 0 {
                let total: i128 = dv as i128 + ((m2 as u64) / 60) as i128 + ((s2 as u64)
                    / 3600) as i128;
                if total <= 0x7fff_ffff_ffff_ffffi128 {
                    Some(total as i64)
                } else {
                    None
                }
            } else {
                None
            }
        },
        _ => None,
    }
}

/// Angle numeral to Q32.32 decimal degrees, matching `angle_deg_spec`.
pub fn parse_angle_deg(s: &[u8]) -> (r: Option<i64>)
    ensures
        r is Some <==> angle_deg_spec(s@) is Some,
        (r matches Some(v) ==> angle_deg_spec(s@) == Some(v as int) && -i64::MAX <= v),
{
    proof {
        lemma_find_byte(s@, 100);
    }
    match find_in(s, 100) {
        None => parse_scaled(s),
        Some(di) => {
            let n = s.len();
            let dpart: &[u8] = slice_subrange(s, 0, di);
            let rest: &[u8] = slice_subrange(s, di + 1, n);
            proof {
                assert(dpart@ =~= s@.take(di as int));
                assert(rest@ =~= s@.skip(di as int + 1));
            }
            parse_dms(dpart, rest)
        },
    }
}

} // verus!
