use vstd::prelude::*;
use crate::angle::Angle;
use crate::angle::angle_deg_spec;
use crate::angle::rad_signed;
use crate::errors::CurveError;
use crate::fixedpt::PI_Q;
use crate::fixedpt::Q_ONE;
use crate::fixedpt::add_i64;
use crate::fixedpt::frac_val;
use crate::fixedpt::mul_div;
use crate::fixedpt::sub_i64;
use crate::parse::parse_scaled;
use crate::parse::parse_scaled_spec;
use crate::parse::parse_station;
use crate::parse::parse_station_spec;
use crate::parse::str_bytes;
use crate::parse::text_bytes;
use crate::sight_distance::SightType;
use crate::trig::acos_fix;
use crate::trig::acos_w;
use crate::trig::cos_fix;
use crate::trig::cos_w;
use crate::trig::sin_fix;
use crate::trig::sin_w;

verus! {

/// Which of the three curve reference points the supplied station names.
#[derive(Clone, Copy, Debug, PartialEq, Eq, Structural)]
pub enum HorizontalStationDefinition {
    PI,
    PC,
    PT,
}

impl Default for HorizontalStationDefinition {
    /// The selection starts at the point of intersection.
    fn default() -> (r: Self)
        ensures
            r is PI,
    {
        HorizontalStationDefinition::PI
    }
}

impl HorizontalStationDefinition {
    pub open spec fn spec_next(self) -> Self {
        match self {
            HorizontalStationDefinition::PC => HorizontalStationDefinition::PI,
            HorizontalStationDefinition::PI => HorizontalStationDefinition::PT,
            HorizontalStationDefinition::PT => HorizontalStationDefinition::PC,
        }
    }

    /// Cycle the selection PC -> PI -> PT -> PC.
    pub fn next(self) -> (r: Self)
        ensures
            r == self.spec_next(),
    {
        match self {
            HorizontalStationDefinition::PC => HorizontalStationDefinition::PI,
            HorizontalStationDefinition::PI => HorizontalStationDefinition::PT,
            HorizontalStationDefinition::PT => HorizontalStationDefinition::PC,
        }
    }
}

/// Which pair of inputs defines the curve.  Only radius plus curve angle has
/// an implemented derivation; radius plus tangent is an explicit gap.
#[derive(Clone, Copy, Debug, PartialEq, Eq, Structural)]
pub enum HorizontalBuildDefinition {
    RadiusCurveAngle,
    RadiusTangent,
}

impl Default for HorizontalBuildDefinition {
    /// The selection starts at the implemented radius-plus-curve-angle
    /// method.
    fn default() -> (r: Self)
        ensures
            r is RadiusCurveAngle,
    {
        HorizontalBuildDefinition::RadiusCurveAngle
    }
}

impl HorizontalBuildDefinition {
    pub open spec fn spec_next(self) -> Self {
        match self {
            HorizontalBuildDefinition::RadiusCurveAngle => HorizontalBuildDefinition::RadiusTangent,
            HorizontalBuildDefinition::RadiusTangent => HorizontalBuildDefinition::RadiusCurveAngle,
        }
    }

    /// Cycle between the two build methods.
    pub fn next(self) -> (r: Self)
        ensures
            r == self.spec_next(),
    {
        match self {
            HorizontalBuildDefinition::RadiusCurveAngle => HorizontalBuildDefinition::RadiusTangent,
            HorizontalBuildDefinition::RadiusTangent => HorizontalBuildDefinition::RadiusCurveAngle,
        }
    }
}

/// A linear position along the alignment in Q32.32 station units.  The
/// elevation is a placeholder for an unimplemented vertical dimension and is
/// always zero.
#[derive(Clone, Copy, Debug, PartialEq, Eq, Structural)]
pub struct Station {
    pub value: i64,
    pub elevation: i64,
}

/// The derived geometry of one circular horizontal curve; every length is
/// Q32.32.
#[derive(Clone, Copy, Debug, PartialEq, Eq, Structural)]
pub struct HorizontalDimensions {
    pub radius: i64,
    pub curve_length: i64,
    pub tangent: i64,
    pub long_chord: i64,
    pub middle_ordinate: i64,
    pub external: i64,
    pub curve_length_100: Angle,
    pub curve_angle: Angle,
    pub design_speed: i64,
    pub sight_distance: i64,
}

/// The three reference stations, always populated together.
#[derive(Clone, Copy, Debug, PartialEq, Eq, Structural)]
pub struct HorizontalStations {
    pub pc: Station,
    pub pi: Station,
    pub pt: Station,
}

/// The full deliverable: dimensions plus propagated stations.
#[derive(Clone, Copy, Debug, PartialEq, Eq, Structural)]
pub struct HorizontalCurve {
    pub dimensions: HorizontalDimensions,
    pub stations: HorizontalStations,
}

/// The raw textual inputs of one evaluation, as a form would supply them.
#[derive(Clone, Debug)]
pub struct HorizontalData {
    pub input_station_method: HorizontalStationDefinition,
    pub input_build_method: HorizontalBuildDefinition,
    pub input_station: String,
    pub input_length: String,
    pub input_radius: String,
    pub input_curve_angle: String,
    pub input_tangent: String,
    pub input_sight_type: SightType,
    pub input_design_speed: String,
    pub input_m: String,
    pub sustained_downgrade: bool,
}

impl Default for HorizontalData {
    /// Empty inputs with the default method selections.
    fn default() -> (r: Self)
        ensures
            r.input_station_method is PI,
            r.input_build_method is RadiusCurveAngle,
            r.input_sight_type is Stopping,
            !r.sustained_downgrade,
            r.input_station@ == Seq::<char>::empty(),
            r.input_radius@ == Seq::<char>::empty(),
            r.input_curve_angle@ == Seq::<char>::empty(),
            r.input_design_speed@ == Seq::<char>::empty(),
            r.input_m@ == Seq::<char>::empty(),
    {
        HorizontalData {
            input_station_method: HorizontalStationDefinition::PI,
            input_build_method: HorizontalBuildDefinition::RadiusCurveAngle,
            input_station: String::new(),
            input_length: String::new(),
            input_radius: String::new(),
            input_curve_angle: String::new(),
            input_tangent: String::new(),
            input_sight_type: SightType::Stopping,
            input_design_speed: String::new(),
            input_m: String::new(),
            sustained_downgrade: false,
        }
    }
}

/// Parsed radius input.
pub open spec fn radius_spec(d: &HorizontalData) -> Option<int> {
    parse_scaled_spec(text_bytes(d.input_radius@))
}

/// Parsed curve-angle input, in Q32.32 decimal degrees.
pub open spec fn angle_spec(d: &HorizontalData) -> Option<int> {
    angle_deg_spec(text_bytes(d.input_curve_angle@))
}

/// Obstruction offset, defaulting to zero when absent or unparsable.
pub open spec fn m_val_spec(d: &HorizontalData) -> int {
    match parse_scaled_spec(text_bytes(d.input_m@)) {
        Some(v) => v,
        None => 0,
    }
}

/// Design speed, defaulting to zero when absent or unparsable.
pub open spec fn speed_val_spec(d: &HorizontalData) -> int {
    match parse_scaled_spec(text_bytes(d.input_design_speed@)) {
        Some(v) => v,
        None => 0,
    }
}

/// Parsed known-station input.
pub open spec fn station_val_spec(d: &HorizontalData) -> Option<int> {
    parse_station_spec(text_bytes(d.input_station@))
}

/// Curve length `R * delta` (with delta in radians).
pub open spec fn curve_length_val(rv: int, rad: int) -> int {
    frac_val(rv, rad, Q_ONE as int, 1)
}

/// Tangent `R * tan(delta / 2)`, computed as `R * sin / cos`.
pub open spec fn tangent_val(rv: int, s: int, c: int) -> int {
    frac_val(rv, s, c, 1)
}

/// External `R * (1 / cos(delta / 2) - 1)`, computed as `R * (1 - cos) / cos`.
pub open spec fn external_val(rv: int, c: int) -> int {
    frac_val(rv, Q_ONE - c, c, 1)
}

/// Middle ordinate `R * (1 - cos(delta / 2))`.
pub open spec fn middle_ord_val(rv: int, c: int) -> int {
    frac_val(rv, Q_ONE - c, Q_ONE as int, 1)
}

/// Long chord `2 * R * sin(delta / 2)`.
pub open spec fn long_chord_val(rv: int, s: int) -> int {
    frac_val(rv, 2 * s, Q_ONE as int, 1)
}

/// Degree of curve in decimal degrees: the tabulated `5729.6 / R`.
pub open spec fn deg100_val(rv: int) -> int {
    frac_val(57296 * (Q_ONE as int), Q_ONE as int, 10, rv)
}

/// Argument handed to the arc-cosine: `(R - m) / R`.
pub open spec fn sight_arg_val(rv: int, m: int) -> int {
    frac_val(rv - m, Q_ONE as int, rv, 1)
}

/// Arc-cosine bits converted to decimal degrees: `a * 180 / pi`.
pub open spec fn acos_deg_val(a: int) -> int {
    frac_val(a, 180 * (Q_ONE as int), PI_Q as int, 1)
}

/// Sight distance `R / 28.65 * acos((R - m) / R) * 180 / pi`, computed as
/// `(R * acos_degrees) * 20 / 573`.
pub open spec fn sight_distance_val(rv: int, a: int) -> int {
    frac_val(frac_val(rv, acos_deg_val(a), Q_ONE as int, 1), 20, 573, 1)
}

/// A negative value raised to zero: the arc-cosine of a ratio at the top of
/// its domain may come back a hair below zero from the fixed-point
/// evaluation, and the sight-distance formula reads such a result as a zero
/// angle.
pub open spec fn clamp_nonneg(a: int) -> int {
    if a < 0 {
        0
    } else {
        a
    }
}

/// The geometric admissibility of one parsed configuration: positive radius,
/// a deflection within one non-negative turn whose half-angle sine and
/// cosine are strictly positive (at most one), an obstruction offset inside
/// `[0, R]`, and every derived value inside the representable range.
pub open spec fn geom_ok(rv: int, deg: int, m: int) -> bool {
    let rad = rad_signed(deg);
    let half = rad / 2;
    let s = sin_fix(half);
    let c = cos_fix(half);
    let a = clamp_nonneg(acos_fix(sight_arg_val(rv, m)));
    &&& 1 <= rv
    &&& 0 <= rad <= 2 * PI_Q
    &&& 1 <= s <= Q_ONE
    &&& 1 <= c <= Q_ONE
    &&& 0 <= m <= rv
    &&& curve_length_val(rv, rad) <= i64::MAX
    &&& tangent_val(rv, s, c) <= i64::MAX
    &&& external_val(rv, c) <= i64::MAX
    &&& middle_ord_val(rv, c) <= i64::MAX
    &&& long_chord_val(rv, s) <= i64::MAX
    &&& deg100_val(rv) <= i64::MAX
    &&& acos_deg_val(a) <= i64::MAX
    &&& frac_val(rv, acos_deg_val(a), Q_ONE as int, 1) <= i64::MAX
    &&& sight_distance_val(rv, a) <= i64::MAX
}

/// What a solved `HorizontalDimensions` holds for parsed inputs
/// `(rv, deg, m, speed)`.
pub open spec fn dims_match(
    d: HorizontalDimensions,
    rv: int,
    deg: int,
    m: int,
    speed: int,
) -> bool {
    let rad = rad_signed(deg);
    let half = rad / 2;
    let s = sin_fix(half);
    let c = cos_fix(half);
    let a = clamp_nonneg(acos_fix(sight_arg_val(rv, m)));
    &&& d.radius as int == rv
    &&& d.curve_length as int == curve_length_val(rv, rad)
    &&& d.tangent as int == tangent_val(rv, s, c)
    &&& d.long_chord as int == long_chord_val(rv, s)
    &&& d.middle_ordinate as int == middle_ord_val(rv, c)
    &&& d.external as int == external_val(rv, c)
    &&& d.curve_length_100.decimal_degrees as int == deg100_val(rv)
    &&& d.curve_length_100.wf()
    &&& d.curve_angle.decimal_degrees as int == deg
    &&& d.curve_angle.wf()
    &&& d.design_speed as int == speed
    &&& d.sight_distance as int == sight_distance_val(rv, a)
}

/// The directional station table: for each known tag the `(pc, pi, pt)`
/// values derived from the known station `st`, the tangent `t` and the curve
/// length `l`.
pub open spec fn stations_vals(
    method: HorizontalStationDefinition,
    st: int,
    t: int,
    l: int,
) -> (int, int, int) {
    match method {
        HorizontalStationDefinition::PC => (st, st + t, st + l),
        HorizontalStationDefinition::PI => (st - t, st, st + t),
        HorizontalStationDefinition::PT => (st - l, st - t, st),
    }
}

/// All three propagated stations fit the representable range.
pub open spec fn stations_fit(
    method: HorizontalStationDefinition,
    st: int,
    t: int,
    l: int,
) -> bool {
    let v = stations_vals(method, st, t, l);
    &&& i64::MIN <= v.0 <= i64::MAX
    &&& i64::MIN <= v.1 <= i64::MAX
    &&& i64::MIN <= v.2 <= i64::MAX
}

/// What a propagated `HorizontalStations` holds.
pub open spec fn stations_match(hs: HorizontalStations, v: (int, int, int)) -> bool {
    &&& hs.pc.value as int == v.0
    &&& hs.pi.value as int == v.1
    &&& hs.pt.value as int == v.2
    &&& hs.pc.elevation == 0
    &&& hs.pi.elevation == 0
    &&& hs.pt.elevation == 0
}

/// Tangent of a parsed configuration, through the named trig results.
pub open spec fn tangent_of(rv: int, deg: int) -> int {
    tangent_val(rv, sin_fix(rad_signed(deg) / 2), cos_fix(rad_signed(deg) / 2))
}

/// Curve length of a parsed configuration.
pub open spec fn curve_len_of(rv: int, deg: int) -> int {
    curve_length_val(rv, rad_signed(deg))
}

/// The error `to_horizontal_curve` answers, or `None` when it succeeds.
pub open spec fn curve_err_spec(d: &HorizontalData) -> Option<CurveError> {
    if d.input_build_method is RadiusTangent {
        Some(CurveError::UnsupportedMethodError)
    } else {
        match (radius_spec(d), angle_spec(d)) {
            (Some(rv), Some(deg)) => if !geom_ok(rv, deg, m_val_spec(d)) {
                Some(CurveError::GeometryError)
            } else {
                match station_val_spec(d) {
                    Some(st) => if !stations_fit(
                        d.input_station_method,
                        st,
                        tangent_of(rv, deg),
                        curve_len_of(rv, deg),
                    ) {
                        Some(CurveError::GeometryError)
                    } else {
                        None
                    },
                    None => Some(CurveError::ParseError),
                }
            },
            _ => Some(CurveError::ParseError),
        }
    }
}

impl HorizontalData {
    /// Solve every standard dimension of the circular curve from the raw
    /// inputs: an `UnsupportedMethodError` for the radius-plus-tangent
    /// method, a `ParseError` exactly when radius or curve angle fails its
    /// grammar, a `GeometryError` exactly when the parsed configuration is
    /// geometrically inadmissible (in particular when the obstruction offset
    /// `m` exceeds the radius, where the arc-cosine would leave its domain),
    /// and otherwise exactly the fixed-point dimension formulas.
    pub fn to_dimensions(&self) -> (r: Result<HorizontalDimensions, CurveError>)
        ensures
            self.input_build_method is RadiusTangent ==> r == Err::<
                HorizontalDimensions,
                CurveError,
            >(CurveError::UnsupportedMethodError),
            self.input_build_method is RadiusCurveAngle ==> ((radius_spec(self) is None
                || angle_spec(self) is None) <==> r == Err::<HorizontalDimensions, CurveError>(
                CurveError::ParseError,
            )),
            self.input_build_method is RadiusCurveAngle ==> (radius_spec(self) matches Some(rv)
                ==> angle_spec(self) matches Some(deg) ==> {
                &&& (!geom_ok(rv, deg, m_val_spec(self)) <==> r == Err::<
                    HorizontalDimensions,
                    CurveError,
                >(CurveError::GeometryError))
                &&& (geom_ok(rv, deg, m_val_spec(self)) ==> (r matches Ok(dims) && dims_match(
                    dims,
                    rv,
                    deg,
                    m_val_spec(self),
                    speed_val_spec(self),
                )))
            }),
    {
        match self.input_build_method {
            HorizontalBuildDefinition::RadiusTangent => Err(CurveError::UnsupportedMethodError),
            HorizontalBuildDefinition::RadiusCurveAngle => {
                let rv = match parse_scaled(str_bytes(self.input_radius.as_str())) {
                    Some(v) => v,
                    None => {
                        return Err(CurveError::ParseError);
                    },
                };
                let curve_angle = match Angle::from(self.input_curve_angle.as_str()) {
                    Ok(a) => a,
                    Err(_) => {
                        return Err(CurveError::ParseError);
                    },
                };
                let m = match parse_scaled(str_bytes(self.input_m.as_str())) {
                    Some(v) => v,
                    None => 0,
                };
                let design_speed = match parse_scaled(str_bytes(self.input_design_speed.as_str())) {
                    Some(v) => v,
                    None => 0,
                };
                if rv < 1 {
                    return Err(CurveError::GeometryError);
                }
                let rad = curve_angle.radians;
                if rad < 0 || rad > 2 * PI_Q {
                    return Err(CurveError::GeometryError);
                }
                let half = ((rad as u64) / 2) as i64;
                proof {
                    vstd::arithmetic::div_mod::lemma_div_is_ordered(
                        rad as int,
                        2 * PI_Q,
                        2,
                    );
                    vstd::arithmetic::div_mod::lemma_div_multiples_vanish(PI_Q as int, 2);
                    vstd::arithmetic::div_mod::lemma_div_pos_is_pos(rad as int, 2);
                }
                let s = sin_w(half);
                let c = cos_w(half);
                if s < 1 || s > Q_ONE || c < 1 || c > Q_ONE {
                    return Err(CurveError::GeometryError);
                }
                if m < 0 || m > rv {
                    return Err(CurveError::GeometryError);
                }
                proof {
                    vstd::arithmetic::mul::lemma_mul_inequality(
                        rv as int - m as int,
                        rv as int,
                        Q_ONE as int,
                    );
                    vstd::arithmetic::div_mod::lemma_multiply_divide_le(
                        (rv - m) as int * (Q_ONE as int),
                        rv as int,
                        Q_ONE as int,
                    );
                    vstd::arithmetic::div_mod::lemma_div_pos_is_pos(
                        (rv - m) as int * (Q_ONE as int),
                        rv as int,
                    );
                    assert(0 <= (rv - m) as int * (Q_ONE as int)) by (nonlinear_arith)
                        requires
                            0 <= m <= rv,
                    ;
                }
                let arg = match mul_div(rv - m, Q_ONE, rv, 1) {
                    Some(v) => v,
                    None => {
                        proof {
                            assert(false);
                        }
                        0
                    },
                };
                let a_raw = acos_w(arg);
                let a: i64 = if a_raw < 0 {
                    0
                } else {
                    a_raw
                };
                let curve_length = match mul_div(rv, rad, Q_ONE, 1) {
                    Some(v) => v,
                    None => {
                        return Err(CurveError::GeometryError);
                    },
                };
                let tangent = match mul_div(rv, s, c, 1) {
                    Some(v) => v,
                    None => {
                        return Err(CurveError::GeometryError);
                    },
                };
                let external = match mul_div(rv, Q_ONE - c, c, 1) {
                    Some(v) => v,
                    None => {
                        return Err(CurveError::GeometryError);
                    },
                };
                let middle_ordinate = match mul_div(rv, Q_ONE - c, Q_ONE, 1) {
                    Some(v) => v,
                    None => {
                        return Err(CurveError::GeometryError);
                    },
                };
                let long_chord = match mul_div(rv, 2 * s, Q_ONE, 1) {
                    Some(v) => v,
                    None => {
                        return Err(CurveError::GeometryError);
                    },
                };
                let deg100 = match mul_div(57296 * Q_ONE, Q_ONE, 10, rv) {
                    Some(v) => v,
                    None => {
                        return Err(CurveError::GeometryError);
                    },
                };
                let adeg = match mul_div(a, 180 * Q_ONE, PI_Q, 1) {
                    Some(v) => v,
                    None => {
                        return Err(CurveError::GeometryError);
                    },
                };
                let s1 = match mul_div(rv, adeg, Q_ONE, 1) {
                    Some(v) => v,
                    None => {
                        return Err(CurveError::GeometryError);
                    },
                };
                let sight_distance = match mul_div(s1, 20, 573, 1) {
                    Some(v) => v,
                    None => {
                        return Err(CurveError::GeometryError);
                    },
                };
                Ok(
                    HorizontalDimensions {
                        radius: rv,
                        curve_length,
                        tangent,
                        long_chord,
                        middle_ordinate,
                        external,
                        curve_length_100: Angle::of_degrees(deg100),
                        curve_angle,
                        design_speed,
                        sight_distance,
                    },
                )
            },
        }
    }

    /// Propagate the two unknown reference stations from the known one by
    /// the directional table: a `ParseError` exactly when the station text
    /// fails its grammar, a `GeometryError` exactly when a propagated value
    /// leaves the representable range, the exact directional arithmetic
    /// otherwise.  Elevations stay zero: the vertical dimension is an
    /// explicit gap.
    pub fn to_stations(&self, dimensions: &HorizontalDimensions) -> (r: Result<
        HorizontalStations,
        CurveError,
    >)
        ensures
            station_val_spec(self) is None <==> r == Err::<HorizontalStations, CurveError>(
                CurveError::ParseError,
            ),
            station_val_spec(self) matches Some(st) ==> {
                &&& (!stations_fit(
                    self.input_station_method,
                    st,
                    dimensions.tangent as int,
                    dimensions.curve_length as int,
                ) <==> r == Err::<HorizontalStations, CurveError>(CurveError::GeometryError))
                &&& (stations_fit(
                    self.input_station_method,
                    st,
                    dimensions.tangent as int,
                    dimensions.curve_length as int,
                ) ==> (r matches Ok(hs) && stations_match(
                    hs,
                    stations_vals(
                        self.input_station_method,
                        st,
                        dimensions.tangent as int,
                        dimensions.curve_length as int,
                    ),
                )))
            },
    {
        let sv = match parse_station(str_bytes(self.input_station.as_str())) {
            Some(v) => v,
            None => {
                return Err(CurveError::ParseError);
            },
        };
        let starting_station = Station { value: sv, elevation: 0 };
        match self.input_station_method {
            HorizontalStationDefinition::PC => {
                if add_i64(sv, dimensions.tangent).is_none() || add_i64(
                    sv,
                    dimensions.curve_length,
                ).is_none() {
                    return Err(CurveError::GeometryError);
                }
                Ok(
                    HorizontalStations {
                        pc: starting_station,
                        pi: self.pc_to_pi(starting_station, dimensions),
                        pt: self.pc_to_pt(starting_station, dimensions),
                    },
                )
            },
            HorizontalStationDefinition::PI => {
                if sub_i64(sv, dimensions.tangent).is_none() || add_i64(
                    sv,
                    dimensions.tangent,
                ).is_none() {
                    return Err(CurveError::GeometryError);
                }
                Ok(
                    HorizontalStations {
                        pc: self.pi_to_pc(starting_station, dimensions),
                        pi: starting_station,
                        pt: self.pi_to_pt(starting_station, dimensions),
                    },
                )
            },
            HorizontalStationDefinition::PT => {
                if sub_i64(sv, dimensions.curve_length).is_none() || sub_i64(
                    sv,
                    dimensions.tangent,
                ).is_none() {
                    return Err(CurveError::GeometryError);
                }
                Ok(
                    HorizontalStations {
                        pc: self.pt_to_pc(starting_station, dimensions),
                        pi: self.pt_to_pi(starting_station, dimensions),
                        pt: starting_station,
                    },
                )
            },
        }
    }

    /// Station of the intersection point from the curvature point.
    pub fn pc_to_pi(&self, sts: Station, dim: &HorizontalDimensions) -> (r: Station)
        requires
            i64::MIN <= sts.value as int + dim.tangent as int <= i64::MAX,
        ensures
            r.value as int == sts.value as int + dim.tangent as int,
            r.elevation == 0,
    {
        Station { value: sts.value + dim.tangent, elevation: 0 }
    }

    /// Station of the tangency point from the curvature point.
    pub fn pc_to_pt(&self, sts: Station, dim: &HorizontalDimensions) -> (r: Station)
        requires
            i64::MIN <= sts.value as int + dim.curve_length as int <= i64::MAX,
        ensures
            r.value as int == sts.value as int + dim.curve_length as int,
            r.elevation == 0,
    {
        Station { value: sts.value + dim.curve_length, elevation: 0 }
    }

    /// Station of the curvature point from the intersection point.
    pub fn pi_to_pc(&self, sts: Station, dim: &HorizontalDimensions) -> (r: Station)
        requires
            i64::MIN <= sts.value as int - dim.tangent as int <= i64::MAX,
        ensures
            r.value as int == sts.value as int - dim.tangent as int,
            r.elevation == 0,
    {
        Station { value: sts.value - dim.tangent, elevation: 0 }
    }

    /// Station of the tangency point from the intersection point.
    pub fn pi_to_pt(&self, sts: Station, dim: &HorizontalDimensions) -> (r: Station)
        requires
            i64::MIN <= sts.value as int + dim.tangent as int <= i64::MAX,
        ensures
            r.value as int == sts.value as int + dim.tangent as int,
            r.elevation == 0,
    {
        Station { value: sts.value + dim.tangent, elevation: 0 }
    }

    /// Station of the curvature point from the tangency point.
    pub fn pt_to_pc(&self, sts: Station, dim: &HorizontalDimensions) -> (r: Station)
        requires
            i64::MIN <= sts.value as int - dim.curve_length as int <= i64::MAX,
        ensures
            r.value as int == sts.value as int - dim.curve_length as int,
            r.elevation == 0,
    {
        Station { value: sts.value - dim.curve_length, elevation: 0 }
    }

    /// Station of the intersection point from the tangency point.
    pub fn pt_to_pi(&self, sts: Station, dim: &HorizontalDimensions) -> (r: Station)
        requires
            i64::MIN <= sts.value as int - dim.tangent as int <= i64::MAX,
        ensures
            r.value as int == sts.value as int - dim.tangent as int,
            r.elevation == 0,
    {
        Station { value: sts.value - dim.tangent, elevation: 0 }
    }

    /// The full evaluation: dimensions first, stations second, failing with
    /// the first error of that order as `curve_err_spec` classifies it.
    pub fn to_horizontal_curve(&self) -> (r: Result<HorizontalCurve, CurveError>)
        ensures
            (r matches Err(e) ==> curve_err_spec(self) == Some(e)),
            (r is Ok <==> curve_err_spec(self) is None),
            r matches Ok(hc) ==> {
                &&& radius_spec(self) matches Some(rv)
                &&& angle_spec(self) matches Some(deg)
                &&& station_val_spec(self) matches Some(st)
                &&& dims_match(hc.dimensions, rv, deg, m_val_spec(self), speed_val_spec(self))
                &&& stations_match(
                    hc.stations,
                    stations_vals(
                        self.input_station_method,
                        st,
                        tangent_of(rv, deg),
                        curve_len_of(rv, deg),
                    ),
                )
            },
    {
        let dimensions = match self.to_dimensions() {
            Ok(d) => d,
            Err(e) => {
                return Err(e);
            },
        };
        let stations = match self.to_stations(&dimensions) {
            Ok(s) => s,
            Err(e) => {
                return Err(e);
            },
        };
        Ok(HorizontalCurve { dimensions, stations })
    }
}

/// Positivity law: for a solved configuration whose radius is at least one
/// station unit, whose deflection is positive, and whose half-angle sine and
/// cosine are strictly between zero and one, every derived dimension is
/// strictly positive.  (At radii below one unit the fixed-point floor can
/// legitimately reach zero.)
pub proof fn lemma_dimension_positivity(rv: int, rad: int, s: int, c: int)
    requires
        Q_ONE <= rv,
        1 <= rad,
        1 <= s <= Q_ONE,
        1 <= c < Q_ONE,
    ensures
        0 < curve_length_val(rv, rad),
        0 < tangent_val(rv, s, c),
        0 < external_val(rv, c),
        0 < middle_ord_val(rv, c),
        0 < long_chord_val(rv, s),
{
    lemma_frac_ge_one(rv, rad, Q_ONE as int);
    lemma_frac_ge_one(rv, s, c);
    lemma_frac_ge_one(rv, Q_ONE - c, c);
    lemma_frac_ge_one(rv, Q_ONE - c, Q_ONE as int);
    lemma_frac_ge_one(rv, 2 * s, Q_ONE as int);
}

/// `(a * b) / c >= 1` whenever `a` is at least one whole unit, `b` is
/// positive and `c` is at most one whole unit.
proof fn lemma_frac_ge_one(a: int, b: int, c: int)
    requires
        Q_ONE <= a,
        1 <= b,
        1 <= c <= Q_ONE,
    ensures
        1 <= frac_val(a, b, c, 1),
{
    assert(c <= a * b) by (nonlinear_arith)
        requires
            Q_ONE <= a,
            1 <= b,
            1 <= c <= Q_ONE,
    ;
    vstd::arithmetic::div_mod::lemma_div_is_ordered(c, a * b, c);
    vstd::arithmetic::div_mod::lemma_div_by_multiple(1, c);
}

/// Round-trip law of the station table: whenever the curve length equals
/// twice the tangent, re-deriving the station triple from any of its three
/// members (under that member's tag) reproduces the triple exactly.  On
/// other configurations the three tags genuinely disagree about the third
/// station, so the law is stated only there.
pub proof fn lemma_station_round_trip(
    first: HorizontalStationDefinition,
    second: HorizontalStationDefinition,
    known: int,
    t: int,
    l: int,
)
    requires
        l == 2 * t,
    ensures
        ({
            let v = stations_vals(first, known, t, l);
            let k2 = match second {
                HorizontalStationDefinition::PC => v.0,
                HorizontalStationDefinition::PI => v.1,
                HorizontalStationDefinition::PT => v.2,
            };
            stations_vals(second, k2, t, l) == v
        }),
{
}

} // verus!

