use roadway_curve::errors::CurveError;
use roadway_curve::horizontal::HorizontalBuildDefinition;
use roadway_curve::horizontal::HorizontalData;
use roadway_curve::horizontal::HorizontalDimensions;
use roadway_curve::horizontal::HorizontalStationDefinition;

const Q: f64 = 4294967296.0;
const QI: i64 = 4294967296;

fn to_f(v: i64) -> f64 {
    (v as f64) / Q
}

#[test]
fn h1() {
    let horizontal_data = HorizontalData {
        input_station_method: HorizontalStationDefinition::PI,
        input_build_method: HorizontalBuildDefinition::RadiusCurveAngle,
        input_station: "10284+50".to_string(),
        input_length: "600".to_string(),
        input_radius: "818.5".to_string(),
        input_curve_angle: "63d15'34\"".to_string(),
        input_design_speed: "65".to_string(),
        input_m: "1000".to_string(),
        ..Default::default()
    };
    let hori_angle = horizontal_data.to_horizontal_curve();
    match hori_angle {
        Ok(w) => println!("O: {:#?}", w),
        Err(e) => println!("{}", e.message()),
    }
}

#[test]
fn h2() {
    let horizontal_data = HorizontalData {
        input_station_method: HorizontalStationDefinition::PC,
        input_build_method: HorizontalBuildDefinition::RadiusCurveAngle,
        input_station: "100+00".to_string(),
        input_length: "600".to_string(),
        input_radius: "818.5".to_string(),
        input_curve_angle: "63d15'34\"".to_string(),
        input_design_speed: "65".to_string(),
        input_m: "1000".to_string(),
        ..Default::default()
    };
    let hori_angle = horizontal_data.to_horizontal_curve();
    match hori_angle {
        Ok(w) => println!("O: {:#?}", w),
        Err(e) => println!("{}", e.message()),
    }
}

fn base_data() -> HorizontalData {
    HorizontalData {
        input_station_method: HorizontalStationDefinition::PI,
        input_build_method: HorizontalBuildDefinition::RadiusCurveAngle,
        input_station: "10284+50".to_string(),
        input_radius: "818.5".to_string(),
        input_curve_angle: "63d15'34\"".to_string(),
        ..Default::default()
    }
}

#[test]
fn known_pi_scenario() {
    let curve = base_data().to_horizontal_curve().unwrap();
    let dims = &curve.dimensions;
    let sts = &curve.stations;
    assert_eq!(sts.pi.value, 1028450 * QI);
    assert_eq!(sts.pc.value, sts.pi.value - dims.tangent);
    assert_eq!(sts.pt.value, sts.pi.value + dims.tangent);
    let t = to_f(dims.tangent);
    assert!(t > 500.0 && t < 510.0, "tangent {}", t);
}

#[test]
fn known_pc_scenario() {
    let mut data = base_data();
    data.input_station_method = HorizontalStationDefinition::PC;
    data.input_station = "100+00".to_string();
    let curve = data.to_horizontal_curve().unwrap();
    let dims = &curve.dimensions;
    let sts = &curve.stations;
    assert_eq!(sts.pc.value, 10000 * QI);
    assert_eq!(sts.pi.value, sts.pc.value + dims.tangent);
    assert_eq!(sts.pt.value, sts.pc.value + dims.curve_length);
}

#[test]
fn known_pt_scenario() {
    let mut data = base_data();
    data.input_station_method = HorizontalStationDefinition::PT;
    data.input_station = "200+00".to_string();
    let curve = data.to_horizontal_curve().unwrap();
    let dims = &curve.dimensions;
    let sts = &curve.stations;
    assert_eq!(sts.pt.value, 20000 * QI);
    assert_eq!(sts.pc.value, sts.pt.value - dims.curve_length);
    assert_eq!(sts.pi.value, sts.pt.value - dims.tangent);
}

#[test]
fn dimension_values() {
    let curve = base_data().to_horizontal_curve().unwrap();
    let dims = &curve.dimensions;
    let deg = to_f(dims.curve_angle.decimal_degrees);
    assert!((deg - 63.2594444).abs() < 1e-6, "degrees {}", deg);
    let rad = to_f(dims.curve_angle.radians);
    assert!((rad - 1.1040820).abs() < 1e-5, "radians {}", rad);
    let l = to_f(dims.curve_length);
    assert!((l - 818.5 * rad).abs() < 1e-4, "curve length {}", l);
    let half = rad / 2.0;
    let expect_tangent = 818.5 * half.tan();
    assert!((to_f(dims.tangent) - expect_tangent).abs() < 0.001);
    let expect_chord = 2.0 * 818.5 * half.sin();
    assert!((to_f(dims.long_chord) - expect_chord).abs() < 0.001);
    let expect_mo = 818.5 * (1.0 - half.cos());
    assert!((to_f(dims.middle_ordinate) - expect_mo).abs() < 0.001);
    let expect_ext = 818.5 * (1.0 / half.cos() - 1.0);
    assert!((to_f(dims.external) - expect_ext).abs() < 0.001);
    let dc = to_f(dims.curve_length_100.decimal_degrees);
    assert!((dc - 5729.6 / 818.5).abs() < 1e-6, "degree of curve {}", dc);
}

#[test]
fn dimension_positivity_and_order() {
    let curve = base_data().to_horizontal_curve().unwrap();
    let dims = &curve.dimensions;
    assert!(dims.tangent > 0);
    assert!(dims.curve_length > 0);
    assert!(dims.long_chord > 0);
    assert!(dims.middle_ordinate > 0);
    assert!(dims.external > 0);
    assert!(dims.long_chord < dims.curve_length);
}

#[test]
fn sight_distance_with_offset() {
    let mut data = base_data();
    data.input_m = "10".to_string();
    let curve = data.to_horizontal_curve().unwrap();
    let r: f64 = 818.5;
    let m: f64 = 10.0;
    let expect = r / 28.65 * ((r - m) / r).acos() * 180.0 / std::f64::consts::PI;
    let got = to_f(curve.dimensions.sight_distance);
    assert!((got - expect).abs() < 0.01, "sight {} vs {}", got, expect);
}

#[test]
fn obstruction_at_radius_is_boundary() {
    let mut data = base_data();
    data.input_radius = "100".to_string();
    data.input_m = "100".to_string();
    assert!(data.to_horizontal_curve().is_ok());
    data.input_m = "100.5".to_string();
    assert!(matches!(data.to_horizontal_curve(), Err(CurveError::GeometryError)));
}

#[test]
fn malformed_radius_is_parse_error() {
    let mut data = base_data();
    data.input_radius = "abc".to_string();
    assert!(matches!(data.to_horizontal_curve(), Err(CurveError::ParseError)));
}

#[test]
fn malformed_station_is_parse_error() {
    let mut data = base_data();
    data.input_station = "10+ab".to_string();
    assert!(matches!(data.to_horizontal_curve(), Err(CurveError::ParseError)));
}

#[test]
fn radius_tangent_method_unsupported() {
    let mut data = base_data();
    data.input_build_method = HorizontalBuildDefinition::RadiusTangent;
    assert!(matches!(
        data.to_horizontal_curve(),
        Err(CurveError::UnsupportedMethodError)
    ));
    let empty = HorizontalData {
        input_build_method: HorizontalBuildDefinition::RadiusTangent,
        ..Default::default()
    };
    assert!(matches!(
        empty.to_horizontal_curve(),
        Err(CurveError::UnsupportedMethodError)
    ));
}

#[test]
fn station_round_trip_when_length_is_twice_tangent() {
    let base = base_data().to_horizontal_curve().unwrap();
    let mut dims: HorizontalDimensions = base.dimensions;
    dims.tangent = 500 * QI;
    dims.curve_length = 2 * dims.tangent;
    let mut data = base_data();
    data.input_station = "500+00".to_string();
    let from_pi = data.to_stations(&dims).unwrap();

    let mut again = base_data();
    again.input_station_method = HorizontalStationDefinition::PC;
    again.input_station = format!("{}", from_pi.pc.value / QI);
    let from_pc = again.to_stations(&dims).unwrap();
    assert_eq!(from_pc.pc.value, from_pi.pc.value);
    assert_eq!(from_pc.pi.value, from_pi.pi.value);
    assert_eq!(from_pc.pt.value, from_pi.pt.value);

    let mut third = base_data();
    third.input_station_method = HorizontalStationDefinition::PT;
    third.input_station = format!("{}", from_pi.pt.value / QI);
    let from_pt = third.to_stations(&dims).unwrap();
    assert_eq!(from_pt.pc.value, from_pi.pc.value);
    assert_eq!(from_pt.pi.value, from_pi.pi.value);
    assert_eq!(from_pt.pt.value, from_pi.pt.value);
}

#[test]
fn elevation_stays_zero() {
    let curve = base_data().to_horizontal_curve().unwrap();
    assert_eq!(curve.stations.pc.elevation, 0);
    assert_eq!(curve.stations.pi.elevation, 0);
    assert_eq!(curve.stations.pt.elevation, 0);
}

#[test]
fn station_definition_cycles() {
    assert!(matches!(
        HorizontalStationDefinition::PC.next(),
        HorizontalStationDefinition::PI
    ));
    assert!(matches!(
        HorizontalStationDefinition::PI.next(),
        HorizontalStationDefinition::PT
    ));
    assert!(matches!(
        HorizontalStationDefinition::PT.next(),
        HorizontalStationDefinition::PC
    ));
}

#[test]
fn build_definition_cycles() {
    assert!(matches!(
        HorizontalBuildDefinition::RadiusCurveAngle.next(),
        HorizontalBuildDefinition::RadiusTangent
    ));
    assert!(matches!(
        HorizontalBuildDefinition::RadiusTangent.next(),
        HorizontalBuildDefinition::RadiusCurveAngle
    ));
}

#[test]
fn angle_forms() {
    let mut data = base_data();
    data.input_curve_angle = "45.5".to_string();
    let curve = data.to_horizontal_curve().unwrap();
    assert_eq!(curve.dimensions.curve_angle.decimal_degrees as f64 / Q, 45.5);

    data.input_curve_angle = "63d".to_string();
    let curve = data.to_horizontal_curve().unwrap();
    assert_eq!(curve.dimensions.curve_angle.decimal_degrees, 63 * QI);

    data.input_curve_angle = "63d30'".to_string();
    let curve = data.to_horizontal_curve().unwrap();
    assert_eq!(curve.dimensions.curve_angle.decimal_degrees, 63 * QI + QI / 2);

    data.input_curve_angle = "63d45\"".to_string();
    let curve = data.to_horizontal_curve().unwrap();
    let deg = to_f(curve.dimensions.curve_angle.decimal_degrees);
    assert!((deg - (63.0 + 45.0 / 3600.0)).abs() < 1e-8);

    data.input_curve_angle = "63x".to_string();
    assert!(matches!(data.to_horizontal_curve(), Err(CurveError::ParseError)));
}

#[test]
fn plain_station_without_plus() {
    let mut data = base_data();
    data.input_station = "600".to_string();
    let curve = data.to_horizontal_curve().unwrap();
    assert_eq!(curve.stations.pi.value, 600 * QI);
}

#[test]
fn zero_radius_is_geometry_error() {
    let mut data = base_data();
    data.input_radius = "0".to_string();
    assert!(matches!(data.to_horizontal_curve(), Err(CurveError::GeometryError)));
}

#[test]
fn reflex_deflection_is_geometry_error() {
    let mut data = base_data();
    data.input_curve_angle = "181".to_string();
    assert!(matches!(data.to_horizontal_curve(), Err(CurveError::GeometryError)));
    data.input_curve_angle = "-10".to_string();
    assert!(matches!(data.to_horizontal_curve(), Err(CurveError::GeometryError)));
}
