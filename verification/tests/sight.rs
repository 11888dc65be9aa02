use roadway_curve::errors::CurveError;
use roadway_curve::sight_distance::SightType;
use roadway_curve::sight_distance::calc_min_sight_distance;
use roadway_curve::sight_distance::parse_table;

const QI: i64 = 4294967296;

fn lines(ls: &[&str]) -> Vec<String> {
    ls.iter().map(|s| s.to_string()).collect()
}

fn sample_table() -> Vec<String> {
    lines(&[
        "Design Speed   Stopping   Passing",
        "",
        "20 125 800",
        "25 155 950",
        "30 200 1100",
    ])
}

#[test]
fn lookup_exact_value() {
    let table = parse_table(&sample_table()).unwrap();
    let d = calc_min_sight_distance(&table, 25, SightType::Stopping, false).unwrap();
    assert_eq!(d, 155 * QI);
}

#[test]
fn lookup_missing_speed() {
    let table = parse_table(&sample_table()).unwrap();
    assert!(matches!(
        calc_min_sight_distance(&table, 999, SightType::Stopping, false),
        Err(CurveError::LookupError)
    ));
}

#[test]
fn passing_reads_second_column() {
    let table = parse_table(&sample_table()).unwrap();
    let d = calc_min_sight_distance(&table, 20, SightType::Passing, false).unwrap();
    assert_eq!(d, 800 * QI);
}

#[test]
fn decision_reads_first_column() {
    let table = parse_table(&sample_table()).unwrap();
    let d = calc_min_sight_distance(&table, 30, SightType::Decision, false).unwrap();
    assert_eq!(d, 200 * QI);
}

#[test]
fn downgrade_multiplies_by_six_fifths() {
    let table = parse_table(&sample_table()).unwrap();
    let plain = calc_min_sight_distance(&table, 25, SightType::Stopping, false).unwrap();
    let adjusted = calc_min_sight_distance(&table, 25, SightType::Stopping, true).unwrap();
    assert_eq!(plain, 155 * QI);
    assert_eq!(adjusted, 186 * QI);
    assert_eq!(adjusted, plain * 6 / 5);
}

#[test]
fn downgrade_applies_to_every_sight_type() {
    let table = parse_table(&sample_table()).unwrap();
    let adjusted = calc_min_sight_distance(&table, 20, SightType::Passing, true).unwrap();
    assert_eq!(adjusted, 960 * QI);
}

#[test]
fn comma_in_number_is_config_error() {
    let bad = lines(&["20 125 800", "30 1,100 900"]);
    assert!(matches!(parse_table(&bad), Err(CurveError::ConfigError)));
}

#[test]
fn header_and_blank_lines_are_skipped() {
    let table = parse_table(&sample_table()).unwrap();
    assert_eq!(table.rows.len(), 3);
}

#[test]
fn later_duplicate_speed_wins() {
    let dup = lines(&["20 100 700", "20 120 720"]);
    let table = parse_table(&dup).unwrap();
    let d = calc_min_sight_distance(&table, 20, SightType::Stopping, false).unwrap();
    assert_eq!(d, 120 * QI);
}

#[test]
fn missing_column_is_config_error() {
    let short = lines(&["20 100"]);
    let table = parse_table(&short).unwrap();
    assert!(matches!(
        calc_min_sight_distance(&table, 20, SightType::Passing, false),
        Err(CurveError::ConfigError)
    ));
    assert!(calc_min_sight_distance(&table, 20, SightType::Stopping, false).is_ok());
}

#[test]
fn fractional_distances_are_kept_exactly() {
    let table = parse_table(&lines(&["40 301.5 1200.25"])).unwrap();
    let d = calc_min_sight_distance(&table, 40, SightType::Stopping, false).unwrap();
    assert_eq!(d, 301 * QI + QI / 2);
    let p = calc_min_sight_distance(&table, 40, SightType::Passing, false).unwrap();
    assert_eq!(p, 1200 * QI + QI / 4);
}
