use fancurve::curve::{CurvePoint, CurveTable};
use fancurve::errors::ControlError;

/// One degree or one duty point, in micro-units.
const M: i64 = 1_000_000;

fn test_curve() -> CurveTable {
    let points = vec![
        CurvePoint { x: 40 * M, y: 43 * M },
        CurvePoint { x: 65 * M, y: 60 * M },
        CurvePoint { x: 78 * M, y: 80 * M },
        CurvePoint { x: 84 * M, y: 100 * M },
    ];
    CurveTable::new(points).unwrap()
}

fn test_with(input_temp: i64, expected_fan: i64, curve: &CurveTable) {
    let actual_fan = curve.lookup(input_temp);
    assert_eq!(
        expected_fan, actual_fan,
        "got {} for input temp {}, expected {}",
        actual_fan, input_temp, expected_fan
    );
}

#[test]
fn test() {
    let curve = test_curve();

    test_with(i64::MIN, 43 * M, &curve);
    test_with(20 * M, 43 * M, &curve);

    test_with(40 * M, 43 * M, &curve);
    test_with(41 * M, 43_680_000, &curve);

    test_with(52_500_000, 51_500_000, &curve);

    test_with(64_999_900, 59_999_932, &curve);
    test_with(65 * M, 60 * M, &curve);
    test_with(65_000_100, 60_000_153, &curve);

    test_with(71_500_000, 70 * M, &curve);

    test_with(77_999_900, 79_999_846, &curve);
    test_with(78 * M, 80 * M, &curve);
    test_with(78_000_100, 80_000_333, &curve);

    test_with(81 * M, 90 * M, &curve);

    test_with(83_999_900, 99_999_666, &curve);
    test_with(84 * M, 100 * M, &curve);

    test_with(85 * M, 100 * M, &curve);
    test_with(1000 * M, 100 * M, &curve);
    test_with(i64::MAX, 100 * M, &curve);
}

#[test]
fn lookup_is_monotone_on_samples() {
    let curve = test_curve();
    let mut previous = curve.lookup(i64::MIN);
    let mut x = 10 * M;
    while x <= 100 * M {
        let y = curve.lookup(x);
        assert!(y >= previous, "lookup decreased at {}: {} < {}", x, y, previous);
        previous = y;
        x += 100_000;
    }
}

#[test]
fn curve_rejects_single_point() {
    let points = vec![CurvePoint { x: 40 * M, y: 43 * M }];
    assert_eq!(CurveTable::new(points).unwrap_err(), ControlError::ConfigInvalid);
}

#[test]
fn curve_rejects_empty() {
    assert_eq!(CurveTable::new(Vec::new()).unwrap_err(), ControlError::ConfigInvalid);
}

#[test]
fn curve_rejects_unordered_points() {
    let points = vec![
        CurvePoint { x: 40 * M, y: 43 * M },
        CurvePoint { x: 40 * M, y: 60 * M },
    ];
    assert_eq!(CurveTable::new(points).unwrap_err(), ControlError::ConfigInvalid);

    let points = vec![
        CurvePoint { x: 65 * M, y: 43 * M },
        CurvePoint { x: 40 * M, y: 60 * M },
    ];
    assert_eq!(CurveTable::new(points).unwrap_err(), ControlError::ConfigInvalid);
}

#[test]
fn curve_rejects_out_of_range_coordinates() {
    let points = vec![
        CurvePoint { x: 40 * M, y: 43 * M },
        CurvePoint { x: 2_000_000_000_000, y: 60 * M },
    ];
    assert_eq!(CurveTable::new(points).unwrap_err(), ControlError::ConfigInvalid);
}
