use fancurve::quantize::quantize;

/// One duty point, in micro-units.
const M: i64 = 1_000_000;

#[test]
fn quantize_mid_remainder_splits_channels() {
    // Remainder 0.5: above the low threshold (0.2) but not the high (0.7),
    // so channel A floors at 43 and channel B ceils to 44.
    assert_eq!(quantize(43_500_000, 43 * M), (43, 44));
}

#[test]
fn quantize_high_remainder_ceils_both() {
    assert_eq!(quantize(43_800_000, 43 * M), (44, 44));
}

#[test]
fn quantize_low_remainder_floors_both() {
    assert_eq!(quantize(43_100_000, 43 * M), (43, 43));
}

#[test]
fn quantize_thresholds_are_exclusive() {
    // Exactly at a threshold the channel still floors.
    assert_eq!(quantize(43_200_000, 43 * M), (43, 43));
    assert_eq!(quantize(43_700_000, 43 * M), (43, 44));
}

#[test]
fn quantize_whole_duty_uses_it_for_both() {
    assert_eq!(quantize(60 * M, 43 * M), (60, 60));
}

#[test]
fn quantize_caps_ceiling_at_hundred() {
    assert_eq!(quantize(99_900_000, 43 * M), (100, 100));
    assert_eq!(quantize(100 * M, 43 * M), (100, 100));
}

#[test]
fn quantize_floor_respects_minimum_duty() {
    // The floor never goes below the configured minimum duty.
    assert_eq!(quantize(44_100_000, 46 * M), (46, 46));
}

#[test]
fn quantize_zero_duty() {
    assert_eq!(quantize(0, 0), (0, 0));
}
