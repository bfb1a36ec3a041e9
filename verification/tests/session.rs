use fancurve::session::{get_sudo_timeout_s, parse_u64_decimal, SUDO_TIMESTAMP_TIMEOUT_DEFAULT_S};

#[test]
fn parse_plain_numbers() {
    assert_eq!(parse_u64_decimal("0"), Some(0));
    assert_eq!(parse_u64_decimal("7"), Some(7));
    assert_eq!(parse_u64_decimal("007"), Some(7));
    assert_eq!(parse_u64_decimal("12345678901234567890"), Some(12345678901234567890));
    assert_eq!(parse_u64_decimal("98765432109876543210"), None);
    assert_eq!(parse_u64_decimal("18446744073709551615"), Some(u64::MAX));
    assert_eq!(parse_u64_decimal("18446744073709551616"), None);
}

#[test]
fn parse_rejects_non_digits() {
    assert_eq!(parse_u64_decimal(""), None);
    assert_eq!(parse_u64_decimal("12a"), None);
    assert_eq!(parse_u64_decimal("a12"), None);
    assert_eq!(parse_u64_decimal("+5"), None);
    assert_eq!(parse_u64_decimal("-5"), None);
    assert_eq!(parse_u64_decimal(" 5"), None);
}

#[test]
fn timeout_from_matching_output() {
    // 10 minutes, five seconds shy: 595 seconds.
    let out = "Matching Defaults entries:\n    env_reset, timestamp_timeout=10, secure_path\n";
    assert_eq!(get_sudo_timeout_s(out), 595);
}

#[test]
fn timeout_last_match_wins() {
    let out = "timestamp_timeout=5 and later timestamp_timeout=7";
    assert_eq!(get_sudo_timeout_s(out), 7 * 60 - 5);
}

#[test]
fn timeout_default_when_no_match() {
    // The default stands in for the minutes value, exactly as configured.
    let expected = SUDO_TIMESTAMP_TIMEOUT_DEFAULT_S * 60 - 5;
    assert_eq!(get_sudo_timeout_s("no entries at all"), expected);
    assert_eq!(get_sudo_timeout_s(""), expected);
}

#[test]
fn timeout_default_when_unparsable() {
    let expected = SUDO_TIMESTAMP_TIMEOUT_DEFAULT_S * 60 - 5;
    assert_eq!(
        get_sudo_timeout_s("timestamp_timeout=99999999999999999999999"),
        expected
    );
}

#[test]
fn timeout_zero_minutes_falls_back() {
    assert_eq!(
        get_sudo_timeout_s("timestamp_timeout=0"),
        SUDO_TIMESTAMP_TIMEOUT_DEFAULT_S
    );
}

#[test]
fn timeout_near_range_limit() {
    // The largest minutes value that still converts; one more falls back.
    let max_minutes = u64::MAX / 60;
    let ok = format!("timestamp_timeout={}", max_minutes);
    assert_eq!(get_sudo_timeout_s(&ok), max_minutes * 60 - 5);
    let over = format!("timestamp_timeout={}", max_minutes + 1);
    assert_eq!(get_sudo_timeout_s(&over), SUDO_TIMESTAMP_TIMEOUT_DEFAULT_S);
}
