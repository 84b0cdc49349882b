use ldtk::num::parse_i64;
use ldtk::num::render_i64;
use ldtk::num::render_u64;

#[test]
fn renders_canonical_decimal_text() {
    assert_eq!(render_u64(0), "0");
    assert_eq!(render_u64(7), "7");
    assert_eq!(render_u64(10), "10");
    assert_eq!(render_u64(90210), "90210");
    assert_eq!(render_i64(0), "0");
    assert_eq!(render_i64(-1), "-1");
    assert_eq!(render_i64(i64::MAX), "9223372036854775807");
    assert_eq!(render_i64(i64::MIN), "-9223372036854775808");
}

#[test]
fn parses_canonical_decimal_text() {
    assert_eq!(parse_i64("0"), Some(0));
    assert_eq!(parse_i64("256"), Some(256));
    assert_eq!(parse_i64("-42"), Some(-42));
    assert_eq!(parse_i64("9223372036854775807"), Some(i64::MAX));
    assert_eq!(parse_i64("-9223372036854775808"), Some(i64::MIN));
}

#[test]
fn refuses_non_canonical_text() {
    assert_eq!(parse_i64(""), None);
    assert_eq!(parse_i64("-"), None);
    assert_eq!(parse_i64("007"), None);
    assert_eq!(parse_i64("-0"), None);
    assert_eq!(parse_i64("3.5"), None);
    assert_eq!(parse_i64("1e3"), None);
    assert_eq!(parse_i64(" 1"), None);
    assert_eq!(parse_i64("+1"), None);
    assert_eq!(parse_i64("9223372036854775808"), None);
    assert_eq!(parse_i64("-9223372036854775809"), None);
    assert_eq!(parse_i64("99999999999999999999999999"), None);
}

#[test]
fn round_trips_through_text() {
    let values: Vec<i64> = vec![0, 1, -1, 9, 10, -10, 12345, -678900, i64::MAX, i64::MIN];
    for v in values {
        assert_eq!(parse_i64(&render_i64(v)), Some(v));
    }
}
