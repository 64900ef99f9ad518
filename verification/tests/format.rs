use svg2librepcb::fmt::format_coord;

/// Coordinates enter the library as integer counts of thousandths; a float
/// value is rounded to the nearest thousandth on the way in.
fn millis(v: f64) -> i64 {
    (v * 1000.0).round() as i64
}

#[test]
fn test_format_float() {
    let cases = [(3.14456, "3.145"), (-7.0, "-7.0"), (0.4, "0.4"), (-0.0, "0.0")];
    for case in cases {
        assert_eq!(format_coord(millis(case.0)), case.1);
    }
}

#[test]
fn format_strips_trailing_zeros_minimally() {
    assert_eq!(format_coord(7000), "7.0");
    assert_eq!(format_coord(450), "0.45");
    assert_eq!(format_coord(1100), "1.1");
    assert_eq!(format_coord(123456), "123.456");
}

#[test]
fn format_small_magnitudes_keep_sign() {
    assert_eq!(format_coord(-50), "-0.05");
    assert_eq!(format_coord(-1), "-0.001");
    assert_eq!(format_coord(1), "0.001");
}

#[test]
fn format_zero_is_normalized() {
    assert_eq!(format_coord(0), "0.0");
}

#[test]
fn format_always_has_one_decimal_point() {
    for v in [0i64, 1, -1, 999, 1000, -1000, 1001, 123456789, -40, 10] {
        let s = format_coord(v);
        assert_eq!(s.matches('.').count(), 1);
        assert!(!s.ends_with('.'));
        if s.ends_with('0') {
            let chars: Vec<char> = s.chars().collect();
            assert_eq!(chars[chars.len() - 2], '.');
        }
    }
}
