use displayer::rational::{to_decimal_degrees, apply_hemisphere, within_degrees, GeoRational};
use displayer::timestamp::{parse_timestamp, capture_key, month_length, DateTime};

fn rats(v: &[(u32, u32)]) -> Vec<GeoRational> {
    v.iter().map(|&(num, den)| GeoRational { num, den }).collect()
}

#[test]
fn converts_degrees_minutes_seconds() {
    let d = to_decimal_degrees(&rats(&[(40, 1), (26, 1), (46, 1)])).unwrap();
    assert_eq!(d.num, 145606);
    assert_eq!(d.den, 3600);
    let value = d.num as f64 / d.den as f64;
    assert!((value - 40.446111111111111).abs() < 1e-9);
}

#[test]
fn converts_fractional_components() {
    // 12 + (30/2)/60 + (9/4)/3600 = 12.250625
    let d = to_decimal_degrees(&rats(&[(12, 1), (30, 2), (9, 4)])).unwrap();
    let value = d.num as f64 / d.den as f64;
    assert!((value - 12.250625).abs() < 1e-9);
}

#[test]
fn rejects_short_triple() {
    assert!(to_decimal_degrees(&rats(&[(40, 1), (26, 1)])).is_err());
}

#[test]
fn rejects_zero_denominator() {
    assert!(to_decimal_degrees(&rats(&[(40, 1), (26, 0), (46, 1)])).is_err());
}

#[test]
fn ignores_extra_components() {
    let d = to_decimal_degrees(&rats(&[(1, 1), (0, 1), (0, 1), (99, 1)])).unwrap();
    let value = d.num as f64 / d.den as f64;
    assert!((value - 1.0).abs() < 1e-9);
}

#[test]
fn hemisphere_sign_and_range() {
    let d = to_decimal_degrees(&rats(&[(91, 1), (0, 1), (0, 1)])).unwrap();
    let plus = apply_hemisphere(d, false);
    let minus = apply_hemisphere(d, true);
    assert!(minus.num < 0);
    assert!(!within_degrees(&plus, 90));
    assert!(!within_degrees(&minus, 90));
    assert!(within_degrees(&plus, 180));
    let ok = to_decimal_degrees(&rats(&[(90, 1), (0, 1), (0, 1)])).unwrap();
    assert!(within_degrees(&ok, 90));
    assert!(within_degrees(&apply_hemisphere(ok, true), 90));
}

#[test]
fn parses_exact_layout() {
    let dt = parse_timestamp(&b"2023:02:05 14:30:00".to_vec()).unwrap();
    assert_eq!(dt.year, 2023);
    assert_eq!(dt.month, 2);
    assert_eq!(dt.day, 5);
    assert_eq!(dt.hour, 14);
    assert_eq!(dt.minute, 30);
    assert_eq!(dt.second, 0);
}

#[test]
fn rejects_wrong_layout() {
    assert!(parse_timestamp(&b"2023-02-05".to_vec()).is_err());
    assert!(parse_timestamp(&b"2023-02-05 14:30:00".to_vec()).is_err());
    assert!(parse_timestamp(&b"2023:02:05T14:30:00".to_vec()).is_err());
    assert!(parse_timestamp(&b"2023:02:05 14:30:0".to_vec()).is_err());
    assert!(parse_timestamp(&b"2023:02:05 14:30:00 ".to_vec()).is_err());
    assert!(parse_timestamp(&b"".to_vec()).is_err());
}

#[test]
fn rejects_out_of_range_fields() {
    assert!(parse_timestamp(&b"2023:13:01 00:00:00".to_vec()).is_err());
    assert!(parse_timestamp(&b"2023:00:01 00:00:00".to_vec()).is_err());
    assert!(parse_timestamp(&b"2023:01:32 00:00:00".to_vec()).is_err());
    assert!(parse_timestamp(&b"2023:01:00 00:00:00".to_vec()).is_err());
    assert!(parse_timestamp(&b"2023:01:01 24:00:00".to_vec()).is_err());
    assert!(parse_timestamp(&b"2023:01:01 00:60:00".to_vec()).is_err());
    assert!(parse_timestamp(&b"2023:01:01 00:00:60".to_vec()).is_err());
}

#[test]
fn leap_year_days() {
    assert!(parse_timestamp(&b"2023:02:29 00:00:00".to_vec()).is_err());
    assert!(parse_timestamp(&b"2024:02:29 00:00:00".to_vec()).is_ok());
    assert!(parse_timestamp(&b"1900:02:29 00:00:00".to_vec()).is_err());
    assert!(parse_timestamp(&b"2000:02:29 00:00:00".to_vec()).is_ok());
    assert_eq!(month_length(2023, 2), 28);
    assert_eq!(month_length(2024, 2), 29);
    assert_eq!(month_length(2024, 4), 30);
    assert_eq!(month_length(2024, 12), 31);
}

#[test]
fn capture_key_orders_times() {
    let a = DateTime { year: 2023, month: 2, day: 5, hour: 14, minute: 30, second: 0 };
    let b = DateTime { year: 2023, month: 2, day: 5, hour: 14, minute: 30, second: 1 };
    let c = DateTime { year: 2024, month: 1, day: 1, hour: 0, minute: 0, second: 0 };
    assert!(capture_key(&a) < capture_key(&b));
    assert!(capture_key(&b) < capture_key(&c));
    assert_eq!(capture_key(&a), capture_key(&a.clone()));
}
