//! Decibel/linear conversion behavior, at micro scale (1.0 == 1_000_000).

use adaptive_gain::units::{clamp_i64, db_to_lin, lin_to_db};

#[test]
fn test_db_to_linear_conversion() {
    let test_cases: Vec<(i64, f64)> = vec![
        (0, 1.0),
        (6_000_000, 1.995262),
        (-6_000_000, 0.501187),
        (20_000_000, 10.0),
        (-20_000_000, 0.1),
    ];

    for (db, expected) in test_cases {
        let result = db_to_lin(db);
        let expected_micro = (expected * 1_000_000.0).round() as i64;
        assert!(
            (result - expected_micro).abs() < 100,
            "Converting {} dB to linear: got {}, expected {}",
            db,
            result,
            expected_micro
        );
    }
}

#[test]
fn test_db_to_lin_conversion() {
    let cases: Vec<(i64, f64)> = vec![
        (0, 1.0),
        (6_000_000, 1.995262),
        (-6_000_000, 0.501187),
        (20_000_000, 10.0),
        (-20_000_000, 0.1),
    ];

    for (db, expected) in cases {
        let result = db_to_lin(db);
        let expected_micro = (expected * 1_000_000.0).round() as i64;
        assert!(
            (result - expected_micro).abs() < 100,
            "db_to_lin({}) -> {}, expected {}",
            db,
            result,
            expected_micro
        );
    }
}

#[test]
fn whole_decades_are_exact() {
    assert_eq!(db_to_lin(0), 1_000_000);
    assert_eq!(db_to_lin(20_000_000), 10_000_000);
    assert_eq!(db_to_lin(-20_000_000), 100_000);
    assert_eq!(db_to_lin(40_000_000), 100_000_000);
    assert_eq!(db_to_lin(-40_000_000), 10_000);
    assert_eq!(db_to_lin(60_000_000), 1_000_000_000);
    assert_eq!(db_to_lin(-60_000_000), 1_000);
}

#[test]
fn round_trip_recovers_decibels() {
    let samples: Vec<i64> = vec![
        -40_000_000, -24_000_000, -12_345_678, -1, 0, 1, 999_983, 12_000_000, 17_250_411,
        24_000_000, 39_999_999, 59_000_000, 60_000_000,
    ];
    for db in samples {
        let back = lin_to_db(db_to_lin(db));
        assert!(
            db <= back && back < db + 1000,
            "round trip of {} micro-dB gave {}",
            db,
            back
        );
    }
}

#[test]
fn inverse_is_greatest_lower_match() {
    // 10x linear gain sits 20 dB up, recovered within a thousandth
    let d = lin_to_db(10_000_000);
    assert!(20_000_000 <= d && d < 20_001_000, "got {}", d);
    // the table floor
    assert_eq!(lin_to_db(1_000), -59_991_381);
    assert_eq!(lin_to_db(1_000_000_000), 60_000_000);
}

#[test]
fn clamp_holds_bounds() {
    assert_eq!(clamp_i64(5, -3, 3), 3);
    assert_eq!(clamp_i64(-5, -3, 3), -3);
    assert_eq!(clamp_i64(2, -3, 3), 2);
    assert_eq!(clamp_i64(3, -3, 3), 3);
}
