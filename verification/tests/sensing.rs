//! Sensor mocks, the speed-to-noise model, block level measurement and
//! the last-known-good fallback.

use adaptive_gain::estimator::{
    mock_get_cabin_noise_db, mock_get_speed_kmh, rms_level_db, rms_to_db, speed_to_noise,
};
use adaptive_gain::sensor::{
    apply_remote_reading, estimate_noise_db, mock_snapshot, SensorInput, SensorReading,
    SensorSnapshot, SensorSource,
};

#[test]
fn audio_playback6_test_test_mock_speed_and_noise() {
    let t_values: Vec<i64> = vec![0, 1_000_000, 2_000_000, 3_000_000, 4_000_000];

    for t in t_values {
        let speed = mock_get_speed_kmh(t);
        let noise = mock_get_cabin_noise_db(t);

        assert!(
            speed >= 20_000_000 && speed <= 100_000_000,
            "Speed {} at time {} should be within reasonable bounds",
            speed,
            t
        );

        assert!(
            noise >= 47_000_000 && noise <= 73_000_000,
            "Noise {} at time {} should be within reasonable bounds",
            noise,
            t
        );
    }
}

#[test]
fn audio_playback6_test_2_test_mock_speed_and_noise() {
    let t_values: Vec<i64> = vec![0, 10_000_000, 20_000_000, 30_000_000, 40_000_000];

    for t in t_values {
        let speed = mock_get_speed_kmh(t);
        let noise = mock_get_cabin_noise_db(t);

        assert!(
            (20_000_000..=100_000_000).contains(&speed),
            "Speed {} at time {} out of expected range",
            speed,
            t
        );

        assert!(
            (47_000_000..=73_000_000).contains(&noise),
            "Noise {} at time {} out of expected range",
            noise,
            t
        );
    }
}

#[test]
fn test_speed_to_noise_conversion() {
    let test_speeds: Vec<i64> = vec![0, 30_000_000, 60_000_000, 90_000_000, 120_000_000];

    for speed in test_speeds {
        let noise = speed_to_noise(speed);

        assert!(noise > 40_000_000, "Noise level should be above 40dB");
        assert!(noise < 90_000_000, "Noise level should be below 90dB");

        if speed > 0 {
            let lower_speed_noise = speed_to_noise(speed - 10_000_000);
            assert!(
                noise > lower_speed_noise,
                "Noise should increase with speed: {} dB at {} km/h vs {} dB at {} km/h",
                noise,
                speed,
                lower_speed_noise,
                speed - 10_000_000
            );
        }
    }
}

#[test]
fn test_speed_to_noise_relationship() {
    let speeds: Vec<i64> = vec![0, 30_000_000, 60_000_000, 90_000_000, 120_000_000];
    let mut prev_noise: Option<i64> = None;

    for speed in speeds {
        let noise = speed_to_noise(speed);
        assert!(
            noise > 30_000_000 && noise < 90_000_000,
            "Noise {} out of range",
            noise
        );

        if let Some(prev) = prev_noise {
            assert!(
                noise > prev,
                "Noise should increase with speed: {} dB at {} km/h vs {} dB at lower speed",
                noise,
                speed,
                prev
            );
        }
        prev_noise = Some(noise);
    }
}

#[test]
fn speed_to_noise_known_points() {
    // 6 ln(61) + 40 is a touch above 64.665 dB
    assert_eq!(speed_to_noise(60_000_000), 64_665_100);
    // one km/h more rises strictly
    assert!(speed_to_noise(61_000_000) > speed_to_noise(60_000_000));
    // standstill still carries the 40 dB floor
    let idle = speed_to_noise(0);
    assert!((40_000_000..40_100_000).contains(&idle), "got {}", idle);
}

#[test]
fn block_level_measurements() {
    // silence floors at the epsilon: -60 dB + 94 dB calibration
    let silence: Vec<i16> = vec![0; 480];
    assert_eq!(rms_to_db(&silence), 34_008_619);
    // an empty block is treated like silence
    let empty: Vec<i16> = Vec::new();
    assert_eq!(rms_to_db(&empty), 34_008_619);
    // a full-scale square wave sits at the calibration offset
    let full: Vec<i16> = vec![32_767; 480];
    assert_eq!(rms_to_db(&full), 94_000_019);
    // half scale sits close to 6 dB below full scale
    let half: Vec<i16> = vec![16_384; 480];
    let level = rms_to_db(&half);
    assert!(
        (87_970_000..88_030_000).contains(&level),
        "half scale measured {}",
        level
    );
}

#[test]
fn calibration_offset_shifts_the_level() {
    let full: Vec<i16> = vec![32_767; 480];
    assert_eq!(rms_level_db(&full, 94_000_000), rms_to_db(&full));
    assert_eq!(rms_level_db(&full, 80_000_000), rms_to_db(&full) - 14_000_000);
}

#[test]
fn failed_poll_keeps_last_known_good() {
    let prev = SensorSnapshot {
        cabin_noise_db: 63_000_000,
        speed_kmh: 80_000_000,
        captured_at: 5_000_000,
        is_fallback: false,
    };
    let s = apply_remote_reading(&prev, None, 6_000_000);
    assert_eq!(s.cabin_noise_db, prev.cabin_noise_db);
    assert_eq!(s.speed_kmh, prev.speed_kmh);
    assert_eq!(s.captured_at, prev.captured_at);
    assert!(s.is_fallback);
}

#[test]
fn empty_payload_counts_as_no_update() {
    let prev = SensorSnapshot {
        cabin_noise_db: 63_000_000,
        speed_kmh: 80_000_000,
        captured_at: 5_000_000,
        is_fallback: false,
    };
    let nothing = SensorReading { cabin_db: None, speed_kmh: None };
    let s = apply_remote_reading(&prev, Some(nothing), 6_000_000);
    assert_eq!(s.cabin_noise_db, prev.cabin_noise_db);
    assert_eq!(s.speed_kmh, prev.speed_kmh);
    assert!(s.is_fallback);

    // an out-of-range speed counts as missing too
    let bogus = SensorReading { cabin_db: None, speed_kmh: Some(-5) };
    let s = apply_remote_reading(&prev, Some(bogus), 6_000_000);
    assert!(s.is_fallback);
    assert_eq!(s.speed_kmh, prev.speed_kmh);
}

#[test]
fn partial_payload_updates_only_its_field() {
    let prev = SensorSnapshot {
        cabin_noise_db: 63_000_000,
        speed_kmh: 80_000_000,
        captured_at: 5_000_000,
        is_fallback: true,
    };
    let cabin_only = SensorReading { cabin_db: Some(58_000_000), speed_kmh: None };
    let s = apply_remote_reading(&prev, Some(cabin_only), 6_000_000);
    assert_eq!(s.cabin_noise_db, 58_000_000);
    assert_eq!(s.speed_kmh, 80_000_000);
    assert_eq!(s.captured_at, 6_000_000);
    assert!(!s.is_fallback);
}

#[test]
fn sources_publish_snapshots() {
    // the mock model is a pure function of time
    let mut mock = SensorSource::MockModel;
    let a = mock.update(&SensorInput::Clock, 2_000_000);
    let b = mock_snapshot(2_000_000);
    assert_eq!(a, b);
    assert!(!a.is_fallback);

    // a remote source folds polls in and survives failures
    let mut remote = SensorSource::RemotePoll { last: SensorSnapshot::initial() };
    let fresh = SensorReading { cabin_db: Some(66_000_000), speed_kmh: Some(90_000_000) };
    let s1 = remote.update(&SensorInput::Remote(Some(fresh)), 1_000_000);
    assert_eq!(s1.cabin_noise_db, 66_000_000);
    assert_eq!(s1.speed_kmh, 90_000_000);
    let s2 = remote.update(&SensorInput::Remote(None), 2_000_000);
    assert_eq!(s2.cabin_noise_db, 66_000_000);
    assert_eq!(s2.speed_kmh, 90_000_000);
    assert!(s2.is_fallback);

    // a local source measures the cabin from an audio block
    let mut local = SensorSource::LocalMeasurement { last: SensorSnapshot::initial() };
    let block: Vec<i16> = vec![32_767; 128];
    let s3 = local.update(&SensorInput::Level(block), 3_000_000);
    assert_eq!(s3.cabin_noise_db, 94_000_019);
    assert_eq!(s3.speed_kmh, 0);
}

#[test]
fn noise_estimate_takes_the_louder_source() {
    let loud_cabin = SensorSnapshot {
        cabin_noise_db: 70_000_000,
        speed_kmh: 0,
        captured_at: 0,
        is_fallback: false,
    };
    assert_eq!(estimate_noise_db(&loud_cabin), 70_000_000);

    let fast_quiet = SensorSnapshot {
        cabin_noise_db: 30_000_000,
        speed_kmh: 60_000_000,
        captured_at: 0,
        is_fallback: false,
    };
    assert_eq!(estimate_noise_db(&fast_quiet), 64_665_100);
}
