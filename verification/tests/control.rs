//! The gain mapper, the adaptive-gain controller and the frame
//! pipeline, end to end.

use adaptive_gain::estimator::isqrt_u128;
use adaptive_gain::mapper::{AdaptiveGain, GainPolicy, MapperConfig};
use adaptive_gain::pipeline::ChunkPipeline;
use adaptive_gain::sensor::SensorSnapshot;
use adaptive_gain::units::db_to_lin;

#[test]
fn target_minus_noise_mapping() {
    let c = MapperConfig::default_config();
    // 75 - 64 = 11 dB, inside the clamp
    assert_eq!(c.compute_raw_gain_db(64_000_000), 11_000_000);
    // quiet cabins would ask for +35 dB; the clamp holds it at +18
    assert_eq!(c.compute_raw_gain_db(40_000_000), 18_000_000);
    // a deafening cabin would ask for -25 dB; clamped at -18
    assert_eq!(c.compute_raw_gain_db(100_000_000), -18_000_000);
}

#[test]
fn baseline_plus_sensitivity_mapping() {
    let c = MapperConfig {
        policy: GainPolicy::BaselinePlusSensitivity,
        ..MapperConfig::default_config()
    };
    // 10 dB above the 60 dB baseline: (75 - 60) + 0.6 * 10 = 21, clamped to 18
    assert_eq!(c.compute_raw_gain_db(70_000_000), 18_000_000);
    // 10 dB below: (75 - 60) - 0.6 * 10 = 9
    assert_eq!(c.compute_raw_gain_db(50_000_000), 9_000_000);
    // at the baseline the boost vanishes
    assert_eq!(c.compute_raw_gain_db(60_000_000), 15_000_000);
}

#[test]
fn controller_tracks_a_noisy_cabin() {
    let mut g = AdaptiveGain::new(75_000_000, 100_000, 1_000_000, 0);
    // 60 km/h dominates the 60 dB cabin: noise 64.6651 dB, raw gain 10.3349 dB
    let (gain_db, gain_lin) = g.compute_gain(60_000_000, 60_000_000, 1_000_000);
    assert!(
        10_000_000 < gain_db && gain_db <= 10_334_900,
        "one second of attack covers ten time constants: {}",
        gain_db
    );
    assert_eq!(gain_lin, db_to_lin(gain_db));

    // a deafening cabin asks for attenuation; the clamp and the
    // release constant keep the held gain in range and falling
    let (gain_db2, _) = g.compute_gain(100_000_000, 0, 2_000_000);
    assert!(-18_000_000 <= gain_db2 && gain_db2 <= 18_000_000);
    assert!(gain_db2 < gain_db, "loud readings must release the gain");
}

#[test]
fn pipeline_processes_a_frame() {
    let mut p = ChunkPipeline::new(MapperConfig::default_config(), 100_000, 1_000_000);
    let mut frame: Vec<i16> = Vec::new();
    for i in 0..480 {
        let t = i as f64 / 48_000.0;
        let value = 0.4 * (2.0 * std::f64::consts::PI * 1000.0 * t).sin();
        frame.push((value * i16::MAX as f64) as i16);
    }
    let snap = SensorSnapshot {
        cabin_noise_db: 60_000_000,
        speed_kmh: 0,
        captured_at: 0,
        is_fallback: false,
    };
    let out = p.process_frame(&frame, &snap, 10_000);
    assert_eq!(out.samples.len(), frame.len());
    // the raw target is 75 - 60 = 15 dB; ten milliseconds move part way up
    assert!(0 < out.gain_db && out.gain_db <= 15_000_000, "got {}", out.gain_db);
    assert_eq!(out.gain_lin, db_to_lin(out.gain_db));
    for &s in &out.samples {
        assert!(s.unsigned_abs() <= 32_767);
    }
}

#[test]
fn pipeline_survives_sensor_fallback() {
    let mut fresh = ChunkPipeline::new(MapperConfig::default_config(), 100_000, 1_000_000);
    let mut stale = ChunkPipeline::new(MapperConfig::default_config(), 100_000, 1_000_000);
    let frame: Vec<i16> = vec![1000; 480];
    let snap = SensorSnapshot {
        cabin_noise_db: 65_000_000,
        speed_kmh: 50_000_000,
        captured_at: 0,
        is_fallback: false,
    };
    // the same readings marked as last-known-good fallback
    let fallback = SensorSnapshot { is_fallback: true, ..snap };
    let a = fresh.process_frame(&frame, &snap, 20_000);
    let b = stale.process_frame(&frame, &fallback, 20_000);
    assert_eq!(a.gain_db, b.gain_db, "a fallback snapshot keeps the pipeline going");
    assert_eq!(a.samples, b.samples);
}

#[test]
fn buffer_run_matches_frame_by_frame_processing() {
    let mut samples: Vec<i16> = Vec::new();
    for i in 0..1000 {
        let t = i as f64 / 48_000.0;
        let value = 0.7 * (2.0 * std::f64::consts::PI * 700.0 * t).sin();
        samples.push((value * i16::MAX as f64) as i16);
    }
    let chunk_len = 480_usize;
    let dt: i64 = 10_000;

    let mut batch = ChunkPipeline::new(MapperConfig::default_config(), 100_000, 1_000_000);
    let out = batch.run_auto(&samples, chunk_len, 0, dt);
    assert_eq!(out.len(), samples.len());

    // the same result, one frame at a time against the mock model
    let mut manual = ChunkPipeline::new(MapperConfig::default_config(), 100_000, 1_000_000);
    let mut expected: Vec<i16> = Vec::new();
    let mut now: i64 = 0;
    for chunk in samples.chunks(chunk_len) {
        let snap = adaptive_gain::sensor::mock_snapshot(now);
        let frame: Vec<i16> = chunk.to_vec();
        let processed = manual.process_frame(&frame, &snap, now);
        expected.extend_from_slice(&processed.samples);
        now += dt;
    }
    assert_eq!(out, expected);
}

#[test]
fn integer_square_roots() {
    assert_eq!(isqrt_u128(0), 0);
    assert_eq!(isqrt_u128(1), 1);
    assert_eq!(isqrt_u128(3), 1);
    assert_eq!(isqrt_u128(4), 2);
    assert_eq!(isqrt_u128(1_000_000_000_000), 1_000_000);
    let x: u128 = 987_654_321_987_654_321;
    let r = isqrt_u128(x) as u128;
    assert!(r * r <= x && x < (r + 1) * (r + 1));
}
