//! Soft limiter and gain stage behavior.  Samples handed to
//! `soft_limit` are micro-units; `apply_gain_and_limit` works on
//! 16-bit samples with a micro-unit linear gain.

use adaptive_gain::limiter::{apply_gain_and_limit, process_sample, soft_limit};

#[test]
fn test_soft_limiter() {
    let threshold: i64 = 800_000;

    // below the threshold nothing changes
    let input: i64 = 500_000;
    assert_eq!(
        soft_limit(input, threshold),
        input,
        "Should not affect values below threshold"
    );

    // above the threshold the value is softly limited
    let input: i64 = 1_000_000;
    let limited = soft_limit(input, threshold);
    assert!(
        limited < input && limited > threshold,
        "Should softly limit values above threshold: {} -> {}",
        input,
        limited
    );

    // negative values keep their sign
    let input: i64 = -1_000_000;
    let limited = soft_limit(input, threshold);
    assert!(
        limited > input && limited < -threshold,
        "Should softly limit negative values: {} -> {}",
        input,
        limited
    );
}

#[test]
fn soft_limiter_exact_values() {
    assert_eq!(soft_limit(1_000_000, 800_000), 966_666);
    assert_eq!(soft_limit(1_200_000, 800_000), 1_085_714);
    assert_eq!(soft_limit(-1_000_000, 800_000), -966_666);
    assert_eq!(soft_limit(800_000, 800_000), 800_000);
    assert_eq!(soft_limit(-800_000, 800_000), -800_000);
    // the knee approaches one unit over the threshold, never reaching it
    let huge = soft_limit(3_000_000_000_000, 800_000);
    assert!(800_000 < huge && huge < 1_800_000, "got {}", huge);
}

#[test]
fn test_apply_gain_and_limit() {
    // a 440 Hz sine burst, 0.01 s at 44.1 kHz
    let frequency = 440.0_f64;
    let duration = 0.01_f64;
    let sample_rate = 44100_usize;
    let num_samples = (duration * sample_rate as f64) as usize;

    let mut input: Vec<i16> = Vec::with_capacity(num_samples);
    for i in 0..num_samples {
        let t = i as f64 / sample_rate as f64;
        let value = (2.0 * std::f64::consts::PI * frequency * t).sin();
        input.push((value * i16::MAX as f64) as i16);
    }

    let gains: Vec<i64> = vec![500_000, 1_000_000, 2_000_000];
    for gain in gains {
        let output = apply_gain_and_limit(&input, gain);

        assert_eq!(output.len(), input.len(), "Output length should match input");

        for &sample in &output {
            assert!(
                sample <= i16::MAX && sample >= i16::MIN,
                "Output should be within i16 bounds: {}",
                sample
            );

            if gain <= 1_000_000 {
                let expected_max = (i16::MAX as i64 * gain / 1_000_000) as i16;
                assert!(
                    sample.unsigned_abs() <= expected_max.unsigned_abs(),
                    "Output {} should not exceed expected max {}",
                    sample,
                    expected_max
                );
            }
        }
    }
}

#[test]
fn unity_gain_leaves_a_quiet_burst_unchanged() {
    // amplitude 0.4 of full scale stays below the limiter threshold
    let sample_rate = 48_000_usize;
    let mut input: Vec<i16> = Vec::new();
    for i in 0..480 {
        let t = i as f64 / sample_rate as f64;
        let value = 0.4 * (2.0 * std::f64::consts::PI * 1000.0 * t).sin();
        input.push((value * i16::MAX as f64) as i16);
    }
    let output = apply_gain_and_limit(&input, 1_000_000);
    assert_eq!(output, input, "unity gain must be the identity below the threshold");

    // doubling the gain must still never clip past full scale
    let doubled = apply_gain_and_limit(&input, 2_000_000);
    assert_eq!(doubled.len(), input.len());
    for &s in &doubled {
        assert!(s.unsigned_abs() <= 32_767);
    }
}

#[test]
fn one_sample_through_the_gain_stage() {
    // 1000 * 2.0 = 2000 sample steps, far below the knee
    assert_eq!(process_sample(1000, 2_000_000), 2000);
    assert_eq!(process_sample(-1000, 2_000_000), -2000);
    assert_eq!(process_sample(0, 2_000_000), 0);
    // full scale at four-fold gain still lands just above the knee
    let loud = process_sample(i16::MAX, 4_000_000);
    assert!(32_111 <= loud && loud <= 32_113, "got {}", loud);
}
