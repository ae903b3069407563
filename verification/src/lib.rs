//! Adaptive playback-gain control in fixed-point arithmetic.
//!
//! All physical quantities (decibels, km/h, seconds, linear gain factors)
//! are carried as `i64` values scaled by one million ("micro-units"), so the
//! whole control chain — noise estimation, gain mapping, asymmetric
//! smoothing, dB/linear conversion and soft limiting — is exact integer
//! arithmetic with verified contracts.

pub mod estimator;
pub mod limiter;
pub mod mapper;
pub mod pipeline;
pub mod sensor;
pub mod smoother;
pub mod trig;
pub mod units;
