//! The noise-to-gain mapping policy and the combined adaptive-gain
//! controller.
//!
//! `MapperConfig` turns an estimated ambient-noise figure into a raw
//! (unsmoothed) playback gain in micro-dB, clamped to a safety range.
//! Two policies exist and the choice is explicit configuration:
//! `TargetMinusNoise` holds the perceived level constant, while
//! `BaselinePlusSensitivity` raises the gain by a fraction of each
//! decibel of noise above a baseline.  `AdaptiveGain` chains the
//! estimator, the mapper and the smoother into one controller.

use vstd::prelude::*;

verus! {

use crate::estimator::speed_to_noise_spec;
use crate::smoother::smooth_step_spec;
use crate::smoother::smooth_tau;
use crate::smoother::Smoother;
use crate::smoother::DT_MAX;
use crate::smoother::TAU_MAX;
use crate::units::clamp_spec;

/// Magnitude bound on decibel figures accepted by the mapper.
pub const MAPPER_DB_LIMIT: i64 = 200_000_000;

/// Widest clamp half-range the mapper accepts: +-40 dB, the range over
/// which a clamped gain can be turned into a linear factor for the
/// sample stage.
pub const CLAMP_LIMIT: i64 = 40_000_000;

/// Default gain clamp half-range: +-18 dB.
pub const DEFAULT_CLAMP_DB: i64 = 18_000_000;

/// The sensitivity term of the baseline policy: the fraction `sens`
/// (micro-units) of the noise excursion `above`, rounded toward zero.
pub open spec fn sensitivity_boost_spec(sens: int, above: int) -> int {
    if above >= 0 {
        sens * above / 1_000_000
    } else {
        -(sens * (-above) / 1_000_000)
    }
}

/// How a noise estimate maps to a raw playback gain.
#[derive(Clone, Copy, PartialEq, Eq, Structural, Debug)]
pub enum GainPolicy {
    /// `target - noise + offset`: holds the perceived output level
    /// constant regardless of ambient noise.
    TargetMinusNoise,
    /// `(target - baseline) + sensitivity * (noise - baseline) +
    /// offset`: gain rises with noise above the baseline instead of
    /// fully compensating it.
    BaselinePlusSensitivity,
}

/// Configuration of the noise-to-gain mapping.
#[derive(Clone, Copy, PartialEq, Eq, Structural, Debug)]
pub struct MapperConfig {
    /// Desired perceived playback level, micro-dB.
    pub target_loudness_db: i64,
    /// Listener adjustment added on top, micro-dB.
    pub user_offset_db: i64,
    /// Lower clamp bound for the raw gain, micro-dB.
    pub clamp_min_db: i64,
    /// Upper clamp bound for the raw gain, micro-dB.
    pub clamp_max_db: i64,
    /// Reference cabin noise for the sensitivity policy, micro-dB.
    pub baseline_noise_db: i64,
    /// Gain rise per decibel of noise above the baseline, micro-units.
    pub sensitivity: i64,
    /// Which of the two mapping formulas applies.
    pub policy: GainPolicy,
}

impl MapperConfig {
    /// Well-formed mapper configuration.
    pub open spec fn wf(&self) -> bool {
        &&& -MAPPER_DB_LIMIT <= self.target_loudness_db <= MAPPER_DB_LIMIT
        &&& -MAPPER_DB_LIMIT <= self.user_offset_db <= MAPPER_DB_LIMIT
        &&& -MAPPER_DB_LIMIT <= self.baseline_noise_db <= MAPPER_DB_LIMIT
        &&& -CLAMP_LIMIT <= self.clamp_min_db <= 0
        &&& 0 <= self.clamp_max_db <= CLAMP_LIMIT
        &&& 0 < self.sensitivity <= 1_000_000
    }

    /// The raw (unsmoothed) gain for a noise estimate, before the
    /// clamp.
    pub open spec fn unclamped_gain_spec(&self, noise_db: int) -> int {
        match self.policy {
            GainPolicy::TargetMinusNoise => self.target_loudness_db - noise_db
                + self.user_offset_db,
            GainPolicy::BaselinePlusSensitivity => (self.target_loudness_db
                - self.baseline_noise_db) + sensitivity_boost_spec(
                self.sensitivity as int,
                noise_db - self.baseline_noise_db,
            ) + self.user_offset_db,
        }
    }

    /// The raw gain for a noise estimate, clamped to the safety range.
    pub open spec fn raw_gain_spec(&self, noise_db: int) -> int {
        clamp_spec(self.unclamped_gain_spec(noise_db), self.clamp_min_db as int,
            self.clamp_max_db as int)
    }

    /// The default configuration: 75 dB target, no offset, +-18 dB
    /// clamp, 60 dB baseline, 0.6 sensitivity, constant perceived
    /// level.
    pub fn default_config() -> (c: MapperConfig)
        ensures
            c.wf(),
            c.target_loudness_db == 75_000_000,
            c.user_offset_db == 0,
            c.clamp_min_db == -DEFAULT_CLAMP_DB,
            c.clamp_max_db == DEFAULT_CLAMP_DB,
            c.baseline_noise_db == 60_000_000,
            c.sensitivity == 600_000,
            c.policy == GainPolicy::TargetMinusNoise,
    {
        MapperConfig {
            target_loudness_db: 75_000_000,
            user_offset_db: 0,
            clamp_min_db: -DEFAULT_CLAMP_DB,
            clamp_max_db: DEFAULT_CLAMP_DB,
            baseline_noise_db: 60_000_000,
            sensitivity: 600_000,
            policy: GainPolicy::TargetMinusNoise,
        }
    }

    /// Map a noise estimate to the raw playback gain, clamped to the
    /// configured range.  This mapping is stateless and pure.
    pub fn compute_raw_gain_db(&self, noise_db: i64) -> (r: i64)
        requires
            self.wf(),
            -MAPPER_DB_LIMIT <= noise_db <= MAPPER_DB_LIMIT,
        ensures
            r == self.raw_gain_spec(noise_db as int),
            self.clamp_min_db <= r <= self.clamp_max_db,
    {
        let raw: i64 = match self.policy {
            GainPolicy::TargetMinusNoise => {
                self.target_loudness_db - noise_db + self.user_offset_db
            },
            GainPolicy::BaselinePlusSensitivity => {
                let above: i64 = noise_db - self.baseline_noise_db;
                let mag: i64 = if above >= 0 {
                    above
                } else {
                    -above
                };
                proof {
                    lemma_sensitivity_product(self.sensitivity as int, mag as int);
                }
                let scaled: i64 = self.sensitivity * mag / 1_000_000;
                let boost: i64 = if above >= 0 {
                    scaled
                } else {
                    -scaled
                };
                (self.target_loudness_db - self.baseline_noise_db) + boost
                    + self.user_offset_db
            },
        };
        crate::units::clamp_i64(raw, self.clamp_min_db, self.clamp_max_db)
    }
}

/// The sensitivity boost stays within the noise excursion itself.
proof fn lemma_sensitivity_product(sens: int, mag: int)
    requires
        0 < sens <= 1_000_000,
        0 <= mag <= 400_000_000,
    ensures
        0 <= sens * mag <= 400_000_000_000_000,
        0 <= sens * mag / 1_000_000 <= 400_000_000,
{
    assert(0 <= sens * mag <= 400_000_000_000_000) by (nonlinear_arith)
        requires
            0 < sens <= 1_000_000,
            0 <= mag <= 400_000_000,
    ;
    vstd::arithmetic::div_mod::lemma_div_pos_is_pos(sens * mag, 1_000_000);
    vstd::arithmetic::div_mod::lemma_div_is_ordered(
        sens * mag, 400_000_000_000_000, 1_000_000);
    assert(400_000_000_000_000int / 1_000_000 == 400_000_000);
}

/// The noise estimate: the louder of the measured cabin level and the
/// level attributed to road speed.
pub open spec fn noise_estimate_spec(cabin_db: int, speed_kmh: int) -> int {
    let sn = speed_to_noise_spec(speed_kmh);
    if cabin_db >= sn {
        cabin_db
    } else {
        sn
    }
}

/// The adaptive gain controller: noise estimate, gain mapping and
/// asymmetric smoothing in one unit, with the default +-18 dB clamp.
pub struct AdaptiveGain {
    /// The gain smoother holding the last smoothed gain.
    pub smoother: Smoother,
    /// Desired perceived playback level, micro-dB.
    pub l_desired_db: i64,
    /// Listener adjustment added on top, micro-dB.
    pub user_offset_db: i64,
}

impl AdaptiveGain {
    /// Well-formed controller state: the smoothed gain never leaves
    /// the clamp range.
    pub open spec fn wf(&self) -> bool {
        &&& self.smoother.wf()
        &&& -DEFAULT_CLAMP_DB <= self.smoother.value_db <= DEFAULT_CLAMP_DB
        &&& -MAPPER_DB_LIMIT <= self.l_desired_db <= MAPPER_DB_LIMIT
        &&& -1_000_000 <= self.user_offset_db <= 1_000_000
    }

    /// The raw clamped gain the controller derives from one pair of
    /// readings.
    pub open spec fn raw_gain_spec(&self, cabin_db: int, speed_kmh: int) -> int {
        clamp_spec(
            self.l_desired_db - noise_estimate_spec(cabin_db, speed_kmh)
                + self.user_offset_db,
            -DEFAULT_CLAMP_DB as int,
            DEFAULT_CLAMP_DB as int,
        )
    }

    /// A fresh controller holding a gain of zero dB, with its clock at
    /// zero.
    pub fn new(l_desired_db: i64, tau_attack: i64, tau_release: i64, user_offset_db: i64)
        -> (g: AdaptiveGain)
        requires
            -MAPPER_DB_LIMIT <= l_desired_db <= MAPPER_DB_LIMIT,
            0 < tau_attack <= TAU_MAX,
            0 < tau_release <= TAU_MAX,
            -1_000_000 <= user_offset_db <= 1_000_000,
        ensures
            g.wf(),
            g.smoother.value_db == 0,
            g.smoother.tau_attack == tau_attack,
            g.smoother.tau_release == tau_release,
            g.smoother.last_update == 0,
            g.l_desired_db == l_desired_db,
            g.user_offset_db == user_offset_db,
    {
        AdaptiveGain {
            smoother: Smoother::new(0, tau_attack, tau_release),
            l_desired_db,
            user_offset_db,
        }
    }

    /// Update the controller from one pair of readings at clock `now`
    /// (micro-seconds).  Returns the smoothed gain in micro-dB and the
    /// matching linear gain in micro-units.
    pub fn compute_gain(&mut self, cabin_db: i64, speed_kmh: i64, now: i64) -> (r: (
        i64,
        i64,
    ))
        requires
            old(self).wf(),
            -MAPPER_DB_LIMIT <= cabin_db <= MAPPER_DB_LIMIT,
            0 <= speed_kmh <= crate::estimator::SPEED_MAX,
            0 <= now <= DT_MAX,
        ensures
            final(self).wf(),
            final(self).l_desired_db == old(self).l_desired_db,
            final(self).user_offset_db == old(self).user_offset_db,
            final(self).smoother.tau_attack == old(self).smoother.tau_attack,
            final(self).smoother.tau_release == old(self).smoother.tau_release,
            final(self).smoother.last_update == now,
            r.0 == final(self).smoother.value_db,
            r.0 == smooth_step_spec(
                old(self).smoother.value_db as int,
                old(self).raw_gain_spec(cabin_db as int, speed_kmh as int),
                now - old(self).smoother.last_update,
                smooth_tau(
                    old(self).smoother.value_db as int,
                    old(self).raw_gain_spec(cabin_db as int, speed_kmh as int),
                    old(self).smoother.tau_attack as int,
                    old(self).smoother.tau_release as int,
                ),
            ),
            -DEFAULT_CLAMP_DB <= r.0 <= DEFAULT_CLAMP_DB,
            r.1 == crate::units::db_to_lin_spec(r.0 as int),
    {
        let speed_noise: i64 = crate::estimator::speed_to_noise(speed_kmh);
        let noise_db: i64 = if cabin_db >= speed_noise {
            cabin_db
        } else {
            speed_noise
        };
        let raw: i64 = crate::units::clamp_i64(
            self.l_desired_db - noise_db + self.user_offset_db,
            -DEFAULT_CLAMP_DB,
            DEFAULT_CLAMP_DB,
        );
        let gain_db: i64 = self.smoother.step(raw, now);
        let gain_lin: i64 = crate::units::db_to_lin(gain_db);
        (gain_db, gain_lin)
    }
}

} // verus!
