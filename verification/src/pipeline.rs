//! The per-frame processing pipeline.
//!
//! For each fixed-duration frame the pipeline estimates noise from the
//! latest snapshot, maps it to a raw gain, smooths that gain, converts
//! it to a linear factor and applies gain and limiter to every sample.
//! Pacing between frames (sleeping, or an audio callback's own cadence)
//! is the caller's concern.

use vstd::prelude::*;

verus! {

use crate::limiter::process_sample_spec;
use crate::mapper::noise_estimate_spec;
use crate::mapper::MapperConfig;
use crate::sensor::SensorSnapshot;
use crate::smoother::smooth_step_spec;
use crate::smoother::smooth_tau;
use crate::smoother::Smoother;
use crate::smoother::DT_MAX;
use crate::smoother::TAU_MAX;
use crate::units::db_to_lin_spec;

/// One processed frame: the samples to hand to playback and the gain
/// that produced them.
pub struct ProcessedFrame {
    /// The gain-adjusted, limited samples.
    pub samples: Vec<i16>,
    /// The smoothed gain that was applied, micro-dB.
    pub gain_db: i64,
    /// The same gain as a linear factor, micro-units.
    pub gain_lin: i64,
}

/// The per-frame control chain: a gain mapping configuration and the
/// smoother that carries gain state from frame to frame.
pub struct ChunkPipeline {
    /// The noise-to-gain mapping configuration.
    pub mapper: MapperConfig,
    /// The gain smoother; its held value is the pipeline's state.
    pub smoother: Smoother,
}

impl ChunkPipeline {
    /// Well-formed pipeline: the smoothed gain never leaves the
    /// mapper's clamp range.
    pub open spec fn wf(&self) -> bool {
        &&& self.mapper.wf()
        &&& self.smoother.wf()
        &&& self.mapper.clamp_min_db <= self.smoother.value_db <= self.mapper.clamp_max_db
    }

    /// The smoothed gain one frame at clock `now` settles on, given the
    /// snapshot it read.
    pub open spec fn frame_gain_spec(&self, snap: SensorSnapshot, now: int) -> int {
        let raw = self.mapper.raw_gain_spec(
            noise_estimate_spec(snap.cabin_noise_db as int, snap.speed_kmh as int),
        );
        smooth_step_spec(
            self.smoother.value_db as int,
            raw,
            now - self.smoother.last_update,
            smooth_tau(
                self.smoother.value_db as int,
                raw,
                self.smoother.tau_attack as int,
                self.smoother.tau_release as int,
            ),
        )
    }

    /// A fresh pipeline holding a gain of zero dB.
    pub fn new(mapper: MapperConfig, tau_attack: i64, tau_release: i64) -> (p: ChunkPipeline)
        requires
            mapper.wf(),
            0 < tau_attack <= TAU_MAX,
            0 < tau_release <= TAU_MAX,
        ensures
            p.wf(),
            p.mapper == mapper,
            p.smoother.value_db == 0,
            p.smoother.tau_attack == tau_attack,
            p.smoother.tau_release == tau_release,
            p.smoother.last_update == 0,
    {
        ChunkPipeline { mapper, smoother: Smoother::new(0, tau_attack, tau_release) }
    }

    /// Process one frame at clock `now` (micro-seconds): estimate noise
    /// from the snapshot, map it to a raw gain, smooth, convert to a
    /// linear factor and apply gain and limiter to every sample.
    pub fn process_frame(&mut self, frame: &Vec<i16>, snap: &SensorSnapshot, now: i64) -> (out:
        ProcessedFrame)
        requires
            old(self).wf(),
            snap.wf(),
            0 <= now <= DT_MAX,
        ensures
            final(self).wf(),
            final(self).mapper == old(self).mapper,
            final(self).smoother.tau_attack == old(self).smoother.tau_attack,
            final(self).smoother.tau_release == old(self).smoother.tau_release,
            final(self).smoother.last_update == now,
            out.gain_db == old(self).frame_gain_spec(*snap, now as int),
            out.gain_db == final(self).smoother.value_db,
            old(self).mapper.clamp_min_db <= out.gain_db <= old(self).mapper.clamp_max_db,
            out.gain_lin == db_to_lin_spec(out.gain_db as int),
            out.samples@.len() == frame@.len(),
            forall|i: int|
                0 <= i < frame@.len() ==> out.samples@[i] as int == process_sample_spec(
                    frame@[i] as int,
                    out.gain_lin as int,
                ),
    {
        let noise_db: i64 = crate::sensor::estimate_noise_db(snap);
        let raw: i64 = self.mapper.compute_raw_gain_db(noise_db);
        let gain_db: i64 = self.smoother.step(raw, now);
        proof {
            crate::units::lemma_db_to_lin_values();
            crate::units::lemma_db_to_lin_mono(gain_db as int, 40_000_000);
            crate::units::lemma_db_to_lin_mono(-40_000_000, gain_db as int);
        }
        let gain_lin: i64 = crate::units::db_to_lin(gain_db);
        let samples: Vec<i16> = crate::limiter::apply_gain_and_limit(frame, gain_lin);
        ProcessedFrame { samples, gain_db, gain_lin }
    }
}

/// The pipeline state after the first `k` frames of an auto-paced run
/// over the mock model, one frame every `dt` micro-seconds starting at
/// `t0`.
#[verifier::opaque]
pub open spec fn auto_state(p: ChunkPipeline, t0: int, dt: int, k: nat) -> ChunkPipeline
    decreases k,
{
    if k == 0 {
        p
    } else {
        let prev = auto_state(p, t0, dt, (k - 1) as nat);
        let now = t0 + dt * (k - 1);
        ChunkPipeline {
            mapper: prev.mapper,
            smoother: Smoother {
                value_db: prev.frame_gain_spec(
                    crate::sensor::mock_snapshot_spec(now),
                    now,
                ) as i64,
                tau_attack: prev.smoother.tau_attack,
                tau_release: prev.smoother.tau_release,
                last_update: now as i64,
            },
        }
    }
}

/// A run of zero frames leaves the pipeline untouched.
pub proof fn lemma_auto_state_zero(p: ChunkPipeline, t0: int, dt: int)
    ensures
        auto_state(p, t0, dt, 0) == p,
{
    reveal(auto_state);
}

/// One more frame advances the state by exactly one smoothing step
/// against the mock snapshot of its moment.
pub proof fn lemma_auto_state_step(p: ChunkPipeline, t0: int, dt: int, k: nat)
    ensures
        auto_state(p, t0, dt, k + 1) == (ChunkPipeline {
            mapper: auto_state(p, t0, dt, k).mapper,
            smoother: Smoother {
                value_db: auto_state(p, t0, dt, k).frame_gain_spec(
                    crate::sensor::mock_snapshot_spec(t0 + dt * k),
                    t0 + dt * k,
                ) as i64,
                tau_attack: auto_state(p, t0, dt, k).smoother.tau_attack,
                tau_release: auto_state(p, t0, dt, k).smoother.tau_release,
                last_update: (t0 + dt * k) as i64,
            },
        }),
{
    reveal(auto_state);
}

/// The linear gain that frame `k` of an auto-paced run applies to its
/// samples.
#[verifier::opaque]
pub open spec fn auto_gain_lin(p: ChunkPipeline, t0: int, dt: int, k: nat) -> int {
    db_to_lin_spec(auto_state(p, t0, dt, (k + 1) as nat).smoother.value_db as int)
}

/// The gain of frame `k` is the conversion of the state it leaves
/// behind.
pub proof fn lemma_auto_gain_lin_is(p: ChunkPipeline, t0: int, dt: int, k: nat)
    ensures
        auto_gain_lin(p, t0, dt, k) == db_to_lin_spec(
            auto_state(p, t0, dt, (k + 1) as nat).smoother.value_db as int,
        ),
{
    reveal(auto_gain_lin);
}

impl ChunkPipeline {
    /// Process a whole buffer against the deterministic mock model:
    /// frame `k` covers `chunk_len` samples, reads the mock sensors at
    /// `t0 + k * dt`, and applies the gain the smoother settles on.
    /// Pacing the emission of the frames is the caller's concern.
    #[verifier::rlimit(100)]
    pub fn run_auto(&mut self, samples: &Vec<i16>, chunk_len: usize, t0: i64, dt: i64) -> (out:
        Vec<i16>)
        requires
            old(self).wf(),
            1 <= chunk_len,
            0 <= t0,
            1 <= dt,
            t0 + dt * samples@.len() <= DT_MAX,
        ensures
            final(self).wf(),
            out@.len() == samples@.len(),
            forall|i: int|
                0 <= i < samples@.len() ==> out@[i] as int == process_sample_spec(
                    samples@[i] as int,
                    auto_gain_lin(
                        *old(self),
                        t0 as int,
                        dt as int,
                        (i / (chunk_len as int)) as nat,
                    ),
                ),
    {
        let ghost p0 = *self;
        let ghost t0g = t0 as int;
        let ghost dtg = dt as int;
        proof {
            lemma_auto_state_zero(p0, t0g, dtg);
        }
        let n: usize = samples.len();
        let mut out: Vec<i16> = Vec::new();
        let mut pos: usize = 0;
        let mut k: usize = 0;
        while pos < n
            invariant
                self.wf(),
                *self == auto_state(p0, t0g, dtg, k as nat),
                n == samples@.len(),
                1 <= chunk_len,
                0 <= t0,
                1 <= dt,
                t0 + dt * n <= DT_MAX,
                t0g == t0 as int,
                dtg == dt as int,
                pos as int == (if (k as int) * (chunk_len as int) <= n as int {
                    (k as int) * (chunk_len as int)
                } else {
                    n as int
                }),
                pos <= n,
                out@.len() == pos as int,
                forall|i: int|
                    0 <= i < out@.len() ==> out@[i] as int == process_sample_spec(
                        samples@[i] as int,
                        auto_gain_lin(p0, t0g, dtg, (i / (chunk_len as int)) as nat),
                    ),
            decreases n - pos,
        {
            proof {
                assert(k < n) by {
                    vstd::arithmetic::mul::lemma_mul_inequality(1, chunk_len as int, k as int);
                    vstd::arithmetic::mul::lemma_mul_is_commutative(k as int, chunk_len as int);
                }
                assert(dt * k <= dt * n) by {
                    vstd::arithmetic::mul::lemma_mul_left_inequality(
                        dtg + 1, k as int, n as int);
                    vstd::arithmetic::mul::lemma_mul_inequality(k as int, n as int, dtg);
                    vstd::arithmetic::mul::lemma_mul_is_commutative(k as int, dtg);
                    vstd::arithmetic::mul::lemma_mul_is_commutative(n as int, dtg);
                }
                assert(0 <= dt * k) by {
                    vstd::arithmetic::mul::lemma_mul_inequality(0, k as int, dtg);
                    vstd::arithmetic::mul::lemma_mul_is_commutative(k as int, dtg);
                }
                assert(n as int <= dt * n) by {
                    vstd::arithmetic::mul::lemma_mul_inequality(1, dtg, n as int);
                    vstd::arithmetic::mul::lemma_mul_basics(n as int);
                    vstd::arithmetic::mul::lemma_mul_is_commutative(n as int, dtg);
                }
            }
            let now: i64 = t0 + dt * (k as i64);
            let end: usize = if n - pos > chunk_len {
                pos + chunk_len
            } else {
                n
            };
            let mut frame: Vec<i16> = Vec::new();
            let mut j: usize = pos;
            while j < end
                invariant
                    pos <= j <= end <= n,
                    n == samples@.len(),
                    frame@ == samples@.subrange(pos as int, j as int),
                decreases end - j,
            {
                frame.push(samples[j]);
                proof {
                    assert(samples@.subrange(pos as int, j as int + 1)
                        =~= samples@.subrange(pos as int, j as int).push(samples@[j as int]));
                }
                j = j + 1;
            }
            let snap: crate::sensor::SensorSnapshot = crate::sensor::mock_snapshot(now);
            let ghost pre = *self;
            let mut processed: ProcessedFrame = self.process_frame(&frame, &snap, now);
            proof {
                // the state recursion advances by exactly this frame
                lemma_auto_state_step(p0, t0g, dtg, k as nat);
                assert(*self == auto_state(p0, t0g, dtg, (k + 1) as nat));
                lemma_auto_gain_lin_is(p0, t0g, dtg, k as nat);
                assert(processed.gain_lin as int == auto_gain_lin(p0, t0g, dtg, k as nat));
            }
            let ghost out_before = out@;
            out.append(&mut processed.samples);
            proof {
                // every index of this frame divides down to frame number k
                assert forall|i: int| pos <= i < end implies #[trigger] (i / (chunk_len
                    as int)) == k as int by {
                    vstd::arithmetic::div_mod::lemma_fundamental_div_mod_converse_div(
                        i, chunk_len as int, k as int, i - (k as int) * (chunk_len as int));
                }
            }
            proof {
                assert((k as int + 1) * (chunk_len as int) == (k as int) * (chunk_len as int)
                    + chunk_len as int) by {
                    vstd::arithmetic::mul::lemma_mul_is_distributive_add_other_way(
                        chunk_len as int, k as int, 1);
                    vstd::arithmetic::mul::lemma_mul_is_commutative(
                        k as int + 1, chunk_len as int);
                    vstd::arithmetic::mul::lemma_mul_is_commutative(k as int, chunk_len as int);
                    vstd::arithmetic::mul::lemma_mul_basics(chunk_len as int);
                }
            }
            pos = end;
            k = k + 1;
        }
        out
    }
}

} // verus!
