//! Sensor snapshots and the sources that produce them.
//!
//! A `SensorSnapshot` is replaced wholesale at each update and read
//! without blocking by the control path.  A `SensorSource` produces
//! snapshots from simulated time, from the outcome of a remote poll,
//! or from a measured audio block; when a remote poll fails or carries
//! nothing usable, the previous snapshot stays valid and is only
//! marked as a fallback ("last known good").

use vstd::prelude::*;

verus! {

use crate::estimator::rms_to_db_spec;
use crate::estimator::SPEED_MAX;
use crate::estimator::BLOCK_MAX;
use crate::mapper::noise_estimate_spec;
use crate::mapper::MAPPER_DB_LIMIT;

/// One set of ambient readings, replaced wholesale at each update.
#[derive(Clone, Copy, PartialEq, Eq, Structural, Debug)]
pub struct SensorSnapshot {
    /// Measured or simulated cabin noise, micro-dB.
    pub cabin_noise_db: i64,
    /// Vehicle speed, micro-km/h.
    pub speed_kmh: i64,
    /// Clock reading when the snapshot was taken, micro-seconds.
    pub captured_at: i64,
    /// Whether this snapshot repeats the last known good readings
    /// because a fresh update could not be obtained.
    pub is_fallback: bool,
}

impl SensorSnapshot {
    /// Well-formed snapshot.
    pub open spec fn wf(&self) -> bool {
        &&& -MAPPER_DB_LIMIT <= self.cabin_noise_db <= MAPPER_DB_LIMIT
        &&& 0 <= self.speed_kmh <= SPEED_MAX
        &&& 0 <= self.captured_at
    }

    /// A quiet-standstill snapshot to start from.
    pub fn initial() -> (s: SensorSnapshot)
        ensures
            s.wf(),
            s.cabin_noise_db == 60_000_000,
            s.speed_kmh == 0,
            s.captured_at == 0,
            !s.is_fallback,
    {
        SensorSnapshot { cabin_noise_db: 60_000_000, speed_kmh: 0, captured_at: 0, is_fallback: false }
    }
}

/// One decoded remote payload: either field may be missing.
#[derive(Clone, Copy, Debug)]
pub struct SensorReading {
    /// Cabin noise in micro-dB, if the payload carried one.
    pub cabin_db: Option<i64>,
    /// Vehicle speed in micro-km/h, if the payload carried one.
    pub speed_kmh: Option<i64>,
}

/// A cabin figure a payload may contribute.
pub open spec fn usable_cabin(c: Option<i64>) -> bool {
    c is Some && -MAPPER_DB_LIMIT <= c->0 <= MAPPER_DB_LIMIT
}

/// A speed figure a payload may contribute.
pub open spec fn usable_speed(v: Option<i64>) -> bool {
    v is Some && 0 <= v->0 <= SPEED_MAX
}

/// What one remote poll outcome makes of the previous snapshot: fresh
/// fields replace old ones; a failed poll, or one without a single
/// usable field, keeps every reading and only sets the fallback mark.
pub open spec fn remote_update_spec(
    prev: SensorSnapshot,
    reading: Option<SensorReading>,
    now: int,
) -> SensorSnapshot {
    match reading {
        Option::None => SensorSnapshot { is_fallback: true, ..prev },
        Option::Some(rd) => {
            if !usable_cabin(rd.cabin_db) && !usable_speed(rd.speed_kmh) {
                SensorSnapshot { is_fallback: true, ..prev }
            } else {
                SensorSnapshot {
                    cabin_noise_db: if usable_cabin(rd.cabin_db) {
                        rd.cabin_db->0
                    } else {
                        prev.cabin_noise_db
                    },
                    speed_kmh: if usable_speed(rd.speed_kmh) {
                        rd.speed_kmh->0
                    } else {
                        prev.speed_kmh
                    },
                    captured_at: now as i64,
                    is_fallback: false,
                }
            }
        },
    }
}

/// Fold one remote poll outcome into the previous snapshot.  A failed
/// poll never fails the caller: the previous readings stay valid and
/// the result is only marked as a fallback.
pub fn apply_remote_reading(
    prev: &SensorSnapshot,
    reading: Option<SensorReading>,
    now: i64,
) -> (s: SensorSnapshot)
    requires
        prev.wf(),
        0 <= now,
    ensures
        s == remote_update_spec(*prev, reading, now as int),
        s.wf(),
        reading is None ==> s.cabin_noise_db == prev.cabin_noise_db && s.speed_kmh
            == prev.speed_kmh && s.captured_at == prev.captured_at && s.is_fallback,
{
    match reading {
        Option::None => SensorSnapshot { is_fallback: true, ..*prev },
        Option::Some(rd) => {
            let cabin_ok: bool = match rd.cabin_db {
                Option::Some(c) => -MAPPER_DB_LIMIT <= c && c <= MAPPER_DB_LIMIT,
                Option::None => false,
            };
            let speed_ok: bool = match rd.speed_kmh {
                Option::Some(v) => 0 <= v && v <= SPEED_MAX,
                Option::None => false,
            };
            if !cabin_ok && !speed_ok {
                SensorSnapshot { is_fallback: true, ..*prev }
            } else {
                let cabin: i64 = if cabin_ok {
                    rd.cabin_db.unwrap()
                } else {
                    prev.cabin_noise_db
                };
                let speed: i64 = if speed_ok {
                    rd.speed_kmh.unwrap()
                } else {
                    prev.speed_kmh
                };
                SensorSnapshot {
                    cabin_noise_db: cabin,
                    speed_kmh: speed,
                    captured_at: now,
                    is_fallback: false,
                }
            }
        },
    }
}

/// A failed poll keeps the last known good readings: only the fallback
/// mark changes, never a value the control path consumes.
pub proof fn law_fallback_keeps_readings(prev: SensorSnapshot, now: int)
    ensures
        remote_update_spec(prev, Option::None, now).cabin_noise_db == prev.cabin_noise_db,
        remote_update_spec(prev, Option::None, now).speed_kmh == prev.speed_kmh,
        remote_update_spec(prev, Option::None, now).captured_at == prev.captured_at,
        remote_update_spec(prev, Option::None, now).is_fallback,
{
}

/// The snapshot the deterministic mock model produces at simulated
/// time `t`.
pub open spec fn mock_snapshot_spec(t: int) -> SensorSnapshot {
    SensorSnapshot {
        cabin_noise_db: crate::estimator::mock_cabin_spec(t) as i64,
        speed_kmh: crate::estimator::mock_speed_spec(t) as i64,
        captured_at: t as i64,
        is_fallback: false,
    }
}

/// Take a snapshot of the deterministic mock model at simulated time
/// `t` (micro-seconds).
pub fn mock_snapshot(t: i64) -> (s: SensorSnapshot)
    requires
        0 <= t <= crate::trig::SIN_ARG_MAX,
    ensures
        s == mock_snapshot_spec(t as int),
        s.wf(),
        !s.is_fallback,
{
    SensorSnapshot {
        cabin_noise_db: crate::estimator::mock_get_cabin_noise_db(t),
        speed_kmh: crate::estimator::mock_get_speed_kmh(t),
        captured_at: t,
        is_fallback: false,
    }
}

/// The snapshot a measured audio block produces: the cabin level comes
/// from the block RMS, the speed stays last known.
pub open spec fn local_update_spec(
    prev: SensorSnapshot,
    samples: Seq<i16>,
    now: int,
) -> SensorSnapshot {
    SensorSnapshot {
        cabin_noise_db: rms_to_db_spec(samples) as i64,
        speed_kmh: prev.speed_kmh,
        captured_at: now as i64,
        is_fallback: false,
    }
}

/// Fold one measured audio block into the previous snapshot.
pub fn apply_local_block(prev: &SensorSnapshot, samples: &Vec<i16>, now: i64) -> (s:
    SensorSnapshot)
    requires
        prev.wf(),
        0 <= now,
        samples@.len() <= BLOCK_MAX,
    ensures
        s == local_update_spec(*prev, samples@, now as int),
        s.wf(),
        !s.is_fallback,
{
    let cabin: i64 = crate::estimator::rms_to_db(samples);
    SensorSnapshot {
        cabin_noise_db: cabin,
        speed_kmh: prev.speed_kmh,
        captured_at: now,
        is_fallback: false,
    }
}

/// Where readings come from: a deterministic simulation, a polled
/// remote feed, or a locally measured signal level.  The stateful
/// variants hold the last known good snapshot.
pub enum SensorSource {
    /// Pure function of simulated time; deterministic and restartable.
    MockModel,
    /// Remote feed folded in poll by poll, with last-known-good
    /// fallback.
    RemotePoll { last: SensorSnapshot },
    /// Cabin level measured from audio blocks; the speed keeps its
    /// last known value.
    LocalMeasurement { last: SensorSnapshot },
}

/// One unit of input a source can consume.
pub enum SensorInput {
    /// Simulated time alone advanced.
    Clock,
    /// The outcome of one remote poll, if any payload arrived.
    Remote(Option<SensorReading>),
    /// One measured audio block.
    Level(Vec<i16>),
}

impl SensorSource {
    /// Well-formed source state.
    pub open spec fn wf(&self) -> bool {
        match *self {
            SensorSource::MockModel => true,
            SensorSource::RemotePoll { last } => last.wf(),
            SensorSource::LocalMeasurement { last } => last.wf(),
        }
    }

    /// What one input makes of a source: the snapshot it publishes
    /// next.  Input that a variant cannot consume leaves its state
    /// unchanged and republishes the last known snapshot as fallback.
    pub open spec fn update_spec(&self, input: &SensorInput, now: int) -> SensorSnapshot {
        match *self {
            SensorSource::MockModel => mock_snapshot_spec(now),
            SensorSource::RemotePoll { last } => match input {
                SensorInput::Remote(reading) => remote_update_spec(last, *reading, now),
                _ => SensorSnapshot { is_fallback: true, ..last },
            },
            SensorSource::LocalMeasurement { last } => match input {
                SensorInput::Level(samples) => local_update_spec(last, samples@, now),
                _ => SensorSnapshot { is_fallback: true, ..last },
            },
        }
    }

    /// Consume one input at clock `now` (micro-seconds) and publish the
    /// next snapshot, keeping it as the new last known good state.
    pub fn update(&mut self, input: &SensorInput, now: i64) -> (s: SensorSnapshot)
        requires
            old(self).wf(),
            0 <= now <= crate::trig::SIN_ARG_MAX,
            input matches SensorInput::Level(v) ==> v@.len() <= BLOCK_MAX,
        ensures
            final(self).wf(),
            s == old(self).update_spec(input, now as int),
            s.wf(),
            (*final(self)) matches SensorSource::RemotePoll { last } ==> last == s,
            (*final(self)) matches SensorSource::LocalMeasurement { last } ==> last == s,
            (*old(self)) matches SensorSource::MockModel ==> (*final(self)) matches
                SensorSource::MockModel,
    {
        match self {
            SensorSource::MockModel => mock_snapshot(now),
            SensorSource::RemotePoll { last } => {
                let s: SensorSnapshot = match input {
                    SensorInput::Remote(reading) => apply_remote_reading(last, *reading, now),
                    _ => SensorSnapshot { is_fallback: true, ..*last },
                };
                *last = s;
                s
            },
            SensorSource::LocalMeasurement { last } => {
                let s: SensorSnapshot = match input {
                    SensorInput::Level(samples) => apply_local_block(last, samples, now),
                    _ => SensorSnapshot { is_fallback: true, ..*last },
                };
                *last = s;
                s
            },
        }
    }
}

/// The ambient-noise estimate of a snapshot: the louder of the
/// measured cabin level and the level attributed to road speed.
pub fn estimate_noise_db(snapshot: &SensorSnapshot) -> (r: i64)
    requires
        snapshot.wf(),
    ensures
        r == noise_estimate_spec(snapshot.cabin_noise_db as int, snapshot.speed_kmh as int),
        -MAPPER_DB_LIMIT <= r <= MAPPER_DB_LIMIT,
{
    let speed_noise: i64 = crate::estimator::speed_to_noise(snapshot.speed_kmh);
    if snapshot.cabin_noise_db >= speed_noise {
        snapshot.cabin_noise_db
    } else {
        speed_noise
    }
}

} // verus!
