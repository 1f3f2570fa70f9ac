//! Keeping a client's clock in step with the server: the state of the estimate, its calibration, and
//! when it is measured, locked, restored and reset.
//!
//! Offsets and variances are of a type `T` that the library carries and never computes with.
use vstd::prelude::*;
use crate::text;
use crate::page::is_switched_on;
use crate::text::str_eq;

verus! {

/// How many probes are sent in parallel per measurement; the one with the shortest round trip counts.
pub const PROBES_PER_ROUND: usize = 3;

/// Milliseconds between two ticks of the estimate.
pub const TICK_INTERVAL_MS: u32 = 1000;

/// Keys under which the calibration is stored.
pub const CLOCK_OFFSET_KEY: &'static str = "arctos_stones_clock_offset_ms";
pub const AUDIO_DELAY_KEY: &'static str = "arctos_stones_audio_delay_ms";
pub const OFFSET_LOCKED_KEY: &'static str = "arctos_stones_offset_locked";

/// The estimate of the clock offset: its mean and variance, the noise that each tick adds, and how
/// many measurements were rejected.
#[derive(Clone, Copy, Debug, PartialEq)]
pub struct BayesianOffsetFilter<T> {
    pub mean_ms: T,
    pub variance_ms2: T,
    pub process_noise_ms2: T,
    pub rejected_count: u32,
}

/// The values that the estimate starts from and is held at.
#[derive(Clone, Copy, Debug, PartialEq)]
pub struct SyncLevels<T> {
    pub zero: T,
    /// Variance of an estimate that knows nothing yet.
    pub initial_variance: T,
    /// Variance below which an estimate has converged.
    pub converged_variance: T,
    /// Variance that a locked estimate is held at.
    pub locked_variance: T,
    pub process_noise: T,
}

/// What a measurement does to the estimate.
#[derive(Clone, Copy, Debug, PartialEq)]
pub enum Observation<T> {
    /// Too far off to be believed.
    Rejected,
    /// Folded in: the new mean and variance.
    Accepted { mean_ms: T, variance_ms2: T },
}

impl<T: Copy> BayesianOffsetFilter<T> {
    /// An estimate that knows nothing yet.
    pub fn new(levels: &SyncLevels<T>) -> (r: Self)
        ensures
            r.mean_ms == levels.zero,
            r.variance_ms2 == levels.initial_variance,
            r.process_noise_ms2 == levels.process_noise,
            r.rejected_count == 0,
    {
        BayesianOffsetFilter {
            mean_ms: levels.zero,
            variance_ms2: levels.initial_variance,
            process_noise_ms2: levels.process_noise,
            rejected_count: 0,
        }
    }

    /// One tick: the variance grows to the given one.
    pub fn predict(&mut self, grown_variance: T)
        ensures
            *final(self) == (BayesianOffsetFilter { variance_ms2: grown_variance, ..*old(self) }),
    {
        self.variance_ms2 = grown_variance;
    }

    /// One measurement; the mean after it. A rejected one is counted and changes nothing else.
    pub fn observe(&mut self, outcome: Observation<T>) -> (r: T)
        requires
            old(self).rejected_count < u32::MAX,
        ensures
            r == final(self).mean_ms,
            match outcome {
                Observation::Rejected => *final(self) == (BayesianOffsetFilter {
                    rejected_count: (old(self).rejected_count + 1) as u32,
                    ..*old(self)
                }),
                Observation::Accepted { mean_ms, variance_ms2 } => *final(self) == (
                BayesianOffsetFilter { mean_ms, variance_ms2, ..*old(self) }),
            },
    {
        match outcome {
            Observation::Rejected => {
                self.rejected_count = self.rejected_count + 1;
            },
            Observation::Accepted { mean_ms, variance_ms2 } => {
                self.mean_ms = mean_ms;
                self.variance_ms2 = variance_ms2;
            },
        }
        self.mean_ms
    }

    /// Mean of the estimate.
    pub fn get_mean_ms(&self) -> (r: T)
        ensures
            r == self.mean_ms,
    {
        self.mean_ms
    }

    /// Variance of the estimate.
    pub fn get_variance_ms2(&self) -> (r: T)
        ensures
            r == self.variance_ms2,
    {
        self.variance_ms2
    }

    /// Forget everything that was measured; the noise stays.
    pub fn reset(&mut self, levels: &SyncLevels<T>)
        ensures
            *final(self) == forgotten(*old(self), *levels),
    {
        self.mean_ms = levels.zero;
        self.variance_ms2 = levels.initial_variance;
        self.rejected_count = 0;
    }
}

/// An estimate with everything that was measured forgotten.
pub open spec fn forgotten<T>(f: BayesianOffsetFilter<T>, levels: SyncLevels<T>) -> BayesianOffsetFilter<T> {
    BayesianOffsetFilter {
        mean_ms: levels.zero,
        variance_ms2: levels.initial_variance,
        process_noise_ms2: f.process_noise_ms2,
        rejected_count: 0,
    }
}

/// An estimate held at an offset.
pub open spec fn held<T>(f: BayesianOffsetFilter<T>, offset: T, levels: SyncLevels<T>) -> BayesianOffsetFilter<T> {
    BayesianOffsetFilter { mean_ms: offset, variance_ms2: levels.locked_variance, ..f }
}

// ---------------------------------------------------------------------------
// Probes
// ---------------------------------------------------------------------------

/// One round trip to the server, in seconds: when it was sent and received, and what the server's
/// clock said.
#[derive(Clone, Copy, Debug, PartialEq)]
pub struct Probe<T> {
    pub client_send_secs: T,
    pub client_receive_secs: T,
    pub server_time_secs: T,
}

/// The position of the least of some numbers; of several, the first.
pub open spec fn least(keys: Seq<i64>) -> Option<int>
    decreases keys.len(),
{
    if keys.len() == 0 {
        None
    } else {
        match least(keys.drop_last()) {
            Some(i) => if keys.last() < keys[i] {
                Some(keys.len() - 1)
            } else {
                Some(i)
            },
            None => Some(0),
        }
    }
}

/// Nothing is less than the least, and everything before it is greater.
pub proof fn law_least(keys: Seq<i64>)
    requires
        keys.len() > 0,
    ensures
        least(keys) matches Some(i) && 0 <= i < keys.len() && (forall|j: int|
            0 <= j < keys.len() ==> keys[i] <= #[trigger] keys[j]) && (forall|j: int|
            0 <= j < i ==> keys[i] < #[trigger] keys[j]),
    decreases keys.len(),
{
    let shorter = keys.drop_last();
    if shorter.len() > 0 {
        law_least(shorter);
        let i = least(shorter)->0;
        let k = least(keys)->0;
        assert forall|j: int| 0 <= j < keys.len() implies keys[k] <= #[trigger] keys[j] by {
            if j < shorter.len() {
                assert(shorter[i] <= shorter[j]);
            }
        }
        assert forall|j: int| 0 <= j < k implies keys[k] < #[trigger] keys[j] by {
            assert(shorter[i] <= shorter[j]);
            if k == i {
                assert(shorter[i] < shorter[j]);
            }
        }
    }
}

/// The sample with the shortest round trip; of several, the first. `rtt_keys` orders the samples as
/// their round trips do.
pub fn pick_lowest_rtt<T: Copy>(samples: &[Probe<T>], rtt_keys: &[i64]) -> (r: Option<Probe<T>>)
    requires
        samples@.len() == rtt_keys@.len(),
    ensures
        match least(rtt_keys@) {
            Some(i) => r == Some(samples@[i]),
            None => r is None,
        },
{
    let mut best: Option<usize> = None;
    let mut i: usize = 0;
    assert(rtt_keys@.take(0) =~= Seq::<i64>::empty());
    while i < rtt_keys.len()
        invariant
            i <= rtt_keys@.len(),
            match least(rtt_keys@.take(i as int)) {
                Some(k) => best is Some && best->0 == k && 0 <= k < i,
                None => best is None && i == 0,
            },
            best matches Some(b) ==> b < i,
        decreases rtt_keys@.len() - i,
    {
        assert(rtt_keys@.take(i + 1).drop_last() =~= rtt_keys@.take(i as int));
        best = match best {
            Some(b) => if rtt_keys[i] < rtt_keys[b] {
                Some(i)
            } else {
                Some(b)
            },
            None => Some(i),
        };
        i = i + 1;
    }
    assert(rtt_keys@.take(i as int) =~= rtt_keys@);
    match best {
        Some(b) => Some(samples[b]),
        None => None,
    }
}

// ---------------------------------------------------------------------------
// Calibration
// ---------------------------------------------------------------------------

/// What is set by hand: the delay of the audio, and whether the offset is locked and at what.
#[derive(Clone, Copy, Debug, PartialEq)]
pub struct Calibration<T> {
    pub audio_delay_ms: T,
    pub offset_locked: bool,
    pub locked_offset_ms: T,
}

/// The quality of the estimate.
#[derive(Clone, Copy, Debug, PartialEq)]
pub struct SyncQuality<T> {
    pub offset_ms: T,
    pub variance_ms2: T,
    pub rtt_ms: Option<T>,
    pub converged: bool,
}

/// What is needed to take back a calibration that was cancelled.
#[derive(Clone, Copy, Debug, PartialEq)]
pub struct SyncSnapshot<T> {
    pub calibration: Calibration<T>,
    pub mean_ms: T,
    pub variance_ms2: T,
}

/// The synchronisation of a client: estimate, calibration, and the last round trip.
#[derive(Clone, Copy, Debug, PartialEq)]
pub struct TimeSync<T> {
    pub filter: BayesianOffsetFilter<T>,
    pub calibration: Calibration<T>,
    pub last_rtt_ms: Option<T>,
}

/// The calibration that stored values stand for.
pub open spec fn loaded<T>(audio: Option<T>, locked: Option<Seq<char>>, offset: Option<T>, zero: T) -> Calibration<T> {
    let is_locked = locked matches Some(v) && (v == "1"@ || text::same_ignoring_ascii_case(v, "true"@));
    Calibration {
        audio_delay_ms: match audio {
            Some(a) => a,
            None => zero,
        },
        offset_locked: is_locked,
        locked_offset_ms: if is_locked {
            match offset {
                Some(o) => o,
                None => zero,
            }
        } else {
            zero
        },
    }
}

/// The calibration that stored values stand for: what cannot be read is zero, and an offset counts
/// only where it is locked.
pub fn load_calibration<T: Copy>(audio: Option<T>, locked: Option<&str>, offset: Option<T>, zero: T) -> (r: Calibration<T>)
    ensures
        r == loaded(audio, text::opt_slice(locked), offset, zero),
{
    let offset_locked = is_switched_on(locked);
    Calibration {
        audio_delay_ms: match audio {
            Some(a) => a,
            None => zero,
        },
        offset_locked,
        locked_offset_ms: if offset_locked {
            match offset {
                Some(o) => o,
                None => zero,
            }
        } else {
            zero
        },
    }
}

/// How a lock is stored.
pub fn stored_lock(offset_locked: bool) -> (r: &'static str)
    ensures
        r@ == lock_text(offset_locked),
{
    if offset_locked {
        "1"
    } else {
        "0"
    }
}

/// How a lock is stored.
pub open spec fn lock_text(offset_locked: bool) -> Seq<char> {
    if offset_locked {
        "1"@
    } else {
        "0"@
    }
}

/// A calibration that was stored is loaded again as it was; of one that is not locked, without its
/// offset.
pub proof fn law_stored_calibration_is_loaded<T>(c: Calibration<T>, zero: T)
    ensures
        c.offset_locked ==> loaded(
            Some(c.audio_delay_ms),
            Some(lock_text(c.offset_locked)),
            Some(c.locked_offset_ms),
            zero,
        ) == c,
        !c.offset_locked ==> loaded(
            Some(c.audio_delay_ms),
            Some(lock_text(c.offset_locked)),
            Some(c.locked_offset_ms),
            zero,
        ) == (Calibration { locked_offset_ms: zero, ..c }),
{
    reveal_strlit("0");
    reveal_strlit("1");
    reveal_strlit("true");
    assert("0"@[0] != "1"@[0]);
    assert("0"@.len() != "true"@.len());
}

/// Whether a change of storage concerns the calibration; one that clears everything does.
pub fn touches_calibration(key: Option<&str>) -> (r: bool)
    ensures
        r == (match text::opt_slice(key) {
            Some(k) => k == CLOCK_OFFSET_KEY@ || k == AUDIO_DELAY_KEY@ || k == OFFSET_LOCKED_KEY@,
            None => true,
        }),
{
    match key {
        Some(k) => str_eq(k, CLOCK_OFFSET_KEY) || str_eq(k, AUDIO_DELAY_KEY) || str_eq(
            k,
            OFFSET_LOCKED_KEY,
        ),
        None => true,
    }
}

impl<T: Copy> TimeSync<T> {
    /// The synchronisation that a page starts with: a locked offset is taken up at once.
    pub fn new(calibration: Calibration<T>, levels: &SyncLevels<T>) -> (r: Self)
        ensures
            r.calibration == calibration,
            r.last_rtt_ms is None,
            r.filter.process_noise_ms2 == levels.process_noise,
            r.filter.rejected_count == 0,
            calibration.offset_locked ==> r.filter.mean_ms == calibration.locked_offset_ms
                && r.filter.variance_ms2 == levels.locked_variance,
            !calibration.offset_locked ==> r.filter.mean_ms == levels.zero && r.filter.variance_ms2
                == levels.initial_variance,
    {
        let mut filter = BayesianOffsetFilter::new(levels);
        if calibration.offset_locked {
            filter.mean_ms = calibration.locked_offset_ms;
            filter.variance_ms2 = levels.locked_variance;
        }
        TimeSync { filter, calibration, last_rtt_ms: None }
    }

    /// Quality of the estimate; `converged` says whether its variance is below the level for that.
    pub fn quality(&self, converged: bool) -> (r: SyncQuality<T>)
        ensures
            r.offset_ms == self.filter.mean_ms,
            r.variance_ms2 == self.filter.variance_ms2,
            r.rtt_ms == self.last_rtt_ms,
            r.converged == converged,
    {
        SyncQuality {
            offset_ms: self.filter.mean_ms,
            variance_ms2: self.filter.variance_ms2,
            rtt_ms: self.last_rtt_ms,
            converged,
        }
    }

    /// What is set by hand.
    pub fn calibration(&self) -> (r: Calibration<T>)
        ensures
            r == self.calibration,
    {
        self.calibration
    }

    /// What is needed to come back to where it is now.
    pub fn snapshot(&self) -> (r: SyncSnapshot<T>)
        ensures
            r == snapshot_of(*self),
    {
        SyncSnapshot {
            calibration: self.calibration,
            mean_ms: self.filter.mean_ms,
            variance_ms2: self.filter.variance_ms2,
        }
    }

    /// Come back to where a snapshot was taken.
    pub fn restore_snapshot(&mut self, snap: SyncSnapshot<T>)
        ensures
            *final(self) == restored(*old(self), snap),
    {
        self.calibration = snap.calibration;
        self.filter.mean_ms = snap.mean_ms;
        self.filter.variance_ms2 = snap.variance_ms2;
    }

    /// Set the offset by hand, which locks it.
    pub fn set_offset_ms(&mut self, value: T, levels: &SyncLevels<T>)
        ensures
            *final(self) == offset_set(*old(self), value, *levels),
    {
        self.filter.mean_ms = value;
        self.filter.variance_ms2 = levels.locked_variance;
        self.calibration.offset_locked = true;
        self.calibration.locked_offset_ms = value;
    }

    /// Lock the offset where it is, or unlock it. Unlocked, an estimate that has converged is widened
    /// to the level at which measuring goes on; `converged` says whether it has.
    pub fn set_offset_locked(&mut self, locked: bool, converged: bool, levels: &SyncLevels<T>)
        ensures
            *final(self) == (if locked {
                offset_set(*old(self), old(self).filter.mean_ms, *levels)
            } else {
                unlocked(*old(self), converged, *levels)
            }),
    {
        if locked {
            let mean = self.filter.mean_ms;
            self.filter.variance_ms2 = levels.locked_variance;
            self.calibration.offset_locked = true;
            self.calibration.locked_offset_ms = mean;
        } else {
            self.calibration.offset_locked = false;
            if converged {
                self.filter.variance_ms2 = levels.converged_variance;
            }
        }
    }

    /// Set the delay of the audio.
    pub fn set_audio_delay_ms(&mut self, value: T)
        ensures
            *final(self) == (TimeSync {
                calibration: Calibration { audio_delay_ms: value, ..old(self).calibration },
                ..*old(self)
            }),
    {
        self.calibration.audio_delay_ms = value;
    }

    /// Unlock, set everything by hand to zero, and forget the estimate.
    pub fn reset_sync(&mut self, levels: &SyncLevels<T>)
        ensures
            *final(self) == (TimeSync {
                filter: forgotten(old(self).filter, *levels),
                calibration: Calibration {
                    audio_delay_ms: levels.zero,
                    offset_locked: false,
                    locked_offset_ms: levels.zero,
                },
                ..*old(self)
            }),
    {
        self.calibration.offset_locked = false;
        self.calibration.locked_offset_ms = levels.zero;
        self.calibration.audio_delay_ms = levels.zero;
        self.filter.reset(levels);
    }

    /// Unlock and forget the estimate, to measure anew; the delay of the audio stays.
    pub fn begin_clock_calibration(&mut self, levels: &SyncLevels<T>)
        ensures
            *final(self) == (TimeSync {
                filter: forgotten(old(self).filter, *levels),
                calibration: Calibration { offset_locked: false, ..old(self).calibration },
                ..*old(self)
            }),
    {
        self.calibration.offset_locked = false;
        self.filter.reset(levels);
    }

    /// A tick of the estimate: whether it counts. A locked one stands still; any other grows to the
    /// given variance.
    pub fn tick(&mut self, grown_variance: T) -> (r: bool)
        ensures
            r == !old(self).calibration.offset_locked,
            *final(self) == (if r {
                TimeSync {
                    filter: BayesianOffsetFilter { variance_ms2: grown_variance, ..old(self).filter },
                    ..*old(self)
                }
            } else {
                *old(self)
            }),
    {
        if self.calibration.offset_locked {
            return false;
        }
        self.filter.predict(grown_variance);
        true
    }

    /// A measurement came back: fold it in, and remember its round trip.
    pub fn measured(&mut self, outcome: Observation<T>, rtt_ms: T)
        requires
            old(self).filter.rejected_count < u32::MAX,
        ensures
            final(self).last_rtt_ms == Some(rtt_ms),
            final(self).calibration == old(self).calibration,
            match outcome {
                Observation::Rejected => final(self).filter == (BayesianOffsetFilter {
                    rejected_count: (old(self).filter.rejected_count + 1) as u32,
                    ..old(self).filter
                }),
                Observation::Accepted { mean_ms, variance_ms2 } => final(self).filter == (
                BayesianOffsetFilter { mean_ms, variance_ms2, ..old(self).filter }),
            },
    {
        let _ = self.filter.observe(outcome);
        self.last_rtt_ms = Some(rtt_ms);
    }

    /// Another page changed the stored calibration: a locked offset is taken up; one that was locked
    /// and is no longer is measured anew.
    pub fn storage_changed(&mut self, calibration: Calibration<T>, levels: &SyncLevels<T>)
        ensures
            final(self).calibration == calibration,
            final(self).last_rtt_ms == old(self).last_rtt_ms,
            final(self).filter == (if calibration.offset_locked {
                held(old(self).filter, calibration.locked_offset_ms, *levels)
            } else if old(self).calibration.offset_locked {
                forgotten(old(self).filter, *levels)
            } else {
                old(self).filter
            }),
    {
        let was_locked = self.calibration.offset_locked;
        self.calibration = calibration;
        if calibration.offset_locked {
            self.filter.mean_ms = calibration.locked_offset_ms;
            self.filter.variance_ms2 = levels.locked_variance;
        } else if was_locked {
            self.filter.reset(levels);
        }
    }
}

/// The snapshot of a synchronisation.
pub open spec fn snapshot_of<T>(s: TimeSync<T>) -> SyncSnapshot<T> {
    SyncSnapshot {
        calibration: s.calibration,
        mean_ms: s.filter.mean_ms,
        variance_ms2: s.filter.variance_ms2,
    }
}

/// A synchronisation brought back to a snapshot.
pub open spec fn restored<T>(s: TimeSync<T>, snap: SyncSnapshot<T>) -> TimeSync<T> {
    TimeSync {
        filter: BayesianOffsetFilter {
            mean_ms: snap.mean_ms,
            variance_ms2: snap.variance_ms2,
            ..s.filter
        },
        calibration: snap.calibration,
        last_rtt_ms: s.last_rtt_ms,
    }
}

/// A synchronisation with its offset set and locked.
pub open spec fn offset_set<T>(s: TimeSync<T>, value: T, levels: SyncLevels<T>) -> TimeSync<T> {
    TimeSync {
        filter: held(s.filter, value, levels),
        calibration: Calibration { offset_locked: true, locked_offset_ms: value, ..s.calibration },
        last_rtt_ms: s.last_rtt_ms,
    }
}

/// A synchronisation that is unlocked.
pub open spec fn unlocked<T>(s: TimeSync<T>, converged: bool, levels: SyncLevels<T>) -> TimeSync<T> {
    TimeSync {
        filter: if converged {
            BayesianOffsetFilter { variance_ms2: levels.converged_variance, ..s.filter }
        } else {
            s.filter
        },
        calibration: Calibration { offset_locked: false, ..s.calibration },
        last_rtt_ms: s.last_rtt_ms,
    }
}

/// Whatever a walk through the calibration did, restoring the snapshot from before brings back what
/// was set by hand, the offset and the variance.
pub proof fn law_restore_takes_back<T>(before: TimeSync<T>, after: TimeSync<T>)
    ensures
        restored(after, snapshot_of(before)).calibration == before.calibration,
        restored(after, snapshot_of(before)).filter.mean_ms == before.filter.mean_ms,
        restored(after, snapshot_of(before)).filter.variance_ms2 == before.filter.variance_ms2,
        restored(before, snapshot_of(before)) == before,
{
}

/// Unlocking goes on from the offset that was locked.
pub proof fn law_unlocking_keeps_the_offset<T>(s: TimeSync<T>, value: T, converged: bool, levels: SyncLevels<T>)
    ensures
        unlocked(offset_set(s, value, levels), converged, levels).filter.mean_ms == value,
        !unlocked(offset_set(s, value, levels), converged, levels).calibration.offset_locked,
{
}

/// A page that loads a locked calibration has the offset that the page had which stored it.
pub proof fn law_locked_offset_is_shared<T>(a: TimeSync<T>, b: TimeSync<T>, value: T, levels: SyncLevels<T>)
    ensures
        ({
            let set = offset_set(a, value, levels);
            held(b.filter, set.calibration.locked_offset_ms, levels).mean_ms == set.filter.mean_ms
        }),
{
}

/// Setting an offset locks it there: the estimate stands at it, the delay of the audio and what was
/// counted stay.
pub proof fn law_set_offset_is_locked<T>(s: TimeSync<T>, value: T, levels: SyncLevels<T>)
    ensures
        ({
            let r = offset_set(s, value, levels);
            &&& r.calibration.offset_locked && r.calibration.locked_offset_ms == value
            &&& r.filter.mean_ms == value && r.filter.variance_ms2 == levels.locked_variance
            &&& r.calibration.audio_delay_ms == s.calibration.audio_delay_ms
            &&& r.filter.rejected_count == s.filter.rejected_count && r.filter.process_noise_ms2
                == s.filter.process_noise_ms2
            &&& r.last_rtt_ms == s.last_rtt_ms
        }),
{
}

/// Unlocking changes the lock, and of an estimate that has converged the variance; nothing else.
pub proof fn law_unlocking_changes_the_lock<T>(s: TimeSync<T>, converged: bool, levels: SyncLevels<T>)
    ensures
        ({
            let r = unlocked(s, converged, levels);
            &&& !r.calibration.offset_locked
            &&& r.calibration.audio_delay_ms == s.calibration.audio_delay_ms && r.calibration.locked_offset_ms
                == s.calibration.locked_offset_ms
            &&& r.filter.mean_ms == s.filter.mean_ms && r.filter.rejected_count == s.filter.rejected_count
            &&& r.filter.variance_ms2 == (if converged {
                levels.converged_variance
            } else {
                s.filter.variance_ms2
            })
            &&& r.last_rtt_ms == s.last_rtt_ms
        }),
{
}

/// What is forgotten is all that was measured, and forgetting twice is forgetting once; what is held
/// stands at its offset.
pub proof fn law_forgetting_starts_anew<T>(f: BayesianOffsetFilter<T>, offset: T, levels: SyncLevels<T>)
    ensures
        forgotten(f, levels).mean_ms == levels.zero && forgotten(f, levels).variance_ms2 == levels.initial_variance
            && forgotten(f, levels).rejected_count == 0 && forgotten(f, levels).process_noise_ms2 == f.process_noise_ms2,
        forgotten(forgotten(f, levels), levels) == forgotten(f, levels),
        held(f, offset, levels).mean_ms == offset && held(f, offset, levels).variance_ms2 == levels.locked_variance,
        held(f, offset, levels).rejected_count == f.rejected_count && held(f, offset, levels).process_noise_ms2
            == f.process_noise_ms2,
{
}

} // verus!
