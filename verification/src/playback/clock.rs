//! The clock of playback.
//!
//! The clock does not look at the time by itself: it is told the time since an
//! arbitrary moment, which has to be the same for one clock.
use crate::binary64::{scale_nanos, scaled_nanos};
use crate::float_bits::Double;
use crate::time::{nat_min, sat_add, sat_sub, Duration};
use vstd::arithmetic::power2::pow2;
use vstd::prelude::*;

verus! {

// ---------------------------------------------------------------------------
// Signed time
// ---------------------------------------------------------------------------

/// A signed time, held between zero and the largest machine number of
/// nanoseconds.
pub open spec fn held_nanos(nanos: int) -> nat {
    if nanos < 0 {
        0
    } else if nanos > u64::MAX {
        u64::MAX as nat
    } else {
        nanos as nat
    }
}

/// The length of a span in nanoseconds, as a signed number.
pub fn duration_to_nanos(duration: Duration) -> (result: i128)
    ensures
        result == duration@,
        0 <= result <= 18_446_744_073_709_551_615_999_999_999,
{
    duration.as_nanos() as i128
}

/// The span of a signed number of nanoseconds.
pub fn nanos_to_duration(nanos: i128) -> (result: Duration)
    ensures
        result@ == held_nanos(nanos as int),
{
    if nanos < 0 {
        Duration::zero()
    } else if nanos > 0xffff_ffff_ffff_ffff {
        Duration::from_nanos(u64::MAX)
    } else {
        Duration::from_nanos(nanos as u64)
    }
}

/// A span moved by a signed number of nanoseconds.
pub fn add_signed_duration(base: Duration, delta_nanos: i128) -> (result: Duration)
    ensures
        result@ == held_nanos(base@ + delta_nanos),
{
    if delta_nanos > 0x4000_0000_0000_0000_0000_0000_0000_0000 {
        nanos_to_duration(delta_nanos)
    } else {
        nanos_to_duration(duration_to_nanos(base) + delta_nanos)
    }
}

/// The time since an anchor; none if it lies ahead.
pub fn elapsed_since(anchor: Duration, now: Duration) -> (result: Duration)
    ensures
        result@ == sat_sub(now@, anchor@),
{
    now.saturating_sub(anchor)
}

// ---------------------------------------------------------------------------
// Rates
// ---------------------------------------------------------------------------

/// The pattern of the double 1.
pub const RATE_ONE: u64 = 0x3ff0_0000_0000_0000;

/// The rate, or one where it is not finite and greater than zero.
pub open spec fn sane_rate(rate: Double) -> Double {
    if rate.is_positive() {
        rate
    } else {
        Double { bits: RATE_ONE }
    }
}

/// The rate, or one where it is not finite and greater than zero.
pub fn sanitize_playback_rate(rate: Double) -> (result: Double)
    ensures
        result == sane_rate(rate),
        result.is_positive(),
{
    if rate.check_positive() {
        rate
    } else {
        Double { bits: RATE_ONE }
    }
}

/// A span at a rate, in nanoseconds.
pub open spec fn nanos_at_rate(nanos: nat, rate: Double) -> Option<nat> {
    scaled_nanos(nanos, (sane_rate(rate).mantissa(), sane_rate(rate).scale()))
}

/// Whether a span can be scaled by a rate.
pub open spec fn can_scale(nanos: nat, rate: Double) -> bool {
    nanos_at_rate(nanos, rate) is Some
}

/// A span at a rate.
pub fn scale_duration(duration: Duration, rate: Double) -> (result: Duration)
    requires
        can_scale(duration@, rate),
    ensures
        Some(result@) == nanos_at_rate(duration@, rate),
{
    let (m, e) = sanitize_playback_rate(rate).digits();
    match scale_nanos(duration.as_nanos(), m, e) {
        Some(nanos) => Duration::saturating_from_nanos(nanos),
        None => Duration::zero(),
    }
}

// ---------------------------------------------------------------------------
// Clock
// ---------------------------------------------------------------------------

/// Who moves the clock.
#[derive(Debug, Clone, Copy, PartialEq, Eq, Structural)]
pub enum PlaybackClockMode {
    Wall,
    AudioMaster,
}

impl Default for PlaybackClockMode {
    fn default() -> (result: Self)
        ensures
            result == PlaybackClockMode::AudioMaster,
    {
        PlaybackClockMode::AudioMaster
    }
}

/// How the clock follows the audio output.
#[derive(Debug, Clone, Copy, PartialEq, Eq, Structural)]
pub struct AudioSyncConfig {
    /// Whether it does.
    pub enabled: bool,
    /// A drift up to this is left alone.
    pub deadband: Duration,
    /// A drift is corrected by no more than this at a time.
    pub max_correction_per_frame: Duration,
    /// A drift from this on is corrected at once.
    pub snap_threshold: Duration,
}

impl Default for AudioSyncConfig {
    fn default() -> (result: Self)
        ensures
            result.enabled,
            result.deadband@ == 5_000_000,
            result.max_correction_per_frame@ == 5_000_000,
            result.snap_threshold@ == 250_000_000,
    {
        Self {
            enabled: true,
            deadband: Duration::from_millis(5),
            max_correction_per_frame: Duration::from_millis(5),
            snap_threshold: Duration::from_millis(250),
        }
    }
}

/// What the clock last followed.
#[derive(Debug, Clone, Copy, PartialEq, Eq, Structural)]
pub enum PlaybackClockSource {
    Wall,
    Audio,
    Display,
}

impl Default for PlaybackClockSource {
    fn default() -> (result: Self)
        ensures
            result == PlaybackClockSource::Wall,
    {
        PlaybackClockSource::Wall
    }
}

/// Which way the clock was off.
#[derive(Debug, Clone, Copy, PartialEq, Eq, Structural)]
pub enum ClockCorrectionDirection {
    Steady,
    Forward,
    Backward,
}

/// How the clock was corrected.
#[derive(Debug, Clone, Copy, PartialEq, Eq, Structural)]
pub struct ClockCorrection {
    pub source: PlaybackClockSource,
    pub direction: ClockCorrectionDirection,
    pub drift: Duration,
    pub applied: Duration,
    pub snapped: bool,
}

impl ClockCorrection {
    /// Whether this is how a clock at a time is moved towards a reference.
    pub open spec fn is_correction_of(
        self,
        current: nat,
        reference: nat,
        source: PlaybackClockSource,
        config: AudioSyncConfig,
    ) -> bool {
        let drift = drift_to(current, reference);
        let leave = drift <= config.deadband@ || reference == current;
        &&& self.source == source
        &&& if !config.enabled {
            &&& self.direction == ClockCorrectionDirection::Steady
            &&& self.drift@ == 0
            &&& self.applied@ == 0
            &&& !self.snapped
        } else {
            &&& self.direction == direction_to(current, reference)
            &&& self.drift@ == drift
            &&& self.snapped == (!leave && drift >= config.snap_threshold@)
            &&& self.applied@ == (if leave {
                0
            } else if self.snapped {
                drift
            } else {
                nat_min(drift, config.max_correction_per_frame@)
            })
        }
    }

    /// No correction.
    pub fn none(source: PlaybackClockSource) -> (result: Self)
        ensures
            result.source == source,
            result.direction == ClockCorrectionDirection::Steady,
            result.drift@ == 0,
            result.applied@ == 0,
            !result.snapped,
    {
        Self {
            source,
            direction: ClockCorrectionDirection::Steady,
            drift: Duration::zero(),
            applied: Duration::zero(),
            snapped: false,
        }
    }
}

/// Where the clock stands.
#[derive(Debug, Clone, Copy, PartialEq, Eq, Structural)]
pub struct PlaybackClockSnapshot {
    pub media_time: Duration,
    pub source: PlaybackClockSource,
    pub rate: Double,
}

/// The clock as plain values.
pub struct ClockModel {
    pub base: nat,
    pub anchor: Option<nat>,
    pub rate: Double,
    pub source: PlaybackClockSource,
}

/// Which way a time is off a reference.
pub open spec fn direction_to(current: nat, reference: nat) -> ClockCorrectionDirection {
    if reference > current {
        ClockCorrectionDirection::Forward
    } else if reference < current {
        ClockCorrectionDirection::Backward
    } else {
        ClockCorrectionDirection::Steady
    }
}

/// How far a time is off a reference.
pub open spec fn drift_to(current: nat, reference: nat) -> nat {
    held_nanos(
        if reference > current {
            reference - current
        } else {
            current - reference
        },
    )
}

impl ClockModel {
    /// Whether the clock can be read at a time.
    pub open spec fn reads_at(self, now: nat) -> bool {
        self.anchor matches Some(anchor) ==> can_scale(sat_sub(now, anchor), self.rate)
    }

    /// The media time at a time.
    pub open spec fn media_time(self, now: nat) -> nat {
        match self.anchor {
            Some(anchor) => match nanos_at_rate(sat_sub(now, anchor), self.rate) {
                Some(nanos) => sat_add(self.base, nanos),
                None => self.base,
            },
            None => self.base,
        }
    }

    /// The clock as it runs from a time on, if it stood.
    pub open spec fn played(self, now: nat) -> ClockModel {
        ClockModel {
            anchor: if self.anchor is Some {
                self.anchor
            } else {
                Some(now)
            },
            ..self
        }
    }

    /// The clock as it stands from a time on.
    pub open spec fn paused(self, now: nat) -> ClockModel {
        ClockModel { base: self.media_time(now), anchor: None, ..self }
    }

    /// The clock set to a media time, running or not.
    pub open spec fn reset_to(self, media_time: nat, running: bool, now: nat) -> ClockModel {
        ClockModel {
            base: media_time,
            anchor: if running {
                Some(now)
            } else {
                None
            },
            rate: self.rate,
            source: PlaybackClockSource::Wall,
        }
    }

    /// The clock as it runs at another rate from a time on.
    pub open spec fn rated(self, rate: Double, now: nat) -> ClockModel {
        ClockModel {
            base: self.media_time(now),
            anchor: if self.anchor is Some {
                Some(now)
            } else {
                None
            },
            rate: sane_rate(rate),
            source: self.source,
        }
    }

    /// The clock set to a media time; it runs on if it was running.
    pub open spec fn synced(self, media_time: nat, now: nat, source: PlaybackClockSource) -> ClockModel {
        ClockModel {
            base: media_time,
            anchor: if self.anchor is Some {
                Some(now)
            } else {
                None
            },
            rate: self.rate,
            source,
        }
    }

    /// What a reference does to the clock: a drift within the deadband is left
    /// alone, a large one corrected at once, another by no more than the limit.
    pub open spec fn disciplined(
        self,
        reference: nat,
        now: nat,
        source: PlaybackClockSource,
        config: AudioSyncConfig,
    ) -> ClockModel {
        let current = self.media_time(now);
        let drift = drift_to(current, reference);
        let step = nat_min(drift, config.max_correction_per_frame@);
        if !config.enabled || drift <= config.deadband@ || reference == current {
            ClockModel { source, ..self }
        } else if drift >= config.snap_threshold@ {
            self.synced(reference, now, source)
        } else if reference > current {
            self.synced(held_nanos((current + step) as int), now, source)
        } else {
            self.synced(held_nanos(current - step), now, source)
        }
    }
}

/// The clock of playback.
#[derive(Debug, Clone, PartialEq, Eq)]
pub struct PlaybackClock {
    base_media_time: Duration,
    anchor: Option<Duration>,
    rate: Double,
    source: PlaybackClockSource,
}

impl View for PlaybackClock {
    type V = ClockModel;

    closed spec fn view(&self) -> ClockModel {
        ClockModel {
            base: self.base_media_time@,
            anchor: crate::time::span_view(self.anchor),
            rate: self.rate,
            source: self.source,
        }
    }
}

impl PlaybackClock {
    /// A clock that stands still.
    pub fn paused_at(media_time: Duration) -> (result: Self)
        ensures
            result@ == (ClockModel {
                base: media_time@,
                anchor: None,
                rate: Double { bits: RATE_ONE },
                source: PlaybackClockSource::Wall,
            }),
    {
        Self {
            base_media_time: media_time,
            anchor: None,
            rate: Double { bits: RATE_ONE },
            source: PlaybackClockSource::Wall,
        }
    }

    /// A clock that runs.
    pub fn running_at(media_time: Duration, now: Duration) -> (result: Self)
        ensures
            result@ == (ClockModel {
                base: media_time@,
                anchor: Some(now@),
                rate: Double { bits: RATE_ONE },
                source: PlaybackClockSource::Wall,
            }),
    {
        let mut clock = Self::paused_at(media_time);
        clock.anchor = Some(now);
        clock
    }

    /// The media time at a time.
    pub fn media_time_at(&self, now: Duration) -> (result: Duration)
        requires
            self@.reads_at(now@),
        ensures
            result@ == self@.media_time(now@),
    {
        match self.anchor {
            Some(anchor) => self.base_media_time.saturating_add(
                scale_duration(elapsed_since(anchor, now), self.rate),
            ),
            None => self.base_media_time,
        }
    }

    /// Where the clock stands at a time.
    pub fn snapshot_at(&self, now: Duration) -> (result: PlaybackClockSnapshot)
        requires
            self@.reads_at(now@),
        ensures
            result.media_time@ == self@.media_time(now@),
            result.source == self@.source,
            result.rate == self@.rate,
    {
        PlaybackClockSnapshot {
            media_time: self.media_time_at(now),
            source: self.source,
            rate: self.rate,
        }
    }

    /// Whether the clock runs.
    pub fn is_running(&self) -> (result: bool)
        ensures
            result == (self@.anchor is Some),
    {
        self.anchor.is_some()
    }

    /// What the clock last followed.
    pub fn source(&self) -> (result: PlaybackClockSource)
        ensures
            result == self@.source,
    {
        self.source
    }

    /// How fast the clock runs.
    pub fn rate(&self) -> (result: Double)
        ensures
            result == self@.rate,
    {
        self.rate
    }

    /// Lets the clock run, if it stands.
    pub fn play(&mut self, now: Duration)
        ensures
            final(self)@ == old(self)@.played(now@),
    {
        if self.anchor.is_none() {
            self.anchor = Some(now);
        }
    }

    /// Stops the clock where it stands.
    pub fn pause(&mut self, now: Duration)
        requires
            old(self)@.reads_at(now@),
        ensures
            final(self)@ == old(self)@.paused(now@),
    {
        self.base_media_time = self.media_time_at(now);
        self.anchor = None;
    }

    /// Sets the clock to a media time; it runs on if it was running.
    pub fn seek(&mut self, media_time: Duration, now: Duration)
        ensures
            final(self)@ == old(self)@.synced(media_time@, now@, old(self)@.source),
    {
        self.base_media_time = media_time;
        if self.anchor.is_some() {
            self.anchor = Some(now);
        }
    }

    /// Sets the clock to a media time, running or not.
    pub fn reset(&mut self, media_time: Duration, running: bool, now: Duration)
        ensures
            final(self)@ == old(self)@.reset_to(media_time@, running, now@),
    {
        self.base_media_time = media_time;
        self.anchor = if running {
            Some(now)
        } else {
            None
        };
        self.source = PlaybackClockSource::Wall;
    }

    /// Sets the clock to a media time that a source gave.
    pub fn sync_to(&mut self, media_time: Duration, now: Duration, source: PlaybackClockSource)
        ensures
            final(self)@ == old(self)@.synced(media_time@, now@, source),
    {
        self.base_media_time = media_time;
        if self.anchor.is_some() {
            self.anchor = Some(now);
        }
        self.source = source;
    }

    /// Moves the clock towards a reference.
    pub fn discipline_to(
        &mut self,
        reference_time: Duration,
        now: Duration,
        source: PlaybackClockSource,
        config: AudioSyncConfig,
    ) -> (result: ClockCorrection)
        requires
            old(self)@.reads_at(now@),
        ensures
            final(self)@ == old(self)@.disciplined(reference_time@, now@, source, config),
            result.is_correction_of(
                old(self)@.media_time(now@),
                reference_time@,
                source,
                config,
            ),
    {
        let current = self.media_time_at(now);
        self.source = source;
        if !config.enabled {
            return ClockCorrection::none(source);
        }
        let drift_nanos: i128 = duration_to_nanos(reference_time) - duration_to_nanos(current);
        let drift_abs: i128 = if drift_nanos < 0 {
            -drift_nanos
        } else {
            drift_nanos
        };
        let drift = nanos_to_duration(drift_abs);
        let direction = if drift_nanos > 0 {
            ClockCorrectionDirection::Forward
        } else if drift_nanos < 0 {
            ClockCorrectionDirection::Backward
        } else {
            ClockCorrectionDirection::Steady
        };
        if !config.deadband.is_before(drift) || direction == ClockCorrectionDirection::Steady {
            return ClockCorrection {
                source,
                direction,
                drift,
                applied: Duration::zero(),
                snapped: false,
            };
        }
        if !drift.is_before(config.snap_threshold) {
            self.sync_to(reference_time, now, source);
            return ClockCorrection { source, direction, drift, applied: drift, snapped: true };
        }
        let applied = drift.shorter(config.max_correction_per_frame);
        let step: i128 = duration_to_nanos(applied);
        let correction: i128 = if drift_nanos > 0 {
            step
        } else {
            -step
        };
        self.sync_to(add_signed_duration(current, correction), now, source);
        ClockCorrection { source, direction, drift, applied, snapped: false }
    }

    /// Lets the clock run at another rate from where it stands.
    pub fn set_rate(&mut self, rate: Double, now: Duration)
        requires
            old(self)@.reads_at(now@),
        ensures
            final(self)@ == old(self)@.rated(rate, now@),
    {
        self.base_media_time = self.media_time_at(now);
        self.rate = sanitize_playback_rate(rate);
        if self.anchor.is_some() {
            self.anchor = Some(now);
        }
    }
}

impl Default for PlaybackClock {
    fn default() -> (result: Self)
        ensures
            result@ == (ClockModel {
                base: 0,
                anchor: None,
                rate: Double { bits: RATE_ONE },
                source: PlaybackClockSource::Wall,
            }),
    {
        Self::paused_at(Duration::zero())
    }
}

/// A clock that is read at its anchor gives the media time that it was set to.
pub proof fn law_clock_starts_where_it_was_set(clock: ClockModel, now: nat)
    requires
        clock.anchor == Some(now) || clock.anchor is None,
        clock.base <= crate::time::MAX_NANOS,
    ensures
        clock.media_time(now) == clock.base,
{
    crate::binary64::lemma_scaled_nothing(
        (sane_rate(clock.rate).mantissa(), sane_rate(clock.rate).scale()),
    );
}

/// A clock that is paused tells from then on the time at which it was paused.
pub proof fn law_paused_clock_stands_still(clock: ClockModel, now: nat, later: nat)
    ensures
        clock.paused(now).media_time(later) == clock.media_time(now),
        clock.paused(now).rate == clock.rate,
{
}

/// A clock that is let run goes on from the time that it told, at its rate. One that
/// runs is not disturbed.
pub proof fn law_played_clock_goes_on(clock: ClockModel, now: nat, later: nat)
    requires
        clock.base <= crate::time::MAX_NANOS,
    ensures
        clock.played(now).media_time(now) == clock.media_time(now),
        clock.anchor is Some ==> clock.played(now).media_time(later) == clock.media_time(later),
        clock.anchor is None && now <= later ==> clock.played(now).media_time(later) == (
        ClockModel { base: clock.media_time(now), anchor: Some(now), ..clock }).media_time(later),
        clock.played(now).rate == clock.rate,
{
    if clock.anchor is None {
        law_clock_starts_where_it_was_set(clock.played(now), now);
    }
}

/// A clock that is set to a time tells that time: at once if it runs, and from then
/// on if it does not.
pub proof fn law_reset_clock_tells_the_time(
    clock: ClockModel,
    media_time: nat,
    running: bool,
    now: nat,
    later: nat,
)
    requires
        media_time <= crate::time::MAX_NANOS,
    ensures
        clock.reset_to(media_time, running, now).media_time(now) == media_time,
        !running ==> clock.reset_to(media_time, running, now).media_time(later) == media_time,
        running <==> clock.reset_to(media_time, running, now).anchor is Some,
        clock.reset_to(media_time, running, now).rate == clock.rate,
{
    law_clock_starts_where_it_was_set(clock.reset_to(media_time, running, now), now);
}

/// A clock that follows a source tells the time of the source, and runs just if it
/// ran.
pub proof fn law_synced_clock_tells_the_time(
    clock: ClockModel,
    media_time: nat,
    now: nat,
    source: PlaybackClockSource,
)
    requires
        media_time <= crate::time::MAX_NANOS,
    ensures
        clock.synced(media_time, now, source).media_time(now) == media_time,
        clock.synced(media_time, now, source).source == source,
        clock.synced(media_time, now, source).anchor is Some <==> clock.anchor is Some,
        clock.synced(media_time, now, source).rate == clock.rate,
{
    law_clock_starts_where_it_was_set(clock.synced(media_time, now, source), now);
}

/// A change of the rate does not move the clock, and holds from then on.
pub proof fn law_rate_change_keeps_the_time(clock: ClockModel, rate: Double, now: nat)
    requires
        clock.media_time(now) <= crate::time::MAX_NANOS,
    ensures
        clock.rated(rate, now).media_time(now) == clock.media_time(now),
        clock.rated(rate, now).anchor is Some <==> clock.anchor is Some,
        rate.is_positive() ==> clock.rated(rate, now).rate == rate,
        !rate.is_positive() ==> clock.rated(rate, now).rate.bits == RATE_ONE,
        clock.rated(rate, now).source == clock.source,
{
    law_clock_starts_where_it_was_set(clock.rated(rate, now), now);
}

/// How far two times lie apart.
pub open spec fn distance(a: nat, b: nat) -> nat {
    if a < b {
        (b - a) as nat
    } else {
        (a - b) as nat
    }
}

/// A correction never goes beyond the reference, and never turns the clock away
/// from it.
pub proof fn law_discipline_moves_towards_reference(
    clock: ClockModel,
    reference: nat,
    now: nat,
    source: PlaybackClockSource,
    config: AudioSyncConfig,
)
    requires
        clock.media_time(now) <= u64::MAX,
        reference <= u64::MAX,
    ensures
        ({
            let current = clock.media_time(now);
            let after = clock.disciplined(reference, now, source, config);
            &&& after == (ClockModel { source, ..clock }) || (if reference > current {
                current <= after.base <= reference
            } else {
                reference <= after.base <= current
            })
        }),
{
}

/// The clock follows a reference: a small drift is left alone, a large one corrected
/// at once, and any other by the limit, without going beyond the reference or away
/// from it. What is told of the correction is what was done.
pub proof fn law_correction_follows_the_reference(
    clock: ClockModel,
    reference: nat,
    now: nat,
    source: PlaybackClockSource,
    config: AudioSyncConfig,
    told: ClockCorrection,
)
    requires
        clock.media_time(now) <= u64::MAX,
        reference <= u64::MAX,
        told.is_correction_of(clock.media_time(now), reference, source, config),
    ensures
        ({
            let current = clock.media_time(now);
            let after = clock.disciplined(reference, now, source, config).media_time(now);
            let drift = distance(current, reference);
            &&& !config.enabled || drift <= config.deadband@ ==> after == current
            &&& config.enabled && drift > config.deadband@ && drift >= config.snap_threshold@
                ==> after == reference
            &&& config.enabled && config.deadband@ < drift < config.snap_threshold@ ==> distance(
                current,
                after,
            ) + distance(after, reference) == drift && (distance(current, after)
                == config.max_correction_per_frame@ || (after == reference && drift
                < config.max_correction_per_frame@))
            &&& told.applied@ == distance(current, after)
            &&& config.enabled ==> told.drift@ == drift
            &&& config.enabled && reference > current <==> told.direction
                == ClockCorrectionDirection::Forward
            &&& config.enabled && reference < current <==> told.direction
                == ClockCorrectionDirection::Backward
            &&& told.snapped ==> after == reference
            &&& clock.disciplined(reference, now, source, config).rate == clock.rate
            &&& clock.disciplined(reference, now, source, config).source == source
        }),
{
    let current = clock.media_time(now);
    let after = clock.disciplined(reference, now, source, config);
    let drift = distance(current, reference);
    assert(drift == drift_to(current, reference));
    if !config.enabled || drift <= config.deadband@ || reference == current {
        assert(after.media_time(now) == current);
    } else {
        law_clock_starts_where_it_was_set(after, now);
    }
}

/// A clock that runs at a whole rate is so many times as many seconds further when
/// whole seconds have passed.
pub proof fn law_time_passes_at_the_rate(clock: ClockModel, now: nat, seconds: nat, times: nat)
    requires
        clock.anchor is Some,
        clock.rate.is_positive(),
        clock.rate.scale() <= 0,
        times > 0,
        clock.rate.mantissa() == times * pow2((-clock.rate.scale()) as nat),
        seconds * times < 0x1_0000_0000,
        now == clock.anchor->0 + seconds * 1_000_000_000,
        clock.base + seconds * times * 1_000_000_000 <= crate::time::MAX_NANOS,
    ensures
        clock.media_time(now) == clock.base + seconds * times * 1_000_000_000,
{
    crate::binary64::law_whole_seconds_scale(
        seconds,
        times,
        (clock.rate.mantissa(), clock.rate.scale()),
    );
}

} // verus!
