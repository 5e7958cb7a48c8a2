//! When frames are shown.
use crate::binary64::{period_nanos, period_to_nanos};
use crate::float_bits::Double;
use crate::playback::clock::{
    duration_to_nanos, held_nanos, nanos_to_duration, AudioSyncConfig, PlaybackClockMode,
};
use crate::time::{sat_add, span_view, Duration, MAX_NANOS};
use vstd::prelude::*;

verus! {

// ---------------------------------------------------------------------------
// Video frames
// ---------------------------------------------------------------------------

/// What becomes of a video frame.
#[allow(inconsistent_fields)]
#[derive(Debug, Clone, Copy, PartialEq, Eq, Structural)]
pub enum VideoFrameDecision {
    /// It is shown.
    Present { late_by: Option<Duration> },
    /// It is too early.
    Wait { early_by: Duration },
    /// It is too late.
    Drop { late_by: Duration },
}

/// A decision, with its times in nanoseconds.
#[allow(inconsistent_fields)]
pub enum DecisionModel {
    Present { late_by: Option<nat> },
    Wait { early_by: nat },
    Drop { late_by: nat },
}

impl View for VideoFrameDecision {
    type V = DecisionModel;

    open spec fn view(&self) -> DecisionModel {
        match *self {
            VideoFrameDecision::Present { late_by } => DecisionModel::Present {
                late_by: span_view(late_by),
            },
            VideoFrameDecision::Wait { early_by } => DecisionModel::Wait { early_by: early_by@ },
            VideoFrameDecision::Drop { late_by } => DecisionModel::Drop { late_by: late_by@ },
        }
    }
}

impl VideoFrameDecision {
    /// How late the frame is, if it is not too early.
    pub fn late_by(self) -> (result: Option<Duration>)
        ensures
            span_view(result) == (match self@ {
                DecisionModel::Present { late_by } => late_by,
                DecisionModel::Drop { late_by } => Some(late_by),
                DecisionModel::Wait { .. } => None,
            }),
    {
        match self {
            VideoFrameDecision::Present { late_by } => late_by,
            VideoFrameDecision::Drop { late_by } => Some(late_by),
            VideoFrameDecision::Wait { .. } => None,
        }
    }
}

/// When video frames are shown.
#[derive(Debug, Clone, Copy, PartialEq, Eq, Structural)]
pub struct VideoFrameScheduler {
    /// A frame may be shown this much before its time.
    pub lead_time: Duration,
    /// A frame may be shown up to this much after its time.
    pub drop_tolerance: Duration,
    /// No more frames than this are dropped before one is shown.
    pub max_consecutive_drops: usize,
}

/// By how much a time is behind another, if it is not ahead.
pub open spec fn lateness(pts: nat, media_time: nat) -> Option<nat> {
    if media_time >= pts {
        Some((media_time - pts) as nat)
    } else {
        None
    }
}

impl VideoFrameScheduler {
    /// What becomes of a frame at a media time. The first frame is always shown,
    /// and so is one without a time.
    pub open spec fn decide(self, pts: Option<nat>, media_time: nat, first_frame: bool) -> DecisionModel {
        match pts {
            None => DecisionModel::Present { late_by: None },
            Some(pts) => {
                let reach = sat_add(media_time, self.lead_time@);
                if first_frame {
                    DecisionModel::Present { late_by: lateness(pts, media_time) }
                } else if reach < pts {
                    DecisionModel::Wait { early_by: (pts - reach) as nat }
                } else if media_time >= pts && media_time - pts > self.drop_tolerance@ {
                    DecisionModel::Drop { late_by: (media_time - pts) as nat }
                } else {
                    DecisionModel::Present { late_by: lateness(pts, media_time) }
                }
            },
        }
    }

    /// A scheduler that drops no more than five frames in a row.
    pub fn new(lead_time: Duration, drop_tolerance: Duration) -> (result: Self)
        ensures
            result == (VideoFrameScheduler { lead_time, drop_tolerance, max_consecutive_drops: 5 }),
    {
        Self { lead_time, drop_tolerance, max_consecutive_drops: 5 }
    }

    /// What becomes of a frame at a media time.
    pub fn schedule(self, pts: Option<Duration>, media_time: Duration, first_frame: bool) -> (result:
        VideoFrameDecision)
        ensures
            result@ == self.decide(span_view(pts), media_time@, first_frame),
    {
        let pts = match pts {
            Some(pts) => pts,
            None => {
                return VideoFrameDecision::Present { late_by: None };
            },
        };
        let late_by = media_time.checked_sub(pts);
        if first_frame {
            return VideoFrameDecision::Present { late_by };
        }
        let reach = media_time.saturating_add(self.lead_time);
        if reach.is_before(pts) {
            return VideoFrameDecision::Wait { early_by: pts.saturating_sub(reach) };
        }
        if let Some(late) = late_by {
            if self.drop_tolerance.is_before(late) {
                return VideoFrameDecision::Drop { late_by: late };
            }
        }
        VideoFrameDecision::Present { late_by }
    }
}

impl Default for VideoFrameScheduler {
    fn default() -> (result: Self)
        ensures
            result.lead_time@ == 4_000_000,
            result.drop_tolerance@ == 120_000_000,
            result.max_consecutive_drops == 5,
    {
        Self::new(Duration::from_millis(4), Duration::from_millis(120))
    }
}

/// As the media time goes on, a frame that waited is shown, and one that was
/// shown is not made to wait again.
pub proof fn law_decisions_only_get_later(
    scheduler: VideoFrameScheduler,
    pts: nat,
    earlier: nat,
    later: nat,
)
    requires
        earlier <= later,
    ensures
        !(scheduler.decide(Some(pts), earlier, false) is Wait) ==> !(scheduler.decide(
            Some(pts),
            later,
            false,
        ) is Wait),
        scheduler.decide(Some(pts), earlier, false) is Drop ==> scheduler.decide(
            Some(pts),
            later,
            false,
        ) is Drop,
{
}

/// How playback keeps time.
#[derive(Debug, Clone, Copy, PartialEq, Eq, Structural)]
pub struct PlaybackTimingConfig {
    pub clock_mode: PlaybackClockMode,
    pub video_scheduler: VideoFrameScheduler,
    pub audio_lead_time: Duration,
    pub audio_sync: AudioSyncConfig,
}

impl PlaybackTimingConfig {
    /// Whether these are the usual times.
    pub open spec fn is_default(self) -> bool {
        &&& self.clock_mode == PlaybackClockMode::AudioMaster
        &&& self.video_scheduler.lead_time@ == 4_000_000
        &&& self.video_scheduler.drop_tolerance@ == 120_000_000
        &&& self.video_scheduler.max_consecutive_drops == 5
        &&& self.audio_lead_time@ == 120_000_000
        &&& self.audio_sync.enabled
        &&& self.audio_sync.deadband@ == 5_000_000
        &&& self.audio_sync.max_correction_per_frame@ == 5_000_000
        &&& self.audio_sync.snap_threshold@ == 250_000_000
    }
}

impl Default for PlaybackTimingConfig {
    fn default() -> (result: Self)
        ensures
            result.is_default(),
    {
        Self {
            clock_mode: PlaybackClockMode::default(),
            video_scheduler: VideoFrameScheduler::default(),
            audio_lead_time: Duration::from_millis(120),
            audio_sync: AudioSyncConfig::default(),
        }
    }
}

// ---------------------------------------------------------------------------
// Display refreshes
// ---------------------------------------------------------------------------

/// How frames are fitted to the refreshes of a display.
#[derive(Debug, Clone, Copy, PartialEq, Eq, Structural)]
pub struct DisplaySyncConfig {
    pub enabled: bool,
    pub vsync_interval: Duration,
    pub allow_zero_vsyncs: bool,
}

impl DisplaySyncConfig {
    /// For a display with this many refreshes a second. A rate that is not finite
    /// and greater than zero counts as sixteen milliseconds.
    pub fn for_refresh_rate_hz(refresh_rate_hz: Double) -> (result: Self)
        requires
            refresh_rate_hz.is_positive() ==> period_nanos(
                (refresh_rate_hz.mantissa(), refresh_rate_hz.scale()),
            ) is Some,
        ensures
            result.enabled,
            !result.allow_zero_vsyncs,
            refresh_rate_hz.is_positive() ==> Some(result.vsync_interval@) == period_nanos(
                (refresh_rate_hz.mantissa(), refresh_rate_hz.scale()),
            ),
            !refresh_rate_hz.is_positive() ==> result.vsync_interval@ == 16_000_000,
    {
        let interval = if refresh_rate_hz.check_positive() {
            let (m, e) = refresh_rate_hz.digits();
            match period_to_nanos(m, e) {
                Some(nanos) => Duration::saturating_from_nanos(nanos),
                None => Duration::zero(),
            }
        } else {
            Duration::from_millis(16)
        };
        Self { enabled: true, vsync_interval: interval, allow_zero_vsyncs: false }
    }
}

impl Default for DisplaySyncConfig {
    fn default() -> (result: Self)
        ensures
            result.enabled,
            result.vsync_interval@ == 16_666_667,
            !result.allow_zero_vsyncs,
    {
        Self {
            enabled: true,
            vsync_interval: Duration::from_nanos(16_666_667),
            allow_zero_vsyncs: false,
        }
    }
}

/// How long a frame is shown.
#[derive(Debug, Clone, Copy, PartialEq, Eq, Structural)]
pub struct DisplayFrameSchedule {
    pub vsyncs: u32,
    pub scheduled_duration: Duration,
    pub residual_error_nanos: i128,
}

/// The time that frames were shown too short so far; negative if too long.
#[derive(Debug, Clone, Copy, PartialEq, Eq, Structural)]
pub struct DisplaySyncState {
    residual_error_nanos: i128,
}

impl View for DisplaySyncState {
    type V = int;

    closed spec fn view(&self) -> int {
        self.residual_error_nanos as int
    }
}

/// The refreshes nearest to a time, held within what can be shown.
pub open spec fn nearest_vsyncs(target: int, vsync: nat, allow_zero: bool) -> nat {
    let rounded: int = if target <= 0 {
        0
    } else {
        (target + vsync / 2) / vsync as int
    };
    let least: int = if allow_zero {
        0
    } else {
        1
    };
    if rounded < least {
        least as nat
    } else if rounded > u32::MAX {
        u32::MAX as nat
    } else {
        rounded as nat
    }
}

/// Whether the times of fitting a frame to the refreshes can be counted.
pub open spec fn can_fit(target: int, vsync: nat, allow_zero: bool) -> bool {
    &&& i128::MIN <= target <= i128::MAX
    &&& target > 0 ==> target + vsync / 2 <= i128::MAX
    &&& i128::MIN <= target - nearest_vsyncs(target, vsync, allow_zero) * vsync
}

/// Where the time that is carried can be counted together with any span, any frame
/// can be fitted.
pub proof fn law_moderate_times_can_be_fitted(
    carried: int,
    duration: nat,
    vsync: nat,
    allow_zero: bool,
)
    requires
        duration <= MAX_NANOS,
        0 < vsync <= MAX_NANOS,
        i128::MIN + MAX_NANOS <= carried <= i128::MAX - 2 * MAX_NANOS,
    ensures
        can_fit(duration + carried, vsync, allow_zero),
{
    lemma_carried_bounds(duration + carried, vsync, allow_zero);
}

/// What is carried is no more than was to be fitted, and short of it by no more than
/// a refresh; where a frame is shown for more than one, by half of it.
proof fn lemma_carried_bounds(target: int, vsync: nat, allow_zero: bool)
    requires
        vsync > 0,
    ensures
        ({
            let carried = target - nearest_vsyncs(target, vsync, allow_zero) * vsync;
            &&& carried <= target
            &&& carried >= (if target < 0 {
                target
            } else {
                0
            }) - vsync
            &&& nearest_vsyncs(target, vsync, allow_zero) > 1 && (target + vsync / 2)
                / vsync as int <= u32::MAX ==> -vsync <= 2 * carried <= vsync
        }),
{
    let n = nearest_vsyncs(target, vsync, allow_zero);
    assert(n * vsync >= 0) by (nonlinear_arith)
        requires
            n >= 0,
            vsync >= 0,
    ;
    if n > 1 {
        let sum = target + vsync / 2;
        let rounded = sum / vsync as int;
        vstd::arithmetic::div_mod::lemma_fundamental_div_mod(sum, vsync as int);
        assert(vsync * rounded == rounded * vsync) by (nonlinear_arith);
        assert(n * vsync <= rounded * vsync) by (nonlinear_arith)
            requires
                n <= rounded,
                vsync > 0,
        ;
    } else {
        assert(n * vsync <= vsync) by (nonlinear_arith)
            requires
                n <= 1,
                vsync > 0,
        ;
    }
}

impl Default for DisplaySyncState {
    fn default() -> (result: Self)
        ensures
            result@ == 0,
    {
        Self { residual_error_nanos: 0 }
    }
}

impl DisplaySyncState {
    /// Forgets the time that was carried.
    pub fn reset(&mut self)
        ensures
            final(self)@ == 0,
    {
        self.residual_error_nanos = 0;
    }

    /// The time that is carried.
    pub fn residual_error_nanos(&self) -> (result: i128)
        ensures
            result == self@,
    {
        self.residual_error_nanos
    }

    /// Fits a frame to the refreshes of the display: it is shown for the nearest
    /// number of them, and what is left is carried to the next frame.
    pub fn schedule_frame(&mut self, frame_duration: Duration, config: DisplaySyncConfig) -> (result:
        DisplayFrameSchedule)
        requires
            config.enabled && config.vsync_interval@ > 0 ==> can_fit(
                frame_duration@ + old(self)@,
                config.vsync_interval@,
                config.allow_zero_vsyncs,
            ),
        ensures
            result.residual_error_nanos == final(self)@,
            if !config.enabled || config.vsync_interval@ == 0 {
                &&& result.vsyncs == 1
                &&& result.scheduled_duration@ == frame_duration@
                &&& final(self)@ == old(self)@
            } else {
                let target = frame_duration@ + old(self)@;
                let vsyncs = nearest_vsyncs(
                    target,
                    config.vsync_interval@,
                    config.allow_zero_vsyncs,
                );
                &&& result.vsyncs == vsyncs
                &&& result.scheduled_duration@ == held_nanos((vsyncs * config.vsync_interval@) as int)
                &&& vsyncs * config.vsync_interval@ + final(self)@ == target
                &&& config.allow_zero_vsyncs || vsyncs >= 1
                &&& final(self)@ <= target
                &&& final(self)@ >= (if target < 0 {
                    target
                } else {
                    0
                }) - config.vsync_interval@
                &&& vsyncs > 1 && (target + config.vsync_interval@ / 2)
                    / config.vsync_interval@ as int <= u32::MAX ==> -config.vsync_interval@ <= 2
                    * final(self)@ <= config.vsync_interval@
            },
    {
        if !config.enabled || config.vsync_interval.is_zero() {
            return DisplayFrameSchedule {
                vsyncs: 1,
                scheduled_duration: frame_duration,
                residual_error_nanos: self.residual_error_nanos,
            };
        }
        let vsync: i128 = duration_to_nanos(config.vsync_interval);
        let target: i128 = duration_to_nanos(frame_duration) + self.residual_error_nanos;
        let rounded: i128 = if target <= 0 {
            0
        } else {
            (target + vsync / 2) / vsync
        };
        let least: i128 = if config.allow_zero_vsyncs {
            0
        } else {
            1
        };
        let vsyncs: u32 = if rounded < least {
            least as u32
        } else if rounded > 0xffff_ffff {
            u32::MAX
        } else {
            rounded as u32
        };
        proof {
            lemma_carried_bounds(target as int, vsync as nat, config.allow_zero_vsyncs);
        }
        assert(0 <= vsyncs * vsync <= 0xffff_ffff * 18_446_744_073_709_551_615_999_999_999)
            by (nonlinear_arith)
            requires
                0 <= vsyncs <= 0xffff_ffff,
                0 <= vsync <= 18_446_744_073_709_551_615_999_999_999,
        ;
        let scheduled: i128 = vsyncs as i128 * vsync;
        self.residual_error_nanos = target - scheduled;
        DisplayFrameSchedule {
            vsyncs,
            scheduled_duration: nanos_to_duration(scheduled),
            residual_error_nanos: self.residual_error_nanos,
        }
    }
}

/// Where a frame and one refresh more can be told in nanoseconds of one word, it is
/// scheduled for exactly its refreshes.
pub proof fn law_refreshes_are_scheduled_in_full(target: int, vsync: nat, allow_zero: bool)
    requires
        0 < vsync <= u64::MAX,
        target + vsync <= u64::MAX,
    ensures
        ({
            let time = nearest_vsyncs(target, vsync, allow_zero) * vsync;
            held_nanos(time as int) == time
        }),
{
    lemma_carried_bounds(target, vsync, allow_zero);
    let n = nearest_vsyncs(target, vsync, allow_zero);
    assert(n * vsync >= 0) by (nonlinear_arith)
        requires
            n >= 0,
            vsync > 0,
    ;
}

/// No time is lost between frames: what was carried is at most half a refresh,
/// as long as frames are not too short or too long to be fitted.
pub proof fn law_display_sync_carries_half_a_refresh(target: int, vsync: nat, allow_zero: bool)
    requires
        vsync > 0,
        target > 0,
        (target + vsync / 2) / vsync as int <= u32::MAX,
        allow_zero || (target + vsync / 2) / vsync as int >= 1,
    ensures
        -(vsync as int) <= 2 * (target - nearest_vsyncs(target, vsync, allow_zero) * vsync) <= vsync,
{
    let n = (target + vsync / 2) / vsync as int;
    vstd::arithmetic::div_mod::lemma_fundamental_div_mod(target + vsync / 2, vsync as int);
    let rest = (target + vsync / 2) % vsync as int;
    assert(n >= 0) by (nonlinear_arith)
        requires
            n == (target + vsync / 2) / vsync as int,
            target + vsync / 2 >= 0,
            vsync > 0,
    ;
    assert(vsync * n == n * vsync) by (nonlinear_arith);
}

/// A frame waits just while its time lies ahead by more than the lead, and for as
/// long as it is told: then, and no sooner, it is due.
pub proof fn law_frames_wait_until_they_are_due(
    scheduler: VideoFrameScheduler,
    pts: nat,
    media_time: nat,
    passed: nat,
)
    requires
        media_time + scheduler.lead_time@ + passed <= MAX_NANOS,
    ensures
        scheduler.decide(Some(pts), media_time, false) is Wait <==> media_time
            + scheduler.lead_time@ < pts,
        scheduler.decide(Some(pts), media_time, false) matches DecisionModel::Wait { early_by }
            ==> early_by > 0 && (scheduler.decide(Some(pts), media_time + passed, false) is Wait
            <==> passed < early_by),
{
}

/// A frame is dropped just if its time has passed by more than the tolerance. How
/// late it is counts from its own time.
pub proof fn law_frames_are_dropped_when_too_late(
    scheduler: VideoFrameScheduler,
    pts: nat,
    media_time: nat,
    first_frame: bool,
)
    requires
        pts <= MAX_NANOS,
        media_time <= MAX_NANOS,
    ensures
        scheduler.decide(Some(pts), media_time, false) is Drop <==> media_time > pts
            + scheduler.drop_tolerance@,
        scheduler.decide(Some(pts), media_time, first_frame) matches DecisionModel::Drop { late_by }
            ==> pts + late_by == media_time,
        scheduler.decide(Some(pts), media_time, first_frame) matches DecisionModel::Present {
            late_by: Some(late_by),
        } ==> pts + late_by == media_time,
        scheduler.decide(Some(pts), media_time, first_frame) matches DecisionModel::Present {
            late_by: None,
        } ==> media_time < pts,
        scheduler.decide(Some(pts), pts, false) is Present,
        scheduler.decide(Some(pts), media_time, true) is Present,
        scheduler.decide(None, media_time, first_frame) is Present,
{
}

} // verus!
