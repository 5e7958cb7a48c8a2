//! Watches the times of video, player and comments for jumps back.
use crate::time::{span_view, Duration};
use vstd::prelude::*;

verus! {

/// Whether a time lies so far before the last one that it is a jump back.
pub open spec fn regressed(next: nat, previous: nat) -> bool {
    previous > next + 5_000_000
}

/// Whether a time lies more than five milliseconds before the last one.
pub fn duration_regressed(next: Duration, previous: Duration) -> (result: bool)
    ensures
        result == regressed(next@, previous@),
{
    match previous.checked_sub(next) {
        Some(delta) => Duration::from_millis(5).is_before(delta),
        None => false,
    }
}

/// The times at one stage of a frame.
#[derive(Debug, Clone, Copy)]
pub struct TimeSample {
    pub media_time: Duration,
    pub generation: u64,
    pub player_time: Option<Duration>,
    pub video_time: Option<Duration>,
    pub plan_time: Option<Duration>,
    pub plan_generation: Option<u64>,
}

/// What is wrong with the times of a sample.
#[derive(Debug, Clone, Copy, PartialEq, Eq, Structural)]
pub struct TraceFlags {
    pub event_back: bool,
    pub player_back: bool,
    pub video_back: bool,
    pub plan_back: bool,
    pub generation_changed: bool,
    pub plan_mismatch: bool,
}

/// The times that were last seen.
#[derive(Debug, Clone)]
pub struct DanmakuTimeTrace {
    pub enabled: bool,
    pub samples: u64,
    pub last_event_time: Option<Duration>,
    pub last_event_generation: u64,
    pub last_player_time: Option<Duration>,
    pub last_player_generation: u64,
    pub last_video_time: Option<Duration>,
    pub last_video_generation: u64,
    pub last_plan_time: Option<Duration>,
    pub last_plan_generation: u64,
}

/// The samples that are told whether or not anything is wrong with them.
pub const TOLD_SAMPLES: u64 = 16;

/// Whether a time jumped back within a generation.
pub open spec fn jumps_back(
    time: Option<nat>,
    generation: u64,
    last: Option<nat>,
    last_generation: u64,
) -> bool {
    &&& time is Some
    &&& last is Some
    &&& last_generation == generation
    &&& regressed(time->0, last->0)
}

fn check_back(
    time: Option<Duration>,
    generation: u64,
    last: Option<Duration>,
    last_generation: u64,
) -> (result: bool)
    ensures
        result == jumps_back(span_view(time), generation, span_view(last), last_generation),
{
    match time {
        Some(time) => match last {
            Some(last) => last_generation == generation && duration_regressed(time, last),
            None => false,
        },
        None => false,
    }
}

impl TimeSample {
    /// The generation of the plan, or that of the sample.
    pub open spec fn resolved_generation(self) -> u64 {
        match self.plan_generation {
            Some(generation) => generation,
            None => self.generation,
        }
    }

    /// Whether the plan is for another time or generation.
    pub open spec fn is_mismatched(self) -> bool {
        self.plan_time is Some && (self.plan_time->0@ != self.media_time@ || (
        self.plan_generation is Some && self.plan_generation->0 != self.generation))
    }
}

impl TraceFlags {
    /// Whether anything is wrong.
    pub open spec fn any(self) -> bool {
        self.event_back || self.player_back || self.video_back || self.plan_back
            || self.generation_changed || self.plan_mismatch
    }
}

impl DanmakuTimeTrace {
    /// Whether the watch has seen nothing.
    pub open spec fn is_fresh(self, enabled: bool) -> bool {
        self == (DanmakuTimeTrace {
            enabled,
            samples: 0,
            last_event_time: None,
            last_event_generation: 0,
            last_player_time: None,
            last_player_generation: 0,
            last_video_time: None,
            last_video_generation: 0,
            last_plan_time: None,
            last_plan_generation: 0,
        })
    }

    /// A watch that has seen nothing.
    pub fn new(enabled: bool) -> (result: Self)
        ensures
            result.is_fresh(enabled),
    {
        Self {
            enabled,
            samples: 0,
            last_event_time: None,
            last_event_generation: 0,
            last_player_time: None,
            last_player_generation: 0,
            last_video_time: None,
            last_video_generation: 0,
            last_plan_time: None,
            last_plan_generation: 0,
        }
    }

    /// What is wrong with the times of a sample.
    pub open spec fn flags(self, sample: TimeSample) -> TraceFlags {
        TraceFlags {
            event_back: jumps_back(
                Some(sample.media_time@),
                sample.generation,
                span_view(self.last_event_time),
                self.last_event_generation,
            ),
            player_back: jumps_back(
                span_view(sample.player_time),
                sample.generation,
                span_view(self.last_player_time),
                self.last_player_generation,
            ),
            video_back: jumps_back(
                span_view(sample.video_time),
                sample.generation,
                span_view(self.last_video_time),
                self.last_video_generation,
            ),
            plan_back: jumps_back(
                span_view(sample.plan_time),
                sample.resolved_generation(),
                span_view(self.last_plan_time),
                self.last_plan_generation,
            ),
            generation_changed: self.last_event_generation != 0 && self.last_event_generation
                != sample.generation,
            plan_mismatch: sample.is_mismatched(),
        }
    }

    /// Takes note of the times of a sample. Gives what is wrong with them where
    /// that is to be told: the first few samples, and those with something wrong.
    pub fn observe(&mut self, sample: TimeSample) -> (result: Option<TraceFlags>)
        ensures
            !old(self).enabled ==> result is None && *final(self) == *old(self),
            old(self).enabled ==> {
                let flags = old(self).flags(sample);
                let told = old(self).samples < TOLD_SAMPLES || flags.any();
                &&& result == (if told {
                    Some(flags)
                } else {
                    None
                })
                &&& *final(self) == (DanmakuTimeTrace {
                    enabled: true,
                    samples: if told && old(self).samples < u64::MAX {
                        (old(self).samples + 1) as u64
                    } else {
                        old(self).samples
                    },
                    last_event_time: Some(sample.media_time),
                    last_event_generation: sample.generation,
                    last_player_time: if sample.player_time is Some {
                        sample.player_time
                    } else {
                        old(self).last_player_time
                    },
                    last_player_generation: if sample.player_time is Some {
                        sample.generation
                    } else {
                        old(self).last_player_generation
                    },
                    last_video_time: if sample.video_time is Some {
                        sample.video_time
                    } else {
                        old(self).last_video_time
                    },
                    last_video_generation: if sample.video_time is Some {
                        sample.generation
                    } else {
                        old(self).last_video_generation
                    },
                    last_plan_time: if sample.plan_time is Some {
                        sample.plan_time
                    } else {
                        old(self).last_plan_time
                    },
                    last_plan_generation: if sample.plan_time is Some {
                        sample.resolved_generation()
                    } else {
                        old(self).last_plan_generation
                    },
                })
            },
    {
        if !self.enabled {
            return None;
        }
        let resolved: u64 = match sample.plan_generation {
            Some(generation) => generation,
            None => sample.generation,
        };
        let plan_mismatch = match sample.plan_time {
            Some(time) => !time.same_as(sample.media_time) || resolved != sample.generation,
            None => false,
        };
        let flags = TraceFlags {
            event_back: check_back(
                Some(sample.media_time),
                sample.generation,
                self.last_event_time,
                self.last_event_generation,
            ),
            player_back: check_back(
                sample.player_time,
                sample.generation,
                self.last_player_time,
                self.last_player_generation,
            ),
            video_back: check_back(
                sample.video_time,
                sample.generation,
                self.last_video_time,
                self.last_video_generation,
            ),
            plan_back: check_back(
                sample.plan_time,
                resolved,
                self.last_plan_time,
                self.last_plan_generation,
            ),
            generation_changed: self.last_event_generation != 0 && self.last_event_generation
                != sample.generation,
            plan_mismatch,
        };
        let told = self.samples < TOLD_SAMPLES || flags.event_back || flags.player_back
            || flags.video_back || flags.plan_back || flags.generation_changed
            || flags.plan_mismatch;
        if told && self.samples < u64::MAX {
            self.samples += 1;
        }
        self.last_event_time = Some(sample.media_time);
        self.last_event_generation = sample.generation;
        if sample.player_time.is_some() {
            self.last_player_time = sample.player_time;
            self.last_player_generation = sample.generation;
        }
        if sample.video_time.is_some() {
            self.last_video_time = sample.video_time;
            self.last_video_generation = sample.generation;
        }
        if sample.plan_time.is_some() {
            self.last_plan_time = sample.plan_time;
            self.last_plan_generation = resolved;
        }
        if told {
            Some(flags)
        } else {
            None
        }
    }
}

/// A time that does not go back is never told as a jump.
pub proof fn law_steady_times_are_not_told(trace: DanmakuTimeTrace, sample: TimeSample)
    requires
        trace.last_event_time matches Some(last) ==> sample.media_time@ >= last@,
    ensures
        !trace.flags(sample).event_back,
{
}

/// Something is told just if a time went back, the generation changed or the plan is not
/// for what is shown.
pub proof fn law_any_step_back_is_told(changes: TraceFlags)
    ensures
        changes.event_back ==> changes.any(),
        changes.player_back ==> changes.any(),
        changes.video_back ==> changes.any(),
        changes.plan_back ==> changes.any(),
        changes.generation_changed ==> changes.any(),
        changes.plan_mismatch ==> changes.any(),
        changes.any() ==> changes.event_back || changes.player_back || changes.video_back
            || changes.plan_back || changes.generation_changed || changes.plan_mismatch,
{
}

} // verus!
