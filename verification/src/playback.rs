//! Playback: the clock, the schedule of frames, and the session behind them.
use vstd::prelude::*;

pub mod clock;
pub mod engine;
pub mod opening;
pub mod schedule;
pub mod session;

pub use crate::playback::clock::{
    AudioSyncConfig, ClockCorrection, ClockCorrectionDirection, PlaybackClock, PlaybackClockMode,
    PlaybackClockSnapshot, PlaybackClockSource,
};
pub use crate::playback::engine::{
    AudioStep, PlaybackRunState, QueuedVideoFrame, SubtitleStep, TimedAudioFrame,
    TimedSubtitleFrame, TimedVideoFrame, VideoPlaybackEngine, VideoStep,
};
pub use crate::playback::opening::open_streams;
pub use crate::playback::schedule::{
    DisplayFrameSchedule, DisplaySyncConfig, DisplaySyncState, PlaybackTimingConfig,
    VideoFrameDecision, VideoFrameScheduler,
};
pub use crate::playback::session::{
    decoded_subtitle_start, external_subtitle_title, mark_selected_tracks, plan_open,
    select_ready_subtitle, ExternalSubtitleSession, OpenPlan, OpenedMediaInfo, PacketRoute,
    PlaybackError, PlaybackSession, PlaybackSessionConfig, Pull, Result, SubtitlePull,
    SubtitleQueueCandidate, SubtitleSelectionPlan, VideoDecodePreference,
};

verus! {

} // verus!
