//! Brings decoded video, audio, subtitles and comments together for each frame
//! that is shown.
use vstd::prelude::*;

pub mod runtime;
pub mod subtitles;
pub mod text_events;
pub mod trace;

pub use crate::presenter::runtime::{
    bump_generation, surface_dimensions_to_viewport, AudioClockSyncState, PlanRequest,
    PresenterAudioConfig, PresenterConfig, PresenterRuntime, PresenterRuntimeSnapshot,
    PresenterStats, RenderOutcome, TickTimes, WgpuRendererConfig,
};
pub use crate::presenter::subtitles::{
    append_text_subtitles_debug, subtitle_is_active, subtitle_start, PlayerSubtitleFrame,
    RenderedText, SubtitleFrameState,
};
pub use crate::presenter::text_events::{
    prepare_chunk, simple_hash, CachedLibassTextRenderer, TextChunk, TextStep,
};
pub use crate::presenter::trace::{duration_regressed, DanmakuTimeTrace, TimeSample, TraceFlags};

verus! {

} // verus!
