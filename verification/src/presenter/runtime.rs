//! The state of a presenter between two frames.
use crate::audio::{AudioClockSnapshot, AudioRingBufferConfig};
use crate::binary64::{law_whole_numbers_scale, scale_whole, scaled_whole};
use crate::danmaku::config::{default_settings, ConfigModel, DanmakuLayoutConfig};
use crate::danmaku::engine::{same_items, DfmLayoutEngine};
use crate::danmaku::model::{viewport_of, DanmakuViewport, ItemModel};
use crate::danmaku::plan::DanmakuRenderPlan;
use crate::danmaku::session::{
    fresh_track, newer, tells_of, track_index, without_track, DanmakuSession, DanmakuTrackInfo,
    DanmakuTrackSource, SessionModel, TrackModel,
};
use crate::danmaku::stats::{DanmakuDebugBucket, DanmakuFrameStats, DanmakuPreparedStats};
use crate::danmaku::timeline::DanmakuTimeline;
use crate::ffmpeg::codes::DecoderBackend;
use crate::float_bits::{Double, Single};
use crate::overlay::{OverlayFrame, OverlayViewport};
use crate::playback::clock::RATE_ONE;
use crate::presenter::subtitles::{
    can_box, is_overlaid, joined, lasting, shows_anything, PlayerSubtitleFrame, RenderedText,
    SubtitleFrameState,
};
use crate::presenter::trace::DanmakuTimeTrace;
use crate::renderer::error::RendererError;
use crate::renderer::stats::RendererRuntimeStats;
use crate::subtitle::bitmap::{parts_model, planes_view};
use crate::time::Duration;
use vstd::arithmetic::power2::{lemma2_to64, lemma2_to64_rest, pow2};
use vstd::prelude::*;

verus! {

// ---------------------------------------------------------------------------
// Configuration
// ---------------------------------------------------------------------------

/// How audio is queued.
#[derive(Debug, Clone, Copy, PartialEq, Eq, Structural)]
pub struct PresenterAudioConfig {
    pub ring_buffer: AudioRingBufferConfig,
}

impl Default for PresenterAudioConfig {
    fn default() -> (result: Self)
        ensures
            result.ring_buffer == (AudioRingBufferConfig {
                capacity_frames: 96_000,
                drop_oldest_on_overflow: true,
            }),
    {
        Self {
            ring_buffer: AudioRingBufferConfig {
                capacity_frames: 96_000,
                drop_oldest_on_overflow: true,
            },
        }
    }
}

/// What the renderer with a device of its own starts with: nothing can be set.
#[derive(Debug, Clone, Default)]
pub struct WgpuRendererConfig {}

/// What a presenter starts with.
#[derive(Debug)]
pub struct PresenterConfig {
    pub audio: PresenterAudioConfig,
    pub renderer: WgpuRendererConfig,
    pub danmaku: Option<DanmakuTimeline>,
    pub danmaku_config: DanmakuLayoutConfig,
    pub render_test_pattern_when_idle: bool,
}

impl Default for PresenterConfig {
    fn default() -> (result: Self)
        ensures
            result.danmaku is None,
            result.danmaku_config@ == default_settings(),
            !result.render_test_pattern_when_idle,
            result.audio.ring_buffer == (AudioRingBufferConfig {
                capacity_frames: 96_000,
                drop_oldest_on_overflow: true,
            }),
    {
        Self {
            audio: PresenterAudioConfig::default(),
            renderer: WgpuRendererConfig {  },
            danmaku: None,
            danmaku_config: DanmakuLayoutConfig::default(),
            render_test_pattern_when_idle: false,
        }
    }
}

/// Which renderer is asked for.
#[derive(Debug, Clone, Copy, PartialEq, Eq, Structural)]
pub enum RendererBackendPreference {
    Auto,
    PlatformNative,
    WgpuFallback,
    FlutterTexture,
}

/// The renderer that is built.
#[derive(Debug, Clone, Copy, PartialEq, Eq, Structural)]
pub enum RendererChoice {
    Metal,
    Wgpu,
}

/// Chooses the renderer: where there are layers, that of layers, unless the other
/// is asked for; and the other only if it is built in.
pub fn build_renderer(
    preference: RendererBackendPreference,
    has_layers: bool,
    has_wgpu: bool,
) -> (result: core::result::Result<RendererChoice, RendererError>)
    ensures
        result == (match preference {
            RendererBackendPreference::FlutterTexture => Err::<RendererChoice, RendererError>(
                RendererError::FlutterOnPresenter,
            ),
            _ => if preference != RendererBackendPreference::WgpuFallback && has_layers {
                Ok(RendererChoice::Metal)
            } else if has_wgpu {
                Ok(RendererChoice::Wgpu)
            } else {
                Err(RendererError::NoWgpu)
            },
        }),
{
    match preference {
        RendererBackendPreference::FlutterTexture => Err(RendererError::FlutterOnPresenter),
        _ => if preference != RendererBackendPreference::WgpuFallback && has_layers {
            Ok(RendererChoice::Metal)
        } else if has_wgpu {
            Ok(RendererChoice::Wgpu)
        } else {
            Err(RendererError::NoWgpu)
        },
    }
}

/// What happened since the presenter was made.
#[derive(Debug, Clone, Copy, PartialEq, Eq, Structural)]
pub struct PresenterStats {
    pub decoded_video_frames: u64,
    pub rendered_video_frames: u64,
    pub rendered_test_frames: u64,
    pub pushed_audio_frames: u64,
    pub decoded_subtitle_frames: u64,
    pub overlay_frames: u64,
    pub danmaku_frames: u64,
    pub danmaku_items: u64,
    pub import_failures: u64,
    pub render_failures: u64,
    pub audio_failures: u64,
}

impl Default for PresenterStats {
    fn default() -> (result: Self)
        ensures
            result == no_stats(),
    {
        Self {
            decoded_video_frames: 0,
            rendered_video_frames: 0,
            rendered_test_frames: 0,
            pushed_audio_frames: 0,
            decoded_subtitle_frames: 0,
            overlay_frames: 0,
            danmaku_frames: 0,
            danmaku_items: 0,
            import_failures: 0,
            render_failures: 0,
            audio_failures: 0,
        }
    }
}

/// The counters at the start.
pub open spec fn no_stats() -> PresenterStats {
    PresenterStats {
        decoded_video_frames: 0,
        rendered_video_frames: 0,
        rendered_test_frames: 0,
        pushed_audio_frames: 0,
        decoded_subtitle_frames: 0,
        overlay_frames: 0,
        danmaku_frames: 0,
        danmaku_items: 0,
        import_failures: 0,
        render_failures: 0,
        audio_failures: 0,
    }
}

// ---------------------------------------------------------------------------
// Generations and viewports
// ---------------------------------------------------------------------------

/// The larger of two numbers.
pub open spec fn larger(a: u64, b: u64) -> u64 {
    if a >= b {
        a
    } else {
        b
    }
}

fn larger_of(a: u64, b: u64) -> (result: u64)
    ensures
        result == larger(a, b),
{
    if a >= b {
        a
    } else {
        b
    }
}

/// The number after this one, held at the largest machine number.
pub open spec fn following(value: u64) -> u64 {
    if value == u64::MAX {
        value
    } else {
        (value + 1) as u64
    }
}

fn following_of(value: u64) -> (result: u64)
    ensures
        result == following(value),
{
    if value == u64::MAX {
        value
    } else {
        value + 1
    }
}

/// Begins a new generation of comments.
pub fn bump_generation(current_generation: &mut u64, danmaku_generation: &mut u64)
    ensures
        *final(danmaku_generation) == following(*old(danmaku_generation)),
        *final(current_generation) == larger(
            following(*old(current_generation)),
            following(*old(danmaku_generation)),
        ),
{
    *danmaku_generation = following_of(*danmaku_generation);
    *current_generation = larger_of(following_of(*current_generation), *danmaku_generation);
}

/// Until the numbers run out, a new generation comes after all before it.
pub proof fn law_new_generation_is_newer(current: u64, danmaku: u64)
    requires
        current < u64::MAX,
    ensures
        larger(following(current), following(danmaku)) > current,
        larger(following(current), following(danmaku)) >= following(danmaku),
{
}

/// The scale of a surface: at least one, and one where it is not finite.
pub open spec fn surface_scale(scale: Double) -> Double {
    if scale.is_finite() && !scale.has_sign() && scale.bits > RATE_ONE {
        scale
    } else {
        Double { bits: RATE_ONE }
    }
}

/// The pixels of a surface.
pub open spec fn surface_viewport(width: u32, height: u32, scale: Double) -> DanmakuViewport {
    let used = surface_scale(scale);
    let factor = (used.mantissa(), used.scale());
    viewport_of(
        scaled_whole(points_of(width), factor, u32::MAX as nat) as u32,
        scaled_whole(points_of(height), factor, u32::MAX as nat) as u32,
        used.narrowed(),
    )
}

fn used_scale(scale: Double) -> (result: Double)
    ensures
        result == surface_scale(scale),
        result.is_finite(),
{
    let used = if scale.bits > RATE_ONE && scale.bits < 0x7ff0_0000_0000_0000 {
        scale
    } else {
        Double { bits: RATE_ONE }
    };
    proof {
        if scale.bits < 0x8000_0000_0000_0000 {
            assert(scale.is_finite() == (scale.bits < 0x7ff0_0000_0000_0000));
        }
        assert(used == surface_scale(scale));
        assert(used.is_finite());
    }
    used
}

/// The points of a side; none counts as one.
pub open spec fn points_of(size: u32) -> nat {
    if size == 0 {
        1
    } else {
        size as nat
    }
}

/// The pixels of a surface of a size in points.
pub fn scaled_size(width: u32, height: u32, scale: Double) -> (result: (u32, u32))
    ensures
        ({
            let used = surface_scale(scale);
            let factor = (used.mantissa(), used.scale());
            &&& result.0 == scaled_whole(points_of(width), factor, u32::MAX as nat)
            &&& result.1 == scaled_whole(points_of(height), factor, u32::MAX as nat)
        }),
{
    let (m, e) = used_scale(scale).digits();
    let width: u32 = if width == 0 {
        1
    } else {
        width
    };
    let height: u32 = if height == 0 {
        1
    } else {
        height
    };
    (scale_whole(width, m, e, u32::MAX), scale_whole(height, m, e, u32::MAX))
}

/// The pixels of a surface of a size in points.
pub fn surface_dimensions_to_viewport(width: u32, height: u32, scale: Double) -> (result:
    DanmakuViewport)
    ensures
        result == surface_viewport(width, height, scale),
{
    let (pixel_width, pixel_height) = scaled_size(width, height, scale);
    DanmakuViewport::with_scale(pixel_width, pixel_height, used_scale(scale).narrow())
}

// ---------------------------------------------------------------------------
// Runtime
// ---------------------------------------------------------------------------

/// What was heard when the clock was last moved.
#[derive(Debug, Clone, Copy, PartialEq, Eq, Structural)]
pub struct AudioClockSyncState {
    pub media_time: Duration,
    pub read_frames: u64,
}

/// The time, surface and generation that comments are to be placed for.
#[derive(Debug, Clone, Copy, PartialEq, Eq, Structural)]
pub struct PlanRequest {
    pub media_time: Duration,
    pub viewport: DanmakuViewport,
    pub generation: u64,
}

/// What came of drawing a frame.
#[derive(Debug, Clone, Copy, PartialEq, Eq, Structural)]
pub enum RenderOutcome {
    /// A frame was drawn.
    Shown,
    /// There was no frame to draw.
    Idle,
    /// Drawing failed.
    Failed,
}

/// What is done next with samples that came.
#[derive(Debug, Clone, Copy, PartialEq, Eq, Structural)]
pub enum AudioStep {
    /// The output is told of their format.
    Configure,
    /// The output takes them.
    Push,
    /// The output is started.
    Start,
    /// Nothing is left to do.
    Done,
}

/// What happened to samples.
#[derive(Debug, Clone, Copy, PartialEq, Eq, Structural)]
pub enum AudioEvent {
    /// They came.
    Arrived,
    /// The output was told of their format.
    Configured { is_ok: bool },
    /// The output took them, and then stood at a point.
    Pushed { is_ok: bool, snapshot: Option<AudioClockSnapshot> },
    /// The output was started.
    Started { is_ok: bool },
}

impl AudioEvent {
    /// Whether something went wrong.
    pub open spec fn is_failure(self) -> bool {
        match self {
            AudioEvent::Arrived => false,
            AudioEvent::Configured { is_ok } => !is_ok,
            AudioEvent::Pushed { is_ok, .. } => !is_ok,
            AudioEvent::Started { is_ok } => !is_ok,
        }
    }
}

/// How long the parts of the last frame took.
#[derive(Debug, Clone, Copy, PartialEq, Eq, Structural)]
pub struct TickTimes {
    pub tick: Duration,
    pub pump: Duration,
    pub audio_pump: Duration,
    pub subtitle_pump: Duration,
    pub video_pump: Duration,
    pub clock_sync: Duration,
    pub danmaku_plan: Duration,
    pub render: Duration,
    pub render_current: Duration,
    pub render_test: Duration,
}

/// The queue that audio must hold before it is started, in nanoseconds.
pub const AUDIO_START_BUFFER: u64 = 50_000_000;

/// The state of a presenter.
#[derive(Debug)]
pub struct PresenterRuntime {
    pub audio_configured: bool,
    pub audio_started: bool,
    pub last_audio_clock_sync: Option<AudioClockSyncState>,
    pub current_overlay: Option<OverlayFrame>,
    pub current_danmaku: Option<DanmakuRenderPlan>,
    pub current_media_time: Duration,
    pub current_generation: u64,
    pub current_output_viewport: Option<DanmakuViewport>,
    pub current_danmaku_viewport: Option<DanmakuViewport>,
    pub subtitles: SubtitleFrameState,
    pub render_test_pattern_when_idle: bool,
    pub danmaku_session: DanmakuSession,
    pub danmaku: DfmLayoutEngine,
    pub danmaku_generation: u64,
    pub danmaku_trace: DanmakuTimeTrace,
    pub stats: PresenterStats,
    pub video_decode_backend: Option<DecoderBackend>,
}

/// The comments that an engine holds after it was given some: those it had, where
/// they are the same.
pub open spec fn synced_items(held: Seq<ItemModel>, given: Seq<ItemModel>) -> Seq<ItemModel> {
    if same_items(held, given) {
        held
    } else {
        given
    }
}

impl PresenterRuntime {
    /// Whether the comments are kept as they should be.
    pub open spec fn wf(self) -> bool {
        self.danmaku_session.wf()
    }

    /// A presenter that has shown nothing.
    pub fn new(config: PresenterConfig, trace_enabled: bool) -> (result: Self)
        ensures
            result.wf(),
            !result.audio_configured,
            !result.audio_started,
            result.last_audio_clock_sync is None,
            result.current_overlay is None,
            result.current_danmaku is None,
            result.current_media_time@ == 0,
            result.current_generation == 1,
            result.current_output_viewport is None,
            result.current_danmaku_viewport is None,
            result.subtitles.frames@.len() == 0,
            result.render_test_pattern_when_idle == config.render_test_pattern_when_idle,
            result.danmaku_session@ == (match config.danmaku {
                Some(timeline) => SessionModel {
                    tracks: seq![
                        fresh_track(1, "default"@, DanmakuTrackSource::Unknown, timeline@),
                    ],
                    next_track_id: 2,
                    global_offset: 0,
                    version: 2,
                },
                None => SessionModel {
                    tracks: Seq::empty(),
                    next_track_id: 1,
                    global_offset: 0,
                    version: 1,
                },
            }),
            result.danmaku.items() == result.danmaku_session@.active(),
            result.danmaku.settings() == config.danmaku_config@.sanitized(),
            result.danmaku.layout() is None,
            result.danmaku_generation == 1,
            result.danmaku_trace.is_fresh(trace_enabled),
            result.stats == no_stats(),
            result.video_decode_backend is None,
    {
        let mut danmaku_session = match config.danmaku {
            Some(timeline) => DanmakuSession::from_timeline(timeline),
            None => DanmakuSession::new(),
        };
        assert(config.danmaku is None ==> danmaku_session@.tracks =~= Seq::empty());
        let timeline = danmaku_session.active_timeline_clone();
        Self {
            audio_configured: false,
            audio_started: false,
            last_audio_clock_sync: None,
            current_overlay: None,
            current_danmaku: None,
            current_media_time: Duration::zero(),
            current_generation: 1,
            current_output_viewport: None,
            current_danmaku_viewport: None,
            subtitles: SubtitleFrameState::default(),
            render_test_pattern_when_idle: config.render_test_pattern_when_idle,
            danmaku_session,
            danmaku: DfmLayoutEngine::new(timeline, config.danmaku_config),
            danmaku_generation: 1,
            danmaku_trace: DanmakuTimeTrace::new(trace_enabled),
            stats: PresenterStats::default(),
            video_decode_backend: None,
        }
    }

    // -----------------------------------------------------------------------
    // Surface
    // -----------------------------------------------------------------------

    /// Draws to a surface from now on.
    pub fn attach_surface(&mut self, viewport: Option<DanmakuViewport>)
        ensures
            *final(self) == (PresenterRuntime {
                current_output_viewport: viewport,
                current_danmaku: None,
                current_danmaku_viewport: None,
                ..*old(self)
            }),
    {
        self.current_output_viewport = viewport;
        self.current_danmaku = None;
        self.current_danmaku_viewport = None;
    }

    /// Draws to no surface from now on.
    pub fn detach_surface(&mut self)
        ensures
            *final(self) == (PresenterRuntime {
                current_output_viewport: None,
                current_danmaku: None,
                current_danmaku_viewport: None,
                ..*old(self)
            }),
    {
        self.attach_surface(None);
    }

    /// Draws to a surface of another size from now on.
    pub fn resize_surface(&mut self, width: u32, height: u32, scale: Double)
        ensures
            *final(self) == (PresenterRuntime {
                current_output_viewport: Some(surface_viewport(width, height, scale)),
                current_danmaku: None,
                current_danmaku_viewport: None,
                last_audio_clock_sync: None,
                ..*old(self)
            }),
    {
        self.attach_surface(Some(surface_dimensions_to_viewport(width, height, scale)));
        self.last_audio_clock_sync = None;
    }

    /// The size that is drawn to; zero without a surface.
    pub fn output_size(&self) -> (result: (u32, u32))
        ensures
            result == (match self.current_output_viewport {
                Some(viewport) => (viewport.width, viewport.height),
                None => (0u32, 0u32),
            }),
    {
        match self.current_output_viewport {
            Some(viewport) => (viewport.width, viewport.height),
            None => (0, 0),
        }
    }

    // -----------------------------------------------------------------------
    // Playback
    // -----------------------------------------------------------------------

    /// Begins another file, after the audio output was stopped or failed to.
    pub fn open(&mut self, audio_stopped: bool)
        requires
            !audio_stopped ==> old(self).stats.audio_failures < u64::MAX,
        ensures
            *final(self) == (PresenterRuntime {
                current_media_time: final(self).current_media_time,
                current_generation: larger(following(old(self).current_generation), 1),
                ..old(self).cleared(audio_stopped)
            }),
            final(self).current_media_time@ == 0,
    {
        self.clear_frames(audio_stopped);
        self.current_media_time = Duration::zero();
        self.current_generation = larger_of(following_of(self.current_generation), 1);
    }

    /// Pauses, after the audio output was paused or failed to.
    pub fn pause(&mut self, audio_paused: bool)
        requires
            !audio_paused ==> old(self).stats.audio_failures < u64::MAX,
        ensures
            *final(self) == old(self).paused(audio_paused),
    {
        if !audio_paused {
            self.stats.audio_failures += 1;
        }
        self.audio_started = false;
        self.last_audio_clock_sync = None;
    }

    /// Stops, after the audio output was stopped or failed to.
    pub fn stop(&mut self, audio_stopped: bool)
        requires
            !audio_stopped ==> old(self).stats.audio_failures < u64::MAX,
        ensures
            *final(self) == old(self).cleared(audio_stopped).bumped(),
    {
        self.clear_frames(audio_stopped);
        self.bump_danmaku_generation();
    }

    /// Closes the file, after the audio output was stopped or failed to.
    pub fn close(&mut self, audio_stopped: bool)
        requires
            !audio_stopped ==> old(self).stats.audio_failures < u64::MAX,
        ensures
            *final(self) == old(self).cleared(audio_stopped).bumped(),
    {
        self.stop(audio_stopped);
    }

    /// Goes on at another position, after the audio output was stopped or failed
    /// to.
    pub fn seek(&mut self, position: Duration, audio_stopped: bool)
        requires
            !audio_stopped ==> old(self).stats.audio_failures < u64::MAX,
        ensures
            *final(self) == old(self).sought(position, audio_stopped),
            final(self).current_media_time == position,
    {
        self.clear_frames(audio_stopped);
        self.current_media_time = position;
        self.bump_danmaku_generation();
    }

    /// The state at another position.
    pub open spec fn sought(self, position: Duration, audio_stopped: bool) -> Self {
        PresenterRuntime {
            current_media_time: position,
            ..self.cleared(audio_stopped).bumped()
        }
    }

    /// The state while nothing is played.
    pub open spec fn paused(self, audio_paused: bool) -> Self {
        PresenterRuntime {
            stats: counted_failure(self.stats, audio_paused),
            audio_started: false,
            last_audio_clock_sync: None,
            ..self
        }
    }

    /// The state with a video frame on the screen.
    pub open spec fn showing(self, time: Duration, generation: u64) -> Self {
        PresenterRuntime {
            current_media_time: time,
            current_generation: self.plan_generation(generation),
            ..self
        }
    }

    /// What comments have to be placed for, if they have to.
    pub open spec fn wanted_plan(self) -> Option<PlanRequest> {
        match self.current_danmaku_viewport {
            Some(viewport) => if self.is_stale() {
                Some(
                    PlanRequest {
                        media_time: self.current_media_time,
                        viewport,
                        generation: self.current_generation,
                    },
                )
            } else {
                None
            },
            None => None,
        }
    }

    /// The state without anything on the screen or in the audio output.
    pub open spec fn cleared(self, audio_stopped: bool) -> Self {
        PresenterRuntime {
            stats: counted_failure(self.stats, audio_stopped),
            audio_configured: false,
            audio_started: false,
            last_audio_clock_sync: None,
            current_overlay: None,
            current_danmaku: None,
            current_danmaku_viewport: None,
            ..self
        }
    }

    /// The state with a new generation of comments.
    pub open spec fn bumped(self) -> Self {
        PresenterRuntime {
            danmaku_generation: following(self.danmaku_generation),
            current_generation: larger(
                following(self.current_generation),
                following(self.danmaku_generation),
            ),
            ..self
        }
    }

    fn clear_frames(&mut self, audio_stopped: bool)
        requires
            !audio_stopped ==> old(self).stats.audio_failures < u64::MAX,
        ensures
            *final(self) == old(self).cleared(audio_stopped),
    {
        self.reset_audio_output(audio_stopped);
        self.current_overlay = None;
        self.current_danmaku = None;
        self.current_danmaku_viewport = None;
    }

    fn bump_danmaku_generation(&mut self)
        ensures
            *final(self) == old(self).bumped(),
    {
        let mut current: u64 = self.current_generation;
        let mut danmaku: u64 = self.danmaku_generation;
        bump_generation(&mut current, &mut danmaku);
        self.current_generation = current;
        self.danmaku_generation = danmaku;
    }

    // -----------------------------------------------------------------------
    // Comments
    // -----------------------------------------------------------------------

    /// Whether the comments are those of a session, in a new generation, with no
    /// plan.
    pub open spec fn follows(self, before: Self, session: SessionModel) -> bool {
        &&& self.wf()
        &&& self.danmaku_session@ == session
        &&& self.danmaku.items() == synced_items(before.danmaku.items(), session.active())
        &&& self.danmaku.layout() == (if same_items(before.danmaku.items(), session.active()) {
            before.danmaku.layout()
        } else {
            None
        })
        &&& self.danmaku.settings() == before.danmaku.settings()
        &&& self == (PresenterRuntime {
            danmaku_session: self.danmaku_session,
            danmaku: self.danmaku,
            current_danmaku: None,
            current_danmaku_viewport: None,
            ..before.bumped()
        })
    }

    fn follow_session(&mut self)
        requires
            old(self).wf(),
        ensures
            final(self).follows(*old(self), old(self).danmaku_session@),
    {
        let timeline = self.danmaku_session.active_timeline_clone();
        self.danmaku.sync_timeline(&timeline);
        self.current_danmaku = None;
        self.current_danmaku_viewport = None;
        self.bump_danmaku_generation();
    }

    /// Shows the comments of one timeline.
    pub fn set_danmaku_timeline(&mut self, timeline: DanmakuTimeline)
        requires
            old(self).wf(),
        ensures
            final(self).follows(
                *old(self),
                SessionModel {
                    tracks: seq![
                        fresh_track(1, "default"@, DanmakuTrackSource::Unknown, timeline@),
                    ],
                    next_track_id: 2,
                    version: newer(old(self).danmaku_session@.version),
                    ..old(self).danmaku_session@
                },
            ),
    {
        let _ = self.danmaku_session.replace_default_track(
            timeline,
            "default".to_owned(),
            DanmakuTrackSource::Unknown,
        );
        self.follow_session();
    }

    /// Adds a track of comments.
    pub fn add_danmaku_track(
        &mut self,
        timeline: DanmakuTimeline,
        name: String,
        source: DanmakuTrackSource,
        offset_micros: i64,
    ) -> (result: u64)
        requires
            old(self).wf(),
        ensures
            result == old(self).danmaku_session@.next_id(),
            final(self).follows(
                *old(self),
                old(self).danmaku_session@.with_track(
                    fresh_track(result, name@, source, timeline@),
                ).with_offset(result, offset_micros),
            ),
    {
        let id: u64 = self.danmaku_session.add_track_with_offset(
            timeline,
            name,
            source,
            offset_micros,
        );
        self.follow_session();
        id
    }

    /// Takes a track of comments out, and tells whether it was there.
    pub fn remove_danmaku_track(&mut self, track_id: u64) -> (result: bool)
        requires
            old(self).wf(),
        ensures
            ({
                let tracks = old(self).danmaku_session@.tracks;
                let kept = without_track(tracks, track_id);
                &&& result <==> kept.len() != tracks.len()
                &&& result ==> final(self).follows(
                    *old(self),
                    SessionModel {
                        tracks: kept,
                        version: newer(old(self).danmaku_session@.version),
                        ..old(self).danmaku_session@
                    },
                )
                &&& !result ==> final(self).is_as_before(*old(self))
            }),
    {
        let removed = self.danmaku_session.remove_track(track_id);
        if removed {
            self.follow_session();
        } else {
            proof {
                lemma_nothing_taken(old(self).danmaku_session@.tracks, track_id);
            }
        }
        removed
    }

    /// Whether nothing that can be told changed.
    pub open spec fn is_as_before(self, before: Self) -> bool {
        &&& self.wf()
        &&& self.danmaku_session@ == before.danmaku_session@
        &&& self == (PresenterRuntime { danmaku_session: self.danmaku_session, ..before })
    }

    /// Shows or hides the comments of a track, and tells whether it is there.
    pub fn set_danmaku_track_enabled(&mut self, track_id: u64, enabled: bool) -> (result: bool)
        requires
            old(self).wf(),
        ensures
            match track_index(old(self).danmaku_session@.tracks, track_id, 0) {
                None => !result && final(self).is_as_before(*old(self)),
                Some(at) => {
                    let session = old(self).danmaku_session@;
                    let track = session.tracks[at];
                    &&& result
                    &&& final(self).follows(
                        *old(self),
                        SessionModel {
                            tracks: session.tracks.update(at, TrackModel { enabled, ..track }),
                            version: if track.enabled == enabled {
                                session.version
                            } else {
                                newer(session.version)
                            },
                            ..session
                        },
                    )
                },
            },
    {
        let updated = self.danmaku_session.set_track_enabled(track_id, enabled);
        if updated {
            self.follow_session();
        }
        updated
    }

    /// Sets the offset of a track, and tells whether it is there.
    pub fn set_danmaku_track_offset(&mut self, track_id: u64, offset_micros: i64) -> (result: bool)
        requires
            old(self).wf(),
        ensures
            result <==> track_index(old(self).danmaku_session@.tracks, track_id, 0) is Some,
            result ==> final(self).follows(
                *old(self),
                old(self).danmaku_session@.with_offset(track_id, offset_micros),
            ),
            !result ==> final(self).is_as_before(*old(self)),
    {
        let updated = self.danmaku_session.set_track_offset(track_id, offset_micros);
        if updated {
            self.follow_session();
        }
        updated
    }

    /// Sets the offset of all tracks together.
    pub fn set_danmaku_global_offset(&mut self, offset_micros: i64)
        requires
            old(self).wf(),
        ensures
            final(self).follows(
                *old(self),
                SessionModel {
                    global_offset: offset_micros,
                    version: if old(self).danmaku_session@.global_offset == offset_micros {
                        old(self).danmaku_session@.version
                    } else {
                        newer(old(self).danmaku_session@.version)
                    },
                    ..old(self).danmaku_session@
                },
            ),
    {
        self.danmaku_session.set_global_offset(offset_micros);
        self.follow_session();
    }

    /// What is told about the tracks of comments.
    pub fn danmaku_tracks(&self) -> (result: Vec<DanmakuTrackInfo>)
        ensures
            result@.len() == self.danmaku_session@.tracks.len(),
            forall|i: int|
                0 <= i < result@.len() ==> tells_of(
                    #[trigger] result@[i],
                    self.danmaku_session@.tracks[i],
                ),
    {
        self.danmaku_session.track_infos()
    }

    /// Takes all comments out.
    pub fn clear_danmaku(&mut self)
        requires
            old(self).wf(),
        ensures
            final(self).wf(),
            final(self).danmaku_session@ == (if old(self).danmaku_session@.tracks.len() == 0 && !old(
                self,
            ).danmaku_session.holds_timeline() {
                old(self).danmaku_session@
            } else {
                SessionModel {
                    tracks: Seq::empty(),
                    next_track_id: 1,
                    version: newer(old(self).danmaku_session@.version),
                    ..old(self).danmaku_session@
                }
            }),
            !final(self).danmaku_session.holds_timeline(),
            final(self).danmaku.items() == Seq::<ItemModel>::empty(),
            final(self).danmaku.settings() == old(self).danmaku.settings(),
            final(self).danmaku.layout() is None,
            *final(self) == (PresenterRuntime {
                danmaku_session: final(self).danmaku_session,
                danmaku: final(self).danmaku,
                current_danmaku: None,
                current_danmaku_viewport: None,
                ..old(self).bumped()
            }),
    {
        self.danmaku_session.clear();
        self.danmaku.clear_timeline();
        self.current_danmaku = None;
        self.current_danmaku_viewport = None;
        self.bump_danmaku_generation();
    }

    /// Whether comments are laid out by given settings: the same as before, or new
    /// ones in a new generation.
    pub open spec fn is_set_to(self, before: Self, config: ConfigModel) -> bool {
        let settings = config.sanitized();
        if before.danmaku.settings().is_same(settings) {
            &&& self.danmaku.items() == before.danmaku.items()
            &&& self.danmaku.settings() == before.danmaku.settings()
            &&& self.danmaku.layout() == before.danmaku.layout()
            &&& self == (PresenterRuntime { danmaku: self.danmaku, ..before })
        } else {
            &&& self.danmaku.items() == before.danmaku.items()
            &&& self.danmaku.settings() == settings
            &&& self.danmaku.layout() is None
            &&& self == (PresenterRuntime {
                danmaku: self.danmaku,
                current_danmaku: None,
                current_danmaku_viewport: None,
                ..before.bumped()
            })
        }
    }

    /// Lays comments out otherwise from now on.
    pub fn set_danmaku_config(&mut self, config: DanmakuLayoutConfig)
        ensures
            final(self).is_set_to(*old(self), config@),
    {
        let (changed, _) = self.danmaku.set_config(config);
        if !changed {
            return ;
        }
        self.current_danmaku = None;
        self.current_danmaku_viewport = None;
        self.bump_danmaku_generation();
    }

    /// Shows or hides all comments.
    pub fn set_danmaku_enabled(&mut self, enabled: bool)
        ensures
            final(self).is_set_to(
                *old(self),
                ConfigModel { enabled, ..old(self).danmaku.settings() },
            ),
    {
        let mut config = self.danmaku.config().duplicate();
        config.enabled = enabled;
        self.set_danmaku_config(config);
    }

    /// Draws comments in another font.
    pub fn set_danmaku_font(&mut self, family: String, file_path: String)
        ensures
            final(self).is_set_to(
                *old(self),
                ConfigModel {
                    font_family: family@,
                    font_file_path: file_path@,
                    ..old(self).danmaku.settings()
                },
            ),
    {
        let mut config = self.danmaku.config().duplicate();
        config.custom_font_family = family;
        config.custom_font_file_path = file_path;
        self.set_danmaku_config(config);
    }

    /// How comments are laid out.
    pub fn danmaku_config(&self) -> (result: &DanmakuLayoutConfig)
        ensures
            result@ == self.danmaku.settings(),
    {
        self.danmaku.config()
    }

    // -----------------------------------------------------------------------
    // Video
    // -----------------------------------------------------------------------

    /// Whether something decoded is still of use: it is not from before the last
    /// change of the position.
    pub fn accepts(generation: u64, player_generation: u64) -> (result: bool)
        ensures
            result == (generation >= player_generation),
    {
        generation >= player_generation
    }

    /// Takes note of a decoded video frame.
    pub fn take_video_frame(&mut self, backend: DecoderBackend)
        requires
            old(self).stats.decoded_video_frames < u64::MAX,
        ensures
            *final(self) == (PresenterRuntime {
                video_decode_backend: Some(backend),
                stats: PresenterStats {
                    decoded_video_frames: (old(self).stats.decoded_video_frames + 1) as u64,
                    ..old(self).stats
                },
                ..*old(self)
            }),
    {
        self.video_decode_backend = Some(backend);
        self.stats.decoded_video_frames += 1;
    }

    /// Takes note of a video frame that could not be drawn from.
    pub fn import_failed(&mut self)
        requires
            old(self).stats.import_failures < u64::MAX,
        ensures
            *final(self) == (PresenterRuntime {
                stats: PresenterStats {
                    import_failures: (old(self).stats.import_failures + 1) as u64,
                    ..old(self).stats
                },
                ..*old(self)
            }),
    {
        self.stats.import_failures += 1;
    }

    /// The generation that comments are placed for.
    pub open spec fn plan_generation(self, generation: u64) -> u64 {
        larger(larger(generation, self.danmaku_generation), 1)
    }

    /// Shows a video frame: its time becomes the media time. Gives that time.
    pub fn show_video_frame(
        &mut self,
        pts: Option<Duration>,
        media_time: Duration,
        generation: u64,
    ) -> (result: Duration)
        ensures
            result == shown_time(pts, media_time),
            *final(self) == old(self).showing(result, generation),
    {
        let time = match pts {
            Some(pts) => pts,
            None => media_time,
        };
        self.current_media_time = time;
        self.current_generation = larger_of(larger_of(generation, self.danmaku_generation), 1);
        time
    }

    /// Draws subtitles over a video frame of some size, given what else is drawn
    /// and what came of rendering text. Gives what comments are to be placed for.
    pub fn update_overlay(
        &mut self,
        pts: Duration,
        generation: u64,
        frame_viewport: DanmakuViewport,
        base: OverlayFrame,
        text: RenderedText,
    ) -> (result: PlanRequest)
        requires
            shows_anything(base, old(self).subtitles.frames@, pts@, text) ==> old(
                self,
            ).stats.overlay_frames < u64::MAX,
            text is Failed ==> can_box(old(self).subtitles.frames@, pts@, base.viewport),
        ensures
            ({
                let overlay = final(self).current_overlay->0;
                let is_drawn = shows_anything(base, old(self).subtitles.frames@, pts@, text);
                &&& final(self).current_overlay is Some
                &&& is_overlaid(base, overlay, old(self).subtitles.frames@, pts@, text)
                &&& final(self).subtitles.frames@ == lasting(old(self).subtitles.frames@, pts@)
                &&& result.media_time == pts
                &&& result.generation == old(self).plan_generation(generation)
                &&& result.viewport == (match old(self).current_output_viewport {
                    Some(viewport) => viewport,
                    None => frame_viewport,
                })
                &&& *final(self) == (PresenterRuntime {
                    subtitles: final(self).subtitles,
                    current_overlay: final(self).current_overlay,
                    current_danmaku_viewport: Some(result.viewport),
                    stats: PresenterStats {
                        overlay_frames: if is_drawn {
                            (old(self).stats.overlay_frames + 1) as u64
                        } else {
                            old(self).stats.overlay_frames
                        },
                        ..old(self).stats
                    },
                    ..*old(self)
                })
            }),
    {
        let mut overlay = base;
        self.subtitles.append_rendered(pts, &mut overlay, text);
        proof {
            assert(planes_view(overlay.subtitle_planes@).len() == overlay.subtitle_planes@.len());
            assert(parts_model(overlay.subtitle_alpha_planes@).len()
                == overlay.subtitle_alpha_planes@.len());
            assert(planes_view(base.subtitle_planes@).len() == base.subtitle_planes@.len());
            assert(parts_model(base.subtitle_alpha_planes@).len()
                == base.subtitle_alpha_planes@.len());
        }
        if !overlay.is_empty() {
            self.stats.overlay_frames += 1;
        }
        self.current_overlay = Some(overlay);
        let viewport = match self.current_output_viewport {
            Some(viewport) => viewport,
            None => frame_viewport,
        };
        self.current_danmaku_viewport = Some(viewport);
        PlanRequest {
            media_time: pts,
            viewport,
            generation: larger_of(larger_of(generation, self.danmaku_generation), 1),
        }
    }

    /// The counters after a plan was drawn up.
    pub open spec fn counted_plan(self) -> PresenterStats {
        match self.current_danmaku {
            Some(plan) => if plan.items@.len() > 0 {
                PresenterStats {
                    danmaku_frames: (self.stats.danmaku_frames + 1) as u64,
                    danmaku_items: (self.stats.danmaku_items + plan.items@.len()) as u64,
                    ..self.stats
                }
            } else {
                self.stats
            },
            None => self.stats,
        }
    }

    /// Takes a plan for comments.
    pub fn take_plan(&mut self, plan: DanmakuRenderPlan)
        requires
            plan.items@.len() > 0 ==> old(self).stats.danmaku_frames < u64::MAX,
            old(self).stats.danmaku_items + plan.items@.len() <= u64::MAX,
        ensures
            *final(self) == (PresenterRuntime {
                current_danmaku: Some(plan),
                stats: (PresenterRuntime {
                    current_danmaku: Some(plan),
                    ..*old(self)
                }).counted_plan(),
                ..*old(self)
            }),
    {
        self.current_danmaku = Some(plan);
        self.record_current_danmaku_stats();
    }

    /// Whether the plan for comments is for another time or generation.
    pub open spec fn is_stale(self) -> bool {
        match self.current_danmaku {
            Some(plan) => plan.generation != self.current_generation || plan.media_time@
                != self.current_media_time@,
            None => true,
        }
    }

    /// Whether the counters have room for the plan at hand.
    pub open spec fn can_count_plan(self) -> bool {
        self.current_danmaku matches Some(plan) ==> plan.items@.len() > 0
            ==> self.stats.danmaku_frames < u64::MAX && self.stats.danmaku_items
            + plan.items@.len() <= u64::MAX
    }

    fn record_current_danmaku_stats(&mut self)
        requires
            old(self).can_count_plan(),
        ensures
            *final(self) == (PresenterRuntime { stats: old(self).counted_plan(), ..*old(self) }),
    {
        if let Some(plan) = &self.current_danmaku {
            if !plan.is_empty() {
                self.stats.danmaku_frames += 1;
                self.stats.danmaku_items += plan.items.len() as u64;
            }
        }
    }

    /// What comments have to be placed for, if the plan is stale and there is a
    /// surface. Without one, a stale plan is shown once more.
    pub fn refresh_stale_danmaku_plan(&mut self) -> (result: Option<PlanRequest>)
        requires
            old(self).is_stale() && old(self).current_danmaku_viewport is None
                ==> old(self).can_count_plan(),
        ensures
            result == old(self).wanted_plan(),
            *final(self) == (PresenterRuntime {
                stats: if old(self).is_stale() && old(self).current_danmaku_viewport is None {
                    old(self).counted_plan()
                } else {
                    old(self).stats
                },
                ..*old(self)
            }),
    {
        let stale = match &self.current_danmaku {
            Some(plan) => plan.generation != self.current_generation || !plan.media_time.same_as(
                self.current_media_time,
            ),
            None => true,
        };
        if !stale {
            return None;
        }
        match self.current_danmaku_viewport {
            Some(viewport) => Some(
                PlanRequest {
                    media_time: self.current_media_time,
                    viewport,
                    generation: self.current_generation,
                },
            ),
            None => {
                self.record_current_danmaku_stats();
                None
            },
        }
    }

    /// Follows the clock of the player. Gives the size of the overlay that has to
    /// be drawn anew, if the time changed and there is a surface.
    pub fn sync_media_time_from_player(&mut self, player_time: Duration, player_generation: u64) -> (result:
        Option<OverlayViewport>)
        ensures
            result == (match old(self).current_danmaku_viewport {
                Some(viewport) => if player_time@ != old(self).current_media_time@ {
                    Some(OverlayViewport { width: viewport.width, height: viewport.height })
                } else {
                    None
                },
                None => None,
            }),
            *final(self) == (PresenterRuntime {
                current_media_time: final(self).current_media_time,
                current_generation: larger(
                    larger(
                        larger(old(self).current_generation, player_generation),
                        old(self).danmaku_generation,
                    ),
                    1,
                ),
                ..*old(self)
            }),
            final(self).current_media_time@ == player_time@,
    {
        self.current_generation = larger_of(
            larger_of(
                larger_of(self.current_generation, player_generation),
                self.danmaku_generation,
            ),
            1,
        );
        if player_time.same_as(self.current_media_time) {
            return None;
        }
        self.current_media_time = player_time;
        match self.current_danmaku_viewport {
            Some(viewport) => Some(OverlayViewport::new(viewport.width, viewport.height)),
            None => None,
        }
    }

    /// Draws subtitles over what else is drawn at the media time.
    pub fn redraw_overlay(&mut self, base: OverlayFrame, text: RenderedText)
        requires
            text is Failed ==> can_box(
                old(self).subtitles.frames@,
                old(self).current_media_time@,
                base.viewport,
            ),
        ensures
            final(self).current_overlay is Some,
            is_overlaid(
                base,
                final(self).current_overlay->0,
                old(self).subtitles.frames@,
                old(self).current_media_time@,
                text,
            ),
            final(self).subtitles.frames@ == lasting(
                old(self).subtitles.frames@,
                old(self).current_media_time@,
            ),
            *final(self) == (PresenterRuntime {
                subtitles: final(self).subtitles,
                current_overlay: final(self).current_overlay,
                ..*old(self)
            }),
    {
        let mut overlay = base;
        self.subtitles.append_rendered(self.current_media_time, &mut overlay, text);
        self.current_overlay = Some(overlay);
    }

    /// Takes note of what came of drawing a frame. Tells whether a test pattern is
    /// to be drawn instead.
    pub fn frame_rendered(&mut self, outcome: RenderOutcome) -> (result: bool)
        requires
            outcome == RenderOutcome::Shown ==> old(self).stats.rendered_video_frames < u64::MAX,
            outcome == RenderOutcome::Failed ==> old(self).stats.render_failures < u64::MAX,
        ensures
            result == (outcome == RenderOutcome::Idle && old(self).render_test_pattern_when_idle),
            *final(self) == (PresenterRuntime {
                stats: match outcome {
                    RenderOutcome::Shown => PresenterStats {
                        rendered_video_frames: (old(self).stats.rendered_video_frames + 1) as u64,
                        ..old(self).stats
                    },
                    RenderOutcome::Idle => old(self).stats,
                    RenderOutcome::Failed => PresenterStats {
                        render_failures: (old(self).stats.render_failures + 1) as u64,
                        ..old(self).stats
                    },
                },
                ..*old(self)
            }),
    {
        match outcome {
            RenderOutcome::Shown => {
                self.stats.rendered_video_frames += 1;
                false
            },
            RenderOutcome::Idle => self.render_test_pattern_when_idle,
            RenderOutcome::Failed => {
                self.stats.render_failures += 1;
                false
            },
        }
    }

    /// Takes note of a test pattern that was drawn.
    pub fn test_frame_rendered(&mut self)
        requires
            old(self).stats.rendered_test_frames < u64::MAX,
        ensures
            *final(self) == (PresenterRuntime {
                stats: PresenterStats {
                    rendered_test_frames: (old(self).stats.rendered_test_frames + 1) as u64,
                    ..old(self).stats
                },
                ..*old(self)
            }),
    {
        self.stats.rendered_test_frames += 1;
    }

    /// Takes a decoded subtitle.
    pub fn take_subtitle(&mut self, frame: PlayerSubtitleFrame)
        requires
            old(self).stats.decoded_subtitle_frames < u64::MAX,
        ensures
            final(self).subtitles.frames@ == joined(old(self).subtitles.frames@, frame),
            *final(self) == (PresenterRuntime {
                subtitles: final(self).subtitles,
                stats: PresenterStats {
                    decoded_subtitle_frames: (old(self).stats.decoded_subtitle_frames + 1) as u64,
                    ..old(self).stats
                },
                ..*old(self)
            }),
    {
        self.stats.decoded_subtitle_frames += 1;
        self.subtitles.push(frame);
    }

    // -----------------------------------------------------------------------
    // Audio
    // -----------------------------------------------------------------------

    /// Whether what is heard should move the clock: something was read since the
    /// last time, and the time did not go back.
    pub open spec fn should_sync(self, snapshot: AudioClockSnapshot) -> bool {
        &&& snapshot.media_time is Some
        &&& snapshot.read_frames > 0
        &&& match self.last_audio_clock_sync {
            Some(previous) => snapshot.read_frames > previous.read_frames
                && snapshot.media_time->0@ >= previous.media_time@,
            None => true,
        }
    }

    /// Whether what is heard should move the clock; if so, it is kept in mind.
    pub fn should_sync_audio_clock(&mut self, snapshot: AudioClockSnapshot) -> (result: bool)
        ensures
            result == old(self).should_sync(snapshot),
            *final(self) == (PresenterRuntime {
                last_audio_clock_sync: if result {
                    Some(
                        AudioClockSyncState {
                            media_time: snapshot.media_time->0,
                            read_frames: snapshot.read_frames,
                        },
                    )
                } else {
                    old(self).last_audio_clock_sync
                },
                ..*old(self)
            }),
    {
        let media_time = match snapshot.media_time {
            Some(media_time) => media_time,
            None => {
                return false;
            },
        };
        if snapshot.read_frames == 0 {
            return false;
        }
        let should_sync = match self.last_audio_clock_sync {
            Some(previous) => snapshot.read_frames > previous.read_frames && !media_time.is_before(
                previous.media_time,
            ),
            None => true,
        };
        if should_sync {
            self.last_audio_clock_sync = Some(
                AudioClockSyncState { media_time, read_frames: snapshot.read_frames },
            );
        }
        should_sync
    }

    /// Takes note of how the audio output took a format.
    pub fn audio_configured(&mut self, is_ok: bool)
        requires
            !is_ok ==> old(self).stats.audio_failures < u64::MAX,
        ensures
            *final(self) == (PresenterRuntime {
                stats: counted_failure(old(self).stats, is_ok),
                audio_configured: is_ok || old(self).audio_configured,
                last_audio_clock_sync: if is_ok {
                    None
                } else {
                    old(self).last_audio_clock_sync
                },
                ..*old(self)
            }),
    {
        if is_ok {
            self.audio_configured = true;
            self.last_audio_clock_sync = None;
        } else {
            self.stats.audio_failures += 1;
        }
    }

    /// Takes note of how the audio output took samples.
    pub fn audio_pushed(&mut self, is_ok: bool)
        requires
            !is_ok ==> old(self).stats.audio_failures < u64::MAX,
            is_ok ==> old(self).stats.pushed_audio_frames < u64::MAX,
        ensures
            *final(self) == (PresenterRuntime {
                stats: if is_ok {
                    PresenterStats {
                        pushed_audio_frames: (old(self).stats.pushed_audio_frames + 1) as u64,
                        ..old(self).stats
                    }
                } else {
                    counted_failure(old(self).stats, false)
                },
                ..*old(self)
            }),
    {
        if is_ok {
            self.stats.pushed_audio_frames += 1;
        } else {
            self.stats.audio_failures += 1;
        }
    }

    /// Whether the audio output is to be started: it was not, and holds enough.
    pub fn should_start_audio(&self, snapshot: Option<AudioClockSnapshot>) -> (result: bool)
        ensures
            result == self.starts_audio(snapshot),
    {
        if self.audio_started {
            return false;
        }
        match snapshot {
            Some(snapshot) => match snapshot.queued_duration {
                Some(queued) => !queued.is_before(Duration::from_nanos(AUDIO_START_BUFFER)),
                None => false,
            },
            None => false,
        }
    }

    /// Takes note of how the audio output started.
    pub fn audio_started(&mut self, is_ok: bool)
        requires
            !is_ok ==> old(self).stats.audio_failures < u64::MAX,
        ensures
            *final(self) == (PresenterRuntime {
                stats: counted_failure(old(self).stats, is_ok),
                audio_started: is_ok || old(self).audio_started,
                last_audio_clock_sync: if is_ok {
                    None
                } else {
                    old(self).last_audio_clock_sync
                },
                ..*old(self)
            }),
    {
        if is_ok {
            self.audio_started = true;
            self.last_audio_clock_sync = None;
        } else {
            self.stats.audio_failures += 1;
        }
    }

    /// Whether the output was not started yet and holds enough to be.
    pub open spec fn starts_audio(self, snapshot: Option<AudioClockSnapshot>) -> bool {
        !self.audio_started && snapshot is Some && snapshot->0.queued_duration is Some
            && snapshot->0.queued_duration->0@ >= AUDIO_START_BUFFER
    }

    /// Takes note of what happened to samples, and says what is done next: they are
    /// pushed to an output that knows their format, which is started once it holds
    /// enough. A failure is counted and ends it.
    pub fn push_audio(&mut self, event: AudioEvent) -> (result: AudioStep)
        requires
            event.is_failure() ==> old(self).stats.audio_failures < u64::MAX,
            event matches AudioEvent::Pushed { is_ok, .. } ==> is_ok
                ==> old(self).stats.pushed_audio_frames < u64::MAX,
        ensures
            match event {
                AudioEvent::Arrived => {
                    &&& *final(self) == *old(self)
                    &&& result == (if old(self).audio_configured {
                        AudioStep::Push
                    } else {
                        AudioStep::Configure
                    })
                },
                AudioEvent::Configured { is_ok } => {
                    &&& *final(self) == (PresenterRuntime {
                        stats: counted_failure(old(self).stats, is_ok),
                        audio_configured: is_ok || old(self).audio_configured,
                        last_audio_clock_sync: if is_ok {
                            None
                        } else {
                            old(self).last_audio_clock_sync
                        },
                        ..*old(self)
                    })
                    &&& result == (if is_ok {
                        AudioStep::Push
                    } else {
                        AudioStep::Done
                    })
                },
                AudioEvent::Pushed { is_ok, snapshot } => {
                    &&& *final(self) == (PresenterRuntime {
                        stats: if is_ok {
                            PresenterStats {
                                pushed_audio_frames: (old(self).stats.pushed_audio_frames
                                    + 1) as u64,
                                ..old(self).stats
                            }
                        } else {
                            counted_failure(old(self).stats, false)
                        },
                        ..*old(self)
                    })
                    &&& result == (if is_ok && old(self).starts_audio(snapshot) {
                        AudioStep::Start
                    } else {
                        AudioStep::Done
                    })
                },
                AudioEvent::Started { is_ok } => {
                    &&& *final(self) == (PresenterRuntime {
                        stats: counted_failure(old(self).stats, is_ok),
                        audio_started: is_ok || old(self).audio_started,
                        last_audio_clock_sync: if is_ok {
                            None
                        } else {
                            old(self).last_audio_clock_sync
                        },
                        ..*old(self)
                    })
                    &&& result == AudioStep::Done
                },
            },
    {
        match event {
            AudioEvent::Arrived => if self.audio_configured {
                AudioStep::Push
            } else {
                AudioStep::Configure
            },
            AudioEvent::Configured { is_ok } => {
                self.audio_configured(is_ok);
                if is_ok {
                    AudioStep::Push
                } else {
                    AudioStep::Done
                }
            },
            AudioEvent::Pushed { is_ok, snapshot } => {
                self.audio_pushed(is_ok);
                if is_ok && self.should_start_audio(snapshot) {
                    AudioStep::Start
                } else {
                    AudioStep::Done
                }
            },
            AudioEvent::Started { is_ok } => {
                self.audio_started(is_ok);
                AudioStep::Done
            },
        }
    }

    /// Takes note that the audio output was stopped, or failed to.
    pub fn reset_audio_output(&mut self, is_ok: bool)
        requires
            !is_ok ==> old(self).stats.audio_failures < u64::MAX,
        ensures
            *final(self) == (PresenterRuntime {
                stats: counted_failure(old(self).stats, is_ok),
                audio_configured: false,
                audio_started: false,
                last_audio_clock_sync: None,
                ..*old(self)
            }),
    {
        if !is_ok {
            self.stats.audio_failures += 1;
        }
        self.audio_configured = false;
        self.audio_started = false;
        self.last_audio_clock_sync = None;
    }

    // -----------------------------------------------------------------------
    // Reports
    // -----------------------------------------------------------------------

    /// What happened since the presenter was made.
    pub fn stats(&self) -> (result: PresenterStats)
        ensures
            result == self.stats,
    {
        self.stats
    }

    /// What is on the screen, given what the renderer tells, whether the player
    /// plays, and how long the parts of the last frame took.
    pub fn runtime_snapshot(
        &self,
        renderer: RendererRuntimeStats,
        playing: bool,
        times: TickTimes,
    ) -> (result: PresenterRuntimeSnapshot)
        ensures
            result.stats == self.stats,
            result.renderer == renderer,
            result.media_time == self.current_media_time,
            result.generation == self.current_generation,
            result.playing == playing,
            result.current_danmaku_items == (match self.current_danmaku {
                Some(plan) => plan.items@.len(),
                None => 0,
            }),
            match self.current_danmaku {
                Some(plan) => match plan.atlas {
                    Some(atlas) => result.current_danmaku_atlas_version == atlas.version
                        && result.current_danmaku_atlas_bytes == doubled(
                        crate::danmaku::atlas::held_product(
                            atlas.stride as nat,
                            atlas.height as nat,
                        ),
                    ),
                    None => result.current_danmaku_atlas_version == 0
                        && result.current_danmaku_atlas_bytes == 0,
                },
                None => result.current_danmaku_atlas_version == 0
                    && result.current_danmaku_atlas_bytes == 0,
            },
            (
                result.current_danmaku_viewport_width,
                result.current_danmaku_viewport_height,
            ) == (match self.current_danmaku_viewport {
                Some(viewport) => (viewport.width, viewport.height),
                None => (0u32, 0u32),
            }),
            match self.current_danmaku {
                Some(plan) => result.frame_stats() == plan.frame_stats,
                None => result.frame_stats().is_blank(),
            },
            result.times() == times,
            result.video_decode_backend == self.video_decode_backend,
    {
        let mut items: usize = 0;
        let mut version: u64 = 0;
        let mut bytes: usize = 0;
        let mut frame_stats = DanmakuFrameStats::default();
        if let Some(plan) = &self.current_danmaku {
            items = plan.items.len();
            frame_stats = plan.frame_stats;
            if let Some(atlas) = &plan.atlas {
                version = atlas.version;
                let single: usize = atlas.required_len();
                bytes = if single > usize::MAX / 2 {
                    usize::MAX
                } else {
                    single * 2
                };
            }
        }
        let (width, height) = match self.current_danmaku_viewport {
            Some(viewport) => (viewport.width, viewport.height),
            None => (0, 0),
        };
        PresenterRuntimeSnapshot {
            stats: self.stats,
            renderer,
            media_time: self.current_media_time,
            generation: self.current_generation,
            playing,
            current_danmaku_items: items,
            current_danmaku_atlas_version: version,
            current_danmaku_atlas_bytes: bytes,
            current_danmaku_viewport_width: width,
            current_danmaku_viewport_height: height,
            current_danmaku_placed_items: frame_stats.placed_items,
            current_danmaku_scroll_items: frame_stats.scroll_items,
            current_danmaku_top_items: frame_stats.top_items,
            current_danmaku_bottom_items: frame_stats.bottom_items,
            current_danmaku_scroll_rows: frame_stats.scroll_rows,
            current_danmaku_scroll_track_min: frame_stats.scroll_track_min,
            current_danmaku_scroll_track_max: frame_stats.scroll_track_max,
            current_danmaku_scroll_min_y: frame_stats.scroll_min_y,
            current_danmaku_scroll_max_y: frame_stats.scroll_max_y,
            current_danmaku_scroll_bucket_count: frame_stats.scroll_bucket_count,
            current_danmaku_scroll_buckets: frame_stats.scroll_buckets,
            current_danmaku_prepared: frame_stats.prepared,
            last_tick_duration: times.tick,
            last_pump_duration: times.pump,
            last_audio_pump_duration: times.audio_pump,
            last_subtitle_pump_duration: times.subtitle_pump,
            last_video_pump_duration: times.video_pump,
            last_clock_sync_duration: times.clock_sync,
            last_danmaku_plan_duration: times.danmaku_plan,
            last_render_duration: times.render,
            last_render_current_duration: times.render_current,
            last_render_test_duration: times.render_test,
            video_decode_backend: self.video_decode_backend,
        }
    }
}

/// Twice a size, held at the largest machine number.
pub open spec fn doubled(value: nat) -> nat {
    if value * 2 > usize::MAX {
        usize::MAX as nat
    } else {
        value * 2
    }
}

/// What is on the screen.
#[derive(Debug, Clone, Copy)]
pub struct PresenterRuntimeSnapshot {
    pub stats: PresenterStats,
    pub renderer: RendererRuntimeStats,
    pub media_time: Duration,
    pub generation: u64,
    pub playing: bool,
    pub current_danmaku_items: usize,
    pub current_danmaku_atlas_version: u64,
    pub current_danmaku_atlas_bytes: usize,
    pub current_danmaku_viewport_width: u32,
    pub current_danmaku_viewport_height: u32,
    pub current_danmaku_placed_items: usize,
    pub current_danmaku_scroll_items: usize,
    pub current_danmaku_top_items: usize,
    pub current_danmaku_bottom_items: usize,
    pub current_danmaku_scroll_rows: usize,
    pub current_danmaku_scroll_track_min: usize,
    pub current_danmaku_scroll_track_max: usize,
    pub current_danmaku_scroll_min_y: Single,
    pub current_danmaku_scroll_max_y: Single,
    pub current_danmaku_scroll_bucket_count: usize,
    pub current_danmaku_scroll_buckets: [DanmakuDebugBucket; 16],
    pub current_danmaku_prepared: DanmakuPreparedStats,
    pub last_tick_duration: Duration,
    pub last_pump_duration: Duration,
    pub last_audio_pump_duration: Duration,
    pub last_subtitle_pump_duration: Duration,
    pub last_video_pump_duration: Duration,
    pub last_clock_sync_duration: Duration,
    pub last_danmaku_plan_duration: Duration,
    pub last_render_duration: Duration,
    pub last_render_current_duration: Duration,
    pub last_render_test_duration: Duration,
    pub video_decode_backend: Option<DecoderBackend>,
}

impl PresenterRuntimeSnapshot {
    /// What is told of the comments.
    pub open spec fn frame_stats(self) -> DanmakuFrameStats {
        DanmakuFrameStats {
            prepared: self.current_danmaku_prepared,
            placed_items: self.current_danmaku_placed_items,
            scroll_items: self.current_danmaku_scroll_items,
            top_items: self.current_danmaku_top_items,
            bottom_items: self.current_danmaku_bottom_items,
            scroll_rows: self.current_danmaku_scroll_rows,
            scroll_track_min: self.current_danmaku_scroll_track_min,
            scroll_track_max: self.current_danmaku_scroll_track_max,
            scroll_min_y: self.current_danmaku_scroll_min_y,
            scroll_max_y: self.current_danmaku_scroll_max_y,
            scroll_bucket_count: self.current_danmaku_scroll_bucket_count,
            scroll_buckets: self.current_danmaku_scroll_buckets,
        }
    }

    /// How long the parts of the last frame took.
    pub open spec fn times(self) -> TickTimes {
        TickTimes {
            tick: self.last_tick_duration,
            pump: self.last_pump_duration,
            audio_pump: self.last_audio_pump_duration,
            subtitle_pump: self.last_subtitle_pump_duration,
            video_pump: self.last_video_pump_duration,
            clock_sync: self.last_clock_sync_duration,
            danmaku_plan: self.last_danmaku_plan_duration,
            render: self.last_render_duration,
            render_current: self.last_render_current_duration,
            render_test: self.last_render_test_duration,
        }
    }
}

/// The counters after the audio output did something, or failed to.
pub open spec fn counted_failure(stats: PresenterStats, is_ok: bool) -> PresenterStats {
    if is_ok {
        stats
    } else {
        PresenterStats { audio_failures: (stats.audio_failures + 1) as u64, ..stats }
    }
}

/// Where as many tracks are left, none was taken out.
proof fn lemma_nothing_taken(tracks: Seq<TrackModel>, id: u64)
    ensures
        without_track(tracks, id).len() <= tracks.len(),
        without_track(tracks, id).len() == tracks.len() ==> without_track(tracks, id) == tracks,
    decreases tracks.len(),
{
    if tracks.len() > 0 {
        lemma_nothing_taken(tracks.drop_last(), id);
        assert(tracks.drop_last().push(tracks.last()) =~= tracks);
    } else {
        assert(without_track(tracks, id) =~= tracks);
    }
}

/// A plan that was drawn up for what was asked is not stale, until the time or
/// the generation changes.
pub proof fn law_fresh_plan_is_not_stale(
    state: PresenterRuntime,
    plan: DanmakuRenderPlan,
    request: PlanRequest,
)
    requires
        request.media_time == state.current_media_time,
        request.generation == state.current_generation,
        plan.media_time == request.media_time,
        plan.generation == request.generation,
    ensures
        !(PresenterRuntime { current_danmaku: Some(plan), ..state }).is_stale(),
        state.current_generation < u64::MAX ==> (PresenterRuntime {
            current_danmaku: Some(plan),
            ..state.bumped()
        }).is_stale(),
{
}

/// What is heard moves the clock only forwards, and only once for what was read.
pub proof fn law_audio_moves_the_clock_forwards(
    state: PresenterRuntime,
    first: AudioClockSnapshot,
    second: AudioClockSnapshot,
)
    requires
        state.should_sync(first),
        (PresenterRuntime {
            last_audio_clock_sync: Some(
                AudioClockSyncState {
                    media_time: first.media_time->0,
                    read_frames: first.read_frames,
                },
            ),
            ..state
        }).should_sync(second),
    ensures
        second.media_time->0@ >= first.media_time->0@,
        second.read_frames > first.read_frames,
{
}

/// The time of a frame that is shown: its own, or that of the player where it has none.
pub open spec fn shown_time(pts: Option<Duration>, media_time: Duration) -> Duration {
    match pts {
        Some(pts) => pts,
        None => media_time,
    }
}

/// After a change of the position the presenter stands at the position with nothing on
/// the screen, audio starts anew, and whatever was planned before is out of date.
pub proof fn law_presenter_goes_to_the_position(
    state: PresenterRuntime,
    position: Duration,
    audio_stopped: bool,
)
    ensures
        ({
            let after = state.sought(position, audio_stopped);
            &&& after.current_media_time == position
            &&& after.current_overlay is None
            &&& after.current_danmaku is None
            &&& after.is_stale()
            &&& !after.audio_configured
            &&& !after.audio_started
            &&& after.last_audio_clock_sync is None
            &&& state.current_generation < u64::MAX ==> after.current_generation
                > state.current_generation
            &&& state.danmaku_generation < u64::MAX ==> after.danmaku_generation
                == state.danmaku_generation + 1
            &&& after.danmaku == state.danmaku
            &&& after.danmaku_session == state.danmaku_session
            &&& after.current_output_viewport == state.current_output_viewport
        }),
{
}

/// A pause leaves the picture as it is; audio starts anew afterwards.
pub proof fn law_pause_keeps_the_picture(state: PresenterRuntime, audio_paused: bool)
    ensures
        ({
            let after = state.paused(audio_paused);
            &&& !after.audio_started
            &&& after.last_audio_clock_sync is None
            &&& after.audio_configured == state.audio_configured
            &&& after.current_media_time == state.current_media_time
            &&& after.current_overlay == state.current_overlay
            &&& after.current_danmaku == state.current_danmaku
            &&& after.current_generation == state.current_generation
            &&& audio_paused ==> after.stats == state.stats
        }),
{
}

/// A frame is shown at its own time, and comments are then wanted for that time, for
/// the surface there is, and for a generation no older than any before.
pub proof fn law_comments_are_wanted_for_what_is_shown(
    state: PresenterRuntime,
    pts: Option<Duration>,
    media_time: Duration,
    generation: u64,
)
    ensures
        pts matches Some(time) ==> shown_time(pts, media_time) == time,
        pts is None ==> shown_time(pts, media_time) == media_time,
        ({
            let time = shown_time(pts, media_time);
            let after = state.showing(time, generation);
            &&& after.current_media_time == time
            &&& after.current_generation >= generation
            &&& after.current_generation >= state.danmaku_generation
            &&& after.current_generation >= 1
            &&& after.current_generation == generation || after.current_generation
                == state.danmaku_generation || after.current_generation == 1
            &&& after.wanted_plan() matches Some(request) ==> {
                &&& request.media_time == time
                &&& request.generation == after.current_generation
                &&& Some(request.viewport) == state.current_danmaku_viewport
            }
            &&& state.current_danmaku_viewport is Some && after.is_stale() ==> after.wanted_plan()
                is Some
            &&& !after.is_stale() ==> after.wanted_plan() is None
        }),
{
}

/// A plan is out of date just if it was made for another time or another generation.
pub proof fn law_plans_go_out_of_date(state: PresenterRuntime, plan: DanmakuRenderPlan)
    requires
        state.current_danmaku == Some(plan),
    ensures
        state.is_stale() <==> plan.media_time@ != state.current_media_time@ || plan.generation
            != state.current_generation,
{
}

/// Audio starts once enough of it waits, and only if it has not started.
pub proof fn law_audio_starts_with_enough_of_it(
    state: PresenterRuntime,
    snapshot: AudioClockSnapshot,
)
    requires
        snapshot.queued_duration is Some,
    ensures
        state.starts_audio(Some(snapshot)) <==> !state.audio_started
            && snapshot.queued_duration->0@ >= AUDIO_START_BUFFER,
        !state.starts_audio(None),
{
}

/// After a change of the session the comments are those of the session, drawn with the
/// same settings, and what was drawn before is out of date.
pub proof fn law_comments_follow_the_session(
    after: PresenterRuntime,
    before: PresenterRuntime,
    session: SessionModel,
)
    requires
        after.follows(before, session),
    ensures
        after.danmaku_session@ == session,
        same_items(before.danmaku.items(), session.active()) ==> after.danmaku.items()
            == before.danmaku.items() && after.danmaku.layout() == before.danmaku.layout(),
        !same_items(before.danmaku.items(), session.active()) ==> after.danmaku.items()
            == session.active() && after.danmaku.layout() is None,
        after.danmaku.settings() == before.danmaku.settings(),
        after.current_danmaku is None,
        after.current_danmaku_viewport is None,
        before.danmaku_generation < u64::MAX ==> after.danmaku_generation
            == before.danmaku_generation + 1,
{
}

/// Settings that change nothing leave what is drawn, and others put it out of date. They
/// never change the comments.
pub proof fn law_settings_are_taken_over(
    after: PresenterRuntime,
    before: PresenterRuntime,
    config: ConfigModel,
)
    requires
        after.is_set_to(before, config),
    ensures
        after.danmaku.items() == before.danmaku.items(),
        before.danmaku.settings().is_same(config.sanitized()) ==> after.danmaku.settings()
            == before.danmaku.settings() && after.current_danmaku == before.current_danmaku
            && after.danmaku.layout() == before.danmaku.layout() && after.danmaku_generation
            == before.danmaku_generation,
        !before.danmaku.settings().is_same(config.sanitized()) ==> after.danmaku.settings()
            == config.sanitized() && after.current_danmaku is None && after.danmaku.layout() is None,
        !before.danmaku.settings().is_same(config.sanitized()) && before.danmaku_generation
            < u64::MAX ==> after.danmaku_generation == before.danmaku_generation + 1,
{
}

/// A drawn plan counts as one frame and as many comments as it has, and one without any
/// does not count.
pub proof fn law_drawn_plans_are_counted(runtime: PresenterRuntime)
    requires
        runtime.can_count_plan(),
    ensures
        runtime.current_danmaku matches Some(plan) ==> plan.items@.len() > 0 ==> {
            &&& runtime.counted_plan().danmaku_frames == runtime.stats.danmaku_frames + 1
            &&& runtime.counted_plan().danmaku_items == runtime.stats.danmaku_items
                + plan.items@.len()
            &&& runtime.counted_plan().rendered_video_frames == runtime.stats.rendered_video_frames
        },
        runtime.current_danmaku is None ==> runtime.counted_plan() == runtime.stats,
        runtime.current_danmaku matches Some(plan) ==> plan.items@.len() == 0
            ==> runtime.counted_plan() == runtime.stats,
{
}

/// A surface is measured by the scale that it has, though never by less than one, and is
/// never empty.
pub proof fn law_surfaces_are_not_empty(width: u32, height: u32, scale: Double)
    ensures
        surface_viewport(width, height, scale).width >= 1,
        surface_viewport(width, height, scale).height >= 1,
        surface_viewport(width, height, scale).width == surface_viewport(
            width,
            width,
            scale,
        ).height,
        surface_viewport(0, height, scale) == surface_viewport(1, height, scale),
        surface_viewport(width, 0, scale) == surface_viewport(width, 1, scale),
        scale.is_finite() && !scale.has_sign() && scale.bits > RATE_ONE ==> surface_scale(scale)
            == scale,
        !scale.is_finite() || scale.has_sign() || scale.bits <= RATE_ONE ==> surface_viewport(
            width,
            height,
            scale,
        ) == surface_viewport(width, height, (Double { bits: RATE_ONE })),
{
}

/// A surface of a whole scale has as many times its points in pixels, and one of no other
/// scale just its points.
pub proof fn law_surfaces_are_measured_by_their_scale(
    width: u32,
    height: u32,
    scale: Double,
    times: nat,
)
    requires
        width > 0,
        height > 0,
        times > 0,
        width * times <= u32::MAX,
        height * times <= u32::MAX,
        surface_scale(scale).scale() <= 0,
        surface_scale(scale).mantissa() == times * pow2((-surface_scale(scale).scale()) as nat),
    ensures
        surface_viewport(width, height, scale).width == width * times,
        surface_viewport(width, height, scale).height == height * times,
{
    let used = surface_scale(scale);
    let factor = (used.mantissa(), used.scale());
    law_whole_numbers_scale(width as nat, times, factor, u32::MAX as nat);
    law_whole_numbers_scale(height as nat, times, factor, u32::MAX as nat);
    assert(width * times > 0) by (nonlinear_arith)
        requires
            width > 0,
            times > 0,
    ;
    assert(height * times > 0) by (nonlinear_arith)
        requires
            height > 0,
            times > 0,
    ;
}

/// At scale one a surface has a pixel for each point.
pub proof fn law_surfaces_of_scale_one(width: u32, height: u32)
    requires
        width > 0,
        height > 0,
    ensures
        surface_viewport(width, height, (Double { bits: RATE_ONE })).width == width,
        surface_viewport(width, height, (Double { bits: RATE_ONE })).height == height,
{
    let one = Double { bits: RATE_ONE };
    lemma2_to64();
    lemma2_to64_rest();
    assert(one.scale() == -52);
    assert(one.mantissa() == 0x10_0000_0000_0000);
    assert(1 * pow2(52) == pow2(52));
    law_surfaces_are_measured_by_their_scale(width, height, one, 1);
}

} // verus!
