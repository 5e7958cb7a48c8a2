use erika::audio::{AudioClockSnapshot, AudioOutputBackend, BufferedAudioOutput};
use erika::danmaku::{
    DanmakuColor, DanmakuItem, DanmakuLayoutConfig, DanmakuMode, DanmakuRenderPlan, DanmakuTimeline,
    DanmakuTrackSource, DanmakuViewport, DfmLayoutEngine,
};
use erika::danmaku::atlas::{GlyphCacheKey, PersistentGlyphAtlas};
use erika::danmaku::glyph::rasterize_fallback_glyph;
use erika::danmaku::layout::{
    layout_request, measure_requests, PlannedItem, PlannedPosition, TextMeasure,
};
use erika::danmaku::plan::PlannedLayout;
use erika::danmaku::text::{build_text_layout, GlyphStep};
use erika::ffmpeg::codes::DecoderBackend;
use erika::float_bits::{Double, Single};
use erika::overlay::{OverlayFrame, OverlayViewport};
use erika::presenter::{
    bump_generation, duration_regressed, prepare_chunk, simple_hash, subtitle_is_active,
    surface_dimensions_to_viewport, CachedLibassTextRenderer, DanmakuTimeTrace,
    PlayerSubtitleFrame, PresenterConfig, PresenterRuntime, RenderOutcome, RenderedText,
    SubtitleFrameState, TextStep, TickTimes, TimeSample,
};
use erika::presenter::runtime::{
    build_renderer, AudioEvent, AudioStep, RendererBackendPreference, RendererChoice,
};
use erika::renderer::device::WgpuRenderer;
use erika::renderer::error::RendererError;
use erika::subtitle::{
    DecodedSubtitleFrame, SubtitleAlphaBitmap, SubtitleBitmapPlacement, SubtitleBitmapPlane,
    SubtitleBitmapSet, SubtitleTextFormat, SubtitleTextSegment,
};
use erika::time::Duration;

fn single(value: f32) -> Single {
    Single {
        bits: value.to_bits(),
    }
}

fn double(value: f64) -> Double {
    Double {
        bits: value.to_bits(),
    }
}

fn subtitle_frame(start: Duration, end: Option<Duration>) -> PlayerSubtitleFrame {
    let mut frame = DecodedSubtitleFrame::new(2, Some(start), end);
    frame.push_bitmap_plane(
        SubtitleBitmapPlane {
            x: 0,
            y: 0,
            width: 1,
            height: 1,
            rgba: vec![255, 255, 255, 255],
        },
        false,
    );
    PlayerSubtitleFrame {
        frame,
        pts: Some(start),
        media_time: start,
        late_by: None,
        generation: 1,
    }
}

fn text_subtitle_frame(
    track_id: i64,
    start: Duration,
    end: Option<Duration>,
    text: &str,
) -> PlayerSubtitleFrame {
    let mut frame = DecodedSubtitleFrame::new(track_id, Some(start), end);
    frame.push_text(SubtitleTextSegment::new(
        SubtitleTextFormat::PlainText,
        text.to_string(),
    ));
    PlayerSubtitleFrame {
        frame,
        pts: Some(start),
        media_time: start,
        late_by: None,
        generation: 1,
    }
}

fn empty_overlay() -> OverlayFrame {
    OverlayFrame {
        pts: Duration::zero(),
        viewport: OverlayViewport::new(640, 360),
        subtitle_planes: Vec::new(),
        subtitle_alpha_planes: Vec::new(),
        subtitle_changed: false,
    }
}

fn danmaku_item(id: u64, millis: u64, text: &str) -> DanmakuItem {
    DanmakuItem {
        id,
        pts: Duration::from_millis(millis),
        text: text.to_string(),
        mode: DanmakuMode::Scroll,
        font_size: single(24.0),
        color: DanmakuColor::white(),
        opacity: single(1.0),
        is_self: false,
    }
}

// Puts all comments side by side.
fn plan_of(engine: &mut DfmLayoutEngine, media_time: Duration, generation: u64) -> DanmakuRenderPlan {
    let viewport = DanmakuViewport::new(640, 360);
    let config = DanmakuLayoutConfig::default();
    let measure = TextMeasure {
        width: single(14.0),
        height: single(28.8),
        ascent: single(19.2),
        descent: single(4.8),
    };
    let count = measure_requests(engine.timeline(), viewport, &config).len();
    let request = layout_request(engine.timeline(), viewport, &config, &vec![measure; count]);
    let mut atlas = PersistentGlyphAtlas::new();
    let items: Vec<_> = request
        .map_or_else(Vec::new, |request| request.items)
        .into_iter()
        .map(|source| {
            let key = GlyphCacheKey::new(0, 'a', source.font_size, single(0.0));
            let step = GlyphStep {
                font_id: None,
                kern: single(0.0),
                glyph: rasterize_fallback_glyph(key, measure),
            };
            let planned = PlannedItem {
                source_id: source.source_id,
                time_seconds: source.time_seconds,
                text: source.text,
                type_code: source.type_code,
                color_argb: source.color_argb,
                opacity: source.opacity,
                font_size: double(f64::from(f32::from_bits(source.font_size.bits))),
                width: double(14.0),
                height: double(28.8),
                y_position: double(0.0),
                track_index: 0,
                scroll_speed: double(100.0),
                duration_seconds: double(8.5),
                duplicate_count: 1,
            };
            (planned, build_text_layout(measure, &[step], &mut atlas))
        })
        .collect();
    let positions: Vec<_> = (0..items.len())
        .map(|at| PlannedPosition {
            item_index: at,
            track_index: 0,
            x: double(20.0 * at as f64),
            y: double(0.0),
        })
        .collect();
    engine.prepare(
        viewport,
        Some(PlannedLayout {
            items,
            track_count: 1,
        }),
    );
    engine
        .render_plan(media_time, generation, &positions, atlas.snapshot().cloned())
        .unwrap()
}

fn presenter() -> PresenterRuntime {
    PresenterRuntime::new(PresenterConfig::default(), false)
}

#[test]
fn subtitle_active_window_respects_start_end_and_empty_frames() {
    let active = subtitle_frame(Duration::from_secs(1), Some(Duration::from_secs(3)));

    assert!(!subtitle_is_active(&active, Duration::from_millis(999)));
    assert!(subtitle_is_active(&active, Duration::from_secs(1)));
    assert!(subtitle_is_active(&active, Duration::from_millis(2999)));
    assert!(!subtitle_is_active(&active, Duration::from_secs(3)));

    let empty = PlayerSubtitleFrame {
        frame: DecodedSubtitleFrame::new(2, Some(Duration::zero()), None),
        pts: Some(Duration::zero()),
        media_time: Duration::zero(),
        late_by: None,
        generation: 1,
    };
    assert!(!subtitle_is_active(&empty, Duration::zero()));
}

#[test]
fn subtitle_state_keeps_overlapping_bitmap_frames() {
    let mut state = SubtitleFrameState::default();
    state.push(subtitle_frame(
        Duration::from_secs(1),
        Some(Duration::from_secs(4)),
    ));
    state.push(subtitle_frame(
        Duration::from_secs(2),
        Some(Duration::from_secs(5)),
    ));
    let mut overlay = empty_overlay();

    state.append_to_overlay(Duration::from_secs(3), &mut overlay);

    assert_eq!(overlay.subtitle_planes.len(), 2);
    assert!(overlay.subtitle_changed);
}

#[test]
fn subtitle_state_expires_old_frames_and_empty_frame_clears_track() {
    let mut state = SubtitleFrameState::default();
    state.push(subtitle_frame(
        Duration::from_secs(1),
        Some(Duration::from_secs(2)),
    ));
    state.push(subtitle_frame(
        Duration::from_secs(3),
        Some(Duration::from_secs(5)),
    ));
    let mut overlay = empty_overlay();

    state.append_to_overlay(Duration::from_secs(4), &mut overlay);

    assert_eq!(overlay.subtitle_planes.len(), 1);

    state.push(PlayerSubtitleFrame {
        frame: DecodedSubtitleFrame::new(2, Some(Duration::from_secs(4)), None),
        pts: Some(Duration::from_secs(4)),
        media_time: Duration::from_secs(4),
        late_by: None,
        generation: 1,
    });
    let mut overlay = empty_overlay();
    state.append_to_overlay(Duration::from_millis(4500), &mut overlay);

    assert!(overlay.subtitle_planes.is_empty());
}

#[test]
fn subtitle_state_renders_text_frames_into_overlay() {
    let mut state = SubtitleFrameState::default();
    state.push(text_subtitle_frame(
        7,
        Duration::from_secs(1),
        Some(Duration::from_secs(3)),
        "hello",
    ));
    let mut overlay = empty_overlay();

    state.append_to_overlay(Duration::from_secs(2), &mut overlay);

    assert!(!overlay.subtitle_planes.is_empty() || !overlay.subtitle_alpha_planes.is_empty());
    assert!(overlay.subtitle_changed);
}

#[test]
fn rendered_text_is_drawn_as_masks() {
    let mut state = SubtitleFrameState::default();
    state.push(text_subtitle_frame(7, Duration::from_secs(1), None, "hello"));
    assert_eq!(state.text_frames(Duration::from_secs(2)).len(), 1);
    assert_eq!(state.text_frames(Duration::from_millis(500)).len(), 0);
    let mut set = SubtitleBitmapSet::new(Duration::from_secs(2), 640, 360).with_changed(false);
    set.push(SubtitleAlphaBitmap::new(
        SubtitleBitmapPlacement::new(0, 0, 1, 1),
        1,
        0,
        vec![255],
    ));
    let mut overlay = empty_overlay();
    state.append_rendered(Duration::from_secs(2), &mut overlay, RenderedText::Masks(set));
    assert_eq!(overlay.subtitle_alpha_planes.len(), 1);
    assert!(overlay.subtitle_planes.is_empty());
    assert!(!overlay.subtitle_changed);
    let mut overlay = empty_overlay();
    state.append_rendered(Duration::from_secs(2), &mut overlay, RenderedText::Nothing);
    assert!(overlay.is_empty());
}

#[test]
fn a_subtitle_without_end_replaces_its_track() {
    let mut state = SubtitleFrameState::default();
    state.push(text_subtitle_frame(7, Duration::from_secs(1), None, "one"));
    state.push(text_subtitle_frame(8, Duration::from_secs(1), None, "other"));
    state.push(text_subtitle_frame(7, Duration::from_secs(2), None, "two"));
    let texts: Vec<String> = state
        .frames
        .iter()
        .map(|frame| frame.frame.text[0].display_text())
        .collect();
    assert_eq!(texts, vec!["other", "two"]);
}

#[test]
fn danmaku_generation_bump_clears_stale_plans_after_seek() {
    let mut generation = 7;
    let mut danmaku_generation = 4;

    bump_generation(&mut generation, &mut danmaku_generation);

    assert_eq!(danmaku_generation, 5);
    assert_eq!(generation, 8);
}

#[test]
fn presenter_config_disables_idle_test_pattern_by_default() {
    assert!(!PresenterConfig::default().render_test_pattern_when_idle);
}

#[test]
fn idle_tick_does_not_render_test_pattern_by_default() {
    let mut presenter = presenter();

    let wants_test_frame = presenter.frame_rendered(RenderOutcome::Idle);
    let stats = presenter.stats();

    assert!(!wants_test_frame);
    assert_eq!(stats.rendered_test_frames, 0);
}

#[test]
fn repeated_danmaku_config_does_not_bump_generation() {
    let mut presenter = presenter();
    let original_generation = presenter.current_generation;

    presenter.set_danmaku_config(DanmakuLayoutConfig::default());

    assert_eq!(presenter.current_generation, original_generation);

    let mut config = DanmakuLayoutConfig::default();
    config.font_size = single(f32::from_bits(config.font_size.bits) + 1.0);
    presenter.set_danmaku_config(config.duplicate());
    let changed_generation = presenter.current_generation;

    assert!(changed_generation > original_generation);
    presenter.set_danmaku_config(config);

    assert_eq!(presenter.current_generation, changed_generation);
}

#[test]
fn audio_clock_sync_ignores_unread_and_regressing_snapshots() {
    let mut presenter = presenter();

    assert!(!presenter.should_sync_audio_clock(AudioClockSnapshot {
        media_time: Some(Duration::from_secs(1)),
        queued_duration: Some(Duration::from_millis(500)),
        queued_frames: 24_000,
        read_frames: 0,
        written_frames: 24_000,
        underflow_frames: 0,
    }));
    assert!(presenter.should_sync_audio_clock(AudioClockSnapshot {
        media_time: Some(Duration::from_millis(900)),
        queued_duration: Some(Duration::from_millis(300)),
        queued_frames: 14_400,
        read_frames: 4_800,
        written_frames: 19_200,
        underflow_frames: 0,
    }));
    assert!(!presenter.should_sync_audio_clock(AudioClockSnapshot {
        media_time: Some(Duration::from_millis(100)),
        queued_duration: Some(Duration::from_millis(300)),
        queued_frames: 14_400,
        read_frames: 9_600,
        written_frames: 24_000,
        underflow_frames: 0,
    }));
}

#[test]
fn presenter_volume_is_clamped() {
    let mut output = BufferedAudioOutput::new(PresenterConfig::default().audio.ring_buffer);
    let volume = |output: &BufferedAudioOutput| f32::from_bits(output.volume().bits) as f64;

    assert_eq!(volume(&output), 1.0);
    output.set_volume(double(0.4).narrow());
    assert!((volume(&output) - 0.4).abs() < 0.000_001);
    output.set_volume(double(-1.0).narrow());
    assert_eq!(volume(&output), 0.0);
    output.set_volume(double(f64::NAN).narrow());
    assert_eq!(volume(&output), 1.0);
}

#[test]
fn surface_dimensions_are_converted_to_full_output_danmaku_viewport() {
    let viewport = surface_dimensions_to_viewport(800, 450, double(2.0));

    assert_eq!(viewport, DanmakuViewport::with_scale(1600, 900, single(2.0)));
}

#[test]
fn surfaces_are_scaled_as_floating_point_does() {
    for scale in [0.5f64, 1.0, 1.1, 1.25, 1.333333, 2.5, 3.0, 1e9, f64::INFINITY] {
        for size in [0u32, 1, 3, 799, 1080, 123_457, u32::MAX] {
            let used = if scale.is_finite() { scale.max(1.0) } else { 1.0 };
            let expected = ((size.max(1) as f64) * used).round().min(u32::MAX as f64) as u32;
            let viewport = surface_dimensions_to_viewport(size, size, double(scale));
            assert_eq!(viewport.width, expected.max(1), "{size} at {scale}");
            assert_eq!(viewport.scale_factor, single(used as f32));
        }
    }
}

#[test]
fn stale_danmaku_plan_refreshes_without_new_video_frame() {
    let mut presenter = presenter();
    presenter.danmaku.set_timeline(
        DanmakuTimeline::new(vec![danmaku_item(1, 1000, "first track")]).unwrap(),
    );
    let time = presenter.show_video_frame(None, Duration::from_millis(1500), 1);
    let request = presenter.update_overlay(
        time,
        1,
        DanmakuViewport::new(640, 360),
        empty_overlay(),
        RenderedText::Nothing,
    );
    assert_eq!(request.media_time, Duration::from_millis(1500));
    let plan = plan_of(&mut presenter.danmaku, request.media_time, request.generation);
    let first_item_id = plan.items[0].item_id;
    presenter.take_plan(plan);
    assert_eq!(presenter.refresh_stale_danmaku_plan(), None);

    presenter.danmaku.set_timeline(
        DanmakuTimeline::new(vec![danmaku_item(2, 1000, "switched track")]).unwrap(),
    );
    presenter.current_generation = 2;
    let stale = presenter.refresh_stale_danmaku_plan().unwrap();
    let plan = plan_of(&mut presenter.danmaku, stale.media_time, stale.generation);
    presenter.take_plan(plan);
    let refreshed = presenter.current_danmaku.as_ref().unwrap();
    assert_eq!(first_item_id, 1);
    assert_eq!(refreshed.generation, 2);
    assert_eq!(refreshed.media_time, Duration::from_millis(1500));
    assert_eq!(refreshed.items[0].item_id, 2);

    let generation = presenter.current_generation;
    presenter.set_danmaku_global_offset(5);
    assert!(presenter.current_danmaku.is_none());
    assert_eq!(presenter.refresh_stale_danmaku_plan(), None);
    let _ = presenter.update_overlay(
        time,
        1,
        DanmakuViewport::new(640, 360),
        empty_overlay(),
        RenderedText::Nothing,
    );
    let refreshed = presenter.refresh_stale_danmaku_plan().unwrap();
    assert_eq!(refreshed.generation, generation + 1);
    assert_eq!(refreshed.media_time, Duration::from_millis(1500));
    assert_eq!(refreshed.viewport, DanmakuViewport::new(640, 360));
}

#[test]
fn presenter_danmaku_session_merges_tracks_and_applies_track_controls() {
    let mut presenter = presenter();
    let first = DanmakuTimeline::new(vec![danmaku_item(1, 1000, "first")]).unwrap();
    let second = DanmakuTimeline::new(vec![danmaku_item(2, 2000, "second")]).unwrap();

    let first_id =
        presenter.add_danmaku_track(first, "first".to_string(), DanmakuTrackSource::Json, 0);
    let second_id = presenter.add_danmaku_track(
        second,
        "second".to_string(),
        DanmakuTrackSource::Json,
        -1_000_000,
    );
    let tracks_of = |engine: &DfmLayoutEngine| -> Vec<(u64, u128)> {
        engine
            .timeline()
            .items()
            .iter()
            .map(|item| (item.id >> 48, item.pts.as_millis()))
            .collect()
    };

    assert_eq!(presenter.danmaku_tracks().len(), 2);
    assert_eq!(
        tracks_of(&presenter.danmaku),
        vec![(first_id, 1000), (second_id, 1000)]
    );
    let holds = |plan: &DanmakuRenderPlan, id: u64| {
        plan.items.iter().any(|item| item.item_id >> 48 == id)
    };
    let plan = plan_of(&mut presenter.danmaku, Duration::from_millis(1500), 1);
    assert!(holds(&plan, first_id));
    assert!(holds(&plan, second_id));

    assert!(presenter.set_danmaku_track_enabled(first_id, false));
    assert_eq!(tracks_of(&presenter.danmaku), vec![(second_id, 1000)]);
    let plan = plan_of(&mut presenter.danmaku, Duration::from_millis(1500), 2);
    assert!(!holds(&plan, first_id));
    assert!(holds(&plan, second_id));
    assert!(presenter.set_danmaku_track_offset(second_id, 500));
    assert!(!presenter.set_danmaku_track_offset(99, 500));

    assert!(presenter.remove_danmaku_track(second_id));
    assert!(!presenter.remove_danmaku_track(second_id));
    assert_eq!(presenter.danmaku_tracks().len(), 1);
    assert!(presenter.remove_danmaku_track(first_id));
    assert!(presenter.danmaku_tracks().is_empty());
}

#[test]
fn seeking_clears_what_is_shown() {
    let mut presenter = presenter();
    presenter.audio_configured(true);
    presenter.audio_started(true);
    presenter.seek(Duration::from_secs(9), false);
    assert!(!presenter.audio_configured);
    assert!(!presenter.audio_started);
    assert_eq!(presenter.stats().audio_failures, 1);
    assert_eq!(presenter.current_media_time, Duration::from_secs(9));
    assert_eq!((presenter.current_generation, presenter.danmaku_generation), (2, 2));
    presenter.open(true);
    assert_eq!(presenter.current_media_time, Duration::zero());
    assert_eq!(presenter.current_generation, 3);
    presenter.pause(true);
    presenter.stop(true);
    presenter.close(true);
    assert_eq!(presenter.current_generation, 5);
}

#[test]
fn audio_starts_with_enough_in_the_queue() {
    let mut presenter = presenter();
    let snapshot = |millis: u64| {
        Some(AudioClockSnapshot {
            media_time: None,
            queued_duration: Some(Duration::from_millis(millis)),
            queued_frames: 0,
            read_frames: 0,
            written_frames: 0,
            underflow_frames: 0,
        })
    };
    presenter.audio_pushed(true);
    assert!(!presenter.should_start_audio(None));
    assert!(!presenter.should_start_audio(snapshot(49)));
    assert!(presenter.should_start_audio(snapshot(50)));
    presenter.audio_started(true);
    assert!(!presenter.should_start_audio(snapshot(50)));
    presenter.audio_pushed(false);
    assert_eq!(presenter.stats().pushed_audio_frames, 1);
    assert_eq!(presenter.stats().audio_failures, 1);
}

#[test]
fn samples_go_to_a_configured_output() {
    let mut presenter = presenter();
    let snapshot = Some(AudioClockSnapshot {
        media_time: None,
        queued_duration: Some(Duration::from_millis(50)),
        queued_frames: 0,
        read_frames: 0,
        written_frames: 0,
        underflow_frames: 0,
    });
    assert_eq!(presenter.push_audio(AudioEvent::Arrived), AudioStep::Configure);
    let configured = |is_ok: bool| AudioEvent::Configured { is_ok };
    assert_eq!(presenter.push_audio(configured(false)), AudioStep::Done);
    assert!(!presenter.audio_configured);
    assert_eq!(presenter.push_audio(configured(true)), AudioStep::Push);
    assert_eq!(presenter.push_audio(AudioEvent::Arrived), AudioStep::Push);
    let pushed = |is_ok: bool, snapshot| AudioEvent::Pushed { is_ok, snapshot };
    assert_eq!(presenter.push_audio(pushed(false, snapshot)), AudioStep::Done);
    assert_eq!(presenter.push_audio(pushed(true, None)), AudioStep::Done);
    assert_eq!(presenter.push_audio(pushed(true, snapshot)), AudioStep::Start);
    let started = |is_ok: bool| AudioEvent::Started { is_ok };
    assert_eq!(presenter.push_audio(started(false)), AudioStep::Done);
    assert!(!presenter.audio_started);
    assert_eq!(presenter.push_audio(started(true)), AudioStep::Done);
    assert!(presenter.audio_started);
    assert_eq!(presenter.push_audio(pushed(true, snapshot)), AudioStep::Done);
    assert_eq!(presenter.stats().pushed_audio_frames, 3);
    assert_eq!(presenter.stats().audio_failures, 3);
}

#[test]
fn the_presenter_follows_the_player() {
    let mut presenter = presenter();
    assert!(PresenterRuntime::accepts(3, 3));
    assert!(!PresenterRuntime::accepts(2, 3));
    assert_eq!(
        presenter.sync_media_time_from_player(Duration::from_secs(1), 4),
        None
    );
    assert_eq!(presenter.current_generation, 4);
    presenter.take_video_frame(DecoderBackend::Software);
    presenter.import_failed();
    presenter.resize_surface(640, 360, double(1.0));
    assert_eq!(presenter.output_size(), (640, 360));
    let _ = presenter.update_overlay(
        Duration::from_secs(1),
        4,
        DanmakuViewport::new(8, 8),
        empty_overlay(),
        RenderedText::Nothing,
    );
    assert_eq!(
        presenter.sync_media_time_from_player(Duration::from_secs(2), 0),
        Some(OverlayViewport::new(640, 360))
    );
    presenter.take_subtitle(subtitle_frame(Duration::from_secs(1), None));
    presenter.redraw_overlay(empty_overlay(), RenderedText::Nothing);
    assert_eq!(
        presenter.current_overlay.as_ref().unwrap().subtitle_planes.len(),
        1
    );
    let zero = Duration::zero();
    let renderer = WgpuRenderer::new(true).stats().runtime_stats();
    let snapshot = presenter.runtime_snapshot(
        renderer,
        true,
        TickTimes {
            tick: Duration::from_millis(3),
            pump: zero,
            audio_pump: zero,
            subtitle_pump: zero,
            video_pump: zero,
            clock_sync: zero,
            danmaku_plan: zero,
            render: zero,
            render_current: zero,
            render_test: zero,
        },
    );
    assert_eq!(snapshot.stats.decoded_video_frames, 1);
    assert_eq!(snapshot.stats.import_failures, 1);
    assert_eq!(snapshot.renderer, renderer);
    assert_eq!(snapshot.current_danmaku_viewport_width, 640);
    assert_eq!(snapshot.current_danmaku_placed_items, 0);
    assert_eq!(snapshot.current_danmaku_prepared.source_items, 0);
    assert_eq!(snapshot.last_tick_duration, Duration::from_millis(3));
    assert_eq!(snapshot.last_render_duration, zero);
    assert_eq!(snapshot.video_decode_backend, Some(DecoderBackend::Software));
    presenter.detach_surface();
    assert_eq!(presenter.output_size(), (0, 0));
    presenter.clear_danmaku();
    presenter.set_danmaku_enabled(false);
    presenter.set_danmaku_font(" A ".to_string(), String::new());
    assert!(!presenter.danmaku_config().enabled);
    assert_eq!(presenter.danmaku_config().custom_font_family, "A");
}

#[test]
fn jumps_back_are_told() {
    assert!(!duration_regressed(Duration::from_millis(5), Duration::from_millis(10)));
    assert!(duration_regressed(Duration::from_millis(4), Duration::from_millis(10)));
    let sample = |millis: u64| TimeSample {
        media_time: Duration::from_millis(millis),
        generation: 1,
        player_time: None,
        video_time: None,
        plan_time: None,
        plan_generation: None,
    };
    let mut off = DanmakuTimeTrace::new(false);
    assert_eq!(off.observe(sample(1)), None);
    let mut trace = DanmakuTimeTrace::new(true);
    for i in 0..16 {
        assert!(!trace.observe(sample(i * 10)).unwrap().event_back);
    }
    assert_eq!(trace.observe(sample(160)), None);
    assert!(trace.observe(sample(100)).unwrap().event_back);
    let other = TimeSample {
        plan_time: Some(Duration::from_millis(99)),
        generation: 2,
        ..sample(100)
    };
    let flags = trace.observe(other).unwrap();
    assert!(flags.generation_changed && flags.plan_mismatch && !flags.event_back);
}

#[test]
fn hashes_are_those_of_the_published_table() {
    assert_eq!(simple_hash(""), 0xcbf29ce484222325);
    assert_eq!(simple_hash("a"), 0xaf63dc4c8601ec8c);
    assert_eq!(simple_hash("foobar"), 0x85944171f73967e8);
}

#[test]
fn chunks_take_the_number_of_their_event() {
    let chunk = |text: &str, index: usize| {
        let chars: Vec<char> = text.chars().collect();
        prepare_chunk(&chars, index)
    };
    assert_eq!(
        chunk(" 0,0,Default,,0,0,0,,Hi ", 12),
        "12,0,Default,,0,0,0,,Hi"
    );
    assert_eq!(chunk("plain, text", 3), "3,plain, text");
    assert_eq!(chunk("word", 0), "0,word");
}

#[test]
fn text_events_are_handed_over_once() {
    let mut cache = CachedLibassTextRenderer::default();
    let first = text_subtitle_frame(1, Duration::from_secs(1), None, "0,0,Default,,0,0,0,,one ");
    let second = text_subtitle_frame(1, Duration::from_secs(2), Some(Duration::from_secs(5)), "two");
    assert_eq!(cache.plan(&[]), TextStep::Nothing);
    assert_eq!(cache.plan(&[&first.frame]), TextStep::Open);
    cache.opened(false);
    assert_eq!(cache.plan(&[&first.frame]), TextStep::Refused);
    let mut cache = CachedLibassTextRenderer::default();
    assert_eq!(cache.plan(&[&first.frame]), TextStep::Open);
    cache.opened(true);
    let chunks = cache.take_chunks(&[&first.frame]);
    assert_eq!(chunks.len(), 1);
    assert_eq!(chunks[0].text, "0,0,Default,,0,0,0,,one");
    assert_eq!((chunks[0].timecode_ms, chunks[0].duration_ms), (1000, 10_000));
    assert_eq!(cache.plan(&[&first.frame, &second.frame]), TextStep::Draw);
    let more = cache.take_chunks(&[&first.frame, &second.frame]);
    assert_eq!(more.len(), 1);
    assert_eq!(more[0].text, "1,two");
    assert_eq!((more[0].timecode_ms, more[0].duration_ms), (2000, 3000));
    assert!(cache.take_chunks(&[&first.frame, &second.frame]).is_empty());
    assert_eq!(cache.plan(&[&second.frame]), TextStep::Open);
}

#[test]
fn renderers_are_chosen() {
    use_choice(RendererBackendPreference::Auto, true, false, Ok(RendererChoice::Metal));
    use_choice(RendererBackendPreference::PlatformNative, false, true, Ok(RendererChoice::Wgpu));
    use_choice(RendererBackendPreference::WgpuFallback, true, true, Ok(RendererChoice::Wgpu));
    use_choice(RendererBackendPreference::WgpuFallback, true, false, Err(RendererError::NoWgpu));
    let flutter = RendererBackendPreference::FlutterTexture;
    use_choice(flutter, true, true, Err(RendererError::FlutterOnPresenter));
    assert_eq!(
        RendererError::NoWgpu.message(),
        "wgpu renderer backend requires the `wgpu` cargo feature"
    );
}

fn use_choice(
    preference: RendererBackendPreference,
    has_layers: bool,
    has_wgpu: bool,
    expected: Result<RendererChoice, RendererError>,
) {
    assert_eq!(build_renderer(preference, has_layers, has_wgpu), expected);
}
