use erika::subtitle::libass::{next_libass_step, LibassStep};
use erika::subtitle::{
    decoded_subtitle_frames_to_ass_script, decoded_subtitle_frames_to_timeline,
    format_ass_timestamp, parse_ass_events, parse_srt, parse_subtitle_text_file, parse_webvtt,
    try_parse_subtitle_text_file, AssBitmapPlane, AssColor, DecodedSubtitleFrame,
    LibassImageImporter, LibassRenderConfig, LibassRenderOperation, LibassRenderPlan,
    LibassSubtitleRenderer, RawAssImage,
    SubtitleAlphaBitmap, SubtitleBitmapColorSpace, SubtitleBitmapPlacement, SubtitleBitmapSet,
    SubtitleCue, SubtitleError, SubtitleFileFormat, SubtitleFrameChange, SubtitleRenderBackend,
    SubtitleRenderOutput, SubtitleRenderRequest, SubtitleRenderViewport, SubtitleRenderer,
    SubtitleRendererBackend, SubtitleRendererCore, SubtitleTextFormat, SubtitleTextSegment,
    SubtitleTimeline, SubtitleTrackConfig, SubtitleViewport,
};
use erika::time::Duration;

#[test]
fn parses_srt_and_finds_active_cue() {
    let srt =
        "1\n00:00:01,000 --> 00:00:03,500\nHello\n\n2\n00:00:04,000 --> 00:00:05,000\nWorld\n";
    let timeline = parse_srt(srt).unwrap();

    assert_eq!(timeline.cues().len(), 2);
    assert_eq!(
        timeline.active_cues(Duration::from_millis(1500))[0].text,
        "Hello"
    );
    assert!(timeline.active_cues(Duration::from_millis(3500)).is_empty());
}

#[test]
fn subtitle_file_format_detects_text_subtitle_extensions() {
    assert_eq!(
        SubtitleFileFormat::from_path("/tmp/movie.en.srt"),
        Some(SubtitleFileFormat::Srt)
    );
    assert_eq!(
        SubtitleFileFormat::from_path("/tmp/movie.VTT"),
        Some(SubtitleFileFormat::WebVtt)
    );
    assert_eq!(
        SubtitleFileFormat::from_path("/tmp/movie.ass"),
        Some(SubtitleFileFormat::Ass)
    );
    assert_eq!(SubtitleFileFormat::from_path("/tmp/movie.sup"), None);
}

#[test]
fn parse_subtitle_text_file_dispatches_by_format() {
    let srt = "1\n00:00:01,000 --> 00:00:02,000\nHello\n";
    let timeline = parse_subtitle_text_file(SubtitleFileFormat::Srt, srt).unwrap();

    assert_eq!(timeline.cues().len(), 1);
    assert_eq!(timeline.cues()[0].text, "Hello");
}

#[test]
fn parses_ass_dialogue() {
    let ass = "[Events]\nFormat: Layer, Start, End, Style, Name, MarginL, MarginR, MarginV, Effect, Text\nDialogue: 0,0:00:01.00,0:00:02.00,Default,,0,0,0,,{\\i1}Hi\\Nthere";
    let timeline = parse_ass_events(ass).unwrap();

    assert_eq!(timeline.cues().len(), 1);
    assert_eq!(timeline.cues()[0].text, "Hi\nthere");
}

#[test]
fn decoded_plain_text_subtitle_can_become_ass_script() {
    let mut frame = DecodedSubtitleFrame::new(
        2,
        Some(Duration::from_millis(1250)),
        Some(Duration::from_millis(2500)),
    );
    frame.push_text(SubtitleTextSegment::new(
        SubtitleTextFormat::PlainText,
        "hello\nworld".to_string(),
    ));

    let script = frame.to_ass_script(Duration::from_secs(5)).unwrap();

    assert!(script.contains("[Script Info]"));
    assert!(script.contains("Dialogue: 0,0:00:01.25,0:00:02.50"));
    assert!(script.contains("hello\\Nworld"));
}

#[test]
fn decoded_ass_dialogue_preserves_event_line_for_libass() {
    let mut frame = DecodedSubtitleFrame::new(
        2,
        Some(Duration::from_secs(1)),
        Some(Duration::from_secs(2)),
    );
    frame.push_text(SubtitleTextSegment::new(
        SubtitleTextFormat::Ass,
        "Dialogue: 0,0:00:01.00,0:00:02.00,Default,,0,0,0,,{\\i1}Hi".to_string(),
    ));

    let script = frame.to_ass_script(Duration::from_secs(5)).unwrap();

    assert!(script.contains("Dialogue: 0,0:00:01.00,0:00:02.00,Default,,0,0,0,,{\\i1}Hi"));
    assert_eq!(frame.text[0].display_text(), "Hi");
}

#[test]
fn decoded_lavc_ass_payload_uses_payload_text_field() {
    let segment = SubtitleTextSegment::new(
        SubtitleTextFormat::Ass,
        "0,0,Default,,0,0,0,,External subtitle".to_string(),
    );

    assert_eq!(segment.display_text(), "External subtitle");
}

#[test]
fn decoded_lavc_ass_payload_preserves_move_override_in_script() {
    let mut frame = DecodedSubtitleFrame::new(
        2,
        Some(Duration::from_secs(0)),
        Some(Duration::from_secs(8)),
    );
    frame.push_text(SubtitleTextSegment::new(
        SubtitleTextFormat::Ass,
        "0,0,Default,,0,0,0,,{\\move(2040,40,-120,40)}hello".to_string(),
    ));

    let script = frame.to_ass_script(Duration::from_secs(10)).unwrap();

    assert!(
        script.contains("{\\move(2040,40,-120,40)}hello"),
        "ASS script should preserve \\move override tag, got: {script}"
    );
    assert!(
        !script.contains("\\{\\move"),
        "ASS script should not escape curly braces in override tags, got: {script}"
    );
}

#[test]
fn decoded_text_frames_can_become_debug_timeline() {
    let mut frame = DecodedSubtitleFrame::new(
        2,
        Some(Duration::from_secs(1)),
        Some(Duration::from_secs(3)),
    );
    frame.push_text(SubtitleTextSegment::new(
        SubtitleTextFormat::Ass,
        "{\\b1}Hello".to_string(),
    ));

    let timeline = decoded_subtitle_frames_to_timeline(&[&frame], Duration::from_secs(5));

    assert_eq!(timeline.cues().len(), 1);
    assert_eq!(timeline.cues()[0].text, "Hello");
    assert_eq!(timeline.cues()[0].start, Duration::from_secs(1));
    assert_eq!(timeline.cues()[0].end, Duration::from_secs(3));
}

#[test]
fn debug_frame_produces_rgba_planes() {
    let timeline = SubtitleTimeline::new(vec![SubtitleCue {
        start: Duration::from_secs(1),
        end: Duration::from_secs(3),
        text: "Hello".to_string(),
    }]);

    let frame = timeline.render_debug_frame(Duration::from_secs(2), 640, 360);

    assert_eq!(frame.planes.len(), 1);
    assert_eq!(
        frame.planes[0].rgba.len(),
        frame.planes[0].width as usize * frame.planes[0].height as usize * 4
    );
}

#[test]
fn ass_color_decodes_libass_inverse_alpha() {
    assert_eq!(
        AssColor::from_libass_rgba(0x11223300),
        AssColor {
            red: 0x11,
            green: 0x22,
            blue: 0x33,
            alpha: 0xff,
        }
    );
    assert_eq!(AssColor::from_libass_rgba(0x112233ff).alpha, 0);
}

#[test]
fn ass_bitmap_plane_expands_alpha_mask_to_straight_rgba() {
    let bitmap =
        AssBitmapPlane::new(3, 4, 2, 2, 4, 0x20406080, vec![0, 255, 9, 9, 128, 64]).unwrap();

    let plane = bitmap.to_rgba_plane().unwrap();

    assert_eq!(plane.x, 3);
    assert_eq!(plane.y, 4);
    assert_eq!(plane.width, 2);
    assert_eq!(plane.height, 2);
    assert_eq!(
        plane.rgba,
        vec![
            0x20, 0x40, 0x60, 0, 0x20, 0x40, 0x60, 127, 0x20, 0x40, 0x60, 64, 0x20, 0x40, 0x60, 32,
        ]
    );
}

#[test]
fn subtitle_alpha_bitmap_expands_libass_color_and_coverage() {
    let bitmap = SubtitleAlphaBitmap::new(
        SubtitleBitmapPlacement::new(2, 3, 2, 1),
        2,
        0x12345680,
        vec![255, 128],
    );

    let plane = bitmap.to_rgba_plane().unwrap();

    assert_eq!(plane.x, 2);
    assert_eq!(plane.y, 3);
    assert_eq!(
        plane.rgba,
        vec![0x12, 0x34, 0x56, 127, 0x12, 0x34, 0x56, 64]
    );
}

#[test]
fn subtitle_bitmap_set_converts_alpha_parts_to_rgba_frame() {
    let mut set = SubtitleBitmapSet::new(Duration::from_secs(7), 640, 360)
        .with_color_space(SubtitleBitmapColorSpace::Video)
        .with_changed(false);
    set.push(SubtitleAlphaBitmap::new(
        SubtitleBitmapPlacement::new(0, 0, 1, 1),
        1,
        0x00ff0000,
        vec![255],
    ));

    let frame = SubtitleRenderOutput::Alpha(set).into_rgba_frame();

    assert_eq!(frame.pts, Duration::from_secs(7));
    assert_eq!(frame.planes.len(), 1);
    assert_eq!(frame.planes[0].rgba, vec![0, 255, 0, 255]);
}

#[test]
fn subtitle_track_source_distinguishes_embedded_and_external_removal() {
    let embedded = SubtitleTrackConfig::embedded(2, 2);
    let external = SubtitleTrackConfig::external(100, "/tmp/subs.ass".to_string());

    assert!(embedded.source.is_embedded());
    assert!(!embedded.can_remove());
    assert!(external.source.is_external());
    assert!(external.can_remove());
}

#[test]
fn ass_bitmap_validation_accepts_unpadded_last_row() {
    let bitmap = AssBitmapPlane::new(0, 0, 3, 2, 8, 0xffffff00, vec![0; 11]).unwrap();

    assert_eq!(bitmap.to_rgba_plane().unwrap().rgba.len(), 24);
}

#[test]
fn ass_bitmap_validation_rejects_short_alpha_buffer() {
    let error = AssBitmapPlane::new(0, 0, 3, 2, 8, 0xffffff00, vec![0; 10]).unwrap_err();

    assert!(matches!(error, SubtitleError::InvalidBitmap { .. }));
}

#[test]
fn subtitle_renderer_core_reports_unchanged_timeline_frame() {
    let timeline = SubtitleTimeline::new(vec![SubtitleCue {
        start: Duration::from_secs(1),
        end: Duration::from_secs(3),
        text: "Hello".to_string(),
    }]);
    let mut renderer = SubtitleRendererCore::new_debug(timeline);
    let viewport = SubtitleViewport::new(640, 360);

    let first = renderer.render(Duration::from_secs(2), viewport);
    let second = renderer.render(Duration::from_millis(2500), viewport);

    assert_eq!(first.change, SubtitleFrameChange::Changed);
    assert_eq!(second.change, SubtitleFrameChange::Unchanged);
    assert_eq!(second.frame.planes.len(), 1);
}

#[test]
fn subtitle_renderer_core_converts_ass_bitmaps() {
    let bitmap = AssBitmapPlane::new(0, 0, 1, 1, 1, 0xff000000, vec![255]).unwrap();
    let result =
        SubtitleRendererCore::render_ass_bitmaps(Duration::from_secs(1), &[bitmap]).unwrap();

    assert_eq!(result.backend, SubtitleRendererBackend::Libass);
    assert_eq!(result.frame.planes.len(), 1);
    assert_eq!(result.frame.planes[0].rgba, vec![255, 0, 0, 255]);
}

#[test]
fn libass_render_plan_keeps_renderer_operation_order() {
    let request = SubtitleRenderRequest {
        pts: Duration::from_millis(1234),
        viewport: SubtitleRenderViewport {
            width: 1920,
            height: 1080,
            storage_width: 3840,
            storage_height: 2160,
        },
    };
    let plan = LibassRenderPlan::new(
        request,
        LibassRenderConfig {
            glyph_cache_limit: 128,
            bitmap_cache_limit_mb: 32,
        },
    );

    assert_eq!(
        plan.operations,
        vec![
            LibassRenderOperation::SetFrameSize {
                width: 1920,
                height: 1080,
            },
            LibassRenderOperation::SetStorageSize {
                width: 3840,
                height: 2160,
            },
            LibassRenderOperation::SetCacheLimits {
                glyphs: 128,
                bitmap_mb: 32,
            },
            LibassRenderOperation::RenderFrame { timestamp_ms: 1234 },
        ]
    );
}

#[test]
fn raw_ass_image_list_imports_alpha_bitmaps() {
    let image = RawAssImage {
        w: 2,
        h: 2,
        stride: 2,
        bitmap: Some(vec![255u8, 128, 64, 0]),
        color: 0x80402000,
        dst_x: 10,
        dst_y: 20,
        image_type: 0,
    };

    let set = LibassImageImporter::import_raw_list(
        Duration::from_secs(1),
        1920,
        1080,
        &[image],
        true,
    )
    .unwrap();

    assert_eq!(set.parts.len(), 1);
    let plane = set.to_frame().planes.remove(0);
    assert_eq!(plane.x, 10);
    assert_eq!(plane.y, 20);
    assert_eq!(plane.rgba[0..4], [0x80, 0x40, 0x20, 255]);
    assert_eq!(plane.rgba[4..8], [0x80, 0x40, 0x20, 128]);
}

#[test]
fn timestamps_are_written_in_hundredths() {
    assert_eq!(
        format_ass_timestamp(Duration::from_millis(3_723_456)),
        "1:02:03.46"
    );
    assert_eq!(format_ass_timestamp(Duration::zero()), "0:00:00.00");
}

#[test]
fn written_timestamps_read_back() {
    let written = format_ass_timestamp(Duration::from_millis(3_723_450));
    let ass = format!("[Events]\nDialogue: 0,{written},9:00:00.00,Default,,0,0,0,,text");
    let timeline = parse_ass_events(&ass).unwrap();
    assert_eq!(timeline.cues()[0].start, Duration::from_millis(3_723_450));
}

#[test]
fn webvtt_skips_header_and_notes() {
    let vtt = "WEBVTT\n\nNOTE hidden\n\nintro\n00:01.500 --> 00:02.500 align:start\nHi\n";
    let timeline = parse_webvtt(vtt).unwrap();
    assert_eq!(timeline.cues().len(), 1);
    assert_eq!(timeline.cues()[0].start, Duration::from_millis(1500));
    assert_eq!(timeline.cues()[0].end, Duration::from_millis(2500));
    assert_eq!(timeline.cues()[0].text, "Hi");
}

#[test]
fn malformed_timestamps_are_refused() {
    let srt = "1\n00:00:xx,000 --> 00:00:02,000\nHello\n";
    assert!(matches!(
        parse_srt(srt),
        Err(SubtitleError::InvalidTimestamp(_))
    ));
}

#[test]
fn endless_timestamps_are_told_apart() {
    let srt = "1\n99999999999999999999:00:00,000 --> 00:00:02,000\nHello\n";
    assert!(!matches!(
        try_parse_subtitle_text_file(SubtitleFileFormat::Srt, srt),
        Some(Ok(_))
    ));
    let fine = "1\n00:00:01,000 --> 00:00:02,000\nHello\n";
    assert!(matches!(
        try_parse_subtitle_text_file(SubtitleFileFormat::Srt, fine),
        Some(Ok(_))
    ));
}

#[test]
fn cues_are_sorted_by_start_and_keep_their_order() {
    let cue = |start: u64, text: &str| SubtitleCue {
        start: Duration::from_secs(start),
        end: Duration::from_secs(start + 10),
        text: text.to_string(),
    };
    let timeline = SubtitleTimeline::new(vec![cue(3, "c"), cue(1, "a"), cue(3, "d"), cue(2, "b")]);
    let texts: Vec<&str> = timeline.cues().iter().map(|cue| cue.text.as_str()).collect();
    assert_eq!(texts, vec!["a", "b", "c", "d"]);
    let active: Vec<&str> = timeline
        .active_cues(Duration::from_secs(3))
        .iter()
        .map(|cue| cue.text.as_str())
        .collect();
    assert_eq!(active, vec!["a", "b", "c", "d"]);
    assert!(timeline.active_cues(Duration::from_millis(999)).is_empty());
}

#[test]
fn placements_are_clipped_to_the_frame() {
    let inside = SubtitleBitmapPlacement::new(-2, 3, 5, 4).clipped_to(10, 5);
    assert_eq!(inside, Some(SubtitleBitmapPlacement::new(0, 3, 3, 2)));
    assert_eq!(
        SubtitleBitmapPlacement::new(10, 0, 5, 4).clipped_to(10, 5),
        None
    );
}

#[test]
fn several_frames_become_one_script() {
    let mut first = DecodedSubtitleFrame::new(1, Some(Duration::zero()), None);
    first.push_text(SubtitleTextSegment::new(
        SubtitleTextFormat::PlainText,
        "one".to_string(),
    ));
    let mut second = DecodedSubtitleFrame::new(1, Some(Duration::from_secs(1)), None);
    second.push_text(SubtitleTextSegment::new(
        SubtitleTextFormat::PlainText,
        "two {x}".to_string(),
    ));
    let script =
        decoded_subtitle_frames_to_ass_script(&[&first, &second], Duration::from_secs(5)).unwrap();
    assert!(script.contains("Dialogue: 0,0:00:00.00,0:00:05.00,Default,,0,0,0,,one\n"));
    assert!(script.contains("two \\{x\\}"));
    let empty = DecodedSubtitleFrame::new(1, None, None);
    assert!(decoded_subtitle_frames_to_ass_script(&[&empty], Duration::from_secs(5)).is_none());
}

#[test]
fn raw_images_without_pixels_are_skipped_and_bad_ones_refused() {
    let image = |w: i32, stride: i32, bitmap: Option<Vec<u8>>| RawAssImage {
        w,
        h: 2,
        stride,
        bitmap,
        color: 0,
        dst_x: 0,
        dst_y: 0,
        image_type: 0,
    };
    let set = LibassImageImporter::import_raw_list(
        Duration::zero(),
        8,
        8,
        &[image(0, 2, None), image(2, 2, Some(vec![1; 4]))],
        false,
    )
    .unwrap();
    assert_eq!(set.parts.len(), 1);
    assert!(LibassImageImporter::import_raw_list(
        Duration::zero(),
        8,
        8,
        &[image(2, 2, None)],
        false,
    )
    .is_err());
    assert!(LibassImageImporter::import_raw_list(
        Duration::zero(),
        8,
        8,
        &[image(4, 2, Some(vec![1; 8]))],
        false,
    )
    .is_err());
}

#[test]
fn the_core_is_a_renderer() {
    let mut core = SubtitleRendererCore::new_debug(SubtitleTimeline::new(Vec::new()));
    assert_eq!(core.backend(), SubtitleRenderBackend::DebugTimeline);
    let output = SubtitleRenderer::render(
        &mut core,
        SubtitleRenderRequest::new(Duration::from_secs(1), 0, 0),
    )
    .unwrap();
    assert_eq!(output.into_rgba_frame().planes.len(), 0);
}

const SIMPLE_ASS_SCRIPT: &str = r#"[Script Info]
ScriptType: v4.00+
PlayResX: 640
PlayResY: 360

[V4+ Styles]
Format: Name, Fontname, Fontsize, PrimaryColour, SecondaryColour, OutlineColour, BackColour, Bold, Italic, Underline, StrikeOut, ScaleX, ScaleY, Spacing, Angle, BorderStyle, Outline, Shadow, Alignment, MarginL, MarginR, MarginV, Encoding
Style: Default,Arial,32,&H00FFFFFF,&H000000FF,&H80000000,&H80000000,0,0,0,0,100,100,0,0,1,2,0,2,20,20,24,1

[Events]
Format: Layer, Start, End, Style, Name, MarginL, MarginR, MarginV, Effect, Text
Dialogue: 0,0:00:00.00,0:00:02.00,Default,,0,0,0,,Hello libass
"#;

#[test]
fn libass_renderer_rejects_empty_script() {
    let error = LibassSubtitleRenderer::from_ass_script(b"", LibassRenderConfig::default(), true)
        .unwrap_err();

    assert!(matches!(error, SubtitleError::Libass(message) if message.contains("empty")));
}

#[test]
fn libass_renderer_renders_ass_script_to_alpha_bitmaps() {
    let config = LibassRenderConfig {
        glyph_cache_limit: 64,
        bitmap_cache_limit_mb: 16,
    };
    let mut renderer =
        LibassSubtitleRenderer::from_ass_script(SIMPLE_ASS_SCRIPT.as_bytes(), config, true)
            .unwrap();
    let request = SubtitleRenderRequest::new(Duration::from_millis(500), 640, 360);

    assert_eq!(renderer.backend(), SubtitleRenderBackend::Libass);
    assert_eq!(renderer.config(), config);
    assert_eq!(
        renderer.render_plan(request).operations,
        LibassRenderPlan::new(request, config).operations
    );

    let image = RawAssImage {
        w: 2,
        h: 2,
        stride: 3,
        bitmap: Some(vec![1, 2, 0, 3, 4]),
        color: 0xff000000,
        dst_x: 20,
        dst_y: 30,
        image_type: 0,
    };
    let output = renderer.render(request, &[image], true).unwrap();
    let SubtitleRenderOutput::Alpha(bitmaps) = output else {
        panic!("libass renderer should produce alpha bitmap output");
    };

    assert_eq!(bitmaps.pts, request.pts);
    assert_eq!(bitmaps.frame_width, 640);
    assert_eq!(bitmaps.frame_height, 360);
    assert_eq!(bitmaps.color_space, SubtitleBitmapColorSpace::Video);
    assert!(!bitmaps.parts.is_empty());
    assert!(bitmaps.parts.iter().all(SubtitleAlphaBitmap::is_valid));

    let too_wide = SubtitleRenderRequest {
        pts: request.pts,
        viewport: SubtitleRenderViewport {
            storage_width: u32::MAX,
            ..request.viewport
        },
    };
    assert!(matches!(
        renderer.render(too_wide, &[], false),
        Err(SubtitleError::Libass(message))
            if message == "storage width exceeds libass integer range"
    ));
    assert!(renderer.replace_track(b"[Script Info]", true).is_ok());
    assert!(matches!(
        renderer.replace_track(b"[Script Info]", false),
        Err(SubtitleError::Libass(message))
            if message == "failed to parse ASS script with libass"
    ));
}

#[test]
fn libass_is_set_up_step_by_step() {
    let mut step = LibassStep::InitLibrary;
    for next in [LibassStep::InitRenderer, LibassStep::ReadScript, LibassStep::Ready] {
        step = next_libass_step(step, true).unwrap();
        assert_eq!(step, next);
    }
    let first = next_libass_step(LibassStep::InitLibrary, false).unwrap_err();
    assert!(!first.release_library && !first.release_renderer);
    let second = next_libass_step(LibassStep::InitRenderer, false).unwrap_err();
    assert!(second.release_library && !second.release_renderer);
    assert!(matches!(
        second.error,
        SubtitleError::Libass(message) if message == "failed to initialize libass renderer"
    ));
    let third = next_libass_step(LibassStep::ReadScript, false).unwrap_err();
    assert!(third.release_library && third.release_renderer);
}
