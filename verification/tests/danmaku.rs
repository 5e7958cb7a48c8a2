use erika::danmaku::atlas::{
    dilate_alpha, fallback_mask, outline_of, plot_coverage, GlyphCacheKey, PersistentGlyphAtlas,
    RasterizedGlyph,
};
use erika::danmaku::config::{compute_scroll_duration, effective_font_size, resolve_outline_px};
use erika::danmaku::engine::frame_generation;
use erika::danmaku::layout::{
    layout_request, measure_requests, place_items, text_requests, PlannedItem, PlannedPosition,
    PreparedDanmakuItem, TextMeasure,
};
use erika::danmaku::model::{
    color_to_argb, dfm_type_code_to_mode, mode_to_dfm_type_code, shadow_style_alpha,
    should_skip_item_error,
};
use erika::danmaku::parse::{decode_xml_entities, parse_color_string};
use erika::danmaku::session::{apply_track_offset, compose_track_item_id};
use erika::danmaku::plan::{prepare_layout, PlannedLayout};
use erika::danmaku::stats::DanmakuRow;
use erika::danmaku::text::PreparedTextLayout;
use erika::danmaku::{
    parse_bilibili_xml, DanmakuColor, DanmakuError, DanmakuFormat, DanmakuFrameStats, DanmakuItem,
    DanmakuLayoutConfig, DanmakuMode, DanmakuPreparedStats, DanmakuSession, DanmakuShadowStyle,
    DanmakuTimeline, DanmakuTrackSource, DanmakuViewport, DfmLayoutEngine,
};
use erika::float_bits::{Double, Single};
use erika::json::JsonValue;
use erika::time::Duration;

fn single(value: f32) -> Single {
    Single {
        bits: value.to_bits(),
    }
}

fn double(value: f64) -> Double {
    Double {
        bits: value.to_bits(),
    }
}

fn value(number: Single) -> f32 {
    f32::from_bits(number.bits)
}

fn item(millis: u64, text: &str, mode: DanmakuMode) -> DanmakuItem {
    DanmakuItem {
        id: 0,
        pts: Duration::from_millis(millis),
        text: text.to_string(),
        mode,
        font_size: single(24.0),
        color: DanmakuColor::white(),
        opacity: single(1.0),
        is_self: false,
    }
}

fn assert_close(actual: Single, expected: f32) {
    let actual = value(actual);
    assert!(
        (actual - expected).abs() < 0.001,
        "expected {actual} to be close to {expected}"
    );
}

#[test]
fn parses_json_long_and_short_fields() {
    let input = r##"{
            "comments": [
                {"time": 1.0, "content": "hello", "type": "scroll", "color": "#ff0000"},
                {"t": 2.0, "c": "top", "y": "top", "r": "rgb(0,255,0)"}
            ]
        }"##;
    let timeline = DanmakuTimeline::from_json(input).unwrap();

    assert_eq!(timeline.len(), 2);
    assert_eq!(timeline.items()[0].mode, DanmakuMode::Scroll);
    assert_eq!(timeline.items()[1].mode, DanmakuMode::Top);
    assert_eq!(value(timeline.items()[0].color.red), 1.0);
    assert_eq!(value(timeline.items()[1].color.green), 1.0);
}

#[test]
fn parses_json_lines_and_xml() {
    let jsonl = r#"{"t":1,"c":"a","y":"bottom","r":16777215}
{"t":2,"c":"b","y":"scroll"}"#;
    let timeline = DanmakuTimeline::from_json_lines(jsonl).unwrap();
    assert_eq!(timeline.items()[0].mode, DanmakuMode::Bottom);

    let xml = r#"<i><d p="1.0,1,25,16777215,0,0,0,42">滚动&amp;测试</d><d p="2.0,5,25,16711680,0,0,0,0">顶部</d></i>"#;
    let timeline = DanmakuTimeline::from_bilibili_xml(xml).unwrap();
    assert_eq!(timeline.len(), 2);
    assert_eq!(timeline.items()[0].text, "滚动&测试");
    assert_eq!(timeline.items()[1].mode, DanmakuMode::Top);
}

#[test]
fn parser_skips_bad_individual_items() {
    let input = r#"{"comments":[
            {"time":1,"content":"ok"},
            {"time":2,"content":""},
            {"bad":"shape"},
            {"time":3,"content":"still ok"}
        ]}"#;
    let timeline = DanmakuTimeline::from_json(input).unwrap();

    assert_eq!(timeline.len(), 2);
    assert_eq!(timeline.items()[0].text, "ok");
    assert_eq!(timeline.items()[1].text, "still ok");
}

#[test]
fn json_special_danmaku_is_filtered_from_layout() {
    let input = r#"{"comments":[{"time":1,"content":"path","type":"special"}]}"#;
    let timeline = DanmakuTimeline::from_json(input).unwrap();
    let viewport = DanmakuViewport::new(640, 360);
    let config = DanmakuLayoutConfig::default();
    assert_eq!(measure_requests(&timeline, viewport, &config).len(), 0);
    let request = layout_request(&timeline, viewport, &config, &[]).unwrap();

    assert_eq!(request.items.len(), 0);
    assert_eq!(request.source_count, 1);
    let nothing = || PlannedLayout {
        items: Vec::new(),
        track_count: 0,
    };
    let prepared = prepare_layout(&timeline, viewport, &config, Some(nothing()));
    assert_eq!(prepared.items().len(), 0);

    let mut engine = DfmLayoutEngine::new(timeline, config);
    engine.prepare(viewport, Some(nothing()));
    let layout = engine.frame_layout(Duration::from_secs(1), 1, &[]).unwrap();
    assert_eq!(layout.items.len(), 0);
}

#[test]
fn source_font_size_is_relative_to_configured_reference_size() {
    let timeline = DanmakuTimeline::new(vec![DanmakuItem {
        font_size: single(50.0),
        ..item(0, "large", DanmakuMode::Top)
    }])
    .unwrap();
    let config = DanmakuLayoutConfig {
        font_size: single(30.0),
        ..DanmakuLayoutConfig::default()
    };
    let requests = measure_requests(&timeline, DanmakuViewport::new(1920, 1080), &config);

    assert_close(requests[0].font_size, 60.0);
}

#[test]
fn layout_font_size_uses_surface_scale_for_physical_pixels() {
    let timeline = DanmakuTimeline::new(vec![DanmakuItem {
        font_size: single(25.0),
        ..item(0, "scale", DanmakuMode::Top)
    }])
    .unwrap();
    let config = DanmakuLayoutConfig {
        font_size: single(32.0),
        ..DanmakuLayoutConfig::default()
    };
    let one_view = DanmakuViewport::with_scale(800, 450, single(1.0));
    let two_view = DanmakuViewport::with_scale(1600, 900, single(2.0));
    let one_x = measure_requests(&timeline, one_view, &config);
    let two_x = measure_requests(&timeline, two_view, &config);
    let expected = 32.0;

    assert_close(one_x[0].font_size, expected);
    assert_close(two_x[0].font_size, expected * 2.0);
    let (source, reference) = (single(25.0), single(32.0));
    assert_close(effective_font_size(source, reference, single(2.0)), expected * 2.0);
}

#[test]
fn layout_font_size_uses_nipaplay_logical_units_across_resize() {
    let timeline = DanmakuTimeline::new(vec![DanmakuItem {
        font_size: single(25.0),
        ..item(0, "scale", DanmakuMode::Scroll)
    }])
    .unwrap();
    let config = DanmakuLayoutConfig {
        font_size: single(32.0),
        ..DanmakuLayoutConfig::default()
    };
    let small = measure_requests(&timeline, DanmakuViewport::new(640, 360), &config);
    let large = measure_requests(&timeline, DanmakuViewport::new(1920, 1080), &config);
    let expected = 32.0;

    assert_close(small[0].font_size, expected);
    assert_close(large[0].font_size, expected);

    let width_of = |viewport: DanmakuViewport| {
        let request = layout_request(&timeline, viewport, &config, &[bare_text().metrics]);
        request.unwrap().width
    };
    assert!(width_of(DanmakuViewport::new(1920, 1080)) > width_of(DanmakuViewport::new(640, 360)));
}

#[test]
fn texts_are_asked_for_at_their_planned_size() {
    let config = DanmakuLayoutConfig {
        outline_width: single(1.5),
        ..DanmakuLayoutConfig::default()
    };
    let requests = text_requests(&[planned("one"), planned("two")], &config);
    assert_eq!(requests.len(), 2);
    assert_eq!(requests[1].text, "two");
    assert_eq!(requests[1].font_size, single(24.0));
    assert_eq!(
        requests[1].outline_width,
        resolve_outline_px(single(24.0), single(1.5))
    );
    assert!(text_requests(&[], &config).is_empty());
}

fn bare_text() -> PreparedTextLayout {
    PreparedTextLayout {
        metrics: TextMeasure {
            width: single(80.0),
            height: single(28.8),
            ascent: single(24.0),
            descent: single(4.8),
        },
        glyphs: Vec::new(),
    }
}

fn planned(text: &str) -> PlannedItem {
    PlannedItem {
        source_id: 4,
        time_seconds: double(1.0),
        text: text.to_string(),
        type_code: 1,
        color_argb: -1,
        opacity: single(1.0),
        font_size: double(24.0),
        width: double(80.0),
        height: double(28.8),
        y_position: double(3.0),
        track_index: -2,
        scroll_speed: double(100.0),
        duration_seconds: double(8.5),
        duplicate_count: 1,
    }
}

#[test]
fn frame_layout_uses_generation_and_media_time() {
    let timeline = DanmakuTimeline::new(vec![item(1000, "sync", DanmakuMode::Scroll)]).unwrap();
    let mut engine = DfmLayoutEngine::new(timeline, DanmakuLayoutConfig::default());
    let viewport = DanmakuViewport::new(640, 360);
    assert!(engine
        .frame_layout(Duration::from_millis(1500), 10, &[])
        .is_none());
    engine.prepare(
        viewport,
        Some(PlannedLayout {
            items: vec![(planned("sync"), bare_text())],
            track_count: 1,
        }),
    );
    let at = |x: f64| PlannedPosition {
        item_index: 0,
        track_index: 0,
        x: double(x),
        y: double(3.0),
    };
    let first = engine
        .frame_layout(Duration::from_millis(1500), 10, &[at(300.0)])
        .unwrap();
    let stale = engine
        .frame_layout(Duration::from_millis(1500), 11, &[at(300.0)])
        .unwrap();
    let second = engine
        .frame_layout(Duration::from_millis(2500), 11, &[at(200.0)])
        .unwrap();

    assert_eq!(first.generation, 10);
    assert_eq!(first.items.len(), 1);
    assert_eq!(stale.generation, 11);
    assert_eq!(second.generation, 11);
    assert!(value(second.items[0].x) < value(first.items[0].x));
    assert_eq!(first.media_time, Duration::from_millis(1500));
    assert_eq!(first.viewport, viewport);
    assert_eq!(frame_generation(0), 1);
    assert_eq!(frame_generation(11), 11);
}

#[test]
fn plans_are_asked_for_in_seconds() {
    let timeline = DanmakuTimeline::new(vec![item(1500, "later", DanmakuMode::Top)]).unwrap();
    let viewport = DanmakuViewport::new(640, 360);
    let config = DanmakuLayoutConfig::default();
    let measure = bare_text().metrics;
    let request = layout_request(&timeline, viewport, &config, &[measure]).unwrap();
    assert_eq!(request.items[0].time_seconds, double(1.5));
    assert_eq!(request.scroll_duration_seconds, double(10.0));
    let plan = PlannedLayout {
        items: vec![(planned("later"), bare_text())],
        track_count: 1,
    };
    let prepared = prepare_layout(&timeline, viewport, &config, Some(plan));
    assert_eq!(prepared.item_times(), [double(1.0)]);
}

#[test]
fn planned_comments_are_placed() {
    let prepared = PreparedDanmakuItem::from_planned(planned("sync"), bare_text());
    assert_eq!(prepared.time, Duration::from_secs(1));
    assert_eq!(prepared.duration, Duration::from_millis(8500));
    assert_eq!(prepared.mode, DanmakuMode::Scroll);
    assert_eq!(prepared.track_index, 0);
    assert_eq!(value(prepared.color.alpha), 1.0);
    let position = PlannedPosition {
        item_index: 0,
        track_index: 3,
        x: double(12.5),
        y: double(4.0),
    };
    let beyond = PlannedPosition {
        item_index: 7,
        ..position
    };
    let config = DanmakuLayoutConfig {
        opacity: single(0.5),
        ..DanmakuLayoutConfig::default()
    };
    let viewport = DanmakuViewport::new(640, 360);
    let placed = place_items(&[prepared.clone()], &[position, beyond], &config, viewport);
    assert_eq!(placed.len(), 1);
    assert_eq!(placed[0].track_index, 3);
    assert_eq!(value(placed[0].x), 12.5);
    assert_eq!(value(placed[0].opacity), 0.5);
    let off = DanmakuLayoutConfig {
        enabled: false,
        ..config
    };
    assert!(place_items(&[prepared], &[position], &off, viewport).is_empty());
}

#[test]
fn generation_change_reuses_prepared_layout() {
    let timeline = DanmakuTimeline::new(vec![item(1000, "seek", DanmakuMode::Scroll)]).unwrap();
    let mut engine = DfmLayoutEngine::new(timeline.duplicate(), DanmakuLayoutConfig::default());
    let viewport = DanmakuViewport::new(640, 360);

    assert!(engine.needs_prepare(viewport));
    assert!(engine.prepared().is_none());
    let first = engine.prepare(
        viewport,
        Some(PlannedLayout {
            items: vec![(planned("seek"), bare_text())],
            track_count: 1,
        }),
    );
    let first_text = first.items()[0].text.clone();
    let first_text_layout = first.items()[0].text_layout.clone();
    let layout = engine
        .frame_layout(Duration::from_millis(1500), 2, &[])
        .unwrap();
    let prepared = engine.prepared().unwrap();
    assert_eq!(layout.generation, 2);
    assert_eq!(prepared.items()[0].text, first_text);
    assert_eq!(prepared.items()[0].text_layout, first_text_layout);
    assert!(!engine.needs_prepare(viewport));
    assert!(engine.needs_prepare(DanmakuViewport::new(641, 360)));
    engine.sync_timeline(&timeline);
    assert!(!engine.needs_prepare(viewport));
    assert_eq!(
        engine.set_config(DanmakuLayoutConfig::default()),
        (false, false)
    );
    assert!(!engine.needs_prepare(viewport));
    let other = DanmakuLayoutConfig {
        custom_font_family: "Other".to_string(),
        ..DanmakuLayoutConfig::default()
    };
    assert_eq!(engine.set_config(other), (true, true));
    assert!(engine.needs_prepare(viewport));
    engine.prepare(viewport, None);
    engine.clear_timeline();
    assert!(engine.needs_prepare(viewport));
    assert!(engine.timeline().is_empty());
}

#[test]
fn errors_are_told() {
    let outcome = |text: &str| DanmakuTimeline::from_json(text);
    assert!(matches!(outcome("{"), Err(DanmakuError::Parse(_))));
    assert!(matches!(outcome("7"), Err(_)));
    assert!(DanmakuTimeline::from_json("[]").unwrap().is_empty());
    assert!(matches!(
        DanmakuTimeline::from_json_lines("{\"t\":1,\"c\":\"a\"}\nnonsense"),
        Err(DanmakuError::Parse(_))
    ));
    assert!(should_skip_item_error(&DanmakuError::MissingText));
    assert!(should_skip_item_error(&DanmakuError::InvalidField(
        "time".to_string()
    )));
    assert!(!should_skip_item_error(&DanmakuError::Parse(String::new())));
    assert!(!should_skip_item_error(&DanmakuError::Io(String::new())));
    assert!(matches!(
        item(0, "  ", DanmakuMode::Top).normalized(1),
        Err(DanmakuError::MissingText)
    ));
}

#[test]
fn documents_are_read_as_they_are_written() {
    let document = JsonValue::Object(vec![(
        "comments".to_string(),
        JsonValue::Array(vec![JsonValue::Object(vec![
            (
                "c".to_string(),
                JsonValue::Text("from a document".to_string()),
            ),
            ("t".to_string(), JsonValue::Text("1.5".to_string())),
        ])]),
    )]);
    let timeline = DanmakuTimeline::from_document(&document).unwrap().unwrap();
    assert_eq!(timeline.items()[0].text, "from a document");
    assert_eq!(timeline.items()[0].pts, Duration::from_millis(1500));
}

#[test]
fn formats_are_told_apart() {
    assert_eq!(DanmakuFormat::detect("  <i/>"), DanmakuFormat::Xml);
    assert_eq!(DanmakuFormat::detect("\n["), DanmakuFormat::Json);
    assert_eq!(DanmakuFormat::detect("1"), DanmakuFormat::JsonLines);
    assert_eq!(DanmakuFormat::from_extension(Some("XML")), DanmakuFormat::Xml);
    assert_eq!(
        DanmakuFormat::from_extension(Some("ndjson")),
        DanmakuFormat::JsonLines
    );
    assert_eq!(DanmakuFormat::from_extension(Some("json")), DanmakuFormat::Json);
    assert_eq!(DanmakuFormat::from_extension(None), DanmakuFormat::Auto);
    let json = r#"[{"t":"2.25","c":"a"}]"#;
    let parsed = DanmakuTimeline::parse_auto(json).unwrap();
    assert_eq!(parsed.items()[0].pts, Duration::from_millis(2250));
    let tried = DanmakuTimeline::try_parse(DanmakuFormat::Auto, json);
    assert_eq!(tried.unwrap().unwrap().len(), 1);
    let endless = r#"[{"t":1e300,"c":"a"}]"#;
    assert!(DanmakuTimeline::try_parse(DanmakuFormat::Json, endless).is_none());
}

#[test]
fn times_are_read_as_floating_point_does() {
    for text in ["0.1", "12.3456789", "1e3", "5400.033333333333", "3"] {
        let seconds: f64 = text.parse().unwrap();
        let expected = std::time::Duration::from_secs_f64(seconds);
        let json = format!("[{{\"t\":{text},\"c\":\"a\"}}]");
        let timeline = DanmakuTimeline::from_json(&json).unwrap();
        assert_eq!(timeline.items()[0].pts.as_nanos(), expected.as_nanos());
        let xml = format!("<i><d p=\"{text},1,25,255\">a</d></i>");
        let items = parse_bilibili_xml(&xml).unwrap();
        assert_eq!(items[0].pts.as_nanos(), expected.as_nanos());
    }
}

#[test]
fn colours_are_read_and_written() {
    let colour = |text: &str| parse_color_string(text).map(|c| color_to_argb(c, single(1.0)));
    assert_eq!(colour("#ff0000"), Some(0xffff0000u32 as i32));
    assert_eq!(colour("rgb(1, 2, 3)"), Some(0xff010203u32 as i32));
    assert_eq!(colour("#0x00ff00"), Some(0xff00ff00u32 as i32));
    assert_eq!(colour("#+ff"), Some(0xff0000ffu32 as i32));
    assert_eq!(colour("rgb(+1,2,3,4)"), Some(0xff010203u32 as i32));
    assert_eq!(colour(" 255 "), Some(0xff0000ffu32 as i32));
    assert_eq!(colour("rgb(256,0,0)"), None);
    assert_eq!(colour("nothing"), None);
    assert_eq!(
        color_to_argb(DanmakuColor::from_argb(0x80402010), single(1.0)),
        0x80402010u32 as i32
    );
    assert_eq!(
        DanmakuColor::rgb_u8(0, 51, 255).rgba(single(0.5)).map(value),
        [0.0, 0.2, 1.0, 0.5]
    );
    let decoded: String = decode_xml_entities(&"a &lt;b&gt; &amp;amp; &quot;&apos;".chars().collect::<Vec<_>>())
        .into_iter()
        .collect();
    assert_eq!(decoded, "a <b> &amp; \"'");
}

#[test]
fn codes_read_back() {
    for mode in [
        DanmakuMode::Scroll,
        DanmakuMode::ScrollReverse,
        DanmakuMode::Top,
        DanmakuMode::Bottom,
        DanmakuMode::Special,
    ] {
        assert_eq!(dfm_type_code_to_mode(mode_to_dfm_type_code(mode)), mode);
    }
    for style in [
        DanmakuShadowStyle::NoShadow,
        DanmakuShadowStyle::Soft,
        DanmakuShadowStyle::Medium,
        DanmakuShadowStyle::Strong,
    ] {
        assert_eq!(DanmakuShadowStyle::from_code(style.code()), style);
    }
    assert_eq!(value(shadow_style_alpha(DanmakuShadowStyle::Soft)), 0.34);
    assert_eq!(value(shadow_style_alpha(DanmakuShadowStyle::Medium)), 0.44);
    assert_eq!(value(shadow_style_alpha(DanmakuShadowStyle::Strong)), 0.55);
    assert_eq!(DanmakuMode::from_bilibili_mode(4), DanmakuMode::Bottom);
    assert_eq!(DanmakuMode::from_bilibili_mode(5), DanmakuMode::Top);
    assert_eq!(DanmakuMode::from_text("bottom"), DanmakuMode::Bottom);
}

#[test]
fn offsets_are_undone() {
    let time = Duration::from_millis(1500);
    let later = apply_track_offset(time, 250_000).unwrap();
    assert_eq!(later, Duration::from_millis(1750));
    assert_eq!(apply_track_offset(later, -250_000), Some(time));
    assert_eq!(apply_track_offset(time, -1_500_001), None);
    assert_eq!(compose_track_item_id(2, 7), (2 << 48) + 7);
    assert_ne!(compose_track_item_id(2, 7), compose_track_item_id(3, 7));
}

#[test]
fn sessions_merge_their_tracks() {
    let mut session = DanmakuSession::new();
    assert!(session.is_empty());
    let first = DanmakuTimeline::new(vec![item(2000, "b", DanmakuMode::Top)]).unwrap();
    let second = DanmakuTimeline::new(vec![item(1000, "a", DanmakuMode::Top)]).unwrap();
    let one = session.add_track(first, "one".to_string(), DanmakuTrackSource::Manual);
    let two = session.add_track(second, "two".to_string(), DanmakuTrackSource::Json);
    let texts = |session: &mut DanmakuSession| -> Vec<String> {
        session
            .active_timeline()
            .items()
            .iter()
            .map(|item| item.text.clone())
            .collect()
    };
    assert_eq!(texts(&mut session), vec!["a", "b"]);
    session.set_global_offset(-1_500_000);
    assert_eq!(texts(&mut session), vec!["b"]);
    assert_eq!(session.global_offset(), -1_500_000);
    assert!(session.set_track_offset(two, 600_000));
    assert_eq!(texts(&mut session), vec!["a", "b"]);
    assert!(session.set_track_enabled(one, false));
    assert_eq!(texts(&mut session), vec!["a"]);
    assert_eq!(session.active_timeline_clone().len(), 1);
    assert_eq!(session.track_infos()[1].source, "json");
    let version = session.version();
    assert!(!session.remove_track(99));
    assert_eq!(session.version(), version);
    assert!(session.remove_track(two));
    assert!(session.version() > version);
    session.clear();
    assert!(session.tracks().is_empty());
}

#[test]
fn settings_are_held_within_bounds() {
    let config = DanmakuLayoutConfig {
        opacity: single(3.0),
        font_size: single(f32::NAN),
        display_area: single(-1.0),
        ..DanmakuLayoutConfig::default()
    };
    let sane = config.sanitized();
    assert_eq!(value(sane.opacity), 1.0);
    assert!(value(sane.font_size).is_finite());
    assert!(value(sane.display_area) > 0.0);
    assert!(sane.sanitized().same_as(&sane));
    assert!(sane.same_font(&config));
    let duration = compute_scroll_duration(&DanmakuLayoutConfig::default());
    assert!(duration > Duration::zero());
    assert_eq!(value(resolve_outline_px(single(24.0), single(0.0))), 0.0);
}

#[test]
fn masks_are_dilated() {
    let mut mask = vec![0u8; 9];
    plot_coverage(&mut mask, 3, 3, 0, 1, 1, single(1.0));
    assert_eq!(mask, vec![0, 0, 0, 0, 255, 0, 0, 0, 0]);
    assert_eq!(dilate_alpha(&mask, 3, 3, 3, 0), mask);
    assert_eq!(dilate_alpha(&mask, 3, 3, 3, 1), vec![255; 9]);
    assert_eq!(outline_of(&mask, 3, 3, 1), vec![255; 9]);
    let boxed = fallback_mask(6, 6, 1);
    assert_eq!(boxed[0], 0);
    assert!(boxed.iter().any(|byte| *byte > 0));
}

#[test]
fn glyphs_are_packed_once() {
    let key = |ch: char| GlyphCacheKey::new(0, ch, single(24.5), single(1.2));
    assert_eq!(key('a').font_size_milli, 24_500);
    assert_eq!(key('a').outline_radius, 2);
    assert_eq!(value(key('a').font_size()), 24.5);
    let glyph = |ch: char, byte: u8| RasterizedGlyph {
        key: key(ch),
        width: 2,
        height: 1,
        stride: 2,
        fill_alpha: vec![byte, byte + 1],
        outline_alpha: vec![byte + 2, byte + 3],
        offset_x: single(0.0),
        offset_y: single(0.0),
        advance: single(2.0),
    };
    let mut atlas = PersistentGlyphAtlas::new();
    assert!(atlas.snapshot().is_none());
    let first = atlas.pack(&glyph('a', 10));
    let second = atlas.pack(&glyph('b', 20));
    assert_eq!(atlas.pack(&glyph('a', 30)), first);
    assert_ne!(first, second);
    let snapshot = atlas.snapshot().unwrap();
    assert!(snapshot.is_valid());
    let at = |x: u32, y: u32| y as usize * snapshot.stride + x as usize;
    assert_eq!(snapshot.fill_alpha[at(first.x, first.y)], 10);
    assert_eq!(snapshot.fill_alpha[at(second.x + 1, second.y)], 21);
    assert_eq!(snapshot.outline_alpha[at(second.x, second.y)], 22);
    assert!(atlas.check_rows_left(1));
    assert!(atlas.check_rows_left(0x4000_0000));
    assert!(!atlas.check_rows_left(0x8000_0000));
    assert!(!atlas.check_rows_left(u32::MAX));
}

#[test]
fn rows_are_counted() {
    let row = |mode: DanmakuMode, track_index: usize, row_key: i32| DanmakuRow {
        mode,
        track_index,
        row_key,
        top: single(row_key as f32),
        bottom: single(row_key as f32 + 10.0),
        height: single(10.0),
    };
    let rows = [
        row(DanmakuMode::Scroll, 2, 20),
        row(DanmakuMode::Top, 0, 0),
        row(DanmakuMode::ScrollReverse, 1, 10),
        row(DanmakuMode::Scroll, 1, 10),
        row(DanmakuMode::Bottom, 0, 50),
    ];
    let prepared =
        DanmakuPreparedStats::from_rows(9, 7, &rows, 360, single(1.0), single(0.5), 4);
    assert_eq!(prepared.filtered_items, 2);
    assert_eq!(prepared.prepared_scroll_items, 3);
    assert_eq!(prepared.prepared_scroll_rows, 2);
    assert_eq!(value(prepared.prepared_scroll_min_y), 10.0);
    assert_eq!(value(prepared.prepared_scroll_max_y), 30.0);
    assert_eq!(prepared.scroll_buckets[0].key, 10);
    assert_eq!(prepared.scroll_buckets[0].count, 2);
    assert_eq!(value(prepared.display_area_height), 360.0);
    let frame = DanmakuFrameStats::from_rows(prepared, &rows);
    assert_eq!(frame.placed_items, 5);
    assert_eq!((frame.scroll_track_min, frame.scroll_track_max), (1, 2));
    assert_eq!((frame.top_items, frame.bottom_items), (1, 1));
}

#[test]
fn texts_are_measured_at_their_size() {
    let timeline = DanmakuTimeline::new(vec![
        item(0, "a", DanmakuMode::Scroll),
        item(1, "b", DanmakuMode::Special),
        item(2, "c", DanmakuMode::Bottom),
    ])
    .unwrap();
    let viewport = DanmakuViewport::new(640, 360);
    let config = DanmakuLayoutConfig::default();
    let requests = measure_requests(&timeline, viewport, &config);
    assert_eq!(requests.len(), 2);
    assert_eq!(requests[1].text, "c");
    let measures = [
        TextMeasure {
            width: single(10.0),
            height: single(1.0),
            ascent: single(0.8),
            descent: single(0.2),
        },
        TextMeasure {
            width: single(20.0),
            height: single(100.0),
            ascent: single(80.0),
            descent: single(20.0),
        },
    ];
    let request = layout_request(&timeline, viewport, &config, &measures).unwrap();
    let size = value(requests[0].font_size);
    assert_eq!(value(request.items[0].paint_height), size * 1.2);
    assert_eq!(value(request.items[1].paint_height), 100.0);
    assert_eq!(request.items[1].color_argb, -1);
    let off = DanmakuLayoutConfig {
        enabled: false,
        ..config
    };
    assert!(layout_request(&timeline, viewport, &off, &measures).is_none());
}
