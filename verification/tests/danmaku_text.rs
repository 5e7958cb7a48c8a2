use erika::danmaku::atlas::{GlyphCacheKey, PersistentGlyphAtlas, RasterizedGlyph};
use erika::danmaku::cache::{GlyphCache, TextLayoutCache};
use erika::danmaku::font::{
    choice_face, configured_font_choices, default_font_choices, face_shows, fallback_families,
    first_font, has_glyph, push_unique_face, search_order, FontChoice, FontFamily, FontStep,
    SystemFontFallback,
};
use erika::danmaku::glyph::{rasterize_fallback_glyph, rasterize_font_glyph, GlyphOutline};
use erika::danmaku::layout::{PlannedItem, PlannedPosition};
use erika::danmaku::plan::{prepare_layout, render_plan, PlannedLayout};
use erika::danmaku::text::{
    build_text_layout, measure_with_fallback, measure_without_font, CharMetrics, FaceMetrics,
    GlyphStep, PreparedTextLayout, TextLayoutCacheKey,
};
use erika::danmaku::{
    DanmakuColor, DanmakuFrameLayout, DanmakuFrameStats, DanmakuGlyphAtlas, DanmakuItem,
    DanmakuLayoutConfig, DanmakuMode, DanmakuRenderPlan, DanmakuTimeline, DanmakuViewport,
    DfmLayoutEngine, TextMeasure,
};
use erika::float_bits::{Double, Single};
use erika::time::Duration;

fn single(value: f32) -> Single {
    Single {
        bits: value.to_bits(),
    }
}

fn double(value: f64) -> Double {
    Double {
        bits: value.to_bits(),
    }
}

fn value(number: Single) -> f32 {
    f32::from_bits(number.bits)
}

fn measure(width: f32, height: f32, ascent: f32, descent: f32) -> TextMeasure {
    TextMeasure {
        width: single(width),
        height: single(height),
        ascent: single(ascent),
        descent: single(descent),
    }
}

fn item(millis: u64, text: &str, mode: DanmakuMode) -> DanmakuItem {
    DanmakuItem {
        id: 0,
        pts: Duration::from_millis(millis),
        text: text.to_string(),
        mode,
        font_size: single(25.0),
        color: DanmakuColor::white(),
        opacity: single(1.0),
        is_self: false,
    }
}

fn face(font_id: u32, kern: f32, advance: f32) -> CharMetrics {
    CharMetrics::Face(FaceMetrics {
        font_id,
        kern: single(kern),
        advance: single(advance),
        ascent: single(20.0),
        descent: single(-6.0),
        line_gap: single(2.0),
    })
}

#[test]
fn texts_are_measured_by_their_characters() {
    let chars = [face(0, 9.0, 10.0), face(0, -1.5, 8.0), face(1, 4.0, 7.0)];
    let size = measure_with_fallback(&chars, single(24.0));
    assert_eq!(value(size.width), 23.5);
    assert_eq!(value(size.ascent), 20.0);
    assert_eq!(value(size.descent), 6.0);
    assert_eq!(value(size.height), 24.0f32 * 1.2);
    let estimate = CharMetrics::Estimate(measure(3.0, 9.0, 30.0, 2.0));
    let mixed = measure_with_fallback(&[chars[0], estimate], single(24.0));
    assert_eq!(value(mixed.width), 22.0);
    assert_eq!(value(mixed.height), 38.0);
    let nothing = measure_with_fallback(&[], single(10.0));
    assert_eq!(value(nothing.width), 1.0);
    assert_eq!(value(nothing.ascent), 8.0);
    let bare = measure_without_font(measure(0.0, 0.5, 0.4, 0.1));
    assert_eq!((value(bare.width), value(bare.height)), (1.0, 1.0));
}

#[test]
fn outlines_become_masks() {
    let key = GlyphCacheKey::new(0, 'a', single(20.0), single(1.0));
    let shape = GlyphOutline {
        min_x: single(-0.5),
        min_y: single(-12.25),
        width: single(1.5),
        height: single(1.0),
        coverage: vec![(0, 0, single(1.0)), (1, 0, single(0.5))],
    };
    let glyph = rasterize_font_glyph(key, single(11.0), Some(shape));
    assert_eq!((glyph.width, glyph.height, glyph.stride), (8, 7, 8));
    assert_eq!(glyph.fill_alpha[3 * 8 + 3], 255);
    assert_eq!(glyph.fill_alpha[3 * 8 + 4], 128);
    assert_eq!(glyph.fill_alpha.iter().filter(|byte| **byte > 0).count(), 2);
    assert_eq!(glyph.outline_alpha[2 * 8 + 2], 255);
    assert_eq!(glyph.outline_alpha[2 * 8 + 5], 128);
    assert_eq!(value(glyph.offset_x), -4.0);
    assert_eq!(value(glyph.offset_y), -16.0);
    assert_eq!(value(glyph.advance), 11.0);
    let space = GlyphCacheKey::new(0, ' ', single(20.0), single(1.0));
    let blank = rasterize_font_glyph(space, single(-3.0), None);
    assert_eq!(value(blank.advance), 20.0f32 * 0.35);
    assert!(blank.fill_alpha.is_empty());
    assert_eq!(value(rasterize_font_glyph(key, single(1.0), None).advance), 10.0);
}

#[test]
fn missing_glyphs_become_boxes() {
    let key = GlyphCacheKey::new(0, 'x', single(20.0), single(0.0));
    let glyph = rasterize_fallback_glyph(key, measure(9.5, 20.0, 16.0, 4.0));
    assert_eq!((glyph.width, glyph.height), (14, 24));
    assert_eq!(glyph.fill_alpha, glyph.outline_alpha);
    assert!(glyph.fill_alpha.iter().any(|byte| *byte > 0));
    assert_eq!(value(glyph.offset_x), -2.0);
    assert_eq!(value(glyph.offset_y), -18.0);
    assert_eq!(value(glyph.advance), 10.0);
    let space = GlyphCacheKey::new(0, '\t', single(20.0), single(0.0));
    let blank = rasterize_fallback_glyph(space, measure(9.5, 20.0, 16.0, 4.0));
    assert_eq!(value(blank.advance), 20.0f32 * 0.35);
}

fn solid(ch: char, advance: f32) -> RasterizedGlyph {
    RasterizedGlyph {
        key: GlyphCacheKey::new(0, ch, single(24.0), single(0.0)),
        width: 2,
        height: 1,
        stride: 2,
        fill_alpha: vec![9, 8],
        outline_alpha: vec![9, 8],
        offset_x: single(1.0),
        offset_y: single(-3.0),
        advance: single(advance),
    }
}

#[test]
fn glyphs_follow_each_other() {
    let step = |font_id: Option<u32>, kern: f32, ch: char| GlyphStep {
        font_id,
        kern: single(kern),
        glyph: solid(ch, 10.0),
    };
    let mut atlas = PersistentGlyphAtlas::new();
    let steps = [
        step(Some(1), 5.0, 'a'),
        step(Some(1), -2.0, 'b'),
        step(Some(2), -2.0, 'a'),
        step(None, -2.0, 'c'),
        step(None, -2.0, 'd'),
    ];
    let text = build_text_layout(measure(1.0, 2.0, 3.0, 4.0), &steps, &mut atlas);
    let pens: Vec<f32> = text.glyphs.iter().map(|glyph| value(glyph.pen_x)).collect();
    assert_eq!(pens, vec![0.0, 8.0, 18.0, 28.0, 38.0]);
    assert_eq!(text.glyphs[0].packed, text.glyphs[2].packed);
    assert_ne!(text.glyphs[0].packed, text.glyphs[1].packed);
    assert!(text.glyphs.iter().all(|glyph| glyph.has_bitmap));
    assert_eq!(text.duplicate(), text);
}

#[test]
fn glyphs_are_kept() {
    let mut cache = GlyphCache::new();
    let first = solid('a', 10.0);
    let later = solid('a', 20.0);
    let keys = [first.key, solid('b', 1.0).key];
    assert_eq!(cache.missing(&keys), vec![0, 1]);
    cache.keep(first.clone());
    cache.keep(later);
    assert_eq!(cache.get(first.key), Some(&first));
    assert_eq!(cache.missing(&keys), vec![1]);
}

#[test]
fn texts_are_kept() {
    let key = |text: &str| TextLayoutCacheKey::new(text.to_string(), single(24.0004), single(1.2));
    assert_eq!(key("a").font_size_milli, 24_000);
    assert_eq!(key("a").outline_radius, 2);
    assert_eq!(value(key("a").font_size()), 24.0);
    assert_eq!(value(key("a").outline_width()), 2.0);
    let text = |width: f32| PreparedTextLayout {
        metrics: measure(width, 1.0, 1.0, 0.0),
        glyphs: Vec::new(),
    };
    let mut cache = TextLayoutCache::new();
    assert!(cache.get(&key("a")).is_none());
    cache.insert(key("a"), text(1.0));
    cache.insert(key("b"), text(2.0));
    assert_eq!(cache.get(&key("a")), Some(&text(1.0)));
    assert_eq!(cache.get(&key("b")), Some(&text(2.0)));
    assert!(cache.get(&key("c")).is_none());
    cache.insert(key("a"), text(3.0));
    assert_eq!(cache.get(&key("a")), Some(&text(3.0)));
    assert_eq!(cache.get(&key("b")), Some(&text(2.0)));
}

fn family_choice(name: &str) -> FontChoice {
    FontChoice::Family(FontFamily::Named(name.to_string()))
}

/// A database with one face for each name, and the ids of the faces.
fn database_of(families: &[(&str, u16)]) -> (fontdb::Database, Vec<fontdb::ID>) {
    let mut database = fontdb::Database::new();
    let mut faces = Vec::new();
    for (family, weight) in families {
        faces.push(database.push_face_info(fontdb::FaceInfo {
            id: fontdb::ID::dummy(),
            source: fontdb::Source::Binary(std::sync::Arc::new(small_font())),
            index: 0,
            families: vec![(family.to_string(), fontdb::Language::English_UnitedStates)],
            post_script_name: family.to_string(),
            style: fontdb::Style::Normal,
            weight: fontdb::Weight(*weight),
            stretch: fontdb::Stretch::Normal,
            monospaced: false,
        }));
    }
    (database, faces)
}

#[test]
fn fonts_are_tried_in_order() {
    let choices = configured_font_choices("  Some Family ", "");
    assert_eq!(choices[0], family_choice("Some Family"));
    assert_eq!(choices[1..], default_font_choices()[..]);
    let both = configured_font_choices("Family", " /a/font.ttf");
    assert_eq!(both[0], FontChoice::File("/a/font.ttf".to_string()));
    assert_eq!(both[1], family_choice("Family"));
    assert_eq!(configured_font_choices(" ", " "), default_font_choices());
    assert_eq!(default_font_choices()[0], FontChoice::BuiltIn);
    assert_eq!(fallback_families().len(), 18);
    assert_eq!(fallback_families().last(), Some(&FontFamily::Serif));
}

#[test]
fn faces_are_searched_once() {
    let (database, faces) = database_of(&[
        ("Other", 400),
        ("Times New Roman", 400),
        ("SimHei", 700),
        ("SimHei", 400),
        ("PingFang SC", 400),
    ]);
    let order = search_order(&database);
    assert_eq!(order, vec![faces[4], faces[3], faces[1], faces[0], faces[2]]);
    assert!(search_order(&fontdb::Database::new()).is_empty());
    let mut some = vec![faces[0], faces[1]];
    push_unique_face(&mut some, faces[0]);
    push_unique_face(&mut some, faces[2]);
    assert_eq!(some, vec![faces[0], faces[1], faces[2]]);
}

#[test]
fn families_have_faces() {
    let (database, faces) = database_of(&[("Arial", 700), ("Some", 900), ("Some", 300)]);
    assert_eq!(choice_face(&database, &family_choice("Some")), Some(faces[2]));
    assert_eq!(choice_face(&database, &family_choice("None")), None);
    let plain = FontChoice::Family(FontFamily::SansSerif);
    assert_eq!(choice_face(&database, &plain), Some(faces[0]));
    assert_eq!(choice_face(&database, &FontChoice::BuiltIn), None);
    assert_eq!(choice_face(&database, &FontChoice::File("Some".to_string())), None);
}

#[test]
fn characters_are_looked_for_once() {
    let (database, faces) = database_of(&[("Some", 400), ("Other", 400), ("SimHei", 400)]);
    let mut fonts = SystemFontFallback::new(&database, 7);
    assert_eq!(fonts.face_id(0), Some(faces[2]));
    assert_eq!(fonts.face_id(2), Some(faces[1]));
    assert_eq!(fonts.face_id(3), None);
    assert_eq!(fonts.resolve('a'), FontStep::Read { face: 0 });
    assert_eq!(fonts.face_read('a', 0, false), FontStep::Read { face: 1 });
    let ask = FontStep::Ask { face: 1, font_id: 7 };
    assert_eq!(fonts.face_read('a', 1, true), ask);
    assert_eq!(
        fonts.face_asked('a', 1, 7, true),
        FontStep::Found(Some(7))
    );
    assert_eq!(fonts.resolve('a'), FontStep::Found(Some(7)));
    assert_eq!(fonts.resolve('b'), ask);
    assert_eq!(fonts.face_asked('b', 1, 7, false), FontStep::Read { face: 2 });
    let next = FontStep::Ask { face: 2, font_id: 8 };
    assert_eq!(fonts.face_read('b', 2, true), next);
    assert_eq!(fonts.face_asked('b', 2, 8, false), FontStep::Found(None));
    assert_eq!(fonts.resolve('b'), FontStep::Found(None));
    assert!(has_glyph(' ', 0) && has_glyph('a', 1) && !has_glyph('a', 0));
}

/// A font with a single glyph for the letter `A`.
fn small_font() -> Vec<u8> {
    let mut cmap = vec![0, 0, 0, 1, 0, 3, 0, 1, 0, 0, 0, 12];
    for word in [4u16, 32, 0, 4, 4, 1, 0, 65, 0xffff, 0, 65, 0xffff] {
        cmap.extend(word.to_be_bytes());
    }
    for word in [3u16.wrapping_sub(65), 1, 0, 0] {
        cmap.extend(word.to_be_bytes());
    }
    let mut head = vec![0u8; 54];
    head[18..20].copy_from_slice(&1000u16.to_be_bytes());
    let hhea = vec![0u8; 36];
    let maxp = vec![0, 0, 0x50, 0, 0, 4];
    let tables: [(&[u8], Vec<u8>); 4] = [
        (b"cmap", cmap),
        (b"head", head),
        (b"hhea", hhea),
        (b"maxp", maxp),
    ];
    let mut font = vec![0, 1, 0, 0, 0, 4, 0, 0, 0, 0, 0, 0];
    let mut at = 12 + 16 * tables.len();
    for (tag, data) in &tables {
        font.extend(*tag);
        font.extend(0u32.to_be_bytes());
        font.extend((at as u32).to_be_bytes());
        font.extend((data.len() as u32).to_be_bytes());
        at += data.len();
    }
    for (_, data) in &tables {
        font.extend(data);
    }
    font
}

#[test]
fn fonts_show_their_characters() {
    let font = small_font();
    assert_eq!(face_shows(&font, 0, 'A'), Some(true));
    assert_eq!(face_shows(&font, 0, 'B'), Some(false));
    assert_eq!(face_shows(&font, 0, ' '), Some(true));
    assert_eq!(face_shows(&font, 1, 'A'), None);
    assert_eq!(face_shows(b"no font", 0, 'A'), None);
    let files = [None, Some(b"no font".to_vec()), Some(font.clone()), Some(font)];
    assert_eq!(first_font(&files), Some(2));
    assert_eq!(first_font(&files[..2]), None);
}

fn text_of(text: &str, outline: f32, atlas: &mut PersistentGlyphAtlas) -> PreparedTextLayout {
    let metrics = measure(14.0, 28.8, 19.2, 4.8);
    let steps: Vec<GlyphStep> = text
        .chars()
        .map(|ch| {
            let key = GlyphCacheKey::new(0, ch, single(24.0), single(outline));
            GlyphStep {
                font_id: None,
                kern: single(0.0),
                glyph: rasterize_fallback_glyph(key, metrics),
            }
        })
        .collect();
    build_text_layout(metrics, &steps, atlas)
}

fn planned(text: &str, mode: i32) -> PlannedItem {
    PlannedItem {
        source_id: 4,
        time_seconds: double(0.0),
        text: text.to_string(),
        type_code: mode,
        color_argb: -1,
        opacity: single(1.0),
        font_size: double(24.0),
        width: double(80.0),
        height: double(28.8),
        y_position: double(3.0),
        track_index: 0,
        scroll_speed: double(100.0),
        duration_seconds: double(8.5),
        duplicate_count: 1,
    }
}

fn frame(
    engine: &DfmLayoutEngine,
    millis: u64,
    generation: u64,
    x: f64,
    atlas: &mut PersistentGlyphAtlas,
) -> DanmakuRenderPlan {
    let position = PlannedPosition {
        item_index: 0,
        track_index: 0,
        x: double(x),
        y: double(3.0),
    };
    engine
        .render_plan(
            Duration::from_millis(millis),
            generation,
            &[position],
            atlas.snapshot().cloned(),
        )
        .unwrap()
}

fn engine_of(
    text: &str,
    mode: DanmakuMode,
    type_code: i32,
    config: DanmakuLayoutConfig,
    atlas: &mut PersistentGlyphAtlas,
) -> DfmLayoutEngine {
    let timeline = DanmakuTimeline::new(vec![item(0, text, mode)]).unwrap();
    let outline = value(config.outline_width);
    let mut engine = DfmLayoutEngine::new(timeline, config);
    engine.prepare(
        DanmakuViewport::new(640, 360),
        Some(PlannedLayout {
            items: vec![(planned(text, type_code), text_of(text, outline, atlas))],
            track_count: 1,
        }),
    );
    engine
}

#[test]
fn render_plan_contains_glyph_atlas() {
    let mut atlas = PersistentGlyphAtlas::new();
    let config = DanmakuLayoutConfig::default();
    let engine = engine_of("GPU", DanmakuMode::Top, 5, config, &mut atlas);
    let plan = frame(&engine, 500, 3, 280.0, &mut atlas);

    assert_eq!(plan.generation, 3);
    assert!(!plan.items.is_empty());
    let atlas = plan.atlas.as_ref().expect("glyph atlas exists");
    assert!(atlas.is_valid());
    assert!(plan.items.iter().all(|item| value(item.tex_rect[2]) > 0.0));
}

#[test]
fn render_plan_reuses_glyph_atlas_snapshot_for_stable_glyph_set() {
    let mut atlas = PersistentGlyphAtlas::new();
    let config = DanmakuLayoutConfig::default();
    let engine = engine_of("GPU", DanmakuMode::Scroll, 1, config, &mut atlas);

    let first = frame(&engine, 500, 3, 590.0, &mut atlas);
    let first_atlas = first.atlas.as_ref().expect("glyph atlas exists");
    let first_x = first.items[0].rect[0];
    let second = frame(&engine, 600, 4, 580.0, &mut atlas);
    let second_atlas = second.atlas.as_ref().expect("glyph atlas exists");

    assert_eq!(second.generation, 4);
    assert_ne!(first_x, second.items[0].rect[0]);
    assert_eq!(first_atlas.version, second_atlas.version);
    assert_eq!(first_atlas, second_atlas);
}

#[test]
fn render_plan_keeps_fill_and_outline_masks_separate() {
    let mut atlas = PersistentGlyphAtlas::new();
    let config = DanmakuLayoutConfig {
        outline_width: single(2.0),
        ..DanmakuLayoutConfig::default()
    };
    let engine = engine_of("Outline", DanmakuMode::Top, 5, config, &mut atlas);
    let plan = frame(&engine, 500, 3, 280.0, &mut atlas);
    let atlas = plan.atlas.as_ref().expect("glyph atlas exists");
    let fill_sum = atlas.fill_alpha.iter().map(|&v| u64::from(v)).sum::<u64>();
    let outline_sum = atlas
        .outline_alpha
        .iter()
        .map(|&v| u64::from(v))
        .sum::<u64>();

    assert!(outline_sum > fill_sum);
    assert_ne!(atlas.fill_alpha, atlas.outline_alpha);
}

#[test]
fn glyphs_are_drawn_where_they_are() {
    let mut atlas = PersistentGlyphAtlas::new();
    let config = DanmakuLayoutConfig::default();
    let engine = engine_of("ab", DanmakuMode::Top, 5, config, &mut atlas);
    let plan = frame(&engine, 500, 3, 280.0, &mut atlas);
    assert_eq!(plan.items.len(), 2);
    let advance = value(plan.items[1].rect[0]) - value(plan.items[0].rect[0]);
    assert_eq!(advance, 14.0);
    assert_eq!(plan.items[0].rect[1], plan.items[1].rect[1]);
    assert_eq!(plan.items[0].color_rgba.map(value), [1.0, 1.0, 1.0, 1.0]);
    assert_eq!(plan.items[0].outline_rgba.map(value)[..3], [0.0, 0.0, 0.0]);
    let none: Option<DanmakuGlyphAtlas> = None;
    let nothing = DanmakuFrameLayout::empty(
        Duration::from_millis(5),
        9,
        DanmakuViewport::new(640, 360),
    );
    assert!(render_plan(&nothing, none).is_empty());
    assert_eq!(DanmakuFrameStats::from_layout(&nothing).placed_items, 0);
    assert_eq!(plan.frame_stats.top_items, 1);
}

#[test]
fn nothing_is_prepared_where_nothing_is_shown() {
    let viewport = DanmakuViewport::new(640, 360);
    let timeline = DanmakuTimeline::new(vec![item(0, "a", DanmakuMode::Top)]).unwrap();
    let off = DanmakuLayoutConfig {
        enabled: false,
        ..DanmakuLayoutConfig::default()
    };
    let prepared = prepare_layout(&timeline, viewport, &off, None);
    assert!(prepared.items().is_empty());
    assert_eq!(prepared.stats().source_items, 0);
    assert_eq!(prepared.viewport(), viewport);
    assert_eq!(prepared.scroll_duration(), Duration::from_millis(9_000));
    assert_eq!(prepared.static_duration(), Duration::from_millis(3_800));
    assert!(prepared.item_times().is_empty());
    let on = DanmakuLayoutConfig::default();
    let prepared = prepare_layout(&timeline, viewport, &on, None);
    assert_eq!(prepared.stats().source_items, 1);
    assert_eq!(prepared.stats().filtered_items, 1);
    assert_eq!(prepared.scroll_duration(), Duration::from_millis(10_000));
    assert_eq!(prepared.static_duration(), Duration::from_millis(3_800));
    assert!(prepared.config().same_as(&on));
    let frame = prepared.frame_layout(Duration::zero(), 2, &[]);
    assert_eq!(frame.prepared_stats, prepared.stats());
}
