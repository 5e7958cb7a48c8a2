//! What the layout of comments is planned from, and what a plan turns into.
use crate::binary64::span_seconds;
use crate::danmaku::config::{
    compute_scroll_duration, config_font_size, copy_words, effective_config_font_size,
    effective_font_size, item_font_size, outline_px, resolve_outline_px, scale_offset,
    scroll_millis, words_view, ConfigModel, DanmakuLayoutConfig, SINGLE_THOUSANDTH,
};
use crate::danmaku::model::{
    alpha_of_style, argb_color, argb_word, code_of_mode, color_to_argb, dfm_type_code_to_mode,
    mode_of_signed_code, mode_to_dfm_type_code, shadow_style_alpha, DanmakuColor, DanmakuItem,
    DanmakuMode, DanmakuViewport, ItemModel,
};
use crate::danmaku::stats::DanmakuPreparedStats;
use crate::danmaku::text::PreparedTextLayout;
use crate::danmaku::timeline::{items_view, DanmakuTimeline};
use crate::float_bits::{encodes, Double, Single, SINGLE_ONE};
use crate::float_laws::law_one_changes_nothing;
use crate::num::wrap_i32;
use crate::time::Duration;
use vstd::prelude::*;

verus! {

broadcast use vstd::seq_lib::group_seq_properties;

/// The number 1.2.
pub const SINGLE_1_2: u32 = 0x3f99_999a;

/// The size of a text.
#[derive(Debug, Clone, Copy, PartialEq, Eq, Structural)]
pub struct TextMeasure {
    pub width: Single,
    pub height: Single,
    pub ascent: Single,
    pub descent: Single,
}

// ---------------------------------------------------------------------------
// Requests
// ---------------------------------------------------------------------------

/// A comment as a layout is planned from it.
#[derive(Debug, Clone, PartialEq, Eq)]
pub struct LayoutSource {
    pub source_id: u64,
    pub time_seconds: Double,
    pub text: String,
    pub type_code: i32,
    pub color_argb: i32,
    pub opacity: Single,
    pub is_me: bool,
    pub font_size: Single,
    pub paint_width: Single,
    pub paint_height: Single,
}

/// Whether a source is that of a comment of some size on a surface.
pub open spec fn is_source_of(
    source: LayoutSource,
    item: ItemModel,
    measure: TextMeasure,
    config: ConfigModel,
    viewport: DanmakuViewport,
) -> bool {
    let font_size = item_font_size(item.font_size, config.font_size, viewport.scale_factor);
    &&& source.source_id == item.id
    &&& encodes(source.time_seconds.bits, span_seconds(item.pts))
    &&& source.text@ == item.text
    &&& source.type_code == code_of_mode(item.mode)
    &&& source.color_argb == wrap_i32(argb_word(item.color, item.opacity))
    &&& source.opacity == item.opacity
    &&& source.is_me == item.is_self
    &&& source.font_size == font_size
    &&& source.paint_width == measure.width
    &&& source.paint_height == measure.height.greater(
        font_size.product(Single { bits: SINGLE_1_2 }),
    )
}

/// The comments that are laid out: all but the special ones.
pub open spec fn supported(items: Seq<ItemModel>) -> Seq<ItemModel>
    decreases items.len(),
{
    if items.len() == 0 {
        Seq::empty()
    } else if items.last().mode == DanmakuMode::Special {
        supported(items.drop_last())
    } else {
        supported(items.drop_last()).push(items.last())
    }
}

/// A text that has to be measured before a layout is planned.
#[derive(Debug, Clone, PartialEq, Eq)]
pub struct MeasureRequest {
    pub text: String,
    pub font_size: Single,
}

/// The texts that have to be measured: those of the comments that are laid out,
/// each at its size on the surface.
pub fn measure_requests(
    timeline: &DanmakuTimeline,
    viewport: DanmakuViewport,
    config: &DanmakuLayoutConfig,
) -> (result: Vec<MeasureRequest>)
    ensures
        result@.len() == supported(timeline@).len(),
        forall|i: int|
            0 <= i < result@.len() ==> {
                &&& (#[trigger] result@[i]).text@ == supported(timeline@)[i].text
                &&& result@[i].font_size == item_font_size(
                    supported(timeline@)[i].font_size,
                    config@.font_size,
                    viewport.scale_factor,
                )
            },
{
    let items = timeline.items();
    let ghost models = items_view(items@);
    let mut result: Vec<MeasureRequest> = Vec::new();
    let mut i: usize = 0;
    while i < items.len()
        invariant
            i <= items@.len(),
            models == items_view(items@),
            result@.len() == supported(models.take(i as int)).len(),
            forall|k: int|
                0 <= k < result@.len() ==> {
                    &&& (#[trigger] result@[k]).text@ == supported(models.take(i as int))[k].text
                    &&& result@[k].font_size == item_font_size(
                        supported(models.take(i as int))[k].font_size,
                        config@.font_size,
                        viewport.scale_factor,
                    )
                },
        decreases items@.len() - i,
    {
        assert(models.take(i as int + 1).drop_last() =~= models.take(i as int));
        let item: &DanmakuItem = &items[i];
        assert(models.take(i as int + 1).last() == item@);
        if item.mode != DanmakuMode::Special {
            result.push(
                MeasureRequest {
                    text: item.text.clone(),
                    font_size: effective_font_size(
                        item.font_size,
                        config.font_size,
                        viewport.scale_factor,
                    ),
                },
            );
        }
        i += 1;
    }
    assert(models.take(i as int) =~= models);
    result
}

/// A text that has to be measured and drawn once its layout is planned.
#[derive(Debug, Clone, PartialEq, Eq)]
pub struct TextRequest {
    pub text: String,
    pub font_size: Single,
    pub outline_width: Single,
}

/// Whether a text is asked for as a planned comment needs it.
pub open spec fn is_request_of(
    request: TextRequest,
    item: PlannedItem,
    config: ConfigModel,
) -> bool {
    &&& request.text@ == item.text@
    &&& request.font_size == item.font_size.narrowed()
    &&& request.outline_width == outline_px(item.font_size.narrowed(), config.outline_width)
}

/// The texts that have to be measured and drawn for planned comments: each at its
/// size in the plan, with an outline for that size.
pub fn text_requests(planned: &[PlannedItem], config: &DanmakuLayoutConfig) -> (result: Vec<
    TextRequest,
>)
    ensures
        result@.len() == planned@.len(),
        forall|i: int|
            0 <= i < planned@.len() ==> is_request_of(
                #[trigger] result@[i],
                planned@[i],
                config@,
            ),
{
    let mut result: Vec<TextRequest> = Vec::new();
    let mut i: usize = 0;
    while i < planned.len()
        invariant
            i <= planned@.len(),
            result@.len() == i,
            forall|k: int|
                0 <= k < i ==> is_request_of(#[trigger] result@[k], planned@[k], config@),
        decreases planned@.len() - i,
    {
        let item: &PlannedItem = &planned[i];
        let font_size = item.font_size.narrow();
        result.push(
            TextRequest {
                text: item.text.clone(),
                font_size,
                outline_width: resolve_outline_px(font_size, config.outline_width),
            },
        );
        i += 1;
    }
    result
}

/// What a layout is planned from.
#[derive(Debug, Clone, PartialEq, Eq)]
pub struct LayoutRequest {
    pub items: Vec<LayoutSource>,
    pub source_count: usize,
    pub width: u32,
    pub height: u32,
    pub font_size: Single,
    pub display_area: Single,
    pub scroll_duration_seconds: Double,
    pub allow_stacking: bool,
    pub allow_scroll_overwrite: bool,
    pub merge_danmaku: bool,
    pub max_quantity: Option<u32>,
    pub max_lines_per_type: Option<u32>,
    pub track_gap_ratio: Single,
    pub outline_width: Single,
    pub block_words: Vec<String>,
    pub block_top: bool,
    pub block_bottom: bool,
    pub block_scroll: bool,
}

fn layout_sources(
    timeline: &DanmakuTimeline,
    viewport: DanmakuViewport,
    config: &DanmakuLayoutConfig,
    measures: &[TextMeasure],
) -> (result: Vec<LayoutSource>)
    requires
        measures@.len() == supported(timeline@).len(),
    ensures
        result@.len() == supported(timeline@).len(),
        forall|i: int|
            0 <= i < result@.len() ==> is_source_of(
                #[trigger] result@[i],
                supported(timeline@)[i],
                measures@[i],
                config@,
                viewport,
            ),
{
    let items = timeline.items();
    let ghost models = items_view(items@);
    let mut result: Vec<LayoutSource> = Vec::new();
    let mut i: usize = 0;
    while i < items.len()
        invariant
            i <= items@.len(),
            models == items_view(items@),
            models == timeline@,
            measures@.len() == supported(models).len(),
            result@.len() == supported(models.take(i as int)).len(),
            forall|k: int|
                0 <= k < result@.len() ==> is_source_of(
                    #[trigger] result@[k],
                    supported(models.take(i as int))[k],
                    measures@[k],
                    config@,
                    viewport,
                ),
        decreases items@.len() - i,
    {
        assert(models.take(i as int + 1).drop_last() =~= models.take(i as int));
        let item: &DanmakuItem = &items[i];
        assert(models.take(i as int + 1).last() == item@);
        if item.mode != DanmakuMode::Special {
            proof {
                lemma_supported_prefix(models, i as int + 1);
            }
            let measure: TextMeasure = measures[result.len()];
            let font_size = effective_font_size(
                item.font_size,
                config.font_size,
                viewport.scale_factor,
            );
            result.push(
                LayoutSource {
                    source_id: item.id,
                    time_seconds: Double::from_span(item.pts),
                    text: item.text.clone(),
                    type_code: mode_to_dfm_type_code(item.mode),
                    color_argb: color_to_argb(item.color, item.opacity),
                    opacity: item.opacity,
                    is_me: item.is_self,
                    font_size,
                    paint_width: measure.width,
                    paint_height: measure.height.max_of(
                        font_size.times(Single { bits: SINGLE_1_2 }),
                    ),
                },
            );
        }
        i += 1;
    }
    assert(models.take(i as int) =~= models);
    result
}

proof fn lemma_supported_prefix(items: Seq<ItemModel>, n: int)
    requires
        0 <= n <= items.len(),
    ensures
        supported(items.take(n)).len() <= supported(items).len(),
    decreases items.len(),
{
    if n < items.len() {
        assert(items.drop_last().take(n) =~= items.take(n));
        lemma_supported_prefix(items.drop_last(), n);
    } else {
        assert(items.take(n) =~= items);
    }
}

/// No special comment is laid out, and every other one is.
pub proof fn law_only_special_comments_are_left_out(items: Seq<ItemModel>)
    ensures
        forall|i: int|
            0 <= i < supported(items).len() ==> (#[trigger] supported(items)[i]).mode
                != DanmakuMode::Special,
        forall|item: ItemModel|
            item.mode != DanmakuMode::Special && #[trigger] items.contains(item)
                ==> supported(items).contains(item),
        (forall|i: int| 0 <= i < items.len() ==> (#[trigger] items[i]).mode != DanmakuMode::Special)
            ==> supported(items) == items,
    decreases items.len(),
{
    if items.len() > 0 {
        law_only_special_comments_are_left_out(items.drop_last());
        let rest = supported(items.drop_last());
        assert forall|i: int| 0 <= i < supported(items).len() implies (
        #[trigger] supported(items)[i]).mode != DanmakuMode::Special by {
            if i < rest.len() {
                assert(supported(items)[i] == rest[i]);
            }
        }
        assert forall|item: ItemModel|
            item.mode != DanmakuMode::Special && #[trigger] items.contains(item) implies supported(
            items,
        ).contains(item) by {
            let i = choose|i: int| 0 <= i < items.len() && items[i] == item;
            if i < items.len() - 1 {
                assert(items.drop_last()[i] == item);
                assert(items.drop_last().contains(item));
                let k = choose|k: int| 0 <= k < rest.len() && rest[k] == item;
                assert(supported(items)[k] == item);
            } else {
                assert(supported(items)[rest.len() as int] == item);
            }
        }
        if forall|i: int|
            0 <= i < items.len() ==> (#[trigger] items[i]).mode != DanmakuMode::Special {
            assert(items[items.len() - 1].mode != DanmakuMode::Special);
            assert forall|i: int| 0 <= i < items.drop_last().len() implies (
            #[trigger] items.drop_last()[i]).mode != DanmakuMode::Special by {
                assert(items[i].mode != DanmakuMode::Special);
            }
            assert(supported(items) =~= items);
        }
    }
}

/// What a layout is planned from, if anything is to be laid out: there are
/// comments, and they are not switched off. The measures are those of
/// [`measure_requests`].
pub fn layout_request(
    timeline: &DanmakuTimeline,
    viewport: DanmakuViewport,
    config: &DanmakuLayoutConfig,
    measures: &[TextMeasure],
) -> (result: Option<LayoutRequest>)
    requires
        measures@.len() == supported(timeline@).len(),
    ensures
        result is None <==> timeline@.len() == 0 || !config.enabled,
        result matches Some(request) ==> {
            &&& request.items@.len() == supported(timeline@).len()
            &&& forall|i: int|
                0 <= i < request.items@.len() ==> is_source_of(
                    #[trigger] request.items@[i],
                    supported(timeline@)[i],
                    measures@[i],
                    config@,
                    viewport,
                )
            &&& request.source_count == timeline@.len()
            &&& request.width == viewport.width
            &&& request.height == viewport.height
            &&& request.font_size == config_font_size(config@.font_size, viewport.scale_factor)
            &&& request.display_area == config@.display_area
            &&& encodes(
                request.scroll_duration_seconds.bits,
                span_seconds((scroll_millis(config@) * 1_000_000) as nat),
            )
            &&& request.allow_stacking == config@.allow_stacking
            &&& request.allow_scroll_overwrite == config@.allow_scroll_overwrite
            &&& request.merge_danmaku == config@.merge_duplicates
            &&& request.max_quantity == config@.max_quantity
            &&& request.max_lines_per_type == config@.max_lines_per_mode
            &&& request.track_gap_ratio == config@.track_gap_ratio
            &&& request.outline_width == config@.outline_width
            &&& words_view(request.block_words@) == config@.block_words
            &&& request.block_top == config@.block_top
            &&& request.block_bottom == config@.block_bottom
            &&& request.block_scroll == config@.block_scroll
        },
{
    if timeline.is_empty() || !config.enabled {
        return None;
    }
    Some(
        LayoutRequest {
            items: layout_sources(timeline, viewport, config, measures),
            source_count: timeline.len(),
            width: viewport.width,
            height: viewport.height,
            font_size: effective_config_font_size(config.font_size, viewport.scale_factor),
            display_area: config.display_area,
            scroll_duration_seconds: Double::from_span(compute_scroll_duration(config)),
            allow_stacking: config.allow_stacking,
            allow_scroll_overwrite: config.allow_scroll_overwrite,
            merge_danmaku: config.merge_duplicates,
            max_quantity: config.max_quantity,
            max_lines_per_type: config.max_lines_per_mode,
            track_gap_ratio: config.track_gap_ratio,
            outline_width: config.outline_width,
            block_words: copy_words(&config.block_words),
            block_top: config.block_top,
            block_bottom: config.block_bottom,
            block_scroll: config.block_scroll,
        },
    )
}

// ---------------------------------------------------------------------------
// Plans
// ---------------------------------------------------------------------------

/// A comment as a layout has planned it.
#[derive(Debug, Clone, PartialEq, Eq)]
pub struct PlannedItem {
    pub source_id: u64,
    pub time_seconds: Double,
    pub text: String,
    pub type_code: i32,
    pub color_argb: i32,
    pub opacity: Single,
    pub font_size: Double,
    pub width: Double,
    pub height: Double,
    pub y_position: Double,
    pub track_index: i32,
    pub scroll_speed: Double,
    pub duration_seconds: Double,
    pub duplicate_count: u32,
}

/// A prepared comment.
#[derive(Debug, Clone, PartialEq, Eq)]
pub struct PreparedDanmakuItem {
    pub id: u64,
    pub time: Duration,
    pub text: String,
    pub mode: DanmakuMode,
    pub color: DanmakuColor,
    pub opacity: Single,
    pub font_size: Single,
    pub width: Single,
    pub height: Single,
    pub y: Single,
    pub track_index: usize,
    pub scroll_speed: Single,
    pub duration: Duration,
    pub duplicate_count: u32,
    pub text_layout: PreparedTextLayout,
}

/// A word with a sign, read without one.
pub open spec fn word_of(value: i32) -> u32 {
    if value < 0 {
        (value + 0x1_0000_0000) as u32
    } else {
        value as u32
    }
}

/// A track index that is not negative.
pub open spec fn track_of(value: i32) -> nat {
    if value < 0 {
        0
    } else {
        value as nat
    }
}

/// Whether a comment is prepared as it was planned. What is negative of its
/// times counts as zero.
pub open spec fn is_prepared(
    prepared: PreparedDanmakuItem,
    item: PlannedItem,
    text_layout: PreparedTextLayout,
) -> bool {
    &&& prepared.id == item.source_id
    &&& Some(prepared.time@) == item.time_seconds.nanos_from_zero()
    &&& prepared.text@ == item.text@
    &&& prepared.mode == mode_of_signed_code(item.type_code)
    &&& prepared.color == argb_color(word_of(item.color_argb))
    &&& prepared.opacity == item.opacity
    &&& prepared.font_size == item.font_size.narrowed()
    &&& prepared.width == item.width.narrowed()
    &&& prepared.height == item.height.narrowed()
    &&& prepared.y == item.y_position.narrowed()
    &&& prepared.track_index == track_of(item.track_index)
    &&& prepared.scroll_speed == item.scroll_speed.narrowed()
    &&& Some(prepared.duration@) == item.duration_seconds.nanos_from_zero()
    &&& prepared.duplicate_count == item.duplicate_count
    &&& prepared.text_layout == text_layout
}

impl PlannedItem {
    /// Whether the times of the comment are ones that a span can hold.
    pub open spec fn has_spans(self) -> bool {
        self.time_seconds.nanos_from_zero() is Some && self.duration_seconds.nanos_from_zero()
            is Some
    }
}

impl PreparedDanmakuItem {
    /// Prepares a planned comment.
    pub fn from_planned(item: PlannedItem, text_layout: PreparedTextLayout) -> (result: Self)
        requires
            item.has_spans(),
        ensures
            is_prepared(result, item, text_layout),
    {
        let word: u32 = if item.color_argb < 0 {
            (item.color_argb as i64 + 0x1_0000_0000) as u32
        } else {
            item.color_argb as u32
        };
        let track: usize = if item.track_index < 0 {
            0
        } else {
            item.track_index as usize
        };
        let time = match item.time_seconds.to_span_from_zero() {
            Some(time) => time,
            None => Duration::zero(),
        };
        let duration = match item.duration_seconds.to_span_from_zero() {
            Some(duration) => duration,
            None => Duration::zero(),
        };
        Self {
            id: item.source_id,
            time,
            text: item.text,
            mode: dfm_type_code_to_mode(item.type_code),
            color: DanmakuColor::from_argb(word),
            opacity: item.opacity,
            font_size: item.font_size.narrow(),
            width: item.width.narrow(),
            height: item.height.narrow(),
            y: item.y_position.narrow(),
            track_index: track,
            scroll_speed: item.scroll_speed.narrow(),
            duration,
            duplicate_count: item.duplicate_count,
            text_layout,
        }
    }
}

// ---------------------------------------------------------------------------
// Frames
// ---------------------------------------------------------------------------

/// Where a plan puts a comment at a moment.
#[derive(Debug, Clone, Copy, PartialEq, Eq, Structural)]
pub struct PlannedPosition {
    pub item_index: usize,
    pub track_index: i32,
    pub x: Double,
    pub y: Double,
}

/// A comment at its place in a frame.
#[derive(Debug, Clone, PartialEq, Eq)]
pub struct DanmakuPlacedItem {
    pub item_id: u64,
    pub text: String,
    pub mode: DanmakuMode,
    pub track_index: usize,
    pub x: Single,
    pub y: Single,
    pub width: Single,
    pub height: Single,
    pub font_size: Single,
    pub color: DanmakuColor,
    pub opacity: Single,
    pub outline_width: Single,
    pub shadow_offset: [Single; 2],
    pub shadow_alpha: Single,
    pub duplicate_count: u32,
    pub text_layout: PreparedTextLayout,
}

/// The comments in a frame.
#[derive(Debug, Clone, PartialEq, Eq)]
pub struct DanmakuFrameLayout {
    pub media_time: Duration,
    pub generation: u64,
    pub viewport: DanmakuViewport,
    pub prepared_stats: DanmakuPreparedStats,
    pub items: Vec<DanmakuPlacedItem>,
}

impl DanmakuFrameLayout {
    /// A frame without comments.
    pub fn empty(media_time: Duration, generation: u64, viewport: DanmakuViewport) -> (result: Self)
        ensures
            result.media_time == media_time,
            result.generation == generation,
            result.viewport == viewport,
            result.items@.len() == 0,
            result.prepared_stats.is_blank(),
    {
        Self {
            media_time,
            generation,
            viewport,
            prepared_stats: DanmakuPreparedStats::default(),
            items: Vec::new(),
        }
    }
}

/// The scale that an offset is multiplied by.
pub open spec fn offset_scale(scale_factor: Single) -> Single {
    scale_factor.finite_or(Single { bits: SINGLE_ONE }).raised_to(
        Single { bits: SINGLE_THOUSANDTH },
    )
}

/// Whether a placed comment is a prepared one at a position.
pub open spec fn is_placed(
    placed: DanmakuPlacedItem,
    item: PreparedDanmakuItem,
    position: PlannedPosition,
    config: ConfigModel,
    viewport: DanmakuViewport,
) -> bool {
    &&& placed.item_id == item.id
    &&& placed.text@ == item.text@
    &&& placed.mode == item.mode
    &&& placed.track_index == track_of(position.track_index)
    &&& placed.x == position.x.narrowed()
    &&& placed.y == position.y.narrowed()
    &&& placed.width == item.width
    &&& placed.height == item.height
    &&& placed.font_size == item.font_size
    &&& placed.color == item.color
    &&& placed.opacity == item.opacity.product(config.opacity)
    &&& placed.outline_width == outline_px(item.font_size, config.outline_width)
    &&& placed.shadow_offset@ == seq![
        config.shadow_offset.0.product(offset_scale(viewport.scale_factor)),
        config.shadow_offset.1.product(offset_scale(viewport.scale_factor)),
    ]
    &&& placed.shadow_alpha == alpha_of_style(config.shadow_style)
    &&& placed.duplicate_count == item.duplicate_count
    &&& placed.text_layout.metrics == item.text_layout.metrics
    &&& placed.text_layout.glyphs@ == item.text_layout.glyphs@
}

/// The positions that show a comment: those of a prepared one that is not
/// special.
pub open spec fn shown_positions(
    positions: Seq<PlannedPosition>,
    items: Seq<PreparedDanmakuItem>,
) -> Seq<PlannedPosition>
    decreases positions.len(),
{
    if positions.len() == 0 {
        Seq::empty()
    } else {
        let before = shown_positions(positions.drop_last(), items);
        let last = positions.last();
        if last.item_index < items.len() && items[last.item_index as int].mode
            != DanmakuMode::Special {
            before.push(last)
        } else {
            before
        }
    }
}

/// Puts the prepared comments at their places in a frame. Comments that are
/// switched off have none.
pub fn place_items(
    items: &[PreparedDanmakuItem],
    positions: &[PlannedPosition],
    config: &DanmakuLayoutConfig,
    viewport: DanmakuViewport,
) -> (result: Vec<DanmakuPlacedItem>)
    ensures
        !config.enabled ==> result@.len() == 0,
        config.enabled ==> {
            &&& result@.len() == shown_positions(positions@, items@).len()
            &&& forall|i: int|
                0 <= i < result@.len() ==> is_placed(
                    #[trigger] result@[i],
                    items@[shown_positions(positions@, items@)[i].item_index as int],
                    shown_positions(positions@, items@)[i],
                    config@,
                    viewport,
                )
        },
{
    let mut result: Vec<DanmakuPlacedItem> = Vec::new();
    if !config.enabled {
        return result;
    }
    let mut i: usize = 0;
    while i < positions.len()
        invariant
            i <= positions@.len(),
            result@.len() == shown_positions(positions@.take(i as int), items@).len(),
            forall|k: int|
                0 <= k < result@.len() ==> is_placed(
                    #[trigger] result@[k],
                    items@[shown_positions(positions@.take(i as int), items@)[k].item_index as int],
                    shown_positions(positions@.take(i as int), items@)[k],
                    config@,
                    viewport,
                ),
        decreases positions@.len() - i,
    {
        assert(positions@.take(i as int + 1).drop_last() =~= positions@.take(i as int));
        let position: PlannedPosition = positions[i];
        if position.item_index < items.len() {
            let item: &PreparedDanmakuItem = &items[position.item_index];
            if item.mode != DanmakuMode::Special {
                result.push(
                    DanmakuPlacedItem {
                        item_id: item.id,
                        text: item.text.clone(),
                        mode: item.mode,
                        track_index: if position.track_index < 0 {
                            0
                        } else {
                            position.track_index as usize
                        },
                        x: position.x.narrow(),
                        y: position.y.narrow(),
                        width: item.width,
                        height: item.height,
                        font_size: item.font_size,
                        color: item.color,
                        opacity: item.opacity.times(config.opacity),
                        outline_width: resolve_outline_px(item.font_size, config.outline_width),
                        shadow_offset: scale_offset(config.shadow_offset, viewport.scale_factor),
                        shadow_alpha: shadow_style_alpha(config.shadow_style),
                        duplicate_count: item.duplicate_count,
                        text_layout: item.text_layout.duplicate(),
                    },
                );
            }
        }
        i += 1;
    }
    assert(positions@.take(i as int) =~= positions@);
    result
}

/// Which positions are shown is a matter of each alone, and they keep their order.
pub proof fn law_shown_positions_keep_their_order(
    before: Seq<PlannedPosition>,
    position: PlannedPosition,
    behind: Seq<PlannedPosition>,
    items: Seq<PreparedDanmakuItem>,
)
    ensures
        shown_positions(before + behind, items) == shown_positions(before, items)
            + shown_positions(behind, items),
        position.item_index < items.len() && items[position.item_index as int].mode
            != DanmakuMode::Special ==> shown_positions(seq![position], items) == seq![position],
        position.item_index >= items.len() || items[position.item_index as int].mode
            == DanmakuMode::Special ==> shown_positions(seq![position], items).len() == 0,
    decreases behind.len(),
{
    let one = seq![position];
    assert(one.drop_last() =~= Seq::<PlannedPosition>::empty());
    assert(shown_positions(one.drop_last(), items) =~= Seq::<PlannedPosition>::empty());
    assert(Seq::<PlannedPosition>::empty().push(position) =~= one);
    if behind.len() == 0 {
        assert(before + behind =~= before);
        assert(shown_positions(before, items) + shown_positions(behind, items) =~= shown_positions(
            before,
            items,
        ));
    } else {
        law_shown_positions_keep_their_order(before, position, behind.drop_last(), items);
        assert((before + behind).drop_last() =~= before + behind.drop_last());
        assert((before + behind).last() == behind.last());
        assert(shown_positions(before + behind, items) =~= shown_positions(before, items)
            + shown_positions(behind, items));
    }
}

/// Which comments are laid out is a matter of each alone, and they keep their order.
pub proof fn law_supported_comments_keep_their_order(
    before: Seq<ItemModel>,
    item: ItemModel,
    behind: Seq<ItemModel>,
)
    ensures
        supported(before + behind) == supported(before) + supported(behind),
        item.mode != DanmakuMode::Special ==> supported(seq![item]) == seq![item],
        item.mode == DanmakuMode::Special ==> supported(seq![item]).len() == 0,
    decreases behind.len(),
{
    let one = seq![item];
    assert(one.drop_last() =~= Seq::<ItemModel>::empty());
    assert(supported(one.drop_last()) =~= Seq::<ItemModel>::empty());
    assert(Seq::<ItemModel>::empty().push(item) =~= one);
    if behind.len() == 0 {
        assert(before + behind =~= before);
        assert(supported(before) + supported(behind) =~= supported(before));
    } else {
        law_supported_comments_keep_their_order(before, item, behind.drop_last());
        assert((before + behind).drop_last() =~= before + behind.drop_last());
        assert((before + behind).last() == behind.last());
        assert(supported(before + behind) =~= supported(before) + supported(behind));
    }
}

/// A placed comment stands where its position says. Its height on the surface does
/// not depend on how far it has moved across, nor the other way round: of two
/// positions that differ in one alone, only that one differs in the frame.
pub proof fn law_placed_comments_stand_at_their_positions(
    item: PreparedDanmakuItem,
    position: PlannedPosition,
    placed: DanmakuPlacedItem,
    other_position: PlannedPosition,
    other: DanmakuPlacedItem,
    config: ConfigModel,
    viewport: DanmakuViewport,
)
    requires
        is_placed(placed, item, position, config, viewport),
        is_placed(other, item, other_position, config, viewport),
    ensures
        placed.x == position.x.narrowed(),
        placed.y == position.y.narrowed(),
        position.track_index >= 0 ==> placed.track_index == position.track_index,
        position.y == other_position.y ==> placed.y == other.y,
        position.x == other_position.x ==> placed.x == other.x,
        position.track_index == other_position.track_index ==> placed.track_index
            == other.track_index,
        placed.opacity == other.opacity,
        placed.outline_width == other.outline_width,
        placed.shadow_offset@ == other.shadow_offset@,
        placed.shadow_alpha == other.shadow_alpha,
{
}

/// A placed comment is the prepared one: it has its id, its text with the glyphs, its
/// mode, its size and its colour, and counts as many duplicates.
pub proof fn law_placed_comments_are_the_prepared_ones(
    item: PreparedDanmakuItem,
    position: PlannedPosition,
    placed: DanmakuPlacedItem,
    config: ConfigModel,
    viewport: DanmakuViewport,
)
    requires
        is_placed(placed, item, position, config, viewport),
    ensures
        placed.item_id == item.id,
        placed.text@ == item.text@,
        placed.mode == item.mode,
        placed.width == item.width,
        placed.height == item.height,
        placed.font_size == item.font_size,
        placed.color == item.color,
        placed.duplicate_count == item.duplicate_count,
        placed.text_layout.metrics == item.text_layout.metrics,
        placed.text_layout.glyphs@ == item.text_layout.glyphs@,
        placed.opacity == item.opacity.product(config.opacity),
        placed.outline_width == outline_px(item.font_size, config.outline_width),
        placed.shadow_alpha == alpha_of_style(config.shadow_style),
        placed.shadow_offset@.len() == 2,
        placed.shadow_offset@[0] == config.shadow_offset.0.product(
            offset_scale(viewport.scale_factor),
        ),
        placed.shadow_offset@[1] == config.shadow_offset.1.product(
            offset_scale(viewport.scale_factor),
        ),
{
}

/// A prepared comment is the planned one: each of its numbers is that of the plan.
pub proof fn law_prepared_comments_are_the_planned_ones(
    item: PlannedItem,
    text_layout: PreparedTextLayout,
    prepared: PreparedDanmakuItem,
)
    requires
        is_prepared(prepared, item, text_layout),
    ensures
        prepared.id == item.source_id,
        item.time_seconds.nanos_from_zero() == Some(prepared.time@),
        item.duration_seconds.nanos_from_zero() == Some(prepared.duration@),
        prepared.text@ == item.text@,
        prepared.opacity == item.opacity,
        prepared.font_size == item.font_size.narrowed(),
        prepared.width == item.width.narrowed(),
        prepared.height == item.height.narrowed(),
        prepared.y == item.y_position.narrowed(),
        prepared.scroll_speed == item.scroll_speed.narrowed(),
        item.track_index >= 0 ==> prepared.track_index == item.track_index,
        item.track_index < 0 ==> prepared.track_index == 0,
        prepared.duplicate_count == item.duplicate_count,
        prepared.text_layout == text_layout,
{
}

/// A comment goes through a plan and keeps its mode: the code that is handed to the
/// layout is read back as the same mode.
pub proof fn law_mode_goes_through_a_plan(
    item: ItemModel,
    source: LayoutSource,
    planned: PlannedItem,
    prepared: PreparedDanmakuItem,
    measure: TextMeasure,
    text_layout: PreparedTextLayout,
    config: ConfigModel,
    viewport: DanmakuViewport,
)
    requires
        is_source_of(source, item, measure, config, viewport),
        planned.type_code == source.type_code,
        planned.color_argb == source.color_argb,
        is_prepared(prepared, planned, text_layout),
    ensures
        prepared.mode == item.mode,
        prepared.color == argb_color(argb_word(item.color, item.opacity) as u32),
{
    crate::danmaku::model::law_argb_word_is_a_word(item.color, item.opacity);
}

/// What is handed to the layout for a comment is that comment: its id, its time, its
/// text, its opacity and whose it is, with the width that was measured, and no lower
/// than was measured.
pub proof fn law_sources_are_their_comments(
    item: ItemModel,
    source: LayoutSource,
    measure: TextMeasure,
    config: ConfigModel,
    viewport: DanmakuViewport,
)
    requires
        is_source_of(source, item, measure, config, viewport),
    ensures
        source.source_id == item.id,
        source.text@ == item.text,
        encodes(source.time_seconds.bits, span_seconds(item.pts)),
        source.opacity == item.opacity,
        source.is_me == item.is_self,
        source.font_size == item_font_size(
            item.font_size,
            config.font_size,
            viewport.scale_factor,
        ),
        source.paint_width == measure.width,
        source.paint_height == measure.height || source.paint_height == source.font_size.product(
            Single { bits: SINGLE_1_2 },
        ),
{
}

/// At full opacity a comment is as opaque as it was, and at scale one its shadow lies
/// as far off as it is set to, across and down.
pub proof fn law_full_opacity_and_scale_change_nothing(
    item: PreparedDanmakuItem,
    position: PlannedPosition,
    placed: DanmakuPlacedItem,
    config: ConfigModel,
    viewport: DanmakuViewport,
)
    requires
        is_placed(placed, item, position, config, viewport),
    ensures
        config.opacity.bits == SINGLE_ONE && item.opacity.is_finite() ==> placed.opacity
            == item.opacity,
        viewport.scale_factor.bits == SINGLE_ONE && config.shadow_offset.0.is_finite()
            ==> placed.shadow_offset@[0] == config.shadow_offset.0,
        viewport.scale_factor.bits == SINGLE_ONE && config.shadow_offset.1.is_finite()
            ==> placed.shadow_offset@[1] == config.shadow_offset.1,
{
    if item.opacity.is_finite() {
        law_one_changes_nothing(item.opacity);
    }
    if config.shadow_offset.0.is_finite() {
        law_one_changes_nothing(config.shadow_offset.0);
    }
    if config.shadow_offset.1.is_finite() {
        law_one_changes_nothing(config.shadow_offset.1);
    }
}

/// A text is asked for as its comment is planned: of two comments that are planned alike
/// the same is asked.
pub proof fn law_texts_are_asked_for_as_planned(
    request: TextRequest,
    other: TextRequest,
    item: PlannedItem,
    other_item: PlannedItem,
    config: ConfigModel,
)
    requires
        is_request_of(request, item, config),
        is_request_of(other, other_item, config),
    ensures
        request.text@ == item.text@,
        request.font_size == item.font_size.narrowed(),
        item.font_size == other_item.font_size ==> request.font_size == other.font_size
            && request.outline_width == other.outline_width,
        request.outline_width == outline_px(request.font_size, config.outline_width),
{
}

} // verus!
