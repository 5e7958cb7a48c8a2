//! What a renderer draws of the comments in a frame.
use crate::binary64::span_seconds;
use crate::danmaku::atlas::DanmakuGlyphAtlas;
use crate::danmaku::config::{compute_scroll_duration, scroll_millis, DanmakuLayoutConfig};
use crate::danmaku::layout::{
    is_placed, is_prepared, place_items, shown_positions, supported, DanmakuFrameLayout,
    DanmakuPlacedItem, PlannedItem, PlannedPosition, PreparedDanmakuItem,
};
use crate::danmaku::model::{
    DanmakuColor, DanmakuMode, DanmakuViewport, DEFAULT_SCROLL_MILLIS, DEFAULT_STATIC_MILLIS,
};
use crate::danmaku::stats::{
    area_height, counts_rows, first_height, greatest_bottom, greatest_track, if_any, least_top,
    least_track, mode_count, row_at, scroll_keys, told_buckets, track_height, whole_tracks,
    DanmakuDebugBucket, DanmakuFrameStats, DanmakuPreparedStats, DanmakuRow,
};
use crate::danmaku::text::{PreparedGlyphPlacement, PreparedTextLayout, SINGLE_HALF};
use crate::danmaku::timeline::DanmakuTimeline;
use crate::float_bits::{encodes, nearest_single, Double, Single, SINGLE_ONE};
use crate::time::Duration;
use crate::float_laws::law_one_changes_nothing;
use vstd::prelude::*;

verus! {

broadcast use vstd::seq_lib::group_seq_properties;

/// The number 0.299.
pub const SINGLE_0_299: u32 = 0x3e99_1687;

/// The number 0.587.
pub const SINGLE_0_587: u32 = 0x3f16_45a2;

/// The number 0.114.
pub const SINGLE_0_114: u32 = 0x3de9_78d5;

/// The number 0.75.
pub const SINGLE_0_75: u32 = 0x3f40_0000;

// ---------------------------------------------------------------------------
// Counts
// ---------------------------------------------------------------------------

/// What is counted of prepared comments.
pub open spec fn prepared_rows(items: Seq<PreparedDanmakuItem>) -> Seq<DanmakuRow> {
    Seq::new(
        items.len(),
        |i: int| row_at(items[i].mode, items[i].track_index, items[i].y, items[i].height),
    )
}

/// What is counted of placed comments.
pub open spec fn placed_rows(items: Seq<DanmakuPlacedItem>) -> Seq<DanmakuRow> {
    Seq::new(
        items.len(),
        |i: int| row_at(items[i].mode, items[i].track_index, items[i].y, items[i].height),
    )
}

impl DanmakuPreparedStats {
    /// Whether this is what is told of prepared comments.
    pub open spec fn tells_of(
        self,
        source_items: nat,
        supported_items: nat,
        prepared: Seq<PreparedDanmakuItem>,
        viewport: DanmakuViewport,
        display_area: Single,
        gap_ratio: Single,
        dfm_track_count: nat,
    ) -> bool {
        let rows = prepared_rows(prepared);
        let crossing = scroll_keys(rows).len();
        &&& self.source_items == source_items
        &&& self.supported_items == supported_items
        &&& self.prepared_items == prepared.len()
        &&& self.filtered_items == (if supported_items < prepared.len() {
            0
        } else {
            supported_items - prepared.len()
        })
        &&& self.prepared_scroll_items == crossing
        &&& self.prepared_top_items == mode_count(rows, DanmakuMode::Top)
        &&& self.prepared_bottom_items == mode_count(rows, DanmakuMode::Bottom)
        &&& self.prepared_scroll_min_y == if_any(crossing, least_top(rows))
        &&& self.prepared_scroll_max_y == if_any(crossing, greatest_bottom(rows))
        &&& self.dfm_track_count == dfm_track_count
        &&& self.display_area_height == area_height(viewport.height, display_area)
        &&& self.scroll_area_height == area_height(viewport.height, display_area)
        &&& self.track_height == track_height(first_height(rows), gap_ratio)
        &&& self.expected_scroll_tracks == whole_tracks(self.scroll_area_height, self.track_height)
        &&& self.prepared_scroll_rows == self.scroll_bucket_count
        &&& exists|buckets: Seq<DanmakuDebugBucket>| #[trigger]
            counts_rows(buckets, scroll_keys(rows)) && self.scroll_bucket_count == buckets.len()
                && self.scroll_buckets@ == told_buckets(buckets)
    }

    /// What is told of prepared comments.
    pub fn from_items(
        source_items: usize,
        supported_items: usize,
        prepared: &[PreparedDanmakuItem],
        viewport: DanmakuViewport,
        config: &DanmakuLayoutConfig,
        dfm_track_count: usize,
    ) -> (result: Self)
        requires
            prepared@.len() < u32::MAX,
        ensures
            result.tells_of(
                source_items as nat,
                supported_items as nat,
                prepared@,
                viewport,
                config@.display_area,
                config@.track_gap_ratio,
                dfm_track_count as nat,
            ),
    {
        let mut rows: Vec<DanmakuRow> = Vec::new();
        let mut i: usize = 0;
        while i < prepared.len()
            invariant
                i <= prepared@.len(),
                rows@ =~= prepared_rows(prepared@.take(i as int)),
            decreases prepared@.len() - i,
        {
            let item: &PreparedDanmakuItem = &prepared[i];
            rows.push(DanmakuRow::new(item.mode, item.track_index, item.y, item.height));
            i += 1;
        }
        assert(prepared@.take(i as int) =~= prepared@);
        Self::from_rows(
            source_items,
            supported_items,
            rows.as_slice(),
            viewport.height,
            config.display_area,
            config.track_gap_ratio,
            dfm_track_count,
        )
    }
}

impl DanmakuFrameStats {
    /// Whether this is what is told of a frame.
    pub open spec fn tells_of(self, layout: DanmakuFrameLayout) -> bool {
        let rows = placed_rows(layout.items@);
        let crossing = scroll_keys(rows).len();
        &&& self.prepared == layout.prepared_stats
        &&& self.placed_items == layout.items@.len()
        &&& self.scroll_items == crossing
        &&& self.top_items == mode_count(rows, DanmakuMode::Top)
        &&& self.bottom_items == mode_count(rows, DanmakuMode::Bottom)
        &&& self.scroll_track_min == (if crossing > 0 {
            least_track(rows)
        } else {
            0
        })
        &&& self.scroll_track_max == (if crossing > 0 {
            greatest_track(rows)
        } else {
            0
        })
        &&& self.scroll_min_y == if_any(crossing, least_top(rows))
        &&& self.scroll_max_y == if_any(crossing, greatest_bottom(rows))
        &&& self.scroll_rows == self.scroll_bucket_count
        &&& exists|buckets: Seq<DanmakuDebugBucket>| #[trigger]
            counts_rows(buckets, scroll_keys(rows)) && self.scroll_bucket_count == buckets.len()
                && self.scroll_buckets@ == told_buckets(buckets)
    }

    /// What is told of a frame.
    pub fn from_layout(layout: &DanmakuFrameLayout) -> (result: Self)
        requires
            layout.items@.len() < u32::MAX,
        ensures
            result.tells_of(*layout),
    {
        let mut rows: Vec<DanmakuRow> = Vec::new();
        let mut i: usize = 0;
        while i < layout.items.len()
            invariant
                i <= layout.items@.len(),
                rows@ =~= placed_rows(layout.items@.take(i as int)),
            decreases layout.items@.len() - i,
        {
            let item: &DanmakuPlacedItem = &layout.items[i];
            rows.push(DanmakuRow::new(item.mode, item.track_index, item.y, item.height));
            i += 1;
        }
        assert(layout.items@.take(i as int) =~= layout.items@);
        Self::from_rows(layout.prepared_stats, rows.as_slice())
    }
}

// ---------------------------------------------------------------------------
// Prepared layouts
// ---------------------------------------------------------------------------

/// What was planned: the comments, with their texts, and the number of tracks.
#[derive(Debug)]
pub struct PlannedLayout {
    pub items: Vec<(PlannedItem, PreparedTextLayout)>,
    pub track_count: i32,
}

/// Comments that are laid out for a surface.
#[derive(Debug)]
pub struct DfmPreparedLayout {
    viewport: DanmakuViewport,
    config: DanmakuLayoutConfig,
    stats: DanmakuPreparedStats,
    scroll_duration: Duration,
    static_duration: Duration,
    item_times: Vec<Double>,
    items: Vec<PreparedDanmakuItem>,
}

/// Prepared comments as plain values.
pub struct PreparedModel {
    pub viewport: DanmakuViewport,
    pub config: DanmakuLayoutConfig,
    pub stats: DanmakuPreparedStats,
    pub scroll_duration: nat,
    pub static_duration: nat,
    pub item_times: Seq<Double>,
    pub items: Seq<PreparedDanmakuItem>,
}

impl View for DfmPreparedLayout {
    type V = PreparedModel;

    closed spec fn view(&self) -> PreparedModel {
        PreparedModel {
            viewport: self.viewport,
            config: self.config,
            stats: self.stats,
            scroll_duration: self.scroll_duration@,
            static_duration: self.static_duration@,
            item_times: self.item_times@,
            items: self.items@,
        }
    }
}

/// The planned comments: none where planning failed.
pub open spec fn planned_items(planned: Option<PlannedLayout>) -> Seq<
    (PlannedItem, PreparedTextLayout),
> {
    match planned {
        Some(layout) => layout.items@,
        None => Seq::empty(),
    }
}

/// The number of tracks that were planned.
pub open spec fn planned_tracks(planned: Option<PlannedLayout>) -> nat {
    match planned {
        Some(layout) => if layout.track_count < 0 {
            0
        } else {
            layout.track_count as nat
        },
        None => 0,
    }
}

/// Whether these are the times of comments, in seconds.
pub open spec fn are_times(times: Seq<Double>, items: Seq<PreparedDanmakuItem>) -> bool {
    times.len() == items.len() && forall|i: int|
        0 <= i < times.len() ==> encodes(
            (#[trigger] times[i]).bits,
            span_seconds(items[i].time@),
        )
}

/// Prepares comments as they were planned. Where there are none, or they are
/// switched off, nothing is prepared and nothing is told; where planning failed,
/// nothing is prepared.
pub fn prepare_layout(
    timeline: &DanmakuTimeline,
    viewport: DanmakuViewport,
    config: &DanmakuLayoutConfig,
    planned: Option<PlannedLayout>,
) -> (result: DfmPreparedLayout)
    requires
        planned_items(planned).len() < u32::MAX,
        forall|i: int|
            0 <= i < planned_items(planned).len() ==> (#[trigger] planned_items(
                planned,
            )[i]).0.has_spans(),
    ensures
        result@.viewport == viewport,
        result@.config@ == config@,
        result@.static_duration == DEFAULT_STATIC_MILLIS * 1_000_000,
        result@.scroll_duration == (if timeline@.len() == 0 || !config.enabled {
            DEFAULT_SCROLL_MILLIS as nat * 1_000_000
        } else {
            scroll_millis(config@) * 1_000_000
        }),
        are_times(result@.item_times, result@.items),
        timeline@.len() == 0 || !config.enabled ==> result@.items.len() == 0
            && result@.stats.is_blank(),
        timeline@.len() > 0 && config.enabled ==> {
            &&& result@.items.len() == planned_items(planned).len()
            &&& forall|i: int|
                0 <= i < result@.items.len() ==> is_prepared(
                    #[trigger] result@.items[i],
                    planned_items(planned)[i].0,
                    planned_items(planned)[i].1,
                )
            &&& result@.stats.tells_of(
                timeline@.len(),
                supported(timeline@).len(),
                result@.items,
                viewport,
                config@.display_area,
                config@.track_gap_ratio,
                planned_tracks(planned),
            )
        },
{
    if timeline.is_empty() || !config.enabled {
        return DfmPreparedLayout {
            viewport,
            config: config.duplicate(),
            stats: DanmakuPreparedStats::default(),
            scroll_duration: Duration::from_millis(DEFAULT_SCROLL_MILLIS),
            static_duration: Duration::from_millis(DEFAULT_STATIC_MILLIS),
            item_times: Vec::new(),
            items: Vec::new(),
        };
    }
    let (pairs, track_count) = match planned {
        Some(layout) => (layout.items, layout.track_count),
        None => (Vec::new(), 0i32),
    };
    let ghost all = pairs@;
    assert(all =~= planned_items(planned));
    let mut items: Vec<PreparedDanmakuItem> = Vec::new();
    let mut item_times: Vec<Double> = Vec::new();
    for pair in it: pairs
        invariant
            it.seq() == all,
            forall|i: int| 0 <= i < all.len() ==> (#[trigger] all[i]).0.has_spans(),
            items@.len() == it.index(),
            are_times(item_times@, items@),
            forall|i: int|
                0 <= i < items@.len() ==> is_prepared(#[trigger] items@[i], all[i].0, all[i].1),
    {
        let (item, text_layout) = pair;
        let prepared = PreparedDanmakuItem::from_planned(item, text_layout);
        item_times.push(Double::from_span(prepared.time));
        items.push(prepared);
    }
    let stats = DanmakuPreparedStats::from_items(
        timeline.len(),
        supported_count(timeline),
        items.as_slice(),
        viewport,
        config,
        if track_count < 0 {
            0
        } else {
            track_count as usize
        },
    );
    DfmPreparedLayout {
        viewport,
        config: config.duplicate(),
        stats,
        scroll_duration: compute_scroll_duration(config),
        static_duration: Duration::from_millis(DEFAULT_STATIC_MILLIS),
        item_times,
        items,
    }
}

fn supported_count(timeline: &DanmakuTimeline) -> (result: usize)
    ensures
        result == supported(timeline@).len(),
{
    let items = timeline.items();
    let mut count: usize = 0;
    let mut i: usize = 0;
    let ghost models = timeline@;
    assert(models.take(0) =~= Seq::empty());
    while i < items.len()
        invariant
            i <= items@.len(),
            models == crate::danmaku::timeline::items_view(items@),
            count == supported(models.take(i as int)).len(),
            count <= i,
        decreases items@.len() - i,
    {
        assert(models.take(i as int + 1).drop_last() =~= models.take(i as int));
        assert(models[i as int] == items@[i as int]@);
        if items[i].mode != DanmakuMode::Special {
            count += 1;
        }
        i += 1;
    }
    assert(models.take(i as int) =~= models);
    count
}

impl DfmPreparedLayout {
    /// The surface.
    pub fn viewport(&self) -> (result: DanmakuViewport)
        ensures
            result == self@.viewport,
    {
        self.viewport
    }

    /// The settings.
    pub fn config(&self) -> (result: &DanmakuLayoutConfig)
        ensures
            *result == self@.config,
    {
        &self.config
    }

    /// The prepared comments.
    pub fn items(&self) -> (result: &[PreparedDanmakuItem])
        ensures
            result@ == self@.items,
    {
        self.items.as_slice()
    }

    /// What is told of the prepared comments.
    pub fn stats(&self) -> (result: DanmakuPreparedStats)
        ensures
            result == self@.stats,
    {
        self.stats
    }

    /// How long a comment takes to cross.
    pub fn scroll_duration(&self) -> (result: Duration)
        ensures
            result@ == self@.scroll_duration,
    {
        self.scroll_duration
    }

    /// How long a comment stands still.
    pub fn static_duration(&self) -> (result: Duration)
        ensures
            result@ == self@.static_duration,
    {
        self.static_duration
    }

    /// The times of the comments, in seconds.
    pub fn item_times(&self) -> (result: &[Double])
        ensures
            result@ == self@.item_times,
    {
        self.item_times.as_slice()
    }

    /// The comments in a frame, given where the plan puts them. Comments that are
    /// switched off are in none, and nothing is told of them.
    pub fn frame_layout(
        &self,
        media_time: Duration,
        generation: u64,
        positions: &[PlannedPosition],
    ) -> (result: DanmakuFrameLayout)
        ensures
            result.media_time == media_time,
            result.generation == generation,
            result.viewport == self@.viewport,
            !self@.config.enabled ==> result.items@.len() == 0 && result.prepared_stats.is_blank(),
            self@.config.enabled ==> {
                &&& result.prepared_stats == self@.stats
                &&& result.items@.len() == shown_positions(positions@, self@.items).len()
                &&& forall|i: int|
                    0 <= i < result.items@.len() ==> is_placed(
                        #[trigger] result.items@[i],
                        self@.items[shown_positions(
                            positions@,
                            self@.items,
                        )[i].item_index as int],
                        shown_positions(positions@, self@.items)[i],
                        self@.config@,
                        self@.viewport,
                    )
            },
    {
        if !self.config.enabled {
            return DanmakuFrameLayout::empty(media_time, generation, self.viewport);
        }
        DanmakuFrameLayout {
            media_time,
            generation,
            viewport: self.viewport,
            prepared_stats: self.stats,
            items: place_items(self.items.as_slice(), positions, &self.config, self.viewport),
        }
    }
}

// ---------------------------------------------------------------------------
// Render plans
// ---------------------------------------------------------------------------

/// A glyph at its place, with the part of the atlas that shows it.
#[derive(Debug, Clone, PartialEq, Eq)]
pub struct DanmakuGlyphInstance {
    pub item_id: u64,
    pub rect: [Single; 4],
    pub tex_rect: [Single; 4],
    pub color_rgba: [Single; 4],
    pub outline_rgba: [Single; 4],
    pub shadow_rgba: [Single; 4],
    pub shadow_offset: [Single; 2],
}

/// What a renderer draws for a frame.
#[derive(Debug, Clone, PartialEq, Eq)]
pub struct DanmakuRenderPlan {
    pub media_time: Duration,
    pub generation: u64,
    pub viewport: DanmakuViewport,
    pub atlas: Option<DanmakuGlyphAtlas>,
    pub items: Vec<DanmakuGlyphInstance>,
    pub frame_stats: DanmakuFrameStats,
}

impl DanmakuRenderPlan {
    /// A plan that draws nothing.
    pub fn empty(media_time: Duration, generation: u64, viewport: DanmakuViewport) -> (result: Self)
        ensures
            result.media_time == media_time,
            result.generation == generation,
            result.viewport == viewport,
            result.atlas is None,
            result.items@.len() == 0,
            result.frame_stats.is_blank(),
    {
        Self {
            media_time,
            generation,
            viewport,
            atlas: None,
            items: Vec::new(),
            frame_stats: DanmakuFrameStats::default(),
        }
    }

    /// Whether the plan draws nothing.
    pub fn is_empty(&self) -> (result: bool)
        ensures
            result <==> self.items@.len() == 0,
    {
        self.items.len() == 0
    }
}

/// The colour of the outline of a text: white around what is dark, else black,
/// and never quite opaque.
pub open spec fn outline_color(color: Seq<Single>) -> Seq<Single> {
    let luminance = Single { bits: SINGLE_0_299 }.product(color[0]).sum(
        Single { bits: SINGLE_0_587 }.product(color[1]),
    ).sum(Single { bits: SINGLE_0_114 }.product(color[2]));
    let alpha = color[3].lesser(Single { bits: SINGLE_0_75 });
    let level = if !luminance.is_nan() && luminance.rank() < SINGLE_HALF {
        Single { bits: SINGLE_ONE }
    } else {
        Single { bits: 0 }
    };
    seq![level, level, level, alpha]
}

/// A whole number as the nearest single-precision number.
pub open spec fn whole_single(n: u32) -> Single {
    Single { bits: nearest_single(n as nat, 0) as u32 }
}

/// A size that is at least one.
pub open spec fn at_least_one(n: u32) -> u32 {
    if n < 1 {
        1
    } else {
        n
    }
}

/// The channels of a placed comment.
pub open spec fn channels_of(color: DanmakuColor, opacity: Single) -> Seq<Single> {
    let zero = Single { bits: 0 };
    let one = Single { bits: SINGLE_ONE };
    seq![
        color.red.limited(zero, one),
        color.green.limited(zero, one),
        color.blue.limited(zero, one),
        color.alpha.product(opacity).limited(zero, one),
    ]
}

/// Whether a glyph of a comment is drawn at its place, from an atlas of a size.
pub open spec fn draws(
    instance: DanmakuGlyphInstance,
    item: DanmakuPlacedItem,
    glyph: PreparedGlyphPlacement,
    atlas_width: Single,
    atlas_height: Single,
) -> bool {
    let color = channels_of(item.color, item.opacity);
    let zero = Single { bits: 0 };
    &&& instance.item_id == item.item_id
    &&& instance.rect@ == seq![
        item.x.sum(glyph.pen_x).sum(glyph.offset_x),
        item.y.sum(item.text_layout.metrics.ascent).sum(glyph.offset_y),
        whole_single(glyph.width),
        whole_single(glyph.height),
    ]
    &&& instance.tex_rect@ == seq![
        whole_single(glyph.packed.x).quotient(atlas_width),
        whole_single(glyph.packed.y).quotient(atlas_height),
        whole_single(glyph.packed.width).quotient(atlas_width),
        whole_single(glyph.packed.height).quotient(atlas_height),
    ]
    &&& instance.color_rgba@ == color
    &&& instance.outline_rgba@ == outline_color(color)
    &&& instance.shadow_rgba@ == seq![
        zero,
        zero,
        zero,
        color[3].product(item.shadow_alpha).lesser(Single { bits: SINGLE_ONE }),
    ]
    &&& instance.shadow_offset@ == item.shadow_offset@
}

/// The glyphs of a text that have pixels.
pub open spec fn visible_glyphs(glyphs: Seq<PreparedGlyphPlacement>) -> Seq<PreparedGlyphPlacement>
    decreases glyphs.len(),
{
    if glyphs.len() == 0 {
        Seq::empty()
    } else if glyphs.last().has_bitmap {
        visible_glyphs(glyphs.drop_last()).push(glyphs.last())
    } else {
        visible_glyphs(glyphs.drop_last())
    }
}

/// Whether a comment can be seen at all.
pub open spec fn is_visible(item: DanmakuPlacedItem) -> bool {
    let alpha = channels_of(item.color, item.opacity)[3];
    alpha.is_nan() || alpha.rank() > 0
}

/// The glyphs of some comments that are drawn, each with its comment.
pub open spec fn drawn_glyphs(items: Seq<DanmakuPlacedItem>) -> Seq<
    (DanmakuPlacedItem, PreparedGlyphPlacement),
>
    decreases items.len(),
{
    if items.len() == 0 {
        Seq::empty()
    } else {
        let before = drawn_glyphs(items.drop_last());
        let item = items.last();
        if is_visible(item) {
            let glyphs = visible_glyphs(item.text_layout.glyphs@);
            before + Seq::new(glyphs.len(), |i: int| (item, glyphs[i]))
        } else {
            before
        }
    }
}

fn outline_of_color(color: [Single; 4]) -> (result: [Single; 4])
    ensures
        result@ == outline_color(color@),
{
    let luminance = Single { bits: SINGLE_0_299 }.times(color[0]).plus(
        Single { bits: SINGLE_0_587 }.times(color[1]),
    ).plus(Single { bits: SINGLE_0_114 }.times(color[2]));
    let alpha = color[3].min_of(Single { bits: SINGLE_0_75 });
    let level = if !luminance.check_nan() && luminance.place() < SINGLE_HALF as i64 {
        Single { bits: SINGLE_ONE }
    } else {
        Single { bits: 0 }
    };
    let result = [level, level, level, alpha];
    assert(result@ =~= outline_color(color@));
    result
}

fn glyph_instance(
    item: &DanmakuPlacedItem,
    glyph: PreparedGlyphPlacement,
    color: [Single; 4],
    atlas_width: Single,
    atlas_height: Single,
) -> (result: DanmakuGlyphInstance)
    requires
        color@ == channels_of(item.color, item.opacity),
    ensures
        draws(result, *item, glyph, atlas_width, atlas_height),
{
    let zero = Single { bits: 0 };
    let baseline = item.y.plus(item.text_layout.metrics.ascent);
    let rect = [
        item.x.plus(glyph.pen_x).plus(glyph.offset_x),
        baseline.plus(glyph.offset_y),
        Single::from_whole(glyph.width),
        Single::from_whole(glyph.height),
    ];
    let tex_rect = [
        Single::from_whole(glyph.packed.x).over(atlas_width),
        Single::from_whole(glyph.packed.y).over(atlas_height),
        Single::from_whole(glyph.packed.width).over(atlas_width),
        Single::from_whole(glyph.packed.height).over(atlas_height),
    ];
    let shadow_rgba = [
        zero,
        zero,
        zero,
        color[3].times(item.shadow_alpha).min_of(Single { bits: SINGLE_ONE }),
    ];
    let instance = DanmakuGlyphInstance {
        item_id: item.item_id,
        rect,
        tex_rect,
        color_rgba: color,
        outline_rgba: outline_of_color(color),
        shadow_rgba,
        shadow_offset: item.shadow_offset,
    };
    proof {
        assert(instance.rect@ =~= seq![
            item.x.sum(glyph.pen_x).sum(glyph.offset_x),
            item.y.sum(item.text_layout.metrics.ascent).sum(glyph.offset_y),
            whole_single(glyph.width),
            whole_single(glyph.height),
        ]);
        assert(instance.tex_rect@ =~= seq![
            whole_single(glyph.packed.x).quotient(atlas_width),
            whole_single(glyph.packed.y).quotient(atlas_height),
            whole_single(glyph.packed.width).quotient(atlas_width),
            whole_single(glyph.packed.height).quotient(atlas_height),
        ]);
        assert(instance.shadow_rgba@ =~= seq![
            zero,
            zero,
            zero,
            color@[3].product(item.shadow_alpha).lesser(Single { bits: SINGLE_ONE }),
        ]);
    }
    instance
}

fn append_item_glyphs(
    item: &DanmakuPlacedItem,
    color: [Single; 4],
    atlas_width: Single,
    atlas_height: Single,
    items: &mut Vec<DanmakuGlyphInstance>,
)
    requires
        color@ == channels_of(item.color, item.opacity),
    ensures
        ({
            let glyphs = visible_glyphs(item.text_layout.glyphs@);
            let before = old(items)@.len() as int;
            &&& final(items)@.len() == before + glyphs.len()
            &&& forall|i: int| 0 <= i < before ==> #[trigger] final(items)@[i] == old(items)@[i]
            &&& forall|i: int|
                0 <= i < glyphs.len() ==> draws(
                    #[trigger] final(items)@[before + i],
                    *item,
                    glyphs[i],
                    atlas_width,
                    atlas_height,
                )
        }),
{
    let placements = &item.text_layout.glyphs;
    let ghost before = items@.len() as int;
    let mut i: usize = 0;
    assert(placements@.take(0) =~= Seq::<PreparedGlyphPlacement>::empty());
    while i < placements.len()
        invariant
            i <= placements@.len(),
            placements@ == item.text_layout.glyphs@,
            color@ == channels_of(item.color, item.opacity),
            before == old(items)@.len(),
            items@.len() == before + visible_glyphs(placements@.take(i as int)).len(),
            forall|k: int| 0 <= k < before ==> #[trigger] items@[k] == old(items)@[k],
            forall|k: int|
                0 <= k < visible_glyphs(placements@.take(i as int)).len() ==> draws(
                    #[trigger] items@[before + k],
                    *item,
                    visible_glyphs(placements@.take(i as int))[k],
                    atlas_width,
                    atlas_height,
                ),
        decreases placements@.len() - i,
    {
        assert(placements@.take(i as int + 1).drop_last() =~= placements@.take(i as int));
        let glyph: PreparedGlyphPlacement = placements[i];
        if glyph.has_bitmap {
            let ghost shown = visible_glyphs(placements@.take(i as int));
            let instance = glyph_instance(item, glyph, color, atlas_width, atlas_height);
            items.push(instance);
            assert(visible_glyphs(placements@.take(i as int + 1)) == shown.push(glyph));
            assert(items@[before + shown.len()] == instance);
        }
        i += 1;
    }
    assert(placements@.take(i as int) =~= placements@);
}

/// Whether a plan draws the glyphs of the comments in a frame, from the atlas
/// that they were packed in.
pub open spec fn plans(
    plan: DanmakuRenderPlan,
    layout: DanmakuFrameLayout,
    atlas: Option<DanmakuGlyphAtlas>,
) -> bool {
    &&& plan.media_time == layout.media_time
    &&& plan.generation == layout.generation
    &&& plan.viewport == layout.viewport
    &&& layout.items@.len() == 0 || atlas is None ==> plan.atlas is None && plan.items@.len() == 0
        && plan.frame_stats.is_blank()
    &&& layout.items@.len() > 0 && atlas is Some ==> {
        let glyphs = drawn_glyphs(layout.items@);
        &&& plan.atlas == atlas
        &&& plan.frame_stats.tells_of(layout)
        &&& plan.items@.len() == glyphs.len()
        &&& forall|i: int|
            0 <= i < glyphs.len() ==> draws(
                #[trigger] plan.items@[i],
                glyphs[i].0,
                glyphs[i].1,
                whole_single(at_least_one(atlas->0.width)),
                whole_single(at_least_one(atlas->0.height)),
            )
    }
}

/// Plans what is drawn of the comments in a frame: their glyphs, from the atlas
/// that they were packed in.
pub fn render_plan(layout: &DanmakuFrameLayout, atlas: Option<DanmakuGlyphAtlas>) -> (result:
    DanmakuRenderPlan)
    requires
        layout.items@.len() < u32::MAX,
    ensures
        plans(result, *layout, atlas),
{
    if layout.items.len() == 0 {
        return DanmakuRenderPlan::empty(layout.media_time, layout.generation, layout.viewport);
    }
    let snapshot = match atlas {
        Some(snapshot) => snapshot,
        None => {
            return DanmakuRenderPlan::empty(
                layout.media_time,
                layout.generation,
                layout.viewport,
            );
        },
    };
    let atlas_width = Single::from_whole(
        if snapshot.width < 1 {
            1
        } else {
            snapshot.width
        },
    );
    let atlas_height = Single::from_whole(
        if snapshot.height < 1 {
            1
        } else {
            snapshot.height
        },
    );
    let mut items: Vec<DanmakuGlyphInstance> = Vec::new();
    let mut i: usize = 0;
    assert(layout.items@.take(0) =~= Seq::<DanmakuPlacedItem>::empty());
    while i < layout.items.len()
        invariant
            i <= layout.items@.len(),
            items@.len() == drawn_glyphs(layout.items@.take(i as int)).len(),
            forall|k: int|
                0 <= k < items@.len() ==> draws(
                    #[trigger] items@[k],
                    drawn_glyphs(layout.items@.take(i as int))[k].0,
                    drawn_glyphs(layout.items@.take(i as int))[k].1,
                    atlas_width,
                    atlas_height,
                ),
        decreases layout.items@.len() - i,
    {
        assert(layout.items@.take(i as int + 1).drop_last() =~= layout.items@.take(i as int));
        let item: &DanmakuPlacedItem = &layout.items[i];
        let color = item.color.rgba(item.opacity);
        assert(color@ =~= channels_of(item.color, item.opacity));
        let alpha = color[3];
        if alpha.check_nan() || alpha.place() > 0 {
            let ghost before = items@;
            let ghost earlier = drawn_glyphs(layout.items@.take(i as int));
            let ghost now = drawn_glyphs(layout.items@.take(i as int + 1));
            append_item_glyphs(item, color, atlas_width, atlas_height, &mut items);
            proof {
                assert forall|k: int| 0 <= k < items@.len() implies draws(
                    #[trigger] items@[k],
                    now[k].0,
                    now[k].1,
                    atlas_width,
                    atlas_height,
                ) by {
                    if k < before.len() {
                        assert(items@[k] == before[k]);
                        assert(now[k] == earlier[k]);
                    } else {
                        let at = k - before.len();
                        assert(items@[before.len() + at] == items@[k]);
                    }
                }
            }
        }
        i += 1;
    }
    assert(layout.items@.take(i as int) =~= layout.items@);
    DanmakuRenderPlan {
        media_time: layout.media_time,
        generation: layout.generation,
        viewport: layout.viewport,
        atlas: Some(snapshot),
        items,
        frame_stats: DanmakuFrameStats::from_layout(layout),
    }
}

/// A glyph is drawn where its comment stands: across, at the comment with the pen and
/// the glyph's own offset; down, at the base line. Neither depends on the other, and
/// the size is that of the glyph.
pub proof fn law_glyphs_stand_with_their_comment(
    instance: DanmakuGlyphInstance,
    item: DanmakuPlacedItem,
    glyph: PreparedGlyphPlacement,
    atlas_width: Single,
    atlas_height: Single,
)
    requires
        draws(instance, item, glyph, atlas_width, atlas_height),
    ensures
        instance.item_id == item.item_id,
        instance.rect@.len() == 4,
        instance.rect@[0] == item.x.sum(glyph.pen_x).sum(glyph.offset_x),
        instance.rect@[1] == item.y.sum(item.text_layout.metrics.ascent).sum(glyph.offset_y),
        instance.rect@[2] == whole_single(glyph.width),
        instance.rect@[3] == whole_single(glyph.height),
        instance.shadow_offset@ == item.shadow_offset@,
{
}

/// A glyph is drawn from its place in the atlas, as fractions of the atlas.
pub proof fn law_glyphs_are_drawn_from_their_place(
    instance: DanmakuGlyphInstance,
    item: DanmakuPlacedItem,
    glyph: PreparedGlyphPlacement,
    atlas_width: Single,
    atlas_height: Single,
)
    requires
        draws(instance, item, glyph, atlas_width, atlas_height),
    ensures
        instance.tex_rect@.len() == 4,
        instance.tex_rect@[0] == whole_single(glyph.packed.x).quotient(atlas_width),
        instance.tex_rect@[1] == whole_single(glyph.packed.y).quotient(atlas_height),
        instance.tex_rect@[2] == whole_single(glyph.packed.width).quotient(atlas_width),
        instance.tex_rect@[3] == whole_single(glyph.packed.height).quotient(atlas_height),
{
}

/// A glyph has the colour of its comment; its outline is white around dark letters and
/// black around light ones, and its shadow is black.
pub proof fn law_glyphs_have_the_colour_of_their_comment(
    instance: DanmakuGlyphInstance,
    item: DanmakuPlacedItem,
    glyph: PreparedGlyphPlacement,
    atlas_width: Single,
    atlas_height: Single,
)
    requires
        draws(instance, item, glyph, atlas_width, atlas_height),
    ensures
        instance.color_rgba@ == channels_of(item.color, item.opacity),
        instance.outline_rgba@ == outline_color(instance.color_rgba@),
        instance.shadow_rgba@.len() == 4,
        instance.shadow_rgba@[0].bits == 0 && instance.shadow_rgba@[1].bits == 0
            && instance.shadow_rgba@[2].bits == 0,
        instance.shadow_rgba@[3] == instance.color_rgba@[3].product(item.shadow_alpha).lesser(
            (Single { bits: SINGLE_ONE }),
        ),
{
}

/// The channels of a colour are those of the comment, each between nothing and all; the
/// opacity counts for the alpha alone.
pub proof fn law_channels_are_those_of_the_colour(
    color: DanmakuColor,
    opacity: Single,
    other: Single,
)
    ensures
        channels_of(color, opacity).len() == 4,
        color.red.is_finite() && 0 <= color.red.rank() <= SINGLE_ONE ==> channels_of(
            color,
            opacity,
        )[0] == color.red,
        color.green.is_finite() && 0 <= color.green.rank() <= SINGLE_ONE ==> channels_of(
            color,
            opacity,
        )[1] == color.green,
        color.blue.is_finite() && 0 <= color.blue.rank() <= SINGLE_ONE ==> channels_of(
            color,
            opacity,
        )[2] == color.blue,
        ({
            let alpha = color.alpha.product(opacity);
            !alpha.is_nan() && 0 <= alpha.rank() <= SINGLE_ONE ==> channels_of(color, opacity)[3]
                == alpha
        }),
        channels_of(color, opacity).take(3) == channels_of(color, other).take(3),
{
    assert(channels_of(color, opacity).take(3) =~= channels_of(color, other).take(3));
}

/// An outline is grey without a hue: white around what is dark, and black around what
/// is light. It is never more opaque than the letters, nor than three quarters.
pub proof fn law_outlines_stand_out(color: Seq<Single>)
    ensures
        ({
            let outline = outline_color(color);
            let luminance = (Single { bits: SINGLE_0_299 }).product(color[0]).sum(
                (Single { bits: SINGLE_0_587 }).product(color[1]),
            ).sum((Single { bits: SINGLE_0_114 }).product(color[2]));
            &&& outline.len() == 4
            &&& outline[0] == outline[1] && outline[1] == outline[2]
            &&& !luminance.is_nan() && luminance.rank() < SINGLE_HALF ==> outline[0].bits
                == SINGLE_ONE
            &&& !luminance.is_nan() && luminance.rank() >= SINGLE_HALF ==> outline[0].bits == 0
            &&& outline[3].rank() <= SINGLE_0_75
            &&& !color[3].is_nan() ==> outline[3].rank() <= color[3].rank()
            &&& !color[3].is_nan() && color[3].rank() <= SINGLE_0_75 ==> outline[3].rank()
                == color[3].rank()
        }),
{
}

/// Comments are drawn in their order, and of each the glyphs that can be seen in
/// theirs; a comment that cannot be seen is left out.
pub proof fn law_comments_are_drawn_in_order(
    before: Seq<DanmakuPlacedItem>,
    item: DanmakuPlacedItem,
    glyphs: Seq<PreparedGlyphPlacement>,
    glyph: PreparedGlyphPlacement,
)
    ensures
        drawn_glyphs(Seq::empty()).len() == 0,
        !is_visible(item) ==> drawn_glyphs(before.push(item)) == drawn_glyphs(before),
        is_visible(item) ==> {
            let seen = visible_glyphs(item.text_layout.glyphs@);
            let drawn = drawn_glyphs(before.push(item));
            let n = drawn_glyphs(before).len();
            &&& drawn.len() == n + seen.len()
            &&& drawn.take(n as int) == drawn_glyphs(before)
            &&& forall|i: int|
                0 <= i < seen.len() ==> #[trigger] drawn[n + i] == (item, seen[i])
        },
        visible_glyphs(Seq::empty()).len() == 0,
        glyph.has_bitmap ==> visible_glyphs(glyphs.push(glyph)) == visible_glyphs(glyphs).push(
            glyph,
        ),
        !glyph.has_bitmap ==> visible_glyphs(glyphs.push(glyph)) == visible_glyphs(glyphs),
{
    assert(before.push(item).drop_last() =~= before);
    assert(glyphs.push(glyph).drop_last() =~= glyphs);
    if is_visible(item) {
        assert(drawn_glyphs(before.push(item)).take(drawn_glyphs(before).len() as int)
            =~= drawn_glyphs(before));
    }
}

/// A plan is for the time, the generation and the surface of its layout, and is drawn
/// from the atlas that it was made with.
pub proof fn law_plans_are_for_their_layout(
    plan: DanmakuRenderPlan,
    layout: DanmakuFrameLayout,
    atlas: Option<DanmakuGlyphAtlas>,
)
    requires
        plans(plan, layout, atlas),
    ensures
        plan.media_time == layout.media_time,
        plan.generation == layout.generation,
        plan.viewport == layout.viewport,
        layout.items@.len() == 0 ==> plan.items@.len() == 0,
        atlas is None ==> plan.items@.len() == 0 && plan.atlas is None,
        layout.items@.len() > 0 && atlas is Some ==> plan.atlas == atlas && plan.items@.len()
            == drawn_glyphs(layout.items@).len() && plan.frame_stats.placed_items
            == layout.items@.len(),
{
}

/// A comment that is opaque shows its own alpha.
pub proof fn law_opaque_comments_keep_their_alpha(color: DanmakuColor)
    requires
        color.alpha.is_finite(),
        0 <= color.alpha.rank() <= SINGLE_ONE,
    ensures
        channels_of(color, (Single { bits: SINGLE_ONE }))[3] == color.alpha,
{
    law_one_changes_nothing(color.alpha);
}

/// Without a layout nothing is planned, and with one as many tracks as it counts.
pub proof fn law_nothing_is_planned_without_a_layout(layout: PlannedLayout)
    ensures
        planned_items(None).len() == 0,
        planned_tracks(None) == 0,
        planned_items(Some(layout)) == layout.items@,
        layout.track_count >= 0 ==> planned_tracks(Some(layout)) == layout.track_count,
        layout.track_count < 0 ==> planned_tracks(Some(layout)) == 0,
{
}

} // verus!
