//! The engine that keeps comments laid out for a surface.
use crate::danmaku::atlas::DanmakuGlyphAtlas;
use crate::danmaku::config::{scroll_millis, ConfigModel, DanmakuLayoutConfig};
use crate::danmaku::layout::{
    is_placed, shown_positions, supported, DanmakuFrameLayout, PlannedPosition,
    PreparedDanmakuItem,
};
use crate::danmaku::model::{
    DanmakuItem, DanmakuViewport, ItemModel, DEFAULT_GENERATION, DEFAULT_SCROLL_MILLIS,
    DEFAULT_STATIC_MILLIS,
};
use crate::danmaku::plan::{
    are_times, planned_items, planned_tracks, plans, prepare_layout, render_plan,
    DanmakuRenderPlan, DfmPreparedLayout, PlannedLayout, PreparedModel,
};
use crate::danmaku::timeline::{items_view, DanmakuTimeline};
use crate::time::Duration;
use vstd::prelude::*;

verus! {

broadcast use vstd::seq_lib::group_seq_properties;

/// Whether two comments are the same: their numbers are equal, whatever their
/// patterns.
pub open spec fn same_item(a: ItemModel, b: ItemModel) -> bool {
    &&& a.id == b.id
    &&& a.pts == b.pts
    &&& a.text == b.text
    &&& a.mode == b.mode
    &&& a.font_size.is_equal(b.font_size)
    &&& a.color.red.is_equal(b.color.red)
    &&& a.color.green.is_equal(b.color.green)
    &&& a.color.blue.is_equal(b.color.blue)
    &&& a.color.alpha.is_equal(b.color.alpha)
    &&& a.opacity.is_equal(b.opacity)
    &&& a.is_self == b.is_self
}

/// Whether two timelines hold the same comments.
pub open spec fn same_items(a: Seq<ItemModel>, b: Seq<ItemModel>) -> bool {
    a.len() == b.len() && forall|i: int| 0 <= i < a.len() ==> same_item(#[trigger] a[i], b[i])
}

fn items_equal(a: &DanmakuItem, b: &DanmakuItem) -> (result: bool)
    ensures
        result == same_item(a@, b@),
{
    a.id == b.id && a.pts.same_as(b.pts) && a.text == b.text && a.mode == b.mode
        && a.font_size.equals(b.font_size) && a.color.red.equals(b.color.red)
        && a.color.green.equals(b.color.green) && a.color.blue.equals(b.color.blue)
        && a.color.alpha.equals(b.color.alpha) && a.opacity.equals(b.opacity) && a.is_self
        == b.is_self
}

fn timelines_equal(a: &DanmakuTimeline, b: &DanmakuTimeline) -> (result: bool)
    ensures
        result == same_items(a@, b@),
{
    let x = a.items();
    let y = b.items();
    if x.len() != y.len() {
        return false;
    }
    let mut i: usize = 0;
    while i < x.len()
        invariant
            i <= x@.len(),
            x@.len() == y@.len(),
            items_view(x@) == a@,
            items_view(y@) == b@,
            forall|k: int| 0 <= k < i ==> same_item(#[trigger] a@[k], b@[k]),
        decreases x@.len() - i,
    {
        assert(a@[i as int] == x@[i as int]@ && b@[i as int] == y@[i as int]@);
        if !items_equal(&x[i], &y[i]) {
            assert(!same_item(a@[i as int], b@[i as int]));
            return false;
        }
        i += 1;
    }
    true
}

/// The comments, how they are laid out, and the surface and settings that they
/// were last laid out for.
#[derive(Debug)]
pub struct DfmLayoutEngine {
    timeline: DanmakuTimeline,
    config: DanmakuLayoutConfig,
    prepared: Option<DfmPreparedLayout>,
}

/// Whether two surfaces are the same.
pub open spec fn same_viewport(a: DanmakuViewport, b: DanmakuViewport) -> bool {
    a.width == b.width && a.height == b.height && a.scale_factor.is_equal(b.scale_factor)
}

impl DfmLayoutEngine {
    /// The comments.
    pub closed spec fn items(self) -> Seq<ItemModel> {
        self.timeline@
    }

    /// How they are laid out.
    pub closed spec fn settings(self) -> ConfigModel {
        self.config@
    }

    /// How they are laid out now, if they are.
    pub closed spec fn layout(self) -> Option<PreparedModel> {
        match self.prepared {
            Some(prepared) => Some(prepared@),
            None => None,
        }
    }

    /// What they were last laid out for, if that is still of use.
    pub open spec fn prepared_for(self) -> Option<(DanmakuViewport, ConfigModel)> {
        match self.layout() {
            Some(prepared) => Some((prepared.viewport, prepared.config@)),
            None => None,
        }
    }

    /// Whether the comments have to be laid out anew for a surface.
    pub open spec fn must_prepare(self, viewport: DanmakuViewport) -> bool {
        match self.prepared_for() {
            Some((last, config)) => !same_viewport(last, viewport) || !config.is_same(
                self.settings().sanitized(),
            ),
            None => true,
        }
    }

    /// An engine that has not laid out anything.
    pub fn new(timeline: DanmakuTimeline, config: DanmakuLayoutConfig) -> (result: Self)
        ensures
            result.items() == timeline@,
            result.settings() == config@.sanitized(),
            result.layout() is None,
    {
        Self { timeline, config: config.sanitized(), prepared: None }
    }

    /// Takes other comments.
    pub fn set_timeline(&mut self, timeline: DanmakuTimeline)
        ensures
            final(self).items() == timeline@,
            final(self).settings() == old(self).settings(),
            final(self).layout() is None,
    {
        self.timeline = timeline;
        self.prepared = None;
    }

    /// Takes other comments if they differ.
    pub fn sync_timeline(&mut self, timeline: &DanmakuTimeline)
        ensures
            final(self).settings() == old(self).settings(),
            same_items(old(self).items(), timeline@) ==> final(self).items() == old(self).items()
                && final(self).layout() == old(self).layout(),
            !same_items(old(self).items(), timeline@) ==> final(self).items() == timeline@
                && final(self).layout() is None,
    {
        if !timelines_equal(&self.timeline, timeline) {
            self.timeline = timeline.duplicate();
            self.prepared = None;
        }
    }

    /// Takes all comments out.
    pub fn clear_timeline(&mut self)
        ensures
            final(self).items() == Seq::<ItemModel>::empty(),
            final(self).settings() == old(self).settings(),
            final(self).layout() is None,
    {
        self.timeline = DanmakuTimeline::default();
        self.prepared = None;
    }

    /// Lays out otherwise from now on. Tells whether anything changed, and
    /// whether the font did.
    pub fn set_config(&mut self, config: DanmakuLayoutConfig) -> (result: (bool, bool))
        ensures
            final(self).items() == old(self).items(),
            result.0 == !old(self).settings().is_same(config@.sanitized()),
            result.0 ==> final(self).settings() == config@.sanitized() && final(self).layout()
                is None && result.1 == !old(self).settings().has_same_font(
                config@.sanitized(),
            ),
            !result.0 ==> final(self).settings() == old(self).settings() && final(self).layout()
                == old(self).layout() && !result.1,
    {
        let config = config.sanitized();
        if self.config.same_as(&config) {
            return (false, false);
        }
        let font_changed = !self.config.same_font(&config);
        self.config = config;
        self.prepared = None;
        (true, font_changed)
    }

    /// How comments are laid out.
    pub fn config(&self) -> (result: &DanmakuLayoutConfig)
        ensures
            result@ == self.settings(),
    {
        &self.config
    }

    /// The comments.
    pub fn timeline(&self) -> (result: &DanmakuTimeline)
        ensures
            result@ == self.items(),
    {
        &self.timeline
    }

    /// Whether the comments have to be laid out anew for a surface.
    pub fn needs_prepare(&self, viewport: DanmakuViewport) -> (result: bool)
        ensures
            result == self.must_prepare(viewport),
    {
        match &self.prepared {
            Some(prepared) => {
                let last = prepared.viewport();
                let same = last.width == viewport.width && last.height == viewport.height
                    && last.scale_factor.equals(viewport.scale_factor);
                !same || !prepared.config().same_as(&self.config.sanitized())
            },
            None => true,
        }
    }

    /// Lays the comments out for a surface as they were planned.
    pub fn prepare(&mut self, viewport: DanmakuViewport, planned: Option<PlannedLayout>) -> (result:
        &DfmPreparedLayout)
        requires
            planned_items(planned).len() < u32::MAX,
            forall|i: int|
                0 <= i < planned_items(planned).len() ==> (#[trigger] planned_items(
                    planned,
                )[i]).0.has_spans(),
        ensures
            final(self).items() == old(self).items(),
            final(self).settings() == old(self).settings(),
            final(self).layout() == Some(result@),
            final(self).prepared_for() == Some((viewport, old(self).settings().sanitized())),
            final(self).layout() matches Some(prepared) && {
                let config = old(self).settings().sanitized();
                let is_empty = old(self).items().len() == 0 || !config.enabled;
                &&& prepared.static_duration == DEFAULT_STATIC_MILLIS * 1_000_000
                &&& prepared.scroll_duration == (if is_empty {
                    DEFAULT_SCROLL_MILLIS as nat * 1_000_000
                } else {
                    scroll_millis(config) * 1_000_000
                })
                &&& are_times(prepared.item_times, prepared.items)
                &&& if is_empty {
                    prepared.items.len() == 0 && prepared.stats.is_blank()
                } else {
                    &&& prepared.items.len() == planned_items(planned).len()
                    &&& forall|i: int|
                        0 <= i < prepared.items.len() ==> crate::danmaku::layout::is_prepared(
                            #[trigger] prepared.items[i],
                            planned_items(planned)[i].0,
                            planned_items(planned)[i].1,
                        )
                    &&& prepared.stats.tells_of(
                        old(self).items().len(),
                        supported(old(self).items()).len(),
                        prepared.items,
                        viewport,
                        config.display_area,
                        config.track_gap_ratio,
                        planned_tracks(planned),
                    )
                }
            },
    {
        let config = self.config.sanitized();
        self.prepared = Some(prepare_layout(&self.timeline, viewport, &config, planned));
        self.prepared.as_ref().unwrap()
    }

    /// How the comments are laid out now, if they are.
    pub fn prepared(&self) -> (result: Option<&DfmPreparedLayout>)
        ensures
            match result {
                Some(prepared) => self.layout() == Some(prepared@),
                None => self.layout() is None,
            },
    {
        self.prepared.as_ref()
    }

    /// Whether the comments are in a frame where the plan puts them. The generation
    /// is never zero.
    pub open spec fn is_frame(
        self,
        frame: DanmakuFrameLayout,
        media_time: Duration,
        generation: u64,
        positions: Seq<PlannedPosition>,
    ) -> bool {
        let prepared = self.layout()->0;
        let shown = shown_positions(positions, prepared.items);
        &&& frame.media_time == media_time
        &&& frame.generation == (if generation == 0 {
            DEFAULT_GENERATION
        } else {
            generation
        })
        &&& frame.viewport == prepared.viewport
        &&& !prepared.config.enabled ==> frame.items@.len() == 0 && frame.prepared_stats.is_blank()
        &&& prepared.config.enabled ==> {
            &&& frame.prepared_stats == prepared.stats
            &&& frame.items@.len() == shown.len()
            &&& forall|i: int|
                0 <= i < shown.len() ==> is_placed(
                    #[trigger] frame.items@[i],
                    prepared.items[shown[i].item_index as int],
                    shown[i],
                    prepared.config@,
                    prepared.viewport,
                )
        }
    }

    /// The comments in a frame, given where the plan puts them, if they are laid
    /// out.
    pub fn frame_layout(
        &self,
        media_time: Duration,
        generation: u64,
        positions: &[PlannedPosition],
    ) -> (result: Option<DanmakuFrameLayout>)
        ensures
            result is Some <==> self.layout() is Some,
            result matches Some(frame) ==> self.is_frame(frame, media_time, generation, positions@),
    {
        match &self.prepared {
            Some(prepared) => Some(
                prepared.frame_layout(media_time, frame_generation(generation), positions),
            ),
            None => None,
        }
    }

    /// Plans what is drawn of the comments in a frame, given where the plan puts
    /// them and the atlas that their glyphs were packed in, if they are laid out.
    pub fn render_plan(
        &self,
        media_time: Duration,
        generation: u64,
        positions: &[PlannedPosition],
        atlas: Option<DanmakuGlyphAtlas>,
    ) -> (result: Option<DanmakuRenderPlan>)
        requires
            positions@.len() < u32::MAX,
        ensures
            result is Some <==> self.layout() is Some,
            result matches Some(plan) ==> exists|frame: DanmakuFrameLayout| #[trigger]
                self.is_frame(frame, media_time, generation, positions@) && plans(
                    plan,
                    frame,
                    atlas,
                ),
    {
        match self.frame_layout(media_time, generation, positions) {
            Some(frame) => {
                proof {
                    lemma_shown_are_given(positions@, self.layout()->0.items);
                }
                Some(render_plan(&frame, atlas))
            },
            None => None,
        }
    }
}

proof fn lemma_shown_are_given(positions: Seq<PlannedPosition>, items: Seq<PreparedDanmakuItem>)
    ensures
        shown_positions(positions, items).len() <= positions.len(),
    decreases positions.len(),
{
    if positions.len() > 0 {
        lemma_shown_are_given(positions.drop_last(), items);
    }
}

/// Comments that were laid out for a surface need not be laid out for it again.
pub proof fn law_prepared_layout_is_kept(engine: DfmLayoutEngine, viewport: DanmakuViewport)
    requires
        engine.prepared_for() == Some((viewport, engine.settings().sanitized())),
        !viewport.scale_factor.is_nan(),
    ensures
        !engine.must_prepare(viewport),
{
    crate::danmaku::config::law_sanitizing_settles(engine.settings());
}

/// The generation that a frame is laid out for: never zero.
pub fn frame_generation(generation: u64) -> (result: u64)
    ensures
        result == (if generation == 0 {
            DEFAULT_GENERATION
        } else {
            generation
        }),
{
    if generation == 0 {
        DEFAULT_GENERATION
    } else {
        generation
    }
}

/// A frame is for the time and the generation that were asked for, on the surface that
/// was prepared, and shows as many comments as there are positions that show one.
pub proof fn law_frames_are_for_their_time(
    engine: DfmLayoutEngine,
    frame: DanmakuFrameLayout,
    media_time: Duration,
    generation: u64,
    positions: Seq<PlannedPosition>,
)
    requires
        engine.layout() is Some,
        engine.is_frame(frame, media_time, generation, positions),
    ensures
        frame.media_time == media_time,
        generation > 0 ==> frame.generation == generation,
        generation == 0 ==> frame.generation == 1,
        frame.viewport == engine.layout()->0.viewport,
        engine.layout()->0.config.enabled ==> frame.items@.len() == shown_positions(
            positions,
            engine.layout()->0.items,
        ).len(),
        !engine.layout()->0.config.enabled ==> frame.items@.len() == 0,
{
}

/// Two comments are the same just if all that they say and show is.
pub proof fn law_same_comments_agree(a: ItemModel, b: ItemModel)
    ensures
        same_item(a, b) ==> a.id == b.id && a.pts == b.pts && a.text == b.text && a.mode == b.mode
            && a.is_self == b.is_self,
        same_item(a, b) ==> a.color.red.is_equal(b.color.red) && a.color.green.is_equal(
            b.color.green,
        ) && a.color.blue.is_equal(b.color.blue) && a.color.alpha.is_equal(b.color.alpha),
        same_item(a, b) ==> a.opacity.is_equal(b.opacity) && a.font_size.is_equal(b.font_size),
        same_item(a, b) == same_item(b, a),
{
}

} // verus!
