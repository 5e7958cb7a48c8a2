//! Rendering of subtitles: requests, plans, and the renderer of debug frames.
use crate::subtitle::bitmap::{
    expand_all, masks_of, AssBitmapPlane, FrameModel, SubtitleBitmapSet, SubtitleFrame,
};
use crate::subtitle::error::{Result, SubtitleError, SubtitleErrorModel};
use crate::subtitle::timeline::{
    active_of, can_draw, cues_view, debug_planes, CueModel, SubtitleCue, SubtitleTimeline,
};
use crate::text::{chars_of, extend_str, string_of};
use crate::time::Duration;
use vstd::prelude::*;

verus! {

broadcast use vstd::seq_lib::group_seq_properties;

// ---------------------------------------------------------------------------
// Requests
// ---------------------------------------------------------------------------

/// The size of the frame that subtitles are drawn on, and of the video.
#[derive(Debug, Clone, Copy, PartialEq, Eq, Structural)]
pub struct SubtitleRenderViewport {
    pub width: u32,
    pub height: u32,
    pub storage_width: u32,
    pub storage_height: u32,
}

/// A length of at least one.
pub open spec fn at_least_one(value: u32) -> u32 {
    if value == 0 {
        1
    } else {
        value
    }
}

impl SubtitleRenderViewport {
    /// A viewport of at least one pixel, with a video of the same size.
    pub fn new(width: u32, height: u32) -> (result: Self)
        ensures
            result == (SubtitleRenderViewport {
                width: at_least_one(width),
                height: at_least_one(height),
                storage_width: at_least_one(width),
                storage_height: at_least_one(height),
            }),
    {
        let width: u32 = if width == 0 {
            1
        } else {
            width
        };
        let height: u32 = if height == 0 {
            1
        } else {
            height
        };
        Self { width, height, storage_width: width, storage_height: height }
    }
}

/// A viewport of a subtitle renderer.
pub type SubtitleViewport = SubtitleRenderViewport;

/// What is to be drawn: the subtitles at a time, on a viewport.
#[derive(Debug, Clone, Copy, PartialEq, Eq, Structural)]
pub struct SubtitleRenderRequest {
    pub pts: Duration,
    pub viewport: SubtitleRenderViewport,
}

impl SubtitleRenderRequest {
    /// A request for a viewport of at least one pixel.
    pub fn new(pts: Duration, width: u32, height: u32) -> (result: Self)
        ensures
            result.pts == pts,
            result.viewport == (SubtitleRenderViewport {
                width: at_least_one(width),
                height: at_least_one(height),
                storage_width: at_least_one(width),
                storage_height: at_least_one(height),
            }),
    {
        Self { pts, viewport: SubtitleRenderViewport::new(width, height) }
    }
}

/// Who draws subtitles.
#[derive(Debug, Clone, Copy, PartialEq, Eq, Structural)]
pub enum SubtitleRenderBackend {
    DebugTimeline,
    Libass,
}

/// Who draws subtitles.
pub type SubtitleRendererBackend = SubtitleRenderBackend;

/// What was drawn: pixels, or masks that expand to them.
#[derive(Debug, Clone, PartialEq, Eq)]
pub enum SubtitleRenderOutput {
    Rgba(SubtitleFrame),
    Alpha(SubtitleBitmapSet),
}

/// The frame that an output shows.
pub open spec fn output_frame(output: SubtitleRenderOutput) -> FrameModel {
    match output {
        SubtitleRenderOutput::Rgba(frame) => frame@,
        SubtitleRenderOutput::Alpha(set) => FrameModel {
            pts: set@.pts,
            planes: expand_all(set@.parts),
        },
    }
}

impl SubtitleRenderOutput {
    /// Expands masks to pixels.
    pub fn into_rgba_frame(self) -> (result: SubtitleFrame)
        requires
            match self {
                SubtitleRenderOutput::Rgba(_) => true,
                SubtitleRenderOutput::Alpha(set) => forall|i: int|
                    0 <= i < set@.parts.len() ==> (#[trigger] set@.parts[i]).fits_in_memory(),
            },
        ensures
            result@ == output_frame(self),
    {
        match self {
            SubtitleRenderOutput::Rgba(frame) => frame,
            SubtitleRenderOutput::Alpha(bitmaps) => bitmaps.to_frame(),
        }
    }
}

/// Draws subtitles.
pub trait SubtitleRenderer {
    /// Whether the renderer can hold what the request asks for.
    spec fn can_render(&self, request: SubtitleRenderRequest) -> bool;

    /// Who draws.
    spec fn drawn_by(&self) -> SubtitleRenderBackend;

    /// Whether a result answers a request that is made of this renderer.
    spec fn answers(
        &self,
        request: SubtitleRenderRequest,
        result: Result<SubtitleRenderOutput>,
    ) -> bool;

    /// What becomes of the renderer when it draws.
    spec fn leads_to(&self, request: SubtitleRenderRequest, after: &Self) -> bool;

    /// Who draws.
    fn backend(&self) -> (result: SubtitleRenderBackend)
        ensures
            result == self.drawn_by(),
    ;

    /// Draws the subtitles at a time.
    fn render(&mut self, request: SubtitleRenderRequest) -> (result: Result<SubtitleRenderOutput>)
        requires
            old(self).can_render(request),
        ensures
            old(self).answers(request, result),
            old(self).leads_to(request, &*final(self)),
    ;
}

// ---------------------------------------------------------------------------
// Plans
// ---------------------------------------------------------------------------

/// The limits of the caches of libass.
#[derive(Debug, Clone, Copy, PartialEq, Eq, Structural)]
pub struct LibassRenderConfig {
    pub glyph_cache_limit: i32,
    pub bitmap_cache_limit_mb: i32,
}

impl Default for LibassRenderConfig {
    fn default() -> (result: Self)
        ensures
            result == (LibassRenderConfig { glyph_cache_limit: 0, bitmap_cache_limit_mb: 0 }),
    {
        Self { glyph_cache_limit: 0, bitmap_cache_limit_mb: 0 }
    }
}

/// A step of rendering with libass.
#[derive(Debug, Clone, Copy, PartialEq, Eq, Structural)]
pub enum LibassRenderOperation {
    SetFrameSize { width: u32, height: u32 },
    SetStorageSize { width: u32, height: u32 },
    SetCacheLimits { glyphs: i32, bitmap_mb: i32 },
    RenderFrame { timestamp_ms: i64 },
}

/// The steps of rendering with libass.
#[derive(Debug, Clone, PartialEq, Eq)]
pub struct LibassRenderPlan {
    pub request: SubtitleRenderRequest,
    pub config: LibassRenderConfig,
    pub operations: Vec<LibassRenderOperation>,
}

/// The whole milliseconds of a time, held at the largest machine number.
pub open spec fn millis_i64(nanos: nat) -> i64 {
    if nanos / 1_000_000 > i64::MAX {
        i64::MAX
    } else {
        (nanos / 1_000_000) as i64
    }
}

/// The whole milliseconds of a time, held at the largest machine number.
pub fn duration_to_millis_i64(value: Duration) -> (result: i64)
    ensures
        result == millis_i64(value@),
{
    let millis: u128 = value.as_millis();
    if millis > 0x7fff_ffff_ffff_ffff {
        i64::MAX
    } else {
        millis as i64
    }
}

impl LibassRenderPlan {
    /// The plan for a request: the sizes and limits are set before the frame is
    /// drawn.
    pub fn new(request: SubtitleRenderRequest, config: LibassRenderConfig) -> (result: Self)
        ensures
            result.request == request,
            result.config == config,
            result.operations@ == seq![
                LibassRenderOperation::SetFrameSize {
                    width: request.viewport.width,
                    height: request.viewport.height,
                },
                LibassRenderOperation::SetStorageSize {
                    width: request.viewport.storage_width,
                    height: request.viewport.storage_height,
                },
                LibassRenderOperation::SetCacheLimits {
                    glyphs: config.glyph_cache_limit,
                    bitmap_mb: config.bitmap_cache_limit_mb,
                },
                LibassRenderOperation::RenderFrame { timestamp_ms: millis_i64(request.pts@) },
            ],
    {
        let viewport = request.viewport;
        let mut operations: Vec<LibassRenderOperation> = Vec::new();
        operations.push(
            LibassRenderOperation::SetFrameSize { width: viewport.width, height: viewport.height },
        );
        operations.push(
            LibassRenderOperation::SetStorageSize {
                width: viewport.storage_width,
                height: viewport.storage_height,
            },
        );
        operations.push(
            LibassRenderOperation::SetCacheLimits {
                glyphs: config.glyph_cache_limit,
                bitmap_mb: config.bitmap_cache_limit_mb,
            },
        );
        operations.push(
            LibassRenderOperation::RenderFrame {
                timestamp_ms: duration_to_millis_i64(request.pts),
            },
        );
        let plan = Self { request, config, operations };
        assert(plan.operations@ =~= seq![
            LibassRenderOperation::SetFrameSize {
                width: request.viewport.width,
                height: request.viewport.height,
            },
            LibassRenderOperation::SetStorageSize {
                width: request.viewport.storage_width,
                height: request.viewport.storage_height,
            },
            LibassRenderOperation::SetCacheLimits {
                glyphs: config.glyph_cache_limit,
                bitmap_mb: config.bitmap_cache_limit_mb,
            },
            LibassRenderOperation::RenderFrame { timestamp_ms: millis_i64(request.pts@) },
        ]);
        plan
    }
}

/// A dimension as libass takes it; one that is out of range is refused by its
/// label.
pub fn libass_dimension(value: u32, label: &str) -> (result: Result<i32>)
    ensures
        result is Ok <==> value <= i32::MAX,
        result matches Ok(dimension) ==> dimension == value,
        result matches Err(error) ==> error@ == SubtitleErrorModel::Libass(
            label@ + " exceeds libass integer range"@,
        ),
{
    if value <= 0x7fff_ffff {
        Ok(value as i32)
    } else {
        let mut text = chars_of(label);
        extend_str(&mut text, " exceeds libass integer range");
        Err(SubtitleError::Libass(string_of(&text)))
    }
}

// ---------------------------------------------------------------------------
// Debug renderer
// ---------------------------------------------------------------------------

/// Whether a frame differs from the one before.
#[derive(Debug, Clone, Copy, PartialEq, Eq, Structural)]
pub enum SubtitleFrameChange {
    Changed,
    Unchanged,
}

/// A drawn frame.
#[derive(Debug, Clone, PartialEq, Eq)]
pub struct SubtitleRenderResult {
    pub backend: SubtitleRendererBackend,
    pub change: SubtitleFrameChange,
    pub frame: SubtitleFrame,
}

/// What a frame depends on, beside its time.
#[derive(Debug, Clone, PartialEq, Eq)]
struct SubtitleFrameSignature {
    viewport: SubtitleViewport,
    active_cues: Vec<SubtitleCue>,
}

/// Draws the cues of a timeline as plain boxes.
#[derive(Debug, Clone)]
pub struct SubtitleRendererCore {
    timeline: SubtitleTimeline,
    last_signature: Option<SubtitleFrameSignature>,
}

/// Whether a frame differs from the one before, given what both depend on.
pub open spec fn change_between(
    last: Option<(SubtitleViewport, Seq<CueModel>)>,
    next: (SubtitleViewport, Seq<CueModel>),
) -> SubtitleFrameChange {
    if last == Some(next) {
        SubtitleFrameChange::Unchanged
    } else {
        SubtitleFrameChange::Changed
    }
}

/// A frame that shows the same cues on the same viewport as the one before is
/// unchanged, whatever their times.
pub proof fn law_same_cues_are_unchanged(
    cues: Seq<CueModel>,
    viewport: SubtitleViewport,
    first: nat,
    second: nat,
)
    requires
        active_of(cues, first) == active_of(cues, second),
    ensures
        change_between(
            Some((viewport, active_of(cues, first))),
            (viewport, active_of(cues, second)),
        ) == SubtitleFrameChange::Unchanged,
        debug_planes(active_of(cues, first), viewport.width, viewport.height) == debug_planes(
            active_of(cues, second),
            viewport.width,
            viewport.height,
        ),
{
}

fn same_cues(a: &Vec<SubtitleCue>, b: &Vec<SubtitleCue>) -> (result: bool)
    ensures
        result <==> cues_view(a@) == cues_view(b@),
{
    if a.len() != b.len() {
        assert(cues_view(a@).len() != cues_view(b@).len());
        return false;
    }
    let mut i: usize = 0;
    while i < a.len()
        invariant
            i <= a@.len(),
            a@.len() == b@.len(),
            forall|k: int| 0 <= k < i ==> (#[trigger] a@[k])@ == b@[k]@,
        decreases a@.len() - i,
    {
        if !a[i].same_as(&b[i]) {
            assert(cues_view(a@)[i as int] != cues_view(b@)[i as int]);
            return false;
        }
        i += 1;
    }
    assert(cues_view(a@) =~= cues_view(b@));
    true
}

impl SubtitleRendererCore {
    /// The cues of the renderer.
    pub closed spec fn cues(self) -> Seq<CueModel> {
        self.timeline@
    }

    /// What the last frame depended on.
    pub closed spec fn last(self) -> Option<(SubtitleViewport, Seq<CueModel>)> {
        match self.last_signature {
            Some(signature) => Some((signature.viewport, cues_view(signature.active_cues@))),
            None => None,
        }
    }

    /// A renderer that has not drawn yet.
    pub fn new_debug(timeline: SubtitleTimeline) -> (result: Self)
        ensures
            result.cues() == timeline@,
            result.last() is None,
    {
        Self { timeline, last_signature: None }
    }

    /// The timeline that is drawn.
    pub fn timeline(&self) -> (result: &SubtitleTimeline)
        ensures
            result@ == self.cues(),
    {
        &self.timeline
    }

    /// Draws the cues that are shown at a time, and tells whether they or the
    /// viewport differ from those of the last frame.
    pub fn render(&mut self, pts: Duration, viewport: SubtitleViewport) -> (result:
        SubtitleRenderResult)
        requires
            can_draw(active_of(old(self).cues(), pts@), viewport.width, viewport.height),
        ensures
            final(self).cues() == old(self).cues(),
            final(self).last() == Some((viewport, active_of(old(self).cues(), pts@))),
            result.backend == SubtitleRenderBackend::DebugTimeline,
            result.change == change_between(
                old(self).last(),
                (viewport, active_of(old(self).cues(), pts@)),
            ),
            result.frame@ == (FrameModel {
                pts: pts@,
                planes: debug_planes(
                    active_of(old(self).cues(), pts@),
                    viewport.width,
                    viewport.height,
                ),
            }),
    {
        let ghost active = active_of(self.timeline@, pts@);
        let mut active_cues: Vec<SubtitleCue> = Vec::new();
        {
            let borrowed = self.timeline.active_cues(pts);
            let mut i: usize = 0;
            assert(cues_view(active_cues@) =~= active.take(0));
            while i < borrowed.len()
                invariant
                    i <= borrowed@.len(),
                    borrowed@.len() == active.len(),
                    forall|k: int|
                        0 <= k < borrowed@.len() ==> (#[trigger] borrowed@[k])@ == active[k],
                    cues_view(active_cues@) == active.take(i as int),
                decreases borrowed@.len() - i,
            {
                let ghost before = cues_view(active_cues@);
                let cue = borrowed[i].duplicate();
                active_cues.push(cue);
                assert(cues_view(active_cues@) =~= before.push(cue@));
                i += 1;
                assert(cues_view(active_cues@) =~= active.take(i as int));
            }
            assert(active.take(i as int) =~= active);
        }
        let unchanged = match &self.last_signature {
            Some(last) => last.viewport == viewport && same_cues(&last.active_cues, &active_cues),
            None => false,
        };
        self.last_signature = Some(SubtitleFrameSignature { viewport, active_cues });
        SubtitleRenderResult {
            backend: SubtitleRenderBackend::DebugTimeline,
            change: if unchanged {
                SubtitleFrameChange::Unchanged
            } else {
                SubtitleFrameChange::Changed
            },
            frame: self.timeline.render_debug_frame(pts, viewport.width, viewport.height),
        }
    }

    /// Expands bitmaps of libass to a changed frame.
    pub fn render_ass_bitmaps(pts: Duration, bitmaps: &[AssBitmapPlane]) -> (result: Result<
        SubtitleRenderResult,
    >)
        requires
            forall|i: int|
                0 <= i < bitmaps@.len() ==> (#[trigger] bitmaps@[i]).mask().fits_in_memory(),
        ensures
            result is Ok <==> forall|i: int|
                0 <= i < bitmaps@.len() ==> (#[trigger] bitmaps@[i]).is_covered(),
            result matches Ok(drawn) ==> {
                &&& drawn.backend == SubtitleRenderBackend::Libass
                &&& drawn.change == SubtitleFrameChange::Changed
                &&& drawn.frame@ == (FrameModel {
                    pts: pts@,
                    planes: expand_all(masks_of(bitmaps@)),
                })
            },
            result matches Err(error) ==> exists|i: int|
                {
                    &&& 0 <= i < bitmaps@.len()
                    &&& !(#[trigger] bitmaps@[i]).is_covered()
                    &&& error@ == bitmaps@[i].refusal()
                    &&& forall|k: int| 0 <= k < i ==> (#[trigger] bitmaps@[k]).is_covered()
                },
    {
        match SubtitleFrame::from_ass_bitmaps(pts, bitmaps) {
            Ok(frame) => Ok(
                SubtitleRenderResult {
                    backend: SubtitleRenderBackend::Libass,
                    change: SubtitleFrameChange::Changed,
                    frame,
                },
            ),
            Err(error) => Err(error),
        }
    }
}

impl SubtitleRenderer for SubtitleRendererCore {
    open spec fn can_render(&self, request: SubtitleRenderRequest) -> bool {
        can_draw(
            active_of(self.cues(), request.pts@),
            request.viewport.width,
            request.viewport.height,
        )
    }

    open spec fn drawn_by(&self) -> SubtitleRenderBackend {
        SubtitleRenderBackend::DebugTimeline
    }

    open spec fn answers(
        &self,
        request: SubtitleRenderRequest,
        result: Result<SubtitleRenderOutput>,
    ) -> bool {
        &&& result is Ok && result->Ok_0 is Rgba
        &&& output_frame(result->Ok_0) == (FrameModel {
            pts: request.pts@,
            planes: debug_planes(
                active_of(self.cues(), request.pts@),
                request.viewport.width,
                request.viewport.height,
            ),
        })
    }

    open spec fn leads_to(&self, request: SubtitleRenderRequest, after: &Self) -> bool {
        &&& after.cues() == self.cues()
        &&& after.last() == Some((request.viewport, active_of(self.cues(), request.pts@)))
    }

    fn backend(&self) -> (result: SubtitleRenderBackend) {
        SubtitleRenderBackend::DebugTimeline
    }

    fn render(&mut self, request: SubtitleRenderRequest) -> (result: Result<SubtitleRenderOutput>) {
        let drawn = SubtitleRendererCore::render(self, request.pts, request.viewport);
        Ok(SubtitleRenderOutput::Rgba(drawn.frame))
    }
}

/// Times are told in whole milliseconds, as many as have passed.
pub proof fn law_times_are_told_in_milliseconds(nanos: nat)
    requires
        nanos <= 1_000_000_000_000_000_000_000_000,
    ensures
        millis_i64(nanos) * 1_000_000 <= nanos < (millis_i64(nanos) + 1) * 1_000_000,
{
}

} // verus!
