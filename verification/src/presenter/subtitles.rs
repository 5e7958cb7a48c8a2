//! The subtitles that are on the screen.
use crate::order::{is_ascending, law_stable_sort_ascends, sort_by_time, stable_sort, Timed};
use crate::overlay::OverlayFrame;
use crate::subtitle::bitmap::{
    parts_model, planes_view, AlphaModel, PlaneModel, SubtitleBitmapPlane, SubtitleBitmapSet,
};
use crate::subtitle::decoded::{
    any_text, decoded_subtitle_frames_to_timeline, frames_cues, DecodedSubtitleFrame,
};
use crate::subtitle::render::{at_least_one, SubtitleRendererCore, SubtitleViewport};
use crate::subtitle::timeline::{active_of, can_draw, debug_planes, sorted_cues};
use crate::time::{sat_add, span_view, Duration};
use vstd::prelude::*;

verus! {

broadcast use vstd::seq_lib::group_seq_properties;

/// A decoded subtitle on its way to the screen.
#[derive(Debug)]
pub struct PlayerSubtitleFrame {
    pub frame: DecodedSubtitleFrame,
    pub pts: Option<Duration>,
    pub media_time: Duration,
    pub late_by: Option<Duration>,
    pub generation: u64,
}

impl PlayerSubtitleFrame {
    /// Whether there is nothing in the subtitle.
    pub open spec fn is_blank(self) -> bool {
        self.frame.text@.len() == 0 && self.frame.bitmap.planes@.len() == 0
    }

    /// When the subtitle starts, if that is known.
    pub open spec fn start(self) -> Option<nat> {
        match self.frame.start {
            Some(start) => Some(start@),
            None => span_view(self.pts),
        }
    }

    /// When the subtitle starts, or when it came.
    pub open spec fn place(self) -> nat {
        match self.start() {
            Some(start) => start,
            None => self.media_time@,
        }
    }

    /// Whether the subtitle has not ended at a time.
    pub open spec fn lasts(self, pts: nat) -> bool {
        self.frame.end matches Some(end) ==> pts < end@
    }

    /// Whether the subtitle is shown at a time.
    pub open spec fn is_shown(self, pts: nat) -> bool {
        &&& !self.is_blank()
        &&& self.start() matches Some(start) ==> start <= pts
        &&& self.lasts(pts)
    }
}

impl Timed for PlayerSubtitleFrame {
    open spec fn key(&self) -> nat {
        self.place()
    }

    fn key_nanos(&self) -> (result: u128) {
        placed_at(self).as_nanos()
    }
}

/// Whether a subtitle is shown at a time.
pub fn subtitle_is_active(frame: &PlayerSubtitleFrame, pts: Duration) -> (result: bool)
    ensures
        result == frame.is_shown(pts@),
{
    if frame.frame.is_empty() {
        return false;
    }
    if let Some(start) = subtitle_start(frame) {
        if pts.is_before(start) {
            return false;
        }
    }
    if let Some(end) = frame.frame.end {
        if !pts.is_before(end) {
            return false;
        }
    }
    true
}

/// When a subtitle starts, if that is known.
pub fn subtitle_start(frame: &PlayerSubtitleFrame) -> (result: Option<Duration>)
    ensures
        span_view(result) == frame.start(),
{
    match frame.frame.start {
        Some(start) => Some(start),
        None => frame.pts,
    }
}

fn placed_at(frame: &PlayerSubtitleFrame) -> (result: Duration)
    ensures
        result@ == frame.place(),
{
    match subtitle_start(frame) {
        Some(start) => start,
        None => frame.media_time,
    }
}

/// The subtitles that have not ended at a time.
pub open spec fn lasting(frames: Seq<PlayerSubtitleFrame>, pts: nat) -> Seq<PlayerSubtitleFrame>
    decreases frames.len(),
{
    if frames.len() == 0 {
        Seq::empty()
    } else {
        let rest = lasting(frames.drop_last(), pts);
        if !frames.last().is_blank() && frames.last().lasts(pts) {
            rest.push(frames.last())
        } else {
            rest
        }
    }
}

/// The subtitles of other tracks.
pub open spec fn of_other_tracks(frames: Seq<PlayerSubtitleFrame>, track_id: i64) -> Seq<
    PlayerSubtitleFrame,
>
    decreases frames.len(),
{
    if frames.len() == 0 {
        Seq::empty()
    } else {
        let rest = of_other_tracks(frames.drop_last(), track_id);
        if frames.last().frame.track_id != track_id {
            rest.push(frames.last())
        } else {
            rest
        }
    }
}

/// The subtitles after another one came. Those that have ended leave; one without
/// an end, or with nothing in it, takes the place of all of its track.
pub open spec fn joined(frames: Seq<PlayerSubtitleFrame>, frame: PlayerSubtitleFrame) -> Seq<
    PlayerSubtitleFrame,
> {
    let kept = lasting(frames, frame.place());
    let others = of_other_tracks(kept, frame.frame.track_id);
    if frame.is_blank() {
        others
    } else if frame.frame.end is None {
        stable_sort(others.push(frame))
    } else {
        stable_sort(kept.push(frame))
    }
}

/// The subtitles that are shown at a time.
pub open spec fn shown_at(frames: Seq<PlayerSubtitleFrame>, pts: nat) -> Seq<PlayerSubtitleFrame>
    decreases frames.len(),
{
    if frames.len() == 0 {
        Seq::empty()
    } else {
        let rest = shown_at(frames.drop_last(), pts);
        if frames.last().is_shown(pts) {
            rest.push(frames.last())
        } else {
            rest
        }
    }
}

/// The bitmaps of some subtitles.
pub open spec fn bitmaps_of(frames: Seq<PlayerSubtitleFrame>) -> Seq<PlaneModel>
    decreases frames.len(),
{
    if frames.len() == 0 {
        Seq::empty()
    } else {
        bitmaps_of(frames.drop_last()) + planes_view(frames.last().frame.bitmap.planes@)
    }
}

/// Those of some subtitles that have text.
pub open spec fn texts_of<'a>(frames: Seq<PlayerSubtitleFrame>) -> Seq<&'a DecodedSubtitleFrame>
    decreases frames.len(),
{
    if frames.len() == 0 {
        Seq::empty()
    } else {
        let rest = texts_of(frames.drop_last());
        if any_text(frames.last().frame.text@) {
            rest.push(&frames.last().frame)
        } else {
            rest
        }
    }
}

/// A subtitle that has not ended is not affected by those that have.
proof fn lemma_shown_lasts(frames: Seq<PlayerSubtitleFrame>, pts: nat)
    ensures
        shown_at(lasting(frames, pts), pts) == shown_at(frames, pts),
    decreases frames.len(),
{
    if frames.len() > 0 {
        lemma_shown_lasts(frames.drop_last(), pts);
        let rest = lasting(frames.drop_last(), pts);
        assert(rest.push(frames.last()).drop_last() =~= rest);
    }
}

/// No subtitle that is kept has ended, and each that is kept was there.
pub proof fn law_ended_subtitles_leave(frames: Seq<PlayerSubtitleFrame>, pts: nat)
    ensures
        forall|i: int|
            0 <= i < lasting(frames, pts).len() ==> (#[trigger] lasting(frames, pts)[i]).lasts(pts)
                && frames.contains(lasting(frames, pts)[i]),
    decreases frames.len(),
{
    if frames.len() > 0 {
        let shorter = frames.drop_last();
        law_ended_subtitles_leave(shorter, pts);
        let kept = lasting(frames, pts);
        assert forall|i: int| 0 <= i < kept.len() implies (#[trigger] kept[i]).lasts(pts)
            && frames.contains(kept[i]) by {
            let rest = lasting(shorter, pts);
            if i < rest.len() {
                assert(rest[i] == kept[i]);
                let k = choose|k: int| 0 <= k < shorter.len() && shorter[k] == rest[i];
                assert(frames[k] == kept[i]);
            } else {
                assert(frames[frames.len() - 1] == kept[i]);
            }
        }
    }
}

/// A subtitle with nothing in it clears its track.
pub proof fn law_blank_subtitle_clears_its_track(
    frames: Seq<PlayerSubtitleFrame>,
    frame: PlayerSubtitleFrame,
)
    requires
        frame.is_blank(),
    ensures
        forall|i: int|
            0 <= i < joined(frames, frame).len() ==> (
            #[trigger] joined(frames, frame)[i]).frame.track_id != frame.frame.track_id,
{
    lemma_other_tracks(lasting(frames, frame.place()), frame.frame.track_id);
}

proof fn lemma_other_tracks(frames: Seq<PlayerSubtitleFrame>, track_id: i64)
    ensures
        forall|i: int|
            0 <= i < of_other_tracks(frames, track_id).len() ==> (
            #[trigger] of_other_tracks(frames, track_id)[i]).frame.track_id != track_id,
    decreases frames.len(),
{
    if frames.len() > 0 {
        lemma_other_tracks(frames.drop_last(), track_id);
    }
}

/// After a subtitle with something in it came, all that wait are in the order of
/// their starts.
pub proof fn law_subtitles_ascend(frames: Seq<PlayerSubtitleFrame>, frame: PlayerSubtitleFrame)
    requires
        !frame.is_blank(),
    ensures
        is_ascending(joined(frames, frame)),
{
    let kept = lasting(frames, frame.place());
    let others = of_other_tracks(kept, frame.frame.track_id);
    law_stable_sort_ascends(others.push(frame));
    law_stable_sort_ascends(kept.push(frame));
}

// ---------------------------------------------------------------------------
// State
// ---------------------------------------------------------------------------

/// What came of rendering the text of the subtitles.
pub enum RenderedText {
    /// Masks to draw.
    Masks(SubtitleBitmapSet),
    /// Nothing to draw.
    Nothing,
    /// No renderer: plain boxes are drawn.
    Failed,
}

/// The subtitles that are on the screen or wait for it.
#[derive(Debug)]
pub struct SubtitleFrameState {
    pub frames: Vec<PlayerSubtitleFrame>,
}

impl Default for SubtitleFrameState {
    fn default() -> (result: Self)
        ensures
            result.frames@.len() == 0,
    {
        Self { frames: Vec::new() }
    }
}

/// The end of text that has none, seen from a time: a day later.
pub open spec fn open_end(pts: nat) -> nat {
    sat_add(pts, 86_400_000_000_000)
}

/// The boxes that stand for text.
pub open spec fn boxes_of(
    texts: Seq<&DecodedSubtitleFrame>,
    pts: nat,
    width: u32,
    height: u32,
) -> Seq<PlaneModel> {
    debug_planes(
        active_of(sorted_cues(frames_cues(texts, open_end(pts))), pts),
        at_least_one(width),
        at_least_one(height),
    )
}

/// The boxes that stand for text that cannot be rendered.
pub open spec fn boxes_drawn(
    frames: Seq<PlayerSubtitleFrame>,
    pts: nat,
    viewport: crate::overlay::OverlayViewport,
    text: RenderedText,
) -> Seq<PlaneModel> {
    let texts = texts_of(shown_at(frames, pts));
    if texts.len() > 0 && text is Failed {
        boxes_of(texts, pts, viewport.width, viewport.height)
    } else {
        Seq::empty()
    }
}

/// The masks of rendered text.
pub open spec fn masks_drawn(
    frames: Seq<PlayerSubtitleFrame>,
    pts: nat,
    text: RenderedText,
) -> Seq<AlphaModel> {
    match text {
        RenderedText::Masks(set) => if texts_of(shown_at(frames, pts)).len() > 0 {
            parts_model(set.parts@)
        } else {
            Seq::empty()
        },
        _ => Seq::empty(),
    }
}

/// Whether anything is on an overlay once it has its subtitles.
pub open spec fn shows_anything(
    before: OverlayFrame,
    frames: Seq<PlayerSubtitleFrame>,
    pts: nat,
    text: RenderedText,
) -> bool {
    ||| before.subtitle_planes@.len() > 0
    ||| before.subtitle_alpha_planes@.len() > 0
    ||| bitmaps_of(shown_at(frames, pts)).len() > 0
    ||| boxes_drawn(frames, pts, before.viewport, text).len() > 0
    ||| masks_drawn(frames, pts, text).len() > 0
}

/// What an overlay gets from the subtitles at a time.
pub open spec fn is_overlaid(
    before: OverlayFrame,
    after: OverlayFrame,
    frames: Seq<PlayerSubtitleFrame>,
    pts: nat,
    text: RenderedText,
) -> bool {
    let shown = shown_at(frames, pts);
    let texts = texts_of(shown);
    let bitmaps = bitmaps_of(shown);
    let has_text = texts.len() > 0;
    let boxes = boxes_drawn(frames, pts, before.viewport, text);
    let masks = masks_drawn(frames, pts, text);
    let text_changed = has_text && match text {
        RenderedText::Masks(set) => set.changed,
        RenderedText::Nothing => false,
        RenderedText::Failed => true,
    };
    &&& after.pts == before.pts
    &&& after.viewport == before.viewport
    &&& planes_view(after.subtitle_planes@) == planes_view(before.subtitle_planes@) + bitmaps
        + boxes
    &&& parts_model(after.subtitle_alpha_planes@) == parts_model(before.subtitle_alpha_planes@)
        + masks
    &&& after.subtitle_changed == (before.subtitle_changed || bitmaps.len() > 0 || text_changed)
}

/// Whether the boxes that stand for text can be drawn, if there is text.
pub open spec fn can_box(
    frames: Seq<PlayerSubtitleFrame>,
    pts: nat,
    viewport: crate::overlay::OverlayViewport,
) -> bool {
    let texts = texts_of(shown_at(frames, pts));
    texts.len() > 0 ==> can_draw(
        active_of(sorted_cues(frames_cues(texts, open_end(pts))), pts),
        at_least_one(viewport.width),
        at_least_one(viewport.height),
    )
}

impl SubtitleFrameState {
    /// Takes a subtitle.
    pub fn push(&mut self, frame: PlayerSubtitleFrame)
        ensures
            final(self).frames@ == joined(old(self).frames@, frame),
    {
        self.retain_at(placed_at(&frame));
        if frame.frame.is_empty() {
            self.retain_other_tracks(frame.frame.track_id);
            return ;
        }
        if frame.frame.end.is_none() {
            self.retain_other_tracks(frame.frame.track_id);
        }
        let mut frames: Vec<PlayerSubtitleFrame> = Vec::new();
        let ghost before = self.frames@;
        frames.append(&mut self.frames);
        assert(frames@ =~= before);
        frames.push(frame);
        self.frames = sort_by_time(frames);
    }

    /// Drops the subtitles that have ended at a time.
    pub fn retain_at(&mut self, pts: Duration)
        ensures
            final(self).frames@ == lasting(old(self).frames@, pts@),
    {
        let mut frames: Vec<PlayerSubtitleFrame> = Vec::new();
        let ghost all = self.frames@;
        frames.append(&mut self.frames);
        assert(frames@ =~= all);
        let mut kept: Vec<PlayerSubtitleFrame> = Vec::new();
        assert(all.take(0) =~= Seq::<PlayerSubtitleFrame>::empty());
        for frame in it: frames
            invariant
                it.seq() == all,
                kept@ == lasting(all.take(it.index()), pts@),
        {
            assert(all.take(it.index() + 1).drop_last() =~= all.take(it.index()));
            let lasts = match frame.frame.end {
                Some(end) => pts.is_before(end),
                None => true,
            };
            if !frame.frame.is_empty() && lasts {
                kept.push(frame);
            }
        }
        assert(all.take(all.len() as int) =~= all);
        self.frames = kept;
    }

    fn retain_other_tracks(&mut self, track_id: i64)
        ensures
            final(self).frames@ == of_other_tracks(old(self).frames@, track_id),
    {
        let mut frames: Vec<PlayerSubtitleFrame> = Vec::new();
        let ghost all = self.frames@;
        frames.append(&mut self.frames);
        assert(frames@ =~= all);
        let mut kept: Vec<PlayerSubtitleFrame> = Vec::new();
        assert(all.take(0) =~= Seq::<PlayerSubtitleFrame>::empty());
        for frame in it: frames
            invariant
                it.seq() == all,
                kept@ == of_other_tracks(all.take(it.index()), track_id),
        {
            assert(all.take(it.index() + 1).drop_last() =~= all.take(it.index()));
            if frame.frame.track_id != track_id {
                kept.push(frame);
            }
        }
        assert(all.take(all.len() as int) =~= all);
        self.frames = kept;
    }

    /// The subtitles with text that are shown at a time.
    pub fn text_frames(&self, pts: Duration) -> (result: Vec<&DecodedSubtitleFrame>)
        ensures
            result@ == texts_of(shown_at(self.frames@, pts@)),
    {
        let mut result: Vec<&DecodedSubtitleFrame> = Vec::new();
        let mut i: usize = 0;
        let ghost all = self.frames@;
        assert(all.take(0) =~= Seq::<PlayerSubtitleFrame>::empty());
        while i < self.frames.len()
            invariant
                i <= self.frames@.len(),
                all == self.frames@,
                result@ == texts_of(shown_at(all.take(i as int), pts@)),
            decreases self.frames@.len() - i,
        {
            assert(all.take(i as int + 1).drop_last() =~= all.take(i as int));
            let ghost shown = shown_at(all.take(i as int), pts@);
            assert(shown.push(all[i as int]).drop_last() =~= shown);
            if subtitle_is_active(&self.frames[i], pts) {
                if self.frames[i].frame.has_text() {
                    result.push(&self.frames[i].frame);
                }
            }
            i += 1;
        }
        assert(all.take(i as int) =~= all);
        result
    }

    fn append_bitmaps(&self, pts: Duration, overlay: &mut OverlayFrame)
        ensures
            planes_view(final(overlay).subtitle_planes@) == planes_view(
                old(overlay).subtitle_planes@,
            ) + bitmaps_of(shown_at(self.frames@, pts@)),
            *final(overlay) == (OverlayFrame {
                subtitle_planes: final(overlay).subtitle_planes,
                ..*old(overlay)
            }),
    {
        let mut i: usize = 0;
        let ghost all = self.frames@;
        let ghost before = planes_view(overlay.subtitle_planes@);
        assert(all.take(0) =~= Seq::<PlayerSubtitleFrame>::empty());
        assert(before + Seq::<PlaneModel>::empty() =~= before);
        while i < self.frames.len()
            invariant
                i <= self.frames@.len(),
                all == self.frames@,
                planes_view(overlay.subtitle_planes@) == before + bitmaps_of(
                    shown_at(all.take(i as int), pts@),
                ),
                *overlay == (OverlayFrame {
                    subtitle_planes: overlay.subtitle_planes,
                    ..*old(overlay)
                }),
            decreases self.frames@.len() - i,
        {
            assert(all.take(i as int + 1).drop_last() =~= all.take(i as int));
            let ghost shown = shown_at(all.take(i as int), pts@);
            assert(shown.push(all[i as int]).drop_last() =~= shown);
            if subtitle_is_active(&self.frames[i], pts) {
                let planes: &Vec<SubtitleBitmapPlane> = &self.frames[i].frame.bitmap.planes;
                let ghost drawn = planes_view(overlay.subtitle_planes@);
                append_planes(planes, &mut overlay.subtitle_planes);
                assert(drawn + planes_view(planes@) =~= before + (bitmaps_of(shown) + planes_view(
                    planes@,
                )));
            }
            i += 1;
        }
        assert(all.take(i as int) =~= all);
    }

    /// Draws the subtitles that are shown at a time over a frame, given what came
    /// of rendering their text.
    pub fn append_rendered(&mut self, pts: Duration, overlay: &mut OverlayFrame, text: RenderedText)
        requires
            text is Failed ==> can_box(old(self).frames@, pts@, old(overlay).viewport),
        ensures
            final(self).frames@ == lasting(old(self).frames@, pts@),
            is_overlaid(*old(overlay), *final(overlay), old(self).frames@, pts@, text),
    {
        proof {
            lemma_shown_lasts(self.frames@, pts@);
        }
        self.retain_at(pts);
        let ghost shown = shown_at(self.frames@, pts@);
        let count: usize = overlay.subtitle_planes.len();
        self.append_bitmaps(pts, overlay);
        let ghost drawn = planes_view(overlay.subtitle_planes@);
        let mut changed = overlay.subtitle_planes.len() > count;
        let texts = self.text_frames(pts);
        let ghost masks = parts_model(overlay.subtitle_alpha_planes@);
        assert(drawn + Seq::<PlaneModel>::empty() =~= drawn);
        assert(masks + Seq::<AlphaModel>::empty() =~= masks);
        if texts.len() > 0 {
            match text {
                RenderedText::Masks(set) => {
                    let mut parts = set.parts;
                    let ghost added = parts@;
                    overlay.subtitle_alpha_planes.append(&mut parts);
                    assert(parts_model(overlay.subtitle_alpha_planes@) =~= masks + parts_model(
                        added,
                    ));
                    changed = changed || set.changed;
                },
                RenderedText::Nothing => {},
                RenderedText::Failed => {
                    append_text_subtitles_debug(pts, overlay, &texts);
                    changed = true;
                },
            }
        }
        overlay.subtitle_changed = overlay.subtitle_changed || changed;
    }

    /// Draws the subtitles that are shown at a time over a frame, with plain boxes
    /// for text.
    pub fn append_to_overlay(&mut self, pts: Duration, overlay: &mut OverlayFrame)
        requires
            can_box(old(self).frames@, pts@, old(overlay).viewport),
        ensures
            final(self).frames@ == lasting(old(self).frames@, pts@),
            is_overlaid(
                *old(overlay),
                *final(overlay),
                old(self).frames@,
                pts@,
                RenderedText::Failed,
            ),
    {
        self.append_rendered(pts, overlay, RenderedText::Failed);
    }
}

fn copy_bytes(bytes: &Vec<u8>) -> (result: Vec<u8>)
    ensures
        result@ == bytes@,
{
    let mut result: Vec<u8> = Vec::new();
    let mut i: usize = 0;
    assert(bytes@.take(0) =~= Seq::<u8>::empty());
    while i < bytes.len()
        invariant
            i <= bytes@.len(),
            result@ == bytes@.take(i as int),
        decreases bytes@.len() - i,
    {
        result.push(bytes[i]);
        i += 1;
        assert(result@ =~= bytes@.take(i as int));
    }
    assert(bytes@.take(i as int) =~= bytes@);
    result
}

fn append_planes(planes: &Vec<SubtitleBitmapPlane>, into: &mut Vec<SubtitleBitmapPlane>)
    ensures
        planes_view(final(into)@) == planes_view(old(into)@) + planes_view(planes@),
{
    let mut i: usize = 0;
    let ghost before = planes_view(into@);
    let ghost all = planes_view(planes@);
    assert(before + all.take(0) =~= before);
    while i < planes.len()
        invariant
            i <= planes@.len(),
            all == planes_view(planes@),
            planes_view(into@) == before + all.take(i as int),
        decreases planes@.len() - i,
    {
        let plane: &SubtitleBitmapPlane = &planes[i];
        let ghost drawn = into@;
        let copy = SubtitleBitmapPlane {
            x: plane.x,
            y: plane.y,
            width: plane.width,
            height: plane.height,
            rgba: copy_bytes(&plane.rgba),
        };
        into.push(copy);
        assert(planes_view(into@) =~= planes_view(drawn).push(copy@));
        assert(copy@ == all[i as int]);
        i += 1;
        assert(planes_view(into@) =~= before + all.take(i as int));
    }
    assert(all.take(i as int) =~= all);
}

/// Draws plain boxes for the text of some subtitles.
pub fn append_text_subtitles_debug(
    pts: Duration,
    overlay: &mut OverlayFrame,
    frames: &Vec<&DecodedSubtitleFrame>,
)
    requires
        can_draw(
            active_of(sorted_cues(frames_cues(frames@, open_end(pts@))), pts@),
            at_least_one(old(overlay).viewport.width),
            at_least_one(old(overlay).viewport.height),
        ),
    ensures
        planes_view(final(overlay).subtitle_planes@) == planes_view(old(overlay).subtitle_planes@)
            + boxes_of(frames@, pts@, old(overlay).viewport.width, old(overlay).viewport.height),
        *final(overlay) == (OverlayFrame {
            subtitle_planes: final(overlay).subtitle_planes,
            ..*old(overlay)
        }),
{
    let fallback_end = pts.saturating_add(Duration::from_secs(86_400));
    let timeline = decoded_subtitle_frames_to_timeline(frames.as_slice(), fallback_end);
    let viewport = SubtitleViewport::new(overlay.viewport.width, overlay.viewport.height);
    let mut renderer = SubtitleRendererCore::new_debug(timeline);
    let mut planes = renderer.render(pts, viewport).frame.planes;
    let ghost before = overlay.subtitle_planes@;
    let ghost added = planes@;
    overlay.subtitle_planes.append(&mut planes);
    assert(planes_view(overlay.subtitle_planes@) =~= planes_view(before) + planes_view(added));
}

/// A subtitle is shown from its start on, and no longer at its end; one that shows
/// nothing is never shown.
pub proof fn law_subtitles_are_shown_from_start_to_end(frame: PlayerSubtitleFrame, pts: nat)
    requires
        !frame.is_blank(),
    ensures
        frame.start() matches Some(start) ==> pts < start ==> !frame.is_shown(pts),
        frame.frame.end matches Some(end) ==> pts >= end@ ==> !frame.is_shown(pts),
        (frame.start() matches Some(start) ==> start <= pts) && (frame.frame.end matches Some(end)
            ==> pts < end@) ==> frame.is_shown(pts),
        frame.frame.start matches Some(start) ==> frame.start() == Some(start@) && frame.place()
            == start@,
        frame.frame.start is None && frame.pts is None ==> frame.place() == frame.media_time@,
        frame.frame.start is None ==> (frame.pts matches Some(pts) ==> frame.start() == Some(pts@)),
{
}

/// Subtitles are kept, shown and drawn in their order, each for itself.
pub proof fn law_subtitles_keep_their_order(
    before: Seq<PlayerSubtitleFrame>,
    frame: PlayerSubtitleFrame,
    pts: nat,
    track_id: i64,
)
    ensures
        frame.is_shown(pts) ==> shown_at(before.push(frame), pts) == shown_at(before, pts).push(
            frame,
        ),
        !frame.is_shown(pts) ==> shown_at(before.push(frame), pts) == shown_at(before, pts),
        !frame.is_blank() && frame.lasts(pts) ==> lasting(before.push(frame), pts) == lasting(
            before,
            pts,
        ).push(frame),
        frame.is_blank() || !frame.lasts(pts) ==> lasting(before.push(frame), pts) == lasting(
            before,
            pts,
        ),
        frame.frame.track_id != track_id ==> of_other_tracks(before.push(frame), track_id)
            == of_other_tracks(before, track_id).push(frame),
        frame.frame.track_id == track_id ==> of_other_tracks(before.push(frame), track_id)
            == of_other_tracks(before, track_id),
        bitmaps_of(before.push(frame)) == bitmaps_of(before) + planes_view(
            frame.frame.bitmap.planes@,
        ),
        any_text(frame.frame.text@) ==> texts_of(before.push(frame)) == texts_of(before).push(
            &frame.frame,
        ),
        !any_text(frame.frame.text@) ==> texts_of(before.push(frame)) == texts_of(before),
        shown_at(Seq::empty(), pts).len() == 0,
        lasting(Seq::empty(), pts).len() == 0,
        bitmaps_of(Seq::empty()).len() == 0,
{
    assert(before.push(frame).drop_last() =~= before);
}

/// A subtitle without an end replaces those of its track; one with an end joins them,
/// as far as they still last.
pub proof fn law_open_subtitles_replace_their_track(
    frames: Seq<PlayerSubtitleFrame>,
    frame: PlayerSubtitleFrame,
)
    ensures
        !frame.is_blank() && frame.frame.end is None ==> joined(frames, frame) == stable_sort(
            of_other_tracks(lasting(frames, frame.place()), frame.frame.track_id).push(frame),
        ),
        !frame.is_blank() && frame.frame.end is Some ==> joined(frames, frame) == stable_sort(
            lasting(frames, frame.place()).push(frame),
        ),
{
}

/// What is drawn over a frame comes behind what is there already: first the pictures
/// of the subtitles that are shown, in their order, and then the text, as masks where
/// it could be rendered and as boxes where it could not.
pub proof fn law_subtitles_are_drawn_behind(
    before: OverlayFrame,
    after: OverlayFrame,
    frames: Seq<PlayerSubtitleFrame>,
    pts: nat,
    text: RenderedText,
)
    requires
        is_overlaid(before, after, frames, pts, text),
    ensures
        after.pts == before.pts,
        after.viewport == before.viewport,
        planes_view(after.subtitle_planes@).len() == before.subtitle_planes@.len() + bitmaps_of(
            shown_at(frames, pts),
        ).len() + boxes_drawn(frames, pts, before.viewport, text).len(),
        forall|i: int|
            0 <= i < before.subtitle_planes@.len() ==> #[trigger] planes_view(
                after.subtitle_planes@,
            )[i] == before.subtitle_planes@[i]@,
        forall|i: int|
            0 <= i < bitmaps_of(shown_at(frames, pts)).len() ==> planes_view(
                after.subtitle_planes@,
            )[before.subtitle_planes@.len() + i] == #[trigger] bitmaps_of(shown_at(frames, pts))[i],
        !(text is Failed) ==> planes_view(after.subtitle_planes@) == planes_view(
            before.subtitle_planes@,
        ) + bitmaps_of(shown_at(frames, pts)),
        text matches RenderedText::Masks(set) ==> texts_of(shown_at(frames, pts)).len() > 0
            ==> parts_model(after.subtitle_alpha_planes@) == parts_model(
            before.subtitle_alpha_planes@,
        ) + parts_model(set.parts@),
        texts_of(shown_at(frames, pts)).len() == 0 ==> parts_model(after.subtitle_alpha_planes@)
            == parts_model(before.subtitle_alpha_planes@),
{
}

} // verus!
