//! Subtitle cues in time.
use crate::num::{to_wrapped_i32, wrap_i32};
use crate::order::{
    gather, keys_of, law_stable_order, law_stable_order_keeps_items, sort_by_time, stable_order,
    stable_sort, Timed,
};
use crate::subtitle::bitmap::{
    planes_view, FrameModel, PlaneModel, SubtitleBitmapPlane, SubtitleFrame,
};
use crate::time::Duration;
use vstd::prelude::*;

verus! {

broadcast use vstd::seq_lib::group_seq_properties;

/// A text that is shown for a while.
#[derive(Debug, Clone, PartialEq, Eq)]
pub struct SubtitleCue {
    pub start: Duration,
    pub end: Duration,
    pub text: String,
}

/// A cue, with its times in nanoseconds.
pub struct CueModel {
    pub start: nat,
    pub end: nat,
    pub text: Seq<char>,
}

impl View for SubtitleCue {
    type V = CueModel;

    open spec fn view(&self) -> CueModel {
        CueModel { start: self.start@, end: self.end@, text: self.text@ }
    }
}

impl CueModel {
    /// Whether the cue is shown at a time.
    pub open spec fn is_active(self, pts: nat) -> bool {
        self.start <= pts < self.end
    }
}

impl Timed for SubtitleCue {
    open spec fn key(&self) -> nat {
        self.start@
    }

    fn key_nanos(&self) -> (result: u128) {
        self.start.as_nanos()
    }
}

impl SubtitleCue {
    /// Another cue with the same times and text.
    pub fn duplicate(&self) -> (result: Self)
        ensures
            result@ == self@,
    {
        SubtitleCue { start: self.start, end: self.end, text: self.text.clone() }
    }

    /// Whether two cues have the same times and text.
    pub fn same_as(&self, other: &SubtitleCue) -> (result: bool)
        ensures
            result <==> self@ == other@,
    {
        self.start.same_as(other.start) && self.end.same_as(other.end) && self.text == other.text
    }
}

/// The models of cues.
pub open spec fn cues_view(cues: Seq<SubtitleCue>) -> Seq<CueModel> {
    Seq::new(cues.len(), |i: int| cues[i]@)
}

/// The start times of cues.
pub open spec fn starts_of(cues: Seq<CueModel>) -> Seq<nat> {
    Seq::new(cues.len(), |i: int| cues[i].start)
}

/// The cues in the order of their start times; cues that start together keep
/// their order.
pub open spec fn sorted_cues(cues: Seq<CueModel>) -> Seq<CueModel> {
    gather(cues, stable_order(starts_of(cues)))
}

/// The cues that are shown at a time, in their order.
pub open spec fn active_of(cues: Seq<CueModel>, pts: nat) -> Seq<CueModel>
    decreases cues.len(),
{
    if cues.len() == 0 {
        Seq::empty()
    } else if cues.last().is_active(pts) {
        active_of(cues.drop_last(), pts).push(cues.last())
    } else {
        active_of(cues.drop_last(), pts)
    }
}

/// The cues in the order of their start times ascend in time, and are those before,
/// each as often.
pub proof fn law_sorted_cues_ascend(cues: Seq<CueModel>)
    ensures
        sorted_cues(cues).len() == cues.len(),
        sorted_cues(cues).to_multiset() == cues.to_multiset(),
        forall|i: int, j: int|
            0 <= i < j < cues.len() ==> (#[trigger] sorted_cues(cues)[i]).start <= (
            #[trigger] sorted_cues(cues)[j]).start,
        forall|i: int| 0 <= i < cues.len() ==> cues.contains(#[trigger] sorted_cues(cues)[i]),
{
    let keys = starts_of(cues);
    let order = stable_order(keys);
    law_stable_order(keys);
    law_stable_order_keeps_items(cues, keys);
    assert forall|i: int, j: int| 0 <= i < j < cues.len() implies (#[trigger] sorted_cues(
        cues,
    )[i]).start <= (#[trigger] sorted_cues(cues)[j]).start by {
        assert(crate::order::comes_first(keys, order[i], order[j]));
        assert(0 <= order[i] < keys.len() && 0 <= order[j] < keys.len());
    }
    assert forall|i: int| 0 <= i < cues.len() implies cues.contains(
        #[trigger] sorted_cues(cues)[i],
    ) by {
        assert(0 <= order[i] < keys.len());
        assert(cues[order[i]] == sorted_cues(cues)[i]);
    }
}

/// A cue is among those that are shown just where its window holds the time.
pub proof fn law_active_cues(cues: Seq<CueModel>, pts: nat, cue: CueModel)
    ensures
        active_of(cues, pts).contains(cue) <==> cues.contains(cue) && cue.is_active(pts),
    decreases cues.len(),
{
    if cues.len() > 0 {
        law_active_cues(cues.drop_last(), pts, cue);
        let rest = active_of(cues.drop_last(), pts);
        let last = cues.last();
        if cues.contains(cue) {
            let k = choose|k: int| 0 <= k < cues.len() && cues[k] == cue;
            if k < cues.len() - 1 {
                assert(cues.drop_last()[k] == cue);
            }
        }
        if cues.drop_last().contains(cue) {
            let k = choose|k: int| 0 <= k < cues.len() - 1 && cues.drop_last()[k] == cue;
            assert(cues[k] == cue);
        }
        if last.is_active(pts) {
            let all = rest.push(last);
            if all.contains(cue) {
                let k = choose|k: int| 0 <= k < all.len() && all[k] == cue;
                if k < rest.len() {
                    assert(rest[k] == cue);
                }
            }
            if rest.contains(cue) {
                let k = choose|k: int| 0 <= k < rest.len() && rest[k] == cue;
                assert(all[k] == cue);
            }
            assert(all[all.len() - 1] == last);
        }
        if cue == last {
            assert(cues[cues.len() - 1] == cue);
        }
    }
}

// ---------------------------------------------------------------------------
// Timelines
// ---------------------------------------------------------------------------

/// The size of a plane that stands for a cue.
pub open spec fn debug_plane_width(text_len: nat, width: u32) -> nat {
    let chars = text_len % 0x1_0000_0000;
    let wanted: nat = if chars * 10 > u32::MAX {
        u32::MAX as nat
    } else if chars * 10 < 16 {
        16
    } else {
        chars * 10
    };
    let most: nat = if width == 0 {
        1
    } else {
        width as nat
    };
    if most < wanted {
        most
    } else {
        wanted
    }
}

/// The height of a plane that stands for a cue.
pub open spec fn debug_plane_height(height: u32) -> nat {
    if height == 0 {
        1
    } else if height < 28 {
        height as nat
    } else {
        28
    }
}

/// A half-opaque white plane, row by row.
pub open spec fn debug_rgba(width: nat, height: nat) -> Seq<u8> {
    Seq::new(
        width * height * 4,
        |i: int|
            if i % 4 == 3 {
                220u8
            } else {
                255u8
            },
    )
}

/// The plane that stands for the cue at an index: centred, above a margin and
/// above the planes before it.
pub open spec fn debug_plane(text_len: nat, index: nat, width: u32, height: u32) -> PlaneModel {
    let plane_width = debug_plane_width(text_len, width);
    let plane_height = debug_plane_height(height);
    let stack: nat = if plane_height * (index + 1) > u32::MAX {
        u32::MAX as nat
    } else {
        plane_height * (index + 1)
    };
    let below = stack + 24;
    PlaneModel {
        x: (if width < plane_width { 0 } else { (width - plane_width) / 2 }) as i32,
        y: wrap_i32(if height < below { 0 } else { (height - below) as nat }),
        width: plane_width as u32,
        height: plane_height as u32,
        rgba: debug_rgba(plane_width, plane_height),
    }
}

/// The planes that stand for cues.
pub open spec fn debug_planes(cues: Seq<CueModel>, width: u32, height: u32) -> Seq<PlaneModel> {
    Seq::new(cues.len(), |i: int| debug_plane(cues[i].text.len(), i as nat, width, height))
}

/// Whether planes for cues can be drawn: the cues can be numbered, and the pixels of
/// each plane counted.
pub open spec fn can_draw(cues: Seq<CueModel>, width: u32, height: u32) -> bool {
    &&& cues.len() <= u32::MAX
    &&& forall|i: int|
        0 <= i < cues.len() ==> debug_plane_width((#[trigger] cues[i]).text.len(), width)
            * debug_plane_height(height) * 4 <= usize::MAX
}

/// On a screen of which a few rows can be counted, planes for cues can be drawn.
pub proof fn law_planes_fit_narrow_screens(cues: Seq<CueModel>, width: u32, height: u32)
    requires
        cues.len() <= u32::MAX,
        width * 28 * 4 <= usize::MAX,
    ensures
        can_draw(cues, width, height),
{
    assert forall|i: int| 0 <= i < cues.len() implies debug_plane_width(
        (#[trigger] cues[i]).text.len(),
        width,
    ) * debug_plane_height(height) * 4 <= usize::MAX by {
        let wide = debug_plane_width(cues[i].text.len(), width);
        let high = debug_plane_height(height);
        assert(wide * high * 4 <= width * 28 * 4 || wide * high * 4 <= 28 * 4) by (nonlinear_arith)
            requires
                0 <= high <= 28,
                wide <= width || wide <= 1,
        ;
    }
}

/// A half-opaque white plane.
fn debug_rgba_plane(width: u32, height: u32) -> (result: Vec<u8>)
    requires
        width * height * 4 <= usize::MAX,
    ensures
        result@ == debug_rgba(width as nat, height as nat),
{
    let mut rgba: Vec<u8> = Vec::new();
    assert(width * height >= 0) by (nonlinear_arith)
        requires
            width >= 0,
            height >= 0,
    ;
    let pixels: usize = width as usize * height as usize;
    let mut i: usize = 0;
    let ghost whole = debug_rgba(width as nat, height as nat);
    assert(rgba@ =~= whole.take(0));
    while i < pixels
        invariant
            i <= pixels,
            pixels == width * height,
            whole == debug_rgba(width as nat, height as nat),
            whole.len() == pixels * 4,
            rgba@ == whole.take(i * 4),
        decreases pixels - i,
    {
        rgba.push(255);
        rgba.push(255);
        rgba.push(255);
        rgba.push(220);
        i += 1;
        assert(rgba@ =~= whole.take(i * 4));
    }
    assert(whole.take(i * 4) =~= whole);
    rgba
}

/// Cues in the order of their start times.
#[derive(Debug, Clone)]
pub struct SubtitleTimeline {
    cues: Vec<SubtitleCue>,
}

impl View for SubtitleTimeline {
    type V = Seq<CueModel>;

    closed spec fn view(&self) -> Seq<CueModel> {
        cues_view(self.cues@)
    }
}

impl Default for SubtitleTimeline {
    fn default() -> (result: Self)
        ensures
            result@ == Seq::<CueModel>::empty(),
    {
        let result = SubtitleTimeline { cues: Vec::new() };
        assert(result@ =~= Seq::<CueModel>::empty());
        result
    }
}

impl SubtitleTimeline {
    /// Puts cues into the order of their start times.
    pub fn new(cues: Vec<SubtitleCue>) -> (result: Self)
        ensures
            result@ == sorted_cues(cues_view(cues@)),
    {
        proof {
            law_stable_order(keys_of(cues@));
            assert(keys_of(cues@) =~= starts_of(cues_view(cues@)));
            assert(cues_view(stable_sort(cues@)) =~= sorted_cues(cues_view(cues@))) by {
                let order = stable_order(keys_of(cues@));
                assert(forall|i: int|
                    0 <= i < order.len() ==> 0 <= #[trigger] order[i] < cues@.len());
            }
        }
        SubtitleTimeline { cues: sort_by_time(cues) }
    }

    /// The cues.
    pub fn cues(&self) -> (result: &[SubtitleCue])
        ensures
            cues_view(result@) == self@,
    {
        self.cues.as_slice()
    }

    /// The cues that are shown at a time.
    pub fn active_cues(&self, pts: Duration) -> (result: Vec<&SubtitleCue>)
        ensures
            result@.len() == active_of(self@, pts@).len(),
            forall|i: int|
                0 <= i < result@.len() ==> (#[trigger] result@[i])@ == active_of(self@, pts@)[i],
            result@.len() <= self@.len(),
    {
        let mut result: Vec<&SubtitleCue> = Vec::new();
        let mut i: usize = 0;
        while i < self.cues.len()
            invariant
                i <= self.cues@.len(),
                result@.len() == active_of(self@.take(i as int), pts@).len(),
                forall|k: int|
                    0 <= k < result@.len() ==> (#[trigger] result@[k])@ == active_of(
                        self@.take(i as int),
                        pts@,
                    )[k],
                result@.len() <= i,
            decreases self.cues@.len() - i,
        {
            let cue: &SubtitleCue = &self.cues[i];
            assert(self@.take(i as int + 1).drop_last() =~= self@.take(i as int));
            assert(self@.take(i as int + 1).last() == cue@);
            if !pts.is_before(cue.start) && pts.is_before(cue.end) {
                result.push(cue);
            }
            i += 1;
        }
        assert(self@.take(i as int) =~= self@);
        result
    }

    /// Draws a plane for each cue that is shown at a time.
    pub fn render_debug_frame(&self, pts: Duration, width: u32, height: u32) -> (result: SubtitleFrame)
        requires
            can_draw(active_of(self@, pts@), width, height),
        ensures
            result@ == (FrameModel {
                pts: pts@,
                planes: debug_planes(active_of(self@, pts@), width, height),
            }),
    {
        let active = self.active_cues(pts);
        let mut planes: Vec<SubtitleBitmapPlane> = Vec::new();
        let ghost cues = active_of(self@, pts@);
        let most_width: u32 = if width == 0 {
            1
        } else {
            width
        };
        let plane_height: u32 = if height == 0 {
            1
        } else if height < 28 {
            height
        } else {
            28
        };
        let mut i: usize = 0;
        assert(planes_view(planes@) =~= debug_planes(cues, width, height).take(0));
        while i < active.len()
            invariant
                i <= active@.len(),
                active@.len() == cues.len(),
                can_draw(cues, width, height),
                most_width == if width == 0 { 1u32 } else { width },
                plane_height == debug_plane_height(height),
                forall|k: int| 0 <= k < active@.len() ==> (#[trigger] active@[k])@ == cues[k],
                planes_view(planes@) == debug_planes(cues, width, height).take(i as int),
            decreases active@.len() - i,
        {
            let cue: &SubtitleCue = active[i];
            let count: usize = crate::text::chars_of(&cue.text).len();
            let chars: u64 = (count as u64) % 0x1_0000_0000;
            let wanted: u64 = if chars * 10 > 0xffff_ffff {
                0xffff_ffff
            } else if chars * 10 < 16 {
                16
            } else {
                chars * 10
            };
            let plane_width: u32 = if (most_width as u64) < wanted {
                most_width
            } else {
                wanted as u32
            };
            let x: i32 = if width < plane_width {
                0
            } else {
                ((width - plane_width) / 2) as i32
            };
            assert(plane_height * (i + 1) <= 28 * 0x1_0000_0000 && plane_height * (i + 1) >= 0)
                by (nonlinear_arith)
                requires
                    0 <= plane_height <= 28,
                    0 <= i <= u32::MAX,
            ;
            let tall: u64 = plane_height as u64 * (i as u64 + 1);
            let stack: u64 = if tall > 0xffff_ffff {
                0xffff_ffff
            } else {
                tall
            };
            let below: u64 = stack + 24;
            let y: i32 = to_wrapped_i32(
                if (height as u64) < below {
                    0
                } else {
                    (height as u64 - below) as u32
                },
            );
            assert(cue@ == cues[i as int]);
            let plane = SubtitleBitmapPlane {
                x,
                y,
                width: plane_width,
                height: plane_height,
                rgba: debug_rgba_plane(plane_width, plane_height),
            };
            proof {
                assert(plane@ == debug_planes(cues, width, height)[i as int]);
            }
            let ghost before = planes_view(planes@);
            planes.push(plane);
            i += 1;
            assert(planes_view(planes@) =~= before.push(plane@));
            assert(planes_view(planes@) =~= debug_planes(cues, width, height).take(i as int));
        }
        assert(debug_planes(cues, width, height).take(i as int) =~= debug_planes(
            cues,
            width,
            height,
        ));
        SubtitleFrame { pts, planes }
    }
}

/// A cue is shown from its start on, and no longer at its end.
pub proof fn law_cues_are_shown_from_start_to_end(cue: CueModel, pts: nat)
    ensures
        pts < cue.start ==> !cue.is_active(pts),
        pts >= cue.end ==> !cue.is_active(pts),
        cue.start < cue.end ==> cue.is_active(cue.start),
        !cue.is_active(cue.end),
        cue.start <= pts && pts < cue.end ==> cue.is_active(pts),
{
}

/// The cues that are shown keep their order.
pub proof fn law_shown_cues_keep_their_order(
    before: Seq<CueModel>,
    cue: CueModel,
    behind: Seq<CueModel>,
    pts: nat,
)
    ensures
        active_of(before + behind, pts) == active_of(before, pts) + active_of(behind, pts),
        cue.is_active(pts) ==> active_of(seq![cue], pts) == seq![cue],
        !cue.is_active(pts) ==> active_of(seq![cue], pts).len() == 0,
    decreases behind.len(),
{
    let one = seq![cue];
    assert(one.drop_last() =~= Seq::<CueModel>::empty());
    assert(active_of(one.drop_last(), pts) =~= Seq::<CueModel>::empty());
    assert(Seq::<CueModel>::empty().push(cue) =~= one);
    if behind.len() == 0 {
        assert(before + behind =~= before);
        assert(active_of(before, pts) + active_of(behind, pts) =~= active_of(before, pts));
    } else {
        law_shown_cues_keep_their_order(before, cue, behind.drop_last(), pts);
        assert((before + behind).drop_last() =~= before + behind.drop_last());
        assert((before + behind).last() == behind.last());
        assert(active_of(before + behind, pts) =~= active_of(before, pts) + active_of(behind, pts));
    }
}

/// The boxes of a debug frame stand in the middle of the screen, inside it, and one
/// above the other, the first at the bottom; each pixel is white and nearly opaque.
pub proof fn law_debug_boxes_are_stacked(
    text_len: nat,
    other_len: nat,
    index: nat,
    width: u32,
    height: u32,
    pixel: int,
)
    requires
        width > 0,
        height >= 28,
        28 * (index + 2) + 24 <= height,
        height <= i32::MAX,
        width <= i32::MAX,
    ensures
        ({
            let plane = debug_plane(text_len, index, width, height);
            let above = debug_plane(other_len, index + 1, width, height);
            &&& plane.height == 28
            &&& 0 < plane.width <= width
            &&& plane.x == (width - plane.width) / 2
            &&& above.y + above.height == plane.y
            &&& plane.y + plane.height <= height
            &&& index == 0 ==> plane.y + plane.height + 24 == height
            &&& text_len * 10 <= width && 16 <= text_len * 10 <= u32::MAX ==> plane.width
                == text_len * 10
            &&& plane.rgba.len() == plane.width * plane.height * 4
            &&& 0 <= 4 * pixel && 4 * pixel + 3 < plane.rgba.len() ==> plane.rgba.subrange(
                4 * pixel,
                4 * pixel + 4,
            ) == seq![255u8, 255u8, 255u8, 220u8]
        }),
{
    let plane = debug_plane(text_len, index, width, height);
    assert(28 * (index + 1) + 28 == 28 * (index + 2));
    assert(plane.rgba.len() == plane.width * plane.height * 4);
    if 0 <= 4 * pixel && 4 * pixel + 3 < plane.rgba.len() {
        assert(plane.rgba.subrange(4 * pixel, 4 * pixel + 4) =~= seq![255u8, 255u8, 255u8, 220u8]);
    }
}

} // verus!
