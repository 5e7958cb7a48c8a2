//! Texts of comments: how large they are, and where their glyphs go.
use crate::danmaku::atlas::{AtlasModel, PackedGlyph, PersistentGlyphAtlas, RasterizedGlyph};
use crate::danmaku::config::{SINGLE_FIFTH, SINGLE_THOUSAND};
use crate::danmaku::layout::{TextMeasure, SINGLE_1_2};
use crate::danmaku::model::DEFAULT_CONFIG_FONT_SIZE;
use crate::float_bits::{nearest_single, Single, SINGLE_ONE};
use vstd::prelude::*;

verus! {

broadcast use vstd::seq_lib::group_seq_properties;

/// The number 0.8.
pub const SINGLE_0_8: u32 = 0x3f4c_cccd;

/// The number 0.5.
pub const SINGLE_HALF: u32 = 0x3f00_0000;

// ---------------------------------------------------------------------------
// Measures
// ---------------------------------------------------------------------------

/// What a font tells of a character at a size. The kerning is that with the
/// character before it.
#[derive(Debug, Clone, Copy, PartialEq, Eq, Structural)]
pub struct FaceMetrics {
    pub font_id: u32,
    pub kern: Single,
    pub advance: Single,
    pub ascent: Single,
    pub descent: Single,
    pub line_gap: Single,
}

/// What is known of a character at a size: what its font tells, or an estimate
/// where no font has it.
#[derive(Debug, Clone, Copy, PartialEq, Eq, Structural)]
pub enum CharMetrics {
    Face(FaceMetrics),
    Estimate(TextMeasure),
}

/// How far characters reach, and the font of the last one.
#[derive(Debug, Clone, Copy, PartialEq, Eq, Structural)]
pub struct TextExtent {
    pub width: Single,
    pub ascent: Single,
    pub descent: Single,
    pub line_gap: Single,
    pub font_id: Option<u32>,
}

impl Single {
    /// The number without its sign.
    pub open spec fn magnitude(self) -> Single {
        Single { bits: self.bits % 0x8000_0000 }
    }

    /// Takes the sign off.
    pub fn unsigned(self) -> (result: Single)
        ensures
            result == self.magnitude(),
    {
        Single { bits: self.bits % 0x8000_0000 }
    }
}

impl TextExtent {
    /// The extent of no characters.
    pub open spec fn of_nothing() -> TextExtent {
        TextExtent {
            width: Single { bits: 0 },
            ascent: Single { bits: 0 },
            descent: Single { bits: 0 },
            line_gap: Single { bits: 0 },
            font_id: None,
        }
    }

    /// The extent with one more character. It is kerned only behind a character
    /// of the same font.
    pub open spec fn with(self, ch: CharMetrics, font_size: Single) -> TextExtent {
        match ch {
            CharMetrics::Face(face) => {
                let start = if self.font_id == Some(face.font_id) {
                    self.width.sum(face.kern)
                } else {
                    self.width
                };
                TextExtent {
                    width: start.sum(face.advance.greater(Single { bits: 0 })),
                    ascent: self.ascent.greater(face.ascent),
                    descent: self.descent.greater(face.descent.magnitude()),
                    line_gap: self.line_gap.greater(face.line_gap),
                    font_id: Some(face.font_id),
                }
            },
            CharMetrics::Estimate(estimate) => TextExtent {
                width: self.width.sum(
                    estimate.width.greater(font_size.product(Single { bits: SINGLE_HALF })),
                ),
                ascent: self.ascent.greater(estimate.ascent),
                descent: self.descent.greater(estimate.descent),
                line_gap: self.line_gap,
                font_id: None,
            },
        }
    }

    /// The size of a text of this extent: never less than the font size calls
    /// for.
    pub open spec fn measure(self, font_size: Single) -> TextMeasure {
        let ascent = self.ascent.greater(font_size.product(Single { bits: SINGLE_0_8 }));
        let descent = self.descent.greater(font_size.product(Single { bits: SINGLE_FIFTH }));
        TextMeasure {
            width: self.width.greater(Single { bits: SINGLE_ONE }),
            height: ascent.sum(descent).sum(self.line_gap).greater(
                font_size.product(Single { bits: SINGLE_1_2 }),
            ),
            ascent,
            descent,
        }
    }

    fn take(self, ch: CharMetrics, font_size: Single) -> (result: TextExtent)
        ensures
            result == self.with(ch, font_size),
    {
        match ch {
            CharMetrics::Face(face) => {
                let kerned = match self.font_id {
                    Some(font_id) => font_id == face.font_id,
                    None => false,
                };
                let start = if kerned {
                    self.width.plus(face.kern)
                } else {
                    self.width
                };
                TextExtent {
                    width: start.plus(face.advance.max_of(Single { bits: 0 })),
                    ascent: self.ascent.max_of(face.ascent),
                    descent: self.descent.max_of(face.descent.unsigned()),
                    line_gap: self.line_gap.max_of(face.line_gap),
                    font_id: Some(face.font_id),
                }
            },
            CharMetrics::Estimate(estimate) => TextExtent {
                width: self.width.plus(
                    estimate.width.max_of(font_size.times(Single { bits: SINGLE_HALF })),
                ),
                ascent: self.ascent.max_of(estimate.ascent),
                descent: self.descent.max_of(estimate.descent),
                line_gap: self.line_gap,
                font_id: None,
            },
        }
    }
}

/// How far characters reach.
pub open spec fn extent_of(chars: Seq<CharMetrics>, font_size: Single) -> TextExtent
    decreases chars.len(),
{
    if chars.len() == 0 {
        TextExtent::of_nothing()
    } else {
        extent_of(chars.drop_last(), font_size).with(chars.last(), font_size)
    }
}

/// Measures a text by its characters.
pub fn measure_with_fallback(chars: &[CharMetrics], font_size: Single) -> (result: TextMeasure)
    ensures
        result == extent_of(chars@, font_size).measure(font_size),
{
    let zero = Single { bits: 0 };
    let mut extent = TextExtent {
        width: zero,
        ascent: zero,
        descent: zero,
        line_gap: zero,
        font_id: None,
    };
    let mut i: usize = 0;
    assert(chars@.take(0) =~= Seq::<CharMetrics>::empty());
    while i < chars.len()
        invariant
            i <= chars@.len(),
            extent == extent_of(chars@.take(i as int), font_size),
        decreases chars@.len() - i,
    {
        assert(chars@.take(i as int + 1).drop_last() =~= chars@.take(i as int));
        extent = extent.take(chars[i], font_size);
        i += 1;
    }
    assert(chars@.take(i as int) =~= chars@);
    let ascent = extent.ascent.max_of(font_size.times(Single { bits: SINGLE_0_8 }));
    let descent = extent.descent.max_of(font_size.times(Single { bits: SINGLE_FIFTH }));
    TextMeasure {
        width: extent.width.max_of(Single { bits: SINGLE_ONE }),
        height: ascent.plus(descent).plus(extent.line_gap).max_of(
            font_size.times(Single { bits: SINGLE_1_2 }),
        ),
        ascent,
        descent,
    }
}

/// Takes an estimate for the size of a text, where there is no font: at least
/// one pixel in each direction.
pub fn measure_without_font(estimate: TextMeasure) -> (result: TextMeasure)
    ensures
        result == (TextMeasure {
            width: estimate.width.greater(Single { bits: SINGLE_ONE }),
            height: estimate.height.greater(Single { bits: SINGLE_ONE }),
            ..estimate
        }),
{
    TextMeasure {
        width: estimate.width.max_of(Single { bits: SINGLE_ONE }),
        height: estimate.height.max_of(Single { bits: SINGLE_ONE }),
        ascent: estimate.ascent,
        descent: estimate.descent,
    }
}

// ---------------------------------------------------------------------------
// Keys
// ---------------------------------------------------------------------------

/// What the glyphs of a text depend on.
#[derive(Debug, Clone, PartialEq, Eq)]
pub struct TextLayoutCacheKey {
    pub text: String,
    pub font_size_milli: u32,
    pub outline_radius: u16,
}

impl TextLayoutCacheKey {
    /// The key of a text: the size is taken to the nearest thousandth of a pixel,
    /// the outline to the next whole pixel and no more than sixteen.
    pub fn new(text: String, font_size: Single, outline_width: Single) -> (result: Self)
        ensures
            result.text@ == text@,
            result.font_size_milli == font_size.finite_or(
                Single { bits: DEFAULT_CONFIG_FONT_SIZE },
            ).raised_to(Single { bits: SINGLE_ONE }).product(
                Single { bits: SINGLE_THOUSAND },
            ).rounded(u32::MAX as nat),
            result.outline_radius == outline_width.finite_or(
                Single { bits: 0 },
            ).raised_to_whole(16),
    {
        let milli: u64 = font_size.or_if_not_finite(
            Single { bits: DEFAULT_CONFIG_FONT_SIZE },
        ).at_least(Single { bits: SINGLE_ONE }).times(Single { bits: SINGLE_THOUSAND }).round_to(
            0xffff_ffff,
        );
        let radius: u64 = outline_width.or_if_not_finite(Single { bits: 0 }).ceil_to(16);
        Self { text, font_size_milli: milli as u32, outline_radius: radius as u16 }
    }

    /// The font size of the text.
    pub fn font_size(&self) -> (result: Single)
        ensures
            result == (Single {
                bits: nearest_single(self.font_size_milli as nat, 0) as u32,
            }).quotient(Single { bits: SINGLE_THOUSAND }),
    {
        Single::from_whole(self.font_size_milli).over(Single { bits: SINGLE_THOUSAND })
    }

    /// The outline of the text.
    pub fn outline_width(&self) -> (result: Single)
        ensures
            result.bits == nearest_single(self.outline_radius as nat, 0),
    {
        Single::from_whole(self.outline_radius as u32)
    }
}

// ---------------------------------------------------------------------------
// Glyphs
// ---------------------------------------------------------------------------

/// A character of a text: its font, if one has it, its kerning with the
/// character before it, and its glyph.
#[derive(Debug, Clone, PartialEq, Eq)]
pub struct GlyphStep {
    pub font_id: Option<u32>,
    pub kern: Single,
    pub glyph: RasterizedGlyph,
}

/// A glyph of a text at its place, relative to the start of the text.
#[derive(Debug, Clone, Copy, PartialEq, Eq, Structural)]
pub struct PreparedGlyphPlacement {
    pub has_bitmap: bool,
    pub packed: PackedGlyph,
    pub pen_x: Single,
    pub offset_x: Single,
    pub offset_y: Single,
    pub width: u32,
    pub height: u32,
}

/// A text whose glyphs are at their places.
#[derive(Debug, Clone, PartialEq, Eq)]
pub struct PreparedTextLayout {
    pub metrics: TextMeasure,
    pub glyphs: Vec<PreparedGlyphPlacement>,
}

/// Where the last of some glyphs starts: behind the one before it, kerned where
/// both are of one font.
pub open spec fn last_pen(steps: Seq<GlyphStep>) -> Single
    decreases steps.len(), 0nat,
{
    if steps.len() == 0 {
        Single { bits: 0 }
    } else {
        let before = pen_behind(steps.drop_last());
        if steps.len() > 1 && steps.last().font_id is Some && steps[steps.len() - 2].font_id
            == steps.last().font_id {
            before.sum(steps.last().kern)
        } else {
            before
        }
    }
}

/// Where the pen is behind some glyphs.
pub open spec fn pen_behind(steps: Seq<GlyphStep>) -> Single
    decreases steps.len(), 1nat,
{
    if steps.len() == 0 {
        Single { bits: 0 }
    } else {
        last_pen(steps).sum(steps.last().glyph.advance)
    }
}

/// An atlas after the glyphs of a text were packed. A glyph without pixels is
/// not packed, and one that is packed already stays where it is.
pub open spec fn atlas_with(atlas: AtlasModel, steps: Seq<GlyphStep>) -> AtlasModel
    decreases steps.len(),
{
    if steps.len() == 0 {
        atlas
    } else {
        let before = atlas_with(atlas, steps.drop_last());
        let glyph = steps.last().glyph;
        if !glyph.is_drawn() || before.packed.contains_key(glyph.key.code()) {
            before
        } else {
            before.with_glyph(glyph)
        }
    }
}

/// Whether an atlas has room for the glyphs of a text, one after the other.
pub open spec fn has_room_for_text(atlas: AtlasModel, steps: Seq<GlyphStep>) -> bool
    decreases steps.len(),
{
    steps.len() == 0 || {
        let before = atlas_with(atlas, steps.drop_last());
        let glyph = steps.last().glyph;
        &&& has_room_for_text(atlas, steps.drop_last())
        &&& glyph.is_drawn() && !before.packed.contains_key(glyph.key.code())
            ==> before.has_room_for(glyph.width, glyph.height)
    }
}

/// The rows that glyphs may take in an atlas.
pub open spec fn total_height(steps: Seq<GlyphStep>) -> nat
    decreases steps.len(),
{
    if steps.len() == 0 {
        0
    } else {
        total_height(steps.drop_last()) + steps.last().glyph.height as nat
    }
}

/// Whether a placement is that of the last of some glyphs.
pub open spec fn places_last(
    placement: PreparedGlyphPlacement,
    steps: Seq<GlyphStep>,
    atlas: AtlasModel,
) -> bool {
    let glyph = steps.last().glyph;
    &&& placement.has_bitmap == glyph.is_drawn()
    &&& placement.pen_x == last_pen(steps)
    &&& placement.offset_x == glyph.offset_x
    &&& placement.offset_y == glyph.offset_y
    &&& placement.width == glyph.width
    &&& placement.height == glyph.height
    &&& if glyph.is_drawn() {
        placement.packed == atlas_with(atlas, steps).packed[glyph.key.code()]
    } else {
        placement.packed == (PackedGlyph { x: 0, y: 0, width: 0, height: 0 })
    }
}

/// Puts the glyphs of a text at their places, and packs them.
pub fn build_text_layout(
    metrics: TextMeasure,
    steps: &[GlyphStep],
    atlas: &mut PersistentGlyphAtlas,
) -> (result: PreparedTextLayout)
    requires
        old(atlas).wf(),
        has_room_for_text(old(atlas)@, steps@),
        forall|i: int|
            0 <= i < steps@.len() ==> ((#[trigger] steps@[i]).glyph.is_drawn()
                ==> steps@[i].glyph.has_rows()),
    ensures
        final(atlas).wf(),
        final(atlas)@ == atlas_with(old(atlas)@, steps@),
        result.metrics == metrics,
        result.glyphs@.len() == steps@.len(),
        forall|i: int|
            0 <= i < steps@.len() ==> places_last(
                #[trigger] result.glyphs@[i],
                steps@.take(i + 1),
                old(atlas)@,
            ),
{
    let mut glyphs: Vec<PreparedGlyphPlacement> = Vec::new();
    let mut pen = Single { bits: 0 };
    let mut previous: Option<u32> = None;
    let mut i: usize = 0;
    let ghost start = atlas@;
    assert(steps@.take(0) =~= Seq::<GlyphStep>::empty());
    while i < steps.len()
        invariant
            i <= steps@.len(),
            atlas.wf(),
            atlas@ == atlas_with(start, steps@.take(i as int)),
            has_room_for_text(start, steps@),
            forall|k: int|
                0 <= k < steps@.len() ==> ((#[trigger] steps@[k]).glyph.is_drawn()
                    ==> steps@[k].glyph.has_rows()),
            pen == pen_behind(steps@.take(i as int)),
            previous == (if i == 0 {
                None
            } else {
                steps@[i - 1].font_id
            }),
            glyphs@.len() == i,
            forall|k: int|
                0 <= k < i ==> places_last(#[trigger] glyphs@[k], steps@.take(k + 1), start),
        decreases steps@.len() - i,
    {
        let step: &GlyphStep = &steps[i];
        let ghost taken = steps@.take(i as int + 1);
        proof {
            assert(taken.drop_last() =~= steps@.take(i as int));
            assert(taken.last() == *step);
            lemma_room_for_start(start, steps@, i as int + 1);
        }
        let kerned = match (previous, step.font_id) {
            (Some(before), Some(font_id)) => before == font_id,
            _ => false,
        };
        if kerned {
            pen = pen.plus(step.kern);
        }
        assert(i > 0 ==> taken[taken.len() - 2] == steps@[i - 1]);
        assert(pen == last_pen(taken));
        let drawn = step.glyph.has_bitmap();
        let packed = if drawn {
            assert(steps@[i as int].glyph.has_rows());
            atlas.pack(&step.glyph)
        } else {
            PackedGlyph { x: 0, y: 0, width: 0, height: 0 }
        };
        glyphs.push(
            PreparedGlyphPlacement {
                has_bitmap: drawn,
                packed,
                pen_x: pen,
                offset_x: step.glyph.offset_x,
                offset_y: step.glyph.offset_y,
                width: step.glyph.width,
                height: step.glyph.height,
            },
        );
        assert(places_last(glyphs@[i as int], taken, start));
        pen = pen.plus(step.glyph.advance);
        previous = step.font_id;
        i += 1;
    }
    assert(steps@.take(i as int) =~= steps@);
    PreparedTextLayout { metrics, glyphs }
}

/// An atlas with room for a text has room for its start.
proof fn lemma_room_for_start(atlas: AtlasModel, steps: Seq<GlyphStep>, n: int)
    requires
        0 <= n <= steps.len(),
        has_room_for_text(atlas, steps),
    ensures
        has_room_for_text(atlas, steps.take(n)),
    decreases steps.len(),
{
    if n == steps.len() {
        assert(steps.take(n) =~= steps);
    } else {
        lemma_room_for_start(atlas, steps.drop_last(), n);
        assert(steps.drop_last().take(n) =~= steps.take(n));
    }
}

/// Packing the glyphs of a text takes no more rows than they are high.
proof fn lemma_rows_left(atlas: AtlasModel, steps: Seq<GlyphStep>, more: nat)
    requires
        atlas.height > 0,
        atlas.cursor_y + atlas.row_height <= atlas.height,
        atlas.has_rows_left(total_height(steps) + more),
    ensures
        has_room_for_text(atlas, steps),
        atlas_with(atlas, steps).has_rows_left(more),
        atlas_with(atlas, steps).height > 0,
        atlas_with(atlas, steps).cursor_y + atlas_with(atlas, steps).row_height <= atlas_with(
            atlas,
            steps,
        ).height,
    decreases steps.len(),
{
    if steps.len() > 0 {
        let height = steps.last().glyph.height as nat;
        lemma_rows_left(atlas, steps.drop_last(), height + more);
        let before = atlas_with(atlas, steps.drop_last());
        crate::danmaku::atlas::lemma_rows_taken(before, steps.last().glyph, more);
    }
}

/// An atlas with as many rows left as the glyphs of a text are high has room for
/// the text.
pub proof fn law_text_takes_no_more_than_its_rows(atlas: AtlasModel, steps: Seq<GlyphStep>)
    requires
        atlas.is_sound(),
        atlas.has_rows_left(total_height(steps)),
    ensures
        has_room_for_text(atlas, steps),
{
    lemma_rows_left(atlas, steps, 0);
}

impl PreparedTextLayout {
    /// A copy.
    pub fn duplicate(&self) -> (result: Self)
        ensures
            result.metrics == self.metrics,
            result.glyphs@ == self.glyphs@,
    {
        let mut glyphs: Vec<PreparedGlyphPlacement> = Vec::new();
        let mut i: usize = 0;
        while i < self.glyphs.len()
            invariant
                i <= self.glyphs@.len(),
                glyphs@ =~= self.glyphs@.take(i as int),
            decreases self.glyphs@.len() - i,
        {
            glyphs.push(self.glyphs[i]);
            i += 1;
        }
        Self { metrics: self.metrics, glyphs }
    }
}

/// A text grows with each character: by its advance, and by the kerning where the
/// character before has the same face. It is as high as its highest characters.
pub proof fn law_texts_grow_with_each_character(
    before: Seq<CharMetrics>,
    face: FaceMetrics,
    font_size: Single,
)
    ensures
        ({
            let shorter = extent_of(before, font_size);
            let longer = extent_of(before.push(CharMetrics::Face(face)), font_size);
            let advance = face.advance.greater((Single { bits: 0 }));
            &&& shorter.font_id == Some(face.font_id) ==> longer.width == shorter.width.sum(
                face.kern,
            ).sum(advance)
            &&& shorter.font_id != Some(face.font_id) ==> longer.width == shorter.width.sum(
                advance,
            )
            &&& longer.font_id == Some(face.font_id)
            &&& !shorter.ascent.is_nan() ==> longer.ascent.rank() >= shorter.ascent.rank()
            &&& !face.ascent.is_nan() ==> longer.ascent.rank() >= face.ascent.rank()
            &&& !shorter.descent.is_nan() ==> longer.descent.rank() >= shorter.descent.rank()
        }),
        extent_of(Seq::empty(), font_size).width.bits == 0,
{
    assert(before.push(CharMetrics::Face(face)).drop_last() =~= before);
}

/// The pen moves on by the advance of each glyph; before a glyph of the same font it is
/// moved by their kerning.
pub proof fn law_pen_moves_with_each_glyph(before: Seq<GlyphStep>, step: GlyphStep)
    ensures
        last_pen(seq![step]).bits == 0,
        pen_behind(before.push(step)) == last_pen(before.push(step)).sum(step.glyph.advance),
        before.len() > 0 && step.font_id is Some && before.last().font_id == step.font_id
            ==> last_pen(before.push(step)) == pen_behind(before).sum(step.kern),
        before.len() > 0 && (step.font_id is None || before.last().font_id != step.font_id)
            ==> last_pen(before.push(step)) == pen_behind(before),
{
    assert(before.push(step).drop_last() =~= before);
    assert(seq![step].drop_last() =~= Seq::<GlyphStep>::empty());
    assert(pen_behind(Seq::<GlyphStep>::empty()).bits == 0);
}

/// A glyph that is placed has the size, the offsets and the pen of its step, and its
/// place in the atlas.
pub proof fn law_placed_glyphs_are_their_steps(
    placement: PreparedGlyphPlacement,
    before: Seq<GlyphStep>,
    step: GlyphStep,
    atlas: AtlasModel,
)
    requires
        places_last(placement, before.push(step), atlas),
    ensures
        placement.pen_x == last_pen(before.push(step)),
        placement.offset_x == step.glyph.offset_x,
        placement.offset_y == step.glyph.offset_y,
        placement.width == step.glyph.width,
        placement.height == step.glyph.height,
        placement.has_bitmap <==> step.glyph.is_drawn(),
        step.glyph.is_drawn() ==> placement.packed == atlas_with(atlas, before.push(step)).packed[
            step.glyph.key.code()
        ],
{
}

} // verus!
