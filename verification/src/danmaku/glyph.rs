//! Drawing glyphs: the masks of a character, from what a font tells of it.
use crate::danmaku::atlas::{
    box_byte, fallback_mask, is_dilation, mask_covers, outline_of, plot_coverage, plotted,
    GlyphCacheKey, RasterizedGlyph,
};
use crate::danmaku::config::SINGLE_THOUSAND;
use crate::danmaku::layout::TextMeasure;
use crate::danmaku::text::SINGLE_HALF;
use crate::float_bits::{nearest_single, Single};
use crate::float_sum::nearest_signed;
use crate::text::{char_is_space, is_space};
use vstd::prelude::*;

verus! {

broadcast use vstd::seq_lib::group_seq_properties;

/// The number 0.35.
pub const SINGLE_0_35: u32 = 0x3eb3_3333;

/// The outline of a glyph: its bounds, and how much of each pixel it covers,
/// counted from the upper left corner of the bounds.
#[derive(Debug, Clone, PartialEq, Eq)]
pub struct GlyphOutline {
    pub min_x: Single,
    pub min_y: Single,
    pub width: Single,
    pub height: Single,
    pub coverage: Vec<(u32, u32, Single)>,
}

impl GlyphCacheKey {
    /// The font size of the glyph.
    pub open spec fn size(self) -> Single {
        Single { bits: nearest_single(self.font_size_milli as nat, 0) as u32 }.quotient(
            Single { bits: SINGLE_THOUSAND },
        )
    }

    /// The margin around the glyph, which its outline needs.
    pub open spec fn margin(self) -> int {
        self.outline_radius + 2
    }
}

/// The size of a mask in one direction: that of the bounds, with a margin on
/// both sides, and at least one pixel.
pub open spec fn mask_size(extent: Single, margin: int) -> int {
    if extent.raised_signed() + 2 * margin < 1 {
        1
    } else {
        extent.raised_signed() + 2 * margin
    }
}

/// An empty mask with the coverage of some pixels added.
pub open spec fn covered(
    width: u32,
    height: u32,
    margin: int,
    coverage: Seq<(u32, u32, Single)>,
) -> Seq<u8>
    decreases coverage.len(),
{
    if coverage.len() == 0 {
        Seq::new((width * height) as nat, |i: int| 0u8)
    } else {
        let (x, y, part) = coverage.last();
        plotted(
            covered(width, height, margin, coverage.drop_last()),
            width,
            height,
            margin,
            x as int,
            y as int,
            part,
        )
    }
}

/// Whether a mask is the outline of another: the same without an outline, else
/// the other one dilated.
pub open spec fn outlines(outline: Seq<u8>, fill: Seq<u8>, width: int, height: int, radius: u16) -> bool {
    &&& radius == 0 ==> outline == fill
    &&& radius > 0 ==> is_dilation(outline, fill, width, height, width, radius as int)
}

/// Whether a glyph has no pixels and the given advance.
pub open spec fn is_blank(glyph: RasterizedGlyph, key: GlyphCacheKey, advance: Single) -> bool {
    &&& glyph.key == key
    &&& glyph.width == 0 && glyph.height == 0 && glyph.stride == 0
    &&& glyph.fill_alpha@.len() == 0 && glyph.outline_alpha@.len() == 0
    &&& glyph.offset_x.bits == 0 && glyph.offset_y.bits == 0
    &&& glyph.advance == advance
}

fn zero_mask(width: u32, height: u32) -> (result: Vec<u8>)
    requires
        width * height <= usize::MAX,
    ensures
        result@ == Seq::new((width * height) as nat, |i: int| 0u8),
{
    assert(0 <= width * height) by (nonlinear_arith)
        requires
            0 <= width,
            0 <= height,
    ;
    let len: usize = width as usize * height as usize;
    let mut mask: Vec<u8> = Vec::new();
    while mask.len() < len
        invariant
            mask@.len() <= len,
            forall|i: int| 0 <= i < mask@.len() ==> mask@[i] == 0,
        decreases len - mask@.len(),
    {
        mask.push(0);
    }
    assert(mask@ =~= Seq::new((width * height) as nat, |i: int| 0u8));
    mask
}

proof fn lemma_mask_covers(width: int, height: int)
    requires
        width >= 0,
        height >= 0,
    ensures
        mask_covers((width * height) as nat, width, height, width),
        width * height >= 0,
{
    assert(width * height >= 0) by (nonlinear_arith)
        requires
            width >= 0,
            height >= 0,
    ;
    if width > 0 && height > 0 {
        assert((height - 1) * width + width == height * width) by (nonlinear_arith);
        assert(height * width == width * height) by (nonlinear_arith);
    }
}

/// Draws a character of a font. White space and characters without an outline
/// have no pixels, but move the pen on.
pub fn rasterize_font_glyph(
    key: GlyphCacheKey,
    font_advance: Single,
    outline: Option<GlyphOutline>,
) -> (result: RasterizedGlyph)
    requires
        !is_space(key.ch) ==> (outline matches Some(shape) ==> {
            let width = mask_size(shape.width, key.margin());
            let height = mask_size(shape.height, key.margin());
            &&& width + key.outline_radius <= i32::MAX
            &&& height + key.outline_radius <= i32::MAX
            &&& width * height <= usize::MAX
        }),
    ensures
        ({
            let advance = font_advance.greater(Single { bits: 0 });
            if is_space(key.ch) {
                is_blank(
                    result,
                    key,
                    advance.greater(key.size().product(Single { bits: SINGLE_0_35 })),
                )
            } else {
                match outline {
                    None => is_blank(
                        result,
                        key,
                        advance.greater(key.size().product(Single { bits: SINGLE_HALF })),
                    ),
                    Some(shape) => {
                        let pad = nearest_signed(key.margin(), 0).opposite();
                        &&& result.key == key
                        &&& result.width == mask_size(shape.width, key.margin())
                        &&& result.height == mask_size(shape.height, key.margin())
                        &&& result.stride == result.width
                        &&& result.fill_alpha@ == covered(
                            result.width,
                            result.height,
                            key.margin(),
                            shape.coverage@,
                        )
                        &&& outlines(
                            result.outline_alpha@,
                            result.fill_alpha@,
                            result.width as int,
                            result.height as int,
                            key.outline_radius,
                        )
                        &&& result.offset_x == shape.min_x.floored().sum(pad)
                        &&& result.offset_y == shape.min_y.floored().sum(pad)
                        &&& result.advance == advance
                    },
                }
            }
        }),
{
    let font_size = key.font_size();
    let advance = font_advance.max_of(Single { bits: 0 });
    if char_is_space(key.ch) {
        return RasterizedGlyph::empty(
            key,
            advance.max_of(font_size.times(Single { bits: SINGLE_0_35 })),
        );
    }
    let shape = match outline {
        None => {
            return RasterizedGlyph::empty(
                key,
                advance.max_of(font_size.times(Single { bits: SINGLE_HALF })),
            );
        },
        Some(shape) => shape,
    };
    let margin: i32 = key.outline_radius as i32 + 2;
    let width: u32 = size_of_mask(shape.width, margin);
    let height: u32 = size_of_mask(shape.height, margin);
    let mut fill_alpha = zero_mask(width, height);
    let mut i: usize = 0;
    assert(shape.coverage@.take(0) =~= Seq::<(u32, u32, Single)>::empty());
    while i < shape.coverage.len()
        invariant
            i <= shape.coverage@.len(),
            width <= i32::MAX,
            height <= i32::MAX,
            fill_alpha@.len() == width * height,
            fill_alpha@ == covered(width, height, margin as int, shape.coverage@.take(i as int)),
        decreases shape.coverage@.len() - i,
    {
        assert(shape.coverage@.take(i as int + 1).drop_last() =~= shape.coverage@.take(i as int));
        let (x, y, part) = shape.coverage[i];
        plot_coverage(&mut fill_alpha, width, height, margin, x, y, part);
        i += 1;
    }
    assert(shape.coverage@.take(i as int) =~= shape.coverage@);
    proof {
        lemma_mask_covers(width as int, height as int);
    }
    let outline_alpha = outline_of(fill_alpha.as_slice(), width, height, key.outline_radius);
    let pad = crate::float_sum::single_of_signed(margin);
    RasterizedGlyph {
        key,
        width,
        height,
        stride: width as usize,
        fill_alpha,
        outline_alpha,
        offset_x: shape.min_x.floor().minus(pad),
        offset_y: shape.min_y.floor().minus(pad),
        advance,
    }
}

fn size_of_mask(extent: Single, margin: i32) -> (result: u32)
    requires
        0 <= margin <= 0x1_0002,
        mask_size(extent, margin as int) <= i32::MAX,
    ensures
        result == mask_size(extent, margin as int),
{
    let size: i64 = extent.ceil_to_signed() as i64 + 2 * margin as i64;
    if size < 1 {
        1
    } else {
        size as u32
    }
}

/// The size of a stand-in for a glyph in one direction, with its margin.
pub open spec fn stand_in_size(extent: Single, margin: int) -> int {
    let whole = extent.raised_to_whole(u32::MAX as nat);
    if whole < 1 {
        1 + 2 * margin
    } else {
        whole + 2 * margin
    }
}

/// Draws a box for a character that no font has. White space has no pixels, but
/// moves the pen on.
pub fn rasterize_fallback_glyph(key: GlyphCacheKey, metrics: TextMeasure) -> (result:
    RasterizedGlyph)
    requires
        !is_space(key.ch) ==> {
            let width = stand_in_size(metrics.width, key.margin());
            let height = stand_in_size(metrics.height, key.margin());
            &&& width + key.outline_radius <= i32::MAX
            &&& height + key.outline_radius <= i32::MAX
            &&& width * height <= usize::MAX
        },
    ensures
        is_space(key.ch) ==> is_blank(
            result,
            key,
            key.size().product(Single { bits: SINGLE_0_35 }),
        ),
        !is_space(key.ch) ==> {
            let pad = (Single { bits: nearest_single(key.margin() as nat, 0) as u32 }).opposite();
            &&& result.key == key
            &&& result.width == stand_in_size(metrics.width, key.margin())
            &&& result.height == stand_in_size(metrics.height, key.margin())
            &&& result.stride == result.width
            &&& result.fill_alpha@.len() == result.width * result.height
            &&& forall|x: int, y: int|
                0 <= x < result.width && 0 <= y < result.height
                    ==> #[trigger] result.fill_alpha@[y * result.width + x] == box_byte(
                    result.width as int,
                    result.height as int,
                    key.margin(),
                    x,
                    y,
                )
            &&& outlines(
                result.outline_alpha@,
                result.fill_alpha@,
                result.width as int,
                result.height as int,
                key.outline_radius,
            )
            &&& result.offset_x == pad
            &&& result.offset_y == metrics.ascent.opposite().sum(pad)
            &&& result.advance == metrics.width.greater(
                key.size().product(Single { bits: SINGLE_HALF }),
            )
        },
{
    let font_size = key.font_size();
    if char_is_space(key.ch) {
        return RasterizedGlyph::empty(key, font_size.times(Single { bits: SINGLE_0_35 }));
    }
    let margin: u32 = key.outline_radius as u32 + 2;
    let width: u32 = size_of_stand_in(metrics.width, margin);
    let height: u32 = size_of_stand_in(metrics.height, margin);
    let fill_alpha = fallback_mask(width, height, margin);
    proof {
        lemma_mask_covers(width as int, height as int);
    }
    let outline_alpha = outline_of(fill_alpha.as_slice(), width, height, key.outline_radius);
    let pad = Single::from_whole(margin);
    RasterizedGlyph {
        key,
        width,
        height,
        stride: width as usize,
        fill_alpha,
        outline_alpha,
        offset_x: pad.negated(),
        offset_y: metrics.ascent.negated().minus(pad),
        advance: metrics.width.max_of(font_size.times(Single { bits: SINGLE_HALF })),
    }
}

fn size_of_stand_in(extent: Single, margin: u32) -> (result: u32)
    requires
        margin <= 0x1_0002,
        stand_in_size(extent, margin as int) <= i32::MAX,
    ensures
        result == stand_in_size(extent, margin as int),
{
    let whole: u64 = extent.ceil_to(0xffff_ffff);
    let size: u64 = if whole < 1 {
        1
    } else {
        whole
    };
    (size + 2 * margin as u64) as u32
}

/// A glyph is covered pixel by pixel, in the order in which the pixels come, on a clear
/// mask that leaves a margin for the outline on each side.
pub proof fn law_glyphs_are_covered_pixel_by_pixel(
    key: GlyphCacheKey,
    width: u32,
    height: u32,
    before: Seq<(u32, u32, Single)>,
    x: u32,
    y: u32,
    part: Single,
)
    ensures
        covered(width, height, key.margin(), before.push((x, y, part))) == plotted(
            covered(width, height, key.margin(), before),
            width,
            height,
            key.margin(),
            x as int,
            y as int,
            part,
        ),
        forall|i: int|
            0 <= i < width * height ==> #[trigger] covered(
                width,
                height,
                key.margin(),
                Seq::empty(),
            )[i] == 0,
        key.margin() >= key.outline_radius + 2,
        mask_size((Single { bits: 0 }), 0) >= 1,
{
    assert(before.push((x, y, part)).drop_last() =~= before);
}

/// A stand-in is as large as its glyph, though never empty, with a margin on each side.
pub proof fn law_stand_ins_have_a_margin(extent: Single, margin: int)
    ensures
        extent.raised_to_whole(u32::MAX as nat) >= 1 ==> stand_in_size(extent, margin) - 2 * margin
            == extent.raised_to_whole(u32::MAX as nat),
        extent.raised_to_whole(u32::MAX as nat) < 1 ==> stand_in_size(extent, margin) - 2 * margin
            == 1,
        stand_in_size(extent, margin) - stand_in_size(extent, 0) == 2 * margin,
{
}

} // verus!
