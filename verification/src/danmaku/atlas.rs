//! The glyphs of comments: their masks, and the atlas that holds them.
use crate::danmaku::config::SINGLE_THOUSAND;
use crate::danmaku::model::{DEFAULT_CONFIG_FONT_SIZE, SINGLE_255};
use crate::float_bits::{nearest_single, Single, SINGLE_ONE};
use crate::pixels::{blit, blitted, lemma_row_column, PixelRect};
use std::collections::HashMap;
use vstd::prelude::*;
use vstd::slice::slice_to_vec;

verus! {

broadcast use {vstd::seq_lib::group_seq_properties, vstd::std_specs::hash::group_hash_axioms};

/// The width of the atlas.
pub const GLYPH_ATLAS_WIDTH: u32 = 2_048;

/// The height of a new atlas.
pub const GLYPH_ATLAS_INITIAL_HEIGHT: u32 = 256;

// ---------------------------------------------------------------------------
// Keys
// ---------------------------------------------------------------------------

/// What the mask of a glyph depends on.
#[derive(Debug, Clone, Copy, PartialEq, Eq, Hash, Structural)]
pub struct GlyphCacheKey {
    pub font_id: u32,
    pub ch: char,
    pub font_size_milli: u32,
    pub outline_radius: u16,
}

impl GlyphCacheKey {
    /// The key as a number.
    pub open spec fn code(self) -> u128 {
        (((self.font_id * 0x1_0000_0000 + self.ch as u32) * 0x1_0000_0000 + self.font_size_milli)
            * 0x1_0000 + self.outline_radius) as u128
    }

    /// The key of a character in a font: the size is taken to the nearest
    /// thousandth of a pixel, the outline to the next whole pixel and no more
    /// than sixteen.
    pub fn new(font_id: u32, ch: char, font_size: Single, outline_width: Single) -> (result: Self)
        ensures
            result == (GlyphCacheKey {
                font_id,
                ch,
                font_size_milli: font_size.finite_or(
                    Single { bits: DEFAULT_CONFIG_FONT_SIZE },
                ).raised_to(Single { bits: SINGLE_ONE }).product(
                    Single { bits: SINGLE_THOUSAND },
                ).rounded(u32::MAX as nat) as u32,
                outline_radius: outline_width.finite_or(Single { bits: 0 }).raised_to_whole(
                    16,
                ) as u16,
            }),
    {
        let milli: u64 = font_size.or_if_not_finite(
            Single { bits: DEFAULT_CONFIG_FONT_SIZE },
        ).at_least(Single { bits: SINGLE_ONE }).times(Single { bits: SINGLE_THOUSAND }).round_to(
            0xffff_ffff,
        );
        let radius: u64 = outline_width.or_if_not_finite(Single { bits: 0 }).ceil_to(16);
        Self {
            font_id,
            ch,
            font_size_milli: milli as u32,
            outline_radius: radius as u16,
        }
    }

    /// The font size of the glyph.
    pub fn font_size(self) -> (result: Single)
        ensures
            result == (Single { bits: nearest_single(self.font_size_milli as nat, 0) as u32 }).quotient(
                Single { bits: SINGLE_THOUSAND },
            ),
    {
        Single::from_whole(self.font_size_milli).over(Single { bits: SINGLE_THOUSAND })
    }

    /// The key as a number.
    pub(crate) fn to_code(self) -> (result: u128)
        ensures
            result == self.code(),
    {
        ((self.font_id as u128 * 0x1_0000_0000 + self.ch as u32 as u128) * 0x1_0000_0000
            + self.font_size_milli as u128) * 0x1_0000 + self.outline_radius as u128
    }
}

/// Different keys have different numbers.
pub proof fn law_key_codes_tell_apart(a: GlyphCacheKey, b: GlyphCacheKey)
    requires
        a.code() == b.code(),
    ensures
        a == b,
{
    assert(a.ch as u32 == b.ch as u32);
}

// ---------------------------------------------------------------------------
// Masks
// ---------------------------------------------------------------------------

/// Whether a pixel is within a radius of another, both in a rectangle.
pub open spec fn is_near(x: int, y: int, nx: int, ny: int, radius: int) -> bool {
    x - radius <= nx <= x + radius && y - radius <= ny <= y + radius
}

/// Whether a value is the largest of a mask within a radius of a pixel.
pub open spec fn is_largest_near(
    mask: Seq<u8>,
    width: int,
    height: int,
    stride: int,
    radius: int,
    x: int,
    y: int,
    value: u8,
) -> bool {
    &&& forall|nx: int, ny: int|
        0 <= nx < width && 0 <= ny < height && #[trigger] is_near(x, y, nx, ny, radius)
            ==> mask[ny * stride + nx] <= value
    &&& exists|nx: int, ny: int|
        0 <= nx < width && 0 <= ny < height && #[trigger] is_near(x, y, nx, ny, radius)
            && mask[ny * stride + nx] == value
}

/// Whether a byte of a mask is in a rectangle at its corner.
pub open spec fn lies_in(index: int, stride: int, width: int, height: int) -> bool {
    index % stride < width && index / stride < height
}

/// Whether a mask is another one with every pixel raised to the largest within a
/// radius. What is not in the rectangle stays.
pub open spec fn is_dilation(
    output: Seq<u8>,
    input: Seq<u8>,
    width: int,
    height: int,
    stride: int,
    radius: int,
) -> bool {
    &&& output.len() == input.len()
    &&& forall|x: int, y: int|
        0 <= x < width && 0 <= y < height ==> is_largest_near(
            input,
            width,
            height,
            stride,
            radius,
            x,
            y,
            #[trigger] output[y * stride + x],
        )
    &&& forall|i: int|
        0 <= i < input.len() && !lies_in(i, stride, width, height)
            ==> #[trigger] output[i] == input[i]
}

/// A mask covers its rectangle.
pub open spec fn mask_covers(len: nat, width: int, height: int, stride: int) -> bool {
    width > 0 && height > 0 ==> (height - 1) * stride + width <= len
}

proof fn lemma_mask_index(len: nat, width: int, height: int, stride: int, x: int, y: int)
    requires
        mask_covers(len, width, height, stride),
        0 <= x < width,
        0 <= y < height,
        stride >= width,
    ensures
        0 <= y * stride + x < len,
        y * stride >= 0,
{
    assert(y * stride <= (height - 1) * stride && y * stride >= 0) by (nonlinear_arith)
        requires
            0 <= y <= height - 1,
            stride >= 0,
    ;
}

/// Dilating raises, and by radius zero it changes nothing.
pub proof fn law_dilation_raises(
    output: Seq<u8>,
    input: Seq<u8>,
    width: int,
    height: int,
    stride: int,
    radius: int,
    x: int,
    y: int,
)
    requires
        is_dilation(output, input, width, height, stride, radius),
        0 <= x < width,
        0 <= y < height,
        radius >= 0,
    ensures
        output[y * stride + x] >= input[y * stride + x],
        radius == 0 ==> output[y * stride + x] == input[y * stride + x],
{
    let value = output[y * stride + x];
    assert(is_largest_near(input, width, height, stride, radius, x, y, value));
    assert(is_near(x, y, x, y, radius));
    let (nx, ny) = choose|nx: int, ny: int|
        0 <= nx < width && 0 <= ny < height && #[trigger] is_near(x, y, nx, ny, radius)
            && input[ny * stride + nx] == value;
    assert(radius == 0 ==> nx == x && ny == y);
}

/// The largest value of a mask within a radius of a pixel.
fn largest_near(
    input: &[u8],
    width: usize,
    height: usize,
    stride: usize,
    radius: usize,
    x: usize,
    y: usize,
) -> (result: u8)
    requires
        x < width <= stride,
        y < height,
        mask_covers(input@.len(), width as int, height as int, stride as int),
        width + radius <= usize::MAX,
        height + radius <= usize::MAX,
    ensures
        is_largest_near(
            input@,
            width as int,
            height as int,
            stride as int,
            radius as int,
            x as int,
            y as int,
            result,
        ),
{
    let size: usize = input.len();
    proof {
        lemma_mask_index(
            input@.len(),
            width as int,
            height as int,
            stride as int,
            x as int,
            y as int,
        );
    }
    let mut value: u8 = input[y * stride + x];
    let ghost mut at_x: int = x as int;
    let ghost mut at_y: int = y as int;
    let first_x: usize = if x > radius {
        x - radius
    } else {
        0
    };
    let first_y: usize = if y > radius {
        y - radius
    } else {
        0
    };
    let end_x: usize = if x + radius < width {
        x + radius + 1
    } else {
        width
    };
    let end_y: usize = if y + radius < height {
        y + radius + 1
    } else {
        height
    };
    let mut ny: usize = first_y;
    while ny < end_y
        invariant
            x < width <= stride,
            y < height,
            size == input@.len(),
            mask_covers(input@.len(), width as int, height as int, stride as int),
            first_y <= ny <= end_y <= height,
            first_x == if x > radius { x - radius } else { 0 },
            first_y == if y > radius { y - radius } else { 0 },
            end_x == if x + radius < width { x + radius + 1 } else { width as int },
            end_y == if y + radius < height { y + radius + 1 } else { height as int },
            0 <= at_x < width,
            0 <= at_y < height,
            is_near(x as int, y as int, at_x, at_y, radius as int),
            input@[at_y * stride + at_x] == value,
            forall|ix: int, iy: int|
                0 <= ix < width && 0 <= iy < ny && #[trigger] is_near(
                    x as int,
                    y as int,
                    ix,
                    iy,
                    radius as int,
                ) ==> input@[iy * stride + ix] <= value,
        decreases end_y - ny,
    {
        let mut nx: usize = first_x;
        while nx < end_x
            invariant
                x < width <= stride,
                ny < end_y <= height,
                size == input@.len(),
                mask_covers(input@.len(), width as int, height as int, stride as int),
                first_x <= nx <= end_x <= width,
                first_x == if x > radius { x - radius } else { 0 },
                end_x == if x + radius < width { x + radius + 1 } else { width as int },
                first_y <= ny,
                first_y == if y > radius { y - radius } else { 0 },
                end_y == if y + radius < height { y + radius + 1 } else { height as int },
                0 <= at_x < width,
                0 <= at_y < height,
                is_near(x as int, y as int, at_x, at_y, radius as int),
                input@[at_y * stride + at_x] == value,
                forall|ix: int, iy: int|
                    0 <= ix < width && 0 <= iy < ny && #[trigger] is_near(
                        x as int,
                        y as int,
                        ix,
                        iy,
                        radius as int,
                    ) ==> input@[iy * stride + ix] <= value,
                forall|ix: int|
                    0 <= ix < nx && #[trigger] is_near(
                        x as int,
                        y as int,
                        ix,
                        ny as int,
                        radius as int,
                    ) ==> input@[ny * stride + ix] <= value,
            decreases end_x - nx,
        {
            proof {
                lemma_mask_index(
                    input@.len(),
                    width as int,
                    height as int,
                    stride as int,
                    nx as int,
                    ny as int,
                );
            }
            let other: u8 = input[ny * stride + nx];
            if other > value {
                value = other;
                proof {
                    at_x = nx as int;
                    at_y = ny as int;
                }
            }
            nx += 1;
        }
        ny += 1;
    }
    proof {
        assert forall|ix: int, iy: int|
            0 <= ix < width && 0 <= iy < height && #[trigger] is_near(
                x as int,
                y as int,
                ix,
                iy,
                radius as int,
            ) implies input@[iy * stride + ix] <= value by {
            assert(iy < end_y);
        }
    }
    value
}

/// Raises every pixel of a mask to the largest within a radius.
pub fn dilate_alpha(input: &[u8], width: u32, height: u32, stride: usize, radius: i32) -> (result:
    Vec<u8>)
    requires
        width <= stride,
        width <= i32::MAX,
        height <= i32::MAX,
        radius > 0 ==> width + radius <= i32::MAX && height + radius <= i32::MAX,
        mask_covers(input@.len(), width as int, height as int, stride as int),
    ensures
        radius <= 0 ==> result@ == input@,
        radius > 0 ==> is_dilation(
            result@,
            input@,
            width as int,
            height as int,
            stride as int,
            radius as int,
        ),
{
    let mut output: Vec<u8> = slice_to_vec(input);
    if radius <= 0 {
        return output;
    }
    let size: usize = input.len();
    let columns: usize = width as usize;
    let rows: usize = height as usize;
    let reach: usize = radius as usize;
    let mut y: usize = 0;
    while y < rows
        invariant
            y <= rows == height,
            columns == width,
            reach == radius,
            columns <= stride,
            size == input@.len() == output@.len(),
            columns + reach <= i32::MAX,
            rows + reach <= i32::MAX,
            mask_covers(input@.len(), columns as int, rows as int, stride as int),
            forall|ix: int, iy: int|
                0 <= ix < columns && 0 <= iy < y ==> is_largest_near(
                    input@,
                    columns as int,
                    rows as int,
                    stride as int,
                    reach as int,
                    ix,
                    iy,
                    #[trigger] output@[iy * stride + ix],
                ),
            forall|i: int|
                0 <= i < size && !lies_in(i, stride as int, columns as int, y as int)
                    ==> #[trigger] output@[i] == input@[i],
        decreases rows - y,
    {
        let mut x: usize = 0;
        while x < columns
            invariant
                x <= columns == width,
                y < rows == height,
                reach == radius,
                columns <= stride,
                size == input@.len() == output@.len(),
                columns + reach <= i32::MAX,
                rows + reach <= i32::MAX,
                mask_covers(input@.len(), columns as int, rows as int, stride as int),
                forall|ix: int, iy: int|
                    0 <= ix < columns && 0 <= iy < y ==> is_largest_near(
                        input@,
                        columns as int,
                        rows as int,
                        stride as int,
                        reach as int,
                        ix,
                        iy,
                        #[trigger] output@[iy * stride + ix],
                    ),
                forall|ix: int|
                    0 <= ix < x ==> is_largest_near(
                        input@,
                        columns as int,
                        rows as int,
                        stride as int,
                        reach as int,
                        ix,
                        y as int,
                        #[trigger] output@[y * stride + ix],
                    ),
                forall|i: int|
                    0 <= i < size && !lies_in(i, stride as int, columns as int, y + 1)
                        ==> #[trigger] output@[i] == input@[i],
            decreases columns - x,
        {
            proof {
                lemma_mask_index(
                    input@.len(),
                    columns as int,
                    rows as int,
                    stride as int,
                    x as int,
                    y as int,
                );
                lemma_row_column(stride as int, y as int, x as int);
            }
            let at: usize = y * stride + x;
            let value: u8 = largest_near(input, columns, rows, stride, reach, x, y);
            let ghost before = output@;
            output[at] = value;
            proof {
                assert forall|ix: int, iy: int| 0 <= ix < columns && 0 <= iy < y implies
                    is_largest_near(
                    input@,
                    columns as int,
                    rows as int,
                    stride as int,
                    reach as int,
                    ix,
                    iy,
                    #[trigger] output@[iy * stride + ix],
                ) by {
                    lemma_row_column(stride as int, iy, ix);
                    lemma_mask_index(
                        input@.len(),
                        columns as int,
                        rows as int,
                        stride as int,
                        ix,
                        iy,
                    );
                    assert(iy * stride + ix != at);
                    assert(output@[iy * stride + ix] == before[iy * stride + ix]);
                }
                assert forall|ix: int| 0 <= ix < x + 1 implies is_largest_near(
                    input@,
                    columns as int,
                    rows as int,
                    stride as int,
                    reach as int,
                    ix,
                    y as int,
                    #[trigger] output@[y * stride + ix],
                ) by {
                    if ix < x {
                        lemma_mask_index(
                            input@.len(),
                            columns as int,
                            rows as int,
                            stride as int,
                            ix,
                            y as int,
                        );
                        assert(output@[y * stride + ix] == before[y * stride + ix]);
                    }
                }
            }
            x += 1;
        }
        y += 1;
    }
    output
}

/// The outline mask of a fill mask: the fill itself without an outline.
pub fn outline_of(fill: &[u8], width: u32, height: u32, radius: u16) -> (result: Vec<u8>)
    requires
        width + radius <= i32::MAX,
        height + radius <= i32::MAX,
        mask_covers(fill@.len(), width as int, height as int, width as int),
        width <= usize::MAX,
    ensures
        radius == 0 ==> result@ == fill@,
        radius > 0 ==> is_dilation(
            result@,
            fill@,
            width as int,
            height as int,
            width as int,
            radius as int,
        ),
{
    dilate_alpha(fill, width, height, width as usize, radius as i32)
}

/// The coverage of a pixel as a byte.
pub open spec fn coverage_byte(coverage: Single) -> nat {
    coverage.limited(Single { bits: 0 }, Single { bits: SINGLE_ONE }).product(
        Single { bits: SINGLE_255 },
    ).rounded(255)
}

/// The mask with the coverage of one pixel of an outline added. The outline is
/// placed inside a margin; what falls beyond the mask is left out.
pub open spec fn plotted(
    mask: Seq<u8>,
    width: u32,
    height: u32,
    pad: int,
    x: int,
    y: int,
    coverage: Single,
) -> Seq<u8> {
    let px = x + pad;
    let py = y + pad;
    if px < 0 || py < 0 || px >= width || py >= height {
        mask
    } else {
        let at = py * width + px;
        let value = coverage_byte(coverage) as u8;
        if mask[at] < value {
            mask.update(at, value)
        } else {
            mask
        }
    }
}

/// Adds the coverage of one pixel of an outline to a mask.
pub fn plot_coverage(
    mask: &mut Vec<u8>,
    width: u32,
    height: u32,
    pad: i32,
    x: u32,
    y: u32,
    coverage: Single,
)
    requires
        old(mask)@.len() == width * height,
        width <= i32::MAX,
        height <= i32::MAX,
    ensures
        final(mask)@.len() == old(mask)@.len(),
        final(mask)@ == plotted(
            old(mask)@,
            width,
            height,
            pad as int,
            x as int,
            y as int,
            coverage,
        ),
{
    let px: i64 = x as i64 + pad as i64;
    let py: i64 = y as i64 + pad as i64;
    if px < 0 || py < 0 || px >= width as i64 || py >= height as i64 {
        return;
    }
    let size: usize = mask.len();
    assert(0 <= py * width + px < width * height && py * width >= 0) by (nonlinear_arith)
        requires
            0 <= px < width,
            0 <= py < height,
    ;
    let at: usize = py as usize * width as usize + px as usize;
    let value: u8 = coverage.clamp_to(Single { bits: 0 }, Single { bits: SINGLE_ONE }).times(
        Single { bits: SINGLE_255 },
    ).round_to(255) as u8;
    if mask[at] < value {
        mask[at] = value;
    }
}

/// A byte of the mask that stands for a character without a glyph: a box inside
/// a margin, with a fainter border.
pub open spec fn box_byte(width: int, height: int, pad: int, x: int, y: int) -> u8 {
    if pad <= x < width - pad && pad <= y < height - pad {
        if x == pad || y == pad || x + 1 == width - pad || y + 1 == height - pad {
            180
        } else {
            230
        }
    } else {
        0
    }
}

/// The mask that stands for a character without a glyph.
pub fn fallback_mask(width: u32, height: u32, pad: u32) -> (result: Vec<u8>)
    requires
        width * height <= usize::MAX,
        pad <= 0x2_0000,
    ensures
        result@.len() == width * height,
        forall|x: int, y: int|
            0 <= x < width && 0 <= y < height ==> #[trigger] result@[y * width + x] == box_byte(
                width as int,
                height as int,
                pad as int,
                x,
                y,
            ),
{
    let mut mask: Vec<u8> = Vec::new();
    let mut y: u32 = 0;
    assert(0 * width == 0) by (nonlinear_arith);
    while y < height
        invariant
            y <= height,
            width * height <= usize::MAX,
            pad <= 0x2_0000,
            mask@.len() == y * width,
            forall|ix: int, iy: int|
                0 <= ix < width && 0 <= iy < y ==> #[trigger] mask@[iy * width + ix] == box_byte(
                    width as int,
                    height as int,
                    pad as int,
                    ix,
                    iy,
                ),
        decreases height - y,
    {
        let mut x: u32 = 0;
        while x < width
            invariant
                x <= width,
                y < height,
                pad <= 0x2_0000,
                mask@.len() == y * width + x,
                forall|ix: int, iy: int|
                    0 <= ix < width && 0 <= iy < y ==> #[trigger] mask@[iy * width + ix]
                        == box_byte(width as int, height as int, pad as int, ix, iy),
                forall|ix: int|
                    0 <= ix < x ==> #[trigger] mask@[y * width + ix] == box_byte(
                        width as int,
                        height as int,
                        pad as int,
                        ix,
                        y as int,
                    ),
            decreases width - x,
        {
            let px: i64 = x as i64;
            let py: i64 = y as i64;
            let margin: i64 = pad as i64;
            let right: i64 = width as i64 - margin;
            let bottom: i64 = height as i64 - margin;
            let inside = margin <= px && px < right && margin <= py && py < bottom;
            let border = px == margin || py == margin || px + 1 == right || py + 1 == bottom;
            let ghost before = mask@;
            mask.push(
                if !inside {
                    0
                } else if border {
                    180
                } else {
                    230
                },
            );
            proof {
                assert forall|ix: int, iy: int| 0 <= ix < width && 0 <= iy < y implies
                    #[trigger] mask@[iy * width + ix] == box_byte(
                    width as int,
                    height as int,
                    pad as int,
                    ix,
                    iy,
                ) by {
                    assert(0 <= iy * width + ix < y * width) by (nonlinear_arith)
                        requires
                            0 <= ix < width,
                            0 <= iy < y,
                    ;
                    assert(mask@[iy * width + ix] == before[iy * width + ix]);
                }
                assert forall|ix: int| 0 <= ix < x + 1 implies #[trigger] mask@[y * width + ix]
                    == box_byte(width as int, height as int, pad as int, ix, y as int) by {
                    assert(y * width >= 0) by (nonlinear_arith)
                        requires
                            y >= 0,
                            width >= 0,
                    ;
                    if ix < x {
                        assert(mask@[y * width + ix] == before[y * width + ix]);
                    }
                }
            }
            x += 1;
        }
        assert((y + 1) * width == y * width + width) by (nonlinear_arith);
        y += 1;
    }
    assert(height * width == width * height) by (nonlinear_arith);
    mask
}

// ---------------------------------------------------------------------------
// Glyphs
// ---------------------------------------------------------------------------

/// A glyph that has been drawn.
#[derive(Debug, Clone, PartialEq, Eq)]
pub struct RasterizedGlyph {
    pub key: GlyphCacheKey,
    pub width: u32,
    pub height: u32,
    pub stride: usize,
    pub fill_alpha: Vec<u8>,
    pub outline_alpha: Vec<u8>,
    pub offset_x: Single,
    pub offset_y: Single,
    pub advance: Single,
}

/// The product of two machine numbers, held at the largest.
pub open spec fn held_product(a: nat, b: nat) -> nat {
    if a * b > usize::MAX {
        usize::MAX as nat
    } else {
        a * b
    }
}

fn hold_product(a: usize, b: u32) -> (result: usize)
    ensures
        result == held_product(a as nat, b as nat),
{
    match a.checked_mul(b as usize) {
        Some(product) => product,
        None => usize::MAX,
    }
}

impl RasterizedGlyph {
    /// Whether the masks cover the glyph, which has pixels.
    pub open spec fn is_drawn(self) -> bool {
        &&& self.width > 0
        &&& self.height > 0
        &&& self.stride >= self.width
        &&& self.fill_alpha@.len() >= held_product(self.stride as nat, self.height as nat)
        &&& self.outline_alpha@.len() >= held_product(self.stride as nat, self.height as nat)
    }

    /// Whether the rows of the masks that an atlas takes are there.
    pub open spec fn has_rows(self) -> bool {
        let width = if self.width < GLYPH_ATLAS_WIDTH {
            self.width
        } else {
            GLYPH_ATLAS_WIDTH
        };
        self.height > 0 && width > 0 ==> {
            &&& (self.height - 1) * self.stride + width <= self.fill_alpha@.len()
            &&& (self.height - 1) * self.stride + width <= self.outline_alpha@.len()
        }
    }

    /// A glyph that stands in for one that is not drawn yet.
    pub fn placeholder(key: GlyphCacheKey) -> (result: Self)
        ensures
            result.key == key,
            result.width == 0 && result.height == 0 && result.stride == 0,
            result.fill_alpha@.len() == 0 && result.outline_alpha@.len() == 0,
            result.offset_x.bits == 0 && result.offset_y.bits == 0,
            result.advance.bits == 0,
    {
        Self::empty(key, Single { bits: 0 })
    }

    /// A glyph without pixels.
    pub fn empty(key: GlyphCacheKey, advance: Single) -> (result: Self)
        ensures
            result.key == key,
            result.width == 0 && result.height == 0 && result.stride == 0,
            result.fill_alpha@.len() == 0 && result.outline_alpha@.len() == 0,
            result.offset_x.bits == 0 && result.offset_y.bits == 0,
            result.advance == advance,
    {
        Self {
            key,
            width: 0,
            height: 0,
            stride: 0,
            fill_alpha: Vec::new(),
            outline_alpha: Vec::new(),
            offset_x: Single { bits: 0 },
            offset_y: Single { bits: 0 },
            advance,
        }
    }

    /// Whether the masks cover the glyph, which has pixels.
    pub fn has_bitmap(&self) -> (result: bool)
        ensures
            result == self.is_drawn(),
    {
        self.width > 0 && self.height > 0 && self.stride >= self.width as usize
            && self.fill_alpha.len() >= self.required_len() && self.outline_alpha.len()
            >= self.required_len()
    }

    /// The number of bytes that each mask needs.
    pub fn required_len(&self) -> (result: usize)
        ensures
            result == held_product(self.stride as nat, self.height as nat),
    {
        hold_product(self.stride, self.height)
    }
}

/// An atlas as it is handed to a renderer.
#[derive(Debug, Clone, PartialEq, Eq)]
pub struct DanmakuGlyphAtlas {
    pub width: u32,
    pub height: u32,
    pub stride: usize,
    pub fill_alpha: Vec<u8>,
    pub outline_alpha: Vec<u8>,
    pub version: u64,
}

impl DanmakuGlyphAtlas {
    /// Whether the masks cover the atlas, which has pixels.
    pub open spec fn is_covered(self) -> bool {
        &&& self.width > 0
        &&& self.height > 0
        &&& self.stride >= self.width
        &&& self.fill_alpha@.len() >= held_product(self.stride as nat, self.height as nat)
        &&& self.outline_alpha@.len() >= held_product(self.stride as nat, self.height as nat)
    }

    /// Whether the masks cover the atlas, which has pixels.
    pub fn is_valid(&self) -> (result: bool)
        ensures
            result == self.is_covered(),
    {
        self.width > 0 && self.height > 0 && self.stride >= self.width as usize
            && self.fill_alpha.len() >= self.required_len() && self.outline_alpha.len()
            >= self.required_len()
    }

    /// The number of bytes that each mask needs.
    pub fn required_len(&self) -> (result: usize)
        ensures
            result == held_product(self.stride as nat, self.height as nat),
    {
        hold_product(self.stride, self.height)
    }
}

// ---------------------------------------------------------------------------
// Packing
// ---------------------------------------------------------------------------

/// Where a glyph lies in the atlas.
#[derive(Debug, Clone, Copy, PartialEq, Eq, Structural)]
pub struct PackedGlyph {
    pub x: u32,
    pub y: u32,
    pub width: u32,
    pub height: u32,
}

impl PackedGlyph {
    /// The rectangle of pixels.
    pub open spec fn rect(self) -> PixelRect {
        PixelRect {
            x: self.x as usize,
            y: self.y as usize,
            width: self.width as usize,
            height: self.height as usize,
        }
    }

    /// Whether two glyphs have no pixel in common.
    pub open spec fn is_apart(self, other: PackedGlyph) -> bool {
        ||| self.x + self.width <= other.x
        ||| other.x + other.width <= self.x
        ||| self.y + self.height <= other.y
        ||| other.y + other.height <= self.y
    }
}

/// An atlas as plain values. Glyphs are packed in rows, from left to right.
pub struct AtlasModel {
    pub height: u32,
    pub cursor_x: u32,
    pub cursor_y: u32,
    pub row_height: u32,
    pub fill: Seq<u8>,
    pub outline: Seq<u8>,
    pub packed: Map<u128, PackedGlyph>,
    pub version: u64,
}

/// A mask with rows of zeros behind it.
pub open spec fn padded(mask: Seq<u8>, len: nat) -> Seq<u8> {
    Seq::new(
        len,
        |i: int|
            if i < mask.len() {
                mask[i]
            } else {
                0u8
            },
    )
}

/// A height that is doubled until it reaches what is required.
pub open spec fn grown_height(height: nat, required: nat) -> nat
    decreases crate::time::sat_sub(required, height),
{
    if height == 0 || required <= height {
        height
    } else {
        grown_height(height * 2, required)
    }
}

/// The smaller of a width and that of the atlas.
pub open spec fn packed_width(width: u32) -> u32 {
    if width < GLYPH_ATLAS_WIDTH {
        width
    } else {
        GLYPH_ATLAS_WIDTH
    }
}

/// The version after this one, held at the largest.
pub open spec fn next_version(version: u64) -> u64 {
    if version == u64::MAX {
        u64::MAX
    } else {
        (version + 1) as u64
    }
}

impl AtlasModel {
    /// Whether the glyphs lie in the rows before the cursor, apart from each
    /// other, and the masks are as long as the atlas is high.
    pub open spec fn is_sound(self) -> bool {
        &&& self.height > 0
        &&& self.fill.len() == GLYPH_ATLAS_WIDTH * self.height
        &&& self.outline.len() == GLYPH_ATLAS_WIDTH * self.height
        &&& self.cursor_x <= GLYPH_ATLAS_WIDTH
        &&& self.cursor_y + self.row_height <= self.height
        &&& forall|key: u128| #[trigger]
            self.packed.contains_key(key) ==> self.is_behind(self.packed[key])
        &&& forall|a: u128, b: u128|
            #![trigger self.packed[a], self.packed[b]]
            self.packed.contains_key(a) && self.packed.contains_key(b) && a != b
                ==> self.packed[a].is_apart(self.packed[b])
    }

    /// Whether a glyph lies in an earlier row, or before the cursor in the row of
    /// the cursor.
    pub open spec fn is_behind(self, glyph: PackedGlyph) -> bool {
        &&& glyph.x + glyph.width <= GLYPH_ATLAS_WIDTH
        &&& {
            ||| glyph.y + glyph.height <= self.cursor_y
            ||| glyph.y == self.cursor_y && glyph.x + glyph.width <= self.cursor_x && glyph.height
                <= self.row_height
        }
    }

    /// Whether the atlas can grow to a height: the height and the number of pixels
    /// can be counted.
    pub open spec fn can_grow_to(self, required: nat) -> bool {
        let height = grown_height(self.height as nat, required);
        height <= u32::MAX && GLYPH_ATLAS_WIDTH * height <= usize::MAX
    }

    /// Whether a glyph of a size can be packed.
    pub open spec fn has_room_for(self, width: u32, height: u32) -> bool {
        let place = self.place(width, height);
        self.can_grow_to((place.y + place.height) as nat)
    }

    /// Whether so many more rows can be taken.
    pub open spec fn has_rows_left(self, rows: nat) -> bool {
        self.can_grow_to(self.cursor_y as nat + self.row_height as nat + rows)
    }

    /// Where a glyph goes: at the cursor, or at the start of the next row where
    /// the row has no room for it.
    pub open spec fn place(self, width: u32, height: u32) -> PackedGlyph {
        let width = packed_width(width);
        if self.cursor_x + width > GLYPH_ATLAS_WIDTH {
            PackedGlyph { x: 0, y: (self.cursor_y + self.row_height) as u32, width, height }
        } else {
            PackedGlyph { x: self.cursor_x, y: self.cursor_y, width, height }
        }
    }

    /// The atlas with its height doubled until it reaches what is required.
    pub open spec fn grown(self, required: nat) -> AtlasModel {
        let height = grown_height(self.height as nat, required);
        AtlasModel {
            height: height as u32,
            fill: padded(self.fill, GLYPH_ATLAS_WIDTH as nat * height),
            outline: padded(self.outline, GLYPH_ATLAS_WIDTH as nat * height),
            ..self
        }
    }

    /// The atlas with one more glyph.
    pub open spec fn with_glyph(self, glyph: RasterizedGlyph) -> AtlasModel {
        let place = self.place(glyph.width, glyph.height);
        let roomy = self.grown((place.y + place.height) as nat);
        let row_height: u32 = if place.y == self.cursor_y && place.x == self.cursor_x {
            self.row_height
        } else {
            0
        };
        AtlasModel {
            height: roomy.height,
            cursor_x: (place.x + place.width) as u32,
            cursor_y: place.y,
            row_height: if row_height < place.height {
                place.height
            } else {
                row_height
            },
            fill: blitted(
                roomy.fill,
                GLYPH_ATLAS_WIDTH as nat,
                place.rect(),
                glyph.fill_alpha@,
                glyph.stride as nat,
            ),
            outline: blitted(
                roomy.outline,
                GLYPH_ATLAS_WIDTH as nat,
                place.rect(),
                glyph.outline_alpha@,
                glyph.stride as nat,
            ),
            packed: self.packed.insert(glyph.key.code(), place),
            version: next_version(self.version),
        }
    }
}

/// A grown height reaches what is required, and is less than twice it.
proof fn lemma_grown_height(height: nat, required: nat)
    requires
        height > 0,
    ensures
        grown_height(height, required) >= height,
        grown_height(height, required) >= required,
        required > height ==> grown_height(height, required) < 2 * required,
        required <= height ==> grown_height(height, required) == height,
    decreases crate::time::sat_sub(required, height),
{
    if required > height {
        lemma_grown_height(height * 2, required);
    }
}

/// A height that grows twice ends no higher than one that grows at once to what is
/// at least required each time.
proof fn lemma_grown_twice(height: nat, first: nat, second: nat, required: nat)
    requires
        height > 0,
        first <= required,
        second <= required,
    ensures
        grown_height(grown_height(height, first), second) <= grown_height(height, required),
    decreases crate::time::sat_sub(required, height),
{
    if required > height {
        if first > height {
            lemma_grown_twice(height * 2, first, second, required);
        } else if second > height {
            lemma_grown_twice(height * 2, first, second, required);
            lemma_grown_height(height * 2, first);
        } else {
            lemma_grown_height(height, required);
        }
    }
}

/// Packing a glyph takes no more rows than it is high.
pub(crate) proof fn lemma_rows_taken(atlas: AtlasModel, glyph: RasterizedGlyph, more: nat)
    requires
        atlas.height > 0,
        atlas.cursor_y + atlas.row_height <= atlas.height,
        atlas.has_rows_left(glyph.height as nat + more),
    ensures
        atlas.has_room_for(glyph.width, glyph.height),
        atlas.has_rows_left(more),
        atlas.with_glyph(glyph).has_rows_left(more),
        atlas.with_glyph(glyph).height > 0,
        atlas.with_glyph(glyph).cursor_y + atlas.with_glyph(glyph).row_height
            <= atlas.with_glyph(glyph).height,
{
    let place = atlas.place(glyph.width, glyph.height);
    let height = atlas.height as nat;
    let first = (place.y + place.height) as nat;
    let all = atlas.cursor_y as nat + atlas.row_height as nat + glyph.height as nat + more;
    lemma_grown_height(height, first);
    lemma_grown_height(height, all);
    lemma_grown_twice(height, 0, first, all);
    lemma_grown_twice(height, 0, atlas.cursor_y as nat + atlas.row_height as nat + more, all);
    let after = atlas.with_glyph(glyph);
    let second = after.cursor_y as nat + after.row_height as nat + more;
    assert(grown_height(height, first) <= u32::MAX);
    assert(after.height == grown_height(height, first));
    lemma_grown_twice(height, first, second, all);
    let most = grown_height(height, all);
    assert(forall|part: nat| #[trigger] (GLYPH_ATLAS_WIDTH * part) <= GLYPH_ATLAS_WIDTH * most
        <== part <= most);
}

/// Packing a glyph keeps an atlas sound: the glyph lies apart from all others.
pub proof fn law_packing_keeps_glyphs_apart(atlas: AtlasModel, glyph: RasterizedGlyph)
    requires
        atlas.is_sound(),
        atlas.has_room_for(glyph.width, glyph.height),
        !atlas.packed.contains_key(glyph.key.code()),
    ensures
        atlas.with_glyph(glyph).is_sound(),
        atlas.with_glyph(glyph).packed[glyph.key.code()] == atlas.place(glyph.width, glyph.height),
{
    let key = glyph.key.code();
    let place = atlas.place(glyph.width, glyph.height);
    let after = atlas.with_glyph(glyph);
    lemma_grown_height(atlas.height as nat, (place.y + place.height) as nat);
    assert forall|k: u128| #[trigger] after.packed.contains_key(k) implies after.is_behind(
        after.packed[k],
    ) by {
        if k != key {
            assert(atlas.packed.contains_key(k));
            assert(atlas.is_behind(atlas.packed[k]));
        }
    }
    assert forall|a: u128, b: u128|
        #![trigger after.packed[a], after.packed[b]]
        after.packed.contains_key(a) && after.packed.contains_key(b) && a != b implies
        after.packed[a].is_apart(after.packed[b]) by {
        if a != key {
            assert(atlas.packed.contains_key(a));
            assert(atlas.is_behind(atlas.packed[a]));
        }
        if b != key {
            assert(atlas.packed.contains_key(b));
            assert(atlas.is_behind(atlas.packed[b]));
        }
        if a != key && b != key {
            assert(atlas.packed[a].is_apart(atlas.packed[b]));
        }
    }
}

/// Packing a glyph leaves the pixels of all other glyphs as they were.
pub proof fn law_packing_keeps_other_pixels(
    atlas: AtlasModel,
    glyph: RasterizedGlyph,
    other: u128,
    index: int,
)
    requires
        atlas.is_sound(),
        atlas.has_room_for(glyph.width, glyph.height),
        !atlas.packed.contains_key(glyph.key.code()),
        atlas.packed.contains_key(other),
        0 <= index < atlas.fill.len(),
        atlas.packed[other].rect().holds(index, GLYPH_ATLAS_WIDTH as int),
    ensures
        atlas.with_glyph(glyph).fill[index] == atlas.fill[index],
        atlas.with_glyph(glyph).outline[index] == atlas.outline[index],
{
    let place = atlas.place(glyph.width, glyph.height);
    let after = atlas.with_glyph(glyph);
    law_packing_keeps_glyphs_apart(atlas, glyph);
    lemma_grown_height(atlas.height as nat, (place.y + place.height) as nat);
    assert(atlas.is_behind(atlas.packed[other]));
    assert(after.packed[other] == atlas.packed[other]);
    assert(after.packed[glyph.key.code()].is_apart(after.packed[other]));
    assert(!place.rect().holds(index, GLYPH_ATLAS_WIDTH as int));
}

/// A packed glyph shows the pixels that it was drawn with.
pub proof fn law_packed_glyph_shows_its_pixels(
    atlas: AtlasModel,
    glyph: RasterizedGlyph,
    x: int,
    y: int,
)
    requires
        atlas.is_sound(),
        atlas.has_room_for(glyph.width, glyph.height),
        0 <= x < packed_width(glyph.width),
        0 <= y < glyph.height,
    ensures
        ({
            let place = atlas.place(glyph.width, glyph.height);
            let index = (place.y + y) * GLYPH_ATLAS_WIDTH + place.x + x;
            &&& 0 <= index < atlas.with_glyph(glyph).fill.len()
            &&& atlas.with_glyph(glyph).fill[index] == glyph.fill_alpha@[y * glyph.stride + x]
            &&& atlas.with_glyph(glyph).outline[index] == glyph.outline_alpha@[y * glyph.stride
                + x]
        }),
{
    let place = atlas.place(glyph.width, glyph.height);
    let index = (place.y + y) * GLYPH_ATLAS_WIDTH + place.x + x;
    lemma_grown_height(atlas.height as nat, (place.y + place.height) as nat);
    lemma_row_column(GLYPH_ATLAS_WIDTH as int, place.y + y, place.x + x);
    assert(place.rect().holds(index, GLYPH_ATLAS_WIDTH as int));
}

/// The atlas of all glyphs that were ever used.
#[derive(Debug)]
pub struct PersistentGlyphAtlas {
    height: u32,
    cursor_x: u32,
    cursor_y: u32,
    row_height: u32,
    fill_alpha: Vec<u8>,
    outline_alpha: Vec<u8>,
    packed: HashMap<u128, PackedGlyph>,
    version: u64,
    dirty: bool,
    snapshot: Option<DanmakuGlyphAtlas>,
}

impl View for PersistentGlyphAtlas {
    type V = AtlasModel;

    closed spec fn view(&self) -> AtlasModel {
        AtlasModel {
            height: self.height,
            cursor_x: self.cursor_x,
            cursor_y: self.cursor_y,
            row_height: self.row_height,
            fill: self.fill_alpha@,
            outline: self.outline_alpha@,
            packed: self.packed@,
            version: self.version,
        }
    }
}

/// Whether a snapshot shows an atlas.
pub open spec fn shows(snapshot: DanmakuGlyphAtlas, atlas: AtlasModel) -> bool {
    &&& snapshot.width == GLYPH_ATLAS_WIDTH
    &&& snapshot.height == atlas.height
    &&& snapshot.stride == GLYPH_ATLAS_WIDTH
    &&& snapshot.fill_alpha@ == atlas.fill
    &&& snapshot.outline_alpha@ == atlas.outline
    &&& snapshot.version == atlas.version
}

fn zeros(len: usize) -> (result: Vec<u8>)
    ensures
        result@ == padded(Seq::empty(), len as nat),
{
    let mut result: Vec<u8> = Vec::new();
    pad_mask(&mut result, len);
    assert(result@ =~= padded(Seq::empty(), len as nat));
    result
}

fn pad_mask(mask: &mut Vec<u8>, len: usize)
    requires
        old(mask)@.len() <= len,
    ensures
        final(mask)@ == padded(old(mask)@, len as nat),
{
    let ghost before = mask@;
    while mask.len() < len
        invariant
            before.len() <= mask@.len() <= len,
            mask@ =~= padded(before, mask@.len()),
        decreases len - mask@.len(),
    {
        mask.push(0);
    }
}

impl PersistentGlyphAtlas {
    /// Whether the glyphs are packed soundly, and a snapshot that counts as
    /// current is.
    pub closed spec fn wf(&self) -> bool {
        &&& self@.is_sound()
        &&& !self.dirty ==> (self.snapshot matches Some(snapshot) ==> shows(snapshot, self@))
    }

    /// The glyphs of an atlas are packed soundly.
    pub proof fn law_is_sound(&self)
        requires
            self.wf(),
        ensures
            self@.is_sound(),
    {
    }

    /// An empty atlas.
    pub fn new() -> (result: Self)
        ensures
            result.wf(),
            result@.height == GLYPH_ATLAS_INITIAL_HEIGHT,
            result@.cursor_x == 0 && result@.cursor_y == 0 && result@.row_height == 0,
            result@.fill == padded(Seq::empty(), 524_288),
            result@.outline == padded(Seq::empty(), 524_288),
            result@.packed == Map::<u128, PackedGlyph>::empty(),
            result@.version == 1,
    {
        Self {
            height: GLYPH_ATLAS_INITIAL_HEIGHT,
            cursor_x: 0,
            cursor_y: 0,
            row_height: 0,
            fill_alpha: zeros(524_288),
            outline_alpha: zeros(524_288),
            packed: HashMap::new(),
            version: 1,
            dirty: true,
            snapshot: None,
        }
    }

    /// Whether so many more rows can be taken.
    pub fn check_rows_left(&self, rows: u32) -> (result: bool)
        requires
            self.wf(),
        ensures
            result == self@.has_rows_left(rows as nat),
    {
        let required: u64 = self.cursor_y as u64 + self.row_height as u64 + rows as u64;
        let mut height: u64 = self.height as u64;
        while required > height
            invariant
                0 < height < 0x4_0000_0000,
                required == self@.cursor_y + self@.row_height + rows,
                grown_height(height as nat, required as nat) == grown_height(
                    self@.height as nat,
                    required as nat,
                ),
            decreases 0x4_0000_0000 - height,
        {
            if height >= 0x1_0000_0000 {
                proof {
                    lemma_grown_height(height as nat, required as nat);
                }
                return false;
            }
            height = height * 2;
        }
        height <= u32::MAX as u64 && height <= usize::MAX as u64 / GLYPH_ATLAS_WIDTH as u64
    }

    /// Packs a glyph, or finds it if it is packed already.
    pub fn pack(&mut self, glyph: &RasterizedGlyph) -> (result: PackedGlyph)
        requires
            old(self).wf(),
            !old(self)@.packed.contains_key(glyph.key.code()) ==> old(self)@.has_room_for(
                glyph.width,
                glyph.height,
            ) && glyph.has_rows(),
        ensures
            final(self).wf(),
            if old(self)@.packed.contains_key(glyph.key.code()) {
                &&& result == old(self)@.packed[glyph.key.code()]
                &&& final(self)@ == old(self)@
            } else {
                &&& result == old(self)@.place(glyph.width, glyph.height)
                &&& final(self)@ == old(self)@.with_glyph(*glyph)
            },
    {
        let code: u128 = glyph.key.to_code();
        if let Some(packed) = self.packed.get(&code) {
            return *packed;
        }
        proof {
            law_packing_keeps_glyphs_apart(self@, *glyph);
        }
        let ghost before = self@;
        let glyph_width: u32 = if glyph.width < GLYPH_ATLAS_WIDTH {
            glyph.width
        } else {
            GLYPH_ATLAS_WIDTH
        };
        let glyph_height: u32 = glyph.height;
        if self.cursor_x + glyph_width > GLYPH_ATLAS_WIDTH {
            self.cursor_x = 0;
            self.cursor_y = self.cursor_y + self.row_height;
            self.row_height = 0;
        }
        let packed = PackedGlyph {
            x: self.cursor_x,
            y: self.cursor_y,
            width: glyph_width,
            height: glyph_height,
        };
        assert(packed == before.place(glyph.width, glyph.height));
        self.ensure_height(packed.y + glyph_height);
        let ghost roomy = before.grown((packed.y + packed.height) as nat);
        assert(self@.fill == roomy.fill && self@.outline == roomy.outline);
        proof {
            lemma_grown_height(before.height as nat, (packed.y + packed.height) as nat);
        }
        let rect = PixelRect {
            x: packed.x as usize,
            y: packed.y as usize,
            width: packed.width as usize,
            height: packed.height as usize,
        };
        assert(rect == packed.rect());
        let stride: usize = GLYPH_ATLAS_WIDTH as usize;
        blit(&mut self.fill_alpha, stride, rect, &glyph.fill_alpha, glyph.stride);
        blit(&mut self.outline_alpha, stride, rect, &glyph.outline_alpha, glyph.stride);
        self.cursor_x = self.cursor_x + glyph_width;
        if self.row_height < glyph_height {
            self.row_height = glyph_height;
        }
        let _ = self.packed.insert(code, packed);
        if self.version < u64::MAX {
            self.version = self.version + 1;
        }
        self.dirty = true;
        assert(self@ == before.with_glyph(*glyph));
        packed
    }

    fn ensure_height(&mut self, required: u32)
        requires
            old(self)@.height > 0,
            old(self)@.can_grow_to(required as nat),
            old(self)@.fill.len() == GLYPH_ATLAS_WIDTH * old(self)@.height,
            old(self)@.outline.len() == GLYPH_ATLAS_WIDTH * old(self)@.height,
        ensures
            final(self)@ == old(self)@.grown(required as nat),
    {
        if required <= self.height {
            assert(self@.fill =~= padded(self@.fill, GLYPH_ATLAS_WIDTH as nat * self.height as nat));
            assert(self@.outline =~= padded(
                self@.outline,
                GLYPH_ATLAS_WIDTH as nat * self.height as nat,
            ));
            return;
        }
        while required > self.height
            invariant
                0 < self.height,
                old(self)@.can_grow_to(required as nat),
                self@ == (AtlasModel { height: self.height, ..old(self)@ }),
                grown_height(self.height as nat, required as nat) == grown_height(
                    old(self)@.height as nat,
                    required as nat,
                ),
                old(self)@.height <= self.height,
            decreases u32::MAX - self.height,
        {
            proof {
                lemma_grown_height(self.height as nat * 2, required as nat);
            }
            self.height = self.height * 2;
        }
        let new_len: usize = GLYPH_ATLAS_WIDTH as usize * self.height as usize;
        pad_mask(&mut self.fill_alpha, new_len);
        pad_mask(&mut self.outline_alpha, new_len);
        self.dirty = true;
    }

    /// The atlas as it is handed to a renderer, if it has glyphs. It is only
    /// copied where it has changed.
    pub fn snapshot(&mut self) -> (result: Option<&DanmakuGlyphAtlas>)
        requires
            old(self).wf(),
        ensures
            final(self).wf(),
            final(self)@ == old(self)@,
            result is None <==> old(self)@.packed.is_empty(),
            result matches Some(snapshot) ==> shows(*snapshot, old(self)@),
    {
        if self.packed.is_empty() {
            return None;
        }
        if self.dirty || self.snapshot.is_none() {
            self.snapshot = Some(
                DanmakuGlyphAtlas {
                    width: GLYPH_ATLAS_WIDTH,
                    height: self.height,
                    stride: GLYPH_ATLAS_WIDTH as usize,
                    fill_alpha: slice_to_vec(self.fill_alpha.as_slice()),
                    outline_alpha: slice_to_vec(self.outline_alpha.as_slice()),
                    version: self.version,
                },
            );
            self.dirty = false;
        }
        self.snapshot.as_ref()
    }
}

/// Glyphs are packed in rows: one comes next to the one before where there is room, and
/// else at the start of the next row.
pub proof fn law_glyphs_are_packed_in_rows(atlas: AtlasModel, width: u32, height: u32)
    requires
        atlas.is_sound(),
    ensures
        ({
            let place = atlas.place(width, height);
            &&& place.x + place.width <= GLYPH_ATLAS_WIDTH
            &&& width <= GLYPH_ATLAS_WIDTH ==> place.width == width
            &&& place.height == height
            &&& atlas.cursor_x + width <= GLYPH_ATLAS_WIDTH ==> place.x == atlas.cursor_x && place.y
                == atlas.cursor_y
            &&& atlas.cursor_x + width > GLYPH_ATLAS_WIDTH && width <= GLYPH_ATLAS_WIDTH
                ==> place.x == 0 && place.y == atlas.cursor_y + atlas.row_height
        }),
{
}

/// A pixel that is plotted changes nothing but itself, and only to cover more.
pub proof fn law_plotting_changes_one_pixel(
    mask: Seq<u8>,
    width: u32,
    height: u32,
    pad: int,
    x: int,
    y: int,
    coverage: Single,
    i: int,
)
    requires
        mask.len() == width * height,
        0 <= i < mask.len(),
    ensures
        ({
            let after = plotted(mask, width, height, pad, x, y, coverage);
            let at = (y + pad) * width + (x + pad);
            let inside = 0 <= x + pad < width && 0 <= y + pad < height;
            &&& after.len() == mask.len()
            &&& i != at || !inside ==> after[i] == mask[i]
            &&& i == at && inside ==> after[i] >= mask[i] && after[i] >= coverage_byte(coverage)
                && (after[i] == mask[i] || after[i] == coverage_byte(coverage))
        }),
{
    let px = x + pad;
    let py = y + pad;
    assert(coverage_byte(coverage) <= 255);
    if 0 <= px < width && 0 <= py < height {
        let at = py * width + px;
        assert(0 <= at < width * height) by (nonlinear_arith)
            requires
                0 <= px < width,
                0 <= py < height,
                at == py * width + px,
        ;
    }
}

/// The stand-in for a glyph is a box with a rim, clear outside.
pub proof fn law_stand_ins_are_boxes(width: int, height: int, pad: int, x: int, y: int)
    ensures
        x < pad || y < pad || x >= width - pad || y >= height - pad ==> box_byte(
            width,
            height,
            pad,
            x,
            y,
        ) == 0,
        pad < x < width - pad - 1 && pad < y < height - pad - 1 ==> box_byte(
            width,
            height,
            pad,
            x,
            y,
        ) == 230,
        pad <= x < width - pad && pad <= y < height - pad && (x == pad || y == pad || x == width
            - pad - 1 || y == height - pad - 1) ==> box_byte(width, height, pad, x, y) == 180,
{
}

/// An atlas that grows keeps what it holds, doubles until there is enough room, and is
/// clear below.
pub proof fn law_grown_atlas_keeps_what_it_holds(atlas: AtlasModel, required: nat, i: int)
    requires
        atlas.is_sound(),
        atlas.can_grow_to(required),
    ensures
        atlas.grown(required).height >= atlas.height,
        atlas.grown(required).height >= required,
        required <= atlas.height ==> atlas.grown(required).height == atlas.height,
        0 <= i < atlas.fill.len() && i < atlas.grown(required).fill.len() ==> atlas.grown(
            required,
        ).fill[i] == atlas.fill[i] && atlas.grown(required).outline[i] == atlas.outline[i],
        atlas.fill.len() <= i < atlas.grown(required).fill.len() ==> atlas.grown(required).fill[i]
            == 0,
        atlas.grown(required).packed == atlas.packed,
{
    lemma_grown_is_enough(atlas.height as nat, required);
    let height = grown_height(atlas.height as nat, required);
    assert(GLYPH_ATLAS_WIDTH * atlas.height <= GLYPH_ATLAS_WIDTH * height);
}

proof fn lemma_grown_is_enough(height: nat, required: nat)
    requires
        height > 0,
    ensures
        grown_height(height, required) >= required,
        grown_height(height, required) >= height,
    decreases crate::time::sat_sub(required, height),
{
    if required > height {
        lemma_grown_is_enough(height * 2, required);
    }
}

} // verus!
