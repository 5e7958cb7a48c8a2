//! Subtitle bitmaps: coverage masks of one colour and the RGBA planes they
//! expand to.
use crate::subtitle::error::{Result, SubtitleError, SubtitleErrorModel};
use crate::time::Duration;
use vstd::arithmetic::div_mod::lemma_fundamental_div_mod_converse;
use vstd::prelude::*;
use vstd::slice::{slice_subrange, slice_to_vec};

verus! {

broadcast use vstd::seq_lib::group_seq_properties;

/// The longest list of bitmaps that an import follows.
pub const RAW_ASS_IMAGE_LIST_LIMIT: usize = 16_384;

// ---------------------------------------------------------------------------
// Placement
// ---------------------------------------------------------------------------

/// The rectangle of a frame that a bitmap covers.
#[derive(Debug, Clone, Copy, PartialEq, Eq, Structural)]
pub struct SubtitleBitmapPlacement {
    pub x: i32,
    pub y: i32,
    pub width: u32,
    pub height: u32,
}

impl SubtitleBitmapPlacement {
    /// Whether the rectangle covers a pixel.
    pub open spec fn covers(self, px: int, py: int) -> bool {
        &&& self.x <= px < self.x + self.width
        &&& self.y <= py < self.y + self.height
    }

    /// A rectangle by its corner and size.
    pub fn new(x: i32, y: i32, width: u32, height: u32) -> (result: Self)
        ensures
            result == (SubtitleBitmapPlacement { x, y, width, height }),
    {
        Self { x, y, width, height }
    }

    /// The part of the rectangle inside a frame, if there is any.
    pub fn clipped_to(self, frame_width: u32, frame_height: u32) -> (result: Option<Self>)
        ensures
            match result {
                Some(part) => {
                    &&& part.width > 0 && part.height > 0
                    &&& forall|px: int, py: int| #[trigger]
                        part.covers(px, py) <==> self.covers(px, py) && 0 <= px < frame_width && 0
                            <= py < frame_height
                },
                None => forall|px: int, py: int| #[trigger]
                    self.covers(px, py) ==> !(0 <= px < frame_width && 0 <= py < frame_height),
            },
    {
        let left: i64 = if self.x > 0 {
            self.x as i64
        } else {
            0
        };
        let top: i64 = if self.y > 0 {
            self.y as i64
        } else {
            0
        };
        let far_x: i64 = self.x as i64 + self.width as i64;
        let far_y: i64 = self.y as i64 + self.height as i64;
        let right: i64 = if far_x < frame_width as i64 {
            far_x
        } else {
            frame_width as i64
        };
        let bottom: i64 = if far_y < frame_height as i64 {
            far_y
        } else {
            frame_height as i64
        };
        if right <= left || bottom <= top {
            return None;
        }
        Some(Self::new(left as i32, top as i32, (right - left) as u32, (bottom - top) as u32))
    }
}

/// A rectangle with pixels is determined by the pixels that it covers, so there
/// is only one that a clip can give.
pub proof fn law_placement_is_its_pixels(a: SubtitleBitmapPlacement, b: SubtitleBitmapPlacement)
    requires
        a.width > 0 && a.height > 0 && b.width > 0 && b.height > 0,
        forall|px: int, py: int| #[trigger] a.covers(px, py) <==> b.covers(px, py),
    ensures
        a == b,
{
    assert(a.covers(a.x as int, a.y as int));
    assert(b.covers(b.x as int, b.y as int));
    assert(a.covers(b.x as int, b.y as int));
    assert(b.covers(a.x as int, a.y as int));
    assert(a.covers(a.x + a.width - 1, a.y + a.height - 1));
    assert(b.covers(b.x + b.width - 1, b.y + b.height - 1));
    assert(b.covers(a.x + a.width - 1, a.y + a.height - 1));
    assert(a.covers(b.x + b.width - 1, b.y + b.height - 1));
}

// ---------------------------------------------------------------------------
// Colour
// ---------------------------------------------------------------------------

/// A straight colour.
#[derive(Debug, Clone, Copy, PartialEq, Eq, Structural)]
pub struct AssColor {
    pub red: u8,
    pub green: u8,
    pub blue: u8,
    pub alpha: u8,
}

/// The colour that a libass colour word stands for: its bytes are, from the
/// highest, red, green, blue and transparency.
pub open spec fn ass_color(word: u32) -> AssColor {
    AssColor {
        red: (word / 0x100_0000) as u8,
        green: (word / 0x1_0000 % 0x100) as u8,
        blue: (word / 0x100 % 0x100) as u8,
        alpha: (255 - word % 0x100) as u8,
    }
}

impl AssColor {
    /// Reads a libass colour word.
    pub fn from_libass_rgba(color: u32) -> (result: Self)
        ensures
            result == ass_color(color),
            color == result.red * 0x100_0000 + result.green * 0x1_0000 + result.blue * 0x100 + (255
                - result.alpha),
    {
        assert((color >> 24) & 0xff == color / 0x100_0000) by (bit_vector);
        assert((color >> 16) & 0xff == color / 0x1_0000 % 0x100) by (bit_vector);
        assert((color >> 8) & 0xff == color / 0x100 % 0x100) by (bit_vector);
        assert(color & 0xff == color % 0x100) by (bit_vector);
        Self {
            red: ((color >> 24) & 0xff) as u8,
            green: ((color >> 16) & 0xff) as u8,
            blue: ((color >> 8) & 0xff) as u8,
            alpha: (0xff - (color & 0xff)) as u8,
        }
    }
}

/// The product of two fractions of 255, to the nearest.
pub open spec fn scale_u8(a: u8, b: u8) -> u8 {
    ((a * b + 127) / 255) as u8
}

/// Multiplies two fractions of 255.
pub fn multiply_u8(a: u8, b: u8) -> (result: u8)
    ensures
        result == scale_u8(a, b),
        result <= a,
        result <= b,
        b == 255 ==> result == a,
        b == 0 ==> result == 0,
{
    assert(a * b <= 255 * 255 && a * b <= a * 255 && a * b <= 255 * b && a * b >= 0)
        by (nonlinear_arith)
        requires
            0 <= a <= 255,
            0 <= b <= 255,
    ;
    ((a as u16 * b as u16 + 127) / 255) as u8
}

// ---------------------------------------------------------------------------
// RGBA planes and frames
// ---------------------------------------------------------------------------

/// A rectangle of straight RGBA pixels, row by row.
#[derive(Debug, Clone, PartialEq, Eq)]
pub struct SubtitleBitmapPlane {
    pub x: i32,
    pub y: i32,
    pub width: u32,
    pub height: u32,
    pub rgba: Vec<u8>,
}

/// A plane, with its pixels as a sequence of bytes.
pub struct PlaneModel {
    pub x: i32,
    pub y: i32,
    pub width: u32,
    pub height: u32,
    pub rgba: Seq<u8>,
}

impl View for SubtitleBitmapPlane {
    type V = PlaneModel;

    open spec fn view(&self) -> PlaneModel {
        PlaneModel {
            x: self.x,
            y: self.y,
            width: self.width,
            height: self.height,
            rgba: self.rgba@,
        }
    }
}

/// The planes of a sequence.
pub open spec fn planes_view(planes: Seq<SubtitleBitmapPlane>) -> Seq<PlaneModel> {
    Seq::new(planes.len(), |i: int| planes[i]@)
}

/// The planes that are shown from one moment on.
#[derive(Debug, Clone, PartialEq, Eq)]
pub struct SubtitleFrame {
    pub pts: Duration,
    pub planes: Vec<SubtitleBitmapPlane>,
}

/// A frame, with its planes as models.
pub struct FrameModel {
    pub pts: nat,
    pub planes: Seq<PlaneModel>,
}

impl View for SubtitleFrame {
    type V = FrameModel;

    open spec fn view(&self) -> FrameModel {
        FrameModel { pts: self.pts@, planes: planes_view(self.planes@) }
    }
}

// ---------------------------------------------------------------------------
// Coverage masks
// ---------------------------------------------------------------------------

/// The number of bytes that rows of a bitmap take up, the last one without its
/// padding; held at the largest machine number.
pub open spec fn mask_len(width: nat, height: nat, stride: nat) -> nat {
    if width == 0 || height == 0 {
        0
    } else if stride * (height - 1) + width > usize::MAX {
        usize::MAX as nat
    } else {
        (stride * (height - 1) + width) as nat
    }
}

/// A mask of one colour: a coverage byte for each pixel.
#[derive(Debug, Clone, PartialEq, Eq)]
pub struct SubtitleAlphaBitmap {
    pub placement: SubtitleBitmapPlacement,
    pub stride: usize,
    pub color_rgba: u32,
    pub alpha: Vec<u8>,
}

/// A mask, with its coverage as a sequence of bytes.
pub struct AlphaModel {
    pub placement: SubtitleBitmapPlacement,
    pub stride: usize,
    pub color_rgba: u32,
    pub alpha: Seq<u8>,
}

impl View for SubtitleAlphaBitmap {
    type V = AlphaModel;

    open spec fn view(&self) -> AlphaModel {
        AlphaModel {
            placement: self.placement,
            stride: self.stride,
            color_rgba: self.color_rgba,
            alpha: self.alpha@,
        }
    }
}

impl AlphaModel {
    /// Whether the coverage reaches the last pixel.
    pub open spec fn is_valid(self) -> bool {
        self.alpha.len() >= mask_len(
            self.placement.width as nat,
            self.placement.height as nat,
            self.stride as nat,
        )
    }

    /// Whether the coverage and the RGBA pixels can be held in memory.
    pub open spec fn fits_in_memory(self) -> bool {
        &&& self.alpha.len() < usize::MAX
        &&& self.is_valid() ==> self.placement.width * self.placement.height * 4 <= usize::MAX
    }

    /// The coverage of a pixel.
    pub open spec fn coverage(self, x: int, y: int) -> u8 {
        self.alpha[y * self.stride + x]
    }

    /// One byte of a pixel: red, green, blue and alpha in this order.
    pub open spec fn channel(self, x: int, y: int, channel: int) -> u8 {
        let color = ass_color(self.color_rgba);
        if channel == 0 {
            color.red
        } else if channel == 1 {
            color.green
        } else if channel == 2 {
            color.blue
        } else {
            scale_u8(color.alpha, self.coverage(x, y))
        }
    }

    /// The pixels of the mask: the colour of the mask in each, with its alpha
    /// scaled by the coverage.
    pub open spec fn rgba(self) -> Seq<u8> {
        let width = self.placement.width as int;
        Seq::new(
            (self.placement.width * self.placement.height * 4) as nat,
            |i: int| self.channel(i / 4 % width, i / 4 / width, i % 4),
        )
    }

    /// The plane that the mask expands to, if it has pixels and covers them.
    pub open spec fn plane(self) -> Option<PlaneModel> {
        if self.is_valid() && self.placement.width > 0 && self.placement.height > 0 {
            Some(
                PlaneModel {
                    x: self.placement.x,
                    y: self.placement.y,
                    width: self.placement.width,
                    height: self.placement.height,
                    rgba: self.rgba(),
                },
            )
        } else {
            None
        }
    }
}

/// The place of a channel in a row of pixels.
proof fn lemma_pixel_index(width: int, x: int, y: int, channel: int)
    requires
        width > 0,
        0 <= x < width,
        0 <= y,
        0 <= channel < 4,
    ensures
        ({
            let i = (y * width + x) * 4 + channel;
            &&& i % 4 == channel
            &&& i / 4 == y * width + x
            &&& i / 4 % width == x
            &&& i / 4 / width == y
        }),
{
    lemma_fundamental_div_mod_converse((y * width + x) * 4 + channel, 4, y * width + x, channel);
    lemma_fundamental_div_mod_converse(y * width + x, width, y, x);
}

/// A pixel of a rectangle comes before its end.
proof fn lemma_row_bound(width: int, height: int, x: int, y: int)
    requires
        0 <= x < width,
        0 <= y < height,
    ensures
        0 <= y * width + x < width * height,
        y * width + width <= width * height,
{
    assert(y * width + width <= width * height && y * width >= 0) by (nonlinear_arith)
        requires
            0 <= y < height,
            0 < width,
    ;
}

impl SubtitleAlphaBitmap {
    /// A mask whose rows are at least as long as it is wide.
    pub fn new(
        placement: SubtitleBitmapPlacement,
        stride: usize,
        color_rgba: u32,
        alpha: Vec<u8>,
    ) -> (result: Self)
        requires
            placement.width <= usize::MAX,
        ensures
            result.placement == placement,
            result.stride == if stride < placement.width { placement.width as int } else { stride as int },
            result.color_rgba == color_rgba,
            result.alpha@ == alpha@,
    {
        let width: usize = placement.width as usize;
        Self {
            placement,
            stride: if stride < width {
                width
            } else {
                stride
            },
            color_rgba,
            alpha,
        }
    }

    /// The number of coverage bytes that the mask needs.
    pub fn required_len(&self) -> (result: usize)
        ensures
            result == mask_len(
                self.placement.width as nat,
                self.placement.height as nat,
                self.stride as nat,
            ),
    {
        if self.placement.height == 0 || self.placement.width == 0 {
            return 0;
        }
        covered_bytes(self.placement.width, self.placement.height, self.stride)
    }

    /// Whether the coverage reaches the last pixel.
    pub fn is_valid(&self) -> (result: bool)
        ensures
            result == self@.is_valid(),
    {
        self.alpha.len() >= self.required_len()
    }

    /// Expands the mask to RGBA pixels.
    pub fn to_rgba_plane(&self) -> (result: Option<SubtitleBitmapPlane>)
        requires
            self@.fits_in_memory(),
        ensures
            result is Some <==> self@.plane() is Some,
            result matches Some(plane) ==> Some(plane@) == self@.plane(),
    {
        if !self.is_valid() {
            return None;
        }
        if self.placement.width == 0 || self.placement.height == 0 {
            return None;
        }
        let width: usize = self.placement.width as usize;
        let height: usize = self.placement.height as usize;
        let ghost model = self@;
        let color = AssColor::from_libass_rgba(self.color_rgba);
        let mut rgba: Vec<u8> = Vec::new();
        assert(rgba@ =~= model.rgba().take(0));
        let mut y: usize = 0;
        while y < height
            invariant
                y <= height,
                width == self.placement.width,
                height == self.placement.height,
                width > 0,
                height > 0,
                model == self@,
                model.is_valid(),
                model.fits_in_memory(),
                color == ass_color(model.color_rgba),
                rgba@ == model.rgba().take(y * width * 4),
                y * width * 4 <= model.rgba().len(),
            decreases height - y,
        {
            proof {
                lemma_row_bound(width as int, height as int, 0, y as int);
                assert(y * self.stride <= self.stride * (height - 1) && y * self.stride >= 0)
                    by (nonlinear_arith)
                    requires
                        y <= height - 1,
                        y >= 0,
                        self.stride >= 0,
                ;
            }
            let row_start: usize = y * self.stride;
            let mut x: usize = 0;
            while x < width
                invariant
                    x <= width,
                    y < height,
                    width == self.placement.width,
                    height == self.placement.height,
                    model == self@,
                    model.is_valid(),
                    color == ass_color(model.color_rgba),
                    row_start == y * self.stride,
                    row_start + width <= self.alpha@.len() < usize::MAX,
                    rgba@ == model.rgba().take((y * width + x) * 4),
                    0 <= y * width,
                    y * width + width <= width * height,
                decreases width - x,
            {
                let coverage: u8 = self.alpha[row_start + x];
                let alpha: u8 = multiply_u8(color.alpha, coverage);
                rgba.push(color.red);
                rgba.push(color.green);
                rgba.push(color.blue);
                rgba.push(alpha);
                proof {
                    let at = (y * width + x) * 4;
                    lemma_pixel_index(width as int, x as int, y as int, 0);
                    lemma_pixel_index(width as int, x as int, y as int, 1);
                    lemma_pixel_index(width as int, x as int, y as int, 2);
                    lemma_pixel_index(width as int, x as int, y as int, 3);
                    assert(model.coverage(x as int, y as int) == coverage);
                    assert(at + 4 <= model.rgba().len());
                    assert(rgba@ =~= model.rgba().take(at + 4));
                }
                x += 1;
            }
            assert((y * width + width) * 4 == (y + 1) * width * 4) by (nonlinear_arith);
            y += 1;
        }
        assert(height * width * 4 == width * height * 4) by (nonlinear_arith);
        assert(rgba@ =~= model.rgba());
        Some(
            SubtitleBitmapPlane {
                x: self.placement.x,
                y: self.placement.y,
                width: self.placement.width,
                height: self.placement.height,
                rgba,
            },
        )
    }
}

/// The number of bytes that the rows of a bitmap with pixels take up.
fn covered_bytes(width: u32, height: u32, stride: usize) -> (result: usize)
    requires
        width > 0,
        height > 0,
    ensures
        result == mask_len(width as nat, height as nat, stride as nat),
{
    match stride.checked_mul((height - 1) as usize) {
        Some(prefix) => match prefix.checked_add(width as usize) {
            Some(total) => total,
            None => usize::MAX,
        },
        None => usize::MAX,
    }
}

/// How the pixels of a bitmap are to be read.
#[derive(Debug, Clone, Copy, PartialEq, Eq, Structural)]
pub enum SubtitleBitmapColorSpace {
    Srgb,
    Video,
}

impl Default for SubtitleBitmapColorSpace {
    fn default() -> (result: Self)
        ensures
            result == SubtitleBitmapColorSpace::Srgb,
    {
        SubtitleBitmapColorSpace::Srgb
    }
}

/// The masks of a sequence.
pub open spec fn parts_model(parts: Seq<SubtitleAlphaBitmap>) -> Seq<AlphaModel> {
    Seq::new(parts.len(), |i: int| parts[i]@)
}

/// The masks that are shown from one moment on.
#[derive(Debug, Clone, PartialEq, Eq)]
pub struct SubtitleBitmapSet {
    pub pts: Duration,
    pub frame_width: u32,
    pub frame_height: u32,
    pub color_space: SubtitleBitmapColorSpace,
    pub parts: Vec<SubtitleAlphaBitmap>,
    pub changed: bool,
}

/// A set of masks as models.
pub struct BitmapSetModel {
    pub pts: nat,
    pub frame_width: u32,
    pub frame_height: u32,
    pub color_space: SubtitleBitmapColorSpace,
    pub parts: Seq<AlphaModel>,
    pub changed: bool,
}

impl View for SubtitleBitmapSet {
    type V = BitmapSetModel;

    open spec fn view(&self) -> BitmapSetModel {
        BitmapSetModel {
            pts: self.pts@,
            frame_width: self.frame_width,
            frame_height: self.frame_height,
            color_space: self.color_space,
            parts: parts_model(self.parts@),
            changed: self.changed,
        }
    }
}

/// The planes of the masks that expand to one, in their order.
pub open spec fn expand_all(parts: Seq<AlphaModel>) -> Seq<PlaneModel>
    decreases parts.len(),
{
    if parts.len() == 0 {
        Seq::empty()
    } else {
        match parts.last().plane() {
            Some(plane) => expand_all(parts.drop_last()).push(plane),
            None => expand_all(parts.drop_last()),
        }
    }
}

/// The masks, with one more if it has pixels.
pub open spec fn push_mask(parts: Seq<AlphaModel>, mask: AlphaModel) -> Seq<AlphaModel> {
    if mask.placement.width > 0 && mask.placement.height > 0 {
        parts.push(mask)
    } else {
        parts
    }
}

impl SubtitleBitmapSet {
    /// An empty set that counts as changed.
    pub fn new(pts: Duration, frame_width: u32, frame_height: u32) -> (result: Self)
        ensures
            result@ == (BitmapSetModel {
                pts: pts@,
                frame_width,
                frame_height,
                color_space: SubtitleBitmapColorSpace::Srgb,
                parts: Seq::empty(),
                changed: true,
            }),
    {
        let result = Self {
            pts,
            frame_width,
            frame_height,
            color_space: SubtitleBitmapColorSpace::default(),
            parts: Vec::new(),
            changed: true,
        };
        assert(result@.parts =~= Seq::<AlphaModel>::empty());
        result
    }

    /// The set with another colour space.
    pub fn with_color_space(self, color_space: SubtitleBitmapColorSpace) -> (result: Self)
        ensures
            result@ == (BitmapSetModel { color_space, ..self@ }),
    {
        Self {
            pts: self.pts,
            frame_width: self.frame_width,
            frame_height: self.frame_height,
            color_space,
            parts: self.parts,
            changed: self.changed,
        }
    }

    /// The set with another mark of change.
    pub fn with_changed(self, changed: bool) -> (result: Self)
        ensures
            result@ == (BitmapSetModel { changed, ..self@ }),
    {
        Self {
            pts: self.pts,
            frame_width: self.frame_width,
            frame_height: self.frame_height,
            color_space: self.color_space,
            parts: self.parts,
            changed,
        }
    }

    /// Appends a mask if it has pixels.
    pub fn push(&mut self, bitmap: SubtitleAlphaBitmap)
        ensures
            final(self)@ == (BitmapSetModel {
                parts: push_mask(old(self)@.parts, bitmap@),
                ..old(self)@
            }),
    {
        if bitmap.placement.width > 0 && bitmap.placement.height > 0 {
            self.parts.push(bitmap);
        }
        assert(self@.parts =~= push_mask(old(self)@.parts, bitmap@));
    }

    /// Expands every mask that covers its pixels.
    pub fn to_frame(&self) -> (result: SubtitleFrame)
        requires
            forall|i: int| 0 <= i < self@.parts.len() ==> (#[trigger] self@.parts[i]).fits_in_memory(),
        ensures
            result@ == (FrameModel { pts: self@.pts, planes: expand_all(self@.parts) }),
    {
        let mut planes: Vec<SubtitleBitmapPlane> = Vec::new();
        assert(planes_view(planes@) =~= Seq::<PlaneModel>::empty());
        let mut i: usize = 0;
        while i < self.parts.len()
            invariant
                i <= self.parts@.len(),
                forall|k: int|
                    0 <= k < self@.parts.len() ==> (#[trigger] self@.parts[k]).fits_in_memory(),
                planes_view(planes@) == expand_all(self@.parts.take(i as int)),
            decreases self.parts@.len() - i,
        {
            let ghost before = planes_view(planes@);
            assert(self@.parts[i as int] == self.parts@[i as int]@);
            assert(self@.parts.take(i as int + 1).drop_last() =~= self@.parts.take(i as int));
            if let Some(plane) = self.parts[i].to_rgba_plane() {
                planes.push(plane);
                assert(planes_view(planes@) =~= before.push(plane@));
            }
            i += 1;
        }
        assert(self@.parts.take(i as int) =~= self@.parts);
        SubtitleFrame { pts: self.pts, planes }
    }
}

// ---------------------------------------------------------------------------
// ASS bitmaps
// ---------------------------------------------------------------------------

/// Whether a buffer covers the pixels of a bitmap.
pub open spec fn bitmap_is_covered(width: u32, height: u32, stride: usize, bytes: usize) -> bool {
    width == 0 || height == 0 || (stride >= width && bytes >= mask_len(
        width as nat,
        height as nat,
        stride as nat,
    ))
}

/// Checks that a buffer covers the pixels of a bitmap.
pub fn validate_ass_bitmap(width: u32, height: u32, stride: usize, bytes: usize) -> (result: Result<
    (),
>)
    ensures
        result is Ok <==> bitmap_is_covered(width, height, stride, bytes),
        result matches Err(error) ==> error == (SubtitleError::InvalidBitmap {
            width,
            height,
            stride,
            bytes,
        }),
{
    if width == 0 || height == 0 {
        return Ok(());
    }
    let required: usize = covered_bytes(width, height, stride);
    if stride < width as usize || bytes < required {
        return Err(SubtitleError::InvalidBitmap { width, height, stride, bytes });
    }
    Ok(())
}

/// The number of bytes that a bitmap takes up in a buffer of any length.
pub fn required_bitmap_len(width: u32, height: u32, stride: usize) -> (result: Result<usize>)
    requires
        width > 0 && height > 0 ==> stride * (height - 1) + width <= usize::MAX,
    ensures
        result is Ok <==> width == 0 || height == 0 || stride >= width,
        result matches Ok(len) ==> len == mask_len(width as nat, height as nat, stride as nat),
        result matches Err(error) ==> error == (SubtitleError::InvalidBitmap {
            width,
            height,
            stride,
            bytes: usize::MAX,
        }),
{
    match validate_ass_bitmap(width, height, stride, usize::MAX) {
        Ok(()) => {
            if width == 0 || height == 0 {
                Ok(0)
            } else {
                Ok(covered_bytes(width, height, stride))
            }
        },
        Err(error) => Err(error),
    }
}

/// A mask as libass hands it out.
#[derive(Debug, Clone, PartialEq, Eq)]
pub struct AssBitmapPlane {
    pub x: i32,
    pub y: i32,
    pub width: u32,
    pub height: u32,
    pub stride: usize,
    pub color: u32,
    pub alpha: Vec<u8>,
}

impl AssBitmapPlane {
    /// Whether the buffer covers the pixels.
    pub open spec fn is_covered(self) -> bool {
        bitmap_is_covered(self.width, self.height, self.stride, self.alpha@.len() as usize)
    }

    /// The refusal of this bitmap.
    pub open spec fn refusal(self) -> SubtitleErrorModel {
        SubtitleErrorModel::InvalidBitmap {
            width: self.width,
            height: self.height,
            stride: self.stride,
            bytes: self.alpha@.len() as usize,
        }
    }

    /// The mask that the bitmap holds.
    pub open spec fn mask(self) -> AlphaModel {
        AlphaModel {
            placement: SubtitleBitmapPlacement {
                x: self.x,
                y: self.y,
                width: self.width,
                height: self.height,
            },
            stride: self.stride,
            color_rgba: self.color,
            alpha: self.alpha@,
        }
    }

    /// A bitmap whose buffer covers its pixels.
    pub fn new(
        x: i32,
        y: i32,
        width: u32,
        height: u32,
        stride: usize,
        color: u32,
        alpha: Vec<u8>,
    ) -> (result: Result<Self>)
        ensures
            result is Ok <==> bitmap_is_covered(width, height, stride, alpha@.len() as usize),
            result matches Ok(plane) ==> plane == (AssBitmapPlane {
                x,
                y,
                width,
                height,
                stride,
                color,
                alpha,
            }),
            result matches Err(error) ==> error == (SubtitleError::InvalidBitmap {
                width,
                height,
                stride,
                bytes: alpha@.len() as usize,
            }),
    {
        match validate_ass_bitmap(width, height, stride, alpha.len()) {
            Ok(()) => Ok(Self { x, y, width, height, stride, color, alpha }),
            Err(error) => Err(error),
        }
    }

    /// Expands the bitmap to RGBA pixels.
    pub fn to_rgba_plane(&self) -> (result: Result<SubtitleBitmapPlane>)
        requires
            self.mask().fits_in_memory(),
        ensures
            result is Ok <==> self.is_covered() && self.width > 0 && self.height > 0,
            result matches Ok(plane) ==> Some(plane@) == self.mask().plane(),
            result matches Err(error) ==> error@ == self.refusal(),
    {
        match self.as_alpha_bitmap() {
            Ok(Some(bitmap)) => match bitmap.to_rgba_plane() {
                Some(plane) => Ok(plane),
                None => Err(
                    SubtitleError::InvalidBitmap {
                        width: self.width,
                        height: self.height,
                        stride: self.stride,
                        bytes: self.alpha.len(),
                    },
                ),
            },
            Ok(None) => Err(
                SubtitleError::InvalidBitmap {
                    width: self.width,
                    height: self.height,
                    stride: self.stride,
                    bytes: self.alpha.len(),
                },
            ),
            Err(error) => Err(error),
        }
    }

    /// The mask of the bitmap, if it has pixels.
    pub fn as_alpha_bitmap(&self) -> (result: Result<Option<SubtitleAlphaBitmap>>)
        ensures
            result is Ok <==> self.is_covered(),
            result matches Ok(None) ==> self.width == 0 || self.height == 0,
            result matches Ok(Some(bitmap)) ==> self.width > 0 && self.height > 0 && bitmap@
                == self.mask(),
            result matches Err(error) ==> error@ == self.refusal(),
    {
        match validate_ass_bitmap(self.width, self.height, self.stride, self.alpha.len()) {
            Ok(()) => {
                if self.width == 0 || self.height == 0 {
                    return Ok(None);
                }
                Ok(
                    Some(
                        SubtitleAlphaBitmap::new(
                            SubtitleBitmapPlacement::new(self.x, self.y, self.width, self.height),
                            self.stride,
                            self.color,
                            slice_to_vec(self.alpha.as_slice()),
                        ),
                    ),
                )
            },
            Err(error) => Err(error),
        }
    }
}

/// The masks of the bitmaps that have pixels.
pub open spec fn masks_of(bitmaps: Seq<AssBitmapPlane>) -> Seq<AlphaModel>
    decreases bitmaps.len(),
{
    if bitmaps.len() == 0 {
        Seq::empty()
    } else {
        push_mask(masks_of(bitmaps.drop_last()), bitmaps.last().mask())
    }
}

impl SubtitleFrame {
    /// Expands bitmaps to the planes of a frame. The first bitmap whose buffer
    /// does not cover its pixels is refused.
    pub fn from_ass_bitmaps(pts: Duration, bitmaps: &[AssBitmapPlane]) -> (result: Result<Self>)
        requires
            forall|i: int|
                0 <= i < bitmaps@.len() ==> (#[trigger] bitmaps@[i]).mask().fits_in_memory(),
        ensures
            result is Ok <==> forall|i: int|
                0 <= i < bitmaps@.len() ==> (#[trigger] bitmaps@[i]).is_covered(),
            result matches Ok(frame) ==> frame@ == (FrameModel {
                pts: pts@,
                planes: expand_all(masks_of(bitmaps@)),
            }),
            result matches Err(error) ==> exists|i: int|
                {
                    &&& 0 <= i < bitmaps@.len()
                    &&& !(#[trigger] bitmaps@[i]).is_covered()
                    &&& error@ == bitmaps@[i].refusal()
                    &&& forall|k: int| 0 <= k < i ==> (#[trigger] bitmaps@[k]).is_covered()
                },
    {
        let mut set = SubtitleBitmapSet::new(pts, 1, 1);
        let mut i: usize = 0;
        while i < bitmaps.len()
            invariant
                i <= bitmaps@.len(),
                set@.pts == pts@,
                set@.parts == masks_of(bitmaps@.take(i as int)),
                forall|k: int|
                    0 <= k < bitmaps@.len() ==> (#[trigger] bitmaps@[k]).mask().fits_in_memory(),
                forall|k: int| 0 <= k < i ==> (#[trigger] bitmaps@[k]).is_covered(),
                forall|k: int|
                    0 <= k < set@.parts.len() ==> (#[trigger] set@.parts[k]).fits_in_memory(),
            decreases bitmaps@.len() - i,
        {
            assert(bitmaps@.take(i as int + 1).drop_last() =~= bitmaps@.take(i as int));
            match bitmaps[i].as_alpha_bitmap() {
                Ok(Some(part)) => {
                    set.push(part);
                },
                Ok(None) => {},
                Err(error) => {
                    return Err(error);
                },
            }
            i += 1;
        }
        assert(bitmaps@.take(i as int) =~= bitmaps@);
        Ok(set.to_frame())
    }
}

// ---------------------------------------------------------------------------
// Import of libass image lists
// ---------------------------------------------------------------------------

/// One image of a list that libass hands out. An image without a buffer has no
/// bitmap.
#[derive(Debug, Clone, PartialEq, Eq)]
pub struct RawAssImage {
    pub w: i32,
    pub h: i32,
    pub stride: i32,
    pub bitmap: Option<Vec<u8>>,
    pub color: u32,
    pub dst_x: i32,
    pub dst_y: i32,
    pub image_type: i32,
}

impl RawAssImage {
    /// Whether the image has pixels.
    pub open spec fn has_pixels(self) -> bool {
        self.w > 0 && self.h > 0
    }

    /// The length of a row in bytes.
    pub open spec fn row_len(self) -> nat {
        if self.stride < 0 {
            0
        } else {
            self.stride as nat
        }
    }

    /// The bytes that the image takes up.
    pub open spec fn byte_len(self) -> nat {
        (self.row_len() * (self.h - 1) + self.w) as nat
    }

    /// Whether the buffer of an image with pixels is as long as its rows.
    pub open spec fn is_backed(self) -> bool {
        self.has_pixels() && self.row_len() >= self.w ==> match self.bitmap {
            Some(bytes) => bytes@.len() >= self.byte_len(),
            None => true,
        }
    }

    /// Why the image is refused, if it is.
    pub open spec fn refusal(self) -> Option<SubtitleErrorModel> {
        if !self.has_pixels() {
            None
        } else if self.bitmap is None {
            Some(SubtitleErrorModel::NullBitmap)
        } else if self.row_len() < self.w {
            Some(
                SubtitleErrorModel::InvalidBitmap {
                    width: self.w as u32,
                    height: self.h as u32,
                    stride: self.row_len() as usize,
                    bytes: usize::MAX,
                },
            )
        } else {
            None
        }
    }

    /// The mask of an image with pixels.
    pub open spec fn mask(self) -> AlphaModel {
        AlphaModel {
            placement: SubtitleBitmapPlacement {
                x: self.dst_x,
                y: self.dst_y,
                width: self.w as u32,
                height: self.h as u32,
            },
            stride: self.row_len() as usize,
            color_rgba: self.color,
            alpha: self.bitmap->0@.take(self.byte_len() as int),
        }
    }
}

/// What comes of importing a list: the masks of the images with pixels, or the
/// first refusal. The images beyond the limit are not read.
pub open spec fn import_outcome(images: Seq<RawAssImage>) -> core::result::Result<
    Seq<AlphaModel>,
    SubtitleErrorModel,
>
    decreases images.len(),
{
    if images.len() == 0 {
        Ok(Seq::empty())
    } else {
        match import_outcome(images.drop_last()) {
            Err(error) => Err(error),
            Ok(parts) => if images.len() > RAW_ASS_IMAGE_LIST_LIMIT {
                Err(SubtitleErrorModel::BitmapListTooLong)
            } else if !images.last().has_pixels() {
                Ok(parts)
            } else {
                match images.last().refusal() {
                    Some(error) => Err(error),
                    None => Ok(parts.push(images.last().mask())),
                }
            },
        }
    }
}

/// An error in a prefix of the list is the error of the list.
proof fn lemma_import_outcome_prefix(images: Seq<RawAssImage>, n: int)
    requires
        0 <= n <= images.len(),
        import_outcome(images.take(n)) is Err,
    ensures
        import_outcome(images) == import_outcome(images.take(n)),
    decreases images.len(),
{
    if n < images.len() {
        assert(images.drop_last().take(n) =~= images.take(n));
        lemma_import_outcome_prefix(images.drop_last(), n);
    } else {
        assert(images.take(n) =~= images);
    }
}

/// Turns one image with pixels into a mask.
pub fn raw_ass_image_to_alpha_bitmap(image: &RawAssImage) -> (result: Result<SubtitleAlphaBitmap>)
    requires
        image.has_pixels(),
        image.is_backed(),
    ensures
        result is Ok <==> image.refusal() is None,
        result matches Ok(bitmap) ==> bitmap@ == image.mask(),
        result matches Err(error) ==> Some(error@) == image.refusal(),
{
    match &image.bitmap {
        None => Err(SubtitleError::NullBitmap),
        Some(bytes) => {
            let width: u32 = image.w as u32;
            let height: u32 = image.h as u32;
            let stride: usize = if image.stride < 0 {
                0
            } else {
                image.stride as usize
            };
            if stride < width as usize {
                return Err(
                    SubtitleError::InvalidBitmap { width, height, stride, bytes: usize::MAX },
                );
            }
            let available: usize = bytes.len();
            assert(image.byte_len() == stride * (height - 1) + width);
            assert(image.byte_len() <= available);
            match required_bitmap_len(width, height, stride) {
                Err(error) => Err(error),
                Ok(required) => {
                    assert(bytes@.subrange(0, required as int) =~= bytes@.take(required as int));
                    Ok(
                        SubtitleAlphaBitmap::new(
                            SubtitleBitmapPlacement::new(image.dst_x, image.dst_y, width, height),
                            stride,
                            image.color,
                            slice_to_vec(slice_subrange(bytes.as_slice(), 0, required)),
                        ),
                    )
                },
            }
        },
    }
}

/// Reads the image lists of libass.
pub struct LibassImageImporter;

impl LibassImageImporter {
    /// Imports a list of images. Images without pixels are passed over.
    pub fn import_raw_list(
        pts: Duration,
        frame_width: u32,
        frame_height: u32,
        images: &[RawAssImage],
        changed: bool,
    ) -> (result: Result<SubtitleBitmapSet>)
        requires
            forall|i: int| 0 <= i < images@.len() ==> (#[trigger] images@[i]).is_backed(),
        ensures
            match import_outcome(images@) {
                Ok(parts) => result is Ok && result->Ok_0@ == (BitmapSetModel {
                    pts: pts@,
                    frame_width,
                    frame_height,
                    color_space: SubtitleBitmapColorSpace::Video,
                    parts,
                    changed,
                }),
                Err(error) => result is Err && result->Err_0@ == error,
            },
    {
        let mut set = SubtitleBitmapSet::new(pts, frame_width, frame_height).with_color_space(
            SubtitleBitmapColorSpace::Video,
        ).with_changed(changed);
        let mut i: usize = 0;
        assert(set@.parts =~= Seq::<AlphaModel>::empty());
        while i < images.len()
            invariant
                i <= images@.len(),
                i <= RAW_ASS_IMAGE_LIST_LIMIT,
                forall|k: int| 0 <= k < images@.len() ==> (#[trigger] images@[k]).is_backed(),
                import_outcome(images@.take(i as int)) == core::result::Result::<
                    Seq<AlphaModel>,
                    SubtitleErrorModel,
                >::Ok(set@.parts),
                set@ == (BitmapSetModel {
                    pts: pts@,
                    frame_width,
                    frame_height,
                    color_space: SubtitleBitmapColorSpace::Video,
                    parts: set@.parts,
                    changed,
                }),
            decreases images@.len() - i,
        {
            let ghost longer = images@.take(i as int + 1);
            assert(longer.drop_last() =~= images@.take(i as int));
            assert(longer.last() == images@[i as int]);
            if i >= RAW_ASS_IMAGE_LIST_LIMIT {
                proof {
                    lemma_import_outcome_prefix(images@, i as int + 1);
                }
                return Err(SubtitleError::BitmapListTooLong);
            }
            let image: &RawAssImage = &images[i];
            if image.w > 0 && image.h > 0 {
                match raw_ass_image_to_alpha_bitmap(image) {
                    Ok(bitmap) => {
                        set.push(bitmap);
                    },
                    Err(error) => {
                        proof {
                            lemma_import_outcome_prefix(images@, i as int + 1);
                        }
                        return Err(error);
                    },
                }
            }
            i += 1;
        }
        assert(images@.take(i as int) =~= images@);
        Ok(set)
    }
}

/// A placement covers its own corner and not the pixels next to its edges.
pub proof fn law_placement_has_its_corners(placement: SubtitleBitmapPlacement)
    requires
        placement.width > 0 && placement.height > 0,
    ensures
        ({
            let x = placement.x as int;
            let y = placement.y as int;
            let w = placement.width as int;
            let h = placement.height as int;
            &&& placement.covers(x, y)
            &&& placement.covers(x + w - 1, y + h - 1)
            &&& !placement.covers(x - 1, y)
            &&& !placement.covers(x, y - 1)
            &&& !placement.covers(x + w, y)
            &&& !placement.covers(x, y + h)
        }),
{
}

/// The colour of a mask has its bytes from the highest: red, green, blue, and how
/// transparent it is.
pub proof fn law_mask_colours_have_their_bytes(word: u32, red: u8, green: u8, blue: u8, clear: u8)
    requires
        word == red * 0x100_0000 + green * 0x1_0000 + blue * 0x100 + clear,
    ensures
        ass_color(word).red == red,
        ass_color(word).green == green,
        ass_color(word).blue == blue,
        ass_color(word).alpha == 255 - clear,
{
    assert(word / 0x100 == red * 0x1_0000 + green * 0x100 + blue);
    assert(word / 0x1_0000 == red * 0x100 + green);
    assert(word / 0x100_0000 == red);
}

/// A byte scaled by another is the nearest to their product over 255.
pub proof fn law_scaled_bytes_are_the_nearest(a: u8, b: u8)
    ensures
        -127 <= 255 * scale_u8(a, b) - a * b <= 127,
        scale_u8(a, b) == scale_u8(b, a),
        scale_u8(a, 255) == a,
        scale_u8(a, 0) == 0,
{
    assert(0 <= a * b <= 255 * 255) by (nonlinear_arith)
        requires
            0 <= a <= 255,
            0 <= b <= 255,
    ;
    assert(a * b == b * a) by (nonlinear_arith);
    let product = a * b;
    assert(0 <= (product + 127) / 255 <= 255);
}

/// A mask is turned into pixels place by place: each pixel has the colour of the mask,
/// and an alpha that is that of the colour where the mask covers it fully and none
/// where it does not.
pub proof fn law_masks_are_drawn_place_by_place(mask: AlphaModel, x: int, y: int)
    requires
        mask.plane() is Some,
        0 <= x < mask.placement.width,
        0 <= y < mask.placement.height,
    ensures
        ({
            let plane = mask.plane()->0;
            let at = 4 * (y * mask.placement.width + x);
            let color = ass_color(mask.color_rgba);
            let covered = mask.alpha[y * mask.stride + x];
            &&& plane.x == mask.placement.x
            &&& plane.y == mask.placement.y
            &&& plane.width == mask.placement.width
            &&& plane.height == mask.placement.height
            &&& plane.rgba.len() == plane.width * plane.height * 4
            &&& 0 <= at && at + 3 < plane.rgba.len()
            &&& plane.rgba[at] == color.red
            &&& plane.rgba[at + 1] == color.green
            &&& plane.rgba[at + 2] == color.blue
            &&& plane.rgba[at + 3] == scale_u8(color.alpha, covered)
            &&& covered == 255 ==> plane.rgba[at + 3] == color.alpha
            &&& covered == 0 ==> plane.rgba[at + 3] == 0
        }),
{
    let width = mask.placement.width as int;
    let height = mask.placement.height as int;
    let pixel = y * width + x;
    vstd::arithmetic::div_mod::lemma_fundamental_div_mod_converse(pixel, width, y, x);
    assert(0 <= pixel < width * height) by (nonlinear_arith)
        requires
            0 <= x < width,
            0 <= y < height,
            pixel == y * width + x,
    ;
    let at = 4 * pixel;
    assert(at / 4 == pixel && (at + 1) / 4 == pixel && (at + 2) / 4 == pixel && (at + 3) / 4
        == pixel);
    assert(at % 4 == 0 && (at + 1) % 4 == 1 && (at + 2) % 4 == 2 && (at + 3) % 4 == 3);
    law_scaled_bytes_are_the_nearest(ass_color(mask.color_rgba).alpha, 255);
    law_scaled_bytes_are_the_nearest(ass_color(mask.color_rgba).alpha, 0);
}

/// Masks are drawn in their order, and one that cannot be drawn is left out.
pub proof fn law_masks_are_drawn_in_order(before: Seq<AlphaModel>, mask: AlphaModel)
    ensures
        expand_all(Seq::empty()).len() == 0,
        match mask.plane() {
            Some(plane) => expand_all(before.push(mask)) == expand_all(before).push(plane),
            None => expand_all(before.push(mask)) == expand_all(before),
        },
{
    assert(before.push(mask).drop_last() =~= before);
}

/// Images of a list are taken over in their order, each with its place, its colour,
/// and the bytes of its rows; those without pixels are passed over.
pub proof fn law_images_are_taken_over(before: Seq<RawAssImage>, image: RawAssImage)
    requires
        import_outcome(before) is Ok,
        before.len() < RAW_ASS_IMAGE_LIST_LIMIT,
    ensures
        !image.has_pixels() ==> import_outcome(before.push(image)) == import_outcome(before),
        image.has_pixels() && image.refusal() is None ==> import_outcome(before.push(image)) == Ok::<
            Seq<AlphaModel>,
            SubtitleErrorModel,
        >(import_outcome(before)->Ok_0.push(image.mask())),
        image.has_pixels() && image.refusal() is None && image.is_backed() ==> {
            let mask = image.mask();
            &&& mask.placement.x == image.dst_x
            &&& mask.placement.y == image.dst_y
            &&& mask.placement.width == image.w
            &&& mask.placement.height == image.h
            &&& mask.stride == image.stride
            &&& mask.color_rgba == image.color
            &&& forall|x: int, y: int|
                0 <= x < image.w && 0 <= y < image.h ==> #[trigger] mask.coverage(x, y)
                    == image.bitmap->0@[y * image.stride + x]
        },
{
    assert(before.push(image).drop_last() =~= before);
    if image.has_pixels() && image.refusal() is None && image.is_backed() {
        let mask = image.mask();
        assert forall|x: int, y: int| 0 <= x < image.w && 0 <= y < image.h implies
            #[trigger] mask.coverage(x, y) == image.bitmap->0@[y * image.stride + x] by {
            let stride = image.stride as int;
            let h = image.h as int;
            assert(0 <= y * stride <= stride * (h - 1)) by (nonlinear_arith)
                requires
                    0 <= y <= h - 1,
                    stride >= 0,
            ;
        }
    }
}

/// The bytes that a mask needs end with the last pixel of its last row.
pub proof fn law_masks_end_with_their_last_row(width: nat, height: nat, stride: nat)
    requires
        width > 0,
        height > 0,
        stride * (height - 1) + width <= usize::MAX,
    ensures
        mask_len(width, height, stride) == (height - 1) * stride + (width - 1) + 1,
        mask_len(0, height, stride) == 0,
        mask_len(width, 0, stride) == 0,
{
    assert(stride * (height - 1) == (height - 1) * stride) by (nonlinear_arith);
}

/// Masks are taken over one behind the other, and one without pixels is passed over.
pub proof fn law_masks_are_taken_over_in_order(
    bitmaps: Seq<AssBitmapPlane>,
    bitmap: AssBitmapPlane,
)
    ensures
        bitmap.width > 0 && bitmap.height > 0 ==> masks_of(bitmaps.push(bitmap)).len() == masks_of(
            bitmaps,
        ).len() + 1 && masks_of(bitmaps.push(bitmap)).drop_last() == masks_of(bitmaps) && {
            let last = masks_of(bitmaps.push(bitmap)).last();
            &&& last.placement.x == bitmap.x
            &&& last.placement.y == bitmap.y
            &&& last.placement.width == bitmap.width
            &&& last.placement.height == bitmap.height
            &&& last.stride == bitmap.stride
            &&& last.color_rgba == bitmap.color
            &&& last.alpha == bitmap.alpha@
        },
        bitmap.width == 0 || bitmap.height == 0 ==> masks_of(bitmaps.push(bitmap)) == masks_of(
            bitmaps,
        ),
        masks_of(Seq::<AssBitmapPlane>::empty()).len() == 0,
{
    assert(bitmaps.push(bitmap).drop_last() =~= bitmaps);
    assert(push_mask(masks_of(bitmaps), bitmap.mask()).drop_last() =~= masks_of(bitmaps)
        || bitmap.width == 0 || bitmap.height == 0);
}

} // verus!
