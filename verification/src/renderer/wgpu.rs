//! What a renderer works out before it hands anything to the graphics device.
use crate::binary64::scaled_whole;
use crate::danmaku::atlas::DanmakuGlyphAtlas;
use crate::danmaku::plan::{DanmakuGlyphInstance, DanmakuRenderPlan};
use crate::ffmpeg::planes::{PlanarFrame, PlanarPixelFormat};
use crate::float_bits::{nearest_single, Double, Single, SINGLE_ONE};
use crate::float_sum::{nearest_signed, single_of_signed};
use crate::media::TransferFunction;
use crate::overlay::OverlayFrame;
use crate::presenter::runtime::{points_of, scaled_size, surface_scale};
use crate::renderer::error::{RendererError, Result};
use crate::subtitle::bitmap::SubtitleBitmapPlane;
use crate::time::{nat_max, sat_sub, Duration};
use vstd::prelude::*;

verus! {

broadcast use vstd::seq_lib::group_seq_properties;

// ---------------------------------------------------------------------------
// Reading back
// ---------------------------------------------------------------------------

/// Pixels that were read back, without gaps.
#[derive(Debug, Clone, PartialEq, Eq)]
pub struct WgpuOffscreenReadback {
    pub width: u32,
    pub height: u32,
    pub rgba: Vec<u8>,
}

impl WgpuOffscreenReadback {
    /// Where a pixel begins.
    pub open spec fn offset(self, x: u32, y: u32) -> int {
        (y * self.width + x) * 4
    }

    /// The bytes of a pixel.
    pub fn pixel(&self, x: u32, y: u32) -> (result: [u8; 4])
        requires
            self.offset(x, y) + 4 <= self.rgba@.len(),
        ensures
            result@ == self.rgba@.subrange(self.offset(x, y), self.offset(x, y) + 4),
    {
        let len: usize = self.rgba.len();
        assert(y * self.width <= 0xffff_ffff * 0xffff_ffff && y * self.width >= 0)
            by (nonlinear_arith)
            requires
                0 <= y <= 0xffff_ffff,
                0 <= self.width <= 0xffff_ffff,
        ;
        let pixels: u64 = y as u64 * self.width as u64;
        let offset: usize = ((pixels as u128 + x as u128) * 4) as usize;
        let result = [
            self.rgba[offset],
            self.rgba[offset + 1],
            self.rgba[offset + 2],
            self.rgba[offset + 3],
        ];
        assert(result@ =~= self.rgba@.subrange(self.offset(x, y), self.offset(x, y) + 4));
        result
    }
}

/// The length of an aligned row of pixels: rows start at multiples of 256 bytes.
pub open spec fn padded_row(width: nat) -> nat {
    (width * 4 + 255) / 256 * 256
}

/// The length of an aligned row of pixels.
pub fn padded_bytes_per_row(width: u32) -> (result: u32)
    requires
        padded_row(width as nat) <= u32::MAX,
    ensures
        result == padded_row(width as nat),
        result >= width * 4,
{
    let bytes: u64 = width as u64 * 4;
    ((bytes + 255) / 256 * 256) as u32
}

/// The pixels of aligned rows, without the gaps.
pub open spec fn unpadded(bytes: Seq<u8>, width: nat, height: nat) -> Seq<u8>
    decreases height,
{
    if height == 0 {
        Seq::empty()
    } else {
        let start = (height - 1) * padded_row(width);
        unpadded(bytes, width, (height - 1) as nat) + bytes.subrange(start, start + width * 4)
    }
}

/// Takes the gaps out of aligned rows.
pub fn strip_row_padding(bytes: &[u8], width: u32, height: u32) -> (result: Vec<u8>)
    requires
        padded_row(width as nat) * height <= u32::MAX,
        padded_row(width as nat) * height <= bytes@.len(),
        padded_row(width as nat) <= u32::MAX,
    ensures
        result@ == unpadded(bytes@, width as nat, height as nat),
        result@.len() == width * 4 * height,
{
    let padded: u32 = padded_bytes_per_row(width);
    let row_len: u32 = width * 4;
    let mut result: Vec<u8> = Vec::new();
    let mut row: u32 = 0;
    assert(row_len * 0 == 0) by (nonlinear_arith);
    while row < height
        invariant
            row <= height,
            padded == padded_row(width as nat),
            row_len == width * 4,
            row_len <= padded,
            padded * height <= u32::MAX,
            padded * height <= bytes@.len(),
            result@ == unpadded(bytes@, width as nat, row as nat),
            result@.len() == row_len * row,
        decreases height - row,
    {
        assert(row * padded + padded <= padded * height && row * padded >= 0) by (nonlinear_arith)
            requires
                0 <= row < height,
                padded >= 0,
        ;
        let start: usize = (row * padded) as usize;
        let ghost before = result@;
        let ghost from = row as int * padded as int;
        let mut i: usize = 0;
        let count: usize = row_len as usize;
        let available: usize = bytes.len();
        assert(before + bytes@.subrange(from, from) =~= before);
        while i < count
            invariant
                i <= count,
                count == row_len,
                start == from,
                from + count <= bytes@.len(),
                available == bytes@.len(),
                result@ == before + bytes@.subrange(from, from + i),
            decreases count - i,
        {
            result.push(bytes[start + i]);
            i += 1;
            assert(result@ =~= before + bytes@.subrange(from, from + i));
        }
        assert(row_len * (row + 1) == row_len * row + row_len) by (nonlinear_arith);
        row += 1;
    }
    assert(row_len * height == width * 4 * height);
    result
}

/// Each pixel that is left is the one that was at its row and column.
pub proof fn law_stripping_keeps_pixels(
    bytes: Seq<u8>,
    width: nat,
    height: nat,
    row: nat,
    column: nat,
)
    requires
        padded_row(width) * height <= bytes.len(),
        row < height,
        column < width * 4,
    ensures
        unpadded(bytes, width, height).len() == width * 4 * height,
        unpadded(bytes, width, height)[(row * (width * 4) + column) as int] == bytes[(row
            * padded_row(width) + column) as int],
    decreases height,
{
    let len = width * 4;
    let padded = padded_row(width);
    assert(len <= padded);
    lemma_unpadded_len(bytes, width, height);
    let shorter = unpadded(bytes, width, (height - 1) as nat);
    assert(padded * (height - 1) <= bytes.len()) by (nonlinear_arith)
        requires
            padded * height <= bytes.len(),
            padded >= 0,
            height >= 1,
    ;
    lemma_unpadded_len(bytes, width, (height - 1) as nat);
    let start = (height - 1) * padded;
    assert(start + padded == padded * height && start >= 0) by (nonlinear_arith)
        requires
            start == (height - 1) * padded,
            height >= 1,
            padded >= 0,
    ;
    if row < height - 1 {
        assert(row * len + column < len * (height - 1) && row * len >= 0) by (nonlinear_arith)
            requires
                row + 1 <= height - 1,
                column < len,
                row >= 0,
                len >= 0,
        ;
        law_stripping_keeps_pixels(bytes, width, (height - 1) as nat, row, column);
        assert(unpadded(bytes, width, height)[(row * len + column) as int] == shorter[(row * len
            + column) as int]);
    } else {
        assert(row * len == len * (height - 1)) by (nonlinear_arith)
            requires
                row == height - 1,
        ;
        assert(unpadded(bytes, width, height)[(row * len + column) as int] == bytes.subrange(
            start,
            start + len,
        )[column as int]);
    }
}

proof fn lemma_unpadded_len(bytes: Seq<u8>, width: nat, height: nat)
    requires
        padded_row(width) * height <= bytes.len(),
    ensures
        unpadded(bytes, width, height).len() == width * 4 * height,
    decreases height,
{
    let len = width * 4;
    let padded = padded_row(width);
    if height > 0 {
        assert(padded * (height - 1) <= bytes.len()) by (nonlinear_arith)
            requires
                padded * height <= bytes.len(),
                padded >= 0,
                height >= 1,
        ;
        lemma_unpadded_len(bytes, width, (height - 1) as nat);
        let start = (height - 1) * padded;
        assert(start + padded == padded * height && start >= 0) by (nonlinear_arith)
            requires
                start == (height - 1) * padded,
                height >= 1,
                padded >= 0,
        ;
        assert(len * (height - 1) + len == len * height) by (nonlinear_arith);
    } else {
        assert(len * 0 == 0) by (nonlinear_arith);
    }
}

// ---------------------------------------------------------------------------
// Uploads
// ---------------------------------------------------------------------------

/// How the planes of a frame are handed over.
#[derive(Debug, Clone, Copy, PartialEq, Eq, Structural)]
pub struct PlanarUpload {
    pub chroma_width: u32,
    pub chroma_height: u32,
    pub bytes_per_sample: u32,
    pub luma_bytes_per_row: u32,
    pub chroma_bytes_per_row: u32,
}

/// The bytes of a sample.
pub open spec fn sample_bytes(format: PlanarPixelFormat) -> nat {
    match format {
        PlanarPixelFormat::Nv12 => 1,
        PlanarPixelFormat::P010 => 2,
    }
}

/// What is wrong with a frame that cannot be handed over.
pub open spec fn upload_refusal(frame: PlanarFrame, has_sixteen_bits: bool) -> Option<
    RendererError,
> {
    let luma = frame.width * frame.height * sample_bytes(frame.format);
    let chroma = (frame.width / 2) * (frame.height / 2) * 2 * sample_bytes(frame.format);
    if frame.width == 0 || frame.height == 0 || frame.width % 2 != 0 || frame.height % 2 != 0 {
        Some(RendererError::OddFrame)
    } else if frame.format == PlanarPixelFormat::P010 && !has_sixteen_bits {
        Some(RendererError::NoSixteenBits)
    } else if frame.luma@.len() != luma {
        Some(
            RendererError::LumaPlane {
                format: frame.format,
                bytes: frame.luma@.len() as usize,
                expected: luma as usize,
            },
        )
    } else if frame.chroma@.len() != chroma {
        Some(
            RendererError::ChromaPlane {
                format: frame.format,
                bytes: frame.chroma@.len() as usize,
                expected: chroma as usize,
            },
        )
    } else {
        None
    }
}

/// How the planes of a frame are handed over, or what is wrong with it.
pub fn check_planar_frame(frame: &PlanarFrame, supports_16bit_norm: bool) -> (result: Result<
    PlanarUpload,
>)
    requires
        frame.width > 0 && frame.height > 0 && frame.width % 2 == 0 && frame.height % 2 == 0 && (
        frame.format == PlanarPixelFormat::Nv12 || supports_16bit_norm) ==> frame.width
            * frame.height * sample_bytes(frame.format) <= u32::MAX,
    ensures
        match upload_refusal(*frame, supports_16bit_norm) {
            Some(error) => result == Err::<PlanarUpload, RendererError>(error),
            None => result matches Ok(upload) && {
                &&& upload.chroma_width == frame.width / 2
                &&& upload.chroma_height == frame.height / 2
                &&& upload.bytes_per_sample == sample_bytes(frame.format)
                &&& upload.luma_bytes_per_row == frame.width * sample_bytes(frame.format)
                &&& upload.chroma_bytes_per_row == frame.width * sample_bytes(frame.format)
            },
        },
{
    let width: u32 = frame.width;
    let height: u32 = frame.height;
    if width == 0 || height == 0 || width % 2 != 0 || height % 2 != 0 {
        return Err(RendererError::OddFrame);
    }
    let bytes_per_sample: u32 = match frame.format {
        PlanarPixelFormat::Nv12 => 1,
        PlanarPixelFormat::P010 => {
            if !supports_16bit_norm {
                return Err(RendererError::NoSixteenBits);
            }
            2
        },
    };
    let chroma_width: u32 = width / 2;
    let chroma_height: u32 = height / 2;
    proof {
        let b = bytes_per_sample as int;
        let area = width * height;
        assert(area * b >= area && area >= width) by (nonlinear_arith)
            requires
                b >= 1,
                area == width * height,
                width >= 1,
                height >= 1,
        ;
        assert(width * b <= area * b) by (nonlinear_arith)
            requires
                b >= 1,
                area == width * height,
                width >= 1,
                height >= 1,
        ;
        assert(chroma_width * chroma_height * 2 * b <= area * b && chroma_width * chroma_height
            <= area && chroma_width * chroma_height * 2 <= area && chroma_width * chroma_height
            >= 0) by (nonlinear_arith)
            requires
                b >= 1,
                area == width * height,
                width == 2 * chroma_width,
                height == 2 * chroma_height,
                chroma_width >= 0,
                chroma_height >= 0,
        ;
    }
    let expected_luma: usize = (width * height * bytes_per_sample) as usize;
    let expected_chroma: usize = (chroma_width * chroma_height * 2 * bytes_per_sample) as usize;
    if frame.luma.len() != expected_luma {
        return Err(
            RendererError::LumaPlane {
                format: frame.format,
                bytes: frame.luma.len(),
                expected: expected_luma,
            },
        );
    }
    if frame.chroma.len() != expected_chroma {
        return Err(
            RendererError::ChromaPlane {
                format: frame.format,
                bytes: frame.chroma.len(),
                expected: expected_chroma,
            },
        );
    }
    Ok(
        PlanarUpload {
            chroma_width,
            chroma_height,
            bytes_per_sample,
            luma_bytes_per_row: width * bytes_per_sample,
            chroma_bytes_per_row: chroma_width * 2 * bytes_per_sample,
        },
    )
}

/// Checks that a target has pixels.
pub fn check_offscreen_size(width: u32, height: u32) -> (result: Result<()>)
    ensures
        result == (if width == 0 || height == 0 {
            Err::<(), RendererError>(RendererError::EmptyTarget)
        } else {
            Ok(())
        }),
{
    if width == 0 || height == 0 {
        Err(RendererError::EmptyTarget)
    } else {
        Ok(())
    }
}

// ---------------------------------------------------------------------------
// Codes of the shaders
// ---------------------------------------------------------------------------

/// How brightness beyond the display is brought down.
#[derive(Debug, Clone, Copy, PartialEq, Eq, Structural)]
pub enum ToneMapOperator {
    Clip,
    Reinhard,
    Mobius,
}

/// The code of a transfer function; an unknown one counts as that of plain
/// displays.
pub open spec fn code_of_transfer(transfer: TransferFunction) -> u32 {
    match transfer {
        TransferFunction::Srgb => 1u32,
        TransferFunction::Bt1886 => 2u32,
        TransferFunction::Pq => 3u32,
        TransferFunction::Hlg => 4u32,
        TransferFunction::Unknown => 1u32,
    }
}

/// The code of a transfer function.
pub fn transfer_code(transfer: TransferFunction) -> (result: u32)
    ensures
        result == code_of_transfer(transfer),
{
    match transfer {
        TransferFunction::Srgb => 1,
        TransferFunction::Bt1886 => 2,
        TransferFunction::Pq => 3,
        TransferFunction::Hlg => 4,
        TransferFunction::Unknown => 1,
    }
}

/// The code of an operator.
pub open spec fn code_of_operator(operator: ToneMapOperator) -> u32 {
    match operator {
        ToneMapOperator::Clip => 0u32,
        ToneMapOperator::Reinhard => 1u32,
        ToneMapOperator::Mobius => 2u32,
    }
}

/// The code of an operator.
pub fn tone_map_code(operator: ToneMapOperator) -> (result: u32)
    ensures
        result == code_of_operator(operator),
{
    match operator {
        ToneMapOperator::Clip => 0,
        ToneMapOperator::Reinhard => 1,
        ToneMapOperator::Mobius => 2,
    }
}

// ---------------------------------------------------------------------------
// Where things are drawn
// ---------------------------------------------------------------------------

/// The pattern of the single one half.
pub const SINGLE_HALF: u32 = 0x3f00_0000;

/// The pattern of the single 255.
pub const SINGLE_255: u32 = 0x437f_0000;

/// A size as a number; none counts as one.
pub open spec fn size_of(size: u32) -> Single {
    Single {
        bits: nearest_single(
            if size == 0 {
                1
            } else {
                size as nat
            },
            0,
        ) as u32,
    }
}

fn to_size(size: u32) -> (result: Single)
    ensures
        result == size_of(size),
{
    if size == 0 {
        Single::from_whole(1)
    } else {
        Single::from_whole(size)
    }
}

/// Where a video is drawn on a surface.
#[derive(Debug, Clone, Copy)]
pub struct VideoPresentationLayout {
    pub source_width: Single,
    pub source_height: Single,
    pub target_rect: [Single; 4],
    pub drawable_width: Single,
    pub drawable_height: Single,
}

/// The scale at which a video just fits.
pub open spec fn fit_scale(source: (Single, Single), drawable: (Single, Single)) -> Single {
    drawable.0.quotient(source.0).lesser(drawable.1.quotient(source.1))
}

/// What is left over on both sides.
pub open spec fn margin(outer: Single, inner: Single) -> Single {
    outer.sum(inner.opposite()).product(Single { bits: SINGLE_HALF })
}

impl VideoPresentationLayout {
    /// Whether a video of the first size lies in the middle of a surface of the
    /// second, as large as it fits.
    pub open spec fn is_fit(
        self,
        source_width: u32,
        source_height: u32,
        drawable_width: u32,
        drawable_height: u32,
    ) -> bool {
        let scale = fit_scale(
            (size_of(source_width), size_of(source_height)),
            (size_of(drawable_width), size_of(drawable_height)),
        );
        let width = size_of(source_width).product(scale);
        let height = size_of(source_height).product(scale);
        &&& self.source_width == size_of(source_width)
        &&& self.source_height == size_of(source_height)
        &&& self.drawable_width == size_of(drawable_width)
        &&& self.drawable_height == size_of(drawable_height)
        &&& self.target_rect@ == seq![
            margin(size_of(drawable_width), width),
            margin(size_of(drawable_height), height),
            width,
            height,
        ]
    }

    /// The video in the middle of a surface, as large as it fits.
    pub fn aspect_fit(
        source_width: u32,
        source_height: u32,
        drawable_width: u32,
        drawable_height: u32,
    ) -> (result: Self)
        ensures
            result.is_fit(source_width, source_height, drawable_width, drawable_height),
    {
        let source_width = to_size(source_width);
        let source_height = to_size(source_height);
        let drawable_width = to_size(drawable_width);
        let drawable_height = to_size(drawable_height);
        let scale = drawable_width.over(source_width).min_of(drawable_height.over(source_height));
        let width = source_width.times(scale);
        let height = source_height.times(scale);
        let half = Single { bits: SINGLE_HALF };
        let x = drawable_width.minus(width).times(half);
        let y = drawable_height.minus(height).times(half);
        let target_rect = [x, y, width, height];
        assert(target_rect@ =~= seq![x, y, width, height]);
        Self { source_width, source_height, target_rect, drawable_width, drawable_height }
    }

    /// The surface, for the video.
    pub fn video_viewport(self) -> (result: [Single; 4])
        ensures
            result@ == seq![
                self.drawable_width,
                self.drawable_height,
                Single { bits: 0 },
                Single { bits: 0 },
            ],
    {
        let zero = Single { bits: 0 };
        let result = [self.drawable_width, self.drawable_height, zero, zero];
        assert(result@ =~= seq![self.drawable_width, self.drawable_height, zero, zero]);
        result
    }

    /// The surface, for what is drawn over the video.
    pub fn overlay_viewport(self) -> (result: [Single; 2])
        ensures
            result@ == seq![self.drawable_width, self.drawable_height],
    {
        let result = [self.drawable_width, self.drawable_height];
        assert(result@ =~= seq![self.drawable_width, self.drawable_height]);
        result
    }

    /// Where a rectangle of the video is drawn.
    pub open spec fn mapped(self, x: Single, y: Single, width: Single, height: Single) -> Seq<
        Single,
    > {
        let scale_x = self.target_rect@[2].quotient(self.source_width);
        let scale_y = self.target_rect@[3].quotient(self.source_height);
        seq![
            self.target_rect@[0].sum(x.product(scale_x)),
            self.target_rect@[1].sum(y.product(scale_y)),
            width.product(scale_x),
            height.product(scale_y),
        ]
    }

    /// Where a rectangle of the video is drawn.
    pub fn map_source_rect(self, x: Single, y: Single, width: Single, height: Single) -> (result: [
        Single;
        4])
        ensures
            result@ == self.mapped(x, y, width, height),
    {
        let scale_x = self.target_rect[2].over(self.source_width);
        let scale_y = self.target_rect[3].over(self.source_height);
        let result = [
            self.target_rect[0].plus(x.times(scale_x)),
            self.target_rect[1].plus(y.times(scale_y)),
            width.times(scale_x),
            height.times(scale_y),
        ];
        assert(result@ =~= self.mapped(x, y, width, height));
        result
    }
}

/// What a shader is told about a plane of an overlay.
#[derive(Debug, Clone, Copy)]
pub struct OverlayUniforms {
    pub rect: [Single; 4],
    pub tex_rect: [Single; 4],
    pub viewport: [Single; 2],
    pub overlay_mode: u32,
    pub reserved0: u32,
    pub color: [Single; 4],
}

impl OverlayUniforms {
    /// A plane with colours of its own, at a place of the video.
    pub fn rgba_plane(
        x: i32,
        y: i32,
        width: u32,
        height: u32,
        layout: VideoPresentationLayout,
    ) -> (result: Self)
        ensures
            result.rect@ == layout.mapped(
                nearest_signed(x as int, 0),
                nearest_signed(y as int, 0),
                Single { bits: nearest_single(width as nat, 0) as u32 },
                Single { bits: nearest_single(height as nat, 0) as u32 },
            ),
            result.tex_rect@ == seq![
                Single { bits: 0 },
                Single { bits: 0 },
                Single { bits: SINGLE_ONE },
                Single { bits: SINGLE_ONE },
            ],
            result.viewport@ == seq![layout.drawable_width, layout.drawable_height],
            result.overlay_mode == 0,
            result.reserved0 == 0,
            result.color@ == seq![
                Single { bits: SINGLE_ONE },
                Single { bits: SINGLE_ONE },
                Single { bits: SINGLE_ONE },
                Single { bits: SINGLE_ONE },
            ],
    {
        let zero = Single { bits: 0 };
        let one = Single { bits: SINGLE_ONE };
        let tex_rect = [zero, zero, one, one];
        let color = [one, one, one, one];
        assert(tex_rect@ =~= seq![zero, zero, one, one]);
        assert(color@ =~= seq![one, one, one, one]);
        Self {
            rect: layout.map_source_rect(
                single_of_signed(x),
                single_of_signed(y),
                Single::from_whole(width),
                Single::from_whole(height),
            ),
            tex_rect,
            viewport: layout.overlay_viewport(),
            overlay_mode: 0,
            reserved0: 0,
            color,
        }
    }
}

/// What is wrong with the first plane with pixels that is not as long as it should
/// be.
pub open spec fn first_bad_overlay(planes: Seq<SubtitleBitmapPlane>) -> Option<RendererError>
    decreases planes.len(),
{
    if planes.len() == 0 {
        None
    } else {
        let last = planes.last();
        match first_bad_overlay(planes.drop_last()) {
            Some(error) => Some(error),
            None => if last.width > 0 && last.height > 0 && last.rgba@.len() != last.width
                * last.height * 4 {
                Some(
                    RendererError::OverlayPlane {
                        bytes: last.rgba@.len() as usize,
                        expected: (last.width * last.height * 4) as usize,
                        width: last.width,
                        height: last.height,
                    },
                )
            } else {
                None
            },
        }
    }
}

/// The planes with pixels.
pub open spec fn drawn_planes(planes: Seq<SubtitleBitmapPlane>) -> Seq<usize>
    decreases planes.len(),
{
    if planes.len() == 0 {
        Seq::empty()
    } else {
        let rest = drawn_planes(planes.drop_last());
        if planes.last().width > 0 && planes.last().height > 0 {
            rest.push((planes.len() - 1) as usize)
        } else {
            rest
        }
    }
}

proof fn lemma_bad_overlay_stays(planes: Seq<SubtitleBitmapPlane>, n: int)
    requires
        0 <= n <= planes.len(),
        first_bad_overlay(planes.take(n)) is Some,
    ensures
        first_bad_overlay(planes) == first_bad_overlay(planes.take(n)),
    decreases planes.len() - n,
{
    if n < planes.len() {
        assert(planes.take(n + 1).drop_last() =~= planes.take(n));
        lemma_bad_overlay_stays(planes, n + 1);
    } else {
        assert(planes.take(n) =~= planes);
    }
}

/// The planes of an overlay that are drawn: those with pixels. The first of them
/// that is not as long as it should be is refused.
pub fn overlay_planes_to_draw(frame: &OverlayFrame) -> (result: Result<Vec<usize>>)
    requires
        forall|i: int|
            0 <= i < frame.subtitle_planes@.len() ==> (#[trigger] frame.subtitle_planes@[i]).width
                * frame.subtitle_planes@[i].height * 4 <= usize::MAX,
    ensures
        match first_bad_overlay(frame.subtitle_planes@) {
            Some(error) => result == Err::<Vec<usize>, RendererError>(error),
            None => result matches Ok(drawn) && drawn@ == drawn_planes(frame.subtitle_planes@),
        },
{
    let ghost planes = frame.subtitle_planes@;
    let mut drawn: Vec<usize> = Vec::new();
    let mut i: usize = 0;
    assert(planes.take(0) =~= Seq::<SubtitleBitmapPlane>::empty());
    while i < frame.subtitle_planes.len()
        invariant
            i <= planes.len(),
            planes == frame.subtitle_planes@,
            forall|k: int|
                0 <= k < frame.subtitle_planes@.len() ==> (
                #[trigger] frame.subtitle_planes@[k]).width * frame.subtitle_planes@[k].height * 4
                    <= usize::MAX,
            first_bad_overlay(planes.take(i as int)) is None,
            drawn@ == drawn_planes(planes.take(i as int)),
        decreases planes.len() - i,
    {
        assert(planes.take(i as int + 1).drop_last() =~= planes.take(i as int));
        let plane: &SubtitleBitmapPlane = &frame.subtitle_planes[i];
        if plane.width != 0 && plane.height != 0 {
            assert(frame.subtitle_planes@[i as int].width * frame.subtitle_planes@[i as int].height
                * 4 <= usize::MAX);
            assert(plane.width * plane.height <= 0xffff_ffff * 0xffff_ffff && plane.width
                * plane.height >= 0) by (nonlinear_arith)
                requires
                    0 <= plane.width <= 0xffff_ffff,
                    0 <= plane.height <= 0xffff_ffff,
            ;
            let expected: usize = ((plane.width as u64 * plane.height as u64) as u128 * 4) as usize;
            if plane.rgba.len() != expected {
                proof {
                    lemma_bad_overlay_stays(planes, i as int + 1);
                }
                return Err(
                    RendererError::OverlayPlane {
                        bytes: plane.rgba.len(),
                        expected,
                        width: plane.width,
                        height: plane.height,
                    },
                );
            }
            drawn.push(i);
        }
        i += 1;
    }
    assert(planes.take(i as int) =~= planes);
    Ok(drawn)
}

// ---------------------------------------------------------------------------
// Comments
// ---------------------------------------------------------------------------

/// A rectangle of an atlas, where it is drawn, and its colour.
#[derive(Debug, Clone, Copy)]
pub struct DanmakuBatchInstance {
    pub rect: [Single; 4],
    pub tex_rect: [Single; 4],
    pub color: [Single; 4],
}

/// A rectangle of an atlas, where it is drawn, and its colour.
pub struct InstanceModel {
    pub rect: Seq<Single>,
    pub tex_rect: Seq<Single>,
    pub color: Seq<Single>,
}

impl View for DanmakuBatchInstance {
    type V = InstanceModel;

    open spec fn view(&self) -> InstanceModel {
        InstanceModel { rect: self.rect@, tex_rect: self.tex_rect@, color: self.color@ }
    }
}

/// Instances as models.
pub open spec fn instances_view(instances: Seq<DanmakuBatchInstance>) -> Seq<InstanceModel> {
    Seq::new(instances.len(), |i: int| instances[i]@)
}

/// Whether a number is greater than zero.
pub open spec fn is_above_zero(number: Single) -> bool {
    !number.is_nan() && number.rank() > 0
}

fn check_above_zero(number: Single) -> (result: bool)
    ensures
        result == is_above_zero(number),
{
    !number.check_nan() && number.place() > 0
}

/// The shadow of a comment: moved by its offset.
pub open spec fn shadow_of(item: DanmakuGlyphInstance) -> InstanceModel {
    InstanceModel {
        rect: seq![
            item.rect@[0].sum(item.shadow_offset@[0]),
            item.rect@[1].sum(item.shadow_offset@[1]),
            item.rect@[2],
            item.rect@[3],
        ],
        tex_rect: item.tex_rect@,
        color: item.shadow_rgba@,
    }
}

/// The shadows that can be seen.
pub open spec fn shadows_of(items: Seq<DanmakuGlyphInstance>) -> Seq<InstanceModel>
    decreases items.len(),
{
    if items.len() == 0 {
        Seq::empty()
    } else {
        let rest = shadows_of(items.drop_last());
        if is_above_zero(items.last().shadow_rgba@[3]) {
            rest.push(shadow_of(items.last()))
        } else {
            rest
        }
    }
}

/// The outlines that can be seen.
pub open spec fn outlines_of(items: Seq<DanmakuGlyphInstance>) -> Seq<InstanceModel>
    decreases items.len(),
{
    if items.len() == 0 {
        Seq::empty()
    } else {
        let last = items.last();
        let rest = outlines_of(items.drop_last());
        if is_above_zero(last.outline_rgba@[3]) {
            rest.push(
                InstanceModel {
                    rect: last.rect@,
                    tex_rect: last.tex_rect@,
                    color: last.outline_rgba@,
                },
            )
        } else {
            rest
        }
    }
}

/// The bodies of the comments.
pub open spec fn fills_of(items: Seq<DanmakuGlyphInstance>) -> Seq<InstanceModel> {
    Seq::new(
        items.len(),
        |i: int|
            InstanceModel {
                rect: items[i].rect@,
                tex_rect: items[i].tex_rect@,
                color: items[i].color_rgba@,
            },
    )
}

/// What is drawn of comments: first the shadows and outlines, then the bodies.
#[derive(Debug)]
pub struct DanmakuBatches {
    pub outlines: Vec<DanmakuBatchInstance>,
    pub fills: Vec<DanmakuBatchInstance>,
}

/// What is drawn of some comments.
pub fn danmaku_batches(items: &Vec<DanmakuGlyphInstance>) -> (result: DanmakuBatches)
    ensures
        instances_view(result.outlines@) == shadows_of(items@) + outlines_of(items@),
        instances_view(result.fills@) == fills_of(items@),
{
    let ghost all = items@;
    let mut shadows: Vec<DanmakuBatchInstance> = Vec::new();
    let mut outlines: Vec<DanmakuBatchInstance> = Vec::new();
    let mut fills: Vec<DanmakuBatchInstance> = Vec::new();
    let mut i: usize = 0;
    assert(all.take(0) =~= Seq::<DanmakuGlyphInstance>::empty());
    assert(instances_view(shadows@) =~= Seq::<InstanceModel>::empty());
    assert(instances_view(outlines@) =~= Seq::<InstanceModel>::empty());
    assert(instances_view(fills@) =~= fills_of(all).take(0));
    while i < items.len()
        invariant
            i <= all.len(),
            all == items@,
            instances_view(shadows@) == shadows_of(all.take(i as int)),
            instances_view(outlines@) == outlines_of(all.take(i as int)),
            instances_view(fills@) == fills_of(all).take(i as int),
        decreases all.len() - i,
    {
        assert(all.take(i as int + 1).drop_last() =~= all.take(i as int));
        assert(all.take(i as int + 1).last() == all[i as int]);
        let item: &DanmakuGlyphInstance = &items[i];
        if check_above_zero(item.shadow_rgba[3]) {
            let rect = [
                item.rect[0].plus(item.shadow_offset[0]),
                item.rect[1].plus(item.shadow_offset[1]),
                item.rect[2],
                item.rect[3],
            ];
            assert(rect@ =~= shadow_of(*item).rect);
            let ghost before = shadows@;
            let instance = DanmakuBatchInstance {
                rect,
                tex_rect: item.tex_rect,
                color: item.shadow_rgba,
            };
            shadows.push(instance);
            assert(instances_view(shadows@) =~= instances_view(before).push(instance@));
        }
        if check_above_zero(item.outline_rgba[3]) {
            let ghost before = outlines@;
            let instance = DanmakuBatchInstance {
                rect: item.rect,
                tex_rect: item.tex_rect,
                color: item.outline_rgba,
            };
            outlines.push(instance);
            assert(instances_view(outlines@) =~= instances_view(before).push(instance@));
        }
        let ghost before = fills@;
        let instance = DanmakuBatchInstance {
            rect: item.rect,
            tex_rect: item.tex_rect,
            color: item.color_rgba,
        };
        fills.push(instance);
        assert(instances_view(fills@) =~= instances_view(before).push(instance@));
        i += 1;
        assert(instances_view(fills@) =~= fills_of(all).take(i as int));
    }
    assert(all.take(i as int) =~= all);
    assert(fills_of(all).take(i as int) =~= fills_of(all));
    let ghost first = shadows@;
    let ghost second = outlines@;
    shadows.append(&mut outlines);
    assert(instances_view(shadows@) =~= instances_view(first) + instances_view(second));
    DanmakuBatches { outlines: shadows, fills }
}

/// The bytes of an instance.
pub const INSTANCE_BYTES: usize = 48;

impl DanmakuBatches {
    /// The bytes that a buffer needs for either batch.
    pub fn required_len(&self) -> (result: usize)
        requires
            self.outlines@.len() * INSTANCE_BYTES <= usize::MAX,
            self.fills@.len() * INSTANCE_BYTES <= usize::MAX,
        ensures
            result == nat_max(self.outlines@.len(), self.fills@.len()) * INSTANCE_BYTES,
    {
        if self.outlines.len() < self.fills.len() {
            self.fills.len() * INSTANCE_BYTES
        } else {
            self.outlines.len() * INSTANCE_BYTES
        }
    }
}

/// How a plan for comments is drawn.
#[derive(Debug)]
pub struct DanmakuDraw {
    pub viewport: [Single; 2],
    pub batches: DanmakuBatches,
}

/// Whether a plan for comments is drawn: it has comments, and masks that cover their
/// atlas.
pub open spec fn is_drawn(plan: DanmakuRenderPlan) -> bool {
    plan.items@.len() > 0 && (plan.atlas matches Some(atlas) && atlas.is_covered())
}

/// A side of a viewport as the shader is told: at least one.
pub open spec fn side(length: u32) -> Single {
    Single {
        bits: nearest_single(
            if length == 0 {
                1
            } else {
                length as nat
            },
            0,
        ) as u32,
    }
}

/// How a plan for comments is drawn, if anything is.
pub fn danmaku_draw(plan: &DanmakuRenderPlan) -> (result: Option<DanmakuDraw>)
    ensures
        result is Some <==> is_drawn(*plan),
        result matches Some(draw) ==> {
            &&& draw.viewport@ == seq![side(plan.viewport.width), side(plan.viewport.height)]
            &&& instances_view(draw.batches.outlines@) == shadows_of(plan.items@) + outlines_of(
                plan.items@,
            )
            &&& instances_view(draw.batches.fills@) == fills_of(plan.items@)
        },
{
    match &plan.atlas {
        Some(atlas) => {
            if !atlas.is_valid() || plan.items.len() == 0 {
                return None;
            }
        },
        None => {
            return None;
        },
    }
    let width: u32 = if plan.viewport.width == 0 {
        1
    } else {
        plan.viewport.width
    };
    let height: u32 = if plan.viewport.height == 0 {
        1
    } else {
        plan.viewport.height
    };
    let viewport = [Single::from_whole(width), Single::from_whole(height)];
    assert(viewport@ =~= seq![side(plan.viewport.width), side(plan.viewport.height)]);
    Some(DanmakuDraw { viewport, batches: danmaku_batches(&plan.items) })
}

/// The masks of comments that the device holds.
#[derive(Debug, Clone, Copy, PartialEq, Eq, Structural)]
pub struct WgpuDanmakuAtlasCache {
    pub version: u64,
    pub width: u32,
    pub height: u32,
    pub stride: usize,
}

impl WgpuDanmakuAtlasCache {
    /// Takes note of the masks that were handed over.
    pub fn of(atlas: &DanmakuGlyphAtlas) -> (result: Self)
        ensures
            result.holds(*atlas),
    {
        Self {
            version: atlas.version,
            width: atlas.width,
            height: atlas.height,
            stride: atlas.stride,
        }
    }

    /// Whether the masks are those of an atlas.
    pub open spec fn holds(self, atlas: DanmakuGlyphAtlas) -> bool {
        &&& self.version == atlas.version
        &&& self.width == atlas.width
        &&& self.height == atlas.height
        &&& self.stride == atlas.stride
    }

    /// Whether the masks can be used for an atlas.
    pub fn can_reuse_for(&self, atlas: &DanmakuGlyphAtlas) -> (result: bool)
        ensures
            result == self.holds(*atlas),
    {
        self.version == atlas.version && self.width == atlas.width && self.height == atlas.height
            && self.stride == atlas.stride
    }
}

/// Whether a plan was drawn up for what is shown: its generation, its time, and
/// the size where that is known.
pub open spec fn is_for(
    plan: DanmakuRenderPlan,
    generation: u64,
    media_time: nat,
    output: (u32, u32),
) -> bool {
    &&& plan.generation == generation
    &&& plan.media_time@ == media_time
    &&& output.0 == 0 || plan.viewport.width == output.0
    &&& output.1 == 0 || plan.viewport.height == output.1
}

/// Whether a plan was drawn up for what is shown.
pub fn plan_matches(
    plan: &DanmakuRenderPlan,
    generation: u64,
    media_time: Duration,
    output: (u32, u32),
) -> (result: bool)
    ensures
        result == is_for(*plan, generation, media_time@, output),
{
    plan.generation == generation && plan.media_time.same_as(media_time) && (output.0 == 0
        || plan.viewport.width == output.0) && (output.1 == 0 || plan.viewport.height == output.1)
}

// ---------------------------------------------------------------------------
// Buffers and surfaces
// ---------------------------------------------------------------------------

/// The least power of two that is not below a number.
pub open spec fn power_above(n: nat) -> nat {
    power_from(1, n)
}

/// The first of a power of two and its doubles that is not below a number.
pub open spec fn power_from(power: nat, n: nat) -> nat
    decreases sat_sub(n, power),
{
    if power >= n || power == 0 {
        power
    } else {
        power_from(power * 2, n)
    }
}

/// The least size of a buffer for instances.
pub const LEAST_BUFFER: usize = 4096;

/// The size of the buffer for instances that has to be made, if the one at hand
/// is too small.
pub open spec fn grown_buffer(held: Option<usize>, required: usize) -> Option<nat> {
    if required == 0 || (held is Some && held->0 >= required) {
        None
    } else if power_above(required as nat) < LEAST_BUFFER {
        Some(LEAST_BUFFER as nat)
    } else {
        Some(power_above(required as nat))
    }
}

/// The size of the buffer for instances that has to be made, if the one at hand
/// is too small.
pub fn ensure_instance_buffer(held: Option<usize>, required_len: usize) -> (result: Option<usize>)
    requires
        grown_buffer(held, required_len) is Some ==> required_len <= usize::MAX / 2 + 1,
    ensures
        match grown_buffer(held, required_len) {
            Some(len) => result matches Some(found) && found == len,
            None => result is None,
        },
{
    if required_len == 0 {
        return None;
    }
    if let Some(len) = held {
        if len >= required_len {
            return None;
        }
    }
    let mut len: usize = 1;
    while len < required_len
        invariant
            len >= 1,
            required_len <= usize::MAX / 2 + 1,
            power_from(len as nat, required_len as nat) == power_above(required_len as nat),
        decreases sat_sub(required_len as nat, len as nat),
    {
        len = len * 2;
    }
    if len < LEAST_BUFFER {
        Some(LEAST_BUFFER)
    } else {
        Some(len)
    }
}

/// A buffer that was made is large enough, and stays.
pub proof fn law_buffer_is_large_enough(held: Option<usize>, required: usize)
    ensures
        grown_buffer(held, required) matches Some(len) ==> len >= required && len >= LEAST_BUFFER,
        grown_buffer(held, required) matches Some(len) ==> (len <= usize::MAX ==> grown_buffer(
            Some(len as usize),
            required,
        ) is None),
{
    lemma_power_from(1, required as nat);
}

proof fn lemma_power_from(power: nat, n: nat)
    requires
        power > 0,
    ensures
        power_from(power, n) >= n,
    decreases sat_sub(n, power),
{
    if power < n {
        lemma_power_from(power * 2, n);
    }
}

/// The pixels of a surface of a size in points.
pub fn scaled_surface_size(width: u32, height: u32, scale: Double) -> (result: (u32, u32))
    ensures
        ({
            let used = surface_scale(scale);
            let factor = (used.mantissa(), used.scale());
            &&& result.0 == scaled_whole(points_of(width), factor, u32::MAX as nat)
            &&& result.1 == scaled_whole(points_of(height), factor, u32::MAX as nat)
        }),
{
    scaled_size(width, height, scale)
}

/// The format of a surface: the first without a curve of its own, else the first.
pub open spec fn preferred_format(is_srgb: Seq<bool>, from: nat) -> Option<int>
    decreases is_srgb.len() - from,
{
    if from >= is_srgb.len() {
        if is_srgb.len() > 0 {
            Some(0)
        } else {
            None
        }
    } else if !is_srgb[from as int] {
        Some(from as int)
    } else {
        preferred_format(is_srgb, from + 1)
    }
}

/// The format of a surface, of those that it offers; each tells whether it has a
/// curve of its own.
pub fn choose_surface_format(is_srgb: &[bool]) -> (result: Result<usize>)
    ensures
        match preferred_format(is_srgb@, 0) {
            Some(at) => result matches Ok(found) && found == at && found < is_srgb@.len(),
            None => result == Err::<usize, RendererError>(RendererError::NoFormats),
        },
{
    let mut i: usize = 0;
    while i < is_srgb.len()
        invariant
            i <= is_srgb@.len(),
            preferred_format(is_srgb@, 0) == preferred_format(is_srgb@, i as nat),
        decreases is_srgb@.len() - i,
    {
        if !is_srgb[i] {
            return Ok(i);
        }
        i += 1;
    }
    if is_srgb.len() > 0 {
        Ok(0)
    } else {
        Err(RendererError::NoFormats)
    }
}

/// A size that a surface can be given: at least one pixel.
pub fn surface_extent(width: u32, height: u32) -> (result: (u32, u32))
    ensures
        result.0 == (if width == 0 {
            1
        } else {
            width
        }),
        result.1 == (if height == 0 {
            1
        } else {
            height
        }),
{
    (
        if width == 0 {
            1
        } else {
            width
        },
        if height == 0 {
            1
        } else {
            height
        },
    )
}

/// The rows of a picture that is read back start at whole multiples of 256 bytes, with
/// no more room between them than that takes.
pub proof fn law_rows_are_padded_to_the_next_multiple(width: nat)
    ensures
        padded_row(width) % 256 == 0,
        width * 4 <= padded_row(width) < width * 4 + 256,
{
}

/// A frame whose planes have the sizes of its format is taken; ten bits only where the
/// device has them.
pub proof fn law_complete_frames_are_taken(frame: PlanarFrame, has_sixteen_bits: bool)
    requires
        frame.width > 0 && frame.height > 0,
        frame.width % 2 == 0 && frame.height % 2 == 0,
    ensures
        frame.format == PlanarPixelFormat::Nv12 && frame.luma@.len() == frame.width * frame.height
            && frame.chroma@.len() * 2 == frame.width * frame.height ==> upload_refusal(
            frame,
            has_sixteen_bits,
        ) is None,
        frame.format == PlanarPixelFormat::P010 && frame.luma@.len() == frame.width * frame.height
            * 2 && frame.chroma@.len() == frame.width * frame.height ==> (upload_refusal(
            frame,
            has_sixteen_bits,
        ) is None <==> has_sixteen_bits),
        frame.format == PlanarPixelFormat::Nv12 && frame.luma@.len() != frame.width * frame.height
            ==> upload_refusal(frame, has_sixteen_bits) is Some,
{
    let half = (frame.width / 2) as int;
    let rows = (frame.height / 2) as int;
    let width = frame.width as int;
    let height = frame.height as int;
    assert(half * rows * 4 == width * height && half * rows * 2 * 2 == half * rows * 4 && width
        * height * 1 == width * height && half * rows * 2 * 1 == half * rows * 2)
        by (nonlinear_arith)
        requires
            width == half * 2,
            height == rows * 2,
    ;
}

/// A picture is fitted whole: both its sides are scaled by the same factor, which is
/// the lesser of the two that would fill the surface one way, and it stands in the
/// middle.
pub proof fn law_pictures_are_fitted_whole(
    layout: VideoPresentationLayout,
    source_width: u32,
    source_height: u32,
    drawable_width: u32,
    drawable_height: u32,
    scale: Single,
)
    requires
        layout.is_fit(source_width, source_height, drawable_width, drawable_height),
        scale == fit_scale(
            (size_of(source_width), size_of(source_height)),
            (size_of(drawable_width), size_of(drawable_height)),
        ),
    ensures
        ({
            let by_width = size_of(drawable_width).quotient(size_of(source_width));
            let by_height = size_of(drawable_height).quotient(size_of(source_height));
            &&& scale == by_width || scale == by_height
            &&& !by_width.is_nan() && !by_height.is_nan() ==> scale.rank() <= by_width.rank()
                && scale.rank() <= by_height.rank()
            &&& layout.target_rect@.len() == 4
            &&& layout.target_rect@[2] == size_of(source_width).product(scale)
            &&& layout.target_rect@[3] == size_of(source_height).product(scale)
            &&& layout.target_rect@[0] == margin(size_of(drawable_width), layout.target_rect@[2])
            &&& layout.target_rect@[1] == margin(size_of(drawable_height), layout.target_rect@[3])
            &&& layout.source_width == size_of(source_width)
            &&& layout.source_height == size_of(source_height)
            &&& layout.drawable_width == size_of(drawable_width)
            &&& layout.drawable_height == size_of(drawable_height)
        }),
{
}

/// What lies over the picture is placed with it: across and down are each moved and
/// scaled for themselves, as the picture is.
pub proof fn law_overlays_lie_on_the_picture(
    layout: VideoPresentationLayout,
    x: Single,
    y: Single,
    width: Single,
    height: Single,
    other: Single,
)
    ensures
        ({
            let placed = layout.mapped(x, y, width, height);
            let across = layout.target_rect@[2].quotient(layout.source_width);
            let down = layout.target_rect@[3].quotient(layout.source_height);
            &&& placed.len() == 4
            &&& placed[0] == layout.target_rect@[0].sum(x.product(across))
            &&& placed[1] == layout.target_rect@[1].sum(y.product(down))
            &&& placed[2] == width.product(across)
            &&& placed[3] == height.product(down)
            &&& layout.mapped(other, y, width, height)[1] == placed[1]
            &&& layout.mapped(x, other, width, height)[0] == placed[0]
            &&& layout.mapped(x, y, other, height)[3] == placed[3]
            &&& layout.mapped(x, y, width, other)[2] == placed[2]
        }),
{
}

/// Planes are drawn in their order, those without pixels left out.
pub proof fn law_planes_are_drawn_in_order(
    before: Seq<SubtitleBitmapPlane>,
    plane: SubtitleBitmapPlane,
)
    requires
        before.len() < usize::MAX,
    ensures
        drawn_planes(Seq::empty()).len() == 0,
        plane.width > 0 && plane.height > 0 ==> drawn_planes(before.push(plane)) == drawn_planes(
            before,
        ).push(before.len() as usize),
        plane.width == 0 || plane.height == 0 ==> drawn_planes(before.push(plane)) == drawn_planes(
            before,
        ),
        first_bad_overlay(before) is None && plane.rgba@.len() == plane.width * plane.height * 4
            ==> first_bad_overlay(before.push(plane)) is None,
        plane.width > 0 && plane.height > 0 && plane.rgba@.len() != plane.width * plane.height * 4
            ==> first_bad_overlay(before.push(plane)) is Some,
{
    assert(before.push(plane).drop_last() =~= before);
}

/// Each glyph is drawn in its place and colour, in the order of the glyphs. It has an
/// outline and a shadow just if these can be seen; the shadow is moved by its offset,
/// across and down.
pub proof fn law_glyphs_are_drawn_in_order(
    before: Seq<DanmakuGlyphInstance>,
    glyph: DanmakuGlyphInstance,
)
    ensures
        ({
            let fills = fills_of(before.push(glyph));
            &&& fills.len() == before.len() + 1
            &&& fills.drop_last() == fills_of(before)
            &&& fills.last().rect == glyph.rect@
            &&& fills.last().tex_rect == glyph.tex_rect@
            &&& fills.last().color == glyph.color_rgba@
        }),
        is_above_zero(glyph.outline_rgba@[3]) ==> {
            let outlines = outlines_of(before.push(glyph));
            &&& outlines.len() == outlines_of(before).len() + 1
            &&& outlines.drop_last() == outlines_of(before)
            &&& outlines.last().rect == glyph.rect@
            &&& outlines.last().tex_rect == glyph.tex_rect@
            &&& outlines.last().color == glyph.outline_rgba@
        },
        !is_above_zero(glyph.outline_rgba@[3]) ==> outlines_of(before.push(glyph)) == outlines_of(
            before,
        ),
        is_above_zero(glyph.shadow_rgba@[3]) ==> {
            let shadows = shadows_of(before.push(glyph));
            &&& shadows.len() == shadows_of(before).len() + 1
            &&& shadows.drop_last() == shadows_of(before)
            &&& shadows.last().rect.len() == 4
            &&& shadows.last().rect[0] == glyph.rect@[0].sum(glyph.shadow_offset@[0])
            &&& shadows.last().rect[1] == glyph.rect@[1].sum(glyph.shadow_offset@[1])
            &&& shadows.last().rect[2] == glyph.rect@[2]
            &&& shadows.last().rect[3] == glyph.rect@[3]
            &&& shadows.last().tex_rect == glyph.tex_rect@
            &&& shadows.last().color == glyph.shadow_rgba@
        },
        !is_above_zero(glyph.shadow_rgba@[3]) ==> shadows_of(before.push(glyph)) == shadows_of(
            before,
        ),
{
    assert(before.push(glyph).drop_last() =~= before);
    assert(fills_of(before.push(glyph)).drop_last() =~= fills_of(before));
    assert(outlines_of(before).push(outlines_of(before.push(glyph)).last()).drop_last()
        =~= outlines_of(before));
    assert(shadows_of(before).push(shadows_of(before.push(glyph)).last()).drop_last()
        =~= shadows_of(before));
}

/// A plan of comments is drawn with the frame that it was made for and no other.
pub proof fn law_plans_are_for_their_frame(
    plan: DanmakuRenderPlan,
    generation: u64,
    media_time: nat,
    width: u32,
    height: u32,
)
    requires
        width > 0 && height > 0,
    ensures
        is_for(plan, generation, media_time, (width, height)) <==> plan.generation == generation
            && plan.media_time@ == media_time && plan.viewport.width == width
            && plan.viewport.height == height,
        is_for(plan, generation, media_time, (0, 0)) <==> plan.generation == generation
            && plan.media_time@ == media_time,
{
}

/// Of the formats of a surface the first without a transfer curve of its own is taken,
/// and the first of all where each has one.
pub proof fn law_plain_formats_are_preferred(is_srgb: Seq<bool>, from: nat)
    requires
        from <= is_srgb.len(),
    ensures
        match preferred_format(is_srgb, from) {
            Some(at) => {
                ||| from <= at < is_srgb.len() && !is_srgb[at] && forall|i: int|
                    from <= i < at ==> #[trigger] is_srgb[i]
                ||| at == 0 && is_srgb.len() > 0 && forall|i: int|
                    from <= i < is_srgb.len() ==> #[trigger] is_srgb[i]
            },
            None => is_srgb.len() == 0,
        },
    decreases is_srgb.len() - from,
{
    if from < is_srgb.len() && is_srgb[from as int] {
        law_plain_formats_are_preferred(is_srgb, from + 1);
    }
}

/// The codes that the shaders know the transfer functions and the operators by.
pub proof fn law_shader_codes()
    ensures
        code_of_transfer(TransferFunction::Srgb) == 1,
        code_of_transfer(TransferFunction::Bt1886) == 2,
        code_of_transfer(TransferFunction::Pq) == 3,
        code_of_transfer(TransferFunction::Hlg) == 4,
        code_of_transfer(TransferFunction::Unknown) == code_of_transfer(TransferFunction::Srgb),
        code_of_operator(ToneMapOperator::Clip) == 0,
        code_of_operator(ToneMapOperator::Reinhard) == 1,
        code_of_operator(ToneMapOperator::Mobius) == 2,
{
}

} // verus!
