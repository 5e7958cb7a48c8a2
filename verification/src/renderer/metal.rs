//! What a renderer takes from imported video frames and overlays.
use crate::danmaku::plan::DanmakuRenderPlan;
use crate::float_bits::{Double, Single, SINGLE_ONE};
use crate::media::{ColorPrimaries, TransferFunction};
use crate::overlay::OverlayFrame;
use crate::renderer::color::{
    edr_target, sdr_target, told_peak, ColorRange, HdrMetadata, MatrixCoefficients,
    SourceColorState, TargetColorState, SINGLE_203, SINGLE_TEN_THOUSAND,
};
use crate::renderer::error::{RendererError, Result};
use crate::subtitle::bitmap::{mask_len, SubtitleAlphaBitmap, SubtitleBitmapPlane};
use crate::text::string_of;
use vstd::prelude::*;

verus! {

broadcast use vstd::seq_lib::group_seq_properties;

// ---------------------------------------------------------------------------
// Output
// ---------------------------------------------------------------------------

/// How the pixels of a drawable are held.
#[derive(Debug, Clone, Copy, PartialEq, Eq, Structural)]
pub enum MetalDrawablePixelFormat {
    Bgra8Unorm,
    Rgba16Float,
}

/// What is drawn to.
#[derive(Debug, Clone, Copy, PartialEq, Eq, Structural)]
pub enum MetalOutputMode {
    /// A plain display.
    Sdr,
    /// A display with headroom above its white.
    AppleEdr { headroom: Single },
}

impl Default for MetalOutputMode {
    fn default() -> (result: Self)
        ensures
            result == MetalOutputMode::Sdr,
    {
        MetalOutputMode::Sdr
    }
}

/// How a renderer draws.
#[derive(Debug, Clone, Copy, PartialEq, Eq, Structural)]
pub struct MetalRendererConfig {
    pub output_mode: MetalOutputMode,
}

impl Default for MetalRendererConfig {
    fn default() -> (result: Self)
        ensures
            result.output_mode == MetalOutputMode::Sdr,
    {
        Self { output_mode: MetalOutputMode::default() }
    }
}

impl MetalOutputMode {
    /// A display with headroom of at least one.
    pub fn apple_edr(headroom: Single) -> (result: Self)
        ensures
            result == (MetalOutputMode::AppleEdr {
                headroom: headroom.greater(Single { bits: SINGLE_ONE }),
            }),
    {
        MetalOutputMode::AppleEdr { headroom: headroom.max_of(Single { bits: SINGLE_ONE }) }
    }

    /// How the pixels are held.
    pub fn pixel_format(self) -> (result: MetalDrawablePixelFormat)
        ensures
            result == (if self is Sdr {
                MetalDrawablePixelFormat::Bgra8Unorm
            } else {
                MetalDrawablePixelFormat::Rgba16Float
            }),
    {
        match self {
            MetalOutputMode::Sdr => MetalDrawablePixelFormat::Bgra8Unorm,
            MetalOutputMode::AppleEdr { .. } => MetalDrawablePixelFormat::Rgba16Float,
        }
    }

    /// Whether there is headroom above the white.
    pub fn is_edr(self) -> (result: bool)
        ensures
            result == (self is AppleEdr),
    {
        matches!(self, MetalOutputMode::AppleEdr { .. })
    }

    /// The colours that a video is shown in: with headroom, one coded for absolute
    /// brightness keeps its primaries and its code.
    pub open spec fn target(self, source: SourceColorState) -> TargetColorState {
        match self {
            MetalOutputMode::Sdr => sdr_target(ColorPrimaries::Bt709),
            MetalOutputMode::AppleEdr { headroom } => if source.transfer == TransferFunction::Pq {
                TargetColorState {
                    transfer: TransferFunction::Pq,
                    peak_nits: Single { bits: SINGLE_TEN_THOUSAND },
                    reference_white_nits: Single { bits: SINGLE_203 },
                    ..edr_target(
                        if source.primaries == ColorPrimaries::Unknown {
                            ColorPrimaries::Bt2020
                        } else {
                            source.primaries
                        },
                        headroom,
                    )
                }
            } else {
                edr_target(ColorPrimaries::Bt709, headroom)
            },
        }
    }

    /// The colours that a video of unknown colours is shown in.
    pub fn target_color(self) -> (result: TargetColorState)
        ensures
            result == (match self {
                MetalOutputMode::Sdr => sdr_target(ColorPrimaries::Bt709),
                MetalOutputMode::AppleEdr { headroom } => edr_target(
                    ColorPrimaries::Bt709,
                    headroom,
                ),
            }),
    {
        self.target_color_for_source(
            SourceColorState::new(ColorPrimaries::Unknown, TransferFunction::Unknown),
        )
    }

    /// The colours that a video is shown in.
    pub fn target_color_for_source(self, source: SourceColorState) -> (result: TargetColorState)
        ensures
            result == self.target(source),
    {
        match self {
            MetalOutputMode::Sdr => TargetColorState::sdr(ColorPrimaries::Bt709),
            MetalOutputMode::AppleEdr { headroom } => {
                let is_absolute = source.transfer == TransferFunction::Pq;
                let primaries = if !is_absolute {
                    ColorPrimaries::Bt709
                } else if source.primaries == ColorPrimaries::Unknown {
                    ColorPrimaries::Bt2020
                } else {
                    source.primaries
                };
                let mut target = TargetColorState::apple_edr(primaries, headroom);
                if is_absolute {
                    target.transfer = TransferFunction::Pq;
                    target.peak_nits = Single { bits: SINGLE_TEN_THOUSAND };
                    target.reference_white_nits = Single { bits: SINGLE_203 };
                }
                target
            },
        }
    }
}

// ---------------------------------------------------------------------------
// Imported frames
// ---------------------------------------------------------------------------

/// How the samples of an imported frame are held.
#[derive(Debug, Clone, Copy, PartialEq, Eq, Structural)]
pub enum ImportedVideoFormat {
    Nv12,
    P010,
}

/// A plane of an imported frame.
#[derive(Debug, Clone, PartialEq, Eq)]
pub struct ImportedVideoPlaneInfo {
    pub index: usize,
    pub width: usize,
    pub height: usize,
    pub metal_pixel_format: String,
}

/// What is known of an imported frame.
#[derive(Debug, Clone, PartialEq, Eq)]
pub struct ImportedVideoFrameInfo {
    pub width: usize,
    pub height: usize,
    pub pixel_format: u32,
    pub pixel_format_fourcc: String,
    pub format: ImportedVideoFormat,
    pub full_range: bool,
    pub color_range: ColorRange,
    pub planes: Vec<ImportedVideoPlaneInfo>,
}

/// An imported frame.
#[derive(Debug)]
pub struct ImportedVideoFrame {
    pub info: ImportedVideoFrameInfo,
    pub source_color: SourceColorState,
    /// How many textures hold the planes, if there are any.
    pub textures: Option<usize>,
}

/// The range that a frame is read with: that of its buffer, else that of its
/// metadata, else the limited one.
pub open spec fn used_range(imported: ColorRange, told: ColorRange) -> ColorRange {
    if imported != ColorRange::Unspecified {
        imported
    } else if told != ColorRange::Unspecified {
        told
    } else {
        ColorRange::Limited
    }
}

impl ImportedVideoFrame {
    /// A frame that was just imported to textures, if there are any: only its range
    /// is known.
    pub fn new(info: ImportedVideoFrameInfo, textures: Option<usize>) -> (result: Self)
        ensures
            result.info == info,
            result.textures == textures,
            result.source_color == (SourceColorState {
                primaries: ColorPrimaries::Unknown,
                transfer: TransferFunction::Unknown,
                range: used_range(info.color_range, ColorRange::Unspecified),
                matrix: MatrixCoefficients::Unspecified,
                hdr_metadata: None,
                nominal_peak_nits: None,
            }),
    {
        let range = info.color_range.resolve(ColorRange::Limited);
        Self {
            info,
            source_color: SourceColorState::new(
                ColorPrimaries::Unknown,
                TransferFunction::Unknown,
            ).range(range),
            textures,
        }
    }

    /// The number of planes that were imported.
    pub fn plane_count(&self) -> (result: usize)
        ensures
            result == (match self.textures {
                Some(count) => count,
                None => 0,
            }),
    {
        match self.textures {
            Some(count) => count,
            None => 0,
        }
    }

    /// What is known of the frame.
    pub fn info(&self) -> (result: &ImportedVideoFrameInfo)
        ensures
            *result == self.info,
    {
        &self.info
    }

    /// The colours that the frame is read with.
    pub fn source_color(&self) -> (result: SourceColorState)
        ensures
            result == self.source_color,
    {
        self.source_color
    }

    /// Reads the frame with given colours, but for the range of its buffer.
    pub fn set_source_color(&mut self, source: SourceColorState)
        ensures
            *final(self) == (ImportedVideoFrame {
                source_color: SourceColorState {
                    range: used_range(old(self).info.color_range, source.range),
                    ..source
                },
                ..*old(self)
            }),
    {
        let fallback = source.range.resolve(ColorRange::Limited);
        self.source_color = source.range(self.info.color_range.resolve(fallback));
    }

    /// Reads the frame with given colours, but for the range of its buffer.
    pub fn set_source_color_metadata(
        &mut self,
        primaries: ColorPrimaries,
        transfer: TransferFunction,
        range: ColorRange,
        matrix: MatrixCoefficients,
        hdr_metadata: Option<HdrMetadata>,
    )
        ensures
            *final(self) == (ImportedVideoFrame {
                source_color: SourceColorState {
                    primaries,
                    transfer,
                    range: used_range(old(self).info.color_range, range),
                    matrix,
                    hdr_metadata,
                    nominal_peak_nits: told_peak(hdr_metadata, None),
                },
                ..*old(self)
            }),
    {
        self.set_source_color(
            SourceColorState::new(primaries, transfer).range(range).matrix(matrix).hdr_metadata(
                hdr_metadata,
            ),
        );
    }
}

/// The colours of a video and of the display that shows it.
#[derive(Debug, Clone, Copy, PartialEq, Eq, Structural)]
pub struct VideoRenderPipeline {
    pub source: SourceColorState,
    pub target: TargetColorState,
}

impl VideoRenderPipeline {
    /// From the colours of a video to those of a display.
    pub fn new(source: SourceColorState, target: TargetColorState) -> (result: Self)
        ensures
            result == (VideoRenderPipeline { source, target }),
    {
        Self { source, target }
    }
}

/// A frame to draw, and how.
pub struct VideoRenderFrame<'a> {
    pub frame: &'a ImportedVideoFrame,
    pub pipeline: VideoRenderPipeline,
}

/// The range of a buffer.
pub fn color_range_from_import(full_range: bool) -> (result: ColorRange)
    ensures
        result == (if full_range {
            ColorRange::Full
        } else {
            ColorRange::Limited
        }),
{
    if full_range {
        ColorRange::Full
    } else {
        ColorRange::Limited
    }
}

impl<'a> VideoRenderFrame<'a> {
    /// A frame to draw with its own colours on a plain display.
    pub fn new(frame: &'a ImportedVideoFrame) -> (result: Self)
        ensures
            result.frame == frame,
            result.pipeline == (VideoRenderPipeline {
                source: frame.source_color,
                target: sdr_target(ColorPrimaries::Bt709),
            }),
    {
        Self {
            frame,
            pipeline: VideoRenderPipeline::new(
                frame.source_color(),
                TargetColorState::sdr(ColorPrimaries::Bt709),
            ),
        }
    }

    /// The same frame, read with another range.
    pub fn full_range(self, full_range: bool) -> (result: Self)
        ensures
            result.frame == self.frame,
            result.pipeline == (VideoRenderPipeline {
                source: SourceColorState {
                    range: if full_range {
                        ColorRange::Full
                    } else {
                        ColorRange::Limited
                    },
                    ..self.pipeline.source
                },
                ..self.pipeline
            }),
    {
        let mut pipeline = self.pipeline;
        pipeline.source.range = color_range_from_import(full_range);
        Self { frame: self.frame, pipeline }
    }

    /// The same frame, read with other colours; range and matrix stay, and nothing
    /// is known of its dynamic range.
    pub fn source_color(self, primaries: ColorPrimaries, transfer: TransferFunction) -> (result:
        Self)
        ensures
            result.frame == self.frame,
            result.pipeline == (VideoRenderPipeline {
                source: SourceColorState {
                    primaries,
                    transfer,
                    range: self.pipeline.source.range,
                    matrix: self.pipeline.source.matrix,
                    hdr_metadata: None,
                    nominal_peak_nits: None,
                },
                target: self.pipeline.target,
            }),
    {
        let source = SourceColorState::new(primaries, transfer).range(
            self.pipeline.source.range,
        ).matrix(self.pipeline.source.matrix);
        Self {
            frame: self.frame,
            pipeline: VideoRenderPipeline::new(source, self.pipeline.target),
        }
    }

    /// The same frame, drawn otherwise.
    pub fn pipeline(self, pipeline: VideoRenderPipeline) -> (result: Self)
        ensures
            result.frame == self.frame,
            result.pipeline == pipeline,
    {
        Self { frame: self.frame, pipeline }
    }
}

/// An overlay to draw.
pub struct OverlayRenderFrame<'a> {
    pub frame: &'a OverlayFrame,
}

impl<'a> OverlayRenderFrame<'a> {
    /// An overlay to draw.
    pub fn new(frame: &'a OverlayFrame) -> (result: Self)
        ensures
            result.frame == frame,
    {
        Self { frame }
    }
}

/// Comments to draw.
pub struct DanmakuRenderFrame<'a> {
    pub plan: &'a DanmakuRenderPlan,
}

impl<'a> DanmakuRenderFrame<'a> {
    /// Comments to draw.
    pub fn new(plan: &'a DanmakuRenderPlan) -> (result: Self)
        ensures
            result.plan == plan,
    {
        Self { plan }
    }
}

/// A colour that a surface is cleared with.
#[derive(Debug, Clone, Copy, PartialEq, Eq, Structural)]
pub struct ClearColor {
    pub red: Double,
    pub green: Double,
    pub blue: Double,
    pub alpha: Double,
}

/// A frame as a decoder of the system hands it out: a buffer, known by its
/// address, and its size.
#[derive(Debug, Clone, Copy, PartialEq, Eq, Structural)]
pub struct VideoFrameTextureSource {
    pub raw_pixel_buffer: usize,
    pub width: u32,
    pub height: u32,
}

impl VideoFrameTextureSource {
    /// A buffer of a size.
    pub fn new(raw_pixel_buffer: usize, width: u32, height: u32) -> (result: Self)
        ensures
            result == (VideoFrameTextureSource { raw_pixel_buffer, width, height }),
    {
        Self { raw_pixel_buffer, width, height }
    }
}

/// A buffer that tells its range is read with it, whatever the metadata say.
pub proof fn law_buffer_range_wins(imported: ColorRange, told: ColorRange)
    requires
        imported != ColorRange::Unspecified,
    ensures
        used_range(imported, told) == imported,
        used_range(ColorRange::Unspecified, told) != ColorRange::Unspecified,
{
}

// ---------------------------------------------------------------------------
// Overlays
// ---------------------------------------------------------------------------

/// What an overlay takes.
#[derive(Debug, Clone, Copy, PartialEq, Eq, Structural)]
pub struct PreparedOverlayFrameInfo {
    pub viewport_width: u32,
    pub viewport_height: u32,
    pub subtitle_planes: usize,
    pub subtitle_pixels: usize,
    pub subtitle_bytes: usize,
}

/// The pixels of a plane.
pub open spec fn plane_pixels(plane: SubtitleBitmapPlane) -> nat {
    (plane.width * plane.height) as nat
}

/// The pixels of a mask.
pub open spec fn mask_pixels(mask: SubtitleAlphaBitmap) -> nat {
    (mask.placement.width * mask.placement.height) as nat
}

/// The bytes of a mask.
pub open spec fn mask_bytes(mask: SubtitleAlphaBitmap) -> nat {
    mask_len(
        mask.placement.width as nat,
        mask.placement.height as nat,
        mask.stride as nat,
    )
}

/// The pixels of some planes.
pub open spec fn planes_pixels(planes: Seq<SubtitleBitmapPlane>) -> nat
    decreases planes.len(),
{
    if planes.len() == 0 {
        0
    } else {
        planes_pixels(planes.drop_last()) + plane_pixels(planes.last())
    }
}

/// The pixels of some masks.
pub open spec fn masks_pixels(masks: Seq<SubtitleAlphaBitmap>) -> nat
    decreases masks.len(),
{
    if masks.len() == 0 {
        0
    } else {
        masks_pixels(masks.drop_last()) + mask_pixels(masks.last())
    }
}

/// The bytes of some masks.
pub open spec fn masks_bytes(masks: Seq<SubtitleAlphaBitmap>) -> nat
    decreases masks.len(),
{
    if masks.len() == 0 {
        0
    } else {
        masks_bytes(masks.drop_last()) + mask_bytes(masks.last())
    }
}

/// What is wrong with the first plane that is not as long as it should be.
pub open spec fn first_bad_plane(planes: Seq<SubtitleBitmapPlane>) -> Option<RendererError>
    decreases planes.len(),
{
    if planes.len() == 0 {
        None
    } else {
        match first_bad_plane(planes.drop_last()) {
            Some(error) => Some(error),
            None => if planes.last().rgba@.len() != plane_pixels(planes.last()) * 4 {
                Some(
                    RendererError::SubtitlePlane {
                        bytes: planes.last().rgba@.len() as usize,
                        expected: (plane_pixels(planes.last()) * 4) as usize,
                        width: planes.last().width,
                        height: planes.last().height,
                    },
                )
            } else {
                None
            },
        }
    }
}

/// What is wrong with the first mask that is too short.
pub open spec fn first_bad_mask(masks: Seq<SubtitleAlphaBitmap>) -> Option<RendererError>
    decreases masks.len(),
{
    if masks.len() == 0 {
        None
    } else {
        match first_bad_mask(masks.drop_last()) {
            Some(error) => Some(error),
            None => if !masks.last()@.is_valid() {
                Some(
                    RendererError::AlphaBitmap {
                        bytes: masks.last().alpha@.len() as usize,
                        expected: mask_bytes(masks.last()) as usize,
                        width: masks.last().placement.width,
                        height: masks.last().placement.height,
                        stride: masks.last().stride,
                    },
                )
            } else {
                None
            },
        }
    }
}

/// Whether the sizes of an overlay can be added up.
pub open spec fn can_add_up(frame: OverlayFrame) -> bool {
    &&& planes_pixels(frame.subtitle_planes@) * 4 + masks_bytes(frame.subtitle_alpha_planes@)
        <= usize::MAX
    &&& planes_pixels(frame.subtitle_planes@) + masks_pixels(frame.subtitle_alpha_planes@)
        <= usize::MAX
    &&& frame.subtitle_planes@.len() + frame.subtitle_alpha_planes@.len() <= usize::MAX
}

proof fn lemma_planes_grow(planes: Seq<SubtitleBitmapPlane>, n: int)
    requires
        0 <= n <= planes.len(),
    ensures
        planes_pixels(planes.take(n)) <= planes_pixels(planes),
    decreases planes.len() - n,
{
    if n < planes.len() {
        lemma_planes_grow(planes, n + 1);
        assert(planes.take(n + 1).drop_last() =~= planes.take(n));
    } else {
        assert(planes.take(n) =~= planes);
    }
}

proof fn lemma_masks_grow(masks: Seq<SubtitleAlphaBitmap>, n: int)
    requires
        0 <= n <= masks.len(),
    ensures
        masks_pixels(masks.take(n)) <= masks_pixels(masks),
        masks_bytes(masks.take(n)) <= masks_bytes(masks),
    decreases masks.len() - n,
{
    if n < masks.len() {
        lemma_masks_grow(masks, n + 1);
        assert(masks.take(n + 1).drop_last() =~= masks.take(n));
    } else {
        assert(masks.take(n) =~= masks);
    }
}

proof fn lemma_bad_plane_stays(planes: Seq<SubtitleBitmapPlane>, n: int)
    requires
        0 <= n <= planes.len(),
        first_bad_plane(planes.take(n)) is Some,
    ensures
        first_bad_plane(planes) == first_bad_plane(planes.take(n)),
    decreases planes.len() - n,
{
    if n < planes.len() {
        assert(planes.take(n + 1).drop_last() =~= planes.take(n));
        lemma_bad_plane_stays(planes, n + 1);
    } else {
        assert(planes.take(n) =~= planes);
    }
}

proof fn lemma_bad_mask_stays(masks: Seq<SubtitleAlphaBitmap>, n: int)
    requires
        0 <= n <= masks.len(),
        first_bad_mask(masks.take(n)) is Some,
    ensures
        first_bad_mask(masks) == first_bad_mask(masks.take(n)),
    decreases masks.len() - n,
{
    if n < masks.len() {
        assert(masks.take(n + 1).drop_last() =~= masks.take(n));
        lemma_bad_mask_stays(masks, n + 1);
    } else {
        assert(masks.take(n) =~= masks);
    }
}

/// The size of a picture, where it fits.
fn product_of(width: u32, height: u32) -> (result: usize)
    requires
        width * height <= usize::MAX,
    ensures
        result == width * height,
{
    assert(width * height <= 0xffff_ffff * 0xffff_ffff && width * height >= 0) by (nonlinear_arith)
        requires
            0 <= width <= 0xffff_ffff,
            0 <= height <= 0xffff_ffff,
    ;
    (width as u64 * height as u64) as usize
}

/// What an overlay takes. The first plane that is not as long as it should be is
/// refused, else the first mask that is too short.
pub fn inspect_overlay_frame(frame: &OverlayFrame) -> (result: Result<PreparedOverlayFrameInfo>)
    requires
        can_add_up(*frame),
    ensures
        match first_bad_plane(frame.subtitle_planes@) {
            Some(error) => result == Err::<PreparedOverlayFrameInfo, RendererError>(error),
            None => match first_bad_mask(frame.subtitle_alpha_planes@) {
                Some(error) => result == Err::<PreparedOverlayFrameInfo, RendererError>(error),
                None => result matches Ok(info) && {
                    &&& info.viewport_width == frame.viewport.width
                    &&& info.viewport_height == frame.viewport.height
                    &&& info.subtitle_planes == frame.subtitle_planes@.len()
                        + frame.subtitle_alpha_planes@.len()
                    &&& info.subtitle_pixels == planes_pixels(frame.subtitle_planes@)
                        + masks_pixels(frame.subtitle_alpha_planes@)
                    &&& info.subtitle_bytes == planes_pixels(frame.subtitle_planes@) * 4
                        + masks_bytes(frame.subtitle_alpha_planes@)
                },
            },
        },
{
    let ghost planes = frame.subtitle_planes@;
    let ghost masks = frame.subtitle_alpha_planes@;
    let mut subtitle_pixels: usize = 0;
    let mut subtitle_bytes: usize = 0;
    let mut i: usize = 0;
    assert(planes.take(0) =~= Seq::<SubtitleBitmapPlane>::empty());
    while i < frame.subtitle_planes.len()
        invariant
            i <= planes.len(),
            planes == frame.subtitle_planes@,
            can_add_up(*frame),
            first_bad_plane(planes.take(i as int)) is None,
            subtitle_pixels == planes_pixels(planes.take(i as int)),
            subtitle_bytes == planes_pixels(planes.take(i as int)) * 4,
        decreases planes.len() - i,
    {
        proof {
            assert(planes.take(i as int + 1).drop_last() =~= planes.take(i as int));
            lemma_planes_grow(planes, i as int + 1);
        }
        let plane: &SubtitleBitmapPlane = &frame.subtitle_planes[i];
        let pixels: usize = product_of(plane.width, plane.height);
        let bytes: usize = pixels * 4;
        if plane.rgba.len() != bytes {
            proof {
                lemma_bad_plane_stays(planes, i as int + 1);
            }
            return Err(
                RendererError::SubtitlePlane {
                    bytes: plane.rgba.len(),
                    expected: bytes,
                    width: plane.width,
                    height: plane.height,
                },
            );
        }
        subtitle_pixels += pixels;
        subtitle_bytes += bytes;
        i += 1;
    }
    assert(planes.take(i as int) =~= planes);
    let mut j: usize = 0;
    assert(masks.take(0) =~= Seq::<SubtitleAlphaBitmap>::empty());
    while j < frame.subtitle_alpha_planes.len()
        invariant
            j <= masks.len(),
            masks == frame.subtitle_alpha_planes@,
            planes == frame.subtitle_planes@,
            can_add_up(*frame),
            first_bad_plane(planes) is None,
            first_bad_mask(masks.take(j as int)) is None,
            subtitle_pixels == planes_pixels(planes) + masks_pixels(masks.take(j as int)),
            subtitle_bytes == planes_pixels(planes) * 4 + masks_bytes(masks.take(j as int)),
        decreases masks.len() - j,
    {
        proof {
            assert(masks.take(j as int + 1).drop_last() =~= masks.take(j as int));
            lemma_masks_grow(masks, j as int + 1);
        }
        let mask: &SubtitleAlphaBitmap = &frame.subtitle_alpha_planes[j];
        if !mask.is_valid() {
            proof {
                lemma_bad_mask_stays(masks, j as int + 1);
            }
            return Err(
                RendererError::AlphaBitmap {
                    bytes: mask.alpha.len(),
                    expected: mask.required_len(),
                    width: mask.placement.width,
                    height: mask.placement.height,
                    stride: mask.stride,
                },
            );
        }
        subtitle_pixels += product_of(mask.placement.width, mask.placement.height);
        subtitle_bytes += mask.required_len();
        j += 1;
    }
    assert(masks.take(j as int) =~= masks);
    Ok(
        PreparedOverlayFrameInfo {
            viewport_width: frame.viewport.width,
            viewport_height: frame.viewport.height,
            subtitle_planes: frame.subtitle_planes.len() + frame.subtitle_alpha_planes.len(),
            subtitle_pixels,
            subtitle_bytes,
        },
    )
}

// ---------------------------------------------------------------------------
// Codes of four characters
// ---------------------------------------------------------------------------

/// The bytes of a code, the highest first.
pub open spec fn code_byte(value: u32, index: int) -> u8 {
    if index == 0 {
        (value / 0x100_0000) as u8
    } else if index == 1 {
        (value / 0x1_0000 % 0x100) as u8
    } else if index == 2 {
        (value / 0x100 % 0x100) as u8
    } else {
        (value % 0x100) as u8
    }
}

/// Whether a byte can be printed.
pub open spec fn is_printable(byte: u8) -> bool {
    0x20 <= byte <= 0x7e
}

/// The hexadecimal digit of a number below sixteen.
pub open spec fn hex_digit(value: nat) -> char {
    if value < 10 {
        (value + 48) as u8 as char
    } else {
        (value + 87) as u8 as char
    }
}

/// A number as so many hexadecimal digits.
pub open spec fn hex_digits(value: nat, count: nat) -> Seq<char>
    decreases count,
{
    if count == 0 {
        Seq::empty()
    } else {
        hex_digits(value / 16, (count - 1) as nat).push(hex_digit(value % 16))
    }
}

/// A code in words: its four characters, or its number where one cannot be
/// printed.
pub open spec fn fourcc_text(value: u32) -> Seq<char> {
    if forall|i: int| 0 <= i < 4 ==> is_printable(#[trigger] code_byte(value, i)) {
        Seq::new(4, |i: int| code_byte(value, i) as char)
    } else {
        "0x"@ + hex_digits(value as nat, 8)
    }
}

fn push_hex(target: &mut Vec<char>, value: u32, count: u32)
    ensures
        final(target)@ == old(target)@ + hex_digits(value as nat, count as nat),
    decreases count,
{
    let ghost before = target@;
    if count > 0 {
        push_hex(target, value / 16, count - 1);
        let digit: u8 = (value % 16) as u8;
        if digit < 10 {
            target.push((digit + 48) as char);
        } else {
            target.push((digit + 87) as char);
        }
    }
    assert(target@ =~= before + hex_digits(value as nat, count as nat));
}

/// A code in words.
pub fn fourcc_string(value: u32) -> (result: String)
    ensures
        result@ == fourcc_text(value),
{
    let a: u8 = (value / 0x100_0000) as u8;
    let b: u8 = (value / 0x1_0000 % 0x100) as u8;
    let c: u8 = (value / 0x100 % 0x100) as u8;
    let d: u8 = (value % 0x100) as u8;
    assert(a == code_byte(value, 0));
    assert(b == code_byte(value, 1));
    assert(c == code_byte(value, 2));
    assert(d == code_byte(value, 3));
    let mut text: Vec<char> = Vec::new();
    let printable = 0x20 <= a && a <= 0x7e && 0x20 <= b && b <= 0x7e && 0x20 <= c && c <= 0x7e
        && 0x20 <= d && d <= 0x7e;
    if printable {
        text.push(a as char);
        text.push(b as char);
        text.push(c as char);
        text.push(d as char);
        proof {
            assert forall|i: int| 0 <= i < 4 implies is_printable(
                #[trigger] code_byte(value, i),
            ) by {
                assert(i == 0 || i == 1 || i == 2 || i == 3);
            }
        }
        assert(text@ =~= fourcc_text(value));
    } else {
        proof {
            reveal_strlit("0x");
        }
        text.push('0');
        text.push('x');
        assert(text@ =~= "0x"@);
        push_hex(&mut text, value, 8);
        assert(text@ =~= fourcc_text(value));
    }
    string_of(&text)
}

/// The bytes of a code make it up again, the first one as the highest.
pub proof fn law_code_bytes_make_up_the_code(value: u32)
    ensures
        code_byte(value, 0) * 0x100_0000 + code_byte(value, 1) * 0x1_0000 + code_byte(value, 2)
            * 0x100 + code_byte(value, 3) == value,
        (forall|i: int| 0 <= i < 4 ==> 0x20 <= #[trigger] code_byte(value, i) <= 0x7e) ==> {
            &&& fourcc_text(value).len() == 4
            &&& fourcc_text(value)[0] as u32 == value / 0x100_0000
            &&& fourcc_text(value)[3] as u32 == value % 0x100
        },
{
    let a = value / 0x100_0000;
    let b = value / 0x1_0000 % 0x100;
    let c = value / 0x100 % 0x100;
    let d = value % 0x100;
    assert(a < 0x100 && b < 0x100 && c < 0x100 && d < 0x100);
    assert(a * 0x100_0000 + b * 0x1_0000 + c * 0x100 + d == value);
    assert(code_byte(value, 0) == a);
    assert(code_byte(value, 1) == b);
    assert(code_byte(value, 2) == c);
    assert(code_byte(value, 3) == d);
    if forall|i: int| 0 <= i < 4 ==> 0x20 <= #[trigger] code_byte(value, i) <= 0x7e {
        assert forall|i: int| 0 <= i < 4 implies is_printable(#[trigger] code_byte(value, i)) by {}
    }
}

/// Each figure of a hexadecimal numeral counts sixteen of the next.
pub proof fn law_hexadecimal_figures(value: nat, count: nat, i: int)
    requires
        0 <= i < count,
        value < 0x1_0000_0000,
    ensures
        hex_digits(value, count).len() == count,
        i == count - 1 ==> hex_digits(value, count)[i] == hex_digit(value % 16),
        i < count - 1 ==> hex_digits(value, count)[i] == hex_digits(
            value / 16,
            (count - 1) as nat,
        )[i],
        value % 16 < 10 ==> hex_digit(value % 16) as u32 == '0' as u32 + value % 16,
        value % 16 >= 10 ==> hex_digit(value % 16) as u32 == 'a' as u32 + value % 16 - 10,
    decreases count,
{
    if count > 1 {
        law_hexadecimal_figures(value / 16, (count - 1) as nat, 0);
    } else {
        assert(hex_digits(value / 16, 0).len() == 0);
    }
}

/// The pixels and the bytes of a frame are those of its parts taken together.
pub proof fn law_parts_add_up(
    planes: Seq<SubtitleBitmapPlane>,
    plane: SubtitleBitmapPlane,
    masks: Seq<SubtitleAlphaBitmap>,
    mask: SubtitleAlphaBitmap,
)
    ensures
        planes_pixels(planes.push(plane)) == planes_pixels(planes) + plane.width * plane.height,
        masks_pixels(masks.push(mask)) == masks_pixels(masks) + mask.placement.width
            * mask.placement.height,
        masks_bytes(masks.push(mask)) == masks_bytes(masks) + mask_len(
            mask.placement.width as nat,
            mask.placement.height as nat,
            mask.stride as nat,
        ),
        planes_pixels(Seq::<SubtitleBitmapPlane>::empty()) == 0,
        masks_pixels(Seq::<SubtitleAlphaBitmap>::empty()) == 0,
        masks_bytes(Seq::<SubtitleAlphaBitmap>::empty()) == 0,
{
    assert(planes.push(plane).drop_last() =~= planes);
    assert(masks.push(mask).drop_last() =~= masks);
    assert(plane.width * plane.height >= 0) by (nonlinear_arith);
    assert(mask.placement.width * mask.placement.height >= 0) by (nonlinear_arith)
        requires
            mask.placement.width >= 0,
            mask.placement.height >= 0,
    ;
}

/// A frame is refused for the first of its parts that has not as many bytes as its size
/// asks for, and for no other reason.
pub proof fn law_first_bad_part_is_told(
    planes: Seq<SubtitleBitmapPlane>,
    plane: SubtitleBitmapPlane,
    masks: Seq<SubtitleAlphaBitmap>,
    mask: SubtitleAlphaBitmap,
)
    ensures
        first_bad_plane(planes) is Some ==> first_bad_plane(planes.push(plane)) == first_bad_plane(
            planes,
        ),
        first_bad_plane(planes) is None ==> (first_bad_plane(planes.push(plane)) is None
            <==> plane.rgba@.len() == plane.width * plane.height * 4),
        first_bad_mask(masks) is Some ==> first_bad_mask(masks.push(mask)) == first_bad_mask(masks),
        first_bad_mask(masks) is None ==> (first_bad_mask(masks.push(mask)) is None
            <==> mask@.is_valid()),
        first_bad_plane(Seq::<SubtitleBitmapPlane>::empty()) is None,
        first_bad_mask(Seq::<SubtitleAlphaBitmap>::empty()) is None,
{
    assert(planes.push(plane).drop_last() =~= planes);
    assert(masks.push(mask).drop_last() =~= masks);
    assert(plane.width * plane.height >= 0) by (nonlinear_arith);
}

} // verus!
