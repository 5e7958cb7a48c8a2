//! The state of the renderer that draws through a device of its own: its
//! surface, its frame and its counters.
use crate::binary64::scaled_whole;
use crate::danmaku::plan::DanmakuRenderPlan;
use crate::ffmpeg::codes::{hdr_of, matrix_of, primaries_of, range_of, transfer_of};
use crate::ffmpeg::frame::Frame;
use crate::ffmpeg::planes::{
    law_packed_planes_have_their_sizes, PlanarFrame, PlanarPixelFormat, SourcePixelFormat,
};
use crate::ffmpeg::probe::non_negative;
use crate::float_bits::{Double, Single};
use crate::media::ColorPrimaries;
use crate::overlay::OverlayFrame;
use crate::presenter::runtime::{points_of, surface_scale};
use crate::renderer::color::{
    sdr_target, told_peak, ColorRange, SourceColorState, TargetColorState,
};
use crate::renderer::error::{RendererError, Result};
use crate::renderer::metal::VideoRenderPipeline;
use crate::renderer::stats::WgpuRendererStats;
use crate::renderer::wgpu::{
    check_offscreen_size, check_planar_frame, choose_surface_format, code_of_operator,
    code_of_transfer, is_for, padded_row, plan_matches, preferred_format, sample_bytes,
    scaled_surface_size, strip_row_padding, surface_extent, tone_map_code, transfer_code, unpadded,
    upload_refusal, PlanarUpload, ToneMapOperator, VideoPresentationLayout,
    WgpuOffscreenReadback,
};
use crate::time::Duration;
use vstd::prelude::*;

verus! {

// ---------------------------------------------------------------------------
// Colours
// ---------------------------------------------------------------------------

/// A colour that a target is cleared with.
#[derive(Debug, Clone, Copy, PartialEq, Eq, Structural)]
pub struct WgpuClearColor {
    pub red: Double,
    pub green: Double,
    pub blue: Double,
    pub alpha: Double,
}

impl WgpuClearColor {
    /// A colour by its channels.
    pub fn new(red: Double, green: Double, blue: Double, alpha: Double) -> (result: Self)
        ensures
            result == (WgpuClearColor { red, green, blue, alpha }),
    {
        Self { red, green, blue, alpha }
    }
}

/// What is worked out of the colours of a video and a display: how brightness is
/// brought down, the levels of the video, and the numbers of its matrices.
#[derive(Debug, Clone, Copy, PartialEq, Eq)]
pub struct ColorNumbers {
    pub tone_map: ToneMapOperator,
    pub source_peak_nits: Single,
    pub source_white_nits: Single,
    pub luma: [Single; 3],
    pub gamut_matrix_rows: [[Single; 4]; 3],
}

/// What the shader of a video is told.
#[derive(Debug, Clone, Copy, PartialEq, Eq)]
pub struct VideoUniforms {
    pub is_p010: u32,
    pub full_range: u32,
    pub source_transfer: u32,
    pub target_transfer: u32,
    pub tone_map: u32,
    pub edr_output: u32,
    pub reserved0: u32,
    pub reserved1: u32,
    pub rect: [Single; 4],
    pub viewport: [Single; 4],
    pub nits: [Single; 4],
    pub luma_coefficients: [Single; 4],
    pub gamut_matrix_rows: [[Single; 4]; 3],
}

impl VideoUniforms {
    /// Whether the shader is told of a video on a display, and not yet where it is
    /// drawn.
    pub open spec fn tells(
        self,
        pipeline: VideoRenderPipeline,
        numbers: ColorNumbers,
        is_p010: bool,
        edr_output: bool,
    ) -> bool {
        &&& self.is_p010 == (if is_p010 {
            1u32
        } else {
            0u32
        })
        &&& self.full_range == (if pipeline.source.range == ColorRange::Full {
            1u32
        } else {
            0u32
        })
        &&& self.source_transfer == code_of_transfer(pipeline.source.transfer)
        &&& self.target_transfer == code_of_transfer(pipeline.target.transfer)
        &&& self.tone_map == code_of_operator(numbers.tone_map)
        &&& self.edr_output == (if edr_output {
            1u32
        } else {
            0u32
        })
        &&& self.reserved0 == 0 && self.reserved1 == 0
        &&& forall|i: int| 0 <= i < 4 ==> (#[trigger] self.rect@[i]).bits == 0
        &&& forall|i: int| 0 <= i < 4 ==> (#[trigger] self.viewport@[i]).bits == 0
        &&& self.nits@ == seq![
            numbers.source_peak_nits,
            pipeline.target.peak_nits,
            numbers.source_white_nits,
            pipeline.target.reference_white_nits,
        ]
        &&& self.luma_coefficients@ == seq![
            numbers.luma@[0],
            numbers.luma@[1],
            numbers.luma@[2],
            Single { bits: 0 },
        ]
        &&& self.gamut_matrix_rows == numbers.gamut_matrix_rows
    }

    /// What the shader is told of a video on a display. Where it is drawn is not
    /// told yet.
    pub fn from_pipeline(
        pipeline: &VideoRenderPipeline,
        numbers: &ColorNumbers,
        is_p010: bool,
        edr_output: bool,
    ) -> (result: Self)
        ensures
            result.tells(*pipeline, *numbers, is_p010, edr_output),
    {
        let zero = Single { bits: 0 };
        let nits = [
            numbers.source_peak_nits,
            pipeline.target.peak_nits,
            numbers.source_white_nits,
            pipeline.target.reference_white_nits,
        ];
        let luma_coefficients = [numbers.luma[0], numbers.luma[1], numbers.luma[2], zero];
        assert(nits@ =~= seq![
            numbers.source_peak_nits,
            pipeline.target.peak_nits,
            numbers.source_white_nits,
            pipeline.target.reference_white_nits,
        ]);
        assert(luma_coefficients@ =~= seq![
            numbers.luma@[0],
            numbers.luma@[1],
            numbers.luma@[2],
            Single { bits: 0 },
        ]);
        Self {
            is_p010: if is_p010 {
                1
            } else {
                0
            },
            full_range: if pipeline.source.range == ColorRange::Full {
                1
            } else {
                0
            },
            source_transfer: transfer_code(pipeline.source.transfer),
            target_transfer: transfer_code(pipeline.target.transfer),
            tone_map: tone_map_code(numbers.tone_map),
            edr_output: if edr_output {
                1
            } else {
                0
            },
            reserved0: 0,
            reserved1: 0,
            rect: [zero, zero, zero, zero],
            viewport: [zero, zero, zero, zero],
            nits,
            luma_coefficients,
            gamut_matrix_rows: numbers.gamut_matrix_rows,
        }
    }

    /// The same, drawn where a layout puts the video.
    pub fn placed(self, layout: VideoPresentationLayout) -> (result: Self)
        ensures
            result.rect == layout.target_rect,
            result.viewport@ == seq![
                layout.drawable_width,
                layout.drawable_height,
                Single { bits: 0 },
                Single { bits: 0 },
            ],
            result == (VideoUniforms { rect: result.rect, viewport: result.viewport, ..self }),
    {
        let mut uniforms = self;
        uniforms.rect = layout.target_rect;
        uniforms.viewport = layout.video_viewport();
        uniforms
    }
}

/// The colours of a decoded frame.
pub open spec fn frame_colors(frame: Frame) -> SourceColorState {
    SourceColorState {
        primaries: primaries_of(frame.primaries),
        transfer: transfer_of(frame.transfer),
        range: range_of(frame.range),
        matrix: matrix_of(frame.matrix),
        hdr_metadata: hdr_of(frame.mastering, frame.light),
        nominal_peak_nits: told_peak(hdr_of(frame.mastering, frame.light), None),
    }
}

/// From the colours of a decoded frame to those of a plain display.
pub fn frame_pipeline(frame: &Frame) -> (result: VideoRenderPipeline)
    ensures
        result.source == frame_colors(*frame),
        result.target == sdr_target(ColorPrimaries::Bt709),
{
    let source = SourceColorState::new(frame.color_primaries(), frame.transfer_function()).range(
        frame.color_range(),
    ).matrix(frame.matrix_coefficients()).hdr_metadata(frame.hdr_metadata());
    VideoRenderPipeline::new(source, TargetColorState::sdr(ColorPrimaries::Bt709))
}

/// The format that a frame in memory is packed to, if it can be read.
pub open spec fn packed_format(frame: Frame) -> Option<PlanarPixelFormat> {
    match frame.planes.format {
        SourcePixelFormat::Yuv420p | SourcePixelFormat::Nv12 => if frame.planes.nv12_planes()
            is Some {
            Some(PlanarPixelFormat::Nv12)
        } else {
            None
        },
        _ => if frame.planes.p010_planes() is Some {
            Some(PlanarPixelFormat::P010)
        } else {
            None
        },
    }
}

/// Packs a frame that lies in memory, if its format can be read.
pub fn frame_planes(frame: &Frame) -> (result: Result<PlanarFrame>)
    requires
        frame.planes.is_backed(),
    ensures
        match frame.planes.format {
            SourcePixelFormat::Yuv420p | SourcePixelFormat::Nv12 => match frame.planes.nv12_planes() {
                None => result == Err::<PlanarFrame, RendererError>(RendererError::UnsupportedFrame),
                Some((luma, chroma)) => result matches Ok(planar) && planar.format
                    == PlanarPixelFormat::Nv12 && planar.width == frame.planes.width
                    && planar.height == frame.planes.height && planar.luma@ == luma
                    && planar.chroma@ == chroma,
            },
            _ => match frame.planes.p010_planes() {
                None => result == Err::<PlanarFrame, RendererError>(RendererError::UnsupportedFrame),
                Some((luma, chroma)) => result matches Ok(planar) && planar.format
                    == PlanarPixelFormat::P010 && planar.width == frame.planes.width
                    && planar.height == frame.planes.height && planar.luma@ == luma
                    && planar.chroma@ == chroma,
            },
        },
{
    match frame.to_planar_frame() {
        Some(planar) => Ok(planar),
        None => Err(RendererError::UnsupportedFrame),
    }
}

// ---------------------------------------------------------------------------
// Surfaces
// ---------------------------------------------------------------------------

/// What a renderer may be asked to draw on.
#[derive(Debug, Clone, PartialEq, Eq)]
pub enum SurfaceTarget {
    /// A layer of Metal.
    Metal,
    /// A texture of Flutter.
    FlutterTexture,
    /// A layer of Core Animation, by its address.
    CoreAnimationLayer { raw_window: usize },
    /// A window of Windows, by its handle.
    WindowsHwnd { raw_window: usize },
    /// A window of another system, by the name of its kind.
    OtherWindow { kind: String },
}

/// Whether the renderer with a device of its own can draw on a target.
pub fn check_device_surface(target: SurfaceTarget, has_layers: bool) -> (result: Result<()>)
    ensures
        result == (match target {
            SurfaceTarget::Metal => Err::<(), RendererError>(RendererError::ForeignSurface),
            SurfaceTarget::FlutterTexture => Err(RendererError::ForeignSurface),
            SurfaceTarget::CoreAnimationLayer { .. } => if has_layers {
                Ok(())
            } else {
                Err(RendererError::AppleSurface)
            },
            SurfaceTarget::WindowsHwnd { raw_window } => if raw_window == 0 {
                Err(RendererError::NullWindow)
            } else {
                Ok(())
            },
            SurfaceTarget::OtherWindow { kind } => Err(RendererError::UnwiredSurface { kind }),
        }),
{
    match target {
        SurfaceTarget::Metal | SurfaceTarget::FlutterTexture => Err(RendererError::ForeignSurface),
        SurfaceTarget::CoreAnimationLayer { .. } => {
            if has_layers {
                Ok(())
            } else {
                Err(RendererError::AppleSurface)
            }
        },
        SurfaceTarget::WindowsHwnd { raw_window } => {
            if raw_window == 0 {
                Err(RendererError::NullWindow)
            } else {
                Ok(())
            }
        },
        SurfaceTarget::OtherWindow { kind } => Err(RendererError::UnwiredSurface { kind }),
    }
}

/// Whether the renderer of layers can draw on a target.
pub fn check_metal_surface(target: SurfaceTarget) -> (result: Result<()>)
    ensures
        result == (match target {
            SurfaceTarget::Metal => Ok::<(), RendererError>(()),
            SurfaceTarget::FlutterTexture => Err(RendererError::FlutterOnMetal),
            _ => Err(RendererError::WgpuOnMetal),
        }),
{
    match target {
        SurfaceTarget::Metal => Ok(()),
        SurfaceTarget::FlutterTexture => Err(RendererError::FlutterOnMetal),
        _ => Err(RendererError::WgpuOnMetal),
    }
}

/// A surface: the size and scale that were asked for, and its pixels.
#[derive(Debug, Clone, Copy, PartialEq, Eq, Structural)]
pub struct AttachedSurface {
    pub width: u32,
    pub height: u32,
    pub scale: Double,
    pub pixel_width: u32,
    pub pixel_height: u32,
    pub format_index: usize,
}

/// A frame that was handed over.
#[derive(Debug, Clone, Copy, PartialEq, Eq)]
pub struct UploadedVideo {
    pub width: u32,
    pub height: u32,
    pub uniforms: VideoUniforms,
}

/// The pixels of a size in points, in one direction.
pub open spec fn pixels_of(points: u32, scale: Double) -> nat {
    let used = surface_scale(scale);
    scaled_whole(points_of(points), (used.mantissa(), used.scale()), u32::MAX as nat)
}

/// A size that is at least one.
pub open spec fn not_empty(size: u32) -> u32 {
    if size == 0 {
        1
    } else {
        size
    }
}

/// What a renderer does to show its frame.
#[derive(Debug, Clone, Copy, PartialEq, Eq, Structural)]
pub enum DrawStep {
    /// Nothing: it has no frame, or nothing to draw on.
    Nothing,
    /// It draws: the frame, comments where they were planned for it, and whether
    /// anything lies over the frame.
    Draw { with_danmaku: bool, needs_overlay: bool },
}

/// A renderer with a device of its own.
#[derive(Debug, Clone, Copy, PartialEq, Eq)]
pub struct WgpuRenderer {
    pub supports_16bit_norm: bool,
    pub surface: Option<AttachedSurface>,
    pub current_video: Option<UploadedVideo>,
    pub stats: WgpuRendererStats,
}

impl WgpuRenderer {
    /// A renderer without surface and frame.
    pub fn new(supports_16bit_norm: bool) -> (result: Self)
        ensures
            result == (WgpuRenderer {
                supports_16bit_norm,
                surface: None,
                current_video: None,
                stats: WgpuRendererStats {
                    surface_width: 0,
                    surface_height: 0,
                    rendered_frames: 0,
                    offscreen_frames: 0,
                    danmaku_passes: 0,
                    danmaku_items: 0,
                    attached: false,
                },
            }),
    {
        Self {
            supports_16bit_norm,
            surface: None,
            current_video: None,
            stats: WgpuRendererStats::default(),
        }
    }

    /// The surface, if there is one.
    pub fn surface(&self) -> (result: Option<AttachedSurface>)
        ensures
            result == self.surface,
    {
        self.surface
    }

    /// Whether the device reads samples of sixteen bits.
    pub fn supports_16bit_norm(&self) -> (result: bool)
        ensures
            result == self.supports_16bit_norm,
    {
        self.supports_16bit_norm
    }

    /// The counters.
    pub fn stats(&self) -> (result: WgpuRendererStats)
        ensures
            result == self.stats,
    {
        self.stats
    }

    /// Draws on a surface from now on, in the best of the formats that it offers;
    /// each tells whether it has a curve of its own.
    pub fn attach_surface(&mut self, width: u32, height: u32, scale: Double, is_srgb: &[bool]) -> (
    result: Result<()>)
        ensures
            match preferred_format(is_srgb@, 0) {
                None => result == Err::<(), RendererError>(RendererError::NoFormats)
                    && *final(self) == *old(self),
                Some(at) => {
                    let surface = AttachedSurface {
                        width,
                        height,
                        scale,
                        pixel_width: pixels_of(width, scale) as u32,
                        pixel_height: pixels_of(height, scale) as u32,
                        format_index: at as usize,
                    };
                    &&& result is Ok
                    &&& *final(self) == (WgpuRenderer {
                        surface: Some(surface),
                        stats: WgpuRendererStats {
                            surface_width: surface.pixel_width,
                            surface_height: surface.pixel_height,
                            attached: true,
                            ..old(self).stats
                        },
                        ..*old(self)
                    })
                },
            },
    {
        match choose_surface_format(is_srgb) {
            Err(error) => Err(error),
            Ok(format_index) => {
                let (pixel_width, pixel_height) = scaled_surface_size(width, height, scale);
                self.stats.surface_width = pixel_width;
                self.stats.surface_height = pixel_height;
                self.stats.attached = true;
                self.surface = Some(
                    AttachedSurface {
                        width,
                        height,
                        scale,
                        pixel_width,
                        pixel_height,
                        format_index,
                    },
                );
                Ok(())
            },
        }
    }

    /// Draws on no surface from now on. Its size is still told.
    pub fn detach_surface(&mut self)
        ensures
            *final(self) == (WgpuRenderer {
                surface: None,
                stats: WgpuRendererStats { attached: false, ..old(self).stats },
                ..*old(self)
            }),
    {
        self.surface = None;
        self.stats.attached = false;
    }

    /// Gives the surface another size, if there is one.
    pub fn resize_surface(&mut self, width: u32, height: u32, scale: Double) -> (result: Result<()>)
        ensures
            match old(self).surface {
                None => result == Err::<(), RendererError>(RendererError::NoSurface)
                    && *final(self) == *old(self),
                Some(before) => {
                    let pixel_width = not_empty(pixels_of(width, scale) as u32);
                    let pixel_height = not_empty(pixels_of(height, scale) as u32);
                    &&& result is Ok
                    &&& *final(self) == (WgpuRenderer {
                        surface: Some(
                            AttachedSurface {
                                width,
                                height,
                                scale,
                                pixel_width,
                                pixel_height,
                                ..before
                            },
                        ),
                        stats: WgpuRendererStats {
                            surface_width: pixel_width,
                            surface_height: pixel_height,
                            ..old(self).stats
                        },
                        ..*old(self)
                    })
                },
            },
    {
        match self.surface {
            None => Err(RendererError::NoSurface),
            Some(before) => {
                let (scaled_width, scaled_height) = scaled_surface_size(width, height, scale);
                let (pixel_width, pixel_height) = surface_extent(scaled_width, scaled_height);
                self.stats.surface_width = pixel_width;
                self.stats.surface_height = pixel_height;
                self.surface = Some(
                    AttachedSurface {
                        width,
                        height,
                        scale,
                        pixel_width,
                        pixel_height,
                        format_index: before.format_index,
                    },
                );
                Ok(())
            },
        }
    }

    /// Gives the surface its own size anew, at least one pixel each way, as it
    /// must be after it was lost.
    pub fn restore_surface(&mut self)
        ensures
            *final(self) == (match old(self).surface {
                None => *old(self),
                Some(before) => WgpuRenderer {
                    surface: Some(
                        AttachedSurface {
                            pixel_width: not_empty(before.pixel_width),
                            pixel_height: not_empty(before.pixel_height),
                            ..before
                        },
                    ),
                    stats: WgpuRendererStats {
                        surface_width: not_empty(before.pixel_width),
                        surface_height: not_empty(before.pixel_height),
                        ..old(self).stats
                    },
                    ..*old(self)
                },
            }),
    {
        if let Some(before) = self.surface {
            let (pixel_width, pixel_height) = surface_extent(
                before.pixel_width,
                before.pixel_height,
            );
            self.stats.surface_width = pixel_width;
            self.stats.surface_height = pixel_height;
            self.surface = Some(
                AttachedSurface {
                    width: before.width,
                    height: before.height,
                    scale: before.scale,
                    pixel_width,
                    pixel_height,
                    format_index: before.format_index,
                },
            );
        }
    }

    /// Draws with another device from now on, as it must where the surface offers
    /// the first one no format.
    pub fn replace_device(&mut self, supports_16bit_norm: bool)
        ensures
            *final(self) == (WgpuRenderer { supports_16bit_norm, ..*old(self) }),
    {
        self.supports_16bit_norm = supports_16bit_norm;
    }

    /// Takes a frame to show from now on, and tells how its planes are handed
    /// over. A frame that is refused leaves the one before.
    pub fn upload_planar(&mut self, frame: &PlanarFrame, uniforms: VideoUniforms) -> (result: Result<
        PlanarUpload,
    >)
        requires
            frame.width > 0 && frame.height > 0 && frame.width % 2 == 0 && frame.height % 2 == 0 && (
            frame.format == PlanarPixelFormat::Nv12 || old(self).supports_16bit_norm)
                ==> frame.width * frame.height * sample_bytes(frame.format) <= u32::MAX,
        ensures
            match upload_refusal(*frame, old(self).supports_16bit_norm) {
                Some(error) => result == Err::<PlanarUpload, RendererError>(error) && *final(self)
                    == *old(self),
                None => {
                    &&& result matches Ok(upload) && upload.chroma_width == frame.width / 2
                        && upload.chroma_height == frame.height / 2 && upload.bytes_per_sample
                        == sample_bytes(frame.format) && upload.luma_bytes_per_row == frame.width
                        * sample_bytes(frame.format) && upload.chroma_bytes_per_row == frame.width
                        * sample_bytes(frame.format)
                    &&& *final(self) == (WgpuRenderer {
                        current_video: Some(
                            UploadedVideo { width: frame.width, height: frame.height, uniforms },
                        ),
                        ..*old(self)
                    })
                },
            },
    {
        match check_planar_frame(frame, self.supports_16bit_norm) {
            Err(error) => Err(error),
            Ok(upload) => {
                self.current_video = Some(
                    UploadedVideo { width: frame.width, height: frame.height, uniforms },
                );
                Ok(upload)
            },
        }
    }

    /// Takes a frame of eight bits to show from now on, by its tightly packed
    /// planes: the luma, and the interleaved chroma at half resolution.
    pub fn upload_nv12(
        &mut self,
        width: u32,
        height: u32,
        luma: Vec<u8>,
        chroma: Vec<u8>,
        uniforms: VideoUniforms,
    ) -> (result: Result<PlanarUpload>)
        requires
            width > 0 && height > 0 && width % 2 == 0 && height % 2 == 0 ==> width * height
                <= u32::MAX,
        ensures
            match upload_refusal(
                (PlanarFrame { format: PlanarPixelFormat::Nv12, width, height, luma, chroma }),
                old(self).supports_16bit_norm,
            ) {
                Some(error) => result == Err::<PlanarUpload, RendererError>(error) && *final(self)
                    == *old(self),
                None => {
                    &&& result matches Ok(upload) && upload.chroma_width == width / 2
                        && upload.chroma_height == height / 2 && upload.bytes_per_sample == 1
                        && upload.luma_bytes_per_row == width && upload.chroma_bytes_per_row
                        == width
                    &&& *final(self) == (WgpuRenderer {
                        current_video: Some(UploadedVideo { width, height, uniforms }),
                        ..*old(self)
                    })
                },
            },
    {
        let frame = PlanarFrame {
            format: PlanarPixelFormat::Nv12,
            width,
            height,
            luma,
            chroma,
        };
        self.upload_planar(&frame, uniforms)
    }

    /// Takes a decoded frame to show from now on. One that the device reads where it
    /// is needs no planes; any other has to lie in memory, in a format that can be
    /// read, and its planes are handed over.
    pub fn upload_player_frame(&mut self, frame: &Frame, is_shared: bool, numbers: &ColorNumbers) -> (
    result: Result<Option<PlanarUpload>>)
        requires
            !is_shared ==> frame.planes.is_backed(),
            !is_shared ==> (packed_format(*frame) matches Some(format) ==> (format
                == PlanarPixelFormat::Nv12 || old(self).supports_16bit_norm) ==> frame.planes.width
                * frame.planes.height * sample_bytes(format) <= u32::MAX),
        ensures
            final(self).supports_16bit_norm == old(self).supports_16bit_norm,
            final(self).surface == old(self).surface,
            final(self).stats == old(self).stats,
            if is_shared {
                &&& result matches Ok(None)
                &&& final(self).shows(
                    non_negative(frame.width),
                    non_negative(frame.height),
                    *frame,
                    *numbers,
                    false,
                )
            } else {
                match packed_format(*frame) {
                    None => {
                        &&& result == Err::<Option<PlanarUpload>, RendererError>(
                            RendererError::UnsupportedFrame,
                        )
                        &&& *final(self) == *old(self)
                    },
                    Some(format) => if format == PlanarPixelFormat::P010
                        && !old(self).supports_16bit_norm {
                        &&& result == Err::<Option<PlanarUpload>, RendererError>(
                            RendererError::NoSixteenBits,
                        )
                        &&& *final(self) == *old(self)
                    } else {
                        &&& result matches Ok(Some(upload)) && upload.chroma_width
                            == frame.planes.width / 2 && upload.chroma_height == frame.planes.height
                            / 2 && upload.bytes_per_sample == sample_bytes(format)
                            && upload.luma_bytes_per_row == frame.planes.width * sample_bytes(
                            format,
                        ) && upload.chroma_bytes_per_row == frame.planes.width * sample_bytes(
                            format,
                        )
                        &&& final(self).shows(
                            frame.planes.width as nat,
                            frame.planes.height as nat,
                            *frame,
                            *numbers,
                            format == PlanarPixelFormat::P010,
                        )
                    },
                }
            },
    {
        let pipeline = frame_pipeline(frame);
        if is_shared {
            self.current_video = Some(
                UploadedVideo {
                    width: frame.width(),
                    height: frame.height(),
                    uniforms: VideoUniforms::from_pipeline(&pipeline, numbers, false, false),
                },
            );
            return Ok(None);
        }
        let planar = match frame_planes(frame) {
            Ok(planar) => planar,
            Err(error) => {
                return Err(error);
            },
        };
        proof {
            law_packed_planes_have_their_sizes(frame.planes);
            let width = planar.width as int;
            let height = planar.height as int;
            assert((width / 2) * (height / 2) * 4 == width * height) by (nonlinear_arith)
                requires
                    width % 2 == 0,
                    height % 2 == 0,
                    width >= 0,
                    height >= 0,
            ;
        }
        let is_p010 = planar.format == PlanarPixelFormat::P010;
        let uniforms = VideoUniforms::from_pipeline(&pipeline, numbers, is_p010, false);
        match self.upload_planar(&planar, uniforms) {
            Ok(upload) => Ok(Some(upload)),
            Err(error) => Err(error),
        }
    }

    /// Whether a frame of a size is shown, with the colours that it was decoded with.
    pub open spec fn shows(
        self,
        width: nat,
        height: nat,
        frame: Frame,
        numbers: ColorNumbers,
        is_p010: bool,
    ) -> bool {
        self.current_video matches Some(video) && {
            &&& video.width == width
            &&& video.height == height
            &&& video.uniforms.tells(
                VideoRenderPipeline {
                    source: frame_colors(frame),
                    target: sdr_target(ColorPrimaries::Bt709),
                },
                numbers,
                is_p010,
                false,
            )
        }
    }

    /// What the renderer does to show its frame. Comments are drawn only if they
    /// were planned for what is shown.
    pub fn plan_frame(
        &self,
        overlay: Option<&OverlayFrame>,
        danmaku: Option<&DanmakuRenderPlan>,
        generation: u64,
        media_time: Duration,
        output: (u32, u32),
    ) -> (result: DrawStep)
        ensures
            if self.current_video is None || self.surface is None {
                result == DrawStep::Nothing
            } else {
                let with_danmaku = danmaku matches Some(plan) && is_for(
                    *plan,
                    generation,
                    media_time@,
                    output,
                ) && plan.items@.len() > 0;
                let has_planes = overlay matches Some(frame) && (frame.subtitle_planes@.len() > 0
                    || frame.subtitle_alpha_planes@.len() > 0);
                result == (DrawStep::Draw {
                    with_danmaku,
                    needs_overlay: with_danmaku || has_planes,
                })
            },
    {
        if self.current_video.is_none() || self.surface.is_none() {
            return DrawStep::Nothing;
        }
        let with_danmaku = match danmaku {
            Some(plan) => plan_matches(plan, generation, media_time, output) && !plan.is_empty(),
            None => false,
        };
        let has_planes = match overlay {
            Some(frame) => frame.subtitle_planes.len() > 0 || frame.subtitle_alpha_planes.len() > 0,
            None => false,
        };
        DrawStep::Draw { with_danmaku, needs_overlay: with_danmaku || has_planes }
    }

    /// The layout that the frame is drawn in, on a surface of the size that was
    /// told last, and what its shader is told.
    pub fn video_layout(&self) -> (result: Result<(VideoPresentationLayout, VideoUniforms)>)
        ensures
            result is Ok <==> self.current_video is Some,
            result matches Err(error) ==> error == RendererError::NoVideo,
            result matches Ok((layout, uniforms)) ==> {
                let video = self.current_video->0;
                &&& layout.is_fit(
                    video.width,
                    video.height,
                    self.stats.surface_width,
                    self.stats.surface_height,
                )
                &&& uniforms.rect == layout.target_rect
                &&& uniforms.viewport@ == seq![
                    layout.drawable_width,
                    layout.drawable_height,
                    Single { bits: 0 },
                    Single { bits: 0 },
                ]
                &&& uniforms == (VideoUniforms {
                    rect: uniforms.rect,
                    viewport: uniforms.viewport,
                    ..video.uniforms
                })
            },
    {
        match self.current_video {
            None => Err(RendererError::NoVideo),
            Some(video) => {
                let layout = VideoPresentationLayout::aspect_fit(
                    video.width,
                    video.height,
                    self.stats.surface_width,
                    self.stats.surface_height,
                );
                Ok((layout, video.uniforms.placed(layout)))
            },
        }
    }

    /// Takes note of a frame that was shown, with so many comments.
    pub fn frame_shown(&mut self, danmaku_draws: usize)
        requires
            old(self).stats.rendered_frames < u64::MAX,
            danmaku_draws > 0 ==> old(self).stats.danmaku_passes < u64::MAX,
            old(self).stats.danmaku_items + danmaku_draws <= u64::MAX,
        ensures
            *final(self) == (WgpuRenderer {
                stats: WgpuRendererStats {
                    rendered_frames: (old(self).stats.rendered_frames + 1) as u64,
                    danmaku_passes: if danmaku_draws > 0 {
                        (old(self).stats.danmaku_passes + 1) as u64
                    } else {
                        old(self).stats.danmaku_passes
                    },
                    danmaku_items: (old(self).stats.danmaku_items + danmaku_draws) as u64,
                    ..old(self).stats
                },
                ..*old(self)
            }),
    {
        self.stats.rendered_frames = self.stats.rendered_frames + 1;
        if danmaku_draws > 0 {
            self.stats.danmaku_passes = self.stats.danmaku_passes + 1;
            self.stats.danmaku_items = self.stats.danmaku_items + danmaku_draws as u64;
        }
    }

    /// Takes note of a frame without video: the surface was cleared or, where
    /// there is none, a small target that was read back.
    pub fn test_frame_shown(&mut self)
        requires
            old(self).stats.rendered_frames < u64::MAX,
            old(self).surface is None ==> old(self).stats.offscreen_frames < u64::MAX,
        ensures
            *final(self) == (WgpuRenderer {
                stats: WgpuRendererStats {
                    rendered_frames: (old(self).stats.rendered_frames + 1) as u64,
                    offscreen_frames: if old(self).surface is None {
                        (old(self).stats.offscreen_frames + 1) as u64
                    } else {
                        old(self).stats.offscreen_frames
                    },
                    ..old(self).stats
                },
                ..*old(self)
            }),
    {
        if self.surface.is_none() {
            self.target_cleared();
        }
        self.stats.rendered_frames = self.stats.rendered_frames + 1;
    }

    /// The frame as it was drawn on a target of its own size, given the bytes that
    /// were read back, in rows that begin at aligned places. Without a frame there
    /// is nothing to read.
    pub fn render_current_offscreen(&mut self, bytes: &[u8]) -> (result: Option<
        WgpuOffscreenReadback,
    >)
        requires
            old(self).current_video matches Some(video) ==> {
                &&& old(self).stats.rendered_frames < u64::MAX
                &&& padded_row(video.width as nat) * video.height <= u32::MAX
                &&& padded_row(video.width as nat) * video.height <= bytes@.len()
                &&& padded_row(video.width as nat) <= u32::MAX
            },
        ensures
            match old(self).current_video {
                None => result is None && *final(self) == *old(self),
                Some(video) => {
                    &&& result matches Some(read) && read.width == video.width && read.height
                        == video.height && read.rgba@ == unpadded(
                        bytes@,
                        video.width as nat,
                        video.height as nat,
                    )
                    &&& *final(self) == (WgpuRenderer {
                        stats: WgpuRendererStats {
                            rendered_frames: (old(self).stats.rendered_frames + 1) as u64,
                            ..old(self).stats
                        },
                        ..*old(self)
                    })
                },
            },
    {
        match self.current_video {
            None => None,
            Some(video) => {
                let rgba = strip_row_padding(bytes, video.width, video.height);
                self.stats.rendered_frames = self.stats.rendered_frames + 1;
                Some(WgpuOffscreenReadback { width: video.width, height: video.height, rgba })
            },
        }
    }

    /// A target as it was cleared, given the bytes that were read back. A target
    /// without pixels is refused.
    pub fn clear_offscreen(&mut self, width: u32, height: u32, bytes: &[u8]) -> (result: Result<
        WgpuOffscreenReadback,
    >)
        requires
            width > 0 && height > 0 ==> {
                &&& old(self).stats.offscreen_frames < u64::MAX
                &&& padded_row(width as nat) * height <= u32::MAX
                &&& padded_row(width as nat) * height <= bytes@.len()
                &&& padded_row(width as nat) <= u32::MAX
            },
        ensures
            if width == 0 || height == 0 {
                &&& result matches Err(error) && error == RendererError::EmptyTarget
                &&& *final(self) == *old(self)
            } else {
                &&& result matches Ok(read) && read.width == width && read.height == height
                    && read.rgba@ == unpadded(bytes@, width as nat, height as nat)
                &&& *final(self) == (WgpuRenderer {
                    stats: WgpuRendererStats {
                        offscreen_frames: (old(self).stats.offscreen_frames + 1) as u64,
                        ..old(self).stats
                    },
                    ..*old(self)
                })
            },
    {
        if let Err(error) = check_offscreen_size(width, height) {
            return Err(error);
        }
        let rgba = strip_row_padding(bytes, width, height);
        self.target_cleared();
        Ok(WgpuOffscreenReadback { width, height, rgba })
    }

    /// Takes note of a target that was cleared and read back.
    pub fn target_cleared(&mut self)
        requires
            old(self).stats.offscreen_frames < u64::MAX,
        ensures
            *final(self) == (WgpuRenderer {
                stats: WgpuRendererStats {
                    offscreen_frames: (old(self).stats.offscreen_frames + 1) as u64,
                    ..old(self).stats
                },
                ..*old(self)
            }),
    {
        self.stats.offscreen_frames = self.stats.offscreen_frames + 1;
    }
}

/// A frame is packed with eight bits for a sample or with sixteen, as it has them, and
/// not at all where its planes do not reach.
pub proof fn law_frames_are_packed_as_they_are(frame: Frame)
    ensures
        frame.planes.format == SourcePixelFormat::Nv12 || frame.planes.format
            == SourcePixelFormat::Yuv420p ==> packed_format(frame) != Some(PlanarPixelFormat::P010)
            && (packed_format(frame) is Some <==> frame.planes.nv12_planes() is Some),
        frame.planes.format != SourcePixelFormat::Nv12 && frame.planes.format
            != SourcePixelFormat::Yuv420p ==> packed_format(frame) != Some(PlanarPixelFormat::Nv12)
            && (packed_format(frame) is Some <==> frame.planes.p010_planes() is Some),
        not_empty(0) == 1,
        frame.planes.width > 0 ==> not_empty(frame.planes.width) == frame.planes.width,
{
}

/// A frame is read with the colours that it tells, each by its own code.
pub proof fn law_frames_are_read_in_their_colours(frame: Frame)
    ensures
        frame_colors(frame).primaries == primaries_of(frame.primaries),
        frame_colors(frame).transfer == transfer_of(frame.transfer),
        frame_colors(frame).range == range_of(frame.range),
        frame_colors(frame).matrix == matrix_of(frame.matrix),
        frame_colors(frame).hdr_metadata == hdr_of(frame.mastering, frame.light),
{
}

/// What the shader is told is of the frame where it is about the source, and of the
/// surface where it is about the target.
pub proof fn law_shaders_are_told_of_source_and_target(
    uniforms: VideoUniforms,
    pipeline: VideoRenderPipeline,
    numbers: ColorNumbers,
    is_p010: bool,
    edr_output: bool,
)
    requires
        uniforms.tells(pipeline, numbers, is_p010, edr_output),
    ensures
        uniforms.is_p010 == 1 <==> is_p010,
        uniforms.edr_output == 1 <==> edr_output,
        uniforms.full_range == 1 <==> pipeline.source.range == ColorRange::Full,
        uniforms.source_transfer == code_of_transfer(pipeline.source.transfer),
        uniforms.target_transfer == code_of_transfer(pipeline.target.transfer),
        uniforms.tone_map == code_of_operator(numbers.tone_map),
        uniforms.nits@[0] == numbers.source_peak_nits,
        uniforms.nits@[1] == pipeline.target.peak_nits,
        uniforms.nits@[2] == numbers.source_white_nits,
        uniforms.nits@[3] == pipeline.target.reference_white_nits,
        forall|i: int| 0 <= i < 3 ==> #[trigger] uniforms.luma_coefficients@[i] == numbers.luma@[i],
        uniforms.gamut_matrix_rows == numbers.gamut_matrix_rows,
{
}

} // verus!
