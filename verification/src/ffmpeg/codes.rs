//! What the codes of a decoder stand for.
use crate::ffmpeg::stamp::{check, FfmpegError};
use crate::float_bits::{nearest_single, Single};
use crate::media::{ColorPrimaries, TrackKind, TransferFunction};
use crate::renderer::color::{
    Chromaticity, ColorRange, ContentLightMetadata, DisplayPrimaries, HdrMetadata,
    MasteringDisplayMetadata, MatrixCoefficients,
};
use vstd::prelude::*;

verus! {

// The codes of colours are those of ITU-T H.273.

/// The track kind with a media type: video is 0, audio 1, subtitles 3.
pub open spec fn kind_of_type(kind: i32) -> Option<TrackKind> {
    match kind {
        0 => Some(TrackKind::Video),
        1 => Some(TrackKind::Audio),
        3 => Some(TrackKind::Subtitle),
        _ => None,
    }
}

/// The track kind with a media type.
pub fn track_kind(kind: i32) -> (result: Option<TrackKind>)
    ensures
        result == kind_of_type(kind),
{
    match kind {
        0 => Some(TrackKind::Video),
        1 => Some(TrackKind::Audio),
        3 => Some(TrackKind::Subtitle),
        _ => None,
    }
}

/// The primaries with a code.
pub open spec fn primaries_of(value: i32) -> ColorPrimaries {
    match value {
        1 => ColorPrimaries::Bt709,
        12 => ColorPrimaries::DisplayP3,
        9 => ColorPrimaries::Bt2020,
        _ => ColorPrimaries::Unknown,
    }
}

/// Reads the code of primaries.
pub fn color_primaries(value: i32) -> (result: ColorPrimaries)
    ensures
        result == primaries_of(value),
{
    match value {
        1 => ColorPrimaries::Bt709,
        12 => ColorPrimaries::DisplayP3,
        9 => ColorPrimaries::Bt2020,
        _ => ColorPrimaries::Unknown,
    }
}

/// The transfer function with a code.
pub open spec fn transfer_of(value: i32) -> TransferFunction {
    match value {
        13 => TransferFunction::Srgb,
        1 => TransferFunction::Bt1886,
        16 => TransferFunction::Pq,
        18 => TransferFunction::Hlg,
        _ => TransferFunction::Unknown,
    }
}

/// Reads the code of a transfer function.
pub fn transfer_function(value: i32) -> (result: TransferFunction)
    ensures
        result == transfer_of(value),
{
    match value {
        13 => TransferFunction::Srgb,
        1 => TransferFunction::Bt1886,
        16 => TransferFunction::Pq,
        18 => TransferFunction::Hlg,
        _ => TransferFunction::Unknown,
    }
}

/// The range with a code.
pub open spec fn range_of(value: i32) -> ColorRange {
    match value {
        1 => ColorRange::Limited,
        2 => ColorRange::Full,
        _ => ColorRange::Unspecified,
    }
}

/// Reads the code of a range.
pub fn color_range(value: i32) -> (result: ColorRange)
    ensures
        result == range_of(value),
{
    match value {
        1 => ColorRange::Limited,
        2 => ColorRange::Full,
        _ => ColorRange::Unspecified,
    }
}

/// The matrix coefficients with a code.
pub open spec fn matrix_of(value: i32) -> MatrixCoefficients {
    match value {
        0 => MatrixCoefficients::Identity,
        1 => MatrixCoefficients::Bt709,
        5 => MatrixCoefficients::Bt601,
        6 => MatrixCoefficients::Bt601,
        9 => MatrixCoefficients::Bt2020NonConstantLuminance,
        _ => MatrixCoefficients::Unspecified,
    }
}

/// Reads the code of matrix coefficients.
pub fn matrix_coefficients(value: i32) -> (result: MatrixCoefficients)
    ensures
        result == matrix_of(value),
{
    match value {
        0 => MatrixCoefficients::Identity,
        1 => MatrixCoefficients::Bt709,
        5 | 6 => MatrixCoefficients::Bt601,
        9 => MatrixCoefficients::Bt2020NonConstantLuminance,
        _ => MatrixCoefficients::Unspecified,
    }
}

// ---------------------------------------------------------------------------
// Dynamic range
// ---------------------------------------------------------------------------

/// A fraction.
#[derive(Debug, Clone, Copy, PartialEq, Eq, Structural)]
pub struct Rational {
    pub num: i32,
    pub den: i32,
}

/// The magnitude of a number as the nearest single-precision number.
pub open spec fn single_magnitude(value: i32) -> Single {
    Single {
        bits: nearest_single(
            if value < 0 {
                (-value) as nat
            } else {
                value as nat
            },
            0,
        ) as u32,
    }
}

/// The fraction as a number, if it is above zero.
pub open spec fn positive_fraction(value: Rational) -> Option<Single> {
    let quotient = single_magnitude(value.num).quotient(single_magnitude(value.den));
    if value.num == 0 || value.den == 0 || (value.num < 0) != (value.den < 0)
        || !quotient.is_finite() || quotient.rank() <= 0 {
        None
    } else {
        Some(quotient)
    }
}

fn to_magnitude(value: i32) -> (result: Single)
    ensures
        result == single_magnitude(value),
{
    let magnitude: u32 = if value < 0 {
        (-(value as i64)) as u32
    } else {
        value as u32
    };
    Single::from_whole(magnitude)
}

/// The fraction as a number, if it is above zero.
pub fn rational_to_positive_f32(value: Rational) -> (result: Option<Single>)
    ensures
        result == positive_fraction(value),
{
    if value.num == 0 || value.den == 0 || (value.num < 0) != (value.den < 0) {
        return None;
    }
    let quotient = to_magnitude(value.num).over(to_magnitude(value.den));
    if quotient.check_finite() && quotient.place() > 0 {
        Some(quotient)
    } else {
        None
    }
}

/// The point of two fractions, if both are above zero.
pub open spec fn point_of(x: Rational, y: Rational) -> Option<Chromaticity> {
    match positive_fraction(x) {
        Some(x) => match positive_fraction(y) {
            Some(y) => Some(Chromaticity { x, y }),
            None => None,
        },
        None => None,
    }
}

/// The point of two fractions, if both are above zero.
pub fn rational_chromaticity(x: Rational, y: Rational) -> (result: Option<Chromaticity>)
    ensures
        result == point_of(x, y),
{
    match rational_to_positive_f32(x) {
        Some(x) => match rational_to_positive_f32(y) {
            Some(y) => Some(Chromaticity { x, y }),
            None => None,
        },
        None => None,
    }
}

/// What a decoder tells of the display that a video was made on.
#[derive(Debug, Clone, Copy, PartialEq, Eq)]
pub struct RawMasteringDisplay {
    pub has_primaries: bool,
    pub red: (Rational, Rational),
    pub green: (Rational, Rational),
    pub blue: (Rational, Rational),
    pub white_point: (Rational, Rational),
    pub has_luminance: bool,
    pub min_luminance: Rational,
    pub max_luminance: Rational,
}

impl RawMasteringDisplay {
    /// The points of the primaries: all three or none.
    pub open spec fn primaries(self) -> Option<DisplayPrimaries> {
        if !self.has_primaries {
            None
        } else {
            match (
                point_of(self.red.0, self.red.1),
                point_of(self.green.0, self.green.1),
                point_of(self.blue.0, self.blue.1),
            ) {
                (Some(red), Some(green), Some(blue)) => Some(DisplayPrimaries { red, green, blue }),
                _ => None,
            }
        }
    }

    /// What is known of the display, if anything is.
    pub open spec fn metadata(self) -> Option<MasteringDisplayMetadata> {
        let white_point = if self.has_primaries {
            point_of(self.white_point.0, self.white_point.1)
        } else {
            None
        };
        let min = if self.has_luminance {
            positive_fraction(self.min_luminance)
        } else {
            None
        };
        let max = if self.has_luminance {
            positive_fraction(self.max_luminance)
        } else {
            None
        };
        if self.primaries() is None && white_point is None && min is None && max is None {
            None
        } else {
            Some(
                MasteringDisplayMetadata {
                    display_primaries: self.primaries(),
                    white_point,
                    min_luminance_nits: min,
                    max_luminance_nits: max,
                },
            )
        }
    }
}

/// Reads what a decoder tells of the display that a video was made on.
pub fn mastering_display_metadata(raw: RawMasteringDisplay) -> (result: Option<
    MasteringDisplayMetadata,
>)
    ensures
        result == raw.metadata(),
{
    let mut display_primaries: Option<DisplayPrimaries> = None;
    let mut white_point: Option<Chromaticity> = None;
    let mut min: Option<Single> = None;
    let mut max: Option<Single> = None;
    if raw.has_primaries {
        let red = rational_chromaticity(raw.red.0, raw.red.1);
        let green = rational_chromaticity(raw.green.0, raw.green.1);
        let blue = rational_chromaticity(raw.blue.0, raw.blue.1);
        if let (Some(red), Some(green), Some(blue)) = (red, green, blue) {
            display_primaries = Some(DisplayPrimaries { red, green, blue });
        }
        white_point = rational_chromaticity(raw.white_point.0, raw.white_point.1);
    }
    if raw.has_luminance {
        min = rational_to_positive_f32(raw.min_luminance);
        max = rational_to_positive_f32(raw.max_luminance);
    }
    if display_primaries.is_none() && white_point.is_none() && min.is_none() && max.is_none() {
        return None;
    }
    Some(
        MasteringDisplayMetadata {
            display_primaries,
            white_point,
            min_luminance_nits: min,
            max_luminance_nits: max,
        },
    )
}

/// What is known of the brightness of a video, if anything is.
pub open spec fn light_of(max_cll: u32, max_fall: u32) -> Option<ContentLightMetadata> {
    if max_cll == 0 && max_fall == 0 {
        None
    } else {
        Some(
            ContentLightMetadata {
                max_content_light_level_nits: max_cll,
                max_frame_average_light_level_nits: max_fall,
            },
        )
    }
}

/// Reads what a decoder tells of the brightness of a video.
pub fn content_light_metadata(max_cll: u32, max_fall: u32) -> (result: Option<
    ContentLightMetadata,
>)
    ensures
        result == light_of(max_cll, max_fall),
{
    if max_cll == 0 && max_fall == 0 {
        return None;
    }
    Some(
        ContentLightMetadata {
            max_content_light_level_nits: max_cll,
            max_frame_average_light_level_nits: max_fall,
        },
    )
}

/// What is known of the dynamic range of a frame, if anything is.
pub open spec fn hdr_of(
    mastering: Option<RawMasteringDisplay>,
    light: Option<(u32, u32)>,
) -> Option<HdrMetadata> {
    let mastering_display = match mastering {
        Some(raw) => raw.metadata(),
        None => None,
    };
    let content_light = match light {
        Some((max_cll, max_fall)) => light_of(max_cll, max_fall),
        None => None,
    };
    if mastering_display is None && content_light is None {
        None
    } else {
        Some(HdrMetadata { mastering_display, content_light })
    }
}

/// What is known of the dynamic range of a frame, if anything is.
pub fn frame_hdr_metadata(
    mastering: Option<RawMasteringDisplay>,
    light: Option<(u32, u32)>,
) -> (result: Option<HdrMetadata>)
    ensures
        result == hdr_of(mastering, light),
{
    let mastering_display = match mastering {
        Some(raw) => mastering_display_metadata(raw),
        None => None,
    };
    let content_light = match light {
        Some((max_cll, max_fall)) => content_light_metadata(max_cll, max_fall),
        None => None,
    };
    if mastering_display.is_none() && content_light.is_none() {
        return None;
    }
    Some(HdrMetadata { mastering_display, content_light })
}

// ---------------------------------------------------------------------------
// Hardware decoding
// ---------------------------------------------------------------------------

/// Who decodes.
#[derive(Debug, Clone, Copy, PartialEq, Eq, Structural)]
pub enum DecoderBackend {
    Software,
    VideoToolbox,
    D3d11va,
    Dxva2,
}

/// How a decoder is to be opened.
#[derive(Debug, Clone, Copy, PartialEq, Eq, Structural)]
pub struct DecoderConfig {
    pub backend: DecoderBackend,
}

impl DecoderConfig {
    /// In software.
    pub fn software() -> (result: Self)
        ensures
            result.backend == DecoderBackend::Software,
    {
        Self { backend: DecoderBackend::Software }
    }

    /// With VideoToolbox.
    pub fn videotoolbox() -> (result: Self)
        ensures
            result.backend == DecoderBackend::VideoToolbox,
    {
        Self { backend: DecoderBackend::VideoToolbox }
    }

    /// With Direct3D 11.
    pub fn d3d11va() -> (result: Self)
        ensures
            result.backend == DecoderBackend::D3d11va,
    {
        Self { backend: DecoderBackend::D3d11va }
    }

    /// With DXVA2.
    pub fn dxva2() -> (result: Self)
        ensures
            result.backend == DecoderBackend::Dxva2,
    {
        Self { backend: DecoderBackend::Dxva2 }
    }
}

impl Default for DecoderConfig {
    fn default() -> (result: Self)
        ensures
            result.backend == DecoderBackend::Software,
    {
        Self::software()
    }
}

/// The pixel format of a frame, as far as it tells who decoded it.
#[derive(Debug, Clone, Copy, PartialEq, Eq, Structural)]
pub enum HardwareFormat {
    VideoToolbox,
    D3d11,
    D3d11vaVld,
    Dxva2Vld,
    Other,
}

/// Who decoded a frame. A frame without hardware context was decoded in
/// software.
pub open spec fn backend_of(has_hw_frames_context: bool, format: HardwareFormat) -> DecoderBackend {
    if !has_hw_frames_context {
        DecoderBackend::Software
    } else {
        match format {
            HardwareFormat::VideoToolbox => DecoderBackend::VideoToolbox,
            HardwareFormat::D3d11 => DecoderBackend::D3d11va,
            HardwareFormat::D3d11vaVld => DecoderBackend::D3d11va,
            HardwareFormat::Dxva2Vld => DecoderBackend::Dxva2,
            HardwareFormat::Other => DecoderBackend::Software,
        }
    }
}

/// Tells who decoded a frame.
pub fn decode_backend(has_hw_frames_context: bool, format: HardwareFormat) -> (result: DecoderBackend)
    ensures
        result == backend_of(has_hw_frames_context, format),
{
    if !has_hw_frames_context {
        return DecoderBackend::Software;
    }
    match format {
        HardwareFormat::VideoToolbox => DecoderBackend::VideoToolbox,
        HardwareFormat::D3d11 | HardwareFormat::D3d11vaVld => DecoderBackend::D3d11va,
        HardwareFormat::Dxva2Vld => DecoderBackend::Dxva2,
        HardwareFormat::Other => DecoderBackend::Software,
    }
}

/// A way in which a codec uses a device.
#[derive(Debug, Clone, Copy, PartialEq, Eq, Structural)]
pub struct HardwareConfig {
    pub device_type: i32,
    pub with_device: bool,
    pub with_frames: bool,
    pub pixel_format: i32,
}

/// The pixel format of the first way that uses a device context.
pub open spec fn device_format(configs: Seq<HardwareConfig>, device_type: i32) -> Option<i32>
    decreases configs.len(),
{
    if configs.len() == 0 {
        None
    } else if configs[0].device_type == device_type && configs[0].with_device {
        Some(configs[0].pixel_format)
    } else {
        device_format(configs.skip(1), device_type)
    }
}

/// The pixel format of the first way that uses a frames context.
pub open spec fn frames_format(configs: Seq<HardwareConfig>, device_type: i32) -> Option<i32>
    decreases configs.len(),
{
    if configs.len() == 0 {
        None
    } else if configs[0].device_type == device_type && configs[0].with_frames {
        Some(configs[0].pixel_format)
    } else {
        frames_format(configs.skip(1), device_type)
    }
}

/// The pixel format that a codec decodes to on a device: of the first way that
/// uses a device context, else of the first that uses a frames context.
pub fn hardware_pixel_format(configs: &[HardwareConfig], device_type: i32) -> (result: Option<i32>)
    ensures
        result == (match device_format(configs@, device_type) {
            Some(format) => Some(format),
            None => frames_format(configs@, device_type),
        }),
{
    let mut device: Option<i32> = None;
    let mut frames: Option<i32> = None;
    let mut i: usize = 0;
    assert(configs@.skip(0) =~= configs@);
    while i < configs.len()
        invariant
            i <= configs@.len(),
            device_format(configs@, device_type) == (match device {
                Some(format) => Some(format),
                None => device_format(configs@.skip(i as int), device_type),
            }),
            frames_format(configs@, device_type) == (match frames {
                Some(format) => Some(format),
                None => frames_format(configs@.skip(i as int), device_type),
            }),
        decreases configs@.len() - i,
    {
        let config: HardwareConfig = configs[i];
        assert(configs@.skip(i as int)[0] == config);
        assert(configs@.skip(i as int).skip(1) =~= configs@.skip(i as int + 1));
        if config.device_type == device_type {
            if config.with_device && device.is_none() {
                device = Some(config.pixel_format);
            }
            if config.with_frames && frames.is_none() {
                frames = Some(config.pixel_format);
            }
        }
        i += 1;
    }
    match device {
        Some(format) => Some(format),
        None => frames,
    }
}

/// Whether a decoder that is offered some pixel formats takes the one it was set
/// up for: it does if it is offered.
pub fn offers_format(formats: &[i32], target: i32) -> (result: bool)
    ensures
        result <==> formats@.contains(target),
{
    let mut i: usize = 0;
    while i < formats.len()
        invariant
            i <= formats@.len(),
            forall|k: int| 0 <= k < i ==> formats@[k] != target,
        decreases formats@.len() - i,
    {
        if formats[i] == target {
            assert(formats@[i as int] == target);
            return true;
        }
        i += 1;
    }
    false
}

/// A step of setting up a hardware decoder.
#[derive(Debug, Clone, Copy, PartialEq, Eq, Structural)]
pub enum HardwareStep {
    /// Finds the pixel format of the codec on the device.
    FindFormat,
    /// Creates the device.
    CreateDevice,
    /// Takes another reference to the device, for the decoder.
    ShareDevice,
    /// Creates the frames of the device.
    AllocFrames,
    /// Looks at the frames, and sets their format and size.
    OpenFrames,
    /// Initialises the frames.
    InitFrames,
    /// Takes another reference to the frames, for the decoder.
    ShareFrames,
    /// Tells the decoder which format to take.
    Install,
    /// Nothing is left.
    Done,
}

/// Why a hardware decoder was not set up, and what has to be given back.
#[derive(Debug)]
pub struct HardwareFailure {
    /// What is told of the failure.
    pub error: FfmpegError,
    /// Whether the frames have to be given back.
    pub release_frames: bool,
    /// Whether the device has to be given back.
    pub release_device: bool,
}

/// What a step is told by where it fails: the name of the device, or that of the
/// call.
pub open spec fn step_name(step: HardwareStep, label: &'static str) -> &'static str {
    match step {
        HardwareStep::ShareDevice => "av_buffer_ref(hw_device_ctx)",
        HardwareStep::AllocFrames => "av_hwframe_ctx_alloc",
        HardwareStep::OpenFrames => "hwframes data",
        HardwareStep::InitFrames => "av_hwframe_ctx_init",
        HardwareStep::ShareFrames => "av_buffer_ref(hw_frames_ctx)",
        _ => label,
    }
}

/// Whether the frames of a device have to be created by the caller.
pub open spec fn frames_wanted(format: HardwareFormat) -> bool {
    format != HardwareFormat::D3d11vaVld && format != HardwareFormat::Dxva2Vld && format
        != HardwareFormat::VideoToolbox
}

/// The step after one that went well.
pub open spec fn step_after(step: HardwareStep, format: HardwareFormat) -> HardwareStep {
    match step {
        HardwareStep::FindFormat => HardwareStep::CreateDevice,
        HardwareStep::CreateDevice => HardwareStep::ShareDevice,
        HardwareStep::ShareDevice => if frames_wanted(format) {
            HardwareStep::AllocFrames
        } else {
            HardwareStep::Install
        },
        HardwareStep::AllocFrames => HardwareStep::OpenFrames,
        HardwareStep::OpenFrames => HardwareStep::InitFrames,
        HardwareStep::InitFrames => HardwareStep::ShareFrames,
        HardwareStep::ShareFrames => HardwareStep::Install,
        HardwareStep::Install => HardwareStep::Done,
        HardwareStep::Done => HardwareStep::Done,
    }
}

/// Whether the frames have to be given back when a step fails. What a failed
/// initialisation leaves behind stays with the decoder.
pub open spec fn releases_frames(step: HardwareStep) -> bool {
    step == HardwareStep::OpenFrames || step == HardwareStep::ShareFrames
}

/// Whether the device has to be given back when a step fails.
pub open spec fn releases_device(step: HardwareStep) -> bool {
    step == HardwareStep::ShareDevice || step == HardwareStep::AllocFrames || step
        == HardwareStep::OpenFrames || step == HardwareStep::ShareFrames
}

fn name_of_step(step: HardwareStep, label: &'static str) -> (result: &'static str)
    ensures
        result == step_name(step, label),
{
    match step {
        HardwareStep::ShareDevice => "av_buffer_ref(hw_device_ctx)",
        HardwareStep::AllocFrames => "av_hwframe_ctx_alloc",
        HardwareStep::OpenFrames => "hwframes data",
        HardwareStep::InitFrames => "av_hwframe_ctx_init",
        HardwareStep::ShareFrames => "av_buffer_ref(hw_frames_ctx)",
        _ => label,
    }
}

/// What follows a step of setting up a hardware decoder, given the code that the
/// step returned and whether what it asked for is there. A device is told by its
/// label.
pub fn next_hardware_step(
    step: HardwareStep,
    format: HardwareFormat,
    label: &'static str,
    code: i32,
    message: String,
    is_there: bool,
) -> (result: core::result::Result<HardwareStep, HardwareFailure>)
    ensures
        result is Ok <==> code >= 0 && is_there,
        result matches Ok(next) ==> next == step_after(step, format),
        result matches Err(failure) ==> {
            &&& failure.error == (if code < 0 {
                FfmpegError::Api { operation: step_name(step, label), code, message }
            } else {
                FfmpegError::NullPointer(step_name(step, label))
            })
            &&& failure.release_frames == releases_frames(step)
            &&& failure.release_device == releases_device(step)
        },
{
    let release_frames = step == HardwareStep::OpenFrames || step == HardwareStep::ShareFrames;
    let release_device = release_frames || step == HardwareStep::ShareDevice || step
        == HardwareStep::AllocFrames;
    if let Err(error) = check(code, name_of_step(step, label), message) {
        return Err(HardwareFailure { error, release_frames, release_device });
    }
    if !is_there {
        let error = FfmpegError::NullPointer(name_of_step(step, label));
        return Err(HardwareFailure { error, release_frames, release_device });
    }
    let wanted = format != HardwareFormat::D3d11vaVld && format != HardwareFormat::Dxva2Vld
        && format != HardwareFormat::VideoToolbox;
    Ok(
        match step {
            HardwareStep::FindFormat => HardwareStep::CreateDevice,
            HardwareStep::CreateDevice => HardwareStep::ShareDevice,
            HardwareStep::ShareDevice => if wanted {
                HardwareStep::AllocFrames
            } else {
                HardwareStep::Install
            },
            HardwareStep::AllocFrames => HardwareStep::OpenFrames,
            HardwareStep::OpenFrames => HardwareStep::InitFrames,
            HardwareStep::InitFrames => HardwareStep::ShareFrames,
            HardwareStep::ShareFrames => HardwareStep::Install,
            HardwareStep::Install => HardwareStep::Done,
            HardwareStep::Done => HardwareStep::Done,
        },
    )
}

/// The size of the frames of a device: at least one pixel in each direction.
pub fn hardware_frame_size(width: i32, height: i32) -> (result: (i32, i32))
    ensures
        result.0 == (if width < 1 {
            1
        } else {
            width
        }),
        result.1 == (if height < 1 {
            1
        } else {
            height
        }),
{
    (
        if width < 1 {
            1
        } else {
            width
        },
        if height < 1 {
            1
        } else {
            height
        },
    )
}

/// Setting up a hardware decoder ends after at most eight steps that go well.
pub proof fn law_hardware_setup_ends(format: HardwareFormat)
    ensures
        ({
            let a = step_after(HardwareStep::FindFormat, format);
            let b = step_after(a, format);
            let c = step_after(b, format);
            let d = step_after(c, format);
            let e = step_after(d, format);
            let f = step_after(e, format);
            let g = step_after(f, format);
            let h = step_after(g, format);
            h == HardwareStep::Done
        }),
{
}

/// The codes by which a stream tells its colours are those of the standard.
pub proof fn law_colour_codes()
    ensures
        primaries_of(1) == ColorPrimaries::Bt709,
        primaries_of(9) == ColorPrimaries::Bt2020,
        primaries_of(12) == ColorPrimaries::DisplayP3,
        primaries_of(2) == ColorPrimaries::Unknown,
        transfer_of(1) == TransferFunction::Bt1886,
        transfer_of(13) == TransferFunction::Srgb,
        transfer_of(16) == TransferFunction::Pq,
        transfer_of(18) == TransferFunction::Hlg,
        transfer_of(2) == TransferFunction::Unknown,
        range_of(1) == ColorRange::Limited,
        range_of(2) == ColorRange::Full,
        range_of(0) == ColorRange::Unspecified,
        matrix_of(0) == MatrixCoefficients::Identity,
        matrix_of(1) == MatrixCoefficients::Bt709,
        matrix_of(5) == matrix_of(6),
        matrix_of(6) == MatrixCoefficients::Bt601,
        matrix_of(9) == MatrixCoefficients::Bt2020NonConstantLuminance,
        kind_of_type(0) == Some(TrackKind::Video),
        kind_of_type(1) == Some(TrackKind::Audio),
        kind_of_type(3) == Some(TrackKind::Subtitle),
        kind_of_type(2) is None,
{
}

/// A fraction is positive just if both its parts are on the same side of zero, and does
/// not change when both change sides.
pub proof fn law_fractions_are_positive(num: i32, den: i32)
    requires
        num > i32::MIN,
        den > i32::MIN,
    ensures
        num == 0 || den == 0 ==> positive_fraction((Rational { num, den })) is None,
        (num < 0) != (den < 0) ==> positive_fraction((Rational { num, den })) is None,
        num != 0 && den != 0 ==> positive_fraction((Rational { num, den })) == positive_fraction(
            (Rational { num: (-num) as i32, den: (-den) as i32 }),
        ),
        positive_fraction((Rational { num, den })) matches Some(value) ==> value.is_finite()
            && value.rank() > 0 && value == single_magnitude(num).quotient(single_magnitude(den)),
{
}

/// What a frame tells of its light is kept as it is, and nothing of it where it tells
/// nothing.
pub proof fn law_light_is_told(
    mastering: Option<RawMasteringDisplay>,
    max_cll: u32,
    max_fall: u32,
)
    ensures
        max_cll > 0 || max_fall > 0 ==> {
            &&& light_of(max_cll, max_fall) is Some
            &&& light_of(max_cll, max_fall)->0.max_content_light_level_nits == max_cll
            &&& light_of(max_cll, max_fall)->0.max_frame_average_light_level_nits == max_fall
            &&& hdr_of(mastering, Some((max_cll, max_fall))) is Some
            &&& hdr_of(mastering, Some((max_cll, max_fall)))->0.content_light == light_of(
                max_cll,
                max_fall,
            )
        },
        light_of(0, 0) is None,
        hdr_of(None, None) is None,
        mastering matches Some(raw) ==> raw.metadata() is Some ==> hdr_of(mastering, None) is Some
            && hdr_of(mastering, None)->0.mastering_display == raw.metadata(),
{
}

/// A display is told by its colours and its light, each by its own numbers.
pub proof fn law_displays_are_told_by_their_numbers(raw: RawMasteringDisplay)
    ensures
        raw.metadata() matches Some(told) ==> {
            &&& raw.has_luminance ==> told.min_luminance_nits == positive_fraction(
                raw.min_luminance,
            ) && told.max_luminance_nits == positive_fraction(raw.max_luminance)
            &&& !raw.has_luminance ==> told.min_luminance_nits is None && told.max_luminance_nits
                is None
            &&& raw.has_primaries ==> told.white_point == point_of(
                raw.white_point.0,
                raw.white_point.1,
            )
            &&& told.display_primaries matches Some(primaries) ==> {
                &&& Some(primaries.red) == point_of(raw.red.0, raw.red.1)
                &&& Some(primaries.green) == point_of(raw.green.0, raw.green.1)
                &&& Some(primaries.blue) == point_of(raw.blue.0, raw.blue.1)
            }
        },
        point_of(raw.red.0, raw.red.1) matches Some(point) ==> Some(point.x) == positive_fraction(
            raw.red.0,
        ) && Some(point.y) == positive_fraction(raw.red.1),
{
}

/// A frame came from the device just if it is one of a device, and of the device whose
/// format it has.
pub proof fn law_frames_come_from_their_device(format: HardwareFormat)
    ensures
        backend_of(false, format) == DecoderBackend::Software,
        backend_of(true, HardwareFormat::VideoToolbox) == DecoderBackend::VideoToolbox,
        backend_of(true, HardwareFormat::D3d11) == DecoderBackend::D3d11va,
        backend_of(true, HardwareFormat::D3d11vaVld) == DecoderBackend::D3d11va,
        backend_of(true, HardwareFormat::Dxva2Vld) == DecoderBackend::Dxva2,
        backend_of(true, HardwareFormat::Other) == DecoderBackend::Software,
{
}

/// The first configuration for a device is taken.
pub proof fn law_first_configuration_is_taken(
    first: HardwareConfig,
    rest: Seq<HardwareConfig>,
    device_type: i32,
)
    ensures
        first.device_type == device_type && first.with_device ==> device_format(
            seq![first] + rest,
            device_type,
        ) == Some(first.pixel_format),
        first.device_type != device_type || !first.with_device ==> device_format(
            seq![first] + rest,
            device_type,
        ) == device_format(rest, device_type),
        first.device_type == device_type && first.with_frames ==> frames_format(
            seq![first] + rest,
            device_type,
        ) == Some(first.pixel_format),
        first.device_type != device_type || !first.with_frames ==> frames_format(
            seq![first] + rest,
            device_type,
        ) == frames_format(rest, device_type),
{
    assert((seq![first] + rest).skip(1) =~= rest);
}

} // verus!
