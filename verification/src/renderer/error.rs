//! What a renderer refuses.
use crate::ffmpeg::planes::PlanarPixelFormat;
use crate::text::{decimal_spec, extend_str, push_decimal, string_of};
use vstd::prelude::*;

verus! {

/// What a renderer refuses, and why.
#[derive(Debug, Clone, PartialEq, Eq)]
pub enum RendererError {
    /// A plane of a subtitle that is not as long as its size asks for.
    SubtitlePlane { bytes: usize, expected: usize, width: u32, height: u32 },
    /// A mask of a subtitle that is too short.
    AlphaBitmap { bytes: usize, expected: usize, width: u32, height: u32, stride: usize },
    /// A plane of an overlay that is not as long as its size asks for.
    OverlayPlane { bytes: usize, expected: usize, width: u32, height: u32 },
    /// A target without pixels.
    EmptyTarget,
    /// A video frame without pixels, or with an odd size.
    OddFrame,
    /// Sixteen bits, where the device cannot read them.
    NoSixteenBits,
    /// A luma plane that is not as long as the size of its frame asks for.
    LumaPlane { format: PlanarPixelFormat, bytes: usize, expected: usize },
    /// A chroma plane that is not as long as the size of its frame asks for.
    ChromaPlane { format: PlanarPixelFormat, bytes: usize, expected: usize },
    /// A surface that offers no format.
    NoFormats,
    /// A surface that is not for this renderer.
    ForeignSurface,
    /// A surface that is for another renderer.
    WgpuOnMetal,
    /// A texture that is no surface.
    FlutterOnMetal,
    /// A layer, where there are none.
    AppleSurface,
    /// A window that is not there.
    NullWindow,
    /// A surface of a kind that is not drawn on yet.
    UnwiredSurface { kind: String },
    /// Nothing to draw on.
    NoSurface,
    /// No frame to draw.
    NoVideo,
    /// A frame in a format that cannot be read.
    UnsupportedFrame,
    /// A frame that is not with the system's decoder.
    NotVideoToolbox,
    /// A renderer of layers, where there are none.
    NotApple,
    /// A texture that no presenter draws.
    FlutterOnPresenter,
    /// A renderer that is not built in.
    NoWgpu,
}

/// The result of a renderer.
pub type Result<T> = core::result::Result<T, RendererError>;

/// The name of a format.
pub open spec fn format_name(format: PlanarPixelFormat) -> Seq<char> {
    match format {
        PlanarPixelFormat::Nv12 => "Nv12"@,
        PlanarPixelFormat::P010 => "P010"@,
    }
}

fn push_format(target: &mut Vec<char>, format: PlanarPixelFormat)
    ensures
        final(target)@ == old(target)@ + format_name(format),
{
    match format {
        PlanarPixelFormat::Nv12 => extend_str(target, "Nv12"),
        PlanarPixelFormat::P010 => extend_str(target, "P010"),
    }
}

/// A size in words.
pub open spec fn size_text(width: u32, height: u32) -> Seq<char> {
    decimal_spec(width as nat) + "x"@ + decimal_spec(height as nat)
}

fn push_size(target: &mut Vec<char>, width: u32, height: u32)
    ensures
        final(target)@ == old(target)@ + size_text(width, height),
{
    let ghost before = target@;
    push_decimal(target, width as u128);
    extend_str(target, "x");
    push_decimal(target, height as u128);
    assert(target@ =~= before + size_text(width, height));
}

impl RendererError {
    /// The error in words.
    pub open spec fn text(self) -> Seq<char> {
        match self {
            RendererError::SubtitlePlane { bytes, expected, width, height } => "subtitle plane has "@
                + decimal_spec(bytes as nat) + " bytes, expected "@ + decimal_spec(expected as nat)
                + " for "@ + size_text(width, height) + " RGBA"@,
            RendererError::AlphaBitmap { bytes, expected, width, height, stride } =>
            "subtitle alpha bitmap has "@ + decimal_spec(bytes as nat) + " bytes, expected at least "@
                + decimal_spec(expected as nat) + " for "@ + size_text(width, height) + " stride "@
                + decimal_spec(stride as nat),
            RendererError::OverlayPlane { bytes, expected, width, height } =>
            "overlay subtitle plane has "@ + decimal_spec(bytes as nat) + " bytes, expected "@
                + decimal_spec(expected as nat) + " for "@ + size_text(width, height) + " RGBA"@,
            RendererError::EmptyTarget => "offscreen target must have non-zero dimensions"@,
            RendererError::OddFrame => "planar frame dimensions must be non-zero and even"@,
            RendererError::NoSixteenBits =>
            "wgpu adapter lacks TEXTURE_FORMAT_16BIT_NORM required for P010/10-bit"@,
            RendererError::LumaPlane { format, bytes, expected } => format_name(format)
                + " luma plane is "@ + decimal_spec(bytes as nat) + " bytes, expected "@
                + decimal_spec(expected as nat),
            RendererError::ChromaPlane { format, bytes, expected } => format_name(format)
                + " chroma plane is "@ + decimal_spec(bytes as nat) + " bytes, expected "@
                + decimal_spec(expected as nat),
            RendererError::NoFormats =>
            "wgpu surface reports no supported formats even with compatible adapter"@,
            RendererError::ForeignSurface =>
            "non-wgpu surface cannot be attached to WgpuRenderer"@,
            RendererError::WgpuOnMetal =>
            "wgpu surface cannot be attached to MetalRenderer"@,
            RendererError::FlutterOnMetal =>
            "Flutter texture cannot be attached to MetalRenderer"@,
            RendererError::AppleSurface =>
            "CoreAnimationLayer surface is only available on Apple platforms"@,
            RendererError::NullWindow =>
            "invalid hwnd: null pointer"@,
            RendererError::UnwiredSurface { kind } => "wgpu surface kind "@ + kind@
                + " is not wired yet"@,
            RendererError::NoSurface =>
            "no wgpu surface attached"@,
            RendererError::NoVideo =>
            "no current video frame"@,
            RendererError::UnsupportedFrame =>
            "wgpu: frame is not software 4:2:0 8-bit/10-bit (unsupported format)"@,
            RendererError::NotVideoToolbox =>
            "decoded frame is not backed by VideoToolbox CVPixelBuffer"@,
            RendererError::NotApple =>
            "Metal renderer is only available on Apple platforms for v0"@,
            RendererError::FlutterOnPresenter =>
            "Flutter texture backend is not supported by the presenter runtime"@,
            RendererError::NoWgpu => "wgpu renderer backend requires the `wgpu` cargo feature"@,
        }
    }

    /// The error in words.
    pub fn message(&self) -> (result: String)
        ensures
            result@ == self.text(),
    {
        let mut text: Vec<char> = Vec::new();
        match self {
            RendererError::SubtitlePlane { bytes, expected, width, height } => {
                extend_str(&mut text, "subtitle plane has ");
                push_decimal(&mut text, *bytes as u128);
                extend_str(&mut text, " bytes, expected ");
                push_decimal(&mut text, *expected as u128);
                extend_str(&mut text, " for ");
                push_size(&mut text, *width, *height);
                extend_str(&mut text, " RGBA");
            },
            RendererError::AlphaBitmap { bytes, expected, width, height, stride } => {
                extend_str(&mut text, "subtitle alpha bitmap has ");
                push_decimal(&mut text, *bytes as u128);
                extend_str(&mut text, " bytes, expected at least ");
                push_decimal(&mut text, *expected as u128);
                extend_str(&mut text, " for ");
                push_size(&mut text, *width, *height);
                extend_str(&mut text, " stride ");
                push_decimal(&mut text, *stride as u128);
            },
            RendererError::OverlayPlane { bytes, expected, width, height } => {
                extend_str(&mut text, "overlay subtitle plane has ");
                push_decimal(&mut text, *bytes as u128);
                extend_str(&mut text, " bytes, expected ");
                push_decimal(&mut text, *expected as u128);
                extend_str(&mut text, " for ");
                push_size(&mut text, *width, *height);
                extend_str(&mut text, " RGBA");
            },
            RendererError::EmptyTarget => {
                extend_str(&mut text, "offscreen target must have non-zero dimensions");
            },
            RendererError::OddFrame => {
                extend_str(&mut text, "planar frame dimensions must be non-zero and even");
            },
            RendererError::NoSixteenBits => {
                extend_str(
                    &mut text,
                    "wgpu adapter lacks TEXTURE_FORMAT_16BIT_NORM required for P010/10-bit",
                );
            },
            RendererError::LumaPlane { format, bytes, expected } => {
                push_format(&mut text, *format);
                extend_str(&mut text, " luma plane is ");
                push_decimal(&mut text, *bytes as u128);
                extend_str(&mut text, " bytes, expected ");
                push_decimal(&mut text, *expected as u128);
            },
            RendererError::ChromaPlane { format, bytes, expected } => {
                push_format(&mut text, *format);
                extend_str(&mut text, " chroma plane is ");
                push_decimal(&mut text, *bytes as u128);
                extend_str(&mut text, " bytes, expected ");
                push_decimal(&mut text, *expected as u128);
            },
            RendererError::NoFormats => {
                extend_str(
                    &mut text,
                    "wgpu surface reports no supported formats even with compatible adapter",
                );
            },
            RendererError::ForeignSurface => {
                extend_str(&mut text, "non-wgpu surface cannot be attached to WgpuRenderer");
            },
            RendererError::WgpuOnMetal => {
                extend_str(&mut text, "wgpu surface cannot be attached to MetalRenderer");
            },
            RendererError::FlutterOnMetal => {
                extend_str(&mut text, "Flutter texture cannot be attached to MetalRenderer");
            },
            RendererError::AppleSurface => {
                extend_str(&mut text, "CoreAnimationLayer surface is only available on Apple platforms");
            },
            RendererError::NullWindow => {
                extend_str(&mut text, "invalid hwnd: null pointer");
            },
            RendererError::UnwiredSurface { kind } => {
                extend_str(&mut text, "wgpu surface kind ");
                extend_str(&mut text, kind.as_str());
                extend_str(&mut text, " is not wired yet");
            },
            RendererError::NoSurface => {
                extend_str(&mut text, "no wgpu surface attached");
            },
            RendererError::NoVideo => {
                extend_str(&mut text, "no current video frame");
            },
            RendererError::UnsupportedFrame => {
                extend_str(&mut text, "wgpu: frame is not software 4:2:0 8-bit/10-bit (unsupported format)");
            },
            RendererError::NotVideoToolbox => {
                extend_str(&mut text, "decoded frame is not backed by VideoToolbox CVPixelBuffer");
            },
            RendererError::NotApple => {
                extend_str(&mut text, "Metal renderer is only available on Apple platforms for v0");
            },
            RendererError::FlutterOnPresenter => {
                extend_str(
                    &mut text,
                    "Flutter texture backend is not supported by the presenter runtime",
                );
            },
            RendererError::NoWgpu => {
                extend_str(&mut text, "wgpu renderer backend requires the `wgpu` cargo feature");
            },
        }
        assert(text@ =~= self.text());
        string_of(&text)
    }
}

} // verus!
