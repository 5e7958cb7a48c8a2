//! Decoded frames.
use crate::ffmpeg::codes::{
    backend_of, color_primaries, color_range, decode_backend, frame_hdr_metadata, hdr_of,
    matrix_coefficients, matrix_of, primaries_of, range_of, transfer_function, transfer_of,
    DecoderBackend, HardwareFormat, RawMasteringDisplay,
};
use crate::ffmpeg::planes::{Nv12Frame, PlanarFrame, PlanarPixelFormat, SourceFrame, SourcePixelFormat};
use crate::ffmpeg::probe::{non_negative, to_non_negative};
use crate::ffmpeg::stamp::{timestamp_value, PacketTimestamp, TimeBase};
use crate::media::{copy_text, text_view, ColorPrimaries, TransferFunction};
use crate::renderer::color::{ColorRange, HdrMetadata, MatrixCoefficients};
use vstd::prelude::*;

verus! {

/// A frame: what a decoder tells of it, and its planes if they lie in memory.
#[derive(Debug, Clone, PartialEq, Eq)]
pub struct Frame {
    pub width: i32,
    pub height: i32,
    pub sample_rate: i32,
    pub channels: i32,
    pub samples: i32,
    pub raw_format: i32,
    pub hardware: HardwareFormat,
    pub pixel_format: Option<String>,
    pub sample_format: Option<String>,
    pub has_hw_frames_context: bool,
    pub pts: i64,
    pub time_base: TimeBase,
    pub primaries: i32,
    pub transfer: i32,
    pub range: i32,
    pub matrix: i32,
    pub mastering: Option<RawMasteringDisplay>,
    pub light: Option<(u32, u32)>,
    pub planes: SourceFrame,
}

impl Frame {
    /// Whether the frame holds audio: it has a rate, samples and channels.
    pub open spec fn has_audio(self) -> bool {
        self.sample_rate > 0 && self.samples > 0 && self.channels > 0
    }

    /// The time stamp of the frame, if it has one.
    pub open spec fn stamp(self) -> Option<PacketTimestamp> {
        if self.pts == i64::MIN {
            None
        } else {
            Some(PacketTimestamp { raw: self.pts, time_base: self.time_base })
        }
    }

    /// Whether the planes are of the size that is told of the frame.
    pub open spec fn has_its_size(self) -> bool {
        self.planes.width == non_negative(self.width) && self.planes.height == non_negative(
            self.height,
        )
    }

    /// The width.
    pub fn width(&self) -> (result: u32)
        ensures
            result == non_negative(self.width),
    {
        to_non_negative(self.width)
    }

    /// The height.
    pub fn height(&self) -> (result: u32)
        ensures
            result == non_negative(self.height),
    {
        to_non_negative(self.height)
    }

    /// The samples of a second.
    pub fn sample_rate(&self) -> (result: u32)
        ensures
            result == non_negative(self.sample_rate),
    {
        to_non_negative(self.sample_rate)
    }

    /// The number of channels.
    pub fn channel_count(&self) -> (result: u32)
        ensures
            result == non_negative(self.channels),
    {
        to_non_negative(self.channels)
    }

    /// The number of samples in each channel.
    pub fn sample_count(&self) -> (result: usize)
        ensures
            result == non_negative(self.samples),
    {
        to_non_negative(self.samples) as usize
    }

    /// The name of the sample format, if it has one.
    pub fn sample_format(&self) -> (result: Option<String>)
        ensures
            text_view(result) == text_view(self.sample_format),
    {
        copy_text(&self.sample_format)
    }

    /// The code of the sample format.
    pub fn raw_sample_format(&self) -> (result: i32)
        ensures
            result == self.raw_format,
    {
        self.raw_format
    }

    /// Whether the frame holds audio.
    pub fn is_audio(&self) -> (result: bool)
        ensures
            result == self.has_audio(),
    {
        self.sample_rate > 0 && self.samples > 0 && self.channels > 0
    }

    /// The name of the pixel format, if it has one.
    pub fn pixel_format(&self) -> (result: Option<String>)
        ensures
            text_view(result) == text_view(self.pixel_format),
    {
        copy_text(&self.pixel_format)
    }

    /// The code of the pixel format.
    pub fn raw_pixel_format(&self) -> (result: i32)
        ensures
            result == self.raw_format,
    {
        self.raw_format
    }

    /// Whether the pixels are with VideoToolbox.
    pub fn is_videotoolbox(&self) -> (result: bool)
        ensures
            result == (self.hardware == HardwareFormat::VideoToolbox),
    {
        self.hardware == HardwareFormat::VideoToolbox
    }

    /// Whether the pixels are with Direct3D 11.
    pub fn is_d3d11va(&self) -> (result: bool)
        ensures
            result == (self.hardware == HardwareFormat::D3d11vaVld || self.hardware
                == HardwareFormat::D3d11),
    {
        self.hardware == HardwareFormat::D3d11vaVld || self.hardware == HardwareFormat::D3d11
    }

    /// Who decoded the frame.
    pub fn decode_backend(&self) -> (result: DecoderBackend)
        ensures
            result == backend_of(self.has_hw_frames_context, self.hardware),
    {
        decode_backend(self.has_hw_frames_context, self.hardware)
    }

    /// Whether the frame lies with a device.
    pub fn has_hw_frames_context(&self) -> (result: bool)
        ensures
            result == self.has_hw_frames_context,
    {
        self.has_hw_frames_context
    }

    /// The ticks at which the frame is shown.
    pub fn raw_pts(&self) -> (result: Option<i64>)
        ensures
            result == (if self.pts == i64::MIN {
                None
            } else {
                Some(self.pts)
            }),
    {
        timestamp_value(self.pts)
    }

    /// The time at which the frame is shown.
    pub fn pts(&self) -> (result: Option<PacketTimestamp>)
        ensures
            result == self.stamp(),
    {
        match self.raw_pts() {
            Some(raw) => Some(PacketTimestamp { raw, time_base: self.time_base }),
            None => None,
        }
    }

    /// The primaries.
    pub fn color_primaries(&self) -> (result: ColorPrimaries)
        ensures
            result == primaries_of(self.primaries),
    {
        color_primaries(self.primaries)
    }

    /// The transfer function.
    pub fn transfer_function(&self) -> (result: TransferFunction)
        ensures
            result == transfer_of(self.transfer),
    {
        transfer_function(self.transfer)
    }

    /// The range of the levels.
    pub fn color_range(&self) -> (result: ColorRange)
        ensures
            result == range_of(self.range),
    {
        color_range(self.range)
    }

    /// The matrix coefficients.
    pub fn matrix_coefficients(&self) -> (result: MatrixCoefficients)
        ensures
            result == matrix_of(self.matrix),
    {
        matrix_coefficients(self.matrix)
    }

    /// What is known of the dynamic range.
    pub fn hdr_metadata(&self) -> (result: Option<HdrMetadata>)
        ensures
            result == hdr_of(self.mastering, self.light),
    {
        frame_hdr_metadata(self.mastering, self.light)
    }

    /// Packs the planes of an eight-bit frame.
    pub fn to_nv12(&self) -> (result: Option<Nv12Frame>)
        requires
            self.planes.is_backed(),
        ensures
            match self.planes.nv12_planes() {
                None => result is None,
                Some((luma, chroma)) => result matches Some(frame) && frame.width == self.planes.width
                    && frame.height == self.planes.height && frame.luma@ == luma && frame.chroma@
                    == chroma,
            },
            self.has_its_size() ==> (result matches Some(frame) ==> frame.width == non_negative(
                self.width,
            ) && frame.height == non_negative(self.height)),
    {
        self.planes.to_nv12()
    }

    /// Packs the planes of a frame.
    pub fn to_planar_frame(&self) -> (result: Option<PlanarFrame>)
        requires
            self.planes.is_backed(),
        ensures
            match self.planes.format {
                SourcePixelFormat::Yuv420p | SourcePixelFormat::Nv12 => match self.planes.nv12_planes() {
                    None => result is None,
                    Some((luma, chroma)) => result matches Some(frame) && frame.format
                        == PlanarPixelFormat::Nv12 && frame.width == self.planes.width && frame.height
                        == self.planes.height && frame.luma@ == luma && frame.chroma@ == chroma,
                },
                _ => match self.planes.p010_planes() {
                    None => result is None,
                    Some((luma, chroma)) => result matches Some(frame) && frame.format
                        == PlanarPixelFormat::P010 && frame.width == self.planes.width && frame.height
                        == self.planes.height && frame.luma@ == luma && frame.chroma@ == chroma,
                },
            },
            self.has_its_size() ==> (result matches Some(frame) ==> frame.width == non_negative(
                self.width,
            ) && frame.height == non_negative(self.height)),
    {
        self.planes.to_planar_frame()
    }
}

} // verus!
