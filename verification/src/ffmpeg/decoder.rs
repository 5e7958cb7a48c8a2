//! What decoders take, and what becomes of what they give.
use crate::ffmpeg::codes::{kind_of_type, DecoderBackend, DecoderConfig};
use crate::ffmpeg::demuxer::{CodecParameters, Demuxer, AVERROR_EOF};
use crate::ffmpeg::frame::Frame;
use crate::ffmpeg::packet::{stamp_of, Packet};
use crate::ffmpeg::pcm::{PcmAudioFrame, PcmFormat};
use crate::ffmpeg::stamp::{
    check, check_packet_stream, check_subtitle_kind, FfmpegError, Result, TimeBase,
};
use crate::ffmpeg::subtitle::{
    end_of, holds_import, import_av_subtitle, rects_outcome, start_of, SubtitlePacket,
};
use crate::float_bits::Single;
use crate::media::TrackKind;
use crate::subtitle::decoded::{DecodedSubtitleFrame, SubtitleTrackConfig, SubtitleTrackSource};
use crate::time::{sat_add, span_view};
use vstd::prelude::*;

verus! {

// ---------------------------------------------------------------------------
// Video and audio
// ---------------------------------------------------------------------------

/// What came of the steps of opening a decoder. After one that failed, the others
/// are not taken.
#[derive(Debug)]
pub struct CodecOutcome {
    /// Whether there is a decoder for the codec.
    pub has_codec: bool,
    /// Whether its context could be made.
    pub has_context: bool,
    /// What taking the parameters of the stream returned.
    pub parameters_code: i32,
    /// Why the hardware could not be set up, if so.
    pub hardware: Option<FfmpegError>,
    /// What opening returned.
    pub open_code: i32,
    /// What is told of a code that is an error.
    pub message: String,
}

impl CodecOutcome {
    /// Why a decoder is not open, if so. Only one of hardware sets hardware up.
    pub open spec fn refusal(self, config: DecoderConfig) -> Option<FfmpegError> {
        if !self.has_codec {
            Some(FfmpegError::NullPointer("avcodec_find_decoder"))
        } else if !self.has_context {
            Some(FfmpegError::NullPointer("avcodec_alloc_context3"))
        } else if self.parameters_code < 0 {
            Some(
                FfmpegError::Api {
                    operation: "avcodec_parameters_to_context",
                    code: self.parameters_code,
                    message: self.message,
                },
            )
        } else if config.backend != DecoderBackend::Software && self.hardware is Some {
            self.hardware
        } else if self.open_code < 0 {
            Some(
                FfmpegError::Api {
                    operation: "avcodec_open2",
                    code: self.open_code,
                    message: self.message,
                },
            )
        } else {
            None
        }
    }

    /// Why a decoder of subtitles is not open, if so.
    pub open spec fn subtitle_refusal(self) -> Option<FfmpegError> {
        if !self.has_codec {
            Some(FfmpegError::NullPointer("avcodec_find_decoder(subtitle)"))
        } else if !self.has_context {
            Some(FfmpegError::NullPointer("avcodec_alloc_context3(subtitle)"))
        } else if self.parameters_code < 0 {
            Some(
                FfmpegError::Api {
                    operation: "avcodec_parameters_to_context(subtitle)",
                    code: self.parameters_code,
                    message: self.message,
                },
            )
        } else if self.open_code < 0 {
            Some(
                FfmpegError::Api {
                    operation: "avcodec_open2(subtitle)",
                    code: self.open_code,
                    message: self.message,
                },
            )
        } else {
            None
        }
    }
}

/// A decoder of a stream.
#[derive(Debug, Clone, Copy, PartialEq, Eq, Structural)]
pub struct Decoder {
    pub stream_index: i32,
    pub time_base: TimeBase,
    pub backend: DecoderBackend,
}

/// What a decoder has for its caller, without the frame.
#[derive(Debug, Clone, Copy, PartialEq, Eq, Structural)]
pub enum DecoderOutput {
    /// A frame.
    Frame,
    /// It has to be given more packets first.
    NeedMoreInput,
    /// The stream has ended.
    EndOfStream,
}

/// What a decoder has for its caller.
#[derive(Debug, Clone, PartialEq, Eq)]
pub enum DecoderOutputFrame {
    /// A frame.
    Frame(Frame),
    /// It has to be given more packets first.
    NeedMoreInput,
    /// The stream has ended.
    EndOfStream,
}

impl Decoder {
    /// A decoder in software, given what came of opening it.
    pub fn open(parameters: &CodecParameters, outcome: CodecOutcome) -> (result: Result<Self>)
        ensures
            match outcome.refusal(DecoderConfig { backend: DecoderBackend::Software }) {
                Some(refusal) => result matches Err(error) && error == refusal,
                None => result matches Ok(decoder) && decoder == (Decoder {
                    stream_index: parameters.stream_index,
                    time_base: parameters.time_base,
                    backend: DecoderBackend::Software,
                }),
            },
    {
        Self::open_with_config(parameters, DecoderConfig::default(), outcome)
    }

    /// A decoder as it is asked for, given what came of opening it.
    pub fn open_with_config(
        parameters: &CodecParameters,
        config: DecoderConfig,
        outcome: CodecOutcome,
    ) -> (result: Result<Self>)
        ensures
            match outcome.refusal(config) {
                Some(refusal) => result matches Err(error) && error == refusal,
                None => result matches Ok(decoder) && decoder == (Decoder {
                    stream_index: parameters.stream_index,
                    time_base: parameters.time_base,
                    backend: config.backend,
                }),
            },
    {
        if !outcome.has_codec {
            return Err(FfmpegError::NullPointer("avcodec_find_decoder"));
        }
        if !outcome.has_context {
            return Err(FfmpegError::NullPointer("avcodec_alloc_context3"));
        }
        if outcome.parameters_code < 0 {
            return Err(
                FfmpegError::Api {
                    operation: "avcodec_parameters_to_context",
                    code: outcome.parameters_code,
                    message: outcome.message,
                },
            );
        }
        if config.backend != DecoderBackend::Software {
            if let Some(error) = outcome.hardware {
                return Err(error);
            }
        }
        if let Err(error) = check(outcome.open_code, "avcodec_open2", outcome.message) {
            return Err(error);
        }
        Ok(
            Self {
                stream_index: parameters.stream_index,
                time_base: parameters.time_base,
                backend: config.backend,
            },
        )
    }

    /// The stream.
    pub fn stream_index(&self) -> (result: i32)
        ensures
            result == self.stream_index,
    {
        self.stream_index
    }

    /// The time base of the stream.
    pub fn time_base(&self) -> (result: TimeBase)
        ensures
            result == self.time_base,
    {
        self.time_base
    }

    /// Who decodes.
    pub fn backend(&self) -> (result: DecoderBackend)
        ensures
            result == self.backend,
    {
        self.backend
    }

    /// Whether a packet can be sent: only one of the decoder's stream can.
    pub fn check_packet(&self, packet: &Packet) -> (result: Result<()>)
        ensures
            result is Ok <==> packet.stream_index == self.stream_index,
            result matches Err(error) ==> error == (FfmpegError::StreamMismatch {
                decoder_stream: self.stream_index,
                packet_stream: packet.stream_index,
            }),
    {
        check_packet_stream(self.stream_index, packet.stream_index)
    }

    /// Takes note of a packet that was sent, given what the decoder answered. A
    /// packet of another stream is refused.
    pub fn send_packet(&self, packet: &Packet, code: i32, message: String) -> (result: Result<()>)
        ensures
            result is Ok <==> packet.stream_index == self.stream_index && code >= 0,
            result matches Err(error) ==> error == (if packet.stream_index != self.stream_index {
                FfmpegError::StreamMismatch {
                    decoder_stream: self.stream_index,
                    packet_stream: packet.stream_index,
                }
            } else {
                FfmpegError::Api { operation: "avcodec_send_packet", code, message }
            }),
    {
        if let Err(error) = self.check_packet(packet) {
            return Err(error);
        }
        check(code, "avcodec_send_packet", message)
    }

    /// Takes note that the decoder was told that no more packets come.
    pub fn send_eof(&self, code: i32, message: String) -> (result: Result<()>)
        ensures
            result is Ok <==> code >= 0,
            result matches Err(error) ==> error == (FfmpegError::Api {
                operation: "avcodec_send_packet_eof",
                code,
                message,
            }),
    {
        check(code, "avcodec_send_packet_eof", message)
    }

    /// Takes what the decoder has for its caller. A frame gets the time base of the
    /// stream. The code by which more packets are asked for differs between systems.
    pub fn receive_frame(&self, code: i32, more_code: i32, message: String, frame: Frame) -> (result:
        Result<DecoderOutputFrame>)
        ensures
            if code == more_code {
                result matches Ok(output) && output is NeedMoreInput
            } else if code == AVERROR_EOF {
                result matches Ok(output) && output is EndOfStream
            } else if code < 0 {
                result matches Err(error) && error == (FfmpegError::Api {
                    operation: "avcodec_receive_frame",
                    code,
                    message,
                })
            } else {
                result matches Ok(output) && output == DecoderOutputFrame::Frame(
                    Frame { time_base: self.time_base, ..frame },
                )
            },
    {
        if code == more_code {
            return Ok(DecoderOutputFrame::NeedMoreInput);
        }
        if code == AVERROR_EOF {
            return Ok(DecoderOutputFrame::EndOfStream);
        }
        match check(code, "avcodec_receive_frame", message) {
            Ok(()) => {
                let mut stamped = frame;
                stamped.time_base = self.time_base;
                Ok(DecoderOutputFrame::Frame(stamped))
            },
            Err(error) => Err(error),
        }
    }
}

// ---------------------------------------------------------------------------
// Subtitles
// ---------------------------------------------------------------------------

/// A decoder of a stream of subtitles.
#[derive(Debug)]
pub struct SubtitleDecoder {
    stream_index: i32,
    time_base: TimeBase,
    track: SubtitleTrackConfig,
}

impl SubtitleDecoder {
    /// The stream.
    pub closed spec fn stream(self) -> i32 {
        self.stream_index
    }

    /// The time base of the stream.
    pub closed spec fn base(self) -> TimeBase {
        self.time_base
    }

    /// The track.
    pub closed spec fn config(self) -> SubtitleTrackConfig {
        self.track
    }

    /// Whether the decoder is for a stream.
    pub open spec fn is_for(self, parameters: CodecParameters) -> bool {
        &&& self.stream() == parameters.stream_index
        &&& self.base() == parameters.time_base
        &&& self.config() == (SubtitleTrackConfig {
            id: parameters.stream_index as i64,
            source: SubtitleTrackSource::Embedded { stream_index: parameters.stream_index as i64 },
            language: None,
            title: None,
        })
    }

    /// A decoder for a stream, which has to be one of subtitles, given what came of
    /// opening it.
    pub fn open(parameters: &CodecParameters, outcome: CodecOutcome) -> (result: Result<Self>)
        ensures
            if kind_of_type(parameters.media_type) != Some(TrackKind::Subtitle) {
                result matches Err(error) && error == FfmpegError::ExpectedSubtitleStream
            } else {
                match outcome.subtitle_refusal() {
                    Some(refusal) => result matches Err(error) && error == refusal,
                    None => result matches Ok(decoder) && decoder.is_for(*parameters),
                }
            },
    {
        if let Err(error) = check_subtitle_kind(parameters.kind()) {
            return Err(error);
        }
        if !outcome.has_codec {
            return Err(FfmpegError::NullPointer("avcodec_find_decoder(subtitle)"));
        }
        if !outcome.has_context {
            return Err(FfmpegError::NullPointer("avcodec_alloc_context3(subtitle)"));
        }
        if outcome.parameters_code < 0 {
            return Err(
                FfmpegError::Api {
                    operation: "avcodec_parameters_to_context(subtitle)",
                    code: outcome.parameters_code,
                    message: outcome.message,
                },
            );
        }
        if let Err(error) = check(outcome.open_code, "avcodec_open2(subtitle)", outcome.message) {
            return Err(error);
        }
        let index: i64 = parameters.stream_index as i64;
        Ok(
            Self {
                stream_index: parameters.stream_index,
                time_base: parameters.time_base,
                track: SubtitleTrackConfig::embedded(index, index),
            },
        )
    }

    /// The stream.
    pub fn stream_index(&self) -> (result: i32)
        ensures
            result == self.stream(),
    {
        self.stream_index
    }

    /// The time base of the stream.
    pub fn time_base(&self) -> (result: TimeBase)
        ensures
            result == self.base(),
    {
        self.time_base
    }

    /// The track.
    pub fn track(&self) -> (result: &SubtitleTrackConfig)
        ensures
            *result == self.config(),
    {
        &self.track
    }

    /// Whether a packet can be decoded: only one of the decoder's stream can.
    pub fn check_packet(&self, packet: &Packet) -> (result: Result<()>)
        ensures
            result is Ok <==> packet.stream_index == self.stream(),
            result matches Err(error) ==> error == (FfmpegError::StreamMismatch {
                decoder_stream: self.stream(),
                packet_stream: packet.stream_index,
            }),
    {
        check_packet_stream(self.stream_index, packet.stream_index)
    }

    /// Takes over what a packet was decoded to: a subtitle, or nothing yet. A packet
    /// of another stream is refused.
    pub fn decode_packet(
        &self,
        packet: &Packet,
        code: i32,
        message: String,
        subtitle: Option<SubtitlePacket>,
    ) -> (result: Result<Option<DecodedSubtitleFrame>>)
        requires
            stamp_of(packet.pts, packet.time_base) matches Some(stamp) ==> stamp.is_in_range(),
            subtitle matches Some(given) ==> (forall|i: int|
                0 <= i < given.rects@.len() ==> (#[trigger] given.rects@[i] matches Some(rect)
                    ==> rect.is_backed())),
        ensures
            if packet.stream_index != self.stream() {
                result matches Err(error) && error == (FfmpegError::StreamMismatch {
                    decoder_stream: self.stream(),
                    packet_stream: packet.stream_index,
                })
            } else if code < 0 {
                result matches Err(error) && error == (FfmpegError::Api {
                    operation: "avcodec_decode_subtitle2",
                    code,
                    message,
                })
            } else {
                match subtitle {
                    None => result matches Ok(frame) && frame is None,
                    Some(given) => match rects_outcome(given.rects@) {
                        Err(rect) => result matches Err(error) && error == (
                        FfmpegError::InvalidSubtitleBitmap {
                            width: rect.w,
                            height: rect.h,
                            stride: rect.stride,
                            colors: rect.colors,
                        }),
                        Ok(model) => {
                            let start = match start_of(
                                given.pts,
                                stamp_of(packet.pts, packet.time_base),
                            ) {
                                Some(pts) => Some(
                                    sat_add(pts, (given.start_display_time * 1_000_000) as nat),
                                ),
                                None => None,
                            };
                            result matches Ok(Some(frame)) && {
                                &&& frame.track_id == self.stream()
                                &&& span_view(frame.start) == start
                                &&& span_view(frame.end) == end_of(
                                    start,
                                    given.start_display_time,
                                    given.end_display_time,
                                )
                                &&& frame.bitmap.pts@ == (match start {
                                    Some(pts) => pts,
                                    None => 0,
                                })
                                &&& holds_import(frame, model)
                            }
                        },
                    },
                }
            },
    {
        if let Err(error) = self.check_packet(packet) {
            return Err(error);
        }
        if let Err(error) = check(code, "avcodec_decode_subtitle2", message) {
            return Err(error);
        }
        match subtitle {
            None => Ok(None),
            Some(given) => match import_av_subtitle(
                self.stream_index as i64,
                packet.pts(),
                &given,
            ) {
                Ok(frame) => Ok(Some(frame)),
                Err(error) => Err(error),
            },
        }
    }
}

// ---------------------------------------------------------------------------
// Samples
// ---------------------------------------------------------------------------

/// What a resampler is asked for.
#[derive(Debug, Clone, Copy, PartialEq, Eq, Structural)]
pub struct ResampleRequest {
    /// The samples that come in, in each channel.
    pub input_samples: i32,
    /// Those samples, and the ones that the resampler still holds.
    pub pending_samples: i64,
    /// The rate of the samples that come in.
    pub input_rate: u32,
    /// The rate of the samples that go out.
    pub output_rate: u32,
}

/// A resampler to a format.
#[derive(Debug, Clone, Copy, PartialEq, Eq, Structural)]
pub struct AudioResampler {
    pub output_format: PcmFormat,
}

/// What came of the steps of opening a resampler. After one that failed, the
/// others are not taken.
#[derive(Debug)]
pub struct ResamplerOutcome {
    /// Whether there is a layout for the channels.
    pub has_layout: bool,
    /// What making the context returned.
    pub alloc_code: i32,
    /// Whether there is a context then.
    pub has_context: bool,
    /// What opening it returned.
    pub init_code: i32,
    /// What is told of a code that is an error.
    pub message: String,
}

impl ResamplerOutcome {
    /// Whether no step failed.
    pub open spec fn is_open(self) -> bool {
        self.has_layout && self.alloc_code >= 0 && self.has_context && self.init_code >= 0
    }
}

/// The channels of a format, and at least one.
pub open spec fn at_least_one_channel(format: PcmFormat) -> nat {
    if format.channels < 1 {
        1
    } else {
        format.channels as nat
    }
}

/// The first samples, as many as there are.
pub open spec fn cut(samples: Seq<Single>, len: nat) -> Seq<Single> {
    if len < samples.len() {
        samples.take(len as int)
    } else {
        samples
    }
}

impl AudioResampler {
    /// The channels that a layout is made for.
    pub fn layout_channels(output_format: PcmFormat) -> (result: i32)
        ensures
            result == (if output_format.channels > i32::MAX {
                i32::MAX as int
            } else {
                output_format.channels as int
            }),
    {
        if output_format.channels > 0x7fff_ffff {
            i32::MAX
        } else {
            output_format.channels as i32
        }
    }

    /// A resampler of frames like one, which has to hold audio, given what came of
    /// opening it.
    pub fn new_from_frame(frame: &Frame, output_format: PcmFormat, outcome: ResamplerOutcome) -> (result:
        Result<Self>)
        ensures
            result is Ok <==> frame.has_audio() && outcome.is_open(),
            result matches Ok(resampler) ==> resampler.output_format == output_format,
            result matches Err(error) ==> if !frame.has_audio() {
                error == FfmpegError::ExpectedAudioFrame
            } else if !outcome.has_layout {
                error matches FfmpegError::Api { operation, code, message } && operation
                    == "av_channel_layout_default" && code == -1 && message@
                    == "invalid channel layout"@
            } else if outcome.alloc_code < 0 {
                error == (FfmpegError::Api {
                    operation: "swr_alloc_set_opts2",
                    code: outcome.alloc_code,
                    message: outcome.message,
                })
            } else if !outcome.has_context {
                error == FfmpegError::NullPointer("swr_alloc_set_opts2")
            } else {
                error == (FfmpegError::Api {
                    operation: "swr_init",
                    code: outcome.init_code,
                    message: outcome.message,
                })
            },
    {
        if !frame.is_audio() {
            return Err(FfmpegError::ExpectedAudioFrame);
        }
        if !outcome.has_layout {
            return Err(
                FfmpegError::Api {
                    operation: "av_channel_layout_default",
                    code: -1,
                    message: "invalid channel layout".to_owned(),
                },
            );
        }
        if outcome.alloc_code < 0 {
            return Err(
                FfmpegError::Api {
                    operation: "swr_alloc_set_opts2",
                    code: outcome.alloc_code,
                    message: outcome.message,
                },
            );
        }
        if !outcome.has_context {
            return Err(FfmpegError::NullPointer("swr_alloc_set_opts2"));
        }
        if let Err(error) = check(outcome.init_code, "swr_init", outcome.message) {
            return Err(error);
        }
        Ok(Self { output_format })
    }

    /// The format of the samples that go out.
    pub fn output_format(&self) -> (result: PcmFormat)
        ensures
            result == self.output_format,
    {
        self.output_format
    }

    /// What the resampler is asked for to take a frame, given the samples that it
    /// still holds.
    pub fn request(&self, frame: &Frame, delay: i64) -> (result: Result<ResampleRequest>)
        requires
            delay <= i64::MAX - i32::MAX,
        ensures
            result is Ok <==> frame.has_audio(),
            result matches Err(error) ==> error == FfmpegError::ExpectedAudioFrame,
            result matches Ok(request) ==> {
                &&& request.input_samples == frame.samples
                &&& request.pending_samples == (if delay < 0 {
                    frame.samples as int
                } else {
                    delay + frame.samples
                })
                &&& request.input_rate == frame.sample_rate
                &&& request.output_rate == self.output_format.sample_rate
            },
    {
        if !frame.is_audio() {
            return Err(FfmpegError::ExpectedAudioFrame);
        }
        let held: i64 = if delay < 0 {
            0
        } else {
            delay
        };
        Ok(
            ResampleRequest {
                input_samples: frame.samples,
                pending_samples: held + frame.samples as i64,
                input_rate: frame.sample_rate(),
                output_rate: self.output_format.sample_rate,
            },
        )
    }

    /// The room for samples that go out, given how many are expected: at least
    /// one, and no more than a machine number holds.
    pub fn output_capacity(expected: i64) -> (result: i32)
        ensures
            result == (if expected < 1 {
                1
            } else if expected > i32::MAX {
                i32::MAX as int
            } else {
                expected as int
            }),
    {
        if expected < 1 {
            1
        } else if expected > 0x7fff_ffff {
            i32::MAX
        } else {
            expected as i32
        }
    }

    /// Takes over what the resampler gave for a frame, which has to hold audio and
    /// to have data: so many samples in each channel, at the start of the room that
    /// it had.
    pub fn convert(
        &self,
        frame: &Frame,
        has_data: bool,
        converted: i32,
        message: String,
        samples: Vec<Single>,
    ) -> (result: Result<PcmAudioFrame>)
        requires
            frame.stamp() matches Some(stamp) ==> stamp.is_in_range(),
            converted * at_least_one_channel(self.output_format) <= usize::MAX,
        ensures
            if !frame.has_audio() {
                result matches Err(error) && error == FfmpegError::ExpectedAudioFrame
            } else if !has_data {
                result matches Err(error) && error == FfmpegError::NullPointer(
                    "AVFrame.extended_data",
                )
            } else if converted < 0 {
                result matches Err(error) && error == (FfmpegError::Api {
                    operation: "swr_convert",
                    code: converted,
                    message,
                })
            } else {
                result matches Ok(given) && {
                    &&& given.format == self.output_format
                    &&& span_view(given.pts) == (match frame.stamp() {
                        Some(stamp) => stamp.nanos(),
                        None => None,
                    })
                    &&& given.frames == converted
                    &&& given.samples@ == cut(
                        samples@,
                        (converted * at_least_one_channel(self.output_format)) as nat,
                    )
                }
            },
    {
        if !frame.is_audio() {
            return Err(FfmpegError::ExpectedAudioFrame);
        }
        if !has_data {
            return Err(FfmpegError::NullPointer("AVFrame.extended_data"));
        }
        if let Err(error) = check(converted, "swr_convert", message) {
            return Err(error);
        }
        let channels: usize = if self.output_format.channels < 1 {
            1
        } else {
            self.output_format.channels as usize
        };
        let frames: usize = converted as usize;
        assert(frames * channels >= 0) by (nonlinear_arith)
            requires
                frames >= 0,
                channels >= 0,
        ;
        let len: usize = frames * channels;
        let mut samples = samples;
        if len < samples.len() {
            samples.truncate(len);
        }
        let pts = match frame.pts() {
            Some(stamp) => stamp.as_duration(),
            None => None,
        };
        Ok(PcmAudioFrame { format: self.output_format, pts, frames, samples })
    }
}

// ---------------------------------------------------------------------------
// Streams of a file
// ---------------------------------------------------------------------------

impl Demuxer {
    /// Opens a decoder in software for a stream, given what came of it.
    pub fn open_decoder(&self, stream_index: i32, outcome: CodecOutcome) -> (result: Result<Decoder>)
        requires
            self.is_sound(),
        ensures
            match self.parameters_error(stream_index) {
                Some(refusal) => result matches Err(error) && error == refusal,
                None => match outcome.refusal(DecoderConfig { backend: DecoderBackend::Software }) {
                    Some(refusal) => result matches Err(error) && error == refusal,
                    None => result matches Ok(decoder) && decoder == (Decoder {
                        stream_index,
                        time_base: self.bases()[stream_index as int]->0,
                        backend: DecoderBackend::Software,
                    }),
                },
            },
    {
        match self.codec_parameters(stream_index) {
            Err(error) => Err(error),
            Ok(parameters) => Decoder::open(&parameters, outcome),
        }
    }

    /// Opens a decoder of subtitles for a stream, given what came of it.
    pub fn open_subtitle_decoder(&self, stream_index: i32, outcome: CodecOutcome) -> (result: Result<
        SubtitleDecoder,
    >)
        requires
            self.is_sound(),
        ensures
            match self.parameters_error(stream_index) {
                Some(refusal) => result matches Err(error) && error == refusal,
                None => if kind_of_type(
                    self.descriptors()[stream_index as int]->0.codec->0.media_type,
                ) != Some(TrackKind::Subtitle) {
                    result matches Err(error) && error == FfmpegError::ExpectedSubtitleStream
                } else {
                    match outcome.subtitle_refusal() {
                        Some(refusal) => result matches Err(error) && error == refusal,
                        None => result matches Ok(decoder) && decoder.stream() == stream_index
                            && decoder.base() == self.bases()[stream_index as int]->0,
                    }
                },
            },
    {
        match self.codec_parameters(stream_index) {
            Err(error) => Err(error),
            Ok(parameters) => SubtitleDecoder::open(&parameters, outcome),
        }
    }
}

/// Samples are cut to a length and are otherwise the same.
pub proof fn law_cut_samples_are_the_first_ones(samples: Seq<Single>, len: nat, i: int)
    requires
        0 <= i < cut(samples, len).len(),
    ensures
        cut(samples, len).len() <= len,
        cut(samples, len).len() == len || cut(samples, len) == samples,
        cut(samples, len)[i] == samples[i],
{
}

/// A decoder is open just if each step of its opening went well, and is refused for the
/// first that did not. Hardware counts only where it is asked for.
pub proof fn law_decoders_open_step_by_step(outcome: CodecOutcome, config: DecoderConfig)
    ensures
        outcome.refusal(config) is None <==> outcome.has_codec && outcome.has_context
            && outcome.parameters_code >= 0 && outcome.open_code >= 0 && (config.backend
            == DecoderBackend::Software || outcome.hardware is None),
        outcome.subtitle_refusal() is None <==> outcome.has_codec && outcome.has_context
            && outcome.parameters_code >= 0 && outcome.open_code >= 0,
        outcome.has_codec && outcome.has_context && outcome.parameters_code >= 0
            && outcome.open_code < 0 && config.backend == DecoderBackend::Software ==> (
        outcome.refusal(config) matches Some(FfmpegError::Api { code, .. }) && code
            == outcome.open_code),
        outcome.has_codec && outcome.has_context && outcome.parameters_code >= 0
            && outcome.open_code < 0 ==> (outcome.subtitle_refusal() matches Some(
            FfmpegError::Api { code, .. },
        ) && code == outcome.open_code),
        outcome.has_codec && outcome.has_context && outcome.parameters_code < 0 ==> (
        outcome.subtitle_refusal() matches Some(FfmpegError::Api { code, .. }) && code
            == outcome.parameters_code),
{
}

} // verus!
