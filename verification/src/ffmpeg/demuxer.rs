//! What a demuxer tells of its streams, and which of their packets are read.
use crate::ffmpeg::codes::{kind_of_type, track_kind};
use crate::ffmpeg::packet::Packet;
use crate::ffmpeg::probe::{
    describes, inspect_format_context, stream_base, track_codecs, MediaProbe, StreamDescriptor,
};
use crate::ffmpeg::stamp::{
    base_of, check, has_stream, stream_exists, stream_time_base, unknown_stream, FfmpegError, Result,
    StreamSelection, TimeBase,
};
use crate::media::{copy_text, text_view, TrackKind};
use crate::text::chars_of;
use crate::time::span_view;
use vstd::prelude::*;

verus! {

/// The return code at the end of a file.
pub const AVERROR_EOF: i32 = -541_478_725;

/// What a decoder is opened with.
#[derive(Debug, Clone, PartialEq, Eq)]
pub struct CodecParameters {
    pub stream_index: i32,
    pub time_base: TimeBase,
    pub codec: Option<String>,
    pub media_type: i32,
}

impl CodecParameters {
    /// The stream.
    pub fn stream_index(&self) -> (result: i32)
        ensures
            result == self.stream_index,
    {
        self.stream_index
    }

    /// The time base of the stream.
    pub fn time_base(&self) -> (result: TimeBase)
        ensures
            result == self.time_base,
    {
        self.time_base
    }

    /// The name of the codec, if it has one.
    pub fn codec_name(&self) -> (result: Option<String>)
        ensures
            text_view(result) == text_view(self.codec),
    {
        copy_text(&self.codec)
    }

    /// The kind of track, if it is one.
    pub fn kind(&self) -> (result: Option<TrackKind>)
        ensures
            result == kind_of_type(self.media_type),
    {
        track_kind(self.media_type)
    }
}

/// What a read comes to.
#[derive(Debug)]
pub enum ReadStep {
    /// A packet of a stream that is read.
    Packet(Packet),
    /// A packet that nobody wants: the next one has to be read.
    Again,
    /// The file has ended.
    EndOfFile,
}

/// What came of the steps of opening a file. After one that failed, the others are
/// not taken.
#[derive(Debug)]
pub struct FormatOutcome {
    /// What opening returned.
    pub open_code: i32,
    /// Whether there is a context then.
    pub has_context: bool,
    /// What looking for streams returned.
    pub info_code: i32,
    /// What is told of a code that is an error.
    pub message: String,
    /// How long the file lasts, in microseconds.
    pub duration: i64,
    /// The streams.
    pub streams: Vec<Option<StreamDescriptor>>,
}

impl FormatOutcome {
    /// Why a file is not open, if so.
    pub open spec fn refusal(self, operation: &'static str) -> Option<FfmpegError> {
        if self.open_code < 0 {
            Some(FfmpegError::Api { operation, code: self.open_code, message: self.message })
        } else if !self.has_context {
            Some(FfmpegError::NullPointer("avformat_open_input"))
        } else if self.info_code < 0 {
            Some(
                FfmpegError::Api {
                    operation: "avformat_find_stream_info",
                    code: self.info_code,
                    message: self.message,
                },
            )
        } else {
            None
        }
    }
}

/// What came of the steps of opening a source that the player reads itself.
#[derive(Debug)]
pub struct SourceOutcome {
    /// Whether a buffer to read through could be made.
    pub has_buffer: bool,
    /// Whether the reader could be made.
    pub has_reader: bool,
    /// Whether a context to open could be made.
    pub has_format: bool,
    /// What came of opening it.
    pub format: FormatOutcome,
}

impl SourceOutcome {
    /// Why a source is not open, if so.
    pub open spec fn refusal(self) -> Option<FfmpegError> {
        if !self.has_buffer {
            Some(FfmpegError::NullPointer("av_malloc(avio buffer)"))
        } else if !self.has_reader {
            Some(FfmpegError::NullPointer("avio_alloc_context"))
        } else if !self.has_format {
            Some(FfmpegError::NullPointer("avformat_alloc_context"))
        } else {
            self.format.refusal("avformat_open_input(custom_io)")
        }
    }
}

/// Whether a path holds a zero byte, with which it cannot be handed on.
fn holds_nul(path: &str) -> (result: bool)
    ensures
        result == path@.contains('\0'),
{
    let chars = chars_of(path);
    let mut i: usize = 0;
    while i < chars.len()
        invariant
            i <= chars@.len(),
            chars@ == path@,
            forall|k: int| 0 <= k < i ==> chars@[k] != '\0',
        decreases chars@.len() - i,
    {
        if chars[i] == '\0' {
            assert(path@[i as int] == '\0');
            return true;
        }
        i += 1;
    }
    false
}

/// The streams of a file, and which of them are read.
#[derive(Debug)]
pub struct Demuxer {
    streams: Vec<Option<StreamDescriptor>>,
    probe: MediaProbe,
    stream_time_bases: Vec<Option<TimeBase>>,
    selection: StreamSelection,
}

impl Demuxer {
    /// The streams.
    pub closed spec fn descriptors(self) -> Seq<Option<StreamDescriptor>> {
        self.streams@
    }

    /// What the file holds.
    pub closed spec fn told(self) -> MediaProbe {
        self.probe
    }

    /// The time bases of the streams.
    pub closed spec fn bases(self) -> Seq<Option<TimeBase>> {
        self.stream_time_bases@
    }

    /// The streams that are read.
    pub closed spec fn selected(self) -> StreamSelection {
        self.selection
    }

    /// Whether each stream has the time base that it was described with.
    pub open spec fn is_sound(self) -> bool {
        self.bases() == Seq::new(self.descriptors().len(), |i: int| stream_base(self.descriptors()[i]))
    }

    /// Why the parameters of a stream cannot be had, if so.
    pub open spec fn parameters_error(self, stream_index: i32) -> Option<FfmpegError> {
        if !(0 <= stream_index < self.descriptors().len())
            || self.descriptors()[stream_index as int] is None {
            Some(FfmpegError::UnknownStream(stream_index))
        } else if self.descriptors()[stream_index as int]->0.codec is None {
            Some(FfmpegError::NullPointer("AVStream.codecpar"))
        } else {
            None
        }
    }

    /// The streams of a file that has been opened; all of them are read.
    pub fn open(uri: String, duration: i64, streams: Vec<Option<StreamDescriptor>>) -> (result:
        Self)
        ensures
            result.descriptors() == streams@,
            result.told().uri@ == uri@,
            span_view(result.told().duration) == (if duration <= 0 {
                None
            } else {
                Some((duration * 1_000) as nat)
            }),
            describes(result.told(), track_codecs(streams@)),
            result.bases() == Seq::new(streams@.len(), |i: int| stream_base(streams@[i])),
            result.selected() is All,
    {
        let (probe, stream_time_bases) = inspect_format_context(uri, duration, streams.as_slice());
        assert(stream_time_bases@ =~= Seq::new(
            streams@.len(),
            |i: int| stream_base(streams@[i]),
        ));
        Self { streams, probe, stream_time_bases, selection: StreamSelection::all() }
    }

    /// Whether these are the streams of a file that was just opened.
    pub open spec fn is_opened(self, uri: Seq<char>, outcome: FormatOutcome) -> bool {
        &&& self.is_sound()
        &&& self.descriptors() == outcome.streams@
        &&& self.told().uri@ == uri
        &&& span_view(self.told().duration) == (if outcome.duration <= 0 {
            None
        } else {
            Some((outcome.duration * 1_000) as nat)
        })
        &&& describes(self.told(), track_codecs(outcome.streams@))
        &&& self.selected() is All
    }

    fn from_format(uri: String, operation: &'static str, outcome: FormatOutcome) -> (result: Result<
        Self,
    >)
        ensures
            match outcome.refusal(operation) {
                Some(refusal) => result matches Err(error) && error == refusal,
                None => result matches Ok(demuxer) && demuxer.is_opened(uri@, outcome),
            },
    {
        if outcome.open_code < 0 {
            return Err(
                FfmpegError::Api { operation, code: outcome.open_code, message: outcome.message },
            );
        }
        if !outcome.has_context {
            return Err(FfmpegError::NullPointer("avformat_open_input"));
        }
        if let Err(error) = check(outcome.info_code, "avformat_find_stream_info", outcome.message) {
            return Err(error);
        }
        Ok(Self::open(uri, outcome.duration, outcome.streams))
    }

    /// Opens a file, given what came of it. A path with a zero byte is refused.
    pub fn open_uri(uri: String, outcome: FormatOutcome) -> (result: Result<Self>)
        ensures
            if uri@.contains('\0') {
                result matches Err(error) && error == FfmpegError::InteriorNul
            } else {
                match outcome.refusal("avformat_open_input") {
                    Some(refusal) => result matches Err(error) && error == refusal,
                    None => result matches Ok(demuxer) && demuxer.is_opened(uri@, outcome),
                }
            },
    {
        if holds_nul(uri.as_str()) {
            return Err(FfmpegError::InteriorNul);
        }
        Self::from_format(uri, "avformat_open_input", outcome)
    }

    /// Opens a source that the player reads itself, given what came of it.
    pub fn open_source(uri: String, outcome: SourceOutcome) -> (result: Result<Self>)
        ensures
            if uri@.contains('\0') {
                result matches Err(error) && error == FfmpegError::InteriorNul
            } else {
                match outcome.refusal() {
                    Some(refusal) => result matches Err(error) && error == refusal,
                    None => result matches Ok(demuxer) && demuxer.is_opened(uri@, outcome.format),
                }
            },
    {
        if holds_nul(uri.as_str()) {
            return Err(FfmpegError::InteriorNul);
        }
        if !outcome.has_buffer {
            return Err(FfmpegError::NullPointer("av_malloc(avio buffer)"));
        }
        if !outcome.has_reader {
            return Err(FfmpegError::NullPointer("avio_alloc_context"));
        }
        if !outcome.has_format {
            return Err(FfmpegError::NullPointer("avformat_alloc_context"));
        }
        Self::from_format(uri, "avformat_open_input(custom_io)", outcome.format)
    }

    /// Takes note of what putting the file to a position returned, and what
    /// forgetting the packets before it did.
    pub fn seek(&self, seek_code: i32, flush_code: i32, message: String) -> (result: Result<()>)
        ensures
            result is Ok <==> seek_code >= 0 && flush_code >= 0,
            result matches Err(error) ==> error == (if seek_code < 0 {
                FfmpegError::Api { operation: "av_seek_frame", code: seek_code, message }
            } else {
                FfmpegError::Api { operation: "avformat_flush", code: flush_code, message }
            }),
    {
        if seek_code < 0 {
            return Err(FfmpegError::Api { operation: "av_seek_frame", code: seek_code, message });
        }
        check(flush_code, "avformat_flush", message)
    }

    /// What the file holds.
    pub fn probe(&self) -> (result: &MediaProbe)
        ensures
            *result == self.told(),
    {
        &self.probe
    }

    /// The streams that are read.
    pub fn selection(&self) -> (result: &StreamSelection)
        ensures
            *result == self.selected(),
    {
        &self.selection
    }

    /// Reads other streams from now on, if all of them are there. Else the least
    /// one that is not is told.
    pub fn set_stream_selection(&mut self, selection: StreamSelection) -> (result: Result<()>)
        ensures
            final(self).descriptors() == old(self).descriptors(),
            final(self).told() == old(self).told(),
            final(self).bases() == old(self).bases(),
            result is Ok <==> (selection is Only ==> forall|stream: i32| #[trigger]
                selection.takes(stream) ==> stream_exists(
                    old(self).bases(),
                    old(self).told().tracks@,
                    stream,
                )),
            result is Ok ==> final(self).selected() == selection,
            result matches Err(error) ==> final(self).selected() == old(self).selected() && {
                let bases = old(self).bases();
                let tracks = old(self).told().tracks@;
                &&& error matches FfmpegError::UnknownStream(unknown)
                &&& selection.takes(unknown) && !stream_exists(bases, tracks, unknown)
                &&& forall|stream: i32| #[trigger]
                    selection.takes(stream) && stream < unknown ==> stream_exists(
                        bases,
                        tracks,
                        stream,
                    )
            },
    {
        match unknown_stream(
            &selection,
            self.stream_time_bases.as_slice(),
            self.probe.tracks.as_slice(),
        ) {
            Some(unknown) => Err(FfmpegError::UnknownStream(unknown)),
            None => {
                self.selection = selection;
                Ok(())
            },
        }
    }

    /// The time base of a stream, if the stream is there.
    pub fn stream_time_base(&self, stream_index: i32) -> (result: Option<TimeBase>)
        ensures
            result == base_of(self.bases(), stream_index),
    {
        stream_time_base(self.stream_time_bases.as_slice(), stream_index)
    }

    /// Whether a stream is there.
    pub fn has_stream(&self, stream_index: i32) -> (result: bool)
        ensures
            result == stream_exists(self.bases(), self.told().tracks@, stream_index),
    {
        has_stream(
            self.stream_time_bases.as_slice(),
            self.probe.tracks.as_slice(),
            stream_index,
        )
    }

    /// What a decoder for a stream is opened with. The stream has to be there,
    /// and to have a codec.
    pub fn codec_parameters(&self, stream_index: i32) -> (result: Result<CodecParameters>)
        ensures
            match self.parameters_error(stream_index) {
                Some(refusal) => result matches Err(error) && error == refusal,
                None => result matches Ok(parameters) && {
                    let stream = self.descriptors()[stream_index as int];
                    let codec = stream->0.codec->0;
                    &&& parameters.stream_index == stream_index
                    &&& Some(parameters.time_base) == stream_base(stream)
                    &&& text_view(parameters.codec) == text_view(codec.codec)
                    &&& parameters.media_type == codec.media_type
                },
            },
    {
        if stream_index < 0 || stream_index as usize >= self.streams.len() {
            return Err(FfmpegError::UnknownStream(stream_index));
        }
        match &self.streams[stream_index as usize] {
            None => Err(FfmpegError::UnknownStream(stream_index)),
            Some(stream) => match &stream.codec {
                None => Err(FfmpegError::NullPointer("AVStream.codecpar")),
                Some(codec) => Ok(
                    CodecParameters {
                        stream_index,
                        time_base: TimeBase::from_av(stream.time_base_num, stream.time_base_den),
                        codec: copy_text(&codec.codec),
                        media_type: codec.media_type,
                    },
                ),
            },
        }
    }

    /// Takes note of a read: a packet, or why there is none. A packet of a stream
    /// that is read gets the time base of its stream.
    pub fn read_packet(&self, code: i32, message: String, packet: Packet) -> (result: Result<
        ReadStep,
    >)
        ensures
            if code == AVERROR_EOF {
                result matches Ok(step) && step is EndOfFile
            } else if code < 0 {
                result matches Err(error) && error == (FfmpegError::Api {
                    operation: "av_read_frame",
                    code,
                    message,
                })
            } else if self.selected().takes(packet.stream_index) {
                result matches Ok(step) && step == ReadStep::Packet(
                    Packet { time_base: base_of(self.bases(), packet.stream_index), ..packet },
                )
            } else {
                result matches Ok(step) && step is Again
            },
    {
        if code == AVERROR_EOF {
            return Ok(ReadStep::EndOfFile);
        }
        if let Err(error) = crate::ffmpeg::stamp::check(code, "av_read_frame", message) {
            return Err(error);
        }
        let mut packet = packet;
        packet.time_base = self.stream_time_base(packet.stream_index);
        if self.selection.accepts(packet.stream_index) {
            Ok(ReadStep::Packet(packet))
        } else {
            Ok(ReadStep::Again)
        }
    }
}

/// Tells what a file holds, given what came of opening it.
pub fn probe_uri(uri: String, outcome: FormatOutcome) -> (result: Result<MediaProbe>)
    ensures
        if uri@.contains('\0') {
            result matches Err(error) && error == FfmpegError::InteriorNul
        } else {
            match outcome.refusal("avformat_open_input") {
                Some(refusal) => result matches Err(error) && error == refusal,
                None => result matches Ok(probe) && probe.uri@ == uri@ && describes(
                    probe,
                    track_codecs(outcome.streams@),
                ) && span_view(probe.duration) == (if outcome.duration <= 0 {
                    None
                } else {
                    Some((outcome.duration * 1_000) as nat)
                }),
            }
        },
{
    match Demuxer::open_uri(uri, outcome) {
        Err(error) => Err(error),
        Ok(demuxer) => Ok(demuxer.probe),
    }
}

/// An opened file is told of as it was found: by its name, with its length, to the
/// microsecond, if it has one, and with all of its streams.
pub proof fn law_opened_files_are_told_of(
    demuxer: Demuxer,
    uri: Seq<char>,
    outcome: FormatOutcome,
    stream_index: i32,
)
    requires
        demuxer.is_opened(uri, outcome),
    ensures
        demuxer.told().uri@ == uri,
        outcome.duration > 0 ==> span_view(demuxer.told().duration) == Some(
            (outcome.duration * 1_000) as nat,
        ),
        outcome.duration <= 0 ==> span_view(demuxer.told().duration) is None,
        demuxer.selected() is All,
        demuxer.parameters_error(stream_index) is None <==> 0 <= stream_index
            < outcome.streams@.len() && (outcome.streams@[stream_index as int] matches Some(stream)
            && stream.codec is Some),
        !(0 <= stream_index < outcome.streams@.len()) ==> demuxer.parameters_error(stream_index)
            == Some(FfmpegError::UnknownStream(stream_index)),
{
}

} // verus!
