//! What a media file holds.
use crate::ffmpeg::codes::{color_primaries, primaries_of, track_kind, transfer_function, transfer_of};
use crate::ffmpeg::stamp::{duration_from_av, span_of_micros, TimeBase};
use crate::media::{copy_text, text_view, TrackInfo, TrackKind, VideoParams};
use crate::subtitle::decoded::{SubtitleTrackConfig, SubtitleTrackSource};
use crate::time::{span_view, Duration};
use vstd::prelude::*;

verus! {

broadcast use vstd::seq_lib::group_seq_properties;

/// What a media file holds.
#[derive(Debug, Clone, PartialEq, Eq)]
pub struct MediaProbe {
    pub uri: String,
    pub duration: Option<Duration>,
    pub tracks: Vec<TrackInfo>,
    pub video: Vec<VideoProbe>,
    pub audio: Vec<AudioProbe>,
    pub subtitles: Vec<SubtitleTrackConfig>,
}

/// A video track.
#[derive(Debug, Clone, PartialEq, Eq)]
pub struct VideoProbe {
    pub track_id: i64,
    pub params: VideoParams,
    pub codec: Option<String>,
    pub pixel_format: Option<String>,
    pub profile: Option<String>,
    pub level: Option<i32>,
}

/// An audio track.
#[derive(Debug, Clone, PartialEq, Eq)]
pub struct AudioProbe {
    pub track_id: i64,
    pub codec: Option<String>,
    pub sample_rate: u32,
    pub channels: u32,
    pub sample_format: Option<String>,
}

/// What a demuxer tells of the codec of a stream.
#[derive(Debug, Clone, PartialEq, Eq)]
pub struct CodecDescriptor {
    pub media_type: i32,
    pub stream_index: i32,
    pub codec: Option<String>,
    pub title: Option<String>,
    pub language: Option<String>,
    pub width: i32,
    pub height: i32,
    pub primaries: i32,
    pub transfer: i32,
    pub level: i32,
    pub pixel_format: Option<String>,
    pub profile: Option<String>,
    pub sample_rate: i32,
    pub channels: i32,
    pub sample_format: Option<String>,
}

/// What a demuxer tells of a stream.
#[derive(Debug, Clone, PartialEq, Eq)]
pub struct StreamDescriptor {
    pub time_base_num: i32,
    pub time_base_den: i32,
    pub codec: Option<CodecDescriptor>,
}

/// A number that is not negative.
pub open spec fn non_negative(value: i32) -> nat {
    if value < 0 {
        0
    } else {
        value as nat
    }
}

pub(crate) fn to_non_negative(value: i32) -> (result: u32)
    ensures
        result == non_negative(value),
{
    if value < 0 {
        0
    } else {
        value as u32
    }
}

/// The kind of track that a codec makes, if it makes one.
pub open spec fn kind_of(codec: CodecDescriptor) -> Option<TrackKind> {
    match codec.media_type {
        0 => Some(TrackKind::Video),
        1 => Some(TrackKind::Audio),
        3 => Some(TrackKind::Subtitle),
        _ => None,
    }
}

/// Whether a track is that of a codec.
pub open spec fn is_track_of(track: TrackInfo, codec: CodecDescriptor) -> bool {
    &&& track.id == codec.stream_index
    &&& Some(track.kind) == kind_of(codec)
    &&& text_view(track.title) == text_view(codec.title)
    &&& text_view(track.language) == text_view(codec.language)
    &&& text_view(track.codec) == text_view(codec.codec)
    &&& !track.selected
    &&& !track.is_external
}

/// Whether a video track is that of a codec. A profile has a name only where the
/// codec has one, and a level is above zero.
pub open spec fn is_video_of(probe: VideoProbe, codec: CodecDescriptor) -> bool {
    &&& probe.track_id == codec.stream_index
    &&& probe.params.width == non_negative(codec.width)
    &&& probe.params.height == non_negative(codec.height)
    &&& probe.params.primaries == primaries_of(codec.primaries)
    &&& probe.params.transfer == transfer_of(codec.transfer)
    &&& text_view(probe.codec) == text_view(codec.codec)
    &&& text_view(probe.pixel_format) == text_view(codec.pixel_format)
    &&& text_view(probe.profile) == (if codec.codec is Some {
        text_view(codec.profile)
    } else {
        None
    })
    &&& probe.level == (if codec.level > 0 {
        Some(codec.level)
    } else {
        None
    })
}

/// Whether an audio track is that of a codec.
pub open spec fn is_audio_of(probe: AudioProbe, codec: CodecDescriptor) -> bool {
    &&& probe.track_id == codec.stream_index
    &&& text_view(probe.codec) == text_view(codec.codec)
    &&& probe.sample_rate == non_negative(codec.sample_rate)
    &&& probe.channels == non_negative(codec.channels)
    &&& text_view(probe.sample_format) == text_view(codec.sample_format)
}

/// Whether a subtitle track is that of a codec: a stream of the file.
pub open spec fn is_subtitle_of(config: SubtitleTrackConfig, codec: CodecDescriptor) -> bool {
    &&& config.id == codec.stream_index
    &&& config.source == (SubtitleTrackSource::Embedded { stream_index: codec.stream_index as i64 })
    &&& text_view(config.language) == text_view(codec.language)
    &&& text_view(config.title) == text_view(codec.title)
}

/// The codecs of the streams that make a track.
pub open spec fn track_codecs(streams: Seq<Option<StreamDescriptor>>) -> Seq<CodecDescriptor>
    decreases streams.len(),
{
    if streams.len() == 0 {
        Seq::empty()
    } else {
        let before = track_codecs(streams.drop_last());
        match streams.last() {
            Some(stream) => match stream.codec {
                Some(codec) => if kind_of(codec) is Some {
                    before.push(codec)
                } else {
                    before
                },
                None => before,
            },
            None => before,
        }
    }
}

/// The codecs of a kind.
pub open spec fn codecs_of_kind(codecs: Seq<CodecDescriptor>, kind: TrackKind) -> Seq<
    CodecDescriptor,
>
    decreases codecs.len(),
{
    if codecs.len() == 0 {
        Seq::empty()
    } else {
        let before = codecs_of_kind(codecs.drop_last(), kind);
        if kind_of(codecs.last()) == Some(kind) {
            before.push(codecs.last())
        } else {
            before
        }
    }
}

/// Whether a probe is that of some codecs.
pub open spec fn describes(probe: MediaProbe, codecs: Seq<CodecDescriptor>) -> bool {
    let video = codecs_of_kind(codecs, TrackKind::Video);
    let audio = codecs_of_kind(codecs, TrackKind::Audio);
    let subtitles = codecs_of_kind(codecs, TrackKind::Subtitle);
    &&& probe.tracks@.len() == codecs.len()
    &&& forall|i: int|
        0 <= i < codecs.len() ==> is_track_of(#[trigger] probe.tracks@[i], codecs[i])
    &&& probe.video@.len() == video.len()
    &&& forall|i: int| 0 <= i < video.len() ==> is_video_of(#[trigger] probe.video@[i], video[i])
    &&& probe.audio@.len() == audio.len()
    &&& forall|i: int| 0 <= i < audio.len() ==> is_audio_of(#[trigger] probe.audio@[i], audio[i])
    &&& probe.subtitles@.len() == subtitles.len()
    &&& forall|i: int|
        0 <= i < subtitles.len() ==> is_subtitle_of(#[trigger] probe.subtitles@[i], subtitles[i])
}

/// The time base of a stream: none for one that is not there, and none of use
/// for one that names zero.
pub open spec fn stream_base(stream: Option<StreamDescriptor>) -> Option<TimeBase> {
    match stream {
        Some(stream) => Some(
            if stream.time_base_den == 0 {
                TimeBase { num: 0, den: 1 }
            } else {
                TimeBase { num: stream.time_base_num, den: stream.time_base_den }
            },
        ),
        None => None,
    }
}

/// The video track of a codec.
pub fn video_probe(codec: &CodecDescriptor) -> (result: VideoProbe)
    ensures
        is_video_of(result, *codec),
{
    let profile = match codec.codec {
        Some(_) => copy_text(&codec.profile),
        None => None,
    };
    VideoProbe {
        track_id: codec.stream_index as i64,
        params: VideoParams {
            width: to_non_negative(codec.width),
            height: to_non_negative(codec.height),
            primaries: color_primaries(codec.primaries),
            transfer: transfer_function(codec.transfer),
        },
        codec: copy_text(&codec.codec),
        pixel_format: copy_text(&codec.pixel_format),
        profile,
        level: if codec.level > 0 {
            Some(codec.level)
        } else {
            None
        },
    }
}

/// The audio track of a codec.
pub fn audio_probe(codec: &CodecDescriptor) -> (result: AudioProbe)
    ensures
        is_audio_of(result, *codec),
{
    AudioProbe {
        track_id: codec.stream_index as i64,
        codec: copy_text(&codec.codec),
        sample_rate: to_non_negative(codec.sample_rate),
        channels: to_non_negative(codec.channels),
        sample_format: copy_text(&codec.sample_format),
    }
}

/// The subtitle track of a track: it cannot be taken out of the file.
pub fn subtitle_probe(track: &TrackInfo) -> (result: SubtitleTrackConfig)
    ensures
        result.id == track.id,
        result.source == (SubtitleTrackSource::Embedded { stream_index: track.id }),
        text_view(result.language) == text_view(track.language),
        text_view(result.title) == text_view(track.title),
{
    let mut config = SubtitleTrackConfig::embedded(track.id, track.id);
    config.language = copy_text(&track.language);
    config.title = copy_text(&track.title);
    config
}

/// Reads what a demuxer tells of the streams of a file.
pub fn inspect_format_context(
    uri: String,
    duration: i64,
    streams: &[Option<StreamDescriptor>],
) -> (result: (MediaProbe, Vec<Option<TimeBase>>))
    ensures
        result.0.uri@ == uri@,
        span_view(result.0.duration) == span_of_micros(duration),
        describes(result.0, track_codecs(streams@)),
        result.1@.len() == streams@.len(),
        forall|i: int|
            0 <= i < streams@.len() ==> #[trigger] result.1@[i] == stream_base(streams@[i]),
{
    let mut probe = MediaProbe {
        uri,
        duration: duration_from_av(duration),
        tracks: Vec::new(),
        video: Vec::new(),
        audio: Vec::new(),
        subtitles: Vec::new(),
    };
    let mut bases: Vec<Option<TimeBase>> = Vec::new();
    let mut index: usize = 0;
    assert(describes(probe, track_codecs(streams@.take(0))));
    while index < streams.len()
        invariant
            index <= streams@.len(),
            probe.uri@ == uri@,
            span_view(probe.duration) == (if duration <= 0 {
                None
            } else {
                Some((duration * 1_000) as nat)
            }),
            describes(probe, track_codecs(streams@.take(index as int))),
            bases@.len() == index,
            forall|i: int| 0 <= i < index ==> #[trigger] bases@[i] == stream_base(streams@[i]),
        decreases streams@.len() - index,
    {
        let ghost shorter = streams@.take(index as int);
        let ghost longer = streams@.take(index as int + 1);
        assert(longer.drop_last() =~= shorter);
        assert(longer.last() == streams@[index as int]);
        let ghost codecs = track_codecs(shorter);
        match &streams[index] {
            None => {
                bases.push(None);
            },
            Some(stream) => {
                bases.push(Some(TimeBase::from_av(stream.time_base_num, stream.time_base_den)));
                if let Some(codec) = &stream.codec {
                    if let Some(kind) = track_kind(codec.media_type) {
                        let mut track = TrackInfo::embedded(codec.stream_index as i64, kind);
                        track.title = copy_text(&codec.title);
                        track.language = copy_text(&codec.language);
                        track.codec = copy_text(&codec.codec);
                        assert(codecs.push(*codec).drop_last() =~= codecs);
                        match kind {
                            TrackKind::Video => probe.video.push(video_probe(codec)),
                            TrackKind::Audio => probe.audio.push(audio_probe(codec)),
                            TrackKind::Subtitle => probe.subtitles.push(subtitle_probe(&track)),
                        }
                        probe.tracks.push(track);
                        assert(describes(probe, codecs.push(*codec)));
                    }
                }
            },
        }
        index += 1;
    }
    assert(streams@.take(index as int) =~= streams@);
    (probe, bases)
}

/// What is told of a file is told of its streams in their order: a stream with a codec
/// of a known kind adds a track behind the others, and any other adds none.
pub proof fn law_streams_are_told_in_order(
    before: Seq<Option<StreamDescriptor>>,
    stream: StreamDescriptor,
)
    ensures
        track_codecs(Seq::empty()).len() == 0,
        track_codecs(before.push(None)) == track_codecs(before),
        stream.codec is None ==> track_codecs(before.push(Some(stream))) == track_codecs(before),
        stream.codec matches Some(codec) ==> {
            &&& codec.media_type == 0 || codec.media_type == 1 || codec.media_type == 3
                ==> track_codecs(before.push(Some(stream))) == track_codecs(before).push(codec)
            &&& codec.media_type != 0 && codec.media_type != 1 && codec.media_type != 3
                ==> track_codecs(before.push(Some(stream))) == track_codecs(before)
        },
{
    assert(before.push(None).drop_last() =~= before);
    assert(before.push(Some(stream)).drop_last() =~= before);
}

/// Each track stands for its stream: it has its index, its kind, its name, its
/// language and its codec, and is not selected yet.
pub proof fn law_tracks_stand_for_their_streams(
    probe: MediaProbe,
    codecs: Seq<CodecDescriptor>,
    i: int,
)
    requires
        describes(probe, codecs),
        0 <= i < codecs.len(),
    ensures
        ({
            let track = probe.tracks@[i];
            &&& track.id == codecs[i].stream_index
            &&& codecs[i].media_type == 0 ==> track.kind == TrackKind::Video
            &&& codecs[i].media_type == 1 ==> track.kind == TrackKind::Audio
            &&& codecs[i].media_type == 3 ==> track.kind == TrackKind::Subtitle
            &&& text_view(track.title) == text_view(codecs[i].title)
            &&& text_view(track.language) == text_view(codecs[i].language)
            &&& text_view(track.codec) == text_view(codecs[i].codec)
            &&& !track.selected
            &&& !track.is_external
        }),
{
    assert(is_track_of(probe.tracks@[i], codecs[i]));
}

/// The details of a stream are those of its codec: sizes and rates that are not
/// negative as they are, and others as none.
pub proof fn law_details_are_those_of_the_codec(
    video: VideoProbe,
    audio: AudioProbe,
    subtitle: SubtitleTrackConfig,
    codec: CodecDescriptor,
)
    ensures
        is_video_of(video, codec) ==> {
            &&& video.track_id == codec.stream_index
            &&& codec.width >= 0 ==> video.params.width == codec.width
            &&& codec.height >= 0 ==> video.params.height == codec.height
            &&& codec.width < 0 ==> video.params.width == 0
            &&& codec.level > 0 ==> video.level == Some(codec.level)
            &&& codec.level <= 0 ==> video.level is None
            &&& text_view(video.codec) == text_view(codec.codec)
            &&& text_view(video.pixel_format) == text_view(codec.pixel_format)
        },
        is_audio_of(audio, codec) ==> {
            &&& audio.track_id == codec.stream_index
            &&& codec.sample_rate >= 0 ==> audio.sample_rate == codec.sample_rate
            &&& codec.channels >= 0 ==> audio.channels == codec.channels
            &&& text_view(audio.codec) == text_view(codec.codec)
            &&& text_view(audio.sample_format) == text_view(codec.sample_format)
        },
        is_subtitle_of(subtitle, codec) ==> {
            &&& subtitle.id == codec.stream_index
            &&& subtitle.source matches SubtitleTrackSource::Embedded { stream_index }
                && stream_index == codec.stream_index
            &&& text_view(subtitle.language) == text_view(codec.language)
            &&& text_view(subtitle.title) == text_view(codec.title)
        },
{
}

/// The streams of a kind keep their order.
pub proof fn law_kinds_keep_their_order(
    before: Seq<CodecDescriptor>,
    codec: CodecDescriptor,
    kind: TrackKind,
)
    ensures
        codecs_of_kind(Seq::empty(), kind).len() == 0,
        kind_of(codec) == Some(kind) ==> codecs_of_kind(before.push(codec), kind)
            == codecs_of_kind(before, kind).push(codec),
        kind_of(codec) != Some(kind) ==> codecs_of_kind(before.push(codec), kind)
            == codecs_of_kind(before, kind),
{
    assert(before.push(codec).drop_last() =~= before);
}

} // verus!
