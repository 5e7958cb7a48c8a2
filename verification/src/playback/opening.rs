//! The streams of a file that is opened: which decoders are opened for them, and
//! whose packets are read.
use crate::ffmpeg::codes::kind_of_type;
use crate::ffmpeg::demuxer::Demuxer;
use crate::ffmpeg::stamp::{check_subtitle_kind, stream_exists, FfmpegError, StreamSelection};
use crate::media::TrackKind;
use crate::playback::session::{OpenPlan, PlaybackError, Result};
use vstd::prelude::*;

verus! {

/// What came of opening a decoder.
pub type DecoderOutcome = core::result::Result<(), FfmpegError>;

/// Why a stream cannot be decoded, if it is asked for: its parameters are not
/// there, or its decoder could not be opened.
pub open spec fn decoder_error(
    demuxer: Demuxer,
    stream: Option<i32>,
    outcome: DecoderOutcome,
) -> Option<FfmpegError> {
    match stream {
        None => None,
        Some(stream) => match demuxer.parameters_error(stream) {
            Some(error) => Some(error),
            None => match outcome {
                Err(error) => Some(error),
                Ok(_) => None,
            },
        },
    }
}

/// Whether the subtitles of a stream can be played: it is one of subtitles, and
/// its decoder could be opened.
pub open spec fn plays_subtitles(
    demuxer: Demuxer,
    stream: Option<i32>,
    decoder_opened: bool,
) -> bool {
    stream matches Some(stream) && demuxer.parameters_error(stream) is None && kind_of_type(
        demuxer.descriptors()[stream as int]->0.codec->0.media_type,
    ) == Some(TrackKind::Subtitle) && decoder_opened
}

/// The streams whose packets are read.
pub open spec fn opened_streams(plan: OpenPlan, with_subtitles: bool) -> Seq<i32> {
    let video = match plan.video {
        Some(stream) => seq![stream],
        None => Seq::empty(),
    };
    let audio = match plan.audio {
        Some(stream) => seq![stream],
        None => Seq::empty(),
    };
    let subtitle = if with_subtitles && plan.subtitle is Some {
        seq![plan.subtitle->0]
    } else {
        Seq::empty()
    };
    video + audio + subtitle
}

fn check_decoder(demuxer: &Demuxer, stream: Option<i32>, outcome: DecoderOutcome) -> (result:
    Result<()>)
    ensures
        match decoder_error(*demuxer, stream, outcome) {
            Some(refusal) => result matches Err(error) && error == PlaybackError::Ffmpeg(refusal),
            None => result is Ok,
        },
{
    if let Some(stream) = stream {
        if let Err(error) = demuxer.codec_parameters(stream) {
            return Err(PlaybackError::Ffmpeg(error));
        }
        if let Err(error) = outcome {
            return Err(PlaybackError::Ffmpeg(error));
        }
    }
    Ok(())
}

fn check_subtitles(demuxer: &Demuxer, stream: Option<i32>, decoder_opened: bool) -> (result: bool)
    ensures
        result == plays_subtitles(*demuxer, stream, decoder_opened),
{
    match stream {
        None => false,
        Some(stream) => match demuxer.codec_parameters(stream) {
            Err(_) => false,
            Ok(parameters) => check_subtitle_kind(parameters.kind()).is_ok() && decoder_opened,
        },
    }
}

/// Opens the streams of a plan, given what came of opening their decoders, and
/// tells whether subtitles are played. Video or audio that cannot be decoded is
/// an error; subtitles that cannot be are left out. Packets are then read of the
/// opened streams only or, where there are none, as before.
pub fn open_streams(
    demuxer: &mut Demuxer,
    plan: OpenPlan,
    video: DecoderOutcome,
    audio: DecoderOutcome,
    subtitle_decoder_opened: bool,
) -> (result: Result<bool>)
    requires
        old(demuxer).is_sound(),
    ensures
        final(demuxer).is_sound(),
        final(demuxer).descriptors() == old(demuxer).descriptors(),
        final(demuxer).told() == old(demuxer).told(),
        match decoder_error(*old(demuxer), plan.video, video) {
            Some(refusal) => {
                &&& result matches Err(error) && error == PlaybackError::Ffmpeg(refusal)
                &&& final(demuxer).selected() == old(demuxer).selected()
            },
            None => match decoder_error(*old(demuxer), plan.audio, audio) {
                Some(refusal) => {
                    &&& result matches Err(error) && error == PlaybackError::Ffmpeg(refusal)
                    &&& final(demuxer).selected() == old(demuxer).selected()
                },
                None => {
                    let with_subtitles = plays_subtitles(
                        *old(demuxer),
                        plan.subtitle,
                        subtitle_decoder_opened,
                    );
                    let streams = opened_streams(plan, with_subtitles);
                    &&& result matches Ok(opened) && opened == with_subtitles
                    &&& streams.len() == 0 ==> final(demuxer).selected() == old(demuxer).selected()
                    &&& streams.len() > 0 ==> final(demuxer).selected() is Only && forall|stream: i32|
                     #[trigger] final(demuxer).selected().takes(stream) <==> streams.contains(stream)
                },
            },
        },
{
    if let Err(error) = check_decoder(demuxer, plan.video, video) {
        return Err(error);
    }
    if let Err(error) = check_decoder(demuxer, plan.audio, audio) {
        return Err(error);
    }
    let with_subtitles = check_subtitles(demuxer, plan.subtitle, subtitle_decoder_opened);
    let mut streams: Vec<i32> = Vec::new();
    if let Some(stream) = plan.video {
        streams.push(stream);
    }
    if let Some(stream) = plan.audio {
        streams.push(stream);
    }
    if with_subtitles {
        if let Some(stream) = plan.subtitle {
            streams.push(stream);
        }
    }
    assert(streams@ =~= opened_streams(plan, with_subtitles));
    if streams.len() > 0 {
        let selection = StreamSelection::only(streams.as_slice());
        proof {
            assert forall|stream: i32| #[trigger] selection.takes(stream) implies stream_exists(
                demuxer.bases(),
                demuxer.told().tracks@,
                stream,
            ) by {
                let k = choose|k: int| 0 <= k < streams@.len() && streams@[k] == stream;
                assert(demuxer.parameters_error(stream) is None);
                assert(demuxer.bases()[stream as int] == crate::ffmpeg::probe::stream_base(
                    demuxer.descriptors()[stream as int],
                ));
            }
        }
        if let Err(error) = demuxer.set_stream_selection(selection) {
            return Err(PlaybackError::Ffmpeg(error));
        }
    }
    Ok(with_subtitles)
}

/// The streams that are opened are those of the plan, the picture first, then the sound,
/// then the subtitles if there are any to be decoded.
pub proof fn law_planned_streams_are_opened(plan: OpenPlan, with_subtitles: bool, stream: i32)
    ensures
        opened_streams(plan, with_subtitles).contains(stream) <==> plan.video == Some(stream)
            || plan.audio == Some(stream) || (with_subtitles && plan.subtitle == Some(stream)),
        plan.video matches Some(video) ==> opened_streams(plan, with_subtitles)[0] == video,
        plan.video is Some && plan.audio is Some ==> opened_streams(plan, with_subtitles)[1]
            == plan.audio->0,
        plan.video is None && plan.audio is Some ==> opened_streams(plan, with_subtitles)[0]
            == plan.audio->0,
        with_subtitles && plan.subtitle is Some ==> opened_streams(plan, with_subtitles).last()
            == plan.subtitle->0,
{
    let all = opened_streams(plan, with_subtitles);
    if plan.video == Some(stream) {
        assert(all[0] == stream);
    }
    if plan.audio == Some(stream) {
        if plan.video is Some {
            assert(all[1] == stream);
        } else {
            assert(all[0] == stream);
        }
    }
    if with_subtitles && plan.subtitle == Some(stream) {
        assert(all[all.len() - 1] == stream);
    }
}

/// A decoder fails to open for a stream that cannot be decoded, and for no other reason
/// than that its opening failed. No stream needs no decoder.
pub proof fn law_decoders_open_for_their_streams(
    demuxer: Demuxer,
    stream: i32,
    outcome: DecoderOutcome,
)
    ensures
        decoder_error(demuxer, None, outcome) is None,
        demuxer.parameters_error(stream) is Some ==> decoder_error(demuxer, Some(stream), outcome)
            == demuxer.parameters_error(stream),
        demuxer.parameters_error(stream) is None ==> (decoder_error(demuxer, Some(stream), outcome)
            is Some <==> outcome is Err),
        !(0 <= stream < demuxer.descriptors().len()) ==> decoder_error(
            demuxer,
            Some(stream),
            outcome,
        ) == Some(FfmpegError::UnknownStream(stream)),
        !plays_subtitles(demuxer, None, true),
        !plays_subtitles(demuxer, Some(stream), false),
        plays_subtitles(demuxer, Some(stream), true) ==> decoder_error(
            demuxer,
            Some(stream),
            outcome,
        ) == (match outcome {
            Err(error) => Some(error),
            Ok(_) => None,
        }),
{
}

} // verus!
