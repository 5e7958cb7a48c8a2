//! The tracks and frame queues of an opened file.
//!
//! Reading packets and decoding them is done elsewhere: a session tells what is
//! to be done next, and takes what came of it.
use crate::ffmpeg::codes::{DecoderBackend, DecoderConfig};
use crate::ffmpeg::pcm::{PcmAudioFrame, PcmFormat, PcmSampleFormat};
use crate::ffmpeg::probe::{MediaProbe, VideoProbe};
use crate::ffmpeg::stamp::FfmpegError;
use crate::media::{
    copy_text, text_view, TrackInfo, TrackKind, TrackSelection, VideoParams,
};
use crate::num::{to_wrapped_i32, wrap_i32};
use crate::playback::schedule::PlaybackTimingConfig;
use crate::subtitle::decoded::{DecodedSubtitleFrame, SubtitleTrackConfig, SubtitleTrackSource};
use crate::text::{
    after_last, chars_of, find_after_last, has_char, is_space, law_trimming_takes_white_space,
    string_of, trim, trim_spec,
};
use crate::time::{sat_add, span_view, Duration, MAX_NANOS};
use std::collections::VecDeque;
use vstd::prelude::*;
use vstd::slice::slice_subrange;

verus! {

broadcast use vstd::seq_lib::group_seq_properties;

/// The most video frames that wait.
pub const VIDEO_FRAME_QUEUE_LIMIT: usize = 8;

/// The most audio frames that wait.
pub const AUDIO_FRAME_QUEUE_LIMIT: usize = 16;

/// The most subtitles that wait.
pub const SUBTITLE_FRAME_QUEUE_LIMIT: usize = 32;

/// How far ahead external subtitles are read, in nanoseconds.
pub const EXTERNAL_SUBTITLE_LOOKAHEAD: u64 = 5_000_000_000;

/// What can go wrong with playback.
#[derive(Debug)]
pub enum PlaybackError {
    Ffmpeg(FfmpegError),
    /// A source that cannot be read; holds why.
    Source(String),
    NoVideoTrack,
    UnexpectedDecoderOutput,
    NoSubtitleTrack,
    TrackNotFound { kind: TrackKind, track_id: i64 },
    SubtitleTrackNotRemovable(i64),
}

/// The result of an operation on playback.
pub type Result<T> = core::result::Result<T, PlaybackError>;

/// Who should decode video.
#[derive(Debug, Clone, Copy, PartialEq, Eq, Structural)]
pub enum VideoDecodePreference {
    Software,
    VideoToolbox,
    D3d11va,
}

impl VideoDecodePreference {
    /// How the decoder is to be opened.
    pub fn decoder_config(self) -> (result: DecoderConfig)
        ensures
            result.backend == (match self {
                VideoDecodePreference::Software => DecoderBackend::Software,
                VideoDecodePreference::VideoToolbox => DecoderBackend::VideoToolbox,
                VideoDecodePreference::D3d11va => DecoderBackend::D3d11va,
            }),
    {
        match self {
            VideoDecodePreference::Software => DecoderConfig::software(),
            VideoDecodePreference::VideoToolbox => DecoderConfig::videotoolbox(),
            VideoDecodePreference::D3d11va => DecoderConfig::d3d11va(),
        }
    }
}

/// How a file is to be played.
#[derive(Debug, Clone, Copy, PartialEq, Eq, Structural)]
pub struct PlaybackSessionConfig {
    pub video_decode: VideoDecodePreference,
    pub audio_output: PcmFormat,
    pub timing: PlaybackTimingConfig,
}

impl PlaybackSessionConfig {
    /// The usual way to play a file with a given decoder.
    pub fn with_decoder(video_decode: VideoDecodePreference) -> (result: Self)
        ensures
            result.video_decode == video_decode,
            result.audio_output == (PcmFormat {
                sample_rate: 48_000,
                channels: 2,
                sample_format: PcmSampleFormat::F32Interleaved,
            }),
            result.timing.is_default(),
    {
        Self {
            video_decode,
            audio_output: PcmFormat::default(),
            timing: PlaybackTimingConfig::default(),
        }
    }
}

/// What is known of an opened file.
#[derive(Debug, Clone, PartialEq, Eq)]
pub struct OpenedMediaInfo {
    pub uri: String,
    pub duration: Option<Duration>,
    pub tracks: Vec<TrackInfo>,
    pub video_params: Option<VideoParams>,
    pub selected_video_track: Option<i64>,
    pub selected_audio_track: Option<i64>,
    pub selected_subtitle_track: Option<i64>,
    pub subtitle_tracks: Vec<SubtitleTrackConfig>,
    pub video_decode_backend: Option<DecoderBackend>,
    pub audio_output: Option<PcmFormat>,
}

impl OpenedMediaInfo {
    /// The tracks that are played.
    pub fn track_selection(&self) -> (result: TrackSelection)
        ensures
            result == (TrackSelection {
                video: self.selected_video_track,
                audio: self.selected_audio_track,
                subtitle: self.selected_subtitle_track,
            }),
    {
        TrackSelection {
            video: self.selected_video_track,
            audio: self.selected_audio_track,
            subtitle: self.selected_subtitle_track,
        }
    }
}

// ---------------------------------------------------------------------------
// Items of tracks
// ---------------------------------------------------------------------------

/// Something that belongs to a track.
pub trait OfTrack {
    /// The id of the track.
    spec fn track(&self) -> i64;

    /// Returns the id of the track.
    fn get_track(&self) -> (result: i64)
        ensures
            result == self.track(),
    ;
}

impl OfTrack for TrackInfo {
    open spec fn track(&self) -> i64 {
        self.id
    }

    fn get_track(&self) -> (result: i64) {
        self.id
    }
}

impl OfTrack for SubtitleTrackConfig {
    open spec fn track(&self) -> i64 {
        self.id
    }

    fn get_track(&self) -> (result: i64) {
        self.id
    }
}

impl OfTrack for DecodedSubtitleFrame {
    open spec fn track(&self) -> i64 {
        self.track_id
    }

    fn get_track(&self) -> (result: i64) {
        self.track_id
    }
}

/// The items of other tracks.
pub open spec fn without<T: OfTrack>(items: Seq<T>, id: i64) -> Seq<T>
    decreases items.len(),
{
    if items.len() == 0 {
        Seq::empty()
    } else if items.last().track() == id {
        without(items.drop_last(), id)
    } else {
        without(items.drop_last(), id).push(items.last())
    }
}

/// The index of the first item of a track.
pub open spec fn index_of_track<T: OfTrack>(items: Seq<T>, id: i64, from: nat) -> Option<int>
    decreases items.len() - from,
{
    if from >= items.len() {
        None
    } else if items[from as int].track() == id {
        Some(from as int)
    } else {
        index_of_track(items, id, from + 1)
    }
}

fn keep_others<T: OfTrack>(items: Vec<T>, id: i64) -> (result: Vec<T>)
    ensures
        result@ == without(items@, id),
{
    let ghost all = items@;
    let mut result: Vec<T> = Vec::new();
    assert(all.take(0) =~= Seq::<T>::empty());
    for item in it: items
        invariant
            it.seq() == all,
            result@ == without(all.take(it.index()), id),
    {
        assert(all.take(it.index() + 1).drop_last() =~= all.take(it.index()));
        if item.get_track() != id {
            result.push(item);
        }
    }
    assert(all.take(all.len() as int) =~= all);
    result
}

fn keep_others_queued<T: OfTrack>(items: &mut VecDeque<T>, id: i64)
    ensures
        final(items)@ == without(old(items)@, id),
{
    let ghost all = items@;
    let count: usize = items.len();
    let mut i: usize = 0;
    assert(all.skip(0) =~= all);
    assert(all.take(0) =~= Seq::<T>::empty());
    assert(items@ =~= all.skip(0) + without(all.take(0), id));
    while i < count
        invariant
            i <= count == all.len(),
            items@ == all.skip(i as int) + without(all.take(i as int), id),
        decreases count - i,
    {
        let ghost kept = without(all.take(i as int), id);
        assert(all.take(i as int + 1).drop_last() =~= all.take(i as int));
        assert(items@[0] == all[i as int]);
        match items.pop_front() {
            Some(item) => {
                assert(item == all[i as int]);
                assert(items@ =~= all.skip(i as int + 1) + kept);
                if item.get_track() != id {
                    items.push_back(item);
                    assert(items@ =~= all.skip(i as int + 1) + kept.push(item));
                }
            },
            None => {},
        }
        i += 1;
    }
    assert(all.take(i as int) =~= all);
    assert(items@ =~= without(all, id));
}

fn find_track<T: OfTrack>(items: &Vec<T>, id: i64) -> (result: Option<usize>)
    ensures
        match index_of_track(items@, id, 0) {
            Some(at) => (result matches Some(k) && k == at) && 0 <= at < items@.len()
                && items@[at].track() == id,
            None => result is None,
        },
{
    let mut i: usize = 0;
    while i < items.len()
        invariant
            i <= items@.len(),
            index_of_track(items@, id, 0) == index_of_track(items@, id, i as nat),
        decreases items@.len() - i,
    {
        if items[i].get_track() == id {
            return Some(i);
        }
        i += 1;
    }
    None
}

// ---------------------------------------------------------------------------
// Selection
// ---------------------------------------------------------------------------

/// Whether a track is the selected one of its kind.
pub open spec fn is_selected(
    track: TrackInfo,
    video: Option<i64>,
    audio: Option<i64>,
    subtitle: Option<i64>,
) -> bool {
    Some(track.id) == match track.kind {
        TrackKind::Video => video,
        TrackKind::Audio => audio,
        TrackKind::Subtitle => subtitle,
    }
}

/// The tracks with the selected ones marked, and only those.
pub open spec fn marked(
    tracks: Seq<TrackInfo>,
    video: Option<i64>,
    audio: Option<i64>,
    subtitle: Option<i64>,
) -> Seq<TrackInfo> {
    Seq::new(
        tracks.len(),
        |i: int|
            TrackInfo { selected: is_selected(tracks[i], video, audio, subtitle), ..tracks[i] },
    )
}

fn is_same_id(selected: Option<i64>, id: i64) -> (result: bool)
    ensures
        result == (selected == Some(id)),
{
    match selected {
        Some(other) => other == id,
        None => false,
    }
}

/// Marks the selected tracks, and only those.
pub fn mark_selected_tracks(
    tracks: &mut Vec<TrackInfo>,
    selected_video: Option<i64>,
    selected_audio: Option<i64>,
    selected_subtitle: Option<i64>,
)
    ensures
        final(tracks)@ == marked(
            old(tracks)@,
            selected_video,
            selected_audio,
            selected_subtitle,
        ),
{
    let ghost all = tracks@;
    let ghost wanted = marked(all, selected_video, selected_audio, selected_subtitle);
    let mut i: usize = 0;
    while i < tracks.len()
        invariant
            i <= tracks@.len(),
            tracks@.len() == all.len(),
            wanted == marked(all, selected_video, selected_audio, selected_subtitle),
            forall|k: int| 0 <= k < i ==> tracks@[k] == wanted[k],
            forall|k: int| i <= k < all.len() ==> tracks@[k] == all[k],
        decreases tracks@.len() - i,
    {
        let id: i64 = tracks[i].id;
        let selected = match tracks[i].kind {
            TrackKind::Video => is_same_id(selected_video, id),
            TrackKind::Audio => is_same_id(selected_audio, id),
            TrackKind::Subtitle => is_same_id(selected_subtitle, id),
        };
        tracks[i].selected = selected;
        i += 1;
    }
    assert(tracks@ =~= wanted);
}

/// Marking is idempotent, and leaves ids and kinds alone.
pub proof fn law_marking_settles(
    tracks: Seq<TrackInfo>,
    video: Option<i64>,
    audio: Option<i64>,
    subtitle: Option<i64>,
)
    ensures
        marked(marked(tracks, video, audio, subtitle), video, audio, subtitle) == marked(
            tracks,
            video,
            audio,
            subtitle,
        ),
        forall|i: int|
            0 <= i < tracks.len() ==> (#[trigger] marked(tracks, video, audio, subtitle)[i]).id
                == tracks[i].id && marked(tracks, video, audio, subtitle)[i].kind == tracks[i].kind,
{
    assert(marked(marked(tracks, video, audio, subtitle), video, audio, subtitle) =~= marked(
        tracks,
        video,
        audio,
        subtitle,
    ));
}

/// The id of the first track of a kind.
pub open spec fn first_of_kind(tracks: Seq<TrackInfo>, kind: TrackKind) -> Option<i64>
    decreases tracks.len(),
{
    if tracks.len() == 0 {
        None
    } else if tracks[0].kind == kind {
        Some(tracks[0].id)
    } else {
        first_of_kind(tracks.skip(1), kind)
    }
}

/// A track id as the index of a stream: its low bits.
pub open spec fn stream_of_id(id: i64) -> i32 {
    wrap_i32((id as int % 0x1_0000_0000) as nat)
}

fn to_stream(id: i64) -> (result: i32)
    ensures
        result == stream_of_id(id),
{
    let low: i128 = if id < 0 {
        let rest: i128 = (-(id as i128)) % 0x1_0000_0000;
        if rest == 0 {
            0
        } else {
            0x1_0000_0000 - rest
        }
    } else {
        id as i128 % 0x1_0000_0000
    };
    assert(low == id as int % 0x1_0000_0000);
    to_wrapped_i32(low as u32)
}

fn find_first(tracks: &Vec<TrackInfo>, kind: TrackKind) -> (result: Option<i32>)
    ensures
        result == stream_of(first_of_kind(tracks@, kind)),
{
    let mut i: usize = 0;
    assert(tracks@.skip(0) =~= tracks@);
    while i < tracks.len()
        invariant
            i <= tracks@.len(),
            first_of_kind(tracks@, kind) == first_of_kind(tracks@.skip(i as int), kind),
        decreases tracks@.len() - i,
    {
        assert(tracks@.skip(i as int)[0] == tracks@[i as int]);
        assert(tracks@.skip(i as int).skip(1) =~= tracks@.skip(i as int + 1));
        if tracks[i].kind == kind {
            return Some(to_stream(tracks[i].id));
        }
        i += 1;
    }
    None
}

/// The stream of an optional track.
pub open spec fn stream_of(id: Option<i64>) -> Option<i32> {
    match id {
        Some(id) => Some(stream_of_id(id)),
        None => None,
    }
}

/// The streams that a file is opened with: the first one of each kind.
#[derive(Debug, Clone, Copy, PartialEq, Eq, Structural)]
pub struct OpenPlan {
    pub video: Option<i32>,
    pub audio: Option<i32>,
    pub subtitle: Option<i32>,
}

/// Plans the opening of a file.
pub fn plan_open(probe: &MediaProbe) -> (result: OpenPlan)
    ensures
        result == (OpenPlan {
            video: stream_of(first_of_kind(probe.tracks@, TrackKind::Video)),
            audio: stream_of(first_of_kind(probe.tracks@, TrackKind::Audio)),
            subtitle: stream_of(first_of_kind(probe.tracks@, TrackKind::Subtitle)),
        }),
{
    OpenPlan {
        video: find_first(&probe.tracks, TrackKind::Video),
        audio: find_first(&probe.tracks, TrackKind::Audio),
        subtitle: find_first(&probe.tracks, TrackKind::Subtitle),
    }
}

/// The size and colours of the first video track with an id.
pub open spec fn params_of(video: Seq<VideoProbe>, id: i64) -> Option<VideoParams>
    decreases video.len(),
{
    if video.len() == 0 {
        None
    } else if video[0].track_id == id {
        Some(video[0].params)
    } else {
        params_of(video.skip(1), id)
    }
}

fn find_params(video: &Vec<VideoProbe>, id: i64) -> (result: Option<VideoParams>)
    ensures
        result == params_of(video@, id),
{
    let mut i: usize = 0;
    assert(video@.skip(0) =~= video@);
    while i < video.len()
        invariant
            i <= video@.len(),
            params_of(video@, id) == params_of(video@.skip(i as int), id),
        decreases video@.len() - i,
    {
        assert(video@.skip(i as int)[0] == video@[i as int]);
        assert(video@.skip(i as int).skip(1) =~= video@.skip(i as int + 1));
        if video[i].track_id == id {
            return Some(video[i].params);
        }
        i += 1;
    }
    None
}

/// A stream as a track id.
pub open spec fn id_of(stream: Option<i32>) -> Option<i64> {
    match stream {
        Some(stream) => Some(stream as i64),
        None => None,
    }
}

fn to_id(stream: Option<i32>) -> (result: Option<i64>)
    ensures
        result == id_of(stream),
{
    match stream {
        Some(stream) => Some(stream as i64),
        None => None,
    }
}

// ---------------------------------------------------------------------------
// Subtitle queues
// ---------------------------------------------------------------------------

/// The next subtitle.
#[derive(Debug, Clone, Copy, PartialEq, Eq, Structural)]
pub enum SubtitleQueueCandidate {
    /// One of the file.
    Embedded { start: Duration },
    /// One of an external track.
    External { index: usize, start: Duration },
}

/// The next subtitle, with its start in nanoseconds.
pub enum CandidateModel {
    Embedded { start: nat },
    External { index: usize, start: nat },
}

impl View for SubtitleQueueCandidate {
    type V = CandidateModel;

    open spec fn view(&self) -> CandidateModel {
        match *self {
            SubtitleQueueCandidate::Embedded { start } => CandidateModel::Embedded {
                start: start@,
            },
            SubtitleQueueCandidate::External { index, start } => CandidateModel::External {
                index,
                start: start@,
            },
        }
    }
}

impl SubtitleQueueCandidate {
    /// When the subtitle starts.
    pub fn start(&self) -> (result: Duration)
        ensures
            result == (match *self {
                SubtitleQueueCandidate::Embedded { start } => start,
                SubtitleQueueCandidate::External { start, .. } => start,
            }),
    {
        match self {
            SubtitleQueueCandidate::Embedded { start } => *start,
            SubtitleQueueCandidate::External { start, .. } => *start,
        }
    }
}

/// The earliest of some starts that is not ahead of a time; of two, the first.
pub open spec fn earliest_ready(starts: Seq<(usize, nat)>, media_time: nat) -> Option<(usize, nat)>
    decreases starts.len(),
{
    if starts.len() == 0 {
        None
    } else {
        let before = earliest_ready(starts.drop_last(), media_time);
        let last = starts.last();
        if last.1 > media_time {
            before
        } else {
            match before {
                Some(best) => if last.1 < best.1 {
                    Some(last)
                } else {
                    before
                },
                None => Some(last),
            }
        }
    }
}

/// The subtitle that is shown next, if one is ready: the earliest; of two, an
/// external one before one of the file.
pub open spec fn ready_candidate(
    embedded: Option<nat>,
    externals: Seq<(usize, nat)>,
    media_time: nat,
) -> Option<CandidateModel> {
    let is_ready = embedded is Some && embedded->0 <= media_time;
    match earliest_ready(externals, media_time) {
        Some((index, start)) => if is_ready && embedded->0 < start {
            Some(CandidateModel::Embedded { start: embedded->0 })
        } else {
            Some(CandidateModel::External { index, start })
        },
        None => if is_ready {
            Some(CandidateModel::Embedded { start: embedded->0 })
        } else {
            None
        },
    }
}

/// Starts in nanoseconds.
pub open spec fn starts_view(starts: Seq<(usize, Duration)>) -> Seq<(usize, nat)> {
    Seq::new(starts.len(), |i: int| (starts[i].0, starts[i].1@))
}

/// A candidate with its start in nanoseconds.
pub open spec fn candidate_view(candidate: Option<SubtitleQueueCandidate>) -> Option<
    CandidateModel,
> {
    match candidate {
        Some(candidate) => Some(candidate@),
        None => None,
    }
}

/// Selects the subtitle that is shown next.
pub fn select_ready_subtitle(
    embedded_start: Option<Duration>,
    external_starts: &[(usize, Duration)],
    media_time: Duration,
) -> (result: Option<SubtitleQueueCandidate>)
    ensures
        candidate_view(result) == ready_candidate(
            span_view(embedded_start),
            starts_view(external_starts@),
            media_time@,
        ),
{
    let ghost starts = starts_view(external_starts@);
    let mut best: Option<(usize, Duration)> = None;
    let mut i: usize = 0;
    while i < external_starts.len()
        invariant
            i <= external_starts@.len(),
            starts == starts_view(external_starts@),
            match earliest_ready(starts.take(i as int), media_time@) {
                Some((index, start)) => best matches Some((k, time)) && k == index && time@
                    == start,
                None => best is None,
            },
        decreases external_starts@.len() - i,
    {
        assert(starts.take(i as int + 1).drop_last() =~= starts.take(i as int));
        let (index, start) = external_starts[i];
        if !media_time.is_before(start) {
            let better = match best {
                Some((_, other)) => start.is_before(other),
                None => true,
            };
            if better {
                best = Some((index, start));
            }
        }
        i += 1;
    }
    assert(starts.take(i as int) =~= starts);
    match best {
        Some((index, start)) => {
            if let Some(embedded) = embedded_start {
                if !media_time.is_before(embedded) && embedded.is_before(start) {
                    return Some(SubtitleQueueCandidate::Embedded { start: embedded });
                }
            }
            Some(SubtitleQueueCandidate::External { index, start })
        },
        None => {
            if let Some(embedded) = embedded_start {
                if !media_time.is_before(embedded) {
                    return Some(SubtitleQueueCandidate::Embedded { start: embedded });
                }
            }
            None
        },
    }
}

/// The start of the subtitle that is shown next, in nanoseconds.
pub open spec fn candidate_start(candidate: CandidateModel) -> nat {
    match candidate {
        CandidateModel::Embedded { start } => start,
        CandidateModel::External { start, .. } => start,
    }
}

/// The subtitle that is shown next is not ahead of its time, and none that waits
/// starts before it; where none is shown, all that wait are ahead.
pub proof fn law_ready_subtitle_is_the_earliest(
    embedded: Option<nat>,
    externals: Seq<(usize, nat)>,
    media_time: nat,
)
    ensures
        match ready_candidate(embedded, externals, media_time) {
            Some(candidate) => {
                &&& candidate_start(candidate) <= media_time
                &&& embedded is Some ==> candidate_start(candidate) <= embedded->0
                &&& forall|i: int|
                    0 <= i < externals.len() ==> candidate_start(candidate) <= (
                    #[trigger] externals[i]).1
                &&& candidate matches CandidateModel::External { index, start }
                    ==> externals.contains((index, start))
                &&& candidate matches CandidateModel::Embedded { start } ==> embedded == Some(start)
            },
            None => {
                &&& embedded is Some ==> embedded->0 > media_time
                &&& forall|i: int|
                    0 <= i < externals.len() ==> (#[trigger] externals[i]).1 > media_time
            },
        },
{
    lemma_earliest_ready(externals, media_time);
}

proof fn lemma_earliest_ready(starts: Seq<(usize, nat)>, media_time: nat)
    ensures
        match earliest_ready(starts, media_time) {
            Some(best) => {
                &&& best.1 <= media_time
                &&& starts.contains(best)
                &&& forall|i: int| 0 <= i < starts.len() ==> best.1 <= (#[trigger] starts[i]).1
            },
            None => forall|i: int| 0 <= i < starts.len() ==> (#[trigger] starts[i]).1 > media_time,
        },
    decreases starts.len(),
{
    if starts.len() > 0 {
        let shorter = starts.drop_last();
        lemma_earliest_ready(shorter, media_time);
        assert(starts[starts.len() - 1] == starts.last());
        assert forall|i: int| 0 <= i < shorter.len() implies shorter[i] == #[trigger] starts[i] by {}
        match earliest_ready(shorter, media_time) {
            Some(best) => {
                let k = choose|k: int| 0 <= k < shorter.len() && shorter[k] == best;
                assert(starts[k] == best);
            },
            None => {},
        }
        match earliest_ready(starts, media_time) {
            Some(best) => {
                assert forall|i: int| 0 <= i < starts.len() implies best.1 <= (
                #[trigger] starts[i]).1 by {
                    if i < shorter.len() {
                        assert(shorter[i] == starts[i]);
                    }
                }
            },
            None => {
                assert forall|i: int| 0 <= i < starts.len() implies (#[trigger] starts[i]).1
                    > media_time by {
                    if i < shorter.len() {
                        assert(shorter[i] == starts[i]);
                    }
                }
            },
        }
    }
}

/// When a decoded subtitle starts; one without a start does so at once.
pub open spec fn start_or_zero(frame: DecodedSubtitleFrame) -> nat {
    match frame.start {
        Some(start) => start@,
        None => 0,
    }
}

/// When a decoded subtitle starts.
pub fn decoded_subtitle_start(frame: &DecodedSubtitleFrame) -> (result: Duration)
    ensures
        result@ == start_or_zero(*frame),
{
    match frame.start {
        Some(start) => start,
        None => Duration::zero(),
    }
}

/// A frame that clears the subtitles of a track.
pub open spec fn clears(frame: DecodedSubtitleFrame, track_id: i64, media_time: nat) -> bool {
    &&& frame.track_id == track_id
    &&& frame.start matches Some(start) && start@ == media_time
    &&& frame.end is None
    &&& frame.text@.len() == 0
    &&& frame.bitmap.planes@.len() == 0
    &&& !frame.forced
}

/// A frame that clears the subtitles of a track, if there is one.
pub fn clear_subtitle_frame(track_id: Option<i64>, media_time: Duration) -> (result: Option<
    DecodedSubtitleFrame,
>)
    ensures
        result is Some <==> track_id is Some,
        result matches Some(frame) ==> clears(frame, track_id->0, media_time@),
{
    match track_id {
        Some(id) => Some(DecodedSubtitleFrame::new(id, Some(media_time), None)),
        None => None,
    }
}

// ---------------------------------------------------------------------------
// External subtitles
// ---------------------------------------------------------------------------

/// The title of an external subtitle: the last part of its address.
pub open spec fn title_of(uri: Seq<char>) -> Option<Seq<char>> {
    let leaf = trim_spec(uri.skip(after_last(uri, '/') as int));
    if leaf.len() == 0 {
        None
    } else {
        Some(leaf)
    }
}

/// The title of an external subtitle.
pub fn external_subtitle_title(uri: &str) -> (result: Option<String>)
    ensures
        text_view(result) == title_of(uri@),
{
    let chars = chars_of(uri);
    let at: usize = find_after_last(&chars, '/');
    let rest = slice_subrange(chars.as_slice(), at, chars.len());
    assert(rest@ =~= uri@.skip(at as int));
    let leaf = trim(rest);
    if leaf.len() == 0 {
        None
    } else {
        Some(string_of(leaf))
    }
}

/// The first of two texts that is there.
pub open spec fn text_or(first: Option<Seq<char>>, second: Option<Seq<char>>) -> Option<Seq<char>> {
    match first {
        Some(text) => Some(text),
        None => second,
    }
}

fn copy_first(first: Option<String>, second: &Option<String>) -> (result: Option<String>)
    ensures
        text_view(result) == text_or(text_view(first), text_view(*second)),
{
    match first {
        Some(text) => Some(text),
        None => copy_text(second),
    }
}

/// The first subtitle track that is a stream of its file.
pub open spec fn first_embedded(tracks: Seq<SubtitleTrackConfig>) -> Option<SubtitleTrackConfig>
    decreases tracks.len(),
{
    if tracks.len() == 0 {
        None
    } else if tracks[0].source is Embedded {
        Some(tracks[0])
    } else {
        first_embedded(tracks.skip(1))
    }
}

fn find_embedded(tracks: &Vec<SubtitleTrackConfig>) -> (result: Option<usize>)
    ensures
        match first_embedded(tracks@) {
            Some(track) => result matches Some(k) && k < tracks@.len() && tracks@[k as int] == track,
            None => result is None,
        },
{
    let mut i: usize = 0;
    assert(tracks@.skip(0) =~= tracks@);
    while i < tracks.len()
        invariant
            i <= tracks@.len(),
            first_embedded(tracks@) == first_embedded(tracks@.skip(i as int)),
        decreases tracks@.len() - i,
    {
        assert(tracks@.skip(i as int)[0] == tracks@[i as int]);
        assert(tracks@.skip(i as int).skip(1) =~= tracks@.skip(i as int + 1));
        if tracks[i].source.is_embedded() {
            return Some(i);
        }
        i += 1;
    }
    None
}

/// The address of an external track. A stream of a file is refused.
pub fn external_subtitle_uri(config: &SubtitleTrackConfig) -> (result: Result<String>)
    ensures
        match config.source {
            SubtitleTrackSource::Embedded { stream_index } => result matches Err(error) && error
                == PlaybackError::SubtitleTrackNotRemovable(stream_index),
            SubtitleTrackSource::External { uri } => result matches Ok(found) && found@ == uri@,
        },
{
    match &config.source {
        SubtitleTrackSource::Embedded { stream_index } => Err(
            PlaybackError::SubtitleTrackNotRemovable(*stream_index),
        ),
        SubtitleTrackSource::External { uri } => Ok(uri.clone()),
    }
}

/// The subtitles of an external file that wait.
#[derive(Debug)]
pub struct ExternalSubtitleSession {
    pub track: SubtitleTrackConfig,
    pub frames: VecDeque<DecodedSubtitleFrame>,
    pub eof: bool,
}

impl OfTrack for ExternalSubtitleSession {
    open spec fn track(&self) -> i64 {
        self.track.id
    }

    fn get_track(&self) -> (result: i64) {
        self.track.id
    }
}

impl ExternalSubtitleSession {
    /// Whether more has to be read: there is room, the file has not ended, and
    /// the last subtitle is not far ahead.
    pub open spec fn is_short(self, media_time: nat) -> bool {
        &&& self.frames@.len() < SUBTITLE_FRAME_QUEUE_LIMIT
        &&& !self.eof
        &&& !(self.frames@.len() > 0 && self.frames@.last().start is Some
            && self.frames@.last().start->0@ > sat_add(
            media_time,
            EXTERNAL_SUBTITLE_LOOKAHEAD as nat,
        ))
    }

    /// The start of the first subtitle, if there is one.
    pub open spec fn first_start(self) -> Option<nat> {
        if self.frames@.len() > 0 {
            Some(start_or_zero(self.frames@[0]))
        } else {
            None
        }
    }

    /// An external track in a file with given tracks, and the stream to decode:
    /// the first with subtitles. Language and title are those of the track, else
    /// those of the file; the last resort for a title is the address.
    pub fn open(config: SubtitleTrackConfig, probe: &MediaProbe) -> (result: Result<(Self, i32)>)
        ensures
            match config.source {
                SubtitleTrackSource::Embedded { stream_index } => result matches Err(error)
                    && error == PlaybackError::SubtitleTrackNotRemovable(stream_index),
                SubtitleTrackSource::External { uri } => match first_of_kind(
                    probe.tracks@,
                    TrackKind::Subtitle,
                ) {
                    None => result matches Err(error) && error == PlaybackError::NoSubtitleTrack,
                    Some(id) => result matches Ok((opened, stream)) && {
                        let probed = first_embedded(probe.subtitles@);
                        let language = match probed {
                            Some(probed) => text_view(probed.language),
                            None => None,
                        };
                        let title = match probed {
                            Some(probed) => text_view(probed.title),
                            None => None,
                        };
                        &&& stream == stream_of_id(id)
                        &&& opened.track.id == config.id
                        &&& opened.track.source == config.source
                        &&& text_view(opened.track.language) == text_or(
                            text_view(config.language),
                            language,
                        )
                        &&& text_view(opened.track.title) == text_or(
                            text_or(text_view(config.title), title),
                            title_of(uri@),
                        )
                        &&& opened.frames@.len() == 0
                        &&& !opened.eof
                    },
                },
            },
    {
        let uri = match external_subtitle_uri(&config) {
            Ok(uri) => uri,
            Err(error) => {
                return Err(error);
            },
        };
        let stream: i32 = match find_first(&probe.tracks, TrackKind::Subtitle) {
            Some(stream) => stream,
            None => {
                return Err(PlaybackError::NoSubtitleTrack);
            },
        };
        let mut language = config.language;
        let mut title = config.title;
        if let Some(at) = find_embedded(&probe.subtitles) {
            language = copy_first(language, &probe.subtitles[at].language);
            title = copy_first(title, &probe.subtitles[at].title);
        }
        if title.is_none() {
            title = external_subtitle_title(uri.as_str());
        }
        let track = SubtitleTrackConfig { id: config.id, source: config.source, language, title };
        Ok((Self { track, frames: VecDeque::new(), eof: false }, stream))
    }

    /// Whether more has to be read before a media time is reached.
    pub fn needs_more(&self, media_time: Duration) -> (result: bool)
        ensures
            result == self.is_short(media_time@),
    {
        if self.frames.len() >= SUBTITLE_FRAME_QUEUE_LIMIT || self.eof {
            return false;
        }
        if self.frames.len() > 0 {
            let last: &DecodedSubtitleFrame = &self.frames[self.frames.len() - 1];
            let lookahead = media_time.saturating_add(
                Duration::from_nanos(EXTERNAL_SUBTITLE_LOOKAHEAD),
            );
            if let Some(start) = last.start {
                if lookahead.is_before(start) {
                    return false;
                }
            }
        }
        true
    }

    /// Takes a decoded subtitle as one of this track.
    pub fn push(&mut self, frame: DecodedSubtitleFrame)
        ensures
            final(self).frames@ == old(self).frames@.push(
                DecodedSubtitleFrame { track_id: old(self).track.id, ..frame },
            ),
            final(self).track == old(self).track,
            final(self).eof == old(self).eof,
    {
        let frame = frame.with_track_id(self.track.id);
        self.frames.push_back(frame);
    }

    /// Takes note that the file has ended.
    pub fn mark_eof(&mut self)
        ensures
            final(self).eof,
            final(self).track == old(self).track,
            final(self).frames == old(self).frames,
    {
        self.eof = true;
    }

    /// When the first subtitle starts, if there is one.
    pub fn peek_start(&self) -> (result: Option<Duration>)
        ensures
            span_view(result) == self.first_start(),
    {
        if self.frames.len() > 0 {
            Some(decoded_subtitle_start(&self.frames[0]))
        } else {
            None
        }
    }

    /// Takes the first subtitle out.
    pub fn pop_front(&mut self) -> (result: Option<DecodedSubtitleFrame>)
        ensures
            final(self).track == old(self).track,
            final(self).eof == old(self).eof,
            match result {
                Some(frame) => old(self).frames@.len() > 0 && frame == old(self).frames@[0]
                    && final(self).frames@ == old(self).frames@.skip(1),
                None => old(self).frames@.len() == 0 && final(self).frames@ == old(self).frames@,
            },
    {
        let frame = self.frames.pop_front();
        proof {
            if old(self).frames@.len() > 0 {
                assert(self.frames@ =~= old(self).frames@.skip(1));
            }
        }
        frame
    }

    /// Forgets what was read, after the file was put to another position.
    pub fn seek(&mut self)
        ensures
            final(self).frames@.len() == 0,
            !final(self).eof,
            final(self).track == old(self).track,
    {
        self.frames.clear();
        self.eof = false;
    }
}

// ---------------------------------------------------------------------------
// Session
// ---------------------------------------------------------------------------

/// The decoder that a packet goes to.
#[derive(Debug, Clone, Copy, PartialEq, Eq, Structural)]
pub enum PacketRoute {
    Video,
    Audio,
    Subtitle,
    Nowhere,
}

/// What a queue has for its caller.
pub enum Pull<T> {
    /// The next frame.
    Frame(T),
    /// Nothing, and nothing to wait for.
    Nothing,
    /// Nothing before another packet has been read.
    Pump,
}

/// What has to be done to play a subtitle track.
#[derive(Debug, Clone, Copy, PartialEq, Eq, Structural)]
pub enum SubtitleSelectionPlan {
    /// A decoder has to be opened for a stream.
    OpenDecoder(i32),
    /// The decoder is not needed.
    CloseDecoder,
}

/// An opened file: what is known of it, the streams that are decoded, and the
/// frames that wait. The video frames are of whatever kind the decoder makes.
pub struct PlaybackSession<V> {
    pub info: OpenedMediaInfo,
    pub video_stream: Option<i32>,
    pub audio_stream: Option<i32>,
    pub subtitle_stream: Option<i32>,
    pub external_subtitles: Vec<ExternalSubtitleSession>,
    pub audio_output: PcmFormat,
    pub video_frames: VecDeque<V>,
    pub audio_frames: VecDeque<PcmAudioFrame>,
    pub subtitle_frames: VecDeque<DecodedSubtitleFrame>,
    pub eof: bool,
}

/// The stream of an id that fits into a stream index.
pub open spec fn exact_stream(id: i64) -> Option<i32> {
    if i32::MIN <= id <= i32::MAX {
        Some(id as i32)
    } else {
        None
    }
}

/// The stream of an id, if it is one.
pub fn stream_index_i32(stream_index: i64, kind: TrackKind, track_id: i64) -> (result: Result<i32>)
    ensures
        match exact_stream(stream_index) {
            Some(stream) => result matches Ok(found) && found == stream,
            None => result matches Err(error) && error == (PlaybackError::TrackNotFound {
                kind,
                track_id,
            }),
        },
{
    if stream_index >= -0x8000_0000 && stream_index <= 0x7fff_ffff {
        Ok(stream_index as i32)
    } else {
        Err(PlaybackError::TrackNotFound { kind, track_id })
    }
}

/// Whether there is a track of a kind with an id.
pub open spec fn has_track(tracks: Seq<TrackInfo>, id: i64, kind: TrackKind) -> bool {
    exists|i: int|
        0 <= i < tracks.len() && (#[trigger] tracks[i]).id == id && tracks[i].kind == kind
}

/// The stream of a track of the file, if it is one.
pub open spec fn embedded_stream(tracks: Seq<TrackInfo>, id: i64, kind: TrackKind) -> Option<i32> {
    if has_track(tracks, id, kind) {
        exact_stream(id)
    } else {
        None
    }
}

/// The stream of a track of the file.
pub fn embedded_track_stream_index(tracks: &Vec<TrackInfo>, track_id: i64, kind: TrackKind) -> (result:
    Result<i32>)
    ensures
        match embedded_stream(tracks@, track_id, kind) {
            Some(stream) => result matches Ok(found) && found == stream,
            None => result matches Err(error) && error == (PlaybackError::TrackNotFound {
                kind,
                track_id,
            }),
        },
{
    let mut i: usize = 0;
    while i < tracks.len()
        invariant
            i <= tracks@.len(),
            forall|k: int|
                0 <= k < i ==> !((#[trigger] tracks@[k]).id == track_id && tracks@[k].kind == kind),
        decreases tracks@.len() - i,
    {
        if tracks[i].id == track_id && tracks[i].kind == kind {
            assert(tracks@[i as int].id == track_id);
            return stream_index_i32(track_id, kind, track_id);
        }
        i += 1;
    }
    Err(PlaybackError::TrackNotFound { kind, track_id })
}

/// The streams whose packets are read for a selection, or the track that is not
/// there. No stream stands for all.
pub open spec fn wanted_streams(info: OpenedMediaInfo) -> core::result::Result<
    Seq<i32>,
    (TrackKind, i64),
> {
    let video: core::result::Result<Seq<i32>, (TrackKind, i64)> = match info.selected_video_track {
        None => Ok(Seq::empty()),
        Some(id) => match embedded_stream(info.tracks@, id, TrackKind::Video) {
            Some(stream) => Ok(seq![stream]),
            None => Err((TrackKind::Video, id)),
        },
    };
    let audio: core::result::Result<Seq<i32>, (TrackKind, i64)> = match info.selected_audio_track {
        None => Ok(Seq::empty()),
        Some(id) => match embedded_stream(info.tracks@, id, TrackKind::Audio) {
            Some(stream) => Ok(seq![stream]),
            None => Err((TrackKind::Audio, id)),
        },
    };
    let subtitle: core::result::Result<Seq<i32>, (TrackKind, i64)> =
        match info.selected_subtitle_track {
        None => Ok(Seq::empty()),
        Some(id) => match index_of_track(info.subtitle_tracks@, id, 0) {
            None => Err((TrackKind::Subtitle, id)),
            Some(at) => match info.subtitle_tracks@[at].source {
                SubtitleTrackSource::External { .. } => Ok(Seq::empty()),
                SubtitleTrackSource::Embedded { stream_index } => match exact_stream(
                    stream_index,
                ) {
                    Some(stream) => Ok(seq![stream]),
                    None => Err((TrackKind::Subtitle, id)),
                },
            },
        },
    };
    match video {
        Err(missing) => Err(missing),
        Ok(v) => match audio {
            Err(missing) => Err(missing),
            Ok(a) => match subtitle {
                Err(missing) => Err(missing),
                Ok(s) => Ok(v + a + s),
            },
        },
    }
}

/// The streams whose packets are read for a selection.
pub fn update_demux_selection(info: &OpenedMediaInfo) -> (result: Result<Vec<i32>>)
    ensures
        match wanted_streams(*info) {
            Ok(streams) => result matches Ok(found) && found@ == streams,
            Err((kind, track_id)) => result matches Err(error) && error == (
            PlaybackError::TrackNotFound { kind, track_id }),
        },
{
    let mut streams: Vec<i32> = Vec::new();
    if let Some(id) = info.selected_video_track {
        match embedded_track_stream_index(&info.tracks, id, TrackKind::Video) {
            Ok(stream) => streams.push(stream),
            Err(error) => {
                return Err(error);
            },
        }
    }
    let ghost video = streams@;
    if let Some(id) = info.selected_audio_track {
        match embedded_track_stream_index(&info.tracks, id, TrackKind::Audio) {
            Ok(stream) => streams.push(stream),
            Err(error) => {
                return Err(error);
            },
        }
    }
    let ghost both = streams@;
    if let Some(id) = info.selected_subtitle_track {
        match find_track(&info.subtitle_tracks, id) {
            None => {
                return Err(
                    PlaybackError::TrackNotFound { kind: TrackKind::Subtitle, track_id: id },
                );
            },
            Some(at) => match &info.subtitle_tracks[at].source {
                SubtitleTrackSource::External { .. } => {},
                SubtitleTrackSource::Embedded { stream_index } => match stream_index_i32(
                    *stream_index,
                    TrackKind::Subtitle,
                    id,
                ) {
                    Ok(stream) => streams.push(stream),
                    Err(error) => {
                        return Err(error);
                    },
                },
            },
        }
    }
    assert(streams@ =~= wanted_streams(*info)->Ok_0);
    Ok(streams)
}

/// The first entries of a queue, up to a limit.
pub open spec fn oldest<T>(items: Seq<T>, limit: nat) -> Seq<T> {
    if items.len() <= limit {
        items
    } else {
        items.take(limit as int)
    }
}

/// The last entries of a queue, up to a limit.
pub open spec fn newest<T>(items: Seq<T>, limit: nat) -> Seq<T> {
    if items.len() <= limit {
        items
    } else {
        items.skip(items.len() - limit)
    }
}

/// Drops the newest frames beyond the limit.
fn trim_video_queue<V>(frames: &mut VecDeque<V>)
    ensures
        final(frames)@ == oldest(old(frames)@, VIDEO_FRAME_QUEUE_LIMIT as nat),
{
    let ghost all = frames@;
    while frames.len() > VIDEO_FRAME_QUEUE_LIMIT
        invariant
            frames@.len() <= all.len(),
            all.len() > VIDEO_FRAME_QUEUE_LIMIT ==> frames@.len() >= VIDEO_FRAME_QUEUE_LIMIT,
            all.len() <= VIDEO_FRAME_QUEUE_LIMIT ==> frames@ == all,
            frames@ == all.take(frames@.len() as int),
        decreases frames@.len(),
    {
        let _ = frames.pop_back();
        assert(frames@ =~= all.take(frames@.len() as int));
    }
    assert(frames@ =~= oldest(all, VIDEO_FRAME_QUEUE_LIMIT as nat));
}

/// Drops the oldest entries beyond a limit.
fn trim_oldest<T>(frames: &mut VecDeque<T>, limit: usize)
    ensures
        final(frames)@ == newest(old(frames)@, limit as nat),
{
    let ghost all = frames@;
    assert(all.skip(0) =~= all);
    while frames.len() > limit
        invariant
            frames@.len() <= all.len(),
            all.len() > limit ==> frames@.len() >= limit,
            all.len() <= limit ==> frames@.len() == all.len(),
            frames@ == all.skip(all.len() - frames@.len()),
        decreases frames@.len(),
    {
        let _ = frames.pop_front();
        assert(frames@ =~= all.skip(all.len() - frames@.len()));
    }
    assert(frames@ =~= newest(all, limit as nat));
}

/// What the queues of subtitles have for their caller.
pub enum SubtitlePull {
    /// The subtitle to show.
    Frame(DecodedSubtitleFrame),
    /// Nothing to show yet.
    Nothing,
    /// Nothing before another packet of an external file has been read.
    PumpExternal(usize),
}

impl<V> PlaybackSession<V> {
    /// Whether no queue is longer than its limit.
    pub open spec fn is_bounded(self) -> bool {
        &&& self.video_frames@.len() <= VIDEO_FRAME_QUEUE_LIMIT
        &&& self.audio_frames@.len() <= AUDIO_FRAME_QUEUE_LIMIT
        &&& self.subtitle_frames@.len() <= SUBTITLE_FRAME_QUEUE_LIMIT
    }

    /// An opened file. A subtitle stream whose decoder could not be opened is
    /// not played.
    pub fn open(
        probe: MediaProbe,
        plan: OpenPlan,
        subtitle_opened: bool,
        video_backend: DecoderBackend,
        audio_output: PcmFormat,
    ) -> (result: Self)
        ensures
            result.is_bounded(),
            ({
                let subtitle = if subtitle_opened {
                    plan.subtitle
                } else {
                    None
                };
                &&& result.info.uri == probe.uri
                &&& result.info.duration == probe.duration
                &&& result.info.tracks@ == marked(
                    probe.tracks@,
                    id_of(plan.video),
                    id_of(plan.audio),
                    id_of(subtitle),
                )
                &&& result.info.video_params == (match plan.video {
                    Some(stream) => params_of(probe.video@, stream as i64),
                    None => None,
                })
                &&& result.info.selected_video_track == id_of(plan.video)
                &&& result.info.selected_audio_track == id_of(plan.audio)
                &&& result.info.selected_subtitle_track == id_of(subtitle)
                &&& result.info.subtitle_tracks@ == probe.subtitles@
                &&& result.info.video_decode_backend == (if plan.video is Some {
                    Some(video_backend)
                } else {
                    None
                })
                &&& result.info.audio_output == (if plan.audio is Some {
                    Some(audio_output)
                } else {
                    None
                })
                &&& result.video_stream == plan.video
                &&& result.audio_stream == plan.audio
                &&& result.subtitle_stream == subtitle
            }),
            result.external_subtitles@.len() == 0,
            result.audio_output == audio_output,
            result.video_frames@.len() == 0,
            result.audio_frames@.len() == 0,
            result.subtitle_frames@.len() == 0,
            !result.eof,
    {
        let subtitle = if subtitle_opened {
            plan.subtitle
        } else {
            None
        };
        let video_params = match plan.video {
            Some(stream) => find_params(&probe.video, stream as i64),
            None => None,
        };
        let mut tracks = probe.tracks;
        mark_selected_tracks(&mut tracks, to_id(plan.video), to_id(plan.audio), to_id(subtitle));
        Self {
            info: OpenedMediaInfo {
                uri: probe.uri,
                duration: probe.duration,
                tracks,
                video_params,
                selected_video_track: to_id(plan.video),
                selected_audio_track: to_id(plan.audio),
                selected_subtitle_track: to_id(subtitle),
                subtitle_tracks: probe.subtitles,
                video_decode_backend: match plan.video {
                    Some(_) => Some(video_backend),
                    None => None,
                },
                audio_output: match plan.audio {
                    Some(_) => Some(audio_output),
                    None => None,
                },
            },
            video_stream: plan.video,
            audio_stream: plan.audio,
            subtitle_stream: subtitle,
            external_subtitles: Vec::new(),
            audio_output,
            video_frames: VecDeque::new(),
            audio_frames: VecDeque::new(),
            subtitle_frames: VecDeque::new(),
            eof: false,
        }
    }

    /// What is known of the file.
    pub fn info(&self) -> (result: &OpenedMediaInfo)
        ensures
            *result == self.info,
    {
        &self.info
    }

    /// The tracks that are played.
    pub fn track_selection(&self) -> (result: TrackSelection)
        ensures
            result == (TrackSelection {
                video: self.info.selected_video_track,
                audio: self.info.selected_audio_track,
                subtitle: self.info.selected_subtitle_track,
            }),
    {
        self.info.track_selection()
    }

    /// The decoder whose stream this is; the first, where there are several.
    pub open spec fn route_of(self, stream_index: i32) -> PacketRoute {
        if self.video_stream == Some(stream_index) {
            PacketRoute::Video
        } else if self.audio_stream == Some(stream_index) {
            PacketRoute::Audio
        } else if self.subtitle_stream == Some(stream_index) {
            PacketRoute::Subtitle
        } else {
            PacketRoute::Nowhere
        }
    }

    /// The decoder that a packet goes to: the first whose stream it is of.
    pub fn route_packet(&self, stream_index: i32) -> (result: PacketRoute)
        ensures
            result == self.route_of(stream_index),
    {
        if let Some(stream) = self.video_stream {
            if stream == stream_index {
                return PacketRoute::Video;
            }
        }
        if let Some(stream) = self.audio_stream {
            if stream == stream_index {
                return PacketRoute::Audio;
            }
        }
        if let Some(stream) = self.subtitle_stream {
            if stream == stream_index {
                return PacketRoute::Subtitle;
            }
        }
        PacketRoute::Nowhere
    }

    /// Takes decoded video frames. Beyond the limit, the newest are dropped.
    pub fn take_video_frames(&mut self, frames: Vec<V>)
        ensures
            final(self).video_frames@ == oldest(
                old(self).video_frames@ + frames@,
                VIDEO_FRAME_QUEUE_LIMIT as nat,
            ),
            *final(self) == (PlaybackSession {
                video_frames: final(self).video_frames,
                ..*old(self)
            }),
            old(self).is_bounded() ==> final(self).is_bounded(),
    {
        push_all(&mut self.video_frames, frames);
        trim_video_queue(&mut self.video_frames);
    }

    /// Takes decoded audio. Beyond the limit, the oldest is dropped.
    pub fn take_audio_frames(&mut self, frames: Vec<PcmAudioFrame>)
        ensures
            final(self).audio_frames@ == newest(
                old(self).audio_frames@ + frames@,
                AUDIO_FRAME_QUEUE_LIMIT as nat,
            ),
            *final(self) == (PlaybackSession {
                audio_frames: final(self).audio_frames,
                ..*old(self)
            }),
            old(self).is_bounded() ==> final(self).is_bounded(),
    {
        push_all(&mut self.audio_frames, frames);
        trim_oldest(&mut self.audio_frames, AUDIO_FRAME_QUEUE_LIMIT);
    }

    /// Takes a decoded subtitle. Beyond the limit, the oldest is dropped.
    pub fn take_subtitle_frame(&mut self, frame: DecodedSubtitleFrame)
        ensures
            final(self).subtitle_frames@ == newest(
                old(self).subtitle_frames@.push(frame),
                SUBTITLE_FRAME_QUEUE_LIMIT as nat,
            ),
            *final(self) == (PlaybackSession {
                subtitle_frames: final(self).subtitle_frames,
                ..*old(self)
            }),
            old(self).is_bounded() ==> final(self).is_bounded(),
    {
        self.subtitle_frames.push_back(frame);
        trim_oldest(&mut self.subtitle_frames, SUBTITLE_FRAME_QUEUE_LIMIT);
    }

    /// Which decoders have to be told that the file has ended: video and audio,
    /// where that has not been done.
    pub fn finish_decoders(&self) -> (result: (bool, bool))
        ensures
            result.0 == (!self.eof && self.video_stream is Some),
            result.1 == (!self.eof && self.audio_stream is Some),
    {
        (!self.eof && self.video_stream.is_some(), !self.eof && self.audio_stream.is_some())
    }

    /// Takes note that the decoders were told that the file has ended.
    pub fn mark_eof(&mut self)
        ensures
            *final(self) == (PlaybackSession { eof: true, ..*old(self) }),
    {
        self.eof = true;
    }

    /// The next video frame, or what has to be done to get one.
    pub fn next_video_frame(&mut self) -> (result: Pull<V>)
        ensures
            match result {
                Pull::Frame(frame) => {
                    &&& old(self).video_stream is Some
                    &&& old(self).video_frames@.len() > 0
                    &&& frame == old(self).video_frames@[0]
                    &&& final(self).video_frames@ == old(self).video_frames@.skip(1)
                },
                Pull::Nothing => {
                    &&& old(self).video_stream is None || (old(self).video_frames@.len() == 0
                        && old(self).eof)
                    &&& final(self).video_frames@ == old(self).video_frames@
                },
                Pull::Pump => {
                    &&& old(self).video_stream is Some
                    &&& old(self).video_frames@.len() == 0
                    &&& !old(self).eof
                    &&& final(self).video_frames@ == old(self).video_frames@
                },
            },
            *final(self) == (PlaybackSession {
                video_frames: final(self).video_frames,
                ..*old(self)
            }),
            old(self).is_bounded() ==> final(self).is_bounded(),
    {
        if self.video_stream.is_none() {
            return Pull::Nothing;
        }
        match self.video_frames.pop_front() {
            Some(frame) => {
                assert(self.video_frames@ =~= old(self).video_frames@.skip(1));
                Pull::Frame(frame)
            },
            None => if self.eof {
                Pull::Nothing
            } else {
                Pull::Pump
            },
        }
    }

    /// The next audio frame, or what has to be done to get one. While enough
    /// video waits, nothing more is read for audio.
    pub fn next_audio_frame(&mut self) -> (result: Pull<PcmAudioFrame>)
        ensures
            match result {
                Pull::Frame(frame) => {
                    &&& old(self).audio_stream is Some
                    &&& old(self).audio_frames@.len() > 0
                    &&& frame == old(self).audio_frames@[0]
                    &&& final(self).audio_frames@ == old(self).audio_frames@.skip(1)
                },
                Pull::Nothing => {
                    &&& old(self).audio_stream is None || (old(self).audio_frames@.len() == 0 && (
                    old(self).eof || old(self).has_enough_video()))
                    &&& final(self).audio_frames@ == old(self).audio_frames@
                },
                Pull::Pump => {
                    &&& old(self).audio_stream is Some
                    &&& old(self).audio_frames@.len() == 0
                    &&& !old(self).eof
                    &&& !old(self).has_enough_video()
                    &&& final(self).audio_frames@ == old(self).audio_frames@
                },
            },
            *final(self) == (PlaybackSession {
                audio_frames: final(self).audio_frames,
                ..*old(self)
            }),
            old(self).is_bounded() ==> final(self).is_bounded(),
    {
        if self.audio_stream.is_none() {
            return Pull::Nothing;
        }
        match self.audio_frames.pop_front() {
            Some(frame) => {
                assert(self.audio_frames@ =~= old(self).audio_frames@.skip(1));
                Pull::Frame(frame)
            },
            None => {
                if self.eof {
                    return Pull::Nothing;
                }
                if self.video_stream.is_some() && self.video_frames.len()
                    >= VIDEO_FRAME_QUEUE_LIMIT {
                    return Pull::Nothing;
                }
                Pull::Pump
            },
        }
    }

    /// Whether the queue for video is full.
    pub open spec fn has_enough_video(self) -> bool {
        self.video_stream is Some && self.video_frames@.len() >= VIDEO_FRAME_QUEUE_LIMIT
    }

    /// The start of the first subtitle of the file that waits.
    pub open spec fn embedded_start(self) -> Option<nat> {
        if self.subtitle_frames@.len() > 0 {
            Some(start_or_zero(self.subtitle_frames@[0]))
        } else {
            None
        }
    }

    /// The starts of the first subtitles of the selected external tracks among
    /// the first few.
    pub open spec fn external_starts(self, upto: int) -> Seq<(usize, nat)>
        decreases upto,
    {
        if upto <= 0 {
            Seq::empty()
        } else {
            let before = self.external_starts(upto - 1);
            let external = self.external_subtitles@[upto - 1];
            if self.info.selected_subtitle_track == Some(external.track.id)
                && external.first_start() is Some {
                before.push(((upto - 1) as usize, external.first_start()->0))
            } else {
                before
            }
        }
    }

    /// The subtitle that is shown next, if one is ready.
    pub open spec fn ready_subtitle(self, media_time: nat) -> Option<CandidateModel> {
        ready_candidate(
            self.embedded_start(),
            self.external_starts(self.external_subtitles@.len() as int),
            media_time,
        )
    }

    fn list_external_starts(&self) -> (result: Vec<(usize, Duration)>)
        ensures
            starts_view(result@) == self.external_starts(self.external_subtitles@.len() as int),
    {
        let mut result: Vec<(usize, Duration)> = Vec::new();
        let mut i: usize = 0;
        while i < self.external_subtitles.len()
            invariant
                i <= self.external_subtitles@.len(),
                starts_view(result@) =~= self.external_starts(i as int),
            decreases self.external_subtitles@.len() - i,
        {
            let external: &ExternalSubtitleSession = &self.external_subtitles[i];
            let ghost before = result@;
            if is_same_id(self.info.selected_subtitle_track, external.track.id) {
                if let Some(start) = external.peek_start() {
                    result.push((i, start));
                    assert(starts_view(result@) =~= starts_view(before).push((i, start@)));
                }
            }
            i += 1;
        }
        result
    }

    /// The subtitle that is shown next, if one is ready.
    pub open spec fn next_subtitle(self, media_time: nat) -> Option<DecodedSubtitleFrame> {
        match self.ready_subtitle(media_time) {
            None => None,
            Some(CandidateModel::Embedded { .. }) => Some(self.subtitle_frames@[0]),
            Some(CandidateModel::External { index, .. }) => Some(
                self.external_subtitles@[index as int].frames@[0],
            ),
        }
    }

    /// Whether just the subtitle that is shown next left its queue.
    pub open spec fn is_drawn_from(self, before: Self, media_time: nat) -> bool {
        match before.ready_subtitle(media_time) {
            None => self == before,
            Some(CandidateModel::Embedded { .. }) => {
                &&& before.subtitle_frames@.len() > 0
                &&& self.subtitle_frames@ == before.subtitle_frames@.skip(1)
                &&& self == (PlaybackSession { subtitle_frames: self.subtitle_frames, ..before })
            },
            Some(CandidateModel::External { index, .. }) => {
                let queue = before.external_subtitles@[index as int];
                let rest = self.external_subtitles@[index as int];
                &&& index < before.external_subtitles@.len()
                &&& queue.frames@.len() > 0
                &&& rest.frames@ == queue.frames@.skip(1)
                &&& rest.track == queue.track
                &&& rest.eof == queue.eof
                &&& self.external_subtitles@ == before.external_subtitles@.update(
                    index as int,
                    rest,
                )
                &&& self == (PlaybackSession {
                    external_subtitles: self.external_subtitles,
                    ..before
                })
            },
        }
    }

    /// Takes the subtitle that is shown next out of its queue, if one is ready.
    pub fn pop_ready_subtitle(&mut self, media_time: Duration) -> (result: Option<
        DecodedSubtitleFrame,
    >)
        ensures
            final(self).is_drawn_from(*old(self), media_time@),
            result == old(self).next_subtitle(media_time@),
            old(self).is_bounded() ==> final(self).is_bounded(),
    {
        let embedded = if self.subtitle_frames.len() > 0 {
            Some(decoded_subtitle_start(&self.subtitle_frames[0]))
        } else {
            None
        };
        let starts = self.list_external_starts();
        let ghost all = self.external_starts(self.external_subtitles@.len() as int);
        proof {
            lemma_earliest_ready(all, media_time@);
        }
        match select_ready_subtitle(embedded, &starts, media_time) {
            None => None,
            Some(SubtitleQueueCandidate::Embedded { .. }) => {
                let frame = self.subtitle_frames.pop_front();
                assert(self.subtitle_frames@ =~= old(self).subtitle_frames@.skip(1));
                frame
            },
            Some(SubtitleQueueCandidate::External { index, start }) => {
                let count: usize = self.external_subtitles.len();
                proof {
                    let k = choose|k: int| 0 <= k < all.len() && all[k] == (index, start@);
                    lemma_external_starts(*self, count as int, k);
                }
                let frame = self.external_subtitles[index].pop_front();
                assert(self.external_subtitles@ =~= old(self).external_subtitles@.update(
                    index as int,
                    self.external_subtitles@[index as int],
                ));
                frame
            },
        }
    }

    /// The external track that is selected, among those that are there.
    pub open spec fn selected_external(self) -> Option<int> {
        match self.info.selected_subtitle_track {
            Some(id) => index_of_track(self.external_subtitles@, id, 0),
            None => None,
        }
    }

    /// Whether subtitles can come at all: a track is selected, and it is decoded
    /// or external.
    pub open spec fn has_subtitles(self) -> bool {
        self.info.selected_subtitle_track is Some && (self.subtitle_stream is Some
            || self.selected_external() is Some)
    }

    /// The next subtitle, or what has to be done to get one.
    pub fn next_subtitle_frame(&mut self, media_time: Duration) -> (result: SubtitlePull)
        ensures
            match result {
                SubtitlePull::Frame(frame) => {
                    &&& old(self).has_subtitles()
                    &&& !old(self).must_pump(media_time@)
                    &&& old(self).next_subtitle(media_time@) == Some(frame)
                    &&& final(self).is_drawn_from(*old(self), media_time@)
                },
                SubtitlePull::Nothing => {
                    &&& *final(self) == *old(self)
                    &&& !old(self).has_subtitles() || (!old(self).must_pump(media_time@) && old(
                        self,
                    ).next_subtitle(media_time@) is None)
                },
                SubtitlePull::PumpExternal(index) => {
                    &&& *final(self) == *old(self)
                    &&& old(self).has_subtitles()
                    &&& old(self).must_pump(media_time@)
                    &&& old(self).selected_external() == Some(index as int)
                },
            },
            old(self).is_bounded() ==> final(self).is_bounded(),
    {
        let id: i64 = match self.info.selected_subtitle_track {
            Some(id) => id,
            None => {
                return SubtitlePull::Nothing;
            },
        };
        match find_track(&self.external_subtitles, id) {
            Some(index) => {
                if self.external_subtitles[index].needs_more(media_time) {
                    return SubtitlePull::PumpExternal(index);
                }
            },
            None => {
                if self.subtitle_stream.is_none() {
                    return SubtitlePull::Nothing;
                }
            },
        }
        match self.pop_ready_subtitle(media_time) {
            Some(frame) => SubtitlePull::Frame(frame),
            None => SubtitlePull::Nothing,
        }
    }

    /// Whether the selected external file has to be read before a media time is
    /// reached.
    pub open spec fn must_pump(self, media_time: nat) -> bool {
        match self.selected_external() {
            Some(at) => self.external_subtitles@[at].is_short(media_time),
            None => false,
        }
    }

    /// What adding an external track comes to.
    pub open spec fn is_with(self, before: Self, external: ExternalSubtitleSession) -> bool {
        let added = self.info.tracks@.last();
        let listed = self.info.subtitle_tracks@.last();
        &&& self.info.tracks@ == before.info.tracks@.push(added)
        &&& added == (TrackInfo {
            id: external.track.id,
            kind: TrackKind::Subtitle,
            codec: None,
            selected: true,
            is_external: true,
            ..added
        })
        &&& text_view(added.title) == text_view(external.track.title)
        &&& text_view(added.language) == text_view(external.track.language)
        &&& self.info.subtitle_tracks@ == before.info.subtitle_tracks@.push(listed)
        &&& listed.id == external.track.id
        &&& listed.source == external.track.source
        &&& text_view(listed.title) == text_view(external.track.title)
        &&& text_view(listed.language) == text_view(external.track.language)
        &&& self.external_subtitles@ == before.external_subtitles@.push(external)
        &&& self == (PlaybackSession {
            info: OpenedMediaInfo {
                tracks: self.info.tracks,
                subtitle_tracks: self.info.subtitle_tracks,
                ..before.info
            },
            external_subtitles: self.external_subtitles,
            ..before
        })
    }

    /// Adds an external track, whose file was put to the media time. It still has
    /// to be selected: the result is what that takes.
    pub fn add_external_subtitle(&mut self, external: ExternalSubtitleSession) -> (result: Result<
        SubtitleSelectionPlan,
    >)
        ensures
            final(self).is_with(*old(self), external),
            is_selection_plan(final(self).info, Some(external.track.id), result),
            old(self).is_bounded() ==> final(self).is_bounded(),
    {
        let id: i64 = external.track.id;
        let mut info = TrackInfo::external(id, TrackKind::Subtitle);
        info.title = copy_text(&external.track.title);
        info.language = copy_text(&external.track.language);
        info.selected = true;
        let listed = SubtitleTrackConfig {
            id,
            source: copy_source(&external.track.source),
            language: copy_text(&external.track.language),
            title: copy_text(&external.track.title),
        };
        self.info.tracks.push(info);
        self.info.subtitle_tracks.push(listed);
        self.external_subtitles.push(external);
        assert(self.info.tracks@.last() == info);
        assert(self.info.subtitle_tracks@.last() == listed);
        self.plan_subtitle_selection(Some(id))
    }

    /// What taking an external track out comes to.
    pub open spec fn is_without(self, before: Self, track_id: i64, at: int) -> bool {
        let was_selected = before.info.selected_subtitle_track == Some(track_id);
        let tracks = without(before.info.tracks@, track_id);
        &&& self.external_subtitles@ == before.external_subtitles@.remove(at)
        &&& self.subtitle_frames@ == without(before.subtitle_frames@, track_id)
        &&& self.info.subtitle_tracks@ == without(before.info.subtitle_tracks@, track_id)
        &&& self.info.tracks@ == (if was_selected {
            marked(
                tracks,
                before.info.selected_video_track,
                before.info.selected_audio_track,
                None,
            )
        } else {
            tracks
        })
        &&& self == (PlaybackSession {
            info: OpenedMediaInfo {
                tracks: self.info.tracks,
                subtitle_tracks: self.info.subtitle_tracks,
                selected_subtitle_track: if was_selected {
                    None
                } else {
                    before.info.selected_subtitle_track
                },
                ..before.info
            },
            external_subtitles: self.external_subtitles,
            subtitle_frames: self.subtitle_frames,
            ..before
        })
    }

    /// Takes an external track out. A stream of the file cannot be taken out, and
    /// a track that is not there gives nothing. Gives a frame that clears the
    /// subtitles of the track.
    pub fn remove_subtitle_track(&mut self, track_id: i64, media_time: Duration) -> (result: Result<
        Option<DecodedSubtitleFrame>,
    >)
        ensures
            match index_of_track(old(self).external_subtitles@, track_id, 0) {
                None => {
                    &&& *final(self) == *old(self)
                    &&& if has_embedded(old(self).info.subtitle_tracks@, track_id) {
                        result matches Err(error) && error
                            == PlaybackError::SubtitleTrackNotRemovable(track_id)
                    } else {
                        result matches Ok(frame) && frame is None
                    }
                },
                Some(at) => {
                    &&& result matches Ok(frame) && frame is Some && clears(
                        frame->0,
                        track_id,
                        media_time@,
                    )
                    &&& final(self).is_without(*old(self), track_id, at)
                },
            },
            old(self).is_bounded() ==> final(self).is_bounded(),
    {
        let was_selected = is_same_id(self.info.selected_subtitle_track, track_id);
        let at: usize = match find_track(&self.external_subtitles, track_id) {
            Some(at) => at,
            None => {
                if check_embedded(&self.info.subtitle_tracks, track_id) {
                    return Err(PlaybackError::SubtitleTrackNotRemovable(track_id));
                }
                return Ok(None);
            },
        };
        let _ = self.external_subtitles.remove(at);
        proof {
            lemma_without_is_no_longer(self.subtitle_frames@, track_id);
        }
        keep_others_queued(&mut self.subtitle_frames, track_id);
        let mut tracks: Vec<TrackInfo> = Vec::new();
        tracks.append(&mut self.info.tracks);
        assert(tracks@ =~= old(self).info.tracks@);
        self.info.tracks = keep_others(tracks, track_id);
        let mut listed: Vec<SubtitleTrackConfig> = Vec::new();
        listed.append(&mut self.info.subtitle_tracks);
        assert(listed@ =~= old(self).info.subtitle_tracks@);
        self.info.subtitle_tracks = keep_others(listed, track_id);
        if was_selected {
            self.info.selected_subtitle_track = None;
            self.mark_selected_tracks();
        }
        Ok(clear_subtitle_frame(Some(track_id), media_time))
    }

    /// The stream whose decoder has to be opened to play an audio track.
    pub fn plan_audio_selection(&self, track_id: i64) -> (result: Result<i32>)
        ensures
            match embedded_stream(self.info.tracks@, track_id, TrackKind::Audio) {
                Some(stream) => result matches Ok(found) && found == stream,
                None => result matches Err(error) && error == (PlaybackError::TrackNotFound {
                    kind: TrackKind::Audio,
                    track_id,
                }),
            },
    {
        embedded_track_stream_index(&self.info.tracks, track_id, TrackKind::Audio)
    }

    /// What playing another audio track comes to, but for the marks.
    pub open spec fn plays_audio(self, before: Self, selection: Option<(i64, i32)>) -> bool {
        &&& self.audio_frames@.len() == 0
        &&& self == (PlaybackSession {
            info: OpenedMediaInfo {
                tracks: self.info.tracks,
                selected_audio_track: match selection {
                    Some((id, _)) => Some(id),
                    None => None,
                },
                audio_output: if selection is Some {
                    Some(before.audio_output)
                } else {
                    None
                },
                ..before.info
            },
            audio_stream: match selection {
                Some((_, stream)) => Some(stream),
                None => None,
            },
            audio_frames: self.audio_frames,
            ..before
        })
    }

    /// Plays an audio track whose decoder was opened, or none. Gives the streams
    /// to read from now on.
    pub fn select_audio_track(&mut self, selection: Option<(i64, i32)>) -> (result: Result<
        Vec<i32>,
    >)
        ensures
            final(self).plays_audio(*old(self), selection),
            final(self).is_reselected(old(self).info.tracks@, result),
            old(self).is_bounded() ==> final(self).is_bounded(),
    {
        match selection {
            Some((id, stream)) => {
                self.audio_stream = Some(stream);
                self.info.selected_audio_track = Some(id);
                self.info.audio_output = Some(self.audio_output);
            },
            None => {
                self.audio_stream = None;
                self.info.selected_audio_track = None;
                self.info.audio_output = None;
            },
        }
        self.audio_frames.clear();
        self.reselect()
    }

    /// What has to be done to play a subtitle track, or none.
    pub fn plan_subtitle_selection(&self, track_id: Option<i64>) -> (result: Result<
        SubtitleSelectionPlan,
    >)
        ensures
            is_selection_plan(self.info, track_id, result),
    {
        match track_id {
            None => Ok(SubtitleSelectionPlan::CloseDecoder),
            Some(id) => match find_track(&self.info.subtitle_tracks, id) {
                None => Err(
                    PlaybackError::TrackNotFound { kind: TrackKind::Subtitle, track_id: id },
                ),
                Some(at) => match &self.info.subtitle_tracks[at].source {
                    SubtitleTrackSource::External { .. } => Ok(SubtitleSelectionPlan::CloseDecoder),
                    SubtitleTrackSource::Embedded { stream_index } => match stream_index_i32(
                        *stream_index,
                        TrackKind::Subtitle,
                        id,
                    ) {
                        Ok(stream) => Ok(SubtitleSelectionPlan::OpenDecoder(stream)),
                        Err(error) => Err(error),
                    },
                },
            },
        }
    }

    /// Plays a subtitle track whose plan was carried out, or none. Gives a frame
    /// that clears the subtitles of the track before, and the streams to read
    /// from now on.
    pub fn select_subtitle_track(
        &mut self,
        track_id: Option<i64>,
        plan: SubtitleSelectionPlan,
        media_time: Duration,
    ) -> (result: (Option<DecodedSubtitleFrame>, Result<Vec<i32>>))
        ensures
            result.0 is Some <==> old(self).info.selected_subtitle_track is Some,
            result.0 matches Some(frame) ==> clears(
                frame,
                old(self).info.selected_subtitle_track->0,
                media_time@,
            ),
            final(self).subtitle_frames@.len() == 0,
            *final(self) == (PlaybackSession {
                info: OpenedMediaInfo {
                    tracks: final(self).info.tracks,
                    selected_subtitle_track: track_id,
                    ..old(self).info
                },
                subtitle_stream: match plan {
                    SubtitleSelectionPlan::OpenDecoder(stream) => Some(stream),
                    SubtitleSelectionPlan::CloseDecoder => None,
                },
                subtitle_frames: final(self).subtitle_frames,
                ..*old(self)
            }),
            final(self).is_reselected(old(self).info.tracks@, result.1),
            old(self).is_bounded() ==> final(self).is_bounded(),
    {
        let previous = self.info.selected_subtitle_track;
        self.subtitle_stream = match plan {
            SubtitleSelectionPlan::OpenDecoder(stream) => Some(stream),
            SubtitleSelectionPlan::CloseDecoder => None,
        };
        self.info.selected_subtitle_track = track_id;
        self.subtitle_frames.clear();
        let streams = self.reselect();
        (clear_subtitle_frame(previous, media_time), streams)
    }

    /// What a change of the selection comes to: the streams to read and the
    /// marks, or the track that is not there and no change of the marks.
    pub open spec fn is_reselected(self, tracks: Seq<TrackInfo>, result: Result<Vec<i32>>) -> bool {
        match wanted_streams(self.info) {
            Ok(streams) => {
                &&& result matches Ok(found) && found@ == streams
                &&& self.info.tracks@ == marked(
                    tracks,
                    self.info.selected_video_track,
                    self.info.selected_audio_track,
                    self.info.selected_subtitle_track,
                )
            },
            Err((kind, track_id)) => {
                &&& result matches Err(error) && error == (PlaybackError::TrackNotFound {
                    kind,
                    track_id,
                })
                &&& self.info.tracks@ == tracks
            },
        }
    }

    fn reselect(&mut self) -> (result: Result<Vec<i32>>)
        ensures
            final(self).is_reselected(old(self).info.tracks@, result),
            *final(self) == (PlaybackSession {
                info: OpenedMediaInfo { tracks: final(self).info.tracks, ..old(self).info },
                ..*old(self)
            }),
    {
        let streams = update_demux_selection(&self.info);
        if streams.is_ok() {
            self.mark_selected_tracks();
        }
        proof {
            lemma_marking_keeps_streams(old(self).info, self.info);
        }
        streams
    }

    /// Forgets what waits, after the file was put to another position.
    pub fn seek(&mut self)
        ensures
            final(self).video_frames@.len() == 0,
            final(self).audio_frames@.len() == 0,
            final(self).subtitle_frames@.len() == 0,
            final(self).external_subtitles@.len() == old(self).external_subtitles@.len(),
            forall|i: int|
                0 <= i < final(self).external_subtitles@.len() ==> {
                    &&& (#[trigger] final(self).external_subtitles@[i]).frames@.len() == 0
                    &&& !final(self).external_subtitles@[i].eof
                    &&& final(self).external_subtitles@[i].track == old(
                        self,
                    ).external_subtitles@[i].track
                },
            *final(self) == (PlaybackSession {
                external_subtitles: final(self).external_subtitles,
                video_frames: final(self).video_frames,
                audio_frames: final(self).audio_frames,
                subtitle_frames: final(self).subtitle_frames,
                eof: false,
                ..*old(self)
            }),
            final(self).is_bounded(),
    {
        let mut i: usize = 0;
        while i < self.external_subtitles.len()
            invariant
                i <= self.external_subtitles@.len(),
                self.external_subtitles@.len() == old(self).external_subtitles@.len(),
                *self == (PlaybackSession {
                    external_subtitles: self.external_subtitles,
                    ..*old(self)
                }),
                forall|k: int|
                    0 <= k < i ==> {
                        &&& (#[trigger] self.external_subtitles@[k]).frames@.len() == 0
                        &&& !self.external_subtitles@[k].eof
                        &&& self.external_subtitles@[k].track == old(
                            self,
                        ).external_subtitles@[k].track
                    },
                forall|k: int|
                    i <= k < self.external_subtitles@.len() ==> (
                    #[trigger] self.external_subtitles@[k]) == old(self).external_subtitles@[k],
            decreases self.external_subtitles@.len() - i,
        {
            self.external_subtitles[i].seek();
            i += 1;
        }
        self.video_frames.clear();
        self.audio_frames.clear();
        self.subtitle_frames.clear();
        self.eof = false;
    }

    fn mark_selected_tracks(&mut self)
        ensures
            final(self).info.tracks@ == marked(
                old(self).info.tracks@,
                old(self).info.selected_video_track,
                old(self).info.selected_audio_track,
                old(self).info.selected_subtitle_track,
            ),
            *final(self) == (PlaybackSession {
                info: OpenedMediaInfo { tracks: final(self).info.tracks, ..old(self).info },
                ..*old(self)
            }),
    {
        let video = self.info.selected_video_track;
        let audio = self.info.selected_audio_track;
        let subtitle = self.info.selected_subtitle_track;
        mark_selected_tracks(&mut self.info.tracks, video, audio, subtitle);
    }
}

/// What it takes to play a subtitle track, or none.
pub open spec fn is_selection_plan(
    info: OpenedMediaInfo,
    track_id: Option<i64>,
    result: Result<SubtitleSelectionPlan>,
) -> bool {
    match track_id {
        None => result matches Ok(plan) && plan == SubtitleSelectionPlan::CloseDecoder,
        Some(id) => match index_of_track(info.subtitle_tracks@, id, 0) {
            None => result matches Err(error) && error == (PlaybackError::TrackNotFound {
                kind: TrackKind::Subtitle,
                track_id: id,
            }),
            Some(at) => match info.subtitle_tracks@[at].source {
                SubtitleTrackSource::External { .. } => result matches Ok(plan) && plan
                    == SubtitleSelectionPlan::CloseDecoder,
                SubtitleTrackSource::Embedded { stream_index } => match exact_stream(stream_index) {
                    Some(stream) => result matches Ok(plan) && plan
                        == SubtitleSelectionPlan::OpenDecoder(stream),
                    None => result matches Err(error) && error == (PlaybackError::TrackNotFound {
                        kind: TrackKind::Subtitle,
                        track_id: id,
                    }),
                },
            },
        },
    }
}

/// Whether a stream of the file has an id.
pub open spec fn has_embedded(tracks: Seq<SubtitleTrackConfig>, id: i64) -> bool {
    exists|i: int|
        0 <= i < tracks.len() && (#[trigger] tracks[i]).id == id && tracks[i].source is Embedded
}

fn check_embedded(tracks: &Vec<SubtitleTrackConfig>, id: i64) -> (result: bool)
    ensures
        result == has_embedded(tracks@, id),
{
    let mut i: usize = 0;
    while i < tracks.len()
        invariant
            i <= tracks@.len(),
            forall|k: int|
                0 <= k < i ==> !((#[trigger] tracks@[k]).id == id && tracks@[k].source is Embedded),
        decreases tracks@.len() - i,
    {
        if tracks[i].id == id && !tracks[i].can_remove() {
            assert(tracks@[i as int].id == id);
            return true;
        }
        i += 1;
    }
    false
}

fn push_all<T>(queue: &mut VecDeque<T>, items: Vec<T>)
    ensures
        final(queue)@ == old(queue)@ + items@,
{
    let ghost added = items@;
    let ghost before = queue@;
    assert(before + added.take(0) =~= before);
    for item in it: items
        invariant
            it.seq() == added,
            queue@ == before + added.take(it.index()),
    {
        queue.push_back(item);
        assert(queue@ =~= before + added.take(it.index() + 1));
    }
    assert(added.take(added.len() as int) =~= added);
}

fn copy_source(source: &SubtitleTrackSource) -> (result: SubtitleTrackSource)
    ensures
        result == *source,
{
    match source {
        SubtitleTrackSource::Embedded { stream_index } => SubtitleTrackSource::Embedded {
            stream_index: *stream_index,
        },
        SubtitleTrackSource::External { uri } => SubtitleTrackSource::External { uri: uri.clone() },
    }
}

/// Nothing of a track that was taken out stays, and what belongs to other tracks
/// stays as it was.
pub proof fn law_removed_track_is_gone<T: OfTrack>(items: Seq<T>, id: i64)
    ensures
        forall|i: int|
            0 <= i < without(items, id).len() ==> (#[trigger] without(items, id)[i]).track() != id,
        forall|item: T|
            item.track() != id && #[trigger] items.contains(item) ==> without(items, id).contains(
                item,
            ),
    decreases items.len(),
{
    if items.len() > 0 {
        let shorter = items.drop_last();
        law_removed_track_is_gone(shorter, id);
        let kept = without(items, id);
        assert forall|item: T| item.track() != id && #[trigger] items.contains(
            item,
        ) implies kept.contains(item) by {
            let k = choose|k: int| 0 <= k < items.len() && items[k] == item;
            if k < shorter.len() {
                assert(shorter[k] == item);
                assert(shorter.contains(item));
                let j = choose|j: int|
                    0 <= j < without(shorter, id).len() && without(shorter, id)[j] == item;
                assert(kept[j] == item);
            } else {
                assert(kept[kept.len() - 1] == item);
            }
        }
    }
}

/// Taking a track out right after it was added leaves the list as it was, where
/// its id was not in use.
pub proof fn law_removing_undoes_adding<T: OfTrack>(items: Seq<T>, added: T)
    requires
        forall|i: int| 0 <= i < items.len() ==> (#[trigger] items[i]).track() != added.track(),
    ensures
        without(items.push(added), added.track()) == items,
{
    assert(items.push(added).drop_last() =~= items);
    lemma_without_nothing(items, added.track());
}

proof fn lemma_without_nothing<T: OfTrack>(items: Seq<T>, id: i64)
    requires
        forall|i: int| 0 <= i < items.len() ==> (#[trigger] items[i]).track() != id,
    ensures
        without(items, id) == items,
    decreases items.len(),
{
    if items.len() > 0 {
        assert forall|i: int| 0 <= i < items.drop_last().len() implies (
        #[trigger] items.drop_last()[i]).track() != id by {
            assert(items.drop_last()[i] == items[i]);
        }
        lemma_without_nothing(items.drop_last(), id);
        assert(items.drop_last().push(items.last()) =~= items);
    } else {
        assert(items =~= Seq::<T>::empty());
    }
}

proof fn lemma_without_is_no_longer<T: OfTrack>(items: Seq<T>, id: i64)
    ensures
        without(items, id).len() <= items.len(),
    decreases items.len(),
{
    if items.len() > 0 {
        lemma_without_is_no_longer(items.drop_last(), id);
    }
}

/// Marks do not matter to the streams that are read.
proof fn lemma_marking_keeps_streams(a: OpenedMediaInfo, b: OpenedMediaInfo)
    requires
        a.selected_video_track == b.selected_video_track,
        a.selected_audio_track == b.selected_audio_track,
        a.selected_subtitle_track == b.selected_subtitle_track,
        a.subtitle_tracks == b.subtitle_tracks,
        a.tracks@.len() == b.tracks@.len(),
        forall|i: int|
            0 <= i < a.tracks@.len() ==> (#[trigger] a.tracks@[i]).id == b.tracks@[i].id
                && a.tracks@[i].kind == b.tracks@[i].kind,
    ensures
        wanted_streams(a) == wanted_streams(b),
{
    assert forall|id: i64, kind: TrackKind| #[trigger] has_track(a.tracks@, id, kind) <==> has_track(
        b.tracks@,
        id,
        kind,
    ) by {
        if has_track(a.tracks@, id, kind) {
            let i = choose|i: int|
                0 <= i < a.tracks@.len() && (#[trigger] a.tracks@[i]).id == id && a.tracks@[i].kind
                    == kind;
            assert(b.tracks@[i].id == id);
        }
        if has_track(b.tracks@, id, kind) {
            let i = choose|i: int|
                0 <= i < b.tracks@.len() && (#[trigger] b.tracks@[i]).id == id && b.tracks@[i].kind
                    == kind;
            assert(a.tracks@[i].id == id);
        }
    }
}

/// Each listed start is that of a selected external track.
proof fn lemma_external_starts<V>(session: PlaybackSession<V>, upto: int, k: int)
    requires
        0 <= upto <= session.external_subtitles@.len(),
        upto <= usize::MAX,
        0 <= k < session.external_starts(upto).len(),
    ensures
        ({
            let (index, start) = session.external_starts(upto)[k];
            &&& index < upto
            &&& session.info.selected_subtitle_track == Some(
                session.external_subtitles@[index as int].track.id,
            )
            &&& session.external_subtitles@[index as int].first_start() == Some(start)
        }),
    decreases upto,
{
    if upto > 0 {
        let before = session.external_starts(upto - 1);
        if k < before.len() {
            lemma_external_starts(session, upto - 1, k);
        }
    }
}

/// Each decoder gets the packets of its own stream and no others.
pub proof fn law_packets_go_to_their_decoders<V>(
    session: PlaybackSession<V>,
    video: i32,
    audio: i32,
    subtitle: i32,
    other: i32,
)
    requires
        session.video_stream == Some(video),
        session.audio_stream == Some(audio),
        session.subtitle_stream == Some(subtitle),
        video != audio && video != subtitle && audio != subtitle,
    ensures
        session.route_of(video) == PacketRoute::Video,
        session.route_of(audio) == PacketRoute::Audio,
        session.route_of(subtitle) == PacketRoute::Subtitle,
        other != video && other != audio && other != subtitle ==> session.route_of(other)
            == PacketRoute::Nowhere,
{
}

/// A track is marked just if it is the one that was selected of its kind, and is
/// otherwise told as before.
pub proof fn law_selected_tracks_are_marked(
    tracks: Seq<TrackInfo>,
    video: Option<i64>,
    audio: Option<i64>,
    subtitle: Option<i64>,
    i: int,
)
    requires
        0 <= i < tracks.len(),
    ensures
        ({
            let track = marked(tracks, video, audio, subtitle)[i];
            &&& marked(tracks, video, audio, subtitle).len() == tracks.len()
            &&& tracks[i].kind == TrackKind::Video ==> (track.selected <==> video == Some(
                tracks[i].id,
            ))
            &&& tracks[i].kind == TrackKind::Audio ==> (track.selected <==> audio == Some(
                tracks[i].id,
            ))
            &&& tracks[i].kind == TrackKind::Subtitle ==> (track.selected <==> subtitle == Some(
                tracks[i].id,
            ))
            &&& track.id == tracks[i].id
            &&& track.kind == tracks[i].kind
            &&& track.title == tracks[i].title
            &&& track.language == tracks[i].language
            &&& track.codec == tracks[i].codec
            &&& track.is_external == tracks[i].is_external
        }),
{
}

/// The first track of a kind is the one that is played.
pub proof fn law_first_of_a_kind_is_found(
    before: Seq<TrackInfo>,
    track: TrackInfo,
    behind: Seq<TrackInfo>,
    kind: TrackKind,
)
    requires
        forall|i: int| 0 <= i < before.len() ==> (#[trigger] before[i]).kind != kind,
    ensures
        track.kind == kind ==> first_of_kind(before.push(track) + behind, kind) == Some(track.id),
        first_of_kind(before, kind) is None,
    decreases before.len(),
{
    let all = before.push(track) + behind;
    if before.len() == 0 {
        assert(all[0] == track);
    } else {
        assert(before[0].kind != kind);
        assert(all[0] == before[0]);
        assert(all.skip(1) =~= before.skip(1).push(track) + behind);
        assert forall|i: int| 0 <= i < before.skip(1).len() implies (
        #[trigger] before.skip(1)[i]).kind != kind by {
            assert(before[i + 1].kind != kind);
        }
        law_first_of_a_kind_is_found(before.skip(1), track, behind, kind);
    }
}

/// A stream has the number of its track.
pub proof fn law_streams_have_the_numbers_of_their_tracks(id: i64)
    requires
        i32::MIN <= id <= i32::MAX,
    ensures
        stream_of_id(id) == id,
        stream_of(Some(id)) == Some(id as i32),
        id_of(stream_of(Some(id))) == Some(id),
        exact_stream(id) == Some(id as i32),
        stream_of(None) is None,
        id_of(None) is None,
{
    if id < 0 {
        vstd::arithmetic::div_mod::lemma_fundamental_div_mod_converse(
            id as int,
            0x1_0000_0000,
            -1,
            id + 0x1_0000_0000,
        );
    } else {
        vstd::arithmetic::div_mod::lemma_small_mod(id as nat, 0x1_0000_0000);
    }
}

/// A full queue of video keeps its oldest frames and any other queue its newest; what
/// is kept keeps its order, and nothing is dropped while there is room.
pub proof fn law_queues_keep_one_end<T>(items: Seq<T>, limit: nat)
    ensures
        items.len() <= limit ==> oldest(items, limit) == items && newest(items, limit) == items,
        items.len() > limit ==> {
            &&& oldest(items, limit).len() == limit
            &&& newest(items, limit).len() == limit
            &&& forall|i: int| 0 <= i < limit ==> #[trigger] oldest(items, limit)[i] == items[i]
            &&& forall|i: int|
                0 <= i < limit ==> #[trigger] newest(items, limit)[i] == items[items.len() - limit
                    + i]
        },
{
}

/// The streams that are read are those of the selected tracks, the embedded ones: all
/// of them and no others.
pub proof fn law_selected_streams_are_read(info: OpenedMediaInfo, video: i64, audio: i64)
    requires
        info.selected_video_track == Some(video),
        info.selected_audio_track == Some(audio),
        i32::MIN <= video <= i32::MAX,
        i32::MIN <= audio <= i32::MAX,
        has_track(info.tracks@, video, TrackKind::Video),
        has_track(info.tracks@, audio, TrackKind::Audio),
    ensures
        info.selected_subtitle_track is None ==> wanted_streams(info) == Ok::<
            Seq<i32>,
            (TrackKind, i64),
        >(seq![video as i32, audio as i32]),
        info.selected_subtitle_track matches Some(id) ==> index_of_track(
            info.subtitle_tracks@,
            id,
            0,
        ) matches Some(at) ==> {
            &&& info.subtitle_tracks@[at].source is External ==> wanted_streams(info) == Ok::<
                Seq<i32>,
                (TrackKind, i64),
            >(seq![video as i32, audio as i32])
            &&& info.subtitle_tracks@[at].source matches SubtitleTrackSource::Embedded {
                stream_index,
            } ==> i32::MIN <= stream_index <= i32::MAX ==> wanted_streams(info) == Ok::<
                Seq<i32>,
                (TrackKind, i64),
            >(seq![video as i32, audio as i32, stream_index as i32])
        },
{
    let both = seq![video as i32] + seq![audio as i32];
    assert(both + Seq::<i32>::empty() =~= seq![video as i32, audio as i32]);
    if let Some(id) = info.selected_subtitle_track {
        if let Some(at) = index_of_track(info.subtitle_tracks@, id, 0) {
            if let SubtitleTrackSource::Embedded { stream_index } = info.subtitle_tracks@[at].source {
                assert(both + seq![stream_index as i32] =~= seq![
                    video as i32,
                    audio as i32,
                    stream_index as i32,
                ]);
            }
        }
    }
}

/// Another audio track is played from then on: it is the selected one, its stream is
/// read, what was decoded of the old one is gone, and video and subtitles go on.
pub proof fn law_selected_audio_is_played<V>(
    before: PlaybackSession<V>,
    after: PlaybackSession<V>,
    id: i64,
    stream: i32,
)
    ensures
        after.plays_audio(before, Some((id, stream))) ==> {
            &&& after.info.selected_audio_track == Some(id)
            &&& after.audio_stream == Some(stream)
            &&& after.info.audio_output == Some(before.audio_output)
            &&& after.audio_frames@.len() == 0
            &&& after.video_stream == before.video_stream
            &&& after.video_frames == before.video_frames
            &&& after.subtitle_stream == before.subtitle_stream
            &&& after.info.selected_video_track == before.info.selected_video_track
            &&& after.info.selected_subtitle_track == before.info.selected_subtitle_track
        },
        after.plays_audio(before, None) ==> {
            &&& after.info.selected_audio_track is None
            &&& after.audio_stream is None
            &&& after.info.audio_output is None
            &&& after.audio_frames@.len() == 0
            &&& after.video_frames == before.video_frames
        },
{
}

/// An added subtitle file is told as a track of its own, with its name and language,
/// and waits behind the others.
pub proof fn law_added_subtitles_are_told<V>(
    before: PlaybackSession<V>,
    after: PlaybackSession<V>,
    external: ExternalSubtitleSession,
)
    requires
        after.is_with(before, external),
    ensures
        after.info.tracks@.len() == before.info.tracks@.len() + 1,
        after.info.tracks@.drop_last() == before.info.tracks@,
        after.info.tracks@.last().id == external.track.id,
        after.info.tracks@.last().kind == TrackKind::Subtitle,
        after.info.tracks@.last().is_external,
        text_view(after.info.tracks@.last().title) == text_view(external.track.title),
        text_view(after.info.tracks@.last().language) == text_view(external.track.language),
        after.info.subtitle_tracks@.last().id == external.track.id,
        after.info.subtitle_tracks@.last().source == external.track.source,
        after.external_subtitles@.len() == before.external_subtitles@.len() + 1,
        after.external_subtitles@.last() == external,
        after.info.selected_subtitle_track == before.info.selected_subtitle_track,
{
    assert(before.info.tracks@.push(after.info.tracks@.last()).drop_last()
        =~= before.info.tracks@);
}

/// A removed subtitle file is gone from the tracks and the queues, and is no longer
/// selected.
pub proof fn law_removed_subtitles_are_gone<V>(
    before: PlaybackSession<V>,
    after: PlaybackSession<V>,
    track_id: i64,
    at: int,
)
    requires
        after.is_without(before, track_id, at),
        0 <= at < before.external_subtitles@.len(),
    ensures
        after.info.selected_subtitle_track != Some(track_id),
        before.info.selected_subtitle_track != Some(track_id) ==> after.info.selected_subtitle_track
            == before.info.selected_subtitle_track,
        forall|i: int|
            0 <= i < after.info.tracks@.len() ==> (#[trigger] after.info.tracks@[i]).id != track_id,
        forall|i: int|
            0 <= i < after.info.subtitle_tracks@.len() ==> (
            #[trigger] after.info.subtitle_tracks@[i]).id != track_id,
        forall|i: int|
            0 <= i < after.subtitle_frames@.len() ==> (#[trigger] after.subtitle_frames@[i]).track_id
                != track_id,
        after.external_subtitles@.len() == before.external_subtitles@.len() - 1,
        after.video_frames == before.video_frames,
        after.audio_frames == before.audio_frames,
{
    law_removed_track_is_gone(before.info.tracks@, track_id);
    law_removed_track_is_gone(before.info.subtitle_tracks@, track_id);
    law_removed_track_is_gone(before.subtitle_frames@, track_id);
    let tracks = without(before.info.tracks@, track_id);
    assert forall|i: int| 0 <= i < after.info.tracks@.len() implies (
    #[trigger] after.info.tracks@[i]).id != track_id by {
        assert(tracks[i].track() != track_id);
        assert(after.info.tracks@[i].id == tracks[i].id);
    }
    assert forall|i: int| 0 <= i < after.info.subtitle_tracks@.len() implies (
    #[trigger] after.info.subtitle_tracks@[i]).id != track_id by {
        assert(after.info.subtitle_tracks@[i].track() != track_id);
    }
    assert forall|i: int| 0 <= i < after.subtitle_frames@.len() implies (
    #[trigger] after.subtitle_frames@[i]).track_id != track_id by {
        assert(after.subtitle_frames@[i].track() != track_id);
    }
}

/// The subtitle that is drawn is the first of its queue and leaves it; the others
/// wait on, and no other queue changes.
pub proof fn law_drawn_subtitle_leaves_its_queue<V>(
    before: PlaybackSession<V>,
    after: PlaybackSession<V>,
    media_time: nat,
)
    requires
        after.is_drawn_from(before, media_time),
    ensures
        before.ready_subtitle(media_time) is None ==> before.next_subtitle(media_time) is None
            && after == before,
        before.ready_subtitle(media_time) matches Some(CandidateModel::Embedded { .. }) ==> {
            &&& before.next_subtitle(media_time) == Some(before.subtitle_frames@[0])
            &&& seq![before.subtitle_frames@[0]] + after.subtitle_frames@ == before.subtitle_frames@
            &&& after.external_subtitles == before.external_subtitles
        },
        before.ready_subtitle(media_time) matches Some(CandidateModel::External { index, .. }) ==> {
            let queue = before.external_subtitles@[index as int].frames@;
            let rest = after.external_subtitles@[index as int].frames@;
            &&& before.next_subtitle(media_time) == Some(queue[0])
            &&& seq![queue[0]] + rest == queue
            &&& after.subtitle_frames == before.subtitle_frames
        },
        after.video_frames == before.video_frames,
        after.audio_frames == before.audio_frames,
{
    match before.ready_subtitle(media_time) {
        Some(CandidateModel::Embedded { .. }) => {
            assert(seq![before.subtitle_frames@[0]] + after.subtitle_frames@
                =~= before.subtitle_frames@);
        },
        Some(CandidateModel::External { index, .. }) => {
            let queue = before.external_subtitles@[index as int].frames@;
            let rest = after.external_subtitles@[index as int].frames@;
            assert(seq![queue[0]] + rest =~= queue);
        },
        None => {},
    }
}

/// A subtitle file without a name is called by the last part of its address.
pub proof fn law_subtitle_files_are_called_by_their_names(folder: Seq<char>, name: Seq<char>)
    requires
        name.len() > 0,
        !has_char(name, '/'),
        !is_space(name[0]),
        !is_space(name.last()),
    ensures
        title_of(folder + seq!['/'] + name) == Some(name),
{
    let uri = folder + seq!['/'] + name;
    lemma_after_last(folder + seq!['/'], name, '/');
    assert((folder + seq!['/']).last() == '/');
    assert(uri.skip(folder.len() as int + 1) =~= name);
    let none = Seq::<char>::empty();
    law_trimming_takes_white_space(none, name, none);
    assert(none + name + none =~= name);
}

proof fn lemma_after_last(before: Seq<char>, behind: Seq<char>, c: char)
    requires
        before.len() > 0,
        before.last() == c,
        !has_char(behind, c),
    ensures
        after_last(before + behind, c) == before.len(),
    decreases behind.len(),
{
    let s = before + behind;
    if behind.len() == 0 {
        assert(s =~= before);
    } else {
        assert(s.last() == behind[behind.len() - 1]);
        assert(s.drop_last() =~= before + behind.drop_last());
        assert(!has_char(behind.drop_last(), c)) by {
            if has_char(behind.drop_last(), c) {
                let i = choose|i: int|
                    0 <= i < behind.drop_last().len() && behind.drop_last()[i] == c;
                assert(behind[i] == c);
            }
        }
        lemma_after_last(before, behind.drop_last(), c);
    }
}

/// The first embedded track is found, whatever stands behind it, and tracks of other
/// files are passed over.
pub proof fn law_first_embedded_track_is_found(
    first: SubtitleTrackConfig,
    rest: Seq<SubtitleTrackConfig>,
)
    ensures
        first.source is Embedded ==> first_embedded(seq![first] + rest) == Some(first),
        !(first.source is Embedded) ==> first_embedded(seq![first] + rest) == first_embedded(rest),
        first_embedded(Seq::<SubtitleTrackConfig>::empty()) is None,
{
    assert((seq![first] + rest).skip(1) =~= rest);
}

/// The parameters of a track are the first ones that are told of it.
pub proof fn law_parameters_are_found_by_track(first: VideoProbe, rest: Seq<VideoProbe>, id: i64)
    ensures
        first.track_id == id ==> params_of(seq![first] + rest, id) == Some(first.params),
        first.track_id != id ==> params_of(seq![first] + rest, id) == params_of(rest, id),
        params_of(Seq::<VideoProbe>::empty(), id) is None,
{
    assert((seq![first] + rest).skip(1) =~= rest);
}

/// A selected subtitle track is decoded from its own stream if it stands in the file, and
/// without one nothing is decoded.
pub proof fn law_selected_subtitles_are_decoded(
    info: OpenedMediaInfo,
    at: int,
    id: i64,
    result: Result<SubtitleSelectionPlan>,
)
    requires
        0 <= at < info.subtitle_tracks@.len(),
        info.subtitle_tracks@[at].id == id,
        forall|i: int| 0 <= i < at ==> (#[trigger] info.subtitle_tracks@[i]).id != id,
        is_selection_plan(info, Some(id), result),
    ensures
        info.subtitle_tracks@[at].source matches SubtitleTrackSource::Embedded { stream_index }
            ==> i32::MIN <= stream_index <= i32::MAX ==> result is Ok && result->Ok_0
            == SubtitleSelectionPlan::OpenDecoder(stream_index as i32),
        info.subtitle_tracks@[at].source is External ==> result is Ok && result->Ok_0
            == SubtitleSelectionPlan::CloseDecoder,
{
    lemma_index_from(info.subtitle_tracks@, id, 0, at);
}

proof fn lemma_index_from(tracks: Seq<SubtitleTrackConfig>, id: i64, from: nat, at: int)
    requires
        from <= at < tracks.len(),
        tracks[at].id == id,
        forall|i: int| 0 <= i < at ==> (#[trigger] tracks[i]).id != id,
    ensures
        index_of_track(tracks, id, from) == Some(at),
    decreases at - from,
{
    if from < at {
        assert(tracks[from as int].id != id);
        lemma_index_from(tracks, id, from + 1, at);
    }
}

/// Without a selection nothing is decoded, and a track that there is not is refused.
pub proof fn law_missing_subtitles_are_refused(
    info: OpenedMediaInfo,
    id: i64,
    result: Result<SubtitleSelectionPlan>,
)
    ensures
        is_selection_plan(info, None, result) ==> result is Ok && result->Ok_0
            == SubtitleSelectionPlan::CloseDecoder,
        is_selection_plan(info, Some(id), result) && (forall|i: int|
            0 <= i < info.subtitle_tracks@.len() ==> (#[trigger] info.subtitle_tracks@[i]).id != id)
            ==> result is Err && result->Err_0 == (PlaybackError::TrackNotFound {
            kind: TrackKind::Subtitle,
            track_id: id,
        }),
{
    if forall|i: int|
        0 <= i < info.subtitle_tracks@.len() ==> (#[trigger] info.subtitle_tracks@[i]).id != id {
        lemma_no_index_from(info.subtitle_tracks@, id, 0);
    }
}

proof fn lemma_no_index_from(tracks: Seq<SubtitleTrackConfig>, id: i64, from: nat)
    requires
        forall|i: int| 0 <= i < tracks.len() ==> (#[trigger] tracks[i]).id != id,
    ensures
        index_of_track(tracks, id, from) is None,
    decreases tracks.len() - from,
{
    if from < tracks.len() {
        assert(tracks[from as int].id != id);
        lemma_no_index_from(tracks, id, from + 1);
    }
}

/// A frame that takes the subtitles of a track away shows nothing from its time on.
pub proof fn law_clearing_frames_show_nothing(
    frame: DecodedSubtitleFrame,
    track_id: i64,
    media_time: nat,
)
    requires
        clears(frame, track_id, media_time),
    ensures
        frame.track_id == track_id,
        span_view(frame.start) == Some(media_time),
        span_view(frame.end) is None,
        frame.text@.len() == 0,
        frame.bitmap.planes@.len() == 0,
{
}

/// Of the subtitles whose time has come the earliest one is next, and of several that
/// start together the first. None is next before its time.
pub proof fn law_earliest_subtitle_is_next(starts: Seq<(usize, nat)>, media_time: nat)
    ensures
        earliest_ready(starts, media_time) is None <==> (forall|i: int|
            0 <= i < starts.len() ==> (#[trigger] starts[i]).1 > media_time),
        earliest_ready(starts, media_time) matches Some(best) ==> {
            &&& best.1 <= media_time
            &&& exists|k: int|
                0 <= k < starts.len() && #[trigger] starts[k] == best && (forall|i: int|
                    0 <= i < k ==> (#[trigger] starts[i]).1 > best.1)
            &&& forall|i: int| 0 <= i < starts.len() ==> (#[trigger] starts[i]).1 >= best.1
        },
    decreases starts.len(),
{
    if starts.len() > 0 {
        let rest = starts.drop_last();
        law_earliest_subtitle_is_next(rest, media_time);
        assert forall|i: int| 0 <= i < rest.len() implies #[trigger] rest[i] == starts[i] by {}
        let last = starts.last();
        assert(last == starts[starts.len() - 1]);
        let best = earliest_ready(starts, media_time);
        match earliest_ready(rest, media_time) {
            Some(old) => {
                let k = choose|k: int|
                    0 <= k < rest.len() && #[trigger] rest[k] == old && (forall|i: int|
                        0 <= i < k ==> (#[trigger] rest[i]).1 > old.1);
                assert(starts[k] == old);
                assert forall|i: int| 0 <= i < k implies (#[trigger] starts[i]).1 > old.1 by {
                    assert(rest[i].1 > old.1);
                }
                assert forall|i: int| 0 <= i < rest.len() implies (#[trigger] starts[i]).1
                    >= old.1 by {
                    assert(rest[i].1 >= old.1);
                }
            },
            None => {
                assert forall|i: int| 0 <= i < rest.len() implies (#[trigger] starts[i]).1
                    > media_time by {
                    assert(rest[i].1 > media_time);
                }
            },
        }
    }
}

impl<V> PlaybackSession<V> {
    /// The starts that are listed are those of the queues of the selected track, each with
    /// the number of its queue and the time of its first frame.
    pub proof fn law_selected_queues_are_listed(self, upto: int, i: int)
        requires
            0 <= upto <= self.external_subtitles@.len(),
            0 <= i < self.external_starts(upto).len(),
        ensures
            ({
                let (at, start) = self.external_starts(upto)[i];
                &&& at < upto
                &&& self.info.selected_subtitle_track == Some(
                    self.external_subtitles@[at as int].track.id,
                )
                &&& self.external_subtitles@[at as int].frames@.len() > 0
                &&& start == (match self.external_subtitles@[at as int].frames@[0].start {
                    Some(start) => start@,
                    None => 0,
                })
            }),
        decreases upto,
    {
        if upto > 0 {
            let before = self.external_starts(upto - 1);
            if i < before.len() {
                self.law_selected_queues_are_listed(upto - 1, i);
            } else {
                assert(upto - 1 <= usize::MAX) by {
                    assert(self.external_subtitles@.len() == self.external_subtitles.len());
                }
            }
        }
    }

    /// The embedded subtitle that is next is the first of its queue.
    pub proof fn law_first_embedded_subtitle_is_next(self)
        ensures
            self.embedded_start() is None <==> self.subtitle_frames@.len() == 0,
            self.subtitle_frames@.len() > 0 ==> self.embedded_start() == Some(
                match self.subtitle_frames@[0].start {
                    Some(start) => start@,
                    None => 0,
                },
            ),
    {
    }
}

/// A queue is filled up while it is empty, and no longer once it is full, has ended or
/// reaches far enough ahead.
pub proof fn law_queues_are_filled_ahead(queue: ExternalSubtitleSession, media_time: nat)
    requires
        media_time <= MAX_NANOS,
    ensures
        queue.frames@.len() == 0 && !queue.eof ==> queue.is_short(media_time),
        queue.eof ==> !queue.is_short(media_time),
        queue.frames@.len() >= SUBTITLE_FRAME_QUEUE_LIMIT ==> !queue.is_short(media_time),
        queue.frames@.len() > 0 ==> (queue.frames@.last().start matches Some(start) ==> start@
            > sat_add(media_time, EXTERNAL_SUBTITLE_LOOKAHEAD as nat) ==> !queue.is_short(
            media_time,
        )),
        0 < queue.frames@.len() < SUBTITLE_FRAME_QUEUE_LIMIT && !queue.eof ==> (
        queue.frames@.last().start matches Some(start) ==> start@ <= media_time ==> queue.is_short(
            media_time,
        )),
{
}

} // verus!
