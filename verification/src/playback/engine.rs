//! What is shown and heard, and when.
use crate::audio::AudioClockSnapshot;
use crate::ffmpeg::pcm::PcmAudioFrame;
use crate::float_bits::Double;
use crate::media::TrackSelection;
use crate::playback::clock::{
    law_reset_clock_tells_the_time, sane_rate, ClockCorrection, ClockModel, PlaybackClock,
    PlaybackClockSnapshot, PlaybackClockSource,
};
use crate::playback::schedule::{
    lateness, DecisionModel, PlaybackTimingConfig, VideoFrameDecision,
};
use crate::playback::session::{
    clears, has_embedded, index_of_track, is_selection_plan,
    ExternalSubtitleSession, OpenedMediaInfo, PlaybackError, PlaybackSession, PlaybackSessionConfig,
    Pull, Result,
    SubtitlePull, SubtitleSelectionPlan,
};
use crate::subtitle::decoded::DecodedSubtitleFrame;
use crate::time::{law_span_is_in_range, span_view, Duration, MAX_NANOS};
use vstd::prelude::*;

verus! {

broadcast use vstd::seq_lib::group_seq_properties;

/// What playback is doing.
#[derive(Debug, Clone, Copy, PartialEq, Eq, Structural)]
pub enum PlaybackRunState {
    Paused,
    Playing,
    Stopped,
    Ended,
}

/// A decoded video frame that waits.
pub struct QueuedVideoFrame<V> {
    pub frame: V,
    pub pts: Option<Duration>,
}

/// A video frame to show now.
pub struct TimedVideoFrame<V> {
    pub frame: V,
    pub pts: Option<Duration>,
    pub media_time: Duration,
    pub late_by: Option<Duration>,
}

/// Audio to hand on now.
pub struct TimedAudioFrame {
    pub frame: PcmAudioFrame,
    pub pts: Option<Duration>,
    pub media_time: Duration,
    pub late_by: Option<Duration>,
}

/// A subtitle to show now.
pub struct TimedSubtitleFrame {
    pub frame: DecodedSubtitleFrame,
    pub pts: Option<Duration>,
    pub media_time: Duration,
    pub late_by: Option<Duration>,
}

impl TimedSubtitleFrame {
    /// Whether the frame clears the subtitles of a track at a media time.
    pub open spec fn clears_at(self, track_id: i64, media_time: nat) -> bool {
        &&& clears(self.frame, track_id, media_time)
        &&& span_view(self.pts) == Some(media_time)
        &&& self.media_time@ == media_time
        &&& self.late_by is None
    }
}

fn clear_at(frame: DecodedSubtitleFrame, media_time: Duration) -> (result: TimedSubtitleFrame)
    ensures
        result == (TimedSubtitleFrame {
            frame,
            pts: Some(media_time),
            media_time,
            late_by: None,
        }),
{
    TimedSubtitleFrame { frame, pts: Some(media_time), media_time, late_by: None }
}

/// The outcome of a step towards the next video frame.
pub enum VideoStep<V> {
    /// Nothing to show now.
    Done,
    /// Another packet has to be read; so many frames were dropped as late.
    Pump(usize),
    /// A frame was dropped; so many were dropped as late.
    Again(usize),
    /// A frame to show.
    Present(TimedVideoFrame<V>),
}

/// The outcome of a step towards the next audio.
pub enum AudioStep {
    /// Nothing to hand on now.
    Done,
    /// Another packet has to be read.
    Pump,
    /// Audio to hand on.
    Play(TimedAudioFrame),
}

/// The outcome of a step towards the next subtitle.
pub enum SubtitleStep {
    /// Nothing to show now.
    Done,
    /// Another packet of an external file has to be read.
    PumpExternal(usize),
    /// A subtitle to show.
    Show(TimedSubtitleFrame),
}

/// Playback of an opened file.
pub struct VideoPlaybackEngine<V> {
    pub session: PlaybackSession<QueuedVideoFrame<V>>,
    pub state: PlaybackRunState,
    pub clock: PlaybackClock,
    pub timing: PlaybackTimingConfig,
    pub pending_frame: Option<QueuedVideoFrame<V>>,
    pub pending_audio: Option<PcmAudioFrame>,
    pub pending_subtitle: Option<DecodedSubtitleFrame>,
    pub last_presented_pts: Option<Duration>,
    pub eof: bool,
    pub waiting_for_first_frame: bool,
    pub seek_floor: Option<Duration>,
}

/// Whether a frame comes before the position that was sought.
pub open spec fn is_preroll(floor: Option<Duration>, pts: Option<Duration>) -> bool {
    floor is Some && pts is Some && pts->0@ < floor->0@
}

/// A clock that starts with the first frame.
pub open spec fn started(clock: ClockModel, pts: Option<nat>, now: nat) -> ClockModel {
    ClockModel {
        base: match pts {
            Some(pts) => pts,
            None => 0,
        },
        anchor: Some(now),
        rate: clock.rate,
        source: PlaybackClockSource::Wall,
    }
}

impl<V> VideoPlaybackEngine<V> {
    /// Playback of a file that was opened in a given way.
    pub fn open(
        session: PlaybackSession<QueuedVideoFrame<V>>,
        config: PlaybackSessionConfig,
    ) -> (result: Self)
        ensures
            result.is_new(),
            result.session == session,
            result.timing == config.timing,
    {
        Self::from_session_with_timing(session, config.timing)
    }

    /// Playback of an opened file with the usual times.
    pub fn from_session(session: PlaybackSession<QueuedVideoFrame<V>>) -> (result: Self)
        ensures
            result.is_new(),
            result.session == session,
            result.timing.is_default(),
    {
        Self::from_session_with_timing(session, PlaybackTimingConfig::default())
    }

    /// Playback of an opened file: paused at its start.
    pub fn from_session_with_timing(
        session: PlaybackSession<QueuedVideoFrame<V>>,
        timing: PlaybackTimingConfig,
    ) -> (result: Self)
        ensures
            result.is_new(),
            result.session == session,
            result.timing == timing,
    {
        Self {
            session,
            state: PlaybackRunState::Paused,
            clock: PlaybackClock::default(),
            timing,
            pending_frame: None,
            pending_audio: None,
            pending_subtitle: None,
            last_presented_pts: None,
            eof: false,
            waiting_for_first_frame: false,
            seek_floor: None,
        }
    }

    /// Whether nothing has been played.
    pub open spec fn is_new(self) -> bool {
        &&& self.state == PlaybackRunState::Paused
        &&& self.clock@.base == 0
        &&& self.clock@.anchor is None
        &&& self.clock@.source == PlaybackClockSource::Wall
        &&& self.clock@.rate.bits == crate::playback::clock::RATE_ONE
        &&& self.pending_frame is None
        &&& self.pending_audio is None
        &&& self.pending_subtitle is None
        &&& self.last_presented_pts is None
        &&& !self.eof
        &&& !self.waiting_for_first_frame
        &&& self.seek_floor is None
    }

    /// What is known of the file.
    pub fn info(&self) -> (result: &OpenedMediaInfo)
        ensures
            *result == self.session.info,
    {
        self.session.info()
    }

    /// The tracks that are played.
    pub fn track_selection(&self) -> (result: TrackSelection)
        ensures
            result == (TrackSelection {
                video: self.session.info.selected_video_track,
                audio: self.session.info.selected_audio_track,
                subtitle: self.session.info.selected_subtitle_track,
            }),
    {
        self.session.track_selection()
    }

    /// What playback is doing.
    pub fn state(&self) -> (result: PlaybackRunState)
        ensures
            result == self.state,
    {
        self.state
    }

    /// The media time.
    pub fn media_time(&self, now: Duration) -> (result: Duration)
        requires
            self.clock@.reads_at(now@),
        ensures
            result@ == self.clock@.media_time(now@),
    {
        self.clock.media_time_at(now)
    }

    /// Where the clock stands.
    pub fn clock_snapshot(&self, now: Duration) -> (result: PlaybackClockSnapshot)
        requires
            self.clock@.reads_at(now@),
        ensures
            result.media_time@ == self.clock@.media_time(now@),
            result.source == self.clock@.source,
            result.rate == self.clock@.rate,
    {
        self.clock.snapshot_at(now)
    }

    /// The times that playback keeps.
    pub fn timing_config(&self) -> (result: PlaybackTimingConfig)
        ensures
            result == self.timing,
    {
        self.timing
    }

    /// Changes the times that playback keeps.
    pub fn set_timing_config(&mut self, timing: PlaybackTimingConfig)
        ensures
            *final(self) == (VideoPlaybackEngine { timing, ..*old(self) }),
    {
        self.timing = timing;
    }

    /// Plays on. Before the first frame has been shown, the clock waits for it.
    pub fn play(&mut self, now: Duration)
        ensures
            ({
                let waits = old(self).last_presented_pts is None;
                if old(self).state == PlaybackRunState::Playing || old(self).state
                    == PlaybackRunState::Ended {
                    *final(self) == *old(self)
                } else {
                    &&& final(self).clock@ == (if waits {
                        old(self).clock@
                    } else {
                        old(self).clock@.played(now@)
                    })
                    &&& *final(self) == (VideoPlaybackEngine {
                        state: PlaybackRunState::Playing,
                        clock: final(self).clock,
                        waiting_for_first_frame: waits,
                        ..*old(self)
                    })
                }
            }),
    {
        if self.state == PlaybackRunState::Playing || self.state == PlaybackRunState::Ended {
            return ;
        }
        let waits = self.last_presented_pts.is_none();
        if !waits {
            self.clock.play(now);
        }
        self.state = PlaybackRunState::Playing;
        self.waiting_for_first_frame = waits;
    }

    /// Pauses, if it plays.
    pub fn pause(&mut self, now: Duration)
        requires
            old(self).state == PlaybackRunState::Playing ==> old(self).clock@.reads_at(now@),
        ensures
            if old(self).state != PlaybackRunState::Playing {
                *final(self) == *old(self)
            } else {
                &&& final(self).clock@ == old(self).clock@.paused(now@)
                &&& final(self).clock@.media_time(now@) == old(self).clock@.media_time(now@)
                &&& *final(self) == (VideoPlaybackEngine {
                    state: PlaybackRunState::Paused,
                    clock: final(self).clock,
                    ..*old(self)
                })
            },
    {
        if self.state != PlaybackRunState::Playing {
            return ;
        }
        self.clock.pause(now);
        self.state = PlaybackRunState::Paused;
    }

    /// Stops: back to the start, with nothing pending.
    pub fn stop(&mut self, now: Duration)
        ensures
            final(self).clock@ == old(self).clock@.reset_to(0, false, now@),
            final(self).clock@.media_time(now@) == 0,
            *final(self) == (VideoPlaybackEngine {
                state: PlaybackRunState::Stopped,
                clock: final(self).clock,
                pending_frame: None,
                pending_audio: None,
                pending_subtitle: None,
                last_presented_pts: None,
                eof: false,
                waiting_for_first_frame: false,
                seek_floor: None,
                ..*old(self)
            }),
    {
        self.clock.reset(Duration::zero(), false, now);
        self.pending_frame = None;
        self.pending_audio = None;
        self.pending_subtitle = None;
        self.last_presented_pts = None;
        self.state = PlaybackRunState::Stopped;
        self.eof = false;
        self.waiting_for_first_frame = false;
        self.seek_floor = None;
    }

    /// What a change of the position comes to. The run state stays, and frames
    /// before the position will not be shown.
    pub open spec fn is_sought(self, before: Self, position: nat, now: nat) -> bool {
        let plays = before.state == PlaybackRunState::Playing;
        &&& self.clock@ == before.clock@.reset_to(position, plays, now)
        &&& self.session.video_frames@.len() == 0
        &&& self.session.audio_frames@.len() == 0
        &&& self.session.subtitle_frames@.len() == 0
        &&& !self.session.eof
        &&& self.session.info == before.session.info
        &&& self.session.external_subtitles@.len() == before.session.external_subtitles@.len()
        &&& forall|i: int|
            0 <= i < self.session.external_subtitles@.len() ==> {
                &&& (#[trigger] self.session.external_subtitles@[i]).frames@.len() == 0
                &&& !self.session.external_subtitles@[i].eof
                &&& self.session.external_subtitles@[i].track
                    == before.session.external_subtitles@[i].track
            }
        &&& span_view(self.seek_floor) == Some(position)
        &&& self == (VideoPlaybackEngine {
            session: PlaybackSession {
                external_subtitles: self.session.external_subtitles,
                video_frames: self.session.video_frames,
                audio_frames: self.session.audio_frames,
                subtitle_frames: self.session.subtitle_frames,
                eof: false,
                ..before.session
            },
            clock: self.clock,
            pending_frame: None,
            pending_audio: None,
            pending_subtitle: None,
            last_presented_pts: None,
            eof: false,
            waiting_for_first_frame: plays,
            seek_floor: self.seek_floor,
            ..before
        })
    }

    /// Goes on at another position, to which the file was put.
    pub fn seek(&mut self, position: Duration, now: Duration)
        ensures
            final(self).is_sought(*old(self), position@, now@),
            final(self).clock@.media_time(now@) == position@,
    {
        self.reset_streams_at(position, now);
    }

    /// Forgets what was decoded, after the file was put to a media time.
    pub fn reset_streams_at(&mut self, media_time: Duration, now: Duration)
        ensures
            final(self).is_sought(*old(self), media_time@, now@),
            final(self).clock@.media_time(now@) == media_time@,
    {
        proof {
            use_type_invariant(&media_time);
            law_span_is_in_range(media_time);
            law_reset_clock_tells_the_time(
                self.clock@,
                media_time@,
                self.state == PlaybackRunState::Playing,
                now@,
                now@,
            );
        }
        self.session.seek();
        let plays = self.state == PlaybackRunState::Playing;
        self.clock.reset(media_time, plays, now);
        self.pending_frame = None;
        self.pending_audio = None;
        self.pending_subtitle = None;
        self.last_presented_pts = None;
        self.eof = false;
        self.waiting_for_first_frame = plays;
        self.seek_floor = Some(media_time);
    }

    /// Plays at another rate.
    pub fn set_playback_rate(&mut self, rate: Double, now: Duration)
        requires
            old(self).clock@.reads_at(now@),
        ensures
            final(self).clock@ == old(self).clock@.rated(rate, now@),
            *final(self) == (VideoPlaybackEngine { clock: final(self).clock, ..*old(self) }),
    {
        self.clock.set_rate(rate, now);
    }

    /// Moves the clock towards what is heard, while it plays and something is.
    pub fn sync_to_audio_clock(&mut self, snapshot: AudioClockSnapshot, now: Duration) -> (result:
        Option<ClockCorrection>)
        requires
            old(self).clock@.reads_at(now@),
        ensures
            result is Some <==> old(self).state == PlaybackRunState::Playing
                && snapshot.media_time is Some,
            result matches Some(correction) ==> {
                &&& final(self).clock@ == old(self).clock@.disciplined(
                    snapshot.media_time->0@,
                    now@,
                    PlaybackClockSource::Audio,
                    old(self).timing.audio_sync,
                )
                &&& correction.is_correction_of(
                    old(self).clock@.media_time(now@),
                    snapshot.media_time->0@,
                    PlaybackClockSource::Audio,
                    old(self).timing.audio_sync,
                )
                &&& *final(self) == (VideoPlaybackEngine { clock: final(self).clock, ..*old(self) })
            },
            result is None ==> *final(self) == *old(self),
    {
        if self.state != PlaybackRunState::Playing {
            return None;
        }
        match snapshot.media_time {
            None => None,
            Some(media_time) => {
                let sync = self.timing.audio_sync;
                Some(self.clock.discipline_to(media_time, now, PlaybackClockSource::Audio, sync))
            },
        }
    }

    // -----------------------------------------------------------------------
    // Video
    // -----------------------------------------------------------------------

    /// Whether another packet has to be read before there is a frame to look at.
    pub open spec fn lacks_video(self) -> bool {
        &&& self.pending_frame is None
        &&& self.session.video_stream is Some
        &&& self.session.video_frames@.len() == 0
        &&& !self.session.eof
    }

    /// Whether there is a frame to look at.
    pub open spec fn has_video(self) -> bool {
        self.pending_frame is Some || (self.session.video_stream is Some
            && self.session.video_frames@.len() > 0)
    }

    /// The frame to look at.
    pub open spec fn next_video(self) -> QueuedVideoFrame<V> {
        match self.pending_frame {
            Some(frame) => frame,
            None => self.session.video_frames@[0],
        }
    }

    /// The frames that wait behind it.
    pub open spec fn later_video(self) -> Seq<QueuedVideoFrame<V>> {
        match self.pending_frame {
            Some(_) => self.session.video_frames@,
            None => self.session.video_frames@.skip(1),
        }
    }

    /// The clock after a frame was looked at: it starts with the first frame.
    pub open spec fn clock_after_video(self, now: nat) -> ClockModel {
        if self.last_presented_pts is None && self.waiting_for_first_frame {
            started(self.clock@, span_view(self.next_video().pts), now)
        } else {
            self.clock@
        }
    }

    /// What becomes of the frame to look at.
    pub open spec fn video_decision(self, now: nat) -> DecisionModel {
        self.timing.video_scheduler.decide(
            span_view(self.next_video().pts),
            self.clock_after_video(now).media_time(now),
            self.last_presented_pts is None,
        )
    }

    /// One step towards the next video frame. Frames before a position that was
    /// sought are dropped without being counted; of the late ones, only so many
    /// in a row.
    pub fn tick(&mut self, consecutive_drops: usize, now: Duration) -> (result: VideoStep<V>)
        requires
            old(self).clock@.reads_at(now@),
        ensures
            final(self).is_ticked(*old(self), consecutive_drops, now@, result),
    {
        if self.state != PlaybackRunState::Playing {
            return VideoStep::Done;
        }
        if self.pending_frame.is_none() && !self.eof {
            match self.session.next_video_frame() {
                Pull::Pump => {
                    assert(self.session.video_frames@ =~= old(self).session.video_frames@);
                    return VideoStep::Pump(consecutive_drops);
                },
                Pull::Nothing => {
                    self.eof = true;
                    self.state = PlaybackRunState::Ended;
                    let end = match self.session.info.duration {
                        Some(duration) => duration,
                        None => self.clock.media_time_at(now),
                    };
                    self.clock.reset(end, false, now);
                    return VideoStep::Done;
                },
                Pull::Frame(frame) => {
                    self.pending_frame = Some(frame);
                },
            }
        }
        let ghost seen = *self;
        let queued = match self.pending_frame.take() {
            Some(frame) => frame,
            None => {
                return VideoStep::Done;
            },
        };
        let pts = queued.pts;
        if self.should_drop_seek_preroll(pts) {
            return VideoStep::Again(consecutive_drops);
        }
        let first = self.last_presented_pts.is_none();
        if first && self.waiting_for_first_frame {
            let start = match pts {
                Some(pts) => pts,
                None => Duration::zero(),
            };
            self.clock.sync_to(start, now, PlaybackClockSource::Wall);
            self.clock.play(now);
            self.waiting_for_first_frame = false;
            proof {
                crate::binary64::lemma_scaled_nothing(
                    (
                        sane_rate(self.clock@.rate).mantissa(),
                        sane_rate(self.clock@.rate).scale(),
                    ),
                );
            }
        }
        let media_time = self.clock.media_time_at(now);
        let decision = self.timing.video_scheduler.schedule(pts, media_time, first);
        match decision {
            VideoFrameDecision::Wait { .. } => {
                self.pending_frame = Some(queued);
                return VideoStep::Done;
            },
            VideoFrameDecision::Drop { .. } => {
                if consecutive_drops < self.timing.video_scheduler.max_consecutive_drops {
                    return VideoStep::Again(consecutive_drops + 1);
                }
            },
            VideoFrameDecision::Present { .. } => {},
        }
        self.last_presented_pts = pts;
        VideoStep::Present(
            TimedVideoFrame { frame: queued.frame, pts, media_time, late_by: decision.late_by() },
        )
    }

    /// What a step towards the next video frame comes to.
    pub open spec fn is_ticked(
        self,
        before: Self,
        drops: usize,
        now: nat,
        step: VideoStep<V>,
    ) -> bool {
        if before.state != PlaybackRunState::Playing || (before.eof && before.pending_frame is None) {
            &&& step is Done
            &&& self == before
        } else if before.lacks_video() {
            &&& step == VideoStep::<V>::Pump(drops)
            &&& self.session.video_frames@ == before.session.video_frames@
            &&& self.keeps(before)
            &&& self.clock == before.clock
            &&& self.pending_frame is None
            &&& self.state == before.state
            &&& self.eof == before.eof
            &&& self.last_presented_pts == before.last_presented_pts
            &&& self.waiting_for_first_frame == before.waiting_for_first_frame
            &&& self.seek_floor == before.seek_floor
        } else if !before.has_video() {
            &&& step is Done
            &&& self.state == PlaybackRunState::Ended
            &&& self.eof
            &&& self.clock@ == before.clock@.reset_to(
                match before.session.info.duration {
                    Some(duration) => duration@,
                    None => before.clock@.media_time(now),
                },
                false,
                now,
            )
            &&& self.session.video_frames@ == before.session.video_frames@
            &&& self.keeps(before)
            &&& self.pending_frame is None
            &&& self.last_presented_pts == before.last_presented_pts
            &&& self.waiting_for_first_frame == before.waiting_for_first_frame
            &&& self.seek_floor == before.seek_floor
        } else {
            let next = before.next_video();
            let first = before.last_presented_pts is None;
            &&& self.session.video_frames@ == before.later_video()
            &&& self.keeps(before)
            &&& self.state == before.state
            &&& self.eof == before.eof
            &&& if is_preroll(before.seek_floor, next.pts) {
                &&& step == VideoStep::<V>::Again(drops)
                &&& self.clock == before.clock
                &&& self.pending_frame is None
                &&& self.last_presented_pts == before.last_presented_pts
                &&& self.waiting_for_first_frame == before.waiting_for_first_frame
                &&& self.seek_floor == before.seek_floor
            } else {
                let decision = before.video_decision(now);
                let is_dropped = decision is Drop && drops
                    < before.timing.video_scheduler.max_consecutive_drops;
                &&& self.clock@ == before.clock_after_video(now)
                &&& self.waiting_for_first_frame == (before.waiting_for_first_frame && !first)
                &&& self.seek_floor is None
                &&& if decision is Wait {
                    &&& step is Done
                    &&& self.pending_frame == Some(next)
                    &&& self.last_presented_pts == before.last_presented_pts
                } else if is_dropped {
                    &&& step matches VideoStep::Again(count) && count == drops + 1
                    &&& self.pending_frame is None
                    &&& self.last_presented_pts == before.last_presented_pts
                } else {
                    &&& self.pending_frame is None
                    &&& self.last_presented_pts == next.pts
                    &&& step matches VideoStep::Present(shown) && {
                        &&& shown.frame == next.frame
                        &&& shown.pts == next.pts
                        &&& shown.media_time@ == before.clock_after_video(now).media_time(now)
                        &&& span_view(shown.late_by) == (match decision {
                            DecisionModel::Present { late_by } => late_by,
                            DecisionModel::Drop { late_by } => Some(late_by),
                            DecisionModel::Wait { .. } => None,
                        })
                    }
                }
            }
        }
    }

    /// Whether audio, subtitles, tracks and times are as before.
    pub open spec fn keeps(self, before: Self) -> bool {
        &&& self.session == (PlaybackSession {
            video_frames: self.session.video_frames,
            ..before.session
        })
        &&& self.timing == before.timing
        &&& self.pending_audio == before.pending_audio
        &&& self.pending_subtitle == before.pending_subtitle
    }

    fn should_drop_seek_preroll(&mut self, pts: Option<Duration>) -> (result: bool)
        ensures
            result == is_preroll(old(self).seek_floor, pts),
            *final(self) == (VideoPlaybackEngine {
                seek_floor: if result {
                    old(self).seek_floor
                } else {
                    None
                },
                ..*old(self)
            }),
    {
        let target = match self.seek_floor {
            Some(target) => target,
            None => {
                return false;
            },
        };
        if let Some(pts) = pts {
            if pts.is_before(target) {
                return true;
            }
        }
        self.seek_floor = None;
        false
    }

    // -----------------------------------------------------------------------
    // Audio
    // -----------------------------------------------------------------------

    /// The next decoded audio, or what has to be done to get some.
    pub fn next_audio_frame(&mut self) -> (result: Pull<PcmAudioFrame>)
        ensures
            match result {
                Pull::Frame(frame) => {
                    &&& old(self).session.audio_stream is Some
                    &&& old(self).session.audio_frames@.len() > 0
                    &&& frame == old(self).session.audio_frames@[0]
                    &&& final(self).session.audio_frames@ == old(self).session.audio_frames@.skip(1)
                },
                Pull::Nothing => {
                    &&& old(self).session.audio_stream is None || (old(
                        self,
                    ).session.audio_frames@.len() == 0 && (old(self).session.eof || old(
                        self,
                    ).session.has_enough_video()))
                    &&& final(self).session.audio_frames@ == old(self).session.audio_frames@
                },
                Pull::Pump => {
                    &&& old(self).session.audio_stream is Some
                    &&& old(self).session.audio_frames@.len() == 0
                    &&& !old(self).session.eof
                    &&& !old(self).session.has_enough_video()
                    &&& final(self).session.audio_frames@ == old(self).session.audio_frames@
                },
            },
            *final(self) == (VideoPlaybackEngine {
                session: PlaybackSession {
                    audio_frames: final(self).session.audio_frames,
                    ..old(self).session
                },
                ..*old(self)
            }),
    {
        self.session.next_audio_frame()
    }

    /// The audio to look at, if there is some.
    pub open spec fn next_audio(self) -> Option<PcmAudioFrame> {
        if self.pending_audio is Some {
            self.pending_audio
        } else if !self.eof && self.session.audio_stream is Some
            && self.session.audio_frames@.len() > 0 {
            Some(self.session.audio_frames@[0])
        } else {
            None
        }
    }

    /// The audio that waits behind it.
    pub open spec fn later_audio(self) -> Seq<PcmAudioFrame> {
        if self.pending_audio is Some || self.next_audio() is None {
            self.session.audio_frames@
        } else {
            self.session.audio_frames@.skip(1)
        }
    }

    /// Whether another packet has to be read before there is audio to look at.
    pub open spec fn lacks_audio(self) -> bool {
        &&& self.pending_audio is None
        &&& !self.eof
        &&& self.session.audio_stream is Some
        &&& self.session.audio_frames@.len() == 0
        &&& !self.session.eof
        &&& !self.session.has_enough_video()
    }

    /// How far ahead audio is handed on.
    pub open spec fn audio_reach(self, now: nat) -> nat {
        self.clock@.media_time(now) + self.timing.audio_lead_time@
    }

    /// What a step towards the next audio comes to.
    pub open spec fn is_audio_ticked(self, before: Self, now: nat, step: AudioStep) -> bool {
        let next = before.next_audio();
        if before.state != PlaybackRunState::Playing {
            step is Done && self == before
        } else if before.lacks_audio() {
            &&& step is Pump
            &&& self.session.audio_frames@ == before.session.audio_frames@
            &&& self.pending_audio is None
        } else if next is None {
            &&& step is Done
            &&& self.session.audio_frames@ == before.session.audio_frames@
            &&& self.pending_audio is None
        } else if next->0.pts is Some && next->0.pts->0@ > before.audio_reach(now) {
            &&& step is Done
            &&& self.session.audio_frames@ == before.later_audio()
            &&& self.pending_audio == next
        } else {
            &&& self.session.audio_frames@ == before.later_audio()
            &&& self.pending_audio is None
            &&& step matches AudioStep::Play(play) && {
                &&& play.frame == next->0
                &&& play.pts == next->0.pts
                &&& play.media_time@ == before.clock@.media_time(now)
                &&& span_view(play.late_by) == (match play.pts {
                    Some(pts) => lateness(pts@, before.clock@.media_time(now)),
                    None => None,
                })
            }
        }
    }

    /// One step towards the next audio. It is handed on a little ahead of time.
    pub fn tick_audio(&mut self, now: Duration) -> (result: AudioStep)
        requires
            old(self).clock@.reads_at(now@),
            old(self).next_audio() matches Some(frame) && frame.pts is Some ==> old(
                self,
            ).audio_reach(now@) <= MAX_NANOS,
        ensures
            final(self).is_audio_ticked(*old(self), now@, result),
            *final(self) == (VideoPlaybackEngine {
                session: PlaybackSession {
                    audio_frames: final(self).session.audio_frames,
                    ..old(self).session
                },
                pending_audio: final(self).pending_audio,
                ..*old(self)
            }),
    {
        if self.state != PlaybackRunState::Playing {
            return AudioStep::Done;
        }
        if self.pending_audio.is_none() && !self.eof {
            match self.session.next_audio_frame() {
                Pull::Pump => {
                    return AudioStep::Pump;
                },
                Pull::Nothing => {},
                Pull::Frame(frame) => {
                    self.pending_audio = Some(frame);
                },
            }
        }
        let frame = match self.pending_audio.take() {
            Some(frame) => frame,
            None => {
                return AudioStep::Done;
            },
        };
        let pts = frame.pts;
        let media_time = self.clock.media_time_at(now);
        let mut late_by: Option<Duration> = None;
        if let Some(pts) = pts {
            let is_early = match media_time.checked_add(self.timing.audio_lead_time) {
                Some(reach) => reach.is_before(pts),
                None => false,
            };
            if is_early {
                self.pending_audio = Some(frame);
                return AudioStep::Done;
            }
            late_by = media_time.checked_sub(pts);
        }
        AudioStep::Play(TimedAudioFrame { frame, pts, media_time, late_by })
    }

    // -----------------------------------------------------------------------
    // Subtitles
    // -----------------------------------------------------------------------

    /// Whether a subtitle is drawn from the queues.
    pub open spec fn draws_subtitle(self) -> bool {
        self.pending_subtitle is None && !self.eof
    }

    /// Whether an external file has to be read before there is a subtitle to look
    /// at.
    pub open spec fn lacks_subtitle(self, media_time: nat) -> bool {
        self.draws_subtitle() && self.session.has_subtitles() && self.session.must_pump(media_time)
    }

    /// The subtitle to look at, if there is one.
    pub open spec fn next_subtitle(self, media_time: nat) -> Option<DecodedSubtitleFrame> {
        if !self.draws_subtitle() {
            self.pending_subtitle
        } else if !self.session.has_subtitles() {
            None
        } else {
            self.session.next_subtitle(media_time)
        }
    }

    /// What a step towards the next subtitle comes to.
    pub open spec fn is_subtitle_ticked(self, before: Self, now: nat, step: SubtitleStep) -> bool {
        let media_time = before.clock@.media_time(now);
        let next = before.next_subtitle(media_time);
        if before.state != PlaybackRunState::Playing {
            step is Done && self == before
        } else if before.lacks_subtitle(media_time) {
            &&& step matches SubtitleStep::PumpExternal(index)
                && before.session.selected_external() == Some(index as int)
            &&& self == before
        } else if next is None {
            &&& step is Done
            &&& self == before
        } else if next->0.start is Some && next->0.start->0@ > media_time {
            &&& step is Done
            &&& self.pending_subtitle == next
        } else {
            &&& self.pending_subtitle is None
            &&& step matches SubtitleStep::Show(show) && {
                &&& show.frame == next->0
                &&& show.pts == next->0.start
                &&& show.media_time@ == media_time
                &&& span_view(show.late_by) == (match show.pts {
                    Some(pts) => Some((media_time - pts@) as nat),
                    None => None,
                })
            }
        }
    }

    /// One step towards the next subtitle.
    pub fn tick_subtitle(&mut self, now: Duration) -> (result: SubtitleStep)
        requires
            old(self).clock@.reads_at(now@),
        ensures
            final(self).is_subtitle_ticked(*old(self), now@, result),
            ({
                let media_time = old(self).clock@.media_time(now@);
                if old(self).state == PlaybackRunState::Playing && old(self).draws_subtitle()
                    && old(self).session.has_subtitles() && !old(self).lacks_subtitle(media_time) {
                    final(self).session.is_drawn_from(old(self).session, media_time)
                } else {
                    final(self).session == old(self).session
                }
            }),
            *final(self) == (VideoPlaybackEngine {
                session: PlaybackSession {
                    subtitle_frames: final(self).session.subtitle_frames,
                    external_subtitles: final(self).session.external_subtitles,
                    ..old(self).session
                },
                pending_subtitle: final(self).pending_subtitle,
                ..*old(self)
            }),
    {
        if self.state != PlaybackRunState::Playing {
            return SubtitleStep::Done;
        }
        let media_time = self.clock.media_time_at(now);
        if self.pending_subtitle.is_none() && !self.eof {
            match self.session.next_subtitle_frame(media_time) {
                SubtitlePull::PumpExternal(index) => {
                    return SubtitleStep::PumpExternal(index);
                },
                SubtitlePull::Nothing => {},
                SubtitlePull::Frame(frame) => {
                    self.pending_subtitle = Some(frame);
                },
            }
        }
        let frame = match self.pending_subtitle.take() {
            Some(frame) => frame,
            None => {
                return SubtitleStep::Done;
            },
        };
        let pts = frame.start;
        let mut late_by: Option<Duration> = None;
        if let Some(pts) = pts {
            if media_time.is_before(pts) {
                self.pending_subtitle = Some(frame);
                return SubtitleStep::Done;
            }
            late_by = media_time.checked_sub(pts);
        }
        SubtitleStep::Show(TimedSubtitleFrame { frame, pts, media_time, late_by })
    }

    // -----------------------------------------------------------------------
    // Tracks
    // -----------------------------------------------------------------------

    /// Adds an external track, whose file was put to the media time. It still has
    /// to be selected: the result is what that takes.
    pub fn add_external_subtitle(&mut self, external: ExternalSubtitleSession) -> (result: Result<
        SubtitleSelectionPlan,
    >)
        ensures
            final(self).session.is_with(old(self).session, external),
            is_selection_plan(final(self).session.info, Some(external.track.id), result),
            *final(self) == (VideoPlaybackEngine { session: final(self).session, ..*old(self) }),
    {
        self.session.add_external_subtitle(external)
    }

    /// Plays an audio track whose decoder was opened, or none. The streams have to
    /// be reset to the media time afterwards.
    pub fn select_audio_track(&mut self, selection: Option<(i64, i32)>) -> (result: Result<
        Vec<i32>,
    >)
        ensures
            final(self).session.plays_audio(old(self).session, selection),
            final(self).session.is_reselected(old(self).session.info.tracks@, result),
            *final(self) == (VideoPlaybackEngine { session: final(self).session, ..*old(self) }),
    {
        self.session.select_audio_track(selection)
    }

    /// Selects an external track that was added, whose plan was carried out. Gives
    /// the streams to read from now on, and a frame that clears the subtitles of
    /// the track before.
    pub fn select_added_subtitle(
        &mut self,
        track_id: i64,
        plan: SubtitleSelectionPlan,
        media_time: Duration,
    ) -> (result: (Option<TimedSubtitleFrame>, Result<Vec<i32>>))
        ensures
            result.0 is Some <==> old(self).session.info.selected_subtitle_track is Some,
            result.0 matches Some(frame) ==> frame.clears_at(
                old(self).session.info.selected_subtitle_track->0,
                media_time@,
            ),
            final(self).session.info.selected_subtitle_track == Some(track_id),
            final(self).session.subtitle_stream == (match plan {
                SubtitleSelectionPlan::OpenDecoder(stream) => Some(stream),
                SubtitleSelectionPlan::CloseDecoder => None,
            }),
            final(self).session.subtitle_frames@.len() == 0,
            final(self).session.is_reselected(old(self).session.info.tracks@, result.1),
            *final(self) == (VideoPlaybackEngine {
                session: PlaybackSession {
                    info: OpenedMediaInfo {
                        tracks: final(self).session.info.tracks,
                        selected_subtitle_track: Some(track_id),
                        ..old(self).session.info
                    },
                    subtitle_stream: final(self).session.subtitle_stream,
                    subtitle_frames: final(self).session.subtitle_frames,
                    ..old(self).session
                },
                pending_subtitle: if result.1 is Ok {
                    None
                } else {
                    old(self).pending_subtitle
                },
                ..*old(self)
            }),
    {
        let (clear, streams) = self.session.select_subtitle_track(Some(track_id), plan, media_time);
        if streams.is_ok() {
            self.pending_subtitle = None;
        }
        let clear = match clear {
            Some(frame) => Some(clear_at(frame, media_time)),
            None => None,
        };
        (clear, streams)
    }

    /// Takes an external track out.
    pub fn remove_subtitle_track(&mut self, track_id: i64, now: Duration) -> (result: Result<
        Option<TimedSubtitleFrame>,
    >)
        requires
            old(self).clock@.reads_at(now@),
        ensures
            match index_of_track(old(self).session.external_subtitles@, track_id, 0) {
                None => {
                    &&& *final(self) == *old(self)
                    &&& if has_embedded(old(self).session.info.subtitle_tracks@, track_id) {
                        result matches Err(error) && error
                            == PlaybackError::SubtitleTrackNotRemovable(track_id)
                    } else {
                        result matches Ok(frame) && frame is None
                    }
                },
                Some(at) => {
                    &&& result matches Ok(frame) && frame is Some && frame->0.clears_at(
                        track_id,
                        old(self).clock@.media_time(now@),
                    )
                    &&& final(self).session.is_without(old(self).session, track_id, at)
                    &&& *final(self) == (VideoPlaybackEngine {
                        session: final(self).session,
                        pending_subtitle: None,
                        ..*old(self)
                    })
                },
            },
    {
        let media_time = self.clock.media_time_at(now);
        match self.session.remove_subtitle_track(track_id, media_time) {
            Err(error) => Err(error),
            Ok(None) => Ok(None),
            Ok(Some(frame)) => {
                self.pending_subtitle = None;
                Ok(Some(clear_at(frame, media_time)))
            },
        }
    }

    /// Plays a subtitle track whose plan was carried out, or none. The streams
    /// have to be reset to the media time afterwards.
    pub fn select_subtitle_track(
        &mut self,
        track_id: Option<i64>,
        plan: SubtitleSelectionPlan,
        media_time: Duration,
    ) -> (result: (Option<TimedSubtitleFrame>, Result<Vec<i32>>))
        ensures
            result.0 is Some <==> old(self).session.info.selected_subtitle_track is Some,
            result.0 matches Some(frame) ==> frame.clears_at(
                old(self).session.info.selected_subtitle_track->0,
                media_time@,
            ),
            final(self).session.subtitle_stream == (match plan {
                SubtitleSelectionPlan::OpenDecoder(stream) => Some(stream),
                SubtitleSelectionPlan::CloseDecoder => None,
            }),
            final(self).session.subtitle_frames@.len() == 0,
            final(self).session.is_reselected(old(self).session.info.tracks@, result.1),
            *final(self) == (VideoPlaybackEngine {
                session: PlaybackSession {
                    info: OpenedMediaInfo {
                        tracks: final(self).session.info.tracks,
                        selected_subtitle_track: track_id,
                        ..old(self).session.info
                    },
                    subtitle_stream: final(self).session.subtitle_stream,
                    subtitle_frames: final(self).session.subtitle_frames,
                    ..old(self).session
                },
                ..*old(self)
            }),
    {
        let (clear, streams) = self.session.select_subtitle_track(track_id, plan, media_time);
        let clear = match clear {
            Some(frame) => Some(clear_at(frame, media_time)),
            None => None,
        };
        (clear, streams)
    }
}

/// While a position is sought, no frame before it is shown.
pub proof fn law_nothing_before_the_sought_position_is_shown<V>(
    before: VideoPlaybackEngine<V>,
    after: VideoPlaybackEngine<V>,
    drops: usize,
    now: nat,
    step: VideoStep<V>,
)
    requires
        after.is_ticked(before, drops, now, step),
        before.seek_floor is Some,
    ensures
        step matches VideoStep::Present(shown) ==> (shown.pts is Some ==> shown.pts->0@
            >= before.seek_floor->0@),
{
}

/// No more late frames are dropped in a row than the scheduler allows: once so
/// many were, a late frame is shown.
pub proof fn law_late_frames_are_shown_in_the_end<V>(
    before: VideoPlaybackEngine<V>,
    after: VideoPlaybackEngine<V>,
    drops: usize,
    now: nat,
    step: VideoStep<V>,
)
    requires
        after.is_ticked(before, drops, now, step),
        drops <= before.timing.video_scheduler.max_consecutive_drops,
    ensures
        step matches VideoStep::Again(count) ==> count
            <= before.timing.video_scheduler.max_consecutive_drops,
        step matches VideoStep::Pump(count) ==> count == drops,
        before.state == PlaybackRunState::Playing && before.has_video() && !is_preroll(
            before.seek_floor,
            before.next_video().pts,
        ) && !(before.eof && before.pending_frame is None) && before.video_decision(now) is Drop
            && drops == before.timing.video_scheduler.max_consecutive_drops ==> step is Present,
{
}

/// The first frame after a start or a change of the position is shown as soon as
/// it is there, whatever its time.
pub proof fn law_first_frame_is_shown_at_once<V>(
    before: VideoPlaybackEngine<V>,
    after: VideoPlaybackEngine<V>,
    drops: usize,
    now: nat,
    step: VideoStep<V>,
)
    requires
        after.is_ticked(before, drops, now, step),
        before.state == PlaybackRunState::Playing,
        before.last_presented_pts is None,
        before.pending_frame is Some || !before.eof,
        before.has_video(),
        !is_preroll(before.seek_floor, before.next_video().pts),
    ensures
        step is Present,
{
}

/// After a change of the position the clock tells the position, whether it runs or
/// not, and runs just if playback plays. Nothing that was decoded before is left, and
/// playback goes on as it did.
pub proof fn law_seek_goes_to_the_position<V>(
    before: VideoPlaybackEngine<V>,
    after: VideoPlaybackEngine<V>,
    position: nat,
    now: nat,
    later: nat,
)
    requires
        after.is_sought(before, position, now),
        position <= MAX_NANOS,
    ensures
        after.clock@.media_time(now) == position,
        before.state != PlaybackRunState::Playing ==> after.clock@.media_time(later) == position,
        after.clock@.anchor is Some <==> before.state == PlaybackRunState::Playing,
        after.clock@.rate == before.clock@.rate,
        after.state == before.state,
        after.waiting_video().len() == 0,
        after.waiting_audio().len() == 0,
        after.pending_subtitle is None && after.session.subtitle_frames@.len() == 0,
        span_view(after.seek_floor) == Some(position),
        after.last_presented_pts is None,
        !after.eof,
{
    law_reset_clock_tells_the_time(
        before.clock@,
        position,
        before.state == PlaybackRunState::Playing,
        now,
        later,
    );
}

impl<V> VideoPlaybackEngine<V> {
    /// The video frames that are yet to be shown, the next one first.
    pub open spec fn waiting_video(self) -> Seq<QueuedVideoFrame<V>> {
        match self.pending_frame {
            Some(frame) => seq![frame] + self.session.video_frames@,
            None => self.session.video_frames@,
        }
    }

    /// The audio that is yet to be handed on, the next one first.
    pub open spec fn waiting_audio(self) -> Seq<PcmAudioFrame> {
        match self.pending_audio {
            Some(frame) => seq![frame] + self.session.audio_frames@,
            None => self.session.audio_frames@,
        }
    }
}

/// Video frames are shown in the order in which they were decoded: the first that
/// waits is shown or dropped, and the others wait on. Where no step is taken all of
/// them wait on.
pub proof fn law_video_is_shown_in_order<V>(
    before: VideoPlaybackEngine<V>,
    after: VideoPlaybackEngine<V>,
    drops: usize,
    now: nat,
    step: VideoStep<V>,
)
    requires
        after.is_ticked(before, drops, now, step),
    ensures
        step matches VideoStep::Present(shown) ==> {
            &&& before.waiting_video().len() > 0
            &&& shown.frame == before.waiting_video()[0].frame
            &&& shown.pts == before.waiting_video()[0].pts
            &&& after.waiting_video() == before.waiting_video().skip(1)
            &&& after.last_presented_pts == shown.pts
        },
        step is Again ==> before.waiting_video().len() > 0 && after.waiting_video()
            == before.waiting_video().skip(1),
        step is Done || step is Pump ==> after.waiting_video() == before.waiting_video(),
{
    assert(before.pending_frame is Some ==> before.waiting_video().skip(1)
        =~= before.session.video_frames@);
    assert(after.waiting_video() =~= after.waiting_video());
    if step is Done && after.pending_frame is Some && before.pending_frame is None {
        assert(after.waiting_video() =~= before.waiting_video());
    }
}

/// While playback runs, a frame is held back just if its time lies more than the lead
/// ahead of the clock, dropped only if the clock is beyond it by more than the
/// tolerance, and shown otherwise, at the time of the clock.
pub proof fn law_video_keeps_time<V>(
    before: VideoPlaybackEngine<V>,
    after: VideoPlaybackEngine<V>,
    drops: usize,
    now: nat,
    step: VideoStep<V>,
    pts: nat,
)
    requires
        after.is_ticked(before, drops, now, step),
        before.state == PlaybackRunState::Playing,
        before.has_video(),
        before.pending_frame is Some || !before.eof,
        before.last_presented_pts is Some,
        before.seek_floor is None,
        span_view(before.next_video().pts) == Some(pts),
        before.clock@.media_time(now) + before.timing.video_scheduler.lead_time@ <= MAX_NANOS,
    ensures
        ({
            let time = before.clock@.media_time(now);
            let scheduler = before.timing.video_scheduler;
            &&& pts > time + scheduler.lead_time@ <==> step is Done
            &&& step is Again ==> time > pts + scheduler.drop_tolerance@
            &&& time > pts + scheduler.drop_tolerance@ && drops < scheduler.max_consecutive_drops
                ==> (step matches VideoStep::Again(count) && count == drops + 1)
            &&& step matches VideoStep::Present(shown) ==> shown.media_time@ == time
            &&& step matches VideoStep::Present(shown) ==> (time >= pts ==> shown.late_by is Some
                && pts + shown.late_by->0@ == time)
            &&& step matches VideoStep::Present(shown) ==> (time < pts ==> shown.late_by is None)
            &&& after.clock@ == before.clock@
        }),
{
}

/// The clock starts with the first frame: when it is shown, the clock tells its time.
pub proof fn law_clock_starts_with_the_first_frame<V>(
    before: VideoPlaybackEngine<V>,
    after: VideoPlaybackEngine<V>,
    drops: usize,
    now: nat,
    step: VideoStep<V>,
)
    requires
        after.is_ticked(before, drops, now, step),
        before.last_presented_pts is None,
        before.waiting_for_first_frame,
        before.next_video().pts is Some,
        before.next_video().pts->0@ <= MAX_NANOS,
    ensures
        step matches VideoStep::Present(shown) ==> {
            &&& shown.pts is Some
            &&& after.clock@.media_time(now) == shown.pts->0@
            &&& after.clock@.anchor is Some
            &&& shown.media_time@ == shown.pts->0@
            &&& !after.waiting_for_first_frame
        },
{
    let pts = before.next_video().pts->0;
    crate::playback::clock::law_clock_starts_where_it_was_set(
        started(before.clock@, Some(pts@), now),
        now,
    );
}

/// At the end of the file the clock stands, at the length of the file if it is known.
pub proof fn law_playback_ends_at_the_end<V>(
    before: VideoPlaybackEngine<V>,
    after: VideoPlaybackEngine<V>,
    drops: usize,
    now: nat,
    later: nat,
    step: VideoStep<V>,
)
    requires
        after.is_ticked(before, drops, now, step),
        before.state == PlaybackRunState::Playing,
        after.state != PlaybackRunState::Playing,
    ensures
        after.state == PlaybackRunState::Ended,
        before.waiting_video().len() == 0 || before.session.video_stream is None,
        after.clock@.media_time(later) == (match before.session.info.duration {
            Some(duration) => duration@,
            None => before.clock@.media_time(now),
        }),
{
}

/// Audio is handed on in the order in which it was decoded, and none of it more than
/// the lead ahead of the clock.
pub proof fn law_audio_is_handed_on_in_time<V>(
    before: VideoPlaybackEngine<V>,
    after: VideoPlaybackEngine<V>,
    now: nat,
    step: AudioStep,
)
    requires
        after.is_audio_ticked(before, now, step),
    ensures
        step matches AudioStep::Play(play) ==> {
            &&& before.waiting_audio().len() > 0
            &&& play.frame == before.waiting_audio()[0]
            &&& play.pts == play.frame.pts
            &&& after.waiting_audio() == before.waiting_audio().skip(1)
            &&& play.pts is Some ==> play.pts->0@ <= before.clock@.media_time(now)
                + before.timing.audio_lead_time@
            &&& play.media_time@ == before.clock@.media_time(now)
            &&& play.late_by is Some ==> play.pts is Some && play.pts->0@ + play.late_by->0@
                == play.media_time@
            &&& play.late_by is None && play.pts is Some ==> play.media_time@ < play.pts->0@
        },
        !(step is Play) ==> after.waiting_audio() == before.waiting_audio(),
        before.state == PlaybackRunState::Playing && before.waiting_audio().len() > 0 && (
        before.pending_audio is Some || (!before.eof && before.session.audio_stream is Some)) && (
        before.waiting_audio()[0].pts is None || before.waiting_audio()[0].pts->0@
            <= before.clock@.media_time(now) + before.timing.audio_lead_time@) ==> step is Play,
{
    assert(before.pending_audio is Some ==> before.waiting_audio().skip(1)
        =~= before.session.audio_frames@);
    if after.pending_audio is Some && before.pending_audio is None {
        assert(after.waiting_audio() =~= before.waiting_audio());
    }
}

/// A subtitle is shown no sooner than it starts, and then at the time of the clock.
pub proof fn law_subtitles_are_shown_in_time<V>(
    before: VideoPlaybackEngine<V>,
    after: VideoPlaybackEngine<V>,
    now: nat,
    step: SubtitleStep,
)
    requires
        after.is_subtitle_ticked(before, now, step),
    ensures
        step matches SubtitleStep::Show(show) ==> {
            &&& show.pts == show.frame.start
            &&& show.media_time@ == before.clock@.media_time(now)
            &&& show.pts is Some ==> show.pts->0@ <= show.media_time@
            &&& show.late_by is Some <==> show.pts is Some
            &&& show.pts is Some ==> show.pts->0@ + show.late_by->0@ == show.media_time@
            &&& after.pending_subtitle is None
        },
        before.state == PlaybackRunState::Playing && before.pending_subtitle is Some ==> {
            let waits = before.pending_subtitle->0;
            if waits.start is Some && waits.start->0@ > before.clock@.media_time(now) {
                step is Done && after.pending_subtitle == before.pending_subtitle
            } else {
                step matches SubtitleStep::Show(show) && show.frame == waits
            }
        },
{
}

/// A new engine stands still at the start, at the usual rate.
pub proof fn law_new_engine_stands_at_the_start<V>(engine: VideoPlaybackEngine<V>, now: nat)
    requires
        engine.is_new(),
    ensures
        engine.clock@.media_time(now) == 0,
        engine.state == PlaybackRunState::Paused,
        engine.pending_frame is None && engine.pending_audio is None && engine.pending_subtitle
            is None,
        engine.last_presented_pts is None,
        !engine.eof,
{
}

} // verus!
