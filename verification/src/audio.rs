//! Audio output: a bounded queue of samples that knows the media time of what
//! it holds.
use crate::binary64::{law_frames_take_whole_seconds, lemma_quotient_bound, quotient_nanos, quotient_to_nanos};
use crate::ffmpeg::pcm::{PcmAudioFrame, PcmFormat};
use crate::float_bits::{Single, SINGLE_ONE};
use crate::time::{nat_min, span_view, Duration, MAX_NANOS};
use std::collections::VecDeque;
use vstd::arithmetic::div_mod::{lemma_div_multiples_vanish, lemma_fundamental_div_mod};
use vstd::prelude::*;

pub mod wasapi;

verus! {

broadcast use vstd::seq_lib::group_seq_properties;

/// What can go wrong with audio output.
#[derive(Debug, Clone, PartialEq, Eq)]
pub enum AudioError {
    /// Samples came in another format than the one configured.
    FormatChanged { expected: PcmFormat, actual: PcmFormat },
    /// No format is configured yet.
    FormatNotConfigured,
    /// A format without channels.
    InvalidChannelCount,
    /// A refusal of the audio device.
    Backend(String),
}

/// The result of an operation on audio output.
pub type Result<T> = core::result::Result<T, AudioError>;

/// What an audio output does.
#[derive(Debug, Clone, Copy, PartialEq, Eq, Structural)]
pub enum AudioOutputState {
    Stopped,
    Playing,
    Paused,
}

/// How much a queue holds, and what gives way when it is full: the oldest
/// samples, or the newest.
#[derive(Debug, Clone, Copy, PartialEq, Eq, Structural)]
pub struct AudioRingBufferConfig {
    pub capacity_frames: usize,
    pub drop_oldest_on_overflow: bool,
}

impl Default for AudioRingBufferConfig {
    fn default() -> (result: Self)
        ensures
            result == (AudioRingBufferConfig {
                capacity_frames: 48_000,
                drop_oldest_on_overflow: true,
            }),
    {
        Self { capacity_frames: 48_000, drop_oldest_on_overflow: true }
    }
}

/// What went through a queue.
#[derive(Debug, Clone, Copy, PartialEq, Eq, Structural)]
pub struct AudioRingBufferStats {
    pub queued_frames: usize,
    pub queued_samples: usize,
    pub written_frames: u64,
    pub read_frames: u64,
    pub dropped_frames: u64,
    pub underflow_frames: u64,
}

impl Default for AudioRingBufferStats {
    fn default() -> (result: Self)
        ensures
            result == (AudioRingBufferStats {
                queued_frames: 0,
                queued_samples: 0,
                written_frames: 0,
                read_frames: 0,
                dropped_frames: 0,
                underflow_frames: 0,
            }),
    {
        Self {
            queued_frames: 0,
            queued_samples: 0,
            written_frames: 0,
            read_frames: 0,
            dropped_frames: 0,
            underflow_frames: 0,
        }
    }
}

/// What became of pushed samples.
#[derive(Debug, Clone, Copy, PartialEq, Eq, Structural)]
pub struct AudioPushResult {
    pub accepted_frames: usize,
    pub dropped_frames: usize,
}

/// What a read gave.
#[derive(Debug, Clone, Copy, PartialEq, Eq, Structural)]
pub struct AudioReadResult {
    pub frames: usize,
    pub samples: usize,
    pub underflow_frames: usize,
}

/// Where playback stands.
#[derive(Debug, Clone, Copy, PartialEq, Eq, Structural)]
pub struct AudioClockSnapshot {
    pub media_time: Option<Duration>,
    pub queued_duration: Option<Duration>,
    pub queued_frames: usize,
    pub read_frames: u64,
    pub written_frames: u64,
    pub underflow_frames: u64,
}

// ---------------------------------------------------------------------------
// Media time
// ---------------------------------------------------------------------------

/// No frame lasts longer than this, whatever the rate: as much room for each frame
/// behind a time stamp is always enough.
pub const FRAME_ROOM_NANOS: u128 = 5_000_000_000;

/// The time that frames take at a rate, in nanoseconds. At no rate they take
/// none.
pub open spec fn frames_time(frames: nat, rate: nat) -> nat {
    if rate == 0 {
        0
    } else {
        match quotient_nanos(frames, rate) {
            Some(nanos) => nanos,
            None => 0,
        }
    }
}

/// Whether the time behind some frames can be held.
pub open spec fn can_offset(pts: nat, frames: nat, rate: nat) -> bool {
    rate == 0 || (quotient_nanos(frames, rate) is Some && pts + frames_time(frames, rate)
        <= MAX_NANOS)
}

/// A time stamp that leaves enough room for each frame can be moved by all of them.
proof fn lemma_early_stamp(pts: nat, frames: nat, rate: nat)
    requires
        pts + frames * FRAME_ROOM_NANOS <= MAX_NANOS,
    ensures
        can_offset(pts, frames, rate),
        frames_time(frames, rate) <= frames * FRAME_ROOM_NANOS,
{
    if rate > 0 {
        lemma_quotient_bound(frames, rate);
    }
}

/// No frames take no time.
proof fn lemma_no_frames(rate: nat)
    ensures
        frames_time(0, rate) == 0,
{
    if rate > 0 {
        lemma_quotient_bound(0, rate);
    }
}

fn check_offset(pts: Duration, frames: usize, sample_rate: u32) -> (result: bool)
    ensures
        result == can_offset(pts@, frames as nat, sample_rate as nat),
{
    if sample_rate == 0 {
        return true;
    }
    match quotient_to_nanos(frames as u64, sample_rate) {
        Some(nanos) => nanos <= MAX_NANOS && pts.as_nanos() <= MAX_NANOS - nanos,
        None => false,
    }
}

/// The media time of a frame behind a time stamp.
pub fn offset_pts(pts: Duration, frames: usize, sample_rate: u32) -> (result: Option<Duration>)
    requires
        can_offset(pts@, frames as nat, sample_rate as nat),
    ensures
        span_view(result) == Some(pts@ + frames_time(frames as nat, sample_rate as nat)),
{
    if sample_rate == 0 {
        return Some(pts);
    }
    match quotient_to_nanos(frames as u64, sample_rate) {
        Some(nanos) => match Duration::try_from_nanos(nanos) {
            Some(span) => pts.checked_add(span),
            None => None,
        },
        None => None,
    }
}

/// A run of frames in the queue, with the media time of its first frame.
#[derive(Debug, Clone, Copy, PartialEq, Eq, Structural)]
pub struct AudioTimelineSegment {
    start: Option<Duration>,
    frames: usize,
}

/// A run of frames, with its time in nanoseconds.
pub struct SegmentModel {
    pub start: Option<nat>,
    pub frames: nat,
}

impl View for AudioTimelineSegment {
    type V = SegmentModel;

    closed spec fn view(&self) -> SegmentModel {
        SegmentModel { start: span_view(self.start), frames: self.frames as nat }
    }
}

impl AudioTimelineSegment {
    /// A run of frames.
    pub fn new(start: Option<Duration>, frames: usize) -> (result: Self)
        ensures
            result@ == (SegmentModel { start: span_view(start), frames: frames as nat }),
    {
        Self { start, frames }
    }
}

/// The runs in a queue and the media time that was last passed.
pub struct LineModel {
    pub segments: Seq<SegmentModel>,
    pub last: Option<nat>,
}

/// The frames of some runs.
pub open spec fn total_frames(segments: Seq<SegmentModel>) -> nat
    decreases segments.len(),
{
    if segments.len() == 0 {
        0
    } else {
        segments[0].frames + total_frames(segments.skip(1))
    }
}

impl SegmentModel {
    /// Whether its time stamp leaves enough room for each of its frames.
    pub open spec fn is_early(self) -> bool {
        self.start matches Some(start) ==> start + self.frames * FRAME_ROOM_NANOS <= MAX_NANOS
    }
}

impl LineModel {
    /// Whether no run is empty.
    pub open spec fn is_sound(self) -> bool {
        forall|i: int| 0 <= i < self.segments.len() ==> (#[trigger] self.segments[i]).frames > 0
    }

    /// Whether the time stamp of every run leaves enough room for its frames.
    pub open spec fn is_early(self) -> bool {
        forall|i: int| 0 <= i < self.segments.len() ==> (#[trigger] self.segments[i]).is_early()
    }

    /// Whether frames can be taken off the front: every time that is passed can be
    /// held.
    pub open spec fn can_advance(self, frames: nat, rate: nat) -> bool
        decreases self.segments.len(),
    {
        if frames == 0 || self.segments.len() == 0 {
            true
        } else {
            let front = self.segments[0];
            let used = if frames < front.frames {
                frames
            } else {
                front.frames
            };
            &&& front.start matches Some(start) ==> can_offset(start, used, rate)
            &&& used == front.frames ==> (LineModel {
                segments: self.segments.skip(1),
                last: self.last,
            }).can_advance((frames - used) as nat, rate)
        }
    }

    /// Whether frames can be taken off the front one at a time.
    pub open spec fn can_step(self, steps: nat, rate: nat) -> bool
        decreases steps,
    {
        steps == 0 || (self.can_step((steps - 1) as nat, rate) && self.stepped(
            (steps - 1) as nat,
            rate,
        ).can_advance(1, rate))
    }

    /// The line after frames were taken off its front.
    pub open spec fn advanced(self, frames: nat, rate: nat) -> LineModel
        decreases self.segments.len(),
    {
        if frames == 0 || self.segments.len() == 0 {
            self
        } else {
            let front = self.segments[0];
            let used = if frames < front.frames {
                frames
            } else {
                front.frames
            };
            let start = match front.start {
                Some(start) => Some(start + frames_time(used, rate)),
                None => None,
            };
            let last = if start is Some {
                start
            } else {
                self.last
            };
            if used == front.frames {
                (LineModel { segments: self.segments.skip(1), last }).advanced(
                    (frames - used) as nat,
                    rate,
                )
            } else {
                LineModel {
                    segments: seq![
                        SegmentModel { start, frames: (front.frames - used) as nat },
                    ] + self.segments.skip(1),
                    last,
                }
            }
        }
    }

    /// The line after frames were taken off its front one at a time.
    pub open spec fn stepped(self, steps: nat, rate: nat) -> LineModel
        decreases steps,
    {
        if steps == 0 {
            self
        } else {
            self.stepped((steps - 1) as nat, rate).advanced(1, rate)
        }
    }

    /// The line with a run at its end, if the run is not empty.
    pub open spec fn extended(self, start: Option<nat>, frames: nat) -> LineModel {
        if frames == 0 {
            self
        } else {
            LineModel { segments: self.segments.push(SegmentModel { start, frames }), ..self }
        }
    }

    /// The media time of the first frame, or the one last passed.
    pub open spec fn media_time(self) -> Option<nat> {
        if self.segments.len() > 0 && self.segments[0].start is Some {
            self.segments[0].start
        } else {
            self.last
        }
    }
}

/// Taking frames off a sound line leaves a sound line with that many fewer.
pub proof fn law_advance_takes_frames(line: LineModel, frames: nat, rate: nat)
    requires
        line.is_sound(),
        frames <= total_frames(line.segments),
    ensures
        line.advanced(frames, rate).is_sound(),
        total_frames(line.advanced(frames, rate).segments) == total_frames(line.segments) - frames,
    decreases line.segments.len(),
{
    if frames > 0 && line.segments.len() > 0 {
        let front = line.segments[0];
        let rest = line.segments.skip(1);
        let used = if frames < front.frames {
            frames
        } else {
            front.frames
        };
        let start = match front.start {
            Some(start) => Some(start + frames_time(used, rate)),
            None => None,
        };
        let last = if start is Some {
            start
        } else {
            line.last
        };
        assert forall|i: int| 0 <= i < rest.len() implies (#[trigger] rest[i]).frames > 0 by {
            assert(line.segments[i + 1].frames > 0);
        }
        if used == front.frames {
            law_advance_takes_frames(
                LineModel { segments: rest, last },
                (frames - used) as nat,
                rate,
            );
        } else {
            let head = SegmentModel { start, frames: (front.frames - used) as nat };
            let all = seq![head] + rest;
            assert(all.skip(1) =~= rest);
            assert forall|i: int| 0 <= i < all.len() implies (#[trigger] all[i]).frames > 0 by {
                if i > 0 {
                    assert(all[i] == rest[i - 1]);
                }
            }
        }
    }
}

/// From a line whose time stamps leave enough room any frames can be taken, and it
/// stays such a line.
pub proof fn law_early_frames_can_be_taken(line: LineModel, frames: nat, rate: nat)
    requires
        line.is_early(),
    ensures
        line.can_advance(frames, rate),
        line.advanced(frames, rate).is_early(),
    decreases line.segments.len(),
{
    if frames > 0 && line.segments.len() > 0 {
        let front = line.segments[0];
        assert(front.is_early());
        let rest = line.segments.skip(1);
        let used = if frames < front.frames {
            frames
        } else {
            front.frames
        };
        let start = match front.start {
            Some(start) => Some(start + frames_time(used, rate)),
            None => None,
        };
        let last = if start is Some {
            start
        } else {
            line.last
        };
        assert forall|i: int| 0 <= i < rest.len() implies (#[trigger] rest[i]).is_early() by {
            assert(line.segments[i + 1].is_early());
        }
        let left = (front.frames - used) as nat;
        if let Some(pts) = front.start {
            assert(pts + used * FRAME_ROOM_NANOS + left * FRAME_ROOM_NANOS <= MAX_NANOS)
                by (nonlinear_arith)
                requires
                    pts + front.frames * FRAME_ROOM_NANOS <= MAX_NANOS,
                    used + left == front.frames,
            ;
            lemma_early_stamp(pts, used, rate);
        }
        if used == front.frames {
            law_early_frames_can_be_taken(
                LineModel { segments: rest, last },
                (frames - used) as nat,
                rate,
            );
            law_early_frames_can_be_taken(
                LineModel { segments: rest, last: line.last },
                (frames - used) as nat,
                rate,
            );
        } else {
            let all = seq![SegmentModel { start, frames: left }] + rest;
            assert forall|i: int| 0 <= i < all.len() implies (#[trigger] all[i]).is_early() by {
                if i > 0 {
                    assert(all[i] == rest[i - 1]);
                }
            }
        }
    }
}

/// The time that was last passed does not matter for what can be taken.
proof fn lemma_last_does_not_matter(line: LineModel, last: Option<nat>, frames: nat, rate: nat)
    ensures
        line.can_advance(frames, rate) == (LineModel { last, ..line }).can_advance(frames, rate),
    decreases line.segments.len(),
{
    if frames > 0 && line.segments.len() > 0 {
        let front = line.segments[0];
        if frames >= front.frames {
            let rest = LineModel { segments: line.segments.skip(1), last: line.last };
            lemma_last_does_not_matter(rest, last, (frames - front.frames) as nat, rate);
        }
    }
}

/// Where many frames can be taken one at a time, fewer can.
proof fn lemma_fewer_steps(line: LineModel, steps: nat, more: nat, rate: nat)
    requires
        line.can_step(more, rate),
        steps <= more,
    ensures
        line.can_step(steps, rate),
    decreases more,
{
    if steps < more {
        lemma_fewer_steps(line, steps, (more - 1) as nat, rate);
    }
}

proof fn lemma_total_of_push(segments: Seq<SegmentModel>, segment: SegmentModel)
    ensures
        total_frames(segments.push(segment)) == total_frames(segments) + segment.frames,
    decreases segments.len(),
{
    let all = segments.push(segment);
    if segments.len() == 0 {
        assert(all.skip(1) =~= Seq::<SegmentModel>::empty());
    } else {
        assert(all.skip(1) =~= segments.skip(1).push(segment));
        lemma_total_of_push(segments.skip(1), segment);
    }
}

/// The runs of a queue.
pub open spec fn segments_view(segments: Seq<AudioTimelineSegment>) -> Seq<SegmentModel> {
    Seq::new(segments.len(), |i: int| segments[i]@)
}

/// The media times of a queue.
#[derive(Debug)]
struct AudioLine {
    segments: VecDeque<AudioTimelineSegment>,
    last_media_time: Option<Duration>,
}

impl View for AudioLine {
    type V = LineModel;

    closed spec fn view(&self) -> LineModel {
        LineModel {
            segments: segments_view(self.segments@),
            last: span_view(self.last_media_time),
        }
    }
}

impl AudioLine {
    fn new() -> (result: Self)
        ensures
            result@ == (LineModel { segments: Seq::empty(), last: None }),
    {
        let result = AudioLine { segments: VecDeque::new(), last_media_time: None };
        assert(result@.segments =~= Seq::<SegmentModel>::empty());
        result
    }

    fn push_timeline_segment(&mut self, start: Option<Duration>, frames: usize)
        ensures
            final(self)@ == old(self)@.extended(span_view(start), frames as nat),
    {
        if frames == 0 {
            return;
        }
        self.segments.push_back(AudioTimelineSegment::new(start, frames));
        assert(self@.segments =~= old(self)@.extended(span_view(start), frames as nat).segments);
    }

    fn advance_timeline(&mut self, frames: usize, sample_rate: u32)
        requires
            old(self)@.can_advance(frames as nat, sample_rate as nat),
        ensures
            final(self)@ == old(self)@.advanced(frames as nat, sample_rate as nat),
    {
        let mut left: usize = frames;
        while left > 0 && self.segments.len() > 0
            invariant
                self@.can_advance(left as nat, sample_rate as nat),
                self@.advanced(left as nat, sample_rate as nat) == old(self)@.advanced(
                    frames as nat,
                    sample_rate as nat,
                ),
            decreases self.segments@.len() + left,
        {
            let ghost before = self@;
            assert(before.segments[0] == self.segments@[0]@);
            match self.segments.pop_front() {
                Some(front) => {
                    let used: usize = if left < front.frames {
                        left
                    } else {
                        front.frames
                    };
                    assert(segments_view(self.segments@) =~= before.segments.skip(1));
                    let mut start: Option<Duration> = None;
                    if let Some(pts) = front.start {
                        start = offset_pts(pts, used, sample_rate);
                        self.last_media_time = start;
                    }
                    if used < front.frames {
                        let rest = AudioTimelineSegment { start, frames: front.frames - used };
                        self.segments.push_front(rest);
                        assert(segments_view(self.segments@) =~= seq![rest@]
                            + before.segments.skip(1));
                    }
                    left -= used;
                    proof {
                        if used == front.frames {
                            lemma_last_does_not_matter(
                                LineModel { segments: before.segments.skip(1), last: before.last },
                                self@.last,
                                left as nat,
                                sample_rate as nat,
                            );
                        }
                    }
                },
                None => {},
            }
        }
    }

    fn check_advance(&self, frames: usize, sample_rate: u32) -> (result: bool)
        ensures
            result == self@.can_advance(frames as nat, sample_rate as nat),
    {
        let mut left: usize = frames;
        let mut i: usize = 0;
        assert(self@.segments.skip(0) =~= self@.segments);
        while left > 0 && i < self.segments.len()
            invariant
                i <= self.segments@.len(),
                self@.can_advance(frames as nat, sample_rate as nat) == (LineModel {
                    segments: self@.segments.skip(i as int),
                    last: self@.last,
                }).can_advance(left as nat, sample_rate as nat),
            decreases self.segments@.len() - i,
        {
            let front = self.segments[i];
            assert(self@.segments.skip(i as int)[0] == front@);
            assert(self@.segments.skip(i as int).skip(1) =~= self@.segments.skip(i as int + 1));
            let used: usize = if left < front.frames {
                left
            } else {
                front.frames
            };
            if let Some(pts) = front.start {
                if !check_offset(pts, used, sample_rate) {
                    return false;
                }
            }
            if used < front.frames {
                return true;
            }
            left -= used;
            i += 1;
        }
        true
    }

    fn clear(&mut self)
        ensures
            final(self)@ == (LineModel { segments: Seq::empty(), last: None }),
    {
        self.segments.clear();
        self.last_media_time = None;
        assert(self@.segments =~= Seq::<SegmentModel>::empty());
    }

    fn media_time(&self) -> (result: Option<Duration>)
        ensures
            span_view(result) == self@.media_time(),
    {
        if self.segments.len() > 0 {
            let front = self.segments[0];
            assert(self@.segments[0] == front@);
            if front.start.is_some() {
                return front.start;
            }
        }
        self.last_media_time
    }
}

// ---------------------------------------------------------------------------
// Ring buffer
// ---------------------------------------------------------------------------

/// A queue of samples as plain sequences.
pub struct RingModel {
    pub config: AudioRingBufferConfig,
    pub format: Option<PcmFormat>,
    pub samples: Seq<Single>,
    pub line: LineModel,
    pub written: nat,
    pub read: nat,
    pub dropped: nat,
    pub underflow: nat,
}

impl RingModel {
    /// Whether the queue is consistent: whole frames of a format with channels,
    /// as many as the media times stand for, and no more than it has room for.
    pub open spec fn is_sound(self) -> bool {
        match self.format {
            None => self.samples.len() == 0 && self.line == empty_line(),
            Some(format) => {
                &&& format.channels > 0
                &&& self.samples.len() == total_frames(self.line.segments) * format.channels
                &&& total_frames(self.line.segments) <= self.config.capacity_frames
                &&& self.line.is_sound()
            },
        }
    }

    /// The number of frames in the queue.
    pub open spec fn queued(self) -> nat {
        total_frames(self.line.segments)
    }

    /// The queue with a format and without samples.
    pub open spec fn configured(self, format: PcmFormat) -> RingModel {
        RingModel {
            format: Some(format),
            samples: Seq::empty(),
            line: empty_line(),
            ..self
        }
    }

    /// How many frames stay in the queue when more come.
    pub open spec fn kept_frames(self, incoming: nat) -> nat {
        if self.queued() + incoming <= self.config.capacity_frames {
            self.queued() + incoming
        } else {
            self.config.capacity_frames as nat
        }
    }

    /// How many of the frames that come are taken.
    pub open spec fn accepted_frames(self, incoming: nat) -> nat {
        let room: nat = if self.config.drop_oldest_on_overflow {
            self.config.capacity_frames as nat
        } else {
            (self.config.capacity_frames - self.queued()) as nat
        };
        if incoming <= room {
            incoming
        } else {
            room
        }
    }

    /// How many of the frames in the queue give way to those that come.
    pub open spec fn evicted_frames(self, incoming: nat) -> nat {
        (self.queued() + self.accepted_frames(incoming) - self.kept_frames(incoming)) as nat
    }

    /// How many frames are lost when more come, in the queue or of those that come.
    pub open spec fn lost_frames(self, incoming: nat) -> nat {
        (self.queued() + incoming - self.kept_frames(incoming)) as nat
    }

    /// How many of the frames that come are passed over before any is taken.
    pub open spec fn skipped_frames(self, incoming: nat) -> nat {
        if self.config.drop_oldest_on_overflow {
            (incoming - self.accepted_frames(incoming)) as nat
        } else {
            0
        }
    }

    /// The queue after samples of its own format were pushed. Of the samples
    /// before and those that come, the newest stay where the oldest give way,
    /// else the oldest.
    pub open spec fn pushed(self, format: PcmFormat, pts: Option<nat>, samples: Seq<Single>) -> RingModel {
        let channels = format.channels as nat;
        let incoming = samples.len() / channels;
        let all = self.samples + samples.take((incoming * channels) as int);
        let kept = self.kept_frames(incoming);
        let accepted = self.accepted_frames(incoming);
        let start = match pts {
            Some(pts) => Some(
                pts + frames_time(self.skipped_frames(incoming), format.sample_rate as nat),
            ),
            None => None,
        };
        RingModel {
            samples: if self.config.drop_oldest_on_overflow {
                all.skip(all.len() - kept * channels)
            } else {
                all.take((kept * channels) as int)
            },
            line: self.line.stepped(
                self.evicted_frames(incoming),
                format.sample_rate as nat,
            ).extended(start, accepted),
            written: self.written + accepted,
            dropped: self.dropped + self.lost_frames(incoming),
            ..self
        }
    }

    /// The number of frames that a request for samples gets.
    pub open spec fn read_frames(self, requested: nat) -> nat {
        if requested < self.queued() {
            requested
        } else {
            self.queued()
        }
    }

    /// The queue after frames were requested from it.
    pub open spec fn drained(self, format: PcmFormat, requested: nat) -> RingModel {
        let frames = self.read_frames(requested);
        RingModel {
            samples: self.samples.skip((frames * format.channels) as int),
            line: self.line.advanced(frames, format.sample_rate as nat),
            read: self.read + frames,
            underflow: (self.underflow + requested - frames) as nat,
            ..self
        }
    }

    /// Whether samples of a format are taken: they have channels, and no other format
    /// was there before.
    pub open spec fn takes(self, format: PcmFormat) -> bool {
        format.channels > 0 && (self.format is None || self.format == Some(format))
    }

    /// Whether the counters and time stamps have room for pushed samples, if they are
    /// taken.
    pub open spec fn has_room_for(self, format: PcmFormat, pts: Option<nat>, samples: nat) -> bool {
        let incoming = samples / format.channels as nat;
        let skipped = self.skipped_frames(incoming);
        let rate = format.sample_rate as nat;
        self.takes(format) ==> {
            &&& self.config.drop_oldest_on_overflow ==> self.queued() + incoming <= usize::MAX
            &&& self.written + self.accepted_frames(incoming) <= u64::MAX
            &&& self.dropped + self.lost_frames(incoming) <= u64::MAX
            &&& self.line.can_step(self.evicted_frames(incoming), rate)
            &&& pts matches Some(pts) ==> skipped > 0 ==> can_offset(pts, skipped, rate)
        }
    }

    /// Whether the counters and time stamps have room for a request.
    pub open spec fn has_room_to_read(self, samples: nat) -> bool {
        self.format matches Some(format) ==> {
            let requested = samples / format.channels as nat;
            let frames = self.read_frames(requested);
            &&& self.read + frames <= u64::MAX
            &&& self.underflow + requested - frames <= u64::MAX
            &&& self.line.can_advance(frames, format.sample_rate as nat)
        }
    }

    /// Whether the time that the queued samples take can be held.
    pub open spec fn can_tell_time(self) -> bool {
        self.format matches Some(format) ==> can_offset(
            0,
            self.queued(),
            format.sample_rate as nat,
        )
    }

    /// The time that the queued samples take, if the rate is known.
    pub open spec fn queued_nanos(self) -> Option<nat> {
        match self.format {
            Some(format) => if format.sample_rate == 0 {
                None
            } else {
                Some(frames_time(self.queued(), format.sample_rate as nat))
            },
            None => None,
        }
    }
}

/// A line without frames.
pub open spec fn empty_line() -> LineModel {
    LineModel { segments: Seq::empty(), last: None }
}

/// Stepping takes one frame at a time off a sound line.
proof fn lemma_stepped(line: LineModel, steps: nat, rate: nat)
    requires
        line.is_sound(),
        steps <= total_frames(line.segments),
    ensures
        line.stepped(steps, rate).is_sound(),
        total_frames(line.stepped(steps, rate).segments) == total_frames(line.segments) - steps,
    decreases steps,
{
    if steps > 0 {
        lemma_stepped(line, (steps - 1) as nat, rate);
        law_advance_takes_frames(line.stepped((steps - 1) as nat, rate), 1, rate);
    }
}

/// Whole frames divide into samples without rest.
proof fn lemma_frames_of_samples(frames: nat, channels: nat)
    requires
        channels > 0,
    ensures
        (frames * channels) / channels == frames,
        frames * channels >= frames,
{
    lemma_div_multiples_vanish(frames as int, channels as int);
    assert(frames * channels >= frames) by (nonlinear_arith)
        requires
            channels >= 1,
            frames >= 0,
    ;
    assert(channels * frames == frames * channels) by (nonlinear_arith);
}

/// Where the time stamps of a queue leave enough room, so they do after frames gave
/// way.
proof fn lemma_early_steps(line: LineModel, steps: nat, rate: nat)
    requires
        line.is_early(),
    ensures
        line.can_step(steps, rate),
        line.stepped(steps, rate).is_early(),
    decreases steps,
{
    if steps > 0 {
        lemma_early_steps(line, (steps - 1) as nat, rate);
        law_early_frames_can_be_taken(line.stepped((steps - 1) as nat, rate), 1, rate);
    }
}

/// Where the time stamps of a queue and of what comes leave enough room, the times
/// are no hindrance to a push, and those of the queue still leave enough room.
pub proof fn law_early_samples_have_room(
    ring: RingModel,
    format: PcmFormat,
    pts: Option<nat>,
    samples: Seq<Single>,
)
    requires
        ring.is_sound(),
        ring.format == Some(format),
        ring.line.is_early(),
        pts matches Some(pts) ==> pts + (samples.len() / format.channels as nat) * FRAME_ROOM_NANOS
            <= MAX_NANOS,
    ensures
        ({
            let incoming = samples.len() / format.channels as nat;
            let rate = format.sample_rate as nat;
            &&& ring.line.can_step(ring.evicted_frames(incoming), rate)
            &&& pts matches Some(pts) ==> can_offset(pts, ring.skipped_frames(incoming), rate)
        }),
        ring.pushed(format, pts, samples).line.is_early(),
{
    let rate = format.sample_rate as nat;
    let incoming = samples.len() / format.channels as nat;
    let accepted = ring.accepted_frames(incoming);
    let skipped = ring.skipped_frames(incoming);
    let evicted = ring.evicted_frames(incoming);
    lemma_early_steps(ring.line, evicted, rate);
    let line = ring.line.stepped(evicted, rate);
    let after = ring.pushed(format, pts, samples).line;
    if let Some(time) = pts {
        assert(time + skipped * FRAME_ROOM_NANOS + accepted * FRAME_ROOM_NANOS <= time + incoming
            * FRAME_ROOM_NANOS) by (nonlinear_arith)
            requires
                skipped + accepted <= incoming,
        ;
        assert(accepted * FRAME_ROOM_NANOS >= 0) by (nonlinear_arith)
            requires
                accepted >= 0,
        ;
        lemma_early_stamp(time, skipped, rate);
    }
    assert forall|i: int| 0 <= i < after.segments.len() implies (
    #[trigger] after.segments[i]).is_early() by {
        if i < line.segments.len() {
            assert(line.segments[i].is_early());
        }
    }
}

/// Pushing keeps a queue sound, and no push makes it hold more than it has room
/// for.
pub proof fn law_push_keeps_queue_sound(
    ring: RingModel,
    format: PcmFormat,
    pts: Option<nat>,
    samples: Seq<Single>,
)
    requires
        ring.is_sound(),
        ring.format == Some(format),
    ensures
        ring.pushed(format, pts, samples).is_sound(),
        ring.pushed(format, pts, samples).queued() == ring.kept_frames(
            samples.len() / format.channels as nat,
        ),
        ring.pushed(format, pts, samples).queued() <= ring.config.capacity_frames,
{
    let channels = format.channels as nat;
    let rate = format.sample_rate as nat;
    let incoming = samples.len() / channels;
    let accepted = ring.accepted_frames(incoming);
    let evicted = ring.evicted_frames(incoming);
    let kept = ring.kept_frames(incoming);
    let after = ring.pushed(format, pts, samples);
    let line = ring.line.stepped(evicted, rate);
    lemma_stepped(ring.line, evicted, rate);
    assert(incoming * channels <= samples.len() && incoming <= samples.len()) by (nonlinear_arith)
        requires
            incoming == samples.len() / channels,
            channels > 0,
    ;
    if accepted > 0 {
        lemma_total_of_push(line.segments, after.line.segments.last());
        assert(after.line.segments =~= line.segments.push(after.line.segments.last()));
        assert forall|i: int| 0 <= i < after.line.segments.len() implies (
        #[trigger] after.line.segments[i]).frames > 0 by {
            if i < line.segments.len() {
                assert(line.segments[i].frames > 0);
            }
        }
    }
    assert(ring.samples.len() == ring.queued() * channels);
    let all = ring.samples + samples.take((incoming * channels) as int);
    assert(all.len() == (ring.queued() + incoming) * channels) by (nonlinear_arith)
        requires
            all.len() == ring.queued() * channels + incoming * channels,
    ;
    assert(kept * channels <= all.len()) by (nonlinear_arith)
        requires
            kept <= ring.queued() + incoming,
            all.len() == (ring.queued() + incoming) * channels,
    ;
}

/// After a push the queue holds, of the frames before and those that came, the
/// newest where the oldest give way and else the oldest, as many as it has room for.
/// All others are counted as lost, and what was taken as written.
pub proof fn law_push_keeps_what_fits(
    ring: RingModel,
    format: PcmFormat,
    pts: Option<nat>,
    samples: Seq<Single>,
)
    requires
        ring.is_sound(),
        ring.format == Some(format),
    ensures
        ({
            let channels = format.channels as nat;
            let incoming = samples.len() / channels;
            let all = ring.samples + samples.take((incoming * channels) as int);
            let kept = nat_min(
                ring.config.capacity_frames as nat,
                ring.queued() + incoming,
            ) * channels;
            let after = ring.pushed(format, pts, samples);
            &&& after.samples == if ring.config.drop_oldest_on_overflow {
                all.subrange(all.len() - kept, all.len() as int)
            } else {
                all.subrange(0, kept as int)
            }
            &&& after.samples.len() == kept
            &&& after.queued() == ring.queued() + incoming - ring.lost_frames(incoming)
            &&& after.queued() <= ring.config.capacity_frames
            &&& after.written == ring.written + ring.accepted_frames(incoming)
            &&& after.dropped == ring.dropped + ring.lost_frames(incoming)
            &&& after.format == ring.format
            &&& after.config == ring.config
            &&& after.read == ring.read
            &&& after.underflow == ring.underflow
        }),
{
    let channels = format.channels as nat;
    let incoming = samples.len() / channels;
    let all = ring.samples + samples.take((incoming * channels) as int);
    let kept = ring.kept_frames(incoming);
    law_push_keeps_queue_sound(ring, format, pts, samples);
    assert(incoming * channels <= samples.len()) by (nonlinear_arith)
        requires
            incoming == samples.len() / channels,
            channels > 0,
    ;
    assert(all.len() == (ring.queued() + incoming) * channels) by (nonlinear_arith)
        requires
            all.len() == ring.queued() * channels + incoming * channels,
    ;
    assert(0 <= kept * channels <= all.len()) by (nonlinear_arith)
        requires
            kept <= ring.queued() + incoming,
            all.len() == (ring.queued() + incoming) * channels,
    ;
    assert(all.skip(all.len() - kept * channels) =~= all.subrange(
        all.len() - kept * channels,
        all.len() as int,
    ));
    assert(all.take((kept * channels) as int) =~= all.subrange(0, (kept * channels) as int));
}

/// Reading keeps a queue sound.
pub proof fn law_read_keeps_queue_sound(ring: RingModel, format: PcmFormat, requested: nat)
    requires
        ring.is_sound(),
        ring.format == Some(format),
    ensures
        ring.drained(format, requested).is_sound(),
        ring.drained(format, requested).queued() == ring.queued() - ring.read_frames(requested),
{
    let frames = ring.read_frames(requested);
    law_advance_takes_frames(ring.line, frames, format.sample_rate as nat);
    let queued = ring.queued();
    assert(frames * format.channels <= queued * format.channels && (queued - frames)
        * format.channels == queued * format.channels - frames * format.channels)
        by (nonlinear_arith)
        requires
            frames <= queued,
    ;
}

/// What is pushed is read in the order in which it was pushed: where nothing
/// gives way, a read behind a push gives the samples of the queue and then
/// those that were pushed.
pub proof fn law_reads_follow_pushes(
    ring: RingModel,
    format: PcmFormat,
    pts: Option<nat>,
    samples: Seq<Single>,
    requested: nat,
)
    requires
        ring.is_sound(),
        ring.format == Some(format),
        samples.len() % format.channels as nat == 0,
        ring.queued() + samples.len() / format.channels as nat <= ring.config.capacity_frames,
    ensures
        ring.pushed(format, pts, samples).samples == ring.samples + samples,
        ({
            let filled = ring.pushed(format, pts, samples);
            let taken = (filled.read_frames(requested) * format.channels) as int;
            filled.samples.take(taken) + filled.drained(format, requested).samples == ring.samples
                + samples
        }),
{
    let filled = ring.pushed(format, pts, samples);
    let channels = format.channels as nat;
    let incoming = samples.len() / channels;
    lemma_fundamental_div_mod(samples.len() as int, channels as int);
    assert(incoming * channels == samples.len()) by (nonlinear_arith)
        requires
            samples.len() == channels * incoming,
    ;
    assert(samples.take((incoming * channels) as int) =~= samples);
    let all = ring.samples + samples;
    assert((ring.queued() + incoming) * channels == all.len()) by (nonlinear_arith)
        requires
            all.len() == ring.queued() * channels + incoming * channels,
    ;
    assert(all.skip(0) =~= all);
    assert(all.take(all.len() as int) =~= all);
    assert(filled.samples == all);
    law_push_keeps_queue_sound(ring, format, pts, samples);
    let frames = filled.read_frames(requested);
    assert(0 <= frames * channels <= filled.queued() * channels) by (nonlinear_arith)
        requires
            0 <= frames <= filled.queued(),
            channels > 0,
    ;
    assert(all.take((frames * channels) as int) + all.skip((frames * channels) as int) =~= all);
}

/// What is left of the queue and what is taken of the samples that come make up
/// the queue after a push.
proof fn lemma_pushed_samples(
    ring: RingModel,
    format: PcmFormat,
    pts: Option<nat>,
    samples: Seq<Single>,
)
    requires
        ring.is_sound(),
        ring.format == Some(format),
    ensures
        ({
            let channels = format.channels as nat;
            let incoming = samples.len() / channels;
            let first = ring.skipped_frames(incoming) * channels;
            let end = first + ring.accepted_frames(incoming) * channels;
            ring.samples.skip((ring.evicted_frames(incoming) * channels) as int)
                + samples.subrange(first as int, end as int) == ring.pushed(
                format,
                pts,
                samples,
            ).samples
        }),
{
    let channels = format.channels as nat;
    let incoming = samples.len() / channels;
    let accepted = ring.accepted_frames(incoming);
    let evicted = ring.evicted_frames(incoming);
    let kept = ring.kept_frames(incoming);
    let queued = ring.queued();
    let skipped = ring.skipped_frames(incoming);
    let first = skipped * channels;
    let end = first + accepted * channels;
    let whole = samples.take((incoming * channels) as int);
    let all = ring.samples + whole;
    assert(incoming * channels <= samples.len()) by (nonlinear_arith)
        requires
            incoming == samples.len() / channels,
            channels > 0,
    ;
    assert(all.len() == (queued + incoming) * channels) by (nonlinear_arith)
        requires
            all.len() == queued * channels + incoming * channels,
    ;
    assert(evicted * channels <= queued * channels && end <= incoming * channels)
        by (nonlinear_arith)
        requires
            evicted <= queued,
            skipped + accepted <= incoming,
            end == skipped * channels + accepted * channels,
    ;
    let result = ring.samples.skip((evicted * channels) as int) + samples.subrange(
        first as int,
        end as int,
    );
    if ring.config.drop_oldest_on_overflow {
        assert(all.len() - kept * channels == evicted * channels + skipped * channels)
            by (nonlinear_arith)
            requires
                all.len() == (queued + incoming) * channels,
                queued + incoming - kept == evicted + skipped,
        ;
        assert(end == incoming * channels) by (nonlinear_arith)
            requires
                end == skipped * channels + accepted * channels,
                skipped + accepted == incoming,
        ;
        if skipped == 0 {
            assert(first == 0) by (nonlinear_arith)
                requires
                    first == skipped * channels,
                    skipped == 0,
            ;
        } else {
            assert(evicted == queued);
        }
        assert(result =~= all.skip(all.len() - kept * channels));
    } else {
        assert(evicted == 0);
        assert(evicted * channels == 0 && first == 0) by (nonlinear_arith)
            requires
                evicted == 0,
                first == skipped * channels,
                skipped == 0,
        ;
        assert(kept * channels == queued * channels + accepted * channels) by (nonlinear_arith)
            requires
                kept == queued + accepted,
        ;
        assert(result =~= all.take((kept * channels) as int));
    }
}

/// A bounded queue of samples.
#[derive(Debug)]
pub struct AudioRingBuffer {
    config: AudioRingBufferConfig,
    format: Option<PcmFormat>,
    samples: VecDeque<Single>,
    line: AudioLine,
    stats: AudioRingBufferStats,
}

impl View for AudioRingBuffer {
    type V = RingModel;

    closed spec fn view(&self) -> RingModel {
        RingModel {
            config: self.config,
            format: self.format,
            samples: self.samples@,
            line: self.line@,
            written: self.stats.written_frames as nat,
            read: self.stats.read_frames as nat,
            dropped: self.stats.dropped_frames as nat,
            underflow: self.stats.underflow_frames as nat,
        }
    }
}

impl AudioRingBuffer {
    /// An empty queue without a format.
    pub fn new(config: AudioRingBufferConfig) -> (result: Self)
        ensures
            result@ == (RingModel {
                config,
                format: None,
                samples: Seq::empty(),
                line: empty_line(),
                written: 0,
                read: 0,
                dropped: 0,
                underflow: 0,
            }),
            result@.is_sound(),
    {
        Self {
            config,
            format: None,
            samples: VecDeque::new(),
            line: AudioLine::new(),
            stats: AudioRingBufferStats::default(),
        }
    }

    /// An empty queue for samples of a format.
    pub fn with_format(config: AudioRingBufferConfig, format: PcmFormat) -> (result: Result<Self>)
        ensures
            result is Ok <==> format.channels > 0,
            result matches Ok(buffer) ==> buffer@.is_sound() && buffer@ == (RingModel {
                config,
                format: Some(format),
                samples: Seq::empty(),
                line: empty_line(),
                written: 0,
                read: 0,
                dropped: 0,
                underflow: 0,
            }),
            result matches Err(error) ==> error == AudioError::InvalidChannelCount,
    {
        let mut buffer = Self::new(config);
        match buffer.configure(format) {
            Ok(()) => Ok(buffer),
            Err(error) => Err(error),
        }
    }

    /// Takes samples of another format from now on, and forgets those it holds.
    pub fn configure(&mut self, format: PcmFormat) -> (result: Result<()>)
        ensures
            result is Ok <==> format.channels > 0,
            result is Ok ==> final(self)@ == old(self)@.configured(format) && final(self)@.is_sound(),
            result matches Err(error) ==> error == AudioError::InvalidChannelCount && final(self)@
                == old(self)@,
    {
        if format.channels == 0 {
            return Err(AudioError::InvalidChannelCount);
        }
        self.format = Some(format);
        self.clear();
        Ok(())
    }

    /// The format of the samples.
    pub fn format(&self) -> (result: Option<PcmFormat>)
        ensures
            result == self@.format,
    {
        self.format
    }

    /// The most frames that the queue holds.
    pub fn capacity_frames(&self) -> (result: usize)
        ensures
            result == self@.config.capacity_frames,
    {
        self.config.capacity_frames
    }

    /// The number of frames in the queue.
    pub fn queued_frames(&self) -> (result: usize)
        requires
            self@.is_sound(),
        ensures
            result == self@.queued(),
    {
        match self.format {
            Some(format) => {
                proof {
                    lemma_frames_of_samples(self@.queued(), format.channels as nat);
                }
                self.samples.len() / format.channels as usize
            },
            None => 0,
        }
    }

    /// The time that the queued samples take, if the rate is known.
    pub fn queued_duration(&self) -> (result: Option<Duration>)
        requires
            self@.is_sound(),
            self@.can_tell_time(),
        ensures
            span_view(result) == self@.queued_nanos(),
    {
        match self.format {
            Some(format) => {
                if format.sample_rate == 0 {
                    return None;
                }
                offset_pts(Duration::zero(), self.queued_frames(), format.sample_rate)
            },
            None => None,
        }
    }

    /// What went through the queue, and what it holds.
    pub fn stats(&self) -> (result: AudioRingBufferStats)
        requires
            self@.is_sound(),
        ensures
            result.queued_frames == self@.queued(),
            result.queued_samples == self@.samples.len(),
            result.written_frames == self@.written,
            result.read_frames == self@.read,
            result.dropped_frames == self@.dropped,
            result.underflow_frames == self@.underflow,
    {
        AudioRingBufferStats {
            queued_frames: self.queued_frames(),
            queued_samples: self.samples.len(),
            written_frames: self.stats.written_frames,
            read_frames: self.stats.read_frames,
            dropped_frames: self.stats.dropped_frames,
            underflow_frames: self.stats.underflow_frames,
        }
    }

    /// Where playback stands: the media time of the next frame, or of the last
    /// one that was read.
    pub fn clock_snapshot(&self) -> (result: AudioClockSnapshot)
        requires
            self@.is_sound(),
            self@.can_tell_time(),
        ensures
            span_view(result.media_time) == self@.line.media_time(),
            span_view(result.queued_duration) == self@.queued_nanos(),
            result.queued_frames == self@.queued(),
            result.read_frames == self@.read,
            result.written_frames == self@.written,
            result.underflow_frames == self@.underflow,
    {
        AudioClockSnapshot {
            media_time: self.line.media_time(),
            queued_duration: self.queued_duration(),
            queued_frames: self.queued_frames(),
            read_frames: self.stats.read_frames,
            written_frames: self.stats.written_frames,
            underflow_frames: self.stats.underflow_frames,
        }
    }

    /// Forgets the samples and their times. The counters stay.
    pub fn clear(&mut self)
        ensures
            final(self)@ == (RingModel {
                samples: Seq::empty(),
                line: empty_line(),
                ..old(self)@
            }),
            old(self)@.is_sound() ==> final(self)@.is_sound(),
            old(self)@.format matches Some(format) ==> format.channels > 0 ==> final(self)@.is_sound(),
    {
        self.samples.clear();
        self.line.clear();
        self.stats.queued_frames = 0;
        self.stats.queued_samples = 0;
        assert(self@.samples =~= Seq::<Single>::empty());
        proof {
            if let Some(format) = self.format {
                assert(0 * format.channels == 0) by (nonlinear_arith);
            }
        }
    }

    /// Takes the oldest frame out of the queue, if there is one.
    fn drop_oldest_frame(&mut self, channels: usize) -> (result: bool)
        requires
            old(self)@.is_sound(),
            old(self)@.format matches Some(format) && format.channels == channels,
            old(self)@.line.can_advance(1, old(self)@.format->0.sample_rate as nat),
        ensures
            result <==> old(self)@.queued() > 0,
            result ==> final(self)@ == (RingModel {
                samples: old(self)@.samples.skip(channels as int),
                line: old(self)@.line.advanced(1, old(self)@.format->0.sample_rate as nat),
                ..old(self)@
            }),
            !result ==> final(self)@ == old(self)@,
            final(self)@.is_sound(),
            result ==> final(self)@.queued() == old(self)@.queued() - 1,
    {
        let ghost queued = self@.queued();
        proof {
            assert(queued > 0 ==> queued * channels >= channels) by (nonlinear_arith)
                requires
                    channels > 0,
            ;
            assert(queued == 0 ==> queued * channels == 0) by (nonlinear_arith);
        }
        if self.samples.len() < channels {
            self.samples.clear();
            assert(self@.samples =~= old(self)@.samples);
            return false;
        }
        let mut i: usize = 0;
        assert(self.samples@ =~= old(self)@.samples.skip(0));
        while i < channels
            invariant
                i <= channels <= old(self)@.samples.len(),
                self@ == (RingModel { samples: old(self)@.samples.skip(i as int), ..old(self)@ }),
            decreases channels - i,
        {
            let _ = self.samples.pop_front();
            i += 1;
            assert(self.samples@ =~= old(self)@.samples.skip(i as int));
        }
        let rate: u32 = match self.format {
            Some(format) => format.sample_rate,
            None => 0,
        };
        self.line.advance_timeline(1, rate);
        proof {
            law_advance_takes_frames(old(self)@.line, 1, rate as nat);
            assert((queued - 1) * channels == queued * channels - channels) by (nonlinear_arith);
        }
        true
    }

    /// Makes room for frames that come, at the cost of the oldest ones.
    fn make_room(&mut self, incoming: usize, channels: usize) -> (result: usize)
        requires
            old(self)@.is_sound(),
            old(self)@.format matches Some(format) && format.channels == channels,
            old(self)@.config.drop_oldest_on_overflow,
            old(self)@.line.can_step(
                old(self)@.evicted_frames(incoming as nat),
                old(self)@.format->0.sample_rate as nat,
            ),
        ensures
            result == old(self)@.evicted_frames(incoming as nat),
            final(self)@ == (RingModel {
                samples: old(self)@.samples.skip((result * channels) as int),
                line: old(self)@.line.stepped(
                    result as nat,
                    old(self)@.format->0.sample_rate as nat,
                ),
                ..old(self)@
            }),
            final(self)@.is_sound(),
            final(self)@.queued() == old(self)@.queued() - result,
    {
        let capacity: usize = self.config.capacity_frames;
        let mut dropped: usize = 0;
        let ghost rate = self@.format->0.sample_rate as nat;
        assert(self@.samples.skip(0 * channels as int) =~= self@.samples) by {
            assert(0 * channels as int == 0) by (nonlinear_arith);
        }
        while incoming > capacity || self.queued_frames() > capacity - incoming
            invariant
                capacity == old(self)@.config.capacity_frames,
                old(self)@.is_sound(),
                old(self)@.config.drop_oldest_on_overflow,
                old(self)@.format matches Some(format) && format.channels == channels,
                self@.is_sound(),
                self@.format == old(self)@.format,
                rate == old(self)@.format->0.sample_rate,
                dropped <= old(self)@.queued(),
                dropped <= old(self)@.evicted_frames(incoming as nat),
                old(self)@.line.can_step(old(self)@.evicted_frames(incoming as nat), rate),
                self@.queued() == old(self)@.queued() - dropped,
                self@ == (RingModel {
                    samples: old(self)@.samples.skip((dropped * channels) as int),
                    line: old(self)@.line.stepped(dropped as nat, rate),
                    ..old(self)@
                }),
            ensures
                dropped == old(self)@.evicted_frames(incoming as nat),
            decreases old(self)@.queued() - dropped,
        {
            let ghost before = self@;
            let queued: usize = self.queued_frames();
            proof {
                let evicted = old(self)@.evicted_frames(incoming as nat);
                if dropped < evicted {
                    lemma_fewer_steps(old(self)@.line, (dropped + 1) as nat, evicted, rate);
                } else {
                    assert(self@.line.segments.len() == 0);
                }
            }
            if !self.drop_oldest_frame(channels) {
                break;
            }
            proof {
                let all = old(self)@.queued();
                assert(dropped * channels + channels == (dropped + 1) * channels
                    && dropped * channels >= 0 && (dropped + 1) * channels <= all * channels)
                    by (nonlinear_arith)
                    requires
                        dropped + 1 <= all,
                        dropped >= 0,
                        channels >= 0,
                ;
                assert(before.samples.skip(channels as int) =~= old(self)@.samples.skip(
                    ((dropped + 1) * channels) as int,
                ));
                assert(dropped < dropped + queued);
            }
            dropped += 1;
        }
        dropped
    }

    /// Appends a run of samples.
    fn append_samples(&mut self, samples: &Vec<Single>, first: usize, end: usize)
        requires
            first <= end <= samples@.len(),
        ensures
            final(self)@ == (RingModel {
                samples: old(self)@.samples + samples@.subrange(first as int, end as int),
                ..old(self)@
            }),
    {
        let mut i: usize = first;
        assert(self.samples@ =~= old(self)@.samples + samples@.subrange(first as int, i as int));
        while i < end
            invariant
                first <= i <= end <= samples@.len(),
                self@ == (RingModel {
                    samples: old(self)@.samples + samples@.subrange(first as int, i as int),
                    ..old(self)@
                }),
            decreases end - i,
        {
            self.samples.push_back(samples[i]);
            i += 1;
            assert(self.samples@ =~= old(self)@.samples + samples@.subrange(
                first as int,
                i as int,
            ));
        }
    }

    /// Appends samples of the format of the queue.
    #[verifier::rlimit(40)]
    #[verifier::spinoff_prover]
    fn push_known(&mut self, frame: PcmAudioFrame) -> (result: AudioPushResult)
        requires
            old(self)@.is_sound(),
            old(self)@.format == Some(frame.format),
            old(self)@.has_room_for(frame.format, span_view(frame.pts), frame.samples@.len()),
        ensures
            final(self)@ == old(self)@.pushed(
                frame.format,
                span_view(frame.pts),
                frame.samples@,
            ),
            final(self)@.is_sound(),
            ({
                let incoming = frame.samples@.len() / frame.format.channels as nat;
                &&& result.accepted_frames == old(self)@.accepted_frames(incoming)
                &&& result.dropped_frames == old(self)@.lost_frames(incoming)
            }),
    {
        let ghost start = self@;
        let format = frame.format;
        let channels: usize = format.channels as usize;
        let available: usize = frame.samples.len();
        let incoming_frames: usize = available / channels;
        let capacity: usize = self.config.capacity_frames;
        proof {
            law_push_keeps_queue_sound(start, format, span_view(frame.pts), frame.samples@);
            assert(incoming_frames * channels <= available && incoming_frames <= available)
                by (nonlinear_arith)
                requires
                    incoming_frames == available / channels,
                    channels > 0,
            ;
            lemma_frames_of_samples(start.queued(), channels as nat);
        }
        let mut dropped_frames: usize = 0;
        let mut skip_frames: usize = 0;
        assert(start.samples.skip(0 * channels as int) =~= start.samples) by {
            assert(0 * channels as int == 0) by (nonlinear_arith);
        }
        if self.config.drop_oldest_on_overflow {
            dropped_frames = self.make_room(incoming_frames, channels);
            if incoming_frames > capacity {
                skip_frames = incoming_frames - capacity;
            }
        }
        let ghost roomy = self@;
        let queued_frames: usize = self.queued_frames();
        let free_frames: usize = capacity - queued_frames;
        let mut accepted_frames: usize = incoming_frames - skip_frames;
        if accepted_frames > free_frames {
            accepted_frames = free_frames;
        }
        assert(accepted_frames == start.accepted_frames(incoming_frames as nat));
        proof {
            assert(0 <= skip_frames * channels && (skip_frames + accepted_frames) * channels
                <= incoming_frames * channels && skip_frames * channels + accepted_frames * channels
                == (skip_frames + accepted_frames) * channels && accepted_frames * channels >= 0)
                by (nonlinear_arith)
                requires
                    0 <= skip_frames,
                    0 <= accepted_frames,
                    skip_frames + accepted_frames <= incoming_frames,
                    channels > 0,
            ;
        }
        let first: usize = skip_frames * channels;
        let end: usize = first + accepted_frames * channels;
        self.append_samples(&frame.samples, first, end);
        let segment_start = match frame.pts {
            Some(pts) => {
                proof {
                    lemma_no_frames(format.sample_rate as nat);
                }
                if skip_frames > 0 {
                    offset_pts(pts, skip_frames, format.sample_rate)
                } else {
                    Some(pts)
                }
            },
            None => None,
        };
        self.line.push_timeline_segment(segment_start, accepted_frames);
        let lost_frames: usize = dropped_frames + (incoming_frames - accepted_frames);
        self.stats.written_frames = self.stats.written_frames + accepted_frames as u64;
        self.stats.dropped_frames = self.stats.dropped_frames + lost_frames as u64;
        proof {
            let expected = start.pushed(format, span_view(frame.pts), frame.samples@);
            lemma_pushed_samples(start, format, span_view(frame.pts), frame.samples@);
            assert(self@.samples == expected.samples);
            assert(self@.line == expected.line);
            assert(self@ == expected);
        }
        AudioPushResult { accepted_frames, dropped_frames: lost_frames }
    }

    /// Appends samples, as far as there is room. What gives way is said by the
    /// configuration. A queue without a format takes that of its first samples.
    pub fn push_frame(&mut self, frame: PcmAudioFrame) -> (result: Result<AudioPushResult>)
        requires
            old(self)@.is_sound(),
            old(self)@.has_room_for(frame.format, span_view(frame.pts), frame.samples@.len()),
        ensures
            final(self)@.is_sound(),
            match old(self)@.format {
                Some(format) => if format != frame.format {
                    &&& result matches Err(error) && error == (AudioError::FormatChanged {
                        expected: format,
                        actual: frame.format,
                    })
                    &&& final(self)@ == old(self)@
                } else {
                    &&& result is Ok
                    &&& final(self)@ == old(self)@.pushed(
                        frame.format,
                        span_view(frame.pts),
                        frame.samples@,
                    )
                },
                None => if frame.format.channels == 0 {
                    &&& result matches Err(error) && error == AudioError::InvalidChannelCount
                    &&& final(self)@ == old(self)@
                } else {
                    &&& result is Ok
                    &&& final(self)@ == old(self)@.configured(frame.format).pushed(
                        frame.format,
                        span_view(frame.pts),
                        frame.samples@,
                    )
                },
            },
            result matches Ok(pushed) ==> {
                let incoming = frame.samples@.len() / frame.format.channels as nat;
                &&& pushed.accepted_frames == old(self)@.accepted_frames(incoming)
                &&& pushed.dropped_frames == old(self)@.lost_frames(incoming)
                &&& final(self)@.queued() == old(self)@.queued() + incoming - pushed.dropped_frames
                &&& final(self)@.queued() <= final(self)@.config.capacity_frames
                &&& final(self)@.written == old(self)@.written + pushed.accepted_frames
                &&& final(self)@.dropped == old(self)@.dropped + pushed.dropped_frames
            },
    {
        match self.format {
            Some(format) => {
                if format != frame.format {
                    return Err(
                        AudioError::FormatChanged { expected: format, actual: frame.format },
                    );
                }
            },
            None => {
                if let Err(error) = self.configure(frame.format) {
                    return Err(error);
                }
            },
        }
        proof {
            law_push_keeps_what_fits(self@, frame.format, span_view(frame.pts), frame.samples@);
        }
        Ok(self.push_known(frame))
    }

    /// Whether so many samples can be asked for: what is read can be counted, and its
    /// media times can be held.
    pub fn can_read(&self, samples: usize) -> (result: bool)
        requires
            self@.is_sound(),
        ensures
            result == self@.has_room_to_read(samples as nat),
    {
        let format = match self.format {
            Some(format) => format,
            None => {
                return true;
            },
        };
        let requested: usize = samples / format.channels as usize;
        let queued: usize = self.queued_frames();
        let frames: usize = if requested < queued {
            requested
        } else {
            queued
        };
        frames as u64 <= u64::MAX - self.stats.read_frames && (requested - frames) as u64
            <= u64::MAX - self.stats.underflow_frames && self.line.check_advance(
            frames,
            format.sample_rate,
        )
    }

    /// Fills a buffer with the oldest samples, and with silence where they do
    /// not suffice.
    pub fn read_interleaved(&mut self, output: &mut [Single]) -> (result: Result<AudioReadResult>)
        requires
            old(self)@.is_sound(),
            old(self)@.has_room_to_read(old(output)@.len()),
        ensures
            final(self)@.is_sound(),
            final(output)@.len() == old(output)@.len(),
            match old(self)@.format {
                None => {
                    &&& result matches Err(error) && error == AudioError::FormatNotConfigured
                    &&& final(self)@ == old(self)@
                    &&& final(output)@ == old(output)@
                },
                Some(format) => {
                    let requested = old(output)@.len() / format.channels as nat;
                    let frames = old(self)@.read_frames(requested);
                    let samples = (frames * format.channels) as nat;
                    &&& result matches Ok(read) && read.frames == frames && read.samples == samples
                        && read.underflow_frames == requested - frames
                    &&& final(self)@ == old(self)@.drained(format, requested)
                    &&& forall|i: int|
                        0 <= i < old(output)@.len() ==> #[trigger] final(output)@[i] == if i
                            < samples {
                            old(self)@.samples[i]
                        } else {
                            (Single { bits: 0 })
                        }
                },
            },
    {
        let format = match self.format {
            Some(format) => format,
            None => {
                return Err(AudioError::FormatNotConfigured);
            },
        };
        let channels: usize = format.channels as usize;
        if channels == 0 {
            return Err(AudioError::InvalidChannelCount);
        }
        let ghost before = self@;
        let ghost queued = before.queued();
        let size: usize = output.len();
        let requested_frames: usize = size / channels;
        proof {
            assert(requested_frames * channels <= size && requested_frames <= size)
                by (nonlinear_arith)
                requires
                    requested_frames == size / channels,
                    channels > 0,
            ;
            lemma_frames_of_samples(queued, channels as nat);
            lemma_frames_of_samples(requested_frames as nat, channels as nat);
            if requested_frames <= queued {
                assert(requested_frames * channels <= queued * channels) by (nonlinear_arith)
                    requires
                        requested_frames <= queued,
                ;
            } else {
                assert(requested_frames * channels >= queued * channels) by (nonlinear_arith)
                    requires
                        requested_frames >= queued,
                ;
            }
        }
        let requested_samples: usize = requested_frames * channels;
        let mut read_samples: usize = 0;
        let mut i: usize = 0;
        let ghost most = if requested_samples < before.samples.len() {
            requested_samples as int
        } else {
            before.samples.len() as int
        };
        assert(before.samples.skip(0) =~= before.samples);
        while i < size
            invariant
                i <= size == output@.len(),
                size == old(output)@.len(),
                requested_samples <= size,
                most == if requested_samples < before.samples.len() {
                    requested_samples as int
                } else {
                    before.samples.len() as int
                },
                read_samples == if i < most { i as int } else { most },
                self@ == (RingModel { samples: before.samples.skip(read_samples as int), ..before }),
                forall|k: int|
                    0 <= k < i ==> #[trigger] output@[k] == if k < most {
                        before.samples[k]
                    } else {
                        (Single { bits: 0 })
                    },
            decreases size - i,
        {
            let mut value = Single { bits: 0 };
            if i < requested_samples {
                if let Some(sample) = self.samples.pop_front() {
                    value = sample;
                    read_samples += 1;
                    assert(self.samples@ =~= before.samples.skip(read_samples as int));
                }
            }
            output[i] = value;
            i += 1;
        }
        let read_frames: usize = read_samples / channels;
        assert(read_frames == before.read_frames(requested_frames as nat));
        let underflow_frames: usize = requested_frames - read_frames;
        proof {
            law_read_keeps_queue_sound(before, format, requested_frames as nat);
            assert(read_samples == read_frames * channels);
        }
        self.line.advance_timeline(read_frames, format.sample_rate);
        self.stats.read_frames = self.stats.read_frames + read_frames as u64;
        self.stats.underflow_frames = self.stats.underflow_frames + underflow_frames as u64;
        Ok(AudioReadResult { frames: read_frames, samples: read_samples, underflow_frames })
    }
}

// ---------------------------------------------------------------------------
// Volume
// ---------------------------------------------------------------------------

/// The least number that differs from one by no more than the spacing of the
/// numbers above one.
pub const NEARLY_ONE: u32 = 0x3f7f_fffe;

/// A volume between zero and one. What is no finite number counts as one.
pub open spec fn normal_volume(volume: Single) -> Single {
    if volume.is_finite() {
        volume.limited(Single { bits: 0 }, Single { bits: SINGLE_ONE })
    } else {
        Single { bits: SINGLE_ONE }
    }
}

/// A sample at a volume. A volume of nearly one leaves it as it is.
pub open spec fn at_volume(sample: Single, volume: Single) -> Single {
    if normal_volume(volume).rank() >= NEARLY_ONE {
        sample
    } else {
        sample.product(normal_volume(volume))
    }
}

/// Holds a volume between zero and one.
pub fn normalize_volume(volume: Single) -> (result: Single)
    ensures
        result == normal_volume(volume),
{
    if volume.check_finite() {
        volume.clamp_to(Single { bits: 0 }, Single { bits: SINGLE_ONE })
    } else {
        Single { bits: SINGLE_ONE }
    }
}

/// Scales samples by a volume.
pub fn apply_volume(samples: &mut [Single], volume: Single)
    ensures
        final(samples)@.len() == old(samples)@.len(),
        forall|i: int|
            0 <= i < old(samples)@.len() ==> #[trigger] final(samples)@[i] == at_volume(
                old(samples)@[i],
                volume,
            ),
{
    let factor = normalize_volume(volume);
    if factor.place() >= NEARLY_ONE as i64 {
        return;
    }
    let size: usize = samples.len();
    let mut i: usize = 0;
    while i < size
        invariant
            i <= size == samples@.len(),
            samples@.len() == old(samples)@.len(),
            factor == normal_volume(volume),
            factor.rank() < NEARLY_ONE,
            forall|k: int|
                0 <= k < i ==> #[trigger] samples@[k] == at_volume(old(samples)@[k], volume),
            forall|k: int| i <= k < size ==> #[trigger] samples@[k] == old(samples)@[k],
        decreases size - i,
    {
        samples[i] = samples[i].times(factor);
        i += 1;
    }
}

// ---------------------------------------------------------------------------
// Outputs
// ---------------------------------------------------------------------------

/// An audio output.
pub trait AudioOutputBackend {
    /// The queue of the output.
    spec fn queue(&self) -> RingModel;

    /// What the output does.
    spec fn current_state(&self) -> AudioOutputState;

    /// The volume of the output.
    spec fn current_volume(&self) -> Single;

    /// Whether the output can tell where playback stands.
    spec fn tells_clock(&self) -> bool;

    /// Takes samples of a format from now on.
    fn configure(&mut self, format: PcmFormat) -> (result: Result<()>)
        requires
            old(self).queue().is_sound(),
        ensures
            final(self).queue().is_sound(),
            result is Ok ==> final(self).queue() == old(self).queue().configured(format),
            final(self).current_state() == old(self).current_state(),
            final(self).current_volume() == old(self).current_volume(),
    ;

    /// Plays what is pushed.
    fn start(&mut self) -> (result: Result<()>)
        ensures
            final(self).queue() == old(self).queue(),
            result is Ok ==> final(self).current_state() == AudioOutputState::Playing,
            final(self).current_volume() == old(self).current_volume(),
    ;

    /// Holds what is pushed.
    fn pause(&mut self) -> (result: Result<()>)
        ensures
            final(self).queue() == old(self).queue(),
            result is Ok ==> final(self).current_state() == AudioOutputState::Paused,
            final(self).current_volume() == old(self).current_volume(),
    ;

    /// Stops the output.
    fn stop(&mut self) -> (result: Result<()>)
        requires
            old(self).queue().is_sound(),
        ensures
            final(self).queue().is_sound(),
            result is Ok ==> final(self).current_state() == AudioOutputState::Stopped,
            final(self).current_volume() == old(self).current_volume(),
    ;

    /// Sets the volume, held between zero and one.
    fn set_volume(&mut self, volume: Single)
        ensures
            final(self).queue() == old(self).queue(),
            final(self).current_state() == old(self).current_state(),
            final(self).current_volume() == normal_volume(volume),
    ;

    /// The volume.
    fn volume(&self) -> (result: Single)
        ensures
            result == self.current_volume(),
    ;

    /// Appends samples to the queue.
    fn push(&mut self, frame: PcmAudioFrame) -> (result: Result<AudioPushResult>)
        requires
            old(self).queue().is_sound(),
            old(self).queue().has_room_for(frame.format, span_view(frame.pts), frame.samples@.len()),
        ensures
            final(self).queue().is_sound(),
            final(self).current_state() == old(self).current_state(),
            final(self).current_volume() == old(self).current_volume(),
            result is Ok && old(self).queue().format == Some(frame.format) ==> final(self).queue()
                == old(self).queue().pushed(frame.format, span_view(frame.pts), frame.samples@),
    ;

    /// What the output does.
    fn state(&self) -> (result: AudioOutputState)
        ensures
            result == self.current_state(),
    ;

    /// What went through the queue.
    fn stats(&self) -> (result: AudioRingBufferStats)
        requires
            self.queue().is_sound(),
        ensures
            result.queued_frames == self.queue().queued(),
            result.queued_samples == self.queue().samples.len(),
            result.written_frames == self.queue().written,
            result.read_frames == self.queue().read,
            result.dropped_frames == self.queue().dropped,
            result.underflow_frames == self.queue().underflow,
    ;

    /// Where playback stands, if the output can tell.
    fn clock_snapshot(&self) -> (result: Option<AudioClockSnapshot>)
        requires
            self.queue().is_sound(),
            self.queue().can_tell_time(),
        ensures
            result is Some <==> self.tells_clock(),
            result matches Some(clock) ==> {
                &&& span_view(clock.media_time) == self.queue().line.media_time()
                &&& span_view(clock.queued_duration) == self.queue().queued_nanos()
                &&& clock.queued_frames == self.queue().queued()
                &&& clock.read_frames == self.queue().read
                &&& clock.written_frames == self.queue().written
                &&& clock.underflow_frames == self.queue().underflow
            },
    ;
}

/// An output that only queues its samples; someone else reads them.
#[derive(Debug)]
pub struct BufferedAudioOutput {
    state: AudioOutputState,
    buffer: AudioRingBuffer,
    volume: Single,
}

impl BufferedAudioOutput {
    /// The queue.
    pub closed spec fn ring(self) -> RingModel {
        self.buffer@
    }

    /// The volume that samples are read at.
    pub closed spec fn read_volume(self) -> Single {
        self.volume
    }

    /// What the output does.
    pub closed spec fn playback_state(self) -> AudioOutputState {
        self.state
    }

    /// A stopped output at full volume.
    pub fn new(config: AudioRingBufferConfig) -> (result: Self)
        ensures
            result.ring().is_sound(),
            result.ring() == (RingModel {
                config,
                format: None,
                samples: Seq::empty(),
                line: empty_line(),
                written: 0,
                read: 0,
                dropped: 0,
                underflow: 0,
            }),
            result.playback_state() == AudioOutputState::Stopped,
            result.read_volume().bits == SINGLE_ONE,
    {
        Self {
            state: AudioOutputState::Stopped,
            buffer: AudioRingBuffer::new(config),
            volume: Single { bits: SINGLE_ONE },
        }
    }

    /// The queue.
    pub fn buffer(&self) -> (result: &AudioRingBuffer)
        ensures
            result@ == self.ring(),
    {
        &self.buffer
    }

    /// The queue, to change it.
    pub fn buffer_mut(&mut self) -> (result: &mut AudioRingBuffer)
        ensures
            result@ == old(self).ring(),
            final(self).ring() == final(result)@,
            final(self).playback_state() == old(self).playback_state(),
            final(self).read_volume() == old(self).read_volume(),
    {
        &mut self.buffer
    }

    /// Fills a buffer with the oldest samples at the volume of the output, and
    /// with silence where they do not suffice.
    pub fn read_interleaved(&mut self, output: &mut [Single]) -> (result: Result<AudioReadResult>)
        requires
            old(self).ring().is_sound(),
            old(self).ring().has_room_to_read(old(output)@.len()),
        ensures
            final(self).ring().is_sound(),
            final(self).playback_state() == old(self).playback_state(),
            final(self).read_volume() == old(self).read_volume(),
            final(output)@.len() == old(output)@.len(),
            match old(self).ring().format {
                None => {
                    &&& result matches Err(error) && error == AudioError::FormatNotConfigured
                    &&& final(self).ring() == old(self).ring()
                    &&& final(output)@ == old(output)@
                },
                Some(format) => {
                    let requested = old(output)@.len() / format.channels as nat;
                    let frames = old(self).ring().read_frames(requested);
                    let samples = (frames * format.channels) as nat;
                    &&& result matches Ok(read) && read.frames == frames && read.samples == samples
                        && read.underflow_frames == requested - frames
                    &&& final(self).ring() == old(self).ring().drained(format, requested)
                    &&& forall|i: int|
                        0 <= i < old(output)@.len() ==> #[trigger] final(output)@[i] == at_volume(
                            if i < samples {
                                old(self).ring().samples[i]
                            } else {
                                (Single { bits: 0 })
                            },
                            old(self).read_volume(),
                        )
                },
            },
    {
        match self.buffer.read_interleaved(output) {
            Ok(result) => {
                apply_volume(output, self.volume);
                Ok(result)
            },
            Err(error) => Err(error),
        }
    }

    /// Where playback stands.
    pub fn clock_snapshot(&self) -> (result: AudioClockSnapshot)
        requires
            self.ring().is_sound(),
            self.ring().can_tell_time(),
        ensures
            span_view(result.media_time) == self.ring().line.media_time(),
            span_view(result.queued_duration) == self.ring().queued_nanos(),
            result.queued_frames == self.ring().queued(),
            result.read_frames == self.ring().read,
            result.written_frames == self.ring().written,
            result.underflow_frames == self.ring().underflow,
    {
        self.buffer.clock_snapshot()
    }
}

impl AudioOutputBackend for BufferedAudioOutput {
    open spec fn queue(&self) -> RingModel {
        self.ring()
    }

    open spec fn current_state(&self) -> AudioOutputState {
        self.playback_state()
    }

    open spec fn current_volume(&self) -> Single {
        self.read_volume()
    }

    open spec fn tells_clock(&self) -> bool {
        true
    }

    fn configure(&mut self, format: PcmFormat) -> (result: Result<()>)
        ensures
            result is Ok <==> format.channels > 0,
            result matches Err(error) ==> error == AudioError::InvalidChannelCount
                && final(self).ring() == old(self).ring(),
    {
        self.buffer.configure(format)
    }

    fn start(&mut self) -> (result: Result<()>)
        ensures
            result is Ok,
    {
        self.state = AudioOutputState::Playing;
        Ok(())
    }

    fn pause(&mut self) -> (result: Result<()>)
        ensures
            result is Ok,
    {
        self.state = AudioOutputState::Paused;
        Ok(())
    }

    fn stop(&mut self) -> (result: Result<()>)
        ensures
            result is Ok,
            final(self).ring() == (RingModel {
                samples: Seq::empty(),
                line: empty_line(),
                ..old(self).ring()
            }),
    {
        self.state = AudioOutputState::Stopped;
        self.buffer.clear();
        Ok(())
    }

    fn set_volume(&mut self, volume: Single) {
        self.volume = normalize_volume(volume);
    }

    fn volume(&self) -> (result: Single) {
        self.volume
    }

    fn push(&mut self, frame: PcmAudioFrame) -> (result: Result<AudioPushResult>)
        ensures
            match old(self).ring().format {
                Some(format) => if format != frame.format {
                    &&& result matches Err(error) && error == (AudioError::FormatChanged {
                        expected: format,
                        actual: frame.format,
                    })
                    &&& final(self).ring() == old(self).ring()
                } else {
                    result is Ok
                },
                None => if frame.format.channels == 0 {
                    &&& result matches Err(error) && error == AudioError::InvalidChannelCount
                    &&& final(self).ring() == old(self).ring()
                } else {
                    &&& result is Ok
                    &&& final(self).ring() == old(self).ring().configured(frame.format).pushed(
                        frame.format,
                        span_view(frame.pts),
                        frame.samples@,
                    )
                },
            },
            result matches Ok(pushed) ==> {
                let incoming = frame.samples@.len() / frame.format.channels as nat;
                &&& pushed.accepted_frames == old(self).ring().accepted_frames(incoming)
                &&& pushed.dropped_frames == old(self).ring().lost_frames(incoming)
            },
    {
        self.buffer.push_frame(frame)
    }

    fn state(&self) -> (result: AudioOutputState) {
        self.state
    }

    fn stats(&self) -> (result: AudioRingBufferStats) {
        self.buffer.stats()
    }

    fn clock_snapshot(&self) -> (result: Option<AudioClockSnapshot>) {
        Some(self.buffer.clock_snapshot())
    }
}

// ---------------------------------------------------------------------------
// Laws of the queue
// ---------------------------------------------------------------------------

/// The media time follows what is read: within a run it moves on by the time of the
/// frames that were taken, and behind a run it is the time of the next one.
pub proof fn law_media_time_follows_reads(
    start: nat,
    frames: nat,
    next: SegmentModel,
    rest: Seq<SegmentModel>,
    last: Option<nat>,
    taken: nat,
    rate: nat,
)
    requires
        frames > 0,
        next.start is Some,
    ensures
        ({
            let front = SegmentModel { start: Some(start), frames };
            let line = LineModel { segments: seq![front, next] + rest, last };
            let alone = LineModel { segments: seq![front], last };
            &&& line.media_time() == Some(start)
            &&& taken < frames ==> line.advanced(taken, rate).media_time() == Some(
                start + (if taken == 0 {
                    0
                } else {
                    frames_time(taken, rate)
                }),
            )
            &&& line.advanced(frames, rate).media_time() == next.start
            &&& alone.advanced(frames, rate).media_time() == Some(start + frames_time(frames, rate))
        }),
{
    let front = SegmentModel { start: Some(start), frames };
    let line = LineModel { segments: seq![front, next] + rest, last };
    let alone = LineModel { segments: seq![front], last };
    assert(line.segments[0] == front);
    assert(line.segments.skip(1)[0] == next);
    assert(alone.segments.skip(1) =~= Seq::<SegmentModel>::empty());
    reveal_with_fuel(LineModel::advanced, 3);
}

/// What is pushed into an empty queue is heard at its own time, and what is pushed
/// behind other samples does not change the time of the first.
pub proof fn law_pushed_samples_are_heard_at_their_time(
    ring: RingModel,
    format: PcmFormat,
    pts: nat,
    samples: Seq<Single>,
)
    requires
        ring.is_sound(),
        ring.format == Some(format),
        samples.len() / format.channels as nat > 0,
        ring.queued() + samples.len() / format.channels as nat <= ring.config.capacity_frames,
    ensures
        ring.line.segments.len() == 0 ==> ring.pushed(format, Some(pts), samples).line.media_time()
            == Some(pts + frames_time(0, format.sample_rate as nat)),
        ring.line.segments.len() == 0 ==> ring.pushed(format, Some(pts), samples).line.media_time()
            == Some(pts),
        ring.line.segments.len() > 0 && ring.line.segments[0].start is Some ==> ring.pushed(
            format,
            Some(pts),
            samples,
        ).line.media_time() == ring.line.media_time(),
{
    lemma_no_frames(format.sample_rate as nat);
    assert(ring.line.stepped(0, format.sample_rate as nat) == ring.line);
}

/// Where more comes than there is room for and the oldest give way, the newest frames
/// are kept and the time of what was passed over is added to the stamp; else what
/// comes is cut off at its end and the stamp stays.
pub proof fn law_overflow_keeps_the_stamp_right(
    ring: RingModel,
    format: PcmFormat,
    pts: nat,
    samples: Seq<Single>,
)
    requires
        ring.is_sound(),
        ring.format == Some(format),
        ring.line.segments.len() == 0,
        ring.config.capacity_frames > 0,
        samples.len() / format.channels as nat > ring.config.capacity_frames,
    ensures
        ({
            let rate = format.sample_rate as nat;
            let incoming = samples.len() / format.channels as nat;
            let after = ring.pushed(format, Some(pts), samples);
            &&& after.queued() == ring.config.capacity_frames
            &&& after.written == ring.written + ring.config.capacity_frames
            &&& after.dropped == ring.dropped + incoming - ring.config.capacity_frames
            &&& ring.config.drop_oldest_on_overflow ==> after.line.media_time() == Some(
                pts + frames_time((incoming - ring.config.capacity_frames) as nat, rate),
            )
            &&& !ring.config.drop_oldest_on_overflow ==> after.line.media_time() == Some(pts)
        }),
{
    let rate = format.sample_rate as nat;
    lemma_no_frames(rate);
    assert(ring.queued() == 0);
    assert(ring.line.stepped(0, rate) == ring.line);
    law_push_keeps_queue_sound(ring, format, Some(pts), samples);
}

/// Every frame is accounted for: of those that are requested each is delivered or
/// counted as missing, no more are delivered than are there, and none is missing
/// while one is left.
pub proof fn law_requests_are_accounted_for(ring: RingModel, format: PcmFormat, requested: nat)
    requires
        ring.is_sound(),
        ring.format == Some(format),
    ensures
        ({
            let after = ring.drained(format, requested);
            let delivered = after.read - ring.read;
            let missing = after.underflow - ring.underflow;
            &&& delivered + missing == requested
            &&& 0 <= delivered <= ring.queued()
            &&& missing > 0 ==> after.queued() == 0
            &&& after.queued() + delivered == ring.queued()
            &&& after.samples.len() + delivered * format.channels == ring.samples.len()
            &&& after.written == ring.written
            &&& after.dropped == ring.dropped
        }),
{
    law_read_keeps_queue_sound(ring, format, requested);
    let frames = ring.read_frames(requested);
    assert(frames * format.channels <= ring.queued() * format.channels) by (nonlinear_arith)
        requires
            frames <= ring.queued(),
    ;
}

/// How many frames are taken: all of them while there is room. Where the oldest give
/// way there is room for as many as the queue can hold, else for what is left.
pub proof fn law_frames_are_taken_while_there_is_room(ring: RingModel, incoming: nat)
    requires
        ring.queued() <= ring.config.capacity_frames,
    ensures
        ring.accepted_frames(incoming) <= incoming,
        ring.queued() + incoming <= ring.config.capacity_frames ==> ring.accepted_frames(incoming)
            == incoming && ring.lost_frames(incoming) == 0,
        ring.config.drop_oldest_on_overflow && incoming >= ring.config.capacity_frames
            ==> ring.accepted_frames(incoming) == ring.config.capacity_frames,
        ring.config.drop_oldest_on_overflow && incoming <= ring.config.capacity_frames
            ==> ring.accepted_frames(incoming) == incoming,
        !ring.config.drop_oldest_on_overflow ==> ring.queued() + ring.accepted_frames(incoming)
            <= ring.config.capacity_frames && ring.accepted_frames(incoming)
            + ring.lost_frames(incoming) == incoming,
        ring.queued() + incoming > ring.config.capacity_frames ==> ring.queued() + incoming
            - ring.lost_frames(incoming) == ring.config.capacity_frames,
{
}

/// A queue that gets a format starts empty and without a time, and keeps its size and
/// its counters.
pub proof fn law_configured_queue_is_empty(ring: RingModel, format: PcmFormat)
    ensures
        ring.configured(format).format == Some(format),
        ring.configured(format).samples.len() == 0,
        ring.configured(format).queued() == 0,
        ring.configured(format).line.media_time() is None,
        ring.configured(format).config == ring.config,
        ring.configured(format).written == ring.written,
        ring.configured(format).read == ring.read,
        ring.configured(format).dropped == ring.dropped,
        ring.configured(format).underflow == ring.underflow,
{
}

/// A volume stays between silence and one, and settles; what is no number is one. At
/// full volume samples stay as they are, and below it they are multiplied by it.
pub proof fn law_volume(volume: Single, sample: Single)
    ensures
        0 <= normal_volume(volume).rank() <= SINGLE_ONE,
        normal_volume(normal_volume(volume)) == normal_volume(volume),
        !volume.is_finite() ==> normal_volume(volume).bits == SINGLE_ONE,
        volume.is_finite() && 0 <= volume.rank() <= SINGLE_ONE ==> normal_volume(volume) == volume,
        volume.is_finite() && volume.rank() >= SINGLE_ONE ==> at_volume(sample, volume) == sample,
        volume.is_finite() && 0 <= volume.rank() < NEARLY_ONE ==> at_volume(sample, volume)
            == sample.product(volume),
        volume.is_finite() && volume.rank() < 0 ==> at_volume(sample, volume) == sample.product(
            (Single { bits: 0 }),
        ),
{
}

/// As many frames as the rate says take a second.
pub proof fn law_frames_last_by_their_rate(seconds: nat, rate: nat)
    requires
        seconds < 0x1_0000_0000,
        0 < rate < 0x10_0000,
    ensures
        frames_time(seconds * rate, rate) == seconds * 1_000_000_000,
{
    assert(seconds * rate < 0x1_0000_0000 * 0x10_0000) by (nonlinear_arith)
        requires
            seconds < 0x1_0000_0000,
            0 < rate < 0x10_0000,
    ;
    law_frames_take_whole_seconds(seconds, rate);
}

} // verus!
