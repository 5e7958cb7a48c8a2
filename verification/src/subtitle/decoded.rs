//! Decoded subtitles: the tracks that they come from, their texts and bitmaps,
//! and the scripts and timelines that they turn into.
use crate::subtitle::ass::{
    ass_segment_display_text, dialogue_line, dialogue_rest, is_ass_dialogue_line,
    push_ass_dialogue, rebuild_lavc_ass_dialogue, rebuilt_dialogue, segment_display_spec,
    DEFAULT_ASS_SCRIPT_HEADER,
};
use crate::subtitle::bitmap::{SubtitleBitmapPlane, SubtitleFrame};
use crate::subtitle::timeline::{cues_view, sorted_cues, CueModel, SubtitleCue, SubtitleTimeline};
use crate::text::{chars_of, extend_chars, string_of, trim, trim_spec};
use crate::time::{nat_max, Duration};
use vstd::prelude::*;

verus! {

broadcast use vstd::seq_lib::group_seq_properties;

// ---------------------------------------------------------------------------
// Tracks
// ---------------------------------------------------------------------------

/// Where a subtitle track comes from.
#[derive(Debug, Clone, PartialEq, Eq)]
pub enum SubtitleTrackSource {
    /// A stream of the media file.
    Embedded { stream_index: i64 },
    /// A file of its own.
    External { uri: String },
}

impl SubtitleTrackSource {
    /// A stream of the media file.
    pub fn embedded(stream_index: i64) -> (result: Self)
        ensures
            result == (SubtitleTrackSource::Embedded { stream_index }),
    {
        SubtitleTrackSource::Embedded { stream_index }
    }

    /// A file of its own.
    pub fn external(uri: String) -> (result: Self)
        ensures
            result == (SubtitleTrackSource::External { uri }),
    {
        SubtitleTrackSource::External { uri }
    }

    /// Whether the track is a stream of the media file.
    pub fn is_embedded(&self) -> (result: bool)
        ensures
            result == (self is Embedded),
    {
        matches!(self, SubtitleTrackSource::Embedded { .. })
    }

    /// Whether the track is a file of its own.
    pub fn is_external(&self) -> (result: bool)
        ensures
            result == (self is External),
    {
        matches!(self, SubtitleTrackSource::External { .. })
    }

    /// Whether the track can be taken out again: only a file can.
    pub fn can_remove(&self) -> (result: bool)
        ensures
            result == (self is External),
    {
        self.is_external()
    }
}

/// A subtitle track.
#[derive(Debug, Clone, PartialEq, Eq)]
pub struct SubtitleTrackConfig {
    pub id: i64,
    pub source: SubtitleTrackSource,
    pub language: Option<String>,
    pub title: Option<String>,
}

impl SubtitleTrackConfig {
    /// A stream of the media file, without language and title.
    pub fn embedded(id: i64, stream_index: i64) -> (result: Self)
        ensures
            result == (SubtitleTrackConfig {
                id,
                source: SubtitleTrackSource::Embedded { stream_index },
                language: None,
                title: None,
            }),
    {
        Self {
            id,
            source: SubtitleTrackSource::embedded(stream_index),
            language: None,
            title: None,
        }
    }

    /// A file of its own, without language and title.
    pub fn external(id: i64, uri: String) -> (result: Self)
        ensures
            result == (SubtitleTrackConfig {
                id,
                source: SubtitleTrackSource::External { uri },
                language: None,
                title: None,
            }),
    {
        Self { id, source: SubtitleTrackSource::external(uri), language: None, title: None }
    }

    /// Whether the track can be taken out again.
    pub fn can_remove(&self) -> (result: bool)
        ensures
            result == (self.source is External),
    {
        self.source.can_remove()
    }
}

// ---------------------------------------------------------------------------
// Text segments
// ---------------------------------------------------------------------------

/// How the text of a segment is written.
#[derive(Debug, Clone, Copy, PartialEq, Eq, Structural)]
pub enum SubtitleTextFormat {
    PlainText,
    Ass,
}

/// A piece of text of a decoded subtitle.
#[derive(Debug, Clone, PartialEq, Eq)]
pub struct SubtitleTextSegment {
    pub format: SubtitleTextFormat,
    pub text: String,
    pub forced: bool,
}

/// The text that a segment shows.
pub open spec fn display_of(format: SubtitleTextFormat, text: Seq<char>) -> Seq<char> {
    match format {
        SubtitleTextFormat::PlainText => trim_spec(text),
        SubtitleTextFormat::Ass => segment_display_spec(text),
    }
}

impl SubtitleTextSegment {
    /// The text that the segment shows.
    pub open spec fn shown(self) -> Seq<char> {
        display_of(self.format, self.text@)
    }

    /// A segment that is not forced.
    pub fn new(format: SubtitleTextFormat, text: String) -> (result: Self)
        ensures
            result == (SubtitleTextSegment { format, text, forced: false }),
    {
        Self { format, text, forced: false }
    }

    /// The segment with another mark of being forced.
    pub fn with_forced(self, forced: bool) -> (result: Self)
        ensures
            result == (SubtitleTextSegment { forced, ..self }),
    {
        Self { format: self.format, text: self.text, forced }
    }

    /// The text that the segment shows.
    pub fn display_text(&self) -> (result: String)
        ensures
            result@ == self.shown(),
    {
        let chars = chars_of(&self.text);
        match self.format {
            SubtitleTextFormat::PlainText => string_of(trim(&chars)),
            SubtitleTextFormat::Ass => string_of(&ass_segment_display_text(&chars)),
        }
    }
}

// ---------------------------------------------------------------------------
// Frames
// ---------------------------------------------------------------------------

/// A decoded subtitle: texts and bitmaps of one track for one span of time.
#[derive(Debug, Clone, PartialEq, Eq)]
pub struct DecodedSubtitleFrame {
    pub track_id: i64,
    pub start: Option<Duration>,
    pub end: Option<Duration>,
    pub text: Vec<SubtitleTextSegment>,
    pub bitmap: SubtitleFrame,
    pub forced: bool,
}

/// Whether one of the segments has text.
pub open spec fn any_text(segments: Seq<SubtitleTextSegment>) -> bool {
    exists|i: int| 0 <= i < segments.len() && (#[trigger] segments[i]).text@.len() > 0
}

/// The cues of the segments that show something.
pub open spec fn segment_cues(
    segments: Seq<SubtitleTextSegment>,
    start: nat,
    end: nat,
) -> Seq<CueModel>
    decreases segments.len(),
{
    if segments.len() == 0 {
        Seq::empty()
    } else {
        let rest = segment_cues(segments.drop_last(), start, end);
        let text = segments.last().shown();
        if text.len() > 0 {
            rest.push(CueModel { start, end, text })
        } else {
            rest
        }
    }
}

/// The script lines of a segment.
pub open spec fn segment_lines(segment: SubtitleTextSegment, start: nat, end: nat) -> Seq<char> {
    let text = segment.text@;
    if trim_spec(text).len() == 0 {
        Seq::empty()
    } else {
        match segment.format {
            SubtitleTextFormat::Ass => if dialogue_rest(text) is Some {
                trim_spec(text) + seq!['\n']
            } else {
                match rebuilt_dialogue(text, start, end) {
                    Some(line) => line + seq!['\n'],
                    None => if segment_display_spec(text).len() > 0 {
                        dialogue_line(start, end, segment_display_spec(text))
                    } else {
                        Seq::empty()
                    },
                }
            },
            SubtitleTextFormat::PlainText => dialogue_line(start, end, trim_spec(text)),
        }
    }
}

/// The script lines of some segments.
pub open spec fn segments_lines(
    segments: Seq<SubtitleTextSegment>,
    start: nat,
    end: nat,
) -> Seq<char>
    decreases segments.len(),
{
    if segments.len() == 0 {
        Seq::empty()
    } else {
        segments_lines(segments.drop_last(), start, end) + segment_lines(
            segments.last(),
            start,
            end,
        )
    }
}

impl DecodedSubtitleFrame {
    /// The time at which the frame ends: its own end or the fallback, but not
    /// before its start.
    pub open spec fn end_time(self, start: nat, fallback_end: nat) -> nat {
        nat_max(
            match self.end {
                Some(end) => end@,
                None => fallback_end,
            },
            start,
        )
    }

    /// The cues of the frame.
    pub open spec fn cues(self, fallback_end: nat) -> Seq<CueModel> {
        match self.start {
            Some(start) => segment_cues(
                self.text@,
                start@,
                self.end_time(start@, fallback_end),
            ),
            None => Seq::empty(),
        }
    }

    /// The script lines of the frame. A frame without start starts at zero.
    pub open spec fn script_lines(self, fallback_end: nat) -> Seq<char> {
        let start: nat = match self.start {
            Some(start) => start@,
            None => 0,
        };
        if any_text(self.text@) {
            segments_lines(self.text@, start, self.end_time(start, fallback_end))
        } else {
            Seq::empty()
        }
    }

    /// A frame without texts and bitmaps.
    pub fn new(track_id: i64, start: Option<Duration>, end: Option<Duration>) -> (result: Self)
        ensures
            result.track_id == track_id,
            result.start == start,
            result.end == end,
            result.text@.len() == 0,
            result.bitmap.planes@.len() == 0,
            result.bitmap.pts@ == (match start {
                Some(pts) => pts@,
                None => 0,
            }),
            !result.forced,
    {
        let pts = match start {
            Some(pts) => pts,
            None => Duration::zero(),
        };
        Self {
            track_id,
            start,
            end,
            text: Vec::new(),
            bitmap: SubtitleFrame { pts, planes: Vec::new() },
            forced: false,
        }
    }

    /// Whether the frame has neither texts nor bitmaps.
    pub fn is_empty(&self) -> (result: bool)
        ensures
            result <==> self.text@.len() == 0 && self.bitmap.planes@.len() == 0,
    {
        self.text.len() == 0 && self.bitmap.planes.len() == 0
    }

    /// Appends a segment if it has text. A forced segment forces the frame.
    pub fn push_text(&mut self, segment: SubtitleTextSegment)
        ensures
            final(self).text@ == (if segment.text@.len() > 0 {
                old(self).text@.push(segment)
            } else {
                old(self).text@
            }),
            final(self).forced == (old(self).forced || segment.forced),
            final(self).track_id == old(self).track_id,
            final(self).start == old(self).start,
            final(self).end == old(self).end,
            final(self).bitmap == old(self).bitmap,
    {
        self.forced = self.forced || segment.forced;
        if !segment.text.as_str().is_empty() {
            self.text.push(segment);
        }
    }

    /// Appends a bitmap. A forced bitmap forces the frame.
    pub fn push_bitmap_plane(&mut self, plane: SubtitleBitmapPlane, forced: bool)
        ensures
            final(self).bitmap.planes@ == old(self).bitmap.planes@.push(plane),
            final(self).bitmap.pts == old(self).bitmap.pts,
            final(self).forced == (old(self).forced || forced),
            final(self).track_id == old(self).track_id,
            final(self).start == old(self).start,
            final(self).end == old(self).end,
            final(self).text == old(self).text,
    {
        self.forced = self.forced || forced;
        self.bitmap.planes.push(plane);
    }

    /// The frame as one of another track.
    pub fn with_track_id(self, track_id: i64) -> (result: Self)
        ensures
            result == (DecodedSubtitleFrame { track_id, ..self }),
    {
        Self {
            track_id,
            start: self.start,
            end: self.end,
            text: self.text,
            bitmap: self.bitmap,
            forced: self.forced,
        }
    }

    /// Whether one of the segments has text.
    pub fn has_text(&self) -> (result: bool)
        ensures
            result == any_text(self.text@),
    {
        let mut i: usize = 0;
        while i < self.text.len()
            invariant
                i <= self.text@.len(),
                forall|k: int| 0 <= k < i ==> (#[trigger] self.text@[k]).text@.len() == 0,
            decreases self.text@.len() - i,
        {
            if !self.text[i].text.as_str().is_empty() {
                assert(self.text@[i as int].text@.len() > 0);
                return true;
            }
            i += 1;
        }
        false
    }

    /// The end of the frame.
    fn resolve_end(&self, start: Duration, fallback_end: Duration) -> (result: Duration)
        ensures
            result@ == self.end_time(start@, fallback_end@),
    {
        match self.end {
            Some(end) => end.longer(start),
            None => fallback_end.longer(start),
        }
    }

    /// The cues of the segments that show something. A frame without start has
    /// none.
    pub fn text_cues(&self, fallback_end: Duration) -> (result: Vec<SubtitleCue>)
        ensures
            cues_view(result@) == self.cues(fallback_end@),
    {
        let mut result: Vec<SubtitleCue> = Vec::new();
        assert(cues_view(result@) =~= Seq::<CueModel>::empty());
        let start = match self.start {
            Some(start) => start,
            None => {
                return result;
            },
        };
        let end = self.resolve_end(start, fallback_end);
        let mut i: usize = 0;
        while i < self.text.len()
            invariant
                i <= self.text@.len(),
                cues_view(result@) == segment_cues(self.text@.take(i as int), start@, end@),
            decreases self.text@.len() - i,
        {
            let ghost before = cues_view(result@);
            assert(self.text@.take(i as int + 1).drop_last() =~= self.text@.take(i as int));
            let text = self.text[i].display_text();
            if !text.as_str().is_empty() {
                let cue = SubtitleCue { start, end, text };
                result.push(cue);
                assert(cues_view(result@) =~= before.push(cue@));
            }
            i += 1;
        }
        assert(self.text@.take(i as int) =~= self.text@);
        result
    }

    /// Appends the script lines of the frame.
    fn push_script_lines(&self, output: &mut Vec<char>, fallback_end: Duration)
        ensures
            final(output)@ == old(output)@ + self.script_lines(fallback_end@),
    {
        if !self.has_text() {
            assert(output@ =~= old(output)@ + self.script_lines(fallback_end@));
            return;
        }
        let start = match self.start {
            Some(start) => start,
            None => Duration::zero(),
        };
        let end = self.resolve_end(start, fallback_end);
        let mut i: usize = 0;
        assert(output@ =~= old(output)@ + segments_lines(self.text@.take(0), start@, end@));
        while i < self.text.len()
            invariant
                i <= self.text@.len(),
                output@ == old(output)@ + segments_lines(self.text@.take(i as int), start@, end@),
            decreases self.text@.len() - i,
        {
            let ghost before = output@;
            assert(self.text@.take(i as int + 1).drop_last() =~= self.text@.take(i as int));
            let segment: &SubtitleTextSegment = &self.text[i];
            let chars = chars_of(&segment.text);
            let trimmed = trim(&chars);
            if trimmed.len() > 0 {
                match segment.format {
                    SubtitleTextFormat::Ass => {
                        if is_ass_dialogue_line(&chars) {
                            extend_chars(output, trimmed);
                            output.push('\n');
                        } else {
                            match rebuild_lavc_ass_dialogue(&chars, start, end) {
                                Some(line) => {
                                    extend_chars(output, &line);
                                    output.push('\n');
                                },
                                None => {
                                    let text = ass_segment_display_text(&chars);
                                    if text.len() > 0 {
                                        push_ass_dialogue(output, start, end, &text);
                                    }
                                },
                            }
                        }
                    },
                    SubtitleTextFormat::PlainText => {
                        push_ass_dialogue(output, start, end, trimmed);
                    },
                }
            }
            assert(output@ =~= before + segment_lines(self.text@[i as int], start@, end@));
            i += 1;
            assert(output@ =~= old(output)@ + segments_lines(
                self.text@.take(i as int),
                start@,
                end@,
            ));
        }
        assert(self.text@.take(i as int) =~= self.text@);
    }

    /// The script that shows the frame, if it shows anything.
    pub fn to_ass_script(&self, fallback_end: Duration) -> (result: Option<String>)
        ensures
            match result {
                Some(script) => self.script_lines(fallback_end@).len() > 0 && script@
                    == DEFAULT_ASS_SCRIPT_HEADER@ + self.script_lines(fallback_end@),
                None => self.script_lines(fallback_end@).len() == 0,
            },
    {
        let frames: Vec<&DecodedSubtitleFrame> = vec![self];
        let result = decoded_subtitle_frames_to_ass_script(frames.as_slice(), fallback_end);
        proof {
            assert(frames@.drop_last() =~= Seq::<&DecodedSubtitleFrame>::empty());
            assert(frames_lines(frames@.drop_last(), fallback_end@) =~= Seq::<char>::empty());
            assert(frames_lines(frames@, fallback_end@) =~= self.script_lines(fallback_end@));
        }
        result
    }
}

/// The cues of some frames.
pub open spec fn frames_cues(frames: Seq<&DecodedSubtitleFrame>, fallback_end: nat) -> Seq<CueModel>
    decreases frames.len(),
{
    if frames.len() == 0 {
        Seq::empty()
    } else {
        frames_cues(frames.drop_last(), fallback_end) + frames.last().cues(fallback_end)
    }
}

/// The script lines of some frames.
pub open spec fn frames_lines(frames: Seq<&DecodedSubtitleFrame>, fallback_end: nat) -> Seq<char>
    decreases frames.len(),
{
    if frames.len() == 0 {
        Seq::empty()
    } else {
        frames_lines(frames.drop_last(), fallback_end) + frames.last().script_lines(fallback_end)
    }
}

/// The timeline of the texts of some frames.
pub fn decoded_subtitle_frames_to_timeline(
    frames: &[&DecodedSubtitleFrame],
    fallback_end: Duration,
) -> (result: SubtitleTimeline)
    ensures
        result@ == sorted_cues(frames_cues(frames@, fallback_end@)),
{
    let mut cues: Vec<SubtitleCue> = Vec::new();
    assert(cues_view(cues@) =~= Seq::<CueModel>::empty());
    let mut i: usize = 0;
    while i < frames.len()
        invariant
            i <= frames@.len(),
            cues_view(cues@) == frames_cues(frames@.take(i as int), fallback_end@),
        decreases frames@.len() - i,
    {
        let ghost before = cues@;
        assert(frames@.take(i as int + 1).drop_last() =~= frames@.take(i as int));
        let mut more = frames[i].text_cues(fallback_end);
        let ghost added = more@;
        cues.append(&mut more);
        assert(cues_view(cues@) =~= cues_view(before) + cues_view(added));
        i += 1;
    }
    assert(frames@.take(i as int) =~= frames@);
    SubtitleTimeline::new(cues)
}

/// The script that shows some frames, if they show anything.
pub fn decoded_subtitle_frames_to_ass_script(
    frames: &[&DecodedSubtitleFrame],
    fallback_end: Duration,
) -> (result: Option<String>)
    ensures
        match result {
            Some(script) => frames_lines(frames@, fallback_end@).len() > 0 && script@
                == DEFAULT_ASS_SCRIPT_HEADER@ + frames_lines(frames@, fallback_end@),
            None => frames_lines(frames@, fallback_end@).len() == 0,
        },
{
    let mut events: Vec<char> = Vec::new();
    let mut i: usize = 0;
    while i < frames.len()
        invariant
            i <= frames@.len(),
            events@ == frames_lines(frames@.take(i as int), fallback_end@),
        decreases frames@.len() - i,
    {
        assert(frames@.take(i as int + 1).drop_last() =~= frames@.take(i as int));
        frames[i].push_script_lines(&mut events, fallback_end);
        i += 1;
    }
    assert(frames@.take(i as int) =~= frames@);
    if events.len() == 0 {
        return None;
    }
    let mut script: Vec<char> = chars_of(DEFAULT_ASS_SCRIPT_HEADER);
    extend_chars(&mut script, &events);
    Some(string_of(&script))
}

/// A plain text is shown by a script for just the span of its frame: the script
/// has one dialogue line for it.
pub proof fn law_plain_segment_is_one_line(segment: SubtitleTextSegment, start: nat, end: nat)
    requires
        segment.format == SubtitleTextFormat::PlainText,
        segment.shown().len() > 0,
    ensures
        segment_lines(segment, start, end) == dialogue_line(start, end, segment.shown()),
{
}

/// The cues of a frame last from its start to its end, or to the fallback where it has
/// none, but never end before they start.
pub proof fn law_cues_last_as_their_frame(frame: DecodedSubtitleFrame, fallback_end: nat)
    ensures
        frame.start is None ==> frame.cues(fallback_end).len() == 0,
        frame.start matches Some(start) ==> {
            &&& frame.end matches Some(end) ==> end@ >= start@ ==> frame.end_time(
                start@,
                fallback_end,
            ) == end@
            &&& frame.end is None && fallback_end >= start@ ==> frame.end_time(start@, fallback_end)
                == fallback_end
            &&& frame.end_time(start@, fallback_end) >= start@
            &&& frame.cues(fallback_end) == segment_cues(
                frame.text@,
                start@,
                frame.end_time(start@, fallback_end),
            )
        },
{
}

/// Each segment that shows a text is one cue with that text, in the order of the
/// segments; the others are none.
pub proof fn law_segments_are_cues_in_order(
    before: Seq<SubtitleTextSegment>,
    segment: SubtitleTextSegment,
    start: nat,
    end: nat,
)
    ensures
        segment_cues(Seq::empty(), start, end).len() == 0,
        segment.shown().len() > 0 ==> segment_cues(before.push(segment), start, end)
            == segment_cues(before, start, end).push(
            CueModel { start, end, text: segment.shown() },
        ),
        segment.shown().len() == 0 ==> segment_cues(before.push(segment), start, end)
            == segment_cues(before, start, end),
        segments_lines(before.push(segment), start, end) == segments_lines(before, start, end)
            + segment_lines(segment, start, end),
{
    assert(before.push(segment).drop_last() =~= before);
}

/// The cues and lines of frames come in the order of the frames.
pub proof fn law_frames_follow_each_other(
    before: Seq<&DecodedSubtitleFrame>,
    frame: &DecodedSubtitleFrame,
    fallback_end: nat,
)
    ensures
        frames_cues(before.push(frame), fallback_end) == frames_cues(before, fallback_end)
            + frame.cues(fallback_end),
        frames_lines(before.push(frame), fallback_end) == frames_lines(before, fallback_end)
            + frame.script_lines(fallback_end),
{
    assert(before.push(frame).drop_last() =~= before);
}

} // verus!
