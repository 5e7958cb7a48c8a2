//! The text of subtitles, as events for a renderer that keeps what it was given.
use crate::subtitle::bitmap::SubtitleBitmapSet;
use crate::subtitle::decoded::{DecodedSubtitleFrame, SubtitleTextSegment};
use crate::subtitle::render::SubtitleRenderOutput;
use crate::text::{
    chars_of, decimal_spec, extend_chars, has_char, is_digit, is_space,
    law_parse_of_signed_decimal, law_parted_at_the_first_separator, law_trimming_takes_white_space,
    lemma_decimal_digits, parse_signed, parse_signed_spec, push_decimal, split_once,
    split_once_spec, string_of, trim, trim_end, trim_end_spec, trim_spec,
};
use crate::time::{sat_add, sat_sub, Duration};
use vstd::prelude::*;
use vstd::string::StrSliceExecFns;
use vstd::utf8::encode_utf8;

verus! {

broadcast use vstd::seq_lib::group_seq_properties;

// ---------------------------------------------------------------------------
// Fingerprints
// ---------------------------------------------------------------------------

/// The hash of no bytes.
pub const HASH_OFFSET: u64 = 0xcbf2_9ce4_8422_2325;

/// What the hash is multiplied by for each byte.
pub const HASH_PRIME: u64 = 0x100_0000_01b3;

/// The hash of some bytes: each is mixed in, then the hash is multiplied.
pub open spec fn hash_of(bytes: Seq<u8>) -> u64
    decreases bytes.len(),
{
    if bytes.len() == 0 {
        HASH_OFFSET
    } else {
        let mixed = hash_of(bytes.drop_last()) ^ bytes.last() as u64;
        ((mixed * HASH_PRIME) % 0x1_0000_0000_0000_0000) as u64
    }
}

/// The hash of a text.
pub fn simple_hash(text: &str) -> (result: u64)
    ensures
        result == hash_of(encode_utf8(text@)),
{
    let bytes = text.as_bytes_vec();
    let mut hash: u64 = HASH_OFFSET;
    let mut i: usize = 0;
    assert(bytes@.take(0) =~= Seq::<u8>::empty());
    while i < bytes.len()
        invariant
            i <= bytes@.len(),
            hash == hash_of(bytes@.take(i as int)),
        decreases bytes@.len() - i,
    {
        assert(bytes@.take(i as int + 1).drop_last() =~= bytes@.take(i as int));
        let mixed: u64 = hash ^ bytes[i] as u64;
        let product: u128 = mixed as u128 * HASH_PRIME as u128;
        hash = (product % 0x1_0000_0000_0000_0000) as u64;
        i += 1;
    }
    assert(bytes@.take(i as int) =~= bytes@);
    hash
}

/// The milliseconds of a time, as the low bits of a machine number with a sign.
pub open spec fn wrapped_millis(nanos: nat) -> i64 {
    let low = (nanos / 1_000_000) % 0x1_0000_0000_0000_0000;
    if low > i64::MAX {
        (low - 0x1_0000_0000_0000_0000) as i64
    } else {
        low as i64
    }
}

fn to_wrapped_millis(time: Duration) -> (result: i64)
    ensures
        result == wrapped_millis(time@),
{
    let low: u128 = time.as_millis() % 0x1_0000_0000_0000_0000;
    if low > 0x7fff_ffff_ffff_ffff {
        (low as i128 - 0x1_0000_0000_0000_0000) as i64
    } else {
        low as i64
    }
}

// ---------------------------------------------------------------------------
// Events
// ---------------------------------------------------------------------------

/// A piece of text with its times.
pub struct EventModel {
    pub track_id: i64,
    pub start: nat,
    pub end: Option<nat>,
    pub text: Seq<char>,
}

/// The events of a subtitle.
pub open spec fn frame_events(frame: DecodedSubtitleFrame) -> Seq<EventModel> {
    Seq::new(
        frame.text@.len(),
        |i: int|
            EventModel {
                track_id: frame.track_id,
                start: match frame.start {
                    Some(start) => start@,
                    None => 0,
                },
                end: crate::time::span_view(frame.end),
                text: frame.text@[i].text@,
            },
    )
}

/// The events of some subtitles.
pub open spec fn events_of(frames: Seq<&DecodedSubtitleFrame>) -> Seq<EventModel>
    decreases frames.len(),
{
    if frames.len() == 0 {
        Seq::empty()
    } else {
        events_of(frames.drop_last()) + frame_events(*frames.last())
    }
}

/// By which events are told apart.
pub open spec fn fingerprint_of(events: Seq<EventModel>) -> Seq<(i64, i64, u64)> {
    Seq::new(
        events.len(),
        |i: int|
            (
                events[i].track_id,
                wrapped_millis(events[i].start),
                hash_of(encode_utf8(events[i].text)),
            ),
    )
}

/// The text of an event for the renderer: its number takes the place of the
/// number that it begins with.
pub open spec fn chunk_text(text: Seq<char>, index: nat) -> Seq<char> {
    let text = trim_spec(text);
    let rest = match split_once_spec(text, seq![',']) {
        Some((number, rest)) => if parse_signed_spec(trim_spec(number)) is Some {
            rest
        } else {
            text
        },
        None => text,
    };
    decimal_spec(index) + seq![','] + rest
}

/// The text of an event for the renderer.
pub fn prepare_chunk(text: &[char], event_index: usize) -> (result: String)
    ensures
        result@ == chunk_text(text@, event_index as nat),
{
    let text = trim(text);
    let comma = [','];
    assert(comma@ =~= seq![',']);
    let mut chars: Vec<char> = Vec::new();
    push_decimal(&mut chars, event_index as u128);
    chars.push(',');
    assert(chars@ =~= decimal_spec(event_index as nat) + seq![',']);
    match split_once(text, &comma) {
        Some((number, rest)) => {
            if parse_signed(trim(number)).is_some() {
                extend_chars(&mut chars, rest);
            } else {
                extend_chars(&mut chars, text);
            }
        },
        None => {
            extend_chars(&mut chars, text);
        },
    }
    string_of(&chars)
}

/// An event for the renderer.
#[derive(Debug)]
pub struct TextChunk {
    pub text: String,
    pub timecode_ms: i64,
    pub duration_ms: i64,
}

/// An event for the renderer.
pub struct ChunkModel {
    pub text: Seq<char>,
    pub timecode_ms: i64,
    pub duration_ms: i64,
}

impl View for TextChunk {
    type V = ChunkModel;

    open spec fn view(&self) -> ChunkModel {
        ChunkModel {
            text: self.text@,
            timecode_ms: self.timecode_ms,
            duration_ms: self.duration_ms,
        }
    }
}

/// An event for the renderer. One without end lasts ten seconds.
pub open spec fn chunk_of(event: EventModel, index: nat) -> ChunkModel {
    let end = match event.end {
        Some(end) => end,
        None => sat_add(event.start, 10_000_000_000),
    };
    ChunkModel {
        text: chunk_text(trim_end_spec(event.text), index),
        timecode_ms: wrapped_millis(event.start),
        duration_ms: wrapped_millis(sat_sub(end, event.start)),
    }
}

/// The events from one on, for the renderer.
pub open spec fn chunks_from(events: Seq<EventModel>, seen: nat) -> Seq<ChunkModel> {
    if seen >= events.len() {
        Seq::empty()
    } else {
        Seq::new(
            (events.len() - seen) as nat,
            |i: int| chunk_of(events[seen + i], (seen + i) as nat),
        )
    }
}

/// Chunks as models.
pub open spec fn chunks_view(chunks: Seq<TextChunk>) -> Seq<ChunkModel> {
    Seq::new(chunks.len(), |i: int| chunks[i]@)
}

/// Events that are handed over in two goes are the same as those that are handed
/// over at once, as long as they are only appended.
pub proof fn law_events_are_handed_over_once(first: Seq<EventModel>, more: Seq<EventModel>)
    ensures
        chunks_from(first + more, 0) == chunks_from(first, 0) + chunks_from(
            first + more,
            first.len(),
        ),
{
    assert(chunks_from(first + more, 0) =~= chunks_from(first, 0) + chunks_from(
        first + more,
        first.len(),
    ));
}

struct TextEvent<'a> {
    frame: &'a DecodedSubtitleFrame,
    segment: &'a SubtitleTextSegment,
}

impl<'a> View for TextEvent<'a> {
    type V = EventModel;

    closed spec fn view(&self) -> EventModel {
        EventModel {
            track_id: self.frame.track_id,
            start: match self.frame.start {
                Some(start) => start@,
                None => 0,
            },
            end: crate::time::span_view(self.frame.end),
            text: self.segment.text@,
        }
    }
}

closed spec fn events_view(events: Seq<TextEvent>) -> Seq<EventModel> {
    Seq::new(events.len(), |i: int| events[i]@)
}

fn list_events<'a>(frames: &[&'a DecodedSubtitleFrame]) -> (result: Vec<TextEvent<'a>>)
    ensures
        events_view(result@) == events_of(frames@),
{
    let mut result: Vec<TextEvent<'a>> = Vec::new();
    let mut i: usize = 0;
    assert(events_view(result@) =~= Seq::<EventModel>::empty());
    assert(frames@.take(0) =~= Seq::<&DecodedSubtitleFrame>::empty());
    while i < frames.len()
        invariant
            i <= frames@.len(),
            events_view(result@) == events_of(frames@.take(i as int)),
        decreases frames@.len() - i,
    {
        assert(frames@.take(i as int + 1).drop_last() =~= frames@.take(i as int));
        let frame: &'a DecodedSubtitleFrame = frames[i];
        let ghost before = events_view(result@);
        let ghost added = frame_events(*frame);
        let mut j: usize = 0;
        assert(before + added.take(0) =~= before);
        while j < frame.text.len()
            invariant
                j <= frame.text@.len(),
                added == frame_events(*frame),
                events_view(result@) == before + added.take(j as int),
            decreases frame.text@.len() - j,
        {
            let ghost listed = result@;
            let event = TextEvent { frame, segment: &frame.text[j] };
            result.push(event);
            assert(events_view(result@) =~= events_view(listed).push(event@));
            j += 1;
            assert(events_view(result@) =~= before + added.take(j as int));
        }
        assert(added.take(j as int) =~= added);
        i += 1;
    }
    assert(frames@.take(i as int) =~= frames@);
    result
}

// ---------------------------------------------------------------------------
// Cache
// ---------------------------------------------------------------------------

/// What has to be done before text can be drawn.
#[derive(Debug, Clone, Copy, PartialEq, Eq, Structural)]
pub enum TextStep {
    /// There is no text.
    Nothing,
    /// No renderer can be had.
    Refused,
    /// A renderer has to be made.
    Open,
    /// The renderer is there.
    Draw,
}

/// What a renderer of text was given.
#[derive(Debug)]
pub struct CachedLibassTextRenderer {
    pub seen_count: usize,
    pub has_renderer: bool,
    pub event_fingerprint: Vec<(i64, i64, u64)>,
    pub init_failed: bool,
}

impl Default for CachedLibassTextRenderer {
    fn default() -> (result: Self)
        ensures
            result.seen_count == 0,
            !result.has_renderer,
            result.event_fingerprint@.len() == 0,
            !result.init_failed,
    {
        Self {
            seen_count: 0,
            has_renderer: false,
            event_fingerprint: Vec::new(),
            init_failed: false,
        }
    }
}

/// Whether one sequence begins with another.
pub open spec fn begins_with<T>(all: Seq<T>, first: Seq<T>) -> bool {
    first.len() <= all.len() && all.take(first.len() as int) == first
}

fn check_begins_with(all: &Vec<(i64, i64, u64)>, first: &Vec<(i64, i64, u64)>) -> (result: bool)
    ensures
        result == begins_with(all@, first@),
{
    if first.len() > all.len() {
        return false;
    }
    let mut i: usize = 0;
    while i < first.len()
        invariant
            i <= first@.len() <= all@.len(),
            forall|k: int| 0 <= k < i ==> all@[k] == first@[k],
        decreases first@.len() - i,
    {
        if all[i].0 != first[i].0 || all[i].1 != first[i].1 || all[i].2 != first[i].2 {
            assert(all@.take(first@.len() as int)[i as int] != first@[i as int]);
            return false;
        }
        i += 1;
    }
    assert(all@.take(first@.len() as int) =~= first@);
    true
}

impl CachedLibassTextRenderer {
    /// Takes a look at the text to draw. A renderer that was given other text is
    /// of no use.
    pub fn plan(&mut self, frames: &[&DecodedSubtitleFrame]) -> (result: TextStep)
        ensures
            ({
                let events = events_of(frames@);
                let prints = fingerprint_of(events);
                let is_stale = old(self).event_fingerprint@.len() > 0 && !begins_with(
                    prints,
                    old(self).event_fingerprint@,
                );
                let has_renderer = old(self).has_renderer && !is_stale;
                let init_failed = old(self).init_failed && !is_stale;
                &&& final(self).event_fingerprint@ == prints
                &&& final(self).has_renderer == has_renderer
                &&& final(self).init_failed == init_failed
                &&& final(self).seen_count == (if is_stale {
                    0
                } else {
                    old(self).seen_count
                })
                &&& result == (if has_renderer {
                    TextStep::Draw
                } else if events.len() == 0 {
                    TextStep::Nothing
                } else if init_failed {
                    TextStep::Refused
                } else {
                    TextStep::Open
                })
            }),
    {
        let events = list_events(frames);
        let ghost model = events_of(frames@);
        let ghost wanted = fingerprint_of(model);
        let mut prints: Vec<(i64, i64, u64)> = Vec::new();
        let mut i: usize = 0;
        while i < events.len()
            invariant
                i <= events@.len(),
                events_view(events@) == model,
                wanted == fingerprint_of(model),
                prints@ =~= wanted.take(i as int),
            decreases events@.len() - i,
        {
            assert(events_view(events@)[i as int] == events@[i as int]@);
            let event: &TextEvent = &events[i];
            let start = match event.frame.start {
                Some(start) => start,
                None => Duration::zero(),
            };
            prints.push(
                (
                    event.frame.track_id,
                    to_wrapped_millis(start),
                    simple_hash(event.segment.text.as_str()),
                ),
            );
            i += 1;
        }
        assert(wanted.take(i as int) =~= wanted);
        if self.event_fingerprint.len() > 0 && !check_begins_with(&prints, &self.event_fingerprint) {
            self.has_renderer = false;
            self.seen_count = 0;
            self.init_failed = false;
        }
        self.event_fingerprint = prints;
        if self.has_renderer {
            TextStep::Draw
        } else if events.len() == 0 {
            TextStep::Nothing
        } else if self.init_failed {
            TextStep::Refused
        } else {
            TextStep::Open
        }
    }

    /// Takes note whether a renderer could be made.
    pub fn opened(&mut self, is_ready: bool)
        ensures
            final(self).event_fingerprint == old(self).event_fingerprint,
            is_ready ==> final(self).has_renderer && final(self).seen_count == 0
                && final(self).init_failed == old(self).init_failed,
            !is_ready ==> final(self).init_failed && final(self).has_renderer
                == old(self).has_renderer && final(self).seen_count == old(self).seen_count,
    {
        if is_ready {
            self.has_renderer = true;
            self.seen_count = 0;
        } else {
            self.init_failed = true;
        }
    }

    /// The events that the renderer was not given yet.
    pub fn take_chunks(&mut self, frames: &[&DecodedSubtitleFrame]) -> (result: Vec<TextChunk>)
        ensures
            ({
                let events = events_of(frames@);
                &&& chunks_view(result@) == chunks_from(events, old(self).seen_count as nat)
                &&& final(self).seen_count == (if events.len() > old(self).seen_count {
                    events.len()
                } else {
                    old(self).seen_count as nat
                })
            }),
            final(self).has_renderer == old(self).has_renderer,
            final(self).event_fingerprint == old(self).event_fingerprint,
            final(self).init_failed == old(self).init_failed,
    {
        let events = list_events(frames);
        let ghost model = events_of(frames@);
        let seen: usize = self.seen_count;
        let ghost wanted = chunks_from(model, seen as nat);
        let mut result: Vec<TextChunk> = Vec::new();
        if events.len() <= seen {
            assert(chunks_view(result@) =~= wanted);
            return result;
        }
        let mut i: usize = seen;
        assert(chunks_view(result@) =~= wanted.take(0));
        while i < events.len()
            invariant
                seen <= i <= events@.len(),
                seen < events@.len(),
                events_view(events@) == model,
                wanted == chunks_from(model, seen as nat),
                chunks_view(result@) == wanted.take(i - seen),
            decreases events@.len() - i,
        {
            assert(events_view(events@)[i as int] == events@[i as int]@);
            let event: &TextEvent = &events[i];
            let start = match event.frame.start {
                Some(start) => start,
                None => Duration::zero(),
            };
            let end = match event.frame.end {
                Some(end) => end,
                None => start.saturating_add(Duration::from_secs(10)),
            };
            let chars = chars_of(event.segment.text.as_str());
            let chunk = TextChunk {
                text: prepare_chunk(trim_end(&chars), i),
                timecode_ms: to_wrapped_millis(start),
                duration_ms: to_wrapped_millis(end.saturating_sub(start)),
            };
            let ghost before = result@;
            result.push(chunk);
            assert(chunks_view(result@) =~= chunks_view(before).push(chunk@));
            assert(wanted[i - seen] == chunk_of(model[i as int], i as nat));
            i += 1;
            assert(chunks_view(result@) =~= wanted.take(i - seen));
        }
        assert(wanted.take(i - seen) =~= wanted);
        self.seen_count = events.len();
        result
    }
}

/// The masks to draw, if the renderer gave any.
pub fn drawn_masks(output: SubtitleRenderOutput) -> (result: Option<SubtitleBitmapSet>)
    ensures
        match output {
            SubtitleRenderOutput::Alpha(set) => if set.parts@.len() == 0 {
                result is None
            } else {
                result == Some(set)
            },
            SubtitleRenderOutput::Rgba(_) => result is None,
        },
{
    match output {
        SubtitleRenderOutput::Alpha(set) => if set.parts.len() == 0 {
            None
        } else {
            Some(set)
        },
        SubtitleRenderOutput::Rgba(_) => None,
    }
}

/// An event gets its own number in front, in place of the one that it had.
pub proof fn law_events_are_numbered(number: nat, rest: Seq<char>, index: nat)
    requires
        number <= i64::MAX,
        rest.len() > 0,
        !is_space(rest.last()),
    ensures
        chunk_text(decimal_spec(number) + seq![','] + rest, index) == decimal_spec(index) + seq![
            ','
        ] + rest,
{
    let digits = decimal_spec(number);
    let text = digits + seq![','] + rest;
    let none = Seq::<char>::empty();
    lemma_decimal_digits(number);
    law_parse_of_signed_decimal(number);
    assert(is_digit(digits[0]) && is_digit(digits[digits.len() - 1]));
    assert(text[0] == digits[0] && text.last() == rest.last());
    law_trimming_takes_white_space(none, text, none);
    assert(none + text + none =~= text);
    assert(!has_char(digits, ',')) by {
        if has_char(digits, ',') {
            let i = choose|i: int| 0 <= i < digits.len() && digits[i] == ',';
            assert(is_digit(digits[i]));
        }
    }
    law_parted_at_the_first_separator(digits, seq![','], rest);
    law_trimming_takes_white_space(none, digits, none);
    assert(none + digits + none =~= digits);
}

/// A chunk starts when its event does and lasts as long, to the millisecond; an event
/// without an end lasts ten seconds.
pub proof fn law_chunks_last_as_their_events(event: EventModel, index: nat)
    requires
        event.start + 10_000_000_000 <= 1_000_000_000_000_000_000,
        event.end matches Some(end) ==> event.start <= end <= 1_000_000_000_000_000_000,
    ensures
        chunk_of(event, index).timecode_ms == event.start / 1_000_000,
        event.end matches Some(end) ==> chunk_of(event, index).duration_ms == (end - event.start)
            / 1_000_000,
        event.end is None ==> chunk_of(event, index).duration_ms == 10_000,
        chunk_of(event, index).text == chunk_text(trim_end_spec(event.text), index),
{
}

/// The events of frames come in the order of the frames, each with the times of its
/// frame and the text of its segment.
pub proof fn law_events_follow_their_frames(
    before: Seq<&DecodedSubtitleFrame>,
    frame: &DecodedSubtitleFrame,
    i: int,
)
    requires
        0 <= i < frame.text@.len(),
    ensures
        events_of(before.push(frame)) == events_of(before) + frame_events(*frame),
        frame_events(*frame).len() == frame.text@.len(),
        frame_events(*frame)[i].text == frame.text@[i].text@,
        frame_events(*frame)[i].track_id == frame.track_id,
        frame.start matches Some(start) ==> frame_events(*frame)[i].start == start@,
        frame.end matches Some(end) ==> frame_events(*frame)[i].end == Some(end@),
        frame.end is None ==> frame_events(*frame)[i].end is None,
{
    assert(before.push(frame).drop_last() =~= before);
}

/// A fingerprint tells the events one by one: each by its track, its start and its text.
pub proof fn law_fingerprints_tell_each_event(
    before: Seq<EventModel>,
    event: EventModel,
    other: EventModel,
)
    ensures
        fingerprint_of(before.push(event)).len() == before.len() + 1,
        fingerprint_of(before.push(event)).drop_last() == fingerprint_of(before),
        fingerprint_of(before.push(event)).last().0 == event.track_id,
        event.start <= 1_000_000_000_000_000_000 ==> fingerprint_of(before.push(event)).last().1
            == event.start / 1_000_000,
        event.text == other.text ==> fingerprint_of(before.push(event)).last().2 == fingerprint_of(
            before.push(other),
        ).last().2,
{
    assert(fingerprint_of(before.push(event)).drop_last() =~= fingerprint_of(before));
}

} // verus!
