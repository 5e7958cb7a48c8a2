//! Subtitle text files: SubRip, WebVTT and the events of ASS scripts.
//!
//! A timestamp may name a time that no span can hold. The functions that read
//! whole files are stated for texts without such timestamps;
//! [`try_parse_subtitle_text_file`] looks for them first and gives nothing
//! where it finds one.
use crate::float_bits::{double_of_text, parse_double_bits, Double};
use crate::subtitle::ass::{clean_ass_spec, clean_ass_text};
use crate::subtitle::error::{Result, SubtitleError, SubtitleErrorModel};
use crate::subtitle::timeline::{cues_view, sorted_cues, CueModel, SubtitleCue, SubtitleTimeline};
use crate::text::{
    after_last, chars_eq_str, chars_of, contains, contains_spec, eq_ignore_case, find_after_last,
    first_word, first_word_spec, has_char, is_space, join, join_spec, law_behind_the_last,
    law_counted_pieces_are_told_apart, law_first_word, law_lines_follow_each_other,
    law_parted_at_the_first_separator, law_prefix_and_rest, law_trimming_takes_white_space,
    lemma_first_is_found, lemma_join_first, lemma_no_char_is_found, lemma_occurs_between, lines,
    lines_spec, lower_spec, occurs_at, parse_unsigned, parse_unsigned_spec, parts_view, replace,
    replace_spec, split, split_once, split_once_spec, split_spec, splitn, splitn_spec, string_of,
    strip_prefix, strip_prefix_spec, to_lower, trim, trim_spec,
};
use crate::time::{Duration, MAX_NANOS};
use vstd::prelude::*;
use vstd::slice::slice_subrange;

verus! {

broadcast use vstd::seq_lib::group_seq_properties;

// ---------------------------------------------------------------------------
// Outcomes
// ---------------------------------------------------------------------------

/// What comes of reading a text: a value, a refusal, or a time that no span can
/// hold.
pub enum Outcome<T> {
    Value(T),
    Refused(SubtitleErrorModel),
    OutOfRange,
}

/// What was read.
enum Reading<T> {
    Value(T),
    Refused(SubtitleError),
    OutOfRange,
}

spec fn number_read(reading: Reading<u64>) -> Outcome<nat> {
    match reading {
        Reading::Value(value) => Outcome::Value(value as nat),
        Reading::Refused(error) => Outcome::Refused(error@),
        Reading::OutOfRange => Outcome::OutOfRange,
    }
}

spec fn time_read(reading: Reading<Duration>) -> Outcome<nat> {
    match reading {
        Reading::Value(value) => Outcome::Value(value@),
        Reading::Refused(error) => Outcome::Refused(error@),
        Reading::OutOfRange => Outcome::OutOfRange,
    }
}

spec fn cue_read(reading: Reading<SubtitleCue>) -> Outcome<CueModel> {
    match reading {
        Reading::Value(value) => Outcome::Value(value@),
        Reading::Refused(error) => Outcome::Refused(error@),
        Reading::OutOfRange => Outcome::OutOfRange,
    }
}

spec fn cues_read(reading: Reading<Vec<SubtitleCue>>) -> Outcome<Seq<CueModel>> {
    match reading {
        Reading::Value(value) => Outcome::Value(cues_view(value@)),
        Reading::Refused(error) => Outcome::Refused(error@),
        Reading::OutOfRange => Outcome::OutOfRange,
    }
}

/// Whether a result is the timeline or the refusal of an outcome.
pub open spec fn settles(result: Result<SubtitleTimeline>, outcome: Outcome<Seq<CueModel>>) -> bool {
    match outcome {
        Outcome::Value(cues) => result is Ok && result->Ok_0@ == sorted_cues(cues),
        Outcome::Refused(error) => result is Err && result->Err_0@ == error,
        Outcome::OutOfRange => false,
    }
}

// ---------------------------------------------------------------------------
// Timestamps
// ---------------------------------------------------------------------------

/// A whole number of hours or minutes.
pub open spec fn int_outcome(s: Seq<char>) -> Outcome<nat> {
    match parse_unsigned_spec(s, u64::MAX as nat) {
        Some(value) => Outcome::Value(value),
        None => Outcome::Refused(SubtitleErrorModel::InvalidTimestamp(s)),
    }
}

/// A number of seconds, to the nearest nanosecond.
pub open spec fn seconds_outcome(s: Seq<char>) -> Outcome<nat> {
    match double_of_text(s) {
        Some(bits) => match (Double { bits }).nanos() {
            Some(nanos) => Outcome::Value(nanos),
            None => Outcome::OutOfRange,
        },
        None => Outcome::Refused(SubtitleErrorModel::InvalidTimestamp(s)),
    }
}

/// The time of day that hours, minutes and seconds make, or the first of them
/// that is none.
pub open spec fn clock_outcome(
    hours: Outcome<nat>,
    minutes: Outcome<nat>,
    seconds: Outcome<nat>,
) -> Outcome<nat> {
    match hours {
        Outcome::Value(h) => match minutes {
            Outcome::Value(m) => match seconds {
                Outcome::Value(nanos) => if h * 3600 + m * 60 > u64::MAX || (h * 3600 + m * 60)
                    * 1_000_000_000 + nanos > MAX_NANOS {
                    Outcome::OutOfRange
                } else {
                    Outcome::Value((h * 3600 + m * 60) * 1_000_000_000 + nanos)
                },
                other => other,
            },
            other => other,
        },
        other => other,
    }
}

/// A timestamp with a decimal point for its comma.
pub open spec fn with_point(s: Seq<char>) -> Seq<char> {
    replace_spec(trim_spec(s), seq![','], seq!['.'])
}

/// A timestamp `mm:ss` or `hh:mm:ss`, whose seconds may have a fraction.
pub open spec fn timestamp_outcome(s: Seq<char>) -> Outcome<nat> {
    let value = with_point(s);
    let parts = split_spec(value, seq![':']);
    if parts.len() == 2 {
        clock_outcome(Outcome::Value(0), int_outcome(parts[0]), seconds_outcome(parts[1]))
    } else if parts.len() == 3 {
        clock_outcome(int_outcome(parts[0]), int_outcome(parts[1]), seconds_outcome(parts[2]))
    } else {
        Outcome::Refused(SubtitleErrorModel::InvalidTimestamp(value))
    }
}

fn parse_int(value: &[char]) -> (result: Reading<u64>)
    ensures
        number_read(result) == int_outcome(value@),
{
    match parse_unsigned(value, u64::MAX) {
        Some(number) => Reading::Value(number),
        None => Reading::Refused(SubtitleError::InvalidTimestamp(string_of(value))),
    }
}

fn parse_seconds(value: &[char]) -> (result: Reading<Duration>)
    ensures
        time_read(result) == seconds_outcome(value@),
{
    let text = string_of(value);
    match parse_double_bits(&text) {
        Some(bits) => match (Double { bits }).to_span() {
            Some(span) => Reading::Value(span),
            None => Reading::OutOfRange,
        },
        None => Reading::Refused(SubtitleError::InvalidTimestamp(text)),
    }
}

fn parse_clock(
    hours: Reading<u64>,
    minutes: Reading<u64>,
    seconds: Reading<Duration>,
) -> (result: Reading<Duration>)
    ensures
        time_read(result) == clock_outcome(
            number_read(hours),
            number_read(minutes),
            time_read(seconds),
        ),
{
    let h: u64 = match hours {
        Reading::Value(h) => h,
        Reading::Refused(error) => {
            return Reading::Refused(error);
        },
        Reading::OutOfRange => {
            return Reading::OutOfRange;
        },
    };
    let m: u64 = match minutes {
        Reading::Value(m) => m,
        Reading::Refused(error) => {
            return Reading::Refused(error);
        },
        Reading::OutOfRange => {
            return Reading::OutOfRange;
        },
    };
    let span = match seconds {
        Reading::Value(span) => span,
        Reading::Refused(error) => {
            return Reading::Refused(error);
        },
        Reading::OutOfRange => {
            return Reading::OutOfRange;
        },
    };
    let whole: u128 = h as u128 * 3600 + m as u128 * 60;
    if whole > u64::MAX as u128 {
        return Reading::OutOfRange;
    }
    match Duration::from_secs(whole as u64).checked_add(span) {
        Some(total) => Reading::Value(total),
        None => Reading::OutOfRange,
    }
}

fn parse_timestamp(value: &[char]) -> (result: Reading<Duration>)
    ensures
        time_read(result) == timestamp_outcome(value@),
{
    let comma: Vec<char> = vec![','];
    let point: Vec<char> = vec!['.'];
    let colon: Vec<char> = vec![':'];
    assert(comma@ =~= seq![',']);
    assert(point@ =~= seq!['.']);
    assert(colon@ =~= seq![':']);
    let text = replace(trim(value), &comma, &point);
    let parts = split(&text, &colon);
    let ghost views = parts_view(parts@);
    assert(views.len() == parts@.len());
    assert(forall|i: int| 0 <= i < views.len() ==> views[i] == parts@[i]@);
    if parts.len() == 2 {
        parse_clock(Reading::Value(0), parse_int(parts[0]), parse_seconds(parts[1]))
    } else if parts.len() == 3 {
        parse_clock(parse_int(parts[0]), parse_int(parts[1]), parse_seconds(parts[2]))
    } else {
        Reading::Refused(SubtitleError::InvalidTimestamp(string_of(&text)))
    }
}

// ---------------------------------------------------------------------------
// SubRip and WebVTT
// ---------------------------------------------------------------------------

/// The cue of a line of times and a text. Only the first word behind the arrow
/// is the end time.
pub open spec fn cue_outcome(time_line: Seq<char>, text: Seq<char>) -> Outcome<CueModel> {
    match split_once_spec(time_line, "-->"@) {
        None => Outcome::Refused(SubtitleErrorModel::InvalidCue),
        Some((before, behind)) => match timestamp_outcome(trim_spec(before)) {
            Outcome::Value(start) => {
                let word = match first_word_spec(behind) {
                    Some(word) => word,
                    None => behind,
                };
                match timestamp_outcome(trim_spec(word)) {
                    Outcome::Value(end) => Outcome::Value(
                        CueModel { start, end, text: trim_spec(text) },
                    ),
                    Outcome::Refused(error) => Outcome::Refused(error),
                    Outcome::OutOfRange => Outcome::OutOfRange,
                }
            },
            Outcome::Refused(error) => Outcome::Refused(error),
            Outcome::OutOfRange => Outcome::OutOfRange,
        },
    }
}

fn parse_timed_text_cue(time_line: &[char], text: &[char]) -> (result: Reading<SubtitleCue>)
    ensures
        cue_read(result) == cue_outcome(time_line@, text@),
{
    let arrow = chars_of("-->");
    match split_once(time_line, &arrow) {
        None => Reading::Refused(SubtitleError::InvalidCue),
        Some((before, behind)) => {
            let start = match parse_timestamp(trim(before)) {
                Reading::Value(start) => start,
                Reading::Refused(error) => {
                    return Reading::Refused(error);
                },
                Reading::OutOfRange => {
                    return Reading::OutOfRange;
                },
            };
            let word = match first_word(behind) {
                Some(word) => word,
                None => behind,
            };
            match parse_timestamp(trim(word)) {
                Reading::Value(end) => Reading::Value(
                    SubtitleCue { start, end, text: string_of(trim(text)) },
                ),
                Reading::Refused(error) => Reading::Refused(error),
                Reading::OutOfRange => Reading::OutOfRange,
            }
        },
    }
}

/// The lines that are not blank.
pub open spec fn filled_lines(lines: Seq<Seq<char>>) -> Seq<Seq<char>>
    decreases lines.len(),
{
    if lines.len() == 0 {
        Seq::empty()
    } else if trim_spec(lines.last()).len() > 0 {
        filled_lines(lines.drop_last()).push(lines.last())
    } else {
        filled_lines(lines.drop_last())
    }
}

/// The cue of a block of lines, if it has a line of times as its first or
/// second one.
pub open spec fn block_outcome(block: Seq<char>) -> Option<Outcome<CueModel>> {
    let filled = filled_lines(lines_spec(block));
    let at: int = if filled.len() > 0 && contains_spec(filled[0], "-->"@) {
        0
    } else {
        1
    };
    if filled.len() <= at || !contains_spec(filled[at], "-->"@) {
        None
    } else {
        Some(cue_outcome(filled[at], join_spec(filled.skip(at + 1), seq!['\n'])))
    }
}

/// The cues of blocks, in their order.
pub open spec fn blocks_outcome(blocks: Seq<Seq<char>>) -> Outcome<Seq<CueModel>>
    decreases blocks.len(),
{
    if blocks.len() == 0 {
        Outcome::Value(Seq::empty())
    } else {
        match blocks_outcome(blocks.drop_last()) {
            Outcome::Value(cues) => match block_outcome(blocks.last()) {
                None => Outcome::Value(cues),
                Some(Outcome::Value(cue)) => Outcome::Value(cues.push(cue)),
                Some(Outcome::Refused(error)) => Outcome::Refused(error),
                Some(Outcome::OutOfRange) => Outcome::OutOfRange,
            },
            other => other,
        }
    }
}

/// The text with line feeds for its line ends.
pub open spec fn with_line_feeds(input: Seq<char>) -> Seq<char> {
    replace_spec(input, seq!['\r', '\n'], seq!['\n'])
}

/// The cues of a SubRip text, in the order of the text.
pub open spec fn srt_outcome(input: Seq<char>) -> Outcome<Seq<CueModel>> {
    blocks_outcome(split_spec(with_line_feeds(input), seq!['\n', '\n']))
}

/// The cues of a WebVTT text, in the order of the text.
pub open spec fn webvtt_outcome(input: Seq<char>) -> Outcome<Seq<CueModel>> {
    let text = with_line_feeds(input);
    match strip_prefix_spec(text, "WEBVTT"@) {
        Some(rest) => srt_outcome(rest),
        None => srt_outcome(text),
    }
}

/// Once reading has stopped, what follows does not matter.
proof fn lemma_blocks_stop(blocks: Seq<Seq<char>>, n: int)
    requires
        0 <= n <= blocks.len(),
        !(blocks_outcome(blocks.take(n)) is Value),
    ensures
        blocks_outcome(blocks) == blocks_outcome(blocks.take(n)),
    decreases blocks.len(),
{
    if n < blocks.len() {
        assert(blocks.drop_last().take(n) =~= blocks.take(n));
        lemma_blocks_stop(blocks.drop_last(), n);
    } else {
        assert(blocks.take(n) =~= blocks);
    }
}

fn keep_filled<'a>(lines: &Vec<&'a [char]>) -> (result: Vec<&'a [char]>)
    ensures
        parts_view(result@) == filled_lines(parts_view(lines@)),
{
    let mut result: Vec<&'a [char]> = Vec::new();
    let mut i: usize = 0;
    let ghost views = parts_view(lines@);
    assert(parts_view(result@) =~= Seq::<Seq<char>>::empty());
    while i < lines.len()
        invariant
            i <= lines@.len(),
            views == parts_view(lines@),
            parts_view(result@) == filled_lines(views.take(i as int)),
        decreases lines@.len() - i,
    {
        let line: &'a [char] = lines[i];
        let ghost before = parts_view(result@);
        assert(views.take(i as int + 1).drop_last() =~= views.take(i as int));
        assert(views.take(i as int + 1).last() == line@);
        if trim(line).len() > 0 {
            result.push(line);
            assert(parts_view(result@) =~= before.push(line@));
        }
        i += 1;
    }
    assert(views.take(i as int) =~= views);
    result
}

fn parse_block(block: &[char]) -> (result: Option<Reading<SubtitleCue>>)
    ensures
        result is Some <==> block_outcome(block@) is Some,
        result matches Some(reading) ==> Some(cue_read(reading)) == block_outcome(block@),
{
    let arrow = chars_of("-->");
    let feed: Vec<char> = vec!['\n'];
    assert(feed@ =~= seq!['\n']);
    let all = lines(block);
    let filled = keep_filled(&all);
    let ghost views = parts_view(filled@);
    assert(views.len() == filled@.len());
    assert(forall|i: int| 0 <= i < views.len() ==> views[i] == filled@[i]@);
    if filled.len() == 0 {
        return None;
    }
    let at: usize = if contains(filled[0], &arrow) {
        0
    } else {
        1
    };
    if filled.len() <= at {
        return None;
    }
    if !contains(filled[at], &arrow) {
        return None;
    }
    let rest = slice_subrange(filled.as_slice(), at + 1, filled.len());
    assert(parts_view(rest@) =~= views.skip(at as int + 1));
    let text = join(rest, &feed);
    Some(parse_timed_text_cue(filled[at], &text))
}

fn read_srt(input: &[char]) -> (result: Reading<Vec<SubtitleCue>>)
    ensures
        cues_read(result) == srt_outcome(input@),
{
    let line_end: Vec<char> = vec!['\r', '\n'];
    let feed: Vec<char> = vec!['\n'];
    let gap: Vec<char> = vec!['\n', '\n'];
    assert(line_end@ =~= seq!['\r', '\n']);
    assert(feed@ =~= seq!['\n']);
    assert(gap@ =~= seq!['\n', '\n']);
    let text = replace(input, &line_end, &feed);
    let blocks = split(&text, &gap);
    let ghost views = parts_view(blocks@);
    let mut cues: Vec<SubtitleCue> = Vec::new();
    assert(cues_view(cues@) =~= Seq::<CueModel>::empty());
    let mut i: usize = 0;
    while i < blocks.len()
        invariant
            i <= blocks@.len(),
            views == parts_view(blocks@),
            srt_outcome(input@) == blocks_outcome(views),
            blocks_outcome(views.take(i as int)) == Outcome::Value(cues_view(cues@)),
        decreases blocks@.len() - i,
    {
        let ghost longer = views.take(i as int + 1);
        assert(longer.drop_last() =~= views.take(i as int));
        assert(longer.last() == blocks@[i as int]@);
        match parse_block(blocks[i]) {
            None => {},
            Some(Reading::Value(cue)) => {
                let ghost before = cues_view(cues@);
                cues.push(cue);
                assert(cues_view(cues@) =~= before.push(cue@));
            },
            Some(Reading::Refused(error)) => {
                proof {
                    lemma_blocks_stop(views, i as int + 1);
                }
                return Reading::Refused(error);
            },
            Some(Reading::OutOfRange) => {
                proof {
                    lemma_blocks_stop(views, i as int + 1);
                }
                return Reading::OutOfRange;
            },
        }
        i += 1;
    }
    assert(views.take(i as int) =~= views);
    Reading::Value(cues)
}

fn read_webvtt(input: &[char]) -> (result: Reading<Vec<SubtitleCue>>)
    ensures
        cues_read(result) == webvtt_outcome(input@),
{
    let line_end: Vec<char> = vec!['\r', '\n'];
    let feed: Vec<char> = vec!['\n'];
    assert(line_end@ =~= seq!['\r', '\n']);
    assert(feed@ =~= seq!['\n']);
    let text = replace(input, &line_end, &feed);
    let header = chars_of("WEBVTT");
    match strip_prefix(&text, &header) {
        Some(rest) => read_srt(rest),
        None => read_srt(&text),
    }
}

// ---------------------------------------------------------------------------
// ASS events
// ---------------------------------------------------------------------------

/// Where a reader of ASS events stands: whether it has seen the head of the
/// events, the names of their fields, and the cues so far.
pub struct AssState {
    pub in_events: bool,
    pub fields: Seq<Seq<char>>,
    pub cues: Seq<CueModel>,
}

/// The texts without white space around them.
pub open spec fn trim_all(parts: Seq<Seq<char>>) -> Seq<Seq<char>> {
    Seq::new(parts.len(), |i: int| trim_spec(parts[i]))
}

/// The texts without white space around them, in small letters.
pub open spec fn trim_lower_all(parts: Seq<Seq<char>>) -> Seq<Seq<char>> {
    Seq::new(parts.len(), |i: int| lower_spec(trim_spec(parts[i])))
}

/// The first index from `from` on at which a name stands, or the default.
pub open spec fn field_index(
    fields: Seq<Seq<char>>,
    name: Seq<char>,
    from: nat,
    default: nat,
) -> nat
    decreases fields.len() - from,
{
    if from >= fields.len() {
        default
    } else if fields[from as int] == name {
        from
    } else {
        field_index(fields, name, from + 1, default)
    }
}

/// The time in a field of an event.
pub open spec fn field_time(values: Seq<Seq<char>>, index: nat) -> Outcome<nat> {
    if index < values.len() {
        timestamp_outcome(values[index as int])
    } else {
        Outcome::Refused(SubtitleErrorModel::InvalidCue)
    }
}

/// The cue of the fields behind `Dialogue:`.
pub open spec fn dialogue_outcome(fields: Seq<Seq<char>>, dialogue: Seq<char>) -> Outcome<CueModel> {
    let count: nat = if fields.len() < 10 {
        10
    } else {
        fields.len()
    };
    let values = trim_all(splitn_spec(dialogue, count, ','));
    let text_index = field_index(fields, "text"@, 0, 9);
    match field_time(values, field_index(fields, "start"@, 0, 1)) {
        Outcome::Value(start) => match field_time(values, field_index(fields, "end"@, 0, 2)) {
            Outcome::Value(end) => Outcome::Value(
                CueModel {
                    start,
                    end,
                    text: if text_index < values.len() {
                        clean_ass_spec(values[text_index as int])
                    } else {
                        Seq::empty()
                    },
                },
            ),
            Outcome::Refused(error) => Outcome::Refused(error),
            Outcome::OutOfRange => Outcome::OutOfRange,
        },
        Outcome::Refused(error) => Outcome::Refused(error),
        Outcome::OutOfRange => Outcome::OutOfRange,
    }
}

/// The reader after one more line.
pub open spec fn ass_line_outcome(state: AssState, raw: Seq<char>) -> Outcome<AssState> {
    let line = trim_spec(raw);
    if lower_spec(line) == lower_spec("[events]"@) {
        Outcome::Value(AssState { in_events: true, ..state })
    } else if !state.in_events {
        Outcome::Value(state)
    } else {
        match strip_prefix_spec(line, "Format:"@) {
            Some(format) => Outcome::Value(
                AssState { fields: trim_lower_all(split_spec(format, seq![','])), ..state },
            ),
            None => match strip_prefix_spec(line, "Dialogue:"@) {
                Some(dialogue) => match dialogue_outcome(state.fields, dialogue) {
                    Outcome::Value(cue) => Outcome::Value(
                        AssState { cues: state.cues.push(cue), ..state },
                    ),
                    Outcome::Refused(error) => Outcome::Refused(error),
                    Outcome::OutOfRange => Outcome::OutOfRange,
                },
                None => Outcome::Value(state),
            },
        }
    }
}

/// The reader after some lines.
pub open spec fn ass_lines_outcome(lines: Seq<Seq<char>>) -> Outcome<AssState>
    decreases lines.len(),
{
    if lines.len() == 0 {
        Outcome::Value(
            AssState { in_events: false, fields: Seq::empty(), cues: Seq::empty() },
        )
    } else {
        match ass_lines_outcome(lines.drop_last()) {
            Outcome::Value(state) => ass_line_outcome(state, lines.last()),
            other => other,
        }
    }
}

/// The cues of the events of an ASS script, in the order of the script.
pub open spec fn ass_outcome(input: Seq<char>) -> Outcome<Seq<CueModel>> {
    match ass_lines_outcome(lines_spec(input)) {
        Outcome::Value(state) => Outcome::Value(state.cues),
        Outcome::Refused(error) => Outcome::Refused(error),
        Outcome::OutOfRange => Outcome::OutOfRange,
    }
}

proof fn lemma_ass_lines_stop(lines: Seq<Seq<char>>, n: int)
    requires
        0 <= n <= lines.len(),
        !(ass_lines_outcome(lines.take(n)) is Value),
    ensures
        ass_lines_outcome(lines) == ass_lines_outcome(lines.take(n)),
    decreases lines.len(),
{
    if n < lines.len() {
        assert(lines.drop_last().take(n) =~= lines.take(n));
        lemma_ass_lines_stop(lines.drop_last(), n);
    } else {
        assert(lines.take(n) =~= lines);
    }
}

spec fn names_view(names: Seq<Vec<char>>) -> Seq<Seq<char>> {
    Seq::new(names.len(), |i: int| names[i]@)
}

fn read_format(format: &[char]) -> (result: Vec<Vec<char>>)
    ensures
        names_view(result@) == trim_lower_all(split_spec(format@, seq![','])),
{
    let comma: Vec<char> = vec![','];
    assert(comma@ =~= seq![',']);
    let parts = split(format, &comma);
    let ghost views = parts_view(parts@);
    let mut result: Vec<Vec<char>> = Vec::new();
    let mut i: usize = 0;
    assert(names_view(result@) =~= trim_lower_all(views).take(0));
    while i < parts.len()
        invariant
            i <= parts@.len(),
            views == parts_view(parts@),
            names_view(result@) == trim_lower_all(views).take(i as int),
        decreases parts@.len() - i,
    {
        let ghost before = names_view(result@);
        let name = to_lower(trim(parts[i]));
        result.push(name);
        assert(names_view(result@) =~= before.push(name@));
        assert(name@ == trim_lower_all(views)[i as int]);
        i += 1;
        assert(names_view(result@) =~= trim_lower_all(views).take(i as int));
    }
    assert(trim_lower_all(views).take(i as int) =~= trim_lower_all(views));
    result
}

fn find_field(fields: &Vec<Vec<char>>, name: &str, default: usize) -> (result: usize)
    ensures
        result == field_index(names_view(fields@), name@, 0, default as nat),
{
    let mut i: usize = 0;
    let ghost views = names_view(fields@);
    while i < fields.len()
        invariant
            i <= fields@.len(),
            views == names_view(fields@),
            field_index(views, name@, i as nat, default as nat) == field_index(
                views,
                name@,
                0,
                default as nat,
            ),
        decreases fields@.len() - i,
    {
        assert(views[i as int] == fields@[i as int]@);
        if chars_eq_str(&fields[i], name) {
            return i;
        }
        i += 1;
    }
    default
}

fn trim_parts<'a>(parts: &Vec<&'a [char]>) -> (result: Vec<&'a [char]>)
    ensures
        parts_view(result@) == trim_all(parts_view(parts@)),
{
    let mut result: Vec<&'a [char]> = Vec::new();
    let ghost views = parts_view(parts@);
    let mut i: usize = 0;
    assert(parts_view(result@) =~= trim_all(views).take(0));
    while i < parts.len()
        invariant
            i <= parts@.len(),
            views == parts_view(parts@),
            parts_view(result@) == trim_all(views).take(i as int),
        decreases parts@.len() - i,
    {
        let ghost before = parts_view(result@);
        let part: &'a [char] = trim(parts[i]);
        result.push(part);
        assert(parts_view(result@) =~= before.push(part@));
        assert(part@ == trim_all(views)[i as int]);
        i += 1;
        assert(parts_view(result@) =~= trim_all(views).take(i as int));
    }
    assert(trim_all(views).take(i as int) =~= trim_all(views));
    result
}

fn parse_field_time(values: &Vec<&[char]>, index: usize) -> (result: Reading<Duration>)
    ensures
        time_read(result) == field_time(parts_view(values@), index as nat),
{
    if index < values.len() {
        assert(parts_view(values@)[index as int] == values@[index as int]@);
        parse_timestamp(values[index])
    } else {
        Reading::Refused(SubtitleError::InvalidCue)
    }
}

fn parse_dialogue(fields: &Vec<Vec<char>>, dialogue: &[char]) -> (result: Reading<SubtitleCue>)
    ensures
        cue_read(result) == dialogue_outcome(names_view(fields@), dialogue@),
{
    let count: usize = if fields.len() < 10 {
        10
    } else {
        fields.len()
    };
    let parts = splitn(dialogue, count, ',');
    let values = trim_parts(&parts);
    let start = match parse_field_time(&values, find_field(fields, "start", 1)) {
        Reading::Value(start) => start,
        Reading::Refused(error) => {
            return Reading::Refused(error);
        },
        Reading::OutOfRange => {
            return Reading::OutOfRange;
        },
    };
    let end = match parse_field_time(&values, find_field(fields, "end", 2)) {
        Reading::Value(end) => end,
        Reading::Refused(error) => {
            return Reading::Refused(error);
        },
        Reading::OutOfRange => {
            return Reading::OutOfRange;
        },
    };
    let text_index: usize = find_field(fields, "text", 9);
    let text = if text_index < values.len() {
        assert(parts_view(values@)[text_index as int] == values@[text_index as int]@);
        string_of(&clean_ass_text(values[text_index]))
    } else {
        String::new()
    };
    Reading::Value(SubtitleCue { start, end, text })
}

fn read_ass_events(input: &[char]) -> (result: Reading<Vec<SubtitleCue>>)
    ensures
        cues_read(result) == ass_outcome(input@),
{
    let mut in_events = false;
    let mut fields: Vec<Vec<char>> = Vec::new();
    let mut cues: Vec<SubtitleCue> = Vec::new();
    let head = chars_of("[events]");
    let format_word = chars_of("Format:");
    let dialogue_word = chars_of("Dialogue:");
    let all = lines(input);
    let ghost views = parts_view(all@);
    assert(names_view(fields@) =~= Seq::<Seq<char>>::empty());
    assert(cues_view(cues@) =~= Seq::<CueModel>::empty());
    let mut i: usize = 0;
    while i < all.len()
        invariant
            i <= all@.len(),
            views == parts_view(all@),
            views == lines_spec(input@),
            head@ == "[events]"@,
            format_word@ == "Format:"@,
            dialogue_word@ == "Dialogue:"@,
            ass_lines_outcome(views.take(i as int)) == Outcome::Value(
                AssState { in_events, fields: names_view(fields@), cues: cues_view(cues@) },
            ),
        decreases all@.len() - i,
    {
        let ghost longer = views.take(i as int + 1);
        assert(longer.drop_last() =~= views.take(i as int));
        assert(longer.last() == all@[i as int]@);
        let line = trim(all[i]);
        if eq_ignore_case(line, &head) {
            in_events = true;
        } else if in_events {
            match strip_prefix(line, &format_word) {
                Some(format) => {
                    fields = read_format(format);
                },
                None => match strip_prefix(line, &dialogue_word) {
                    Some(dialogue) => match parse_dialogue(&fields, dialogue) {
                        Reading::Value(cue) => {
                            let ghost before = cues_view(cues@);
                            cues.push(cue);
                            assert(cues_view(cues@) =~= before.push(cue@));
                        },
                        Reading::Refused(error) => {
                            proof {
                                lemma_ass_lines_stop(views, i as int + 1);
                            }
                            return Reading::Refused(error);
                        },
                        Reading::OutOfRange => {
                            proof {
                                lemma_ass_lines_stop(views, i as int + 1);
                            }
                            return Reading::OutOfRange;
                        },
                    },
                    None => {},
                },
            }
        }
        i += 1;
    }
    assert(views.take(i as int) =~= views);
    Reading::Value(cues)
}

// ---------------------------------------------------------------------------
// Files
// ---------------------------------------------------------------------------

/// The formats of subtitle text files.
#[derive(Debug, Clone, Copy, PartialEq, Eq, Structural)]
pub enum SubtitleFileFormat {
    Srt,
    WebVtt,
    Ass,
}

/// The format that the end of a path names.
pub open spec fn format_of_path(path: Seq<char>) -> Option<SubtitleFileFormat> {
    let at = after_last(path, '.');
    let extension = lower_spec(path.skip(at as int));
    if at == 0 {
        None
    } else if extension == "srt"@ {
        Some(SubtitleFileFormat::Srt)
    } else if extension == "vtt"@ || extension == "webvtt"@ {
        Some(SubtitleFileFormat::WebVtt)
    } else if extension == "ass"@ || extension == "ssa"@ {
        Some(SubtitleFileFormat::Ass)
    } else {
        None
    }
}

impl SubtitleFileFormat {
    /// Tells the format from the extension of a path.
    pub fn from_path(path: &str) -> (result: Option<Self>)
        ensures
            result == format_of_path(path@),
    {
        let chars = chars_of(path);
        let at: usize = find_after_last(&chars, '.');
        if at == 0 {
            return None;
        }
        let rest = slice_subrange(chars.as_slice(), at, chars.len());
        assert(rest@ =~= path@.skip(at as int));
        let extension = to_lower(rest);
        if chars_eq_str(&extension, "srt") {
            Some(SubtitleFileFormat::Srt)
        } else if chars_eq_str(&extension, "vtt") || chars_eq_str(&extension, "webvtt") {
            Some(SubtitleFileFormat::WebVtt)
        } else if chars_eq_str(&extension, "ass") || chars_eq_str(&extension, "ssa") {
            Some(SubtitleFileFormat::Ass)
        } else {
            None
        }
    }
}

/// The cues of a text in a format, in the order of the text.
pub open spec fn file_outcome(format: SubtitleFileFormat, input: Seq<char>) -> Outcome<Seq<CueModel>> {
    match format {
        SubtitleFileFormat::Srt => srt_outcome(input),
        SubtitleFileFormat::WebVtt => webvtt_outcome(input),
        SubtitleFileFormat::Ass => ass_outcome(input),
    }
}

fn finish(reading: Reading<Vec<SubtitleCue>>) -> (result: Result<SubtitleTimeline>)
    requires
        !(reading is OutOfRange),
    ensures
        settles(result, cues_read(reading)),
{
    match reading {
        Reading::Value(cues) => Ok(SubtitleTimeline::new(cues)),
        Reading::Refused(error) => Err(error),
        Reading::OutOfRange => Err(SubtitleError::InvalidCue),
    }
}

fn read_file(format: SubtitleFileFormat, input: &[char]) -> (result: Reading<Vec<SubtitleCue>>)
    ensures
        cues_read(result) == file_outcome(format, input@),
{
    match format {
        SubtitleFileFormat::Srt => read_srt(input),
        SubtitleFileFormat::WebVtt => read_webvtt(input),
        SubtitleFileFormat::Ass => read_ass_events(input),
    }
}

/// Reads a SubRip text.
pub fn parse_srt(input: &str) -> (result: Result<SubtitleTimeline>)
    requires
        !(srt_outcome(input@) is OutOfRange),
    ensures
        settles(result, srt_outcome(input@)),
{
    finish(read_srt(&chars_of(input)))
}

/// Reads a WebVTT text.
pub fn parse_webvtt(input: &str) -> (result: Result<SubtitleTimeline>)
    requires
        !(webvtt_outcome(input@) is OutOfRange),
    ensures
        settles(result, webvtt_outcome(input@)),
{
    finish(read_webvtt(&chars_of(input)))
}

/// Reads the events of an ASS script.
pub fn parse_ass_events(input: &str) -> (result: Result<SubtitleTimeline>)
    requires
        !(ass_outcome(input@) is OutOfRange),
    ensures
        settles(result, ass_outcome(input@)),
{
    finish(read_ass_events(&chars_of(input)))
}

/// Reads a text in a format.
pub fn parse_subtitle_text_file(format: SubtitleFileFormat, input: &str) -> (result: Result<
    SubtitleTimeline,
>)
    requires
        !(file_outcome(format, input@) is OutOfRange),
    ensures
        settles(result, file_outcome(format, input@)),
{
    match format {
        SubtitleFileFormat::Srt => parse_srt(input),
        SubtitleFileFormat::WebVtt => parse_webvtt(input),
        SubtitleFileFormat::Ass => parse_ass_events(input),
    }
}

/// Reads a text in a format, or gives nothing where one of its timestamps is
/// longer than any span.
pub fn try_parse_subtitle_text_file(format: SubtitleFileFormat, input: &str) -> (result: Option<
    Result<SubtitleTimeline>,
>)
    ensures
        result is None <==> file_outcome(format, input@) is OutOfRange,
        result matches Some(parsed) ==> settles(parsed, file_outcome(format, input@)),
{
    match read_file(format, &chars_of(input)) {
        Reading::OutOfRange => None,
        _ => Some(parse_subtitle_text_file(format, input)),
    }
}

// ---------------------------------------------------------------------------
// Laws
// ---------------------------------------------------------------------------

/// A line of times is read as the time before the arrow and the first word behind
/// it; what follows that word does not count.
pub proof fn law_cue_lines_tell_start_and_end(
    start: Seq<char>,
    end: Seq<char>,
    settings: Seq<char>,
    text: Seq<char>,
    from: nat,
    to: nat,
)
    requires
        start.len() > 0 && !is_space(start[0]) && !is_space(start.last()),
        !has_char(start, '-'),
        end.len() > 0,
        forall|i: int| 0 <= i < end.len() ==> !is_space(#[trigger] end[i]),
        settings.len() == 0 || is_space(settings[0]),
        timestamp_outcome(start) == Outcome::Value(from),
        timestamp_outcome(end) == Outcome::Value(to),
    ensures
        cue_outcome(start + " --> "@ + end + settings, text) == Outcome::Value(
            CueModel { start: from, end: to, text: trim_spec(text) },
        ),
{
    reveal_strlit(" --> ");
    reveal_strlit("-->");
    let none = Seq::<char>::empty();
    let gap = seq![' '];
    let before = start + gap;
    let behind = gap + end + settings;
    let line = start + " --> "@ + end + settings;
    assert(" --> "@ =~= gap + "-->"@ + gap);
    assert(line =~= before + "-->"@ + behind);
    assert(!has_char(before, '-')) by {
        assert forall|i: int| 0 <= i < before.len() implies before[i] != '-' by {
            if i < start.len() {
                assert(before[i] == start[i]);
            }
        }
    }
    law_parted_at_the_first_separator(before, "-->"@, behind);
    law_trimming_takes_white_space(none, start, gap);
    assert(none + start + gap =~= before);
    law_first_word(gap, end, settings);
    law_trimming_takes_white_space(none, end, none);
    assert(none + end + none =~= end);
}

/// Whether a text can stand as a line of a block: it shows something, and has no
/// line end in it.
pub open spec fn is_filled_line(line: Seq<char>) -> bool {
    &&& trim_spec(line).len() > 0
    &&& !has_char(line, '\n')
    &&& !has_char(line, '\r')
}

proof fn lemma_joined_lines(lines: Seq<Seq<char>>)
    requires
        forall|i: int| 0 <= i < lines.len() ==> is_filled_line(#[trigger] lines[i]),
    ensures
        lines_spec(join_spec(lines, seq!['\n'])) == lines,
        filled_lines(lines) == lines,
    decreases lines.len(),
{
    if lines.len() > 0 {
        let rest = lines.skip(1);
        let first = lines[0];
        assert(is_filled_line(first));
        assert(first.len() > 0) by {
            if first.len() == 0 {
                assert(trim_spec(first) =~= first);
            }
        }
        assert(first.last() != '\r') by {
            assert(first[first.len() - 1] == first.last());
        }
        assert forall|i: int| 0 <= i < rest.len() implies is_filled_line(#[trigger] rest[i]) by {
            assert(is_filled_line(lines[i + 1]));
        }
        lemma_joined_lines(rest);
        assert(seq![first] + rest =~= lines);
        if rest.len() > 0 {
            lemma_join_first(first, rest, seq!['\n']);
            law_lines_follow_each_other(first, join_spec(rest, seq!['\n']));
        } else {
            assert(lines =~= seq![first]);
            law_lines_follow_each_other(first, Seq::empty());
        }
        assert forall|i: int| 0 <= i < lines.drop_last().len() implies is_filled_line(
            #[trigger] lines.drop_last()[i],
        ) by {
            assert(is_filled_line(lines[i]));
        }
        lemma_all_filled(lines);
    }
}

proof fn lemma_all_filled(lines: Seq<Seq<char>>)
    requires
        forall|i: int| 0 <= i < lines.len() ==> is_filled_line(#[trigger] lines[i]),
    ensures
        filled_lines(lines) == lines,
    decreases lines.len(),
{
    if lines.len() > 0 {
        assert forall|i: int| 0 <= i < lines.drop_last().len() implies is_filled_line(
            #[trigger] lines.drop_last()[i],
        ) by {
            assert(is_filled_line(lines[i]));
        }
        lemma_all_filled(lines.drop_last());
        assert(is_filled_line(lines[lines.len() - 1]));
        assert(lines.drop_last().push(lines.last()) =~= lines);
    }
}

/// A block is read as the cue of its line of times, which is the first one or stands
/// behind a number, and of all the lines behind it.
pub proof fn law_blocks_are_read_as_their_lines(lines: Seq<Seq<char>>)
    requires
        lines.len() > 0,
        forall|i: int| 0 <= i < lines.len() ==> is_filled_line(#[trigger] lines[i]),
    ensures
        contains_spec(lines[0], "-->"@) ==> block_outcome(join_spec(lines, seq!['\n'])) == Some(
            cue_outcome(lines[0], join_spec(lines.skip(1), seq!['\n'])),
        ),
        lines.len() > 1 && !contains_spec(lines[0], "-->"@) && contains_spec(lines[1], "-->"@)
            ==> block_outcome(join_spec(lines, seq!['\n'])) == Some(
            cue_outcome(lines[1], join_spec(lines.skip(2), seq!['\n'])),
        ),
        (forall|i: int| 0 <= i < lines.len() ==> !contains_spec(#[trigger] lines[i], "-->"@))
            ==> block_outcome(join_spec(lines, seq!['\n'])) is None,
{
    lemma_joined_lines(lines);
}

proof fn lemma_blocks_follow(first: Seq<char>, rest: Seq<Seq<char>>, cue: CueModel)
    ensures
        block_outcome(first) == Some(Outcome::Value(cue)) && blocks_outcome(rest) is Value
            ==> blocks_outcome(seq![first] + rest) == Outcome::Value(
            seq![cue] + blocks_outcome(rest)->Value_0,
        ),
        block_outcome(first) is None ==> blocks_outcome(seq![first] + rest) == blocks_outcome(rest),
    decreases rest.len(),
{
    let all = seq![first] + rest;
    if rest.len() == 0 {
        assert(all =~= seq![first]);
        assert(all.drop_last() =~= Seq::<Seq<char>>::empty());
        assert(all.last() == first);
        assert(blocks_outcome(all.drop_last()) == Outcome::Value(Seq::<CueModel>::empty()));
        assert(Seq::<CueModel>::empty().push(cue) =~= seq![cue] + Seq::<CueModel>::empty());
    } else {
        lemma_blocks_follow(first, rest.drop_last(), cue);
        assert(all.drop_last() =~= seq![first] + rest.drop_last());
        assert(all.last() == rest.last());
        if block_outcome(first) == Some(Outcome::Value(cue)) && blocks_outcome(rest) is Value {
            let cues = blocks_outcome(rest.drop_last())->Value_0;
            assert(blocks_outcome(rest.drop_last()) == Outcome::Value(cues));
            match block_outcome(rest.last()) {
                Some(Outcome::Value(last)) => {
                    assert((seq![cue] + cues).push(last) =~= seq![cue] + cues.push(last));
                },
                _ => {},
            }
        }
    }
}

/// A text without an empty line is split off by the first one behind it.
proof fn lemma_block_is_split_off(block: Seq<char>, rest: Seq<char>)
    requires
        !contains_spec(block, seq!['\n', '\n']),
        block.len() == 0 || block.last() != '\n',
    ensures
        split_spec(block + seq!['\n', '\n'] + rest, seq!['\n', '\n']) == seq![block] + split_spec(
            rest,
            seq!['\n', '\n'],
        ),
{
    let gap = seq!['\n', '\n'];
    let s = block + gap + rest;
    let at = block.len() as int;
    lemma_occurs_between(block, gap, rest);
    crate::text::lemma_find_from(block, gap, 0);
    assert forall|k: int| 0 <= k < at implies !occurs_at(s, gap, k) by {
        if occurs_at(s, gap, k) {
            let found = s.subrange(k, k + 2);
            assert(found[0] == s[k] && found[1] == s[k + 1]);
            if k + 2 <= at {
                assert(block.subrange(k, k + 2) =~= found);
                assert(occurs_at(block, gap, k));
            } else {
                assert(s[k] == block[k]);
                assert(block[k] == block.last());
            }
        }
    }
    lemma_first_is_found(s, gap, at);
    assert(s.take(at) =~= block);
    assert(s.skip(at + 2) =~= rest);
}

/// The blocks of a file are read one after the other: a block in front puts its cue
/// in front, and one that is no cue changes nothing.
pub proof fn law_blocks_are_read_in_order(
    block: Seq<char>,
    rest: Seq<char>,
    cue: CueModel,
)
    requires
        !contains_spec(block, seq!['\n', '\n']),
        block.len() == 0 || block.last() != '\n',
        !has_char(block, '\r'),
        !has_char(rest, '\r'),
    ensures
        block_outcome(block) == Some(Outcome::Value(cue)) && srt_outcome(rest) is Value
            ==> srt_outcome(block + seq!['\n', '\n'] + rest) == Outcome::Value(
            seq![cue] + srt_outcome(rest)->Value_0,
        ),
        block_outcome(block) is None ==> srt_outcome(block + seq!['\n', '\n'] + rest)
            == srt_outcome(rest),
{
    let gap = seq!['\n', '\n'];
    let s = block + gap + rest;
    let at = block.len() as int;
    lemma_no_returns(rest);
    assert(!has_char(s, '\r')) by {
        assert forall|i: int| 0 <= i < s.len() implies s[i] != '\r' by {
            if i < at {
                assert(s[i] == block[i]);
            } else if i >= at + 2 {
                assert(s[i] == rest[i - at - 2]);
            }
        }
    }
    lemma_no_returns(s);
    lemma_block_is_split_off(block, rest);
    lemma_blocks_follow(block, split_spec(rest, gap), cue);
}

proof fn lemma_no_returns(s: Seq<char>)
    requires
        !has_char(s, '\r'),
    ensures
        with_line_feeds(s) == s,
{
    let line_end = seq!['\r', '\n'];
    crate::text::lemma_find_from(s, line_end, 0);
    if let Some(at) = crate::text::find_spec(s, line_end) {
        assert(s.subrange(at, at + 2)[0] == s[at]);
        assert(s[at] == '\r');
    }
    assert(split_spec(s, line_end) =~= seq![s]);
    assert(seq![s].len() == 1);
}

/// A line end of two characters counts as a line feed.
pub proof fn law_line_ends_are_line_feeds(line: Seq<char>, rest: Seq<char>)
    requires
        !has_char(line, '\r'),
    ensures
        with_line_feeds(line + seq!['\r', '\n'] + rest) == line + seq!['\n'] + with_line_feeds(
            rest,
        ),
{
    let line_end = seq!['\r', '\n'];
    let s = line + line_end + rest;
    law_parted_at_the_first_separator(line, line_end, rest);
    crate::text::law_split_comes_together(s, line_end);
    crate::text::law_split_comes_together(rest, line_end);
    lemma_join_first(line, split_spec(rest, line_end), seq!['\n']);
}

/// A WebVTT text is read as a SubRip text behind its head.
pub proof fn law_webvtt_is_read_behind_its_head(rest: Seq<char>)
    requires
        !has_char(rest, '\r'),
    ensures
        webvtt_outcome("WEBVTT"@ + rest) == srt_outcome(rest),
        strip_prefix_spec(rest, "WEBVTT"@) is None ==> webvtt_outcome(rest) == srt_outcome(rest),
{
    reveal_strlit("WEBVTT");
    let s = "WEBVTT"@ + rest;
    assert(!has_char(s, '\r')) by {
        assert forall|i: int| 0 <= i < s.len() implies s[i] != '\r' by {
            if i >= 6 {
                assert(s[i] == rest[i - 6]);
            }
        }
    }
    lemma_no_returns(s);
    lemma_no_returns(rest);
    law_prefix_and_rest("WEBVTT"@, rest, s);
}

/// Whether a name stands at an index, and at none before it.
pub open spec fn stands_first_at(fields: Seq<Seq<char>>, name: Seq<char>, index: int) -> bool {
    &&& 0 <= index < fields.len()
    &&& fields[index] == name
    &&& forall|i: int| 0 <= i < index ==> #[trigger] fields[i] != name
}

/// A field is found where its name stands first; a field without a name is at its
/// usual place.
pub proof fn law_fields_are_found_by_name(
    fields: Seq<Seq<char>>,
    name: Seq<char>,
    index: int,
    from: nat,
    default: nat,
)
    requires
        from <= index,
    ensures
        stands_first_at(fields, name, index) ==> field_index(fields, name, from, default) == index,
        !fields.contains(name) ==> field_index(fields, name, from, default) == default,
    decreases fields.len() - from,
{
    if from < fields.len() {
        if fields[from as int] == name {
            assert(fields.contains(name));
        } else if from < index {
            law_fields_are_found_by_name(fields, name, index, from + 1, default);
        } else if !fields.contains(name) {
            law_fields_are_found_by_name(fields, name, (from + 1) as int, from + 1, default);
        }
    }
}

proof fn lemma_values_of(parts: Seq<Seq<char>>, text: Seq<char>)
    requires
        forall|i: int| 0 <= i < parts.len() ==> !has_char(#[trigger] parts[i], ','),
    ensures
        splitn_spec(join_spec(parts.push(text), seq![',']), parts.len() + 1, ',') == parts.push(
            text,
        ),
    decreases parts.len(),
{
    if parts.len() == 0 {
        assert(parts.push(text) =~= seq![text]);
        assert(seq![text].len() == 1);
        assert(join_spec(seq![text], seq![',']) == text);
        assert(splitn_spec(text, 1, ',') =~= seq![text]);
    } else {
        let rest = parts.skip(1);
        assert forall|i: int| 0 <= i < rest.len() implies !has_char(#[trigger] rest[i], ',') by {
            assert(!has_char(parts[i + 1], ','));
        }
        lemma_values_of(rest, text);
        assert(seq![parts[0]] + rest.push(text) =~= parts.push(text));
        lemma_join_first(parts[0], rest.push(text), seq![',']);
        assert(!has_char(parts[0], ','));
        law_counted_pieces_are_told_apart(
            parts[0],
            join_spec(rest.push(text), seq![',']),
            parts.len() + 1,
            ',',
        );
    }
}

/// An event is read by the places of its fields: start and end stand where the format
/// says, or second and third without one, and the text is all that follows the other
/// fields, with its commas.
pub proof fn law_events_are_read_by_their_fields(
    fields: Seq<Seq<char>>,
    parts: Seq<Seq<char>>,
    text: Seq<char>,
    start: int,
    end: int,
    from: nat,
    to: nat,
)
    requires
        forall|i: int| 0 <= i < parts.len() ==> !has_char(#[trigger] parts[i], ','),
        0 <= start < parts.len(),
        0 <= end < parts.len(),
        (fields.len() == 0 && parts.len() == 9 && start == 1 && end == 2) || (fields.len() >= 10
            && parts.len() + 1 == fields.len() && stands_first_at(fields, "start"@, start)
            && stands_first_at(fields, "end"@, end) && stands_first_at(
            fields,
            "text"@,
            parts.len() as int,
        )),
        timestamp_outcome(trim_spec(parts[start])) == Outcome::Value(from),
        timestamp_outcome(trim_spec(parts[end])) == Outcome::Value(to),
    ensures
        dialogue_outcome(fields, join_spec(parts.push(text), seq![','])) == Outcome::Value(
            CueModel { start: from, end: to, text: clean_ass_spec(trim_spec(text)) },
        ),
{
    let all = parts.push(text);
    lemma_values_of(parts, text);
    law_fields_are_found_by_name(fields, "start"@, start, 0, 1);
    law_fields_are_found_by_name(fields, "end"@, end, 0, 2);
    law_fields_are_found_by_name(fields, "text"@, parts.len() as int, 0, 9);
    let values = trim_all(all);
    assert(values[start] == trim_spec(parts[start]));
    assert(values[end] == trim_spec(parts[end]));
    assert(values[parts.len() as int] == trim_spec(text));
}

/// The lines of a script do what they say: before the head of the events nothing
/// counts, an event adds its cue behind the others, and any other line changes
/// nothing.
pub proof fn law_script_lines(state: AssState, dialogue: Seq<char>, line: Seq<char>)
    requires
        dialogue.len() > 0 && !is_space(dialogue.last()),
        line.len() > 0 && !is_space(line[0]) && !is_space(line.last()),
    ensures
        !state.in_events && lower_spec(line) != lower_spec("[events]"@) ==> ass_line_outcome(
            state,
            line,
        ) == Outcome::Value(state),
        lower_spec(line) == lower_spec("[events]"@) ==> ass_line_outcome(state, line)
            == Outcome::Value(AssState { in_events: true, ..state }),
        state.in_events && dialogue_outcome(state.fields, dialogue) is Value ==> ass_line_outcome(
            state,
            "Dialogue:"@ + dialogue,
        ) == Outcome::Value(
            AssState {
                cues: state.cues.push(dialogue_outcome(state.fields, dialogue)->Value_0),
                ..state
            },
        ),
        strip_prefix_spec(line, "Format:"@) is None && strip_prefix_spec(line, "Dialogue:"@) is None
            && lower_spec(line) != lower_spec("[events]"@) ==> ass_line_outcome(state, line)
            == Outcome::Value(state),
{
    reveal_strlit("Dialogue:");
    reveal_strlit("Format:");
    reveal_strlit("[events]");
    let none = Seq::<char>::empty();
    law_trimming_takes_white_space(none, line, none);
    assert(none + line + none =~= line);
    let s = "Dialogue:"@ + dialogue;
    assert(s[0] == 'D' && s.last() == dialogue.last());
    law_trimming_takes_white_space(none, s, none);
    assert(none + s + none =~= s);
    law_prefix_and_rest("Dialogue:"@, dialogue, s);
    assert(lower_spec(s)[0] != lower_spec("[events]"@)[0]);
    assert(!occurs_at(s, "Format:"@, 0)) by {
        if occurs_at(s, "Format:"@, 0) {
            assert(s.subrange(0, 7)[0] == s[0]);
        }
    }
}

/// A file is read as what stands behind the last dot of its name, in small letters or
/// large ones, and one without a dot as nothing.
pub proof fn law_subtitle_formats_are_told_by_the_name(name: Seq<char>, extension: Seq<char>)
    requires
        !has_char(extension, '.'),
    ensures
        ({
            let path = name + seq!['.'] + extension;
            let small = lower_spec(extension);
            &&& small == "srt"@ ==> format_of_path(path) == Some(SubtitleFileFormat::Srt)
            &&& small == "vtt"@ || small == "webvtt"@ ==> format_of_path(path) == Some(
                SubtitleFileFormat::WebVtt,
            )
            &&& small == "ass"@ || small == "ssa"@ ==> format_of_path(path) == Some(
                SubtitleFileFormat::Ass,
            )
            &&& small != "srt"@ && small != "vtt"@ && small != "webvtt"@ && small != "ass"@ && small
                != "ssa"@ ==> format_of_path(path) is None
            &&& format_of_path(extension) is None
        }),
{
    let path = name + seq!['.'] + extension;
    let at = after_last(path, '.');
    law_behind_the_last(path, '.');
    law_behind_the_last(extension, '.');
    assert(path[name.len() as int] == '.');
    assert(at == name.len() + 1) by {
        if at > name.len() + 1 {
            assert(path[at - 1] == extension[at - 2 - name.len()]);
        } else if at <= name.len() {
            assert(path[name.len() as int] != '.');
        }
    }
    assert(after_last(extension, '.') == 0) by {
        let k = after_last(extension, '.');
        if k > 0 {
            assert(extension[k - 1] == '.');
        }
    }
    assert(path.skip(at as int) =~= extension);
    reveal_strlit("srt");
    reveal_strlit("vtt");
    reveal_strlit("webvtt");
    reveal_strlit("ass");
    reveal_strlit("ssa");
    assert("srt"@[0] == 's' && "srt"@[1] == 'r');
    assert("vtt"@[0] == 'v' && "vtt"@.len() == 3);
    assert("webvtt"@.len() == 6);
    assert("ass"@[0] == 'a');
    assert("ssa"@[0] == 's' && "ssa"@[1] == 's');
}

/// The lines of a script are read one behind the other, and the cues of the script are
/// those of its lines.
pub proof fn law_script_lines_are_read_in_order(
    before: Seq<Seq<char>>,
    state: AssState,
    line: Seq<char>,
    input: Seq<char>,
    format: SubtitleFileFormat,
)
    requires
        ass_lines_outcome(before) == Outcome::Value(state),
    ensures
        ass_lines_outcome(before.push(line)) == ass_line_outcome(state, line),
        lines_spec(input) == before ==> ass_outcome(input) == Outcome::Value(state.cues),
        ass_lines_outcome(Seq::<Seq<char>>::empty()) matches Outcome::Value(none)
            && none.cues.len() == 0 && none.fields.len() == 0 && !none.in_events,
        file_outcome(SubtitleFileFormat::Srt, input) == srt_outcome(input),
        file_outcome(SubtitleFileFormat::WebVtt, input) == webvtt_outcome(input),
        file_outcome(SubtitleFileFormat::Ass, input) == ass_outcome(input),
{
    assert(before.push(line).drop_last() =~= before);
}

} // verus!
