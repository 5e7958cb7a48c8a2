//! The text of ASS events: override blocks, escapes, timestamps and dialogue
//! lines.
use crate::text::{
    chars_of, decimal_spec, eq_ignore_case, extend_chars, extend_str, has_char, is_digit, is_space,
    join_spec, law_counted_pieces_are_told_apart, law_parse_of_signed_decimal,
    law_parted_at_the_first_separator, law_trimming_takes_white_space, lemma_decimal_digits,
    lemma_join_first, lower_spec, parse_signed, parse_signed_spec, parts_view, push_decimal,
    push_two_digits, split_once, split_once_spec, splitn, splitn_spec, trim, trim_spec, trim_start, trim_start_spec, two_digits_spec,
};
use crate::time::Duration;
use vstd::prelude::*;

verus! {

broadcast use vstd::seq_lib::group_seq_properties;

/// What a script starts with: one default style, and the format of the events.
pub const DEFAULT_ASS_SCRIPT_HEADER: &'static str = r#"[Script Info]
ScriptType: v4.00+
PlayResX: 1920
PlayResY: 1080

[V4+ Styles]
Format: Name, Fontname, Fontsize, PrimaryColour, SecondaryColour, OutlineColour, BackColour, Bold, Italic, Underline, StrikeOut, ScaleX, ScaleY, Spacing, Angle, BorderStyle, Outline, Shadow, Alignment, MarginL, MarginR, MarginV, Encoding
Style: Default,Arial,48,&H00FFFFFF,&H000000FF,&H80000000,&H80000000,0,0,0,0,100,100,0,0,1,2,0,2,48,48,54,1

[Events]
Format: Layer, Start, End, Style, Name, MarginL, MarginR, MarginV, Effect, Text
"#;

// ---------------------------------------------------------------------------
// Display text
// ---------------------------------------------------------------------------

/// The text without its override blocks in braces, and with `\N` and `\n` as
/// line feeds.
pub open spec fn strip_overrides(s: Seq<char>, in_override: bool) -> Seq<char>
    decreases s.len(),
{
    if s.len() == 0 {
        Seq::empty()
    } else if s[0] == '{' {
        strip_overrides(s.skip(1), true)
    } else if s[0] == '}' {
        strip_overrides(s.skip(1), false)
    } else if in_override {
        strip_overrides(s.skip(1), true)
    } else if s[0] == '\\' && s.len() > 1 && (s[1] == 'N' || s[1] == 'n') {
        seq!['\n'] + strip_overrides(s.skip(2), false)
    } else {
        seq![s[0]] + strip_overrides(s.skip(1), false)
    }
}

/// The text of an event as it is shown.
pub open spec fn clean_ass_spec(s: Seq<char>) -> Seq<char> {
    trim_spec(strip_overrides(s, false))
}

/// Strips the override blocks and resolves the line breaks of an event's text.
pub fn clean_ass_text(value: &[char]) -> (result: Vec<char>)
    ensures
        result@ == clean_ass_spec(value@),
{
    let mut output: Vec<char> = Vec::new();
    let mut in_override = false;
    let mut i: usize = 0;
    assert(value@.skip(0) =~= value@);
    assert(output@ + strip_overrides(value@, false) =~= strip_overrides(value@, false));
    while i < value.len()
        invariant
            i <= value@.len(),
            output@ + strip_overrides(value@.skip(i as int), in_override) == strip_overrides(
                value@,
                false,
            ),
        decreases value@.len() - i,
    {
        let ghost rest = value@.skip(i as int);
        let ghost before = output@;
        let c = value[i];
        assert(rest[0] == c);
        assert(rest.skip(1) =~= value@.skip(i as int + 1));
        if c == '{' {
            in_override = true;
        } else if c == '}' {
            in_override = false;
        } else if !in_override {
            let size: usize = value.len();
            if c == '\\' && size - i > 1 && (value[i + 1] == 'N' || value[i + 1] == 'n') {
                assert(rest[1] == value@[i as int + 1]);
                assert(rest.skip(2) =~= value@.skip(i as int + 2));
                output.push('\n');
                assert(before + (seq!['\n'] + strip_overrides(rest.skip(2), false)) =~= output@
                    + strip_overrides(rest.skip(2), false));
                i += 1;
            } else {
                proof {
                    if rest.len() > 1 {
                        assert(rest[1] == value@[i as int + 1]);
                    }
                }
                output.push(c);
                assert(before + (seq![c] + strip_overrides(rest.skip(1), false)) =~= output@
                    + strip_overrides(rest.skip(1), false));
            }
        }
        i += 1;
    }
    assert(output@ =~= strip_overrides(value@, false));
    let trimmed = trim(&output);
    let mut result: Vec<char> = Vec::new();
    extend_chars(&mut result, trimmed);
    assert(result@ =~= trimmed@);
    result
}

/// The character as it is written in an event.
pub open spec fn escape_char(c: char) -> Seq<char> {
    if c == '\n' {
        seq!['\\', 'N']
    } else if c == '\\' {
        seq!['\\', '\\']
    } else if c == '{' {
        seq!['\\', '{']
    } else if c == '}' {
        seq!['\\', '}']
    } else {
        seq![c]
    }
}

/// The text as it is written in an event.
pub open spec fn escape_ass_spec(s: Seq<char>) -> Seq<char>
    decreases s.len(),
{
    if s.len() == 0 {
        Seq::empty()
    } else {
        escape_ass_spec(s.drop_last()) + escape_char(s.last())
    }
}

/// Writes text so that an event can hold it.
pub fn escape_ass_text(value: &[char]) -> (result: Vec<char>)
    ensures
        result@ == escape_ass_spec(value@),
{
    let mut output: Vec<char> = Vec::new();
    let mut i: usize = 0;
    while i < value.len()
        invariant
            i <= value@.len(),
            output@ == escape_ass_spec(value@.take(i as int)),
        decreases value@.len() - i,
    {
        let c = value[i];
        assert(value@.take(i as int + 1).drop_last() =~= value@.take(i as int));
        if c == '\n' {
            output.push('\\');
            output.push('N');
        } else if c == '\\' {
            output.push('\\');
            output.push('\\');
        } else if c == '{' {
            output.push('\\');
            output.push('{');
        } else if c == '}' {
            output.push('\\');
            output.push('}');
        } else {
            output.push(c);
        }
        i += 1;
        assert(output@ =~= escape_ass_spec(value@.take(i as int)));
    }
    assert(value@.take(i as int) =~= value@);
    output
}

/// Whether the text holds no character that ASS gives a meaning.
pub open spec fn is_plain_text(s: Seq<char>) -> bool {
    forall|i: int| 0 <= i < s.len() ==> #[trigger] s[i] != '\\' && s[i] != '{' && s[i] != '}'
}

proof fn lemma_escape_front(s: Seq<char>)
    requires
        s.len() > 0,
    ensures
        escape_ass_spec(s) == escape_char(s[0]) + escape_ass_spec(s.skip(1)),
    decreases s.len(),
{
    if s.len() == 1 {
        assert(s.drop_last() =~= Seq::<char>::empty());
        assert(s.skip(1) =~= Seq::<char>::empty());
        assert(escape_ass_spec(s.skip(1)) =~= Seq::<char>::empty());
        assert(escape_ass_spec(s) =~= escape_char(s[0]) + escape_ass_spec(s.skip(1)));
    } else {
        lemma_escape_front(s.drop_last());
        assert(s.drop_last().skip(1) =~= s.skip(1).drop_last());
        assert(s.skip(1).last() == s.last());
        assert(escape_ass_spec(s) =~= escape_char(s[0]) + escape_ass_spec(s.skip(1)));
    }
}

proof fn lemma_strip_of_escaped(s: Seq<char>)
    requires
        is_plain_text(s),
    ensures
        strip_overrides(escape_ass_spec(s), false) == s,
    decreases s.len(),
{
    if s.len() > 0 {
        let escaped = escape_ass_spec(s);
        let rest = escape_ass_spec(s.skip(1));
        lemma_escape_front(s);
        assert(s[0] != '\\' && s[0] != '{' && s[0] != '}');
        assert forall|i: int| 0 <= i < s.skip(1).len() implies #[trigger] s.skip(1)[i] != '\\'
            && s.skip(1)[i] != '{' && s.skip(1)[i] != '}' by {
            assert(s.skip(1)[i] == s[i + 1]);
        }
        lemma_strip_of_escaped(s.skip(1));
        if s[0] == '\n' {
            assert(escaped[0] == '\\' && escaped[1] == 'N');
            assert(escaped.skip(2) =~= rest);
            assert(strip_overrides(escaped, false) =~= s);
        } else {
            assert(escaped[0] == s[0]);
            assert(escaped.skip(1) =~= rest);
            assert(strip_overrides(escaped, false) =~= s);
        }
    }
}

/// Plain text that is written into an event is shown as it was, but for the
/// white space around it.
pub proof fn law_escaped_text_shows_as_itself(s: Seq<char>)
    requires
        is_plain_text(s),
    ensures
        clean_ass_spec(escape_ass_spec(s)) == trim_spec(s),
{
    lemma_strip_of_escaped(s);
}

// ---------------------------------------------------------------------------
// Timestamps
// ---------------------------------------------------------------------------

/// The hundredths of a second nearest to a time.
pub open spec fn centiseconds(nanos: nat) -> nat {
    (nanos / 1_000_000 + 5) / 10
}

/// A time as ASS writes it, `h:mm:ss.cc`.
pub open spec fn ass_timestamp_spec(nanos: nat) -> Seq<char> {
    let centis = centiseconds(nanos);
    let seconds = centis / 100;
    decimal_spec(seconds / 3600) + seq![':'] + two_digits_spec(seconds / 60 % 60) + seq![':']
        + two_digits_spec(seconds % 60) + seq!['.'] + two_digits_spec(centis % 100)
}

/// Appends a time as ASS writes it.
fn push_ass_timestamp(target: &mut Vec<char>, value: Duration)
    ensures
        final(target)@ == old(target)@ + ass_timestamp_spec(value@),
{
    let centis: u128 = (value.as_millis() + 5) / 10;
    let seconds: u128 = centis / 100;
    push_decimal(target, seconds / 3600);
    target.push(':');
    push_two_digits(target, seconds / 60 % 60);
    target.push(':');
    push_two_digits(target, seconds % 60);
    target.push('.');
    push_two_digits(target, centis % 100);
    assert(target@ =~= old(target)@ + ass_timestamp_spec(value@));
}

/// Writes a time as ASS does.
pub fn format_ass_timestamp(value: Duration) -> (result: String)
    ensures
        result@ == ass_timestamp_spec(value@),
{
    let mut chars: Vec<char> = Vec::new();
    push_ass_timestamp(&mut chars, value);
    assert(chars@ =~= ass_timestamp_spec(value@));
    crate::text::string_of(&chars)
}

// ---------------------------------------------------------------------------
// Dialogue lines
// ---------------------------------------------------------------------------

/// What follows the word `Dialogue:` at the start of a line, if it is there.
pub open spec fn dialogue_rest(s: Seq<char>) -> Option<Seq<char>> {
    match split_once_spec(trim_start_spec(s), seq![':']) {
        Some(parts) => if lower_spec(parts.0) == lower_spec("Dialogue"@) {
            Some(trim_start_spec(parts.1))
        } else {
            None
        },
        None => None,
    }
}

/// Strips the word `Dialogue:` from a line.
pub fn strip_ass_dialogue_prefix(value: &[char]) -> (result: Option<&[char]>)
    ensures
        result is Some <==> dialogue_rest(value@) is Some,
        result matches Some(rest) ==> Some(rest@) == dialogue_rest(value@),
{
    let colon: Vec<char> = vec![':'];
    assert(colon@ =~= seq![':']);
    match split_once(trim_start(value), &colon) {
        Some(parts) => {
            let word = chars_of("Dialogue");
            if eq_ignore_case(parts.0, &word) {
                Some(trim_start(parts.1))
            } else {
                None
            }
        },
        None => None,
    }
}

/// Whether a line is a dialogue line.
pub fn is_ass_dialogue_line(value: &[char]) -> (result: bool)
    ensures
        result == (dialogue_rest(value@) is Some),
{
    strip_ass_dialogue_prefix(value).is_some()
}

/// The nine fields of an event payload whose first field is its read order.
pub open spec fn payload_fields(value: Seq<char>) -> Option<Seq<Seq<char>>> {
    let fields = splitn_spec(value, 9, ',');
    if fields.len() == 9 && parse_signed_spec(trim_spec(fields[0])) is Some {
        Some(fields)
    } else {
        None
    }
}

/// Splits an event payload into its fields.
fn split_payload(value: &[char]) -> (result: Option<Vec<&[char]>>)
    ensures
        result is Some <==> payload_fields(value@) is Some,
        result matches Some(fields) ==> fields@.len() == 9 && Some(parts_view(fields@))
            == payload_fields(value@),
{
    let fields = splitn(value, 9, ',');
    assert(parts_view(fields@).len() == fields@.len());
    if fields.len() == 9 {
        assert(parts_view(fields@)[0] == fields@[0]@);
        if parse_signed(trim(fields[0])).is_some() {
            return Some(fields);
        }
    }
    None
}

/// The text that an ASS segment shows: the text field of a dialogue line or of
/// an event payload, else the whole segment.
pub open spec fn segment_display_spec(value: Seq<char>) -> Seq<char> {
    let line = trim_spec(value);
    match dialogue_rest(line) {
        Some(dialogue) => {
            let fields = splitn_spec(dialogue, 10, ',');
            if fields.len() > 9 {
                clean_ass_spec(fields[9])
            } else {
                Seq::empty()
            }
        },
        None => match payload_fields(line) {
            Some(fields) => clean_ass_spec(fields[8]),
            None => clean_ass_spec(line),
        },
    }
}

/// The text that an ASS segment shows.
pub fn ass_segment_display_text(value: &[char]) -> (result: Vec<char>)
    ensures
        result@ == segment_display_spec(value@),
{
    let line = trim(value);
    if let Some(dialogue) = strip_ass_dialogue_prefix(line) {
        let fields = splitn(dialogue, 10, ',');
        assert(parts_view(fields@).len() == fields@.len());
        if fields.len() > 9 {
            assert(parts_view(fields@)[9] == fields@[9]@);
            return clean_ass_text(fields[9]);
        }
        let empty: Vec<char> = Vec::new();
        assert(empty@ =~= Seq::<char>::empty());
        return empty;
    }
    match split_payload(line) {
        Some(fields) => {
            assert(parts_view(fields@)[8] == fields@[8]@);
            clean_ass_text(fields[8])
        },
        None => clean_ass_text(line),
    }
}

/// The dialogue line of an event payload: its read order and layer give way to
/// layer zero and the times of the event; the name is left out. There is none
/// for a line that has the word `Dialogue:` already, is no payload, or shows
/// nothing.
pub open spec fn rebuilt_dialogue(value: Seq<char>, start: nat, end: nat) -> Option<Seq<char>> {
    let line = trim_spec(value);
    if dialogue_rest(line) is Some {
        None
    } else {
        match payload_fields(line) {
            Some(fields) => if trim_spec(fields[8]).len() == 0 {
                None
            } else {
                Some(
                    "Dialogue: 0,"@ + ass_timestamp_spec(start) + seq![','] + ass_timestamp_spec(
                        end,
                    ) + seq![','] + trim_spec(fields[2]) + seq![',', ','] + trim_spec(fields[4])
                        + seq![','] + trim_spec(fields[5]) + seq![','] + trim_spec(fields[6])
                        + seq![','] + trim_spec(fields[7]) + seq![','] + trim_spec(fields[8]),
                )
            },
            None => None,
        }
    }
}

/// Rebuilds the dialogue line of an event payload.
pub fn rebuild_lavc_ass_dialogue(value: &[char], start: Duration, end: Duration) -> (result: Option<
    Vec<char>,
>)
    ensures
        result is Some <==> rebuilt_dialogue(value@, start@, end@) is Some,
        result matches Some(line) ==> Some(line@) == rebuilt_dialogue(value@, start@, end@),
{
    let line = trim(value);
    if is_ass_dialogue_line(line) {
        return None;
    }
    match split_payload(line) {
        Some(fields) => {
            let ghost views = parts_view(fields@);
            assert(forall|i: int| 0 <= i < 9 ==> views[i] == fields@[i]@);
            let style = trim(fields[2]);
            let margin_l = trim(fields[4]);
            let margin_r = trim(fields[5]);
            let margin_v = trim(fields[6]);
            let effect = trim(fields[7]);
            let text = trim(fields[8]);
            if text.len() == 0 {
                return None;
            }
            let mut output: Vec<char> = chars_of("Dialogue: 0,");
            push_ass_timestamp(&mut output, start);
            output.push(',');
            push_ass_timestamp(&mut output, end);
            output.push(',');
            extend_chars(&mut output, style);
            output.push(',');
            output.push(',');
            extend_chars(&mut output, margin_l);
            output.push(',');
            extend_chars(&mut output, margin_r);
            output.push(',');
            extend_chars(&mut output, margin_v);
            output.push(',');
            extend_chars(&mut output, effect);
            output.push(',');
            extend_chars(&mut output, text);
            assert(output@ =~= rebuilt_dialogue(value@, start@, end@)->0);
            Some(output)
        },
        None => None,
    }
}

/// The dialogue line that shows a text in the default style.
pub open spec fn dialogue_line(start: nat, end: nat, text: Seq<char>) -> Seq<char> {
    "Dialogue: 0,"@ + ass_timestamp_spec(start) + seq![','] + ass_timestamp_spec(end)
        + ",Default,,0,0,0,,"@ + escape_ass_spec(text) + seq!['\n']
}

/// Appends the dialogue line that shows a text in the default style.
pub fn push_ass_dialogue(output: &mut Vec<char>, start: Duration, end: Duration, text: &[char])
    ensures
        final(output)@ == old(output)@ + dialogue_line(start@, end@, text@),
{
    extend_str(output, "Dialogue: 0,");
    push_ass_timestamp(output, start);
    output.push(',');
    push_ass_timestamp(output, end);
    extend_str(output, ",Default,,0,0,0,,");
    let escaped = escape_ass_text(text);
    extend_chars(output, &escaped);
    output.push('\n');
    assert(output@ =~= old(output)@ + dialogue_line(start@, end@, text@));
}

/// Style overrides between braces are not shown, line breaks are, and any other
/// character is shown as it is.
pub proof fn law_overrides_are_not_shown(tag: Seq<char>, rest: Seq<char>, c: char)
    requires
        forall|i: int| 0 <= i < tag.len() ==> #[trigger] tag[i] != '}' && tag[i] != '{',
    ensures
        strip_overrides(seq!['{'] + tag + seq!['}'] + rest, false) == strip_overrides(rest, false),
        strip_overrides(seq!['\\', 'N'] + rest, false) == seq!['\n'] + strip_overrides(rest, false),
        strip_overrides(seq!['\\', 'n'] + rest, false) == seq!['\n'] + strip_overrides(rest, false),
        c != '{' && c != '}' && c != '\\' ==> strip_overrides(seq![c] + rest, false) == seq![c]
            + strip_overrides(rest, false),
{
    let s = seq!['{'] + tag + seq!['}'] + rest;
    assert(s[0] == '{');
    assert(s.skip(1) =~= tag + seq!['}'] + rest);
    lemma_skip_override(tag, rest);
    let b = seq!['\\', 'N'] + rest;
    assert(b[0] == '\\' && b[1] == 'N' && b.skip(2) =~= rest);
    let d = seq!['\\', 'n'] + rest;
    assert(d[0] == '\\' && d[1] == 'n' && d.skip(2) =~= rest);
    let p = seq![c] + rest;
    assert(p[0] == c && p.skip(1) =~= rest);
}

proof fn lemma_skip_override(tag: Seq<char>, rest: Seq<char>)
    requires
        forall|i: int| 0 <= i < tag.len() ==> #[trigger] tag[i] != '}' && tag[i] != '{',
    ensures
        strip_overrides(tag + seq!['}'] + rest, true) == strip_overrides(rest, false),
    decreases tag.len(),
{
    let s = tag + seq!['}'] + rest;
    if tag.len() == 0 {
        assert(s[0] == '}');
        assert(s.skip(1) =~= rest);
    } else {
        assert(tag[0] != '}' && tag[0] != '{');
        assert(s[0] == tag[0]);
        assert(s.skip(1) =~= tag.skip(1) + seq!['}'] + rest);
        assert forall|i: int| 0 <= i < tag.skip(1).len() implies #[trigger] tag.skip(1)[i] != '}'
            && tag.skip(1)[i] != '{' by {
            assert(tag[i + 1] != '}' && tag[i + 1] != '{');
        }
        lemma_skip_override(tag.skip(1), rest);
    }
}

/// A time is written to the nearest hundredth of a second.
pub proof fn law_written_times_are_the_nearest(nanos: nat)
    ensures
        -5_000_000 <= centiseconds(nanos) * 10_000_000 - nanos / 1_000_000 * 1_000_000
            <= 5_000_000,
{
}

/// The pieces of a line, told apart by commas, with the text behind them.
proof fn lemma_fields_of(parts: Seq<Seq<char>>, text: Seq<char>)
    requires
        parts.len() > 0,
        forall|i: int| 0 <= i < parts.len() ==> !has_char(#[trigger] parts[i], ','),
    ensures
        splitn_spec(join_spec(parts.push(text), seq![',']), (parts.len() + 1) as nat, ',')
            == parts.push(text),
    decreases parts.len(),
{
    let comma = seq![','];
    let rest = parts.skip(1).push(text);
    assert(parts.push(text) =~= seq![parts[0]] + rest);
    lemma_join_first(parts[0], rest, comma);
    assert(!has_char(parts[0], ','));
    law_counted_pieces_are_told_apart(
        parts[0],
        join_spec(rest, comma),
        (parts.len() + 1) as nat,
        ',',
    );
    if parts.len() == 1 {
        assert(rest =~= seq![text]);
        assert(join_spec(seq![text], comma) == text);
    } else {
        assert forall|i: int| 0 <= i < parts.skip(1).len() implies !has_char(
            #[trigger] parts.skip(1)[i],
            ',',
        ) by {
            assert(!has_char(parts[i + 1], ','));
        }
        lemma_fields_of(parts.skip(1), text);
    }
}

/// An event shows the text behind its nine other fields, however its name is written.
pub proof fn law_events_show_their_text(
    name: Seq<char>,
    parts: Seq<Seq<char>>,
    text: Seq<char>,
)
    requires
        lower_spec(name) == lower_spec("Dialogue"@),
        !has_char(name, ':'),
        name.len() > 0 && !is_space(name[0]),
        parts.len() == 9,
        forall|i: int| 0 <= i < parts.len() ==> !has_char(#[trigger] parts[i], ','),
        parts[0].len() > 0 && !is_space(parts[0][0]),
        text.len() > 0 && !is_space(text.last()),
    ensures
        segment_display_spec(name + seq![':'] + join_spec(parts.push(text), seq![',']))
            == clean_ass_spec(text),
        rebuilt_dialogue(
            name + seq![':'] + join_spec(parts.push(text), seq![',']),
            0,
            0,
        ) is None,
{
    let none = Seq::<char>::empty();
    let comma = seq![','];
    let behind = join_spec(parts.push(text), comma);
    let line = name + seq![':'] + behind;
    let rest = parts.skip(1).push(text);
    assert(parts.push(text) =~= seq![parts[0]] + rest);
    lemma_join_first(parts[0], rest, comma);
    assert(behind[0] == parts[0][0]);
    assert(parts.push(text).drop_last() =~= parts);
    assert(behind.last() == text.last());
    assert(line[0] == name[0] && line.last() == text.last());
    law_trimming_takes_white_space(none, line, none);
    assert(none + line + none =~= line);
    law_parted_at_the_first_separator(name, seq![':'], behind);
    assert(trim_start_spec(line) == line);
    assert(trim_start_spec(behind) == behind);
    lemma_fields_of(parts, text);
}

/// A line without a name is an event if it has nine fields and starts with a number: it
/// shows its last field, and is written out again with its times, and with its style,
/// its margins and its effect where they belong.
pub proof fn law_numbered_lines_are_events(
    number: nat,
    parts: Seq<Seq<char>>,
    text: Seq<char>,
    start: nat,
    end: nat,
)
    requires
        number <= i64::MAX,
        parts.len() == 8,
        parts[0] == decimal_spec(number),
        forall|i: int| 0 <= i < parts.len() ==> !has_char(#[trigger] parts[i], ','),
        text.len() > 0 && !is_space(text[0]) && !is_space(text.last()),
        dialogue_rest(join_spec(parts.push(text), seq![','])) is None,
    ensures
        segment_display_spec(join_spec(parts.push(text), seq![','])) == clean_ass_spec(text),
        rebuilt_dialogue(join_spec(parts.push(text), seq![',']), start, end) == Some(
            "Dialogue: 0,"@ + ass_timestamp_spec(start) + seq![','] + ass_timestamp_spec(end)
                + seq![','] + trim_spec(parts[2]) + seq![',', ','] + trim_spec(parts[4]) + seq![
                ',',
            ] + trim_spec(parts[5]) + seq![','] + trim_spec(parts[6]) + seq![','] + trim_spec(
                parts[7],
            ) + seq![','] + text,
        ),
{
    let none = Seq::<char>::empty();
    let comma = seq![','];
    let line = join_spec(parts.push(text), comma);
    let rest = parts.skip(1).push(text);
    let digits = parts[0];
    lemma_decimal_digits(number);
    law_parse_of_signed_decimal(number);
    assert(is_digit(digits[0]) && is_digit(digits[digits.len() - 1]));
    assert(parts.push(text) =~= seq![parts[0]] + rest);
    lemma_join_first(parts[0], rest, comma);
    assert(line[0] == digits[0]);
    assert(parts.push(text).drop_last() =~= parts);
    assert(line.last() == text.last());
    law_trimming_takes_white_space(none, line, none);
    assert(none + line + none =~= line);
    law_trimming_takes_white_space(none, digits, none);
    assert(none + digits + none =~= digits);
    law_trimming_takes_white_space(none, text, none);
    assert(none + text + none =~= text);
    lemma_fields_of(parts, text);
    let fields = parts.push(text);
    assert(fields[0] == digits && fields[8] == text);
    assert(payload_fields(line) == Some(fields));
}

} // verus!
