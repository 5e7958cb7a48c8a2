//! What is written as an event is read back as one.
use crate::binary64::nearest_double;
use crate::float_bits::{double_of_text, encodes, plain_decimal};
use crate::subtitle::ass::{
    ass_timestamp_spec, centiseconds, dialogue_line, escape_ass_spec, is_plain_text,
    law_escaped_text_shows_as_itself,
};
use crate::subtitle::parse::{dialogue_outcome, law_events_are_read_by_their_fields, Outcome};
use crate::subtitle::timeline::CueModel;
use crate::subtitle::timestamp::{law_timestamp_reads_back, lemma_stamp_is_plain};
use crate::text::{has_char, join_spec, lemma_join_first, trim_spec};
use crate::time::MAX_NANOS;
use vstd::arithmetic::power::pow;
use vstd::prelude::*;

verus! {

/// The fields of an event in front of its text.
spec fn event_parts(from: Seq<char>, to: Seq<char>) -> Seq<Seq<char>> {
    seq![
        seq![' ', '0'],
        from,
        to,
        seq!['D', 'e', 'f', 'a', 'u', 'l', 't'],
        Seq::empty(),
        seq!['0'],
        seq!['0'],
        seq!['0'],
        Seq::empty(),
    ]
}

/// What stands behind the name of an event.
pub open spec fn written_event(start: nat, end: nat, text: Seq<char>) -> Seq<char> {
    seq![' ', '0', ','] + ass_timestamp_spec(start) + seq![','] + ass_timestamp_spec(end)
        + ",Default,,0,0,0,,"@ + escape_ass_spec(text)
}

/// The last seven fields, with the text.
spec fn last_parts(shown: Seq<char>) -> Seq<Seq<char>> {
    seq![
        seq!['D', 'e', 'f', 'a', 'u', 'l', 't'],
        Seq::empty(),
        seq!['0'],
        seq!['0'],
        seq!['0'],
        Seq::empty(),
        shown,
    ]
}

proof fn lemma_last_parts(shown: Seq<char>)
    ensures
        seq![','] + join_spec(last_parts(shown), seq![',']) == ",Default,,0,0,0,,"@ + shown,
{
    reveal_strlit(",Default,,0,0,0,,");
    let none = Seq::<char>::empty();
    let zero = seq!['0'];
    let style = seq!['D', 'e', 'f', 'a', 'u', 'l', 't'];
    let comma = seq![','];
    let p1 = seq![shown];
    let p2 = seq![none] + p1;
    let p3 = seq![zero] + p2;
    let p4 = seq![zero] + p3;
    let p5 = seq![zero] + p4;
    let p6 = seq![none] + p5;
    let p7 = seq![style] + p6;
    assert(p7 =~= last_parts(shown));
    assert(join_spec(p1, comma) == shown);
    lemma_join_first(none, p1, comma);
    lemma_join_first(zero, p2, comma);
    lemma_join_first(zero, p3, comma);
    lemma_join_first(zero, p4, comma);
    lemma_join_first(none, p5, comma);
    lemma_join_first(style, p6, comma);
    assert(comma + join_spec(p7, comma) =~= ",Default,,0,0,0,,"@ + shown);
}

proof fn lemma_joined_parts(start: nat, end: nat, text: Seq<char>)
    ensures
        join_spec(
            event_parts(ass_timestamp_spec(start), ass_timestamp_spec(end)).push(
                escape_ass_spec(text),
            ),
            seq![','],
        ) == written_event(start, end, text),
{
    let first = seq![' ', '0'];
    let a = ass_timestamp_spec(start);
    let b = ass_timestamp_spec(end);
    let shown = escape_ass_spec(text);
    let comma = seq![','];
    let p7 = last_parts(shown);
    let p8 = seq![b] + p7;
    let p9 = seq![a] + p8;
    let p10 = seq![first] + p9;
    assert(p10 =~= event_parts(a, b).push(shown));
    lemma_last_parts(shown);
    lemma_join_first(b, p7, comma);
    lemma_join_first(a, p8, comma);
    lemma_join_first(first, p9, comma);
    let j7 = join_spec(p7, comma);
    let j8 = join_spec(p8, comma);
    let j9 = join_spec(p9, comma);
    assert(j8 =~= b + (comma + j7));
    assert(j9 =~= a + comma + j8);
    assert(first + comma + j9 =~= seq![' ', '0', ','] + a + comma + b + (comma + j7));
    assert(seq![' ', '0', ','] + a + comma + b + (",Default,,0,0,0,,"@ + shown)
        =~= written_event(start, end, text));
}

/// A line that was written for a text is read back as a cue with the same times, to the
/// nearest hundredth of a second, and with the text, given that plain numerals are read
/// as the nearest doubles.
pub proof fn law_written_events_read_back(start: nat, end: nat, text: Seq<char>)
    requires
        is_plain_text(text),
        trim_spec(escape_ass_spec(text)) == escape_ass_spec(text),
        centiseconds(start) * 10_000_000 <= MAX_NANOS,
        centiseconds(end) * 10_000_000 <= MAX_NANOS,
        forall|text: Seq<char>| #[trigger]
            plain_decimal(text) matches Some((digits, places)) ==> double_of_text(text) is Some
                && encodes(
                double_of_text(text)->0,
                nearest_double(digits, pow(10, places) as nat),
            ),
    ensures
        dialogue_line(start, end, text) == "Dialogue:"@ + written_event(start, end, text) + seq![
            '\n',
        ],
        dialogue_outcome(Seq::empty(), written_event(start, end, text)) == Outcome::Value(
            CueModel {
                start: (centiseconds(start) * 10_000_000) as nat,
                end: (centiseconds(end) * 10_000_000) as nat,
                text: trim_spec(text),
            },
        ),
{
    let a = ass_timestamp_spec(start);
    let b = ass_timestamp_spec(end);
    assert(dialogue_line(start, end, text) =~= "Dialogue:"@ + written_event(start, end, text)
        + seq!['\n']) by {
        reveal_strlit("Dialogue:");
        reveal_strlit("Dialogue: 0,");
        assert("Dialogue: 0,"@ =~= "Dialogue:"@ + seq![' ', '0', ',']);
    }
    let parts = event_parts(a, b);
    lemma_stamp_is_plain(start);
    lemma_stamp_is_plain(end);
    assert forall|i: int| 0 <= i < parts.len() implies !has_char(#[trigger] parts[i], ',') by {
        if i == 1 {
            assert(parts[i] == a);
        } else if i == 2 {
            assert(parts[i] == b);
        }
    }
    law_timestamp_reads_back(start);
    law_timestamp_reads_back(end);
    lemma_joined_parts(start, end, text);
    law_events_are_read_by_their_fields(
        Seq::empty(),
        parts,
        escape_ass_spec(text),
        1,
        2,
        (centiseconds(start) * 10_000_000) as nat,
        (centiseconds(end) * 10_000_000) as nat,
    );
    law_escaped_text_shows_as_itself(text);
}

} // verus!
