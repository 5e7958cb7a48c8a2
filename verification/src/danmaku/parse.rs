//! Files of comments: Bilibili XML, JSON documents and JSON lines.
//!
//! A comment may name a time that no span can hold. The functions that read
//! whole files are stated for texts without such comments;
//! [`DanmakuTimeline::try_parse`] looks for them first and gives nothing where
//! it finds one.
use crate::danmaku::model::{
    decimal_color, mode_of_code, mode_of_text, rgb_color, should_skip_item_error, skips_item,
    law_color_words_hold_their_bytes, DanmakuColor, DanmakuError, DanmakuErrorModel, DanmakuItem, DanmakuMode, ItemModel, Result,
    DEFAULT_SOURCE_FONT_SIZE,
};
use crate::danmaku::timeline::{accepted, items_view, sorted_items, DanmakuTimeline};
use crate::float_bits::{
    double_of_text, parse_double_bits, parse_single_bits, single_of_text, Double, Single,
    SINGLE_ONE,
};
use crate::json::{
    find_first_member, first_member, json_document, members_model, names_model, parse_json,
    JsonModel, JsonValue, NumberModel,
};
use crate::num::{next_u64, to_next_u64};
use crate::text::{
    chars_eq_str, chars_of, contains_spec, decimal_spec, extend_str, has_char, join_spec,
    law_joined_pieces_are_told_apart, law_parse_of_decimal, law_parted_at_the_first_separator,
    law_trimming_takes_white_space, lemma_decimal_digits, lemma_no_char_is_found, is_digit, is_space, lines, lines_spec, lower_spec, parse_unsigned,
    parse_unsigned_spec, parts_view, push_decimal, replace, replace_spec, split, split_once,
    split_once_spec, split_spec, string_of, strip_prefix, strip_prefix_spec, to_lower, trim,
    trim_spec, trim_start, trim_start_spec, unsigned_part,
};
use vstd::prelude::*;
use vstd::slice::slice_subrange;

verus! {

broadcast use vstd::seq_lib::group_seq_properties;

// ---------------------------------------------------------------------------
// Outcomes
// ---------------------------------------------------------------------------

/// What comes of reading a text: a value, a refusal, or a time that no span can
/// hold.
pub enum DanmakuOutcome<T> {
    Value(T),
    Refused(DanmakuErrorModel),
    OutOfRange,
}

enum Reading<T> {
    Value(T),
    Refused(DanmakuError),
    OutOfRange,
}

spec fn item_read(reading: Reading<DanmakuItem>) -> DanmakuOutcome<ItemModel> {
    match reading {
        Reading::Value(item) => DanmakuOutcome::Value(item@),
        Reading::Refused(error) => DanmakuOutcome::Refused(error@),
        Reading::OutOfRange => DanmakuOutcome::OutOfRange,
    }
}

spec fn items_read(reading: Reading<Vec<DanmakuItem>>) -> DanmakuOutcome<Seq<ItemModel>> {
    match reading {
        Reading::Value(items) => DanmakuOutcome::Value(items_view(items@)),
        Reading::Refused(error) => DanmakuOutcome::Refused(error@),
        Reading::OutOfRange => DanmakuOutcome::OutOfRange,
    }
}

/// Whether a result is the timeline or the refusal of an outcome.
pub open spec fn settles(
    result: Result<DanmakuTimeline>,
    outcome: DanmakuOutcome<Seq<ItemModel>>,
) -> bool {
    match outcome {
        DanmakuOutcome::Value(items) => result is Ok && result->Ok_0@ == sorted_items(
            accepted(Seq::empty(), items),
        ),
        DanmakuOutcome::Refused(error) => result is Err && result->Err_0@ == error,
        DanmakuOutcome::OutOfRange => false,
    }
}

// ---------------------------------------------------------------------------
// Colours
// ---------------------------------------------------------------------------

/// The value of a hexadecimal digit, if it is one.
pub open spec fn hex_digit(c: char) -> Option<nat> {
    if '0' <= c && c <= '9' {
        Some((c as u32 - '0' as u32) as nat)
    } else if 'a' <= c && c <= 'f' {
        Some((c as u32 - 'a' as u32 + 10) as nat)
    } else if 'A' <= c && c <= 'F' {
        Some((c as u32 - 'A' as u32 + 10) as nat)
    } else {
        None
    }
}

/// The value of a row of hexadecimal digits, if it is one.
pub open spec fn hex_value(s: Seq<char>) -> Option<nat>
    decreases s.len(),
{
    if s.len() == 0 {
        Some(0)
    } else {
        match hex_value(s.drop_last()) {
            Some(value) => match hex_digit(s.last()) {
                Some(digit) => Some(value * 16 + digit),
                None => None,
            },
            None => None,
        }
    }
}

/// The 32-bit number that a hexadecimal numeral with an optional `+` stands
/// for.
pub open spec fn parse_hex_spec(s: Seq<char>) -> Option<u32> {
    let digits = unsigned_part(s);
    match hex_value(digits) {
        Some(value) => if digits.len() > 0 && value <= u32::MAX {
            Some(value as u32)
        } else {
            None
        },
        None => None,
    }
}

proof fn lemma_hex_value_grows(s: Seq<char>, n: int)
    requires
        0 <= n <= s.len(),
        hex_value(s) is Some,
    ensures
        hex_value(s.take(n)) is Some,
        hex_value(s.take(n))->0 <= hex_value(s)->0,
    decreases s.len(),
{
    if n < s.len() {
        lemma_hex_value_grows(s.drop_last(), n);
        assert(s.drop_last().take(n) =~= s.take(n));
    } else {
        assert(s.take(n) =~= s);
    }
}

fn parse_hex(s: &[char]) -> (result: Option<u32>)
    ensures
        result == parse_hex_spec(s@),
{
    let digits: &[char] = if s.len() > 0 && s[0] == '+' {
        assert(s@.subrange(1, s@.len() as int) =~= s@.skip(1));
        slice_subrange(s, 1, s.len())
    } else {
        s
    };
    if digits.len() == 0 {
        return None;
    }
    let mut value: u64 = 0;
    let mut i: usize = 0;
    while i < digits.len()
        invariant
            i <= digits@.len(),
            digits@ == unsigned_part(s@),
            value <= u32::MAX,
            hex_value(digits@.take(i as int)) == Some(value as nat),
        decreases digits@.len() - i,
    {
        let c = digits[i];
        let ghost longer = digits@.take(i as int + 1);
        assert(longer.drop_last() =~= digits@.take(i as int));
        assert(longer.last() == c);
        let digit: u64 = if '0' <= c && c <= '9' {
            (c as u32 - '0' as u32) as u64
        } else if 'a' <= c && c <= 'f' {
            (c as u32 - 'a' as u32) as u64 + 10
        } else if 'A' <= c && c <= 'F' {
            (c as u32 - 'A' as u32) as u64 + 10
        } else {
            proof {
                if hex_value(digits@) is Some {
                    lemma_hex_value_grows(digits@, i as int + 1);
                }
            }
            return None;
        };
        value = value * 16 + digit;
        if value > 0xffff_ffff {
            proof {
                if hex_value(digits@) is Some {
                    lemma_hex_value_grows(digits@, i as int + 1);
                }
            }
            return None;
        }
        i += 1;
    }
    assert(digits@.take(i as int) =~= digits@);
    Some(value as u32)
}

/// The colour behind `#`, with an optional `0x`.
pub open spec fn hash_color(hex: Seq<char>) -> Option<DanmakuColor> {
    let digits = match strip_prefix_spec(hex, "0x"@) {
        Some(rest) => rest,
        None => hex,
    };
    match parse_hex_spec(digits) {
        Some(value) => Some(decimal_color(value)),
        None => None,
    }
}

/// The bytes of some written numbers, if each is one.
pub open spec fn bytes_of(parts: Seq<Seq<char>>) -> Option<Seq<nat>>
    decreases parts.len(),
{
    if parts.len() == 0 {
        Some(Seq::empty())
    } else {
        match bytes_of(parts.drop_last()) {
            Some(bytes) => match parse_unsigned_spec(trim_spec(parts.last()), 255) {
                Some(byte) => Some(bytes.push(byte)),
                None => None,
            },
            None => None,
        }
    }
}

/// The text between `rgb(` and `)`, if it is all between them.
pub open spec fn inside_rgb(s: Seq<char>) -> Option<Seq<char>> {
    match strip_prefix_spec(s, "rgb("@) {
        Some(rest) => if rest.len() > 0 && rest.last() == ')' {
            Some(rest.drop_last())
        } else {
            None
        },
        None => None,
    }
}

/// The colour that a text names: `#` and hexadecimal digits, `rgb(..)` with at
/// least three bytes, or a decimal number.
pub open spec fn color_of_text(text: Seq<char>) -> Option<DanmakuColor> {
    let value = trim_spec(text);
    if value.len() > 0 && value[0] == '#' {
        hash_color(value.skip(1))
    } else {
        let number = match parse_unsigned_spec(value, u32::MAX as nat) {
            Some(number) => Some(decimal_color(number as u32)),
            None => None,
        };
        match inside_rgb(value) {
            Some(inner) => match bytes_of(split_spec(inner, seq![','])) {
                Some(bytes) => if bytes.len() >= 3 {
                    Some(rgb_color(bytes[0], bytes[1], bytes[2]))
                } else {
                    number
                },
                None => None,
            },
            None => number,
        }
    }
}

spec fn bytes_view(bytes: Seq<u8>) -> Seq<nat> {
    Seq::new(bytes.len(), |i: int| bytes[i] as nat)
}

proof fn lemma_bytes_stop(parts: Seq<Seq<char>>, n: int)
    requires
        0 <= n <= parts.len(),
        bytes_of(parts.take(n)) is None,
    ensures
        bytes_of(parts) is None,
    decreases parts.len(),
{
    if n < parts.len() {
        assert(parts.drop_last().take(n) =~= parts.take(n));
        lemma_bytes_stop(parts.drop_last(), n);
    } else {
        assert(parts.take(n) =~= parts);
    }
}

fn read_bytes(parts: &Vec<&[char]>) -> (result: Option<Vec<u8>>)
    ensures
        match bytes_of(parts_view(parts@)) {
            Some(bytes) => result is Some && bytes_view(result->0@) == bytes,
            None => result is None,
        },
{
    let ghost views = parts_view(parts@);
    let mut bytes: Vec<u8> = Vec::new();
    let mut i: usize = 0;
    assert(bytes_view(bytes@) =~= Seq::<nat>::empty());
    while i < parts.len()
        invariant
            i <= parts@.len(),
            views == parts_view(parts@),
            bytes_of(views.take(i as int)) == Some(bytes_view(bytes@)),
        decreases parts@.len() - i,
    {
        assert(views.take(i as int + 1).drop_last() =~= views.take(i as int));
        assert(views.take(i as int + 1).last() == parts@[i as int]@);
        match parse_unsigned(trim(parts[i]), 255) {
            Some(byte) => {
                let ghost before = bytes_view(bytes@);
                bytes.push(byte as u8);
                assert(bytes_view(bytes@) =~= before.push(byte as nat));
            },
            None => {
                proof {
                    lemma_bytes_stop(views, i as int + 1);
                }
                return None;
            },
        }
        i += 1;
    }
    assert(views.take(i as int) =~= views);
    Some(bytes)
}

/// Reads the colour that a text names.
pub fn parse_color_string(value: &str) -> (result: Option<DanmakuColor>)
    ensures
        result == color_of_text(value@),
{
    let chars = chars_of(value);
    let text = trim(&chars);
    if text.len() > 0 && text[0] == '#' {
        let hex = slice_subrange(text, 1, text.len());
        assert(hex@ =~= text@.skip(1));
        let prefix = chars_of("0x");
        let digits = match strip_prefix(hex, &prefix) {
            Some(rest) => rest,
            None => hex,
        };
        return match parse_hex(digits) {
            Some(number) => Some(DanmakuColor::from_decimal(number)),
            None => None,
        };
    }
    let head = chars_of("rgb(");
    if let Some(rest) = strip_prefix(text, &head) {
        if rest.len() > 0 && rest[rest.len() - 1] == ')' {
            let inner = slice_subrange(rest, 0, rest.len() - 1);
            assert(inner@ =~= rest@.drop_last());
            let comma: Vec<char> = vec![','];
            assert(comma@ =~= seq![',']);
            let parts = split(inner, &comma);
            match read_bytes(&parts) {
                Some(bytes) => {
                    assert(bytes_view(bytes@).len() == bytes@.len());
                    if bytes.len() >= 3 {
                        assert(bytes_view(bytes@)[0] == bytes@[0]);
                        assert(bytes_view(bytes@)[1] == bytes@[1]);
                        assert(bytes_view(bytes@)[2] == bytes@[2]);
                        return Some(DanmakuColor::rgb_u8(bytes[0], bytes[1], bytes[2]));
                    }
                },
                None => {
                    return None;
                },
            }
        }
    }
    match parse_unsigned(text, 0xffff_ffff) {
        Some(number) => Some(DanmakuColor::from_decimal(number as u32)),
        None => None,
    }
}

// ---------------------------------------------------------------------------
// Bilibili XML
// ---------------------------------------------------------------------------

/// The text with the five named entities resolved, one after the other.
pub open spec fn decode_spec(text: Seq<char>) -> Seq<char> {
    let a = replace_spec(text, "&lt;"@, seq!['<']);
    let b = replace_spec(a, "&gt;"@, seq!['>']);
    let c = replace_spec(b, "&amp;"@, seq!['&']);
    let d = replace_spec(c, "&quot;"@, seq!['"']);
    replace_spec(d, "&apos;"@, seq!['\''])
}

fn replace_entity(text: &[char], entity: &str, by: char) -> (result: Vec<char>)
    requires
        entity@.len() > 0,
    ensures
        result@ == replace_spec(text@, entity@, seq![by]),
{
    let pattern = chars_of(entity);
    let with: Vec<char> = vec![by];
    assert(with@ =~= seq![by]);
    replace(text, &pattern, &with)
}

/// Resolves the five named entities.
pub fn decode_xml_entities(text: &[char]) -> (result: Vec<char>)
    ensures
        result@ == decode_spec(text@),
{
    proof {
        reveal_strlit("&lt;");
        reveal_strlit("&gt;");
        reveal_strlit("&amp;");
        reveal_strlit("&quot;");
        reveal_strlit("&apos;");
    }
    let a = replace_entity(text, "&lt;", '<');
    let b = replace_entity(&a, "&gt;", '>');
    let c = replace_entity(&b, "&amp;", '&');
    let d = replace_entity(&c, "&quot;", '"');
    replace_entity(&d, "&apos;", '\'')
}

/// The list of fields and the text of a comment element, if it has both.
pub open spec fn element_parts(segment: Seq<char>) -> Option<(Seq<char>, Seq<char>)> {
    match split_once_spec(segment, "p=\""@) {
        Some((_, rest)) => match split_once_spec(rest, seq!['"']) {
            Some((list, _)) => match split_once_spec(segment, seq!['>']) {
                Some((_, body)) => match split_once_spec(body, "</d>"@) {
                    Some((text, _)) => Some((list, text)),
                    None => None,
                },
                None => None,
            },
            None => None,
        },
        None => None,
    }
}

/// A field as a number, if it is there and is one.
pub open spec fn field_number(fields: Seq<Seq<char>>, index: int, limit: nat) -> Option<nat> {
    if index < fields.len() {
        parse_unsigned_spec(fields[index], limit)
    } else {
        None
    }
}

/// The number, or a default.
pub open spec fn number_or(number: Option<nat>, default: nat) -> nat {
    match number {
        Some(value) => value,
        None => default,
    }
}

/// The comment of an element: its fields are time, mode, font size, colour and,
/// as the eighth, id. There is none for an element without fields, text or time,
/// or of the special mode.
pub open spec fn element_outcome(segment: Seq<char>, index: nat) -> Option<
    DanmakuOutcome<ItemModel>,
> {
    match element_parts(segment) {
        None => None,
        Some((list, raw)) => {
            let fields = split_spec(list, seq![',']);
            let text = decode_spec(raw);
            let mode = mode_of_code(number_or(field_number(fields, 1, u32::MAX as nat), 1) as u32);
            if trim_spec(text).len() == 0 || mode == DanmakuMode::Special || double_of_text(
                fields[0],
            ) is None {
                None
            } else {
                match (Double { bits: double_of_text(fields[0])->0 }).nanos_from_zero() {
                    None => Some(DanmakuOutcome::OutOfRange),
                    Some(pts) => Some(
                        DanmakuOutcome::Value(
                            ItemModel {
                                id: number_or(
                                    field_number(fields, 7, u64::MAX as nat),
                                    next_u64(index) as nat,
                                ) as u64,
                                pts,
                                text,
                                mode,
                                font_size: if fields.len() > 2 && single_of_text(fields[2]) is Some {
                                    Single { bits: single_of_text(fields[2])->0 }
                                } else {
                                    Single { bits: DEFAULT_SOURCE_FONT_SIZE }
                                },
                                color: decimal_color(
                                    number_or(
                                        field_number(fields, 3, u32::MAX as nat),
                                        0xff_ffff,
                                    ) as u32,
                                ),
                                opacity: Single { bits: SINGLE_ONE },
                                is_self: false,
                            },
                        ),
                    ),
                }
            }
        },
    }
}

/// The comments of some elements, in their order.
pub open spec fn elements_outcome(segments: Seq<Seq<char>>) -> DanmakuOutcome<Seq<ItemModel>>
    decreases segments.len(),
{
    if segments.len() == 0 {
        DanmakuOutcome::Value(Seq::empty())
    } else {
        match elements_outcome(segments.drop_last()) {
            DanmakuOutcome::Value(items) => match element_outcome(
                segments.last(),
                (segments.len() - 1) as nat,
            ) {
                None => DanmakuOutcome::Value(items),
                Some(DanmakuOutcome::Value(item)) => DanmakuOutcome::Value(items.push(item)),
                Some(DanmakuOutcome::Refused(error)) => DanmakuOutcome::Refused(error),
                Some(DanmakuOutcome::OutOfRange) => DanmakuOutcome::OutOfRange,
            },
            other => other,
        }
    }
}

/// The comments of an XML text, in the order of the text.
pub open spec fn xml_outcome(input: Seq<char>) -> DanmakuOutcome<Seq<ItemModel>> {
    elements_outcome(split_spec(input, "<d "@).skip(1))
}

proof fn lemma_elements_stop(segments: Seq<Seq<char>>, n: int)
    requires
        0 <= n <= segments.len(),
        !(elements_outcome(segments.take(n)) is Value),
    ensures
        elements_outcome(segments) == elements_outcome(segments.take(n)),
    decreases segments.len(),
{
    if n < segments.len() {
        assert(segments.drop_last().take(n) =~= segments.take(n));
        lemma_elements_stop(segments.drop_last(), n);
    } else {
        assert(segments.take(n) =~= segments);
    }
}

/// No element is ever refused: one that cannot be read is passed over.
pub proof fn law_elements_are_never_refused(segments: Seq<Seq<char>>)
    ensures
        !(elements_outcome(segments) is Refused),
    decreases segments.len(),
{
    if segments.len() > 0 {
        law_elements_are_never_refused(segments.drop_last());
    }
}

fn split_element(segment: &[char]) -> (result: Option<(&[char], &[char])>)
    ensures
        match element_parts(segment@) {
            Some(parts) => result matches Some(found) && (found.0@, found.1@) == parts,
            None => result is None,
        },
{
    let attribute = chars_of("p=\"");
    let close = chars_of("</d>");
    let quote: Vec<char> = vec!['"'];
    let angle: Vec<char> = vec!['>'];
    assert(quote@ =~= seq!['"']);
    assert(angle@ =~= seq!['>']);
    let list = match split_once(segment, &attribute) {
        Some((_, rest)) => match split_once(rest, &quote) {
            Some((list, _)) => list,
            None => {
                return None;
            },
        },
        None => {
            return None;
        },
    };
    match split_once(segment, &angle) {
        Some((_, body)) => match split_once(body, &close) {
            Some((text, _)) => Some((list, text)),
            None => None,
        },
        None => None,
    }
}

fn parse_field(fields: &Vec<&[char]>, index: usize, limit: u64) -> (result: Option<u64>)
    ensures
        match field_number(parts_view(fields@), index as int, limit as nat) {
            Some(value) => result matches Some(number) && number == value,
            None => result is None,
        },
{
    if index < fields.len() {
        assert(parts_view(fields@)[index as int] == fields@[index as int]@);
        parse_unsigned(fields[index], limit)
    } else {
        None
    }
}

fn parse_element(segment: &[char], index: usize) -> (result: Option<Reading<DanmakuItem>>)
    ensures
        match element_outcome(segment@, index as nat) {
            Some(outcome) => result is Some && item_read(result->0) == outcome,
            None => result is None,
        },
{
    let (list, raw) = match split_element(segment) {
        Some(parts) => parts,
        None => {
            return None;
        },
    };
    let comma: Vec<char> = vec![','];
    assert(comma@ =~= seq![',']);
    let fields = split(list, &comma);
    let ghost views = parts_view(fields@);
    assert(views.len() == fields@.len());
    assert(forall|i: int| 0 <= i < views.len() ==> views[i] == fields@[i]@);
    let text = decode_xml_entities(raw);
    if trim(&text).len() == 0 {
        return None;
    }
    let mode_code: u32 = match parse_field(&fields, 1, 0xffff_ffff) {
        Some(code) => code as u32,
        None => 1,
    };
    let mode = DanmakuMode::from_bilibili_mode(mode_code);
    if mode == DanmakuMode::Special {
        return None;
    }
    let time = string_of(fields[0]);
    let pts = match parse_double_bits(&time) {
        Some(bits) => match (Double { bits }).to_span_from_zero() {
            Some(pts) => pts,
            None => {
                return Some(Reading::OutOfRange);
            },
        },
        None => {
            return None;
        },
    };
    let id: u64 = match parse_field(&fields, 7, u64::MAX) {
        Some(id) => id,
        None => to_next_u64(index),
    };
    let mut font_size = Single { bits: DEFAULT_SOURCE_FONT_SIZE };
    if fields.len() > 2 {
        let size = string_of(fields[2]);
        if let Some(bits) = parse_single_bits(&size) {
            font_size = Single { bits };
        }
    }
    let color: u32 = match parse_field(&fields, 3, 0xffff_ffff) {
        Some(color) => color as u32,
        None => 0xff_ffff,
    };
    Some(
        Reading::Value(
            DanmakuItem {
                id,
                pts,
                text: string_of(&text),
                mode,
                font_size,
                color: DanmakuColor::from_decimal(color),
                opacity: Single { bits: SINGLE_ONE },
                is_self: false,
            },
        ),
    )
}

fn read_xml(input: &[char]) -> (result: Reading<Vec<DanmakuItem>>)
    ensures
        items_read(result) == xml_outcome(input@),
{
    proof {
        reveal_strlit("<d ");
    }
    let open = chars_of("<d ");
    let pieces = split(input, &open);
    let ghost views = parts_view(pieces@);
    let ghost segments = views.skip(1);
    assert(views.len() == pieces@.len());
    let mut items: Vec<DanmakuItem> = Vec::new();
    assert(items_view(items@) =~= Seq::<ItemModel>::empty());
    let mut i: usize = 1;
    while i < pieces.len()
        invariant
            1 <= i <= pieces@.len(),
            views == parts_view(pieces@),
            segments == views.skip(1),
            xml_outcome(input@) == elements_outcome(segments),
            elements_outcome(segments.take(i - 1)) == DanmakuOutcome::Value(items_view(items@)),
        decreases pieces@.len() - i,
    {
        let ghost longer = segments.take(i as int);
        assert(longer.drop_last() =~= segments.take(i - 1));
        assert(longer.last() == pieces@[i as int]@);
        match parse_element(pieces[i], i - 1) {
            None => {},
            Some(Reading::Value(item)) => {
                let ghost before = items_view(items@);
                items.push(item);
                assert(items_view(items@) =~= before.push(item@));
            },
            Some(Reading::Refused(error)) => {
                proof {
                    lemma_elements_stop(segments, i as int);
                }
                return Reading::Refused(error);
            },
            Some(Reading::OutOfRange) => {
                proof {
                    lemma_elements_stop(segments, i as int);
                }
                return Reading::OutOfRange;
            },
        }
        i += 1;
    }
    assert(segments.take(i - 1) =~= segments);
    Reading::Value(items)
}

/// Reads the comments of an XML text.
pub fn parse_bilibili_xml(input: &str) -> (result: Result<Vec<DanmakuItem>>)
    requires
        !(xml_outcome(input@) is OutOfRange),
    ensures
        result is Ok,
        xml_outcome(input@) == DanmakuOutcome::Value(items_view(result->Ok_0@)),
{
    let chars = chars_of(input);
    proof {
        law_elements_are_never_refused(split_spec(input@, "<d "@).skip(1));
    }
    match read_xml(&chars) {
        Reading::Value(items) => Ok(items),
        Reading::Refused(error) => Err(error),
        Reading::OutOfRange => Err(DanmakuError::MissingText),
    }
}

// ---------------------------------------------------------------------------
// JSON comments
// ---------------------------------------------------------------------------

/// The text in the first member with one of some names: a text, or the text of a
/// number.
pub open spec fn string_member(
    members: Seq<(Seq<char>, JsonModel)>,
    names: Seq<Seq<char>>,
) -> Option<Seq<char>> {
    match first_member(members, names) {
        Some(JsonModel::Text(text)) => Some(text),
        Some(JsonModel::Number(number)) => Some(number.text),
        _ => None,
    }
}

/// The pattern of the number in the first member with one of some names: a
/// number, or a text that is one.
pub open spec fn numeric_member(
    members: Seq<(Seq<char>, JsonModel)>,
    names: Seq<Seq<char>>,
) -> Option<u64> {
    match first_member(members, names) {
        Some(JsonModel::Number(number)) => number.double_bits,
        Some(JsonModel::Text(text)) => double_of_text(text),
        _ => None,
    }
}

/// The truth in the first member with one of some names: a truth value, a number
/// that is a whole one above zero or not, or one of three words for the truth.
pub open spec fn bool_member(
    members: Seq<(Seq<char>, JsonModel)>,
    names: Seq<Seq<char>>,
) -> Option<bool> {
    match first_member(members, names) {
        Some(JsonModel::Bool(value)) => Some(value),
        Some(JsonModel::Number(number)) => Some(
            number.unsigned is Some && number.unsigned->0 != 0,
        ),
        Some(JsonModel::Text(text)) => if text == "true"@ || text == "1"@ || text == "yes"@ {
            Some(true)
        } else {
            None
        },
        _ => None,
    }
}

/// The colour that a value names.
pub open spec fn color_of_value(value: JsonModel) -> Option<DanmakuColor> {
    match value {
        JsonModel::Number(number) => match number.unsigned {
            Some(word) => Some(decimal_color((word % 0x1_0000_0000) as u32)),
            None => None,
        },
        JsonModel::Text(text) => color_of_text(text),
        _ => None,
    }
}

/// The mode that a comment names: by a name, else by a code.
pub open spec fn mode_of_members(members: Seq<(Seq<char>, JsonModel)>) -> DanmakuMode {
    match string_member(members, seq!["type"@, "mode"@, "y"@]) {
        Some(text) => mode_of_text(text),
        None => match numeric_member(members, seq!["type_code"@, "mode_code"@]) {
            Some(bits) => mode_of_code((Double { bits }).whole_part(u32::MAX as nat) as u32),
            None => DanmakuMode::Scroll,
        },
    }
}

/// The pattern of the double 25.
pub const DOUBLE_25: u64 = 0x4039_0000_0000_0000;

/// The pattern of the double 1.
pub const DOUBLE_ONE: u64 = 0x3ff0_0000_0000_0000;

/// The pattern, or a default.
pub open spec fn bits_or(bits: Option<u64>, default: u64) -> Double {
    match bits {
        Some(bits) => Double { bits },
        None => Double { bits: default },
    }
}

/// The comment of an object.
pub open spec fn members_outcome(members: Seq<(Seq<char>, JsonModel)>, fallback_id: u64) ->
    DanmakuOutcome<ItemModel> {
    match string_member(members, seq!["content"@, "text"@, "c"@]) {
        None => DanmakuOutcome::Refused(DanmakuErrorModel::MissingText),
        Some(text) => match bits_or(
            numeric_member(members, seq!["time"@, "t"@]),
            0,
        ).nanos_from_zero() {
            None => DanmakuOutcome::OutOfRange,
            Some(pts) => DanmakuOutcome::Value(
                ItemModel {
                    id: match numeric_member(members, seq!["id"@]) {
                        Some(bits) => (Double { bits }).whole_part(u64::MAX as nat) as u64,
                        None => fallback_id,
                    },
                    pts,
                    text,
                    mode: mode_of_members(members),
                    font_size: bits_or(
                        numeric_member(members, seq!["font_size"@, "size"@, "s"@]),
                        DOUBLE_25,
                    ).narrowed(),
                    color: match first_member(members, seq!["color"@, "r"@]) {
                        Some(value) => match color_of_value(value) {
                            Some(color) => color,
                            None => rgb_color(255, 255, 255),
                        },
                        None => rgb_color(255, 255, 255),
                    },
                    opacity: bits_or(
                        numeric_member(members, seq!["opacity"@, "alpha"@, "a"@]),
                        DOUBLE_ONE,
                    ).narrowed(),
                    is_self: bool_member(members, seq!["is_me"@, "self"@, "mine"@]) == Some(true),
                },
            ),
        },
    }
}

/// The comment of a value, which has to be an object.
pub open spec fn json_item_outcome(value: JsonModel, fallback_id: u64) -> DanmakuOutcome<
    ItemModel,
> {
    match value {
        JsonModel::Object(members) => members_outcome(members, fallback_id),
        _ => DanmakuOutcome::Refused(DanmakuErrorModel::InvalidField("comment"@)),
    }
}

fn string_field(members: &[(String, JsonValue)], names: &[&str]) -> (result: Option<String>)
    ensures
        match string_member(members_model(members@), names_model(names@)) {
            Some(text) => result is Some && result->0@ == text,
            None => result is None,
        },
{
    match find_first_member(members, names) {
        Some(JsonValue::Text(text)) => Some(text.clone()),
        Some(JsonValue::Number(number)) => Some(number.text.clone()),
        _ => None,
    }
}

fn numeric_field(members: &[(String, JsonValue)], names: &[&str]) -> (result: Option<u64>)
    ensures
        result == numeric_member(members_model(members@), names_model(names@)),
{
    match find_first_member(members, names) {
        Some(JsonValue::Number(number)) => number.double_bits,
        Some(JsonValue::Text(text)) => parse_double_bits(text),
        _ => None,
    }
}

fn bool_field(members: &[(String, JsonValue)], names: &[&str]) -> (result: Option<bool>)
    ensures
        result == bool_member(members_model(members@), names_model(names@)),
{
    match find_first_member(members, names) {
        Some(JsonValue::Bool(value)) => Some(*value),
        Some(JsonValue::Number(number)) => Some(
            match number.unsigned {
                Some(word) => word != 0,
                None => false,
            },
        ),
        Some(JsonValue::Text(text)) => {
            let chars = chars_of(text);
            if chars_eq_str(&chars, "true") || chars_eq_str(&chars, "1") || chars_eq_str(
                &chars,
                "yes",
            ) {
                Some(true)
            } else {
                None
            }
        },
        _ => None,
    }
}

fn parse_color_value(value: &JsonValue) -> (result: Option<DanmakuColor>)
    ensures
        result == color_of_value(value.model()),
{
    match value {
        JsonValue::Number(number) => match number.unsigned {
            Some(word) => Some(DanmakuColor::from_decimal((word % 0x1_0000_0000) as u32)),
            None => None,
        },
        JsonValue::Text(text) => parse_color_string(text),
        _ => None,
    }
}

fn read_mode(members: &[(String, JsonValue)]) -> (result: DanmakuMode)
    ensures
        result == mode_of_members(members_model(members@)),
{
    let names: Vec<&str> = vec!["type", "mode", "y"];
    let codes: Vec<&str> = vec!["type_code", "mode_code"];
    assert(names_model(names@) =~= seq!["type"@, "mode"@, "y"@]);
    assert(names_model(codes@) =~= seq!["type_code"@, "mode_code"@]);
    match string_field(members, &names) {
        Some(text) => DanmakuMode::from_text(&text),
        None => match numeric_field(members, &codes) {
            Some(bits) => DanmakuMode::from_bilibili_mode(
                (Double { bits }).to_whole(0xffff_ffff) as u32,
            ),
            None => DanmakuMode::Scroll,
        },
    }
}

fn read_color(members: &[(String, JsonValue)]) -> (result: DanmakuColor)
    ensures
        result == (match first_member(members_model(members@), seq!["color"@, "r"@]) {
            Some(value) => match color_of_value(value) {
                Some(color) => color,
                None => rgb_color(255, 255, 255),
            },
            None => rgb_color(255, 255, 255),
        }),
{
    let names: Vec<&str> = vec!["color", "r"];
    assert(names_model(names@) =~= seq!["color"@, "r"@]);
    match find_first_member(members, &names) {
        Some(value) => match parse_color_value(value) {
            Some(color) => color,
            None => DanmakuColor::white(),
        },
        None => DanmakuColor::white(),
    }
}

fn or_default(bits: Option<u64>, default: u64) -> (result: Double)
    ensures
        result == bits_or(bits, default),
{
    match bits {
        Some(bits) => Double { bits },
        None => Double { bits: default },
    }
}

fn read_text(members: &[(String, JsonValue)]) -> (result: Option<String>)
    ensures
        match string_member(members_model(members@), seq!["content"@, "text"@, "c"@]) {
            Some(text) => result is Some && result->0@ == text,
            None => result is None,
        },
{
    let names: Vec<&str> = vec!["content", "text", "c"];
    assert(names_model(names@) =~= seq!["content"@, "text"@, "c"@]);
    string_field(members, &names)
}

fn read_time(members: &[(String, JsonValue)]) -> (result: Double)
    ensures
        result == bits_or(numeric_member(members_model(members@), seq!["time"@, "t"@]), 0),
{
    let names: Vec<&str> = vec!["time", "t"];
    assert(names_model(names@) =~= seq!["time"@, "t"@]);
    or_default(numeric_field(members, &names), 0)
}

fn read_id(members: &[(String, JsonValue)], fallback_id: u64) -> (result: u64)
    ensures
        result == (match numeric_member(members_model(members@), seq!["id"@]) {
            Some(bits) => (Double { bits }).whole_part(u64::MAX as nat) as u64,
            None => fallback_id,
        }),
{
    let names: Vec<&str> = vec!["id"];
    assert(names_model(names@) =~= seq!["id"@]);
    match numeric_field(members, &names) {
        Some(bits) => (Double { bits }).to_whole(u64::MAX),
        None => fallback_id,
    }
}

fn read_font_size(members: &[(String, JsonValue)]) -> (result: Single)
    ensures
        result == bits_or(
            numeric_member(members_model(members@), seq!["font_size"@, "size"@, "s"@]),
            DOUBLE_25,
        ).narrowed(),
{
    let names: Vec<&str> = vec!["font_size", "size", "s"];
    assert(names_model(names@) =~= seq!["font_size"@, "size"@, "s"@]);
    or_default(numeric_field(members, &names), DOUBLE_25).narrow()
}

fn read_opacity(members: &[(String, JsonValue)]) -> (result: Single)
    ensures
        result == bits_or(
            numeric_member(members_model(members@), seq!["opacity"@, "alpha"@, "a"@]),
            DOUBLE_ONE,
        ).narrowed(),
{
    let names: Vec<&str> = vec!["opacity", "alpha", "a"];
    assert(names_model(names@) =~= seq!["opacity"@, "alpha"@, "a"@]);
    or_default(numeric_field(members, &names), DOUBLE_ONE).narrow()
}

fn read_is_self(members: &[(String, JsonValue)]) -> (result: bool)
    ensures
        result == (bool_member(members_model(members@), seq!["is_me"@, "self"@, "mine"@]) == Some(
            true,
        )),
{
    let names: Vec<&str> = vec!["is_me", "self", "mine"];
    assert(names_model(names@) =~= seq!["is_me"@, "self"@, "mine"@]);
    match bool_field(members, &names) {
        Some(value) => value,
        None => false,
    }
}

fn item_from_members(members: &[(String, JsonValue)], fallback_id: u64) -> (result: Reading<
    DanmakuItem,
>)
    ensures
        item_read(result) == members_outcome(members_model(members@), fallback_id),
{
    let text = match read_text(members) {
        Some(text) => text,
        None => {
            return Reading::Refused(DanmakuError::MissingText);
        },
    };
    let pts = match read_time(members).to_span_from_zero() {
        Some(pts) => pts,
        None => {
            return Reading::OutOfRange;
        },
    };
    Reading::Value(
        DanmakuItem {
            id: read_id(members, fallback_id),
            pts,
            text,
            mode: read_mode(members),
            font_size: read_font_size(members),
            color: read_color(members),
            opacity: read_opacity(members),
            is_self: read_is_self(members),
        },
    )
}

fn item_from_json_value(value: &JsonValue, fallback_id: u64) -> (result: Reading<DanmakuItem>)
    ensures
        item_read(result) == json_item_outcome(value.model(), fallback_id),
{
    match value {
        JsonValue::Object(members) => {
            assert(members_model(members@) =~= value.model()->Object_0);
            item_from_members(members.as_slice(), fallback_id)
        },
        _ => Reading::Refused(DanmakuError::InvalidField("comment".to_owned())),
    }
}

// ---------------------------------------------------------------------------
// JSON documents
// ---------------------------------------------------------------------------

/// The values that should be comments: those of the document if it is an array,
/// else those of its member `comments`, `danmaku` or `items`.
pub open spec fn comments_of(document: JsonModel) -> core::result::Result<
    Seq<JsonModel>,
    DanmakuErrorModel,
> {
    match document {
        JsonModel::Array(items) => Ok(items),
        JsonModel::Object(members) => match first_member(
            members,
            seq!["comments"@, "danmaku"@, "items"@],
        ) {
            Some(JsonModel::Array(items)) => Ok(items),
            _ => Err(DanmakuErrorModel::InvalidField("comments"@)),
        },
        _ => Err(DanmakuErrorModel::InvalidField("json root"@)),
    }
}

/// The comments so far and what comes of one more.
pub open spec fn join_item(
    before: DanmakuOutcome<Seq<ItemModel>>,
    item: DanmakuOutcome<ItemModel>,
) -> DanmakuOutcome<Seq<ItemModel>> {
    match before {
        DanmakuOutcome::Value(items) => match item {
            DanmakuOutcome::Value(item) => DanmakuOutcome::Value(items.push(item)),
            DanmakuOutcome::Refused(error) => if skips_item(error) {
                before
            } else {
                DanmakuOutcome::Refused(error)
            },
            DanmakuOutcome::OutOfRange => DanmakuOutcome::OutOfRange,
        },
        other => other,
    }
}

/// The comments of some values. A value that is no comment is passed over.
pub open spec fn values_outcome(values: Seq<JsonModel>) -> DanmakuOutcome<Seq<ItemModel>>
    decreases values.len(),
{
    if values.len() == 0 {
        DanmakuOutcome::Value(Seq::empty())
    } else {
        join_item(
            values_outcome(values.drop_last()),
            json_item_outcome(values.last(), next_u64((values.len() - 1) as nat)),
        )
    }
}

/// The comments of a document that has been read.
pub open spec fn document_outcome(document: core::result::Result<JsonModel, Seq<char>>) ->
    DanmakuOutcome<Seq<ItemModel>> {
    match document {
        Err(message) => DanmakuOutcome::Refused(DanmakuErrorModel::Parse(message)),
        Ok(value) => match comments_of(value) {
            Ok(values) => values_outcome(values),
            Err(error) => DanmakuOutcome::Refused(error),
        },
    }
}

/// The comments of a JSON text, in the order of the text.
pub open spec fn json_outcome(input: Seq<char>) -> DanmakuOutcome<Seq<ItemModel>> {
    document_outcome(json_document(input))
}

/// The comments so far and what comes of one more line, which is the one with
/// this number and has been read as a document.
pub open spec fn line_outcome(
    before: DanmakuOutcome<Seq<ItemModel>>,
    number: nat,
    document: core::result::Result<JsonModel, Seq<char>>,
) -> DanmakuOutcome<Seq<ItemModel>> {
    match before {
        DanmakuOutcome::Value(items) => match document {
            Err(message) => DanmakuOutcome::Refused(
                DanmakuErrorModel::Parse("line "@ + decimal_spec(number) + ": "@ + message),
            ),
            Ok(value) => join_item(before, json_item_outcome(value, next_u64(items.len()))),
        },
        other => other,
    }
}

/// The comments of some lines. A blank line is passed over.
pub open spec fn json_lines_outcome(lines: Seq<Seq<char>>) -> DanmakuOutcome<Seq<ItemModel>>
    decreases lines.len(),
{
    if lines.len() == 0 {
        DanmakuOutcome::Value(Seq::empty())
    } else {
        let before = json_lines_outcome(lines.drop_last());
        let line = trim_spec(lines.last());
        if line.len() == 0 {
            before
        } else {
            line_outcome(before, lines.len(), json_document(line))
        }
    }
}

proof fn lemma_values_stop(values: Seq<JsonModel>, n: int)
    requires
        0 <= n <= values.len(),
        !(values_outcome(values.take(n)) is Value),
    ensures
        values_outcome(values) == values_outcome(values.take(n)),
    decreases values.len(),
{
    if n < values.len() {
        assert(values.drop_last().take(n) =~= values.take(n));
        lemma_values_stop(values.drop_last(), n);
    } else {
        assert(values.take(n) =~= values);
    }
}

proof fn lemma_json_lines_stop(lines: Seq<Seq<char>>, n: int)
    requires
        0 <= n <= lines.len(),
        !(json_lines_outcome(lines.take(n)) is Value),
    ensures
        json_lines_outcome(lines) == json_lines_outcome(lines.take(n)),
    decreases lines.len(),
{
    if n < lines.len() {
        assert(lines.drop_last().take(n) =~= lines.take(n));
        lemma_json_lines_stop(lines.drop_last(), n);
    } else {
        assert(lines.take(n) =~= lines);
    }
}

/// The models of values.
spec fn values_model(values: Seq<JsonValue>) -> Seq<JsonModel> {
    Seq::new(values.len(), |i: int| values[i].model())
}

fn read_values(values: &[JsonValue]) -> (result: Reading<Vec<DanmakuItem>>)
    ensures
        items_read(result) == values_outcome(values_model(values@)),
{
    let ghost models = values_model(values@);
    let mut items: Vec<DanmakuItem> = Vec::new();
    assert(items_view(items@) =~= Seq::<ItemModel>::empty());
    let mut i: usize = 0;
    while i < values.len()
        invariant
            i <= values@.len(),
            models == values_model(values@),
            values_outcome(models.take(i as int)) == DanmakuOutcome::Value(items_view(items@)),
        decreases values@.len() - i,
    {
        let ghost longer = models.take(i as int + 1);
        assert(longer.drop_last() =~= models.take(i as int));
        assert(longer.last() == values@[i as int].model());
        match item_from_json_value(&values[i], to_next_u64(i)) {
            Reading::Value(item) => {
                let ghost before = items_view(items@);
                items.push(item);
                assert(items_view(items@) =~= before.push(item@));
            },
            Reading::Refused(error) => {
                if !should_skip_item_error(&error) {
                    proof {
                        lemma_values_stop(models, i as int + 1);
                    }
                    return Reading::Refused(error);
                }
            },
            Reading::OutOfRange => {
                proof {
                    lemma_values_stop(models, i as int + 1);
                }
                return Reading::OutOfRange;
            },
        }
        i += 1;
    }
    assert(models.take(i as int) =~= models);
    Reading::Value(items)
}

fn read_document(document: &JsonValue) -> (result: Reading<Vec<DanmakuItem>>)
    ensures
        items_read(result) == document_outcome(Ok(document.model())),
{
    match document {
        JsonValue::Array(values) => {
            assert(values_model(values@) =~= document.model()->Array_0);
            read_values(values.as_slice())
        },
        JsonValue::Object(members) => {
            assert(members_model(members@) =~= document.model()->Object_0);
            let names: Vec<&str> = vec!["comments", "danmaku", "items"];
            assert(names_model(names@) =~= seq!["comments"@, "danmaku"@, "items"@]);
            match find_first_member(members.as_slice(), &names) {
                Some(value) => match value {
                    JsonValue::Array(values) => {
                        assert(values_model(values@) =~= value.model()->Array_0);
                        read_values(values.as_slice())
                    },
                    _ => Reading::Refused(DanmakuError::InvalidField("comments".to_owned())),
                },
                None => Reading::Refused(DanmakuError::InvalidField("comments".to_owned())),
            }
        },
        _ => Reading::Refused(DanmakuError::InvalidField("json root".to_owned())),
    }
}

fn read_json(input: &str) -> (result: Reading<Vec<DanmakuItem>>)
    ensures
        items_read(result) == json_outcome(input@),
{
    match parse_json(input) {
        Ok(document) => read_document(&document),
        Err(message) => Reading::Refused(DanmakuError::Parse(message)),
    }
}

fn line_message(number: usize, message: &str) -> (result: String)
    ensures
        result@ == "line "@ + decimal_spec(number as nat) + ": "@ + message@,
{
    let mut text = chars_of("line ");
    push_decimal(&mut text, number as u128);
    extend_str(&mut text, ": ");
    extend_str(&mut text, message);
    string_of(&text)
}

fn read_json_lines(input: &[char]) -> (result: Reading<Vec<DanmakuItem>>)
    ensures
        items_read(result) == json_lines_outcome(lines_spec(input@)),
{
    let all = lines(input);
    let ghost views = parts_view(all@);
    let mut items: Vec<DanmakuItem> = Vec::new();
    assert(items_view(items@) =~= Seq::<ItemModel>::empty());
    let count: usize = all.len();
    let mut i: usize = 0;
    while i < count
        invariant
            i <= count == all@.len(),
            views == parts_view(all@),
            views == lines_spec(input@),
            json_lines_outcome(views.take(i as int)) == DanmakuOutcome::Value(items_view(items@)),
        decreases count - i,
    {
        let ghost longer = views.take(i as int + 1);
        assert(longer.drop_last() =~= views.take(i as int));
        assert(longer.last() == all@[i as int]@);
        assert(items_view(items@).len() == items@.len());
        let line = trim(all[i]);
        if line.len() > 0 {
            match parse_json(&string_of(line)) {
                Err(message) => {
                    proof {
                        lemma_json_lines_stop(views, i as int + 1);
                    }
                    return Reading::Refused(DanmakuError::Parse(line_message(i + 1, &message)));
                },
                Ok(value) => match item_from_json_value(&value, to_next_u64(items.len())) {
                    Reading::Value(item) => {
                        let ghost before = items_view(items@);
                        items.push(item);
                        assert(items_view(items@) =~= before.push(item@));
                    },
                    Reading::Refused(error) => {
                        if !should_skip_item_error(&error) {
                            proof {
                                lemma_json_lines_stop(views, i as int + 1);
                            }
                            return Reading::Refused(error);
                        }
                    },
                    Reading::OutOfRange => {
                        proof {
                            lemma_json_lines_stop(views, i as int + 1);
                        }
                        return Reading::OutOfRange;
                    },
                },
            }
        }
        i += 1;
    }
    assert(views.take(i as int) =~= views);
    Reading::Value(items)
}

// ---------------------------------------------------------------------------
// Files
// ---------------------------------------------------------------------------

/// How a text of comments is read.
#[derive(Debug, Clone, Copy, PartialEq, Eq, Structural)]
pub enum DanmakuFormat {
    /// Bilibili XML.
    Xml,
    /// A JSON document.
    Json,
    /// A JSON document on each line.
    JsonLines,
    /// By the first character that is not white space.
    Auto,
}

/// The format that a file extension names.
pub open spec fn format_of_extension(extension: Option<Seq<char>>) -> DanmakuFormat {
    match extension {
        Some(text) => {
            let name = lower_spec(text);
            if name == "xml"@ {
                DanmakuFormat::Xml
            } else if name == "jsonl"@ || name == "ndjson"@ {
                DanmakuFormat::JsonLines
            } else if name == "json"@ {
                DanmakuFormat::Json
            } else {
                DanmakuFormat::Auto
            }
        },
        None => DanmakuFormat::Auto,
    }
}

/// The format that a text shows: XML starts with `<`, a JSON document with `{`
/// or `[`.
pub open spec fn detected_format(input: Seq<char>) -> DanmakuFormat {
    let trimmed = trim_start_spec(input);
    if trimmed.len() > 0 && trimmed[0] == '<' {
        DanmakuFormat::Xml
    } else if trimmed.len() > 0 && (trimmed[0] == '{' || trimmed[0] == '[') {
        DanmakuFormat::Json
    } else {
        DanmakuFormat::JsonLines
    }
}

/// The comments of a text in a format, in the order of the text.
pub open spec fn format_outcome(format: DanmakuFormat, input: Seq<char>) -> DanmakuOutcome<
    Seq<ItemModel>,
> {
    match format {
        DanmakuFormat::Xml => xml_outcome(input),
        DanmakuFormat::Json => json_outcome(input),
        DanmakuFormat::JsonLines => json_lines_outcome(lines_spec(input)),
        DanmakuFormat::Auto => match detected_format(input) {
            DanmakuFormat::Xml => xml_outcome(input),
            DanmakuFormat::Json => json_outcome(input),
            _ => json_lines_outcome(lines_spec(input)),
        },
    }
}

impl DanmakuFormat {
    /// The format that a file extension names.
    pub fn from_extension(extension: Option<&str>) -> (result: Self)
        ensures
            result == format_of_extension(
                match extension {
                    Some(text) => Some(text@),
                    None => None,
                },
            ),
    {
        match extension {
            Some(text) => {
                let name = to_lower(&chars_of(text));
                if chars_eq_str(&name, "xml") {
                    DanmakuFormat::Xml
                } else if chars_eq_str(&name, "jsonl") || chars_eq_str(&name, "ndjson") {
                    DanmakuFormat::JsonLines
                } else if chars_eq_str(&name, "json") {
                    DanmakuFormat::Json
                } else {
                    DanmakuFormat::Auto
                }
            },
            None => DanmakuFormat::Auto,
        }
    }

    /// The format that a text shows.
    pub fn detect(input: &str) -> (result: Self)
        ensures
            result == detected_format(input@),
            result != DanmakuFormat::Auto,
    {
        let chars = chars_of(input);
        let trimmed = trim_start(&chars);
        if trimmed.len() > 0 && trimmed[0] == '<' {
            DanmakuFormat::Xml
        } else if trimmed.len() > 0 && (trimmed[0] == '{' || trimmed[0] == '[') {
            DanmakuFormat::Json
        } else {
            DanmakuFormat::JsonLines
        }
    }
}

fn finish(reading: Reading<Vec<DanmakuItem>>) -> (result: Result<DanmakuTimeline>)
    requires
        !(reading is OutOfRange),
    ensures
        settles(result, items_read(reading)),
{
    match reading {
        Reading::Value(items) => DanmakuTimeline::new(items),
        Reading::Refused(error) => Err(error),
        Reading::OutOfRange => Err(DanmakuError::MissingText),
    }
}

impl DanmakuTimeline {
    /// Reads the comments of a text in the format that it shows.
    pub fn parse_auto(input: &str) -> (result: Result<Self>)
        requires
            !(format_outcome(DanmakuFormat::Auto, input@) is OutOfRange),
        ensures
            settles(result, format_outcome(DanmakuFormat::Auto, input@)),
    {
        match DanmakuFormat::detect(input) {
            DanmakuFormat::Xml => Self::from_bilibili_xml(input),
            DanmakuFormat::Json => Self::from_json(input),
            _ => Self::from_json_lines(input),
        }
    }

    /// Reads the comments of a JSON document.
    pub fn from_json(input: &str) -> (result: Result<Self>)
        requires
            !(json_outcome(input@) is OutOfRange),
        ensures
            settles(result, json_outcome(input@)),
    {
        finish(read_json(input))
    }

    /// Reads the comments of a text with a JSON document on each line.
    pub fn from_json_lines(input: &str) -> (result: Result<Self>)
        requires
            !(json_lines_outcome(lines_spec(input@)) is OutOfRange),
        ensures
            settles(result, json_lines_outcome(lines_spec(input@))),
    {
        finish(read_json_lines(&chars_of(input)))
    }

    /// Reads the comments of an XML text.
    pub fn from_bilibili_xml(input: &str) -> (result: Result<Self>)
        requires
            !(xml_outcome(input@) is OutOfRange),
        ensures
            settles(result, xml_outcome(input@)),
    {
        match parse_bilibili_xml(input) {
            Ok(items) => Self::new(items),
            Err(error) => Err(error),
        }
    }

    /// Reads the comments of a document that has been read.
    pub fn from_document(document: &JsonValue) -> (result: Option<Result<Self>>)
        ensures
            result is None <==> document_outcome(Ok(document.model())) is OutOfRange,
            result matches Some(parsed) ==> settles(
                parsed,
                document_outcome(Ok(document.model())),
            ),
    {
        match read_document(document) {
            Reading::OutOfRange => None,
            reading => Some(finish(reading)),
        }
    }

    /// Reads the comments of a text in a format, or gives nothing where one of
    /// their times is longer than any span.
    pub fn try_parse(format: DanmakuFormat, input: &str) -> (result: Option<Result<Self>>)
        ensures
            result is None <==> format_outcome(format, input@) is OutOfRange,
            result matches Some(parsed) ==> settles(parsed, format_outcome(format, input@)),
    {
        let known = match format {
            DanmakuFormat::Auto => DanmakuFormat::detect(input),
            other => other,
        };
        let reading = match known {
            DanmakuFormat::Xml => read_xml(&chars_of(input)),
            DanmakuFormat::Json => read_json(input),
            _ => read_json_lines(&chars_of(input)),
        };
        if let Reading::OutOfRange = reading {
            return None;
        }
        Some(
            match format {
                DanmakuFormat::Xml => Self::from_bilibili_xml(input),
                DanmakuFormat::Json => Self::from_json(input),
                DanmakuFormat::JsonLines => Self::from_json_lines(input),
                DanmakuFormat::Auto => Self::parse_auto(input),
            },
        )
    }
}

// ---------------------------------------------------------------------------
// Laws
// ---------------------------------------------------------------------------

/// An element that was written as one, with its list of fields in quotes and its text
/// between the tags, has that list and that text, whatever stands behind them.
pub proof fn law_written_elements_have_their_parts(
    list: Seq<char>,
    attributes: Seq<char>,
    text: Seq<char>,
    rest: Seq<char>,
)
    requires
        !has_char(list, '"'),
        !has_char(list, '>'),
        !has_char(attributes, '>'),
        !has_char(text, '<'),
    ensures
        element_parts(
            "p=\""@ + list + seq!['"'] + attributes + seq!['>'] + text + "</d>"@ + rest,
        ) == Some((list, text)),
{
    reveal_strlit("p=\"");
    reveal_strlit("</d>");
    let none = Seq::<char>::empty();
    let body = text + "</d>"@ + rest;
    let behind = attributes + seq!['>'] + body;
    let segment = "p=\""@ + list + seq!['"'] + attributes + seq!['>'] + text + "</d>"@ + rest;
    let tag = "p=\""@ + list + seq!['"'] + attributes;
    assert(segment =~= none + "p=\""@ + (list + seq!['"'] + behind));
    law_parted_at_the_first_separator(none, "p=\""@, list + seq!['"'] + behind);
    law_parted_at_the_first_separator(list, seq!['"'], behind);
    assert(segment =~= tag + seq!['>'] + body);
    assert(!has_char(tag, '>')) by {
        assert forall|i: int| 0 <= i < tag.len() implies tag[i] != '>' by {
            let n = list.len() as int;
            if 3 <= i < n + 3 {
                assert(tag[i] == list[i - 3]);
            } else if i >= n + 4 {
                assert(tag[i] == attributes[i - n - 4]);
            }
        }
    }
    law_parted_at_the_first_separator(tag, seq!['>'], body);
    law_parted_at_the_first_separator(text, "</d>"@, rest);
}

proof fn lemma_fields_of(fields: Seq<Seq<char>>)
    requires
        fields.len() > 0,
        forall|i: int| 0 <= i < fields.len() ==> !has_char(#[trigger] fields[i], ','),
    ensures
        split_spec(join_spec(fields, seq![',']), seq![',']) == fields,
{
    assert forall|i: int| 0 <= i < fields.len() implies !contains_spec(
        #[trigger] fields[i],
        seq![','],
    ) by {
        lemma_no_char_is_found(fields[i], ',');
    }
    law_joined_pieces_are_told_apart(fields, seq![',']);
}

/// The fourth field of an element is its colour: a number below 2^24 is read as its
/// red, green and blue bytes, whatever stands in the other fields and however many
/// follow.
pub proof fn law_elements_have_the_colour_of_their_fourth_field(
    segment: Seq<char>,
    index: nat,
    fields: Seq<Seq<char>>,
    text: Seq<char>,
    red: nat,
    green: nat,
    blue: nat,
)
    requires
        fields.len() > 3,
        forall|i: int| 0 <= i < fields.len() ==> !has_char(#[trigger] fields[i], ','),
        element_parts(segment) == Some((join_spec(fields, seq![',']), text)),
        red < 0x100 && green < 0x100 && blue < 0x100,
        fields[3] == decimal_spec(red * 0x1_0000 + green * 0x100 + blue),
    ensures
        element_outcome(segment, index) matches Some(DanmakuOutcome::Value(item)) ==> item.color
            == rgb_color(red, green, blue),
{
    lemma_fields_of(fields);
    let word = red * 0x1_0000 + green * 0x100 + blue;
    law_parse_of_decimal(word, u32::MAX as nat);
    law_color_words_hold_their_bytes(word as u32, 0, red, green, blue);
}

/// The other fields of an element are where they belong: first the time, then the code
/// of the mode, then the size, and the id as the eighth. The text is that of the
/// element, and the comment is opaque and someone else's.
pub proof fn law_elements_are_read_by_their_fields(
    segment: Seq<char>,
    index: nat,
    fields: Seq<Seq<char>>,
    text: Seq<char>,
    code: nat,
    id: nat,
)
    requires
        fields.len() > 3,
        forall|i: int| 0 <= i < fields.len() ==> !has_char(#[trigger] fields[i], ','),
        element_parts(segment) == Some((join_spec(fields, seq![',']), text)),
        code <= u32::MAX,
        id <= u64::MAX,
        fields[1] == decimal_spec(code),
    ensures
        element_outcome(segment, index) matches Some(DanmakuOutcome::Value(item)) ==> {
            &&& double_of_text(fields[0]) is Some
            &&& (Double { bits: double_of_text(fields[0])->0 }).nanos_from_zero() == Some(item.pts)
            &&& code == 1 ==> item.mode == DanmakuMode::Scroll
            &&& code == 4 ==> item.mode == DanmakuMode::Bottom
            &&& code == 5 ==> item.mode == DanmakuMode::Top
            &&& code == 6 ==> item.mode == DanmakuMode::ScrollReverse
            &&& single_of_text(fields[2]) is Some ==> item.font_size.bits == single_of_text(
                fields[2],
            )->0
            &&& fields.len() > 7 && fields[7] == decimal_spec(id) ==> item.id == id
            &&& fields.len() <= 7 && index < u64::MAX ==> item.id == index + 1
            &&& item.text == decode_spec(text)
            &&& item.opacity.bits == SINGLE_ONE
            &&& !item.is_self
        },
        code == 7 ==> element_outcome(segment, index) is None,
        code != 7 && trim_spec(decode_spec(text)).len() > 0 && double_of_text(fields[0]) is Some
            && (Double { bits: double_of_text(fields[0])->0 }).nanos_from_zero() is Some
            ==> element_outcome(segment, index) matches Some(DanmakuOutcome::Value(_)),
{
    lemma_fields_of(fields);
    law_parse_of_decimal(code, u32::MAX as nat);
    law_parse_of_decimal(id, u64::MAX as nat);
}

/// Elements are read in their order: one more element adds its comment behind the
/// others, and one that is none adds nothing.
pub proof fn law_elements_are_read_in_order(before: Seq<Seq<char>>, segment: Seq<char>)
    requires
        elements_outcome(before) is Value,
    ensures
        match element_outcome(segment, before.len()) {
            Some(DanmakuOutcome::Value(item)) => elements_outcome(before.push(segment))
                == DanmakuOutcome::Value(elements_outcome(before)->Value_0.push(item)),
            None => elements_outcome(before.push(segment)) == elements_outcome(before),
            _ => !(elements_outcome(before.push(segment)) is Value),
        },
{
    assert(before.push(segment).drop_last() =~= before);
}

/// A file is read element by element: what stands before the first one does not
/// count.
pub proof fn law_files_are_read_by_elements(head: Seq<char>, segments: Seq<Seq<char>>)
    requires
        !contains_spec(head, "<d "@),
        forall|i: int| 0 <= i < segments.len() ==> !contains_spec(#[trigger] segments[i], "<d "@),
    ensures
        xml_outcome(join_spec(seq![head] + segments, "<d "@)) == elements_outcome(segments),
{
    reveal_strlit("<d ");
    let parts = seq![head] + segments;
    assert forall|i: int| 0 <= i < parts.len() implies !contains_spec(
        #[trigger] parts[i],
        "<d "@,
    ) by {
        if i > 0 {
            assert(parts[i] == segments[i - 1]);
        }
    }
    law_joined_pieces_are_told_apart(parts, "<d "@);
    assert(parts.skip(1) =~= segments);
}

/// Of a JSON comment each member is read by its name, the first name that is there
/// counting: the text, the time, the id, the size, the opacity and whose it is.
pub proof fn law_json_comments_are_read_by_name(
    members: Seq<(Seq<char>, JsonModel)>,
    fallback_id: u64,
)
    ensures
        first_member(members, seq!["content"@, "text"@, "c"@]) is None ==> members_outcome(
            members,
            fallback_id,
        ) == DanmakuOutcome::<ItemModel>::Refused(DanmakuErrorModel::MissingText),
        members_outcome(members, fallback_id) matches DanmakuOutcome::Value(item) ==> {
            &&& first_member(members, seq!["content"@, "text"@, "c"@]) matches Some(
                JsonModel::Text(text),
            ) ==> item.text == text
            &&& first_member(members, seq!["time"@, "t"@]) is None ==> (Double {
                bits: 0,
            }).nanos_from_zero() == Some(item.pts)
            &&& first_member(members, seq!["time"@, "t"@]) matches Some(JsonModel::Number(number))
                ==> number.double_bits is Some ==> (Double {
                bits: number.double_bits->0,
            }).nanos_from_zero() == Some(item.pts)
            &&& first_member(members, seq!["id"@]) is None ==> item.id == fallback_id
            &&& first_member(members, seq!["id"@]) matches Some(JsonModel::Number(number))
                ==> number.double_bits is Some ==> item.id == (Double {
                bits: number.double_bits->0,
            }).whole_part(u64::MAX as nat) as u64
            &&& first_member(members, seq!["font_size"@, "size"@, "s"@]) matches Some(
                JsonModel::Number(number),
            ) ==> number.double_bits is Some ==> item.font_size == (Double {
                bits: number.double_bits->0,
            }).narrowed()
            &&& first_member(members, seq!["opacity"@, "alpha"@, "a"@]) matches Some(
                JsonModel::Number(number),
            ) ==> number.double_bits is Some ==> item.opacity == (Double {
                bits: number.double_bits->0,
            }).narrowed()
            &&& first_member(members, seq!["is_me"@, "self"@, "mine"@]) matches Some(
                JsonModel::Bool(value),
            ) ==> item.is_self == value
            &&& first_member(members, seq!["is_me"@, "self"@, "mine"@]) is None ==> !item.is_self
            &&& first_member(members, seq!["type"@, "mode"@, "y"@]) matches Some(
                JsonModel::Text(text),
            ) ==> item.mode == mode_of_text(text)
            &&& first_member(members, seq!["color"@, "r"@]) matches Some(value) ==> color_of_value(
                value,
            ) is Some ==> item.color == color_of_value(value)->0
            &&& first_member(members, seq!["color"@, "r"@]) is None ==> item.color == rgb_color(
                255,
                255,
                255,
            )
        },
{
}

/// A JSON value that names a colour by a number stands for the bytes of the number,
/// and one that names it by a text for what the text says.
pub proof fn law_json_colours_are_their_bytes(
    number: NumberModel,
    text: Seq<char>,
    red: nat,
    green: nat,
    blue: nat,
)
    requires
        red < 0x100 && green < 0x100 && blue < 0x100,
        number.unsigned == Some((red * 0x1_0000 + green * 0x100 + blue) as u64),
    ensures
        color_of_value(JsonModel::Number(number)) == Some(rgb_color(red, green, blue)),
        color_of_value(JsonModel::Text(text)) == color_of_text(text),
{
    let word = lemma_low_word(red, green, blue);
    law_color_words_hold_their_bytes(word, 0, red, green, blue);
}

proof fn lemma_low_word(red: nat, green: nat, blue: nat) -> (word: u32)
    requires
        red < 0x100 && green < 0x100 && blue < 0x100,
    ensures
        word == red * 0x1_0000 + green * 0x100 + blue,
        word == ((red * 0x1_0000 + green * 0x100 + blue) as u64 % 0x1_0000_0000) as u32,
{
    (red * 0x1_0000 + green * 0x100 + blue) as u32
}

/// Values are read in their order: a comment is added behind the others, and a value
/// that is none is passed over.
pub proof fn law_values_are_read_in_order(before: Seq<JsonModel>, value: JsonModel)
    requires
        values_outcome(before) is Value,
    ensures
        match json_item_outcome(value, next_u64(before.len())) {
            DanmakuOutcome::Value(item) => values_outcome(before.push(value))
                == DanmakuOutcome::Value(values_outcome(before)->Value_0.push(item)),
            DanmakuOutcome::Refused(_) => values_outcome(before.push(value)) == values_outcome(
                before,
            ),
            DanmakuOutcome::OutOfRange => values_outcome(before.push(value))
                == DanmakuOutcome::<Seq<ItemModel>>::OutOfRange,
        },
{
    assert(before.push(value).drop_last() =~= before);
}

/// A document is the list of its comments, or holds it under one of three names.
pub proof fn law_documents_hold_their_comments(
    values: Seq<JsonModel>,
    members: Seq<(Seq<char>, JsonModel)>,
)
    ensures
        document_outcome(Ok(JsonModel::Array(values))) == values_outcome(values),
        first_member(members, seq!["comments"@, "danmaku"@, "items"@]) == Some(
            JsonModel::Array(values),
        ) ==> document_outcome(Ok(JsonModel::Object(members))) == values_outcome(values),
{
}

/// A colour behind `#` is read as the bytes of its hexadecimal number.
pub proof fn law_hexadecimal_colours(red: nat, green: nat, blue: nat, hex: Seq<char>)
    requires
        red < 0x100 && green < 0x100 && blue < 0x100,
        hex.len() > 0 && hex[0] != '+' && strip_prefix_spec(hex, "0x"@) is None,
        hex_value(hex) == Some(red * 0x1_0000 + green * 0x100 + blue),
    ensures
        hash_color(hex) == Some(rgb_color(red, green, blue)),
{
    let word = red * 0x1_0000 + green * 0x100 + blue;
    assert(hash_color(hex) == Some(decimal_color(word as u32)));
    assert(decimal_color(word as u32) == rgb_color(red, green, blue)) by {
        law_color_words_hold_their_bytes(word as u32, 0, red, green, blue);
    }
}

/// Written bytes are read in their order.
pub proof fn law_bytes_are_read_in_order(before: Seq<Seq<char>>, value: nat)
    requires
        value < 0x100,
        bytes_of(before) is Some,
    ensures
        bytes_of(before.push(decimal_spec(value))) == Some(bytes_of(before)->0.push(value)),
        bytes_of(Seq::empty()) == Some(Seq::<nat>::empty()),
{
    lemma_written_byte(value);
    assert(before.push(decimal_spec(value)).drop_last() =~= before);
}

proof fn lemma_written_byte(value: nat)
    requires
        value < 0x100,
    ensures
        parse_unsigned_spec(trim_spec(decimal_spec(value)), 255) == Some(value),
{
    lemma_decimal_digits(value);
    law_parse_of_decimal(value, 255);
    let s = decimal_spec(value);
    let none = Seq::<char>::empty();
    assert(is_digit(s[0]));
    assert(is_digit(s[s.len() - 1]));
    law_trimming_takes_white_space(none, s, none);
    assert(none + s + none =~= s);
}

/// Each pair of hexadecimal digits counts sixteen times the first and once the
/// second, and a longer numeral 256 times what stands before.
pub proof fn law_hexadecimal_pairs(before: Seq<char>, high: char, low: char)
    requires
        hex_value(before) is Some,
        hex_digit(high) is Some,
        hex_digit(low) is Some,
    ensures
        hex_value(before.push(high).push(low)) == Some(
            hex_value(before)->0 * 256 + hex_digit(high)->0 * 16 + hex_digit(low)->0,
        ),
        hex_digit('0') == Some(0nat) && hex_digit('9') == Some(9nat),
        hex_digit('a') == Some(10nat) && hex_digit('f') == Some(15nat),
        hex_digit('A') == Some(10nat) && hex_digit('F') == Some(15nat),
{
    assert(before.push(high).push(low).drop_last() =~= before.push(high));
    assert(before.push(high).drop_last() =~= before);
    assert(before.push(high).last() == high);
    assert(hex_value(before.push(high)) == Some(hex_value(before)->0 * 16 + hex_digit(high)->0));
    assert(before.push(high).push(low).last() == low);
}

/// White space in front is taken away, however much of it there is.
proof fn lemma_leading_space(space: Seq<char>, rest: Seq<char>)
    requires
        forall|i: int| 0 <= i < space.len() ==> is_space(#[trigger] space[i]),
    ensures
        trim_start_spec(space + rest) == trim_start_spec(rest),
    decreases space.len(),
{
    if space.len() == 0 {
        assert(space + rest =~= rest);
    } else {
        assert(is_space(space[0]));
        assert((space + rest)[0] == space[0]);
        assert((space + rest).skip(1) =~= space.skip(1) + rest);
        assert forall|i: int| 0 <= i < space.skip(1).len() implies is_space(
            #[trigger] space.skip(1)[i],
        ) by {
            assert(is_space(space[i + 1]));
        }
        lemma_leading_space(space.skip(1), rest);
    }
}

/// An input of no told format is read as what its first character makes of it: markup,
/// one document, or a document in each line. One of a told format is read as that.
pub proof fn law_formats_are_told_by_the_first_character(
    space: Seq<char>,
    first: char,
    rest: Seq<char>,
)
    requires
        forall|i: int| 0 <= i < space.len() ==> is_space(#[trigger] space[i]),
        !is_space(first),
    ensures
        ({
            let input = space + seq![first] + rest;
            &&& format_outcome(DanmakuFormat::Xml, input) == xml_outcome(input)
            &&& format_outcome(DanmakuFormat::Json, input) == document_outcome(json_document(input))
            &&& format_outcome(DanmakuFormat::JsonLines, input) == json_lines_outcome(
                lines_spec(input),
            )
            &&& first == '<' ==> format_outcome(DanmakuFormat::Auto, input) == xml_outcome(input)
            &&& first == '{' || first == '[' ==> format_outcome(DanmakuFormat::Auto, input)
                == document_outcome(json_document(input))
            &&& first != '<' && first != '{' && first != '[' ==> format_outcome(
                DanmakuFormat::Auto,
                input,
            ) == json_lines_outcome(lines_spec(input))
        }),
{
    let behind = seq![first] + rest;
    assert(space + seq![first] + rest =~= space + behind);
    lemma_leading_space(space, behind);
    assert(behind[0] == first);
}

/// A file is read as what its extension says, in small letters or large ones.
pub proof fn law_formats_are_told_by_the_extension(extension: Seq<char>)
    ensures
        lower_spec(extension) == "xml"@ ==> format_of_extension(Some(extension))
            == DanmakuFormat::Xml,
        lower_spec(extension) == "json"@ ==> format_of_extension(Some(extension))
            == DanmakuFormat::Json,
        lower_spec(extension) == "jsonl"@ ==> format_of_extension(Some(extension))
            == DanmakuFormat::JsonLines,
        lower_spec(extension) == "ndjson"@ ==> format_of_extension(Some(extension))
            == DanmakuFormat::JsonLines,
        lower_spec(extension) != "xml"@ && lower_spec(extension) != "json"@ && lower_spec(extension)
            != "jsonl"@ && lower_spec(extension) != "ndjson"@ ==> format_of_extension(
            Some(extension),
        ) == DanmakuFormat::Auto,
        format_of_extension(None) == DanmakuFormat::Auto,
{
    reveal_strlit("xml");
    reveal_strlit("json");
    reveal_strlit("jsonl");
    reveal_strlit("ndjson");
    assert("xml"@.len() == 3);
    assert("json"@.len() == 4);
    assert("jsonl"@.len() == 5);
    assert("ndjson"@.len() == 6);
}

/// The lines of a file are read one behind the other: a blank one tells nothing, one
/// with a comment adds it, and one that is no document is told by its number.
pub proof fn law_lines_are_read_in_order(
    before: Seq<Seq<char>>,
    items: Seq<ItemModel>,
    line: Seq<char>,
    value: JsonModel,
    item: ItemModel,
    message: Seq<char>,
)
    requires
        json_lines_outcome(before) == DanmakuOutcome::Value(items),
    ensures
        trim_spec(line).len() == 0 ==> json_lines_outcome(before.push(line))
            == DanmakuOutcome::Value(items),
        trim_spec(line).len() > 0 && json_document(trim_spec(line)) == Ok::<JsonModel, Seq<char>>(
            value,
        ) && json_item_outcome(value, next_u64(items.len())) == DanmakuOutcome::Value(item)
            ==> json_lines_outcome(before.push(line)) == DanmakuOutcome::Value(items.push(item)),
        trim_spec(line).len() > 0 && json_document(trim_spec(line)) == Err::<JsonModel, Seq<char>>(
            message,
        ) ==> json_lines_outcome(before.push(line)) == DanmakuOutcome::<Seq<ItemModel>>::Refused(
            DanmakuErrorModel::Parse(
                "line "@ + decimal_spec((before.len() + 1) as nat) + ": "@ + message,
            ),
        ),
{
    assert(before.push(line).drop_last() =~= before);
}

/// A flag is read from a truth value as it is, from a number as whether it is one above
/// zero, and from a text if it says so.
pub proof fn law_json_flags_are_read(
    members: Seq<(Seq<char>, JsonModel)>,
    names: Seq<Seq<char>>,
    value: bool,
    number: NumberModel,
    text: Seq<char>,
)
    ensures
        first_member(members, names) == Some(JsonModel::Bool(value)) ==> bool_member(members, names)
            == Some(value),
        first_member(members, names) == Some(JsonModel::Number(number)) ==> (bool_member(
            members,
            names,
        ) == Some(true) <==> number.unsigned is Some && number.unsigned->0 > 0),
        first_member(members, names) == Some(JsonModel::Number(number)) ==> bool_member(
            members,
            names,
        ) is Some,
        first_member(members, names) == Some(JsonModel::Text(text)) ==> (bool_member(members, names)
            == Some(true) <==> text == "true"@ || text == "1"@ || text == "yes"@),
        first_member(members, names) is None ==> bool_member(members, names) is None,
{
}

/// The mode of a comment is what its type says, as a text before a code, and a comment
/// without a type scrolls.
pub proof fn law_json_modes_are_read(members: Seq<(Seq<char>, JsonModel)>)
    ensures
        string_member(members, seq!["type"@, "mode"@, "y"@]) matches Some(text) ==> mode_of_members(
            members,
        ) == mode_of_text(text),
        string_member(members, seq!["type"@, "mode"@, "y"@]) is None ==> (numeric_member(
            members,
            seq!["type_code"@, "mode_code"@],
        ) matches Some(bits) ==> mode_of_members(members) == mode_of_code(
            (Double { bits }).whole_part(u32::MAX as nat) as u32,
        )),
        string_member(members, seq!["type"@, "mode"@, "y"@]) is None && numeric_member(
            members,
            seq!["type_code"@, "mode_code"@],
        ) is None ==> mode_of_members(members) == DanmakuMode::Scroll,
{
}

} // verus!
