//! Text as sequences of characters: searching, splitting, trimming, and
//! decimal numbers.
use vstd::prelude::*;
use vstd::slice::slice_subrange;

verus! {

broadcast use vstd::seq_lib::group_seq_properties;

// ---------------------------------------------------------------------------
// Conversion between strings and character vectors
// ---------------------------------------------------------------------------

/// `String::push`: appends one character to the end of the string.
#[verifier::external_body]
fn push_char(target: &mut String, ch: char)
    ensures
        final(target)@ == old(target)@.push(ch),
{
    target.push(ch)
}

/// The characters of a string.
pub fn chars_of(text: &str) -> (result: Vec<char>)
    ensures
        result@ == text@,
{
    let mut result: Vec<char> = Vec::new();
    for c in it: text.chars()
        invariant
            it.seq() == text@,
            result@ == text@.take(it.index()),
    {
        result.push(c);
    }
    result
}

/// Appends characters to a string.
pub fn push_chars(target: &mut String, chars: &[char])
    ensures
        final(target)@ == old(target)@ + chars@,
{
    let mut i: usize = 0;
    while i < chars.len()
        invariant
            i <= chars@.len(),
            target@ == old(target)@ + chars@.take(i as int),
        decreases chars@.len() - i,
    {
        push_char(target, chars[i]);
        i += 1;
    }
    assert(chars@.take(i as int) =~= chars@);
}

/// The string that consists of the given characters.
pub fn string_of(chars: &[char]) -> (result: String)
    ensures
        result@ == chars@,
{
    let mut result = String::new();
    push_chars(&mut result, chars);
    assert(result@ =~= chars@);
    result
}

/// Appends the characters of a slice to a vector.
pub fn extend_chars(target: &mut Vec<char>, chars: &[char])
    ensures
        final(target)@ == old(target)@ + chars@,
{
    let mut i: usize = 0;
    while i < chars.len()
        invariant
            i <= chars@.len(),
            target@ == old(target)@ + chars@.take(i as int),
        decreases chars@.len() - i,
    {
        target.push(chars[i]);
        i += 1;
    }
    assert(chars@.take(i as int) =~= chars@);
}

/// Appends the characters of a string to a vector.
pub fn extend_str(target: &mut Vec<char>, text: &str)
    ensures
        final(target)@ == old(target)@ + text@,
{
    let chars = chars_of(text);
    extend_chars(target, &chars);
}

/// Whether two slices hold the same characters.
pub fn chars_eq(a: &[char], b: &[char]) -> (result: bool)
    ensures
        result <==> a@ == b@,
{
    if a.len() != b.len() {
        return false;
    }
    let mut i: usize = 0;
    while i < a.len()
        invariant
            i <= a@.len(),
            a@.len() == b@.len(),
            forall|k: int| 0 <= k < i ==> a@[k] == b@[k],
        decreases a@.len() - i,
    {
        if a[i] != b[i] {
            assert(a@[i as int] != b@[i as int]);
            return false;
        }
        i += 1;
    }
    assert(a@ =~= b@);
    true
}

/// Whether a slice holds the characters of a string.
pub fn chars_eq_str(a: &[char], text: &str) -> (result: bool)
    ensures
        result <==> a@ == text@,
{
    let b = chars_of(text);
    chars_eq(a, &b)
}

// ---------------------------------------------------------------------------
// White space
// ---------------------------------------------------------------------------

/// Whether a character has the Unicode property `White_Space`.
pub open spec fn is_space(c: char) -> bool {
    ||| 0x09 <= c as u32 <= 0x0d
    ||| c as u32 == 0x20
    ||| c as u32 == 0x85
    ||| c as u32 == 0xa0
    ||| c as u32 == 0x1680
    ||| 0x2000 <= c as u32 <= 0x200a
    ||| c as u32 == 0x2028
    ||| c as u32 == 0x2029
    ||| c as u32 == 0x202f
    ||| c as u32 == 0x205f
    ||| c as u32 == 0x3000
}

/// Tests for the Unicode property `White_Space`.
pub fn char_is_space(c: char) -> (result: bool)
    ensures
        result == is_space(c),
{
    let code: u32 = c as u32;
    (0x09 <= code && code <= 0x0d) || code == 0x20 || code == 0x85 || code == 0xa0 || code == 0x1680
        || (0x2000 <= code && code <= 0x200a) || code == 0x2028 || code == 0x2029 || code == 0x202f
        || code == 0x205f || code == 0x3000
}

/// The text without its leading white space.
pub open spec fn trim_start_spec(s: Seq<char>) -> Seq<char>
    decreases s.len(),
{
    if s.len() > 0 && is_space(s[0]) {
        trim_start_spec(s.skip(1))
    } else {
        s
    }
}

/// The text without its trailing white space.
pub open spec fn trim_end_spec(s: Seq<char>) -> Seq<char>
    decreases s.len(),
{
    if s.len() > 0 && is_space(s.last()) {
        trim_end_spec(s.drop_last())
    } else {
        s
    }
}

/// The text without its leading and trailing white space.
pub open spec fn trim_spec(s: Seq<char>) -> Seq<char> {
    trim_end_spec(trim_start_spec(s))
}

/// Drops the leading white space.
pub fn trim_start(s: &[char]) -> (result: &[char])
    ensures
        result@ == trim_start_spec(s@),
        result@.len() <= s@.len(),
{
    let mut i: usize = 0;
    while i < s.len() && char_is_space(s[i])
        invariant
            i <= s@.len(),
            trim_start_spec(s@.skip(i as int)) == trim_start_spec(s@),
        decreases s@.len() - i,
    {
        assert(s@.skip(i as int).skip(1) =~= s@.skip(i as int + 1));
        i += 1;
    }
    assert(s@.subrange(i as int, s@.len() as int) =~= s@.skip(i as int));
    slice_subrange(s, i, s.len())
}

/// Drops the trailing white space.
pub fn trim_end(s: &[char]) -> (result: &[char])
    ensures
        result@ == trim_end_spec(s@),
        result@.len() <= s@.len(),
{
    let mut n: usize = s.len();
    while n > 0 && char_is_space(s[n - 1])
        invariant
            n <= s@.len(),
            trim_end_spec(s@.take(n as int)) == trim_end_spec(s@),
        decreases n,
    {
        assert(s@.take(n as int).drop_last() =~= s@.take(n as int - 1));
        n -= 1;
    }
    assert(s@.subrange(0, n as int) =~= s@.take(n as int));
    slice_subrange(s, 0, n)
}

/// Drops the leading and trailing white space.
pub fn trim(s: &[char]) -> (result: &[char])
    ensures
        result@ == trim_spec(s@),
        result@.len() <= s@.len(),
{
    trim_end(trim_start(s))
}

/// The first run of characters that are not white space, if there is one.
pub open spec fn first_word_spec(s: Seq<char>) -> Option<Seq<char>> {
    let t = trim_start_spec(s);
    if t.len() == 0 {
        None
    } else {
        Some(word_prefix(t))
    }
}

/// The longest prefix without white space.
pub open spec fn word_prefix(s: Seq<char>) -> Seq<char>
    decreases s.len(),
{
    if s.len() == 0 || is_space(s[0]) {
        Seq::empty()
    } else {
        seq![s[0]] + word_prefix(s.skip(1))
    }
}

/// Finds the first run of characters that are not white space.
pub fn first_word(s: &[char]) -> (result: Option<&[char]>)
    ensures
        result is Some <==> first_word_spec(s@) is Some,
        result matches Some(word) ==> word@ == first_word_spec(s@)->0,
{
    let t = trim_start(s);
    if t.len() == 0 {
        return None;
    }
    let mut i: usize = 0;
    while i < t.len() && !char_is_space(t[i])
        invariant
            i <= t@.len(),
            t@.take(i as int) + word_prefix(t@.skip(i as int)) == word_prefix(t@),
        decreases t@.len() - i,
    {
        assert(t@.skip(i as int).skip(1) =~= t@.skip(i as int + 1));
        assert(t@.take(i as int) + (seq![t@[i as int]] + word_prefix(t@.skip(i as int + 1)))
            =~= t@.take(i as int + 1) + word_prefix(t@.skip(i as int + 1)));
        i += 1;
    }
    assert(word_prefix(t@.skip(i as int)) =~= Seq::<char>::empty());
    assert(t@.subrange(0, i as int) =~= word_prefix(t@));
    Some(slice_subrange(t, 0, i))
}

// ---------------------------------------------------------------------------
// Searching
// ---------------------------------------------------------------------------

/// Whether a pattern occurs in the text at an index.
pub open spec fn occurs_at(s: Seq<char>, pattern: Seq<char>, at: int) -> bool {
    0 <= at && at + pattern.len() <= s.len() && s.subrange(at, at + pattern.len()) == pattern
}

/// The least index from `from` on at which the pattern occurs.
pub open spec fn find_from(s: Seq<char>, pattern: Seq<char>, from: int) -> Option<int>
    decreases s.len() + 1 - from,
{
    if from < 0 || from + pattern.len() > s.len() {
        None
    } else if occurs_at(s, pattern, from) {
        Some(from)
    } else {
        find_from(s, pattern, from + 1)
    }
}

/// The least index at which the pattern occurs.
pub open spec fn find_spec(s: Seq<char>, pattern: Seq<char>) -> Option<int> {
    find_from(s, pattern, 0)
}

/// What `find_from` finds is an occurrence, and the first one.
pub proof fn lemma_find_from(s: Seq<char>, pattern: Seq<char>, from: int)
    requires
        from >= 0,
    ensures
        match find_from(s, pattern, from) {
            Some(at) => {
                &&& from <= at
                &&& occurs_at(s, pattern, at)
                &&& forall|k: int| from <= k < at ==> !occurs_at(s, pattern, k)
            },
            None => forall|k: int| from <= k ==> !occurs_at(s, pattern, k),
        },
    decreases s.len() + 1 - from,
{
    if from + pattern.len() <= s.len() && !occurs_at(s, pattern, from) {
        lemma_find_from(s, pattern, from + 1);
    }
}

/// Whether the slice has the pattern at the given index.
fn has_at(s: &[char], pattern: &[char], at: usize) -> (result: bool)
    requires
        at + pattern@.len() <= s@.len(),
    ensures
        result <==> occurs_at(s@, pattern@, at as int),
{
    let rest: usize = s.len() - at;
    assert(pattern@.len() <= rest);
    chars_eq(slice_subrange(s, at, at + pattern.len()), pattern)
}

/// Finds the first occurrence of a pattern.
pub fn find(s: &[char], pattern: &[char]) -> (result: Option<usize>)
    ensures
        result is Some <==> find_spec(s@, pattern@) is Some,
        result matches Some(at) ==> find_spec(s@, pattern@) == Some(at as int) && at + pattern@.len()
            <= s@.len(),
{
    if pattern.len() > s.len() {
        return None;
    }
    let last: usize = s.len() - pattern.len();
    let mut i: usize = 0;
    while i <= last
        invariant
            last + pattern@.len() == s@.len(),
            i <= last + 1,
            find_from(s@, pattern@, i as int) == find_spec(s@, pattern@),
        decreases last + 1 - i,
    {
        if has_at(s, pattern, i) {
            return Some(i);
        }
        if i == last {
            return None;
        }
        i += 1;
    }
    None
}

/// Whether the pattern occurs in the text.
pub open spec fn contains_spec(s: Seq<char>, pattern: Seq<char>) -> bool {
    find_spec(s, pattern) is Some
}

/// Tests whether the pattern occurs.
pub fn contains(s: &[char], pattern: &[char]) -> (result: bool)
    ensures
        result == contains_spec(s@, pattern@),
{
    find(s, pattern).is_some()
}

/// The text after a prefix, if it starts with it.
pub open spec fn strip_prefix_spec(s: Seq<char>, prefix: Seq<char>) -> Option<Seq<char>> {
    if occurs_at(s, prefix, 0) {
        Some(s.skip(prefix.len() as int))
    } else {
        None
    }
}

/// Strips a prefix.
pub fn strip_prefix<'a>(s: &'a [char], prefix: &[char]) -> (result: Option<&'a [char]>)
    ensures
        result is Some <==> strip_prefix_spec(s@, prefix@) is Some,
        result matches Some(rest) ==> rest@ == strip_prefix_spec(s@, prefix@)->0,
{
    if prefix.len() <= s.len() && has_at(s, prefix, 0) {
        assert(s@.subrange(prefix@.len() as int, s@.len() as int) =~= s@.skip(prefix@.len() as int));
        Some(slice_subrange(s, prefix.len(), s.len()))
    } else {
        None
    }
}

/// The text before and after the first occurrence of the separator.
pub open spec fn split_once_spec(s: Seq<char>, separator: Seq<char>) -> Option<
    (Seq<char>, Seq<char>),
> {
    match find_spec(s, separator) {
        Some(at) => Some((s.take(at), s.skip(at + separator.len()))),
        None => None,
    }
}

/// Splits at the first occurrence of the separator.
pub fn split_once<'a>(s: &'a [char], separator: &[char]) -> (result: Option<
    (&'a [char], &'a [char]),
>)
    ensures
        result is Some <==> split_once_spec(s@, separator@) is Some,
        result matches Some(parts) ==> (parts.0@, parts.1@) == split_once_spec(s@, separator@)->0,
{
    match find(s, separator) {
        Some(at) => {
            let rest: usize = s.len() - at;
            assert(separator@.len() <= rest);
            let end: usize = at + separator.len();
            assert(s@.subrange(0, at as int) =~= s@.take(at as int));
            assert(s@.subrange(end as int, s@.len() as int) =~= s@.skip(end as int));
            Some((slice_subrange(s, 0, at), slice_subrange(s, end, s.len())))
        },
        None => None,
    }
}

/// The index after the last occurrence of a character, or zero.
pub open spec fn after_last(s: Seq<char>, c: char) -> nat
    decreases s.len(),
{
    if s.len() == 0 {
        0
    } else if s.last() == c {
        s.len()
    } else {
        after_last(s.drop_last(), c)
    }
}

/// Finds the index after the last occurrence of a character.
pub fn find_after_last(s: &[char], c: char) -> (result: usize)
    ensures
        result == after_last(s@, c),
        result <= s@.len(),
        result > 0 ==> s@[result - 1] == c,
{
    let mut n: usize = s.len();
    while n > 0
        invariant
            n <= s@.len(),
            after_last(s@.take(n as int), c) == after_last(s@, c),
        decreases n,
    {
        if s[n - 1] == c {
            return n;
        }
        assert(s@.take(n as int).drop_last() =~= s@.take(n as int - 1));
        n -= 1;
    }
    0
}

// ---------------------------------------------------------------------------
// Splitting
// ---------------------------------------------------------------------------

/// The texts that a vector of slices holds.
pub open spec fn parts_view(parts: Seq<&[char]>) -> Seq<Seq<char>> {
    Seq::new(parts.len(), |i: int| parts[i]@)
}

/// The pieces of the text between the occurrences of a separator, which do not
/// overlap and are taken from the left.
pub open spec fn split_spec(s: Seq<char>, separator: Seq<char>) -> Seq<Seq<char>>
    decreases s.len(),
{
    match find_spec(s, separator) {
        Some(at) if separator.len() > 0 && at >= 0 && at + separator.len() <= s.len() => seq![
            s.take(at),
        ] + split_spec(s.skip(at + separator.len()), separator),
        _ => seq![s],
    }
}

/// Splits at every occurrence of a separator.
pub fn split<'a>(s: &'a [char], separator: &[char]) -> (result: Vec<&'a [char]>)
    requires
        separator@.len() > 0,
    ensures
        parts_view(result@) == split_spec(s@, separator@),
        result@.len() >= 1,
{
    let mut result: Vec<&'a [char]> = Vec::new();
    let mut rest: &'a [char] = s;
    loop
        invariant
            separator@.len() > 0,
            parts_view(result@) + split_spec(rest@, separator@) == split_spec(s@, separator@),
        decreases rest@.len(),
    {
        let ghost before = parts_view(result@);
        let ghost whole = rest@;
        match split_once(rest, separator) {
            Some(parts) => {
                proof {
                    lemma_find_from(rest@, separator@, 0);
                }
                result.push(parts.0);
                rest = parts.1;
                assert(parts_view(result@) =~= before + seq![parts.0@]);
                assert(before + (seq![parts.0@] + split_spec(rest@, separator@)) =~= parts_view(
                    result@,
                ) + split_spec(rest@, separator@));
            },
            None => {
                result.push(rest);
                assert(parts_view(result@) =~= before + seq![rest@]);
                return result;
            },
        }
    }
}

/// At most `count` pieces between the occurrences of a character; the last one
/// holds the rest.
pub open spec fn splitn_spec(s: Seq<char>, count: nat, separator: char) -> Seq<Seq<char>>
    decreases count,
{
    if count == 0 {
        Seq::empty()
    } else {
        match find_spec(s, seq![separator]) {
            Some(at) if count > 1 => seq![s.take(at)] + splitn_spec(
                s.skip(at + 1),
                (count - 1) as nat,
                separator,
            ),
            _ => seq![s],
        }
    }
}

/// Splits at a character into at most `count` pieces.
pub fn splitn(s: &[char], count: usize, separator: char) -> (result: Vec<&[char]>)
    ensures
        parts_view(result@) == splitn_spec(s@, count as nat, separator),
        result@.len() <= count,
{
    let mut result: Vec<&[char]> = Vec::new();
    let mut rest: &[char] = s;
    let mut left: usize = count;
    let pattern: Vec<char> = vec![separator];
    assert(pattern@ =~= seq![separator]);
    while left > 0
        invariant
            left + result@.len() <= count,
            pattern@ == seq![separator],
            parts_view(result@) + splitn_spec(rest@, left as nat, separator) == splitn_spec(
                s@,
                count as nat,
                separator,
            ),
        decreases left,
    {
        let ghost before = parts_view(result@);
        if left > 1 {
            match split_once(rest, &pattern) {
                Some(parts) => {
                    result.push(parts.0);
                    rest = parts.1;
                    left -= 1;
                    assert(parts_view(result@) =~= before + seq![parts.0@]);
                    assert(before + (seq![parts.0@] + splitn_spec(rest@, left as nat, separator))
                        =~= parts_view(result@) + splitn_spec(rest@, left as nat, separator));
                },
                None => {
                    result.push(rest);
                    assert(parts_view(result@) =~= before + seq![rest@]);
                    return result;
                },
            }
        } else {
            result.push(rest);
            assert(parts_view(result@) =~= before + seq![rest@]);
            return result;
        }
    }
    assert(parts_view(result@) =~= splitn_spec(s@, count as nat, separator));
    result
}

/// A line without the carriage return before its line feed.
pub open spec fn strip_carriage_return(s: Seq<char>) -> Seq<char> {
    if s.len() > 0 && s.last() == '\r' {
        s.drop_last()
    } else {
        s
    }
}

/// The lines of the text. A line ends with a line feed, or with a carriage
/// return and a line feed; the end of the last line is optional.
pub open spec fn lines_spec(s: Seq<char>) -> Seq<Seq<char>>
    decreases s.len(),
{
    if s.len() == 0 {
        Seq::empty()
    } else {
        match find_spec(s, seq!['\n']) {
            Some(at) if 0 <= at < s.len() => seq![strip_carriage_return(s.take(at))] + lines_spec(
                s.skip(at + 1),
            ),
            _ => seq![s],
        }
    }
}

/// Splits the text into its lines.
pub fn lines(s: &[char]) -> (result: Vec<&[char]>)
    ensures
        parts_view(result@) == lines_spec(s@),
{
    let mut result: Vec<&[char]> = Vec::new();
    let mut rest: &[char] = s;
    let pattern: Vec<char> = vec!['\n'];
    assert(pattern@ =~= seq!['\n']);
    assert(parts_view(result@) =~= Seq::<Seq<char>>::empty());
    while rest.len() > 0
        invariant
            pattern@ == seq!['\n'],
            parts_view(result@) + lines_spec(rest@) == lines_spec(s@),
        decreases rest@.len(),
    {
        let ghost before = parts_view(result@);
        match split_once(rest, &pattern) {
            Some(parts) => {
                proof {
                    lemma_find_from(rest@, pattern@, 0);
                }
                let mut line: &[char] = parts.0;
                if line.len() > 0 && line[line.len() - 1] == '\r' {
                    assert(line@.subrange(0, line@.len() - 1) =~= line@.drop_last());
                    line = slice_subrange(line, 0, line.len() - 1);
                }
                result.push(line);
                rest = parts.1;
                assert(parts_view(result@) =~= before + seq![line@]);
                assert(before + (seq![line@] + lines_spec(rest@)) =~= parts_view(result@)
                    + lines_spec(rest@));
            },
            None => {
                result.push(rest);
                assert(parts_view(result@) =~= before + seq![rest@]);
                return result;
            },
        }
    }
    assert(parts_view(result@) =~= lines_spec(s@));
    result
}

// ---------------------------------------------------------------------------
// Joining and replacing
// ---------------------------------------------------------------------------

/// The pieces one after the other, with the separator between them.
pub open spec fn join_spec(parts: Seq<Seq<char>>, separator: Seq<char>) -> Seq<char>
    decreases parts.len(),
{
    if parts.len() == 0 {
        Seq::empty()
    } else if parts.len() == 1 {
        parts[0]
    } else {
        join_spec(parts.drop_last(), separator) + separator + parts.last()
    }
}

/// Joins pieces with a separator between them.
pub fn join(parts: &[&[char]], separator: &[char]) -> (result: Vec<char>)
    ensures
        result@ == join_spec(parts_view(parts@), separator@),
{
    let mut result: Vec<char> = Vec::new();
    let mut i: usize = 0;
    while i < parts.len()
        invariant
            i <= parts@.len(),
            result@ == join_spec(parts_view(parts@).take(i as int), separator@),
        decreases parts@.len() - i,
    {
        if i > 0 {
            extend_chars(&mut result, separator);
        }
        extend_chars(&mut result, parts[i]);
        assert(parts_view(parts@).take(i as int + 1).drop_last() =~= parts_view(parts@).take(
            i as int,
        ));
        i += 1;
        assert(result@ =~= join_spec(parts_view(parts@).take(i as int), separator@));
    }
    assert(parts_view(parts@).take(i as int) =~= parts_view(parts@));
    result
}

/// The text with every occurrence of one text, from the left and without
/// overlap, replaced by another.
pub open spec fn replace_spec(s: Seq<char>, from: Seq<char>, to: Seq<char>) -> Seq<char> {
    join_spec(split_spec(s, from), to)
}

/// Replaces every occurrence of one text by another.
pub fn replace(s: &[char], from: &[char], to: &[char]) -> (result: Vec<char>)
    requires
        from@.len() > 0,
    ensures
        result@ == replace_spec(s@, from@, to@),
{
    let parts = split(s, from);
    join(&parts, to)
}

// ---------------------------------------------------------------------------
// Letter case
// ---------------------------------------------------------------------------

/// A character with an ASCII capital letter made small.
pub open spec fn lower_char(c: char) -> char {
    if 'A' <= c && c <= 'Z' {
        ((c as u8 + 32) as u8) as char
    } else {
        c
    }
}

/// Makes an ASCII capital letter small.
pub fn to_lower_char(c: char) -> (result: char)
    ensures
        result == lower_char(c),
{
    if 'A' <= c && c <= 'Z' {
        (c as u8 + 32) as char
    } else {
        c
    }
}

/// The text with its ASCII capital letters made small.
pub open spec fn lower_spec(s: Seq<char>) -> Seq<char> {
    Seq::new(s.len(), |i: int| lower_char(s[i]))
}

/// Makes the ASCII capital letters small.
pub fn to_lower(s: &[char]) -> (result: Vec<char>)
    ensures
        result@ == lower_spec(s@),
{
    let mut result: Vec<char> = Vec::new();
    let mut i: usize = 0;
    while i < s.len()
        invariant
            i <= s@.len(),
            result@ == lower_spec(s@).take(i as int),
        decreases s@.len() - i,
    {
        result.push(to_lower_char(s[i]));
        i += 1;
        assert(result@ =~= lower_spec(s@).take(i as int));
    }
    assert(result@ =~= lower_spec(s@));
    result
}

/// Whether two texts agree but for the case of ASCII letters.
pub fn eq_ignore_case(a: &[char], b: &[char]) -> (result: bool)
    ensures
        result <==> lower_spec(a@) == lower_spec(b@),
{
    let lower_a = to_lower(a);
    let lower_b = to_lower(b);
    chars_eq(&lower_a, &lower_b)
}

// ---------------------------------------------------------------------------
// Decimal numbers
// ---------------------------------------------------------------------------

/// Whether a character is an ASCII digit.
pub open spec fn is_digit(c: char) -> bool {
    '0' <= c && c <= '9'
}

/// The value of an ASCII digit.
pub open spec fn digit_value(c: char) -> nat {
    (c as u32 - '0' as u32) as nat
}

/// Whether every character is an ASCII digit.
pub open spec fn all_digits(s: Seq<char>) -> bool {
    forall|i: int| 0 <= i < s.len() ==> is_digit(#[trigger] s[i])
}

/// The value of a row of decimal digits.
pub open spec fn digits_value(s: Seq<char>) -> nat
    decreases s.len(),
{
    if s.len() == 0 {
        0
    } else {
        digits_value(s.drop_last()) * 10 + digit_value(s.last())
    }
}

/// The row of digits after an optional sign.
pub open spec fn unsigned_part(s: Seq<char>) -> Seq<char> {
    if s.len() > 0 && s[0] == '+' {
        s.skip(1)
    } else {
        s
    }
}

/// The number that a decimal numeral with an optional `+` stands for, if it is
/// one and does not exceed the limit.
pub open spec fn parse_unsigned_spec(s: Seq<char>, limit: nat) -> Option<nat> {
    let digits = unsigned_part(s);
    if digits.len() > 0 && all_digits(digits) && digits_value(digits) <= limit {
        Some(digits_value(digits))
    } else {
        None
    }
}

/// A longer row of digits does not have a smaller value.
proof fn lemma_digits_value_grows(s: Seq<char>, n: int)
    requires
        0 <= n <= s.len(),
        all_digits(s),
    ensures
        digits_value(s.take(n)) <= digits_value(s),
    decreases s.len(),
{
    if n < s.len() {
        lemma_digits_value_grows(s.drop_last(), n);
        assert(s.drop_last().take(n) =~= s.take(n));
    } else {
        assert(s.take(n) =~= s);
    }
}

/// Reads a row of digits.
fn parse_digits(s: &[char], limit: u64) -> (result: Option<u64>)
    ensures
        (result is Some) <==> (s@.len() > 0 && all_digits(s@) && digits_value(s@) <= limit),
        result matches Some(value) ==> value == digits_value(s@),
{
    if s.len() == 0 {
        return None;
    }
    let mut value: u64 = 0;
    let mut i: usize = 0;
    while i < s.len()
        invariant
            i <= s@.len(),
            all_digits(s@.take(i as int)),
            value == digits_value(s@.take(i as int)),
            value <= limit,
        decreases s@.len() - i,
    {
        let c = s[i];
        if !('0' <= c && c <= '9') {
            assert(!is_digit(s@[i as int]));
            return None;
        }
        let digit: u64 = (c as u32 - '0' as u32) as u64;
        let ghost longer = s@.take(i as int + 1);
        assert(longer.drop_last() =~= s@.take(i as int));
        assert(digits_value(longer) == value * 10 + digit);
        if value > (u64::MAX - digit) / 10 || value * 10 + digit > limit {
            proof {
                if all_digits(s@) {
                    lemma_digits_value_grows(s@, i as int + 1);
                }
            }
            return None;
        }
        value = value * 10 + digit;
        i += 1;
        assert forall|k: int| 0 <= k < i implies is_digit(#[trigger] s@.take(i as int)[k]) by {
            if k < i - 1 {
                assert(s@.take(i as int - 1)[k] == s@[k]);
            }
        }
    }
    assert(s@.take(i as int) =~= s@);
    Some(value)
}

/// Reads a decimal numeral with an optional `+`.
pub fn parse_unsigned(s: &[char], limit: u64) -> (result: Option<u64>)
    ensures
        result is Some <==> parse_unsigned_spec(s@, limit as nat) is Some,
        result matches Some(value) ==> parse_unsigned_spec(s@, limit as nat) == Some(value as nat),
{
    if s.len() > 0 && s[0] == '+' {
        assert(s@.subrange(1, s@.len() as int) =~= s@.skip(1));
        parse_digits(slice_subrange(s, 1, s.len()), limit)
    } else {
        parse_digits(s, limit)
    }
}

/// The number that a decimal numeral with an optional sign stands for, if it is
/// one and fits into 64 bits.
pub open spec fn parse_signed_spec(s: Seq<char>) -> Option<int> {
    if s.len() > 0 && s[0] == '-' {
        let digits = s.skip(1);
        if digits.len() > 0 && all_digits(digits) && digits_value(digits) <= 0x8000_0000_0000_0000 {
            Some(-(digits_value(digits) as int))
        } else {
            None
        }
    } else {
        match parse_unsigned_spec(s, i64::MAX as nat) {
            Some(value) => Some(value as int),
            None => None,
        }
    }
}

/// Reads a decimal numeral with an optional sign.
pub fn parse_signed(s: &[char]) -> (result: Option<i64>)
    ensures
        result is Some <==> parse_signed_spec(s@) is Some,
        result matches Some(value) ==> parse_signed_spec(s@) == Some(value as int),
{
    if s.len() > 0 && s[0] == '-' {
        assert(s@.subrange(1, s@.len() as int) =~= s@.skip(1));
        match parse_digits(slice_subrange(s, 1, s.len()), 0x8000_0000_0000_0000) {
            Some(value) => {
                if value == 0x8000_0000_0000_0000 {
                    Some(i64::MIN)
                } else {
                    Some(-(value as i64))
                }
            },
            None => None,
        }
    } else {
        match parse_unsigned(s, i64::MAX as u64) {
            Some(value) => Some(value as i64),
            None => None,
        }
    }
}

/// The character of a decimal digit.
pub open spec fn digit_char(value: nat) -> char {
    ((value + '0' as u32) as u8) as char
}

/// The decimal numeral of a number.
pub open spec fn decimal_spec(value: nat) -> Seq<char>
    decreases value,
{
    if value < 10 {
        seq![digit_char(value)]
    } else {
        decimal_spec(value / 10).push(digit_char(value % 10))
    }
}

/// The decimal numeral of a number, with a zero before a single digit.
pub open spec fn two_digits_spec(value: nat) -> Seq<char> {
    if value < 10 {
        seq!['0'] + decimal_spec(value)
    } else {
        decimal_spec(value)
    }
}

/// Appends the decimal numeral of a number.
pub fn push_decimal(target: &mut Vec<char>, value: u128)
    ensures
        final(target)@ == old(target)@ + decimal_spec(value as nat),
    decreases value,
{
    let digit: u8 = (value % 10) as u8 + 48;
    if value >= 10 {
        push_decimal(target, value / 10);
    }
    target.push(digit as char);
    assert(target@ =~= old(target)@ + decimal_spec(value as nat));
}

/// Appends the decimal numeral of a number, with a zero before a single digit.
pub fn push_two_digits(target: &mut Vec<char>, value: u128)
    ensures
        final(target)@ == old(target)@ + two_digits_spec(value as nat),
{
    if value < 10 {
        target.push('0');
    }
    push_decimal(target, value);
    assert(target@ =~= old(target)@ + two_digits_spec(value as nat));
}

/// A decimal numeral is a row of digits with the value of the number.
pub proof fn lemma_decimal_digits(value: nat)
    ensures
        decimal_spec(value).len() > 0,
        all_digits(decimal_spec(value)),
        digits_value(decimal_spec(value)) == value,
    decreases value,
{
    if value < 10 {
        let s = decimal_spec(value);
        assert(s.drop_last() =~= Seq::<char>::empty());
        assert(digits_value(s.drop_last()) == 0);
    } else {
        lemma_decimal_digits(value / 10);
        let s = decimal_spec(value);
        assert(s.drop_last() =~= decimal_spec(value / 10));
        assert(s.last() == digit_char(value % 10));
        assert forall|i: int| 0 <= i < s.len() implies is_digit(#[trigger] s[i]) by {
            if i < s.len() - 1 {
                assert(s[i] == decimal_spec(value / 10)[i]);
            }
        }
    }
}

/// Reading a printed number gives the number back.
pub proof fn law_parse_of_decimal(value: nat, limit: nat)
    requires
        value <= limit,
    ensures
        parse_unsigned_spec(decimal_spec(value), limit) == Some(value),
{
    lemma_decimal_digits(value);
    assert(is_digit(decimal_spec(value)[0]));
}

// ---------------------------------------------------------------------------
// Laws
// ---------------------------------------------------------------------------

/// Whether a character occurs in a text.
pub open spec fn has_char(s: Seq<char>, c: char) -> bool {
    exists|i: int| 0 <= i < s.len() && s[i] == c
}

/// What is split comes together again: the pieces, with the separator between them,
/// are the text, and at the first separator the text falls into two.
pub proof fn law_split_comes_together(s: Seq<char>, separator: Seq<char>)
    requires
        separator.len() > 0,
    ensures
        join_spec(split_spec(s, separator), separator) == s,
        split_spec(s, separator).len() > 0,
        match split_once_spec(s, separator) {
            Some((before, behind)) => s == before + separator + behind && split_spec(s, separator)
                == seq![before] + split_spec(behind, separator),
            None => split_spec(s, separator) == seq![s],
        },
    decreases s.len(),
{
    lemma_find_from(s, separator, 0);
    if let Some(at) = find_spec(s, separator) {
        let rest = s.skip(at + separator.len());
        law_split_comes_together(rest, separator);
        lemma_join_first(s.take(at), split_spec(rest, separator), separator);
        assert(s =~= s.take(at) + separator + rest) by {
            let found = s.subrange(at, at + separator.len());
            assert(found == separator);
            assert forall|i: int| at <= i < at + separator.len() implies s[i] == separator[i
                - at] by {
                assert(found[i - at] == s[i]);
            }
        }
    } else {
        assert(seq![s].len() == 1);
    }
}

/// Pieces with one more in front.
pub proof fn lemma_join_first(first: Seq<char>, rest: Seq<Seq<char>>, separator: Seq<char>)
    requires
        rest.len() > 0,
    ensures
        join_spec(seq![first] + rest, separator) == first + separator + join_spec(rest, separator),
    decreases rest.len(),
{
    let all = seq![first] + rest;
    assert(all.drop_last() =~= seq![first] + rest.drop_last());
    if rest.len() == 1 {
        assert(all.drop_last() =~= seq![first]);
        assert(seq![first].len() == 1);
        assert(join_spec(seq![first], separator) == first);
        assert(all.last() == rest[0]);
        assert(join_spec(all, separator) =~= first + separator + rest[0]);
    } else {
        lemma_join_first(first, rest.drop_last(), separator);
        assert(join_spec(all, separator) =~= first + separator + join_spec(rest, separator));
    }
}

/// A separator is found behind a text in which it does not occur, given that it
/// cannot start within itself.
pub proof fn lemma_find_separator(before: Seq<char>, separator: Seq<char>, behind: Seq<char>)
    requires
        separator.len() > 0,
        !contains_spec(before, separator),
        forall|j: int| 0 < j < separator.len() ==> #[trigger] separator[j] != separator[0],
    ensures
        find_spec(before + separator + behind, separator) == Some(before.len() as int),
{
    let s = before + separator + behind;
    let at = before.len() as int;
    lemma_find_from(s, separator, 0);
    lemma_find_from(before, separator, 0);
    assert(s.subrange(at, at + separator.len()) =~= separator);
    assert(occurs_at(s, separator, at));
    assert forall|k: int| 0 <= k < at implies !occurs_at(s, separator, k) by {
        if occurs_at(s, separator, k) {
            let found = s.subrange(k, k + separator.len());
            if k + separator.len() <= at {
                assert(before.subrange(k, k + separator.len()) =~= found);
                assert(occurs_at(before, separator, k));
            } else {
                assert(found[at - k] == s[at]);
                assert(s[at] == separator[0]);
            }
        }
    }
}

/// A separator does not start where its first character does not stand.
proof fn lemma_starts_with_first(s: Seq<char>, separator: Seq<char>, k: int)
    requires
        separator.len() > 0,
        0 <= k < s.len(),
        s[k] != separator[0],
    ensures
        !occurs_at(s, separator, k),
{
    if occurs_at(s, separator, k) {
        assert(s.subrange(k, k + separator.len())[0] == s[k]);
    }
}

/// A separator is found behind a text in which its first character does not occur.
pub proof fn lemma_find_behind_others(before: Seq<char>, separator: Seq<char>, behind: Seq<char>)
    requires
        separator.len() > 0,
        !has_char(before, separator[0]),
    ensures
        find_spec(before + separator + behind, separator) == Some(before.len() as int),
{
    let s = before + separator + behind;
    let at = before.len() as int;
    let c = separator[0];
    assert forall|k: int| 0 <= k < at implies !occurs_at(s, separator, k) by {
        assert(s[k] == before[k]);
        assert(before[k] != c);
        lemma_starts_with_first(s, separator, k);
    }
    lemma_occurs_between(before, separator, behind);
    lemma_first_is_found(s, separator, at);
}

/// The first occurrence is the one that is found.
pub proof fn lemma_first_is_found(s: Seq<char>, separator: Seq<char>, at: int)
    requires
        occurs_at(s, separator, at),
        forall|k: int| 0 <= k < at ==> !occurs_at(s, separator, k),
    ensures
        find_spec(s, separator) == Some(at),
{
    lemma_find_from(s, separator, 0);
}

/// What stands between two texts occurs there.
pub proof fn lemma_occurs_between(before: Seq<char>, separator: Seq<char>, behind: Seq<char>)
    ensures
        occurs_at(before + separator + behind, separator, before.len() as int),
{
    let s = before + separator + behind;
    let at = before.len() as int;
    assert(s.subrange(at, at + separator.len()) =~= separator);
}

/// A text is parted at the first separator, which stands behind a text in which its
/// first character does not occur.
pub proof fn law_parted_at_the_first_separator(
    before: Seq<char>,
    separator: Seq<char>,
    behind: Seq<char>,
)
    requires
        separator.len() > 0,
        !has_char(before, separator[0]),
    ensures
        split_once_spec(before + separator + behind, separator) == Some((before, behind)),
{
    let s = before + separator + behind;
    let at = before.len() as int;
    lemma_find_behind_others(before, separator, behind);
    assert(s.take(at) =~= before);
    assert(s.skip(at + separator.len()) =~= behind);
}

/// Pieces that were joined are told apart again, given that the separator occurs in
/// none of them and cannot start within itself.
pub proof fn law_joined_pieces_are_told_apart(parts: Seq<Seq<char>>, separator: Seq<char>)
    requires
        parts.len() > 0,
        separator.len() > 0,
        forall|i: int| 0 <= i < parts.len() ==> !contains_spec(#[trigger] parts[i], separator),
        forall|j: int| 0 < j < separator.len() ==> #[trigger] separator[j] != separator[0],
    ensures
        split_spec(join_spec(parts, separator), separator) == parts,
    decreases parts.len(),
{
    if parts.len() == 1 {
        assert(!contains_spec(parts[0], separator));
        assert(split_spec(parts[0], separator) =~= parts);
    } else {
        let rest = parts.skip(1);
        assert forall|i: int| 0 <= i < rest.len() implies !contains_spec(
            #[trigger] rest[i],
            separator,
        ) by {
            assert(!contains_spec(parts[i + 1], separator));
        }
        law_joined_pieces_are_told_apart(rest, separator);
        assert(seq![parts[0]] + rest =~= parts);
        lemma_join_first(parts[0], rest, separator);
        let s = join_spec(parts, separator);
        let behind = join_spec(rest, separator);
        assert(!contains_spec(parts[0], separator));
        lemma_find_separator(parts[0], separator, behind);
        assert(s.take(parts[0].len() as int) =~= parts[0]);
        assert(s.skip((parts[0].len() + separator.len()) as int) =~= behind);
        assert(split_spec(s, separator) =~= parts);
    }
}

/// A character that does not occur is not found.
pub proof fn lemma_no_char_is_found(s: Seq<char>, c: char)
    ensures
        contains_spec(s, seq![c]) <==> has_char(s, c),
{
    lemma_find_from(s, seq![c], 0);
    if let Some(at) = find_spec(s, seq![c]) {
        assert(s.subrange(at, at + 1)[0] == c);
        assert(s[at] == c);
    }
    if has_char(s, c) {
        let at = choose|i: int| 0 <= i < s.len() && s[i] == c;
        assert(s.subrange(at, at + 1) =~= seq![c]);
        assert(occurs_at(s, seq![c], at));
    }
}

/// A text is split at a character just where it occurs: no piece holds it.
pub proof fn law_pieces_hold_no_separator(s: Seq<char>, c: char)
    ensures
        forall|i: int|
            0 <= i < split_spec(s, seq![c]).len() ==> !has_char(
                #[trigger] split_spec(s, seq![c])[i],
                c,
            ),
    decreases s.len(),
{
    lemma_find_from(s, seq![c], 0);
    lemma_no_char_is_found(s, c);
    if let Some(at) = find_spec(s, seq![c]) {
        law_pieces_hold_no_separator(s.skip(at + 1), c);
        let before = s.take(at);
        if has_char(before, c) {
            let k = choose|k: int| 0 <= k < before.len() && before[k] == c;
            assert(s.subrange(k, k + 1) =~= seq![c]);
            assert(occurs_at(s, seq![c], k));
        }
        let rest = split_spec(s.skip(at + 1), seq![c]);
        assert forall|i: int| 0 <= i < split_spec(s, seq![c]).len() implies !has_char(
            #[trigger] split_spec(s, seq![c])[i],
            c,
        ) by {
            if i > 0 {
                assert(split_spec(s, seq![c])[i] == rest[i - 1]);
            }
        }
    }
}

/// What is cut off at the front is a prefix, and what follows a prefix is left.
pub proof fn law_prefix_and_rest(prefix: Seq<char>, rest: Seq<char>, s: Seq<char>)
    ensures
        strip_prefix_spec(prefix + rest, prefix) == Some(rest),
        strip_prefix_spec(s, prefix) == Some(rest) ==> s == prefix + rest,
{
    let whole = prefix + rest;
    assert(whole.subrange(0, prefix.len() as int) =~= prefix);
    assert(whole.skip(prefix.len() as int) =~= rest);
    if strip_prefix_spec(s, prefix) == Some(rest) {
        let found = s.subrange(0, prefix.len() as int);
        assert(found == prefix);
        assert forall|i: int| 0 <= i < prefix.len() implies s[i] == prefix[i] by {
            assert(found[i] == s[i]);
        }
        assert(s =~= prefix + rest);
    }
}

/// Only white space is cut off by trimming, and all of it.
pub proof fn law_trimming_takes_white_space(before: Seq<char>, s: Seq<char>, behind: Seq<char>)
    requires
        forall|i: int| 0 <= i < before.len() ==> is_space(#[trigger] before[i]),
        forall|i: int| 0 <= i < behind.len() ==> is_space(#[trigger] behind[i]),
        s.len() == 0 || (!is_space(s[0]) && !is_space(s.last())),
    ensures
        trim_spec(before + s + behind) == s,
{
    let whole = before + s + behind;
    lemma_trim_start(before, s + behind);
    assert(whole =~= before + (s + behind));
    if s.len() == 0 {
        assert(s + behind =~= behind);
        assert(before + behind =~= (before + behind) + Seq::<char>::empty());
        assert forall|i: int| 0 <= i < (before + behind).len() implies is_space(
            #[trigger] (before + behind)[i],
        ) by {
            if i < before.len() {
                assert(is_space(before[i]));
            } else {
                assert(is_space(behind[i - before.len()]));
            }
        }
        lemma_trim_start(before + behind, Seq::empty());
        assert(whole =~= before + behind + Seq::<char>::empty());
        assert(trim_start_spec(whole) =~= Seq::<char>::empty());
    } else {
        assert((s + behind)[0] == s[0]);
        lemma_trim_end(s, behind);
    }
}

proof fn lemma_trim_start(before: Seq<char>, rest: Seq<char>)
    requires
        forall|i: int| 0 <= i < before.len() ==> is_space(#[trigger] before[i]),
    ensures
        rest.len() == 0 || !is_space(rest[0]) ==> trim_start_spec(before + rest) == rest,
    decreases before.len(),
{
    if before.len() == 0 {
        assert(before + rest =~= rest);
    } else {
        assert(is_space(before[0]));
        assert((before + rest)[0] == before[0]);
        assert((before + rest).skip(1) =~= before.skip(1) + rest);
        assert forall|i: int| 0 <= i < before.skip(1).len() implies is_space(
            #[trigger] before.skip(1)[i],
        ) by {
            assert(is_space(before[i + 1]));
        }
        lemma_trim_start(before.skip(1), rest);
    }
}

proof fn lemma_trim_end(rest: Seq<char>, behind: Seq<char>)
    requires
        forall|i: int| 0 <= i < behind.len() ==> is_space(#[trigger] behind[i]),
    ensures
        rest.len() == 0 || !is_space(rest.last()) ==> trim_end_spec(rest + behind) == rest,
    decreases behind.len(),
{
    if behind.len() == 0 {
        assert(rest + behind =~= rest);
    } else {
        assert(is_space(behind[behind.len() - 1]));
        assert((rest + behind).last() == behind.last());
        assert((rest + behind).drop_last() =~= rest + behind.drop_last());
        assert forall|i: int| 0 <= i < behind.drop_last().len() implies is_space(
            #[trigger] behind.drop_last()[i],
        ) by {
            assert(is_space(behind[i]));
        }
        lemma_trim_end(rest, behind.drop_last());
    }
}

/// The first word of a text ends where white space follows.
pub proof fn law_first_word(before: Seq<char>, word: Seq<char>, behind: Seq<char>)
    requires
        forall|i: int| 0 <= i < before.len() ==> is_space(#[trigger] before[i]),
        word.len() > 0,
        forall|i: int| 0 <= i < word.len() ==> !is_space(#[trigger] word[i]),
        behind.len() == 0 || is_space(behind[0]),
    ensures
        first_word_spec(before + word + behind) == Some(word),
{
    assert(before + word + behind =~= before + (word + behind));
    assert(!is_space(word[0]));
    assert((word + behind)[0] == word[0]);
    lemma_trim_start(before, word + behind);
    lemma_word_prefix(word, behind);
}

proof fn lemma_word_prefix(word: Seq<char>, behind: Seq<char>)
    requires
        forall|i: int| 0 <= i < word.len() ==> !is_space(#[trigger] word[i]),
        behind.len() == 0 || is_space(behind[0]),
    ensures
        word_prefix(word + behind) == word,
    decreases word.len(),
{
    if word.len() == 0 {
        assert(word + behind =~= behind);
        assert(word_prefix(behind) =~= word);
    } else {
        assert(!is_space(word[0]));
        assert((word + behind)[0] == word[0]);
        assert((word + behind).skip(1) =~= word.skip(1) + behind);
        assert forall|i: int| 0 <= i < word.skip(1).len() implies !is_space(
            #[trigger] word.skip(1)[i],
        ) by {
            assert(!is_space(word[i + 1]));
        }
        lemma_word_prefix(word.skip(1), behind);
        assert(seq![word[0]] + word.skip(1) =~= word);
    }
}

/// A line ends at its line feed, and the lines behind it follow.
pub proof fn law_lines_follow_each_other(line: Seq<char>, rest: Seq<char>)
    requires
        !has_char(line, '\n'),
        line.len() == 0 || line.last() != '\r',
    ensures
        lines_spec(line + seq!['\n'] + rest) == seq![line] + lines_spec(rest),
        lines_spec(line + seq!['\r', '\n'] + rest) == seq![line] + lines_spec(rest),
        line.len() > 0 ==> lines_spec(line) == seq![line],
{
    let feed = seq!['\n'];
    let s = line + feed + rest;
    lemma_find_behind_others(line, feed, rest);
    assert(s.take(line.len() as int) =~= line);
    assert(s.skip(line.len() as int + 1) =~= rest);
    assert(lines_spec(s) =~= seq![line] + lines_spec(rest));
    let longer = line.push('\r');
    assert(!has_char(longer, '\n')) by {
        if has_char(longer, '\n') {
            let i = choose|i: int| 0 <= i < longer.len() && longer[i] == '\n';
            assert(i < line.len());
            assert(line[i] == '\n');
        }
    }
    let t = longer + feed + rest;
    assert(t =~= line + seq!['\r', '\n'] + rest);
    lemma_find_behind_others(longer, feed, rest);
    assert(t.take(longer.len() as int) =~= longer);
    assert(t.skip(longer.len() as int + 1) =~= rest);
    assert(longer.drop_last() =~= line);
    assert(lines_spec(t) =~= seq![line] + lines_spec(rest));
    lemma_no_char_is_found(line, '\n');
}

/// Of the letters only the capitals change when they are made small, each into its
/// small one; small text stays as it is.
pub proof fn law_small_letters(s: Seq<char>, i: int)
    requires
        0 <= i < s.len(),
    ensures
        lower_spec(s).len() == s.len(),
        'A' <= s[i] && s[i] <= 'Z' ==> lower_spec(s)[i] as u32 == s[i] as u32 + 32,
        !('A' <= s[i] && s[i] <= 'Z') ==> lower_spec(s)[i] == s[i],
        lower_spec(lower_spec(s)) == lower_spec(s),
{
    assert(lower_spec(lower_spec(s)) =~= lower_spec(s));
}

/// Behind the last occurrence of a character it does not occur again.
pub proof fn law_behind_the_last(s: Seq<char>, c: char)
    ensures
        after_last(s, c) <= s.len(),
        after_last(s, c) > 0 ==> s[after_last(s, c) - 1] == c,
        forall|i: int| after_last(s, c) <= i < s.len() ==> #[trigger] s[i] != c,
    decreases s.len(),
{
    if s.len() > 0 && s.last() != c {
        law_behind_the_last(s.drop_last(), c);
        assert forall|i: int| after_last(s, c) <= i < s.len() implies #[trigger] s[i] != c by {
            if i < s.len() - 1 {
                assert(s.drop_last()[i] == s[i]);
            }
        }
    }
}

/// Reading a printed number with its sign gives the number back.
pub proof fn law_parse_of_signed_decimal(value: nat)
    requires
        value <= i64::MAX,
    ensures
        parse_signed_spec(decimal_spec(value)) == Some(value as int),
        parse_signed_spec(seq!['-'] + decimal_spec(value)) == Some(-(value as int)),
{
    lemma_decimal_digits(value);
    law_parse_of_decimal(value, i64::MAX as nat);
    let digits = decimal_spec(value);
    assert(is_digit(digits[0]));
    assert((seq!['-'] + digits).skip(1) =~= digits);
}

/// Pieces up to a count come together again, and there are no more of them.
pub proof fn law_counted_pieces_come_together(s: Seq<char>, count: nat, separator: char)
    requires
        count > 0,
    ensures
        join_spec(splitn_spec(s, count, separator), seq![separator]) == s,
        0 < splitn_spec(s, count, separator).len() <= count,
    decreases count,
{
    lemma_find_from(s, seq![separator], 0);
    match find_spec(s, seq![separator]) {
        Some(at) if count > 1 => {
            let rest = s.skip(at + 1);
            law_counted_pieces_come_together(rest, (count - 1) as nat, separator);
            lemma_join_first(
                s.take(at),
                splitn_spec(rest, (count - 1) as nat, separator),
                seq![separator],
            );
            assert(s.subrange(at, at + 1)[0] == separator);
            assert(s =~= s.take(at) + seq![separator] + rest);
        },
        _ => {
            assert(seq![s].len() == 1);
        },
    }
}

/// Pieces that were joined are told apart again up to a count; the last one holds
/// the rest as it is.
pub proof fn law_counted_pieces_are_told_apart(
    first: Seq<char>,
    rest: Seq<char>,
    count: nat,
    separator: char,
)
    requires
        !has_char(first, separator),
        count > 1,
    ensures
        splitn_spec(first + seq![separator] + rest, count, separator) == seq![first] + splitn_spec(
            rest,
            (count - 1) as nat,
            separator,
        ),
        splitn_spec(rest, 1, separator) == seq![rest],
{
    lemma_find_behind_others(first, seq![separator], rest);
    let s = first + seq![separator] + rest;
    assert(s.take(first.len() as int) =~= first);
    assert(s.skip(first.len() as int + 1) =~= rest);
}

} // verus!
