//! What is written as a timestamp is read back as one.
use crate::binary64::nearest_double;
use crate::float_bits::{double_of_text, encodes, law_decimal_seconds_are_exact, plain_decimal};
use crate::subtitle::ass::{ass_timestamp_spec, centiseconds};
use crate::subtitle::parse::{int_outcome, seconds_outcome, timestamp_outcome, with_point, Outcome};
use crate::text::{
    all_digits, decimal_spec, digit_char, digits_value, find_spec, has_char, is_digit, is_space,
    join_spec, law_parse_of_decimal, law_trimming_takes_white_space, lemma_decimal_digits,
    lemma_find_from, occurs_at, split_spec, trim_spec, two_digits_spec,
};
use crate::time::MAX_NANOS;
use vstd::arithmetic::power::pow;
use vstd::prelude::*;

verus! {

broadcast use vstd::seq_lib::group_seq_properties;

/// The first occurrence of a character is the one behind a text without it.
proof fn lemma_find_char(before: Seq<char>, c: char, behind: Seq<char>)
    requires
        !has_char(before, c),
    ensures
        find_spec(before + seq![c] + behind, seq![c]) == Some(before.len() as int),
{
    let s = before + seq![c] + behind;
    let at = before.len() as int;
    lemma_find_from(s, seq![c], 0);
    assert(s.subrange(at, at + 1) =~= seq![c]);
    assert(occurs_at(s, seq![c], at));
    assert forall|k: int| 0 <= k < at implies !occurs_at(s, seq![c], k) by {
        if occurs_at(s, seq![c], k) {
            assert(s.subrange(k, k + 1)[0] == c);
            assert(before[k] == c);
        }
    }
}

/// A character that does not occur is not found.
proof fn lemma_find_no_char(s: Seq<char>, c: char)
    requires
        !has_char(s, c),
    ensures
        find_spec(s, seq![c]) is None,
{
    lemma_find_from(s, seq![c], 0);
    if let Some(at) = find_spec(s, seq![c]) {
        assert(s.subrange(at, at + 1)[0] == c);
        assert(s[at] == c);
    }
}

proof fn lemma_split_char(before: Seq<char>, c: char, behind: Seq<char>)
    requires
        !has_char(before, c),
    ensures
        split_spec(before + seq![c] + behind, seq![c]) == seq![before] + split_spec(
            behind,
            seq![c],
        ),
{
    let s = before + seq![c] + behind;
    lemma_find_char(before, c, behind);
    assert(s.take(before.len() as int) =~= before);
    assert(s.skip(before.len() as int + 1) =~= behind);
}

proof fn lemma_digits_hold_no(s: Seq<char>, c: char)
    requires
        all_digits(s),
        !is_digit(c),
    ensures
        !has_char(s, c),
{
    if has_char(s, c) {
        let i = choose|i: int| 0 <= i < s.len() && s[i] == c;
        assert(is_digit(s[i]));
    }
}

/// A row of two digits.
proof fn lemma_two_digits(value: nat)
    requires
        value < 100,
    ensures
        two_digits_spec(value).len() == 2,
        all_digits(two_digits_spec(value)),
        digits_value(two_digits_spec(value)) == value,
        two_digits_spec(value) == seq![digit_char(value / 10), digit_char(value % 10)],
{
    let s = two_digits_spec(value);
    reveal_with_fuel(decimal_spec, 3);
    assert(s =~= seq![digit_char(value / 10), digit_char(value % 10)]);
    reveal_with_fuel(digits_value, 3);
    assert(s.drop_last() =~= seq![digit_char(value / 10)]);
    assert(s.drop_last().drop_last() =~= Seq::<char>::empty());
}

proof fn lemma_trim_is_identity(s: Seq<char>)
    requires
        s.len() > 0,
        is_digit(s[0]),
        is_digit(s.last()),
    ensures
        trim_spec(s) == s,
{
    assert(!is_space(s[0]) && !is_space(s.last()));
}

/// A number of seconds with two places is read exactly.
proof fn lemma_seconds_text(seconds: nat, centis: nat, text: Seq<char>)
    requires
        seconds < 60,
        centis < 100,
        text == two_digits_spec(seconds) + seq!['.'] + two_digits_spec(centis),
        plain_decimal(text) matches Some((digits, places)) ==> double_of_text(text) is Some
            && encodes(double_of_text(text)->0, nearest_double(digits, pow(10, places) as nat)),
    ensures
        seconds_outcome(text) == Outcome::Value(
            (seconds * 1_000_000_000 + centis * 10_000_000) as nat,
        ),
{
    let a = two_digits_spec(seconds);
    let b = two_digits_spec(centis);
    lemma_two_digits(seconds);
    lemma_two_digits(centis);
    lemma_digits_hold_no(a, '.');
    lemma_find_char(a, '.', b);
    let digits = text.take(2) + text.skip(3);
    assert(digits =~= a + b);
    assert(all_digits(digits)) by {
        assert forall|i: int| 0 <= i < digits.len() implies is_digit(#[trigger] digits[i]) by {
            if i < 2 {
                assert(digits[i] == a[i]);
            } else {
                assert(digits[i] == b[i - 2]);
            }
        }
    }
    assert(digits_value(digits) == seconds * 100 + centis) by {
        reveal_with_fuel(digits_value, 6);
        assert(digits =~= seq![
            digit_char(seconds / 10),
            digit_char(seconds % 10),
            digit_char(centis / 10),
            digit_char(centis % 10),
        ]);
        assert(digits.drop_last() =~= seq![
            digit_char(seconds / 10),
            digit_char(seconds % 10),
            digit_char(centis / 10),
        ]);
        assert(digits.drop_last().drop_last() =~= seq![
            digit_char(seconds / 10),
            digit_char(seconds % 10),
        ]);
        assert(digits.drop_last().drop_last().drop_last() =~= seq![digit_char(seconds / 10)]);
        assert(digits.drop_last().drop_last().drop_last().drop_last() =~= Seq::<char>::empty());
    }
    assert(plain_decimal(text) == Some(((seconds * 100 + centis) as nat, 2nat)));
    assert(pow(10, 2) == 100 && pow(10, 7) == 10_000_000) by {
        reveal_with_fuel(pow, 8);
    }
    law_decimal_seconds_are_exact(double_of_text(text)->0, seconds * 100 + centis, 2);
}

/// A time that was written as ASS writes it is read as the same time, to the
/// nearest hundredth of a second, given that plain numerals are read as the
/// nearest doubles.
pub proof fn law_timestamp_reads_back(nanos: nat)
    requires
        centiseconds(nanos) * 10_000_000 <= MAX_NANOS,
        forall|text: Seq<char>| #[trigger]
            plain_decimal(text) matches Some((digits, places)) ==> double_of_text(text) is Some
                && encodes(
                double_of_text(text)->0,
                nearest_double(digits, pow(10, places) as nat),
            ),
    ensures
        timestamp_outcome(ass_timestamp_spec(nanos)) == Outcome::Value(
            (centiseconds(nanos) * 10_000_000) as nat,
        ),
{
    let centis = centiseconds(nanos);
    let total = centis / 100;
    let hours = decimal_spec(total / 3600);
    let minutes = two_digits_spec(total / 60 % 60);
    let whole = two_digits_spec(total % 60);
    let part = two_digits_spec(centis % 100);
    let seconds = whole + seq!['.'] + part;
    let s = ass_timestamp_spec(nanos);
    lemma_decimal_digits(total / 3600);
    lemma_two_digits(total / 60 % 60);
    lemma_two_digits(total % 60);
    lemma_two_digits(centis % 100);
    assert(s =~= hours + seq![':'] + (minutes + seq![':'] + seconds));
    // No white space around it and no comma in it.
    assert(s[0] == hours[0] && is_digit(hours[0]));
    assert(s.last() == part[1] && is_digit(part[1]));
    lemma_trim_is_identity(s);
    assert(!has_char(s, ',')) by {
        assert forall|i: int| 0 <= i < s.len() implies s[i] != ',' by {
            let n = hours.len() as int;
            if i < n {
                assert(s[i] == hours[i] && is_digit(hours[i]));
            } else if n < i < n + 3 {
                assert(s[i] == minutes[i - n - 1] && is_digit(minutes[i - n - 1]));
            } else if n + 3 < i < n + 6 {
                assert(s[i] == whole[i - n - 4] && is_digit(whole[i - n - 4]));
            } else if i > n + 6 {
                assert(s[i] == part[i - n - 7] && is_digit(part[i - n - 7]));
            }
        }
    }
    lemma_find_no_char(s, ',');
    assert(split_spec(s, seq![',']) =~= seq![s]);
    assert(join_spec(seq![s], seq!['.']) == s);
    assert(with_point(s) == s);
    // Its three parts.
    lemma_digits_hold_no(hours, ':');
    lemma_digits_hold_no(minutes, ':');
    lemma_digits_hold_no(whole, ':');
    lemma_digits_hold_no(part, ':');
    assert(!has_char(seconds, ':')) by {
        assert forall|i: int| 0 <= i < seconds.len() implies seconds[i] != ':' by {
            if i < 2 {
                assert(seconds[i] == whole[i]);
            } else if i > 2 {
                assert(seconds[i] == part[i - 3]);
            }
        }
    }
    lemma_split_char(hours, ':', minutes + seq![':'] + seconds);
    lemma_split_char(minutes, ':', seconds);
    lemma_find_no_char(seconds, ':');
    let parts = split_spec(s, seq![':']);
    assert(split_spec(seconds, seq![':']) =~= seq![seconds]);
    assert(parts =~= seq![hours, minutes, seconds]);
    // Their values.
    assert(int_outcome(hours) == Outcome::Value(total / 3600)) by {
        assert(hours[0] != '+');
    }
    assert(int_outcome(minutes) == Outcome::Value(total / 60 % 60)) by {
        assert(is_digit(minutes[0]));
        assert(minutes[0] != '+');
    }
    lemma_seconds_text(total % 60, centis % 100, seconds);
    let h = total / 3600;
    let m = total / 60 % 60;
    assert(total == h * 3600 + m * 60 + total % 60);
}

/// Whether a text can stand between the colons of a timestamp as it is.
pub open spec fn is_stamp_part(s: Seq<char>) -> bool {
    &&& s.len() > 0
    &&& forall|i: int|
        0 <= i < s.len() ==> !is_space(#[trigger] s[i]) && s[i] != ',' && s[i] != ':'
}

proof fn lemma_plain_stamp(s: Seq<char>)
    requires
        s.len() > 0,
        !is_space(s[0]),
        !is_space(s.last()),
        !has_char(s, ','),
    ensures
        with_point(s) == s,
{
    let none = Seq::<char>::empty();
    law_trimming_takes_white_space(none, s, none);
    assert(none + s + none =~= s);
    lemma_find_no_char(s, ',');
    assert(split_spec(s, seq![',']) =~= seq![s]);
    assert(seq![s].len() == 1);
    assert(join_spec(seq![s], seq!['.']) == s);
}

proof fn lemma_short_stamp_parts(minutes: Seq<char>, seconds: Seq<char>)
    requires
        is_stamp_part(minutes),
        is_stamp_part(seconds),
    ensures
        with_point(minutes + seq![':'] + seconds) == minutes + seq![':'] + seconds,
        split_spec(minutes + seq![':'] + seconds, seq![':']) == seq![minutes, seconds],
{
    let s = minutes + seq![':'] + seconds;
    assert(s[0] == minutes[0]);
    assert(s.last() == seconds.last());
    assert(!has_char(s, ',')) by {
        assert forall|i: int| 0 <= i < s.len() implies s[i] != ',' by {
            if i < minutes.len() {
                assert(s[i] == minutes[i]);
            } else if i > minutes.len() {
                assert(s[i] == seconds[i - minutes.len() - 1]);
            }
        }
    }
    lemma_plain_stamp(s);
    lemma_split_char(minutes, ':', seconds);
    lemma_find_no_char(seconds, ':');
    assert(split_spec(seconds, seq![':']) =~= seq![seconds]);
    assert(seq![minutes] + seq![seconds] =~= seq![minutes, seconds]);
}

proof fn lemma_long_stamp_parts(hours: Seq<char>, minutes: Seq<char>, seconds: Seq<char>)
    requires
        is_stamp_part(hours),
        is_stamp_part(minutes),
        is_stamp_part(seconds),
    ensures
        with_point(hours + seq![':'] + minutes + seq![':'] + seconds) == hours + seq![':'] + minutes
            + seq![':'] + seconds,
        split_spec(hours + seq![':'] + minutes + seq![':'] + seconds, seq![':']) == seq![
            hours,
            minutes,
            seconds,
        ],
{
    let rest = minutes + seq![':'] + seconds;
    let s = hours + seq![':'] + minutes + seq![':'] + seconds;
    assert(s =~= hours + seq![':'] + rest);
    lemma_short_stamp_parts(minutes, seconds);
    assert(s[0] == hours[0]);
    assert(s.last() == seconds.last());
    assert(!has_char(s, ',')) by {
        assert forall|i: int| 0 <= i < s.len() implies s[i] != ',' by {
            let n = hours.len() as int;
            let m = minutes.len() as int;
            if i < n {
                assert(s[i] == hours[i]);
            } else if n < i < n + 1 + m {
                assert(s[i] == minutes[i - n - 1]);
            } else if i > n + 1 + m {
                assert(s[i] == seconds[i - n - m - 2]);
            }
        }
    }
    lemma_plain_stamp(s);
    lemma_split_char(hours, ':', rest);
    assert(seq![hours] + seq![minutes, seconds] =~= seq![hours, minutes, seconds]);
}

/// A timestamp without hours is read as if it had none of them: `m:s` is `0:m:s`,
/// whatever stands for the minutes and the seconds.
#[verifier::spinoff_prover]
#[verifier::rlimit(40)]
pub proof fn law_short_stamps_have_no_hours(minutes: Seq<char>, seconds: Seq<char>)
    requires
        is_stamp_part(minutes),
        is_stamp_part(seconds),
    ensures
        timestamp_outcome(minutes + seq![':'] + seconds) == timestamp_outcome(
            seq!['0'] + seq![':'] + minutes + seq![':'] + seconds,
        ),
{
    let zero = seq!['0'];
    assert(decimal_spec(0) =~= zero);
    lemma_decimal_part(0);
    lemma_short_stamp_parts(minutes, seconds);
    lemma_long_stamp_parts(zero, minutes, seconds);
}

/// The numbers of a timestamp count as they should: an hour is 3600 seconds and a
/// minute is 60, with hours and without.
pub proof fn law_stamps_count_hours_and_minutes(
    hours: nat,
    minutes: nat,
    seconds: Seq<char>,
    nanos: nat,
)
    requires
        is_stamp_part(seconds),
        seconds_outcome(seconds) == Outcome::Value(nanos),
        hours * 3600 + minutes * 60 <= u64::MAX,
        (hours * 3600 + minutes * 60) * 1_000_000_000 + nanos <= MAX_NANOS,
    ensures
        timestamp_outcome(
            decimal_spec(hours) + seq![':'] + decimal_spec(minutes) + seq![':'] + seconds,
        ) == Outcome::Value((hours * 3600 + minutes * 60) * 1_000_000_000 + nanos),
        timestamp_outcome(decimal_spec(minutes) + seq![':'] + seconds) == Outcome::Value(
            minutes * 60 * 1_000_000_000 + nanos,
        ),
{
    let h = decimal_spec(hours);
    let m = decimal_spec(minutes);
    lemma_decimal_part(hours);
    lemma_decimal_part(minutes);
    assert(timestamp_outcome(h + seq![':'] + m + seq![':'] + seconds) == Outcome::Value(
        (hours * 3600 + minutes * 60) * 1_000_000_000 + nanos,
    )) by {
        lemma_long_stamp_parts(h, m, seconds);
    }
    assert(timestamp_outcome(m + seq![':'] + seconds) == Outcome::Value(
        minutes * 60 * 1_000_000_000 + nanos,
    )) by {
        lemma_short_stamp_parts(m, seconds);
    }
}

proof fn lemma_decimal_part(value: nat)
    requires
        value <= u64::MAX,
    ensures
        is_stamp_part(decimal_spec(value)),
        int_outcome(decimal_spec(value)) == Outcome::Value(value),
{
    lemma_decimal_digits(value);
    let s = decimal_spec(value);
    assert forall|i: int| 0 <= i < s.len() implies !is_space(#[trigger] s[i]) && s[i] != ',' && s[i]
        != ':' by {
        assert(is_digit(s[i]));
    }
    law_parse_of_decimal(value, u64::MAX as nat);
}

/// A comma before the fraction counts as a point, and white space around a timestamp
/// does not count.
pub proof fn law_comma_counts_as_a_point(
    before: Seq<char>,
    whole: Seq<char>,
    fraction: Seq<char>,
    behind: Seq<char>,
)
    requires
        whole.len() > 0,
        fraction.len() > 0,
        !is_space(whole[0]),
        !is_space(fraction.last()),
        !has_char(whole, ','),
        !has_char(fraction, ','),
        forall|i: int| 0 <= i < before.len() ==> is_space(#[trigger] before[i]),
        forall|i: int| 0 <= i < behind.len() ==> is_space(#[trigger] behind[i]),
    ensures
        timestamp_outcome(whole + seq![','] + fraction) == timestamp_outcome(
            whole + seq!['.'] + fraction,
        ),
        timestamp_outcome(before + (whole + seq![','] + fraction) + behind) == timestamp_outcome(
            whole + seq!['.'] + fraction,
        ),
{
    let s = whole + seq![','] + fraction;
    let t = whole + seq!['.'] + fraction;
    let none = Seq::<char>::empty();
    assert(s[0] == whole[0] && t[0] == whole[0]);
    assert(s.last() == fraction.last() && t.last() == fraction.last());
    law_trimming_takes_white_space(none, s, none);
    law_trimming_takes_white_space(before, s, behind);
    assert(none + s + none =~= s);
    lemma_split_char(whole, ',', fraction);
    lemma_find_no_char(fraction, ',');
    assert(split_spec(fraction, seq![',']) =~= seq![fraction]);
    assert(seq![whole] + seq![fraction] =~= seq![whole, fraction]);
    let parts = seq![whole, fraction];
    assert(parts.drop_last() =~= seq![whole]);
    assert(seq![whole].len() == 1);
    assert(join_spec(seq![whole], seq!['.']) == whole);
    assert(join_spec(parts, seq!['.']) == t);
    assert(with_point(s) == t);
    assert(with_point(before + s + behind) == t);
    assert(!has_char(t, ',')) by {
        assert forall|i: int| 0 <= i < t.len() implies t[i] != ',' by {
            if i < whole.len() {
                assert(t[i] == whole[i]);
            } else if i > whole.len() {
                assert(t[i] == fraction[i - whole.len() - 1]);
            }
        }
    }
    lemma_plain_stamp(t);
}

/// A written time has no comma in it and no white space around it.
pub proof fn lemma_stamp_is_plain(nanos: nat)
    ensures
        trim_spec(ass_timestamp_spec(nanos)) == ass_timestamp_spec(nanos),
        !has_char(ass_timestamp_spec(nanos), ','),
{
    let centis = centiseconds(nanos);
    let total = centis / 100;
    let hours = decimal_spec(total / 3600);
    let minutes = two_digits_spec(total / 60 % 60);
    let whole = two_digits_spec(total % 60);
    let part = two_digits_spec(centis % 100);
    let s = ass_timestamp_spec(nanos);
    lemma_decimal_digits(total / 3600);
    lemma_two_digits(total / 60 % 60);
    lemma_two_digits(total % 60);
    lemma_two_digits(centis % 100);
    assert(s[0] == hours[0] && is_digit(hours[0]));
    assert(s.last() == part[1] && is_digit(part[1]));
    lemma_trim_is_identity(s);
    assert forall|i: int| 0 <= i < s.len() implies s[i] != ',' by {
        let n = hours.len() as int;
        if i < n {
            assert(s[i] == hours[i] && is_digit(hours[i]));
        } else if n < i < n + 3 {
            assert(s[i] == minutes[i - n - 1] && is_digit(minutes[i - n - 1]));
        } else if n + 3 < i < n + 6 {
            assert(s[i] == whole[i - n - 4] && is_digit(whole[i - n - 4]));
        } else if i > n + 6 {
            assert(s[i] == part[i - n - 7] && is_digit(part[i - n - 7]));
        }
    }
}

} // verus!
