use vstd::prelude::*;
use vstd::string::*;
use crate::parser::lexer::char_is_whitespace;
use crate::parser::ast::ExprView;
use crate::value::ValueView;
use super::eval::eval;
use super::functions::{extracted, field_index, part_end, splits, time_part};
use super::scalar::{all_digits, clamp64, digits_value, ends, int_of_text, interval_of, is_digit, unit_micros, up_to_digit};
use super::scope::{Env, NamesView, ScopeView};
use super::strings::{is_ascii_text, text_lower, text_upper, trim_back, trim_front, trimmed};

verus! {

// ---- intervals

proof fn lemma_ends_char(s: Seq<char>, x: Seq<char>, k: int)
    requires
        ends(s, x),
        0 <= k < x.len(),
    ensures
        s[s.len() - 1 - k] == x[x.len() - 1 - k],
{
    let i = s.len() - x.len();
    assert(s.subrange(i, i + x.len())[x.len() - 1 - k] == s[s.len() - 1 - k]);
}

proof fn lemma_ends(d: Seq<char>, w: Seq<char>)
    ensures
        ends(d + seq![' '] + w, w),
{
    let s = d + seq![' '] + w;
    assert(s.subrange(s.len() - w.len(), s.len() as int) =~= w);
}

/// Whether a text is a word of small letters.
pub open spec fn small_letters(w: Seq<char>) -> bool {
    w.len() > 0 && forall|i: int| 0 <= i < w.len() ==> 97 <= (#[trigger] w[i]) as u32 <= 122
}

proof fn lemma_digit_char(c: char)
    requires
        is_digit(c),
    ensures
        48 <= c as u32 <= 57,
        !char_is_whitespace(c),
        super::like::ascii_lower_char(c) == c,
{
}

proof fn lemma_small_char(c: char)
    requires
        97 <= c as u32 <= 122,
    ensures
        !is_digit(c),
        !char_is_whitespace(c),
        super::like::ascii_lower_char(c) == c,
{
}

proof fn lemma_up_to_digit(d: Seq<char>, t: Seq<char>)
    requires
        all_digits(d),
        forall|i: int| 0 <= i < t.len() ==> !is_digit(#[trigger] t[i]),
    ensures
        up_to_digit(d + t) == d,
    decreases t.len(),
{
    let s = d + t;
    if t.len() > 0 {
        assert(s.last() == t[t.len() - 1]);
        assert(s.drop_last() =~= d + t.drop_last());
        lemma_up_to_digit(d, t.drop_last());
    } else {
        assert(s =~= d);
        assert(is_digit(d[d.len() - 1]));
    }
}

proof fn lemma_interval(d: Seq<char>, w: Seq<char>, us: int)
    requires
        all_digits(d),
        digits_value(d) <= i64::MAX,
        small_letters(w),
        unit_micros(d + seq![' '] + w) == Some(us),
    ensures
        interval_of(d + seq![' '] + w) == Some(clamp64(digits_value(d) * us)),
{
    let s = d + seq![' '] + w;
    assert(is_digit(d[0]) && is_digit(d[d.len() - 1]));
    lemma_digit_char(d[0]);
    lemma_digit_char(d[d.len() - 1]);
    lemma_small_char(w[w.len() - 1]);
    assert(s[0] == d[0]);
    assert(trim_front(s) == s);
    assert(s.last() == w[w.len() - 1]);
    assert(trim_back(s) == s);
    assert(trimmed(s) == s);
    assert forall|i: int| 0 <= i < s.len() implies (#[trigger] s[i] as u32) < 128 && super::like::ascii_lower_char(s[i]) == s[i] by {
        if i < d.len() {
            assert(is_digit(d[i]));
            lemma_digit_char(d[i]);
        } else if i > d.len() {
            assert(s[i] == w[i - d.len() - 1]);
            lemma_small_char(w[i - d.len() - 1]);
        }
    }
    assert(is_ascii_text(s));
    assert(text_lower(s) =~= s);
    let t = seq![' '] + w;
    assert(s =~= d + t);
    assert forall|i: int| 0 <= i < t.len() implies !is_digit(#[trigger] t[i]) by {
        if i > 0 {
            assert(t[i] == w[i - 1]);
            lemma_small_char(w[i - 1]);
        }
    }
    lemma_up_to_digit(d, t);
    assert(trim_front(d) == d);
    assert(trim_back(d) == d);
    assert(trimmed(d) == d);
    assert(int_of_text(d) == Some(digits_value(d) as i64));
}

proof fn lemma_microsecond(d: Seq<char>)
    ensures
        unit_micros(d + seq![' '] + "microsecond"@) == Some(1int),
        small_letters("microsecond"@),
{
    reveal_strlit("microsecond");
    let s = d + seq![' '] + "microsecond"@;
    lemma_ends(d, "microsecond"@);
}

proof fn lemma_microseconds(d: Seq<char>)
    ensures
        unit_micros(d + seq![' '] + "microseconds"@) == Some(1int),
        small_letters("microseconds"@),
{
    reveal_strlit("microseconds");
    let s = d + seq![' '] + "microseconds"@;
    lemma_ends(d, "microseconds"@);
}

proof fn lemma_millisecond(d: Seq<char>)
    ensures
        unit_micros(d + seq![' '] + "millisecond"@) == Some(1000int),
        small_letters("millisecond"@),
{
    reveal_strlit("microsecond");
    reveal_strlit("microseconds");
    reveal_strlit("millisecond");
    let s = d + seq![' '] + "millisecond"@;
    lemma_ends(d, "millisecond"@);
    if ends(s, "microsecond"@) {
        lemma_ends_char(s, "microsecond"@, 6);
    }
    if ends(s, "microseconds"@) {
        lemma_ends_char(s, "microseconds"@, 0);
    }
}

proof fn lemma_milliseconds(d: Seq<char>)
    ensures
        unit_micros(d + seq![' '] + "milliseconds"@) == Some(1000int),
        small_letters("milliseconds"@),
{
    reveal_strlit("microsecond");
    reveal_strlit("microseconds");
    reveal_strlit("milliseconds");
    let s = d + seq![' '] + "milliseconds"@;
    lemma_ends(d, "milliseconds"@);
    if ends(s, "microsecond"@) {
        lemma_ends_char(s, "microsecond"@, 0);
    }
    if ends(s, "microseconds"@) {
        lemma_ends_char(s, "microseconds"@, 7);
    }
}

proof fn lemma_second(d: Seq<char>)
    ensures
        unit_micros(d + seq![' '] + "second"@) == Some(1000000int),
        small_letters("second"@),
{
    reveal_strlit("microsecond");
    reveal_strlit("microseconds");
    reveal_strlit("millisecond");
    reveal_strlit("milliseconds");
    reveal_strlit("second");
    let s = d + seq![' '] + "second"@;
    lemma_ends(d, "second"@);
    if ends(s, "microsecond"@) {
        lemma_ends_char(s, "microsecond"@, 6);
    }
    if ends(s, "microseconds"@) {
        lemma_ends_char(s, "microseconds"@, 0);
    }
    if ends(s, "millisecond"@) {
        lemma_ends_char(s, "millisecond"@, 6);
    }
    if ends(s, "milliseconds"@) {
        lemma_ends_char(s, "milliseconds"@, 0);
    }
}

proof fn lemma_seconds(d: Seq<char>)
    ensures
        unit_micros(d + seq![' '] + "seconds"@) == Some(1000000int),
        small_letters("seconds"@),
{
    reveal_strlit("microsecond");
    reveal_strlit("microseconds");
    reveal_strlit("millisecond");
    reveal_strlit("milliseconds");
    reveal_strlit("seconds");
    let s = d + seq![' '] + "seconds"@;
    lemma_ends(d, "seconds"@);
    if ends(s, "microsecond"@) {
        lemma_ends_char(s, "microsecond"@, 0);
    }
    if ends(s, "microseconds"@) {
        lemma_ends_char(s, "microseconds"@, 7);
    }
    if ends(s, "millisecond"@) {
        lemma_ends_char(s, "millisecond"@, 0);
    }
    if ends(s, "milliseconds"@) {
        lemma_ends_char(s, "milliseconds"@, 7);
    }
}

proof fn lemma_minute(d: Seq<char>)
    ensures
        unit_micros(d + seq![' '] + "minute"@) == Some(60000000int),
        small_letters("minute"@),
{
    reveal_strlit("microsecond");
    reveal_strlit("microseconds");
    reveal_strlit("millisecond");
    reveal_strlit("milliseconds");
    reveal_strlit("second");
    reveal_strlit("seconds");
    reveal_strlit("minute");
    let s = d + seq![' '] + "minute"@;
    lemma_ends(d, "minute"@);
    if ends(s, "microsecond"@) {
        lemma_ends_char(s, "microsecond"@, 0);
    }
    if ends(s, "microseconds"@) {
        lemma_ends_char(s, "microseconds"@, 0);
    }
    if ends(s, "millisecond"@) {
        lemma_ends_char(s, "millisecond"@, 0);
    }
    if ends(s, "milliseconds"@) {
        lemma_ends_char(s, "milliseconds"@, 0);
    }
    if ends(s, "second"@) {
        lemma_ends_char(s, "second"@, 0);
    }
    if ends(s, "seconds"@) {
        lemma_ends_char(s, "seconds"@, 0);
    }
}

proof fn lemma_minutes(d: Seq<char>)
    ensures
        unit_micros(d + seq![' '] + "minutes"@) == Some(60000000int),
        small_letters("minutes"@),
{
    reveal_strlit("microsecond");
    reveal_strlit("microseconds");
    reveal_strlit("millisecond");
    reveal_strlit("milliseconds");
    reveal_strlit("second");
    reveal_strlit("seconds");
    reveal_strlit("minutes");
    let s = d + seq![' '] + "minutes"@;
    lemma_ends(d, "minutes"@);
    if ends(s, "microsecond"@) {
        lemma_ends_char(s, "microsecond"@, 0);
    }
    if ends(s, "microseconds"@) {
        lemma_ends_char(s, "microseconds"@, 1);
    }
    if ends(s, "millisecond"@) {
        lemma_ends_char(s, "millisecond"@, 0);
    }
    if ends(s, "milliseconds"@) {
        lemma_ends_char(s, "milliseconds"@, 1);
    }
    if ends(s, "second"@) {
        lemma_ends_char(s, "second"@, 0);
    }
    if ends(s, "seconds"@) {
        lemma_ends_char(s, "seconds"@, 1);
    }
}

proof fn lemma_hour(d: Seq<char>)
    ensures
        unit_micros(d + seq![' '] + "hour"@) == Some(3600000000int),
        small_letters("hour"@),
{
    reveal_strlit("microsecond");
    reveal_strlit("microseconds");
    reveal_strlit("millisecond");
    reveal_strlit("milliseconds");
    reveal_strlit("second");
    reveal_strlit("seconds");
    reveal_strlit("minute");
    reveal_strlit("minutes");
    reveal_strlit("hour");
    let s = d + seq![' '] + "hour"@;
    lemma_ends(d, "hour"@);
    if ends(s, "microsecond"@) {
        lemma_ends_char(s, "microsecond"@, 0);
    }
    if ends(s, "microseconds"@) {
        lemma_ends_char(s, "microseconds"@, 0);
    }
    if ends(s, "millisecond"@) {
        lemma_ends_char(s, "millisecond"@, 0);
    }
    if ends(s, "milliseconds"@) {
        lemma_ends_char(s, "milliseconds"@, 0);
    }
    if ends(s, "second"@) {
        lemma_ends_char(s, "second"@, 0);
    }
    if ends(s, "seconds"@) {
        lemma_ends_char(s, "seconds"@, 0);
    }
    if ends(s, "minute"@) {
        lemma_ends_char(s, "minute"@, 0);
    }
    if ends(s, "minutes"@) {
        lemma_ends_char(s, "minutes"@, 0);
    }
}

proof fn lemma_hours(d: Seq<char>)
    ensures
        unit_micros(d + seq![' '] + "hours"@) == Some(3600000000int),
        small_letters("hours"@),
{
    reveal_strlit("microsecond");
    reveal_strlit("microseconds");
    reveal_strlit("millisecond");
    reveal_strlit("milliseconds");
    reveal_strlit("second");
    reveal_strlit("seconds");
    reveal_strlit("minute");
    reveal_strlit("minutes");
    reveal_strlit("hours");
    let s = d + seq![' '] + "hours"@;
    lemma_ends(d, "hours"@);
    if ends(s, "microsecond"@) {
        lemma_ends_char(s, "microsecond"@, 0);
    }
    if ends(s, "microseconds"@) {
        lemma_ends_char(s, "microseconds"@, 1);
    }
    if ends(s, "millisecond"@) {
        lemma_ends_char(s, "millisecond"@, 0);
    }
    if ends(s, "milliseconds"@) {
        lemma_ends_char(s, "milliseconds"@, 1);
    }
    if ends(s, "second"@) {
        lemma_ends_char(s, "second"@, 0);
    }
    if ends(s, "seconds"@) {
        lemma_ends_char(s, "seconds"@, 1);
    }
    if ends(s, "minute"@) {
        lemma_ends_char(s, "minute"@, 0);
    }
    if ends(s, "minutes"@) {
        lemma_ends_char(s, "minutes"@, 1);
    }
}

proof fn lemma_day(d: Seq<char>)
    ensures
        unit_micros(d + seq![' '] + "day"@) == Some(86400000000int),
        small_letters("day"@),
{
    reveal_strlit("microsecond");
    reveal_strlit("microseconds");
    reveal_strlit("millisecond");
    reveal_strlit("milliseconds");
    reveal_strlit("second");
    reveal_strlit("seconds");
    reveal_strlit("minute");
    reveal_strlit("minutes");
    reveal_strlit("hour");
    reveal_strlit("hours");
    reveal_strlit("day");
    let s = d + seq![' '] + "day"@;
    lemma_ends(d, "day"@);
    if ends(s, "microsecond"@) {
        lemma_ends_char(s, "microsecond"@, 0);
    }
    if ends(s, "microseconds"@) {
        lemma_ends_char(s, "microseconds"@, 0);
    }
    if ends(s, "millisecond"@) {
        lemma_ends_char(s, "millisecond"@, 0);
    }
    if ends(s, "milliseconds"@) {
        lemma_ends_char(s, "milliseconds"@, 0);
    }
    if ends(s, "second"@) {
        lemma_ends_char(s, "second"@, 0);
    }
    if ends(s, "seconds"@) {
        lemma_ends_char(s, "seconds"@, 0);
    }
    if ends(s, "minute"@) {
        lemma_ends_char(s, "minute"@, 0);
    }
    if ends(s, "minutes"@) {
        lemma_ends_char(s, "minutes"@, 0);
    }
    if ends(s, "hour"@) {
        lemma_ends_char(s, "hour"@, 0);
    }
    if ends(s, "hours"@) {
        lemma_ends_char(s, "hours"@, 0);
    }
}

proof fn lemma_days(d: Seq<char>)
    ensures
        unit_micros(d + seq![' '] + "days"@) == Some(86400000000int),
        small_letters("days"@),
{
    reveal_strlit("microsecond");
    reveal_strlit("microseconds");
    reveal_strlit("millisecond");
    reveal_strlit("milliseconds");
    reveal_strlit("second");
    reveal_strlit("seconds");
    reveal_strlit("minute");
    reveal_strlit("minutes");
    reveal_strlit("hour");
    reveal_strlit("hours");
    reveal_strlit("days");
    let s = d + seq![' '] + "days"@;
    lemma_ends(d, "days"@);
    if ends(s, "microsecond"@) {
        lemma_ends_char(s, "microsecond"@, 0);
    }
    if ends(s, "microseconds"@) {
        lemma_ends_char(s, "microseconds"@, 1);
    }
    if ends(s, "millisecond"@) {
        lemma_ends_char(s, "millisecond"@, 0);
    }
    if ends(s, "milliseconds"@) {
        lemma_ends_char(s, "milliseconds"@, 1);
    }
    if ends(s, "second"@) {
        lemma_ends_char(s, "second"@, 0);
    }
    if ends(s, "seconds"@) {
        lemma_ends_char(s, "seconds"@, 1);
    }
    if ends(s, "minute"@) {
        lemma_ends_char(s, "minute"@, 0);
    }
    if ends(s, "minutes"@) {
        lemma_ends_char(s, "minutes"@, 1);
    }
    if ends(s, "hour"@) {
        lemma_ends_char(s, "hour"@, 0);
    }
    if ends(s, "hours"@) {
        lemma_ends_char(s, "hours"@, 1);
    }
}

proof fn lemma_week(d: Seq<char>)
    ensures
        unit_micros(d + seq![' '] + "week"@) == Some(604800000000int),
        small_letters("week"@),
{
    reveal_strlit("microsecond");
    reveal_strlit("microseconds");
    reveal_strlit("millisecond");
    reveal_strlit("milliseconds");
    reveal_strlit("second");
    reveal_strlit("seconds");
    reveal_strlit("minute");
    reveal_strlit("minutes");
    reveal_strlit("hour");
    reveal_strlit("hours");
    reveal_strlit("day");
    reveal_strlit("days");
    reveal_strlit("week");
    let s = d + seq![' '] + "week"@;
    lemma_ends(d, "week"@);
    if ends(s, "microsecond"@) {
        lemma_ends_char(s, "microsecond"@, 0);
    }
    if ends(s, "microseconds"@) {
        lemma_ends_char(s, "microseconds"@, 0);
    }
    if ends(s, "millisecond"@) {
        lemma_ends_char(s, "millisecond"@, 0);
    }
    if ends(s, "milliseconds"@) {
        lemma_ends_char(s, "milliseconds"@, 0);
    }
    if ends(s, "second"@) {
        lemma_ends_char(s, "second"@, 0);
    }
    if ends(s, "seconds"@) {
        lemma_ends_char(s, "seconds"@, 0);
    }
    if ends(s, "minute"@) {
        lemma_ends_char(s, "minute"@, 0);
    }
    if ends(s, "minutes"@) {
        lemma_ends_char(s, "minutes"@, 0);
    }
    if ends(s, "hour"@) {
        lemma_ends_char(s, "hour"@, 0);
    }
    if ends(s, "hours"@) {
        lemma_ends_char(s, "hours"@, 0);
    }
    if ends(s, "day"@) {
        lemma_ends_char(s, "day"@, 0);
    }
    if ends(s, "days"@) {
        lemma_ends_char(s, "days"@, 0);
    }
}

proof fn lemma_weeks(d: Seq<char>)
    ensures
        unit_micros(d + seq![' '] + "weeks"@) == Some(604800000000int),
        small_letters("weeks"@),
{
    reveal_strlit("microsecond");
    reveal_strlit("microseconds");
    reveal_strlit("millisecond");
    reveal_strlit("milliseconds");
    reveal_strlit("second");
    reveal_strlit("seconds");
    reveal_strlit("minute");
    reveal_strlit("minutes");
    reveal_strlit("hour");
    reveal_strlit("hours");
    reveal_strlit("day");
    reveal_strlit("days");
    reveal_strlit("weeks");
    let s = d + seq![' '] + "weeks"@;
    lemma_ends(d, "weeks"@);
    if ends(s, "microsecond"@) {
        lemma_ends_char(s, "microsecond"@, 0);
    }
    if ends(s, "microseconds"@) {
        lemma_ends_char(s, "microseconds"@, 1);
    }
    if ends(s, "millisecond"@) {
        lemma_ends_char(s, "millisecond"@, 0);
    }
    if ends(s, "milliseconds"@) {
        lemma_ends_char(s, "milliseconds"@, 1);
    }
    if ends(s, "second"@) {
        lemma_ends_char(s, "second"@, 0);
    }
    if ends(s, "seconds"@) {
        lemma_ends_char(s, "seconds"@, 1);
    }
    if ends(s, "minute"@) {
        lemma_ends_char(s, "minute"@, 0);
    }
    if ends(s, "minutes"@) {
        lemma_ends_char(s, "minutes"@, 1);
    }
    if ends(s, "hour"@) {
        lemma_ends_char(s, "hour"@, 0);
    }
    if ends(s, "hours"@) {
        lemma_ends_char(s, "hours"@, 1);
    }
    if ends(s, "day"@) {
        lemma_ends_char(s, "day"@, 0);
    }
    if ends(s, "days"@) {
        lemma_ends_char(s, "days"@, 1);
    }
}

/// A microsecond is the least unit of an interval. One and many are written alike.
pub proof fn law_interval_of_microseconds(d: Seq<char>)
    requires
        all_digits(d),
        digits_value(d) <= 0xf_ffff,
    ensures
        ({
            let n = digits_value(d);
            &&& interval_of(d + seq![' '] + "microsecond"@) == Some((n) as i64)
            &&& interval_of(d + seq![' '] + "microseconds"@) == Some((n) as i64)
        }),
{
    lemma_microsecond(d);
    lemma_interval(d, "microsecond"@, 1);
    lemma_microseconds(d);
    lemma_interval(d, "microseconds"@, 1);
}

/// A millisecond is a thousand microseconds. One and many are written alike.
pub proof fn law_interval_of_milliseconds(d: Seq<char>)
    requires
        all_digits(d),
        digits_value(d) <= 0xf_ffff,
    ensures
        ({
            let n = digits_value(d);
            &&& interval_of(d + seq![' '] + "millisecond"@) == Some((n * 1_000) as i64)
            &&& interval_of(d + seq![' '] + "milliseconds"@) == Some((n * 1_000) as i64)
        }),
{
    lemma_millisecond(d);
    lemma_interval(d, "millisecond"@, 1000);
    lemma_milliseconds(d);
    lemma_interval(d, "milliseconds"@, 1000);
}

/// A second is a thousand milliseconds. One and many are written alike.
pub proof fn law_interval_of_seconds(d: Seq<char>)
    requires
        all_digits(d),
        digits_value(d) <= 0xf_ffff,
    ensures
        ({
            let n = digits_value(d);
            &&& interval_of(d + seq![' '] + "second"@) == Some((n * 1_000 * 1_000) as i64)
            &&& interval_of(d + seq![' '] + "seconds"@) == Some((n * 1_000 * 1_000) as i64)
        }),
{
    lemma_second(d);
    lemma_interval(d, "second"@, 1000000);
    lemma_seconds(d);
    lemma_interval(d, "seconds"@, 1000000);
}

/// A minute is sixty seconds. One and many are written alike.
pub proof fn law_interval_of_minutes(d: Seq<char>)
    requires
        all_digits(d),
        digits_value(d) <= 0xf_ffff,
    ensures
        ({
            let n = digits_value(d);
            &&& interval_of(d + seq![' '] + "minute"@) == Some((n * 60 * 1_000_000) as i64)
            &&& interval_of(d + seq![' '] + "minutes"@) == Some((n * 60 * 1_000_000) as i64)
        }),
{
    lemma_minute(d);
    lemma_interval(d, "minute"@, 60000000);
    lemma_minutes(d);
    lemma_interval(d, "minutes"@, 60000000);
}

/// An hour is sixty minutes. One and many are written alike.
pub proof fn law_interval_of_hours(d: Seq<char>)
    requires
        all_digits(d),
        digits_value(d) <= 0xf_ffff,
    ensures
        ({
            let n = digits_value(d);
            &&& interval_of(d + seq![' '] + "hour"@) == Some((n * 60 * 60 * 1_000_000) as i64)
            &&& interval_of(d + seq![' '] + "hours"@) == Some((n * 60 * 60 * 1_000_000) as i64)
        }),
{
    lemma_hour(d);
    lemma_interval(d, "hour"@, 3600000000);
    lemma_hours(d);
    lemma_interval(d, "hours"@, 3600000000);
}

/// A day is twenty-four hours. One and many are written alike.
pub proof fn law_interval_of_days(d: Seq<char>)
    requires
        all_digits(d),
        digits_value(d) <= 0xf_ffff,
    ensures
        ({
            let n = digits_value(d);
            &&& interval_of(d + seq![' '] + "day"@) == Some((n * 24 * 60 * 60 * 1_000_000) as i64)
            &&& interval_of(d + seq![' '] + "days"@) == Some((n * 24 * 60 * 60 * 1_000_000) as i64)
        }),
{
    lemma_day(d);
    lemma_interval(d, "day"@, 86400000000);
    lemma_days(d);
    lemma_interval(d, "days"@, 86400000000);
}

/// A week is seven days. One and many are written alike.
pub proof fn law_interval_of_weeks(d: Seq<char>)
    requires
        all_digits(d),
        digits_value(d) <= 0xf_ffff,
    ensures
        ({
            let n = digits_value(d);
            &&& interval_of(d + seq![' '] + "week"@) == Some((n * 7 * 24 * 60 * 60 * 1_000_000) as i64)
            &&& interval_of(d + seq![' '] + "weeks"@) == Some((n * 7 * 24 * 60 * 60 * 1_000_000) as i64)
        }),
{
    lemma_week(d);
    lemma_interval(d, "week"@, 604800000000);
    lemma_weeks(d);
    lemma_interval(d, "weeks"@, 604800000000);
}

/// An interval expression has the microseconds that its text names, and none where it names none.
pub proof fn law_interval_expression(env: Env, o: Seq<ScopeView>, n: NamesView, row: Seq<ValueView>, s: Seq<char>)
    ensures
        eval(env, o, n, row, ExprView::Interval(s)) == ValueView::Interval(match interval_of(s) {
            Some(us) => us,
            None => 0,
        }),
{
}

// ---- parts of a time

/// Whether a text is a number: digits, as many as fit.
pub open spec fn is_number(p: Seq<char>) -> bool {
    all_digits(p) && digits_value(p) <= i64::MAX
}

proof fn lemma_part_end(s: Seq<char>, i: int, e: int)
    requires
        0 <= i <= e <= s.len(),
        forall|k: int| i <= k < e ==> !splits(#[trigger] s[k]),
        e < s.len() ==> splits(s[e]),
    ensures
        part_end(s, i) == e,
    decreases e - i,
{
    if i < e {
        assert(!splits(s[i]));
        lemma_part_end(s, i + 1, e);
    }
}

proof fn lemma_part_end_range(s: Seq<char>, i: int)
    requires
        0 <= i <= s.len(),
    ensures
        i <= part_end(s, i) <= s.len(),
    decreases s.len() - i,
{
    if i < s.len() && !splits(s[i]) {
        lemma_part_end_range(s, i + 1);
    }
}

proof fn lemma_part_end_tail(s: Seq<char>, q: Seq<char>, at: int, i: int)
    requires
        0 <= at,
        0 <= i <= q.len(),
        at + q.len() == s.len(),
        s.skip(at) == q,
    ensures
        part_end(s, at + i) == at + part_end(q, i),
    decreases q.len() - i,
{
    if i < q.len() {
        assert(q[i] == s[at + i]);
        if !splits(q[i]) {
            lemma_part_end_tail(s, q, at, i + 1);
        }
    }
}

proof fn lemma_part_tail(s: Seq<char>, q: Seq<char>, at: int, i: int, n: nat)
    requires
        0 <= at,
        0 <= i <= q.len(),
        at + q.len() == s.len(),
        s.skip(at) == q,
    ensures
        time_part(s, at + i, n) == time_part(q, i, n),
    decreases n,
{
    lemma_part_end_tail(s, q, at, i);
    lemma_part_end_range(q, i);
    if n == 0 {
        assert(s.subrange(at + i, at + part_end(q, i)) =~= q.subrange(i, part_end(q, i)));
    } else if part_end(q, i) < q.len() {
        lemma_part_tail(s, q, at, part_end(q, i) + 1, (n - 1) as nat);
    }
}

/// The parts of a time are what stands between dashes, colons, blanks and a `T`: of a text without
/// these the text is the only part; of one with them, what stands before the first is the first part,
/// and the others are the parts of what stands behind it.
pub proof fn law_time_parts(p: Seq<char>, c: char, q: Seq<char>, n: nat)
    requires
        forall|k: int| 0 <= k < p.len() ==> (#[trigger] p[k] != '-' && p[k] != ':' && p[k] != ' ' && p[k] != 'T'),
        c == '-' || c == ':' || c == ' ' || c == 'T',
    ensures
        time_part(p, 0, 0) == Some(p),
        time_part(p, 0, n + 1) is None,
        time_part(p + seq![c] + q, 0, 0) == Some(p),
        time_part(p + seq![c] + q, 0, n + 1) == time_part(q, 0, n),
{
    assert forall|k: int| 0 <= k < p.len() implies !splits(#[trigger] p[k]) by {
        assert(p[k] != '-' && p[k] != ':' && p[k] != ' ' && p[k] != 'T');
    }
    lemma_part_end(p, 0, p.len() as int);
    assert(p.subrange(0, p.len() as int) =~= p);
    let s = p + seq![c] + q;
    assert forall|k: int| 0 <= k < p.len() implies !splits(#[trigger] s[k]) by {
        assert(s[k] == p[k]);
    }
    assert(s[p.len() as int] == c);
    lemma_part_end(s, 0, p.len() as int);
    assert(s.subrange(0, p.len() as int) =~= p);
    assert(s.skip((p.len() + 1) as int) =~= q);
    lemma_part_tail(s, q, (p.len() + 1) as int, 0, n);
}

proof fn lemma_number_part(p: Seq<char>)
    requires
        is_number(p),
    ensures
        forall|k: int| 0 <= k < p.len() ==> (#[trigger] p[k] != '-' && p[k] != ':' && p[k] != ' ' && p[k] != 'T'),
        int_of_text(p) == Some(digits_value(p) as i64),
{
    assert(is_digit(p[0]));
    assert forall|k: int| 0 <= k < p.len() implies (#[trigger] p[k] != '-' && p[k] != ':' && p[k] != ' ' && p[k] != 'T') by {
        assert(is_digit(p[k]));
    }
}

/// EXTRACT gives the year, the month and the day of a date that is written with dashes, and the hour,
/// the minute and the second of a time of day behind it; null for a part that is not there.
pub proof fn law_extract(y: Seq<char>, m: Seq<char>, d: Seq<char>, h: Seq<char>, i: Seq<char>, s: Seq<char>)
    requires
        is_number(y),
        is_number(m),
        is_number(d),
        is_number(h),
        is_number(i),
        is_number(s),
    ensures
        ({
            let day = y + seq!['-'] + (m + seq!['-'] + d);
            let time = y + seq!['-'] + (m + seq!['-'] + (d + seq![' '] + (h + seq![':'] + (i + seq![':'] + s))));
            let day = ValueView::Text(day);
            let time = ValueView::Text(time);
            &&& extracted("YEAR"@, day) == ValueView::Int64(digits_value(y) as i64) && extracted("YEAR"@, time) == extracted("YEAR"@, day)
            &&& extracted("MONTH"@, day) == ValueView::Int64(digits_value(m) as i64) && extracted("MONTH"@, time) == extracted("MONTH"@, day)
            &&& extracted("DAY"@, day) == ValueView::Int64(digits_value(d) as i64) && extracted("DAY"@, time) == extracted("DAY"@, day)
            &&& extracted("HOUR"@, time) == ValueView::Int64(digits_value(h) as i64)
            &&& extracted("MINUTE"@, time) == ValueView::Int64(digits_value(i) as i64)
            &&& extracted("SECOND"@, time) == ValueView::Int64(digits_value(s) as i64)
            &&& extracted("HOUR"@, day) is Null
        }),
{
    lemma_number_part(y);
    lemma_number_part(m);
    lemma_number_part(d);
    lemma_number_part(h);
    lemma_number_part(i);
    lemma_number_part(s);
    let t1 = m + seq!['-'] + d;
    let c = i + seq![':'] + s;
    let b = h + seq![':'] + c;
    let e = d + seq![' '] + b;
    let t2 = m + seq!['-'] + e;
    law_time_parts(y, '-', t1, 0);
    law_time_parts(y, '-', t1, 1);
    law_time_parts(y, '-', t1, 2);
    law_time_parts(m, '-', d, 0);
    law_time_parts(m, '-', d, 1);
    law_time_parts(d, '-', d, 0);
    law_time_parts(y, '-', t2, 0);
    law_time_parts(y, '-', t2, 1);
    law_time_parts(y, '-', t2, 2);
    law_time_parts(y, '-', t2, 3);
    law_time_parts(y, '-', t2, 4);
    law_time_parts(m, '-', e, 0);
    law_time_parts(m, '-', e, 1);
    law_time_parts(m, '-', e, 2);
    law_time_parts(m, '-', e, 3);
    law_time_parts(d, ' ', b, 0);
    law_time_parts(d, ' ', b, 1);
    law_time_parts(d, ' ', b, 2);
    law_time_parts(h, ':', c, 0);
    law_time_parts(h, ':', c, 1);
    law_time_parts(i, ':', s, 0);
    law_time_parts(s, ':', s, 0);
    let day = y + seq!['-'] + t1;
    let time = y + seq!['-'] + t2;
    lemma_field_names();
    lemma_field("YEAR"@, 0, day, y);
    lemma_field("YEAR"@, 0, time, y);
    lemma_field("MONTH"@, 1, day, m);
    lemma_field("MONTH"@, 1, time, m);
    lemma_field("DAY"@, 2, day, d);
    lemma_field("DAY"@, 2, time, d);
    lemma_field("HOUR"@, 3, time, h);
    lemma_field("MINUTE"@, 4, time, i);
    lemma_field("SECOND"@, 5, time, s);
    assert(time_part(day, 0, 3) is None);
}

proof fn lemma_field(f: Seq<char>, k: nat, t: Seq<char>, p: Seq<char>)
    requires
        field_index(f) == Some(k),
        time_part(t, 0, k) == Some(p),
        is_number(p),
    ensures
        extracted(f, ValueView::Text(t)) == ValueView::Int64(digits_value(p) as i64),
{
    lemma_number_part(p);
}

proof fn lemma_field_names()
    ensures
        field_index("YEAR"@) == Some(0nat),
        field_index("MONTH"@) == Some(1nat),
        field_index("DAY"@) == Some(2nat),
        field_index("HOUR"@) == Some(3nat),
        field_index("MINUTE"@) == Some(4nat),
        field_index("SECOND"@) == Some(5nat),
{
    reveal_strlit("YEAR");
    reveal_strlit("MONTH");
    reveal_strlit("DAY");
    reveal_strlit("HOUR");
    reveal_strlit("MINUTE");
    reveal_strlit("SECOND");
    assert("YEAR"@.len() == 4 && "MONTH"@.len() == 5 && "DAY"@.len() == 3 && "HOUR"@.len() == 4);
    assert("MINUTE"@.len() == 6 && "SECOND"@.len() == 6);
    assert("YEAR"@[0] == 'Y' && "HOUR"@[0] == 'H' && "MINUTE"@[0] == 'M' && "SECOND"@[0] == 'S');
}

/// `EXTRACT(field FROM x)` takes the field by its name, whatever its case, from the value of `x`.
pub proof fn law_extract_call(env: Env, o: Seq<ScopeView>, n: NamesView, row: Seq<ValueView>, name: Seq<char>, field: Seq<char>, x: ExprView)
    requires
        text_upper(name) == "EXTRACT"@,
    ensures
        eval(env, o, n, row, ExprView::Function { name, args: seq![ExprView::Column(field), x] }) == extracted(
            text_upper(field),
            eval(env, o, n, row, x),
        ),
{
    super::function_laws::lemma_function_names();
    let args = seq![ExprView::Column(field), x];
    assert(args.len() == 2 && args[0] == ExprView::Column(field) && args[1] == x);
    assert(!super::eval::is_summary(text_upper(name)));
    assert(super::eval::extract_value(env, o, n, row, args) == extracted(text_upper(field), eval(env, o, n, row, x)));
}

} // verus!
