use vstd::prelude::*;
use vstd::string::*;
use vstd::utf8::encode_utf8;
use crate::text::{chars_of, int_text, int_to_text, join2, nat_text, nat_to_text, string_of, text_is};
use crate::value::{Order, Value, ValueView, values_view};
use super::scalar::{abs_bits, compare, float_abs, float_sign, int128_to_value, int_of_text, int_value, is_nan, is_zero, bool_text};
use super::scalar::{abs_int, equals, is_equal, order_of, parse_int, rest, rest_value, show_bool, sign_bits, zero_bits};
use super::strings::{contains_text, ends_with_text, find_from, initcap_from, initcap_text, pad_text, padded, position_in, position_of};
use super::strings::{repeated, replace_text, replaced_from, reverse_text, slice_bytes, slice_of, slice_text};
use super::strings::{split_part, split_part_text, stands_at, starts_with_text, text_lower, text_upper, trim_text, trimmed};
use super::unit::{Ask, FloatFn, FloatOp, Reply, Unit, is_unit, model};
use super::unit::{ask_float, ask_fn, ask_op, ask_show_float, float_fn, float_of, float_op, text_of_float};

verus! {

/// The first value that is not null.
pub open spec fn first_given(a: Seq<ValueView>) -> ValueView
    decreases a.len(),
{
    if a.len() == 0 {
        ValueView::Null
    } else if !(a[0] is Null) {
        a[0]
    } else {
        first_given(a.skip(1))
    }
}

/// The value that stands to every later one as `o`, of those that are not null, taken from the
/// front; `best` is the one so far.
pub open spec fn extreme(m: Unit, a: Seq<ValueView>, o: Order, best: ValueView) -> ValueView
    decreases a.len(),
{
    if a.len() == 0 {
        best
    } else if a[0] is Null {
        extreme(m, a.skip(1), o, best)
    } else if best is Null || compare(m, a[0], best) == Some(o) {
        extreme(m, a.skip(1), o, a[0])
    } else {
        extreme(m, a.skip(1), o, best)
    }
}

/// What COALESCE, NULLIF, GREATEST and LEAST give.
pub open spec fn call_choice(m: Unit, f: Seq<char>, a: Seq<ValueView>) -> Option<ValueView> {
    if f == "COALESCE"@ {
        Some(first_given(a))
    } else if f == "NULLIF"@ {
        Some(if a.len() == 2 && !equals(m, a[0], a[1]) { a[0] } else { ValueView::Null })
    } else if f == "GREATEST"@ {
        Some(extreme(m, a, Order::Greater, ValueView::Null))
    } else if f == "LEAST"@ {
        Some(extreme(m, a, Order::Less, ValueView::Null))
    } else {
        None
    }
}

/// The text that CONCAT writes for a value; nothing for one that it passes over.
pub open spec fn piece(m: Unit, v: ValueView) -> Option<Seq<char>> {
    match v {
        ValueView::Text(s) => Some(s),
        ValueView::Int64(n) => Some(int_text(n as int)),
        ValueView::Float64(f) => Some(text_of_float(m, f)),
        ValueView::Bool(b) => Some(bool_text(b)),
        _ => None,
    }
}

/// The pieces of the values one behind the other.
pub open spec fn concat(m: Unit, a: Seq<ValueView>) -> Seq<char>
    decreases a.len(),
{
    if a.len() == 0 {
        Seq::empty()
    } else {
        concat(m, a.drop_last()) + (match piece(m, a.last()) { Some(s) => s, None => Seq::empty() })
    }
}

/// The pieces of the values with `sep` between them; the flag says whether there is one.
pub open spec fn concat_ws(m: Unit, sep: Seq<char>, a: Seq<ValueView>) -> (Seq<char>, bool)
    decreases a.len(),
{
    if a.len() == 0 {
        (Seq::empty(), false)
    } else {
        let (t, some) = concat_ws(m, sep, a.drop_last());
        match piece(m, a.last()) {
            None => (t, some),
            Some(s) => if some {
                (t + sep + s, true)
            } else {
                (s, true)
            },
        }
    }
}

pub open spec fn len_value(n: nat) -> ValueView {
    ValueView::Int64(n as i64)
}

/// What the functions of one text or one string of bytes give.
pub open spec fn text_fn(f: Seq<char>, v: ValueView) -> Option<ValueView> {
    if f == "UPPER"@ {
        Some(match v { ValueView::Text(s) => ValueView::Text(text_upper(s)), _ => ValueView::Null })
    } else if f == "LOWER"@ {
        Some(match v { ValueView::Text(s) => ValueView::Text(text_lower(s)), _ => ValueView::Null })
    } else if f == "TRIM"@ {
        Some(match v { ValueView::Text(s) => ValueView::Text(trimmed(s)), _ => ValueView::Null })
    } else if f == "REVERSE"@ {
        Some(match v { ValueView::Text(s) => ValueView::Text(s.reverse()), _ => ValueView::Null })
    } else if f == "INITCAP"@ {
        Some(match v { ValueView::Text(s) => ValueView::Text(initcap_from(s, 0, true)), _ => ValueView::Null })
    } else {
        size_fn(f, v)
    }
}

pub open spec fn size_fn(f: Seq<char>, v: ValueView) -> Option<ValueView> {
    if f == "CHAR_LENGTH"@ || f == "CHARACTER_LENGTH"@ {
        Some(match v { ValueView::Text(s) => len_value(s.len()), _ => ValueView::Null })
    } else if f == "LENGTH"@ {
        Some(match v {
            ValueView::Text(s) => len_value(s.len()),
            ValueView::Bytes(b) => len_value(b.len()),
            _ => ValueView::Null,
        })
    } else if f == "OCTET_LENGTH"@ {
        Some(match v {
            ValueView::Text(s) => len_value(encode_utf8(s).len()),
            ValueView::Bytes(b) => len_value(b.len()),
            _ => ValueView::Null,
        })
    } else if f == "BLOB_SIZE"@ {
        Some(match v { ValueView::Bytes(b) => len_value(b.len()), _ => ValueView::Null })
    } else if f == "BLOB"@ {
        Some(match v {
            ValueView::Text(s) => ValueView::Bytes(encode_utf8(s)),
            ValueView::Bytes(b) => v,
            _ => ValueView::Null,
        })
    } else {
        None
    }
}

/// What the functions of one number give.
pub open spec fn number_fn(m: Unit, f: Seq<char>, v: ValueView) -> Option<ValueView> {
    if f == "ABS"@ {
        Some(match v {
            ValueView::Int64(n) => int_value(m, abs_int(n as int)),
            ValueView::Float64(x) => ValueView::Float64(float_abs(x)),
            _ => ValueView::Null,
        })
    } else if f == "CEIL"@ || f == "CEILING"@ {
        Some(rounded(m, FloatFn::Ceil, v))
    } else if f == "FLOOR"@ {
        Some(rounded(m, FloatFn::Floor, v))
    } else if f == "ROUND"@ {
        Some(rounded(m, FloatFn::Round, v))
    } else if f == "SQRT"@ {
        Some(match v {
            ValueView::Float64(x) => if !is_nan(x) && (is_zero(x) || x < 0x8000_0000_0000_0000) {
                ValueView::Float64(float_fn(m, FloatFn::Sqrt, x))
            } else {
                ValueView::Null
            },
            ValueView::Int64(n) => if n >= 0 {
                ValueView::Float64(float_fn(m, FloatFn::Sqrt, float_of(m, n as i128)))
            } else {
                ValueView::Null
            },
            _ => ValueView::Null,
        })
    } else if f == "SIGN"@ {
        Some(match v {
            ValueView::Int64(n) => ValueView::Int64((if n > 0 { 1int } else if n < 0 { -1int } else { 0int }) as i64),
            ValueView::Float64(x) => ValueView::Int64(float_sign(x) as i64),
            _ => ValueView::Null,
        })
    } else {
        None
    }
}

pub open spec fn rounded(m: Unit, op: FloatFn, v: ValueView) -> ValueView {
    match v {
        ValueView::Float64(x) => ValueView::Float64(float_fn(m, op, x)),
        ValueView::Int64(_) => v,
        _ => ValueView::Null,
    }
}

/// What the functions of two arguments give.
pub open spec fn pair_fn(m: Unit, f: Seq<char>, a: ValueView, b: ValueView) -> Option<ValueView> {
    if f == "POWER"@ || f == "POW"@ {
        Some(match (a, b) {
            (ValueView::Float64(x), ValueView::Float64(y)) => ValueView::Float64(float_op(m, FloatOp::Power, x, y)),
            (ValueView::Int64(x), ValueView::Int64(y)) => ValueView::Float64(
                float_op(m, FloatOp::Power, float_of(m, x as i128), float_of(m, y as i128)),
            ),
            _ => ValueView::Null,
        })
    } else if f == "MOD"@ {
        Some(rest(m, a, b))
    } else {
        match (a, b) {
            (ValueView::Text(x), ValueView::Text(y)) => texts_fn(f, x, y),
            (ValueView::Text(x), ValueView::Int64(n)) => counted_fn(f, x, n),
            _ => if takes_pair(f) {
                Some(ValueView::Null)
            } else {
                None
            },
        }
    }
}

pub open spec fn takes_pair(f: Seq<char>) -> bool {
    f == "STARTS_WITH"@ || f == "ENDS_WITH"@ || f == "CONTAINS"@ || f == "POSITION"@ || f == "STRPOS"@ || f == "LEFT"@
        || f == "RIGHT"@ || f == "REPEAT"@
}

/// What the functions of two texts give.
pub open spec fn texts_fn(f: Seq<char>, x: Seq<char>, y: Seq<char>) -> Option<ValueView> {
    if f == "STARTS_WITH"@ {
        Some(ValueView::Bool(stands_at(x, y, 0)))
    } else if f == "ENDS_WITH"@ {
        Some(ValueView::Bool(stands_at(x, y, x.len() - y.len())))
    } else if f == "CONTAINS"@ {
        Some(ValueView::Bool(find_from(x, y, 0) is Some))
    } else if f == "POSITION"@ || f == "STRPOS"@ {
        Some(ValueView::Int64(position_of(y, x)))
    } else if takes_pair(f) {
        Some(ValueView::Null)
    } else {
        None
    }
}

pub open spec fn at_least_zero(n: i64) -> nat {
    if n > 0 {
        n as nat
    } else {
        0
    }
}

/// What the functions of a text and a count give. A text that would take more bytes than a count
/// can hold is null.
pub open spec fn counted_fn(f: Seq<char>, x: Seq<char>, n: i64) -> Option<ValueView> {
    if f == "LEFT"@ {
        Some(ValueView::Text(slice_of(x, 0, Some(at_least_zero(n)))))
    } else if f == "RIGHT"@ {
        Some(ValueView::Text(slice_of(x, if at_least_zero(n) <= x.len() { (x.len() - at_least_zero(n)) as nat } else { 0 }, None)))
    } else if f == "REPEAT"@ {
        Some(
            if encode_utf8(x).len() * at_least_zero(n) > i64::MAX {
                ValueView::Null
            } else {
                ValueView::Text(repeated(x, at_least_zero(n)))
            },
        )
    } else if takes_pair(f) {
        Some(ValueView::Null)
    } else {
        None
    }
}

/// What the functions of more arguments give.
pub open spec fn list_fn(m: Unit, f: Seq<char>, a: Seq<ValueView>) -> Option<ValueView> {
    if f == "CONCAT"@ {
        Some(ValueView::Text(concat(m, a)))
    } else if f == "CONCAT_WS"@ {
        Some(
            if a.len() > 0 && a[0] is Text {
                ValueView::Text(concat_ws(m, a[0]->Text_0, a.skip(1)).0)
            } else {
                ValueView::Null
            },
        )
    } else if f == "SPLIT_PART"@ {
        Some(
            if a.len() == 3 && a[0] is Text && a[1] is Text && a[2] is Int64 {
                ValueView::Text(split_part(a[0]->Text_0, a[1]->Text_0, a[2]->Int64_0 as int))
            } else {
                ValueView::Null
            },
        )
    } else if f == "REPLACE"@ {
        Some(
            if a.len() == 3 && a[0] is Text && a[1] is Text && a[2] is Text {
                ValueView::Text(replaced_from(a[0]->Text_0, a[1]->Text_0, a[2]->Text_0, 0))
            } else {
                ValueView::Null
            },
        )
    } else if f == "SUBSTRING"@ || f == "SUBSTR"@ {
        Some(substring(a))
    } else if f == "LPAD"@ {
        Some(pad(a, true))
    } else if f == "RPAD"@ {
        Some(pad(a, false))
    } else {
        None
    }
}

/// SUBSTRING: from a place counted from 1, at most so many characters or bytes.
pub open spec fn substring(a: Seq<ValueView>) -> ValueView {
    if a.len() >= 2 && a[1] is Int64 {
        let from = at_least_zero(sub_one(a[1]->Int64_0));
        let n = if a.len() >= 3 && a[2] is Int64 { Some(at_least_zero(a[2]->Int64_0)) } else { None };
        match a[0] {
            ValueView::Text(s) => ValueView::Text(slice_of(s, from, n)),
            ValueView::Bytes(b) => ValueView::Bytes(slice_of(b, from, n)),
            _ => ValueView::Null,
        }
    } else {
        ValueView::Null
    }
}

pub open spec fn sub_one(n: i64) -> i64 {
    if n > 1 {
        (n - 1) as i64
    } else {
        0
    }
}

/// LPAD and RPAD: with blanks where no text to fill up with is given.
pub open spec fn pad(a: Seq<ValueView>, front: bool) -> ValueView {
    if a.len() >= 2 && a[0] is Text && a[1] is Int64 {
        let fill = if a.len() >= 3 && a[2] is Text { a[2]->Text_0 } else { " "@ };
        ValueView::Text(padded(a[0]->Text_0, at_least_zero(a[1]->Int64_0), fill, front))
    } else {
        ValueView::Null
    }
}

/// Two digits of a number.
pub open spec fn two_digits(n: nat) -> Seq<char> {
    if n < 10 {
        "0"@ + nat_text(n)
    } else {
        nat_text(n)
    }
}

/// At least four digits of a number.
pub open spec fn four_digits(n: nat) -> Seq<char> {
    if n < 10 {
        "000"@ + nat_text(n)
    } else if n < 100 {
        "00"@ + nat_text(n)
    } else if n < 1000 {
        "0"@ + nat_text(n)
    } else {
        nat_text(n)
    }
}

/// The year, month and day that lie `days` days behind 1970-01-01, in the calendar whose
/// 400-year cycles have 146097 days, its years counted from March on.
pub open spec fn civil(days: int) -> (int, int, int) {
    let z = days + 719468;
    let era = z / 146097;
    let doe = z % 146097;
    let yoe = (doe - doe / 1460 + doe / 36524 - doe / 146096) / 365;
    let doy = doe - (365 * yoe + yoe / 4 - yoe / 100);
    let mp = (5 * doy + 2) / 153;
    let d = doy - (153 * mp + 2) / 5 + 1;
    let m = if mp < 10 { mp + 3 } else { mp - 9 };
    (yoe + era * 400 + (if m <= 2 { 1int } else { 0 }), m, d)
}

/// The number of whole cycles in so many days, and the days that are left.
fn split_eras(z: i64) -> (r: (i64, i64))
    requires
        z >= i64::MIN + 719468,
    ensures
        r.0 == z as int / 146097,
        r.1 == z as int % 146097,
        0 <= r.1 < 146097,
{
    let era: i64 = if z >= 0 {
        z / 146097
    } else {
        -((146096 - z) / 146097)
    };
    assert(era == z as int / 146097);
    (era, z - era * 146097)
}

#[verifier::spinoff_prover]
pub fn days_to_ymd(days: i64) -> (r: (i64, u32, u32))
    requires
        days + 719468 <= i64::MAX,
    ensures
        (r.0 as int, r.1 as int, r.2 as int) == civil(days as int),
        days >= 0 ==> r.0 >= 0,
{
    let (era, doe) = split_eras(days + 719468);
    let yoe: i64 = (doe - doe / 1460 + doe / 36524 - doe / 146096) / 365;
    let doy: i64 = doe - (365 * yoe + yoe / 4 - yoe / 100);
    let mp: i64 = (5 * doy + 2) / 153;
    let d: i64 = doy - (153 * mp + 2) / 5 + 1;
    let m: i64 = if mp < 10 { mp + 3 } else { mp - 9 };
    let y: i64 = yoe + era * 400;
    assert(0 <= d <= 32);
    (if m <= 2 { y + 1 } else { y }, m as u32, d as u32)
}

/// The date and the time of day, `micros` microseconds behind 1970-01-01.
pub open spec fn clock_text(micros: i64) -> Seq<char> {
    let secs = if micros > 0 { micros as int / 1_000_000 } else { 0 };
    let (y, m, d) = civil(secs / 86400);
    let t = secs % 86400;
    four_digits(y as nat) + "-"@ + two_digits(m as nat) + "-"@ + two_digits(d as nat) + " "@ + two_digits((t / 3600) as nat) + ":"@
        + two_digits(((t % 3600) / 60) as nat) + ":"@ + two_digits((t % 60) as nat)
}

fn show_two(n: u64) -> (r: String)
    ensures
        r@ == two_digits(n as nat),
{
    let t = nat_to_text(n as u128);
    if n < 10 {
        join2("0", t.as_str())
    } else {
        t
    }
}

fn show_four(n: u64) -> (r: String)
    ensures
        r@ == four_digits(n as nat),
{
    let t = nat_to_text(n as u128);
    if n < 10 {
        join2("000", t.as_str())
    } else if n < 100 {
        join2("00", t.as_str())
    } else if n < 1000 {
        join2("0", t.as_str())
    } else {
        t
    }
}

pub fn show_clock(micros: i64) -> (r: String)
    ensures
        r@ == clock_text(micros),
{
    let secs: u64 = if micros > 0 { micros as u64 / 1_000_000 } else { 0 };
    let days: u64 = secs / 86400;
    let t: u64 = secs % 86400;
    let (y, m, d) = days_to_ymd(days as i64);
    let mut s = show_four(y as u64);
    s.append("-");
    s.append(show_two(m as u64).as_str());
    s.append("-");
    s.append(show_two(d as u64).as_str());
    s.append(" ");
    s.append(show_two(t / 3600).as_str());
    s.append(":");
    s.append(show_two((t % 3600) / 60).as_str());
    s.append(":");
    s.append(show_two(t % 60).as_str());
    s
}

/// The days of a time behind 1970-01-01, in the lower half of their bits.
pub open spec fn days_of(micros: i64) -> i32 {
    (if micros > 0 { micros as int / 86_400_000_000 } else { 0 }) as i32
}

/// What the functions of the time give; `now` is the time in microseconds behind 1970-01-01.
pub open spec fn clock_fn(f: Seq<char>, now: i64) -> Option<ValueView> {
    if f == "NOW"@ || f == "CURRENT_TIMESTAMP"@ {
        Some(ValueView::Timestamp(now))
    } else if f == "CURRENT_DATE"@ {
        Some(ValueView::Date(days_of(now)))
    } else if f == "CURRENT_TIME"@ {
        Some(ValueView::Text(clock_text(now)))
    } else {
        None
    }
}

pub open spec fn or_else(a: Option<ValueView>, b: Option<ValueView>) -> Option<ValueView> {
    match a {
        Some(_) => a,
        None => b,
    }
}

/// What the function named `f`, in upper case, gives for its arguments. A function that is not
/// known, or that is called with too few arguments, gives null.
pub open spec fn call(m: Unit, now: i64, f: Seq<char>, a: Seq<ValueView>) -> ValueView {
    match call_choice(m, f, a) {
        Some(v) => v,
        None => match list_fn(m, f, a) {
            Some(v) => v,
            None => match clock_fn(f, now) {
                Some(v) => v,
                None => call_fixed(m, f, a),
            },
        },
    }
}

/// What the functions of one or of two arguments give.
pub open spec fn call_fixed(m: Unit, f: Seq<char>, a: Seq<ValueView>) -> ValueView {
    let one = if a.len() > 0 { or_else(text_fn(f, a[0]), number_fn(m, f, a[0])) } else { None };
    match one {
        Some(v) => v,
        None => if a.len() == 2 {
            match pair_fn(m, f, a[0], a[1]) {
                Some(v) => v,
                None => ValueView::Null,
            }
        } else {
            ValueView::Null
        },
    }
}

fn given_first(a: &Vec<Value>) -> (r: Value)
    ensures
        r@ == first_given(values_view(a@)),
{
    let mut i: usize = 0;
    let ghost all = values_view(a@);
    assert(all.skip(0) =~= all);
    while i < a.len()
        invariant
            i <= a.len(),
            all == values_view(a@),
            first_given(all.skip(i as int)) == first_given(all),
        decreases a.len() - i,
    {
        assert(all.skip(i as int)[0] == a@[i as int]@);
        match &a[i] {
            Value::Null => {},
            v => {
                return v.dup();
            },
        }
        assert(all.skip(i as int).skip(1) =~= all.skip(i + 1));
        i = i + 1;
    }
    Value::Null
}

pub fn find_extreme<U: Fn(Ask) -> Reply>(u: &U, a: &Vec<Value>, o: Order) -> (r: Value)
    requires
        is_unit(u),
    ensures
        r@ == extreme(model(u), values_view(a@), o, ValueView::Null),
{
    let mut best = Value::Null;
    let mut i: usize = 0;
    let ghost all = values_view(a@);
    assert(all.skip(0) =~= all);
    while i < a.len()
        invariant
            i <= a.len(),
            is_unit(u),
            all == values_view(a@),
            extreme(model(u), all.skip(i as int), o, best@) == extreme(model(u), all, o, ValueView::Null),
        decreases a.len() - i,
    {
        assert(all.skip(i as int)[0] == a@[i as int]@);
        assert(all.skip(i as int).skip(1) =~= all.skip(i + 1));
        match &a[i] {
            Value::Null => {},
            v => {
                let take = match &best {
                    Value::Null => true,
                    b => order_of(u, v, b) == Some(o),
                };
                if take {
                    best = v.dup();
                }
            },
        }
        i = i + 1;
    }
    best
}

fn choice_value<U: Fn(Ask) -> Reply>(u: &U, f: &str, a: &Vec<Value>) -> (r: Option<Value>)
    requires
        is_unit(u),
    ensures
        (match r { Some(v) => Some(v@), None => None }) == call_choice(model(u), f@, values_view(a@)),
{
    if text_is(f, "COALESCE") {
        Some(given_first(a))
    } else if text_is(f, "NULLIF") {
        if a.len() == 2 && !is_equal(u, &a[0], &a[1]) {
            Some(a[0].dup())
        } else {
            Some(Value::Null)
        }
    } else if text_is(f, "GREATEST") {
        Some(find_extreme(u, a, Order::Greater))
    } else if text_is(f, "LEAST") {
        Some(find_extreme(u, a, Order::Less))
    } else {
        None
    }
}

fn piece_text<U: Fn(Ask) -> Reply>(u: &U, v: &Value) -> (r: Option<String>)
    requires
        is_unit(u),
    ensures
        (match r { Some(s) => Some(s@), None => None }) == piece(model(u), v@),
{
    match v {
        Value::Text(s) => Some(s.clone()),
        Value::Int64(n) => Some(int_to_text(*n)),
        Value::Float64(x) => Some(ask_show_float(u, *x)),
        Value::Bool(b) => Some(show_bool(*b)),
        _ => None,
    }
}

fn concat_text<U: Fn(Ask) -> Reply>(u: &U, a: &Vec<Value>) -> (r: String)
    requires
        is_unit(u),
    ensures
        r@ == concat(model(u), values_view(a@)),
{
    let mut out = String::new();
    let mut i: usize = 0;
    let ghost all = values_view(a@);
    assert(all.take(0) =~= Seq::empty());
    assert(out@ =~= Seq::empty());
    while i < a.len()
        invariant
            i <= a.len(),
            is_unit(u),
            all == values_view(a@),
            out@ == concat(model(u), all.take(i as int)),
        decreases a.len() - i,
    {
        assert(all.take(i + 1).drop_last() =~= all.take(i as int));
        assert(all.take(i + 1).last() == a@[i as int]@);
        match piece_text(u, &a[i]) {
            Some(s) => {
                out.append(s.as_str());
            },
            None => {
                assert(out@ + Seq::<char>::empty() =~= out@);
            },
        }
        i = i + 1;
    }
    assert(all.take(a.len() as int) =~= all);
    out
}

fn concat_ws_text<U: Fn(Ask) -> Reply>(u: &U, sep: &str, a: &Vec<Value>) -> (r: String)
    requires
        is_unit(u),
        a.len() > 0,
    ensures
        r@ == concat_ws(model(u), sep@, values_view(a@).skip(1)).0,
{
    let mut out = String::new();
    let mut some = false;
    let mut i: usize = 1;
    let ghost all = values_view(a@).skip(1);
    assert(all.take(0) =~= Seq::empty());
    assert(out@ =~= Seq::empty());
    while i < a.len()
        invariant
            1 <= i <= a.len(),
            is_unit(u),
            all == values_view(a@).skip(1),
            (out@, some) == concat_ws(model(u), sep@, all.take(i - 1)),
        decreases a.len() - i,
    {
        assert(all.take(i as int).drop_last() =~= all.take(i - 1));
        assert(all.take(i as int).last() == a@[i as int]@);
        match piece_text(u, &a[i]) {
            Some(s) => {
                if some {
                    out.append(sep);
                    out.append(s.as_str());
                } else {
                    out = s;
                    some = true;
                }
            },
            None => {},
        }
        i = i + 1;
    }
    assert(all.take(a.len() - 1) =~= all);
    out
}

fn length_value(n: usize) -> (r: Value)
    ensures
        r@ == len_value(n as nat),
{
    Value::Int64(n as i64)
}

fn text_value(f: &str, v: &Value) -> (r: Option<Value>)
    ensures
        (match r { Some(x) => Some(x@), None => None }) == text_fn(f@, v@),
{
    if text_is(f, "UPPER") {
        Some(match v { Value::Text(s) => Value::Text(s.as_str().to_uppercase()), _ => Value::Null })
    } else if text_is(f, "LOWER") {
        Some(match v { Value::Text(s) => Value::Text(s.as_str().to_lowercase()), _ => Value::Null })
    } else if text_is(f, "TRIM") {
        Some(match v { Value::Text(s) => Value::Text(trim_text(s.as_str())), _ => Value::Null })
    } else if text_is(f, "REVERSE") {
        Some(match v { Value::Text(s) => Value::Text(reverse_text(s.as_str())), _ => Value::Null })
    } else if text_is(f, "INITCAP") {
        Some(match v { Value::Text(s) => Value::Text(initcap_text(s.as_str())), _ => Value::Null })
    } else {
        size_value(f, v)
    }
}

fn size_value(f: &str, v: &Value) -> (r: Option<Value>)
    ensures
        (match r { Some(x) => Some(x@), None => None }) == size_fn(f@, v@),
{
    if text_is(f, "CHAR_LENGTH") || text_is(f, "CHARACTER_LENGTH") {
        Some(match v { Value::Text(s) => length_value(chars_of(s.as_str()).len()), _ => Value::Null })
    } else if text_is(f, "LENGTH") {
        Some(match v {
            Value::Text(s) => length_value(chars_of(s.as_str()).len()),
            Value::Bytes(b) => length_value(b.len()),
            _ => Value::Null,
        })
    } else if text_is(f, "OCTET_LENGTH") {
        Some(match v {
            Value::Text(s) => length_value(s.as_str().as_bytes_vec().len()),
            Value::Bytes(b) => length_value(b.len()),
            _ => Value::Null,
        })
    } else if text_is(f, "BLOB_SIZE") {
        Some(match v { Value::Bytes(b) => length_value(b.len()), _ => Value::Null })
    } else if text_is(f, "BLOB") {
        Some(match v {
            Value::Text(s) => Value::Bytes(s.as_str().as_bytes_vec()),
            Value::Bytes(b) => v.dup(),
            _ => Value::Null,
        })
    } else {
        None
    }
}

fn rounded_value<U: Fn(Ask) -> Reply>(u: &U, op: FloatFn, v: &Value) -> (r: Value)
    requires
        is_unit(u),
    ensures
        r@ == rounded(model(u), op, v@),
{
    match v {
        Value::Float64(x) => Value::Float64(ask_fn(u, op, *x)),
        Value::Int64(n) => Value::Int64(*n),
        _ => Value::Null,
    }
}

fn abs_value<U: Fn(Ask) -> Reply>(u: &U, v: &Value) -> (r: Value)
    requires
        is_unit(u),
    ensures
        Some(r@) == number_fn(model(u), "ABS"@, v@),
{
    match v {
        Value::Int64(n) => {
            let k: i128 = if *n < 0 { -(*n as i128) } else { *n as i128 };
            int128_to_value(u, k)
        },
        Value::Float64(x) => Value::Float64(abs_bits(*x)),
        _ => Value::Null,
    }
}

fn sqrt_value<U: Fn(Ask) -> Reply>(u: &U, v: &Value) -> (r: Value)
    requires
        is_unit(u),
    ensures
        r@ == (match v@ {
            ValueView::Float64(x) => if !is_nan(x) && (is_zero(x) || x < 0x8000_0000_0000_0000) {
                ValueView::Float64(float_fn(model(u), FloatFn::Sqrt, x))
            } else {
                ValueView::Null
            },
            ValueView::Int64(n) => if n >= 0 {
                ValueView::Float64(float_fn(model(u), FloatFn::Sqrt, float_of(model(u), n as i128)))
            } else {
                ValueView::Null
            },
            _ => ValueView::Null,
        }),
{
    match v {
        Value::Float64(x) => {
            if abs_bits(*x) <= 0x7ff0_0000_0000_0000 && (zero_bits(*x) || *x < 0x8000_0000_0000_0000) {
                Value::Float64(ask_fn(u, FloatFn::Sqrt, *x))
            } else {
                Value::Null
            }
        },
        Value::Int64(n) => {
            if *n >= 0 {
                let f: u64 = ask_float(u, *n as i128);
                Value::Float64(ask_fn(u, FloatFn::Sqrt, f))
            } else {
                Value::Null
            }
        },
        _ => Value::Null,
    }
}

fn number_value<U: Fn(Ask) -> Reply>(u: &U, f: &str, v: &Value) -> (r: Option<Value>)
    requires
        is_unit(u),
    ensures
        (match r { Some(x) => Some(x@), None => None }) == number_fn(model(u), f@, v@),
{
    if text_is(f, "ABS") {
        Some(abs_value(u, v))
    } else if text_is(f, "CEIL") || text_is(f, "CEILING") {
        Some(rounded_value(u, FloatFn::Ceil, v))
    } else if text_is(f, "FLOOR") {
        Some(rounded_value(u, FloatFn::Floor, v))
    } else if text_is(f, "ROUND") {
        Some(rounded_value(u, FloatFn::Round, v))
    } else if text_is(f, "SQRT") {
        Some(sqrt_value(u, v))
    } else if text_is(f, "SIGN") {
        Some(match v {
            Value::Int64(n) => Value::Int64(if *n > 0 { 1 } else if *n < 0 { -1 } else { 0 }),
            Value::Float64(x) => Value::Int64(sign_bits(*x)),
            _ => Value::Null,
        })
    } else {
        None
    }
}

fn is_pair_name(f: &str) -> (r: bool)
    ensures
        r == takes_pair(f@),
{
    text_is(f, "STARTS_WITH") || text_is(f, "ENDS_WITH") || text_is(f, "CONTAINS") || text_is(f, "POSITION") || text_is(
        f,
        "STRPOS",
    ) || text_is(f, "LEFT") || text_is(f, "RIGHT") || text_is(f, "REPEAT")
}

fn texts_value(f: &str, x: &str, y: &str) -> (r: Option<Value>)
    ensures
        (match r { Some(v) => Some(v@), None => None }) == texts_fn(f@, x@, y@),
{
    if text_is(f, "STARTS_WITH") {
        Some(Value::Bool(starts_with_text(x, y)))
    } else if text_is(f, "ENDS_WITH") {
        Some(Value::Bool(ends_with_text(x, y)))
    } else if text_is(f, "CONTAINS") {
        Some(Value::Bool(contains_text(x, y)))
    } else if text_is(f, "POSITION") || text_is(f, "STRPOS") {
        Some(Value::Int64(position_in(y, x)))
    } else if is_pair_name(f) {
        Some(Value::Null)
    } else {
        None
    }
}

fn count_of(n: i64) -> (r: u64)
    ensures
        r as nat == at_least_zero(n),
{
    if n > 0 {
        n as u64
    } else {
        0
    }
}

fn repeat_value(x: &str, n: i64) -> (r: Value)
    ensures
        r@ == (if encode_utf8(x@).len() * at_least_zero(n) > i64::MAX {
            ValueView::Null
        } else {
            ValueView::Text(repeated(x@, at_least_zero(n)))
        }),
{
    let bytes: usize = x.as_bytes_vec().len();
    let count: u64 = if n > 0 { n as u64 } else { 0 };
    assert(bytes * count <= u64::MAX * i64::MAX) by (nonlinear_arith)
        requires
            0 <= bytes <= u64::MAX,
            0 <= count <= i64::MAX,
    ;
    let total: u128 = (bytes as u128) * (count as u128);
    if total > i64::MAX as u128 {
        Value::Null
    } else if bytes == 0 {
        proof {
            lemma_no_bytes(x@);
            lemma_repeat_empty(x@, at_least_zero(n));
        }
        Value::Text(x.to_string())
    } else {
        assert(count <= bytes * count) by (nonlinear_arith)
            requires
                bytes >= 1,
                count >= 0,
        ;
        let mut k: u64 = 0;
        let mut out = String::new();
        assert(out@ =~= repeated(x@, 0));
        while k < count
            invariant
                k <= count,
                out@ == repeated(x@, k as nat),
            decreases count - k,
        {
            out.append(x);
            k = k + 1;
        }
        Value::Text(out)
    }
}

proof fn lemma_no_bytes(s: Seq<char>)
    requires
        encode_utf8(s).len() == 0,
    ensures
        s.len() == 0,
{
    vstd::utf8::encode_utf8_decode_utf8(s);
    vstd::utf8::encode_utf8_decode_utf8(Seq::empty());
    assert(encode_utf8(s) =~= encode_utf8(Seq::<char>::empty()));
}

proof fn lemma_repeat_empty(s: Seq<char>, n: nat)
    requires
        s.len() == 0,
    ensures
        repeated(s, n) == s,
    decreases n,
{
    if n > 0 {
        lemma_repeat_empty(s, (n - 1) as nat);
    }
    assert(repeated(s, n) =~= s);
}

fn counted_value(f: &str, x: &str, n: i64) -> (r: Option<Value>)
    ensures
        (match r { Some(v) => Some(v@), None => None }) == counted_fn(f@, x@, n),
{
    if text_is(f, "LEFT") {
        Some(Value::Text(slice_text(x, 0, Some(count_of(n)))))
    } else if text_is(f, "RIGHT") {
        let k: u64 = count_of(n);
        let len: u64 = chars_of(x).len() as u64;
        let from: u64 = if k <= len { len - k } else { 0 };
        Some(Value::Text(slice_text(x, from, None)))
    } else if text_is(f, "REPEAT") {
        Some(repeat_value(x, n))
    } else if is_pair_name(f) {
        Some(Value::Null)
    } else {
        None
    }
}

fn power_value<U: Fn(Ask) -> Reply>(u: &U, a: &Value, b: &Value) -> (r: Value)
    requires
        is_unit(u),
    ensures
        r@ == (match (a@, b@) {
            (ValueView::Float64(x), ValueView::Float64(y)) => ValueView::Float64(
                float_op(model(u), FloatOp::Power, x, y),
            ),
            (ValueView::Int64(x), ValueView::Int64(y)) => ValueView::Float64(
                float_op(model(u), FloatOp::Power, float_of(model(u), x as i128), float_of(model(u), y as i128)),
            ),
            _ => ValueView::Null,
        }),
{
    match (a, b) {
        (Value::Float64(x), Value::Float64(y)) => Value::Float64(ask_op(u, FloatOp::Power, *x, *y)),
        (Value::Int64(x), Value::Int64(y)) => {
            let p: u64 = ask_float(u, *x as i128);
            let q: u64 = ask_float(u, *y as i128);
            Value::Float64(ask_op(u, FloatOp::Power, p, q))
        },
        _ => Value::Null,
    }
}

fn pair_value<U: Fn(Ask) -> Reply>(u: &U, f: &str, a: &Value, b: &Value) -> (r: Option<Value>)
    requires
        is_unit(u),
    ensures
        (match r { Some(v) => Some(v@), None => None }) == pair_fn(model(u), f@, a@, b@),
{
    if text_is(f, "POWER") || text_is(f, "POW") {
        Some(power_value(u, a, b))
    } else if text_is(f, "MOD") {
        Some(rest_value(u, a, b))
    } else {
        match (a, b) {
            (Value::Text(x), Value::Text(y)) => texts_value(f, x.as_str(), y.as_str()),
            (Value::Text(x), Value::Int64(n)) => counted_value(f, x.as_str(), *n),
            _ => if is_pair_name(f) {
                Some(Value::Null)
            } else {
                None
            },
        }
    }
}

fn substring_value(a: &Vec<Value>) -> (r: Value)
    ensures
        r@ == substring(values_view(a@)),
{
    if a.len() < 2 {
        return Value::Null;
    }
    assert(values_view(a@)[0] == a@[0]@);
    assert(values_view(a@)[1] == a@[1]@);
    let start: i64 = match &a[1] {
        Value::Int64(n) => *n,
        _ => {
            return Value::Null;
        },
    };
    let from: u64 = if start > 1 { count_of(start - 1) } else { 0 };
    let n: Option<u64> = if a.len() >= 3 {
        assert(values_view(a@)[2] == a@[2]@);
        match &a[2] {
            Value::Int64(k) => Some(count_of(*k)),
            _ => None,
        }
    } else {
        None
    };
    match &a[0] {
        Value::Text(s) => Value::Text(slice_text(s.as_str(), from, n)),
        Value::Bytes(b) => Value::Bytes(slice_bytes(b, from, n)),
        _ => Value::Null,
    }
}

fn pad_value(a: &Vec<Value>, front: bool) -> (r: Value)
    ensures
        r@ == pad(values_view(a@), front),
{
    if a.len() < 2 {
        return Value::Null;
    }
    assert(values_view(a@)[0] == a@[0]@);
    assert(values_view(a@)[1] == a@[1]@);
    let fill: String = if a.len() >= 3 {
        assert(values_view(a@)[2] == a@[2]@);
        match &a[2] {
            Value::Text(p) => p.clone(),
            _ => " ".to_string(),
        }
    } else {
        " ".to_string()
    };
    match (&a[0], &a[1]) {
        (Value::Text(s), Value::Int64(n)) => Value::Text(pad_text(s.as_str(), count_of(*n), fill.as_str(), front)),
        _ => Value::Null,
    }
}

fn concat_ws_value<U: Fn(Ask) -> Reply>(u: &U, a: &Vec<Value>) -> (r: Value)
    requires
        is_unit(u),
    ensures
        Some(r@) == list_fn(model(u), "CONCAT_WS"@, values_view(a@)),
{
    proof {
        lemma_names();
    }
    if a.len() == 0 {
        return Value::Null;
    }
    assert(values_view(a@)[0] == a@[0]@);
    match &a[0] {
        Value::Text(sep) => Value::Text(concat_ws_text(u, sep.as_str(), a)),
        _ => Value::Null,
    }
}

fn split_part_value(a: &Vec<Value>) -> (r: Value)
    ensures
        r@ == (if a@.len() == 3 && a@[0]@ is Text && a@[1]@ is Text && a@[2]@ is Int64 {
            ValueView::Text(split_part(a@[0]@->Text_0, a@[1]@->Text_0, a@[2]@->Int64_0 as int))
        } else {
            ValueView::Null
        }),
{
    if a.len() != 3 {
        return Value::Null;
    }
    match (&a[0], &a[1], &a[2]) {
        (Value::Text(s), Value::Text(sep), Value::Int64(n)) => Value::Text(
            split_part_text(s.as_str(), sep.as_str(), *n),
        ),
        _ => Value::Null,
    }
}

fn replace_value(a: &Vec<Value>) -> (r: Value)
    ensures
        r@ == (if a@.len() == 3 && a@[0]@ is Text && a@[1]@ is Text && a@[2]@ is Text {
            ValueView::Text(replaced_from(a@[0]@->Text_0, a@[1]@->Text_0, a@[2]@->Text_0, 0))
        } else {
            ValueView::Null
        }),
{
    if a.len() != 3 {
        return Value::Null;
    }
    match (&a[0], &a[1], &a[2]) {
        (Value::Text(s), Value::Text(f), Value::Text(t)) => Value::Text(
            replace_text(s.as_str(), f.as_str(), t.as_str()),
        ),
        _ => Value::Null,
    }
}

/// Names that differ.
proof fn lemma_names()
    ensures
        "CONCAT_WS"@ != "CONCAT"@,
{
    reveal_strlit("CONCAT_WS");
    reveal_strlit("CONCAT");
    assert("CONCAT_WS"@.len() != "CONCAT"@.len());
}

fn list_value<U: Fn(Ask) -> Reply>(u: &U, f: &str, a: &Vec<Value>) -> (r: Option<Value>)
    requires
        is_unit(u),
    ensures
        (match r { Some(v) => Some(v@), None => None }) == list_fn(model(u), f@, values_view(a@)),
{
    if text_is(f, "CONCAT") {
        Some(Value::Text(concat_text(u, a)))
    } else if text_is(f, "CONCAT_WS") {
        Some(concat_ws_value(u, a))
    } else if text_is(f, "SPLIT_PART") {
        Some(split_part_value(a))
    } else if text_is(f, "REPLACE") {
        Some(replace_value(a))
    } else if text_is(f, "SUBSTRING") || text_is(f, "SUBSTR") {
        Some(substring_value(a))
    } else if text_is(f, "LPAD") {
        Some(pad_value(a, true))
    } else if text_is(f, "RPAD") {
        Some(pad_value(a, false))
    } else {
        None
    }
}

fn clock_value(f: &str, now: i64) -> (r: Option<Value>)
    ensures
        (match r { Some(v) => Some(v@), None => None }) == clock_fn(f@, now),
{
    if text_is(f, "NOW") || text_is(f, "CURRENT_TIMESTAMP") {
        Some(Value::Timestamp(now))
    } else if text_is(f, "CURRENT_DATE") {
        let d: i64 = if now > 0 { now / 86_400_000_000 } else { 0 };
        let k: i32 = #[verifier::truncate] (d as i32);
        Some(Value::Date(k))
    } else if text_is(f, "CURRENT_TIME") {
        Some(Value::Text(show_clock(now)))
    } else {
        None
    }
}

fn fixed_value<U: Fn(Ask) -> Reply>(u: &U, f: &str, a: &Vec<Value>) -> (r: Value)
    requires
        is_unit(u),
    ensures
        r@ == call_fixed(model(u), f@, values_view(a@)),
{
    if a.len() == 0 {
        return Value::Null;
    }
    assert(values_view(a@)[0] == a@[0]@);
    match text_value(f, &a[0]) {
        Some(v) => {
            return v;
        },
        None => {},
    }
    match number_value(u, f, &a[0]) {
        Some(v) => {
            return v;
        },
        None => {},
    }
    if a.len() == 2 {
        assert(values_view(a@)[1] == a@[1]@);
        match pair_value(u, f, &a[0], &a[1]) {
            Some(v) => v,
            None => Value::Null,
        }
    } else {
        Value::Null
    }
}

/// Calls the function named `f`, in upper case.
pub fn call_function<U: Fn(Ask) -> Reply>(u: &U, now: i64, f: &str, a: &Vec<Value>) -> (r: Value)
    requires
        is_unit(u),
    ensures
        r@ == call(model(u), now, f@, values_view(a@)),
{
    match choice_value(u, f, a) {
        Some(v) => {
            return v;
        },
        None => {},
    }
    match list_value(u, f, a) {
        Some(v) => {
            return v;
        },
        None => {},
    }
    match clock_value(f, now) {
        Some(v) => {
            return v;
        },
        None => {},
    }
    fixed_value(u, f, a)
}

pub open spec fn splits(c: char) -> bool {
    c == '-' || c == ' ' || c == ':' || c == 'T'
}

/// The part number `n`, counted from 0, of the text from place `i` on, split at every character
/// that may stand between the parts of a time.
pub open spec fn time_part(s: Seq<char>, i: int, n: nat) -> Option<Seq<char>>
    decreases n,
{
    if i < 0 || i > s.len() {
        None
    } else if n == 0 {
        Some(s.subrange(i, part_end(s, i)))
    } else if part_end(s, i) < s.len() {
        time_part(s, part_end(s, i) + 1, (n - 1) as nat)
    } else {
        None
    }
}

/// Where the part that starts at `i` ends.
pub open spec fn part_end(s: Seq<char>, i: int) -> int
    decreases s.len() - i,
{
    if i < 0 || i >= s.len() || splits(s[i]) {
        i
    } else {
        part_end(s, i + 1)
    }
}

/// Which part of a time a field of EXTRACT is.
pub open spec fn field_index(f: Seq<char>) -> Option<nat> {
    if f == "YEAR"@ {
        Some(0)
    } else if f == "MONTH"@ {
        Some(1)
    } else if f == "DAY"@ {
        Some(2)
    } else if f == "HOUR"@ {
        Some(3)
    } else if f == "MINUTE"@ {
        Some(4)
    } else if f == "SECOND"@ {
        Some(5)
    } else {
        None
    }
}

/// What EXTRACT gives: a field of a time that is given as text.
pub open spec fn extracted(f: Seq<char>, v: ValueView) -> ValueView {
    match (v, field_index(f)) {
        (ValueView::Text(s), Some(n)) => match time_part(s, 0, n) {
            Some(p) => match int_of_text(p) {
                Some(k) => ValueView::Int64(k),
                None => ValueView::Null,
            },
            None => ValueView::Null,
        },
        _ => ValueView::Null,
    }
}

fn find_part_end(v: &Vec<char>, from: usize) -> (r: usize)
    requires
        from <= v.len(),
    ensures
        r == part_end(v@, from as int),
        from <= r <= v.len(),
{
    let mut i: usize = from;
    while i < v.len() && !(v[i] == '-' || v[i] == ' ' || v[i] == ':' || v[i] == 'T')
        invariant
            from <= i <= v.len(),
            part_end(v@, from as int) == part_end(v@, i as int),
        decreases v.len() - i,
    {
        i = i + 1;
    }
    i
}

fn find_time_part(v: &Vec<char>, n: usize) -> (r: Option<String>)
    ensures
        (match r { Some(s) => Some(s@), None => None }) == time_part(v@, 0, n as nat),
{
    let mut i: usize = 0;
    let mut k: usize = n;
    loop
        invariant
            i <= v.len(),
            k <= n,
            time_part(v@, 0, n as nat) == time_part(v@, i as int, k as nat),
        decreases k,
    {
        let e: usize = find_part_end(v, i);
        if k == 0 {
            return Some(string_of(v, i, e));
        }
        if e >= v.len() {
            return None;
        }
        i = e + 1;
        k = k - 1;
    }
}

fn index_of_field(f: &str) -> (r: Option<usize>)
    ensures
        (match r { Some(n) => Some(n as nat), None => None }) == field_index(f@),
{
    if text_is(f, "YEAR") {
        Some(0)
    } else if text_is(f, "MONTH") {
        Some(1)
    } else if text_is(f, "DAY") {
        Some(2)
    } else if text_is(f, "HOUR") {
        Some(3)
    } else if text_is(f, "MINUTE") {
        Some(4)
    } else if text_is(f, "SECOND") {
        Some(5)
    } else {
        None
    }
}

pub fn extract_from_timestamp(field: &str, val: &Value) -> (r: Value)
    ensures
        r@ == extracted(field@, val@),
{
    match (val, index_of_field(field)) {
        (Value::Text(s), Some(n)) => match find_time_part(&chars_of(s.as_str()), n) {
            Some(p) => match parse_int(p.as_str()) {
                Some(k) => Value::Int64(k),
                None => Value::Null,
            },
            None => Value::Null,
        },
        _ => Value::Null,
    }
}

} // verus!
