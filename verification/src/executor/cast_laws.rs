use vstd::prelude::*;
use vstd::utf8::encode_utf8;
use crate::parser::ast::ExprView;
use crate::text::{digit_char, int_text, nat_text};
use crate::value::{DataType, ValueView};
use super::eval::eval;
use super::scope::{Env, NamesView, ScopeView};
use super::scalar::{all_digits, cast, digits_value, int_of_text};
use super::scalar::is_digit;
use super::strings::text_lower;
use super::unit::{Unit, float_of_text, is_of, value_of_text};

verus! {

/// `CAST(x AS t)`.
pub open spec fn as_type(x: ExprView, t: DataType) -> ExprView {
    ExprView::Cast { expr: Box::new(x), data_type: t }
}

/// A cast gives a value of the type that was asked for, or null. JSON takes any value.
pub proof fn law_cast_gives_the_type(m: Unit, v: ValueView, t: DataType)
    requires
        t != DataType::Json,
    ensures
        cast(m, v, t) is Null || is_of(cast(m, v, t), t),
{
}

/// A cast leaves a value alone that is of the type already, and null.
pub proof fn law_cast_keeps(m: Unit, v: ValueView, t: DataType)
    requires
        is_of(v, t) || v is Null,
    ensures
        cast(m, v, t) == v,
{
}

/// Casting twice is casting once.
pub proof fn law_cast_twice(m: Unit, v: ValueView, t: DataType)
    ensures
        cast(m, cast(m, v, t), t) == cast(m, v, t),
{
    if t != DataType::Json {
        law_cast_gives_the_type(m, v, t);
        law_cast_keeps(m, cast(m, v, t), t);
    }
}

/// What a text writes out of a type.
pub open spec fn read_as(m: Unit, s: Seq<char>, t: DataType) -> Option<ValueView> {
    match t {
        DataType::Int64 => match int_of_text(s) {
            Some(n) => Some(ValueView::Int64(n)),
            None => None,
        },
        DataType::Float64 => match float_of_text(m, s) {
            Some(b) => Some(ValueView::Float64(b)),
            None => None,
        },
        _ => value_of_text(m, t, s),
    }
}

/// A text that writes out no number, no point in time and no identifier becomes null where one is
/// asked for, and else what it writes out.
pub proof fn law_cast_reads_text(m: Unit, s: Seq<char>, t: DataType)
    requires
        t == DataType::Int64 || t == DataType::Float64 || t == DataType::Decimal || t == DataType::Date || t
            == DataType::Timestamp || t == DataType::Uuid,
    ensures
        cast(m, ValueView::Text(s), t) == (match read_as(m, s, t) {
            Some(v) => v,
            None => ValueView::Null,
        }),
{
}

proof fn lemma_digits(n: nat)
    ensures
        all_digits(nat_text(n)),
        digits_value(nat_text(n)) == n,
    decreases n,
{
    reveal_with_fuel(digits_value, 2);
    let t = nat_text(n);
    if n < 10 {
        assert(t.drop_last() =~= Seq::empty());
        assert(is_digit(digit_char(n)));
    } else {
        lemma_digits(n / 10);
        let f = nat_text(n / 10);
        assert(t.drop_last() =~= f);
        assert(is_digit(digit_char(n % 10)));
        assert forall|i: int| 0 <= i < t.len() implies is_digit(#[trigger] t[i]) by {
            if i < f.len() {
                assert(is_digit(f[i]));
            }
        }
    }
}

/// An integer comes back from its text.
pub proof fn law_int_through_text(m: Unit, n: i64)
    ensures
        cast(m, cast(m, ValueView::Int64(n), DataType::Text), DataType::Int64) == ValueView::Int64(n),
{
    let s = int_text(n as int);
    if n < 0 {
        lemma_digits((-(n as int)) as nat);
        assert(s.skip(1) =~= nat_text((-(n as int)) as nat));
    } else {
        lemma_digits(n as nat);
        assert(is_digit(s[0]));
    }
}

/// What becomes of truth values and integers where another type is asked for.
pub proof fn law_cast_of_truth_and_integers(
    env: Env,
    o: Seq<ScopeView>,
    n: NamesView,
    row: Seq<ValueView>,
    x: ExprView,
    b: bool,
    k: i64,
)
    ensures
        eval(env, o, n, row, x) == ValueView::Bool(b) ==> {
            &&& eval(env, o, n, row, as_type(x, DataType::Int64)) == ValueView::Int64(if b { 1 } else { 0 })
            &&& eval(env, o, n, row, as_type(x, DataType::Text)) == ValueView::Text(if b { "true"@ } else { "false"@ })
        },
        eval(env, o, n, row, x) == ValueView::Int64(k) ==> {
            &&& eval(env, o, n, row, as_type(x, DataType::Bool)) == ValueView::Bool(k != 0)
            &&& eval(env, o, n, row, as_type(x, DataType::Timestamp)) == ValueView::Timestamp(k)
            &&& eval(env, o, n, row, as_type(x, DataType::Decimal)) == ValueView::Decimal(k as i128, 0)
            &&& eval(env, o, n, row, as_type(x, DataType::Text)) == ValueView::Text(int_text(k as int))
            &&& eval(env, o, n, row, as_type(x, DataType::Date)) is Null
            &&& eval(env, o, n, row, as_type(x, DataType::Bytes)) is Null
        },
{
    assert(eval(env, o, n, row, as_type(x, DataType::Int64)) == cast(env.m, eval(env, o, n, row, x), DataType::Int64));
    assert(eval(env, o, n, row, as_type(x, DataType::Text)) == cast(env.m, eval(env, o, n, row, x), DataType::Text));
    assert(eval(env, o, n, row, as_type(x, DataType::Bool)) == cast(env.m, eval(env, o, n, row, x), DataType::Bool));
    assert(eval(env, o, n, row, as_type(x, DataType::Timestamp)) == cast(env.m, eval(env, o, n, row, x), DataType::Timestamp));
    assert(eval(env, o, n, row, as_type(x, DataType::Decimal)) == cast(env.m, eval(env, o, n, row, x), DataType::Decimal));
    assert(eval(env, o, n, row, as_type(x, DataType::Date)) == cast(env.m, eval(env, o, n, row, x), DataType::Date));
    assert(eval(env, o, n, row, as_type(x, DataType::Bytes)) == cast(env.m, eval(env, o, n, row, x), DataType::Bytes));
}

/// The words for true and false, in any case.
pub proof fn law_cast_of_truth_words(m: Unit, s: Seq<char>)
    ensures
        text_lower(s) == "true"@ || text_lower(s) == "t"@ || text_lower(s) == "1"@ || text_lower(s) == "yes"@ ==> cast(
            m,
            ValueView::Text(s),
            DataType::Bool,
        ) == ValueView::Bool(true),
        text_lower(s) == "false"@ || text_lower(s) == "f"@ || text_lower(s) == "0"@ || text_lower(s) == "no"@ ==> cast(
            m,
            ValueView::Text(s),
            DataType::Bool,
        ) == ValueView::Bool(false),
        cast(m, ValueView::Text(s), DataType::Bytes) == ValueView::Bytes(encode_utf8(s)),
{
    reveal_strlit("true");
    reveal_strlit("t");
    reveal_strlit("1");
    reveal_strlit("yes");
    reveal_strlit("false");
    reveal_strlit("f");
    reveal_strlit("0");
    reveal_strlit("no");
    assert("true"@.len() == 4 && "t"@.len() == 1 && "1"@.len() == 1 && "yes"@.len() == 3);
    assert("false"@.len() == 5 && "f"@.len() == 1 && "0"@.len() == 1 && "no"@.len() == 2);
    assert("t"@[0] == 't' && "1"@[0] == '1' && "f"@[0] == 'f' && "0"@[0] == '0');
}

} // verus!
