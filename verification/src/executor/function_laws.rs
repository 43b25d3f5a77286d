use vstd::prelude::*;
use vstd::string::*;
use vstd::utf8::encode_utf8;
use crate::parser::ast::{BinOp, ExprView};
use crate::parser::token::ascii_upper_char;
use crate::value::ValueView;
use super::aggregate_laws::{all_integers, law_min_max_of_integers, lemma_aggregate_names};
use super::eval::{call_name, eval, is_summary};
use super::expr_laws::{lemma_eval_all, number_of, op_of};
use super::like::ascii_lower_char;
use super::functions::{call, concat, concat_ws, first_given};
use super::scope::{Env, NamesView, ScopeView};
use super::strings::{find_from, initcap_from, is_ascii_text, padding, part_from, replaced_from, stands_at, text_upper, trim_back, trim_front, trimmed};
use super::unit::{FloatFn, FloatOp, Unit, float_fn, float_of, float_op};

verus! {

/// The names of functions, told apart by how long they are and by some of their characters.
pub proof fn lemma_function_names()
    ensures
        "COALESCE"@.len() == 8 && "COALESCE"@[0] == 'C' && "COALESCE"@[2] == 'A',
        "NULLIF"@.len() == 6 && "NULLIF"@[0] == 'N' && "NULLIF"@[1] == 'U' && "NULLIF"@[2] == 'L',
        "GREATEST"@.len() == 8 && "GREATEST"@[0] == 'G' && "GREATEST"@[2] == 'E',
        "LEAST"@.len() == 5 && "LEAST"@[0] == 'L' && "LEAST"@[1] == 'E' && "LEAST"@[4] == 'T',
        "CONCAT"@.len() == 6 && "CONCAT"@[0] == 'C' && "CONCAT"@[1] == 'O' && "CONCAT"@[2] == 'N',
        "CONCAT_WS"@.len() == 9 && "CONCAT_WS"@[0] == 'C',
        "SPLIT_PART"@.len() == 10,
        "REPLACE"@.len() == 7 && "REPLACE"@[0] == 'R' && "REPLACE"@[2] == 'P',
        "SUBSTRING"@.len() == 9 && "SUBSTRING"@[0] == 'S',
        "SUBSTR"@.len() == 6 && "SUBSTR"@[0] == 'S' && "SUBSTR"@[1] == 'U' && "SUBSTR"@[2] == 'B',
        "LPAD"@.len() == 4 && "LPAD"@[0] == 'L' && "LPAD"@[1] == 'P' && "LPAD"@[2] == 'A',
        "RPAD"@.len() == 4 && "RPAD"@[0] == 'R' && "RPAD"@[1] == 'P' && "RPAD"@[2] == 'A',
        "NOW"@.len() == 3 && "NOW"@[0] == 'N' && "NOW"@[1] == 'O' && "NOW"@[2] == 'W',
        "CURRENT_TIMESTAMP"@.len() == 17,
        "CURRENT_DATE"@.len() == 12 && "CURRENT_DATE"@[0] == 'C' && "CURRENT_DATE"@[8] == 'D',
        "CURRENT_TIME"@.len() == 12 && "CURRENT_TIME"@[0] == 'C' && "CURRENT_TIME"@[8] == 'T',
        "UPPER"@.len() == 5 && "UPPER"@[0] == 'U' && "UPPER"@[1] == 'P' && "UPPER"@[4] == 'R',
        "LOWER"@.len() == 5 && "LOWER"@[0] == 'L' && "LOWER"@[1] == 'O' && "LOWER"@[4] == 'R',
        "TRIM"@.len() == 4 && "TRIM"@[0] == 'T' && "TRIM"@[1] == 'R' && "TRIM"@[2] == 'I',
        "REVERSE"@.len() == 7 && "REVERSE"@[0] == 'R' && "REVERSE"@[2] == 'V',
        "INITCAP"@.len() == 7 && "INITCAP"@[0] == 'I' && "INITCAP"@[2] == 'I',
        "CHAR_LENGTH"@.len() == 11 && "CHAR_LENGTH"@[0] == 'C',
        "CHARACTER_LENGTH"@.len() == 16,
        "LENGTH"@.len() == 6 && "LENGTH"@[0] == 'L' && "LENGTH"@[1] == 'E' && "LENGTH"@[2] == 'N',
        "OCTET_LENGTH"@.len() == 12 && "OCTET_LENGTH"@[0] == 'O' && "OCTET_LENGTH"@[8] == 'N',
        "BLOB_SIZE"@.len() == 9 && "BLOB_SIZE"@[0] == 'B',
        "BLOB"@.len() == 4 && "BLOB"@[0] == 'B' && "BLOB"@[1] == 'L' && "BLOB"@[2] == 'O',
        "ABS"@.len() == 3 && "ABS"@[0] == 'A' && "ABS"@[1] == 'B' && "ABS"@[2] == 'S',
        "CEIL"@.len() == 4 && "CEIL"@[0] == 'C' && "CEIL"@[1] == 'E' && "CEIL"@[2] == 'I',
        "CEILING"@.len() == 7 && "CEILING"@[0] == 'C' && "CEILING"@[2] == 'I',
        "FLOOR"@.len() == 5 && "FLOOR"@[0] == 'F' && "FLOOR"@[1] == 'L' && "FLOOR"@[4] == 'R',
        "ROUND"@.len() == 5 && "ROUND"@[0] == 'R' && "ROUND"@[1] == 'O' && "ROUND"@[4] == 'D',
        "SQRT"@.len() == 4 && "SQRT"@[0] == 'S' && "SQRT"@[1] == 'Q' && "SQRT"@[2] == 'R',
        "SIGN"@.len() == 4 && "SIGN"@[0] == 'S' && "SIGN"@[1] == 'I' && "SIGN"@[2] == 'G',
        "POWER"@.len() == 5 && "POWER"@[0] == 'P' && "POWER"@[1] == 'O' && "POWER"@[4] == 'R',
        "POW"@.len() == 3 && "POW"@[0] == 'P' && "POW"@[1] == 'O' && "POW"@[2] == 'W',
        "MOD"@.len() == 3 && "MOD"@[0] == 'M' && "MOD"@[1] == 'O' && "MOD"@[2] == 'D',
        "STARTS_WITH"@.len() == 11 && "STARTS_WITH"@[0] == 'S',
        "ENDS_WITH"@.len() == 9 && "ENDS_WITH"@[0] == 'E',
        "CONTAINS"@.len() == 8 && "CONTAINS"@[0] == 'C' && "CONTAINS"@[2] == 'N',
        "POSITION"@.len() == 8 && "POSITION"@[0] == 'P' && "POSITION"@[2] == 'S',
        "STRPOS"@.len() == 6 && "STRPOS"@[0] == 'S' && "STRPOS"@[1] == 'T' && "STRPOS"@[2] == 'R',
        "LEFT"@.len() == 4 && "LEFT"@[0] == 'L' && "LEFT"@[1] == 'E' && "LEFT"@[2] == 'F',
        "RIGHT"@.len() == 5 && "RIGHT"@[0] == 'R' && "RIGHT"@[1] == 'I' && "RIGHT"@[4] == 'T',
        "REPEAT"@.len() == 6 && "REPEAT"@[0] == 'R' && "REPEAT"@[1] == 'E' && "REPEAT"@[2] == 'P',
        "EXTRACT"@.len() == 7 && "EXTRACT"@[0] == 'E' && "EXTRACT"@[2] == 'T',
        "COUNT"@.len() == 5 && "COUNT"@[0] == 'C' && "COUNT"@[1] == 'O' && "COUNT"@[4] == 'T',
        "SUM"@.len() == 3 && "SUM"@[0] == 'S' && "SUM"@[1] == 'U' && "SUM"@[2] == 'M',
        "AVG"@.len() == 3 && "AVG"@[0] == 'A' && "AVG"@[1] == 'V' && "AVG"@[2] == 'G',
        "MIN"@.len() == 3 && "MIN"@[0] == 'M' && "MIN"@[1] == 'I' && "MIN"@[2] == 'N',
        "MAX"@.len() == 3 && "MAX"@[0] == 'M' && "MAX"@[1] == 'A' && "MAX"@[2] == 'X',
{
    reveal_strlit("COALESCE");
    reveal_strlit("NULLIF");
    reveal_strlit("GREATEST");
    reveal_strlit("LEAST");
    reveal_strlit("CONCAT");
    reveal_strlit("CONCAT_WS");
    reveal_strlit("SPLIT_PART");
    reveal_strlit("REPLACE");
    reveal_strlit("SUBSTRING");
    reveal_strlit("SUBSTR");
    reveal_strlit("LPAD");
    reveal_strlit("RPAD");
    reveal_strlit("NOW");
    reveal_strlit("CURRENT_TIMESTAMP");
    reveal_strlit("CURRENT_DATE");
    reveal_strlit("CURRENT_TIME");
    reveal_strlit("UPPER");
    reveal_strlit("LOWER");
    reveal_strlit("TRIM");
    reveal_strlit("REVERSE");
    reveal_strlit("INITCAP");
    reveal_strlit("CHAR_LENGTH");
    reveal_strlit("CHARACTER_LENGTH");
    reveal_strlit("LENGTH");
    reveal_strlit("OCTET_LENGTH");
    reveal_strlit("BLOB_SIZE");
    reveal_strlit("BLOB");
    reveal_strlit("ABS");
    reveal_strlit("CEIL");
    reveal_strlit("CEILING");
    reveal_strlit("FLOOR");
    reveal_strlit("ROUND");
    reveal_strlit("SQRT");
    reveal_strlit("SIGN");
    reveal_strlit("POWER");
    reveal_strlit("POW");
    reveal_strlit("MOD");
    reveal_strlit("STARTS_WITH");
    reveal_strlit("ENDS_WITH");
    reveal_strlit("CONTAINS");
    reveal_strlit("POSITION");
    reveal_strlit("STRPOS");
    reveal_strlit("LEFT");
    reveal_strlit("RIGHT");
    reveal_strlit("REPEAT");
    reveal_strlit("EXTRACT");
    reveal_strlit("COUNT");
    reveal_strlit("SUM");
    reveal_strlit("AVG");
    reveal_strlit("MIN");
    reveal_strlit("MAX");
}

// ---- calls

/// Whether `f` is the name, in upper case, of a function that is called on the values of its
/// arguments: not an aggregate, and not EXTRACT.
pub open spec fn plain_name(f: Seq<char>) -> bool {
    !is_summary(f) && f != "EXTRACT"@
}

pub open spec fn call_of(name: Seq<char>, args: Seq<ExprView>) -> ExprView {
    ExprView::Function { name, args }
}

/// A function is called on the values of its arguments, whatever the case its name is written in.
pub proof fn law_function_call(env: Env, o: Seq<ScopeView>, n: NamesView, row: Seq<ValueView>, name: Seq<char>, args: Seq<ExprView>)
    requires
        plain_name(text_upper(name)),
    ensures
        eval(env, o, n, row, call_of(name, args)) == call(
            env.m,
            env.known.now,
            text_upper(name),
            Seq::new(args.len(), |i: int| eval(env, o, n, row, args[i])),
        ),
{
    lemma_eval_all(env, o, n, row, args);
}

/// An aggregate stands for the column that holds its result.
pub proof fn law_aggregate_call(env: Env, o: Seq<ScopeView>, n: NamesView, row: Seq<ValueView>, name: Seq<char>, args: Seq<ExprView>, i: int)
    requires
        is_summary(text_upper(name)),
        n.columns.no_duplicates(),
        0 <= i < n.columns.len() == row.len(),
        n.columns[i] == call_name(name, args),
    ensures
        eval(env, o, n, row, call_of(name, args)) == row[i],
{
    super::expr_laws::lemma_index_of(n.columns, i);
}

// ---- choices

/// COALESCE gives its first argument that is not null, and null where all are.
pub proof fn law_coalesce(m: Unit, now: i64, a: Seq<ValueView>, k: int)
    requires
        0 <= k <= a.len(),
        forall|i: int| 0 <= i < k ==> #[trigger] a[i] is Null,
        k < a.len() ==> !(a[k] is Null),
    ensures
        call(m, now, "COALESCE"@, a) == (if k < a.len() {
            a[k]
        } else {
            ValueView::Null
        }),
    decreases k,
{
    lemma_first_given(a, k);
}

proof fn lemma_first_given(a: Seq<ValueView>, k: int)
    requires
        0 <= k <= a.len(),
        forall|i: int| 0 <= i < k ==> #[trigger] a[i] is Null,
        k < a.len() ==> !(a[k] is Null),
    ensures
        first_given(a) == (if k < a.len() {
            a[k]
        } else {
            ValueView::Null
        }),
    decreases k,
{
    if k > 0 {
        assert(a[0] is Null);
        let t = a.skip(1);
        assert forall|i: int| 0 <= i < k - 1 implies #[trigger] t[i] is Null by {
            assert(a[i + 1] is Null);
        }
        lemma_first_given(t, k - 1);
    }
}

/// NULLIF gives null for two arguments that are equal, and otherwise the first.
pub proof fn law_nullif(m: Unit, now: i64, a: ValueView, b: ValueView, x: i64, y: i64, s: Seq<char>)
    ensures
        call(m, now, "NULLIF"@, seq![ValueView::Int64(x), ValueView::Int64(y)]) == (if x == y {
            ValueView::Null
        } else {
            ValueView::Int64(x)
        }),
        call(m, now, "NULLIF"@, seq![ValueView::Text(s), ValueView::Text(s)]) is Null,
        a is Null ==> call(m, now, "NULLIF"@, seq![a, b]) is Null,
        b is Null ==> call(m, now, "NULLIF"@, seq![a, b]) == a,
        super::scalar::compared(m, BinOp::Eq, a, b) == ValueView::Bool(true) ==> call(m, now, "NULLIF"@, seq![a, b]) is Null,
        super::scalar::compared(m, BinOp::Eq, a, b) == ValueView::Bool(false) ==> call(m, now, "NULLIF"@, seq![a, b]) == a,
{
    lemma_function_names();
    super::sort::lemma_sort_flip(
        m,
        ValueView::Text(s),
        ValueView::Text(s),
        super::sort::Direction { ascending: true, nulls_first: None },
    );
}

/// GREATEST and LEAST of integers give one of them, and none is greater, or less.
pub proof fn law_greatest_and_least(m: Unit, now: i64, a: Seq<ValueView>, i: int)
    requires
        all_integers(a),
        0 <= i < a.len(),
    ensures
        ({
            let high = call(m, now, "GREATEST"@, a);
            let low = call(m, now, "LEAST"@, a);
            &&& a.contains(high) && high is Int64 && high->Int64_0 >= a[i]->Int64_0
            &&& a.contains(low) && low is Int64 && low->Int64_0 <= a[i]->Int64_0
        }),
{
    lemma_function_names();
    lemma_aggregate_names();
    law_min_max_of_integers(m, 0, a, i);
}

/// GREATEST and LEAST pass over nulls: they are the MAX and the MIN of their arguments.
pub proof fn law_greatest_is_max(m: Unit, now: i64, n: nat, a: Seq<ValueView>)
    ensures
        call(m, now, "GREATEST"@, a) == super::aggregate::aggregate(m, "MAX"@, n, Some(a)),
        call(m, now, "LEAST"@, a) == super::aggregate::aggregate(m, "MIN"@, n, Some(a)),
{
    lemma_function_names();
    lemma_aggregate_names();
}

// ---- texts

/// CONCAT writes its arguments one behind the other: texts as they are, integers with their digits,
/// truth values as words; a null adds nothing.
pub proof fn law_concat(m: Unit, now: i64, a: Seq<ValueView>, s: Seq<char>, k: i64, b: bool)
    ensures
        ({
            let t = call(m, now, "CONCAT"@, a);
            &&& t is Text
            &&& call(m, now, "CONCAT"@, Seq::empty()) == ValueView::Text(Seq::empty())
            &&& call(m, now, "CONCAT"@, a.push(ValueView::Text(s))) == ValueView::Text(t->Text_0 + s)
            &&& call(m, now, "CONCAT"@, a.push(ValueView::Int64(k))) == ValueView::Text(t->Text_0 + crate::text::int_text(k as int))
            &&& call(m, now, "CONCAT"@, a.push(ValueView::Bool(b))) == ValueView::Text(
                t->Text_0 + (if b {
                    "true"@
                } else {
                    "false"@
                }),
            )
            &&& call(m, now, "CONCAT"@, a.push(ValueView::Null)) == t
        }),
{
    lemma_function_names();
    assert(a.push(ValueView::Text(s)).drop_last() =~= a);
    assert(a.push(ValueView::Int64(k)).drop_last() =~= a);
    assert(a.push(ValueView::Bool(b)).drop_last() =~= a);
    assert(a.push(ValueView::Null).drop_last() =~= a);
    assert(concat(m, a) + Seq::<char>::empty() =~= concat(m, a));
}

/// CONCAT_WS writes its first argument between the others; a null is passed over with what would
/// stand before it.
pub proof fn law_concat_ws(m: Unit, now: i64, sep: Seq<char>, a: Seq<ValueView>, i: int, s: Seq<char>)
    requires
        0 <= i < a.len(),
        a[i] is Text,
    ensures
        ({
            let all = seq![ValueView::Text(sep)] + a;
            let t = call(m, now, "CONCAT_WS"@, all);
            &&& t is Text
            &&& call(m, now, "CONCAT_WS"@, all.push(ValueView::Text(s))) == ValueView::Text(t->Text_0 + sep + s)
            &&& call(m, now, "CONCAT_WS"@, all.push(ValueView::Null)) == t
            &&& call(m, now, "CONCAT_WS"@, seq![ValueView::Text(sep), ValueView::Text(s)]) == ValueView::Text(s)
        }),
{
    lemma_function_names();
    let all = seq![ValueView::Text(sep)] + a;
    lemma_some_piece(m, sep, a, i);
    assert(all.skip(1) =~= a);
    assert(all.push(ValueView::Text(s)).skip(1) =~= a.push(ValueView::Text(s)));
    assert(all.push(ValueView::Null).skip(1) =~= a.push(ValueView::Null));
    assert(a.push(ValueView::Text(s)).drop_last() =~= a);
    assert(a.push(ValueView::Null).drop_last() =~= a);
    let two = seq![ValueView::Text(sep), ValueView::Text(s)];
    assert(two.skip(1) =~= seq![ValueView::Text(s)]);
    assert(seq![ValueView::Text(s)].drop_last() =~= Seq::empty());
    reveal_with_fuel(concat_ws, 2);
}

proof fn lemma_some_piece(m: Unit, sep: Seq<char>, a: Seq<ValueView>, i: int)
    requires
        0 <= i < a.len(),
        a[i] is Text,
    ensures
        concat_ws(m, sep, a).1,
    decreases a.len(),
{
    if i < a.len() - 1 {
        assert(a.drop_last()[i] == a[i]);
        lemma_some_piece(m, sep, a.drop_last(), i);
    }
}

/// UPPER and LOWER of a text in ASCII keep every character that is not a letter, and turn each letter
/// into the same letter of the other case.
pub proof fn law_upper_and_lower(m: Unit, now: i64, s: Seq<char>, i: int)
    requires
        is_ascii_text(s),
        0 <= i < s.len(),
    ensures
        ({
            let up = call(m, now, "UPPER"@, seq![ValueView::Text(s)]);
            let low = call(m, now, "LOWER"@, seq![ValueView::Text(s)]);
            let c = s[i] as u32;
            &&& up is Text && low is Text
            &&& up->Text_0.len() == s.len() && low->Text_0.len() == s.len()
            &&& up->Text_0[i] as u32 == (if 97 <= c <= 122 {
                c - 32
            } else {
                c as int
            })
            &&& low->Text_0[i] as u32 == (if 65 <= c <= 90 {
                c + 32
            } else {
                c as int
            })
        }),
{
    lemma_function_names();
    assert((s[i] as u32) < 128);
}

/// TRIM takes away white space in front and behind, and nothing else.
#[verifier::spinoff_prover]
pub proof fn law_trim(m: Unit, now: i64, s: Seq<char>)
    ensures
        ({
            let r = call(m, now, "TRIM"@, seq![ValueView::Text(s)]);
            &&& r is Text
            &&& r->Text_0.len() > 0 ==> !crate::parser::lexer::char_is_whitespace(r->Text_0[0])
                && !crate::parser::lexer::char_is_whitespace(r->Text_0.last())
            &&& exists|a: Seq<char>, b: Seq<char>| #![trigger a + r->Text_0 + b]
                s == a + r->Text_0 + b && all_blank(a) && all_blank(b)
        }),
{
    lemma_function_names();
    let a = lemma_trim_front(s);
    let f = trim_front(s);
    let b = lemma_trim_back(f);
    let r = trimmed(s);
    let v = call(m, now, "TRIM"@, seq![ValueView::Text(s)]);
    assert(v == ValueView::Text(r));
    assert(s =~= a + v->Text_0 + b);
    if r.len() > 0 {
        assert(f[0] == r[0]);
    }
}

pub open spec fn all_blank(s: Seq<char>) -> bool {
    forall|i: int| 0 <= i < s.len() ==> crate::parser::lexer::char_is_whitespace(#[trigger] s[i])
}

proof fn lemma_trim_front(s: Seq<char>) -> (a: Seq<char>)
    ensures
        s == a + trim_front(s),
        all_blank(a),
        trim_front(s).len() > 0 ==> !crate::parser::lexer::char_is_whitespace(trim_front(s)[0]),
    decreases s.len(),
{
    if s.len() > 0 && crate::parser::lexer::char_is_whitespace(s[0]) {
        let b = lemma_trim_front(s.skip(1));
        let a = seq![s[0]] + b;
        assert(s =~= a + trim_front(s)) by {
            assert(s =~= seq![s[0]] + s.skip(1));
        }
        a
    } else {
        assert(s =~= Seq::empty() + s);
        Seq::empty()
    }
}

proof fn lemma_trim_back(s: Seq<char>) -> (b: Seq<char>)
    ensures
        s == trim_back(s) + b,
        all_blank(b),
        trim_back(s).len() > 0 ==> !crate::parser::lexer::char_is_whitespace(trim_back(s).last()),
    decreases s.len(),
{
    if s.len() > 0 && crate::parser::lexer::char_is_whitespace(s.last()) {
        let a = lemma_trim_back(s.drop_last());
        let b = a.push(s.last());
        assert(s =~= trim_back(s) + b) by {
            assert(s =~= s.drop_last().push(s.last()));
        }
        b
    } else {
        assert(s =~= s + Seq::empty());
        Seq::empty()
    }
}

/// REVERSE turns a text round.
pub proof fn law_reverse(m: Unit, now: i64, s: Seq<char>, i: int)
    requires
        0 <= i < s.len(),
    ensures
        ({
            let r = call(m, now, "REVERSE"@, seq![ValueView::Text(s)]);
            r is Text && r->Text_0.len() == s.len() && r->Text_0[i] == s[s.len() - 1 - i]
        }),
{
    lemma_function_names();
}

/// INITCAP begins a text, and each word behind one blank, with a capital, and writes the characters
/// that follow one another within a word small.
pub proof fn law_initcap(m: Unit, now: i64, s: Seq<char>, i: int)
    requires
        is_ascii_text(s),
        0 <= i < s.len(),
    ensures
        ({
            let r = call(m, now, "INITCAP"@, seq![ValueView::Text(s)]);
            let blank = |k: int| crate::parser::lexer::char_is_whitespace(s[k]);
            &&& r is Text && r->Text_0.len() == s.len()
            &&& i == 0 ==> r->Text_0[i] == ascii_upper_char(s[i])
            &&& i > 0 && !blank(i - 1) ==> r->Text_0[i] == (if blank(i) {
                s[i]
            } else {
                ascii_lower_char(s[i])
            })
            &&& i > 1 && blank(i - 1) && !blank(i - 2) ==> r->Text_0[i] == ascii_upper_char(s[i])
        }),
{
    lemma_function_names();
    lemma_initcap(s, 0, true, i);
}

proof fn lemma_initcap(s: Seq<char>, k: int, cap: bool, i: int)
    requires
        is_ascii_text(s),
        0 <= k <= i < s.len(),
        k > 0 && !crate::parser::lexer::char_is_whitespace(s[k - 1]) ==> !cap,
        k > 1 && crate::parser::lexer::char_is_whitespace(s[k - 1]) && !crate::parser::lexer::char_is_whitespace(s[k - 2]) ==> cap,
        k == 0 ==> cap,
    ensures
        ({
            let r = initcap_from(s, k, cap);
            let blank = |x: int| crate::parser::lexer::char_is_whitespace(s[x]);
            &&& r.len() == s.len() - k
            &&& i == 0 ==> r[i - k] == ascii_upper_char(s[i])
            &&& i > 0 && !blank(i - 1) ==> r[i - k] == (if blank(i) {
                s[i]
            } else {
                ascii_lower_char(s[i])
            })
            &&& i > 1 && blank(i - 1) && !blank(i - 2) ==> r[i - k] == ascii_upper_char(s[i])
        }),
    decreases s.len() - k,
{
    assert((s[k] as u32) < 128);
    let next = if cap {
        false
    } else {
        crate::parser::lexer::char_is_whitespace(s[k])
    };
    if k < i {
        lemma_initcap(s, k + 1, next, i);
    } else {
        lemma_initcap_len(s, k, cap);
    }
    lemma_initcap_len(s, k, cap);
    let head = if cap {
        super::strings::char_upper(s[k])
    } else if crate::parser::lexer::char_is_whitespace(s[k]) {
        s[k]
    } else {
        super::strings::char_lower(s[k])
    };
    let tail = initcap_from(s, k + 1, next);
    assert(initcap_from(s, k, cap) == seq![head] + tail);
    if k < i {
        assert((seq![head] + tail)[i - k] == tail[i - k - 1]);
    }
}

proof fn lemma_initcap_len(s: Seq<char>, k: int, cap: bool)
    requires
        0 <= k <= s.len(),
    ensures
        initcap_from(s, k, cap).len() == s.len() - k,
    decreases s.len() - k,
{
    if k < s.len() {
        lemma_initcap_len(s, k + 1, false);
        lemma_initcap_len(s, k + 1, true);
    }
}

/// The functions of lengths: characters of a text, bytes of a text or of bytes.
pub proof fn law_lengths(m: Unit, now: i64, s: Seq<char>, b: Seq<u8>)
    ensures
        call(m, now, "LENGTH"@, seq![ValueView::Text(s)]) == ValueView::Int64(s.len() as i64),
        call(m, now, "CHAR_LENGTH"@, seq![ValueView::Text(s)]) == ValueView::Int64(s.len() as i64),
        call(m, now, "CHARACTER_LENGTH"@, seq![ValueView::Text(s)]) == ValueView::Int64(s.len() as i64),
        call(m, now, "LENGTH"@, seq![ValueView::Bytes(b)]) == ValueView::Int64(b.len() as i64),
        call(m, now, "OCTET_LENGTH"@, seq![ValueView::Bytes(b)]) == ValueView::Int64(b.len() as i64),
        call(m, now, "BLOB_SIZE"@, seq![ValueView::Bytes(b)]) == ValueView::Int64(b.len() as i64),
        call(m, now, "BLOB"@, seq![ValueView::Bytes(b)]) == ValueView::Bytes(b),
        call(m, now, "OCTET_LENGTH"@, seq![ValueView::Text(s)]) == call(m, now, "BLOB_SIZE"@, seq![call(m, now, "BLOB"@, seq![ValueView::Text(s)])]),
        call(m, now, "BLOB"@, seq![ValueView::Text(s)]) == ValueView::Bytes(encode_utf8(s)),
{
    lemma_function_names();
}

/// The functions that ask where a text stands in another.
pub proof fn law_text_in_text(m: Unit, now: i64, s: Seq<char>, t: Seq<char>)
    ensures
        ({
            let two = seq![ValueView::Text(s), ValueView::Text(t)];
            &&& call(m, now, "STARTS_WITH"@, two) == ValueView::Bool(exists|b: Seq<char>| #[trigger] (t + b) == s)
            &&& call(m, now, "ENDS_WITH"@, two) == ValueView::Bool(exists|a: Seq<char>| #[trigger] (a + t) == s)
            &&& call(m, now, "CONTAINS"@, two) == ValueView::Bool(holds_text(s, t))
        }),
{
    lemma_function_names();
    lemma_find_from(s, t, 0);
    if stands_at(s, t, 0) {
        assert(t + s.skip(t.len() as int) =~= s) by {
            assert(s.subrange(0, t.len() as int) =~= s.take(t.len() as int));
        }
    }
    if exists|b: Seq<char>| #[trigger] (t + b) == s {
        let b = choose|b: Seq<char>| #[trigger] (t + b) == s;
        assert(s.subrange(0, t.len() as int) =~= t);
    }
    let k = s.len() - t.len();
    if stands_at(s, t, k) {
        assert(s.take(k) + t =~= s);
    }
    if exists|a: Seq<char>| #[trigger] (a + t) == s {
        let a = choose|a: Seq<char>| #[trigger] (a + t) == s;
        assert(s.subrange(k, k + t.len()) =~= t);
    }
    if holds_text(s, t) {
        let k = choose|k: int| 0 <= k <= s.len() - t.len() && #[trigger] s.subrange(k, k + t.len()) == t;
        assert(stands_at(s, t, k));
    }
}

/// Whether a text stands somewhere in another.
pub open spec fn holds_text(s: Seq<char>, t: Seq<char>) -> bool {
    exists|k: int| 0 <= k <= s.len() - t.len() && #[trigger] s.subrange(k, k + t.len()) == t
}

proof fn lemma_find_from(s: Seq<char>, n: Seq<char>, i: int)
    requires
        0 <= i,
    ensures
        match find_from(s, n, i) {
            Some(j) => i <= j && stands_at(s, n, j) && forall|k: int| i <= k < j ==> !#[trigger] stands_at(s, n, k),
            None => forall|k: int| i <= k ==> !#[trigger] stands_at(s, n, k),
        },
    decreases s.len() + 1 - i,
{
    if i <= s.len() && !stands_at(s, n, i) {
        lemma_find_from(s, n, i + 1);
    }
}

/// POSITION of a text in another is zero where it does not stand there, and otherwise one more than
/// the bytes before the first place where it does.
pub proof fn law_position(m: Unit, now: i64, t: Seq<char>, s: Seq<char>, k: int)
    requires
        encode_utf8(s).len() < i64::MAX,
    ensures
        ({
            let p = call(m, now, "POSITION"@, seq![ValueView::Text(t), ValueView::Text(s)]);
            &&& call(m, now, "STRPOS"@, seq![ValueView::Text(t), ValueView::Text(s)]) == p
            &&& !holds_text(s, t) ==> p == ValueView::Int64(0)
            &&& 0 <= k <= s.len() - t.len() && s.subrange(k, k + t.len()) == t && (forall|j: int|
                0 <= j < k ==> #[trigger] s.subrange(j, j + t.len()) != t) && encode_utf8(s.take(k)).len() < i64::MAX ==> p == ValueView::Int64(
                (encode_utf8(s.take(k)).len() + 1) as i64,
            )
        }),
{
    lemma_function_names();
    lemma_find_from(s, t, 0);
    if !holds_text(s, t) {
        assert forall|j: int| 0 <= j implies !#[trigger] stands_at(s, t, j) by {
            if stands_at(s, t, j) {
                assert(s.subrange(j, j + t.len()) == t);
            }
        }
    }
    if 0 <= k <= s.len() - t.len() && s.subrange(k, k + t.len()) == t && (forall|j: int|
        0 <= j < k ==> #[trigger] s.subrange(j, j + t.len()) != t) {
        assert(stands_at(s, t, k));
        let f = find_from(s, t, 0);
        assert(f is Some);
        assert(s.subrange(f->0, f->0 + t.len()) == t);
        assert(f->0 == k);
    }
}

/// LEFT gives the first characters of a text and RIGHT the last; a text is its first characters
/// followed by its last.
pub proof fn law_left_and_right(m: Unit, now: i64, s: Seq<char>, n: i64)
    requires
        s.len() <= i64::MAX,
    ensures
        ({
            let l = call(m, now, "LEFT"@, seq![ValueView::Text(s), ValueView::Int64(n)]);
            let r = call(m, now, "RIGHT"@, seq![ValueView::Text(s), ValueView::Int64(n)]);
            &&& l is Text && r is Text
            &&& n <= 0 ==> l->Text_0.len() == 0 && r->Text_0.len() == 0
            &&& n >= s.len() ==> l->Text_0 == s && r->Text_0 == s
            &&& 0 <= n <= s.len() ==> l->Text_0 == s.take(n as int) && r->Text_0 == s.skip(s.len() - n)
            &&& 0 <= n <= s.len() ==> ValueView::Text(
                l->Text_0 + call(m, now, "RIGHT"@, seq![ValueView::Text(s), ValueView::Int64((s.len() - n) as i64)])->Text_0,
            ) == ValueView::Text(s)
        }),
{
    lemma_function_names();
    if 0 <= n <= s.len() {
        assert(s.subrange(0, n as int) =~= s.take(n as int));
        assert(s.take(n as int) + s.skip(n as int) =~= s);
    }
    if n <= 0 {
        assert(s.subrange(0, 0) =~= Seq::empty());
        assert(s.skip(s.len() as int) =~= Seq::empty());
    }
    assert(s.skip(0) =~= s);
    if n >= s.len() {
        assert(s.subrange(0, s.len() as int) =~= s);
    }
}

/// REPEAT of no times is empty, and of one time more is the text once more behind.
pub proof fn law_repeat(m: Unit, now: i64, s: Seq<char>, n: i64)
    requires
        0 <= n < i64::MAX,
        encode_utf8(s).len() * (n + 1) <= i64::MAX,
    ensures
        call(m, now, "REPEAT"@, seq![ValueView::Text(s), ValueView::Int64(0)]) == ValueView::Text(Seq::empty()),
        ({
            let r = call(m, now, "REPEAT"@, seq![ValueView::Text(s), ValueView::Int64(n)]);
            &&& r is Text
            &&& call(m, now, "REPEAT"@, seq![ValueView::Text(s), ValueView::Int64((n + 1) as i64)]) == ValueView::Text(r->Text_0 + s)
        }),
{
    lemma_function_names();
    let b = encode_utf8(s).len() as int;
    assert(b * n <= b * (n + 1)) by (nonlinear_arith)
        requires
            b >= 0,
    ;
    assert(b * 0 == 0);
}

/// SUBSTRING gives the characters from a place, counted from one, on, and at most so many.
pub proof fn law_substring(m: Unit, now: i64, s: Seq<char>, from: i64, n: i64, i: int)
    requires
        1 <= from,
        0 <= n,
    ensures
        ({
            let r = call(m, now, "SUBSTRING"@, seq![ValueView::Text(s), ValueView::Int64(from), ValueView::Int64(n)]);
            let t = call(m, now, "SUBSTRING"@, seq![ValueView::Text(s), ValueView::Int64(from)]);
            let left = if from - 1 <= s.len() {
                s.len() - (from - 1)
            } else {
                0
            };
            &&& r is Text && t is Text
            &&& call(m, now, "SUBSTR"@, seq![ValueView::Text(s), ValueView::Int64(from), ValueView::Int64(n)]) == r
            &&& r->Text_0.len() == (if n <= left {
                n as int
            } else {
                left
            })
            &&& t->Text_0.len() == left
            &&& 0 <= i < r->Text_0.len() ==> r->Text_0[i] == s[from - 1 + i]
            &&& 0 <= i < t->Text_0.len() ==> t->Text_0[i] == s[from - 1 + i]
        }),
{
    lemma_function_names();
}

/// LPAD and RPAD bring a text to a length: they cut it off behind, or fill it up in front or behind
/// with the fill, over and over.
pub proof fn law_pad(m: Unit, now: i64, s: Seq<char>, n: i64, fill: Seq<char>, i: int)
    requires
        0 <= n,
        fill.len() > 0,
    ensures
        ({
            let a = seq![ValueView::Text(s), ValueView::Int64(n), ValueView::Text(fill)];
            let l = call(m, now, "LPAD"@, a);
            let r = call(m, now, "RPAD"@, a);
            &&& l is Text && r is Text
            &&& l->Text_0.len() == n && r->Text_0.len() == n
            &&& s.len() >= n ==> l->Text_0 == s.take(n as int) && r->Text_0 == s.take(n as int)
            &&& s.len() < n ==> l->Text_0.skip(n - s.len()) == s && r->Text_0.take(s.len() as int) == s
            &&& 0 <= i < n - s.len() ==> l->Text_0[i] == fill[i % (fill.len() as int)] && r->Text_0[s.len() + i] == fill[i % (fill.len()
                as int)]
        }),
{
    lemma_function_names();
    if s.len() < n {
        let p = padding(fill, (n - s.len()) as nat);
        assert((p + s).skip(n - s.len()) =~= s);
        assert((s + p).take(s.len() as int) =~= s);
    }
}

/// Without a fill, LPAD and RPAD fill up with blanks.
pub proof fn law_pad_with_blanks(m: Unit, now: i64, s: Seq<char>, n: i64)
    ensures
        ({
            let a = seq![ValueView::Text(s), ValueView::Int64(n)];
            let b = a.push(ValueView::Text(" "@));
            &&& call(m, now, "LPAD"@, a) == call(m, now, "LPAD"@, b)
            &&& call(m, now, "RPAD"@, a) == call(m, now, "RPAD"@, b)
        }),
{
    lemma_function_names();
}

/// REPLACE leaves a text in which what is sought does not stand, and otherwise replaces it where it
/// first stands and goes on behind that.
pub proof fn law_replace(m: Unit, now: i64, p: Seq<char>, f: Seq<char>, t: Seq<char>, q: Seq<char>)
    requires
        f.len() > 0,
    ensures
        ({
            let of = |x: Seq<char>| call(m, now, "REPLACE"@, seq![ValueView::Text(x), ValueView::Text(f), ValueView::Text(t)]);
            &&& of(q) is Text
            &&& !holds_text(p, f) ==> of(p) == ValueView::Text(p)
            &&& (forall|j: int| 0 <= j < p.len() ==> #[trigger] (p + f + q).subrange(j, j + f.len()) != f) ==> of(p + f + q) == ValueView::Text(
                p + t + of(q)->Text_0,
            )
        }),
{
    lemma_function_names();
    if !holds_text(p, f) {
        lemma_replace_none(p, f, t, 0);
        assert(p.skip(0) =~= p);
    }
    let s = p + f + q;
    if forall|j: int| 0 <= j < p.len() ==> #[trigger] s.subrange(j, j + f.len()) != f {
        assert(s.subrange(p.len() as int, (p.len() + f.len()) as int) =~= f);
        lemma_replace_first(s, f, t, 0, p.len() as int);
        assert(s.skip((p.len() + f.len()) as int) =~= q);
        assert(s.subrange(0, p.len() as int) =~= p);
        lemma_replace_tail(s, q, f, t, (p.len() + f.len()) as int, 0);
    }
}

proof fn lemma_replace_none(s: Seq<char>, f: Seq<char>, t: Seq<char>, i: int)
    requires
        f.len() > 0,
        !holds_text(s, f),
        0 <= i <= s.len(),
    ensures
        replaced_from(s, f, t, i) == s.skip(i),
    decreases s.len() - i,
{
    if i < s.len() {
        lemma_replace_none(s, f, t, i + 1);
        if stands_at(s, f, i) {
            assert(s.subrange(i, i + f.len()) == f);
        }
        assert(seq![s[i]] + s.skip(i + 1) =~= s.skip(i));
    } else {
        assert(s.skip(i) =~= Seq::empty());
    }
}

proof fn lemma_replace_first(s: Seq<char>, f: Seq<char>, t: Seq<char>, i: int, k: int)
    requires
        f.len() > 0,
        0 <= i <= k,
        k + f.len() <= s.len(),
        s.subrange(k, k + f.len()) == f,
        forall|j: int| 0 <= j < k ==> #[trigger] s.subrange(j, j + f.len()) != f,
    ensures
        replaced_from(s, f, t, i) == s.subrange(i, k) + t + replaced_from(s, f, t, k + f.len()),
    decreases k - i,
{
    if i < k {
        lemma_replace_first(s, f, t, i + 1, k);
        assert(s.subrange(i, i + f.len()) != f);
        assert(!stands_at(s, f, i));
        assert(seq![s[i]] + s.subrange(i + 1, k) =~= s.subrange(i, k));
        assert(replaced_from(s, f, t, i) =~= s.subrange(i, k) + t + replaced_from(s, f, t, k + f.len()));
    } else {
        assert(stands_at(s, f, i));
        assert(s.subrange(i, k) =~= Seq::empty());
        assert(replaced_from(s, f, t, i) =~= s.subrange(i, k) + t + replaced_from(s, f, t, k + f.len()));
    }
}

proof fn lemma_replace_tail(s: Seq<char>, q: Seq<char>, f: Seq<char>, t: Seq<char>, at: int, i: int)
    requires
        f.len() > 0,
        0 <= at,
        0 <= i <= q.len(),
        at + q.len() == s.len(),
        s.skip(at) == q,
    ensures
        replaced_from(s, f, t, at + i) == replaced_from(q, f, t, i),
    decreases q.len() - i,
{
    if i < q.len() {
        assert(q[i] == s[at + i]);
        if i + f.len() <= q.len() {
            assert(q.subrange(i, i + f.len()) =~= s.subrange(at + i, at + i + f.len()));
        }
        assert(stands_at(s, f, at + i) == stands_at(q, f, i));
        if stands_at(q, f, i) {
            lemma_replace_tail(s, q, f, t, at, i + f.len());
        } else {
            lemma_replace_tail(s, q, f, t, at, i + 1);
        }
    }
}

/// SPLIT_PART gives the parts of a text between separators: a text without the separator is its only
/// part; of one with it, the first part is what stands before it, and the others are the parts of
/// what stands behind it.
pub proof fn law_split_part(m: Unit, now: i64, p: Seq<char>, sep: Seq<char>, q: Seq<char>, n: i64)
    requires
        sep.len() > 0,
        1 <= n < i64::MAX,
    ensures
        ({
            let part = |x: Seq<char>, k: i64| call(m, now, "SPLIT_PART"@, seq![ValueView::Text(x), ValueView::Text(sep), ValueView::Int64(k)]);
            let s = p + sep + q;
            &&& !holds_text(p, sep) ==> part(p, 1) == ValueView::Text(p)
            &&& !holds_text(p, sep) && n > 1 ==> part(p, n) == ValueView::Text(Seq::empty())
            &&& (forall|j: int| 0 <= j < p.len() ==> #[trigger] s.subrange(j, j + sep.len()) != sep) ==> part(s, 1) == ValueView::Text(p)
                && part(s, (n + 1) as i64) == part(q, n)
        }),
{
    lemma_function_names();
    reveal_with_fuel(part_from, 2);
    let s = p + sep + q;
    if !holds_text(p, sep) {
        lemma_find_from(p, sep, 0);
        if find_from(p, sep, 0) is Some {
            let j = find_from(p, sep, 0)->0;
            assert(p.subrange(j, j + sep.len()) == sep);
        }
        assert(p.skip(0) =~= p);
    }
    if forall|j: int| 0 <= j < p.len() ==> #[trigger] s.subrange(j, j + sep.len()) != sep {
        let at = p.len() as int;
        assert(s.subrange(at, at + sep.len()) =~= sep);
        assert(stands_at(s, sep, at));
        lemma_find_from(s, sep, 0);
        let f = find_from(s, sep, 0);
        assert(f is Some);
        assert(s.subrange(f->0, f->0 + sep.len()) == sep);
        assert(f->0 == at);
        assert(s.subrange(0, at) =~= p);
        assert(s.skip(at + sep.len()) =~= q);
        lemma_part_tail(s, q, sep, at + sep.len(), 0, (n - 1) as nat);
    }
}

proof fn lemma_part_tail(s: Seq<char>, q: Seq<char>, sep: Seq<char>, at: int, i: int, n: nat)
    requires
        sep.len() > 0,
        0 <= at,
        0 <= i <= q.len(),
        at + q.len() == s.len(),
        s.skip(at) == q,
    ensures
        part_from(s, sep, at + i, n) == part_from(q, sep, i, n),
    decreases n,
{
    lemma_find_tail(s, q, sep, at, i);
    lemma_find_from(q, sep, i);
    match find_from(q, sep, i) {
        None => {
            assert(s.skip(at + i) =~= q.skip(i));
        },
        Some(j) => {
            assert(s.subrange(at + i, at + j) =~= q.subrange(i, j));
            if n > 0 {
                lemma_part_tail(s, q, sep, at, j + sep.len(), (n - 1) as nat);
            }
        },
    }
}

proof fn lemma_find_tail(s: Seq<char>, q: Seq<char>, sep: Seq<char>, at: int, i: int)
    requires
        0 <= at,
        0 <= i <= q.len() + 1,
        at + q.len() == s.len(),
        s.skip(at) == q,
    ensures
        find_from(s, sep, at + i) == (match find_from(q, sep, i) {
            Some(j) => Some(at + j),
            None => None,
        }),
    decreases q.len() + 1 - i,
{
    if i <= q.len() {
        if i + sep.len() <= q.len() {
            assert(q.subrange(i, i + sep.len()) =~= s.subrange(at + i, at + i + sep.len()));
        }
        assert(stands_at(s, sep, at + i) == stands_at(q, sep, i));
        if !stands_at(q, sep, i) {
            lemma_find_tail(s, q, sep, at, i + 1);
        }
    }
}

// ---- numbers

/// ABS and SIGN of an integer: the one is not negative, the other is -1, 0 or 1, and an integer is
/// their product.
pub proof fn law_abs_and_sign(m: Unit, now: i64, n: i64)
    ensures
        call(m, now, "ABS"@, seq![ValueView::Int64(n)]) == number_of(m, if n < 0 {
            -n
        } else {
            n as int
        }),
        ({
            let s = call(m, now, "SIGN"@, seq![ValueView::Int64(n)]);
            &&& s is Int64
            &&& (s->Int64_0 == 1 <==> n > 0)
            &&& (s->Int64_0 == -1 <==> n < 0)
            &&& (s->Int64_0 == 0 <==> n == 0)
        }),
{
    lemma_function_names();
}

/// CEIL, FLOOR and ROUND leave an integer as it is, and ask the unit for a float; SQRT asks it for a
/// number that is not negative, and gives null for any other integer.
pub proof fn law_rounding(m: Unit, now: i64, n: i64, x: u64)
    ensures
        call(m, now, "CEIL"@, seq![ValueView::Int64(n)]) == ValueView::Int64(n),
        call(m, now, "CEILING"@, seq![ValueView::Int64(n)]) == ValueView::Int64(n),
        call(m, now, "FLOOR"@, seq![ValueView::Int64(n)]) == ValueView::Int64(n),
        call(m, now, "ROUND"@, seq![ValueView::Int64(n)]) == ValueView::Int64(n),
        call(m, now, "CEIL"@, seq![ValueView::Float64(x)]) == ValueView::Float64(float_fn(m, FloatFn::Ceil, x)),
        call(m, now, "CEILING"@, seq![ValueView::Float64(x)]) == ValueView::Float64(float_fn(m, FloatFn::Ceil, x)),
        call(m, now, "FLOOR"@, seq![ValueView::Float64(x)]) == ValueView::Float64(float_fn(m, FloatFn::Floor, x)),
        call(m, now, "ROUND"@, seq![ValueView::Float64(x)]) == ValueView::Float64(float_fn(m, FloatFn::Round, x)),
        call(m, now, "SQRT"@, seq![ValueView::Int64(n)]) == (if n >= 0 {
            ValueView::Float64(float_fn(m, FloatFn::Sqrt, float_of(m, n as i128)))
        } else {
            ValueView::Null
        }),
        x <= 0x7ff0_0000_0000_0000 ==> call(m, now, "SQRT"@, seq![ValueView::Float64(x)]) == ValueView::Float64(float_fn(m, FloatFn::Sqrt, x)),
        0x8000_0000_0000_0000 < x ==> call(m, now, "SQRT"@, seq![ValueView::Float64(x)]) is Null,
        call(m, now, "ABS"@, seq![ValueView::Float64(x)]) == ValueView::Float64(if x >= 0x8000_0000_0000_0000 {
            (x - 0x8000_0000_0000_0000) as u64
        } else {
            x
        }),
{
    lemma_function_names();
}

/// POWER of two numbers is what the unit says, and MOD is `%`.
pub proof fn law_power_and_mod(env: Env, o: Seq<ScopeView>, n: NamesView, row: Seq<ValueView>, now: i64, a: ExprView, b: ExprView, x: i64, y: i64, u: u64, v: u64)
    ensures
        call(env.m, now, "POWER"@, seq![ValueView::Int64(x), ValueView::Int64(y)]) == ValueView::Float64(
            float_op(env.m, FloatOp::Power, float_of(env.m, x as i128), float_of(env.m, y as i128)),
        ),
        call(env.m, now, "POWER"@, seq![ValueView::Float64(u), ValueView::Float64(v)]) == ValueView::Float64(
            float_op(env.m, FloatOp::Power, u, v),
        ),
        call(env.m, now, "POW"@, seq![ValueView::Int64(x), ValueView::Int64(y)]) == call(
            env.m,
            now,
            "POWER"@,
            seq![ValueView::Int64(x), ValueView::Int64(y)],
        ),
        call(env.m, now, "MOD"@, seq![eval(env, o, n, row, a), eval(env, o, n, row, b)]) == eval(env, o, n, row, op_of(a, BinOp::Mod, b)),
{
    lemma_function_names();
}

// ---- times

/// NOW and CURRENT_TIMESTAMP are the time, and CURRENT_DATE the day that it falls on.
pub proof fn law_now(m: Unit, now: i64, a: Seq<ValueView>)
    requires
        0 <= now,
    ensures
        call(m, now, "NOW"@, a) == ValueView::Timestamp(now),
        call(m, now, "CURRENT_TIMESTAMP"@, a) == ValueView::Timestamp(now),
        ({
            let d = call(m, now, "CURRENT_DATE"@, a);
            &&& d is Date
            &&& d->Date_0 * 86_400_000_000 <= now < (d->Date_0 + 1) * 86_400_000_000
        }),
{
    lemma_function_names();
    assert(now as int / 86_400_000_000 <= 106_751_992);
}

// ---- nulls

/// The functions of texts and of numbers give null for null.
pub proof fn law_functions_of_null(m: Unit, now: i64, b: ValueView)
    ensures
        ({
            let z = seq![ValueView::Null];
            let two = seq![ValueView::Null, b];
            &&& call(m, now, "UPPER"@, z) is Null
            &&& call(m, now, "LOWER"@, z) is Null
            &&& call(m, now, "TRIM"@, z) is Null
            &&& call(m, now, "REVERSE"@, z) is Null
            &&& call(m, now, "INITCAP"@, z) is Null
            &&& call(m, now, "LENGTH"@, z) is Null
            &&& call(m, now, "CHAR_LENGTH"@, z) is Null
            &&& call(m, now, "OCTET_LENGTH"@, z) is Null
            &&& call(m, now, "ABS"@, z) is Null
            &&& call(m, now, "SIGN"@, z) is Null
            &&& call(m, now, "CEIL"@, z) is Null
            &&& call(m, now, "FLOOR"@, z) is Null
            &&& call(m, now, "ROUND"@, z) is Null
            &&& call(m, now, "SQRT"@, z) is Null
            &&& call(m, now, "LEFT"@, two) is Null
            &&& call(m, now, "RIGHT"@, two) is Null
            &&& call(m, now, "REPEAT"@, two) is Null
            &&& call(m, now, "STARTS_WITH"@, two) is Null
            &&& call(m, now, "ENDS_WITH"@, two) is Null
            &&& call(m, now, "CONTAINS"@, two) is Null
            &&& call(m, now, "POSITION"@, two) is Null
            &&& call(m, now, "SUBSTRING"@, two) is Null
            &&& call(m, now, "LPAD"@, two) is Null
            &&& call(m, now, "RPAD"@, two) is Null
            &&& call(m, now, "POWER"@, two) is Null
            &&& call(m, now, "MOD"@, two) is Null
        }),
{
    lemma_function_names();
}

} // verus!
