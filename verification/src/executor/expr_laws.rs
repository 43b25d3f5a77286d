use vstd::prelude::*;
use crate::parser::ast::{BinOp, ExprView, LiteralValueView, UnaryOp};
use crate::value::ValueView;
use super::eval::{case_value, eval, eval_all, predicate};
use super::scope::{Env, NamesView, ScopeView};
use super::unit::{FloatOp, Unit, float_of, float_op};

verus! {

/// The expression `a op b`.
pub open spec fn op_of(a: ExprView, op: BinOp, b: ExprView) -> ExprView {
    ExprView::BinaryOp { left: Box::new(a), op, right: Box::new(b) }
}

/// Whether the WHEN of a CASE is met: the operand equals it, or without an operand it is true.
pub open spec fn when_holds(env: Env, o: Seq<ScopeView>, n: NamesView, row: Seq<ValueView>, operand: Option<Box<ExprView>>, w: ExprView) -> bool {
    match operand {
        Some(x) => eval(env, o, n, row, op_of(*x, BinOp::Eq, w)) == ValueView::Bool(true),
        None => eval(env, o, n, row, w) == ValueView::Bool(true),
    }
}

pub open spec fn case_of(operand: Option<Box<ExprView>>, w: Seq<(ExprView, ExprView)>, otherwise: Option<Box<ExprView>>) -> ExprView {
    ExprView::Case { operand, when_clauses: w, else_result: otherwise }
}

pub open spec fn operand_value(env: Env, o: Seq<ScopeView>, n: NamesView, row: Seq<ValueView>, operand: Option<Box<ExprView>>) -> Option<ValueView> {
    match operand {
        Some(x) => Some(eval(env, o, n, row, *x)),
        None => None,
    }
}

proof fn lemma_case_none(
    env: Env,
    o: Seq<ScopeView>,
    n: NamesView,
    row: Seq<ValueView>,
    operand: Option<Box<ExprView>>,
    w: Seq<(ExprView, ExprView)>,
)
    requires
        forall|j: int| 0 <= j < w.len() ==> !when_holds(env, o, n, row, operand, (#[trigger] w[j]).0),
    ensures
        case_value(env, o, n, row, operand_value(env, o, n, row, operand), w) is None,
    decreases w.len(),
{
    if w.len() > 0 {
        assert forall|j: int| 0 <= j < w.drop_last().len() implies !when_holds(env, o, n, row, operand, (#[trigger] w.drop_last()[j]).0) by {
            assert(w.drop_last()[j] == w[j]);
        }
        lemma_case_none(env, o, n, row, operand, w.drop_last());
        assert(!when_holds(env, o, n, row, operand, w[w.len() - 1].0));
        reveal_with_fuel(eval, 2);
    }
}

proof fn lemma_case_first(
    env: Env,
    o: Seq<ScopeView>,
    n: NamesView,
    row: Seq<ValueView>,
    operand: Option<Box<ExprView>>,
    w: Seq<(ExprView, ExprView)>,
    k: int,
)
    requires
        0 <= k < w.len(),
        when_holds(env, o, n, row, operand, w[k].0),
        forall|j: int| 0 <= j < k ==> !when_holds(env, o, n, row, operand, (#[trigger] w[j]).0),
    ensures
        case_value(env, o, n, row, operand_value(env, o, n, row, operand), w) == Some(eval(env, o, n, row, w[k].1)),
    decreases w.len(),
{
    let d = w.drop_last();
    assert forall|j: int| 0 <= j < k && j < d.len() implies !when_holds(env, o, n, row, operand, (#[trigger] d[j]).0) by {
        assert(d[j] == w[j]);
    }
    if k < w.len() - 1 {
        assert(d[k] == w[k]);
        lemma_case_first(env, o, n, row, operand, d, k);
    } else {
        lemma_case_none(env, o, n, row, operand, d);
        assert(w.last() == w[k]);
        reveal_with_fuel(eval, 2);
    }
}

/// A CASE gives the result of the first WHEN that is met. With an operand, that is the first that
/// equals the operand.
pub proof fn law_case_takes_first(
    env: Env,
    o: Seq<ScopeView>,
    n: NamesView,
    row: Seq<ValueView>,
    operand: Option<Box<ExprView>>,
    w: Seq<(ExprView, ExprView)>,
    otherwise: Option<Box<ExprView>>,
    k: int,
)
    requires
        0 <= k < w.len(),
        when_holds(env, o, n, row, operand, w[k].0),
        forall|j: int| 0 <= j < k ==> !when_holds(env, o, n, row, operand, (#[trigger] w[j]).0),
    ensures
        eval(env, o, n, row, case_of(operand, w, otherwise)) == eval(env, o, n, row, w[k].1),
{
    lemma_case_first(env, o, n, row, operand, w, k);
}

/// A CASE of which no WHEN is met gives the value of its ELSE, or null where it has none.
pub proof fn law_case_else(
    env: Env,
    o: Seq<ScopeView>,
    n: NamesView,
    row: Seq<ValueView>,
    operand: Option<Box<ExprView>>,
    w: Seq<(ExprView, ExprView)>,
    otherwise: Option<Box<ExprView>>,
)
    requires
        forall|j: int| 0 <= j < w.len() ==> !when_holds(env, o, n, row, operand, (#[trigger] w[j]).0),
    ensures
        eval(env, o, n, row, case_of(operand, w, otherwise)) == (match otherwise {
            Some(e) => eval(env, o, n, row, *e),
            None => ValueView::Null,
        }),
{
    lemma_case_none(env, o, n, row, operand, w);
}

/// The WHENs of a CASE with an operand as those of one without: each says that the operand equals it.
pub open spec fn spelt_out(x: ExprView, w: Seq<(ExprView, ExprView)>) -> Seq<(ExprView, ExprView)> {
    Seq::new(w.len(), |i: int| (op_of(x, BinOp::Eq, w[i].0), w[i].1))
}

/// `CASE x WHEN w THEN r ..` is `CASE WHEN x = w THEN r ..`.
pub proof fn law_case_operand(
    env: Env,
    o: Seq<ScopeView>,
    n: NamesView,
    row: Seq<ValueView>,
    x: ExprView,
    w: Seq<(ExprView, ExprView)>,
    otherwise: Option<Box<ExprView>>,
)
    ensures
        eval(env, o, n, row, case_of(Some(Box::new(x)), w, otherwise)) == eval(
            env,
            o,
            n,
            row,
            case_of(None, spelt_out(x, w), otherwise),
        ),
{
    let operand = Some(Box::new(x));
    let s = spelt_out(x, w);
    assert forall|j: int| 0 <= j < w.len() implies when_holds(env, o, n, row, operand, #[trigger] w[j].0) == when_holds(
        env,
        o,
        n,
        row,
        None,
        s[j].0,
    ) by {}
    if exists|k: int| 0 <= k < w.len() && when_holds(env, o, n, row, operand, (#[trigger] w[k]).0) {
        let a = choose|k: int| 0 <= k < w.len() && when_holds(env, o, n, row, operand, (#[trigger] w[k]).0);
        let k = lemma_least(env, o, n, row, operand, w, a);
        law_case_takes_first(env, o, n, row, operand, w, otherwise, k);
        assert forall|j: int| 0 <= j < k implies !when_holds(env, o, n, row, None, (#[trigger] s[j]).0) by {
            assert(!when_holds(env, o, n, row, operand, w[j].0));
        }
        law_case_takes_first(env, o, n, row, None, s, otherwise, k);
    } else {
        law_case_else(env, o, n, row, operand, w, otherwise);
        assert forall|j: int| 0 <= j < s.len() implies !when_holds(env, o, n, row, None, (#[trigger] s[j]).0) by {
            assert(!when_holds(env, o, n, row, operand, w[j].0));
        }
        law_case_else(env, o, n, row, None, s, otherwise);
    }
}

proof fn lemma_least(
    env: Env,
    o: Seq<ScopeView>,
    n: NamesView,
    row: Seq<ValueView>,
    operand: Option<Box<ExprView>>,
    w: Seq<(ExprView, ExprView)>,
    a: int,
) -> (k: int)
    requires
        0 <= a < w.len(),
        when_holds(env, o, n, row, operand, w[a].0),
    ensures
        0 <= k <= a,
        when_holds(env, o, n, row, operand, w[k].0),
        forall|j: int| 0 <= j < k ==> !when_holds(env, o, n, row, operand, (#[trigger] w[j]).0),
    decreases a,
{
    if exists|j: int| 0 <= j < a && when_holds(env, o, n, row, operand, (#[trigger] w[j]).0) {
        let b = choose|j: int| 0 <= j < a && when_holds(env, o, n, row, operand, (#[trigger] w[j]).0);
        lemma_least(env, o, n, row, operand, w, b)
    } else {
        a
    }
}

// ---- operators

/// Integers compare as numbers.
pub proof fn law_compare_integers(env: Env, o: Seq<ScopeView>, n: NamesView, row: Seq<ValueView>, a: ExprView, b: ExprView, x: i64, y: i64)
    requires
        eval(env, o, n, row, a) == ValueView::Int64(x),
        eval(env, o, n, row, b) == ValueView::Int64(y),
    ensures
        eval(env, o, n, row, op_of(a, BinOp::Eq, b)) == ValueView::Bool(x == y),
        eval(env, o, n, row, op_of(a, BinOp::Neq, b)) == ValueView::Bool(x != y),
        eval(env, o, n, row, op_of(a, BinOp::Lt, b)) == ValueView::Bool(x < y),
        eval(env, o, n, row, op_of(a, BinOp::Gt, b)) == ValueView::Bool(x > y),
        eval(env, o, n, row, op_of(a, BinOp::Lte, b)) == ValueView::Bool(x <= y),
        eval(env, o, n, row, op_of(a, BinOp::Gte, b)) == ValueView::Bool(x >= y),
{
}

/// Dates, and timestamps, compare by which is the earlier.
pub proof fn law_compare_times(env: Env, o: Seq<ScopeView>, n: NamesView, row: Seq<ValueView>, a: ExprView, b: ExprView, x: i64, y: i64)
    requires
        ({
            let u = eval(env, o, n, row, a);
            let v = eval(env, o, n, row, b);
            ||| u == ValueView::Timestamp(x) && v == ValueView::Timestamp(y)
            ||| u == ValueView::Interval(x) && v == ValueView::Interval(y)
            ||| i32::MIN <= x <= i32::MAX && i32::MIN <= y <= i32::MAX && u == ValueView::Date(x as i32) && v == ValueView::Date(y as i32)
        }),
    ensures
        eval(env, o, n, row, op_of(a, BinOp::Eq, b)) == ValueView::Bool(x == y),
        eval(env, o, n, row, op_of(a, BinOp::Neq, b)) == ValueView::Bool(x != y),
        eval(env, o, n, row, op_of(a, BinOp::Lt, b)) == ValueView::Bool(x < y),
        eval(env, o, n, row, op_of(a, BinOp::Gt, b)) == ValueView::Bool(x > y),
        eval(env, o, n, row, op_of(a, BinOp::Lte, b)) == ValueView::Bool(x <= y),
        eval(env, o, n, row, op_of(a, BinOp::Gte, b)) == ValueView::Bool(x >= y),
{
}

/// Whether a text comes before another in the order of a dictionary: it is a proper beginning of
/// it, or at the first place where they differ its character is the lesser.
pub open spec fn text_before(x: Seq<char>, y: Seq<char>) -> bool {
    exists|k: int|
        0 <= k <= x.len() && k <= y.len() && #[trigger] x.take(k) == y.take(k) && k < y.len() && (k == x.len() || (x[k] as u32) < (
        y[k] as u32))
}

proof fn lemma_codes_differ(a: char, b: char)
    requires
        a != b,
    ensures
        a as u32 != b as u32,
{
}

proof fn lemma_text_order(x: Seq<char>, y: Seq<char>, i: int)
    requires
        0 <= i <= x.len(),
        i <= y.len(),
        x.take(i) == y.take(i),
    ensures
        super::scalar::seq_order(super::scalar::codes(x), super::scalar::codes(y), i) == (if x == y {
            crate::value::Order::Equal
        } else if text_before(x, y) {
            crate::value::Order::Less
        } else {
            crate::value::Order::Greater
        }),
        !(text_before(x, y) && text_before(y, x)),
        text_before(x, y) ==> x != y,
    decreases x.len() - i,
{
    let a = super::scalar::codes(x);
    let b = super::scalar::codes(y);
    if i < x.len() && i < y.len() && x[i] == y[i] {
        assert(a[i] == b[i]);
        assert(x.take(i + 1) =~= x.take(i).push(x[i]));
        assert(y.take(i + 1) =~= y.take(i).push(y[i]));
        lemma_text_order(x, y, i + 1);
    } else {
        assert forall|k: int| 0 <= k <= x.len() && k <= y.len() && #[trigger] x.take(k) == y.take(k) implies k <= i by {
            if k > i {
                assert(x.take(k)[i] == y.take(k)[i]);
                assert(x.take(k)[i] == x[i] && y.take(k)[i] == y[i]);
            }
        }
        assert forall|k: int| 0 <= k < i implies x[k] == y[k] by {
            assert(x.take(i)[k] == x[k] && y.take(i)[k] == y[k]);
        }
        if text_before(x, y) {
            let k = choose|k: int|
                0 <= k <= x.len() && k <= y.len() && #[trigger] x.take(k) == y.take(k) && k < y.len() && (k == x.len() || (x[k] as u32) < (
                y[k] as u32));
            assert(k <= i);
            if k < i {
                assert(x[k] == y[k]);
            }
        }
        if text_before(y, x) {
            let k = choose|k: int|
                0 <= k <= y.len() && k <= x.len() && #[trigger] y.take(k) == x.take(k) && k < x.len() && (k == y.len() || (y[k] as u32) < (
                x[k] as u32));
            assert(x.take(k) == y.take(k));
            assert(k <= i);
            if k < i {
                assert(x[k] == y[k]);
            }
        }
        if i == x.len() && i == y.len() {
            assert(x =~= y);
        }
        if i < y.len() && (i == x.len() || (x[i] as u32) < (y[i] as u32)) {
            assert(x.take(i) == y.take(i));
            assert(text_before(x, y));
        }
        assert(a.len() == x.len() && b.len() == y.len());
        if i < x.len() && i < y.len() {
            assert(a[i] == x[i] as u32 as int);
            assert(b[i] == y[i] as u32 as int);
            lemma_codes_differ(x[i], y[i]);
        }
        if x == y {
            assert(i == x.len());
        }
    }
}

pub proof fn lemma_text_compare(m: Unit, x: Seq<char>, y: Seq<char>)
    ensures
        super::scalar::compare(m, ValueView::Text(x), ValueView::Text(y)) == Some(
            if x == y {
                crate::value::Order::Equal
            } else if text_before(x, y) {
                crate::value::Order::Less
            } else {
                crate::value::Order::Greater
            },
        ),
        x != y && !text_before(x, y) ==> text_before(y, x),
        text_before(x, y) ==> x != y && !text_before(y, x),
{
    assert(x.take(0) =~= y.take(0));
    lemma_text_order(x, y, 0);
    lemma_text_order(y, x, 0);
    super::sort::lemma_sort_flip(
        m,
        ValueView::Text(x),
        ValueView::Text(y),
        super::sort::Direction { ascending: true, nulls_first: None },
    );
}

/// Texts compare in the order of a dictionary.
pub proof fn law_compare_texts(env: Env, o: Seq<ScopeView>, n: NamesView, row: Seq<ValueView>, a: ExprView, b: ExprView, x: Seq<char>, y: Seq<char>)
    requires
        eval(env, o, n, row, a) == ValueView::Text(x),
        eval(env, o, n, row, b) == ValueView::Text(y),
    ensures
        eval(env, o, n, row, op_of(a, BinOp::Eq, b)) == ValueView::Bool(x == y),
        eval(env, o, n, row, op_of(a, BinOp::Neq, b)) == ValueView::Bool(x != y),
        eval(env, o, n, row, op_of(a, BinOp::Lt, b)) == ValueView::Bool(text_before(x, y)),
        eval(env, o, n, row, op_of(a, BinOp::Gte, b)) == ValueView::Bool(!text_before(x, y)),
        eval(env, o, n, row, op_of(a, BinOp::Gt, b)) == ValueView::Bool(x != y && !text_before(x, y)),
        eval(env, o, n, row, op_of(a, BinOp::Lte, b)) == ValueView::Bool(x == y || text_before(x, y)),
{
    assert(x.take(0) =~= y.take(0));
    lemma_text_order(x, y, 0);
}

pub open spec fn is_comparison(op: BinOp) -> bool {
    op == BinOp::Eq || op == BinOp::Neq || op == BinOp::Lt || op == BinOp::Gt || op == BinOp::Lte || op == BinOp::Gte
}

/// An operator with a null on one side gives null, and a condition on it is not met.
pub proof fn law_null_operand(env: Env, o: Seq<ScopeView>, n: NamesView, row: Seq<ValueView>, a: ExprView, op: BinOp, b: ExprView)
    requires
        eval(env, o, n, row, a) is Null || eval(env, o, n, row, b) is Null,
    ensures
        eval(env, o, n, row, op_of(a, op, b)) is Null,
        op != BinOp::And && op != BinOp::Or ==> !predicate(env, o, n, row, op_of(a, op, b)),
{
}

/// A value as an integer, or as a float where it is too large for one.
pub open spec fn number_of(m: Unit, n: int) -> ValueView {
    if i64::MIN <= n <= i64::MAX {
        ValueView::Int64(n as i64)
    } else {
        ValueView::Float64(float_of(m, n as i128))
    }
}

/// Integers are added, subtracted and multiplied exactly.
pub proof fn law_integer_arithmetic(env: Env, o: Seq<ScopeView>, n: NamesView, row: Seq<ValueView>, a: ExprView, b: ExprView, x: i64, y: i64)
    requires
        eval(env, o, n, row, a) == ValueView::Int64(x),
        eval(env, o, n, row, b) == ValueView::Int64(y),
    ensures
        eval(env, o, n, row, op_of(a, BinOp::Plus, b)) == number_of(env.m, x + y),
        eval(env, o, n, row, op_of(a, BinOp::Minus, b)) == number_of(env.m, x - y),
        eval(env, o, n, row, op_of(a, BinOp::Mul, b)) == number_of(env.m, x * y),
        eval(env, o, n, row, ExprView::UnaryOp { op: UnaryOp::Neg, expr: Box::new(a) }) == number_of(env.m, -x),
{
}

proof fn lemma_division(x: int, y: int)
    requires
        y != 0,
    ensures
        ({
            let q = super::scalar::quotient(x, y);
            let r = super::scalar::remainder(x, y);
            &&& x == y * q + r
            &&& -super::scalar::abs_int(y) < r < super::scalar::abs_int(y)
            &&& x >= 0 ==> r >= 0
            &&& x <= 0 ==> r <= 0
        }),
{
    let a = super::scalar::abs_int(x);
    let b = super::scalar::abs_int(y);
    vstd::arithmetic::div_mod::lemma_fundamental_div_mod(a, b);
    vstd::arithmetic::div_mod::lemma_mod_bound(a, b);
    let d = a / b;
    assert(b * d == y * d || b * d == -(y * d)) by (nonlinear_arith)
        requires
            b == y || b == -y,
    ;
    assert(y * (-d) == -(y * d)) by (nonlinear_arith);
    assert(b == y ==> b * d == y * d);
    assert(b == -y ==> b * d == -(y * d)) by {
        if b == -y {
            assert((-y) * d == -(y * d)) by (nonlinear_arith);
        }
    }
}

/// Division of integers cuts off toward zero, and the remainder is what is left: smaller than the
/// divisor, and of the sign of the dividend. By zero both are null.
pub proof fn law_integer_division(
    env: Env,
    o: Seq<ScopeView>,
    n: NamesView,
    row: Seq<ValueView>,
    a: ExprView,
    b: ExprView,
    x: i64,
    y: i64,
)
    requires
        eval(env, o, n, row, a) == ValueView::Int64(x),
        eval(env, o, n, row, b) == ValueView::Int64(y),
    ensures
        ({
            let q = eval(env, o, n, row, op_of(a, BinOp::Div, b));
            let r = eval(env, o, n, row, op_of(a, BinOp::Mod, b));
            if y == 0 {
                q is Null && r is Null
            } else {
                &&& r is Int64
                &&& -super::scalar::abs_int(y as int) < r->Int64_0 < super::scalar::abs_int(y as int)
                &&& x >= 0 ==> r->Int64_0 >= 0
                &&& x <= 0 ==> r->Int64_0 <= 0
                &&& exists|d: int| x == #[trigger] (y * d) + r->Int64_0 && q == number_of(env.m, d)
            }
        }),
{
    if y != 0 {
        let d = super::scalar::quotient(x as int, y as int);
        lemma_division(x as int, y as int);
        assert(x == y * d + super::scalar::remainder(x as int, y as int));
    }
}

/// Floats are handled by the unit, and an integer beside a float as the float that it is.
pub proof fn law_float_arithmetic(env: Env, o: Seq<ScopeView>, n: NamesView, row: Seq<ValueView>, a: ExprView, b: ExprView, x: u64, y: u64)
    requires
        ({
            let u = eval(env, o, n, row, a);
            let v = eval(env, o, n, row, b);
            ||| u == ValueView::Float64(x) && v == ValueView::Float64(y)
            ||| u == ValueView::Float64(x) && v is Int64 && y == float_of(env.m, v->Int64_0 as i128)
            ||| u is Int64 && v == ValueView::Float64(y) && x == float_of(env.m, u->Int64_0 as i128)
        }),
    ensures
        eval(env, o, n, row, op_of(a, BinOp::Plus, b)) == ValueView::Float64(float_op(env.m, FloatOp::Plus, x, y)),
        eval(env, o, n, row, op_of(a, BinOp::Minus, b)) == ValueView::Float64(float_op(env.m, FloatOp::Minus, x, y)),
        eval(env, o, n, row, op_of(a, BinOp::Mul, b)) == ValueView::Float64(float_op(env.m, FloatOp::Times, x, y)),
        eval(env, o, n, row, b) is Float64 && y != 0 && y != 0x8000_0000_0000_0000 ==> eval(env, o, n, row, op_of(a, BinOp::Div, b))
            == ValueView::Float64(float_op(env.m, FloatOp::Over, x, y)),
        eval(env, o, n, row, b) is Float64 && (y == 0 || y == 0x8000_0000_0000_0000) ==> eval(
            env,
            o,
            n,
            row,
            op_of(a, BinOp::Div, b),
        ) is Null,
{
}

/// `+` of two texts is the one followed by the other.
pub proof fn law_text_plus(env: Env, o: Seq<ScopeView>, n: NamesView, row: Seq<ValueView>, a: ExprView, b: ExprView, x: Seq<char>, y: Seq<char>)
    requires
        eval(env, o, n, row, a) == ValueView::Text(x),
        eval(env, o, n, row, b) == ValueView::Text(y),
    ensures
        eval(env, o, n, row, op_of(a, BinOp::Plus, b)) == ValueView::Text(x + y),
{
}

/// A timestamp moves by an interval, forward and back, and an interval moved onto a timestamp is the
/// same as that.
pub proof fn law_timestamp_moves(env: Env, o: Seq<ScopeView>, n: NamesView, row: Seq<ValueView>, a: ExprView, b: ExprView, x: i64, y: i64)
    requires
        eval(env, o, n, row, a) == ValueView::Timestamp(x),
        eval(env, o, n, row, b) == ValueView::Interval(y),
    ensures
        eval(env, o, n, row, op_of(b, BinOp::Plus, a)) == eval(env, o, n, row, op_of(a, BinOp::Plus, b)),
        eval(env, o, n, row, op_of(a, BinOp::Plus, b)) == (if i64::MIN <= x + y <= i64::MAX {
            ValueView::Timestamp((x + y) as i64)
        } else {
            ValueView::Null
        }),
        eval(env, o, n, row, op_of(a, BinOp::Minus, b)) == (if i64::MIN <= x - y <= i64::MAX {
            ValueView::Timestamp((x - y) as i64)
        } else {
            ValueView::Null
        }),
        i64::MIN <= x + y <= i64::MAX ==> eval(env, o, n, row, op_of(op_of(a, BinOp::Plus, b), BinOp::Minus, b)) == ValueView::Timestamp(x),
{
    reveal_with_fuel(eval, 3);
}

/// Intervals are added and subtracted, multiplied by an integer and divided by one.
pub proof fn law_interval_arithmetic(env: Env, o: Seq<ScopeView>, n: NamesView, row: Seq<ValueView>, a: ExprView, b: ExprView, c: ExprView, x: i64, y: i64, k: i64)
    requires
        eval(env, o, n, row, a) == ValueView::Interval(x),
        eval(env, o, n, row, b) == ValueView::Interval(y),
        eval(env, o, n, row, c) == ValueView::Int64(k),
    ensures
        i64::MIN <= x + y <= i64::MAX ==> eval(env, o, n, row, op_of(a, BinOp::Plus, b)) == ValueView::Interval((x + y) as i64),
        i64::MIN <= x - y <= i64::MAX ==> eval(env, o, n, row, op_of(a, BinOp::Minus, b)) == ValueView::Interval((x - y) as i64),
        i64::MIN <= x * k <= i64::MAX ==> eval(env, o, n, row, op_of(a, BinOp::Mul, c)) == ValueView::Interval((x * k) as i64),
        i64::MIN <= k * x <= i64::MAX ==> eval(env, o, n, row, op_of(c, BinOp::Mul, a)) == ValueView::Interval((k * x) as i64),
        k == 0 ==> eval(env, o, n, row, op_of(a, BinOp::Div, c)) is Null,
        x >= 0 && k > 0 ==> eval(env, o, n, row, op_of(a, BinOp::Div, c)) == ValueView::Interval((x as int / k as int) as i64),
{
    if x >= 0 && k > 0 {
        assert(0 <= x as int / k as int <= x) by (nonlinear_arith)
            requires
                x >= 0,
                k > 0,
        ;
    }
}

/// AND, OR and NOT of truth values.
pub proof fn law_truth(env: Env, o: Seq<ScopeView>, n: NamesView, row: Seq<ValueView>, a: ExprView, b: ExprView, x: bool, y: bool)
    requires
        eval(env, o, n, row, a) == ValueView::Bool(x),
        eval(env, o, n, row, b) == ValueView::Bool(y),
    ensures
        eval(env, o, n, row, op_of(a, BinOp::And, b)) == ValueView::Bool(x && y),
        eval(env, o, n, row, op_of(a, BinOp::Or, b)) == ValueView::Bool(x || y),
        eval(env, o, n, row, ExprView::UnaryOp { op: UnaryOp::Not, expr: Box::new(a) }) == ValueView::Bool(!x),
        eval(env, o, n, row, op_of(a, BinOp::Eq, b)) == ValueView::Bool(x == y),
{
}

/// A condition that is joined by AND is met where both of its sides are, one that is joined by OR
/// where one of them is; a comparison is met where it is true.
pub proof fn law_conditions(env: Env, o: Seq<ScopeView>, n: NamesView, row: Seq<ValueView>, a: ExprView, b: ExprView, op: BinOp)
    ensures
        predicate(env, o, n, row, op_of(a, BinOp::And, b)) <==> predicate(env, o, n, row, a) && predicate(env, o, n, row, b),
        predicate(env, o, n, row, op_of(a, BinOp::Or, b)) <==> predicate(env, o, n, row, a) || predicate(env, o, n, row, b),
        is_comparison(op) ==> (predicate(env, o, n, row, op_of(a, op, b)) <==> eval(env, o, n, row, op_of(a, op, b)) == ValueView::Bool(
            true,
        )),
        op == BinOp::Like || op == BinOp::Ilike ==> (predicate(env, o, n, row, op_of(a, op, b)) <==> eval(
            env,
            o,
            n,
            row,
            op_of(a, op, b),
        ) == ValueView::Bool(true)),
{
}

/// IS NULL holds of null alone, and IS NOT NULL of everything else; neither is ever null itself.
pub proof fn law_is_null(env: Env, o: Seq<ScopeView>, n: NamesView, row: Seq<ValueView>, a: ExprView)
    ensures
        predicate(env, o, n, row, ExprView::IsNull(Box::new(a))) <==> eval(env, o, n, row, a) is Null,
        predicate(env, o, n, row, ExprView::IsNotNull(Box::new(a))) <==> !(eval(env, o, n, row, a) is Null),
        eval(env, o, n, row, ExprView::IsNull(Box::new(a))) is Bool,
        eval(env, o, n, row, ExprView::IsNotNull(Box::new(a))) is Bool,
{
}

/// `x BETWEEN low AND high` is met where `x >= low` and `x <= high`.
pub proof fn law_between(env: Env, o: Seq<ScopeView>, n: NamesView, row: Seq<ValueView>, x: ExprView, low: ExprView, high: ExprView)
    ensures
        predicate(env, o, n, row, ExprView::Between { expr: Box::new(x), low: Box::new(low), high: Box::new(high) }) <==> predicate(
            env,
            o,
            n,
            row,
            op_of(op_of(x, BinOp::Gte, low), BinOp::And, op_of(x, BinOp::Lte, high)),
        ),
{
    reveal_with_fuel(eval, 2);
    reveal_with_fuel(predicate, 2);
}

pub proof fn lemma_eval_all(env: Env, o: Seq<ScopeView>, n: NamesView, row: Seq<ValueView>, es: Seq<ExprView>)
    ensures
        eval_all(env, o, n, row, es) == Seq::new(es.len(), |i: int| eval(env, o, n, row, es[i])),
    decreases es.len(),
{
    if es.len() > 0 {
        lemma_eval_all(env, o, n, row, es.drop_last());
    }
    assert(eval_all(env, o, n, row, es) =~= Seq::new(es.len(), |i: int| eval(env, o, n, row, es[i])));
}

/// `x IN (..)` is met where `x` equals one of the items. Where it equals none, it is null if `x` or
/// one of the items is, and otherwise false.
pub proof fn law_in_list(env: Env, o: Seq<ScopeView>, n: NamesView, row: Seq<ValueView>, x: ExprView, list: Seq<ExprView>)
    ensures
        ({
            let v = eval(env, o, n, row, ExprView::InList { expr: Box::new(x), list });
            let found = exists|i: int|
                0 <= i < list.len() && eval(env, o, n, row, op_of(x, BinOp::Eq, #[trigger] list[i])) == ValueView::Bool(true);
            let open = eval(env, o, n, row, x) is Null || exists|i: int| 0 <= i < list.len() && eval(env, o, n, row, #[trigger] list[i]) is Null;
            &&& v == ValueView::Bool(true) <==> found
            &&& v == ValueView::Bool(false) <==> !found && !open
            &&& v is Null <==> !found && open
        }),
{
    reveal_with_fuel(eval, 2);
    lemma_eval_all(env, o, n, row, list);
    let items = eval_all(env, o, n, row, list);
    let w = eval(env, o, n, row, x);
    assert forall|i: int| 0 <= i < list.len() implies items[i] == eval(env, o, n, row, #[trigger] list[i]) by {}
    if exists|i: int| 0 <= i < list.len() && eval(env, o, n, row, op_of(x, BinOp::Eq, #[trigger] list[i])) == ValueView::Bool(true) {
        let i = choose|i: int| 0 <= i < list.len() && eval(env, o, n, row, op_of(x, BinOp::Eq, #[trigger] list[i])) == ValueView::Bool(true);
        assert(super::scalar::equals(env.m, w, items[i]));
    }
    if exists|i: int| 0 <= i < items.len() && super::scalar::equals(env.m, w, #[trigger] items[i]) {
        let i = choose|i: int| 0 <= i < items.len() && super::scalar::equals(env.m, w, #[trigger] items[i]);
        assert(eval(env, o, n, row, op_of(x, BinOp::Eq, list[i])) == ValueView::Bool(true));
    }
    if exists|i: int| 0 <= i < list.len() && eval(env, o, n, row, #[trigger] list[i]) is Null {
        let i = choose|i: int| 0 <= i < list.len() && eval(env, o, n, row, #[trigger] list[i]) is Null;
        assert(items[i] is Null);
    }
    if exists|i: int| 0 <= i < items.len() && #[trigger] items[i] is Null {
        let i = choose|i: int| 0 <= i < items.len() && #[trigger] items[i] is Null;
        assert(eval(env, o, n, row, list[i]) is Null);
    }
}

/// EXISTS is met where the query gives a row; a query as a value is the first value of its only row,
/// and null where it has no row or more than one.
pub proof fn law_subqueries(env: Env, o: Seq<ScopeView>, n: NamesView, row: Seq<ValueView>, q: crate::parser::ast::SelectStmtView)
    ensures
        ({
            let out = (env.sub)(q, env.db, o.push(ScopeView { names: n, row }));
            let v = eval(env, o, n, row, ExprView::Subquery(Box::new(q)));
            &&& predicate(env, o, n, row, ExprView::Exists(Box::new(q))) <==> out is Ok && out->Ok_0.rows.len() > 0
            &&& out is Ok && out->Ok_0.rows.len() == 1 && out->Ok_0.rows[0].len() > 0 ==> v == out->Ok_0.rows[0][0]
            &&& out is Ok && out->Ok_0.rows.len() != 1 ==> v is Null
            &&& out is Err ==> v is Null
        }),
{
}

/// `x IN (query)` is met where `x` equals the first value of one of the query's rows.
pub proof fn law_in_subquery(env: Env, o: Seq<ScopeView>, n: NamesView, row: Seq<ValueView>, x: ExprView, q: crate::parser::ast::SelectStmtView)
    ensures
        ({
            let out = (env.sub)(q, env.db, o.push(ScopeView { names: n, row }));
            let v = eval(env, o, n, row, x);
            predicate(env, o, n, row, ExprView::InSubquery { expr: Box::new(x), subquery: Box::new(q) }) <==> out is Ok && exists|i: int|
                0 <= i < out->Ok_0.rows.len() && (#[trigger] out->Ok_0.rows[i]).len() > 0 && super::scalar::equals(
                    env.m,
                    v,
                    out->Ok_0.rows[i][0],
                )
        }),
{
}

/// A constant is what it says, and a column the value at its place in the row.
pub proof fn law_constants_and_columns(env: Env, o: Seq<ScopeView>, n: NamesView, row: Seq<ValueView>, k: i64, s: Seq<char>, b: bool, i: int)
    requires
        0 <= i < n.columns.len() == row.len(),
        n.columns.no_duplicates(),
    ensures
        eval(env, o, n, row, ExprView::Literal(LiteralValueView::Integer(k))) == ValueView::Int64(k),
        eval(env, o, n, row, ExprView::Literal(LiteralValueView::String(s))) == ValueView::Text(s),
        eval(env, o, n, row, ExprView::Literal(LiteralValueView::Bool(b))) == ValueView::Bool(b),
        eval(env, o, n, row, ExprView::Literal(LiteralValueView::Null)) is Null,
        eval(env, o, n, row, ExprView::Column(n.columns[i])) == row[i],
{
    lemma_index_of(n.columns, i);
}

pub proof fn lemma_index_of(names: Seq<Seq<char>>, i: int)
    requires
        0 <= i < names.len(),
        names.no_duplicates(),
    ensures
        super::scope::index_of(names, names[i]) == Some(i),
    decreases names.len(),
{
    let d = names.drop_last();
    assert(d.no_duplicates());
    if i < d.len() {
        assert(d[i] == names[i]);
        lemma_index_of(d, i);
    } else {
        assert(forall|j: int| 0 <= j < d.len() ==> #[trigger] d[j] != names[i]);
        lemma_index_absent(d, names[i]);
    }
}

pub proof fn lemma_index_absent(names: Seq<Seq<char>>, x: Seq<char>)
    requires
        forall|j: int| 0 <= j < names.len() ==> #[trigger] names[j] != x,
    ensures
        super::scope::index_of(names, x) is None,
    decreases names.len(),
{
    if names.len() > 0 {
        let d = names.drop_last();
        assert forall|j: int| 0 <= j < d.len() implies #[trigger] d[j] != x by {
            assert(d[j] == names[j]);
        }
        assert(names[names.len() - 1] != x);
        lemma_index_absent(d, x);
    }
}

} // verus!
