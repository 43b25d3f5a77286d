use vstd::prelude::*;
use vstd::string::*;
use crate::parser::ast::{BinOp, Expr, ExprView, LiteralValue, LiteralValueView, SelectStmt};
use crate::parser::ast::{exprs_view, when_clauses_view};
use crate::parser::ast::{exprs_at, exprs_len, when_clauses_at, when_clauses_len};
use crate::text::{copy_vec, join3, text_is};
use crate::value::{Value, ValueView, values_push, values_view};
use super::functions::{call, call_function, extract_from_timestamp, extracted};
use super::relation::Relation;
use super::scalar::{binary_of, binary_value, cast, cast_value, compared, compared_value, equals, float_neg, interval_of, is_equal, neg_bits, parse_interval, unary_of, unary_value};
use crate::planner::optimizer::{TableRows, counts_view};
use super::constraints::Run;
use super::scope::{Env, Known, Names, NamesView, Outcome, Scope, ScopeView, Source, deepen, find_index, get_value, index_of, resolve, resolved, scopes_view, sources_view, value_at};
use super::select::{env_at, lemma_sub, run_query};
use super::strings::{text_lower, text_upper};
use super::unit::{Ask, Reply, Unit, ask_parse_float, float_of_text, is_unit, model};

verus! {

/// The value of a constant.
pub open spec fn literal_value(m: Unit, l: LiteralValueView) -> ValueView {
    match l {
        LiteralValueView::Integer(n) => ValueView::Int64(n),
        LiteralValueView::Float { negative, digits } => match float_of_text(m, digits) {
            Some(b) => ValueView::Float64(if negative {
                float_neg(b)
            } else {
                b
            }),
            None => ValueView::Null,
        },
        LiteralValueView::String(s) => ValueView::Text(s),
        LiteralValueView::Bool(b) => ValueView::Bool(b),
        LiteralValueView::Null => ValueView::Null,
        LiteralValueView::HexBlob(b) => ValueView::Bytes(b),
    }
}

pub fn eval_literal<U: Fn(Ask) -> Reply>(u: &U, l: &LiteralValue) -> (r: Value)
    requires
        is_unit(u),
    ensures
        r@ == literal_value(model(u), l@),
{
    match l {
        LiteralValue::Integer(n) => Value::Int64(*n),
        LiteralValue::Float { negative, digits } => match ask_parse_float(u, digits.as_str()) {
            Some(b) => Value::Float64(if *negative {
                neg_bits(b)
            } else {
                b
            }),
            None => Value::Null,
        },
        LiteralValue::String(s) => Value::Text(s.clone()),
        LiteralValue::Bool(b) => Value::Bool(*b),
        LiteralValue::Null => Value::Null,
        LiteralValue::HexBlob(b) => Value::Bytes(copy_vec(b)),
    }
}

/// What a function call is asked for: the column that is its first argument, or `*`.
pub open spec fn arg_name(args: Seq<ExprView>) -> Seq<char> {
    if args.len() == 0 {
        "*"@
    } else {
        match args[0] {
            ExprView::Column(c) => c,
            _ => "*"@,
        }
    }
}

/// The name of the column that holds the result of an aggregate.
pub open spec fn call_name(name: Seq<char>, args: Seq<ExprView>) -> Seq<char> {
    text_lower(name) + "("@ + arg_name(args) + ")"@
}

pub fn show_call(name: &str, args: &Vec<Expr>) -> (r: String)
    ensures
        r@ == call_name(name@, exprs_view(args@)),
{
    proof {
        broadcast use {exprs_at, exprs_len};

    }
    let low = name.to_lowercase();
    let head = join3(low.as_str(), "(", "");
    let r = if args.len() == 0 {
        join3(head.as_str(), "*", ")")
    } else {
        proof {
            args@[0].unfold();
        }
        match &args[0] {
            Expr::Column(c) => join3(head.as_str(), c.as_str(), ")"),
            _ => join3(head.as_str(), "*", ")"),
        }
    };
    proof {
        reveal_strlit("");
        assert(head@ =~= text_lower(name@) + "("@);
        assert(r@ =~= call_name(name@, exprs_view(args@)));
    }
    r
}

/// Whether a call of `f`, in upper case, may stand for a column that holds its result.
pub open spec fn is_summary(f: Seq<char>) -> bool {
    f == "COUNT"@ || f == "SUM"@ || f == "AVG"@ || f == "MIN"@ || f == "MAX"@
}

fn names_summary(f: &str) -> (r: bool)
    ensures
        r == is_summary(f@),
{
    text_is(f, "COUNT") || text_is(f, "SUM") || text_is(f, "AVG") || text_is(f, "MIN") || text_is(f, "MAX")
}

/// The scalar that a query stands for: the first value of its only row.
pub open spec fn sub_value(r: Outcome) -> ValueView {
    match r {
        Ok(rel) => if rel.rows.len() == 1 && rel.rows[0].len() > 0 {
            rel.rows[0][0]
        } else {
            ValueView::Null
        },
        Err(_) => ValueView::Null,
    }
}

/// Whether a query has rows.
pub open spec fn sub_exists(r: Outcome) -> bool {
    match r {
        Ok(rel) => rel.rows.len() > 0,
        Err(_) => false,
    }
}

/// Whether the first value of one of the rows equals `v`.
pub open spec fn among_rows(m: Unit, v: ValueView, rows: Seq<Seq<ValueView>>) -> bool {
    exists|i: int| 0 <= i < rows.len() && (#[trigger] rows[i]).len() > 0 && equals(m, v, rows[i][0])
}

pub open spec fn sub_contains(m: Unit, v: ValueView, r: Outcome) -> bool {
    match r {
        Ok(rel) => among_rows(m, v, rel.rows),
        Err(_) => false,
    }
}

/// `v IN (..)`: null where `v` is null, or where nothing equals it and an item is null.
pub open spec fn in_values(m: Unit, v: ValueView, items: Seq<ValueView>) -> ValueView {
    if v is Null {
        ValueView::Null
    } else if exists|i: int| 0 <= i < items.len() && equals(m, v, #[trigger] items[i]) {
        ValueView::Bool(true)
    } else if exists|i: int| 0 <= i < items.len() && #[trigger] items[i] is Null {
        ValueView::Null
    } else {
        ValueView::Bool(false)
    }
}

/// `v BETWEEN low AND high`: not where one of the three is null.
pub open spec fn between(m: Unit, v: ValueView, low: ValueView, high: ValueView) -> ValueView {
    ValueView::Bool(truthy(compared(m, BinOp::Gte, v, low)) && truthy(compared(m, BinOp::Lte, v, high)))
}

/// The value of the expression `e` in a row.
pub open spec fn eval(env: Env, o: Seq<ScopeView>, n: NamesView, row: Seq<ValueView>, e: ExprView) -> ValueView
    decreases e,
{
    match e {
        ExprView::Column(c) => value_at(row, index_of(n.columns, c)),
        ExprView::QualifiedColumn(t, c) => resolved(o, n, row, t, c),
        ExprView::Literal(l) => literal_value(env.m, l),
        ExprView::Interval(s) => ValueView::Interval(match interval_of(s) {
            Some(i) => i,
            None => 0,
        }),
        ExprView::BinaryOp { left, op, right } => binary_of(
            env.m,
            op,
            eval(env, o, n, row, *left),
            eval(env, o, n, row, *right),
        ),
        ExprView::UnaryOp { op, expr } => unary_of(env.m, op, eval(env, o, n, row, *expr)),
        ExprView::Function { name, args } => {
            let f = text_upper(name);
            if is_summary(f) && index_of(n.columns, call_name(name, args)) is Some {
                value_at(row, index_of(n.columns, call_name(name, args)))
            } else if f == "EXTRACT"@ {
                extract_value(env, o, n, row, args)
            } else {
                call(env.m, env.known.now, f, eval_all(env, o, n, row, args))
            }
        },
        ExprView::Case { operand, when_clauses, else_result } => {
            let v = match operand {
                Some(x) => Some(eval(env, o, n, row, *x)),
                None => None,
            };
            match case_value(env, o, n, row, v, when_clauses) {
                Some(r) => r,
                None => match else_result {
                    Some(x) => eval(env, o, n, row, *x),
                    None => ValueView::Null,
                },
            }
        },
        ExprView::Cast { expr, data_type } => cast(env.m, eval(env, o, n, row, *expr), data_type),
        ExprView::IsNull(x) => ValueView::Bool(eval(env, o, n, row, *x) is Null),
        ExprView::IsNotNull(x) => ValueView::Bool(!(eval(env, o, n, row, *x) is Null)),
        ExprView::InList { expr, list } => in_values(
            env.m,
            eval(env, o, n, row, *expr),
            eval_all(env, o, n, row, list),
        ),
        ExprView::Between { expr, low, high } => between(
            env.m,
            eval(env, o, n, row, *expr),
            eval(env, o, n, row, *low),
            eval(env, o, n, row, *high),
        ),
        ExprView::Subquery(q) => sub_value((env.sub)(*q, env.db, o.push(ScopeView { names: n, row }))),
        ExprView::Exists(q) => ValueView::Bool(
            sub_exists((env.sub)(*q, env.db, o.push(ScopeView { names: n, row }))),
        ),
        ExprView::InSubquery { expr, subquery } => ValueView::Bool(
            sub_contains(
                env.m,
                eval(env, o, n, row, *expr),
                (env.sub)(*subquery, env.db, o.push(ScopeView { names: n, row })),
            ),
        ),
        ExprView::JsonPath { .. } => ValueView::Null,
        ExprView::WindowFunction { .. } => ValueView::Null,
        ExprView::Default => ValueView::Null,
    }
}

/// The value of EXTRACT: its first argument names the field.
pub open spec fn extract_value(env: Env, o: Seq<ScopeView>, n: NamesView, row: Seq<ValueView>, args: Seq<ExprView>) -> ValueView
    decreases args,
{
    if args.len() == 2 {
        match args[0] {
            ExprView::Column(c) => extracted(text_upper(c), eval(env, o, n, row, args[1])),
            _ => ValueView::Null,
        }
    } else {
        ValueView::Null
    }
}

/// The values of the expressions `es` in a row.
pub open spec fn eval_all(env: Env, o: Seq<ScopeView>, n: NamesView, row: Seq<ValueView>, es: Seq<ExprView>) -> Seq<ValueView>
    decreases es,
{
    if es.len() == 0 {
        Seq::empty()
    } else {
        eval_all(env, o, n, row, es.drop_last()).push(eval(env, o, n, row, es.last()))
    }
}

/// The result of the first WHEN clause that holds: one that equals the operand, or without an
/// operand one that is true.
pub open spec fn case_value(
    env: Env,
    o: Seq<ScopeView>,
    n: NamesView,
    row: Seq<ValueView>,
    v: Option<ValueView>,
    w: Seq<(ExprView, ExprView)>,
) -> Option<ValueView>
    decreases w,
{
    if w.len() == 0 {
        None
    } else {
        match case_value(env, o, n, row, v, w.drop_last()) {
            Some(r) => Some(r),
            None => {
                let x = eval(env, o, n, row, w.last().0);
                if (match v {
                    Some(v) => equals(env.m, v, x),
                    None => x == ValueView::Bool(true),
                }) {
                    Some(eval(env, o, n, row, w.last().1))
                } else {
                    None
                }
            },
        }
    }
}

/// Whether a value counts as true: anything but false and null.
pub open spec fn truthy(v: ValueView) -> bool {
    match v {
        ValueView::Bool(b) => b,
        ValueView::Null => false,
        _ => true,
    }
}

pub fn is_truthy(v: &Value) -> (r: bool)
    ensures
        r == truthy(v@),
{
    match v {
        Value::Bool(b) => *b,
        Value::Null => false,
        _ => true,
    }
}

pub open spec fn is_arithmetic(op: BinOp) -> bool {
    op == BinOp::Plus || op == BinOp::Minus || op == BinOp::Mul || op == BinOp::Div || op == BinOp::Mod
}

/// Whether a row meets the condition `e`.
pub open spec fn predicate(env: Env, o: Seq<ScopeView>, n: NamesView, row: Seq<ValueView>, e: ExprView) -> bool
    decreases e,
{
    match e {
        ExprView::BinaryOp { left, op: BinOp::And, right } => predicate(env, o, n, row, *left) && predicate(
            env,
            o,
            n,
            row,
            *right,
        ),
        ExprView::BinaryOp { left, op: BinOp::Or, right } => predicate(env, o, n, row, *left) || predicate(
            env,
            o,
            n,
            row,
            *right,
        ),
        ExprView::BinaryOp { left, op, right } => !is_arithmetic(op) && truthy(eval(env, o, n, row, e)),
        _ => truthy(eval(env, o, n, row, e)),
    }
}

/// What queries and expressions run with. Queries nest at most `depth` deep.
pub struct Reader<'a, U: Fn(Ask) -> Reply> {
    pub u: &'a U,
    pub now: i64,
    pub counts: &'a Vec<TableRows>,
    pub db: &'a Vec<Source>,
    pub depth: usize,
}

impl<'a, U: Fn(Ask) -> Reply> Reader<'a, U> {
    pub open spec fn env(&self) -> Env {
        env_at(model(self.u), self.known(), sources_view(self.db@), self.depth as nat)
    }

    pub open spec fn known(&self) -> Known {
        Known { now: self.now, counts: counts_view(self.counts@) }
    }

    pub open spec fn run(&self) -> Run {
        Run { m: model(self.u), known: self.known(), depth: self.depth as nat }
    }

    pub open spec fn ready(&self) -> bool {
        is_unit(self.u)
    }
}

/// The outcome of a query, seen from contracts.
pub open spec fn outcome_view(r: crate::error::Result<Relation>) -> Outcome {
    match r {
        Ok(rel) => Ok(rel@),
        Err(e) => Err(e@),
    }
}

/// Runs a query inside a row.
fn run_sub<'a, U: Fn(Ask) -> Reply>(
    cx: &Reader<'a, U>,
    o: &Vec<Scope>,
    n: &Names,
    row: &Vec<Value>,
    q: &SelectStmt,
) -> (r: crate::error::Result<Relation>)
    requires
        cx.ready(),
    ensures
        outcome_view(r) == (cx.env().sub)(
            q@,
            cx.env().db,
            scopes_view(o@).push(ScopeView { names: n@, row: values_view(row@) }),
        ),
    decreases cx.depth, 0int, n,
{
    let inner = deepen(o, n, row);
    proof {
        lemma_sub(model(cx.u), cx.known(), sources_view(cx.db@), cx.depth as nat, q@, sources_view(cx.db@), scopes_view(inner@));
    }
    if cx.depth == 0 {
        return Err(crate::error::QueryError::Execution("queries nested too deep".to_string()));
    }
    let below = Reader { u: cx.u, now: cx.now, counts: cx.counts, db: cx.db, depth: cx.depth - 1 };
    run_query(&below, &inner, q)
}

fn value_of_sub(r: crate::error::Result<Relation>) -> (v: Value)
    ensures
        v@ == sub_value(outcome_view(r)),
{
    match r {
        Ok(rel) => if rel.rows.len() == 1 && rel.rows[0].len() > 0 {
            rel.rows[0][0].dup()
        } else {
            Value::Null
        },
        Err(_) => Value::Null,
    }
}

fn rows_hold<U: Fn(Ask) -> Reply>(u: &U, v: &Value, rows: &Vec<Vec<Value>>) -> (r: bool)
    requires
        is_unit(u),
    ensures
        r == among_rows(model(u), v@, crate::value::rows_view(rows@)),
{
    let ghost all = crate::value::rows_view(rows@);
    let mut i: usize = 0;
    while i < rows.len()
        invariant
            i <= rows.len(),
            is_unit(u),
            all == crate::value::rows_view(rows@),
            forall|j: int| 0 <= j < i ==> !((#[trigger] all[j]).len() > 0 && equals(model(u), v@, all[j][0])),
        decreases rows.len() - i,
    {
        assert(all[i as int] == values_view(rows@[i as int]@));
        if rows[i].len() > 0 && is_equal(u, v, &rows[i][0]) {
            assert(all[i as int].len() > 0 && equals(model(u), v@, all[i as int][0]));
            return true;
        }
        i = i + 1;
    }
    false
}

fn sub_holds<U: Fn(Ask) -> Reply>(u: &U, v: &Value, r: crate::error::Result<Relation>) -> (b: bool)
    requires
        is_unit(u),
    ensures
        b == sub_contains(model(u), v@, outcome_view(r)),
{
    match r {
        Ok(rel) => rows_hold(u, v, &rel.rows),
        Err(_) => false,
    }
}

fn value_in_list<U: Fn(Ask) -> Reply>(u: &U, v: &Value, items: &Vec<Value>) -> (r: Value)
    requires
        is_unit(u),
    ensures
        r@ == in_values(model(u), v@, values_view(items@)),
{
    let ghost all = values_view(items@);
    match v {
        Value::Null => {
            return Value::Null;
        },
        _ => {},
    }
    let mut null = false;
    let mut i: usize = 0;
    while i < items.len()
        invariant
            i <= items.len(),
            is_unit(u),
            !(v@ is Null),
            all == values_view(items@),
            forall|j: int| 0 <= j < i ==> !equals(model(u), v@, #[trigger] all[j]),
            null <==> exists|j: int| 0 <= j < i && #[trigger] all[j] is Null,
        decreases items.len() - i,
    {
        assert(all[i as int] == items@[i as int]@);
        if is_equal(u, v, &items[i]) {
            return Value::Bool(true);
        }
        match &items[i] {
            Value::Null => {
                null = true;
            },
            _ => {},
        }
        i = i + 1;
    }
    if null {
        Value::Null
    } else {
        Value::Bool(false)
    }
}

/// The value of an expression in a row.
pub fn eval_value<'a, U: Fn(Ask) -> Reply>(
    cx: &Reader<'a, U>,
    o: &Vec<Scope>,
    n: &Names,
    row: &Vec<Value>,
    e: &Expr,
) -> (r: Value)
    requires
        cx.ready(),
    ensures
        r@ == eval(cx.env(), scopes_view(o@), n@, values_view(row@), e@),
    decreases cx.depth, 1int, e,
{
    proof {
        (*e).unfold();
    }
    match e {
        Expr::Column(c) => get_value(row, find_index(&n.columns, c.as_str())),
        Expr::QualifiedColumn(t, c) => resolve(o, n, row, t.as_str(), c.as_str()),
        Expr::Literal(l) => eval_literal(cx.u, l),
        Expr::Interval(s) => match parse_interval(s.as_str()) {
            Some(i) => Value::Interval(i),
            None => Value::Interval(0),
        },
        Expr::BinaryOp { left, op, right } => {
            let a = eval_value(cx, o, n, row, left);
            let b = eval_value(cx, o, n, row, right);
            binary_value(cx.u, *op, &a, &b)
        },
        Expr::UnaryOp { op, expr } => {
            let a = eval_value(cx, o, n, row, expr);
            unary_value(cx.u, *op, &a)
        },
        Expr::Function { name, args } => {
            let f = name.to_uppercase();
            match summary_value(n, row, name.as_str(), f.as_str(), args) {
                Some(v) => v,
                None => if text_is(f.as_str(), "EXTRACT") {
                    eval_extract(cx, o, n, row, args)
                } else {
                    let values = eval_values(cx, o, n, row, args);
                    call_function(cx.u, cx.now, f.as_str(), &values)
                },
            }
        },
        Expr::Case { operand, when_clauses, else_result } => {
            let v = match operand {
                Some(x) => Some(eval_value(cx, o, n, row, x)),
                None => None,
            };
            match eval_case(cx, o, n, row, &v, when_clauses) {
                Some(r) => r,
                None => match else_result {
                    Some(x) => eval_value(cx, o, n, row, x),
                    None => Value::Null,
                },
            }
        },
        Expr::Cast { expr, data_type } => {
            let a = eval_value(cx, o, n, row, expr);
            cast_value(cx.u, &a, *data_type)
        },
        Expr::IsNull(x) => match eval_value(cx, o, n, row, x) {
            Value::Null => Value::Bool(true),
            _ => Value::Bool(false),
        },
        Expr::IsNotNull(x) => match eval_value(cx, o, n, row, x) {
            Value::Null => Value::Bool(false),
            _ => Value::Bool(true),
        },
        Expr::InList { expr, list } => {
            let v = eval_value(cx, o, n, row, expr);
            let items = eval_values(cx, o, n, row, list);
            value_in_list(cx.u, &v, &items)
        },
        Expr::Between { expr, low, high } => {
            let v = eval_value(cx, o, n, row, expr);
            let a = eval_value(cx, o, n, row, low);
            let b = eval_value(cx, o, n, row, high);
            let x = compared_value(cx.u, BinOp::Gte, &v, &a);
            let y = compared_value(cx.u, BinOp::Lte, &v, &b);
            Value::Bool(matches!(x, Value::Bool(true)) && matches!(y, Value::Bool(true)))
        },
        Expr::Subquery(q) => value_of_sub(run_sub(cx, o, n, row, q)),
        Expr::Exists(q) => match run_sub(cx, o, n, row, q) {
            Ok(rel) => Value::Bool(rel.rows.len() > 0),
            Err(_) => Value::Bool(false),
        },
        Expr::InSubquery { expr, subquery } => {
            let v = eval_value(cx, o, n, row, expr);
            Value::Bool(sub_holds(cx.u, &v, run_sub(cx, o, n, row, subquery)))
        },
        Expr::JsonPath { path } => Value::Null,
        Expr::WindowFunction { name, args, partition_by, order_by } => Value::Null,
        Expr::Default => Value::Null,
    }
}

/// The value of EXTRACT in a row.
fn eval_extract<'a, U: Fn(Ask) -> Reply>(
    cx: &Reader<'a, U>,
    o: &Vec<Scope>,
    n: &Names,
    row: &Vec<Value>,
    args: &Vec<Expr>,
) -> (r: Value)
    requires
        cx.ready(),
    ensures
        r@ == extract_value(cx.env(), scopes_view(o@), n@, values_view(row@), exprs_view(args@)),
    decreases cx.depth, 1int, args,
{
    proof {
        broadcast use {exprs_at, exprs_len};

    }
    if args.len() == 2 {
        proof {
            args@[0].unfold();
            assert(exprs_view(args@)[0] == args@[0]@);
            assert(exprs_view(args@)[1] == args@[1]@);
        }
        match &args[0] {
            Expr::Column(c) => {
                let v = eval_value(cx, o, n, row, &args[1]);
                let field = c.to_uppercase();
                extract_from_timestamp(field.as_str(), &v)
            },
            _ => Value::Null,
        }
    } else {
        Value::Null
    }
}

/// The column that holds the result of a call already, if there is one.
fn summary_value(n: &Names, row: &Vec<Value>, name: &str, f: &str, args: &Vec<Expr>) -> (r: Option<Value>)
    requires
        f@ == text_upper(name@),
    ensures
        opt_value(r) == (if is_summary(text_upper(name@)) && index_of(n@.columns, call_name(name@, exprs_view(args@))) is Some {
            Some(value_at(values_view(row@), index_of(n@.columns, call_name(name@, exprs_view(args@)))))
        } else {
            None
        }),
{
    if names_summary(f) {
        let label = show_call(name, args);
        match find_index(&n.columns, label.as_str()) {
            Some(i) => Some(get_value(row, Some(i))),
            None => None,
        }
    } else {
        None
    }
}

/// The values of expressions in a row.
pub fn eval_values<'a, U: Fn(Ask) -> Reply>(
    cx: &Reader<'a, U>,
    o: &Vec<Scope>,
    n: &Names,
    row: &Vec<Value>,
    es: &Vec<Expr>,
) -> (r: Vec<Value>)
    requires
        cx.ready(),
    ensures
        values_view(r@) == eval_all(cx.env(), scopes_view(o@), n@, values_view(row@), exprs_view(es@)),
    decreases cx.depth, 1int, es,
{
    let ghost all = exprs_view(es@);
    let mut r: Vec<Value> = Vec::new();
    let mut i: usize = 0;
    proof {
        broadcast use exprs_len;

        assert(values_view(r@) =~= Seq::empty());
        assert(all.take(0).len() == 0);
    }
    while i < es.len()
        invariant
            i <= es.len(),
            cx.ready(),
            all == exprs_view(es@),
            all.len() == es@.len(),
            values_view(r@) == eval_all(cx.env(), scopes_view(o@), n@, values_view(row@), all.take(i as int)),
        decreases es.len() - i,
    {
        let v = eval_value(cx, o, n, row, &es[i]);
        proof {
            broadcast use exprs_at;

            values_push(r@, v);
            assert(all[i as int] == es@[i as int]@);
            assert(all.take(i + 1).drop_last() =~= all.take(i as int));
            assert(all.take(i + 1).last() == es@[i as int]@);
        }
        r.push(v);
        i = i + 1;
    }
    assert(all.take(es.len() as int) =~= all);
    r
}

spec fn opt_value(v: Option<Value>) -> Option<ValueView> {
    match v {
        Some(v) => Some(v@),
        None => None,
    }
}

fn eval_case<'a, U: Fn(Ask) -> Reply>(
    cx: &Reader<'a, U>,
    o: &Vec<Scope>,
    n: &Names,
    row: &Vec<Value>,
    v: &Option<Value>,
    w: &Vec<(Expr, Expr)>,
) -> (r: Option<Value>)
    requires
        cx.ready(),
    ensures
        opt_value(r) == case_value(
            cx.env(),
            scopes_view(o@),
            n@,
            values_view(row@),
            opt_value(*v),
            when_clauses_view(w@),
        ),
    decreases cx.depth, 1int, w,
{
    let ghost all = when_clauses_view(w@);
    let mut r: Option<Value> = None;
    let mut i: usize = 0;
    proof {
        broadcast use when_clauses_len;

        assert(all.take(0).len() == 0);
    }
    while i < w.len()
        invariant
            i <= w.len(),
            cx.ready(),
            all == when_clauses_view(w@),
            all.len() == w@.len(),
            opt_value(r) == case_value(
                cx.env(),
                scopes_view(o@),
                n@,
                values_view(row@),
                opt_value(*v),
                all.take(i as int),
            ),
        decreases w.len() - i,
    {
        proof {
            broadcast use when_clauses_at;

            assert(all[i as int] == (w@[i as int].0@, w@[i as int].1@));
            assert(all.take(i + 1).drop_last() =~= all.take(i as int));
            assert(all.take(i + 1).last() == all[i as int]);
        }
        if r.is_none() {
            let x = eval_value(cx, o, n, row, &w[i].0);
            let hit = match v {
                Some(v) => is_equal(cx.u, v, &x),
                None => match x {
                    Value::Bool(true) => true,
                    _ => false,
                },
            };
            if hit {
                r = Some(eval_value(cx, o, n, row, &w[i].1));
            }
        }
        i = i + 1;
    }
    assert(all.take(w.len() as int) =~= all);
    r
}

/// Whether a row meets a condition.
pub fn eval_predicate<'a, U: Fn(Ask) -> Reply>(
    cx: &Reader<'a, U>,
    o: &Vec<Scope>,
    n: &Names,
    row: &Vec<Value>,
    e: &Expr,
) -> (r: bool)
    requires
        cx.ready(),
    ensures
        r == predicate(cx.env(), scopes_view(o@), n@, values_view(row@), e@),
    decreases cx.depth, 2int, e,
{
    proof {
        (*e).unfold();
    }
    match e {
        Expr::BinaryOp { left, op, right } => match op {
            BinOp::And => eval_predicate(cx, o, n, row, left) && eval_predicate(cx, o, n, row, right),
            BinOp::Or => eval_predicate(cx, o, n, row, left) || eval_predicate(cx, o, n, row, right),
            BinOp::Plus => false,
            BinOp::Minus => false,
            BinOp::Mul => false,
            BinOp::Div => false,
            BinOp::Mod => false,
            _ => {
                let v = eval_value(cx, o, n, row, e);
                is_truthy(&v)
            },
        },
        _ => {
            let v = eval_value(cx, o, n, row, e);
            is_truthy(&v)
        },
    }
}

} // verus!
