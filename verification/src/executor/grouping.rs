use vstd::prelude::*;
use vstd::string::*;
use crate::parser::ast::{Expr, ExprView, SelectColumn, SelectColumnView};
use crate::parser::ast::{exprs_at, exprs_len, select_columns_at, select_columns_len, when_clauses_at, when_clauses_len};
use crate::parser::ast::{exprs_view, select_columns_view, when_clauses_view};
use crate::text::text_is;
use crate::value::{Value, ValueView, names_push, names_view, rows_push, rows_view, values_push, values_view};
use super::aggregate::{aggregate, compute_aggregate, find_group_starts, find_places_of_key, group_starts, places_of_key};
use super::constraints::ints;
use super::eval::{call_name, show_call};
use super::relation::{Relation, RelationView};
use super::scope::{find_index, get_value, index_of, value_at};
use super::sort::{count_up, upto};
use super::strings::text_upper;
use super::unit::{Ask, Reply, Unit, is_unit, model};

verus! {

/// A call whose result becomes a column of its own: the function in upper case, the name of the
/// column, and the column that it is asked for.
#[derive(Debug)]
pub struct Call {
    pub f: String,
    pub label: String,
    pub column: Option<String>,
}

/// What contracts say about a `Call`.
pub struct CallView {
    pub f: Seq<char>,
    pub label: Seq<char>,
    pub column: Option<Seq<char>>,
}

impl Call {
    pub open spec fn view(&self) -> CallView {
        CallView {
            f: self.f@,
            label: self.label@,
            column: match self.column {
                Some(c) => Some(c@),
                None => None,
            },
        }
    }
}

pub open spec fn calls_view(s: Seq<Call>) -> Seq<CallView> {
    Seq::new(s.len(), |i: int| s[i]@)
}

pub open spec fn made_call(name: Seq<char>, args: Seq<ExprView>) -> CallView {
    CallView {
        f: text_upper(name),
        label: call_name(name, args),
        column: if args.len() == 0 {
            None
        } else {
            match args[0] {
                ExprView::Column(c) => Some(c),
                _ => None,
            }
        },
    }
}

pub fn make_call(name: &str, args: &Vec<Expr>) -> (r: Call)
    ensures
        r@ == made_call(name@, exprs_view(args@)),
{
    proof {
        broadcast use {exprs_at, exprs_len};

    }
    let column = if args.len() == 0 {
        None
    } else {
        proof {
            args@[0].unfold();
            assert(exprs_view(args@)[0] == args@[0]@);
        }
        match &args[0] {
            Expr::Column(c) => Some(c.clone()),
            _ => None,
        }
    };
    Call { f: name.to_uppercase(), label: show_call(name, args), column }
}

/// Whether `name` names an aggregate, in any case of its letters.
pub open spec fn names_aggregate(name: Seq<char>) -> bool {
    let f = text_upper(name);
    f == "COUNT"@ || f == "SUM"@ || f == "AVG"@ || f == "MIN"@ || f == "MAX"@ || f == "COUNT_DISTINCT"@
}

pub fn is_aggregate_name(name: &str) -> (r: bool)
    ensures
        r == names_aggregate(name@),
{
    let f = name.to_uppercase();
    let f = f.as_str();
    text_is(f, "COUNT") || text_is(f, "SUM") || text_is(f, "AVG") || text_is(f, "MIN") || text_is(f, "MAX") || text_is(
        f,
        "COUNT_DISTINCT",
    )
}

/// The calls of aggregates in an expression, from the left to the right.
pub open spec fn collected(e: ExprView) -> Seq<CallView>
    decreases e,
{
    match e {
        ExprView::Function { name, args } => if names_aggregate(name) {
            seq![made_call(name, args)]
        } else {
            collected_all(args)
        },
        ExprView::BinaryOp { left, op, right } => collected(*left) + collected(*right),
        ExprView::UnaryOp { op, expr } => collected(*expr),
        ExprView::IsNull(x) => collected(*x),
        ExprView::IsNotNull(x) => collected(*x),
        ExprView::Cast { expr, data_type } => collected(*expr),
        ExprView::InList { expr, list } => collected(*expr) + collected_all(list),
        ExprView::Between { expr, low, high } => collected(*expr) + collected(*low) + collected(*high),
        ExprView::Case { operand, when_clauses, else_result } => (match operand {
            Some(x) => collected(*x),
            None => Seq::empty(),
        }) + collected_pairs(when_clauses) + (match else_result {
            Some(x) => collected(*x),
            None => Seq::empty(),
        }),
        _ => Seq::empty(),
    }
}

pub open spec fn collected_all(es: Seq<ExprView>) -> Seq<CallView>
    decreases es,
{
    if es.len() == 0 {
        Seq::empty()
    } else {
        collected_all(es.drop_last()) + collected(es.last())
    }
}

pub open spec fn collected_pairs(w: Seq<(ExprView, ExprView)>) -> Seq<CallView>
    decreases w,
{
    if w.len() == 0 {
        Seq::empty()
    } else {
        collected_pairs(w.drop_last()) + collected(w.last().0) + collected(w.last().1)
    }
}

fn append_calls(r: &mut Vec<Call>, more: Vec<Call>)
    ensures
        calls_view(final(r)@) == calls_view(old(r)@) + calls_view(more@),
{
    let mut more = more;
    let ghost a = r@;
    let ghost b = more@;
    r.append(&mut more);
    assert(r@ =~= a + b);
    assert(calls_view(r@) =~= calls_view(a) + calls_view(b));
}

fn no_calls() -> (r: Vec<Call>)
    ensures
        calls_view(r@) == Seq::<CallView>::empty(),
{
    let r: Vec<Call> = Vec::new();
    assert(calls_view(r@) =~= Seq::<CallView>::empty());
    r
}

fn one_call(c: Call) -> (r: Vec<Call>)
    ensures
        calls_view(r@) == seq![c@],
{
    let mut r: Vec<Call> = Vec::new();
    r.push(c);
    assert(calls_view(r@) =~= seq![c@]);
    r
}

/// Collects the calls of aggregates in an expression.
pub fn collect_calls(e: &Expr) -> (r: Vec<Call>)
    ensures
        calls_view(r@) == collected(e@),
    decreases e,
{
    proof {
        (*e).unfold();
    }
    match e {
        Expr::Function { name, args } => if is_aggregate_name(name.as_str()) {
            one_call(make_call(name.as_str(), args))
        } else {
            collect_all(args)
        },
        Expr::BinaryOp { left, op, right } => {
            let mut r = collect_calls(left);
            append_calls(&mut r, collect_calls(right));
            r
        },
        Expr::UnaryOp { op, expr } => collect_calls(expr),
        Expr::IsNull(x) => collect_calls(x),
        Expr::IsNotNull(x) => collect_calls(x),
        Expr::Cast { expr, data_type } => collect_calls(expr),
        Expr::InList { expr, list } => {
            let mut r = collect_calls(expr);
            append_calls(&mut r, collect_all(list));
            r
        },
        Expr::Between { expr, low, high } => {
            let mut r = collect_calls(expr);
            append_calls(&mut r, collect_calls(low));
            append_calls(&mut r, collect_calls(high));
            r
        },
        Expr::Case { operand, when_clauses, else_result } => {
            let mut r = match operand {
                Some(x) => collect_calls(x),
                None => no_calls(),
            };
            append_calls(&mut r, collect_pairs(when_clauses));
            match else_result {
                Some(x) => append_calls(&mut r, collect_calls(x)),
                None => append_calls(&mut r, no_calls()),
            }
            r
        },
        _ => no_calls(),
    }
}

fn collect_all(es: &Vec<Expr>) -> (r: Vec<Call>)
    ensures
        calls_view(r@) == collected_all(exprs_view(es@)),
    decreases es,
{
    let ghost all = exprs_view(es@);
    let mut r = no_calls();
    let mut i: usize = 0;
    proof {
        broadcast use exprs_len;

        assert(all.take(0).len() == 0);
    }
    while i < es.len()
        invariant
            i <= es.len(),
            all == exprs_view(es@),
            all.len() == es@.len(),
            calls_view(r@) == collected_all(all.take(i as int)),
        decreases es.len() - i,
    {
        append_calls(&mut r, collect_calls(&es[i]));
        proof {
            broadcast use exprs_at;

            assert(all[i as int] == es@[i as int]@);
            assert(all.take(i + 1).drop_last() =~= all.take(i as int));
            assert(all.take(i + 1).last() == all[i as int]);
        }
        i = i + 1;
    }
    assert(all.take(es.len() as int) =~= all);
    r
}

fn collect_pairs(w: &Vec<(Expr, Expr)>) -> (r: Vec<Call>)
    ensures
        calls_view(r@) == collected_pairs(when_clauses_view(w@)),
    decreases w,
{
    let ghost all = when_clauses_view(w@);
    let mut r = no_calls();
    let mut i: usize = 0;
    proof {
        broadcast use when_clauses_len;

        assert(all.take(0).len() == 0);
    }
    while i < w.len()
        invariant
            i <= w.len(),
            all == when_clauses_view(w@),
            all.len() == w@.len(),
            calls_view(r@) == collected_pairs(all.take(i as int)),
        decreases w.len() - i,
    {
        append_calls(&mut r, collect_calls(&w[i].0));
        append_calls(&mut r, collect_calls(&w[i].1));
        proof {
            broadcast use when_clauses_at;

            assert(all[i as int] == (w@[i as int].0@, w@[i as int].1@));
            assert(all.take(i + 1).drop_last() =~= all.take(i as int));
            assert(all.take(i + 1).last() == all[i as int]);
        }
        i = i + 1;
    }
    assert(all.take(w.len() as int) =~= all);
    r
}

/// Whether an expression calls an aggregate.
pub open spec fn has_aggregate(e: ExprView) -> bool {
    collected(e).len() > 0
}

pub fn expr_has_aggregate(e: &Expr) -> (r: bool)
    ensures
        r == has_aggregate(e@),
{
    let calls = collect_calls(e);
    assert(calls_view(calls@).len() == calls@.len());
    calls.len() > 0
}

/// Whether a select list calls an aggregate.
pub open spec fn list_has_aggregate(cols: Seq<SelectColumnView>) -> bool {
    exists|i: int| 0 <= i < cols.len() && #[trigger] column_has_aggregate(cols[i])
}

pub open spec fn column_has_aggregate(c: SelectColumnView) -> bool {
    match c {
        SelectColumnView::Star => false,
        SelectColumnView::Expr(e, _) => has_aggregate(e),
    }
}

pub fn has_aggregate_functions(cols: &Vec<SelectColumn>) -> (r: bool)
    ensures
        r == list_has_aggregate(select_columns_view(cols@)),
{
    let ghost all = select_columns_view(cols@);
    proof {
        broadcast use select_columns_len;

        assert(all.len() == cols@.len());
    }
    let mut i: usize = 0;
    while i < cols.len()
        invariant
            i <= cols.len(),
            all == select_columns_view(cols@),
            all.len() == cols@.len(),
            forall|j: int| 0 <= j < i ==> !#[trigger] column_has_aggregate(all[j]),
        decreases cols.len() - i,
    {
        proof {
            broadcast use select_columns_at;

            assert(all[i as int] == cols@[i as int]@);
            cols@[i as int].unfold();
        }
        match &cols[i] {
            SelectColumn::Star => {},
            SelectColumn::Expr(e, _) => {
                if expr_has_aggregate(e) {
                    assert(column_has_aggregate(all[i as int]));
                    return true;
                }
            },
        }
        i = i + 1;
    }
    false
}

/// The calls of one item of a select list: the item itself where it is a call, and otherwise the
/// calls of aggregates in it.
pub open spec fn column_calls(c: SelectColumnView) -> Seq<CallView> {
    match c {
        SelectColumnView::Star => Seq::empty(),
        SelectColumnView::Expr(e, _) => match e {
            ExprView::Function { name, args } => seq![made_call(name, args)],
            _ => collected(e),
        },
    }
}

pub open spec fn list_calls(cols: Seq<SelectColumnView>) -> Seq<CallView>
    decreases cols.len(),
{
    if cols.len() == 0 {
        Seq::empty()
    } else {
        list_calls(cols.drop_last()) + column_calls(cols.last())
    }
}

/// The calls that a grouping query has to compute.
pub open spec fn query_calls(cols: Seq<SelectColumnView>, having: Option<ExprView>) -> Seq<CallView> {
    list_calls(cols) + (match having {
        Some(e) => collected(e),
        None => Seq::empty(),
    })
}

pub open spec fn opt_expr(e: Option<Expr>) -> Option<ExprView> {
    match e {
        Some(e) => Some(e@),
        None => None,
    }
}

pub fn collect_query_calls(cols: &Vec<SelectColumn>, having: &Option<Expr>) -> (r: Vec<Call>)
    ensures
        calls_view(r@) == query_calls(select_columns_view(cols@), opt_expr(*having)),
{
    let ghost all = select_columns_view(cols@);
    let mut r = no_calls();
    let mut i: usize = 0;
    proof {
        broadcast use select_columns_len;

        assert(all.take(0).len() == 0);
    }
    while i < cols.len()
        invariant
            i <= cols.len(),
            all == select_columns_view(cols@),
            all.len() == cols@.len(),
            calls_view(r@) == list_calls(all.take(i as int)),
        decreases cols.len() - i,
    {
        proof {
            broadcast use select_columns_at;

            assert(all[i as int] == cols@[i as int]@);
            cols@[i as int].unfold();
            assert(all.take(i + 1).drop_last() =~= all.take(i as int));
            assert(all.take(i + 1).last() == all[i as int]);
        }
        let more = match &cols[i] {
            SelectColumn::Star => no_calls(),
            SelectColumn::Expr(e, _) => {
                proof {
                    (*e).unfold();
                }
                match e {
                    Expr::Function { name, args } => one_call(make_call(name.as_str(), args)),
                    _ => collect_calls(e),
                }
            },
        };
        append_calls(&mut r, more);
        i = i + 1;
    }
    assert(all.take(cols.len() as int) =~= all);
    match having {
        Some(e) => append_calls(&mut r, collect_calls(e)),
        None => append_calls(&mut r, no_calls()),
    }
    r
}

/// The places of the columns that a GROUP BY names; what is no column is passed over.
pub open spec fn group_places(columns: Seq<Seq<char>>, by: Seq<ExprView>) -> Seq<int>
    decreases by.len(),
{
    if by.len() == 0 {
        Seq::empty()
    } else {
        let rest = group_places(columns, by.drop_last());
        match by.last() {
            ExprView::Column(c) => match index_of(columns, c) {
                Some(i) => rest.push(i),
                None => rest,
            },
            _ => rest,
        }
    }
}

/// The columns that a GROUP BY names.
pub open spec fn group_names(by: Seq<ExprView>) -> Seq<Seq<char>>
    decreases by.len(),
{
    if by.len() == 0 {
        Seq::empty()
    } else {
        match by.last() {
            ExprView::Column(c) => group_names(by.drop_last()).push(c),
            _ => group_names(by.drop_last()),
        }
    }
}

/// The values of a row at some places.
pub open spec fn picked(row: Seq<ValueView>, at: Seq<int>) -> Seq<ValueView> {
    Seq::new(at.len(), |i: int| value_at(row, Some(at[i])))
}

/// The values of column `c` in the rows at some places.
pub open spec fn column_at(rows: Seq<Seq<ValueView>>, at: Seq<usize>, c: int) -> Seq<ValueView> {
    Seq::new(at.len(), |i: int| value_at(rows[at[i] as int], Some(c)))
}

/// The result of a call for the rows at some places.
pub open spec fn call_result(m: Unit, rel: RelationView, at: Seq<usize>, c: CallView) -> ValueView {
    let v = match c.column {
        Some(name) => match index_of(rel.columns, name) {
            Some(i) => Some(column_at(rel.rows, at, i)),
            None => None,
        },
        None => None,
    };
    aggregate(m, c.f, at.len(), v)
}

pub open spec fn call_results(m: Unit, rel: RelationView, at: Seq<usize>, calls: Seq<CallView>) -> Seq<ValueView> {
    Seq::new(calls.len(), |i: int| call_result(m, rel, at, calls[i]))
}

pub open spec fn labels(calls: Seq<CallView>) -> Seq<Seq<char>> {
    Seq::new(calls.len(), |i: int| calls[i].label)
}

/// The key of each row.
pub open spec fn group_keys(rows: Seq<Seq<ValueView>>, at: Seq<int>) -> Seq<Seq<ValueView>> {
    Seq::new(rows.len(), |i: int| picked(rows[i], at))
}

/// The row of the group that starts at row `s`.
pub open spec fn group_row(m: Unit, rel: RelationView, at: Seq<int>, calls: Seq<CallView>, s: int) -> Seq<ValueView> {
    let keys = group_keys(rel.rows, at);
    picked(rel.rows[s], at) + call_results(m, rel, places_of_key(keys, keys[s]), calls)
}

/// GROUP BY: one row for each key, and without GROUP BY a single row, though there be none to
/// group.
pub open spec fn grouped(m: Unit, rel: RelationView, by: Seq<ExprView>, calls: Seq<CallView>) -> RelationView {
    let at = group_places(rel.columns, by);
    let starts = group_starts(group_keys(rel.rows, at));
    RelationView {
        columns: group_names(by) + labels(calls),
        rows: if by.len() == 0 {
            seq![call_results(m, rel, upto(rel.rows.len()), calls)]
        } else {
            Seq::new(starts.len(), |k: int| group_row(m, rel, at, calls, starts[k] as int))
        },
    }
}

pub fn find_group_places(columns: &Vec<String>, by: &Vec<Expr>) -> (r: Vec<usize>)
    ensures
        ints(r@) == group_places(names_view(columns@), exprs_view(by@)),
{
    let ghost all = exprs_view(by@);
    let mut r: Vec<usize> = Vec::new();
    let mut i: usize = 0;
    proof {
        broadcast use exprs_len;

        assert(all.take(0).len() == 0);
        assert(ints(r@) =~= Seq::empty());
    }
    while i < by.len()
        invariant
            i <= by.len(),
            all == exprs_view(by@),
            all.len() == by@.len(),
            ints(r@) == group_places(names_view(columns@), all.take(i as int)),
        decreases by.len() - i,
    {
        proof {
            broadcast use exprs_at;

            assert(all[i as int] == by@[i as int]@);
            by@[i as int].unfold();
            assert(all.take(i + 1).drop_last() =~= all.take(i as int));
            assert(all.take(i + 1).last() == all[i as int]);
        }
        match &by[i] {
            Expr::Column(c) => match find_index(columns, c.as_str()) {
                Some(k) => {
                    let ghost before = r@;
                    r.push(k);
                    assert(ints(r@) =~= ints(before).push(k as int));
                },
                None => {},
            },
            _ => {},
        }
        i = i + 1;
    }
    assert(all.take(by.len() as int) =~= all);
    r
}

fn list_group_names(by: &Vec<Expr>) -> (r: Vec<String>)
    ensures
        names_view(r@) == group_names(exprs_view(by@)),
{
    let ghost all = exprs_view(by@);
    let mut r: Vec<String> = Vec::new();
    let mut i: usize = 0;
    proof {
        broadcast use exprs_len;

        assert(all.take(0).len() == 0);
        assert(names_view(r@) =~= Seq::empty());
    }
    while i < by.len()
        invariant
            i <= by.len(),
            all == exprs_view(by@),
            all.len() == by@.len(),
            names_view(r@) == group_names(all.take(i as int)),
        decreases by.len() - i,
    {
        proof {
            broadcast use exprs_at;

            assert(all[i as int] == by@[i as int]@);
            by@[i as int].unfold();
            assert(all.take(i + 1).drop_last() =~= all.take(i as int));
            assert(all.take(i + 1).last() == all[i as int]);
        }
        match &by[i] {
            Expr::Column(c) => {
                let name = c.clone();
                proof {
                    names_push(r@, name);
                }
                r.push(name);
            },
            _ => {},
        }
        i = i + 1;
    }
    assert(all.take(by.len() as int) =~= all);
    r
}

fn pick(row: &Vec<Value>, at: &Vec<usize>) -> (r: Vec<Value>)
    ensures
        values_view(r@) == picked(values_view(row@), ints(at@)),
{
    let ghost all = picked(values_view(row@), ints(at@));
    let mut r: Vec<Value> = Vec::new();
    let mut i: usize = 0;
    assert(values_view(r@) =~= all.take(0));
    while i < at.len()
        invariant
            i <= at.len(),
            all == picked(values_view(row@), ints(at@)),
            values_view(r@) == all.take(i as int),
        decreases at.len() - i,
    {
        let v = get_value(row, Some(at[i]));
        proof {
            values_push(r@, v);
            assert(all[i as int] == v@);
            assert(all.take(i + 1) =~= all.take(i as int).push(v@));
        }
        r.push(v);
        i = i + 1;
    }
    assert(all.take(at.len() as int) =~= all);
    r
}

pub fn make_keys(rows: &Vec<Vec<Value>>, at: &Vec<usize>) -> (r: Vec<Vec<Value>>)
    ensures
        rows_view(r@) == group_keys(rows_view(rows@), ints(at@)),
        r@.len() == rows@.len(),
{
    let ghost all = group_keys(rows_view(rows@), ints(at@));
    let mut r: Vec<Vec<Value>> = Vec::new();
    let mut i: usize = 0;
    assert(rows_view(r@) =~= all.take(0));
    while i < rows.len()
        invariant
            i <= rows.len(),
            r@.len() == i,
            all == group_keys(rows_view(rows@), ints(at@)),
            rows_view(r@) == all.take(i as int),
        decreases rows.len() - i,
    {
        let k = pick(&rows[i], at);
        proof {
            rows_push(r@, k);
            assert(all[i as int] == values_view(k@));
            assert(all.take(i + 1) =~= all.take(i as int).push(values_view(k@)));
        }
        r.push(k);
        i = i + 1;
    }
    assert(all.take(rows.len() as int) =~= all);
    r
}

fn take_column(rows: &Vec<Vec<Value>>, at: &Vec<usize>, c: usize) -> (r: Vec<Value>)
    requires
        forall|i: int| 0 <= i < at@.len() ==> (#[trigger] at@[i]) < rows@.len(),
    ensures
        values_view(r@) == column_at(rows_view(rows@), at@, c as int),
{
    let ghost all = column_at(rows_view(rows@), at@, c as int);
    let mut r: Vec<Value> = Vec::new();
    let mut i: usize = 0;
    assert(values_view(r@) =~= all.take(0));
    while i < at.len()
        invariant
            i <= at.len(),
            forall|i: int| 0 <= i < at@.len() ==> (#[trigger] at@[i]) < rows@.len(),
            all == column_at(rows_view(rows@), at@, c as int),
            values_view(r@) == all.take(i as int),
        decreases at.len() - i,
    {
        let v = get_value(&rows[at[i]], Some(c));
        proof {
            values_push(r@, v);
            assert(rows_view(rows@)[at@[i as int] as int] == values_view(rows@[at@[i as int] as int]@));
            assert(all[i as int] == v@);
            assert(all.take(i + 1) =~= all.take(i as int).push(v@));
        }
        r.push(v);
        i = i + 1;
    }
    assert(all.take(at.len() as int) =~= all);
    r
}

fn compute_call<U: Fn(Ask) -> Reply>(u: &U, rel: &Relation, at: &Vec<usize>, c: &Call) -> (r: Value)
    requires
        is_unit(u),
        forall|i: int| 0 <= i < at@.len() ==> (#[trigger] at@[i]) < rel.rows@.len(),
    ensures
        r@ == call_result(model(u), rel@, at@, c@),
{
    let v: Option<Vec<Value>> = match &c.column {
        Some(name) => match find_index(&rel.columns, name.as_str()) {
            Some(i) => Some(take_column(&rel.rows, at, i)),
            None => None,
        },
        None => None,
    };
    compute_aggregate(u, c.f.as_str(), at.len(), &v)
}

fn compute_calls<U: Fn(Ask) -> Reply>(u: &U, rel: &Relation, at: &Vec<usize>, calls: &Vec<Call>, r: &mut Vec<Value>)
    requires
        is_unit(u),
        forall|i: int| 0 <= i < at@.len() ==> (#[trigger] at@[i]) < rel.rows@.len(),
    ensures
        values_view(final(r)@) == values_view(old(r)@) + call_results(model(u), rel@, at@, calls_view(calls@)),
{
    let ghost all = call_results(model(u), rel@, at@, calls_view(calls@));
    let ghost front = values_view(r@);
    let mut i: usize = 0;
    assert(values_view(r@) =~= front + all.take(0));
    while i < calls.len()
        invariant
            i <= calls.len(),
            is_unit(u),
            forall|i: int| 0 <= i < at@.len() ==> (#[trigger] at@[i]) < rel.rows@.len(),
            all == call_results(model(u), rel@, at@, calls_view(calls@)),
            values_view(r@) == front + all.take(i as int),
        decreases calls.len() - i,
    {
        let v = compute_call(u, rel, at, &calls[i]);
        proof {
            values_push(r@, v);
            assert(calls_view(calls@)[i as int] == calls@[i as int]@);
            assert(all[i as int] == v@);
            assert(front + all.take(i + 1) =~= (front + all.take(i as int)).push(v@));
        }
        r.push(v);
        i = i + 1;
    }
    assert(all.take(calls.len() as int) =~= all);
}

fn add_labels(names: &mut Vec<String>, calls: &Vec<Call>)
    ensures
        names_view(final(names)@) == names_view(old(names)@) + labels(calls_view(calls@)),
{
    let ghost all = labels(calls_view(calls@));
    let ghost front = names_view(names@);
    let mut i: usize = 0;
    assert(names_view(names@) =~= front + all.take(0));
    while i < calls.len()
        invariant
            i <= calls.len(),
            all == labels(calls_view(calls@)),
            names_view(names@) == front + all.take(i as int),
        decreases calls.len() - i,
    {
        let name = calls[i].label.clone();
        proof {
            names_push(names@, name);
            assert(calls_view(calls@)[i as int] == calls@[i as int]@);
            assert(all[i as int] == name@);
            assert(front + all.take(i + 1) =~= (front + all.take(i as int)).push(name@));
        }
        names.push(name);
        i = i + 1;
    }
    assert(all.take(calls.len() as int) =~= all);
}

/// Groups the rows of a relation and computes the calls for each group.
pub fn group_rows<U: Fn(Ask) -> Reply>(u: &U, rel: &Relation, by: &Vec<Expr>, calls: &Vec<Call>) -> (r: Relation)
    requires
        is_unit(u),
    ensures
        r@ == grouped(model(u), rel@, exprs_view(by@), calls_view(calls@)),
{
    let at = find_group_places(&rel.columns, by);
    let mut columns = list_group_names(by);
    add_labels(&mut columns, calls);
    let mut rows: Vec<Vec<Value>> = Vec::new();
    proof {
        broadcast use exprs_len;

        assert(rows_view(rows@) =~= Seq::empty());
    }
    if by.len() == 0 {
        let all = count_up(rel.rows.len());
        let mut row: Vec<Value> = Vec::new();
        assert(values_view(row@) =~= Seq::empty());
        compute_calls(u, rel, &all, calls, &mut row);
        proof {
            assert(all@ == upto(rel@.rows.len()));
            assert(values_view(row@) =~= call_results(model(u), rel@, all@, calls_view(calls@)));
            rows_push(rows@, row);
        }
        rows.push(row);
        assert(rows_view(rows@) =~= seq![call_results(model(u), rel@, all@, calls_view(calls@))]);
        return Relation { columns, rows };
    }
    let keys = make_keys(&rel.rows, &at);
    let starts = find_group_starts(&keys);
    let ghost places = ints(at@);
    let ghost cv = calls_view(calls@);
    let ghost out = Seq::new(starts@.len(), |k: int| group_row(model(u), rel@, places, cv, starts@[k] as int));
    proof {
        assert(rows_view(rows@) =~= out.take(0));
    }
    let mut k: usize = 0;
    while k < starts.len()
        invariant
            k <= starts.len(),
            is_unit(u),
            places == ints(at@),
            cv == calls_view(calls@),
            keys@.len() == rel.rows@.len(),
            rows_view(keys@) == group_keys(rel@.rows, places),
            forall|i: int| 0 <= i < starts@.len() ==> #[trigger] starts@[i] < keys@.len(),
            out == Seq::new(starts@.len(), |k: int| group_row(model(u), rel@, places, cv, starts@[k] as int)),
            rows_view(rows@) == out.take(k as int),
        decreases starts.len() - k,
    {
        let s = starts[k];
        let members = find_places_of_key(&keys, &keys[s]);
        let mut row = pick(&rel.rows[s], &at);
        proof {
            assert(rows_view(keys@)[s as int] == values_view(keys@[s as int]@));
        }
        compute_calls(u, rel, &members, calls, &mut row);
        proof {
            assert(rel@.rows[s as int] == values_view(rel.rows@[s as int]@));
            rows_push(rows@, row);
            assert(out[k as int] == values_view(row@));
            assert(out.take(k + 1) =~= out.take(k as int).push(values_view(row@)));
        }
        rows.push(row);
        k = k + 1;
    }
    assert(out.take(starts.len() as int) =~= out);
    Relation { columns, rows }
}

} // verus!
