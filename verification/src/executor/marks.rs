use vstd::prelude::*;
use crate::parser::ast::{BinOp, Expr, ExprView};
use crate::value::{Order, Value, ValueView, dup_values, rows_push, rows_view, values_view};
use super::dml::{concerned, is_concerned};
use super::eval::{Reader, eval_literal, literal_value};
use super::grouping::opt_expr;
use super::keys::{order_values, value_order};
use super::scope::{Env, Names, NamesView, get_value, value_at};
use super::unit::{Ask, Reply, Unit, is_unit, model};

verus! {

/// What a transaction does that bears on others: it reads the row of a table under a key, goes through
/// the rows of a table by a condition, or writes the row under a key.
#[derive(Debug)]
pub enum Mark {
    Read { table: String, key: Vec<Value> },
    Scan { table: String },
    Write { table: String, key: Vec<Value> },
}

/// What contracts say about a `Mark`.
pub enum MarkView {
    Read { table: Seq<char>, key: Seq<ValueView> },
    Scan { table: Seq<char> },
    Write { table: Seq<char>, key: Seq<ValueView> },
}

impl Mark {
    pub open spec fn view(&self) -> MarkView {
        match self {
            Mark::Read { table, key } => MarkView::Read { table: table@, key: values_view(key@) },
            Mark::Scan { table } => MarkView::Scan { table: table@ },
            Mark::Write { table, key } => MarkView::Write { table: table@, key: values_view(key@) },
        }
    }

    pub fn dup(&self) -> (r: Mark)
        ensures
            r@ == self@,
    {
        match self {
            Mark::Read { table, key } => Mark::Read { table: table.clone(), key: dup_values(key) },
            Mark::Scan { table } => Mark::Scan { table: table.clone() },
            Mark::Write { table, key } => Mark::Write { table: table.clone(), key: dup_values(key) },
        }
    }
}

pub open spec fn marks_view(s: Seq<Mark>) -> Seq<MarkView> {
    Seq::new(s.len(), |i: int| s[i]@)
}

pub proof fn marks_push(s: Seq<Mark>, m: Mark)
    ensures
        marks_view(s.push(m)) == marks_view(s).push(m@),
{
    assert(marks_view(s.push(m)) =~= marks_view(s).push(m@));
}

pub fn no_marks() -> (r: Vec<Mark>)
    ensures
        marks_view(r@) == Seq::<MarkView>::empty(),
{
    let r: Vec<Mark> = Vec::new();
    assert(marks_view(r@) =~= Seq::empty());
    r
}

pub fn join_marks(a: Vec<Mark>, b: &Vec<Mark>) -> (r: Vec<Mark>)
    ensures
        marks_view(r@) == marks_view(a@) + marks_view(b@),
{
    let ghost start = marks_view(a@);
    let ghost all = marks_view(b@);
    let mut r = a;
    let mut i: usize = 0;
    assert(start + all.take(0) =~= start);
    while i < b.len()
        invariant
            i <= b.len(),
            all == marks_view(b@),
            marks_view(r@) == start + all.take(i as int),
        decreases b.len() - i,
    {
        let m = b[i].dup();
        proof {
            marks_push(r@, m);
            assert(start + all.take(i + 1) =~= (start + all.take(i as int)).push(m@));
        }
        r.push(m);
        i = i + 1;
    }
    assert(all.take(b.len() as int) =~= all);
    r
}

/// That the rows of a table under some keys were read.
pub open spec fn reads_of(table: Seq<char>, keys: Seq<Seq<ValueView>>) -> Seq<MarkView> {
    Seq::new(keys.len(), |i: int| MarkView::Read { table, key: keys[i] })
}

/// That a table was gone through, and which of its rows were read.
pub open spec fn scan_marks(table: Seq<char>, keys: Seq<Seq<ValueView>>) -> Seq<MarkView> {
    seq![MarkView::Scan { table }] + reads_of(table, keys)
}

pub fn mark_scan(table: &str, keys: Vec<Vec<Value>>) -> (r: Vec<Mark>)
    ensures
        marks_view(r@) == scan_marks(table@, rows_view(keys@)),
{
    let ghost all = reads_of(table@, rows_view(keys@));
    let mut r = no_marks();
    let first = Mark::Scan { table: table.to_string() };
    proof {
        marks_push(r@, first);
    }
    r.push(first);
    let mut i: usize = 0;
    assert(marks_view(r@) =~= seq![MarkView::Scan { table: table@ }] + all.take(0));
    while i < keys.len()
        invariant
            i <= keys.len(),
            all == reads_of(table@, rows_view(keys@)),
            marks_view(r@) == seq![MarkView::Scan { table: table@ }] + all.take(i as int),
        decreases keys.len() - i,
    {
        let m = Mark::Read { table: table.to_string(), key: dup_values(&keys[i]) };
        proof {
            marks_push(r@, m);
            assert(rows_view(keys@)[i as int] == values_view(keys@[i as int]@));
            assert(all[i as int] == m@);
            assert(seq![MarkView::Scan { table: table@ }] + all.take(i + 1) =~= (seq![MarkView::Scan { table: table@ }] + all.take(
                i as int,
            )).push(m@));
        }
        r.push(m);
        i = i + 1;
    }
    assert(all.take(keys.len() as int) =~= all);
    r
}

/// Which rows of a table a scan comes to: all, those with a value in a range, or those that an index
/// hands out.
pub enum Gate {
    All,
    Between(int, ValueView, ValueView),
    Index(NamesView, ExprView),
}

pub open spec fn lets_in(env: Env, g: Gate, row: Seq<ValueView>) -> bool {
    match g {
        Gate::All => true,
        Gate::Between(j, lo, hi) => value_order(value_at(row, Some(j)), lo) != Order::Less && value_order(value_at(row, Some(j)), hi)
            != Order::Greater,
        Gate::Index(n, e) => concerned(env, n, row, Some(e)),
    }
}

pub open spec fn key_at(keys: Seq<Seq<ValueView>>, j: int) -> Seq<ValueView> {
    if 0 <= j < keys.len() {
        keys[j]
    } else {
        Seq::empty()
    }
}

/// The keys of the rows that a scan finds, which stops once it has found as many as it may give.
pub open spec fn touched(
    env: Env,
    n: NamesView,
    keys: Seq<Seq<ValueView>>,
    rows: Seq<Seq<ValueView>>,
    g: Gate,
    filter: Option<ExprView>,
    limit: Option<usize>,
) -> Seq<Seq<ValueView>>
    decreases rows.len(),
{
    if rows.len() == 0 {
        Seq::empty()
    } else {
        let p = touched(env, n, keys, rows.drop_last(), g, filter, limit);
        if limit matches Some(l) && p.len() > 0 && p.len() >= l {
            p
        } else if lets_in(env, g, rows.last()) && concerned(env, n, rows.last(), filter) {
            p.push(key_at(keys, rows.len() - 1))
        } else {
            p
        }
    }
}

/// The rows of a table that a query made are numbered.
pub open spec fn numbered(n: nat) -> Seq<Seq<ValueView>> {
    Seq::new(n, |j: int| seq![ValueView::Int64(j as i64)])
}

/// Which rows a scan comes to.
pub enum Way {
    All,
    Between(usize, Value, Value),
    Index(Names, Option<Expr>),
}

impl Way {
    pub open spec fn view(&self) -> Gate {
        match self {
            Way::All => Gate::All,
            Way::Between(j, lo, hi) => Gate::Between(*j as int, lo@, hi@),
            Way::Index(n, e) => match e {
                Some(e) => Gate::Index(n@, e@),
                None => Gate::All,
            },
        }
    }
}

fn does_let_in<'a, U: Fn(Ask) -> Reply>(cx: &Reader<'a, U>, g: &Way, row: &Vec<Value>) -> (r: bool)
    requires
        cx.ready(),
    ensures
        r == lets_in(cx.env(), g@, values_view(row@)),
{
    match g {
        Way::All => true,
        Way::Between(j, lo, hi) => {
            let v = get_value(row, Some(*j));
            !matches!(order_values(&v, lo), Order::Less) && !matches!(order_values(&v, hi), Order::Greater)
        },
        Way::Index(n, e) => is_concerned(cx, n, row, e),
    }
}

pub fn number_rows(n: usize) -> (r: Vec<Vec<Value>>)
    ensures
        rows_view(r@) == numbered(n as nat),
{
    let ghost all = numbered(n as nat);
    let mut r: Vec<Vec<Value>> = Vec::new();
    let mut i: usize = 0;
    assert(rows_view(r@) =~= all.take(0));
    while i < n
        invariant
            i <= n,
            all == numbered(n as nat),
            rows_view(r@) == all.take(i as int),
        decreases n - i,
    {
        let mut k: Vec<Value> = Vec::new();
        k.push(Value::Int64(i as i64));
        proof {
            rows_push(r@, k);
            assert(values_view(k@) =~= seq![ValueView::Int64(i as i64)]);
            assert(all.take(i + 1) =~= all.take(i as int).push(values_view(k@)));
        }
        r.push(k);
        i = i + 1;
    }
    assert(all.take(n as int) =~= all);
    r
}

/// Finds the keys of the rows that a scan finds.
pub fn touch<'a, U: Fn(Ask) -> Reply>(
    cx: &Reader<'a, U>,
    n: &Names,
    keys: &Vec<Vec<Value>>,
    rows: &Vec<Vec<Value>>,
    g: &Way,
    filter: &Option<Expr>,
    limit: Option<usize>,
) -> (r: Vec<Vec<Value>>)
    requires
        cx.ready(),
    ensures
        rows_view(r@) == touched(cx.env(), n@, rows_view(keys@), rows_view(rows@), g@, opt_expr(*filter), limit),
{
    let ghost kv = rows_view(keys@);
    let ghost all = rows_view(rows@);
    let mut r: Vec<Vec<Value>> = Vec::new();
    let mut i: usize = 0;
    assert(all.take(0).len() == 0);
    assert(rows_view(r@) =~= Seq::empty());
    while i < rows.len()
        invariant
            i <= rows.len(),
            cx.ready(),
            kv == rows_view(keys@),
            all == rows_view(rows@),
            rows_view(r@) == touched(cx.env(), n@, kv, all.take(i as int), g@, opt_expr(*filter), limit),
        decreases rows.len() - i,
    {
        proof {
            assert(all.take(i + 1).drop_last() =~= all.take(i as int));
            assert(all.take(i + 1).last() == values_view(rows@[i as int]@));
            assert(rows_view(r@).len() == r@.len());
            assert(kv.len() == keys@.len());
        }
        let full = match limit {
            Some(l) => r.len() > 0 && r.len() >= l,
            None => false,
        };
        if !full && does_let_in(cx, g, &rows[i]) && is_concerned(cx, n, &rows[i], filter) {
            let k = if i < keys.len() {
                assert(kv[i as int] == values_view(keys@[i as int]@));
                dup_values(&keys[i])
            } else {
                let none: Vec<Value> = Vec::new();
                assert(values_view(none@) =~= Seq::empty());
                none
            };
            proof {
                rows_push(r@, k);
            }
            r.push(k);
        }
        i = i + 1;
    }
    assert(all.take(rows.len() as int) =~= all);
    r
}

/// The key that a condition asks for which compares it with a constant.
pub open spec fn asked_key(m: Unit, filter: Option<ExprView>) -> Seq<ValueView> {
    match filter {
        Some(ExprView::BinaryOp { left, op: BinOp::Eq, right }) => match (*left, *right) {
            (ExprView::Column(_), ExprView::Literal(l)) => seq![literal_value(m, l)],
            (ExprView::Literal(l), ExprView::Column(_)) => seq![literal_value(m, l)],
            _ => Seq::empty(),
        },
        _ => Seq::empty(),
    }
}

pub fn find_asked_key<U: Fn(Ask) -> Reply>(u: &U, filter: &Option<Expr>) -> (r: Vec<Value>)
    requires
        is_unit(u),
    ensures
        values_view(r@) == asked_key(model(u), opt_expr(*filter)),
{
    let mut r: Vec<Value> = Vec::new();
    let ghost want = asked_key(model(u), opt_expr(*filter));
    if let Some(e) = filter {
        proof {
            (*e).unfold();
        }
        if let Expr::BinaryOp { left, op: BinOp::Eq, right } = e {
            proof {
                (**left).unfold();
                (**right).unfold();
            }
            match (&**left, &**right) {
                (Expr::Column(_), Expr::Literal(l)) => {
                    r.push(eval_literal(u, l));
                },
                (Expr::Literal(l), Expr::Column(_)) => {
                    r.push(eval_literal(u, l));
                },
                _ => {},
            }
        }
    }
    assert(values_view(r@) =~= want);
    r
}

} // verus!
