use vstd::prelude::*;
use vstd::string::*;
use vstd::utf8::encode_utf8;
use crate::error::{ErrorView, QueryError, check_message, fk_missing_message, not_null_message, run_error, unique_message};
use crate::parser::ast::{BinOp, Expr, ExprView, ForeignKeyDef, ForeignKeyDefView};
use crate::parser::ast::{exprs_at, exprs_len, exprs_view, foreign_key_defs_at, foreign_key_defs_len, foreign_key_defs_view};
use crate::text::{chars_of, join3, string_of};
use crate::value::{DataType, Value, ValueView, names_push, names_view, rows_view, values_push, values_view};
use super::eval::{Reader, eval, eval_predicate, eval_value, predicate};
use super::grouping::picked;
use super::relation::{same_row, same_value};
use super::scalar::{cast, cast_value};
use crate::planner::optimizer::{TableRows, counts_view};
use super::scope::{Env, Known, Names, NamesView, Scope, find_index, get_value, index_of, scopes_view, value_at};
use super::select::env_at;
use super::store::{Store, StoreView, column_names, rows_at_table, sources_of, table_index};
use super::table::{Column, ColumnView, Table, TableView, columns_view};
use super::unit::{Ask, Reply, Unit, is_unit, model};

verus! {

/// What statements run with: the unit, what is known, and how deep queries may nest.
pub struct Run {
    pub m: Unit,
    pub known: Known,
    pub depth: nat,
}

/// What expressions read while the store is `s`.
pub open spec fn run_env(r: Run, s: StoreView) -> Env {
    env_at(r.m, r.known, sources_of(s), r.depth)
}

/// What a statement is handed to run with.
pub struct Runner<'a, U: Fn(Ask) -> Reply> {
    pub u: &'a U,
    pub now: i64,
    pub depth: usize,
}

impl<'a, U: Fn(Ask) -> Reply> Runner<'a, U> {
    pub open spec fn run(&self) -> Run {
        Run { m: model(self.u), known: Known { now: self.now, counts: Seq::empty() }, depth: self.depth as nat }
    }

    pub open spec fn ready(&self) -> bool {
        is_unit(self.u)
    }
}

/// What statements run with.
pub struct Clerk<'a, U: Fn(Ask) -> Reply> {
    pub u: &'a U,
    pub now: i64,
    pub counts: &'a Vec<TableRows>,
    pub depth: usize,
}

impl<'a, U: Fn(Ask) -> Reply> Clerk<'a, U> {
    pub open spec fn run(&self) -> Run {
        Run {
            m: model(self.u),
            known: Known { now: self.now, counts: counts_view(self.counts@) },
            depth: self.depth as nat,
        }
    }

    pub open spec fn ready(&self) -> bool {
        is_unit(self.u)
    }
}

/// The longest part from the front that takes at most `n` bytes.
pub open spec fn cut_bytes(s: Seq<char>, n: nat) -> Seq<char>
    decreases s.len(),
{
    if s.len() == 0 || encode_utf8(s).len() <= n {
        s
    } else {
        cut_bytes(s.drop_last(), n)
    }
}

fn cut_text(s: &str, n: usize) -> (r: String)
    ensures
        r@ == cut_bytes(s@, n as nat),
{
    let v = chars_of(s);
    let mut k: usize = v.len();
    let mut r = s.to_string();
    assert(s@.take(k as int) =~= s@);
    while k > 0 && r.as_str().as_bytes_vec().len() > n
        invariant
            k <= v.len(),
            v@ == s@,
            r@ == s@.take(k as int),
            cut_bytes(s@, n as nat) == cut_bytes(s@.take(k as int), n as nat),
        decreases k,
    {
        assert(s@.take(k as int).drop_last() =~= s@.take(k - 1));
        k = k - 1;
        r = string_of(&v, 0, k);
        assert(r@ =~= s@.take(k as int));
    }
    r
}

/// Whether a value that is not of the type `t` is made one where it can be.
pub open spec fn adapts(t: DataType, v: ValueView) -> bool {
    match v {
        ValueView::Text(_) => t == DataType::Date || t == DataType::Timestamp || t == DataType::Uuid || t
            == DataType::Decimal || t == DataType::Int64 || t == DataType::Float64 || t == DataType::Bool,
        ValueView::Int64(_) => t == DataType::Decimal,
        ValueView::Float64(_) => t == DataType::Decimal,
        _ => false,
    }
}

pub open spec fn shortened(c: ColumnView, v: ValueView) -> ValueView {
    match (v, c.max_length) {
        (ValueView::Text(s), Some(n)) => ValueView::Text(cut_bytes(s, n as nat)),
        _ => v,
    }
}

/// A value as a column takes it: text cut to its length, and what can be made of the column's type
/// made so.
pub open spec fn coerced(m: Unit, c: ColumnView, v: ValueView) -> ValueView {
    let w = shortened(c, v);
    if adapts(c.data_type, w) && !(cast(m, w, c.data_type) is Null) {
        cast(m, w, c.data_type)
    } else {
        w
    }
}

fn coerce<U: Fn(Ask) -> Reply>(u: &U, c: &Column, v: Value) -> (r: Value)
    requires
        is_unit(u),
    ensures
        r@ == coerced(model(u), c@, v@),
{
    let w = match (&v, c.max_length) {
        (Value::Text(s), Some(n)) => Value::Text(cut_text(s.as_str(), n)),
        _ => v,
    };
    let fits = match &w {
        Value::Text(_) => matches!(c.data_type, DataType::Date | DataType::Timestamp | DataType::Uuid
            | DataType::Decimal | DataType::Int64 | DataType::Float64 | DataType::Bool),
        Value::Int64(_) => matches!(c.data_type, DataType::Decimal),
        Value::Float64(_) => matches!(c.data_type, DataType::Decimal),
        _ => false,
    };
    if fits {
        match cast_value(u, &w, c.data_type) {
            Value::Null => w,
            x => x,
        }
    } else {
        w
    }
}

/// The next number of a counting column once `n` was given out.
pub open spec fn after_number(n: i64) -> i64 {
    if n == i64::MAX {
        n
    } else {
        (n + 1) as i64
    }
}

/// A row on its way into a table: the numbers of the counting columns, the values, and what is
/// wrong with them.
pub struct Fill {
    pub seqs: Seq<i64>,
    pub row: Seq<ValueView>,
    pub err: Option<ErrorView>,
}

/// What a column gives for a missing value, and what it learns from a given one.
pub open spec fn supplied(c: ColumnView, next: i64, v: ValueView) -> (i64, ValueView) {
    match v {
        ValueView::Null => if c.auto_increment {
            (after_number(next), ValueView::Int64(next))
        } else {
            match c.default {
                Some(d) => (next, d),
                None => (next, v),
            }
        },
        ValueView::Int64(n) => if c.auto_increment && n >= next {
            (after_number(n), v)
        } else {
            (next, v)
        },
        _ => (next, v),
    }
}

/// A row after its first `n` columns were filled in.
pub open spec fn filled(m: Unit, cols: Seq<ColumnView>, seqs: Seq<i64>, row: Seq<ValueView>, n: nat) -> Fill
    decreases n,
{
    if n == 0 {
        Fill { seqs, row, err: None }
    } else {
        let f = filled(m, cols, seqs, row, (n - 1) as nat);
        let i = n - 1;
        if f.err is Some {
            f
        } else {
            let (next, v) = supplied(cols[i], f.seqs[i], f.row[i]);
            let w = if v is Null {
                v
            } else {
                coerced(m, cols[i], v)
            };
            Fill {
                seqs: f.seqs.update(i, next),
                row: f.row.update(i, w),
                err: if w is Null && !cols[i].nullable {
                    Some(ErrorView::Constraint(not_null_message(cols[i].name)))
                } else {
                    None
                },
            }
        }
    }
}

fn supply(c: &Column, next: i64, v: &Value) -> (r: (i64, Value))
    ensures
        (r.0, r.1@) == supplied(c@, next, v@),
{
    match v {
        Value::Null => if c.auto_increment {
            (count_on(next), Value::Int64(next))
        } else {
            match &c.default {
                Some(d) => (next, d.dup()),
                None => (next, Value::Null),
            }
        },
        Value::Int64(n) => if c.auto_increment && *n >= next {
            (count_on(*n), Value::Int64(*n))
        } else {
            (next, Value::Int64(*n))
        },
        _ => (next, v.dup()),
    }
}

fn count_on(n: i64) -> (r: i64)
    ensures
        r == after_number(n),
{
    if n == i64::MAX {
        n
    } else {
        n + 1
    }
}

/// Fills in a row: numbers, defaults, and values as the columns take them.
pub fn fill_row<U: Fn(Ask) -> Reply>(u: &U, cols: &Vec<Column>, seqs: &mut Vec<i64>, row: &mut Vec<Value>) -> (r: Option<QueryError>)
    requires
        is_unit(u),
        old(seqs)@.len() == cols@.len(),
        old(row)@.len() == cols@.len(),
    ensures
        ({
            let f = filled(model(u), columns_view(cols@), old(seqs)@, values_view(old(row)@), cols@.len());
            &&& final(seqs)@ == f.seqs
            &&& values_view(final(row)@) == f.row
            &&& (match r { Some(e) => Some(e@), None => None }) == f.err
        }),
        final(seqs)@.len() == cols@.len(),
        final(row)@.len() == cols@.len(),
{
    let ghost m = model(u);
    let ghost cv = columns_view(cols@);
    let ghost s0 = seqs@;
    let ghost r0 = values_view(row@);
    let mut i: usize = 0;
    while i < cols.len()
        invariant
            i <= cols.len(),
            is_unit(u),
            m == model(u),
            cv == columns_view(cols@),
            s0 == old(seqs)@,
            r0 == values_view(old(row)@),
            seqs@.len() == cols@.len(),
            row@.len() == cols@.len(),
            filled(m, cv, s0, r0, i as nat) == (Fill { seqs: seqs@, row: values_view(row@), err: None }),
        decreases cols.len() - i,
    {
        let (next, v) = supply(&cols[i], seqs[i], &row[i]);
        let w = match v {
            Value::Null => Value::Null,
            v => coerce(u, &cols[i], v),
        };
        let missing = matches!(w, Value::Null) && !cols[i].nullable;
        let ghost before = row@;
        seqs.set(i, next);
        row.set(i, w);
        proof {
            assert(values_view(row@) =~= values_view(before).update(i as int, w@));
            assert(cv[i as int] == cols@[i as int]@);
        }
        if missing {
            let e = QueryError::not_null_violation(cols[i].name.as_str());
            proof {
                lemma_fill_stops(m, cv, s0, r0, (i + 1) as nat, cols@.len());
            }
            return Some(e);
        }
        i = i + 1;
    }
    None
}

proof fn lemma_fill_stops(m: Unit, cols: Seq<ColumnView>, seqs: Seq<i64>, row: Seq<ValueView>, i: nat, n: nat)
    requires
        i <= n,
        filled(m, cols, seqs, row, i).err is Some,
    ensures
        filled(m, cols, seqs, row, n) == filled(m, cols, seqs, row, i),
    decreases n,
{
    if i < n {
        lemma_fill_stops(m, cols, seqs, row, i, (n - 1) as nat);
    }
}

// ---- conditions on rows

/// Whether a row under another key than `own` holds `v` in column `i`.
pub open spec fn taken(keys: Seq<Seq<ValueView>>, rows: Seq<Seq<ValueView>>, i: int, v: ValueView, own: Option<Seq<ValueView>>) -> bool {
    exists|j: int| 0 <= j < rows.len() && #[trigger] value_at(rows[j], Some(i)) == v && own != Some(keys[j])
}

/// The first of the first `n` columns whose value must be unique and is not.
pub open spec fn unique_clash(t: TableView, rows: Seq<Seq<ValueView>>, row: Seq<ValueView>, own: Option<Seq<ValueView>>, n: nat) -> Option<Seq<char>>
    decreases n,
{
    if n == 0 {
        None
    } else {
        match unique_clash(t, rows, row, own, (n - 1) as nat) {
            Some(c) => Some(c),
            None => {
                let c = t.columns[n - 1];
                let v = value_at(row, Some(n - 1));
                if c.unique && !c.primary_key && !(v is Null) && taken(t.keys, rows, n - 1, v, own) {
                    Some(c.name)
                } else {
                    None
                }
            },
        }
    }
}

pub open spec fn opt_row(k: Option<&Vec<Value>>) -> Option<Seq<ValueView>> {
    match k {
        Some(k) => Some(values_view(k@)),
        None => None,
    }
}

fn is_own(own: Option<&Vec<Value>>, k: &Vec<Value>) -> (r: bool)
    ensures
        r == (opt_row(own) == Some(values_view(k@))),
{
    match own {
        Some(o) => same_row(o, k),
        None => false,
    }
}

fn is_taken(keys: &Vec<Vec<Value>>, rows: &Vec<Vec<Value>>, i: usize, v: &Value, own: Option<&Vec<Value>>) -> (r: bool)
    requires
        keys@.len() == rows@.len(),
    ensures
        r == taken(rows_view(keys@), rows_view(rows@), i as int, v@, opt_row(own)),
{
    let ghost ks = rows_view(keys@);
    let ghost rs = rows_view(rows@);
    let mut j: usize = 0;
    while j < rows.len()
        invariant
            j <= rows.len(),
            keys@.len() == rows@.len(),
            ks == rows_view(keys@),
            rs == rows_view(rows@),
            forall|k: int| 0 <= k < j ==> !(#[trigger] value_at(rs[k], Some(i as int)) == v@ && opt_row(own) != Some(ks[k])),
        decreases rows.len() - j,
    {
        assert(rs[j as int] == values_view(rows@[j as int]@));
        assert(ks[j as int] == values_view(keys@[j as int]@));
        let same = if i < rows[j].len() {
            same_value(&rows[j][i], v)
        } else {
            matches!(v, Value::Null)
        };
        assert(same == (value_at(rs[j as int], Some(i as int)) == v@));
        if same && !is_own(own, &keys[j]) {
            return true;
        }
        j = j + 1;
    }
    false
}

fn find_unique_clash(t: &Table, rows: &Vec<Vec<Value>>, row: &Vec<Value>, own: Option<&Vec<Value>>) -> (r: Option<usize>)
    requires
        t.keys@.len() == rows@.len(),
    ensures
        (match r { Some(i) => Some(t@.columns[i as int].name), None => None }) == unique_clash(
            t@,
            rows_view(rows@),
            values_view(row@),
            opt_row(own),
            t@.columns.len(),
        ),
        r matches Some(i) ==> i < t.columns@.len(),
{
    let ghost rs = rows_view(rows@);
    let ghost rv = values_view(row@);
    let mut i: usize = 0;
    let mut r: Option<usize> = None;
    while i < t.columns.len()
        invariant
            i <= t.columns.len(),
            t.keys@.len() == rows@.len(),
            rs == rows_view(rows@),
            rv == values_view(row@),
            (match r { Some(k) => Some(t@.columns[k as int].name), None => None }) == unique_clash(t@, rs, rv, opt_row(own), i as nat),
            r matches Some(k) ==> k < t.columns@.len(),
        decreases t.columns.len() - i,
    {
        assert(t@.columns[i as int] == t.columns@[i as int]@);
        if r.is_none() && t.columns[i].unique && !t.columns[i].primary_key {
            let v = get_value(row, Some(i));
            if !matches!(v, Value::Null) && is_taken(&t.keys, rows, i, &v, own) {
                r = Some(i);
            }
        }
        i = i + 1;
    }
    r
}

/// Whether a condition fails for a row: one that comes to null does not.
pub open spec fn refuted(env: Env, n: NamesView, row: Seq<ValueView>, e: ExprView) -> bool
    decreases e,
{
    match e {
        ExprView::BinaryOp { left, op: BinOp::And, right } => refuted(env, n, row, *left) || refuted(env, n, row, *right),
        ExprView::BinaryOp { left, op: BinOp::Or, right } => refuted(env, n, row, *left) && refuted(env, n, row, *right),
        _ => !predicate(env, Seq::empty(), n, row, e) && !(eval(env, Seq::empty(), n, row, e) is Null),
    }
}

fn is_refuted<'a, U: Fn(Ask) -> Reply>(cx: &Reader<'a, U>, n: &Names, row: &Vec<Value>, e: &Expr) -> (r: bool)
    requires
        cx.ready(),
    ensures
        r == refuted(cx.env(), n@, values_view(row@), e@),
    decreases e,
{
    proof {
        (*e).unfold();
    }
    match e {
        Expr::BinaryOp { left, op: BinOp::And, right } => is_refuted(cx, n, row, left) || is_refuted(cx, n, row, right),
        Expr::BinaryOp { left, op: BinOp::Or, right } => is_refuted(cx, n, row, left) && is_refuted(cx, n, row, right),
        _ => {
            let o: Vec<Scope> = Vec::new();
            assert(scopes_view(o@) =~= Seq::empty());
            if eval_predicate(cx, &o, n, row, e) {
                false
            } else {
                let v = eval_value(cx, &o, n, row, e);
                !matches!(v, Value::Null)
            }
        },
    }
}

/// Whether one of the CHECK conditions fails.
pub open spec fn check_clash(env: Env, n: NamesView, row: Seq<ValueView>, checks: Seq<ExprView>) -> bool {
    exists|i: int| 0 <= i < checks.len() && #[trigger] refuted(env, n, row, checks[i])
}

fn has_check_clash<'a, U: Fn(Ask) -> Reply>(cx: &Reader<'a, U>, n: &Names, row: &Vec<Value>, checks: &Vec<Expr>) -> (r: bool)
    requires
        cx.ready(),
    ensures
        r == check_clash(cx.env(), n@, values_view(row@), exprs_view(checks@)),
{
    let ghost all = exprs_view(checks@);
    proof {
        broadcast use exprs_len;

        assert(all.len() == checks@.len());
    }
    let mut i: usize = 0;
    while i < checks.len()
        invariant
            i <= checks.len(),
            cx.ready(),
            all == exprs_view(checks@),
            all.len() == checks@.len(),
            forall|j: int| 0 <= j < i ==> !#[trigger] refuted(cx.env(), n@, values_view(row@), all[j]),
        decreases checks.len() - i,
    {
        proof {
            broadcast use exprs_at;

            assert(all[i as int] == checks@[i as int]@);
        }
        if is_refuted(cx, n, row, &checks[i]) {
            return true;
        }
        i = i + 1;
    }
    false
}

/// The places of the columns that are there of those named.
pub open spec fn places_of(columns: Seq<Seq<char>>, names: Seq<Seq<char>>) -> Seq<int>
    decreases names.len(),
{
    if names.len() == 0 {
        Seq::empty()
    } else {
        match index_of(columns, names.last()) {
            Some(i) => places_of(columns, names.drop_last()).push(i),
            None => places_of(columns, names.drop_last()),
        }
    }
}

pub open spec fn ints(s: Seq<usize>) -> Seq<int> {
    Seq::new(s.len(), |i: int| s[i] as int)
}

pub fn find_places(columns: &Vec<String>, names: &Vec<String>) -> (r: Vec<usize>)
    ensures
        ints(r@) == places_of(names_view(columns@), names_view(names@)),
        forall|i: int| 0 <= i < r@.len() ==> (#[trigger] r@[i]) < columns@.len(),
{
    let ghost all = names_view(names@);
    let mut r: Vec<usize> = Vec::new();
    let mut i: usize = 0;
    assert(all.take(0).len() == 0);
    assert(ints(r@) =~= Seq::empty());
    while i < names.len()
        invariant
            i <= names.len(),
            all == names_view(names@),
            ints(r@) == places_of(names_view(columns@), all.take(i as int)),
            forall|i: int| 0 <= i < r@.len() ==> (#[trigger] r@[i]) < columns@.len(),
        decreases names.len() - i,
    {
        assert(all.take(i + 1).drop_last() =~= all.take(i as int));
        assert(all.take(i + 1).last() == names@[i as int]@);
        match find_index(columns, names[i].as_str()) {
            Some(k) => {
                let ghost before = r@;
                r.push(k);
                assert(ints(r@) =~= ints(before).push(k as int));
            },
            None => {},
        }
        i = i + 1;
    }
    assert(all.take(names.len() as int) =~= all);
    r
}

pub fn pick_values(row: &Vec<Value>, at: &Vec<usize>) -> (r: Vec<Value>)
    ensures
        values_view(r@) == picked(values_view(row@), ints(at@)),
        r@.len() == at@.len(),
{
    let ghost all = picked(values_view(row@), ints(at@));
    let mut r: Vec<Value> = Vec::new();
    let mut i: usize = 0;
    assert(values_view(r@) =~= all.take(0));
    while i < at.len()
        invariant
            i <= at.len(),
            r@.len() == i,
            all == picked(values_view(row@), ints(at@)),
            values_view(r@) == all.take(i as int),
        decreases at.len() - i,
    {
        let v = get_value(row, Some(at[i]));
        proof {
            values_push(r@, v);
            assert(all[i as int] == v@);
            assert(all.take(i + 1) =~= all.take(i as int).push(v@));
        }
        r.push(v);
        i = i + 1;
    }
    assert(all.take(at.len() as int) =~= all);
    r
}

pub open spec fn holds_null(v: Seq<ValueView>) -> bool {
    exists|i: int| 0 <= i < v.len() && #[trigger] v[i] is Null
}

pub fn has_null(v: &Vec<Value>) -> (r: bool)
    ensures
        r == holds_null(values_view(v@)),
{
    let ghost all = values_view(v@);
    let mut i: usize = 0;
    while i < v.len()
        invariant
            i <= v.len(),
            all == values_view(v@),
            forall|j: int| 0 <= j < i ==> !(#[trigger] all[j] is Null),
        decreases v.len() - i,
    {
        assert(all[i as int] == v@[i as int]@);
        if matches!(v[i], Value::Null) {
            assert(all[i as int] is Null);
            return true;
        }
        i = i + 1;
    }
    false
}

/// Whether a row holds the values `vals` at the places `at`.
pub open spec fn carries(row: Seq<ValueView>, at: Seq<int>, vals: Seq<ValueView>) -> bool {
    forall|k: int| 0 <= k < at.len() ==> k < vals.len() && value_at(row, Some(#[trigger] at[k])) == vals[k]
}

pub fn does_carry(row: &Vec<Value>, at: &Vec<usize>, vals: &Vec<Value>) -> (r: bool)
    ensures
        r == carries(values_view(row@), ints(at@), values_view(vals@)),
{
    let ghost rv = values_view(row@);
    let ghost av = ints(at@);
    let ghost vv = values_view(vals@);
    let mut k: usize = 0;
    while k < at.len()
        invariant
            k <= at.len(),
            rv == values_view(row@),
            av == ints(at@),
            vv == values_view(vals@),
            forall|j: int| 0 <= j < k ==> j < vv.len() && value_at(rv, Some(#[trigger] av[j])) == vv[j],
        decreases at.len() - k,
    {
        assert(av[k as int] == at@[k as int] as int);
        if k >= vals.len() {
            return false;
        }
        let v = get_value(row, Some(at[k]));
        assert(vv[k as int] == vals@[k as int]@);
        if !same_value(&v, &vals[k]) {
            return false;
        }
        k = k + 1;
    }
    true
}

pub open spec fn some_carries(rows: Seq<Seq<ValueView>>, at: Seq<int>, vals: Seq<ValueView>) -> bool {
    exists|j: int| 0 <= j < rows.len() && #[trigger] carries(rows[j], at, vals)
}

fn does_some_carry(rows: &Vec<Vec<Value>>, at: &Vec<usize>, vals: &Vec<Value>) -> (r: bool)
    ensures
        r == some_carries(rows_view(rows@), ints(at@), values_view(vals@)),
{
    let ghost rs = rows_view(rows@);
    let mut j: usize = 0;
    while j < rows.len()
        invariant
            j <= rows.len(),
            rs == rows_view(rows@),
            forall|k: int| 0 <= k < j ==> !#[trigger] carries(rs[k], ints(at@), values_view(vals@)),
        decreases rows.len() - j,
    {
        assert(rs[j as int] == values_view(rows@[j as int]@));
        if does_carry(&rows[j], at, vals) {
            return true;
        }
        j = j + 1;
    }
    false
}

/// What is said of a foreign key to a table that is not there, of a row that changes and of a new
/// one.
pub open spec fn unknown_parent(changes: bool, t: Seq<char>) -> Seq<char> {
    if changes {
        "FK references unknown table '"@ + t + "'"@
    } else {
        "Foreign key references unknown table '"@ + t + "'"@
    }
}

/// What a foreign key says of a row: nothing where a value of it is null; the table that it names
/// must be there, and a row of that table must carry its values.
pub open spec fn fk_clash(s: StoreView, columns: Seq<Seq<char>>, row: Seq<ValueView>, fk: ForeignKeyDefView, changes: bool) -> Option<ErrorView> {
    let vals = picked(row, places_of(columns, fk.columns));
    if holds_null(vals) {
        None
    } else {
        match table_index(s, fk.ref_table) {
            None => Some(run_error(unknown_parent(changes, fk.ref_table))),
            Some(p) => if some_carries(
                s.rows[p],
                places_of(column_names(s.tables[p].columns), fk.ref_columns),
                vals,
            ) {
                None
            } else {
                Some(ErrorView::Constraint(fk_missing_message(fk.ref_table)))
            },
        }
    }
}

/// What the first of the first `n` foreign keys says that is not met.
pub open spec fn fks_clash(s: StoreView, columns: Seq<Seq<char>>, row: Seq<ValueView>, fks: Seq<ForeignKeyDefView>, changes: bool, n: nat) -> Option<ErrorView>
    decreases n,
{
    if n == 0 {
        None
    } else {
        match fks_clash(s, columns, row, fks, changes, (n - 1) as nat) {
            Some(e) => Some(e),
            None => fk_clash(s, columns, row, fks[n - 1], changes),
        }
    }
}

pub fn list_column_names(c: &Vec<Column>) -> (r: Vec<String>)
    ensures
        names_view(r@) == column_names(columns_view(c@)),
        r@.len() == c@.len(),
{
    let ghost all = column_names(columns_view(c@));
    let mut r: Vec<String> = Vec::new();
    let mut i: usize = 0;
    assert(names_view(r@) =~= all.take(0));
    while i < c.len()
        invariant
            i <= c.len(),
            r@.len() == i,
            all == column_names(columns_view(c@)),
            all.len() == c@.len(),
            names_view(r@) == all.take(i as int),
        decreases c.len() - i,
    {
        let name = c[i].name.clone();
        proof {
            names_push(r@, name);
            assert(columns_view(c@)[i as int] == c@[i as int]@);
            assert(all[i as int] == name@);
            assert(all.take(i + 1) =~= all.take(i as int).push(name@));
        }
        r.push(name);
        i = i + 1;
    }
    assert(all.take(c.len() as int) =~= all);
    r
}

spec fn opt_error(e: Option<QueryError>) -> Option<ErrorView> {
    match e {
        Some(e) => Some(e@),
        None => None,
    }
}

fn find_fk_clash(s: &Store, columns: &Vec<String>, row: &Vec<Value>, fk: &ForeignKeyDef, changes: bool) -> (r: Option<QueryError>)
    requires
        s.wf(),
    ensures
        opt_error(r) == fk_clash(s@, names_view(columns@), values_view(row@), fk@, changes),
{
    proof {
        (*fk).unfold();
    }
    let at = find_places(columns, &fk.columns);
    let vals = pick_values(row, &at);
    if has_null(&vals) {
        return None;
    }
    match s.find(fk.ref_table.as_str()) {
        None => if changes {
            Some(QueryError::Execution(join3("FK references unknown table '", fk.ref_table.as_str(), "'")))
        } else {
            Some(QueryError::Execution(join3("Foreign key references unknown table '", fk.ref_table.as_str(), "'")))
        },
        Some(p) => {
            let cols = list_column_names(&s.tables[p].columns);
            let theirs = find_places(&cols, &fk.ref_columns);
            if does_some_carry(&s.sources[p].rel.rows, &theirs, &vals) {
                None
            } else {
                Some(QueryError::fk_violation(fk.ref_table.as_str()))
            }
        },
    }
}

fn find_fks_clash(s: &Store, columns: &Vec<String>, row: &Vec<Value>, fks: &Vec<ForeignKeyDef>, changes: bool) -> (r: Option<QueryError>)
    requires
        s.wf(),
    ensures
        opt_error(r) == fks_clash(
            s@,
            names_view(columns@),
            values_view(row@),
            foreign_key_defs_view(fks@),
            changes,
            foreign_key_defs_view(fks@).len(),
        ),
{
    let ghost all = foreign_key_defs_view(fks@);
    proof {
        broadcast use foreign_key_defs_len;

        assert(all.len() == fks@.len());
    }
    let mut i: usize = 0;
    let mut r: Option<QueryError> = None;
    while i < fks.len()
        invariant
            i <= fks.len(),
            s.wf(),
            all == foreign_key_defs_view(fks@),
            all.len() == fks@.len(),
            opt_error(r) == fks_clash(s@, names_view(columns@), values_view(row@), all, changes, i as nat),
        decreases fks.len() - i,
    {
        proof {
            broadcast use foreign_key_defs_at;

            assert(all[i as int] == fks@[i as int]@);
        }
        if r.is_none() {
            r = find_fk_clash(s, columns, row, &fks[i], changes);
        }
        i = i + 1;
    }
    r
}

pub open spec fn table_scope(t: TableView) -> NamesView {
    super::scope::bare(column_names(t.columns))
}

/// What is wrong with a row of table `i`, which stands under the key `own` where it is there
/// already. Of a row that changes, every broken condition counts as a failure to run.
pub open spec fn row_clash(env: Env, s: StoreView, i: int, row: Seq<ValueView>, own: Option<Seq<ValueView>>) -> Option<ErrorView> {
    let t = s.tables[i];
    let e = match unique_clash(t, s.rows[i], row, own, t.columns.len()) {
        Some(c) => Some(ErrorView::Constraint(unique_message(c))),
        None => if check_clash(env, table_scope(t), row, t.checks) {
            Some(ErrorView::Constraint(check_message(t.name)))
        } else {
            fks_clash(s, column_names(t.columns), row, t.fks, own is Some, t.fks.len())
        },
    };
    match e {
        Some(ErrorView::Constraint(text)) if own is Some => Some(run_error(text)),
        _ => e,
    }
}

/// Finds what is wrong with a row of table `i`.
pub fn find_row_clash<'a, U: Fn(Ask) -> Reply>(cx: &Reader<'a, U>, s: &Store, i: usize, row: &Vec<Value>, own: Option<&Vec<Value>>) -> (r: Option<QueryError>)
    requires
        cx.ready(),
        s.wf(),
        i < s.tables@.len(),
    ensures
        (match r { Some(e) => Some(e@), None => None }) == row_clash(cx.env(), s@, i as int, values_view(row@), opt_row(own)),
{
    let t = &s.tables[i];
    proof {
        assert(s@.tables[i as int] == t@);
        assert(super::rows::well_kept(rows_at_table(s@, i as int)));
    }
    let e = match find_unique_clash(t, &s.sources[i].rel.rows, row, own) {
        Some(c) => Some(QueryError::unique_violation(t.columns[c].name.as_str())),
        None => {
            let cols = list_column_names(&t.columns);
            let n = super::scope::bare_names(&cols);
            if has_check_clash(cx, &n, row, &t.checks) {
                Some(QueryError::check_violation(t.name.as_str()))
            } else {
                find_fks_clash(s, &cols, row, &t.fks, own.is_some())
            }
        },
    };
    match e {
        Some(QueryError::Constraint(text)) => if own.is_some() {
            Some(QueryError::Execution(text))
        } else {
            Some(QueryError::Constraint(text))
        },
        _ => e,
    }
}

/// Whether a row under another key than `own` agrees with `row` in all columns of an index.
pub open spec fn index_taken(keys: Seq<Seq<ValueView>>, rows: Seq<Seq<ValueView>>, at: Seq<int>, row: Seq<ValueView>, own: Option<Seq<ValueView>>) -> bool {
    !holds_null(picked(row, at)) && exists|j: int|
        0 <= j < rows.len() && #[trigger] carries(rows[j], at, picked(row, at)) && own != Some(keys[j])
}

/// Whether a row breaks one of the unique indexes.
pub open spec fn index_clash(t: TableView, rows: Seq<Seq<ValueView>>, row: Seq<ValueView>, own: Option<Seq<ValueView>>) -> bool {
    exists|i: int|
        0 <= i < t.indexes.len() && (#[trigger] t.indexes[i]).unique && index_taken(
            t.keys,
            rows,
            ints(t.indexes[i].columns),
            row,
            own,
        )
}

pub fn is_index_taken(keys: &Vec<Vec<Value>>, rows: &Vec<Vec<Value>>, at: &Vec<usize>, row: &Vec<Value>, own: Option<&Vec<Value>>) -> (r: bool)
    requires
        keys@.len() == rows@.len(),
    ensures
        r == index_taken(rows_view(keys@), rows_view(rows@), ints(at@), values_view(row@), opt_row(own)),
{
    let ghost ks = rows_view(keys@);
    let ghost rs = rows_view(rows@);
    let vals = pick_values(row, at);
    if has_null(&vals) {
        return false;
    }
    let mut j: usize = 0;
    while j < rows.len()
        invariant
            j <= rows.len(),
            keys@.len() == rows@.len(),
            ks == rows_view(keys@),
            rs == rows_view(rows@),
            values_view(vals@) == picked(values_view(row@), ints(at@)),
            !holds_null(values_view(vals@)),
            forall|k: int|
                0 <= k < j ==> !(#[trigger] carries(rs[k], ints(at@), values_view(vals@)) && opt_row(own) != Some(ks[k])),
        decreases rows.len() - j,
    {
        assert(rs[j as int] == values_view(rows@[j as int]@));
        assert(ks[j as int] == values_view(keys@[j as int]@));
        if does_carry(&rows[j], at, &vals) && !is_own(own, &keys[j]) {
            assert(carries(rs[j as int], ints(at@), values_view(vals@)) && opt_row(own) != Some(ks[j as int]));
            return true;
        }
        j = j + 1;
    }
    false
}

pub fn has_index_clash(t: &Table, rows: &Vec<Vec<Value>>, row: &Vec<Value>, own: Option<&Vec<Value>>) -> (r: bool)
    requires
        t.keys@.len() == rows@.len(),
    ensures
        r == index_clash(t@, rows_view(rows@), values_view(row@), opt_row(own)),
{
    let mut i: usize = 0;
    while i < t.indexes.len()
        invariant
            i <= t.indexes.len(),
            t.keys@.len() == rows@.len(),
            forall|k: int|
                0 <= k < i ==> !((#[trigger] t@.indexes[k]).unique && index_taken(
                    t@.keys,
                    rows_view(rows@),
                    ints(t@.indexes[k].columns),
                    values_view(row@),
                    opt_row(own),
                )),
        decreases t.indexes.len() - i,
    {
        assert(t@.indexes[i as int] == t.indexes@[i as int]@);
        if t.indexes[i].unique && is_index_taken(&t.keys, rows, &t.indexes[i].columns, row, own) {
            assert(t@.indexes[i as int].unique);
            return true;
        }
        i = i + 1;
    }
    false
}

} // verus!
