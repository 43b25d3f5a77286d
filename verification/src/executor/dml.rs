use vstd::prelude::*;
use vstd::string::*;
use crate::error::{ErrorView, QueryError, column_missing, not_null_message, run_error, table_missing};
use crate::parser::ast::{ConflictAction, ConflictActionView, Expr, ExprView, InsertSource, InsertSourceView, InsertStmt, InsertStmtView, OnConflict, OnConflictView, UpdateStmt, UpdateStmtView};
use crate::parser::ast::{assignments_at, assignments_len, assignments_view, exprs_at, exprs_len, exprs_view, value_rows_at, value_rows_len, value_rows_view};
use crate::text::join3;
use crate::value::{Value, ValueView, dup_values, names_view, rows_push, rows_view, values_view};
use super::constraints::{Run, Clerk, after_number, fill_row, filled, find_places, find_row_clash, has_index_clash, index_clash, ints, list_column_names, pick_values, places_of, row_clash, run_env, table_scope};
use super::eval::{Reader, eval, eval_predicate, eval_value, predicate};
use super::grouping::{opt_expr, picked};
use super::join::{nulls, resize_row, resized};
use super::rows::row_of;
use super::scope::{Env, Names, NamesView, Scope, ScopeView, bare, bare_names, find_index, index_of, scopes_view};
use super::select::{run_query, select_rel};
use super::store::{Store, StoreView, column_names, rows_at_table, sources_of, store_put, table_index, with_counters};
use super::table::{Column, ColumnView, columns_view};
use super::unit::{Ask, Reply, ask_write, write_refused};

verus! {

pub open spec fn no_scopes() -> Seq<ScopeView> {
    Seq::empty()
}

pub fn outside() -> (r: Vec<Scope>)
    ensures
        scopes_view(r@) == no_scopes(),
{
    let r: Vec<Scope> = Vec::new();
    assert(scopes_view(r@) =~= no_scopes());
    r
}

pub open spec fn opt_view(e: Option<QueryError>) -> Option<ErrorView> {
    match e {
        Some(e) => Some(e@),
        None => None,
    }
}

/// The places of the columns of the primary key.
pub open spec fn key_places(cols: Seq<ColumnView>) -> Seq<int>
    decreases cols.len(),
{
    if cols.len() == 0 {
        Seq::empty()
    } else if cols.last().primary_key {
        key_places(cols.drop_last()).push(cols.len() - 1)
    } else {
        key_places(cols.drop_last())
    }
}

pub fn find_key_places(cols: &Vec<Column>) -> (r: Vec<usize>)
    ensures
        ints(r@) == key_places(columns_view(cols@)),
{
    let ghost all = columns_view(cols@);
    let mut r: Vec<usize> = Vec::new();
    let mut i: usize = 0;
    assert(all.take(0).len() == 0);
    assert(ints(r@) =~= Seq::empty());
    while i < cols.len()
        invariant
            i <= cols.len(),
            all == columns_view(cols@),
            ints(r@) == key_places(all.take(i as int)),
        decreases cols.len() - i,
    {
        assert(all.take(i + 1).drop_last() =~= all.take(i as int));
        assert(all.take(i + 1).last() == cols@[i as int]@);
        if cols[i].primary_key {
            let ghost before = r@;
            r.push(i);
            assert(ints(r@) =~= ints(before).push(i as int));
        }
        i = i + 1;
    }
    assert(all.take(cols.len() as int) =~= all);
    r
}

/// A row with at least `n` values.
pub open spec fn widened(row: Seq<ValueView>, n: nat) -> Seq<ValueView> {
    if row.len() >= n {
        row
    } else {
        resized(row, n)
    }
}

fn widen(row: &Vec<Value>, n: usize) -> (r: Vec<Value>)
    ensures
        values_view(r@) == widened(values_view(row@), n as nat),
{
    if row.len() >= n {
        dup_values(row)
    } else {
        resize_row(row, n)
    }
}

/// A row after the assignments of an UPDATE, each of which sees what the ones before it did.
pub open spec fn assigned(env: Env, n: NamesView, row: Seq<ValueView>, a: Seq<(Seq<char>, ExprView)>) -> Seq<ValueView>
    decreases a.len(),
{
    if a.len() == 0 {
        widened(row, n.columns.len())
    } else {
        let r = assigned(env, n, row, a.drop_last());
        match index_of(n.columns, a.last().0) {
            Some(i) => if i < r.len() {
                r.update(i, eval(env, no_scopes(), n, r, a.last().1))
            } else {
                r
            },
            None => r,
        }
    }
}

fn assign<'a, U: Fn(Ask) -> Reply>(cx: &Reader<'a, U>, n: &Names, row: &Vec<Value>, a: &Vec<(String, Expr)>) -> (r: Vec<Value>)
    requires
        cx.ready(),
    ensures
        values_view(r@) == assigned(cx.env(), n@, values_view(row@), assignments_view(a@)),
{
    let ghost all = assignments_view(a@);
    let ghost rv = values_view(row@);
    let o = outside();
    let mut r = widen(row, n.columns.len());
    let mut i: usize = 0;
    proof {
        broadcast use assignments_len;

        assert(all.take(0).len() == 0);
        assert(n@.columns.len() == n.columns@.len());
    }
    while i < a.len()
        invariant
            i <= a.len(),
            cx.ready(),
            scopes_view(o@) == no_scopes(),
            rv == values_view(row@),
            all == assignments_view(a@),
            all.len() == a@.len(),
            values_view(r@) == assigned(cx.env(), n@, rv, all.take(i as int)),
        decreases a.len() - i,
    {
        proof {
            broadcast use assignments_at;

            assert(all[i as int] == (a@[i as int].0@, a@[i as int].1@));
            assert(all.take(i + 1).drop_last() =~= all.take(i as int));
            assert(all.take(i + 1).last() == all[i as int]);
        }
        match find_index(&n.columns, a[i].0.as_str()) {
            Some(k) => {
                if k < r.len() {
                    let v = eval_value(cx, &o, n, &r, &a[i].1);
                    let ghost before = r@;
                    r.set(k, v);
                    assert(values_view(r@) =~= values_view(before).update(k as int, v@));
                }
            },
            None => {},
        }
        i = i + 1;
    }
    assert(all.take(a.len() as int) =~= all);
    r
}

// ---- INSERT

/// What putting one row came to: the store after it, and the row that went in, nothing where it
/// was passed over, or an error.
pub struct Step {
    pub s: StoreView,
    pub r: Result<Option<Seq<ValueView>>, ErrorView>,
}

pub open spec fn duplicate_message(t: Seq<char>) -> Seq<char> {
    "duplicate key value violates primary key constraint on table '"@ + t + "'"@
}

pub open spec fn index_message() -> Seq<char> {
    "unique index violated"@
}

/// Puts a row of table `i` under its key; `oc` says what happens where the key is taken.
pub open spec fn placed(run: Run, s: StoreView, i: int, k: Seq<ValueView>, row: Seq<ValueView>, oc: Option<OnConflictView>) -> Step {
    let t = s.tables[i];
    match (row_of(rows_at_table(s, i), k), oc) {
        (Some(there), Some(c)) => match c.action {
            ConflictActionView::DoNothing => Step { s, r: Ok(None) },
            ConflictActionView::DoUpdate(a) => {
                let new = assigned(run_env(run, s), table_scope(t), there, a);
                if index_clash(t, s.rows[i], new, Some(k)) {
                    Step { s, r: Err(run_error(index_message())) }
                } else {
                    Step { s: store_put(s, i, k, new), r: Ok(Some(new)) }
                }
            },
        },
        (Some(_), None) => Step { s, r: Err(run_error(duplicate_message(t.name))) },
        (None, _) => if index_clash(t, s.rows[i], row, None) {
            Step { s, r: Err(run_error(index_message())) }
        } else {
            Step { s: store_put(s, i, k, row), r: Ok(Some(row)) }
        },
    }
}

/// Inserts one row into table `i`. The numbers that counting columns gave out stay given out,
/// whatever becomes of the row.
pub open spec fn insert_step(run: Run, s: StoreView, i: int, row: Seq<ValueView>, oc: Option<OnConflictView>) -> Step {
    let t = s.tables[i];
    let f = filled(run.m, t.columns, t.seqs, resized(row, t.columns.len()), t.columns.len());
    let s1 = with_counters(s, i, f.seqs, t.next_rowid);
    match f.err {
        Some(e) => Step { s: s1, r: Err(e) },
        None => match row_clash(run_env(run, s1), s1, i, f.row, None) {
            Some(e) => Step { s: s1, r: Err(e) },
            None => {
                let at = key_places(t.columns);
                if at.len() == 0 {
                    placed(
                        run,
                        with_counters(s1, i, f.seqs, after_number(t.next_rowid)),
                        i,
                        seq![ValueView::Int64(t.next_rowid)],
                        f.row,
                        oc,
                    )
                } else {
                    placed(run, s1, i, picked(f.row, at), f.row, oc)
                }
            },
        },
    }
}

/// What a statement that changes rows came to: the store after it, the rows that it inserted,
/// changed or deleted, and the error that stopped it.
pub struct Work {
    pub s: StoreView,
    pub rows: Seq<Seq<ValueView>>,
    pub err: Option<ErrorView>,
}

/// Inserts rows one after the other, up to the first that fails.
pub open spec fn inserted(run: Run, s: StoreView, i: int, rows: Seq<Seq<ValueView>>, oc: Option<OnConflictView>) -> Work
    decreases rows.len(),
{
    if rows.len() == 0 {
        Work { s, rows: Seq::empty(), err: None }
    } else {
        let w = inserted(run, s, i, rows.drop_last(), oc);
        if w.err is Some {
            w
        } else {
            let p = insert_step(run, w.s, i, rows.last(), oc);
            match p.r {
                Ok(Some(row)) => Work { s: p.s, rows: w.rows.push(row), err: None },
                Ok(None) => Work { s: p.s, rows: w.rows, err: None },
                Err(e) => Work { s: p.s, rows: w.rows, err: Some(e) },
            }
        }
    }
}

spec fn conflict_view(oc: Option<OnConflict>) -> Option<OnConflictView> {
    match oc {
        Some(c) => Some(c@),
        None => None,
    }
}

pub open spec fn step_view(r: crate::error::Result<Option<Vec<Value>>>) -> Result<Option<Seq<ValueView>>, ErrorView> {
    match r {
        Ok(Some(row)) => Ok(Some(values_view(row@))),
        Ok(None) => Ok(None),
        Err(e) => Err(e@),
    }
}

fn index_error() -> (r: QueryError)
    ensures
        r@ == run_error(index_message()),
{
    QueryError::Execution("unique index violated".to_string())
}

fn place_row<'a, U: Fn(Ask) -> Reply>(rn: &Clerk<'a, U>, s: &mut Store, i: usize, k: Vec<Value>, row: Vec<Value>, oc: &Option<OnConflict>) -> (r: crate::error::Result<Option<Vec<Value>>>)
    requires
        rn.ready(),
        old(s).wf(),
        i < old(s).tables@.len(),
    ensures
        final(s).wf(),
        final(s).tables@.len() == old(s).tables@.len(),
        ({
            let p = placed(rn.run(), old(s)@, i as int, values_view(k@), values_view(row@), conflict_view(*oc));
            final(s)@ == p.s && step_view(r) == p.r
        }),
{
    proof {
        assert(s@.tables[i as int] == s.tables@[i as int]@);
        assert(super::rows::well_kept(rows_at_table(s@, i as int)));
    }
    match s.get(i, &k) {
        Some(there) => match oc {
            None => Err(QueryError::Execution(join3("duplicate key value violates primary key constraint on table '", s.tables[i].name.as_str(), "'"))),
            Some(c) => {
                proof {
                    (*c).unfold();
                    c.action.unfold();
                }
                match &c.action {
                    ConflictAction::DoNothing => Ok(None),
                    ConflictAction::DoUpdate(a) => {
                        let cols = list_column_names(&s.tables[i].columns);
                        let n = bare_names(&cols);
                        let cx = Reader { u: rn.u, now: rn.now, counts: rn.counts, db: &s.sources, depth: rn.depth };
                        let new = assign(&cx, &n, &there, a);
                        if has_index_clash(&s.tables[i], &s.sources[i].rel.rows, &new, Some(&k)) {
                            return Err(index_error());
                        }
                        let out = dup_values(&new);
                        s.put(i, k, new);
                        Ok(Some(out))
                    },
                }
            },
        },
        None => {
            if has_index_clash(&s.tables[i], &s.sources[i].rel.rows, &row, None) {
                return Err(index_error());
            }
            let out = dup_values(&row);
            s.put(i, k, row);
            Ok(Some(out))
        },
    }
}

fn insert_row<'a, U: Fn(Ask) -> Reply>(rn: &Clerk<'a, U>, s: &mut Store, i: usize, row: &Vec<Value>, oc: &Option<OnConflict>) -> (r: crate::error::Result<Option<Vec<Value>>>)
    requires
        rn.ready(),
        old(s).wf(),
        i < old(s).tables@.len(),
    ensures
        final(s).wf(),
        final(s).tables@.len() == old(s).tables@.len(),
        ({
            let p = insert_step(rn.run(), old(s)@, i as int, values_view(row@), conflict_view(*oc));
            final(s)@ == p.s && step_view(r) == p.r
        }),
{
    let ghost s0 = s@;
    let ghost t = s0.tables[i as int];
    proof {
        assert(t == s.tables@[i as int]@);
        assert(t.seqs.len() == t.columns.len());
        assert(t.columns.len() == s.tables@[i as int].columns@.len());
    }
    let mut row = resize_row(row, s.tables[i].columns.len());
    let mut seqs = crate::text::copy_vec(&s.tables[i].seqs);
    let next: i64 = s.tables[i].next_rowid;
    let bad = fill_row(rn.u, &s.tables[i].columns, &mut seqs, &mut row);
    let kept = crate::text::copy_vec(&seqs);
    s.set_counters(i, seqs, next);
    proof {
        assert(s@.tables[i as int] == s.tables@[i as int]@);
    }
    match bad {
        Some(e) => {
            return Err(e);
        },
        None => {},
    }
    let cx = Reader { u: rn.u, now: rn.now, counts: rn.counts, db: &s.sources, depth: rn.depth };
    match find_row_clash(&cx, s, i, &row, None) {
        Some(e) => {
            return Err(e);
        },
        None => {},
    }
    let at = find_key_places(&s.tables[i].columns);
    proof {
        assert(ints(at@).len() == at@.len());
    }
    if at.len() == 0 {
        let after: i64 = if next == i64::MAX {
            next
        } else {
            next + 1
        };
        s.set_counters(i, kept, after);
        let mut k: Vec<Value> = Vec::new();
        k.push(Value::Int64(next));
        assert(values_view(k@) =~= seq![ValueView::Int64(next)]);
        place_row(rn, s, i, k, row, oc)
    } else {
        let k = pick_values(&row, &at);
        place_row(rn, s, i, k, row, oc)
    }
}

proof fn lemma_insert_stops(run: Run, s: StoreView, i: int, rows: Seq<Seq<ValueView>>, oc: Option<OnConflictView>, n: int)
    requires
        0 <= n <= rows.len(),
        inserted(run, s, i, rows.take(n), oc).err is Some,
    ensures
        inserted(run, s, i, rows, oc) == inserted(run, s, i, rows.take(n), oc),
    decreases rows.len() - n,
{
    if n < rows.len() {
        assert(rows.take(n + 1).drop_last() =~= rows.take(n));
        lemma_insert_stops(run, s, i, rows, oc, n + 1);
    } else {
        assert(rows.take(n) =~= rows);
    }
}

fn insert_rows<'a, U: Fn(Ask) -> Reply>(rn: &Clerk<'a, U>, s: &mut Store, i: usize, rows: &Vec<Vec<Value>>, oc: &Option<OnConflict>) -> (r: (Vec<Vec<Value>>, Option<QueryError>))
    requires
        rn.ready(),
        old(s).wf(),
        i < old(s).tables@.len(),
    ensures
        final(s).wf(),
        final(s).tables@.len() == old(s).tables@.len(),
        inserted(rn.run(), old(s)@, i as int, rows_view(rows@), conflict_view(*oc)) == (Work {
            s: final(s)@,
            rows: rows_view(r.0@),
            err: opt_view(r.1),
        }),
{
    let ghost all = rows_view(rows@);
    let ghost s0 = s@;
    let ghost ov = conflict_view(*oc);
    let mut out: Vec<Vec<Value>> = Vec::new();
    let mut j: usize = 0;
    assert(all.take(0).len() == 0);
    assert(rows_view(out@) =~= Seq::empty());
    while j < rows.len()
        invariant
            j <= rows.len(),
            rn.ready(),
            s.wf(),
            i < s.tables@.len(),
            s.tables@.len() == old(s).tables@.len(),
            all == rows_view(rows@),
            s0 == old(s)@,
            ov == conflict_view(*oc),
            inserted(rn.run(), s0, i as int, all.take(j as int), ov) == (Work { s: s@, rows: rows_view(out@), err: None }),
        decreases rows.len() - j,
    {
        proof {
            assert(all.take(j + 1).drop_last() =~= all.take(j as int));
            assert(all.take(j + 1).last() == values_view(rows@[j as int]@));
        }
        match insert_row(rn, s, i, &rows[j], oc) {
            Ok(Some(row)) => {
                proof {
                    rows_push(out@, row);
                }
                out.push(row);
            },
            Ok(None) => {},
            Err(e) => {
                proof {
                    lemma_insert_stops(rn.run(), s0, i as int, all, ov, j + 1);
                }
                return (out, Some(e));
            },
        }
        j = j + 1;
    }
    assert(all.take(rows.len() as int) =~= all);
    (out, None)
}

/// The value that an INSERT gives for column `i`.
pub open spec fn given_value(env: Env, cols: Seq<ColumnView>, i: int, e: ExprView) -> ValueView {
    match e {
        ExprView::Default => match cols[i].default {
            Some(d) => d,
            None => ValueView::Null,
        },
        _ => eval(env, no_scopes(), bare(Seq::empty()), Seq::empty(), e),
    }
}

/// The row that a list of VALUES writes down: its first `n` expressions go to the places `at`.
pub open spec fn given_row(env: Env, cols: Seq<ColumnView>, at: Seq<int>, es: Seq<ExprView>, n: nat) -> Seq<ValueView>
    decreases n,
{
    if n == 0 {
        nulls(cols.len())
    } else {
        let r = given_row(env, cols, at, es, (n - 1) as nat);
        if n - 1 < at.len() {
            r.update(at[n - 1], given_value(env, cols, at[n - 1], es[n - 1]))
        } else {
            r
        }
    }
}

pub open spec fn given_rows(env: Env, cols: Seq<ColumnView>, at: Seq<int>, rows: Seq<Seq<ExprView>>) -> Seq<Seq<ValueView>> {
    Seq::new(rows.len(), |i: int| given_row(env, cols, at, rows[i], rows[i].len()))
}

pub open spec fn from_zero(n: nat) -> Seq<int> {
    Seq::new(n, |i: int| i)
}

/// The places that an INSERT fills: those of the columns that it names, which must all be there.
pub open spec fn target_places(cols: Seq<ColumnView>, names: Option<Seq<Seq<char>>>) -> Option<Seq<int>> {
    match names {
        None => Some(from_zero(cols.len())),
        Some(names) => {
            let at = places_of(column_names(cols), names);
            if at.len() == names.len() {
                Some(at)
            } else {
                None
            }
        },
    }
}

/// The first of some names that no column has.
pub open spec fn first_missing(columns: Seq<Seq<char>>, names: Seq<Seq<char>>) -> Seq<char>
    decreases names.len(),
{
    if names.len() == 0 {
        Seq::empty()
    } else if index_of(columns, names[0]) is None {
        names[0]
    } else {
        first_missing(columns, names.skip(1))
    }
}

fn find_first_missing(columns: &Vec<String>, names: &Vec<String>) -> (r: String)
    ensures
        r@ == first_missing(names_view(columns@), names_view(names@)),
{
    let ghost all = names_view(names@);
    let mut i: usize = 0;
    assert(all.skip(0) =~= all);
    while i < names.len()
        invariant
            i <= names.len(),
            all == names_view(names@),
            first_missing(names_view(columns@), all) == first_missing(names_view(columns@), all.skip(i as int)),
        decreases names.len() - i,
    {
        assert(all.skip(i as int)[0] == names@[i as int]@);
        assert(all.skip(i as int).skip(1) =~= all.skip(i + 1));
        if find_index(columns, names[i].as_str()).is_none() {
            return names[i].clone();
        }
        i = i + 1;
    }
    String::new()
}

fn find_target_places(cols: &Vec<Column>, names: &Option<Vec<String>>) -> (r: Option<Vec<usize>>)
    ensures
        (match r { Some(at) => Some(ints(at@)), None => None }) == target_places(
            columns_view(cols@),
            match *names { Some(n) => Some(names_view(n@)), None => None },
        ),
        r matches Some(at) ==> forall|k: int| 0 <= k < at@.len() ==> (#[trigger] at@[k]) < cols@.len(),
{
    match names {
        None => {
            let at = super::sort::count_up(cols.len());
            assert(ints(at@) =~= from_zero(columns_view(cols@).len()));
            Some(at)
        },
        Some(names) => {
            let all = list_column_names(cols);
            let at = find_places(&all, names);
            assert(ints(at@).len() == at@.len());
            if at.len() == names.len() {
                Some(at)
            } else {
                None
            }
        },
    }
}

fn give_value<'a, U: Fn(Ask) -> Reply>(cx: &Reader<'a, U>, c: &Column, e: &Expr, Ghost(cols): Ghost<Seq<ColumnView>>, Ghost(i): Ghost<int>) -> (r: Value)
    requires
        cx.ready(),
        cols[i] == c@,
    ensures
        r@ == given_value(cx.env(), cols, i, e@),
{
    proof {
        (*e).unfold();
    }
    match e {
        Expr::Default => match &c.default {
            Some(d) => d.dup(),
            None => Value::Null,
        },
        _ => {
            let none: Vec<String> = Vec::new();
            let row: Vec<Value> = Vec::new();
            assert(names_view(none@) =~= Seq::empty());
            assert(values_view(row@) =~= Seq::empty());
            let n = bare_names(&none);
            let o = outside();
            eval_value(cx, &o, &n, &row, e)
        },
    }
}

fn give_row<'a, U: Fn(Ask) -> Reply>(cx: &Reader<'a, U>, cols: &Vec<Column>, at: &Vec<usize>, es: &Vec<Expr>) -> (r: Vec<Value>)
    requires
        cx.ready(),
        forall|k: int| 0 <= k < at@.len() ==> (#[trigger] at@[k]) < cols@.len(),
    ensures
        values_view(r@) == given_row(cx.env(), columns_view(cols@), ints(at@), exprs_view(es@), exprs_view(es@).len()),
{
    let ghost cv = columns_view(cols@);
    let ghost av = ints(at@);
    let ghost ev = exprs_view(es@);
    let none: Vec<Value> = Vec::new();
    let mut r = resize_row(&none, cols.len());
    proof {
        broadcast use exprs_len;

        assert(ev.len() == es@.len());
        assert(values_view(r@) =~= nulls(cv.len()));
    }
    let mut i: usize = 0;
    while i < es.len()
        invariant
            i <= es.len(),
            cx.ready(),
            forall|k: int| 0 <= k < at@.len() ==> (#[trigger] at@[k]) < cols@.len(),
            r@.len() == cols@.len(),
            cv == columns_view(cols@),
            av == ints(at@),
            ev == exprs_view(es@),
            ev.len() == es@.len(),
            values_view(r@) == given_row(cx.env(), cv, av, ev, i as nat),
        decreases es.len() - i,
    {
        proof {
            broadcast use exprs_at;

            assert(ev[i as int] == es@[i as int]@);
        }
        if i < at.len() {
            let k: usize = at[i];
            assert(cv[k as int] == cols@[k as int]@);
            assert(av[i as int] == k as int);
            let v = give_value(cx, &cols[k], &es[i], Ghost(cv), Ghost(k as int));
            let ghost before = r@;
            r.set(k, v);
            assert(values_view(r@) =~= values_view(before).update(k as int, v@));
        }
        i = i + 1;
    }
    r
}

fn give_rows<'a, U: Fn(Ask) -> Reply>(cx: &Reader<'a, U>, cols: &Vec<Column>, at: &Vec<usize>, rows: &Vec<Vec<Expr>>) -> (r: Vec<Vec<Value>>)
    requires
        cx.ready(),
        forall|k: int| 0 <= k < at@.len() ==> (#[trigger] at@[k]) < cols@.len(),
    ensures
        rows_view(r@) == given_rows(cx.env(), columns_view(cols@), ints(at@), value_rows_view(rows@)),
{
    let ghost all = given_rows(cx.env(), columns_view(cols@), ints(at@), value_rows_view(rows@));
    let mut r: Vec<Vec<Value>> = Vec::new();
    let mut i: usize = 0;
    proof {
        broadcast use value_rows_len;

        assert(all.len() == rows@.len());
        assert(rows_view(r@) =~= all.take(0));
    }
    while i < rows.len()
        invariant
            i <= rows.len(),
            cx.ready(),
            forall|k: int| 0 <= k < at@.len() ==> (#[trigger] at@[k]) < cols@.len(),
            all == given_rows(cx.env(), columns_view(cols@), ints(at@), value_rows_view(rows@)),
            all.len() == rows@.len(),
            rows_view(r@) == all.take(i as int),
        decreases rows.len() - i,
    {
        let row = give_row(cx, cols, at, &rows[i]);
        proof {
            broadcast use {value_rows_at, value_rows_len};

            assert(value_rows_view(rows@)[i as int] == exprs_view(rows@[i as int]@));
            rows_push(r@, row);
            assert(all[i as int] == values_view(row@));
            assert(all.take(i + 1) =~= all.take(i as int).push(values_view(row@)));
        }
        r.push(row);
        i = i + 1;
    }
    assert(all.take(rows.len() as int) =~= all);
    r
}

/// The rows that an INSERT brings; the table must be there for a list of VALUES.
pub open spec fn source_rows(run: Run, s: StoreView, v: StoreView, q: InsertStmtView) -> Result<Seq<Seq<ValueView>>, ErrorView> {
    match q.source {
        InsertSourceView::Values(values) => match table_index(s, q.table) {
            None => Err(run_error(table_missing(q.table))),
            Some(i) => match target_places(s.tables[i].columns, q.columns) {
                None => Err(run_error(column_missing(first_missing(column_names(s.tables[i].columns), q.columns->0)))),
                Some(at) => Ok(given_rows(run_env(run, v), s.tables[i].columns, at, values)),
            },
        },
        InsertSourceView::Select(q) => match select_rel(run.m, run.known, sources_of(v), no_scopes(), q, run.depth) {
            Ok(rel) => Ok(rel.rows),
            Err(e) => Err(e),
        },
    }
}

/// INSERT: what is inserted is read from `v`.
pub open spec fn insert_work(run: Run, s: StoreView, v: StoreView, q: InsertStmtView) -> Work {
    match source_rows(run, s, v, q) {
        Err(e) => Work { s, rows: Seq::empty(), err: Some(e) },
        Ok(rows) => match table_index(s, q.table) {
            None => Work { s, rows: Seq::empty(), err: Some(run_error(table_missing(q.table))) },
            Some(i) => inserted(run, s, i, rows, q.on_conflict),
        },
    }
}

pub fn no_rows() -> (r: Vec<Vec<Value>>)
    ensures
        rows_view(r@) == Seq::<Seq<ValueView>>::empty(),
{
    let r: Vec<Vec<Value>> = Vec::new();
    assert(rows_view(r@) =~= Seq::empty());
    r
}

/// Runs an INSERT: the rows that went in, and the error that stopped it.
pub fn exec_insert<'a, U: Fn(Ask) -> Reply>(rn: &Clerk<'a, U>, s: &mut Store, v: &Option<Store>, q: &InsertStmt) -> (r: (Vec<Vec<Value>>, Option<QueryError>))
    requires
        rn.ready(),
        old(s).wf(),
        (*v) matches Some(v) ==> v.wf(),
    ensures
        final(s).wf(),
        insert_work(rn.run(), old(s)@, walked(old(s)@, *v), q@) == (Work { s: final(s)@, rows: rows_view(r.0@), err: opt_view(r.1) }),
{
    proof {
        (*q).unfold();
        q.source.unfold();
    }
    let db = match v {
        Some(v) => &v.sources,
        None => &s.sources,
    };
    let rows = match &q.source {
        InsertSource::Values(values) => {
            match s.find(q.table.as_str()) {
                None => {
                    return (no_rows(), Some(QueryError::no_table(q.table.as_str())));
                },
                Some(i) => {
                    let cx = Reader { u: rn.u, now: rn.now, counts: rn.counts, db, depth: rn.depth };
                    assert(s@.tables[i as int] == s.tables@[i as int]@);
                    match find_target_places(&s.tables[i].columns, &q.columns) {
                        None => {
                            let all = list_column_names(&s.tables[i].columns);
                            return match &q.columns {
                                Some(names) => {
                                    let c = find_first_missing(&all, names);
                                    (no_rows(), Some(QueryError::no_column(c.as_str())))
                                },
                                None => (no_rows(), Some(QueryError::no_column(""))),
                            };
                        },
                        Some(at) => give_rows(&cx, &s.tables[i].columns, &at, values),
                    }
                },
            }
        },
        InsertSource::Select(inner) => {
            let cx = Reader { u: rn.u, now: rn.now, counts: rn.counts, db, depth: rn.depth };
            let o = outside();
            match run_query(&cx, &o, inner) {
                Ok(rel) => rel.rows,
                Err(e) => {
                    return (no_rows(), Some(e));
                },
            }
        },
    };
    match s.find(q.table.as_str()) {
        None => (no_rows(), Some(QueryError::no_table(q.table.as_str()))),
        Some(i) => insert_rows(rn, s, i, &rows, &q.on_conflict),
    }
}

// ---- UPDATE

/// The first of the first `n` columns that must not be null and is.
pub open spec fn null_clash(cols: Seq<ColumnView>, row: Seq<ValueView>, n: nat) -> Option<Seq<char>>
    decreases n,
{
    if n == 0 {
        None
    } else {
        match null_clash(cols, row, (n - 1) as nat) {
            Some(c) => Some(c),
            None => if !cols[n - 1].nullable && n - 1 < row.len() && row[n - 1] is Null {
                Some(cols[n - 1].name)
            } else {
                None
            },
        }
    }
}

fn find_null_clash(cols: &Vec<Column>, row: &Vec<Value>) -> (r: Option<usize>)
    ensures
        (match r { Some(i) => Some(columns_view(cols@)[i as int].name), None => None }) == null_clash(
            columns_view(cols@),
            values_view(row@),
            columns_view(cols@).len(),
        ),
        r matches Some(i) ==> i < cols@.len(),
{
    let ghost cv = columns_view(cols@);
    let ghost rv = values_view(row@);
    let mut r: Option<usize> = None;
    let mut i: usize = 0;
    while i < cols.len()
        invariant
            i <= cols.len(),
            cv == columns_view(cols@),
            rv == values_view(row@),
            (match r { Some(k) => Some(cv[k as int].name), None => None }) == null_clash(cv, rv, i as nat),
            r matches Some(k) ==> k < cols@.len(),
        decreases cols.len() - i,
    {
        assert(cv[i as int] == cols@[i as int]@);
        if r.is_none() && !cols[i].nullable && i < row.len() {
            assert(rv[i as int] == row@[i as int]@);
            if matches!(row[i], Value::Null) {
                r = Some(i);
            }
        }
        i = i + 1;
    }
    r
}

/// Whether a row is one that a statement is about.
pub open spec fn concerned(env: Env, n: NamesView, row: Seq<ValueView>, filter: Option<ExprView>) -> bool {
    match filter {
        Some(e) => predicate(env, no_scopes(), n, row, e),
        None => true,
    }
}

/// Changes the row under the key `k` of table `i`, which keeps its key. The error names what is
/// wrong with the new row, or why the transaction may not change the old one.
pub open spec fn update_step(run: Run, txn: Option<u64>, s: StoreView, i: int, k: Seq<ValueView>, row: Seq<ValueView>, a: Seq<(Seq<char>, ExprView)>) -> Step {
    let t = s.tables[i];
    let new = assigned(run_env(run, s), table_scope(t), row, a);
    match null_clash(t.columns, new, t.columns.len()) {
        Some(c) => Step { s, r: Err(ErrorView::Constraint(not_null_message(c))) },
        None => match row_clash(run_env(run, s), s, i, new, Some(k)) {
            Some(e) => Step { s, r: Err(e) },
            None => match write_refused(run.m, txn, t.name, k) {
                Some(why) => Step { s, r: Err(ErrorView::Core(why)) },
                None => if index_clash(t, s.rows[i], new, Some(k)) {
                    Step { s, r: Err(run_error(index_message())) }
                } else {
                    Step { s: store_put(s, i, k, new), r: Ok(Some(new)) }
                },
            },
        },
    }
}

/// Changes the row under the key `k` of table `i` if it meets the condition.
pub open spec fn change_step(
    run: Run,
    txn: Option<u64>,
    s: StoreView,
    i: int,
    k: Seq<ValueView>,
    row: Seq<ValueView>,
    a: Seq<(Seq<char>, ExprView)>,
    filter: Option<ExprView>,
) -> Step {
    if concerned(run_env(run, s), table_scope(s.tables[i]), row, filter) {
        update_step(run, txn, s, i, k, row, a)
    } else {
        Step { s, r: Ok(None) }
    }
}

/// Changes the rows that meet the condition, of those that stood under `keys` at the start.
pub open spec fn updated(
    run: Run,
    txn: Option<u64>,
    s: StoreView,
    i: int,
    keys: Seq<Seq<ValueView>>,
    rows: Seq<Seq<ValueView>>,
    a: Seq<(Seq<char>, ExprView)>,
    filter: Option<ExprView>,
) -> Work
    decreases rows.len(),
{
    if rows.len() == 0 {
        Work { s, rows: Seq::empty(), err: None }
    } else {
        let w = updated(run, txn, s, i, keys, rows.drop_last(), a, filter);
        if w.err is Some {
            w
        } else {
            let p = change_step(run, txn, w.s, i, keys[rows.len() - 1], rows.last(), a, filter);
            match p.r {
                Ok(Some(row)) => Work { s: p.s, rows: w.rows.push(row), err: None },
                Ok(None) => Work { s: p.s, rows: w.rows, err: None },
                Err(e) => Work { s: p.s, rows: w.rows, err: Some(e) },
            }
        }
    }
}

/// What a statement goes through: the rows that it sees where they are given, else those of the store.
pub open spec fn walked(s: StoreView, v: Option<Store>) -> StoreView {
    match v {
        Some(v) => v@,
        None => s,
    }
}

/// UPDATE: the rows of `v` are gone through, and those of `s` changed.
pub open spec fn update_work(run: Run, txn: Option<u64>, s: StoreView, v: StoreView, q: UpdateStmtView) -> Work {
    match table_index(s, q.table) {
        None => Work { s, rows: Seq::empty(), err: Some(run_error(table_missing(q.table))) },
        Some(i) => updated(run, txn, s, i, v.tables[i].keys, v.rows[i], q.assignments, q.where_clause),
    }
}

proof fn lemma_update_stops(
    run: Run,
    txn: Option<u64>,
    s: StoreView,
    i: int,
    keys: Seq<Seq<ValueView>>,
    rows: Seq<Seq<ValueView>>,
    a: Seq<(Seq<char>, ExprView)>,
    filter: Option<ExprView>,
    n: int,
)
    requires
        0 <= n <= rows.len(),
        updated(run, txn, s, i, keys, rows.take(n), a, filter).err is Some,
    ensures
        updated(run, txn, s, i, keys, rows, a, filter) == updated(run, txn, s, i, keys, rows.take(n), a, filter),
    decreases rows.len() - n,
{
    if n < rows.len() {
        assert(rows.take(n + 1).drop_last() =~= rows.take(n));
        lemma_update_stops(run, txn, s, i, keys, rows, a, filter, n + 1);
    } else {
        assert(rows.take(n) =~= rows);
    }
}

pub fn is_concerned<'a, U: Fn(Ask) -> Reply>(cx: &Reader<'a, U>, n: &Names, row: &Vec<Value>, filter: &Option<Expr>) -> (r: bool)
    requires
        cx.ready(),
    ensures
        r == concerned(cx.env(), n@, values_view(row@), opt_expr(*filter)),
{
    match filter {
        Some(e) => {
            let o = outside();
            eval_predicate(cx, &o, n, row, e)
        },
        None => true,
    }
}

fn update_row<'a, U: Fn(Ask) -> Reply>(rn: &Clerk<'a, U>, txn: Option<u64>, s: &mut Store, i: usize, k: &Vec<Value>, row: &Vec<Value>, a: &Vec<(String, Expr)>) -> (r: crate::error::Result<Option<Vec<Value>>>)
    requires
        rn.ready(),
        old(s).wf(),
        i < old(s).tables@.len(),
    ensures
        final(s).wf(),
        final(s).tables@.len() == old(s).tables@.len(),
        ({
            let p = update_step(rn.run(), txn, old(s)@, i as int, values_view(k@), values_view(row@), assignments_view(a@));
            final(s)@ == p.s && step_view(r) == p.r
        }),
{
    proof {
        assert(s@.tables[i as int] == s.tables@[i as int]@);
        assert(super::rows::well_kept(rows_at_table(s@, i as int)));
    }
    let cols = list_column_names(&s.tables[i].columns);
    let n = bare_names(&cols);
    let cx = Reader { u: rn.u, now: rn.now, counts: rn.counts, db: &s.sources, depth: rn.depth };
    let new = assign(&cx, &n, row, a);
    match find_null_clash(&s.tables[i].columns, &new) {
        Some(c) => {
            assert(columns_view(s.tables@[i as int].columns@)[c as int] == s.tables@[i as int].columns@[c as int]@);
            return Err(QueryError::not_null_violation(s.tables[i].columns[c].name.as_str()));
        },
        None => {},
    }
    match find_row_clash(&cx, s, i, &new, Some(k)) {
        Some(e) => {
            return Err(e);
        },
        None => {},
    }
    match ask_write(rn.u, txn, s.tables[i].name.as_str(), k) {
        Some(why) => {
            return Err(QueryError::Core(why));
        },
        None => {},
    }
    if has_index_clash(&s.tables[i], &s.sources[i].rel.rows, &new, Some(k)) {
        return Err(index_error());
    }
    let out = dup_values(&new);
    s.put(i, dup_values(k), new);
    Ok(Some(out))
}

pub fn change_row<'a, U: Fn(Ask) -> Reply>(
    rn: &Clerk<'a, U>,
    txn: Option<u64>,
    s: &mut Store,
    i: usize,
    k: &Vec<Value>,
    row: &Vec<Value>,
    a: &Vec<(String, Expr)>,
    filter: &Option<Expr>,
) -> (r: crate::error::Result<Option<Vec<Value>>>)
    requires
        rn.ready(),
        old(s).wf(),
        i < old(s).tables@.len(),
    ensures
        final(s).wf(),
        final(s).tables@.len() == old(s).tables@.len(),
        ({
            let p = change_step(
                rn.run(),
            txn,
                old(s)@,
                i as int,
                values_view(k@),
                values_view(row@),
                assignments_view(a@),
                opt_expr(*filter),
            );
            final(s)@ == p.s && step_view(r) == p.r
        }),
{
    assert(s@.tables[i as int] == s.tables@[i as int]@);
    let cols = list_column_names(&s.tables[i].columns);
    let n = bare_names(&cols);
    let cx = Reader { u: rn.u, now: rn.now, counts: rn.counts, db: &s.sources, depth: rn.depth };
    if is_concerned(&cx, &n, row, filter) {
        update_row(rn, txn, s, i, k, row, a)
    } else {
        Ok(None)
    }
}

fn update_rows<'a, U: Fn(Ask) -> Reply>(
    rn: &Clerk<'a, U>,
    txn: Option<u64>,
    s: &mut Store,
    i: usize,
    keys: &Vec<Vec<Value>>,
    rows: &Vec<Vec<Value>>,
    a: &Vec<(String, Expr)>,
    filter: &Option<Expr>,
) -> (r: (Vec<Vec<Value>>, Option<QueryError>))
    requires
        rn.ready(),
        old(s).wf(),
        i < old(s).tables@.len(),
        keys@.len() == rows@.len(),
    ensures
        final(s).wf(),
        updated(
            rn.run(),
            txn,
            old(s)@,
            i as int,
            rows_view(keys@),
            rows_view(rows@),
            assignments_view(a@),
            opt_expr(*filter),
        ) == (Work { s: final(s)@, rows: rows_view(r.0@), err: opt_view(r.1) }),
{
    let ghost s0 = s@;
    let ghost kv = rows_view(keys@);
    let ghost all = rows_view(rows@);
    let ghost av = assignments_view(a@);
    let ghost fv = opt_expr(*filter);
    let mut out = no_rows();
    let mut j: usize = 0;
    assert(all.take(0).len() == 0);
    while j < rows.len()
        invariant
            j <= rows.len(),
            rn.ready(),
            s.wf(),
            i < s.tables@.len(),
            keys@.len() == rows@.len(),
            s0 == old(s)@,
            kv == rows_view(keys@),
            all == rows_view(rows@),
            av == assignments_view(a@),
            fv == opt_expr(*filter),
            updated(rn.run(), txn, s0, i as int, kv, all.take(j as int), av, fv) == (Work {
                s: s@,
                rows: rows_view(out@),
                err: None,
            }),
        decreases rows.len() - j,
    {
        proof {
            assert(all.take(j + 1).drop_last() =~= all.take(j as int));
            assert(all.take(j + 1).last() == values_view(rows@[j as int]@));
            assert(kv[j as int] == values_view(keys@[j as int]@));
        }
        match change_row(rn, txn, s, i, &keys[j], &rows[j], a, filter) {
            Ok(Some(row)) => {
                proof {
                    rows_push(out@, row);
                }
                out.push(row);
            },
            Ok(None) => {},
            Err(e) => {
                proof {
                    lemma_update_stops(rn.run(), txn, s0, i as int, kv, all, av, fv, j + 1);
                }
                return (out, Some(e));
            },
        }
        j = j + 1;
    }
    assert(all.take(rows.len() as int) =~= all);
    (out, None)
}

/// Runs an UPDATE: the rows as they became, and the error that stopped it.
pub fn exec_update<'a, U: Fn(Ask) -> Reply>(rn: &Clerk<'a, U>, txn: Option<u64>, s: &mut Store, v: &Option<Store>, q: &UpdateStmt) -> (r: (
    Vec<Vec<Value>>,
    Option<QueryError>,
))
    requires
        rn.ready(),
        old(s).wf(),
        (*v) matches Some(v) ==> v.wf() && v.tables@.len() == old(s).tables@.len(),
    ensures
        final(s).wf(),
        update_work(rn.run(), txn, old(s)@, walked(old(s)@, *v), q@) == (Work { s: final(s)@, rows: rows_view(r.0@), err: opt_view(r.1) }),
{
    proof {
        (*q).unfold();
    }
    match s.find(q.table.as_str()) {
        None => (no_rows(), Some(QueryError::no_table(q.table.as_str()))),
        Some(i) => {
            let (keys, rows) = match v {
                Some(v) => v.copy_rows(i),
                None => s.copy_rows(i),
            };
            update_rows(rn, txn, s, i, &keys, &rows, &q.assignments, &q.where_clause)
        },
    }
}

} // verus!
