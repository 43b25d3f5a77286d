use vstd::prelude::*;
use crate::parser::ast::{DeleteStmt, DeleteStmtView, Expr, ExprView, InsertStmt, InsertStmtView, UpdateStmt, UpdateStmtView, assignments_view};
use crate::value::{Value, ValueView, dup_values, rows_view, values_view};
use super::constraints::{Run, Clerk, list_column_names, run_env, table_scope};
use super::delete::{Doomed, doom_row, doom_step, doomed, doomed_view};
use super::dml::{change_row, change_step, concerned, exec_insert, insert_work, is_concerned, no_rows, updated, walked};
use super::eval::Reader;
use super::grouping::opt_expr;
use super::marks::{Mark, MarkView, asked_key, find_asked_key, join_marks, mark_scan, marks_push, marks_view, no_marks, scan_marks};
use super::meter::{asks_key, try_pk_lookup};
use super::scope::bare_names;
use super::store::{Store, StoreView, table_index};
use super::table::{Change, ChangeView, changes_view};
use super::unit::{Ask, Reply, Unit};

verus! {

/// How a statement comes to the rows that it changes: by the key that its condition asks for, or by
/// going through the table.
pub open spec fn approach(m: Unit, s: StoreView, i: int, table: Seq<char>, filter: Option<ExprView>) -> Seq<MarkView> {
    if asks_key(s.tables[i].columns, filter) {
        seq![MarkView::Read { table, key: asked_key(m, filter) }]
    } else {
        scan_marks(table, Seq::empty())
    }
}

fn mark_approach<U: Fn(Ask) -> Reply>(u: &U, s: &Store, i: usize, table: &str, filter: &Option<Expr>) -> (r: Vec<Mark>)
    requires
        super::unit::is_unit(u),
        s.wf(),
        i < s.tables@.len(),
    ensures
        marks_view(r@) == approach(super::unit::model(u), s@, i as int, table@, opt_expr(*filter)),
{
    assert(s@.tables[i as int] == s.tables@[i as int]@);
    if try_pk_lookup(&s.tables[i].columns, filter) {
        let mut r = no_marks();
        let m = Mark::Read { table: table.to_string(), key: find_asked_key(u, filter) };
        proof {
            marks_push(r@, m);
        }
        r.push(m);
        assert(marks_view(r@) =~= seq![m@]);
        r
    } else {
        let none = no_rows();
        mark_scan(table, none)
    }
}

/// What changing a row came to.
pub open spec fn row_marks(table: Seq<char>, k: Seq<ValueView>, wrote: bool) -> Seq<MarkView> {
    if wrote {
        seq![MarkView::Read { table, key: k }, MarkView::Write { table, key: k }]
    } else {
        seq![MarkView::Read { table, key: k }]
    }
}

fn mark_row(marks: &mut Vec<Mark>, table: &str, k: &Vec<Value>, wrote: bool)
    ensures
        marks_view(final(marks)@) == marks_view(old(marks)@) + row_marks(table@, values_view(k@), wrote),
{
    let ghost start = marks_view(marks@);
    let m = Mark::Read { table: table.to_string(), key: dup_values(k) };
    proof {
        marks_push(marks@, m);
    }
    marks.push(m);
    if wrote {
        let w = Mark::Write { table: table.to_string(), key: dup_values(k) };
        proof {
            marks_push(marks@, w);
        }
        marks.push(w);
    }
    assert(marks_view(marks@) =~= start + row_marks(table@, values_view(k@), wrote));
}

/// What changing a row leaves that may meet the condition.
pub open spec fn changed_marks(
    run: Run,
    txn: Option<u64>,
    s: StoreView,
    i: int,
    table: Seq<char>,
    k: Seq<ValueView>,
    row: Seq<ValueView>,
    a: Seq<(Seq<char>, ExprView)>,
    filter: Option<ExprView>,
) -> Seq<MarkView> {
    if concerned(run_env(run, s), table_scope(s.tables[i]), row, filter) {
        row_marks(table, k, change_step(run, txn, s, i, k, row, a, filter).r is Ok)
    } else {
        Seq::empty()
    }
}

/// What taking a row away leaves that may meet the condition.
pub open spec fn doomed_marks(
    run: Run,
    txn: Option<u64>,
    d: Doomed,
    i: int,
    table: Seq<char>,
    k: Seq<ValueView>,
    row: Seq<ValueView>,
    filter: Option<ExprView>,
) -> Seq<MarkView> {
    if concerned(run_env(run, d.s), table_scope(d.s.tables[i]), row, filter) {
        row_marks(table, k, doom_step(run, txn, d, i, k, row, filter).err is None)
    } else {
        Seq::empty()
    }
}

fn mark_change<'a, U: Fn(Ask) -> Reply>(
    rn: &Clerk<'a, U>,
    txn: Option<u64>,
    s: &mut Store,
    i: usize,
    table: &str,
    k: &Vec<Value>,
    row: &Vec<Value>,
    a: &Vec<(String, Expr)>,
    filter: &Option<Expr>,
    marks: &mut Vec<Mark>,
) -> (ok: bool)
    requires
        rn.ready(),
        old(s).wf(),
        i < old(s).tables@.len(),
    ensures
        final(s).wf(),
        final(s).tables@.len() == old(s).tables@.len(),
        ({
            let p = change_step(
                rn.run(),
                txn,
                old(s)@,
                i as int,
                values_view(k@),
                values_view(row@),
                assignments_view(a@),
                opt_expr(*filter),
            );
            final(s)@ == p.s && ok == p.r is Ok
        }),
        marks_view(final(marks)@) == marks_view(old(marks)@) + changed_marks(
            rn.run(),
            txn,
            old(s)@,
            i as int,
            table@,
            values_view(k@),
            values_view(row@),
            assignments_view(a@),
            opt_expr(*filter),
        ),
{
    assert(s@.tables[i as int] == s.tables@[i as int]@);
    let ghost before = marks_view(marks@);
    let cols = list_column_names(&s.tables[i].columns);
    let n = bare_names(&cols);
    let cx = Reader { u: rn.u, now: rn.now, counts: rn.counts, db: &s.sources, depth: rn.depth };
    let about = is_concerned(&cx, &n, row, filter);
    let step = change_row(rn, txn, s, i, k, row, a, filter);
    if about {
        mark_row(marks, table, k, step.is_ok());
    }
    assert(before + Seq::<MarkView>::empty() =~= before);
    step.is_ok()
}

fn mark_doom<'a, U: Fn(Ask) -> Reply>(
    rn: &Clerk<'a, U>,
    txn: Option<u64>,
    s: &mut Store,
    i: usize,
    table: &str,
    k: &Vec<Value>,
    row: &Vec<Value>,
    filter: &Option<Expr>,
    keys: &mut Vec<Vec<Value>>,
    rows: &mut Vec<Vec<Value>>,
    marks: &mut Vec<Mark>,
) -> (ok: bool)
    requires
        rn.ready(),
        old(s).wf(),
        i < old(s).tables@.len(),
    ensures
        final(s).wf(),
        final(s).tables@.len() == old(s).tables@.len(),
        ({
            let d = doom_step(
                rn.run(),
                txn,
                doomed_view(*old(s), old(keys)@, old(rows)@, None),
                i as int,
                values_view(k@),
                values_view(row@),
                opt_expr(*filter),
            );
            ok == d.err is None && (ok ==> d == doomed_view(*final(s), final(keys)@, final(rows)@, None))
        }),
        marks_view(final(marks)@) == marks_view(old(marks)@) + doomed_marks(
            rn.run(),
            txn,
            doomed_view(*old(s), old(keys)@, old(rows)@, None),
            i as int,
            table@,
            values_view(k@),
            values_view(row@),
            opt_expr(*filter),
        ),
{
    assert(s@.tables[i as int] == s.tables@[i as int]@);
    let ghost before = marks_view(marks@);
    let cols = list_column_names(&s.tables[i].columns);
    let n = bare_names(&cols);
    let cx = Reader { u: rn.u, now: rn.now, counts: rn.counts, db: &s.sources, depth: rn.depth };
    let about = is_concerned(&cx, &n, row, filter);
    let err = doom_row(rn, txn, s, i, k, row, filter, keys, rows);
    if about {
        mark_row(marks, table, k, err.is_none());
    }
    assert(before + Seq::<MarkView>::empty() =~= before);
    err.is_none()
}

/// The rows that an UPDATE reads and writes, up to the first at which it fails.
pub open spec fn update_marks(
    run: Run,
    txn: Option<u64>,
    s: StoreView,
    i: int,
    table: Seq<char>,
    keys: Seq<Seq<ValueView>>,
    rows: Seq<Seq<ValueView>>,
    a: Seq<(Seq<char>, ExprView)>,
    filter: Option<ExprView>,
) -> Seq<MarkView>
    decreases rows.len(),
{
    if rows.len() == 0 {
        Seq::empty()
    } else {
        let m = update_marks(run, txn, s, i, table, keys, rows.drop_last(), a, filter);
        let w = updated(run, txn, s, i, keys, rows.drop_last(), a, filter);
        if w.err is None {
            m + changed_marks(run, txn, w.s, i, table, keys[rows.len() - 1], rows.last(), a, filter)
        } else {
            m
        }
    }
}

/// The rows that a DELETE reads and writes, up to the first at which it fails.
pub open spec fn delete_marks(
    run: Run,
    txn: Option<u64>,
    s: StoreView,
    i: int,
    table: Seq<char>,
    keys: Seq<Seq<ValueView>>,
    rows: Seq<Seq<ValueView>>,
    filter: Option<ExprView>,
) -> Seq<MarkView>
    decreases rows.len(),
{
    if rows.len() == 0 {
        Seq::empty()
    } else {
        let m = delete_marks(run, txn, s, i, table, keys, rows.drop_last(), filter);
        let d = doomed(run, txn, s, i, keys, rows.drop_last(), filter);
        if d.err is None {
            m + doomed_marks(run, txn, d, i, table, keys[rows.len() - 1], rows.last(), filter)
        } else {
            m
        }
    }
}

/// The keys of the rows that changes made where there was none.
pub open spec fn new_marks(table: Seq<char>, log: Seq<ChangeView>) -> Seq<MarkView>
    decreases log.len(),
{
    if log.len() == 0 {
        Seq::empty()
    } else {
        let m = new_marks(table, log.drop_last());
        if log.last().before is None {
            m.push(MarkView::Write { table, key: log.last().key })
        } else {
            m
        }
    }
}

/// What an INSERT in a transaction writes.
pub open spec fn insert_footprint(run: Run, s: StoreView, v: StoreView, q: InsertStmtView) -> Seq<MarkView> {
    new_marks(q.table, insert_work(run, s, v, q).s.log)
}

/// What an UPDATE in a transaction reads and writes.
pub open spec fn update_footprint(run: Run, txn: Option<u64>, s: StoreView, v: StoreView, q: UpdateStmtView) -> Seq<MarkView> {
    match table_index(s, q.table) {
        None => Seq::empty(),
        Some(i) => approach(run.m, s, i, q.table, q.where_clause) + update_marks(
            run,
            txn,
            s,
            i,
            q.table,
            v.tables[i].keys,
            v.rows[i],
            q.assignments,
            q.where_clause,
        ),
    }
}

/// What a DELETE in a transaction reads and writes.
pub open spec fn delete_footprint(run: Run, txn: Option<u64>, s: StoreView, v: StoreView, q: DeleteStmtView) -> Seq<MarkView> {
    match table_index(s, q.table) {
        None => Seq::empty(),
        Some(i) => approach(run.m, s, i, q.table, q.where_clause) + delete_marks(
            run,
            txn,
            s,
            i,
            q.table,
            v.tables[i].keys,
            v.rows[i],
            q.where_clause,
        ),
    }
}

fn mark_new(table: &str, log: &Vec<Change>) -> (r: Vec<Mark>)
    ensures
        marks_view(r@) == new_marks(table@, changes_view(log@)),
{
    let ghost all = changes_view(log@);
    let mut r = no_marks();
    let mut i: usize = 0;
    assert(all.take(0).len() == 0);
    while i < log.len()
        invariant
            i <= log.len(),
            all == changes_view(log@),
            marks_view(r@) == new_marks(table@, all.take(i as int)),
        decreases log.len() - i,
    {
        proof {
            assert(all.take(i + 1).drop_last() =~= all.take(i as int));
            assert(all.take(i + 1).last() == log@[i as int]@);
        }
        if log[i].before.is_none() {
            let m = Mark::Write { table: table.to_string(), key: dup_values(&log[i].key) };
            proof {
                marks_push(r@, m);
            }
            r.push(m);
        }
        i = i + 1;
    }
    assert(all.take(log.len() as int) =~= all);
    r
}

/// Finds out what an INSERT writes.
pub fn mark_insert<'a, U: Fn(Ask) -> Reply>(rn: &Clerk<'a, U>, s: &Store, v: &Option<Store>, q: &InsertStmt) -> (r: Vec<Mark>)
    requires
        rn.ready(),
        s.wf(),
        (*v) matches Some(v) ==> v.wf(),
    ensures
        marks_view(r@) == insert_footprint(rn.run(), s@, walked(s@, *v), q@),
{
    proof {
        (*q).unfold();
    }
    let mut copy = s.dup();
    let _ = exec_insert(rn, &mut copy, v, q);
    mark_new(q.table.as_str(), &copy.log)
}

proof fn lemma_update_marks_stop(
    run: Run,
    txn: Option<u64>,
    s: StoreView,
    i: int,
    table: Seq<char>,
    keys: Seq<Seq<ValueView>>,
    rows: Seq<Seq<ValueView>>,
    a: Seq<(Seq<char>, ExprView)>,
    filter: Option<ExprView>,
    n: int,
)
    requires
        0 <= n <= rows.len(),
        updated(run, txn, s, i, keys, rows.take(n), a, filter).err is Some,
    ensures
        update_marks(run, txn, s, i, table, keys, rows, a, filter) == update_marks(run, txn, s, i, table, keys, rows.take(n), a, filter),
    decreases rows.len() - n,
{
    if n < rows.len() {
        assert(rows.take(n + 1).drop_last() =~= rows.take(n));
        lemma_update_marks_stop(run, txn, s, i, table, keys, rows, a, filter, n + 1);
    } else {
        assert(rows.take(n) =~= rows);
    }
}

proof fn lemma_delete_marks_stop(
    run: Run,
    txn: Option<u64>,
    s: StoreView,
    i: int,
    table: Seq<char>,
    keys: Seq<Seq<ValueView>>,
    rows: Seq<Seq<ValueView>>,
    filter: Option<ExprView>,
    n: int,
)
    requires
        0 <= n <= rows.len(),
        doomed(run, txn, s, i, keys, rows.take(n), filter).err is Some,
    ensures
        delete_marks(run, txn, s, i, table, keys, rows, filter) == delete_marks(run, txn, s, i, table, keys, rows.take(n), filter),
    decreases rows.len() - n,
{
    if n < rows.len() {
        assert(rows.take(n + 1).drop_last() =~= rows.take(n));
        lemma_delete_marks_stop(run, txn, s, i, table, keys, rows, filter, n + 1);
    } else {
        assert(rows.take(n) =~= rows);
    }
}

fn mark_updates<'a, U: Fn(Ask) -> Reply>(
    rn: &Clerk<'a, U>,
    txn: Option<u64>,
    store: &Store,
    i: usize,
    table: &str,
    keys: &Vec<Vec<Value>>,
    rows: &Vec<Vec<Value>>,
    a: &Vec<(String, Expr)>,
    filter: &Option<Expr>,
) -> (r: Vec<Mark>)
    requires
        rn.ready(),
        store.wf(),
        i < store.tables@.len(),
        keys@.len() == rows@.len(),
    ensures
        marks_view(r@) == update_marks(
            rn.run(),
            txn,
            store@,
            i as int,
            table@,
            rows_view(keys@),
            rows_view(rows@),
            assignments_view(a@),
            opt_expr(*filter),
        ),
{
    let mut s = store.dup();
    let ghost kv = rows_view(keys@);
    let ghost all = rows_view(rows@);
    let ghost av = assignments_view(a@);
    let ghost fv = opt_expr(*filter);
    let ghost run = rn.run();
    let ghost sv = store@;
    let mut marks = no_marks();
    let mut j: usize = 0;
    proof {
        assert(all.take(0).len() == 0);
        assert(super::table::tables_view(s.tables@).len() == s.tables@.len());
        assert(super::table::tables_view(store.tables@).len() == store.tables@.len());
    }
    while j < rows.len()
        invariant
            j <= rows.len(),
            rn.ready(),
            run == rn.run(),
            sv == store@,
            s.wf(),
            i < s.tables@.len(),
            keys@.len() == rows@.len(),
            kv == rows_view(keys@),
            all == rows_view(rows@),
            av == assignments_view(a@),
            fv == opt_expr(*filter),
            updated(run, txn, sv, i as int, kv, all.take(j as int), av, fv).s == s@,
            updated(run, txn, sv, i as int, kv, all.take(j as int), av, fv).err is None,
            marks_view(marks@) == update_marks(run, txn, sv, i as int, table@, kv, all.take(j as int), av, fv),
        decreases rows.len() - j,
    {
        proof {
            assert(all.take(j + 1).drop_last() =~= all.take(j as int));
            assert(all.take(j + 1).last() == values_view(rows@[j as int]@));
            assert(kv[j as int] == values_view(keys@[j as int]@));
        }
        let ok = mark_change(rn, txn, &mut s, i, table, &keys[j], &rows[j], a, filter, &mut marks);
        assert(marks_view(marks@) == update_marks(run, txn, sv, i as int, table@, kv, all.take(j + 1), av, fv));
        if !ok {
            proof {
                lemma_update_marks_stop(run, txn, sv, i as int, table@, kv, all, av, fv, j + 1);
            }
            return marks;
        }
        j = j + 1;
    }
    assert(all.take(rows.len() as int) =~= all);
    marks
}

fn mark_deletes<'a, U: Fn(Ask) -> Reply>(
    rn: &Clerk<'a, U>,
    txn: Option<u64>,
    store: &Store,
    i: usize,
    table: &str,
    keys: &Vec<Vec<Value>>,
    rows: &Vec<Vec<Value>>,
    filter: &Option<Expr>,
) -> (r: Vec<Mark>)
    requires
        rn.ready(),
        store.wf(),
        i < store.tables@.len(),
        keys@.len() == rows@.len(),
    ensures
        marks_view(r@) == delete_marks(
            rn.run(),
            txn,
            store@,
            i as int,
            table@,
            rows_view(keys@),
            rows_view(rows@),
            opt_expr(*filter),
        ),
{
    let mut s = store.dup();
    let ghost kv = rows_view(keys@);
    let ghost all = rows_view(rows@);
    let ghost fv = opt_expr(*filter);
    let ghost run = rn.run();
    let ghost sv = store@;
    let mut marks = no_marks();
    let mut gone_keys = no_rows();
    let mut gone = no_rows();
    let mut j: usize = 0;
    proof {
        assert(all.take(0).len() == 0);
        assert(super::table::tables_view(s.tables@).len() == s.tables@.len());
        assert(super::table::tables_view(store.tables@).len() == store.tables@.len());
    }
    while j < rows.len()
        invariant
            j <= rows.len(),
            rn.ready(),
            run == rn.run(),
            sv == store@,
            s.wf(),
            i < s.tables@.len(),
            keys@.len() == rows@.len(),
            kv == rows_view(keys@),
            all == rows_view(rows@),
            fv == opt_expr(*filter),
            doomed(run, txn, sv, i as int, kv, all.take(j as int), fv) == doomed_view(s, gone_keys@, gone@, None),
            marks_view(marks@) == delete_marks(run, txn, sv, i as int, table@, kv, all.take(j as int), fv),
        decreases rows.len() - j,
    {
        proof {
            assert(all.take(j + 1).drop_last() =~= all.take(j as int));
            assert(all.take(j + 1).last() == values_view(rows@[j as int]@));
            assert(kv[j as int] == values_view(keys@[j as int]@));
        }
        let ok = mark_doom(
            rn,
            txn,
            &mut s,
            i,
            table,
            &keys[j],
            &rows[j],
            filter,
            &mut gone_keys,
            &mut gone,
            &mut marks,
        );
        assert(marks_view(marks@) == delete_marks(run, txn, sv, i as int, table@, kv, all.take(j + 1), fv));
        if !ok {
            proof {
                lemma_delete_marks_stop(run, txn, sv, i as int, table@, kv, all, fv, j + 1);
            }
            return marks;
        }
        j = j + 1;
    }
    assert(all.take(rows.len() as int) =~= all);
    marks
}

/// Finds out what an UPDATE reads and writes.
pub fn mark_update<'a, U: Fn(Ask) -> Reply>(rn: &Clerk<'a, U>, txn: Option<u64>, store: &Store, v: &Option<Store>, q: &UpdateStmt) -> (r: Vec<Mark>)
    requires
        rn.ready(),
        store.wf(),
        (*v) matches Some(v) ==> v.wf() && v.tables@.len() == store.tables@.len(),
    ensures
        marks_view(r@) == update_footprint(rn.run(), txn, store@, walked(store@, *v), q@),
{
    proof {
        (*q).unfold();
    }
    match store.find(q.table.as_str()) {
        None => no_marks(),
        Some(i) => {
            let (keys, rows) = match v {
                Some(v) => v.copy_rows(i),
                None => store.copy_rows(i),
            };
            let first = mark_approach(rn.u, store, i, q.table.as_str(), &q.where_clause);
            let more = mark_updates(rn, txn, store, i, q.table.as_str(), &keys, &rows, &q.assignments, &q.where_clause);
            join_marks(first, &more)
        },
    }
}

/// Finds out what a DELETE reads and writes.
pub fn mark_delete<'a, U: Fn(Ask) -> Reply>(rn: &Clerk<'a, U>, txn: Option<u64>, store: &Store, v: &Option<Store>, q: &DeleteStmt) -> (r: Vec<Mark>)
    requires
        rn.ready(),
        store.wf(),
        (*v) matches Some(v) ==> v.wf() && v.tables@.len() == store.tables@.len(),
    ensures
        marks_view(r@) == delete_footprint(rn.run(), txn, store@, walked(store@, *v), q@),
{
    proof {
        (*q).unfold();
    }
    match store.find(q.table.as_str()) {
        None => no_marks(),
        Some(i) => {
            let (keys, rows) = match v {
                Some(v) => v.copy_rows(i),
                None => store.copy_rows(i),
            };
            let first = mark_approach(rn.u, store, i, q.table.as_str(), &q.where_clause);
            let more = mark_deletes(rn, txn, store, i, q.table.as_str(), &keys, &rows, &q.where_clause);
            join_marks(first, &more)
        },
    }
}

} // verus!
