use vstd::prelude::*;
use crate::error::{ErrorView, run_error};
use crate::parser::ast::{DeleteStmtView, ExprView, FkAction, InsertStmtView, IsolationLevel, OnConflictView, StatementView, UpdateStmtView};
use crate::value::ValueView;
use super::constraints::{Run, filled};
use super::delete::{TargetView, all_targets, del_all, delete_work, doom_step, doomed, fk_targets, hit, hit_all, row_targets, table_targets};
use super::dml::{change_step, insert_step, insert_work, inserted, key_places, update_work, updated};
use super::engine::{EngineView, QueryEngine, ResultView, TxnView, after_commit, begun, committed, decided, engine_ok, eye_of, informed, noted, ran, read_store, rolled_back, txn_at};
use super::history::{law_later_commits_are_unseen, law_own_changes_are_seen, law_unseen_changes, lemma_alike_redo_all, lemma_redo_in_parts, store_redo, store_redo_all};
use super::rows::{law_del_keeps_order, law_put_keeps_order, well_kept};
use super::scope::index_of;
use super::store::{StoreView, law_undo_del, law_undo_put, lemma_table_index, rows_at_table, store_del, store_ok, store_put, store_undo, store_undo_all, table_index, table_names, with_counters};
use super::table::{ChangeView, TableView};

verus! {

/// Whether two stores hold the same tables and rows; the next numbers may differ, and so may the
/// logs.
pub open spec fn alike(a: StoreView, b: StoreView) -> bool {
    &&& a.rows == b.rows
    &&& a.tables.len() == b.tables.len()
    &&& forall|i: int|
        0 <= i < a.tables.len() ==> (TableView { seqs: b.tables[i].seqs, next_rowid: b.tables[i].next_rowid, ..a.tables[i] })
            == #[trigger] b.tables[i]
}

/// Whether a store came from another by changes that its log has recorded: taking them back gives
/// the rows that were there, and making them again gives the rows that are there now.
pub open spec fn recorded(s: StoreView, t: StoreView) -> bool {
    &&& store_ok(t)
    &&& s.log.len() <= t.log.len()
    &&& t.log.take(s.log.len() as int) == s.log
    &&& alike(store_undo_all(t, t.log.skip(s.log.len() as int)), s)
    &&& alike(store_redo_all(s, t.log.skip(s.log.len() as int)), t)
    &&& t.tables.len() == s.tables.len()
}

proof fn lemma_alike_names(a: StoreView, b: StoreView)
    requires
        alike(a, b),
    ensures
        table_names(a.tables) == table_names(b.tables),
        forall|i: int| 0 <= i < a.tables.len() ==> #[trigger] rows_at_table(a, i) == rows_at_table(b, i),
{
    assert forall|i: int| 0 <= i < a.tables.len() implies a.tables[i].name == #[trigger] b.tables[i].name && a.tables[i].keys
        == b.tables[i].keys by {
        let x = TableView { seqs: b.tables[i].seqs, next_rowid: b.tables[i].next_rowid, ..a.tables[i] };
        assert(x == b.tables[i]);
        assert(x.name == a.tables[i].name);
        assert(x.keys == a.tables[i].keys);
    }
    assert(table_names(a.tables) =~= table_names(b.tables));
    assert forall|i: int| 0 <= i < a.tables.len() implies #[trigger] rows_at_table(a, i) == rows_at_table(b, i) by {
        assert(a.tables[i].keys == b.tables[i].keys);
    }
}

pub proof fn lemma_index_range(names: Seq<Seq<char>>, name: Seq<char>)
    ensures
        index_of(names, name) matches Some(i) ==> 0 <= i < names.len(),
    decreases names.len(),
{
    if names.len() > 0 {
        lemma_index_range(names.drop_last(), name);
    }
}

pub proof fn lemma_alike_undo(a: StoreView, b: StoreView, c: ChangeView)
    requires
        alike(a, b),
    ensures
        alike(store_undo(a, c), store_undo(b, c)),
{
    lemma_alike_names(a, b);
    lemma_index_range(table_names(a.tables), c.table);
    match table_index(a, c.table) {
        Some(i) => {
            assert(rows_at_table(a, i) == rows_at_table(b, i));
            let x = store_undo(a, c);
            let y = store_undo(b, c);
            assert forall|j: int| 0 <= j < x.tables.len() implies (TableView {
                seqs: y.tables[j].seqs,
                next_rowid: y.tables[j].next_rowid,
                ..x.tables[j]
            }) == #[trigger] y.tables[j] by {
                assert((TableView { seqs: b.tables[j].seqs, next_rowid: b.tables[j].next_rowid, ..a.tables[j] }) == b.tables[j]);
            }
        },
        None => {},
    }
}

pub proof fn lemma_alike_undo_all(a: StoreView, b: StoreView, c: Seq<ChangeView>)
    requires
        alike(a, b),
    ensures
        alike(store_undo_all(a, c), store_undo_all(b, c)),
    decreases c.len(),
{
    if c.len() > 0 {
        lemma_alike_undo(a, b, c.last());
        lemma_alike_undo_all(store_undo(a, c.last()), store_undo(b, c.last()), c.drop_last());
    }
}

pub proof fn lemma_undo_in_parts(s: StoreView, x: Seq<ChangeView>, y: Seq<ChangeView>)
    ensures
        store_undo_all(s, x + y) == store_undo_all(store_undo_all(s, y), x),
    decreases y.len(),
{
    if y.len() == 0 {
        assert(x + y =~= x);
    } else {
        assert((x + y).drop_last() =~= x + y.drop_last());
        assert((x + y).last() == y.last());
        lemma_undo_in_parts(store_undo(s, y.last()), x, y.drop_last());
    }
}

proof fn lemma_alike_chain(a: StoreView, b: StoreView, c: StoreView)
    requires
        alike(a, b),
        alike(b, c),
    ensures
        alike(a, c),
{
    assert forall|i: int| 0 <= i < a.tables.len() implies (TableView {
        seqs: c.tables[i].seqs,
        next_rowid: c.tables[i].next_rowid,
        ..a.tables[i]
    }) == #[trigger] c.tables[i] by {
        assert((TableView { seqs: b.tables[i].seqs, next_rowid: b.tables[i].next_rowid, ..a.tables[i] }) == b.tables[i]);
        assert((TableView { seqs: c.tables[i].seqs, next_rowid: c.tables[i].next_rowid, ..b.tables[i] }) == c.tables[i]);
    }
}

pub proof fn lemma_recorded_same(s: StoreView)
    requires
        store_ok(s),
    ensures
        recorded(s, s),
{
    let n = s.log.len() as int;
    assert(s.log.take(n) =~= s.log);
    assert(s.log.skip(n) =~= Seq::empty());
}

pub proof fn lemma_recorded_chain(a: StoreView, b: StoreView, c: StoreView)
    requires
        recorded(a, b),
        recorded(b, c),
    ensures
        recorded(a, c),
{
    let n = a.log.len() as int;
    let m = b.log.len() as int;
    assert(c.log.take(n) =~= c.log.take(m).take(n));
    assert(c.log.skip(n) =~= b.log.skip(n) + c.log.skip(m)) by {
        assert(c.log.take(m) == b.log);
        assert forall|i: int| 0 <= i < c.log.len() - n implies c.log.skip(n)[i] == (b.log.skip(n) + c.log.skip(m))[i] by {
            if i < m - n {
                assert(c.log.take(m)[n + i] == b.log[n + i]);
            }
        }
    }
    let u = store_undo_all(c, c.log.skip(m));
    lemma_undo_in_parts(c, b.log.skip(n), c.log.skip(m));
    lemma_alike_undo_all(u, b, b.log.skip(n));
    lemma_alike_chain(store_undo_all(u, b.log.skip(n)), store_undo_all(b, b.log.skip(n)), a);
    lemma_redo_in_parts(a, b.log.skip(n), c.log.skip(m));
    let r = store_redo_all(a, b.log.skip(n));
    lemma_alike_redo_all(r, b, c.log.skip(m));
    lemma_alike_chain(store_redo_all(r, c.log.skip(m)), store_redo_all(b, c.log.skip(m)), c);
}

pub proof fn lemma_put_ok(s: StoreView, i: int, k: Seq<ValueView>, row: Seq<ValueView>)
    requires
        store_ok(s),
        0 <= i < s.tables.len(),
    ensures
        recorded(s, store_put(s, i, k, row)),
{
    let t = store_put(s, i, k, row);
    let r = rows_at_table(s, i);
    law_put_keeps_order(r, k, row);
    assert forall|j: int| 0 <= j < t.tables.len() implies well_kept(#[trigger] rows_at_table(t, j)) by {
        assert(well_kept(rows_at_table(s, j)));
    }
    assert forall|j: int| 0 <= j < t.tables.len() implies (#[trigger] t.tables[j]).seqs.len() == t.tables[j].columns.len() by {
        assert(s.tables[j].seqs.len() == s.tables[j].columns.len());
    }
    lemma_names_apart(s, t);
    law_undo_put(s, i, k, row);
    let n = s.log.len() as int;
    assert(t.log.take(n) =~= s.log);
    lemma_one_left(t, n);
    lemma_table_index(s, i);
    lemma_one_again(s, t.log, n);
}

proof fn lemma_one_left(t: StoreView, n: int)
    requires
        0 <= n,
        t.log.len() == n + 1,
    ensures
        store_undo_all(t, t.log.skip(n)) == store_undo(t, t.log.last()),
{
    let l = t.log.skip(n);
    assert(l.len() == 1);
    assert(l.last() == t.log.last());
    assert(l.drop_last() =~= Seq::empty());
    assert(store_undo_all(store_undo(t, l.last()), l.drop_last()) == store_undo(t, l.last()));
}

proof fn lemma_one_again(s: StoreView, log: Seq<ChangeView>, n: int)
    requires
        0 <= n,
        log.len() == n + 1,
    ensures
        store_redo_all(s, log.skip(n)) == store_redo(s, log.last()),
{
    let l = log.skip(n);
    assert(l.len() == 1);
    assert(l.last() == log.last());
    assert(l.drop_last() =~= Seq::empty());
    assert(store_redo_all(s, l.drop_last()) == s);
}

pub proof fn lemma_del_ok(s: StoreView, i: int, k: Seq<ValueView>)
    requires
        store_ok(s),
        0 <= i < s.tables.len(),
    ensures
        recorded(s, store_del(s, i, k)),
{
    let t = store_del(s, i, k);
    let r = rows_at_table(s, i);
    law_del_keeps_order(r, k);
    assert forall|j: int| 0 <= j < t.tables.len() implies well_kept(#[trigger] rows_at_table(t, j)) by {
        assert(well_kept(rows_at_table(s, j)));
    }
    assert forall|j: int| 0 <= j < t.tables.len() implies (#[trigger] t.tables[j]).seqs.len() == t.tables[j].columns.len() by {
        assert(s.tables[j].seqs.len() == s.tables[j].columns.len());
    }
    lemma_names_apart(s, t);
    law_undo_del(s, i, k);
    let n = s.log.len() as int;
    assert(t.log.take(n) =~= s.log);
    lemma_one_left(t, n);
    lemma_table_index(s, i);
    lemma_one_again(s, t.log, n);
}

proof fn lemma_names_apart(s: StoreView, t: StoreView)
    requires
        store_ok(s),
        t.tables.len() == s.tables.len(),
        forall|j: int| 0 <= j < s.tables.len() ==> (#[trigger] t.tables[j]).name == s.tables[j].name,
    ensures
        forall|i: int, j: int| 0 <= i < j < t.tables.len() ==> (#[trigger] t.tables[i]).name != (#[trigger] t.tables[j]).name,
{
    assert forall|i: int, j: int| 0 <= i < j < t.tables.len() implies (#[trigger] t.tables[i]).name != (#[trigger] t.tables[j]).name by {
        assert(s.tables[i].name != s.tables[j].name);
    }
}

pub proof fn lemma_counters_ok(s: StoreView, i: int, seqs: Seq<i64>, n: i64)
    requires
        store_ok(s),
        0 <= i < s.tables.len(),
        seqs.len() == s.tables[i].columns.len(),
    ensures
        recorded(s, with_counters(s, i, seqs, n)),
{
    let t = with_counters(s, i, seqs, n);
    assert forall|j: int| 0 <= j < t.tables.len() implies well_kept(#[trigger] rows_at_table(t, j)) by {
        assert(well_kept(rows_at_table(s, j)));
    }
    assert forall|j: int| 0 <= j < t.tables.len() implies (#[trigger] t.tables[j]).seqs.len() == t.tables[j].columns.len() by {
        assert(s.tables[j].seqs.len() == s.tables[j].columns.len());
    }
    lemma_names_apart(s, t);
    let k = s.log.len() as int;
    assert(t.log.take(k) =~= s.log);
    assert(t.log.skip(k) =~= Seq::empty());
    assert(store_undo_all(t, t.log.skip(k)) == t);
}

pub proof fn lemma_filled_len(m: super::unit::Unit, cols: Seq<super::table::ColumnView>, seqs: Seq<i64>, row: Seq<ValueView>, n: nat)
    requires
        n <= seqs.len(),
    ensures
        filled(m, cols, seqs, row, n).seqs.len() == seqs.len(),
    decreases n,
{
    if n > 0 {
        lemma_filled_len(m, cols, seqs, row, (n - 1) as nat);
    }
}

proof fn lemma_placed_recorded(run: Run, s: StoreView, i: int, k: Seq<ValueView>, row: Seq<ValueView>, oc: Option<OnConflictView>)
    requires
        store_ok(s),
        0 <= i < s.tables.len(),
    ensures
        recorded(s, super::dml::placed(run, s, i, k, row, oc).s),
{
    lemma_recorded_same(s);
    let p = super::dml::placed(run, s, i, k, row, oc);
    if p.s != s {
        match p.r {
            Ok(Some(new)) => {
                lemma_put_ok(s, i, k, new);
            },
            _ => {},
        }
    }
}

pub proof fn lemma_insert_step(run: Run, s: StoreView, i: int, row: Seq<ValueView>, oc: Option<OnConflictView>)
    requires
        store_ok(s),
        0 <= i < s.tables.len(),
    ensures
        recorded(s, insert_step(run, s, i, row, oc).s),
{
    let t = s.tables[i];
    assert(t.seqs.len() == t.columns.len());
    let f = filled(run.m, t.columns, t.seqs, super::join::resized(row, t.columns.len()), t.columns.len());
    lemma_filled_len(run.m, t.columns, t.seqs, super::join::resized(row, t.columns.len()), t.columns.len());
    let s1 = with_counters(s, i, f.seqs, t.next_rowid);
    lemma_counters_ok(s, i, f.seqs, t.next_rowid);
    let st = insert_step(run, s, i, row, oc);
    if st.s != s1 {
        let at = key_places(t.columns);
        if at.len() == 0 {
            let n = super::constraints::after_number(t.next_rowid);
            let s2 = with_counters(s1, i, f.seqs, n);
            lemma_counters_ok(s1, i, f.seqs, n);
            lemma_recorded_chain(s, s1, s2);
            lemma_placed_recorded(run, s2, i, seq![ValueView::Int64(t.next_rowid)], f.row, oc);
            lemma_recorded_chain(s, s2, st.s);
        } else {
            lemma_placed_recorded(run, s1, i, super::grouping::picked(f.row, at), f.row, oc);
            lemma_recorded_chain(s, s1, st.s);
        }
    }
}

pub proof fn lemma_inserted(run: Run, s: StoreView, i: int, rows: Seq<Seq<ValueView>>, oc: Option<OnConflictView>)
    requires
        store_ok(s),
        0 <= i < s.tables.len(),
    ensures
        recorded(s, inserted(run, s, i, rows, oc).s),
    decreases rows.len(),
{
    lemma_recorded_same(s);
    if rows.len() > 0 {
        lemma_inserted(run, s, i, rows.drop_last(), oc);
        let w = inserted(run, s, i, rows.drop_last(), oc);
        if w.err is None {
            lemma_insert_step(run, w.s, i, rows.last(), oc);
            lemma_recorded_chain(s, w.s, insert_step(run, w.s, i, rows.last(), oc).s);
        }
    }
}

/// INSERT records what it does, also where it fails.
pub proof fn law_insert_is_recorded(run: Run, s: StoreView, v: StoreView, q: InsertStmtView)
    requires
        store_ok(s),
    ensures
        recorded(s, insert_work(run, s, v, q).s),
{
    lemma_recorded_same(s);
    lemma_index_range(table_names(s.tables), q.table);
    match super::dml::source_rows(run, s, v, q) {
        Err(_) => {},
        Ok(rows) => match table_index(s, q.table) {
            None => {},
            Some(i) => {
                lemma_inserted(run, s, i, rows, q.on_conflict);
            },
        },
    }
}

pub proof fn lemma_updated(
    run: Run,
    txn: Option<u64>,
    s: StoreView,
    i: int,
    keys: Seq<Seq<ValueView>>,
    rows: Seq<Seq<ValueView>>,
    a: Seq<(Seq<char>, ExprView)>,
    filter: Option<ExprView>,
)
    requires
        store_ok(s),
        0 <= i < s.tables.len(),
    ensures
        recorded(s, updated(run, txn, s, i, keys, rows, a, filter).s),
    decreases rows.len(),
{
    lemma_recorded_same(s);
    if rows.len() > 0 {
        lemma_updated(run, txn, s, i, keys, rows.drop_last(), a, filter);
        let w = updated(run, txn, s, i, keys, rows.drop_last(), a, filter);
        if w.err is None {
            let k = keys[rows.len() - 1];
            let p = change_step(run, txn, w.s, i, k, rows.last(), a, filter);
            lemma_recorded_same(w.s);
            if p.s != w.s {
                match p.r {
                    Ok(Some(new)) => {
                        lemma_put_ok(w.s, i, k, new);
                    },
                    _ => {},
                }
            }
            lemma_recorded_chain(s, w.s, p.s);
        }
    }
}

/// UPDATE records what it does, also where it fails.
pub proof fn law_update_is_recorded(run: Run, txn: Option<u64>, s: StoreView, v: StoreView, q: UpdateStmtView)
    requires
        store_ok(s),
    ensures
        recorded(s, update_work(run, txn, s, v, q).s),
{
    lemma_recorded_same(s);
    lemma_index_range(table_names(s.tables), q.table);
    match table_index(s, q.table) {
        None => {},
        Some(i) => {
            lemma_updated(run, txn, s, i, v.tables[i].keys, v.rows[i], q.assignments, q.where_clause);
        },
    }
}

pub open spec fn within(t: Seq<TargetView>, n: nat) -> bool {
    forall|j: int| 0 <= j < t.len() ==> 0 <= (#[trigger] t[j]).i < n
}

proof fn lemma_within_both(a: Seq<TargetView>, b: Seq<TargetView>, n: nat)
    requires
        within(a, n),
        within(b, n),
    ensures
        within(a + b, n),
{
    assert forall|j: int| 0 <= j < (a + b).len() implies 0 <= (#[trigger] (a + b)[j]).i < n by {
        if j < a.len() {
            assert(0 <= a[j].i < n);
        } else {
            assert(0 <= b[j - a.len()].i < n);
        }
    }
}

proof fn lemma_row_targets(
    c: int,
    name: Seq<char>,
    action: FkAction,
    keys: Seq<Seq<ValueView>>,
    rows: Seq<Seq<ValueView>>,
    at: Seq<int>,
    vals: Seq<ValueView>,
    n: nat,
)
    requires
        0 <= c < n,
    ensures
        row_targets(c, name, action, keys, rows, at, vals) matches Ok(t) ==> within(t, n),
    decreases rows.len(),
{
    if rows.len() > 0 {
        lemma_row_targets(c, name, action, keys, rows.drop_last(), at, vals, n);
    }
}

proof fn lemma_table_targets(s: StoreView, i: int, row: Seq<ValueView>, c: int, n: nat)
    requires
        0 <= c < s.tables.len(),
    ensures
        table_targets(s, i, row, c, n) matches Ok(t) ==> within(t, s.tables.len()),
    decreases n,
{
    if n > 0 {
        lemma_table_targets(s, i, row, c, (n - 1) as nat);
        let fk = s.tables[c].fks[n - 1];
        lemma_row_targets(
            c,
            s.tables[c].name,
            fk.on_delete,
            s.tables[c].keys,
            s.rows[c],
            super::constraints::places_of(super::store::column_names(s.tables[c].columns), fk.columns),
            super::grouping::picked(row, super::constraints::places_of(super::store::column_names(s.tables[i].columns), fk.ref_columns)),
            s.tables.len(),
        );
        match (table_targets(s, i, row, c, (n - 1) as nat), fk_targets(s, i, row, c, fk)) {
            (Ok(a), Ok(b)) => {
                lemma_within_both(a, b, s.tables.len());
            },
            _ => {},
        }
    }
}

pub proof fn lemma_all_targets(s: StoreView, i: int, row: Seq<ValueView>, n: nat)
    requires
        n <= s.tables.len(),
    ensures
        all_targets(s, i, row, n) matches Ok(t) ==> within(t, s.tables.len()),
    decreases n,
{
    if n > 0 {
        lemma_all_targets(s, i, row, (n - 1) as nat);
        lemma_table_targets(s, i, row, n - 1, s.tables[n - 1].fks.len());
        match (all_targets(s, i, row, (n - 1) as nat), table_targets(s, i, row, n - 1, s.tables[n - 1].fks.len())) {
            (Ok(a), Ok(b)) => {
                lemma_within_both(a, b, s.tables.len());
            },
            _ => {},
        }
    }
}

pub proof fn lemma_hit(s: StoreView, t: TargetView)
    requires
        store_ok(s),
        0 <= t.i < s.tables.len(),
    ensures
        recorded(s, hit(s, t)),
{
    lemma_recorded_same(s);
    lemma_del_ok(s, t.i, t.key);
    match super::rows::row_of(rows_at_table(s, t.i), t.key) {
        Some(row) => {
            lemma_put_ok(s, t.i, t.key, super::delete::nulled(row, t.at));
        },
        None => {},
    }
}

pub proof fn lemma_hit_all(s: StoreView, t: Seq<TargetView>)
    requires
        store_ok(s),
        within(t, s.tables.len()),
    ensures
        recorded(s, hit_all(s, t)),
    decreases t.len(),
{
    lemma_recorded_same(s);
    if t.len() > 0 {
        let d = t.drop_last();
        assert forall|j: int| 0 <= j < d.len() implies 0 <= (#[trigger] d[j]).i < s.tables.len() by {
            assert(d[j] == t[j]);
        }
        lemma_hit_all(s, d);
        assert(t.last() == t[t.len() - 1]);
        lemma_hit(hit_all(s, d), t.last());
        lemma_recorded_chain(s, hit_all(s, d), hit_all(s, t));
    }
}

pub proof fn lemma_doomed(run: Run, txn: Option<u64>, s: StoreView, i: int, keys: Seq<Seq<ValueView>>, rows: Seq<Seq<ValueView>>, filter: Option<ExprView>)
    requires
        store_ok(s),
        0 <= i < s.tables.len(),
    ensures
        recorded(s, doomed(run, txn, s, i, keys, rows, filter).s),
    decreases rows.len(),
{
    lemma_recorded_same(s);
    if rows.len() > 0 {
        lemma_doomed(run, txn, s, i, keys, rows.drop_last(), filter);
        let d = doomed(run, txn, s, i, keys, rows.drop_last(), filter);
        if d.err is None {
            lemma_all_targets(d.s, i, rows.last(), d.s.tables.len());
            lemma_recorded_same(d.s);
            match all_targets(d.s, i, rows.last(), d.s.tables.len()) {
                Ok(t) => {
                    lemma_hit_all(d.s, t);
                },
                Err(_) => {},
            }
            lemma_recorded_chain(s, d.s, doom_step(run, txn, d, i, keys[rows.len() - 1], rows.last(), filter).s);
        }
    }
}

pub proof fn lemma_del_all(s: StoreView, i: int, keys: Seq<Seq<ValueView>>)
    requires
        store_ok(s),
        0 <= i < s.tables.len(),
    ensures
        recorded(s, del_all(s, i, keys)),
    decreases keys.len(),
{
    lemma_recorded_same(s);
    if keys.len() > 0 {
        lemma_del_all(s, i, keys.drop_last());
        let b = del_all(s, i, keys.drop_last());
        lemma_del_ok(b, i, keys.last());
        lemma_recorded_chain(s, b, del_all(s, i, keys));
    }
}

/// DELETE records what it does, to other tables too, also where it fails.
pub proof fn law_delete_is_recorded(run: Run, txn: Option<u64>, s: StoreView, v: StoreView, q: DeleteStmtView)
    requires
        store_ok(s),
    ensures
        recorded(s, delete_work(run, txn, s, v, q).s),
{
    lemma_recorded_same(s);
    lemma_index_range(table_names(s.tables), q.table);
    match table_index(s, q.table) {
        None => {},
        Some(i) => {
            lemma_doomed(run, txn, s, i, v.tables[i].keys, v.rows[i], q.where_clause);
            let d = doomed(run, txn, s, i, v.tables[i].keys, v.rows[i], q.where_clause);
            if d.err is None {
                lemma_del_all(d.s, i, d.keys);
                lemma_recorded_chain(s, d.s, del_all(d.s, i, d.keys));
            }
        },
    }
}

// ---- transactions

/// Whether a statement reads or changes rows.
pub open spec fn on_rows(s: StatementView) -> bool {
    s is Select || s is Insert || s is Update || s is Delete
}

/// The engine after statements that ran one after the other in one transaction.
pub open spec fn ran_all(run: Run, e: EngineView, s: Seq<StatementView>, txn: Option<u64>) -> EngineView
    decreases s.len(),
{
    if s.len() == 0 {
        e
    } else {
        ran(run, ran_all(run, e, s.drop_last(), txn), s.last(), txn).e
    }
}

/// What the laws on statements and transactions ask of an engine holds of every well-formed one.
pub proof fn law_engine_ok(e: QueryEngine)
    requires
        e.wf(),
    ensures
        engine_ok(e@),
{
}

/// Whether a transaction is under way whose taking back would give a store like `s`.
pub open spec fn would_give(e: EngineView, id: u64, s: StoreView) -> bool {
    &&& store_ok(e.store)
    &&& e.store.log.len() == 0
    &&& txn_at(e.txns, id) matches Some(i) && 0 <= i < e.txns.len() && alike(store_undo_all(e.store, e.txns[i].undo), s)
}

proof fn lemma_txn_at(t: Seq<TxnView>, u: Seq<TxnView>, id: u64)
    requires
        t.len() == u.len(),
        forall|i: int| 0 <= i < t.len() ==> (#[trigger] t[i]).id == (#[trigger] u[i]).id,
    ensures
        txn_at(t, id) == txn_at(u, id),
    decreases t.len(),
{
    if t.len() > 0 {
        assert(t[t.len() - 1].id == u[u.len() - 1].id);
        lemma_txn_at(t.drop_last(), u.drop_last(), id);
    }
}

proof fn lemma_txn_new(t: Seq<TxnView>, x: TxnView)
    requires
        forall|i: int| 0 <= i < t.len() ==> (#[trigger] t[i]).id != x.id,
    ensures
        txn_at(t.push(x), x.id) == Some(t.len() as int),
{
    lemma_txn_none(t, x.id);
    assert(t.push(x).drop_last() =~= t);
}

proof fn lemma_txn_none(t: Seq<TxnView>, id: u64)
    requires
        forall|i: int| 0 <= i < t.len() ==> (#[trigger] t[i]).id != id,
    ensures
        txn_at(t, id) is None,
    decreases t.len(),
{
    if t.len() > 0 {
        let d = t.drop_last();
        assert forall|i: int| 0 <= i < d.len() implies (#[trigger] d[i]).id != id by {
            assert(d[i] == t[i]);
        }
        lemma_txn_none(d, id);
        assert(t.last() == t[t.len() - 1]);
    }
}

proof fn lemma_noted(e: EngineView, w: StoreView, ok: bool, id: u64, s: StoreView)
    requires
        would_give(e, id, s),
        recorded(e.store, w),
    ensures
        would_give(noted(e, w, ok, Some(id)), id, s),
{
    let i = txn_at(e.txns, id)->0;
    let a = noted(e, w, ok, Some(id));
    lemma_txn_at(e.txns, a.txns, id);
    assert(w.log.skip(0) =~= w.log);
    let stripped = StoreView { log: Seq::empty(), ..w };
    assert(alike(stripped, w));
    lemma_alike_undo_all(stripped, w, w.log);
    lemma_alike_chain(store_undo_all(stripped, w.log), store_undo_all(w, w.log), e.store);
    let u = e.txns[i].undo;
    lemma_undo_in_parts(stripped, u, w.log);
    lemma_alike_undo_all(store_undo_all(stripped, w.log), e.store, u);
    lemma_alike_chain(store_undo_all(stripped, u + w.log), store_undo_all(e.store, u), s);
    assert forall|j: int| 0 <= j < stripped.tables.len() implies well_kept(#[trigger] rows_at_table(stripped, j)) by {
        assert(well_kept(rows_at_table(w, j)));
    }
    assert(store_ok(stripped));
    assert(a.txns[i].undo == u + w.log);
}

/// A statement on rows leaves alone what taking back its transaction would give.
pub proof fn law_statement_can_be_taken_back(run: Run, e: EngineView, st: StatementView, id: u64, s: StoreView)
    requires
        would_give(e, id, s),
        on_rows(st),
    ensures
        would_give(ran(run, e, st, Some(id)).e, id, s),
{
    match st {
        StatementView::Insert(q) => {
            law_insert_is_recorded(informed(run, e), e.store, read_store(e, Some(id)), q);
            let w = insert_work(informed(run, e), e.store, read_store(e, Some(id)), q);
            lemma_noted(e, w.s, w.err is None, id, s);
        },
        StatementView::Update(q) => {
            law_update_is_recorded(informed(run, e), Some(id), e.store, read_store(e, Some(id)), q);
            let w = update_work(informed(run, e), Some(id), e.store, read_store(e, Some(id)), q);
            lemma_noted(e, w.s, w.err is None, id, s);
        },
        StatementView::Delete(q) => {
            law_delete_is_recorded(informed(run, e), Some(id), e.store, read_store(e, Some(id)), q);
            let w = delete_work(informed(run, e), Some(id), e.store, read_store(e, Some(id)), q);
            lemma_noted(e, w.s, w.err is None, id, s);
        },
        _ => {},
    }
}

proof fn lemma_all_taken_back(run: Run, e: EngineView, st: Seq<StatementView>, id: u64, s: StoreView)
    requires
        would_give(e, id, s),
        forall|i: int| 0 <= i < st.len() ==> on_rows(#[trigger] st[i]),
    ensures
        would_give(ran_all(run, e, st, Some(id)), id, s),
    decreases st.len(),
{
    if st.len() > 0 {
        let d = st.drop_last();
        assert forall|i: int| 0 <= i < d.len() implies on_rows(#[trigger] d[i]) by {
            assert(d[i] == st[i]);
        }
        lemma_all_taken_back(run, e, d, id, s);
        assert(on_rows(st[st.len() - 1]));
        law_statement_can_be_taken_back(run, ran_all(run, e, d, Some(id)), st.last(), id, s);
    }
}

/// ROLLBACK undoes a transaction: whatever statements on rows ran in it, and whether or not they
/// succeeded, afterwards the tables hold the rows that they held when it began.
pub proof fn law_rollback_undoes(run: Run, e: EngineView, level: IsolationLevel, st: Seq<StatementView>)
    requires
        engine_ok(e),
        e.next_txn < u64::MAX,
        forall|i: int| 0 <= i < st.len() ==> on_rows(#[trigger] st[i]),
    ensures
        ({
            let w = ran_all(run, begun(e, level).e, st, Some(e.next_txn));
            rolled_back(w, Some(e.next_txn)).r is Ok && alike(rolled_back(w, Some(e.next_txn)).e.store, e.store)
        }),
{
    let id = e.next_txn;
    let b = begun(e, level).e;
    let x = TxnView { id, level, snap: e.commits, undo: Seq::empty(), deltas: Seq::empty() };
    lemma_txn_new(e.txns, x);
    assert(store_undo_all(b.store, x.undo) == e.store);
    assert(would_give(b, id, e.store));
    lemma_all_taken_back(run, b, st, id, e.store);
}

/// A transaction that is not allowed to commit is answered with the reason, and the tables hold the
/// rows that they held when it began.
pub proof fn law_refused_commit_undoes(run: Run, e: EngineView, level: IsolationLevel, st: Seq<StatementView>, why: Seq<char>)
    requires
        engine_ok(e),
        e.next_txn < u64::MAX,
        forall|i: int| 0 <= i < st.len() ==> on_rows(#[trigger] st[i]),
    ensures
        ({
            let w = ran_all(run, begun(e, level).e, st, Some(e.next_txn));
            let c = decided(w, e.next_txn, Some(why));
            c.r == Err::<ResultView, ErrorView>(run_error(why)) && alike(c.e.store, e.store) && c.e.durable == w.durable
        }),
{
    law_rollback_undoes(run, e, level, st);
}

/// What a transaction reads is not touched by what another one does before it commits.
pub proof fn law_no_dirty_read(run: Run, e: EngineView, st: StatementView, other: u64, id: u64)
    requires
        engine_ok(e),
        on_rows(st),
        other != id,
        txn_at(e.txns, other) matches Some(i) && 0 <= i < e.txns.len(),
        txn_at(e.txns, id) matches Some(j) && 0 <= j < e.txns.len() && e.txns[j].id == id,
    ensures
        alike(read_store(ran(run, e, st, Some(other)).e, Some(id)), read_store(e, Some(id))),
{
    lemma_alike_self(read_store(e, Some(id)));
    match st {
        StatementView::Insert(q) => {
            law_insert_is_recorded(informed(run, e), e.store, read_store(e, Some(other)), q);
            let w = insert_work(informed(run, e), e.store, read_store(e, Some(other)), q);
            lemma_unread(e, w.s, w.err is None, other, id);
        },
        StatementView::Update(q) => {
            law_update_is_recorded(informed(run, e), Some(other), e.store, read_store(e, Some(other)), q);
            let w = update_work(informed(run, e), Some(other), e.store, read_store(e, Some(other)), q);
            lemma_unread(e, w.s, w.err is None, other, id);
        },
        StatementView::Delete(q) => {
            law_delete_is_recorded(informed(run, e), Some(other), e.store, read_store(e, Some(other)), q);
            let w = delete_work(informed(run, e), Some(other), e.store, read_store(e, Some(other)), q);
            lemma_unread(e, w.s, w.err is None, other, id);
        },
        _ => {},
    }
}

/// What a transaction above READ COMMITTED reads is not touched by the commit of another one.
pub proof fn law_commit_leaves_snapshots(e: EngineView, other: u64, id: u64)
    requires
        e.commits < u64::MAX,
        other != id,
        txn_at(e.txns, other) matches Some(i) && 0 <= i < e.txns.len(),
        txn_at(e.txns, id) matches Some(j) && 0 <= j < e.txns.len() && e.txns[j].id == id && e.txns[j].level
            != IsolationLevel::ReadCommitted && e.txns[j].snap <= e.commits,
    ensures
        read_store(committed(e, Some(other)).e, Some(id)) == read_store(e, Some(id)),
{
    let i = txn_at(e.txns, other)->0;
    let j = txn_at(e.txns, id)->0;
    lemma_txn_is(e.txns, other);
    lemma_txn_removed(e.txns, i, id);
    let t = e.txns.remove(i);
    assert(t.len() > 0);
    law_later_commits_are_unseen(e.store, e.history, other, after_commit(e.commits), eye_of(e.txns[j]));
}

/// Whether two transactions are under way, of which the second reads what was there when it began.
pub open spec fn side_by_side(e: EngineView, other: u64, id: u64) -> bool {
    &&& store_ok(e.store)
    &&& e.store.log.len() == 0
    &&& e.commits < u64::MAX
    &&& other != id
    &&& txn_at(e.txns, other) matches Some(i) && 0 <= i < e.txns.len()
    &&& txn_at(e.txns, id) matches Some(j) && 0 <= j < e.txns.len() && e.txns[j].id == id && e.txns[j].level
        != IsolationLevel::ReadCommitted && e.txns[j].snap <= e.commits
}

proof fn lemma_side_noted(e: EngineView, w: StoreView, ok: bool, other: u64, id: u64)
    requires
        side_by_side(e, other, id),
        recorded(e.store, w),
    ensures
        side_by_side(noted(e, w, ok, Some(other)), other, id),
        alike(read_store(noted(e, w, ok, Some(other)), Some(id)), read_store(e, Some(id))),
{
    let a = noted(e, w, ok, Some(other));
    lemma_txn_is(e.txns, other);
    lemma_txn_at(e.txns, a.txns, id);
    lemma_txn_at(e.txns, a.txns, other);
    lemma_unread(e, w, ok, other, id);
    let stripped = StoreView { log: Seq::empty(), ..w };
    assert forall|j: int| 0 <= j < stripped.tables.len() implies well_kept(#[trigger] rows_at_table(stripped, j)) by {
        assert(well_kept(rows_at_table(w, j)));
    }
    assert(store_ok(stripped));
}

proof fn lemma_side_all(run: Run, e: EngineView, st: Seq<StatementView>, other: u64, id: u64)
    requires
        side_by_side(e, other, id),
        forall|i: int| 0 <= i < st.len() ==> on_rows(#[trigger] st[i]),
    ensures
        side_by_side(ran_all(run, e, st, Some(other)), other, id),
        alike(read_store(ran_all(run, e, st, Some(other)), Some(id)), read_store(e, Some(id))),
    decreases st.len(),
{
    lemma_alike_self(read_store(e, Some(id)));
    if st.len() > 0 {
        let d = st.drop_last();
        assert forall|i: int| 0 <= i < d.len() implies on_rows(#[trigger] d[i]) by {
            assert(d[i] == st[i]);
        }
        lemma_side_all(run, e, d, other, id);
        let m = ran_all(run, e, d, Some(other));
        let v = read_store(m, Some(other));
        assert(on_rows(st[st.len() - 1]));
        lemma_alike_self(read_store(m, Some(id)));
        match st.last() {
            StatementView::Insert(q) => {
                law_insert_is_recorded(informed(run, m), m.store, v, q);
                let w = insert_work(informed(run, m), m.store, v, q);
                lemma_side_noted(m, w.s, w.err is None, other, id);
            },
            StatementView::Update(q) => {
                law_update_is_recorded(informed(run, m), Some(other), m.store, v, q);
                let w = update_work(informed(run, m), Some(other), m.store, v, q);
                lemma_side_noted(m, w.s, w.err is None, other, id);
            },
            StatementView::Delete(q) => {
                law_delete_is_recorded(informed(run, m), Some(other), m.store, v, q);
                let w = delete_work(informed(run, m), Some(other), m.store, v, q);
                lemma_side_noted(m, w.s, w.err is None, other, id);
            },
            _ => {},
        }
        lemma_alike_chain(
            read_store(ran_all(run, e, st, Some(other)), Some(id)),
            read_store(m, Some(id)),
            read_store(e, Some(id)),
        );
    }
}

/// What a transaction above READ COMMITTED reads stays as it was when another one runs statements on
/// rows and then commits.
pub proof fn law_snapshot_is_stable(run: Run, e: EngineView, st: Seq<StatementView>, other: u64, id: u64)
    requires
        side_by_side(e, other, id),
        forall|i: int| 0 <= i < st.len() ==> on_rows(#[trigger] st[i]),
    ensures
        ({
            let w = ran_all(run, e, st, Some(other));
            alike(read_store(w, Some(id)), read_store(e, Some(id))) && alike(
                read_store(committed(w, Some(other)).e, Some(id)),
                read_store(e, Some(id)),
            )
        }),
{
    lemma_side_all(run, e, st, other, id);
    law_commit_leaves_snapshots(ran_all(run, e, st, Some(other)), other, id);
}

proof fn lemma_alike_self(s: StoreView)
    ensures
        alike(s, s),
{
}

proof fn lemma_txn_is(t: Seq<TxnView>, id: u64)
    ensures
        txn_at(t, id) matches Some(i) ==> 0 <= i < t.len() && t[i].id == id && forall|k: int| 0 <= k < i ==> (#[trigger] t[k]).id != id,
    decreases t.len(),
{
    if t.len() > 0 {
        lemma_txn_is(t.drop_last(), id);
        if txn_at(t.drop_last(), id) is None {
            lemma_txn_missing(t.drop_last(), id);
            assert forall|k: int| 0 <= k < t.len() - 1 implies (#[trigger] t[k]).id != id by {
                assert(t.drop_last()[k] == t[k]);
            }
        } else {
            let i = txn_at(t.drop_last(), id)->0;
            assert forall|k: int| 0 <= k < i implies (#[trigger] t[k]).id != id by {
                assert(t.drop_last()[k] == t[k]);
            }
        }
    }
}

proof fn lemma_txn_missing(t: Seq<TxnView>, id: u64)
    requires
        txn_at(t, id) is None,
    ensures
        forall|k: int| 0 <= k < t.len() ==> (#[trigger] t[k]).id != id,
    decreases t.len(),
{
    if t.len() > 0 {
        lemma_txn_missing(t.drop_last(), id);
        assert forall|k: int| 0 <= k < t.len() implies (#[trigger] t[k]).id != id by {
            if k < t.len() - 1 {
                assert(t.drop_last()[k] == t[k]);
            }
        }
    }
}

/// Taking another transaction out of the list leaves the place of one, but for the shift.
proof fn lemma_txn_removed(t: Seq<TxnView>, i: int, id: u64)
    requires
        0 <= i < t.len(),
        t[i].id != id,
        txn_at(t, id) is Some,
    ensures
        txn_at(t.remove(i), id) matches Some(k) && 0 <= k < t.len() - 1 && t.remove(i)[k] == t[txn_at(t, id)->0],
    decreases t.len(),
{
    let r = t.remove(i);
    let d = t.drop_last();
    lemma_txn_is(t, id);
    if i == t.len() - 1 {
        assert(r =~= d);
        lemma_txn_is(d, id);
    } else {
        assert(r.drop_last() =~= d.remove(i));
        assert(r.last() == t.last());
        if txn_at(d, id) is Some {
            lemma_txn_is(d, id);
            lemma_txn_removed(d, i, id);
        } else {
            lemma_txn_missing(d, id);
            assert forall|k: int| 0 <= k < d.remove(i).len() implies (#[trigger] d.remove(i)[k]).id != id by {
                if k < i {
                    assert(d.remove(i)[k] == d[k]);
                } else {
                    assert(d.remove(i)[k] == d[k + 1]);
                }
            }
            lemma_txn_none(d.remove(i), id);
        }
    }
}

proof fn lemma_unread(e: EngineView, w: StoreView, ok: bool, o: u64, id: u64)
    requires
        store_ok(e.store),
        e.store.log.len() == 0,
        recorded(e.store, w),
        o != id,
        txn_at(e.txns, o) matches Some(i) && 0 <= i < e.txns.len(),
        txn_at(e.txns, id) matches Some(j) && 0 <= j < e.txns.len() && e.txns[j].id == id,
    ensures
        alike(read_store(noted(e, w, ok, Some(o)), Some(id)), read_store(e, Some(id))),
{
    let j = txn_at(e.txns, id)->0;
    let a = noted(e, w, ok, Some(o));
    let eye = eye_of(e.txns[j]);
    assert(w.log.skip(0) =~= w.log);
    let stripped = StoreView { log: Seq::empty(), ..w };
    assert(alike(stripped, w));
    lemma_alike_undo_all(stripped, w, w.log);
    lemma_alike_chain(store_undo_all(stripped, w.log), store_undo_all(w, w.log), e.store);
    let i = txn_at(e.txns, o)->0;
    lemma_txn_is(e.txns, o);
    lemma_txn_at(e.txns, a.txns, id);
    assert(eye_of(a.txns[j]) == eye);
    law_unseen_changes(e.store, stripped, e.history, w.log, Some(o), None, eye);
}

// ---- own writes and lasting changes

/// Whether a transaction is under way that sees the tables as they are.
pub open spec fn up_to_date(e: EngineView, id: u64) -> bool {
    &&& store_ok(e.store)
    &&& e.store.log.len() == 0
    &&& txn_at(e.txns, id) matches Some(i) && 0 <= i < e.txns.len() && e.txns[i].id == id
    &&& alike(read_store(e, Some(id)), e.store)
}

proof fn lemma_own_write(e: EngineView, w: StoreView, ok: bool, id: u64)
    requires
        up_to_date(e, id),
        recorded(e.store, w),
    ensures
        up_to_date(noted(e, w, ok, Some(id)), id),
{
    let i = txn_at(e.txns, id)->0;
    let a = noted(e, w, ok, Some(id));
    let eye = eye_of(e.txns[i]);
    lemma_txn_at(e.txns, a.txns, id);
    assert(w.log.skip(0) =~= w.log);
    let stripped = StoreView { log: Seq::empty(), ..w };
    assert(alike(stripped, w));
    assert(alike(w, stripped));
    lemma_alike_undo_all(stripped, w, w.log);
    lemma_alike_chain(store_undo_all(stripped, w.log), store_undo_all(w, w.log), e.store);
    law_own_changes_are_seen(e.store, stripped, e.history, w.log, eye);
    let before = read_store(e, Some(id));
    lemma_alike_redo_all(before, e.store, w.log);
    lemma_alike_chain(read_store(a, Some(id)), store_redo_all(before, w.log), store_redo_all(e.store, w.log));
    lemma_alike_chain(read_store(a, Some(id)), store_redo_all(e.store, w.log), w);
    lemma_alike_chain(read_store(a, Some(id)), w, stripped);
    assert forall|j: int| 0 <= j < stripped.tables.len() implies well_kept(#[trigger] rows_at_table(stripped, j)) by {
        assert(well_kept(rows_at_table(w, j)));
    }
    assert(store_ok(stripped));
}

/// A transaction reads its own writes: where it sees the tables as they are, it still does after
/// each of its statements on rows, whether or not the statement succeeds.
pub proof fn law_own_writes_are_read(run: Run, e: EngineView, st: StatementView, id: u64)
    requires
        up_to_date(e, id),
        on_rows(st),
    ensures
        up_to_date(ran(run, e, st, Some(id)).e, id),
{
    let v = read_store(e, Some(id));
    match st {
        StatementView::Insert(q) => {
            law_insert_is_recorded(informed(run, e), e.store, v, q);
            let w = insert_work(informed(run, e), e.store, v, q);
            lemma_own_write(e, w.s, w.err is None, id);
        },
        StatementView::Update(q) => {
            law_update_is_recorded(informed(run, e), Some(id), e.store, v, q);
            let w = update_work(informed(run, e), Some(id), e.store, v, q);
            lemma_own_write(e, w.s, w.err is None, id);
        },
        StatementView::Delete(q) => {
            law_delete_is_recorded(informed(run, e), Some(id), e.store, v, q);
            let w = delete_work(informed(run, e), Some(id), e.store, v, q);
            lemma_own_write(e, w.s, w.err is None, id);
        },
        _ => {},
    }
}

proof fn lemma_lasting(e: EngineView, w: StoreView)
    requires
        e.store.log.len() == 0,
        e.logged,
        recorded(e.store, w),
    ensures
        ({
            let a = noted(e, w, true, None);
            let d = a.durable.skip(e.durable.len() as int);
            a.durable == e.durable + d && alike(store_redo_all(e.store, d), a.store)
        }),
{
    let a = noted(e, w, true, None);
    assert(w.log.skip(0) =~= w.log);
    assert(a.durable.skip(e.durable.len() as int) =~= w.log);
    let stripped = StoreView { log: Seq::empty(), ..w };
    assert(alike(w, stripped));
    lemma_alike_chain(store_redo_all(e.store, w.log), w, stripped);
}

/// What is kept of a statement on rows that succeeded on its own is enough to bring it about again:
/// its lasting changes, made on the tables from before, give the tables from after.
pub proof fn law_lasting_changes_replay(run: Run, e: EngineView, st: StatementView)
    requires
        engine_ok(e),
        e.logged,
        on_rows(st),
        ran(run, e, st, None).r is Ok,
    ensures
        ({
            let a = ran(run, e, st, None).e;
            let d = a.durable.skip(e.durable.len() as int);
            a.durable == e.durable + d && alike(store_redo_all(e.store, d), a.store)
        }),
{
    match st {
        StatementView::Insert(q) => {
            law_insert_is_recorded(informed(run, e), e.store, e.store, q);
            lemma_lasting(e, insert_work(informed(run, e), e.store, e.store, q).s);
        },
        StatementView::Update(q) => {
            law_update_is_recorded(informed(run, e), None, e.store, e.store, q);
            lemma_lasting(e, update_work(informed(run, e), None, e.store, e.store, q).s);
        },
        StatementView::Delete(q) => {
            law_delete_is_recorded(informed(run, e), None, e.store, e.store, q);
            lemma_lasting(e, delete_work(informed(run, e), None, e.store, e.store, q).s);
        },
        _ => {
            assert(e.durable.skip(e.durable.len() as int) =~= Seq::empty());
            assert(store_redo_all(e.store, Seq::empty()) == e.store);
        },
    }
}

/// Nothing that a transaction does lasts before it commits.
pub proof fn law_uncommitted_changes_do_not_last(run: Run, e: EngineView, st: StatementView, id: u64)
    requires
        on_rows(st),
    ensures
        ran(run, e, st, Some(id)).e.durable == e.durable,
        rolled_back(e, Some(id)).e.durable == e.durable,
{
}

/// Whether a transaction is under way whose changes so far, made on `s`, give the tables as they
/// are.
pub open spec fn would_replay(e: EngineView, id: u64, s: StoreView) -> bool {
    &&& store_ok(e.store)
    &&& e.store.log.len() == 0
    &&& e.logged
    &&& txn_at(e.txns, id) matches Some(i) && 0 <= i < e.txns.len() && alike(store_redo_all(s, e.txns[i].deltas), e.store)
}

proof fn lemma_replay_noted(e: EngineView, w: StoreView, id: u64, s: StoreView)
    requires
        would_replay(e, id, s),
        recorded(e.store, w),
    ensures
        would_replay(noted(e, w, true, Some(id)), id, s),
{
    let i = txn_at(e.txns, id)->0;
    let a = noted(e, w, true, Some(id));
    lemma_txn_at(e.txns, a.txns, id);
    assert(w.log.skip(0) =~= w.log);
    let stripped = StoreView { log: Seq::empty(), ..w };
    assert(alike(w, stripped));
    let d = e.txns[i].deltas;
    lemma_redo_in_parts(s, d, w.log);
    lemma_alike_redo_all(store_redo_all(s, d), e.store, w.log);
    lemma_alike_chain(store_redo_all(s, d + w.log), store_redo_all(e.store, w.log), w);
    lemma_alike_chain(store_redo_all(s, d + w.log), w, stripped);
    assert forall|j: int| 0 <= j < stripped.tables.len() implies well_kept(#[trigger] rows_at_table(stripped, j)) by {
        assert(well_kept(rows_at_table(w, j)));
    }
    assert(store_ok(stripped));
}

proof fn lemma_replay_statement(run: Run, e: EngineView, st: StatementView, id: u64, s: StoreView)
    requires
        would_replay(e, id, s),
        on_rows(st),
        ran(run, e, st, Some(id)).r is Ok,
    ensures
        would_replay(ran(run, e, st, Some(id)).e, id, s),
{
    let v = read_store(e, Some(id));
    match st {
        StatementView::Insert(q) => {
            law_insert_is_recorded(informed(run, e), e.store, v, q);
            lemma_replay_noted(e, insert_work(informed(run, e), e.store, v, q).s, id, s);
        },
        StatementView::Update(q) => {
            law_update_is_recorded(informed(run, e), Some(id), e.store, v, q);
            lemma_replay_noted(e, update_work(informed(run, e), Some(id), e.store, v, q).s, id, s);
        },
        StatementView::Delete(q) => {
            law_delete_is_recorded(informed(run, e), Some(id), e.store, v, q);
            lemma_replay_noted(e, delete_work(informed(run, e), Some(id), e.store, v, q).s, id, s);
        },
        _ => {},
    }
}

/// Whether statements that run one after the other in one transaction all succeed.
pub open spec fn all_ok(run: Run, e: EngineView, s: Seq<StatementView>, txn: Option<u64>) -> bool
    decreases s.len(),
{
    s.len() == 0 || (all_ok(run, e, s.drop_last(), txn) && ran(run, ran_all(run, e, s.drop_last(), txn), s.last(), txn).r is Ok)
}

proof fn lemma_replay_all(run: Run, e: EngineView, st: Seq<StatementView>, id: u64, s: StoreView)
    requires
        would_replay(e, id, s),
        all_ok(run, e, st, Some(id)),
        forall|i: int| 0 <= i < st.len() ==> on_rows(#[trigger] st[i]),
    ensures
        would_replay(ran_all(run, e, st, Some(id)), id, s),
        ran_all(run, e, st, Some(id)).durable == e.durable,
    decreases st.len(),
{
    if st.len() > 0 {
        let d = st.drop_last();
        assert forall|i: int| 0 <= i < d.len() implies on_rows(#[trigger] d[i]) by {
            assert(d[i] == st[i]);
        }
        lemma_replay_all(run, e, d, id, s);
        assert(on_rows(st[st.len() - 1]));
        lemma_replay_statement(run, ran_all(run, e, d, Some(id)), st.last(), id, s);
        law_uncommitted_changes_do_not_last(run, ran_all(run, e, d, Some(id)), st.last(), id);
    }
}

proof fn lemma_commit(w: EngineView, e: EngineView, id: u64)
    requires
        would_replay(w, id, e.store),
        w.durable == e.durable,
    ensures
        ({
            let c = committed(w, Some(id));
            let d = c.e.durable.skip(e.durable.len() as int);
            &&& c.r is Ok
            &&& c.e.store == w.store
            &&& c.e.durable == e.durable + d
            &&& alike(store_redo_all(e.store, d), c.e.store)
        }),
{
    let c = committed(w, Some(id)).e;
    let i = txn_at(w.txns, id)->0;
    assert(c.durable.skip(e.durable.len() as int) =~= w.txns[i].deltas);
}

proof fn lemma_begun(e: EngineView, level: IsolationLevel)
    requires
        store_ok(e.store),
        e.store.log.len() == 0,
        e.logged,
        e.next_txn < u64::MAX,
        forall|i: int| 0 <= i < e.txns.len() ==> (#[trigger] e.txns[i]).id < e.next_txn,
    ensures
        would_replay(begun(e, level).e, e.next_txn, e.store),
        begun(e, level).e.durable == e.durable,
{
    let x = TxnView { id: e.next_txn, level, snap: e.commits, undo: Seq::empty(), deltas: Seq::empty() };
    lemma_txn_new(e.txns, x);
    assert(store_redo_all(e.store, x.deltas) == e.store);
    lemma_alike_self(e.store);
}

/// COMMIT makes a transaction last as a whole: what it adds to the lasting changes, made on the
/// tables from when the transaction began, gives the tables that the transaction left. So it is where
/// all its statements succeeded and nothing else ran meanwhile.
pub proof fn law_commit_lasts(run: Run, e: EngineView, level: IsolationLevel, st: Seq<StatementView>)
    requires
        engine_ok(e),
        e.logged,
        e.next_txn < u64::MAX,
        forall|i: int| 0 <= i < st.len() ==> on_rows(#[trigger] st[i]),
        all_ok(run, begun(e, level).e, st, Some(e.next_txn)),
    ensures
        ({
            let w = ran_all(run, begun(e, level).e, st, Some(e.next_txn));
            let c = committed(w, Some(e.next_txn));
            let d = c.e.durable.skip(e.durable.len() as int);
            &&& c.r is Ok
            &&& c.e.store == w.store
            &&& c.e.durable == e.durable + d
            &&& alike(store_redo_all(e.store, d), c.e.store)
        }),
{
    let id = e.next_txn;
    lemma_begun(e, level);
    lemma_replay_all(run, begun(e, level).e, st, id, e.store);
    lemma_commit(ran_all(run, begun(e, level).e, st, Some(id)), e, id);
}

} // verus!
