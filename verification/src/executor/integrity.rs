use vstd::prelude::*;
use crate::parser::ast::{DeleteStmtView, ExprView, ForeignKeyDefView, InsertStmtView, OnConflictView, UpdateStmtView};
use crate::value::ValueView;
use super::constraints::{Run, after_number, carries, filled, fk_clash, fks_clash, taken, unique_clash};
use super::delete::{TargetView, all_targets, del_all, delete_work, doomed, hit_all, nulled};
use super::dml::{assigned, change_step, insert_step, insert_work, inserted, key_places, null_clash, source_rows, update_work, updated};
use super::grouping::picked;
use super::join::resized;
use super::keys::law_keys_level;
use super::rollback::{lemma_all_targets, lemma_counters_ok, lemma_del_all, lemma_doomed, lemma_filled_len, lemma_hit_all, lemma_index_range, lemma_inserted, lemma_updated, within};
use super::rows::{Rows, lemma_absent, lemma_place, place, row_of, well_kept};
use super::scope::{Env, NamesView, value_at};
use super::store::{StoreView, column_names, rows_at_table, store_del, store_ok, store_put, table_index, table_names, with_counters};
use super::table::{ColumnView, TableView};

verus! {

// ---- UNIQUE

/// Whether no two rows hold the same value, other than null, in column `c`.
pub open spec fn apart(rows: Seq<Seq<ValueView>>, c: int) -> bool {
    forall|j: int, k: int|
        0 <= j < k < rows.len() ==> {
            let v = #[trigger] value_at(rows[j], Some(c));
            v is Null || v != #[trigger] value_at(rows[k], Some(c))
        }
}

/// Whether the unique columns of a table hold no value twice.
pub open spec fn unique_rows(t: TableView, rows: Seq<Seq<ValueView>>) -> bool {
    forall|c: int| 0 <= c < t.columns.len() && (#[trigger] t.columns[c]).unique && !t.columns[c].primary_key ==> apart(rows, c)
}

/// Whether that holds of all tables.
pub open spec fn store_unique(s: StoreView) -> bool {
    forall|i: int| 0 <= i < s.tables.len() ==> unique_rows(#[trigger] s.tables[i], s.rows[i])
}

proof fn lemma_apart_insert(rows: Seq<Seq<ValueView>>, p: int, row: Seq<ValueView>, c: int)
    requires
        apart(rows, c),
        0 <= p <= rows.len(),
        value_at(row, Some(c)) is Null || forall|j: int| 0 <= j < rows.len() ==> #[trigger] value_at(rows[j], Some(c)) != value_at(row, Some(c)),
    ensures
        apart(rows.insert(p, row), c),
{
    let n = rows.insert(p, row);
    assert forall|j: int, k: int| 0 <= j < k < n.len() implies {
        let v = #[trigger] value_at(n[j], Some(c));
        v is Null || v != #[trigger] value_at(n[k], Some(c))
    } by {
        let a = if j < p {
            j
        } else {
            j - 1
        };
        let b = if k < p {
            k
        } else {
            k - 1
        };
        if j != p && k != p {
            assert(n[j] == rows[a]);
            assert(n[k] == rows[b]);
            assert(value_at(rows[a], Some(c)) is Null || value_at(rows[a], Some(c)) != value_at(rows[b], Some(c)));
        } else if j == p {
            assert(n[k] == rows[b]);
            assert(value_at(rows[b], Some(c)) == value_at(n[k], Some(c)));
        } else {
            assert(n[j] == rows[a]);
            assert(value_at(rows[a], Some(c)) == value_at(n[j], Some(c)));
        }
    }
}

proof fn lemma_apart_update(rows: Seq<Seq<ValueView>>, p: int, row: Seq<ValueView>, c: int)
    requires
        apart(rows, c),
        0 <= p < rows.len(),
        value_at(row, Some(c)) is Null || forall|j: int|
            0 <= j < rows.len() && j != p ==> #[trigger] value_at(rows[j], Some(c)) != value_at(row, Some(c)),
    ensures
        apart(rows.update(p, row), c),
{
    let n = rows.update(p, row);
    assert forall|j: int, k: int| 0 <= j < k < n.len() implies {
        let v = #[trigger] value_at(n[j], Some(c));
        v is Null || v != #[trigger] value_at(n[k], Some(c))
    } by {
        if j != p && k != p {
            assert(value_at(rows[j], Some(c)) is Null || value_at(rows[j], Some(c)) != value_at(rows[k], Some(c)));
        } else if j == p {
            assert(value_at(rows[k], Some(c)) == value_at(n[k], Some(c)));
        } else {
            assert(value_at(rows[j], Some(c)) == value_at(n[j], Some(c)));
        }
    }
}

proof fn lemma_apart_remove(rows: Seq<Seq<ValueView>>, p: int, c: int)
    requires
        apart(rows, c),
        0 <= p < rows.len(),
    ensures
        apart(rows.remove(p), c),
{
    let n = rows.remove(p);
    assert forall|j: int, k: int| 0 <= j < k < n.len() implies {
        let v = #[trigger] value_at(n[j], Some(c));
        v is Null || v != #[trigger] value_at(n[k], Some(c))
    } by {
        let a = if j < p {
            j
        } else {
            j + 1
        };
        let b = if k < p {
            k
        } else {
            k + 1
        };
        assert(n[j] == rows[a]);
        assert(n[k] == rows[b]);
        assert(value_at(rows[a], Some(c)) is Null || value_at(rows[a], Some(c)) != value_at(rows[b], Some(c)));
    }
}

proof fn lemma_no_clash(t: TableView, rows: Seq<Seq<ValueView>>, row: Seq<ValueView>, own: Option<Seq<ValueView>>, n: nat)
    requires
        unique_clash(t, rows, row, own, n) is None,
    ensures
        forall|c: int|
            0 <= c < n && (#[trigger] t.columns[c]).unique && !t.columns[c].primary_key ==> value_at(row, Some(c)) is Null
                || !taken(t.keys, rows, c, value_at(row, Some(c)), own),
    decreases n,
{
    if n > 0 {
        lemma_no_clash(t, rows, row, own, (n - 1) as nat);
    }
}

proof fn lemma_put_apart(r: Rows, k: Seq<ValueView>, row: Seq<ValueView>, own: Option<Seq<ValueView>>, c: int)
    requires
        well_kept(r),
        apart(r.rows, c),
        own is None || own == Some(k),
        value_at(row, Some(c)) is Null || !taken(r.keys, r.rows, c, value_at(row, Some(c)), own),
    ensures
        apart(super::rows::put(r, k, row).rows, c),
{
    lemma_place(r.keys, k);
    let p = place(r.keys, k);
    let v = value_at(row, Some(c));
    if p.1 {
        assert forall|j: int| 0 <= j < r.rows.len() && j != p.0 && !(v is Null) implies #[trigger] value_at(r.rows[j], Some(c)) != v by {
            law_keys_level(r.keys[j], r.keys[p.0]);
            law_keys_level(r.keys[p.0], r.keys[j]);
            if j < p.0 {
                assert(super::keys::key_order(r.keys[j], r.keys[p.0], 0) == crate::value::Order::Less);
            } else {
                assert(super::keys::key_order(r.keys[p.0], r.keys[j], 0) == crate::value::Order::Less);
            }
            assert(own != Some(r.keys[j]));
        }
        lemma_apart_update(r.rows, p.0, row, c);
    } else {
        lemma_absent(r, k);
        assert forall|j: int| 0 <= j < r.rows.len() && !(v is Null) implies #[trigger] value_at(r.rows[j], Some(c)) != v by {
            assert(r.keys[j] != k);
            assert(own != Some(r.keys[j]));
        }
        lemma_apart_insert(r.rows, p.0, row, c);
    }
}

proof fn lemma_put_unique(s: StoreView, i: int, k: Seq<ValueView>, row: Seq<ValueView>, own: Option<Seq<ValueView>>)
    requires
        store_ok(s),
        store_unique(s),
        0 <= i < s.tables.len(),
        own is None || own == Some(k),
        unique_clash(s.tables[i], s.rows[i], row, own, s.tables[i].columns.len()) is None,
    ensures
        store_unique(store_put(s, i, k, row)),
{
    let t = s.tables[i];
    let n = store_put(s, i, k, row);
    assert(well_kept(rows_at_table(s, i)));
    lemma_no_clash(t, s.rows[i], row, own, t.columns.len());
    assert forall|j: int| 0 <= j < n.tables.len() implies unique_rows(#[trigger] n.tables[j], n.rows[j]) by {
        assert(unique_rows(s.tables[j], s.rows[j]));
        if j == i {
            assert forall|c: int| 0 <= c < n.tables[j].columns.len() && (#[trigger] n.tables[j].columns[c]).unique
                && !n.tables[j].columns[c].primary_key implies apart(n.rows[j], c) by {
                assert(t.columns[c] == n.tables[j].columns[c]);
                lemma_put_apart(rows_at_table(s, i), k, row, own, c);
            }
        }
    }
}

proof fn lemma_del_unique(s: StoreView, i: int, k: Seq<ValueView>)
    requires
        store_ok(s),
        store_unique(s),
        0 <= i < s.tables.len(),
    ensures
        store_unique(store_del(s, i, k)),
{
    let n = store_del(s, i, k);
    let r = rows_at_table(s, i);
    assert(well_kept(r));
    lemma_place(r.keys, k);
    assert forall|j: int| 0 <= j < n.tables.len() implies unique_rows(#[trigger] n.tables[j], n.rows[j]) by {
        assert(unique_rows(s.tables[j], s.rows[j]));
        if j == i && place(r.keys, k).1 {
            assert forall|c: int| 0 <= c < n.tables[j].columns.len() && (#[trigger] n.tables[j].columns[c]).unique
                && !n.tables[j].columns[c].primary_key implies apart(n.rows[j], c) by {
                assert(s.tables[i].columns[c] == n.tables[j].columns[c]);
                lemma_apart_remove(s.rows[i], place(r.keys, k).0, c);
            }
        }
    }
}

proof fn lemma_counters_unique(s: StoreView, i: int, seqs: Seq<i64>, n: i64)
    requires
        store_unique(s),
        0 <= i < s.tables.len(),
    ensures
        store_unique(with_counters(s, i, seqs, n)),
{
    let t = with_counters(s, i, seqs, n);
    assert forall|j: int| 0 <= j < t.tables.len() implies unique_rows(#[trigger] t.tables[j], t.rows[j]) by {
        assert(unique_rows(s.tables[j], s.rows[j]));
        assert forall|c: int| 0 <= c < t.tables[j].columns.len() && (#[trigger] t.tables[j].columns[c]).unique
            && !t.tables[j].columns[c].primary_key implies apart(t.rows[j], c) by {
            assert(s.tables[j].columns[c] == t.tables[j].columns[c]);
        }
    }
}

/// Whether an INSERT leaves the rows alone whose keys are taken.
pub open spec fn adds_only(oc: Option<OnConflictView>) -> bool {
    match oc {
        Some(c) => c.action is DoNothing,
        None => true,
    }
}

proof fn lemma_insert_unique(run: Run, s: StoreView, i: int, row: Seq<ValueView>, oc: Option<OnConflictView>)
    requires
        store_ok(s),
        store_unique(s),
        0 <= i < s.tables.len(),
        adds_only(oc),
    ensures
        store_unique(insert_step(run, s, i, row, oc).s),
{
    let t = s.tables[i];
    assert(t.seqs.len() == t.columns.len());
    let f = filled(run.m, t.columns, t.seqs, resized(row, t.columns.len()), t.columns.len());
    lemma_filled_len(run.m, t.columns, t.seqs, resized(row, t.columns.len()), t.columns.len());
    let s1 = with_counters(s, i, f.seqs, t.next_rowid);
    lemma_counters_ok(s, i, f.seqs, t.next_rowid);
    lemma_counters_unique(s, i, f.seqs, t.next_rowid);
    let st = insert_step(run, s, i, row, oc);
    if st.s != s1 {
        let at = key_places(t.columns);
        assert(unique_clash(s1.tables[i], s1.rows[i], f.row, None, s1.tables[i].columns.len()) is None);
        if at.len() == 0 {
            let n = after_number(t.next_rowid);
            let s2 = with_counters(s1, i, f.seqs, n);
            lemma_counters_ok(s1, i, f.seqs, n);
            lemma_counters_unique(s1, i, f.seqs, n);
            lemma_same_clash(s1.tables[i], s2.tables[i], s1.rows[i], f.row, s1.tables[i].columns.len());
            if st.s != s2 {
                lemma_put_unique(s2, i, seq![ValueView::Int64(t.next_rowid)], f.row, None);
            }
        } else {
            lemma_put_unique(s1, i, picked(f.row, at), f.row, None);
        }
    }
}

proof fn lemma_same_clash(a: TableView, b: TableView, rows: Seq<Seq<ValueView>>, row: Seq<ValueView>, n: nat)
    requires
        a.columns == b.columns,
        a.keys == b.keys,
    ensures
        unique_clash(a, rows, row, None, n) == unique_clash(b, rows, row, None, n),
    decreases n,
{
    if n > 0 {
        lemma_same_clash(a, b, rows, row, (n - 1) as nat);
    }
}

proof fn lemma_inserted_unique(run: Run, s: StoreView, i: int, rows: Seq<Seq<ValueView>>, oc: Option<OnConflictView>)
    requires
        store_ok(s),
        store_unique(s),
        0 <= i < s.tables.len(),
        adds_only(oc),
    ensures
        store_unique(inserted(run, s, i, rows, oc).s),
    decreases rows.len(),
{
    if rows.len() > 0 {
        lemma_inserted_unique(run, s, i, rows.drop_last(), oc);
        lemma_inserted(run, s, i, rows.drop_last(), oc);
        let w = inserted(run, s, i, rows.drop_last(), oc);
        if w.err is None {
            lemma_insert_unique(run, w.s, i, rows.last(), oc);
        }
    }
}

/// INSERT keeps the values of unique columns apart, also where it fails.
pub proof fn law_insert_keeps_unique(run: Run, s: StoreView, v: StoreView, q: InsertStmtView)
    requires
        store_ok(s),
        store_unique(s),
        adds_only(q.on_conflict),
    ensures
        store_unique(insert_work(run, s, v, q).s),
{
    lemma_index_range(table_names(s.tables), q.table);
    match (source_rows(run, s, v, q), table_index(s, q.table)) {
        (Ok(rows), Some(i)) => {
            lemma_inserted_unique(run, s, i, rows, q.on_conflict);
        },
        _ => {},
    }
}

proof fn lemma_updated_unique(
    run: Run,
    txn: Option<u64>,
    s: StoreView,
    i: int,
    keys: Seq<Seq<ValueView>>,
    rows: Seq<Seq<ValueView>>,
    a: Seq<(Seq<char>, ExprView)>,
    filter: Option<ExprView>,
)
    requires
        store_ok(s),
        store_unique(s),
        0 <= i < s.tables.len(),
    ensures
        store_unique(updated(run, txn, s, i, keys, rows, a, filter).s),
    decreases rows.len(),
{
    if rows.len() > 0 {
        lemma_updated_unique(run, txn, s, i, keys, rows.drop_last(), a, filter);
        lemma_updated(run, txn, s, i, keys, rows.drop_last(), a, filter);
        let w = updated(run, txn, s, i, keys, rows.drop_last(), a, filter);
        if w.err is None {
            let k = keys[rows.len() - 1];
            let p = change_step(run, txn, w.s, i, k, rows.last(), a, filter);
            match p.r {
                Ok(Some(new)) => {
                    lemma_put_unique(w.s, i, k, new, Some(k));
                },
                _ => {},
            }
        }
    }
}

/// UPDATE keeps the values of unique columns apart, also where it fails.
pub proof fn law_update_keeps_unique(run: Run, txn: Option<u64>, s: StoreView, v: StoreView, q: UpdateStmtView)
    requires
        store_ok(s),
        store_unique(s),
    ensures
        store_unique(update_work(run, txn, s, v, q).s),
{
    lemma_index_range(table_names(s.tables), q.table);
    match table_index(s, q.table) {
        Some(i) => {
            lemma_updated_unique(run, txn, s, i, v.tables[i].keys, v.rows[i], q.assignments, q.where_clause);
        },
        None => {},
    }
}

proof fn lemma_nulled_unique(s: StoreView, i: int, k: Seq<ValueView>, at: Seq<int>)
    requires
        store_ok(s),
        store_unique(s),
        0 <= i < s.tables.len(),
        row_of(rows_at_table(s, i), k) is Some,
    ensures
        store_unique(store_put(s, i, k, nulled(row_of(rows_at_table(s, i), k)->0, at))),
{
    let r = rows_at_table(s, i);
    let row = row_of(r, k)->0;
    let new = nulled(row, at);
    let n = store_put(s, i, k, new);
    assert(well_kept(r));
    lemma_place(r.keys, k);
    let p = place(r.keys, k).0;
    assert forall|j: int| 0 <= j < n.tables.len() implies unique_rows(#[trigger] n.tables[j], n.rows[j]) by {
        assert(unique_rows(s.tables[j], s.rows[j]));
        if j == i {
            assert forall|c: int| 0 <= c < n.tables[j].columns.len() && (#[trigger] n.tables[j].columns[c]).unique
                && !n.tables[j].columns[c].primary_key implies apart(n.rows[j], c) by {
                assert(s.tables[i].columns[c] == n.tables[j].columns[c]);
                let v = value_at(new, Some(c));
                assert(v is Null || v == value_at(row, Some(c)));
                assert forall|m: int| 0 <= m < r.rows.len() && m != p && !(v is Null) implies #[trigger] value_at(r.rows[m], Some(c)) != v by {
                    if m < p {
                        assert(value_at(r.rows[m], Some(c)) is Null || value_at(r.rows[m], Some(c)) != value_at(r.rows[p], Some(c)));
                    } else {
                        assert(value_at(r.rows[p], Some(c)) is Null || value_at(r.rows[p], Some(c)) != value_at(r.rows[m], Some(c)));
                    }
                }
                lemma_apart_update(r.rows, p, new, c);
            }
        }
    }
}

proof fn lemma_hit_all_unique(s: StoreView, t: Seq<TargetView>)
    requires
        store_ok(s),
        store_unique(s),
        within(t, s.tables.len()),
    ensures
        store_unique(hit_all(s, t)),
    decreases t.len(),
{
    if t.len() > 0 {
        let d = t.drop_last();
        assert forall|j: int| 0 <= j < d.len() implies 0 <= (#[trigger] d[j]).i < s.tables.len() by {
            assert(d[j] == t[j]);
        }
        lemma_hit_all_unique(s, d);
        lemma_hit_all(s, d);
        let h = hit_all(s, d);
        let x = t.last();
        assert(x == t[t.len() - 1]);
        lemma_del_unique(h, x.i, x.key);
        if row_of(rows_at_table(h, x.i), x.key) is Some {
            lemma_nulled_unique(h, x.i, x.key, x.at);
        }
    }
}

proof fn lemma_doomed_unique(run: Run, txn: Option<u64>, s: StoreView, i: int, keys: Seq<Seq<ValueView>>, rows: Seq<Seq<ValueView>>, filter: Option<ExprView>)
    requires
        store_ok(s),
        store_unique(s),
        0 <= i < s.tables.len(),
    ensures
        store_unique(doomed(run, txn, s, i, keys, rows, filter).s),
    decreases rows.len(),
{
    if rows.len() > 0 {
        lemma_doomed_unique(run, txn, s, i, keys, rows.drop_last(), filter);
        lemma_doomed(run, txn, s, i, keys, rows.drop_last(), filter);
        let d = doomed(run, txn, s, i, keys, rows.drop_last(), filter);
        if d.err is None {
            lemma_all_targets(d.s, i, rows.last(), d.s.tables.len());
            match all_targets(d.s, i, rows.last(), d.s.tables.len()) {
                Ok(t) => {
                    lemma_hit_all_unique(d.s, t);
                },
                Err(_) => {},
            }
        }
    }
}

proof fn lemma_del_all_unique(s: StoreView, i: int, keys: Seq<Seq<ValueView>>)
    requires
        store_ok(s),
        store_unique(s),
        0 <= i < s.tables.len(),
    ensures
        store_unique(del_all(s, i, keys)),
    decreases keys.len(),
{
    if keys.len() > 0 {
        lemma_del_all_unique(s, i, keys.drop_last());
        lemma_del_all(s, i, keys.drop_last());
        lemma_del_unique(del_all(s, i, keys.drop_last()), i, keys.last());
    }
}

/// DELETE keeps the values of unique columns apart, in other tables too, also where it fails.
pub proof fn law_delete_keeps_unique(run: Run, txn: Option<u64>, s: StoreView, v: StoreView, q: DeleteStmtView)
    requires
        store_ok(s),
        store_unique(s),
    ensures
        store_unique(delete_work(run, txn, s, v, q).s),
{
    lemma_index_range(table_names(s.tables), q.table);
    match table_index(s, q.table) {
        Some(i) => {
            lemma_doomed_unique(run, txn, s, i, v.tables[i].keys, v.rows[i], q.where_clause);
            lemma_doomed(run, txn, s, i, v.tables[i].keys, v.rows[i], q.where_clause);
            let d = doomed(run, txn, s, i, v.tables[i].keys, v.rows[i], q.where_clause);
            lemma_del_all_unique(d.s, i, d.keys);
        },
        None => {},
    }
}

// ---- NOT NULL

/// Whether a row has a value for each column, and one that is not null where the column wants it.
pub open spec fn whole(cols: Seq<ColumnView>, row: Seq<ValueView>) -> bool {
    row.len() >= cols.len() && forall|c: int| 0 <= c < cols.len() && !(#[trigger] cols[c]).nullable ==> !(row[c] is Null)
}

/// Whether all rows of all tables are whole.
pub open spec fn store_whole(s: StoreView) -> bool {
    forall|i: int, j: int|
        0 <= i < s.tables.len() && 0 <= j < s.rows[i].len() ==> whole(#[trigger] s.tables[i].columns, #[trigger] s.rows[i][j])
}

proof fn lemma_put_whole(s: StoreView, i: int, k: Seq<ValueView>, row: Seq<ValueView>)
    requires
        store_ok(s),
        store_whole(s),
        0 <= i < s.tables.len(),
        whole(s.tables[i].columns, row),
    ensures
        store_whole(store_put(s, i, k, row)),
{
    let n = store_put(s, i, k, row);
    let r = rows_at_table(s, i);
    assert(well_kept(r));
    lemma_place(r.keys, k);
    let p = place(r.keys, k);
    assert forall|a: int, j: int| 0 <= a < n.tables.len() && 0 <= j < n.rows[a].len() implies whole(
        #[trigger] n.tables[a].columns,
        #[trigger] n.rows[a][j],
    ) by {
        assert(n.tables[a].columns == s.tables[a].columns);
        if a != i {
            assert(whole(s.tables[a].columns, s.rows[a][j]));
        } else if p.1 {
            if j != p.0 {
                assert(whole(s.tables[a].columns, s.rows[a][j]));
            }
        } else {
            if j < p.0 {
                assert(whole(s.tables[a].columns, s.rows[a][j]));
            } else if j > p.0 {
                assert(whole(s.tables[a].columns, s.rows[a][j - 1]));
            }
        }
    }
}

proof fn lemma_counters_whole(s: StoreView, i: int, seqs: Seq<i64>, n: i64)
    requires
        store_whole(s),
        0 <= i < s.tables.len(),
    ensures
        store_whole(with_counters(s, i, seqs, n)),
{
    let t = with_counters(s, i, seqs, n);
    assert forall|a: int, j: int| 0 <= a < t.tables.len() && 0 <= j < t.rows[a].len() implies whole(
        #[trigger] t.tables[a].columns,
        #[trigger] t.rows[a][j],
    ) by {
        assert(whole(s.tables[a].columns, s.rows[a][j]));
    }
}

proof fn lemma_filled_whole(m: super::unit::Unit, cols: Seq<ColumnView>, seqs: Seq<i64>, row: Seq<ValueView>, n: nat)
    requires
        n <= cols.len() <= row.len(),
        n <= seqs.len(),
        filled(m, cols, seqs, row, n).err is None,
    ensures
        filled(m, cols, seqs, row, n).row.len() == row.len(),
        forall|c: int| 0 <= c < n && !(#[trigger] cols[c]).nullable ==> !(filled(m, cols, seqs, row, n).row[c] is Null),
    decreases n,
{
    if n > 0 {
        lemma_filled_whole(m, cols, seqs, row, (n - 1) as nat);
    }
}

proof fn lemma_insert_whole(run: Run, s: StoreView, i: int, row: Seq<ValueView>, oc: Option<OnConflictView>)
    requires
        store_ok(s),
        store_whole(s),
        0 <= i < s.tables.len(),
        adds_only(oc),
    ensures
        store_whole(insert_step(run, s, i, row, oc).s),
{
    let t = s.tables[i];
    assert(t.seqs.len() == t.columns.len());
    let wide = resized(row, t.columns.len());
    let f = filled(run.m, t.columns, t.seqs, wide, t.columns.len());
    lemma_filled_len(run.m, t.columns, t.seqs, wide, t.columns.len());
    let s1 = with_counters(s, i, f.seqs, t.next_rowid);
    lemma_counters_ok(s, i, f.seqs, t.next_rowid);
    lemma_counters_whole(s, i, f.seqs, t.next_rowid);
    let st = insert_step(run, s, i, row, oc);
    if st.s != s1 {
        lemma_filled_whole(run.m, t.columns, t.seqs, wide, t.columns.len());
        let at = key_places(t.columns);
        if at.len() == 0 {
            let n = after_number(t.next_rowid);
            let s2 = with_counters(s1, i, f.seqs, n);
            lemma_counters_ok(s1, i, f.seqs, n);
            lemma_counters_whole(s1, i, f.seqs, n);
            if st.s != s2 {
                lemma_put_whole(s2, i, seq![ValueView::Int64(t.next_rowid)], f.row);
            }
        } else {
            lemma_put_whole(s1, i, picked(f.row, at), f.row);
        }
    }
}

proof fn lemma_inserted_whole(run: Run, s: StoreView, i: int, rows: Seq<Seq<ValueView>>, oc: Option<OnConflictView>)
    requires
        store_ok(s),
        store_whole(s),
        0 <= i < s.tables.len(),
        adds_only(oc),
    ensures
        store_whole(inserted(run, s, i, rows, oc).s),
    decreases rows.len(),
{
    if rows.len() > 0 {
        lemma_inserted_whole(run, s, i, rows.drop_last(), oc);
        lemma_inserted(run, s, i, rows.drop_last(), oc);
        let w = inserted(run, s, i, rows.drop_last(), oc);
        if w.err is None {
            lemma_insert_whole(run, w.s, i, rows.last(), oc);
        }
    }
}

/// INSERT puts no row in that misses a value or holds null where a column does not take it.
pub proof fn law_insert_keeps_not_null(run: Run, s: StoreView, v: StoreView, q: InsertStmtView)
    requires
        store_ok(s),
        store_whole(s),
        adds_only(q.on_conflict),
    ensures
        store_whole(insert_work(run, s, v, q).s),
{
    lemma_index_range(table_names(s.tables), q.table);
    match (source_rows(run, s, v, q), table_index(s, q.table)) {
        (Ok(rows), Some(i)) => {
            lemma_inserted_whole(run, s, i, rows, q.on_conflict);
        },
        _ => {},
    }
}

proof fn lemma_assigned_len(env: Env, n: NamesView, row: Seq<ValueView>, a: Seq<(Seq<char>, ExprView)>)
    ensures
        assigned(env, n, row, a).len() >= n.columns.len(),
    decreases a.len(),
{
    if a.len() > 0 {
        lemma_assigned_len(env, n, row, a.drop_last());
        lemma_index_range(n.columns, a.last().0);
    }
}

proof fn lemma_no_null(cols: Seq<ColumnView>, row: Seq<ValueView>, n: nat)
    requires
        null_clash(cols, row, n) is None,
        n <= row.len(),
    ensures
        forall|c: int| 0 <= c < n && !(#[trigger] cols[c]).nullable ==> !(row[c] is Null),
    decreases n,
{
    if n > 0 {
        lemma_no_null(cols, row, (n - 1) as nat);
    }
}

proof fn lemma_updated_whole(
    run: Run,
    txn: Option<u64>,
    s: StoreView,
    i: int,
    keys: Seq<Seq<ValueView>>,
    rows: Seq<Seq<ValueView>>,
    a: Seq<(Seq<char>, ExprView)>,
    filter: Option<ExprView>,
)
    requires
        store_ok(s),
        store_whole(s),
        0 <= i < s.tables.len(),
    ensures
        store_whole(updated(run, txn, s, i, keys, rows, a, filter).s),
    decreases rows.len(),
{
    if rows.len() > 0 {
        lemma_updated_whole(run, txn, s, i, keys, rows.drop_last(), a, filter);
        lemma_updated(run, txn, s, i, keys, rows.drop_last(), a, filter);
        let w = updated(run, txn, s, i, keys, rows.drop_last(), a, filter);
        if w.err is None {
            let k = keys[rows.len() - 1];
            let t = w.s.tables[i];
            let p = change_step(run, txn, w.s, i, k, rows.last(), a, filter);
            match p.r {
                Ok(Some(new)) => {
                    let n = super::constraints::table_scope(t);
                    lemma_assigned_len(super::constraints::run_env(run, w.s), n, rows.last(), a);
                    assert(n.columns.len() == t.columns.len());
                    lemma_no_null(t.columns, new, t.columns.len());
                    lemma_put_whole(w.s, i, k, new);
                },
                _ => {},
            }
        }
    }
}

/// UPDATE puts no null where a column does not take it.
pub proof fn law_update_keeps_not_null(run: Run, txn: Option<u64>, s: StoreView, v: StoreView, q: UpdateStmtView)
    requires
        store_ok(s),
        store_whole(s),
    ensures
        store_whole(update_work(run, txn, s, v, q).s),
{
    lemma_index_range(table_names(s.tables), q.table);
    match table_index(s, q.table) {
        Some(i) => {
            lemma_updated_whole(run, txn, s, i, v.tables[i].keys, v.rows[i], q.assignments, q.where_clause);
        },
        None => {},
    }
}

// ---- FOREIGN KEY

/// Whether each row of each table meets the foreign keys of its table.
pub open spec fn store_linked(s: StoreView) -> bool {
    forall|i: int, j: int|
        0 <= i < s.tables.len() && 0 <= j < s.rows[i].len() ==> linked(s, #[trigger] s.tables[i], #[trigger] s.rows[i][j])
}

/// Whether a row meets the foreign keys of its table.
pub open spec fn linked(s: StoreView, t: TableView, row: Seq<ValueView>) -> bool {
    forall|k: int| 0 <= k < t.fks.len() ==> fk_clash(s, column_names(t.columns), row, #[trigger] t.fks[k], false) is None
}

/// Whether a store has the rows of another and maybe more, in tables of the same shapes.
spec fn grown(s: StoreView, n: StoreView) -> bool {
    &&& n.tables.len() == s.tables.len()
    &&& n.rows.len() == s.rows.len()
    &&& forall|i: int| 0 <= i < s.tables.len() ==> same_shape(s.tables[i], #[trigger] n.tables[i])
    &&& forall|i: int, j: int| 0 <= i < s.tables.len() && 0 <= j < s.rows[i].len() ==> n.rows[i].contains(#[trigger] s.rows[i][j])
}

spec fn same_shape(a: TableView, b: TableView) -> bool {
    a.name == b.name && a.columns == b.columns && a.fks == b.fks
}

proof fn lemma_grown_linked(s: StoreView, n: StoreView, t: TableView, u: TableView, row: Seq<ValueView>)
    requires
        s.rows.len() == s.tables.len(),
        grown(s, n),
        linked(s, t, row),
        same_shape(t, u),
    ensures
        linked(n, u, row),
{
    assert(table_names(n.tables) =~= table_names(s.tables)) by {
        assert forall|i: int| 0 <= i < s.tables.len() implies n.tables[i].name == s.tables[i].name by {
            assert(same_shape(s.tables[i], n.tables[i]));
        }
    }
    assert forall|k: int| 0 <= k < u.fks.len() implies fk_clash(n, column_names(u.columns), row, #[trigger] u.fks[k], false) is None by {
        let fk = t.fks[k];
        assert(fk_clash(s, column_names(t.columns), row, fk, false) is None);
        lemma_index_range(table_names(s.tables), fk.ref_table);
        let vals = picked(row, super::constraints::places_of(column_names(t.columns), fk.columns));
        if !super::constraints::holds_null(vals) {
            let p = table_index(s, fk.ref_table)->0;
            assert(same_shape(s.tables[p], n.tables[p]));
            let at = super::constraints::places_of(column_names(s.tables[p].columns), fk.ref_columns);
            let j = choose|j: int| 0 <= j < s.rows[p].len() && #[trigger] carries(s.rows[p][j], at, vals);
            assert(n.rows[p].contains(s.rows[p][j]));
            let m = choose|m: int| 0 <= m < n.rows[p].len() && n.rows[p][m] == s.rows[p][j];
            assert(carries(n.rows[p][m], at, vals));
        }
    }
}

proof fn lemma_put_linked(s: StoreView, i: int, k: Seq<ValueView>, row: Seq<ValueView>)
    requires
        store_ok(s),
        store_linked(s),
        0 <= i < s.tables.len(),
        linked(s, s.tables[i], row),
        !place(s.tables[i].keys, k).1,
    ensures
        store_linked(store_put(s, i, k, row)),
{
    let n = store_put(s, i, k, row);
    let r = rows_at_table(s, i);
    assert(well_kept(r));
    lemma_place(r.keys, k);
    let p = place(r.keys, k).0;
    assert forall|a: int, j: int| 0 <= a < s.tables.len() && 0 <= j < s.rows[a].len() implies n.rows[a].contains(
        #[trigger] s.rows[a][j],
    ) by {
        if a == i {
            let m = if j < p {
                j
            } else {
                j + 1
            };
            assert(n.rows[a][m] == s.rows[a][j]);
        } else {
            assert(n.rows[a][j] == s.rows[a][j]);
        }
    }
    assert forall|a: int| 0 <= a < s.tables.len() implies same_shape(s.tables[a], #[trigger] n.tables[a]) by {}
    assert(grown(s, n));
    assert forall|a: int, j: int| 0 <= a < n.tables.len() && 0 <= j < n.rows[a].len() implies linked(
        n,
        #[trigger] n.tables[a],
        #[trigger] n.rows[a][j],
    ) by {
        assert(same_shape(s.tables[a], n.tables[a]));
        let old_row = if a != i || j < p {
            s.rows[a][j]
        } else if j > p {
            s.rows[a][j - 1]
        } else {
            row
        };
        assert(n.rows[a][j] == old_row);
        assert(linked(s, s.tables[a], old_row));
        lemma_grown_linked(s, n, s.tables[a], n.tables[a], old_row);
    }
}

proof fn lemma_counters_linked(s: StoreView, i: int, seqs: Seq<i64>, n: i64)
    requires
        s.rows.len() == s.tables.len(),
        store_linked(s),
        0 <= i < s.tables.len(),
    ensures
        store_linked(with_counters(s, i, seqs, n)),
        forall|row: Seq<ValueView>| linked(s, s.tables[i], row) ==> linked(with_counters(s, i, seqs, n), #[trigger] with_counters(s, i, seqs, n).tables[i], row),
{
    let t = with_counters(s, i, seqs, n);
    assert forall|a: int, j: int| 0 <= a < s.tables.len() && 0 <= j < s.rows[a].len() implies t.rows[a].contains(
        #[trigger] s.rows[a][j],
    ) by {
        assert(t.rows[a][j] == s.rows[a][j]);
    }
    assert forall|a: int| 0 <= a < s.tables.len() implies same_shape(s.tables[a], #[trigger] t.tables[a]) by {}
    assert(grown(s, t));
    assert forall|a: int, j: int| 0 <= a < t.tables.len() && 0 <= j < t.rows[a].len() implies linked(
        t,
        #[trigger] t.tables[a],
        #[trigger] t.rows[a][j],
    ) by {
        assert(same_shape(s.tables[a], t.tables[a]));
        assert(linked(s, s.tables[a], s.rows[a][j]));
        lemma_grown_linked(s, t, s.tables[a], t.tables[a], s.rows[a][j]);
    }
    assert forall|row: Seq<ValueView>| linked(s, s.tables[i], row) implies linked(t, #[trigger] t.tables[i], row) by {
        lemma_grown_linked(s, t, s.tables[i], t.tables[i], row);
    }
}

proof fn lemma_no_fk_clash(s: StoreView, columns: Seq<Seq<char>>, row: Seq<ValueView>, fks: Seq<ForeignKeyDefView>, n: nat)
    requires
        fks_clash(s, columns, row, fks, false, n) is None,
    ensures
        forall|k: int| 0 <= k < n ==> fk_clash(s, columns, row, #[trigger] fks[k], false) is None,
    decreases n,
{
    if n > 0 {
        lemma_no_fk_clash(s, columns, row, fks, (n - 1) as nat);
    }
}

proof fn lemma_insert_linked(run: Run, s: StoreView, i: int, row: Seq<ValueView>, oc: Option<OnConflictView>)
    requires
        store_ok(s),
        store_linked(s),
        0 <= i < s.tables.len(),
        adds_only(oc),
    ensures
        store_linked(insert_step(run, s, i, row, oc).s),
{
    let t = s.tables[i];
    assert(t.seqs.len() == t.columns.len());
    let wide = resized(row, t.columns.len());
    let f = filled(run.m, t.columns, t.seqs, wide, t.columns.len());
    lemma_filled_len(run.m, t.columns, t.seqs, wide, t.columns.len());
    let s1 = with_counters(s, i, f.seqs, t.next_rowid);
    lemma_counters_ok(s, i, f.seqs, t.next_rowid);
    lemma_counters_linked(s, i, f.seqs, t.next_rowid);
    let st = insert_step(run, s, i, row, oc);
    if st.s != s1 {
        let t1 = s1.tables[i];
        lemma_no_fk_clash(s1, column_names(t1.columns), f.row, t1.fks, t1.fks.len());
        assert(linked(s1, t1, f.row));
        let at = key_places(t.columns);
        if at.len() == 0 {
            let n = after_number(t.next_rowid);
            let s2 = with_counters(s1, i, f.seqs, n);
            lemma_counters_ok(s1, i, f.seqs, n);
            lemma_counters_linked(s1, i, f.seqs, n);
            let k = seq![ValueView::Int64(t.next_rowid)];
            assert(linked(s2, s2.tables[i], f.row));
            if st.s != s2 {
                lemma_absent_key(s2, i, k);
                lemma_put_linked(s2, i, k, f.row);
            }
        } else {
            let k = picked(f.row, at);
            lemma_absent_key(s1, i, k);
            lemma_put_linked(s1, i, k, f.row);
        }
    }
}

/// A key that has no row has no place.
proof fn lemma_absent_key(s: StoreView, i: int, k: Seq<ValueView>)
    requires
        store_ok(s),
        0 <= i < s.tables.len(),
        row_of(rows_at_table(s, i), k) is None,
    ensures
        !place(s.tables[i].keys, k).1,
{
    assert(well_kept(rows_at_table(s, i)));
    lemma_place(s.tables[i].keys, k);
}

proof fn lemma_inserted_linked(run: Run, s: StoreView, i: int, rows: Seq<Seq<ValueView>>, oc: Option<OnConflictView>)
    requires
        store_ok(s),
        store_linked(s),
        0 <= i < s.tables.len(),
        adds_only(oc),
    ensures
        store_linked(inserted(run, s, i, rows, oc).s),
    decreases rows.len(),
{
    if rows.len() > 0 {
        lemma_inserted_linked(run, s, i, rows.drop_last(), oc);
        lemma_inserted(run, s, i, rows.drop_last(), oc);
        let w = inserted(run, s, i, rows.drop_last(), oc);
        if w.err is None {
            lemma_insert_linked(run, w.s, i, rows.last(), oc);
        }
    }
}

/// INSERT leaves no row, neither a new one nor one that was there, without the row that its foreign
/// key wants.
pub proof fn law_insert_keeps_links(run: Run, s: StoreView, v: StoreView, q: InsertStmtView)
    requires
        store_ok(s),
        store_linked(s),
        adds_only(q.on_conflict),
    ensures
        store_linked(insert_work(run, s, v, q).s),
{
    lemma_index_range(table_names(s.tables), q.table);
    match (source_rows(run, s, v, q), table_index(s, q.table)) {
        (Ok(rows), Some(i)) => {
            lemma_inserted_linked(run, s, i, rows, q.on_conflict);
        },
        _ => {},
    }
}

} // verus!
