use vstd::prelude::*;
use crate::error::ErrorView;
use crate::parser::ast::{ConflictActionView, ExprView, InsertStmtView, OnConflictView};
use crate::value::{DataType, ValueView};
use super::constraints::{Run, coerced, filled, run_env, supplied, table_scope};
use super::dml::{Step, Work, assigned, from_zero, given_row, given_value, insert_step, insert_work, inserted, key_places, no_scopes, placed, target_places};
use super::eval::eval;
use super::expr_laws::lemma_index_of;
use super::grouping::picked;
use super::join::resized;
use super::rows::{law_put_leaves_others, law_read_after_put, row_of, well_kept};
use super::scope::{Env, bare, index_of};
use super::store::{StoreView, column_names, rows_at_table, store_ok, table_index};
use super::table::ColumnView;
use super::unit::Unit;

verus! {

// ---- what a row holds

/// Whether a value goes into a column as it is: it is of the column's type, and a text is not cut.
pub open spec fn fits(c: ColumnView, v: ValueView) -> bool {
    match v {
        ValueView::Null => false,
        ValueView::Int64(_) => c.data_type == DataType::Int64,
        ValueView::Float64(_) => c.data_type == DataType::Float64,
        ValueView::Text(_) => c.data_type == DataType::Text && c.max_length is None,
        ValueView::Bool(_) => c.data_type == DataType::Bool,
        ValueView::Timestamp(_) => c.data_type == DataType::Timestamp,
        ValueView::Date(_) => c.data_type == DataType::Date,
        ValueView::Uuid(_) => c.data_type == DataType::Uuid,
        ValueView::Decimal(_, _) => c.data_type == DataType::Decimal,
        ValueView::Interval(_) => c.data_type == DataType::Interval,
        ValueView::Bytes(_) => c.data_type == DataType::Bytes,
        ValueView::Json(_) => c.data_type == DataType::Json,
    }
}

proof fn lemma_filled(m: Unit, cols: Seq<ColumnView>, seqs: Seq<i64>, row: Seq<ValueView>, n: nat, c: int)
    requires
        n <= cols.len() == seqs.len() == row.len(),
        0 <= c < cols.len(),
        filled(m, cols, seqs, row, n).err is None,
    ensures
        ({
            let f = filled(m, cols, seqs, row, n);
            let (next, v) = supplied(cols[c], seqs[c], row[c]);
            &&& f.row.len() == row.len()
            &&& f.seqs.len() == seqs.len()
            &&& c >= n ==> f.row[c] == row[c] && f.seqs[c] == seqs[c]
            &&& c < n ==> f.seqs[c] == next && f.row[c] == (if v is Null {
                v
            } else {
                coerced(m, cols[c], v)
            }) && (f.row[c] is Null ==> cols[c].nullable)
        }),
    decreases n,
{
    if n > 0 {
        let b = filled(m, cols, seqs, row, (n - 1) as nat);
        assert(b.err is None);
        lemma_filled(m, cols, seqs, row, (n - 1) as nat, c);
        lemma_filled(m, cols, seqs, row, (n - 1) as nat, n - 1);
    }
}

/// A row that is filled up without an error holds in each column the value given, or where none is
/// given the column's next number, its default, or null.
pub proof fn law_filled_row(m: Unit, cols: Seq<ColumnView>, seqs: Seq<i64>, row: Seq<ValueView>, c: int)
    requires
        cols.len() == seqs.len() == row.len(),
        0 <= c < cols.len(),
        filled(m, cols, seqs, row, cols.len()).err is None,
    ensures
        ({
            let r = filled(m, cols, seqs, row, cols.len()).row;
            let col = cols[c];
            &&& r.len() == row.len()
            &&& fits(col, row[c]) ==> r[c] == row[c]
            &&& row[c] is Null && col.auto_increment && col.data_type == DataType::Int64 ==> r[c] == ValueView::Int64(seqs[c])
            &&& row[c] is Null && !col.auto_increment && col.default is Some && fits(col, col.default->0) ==> r[c] == col.default->0
            &&& row[c] is Null && !col.auto_increment && col.default is None ==> r[c] is Null
            &&& r[c] is Null ==> col.nullable
        }),
{
    lemma_filled(m, cols, seqs, row, cols.len(), c);
}

/// The next number of a counting column is greater than any that it gave or was given, and other
/// columns do not count.
pub proof fn law_next_number(m: Unit, cols: Seq<ColumnView>, seqs: Seq<i64>, row: Seq<ValueView>, c: int)
    requires
        cols.len() == seqs.len() == row.len(),
        0 <= c < cols.len(),
        filled(m, cols, seqs, row, cols.len()).err is None,
    ensures
        ({
            let next = filled(m, cols, seqs, row, cols.len()).seqs[c];
            let col = cols[c];
            &&& !col.auto_increment ==> next == seqs[c]
            &&& col.auto_increment && row[c] is Null && seqs[c] < i64::MAX ==> next == seqs[c] + 1
            &&& col.auto_increment && row[c] is Int64 && row[c]->Int64_0 < i64::MAX ==> next > row[c]->Int64_0 && next >= seqs[c]
            &&& col.auto_increment && row[c] is Int64 && row[c]->Int64_0 < seqs[c] ==> next == seqs[c]
        }),
{
    lemma_filled(m, cols, seqs, row, cols.len(), c);
}

/// A row without a value for a column that must have one, and that supplies none, is refused.
pub proof fn law_missing_value_is_refused(m: Unit, cols: Seq<ColumnView>, seqs: Seq<i64>, row: Seq<ValueView>, c: int)
    requires
        cols.len() == seqs.len() == row.len(),
        0 <= c < cols.len(),
        row[c] is Null,
        !cols[c].nullable,
        !cols[c].auto_increment,
        cols[c].default is None,
    ensures
        filled(m, cols, seqs, row, cols.len()).err is Some,
{
    if filled(m, cols, seqs, row, cols.len()).err is None {
        lemma_filled(m, cols, seqs, row, cols.len(), c);
    }
}

/// A list of VALUES puts its k-th value into the k-th of the places that it fills, DEFAULT for the
/// default of that column, and null everywhere else.
pub proof fn law_given_row(env: Env, cols: Seq<ColumnView>, at: Seq<int>, es: Seq<ExprView>, c: int, k: int)
    requires
        at.no_duplicates(),
        forall|x: int| 0 <= x < at.len() ==> 0 <= #[trigger] at[x] < cols.len(),
        es.len() == at.len(),
        0 <= c < cols.len(),
    ensures
        ({
            let r = given_row(env, cols, at, es, es.len());
            &&& r.len() == cols.len()
            &&& !at.contains(c) ==> r[c] is Null
            &&& 0 <= k < at.len() && at[k] == c && !(es[k] is Default) ==> r[c] == eval(env, no_scopes(), bare(Seq::empty()), Seq::empty(), es[k])
            &&& 0 <= k < at.len() && at[k] == c && es[k] is Default ==> r[c] == (match cols[c].default {
                Some(d) => d,
                None => ValueView::Null,
            })
        }),
{
    lemma_given_row(env, cols, at, es, es.len(), c, k);
    if at.contains(c) {
    } else {
        assert forall|x: int| 0 <= x < es.len() implies #[trigger] at[x] != c by {
            assert(at.contains(at[x]));
        }
    }
}

proof fn lemma_given_row(env: Env, cols: Seq<ColumnView>, at: Seq<int>, es: Seq<ExprView>, n: nat, c: int, k: int)
    requires
        at.no_duplicates(),
        forall|x: int| 0 <= x < at.len() ==> 0 <= #[trigger] at[x] < cols.len(),
        n <= es.len() == at.len(),
        0 <= c < cols.len(),
    ensures
        ({
            let r = given_row(env, cols, at, es, n);
            &&& r.len() == cols.len()
            &&& (forall|x: int| 0 <= x < n ==> #[trigger] at[x] != c) ==> r[c] is Null
            &&& 0 <= k < n && at[k] == c ==> r[c] == given_value(env, cols, c, es[k])
        }),
    decreases n,
{
    if n > 0 {
        lemma_given_row(env, cols, at, es, (n - 1) as nat, c, k);
        assert(0 <= at[n - 1] < cols.len());
        if 0 <= k < n - 1 && at[k] == c {
            assert(at[n - 1] != at[k]);
        }
    }
}

/// An INSERT that names its columns fills those, in the order in which it names them; one that names
/// none fills all columns from the first on.
pub proof fn law_target_places(cols: Seq<ColumnView>, names: Seq<Seq<char>>, k: int, c: int)
    requires
        column_names(cols).no_duplicates(),
        forall|x: int| 0 <= x < names.len() ==> column_names(cols).contains(#[trigger] names[x]),
        0 <= k < names.len(),
        0 <= c < cols.len(),
        cols[c].name == names[k],
    ensures
        target_places(cols, Some(names)) is Some,
        target_places(cols, Some(names))->0.len() == names.len(),
        target_places(cols, Some(names))->0[k] == c,
        target_places(cols, None) == Some(Seq::new(cols.len(), |i: int| i)),
{
    lemma_places(column_names(cols), names);
    lemma_index_of(column_names(cols), c);
    assert(from_zero(cols.len()) =~= Seq::new(cols.len(), |i: int| i));
}

proof fn lemma_places(columns: Seq<Seq<char>>, names: Seq<Seq<char>>)
    requires
        forall|x: int| 0 <= x < names.len() ==> columns.contains(#[trigger] names[x]),
    ensures
        super::constraints::places_of(columns, names) == Seq::new(names.len(), |x: int| index_of(columns, names[x])->0),
    decreases names.len(),
{
    if names.len() > 0 {
        let d = names.drop_last();
        assert forall|x: int| 0 <= x < d.len() implies columns.contains(#[trigger] d[x]) by {
            assert(names[x] == d[x]);
        }
        lemma_places(columns, d);
        assert(columns.contains(names[names.len() - 1]));
        lemma_has(columns, names.last());
    }
    assert(super::constraints::places_of(columns, names) =~= Seq::new(names.len(), |x: int| index_of(columns, names[x])->0));
}

proof fn lemma_has(names: Seq<Seq<char>>, x: Seq<char>)
    requires
        names.contains(x),
    ensures
        index_of(names, x) is Some,
    decreases names.len(),
{
    let k = choose|k: int| 0 <= k < names.len() && names[k] == x;
    if k < names.len() - 1 {
        assert(names.drop_last()[k] == x);
        lemma_has(names.drop_last(), x);
    }
}

/// An INSERT into a column that is not there fails and changes nothing.
pub proof fn law_unknown_column_is_refused(run: Run, s: StoreView, v: StoreView, q: InsertStmtView, i: int, k: int)
    requires
        table_index(s, q.table) == Some(i),
        q.source is Values,
        q.columns is Some,
        0 <= k < q.columns->0.len(),
        !column_names(s.tables[i].columns).contains(q.columns->0[k]),
    ensures
        insert_work(run, s, v, q).err is Some,
        insert_work(run, s, v, q).s == s,
{
    lemma_fewer_places(column_names(s.tables[i].columns), q.columns->0, k);
}

proof fn lemma_fewer_places(columns: Seq<Seq<char>>, names: Seq<Seq<char>>, k: int)
    ensures
        super::constraints::places_of(columns, names).len() <= names.len(),
        0 <= k < names.len() && !columns.contains(names[k]) ==> super::constraints::places_of(columns, names).len() < names.len(),
    decreases names.len(),
{
    if names.len() > 0 {
        lemma_fewer_places(columns, names.drop_last(), k);
        if k == names.len() - 1 && !columns.contains(names[k]) {
            super::expr_laws::lemma_index_absent(columns, names[k]);
        }
    }
}

// ---- where it goes

/// A row that an INSERT puts in is read under its key, and the rows under other keys stay.
pub proof fn law_inserted_row_is_read(run: Run, s: StoreView, i: int, row: Seq<ValueView>, other: Seq<ValueView>)
    requires
        store_ok(s),
        0 <= i < s.tables.len(),
        insert_step(run, s, i, row, None).r is Ok,
    ensures
        ({
            let t = s.tables[i];
            let p = insert_step(run, s, i, row, None);
            let f = filled(run.m, t.columns, t.seqs, resized(row, t.columns.len()), t.columns.len());
            let k = if key_places(t.columns).len() == 0 {
                seq![ValueView::Int64(t.next_rowid)]
            } else {
                picked(f.row, key_places(t.columns))
            };
            &&& p.r == Ok::<Option<Seq<ValueView>>, ErrorView>(Some(f.row))
            &&& row_of(rows_at_table(s, i), k) is None
            &&& row_of(rows_at_table(p.s, i), k) == Some(f.row)
            &&& other != k ==> row_of(rows_at_table(p.s, i), other) == row_of(rows_at_table(s, i), other)
            &&& p.s.tables[i].seqs == f.seqs
            &&& forall|c: int| 0 <= c < s.tables.len() && c != i ==> #[trigger] rows_at_table(p.s, c) == rows_at_table(s, c)
        }),
{
    let t = s.tables[i];
    let f = filled(run.m, t.columns, t.seqs, resized(row, t.columns.len()), t.columns.len());
    let k = if key_places(t.columns).len() == 0 {
        seq![ValueView::Int64(t.next_rowid)]
    } else {
        picked(f.row, key_places(t.columns))
    };
    let r = rows_at_table(s, i);
    assert(well_kept(r));
    law_read_after_put(r, k, f.row);
    if other != k {
        law_put_leaves_others(r, k, f.row, other);
    }
}

/// An INSERT of a key that is taken fails and leaves the rows as they are.
pub proof fn law_taken_key_is_refused(run: Run, s: StoreView, i: int, row: Seq<ValueView>)
    requires
        store_ok(s),
        0 <= i < s.tables.len(),
        key_places(s.tables[i].columns).len() > 0,
        ({
            let t = s.tables[i];
            let f = filled(run.m, t.columns, t.seqs, resized(row, t.columns.len()), t.columns.len());
            row_of(rows_at_table(s, i), picked(f.row, key_places(t.columns))) is Some
        }),
    ensures
        insert_step(run, s, i, row, None).r is Err,
        insert_step(run, s, i, row, None).s.rows == s.rows,
{
}

/// With ON CONFLICT DO NOTHING, a row whose key is taken is passed over; with DO UPDATE the row that
/// has the key is changed by the assignments, and keeps its key.
pub proof fn law_on_conflict(
    run: Run,
    s: StoreView,
    i: int,
    k: Seq<ValueView>,
    row: Seq<ValueView>,
    there: Seq<ValueView>,
    c: OnConflictView,
    other: Seq<ValueView>,
)
    requires
        store_ok(s),
        0 <= i < s.tables.len(),
        row_of(rows_at_table(s, i), k) == Some(there),
    ensures
        c.action is DoNothing ==> placed(run, s, i, k, row, Some(c)) == (Step { s, r: Ok(None) }),
        c.action matches ConflictActionView::DoUpdate(a) ==> {
            let p = placed(run, s, i, k, row, Some(c));
            let new = assigned(run_env(run, s), table_scope(s.tables[i]), there, a);
            if p.r is Ok {
                &&& p.r == Ok::<Option<Seq<ValueView>>, ErrorView>(Some(new))
                &&& row_of(rows_at_table(p.s, i), k) == Some(new)
                &&& other != k ==> row_of(rows_at_table(p.s, i), other) == row_of(rows_at_table(s, i), other)
                &&& p.s.tables[i].keys == s.tables[i].keys
            } else {
                p.s == s
            }
        },
{
    let r = rows_at_table(s, i);
    assert(well_kept(r));
    if let ConflictActionView::DoUpdate(a) = c.action {
        let new = assigned(run_env(run, s), table_scope(s.tables[i]), there, a);
        law_read_after_put(r, k, new);
        if other != k {
            law_put_leaves_others(r, k, new, other);
        }
    }
}

/// A row whose key is free goes in whatever is said of conflicts.
pub proof fn law_no_conflict(run: Run, s: StoreView, i: int, k: Seq<ValueView>, row: Seq<ValueView>, oc: Option<OnConflictView>)
    requires
        row_of(rows_at_table(s, i), k) is None,
    ensures
        placed(run, s, i, k, row, oc) == placed(run, s, i, k, row, None),
        placed(run, s, i, k, row, oc).r is Ok ==> placed(run, s, i, k, row, oc).r == Ok::<Option<Seq<ValueView>>, ErrorView>(Some(row)),
{
}

/// The key of a row is the values of the columns of the primary key, in their order.
pub proof fn law_primary_key(cols: Seq<ColumnView>, row: Seq<ValueView>, c: int)
    requires
        0 <= c < cols.len() == row.len(),
    ensures
        cols[c].primary_key <==> key_places(cols).contains(c),
        (forall|x: int| 0 <= x < cols.len() ==> ((#[trigger] cols[x]).primary_key <==> x == c)) ==> picked(row, key_places(cols)) == seq![row[c]],
{
    lemma_key_places(cols, c);
    if forall|x: int| 0 <= x < cols.len() ==> ((#[trigger] cols[x]).primary_key <==> x == c) {
        lemma_one_key(cols, c);
        assert(picked(row, key_places(cols)) =~= seq![row[c]]);
    }
}

proof fn lemma_key_places(cols: Seq<ColumnView>, c: int)
    requires
        0 <= c,
    ensures
        key_places(cols).contains(c) <==> c < cols.len() && cols[c].primary_key,
    decreases cols.len(),
{
    if cols.len() > 0 {
        let d = cols.drop_last();
        lemma_key_places(d, c);
        let a = key_places(d);
        let b = key_places(cols);
        if b.contains(c) {
            let x = choose|x: int| 0 <= x < b.len() && b[x] == c;
            if x < a.len() {
                assert(a[x] == c);
                assert(a.contains(c));
            }
        }
        if c < cols.len() && cols[c].primary_key {
            if c < d.len() {
                let x = choose|x: int| 0 <= x < a.len() && a[x] == c;
                assert(b[x] == c);
            } else {
                assert(b[a.len() as int] == c);
            }
        }
    }
}

proof fn lemma_one_key(cols: Seq<ColumnView>, c: int)
    requires
        0 <= c,
        forall|x: int| 0 <= x < cols.len() ==> ((#[trigger] cols[x]).primary_key <==> x == c),
    ensures
        c < cols.len() ==> key_places(cols) == seq![c],
        c >= cols.len() ==> key_places(cols) == Seq::<int>::empty(),
    decreases cols.len(),
{
    if cols.len() > 0 {
        let d = cols.drop_last();
        assert forall|x: int| 0 <= x < d.len() implies ((#[trigger] d[x]).primary_key <==> x == c) by {
            assert(d[x] == cols[x]);
        }
        lemma_one_key(d, c);
        assert(cols[cols.len() - 1].primary_key <==> cols.len() - 1 == c);
        assert(key_places(cols) =~= if c < cols.len() {
            seq![c]
        } else {
            Seq::empty()
        });
    }
}

/// Rows that are inserted one after the other: those before the first that fails stay, and where none
/// fails all of them are reported that were not passed over.
pub proof fn law_insert_in_turn(run: Run, s: StoreView, i: int, rows: Seq<Seq<ValueView>>, row: Seq<ValueView>, oc: Option<OnConflictView>)
    ensures
        inserted(run, s, i, Seq::empty(), oc) == (Work { s, rows: Seq::empty(), err: None }),
        ({
            let w = inserted(run, s, i, rows, oc);
            let n = inserted(run, s, i, rows.push(row), oc);
            let p = insert_step(run, w.s, i, row, oc);
            if w.err is Some {
                n == w
            } else {
                &&& n.s == p.s
                &&& n.err is Some <==> p.r is Err
                &&& n.rows == (if p.r is Ok && p.r->Ok_0 is Some {
                    w.rows.push(p.r->Ok_0->0)
                } else {
                    w.rows
                })
            }
        }),
{
    assert(rows.push(row).drop_last() =~= rows);
}

} // verus!
