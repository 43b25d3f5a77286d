use vstd::prelude::*;
use crate::parser::ast::{DeleteStmtView, ExprView, LiteralValueView, UpdateStmtView};
use crate::value::ValueView;
use super::constraints::{Run, run_env, table_scope};
use super::delete::{all_targets, del_all, delete_work, doomed, table_targets};
use super::dml::{assigned, concerned, no_scopes, update_work, updated};
use super::eval::{eval, literal_value};
use super::expr_laws::lemma_index_of;
use super::rollback::{lemma_del_all, lemma_index_range};
use super::rows::{lemma_find, law_del_leaves_others, law_read_after_del, row_of, well_kept};
use super::scope::{Env, NamesView, index_of};
use super::store::{StoreView, rows_at_table, store_ok, store_put, table_index};

verus! {

// ---- assignments

/// Whether each column is assigned to at most once.
pub open spec fn each_once(a: Seq<(Seq<char>, ExprView)>) -> bool {
    forall|j: int, k: int| 0 <= j < k < a.len() ==> (#[trigger] a[j]).0 != (#[trigger] a[k]).0
}

/// Whether a column is assigned to.
pub open spec fn is_assigned(a: Seq<(Seq<char>, ExprView)>, c: Seq<char>) -> bool {
    exists|k: int| 0 <= k < a.len() && (#[trigger] a[k]).0 == c
}

pub proof fn lemma_assigned_size(env: Env, n: NamesView, row: Seq<ValueView>, a: Seq<(Seq<char>, ExprView)>)
    requires
        row.len() == n.columns.len(),
    ensures
        assigned(env, n, row, a).len() == n.columns.len(),
    decreases a.len(),
{
    if a.len() > 0 {
        lemma_assigned_size(env, n, row, a.drop_last());
        lemma_index_range(n.columns, a.last().0);
    }
}

/// A column that no assignment names holds what it held.
pub proof fn law_unassigned_stays(env: Env, n: NamesView, row: Seq<ValueView>, a: Seq<(Seq<char>, ExprView)>, c: int)
    requires
        n.columns.no_duplicates(),
        row.len() == n.columns.len(),
        0 <= c < n.columns.len(),
        !is_assigned(a, n.columns[c]),
    ensures
        assigned(env, n, row, a).len() == row.len(),
        assigned(env, n, row, a)[c] == row[c],
    decreases a.len(),
{
    lemma_assigned_size(env, n, row, a);
    if a.len() > 0 {
        let d = a.drop_last();
        assert(!is_assigned(d, n.columns[c])) by {
            if is_assigned(d, n.columns[c]) {
                let k = choose|k: int| 0 <= k < d.len() && (#[trigger] d[k]).0 == n.columns[c];
                assert(a[k].0 == n.columns[c]);
            }
        }
        law_unassigned_stays(env, n, row, d, c);
        assert(a[a.len() - 1].0 != n.columns[c]);
        lemma_index_is(n.columns, a.last().0);
    }
}

proof fn lemma_index_is(names: Seq<Seq<char>>, x: Seq<char>)
    ensures
        index_of(names, x) matches Some(i) ==> 0 <= i < names.len() && names[i] == x,
    decreases names.len(),
{
    if names.len() > 0 {
        lemma_index_is(names.drop_last(), x);
    }
}

/// Each column that is assigned to holds the value of its expression in the row as the assignments
/// before it left it.
pub proof fn law_assigned_value(env: Env, n: NamesView, row: Seq<ValueView>, a: Seq<(Seq<char>, ExprView)>, k: int, c: int)
    requires
        n.columns.no_duplicates(),
        row.len() == n.columns.len(),
        each_once(a),
        0 <= k < a.len(),
        0 <= c < n.columns.len(),
        n.columns[c] == a[k].0,
    ensures
        assigned(env, n, row, a).len() == row.len(),
        assigned(env, n, row, a)[c] == eval(env, no_scopes(), n, assigned(env, n, row, a.take(k)), a[k].1),
    decreases a.len(),
{
    let d = a.drop_last();
    lemma_assigned_size(env, n, row, a);
    lemma_assigned_size(env, n, row, d);
    assert(each_once(d)) by {
        assert forall|x: int, y: int| 0 <= x < y < d.len() implies (#[trigger] d[x]).0 != (#[trigger] d[y]).0 by {
            assert(a[x].0 != a[y].0);
        }
    }
    if k < a.len() - 1 {
        assert(d[k] == a[k]);
        law_assigned_value(env, n, row, d, k, c);
        assert(d.take(k) =~= a.take(k));
        assert(a[k].0 != a[a.len() - 1].0);
        lemma_index_is(n.columns, a.last().0);
    } else {
        assert(a.take(k) =~= d);
        lemma_index_of(n.columns, c);
    }
}

/// Where constants are assigned, each of the columns named holds its own constant afterwards.
pub proof fn law_assigned_constants(
    env: Env,
    n: NamesView,
    row: Seq<ValueView>,
    a: Seq<(Seq<char>, ExprView)>,
    l: Seq<LiteralValueView>,
    k: int,
    c: int,
)
    requires
        n.columns.no_duplicates(),
        row.len() == n.columns.len(),
        each_once(a),
        l.len() == a.len(),
        forall|j: int| 0 <= j < a.len() ==> (#[trigger] a[j]).1 == ExprView::Literal(l[j]),
        0 <= k < a.len(),
        0 <= c < n.columns.len(),
        n.columns[c] == a[k].0,
    ensures
        assigned(env, n, row, a)[c] == literal_value(env.m, l[k]),
{
    law_assigned_value(env, n, row, a, k, c);
    assert(a[k].1 == ExprView::Literal(l[k]));
}

/// A later assignment reads what an earlier one wrote: after `c1 = e1, c2 = c1`, both columns hold
/// the value of `e1`.
pub proof fn law_assignments_in_turn(env: Env, n: NamesView, row: Seq<ValueView>, e: ExprView, x: int, y: int)
    requires
        n.columns.no_duplicates(),
        row.len() == n.columns.len(),
        0 <= x < n.columns.len(),
        0 <= y < n.columns.len(),
        x != y,
    ensures
        ({
            let r = assigned(env, n, row, seq![(n.columns[x], e), (n.columns[y], ExprView::Column(n.columns[x]))]);
            &&& r[x] == eval(env, no_scopes(), n, row, e)
            &&& r[y] == r[x]
        }),
{
    let a = seq![(n.columns[x], e), (n.columns[y], ExprView::Column(n.columns[x]))];
    assert(each_once(a)) by {
        assert(n.columns[x] != n.columns[y]);
        assert forall|j: int, k: int| 0 <= j < k < a.len() implies (#[trigger] a[j]).0 != (#[trigger] a[k]).0 by {}
    }
    law_assigned_value(env, n, row, a, 0, x);
    law_assigned_value(env, n, row, a, 1, y);
    assert(a.take(0) =~= Seq::empty());
    assert(assigned(env, n, row, a.take(0)) == row);
    let b = a.take(1);
    assert(b =~= seq![(n.columns[x], e)]);
    assert(each_once(b));
    assert(b.take(0) =~= Seq::empty());
    law_assigned_value(env, n, row, b, 0, x);
    lemma_assigned_size(env, n, row, b);
    lemma_index_of(n.columns, x);
}

// ---- UPDATE

/// Whether a statement's condition and assignments come to the same whatever the tables hold: which
/// rows it is about and what it makes of one.
pub open spec fn settled_by(
    run: Run,
    n: NamesView,
    filter: Option<ExprView>,
    a: Seq<(Seq<char>, ExprView)>,
    about: spec_fn(Seq<ValueView>) -> bool,
    made: spec_fn(Seq<ValueView>) -> Seq<ValueView>,
) -> bool {
    &&& forall|t: StoreView, row: Seq<ValueView>| #[trigger] concerned(run_env(run, t), n, row, filter) == about(row)
    &&& forall|t: StoreView, row: Seq<ValueView>| #[trigger] assigned(run_env(run, t), n, row, a) == made(row)
}

/// The first `k` rows as an UPDATE leaves them, and the rest as they were.
spec fn partly(rows: Seq<Seq<ValueView>>, k: int, about: spec_fn(Seq<ValueView>) -> bool, made: spec_fn(Seq<ValueView>) -> Seq<ValueView>) -> Seq<Seq<ValueView>> {
    Seq::new(
        rows.len(),
        |j: int|
            if j < k && about(rows[j]) {
                made(rows[j])
            } else {
                rows[j]
            },
    )
}

proof fn lemma_updated_rows(
    run: Run,
    txn: Option<u64>,
    s: StoreView,
    i: int,
    rows: Seq<Seq<ValueView>>,
    a: Seq<(Seq<char>, ExprView)>,
    filter: Option<ExprView>,
    about: spec_fn(Seq<ValueView>) -> bool,
    made: spec_fn(Seq<ValueView>) -> Seq<ValueView>,
)
    requires
        store_ok(s),
        0 <= i < s.tables.len(),
        rows.len() <= s.rows[i].len(),
        rows == s.rows[i].take(rows.len() as int),
        settled_by(run, table_scope(s.tables[i]), filter, a, about, made),
        updated(run, txn, s, i, s.tables[i].keys, rows, a, filter).err is None,
    ensures
        ({
            let w = updated(run, txn, s, i, s.tables[i].keys, rows, a, filter);
            &&& w.s.tables == s.tables
            &&& w.s.rows == s.rows.update(i, partly(s.rows[i], rows.len() as int, about, made))
            &&& w.rows == rows.filter(about).map_values(made)
        }),
    decreases rows.len(),
{
    reveal(Seq::filter);
    let all = s.rows[i];
    let keys = s.tables[i].keys;
    let w = updated(run, txn, s, i, keys, rows, a, filter);
    assert(well_kept(rows_at_table(s, i)));
    if rows.len() == 0 {
        assert(partly(all, 0, about, made) =~= all);
        assert(s.rows.update(i, all) =~= s.rows);
        assert(w.rows =~= rows.filter(about).map_values(made));
    } else {
        let n = rows.len() - 1;
        let d = rows.drop_last();
        assert(d =~= all.take(n));
        let b = updated(run, txn, s, i, keys, d, a, filter);
        assert(b.err is None);
        lemma_updated_rows(run, txn, s, i, d, a, filter, about, made);
        assert(b.s.tables[i] == s.tables[i]);
        assert(rows.last() == all[n]);
        let env = run_env(run, b.s);
        assert(concerned(env, table_scope(s.tables[i]), all[n], filter) == about(all[n]));
        if about(all[n]) {
            let new = assigned(env, table_scope(s.tables[i]), all[n], a);
            assert(new == made(all[n]));
            let r = rows_at_table(b.s, i);
            let k = keys[n];
            assert(r.keys == keys);
            lemma_find(rows_at_table(s, i), k, n);
            assert(w.s == store_put(b.s, i, k, new));
            assert(r.rows.update(n, new) =~= partly(all, n + 1, about, made));
            assert(b.s.rows.update(i, partly(all, n + 1, about, made)) =~= s.rows.update(i, partly(all, n + 1, about, made)));
            assert(w.s.tables =~= s.tables);
            let f = d.filter(about);
            assert(rows.filter(about) == f.push(all[n]));
            assert(f.push(all[n]).map_values(made) =~= f.map_values(made).push(new));
        } else {
            assert(partly(all, n, about, made) =~= partly(all, n + 1, about, made));
        }
    }
}

/// An UPDATE that succeeds makes of each row that it is about what its assignments say, and leaves
/// every other row, its key, and every other table as they were. It reports the rows that it changed.
pub proof fn law_update_changes_what_it_is_about(
    run: Run,
    txn: Option<u64>,
    s: StoreView,
    q: UpdateStmtView,
    i: int,
    about: spec_fn(Seq<ValueView>) -> bool,
    made: spec_fn(Seq<ValueView>) -> Seq<ValueView>,
)
    requires
        store_ok(s),
        table_index(s, q.table) == Some(i),
        settled_by(run, table_scope(s.tables[i]), q.where_clause, q.assignments, about, made),
        update_work(run, txn, s, s, q).err is None,
    ensures
        ({
            let w = update_work(run, txn, s, s, q);
            &&& w.s.tables == s.tables
            &&& w.s.rows == s.rows.update(
                i,
                s.rows[i].map_values(
                    |row: Seq<ValueView>|
                        if about(row) {
                            made(row)
                        } else {
                            row
                        },
                ),
            )
            &&& w.rows == s.rows[i].filter(about).map_values(made)
        }),
{
    lemma_index_range(super::store::table_names(s.tables), q.table);
    let all = s.rows[i];
    assert(all.take(all.len() as int) =~= all);
    lemma_updated_rows(run, txn, s, i, all, q.assignments, q.where_clause, about, made);
    assert(partly(all, all.len() as int, about, made) =~= all.map_values(
        |row: Seq<ValueView>|
            if about(row) {
                made(row)
            } else {
                row
            },
    ));
}

/// An UPDATE without a condition that sets columns to constants: every row reads back with each
/// constant in its column and with everything else as it was.
pub proof fn law_update_of_constants(
    run: Run,
    txn: Option<u64>,
    s: StoreView,
    q: UpdateStmtView,
    l: Seq<LiteralValueView>,
    i: int,
    j: int,
    k: int,
    c: int,
    other: int,
)
    requires
        store_ok(s),
        table_index(s, q.table) == Some(i),
        q.where_clause is None,
        update_work(run, txn, s, s, q).err is None,
        each_once(q.assignments),
        l.len() == q.assignments.len(),
        forall|x: int| 0 <= x < q.assignments.len() ==> (#[trigger] q.assignments[x]).1 == ExprView::Literal(l[x]),
        0 <= j < s.rows[i].len(),
        s.rows[i][j].len() == s.tables[i].columns.len(),
        table_scope(s.tables[i]).columns.no_duplicates(),
        0 <= k < q.assignments.len(),
        0 <= c < s.tables[i].columns.len(),
        s.tables[i].columns[c].name == q.assignments[k].0,
        0 <= other < s.tables[i].columns.len(),
        !is_assigned(q.assignments, s.tables[i].columns[other].name),
    ensures
        ({
            let after = update_work(run, txn, s, s, q).s;
            let row = row_of(rows_at_table(after, i), s.tables[i].keys[j]);
            &&& row is Some
            &&& row->0[c] == literal_value(run.m, l[k])
            &&& row->0[other] == s.rows[i][j][other]
        }),
{
    let n = table_scope(s.tables[i]);
    let a = q.assignments;
    let about = |row: Seq<ValueView>| true;
    let made = |row: Seq<ValueView>| assigned(run_env(run, s), n, row, a);
    assert forall|t: StoreView, row: Seq<ValueView>| #[trigger] assigned(run_env(run, t), n, row, a) == made(row) by {
        lemma_constants_settle(run, t, s, n, row, a, l);
    }
    law_update_changes_what_it_is_about(run, txn, s, q, i, about, made);
    lemma_index_range(super::store::table_names(s.tables), q.table);
    let after = update_work(run, txn, s, s, q).s;
    assert(well_kept(rows_at_table(s, i)));
    assert(rows_at_table(after, i).keys == s.tables[i].keys);
    lemma_find(rows_at_table(s, i), s.tables[i].keys[j], j);
    assert(after.rows[i][j] == made(s.rows[i][j]));
    law_assigned_constants(run_env(run, s), n, s.rows[i][j], a, l, k, c);
    law_unassigned_stays(run_env(run, s), n, s.rows[i][j], a, other);
}

proof fn lemma_constants_settle(
    run: Run,
    t: StoreView,
    s: StoreView,
    n: NamesView,
    row: Seq<ValueView>,
    a: Seq<(Seq<char>, ExprView)>,
    l: Seq<LiteralValueView>,
)
    requires
        l.len() == a.len(),
        forall|x: int| 0 <= x < a.len() ==> (#[trigger] a[x]).1 == ExprView::Literal(l[x]),
    ensures
        assigned(run_env(run, t), n, row, a) == assigned(run_env(run, s), n, row, a),
    decreases a.len(),
{
    if a.len() > 0 {
        let d = a.drop_last();
        assert forall|x: int| 0 <= x < d.len() implies (#[trigger] d[x]).1 == ExprView::Literal(l.drop_last()[x]) by {
            assert(d[x] == a[x]);
        }
        lemma_constants_settle(run, t, s, n, row, d, l.drop_last());
        assert(a[a.len() - 1].1 == ExprView::Literal(l[a.len() - 1]));
    }
}

// ---- DELETE

/// Whether no other table has a foreign key to table `i`.
pub open spec fn unreferenced(s: StoreView, i: int) -> bool {
    forall|c: int, k: int|
        0 <= c < s.tables.len() && c != i && 0 <= k < s.tables[c].fks.len() ==> (#[trigger] s.tables[c].fks[k]).ref_table
            != s.tables[i].name
}

proof fn lemma_no_targets(s: StoreView, i: int, row: Seq<ValueView>, n: nat)
    requires
        unreferenced(s, i),
        n <= s.tables.len(),
    ensures
        all_targets(s, i, row, n) == Ok::<Seq<super::delete::TargetView>, crate::error::ErrorView>(Seq::empty()),
    decreases n,
{
    if n > 0 {
        lemma_no_targets(s, i, row, (n - 1) as nat);
        if n - 1 != i {
            lemma_no_table_targets(s, i, row, n - 1, s.tables[n - 1].fks.len());
            assert(Seq::<super::delete::TargetView>::empty() + Seq::<super::delete::TargetView>::empty() =~= Seq::empty());
        }
    }
}

proof fn lemma_no_table_targets(s: StoreView, i: int, row: Seq<ValueView>, c: int, n: nat)
    requires
        unreferenced(s, i),
        0 <= c < s.tables.len(),
        c != i,
        n <= s.tables[c].fks.len(),
    ensures
        table_targets(s, i, row, c, n) == Ok::<Seq<super::delete::TargetView>, crate::error::ErrorView>(Seq::empty()),
    decreases n,
{
    if n > 0 {
        lemma_no_table_targets(s, i, row, c, (n - 1) as nat);
        assert(s.tables[c].fks[n - 1].ref_table != s.tables[i].name);
        assert(Seq::<super::delete::TargetView>::empty() + Seq::<super::delete::TargetView>::empty() =~= Seq::empty());
    }
}

/// The keys of the first rows that a statement is about.
spec fn keys_about(keys: Seq<Seq<ValueView>>, rows: Seq<Seq<ValueView>>, about: spec_fn(Seq<ValueView>) -> bool) -> Seq<Seq<ValueView>>
    decreases rows.len(),
{
    if rows.len() == 0 {
        Seq::empty()
    } else if about(rows.last()) {
        keys_about(keys, rows.drop_last(), about).push(keys[rows.len() - 1])
    } else {
        keys_about(keys, rows.drop_last(), about)
    }
}

proof fn lemma_doomed_rows(
    run: Run,
    txn: Option<u64>,
    s: StoreView,
    i: int,
    keys: Seq<Seq<ValueView>>,
    rows: Seq<Seq<ValueView>>,
    filter: Option<ExprView>,
    about: spec_fn(Seq<ValueView>) -> bool,
)
    requires
        0 <= i < s.tables.len(),
        unreferenced(s, i),
        forall|t: StoreView, row: Seq<ValueView>| #[trigger] concerned(run_env(run, t), table_scope(s.tables[i]), row, filter) == about(row),
        doomed(run, txn, s, i, keys, rows, filter).err is None,
    ensures
        ({
            let d = doomed(run, txn, s, i, keys, rows, filter);
            &&& d.s == s
            &&& d.keys == keys_about(keys, rows, about)
            &&& d.rows == rows.filter(about)
        }),
    decreases rows.len(),
{
    reveal(Seq::filter);
    if rows.len() > 0 {
        lemma_doomed_rows(run, txn, s, i, keys, rows.drop_last(), filter, about);
        let b = doomed(run, txn, s, i, keys, rows.drop_last(), filter);
        assert(concerned(run_env(run, s), table_scope(s.tables[i]), rows.last(), filter) == about(rows.last()));
        lemma_no_targets(s, i, rows.last(), s.tables.len());
    } else {
        assert(rows.filter(about) =~= Seq::empty());
    }
}

proof fn lemma_keys_about(keys: Seq<Seq<ValueView>>, rows: Seq<Seq<ValueView>>, about: spec_fn(Seq<ValueView>) -> bool, k: Seq<ValueView>)
    requires
        rows.len() <= keys.len(),
    ensures
        keys_about(keys, rows, about).contains(k) <==> exists|j: int| 0 <= j < rows.len() && #[trigger] keys[j] == k && about(rows[j]),
    decreases rows.len(),
{
    if rows.len() > 0 {
        let d = rows.drop_last();
        let n = rows.len() - 1;
        lemma_keys_about(keys, d, about, k);
        let a = keys_about(keys, d, about);
        let b = keys_about(keys, rows, about);
        if b.contains(k) {
            let x = choose|x: int| 0 <= x < b.len() && b[x] == k;
            if x < a.len() {
                assert(a[x] == k);
                assert(a.contains(k));
                let j = choose|j: int| 0 <= j < d.len() && #[trigger] keys[j] == k && about(d[j]);
                assert(rows[j] == d[j]);
            } else {
                assert(keys[n] == k && about(rows[n]));
            }
        }
        if exists|j: int| 0 <= j < rows.len() && #[trigger] keys[j] == k && about(rows[j]) {
            let j = choose|j: int| 0 <= j < rows.len() && #[trigger] keys[j] == k && about(rows[j]);
            if j < n {
                assert(d[j] == rows[j]);
                assert(a.contains(k));
                let x = choose|x: int| 0 <= x < a.len() && a[x] == k;
                assert(b[x] == k);
            } else {
                assert(b[a.len() as int] == k);
            }
        }
    }
}

proof fn lemma_del_all_rows(s: StoreView, i: int, keys: Seq<Seq<ValueView>>, k: Seq<ValueView>)
    requires
        store_ok(s),
        0 <= i < s.tables.len(),
    ensures
        ({
            let t = del_all(s, i, keys);
            &&& store_ok(t)
            &&& t.tables.len() == s.tables.len()
            &&& row_of(rows_at_table(t, i), k) == (if keys.contains(k) {
                None
            } else {
                row_of(rows_at_table(s, i), k)
            })
            &&& forall|c: int| 0 <= c < s.tables.len() && c != i ==> #[trigger] rows_at_table(t, c) == rows_at_table(s, c)
        }),
    decreases keys.len(),
{
    if keys.len() > 0 {
        let d = keys.drop_last();
        lemma_del_all_rows(s, i, d, k);
        lemma_del_all(s, i, keys);
        let b = del_all(s, i, d);
        let t = del_all(s, i, keys);
        let r = rows_at_table(b, i);
        assert(well_kept(r));
        assert(rows_at_table(t, i) == super::rows::del(r, keys.last()));
        if keys.last() == k {
            law_read_after_del(r, k);
            assert(keys[keys.len() - 1] == k);
        } else {
            law_del_leaves_others(r, keys.last(), k);
            assert(keys.contains(k) == d.contains(k)) by {
                if keys.contains(k) {
                    let x = choose|x: int| 0 <= x < keys.len() && keys[x] == k;
                    assert(d[x] == k);
                }
                if d.contains(k) {
                    let x = choose|x: int| 0 <= x < d.len() && d[x] == k;
                    assert(keys[x] == k);
                }
            }
        }
        assert forall|c: int| 0 <= c < s.tables.len() && c != i implies #[trigger] rows_at_table(t, c) == rows_at_table(s, c) by {
            assert(rows_at_table(b, c) == rows_at_table(s, c));
        }
    }
}

/// A DELETE that succeeds takes away the rows that it is about and no others, and reports them. So it
/// is where no other table refers to the table; other tables stay as they are.
pub proof fn law_delete_takes_what_it_is_about(
    run: Run,
    txn: Option<u64>,
    s: StoreView,
    q: DeleteStmtView,
    i: int,
    about: spec_fn(Seq<ValueView>) -> bool,
    j: int,
    c: int,
)
    requires
        store_ok(s),
        table_index(s, q.table) == Some(i),
        unreferenced(s, i),
        forall|t: StoreView, row: Seq<ValueView>|
            #[trigger] concerned(run_env(run, t), table_scope(s.tables[i]), row, q.where_clause) == about(row),
        delete_work(run, txn, s, s, q).err is None,
        0 <= j < s.rows[i].len(),
        0 <= c < s.tables.len(),
        c != i,
    ensures
        ({
            let w = delete_work(run, txn, s, s, q);
            &&& row_of(rows_at_table(w.s, i), s.tables[i].keys[j]) == (if about(s.rows[i][j]) {
                None
            } else {
                Some(s.rows[i][j])
            })
            &&& w.rows == s.rows[i].filter(about)
            &&& rows_at_table(w.s, c) == rows_at_table(s, c)
        }),
{
    lemma_index_range(super::store::table_names(s.tables), q.table);
    let keys = s.tables[i].keys;
    let rows = s.rows[i];
    let r = rows_at_table(s, i);
    assert(well_kept(r));
    lemma_doomed_rows(run, txn, s, i, keys, rows, q.where_clause, about);
    let gone = keys_about(keys, rows, about);
    lemma_del_all_rows(s, i, gone, keys[j]);
    lemma_keys_about(keys, rows, about, keys[j]);
    lemma_find(r, keys[j], j);
    if gone.contains(keys[j]) {
        let x = choose|x: int| 0 <= x < rows.len() && #[trigger] keys[x] == keys[j] && about(rows[x]);
        lemma_find(r, keys[j], x);
        assert(x == j);
    } else {
        assert(!about(rows[j]));
    }
}

} // verus!
