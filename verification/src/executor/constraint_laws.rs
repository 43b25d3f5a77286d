use vstd::prelude::*;
use crate::error::ErrorView;
use crate::parser::ast::{BinOp, ExprView, FkAction, ForeignKeyDefView};
use crate::value::ValueView;
use super::constraints::{Run, carries, check_clash, fk_clash, fks_clash, holds_null, index_clash, index_taken, ints, places_of, refuted, row_clash, run_env, some_carries, table_scope, taken, unique_clash};
use super::delete::{Doomed, TargetView, all_targets, doom_step, fk_targets, hit, hit_all, nulled, row_targets, table_targets};
use super::dml::{concerned, update_step};
use super::eval::eval;
use super::expr_laws::{is_comparison, op_of};
use super::grouping::picked;
use super::rollback::{lemma_hit, within};
use super::rows::{law_del_leaves_others, law_put_leaves_others, law_read_after_del, law_read_after_put, lemma_find, row_of, well_kept};
use super::scope::{Env, NamesView, value_at};
use super::store::{StoreView, column_names, rows_at_table, store_ok, store_put, table_index};

verus! {

// ---- CHECK

/// A CHECK that compares refuses a row for which the comparison is false, and lets through one for
/// which it is true or null.
pub proof fn law_check(env: Env, n: NamesView, row: Seq<ValueView>, a: ExprView, op: BinOp, b: ExprView)
    requires
        is_comparison(op),
    ensures
        refuted(env, n, row, op_of(a, op, b)) <==> eval(env, Seq::empty(), n, row, op_of(a, op, b)) == ValueView::Bool(false),
{
    super::expr_laws::law_conditions(env, Seq::empty(), n, row, a, b, op);
    let v = eval(env, Seq::empty(), n, row, op_of(a, op, b));
    assert(v is Null || v is Bool);
}

/// A CHECK that is joined by AND refuses a row that one of its sides refuses, one that is joined by
/// OR only a row that both refuse.
pub proof fn law_check_joined(env: Env, n: NamesView, row: Seq<ValueView>, a: ExprView, b: ExprView)
    ensures
        refuted(env, n, row, op_of(a, BinOp::And, b)) <==> refuted(env, n, row, a) || refuted(env, n, row, b),
        refuted(env, n, row, op_of(a, BinOp::Or, b)) <==> refuted(env, n, row, a) && refuted(env, n, row, b),
{
}

/// A row that one of the CHECKs of its table refuses is wrong, whatever else holds of it.
pub proof fn law_refused_by_check(env: Env, s: StoreView, i: int, row: Seq<ValueView>, own: Option<Seq<ValueView>>, k: int)
    requires
        0 <= i < s.tables.len(),
        0 <= k < s.tables[i].checks.len(),
        refuted(env, table_scope(s.tables[i]), row, s.tables[i].checks[k]),
    ensures
        row_clash(env, s, i, row, own) is Some,
{
    assert(check_clash(env, table_scope(s.tables[i]), row, s.tables[i].checks));
}

// ---- UNIQUE

proof fn lemma_unique(t: super::table::TableView, rows: Seq<Seq<ValueView>>, row: Seq<ValueView>, own: Option<Seq<ValueView>>, n: nat, c: int, j: int)
    requires
        0 <= c < n <= t.columns.len(),
        t.columns[c].unique,
        !t.columns[c].primary_key,
        !(value_at(row, Some(c)) is Null),
        0 <= j < rows.len(),
        value_at(rows[j], Some(c)) == value_at(row, Some(c)),
        own != Some(t.keys[j]),
    ensures
        unique_clash(t, rows, row, own, n) is Some,
    decreases n,
{
    if c < n - 1 {
        lemma_unique(t, rows, row, own, (n - 1) as nat, c, j);
    } else {
        assert(taken(t.keys, rows, c, value_at(row, Some(c)), own));
    }
}

/// A row that holds in a UNIQUE column what another row holds there is wrong; nulls are not held
/// against each other.
pub proof fn law_refused_by_unique(env: Env, s: StoreView, i: int, row: Seq<ValueView>, own: Option<Seq<ValueView>>, c: int, j: int)
    requires
        0 <= i < s.tables.len(),
        0 <= c < s.tables[i].columns.len() == row.len(),
        s.tables[i].columns[c].unique,
        !s.tables[i].columns[c].primary_key,
        !(row[c] is Null),
        0 <= j < s.rows[i].len(),
        c < s.rows[i][j].len(),
        s.rows[i][j][c] == row[c],
        own != Some(s.tables[i].keys[j]),
    ensures
        row_clash(env, s, i, row, own) is Some,
{
    lemma_unique(s.tables[i], s.rows[i], row, own, s.tables[i].columns.len(), c, j);
}

/// A row that agrees with another row in all columns of a unique index, none of them null, breaks it;
/// one that has a null there breaks no index.
pub proof fn law_refused_by_index(t: super::table::TableView, rows: Seq<Seq<ValueView>>, row: Seq<ValueView>, own: Option<Seq<ValueView>>, x: int, j: int)
    requires
        0 <= x < t.indexes.len(),
        t.indexes[x].unique,
        forall|k: int| 0 <= k < t.indexes[x].columns.len() ==> (#[trigger] t.indexes[x].columns[k]) < row.len(),
        0 <= j < rows.len(),
        rows[j].len() == row.len(),
        own != Some(t.keys[j]),
        forall|k: int|
            0 <= k < t.indexes[x].columns.len() ==> rows[j][#[trigger] t.indexes[x].columns[k] as int] == row[t.indexes[x].columns[k] as int]
                && !(row[t.indexes[x].columns[k] as int] is Null),
    ensures
        index_clash(t, rows, row, own),
{
    let at = ints(t.indexes[x].columns);
    let vals = picked(row, at);
    assert(!holds_null(vals)) by {
        if holds_null(vals) {
            let k = choose|k: int| 0 <= k < vals.len() && #[trigger] vals[k] is Null;
            assert(t.indexes[x].columns[k] < row.len());
        }
    }
    assert(carries(rows[j], at, vals)) by {
        assert forall|k: int| 0 <= k < at.len() implies k < vals.len() && value_at(rows[j], Some(#[trigger] at[k])) == vals[k] by {
            assert(t.indexes[x].columns[k] < row.len());
        }
    }
    assert(index_taken(t.keys, rows, at, row, own));
}

// ---- foreign keys

/// A row with a value in a foreign key that no row of the other table has is wrong; one with a null
/// there is not, nor one whose value is there.
pub proof fn law_foreign_key(s: StoreView, columns: Seq<Seq<char>>, row: Seq<ValueView>, fk: ForeignKeyDefView, changes: bool, p: int, c: int, r: int)
    requires
        columns.no_duplicates(),
        0 <= c < columns.len() == row.len(),
        fk.columns == seq![columns[c]],
        table_index(s, fk.ref_table) == Some(p),
        column_names(s.tables[p].columns).no_duplicates(),
        0 <= r < s.tables[p].columns.len(),
        fk.ref_columns == seq![s.tables[p].columns[r].name],
        forall|j: int| 0 <= j < s.rows[p].len() ==> r < (#[trigger] s.rows[p][j]).len(),
    ensures
        fk_clash(s, columns, row, fk, changes) is None <==> row[c] is Null || exists|j: int|
            0 <= j < s.rows[p].len() && (#[trigger] s.rows[p][j])[r] == row[c],
{
    lemma_one_place(columns, c);
    lemma_one_place(column_names(s.tables[p].columns), r);
    let at = places_of(column_names(s.tables[p].columns), fk.ref_columns);
    assert(at == seq![r]);
    let vals = picked(row, places_of(columns, fk.columns));
    assert(vals =~= seq![row[c]]);
    assert(holds_null(vals) <==> row[c] is Null) by {
        if row[c] is Null {
            assert(vals[0] is Null);
        }
    }
    assert forall|j: int| 0 <= j < s.rows[p].len() implies (#[trigger] carries(s.rows[p][j], at, vals) <==> s.rows[p][j][r] == row[c]) by {
        assert(r < s.rows[p][j].len());
        assert(at[0] == r);
        if carries(s.rows[p][j], at, vals) {
            assert(value_at(s.rows[p][j], Some(at[0])) == vals[0]);
        }
    }
    if exists|j: int| 0 <= j < s.rows[p].len() && (#[trigger] s.rows[p][j])[r] == row[c] {
        let j = choose|j: int| 0 <= j < s.rows[p].len() && (#[trigger] s.rows[p][j])[r] == row[c];
        assert(carries(s.rows[p][j], at, vals));
    }
    if some_carries(s.rows[p], at, vals) {
        let j = choose|j: int| 0 <= j < s.rows[p].len() && #[trigger] carries(s.rows[p][j], at, vals);
        assert(s.rows[p][j][r] == row[c]);
    }
}

proof fn lemma_one_place(columns: Seq<Seq<char>>, c: int)
    requires
        columns.no_duplicates(),
        0 <= c < columns.len(),
    ensures
        places_of(columns, seq![columns[c]]) == seq![c],
{
    let names = seq![columns[c]];
    super::expr_laws::lemma_index_of(columns, c);
    assert(names.drop_last() =~= Seq::empty());
    reveal_with_fuel(places_of, 2);
    assert(places_of(columns, names) =~= seq![c]);
}

proof fn lemma_fks(s: StoreView, columns: Seq<Seq<char>>, row: Seq<ValueView>, fks: Seq<ForeignKeyDefView>, changes: bool, n: nat, k: int)
    requires
        0 <= k < n <= fks.len(),
        fk_clash(s, columns, row, fks[k], changes) is Some,
    ensures
        fks_clash(s, columns, row, fks, changes, n) is Some,
    decreases n,
{
    if k < n - 1 {
        lemma_fks(s, columns, row, fks, changes, (n - 1) as nat, k);
    }
}

/// A row that one of its foreign keys refuses is wrong, whatever else holds of it.
pub proof fn law_refused_by_foreign_key(env: Env, s: StoreView, i: int, row: Seq<ValueView>, own: Option<Seq<ValueView>>, k: int)
    requires
        0 <= i < s.tables.len(),
        0 <= k < s.tables[i].fks.len(),
        fk_clash(s, column_names(s.tables[i].columns), row, s.tables[i].fks[k], own is Some) is Some,
    ensures
        row_clash(env, s, i, row, own) is Some,
{
    let t = s.tables[i];
    lemma_fks(s, column_names(t.columns), row, t.fks, own is Some, t.fks.len(), k);
}

/// An UPDATE to a row that is wrong fails and changes nothing.
pub proof fn law_wrong_row_is_not_stored(
    run: Run,
    txn: Option<u64>,
    s: StoreView,
    i: int,
    k: Seq<ValueView>,
    row: Seq<ValueView>,
    a: Seq<(Seq<char>, ExprView)>,
)
    ensures
        ({
            let new = super::dml::assigned(run_env(run, s), table_scope(s.tables[i]), row, a);
            let p = update_step(run, txn, s, i, k, row, a);
            &&& row_clash(run_env(run, s), s, i, new, Some(k)) is Some ==> p.r is Err
            &&& index_clash(s.tables[i], s.rows[i], new, Some(k)) ==> p.r is Err
            &&& p.r is Err ==> p.s == s
            &&& p.r is Ok ==> p.r == Ok::<Option<Seq<ValueView>>, ErrorView>(Some(new)) && p.s == store_put(s, i, k, new)
        }),
{
}

// ---- what happens to rows that refer to a row that goes

/// Whether row `j` of table `c` refers by its foreign key `k` to the row `row` of table `i`.
pub open spec fn refers(s: StoreView, i: int, row: Seq<ValueView>, c: int, k: int, j: int) -> bool {
    let fk = s.tables[c].fks[k];
    let vals = picked(row, places_of(column_names(s.tables[i].columns), fk.ref_columns));
    &&& 0 <= c < s.tables.len() && c != i
    &&& 0 <= k < s.tables[c].fks.len()
    &&& 0 <= j < s.rows[c].len()
    &&& fk.ref_table == s.tables[i].name
    &&& !holds_null(vals)
    &&& carries(s.rows[c][j], places_of(column_names(s.tables[c].columns), fk.columns), vals)
}

/// What is to happen to row `j` of table `c` by its foreign key `k`.
pub open spec fn target_of(s: StoreView, c: int, k: int, j: int) -> TargetView {
    let fk = s.tables[c].fks[k];
    TargetView {
        i: c,
        action: fk.on_delete,
        key: s.tables[c].keys[j],
        at: places_of(column_names(s.tables[c].columns), fk.columns),
    }
}

proof fn lemma_row_target(
    c: int,
    name: Seq<char>,
    action: FkAction,
    keys: Seq<Seq<ValueView>>,
    rows: Seq<Seq<ValueView>>,
    at: Seq<int>,
    vals: Seq<ValueView>,
    j: int,
)
    requires
        0 <= j < rows.len(),
        carries(rows[j], at, vals),
    ensures
        ({
            let r = row_targets(c, name, action, keys, rows, at, vals);
            &&& action == FkAction::Restrict ==> r is Err
            &&& r is Ok ==> r->Ok_0.contains(TargetView { i: c, action, key: keys[j], at })
        }),
    decreases rows.len(),
{
    let x = TargetView { i: c, action, key: keys[j], at };
    let d = rows.drop_last();
    let r = row_targets(c, name, action, keys, rows, at, vals);
    if j < rows.len() - 1 {
        assert(d[j] == rows[j]);
        lemma_row_target(c, name, action, keys, d, at, vals, j);
        let b = row_targets(c, name, action, keys, d, at, vals);
        if r is Ok {
            let y = choose|y: int| 0 <= y < b->Ok_0.len() && b->Ok_0[y] == x;
            assert(r->Ok_0[y] == x);
        }
    } else {
        assert(rows.last() == rows[j]);
        if r is Ok {
            assert(r->Ok_0[r->Ok_0.len() - 1] == x);
        }
    }
}

proof fn lemma_in_both(a: Seq<TargetView>, b: Seq<TargetView>, x: TargetView)
    ensures
        a.contains(x) || b.contains(x) ==> (a + b).contains(x),
{
    if a.contains(x) {
        let y = choose|y: int| 0 <= y < a.len() && a[y] == x;
        assert((a + b)[y] == x);
    }
    if b.contains(x) {
        let y = choose|y: int| 0 <= y < b.len() && b[y] == x;
        assert((a + b)[a.len() + y] == x);
    }
}

proof fn lemma_table_target(s: StoreView, i: int, row: Seq<ValueView>, c: int, n: nat, k: int, j: int)
    requires
        refers(s, i, row, c, k, j),
        k < n <= s.tables[c].fks.len(),
    ensures
        ({
            let r = table_targets(s, i, row, c, n);
            &&& s.tables[c].fks[k].on_delete == FkAction::Restrict ==> r is Err
            &&& r is Ok ==> r->Ok_0.contains(target_of(s, c, k, j))
        }),
    decreases n,
{
    let x = target_of(s, c, k, j);
    let a = table_targets(s, i, row, c, (n - 1) as nat);
    let b = fk_targets(s, i, row, c, s.tables[c].fks[n - 1]);
    if k < n - 1 {
        lemma_table_target(s, i, row, c, (n - 1) as nat, k, j);
    } else {
        let fk = s.tables[c].fks[k];
        lemma_row_target(
            c,
            s.tables[c].name,
            fk.on_delete,
            s.tables[c].keys,
            s.rows[c],
            places_of(column_names(s.tables[c].columns), fk.columns),
            picked(row, places_of(column_names(s.tables[i].columns), fk.ref_columns)),
            j,
        );
    }
    if a is Ok && b is Ok {
        lemma_in_both(a->Ok_0, b->Ok_0, x);
    }
}

proof fn lemma_target(s: StoreView, i: int, row: Seq<ValueView>, n: nat, c: int, k: int, j: int)
    requires
        refers(s, i, row, c, k, j),
        c < n <= s.tables.len(),
    ensures
        ({
            let r = all_targets(s, i, row, n);
            &&& s.tables[c].fks[k].on_delete == FkAction::Restrict ==> r is Err
            &&& r is Ok ==> r->Ok_0.contains(target_of(s, c, k, j))
        }),
    decreases n,
{
    let x = target_of(s, c, k, j);
    let a = all_targets(s, i, row, (n - 1) as nat);
    if c < n - 1 {
        lemma_target(s, i, row, (n - 1) as nat, c, k, j);
        if n - 1 != i {
            let b = table_targets(s, i, row, n - 1, s.tables[n - 1].fks.len());
            if a is Ok && b is Ok {
                lemma_in_both(a->Ok_0, b->Ok_0, x);
            }
        }
    } else {
        let b = table_targets(s, i, row, c, s.tables[c].fks.len());
        lemma_table_target(s, i, row, c, s.tables[c].fks.len(), k, j);
        if a is Ok && b is Ok {
            lemma_in_both(a->Ok_0, b->Ok_0, x);
        }
    }
}

/// Whether a DELETE is about a row.
pub open spec fn is_about(run: Run, d: Doomed, i: int, row: Seq<ValueView>, filter: Option<ExprView>) -> bool {
    concerned(run_env(run, d.s), table_scope(d.s.tables[i]), row, filter)
}

/// A row that another row refers to by a foreign key with RESTRICT is not deleted: the DELETE fails.
pub proof fn law_restrict(
    run: Run,
    txn: Option<u64>,
    d: Doomed,
    i: int,
    k: Seq<ValueView>,
    row: Seq<ValueView>,
    filter: Option<ExprView>,
    c: int,
    f: int,
    j: int,
)
    requires
        is_about(run, d, i, row, filter),
        refers(d.s, i, row, c, f, j),
        d.s.tables[c].fks[f].on_delete == FkAction::Restrict,
    ensures
        doom_step(run, txn, d, i, k, row, filter).err is Some,
        doom_step(run, txn, d, i, k, row, filter).s == d.s,
{
    lemma_target(d.s, i, row, d.s.tables.len(), c, f, j);
}

proof fn lemma_hit_row(s: StoreView, t: TargetView, c: int, k: Seq<ValueView>)
    requires
        store_ok(s),
        0 <= t.i < s.tables.len(),
        0 <= c < s.tables.len(),
    ensures
        ({
            let was = row_of(rows_at_table(s, c), k);
            let is = row_of(rows_at_table(hit(s, t), c), k);
            &&& was is None ==> is is None
            &&& t.i != c || t.key != k ==> is == was
            &&& t.i == c && t.key == k && t.action == FkAction::Cascade ==> is is None
            &&& t.i == c && t.key == k && t.action == FkAction::SetNull && was is Some ==> is == Some(nulled(was->0, t.at))
            &&& t.i == c && t.key == k && t.action == FkAction::Restrict ==> is == was
        }),
{
    let r = rows_at_table(s, t.i);
    assert(well_kept(r));
    assert(well_kept(rows_at_table(s, c)));
    match t.action {
        FkAction::Cascade => {
            if t.i == c {
                assert(rows_at_table(hit(s, t), c) == super::rows::del(r, t.key));
                if t.key == k {
                    law_read_after_del(r, k);
                } else {
                    law_del_leaves_others(r, t.key, k);
                }
            } else {
                assert(rows_at_table(hit(s, t), c) == rows_at_table(s, c));
            }
        },
        FkAction::SetNull => {
            if let Some(row) = row_of(r, t.key) {
                let new = nulled(row, t.at);
                if t.i == c {
                    assert(rows_at_table(hit(s, t), c) == super::rows::put(r, t.key, new));
                    if t.key == k {
                        law_read_after_put(r, k, new);
                    } else {
                        law_put_leaves_others(r, t.key, new, k);
                    }
                } else {
                    assert(rows_at_table(hit(s, t), c) == rows_at_table(s, c));
                }
            }
        },
        FkAction::Restrict => {},
    }
}

proof fn lemma_hit_rows(s: StoreView, t: Seq<TargetView>, c: int, k: Seq<ValueView>)
    requires
        store_ok(s),
        within(t, s.tables.len()),
        0 <= c < s.tables.len(),
    ensures
        store_ok(hit_all(s, t)),
        hit_all(s, t).tables.len() == s.tables.len(),
        ({
            let was = row_of(rows_at_table(s, c), k);
            let is = row_of(rows_at_table(hit_all(s, t), c), k);
            &&& was is None ==> is is None
            &&& (forall|x: int| 0 <= x < t.len() ==> (#[trigger] t[x]).i != c || t[x].key != k) ==> is == was
            &&& (exists|x: int| 0 <= x < t.len() && (#[trigger] t[x]).i == c && t[x].key == k && t[x].action == FkAction::Cascade) ==> is is None
            &&& is is Some ==> was is Some && is->0.len() == was->0.len() && forall|y: int|
                0 <= y < was->0.len() ==> #[trigger] is->0[y] == was->0[y] || is->0[y] is Null
            &&& is is Some ==> forall|x: int, y: int|
                0 <= x < t.len() && (#[trigger] t[x]).i == c && t[x].key == k && t[x].action == FkAction::SetNull && 0 <= y < is->0.len()
                    && t[x].at.contains(y) ==> #[trigger] is->0[y] is Null
            &&& is is Some ==> forall|y: int|
                0 <= y < is->0.len() && (forall|x: int|
                    0 <= x < t.len() ==> (#[trigger] t[x]).i != c || t[x].key != k || !t[x].at.contains(y)) ==> #[trigger] is->0[y] == was->0[y]
        }),
    decreases t.len(),
{
    lemma_hit_all_ok(s, t);
    if t.len() > 0 {
        let d = t.drop_last();
        assert(within(d, s.tables.len())) by {
            assert forall|x: int| 0 <= x < d.len() implies 0 <= (#[trigger] d[x]).i < s.tables.len() by {
                assert(d[x] == t[x]);
            }
        }
        lemma_hit_rows(s, d, c, k);
        let b = hit_all(s, d);
        let z = t[t.len() - 1];
        assert(0 <= z.i < s.tables.len());
        lemma_hit_row(b, z, c, k);
        let was = row_of(rows_at_table(s, c), k);
        let mid = row_of(rows_at_table(b, c), k);
        let is = row_of(rows_at_table(hit_all(s, t), c), k);
        assert(forall|x: int| 0 <= x < d.len() ==> #[trigger] d[x] == t[x]);
        if forall|x: int| 0 <= x < t.len() ==> (#[trigger] t[x]).i != c || t[x].key != k {
            assert forall|x: int| 0 <= x < d.len() implies (#[trigger] d[x]).i != c || d[x].key != k by {
                assert(t[x].i != c || t[x].key != k);
            }
        }
        if exists|x: int| 0 <= x < t.len() && (#[trigger] t[x]).i == c && t[x].key == k && t[x].action == FkAction::Cascade {
            let x = choose|x: int| 0 <= x < t.len() && (#[trigger] t[x]).i == c && t[x].key == k && t[x].action == FkAction::Cascade;
            if x < d.len() {
                assert(d[x].i == c && d[x].key == k);
            }
        }
        if is is Some {
            assert forall|x: int, y: int|
                0 <= x < t.len() && (#[trigger] t[x]).i == c && t[x].key == k && t[x].action == FkAction::SetNull && 0 <= y < is->0.len()
                    && t[x].at.contains(y) implies #[trigger] is->0[y] is Null by {
                if x < d.len() {
                    assert(d[x] == t[x]);
                    assert(mid->0[y] is Null);
                }
            }
            assert forall|y: int|
                0 <= y < is->0.len() && (forall|x: int|
                    0 <= x < t.len() ==> (#[trigger] t[x]).i != c || t[x].key != k || !t[x].at.contains(y)) implies #[trigger] is->0[y] == was->0[y] by {
                assert forall|x: int| 0 <= x < d.len() implies (#[trigger] d[x]).i != c || d[x].key != k || !d[x].at.contains(y) by {
                    assert(d[x] == t[x]);
                }
                assert(z.i != c || z.key != k || !z.at.contains(y));
                assert(mid->0[y] == was->0[y]);
            }
        }
    }
}

proof fn lemma_hit_all_ok(s: StoreView, t: Seq<TargetView>)
    requires
        store_ok(s),
        within(t, s.tables.len()),
    ensures
        store_ok(hit_all(s, t)),
        hit_all(s, t).tables.len() == s.tables.len(),
    decreases t.len(),
{
    if t.len() > 0 {
        let d = t.drop_last();
        assert(within(d, s.tables.len())) by {
            assert forall|x: int| 0 <= x < d.len() implies 0 <= (#[trigger] d[x]).i < s.tables.len() by {
                assert(d[x] == t[x]);
            }
        }
        lemma_hit_all_ok(s, d);
        assert(0 <= t[t.len() - 1].i < s.tables.len());
        lemma_hit(hit_all(s, d), t.last());
    }
}

/// A row that refers by a foreign key with CASCADE to a row that is deleted goes with it.
pub proof fn law_cascade(
    run: Run,
    txn: Option<u64>,
    d: Doomed,
    i: int,
    k: Seq<ValueView>,
    row: Seq<ValueView>,
    filter: Option<ExprView>,
    c: int,
    f: int,
    j: int,
)
    requires
        store_ok(d.s),
        0 <= i < d.s.tables.len(),
        d.err is None,
        is_about(run, d, i, row, filter),
        refers(d.s, i, row, c, f, j),
        d.s.tables[c].fks[f].on_delete == FkAction::Cascade,
        doom_step(run, txn, d, i, k, row, filter).err is None,
    ensures
        row_of(rows_at_table(doom_step(run, txn, d, i, k, row, filter).s, c), d.s.tables[c].keys[j]) is None,
        doom_step(run, txn, d, i, k, row, filter).keys == d.keys.push(k),
{
    lemma_target(d.s, i, row, d.s.tables.len(), c, f, j);
    let t = all_targets(d.s, i, row, d.s.tables.len())->Ok_0;
    lemma_targets_within(d.s, i, row);
    lemma_hit_rows(d.s, t, c, d.s.tables[c].keys[j]);
    let x = choose|x: int| 0 <= x < t.len() && t[x] == target_of(d.s, c, f, j);
    assert(t[x].i == c && t[x].key == d.s.tables[c].keys[j] && t[x].action == FkAction::Cascade);
}

/// A row that refers by a foreign key with SET NULL to a row that is deleted loses the reference and
/// keeps what stands in its other columns, or it is gone for another reason.
pub proof fn law_set_null(
    run: Run,
    txn: Option<u64>,
    d: Doomed,
    i: int,
    k: Seq<ValueView>,
    row: Seq<ValueView>,
    filter: Option<ExprView>,
    c: int,
    f: int,
    j: int,
    y: int,
)
    requires
        store_ok(d.s),
        0 <= i < d.s.tables.len(),
        d.err is None,
        is_about(run, d, i, row, filter),
        refers(d.s, i, row, c, f, j),
        d.s.tables[c].fks[f].on_delete == FkAction::SetNull,
        doom_step(run, txn, d, i, k, row, filter).err is None,
        0 <= y < d.s.rows[c][j].len(),
    ensures
        ({
            let was = d.s.rows[c][j];
            let after = row_of(rows_at_table(doom_step(run, txn, d, i, k, row, filter).s, c), d.s.tables[c].keys[j]);
            after is Some ==> {
                &&& after->0.len() == was.len()
                &&& target_of(d.s, c, f, j).at.contains(y) ==> after->0[y] is Null
                &&& after->0[y] == was[y] || after->0[y] is Null
            }
        }),
{
    lemma_target(d.s, i, row, d.s.tables.len(), c, f, j);
    let t = all_targets(d.s, i, row, d.s.tables.len())->Ok_0;
    lemma_targets_within(d.s, i, row);
    let key = d.s.tables[c].keys[j];
    lemma_hit_rows(d.s, t, c, key);
    assert(well_kept(rows_at_table(d.s, c)));
    lemma_find(rows_at_table(d.s, c), key, j);
    let x = choose|x: int| 0 <= x < t.len() && t[x] == target_of(d.s, c, f, j);
    assert(t[x].i == c && t[x].key == key && t[x].action == FkAction::SetNull);
}

proof fn lemma_targets_within(s: StoreView, i: int, row: Seq<ValueView>)
    requires
        store_ok(s),
        0 <= i < s.tables.len(),
        all_targets(s, i, row, s.tables.len()) is Ok,
    ensures
        within(all_targets(s, i, row, s.tables.len())->Ok_0, s.tables.len()),
{
    super::rollback::lemma_all_targets(s, i, row, s.tables.len());
}

} // verus!
