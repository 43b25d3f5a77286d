use vstd::prelude::*;
use vstd::string::*;
use crate::error::{ErrorView, QueryError, fk_referenced_message, run_error, table_missing};
use crate::parser::ast::{DeleteStmt, DeleteStmtView, Expr, ExprView, FkAction, ForeignKeyDef, ForeignKeyDefView, SelectColumn, SelectColumnView};
use crate::parser::ast::{foreign_key_defs_at, foreign_key_defs_len, foreign_key_defs_view, select_columns_at, select_columns_len, select_columns_view};
use crate::text::{copy_vec, text_is};
use crate::value::{Value, ValueView, dup_names, dup_rows, dup_values, names_push, names_view, rows_push, rows_view, values_push, values_view};
use super::constraints::{Run, Clerk, carries, does_carry, find_places, has_null, holds_null, ints, list_column_names, pick_values, places_of, run_env, table_scope};
use super::dml::{Work, concerned, is_concerned, no_rows, no_scopes, opt_view, outside, walked};
use super::eval::{Reader, eval, eval_value};
use super::grouping::{opt_expr, picked};
use super::relation::{Relation, RelationView};
use super::rows::{row_of, well_kept};
use super::scope::{Env, Names, NamesView, bare_names};
use super::store::{Store, StoreView, column_names, rows_at_table, store_del, store_put, table_index};
use super::unit::{Ask, Reply, ask_write, write_refused};

verus! {

/// A row that refers to one that goes away: its table, what is to happen to it, its key, and the
/// places of the columns that refer.
#[derive(Debug)]
pub struct Target {
    pub i: usize,
    pub action: FkAction,
    pub key: Vec<Value>,
    pub at: Vec<usize>,
}

/// What contracts say about a `Target`.
pub struct TargetView {
    pub i: int,
    pub action: FkAction,
    pub key: Seq<ValueView>,
    pub at: Seq<int>,
}

impl Target {
    pub open spec fn view(&self) -> TargetView {
        TargetView { i: self.i as int, action: self.action, key: values_view(self.key@), at: ints(self.at@) }
    }
}

pub open spec fn targets_view(s: Seq<Target>) -> Seq<TargetView> {
    Seq::new(s.len(), |i: int| s[i]@)
}

pub type Targets = Result<Seq<TargetView>, ErrorView>;

/// The rows of table `c`, called `name`, that carry the values `vals` at the places `at`; one is
/// enough for an error where that keeps a row from going.
pub open spec fn row_targets(
    c: int,
    name: Seq<char>,
    action: FkAction,
    keys: Seq<Seq<ValueView>>,
    rows: Seq<Seq<ValueView>>,
    at: Seq<int>,
    vals: Seq<ValueView>,
) -> Targets
    decreases rows.len(),
{
    if rows.len() == 0 {
        Ok(Seq::empty())
    } else {
        match row_targets(c, name, action, keys, rows.drop_last(), at, vals) {
            Err(e) => Err(e),
            Ok(t) => if carries(rows.last(), at, vals) {
                if action == FkAction::Restrict {
                    Err(ErrorView::Constraint(fk_referenced_message(name)))
                } else {
                    Ok(t.push(TargetView { i: c, action, key: keys[rows.len() - 1], at }))
                }
            } else {
                Ok(t)
            },
        }
    }
}

/// The rows of table `c` that refer by the foreign key `fk` to the row `row` of table `i`.
pub open spec fn fk_targets(s: StoreView, i: int, row: Seq<ValueView>, c: int, fk: ForeignKeyDefView) -> Targets {
    let vals = picked(row, places_of(column_names(s.tables[i].columns), fk.ref_columns));
    if fk.ref_table != s.tables[i].name || holds_null(vals) {
        Ok(Seq::empty())
    } else {
        row_targets(
            c,
            s.tables[c].name,
            fk.on_delete,
            s.tables[c].keys,
            s.rows[c],
            places_of(column_names(s.tables[c].columns), fk.columns),
            vals,
        )
    }
}

/// The rows of table `c` that refer to a row of table `i` by one of the first `n` foreign keys.
pub open spec fn table_targets(s: StoreView, i: int, row: Seq<ValueView>, c: int, n: nat) -> Targets
    decreases n,
{
    if n == 0 {
        Ok(Seq::empty())
    } else {
        match table_targets(s, i, row, c, (n - 1) as nat) {
            Err(e) => Err(e),
            Ok(a) => match fk_targets(s, i, row, c, s.tables[c].fks[n - 1]) {
                Err(e) => Err(e),
                Ok(b) => Ok(a + b),
            },
        }
    }
}

/// The rows of the first `n` tables, but table `i` itself, that refer to a row of table `i`.
pub open spec fn all_targets(s: StoreView, i: int, row: Seq<ValueView>, n: nat) -> Targets
    decreases n,
{
    if n == 0 {
        Ok(Seq::empty())
    } else {
        match all_targets(s, i, row, (n - 1) as nat) {
            Err(e) => Err(e),
            Ok(a) => if n - 1 == i {
                Ok(a)
            } else {
                match table_targets(s, i, row, n - 1, s.tables[n - 1].fks.len()) {
                    Err(e) => Err(e),
                    Ok(b) => Ok(a + b),
                }
            },
        }
    }
}

/// A row with nulls at some places.
pub open spec fn nulled(row: Seq<ValueView>, at: Seq<int>) -> Seq<ValueView> {
    Seq::new(
        row.len(),
        |i: int|
            if at.contains(i) {
                ValueView::Null
            } else {
                row[i]
            },
    )
}

/// What happens to a row that refers to one that goes away.
pub open spec fn hit(s: StoreView, t: TargetView) -> StoreView {
    match t.action {
        FkAction::Cascade => store_del(s, t.i, t.key),
        FkAction::SetNull => match row_of(rows_at_table(s, t.i), t.key) {
            Some(row) => store_put(s, t.i, t.key, nulled(row, t.at)),
            None => s,
        },
        FkAction::Restrict => s,
    }
}

pub open spec fn hit_all(s: StoreView, t: Seq<TargetView>) -> StoreView
    decreases t.len(),
{
    if t.len() == 0 {
        s
    } else {
        hit(hit_all(s, t.drop_last()), t.last())
    }
}

/// What a DELETE has come to before the rows go: the store after what happened to other tables,
/// the keys and the rows that are to go, and the error that stopped it.
pub struct Doomed {
    pub s: StoreView,
    pub keys: Seq<Seq<ValueView>>,
    pub rows: Seq<Seq<ValueView>>,
    pub err: Option<ErrorView>,
}

/// Goes through the rows that stood in table `i` at the start, and does to the rows that refer to
/// those that are to go what their foreign keys say.
pub open spec fn doomed(
    run: Run,
    txn: Option<u64>,
    s: StoreView,
    i: int,
    keys: Seq<Seq<ValueView>>,
    rows: Seq<Seq<ValueView>>,
    filter: Option<ExprView>,
) -> Doomed
    decreases rows.len(),
{
    if rows.len() == 0 {
        Doomed { s, keys: Seq::empty(), rows: Seq::empty(), err: None }
    } else {
        let d = doomed(run, txn, s, i, keys, rows.drop_last(), filter);
        if d.err is Some {
            d
        } else {
            doom_step(run, txn, d, i, keys[rows.len() - 1], rows.last(), filter)
        }
    }
}

pub open spec fn doom_step(run: Run, txn: Option<u64>, d: Doomed, i: int, k: Seq<ValueView>, row: Seq<ValueView>, filter: Option<ExprView>) -> Doomed {
    if concerned(run_env(run, d.s), table_scope(d.s.tables[i]), row, filter) {
        match all_targets(d.s, i, row, d.s.tables.len()) {
            Err(e) => Doomed { err: Some(e), ..d },
            Ok(t) => match write_refused(run.m, txn, d.s.tables[i].name, k) {
                Some(why) => Doomed { s: hit_all(d.s, t), err: Some(ErrorView::Core(why)), ..d },
                None => Doomed { s: hit_all(d.s, t), keys: d.keys.push(k), rows: d.rows.push(row), err: None },
            },
        }
    } else {
        d
    }
}

/// The store after the rows under some keys of table `i` were deleted.
pub open spec fn del_all(s: StoreView, i: int, keys: Seq<Seq<ValueView>>) -> StoreView
    decreases keys.len(),
{
    if keys.len() == 0 {
        s
    } else {
        store_del(del_all(s, i, keys.drop_last()), i, keys.last())
    }
}

/// DELETE: the rows of `v` are gone through, and those of `s` deleted.
pub open spec fn delete_work(run: Run, txn: Option<u64>, s: StoreView, v: StoreView, q: DeleteStmtView) -> Work {
    match table_index(s, q.table) {
        None => Work { s, rows: Seq::empty(), err: Some(run_error(table_missing(q.table))) },
        Some(i) => {
            let d = doomed(run, txn, s, i, v.tables[i].keys, v.rows[i], q.where_clause);
            Work {
                s: if d.err is Some {
                    d.s
                } else {
                    del_all(d.s, i, d.keys)
                },
                rows: d.rows,
                err: d.err,
            }
        },
    }
}

spec fn targets_result(r: crate::error::Result<Vec<Target>>) -> Targets {
    match r {
        Ok(t) => Ok(targets_view(t@)),
        Err(e) => Err(e@),
    }
}

proof fn lemma_row_targets_stop(
    c: int,
    name: Seq<char>,
    action: FkAction,
    keys: Seq<Seq<ValueView>>,
    rows: Seq<Seq<ValueView>>,
    at: Seq<int>,
    vals: Seq<ValueView>,
    n: int,
)
    requires
        0 <= n <= rows.len(),
        row_targets(c, name, action, keys, rows.take(n), at, vals) is Err,
    ensures
        row_targets(c, name, action, keys, rows, at, vals) == row_targets(c, name, action, keys, rows.take(n), at, vals),
    decreases rows.len() - n,
{
    if n < rows.len() {
        assert(rows.take(n + 1).drop_last() =~= rows.take(n));
        lemma_row_targets_stop(c, name, action, keys, rows, at, vals, n + 1);
    } else {
        assert(rows.take(n) =~= rows);
    }
}

pub open spec fn in_store(t: Seq<Target>, n: nat) -> bool {
    forall|k: int| 0 <= k < t.len() ==> (#[trigger] t[k]).i < n
}

fn find_row_targets(
    c: usize,
    name: &str,
    action: FkAction,
    keys: &Vec<Vec<Value>>,
    rows: &Vec<Vec<Value>>,
    at: &Vec<usize>,
    vals: &Vec<Value>,
) -> (r: crate::error::Result<Vec<Target>>)
    requires
        keys@.len() == rows@.len(),
    ensures
        targets_result(r) == row_targets(
            c as int,
            name@,
            action,
            rows_view(keys@),
            rows_view(rows@),
            ints(at@),
            values_view(vals@),
        ),
        r matches Ok(t) ==> in_store(t@, (c + 1) as nat),
{
    let ghost ks = rows_view(keys@);
    let ghost all = rows_view(rows@);
    let ghost av = ints(at@);
    let ghost vv = values_view(vals@);
    let mut r: Vec<Target> = Vec::new();
    let mut j: usize = 0;
    assert(all.take(0).len() == 0);
    assert(targets_view(r@) =~= Seq::empty());
    while j < rows.len()
        invariant
            j <= rows.len(),
            keys@.len() == rows@.len(),
            ks == rows_view(keys@),
            all == rows_view(rows@),
            av == ints(at@),
            vv == values_view(vals@),
            in_store(r@, (c + 1) as nat),
            row_targets(c as int, name@, action, ks, all.take(j as int), av, vv) == Ok::<Seq<TargetView>, ErrorView>(targets_view(r@)),
        decreases rows.len() - j,
    {
        proof {
            assert(all.take(j + 1).drop_last() =~= all.take(j as int));
            assert(all.take(j + 1).last() == values_view(rows@[j as int]@));
            assert(ks[j as int] == values_view(keys@[j as int]@));
        }
        if does_carry(&rows[j], at, vals) {
            if matches!(action, FkAction::Restrict) {
                proof {
                    lemma_row_targets_stop(c as int, name@, action, ks, all, av, vv, j + 1);
                }
                return Err(QueryError::fk_referenced(name));
            }
            let t = Target { i: c, action, key: dup_values(&keys[j]), at: copy_vec(at) };
            let ghost before = r@;
            r.push(t);
            assert(targets_view(r@) =~= targets_view(before).push(t@));
        }
        j = j + 1;
    }
    assert(all.take(rows.len() as int) =~= all);
    Ok(r)
}

fn find_fk_targets(s: &Store, i: usize, row: &Vec<Value>, c: usize, fk: &ForeignKeyDef) -> (r: crate::error::Result<Vec<Target>>)
    requires
        s.wf(),
        i < s.tables@.len(),
        c < s.tables@.len(),
    ensures
        targets_result(r) == fk_targets(s@, i as int, values_view(row@), c as int, fk@),
        r matches Ok(t) ==> in_store(t@, s.tables@.len()),
{
    proof {
        (*fk).unfold();
        assert(s@.tables[i as int] == s.tables@[i as int]@);
        assert(s@.tables[c as int] == s.tables@[c as int]@);
        assert(well_kept(rows_at_table(s@, c as int)));
    }
    let ours = list_column_names(&s.tables[i].columns);
    let p = find_places(&ours, &fk.ref_columns);
    let vals = pick_values(row, &p);
    if !text_is(fk.ref_table.as_str(), s.tables[i].name.as_str()) || has_null(&vals) {
        let none: Vec<Target> = Vec::new();
        assert(targets_view(none@) =~= Seq::empty());
        return Ok(none);
    }
    let theirs = list_column_names(&s.tables[c].columns);
    let at = find_places(&theirs, &fk.columns);
    find_row_targets(
        c,
        s.tables[c].name.as_str(),
        fk.on_delete,
        &s.tables[c].keys,
        &s.sources[c].rel.rows,
        &at,
        &vals,
    )
}

fn append_targets(r: &mut Vec<Target>, more: Vec<Target>)
    ensures
        targets_view(final(r)@) == targets_view(old(r)@) + targets_view(more@),
        forall|n: nat| in_store(old(r)@, n) && in_store(more@, n) ==> #[trigger] in_store(final(r)@, n),
{
    let mut more = more;
    let ghost a = r@;
    let ghost b = more@;
    r.append(&mut more);
    assert(r@ =~= a + b);
    assert(targets_view(r@) =~= targets_view(a) + targets_view(b));
}

fn find_table_targets(s: &Store, i: usize, row: &Vec<Value>, c: usize) -> (r: crate::error::Result<Vec<Target>>)
    requires
        s.wf(),
        i < s.tables@.len(),
        c < s.tables@.len(),
    ensures
        targets_result(r) == table_targets(s@, i as int, values_view(row@), c as int, s@.tables[c as int].fks.len()),
        r matches Ok(t) ==> in_store(t@, s.tables@.len()),
{
    let ghost all = s@.tables[c as int].fks;
    proof {
        broadcast use foreign_key_defs_len;

        assert(s@.tables[c as int] == s.tables@[c as int]@);
        assert(all.len() == s.tables@[c as int].fks@.len());
    }
    let fks = &s.tables[c].fks;
    let mut r: Vec<Target> = Vec::new();
    let mut bad: Option<QueryError> = None;
    let mut j: usize = 0;
    assert(targets_view(r@) =~= Seq::empty());
    while j < fks.len()
        invariant
            j <= fks.len(),
            s.wf(),
            i < s.tables@.len(),
            c < s.tables@.len(),
            all == s@.tables[c as int].fks,
            all == foreign_key_defs_view(fks@),
            all.len() == fks@.len(),
            in_store(r@, s.tables@.len()),
            table_targets(s@, i as int, values_view(row@), c as int, j as nat) == (match bad {
                Some(e) => Err::<Seq<TargetView>, ErrorView>(e@),
                None => Ok(targets_view(r@)),
            }),
        decreases fks.len() - j,
    {
        proof {
            broadcast use foreign_key_defs_at;

            assert(all[j as int] == fks@[j as int]@);
        }
        if bad.is_none() {
            match find_fk_targets(s, i, row, c, &fks[j]) {
                Ok(more) => append_targets(&mut r, more),
                Err(e) => {
                    bad = Some(e);
                },
            }
        }
        j = j + 1;
    }
    match bad {
        Some(e) => Err(e),
        None => Ok(r),
    }
}

fn find_targets(s: &Store, i: usize, row: &Vec<Value>) -> (r: crate::error::Result<Vec<Target>>)
    requires
        s.wf(),
        i < s.tables@.len(),
    ensures
        targets_result(r) == all_targets(s@, i as int, values_view(row@), s@.tables.len()),
        r matches Ok(t) ==> in_store(t@, s.tables@.len()),
{
    let mut r: Vec<Target> = Vec::new();
    let mut bad: Option<QueryError> = None;
    let mut c: usize = 0;
    assert(targets_view(r@) =~= Seq::empty());
    while c < s.tables.len()
        invariant
            c <= s.tables.len(),
            s.wf(),
            i < s.tables@.len(),
            in_store(r@, s.tables@.len()),
            all_targets(s@, i as int, values_view(row@), c as nat) == (match bad {
                Some(e) => Err::<Seq<TargetView>, ErrorView>(e@),
                None => Ok(targets_view(r@)),
            }),
        decreases s.tables.len() - c,
    {
        if bad.is_none() && c != i {
            match find_table_targets(s, i, row, c) {
                Ok(more) => append_targets(&mut r, more),
                Err(e) => {
                    bad = Some(e);
                },
            }
        }
        c = c + 1;
    }
    match bad {
        Some(e) => Err(e),
        None => Ok(r),
    }
}

fn is_among(at: &Vec<usize>, i: usize) -> (r: bool)
    ensures
        r == ints(at@).contains(i as int),
{
    let ghost av = ints(at@);
    let mut k: usize = 0;
    while k < at.len()
        invariant
            k <= at.len(),
            av == ints(at@),
            forall|j: int| 0 <= j < k ==> #[trigger] av[j] != i as int,
        decreases at.len() - k,
    {
        assert(av[k as int] == at@[k as int] as int);
        if at[k] == i {
            return true;
        }
        k = k + 1;
    }
    false
}

fn null_out(row: &Vec<Value>, at: &Vec<usize>) -> (r: Vec<Value>)
    ensures
        values_view(r@) == nulled(values_view(row@), ints(at@)),
{
    let ghost all = nulled(values_view(row@), ints(at@));
    let mut r: Vec<Value> = Vec::new();
    let mut i: usize = 0;
    assert(values_view(r@) =~= all.take(0));
    while i < row.len()
        invariant
            i <= row.len(),
            all == nulled(values_view(row@), ints(at@)),
            values_view(r@) == all.take(i as int),
        decreases row.len() - i,
    {
        let v = if is_among(at, i) {
            Value::Null
        } else {
            row[i].dup()
        };
        proof {
            values_push(r@, v);
            assert(all[i as int] == v@);
            assert(all.take(i + 1) =~= all.take(i as int).push(v@));
        }
        r.push(v);
        i = i + 1;
    }
    assert(all.take(row.len() as int) =~= all);
    r
}

fn hit_target(s: &mut Store, t: &Target)
    requires
        old(s).wf(),
        t.i < old(s).tables@.len(),
    ensures
        final(s).wf(),
        final(s)@ == hit(old(s)@, t@),
        final(s).tables@.len() == old(s).tables@.len(),
{
    match t.action {
        FkAction::Cascade => s.del(t.i, &t.key),
        FkAction::SetNull => match s.get(t.i, &t.key) {
            Some(row) => s.put(t.i, dup_values(&t.key), null_out(&row, &t.at)),
            None => {},
        },
        FkAction::Restrict => {},
    }
}

fn hit_targets(s: &mut Store, t: &Vec<Target>)
    requires
        old(s).wf(),
        in_store(t@, old(s).tables@.len()),
    ensures
        final(s).wf(),
        final(s)@ == hit_all(old(s)@, targets_view(t@)),
        final(s).tables@.len() == old(s).tables@.len(),
{
    let ghost all = targets_view(t@);
    let mut i: usize = 0;
    assert(all.take(0).len() == 0);
    while i < t.len()
        invariant
            i <= t.len(),
            s.wf(),
            all == targets_view(t@),
            in_store(t@, s.tables@.len()),
            s.tables@.len() == old(s).tables@.len(),
            s@ == hit_all(old(s)@, all.take(i as int)),
        decreases t.len() - i,
    {
        proof {
            assert(all.take(i + 1).drop_last() =~= all.take(i as int));
            assert(all.take(i + 1).last() == t@[i as int]@);
        }
        hit_target(s, &t[i]);
        i = i + 1;
    }
    assert(all.take(t.len() as int) =~= all);
}

proof fn lemma_doomed_stops(
    run: Run,
    txn: Option<u64>,
    s: StoreView,
    i: int,
    keys: Seq<Seq<ValueView>>,
    rows: Seq<Seq<ValueView>>,
    filter: Option<ExprView>,
    n: int,
)
    requires
        0 <= n <= rows.len(),
        doomed(run, txn, s, i, keys, rows.take(n), filter).err is Some,
    ensures
        doomed(run, txn, s, i, keys, rows, filter) == doomed(run, txn, s, i, keys, rows.take(n), filter),
    decreases rows.len() - n,
{
    if n < rows.len() {
        assert(rows.take(n + 1).drop_last() =~= rows.take(n));
        lemma_doomed_stops(run, txn, s, i, keys, rows, filter, n + 1);
    } else {
        assert(rows.take(n) =~= rows);
    }
}

pub open spec fn doomed_view(s: Store, keys: Seq<Vec<Value>>, rows: Seq<Vec<Value>>, err: Option<QueryError>) -> Doomed {
    Doomed { s: s@, keys: rows_view(keys), rows: rows_view(rows), err: opt_view(err) }
}

pub fn doom_row<'a, U: Fn(Ask) -> Reply>(
    rn: &Clerk<'a, U>,
    txn: Option<u64>,
    s: &mut Store,
    i: usize,
    k: &Vec<Value>,
    row: &Vec<Value>,
    filter: &Option<Expr>,
    keys: &mut Vec<Vec<Value>>,
    rows: &mut Vec<Vec<Value>>,
) -> (r: Option<QueryError>)
    requires
        rn.ready(),
        old(s).wf(),
        i < old(s).tables@.len(),
    ensures
        final(s).wf(),
        final(s).tables@.len() == old(s).tables@.len(),
        doomed_view(*final(s), final(keys)@, final(rows)@, r) == doom_step(
            rn.run(),
            txn,
            doomed_view(*old(s), old(keys)@, old(rows)@, None),
            i as int,
            values_view(k@),
            values_view(row@),
            opt_expr(*filter),
        ),
{
    assert(s@.tables[i as int] == s.tables@[i as int]@);
    let cols = list_column_names(&s.tables[i].columns);
    let n = bare_names(&cols);
    let cx = Reader { u: rn.u, now: rn.now, counts: rn.counts, db: &s.sources, depth: rn.depth };
    if !is_concerned(&cx, &n, row, filter) {
        return None;
    }
    match find_targets(s, i, row) {
        Err(e) => Some(e),
        Ok(t) => {
            let name = s.tables[i].name.clone();
            hit_targets(s, &t);
            match ask_write(rn.u, txn, name.as_str(), k) {
                Some(why) => {
                    return Some(QueryError::Core(why));
                },
                None => {},
            }
            let k2 = dup_values(k);
            let r2 = dup_values(row);
            proof {
                rows_push(keys@, k2);
                rows_push(rows@, r2);
            }
            keys.push(k2);
            rows.push(r2);
            None
        },
    }
}

fn doom_rows<'a, U: Fn(Ask) -> Reply>(
    rn: &Clerk<'a, U>,
    txn: Option<u64>,
    s: &mut Store,
    i: usize,
    keys: &Vec<Vec<Value>>,
    rows: &Vec<Vec<Value>>,
    filter: &Option<Expr>,
) -> (r: (Vec<Vec<Value>>, Vec<Vec<Value>>, Option<QueryError>))
    requires
        rn.ready(),
        old(s).wf(),
        i < old(s).tables@.len(),
        keys@.len() == rows@.len(),
    ensures
        final(s).wf(),
        final(s).tables@.len() == old(s).tables@.len(),
        doomed(rn.run(), txn, old(s)@, i as int, rows_view(keys@), rows_view(rows@), opt_expr(*filter)) == doomed_view(
            *final(s),
            r.0@,
            r.1@,
            r.2,
        ),
{
    let ghost s0 = s@;
    let ghost kv = rows_view(keys@);
    let ghost all = rows_view(rows@);
    let ghost fv = opt_expr(*filter);
    let mut gone = no_rows();
    let mut out = no_rows();
    let mut j: usize = 0;
    assert(all.take(0).len() == 0);
    while j < rows.len()
        invariant
            j <= rows.len(),
            rn.ready(),
            s.wf(),
            i < s.tables@.len(),
            s.tables@.len() == old(s).tables@.len(),
            keys@.len() == rows@.len(),
            s0 == old(s)@,
            kv == rows_view(keys@),
            all == rows_view(rows@),
            fv == opt_expr(*filter),
            doomed(rn.run(), txn, s0, i as int, kv, all.take(j as int), fv) == doomed_view(*s, gone@, out@, None),
        decreases rows.len() - j,
    {
        proof {
            assert(all.take(j + 1).drop_last() =~= all.take(j as int));
            assert(all.take(j + 1).last() == values_view(rows@[j as int]@));
            assert(kv[j as int] == values_view(keys@[j as int]@));
        }
        match doom_row(rn, txn, s, i, &keys[j], &rows[j], filter, &mut gone, &mut out) {
            Some(e) => {
                proof {
                    lemma_doomed_stops(rn.run(), txn, s0, i as int, kv, all, fv, j + 1);
                }
                return (gone, out, Some(e));
            },
            None => {},
        }
        j = j + 1;
    }
    assert(all.take(rows.len() as int) =~= all);
    (gone, out, None)
}

fn del_rows(s: &mut Store, i: usize, keys: &Vec<Vec<Value>>)
    requires
        old(s).wf(),
        i < old(s).tables@.len(),
    ensures
        final(s).wf(),
        final(s)@ == del_all(old(s)@, i as int, rows_view(keys@)),
{
    let ghost all = rows_view(keys@);
    let mut j: usize = 0;
    assert(all.take(0).len() == 0);
    while j < keys.len()
        invariant
            j <= keys.len(),
            s.wf(),
            i < s.tables@.len(),
            all == rows_view(keys@),
            s@ == del_all(old(s)@, i as int, all.take(j as int)),
        decreases keys.len() - j,
    {
        proof {
            assert(all.take(j + 1).drop_last() =~= all.take(j as int));
            assert(all.take(j + 1).last() == values_view(keys@[j as int]@));
        }
        s.del(i, &keys[j]);
        j = j + 1;
    }
    assert(all.take(keys.len() as int) =~= all);
}

/// Runs a DELETE: the rows that went, and the error that stopped it.
pub fn exec_delete<'a, U: Fn(Ask) -> Reply>(rn: &Clerk<'a, U>, txn: Option<u64>, s: &mut Store, v: &Option<Store>, q: &DeleteStmt) -> (r: (
    Vec<Vec<Value>>,
    Option<QueryError>,
))
    requires
        rn.ready(),
        old(s).wf(),
        (*v) matches Some(v) ==> v.wf() && v.tables@.len() == old(s).tables@.len(),
    ensures
        final(s).wf(),
        delete_work(rn.run(), txn, old(s)@, walked(old(s)@, *v), q@) == (Work { s: final(s)@, rows: rows_view(r.0@), err: opt_view(r.1) }),
{
    proof {
        (*q).unfold();
    }
    match s.find(q.table.as_str()) {
        None => (no_rows(), Some(QueryError::no_table(q.table.as_str()))),
        Some(i) => {
            let (keys, rows) = match v {
                Some(v) => v.copy_rows(i),
                None => s.copy_rows(i),
            };
            let (gone, out, bad) = doom_rows(rn, txn, s, i, &keys, &rows, &q.where_clause);
            if bad.is_none() {
                del_rows(s, i, &gone);
            }
            (out, bad)
        },
    }
}

// ---- RETURNING

/// The name of a column of RETURNING.
pub open spec fn returning_name(c: SelectColumnView) -> Seq<char> {
    match c {
        SelectColumnView::Star => "*"@,
        SelectColumnView::Expr(_, Some(a)) => a,
        SelectColumnView::Expr(ExprView::Column(c), None) => c,
        SelectColumnView::Expr(_, None) => "?column?"@,
    }
}

pub open spec fn returning_value(env: Env, n: NamesView, row: Seq<ValueView>, c: SelectColumnView) -> ValueView {
    match c {
        SelectColumnView::Star => ValueView::Null,
        SelectColumnView::Expr(e, _) => eval(env, no_scopes(), n, row, e),
    }
}

/// The rows that RETURNING makes of those that a statement inserted, changed or deleted: the rows
/// themselves where it starts with `*`.
pub open spec fn returned(env: Env, n: NamesView, rows: Seq<Seq<ValueView>>, cols: Seq<SelectColumnView>) -> RelationView {
    if cols.len() > 0 && cols[0] is Star {
        RelationView { columns: n.columns, rows }
    } else {
        RelationView {
            columns: Seq::new(cols.len(), |i: int| returning_name(cols[i])),
            rows: Seq::new(rows.len(), |j: int| returned_row(env, n, rows[j], cols)),
        }
    }
}

pub open spec fn returned_row(env: Env, n: NamesView, row: Seq<ValueView>, cols: Seq<SelectColumnView>) -> Seq<ValueView> {
    Seq::new(cols.len(), |i: int| returning_value(env, n, row, cols[i]))
}

fn name_returning(c: &SelectColumn) -> (r: String)
    ensures
        r@ == returning_name(c@),
{
    proof {
        (*c).unfold();
    }
    match c {
        SelectColumn::Star => "*".to_string(),
        SelectColumn::Expr(e, alias) => {
            proof {
                (*e).unfold();
            }
            match alias {
                Some(a) => a.clone(),
                None => match e {
                    Expr::Column(c) => c.clone(),
                    _ => "?column?".to_string(),
                },
            }
        },
    }
}

fn return_row<'a, U: Fn(Ask) -> Reply>(cx: &Reader<'a, U>, n: &Names, row: &Vec<Value>, cols: &Vec<SelectColumn>) -> (r: Vec<Value>)
    requires
        cx.ready(),
    ensures
        values_view(r@) == returned_row(cx.env(), n@, values_view(row@), select_columns_view(cols@)),
{
    let ghost all = returned_row(cx.env(), n@, values_view(row@), select_columns_view(cols@));
    let o = outside();
    let mut r: Vec<Value> = Vec::new();
    let mut i: usize = 0;
    proof {
        broadcast use select_columns_len;

        assert(all.len() == cols@.len());
        assert(values_view(r@) =~= all.take(0));
    }
    while i < cols.len()
        invariant
            i <= cols.len(),
            cx.ready(),
            super::scope::scopes_view(o@) == no_scopes(),
            all == returned_row(cx.env(), n@, values_view(row@), select_columns_view(cols@)),
            all.len() == cols@.len(),
            values_view(r@) == all.take(i as int),
        decreases cols.len() - i,
    {
        proof {
            broadcast use {select_columns_at, select_columns_len};

            assert(select_columns_view(cols@)[i as int] == cols@[i as int]@);
            cols@[i as int].unfold();
        }
        let v = match &cols[i] {
            SelectColumn::Star => Value::Null,
            SelectColumn::Expr(e, _) => eval_value(cx, &o, n, row, e),
        };
        proof {
            values_push(r@, v);
            assert(all[i as int] == v@);
            assert(all.take(i + 1) =~= all.take(i as int).push(v@));
        }
        r.push(v);
        i = i + 1;
    }
    assert(all.take(cols.len() as int) =~= all);
    r
}

/// Makes the rows of RETURNING.
pub fn build_returning_result<'a, U: Fn(Ask) -> Reply>(cx: &Reader<'a, U>, n: &Names, rows: &Vec<Vec<Value>>, cols: &Vec<SelectColumn>) -> (r: Relation)
    requires
        cx.ready(),
    ensures
        r@ == returned(cx.env(), n@, rows_view(rows@), select_columns_view(cols@)),
{
    let ghost cv = select_columns_view(cols@);
    proof {
        broadcast use {select_columns_at, select_columns_len};

        assert(cv.len() == cols@.len());
        if cols@.len() > 0 {
            assert(cv[0] == cols@[0]@);
            cols@[0].unfold();
        }
    }
    if cols.len() > 0 && matches!(&cols[0], SelectColumn::Star) {
        return Relation { columns: dup_names(&n.columns), rows: dup_rows(rows) };
    }
    let ghost out = returned(cx.env(), n@, rows_view(rows@), cv);
    let mut columns: Vec<String> = Vec::new();
    let mut i: usize = 0;
    assert(names_view(columns@) =~= out.columns.take(0));
    while i < cols.len()
        invariant
            i <= cols.len(),
            cv == select_columns_view(cols@),
            cv.len() == cols@.len(),
            out.columns == Seq::new(cv.len(), |i: int| returning_name(cv[i])),
            names_view(columns@) == out.columns.take(i as int),
        decreases cols.len() - i,
    {
        let name = name_returning(&cols[i]);
        proof {
            broadcast use select_columns_at;

            assert(cv[i as int] == cols@[i as int]@);
            names_push(columns@, name);
            assert(out.columns.take(i + 1) =~= out.columns.take(i as int).push(name@));
        }
        columns.push(name);
        i = i + 1;
    }
    let mut made: Vec<Vec<Value>> = Vec::new();
    let mut j: usize = 0;
    assert(rows_view(made@) =~= out.rows.take(0));
    while j < rows.len()
        invariant
            j <= rows.len(),
            cx.ready(),
            cv == select_columns_view(cols@),
            out.rows == Seq::new(rows_view(rows@).len(), |j: int| returned_row(cx.env(), n@, rows_view(rows@)[j], cv)),
            rows_view(made@) == out.rows.take(j as int),
        decreases rows.len() - j,
    {
        let row = return_row(cx, n, &rows[j], cols);
        proof {
            assert(rows_view(rows@)[j as int] == values_view(rows@[j as int]@));
            rows_push(made@, row);
            assert(out.rows.take(j + 1) =~= out.rows.take(j as int).push(values_view(row@)));
        }
        made.push(row);
        j = j + 1;
    }
    proof {
        assert(out.columns.take(cols.len() as int) =~= out.columns);
        assert(out.rows.take(rows.len() as int) =~= out.rows);
    }
    Relation { columns, rows: made }
}

} // verus!
