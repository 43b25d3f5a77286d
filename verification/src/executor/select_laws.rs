use vstd::prelude::*;
use vstd::string::*;
use crate::parser::ast::{BinOp, CteView, ExprView, FromClauseView, LiteralValueView, OrderByExprView, SelectColumnView, SelectStmtView};
use crate::value::{Order, ValueView};
use super::eval::{eval, predicate};
use super::expr_laws::{lemma_eval_all, lemma_index_of, op_of};
use super::grouping::{grouped, query_calls};
use super::join::joined_rows;
use super::relation::{RelationView, distinct};
use super::scope::{Env, NamesView, ScopeView, SourceView, dotted, index_of, source_of};
use super::select::{arranged, condensed, cut, finished, groups, has_star, has_window, is_window, join_keys, join_one, join_place, kept, keys_for, order_exprs, projected, query_names, query_outcome, read_from, settled, takes_top, top_arranged, top_directions, top_keys, top_places, unaliased};
use super::sort::{Direction, in_order, kin, kin_keys, key_after, keys_order, law_rows_are_in_order, law_sort_permutes, lemma_sorted_below, ordered, rows_at, sorted, upto};
use super::strings::text_upper;
use super::unit::Unit;
use super::window::window_column;

verus! {

// ---- conditions

proof fn lemma_kept(env: Env, o: Seq<ScopeView>, n: NamesView, rows: Seq<Seq<ValueView>>, e: ExprView)
    ensures
        kept(env, o, n, rows, e) == rows.filter(|r: Seq<ValueView>| predicate(env, o, n, r, e)),
    decreases rows.len(),
{
    reveal(Seq::filter);
    if rows.len() > 0 {
        lemma_kept(env, o, n, rows.drop_last(), e);
    }
    assert(kept(env, o, n, rows, e) =~= rows.filter(|r: Seq<ValueView>| predicate(env, o, n, r, e)));
}

/// WHERE keeps the rows that meet the condition, in their order, and no others.
pub proof fn law_where(env: Env, o: Seq<ScopeView>, q: SelectStmtView, read: RelationView, e: ExprView)
    requires
        !groups(q),
    ensures
        q.where_clause == Some(e) ==> condensed(env, o, q, read) == (RelationView {
            columns: read.columns,
            rows: read.rows.filter(|r: Seq<ValueView>| predicate(env, o, query_names(q, read.columns), r, e)),
        }),
        q.where_clause is None ==> condensed(env, o, q, read) == read,
{
    lemma_kept(env, o, query_names(q, read.columns), read.rows, e);
}

/// A query that groups groups the rows that meet WHERE, and then keeps the groups that meet HAVING.
pub proof fn law_having(env: Env, o: Seq<ScopeView>, q: SelectStmtView, read: RelationView, w: ExprView, h: ExprView)
    requires
        groups(q),
        q.where_clause == Some(w),
        q.having == Some(h),
    ensures
        ({
            let met = read.rows.filter(|r: Seq<ValueView>| predicate(env, o, query_names(q, read.columns), r, w));
            let g = grouped(env.m, RelationView { columns: read.columns, rows: met }, q.group_by, query_calls(q.columns, q.having));
            condensed(env, o, q, read) == (RelationView {
                columns: g.columns,
                rows: g.rows.filter(|r: Seq<ValueView>| predicate(env, o, query_names(q, g.columns), r, h)),
            })
        }),
{
    lemma_kept(env, o, query_names(q, read.columns), read.rows, w);
    let met = read.rows.filter(|r: Seq<ValueView>| predicate(env, o, query_names(q, read.columns), r, w));
    let g = grouped(env.m, RelationView { columns: read.columns, rows: met }, q.group_by, query_calls(q.columns, q.having));
    lemma_kept(env, o, query_names(q, g.columns), g.rows, h);
}

// ---- select lists

pub open spec fn plain_list(cols: Seq<SelectColumnView>) -> bool {
    !has_star(cols) && !has_window(cols)
}

/// A select list makes of each row, in order, a row of as many values as it has items; one that names
/// a column gives the value of that column, and any other expression its own value.
pub proof fn law_select_list(
    env: Env,
    o: Seq<ScopeView>,
    n: NamesView,
    rel: RelationView,
    cols: Seq<SelectColumnView>,
    i: int,
    j: int,
    c: int,
)
    requires
        plain_list(cols),
        0 <= i < rel.rows.len(),
        0 <= j < cols.len(),
        n.columns == rel.columns,
        rel.columns.no_duplicates(),
        0 <= c < rel.columns.len() == rel.rows[i].len(),
    ensures
        ({
            let p = projected(env, o, n, rel, cols);
            &&& p.rows.len() == rel.rows.len()
            &&& p.columns.len() == cols.len()
            &&& p.rows[i].len() == cols.len()
            &&& cols[j] matches SelectColumnView::Expr(e, alias) ==> {
                &&& e == ExprView::Column(rel.columns[c]) ==> p.rows[i][j] == rel.rows[i][c]
                &&& e is Literal || e is BinaryOp || e is UnaryOp || e is Case || e is Cast || e is IsNull || e is InList || e is Between
                    || e is Subquery || e is Exists || e is InSubquery ==> p.rows[i][j] == eval(env, o, n, rel.rows[i], e)
                &&& alias is Some ==> p.columns[j] == alias->0
                &&& alias is None && e is Column ==> p.columns[j] == e->Column_0
                &&& alias is None && e is QualifiedColumn ==> p.columns[j] == e->QualifiedColumn_1
            }
        }),
{
    lemma_index_of(rel.columns, c);
}

/// A column with its table is found under both names, or under its own where no table has it.
pub proof fn law_select_qualified(
    env: Env,
    o: Seq<ScopeView>,
    n: NamesView,
    rel: RelationView,
    t: Seq<char>,
    name: Seq<char>,
    alias: Option<Seq<char>>,
    i: int,
    c: int,
)
    requires
        0 <= i < rel.rows.len(),
        n.columns == rel.columns,
        n.tables.contains(t),
        n.aliases.len() == 0,
        rel.columns.no_duplicates(),
        0 <= c < rel.columns.len() == rel.rows[i].len(),
        rel.columns[c] == dotted(t, name),
    ensures
        projected(env, o, n, rel, seq![SelectColumnView::Expr(ExprView::QualifiedColumn(t, name), alias)]).rows[i][0] == rel.rows[i][c],
{
    let cols = seq![SelectColumnView::Expr(ExprView::QualifiedColumn(t, name), alias)];
    lemma_index_of(rel.columns, c);
    lemma_contains_index(n.tables, t);
    assert(!is_window(cols[0]));
    assert(!(cols[0] is Star));
}

proof fn lemma_contains_index(names: Seq<Seq<char>>, x: Seq<char>)
    requires
        names.contains(x),
    ensures
        index_of(names, x) is Some,
    decreases names.len(),
{
    let k = choose|k: int| 0 <= k < names.len() && names[k] == x;
    if k < names.len() - 1 {
        assert(names.drop_last()[k] == x);
        lemma_contains_index(names.drop_last(), x);
    }
}

/// `SELECT *` gives the rows and the columns as they are.
pub proof fn law_select_star(env: Env, o: Seq<ScopeView>, n: NamesView, rel: RelationView)
    ensures
        projected(env, o, n, rel, seq![SelectColumnView::Star]) == rel,
{
    assert(seq![SelectColumnView::Star][0] is Star);
}

/// The values of expressions in each of some rows.
pub open spec fn told(env: Env, o: Seq<ScopeView>, n: NamesView, rows: Seq<Seq<ValueView>>, es: Seq<ExprView>) -> Seq<Seq<ValueView>> {
    Seq::new(rows.len(), |x: int| Seq::new(es.len(), |y: int| eval(env, o, n, rows[x], es[y])))
}

pub open spec fn sort_keys(by: Seq<OrderByExprView>) -> Seq<ExprView> {
    by.map_values(|x: OrderByExprView| x.expr)
}

pub open spec fn sort_ways(by: Seq<OrderByExprView>) -> Seq<Direction> {
    by.map_values(|x: OrderByExprView| Direction { ascending: x.ascending, nulls_first: x.nulls_first })
}

/// The select list that is a single window function.
pub open spec fn window_list(
    name: Seq<char>,
    args: Seq<ExprView>,
    parts: Seq<ExprView>,
    by: Seq<OrderByExprView>,
    alias: Option<Seq<char>>,
) -> Seq<SelectColumnView> {
    seq![SelectColumnView::Expr(ExprView::WindowFunction { name, args, partition_by: parts, order_by: by }, alias)]
}

/// A window function in a select list is computed over the rows of the query: parted by what its
/// PARTITION BY says, ordered by its ORDER BY, and of the column that is its first argument.
pub proof fn law_select_window(
    env: Env,
    o: Seq<ScopeView>,
    n: NamesView,
    rel: RelationView,
    name: Seq<char>,
    c: int,
    k: i64,
    parts: Seq<ExprView>,
    by: Seq<OrderByExprView>,
    alias: Option<Seq<char>>,
    i: int,
)
    requires
        0 <= i < rel.rows.len(),
        n.columns == rel.columns,
        rel.columns.no_duplicates(),
        0 <= c < rel.columns.len(),
        forall|x: int| 0 <= x < rel.rows.len() ==> (#[trigger] rel.rows[x]).len() == rel.columns.len(),
        k >= 0,
    ensures
        ({
            let one = ExprView::Column(rel.columns[c]);
            let far = ExprView::Literal(LiteralValueView::Integer(k));
            let col = Seq::new(rel.rows.len(), |x: int| rel.rows[x][c]);
            let p = told(env, o, unaliased(n), rel.rows, parts);
            let s = told(env, o, unaliased(n), rel.rows, sort_keys(by));
            &&& projected(env, o, n, rel, window_list(name, seq![one], parts, by, alias)).rows[i] == seq![
                window_column(env.m, text_upper(name), p, s, sort_ways(by), Some(col), 1)[i],
            ]
            &&& projected(env, o, n, rel, window_list(name, seq![one, far], parts, by, alias)).rows[i] == seq![
                window_column(env.m, text_upper(name), p, s, sort_ways(by), Some(col), k as nat)[i],
            ]
        }),
{
    let one = ExprView::Column(rel.columns[c]);
    let far = ExprView::Literal(LiteralValueView::Integer(k));
    let a = seq![one];
    let b = seq![one, far];
    lemma_index_of(rel.columns, c);
    lemma_keys_for(env, o, unaliased(n), rel.rows, parts);
    lemma_keys_for(env, o, unaliased(n), rel.rows, order_exprs(by));
    assert(order_exprs(by) =~= sort_keys(by));
    assert(super::select::directions(by) =~= sort_ways(by));
    assert(super::select::column_values(rel.rows, c) =~= Seq::new(rel.rows.len(), |x: int| rel.rows[x][c]));
    let ca = window_list(name, a, parts, by, alias);
    let cb = window_list(name, b, parts, by, alias);
    assert(is_window(ca[0]) && is_window(cb[0]));
    assert(!has_star(ca) && !has_star(cb));
    assert(projected(env, o, n, rel, ca).rows[i] =~= seq![super::select::window_item(env, o, n, rel.rows, ca[0])[i]]);
    assert(projected(env, o, n, rel, cb).rows[i] =~= seq![super::select::window_item(env, o, n, rel.rows, cb[0])[i]]);
}

proof fn lemma_keys_for(env: Env, o: Seq<ScopeView>, n: NamesView, rows: Seq<Seq<ValueView>>, es: Seq<ExprView>)
    ensures
        keys_for(env, o, n, rows, es) == told(env, o, n, rows, es),
{
    assert forall|x: int| 0 <= x < rows.len() implies #[trigger] keys_for(env, o, n, rows, es)[x] == Seq::new(
        es.len(),
        |y: int| eval(env, o, n, rows[x], es[y]),
    ) by {
        lemma_eval_all(env, o, n, rows[x], es);
    }
    assert(keys_for(env, o, n, rows, es) =~= told(env, o, n, rows, es));
}

// ---- LIMIT, OFFSET and DISTINCT

/// LIMIT and OFFSET leave out the first rows and keep at most so many of the rest.
pub proof fn law_limit_and_offset(rows: Seq<Seq<ValueView>>, limit: Option<usize>, offset: Option<usize>, i: int)
    requires
        rows.len() <= usize::MAX,
    ensures
        ({
            let r = cut(rows, limit, offset);
            let skip = if offset is Some {
                offset->0 as int
            } else {
                0
            };
            let left = if skip <= rows.len() {
                rows.len() - skip
            } else {
                0
            };
            &&& r.len() == (if limit is Some && limit->0 < left {
                limit->0 as int
            } else {
                left
            })
            &&& 0 <= i < r.len() ==> r[i] == rows[skip + i]
        }),
{
}

/// A query with OFFSET gives what it gives without LIMIT and OFFSET, less the rows that these leave
/// out. So it is for a query that does not ask for the first of its rows in some order, without
/// window functions and without DISTINCT.
pub proof fn law_query_is_cut(env: Env, o: Seq<ScopeView>, q: SelectStmtView, read: RelationView)
    requires
        !takes_top(q),
        !has_window(q.columns),
        !q.distinct,
    ensures
        ({
            let all = SelectStmtView { limit: None, offset: None, ..q };
            &&& finished(env, o, q, read).rows == cut(finished(env, o, all, read).rows, q.limit, q.offset)
            &&& finished(env, o, q, read).columns == finished(env, o, all, read).columns
        }),
{
    let all = SelectStmtView { limit: None, offset: None, ..q };
    assert(condensed(env, o, q, read) == condensed(env, o, all, read));
    let c = condensed(env, o, q, read);
    let n = query_names(q, c.columns);
    assert(n == query_names(all, c.columns));
    let rows = arranged(env, o, n, c.rows, q.order_by);
    assert(cut(rows, None, None) == rows);
    let p = projected(env, o, n, RelationView { columns: c.columns, rows }, q.columns);
    let r = projected(env, o, n, RelationView { columns: c.columns, rows: cut(rows, q.limit, q.offset) }, q.columns);
    assert(r.rows =~= cut(p.rows, q.limit, q.offset));
}

/// `SELECT DISTINCT` gives the rows that the query gives without it, each once, where it first stands.
pub proof fn law_select_distinct(env: Env, o: Seq<ScopeView>, q: SelectStmtView, read: RelationView)
    requires
        q.distinct,
    ensures
        ({
            let all = SelectStmtView { distinct: false, ..q };
            let r = finished(env, o, q, read);
            let a = finished(env, o, all, read);
            &&& r.columns == a.columns
            &&& r.rows.no_duplicates()
            &&& forall|row: Seq<ValueView>| #[trigger] r.rows.contains(row) <==> a.rows.contains(row)
        }),
{
    let all = SelectStmtView { distinct: false, ..q };
    assert(condensed(env, o, q, read) == condensed(env, o, all, read));
    let c = condensed(env, o, q, read);
    assert(query_names(q, c.columns) == query_names(all, c.columns));
    super::relation::law_distinct(finished(env, o, all, read).rows);
}

// ---- ORDER BY

/// Whether rows are other rows in some order, each as often as it stands there.
pub open spec fn rearranged(from: Seq<Seq<ValueView>>, to: Seq<Seq<ValueView>>) -> bool {
    exists|at: Seq<usize>| #[trigger] rows_at(from, at) == to && at.len() == from.len() && at.no_duplicates() && forall|k: int|
        0 <= k < at.len() ==> (#[trigger] at[k]) < from.len()
}

/// ORDER BY loses no row and adds none.
pub proof fn law_order_by_permutes(env: Env, o: Seq<ScopeView>, n: NamesView, rows: Seq<Seq<ValueView>>, by: Seq<OrderByExprView>)
    requires
        rows.len() <= usize::MAX,
    ensures
        rearranged(rows, arranged(env, o, n, rows, by)),
        rearranged(rows, top_arranged(env.m, n.columns, rows, by)),
{
    let keys = keys_for(env, o, n, rows, order_exprs(by));
    lemma_ordered(env.m, rows, keys, settled(by, n.columns, keys));
    let p = top_places(by, n.columns);
    lemma_ordered(env.m, rows, top_keys(rows, p), top_directions(p));
    assert(rows_at(rows, upto(rows.len())) =~= rows);
    assert(rearranged(rows, rows));
}

proof fn lemma_ordered(m: Unit, rows: Seq<Seq<ValueView>>, keys: Seq<Seq<ValueView>>, d: Seq<Direction>)
    requires
        rows.len() <= usize::MAX,
    ensures
        ({
            let at = sorted(upto(rows.len()), key_after(m, keys, d));
            &&& at.len() == rows.len()
            &&& at.no_duplicates()
            &&& forall|k: int| 0 <= k < at.len() ==> (#[trigger] at[k]) < rows.len()
        }),
        rearranged(rows, ordered(m, rows, keys, d)),
{
    let all = upto(rows.len());
    let after = key_after(m, keys, d);
    let at = sorted(all, after);
    law_sort_permutes(all, after);
    assert(all.no_duplicates());
    all.lemma_multiset_has_no_duplicates();
    at.lemma_multiset_has_no_duplicates_conv();
    lemma_sorted_below(all, after, rows.len());
    assert(ordered(m, rows, keys, d) == rows_at(rows, at));
}

proof fn lemma_pair_in_order(m: Unit, rows: Seq<Seq<ValueView>>, keys: Seq<Seq<ValueView>>, d: Seq<Direction>, a: int, b: int) -> (r: (int, int))
    requires
        rows.len() <= usize::MAX,
        keys.len() == rows.len(),
        forall|i: int, j: int| 0 <= i < keys.len() && 0 <= j < keys.len() ==> kin_keys(#[trigger] keys[i], #[trigger] keys[j]),
        0 <= a < b < rows.len(),
    ensures
        0 <= r.0 < rows.len(),
        0 <= r.1 < rows.len(),
        r.0 != r.1,
        ordered(m, rows, keys, d).len() == rows.len(),
        ordered(m, rows, keys, d)[a] == rows[r.0],
        ordered(m, rows, keys, d)[b] == rows[r.1],
        keys_order(m, keys[r.0], keys[r.1], d, 0) != Order::Greater,
{
    let at = sorted(upto(rows.len()), key_after(m, keys, d));
    lemma_ordered(m, rows, keys, d);
    law_rows_are_in_order(m, keys, d);
    assert(in_order(at, key_after(m, keys, d)));
    assert(at[a] < rows.len() && at[b] < rows.len() && at[a] != at[b]);
    assert(!key_after(m, keys, d)(at[a], at[b]));
    (at[a] as int, at[b] as int)
}

/// Whether two values of one column stand as a sort asks: the lesser first, or the greater first
/// where it descends, and nulls at the end that is theirs.
pub open spec fn stands_before(x: ValueView, y: ValueView, ascending: bool, nulls_first: bool) -> bool {
    match (x, y) {
        (ValueView::Null, ValueView::Null) => true,
        (ValueView::Null, _) => nulls_first,
        (_, ValueView::Null) => !nulls_first,
        (ValueView::Int64(a), ValueView::Int64(b)) => if ascending {
            a <= b
        } else {
            a >= b
        },
        (ValueView::Date(a), ValueView::Date(b)) => if ascending {
            a <= b
        } else {
            a >= b
        },
        (ValueView::Timestamp(a), ValueView::Timestamp(b)) => if ascending {
            a <= b
        } else {
            a >= b
        },
        (ValueView::Text(a), ValueView::Text(b)) => if ascending {
            a == b || super::expr_laws::text_before(a, b)
        } else {
            a == b || super::expr_laws::text_before(b, a)
        },
        _ => true,
    }
}

proof fn lemma_stands(m: Unit, x: ValueView, y: ValueView, d: Direction)
    requires
        kin(x, y),
        super::sort::sort_order(m, x, y, d) != Order::Greater,
    ensures
        stands_before(x, y, d.ascending, match d.nulls_first {
            Some(f) => f,
            None => !d.ascending,
        }),
{
    if x is Text && y is Text {
        super::expr_laws::lemma_text_compare(m, x->Text_0, y->Text_0);
    }
}

/// Whether the values at one place of all rows are nulls and values of one type that has an order.
pub open spec fn one_type_at(rows: Seq<Seq<ValueView>>, c: int) -> bool {
    forall|i: int, j: int| 0 <= i < rows.len() && 0 <= j < rows.len() ==> kin(#[trigger] rows[i][c], #[trigger] rows[j][c])
}

pub open spec fn all_wide(rows: Seq<Seq<ValueView>>, n: nat) -> bool {
    forall|i: int| 0 <= i < rows.len() ==> (#[trigger] rows[i]).len() == n
}

/// ORDER BY of one column puts its values in order: the lesser first, or with DESC the greater.
/// Where NULLS FIRST or NULLS LAST is said, nulls stand there. Where nothing is said of them, they
/// stand in front of integers that ascend and behind integers that descend, and the other way round
/// for values of any other type.
pub proof fn law_order_by_column(
    env: Env,
    o: Seq<ScopeView>,
    n: NamesView,
    rows: Seq<Seq<ValueView>>,
    ascending: bool,
    nulls_first: Option<bool>,
    c: int,
    a: int,
    b: int,
)
    requires
        rows.len() <= usize::MAX,
        n.columns.no_duplicates(),
        0 <= c < n.columns.len(),
        all_wide(rows, n.columns.len()),
        one_type_at(rows, c),
        0 <= a < b < rows.len(),
    ensures
        ({
            let by = seq![OrderByExprView { expr: ExprView::Column(n.columns[c]), ascending, nulls_first }];
            let r = arranged(env, o, n, rows, by);
            let integers = forall|i: int| 0 <= i < rows.len() ==> #[trigger] rows[i][c] is Int64 || rows[i][c] is Null;
            &&& r.len() == rows.len()
            &&& stands_before(
                r[a][c],
                r[b][c],
                ascending,
                if nulls_first is Some {
                    nulls_first->0
                } else if integers {
                    ascending
                } else {
                    !ascending
                },
            )
        }),
{
    let by = seq![OrderByExprView { expr: ExprView::Column(n.columns[c]), ascending, nulls_first }];
    let es = order_exprs(by);
    let keys = keys_for(env, o, n, rows, es);
    lemma_index_of(n.columns, c);
    assert forall|i: int| 0 <= i < rows.len() implies #[trigger] keys[i] == seq![rows[i][c]] by {
        lemma_eval_all(env, o, n, rows[i], es);
        assert(rows[i].len() == n.columns.len());
        assert(es[0] == ExprView::Column(n.columns[c]));
        assert(keys[i] =~= seq![rows[i][c]]);
    }
    assert forall|i: int, j: int| 0 <= i < keys.len() && 0 <= j < keys.len() implies kin_keys(#[trigger] keys[i], #[trigger] keys[j]) by {
        assert(keys[i] == seq![rows[i][c]] && keys[j] == seq![rows[j][c]]);
        assert(kin(rows[i][c], rows[j][c]));
    }
    let d = settled(by, n.columns, keys);
    let (x, y) = lemma_pair_in_order(env.m, rows, keys, d, a, b);
    reveal_with_fuel(keys_order, 2);
    assert(keys[x] == seq![rows[x][c]] && keys[y] == seq![rows[y][c]]);
    assert(kin(rows[x][c], rows[y][c]));
    lemma_stands(env.m, rows[x][c], rows[y][c], d[0]);
    let integers = forall|i: int| 0 <= i < rows.len() ==> #[trigger] rows[i][c] is Int64 || rows[i][c] is Null;
    assert(integers == super::select::all_int(keys)) by {
        if integers {
            assert forall|i: int| 0 <= i < keys.len() implies (#[trigger] keys[i]).len() > 0 && (keys[i][0] is Int64 || keys[i][0] is Null) by {
                assert(keys[i] == seq![rows[i][c]]);
                assert(rows[i][c] is Int64 || rows[i][c] is Null);
            }
        }
        if super::select::all_int(keys) {
            assert forall|i: int| 0 <= i < rows.len() implies #[trigger] rows[i][c] is Int64 || rows[i][c] is Null by {
                assert(keys[i] == seq![rows[i][c]]);
            }
        }
    }
}

/// ORDER BY of two integers goes by the first, and where that is the same by the second.
pub proof fn law_order_by_two(
    env: Env,
    o: Seq<ScopeView>,
    n: NamesView,
    rows: Seq<Seq<ValueView>>,
    up: bool,
    down: bool,
    c: int,
    e: int,
    a: int,
    b: int,
)
    requires
        rows.len() <= usize::MAX,
        n.columns.no_duplicates(),
        0 <= c < n.columns.len(),
        0 <= e < n.columns.len(),
        all_wide(rows, n.columns.len()),
        forall|i: int| 0 <= i < rows.len() ==> #[trigger] rows[i][c] is Int64,
        forall|i: int| 0 <= i < rows.len() ==> #[trigger] rows[i][e] is Int64,
        0 <= a < b < rows.len(),
    ensures
        ({
            let by = seq![
                OrderByExprView { expr: ExprView::Column(n.columns[c]), ascending: up, nulls_first: None },
                OrderByExprView { expr: ExprView::Column(n.columns[e]), ascending: down, nulls_first: None },
            ];
            let r = arranged(env, o, n, rows, by);
            &&& r.len() == rows.len()
            &&& stands_before(r[a][c], r[b][c], up, !up)
            &&& r[a][c] == r[b][c] ==> stands_before(r[a][e], r[b][e], down, !down)
        }),
{
    let by = seq![
        OrderByExprView { expr: ExprView::Column(n.columns[c]), ascending: up, nulls_first: None },
        OrderByExprView { expr: ExprView::Column(n.columns[e]), ascending: down, nulls_first: None },
    ];
    let es = order_exprs(by);
    let keys = keys_for(env, o, n, rows, es);
    lemma_index_of(n.columns, c);
    lemma_index_of(n.columns, e);
    assert forall|i: int| 0 <= i < rows.len() implies #[trigger] keys[i] == seq![rows[i][c], rows[i][e]] by {
        lemma_eval_all(env, o, n, rows[i], es);
        assert(rows[i].len() == n.columns.len());
        assert(es[0] == ExprView::Column(n.columns[c]));
        assert(es[1] == ExprView::Column(n.columns[e]));
        assert(keys[i] =~= seq![rows[i][c], rows[i][e]]);
    }
    assert forall|i: int, j: int| 0 <= i < keys.len() && 0 <= j < keys.len() implies kin_keys(#[trigger] keys[i], #[trigger] keys[j]) by {
        assert(keys[i] == seq![rows[i][c], rows[i][e]] && keys[j] == seq![rows[j][c], rows[j][e]]);
        assert(rows[i][c] is Int64 && rows[j][c] is Int64 && rows[i][e] is Int64 && rows[j][e] is Int64);
    }
    let d = settled(by, n.columns, keys);
    let (x, y) = lemma_pair_in_order(env.m, rows, keys, d, a, b);
    reveal_with_fuel(keys_order, 3);
    assert(keys[x] == seq![rows[x][c], rows[x][e]] && keys[y] == seq![rows[y][c], rows[y][e]]);
    assert(rows[x][c] is Int64 && rows[y][c] is Int64 && rows[x][e] is Int64 && rows[y][e] is Int64);
}

/// The first rows by a column are those that come first in its order; a null counts as less than any
/// other value.
pub proof fn law_first_by_column(
    m: Unit,
    columns: Seq<Seq<char>>,
    rows: Seq<Seq<ValueView>>,
    ascending: bool,
    nulls_first: Option<bool>,
    c: int,
    a: int,
    b: int,
)
    requires
        rows.len() <= usize::MAX,
        columns.no_duplicates(),
        0 <= c < columns.len(),
        all_wide(rows, columns.len()),
        one_type_at(rows, c),
        0 <= a < b < rows.len(),
    ensures
        ({
            let by = seq![OrderByExprView { expr: ExprView::Column(columns[c]), ascending, nulls_first }];
            let r = top_arranged(m, columns, rows, by);
            r.len() == rows.len() && stands_before(r[a][c], r[b][c], ascending, ascending)
        }),
{
    let by = seq![OrderByExprView { expr: ExprView::Column(columns[c]), ascending, nulls_first }];
    lemma_index_of(columns, c);
    assert(by.drop_last() =~= Seq::empty());
    reveal_with_fuel(top_places, 2);
    let p = top_places(by, columns);
    assert(p =~= seq![(c, ascending)]);
    let keys = top_keys(rows, p);
    assert forall|i: int| 0 <= i < rows.len() implies #[trigger] keys[i] == seq![rows[i][c]] by {
        assert(rows[i].len() == columns.len());
        assert(keys[i] =~= seq![rows[i][c]]);
    }
    assert forall|i: int, j: int| 0 <= i < keys.len() && 0 <= j < keys.len() implies kin_keys(#[trigger] keys[i], #[trigger] keys[j]) by {
        assert(keys[i] == seq![rows[i][c]] && keys[j] == seq![rows[j][c]]);
        assert(kin(rows[i][c], rows[j][c]));
    }
    let d = top_directions(p);
    let (x, y) = lemma_pair_in_order(m, rows, keys, d, a, b);
    reveal_with_fuel(keys_order, 2);
    assert(keys[x] == seq![rows[x][c]] && keys[y] == seq![rows[y][c]]);
    assert(kin(rows[x][c], rows[y][c]));
    lemma_stands(m, rows[x][c], rows[y][c], d[0]);
}

/// A query that asks for the first of its rows in some order takes them from the front of that
/// order.
pub proof fn law_takes_first(env: Env, o: Seq<ScopeView>, q: SelectStmtView, read: RelationView, k: usize)
    requires
        q.order_by.len() > 0,
        q.limit == Some(k),
        q.offset is None,
        q.columns == seq![SelectColumnView::Star],
        !q.distinct,
        !groups(q),
        q.where_clause is None,
    ensures
        ({
            let all = top_arranged(env.m, read.columns, read.rows, q.order_by);
            &&& finished(env, o, q, read).rows == all.take(if k <= all.len() {
                k as int
            } else {
                all.len() as int
            })
            &&& finished(env, o, q, read).columns == read.columns
        }),
{
    assert(q.columns[0] is Star);
    let all = top_arranged(env.m, read.columns, read.rows, q.order_by);
    assert(all.skip(0) =~= all);
    if k <= all.len() {
        assert(all.subrange(0, k as int) =~= all.take(k as int));
    } else {
        assert(all.take(all.len() as int) =~= all);
    }
}

// ---- FROM and JOIN

/// A query reads the table that FROM names, and fails where there is none of that name.
pub proof fn law_from_table(db: Seq<SourceView>, q: SelectStmtView, counts: Seq<(Seq<char>, u64)>, t: Seq<char>)
    requires
        q.from == FromClauseView::Table(t),
        q.joins.len() == 0,
    ensures
        match source_of(db, t) {
            Some(rel) => read_from(db, q, counts) == Ok::<RelationView, crate::error::ErrorView>(rel),
            None => read_from(db, q, counts) is Err,
        },
{
    let names = seq![t] + super::select::join_tables(q.joins);
    assert(names =~= seq![t]);
    lemma_only_first(seq![t], q.joins, counts);
    let order = super::select::read_order(t, q.joins, counts);
    assert(super::select::rehung(q.joins, order) =~= Seq::empty());
}

proof fn lemma_only_first(names: Seq<Seq<char>>, joins: Seq<crate::parser::ast::JoinClauseView>, counts: Seq<(Seq<char>, u64)>)
    requires
        names.len() == 1,
    ensures
        super::select::read_first(names, joins, counts) == 0,
{
    let t = super::select::some_names(names);
    reveal_with_fuel(crate::planner::optimizer::chain_counts, 2);
    assert(t.drop_last().len() == 0);
}

/// Without FROM a query has a single row without columns to work on.
pub proof fn law_no_from(db: Seq<SourceView>, q: SelectStmtView, counts: Seq<(Seq<char>, u64)>)
    requires
        q.from is Absent,
        !has_star(q.columns),
    ensures
        read_from(db, q, counts) == Ok::<RelationView, crate::error::ErrorView>(
            RelationView { columns: Seq::empty(), rows: seq![Seq::empty()] },
        ),
{
}

/// Where a table is known by two names, a query reads the one that came last.
pub proof fn law_last_source(db: Seq<SourceView>, name: Seq<char>, other: Seq<char>, rel: RelationView)
    ensures
        source_of(db.push(SourceView { name, rel }), name) == Some(rel),
        other != name ==> source_of(db.push(SourceView { name, rel }), other) == source_of(db, other),
{
    assert(db.push(SourceView { name, rel }).drop_last() =~= db);
}

/// A query over a table of its WITH clause reads what the query of that clause gives, and fails where
/// that fails.
pub proof fn law_with(env: Env, o: Seq<ScopeView>, q: SelectStmtView, name: Seq<char>, inner: SelectStmtView)
    requires
        q.ctes == seq![CteView { name, query: inner }],
        q.from == FromClauseView::Table(name),
        q.joins.len() == 0,
    ensures
        match (env.sub)(inner, env.db, o) {
            Err(e) => query_outcome(env, o, q) == Err::<RelationView, crate::error::ErrorView>(e),
            Ok(rel) => query_outcome(env, o, q) == Ok::<RelationView, crate::error::ErrorView>(
                finished(Env { db: env.db.push(SourceView { name, rel }), ..env }, o, q, rel),
            ),
        },
{
    assert(q.ctes.drop_last() =~= Seq::empty());
    reveal_with_fuel(super::select::with_ctes, 2);
    if let Ok(rel) = (env.sub)(inner, env.db, o) {
        law_last_source(env.db, name, name, rel);
        law_from_table(env.db.push(SourceView { name, rel }), q, env.known.counts, name);
    }
}

/// `SELECT * FROM (query)` gives what the query gives.
pub proof fn law_from_query(env: Env, o: Seq<ScopeView>, q: SelectStmtView, inner: SelectStmtView)
    requires
        q.ctes.len() == 0,
        q.from == FromClauseView::Subquery(Box::new(inner)),
        q.joins.len() == 0,
        q.columns == seq![SelectColumnView::Star],
        q.where_clause is None,
        q.group_by.len() == 0,
        q.order_by.len() == 0,
        q.limit is None,
        q.offset is None,
        !q.distinct,
    ensures
        query_outcome(env, o, q) == (env.sub)(inner, env.db, o),
{
    assert(q.columns[0] is Star);
    assert(!super::grouping::column_has_aggregate(q.columns[0]));
    assert(!groups(q));
    let t = super::select::base_table(q)->0;
    if let Ok(rel) = (env.sub)(inner, env.db, o) {
        let db = env.db.push(SourceView { name: t, rel });
        law_last_source(env.db, t, t, rel);
        let names = seq![t] + super::select::join_tables(q.joins);
        assert(names =~= seq![t]);
        lemma_only_first(names, q.joins, env.known.counts);
        let order = super::select::read_order(t, q.joins, env.known.counts);
        assert(super::select::rehung(q.joins, order) =~= Seq::empty());
        assert(read_from(db, q, env.known.counts) == Ok::<RelationView, crate::error::ErrorView>(rel));
        law_where(Env { db, ..env }, o, q, rel, ExprView::Default);
    }
}

/// `SELECT * FROM t WHERE e` gives the rows of the table that meet the condition.
pub proof fn law_simple_query(env: Env, o: Seq<ScopeView>, q: SelectStmtView, t: Seq<char>, rel: RelationView, e: ExprView)
    requires
        q.ctes.len() == 0,
        q.from == FromClauseView::Table(t),
        source_of(env.db, t) == Some(rel),
        q.joins.len() == 0,
        q.columns == seq![SelectColumnView::Star],
        q.where_clause == Some(e),
        q.group_by.len() == 0,
        q.order_by.len() == 0,
        q.limit is None,
        q.offset is None,
        !q.distinct,
    ensures
        query_outcome(env, o, q) == Ok::<RelationView, crate::error::ErrorView>(
            RelationView {
                columns: rel.columns,
                rows: rel.rows.filter(|r: Seq<ValueView>| predicate(env, o, query_names(q, rel.columns), r, e)),
            },
        ),
{
    assert(q.columns[0] is Star);
    assert(!super::grouping::column_has_aggregate(q.columns[0]));
    assert(!groups(q));
    law_from_table(env.db, q, env.known.counts, t);
    law_where(env, o, q, rel, e);
}

/// A JOIN of two tables holds the rows of the one joined to those of the other, its columns named
/// with their tables. So it is where the tables are read in the order in which they are written: an
/// outer join, or no known row counts.
pub proof fn law_from_join(
    db: Seq<SourceView>,
    q: SelectStmtView,
    counts: Seq<(Seq<char>, u64)>,
    t: Seq<char>,
    l: RelationView,
    r: RelationView,
    li: int,
    ri: int,
)
    requires
        q.from == FromClauseView::Table(t),
        q.joins.len() == 1,
        counts.len() == 0 || !(q.joins[0].join_type is Inner),
        source_of(db, t) == Some(l),
        source_of(db, q.joins[0].table) == Some(r),
        join_keys(q.joins[0].condition, l.columns, r.columns) == Some((li, ri)),
    ensures
        read_from(db, q, counts) == Ok::<RelationView, crate::error::ErrorView>(
            RelationView {
                columns: Seq::new(l.columns.len(), |i: int| dotted(t, l.columns[i])) + Seq::new(
                    r.columns.len(),
                    |i: int| dotted(q.joins[0].table, r.columns[i]),
                ),
                rows: joined_rows(l.rows, r.rows, li as nat, ri as nat, l.columns.len(), r.columns.len(), q.joins[0].join_type),
            },
        ),
{
    let j = q.joins[0];
    let names = seq![t] + super::select::join_tables(q.joins);
    assert(names =~= seq![t, j.table]);
    assert(super::select::read_first(names, q.joins, counts) == 0) by {
        let some = super::select::some_names(names);
        reveal_with_fuel(crate::planner::optimizer::chain_counts, 3);
        if counts.len() == 0 {
            assert(crate::planner::optimizer::count_of(counts, j.table) is None);
        }
    }
    let order = super::select::read_order(t, q.joins, counts);
    assert(order =~= seq![t, j.table]);
    let joins = super::select::rehung(q.joins, order);
    assert(joins =~= q.joins);
    assert(joins.drop_last() =~= Seq::empty());
    reveal_with_fuel(super::select::join_all, 2);
    assert(join_one(db, l, Some(t), j) is Ok);
}

pub open spec fn has_no_dot(s: Seq<char>) -> bool {
    forall|i: int| 0 <= i < s.len() ==> #[trigger] s[i] != '.'
}

proof fn lemma_join_place(columns: Seq<Seq<char>>, name: Seq<char>)
    requires
        has_no_dot(name),
    ensures
        join_place(columns, name) == index_of(columns, name),
    decreases columns.len(),
{
    reveal_strlit(".");
    if columns.len() > 0 {
        lemma_join_place(columns.drop_last(), name);
        let e = "."@ + columns.last();
        if super::scalar::ends(name, e) {
            let k = name.len() - e.len();
            assert(name.subrange(k, k + e.len())[0] == e[0]);
            assert(name[k] == '.');
        }
    }
}

/// A join condition is an equality of a column of each side, in either order, with their tables or
/// without.
pub proof fn law_join_condition(left: Seq<Seq<char>>, right: Seq<Seq<char>>, t: Seq<char>, u: Seq<char>, i: int, j: int)
    requires
        left.no_duplicates(),
        right.no_duplicates(),
        0 <= i < left.len(),
        0 <= j < right.len(),
        has_no_dot(left[i]),
        has_no_dot(right[j]),
        left[i] == right[j] || (!left.contains(right[j]) && !right.contains(left[i])),
    ensures
        ({
            let x = ExprView::Column(left[i]);
            let y = ExprView::Column(right[j]);
            let tx = ExprView::QualifiedColumn(t, left[i]);
            let uy = ExprView::QualifiedColumn(u, right[j]);
            &&& join_keys(op_of(x, BinOp::Eq, y), left, right) == Some((i, j))
            &&& join_keys(op_of(y, BinOp::Eq, x), left, right) == Some((i, j))
            &&& join_keys(op_of(tx, BinOp::Eq, uy), left, right) == Some((i, j))
            &&& join_keys(op_of(uy, BinOp::Eq, tx), left, right) == Some((i, j))
        }),
{
    lemma_join_place(left, left[i]);
    lemma_join_place(right, right[j]);
    lemma_join_place(left, right[j]);
    lemma_join_place(right, left[i]);
    lemma_index_of(left, i);
    lemma_index_of(right, j);
    if left[i] != right[j] {
        assert forall|k: int| 0 <= k < left.len() implies #[trigger] left[k] != right[j] by {
            assert(left.contains(left[k]));
        }
        super::expr_laws::lemma_index_absent(left, right[j]);
        assert forall|k: int| 0 <= k < right.len() implies #[trigger] right[k] != left[i] by {
            assert(right.contains(right[k]));
        }
        super::expr_laws::lemma_index_absent(right, left[i]);
    }
}

} // verus!
