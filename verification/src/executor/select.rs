use vstd::prelude::*;
use vstd::string::*;
use crate::error::{ErrorView, QueryError, run_error, table_missing};
use crate::parser::ast::{BinOp, CteView, Expr, ExprView, FromClause, FromClauseView, JoinClause, JoinClauseView, JoinType, LiteralValue, LiteralValueView, OrderByExpr, OrderByExprView, SelectColumn, SelectColumnView, SelectStmt, SelectStmtView};
use crate::parser::ast::{ctes_at, ctes_len, exprs_at, exprs_len, join_clauses_at, join_clauses_len, order_by_exprs_at, order_by_exprs_len, select_columns_at, select_columns_len};
use crate::parser::ast::{ctes_view, exprs_view, join_clauses_view, order_by_exprs_view, select_columns_view};
use crate::text::{join2, join3, text_is};
use crate::value::{Value, ValueView, dup_names, names_push, names_view, rows_push, rows_view, values_push, values_view};
use super::eval::{Reader, call_name, eval, eval_all, eval_predicate, eval_value, outcome_view, predicate, show_call};
use super::grouping::{collect_query_calls, group_rows, grouped, has_aggregate_functions, list_has_aggregate, opt_expr, query_calls};
use super::join::{join_rows, joined_rows};
use super::relation::{Relation, RelationView, distinct, distinct_rows, limit_rows, limited};
use super::scalar::ends;
use crate::planner::optimizer::{TableRows, chain_counts, counts_view, find_count, find_smallest, led_by, smallest};
use super::scope::{Env, Known, Names, NamesView, Outcome, Scope, ScopeView, Source, SourceView, dotted, dup_sources, find_index, find_source, get_value, has_table, index_of, names_table, outer_scope, push_source, real_table, resolve_table, scopes_view, source_of, sources_view, value_at};
use super::sort::{Direction, ordered, sort_rows};
use super::strings::{ends_with_text, text_lower, text_upper};
use super::unit::{Ask, Reply, Unit, is_unit, model};
use super::window::{compute_window_function, opt_values, window_column};

verus! {

// ---- tables and joins

/// The place of the first of the columns that `name` names, with its table or without.
pub open spec fn join_place(columns: Seq<Seq<char>>, name: Seq<char>) -> Option<int>
    decreases columns.len(),
{
    if columns.len() == 0 {
        None
    } else {
        match join_place(columns.drop_last(), name) {
            Some(i) => Some(i),
            None => if columns.last() == name || ends(name, "."@ + columns.last()) {
                Some(columns.len() - 1)
            } else {
                None
            },
        }
    }
}

/// The column that an expression names, without its table.
pub open spec fn column_name(e: ExprView) -> Option<Seq<char>> {
    match e {
        ExprView::Column(c) => Some(c),
        ExprView::QualifiedColumn(_, c) => Some(c),
        _ => None,
    }
}

/// The places of the columns that a join condition compares, in either order of its sides; nothing
/// where it is no equality of two columns that the sides have.
pub open spec fn join_keys(e: ExprView, left: Seq<Seq<char>>, right: Seq<Seq<char>>) -> Option<(int, int)> {
    match e {
        ExprView::BinaryOp { left: a, op: BinOp::Eq, right: b } => match (column_name(*a), column_name(*b)) {
            (Some(x), Some(y)) => match (join_place(left, x), join_place(right, y)) {
                (Some(i), Some(j)) => Some((i, j)),
                _ => match (join_place(left, y), join_place(right, x)) {
                    (Some(i), Some(j)) => Some((i, j)),
                    _ => None,
                },
            },
            _ => None,
        },
        _ => None,
    }
}

/// Column names with the table in front.
pub open spec fn prefixed(t: Option<Seq<char>>, columns: Seq<Seq<char>>) -> Seq<Seq<char>> {
    match t {
        Some(t) => Seq::new(columns.len(), |i: int| dotted(t, columns[i])),
        None => columns,
    }
}

/// What is said of a join condition that tells no two columns.
pub open spec fn join_message(e: ExprView) -> Seq<char> {
    match e {
        ExprView::BinaryOp { left: _, op: BinOp::Eq, right: _ } => "Cannot determine join keys from condition"@,
        _ => "JOIN condition must be an equality"@,
    }
}

/// One JOIN: `t` names the left side where that is a single table.
pub open spec fn join_one(db: Seq<SourceView>, l: RelationView, t: Option<Seq<char>>, j: JoinClauseView) -> Outcome {
    match source_of(db, j.table) {
        None => Err(run_error(table_missing(j.table))),
        Some(r) => match join_keys(j.condition, l.columns, r.columns) {
            None => Err(run_error(join_message(j.condition))),
            Some((li, ri)) => Ok(
                RelationView {
                    columns: prefixed(t, l.columns) + prefixed(Some(j.table), r.columns),
                    rows: joined_rows(
                        l.rows,
                        r.rows,
                        li as nat,
                        ri as nat,
                        l.columns.len(),
                        r.columns.len(),
                        j.join_type,
                    ),
                },
            ),
        },
    }
}

/// The joins of a query, one after the other.
pub open spec fn join_all(db: Seq<SourceView>, first: RelationView, t: Seq<char>, joins: Seq<JoinClauseView>) -> Outcome
    decreases joins.len(),
{
    if joins.len() == 0 {
        Ok(first)
    } else {
        match join_all(db, first, t, joins.drop_last()) {
            Err(e) => Err(e),
            Ok(l) => join_one(
                db,
                l,
                if joins.len() == 1 {
                    Some(t)
                } else {
                    None
                },
                joins.last(),
            ),
        }
    }
}

/// The table that a query reads first; a nested query that has no name of its own gets one.
pub open spec fn base_table(q: SelectStmtView) -> Option<Seq<char>> {
    match q.from {
        FromClauseView::Table(t) => Some(t),
        FromClauseView::Subquery(_) => Some(match q.from_alias {
            Some(a) => a,
            None => "__subquery__"@,
        }),
        FromClauseView::Absent => None,
    }
}

pub open spec fn has_star(cols: Seq<SelectColumnView>) -> bool {
    exists|i: int| 0 <= i < cols.len() && #[trigger] cols[i] is Star
}

/// What a query reads: its tables, joined, the smallest first where that is known; without a table a single row without columns, of which
/// nothing can be asked by `*`.
pub open spec fn read_from(db: Seq<SourceView>, q: SelectStmtView, counts: Seq<(Seq<char>, u64)>) -> Outcome {
    match base_table(q) {
        None => if has_star(q.columns) {
            Err(ErrorView::Plan("SELECT without FROM is handled by the executor"@))
        } else {
            Ok(RelationView { columns: Seq::empty(), rows: seq![Seq::empty()] })
        },
        Some(t) => {
            let order = read_order(t, q.joins, counts);
            match source_of(db, order[0]) {
                None => Err(run_error(table_missing(order[0]))),
                Some(rel) => join_all(db, rel, order[0], rehung(q.joins, order)),
            }
        },
    }
}

pub open spec fn some_names(names: Seq<Seq<char>>) -> Seq<Option<Seq<char>>> {
    Seq::new(names.len(), |i: int| Some(names[i]))
}

pub open spec fn inner_joins(joins: Seq<JoinClauseView>) -> bool {
    forall|i: int| 0 <= i < joins.len() ==> (#[trigger] joins[i]).join_type == JoinType::Inner
}

/// Which of its tables a query reads first: the smallest, where all joins are inner ones and all row
/// counts are known, and otherwise the one that is written first.
pub open spec fn read_first(names: Seq<Seq<char>>, joins: Seq<JoinClauseView>, counts: Seq<(Seq<char>, u64)>) -> int {
    match chain_counts(some_names(names), counts) {
        Some(c) => if inner_joins(joins) {
            smallest(c)
        } else {
            0
        },
        None => 0,
    }
}

/// The tables of a query in the order in which it reads them.
pub open spec fn read_order(t: Seq<char>, joins: Seq<JoinClauseView>, counts: Seq<(Seq<char>, u64)>) -> Seq<Seq<char>> {
    let names = seq![t] + join_tables(joins);
    led_by(names, read_first(names, joins, counts))
}

/// The joins of a query with the tables that are read at their places; the conditions stay.
pub open spec fn rehung(joins: Seq<JoinClauseView>, order: Seq<Seq<char>>) -> Seq<JoinClauseView> {
    Seq::new(joins.len(), |i: int| JoinClauseView { table: order[i + 1], ..joins[i] })
}

/// The tables of a query and the other names that it gives them, over the columns `columns`.
pub open spec fn query_names(q: SelectStmtView, columns: Seq<Seq<char>>) -> NamesView {
    let base = match base_table(q) {
        Some(t) => seq![t],
        None => Seq::empty(),
    };
    let from = match (base_table(q), q.from_alias) {
        (Some(t), Some(a)) => (seq![a], seq![t]),
        _ => (Seq::empty(), Seq::empty()),
    };
    NamesView {
        tables: base + join_tables(q.joins),
        aliases: from.0 + join_aliases(q.joins).0,
        reals: from.1 + join_aliases(q.joins).1,
        columns,
    }
}

pub open spec fn join_tables(joins: Seq<JoinClauseView>) -> Seq<Seq<char>> {
    Seq::new(joins.len(), |i: int| joins[i].table)
}

pub open spec fn join_aliases(joins: Seq<JoinClauseView>) -> (Seq<Seq<char>>, Seq<Seq<char>>)
    decreases joins.len(),
{
    if joins.len() == 0 {
        (Seq::empty(), Seq::empty())
    } else {
        let rest = join_aliases(joins.drop_last());
        match joins.last().alias {
            Some(a) => (rest.0.push(a), rest.1.push(joins.last().table)),
            None => rest,
        }
    }
}

// ---- rows

/// The rows that meet a condition.
pub open spec fn kept(env: Env, o: Seq<ScopeView>, n: NamesView, rows: Seq<Seq<ValueView>>, e: ExprView) -> Seq<Seq<ValueView>>
    decreases rows.len(),
{
    if rows.len() == 0 {
        Seq::empty()
    } else if predicate(env, o, n, rows.last(), e) {
        kept(env, o, n, rows.drop_last(), e).push(rows.last())
    } else {
        kept(env, o, n, rows.drop_last(), e)
    }
}

/// The rows that meet a condition, if there is one.
pub open spec fn kept_if(
    env: Env,
    o: Seq<ScopeView>,
    n: NamesView,
    rows: Seq<Seq<ValueView>>,
    e: Option<ExprView>,
) -> Seq<Seq<ValueView>> {
    match e {
        Some(e) => kept(env, o, n, rows, e),
        None => rows,
    }
}

/// The values of expressions in each row.
pub open spec fn keys_for(
    env: Env,
    o: Seq<ScopeView>,
    n: NamesView,
    rows: Seq<Seq<ValueView>>,
    es: Seq<ExprView>,
) -> Seq<Seq<ValueView>> {
    Seq::new(rows.len(), |i: int| eval_all(env, o, n, rows[i], es))
}

pub open spec fn order_exprs(by: Seq<OrderByExprView>) -> Seq<ExprView> {
    Seq::new(by.len(), |i: int| by[i].expr)
}

pub open spec fn directions(by: Seq<OrderByExprView>) -> Seq<Direction> {
    Seq::new(by.len(), |i: int| Direction { ascending: by[i].ascending, nulls_first: by[i].nulls_first })
}

/// Whether the first keys are integers and nulls only.
pub open spec fn all_int(keys: Seq<Seq<ValueView>>) -> bool {
    forall|i: int| 0 <= i < keys.len() ==> (#[trigger] keys[i]).len() > 0 && (keys[i][0] is Int64 || keys[i][0] is Null)
}

/// The directions of a sort. Where the only key is a column of integers, and nothing is said of
/// nulls, a null stands below all integers.
pub open spec fn settled(by: Seq<OrderByExprView>, columns: Seq<Seq<char>>, keys: Seq<Seq<ValueView>>) -> Seq<Direction> {
    if by.len() == 1 && by[0].nulls_first is None && (by[0].expr matches ExprView::Column(c) && index_of(columns, c) is Some)
        && all_int(keys) {
        seq![Direction { ascending: by[0].ascending, nulls_first: Some(by[0].ascending) }]
    } else {
        directions(by)
    }
}

/// The rows in the order that a query asks for.
pub open spec fn arranged(
    env: Env,
    o: Seq<ScopeView>,
    n: NamesView,
    rows: Seq<Seq<ValueView>>,
    by: Seq<OrderByExprView>,
) -> Seq<Seq<ValueView>> {
    if by.len() == 0 {
        rows
    } else {
        let keys = keys_for(env, o, n, rows, order_exprs(by));
        ordered(env.m, rows, keys, settled(by, n.columns, keys))
    }
}

/// The sort keys that are columns of the rows: where they stand, and whether they ascend.
pub open spec fn top_places(by: Seq<OrderByExprView>, columns: Seq<Seq<char>>) -> Seq<(int, bool)>
    decreases by.len(),
{
    if by.len() == 0 {
        Seq::empty()
    } else {
        let p = top_places(by.drop_last(), columns);
        match by.last().expr {
            ExprView::Column(c) => match index_of(columns, c) {
                Some(i) => p.push((i, by.last().ascending)),
                None => p,
            },
            _ => p,
        }
    }
}

pub open spec fn top_keys(rows: Seq<Seq<ValueView>>, p: Seq<(int, bool)>) -> Seq<Seq<ValueView>> {
    Seq::new(rows.len(), |i: int| Seq::new(p.len(), |j: int| value_at(rows[i], Some(p[j].0))))
}

pub open spec fn top_directions(p: Seq<(int, bool)>) -> Seq<Direction> {
    Seq::new(p.len(), |j: int| Direction { ascending: p[j].1, nulls_first: Some(p[j].1) })
}

/// The rows in the order of which a query takes the first. Only columns of the rows count, and a
/// null stands below all other values.
pub open spec fn top_arranged(m: Unit, columns: Seq<Seq<char>>, rows: Seq<Seq<ValueView>>, by: Seq<OrderByExprView>) -> Seq<Seq<ValueView>> {
    let p = top_places(by, columns);
    if p.len() == 0 {
        rows
    } else {
        ordered(m, rows, top_keys(rows, p), top_directions(p))
    }
}

/// Whether a query asks for the first of its rows in some order.
pub open spec fn takes_top(q: SelectStmtView) -> bool {
    q.order_by.len() > 0 && (q.limit is Some || q.offset is Some) && (q.offset matches Some(n) ==> n == 0)
}

/// The rows that LIMIT and OFFSET leave.
pub open spec fn cut(rows: Seq<Seq<ValueView>>, limit: Option<usize>, offset: Option<usize>) -> Seq<Seq<ValueView>> {
    if limit is None && offset is None {
        rows
    } else {
        limited(
            rows,
            match limit {
                Some(n) => n as nat,
                None => usize::MAX as nat,
            },
            match offset {
                Some(n) => n as nat,
                None => 0,
            },
        )
    }
}

// ---- the select list

/// The place of the first column that ends with `suffix`.
pub open spec fn suffix_place(columns: Seq<Seq<char>>, suffix: Seq<char>) -> Option<int>
    decreases columns.len(),
{
    if columns.len() == 0 {
        None
    } else {
        match suffix_place(columns.drop_last(), suffix) {
            Some(i) => Some(i),
            None => if ends(columns.last(), suffix) {
                Some(columns.len() - 1)
            } else {
                None
            },
        }
    }
}

/// The place of the column `name`, or of the first one of that name in some table.
pub open spec fn column_place(columns: Seq<Seq<char>>, name: Seq<char>) -> Option<int> {
    match index_of(columns, name) {
        Some(i) => Some(i),
        None => suffix_place(columns, "."@ + name),
    }
}

pub open spec fn or_first(i: Option<int>) -> Option<int> {
    match i {
        Some(i) => Some(i),
        None => Some(0int),
    }
}

pub open spec fn has_window(cols: Seq<SelectColumnView>) -> bool {
    exists|i: int| 0 <= i < cols.len() && #[trigger] is_window(cols[i])
}

pub open spec fn is_window(c: SelectColumnView) -> bool {
    match c {
        SelectColumnView::Expr(ExprView::WindowFunction { .. }, _) => true,
        _ => false,
    }
}

/// The name of a column of the result. Beside window functions a column with a table has none of
/// its own.
pub open spec fn out_name(c: SelectColumnView, windows: bool) -> Seq<char> {
    match c {
        SelectColumnView::Star => "*"@,
        SelectColumnView::Expr(_, Some(alias)) => alias,
        SelectColumnView::Expr(e, None) => match e {
            ExprView::Column(name) => name,
            ExprView::QualifiedColumn(_, name) => if windows {
                "?"@
            } else {
                name
            },
            ExprView::Function { name, args } => call_name(name, args),
            ExprView::WindowFunction { name, .. } => if windows {
                text_lower(name)
            } else {
                "?"@
            },
            _ => "?"@,
        },
    }
}

pub open spec fn out_names(cols: Seq<SelectColumnView>, windows: bool) -> Seq<Seq<char>> {
    Seq::new(cols.len(), |i: int| out_name(cols[i], windows))
}

/// The value of a column of the result in a row. A column that the row lacks stands for the first
/// one.
pub open spec fn out_value(env: Env, o: Seq<ScopeView>, n: NamesView, row: Seq<ValueView>, c: SelectColumnView) -> ValueView {
    match c {
        SelectColumnView::Star => ValueView::Null,
        SelectColumnView::Expr(e, _) => match e {
            ExprView::Column(name) => value_at(row, or_first(column_place(n.columns, name))),
            ExprView::QualifiedColumn(t, name) => if !names_table(n, t) && outer_scope(o, t) is Some {
                eval(env, o, n, row, e)
            } else {
                match index_of(n.columns, dotted(real_table(n, t), name)) {
                    Some(i) => value_at(row, Some(i)),
                    None => value_at(row, or_first(column_place(n.columns, name))),
                }
            },
            ExprView::Function { name, args } => match index_of(n.columns, call_name(name, args)) {
                Some(i) => value_at(row, Some(i)),
                None => eval(env, o, n, row, e),
            },
            _ => eval(env, o, n, row, e),
        },
    }
}

pub open spec fn out_row(env: Env, o: Seq<ScopeView>, n: NamesView, row: Seq<ValueView>, cols: Seq<SelectColumnView>) -> Seq<ValueView> {
    Seq::new(cols.len(), |i: int| out_value(env, o, n, row, cols[i]))
}

/// The same names without those that the query gives to tables.
pub open spec fn unaliased(n: NamesView) -> NamesView {
    NamesView { tables: n.tables, aliases: Seq::empty(), reals: Seq::empty(), columns: n.columns }
}

/// The values of the column that a window function is asked for.
pub open spec fn window_arg(n: NamesView, rows: Seq<Seq<ValueView>>, args: Seq<ExprView>) -> Option<Seq<ValueView>> {
    if args.len() == 0 {
        None
    } else {
        match args[0] {
            ExprView::Column(c) => match index_of(n.columns, c) {
                Some(i) => Some(column_values(rows, i)),
                None => None,
            },
            _ => None,
        }
    }
}

pub open spec fn column_values(rows: Seq<Seq<ValueView>>, i: int) -> Seq<ValueView> {
    Seq::new(rows.len(), |k: int| value_at(rows[k], Some(i)))
}

/// How far LAG and LEAD look: a negative number is as far as a huge one.
pub open spec fn window_offset(args: Seq<ExprView>) -> nat {
    if args.len() >= 2 {
        match args[1] {
            ExprView::Literal(LiteralValueView::Integer(n)) => if n >= 0 {
                n as nat
            } else {
                u64::MAX as nat
            },
            _ => 1,
        }
    } else {
        1
    }
}

/// The values of one item of a select list with window functions, for all rows.
pub open spec fn window_item(env: Env, o: Seq<ScopeView>, n: NamesView, rows: Seq<Seq<ValueView>>, c: SelectColumnView) -> Seq<ValueView> {
    match c {
        SelectColumnView::Star => Seq::new(rows.len(), |i: int| ValueView::Null),
        SelectColumnView::Expr(e, _) => match e {
            ExprView::WindowFunction { name, args, partition_by, order_by } => window_column(
                env.m,
                text_upper(name),
                keys_for(env, o, unaliased(n), rows, partition_by),
                keys_for(env, o, unaliased(n), rows, order_exprs(order_by)),
                directions(order_by),
                window_arg(n, rows, args),
                window_offset(args),
            ),
            ExprView::Column(name) => column_values(rows, or_first(index_of(n.columns, name))->0),
            _ => Seq::new(rows.len(), |i: int| eval(env, o, n, rows[i], e)),
        },
    }
}

pub open spec fn window_items(
    env: Env,
    o: Seq<ScopeView>,
    n: NamesView,
    rows: Seq<Seq<ValueView>>,
    cols: Seq<SelectColumnView>,
) -> Seq<Seq<ValueView>> {
    Seq::new(cols.len(), |j: int| window_item(env, o, n, rows, cols[j]))
}

/// The rows of which the given sequences are the columns.
pub open spec fn from_columns(items: Seq<Seq<ValueView>>, rows: nat) -> Seq<Seq<ValueView>> {
    Seq::new(rows, |i: int| Seq::new(items.len(), |j: int| items[j][i]))
}

/// The select list applied to the rows of a query; with `*` in it the rows stay as they are.
pub open spec fn projected(env: Env, o: Seq<ScopeView>, n: NamesView, rel: RelationView, cols: Seq<SelectColumnView>) -> RelationView {
    if has_star(cols) {
        rel
    } else if has_window(cols) {
        RelationView {
            columns: out_names(cols, true),
            rows: from_columns(window_items(env, o, n, rel.rows, cols), rel.rows.len()),
        }
    } else {
        RelationView {
            columns: out_names(cols, false),
            rows: Seq::new(rel.rows.len(), |i: int| out_row(env, o, n, rel.rows[i], cols)),
        }
    }
}

// ---- queries

/// Whether the rows of a query are grouped.
pub open spec fn groups(q: SelectStmtView) -> bool {
    q.group_by.len() > 0 || list_has_aggregate(q.columns)
}

/// The rows of a query before they are sorted: those that meet WHERE, grouped where the query
/// groups, and then those groups that meet HAVING.
pub open spec fn condensed(env: Env, o: Seq<ScopeView>, q: SelectStmtView, read: RelationView) -> RelationView {
    let rows = kept_if(env, o, query_names(q, read.columns), read.rows, q.where_clause);
    let met = RelationView { columns: read.columns, rows };
    if groups(q) {
        let g = grouped(env.m, met, q.group_by, query_calls(q.columns, q.having));
        RelationView {
            columns: g.columns,
            rows: kept_if(env, o, query_names(q, g.columns), g.rows, q.having),
        }
    } else {
        met
    }
}

/// What a query makes of the rows that it reads.
pub open spec fn finished(env: Env, o: Seq<ScopeView>, q: SelectStmtView, read: RelationView) -> RelationView {
    let c = condensed(env, o, q, read);
    let n = query_names(q, c.columns);
    let in_order = if takes_top(q) {
        top_arranged(env.m, c.columns, c.rows, q.order_by)
    } else {
        arranged(env, o, n, c.rows, q.order_by)
    };
    let rows = cut(in_order, q.limit, q.offset);
    let p = projected(env, o, n, RelationView { columns: c.columns, rows }, q.columns);
    RelationView {
        columns: p.columns,
        rows: if q.distinct {
            distinct(p.rows)
        } else {
            p.rows
        },
    }
}

/// The tables of a query with those of its WITH clause, each of which can read the ones before it.
pub open spec fn with_ctes(env: Env, o: Seq<ScopeView>, ctes: Seq<CteView>) -> Result<Seq<SourceView>, ErrorView>
    decreases ctes.len(),
{
    if ctes.len() == 0 {
        Ok(env.db)
    } else {
        match with_ctes(env, o, ctes.drop_last()) {
            Err(e) => Err(e),
            Ok(db) => match (env.sub)(ctes.last().query, db, o) {
                Err(e) => Err(e),
                Ok(rel) => Ok(db.push(SourceView { name: ctes.last().name, rel })),
            },
        }
    }
}

/// The tables of a query, with the one that a nested query in FROM makes.
pub open spec fn with_from(env: Env, o: Seq<ScopeView>, q: SelectStmtView) -> Result<Seq<SourceView>, ErrorView> {
    match with_ctes(env, o, q.ctes) {
        Err(e) => Err(e),
        Ok(db) => match q.from {
            FromClauseView::Subquery(inner) => match (env.sub)(*inner, db, o) {
                Err(e) => Err(e),
                Ok(rel) => Ok(db.push(SourceView { name: base_table(q)->0, rel })),
            },
            _ => Ok(db),
        },
    }
}

/// The outcome of a query whose nested queries have the outcomes that `env` gives.
pub open spec fn query_outcome(env: Env, o: Seq<ScopeView>, q: SelectStmtView) -> Outcome {
    match with_from(env, o, q) {
        Err(e) => Err(e),
        Ok(db) => match read_from(db, q, env.known.counts) {
            Err(e) => Err(e),
            Ok(read) => Ok(finished(Env { m: env.m, known: env.known, db, sub: env.sub }, o, q, read)),
        },
    }
}

/// The outcome of a query whose nested queries nest at most `depth` deep.
pub open spec fn select_rel(
    m: Unit,
    known: Known,
    db: Seq<SourceView>,
    o: Seq<ScopeView>,
    q: SelectStmtView,
    depth: nat,
) -> Outcome
    decreases depth, 1int,
{
    query_outcome(env_at(m, known, db, depth), o, q)
}

pub open spec fn too_deep() -> Seq<char> {
    "queries nested too deep"@
}

/// What the expressions of a query read that may nest queries `depth` deep.
pub open spec fn env_at(m: Unit, known: Known, db: Seq<SourceView>, depth: nat) -> Env
    decreases depth, 0int,
{
    Env {
        m,
        known,
        db,
        sub: |q: SelectStmtView, inner: Seq<SourceView>, o: Seq<ScopeView>|
            {
                if depth == 0 {
                    Err(run_error(too_deep()))
                } else {
                    select_rel(m, known, inner, o, q, (depth - 1) as nat)
                }
            },
    }
}

pub proof fn lemma_sub(
    m: Unit,
    known: Known,
    db: Seq<SourceView>,
    depth: nat,
    q: SelectStmtView,
    inner: Seq<SourceView>,
    o: Seq<ScopeView>,
)
    ensures
        (env_at(m, known, db, depth).sub)(q, inner, o) == (if depth == 0 {
            Err(run_error(too_deep()))
        } else {
            select_rel(m, known, inner, o, q, (depth - 1) as nat)
        }),
        env_at(m, known, db, depth).m == m,
        env_at(m, known, db, depth).known == known,
        env_at(m, known, db, depth).db == db,
{
}

fn has_suffix_of(name: &str, column: &str) -> (r: bool)
    ensures
        r == ends(name@, "."@ + column@),
{
    let tail = join2(".", column);
    ends_with_text(name, tail.as_str())
}

fn find_join_place(columns: &Vec<String>, name: &str) -> (r: Option<usize>)
    ensures
        opt_int(r) == join_place(names_view(columns@), name@),
        r matches Some(i) ==> i < columns@.len(),
{
    let ghost all = names_view(columns@);
    let mut i: usize = 0;
    let mut r: Option<usize> = None;
    assert(all.take(0).len() == 0);
    while i < columns.len()
        invariant
            i <= columns.len(),
            all == names_view(columns@),
            opt_int(r) == join_place(all.take(i as int), name@),
            r matches Some(i) ==> i < columns@.len(),
        decreases columns.len() - i,
    {
        assert(all.take(i + 1).drop_last() =~= all.take(i as int));
        assert(all.take(i + 1).last() == columns@[i as int]@);
        if r.is_none() && (text_is(columns[i].as_str(), name) || has_suffix_of(name, columns[i].as_str())) {
            r = Some(i);
        }
        i = i + 1;
    }
    assert(all.take(columns.len() as int) =~= all);
    r
}

pub open spec fn opt_int(i: Option<usize>) -> Option<int> {
    match i {
        Some(i) => Some(i as int),
        None => None,
    }
}

fn expr_column_name(e: &Expr) -> (r: Option<&String>)
    ensures
        (match r { Some(s) => Some(s@), None => None }) == column_name(e@),
{
    proof {
        (*e).unfold();
    }
    match e {
        Expr::Column(c) => Some(c),
        Expr::QualifiedColumn(_, c) => Some(c),
        _ => None,
    }
}

/// Finds the columns that a join condition compares.
pub fn extract_join_keys(e: &Expr, left: &Vec<String>, right: &Vec<String>) -> (r: Option<(usize, usize)>)
    ensures
        (match r { Some((i, j)) => Some((i as int, j as int)), None => None }) == join_keys(
            e@,
            names_view(left@),
            names_view(right@),
        ),
{
    proof {
        (*e).unfold();
    }
    match e {
        Expr::BinaryOp { left: a, op, right: b } => {
            if !matches!(op, BinOp::Eq) {
                return None;
            }
            match (expr_column_name(a), expr_column_name(b)) {
                (Some(x), Some(y)) => {
                    match (find_join_place(left, x.as_str()), find_join_place(right, y.as_str())) {
                        (Some(i), Some(j)) => Some((i, j)),
                        _ => match (find_join_place(left, y.as_str()), find_join_place(right, x.as_str())) {
                            (Some(i), Some(j)) => Some((i, j)),
                            _ => None,
                        },
                    }
                },
                _ => None,
            }
        },
        _ => None,
    }
}

pub open spec fn opt_text(t: Option<&str>) -> Option<Seq<char>> {
    match t {
        Some(t) => Some(t@),
        None => None,
    }
}

pub fn add_prefixed(r: &mut Vec<String>, t: Option<&str>, columns: &Vec<String>)
    ensures
        names_view(final(r)@) == names_view(old(r)@) + prefixed(opt_text(t), names_view(columns@)),
        final(r)@.len() == old(r)@.len() + columns@.len(),
{
    let ghost front = names_view(r@);
    let ghost all = prefixed(opt_text(t), names_view(columns@));
    let ghost old_len = r@.len();
    let mut i: usize = 0;
    assert(names_view(r@) =~= front + all.take(0));
    while i < columns.len()
        invariant
            i <= columns.len(),
            all == prefixed(opt_text(t), names_view(columns@)),
            all.len() == columns@.len(),
            names_view(r@) == front + all.take(i as int),
            r@.len() == old_len + i,
        decreases columns.len() - i,
    {
        let name = match t {
            Some(t) => join3(t, ".", columns[i].as_str()),
            None => columns[i].clone(),
        };
        proof {
            names_push(r@, name);
            assert(all[i as int] == name@);
            assert(front + all.take(i + 1) =~= (front + all.take(i as int)).push(name@));
        }
        r.push(name);
        i = i + 1;
    }
    assert(all.take(columns.len() as int) =~= all);
}

fn no_join(e: &Expr) -> (r: QueryError)
    ensures
        r@ == run_error(join_message(e@)),
{
    proof {
        (*e).unfold();
    }
    match e {
        Expr::BinaryOp { left: _, op: BinOp::Eq, right: _ } => QueryError::Execution(
            "Cannot determine join keys from condition".to_string(),
        ),
        _ => QueryError::Execution("JOIN condition must be an equality".to_string()),
    }
}

/// Joins a table to the rows read so far.
fn exec_hash_join(db: &Vec<Source>, l: &Relation, t: Option<&str>, table: &str, j: &JoinClause) -> (r: crate::error::Result<Relation>)
    ensures
        outcome_view(r) == join_one(sources_view(db@), l@, opt_text(t), (JoinClauseView { table: table@, ..j@ })),
{
    proof {
        (*j).unfold();
    }
    match find_source(db, table) {
        None => Err(QueryError::no_table(table)),
        Some(s) => match extract_join_keys(&j.condition, &l.columns, &s.rel.columns) {
            None => Err(no_join(&j.condition)),
            Some((li, ri)) => {
                let mut columns: Vec<String> = Vec::new();
                assert(names_view(columns@) =~= Seq::empty());
                add_prefixed(&mut columns, t, &l.columns);
                add_prefixed(&mut columns, Some(table), &s.rel.columns);
                let width: usize = columns.len();
                let rows = join_rows(
                    &l.rows,
                    &s.rel.rows,
                    li,
                    ri,
                    l.columns.len(),
                    s.rel.columns.len(),
                    j.join_type,
                );
                let r = Relation { columns, rows };
                proof {
                    assert(s.rel@.columns.len() == s.rel.columns@.len());
                    assert(l@.columns.len() == l.columns@.len());
                    assert(r@.columns =~= prefixed(opt_text(t), l@.columns) + prefixed(Some(table@), s.rel@.columns));
                }
                Ok(r)
            },
        },
    }
}

fn join_sources(db: &Vec<Source>, first: &Relation, order: &Vec<String>, joins: &Vec<JoinClause>) -> (r: crate::error::Result<Relation>)
    requires
        order@.len() == joins@.len() + 1,
    ensures
        outcome_view(r) == join_all(
            sources_view(db@),
            first@,
            order@[0]@,
            rehung(join_clauses_view(joins@), names_view(order@)),
        ),
{
    let ghost t = order@[0]@;
    let ghost all = rehung(join_clauses_view(joins@), names_view(order@));
    let mut acc = first.dup();
    let mut i: usize = 0;
    proof {
        broadcast use join_clauses_len;

        assert(all.take(0).len() == 0);
    }
    while i < joins.len()
        invariant
            i <= joins.len(),
            order@.len() == joins@.len() + 1,
            t == order@[0]@,
            all == rehung(join_clauses_view(joins@), names_view(order@)),
            all.len() == joins@.len(),
            join_all(sources_view(db@), first@, t, all.take(i as int)) == Ok::<RelationView, ErrorView>(acc@),
        decreases joins.len() - i,
    {
        proof {
            broadcast use join_clauses_at;

            assert(join_clauses_view(joins@)[i as int] == joins@[i as int]@);
            assert(names_view(order@)[i + 1] == order@[i + 1]@);
            assert(all[i as int] == (JoinClauseView { table: order@[i + 1]@, ..joins@[i as int]@ }));
            assert(all.take(i + 1).drop_last() =~= all.take(i as int));
            assert(all.take(i + 1).last() == all[i as int]);
        }
        let table = if i == 0 {
            Some(order[0].as_str())
        } else {
            None
        };
        match exec_hash_join(db, &acc, table, order[i + 1].as_str(), &joins[i]) {
            Err(e) => {
                proof {
                    lemma_join_stops(sources_view(db@), first@, t, all, i + 1);
                }
                return Err(e);
            },
            Ok(rel) => {
                acc = rel;
            },
        }
        i = i + 1;
    }
    assert(all.take(joins.len() as int) =~= all);
    Ok(acc)
}

proof fn lemma_join_stops(db: Seq<SourceView>, first: RelationView, t: Seq<char>, joins: Seq<JoinClauseView>, i: int)
    requires
        0 <= i <= joins.len(),
        join_all(db, first, t, joins.take(i)) is Err,
    ensures
        join_all(db, first, t, joins) == join_all(db, first, t, joins.take(i)),
    decreases joins.len() - i,
{
    if i < joins.len() {
        assert(joins.take(i + 1).drop_last() =~= joins.take(i));
        lemma_join_stops(db, first, t, joins, i + 1);
    } else {
        assert(joins.take(i) =~= joins);
    }
}

pub fn list_has_star(cols: &Vec<SelectColumn>) -> (r: bool)
    ensures
        r == has_star(select_columns_view(cols@)),
{
    let ghost all = select_columns_view(cols@);
    proof {
        broadcast use select_columns_len;

        assert(all.len() == cols@.len());
    }
    let mut i: usize = 0;
    while i < cols.len()
        invariant
            i <= cols.len(),
            all == select_columns_view(cols@),
            all.len() == cols@.len(),
            forall|j: int| 0 <= j < i ==> !(#[trigger] all[j] is Star),
        decreases cols.len() - i,
    {
        proof {
            broadcast use select_columns_at;

            assert(all[i as int] == cols@[i as int]@);
            cols@[i as int].unfold();
        }
        if matches!(&cols[i], SelectColumn::Star) {
            assert(all[i as int] is Star);
            return true;
        }
        i = i + 1;
    }
    false
}

fn list_has_window(cols: &Vec<SelectColumn>) -> (r: bool)
    ensures
        r == has_window(select_columns_view(cols@)),
{
    let ghost all = select_columns_view(cols@);
    proof {
        broadcast use select_columns_len;

        assert(all.len() == cols@.len());
    }
    let mut i: usize = 0;
    while i < cols.len()
        invariant
            i <= cols.len(),
            all == select_columns_view(cols@),
            all.len() == cols@.len(),
            forall|j: int| 0 <= j < i ==> !#[trigger] is_window(all[j]),
        decreases cols.len() - i,
    {
        proof {
            broadcast use select_columns_at;

            assert(all[i as int] == cols@[i as int]@);
            cols@[i as int].unfold();
        }
        match &cols[i] {
            SelectColumn::Expr(e, _) => {
                proof {
                    (*e).unfold();
                }
                if matches!(e, Expr::WindowFunction { .. }) {
                    assert(is_window(all[i as int]));
                    return true;
                }
            },
            _ => {},
        }
        i = i + 1;
    }
    false
}

fn name_base(q: &SelectStmt) -> (r: Option<String>)
    ensures
        (match r { Some(s) => Some(s@), None => None }) == base_table(q@),
{
    proof {
        (*q).unfold();
        q.from.unfold();
    }
    match &q.from {
        FromClause::Table(t) => Some(t.clone()),
        FromClause::Subquery(_) => match &q.from_alias {
            Some(a) => Some(a.clone()),
            None => Some("__subquery__".to_string()),
        },
        FromClause::Absent => None,
    }
}

fn are_inner_joins(joins: &Vec<JoinClause>) -> (r: bool)
    ensures
        r == inner_joins(join_clauses_view(joins@)),
{
    let ghost all = join_clauses_view(joins@);
    proof {
        broadcast use join_clauses_len;

        assert(all.len() == joins@.len());
    }
    let mut i: usize = 0;
    while i < joins.len()
        invariant
            i <= joins.len(),
            all == join_clauses_view(joins@),
            all.len() == joins@.len(),
            forall|k: int| 0 <= k < i ==> (#[trigger] all[k]).join_type == JoinType::Inner,
        decreases joins.len() - i,
    {
        proof {
            broadcast use join_clauses_at;

            assert(all[i as int] == joins@[i as int]@);
            joins@[i as int].unfold();
        }
        if !matches!(joins[i].join_type, JoinType::Inner) {
            assert(all[i as int].join_type != JoinType::Inner);
            return false;
        }
        i = i + 1;
    }
    true
}

fn find_counts(names: &Vec<String>, counts: &Vec<TableRows>) -> (r: Option<Vec<u64>>)
    ensures
        (match r { Some(c) => Some(c@), None => None }) == chain_counts(some_names(names_view(names@)), counts_view(counts@)),
        r matches Some(c) ==> c@.len() == names@.len(),
{
    let ghost all = some_names(names_view(names@));
    let ghost cv = counts_view(counts@);
    let mut c: Vec<u64> = Vec::new();
    let mut i: usize = 0;
    proof {
        assert(all.take(0).len() == 0);
        assert(c@ =~= Seq::empty());
    }
    while i < names.len()
        invariant
            i <= names.len(),
            all == some_names(names_view(names@)),
            cv == counts_view(counts@),
            c@.len() == i,
            chain_counts(all.take(i as int), cv) == Some(c@),
        decreases names.len() - i,
    {
        proof {
            assert(all.take(i + 1).drop_last() =~= all.take(i as int));
            assert(all.take(i + 1).last() == Some(names@[i as int]@));
        }
        match find_count(counts, names[i].as_str()) {
            Some(n) => {
                c.push(n);
            },
            None => {
                proof {
                    lemma_counts_stop(all, cv, i + 1);
                }
                return None;
            },
        }
        i = i + 1;
    }
    assert(all.take(names.len() as int) =~= all);
    Some(c)
}

proof fn lemma_counts_stop(t: Seq<Option<Seq<char>>>, s: Seq<(Seq<char>, u64)>, n: int)
    requires
        0 <= n <= t.len(),
        chain_counts(t.take(n), s) is None,
    ensures
        chain_counts(t, s) is None,
    decreases t.len() - n,
{
    if n < t.len() {
        assert(t.take(n + 1).drop_last() =~= t.take(n));
        lemma_counts_stop(t, s, n + 1);
    } else {
        assert(t.take(n) =~= t);
    }
}

/// Puts the tables of a query into the order in which they are read.
fn order_tables(t: String, joins: &Vec<JoinClause>, counts: &Vec<TableRows>) -> (r: Vec<String>)
    ensures
        names_view(r@) == read_order(t@, join_clauses_view(joins@), counts_view(counts@)),
        r@.len() == joins@.len() + 1,
{
    let ghost tv = t@;
    let ghost all = join_clauses_view(joins@);
    let mut names: Vec<String> = Vec::new();
    names.push(t);
    let mut i: usize = 0;
    proof {
        broadcast use join_clauses_len;

        assert(all.len() == joins@.len());
        assert(names_view(names@) =~= seq![tv] + join_tables(all).take(0));
    }
    while i < joins.len()
        invariant
            i <= joins.len(),
            all == join_clauses_view(joins@),
            all.len() == joins@.len(),
            names@.len() == i + 1,
            names_view(names@) == seq![tv] + join_tables(all).take(i as int),
        decreases joins.len() - i,
    {
        let n = joins[i].table.clone();
        proof {
            broadcast use join_clauses_at;

            assert(all[i as int] == joins@[i as int]@);
            joins@[i as int].unfold();
            names_push(names@, n);
            assert(join_tables(all)[i as int] == n@);
            assert(seq![tv] + join_tables(all).take(i + 1) =~= (seq![tv] + join_tables(all).take(i as int)).push(n@));
        }
        names.push(n);
        i = i + 1;
    }
    assert(join_tables(all).take(joins.len() as int) =~= join_tables(all));
    let ghost before = names_view(names@);
    let k: usize = match find_counts(&names, counts) {
        Some(c) => if are_inner_joins(joins) {
            find_smallest(&c)
        } else {
            0
        },
        None => 0,
    };
    let n = names.remove(k);
    names.insert(0, n);
    assert(names_view(names@) =~= led_by(before, k as int));
    names
}

/// Reads the tables of a query and joins them.
pub fn exec_seq_scan(db: &Vec<Source>, q: &SelectStmt, counts: &Vec<TableRows>) -> (r: crate::error::Result<Relation>)
    ensures
        outcome_view(r) == read_from(sources_view(db@), q@, counts_view(counts@)),
{
    proof {
        (*q).unfold();
    }
    match name_base(q) {
        None => {
            if list_has_star(&q.columns) {
                return Err(QueryError::Plan("SELECT without FROM is handled by the executor".to_string()));
            }
            let mut rows: Vec<Vec<Value>> = Vec::new();
            let row: Vec<Value> = Vec::new();
            rows.push(row);
            let r = Relation { columns: Vec::new(), rows };
            proof {
                assert(r@.columns =~= Seq::empty());
                assert(r@.rows[0] =~= Seq::empty());
                assert(r@.rows =~= seq![Seq::empty()]);
            }
            Ok(r)
        },
        Some(t) => {
            let order = order_tables(t, &q.joins, counts);
            match find_source(db, order[0].as_str()) {
                None => Err(QueryError::no_table(order[0].as_str())),
                Some(s) => join_sources(db, &s.rel, &order, &q.joins),
            }
        },
    }
}

pub fn make_names(q: &SelectStmt, columns: &Vec<String>) -> (r: Names)
    ensures
        r@ == query_names(q@, names_view(columns@)),
{
    let mut tables: Vec<String> = Vec::new();
    let mut aliases: Vec<String> = Vec::new();
    let mut reals: Vec<String> = Vec::new();
    proof {
        (*q).unfold();
        assert(names_view(tables@) =~= Seq::empty());
        assert(names_view(aliases@) =~= Seq::empty());
        assert(names_view(reals@) =~= Seq::empty());
    }
    match name_base(q) {
        Some(t) => {
            match &q.from_alias {
                Some(a) => {
                    let a = a.clone();
                    let meant = t.clone();
                    proof {
                        names_push(aliases@, a);
                        names_push(reals@, meant);
                    }
                    aliases.push(a);
                    reals.push(meant);
                },
                None => {},
            }
            proof {
                names_push(tables@, t);
            }
            tables.push(t);
        },
        None => {},
    }
    let ghost all = join_clauses_view(q.joins@);
    let ghost t0 = names_view(tables@);
    let ghost a0 = names_view(aliases@);
    let ghost r0 = names_view(reals@);
    let mut i: usize = 0;
    proof {
        broadcast use join_clauses_len;

        assert(all.take(0).len() == 0);
        assert(t0 =~= (match base_table(q@) {
            Some(t) => seq![t],
            None => Seq::empty(),
        }));
        assert(t0 =~= t0 + join_tables(all.take(0)));
        assert(a0 =~= a0 + join_aliases(all.take(0)).0);
        assert(r0 =~= r0 + join_aliases(all.take(0)).1);
        if base_table(q@) is Some && q@.from_alias is Some {
            assert(a0 =~= seq![q@.from_alias->0]);
            assert(r0 =~= seq![base_table(q@)->0]);
        }
    }
    while i < q.joins.len()
        invariant
            i <= q.joins.len(),
            all == join_clauses_view(q.joins@),
            all.len() == q.joins@.len(),
            names_view(tables@) == t0 + join_tables(all.take(i as int)),
            names_view(aliases@) == a0 + join_aliases(all.take(i as int)).0,
            names_view(reals@) == r0 + join_aliases(all.take(i as int)).1,
        decreases q.joins.len() - i,
    {
        let j = &q.joins[i];
        let t = j.table.clone();
        proof {
            broadcast use join_clauses_at;

            assert(all[i as int] == q.joins@[i as int]@);
            q.joins@[i as int].unfold();
            assert(all.take(i + 1).drop_last() =~= all.take(i as int));
            assert(all.take(i + 1).last() == all[i as int]);
            names_push(tables@, t);
            assert(t0 + join_tables(all.take(i + 1)) =~= (t0 + join_tables(all.take(i as int))).push(t@));
        }
        tables.push(t);
        match &j.alias {
            Some(a) => {
                let a = a.clone();
                let meant = j.table.clone();
                proof {
                    names_push(aliases@, a);
                    names_push(reals@, meant);
                    assert(a0 + join_aliases(all.take(i + 1)).0 =~= (a0 + join_aliases(all.take(i as int)).0).push(a@));
                    assert(r0 + join_aliases(all.take(i + 1)).1 =~= (r0 + join_aliases(all.take(i as int)).1).push(meant@));
                }
                aliases.push(a);
                reals.push(meant);
            },
            None => {},
        }
        i = i + 1;
    }
    assert(all.take(q.joins.len() as int) =~= all);
    Names { tables, aliases, reals, columns: dup_names(columns) }
}

/// Keeps the rows that meet a condition.
pub fn apply_filter<'a, U: Fn(Ask) -> Reply>(
    cx: &Reader<'a, U>,
    o: &Vec<Scope>,
    n: &Names,
    rows: Vec<Vec<Value>>,
    e: &Option<Expr>,
) -> (r: Vec<Vec<Value>>)
    requires
        cx.ready(),
    ensures
        rows_view(r@) == kept_if(cx.env(), scopes_view(o@), n@, rows_view(rows@), opt_expr(*e)),
    decreases cx.depth, 4int, n,
{
    match e {
        None => rows,
        Some(e) => {
            let ghost all = rows_view(rows@);
            let mut r: Vec<Vec<Value>> = Vec::new();
            let mut i: usize = 0;
            assert(all.take(0).len() == 0);
            assert(rows_view(r@) =~= Seq::empty());
            while i < rows.len()
                invariant
                    i <= rows.len(),
                    cx.ready(),
                    all == rows_view(rows@),
                    rows_view(r@) == kept(cx.env(), scopes_view(o@), n@, all.take(i as int), e@),
                decreases rows.len() - i,
            {
                assert(all.take(i + 1).drop_last() =~= all.take(i as int));
                assert(all.take(i + 1).last() == values_view(rows@[i as int]@));
                if eval_predicate(cx, o, n, &rows[i], e) {
                    let row = crate::value::dup_values(&rows[i]);
                    proof {
                        rows_push(r@, row);
                    }
                    r.push(row);
                }
                i = i + 1;
            }
            assert(all.take(rows.len() as int) =~= all);
            r
        },
    }
}

fn make_keys<'a, U: Fn(Ask) -> Reply>(
    cx: &Reader<'a, U>,
    o: &Vec<Scope>,
    n: &Names,
    rows: &Vec<Vec<Value>>,
    es: &Vec<Expr>,
) -> (r: Vec<Vec<Value>>)
    requires
        cx.ready(),
    ensures
        rows_view(r@) == keys_for(cx.env(), scopes_view(o@), n@, rows_view(rows@), exprs_view(es@)),
        r@.len() == rows@.len(),
    decreases cx.depth, 4int, n,
{
    let ghost all = keys_for(cx.env(), scopes_view(o@), n@, rows_view(rows@), exprs_view(es@));
    let mut r: Vec<Vec<Value>> = Vec::new();
    let mut i: usize = 0;
    assert(rows_view(r@) =~= all.take(0));
    while i < rows.len()
        invariant
            i <= rows.len(),
            cx.ready(),
            r@.len() == i,
            all == keys_for(cx.env(), scopes_view(o@), n@, rows_view(rows@), exprs_view(es@)),
            rows_view(r@) == all.take(i as int),
        decreases rows.len() - i,
    {
        let k = super::eval::eval_values(cx, o, n, &rows[i], es);
        proof {
            rows_push(r@, k);
            assert(rows_view(rows@)[i as int] == values_view(rows@[i as int]@));
            assert(all[i as int] == values_view(k@));
            assert(all.take(i + 1) =~= all.take(i as int).push(values_view(k@)));
        }
        r.push(k);
        i = i + 1;
    }
    assert(all.take(rows.len() as int) =~= all);
    r
}

fn list_order_exprs(by: &Vec<OrderByExpr>) -> (r: Vec<Expr>)
    ensures
        exprs_view(r@) == order_exprs(order_by_exprs_view(by@)),
{
    let ghost all = order_exprs(order_by_exprs_view(by@));
    let mut r: Vec<Expr> = Vec::new();
    let mut i: usize = 0;
    proof {
        broadcast use {order_by_exprs_len, exprs_len};

        assert(all.len() == by@.len());
        assert(exprs_view(r@) =~= all.take(0));
    }
    while i < by.len()
        invariant
            i <= by.len(),
            all == order_exprs(order_by_exprs_view(by@)),
            all.len() == by@.len(),
            exprs_view(r@) == all.take(i as int),
        decreases by.len() - i,
    {
        let e = by[i].expr.dup();
        proof {
            broadcast use {order_by_exprs_at, order_by_exprs_len, crate::parser::ast::exprs_push};

            by@[i as int].unfold();
            assert(order_by_exprs_view(by@)[i as int] == by@[i as int]@);
            assert(all[i as int] == e@);
            crate::parser::ast::exprs_push(r@, e);
            assert(all.take(i + 1) =~= all.take(i as int).push(e@));
        }
        r.push(e);
        i = i + 1;
    }
    assert(all.take(by.len() as int) =~= all);
    r
}

fn list_directions(by: &Vec<OrderByExpr>) -> (r: Vec<Direction>)
    ensures
        r@ == directions(order_by_exprs_view(by@)),
{
    let ghost all = directions(order_by_exprs_view(by@));
    let mut r: Vec<Direction> = Vec::new();
    let mut i: usize = 0;
    proof {
        broadcast use order_by_exprs_len;

        assert(all.len() == by@.len());
        assert(r@ =~= all.take(0));
    }
    while i < by.len()
        invariant
            i <= by.len(),
            all == directions(order_by_exprs_view(by@)),
            all.len() == by@.len(),
            r@ == all.take(i as int),
        decreases by.len() - i,
    {
        let d = Direction { ascending: by[i].ascending, nulls_first: by[i].nulls_first };
        proof {
            broadcast use {order_by_exprs_at, order_by_exprs_len};

            by@[i as int].unfold();
            assert(order_by_exprs_view(by@)[i as int] == by@[i as int]@);
            assert(all[i as int] == d);
            assert(all.take(i + 1) =~= all.take(i as int).push(d));
        }
        r.push(d);
        i = i + 1;
    }
    assert(all.take(by.len() as int) =~= all);
    r
}

fn are_all_int(keys: &Vec<Vec<Value>>) -> (r: bool)
    ensures
        r == all_int(rows_view(keys@)),
{
    let ghost all = rows_view(keys@);
    let mut i: usize = 0;
    while i < keys.len()
        invariant
            i <= keys.len(),
            all == rows_view(keys@),
            forall|j: int| 0 <= j < i ==> (#[trigger] all[j]).len() > 0 && (all[j][0] is Int64 || all[j][0] is Null),
        decreases keys.len() - i,
    {
        proof {
            assert(all[i as int] == values_view(keys@[i as int]@));
            assert(values_view(keys@[i as int]@).len() == keys@[i as int]@.len());
        }
        if keys[i].len() == 0 {
            return false;
        }
        assert(all[i as int][0] == keys@[i as int]@[0]@);
        if !matches!(&keys[i][0], Value::Int64(_) | Value::Null) {
            return false;
        }
        i = i + 1;
    }
    true
}

fn settle(by: &Vec<OrderByExpr>, columns: &Vec<String>, keys: &Vec<Vec<Value>>) -> (r: Vec<Direction>)
    ensures
        r@ == settled(order_by_exprs_view(by@), names_view(columns@), rows_view(keys@)),
{
    proof {
        broadcast use order_by_exprs_len;

        assert(order_by_exprs_view(by@).len() == by@.len());
    }
    if by.len() == 1 {
        proof {
            broadcast use order_by_exprs_at;

            by@[0].unfold();
            by@[0].expr.unfold();
            assert(order_by_exprs_view(by@)[0] == by@[0]@);
        }
        let plain = match &by[0].expr {
            Expr::Column(c) => find_index(columns, c.as_str()).is_some(),
            _ => false,
        };
        if plain && by[0].nulls_first.is_none() && are_all_int(keys) {
            let mut r: Vec<Direction> = Vec::new();
            r.push(Direction { ascending: by[0].ascending, nulls_first: Some(by[0].ascending) });
            assert(r@ =~= seq![Direction { ascending: by@[0].ascending, nulls_first: Some(by@[0].ascending) }]);
            return r;
        }
    }
    list_directions(by)
}

pub open spec fn places_view(p: Seq<(usize, bool)>) -> Seq<(int, bool)> {
    Seq::new(p.len(), |i: int| (p[i].0 as int, p[i].1))
}

fn find_top_places(by: &Vec<OrderByExpr>, columns: &Vec<String>) -> (r: Vec<(usize, bool)>)
    ensures
        places_view(r@) == top_places(order_by_exprs_view(by@), names_view(columns@)),
{
    let ghost all = order_by_exprs_view(by@);
    let mut r: Vec<(usize, bool)> = Vec::new();
    let mut i: usize = 0;
    proof {
        broadcast use order_by_exprs_len;

        assert(all.len() == by@.len());
        assert(all.take(0).len() == 0);
        assert(places_view(r@) =~= Seq::empty());
    }
    while i < by.len()
        invariant
            i <= by.len(),
            all == order_by_exprs_view(by@),
            all.len() == by@.len(),
            places_view(r@) == top_places(all.take(i as int), names_view(columns@)),
        decreases by.len() - i,
    {
        proof {
            broadcast use order_by_exprs_at;

            by@[i as int].unfold();
            by@[i as int].expr.unfold();
            assert(all[i as int] == by@[i as int]@);
            assert(all.take(i + 1).drop_last() =~= all.take(i as int));
            assert(all.take(i + 1).last() == all[i as int]);
        }
        if let Expr::Column(c) = &by[i].expr {
            if let Some(k) = find_index(columns, c.as_str()) {
                let ghost before = r@;
                r.push((k, by[i].ascending));
                assert(places_view(r@) =~= places_view(before).push((k as int, by@[i as int].ascending)));
            }
        }
        i = i + 1;
    }
    assert(all.take(by.len() as int) =~= all);
    r
}

fn pick_values(row: &Vec<Value>, p: &Vec<(usize, bool)>) -> (r: Vec<Value>)
    ensures
        values_view(r@) == Seq::new(p@.len(), |j: int| value_at(values_view(row@), Some(places_view(p@)[j].0))),
{
    let ghost all = Seq::new(p@.len(), |j: int| value_at(values_view(row@), Some(places_view(p@)[j].0)));
    let mut r: Vec<Value> = Vec::new();
    let mut i: usize = 0;
    assert(values_view(r@) =~= all.take(0));
    while i < p.len()
        invariant
            i <= p.len(),
            all == Seq::new(p@.len(), |j: int| value_at(values_view(row@), Some(places_view(p@)[j].0))),
            values_view(r@) == all.take(i as int),
        decreases p.len() - i,
    {
        let v = get_value(row, Some(p[i].0));
        proof {
            values_push(r@, v);
            assert(places_view(p@)[i as int].0 == p@[i as int].0);
            assert(all[i as int] == v@);
            assert(all.take(i + 1) =~= all.take(i as int).push(v@));
        }
        r.push(v);
        i = i + 1;
    }
    assert(all.take(p.len() as int) =~= all);
    r
}

/// Sorts rows of which a query takes the first.
fn apply_top_n<U: Fn(Ask) -> Reply>(u: &U, columns: &Vec<String>, rows: Vec<Vec<Value>>, by: &Vec<OrderByExpr>) -> (r: Vec<Vec<Value>>)
    requires
        is_unit(u),
    ensures
        rows_view(r@) == top_arranged(model(u), names_view(columns@), rows_view(rows@), order_by_exprs_view(by@)),
{
    let p = find_top_places(by, columns);
    assert(places_view(p@).len() == p@.len());
    if p.len() == 0 {
        return rows;
    }
    let ghost pv = places_view(p@);
    let ghost all = top_keys(rows_view(rows@), pv);
    let mut keys: Vec<Vec<Value>> = Vec::new();
    let mut i: usize = 0;
    assert(rows_view(keys@) =~= all.take(0));
    while i < rows.len()
        invariant
            i <= rows.len(),
            keys@.len() == i,
            pv == places_view(p@),
            all == top_keys(rows_view(rows@), pv),
            rows_view(keys@) == all.take(i as int),
        decreases rows.len() - i,
    {
        let k = pick_values(&rows[i], &p);
        proof {
            rows_push(keys@, k);
            assert(rows_view(rows@)[i as int] == values_view(rows@[i as int]@));
            assert(all[i as int] =~= values_view(k@));
            assert(all.take(i + 1) =~= all.take(i as int).push(values_view(k@)));
        }
        keys.push(k);
        i = i + 1;
    }
    assert(all.take(rows.len() as int) =~= all);
    let mut d: Vec<Direction> = Vec::new();
    let mut j: usize = 0;
    while j < p.len()
        invariant
            j <= p.len(),
            pv == places_view(p@),
            pv.len() == p@.len(),
            d@ == top_directions(pv).take(j as int),
        decreases p.len() - j,
    {
        let x = Direction { ascending: p[j].1, nulls_first: Some(p[j].1) };
        proof {
            assert(pv[j as int].1 == p@[j as int].1);
            assert(top_directions(pv).take(j + 1) =~= top_directions(pv).take(j as int).push(x));
        }
        d.push(x);
        j = j + 1;
    }
    assert(top_directions(pv).take(p.len() as int) =~= top_directions(pv));
    sort_rows(u, &rows, &keys, &d)
}

/// Sorts rows as a query asks for.
fn apply_sort<'a, U: Fn(Ask) -> Reply>(
    cx: &Reader<'a, U>,
    o: &Vec<Scope>,
    n: &Names,
    rows: Vec<Vec<Value>>,
    by: &Vec<OrderByExpr>,
) -> (r: Vec<Vec<Value>>)
    requires
        cx.ready(),
    ensures
        rows_view(r@) == arranged(cx.env(), scopes_view(o@), n@, rows_view(rows@), order_by_exprs_view(by@)),
    decreases cx.depth, 5int, n,
{
    proof {
        broadcast use order_by_exprs_len;

        assert(order_by_exprs_view(by@).len() == by@.len());
    }
    if by.len() == 0 {
        return rows;
    }
    let es = list_order_exprs(by);
    let keys = make_keys(cx, o, n, &rows, &es);
    let d = settle(by, &n.columns, &keys);
    sort_rows(cx.u, &rows, &keys, &d)
}

fn apply_limit(rows: Vec<Vec<Value>>, limit: Option<usize>, offset: Option<usize>) -> (r: Vec<Vec<Value>>)
    ensures
        rows_view(r@) == cut(rows_view(rows@), limit, offset),
{
    if limit.is_none() && offset.is_none() {
        return rows;
    }
    let count: usize = match limit {
        Some(n) => n,
        None => usize::MAX,
    };
    let from: usize = match offset {
        Some(n) => n,
        None => 0,
    };
    limit_rows(&rows, count, from)
}

fn find_column_place(columns: &Vec<String>, name: &str) -> (r: Option<usize>)
    ensures
        opt_int(r) == column_place(names_view(columns@), name@),
{
    match find_index(columns, name) {
        Some(i) => {
            return Some(i);
        },
        None => {},
    }
    let suffix = join2(".", name);
    let ghost all = names_view(columns@);
    let mut i: usize = 0;
    let mut r: Option<usize> = None;
    assert(all.take(0).len() == 0);
    while i < columns.len()
        invariant
            i <= columns.len(),
            all == names_view(columns@),
            opt_int(r) == suffix_place(all.take(i as int), suffix@),
        decreases columns.len() - i,
    {
        assert(all.take(i + 1).drop_last() =~= all.take(i as int));
        assert(all.take(i + 1).last() == columns@[i as int]@);
        if r.is_none() && ends_with_text(columns[i].as_str(), suffix.as_str()) {
            r = Some(i);
        }
        i = i + 1;
    }
    assert(all.take(columns.len() as int) =~= all);
    r
}

fn first_if_none(i: Option<usize>) -> (r: Option<usize>)
    ensures
        opt_int(r) == or_first(opt_int(i)),
        r is Some,
{
    match i {
        Some(i) => Some(i),
        None => Some(0),
    }
}

fn name_column(c: &SelectColumn, windows: bool) -> (r: String)
    ensures
        r@ == out_name(c@, windows),
{
    proof {
        (*c).unfold();
    }
    match c {
        SelectColumn::Star => "*".to_string(),
        SelectColumn::Expr(e, alias) => {
            proof {
                (*e).unfold();
            }
            match alias {
                Some(a) => a.clone(),
                None => match e {
                    Expr::Column(name) => name.clone(),
                    Expr::QualifiedColumn(_, name) => if windows {
                        "?".to_string()
                    } else {
                        name.clone()
                    },
                    Expr::Function { name, args } => show_call(name.as_str(), args),
                    Expr::WindowFunction { name, args, partition_by, order_by } => if windows {
                        name.to_lowercase()
                    } else {
                        "?".to_string()
                    },
                    _ => "?".to_string(),
                },
            }
        },
    }
}

fn name_columns(cols: &Vec<SelectColumn>, windows: bool) -> (r: Vec<String>)
    ensures
        names_view(r@) == out_names(select_columns_view(cols@), windows),
{
    let ghost all = out_names(select_columns_view(cols@), windows);
    let mut r: Vec<String> = Vec::new();
    let mut i: usize = 0;
    proof {
        broadcast use select_columns_len;

        assert(all.len() == cols@.len());
        assert(names_view(r@) =~= all.take(0));
    }
    while i < cols.len()
        invariant
            i <= cols.len(),
            all == out_names(select_columns_view(cols@), windows),
            all.len() == cols@.len(),
            names_view(r@) == all.take(i as int),
        decreases cols.len() - i,
    {
        let name = name_column(&cols[i], windows);
        proof {
            broadcast use {select_columns_at, select_columns_len};

            assert(select_columns_view(cols@)[i as int] == cols@[i as int]@);
            names_push(r@, name);
            assert(all[i as int] == name@);
            assert(all.take(i + 1) =~= all.take(i as int).push(name@));
        }
        r.push(name);
        i = i + 1;
    }
    assert(all.take(cols.len() as int) =~= all);
    r
}

fn scope_has(o: &Vec<Scope>, t: &str) -> (r: bool)
    ensures
        r == (outer_scope(scopes_view(o@), t@) is Some),
{
    let ghost all = scopes_view(o@);
    let mut i: usize = o.len();
    assert(all.take(i as int) =~= all);
    while i > 0
        invariant
            i <= o.len(),
            all == scopes_view(o@),
            outer_scope(all, t@) == outer_scope(all.take(i as int), t@),
        decreases i,
    {
        i = i - 1;
        assert(all.take(i + 1).drop_last() =~= all.take(i as int));
        assert(all.take(i + 1).last() == o@[i as int]@);
        if has_table(&o[i].names, t) {
            return true;
        }
    }
    false
}

fn project_value<'a, U: Fn(Ask) -> Reply>(
    cx: &Reader<'a, U>,
    o: &Vec<Scope>,
    n: &Names,
    row: &Vec<Value>,
    c: &SelectColumn,
) -> (r: Value)
    requires
        cx.ready(),
    ensures
        r@ == out_value(cx.env(), scopes_view(o@), n@, values_view(row@), c@),
    decreases cx.depth, 3int, n,
{
    proof {
        (*c).unfold();
    }
    match c {
        SelectColumn::Star => Value::Null,
        SelectColumn::Expr(e, _) => {
            proof {
                (*e).unfold();
            }
            match e {
                Expr::Column(name) => get_value(row, first_if_none(find_column_place(&n.columns, name.as_str()))),
                Expr::QualifiedColumn(t, name) => {
                    if !has_table(n, t.as_str()) && scope_has(o, t.as_str()) {
                        return eval_value(cx, o, n, row, e);
                    }
                    let full = join3(resolve_table(n, t.as_str()), ".", name.as_str());
                    match find_index(&n.columns, full.as_str()) {
                        Some(i) => get_value(row, Some(i)),
                        None => get_value(row, first_if_none(find_column_place(&n.columns, name.as_str()))),
                    }
                },
                Expr::Function { name, args } => {
                    let label = show_call(name.as_str(), args);
                    match find_index(&n.columns, label.as_str()) {
                        Some(i) => get_value(row, Some(i)),
                        None => eval_value(cx, o, n, row, e),
                    }
                },
                _ => eval_value(cx, o, n, row, e),
            }
        },
    }
}

fn project_row<'a, U: Fn(Ask) -> Reply>(
    cx: &Reader<'a, U>,
    o: &Vec<Scope>,
    n: &Names,
    row: &Vec<Value>,
    cols: &Vec<SelectColumn>,
) -> (r: Vec<Value>)
    requires
        cx.ready(),
    ensures
        values_view(r@) == out_row(cx.env(), scopes_view(o@), n@, values_view(row@), select_columns_view(cols@)),
    decreases cx.depth, 4int, n,
{
    let ghost all = out_row(cx.env(), scopes_view(o@), n@, values_view(row@), select_columns_view(cols@));
    let mut r: Vec<Value> = Vec::new();
    let mut i: usize = 0;
    proof {
        broadcast use select_columns_len;

        assert(all.len() == cols@.len());
        assert(values_view(r@) =~= all.take(0));
    }
    while i < cols.len()
        invariant
            i <= cols.len(),
            cx.ready(),
            all == out_row(cx.env(), scopes_view(o@), n@, values_view(row@), select_columns_view(cols@)),
            all.len() == cols@.len(),
            values_view(r@) == all.take(i as int),
        decreases cols.len() - i,
    {
        let v = project_value(cx, o, n, row, &cols[i]);
        proof {
            broadcast use {select_columns_at, select_columns_len};

            assert(select_columns_view(cols@)[i as int] == cols@[i as int]@);
            values_push(r@, v);
            assert(all[i as int] == v@);
            assert(all.take(i + 1) =~= all.take(i as int).push(v@));
        }
        r.push(v);
        i = i + 1;
    }
    assert(all.take(cols.len() as int) =~= all);
    r
}

fn take_values(rows: &Vec<Vec<Value>>, k: usize) -> (r: Vec<Value>)
    ensures
        values_view(r@) == column_values(rows_view(rows@), k as int),
        r@.len() == rows@.len(),
{
    let ghost all = column_values(rows_view(rows@), k as int);
    let mut r: Vec<Value> = Vec::new();
    let mut i: usize = 0;
    assert(values_view(r@) =~= all.take(0));
    while i < rows.len()
        invariant
            i <= rows.len(),
            r@.len() == i,
            all == column_values(rows_view(rows@), k as int),
            values_view(r@) == all.take(i as int),
        decreases rows.len() - i,
    {
        let v = get_value(&rows[i], Some(k));
        proof {
            values_push(r@, v);
            assert(rows_view(rows@)[i as int] == values_view(rows@[i as int]@));
            assert(all[i as int] == v@);
            assert(all.take(i + 1) =~= all.take(i as int).push(v@));
        }
        r.push(v);
        i = i + 1;
    }
    assert(all.take(rows.len() as int) =~= all);
    r
}

fn resolve_window_arg(n: &Names, rows: &Vec<Vec<Value>>, args: &Vec<Expr>) -> (r: Option<Vec<Value>>)
    ensures
        opt_values(r) == window_arg(n@, rows_view(rows@), exprs_view(args@)),
        r matches Some(c) ==> c@.len() == rows@.len(),
{
    proof {
        broadcast use {exprs_at, exprs_len};

        assert(exprs_view(args@).len() == args@.len());
    }
    if args.len() == 0 {
        return None;
    }
    proof {
        assert(exprs_view(args@)[0] == args@[0]@);
        args@[0].unfold();
    }
    match &args[0] {
        Expr::Column(c) => match find_index(&n.columns, c.as_str()) {
            Some(i) => Some(take_values(rows, i)),
            None => None,
        },
        _ => None,
    }
}

fn find_window_offset(args: &Vec<Expr>) -> (r: u64)
    ensures
        r as nat == window_offset(exprs_view(args@)),
{
    proof {
        broadcast use {exprs_at, exprs_len};

        assert(exprs_view(args@).len() == args@.len());
    }
    if args.len() >= 2 {
        proof {
            assert(exprs_view(args@)[1] == args@[1]@);
            args@[1].unfold();
        }
        match &args[1] {
            Expr::Literal(LiteralValue::Integer(n)) => if *n >= 0 {
                *n as u64
            } else {
                u64::MAX
            },
            _ => 1,
        }
    } else {
        1
    }
}

fn drop_aliases(n: &Names) -> (r: Names)
    ensures
        r@ == unaliased(n@),
{
    let r = Names {
        tables: dup_names(&n.tables),
        aliases: Vec::new(),
        reals: Vec::new(),
        columns: dup_names(&n.columns),
    };
    assert(r@.aliases =~= Seq::empty());
    assert(r@.reals =~= Seq::empty());
    r
}

fn eval_each<'a, U: Fn(Ask) -> Reply>(
    cx: &Reader<'a, U>,
    o: &Vec<Scope>,
    n: &Names,
    rows: &Vec<Vec<Value>>,
    e: &Expr,
) -> (r: Vec<Value>)
    requires
        cx.ready(),
    ensures
        r@.len() == rows@.len(),
        forall|i: int|
            0 <= i < rows@.len() ==> (#[trigger] values_view(r@)[i]) == eval(
                cx.env(),
                scopes_view(o@),
                n@,
                rows_view(rows@)[i],
                e@,
            ),
    decreases cx.depth, 4int, n,
{
    let mut r: Vec<Value> = Vec::new();
    let mut i: usize = 0;
    while i < rows.len()
        invariant
            i <= rows.len(),
            cx.ready(),
            r@.len() == i,
            forall|k: int|
                0 <= k < i ==> (#[trigger] values_view(r@)[k]) == eval(
                    cx.env(),
                    scopes_view(o@),
                    n@,
                    rows_view(rows@)[k],
                    e@,
                ),
        decreases rows.len() - i,
    {
        let v = eval_value(cx, o, n, &rows[i], e);
        proof {
            values_push(r@, v);
            assert(rows_view(rows@)[i as int] == values_view(rows@[i as int]@));
        }
        r.push(v);
        i = i + 1;
    }
    r
}

fn compute_window_item<'a, U: Fn(Ask) -> Reply>(
    cx: &Reader<'a, U>,
    o: &Vec<Scope>,
    n: &Names,
    rows: &Vec<Vec<Value>>,
    c: &SelectColumn,
) -> (r: Vec<Value>)
    requires
        cx.ready(),
    ensures
        values_view(r@) == window_item(cx.env(), scopes_view(o@), n@, rows_view(rows@), c@),
        r@.len() == rows@.len(),
    decreases cx.depth, 5int, n,
{
    let ghost all = window_item(cx.env(), scopes_view(o@), n@, rows_view(rows@), c@);
    proof {
        (*c).unfold();
    }
    match c {
        SelectColumn::Star => {
            let mut r: Vec<Value> = Vec::new();
            let mut i: usize = 0;
            while i < rows.len()
                invariant
                    i <= rows.len(),
                    r@.len() == i,
                    forall|k: int| 0 <= k < i ==> (#[trigger] r@[k])@ == ValueView::Null,
                decreases rows.len() - i,
            {
                r.push(Value::Null);
                i = i + 1;
            }
            assert(values_view(r@) =~= all);
            r
        },
        SelectColumn::Expr(e, _) => {
            proof {
                (*e).unfold();
            }
            match e {
                Expr::WindowFunction { name, args, partition_by, order_by } => {
                    let plain = drop_aliases(n);
                    let parts = make_keys(cx, o, &plain, rows, partition_by);
                    let es = list_order_exprs(order_by);
                    let keys = make_keys(cx, o, &plain, rows, &es);
                    let d = list_directions(order_by);
                    let col = resolve_window_arg(n, rows, args);
                    let f = name.to_uppercase();
                    compute_window_function(cx.u, f.as_str(), &parts, &keys, &d, &col, find_window_offset(args))
                },
                Expr::Column(name) => {
                    let i: usize = match find_index(&n.columns, name.as_str()) {
                        Some(i) => i,
                        None => 0,
                    };
                    take_values(rows, i)
                },
                _ => {
                    let r = eval_each(cx, o, n, rows, e);
                    assert(values_view(r@) =~= all);
                    r
                },
            }
        },
    }
}

fn compute_window_items<'a, U: Fn(Ask) -> Reply>(
    cx: &Reader<'a, U>,
    o: &Vec<Scope>,
    n: &Names,
    rows: &Vec<Vec<Value>>,
    cols: &Vec<SelectColumn>,
) -> (r: Vec<Vec<Value>>)
    requires
        cx.ready(),
    ensures
        rows_view(r@) == window_items(cx.env(), scopes_view(o@), n@, rows_view(rows@), select_columns_view(cols@)),
        forall|j: int| 0 <= j < r@.len() ==> (#[trigger] r@[j])@.len() == rows@.len(),
    decreases cx.depth, 6int, n,
{
    let ghost all = window_items(cx.env(), scopes_view(o@), n@, rows_view(rows@), select_columns_view(cols@));
    let mut r: Vec<Vec<Value>> = Vec::new();
    let mut i: usize = 0;
    proof {
        broadcast use select_columns_len;

        assert(all.len() == cols@.len());
        assert(rows_view(r@) =~= all.take(0));
    }
    while i < cols.len()
        invariant
            i <= cols.len(),
            cx.ready(),
            all == window_items(cx.env(), scopes_view(o@), n@, rows_view(rows@), select_columns_view(cols@)),
            all.len() == cols@.len(),
            rows_view(r@) == all.take(i as int),
            forall|j: int| 0 <= j < r@.len() ==> (#[trigger] r@[j])@.len() == rows@.len(),
        decreases cols.len() - i,
    {
        let v = compute_window_item(cx, o, n, rows, &cols[i]);
        proof {
            broadcast use {select_columns_at, select_columns_len};

            assert(select_columns_view(cols@)[i as int] == cols@[i as int]@);
            rows_push(r@, v);
            assert(all[i as int] == values_view(v@));
            assert(all.take(i + 1) =~= all.take(i as int).push(values_view(v@)));
        }
        r.push(v);
        i = i + 1;
    }
    assert(all.take(cols.len() as int) =~= all);
    r
}

fn row_across(items: &Vec<Vec<Value>>, i: usize, Ghost(rows): Ghost<nat>) -> (r: Vec<Value>)
    requires
        i < rows,
        forall|j: int| 0 <= j < items@.len() ==> (#[trigger] items@[j])@.len() == rows,
    ensures
        values_view(r@) == from_columns(rows_view(items@), rows)[i as int],
{
    let ghost all = from_columns(rows_view(items@), rows)[i as int];
    let mut r: Vec<Value> = Vec::new();
    let mut j: usize = 0;
    assert(values_view(r@) =~= all.take(0));
    while j < items.len()
        invariant
            j <= items.len(),
            i < rows,
            all.len() == items@.len(),
            forall|j: int| 0 <= j < items@.len() ==> (#[trigger] items@[j])@.len() == rows,
            all == from_columns(rows_view(items@), rows)[i as int],
            values_view(r@) == all.take(j as int),
        decreases items.len() - j,
    {
        let v = items[j][i].dup();
        proof {
            values_push(r@, v);
            assert(rows_view(items@)[j as int] == values_view(items@[j as int]@));
            assert(all[j as int] == v@);
            assert(all.take(j + 1) =~= all.take(j as int).push(v@));
        }
        r.push(v);
        j = j + 1;
    }
    assert(all.take(items.len() as int) =~= all);
    r
}

fn turn(items: &Vec<Vec<Value>>, rows: usize) -> (r: Vec<Vec<Value>>)
    requires
        forall|j: int| 0 <= j < items@.len() ==> (#[trigger] items@[j])@.len() == rows,
    ensures
        rows_view(r@) == from_columns(rows_view(items@), rows as nat),
{
    let ghost all = from_columns(rows_view(items@), rows as nat);
    let mut r: Vec<Vec<Value>> = Vec::new();
    let mut i: usize = 0;
    assert(rows_view(r@) =~= all.take(0));
    while i < rows
        invariant
            i <= rows,
            all.len() == rows,
            forall|j: int| 0 <= j < items@.len() ==> (#[trigger] items@[j])@.len() == rows,
            all == from_columns(rows_view(items@), rows as nat),
            rows_view(r@) == all.take(i as int),
        decreases rows - i,
    {
        let row = row_across(items, i, Ghost(rows as nat));
        proof {
            rows_push(r@, row);
            assert(all.take(i + 1) =~= all.take(i as int).push(values_view(row@)));
        }
        r.push(row);
        i = i + 1;
    }
    assert(all.take(rows as int) =~= all);
    r
}

/// Applies a select list to the rows of a query.
fn apply_projection<'a, U: Fn(Ask) -> Reply>(
    cx: &Reader<'a, U>,
    o: &Vec<Scope>,
    n: &Names,
    rel: Relation,
    cols: &Vec<SelectColumn>,
) -> (r: Relation)
    requires
        cx.ready(),
    ensures
        r@ == projected(cx.env(), scopes_view(o@), n@, rel@, select_columns_view(cols@)),
    decreases cx.depth, 7int, n,
{
    if list_has_star(cols) {
        return rel;
    }
    if list_has_window(cols) {
        let items = compute_window_items(cx, o, n, &rel.rows, cols);
        return Relation { columns: name_columns(cols, true), rows: turn(&items, rel.rows.len()) };
    }
    let ghost p = projected(cx.env(), scopes_view(o@), n@, rel@, select_columns_view(cols@));
    let ghost all = p.rows;
    let mut rows: Vec<Vec<Value>> = Vec::new();
    let mut i: usize = 0;
    assert(rows_view(rows@) =~= all.take(0));
    while i < rel.rows.len()
        invariant
            i <= rel.rows.len(),
            cx.ready(),
            !has_star(select_columns_view(cols@)),
            !has_window(select_columns_view(cols@)),
            all == projected(cx.env(), scopes_view(o@), n@, rel@, select_columns_view(cols@)).rows,
            all.len() == rel.rows@.len(),
            rows_view(rows@) == all.take(i as int),
        decreases rel.rows.len() - i,
    {
        let row = project_row(cx, o, n, &rel.rows[i], cols);
        proof {
            assert(rel@.rows[i as int] == values_view(rel.rows@[i as int]@));
            rows_push(rows@, row);
            assert(all[i as int] == values_view(row@));
            assert(all.take(i + 1) =~= all.take(i as int).push(values_view(row@)));
        }
        rows.push(row);
        i = i + 1;
    }
    assert(all.take(rel.rows.len() as int) =~= all);
    Relation { columns: name_columns(cols, false), rows }
}

fn condense<'a, U: Fn(Ask) -> Reply>(cx: &Reader<'a, U>, o: &Vec<Scope>, q: &SelectStmt, read: Relation) -> (r: Relation)
    requires
        cx.ready(),
    ensures
        r@ == condensed(cx.env(), scopes_view(o@), q@, read@),
    decreases cx.depth, 7int, q,
{
    proof {
        broadcast use exprs_len;

        (*q).unfold();
        assert(q@.group_by.len() == q.group_by@.len());
    }
    let n = make_names(q, &read.columns);
    let rows = apply_filter(cx, o, &n, read.rows, &q.where_clause);
    let met = Relation { columns: read.columns, rows };
    if q.group_by.len() > 0 || has_aggregate_functions(&q.columns) {
        let calls = collect_query_calls(&q.columns, &q.having);
        let g = group_rows(cx.u, &met, &q.group_by, &calls);
        let n = make_names(q, &g.columns);
        let rows = apply_filter(cx, o, &n, g.rows, &q.having);
        Relation { columns: g.columns, rows }
    } else {
        met
    }
}

/// Does to the rows that a query reads what the query asks for.
fn finish<'a, U: Fn(Ask) -> Reply>(cx: &Reader<'a, U>, o: &Vec<Scope>, q: &SelectStmt, read: Relation) -> (r: Relation)
    requires
        cx.ready(),
    ensures
        r@ == finished(cx.env(), scopes_view(o@), q@, read@),
    decreases cx.depth, 8int, q,
{
    proof {
        (*q).unfold();
    }
    let c = condense(cx, o, q, read);
    let n = make_names(q, &c.columns);
    let first = match q.offset {
        Some(k) => k == 0,
        None => q.limit.is_some(),
    };
    proof {
        broadcast use order_by_exprs_len;

        assert(order_by_exprs_view(q.order_by@).len() == q.order_by@.len());
    }
    let sorted = if first && q.order_by.len() > 0 {
        apply_top_n(cx.u, &c.columns, c.rows, &q.order_by)
    } else {
        apply_sort(cx, o, &n, c.rows, &q.order_by)
    };
    let rows = apply_limit(sorted, q.limit, q.offset);
    let p = apply_projection(cx, o, &n, Relation { columns: c.columns, rows }, &q.columns);
    if q.distinct {
        let rows = distinct_rows(&p.rows);
        Relation { columns: p.columns, rows }
    } else {
        p
    }
}

spec fn db_view(r: crate::error::Result<Vec<Source>>) -> Result<Seq<SourceView>, ErrorView> {
    match r {
        Ok(db) => Ok(sources_view(db@)),
        Err(e) => Err(e@),
    }
}

/// Runs a nested query over the tables `db`.
pub fn run_below<'a, U: Fn(Ask) -> Reply>(cx: &Reader<'a, U>, db: &Vec<Source>, o: &Vec<Scope>, q: &SelectStmt) -> (r: crate::error::Result<Relation>)
    requires
        cx.ready(),
    ensures
        outcome_view(r) == (cx.env().sub)(q@, sources_view(db@), scopes_view(o@)),
    decreases cx.depth, 0int, q,
{
    proof {
        lemma_sub(model(cx.u), cx.known(), sources_view(cx.db@), cx.depth as nat, q@, sources_view(db@), scopes_view(o@));
    }
    if cx.depth == 0 {
        return Err(QueryError::Execution("queries nested too deep".to_string()));
    }
    let below = Reader { u: cx.u, now: cx.now, counts: cx.counts, db, depth: cx.depth - 1 };
    run_query(&below, o, q)
}

pub proof fn lemma_ctes_stop(env: Env, o: Seq<ScopeView>, ctes: Seq<CteView>, i: int)
    requires
        0 <= i <= ctes.len(),
        with_ctes(env, o, ctes.take(i)) is Err,
    ensures
        with_ctes(env, o, ctes) == with_ctes(env, o, ctes.take(i)),
    decreases ctes.len() - i,
{
    if i < ctes.len() {
        assert(ctes.take(i + 1).drop_last() =~= ctes.take(i));
        lemma_ctes_stop(env, o, ctes, i + 1);
    } else {
        assert(ctes.take(i) =~= ctes);
    }
}

/// Runs the queries of a WITH clause and of FROM, and adds their rows to the tables.
fn materialize_cte<'a, U: Fn(Ask) -> Reply>(cx: &Reader<'a, U>, o: &Vec<Scope>, q: &SelectStmt) -> (r: crate::error::Result<Vec<Source>>)
    requires
        cx.ready(),
    ensures
        db_view(r) == with_from(cx.env(), scopes_view(o@), q@),
    decreases cx.depth, 8int, q,
{
    let ghost env = cx.env();
    let ghost ov = scopes_view(o@);
    let ghost all = ctes_view(q.ctes@);
    let mut db = dup_sources(cx.db);
    let mut i: usize = 0;
    proof {
        broadcast use ctes_len;

        (*q).unfold();
        q.from.unfold();
        assert(all.take(0).len() == 0);
    }
    while i < q.ctes.len()
        invariant
            i <= q.ctes.len(),
            cx.ready(),
            env == cx.env(),
            ov == scopes_view(o@),
            all == ctes_view(q.ctes@),
            all.len() == q.ctes@.len(),
            q@.ctes == all,
            with_ctes(env, ov, all.take(i as int)) == Ok::<Seq<SourceView>, ErrorView>(sources_view(db@)),
        decreases q.ctes.len() - i,
    {
        proof {
            broadcast use ctes_at;

            assert(all[i as int] == q.ctes@[i as int]@);
            q.ctes@[i as int].unfold();
            assert(all.take(i + 1).drop_last() =~= all.take(i as int));
            assert(all.take(i + 1).last() == all[i as int]);
        }
        match run_below(cx, &db, o, &q.ctes[i].query) {
            Err(e) => {
                proof {
                    lemma_ctes_stop(env, ov, all, i + 1);
                }
                return Err(e);
            },
            Ok(rel) => {
                push_source(&mut db, Source { name: q.ctes[i].name.clone(), rel });
            },
        }
        i = i + 1;
    }
    assert(all.take(q.ctes.len() as int) =~= all);
    match &q.from {
        FromClause::Subquery(inner) => {
            let name = match &q.from_alias {
                Some(a) => a.clone(),
                None => "__subquery__".to_string(),
            };
            match run_below(cx, &db, o, inner) {
                Err(e) => Err(e),
                Ok(rel) => {
                    push_source(&mut db, Source { name, rel });
                    Ok(db)
                },
            }
        },
        _ => Ok(db),
    }
}

/// Runs a query.
pub fn run_query<'a, U: Fn(Ask) -> Reply>(cx: &Reader<'a, U>, o: &Vec<Scope>, q: &SelectStmt) -> (r: crate::error::Result<Relation>)
    requires
        cx.ready(),
    ensures
        outcome_view(r) == select_rel(model(cx.u), cx.known(), sources_view(cx.db@), scopes_view(o@), q@, cx.depth as nat),
    decreases cx.depth, 9int, q,
{
    proof {
        broadcast use ctes_len;

        (*q).unfold();
        q.from.unfold();
        assert(q@.ctes.len() == q.ctes@.len());
    }
    if q.ctes.len() == 0 && !matches!(&q.from, FromClause::Subquery(_)) {
        proof {
            lemma_env(model(cx.u), cx.known(), sources_view(cx.db@), sources_view(cx.db@), cx.depth as nat);
        }
        return match exec_seq_scan(cx.db, q, cx.counts) {
            Err(e) => Err(e),
            Ok(read) => Ok(finish(cx, o, q, read)),
        };
    }
    let db = match materialize_cte(cx, o, q) {
        Ok(db) => db,
        Err(e) => {
            return Err(e);
        },
    };
    let inner = Reader { u: cx.u, now: cx.now, counts: cx.counts, db: &db, depth: cx.depth };
    proof {
        lemma_env(model(cx.u), cx.known(), sources_view(cx.db@), sources_view(db@), cx.depth as nat);
    }
    match exec_seq_scan(&db, q, cx.counts) {
        Err(e) => Err(e),
        Ok(read) => Ok(finish(&inner, o, q, read)),
    }
}

/// The tables do not change what nested queries come to, as those are told their tables.
proof fn lemma_env(m: Unit, known: Known, a: Seq<SourceView>, b: Seq<SourceView>, depth: nat)
    ensures
        env_at(m, known, b, depth) == (Env { m, known, db: b, sub: env_at(m, known, a, depth).sub }),
{
    assert(env_at(m, known, a, depth).sub =~= env_at(m, known, b, depth).sub);
}

// ---- the first rows

/// Whether every sort key is a column.
pub open spec fn plain_keys(by: Seq<OrderByExprView>, columns: Seq<Seq<char>>) -> bool {
    forall|i: int| 0 <= i < by.len() ==> ((#[trigger] by[i]).expr matches ExprView::Column(c) && index_of(columns, c) is Some)
}

proof fn lemma_top_places(by: Seq<OrderByExprView>, columns: Seq<Seq<char>>)
    requires
        plain_keys(by, columns),
    ensures
        top_places(by, columns).len() == by.len(),
        forall|i: int|
            0 <= i < by.len() ==> (#[trigger] top_places(by, columns)[i]).1 == by[i].ascending && index_of(columns, by[i].expr->Column_0)
                == Some(top_places(by, columns)[i].0),
    decreases by.len(),
{
    if by.len() > 0 {
        let d = by.drop_last();
        assert forall|i: int| 0 <= i < d.len() implies ((#[trigger] d[i]).expr matches ExprView::Column(c) && index_of(columns, c) is Some) by {
            assert(d[i] == by[i]);
        }
        lemma_top_places(d, columns);
        assert(by[by.len() - 1].expr is Column);
        let p = top_places(d, columns);
        assert forall|i: int| 0 <= i < by.len() implies (#[trigger] top_places(by, columns)[i]).1 == by[i].ascending && index_of(
            columns,
            by[i].expr->Column_0,
        ) == Some(top_places(by, columns)[i].0) by {
            if i < d.len() {
                assert(top_places(by, columns)[i] == p[i]);
            }
        }
    }
}

/// ORDER BY with LIMIT gives the head of what ORDER BY alone gives, where the keys are columns that
/// hold no null.
pub proof fn law_first_rows_are_the_head(
    env: Env,
    o: Seq<ScopeView>,
    n: NamesView,
    rows: Seq<Seq<ValueView>>,
    by: Seq<OrderByExprView>,
)
    requires
        rows.len() <= usize::MAX,
        by.len() > 0,
        plain_keys(by, n.columns),
        super::sort::all_given(keys_for(env, o, n, rows, order_exprs(by))),
    ensures
        top_arranged(env.m, n.columns, rows, by) == arranged(env, o, n, rows, by),
{
    lemma_top_places(by, n.columns);
    let p = top_places(by, n.columns);
    let keys = keys_for(env, o, n, rows, order_exprs(by));
    let top = top_keys(rows, p);
    assert forall|i: int| 0 <= i < rows.len() implies #[trigger] keys[i] =~= top[i] by {
        let k = eval_all(env, o, n, rows[i], order_exprs(by));
        lemma_eval_all(env, o, n, rows[i], order_exprs(by));
        assert forall|j: int| 0 <= j < by.len() implies #[trigger] k[j] == top[i][j] by {
            assert(k[j] == eval(env, o, n, rows[i], order_exprs(by)[j]));
            assert(by[j].expr is Column);
            assert(index_of(n.columns, by[j].expr->Column_0) == Some(p[j].0));
        }
    }
    assert(keys =~= top);
    let d = top_directions(p);
    let e = settled(by, n.columns, keys);
    assert forall|c: int| 0 <= c < d.len() implies (#[trigger] d[c]).ascending == e[c].ascending by {
        assert(p[c].1 == by[c].ascending);
    }
    super::sort::law_sort_without_nulls(env.m, rows, keys, d, e);
}

proof fn lemma_eval_all(env: Env, o: Seq<ScopeView>, n: NamesView, row: Seq<ValueView>, es: Seq<ExprView>)
    ensures
        eval_all(env, o, n, row, es).len() == es.len(),
        forall|j: int| 0 <= j < es.len() ==> #[trigger] eval_all(env, o, n, row, es)[j] == eval(env, o, n, row, es[j]),
    decreases es.len(),
{
    if es.len() > 0 {
        lemma_eval_all(env, o, n, row, es.drop_last());
    }
}

} // verus!
