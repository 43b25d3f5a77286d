use vstd::prelude::*;
use crate::error::ErrorView;
use crate::parser::ast::{ExprView, JoinClauseView, JoinType, SelectColumnView, SelectStmtView, StatementView};
use crate::planner::logical_plan::{joins_of, list_exprs, select_plan, with_filter, with_groups, with_limit, with_order};
use crate::planner::optimizer::{IndexInfoView, best_seek, chain_counts, chain_edges, chain_plans, chain_tables, conjuncts, filtered, indexed, indexes_of, joined, leader, led_by, limit_down, limit_in_scan, optimized, physical_of, smallest};
use crate::planner::plan::{LogicalPlanView, PhysicalPlanView};
use crate::value::ValueView;
use super::constraints::Run;
use super::dml::no_scopes;
use super::engine::{EngineView, ResultView, informed, plan_of, ran, read_store};
use super::grouping::{CallView, collected, grouped, list_calls, made_call};
use super::join::joined_rows;
use super::keys::even_handed;
use super::meter::{law_index_scan_matches_scan, plan_table, scan_progress, seek_rows, straight};
use super::relation::{RelationView, distinct, limited};
use super::scope::{Env, NamesView, source_of};
use super::select::{arranged, base_table, condensed, cut, env_at, finished, groups, inner_joins, join_all, join_keys, join_tables, kept, kept_if, prefixed, projected, query_names, read_first, read_from, read_order, rehung, some_names, takes_top, top_arranged, with_from};
use super::show::catalog_of;
use super::store::{StoreView, sources_of, table_index};

verus! {

// ---- carrying out plans

/// The calls of expressions: one that is a call, and otherwise the calls of aggregates in it.
pub open spec fn expr_calls(es: Seq<ExprView>) -> Seq<CallView>
    decreases es.len(),
{
    if es.len() == 0 {
        Seq::empty()
    } else {
        expr_calls(es.drop_last()) + (match es.last() {
            ExprView::Function { name, args } => seq![made_call(name, args)],
            e => collected(e),
        })
    }
}

/// The rows of two plans, joined.
pub open spec fn join_two(
    l: Option<RelationView>,
    r: Option<RelationView>,
    lt: Option<Seq<char>>,
    rt: Option<Seq<char>>,
    condition: ExprView,
    how: JoinType,
) -> Option<RelationView> {
    match (l, r) {
        (Some(a), Some(b)) => match join_keys(condition, a.columns, b.columns) {
            None => None,
            Some((li, ri)) => Some(
                RelationView {
                    columns: prefixed(lt, a.columns) + prefixed(rt, b.columns),
                    rows: joined_rows(a.rows, b.rows, li as nat, ri as nat, a.columns.len(), b.columns.len(), how),
                },
            ),
        },
        _ => None,
    }
}

/// The rows that carrying out a plan of the query `q` gives, over the tables of `env`, of which `s`
/// tells the columns and the indexes; nothing where it fails. Where rows have changes that not every
/// transaction sees (`mixed`), indexes are left alone.
pub open spec fn carried(env: Env, q: SelectStmtView, s: StoreView, mixed: bool, p: PhysicalPlanView) -> Option<RelationView>
    decreases p,
{
    match p {
        PhysicalPlanView::SeqScan { table, filter, limit, needed_columns: _ } => match source_of(env.db, table) {
            None => None,
            Some(rel) => Some(
                RelationView {
                    columns: rel.columns,
                    rows: scan_progress(env, query_names(q, rel.columns), rel.rows, filter, limit).found,
                },
            ),
        },
        PhysicalPlanView::IndexScan { table, index_name: _, column, op, value, filter, limit } => match source_of(env.db, table) {
            None => None,
            Some(rel) => Some(
                RelationView {
                    columns: rel.columns,
                    rows: scan_progress(
                        env,
                        query_names(q, rel.columns),
                        match table_index(s, table) {
                            Some(i) => seek_rows(env, s.tables[i], rel.rows, column, op, value, mixed),
                            None => rel.rows,
                        },
                        filter,
                        limit,
                    ).found,
                },
            ),
        },
        PhysicalPlanView::Filter { input, predicate } => match carried(env, q, s, mixed, *input) {
            None => None,
            Some(r) => Some(
                RelationView { columns: r.columns, rows: kept(env, no_scopes(), query_names(q, r.columns), r.rows, predicate) },
            ),
        },
        PhysicalPlanView::HashJoin { left, right, condition, join_type } => join_two(
            carried(env, q, s, mixed, *left),
            carried(env, q, s, mixed, *right),
            plan_table(*left),
            plan_table(*right),
            condition,
            join_type,
        ),
        PhysicalPlanView::NestedLoopJoin { left, right, condition, join_type } => join_two(
            carried(env, q, s, mixed, *left),
            carried(env, q, s, mixed, *right),
            plan_table(*left),
            plan_table(*right),
            condition,
            join_type,
        ),
        PhysicalPlanView::HashAggregate { input, group_by, aggregates, having } => match carried(env, q, s, mixed, *input) {
            None => None,
            Some(r) => {
                let calls = expr_calls(aggregates) + (match having {
                    Some(e) => collected(e),
                    None => Seq::empty(),
                });
                let g = grouped(env.m, r, group_by, calls);
                Some(
                    RelationView { columns: g.columns, rows: kept_if(env, no_scopes(), query_names(q, g.columns), g.rows, having) },
                )
            },
        },
        PhysicalPlanView::Sort { input, order_by } => match carried(env, q, s, mixed, *input) {
            None => None,
            Some(r) => Some(
                RelationView { columns: r.columns, rows: arranged(env, no_scopes(), query_names(q, r.columns), r.rows, order_by) },
            ),
        },
        PhysicalPlanView::Limit { input, count, offset } => match *input {
            PhysicalPlanView::Sort { input: below, order_by } if offset == 0 => match carried(env, q, s, mixed, *below) {
                None => None,
                Some(r) => Some(
                    RelationView {
                        columns: r.columns,
                        rows: limited(top_arranged(env.m, r.columns, r.rows, order_by), count as nat, 0),
                    },
                ),
            },
            _ => match carried(env, q, s, mixed, *input) {
                None => None,
                Some(r) => Some(RelationView { columns: r.columns, rows: limited(r.rows, count as nat, offset as nat) }),
            },
        },
        PhysicalPlanView::Project { input, columns } => match carried(env, q, s, mixed, *input) {
            None => None,
            Some(r) => Some(projected(env, no_scopes(), query_names(q, r.columns), r, columns)),
        },
        PhysicalPlanView::Distinct { input } => match carried(env, q, s, mixed, *input) {
            None => None,
            Some(r) => Some(RelationView { columns: r.columns, rows: distinct(r.rows) }),
        },
        _ => None,
    }
}

// ---- scans

/// The rows that a scan finds: those that meet the condition, no more than it may give.
proof fn lemma_scan_found(env: Env, n: NamesView, rows: Seq<Seq<ValueView>>, filter: Option<ExprView>, limit: Option<usize>)
    ensures
        ({
            let all = kept_if(env, no_scopes(), n, rows, filter);
            scan_progress(env, n, rows, filter, limit).found == (match limit {
                None => all,
                Some(l) => {
                    let m = if l == 0 {
                        1int
                    } else {
                        l as int
                    };
                    if all.len() <= m {
                        all
                    } else {
                        all.take(m)
                    }
                },
            })
        }),
    decreases rows.len(),
{
    if rows.len() == 0 {
        assert(kept_if(env, no_scopes(), n, rows, filter) =~= Seq::empty());
    } else {
        let d = rows.drop_last();
        lemma_scan_found(env, n, d, filter, limit);
        let all = kept_if(env, no_scopes(), n, rows, filter);
        let before = kept_if(env, no_scopes(), n, d, filter);
        if filter is None {
            assert(all =~= before.push(rows.last()));
        }
        match limit {
            Some(l) => {
                let m = if l == 0 {
                    1int
                } else {
                    l as int
                };
                if all.len() > before.len() {
                    assert(all == before.push(rows.last()));
                    if before.len() >= m {
                        assert(all.take(m) =~= before.take(m));
                        if before.len() == m {
                            assert(before.take(m) =~= before);
                        }
                    }
                }
            },
            None => {},
        }
    }
}

proof fn lemma_limit_twice(all: Seq<Seq<ValueView>>, l: usize)
    ensures
        ({
            let m = if l == 0 {
                1int
            } else {
                l as int
            };
            all.len() > m ==> limited(all.take(m), l as nat, 0) == limited(all, l as nat, 0)
        }),
{
    let m = if l == 0 {
        1int
    } else {
        l as int
    };
    if all.len() > m {
        assert(limited(all.take(m), l as nat, 0) =~= limited(all, l as nat, 0));
    }
}

// ---- joins

pub open spec fn plain_scan(table: Seq<char>) -> PhysicalPlanView {
    PhysicalPlanView::SeqScan { table, filter: None, limit: None, needed_columns: None }
}

pub open spec fn plain_scans(names: Seq<Seq<char>>) -> Seq<PhysicalPlanView> {
    Seq::new(names.len(), |i: int| plain_scan(names[i]))
}

pub open spec fn edges_of(joins: Seq<JoinClauseView>) -> Seq<(ExprView, JoinType)> {
    Seq::new(joins.len(), |i: int| (joins[i].condition, joins[i].join_type))
}

proof fn lemma_chain(t: Seq<char>, joins: Seq<JoinClauseView>, s: Seq<(Seq<char>, u64)>)
    ensures
        chain_tables(joins_of(t, joins)) == some_names(seq![t] + join_tables(joins)),
        chain_edges(joins_of(t, joins)) == edges_of(joins),
        chain_plans(joins_of(t, joins), s) == plain_scans(seq![t] + join_tables(joins)),
    decreases joins.len(),
{
    reveal_with_fuel(physical_of, 2);
    reveal_with_fuel(chain_plans, 2);
    let p = joins_of(t, joins);
    let names = seq![t] + join_tables(joins);
    if joins.len() == 0 {
        assert(names =~= seq![t]);
        assert(chain_tables(p) =~= some_names(names));
        assert(chain_edges(p) =~= edges_of(joins));
        assert(chain_plans(p, s) =~= plain_scans(names));
    } else {
        let d = joins.drop_last();
        lemma_chain(t, d, s);
        let before = seq![t] + join_tables(d);
        assert(names =~= before.push(joins.last().table));
        assert(chain_tables(p) =~= some_names(names));
        assert(chain_edges(p) =~= edges_of(joins));
        assert(chain_plans(p, s) =~= plain_scans(names));
    }
}

proof fn lemma_smallest(c: Seq<u64>)
    requires
        c.len() > 0,
    ensures
        0 <= smallest(c) < c.len(),
    decreases c.len(),
{
    if c.len() > 1 {
        lemma_smallest(c.drop_last());
    }
}

proof fn lemma_counts_len(t: Seq<Option<Seq<char>>>, s: Seq<(Seq<char>, u64)>)
    ensures
        chain_counts(t, s) matches Some(c) ==> c.len() == t.len(),
    decreases t.len(),
{
    if t.len() > 0 {
        lemma_counts_len(t.drop_last(), s);
    }
}

/// The plan that joins the tables of a query reads them in the order of the query.
proof fn lemma_join_plan(t: Seq<char>, joins: Seq<JoinClauseView>, s: Seq<(Seq<char>, u64)>)
    ensures
        physical_of(joins_of(t, joins), s) == joined(plain_scans(read_order(t, joins, s)), edges_of(joins)),
        read_order(t, joins, s).len() == joins.len() + 1,
        joins.len() == 0 ==> read_order(t, joins, s)[0] == t,
{
    let p = joins_of(t, joins);
    let names = seq![t] + join_tables(joins);
    let k = read_first(names, joins, s);
    lemma_chain(t, joins, s);
    lemma_counts_len(some_names(names), s);
    match chain_counts(some_names(names), s) {
        Some(c) => {
            lemma_smallest(c);
        },
        None => {},
    }
    assert(0 <= k < names.len());
    if joins.len() == 0 {
        assert(led_by(names, k) =~= seq![t]);
        assert(plain_scans(seq![t])[0] == plain_scan(t));
    } else {
        lemma_chain(t, joins.drop_last(), s);
        let e = edges_of(joins);
        assert(inner_joins(joins) == crate::planner::optimizer::all_inner(e)) by {
            if crate::planner::optimizer::all_inner(e) {
                assert forall|i: int| 0 <= i < joins.len() implies (#[trigger] joins[i]).join_type == JoinType::Inner by {
                    assert(e[i].1 == JoinType::Inner);
                }
            }
        }
        assert(leader(p, s) == k);
        let plans = plain_scans(names);
        assert(plain_scans(led_by(names, k)) =~= led_by(plans, k));
        assert(chain_plans(joins_of(t, joins.drop_last()), s).push(plain_scan(joins.last().table)) =~= plans);
    }
}

/// Carrying out joined scans joins the tables.
proof fn lemma_joins_carried(
    env: Env,
    q: SelectStmtView,
    s: StoreView,
    mixed: bool,
    x: Seq<(Seq<char>, Seq<IndexInfoView>)>,
    order: Seq<Seq<char>>,
    joins: Seq<JoinClauseView>,
)
    requires
        order.len() == joins.len() + 1,
    ensures
        ({
            let p = joined(plain_scans(order), edges_of(joins));
            &&& indexed(p, x) == p
            &&& plan_table(p) == (if joins.len() == 0 {
                Some(order[0])
            } else {
                None
            })
            &&& carried(env, q, s, mixed, p) == (match source_of(env.db, order[0]) {
                None => None,
                Some(rel) => match join_all(env.db, rel, order[0], rehung(joins, order)) {
                    Ok(r) => Some(r),
                    Err(_) => None,
                },
            })
        }),
    decreases joins.len(),
{
    let p = joined(plain_scans(order), edges_of(joins));
    reveal_with_fuel(carried, 2);
    reveal_with_fuel(indexed, 2);
    if joins.len() == 0 {
        assert(p == plain_scan(order[0]));
        match source_of(env.db, order[0]) {
            Some(rel) => {
                lemma_scan_found(env, query_names(q, rel.columns), rel.rows, None, None);
                assert(rehung(joins, order).len() == 0);
            },
            None => {},
        }
    } else {
        let d = joins.drop_last();
        let o = order.drop_last();
        lemma_joins_carried(env, q, s, mixed, x, o, d);
        assert(plain_scans(order).drop_last() =~= plain_scans(o));
        assert(edges_of(joins).drop_last() =~= edges_of(d));
        assert(plain_scans(order).last() == plain_scan(order.last()));
        assert(rehung(joins, order).drop_last() =~= rehung(d, o)) by {
            assert forall|i: int| 0 <= i < d.len() implies rehung(joins, order)[i] == rehung(d, o)[i] by {
                assert(order[i + 1] == o[i + 1]);
            }
        }
        assert(rehung(joins, order).last() == (JoinClauseView { table: order.last(), ..joins.last() }));
        match source_of(env.db, order.last()) {
            Some(rel) => {
                lemma_scan_found(env, query_names(q, rel.columns), rel.rows, None, None);
            },
            None => {},
        }
        assert(o[0] == order[0]);
    }
}

// ---- queries

proof fn lemma_calls(cols: Seq<SelectColumnView>)
    ensures
        list_calls(cols) == expr_calls(list_exprs(cols)),
    decreases cols.len(),
{
    if cols.len() > 0 {
        lemma_calls(cols.drop_last());
        let e = list_exprs(cols);
        match cols.last() {
            SelectColumnView::Star => {
                assert(list_calls(cols) =~= list_calls(cols.drop_last()));
            },
            SelectColumnView::Expr(_, _) => {
                assert(e.drop_last() =~= list_exprs(cols.drop_last()));
            },
        }
    }
}

/// Whether the indexes of a table that a query alone reads hand out what a condition asks for: the
/// parts of the condition that they can help with compare columns of the table with constants of the
/// columns' types. Of joined tables no index is used.
pub open spec fn well_indexed(env: Env, q: SelectStmtView, s: StoreView, e: ExprView) -> bool {
    let t = base_table(q)->0;
    q.joins.len() == 0 ==> (table_index(s, t) matches Some(i) ==> (source_of(env.db, t) matches Some(rel) ==> all_straight(
        env,
        query_names(q, rel.columns),
        s.tables[i],
        e,
    )))
}

/// Whether each part of a condition is `straight`.
pub open spec fn all_straight(env: Env, n: NamesView, t: super::table::TableView, e: ExprView) -> bool {
    forall|k: int| 0 <= k < conjuncts(e).len() ==> straight(env, n, t, #[trigger] conjuncts(e)[k])
}

/// The rows that meet the condition of a query, as its plan reads them.
pub open spec fn met(env: Env, q: SelectStmtView, read: RelationView) -> RelationView {
    RelationView {
        columns: read.columns,
        rows: kept_if(env, no_scopes(), query_names(q, read.columns), read.rows, q.where_clause),
    }
}

/// The plan of the tables and the condition of a query.
pub open spec fn core_plan(q: SelectStmtView, counts: Seq<(Seq<char>, u64)>) -> PhysicalPlanView {
    physical_of(with_filter(joins_of(base_table(q)->0, q.joins), q.where_clause), counts)
}

/// The part of a plan that reads rows gives those that meet the condition; where it may give only so
/// many, these are the first.
proof fn lemma_core(
    env: Env,
    q: SelectStmtView,
    s: StoreView,
    mixed: bool,
    x: Seq<(Seq<char>, Seq<IndexInfoView>)>,
    counts: Seq<(Seq<char>, u64)>,
    n: usize,
)
    requires
        base_table(q) is Some,
        even_handed(env.m),
        q.where_clause matches Some(e) ==> well_indexed(env, q, s, e),
    ensures
        ({
            let p = core_plan(q, counts);
            let got = carried(env, q, s, mixed, indexed(p, x));
            let few = carried(env, q, s, mixed, indexed(limit_in_scan(p, n), x));
            &&& p is SeqScan || p is Filter || p is HashJoin
            &&& !(indexed(p, x) is Sort)
            &&& !(indexed(limit_in_scan(p, n), x) is Sort)
            &&& match read_from(env.db, q, counts) {
                Ok(read) => {
                    &&& got == Some(met(env, q, read))
                    &&& few matches Some(r) && r.columns == read.columns && limited(r.rows, n as nat, 0) == limited(
                        met(env, q, read).rows,
                        n as nat,
                        0,
                    )
                },
                Err(_) => got is None && few is None,
            }
        }),
{
    let t = base_table(q)->0;
    let order = read_order(t, q.joins, counts);
    lemma_join_plan(t, q.joins, counts);
    lemma_joins_carried(env, q, s, mixed, x, order, q.joins);
    let j = physical_of(joins_of(t, q.joins), counts);
    let p = core_plan(q, counts);
    assert(q.where_clause matches Some(e) ==> p == filtered(j, e));
    if q.joins.len() == 0 {
        assert(j == plain_scan(order[0]));
        assert(rehung(q.joins, order).len() == 0);
        lemma_scan_carried(env, q, s, mixed, x, order[0], n);
    } else {
        assert(j is HashJoin);
        assert(limit_in_scan(j, n) == j);
        match q.where_clause {
            Some(e) => {
                assert(p == PhysicalPlanView::Filter { input: Box::new(j), predicate: e });
                assert(limit_in_scan(p, n) == p);
                assert(indexed(p, x) == p);
            },
            None => {},
        }
    }
}

/// A scan of one table gives the rows that meet the condition, whether or not an index helps.
proof fn lemma_scan_carried(
    env: Env,
    q: SelectStmtView,
    s: StoreView,
    mixed: bool,
    x: Seq<(Seq<char>, Seq<IndexInfoView>)>,
    table: Seq<char>,
    n: usize,
)
    requires
        even_handed(env.m),
        base_table(q) == Some(table),
        q.joins.len() == 0,
        q.where_clause matches Some(e) ==> well_indexed(env, q, s, e),
    ensures
        ({
            let p = PhysicalPlanView::SeqScan { table, filter: q.where_clause, limit: None, needed_columns: None };
            let got = carried(env, q, s, mixed, indexed(p, x));
            let few = carried(env, q, s, mixed, indexed(limit_in_scan(p, n), x));
            &&& !(indexed(p, x) is Sort)
            &&& !(indexed(limit_in_scan(p, n), x) is Sort)
            &&& match source_of(env.db, table) {
                Some(read) => {
                    &&& got == Some(met(env, q, read))
                    &&& few matches Some(r) && r.columns == read.columns && limited(r.rows, n as nat, 0) == limited(
                        met(env, q, read).rows,
                        n as nat,
                        0,
                    )
                },
                None => got is None && few is None,
            }
        }),
{
    match source_of(env.db, table) {
        None => {},
        Some(rel) => {
            let names = query_names(q, rel.columns);
            let all = kept_if(env, no_scopes(), names, rel.rows, q.where_clause);
            lemma_scan_found(env, names, rel.rows, q.where_clause, None);
            lemma_scan_found(env, names, rel.rows, q.where_clause, Some(n));
            lemma_limit_twice(all, n);
            match q.where_clause {
                None => {},
                Some(e) => match (indexes_of(x, table), table_index(s, table)) {
                    (Some(i), Some(at)) => match best_seek(i, conjuncts(e)) {
                        Some(k) => {
                            let sought = seek_rows(env, s.tables[at], rel.rows, k.column, k.op, k.value, mixed);
                            assert(all_straight(env, names, s.tables[at], e));
                            law_index_scan_matches_scan(env, names, s.tables[at], rel.rows, i, e, mixed);
                            lemma_scan_found(env, names, sought, q.where_clause, None);
                            lemma_scan_found(env, names, sought, q.where_clause, Some(n));
                        },
                        None => {},
                    },
                    _ => {},
                },
            }
        },
    }
}

/// Carrying out the plan of a query, as the optimizer makes it of what is known, gives the rows that
/// the query gives; where one fails, so does the other. What EXPLAIN shows is what is run.
pub proof fn law_plan_gives_what_the_query_gives(
    env: Env,
    q: SelectStmtView,
    s: StoreView,
    mixed: bool,
    x: Seq<(Seq<char>, Seq<IndexInfoView>)>,
    counts: Seq<(Seq<char>, u64)>,
)
    requires
        base_table(q) is Some,
        even_handed(env.m),
        q.where_clause matches Some(e) ==> well_indexed(env, q, s, e),
    ensures
        select_plan(q) matches Ok(p) && carried(env, q, s, mixed, optimized(p, counts, x)) == (match read_from(env.db, q, counts) {
            Ok(read) => Some(finished(env, no_scopes(), q, read)),
            Err(_) => None,
        }),
{
    let n = match q.limit {
        Some(n) => n,
        None => usize::MAX,
    };
    lemma_core(env, q, s, mixed, x, counts, n);
    lemma_calls(q.columns);
    lemma_shape(q, counts, x, n);
    let p = core_plan(q, counts);
    let a = summed(q, p);
    match read_from(env.db, q, counts) {
        Ok(read) => {
            let m = met(env, q, read);
            let c = condensed(env, no_scopes(), q, read);
            if groups(q) {
                assert(carried(env, q, s, mixed, indexed(a, x)) == Some(c));
                lemma_upper(env, q, s, mixed, x, a, a, c, n);
            } else {
                assert(c == m);
                lemma_upper(env, q, s, mixed, x, p, limit_in_scan(p, n), c, n);
            }
        },
        Err(_) => {
            if groups(q) {
                assert(carried(env, q, s, mixed, indexed(a, x)) is None);
                lemma_upper_fails(env, q, s, mixed, x, a, a, n);
            } else {
                lemma_upper_fails(env, q, s, mixed, x, p, limit_in_scan(p, n), n);
            }
        },
    }
}

/// The plan that groups the rows of another.
pub open spec fn summed(q: SelectStmtView, p: PhysicalPlanView) -> PhysicalPlanView {
    PhysicalPlanView::HashAggregate {
        input: Box::new(p),
        group_by: q.group_by,
        aggregates: list_exprs(q.columns),
        having: q.having,
    }
}

/// The plan of a query is the part that reads its rows, and above it what the query asks for.
proof fn lemma_shape(q: SelectStmtView, counts: Seq<(Seq<char>, u64)>, x: Seq<(Seq<char>, Seq<IndexInfoView>)>, n: usize)
    requires
        base_table(q) is Some,
        n == (match q.limit {
            Some(n) => n,
            None => usize::MAX,
        }),
        core_plan(q, counts) is SeqScan || core_plan(q, counts) is Filter || core_plan(q, counts) is HashJoin,
    ensures
        select_plan(q) is Ok,
        optimized(select_plan(q)->Ok_0, counts, x) == (if groups(q) {
            upper(q, summed(q, core_plan(q, counts)), summed(q, core_plan(q, counts)), x, n)
        } else {
            upper(q, core_plan(q, counts), limit_in_scan(core_plan(q, counts), n), x, n)
        }),
{
    let p = core_plan(q, counts);
    let l0 = with_filter(joins_of(base_table(q)->0, q.joins), q.where_clause);
    let l1 = with_groups(l0, q);
    let l2 = with_order(l1, q);
    let l3 = with_limit(l2, q);
    let l4 = LogicalPlanView::Project { input: Box::new(l3), columns: q.columns };
    let p1 = if groups(q) {
        summed(q, p)
    } else {
        p
    };
    assert(physical_of(l1, counts) == p1);
    let p2 = physical_of(l2, counts);
    let p3 = physical_of(l3, counts);
    let p4 = PhysicalPlanView::Project { input: Box::new(p3), columns: q.columns };
    assert(physical_of(l4, counts) == p4);
    if groups(q) {
        assert(limit_in_scan(p1, n) == p1);
    }
    if q.order_by.len() > 0 {
        assert(p2 == PhysicalPlanView::Sort { input: Box::new(p1), order_by: q.order_by });
        assert(indexed(p2, x) == PhysicalPlanView::Sort { input: Box::new(indexed(p1, x)), order_by: q.order_by });
    } else {
        assert(p2 == p1);
    }
    if q.distinct {
        let p5 = PhysicalPlanView::Distinct { input: Box::new(p4) };
        assert(select_plan(q)->Ok_0 == LogicalPlanView::Distinct { input: Box::new(l4) });
        assert(physical_of(select_plan(q)->Ok_0, counts) == p5);
        assert(limit_down(p5) == p5);
        assert(indexed(p5, x) == PhysicalPlanView::Distinct { input: Box::new(indexed(p4, x)) });
        assert(indexed(p4, x) == PhysicalPlanView::Project { input: Box::new(indexed(p3, x)), columns: q.columns });
        assert(indexed(p3, x) == (if q.limit is Some || q.offset is Some {
            PhysicalPlanView::Limit { input: Box::new(indexed(p2, x)), count: n, offset: skipped(q) }
        } else {
            indexed(p2, x)
        }));
    } else {
        assert(select_plan(q)->Ok_0 == l4);
        let p3d = limit_down(p3);
        assert(limit_down(p4) == PhysicalPlanView::Project { input: Box::new(p3d), columns: q.columns });
        assert(indexed(limit_down(p4), x) == PhysicalPlanView::Project { input: Box::new(indexed(p3d, x)), columns: q.columns });
        if q.limit is Some || q.offset is Some {
            assert(p3 == PhysicalPlanView::Limit { input: Box::new(p2), count: n, offset: skipped(q) });
            let below = if q.order_by.len() == 0 && skipped(q) == 0 {
                limit_in_scan(p1, n)
            } else {
                p2
            };
            assert(p3d == PhysicalPlanView::Limit { input: Box::new(below), count: n, offset: skipped(q) });
            assert(indexed(p3d, x) == PhysicalPlanView::Limit { input: Box::new(indexed(below, x)), count: n, offset: skipped(q) });
        } else {
            assert(p3 == p2);
            assert(p3d == p3);
        }
    }
}

/// How many rows a query passes over.
pub open spec fn skipped(q: SelectStmtView) -> usize {
    match q.offset {
        Some(k) => k,
        None => 0,
    }
}

/// What stands above the rows of a query in its plan: order, limit, select list and DISTINCT. `few`
/// stands for `p` where the limit comes right above it.
pub open spec fn upper(q: SelectStmtView, p: PhysicalPlanView, few: PhysicalPlanView, x: Seq<(Seq<char>, Seq<IndexInfoView>)>, n: usize) -> PhysicalPlanView {
    let sorted = if q.order_by.len() > 0 {
        PhysicalPlanView::Sort { input: Box::new(indexed(p, x)), order_by: q.order_by }
    } else {
        indexed(p, x)
    };
    let cut_off = if q.limit is Some || q.offset is Some {
        PhysicalPlanView::Limit {
            input: Box::new(
                if q.order_by.len() == 0 && skipped(q) == 0 && !q.distinct {
                    indexed(few, x)
                } else {
                    sorted
                },
            ),
            count: n,
            offset: skipped(q),
        }
    } else {
        sorted
    };
    let listed = PhysicalPlanView::Project { input: Box::new(cut_off), columns: q.columns };
    if q.distinct {
        PhysicalPlanView::Distinct { input: Box::new(listed) }
    } else {
        listed
    }
}

proof fn lemma_upper(
    env: Env,
    q: SelectStmtView,
    s: StoreView,
    mixed: bool,
    x: Seq<(Seq<char>, Seq<IndexInfoView>)>,
    p: PhysicalPlanView,
    few: PhysicalPlanView,
    c: RelationView,
    n: usize,
)
    requires
        n == (match q.limit {
            Some(n) => n,
            None => usize::MAX,
        }),
        !(indexed(p, x) is Sort),
        !(indexed(few, x) is Sort),
        carried(env, q, s, mixed, indexed(p, x)) == Some(c),
        carried(env, q, s, mixed, indexed(few, x)) matches Some(r) && r.columns == c.columns && limited(r.rows, n as nat, 0) == limited(
            c.rows,
            n as nat,
            0,
        ),
    ensures
        carried(env, q, s, mixed, upper(q, p, few, x, n)) == ({
            let names = query_names(q, c.columns);
            let in_order = if takes_top(q) {
                top_arranged(env.m, c.columns, c.rows, q.order_by)
            } else {
                arranged(env, no_scopes(), names, c.rows, q.order_by)
            };
            let rows = cut(in_order, q.limit, q.offset);
            let r = projected(env, no_scopes(), names, RelationView { columns: c.columns, rows }, q.columns);
            Some(
                RelationView {
                    columns: r.columns,
                    rows: if q.distinct {
                        distinct(r.rows)
                    } else {
                        r.rows
                    },
                },
            )
        }),
{
    let a = indexed(p, x);
    let sorted = if q.order_by.len() > 0 {
        PhysicalPlanView::Sort { input: Box::new(a), order_by: q.order_by }
    } else {
        a
    };
    let below = if q.order_by.len() == 0 && skipped(q) == 0 && !q.distinct {
        indexed(few, x)
    } else {
        sorted
    };
    let cut_off = if q.limit is Some || q.offset is Some {
        PhysicalPlanView::Limit { input: Box::new(below), count: n, offset: skipped(q) }
    } else {
        sorted
    };
    let listed = PhysicalPlanView::Project { input: Box::new(cut_off), columns: q.columns };
    let names = query_names(q, c.columns);
    assert(carried(env, q, s, mixed, sorted) == Some(
        RelationView { columns: c.columns, rows: arranged(env, no_scopes(), names, c.rows, q.order_by) },
    ));
    let in_order = if takes_top(q) {
        top_arranged(env.m, c.columns, c.rows, q.order_by)
    } else {
        arranged(env, no_scopes(), names, c.rows, q.order_by)
    };
    let rows = cut(in_order, q.limit, q.offset);
    assert(carried(env, q, s, mixed, cut_off) == Some(RelationView { columns: c.columns, rows }));
    assert(carried(env, q, s, mixed, listed) == Some(
        projected(env, no_scopes(), names, RelationView { columns: c.columns, rows }, q.columns),
    ));
}

proof fn lemma_upper_fails(
    env: Env,
    q: SelectStmtView,
    s: StoreView,
    mixed: bool,
    x: Seq<(Seq<char>, Seq<IndexInfoView>)>,
    p: PhysicalPlanView,
    few: PhysicalPlanView,
    n: usize,
)
    requires
        !(indexed(p, x) is Sort),
        !(indexed(few, x) is Sort),
        carried(env, q, s, mixed, indexed(p, x)) is None,
        carried(env, q, s, mixed, indexed(few, x)) is None,
    ensures
        carried(env, q, s, mixed, upper(q, p, few, x, n)) is None,
{
    let a = indexed(p, x);
    let sorted = if q.order_by.len() > 0 {
        PhysicalPlanView::Sort { input: Box::new(a), order_by: q.order_by }
    } else {
        a
    };
    let below = if q.order_by.len() == 0 && skipped(q) == 0 && !q.distinct {
        indexed(few, x)
    } else {
        sorted
    };
    let cut_off = if q.limit is Some || q.offset is Some {
        PhysicalPlanView::Limit { input: Box::new(below), count: n, offset: skipped(q) }
    } else {
        sorted
    };
    let listed = PhysicalPlanView::Project { input: Box::new(cut_off), columns: q.columns };
    assert(carried(env, q, s, mixed, sorted) is None);
    assert(carried(env, q, s, mixed, cut_off) is None);
    assert(carried(env, q, s, mixed, listed) is None);
}

/// What EXPLAIN shows of a query is how its rows come about: carrying out the plan that the engine
/// would show, over what the query's transaction sees, gives the rows that the engine gives.
pub proof fn law_explained_plan_is_run(run: Run, e: EngineView, q: SelectStmtView, txn: Option<u64>, rel: RelationView, mixed: bool)
    requires
        base_table(q) is Some,
        even_handed(run.m),
        ran(run, e, StatementView::Select(q), txn).r == Ok::<ResultView, ErrorView>(ResultView::Rows(rel)),
        q.where_clause matches Some(w) ==> (with_from(query_env(run, e, txn), no_scopes(), q) matches Ok(db) && well_indexed(
            Env { db, ..query_env(run, e, txn) },
            q,
            read_store(e, txn),
            w,
        )),
    ensures
        with_from(query_env(run, e, txn), no_scopes(), q) matches Ok(db) && select_plan(q) matches Ok(p) && carried(
            Env { db, ..query_env(run, e, txn) },
            q,
            read_store(e, txn),
            mixed,
            plan_of(e, p),
        ) == Some(rel),
{
    let env = query_env(run, e, txn);
    let db = with_from(env, no_scopes(), q)->Ok_0;
    law_plan_gives_what_the_query_gives(Env { db, ..env }, q, read_store(e, txn), mixed, catalog_of(e.store.tables), e.counts);
}

/// What a query reads in an engine.
pub open spec fn query_env(run: Run, e: EngineView, txn: Option<u64>) -> Env {
    env_at(run.m, informed(run, e).known, sources_of(read_store(e, txn)), run.depth)
}

} // verus!
