use vstd::prelude::*;
use vstd::string::*;
use crate::error::{ErrorView, QueryError};
use crate::executor::grouping::{has_aggregate_functions, list_has_aggregate};
use crate::executor::select::base_table;
use crate::parser::ast::{Expr, ExprView, FromClause, JoinClause, JoinClauseView, SelectColumn, SelectColumnView, SelectStmt, SelectStmtView, Statement, StatementView};
use crate::parser::ast::{dup_assignments, dup_exprs, dup_order_by_exprs, dup_select_columns, exprs_len, exprs_push, exprs_view, join_clauses_at, join_clauses_len, join_clauses_view, order_by_exprs_len, select_columns_at, select_columns_len, select_columns_view};
use crate::value::dup_names;
use super::plan::{LogicalPlan, LogicalPlanView};

verus! {

/// A plan that reads a table.
pub open spec fn scan_of(table: Seq<char>) -> LogicalPlanView {
    LogicalPlanView::Scan { table, filter: None }
}

/// The tables of a query, joined from the left to the right.
pub open spec fn joins_of(base: Seq<char>, joins: Seq<JoinClauseView>) -> LogicalPlanView
    decreases joins.len(),
{
    if joins.len() == 0 {
        scan_of(base)
    } else {
        LogicalPlanView::Join {
            left: Box::new(joins_of(base, joins.drop_last())),
            right: Box::new(scan_of(joins.last().table)),
            condition: joins.last().condition,
            join_type: joins.last().join_type,
        }
    }
}

/// The expressions of a select list.
pub open spec fn list_exprs(cols: Seq<SelectColumnView>) -> Seq<ExprView>
    decreases cols.len(),
{
    if cols.len() == 0 {
        Seq::empty()
    } else {
        match cols.last() {
            SelectColumnView::Star => list_exprs(cols.drop_last()),
            SelectColumnView::Expr(e, _) => list_exprs(cols.drop_last()).push(e),
        }
    }
}

pub open spec fn with_filter(p: LogicalPlanView, e: Option<ExprView>) -> LogicalPlanView {
    match e {
        Some(e) => LogicalPlanView::Filter { input: Box::new(p), predicate: e },
        None => p,
    }
}

pub open spec fn with_groups(p: LogicalPlanView, q: SelectStmtView) -> LogicalPlanView {
    if q.group_by.len() > 0 || list_has_aggregate(q.columns) {
        LogicalPlanView::Aggregate {
            input: Box::new(p),
            group_by: q.group_by,
            aggregates: list_exprs(q.columns),
            having: q.having,
        }
    } else {
        p
    }
}

pub open spec fn with_order(p: LogicalPlanView, q: SelectStmtView) -> LogicalPlanView {
    if q.order_by.len() > 0 {
        LogicalPlanView::Sort { input: Box::new(p), order_by: q.order_by }
    } else {
        p
    }
}

pub open spec fn with_limit(p: LogicalPlanView, q: SelectStmtView) -> LogicalPlanView {
    if q.limit is Some || q.offset is Some {
        LogicalPlanView::Limit {
            input: Box::new(p),
            count: match q.limit {
                Some(n) => n,
                None => usize::MAX,
            },
            offset: match q.offset {
                Some(n) => n,
                None => 0,
            },
        }
    } else {
        p
    }
}

/// The plan of a query: its tables, WHERE, grouping, order, limit, select list and DISTINCT, one
/// after the other. Without a table there is no plan.
pub open spec fn select_plan(q: SelectStmtView) -> Result<LogicalPlanView, ErrorView> {
    match base_table(q) {
        None => Err(ErrorView::Plan("SELECT without FROM is handled by the executor"@)),
        Some(t) => {
            let p = with_limit(
                with_order(with_groups(with_filter(joins_of(t, q.joins), q.where_clause), q), q),
                q,
            );
            let p = LogicalPlanView::Project { input: Box::new(p), columns: q.columns };
            Ok(
                if q.distinct {
                    LogicalPlanView::Distinct { input: Box::new(p) }
                } else {
                    p
                },
            )
        },
    }
}

/// The plan of a statement, where it has one.
pub open spec fn logical_of(s: StatementView) -> Result<LogicalPlanView, ErrorView> {
    match s {
        StatementView::Select(q) => select_plan(q),
        StatementView::Insert(q) => Ok(
            LogicalPlanView::Insert { table: q.table, columns: q.columns, source: q.source },
        ),
        StatementView::Update(q) => Ok(
            LogicalPlanView::Update { table: q.table, assignments: q.assignments, filter: q.where_clause },
        ),
        StatementView::Delete(q) => Ok(LogicalPlanView::Delete { table: q.table, filter: q.where_clause }),
        StatementView::CreateTable(q) => Ok(LogicalPlanView::CreateTable(q)),
        StatementView::DropTable(q) => Ok(LogicalPlanView::DropTable(q)),
        StatementView::CreateIndex(q) => Ok(LogicalPlanView::CreateIndex(q)),
        StatementView::DropIndex(n) => Ok(LogicalPlanView::DropIndex(n)),
        _ => Err(ErrorView::Plan("Statement does not produce a logical plan"@)),
    }
}

fn make_scan(table: String) -> (r: LogicalPlan)
    ensures
        r@ == scan_of(table@),
{
    let r = LogicalPlan::Scan { table, filter: None };
    proof {
        r.unfold();
    }
    r
}

fn make_joins(base: String, joins: &Vec<JoinClause>) -> (r: LogicalPlan)
    ensures
        r@ == joins_of(base@, join_clauses_view(joins@)),
{
    let ghost all = join_clauses_view(joins@);
    let ghost b = base@;
    let mut r = make_scan(base);
    let mut i: usize = 0;
    proof {
        broadcast use join_clauses_len;

        assert(all.take(0).len() == 0);
    }
    while i < joins.len()
        invariant
            i <= joins.len(),
            all == join_clauses_view(joins@),
            all.len() == joins@.len(),
            r@ == joins_of(b, all.take(i as int)),
        decreases joins.len() - i,
    {
        proof {
            broadcast use join_clauses_at;

            assert(all[i as int] == joins@[i as int]@);
            joins@[i as int].unfold();
            assert(all.take(i + 1).drop_last() =~= all.take(i as int));
            assert(all.take(i + 1).last() == all[i as int]);
        }
        let right = make_scan(joins[i].table.clone());
        r = LogicalPlan::Join {
            left: Box::new(r),
            right: Box::new(right),
            condition: joins[i].condition.dup(),
            join_type: joins[i].join_type,
        };
        proof {
            r.unfold();
        }
        i = i + 1;
    }
    assert(all.take(joins.len() as int) =~= all);
    r
}

fn collect_exprs(cols: &Vec<SelectColumn>) -> (r: Vec<Expr>)
    ensures
        exprs_view(r@) == list_exprs(select_columns_view(cols@)),
{
    let ghost all = select_columns_view(cols@);
    let mut r: Vec<Expr> = Vec::new();
    let mut i: usize = 0;
    proof {
        broadcast use {select_columns_len, exprs_len};

        assert(all.take(0).len() == 0);
        assert(exprs_view(r@) =~= Seq::empty());
    }
    while i < cols.len()
        invariant
            i <= cols.len(),
            all == select_columns_view(cols@),
            all.len() == cols@.len(),
            exprs_view(r@) == list_exprs(all.take(i as int)),
        decreases cols.len() - i,
    {
        proof {
            broadcast use select_columns_at;

            assert(all[i as int] == cols@[i as int]@);
            cols@[i as int].unfold();
            assert(all.take(i + 1).drop_last() =~= all.take(i as int));
            assert(all.take(i + 1).last() == all[i as int]);
        }
        match &cols[i] {
            SelectColumn::Star => {},
            SelectColumn::Expr(e, _) => {
                let e = e.dup();
                proof {
                    exprs_push(r@, e);
                }
                r.push(e);
            },
        }
        i = i + 1;
    }
    assert(all.take(cols.len() as int) =~= all);
    r
}

spec fn result_view(r: crate::error::Result<LogicalPlan>) -> Result<LogicalPlanView, ErrorView> {
    match r {
        Ok(p) => Ok(p@),
        Err(e) => Err(e@),
    }
}

fn dup_opt(e: &Option<Expr>) -> (r: Option<Expr>)
    ensures
        crate::executor::grouping::opt_expr(r) == crate::executor::grouping::opt_expr(*e),
{
    match e {
        Some(e) => Some(e.dup()),
        None => None,
    }
}

fn build_select_plan(q: &SelectStmt) -> (r: crate::error::Result<LogicalPlan>)
    ensures
        result_view(r) == select_plan(q@),
{
    proof {
        broadcast use {exprs_len, order_by_exprs_len};

        (*q).unfold();
        q.from.unfold();
        assert(q@.group_by.len() == q.group_by@.len());
        assert(q@.order_by.len() == q.order_by@.len());
    }
    let table = match &q.from {
        FromClause::Table(t) => t.clone(),
        FromClause::Subquery(_) => match &q.from_alias {
            Some(a) => a.clone(),
            None => "__subquery__".to_string(),
        },
        FromClause::Absent => {
            return Err(QueryError::Plan("SELECT without FROM is handled by the executor".to_string()));
        },
    };
    let mut plan = make_joins(table, &q.joins);
    let ghost p1 = plan@;
    match &q.where_clause {
        Some(e) => {
            plan = LogicalPlan::Filter { input: Box::new(plan), predicate: e.dup() };
            proof {
                plan.unfold();
            }
        },
        None => {},
    }
    assert(plan@ == with_filter(p1, q@.where_clause));
    let ghost p2 = plan@;
    if q.group_by.len() > 0 || has_aggregate_functions(&q.columns) {
        plan = LogicalPlan::Aggregate {
            input: Box::new(plan),
            group_by: dup_exprs(&q.group_by),
            aggregates: collect_exprs(&q.columns),
            having: dup_opt(&q.having),
        };
        proof {
            plan.unfold();
        }
    }
    assert(plan@ == with_groups(p2, q@));
    let ghost p3 = plan@;
    if q.order_by.len() > 0 {
        plan = LogicalPlan::Sort { input: Box::new(plan), order_by: dup_order_by_exprs(&q.order_by) };
        proof {
            plan.unfold();
        }
    }
    assert(plan@ == with_order(p3, q@));
    let ghost p4 = plan@;
    if q.limit.is_some() || q.offset.is_some() {
        let count: usize = match q.limit {
            Some(n) => n,
            None => usize::MAX,
        };
        let offset: usize = match q.offset {
            Some(n) => n,
            None => 0,
        };
        plan = LogicalPlan::Limit { input: Box::new(plan), count, offset };
        proof {
            plan.unfold();
        }
    }
    assert(plan@ == with_limit(p4, q@));
    plan = LogicalPlan::Project { input: Box::new(plan), columns: dup_select_columns(&q.columns) };
    proof {
        plan.unfold();
    }
    if q.distinct {
        plan = LogicalPlan::Distinct { input: Box::new(plan) };
        proof {
            plan.unfold();
        }
    }
    Ok(plan)
}

/// Makes the plan of a statement.
pub fn build_logical_plan(s: &Statement) -> (r: crate::error::Result<LogicalPlan>)
    ensures
        (match r { Ok(p) => Ok(p@), Err(e) => Err(e@) }) == logical_of(s@),
{
    proof {
        (*s).unfold();
    }
    let plan = match s {
        Statement::Select(q) => {
            return build_select_plan(q);
        },
        Statement::Insert(q) => {
            proof {
                (*q).unfold();
            }
            LogicalPlan::Insert {
                table: q.table.clone(),
                columns: match &q.columns {
                    Some(c) => Some(dup_names(c)),
                    None => None,
                },
                source: q.source.dup(),
            }
        },
        Statement::Update(q) => {
            proof {
                (*q).unfold();
            }
            LogicalPlan::Update {
                table: q.table.clone(),
                assignments: dup_assignments(&q.assignments),
                filter: dup_opt(&q.where_clause),
            }
        },
        Statement::Delete(q) => {
            proof {
                (*q).unfold();
            }
            LogicalPlan::Delete { table: q.table.clone(), filter: dup_opt(&q.where_clause) }
        },
        Statement::CreateTable(q) => LogicalPlan::CreateTable(q.dup()),
        Statement::DropTable(q) => LogicalPlan::DropTable(q.dup()),
        Statement::CreateIndex(q) => LogicalPlan::CreateIndex(q.dup()),
        Statement::DropIndex(n) => LogicalPlan::DropIndex(n.clone()),
        _ => {
            return Err(QueryError::Plan("Statement does not produce a logical plan".to_string()));
        },
    };
    proof {
        plan.unfold();
    }
    Ok(plan)
}

} // verus!
