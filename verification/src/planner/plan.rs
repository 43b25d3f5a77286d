use vstd::prelude::*;
use crate::parser::ast::{BinOp, CreateIndexStmt, CreateIndexStmtView, CreateTableStmt, CreateTableStmtView, DropTableStmt, DropTableStmtView, Expr, ExprView, InsertSource, InsertSourceView, JoinType, OrderByExpr, OrderByExprView, SelectColumn, SelectColumnView};
use crate::parser::ast::{assignments_view, dup_assignments, dup_exprs, dup_order_by_exprs, dup_select_columns, exprs_view, order_by_exprs_view, select_columns_view};
use crate::value::{dup_names, names_view};

verus! {

/// What a statement does, step by step.
#[derive(Debug)]
pub enum LogicalPlan {
    Scan { table: String, filter: Option<Expr> },
    Filter { input: Box<LogicalPlan>, predicate: Expr },
    Project { input: Box<LogicalPlan>, columns: Vec<SelectColumn> },
    Join { left: Box<LogicalPlan>, right: Box<LogicalPlan>, condition: Expr, join_type: JoinType },
    Aggregate { input: Box<LogicalPlan>, group_by: Vec<Expr>, aggregates: Vec<Expr>, having: Option<Expr> },
    Sort { input: Box<LogicalPlan>, order_by: Vec<OrderByExpr> },
    Limit { input: Box<LogicalPlan>, count: usize, offset: usize },
    Distinct { input: Box<LogicalPlan> },
    Insert { table: String, columns: Option<Vec<String>>, source: InsertSource },
    Update { table: String, assignments: Vec<(String, Expr)>, filter: Option<Expr> },
    Delete { table: String, filter: Option<Expr> },
    CreateTable(CreateTableStmt),
    DropTable(DropTableStmt),
    CreateIndex(CreateIndexStmt),
    DropIndex(String),
}

/// What contracts say about a `LogicalPlan`.
pub enum LogicalPlanView {
    Scan { table: Seq<char>, filter: Option<ExprView> },
    Filter { input: Box<LogicalPlanView>, predicate: ExprView },
    Project { input: Box<LogicalPlanView>, columns: Seq<SelectColumnView> },
    Join { left: Box<LogicalPlanView>, right: Box<LogicalPlanView>, condition: ExprView, join_type: JoinType },
    Aggregate { input: Box<LogicalPlanView>, group_by: Seq<ExprView>, aggregates: Seq<ExprView>, having: Option<ExprView> },
    Sort { input: Box<LogicalPlanView>, order_by: Seq<OrderByExprView> },
    Limit { input: Box<LogicalPlanView>, count: usize, offset: usize },
    Distinct { input: Box<LogicalPlanView> },
    Insert { table: Seq<char>, columns: Option<Seq<Seq<char>>>, source: InsertSourceView },
    Update { table: Seq<char>, assignments: Seq<(Seq<char>, ExprView)>, filter: Option<ExprView> },
    Delete { table: Seq<char>, filter: Option<ExprView> },
    CreateTable(CreateTableStmtView),
    DropTable(DropTableStmtView),
    CreateIndex(CreateIndexStmtView),
    DropIndex(Seq<char>),
}

impl LogicalPlan {
    #[verifier::opaque]
    pub open spec fn view(&self) -> LogicalPlanView
        decreases self,
    {
        match self {
            LogicalPlan::Scan { table, filter } => LogicalPlanView::Scan { table: table@, filter: match filter { Some(y) => Some(y@), None => None } },
            LogicalPlan::Filter { input, predicate } => LogicalPlanView::Filter { input: Box::new(input@), predicate: predicate@ },
            LogicalPlan::Project { input, columns } => LogicalPlanView::Project { input: Box::new(input@), columns: select_columns_view(columns@) },
            LogicalPlan::Join { left, right, condition, join_type } => LogicalPlanView::Join { left: Box::new(left@), right: Box::new(right@), condition: condition@, join_type: *join_type },
            LogicalPlan::Aggregate { input, group_by, aggregates, having } => LogicalPlanView::Aggregate { input: Box::new(input@), group_by: exprs_view(group_by@), aggregates: exprs_view(aggregates@), having: match having { Some(y) => Some(y@), None => None } },
            LogicalPlan::Sort { input, order_by } => LogicalPlanView::Sort { input: Box::new(input@), order_by: order_by_exprs_view(order_by@) },
            LogicalPlan::Limit { input, count, offset } => LogicalPlanView::Limit { input: Box::new(input@), count: *count, offset: *offset },
            LogicalPlan::Distinct { input } => LogicalPlanView::Distinct { input: Box::new(input@) },
            LogicalPlan::Insert { table, columns, source } => LogicalPlanView::Insert { table: table@, columns: match columns { Some(y) => Some(names_view(y@)), None => None }, source: source@ },
            LogicalPlan::Update { table, assignments, filter } => LogicalPlanView::Update { table: table@, assignments: assignments_view(assignments@), filter: match filter { Some(y) => Some(y@), None => None } },
            LogicalPlan::Delete { table, filter } => LogicalPlanView::Delete { table: table@, filter: match filter { Some(y) => Some(y@), None => None } },
            LogicalPlan::CreateTable(a) => LogicalPlanView::CreateTable(a@),
            LogicalPlan::DropTable(a) => LogicalPlanView::DropTable(a@),
            LogicalPlan::CreateIndex(a) => LogicalPlanView::CreateIndex(a@),
            LogicalPlan::DropIndex(a) => LogicalPlanView::DropIndex(a@),
        }
    }

    /// A copy of the whole value.
    pub fn dup(&self) -> (r: LogicalPlan)
        ensures
            r@ == self@,
        decreases self,
    {
        proof {
            reveal(LogicalPlan::view);
        }
        match self {
            LogicalPlan::Scan { table, filter } => LogicalPlan::Scan { table: table.clone(), filter: match filter { Some(y) => Some(y.dup()), None => None } },
            LogicalPlan::Filter { input, predicate } => LogicalPlan::Filter { input: Box::new(input.dup()), predicate: predicate.dup() },
            LogicalPlan::Project { input, columns } => LogicalPlan::Project { input: Box::new(input.dup()), columns: dup_select_columns(columns) },
            LogicalPlan::Join { left, right, condition, join_type } => LogicalPlan::Join { left: Box::new(left.dup()), right: Box::new(right.dup()), condition: condition.dup(), join_type: *join_type },
            LogicalPlan::Aggregate { input, group_by, aggregates, having } => LogicalPlan::Aggregate { input: Box::new(input.dup()), group_by: dup_exprs(group_by), aggregates: dup_exprs(aggregates), having: match having { Some(y) => Some(y.dup()), None => None } },
            LogicalPlan::Sort { input, order_by } => LogicalPlan::Sort { input: Box::new(input.dup()), order_by: dup_order_by_exprs(order_by) },
            LogicalPlan::Limit { input, count, offset } => LogicalPlan::Limit { input: Box::new(input.dup()), count: *count, offset: *offset },
            LogicalPlan::Distinct { input } => LogicalPlan::Distinct { input: Box::new(input.dup()) },
            LogicalPlan::Insert { table, columns, source } => LogicalPlan::Insert { table: table.clone(), columns: match columns { Some(y) => Some(dup_names(y)), None => None }, source: source.dup() },
            LogicalPlan::Update { table, assignments, filter } => LogicalPlan::Update { table: table.clone(), assignments: dup_assignments(assignments), filter: match filter { Some(y) => Some(y.dup()), None => None } },
            LogicalPlan::Delete { table, filter } => LogicalPlan::Delete { table: table.clone(), filter: match filter { Some(y) => Some(y.dup()), None => None } },
            LogicalPlan::CreateTable(a) => LogicalPlan::CreateTable(a.dup()),
            LogicalPlan::DropTable(a) => LogicalPlan::DropTable(a.dup()),
            LogicalPlan::CreateIndex(a) => LogicalPlan::CreateIndex(a.dup()),
            LogicalPlan::DropIndex(a) => LogicalPlan::DropIndex(a.clone()),
        }
    }
}

impl LogicalPlan {
    /// The view of a value in terms of the views of its parts.
    pub proof fn unfold(self)
        ensures
            self@ == (match self {
            LogicalPlan::Scan { table, filter } => LogicalPlanView::Scan { table: table@, filter: match filter { Some(y) => Some(y@), None => None } },
            LogicalPlan::Filter { input, predicate } => LogicalPlanView::Filter { input: Box::new(input@), predicate: predicate@ },
            LogicalPlan::Project { input, columns } => LogicalPlanView::Project { input: Box::new(input@), columns: select_columns_view(columns@) },
            LogicalPlan::Join { left, right, condition, join_type } => LogicalPlanView::Join { left: Box::new(left@), right: Box::new(right@), condition: condition@, join_type: join_type },
            LogicalPlan::Aggregate { input, group_by, aggregates, having } => LogicalPlanView::Aggregate { input: Box::new(input@), group_by: exprs_view(group_by@), aggregates: exprs_view(aggregates@), having: match having { Some(y) => Some(y@), None => None } },
            LogicalPlan::Sort { input, order_by } => LogicalPlanView::Sort { input: Box::new(input@), order_by: order_by_exprs_view(order_by@) },
            LogicalPlan::Limit { input, count, offset } => LogicalPlanView::Limit { input: Box::new(input@), count: count, offset: offset },
            LogicalPlan::Distinct { input } => LogicalPlanView::Distinct { input: Box::new(input@) },
            LogicalPlan::Insert { table, columns, source } => LogicalPlanView::Insert { table: table@, columns: match columns { Some(y) => Some(names_view(y@)), None => None }, source: source@ },
            LogicalPlan::Update { table, assignments, filter } => LogicalPlanView::Update { table: table@, assignments: assignments_view(assignments@), filter: match filter { Some(y) => Some(y@), None => None } },
            LogicalPlan::Delete { table, filter } => LogicalPlanView::Delete { table: table@, filter: match filter { Some(y) => Some(y@), None => None } },
            LogicalPlan::CreateTable(a) => LogicalPlanView::CreateTable(a@),
            LogicalPlan::DropTable(a) => LogicalPlanView::DropTable(a@),
            LogicalPlan::CreateIndex(a) => LogicalPlanView::CreateIndex(a@),
            LogicalPlan::DropIndex(a) => LogicalPlanView::DropIndex(a@),
        }),
    {
        reveal(LogicalPlan::view);
    }
}

impl Clone for LogicalPlan {
    fn clone(&self) -> (r: Self)
        ensures
            r@ == self@,
    {
        self.dup()
    }
}

/// How a statement is carried out, step by step.
#[derive(Debug)]
pub enum PhysicalPlan {
    SeqScan { table: String, filter: Option<Expr>, limit: Option<usize>, needed_columns: Option<Vec<usize>> },
    IndexScan { table: String, index_name: String, column: String, op: BinOp, value: Expr, filter: Option<Expr>, limit: Option<usize> },
    Filter { input: Box<PhysicalPlan>, predicate: Expr },
    Project { input: Box<PhysicalPlan>, columns: Vec<SelectColumn> },
    HashJoin { left: Box<PhysicalPlan>, right: Box<PhysicalPlan>, condition: Expr, join_type: JoinType },
    NestedLoopJoin { left: Box<PhysicalPlan>, right: Box<PhysicalPlan>, condition: Expr, join_type: JoinType },
    HashAggregate { input: Box<PhysicalPlan>, group_by: Vec<Expr>, aggregates: Vec<Expr>, having: Option<Expr> },
    Sort { input: Box<PhysicalPlan>, order_by: Vec<OrderByExpr> },
    Limit { input: Box<PhysicalPlan>, count: usize, offset: usize },
    Distinct { input: Box<PhysicalPlan> },
    Insert { table: String, columns: Option<Vec<String>>, source: InsertSource },
    Update { table: String, assignments: Vec<(String, Expr)>, filter: Option<Expr> },
    Delete { table: String, filter: Option<Expr> },
    CreateTable(CreateTableStmt),
    DropTable(DropTableStmt),
    CreateIndex(CreateIndexStmt),
    DropIndex(String),
}

/// What contracts say about a `PhysicalPlan`.
pub enum PhysicalPlanView {
    SeqScan { table: Seq<char>, filter: Option<ExprView>, limit: Option<usize>, needed_columns: Option<Seq<usize>> },
    IndexScan { table: Seq<char>, index_name: Seq<char>, column: Seq<char>, op: BinOp, value: ExprView, filter: Option<ExprView>, limit: Option<usize> },
    Filter { input: Box<PhysicalPlanView>, predicate: ExprView },
    Project { input: Box<PhysicalPlanView>, columns: Seq<SelectColumnView> },
    HashJoin { left: Box<PhysicalPlanView>, right: Box<PhysicalPlanView>, condition: ExprView, join_type: JoinType },
    NestedLoopJoin { left: Box<PhysicalPlanView>, right: Box<PhysicalPlanView>, condition: ExprView, join_type: JoinType },
    HashAggregate { input: Box<PhysicalPlanView>, group_by: Seq<ExprView>, aggregates: Seq<ExprView>, having: Option<ExprView> },
    Sort { input: Box<PhysicalPlanView>, order_by: Seq<OrderByExprView> },
    Limit { input: Box<PhysicalPlanView>, count: usize, offset: usize },
    Distinct { input: Box<PhysicalPlanView> },
    Insert { table: Seq<char>, columns: Option<Seq<Seq<char>>>, source: InsertSourceView },
    Update { table: Seq<char>, assignments: Seq<(Seq<char>, ExprView)>, filter: Option<ExprView> },
    Delete { table: Seq<char>, filter: Option<ExprView> },
    CreateTable(CreateTableStmtView),
    DropTable(DropTableStmtView),
    CreateIndex(CreateIndexStmtView),
    DropIndex(Seq<char>),
}

impl PhysicalPlan {
    #[verifier::opaque]
    pub open spec fn view(&self) -> PhysicalPlanView
        decreases self,
    {
        match self {
            PhysicalPlan::SeqScan { table, filter, limit, needed_columns } => PhysicalPlanView::SeqScan { table: table@, filter: match filter { Some(y) => Some(y@), None => None }, limit: *limit, needed_columns: match needed_columns { Some(y) => Some(y@), None => None } },
            PhysicalPlan::IndexScan { table, index_name, column, op, value, filter, limit } => PhysicalPlanView::IndexScan { table: table@, index_name: index_name@, column: column@, op: *op, value: value@, filter: match filter { Some(y) => Some(y@), None => None }, limit: *limit },
            PhysicalPlan::Filter { input, predicate } => PhysicalPlanView::Filter { input: Box::new(input@), predicate: predicate@ },
            PhysicalPlan::Project { input, columns } => PhysicalPlanView::Project { input: Box::new(input@), columns: select_columns_view(columns@) },
            PhysicalPlan::HashJoin { left, right, condition, join_type } => PhysicalPlanView::HashJoin { left: Box::new(left@), right: Box::new(right@), condition: condition@, join_type: *join_type },
            PhysicalPlan::NestedLoopJoin { left, right, condition, join_type } => PhysicalPlanView::NestedLoopJoin { left: Box::new(left@), right: Box::new(right@), condition: condition@, join_type: *join_type },
            PhysicalPlan::HashAggregate { input, group_by, aggregates, having } => PhysicalPlanView::HashAggregate { input: Box::new(input@), group_by: exprs_view(group_by@), aggregates: exprs_view(aggregates@), having: match having { Some(y) => Some(y@), None => None } },
            PhysicalPlan::Sort { input, order_by } => PhysicalPlanView::Sort { input: Box::new(input@), order_by: order_by_exprs_view(order_by@) },
            PhysicalPlan::Limit { input, count, offset } => PhysicalPlanView::Limit { input: Box::new(input@), count: *count, offset: *offset },
            PhysicalPlan::Distinct { input } => PhysicalPlanView::Distinct { input: Box::new(input@) },
            PhysicalPlan::Insert { table, columns, source } => PhysicalPlanView::Insert { table: table@, columns: match columns { Some(y) => Some(names_view(y@)), None => None }, source: source@ },
            PhysicalPlan::Update { table, assignments, filter } => PhysicalPlanView::Update { table: table@, assignments: assignments_view(assignments@), filter: match filter { Some(y) => Some(y@), None => None } },
            PhysicalPlan::Delete { table, filter } => PhysicalPlanView::Delete { table: table@, filter: match filter { Some(y) => Some(y@), None => None } },
            PhysicalPlan::CreateTable(a) => PhysicalPlanView::CreateTable(a@),
            PhysicalPlan::DropTable(a) => PhysicalPlanView::DropTable(a@),
            PhysicalPlan::CreateIndex(a) => PhysicalPlanView::CreateIndex(a@),
            PhysicalPlan::DropIndex(a) => PhysicalPlanView::DropIndex(a@),
        }
    }

    /// A copy of the whole value.
    pub fn dup(&self) -> (r: PhysicalPlan)
        ensures
            r@ == self@,
        decreases self,
    {
        proof {
            reveal(PhysicalPlan::view);
        }
        match self {
            PhysicalPlan::SeqScan { table, filter, limit, needed_columns } => PhysicalPlan::SeqScan { table: table.clone(), filter: match filter { Some(y) => Some(y.dup()), None => None }, limit: *limit, needed_columns: match needed_columns { Some(y) => Some(crate::text::copy_vec(y)), None => None } },
            PhysicalPlan::IndexScan { table, index_name, column, op, value, filter, limit } => PhysicalPlan::IndexScan { table: table.clone(), index_name: index_name.clone(), column: column.clone(), op: *op, value: value.dup(), filter: match filter { Some(y) => Some(y.dup()), None => None }, limit: *limit },
            PhysicalPlan::Filter { input, predicate } => PhysicalPlan::Filter { input: Box::new(input.dup()), predicate: predicate.dup() },
            PhysicalPlan::Project { input, columns } => PhysicalPlan::Project { input: Box::new(input.dup()), columns: dup_select_columns(columns) },
            PhysicalPlan::HashJoin { left, right, condition, join_type } => PhysicalPlan::HashJoin { left: Box::new(left.dup()), right: Box::new(right.dup()), condition: condition.dup(), join_type: *join_type },
            PhysicalPlan::NestedLoopJoin { left, right, condition, join_type } => PhysicalPlan::NestedLoopJoin { left: Box::new(left.dup()), right: Box::new(right.dup()), condition: condition.dup(), join_type: *join_type },
            PhysicalPlan::HashAggregate { input, group_by, aggregates, having } => PhysicalPlan::HashAggregate { input: Box::new(input.dup()), group_by: dup_exprs(group_by), aggregates: dup_exprs(aggregates), having: match having { Some(y) => Some(y.dup()), None => None } },
            PhysicalPlan::Sort { input, order_by } => PhysicalPlan::Sort { input: Box::new(input.dup()), order_by: dup_order_by_exprs(order_by) },
            PhysicalPlan::Limit { input, count, offset } => PhysicalPlan::Limit { input: Box::new(input.dup()), count: *count, offset: *offset },
            PhysicalPlan::Distinct { input } => PhysicalPlan::Distinct { input: Box::new(input.dup()) },
            PhysicalPlan::Insert { table, columns, source } => PhysicalPlan::Insert { table: table.clone(), columns: match columns { Some(y) => Some(dup_names(y)), None => None }, source: source.dup() },
            PhysicalPlan::Update { table, assignments, filter } => PhysicalPlan::Update { table: table.clone(), assignments: dup_assignments(assignments), filter: match filter { Some(y) => Some(y.dup()), None => None } },
            PhysicalPlan::Delete { table, filter } => PhysicalPlan::Delete { table: table.clone(), filter: match filter { Some(y) => Some(y.dup()), None => None } },
            PhysicalPlan::CreateTable(a) => PhysicalPlan::CreateTable(a.dup()),
            PhysicalPlan::DropTable(a) => PhysicalPlan::DropTable(a.dup()),
            PhysicalPlan::CreateIndex(a) => PhysicalPlan::CreateIndex(a.dup()),
            PhysicalPlan::DropIndex(a) => PhysicalPlan::DropIndex(a.clone()),
        }
    }
}

impl PhysicalPlan {
    /// The view of a value in terms of the views of its parts.
    pub proof fn unfold(self)
        ensures
            self@ == (match self {
            PhysicalPlan::SeqScan { table, filter, limit, needed_columns } => PhysicalPlanView::SeqScan { table: table@, filter: match filter { Some(y) => Some(y@), None => None }, limit: limit, needed_columns: match needed_columns { Some(y) => Some(y@), None => None } },
            PhysicalPlan::IndexScan { table, index_name, column, op, value, filter, limit } => PhysicalPlanView::IndexScan { table: table@, index_name: index_name@, column: column@, op: op, value: value@, filter: match filter { Some(y) => Some(y@), None => None }, limit: limit },
            PhysicalPlan::Filter { input, predicate } => PhysicalPlanView::Filter { input: Box::new(input@), predicate: predicate@ },
            PhysicalPlan::Project { input, columns } => PhysicalPlanView::Project { input: Box::new(input@), columns: select_columns_view(columns@) },
            PhysicalPlan::HashJoin { left, right, condition, join_type } => PhysicalPlanView::HashJoin { left: Box::new(left@), right: Box::new(right@), condition: condition@, join_type: join_type },
            PhysicalPlan::NestedLoopJoin { left, right, condition, join_type } => PhysicalPlanView::NestedLoopJoin { left: Box::new(left@), right: Box::new(right@), condition: condition@, join_type: join_type },
            PhysicalPlan::HashAggregate { input, group_by, aggregates, having } => PhysicalPlanView::HashAggregate { input: Box::new(input@), group_by: exprs_view(group_by@), aggregates: exprs_view(aggregates@), having: match having { Some(y) => Some(y@), None => None } },
            PhysicalPlan::Sort { input, order_by } => PhysicalPlanView::Sort { input: Box::new(input@), order_by: order_by_exprs_view(order_by@) },
            PhysicalPlan::Limit { input, count, offset } => PhysicalPlanView::Limit { input: Box::new(input@), count: count, offset: offset },
            PhysicalPlan::Distinct { input } => PhysicalPlanView::Distinct { input: Box::new(input@) },
            PhysicalPlan::Insert { table, columns, source } => PhysicalPlanView::Insert { table: table@, columns: match columns { Some(y) => Some(names_view(y@)), None => None }, source: source@ },
            PhysicalPlan::Update { table, assignments, filter } => PhysicalPlanView::Update { table: table@, assignments: assignments_view(assignments@), filter: match filter { Some(y) => Some(y@), None => None } },
            PhysicalPlan::Delete { table, filter } => PhysicalPlanView::Delete { table: table@, filter: match filter { Some(y) => Some(y@), None => None } },
            PhysicalPlan::CreateTable(a) => PhysicalPlanView::CreateTable(a@),
            PhysicalPlan::DropTable(a) => PhysicalPlanView::DropTable(a@),
            PhysicalPlan::CreateIndex(a) => PhysicalPlanView::CreateIndex(a@),
            PhysicalPlan::DropIndex(a) => PhysicalPlanView::DropIndex(a@),
        }),
    {
        reveal(PhysicalPlan::view);
    }
}

impl Clone for PhysicalPlan {
    fn clone(&self) -> (r: Self)
        ensures
            r@ == self@,
    {
        self.dup()
    }
}

} // verus!
