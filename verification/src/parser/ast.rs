use vstd::prelude::*;
use crate::value::DataType;
use crate::value::{names_view, dup_names};

verus! {

/// How a transaction sees the others.
#[derive(Debug, Clone, Copy, PartialEq, Eq, Structural)]
pub enum IsolationLevel {
    ReadCommitted,
    RepeatableRead,
    Serializable,
}

/// What happens to the rows that refer to a row that goes away.
#[derive(Debug, Clone, Copy, PartialEq, Eq, Structural)]
pub enum FkAction {
    Restrict,
    Cascade,
    SetNull,
}

#[derive(Debug, Clone, Copy, PartialEq, Eq, Structural)]
pub enum JoinType {
    Inner,
    Left,
    Right,
}

#[derive(Debug, Clone, Copy, PartialEq, Eq, Structural)]
pub enum BinOp {
    Eq,
    Neq,
    Lt,
    Gt,
    Lte,
    Gte,
    And,
    Or,
    Plus,
    Minus,
    Mul,
    Div,
    Mod,
    Like,
    Ilike,
}

#[derive(Debug, Clone, Copy, PartialEq, Eq, Structural)]
pub enum UnaryOp {
    Not,
    Neg,
}

/// A constant of a statement. A float is kept as it was written, with its sign apart.
#[derive(Debug)]
pub enum LiteralValue {
    Integer(i64),
    Float { negative: bool, digits: String },
    String(String),
    Bool(bool),
    Null,
    HexBlob(Vec<u8>),
}

/// What contracts say about a `LiteralValue`.
pub enum LiteralValueView {
    Integer(i64),
    Float { negative: bool, digits: Seq<char> },
    String(Seq<char>),
    Bool(bool),
    Null,
    HexBlob(Seq<u8>),
}

impl LiteralValue {
    pub open spec fn view(&self) -> LiteralValueView
        decreases self,
    {
        match self {
            LiteralValue::Integer(a) => LiteralValueView::Integer(*a),
            LiteralValue::Float { negative, digits } => LiteralValueView::Float { negative: *negative, digits: digits@ },
            LiteralValue::String(a) => LiteralValueView::String(a@),
            LiteralValue::Bool(a) => LiteralValueView::Bool(*a),
            LiteralValue::Null => LiteralValueView::Null,
            LiteralValue::HexBlob(a) => LiteralValueView::HexBlob(a@),
        }
    }

    /// A copy of the whole value.
    pub fn dup(&self) -> (r: LiteralValue)
        ensures
            r@ == self@,
        decreases self,
    {
        match self {
            LiteralValue::Integer(a) => LiteralValue::Integer(*a),
            LiteralValue::Float { negative, digits } => LiteralValue::Float { negative: *negative, digits: digits.clone() },
            LiteralValue::String(a) => LiteralValue::String(a.clone()),
            LiteralValue::Bool(a) => LiteralValue::Bool(*a),
            LiteralValue::Null => LiteralValue::Null,
            LiteralValue::HexBlob(a) => LiteralValue::HexBlob(crate::text::copy_vec(a)),
        }
    }
}

impl Clone for LiteralValue {
    fn clone(&self) -> (r: Self)
        ensures
            r@ == self@,
    {
        self.dup()
    }
}

/// An expression.
#[derive(Debug)]
pub enum Expr {
    Literal(LiteralValue),
    Column(String),
    QualifiedColumn(String, String),
    BinaryOp { left: Box<Expr>, op: BinOp, right: Box<Expr> },
    UnaryOp { op: UnaryOp, expr: Box<Expr> },
    Function { name: String, args: Vec<Expr> },
    JsonPath { path: String },
    IsNull(Box<Expr>),
    IsNotNull(Box<Expr>),
    InList { expr: Box<Expr>, list: Vec<Expr> },
    Between { expr: Box<Expr>, low: Box<Expr>, high: Box<Expr> },
    Case { operand: Option<Box<Expr>>, when_clauses: Vec<(Expr, Expr)>, else_result: Option<Box<Expr>> },
    Cast { expr: Box<Expr>, data_type: DataType },
    Subquery(Box<SelectStmt>),
    InSubquery { expr: Box<Expr>, subquery: Box<SelectStmt> },
    Exists(Box<SelectStmt>),
    WindowFunction { name: String, args: Vec<Expr>, partition_by: Vec<Expr>, order_by: Vec<OrderByExpr> },
    Default,
    Interval(String),
}

/// What contracts say about a `Expr`.
pub enum ExprView {
    Literal(LiteralValueView),
    Column(Seq<char>),
    QualifiedColumn(Seq<char>, Seq<char>),
    BinaryOp { left: Box<ExprView>, op: BinOp, right: Box<ExprView> },
    UnaryOp { op: UnaryOp, expr: Box<ExprView> },
    Function { name: Seq<char>, args: Seq<ExprView> },
    JsonPath { path: Seq<char> },
    IsNull(Box<ExprView>),
    IsNotNull(Box<ExprView>),
    InList { expr: Box<ExprView>, list: Seq<ExprView> },
    Between { expr: Box<ExprView>, low: Box<ExprView>, high: Box<ExprView> },
    Case { operand: Option<Box<ExprView>>, when_clauses: Seq<(ExprView, ExprView)>, else_result: Option<Box<ExprView>> },
    Cast { expr: Box<ExprView>, data_type: DataType },
    Subquery(Box<SelectStmtView>),
    InSubquery { expr: Box<ExprView>, subquery: Box<SelectStmtView> },
    Exists(Box<SelectStmtView>),
    WindowFunction { name: Seq<char>, args: Seq<ExprView>, partition_by: Seq<ExprView>, order_by: Seq<OrderByExprView> },
    Default,
    Interval(Seq<char>),
}

impl Expr {
    #[verifier::opaque]
    pub open spec fn view(&self) -> ExprView
        decreases self,
    {
        match self {
            Expr::Literal(a) => ExprView::Literal(a@),
            Expr::Column(a) => ExprView::Column(a@),
            Expr::QualifiedColumn(a, b) => ExprView::QualifiedColumn(a@, b@),
            Expr::BinaryOp { left, op, right } => ExprView::BinaryOp { left: Box::new(left@), op: *op, right: Box::new(right@) },
            Expr::UnaryOp { op, expr } => ExprView::UnaryOp { op: *op, expr: Box::new(expr@) },
            Expr::Function { name, args } => ExprView::Function { name: name@, args: exprs_view(args@) },
            Expr::JsonPath { path } => ExprView::JsonPath { path: path@ },
            Expr::IsNull(a) => ExprView::IsNull(Box::new(a@)),
            Expr::IsNotNull(a) => ExprView::IsNotNull(Box::new(a@)),
            Expr::InList { expr, list } => ExprView::InList { expr: Box::new(expr@), list: exprs_view(list@) },
            Expr::Between { expr, low, high } => ExprView::Between { expr: Box::new(expr@), low: Box::new(low@), high: Box::new(high@) },
            Expr::Case { operand, when_clauses, else_result } => ExprView::Case { operand: match operand { Some(y) => Some(Box::new(y@)), None => None }, when_clauses: when_clauses_view(when_clauses@), else_result: match else_result { Some(y) => Some(Box::new(y@)), None => None } },
            Expr::Cast { expr, data_type } => ExprView::Cast { expr: Box::new(expr@), data_type: *data_type },
            Expr::Subquery(a) => ExprView::Subquery(Box::new(a@)),
            Expr::InSubquery { expr, subquery } => ExprView::InSubquery { expr: Box::new(expr@), subquery: Box::new(subquery@) },
            Expr::Exists(a) => ExprView::Exists(Box::new(a@)),
            Expr::WindowFunction { name, args, partition_by, order_by } => ExprView::WindowFunction { name: name@, args: exprs_view(args@), partition_by: exprs_view(partition_by@), order_by: order_by_exprs_view(order_by@) },
            Expr::Default => ExprView::Default,
            Expr::Interval(a) => ExprView::Interval(a@),
        }
    }

    /// A copy of the whole value.
    pub fn dup(&self) -> (r: Expr)
        ensures
            r@ == self@,
        decreases self,
    {
        proof {
            reveal(Expr::view);
            reveal(OrderByExpr::view);
            reveal(SelectColumn::view);
            reveal(FromClause::view);
            reveal(Cte::view);
            reveal(JoinClause::view);
            reveal(SelectStmt::view);
            reveal(exprs_view);
            reveal(when_clauses_view);
            reveal(order_by_exprs_view);
            reveal(select_columns_view);
            reveal(join_clauses_view);
            reveal(ctes_view);
        }
        match self {
            Expr::Literal(a) => Expr::Literal(a.dup()),
            Expr::Column(a) => Expr::Column(a.clone()),
            Expr::QualifiedColumn(a, b) => Expr::QualifiedColumn(a.clone(), b.clone()),
            Expr::BinaryOp { left, op, right } => Expr::BinaryOp { left: Box::new(left.dup()), op: *op, right: Box::new(right.dup()) },
            Expr::UnaryOp { op, expr } => Expr::UnaryOp { op: *op, expr: Box::new(expr.dup()) },
            Expr::Function { name, args } => Expr::Function { name: name.clone(), args: dup_exprs(args) },
            Expr::JsonPath { path } => Expr::JsonPath { path: path.clone() },
            Expr::IsNull(a) => Expr::IsNull(Box::new(a.dup())),
            Expr::IsNotNull(a) => Expr::IsNotNull(Box::new(a.dup())),
            Expr::InList { expr, list } => Expr::InList { expr: Box::new(expr.dup()), list: dup_exprs(list) },
            Expr::Between { expr, low, high } => Expr::Between { expr: Box::new(expr.dup()), low: Box::new(low.dup()), high: Box::new(high.dup()) },
            Expr::Case { operand, when_clauses, else_result } => Expr::Case { operand: match operand { Some(y) => Some(Box::new(y.dup())), None => None }, when_clauses: dup_when_clauses(when_clauses), else_result: match else_result { Some(y) => Some(Box::new(y.dup())), None => None } },
            Expr::Cast { expr, data_type } => Expr::Cast { expr: Box::new(expr.dup()), data_type: *data_type },
            Expr::Subquery(a) => Expr::Subquery(Box::new(a.dup())),
            Expr::InSubquery { expr, subquery } => Expr::InSubquery { expr: Box::new(expr.dup()), subquery: Box::new(subquery.dup()) },
            Expr::Exists(a) => Expr::Exists(Box::new(a.dup())),
            Expr::WindowFunction { name, args, partition_by, order_by } => Expr::WindowFunction { name: name.clone(), args: dup_exprs(args), partition_by: dup_exprs(partition_by), order_by: dup_order_by_exprs(order_by) },
            Expr::Default => Expr::Default,
            Expr::Interval(a) => Expr::Interval(a.clone()),
        }
    }
}

pub broadcast proof fn expr_view_literal(a: LiteralValue)
    ensures
        #[trigger] Expr::Literal(a).view() == ExprView::Literal(a@),
{
    reveal(Expr::view);
    reveal(OrderByExpr::view);
    reveal(SelectColumn::view);
    reveal(FromClause::view);
    reveal(Cte::view);
    reveal(JoinClause::view);
    reveal(SelectStmt::view);
    reveal(exprs_view);
    reveal(when_clauses_view);
    reveal(order_by_exprs_view);
    reveal(select_columns_view);
    reveal(join_clauses_view);
    reveal(ctes_view);
}

pub broadcast proof fn expr_view_column(a: String)
    ensures
        #[trigger] Expr::Column(a).view() == ExprView::Column(a@),
{
    reveal(Expr::view);
    reveal(OrderByExpr::view);
    reveal(SelectColumn::view);
    reveal(FromClause::view);
    reveal(Cte::view);
    reveal(JoinClause::view);
    reveal(SelectStmt::view);
    reveal(exprs_view);
    reveal(when_clauses_view);
    reveal(order_by_exprs_view);
    reveal(select_columns_view);
    reveal(join_clauses_view);
    reveal(ctes_view);
}

pub broadcast proof fn expr_view_qualified_column(a: String, b: String)
    ensures
        #[trigger] Expr::QualifiedColumn(a, b).view() == ExprView::QualifiedColumn(a@, b@),
{
    reveal(Expr::view);
    reveal(OrderByExpr::view);
    reveal(SelectColumn::view);
    reveal(FromClause::view);
    reveal(Cte::view);
    reveal(JoinClause::view);
    reveal(SelectStmt::view);
    reveal(exprs_view);
    reveal(when_clauses_view);
    reveal(order_by_exprs_view);
    reveal(select_columns_view);
    reveal(join_clauses_view);
    reveal(ctes_view);
}

pub broadcast proof fn expr_view_binary_op(left: Box<Expr>, op: BinOp, right: Box<Expr>)
    ensures
        #[trigger] (Expr::BinaryOp { left, op, right }).view() == (ExprView::BinaryOp { left: Box::new(left@), op: op, right: Box::new(right@) }),
{
    reveal(Expr::view);
    reveal(OrderByExpr::view);
    reveal(SelectColumn::view);
    reveal(FromClause::view);
    reveal(Cte::view);
    reveal(JoinClause::view);
    reveal(SelectStmt::view);
    reveal(exprs_view);
    reveal(when_clauses_view);
    reveal(order_by_exprs_view);
    reveal(select_columns_view);
    reveal(join_clauses_view);
    reveal(ctes_view);
}

pub broadcast proof fn expr_view_unary_op(op: UnaryOp, expr: Box<Expr>)
    ensures
        #[trigger] (Expr::UnaryOp { op, expr }).view() == (ExprView::UnaryOp { op: op, expr: Box::new(expr@) }),
{
    reveal(Expr::view);
    reveal(OrderByExpr::view);
    reveal(SelectColumn::view);
    reveal(FromClause::view);
    reveal(Cte::view);
    reveal(JoinClause::view);
    reveal(SelectStmt::view);
    reveal(exprs_view);
    reveal(when_clauses_view);
    reveal(order_by_exprs_view);
    reveal(select_columns_view);
    reveal(join_clauses_view);
    reveal(ctes_view);
}

pub broadcast proof fn expr_view_function(name: String, args: Vec<Expr>)
    ensures
        #[trigger] (Expr::Function { name, args }).view() == (ExprView::Function { name: name@, args: exprs_view(args@) }),
{
    reveal(Expr::view);
    reveal(OrderByExpr::view);
    reveal(SelectColumn::view);
    reveal(FromClause::view);
    reveal(Cte::view);
    reveal(JoinClause::view);
    reveal(SelectStmt::view);
    reveal(exprs_view);
    reveal(when_clauses_view);
    reveal(order_by_exprs_view);
    reveal(select_columns_view);
    reveal(join_clauses_view);
    reveal(ctes_view);
}

pub broadcast proof fn expr_view_json_path(path: String)
    ensures
        #[trigger] (Expr::JsonPath { path }).view() == (ExprView::JsonPath { path: path@ }),
{
    reveal(Expr::view);
    reveal(OrderByExpr::view);
    reveal(SelectColumn::view);
    reveal(FromClause::view);
    reveal(Cte::view);
    reveal(JoinClause::view);
    reveal(SelectStmt::view);
    reveal(exprs_view);
    reveal(when_clauses_view);
    reveal(order_by_exprs_view);
    reveal(select_columns_view);
    reveal(join_clauses_view);
    reveal(ctes_view);
}

pub broadcast proof fn expr_view_is_null(a: Box<Expr>)
    ensures
        #[trigger] Expr::IsNull(a).view() == ExprView::IsNull(Box::new(a@)),
{
    reveal(Expr::view);
    reveal(OrderByExpr::view);
    reveal(SelectColumn::view);
    reveal(FromClause::view);
    reveal(Cte::view);
    reveal(JoinClause::view);
    reveal(SelectStmt::view);
    reveal(exprs_view);
    reveal(when_clauses_view);
    reveal(order_by_exprs_view);
    reveal(select_columns_view);
    reveal(join_clauses_view);
    reveal(ctes_view);
}

pub broadcast proof fn expr_view_is_not_null(a: Box<Expr>)
    ensures
        #[trigger] Expr::IsNotNull(a).view() == ExprView::IsNotNull(Box::new(a@)),
{
    reveal(Expr::view);
    reveal(OrderByExpr::view);
    reveal(SelectColumn::view);
    reveal(FromClause::view);
    reveal(Cte::view);
    reveal(JoinClause::view);
    reveal(SelectStmt::view);
    reveal(exprs_view);
    reveal(when_clauses_view);
    reveal(order_by_exprs_view);
    reveal(select_columns_view);
    reveal(join_clauses_view);
    reveal(ctes_view);
}

pub broadcast proof fn expr_view_in_list(expr: Box<Expr>, list: Vec<Expr>)
    ensures
        #[trigger] (Expr::InList { expr, list }).view() == (ExprView::InList { expr: Box::new(expr@), list: exprs_view(list@) }),
{
    reveal(Expr::view);
    reveal(OrderByExpr::view);
    reveal(SelectColumn::view);
    reveal(FromClause::view);
    reveal(Cte::view);
    reveal(JoinClause::view);
    reveal(SelectStmt::view);
    reveal(exprs_view);
    reveal(when_clauses_view);
    reveal(order_by_exprs_view);
    reveal(select_columns_view);
    reveal(join_clauses_view);
    reveal(ctes_view);
}

pub broadcast proof fn expr_view_between(expr: Box<Expr>, low: Box<Expr>, high: Box<Expr>)
    ensures
        #[trigger] (Expr::Between { expr, low, high }).view() == (ExprView::Between { expr: Box::new(expr@), low: Box::new(low@), high: Box::new(high@) }),
{
    reveal(Expr::view);
    reveal(OrderByExpr::view);
    reveal(SelectColumn::view);
    reveal(FromClause::view);
    reveal(Cte::view);
    reveal(JoinClause::view);
    reveal(SelectStmt::view);
    reveal(exprs_view);
    reveal(when_clauses_view);
    reveal(order_by_exprs_view);
    reveal(select_columns_view);
    reveal(join_clauses_view);
    reveal(ctes_view);
}

pub broadcast proof fn expr_view_case(operand: Option<Box<Expr>>, when_clauses: Vec<(Expr, Expr)>, else_result: Option<Box<Expr>>)
    ensures
        #[trigger] (Expr::Case { operand, when_clauses, else_result }).view() == (ExprView::Case { operand: match operand { Some(y) => Some(Box::new(y@)), None => None }, when_clauses: when_clauses_view(when_clauses@), else_result: match else_result { Some(y) => Some(Box::new(y@)), None => None } }),
{
    reveal(Expr::view);
    reveal(OrderByExpr::view);
    reveal(SelectColumn::view);
    reveal(FromClause::view);
    reveal(Cte::view);
    reveal(JoinClause::view);
    reveal(SelectStmt::view);
    reveal(exprs_view);
    reveal(when_clauses_view);
    reveal(order_by_exprs_view);
    reveal(select_columns_view);
    reveal(join_clauses_view);
    reveal(ctes_view);
}

pub broadcast proof fn expr_view_cast(expr: Box<Expr>, data_type: DataType)
    ensures
        #[trigger] (Expr::Cast { expr, data_type }).view() == (ExprView::Cast { expr: Box::new(expr@), data_type: data_type }),
{
    reveal(Expr::view);
    reveal(OrderByExpr::view);
    reveal(SelectColumn::view);
    reveal(FromClause::view);
    reveal(Cte::view);
    reveal(JoinClause::view);
    reveal(SelectStmt::view);
    reveal(exprs_view);
    reveal(when_clauses_view);
    reveal(order_by_exprs_view);
    reveal(select_columns_view);
    reveal(join_clauses_view);
    reveal(ctes_view);
}

pub broadcast proof fn expr_view_subquery(a: Box<SelectStmt>)
    ensures
        #[trigger] Expr::Subquery(a).view() == ExprView::Subquery(Box::new(a@)),
{
    reveal(Expr::view);
    reveal(OrderByExpr::view);
    reveal(SelectColumn::view);
    reveal(FromClause::view);
    reveal(Cte::view);
    reveal(JoinClause::view);
    reveal(SelectStmt::view);
    reveal(exprs_view);
    reveal(when_clauses_view);
    reveal(order_by_exprs_view);
    reveal(select_columns_view);
    reveal(join_clauses_view);
    reveal(ctes_view);
}

pub broadcast proof fn expr_view_in_subquery(expr: Box<Expr>, subquery: Box<SelectStmt>)
    ensures
        #[trigger] (Expr::InSubquery { expr, subquery }).view() == (ExprView::InSubquery { expr: Box::new(expr@), subquery: Box::new(subquery@) }),
{
    reveal(Expr::view);
    reveal(OrderByExpr::view);
    reveal(SelectColumn::view);
    reveal(FromClause::view);
    reveal(Cte::view);
    reveal(JoinClause::view);
    reveal(SelectStmt::view);
    reveal(exprs_view);
    reveal(when_clauses_view);
    reveal(order_by_exprs_view);
    reveal(select_columns_view);
    reveal(join_clauses_view);
    reveal(ctes_view);
}

pub broadcast proof fn expr_view_exists(a: Box<SelectStmt>)
    ensures
        #[trigger] Expr::Exists(a).view() == ExprView::Exists(Box::new(a@)),
{
    reveal(Expr::view);
    reveal(OrderByExpr::view);
    reveal(SelectColumn::view);
    reveal(FromClause::view);
    reveal(Cte::view);
    reveal(JoinClause::view);
    reveal(SelectStmt::view);
    reveal(exprs_view);
    reveal(when_clauses_view);
    reveal(order_by_exprs_view);
    reveal(select_columns_view);
    reveal(join_clauses_view);
    reveal(ctes_view);
}

pub broadcast proof fn expr_view_window_function(name: String, args: Vec<Expr>, partition_by: Vec<Expr>, order_by: Vec<OrderByExpr>)
    ensures
        #[trigger] (Expr::WindowFunction { name, args, partition_by, order_by }).view() == (ExprView::WindowFunction { name: name@, args: exprs_view(args@), partition_by: exprs_view(partition_by@), order_by: order_by_exprs_view(order_by@) }),
{
    reveal(Expr::view);
    reveal(OrderByExpr::view);
    reveal(SelectColumn::view);
    reveal(FromClause::view);
    reveal(Cte::view);
    reveal(JoinClause::view);
    reveal(SelectStmt::view);
    reveal(exprs_view);
    reveal(when_clauses_view);
    reveal(order_by_exprs_view);
    reveal(select_columns_view);
    reveal(join_clauses_view);
    reveal(ctes_view);
}

pub broadcast proof fn expr_view_interval(a: String)
    ensures
        #[trigger] Expr::Interval(a).view() == ExprView::Interval(a@),
{
    reveal(Expr::view);
    reveal(OrderByExpr::view);
    reveal(SelectColumn::view);
    reveal(FromClause::view);
    reveal(Cte::view);
    reveal(JoinClause::view);
    reveal(SelectStmt::view);
    reveal(exprs_view);
    reveal(when_clauses_view);
    reveal(order_by_exprs_view);
    reveal(select_columns_view);
    reveal(join_clauses_view);
    reveal(ctes_view);
}

impl Expr {
    /// The view of a value in terms of the views of its parts.
    pub proof fn unfold(self)
        ensures
            self@ == (match self {
            Expr::Literal(a) => ExprView::Literal(a@),
            Expr::Column(a) => ExprView::Column(a@),
            Expr::QualifiedColumn(a, b) => ExprView::QualifiedColumn(a@, b@),
            Expr::BinaryOp { left, op, right } => ExprView::BinaryOp { left: Box::new(left@), op: op, right: Box::new(right@) },
            Expr::UnaryOp { op, expr } => ExprView::UnaryOp { op: op, expr: Box::new(expr@) },
            Expr::Function { name, args } => ExprView::Function { name: name@, args: exprs_view(args@) },
            Expr::JsonPath { path } => ExprView::JsonPath { path: path@ },
            Expr::IsNull(a) => ExprView::IsNull(Box::new(a@)),
            Expr::IsNotNull(a) => ExprView::IsNotNull(Box::new(a@)),
            Expr::InList { expr, list } => ExprView::InList { expr: Box::new(expr@), list: exprs_view(list@) },
            Expr::Between { expr, low, high } => ExprView::Between { expr: Box::new(expr@), low: Box::new(low@), high: Box::new(high@) },
            Expr::Case { operand, when_clauses, else_result } => ExprView::Case { operand: match operand { Some(y) => Some(Box::new(y@)), None => None }, when_clauses: when_clauses_view(when_clauses@), else_result: match else_result { Some(y) => Some(Box::new(y@)), None => None } },
            Expr::Cast { expr, data_type } => ExprView::Cast { expr: Box::new(expr@), data_type: data_type },
            Expr::Subquery(a) => ExprView::Subquery(Box::new(a@)),
            Expr::InSubquery { expr, subquery } => ExprView::InSubquery { expr: Box::new(expr@), subquery: Box::new(subquery@) },
            Expr::Exists(a) => ExprView::Exists(Box::new(a@)),
            Expr::WindowFunction { name, args, partition_by, order_by } => ExprView::WindowFunction { name: name@, args: exprs_view(args@), partition_by: exprs_view(partition_by@), order_by: order_by_exprs_view(order_by@) },
            Expr::Default => ExprView::Default,
            Expr::Interval(a) => ExprView::Interval(a@),
        }),
    {
        reveal(Expr::view);
        reveal(OrderByExpr::view);
        reveal(SelectColumn::view);
        reveal(FromClause::view);
        reveal(Cte::view);
        reveal(JoinClause::view);
        reveal(SelectStmt::view);
        reveal(exprs_view);
        reveal(when_clauses_view);
        reveal(order_by_exprs_view);
        reveal(select_columns_view);
        reveal(join_clauses_view);
        reveal(ctes_view);
    }
}

impl Clone for Expr {
    fn clone(&self) -> (r: Self)
        ensures
            r@ == self@,
    {
        self.dup()
    }
}

/// One key of an ORDER BY.
#[derive(Debug)]
pub struct OrderByExpr {
    pub expr: Expr,
    pub ascending: bool,
    pub nulls_first: Option<bool>,
}

/// What contracts say about a `OrderByExpr`.
pub struct OrderByExprView {
    pub expr: ExprView,
    pub ascending: bool,
    pub nulls_first: Option<bool>,
}

impl OrderByExpr {
    #[verifier::opaque]
    pub open spec fn view(&self) -> OrderByExprView
        decreases self,
    {
        OrderByExprView {
            expr: self.expr@,
            ascending: self.ascending,
            nulls_first: self.nulls_first,
        }
    }

    /// A copy of the whole value.
    pub fn dup(&self) -> (r: OrderByExpr)
        ensures
            r@ == self@,
        decreases self,
    {
        proof {
            reveal(OrderByExpr::view);
            reveal(Expr::view);
            reveal(SelectColumn::view);
            reveal(FromClause::view);
            reveal(Cte::view);
            reveal(JoinClause::view);
            reveal(SelectStmt::view);
            reveal(exprs_view);
            reveal(when_clauses_view);
            reveal(order_by_exprs_view);
            reveal(select_columns_view);
            reveal(join_clauses_view);
            reveal(ctes_view);
        }
        OrderByExpr {
            expr: self.expr.dup(),
            ascending: self.ascending,
            nulls_first: self.nulls_first,
        }
    }
}

pub broadcast proof fn order_by_expr_view_made(expr: Expr, ascending: bool, nulls_first: Option<bool>)
    ensures
        #[trigger] (OrderByExpr { expr, ascending, nulls_first }).view() == (OrderByExprView { expr: expr@, ascending: ascending, nulls_first: nulls_first }),
{
    reveal(OrderByExpr::view);
    reveal(Expr::view);
    reveal(SelectColumn::view);
    reveal(FromClause::view);
    reveal(Cte::view);
    reveal(JoinClause::view);
    reveal(SelectStmt::view);
    reveal(exprs_view);
    reveal(when_clauses_view);
    reveal(order_by_exprs_view);
    reveal(select_columns_view);
    reveal(join_clauses_view);
    reveal(ctes_view);
}

impl OrderByExpr {
    /// The view of a value in terms of the views of its parts.
    pub proof fn unfold(self)
        ensures
            self@ == (OrderByExprView { expr: self.expr@, ascending: self.ascending, nulls_first: self.nulls_first }),
    {
        reveal(OrderByExpr::view);
        reveal(Expr::view);
        reveal(SelectColumn::view);
        reveal(FromClause::view);
        reveal(Cte::view);
        reveal(JoinClause::view);
        reveal(SelectStmt::view);
        reveal(exprs_view);
        reveal(when_clauses_view);
        reveal(order_by_exprs_view);
        reveal(select_columns_view);
        reveal(join_clauses_view);
        reveal(ctes_view);
    }
}

impl Clone for OrderByExpr {
    fn clone(&self) -> (r: Self)
        ensures
            r@ == self@,
    {
        self.dup()
    }
}

/// One item of a select list.
#[derive(Debug)]
pub enum SelectColumn {
    Star,
    Expr(Expr, Option<String>),
}

/// What contracts say about a `SelectColumn`.
pub enum SelectColumnView {
    Star,
    Expr(ExprView, Option<Seq<char>>),
}

impl SelectColumn {
    #[verifier::opaque]
    pub open spec fn view(&self) -> SelectColumnView
        decreases self,
    {
        match self {
            SelectColumn::Star => SelectColumnView::Star,
            SelectColumn::Expr(a, b) => SelectColumnView::Expr(a@, match b { Some(y) => Some(y@), None => None }),
        }
    }

    /// A copy of the whole value.
    pub fn dup(&self) -> (r: SelectColumn)
        ensures
            r@ == self@,
        decreases self,
    {
        proof {
            reveal(SelectColumn::view);
            reveal(Expr::view);
            reveal(OrderByExpr::view);
            reveal(FromClause::view);
            reveal(Cte::view);
            reveal(JoinClause::view);
            reveal(SelectStmt::view);
            reveal(exprs_view);
            reveal(when_clauses_view);
            reveal(order_by_exprs_view);
            reveal(select_columns_view);
            reveal(join_clauses_view);
            reveal(ctes_view);
        }
        match self {
            SelectColumn::Star => SelectColumn::Star,
            SelectColumn::Expr(a, b) => SelectColumn::Expr(a.dup(), match b { Some(y) => Some(y.clone()), None => None }),
        }
    }
}

pub broadcast proof fn select_column_view_expr(a: Expr, b: Option<String>)
    ensures
        #[trigger] SelectColumn::Expr(a, b).view() == SelectColumnView::Expr(a@, match b { Some(y) => Some(y@), None => None }),
{
    reveal(SelectColumn::view);
    reveal(Expr::view);
    reveal(OrderByExpr::view);
    reveal(FromClause::view);
    reveal(Cte::view);
    reveal(JoinClause::view);
    reveal(SelectStmt::view);
    reveal(exprs_view);
    reveal(when_clauses_view);
    reveal(order_by_exprs_view);
    reveal(select_columns_view);
    reveal(join_clauses_view);
    reveal(ctes_view);
}

impl SelectColumn {
    /// The view of a value in terms of the views of its parts.
    pub proof fn unfold(self)
        ensures
            self@ == (match self {
            SelectColumn::Star => SelectColumnView::Star,
            SelectColumn::Expr(a, b) => SelectColumnView::Expr(a@, match b { Some(y) => Some(y@), None => None }),
        }),
    {
        reveal(SelectColumn::view);
        reveal(Expr::view);
        reveal(OrderByExpr::view);
        reveal(FromClause::view);
        reveal(Cte::view);
        reveal(JoinClause::view);
        reveal(SelectStmt::view);
        reveal(exprs_view);
        reveal(when_clauses_view);
        reveal(order_by_exprs_view);
        reveal(select_columns_view);
        reveal(join_clauses_view);
        reveal(ctes_view);
    }
}

impl Clone for SelectColumn {
    fn clone(&self) -> (r: Self)
        ensures
            r@ == self@,
    {
        self.dup()
    }
}

/// What a SELECT reads from.
#[derive(Debug)]
pub enum FromClause {
    Table(String),
    Subquery(Box<SelectStmt>),
    Absent,
}

/// What contracts say about a `FromClause`.
pub enum FromClauseView {
    Table(Seq<char>),
    Subquery(Box<SelectStmtView>),
    Absent,
}

impl FromClause {
    #[verifier::opaque]
    pub open spec fn view(&self) -> FromClauseView
        decreases self,
    {
        match self {
            FromClause::Table(a) => FromClauseView::Table(a@),
            FromClause::Subquery(a) => FromClauseView::Subquery(Box::new(a@)),
            FromClause::Absent => FromClauseView::Absent,
        }
    }

    /// A copy of the whole value.
    pub fn dup(&self) -> (r: FromClause)
        ensures
            r@ == self@,
        decreases self,
    {
        proof {
            reveal(FromClause::view);
            reveal(Expr::view);
            reveal(OrderByExpr::view);
            reveal(SelectColumn::view);
            reveal(Cte::view);
            reveal(JoinClause::view);
            reveal(SelectStmt::view);
            reveal(exprs_view);
            reveal(when_clauses_view);
            reveal(order_by_exprs_view);
            reveal(select_columns_view);
            reveal(join_clauses_view);
            reveal(ctes_view);
        }
        match self {
            FromClause::Table(a) => FromClause::Table(a.clone()),
            FromClause::Subquery(a) => FromClause::Subquery(Box::new(a.dup())),
            FromClause::Absent => FromClause::Absent,
        }
    }
}

pub broadcast proof fn from_clause_view_table(a: String)
    ensures
        #[trigger] FromClause::Table(a).view() == FromClauseView::Table(a@),
{
    reveal(FromClause::view);
    reveal(Expr::view);
    reveal(OrderByExpr::view);
    reveal(SelectColumn::view);
    reveal(Cte::view);
    reveal(JoinClause::view);
    reveal(SelectStmt::view);
    reveal(exprs_view);
    reveal(when_clauses_view);
    reveal(order_by_exprs_view);
    reveal(select_columns_view);
    reveal(join_clauses_view);
    reveal(ctes_view);
}

pub broadcast proof fn from_clause_view_subquery(a: Box<SelectStmt>)
    ensures
        #[trigger] FromClause::Subquery(a).view() == FromClauseView::Subquery(Box::new(a@)),
{
    reveal(FromClause::view);
    reveal(Expr::view);
    reveal(OrderByExpr::view);
    reveal(SelectColumn::view);
    reveal(Cte::view);
    reveal(JoinClause::view);
    reveal(SelectStmt::view);
    reveal(exprs_view);
    reveal(when_clauses_view);
    reveal(order_by_exprs_view);
    reveal(select_columns_view);
    reveal(join_clauses_view);
    reveal(ctes_view);
}

impl FromClause {
    /// The view of a value in terms of the views of its parts.
    pub proof fn unfold(self)
        ensures
            self@ == (match self {
            FromClause::Table(a) => FromClauseView::Table(a@),
            FromClause::Subquery(a) => FromClauseView::Subquery(Box::new(a@)),
            FromClause::Absent => FromClauseView::Absent,
        }),
    {
        reveal(FromClause::view);
        reveal(Expr::view);
        reveal(OrderByExpr::view);
        reveal(SelectColumn::view);
        reveal(Cte::view);
        reveal(JoinClause::view);
        reveal(SelectStmt::view);
        reveal(exprs_view);
        reveal(when_clauses_view);
        reveal(order_by_exprs_view);
        reveal(select_columns_view);
        reveal(join_clauses_view);
        reveal(ctes_view);
    }
}

impl Clone for FromClause {
    fn clone(&self) -> (r: Self)
        ensures
            r@ == self@,
    {
        self.dup()
    }
}

/// A named query of a WITH clause.
#[derive(Debug)]
pub struct Cte {
    pub name: String,
    pub query: SelectStmt,
}

/// What contracts say about a `Cte`.
pub struct CteView {
    pub name: Seq<char>,
    pub query: SelectStmtView,
}

impl Cte {
    #[verifier::opaque]
    pub open spec fn view(&self) -> CteView
        decreases self,
    {
        CteView {
            name: self.name@,
            query: self.query@,
        }
    }

    /// A copy of the whole value.
    pub fn dup(&self) -> (r: Cte)
        ensures
            r@ == self@,
        decreases self,
    {
        proof {
            reveal(Cte::view);
            reveal(Expr::view);
            reveal(OrderByExpr::view);
            reveal(SelectColumn::view);
            reveal(FromClause::view);
            reveal(JoinClause::view);
            reveal(SelectStmt::view);
            reveal(exprs_view);
            reveal(when_clauses_view);
            reveal(order_by_exprs_view);
            reveal(select_columns_view);
            reveal(join_clauses_view);
            reveal(ctes_view);
        }
        Cte {
            name: self.name.clone(),
            query: self.query.dup(),
        }
    }
}

pub broadcast proof fn cte_view_made(name: String, query: SelectStmt)
    ensures
        #[trigger] (Cte { name, query }).view() == (CteView { name: name@, query: query@ }),
{
    reveal(Cte::view);
    reveal(Expr::view);
    reveal(OrderByExpr::view);
    reveal(SelectColumn::view);
    reveal(FromClause::view);
    reveal(JoinClause::view);
    reveal(SelectStmt::view);
    reveal(exprs_view);
    reveal(when_clauses_view);
    reveal(order_by_exprs_view);
    reveal(select_columns_view);
    reveal(join_clauses_view);
    reveal(ctes_view);
}

impl Cte {
    /// The view of a value in terms of the views of its parts.
    pub proof fn unfold(self)
        ensures
            self@ == (CteView { name: self.name@, query: self.query@ }),
    {
        reveal(Cte::view);
        reveal(Expr::view);
        reveal(OrderByExpr::view);
        reveal(SelectColumn::view);
        reveal(FromClause::view);
        reveal(JoinClause::view);
        reveal(SelectStmt::view);
        reveal(exprs_view);
        reveal(when_clauses_view);
        reveal(order_by_exprs_view);
        reveal(select_columns_view);
        reveal(join_clauses_view);
        reveal(ctes_view);
    }
}

impl Clone for Cte {
    fn clone(&self) -> (r: Self)
        ensures
            r@ == self@,
    {
        self.dup()
    }
}

/// One JOIN of a SELECT.
#[derive(Debug)]
pub struct JoinClause {
    pub join_type: JoinType,
    pub table: String,
    pub alias: Option<String>,
    pub condition: Expr,
}

/// What contracts say about a `JoinClause`.
pub struct JoinClauseView {
    pub join_type: JoinType,
    pub table: Seq<char>,
    pub alias: Option<Seq<char>>,
    pub condition: ExprView,
}

impl JoinClause {
    #[verifier::opaque]
    pub open spec fn view(&self) -> JoinClauseView
        decreases self,
    {
        JoinClauseView {
            join_type: self.join_type,
            table: self.table@,
            alias: match self.alias { Some(y) => Some(y@), None => None },
            condition: self.condition@,
        }
    }

    /// A copy of the whole value.
    pub fn dup(&self) -> (r: JoinClause)
        ensures
            r@ == self@,
        decreases self,
    {
        proof {
            reveal(JoinClause::view);
            reveal(Expr::view);
            reveal(OrderByExpr::view);
            reveal(SelectColumn::view);
            reveal(FromClause::view);
            reveal(Cte::view);
            reveal(SelectStmt::view);
            reveal(exprs_view);
            reveal(when_clauses_view);
            reveal(order_by_exprs_view);
            reveal(select_columns_view);
            reveal(join_clauses_view);
            reveal(ctes_view);
        }
        JoinClause {
            join_type: self.join_type,
            table: self.table.clone(),
            alias: match &self.alias { Some(y) => Some(y.clone()), None => None },
            condition: self.condition.dup(),
        }
    }
}

pub broadcast proof fn join_clause_view_made(join_type: JoinType, table: String, alias: Option<String>, condition: Expr)
    ensures
        #[trigger] (JoinClause { join_type, table, alias, condition }).view() == (JoinClauseView { join_type: join_type, table: table@, alias: match alias { Some(y) => Some(y@), None => None }, condition: condition@ }),
{
    reveal(JoinClause::view);
    reveal(Expr::view);
    reveal(OrderByExpr::view);
    reveal(SelectColumn::view);
    reveal(FromClause::view);
    reveal(Cte::view);
    reveal(SelectStmt::view);
    reveal(exprs_view);
    reveal(when_clauses_view);
    reveal(order_by_exprs_view);
    reveal(select_columns_view);
    reveal(join_clauses_view);
    reveal(ctes_view);
}

impl JoinClause {
    /// The view of a value in terms of the views of its parts.
    pub proof fn unfold(self)
        ensures
            self@ == (JoinClauseView { join_type: self.join_type, table: self.table@, alias: match self.alias { Some(y) => Some(y@), None => None }, condition: self.condition@ }),
    {
        reveal(JoinClause::view);
        reveal(Expr::view);
        reveal(OrderByExpr::view);
        reveal(SelectColumn::view);
        reveal(FromClause::view);
        reveal(Cte::view);
        reveal(SelectStmt::view);
        reveal(exprs_view);
        reveal(when_clauses_view);
        reveal(order_by_exprs_view);
        reveal(select_columns_view);
        reveal(join_clauses_view);
        reveal(ctes_view);
    }
}

impl Clone for JoinClause {
    fn clone(&self) -> (r: Self)
        ensures
            r@ == self@,
    {
        self.dup()
    }
}

/// A SELECT.
#[derive(Debug)]
pub struct SelectStmt {
    pub columns: Vec<SelectColumn>,
    pub distinct: bool,
    pub from: FromClause,
    pub from_alias: Option<String>,
    pub joins: Vec<JoinClause>,
    pub where_clause: Option<Expr>,
    pub group_by: Vec<Expr>,
    pub having: Option<Expr>,
    pub order_by: Vec<OrderByExpr>,
    pub limit: Option<usize>,
    pub offset: Option<usize>,
    pub ctes: Vec<Cte>,
}

/// What contracts say about a `SelectStmt`.
pub struct SelectStmtView {
    pub columns: Seq<SelectColumnView>,
    pub distinct: bool,
    pub from: FromClauseView,
    pub from_alias: Option<Seq<char>>,
    pub joins: Seq<JoinClauseView>,
    pub where_clause: Option<ExprView>,
    pub group_by: Seq<ExprView>,
    pub having: Option<ExprView>,
    pub order_by: Seq<OrderByExprView>,
    pub limit: Option<usize>,
    pub offset: Option<usize>,
    pub ctes: Seq<CteView>,
}

impl SelectStmt {
    #[verifier::opaque]
    pub open spec fn view(&self) -> SelectStmtView
        decreases self,
    {
        SelectStmtView {
            columns: select_columns_view(self.columns@),
            distinct: self.distinct,
            from: self.from@,
            from_alias: match self.from_alias { Some(y) => Some(y@), None => None },
            joins: join_clauses_view(self.joins@),
            where_clause: match self.where_clause { Some(y) => Some(y@), None => None },
            group_by: exprs_view(self.group_by@),
            having: match self.having { Some(y) => Some(y@), None => None },
            order_by: order_by_exprs_view(self.order_by@),
            limit: self.limit,
            offset: self.offset,
            ctes: ctes_view(self.ctes@),
        }
    }

    /// A copy of the whole value.
    pub fn dup(&self) -> (r: SelectStmt)
        ensures
            r@ == self@,
        decreases self,
    {
        proof {
            reveal(SelectStmt::view);
            reveal(Expr::view);
            reveal(OrderByExpr::view);
            reveal(SelectColumn::view);
            reveal(FromClause::view);
            reveal(Cte::view);
            reveal(JoinClause::view);
            reveal(exprs_view);
            reveal(when_clauses_view);
            reveal(order_by_exprs_view);
            reveal(select_columns_view);
            reveal(join_clauses_view);
            reveal(ctes_view);
        }
        SelectStmt {
            columns: dup_select_columns(&self.columns),
            distinct: self.distinct,
            from: self.from.dup(),
            from_alias: match &self.from_alias { Some(y) => Some(y.clone()), None => None },
            joins: dup_join_clauses(&self.joins),
            where_clause: match &self.where_clause { Some(y) => Some(y.dup()), None => None },
            group_by: dup_exprs(&self.group_by),
            having: match &self.having { Some(y) => Some(y.dup()), None => None },
            order_by: dup_order_by_exprs(&self.order_by),
            limit: self.limit,
            offset: self.offset,
            ctes: dup_ctes(&self.ctes),
        }
    }
}

pub broadcast proof fn select_stmt_view_made(columns: Vec<SelectColumn>, distinct: bool, from: FromClause, from_alias: Option<String>, joins: Vec<JoinClause>, where_clause: Option<Expr>, group_by: Vec<Expr>, having: Option<Expr>, order_by: Vec<OrderByExpr>, limit: Option<usize>, offset: Option<usize>, ctes: Vec<Cte>)
    ensures
        #[trigger] (SelectStmt { columns, distinct, from, from_alias, joins, where_clause, group_by, having, order_by, limit, offset, ctes }).view() == (SelectStmtView { columns: select_columns_view(columns@), distinct: distinct, from: from@, from_alias: match from_alias { Some(y) => Some(y@), None => None }, joins: join_clauses_view(joins@), where_clause: match where_clause { Some(y) => Some(y@), None => None }, group_by: exprs_view(group_by@), having: match having { Some(y) => Some(y@), None => None }, order_by: order_by_exprs_view(order_by@), limit: limit, offset: offset, ctes: ctes_view(ctes@) }),
{
    reveal(SelectStmt::view);
    reveal(Expr::view);
    reveal(OrderByExpr::view);
    reveal(SelectColumn::view);
    reveal(FromClause::view);
    reveal(Cte::view);
    reveal(JoinClause::view);
    reveal(exprs_view);
    reveal(when_clauses_view);
    reveal(order_by_exprs_view);
    reveal(select_columns_view);
    reveal(join_clauses_view);
    reveal(ctes_view);
}

impl SelectStmt {
    /// The view of a value in terms of the views of its parts.
    pub proof fn unfold(self)
        ensures
            self@ == (SelectStmtView { columns: select_columns_view(self.columns@), distinct: self.distinct, from: self.from@, from_alias: match self.from_alias { Some(y) => Some(y@), None => None }, joins: join_clauses_view(self.joins@), where_clause: match self.where_clause { Some(y) => Some(y@), None => None }, group_by: exprs_view(self.group_by@), having: match self.having { Some(y) => Some(y@), None => None }, order_by: order_by_exprs_view(self.order_by@), limit: self.limit, offset: self.offset, ctes: ctes_view(self.ctes@) }),
    {
        reveal(SelectStmt::view);
        reveal(Expr::view);
        reveal(OrderByExpr::view);
        reveal(SelectColumn::view);
        reveal(FromClause::view);
        reveal(Cte::view);
        reveal(JoinClause::view);
        reveal(exprs_view);
        reveal(when_clauses_view);
        reveal(order_by_exprs_view);
        reveal(select_columns_view);
        reveal(join_clauses_view);
        reveal(ctes_view);
    }
}

impl Clone for SelectStmt {
    fn clone(&self) -> (r: Self)
        ensures
            r@ == self@,
    {
        self.dup()
    }
}

/// A foreign key.
#[derive(Debug)]
pub struct ForeignKeyDef {
    pub columns: Vec<String>,
    pub ref_table: String,
    pub ref_columns: Vec<String>,
    pub on_delete: FkAction,
    pub on_update: FkAction,
}

/// What contracts say about a `ForeignKeyDef`.
pub struct ForeignKeyDefView {
    pub columns: Seq<Seq<char>>,
    pub ref_table: Seq<char>,
    pub ref_columns: Seq<Seq<char>>,
    pub on_delete: FkAction,
    pub on_update: FkAction,
}

impl ForeignKeyDef {
    #[verifier::opaque]
    pub open spec fn view(&self) -> ForeignKeyDefView
        decreases self,
    {
        ForeignKeyDefView {
            columns: names_view(self.columns@),
            ref_table: self.ref_table@,
            ref_columns: names_view(self.ref_columns@),
            on_delete: self.on_delete,
            on_update: self.on_update,
        }
    }

    /// A copy of the whole value.
    pub fn dup(&self) -> (r: ForeignKeyDef)
        ensures
            r@ == self@,
        decreases self,
    {
        proof {
            reveal(ForeignKeyDef::view);
            reveal(Expr::view);
            reveal(OrderByExpr::view);
            reveal(SelectColumn::view);
            reveal(FromClause::view);
            reveal(Cte::view);
            reveal(JoinClause::view);
            reveal(SelectStmt::view);
            reveal(exprs_view);
            reveal(when_clauses_view);
            reveal(order_by_exprs_view);
            reveal(select_columns_view);
            reveal(join_clauses_view);
            reveal(ctes_view);
        }
        ForeignKeyDef {
            columns: dup_names(&self.columns),
            ref_table: self.ref_table.clone(),
            ref_columns: dup_names(&self.ref_columns),
            on_delete: self.on_delete,
            on_update: self.on_update,
        }
    }
}

pub broadcast proof fn foreign_key_def_view_made(columns: Vec<String>, ref_table: String, ref_columns: Vec<String>, on_delete: FkAction, on_update: FkAction)
    ensures
        #[trigger] (ForeignKeyDef { columns, ref_table, ref_columns, on_delete, on_update }).view() == (ForeignKeyDefView { columns: names_view(columns@), ref_table: ref_table@, ref_columns: names_view(ref_columns@), on_delete: on_delete, on_update: on_update }),
{
    reveal(ForeignKeyDef::view);
    reveal(Expr::view);
    reveal(OrderByExpr::view);
    reveal(SelectColumn::view);
    reveal(FromClause::view);
    reveal(Cte::view);
    reveal(JoinClause::view);
    reveal(SelectStmt::view);
    reveal(exprs_view);
    reveal(when_clauses_view);
    reveal(order_by_exprs_view);
    reveal(select_columns_view);
    reveal(join_clauses_view);
    reveal(ctes_view);
}

impl ForeignKeyDef {
    /// The view of a value in terms of the views of its parts.
    pub proof fn unfold(self)
        ensures
            self@ == (ForeignKeyDefView { columns: names_view(self.columns@), ref_table: self.ref_table@, ref_columns: names_view(self.ref_columns@), on_delete: self.on_delete, on_update: self.on_update }),
    {
        reveal(ForeignKeyDef::view);
        reveal(Expr::view);
        reveal(OrderByExpr::view);
        reveal(SelectColumn::view);
        reveal(FromClause::view);
        reveal(Cte::view);
        reveal(JoinClause::view);
        reveal(SelectStmt::view);
        reveal(exprs_view);
        reveal(when_clauses_view);
        reveal(order_by_exprs_view);
        reveal(select_columns_view);
        reveal(join_clauses_view);
        reveal(ctes_view);
    }
}

impl Clone for ForeignKeyDef {
    fn clone(&self) -> (r: Self)
        ensures
            r@ == self@,
    {
        self.dup()
    }
}

/// A column as CREATE TABLE declares it.
#[derive(Debug)]
pub struct ColumnDef {
    pub name: String,
    pub data_type: DataType,
    pub max_length: Option<usize>,
    pub nullable: bool,
    pub primary_key: bool,
    pub unique: bool,
    pub auto_increment: bool,
    pub default: Option<Expr>,
    pub check: Option<Expr>,
    pub references: Option<(String, String)>,
    pub on_delete: FkAction,
    pub on_update: FkAction,
}

/// What contracts say about a `ColumnDef`.
pub struct ColumnDefView {
    pub name: Seq<char>,
    pub data_type: DataType,
    pub max_length: Option<usize>,
    pub nullable: bool,
    pub primary_key: bool,
    pub unique: bool,
    pub auto_increment: bool,
    pub default: Option<ExprView>,
    pub check: Option<ExprView>,
    pub references: Option<(Seq<char>, Seq<char>)>,
    pub on_delete: FkAction,
    pub on_update: FkAction,
}

impl ColumnDef {
    #[verifier::opaque]
    pub open spec fn view(&self) -> ColumnDefView
        decreases self,
    {
        ColumnDefView {
            name: self.name@,
            data_type: self.data_type,
            max_length: self.max_length,
            nullable: self.nullable,
            primary_key: self.primary_key,
            unique: self.unique,
            auto_increment: self.auto_increment,
            default: match self.default { Some(y) => Some(y@), None => None },
            check: match self.check { Some(y) => Some(y@), None => None },
            references: match self.references { Some(y) => Some((y.0@, y.1@)), None => None },
            on_delete: self.on_delete,
            on_update: self.on_update,
        }
    }

    /// A copy of the whole value.
    pub fn dup(&self) -> (r: ColumnDef)
        ensures
            r@ == self@,
        decreases self,
    {
        proof {
            reveal(ColumnDef::view);
            reveal(Expr::view);
            reveal(OrderByExpr::view);
            reveal(SelectColumn::view);
            reveal(FromClause::view);
            reveal(Cte::view);
            reveal(JoinClause::view);
            reveal(SelectStmt::view);
            reveal(exprs_view);
            reveal(when_clauses_view);
            reveal(order_by_exprs_view);
            reveal(select_columns_view);
            reveal(join_clauses_view);
            reveal(ctes_view);
        }
        ColumnDef {
            name: self.name.clone(),
            data_type: self.data_type,
            max_length: self.max_length,
            nullable: self.nullable,
            primary_key: self.primary_key,
            unique: self.unique,
            auto_increment: self.auto_increment,
            default: match &self.default { Some(y) => Some(y.dup()), None => None },
            check: match &self.check { Some(y) => Some(y.dup()), None => None },
            references: match &self.references { Some(y) => Some((y.0.clone(), y.1.clone())), None => None },
            on_delete: self.on_delete,
            on_update: self.on_update,
        }
    }
}

pub broadcast proof fn column_def_view_made(name: String, data_type: DataType, max_length: Option<usize>, nullable: bool, primary_key: bool, unique: bool, auto_increment: bool, default: Option<Expr>, check: Option<Expr>, references: Option<(String, String)>, on_delete: FkAction, on_update: FkAction)
    ensures
        #[trigger] (ColumnDef { name, data_type, max_length, nullable, primary_key, unique, auto_increment, default, check, references, on_delete, on_update }).view() == (ColumnDefView { name: name@, data_type: data_type, max_length: max_length, nullable: nullable, primary_key: primary_key, unique: unique, auto_increment: auto_increment, default: match default { Some(y) => Some(y@), None => None }, check: match check { Some(y) => Some(y@), None => None }, references: match references { Some(y) => Some((y.0@, y.1@)), None => None }, on_delete: on_delete, on_update: on_update }),
{
    reveal(ColumnDef::view);
    reveal(Expr::view);
    reveal(OrderByExpr::view);
    reveal(SelectColumn::view);
    reveal(FromClause::view);
    reveal(Cte::view);
    reveal(JoinClause::view);
    reveal(SelectStmt::view);
    reveal(exprs_view);
    reveal(when_clauses_view);
    reveal(order_by_exprs_view);
    reveal(select_columns_view);
    reveal(join_clauses_view);
    reveal(ctes_view);
}

impl ColumnDef {
    /// The view of a value in terms of the views of its parts.
    pub proof fn unfold(self)
        ensures
            self@ == (ColumnDefView { name: self.name@, data_type: self.data_type, max_length: self.max_length, nullable: self.nullable, primary_key: self.primary_key, unique: self.unique, auto_increment: self.auto_increment, default: match self.default { Some(y) => Some(y@), None => None }, check: match self.check { Some(y) => Some(y@), None => None }, references: match self.references { Some(y) => Some((y.0@, y.1@)), None => None }, on_delete: self.on_delete, on_update: self.on_update }),
    {
        reveal(ColumnDef::view);
        reveal(Expr::view);
        reveal(OrderByExpr::view);
        reveal(SelectColumn::view);
        reveal(FromClause::view);
        reveal(Cte::view);
        reveal(JoinClause::view);
        reveal(SelectStmt::view);
        reveal(exprs_view);
        reveal(when_clauses_view);
        reveal(order_by_exprs_view);
        reveal(select_columns_view);
        reveal(join_clauses_view);
        reveal(ctes_view);
    }
}

impl Clone for ColumnDef {
    fn clone(&self) -> (r: Self)
        ensures
            r@ == self@,
    {
        self.dup()
    }
}

/// CREATE TABLE.
#[derive(Debug)]
pub struct CreateTableStmt {
    pub name: String,
    pub columns: Vec<ColumnDef>,
    pub if_not_exists: bool,
    pub check_constraints: Vec<Expr>,
    pub foreign_keys: Vec<ForeignKeyDef>,
}

/// What contracts say about a `CreateTableStmt`.
pub struct CreateTableStmtView {
    pub name: Seq<char>,
    pub columns: Seq<ColumnDefView>,
    pub if_not_exists: bool,
    pub check_constraints: Seq<ExprView>,
    pub foreign_keys: Seq<ForeignKeyDefView>,
}

impl CreateTableStmt {
    #[verifier::opaque]
    pub open spec fn view(&self) -> CreateTableStmtView
        decreases self,
    {
        CreateTableStmtView {
            name: self.name@,
            columns: column_defs_view(self.columns@),
            if_not_exists: self.if_not_exists,
            check_constraints: exprs_view(self.check_constraints@),
            foreign_keys: foreign_key_defs_view(self.foreign_keys@),
        }
    }

    /// A copy of the whole value.
    pub fn dup(&self) -> (r: CreateTableStmt)
        ensures
            r@ == self@,
        decreases self,
    {
        proof {
            reveal(CreateTableStmt::view);
            reveal(Expr::view);
            reveal(OrderByExpr::view);
            reveal(SelectColumn::view);
            reveal(FromClause::view);
            reveal(Cte::view);
            reveal(JoinClause::view);
            reveal(SelectStmt::view);
            reveal(exprs_view);
            reveal(when_clauses_view);
            reveal(order_by_exprs_view);
            reveal(select_columns_view);
            reveal(join_clauses_view);
            reveal(ctes_view);
        }
        CreateTableStmt {
            name: self.name.clone(),
            columns: dup_column_defs(&self.columns),
            if_not_exists: self.if_not_exists,
            check_constraints: dup_exprs(&self.check_constraints),
            foreign_keys: dup_foreign_key_defs(&self.foreign_keys),
        }
    }
}

pub broadcast proof fn create_table_stmt_view_made(name: String, columns: Vec<ColumnDef>, if_not_exists: bool, check_constraints: Vec<Expr>, foreign_keys: Vec<ForeignKeyDef>)
    ensures
        #[trigger] (CreateTableStmt { name, columns, if_not_exists, check_constraints, foreign_keys }).view() == (CreateTableStmtView { name: name@, columns: column_defs_view(columns@), if_not_exists: if_not_exists, check_constraints: exprs_view(check_constraints@), foreign_keys: foreign_key_defs_view(foreign_keys@) }),
{
    reveal(CreateTableStmt::view);
    reveal(Expr::view);
    reveal(OrderByExpr::view);
    reveal(SelectColumn::view);
    reveal(FromClause::view);
    reveal(Cte::view);
    reveal(JoinClause::view);
    reveal(SelectStmt::view);
    reveal(exprs_view);
    reveal(when_clauses_view);
    reveal(order_by_exprs_view);
    reveal(select_columns_view);
    reveal(join_clauses_view);
    reveal(ctes_view);
}

impl CreateTableStmt {
    /// The view of a value in terms of the views of its parts.
    pub proof fn unfold(self)
        ensures
            self@ == (CreateTableStmtView { name: self.name@, columns: column_defs_view(self.columns@), if_not_exists: self.if_not_exists, check_constraints: exprs_view(self.check_constraints@), foreign_keys: foreign_key_defs_view(self.foreign_keys@) }),
    {
        reveal(CreateTableStmt::view);
        reveal(Expr::view);
        reveal(OrderByExpr::view);
        reveal(SelectColumn::view);
        reveal(FromClause::view);
        reveal(Cte::view);
        reveal(JoinClause::view);
        reveal(SelectStmt::view);
        reveal(exprs_view);
        reveal(when_clauses_view);
        reveal(order_by_exprs_view);
        reveal(select_columns_view);
        reveal(join_clauses_view);
        reveal(ctes_view);
    }
}

impl Clone for CreateTableStmt {
    fn clone(&self) -> (r: Self)
        ensures
            r@ == self@,
    {
        self.dup()
    }
}

/// DROP TABLE.
#[derive(Debug)]
pub struct DropTableStmt {
    pub name: String,
    pub if_exists: bool,
}

/// What contracts say about a `DropTableStmt`.
pub struct DropTableStmtView {
    pub name: Seq<char>,
    pub if_exists: bool,
}

impl DropTableStmt {
    #[verifier::opaque]
    pub open spec fn view(&self) -> DropTableStmtView
        decreases self,
    {
        DropTableStmtView {
            name: self.name@,
            if_exists: self.if_exists,
        }
    }

    /// A copy of the whole value.
    pub fn dup(&self) -> (r: DropTableStmt)
        ensures
            r@ == self@,
        decreases self,
    {
        proof {
            reveal(DropTableStmt::view);
            reveal(Expr::view);
            reveal(OrderByExpr::view);
            reveal(SelectColumn::view);
            reveal(FromClause::view);
            reveal(Cte::view);
            reveal(JoinClause::view);
            reveal(SelectStmt::view);
            reveal(exprs_view);
            reveal(when_clauses_view);
            reveal(order_by_exprs_view);
            reveal(select_columns_view);
            reveal(join_clauses_view);
            reveal(ctes_view);
        }
        DropTableStmt {
            name: self.name.clone(),
            if_exists: self.if_exists,
        }
    }
}

pub broadcast proof fn drop_table_stmt_view_made(name: String, if_exists: bool)
    ensures
        #[trigger] (DropTableStmt { name, if_exists }).view() == (DropTableStmtView { name: name@, if_exists: if_exists }),
{
    reveal(DropTableStmt::view);
    reveal(Expr::view);
    reveal(OrderByExpr::view);
    reveal(SelectColumn::view);
    reveal(FromClause::view);
    reveal(Cte::view);
    reveal(JoinClause::view);
    reveal(SelectStmt::view);
    reveal(exprs_view);
    reveal(when_clauses_view);
    reveal(order_by_exprs_view);
    reveal(select_columns_view);
    reveal(join_clauses_view);
    reveal(ctes_view);
}

impl DropTableStmt {
    /// The view of a value in terms of the views of its parts.
    pub proof fn unfold(self)
        ensures
            self@ == (DropTableStmtView { name: self.name@, if_exists: self.if_exists }),
    {
        reveal(DropTableStmt::view);
        reveal(Expr::view);
        reveal(OrderByExpr::view);
        reveal(SelectColumn::view);
        reveal(FromClause::view);
        reveal(Cte::view);
        reveal(JoinClause::view);
        reveal(SelectStmt::view);
        reveal(exprs_view);
        reveal(when_clauses_view);
        reveal(order_by_exprs_view);
        reveal(select_columns_view);
        reveal(join_clauses_view);
        reveal(ctes_view);
    }
}

impl Clone for DropTableStmt {
    fn clone(&self) -> (r: Self)
        ensures
            r@ == self@,
    {
        self.dup()
    }
}

/// CREATE INDEX.
#[derive(Debug)]
pub struct CreateIndexStmt {
    pub name: String,
    pub table: String,
    pub columns: Vec<String>,
    pub unique: bool,
}

/// What contracts say about a `CreateIndexStmt`.
pub struct CreateIndexStmtView {
    pub name: Seq<char>,
    pub table: Seq<char>,
    pub columns: Seq<Seq<char>>,
    pub unique: bool,
}

impl CreateIndexStmt {
    #[verifier::opaque]
    pub open spec fn view(&self) -> CreateIndexStmtView
        decreases self,
    {
        CreateIndexStmtView {
            name: self.name@,
            table: self.table@,
            columns: names_view(self.columns@),
            unique: self.unique,
        }
    }

    /// A copy of the whole value.
    pub fn dup(&self) -> (r: CreateIndexStmt)
        ensures
            r@ == self@,
        decreases self,
    {
        proof {
            reveal(CreateIndexStmt::view);
            reveal(Expr::view);
            reveal(OrderByExpr::view);
            reveal(SelectColumn::view);
            reveal(FromClause::view);
            reveal(Cte::view);
            reveal(JoinClause::view);
            reveal(SelectStmt::view);
            reveal(exprs_view);
            reveal(when_clauses_view);
            reveal(order_by_exprs_view);
            reveal(select_columns_view);
            reveal(join_clauses_view);
            reveal(ctes_view);
        }
        CreateIndexStmt {
            name: self.name.clone(),
            table: self.table.clone(),
            columns: dup_names(&self.columns),
            unique: self.unique,
        }
    }
}

pub broadcast proof fn create_index_stmt_view_made(name: String, table: String, columns: Vec<String>, unique: bool)
    ensures
        #[trigger] (CreateIndexStmt { name, table, columns, unique }).view() == (CreateIndexStmtView { name: name@, table: table@, columns: names_view(columns@), unique: unique }),
{
    reveal(CreateIndexStmt::view);
    reveal(Expr::view);
    reveal(OrderByExpr::view);
    reveal(SelectColumn::view);
    reveal(FromClause::view);
    reveal(Cte::view);
    reveal(JoinClause::view);
    reveal(SelectStmt::view);
    reveal(exprs_view);
    reveal(when_clauses_view);
    reveal(order_by_exprs_view);
    reveal(select_columns_view);
    reveal(join_clauses_view);
    reveal(ctes_view);
}

impl CreateIndexStmt {
    /// The view of a value in terms of the views of its parts.
    pub proof fn unfold(self)
        ensures
            self@ == (CreateIndexStmtView { name: self.name@, table: self.table@, columns: names_view(self.columns@), unique: self.unique }),
    {
        reveal(CreateIndexStmt::view);
        reveal(Expr::view);
        reveal(OrderByExpr::view);
        reveal(SelectColumn::view);
        reveal(FromClause::view);
        reveal(Cte::view);
        reveal(JoinClause::view);
        reveal(SelectStmt::view);
        reveal(exprs_view);
        reveal(when_clauses_view);
        reveal(order_by_exprs_view);
        reveal(select_columns_view);
        reveal(join_clauses_view);
        reveal(ctes_view);
    }
}

impl Clone for CreateIndexStmt {
    fn clone(&self) -> (r: Self)
        ensures
            r@ == self@,
    {
        self.dup()
    }
}

/// What an ALTER TABLE does.
#[derive(Debug)]
pub enum AlterTableAction {
    AddColumn(ColumnDef),
    DropColumn(String),
    RenameColumn { old_name: String, new_name: String },
}

/// What contracts say about a `AlterTableAction`.
pub enum AlterTableActionView {
    AddColumn(ColumnDefView),
    DropColumn(Seq<char>),
    RenameColumn { old_name: Seq<char>, new_name: Seq<char> },
}

impl AlterTableAction {
    #[verifier::opaque]
    pub open spec fn view(&self) -> AlterTableActionView
        decreases self,
    {
        match self {
            AlterTableAction::AddColumn(a) => AlterTableActionView::AddColumn(a@),
            AlterTableAction::DropColumn(a) => AlterTableActionView::DropColumn(a@),
            AlterTableAction::RenameColumn { old_name, new_name } => AlterTableActionView::RenameColumn { old_name: old_name@, new_name: new_name@ },
        }
    }

    /// A copy of the whole value.
    pub fn dup(&self) -> (r: AlterTableAction)
        ensures
            r@ == self@,
        decreases self,
    {
        proof {
            reveal(AlterTableAction::view);
            reveal(Expr::view);
            reveal(OrderByExpr::view);
            reveal(SelectColumn::view);
            reveal(FromClause::view);
            reveal(Cte::view);
            reveal(JoinClause::view);
            reveal(SelectStmt::view);
            reveal(exprs_view);
            reveal(when_clauses_view);
            reveal(order_by_exprs_view);
            reveal(select_columns_view);
            reveal(join_clauses_view);
            reveal(ctes_view);
        }
        match self {
            AlterTableAction::AddColumn(a) => AlterTableAction::AddColumn(a.dup()),
            AlterTableAction::DropColumn(a) => AlterTableAction::DropColumn(a.clone()),
            AlterTableAction::RenameColumn { old_name, new_name } => AlterTableAction::RenameColumn { old_name: old_name.clone(), new_name: new_name.clone() },
        }
    }
}

pub broadcast proof fn alter_table_action_view_add_column(a: ColumnDef)
    ensures
        #[trigger] AlterTableAction::AddColumn(a).view() == AlterTableActionView::AddColumn(a@),
{
    reveal(AlterTableAction::view);
    reveal(Expr::view);
    reveal(OrderByExpr::view);
    reveal(SelectColumn::view);
    reveal(FromClause::view);
    reveal(Cte::view);
    reveal(JoinClause::view);
    reveal(SelectStmt::view);
    reveal(exprs_view);
    reveal(when_clauses_view);
    reveal(order_by_exprs_view);
    reveal(select_columns_view);
    reveal(join_clauses_view);
    reveal(ctes_view);
}

pub broadcast proof fn alter_table_action_view_drop_column(a: String)
    ensures
        #[trigger] AlterTableAction::DropColumn(a).view() == AlterTableActionView::DropColumn(a@),
{
    reveal(AlterTableAction::view);
    reveal(Expr::view);
    reveal(OrderByExpr::view);
    reveal(SelectColumn::view);
    reveal(FromClause::view);
    reveal(Cte::view);
    reveal(JoinClause::view);
    reveal(SelectStmt::view);
    reveal(exprs_view);
    reveal(when_clauses_view);
    reveal(order_by_exprs_view);
    reveal(select_columns_view);
    reveal(join_clauses_view);
    reveal(ctes_view);
}

pub broadcast proof fn alter_table_action_view_rename_column(old_name: String, new_name: String)
    ensures
        #[trigger] (AlterTableAction::RenameColumn { old_name, new_name }).view() == (AlterTableActionView::RenameColumn { old_name: old_name@, new_name: new_name@ }),
{
    reveal(AlterTableAction::view);
    reveal(Expr::view);
    reveal(OrderByExpr::view);
    reveal(SelectColumn::view);
    reveal(FromClause::view);
    reveal(Cte::view);
    reveal(JoinClause::view);
    reveal(SelectStmt::view);
    reveal(exprs_view);
    reveal(when_clauses_view);
    reveal(order_by_exprs_view);
    reveal(select_columns_view);
    reveal(join_clauses_view);
    reveal(ctes_view);
}

impl AlterTableAction {
    /// The view of a value in terms of the views of its parts.
    pub proof fn unfold(self)
        ensures
            self@ == (match self {
            AlterTableAction::AddColumn(a) => AlterTableActionView::AddColumn(a@),
            AlterTableAction::DropColumn(a) => AlterTableActionView::DropColumn(a@),
            AlterTableAction::RenameColumn { old_name, new_name } => AlterTableActionView::RenameColumn { old_name: old_name@, new_name: new_name@ },
        }),
    {
        reveal(AlterTableAction::view);
        reveal(Expr::view);
        reveal(OrderByExpr::view);
        reveal(SelectColumn::view);
        reveal(FromClause::view);
        reveal(Cte::view);
        reveal(JoinClause::view);
        reveal(SelectStmt::view);
        reveal(exprs_view);
        reveal(when_clauses_view);
        reveal(order_by_exprs_view);
        reveal(select_columns_view);
        reveal(join_clauses_view);
        reveal(ctes_view);
    }
}

impl Clone for AlterTableAction {
    fn clone(&self) -> (r: Self)
        ensures
            r@ == self@,
    {
        self.dup()
    }
}

/// ALTER TABLE.
#[derive(Debug)]
pub struct AlterTableStmt {
    pub table: String,
    pub action: AlterTableAction,
}

/// What contracts say about a `AlterTableStmt`.
pub struct AlterTableStmtView {
    pub table: Seq<char>,
    pub action: AlterTableActionView,
}

impl AlterTableStmt {
    #[verifier::opaque]
    pub open spec fn view(&self) -> AlterTableStmtView
        decreases self,
    {
        AlterTableStmtView {
            table: self.table@,
            action: self.action@,
        }
    }

    /// A copy of the whole value.
    pub fn dup(&self) -> (r: AlterTableStmt)
        ensures
            r@ == self@,
        decreases self,
    {
        proof {
            reveal(AlterTableStmt::view);
            reveal(Expr::view);
            reveal(OrderByExpr::view);
            reveal(SelectColumn::view);
            reveal(FromClause::view);
            reveal(Cte::view);
            reveal(JoinClause::view);
            reveal(SelectStmt::view);
            reveal(exprs_view);
            reveal(when_clauses_view);
            reveal(order_by_exprs_view);
            reveal(select_columns_view);
            reveal(join_clauses_view);
            reveal(ctes_view);
        }
        AlterTableStmt {
            table: self.table.clone(),
            action: self.action.dup(),
        }
    }
}

pub broadcast proof fn alter_table_stmt_view_made(table: String, action: AlterTableAction)
    ensures
        #[trigger] (AlterTableStmt { table, action }).view() == (AlterTableStmtView { table: table@, action: action@ }),
{
    reveal(AlterTableStmt::view);
    reveal(Expr::view);
    reveal(OrderByExpr::view);
    reveal(SelectColumn::view);
    reveal(FromClause::view);
    reveal(Cte::view);
    reveal(JoinClause::view);
    reveal(SelectStmt::view);
    reveal(exprs_view);
    reveal(when_clauses_view);
    reveal(order_by_exprs_view);
    reveal(select_columns_view);
    reveal(join_clauses_view);
    reveal(ctes_view);
}

impl AlterTableStmt {
    /// The view of a value in terms of the views of its parts.
    pub proof fn unfold(self)
        ensures
            self@ == (AlterTableStmtView { table: self.table@, action: self.action@ }),
    {
        reveal(AlterTableStmt::view);
        reveal(Expr::view);
        reveal(OrderByExpr::view);
        reveal(SelectColumn::view);
        reveal(FromClause::view);
        reveal(Cte::view);
        reveal(JoinClause::view);
        reveal(SelectStmt::view);
        reveal(exprs_view);
        reveal(when_clauses_view);
        reveal(order_by_exprs_view);
        reveal(select_columns_view);
        reveal(join_clauses_view);
        reveal(ctes_view);
    }
}

impl Clone for AlterTableStmt {
    fn clone(&self) -> (r: Self)
        ensures
            r@ == self@,
    {
        self.dup()
    }
}

/// Where the rows of an INSERT come from.
#[derive(Debug)]
pub enum InsertSource {
    Values(Vec<Vec<Expr>>),
    Select(SelectStmt),
}

/// What contracts say about a `InsertSource`.
pub enum InsertSourceView {
    Values(Seq<Seq<ExprView>>),
    Select(SelectStmtView),
}

impl InsertSource {
    #[verifier::opaque]
    pub open spec fn view(&self) -> InsertSourceView
        decreases self,
    {
        match self {
            InsertSource::Values(a) => InsertSourceView::Values(value_rows_view(a@)),
            InsertSource::Select(a) => InsertSourceView::Select(a@),
        }
    }

    /// A copy of the whole value.
    pub fn dup(&self) -> (r: InsertSource)
        ensures
            r@ == self@,
        decreases self,
    {
        proof {
            reveal(InsertSource::view);
            reveal(Expr::view);
            reveal(OrderByExpr::view);
            reveal(SelectColumn::view);
            reveal(FromClause::view);
            reveal(Cte::view);
            reveal(JoinClause::view);
            reveal(SelectStmt::view);
            reveal(exprs_view);
            reveal(when_clauses_view);
            reveal(order_by_exprs_view);
            reveal(select_columns_view);
            reveal(join_clauses_view);
            reveal(ctes_view);
        }
        match self {
            InsertSource::Values(a) => InsertSource::Values(dup_value_rows(a)),
            InsertSource::Select(a) => InsertSource::Select(a.dup()),
        }
    }
}

pub broadcast proof fn insert_source_view_values(a: Vec<Vec<Expr>>)
    ensures
        #[trigger] InsertSource::Values(a).view() == InsertSourceView::Values(value_rows_view(a@)),
{
    reveal(InsertSource::view);
    reveal(Expr::view);
    reveal(OrderByExpr::view);
    reveal(SelectColumn::view);
    reveal(FromClause::view);
    reveal(Cte::view);
    reveal(JoinClause::view);
    reveal(SelectStmt::view);
    reveal(exprs_view);
    reveal(when_clauses_view);
    reveal(order_by_exprs_view);
    reveal(select_columns_view);
    reveal(join_clauses_view);
    reveal(ctes_view);
}

pub broadcast proof fn insert_source_view_select(a: SelectStmt)
    ensures
        #[trigger] InsertSource::Select(a).view() == InsertSourceView::Select(a@),
{
    reveal(InsertSource::view);
    reveal(Expr::view);
    reveal(OrderByExpr::view);
    reveal(SelectColumn::view);
    reveal(FromClause::view);
    reveal(Cte::view);
    reveal(JoinClause::view);
    reveal(SelectStmt::view);
    reveal(exprs_view);
    reveal(when_clauses_view);
    reveal(order_by_exprs_view);
    reveal(select_columns_view);
    reveal(join_clauses_view);
    reveal(ctes_view);
}

impl InsertSource {
    /// The view of a value in terms of the views of its parts.
    pub proof fn unfold(self)
        ensures
            self@ == (match self {
            InsertSource::Values(a) => InsertSourceView::Values(value_rows_view(a@)),
            InsertSource::Select(a) => InsertSourceView::Select(a@),
        }),
    {
        reveal(InsertSource::view);
        reveal(Expr::view);
        reveal(OrderByExpr::view);
        reveal(SelectColumn::view);
        reveal(FromClause::view);
        reveal(Cte::view);
        reveal(JoinClause::view);
        reveal(SelectStmt::view);
        reveal(exprs_view);
        reveal(when_clauses_view);
        reveal(order_by_exprs_view);
        reveal(select_columns_view);
        reveal(join_clauses_view);
        reveal(ctes_view);
    }
}

impl Clone for InsertSource {
    fn clone(&self) -> (r: Self)
        ensures
            r@ == self@,
    {
        self.dup()
    }
}

/// What an INSERT does with a row whose key is taken.
#[derive(Debug)]
pub enum ConflictAction {
    DoNothing,
    DoUpdate(Vec<(String, Expr)>),
}

/// What contracts say about a `ConflictAction`.
pub enum ConflictActionView {
    DoNothing,
    DoUpdate(Seq<(Seq<char>, ExprView)>),
}

impl ConflictAction {
    #[verifier::opaque]
    pub open spec fn view(&self) -> ConflictActionView
        decreases self,
    {
        match self {
            ConflictAction::DoNothing => ConflictActionView::DoNothing,
            ConflictAction::DoUpdate(a) => ConflictActionView::DoUpdate(assignments_view(a@)),
        }
    }

    /// A copy of the whole value.
    pub fn dup(&self) -> (r: ConflictAction)
        ensures
            r@ == self@,
        decreases self,
    {
        proof {
            reveal(ConflictAction::view);
            reveal(Expr::view);
            reveal(OrderByExpr::view);
            reveal(SelectColumn::view);
            reveal(FromClause::view);
            reveal(Cte::view);
            reveal(JoinClause::view);
            reveal(SelectStmt::view);
            reveal(exprs_view);
            reveal(when_clauses_view);
            reveal(order_by_exprs_view);
            reveal(select_columns_view);
            reveal(join_clauses_view);
            reveal(ctes_view);
        }
        match self {
            ConflictAction::DoNothing => ConflictAction::DoNothing,
            ConflictAction::DoUpdate(a) => ConflictAction::DoUpdate(dup_assignments(a)),
        }
    }
}

pub broadcast proof fn conflict_action_view_do_update(a: Vec<(String, Expr)>)
    ensures
        #[trigger] ConflictAction::DoUpdate(a).view() == ConflictActionView::DoUpdate(assignments_view(a@)),
{
    reveal(ConflictAction::view);
    reveal(Expr::view);
    reveal(OrderByExpr::view);
    reveal(SelectColumn::view);
    reveal(FromClause::view);
    reveal(Cte::view);
    reveal(JoinClause::view);
    reveal(SelectStmt::view);
    reveal(exprs_view);
    reveal(when_clauses_view);
    reveal(order_by_exprs_view);
    reveal(select_columns_view);
    reveal(join_clauses_view);
    reveal(ctes_view);
}

impl ConflictAction {
    /// The view of a value in terms of the views of its parts.
    pub proof fn unfold(self)
        ensures
            self@ == (match self {
            ConflictAction::DoNothing => ConflictActionView::DoNothing,
            ConflictAction::DoUpdate(a) => ConflictActionView::DoUpdate(assignments_view(a@)),
        }),
    {
        reveal(ConflictAction::view);
        reveal(Expr::view);
        reveal(OrderByExpr::view);
        reveal(SelectColumn::view);
        reveal(FromClause::view);
        reveal(Cte::view);
        reveal(JoinClause::view);
        reveal(SelectStmt::view);
        reveal(exprs_view);
        reveal(when_clauses_view);
        reveal(order_by_exprs_view);
        reveal(select_columns_view);
        reveal(join_clauses_view);
        reveal(ctes_view);
    }
}

impl Clone for ConflictAction {
    fn clone(&self) -> (r: Self)
        ensures
            r@ == self@,
    {
        self.dup()
    }
}

/// The ON CONFLICT clause.
#[derive(Debug)]
pub struct OnConflict {
    pub columns: Vec<String>,
    pub action: ConflictAction,
}

/// What contracts say about a `OnConflict`.
pub struct OnConflictView {
    pub columns: Seq<Seq<char>>,
    pub action: ConflictActionView,
}

impl OnConflict {
    #[verifier::opaque]
    pub open spec fn view(&self) -> OnConflictView
        decreases self,
    {
        OnConflictView {
            columns: names_view(self.columns@),
            action: self.action@,
        }
    }

    /// A copy of the whole value.
    pub fn dup(&self) -> (r: OnConflict)
        ensures
            r@ == self@,
        decreases self,
    {
        proof {
            reveal(OnConflict::view);
            reveal(Expr::view);
            reveal(OrderByExpr::view);
            reveal(SelectColumn::view);
            reveal(FromClause::view);
            reveal(Cte::view);
            reveal(JoinClause::view);
            reveal(SelectStmt::view);
            reveal(exprs_view);
            reveal(when_clauses_view);
            reveal(order_by_exprs_view);
            reveal(select_columns_view);
            reveal(join_clauses_view);
            reveal(ctes_view);
        }
        OnConflict {
            columns: dup_names(&self.columns),
            action: self.action.dup(),
        }
    }
}

pub broadcast proof fn on_conflict_view_made(columns: Vec<String>, action: ConflictAction)
    ensures
        #[trigger] (OnConflict { columns, action }).view() == (OnConflictView { columns: names_view(columns@), action: action@ }),
{
    reveal(OnConflict::view);
    reveal(Expr::view);
    reveal(OrderByExpr::view);
    reveal(SelectColumn::view);
    reveal(FromClause::view);
    reveal(Cte::view);
    reveal(JoinClause::view);
    reveal(SelectStmt::view);
    reveal(exprs_view);
    reveal(when_clauses_view);
    reveal(order_by_exprs_view);
    reveal(select_columns_view);
    reveal(join_clauses_view);
    reveal(ctes_view);
}

impl OnConflict {
    /// The view of a value in terms of the views of its parts.
    pub proof fn unfold(self)
        ensures
            self@ == (OnConflictView { columns: names_view(self.columns@), action: self.action@ }),
    {
        reveal(OnConflict::view);
        reveal(Expr::view);
        reveal(OrderByExpr::view);
        reveal(SelectColumn::view);
        reveal(FromClause::view);
        reveal(Cte::view);
        reveal(JoinClause::view);
        reveal(SelectStmt::view);
        reveal(exprs_view);
        reveal(when_clauses_view);
        reveal(order_by_exprs_view);
        reveal(select_columns_view);
        reveal(join_clauses_view);
        reveal(ctes_view);
    }
}

impl Clone for OnConflict {
    fn clone(&self) -> (r: Self)
        ensures
            r@ == self@,
    {
        self.dup()
    }
}

/// INSERT.
#[derive(Debug)]
pub struct InsertStmt {
    pub table: String,
    pub columns: Option<Vec<String>>,
    pub source: InsertSource,
    pub on_conflict: Option<OnConflict>,
    pub returning: Option<Vec<SelectColumn>>,
}

/// What contracts say about a `InsertStmt`.
pub struct InsertStmtView {
    pub table: Seq<char>,
    pub columns: Option<Seq<Seq<char>>>,
    pub source: InsertSourceView,
    pub on_conflict: Option<OnConflictView>,
    pub returning: Option<Seq<SelectColumnView>>,
}

impl InsertStmt {
    #[verifier::opaque]
    pub open spec fn view(&self) -> InsertStmtView
        decreases self,
    {
        InsertStmtView {
            table: self.table@,
            columns: match self.columns { Some(y) => Some(names_view(y@)), None => None },
            source: self.source@,
            on_conflict: match self.on_conflict { Some(y) => Some(y@), None => None },
            returning: match self.returning { Some(y) => Some(select_columns_view(y@)), None => None },
        }
    }

    /// A copy of the whole value.
    pub fn dup(&self) -> (r: InsertStmt)
        ensures
            r@ == self@,
        decreases self,
    {
        proof {
            reveal(InsertStmt::view);
            reveal(Expr::view);
            reveal(OrderByExpr::view);
            reveal(SelectColumn::view);
            reveal(FromClause::view);
            reveal(Cte::view);
            reveal(JoinClause::view);
            reveal(SelectStmt::view);
            reveal(exprs_view);
            reveal(when_clauses_view);
            reveal(order_by_exprs_view);
            reveal(select_columns_view);
            reveal(join_clauses_view);
            reveal(ctes_view);
        }
        InsertStmt {
            table: self.table.clone(),
            columns: match &self.columns { Some(y) => Some(dup_names(y)), None => None },
            source: self.source.dup(),
            on_conflict: match &self.on_conflict { Some(y) => Some(y.dup()), None => None },
            returning: match &self.returning { Some(y) => Some(dup_select_columns(y)), None => None },
        }
    }
}

pub broadcast proof fn insert_stmt_view_made(table: String, columns: Option<Vec<String>>, source: InsertSource, on_conflict: Option<OnConflict>, returning: Option<Vec<SelectColumn>>)
    ensures
        #[trigger] (InsertStmt { table, columns, source, on_conflict, returning }).view() == (InsertStmtView { table: table@, columns: match columns { Some(y) => Some(names_view(y@)), None => None }, source: source@, on_conflict: match on_conflict { Some(y) => Some(y@), None => None }, returning: match returning { Some(y) => Some(select_columns_view(y@)), None => None } }),
{
    reveal(InsertStmt::view);
    reveal(Expr::view);
    reveal(OrderByExpr::view);
    reveal(SelectColumn::view);
    reveal(FromClause::view);
    reveal(Cte::view);
    reveal(JoinClause::view);
    reveal(SelectStmt::view);
    reveal(exprs_view);
    reveal(when_clauses_view);
    reveal(order_by_exprs_view);
    reveal(select_columns_view);
    reveal(join_clauses_view);
    reveal(ctes_view);
}

impl InsertStmt {
    /// The view of a value in terms of the views of its parts.
    pub proof fn unfold(self)
        ensures
            self@ == (InsertStmtView { table: self.table@, columns: match self.columns { Some(y) => Some(names_view(y@)), None => None }, source: self.source@, on_conflict: match self.on_conflict { Some(y) => Some(y@), None => None }, returning: match self.returning { Some(y) => Some(select_columns_view(y@)), None => None } }),
    {
        reveal(InsertStmt::view);
        reveal(Expr::view);
        reveal(OrderByExpr::view);
        reveal(SelectColumn::view);
        reveal(FromClause::view);
        reveal(Cte::view);
        reveal(JoinClause::view);
        reveal(SelectStmt::view);
        reveal(exprs_view);
        reveal(when_clauses_view);
        reveal(order_by_exprs_view);
        reveal(select_columns_view);
        reveal(join_clauses_view);
        reveal(ctes_view);
    }
}

impl Clone for InsertStmt {
    fn clone(&self) -> (r: Self)
        ensures
            r@ == self@,
    {
        self.dup()
    }
}

/// UPDATE.
#[derive(Debug)]
pub struct UpdateStmt {
    pub table: String,
    pub assignments: Vec<(String, Expr)>,
    pub where_clause: Option<Expr>,
    pub returning: Option<Vec<SelectColumn>>,
}

/// What contracts say about a `UpdateStmt`.
pub struct UpdateStmtView {
    pub table: Seq<char>,
    pub assignments: Seq<(Seq<char>, ExprView)>,
    pub where_clause: Option<ExprView>,
    pub returning: Option<Seq<SelectColumnView>>,
}

impl UpdateStmt {
    #[verifier::opaque]
    pub open spec fn view(&self) -> UpdateStmtView
        decreases self,
    {
        UpdateStmtView {
            table: self.table@,
            assignments: assignments_view(self.assignments@),
            where_clause: match self.where_clause { Some(y) => Some(y@), None => None },
            returning: match self.returning { Some(y) => Some(select_columns_view(y@)), None => None },
        }
    }

    /// A copy of the whole value.
    pub fn dup(&self) -> (r: UpdateStmt)
        ensures
            r@ == self@,
        decreases self,
    {
        proof {
            reveal(UpdateStmt::view);
            reveal(Expr::view);
            reveal(OrderByExpr::view);
            reveal(SelectColumn::view);
            reveal(FromClause::view);
            reveal(Cte::view);
            reveal(JoinClause::view);
            reveal(SelectStmt::view);
            reveal(exprs_view);
            reveal(when_clauses_view);
            reveal(order_by_exprs_view);
            reveal(select_columns_view);
            reveal(join_clauses_view);
            reveal(ctes_view);
        }
        UpdateStmt {
            table: self.table.clone(),
            assignments: dup_assignments(&self.assignments),
            where_clause: match &self.where_clause { Some(y) => Some(y.dup()), None => None },
            returning: match &self.returning { Some(y) => Some(dup_select_columns(y)), None => None },
        }
    }
}

pub broadcast proof fn update_stmt_view_made(table: String, assignments: Vec<(String, Expr)>, where_clause: Option<Expr>, returning: Option<Vec<SelectColumn>>)
    ensures
        #[trigger] (UpdateStmt { table, assignments, where_clause, returning }).view() == (UpdateStmtView { table: table@, assignments: assignments_view(assignments@), where_clause: match where_clause { Some(y) => Some(y@), None => None }, returning: match returning { Some(y) => Some(select_columns_view(y@)), None => None } }),
{
    reveal(UpdateStmt::view);
    reveal(Expr::view);
    reveal(OrderByExpr::view);
    reveal(SelectColumn::view);
    reveal(FromClause::view);
    reveal(Cte::view);
    reveal(JoinClause::view);
    reveal(SelectStmt::view);
    reveal(exprs_view);
    reveal(when_clauses_view);
    reveal(order_by_exprs_view);
    reveal(select_columns_view);
    reveal(join_clauses_view);
    reveal(ctes_view);
}

impl UpdateStmt {
    /// The view of a value in terms of the views of its parts.
    pub proof fn unfold(self)
        ensures
            self@ == (UpdateStmtView { table: self.table@, assignments: assignments_view(self.assignments@), where_clause: match self.where_clause { Some(y) => Some(y@), None => None }, returning: match self.returning { Some(y) => Some(select_columns_view(y@)), None => None } }),
    {
        reveal(UpdateStmt::view);
        reveal(Expr::view);
        reveal(OrderByExpr::view);
        reveal(SelectColumn::view);
        reveal(FromClause::view);
        reveal(Cte::view);
        reveal(JoinClause::view);
        reveal(SelectStmt::view);
        reveal(exprs_view);
        reveal(when_clauses_view);
        reveal(order_by_exprs_view);
        reveal(select_columns_view);
        reveal(join_clauses_view);
        reveal(ctes_view);
    }
}

impl Clone for UpdateStmt {
    fn clone(&self) -> (r: Self)
        ensures
            r@ == self@,
    {
        self.dup()
    }
}

/// DELETE.
#[derive(Debug)]
pub struct DeleteStmt {
    pub table: String,
    pub where_clause: Option<Expr>,
    pub returning: Option<Vec<SelectColumn>>,
}

/// What contracts say about a `DeleteStmt`.
pub struct DeleteStmtView {
    pub table: Seq<char>,
    pub where_clause: Option<ExprView>,
    pub returning: Option<Seq<SelectColumnView>>,
}

impl DeleteStmt {
    #[verifier::opaque]
    pub open spec fn view(&self) -> DeleteStmtView
        decreases self,
    {
        DeleteStmtView {
            table: self.table@,
            where_clause: match self.where_clause { Some(y) => Some(y@), None => None },
            returning: match self.returning { Some(y) => Some(select_columns_view(y@)), None => None },
        }
    }

    /// A copy of the whole value.
    pub fn dup(&self) -> (r: DeleteStmt)
        ensures
            r@ == self@,
        decreases self,
    {
        proof {
            reveal(DeleteStmt::view);
            reveal(Expr::view);
            reveal(OrderByExpr::view);
            reveal(SelectColumn::view);
            reveal(FromClause::view);
            reveal(Cte::view);
            reveal(JoinClause::view);
            reveal(SelectStmt::view);
            reveal(exprs_view);
            reveal(when_clauses_view);
            reveal(order_by_exprs_view);
            reveal(select_columns_view);
            reveal(join_clauses_view);
            reveal(ctes_view);
        }
        DeleteStmt {
            table: self.table.clone(),
            where_clause: match &self.where_clause { Some(y) => Some(y.dup()), None => None },
            returning: match &self.returning { Some(y) => Some(dup_select_columns(y)), None => None },
        }
    }
}

pub broadcast proof fn delete_stmt_view_made(table: String, where_clause: Option<Expr>, returning: Option<Vec<SelectColumn>>)
    ensures
        #[trigger] (DeleteStmt { table, where_clause, returning }).view() == (DeleteStmtView { table: table@, where_clause: match where_clause { Some(y) => Some(y@), None => None }, returning: match returning { Some(y) => Some(select_columns_view(y@)), None => None } }),
{
    reveal(DeleteStmt::view);
    reveal(Expr::view);
    reveal(OrderByExpr::view);
    reveal(SelectColumn::view);
    reveal(FromClause::view);
    reveal(Cte::view);
    reveal(JoinClause::view);
    reveal(SelectStmt::view);
    reveal(exprs_view);
    reveal(when_clauses_view);
    reveal(order_by_exprs_view);
    reveal(select_columns_view);
    reveal(join_clauses_view);
    reveal(ctes_view);
}

impl DeleteStmt {
    /// The view of a value in terms of the views of its parts.
    pub proof fn unfold(self)
        ensures
            self@ == (DeleteStmtView { table: self.table@, where_clause: match self.where_clause { Some(y) => Some(y@), None => None }, returning: match self.returning { Some(y) => Some(select_columns_view(y@)), None => None } }),
    {
        reveal(DeleteStmt::view);
        reveal(Expr::view);
        reveal(OrderByExpr::view);
        reveal(SelectColumn::view);
        reveal(FromClause::view);
        reveal(Cte::view);
        reveal(JoinClause::view);
        reveal(SelectStmt::view);
        reveal(exprs_view);
        reveal(when_clauses_view);
        reveal(order_by_exprs_view);
        reveal(select_columns_view);
        reveal(join_clauses_view);
        reveal(ctes_view);
    }
}

impl Clone for DeleteStmt {
    fn clone(&self) -> (r: Self)
        ensures
            r@ == self@,
    {
        self.dup()
    }
}

/// DOC INSERT.
#[derive(Debug)]
pub struct DocInsertStmt {
    pub collection: String,
    pub document: String,
}

/// What contracts say about a `DocInsertStmt`.
pub struct DocInsertStmtView {
    pub collection: Seq<char>,
    pub document: Seq<char>,
}

impl DocInsertStmt {
    #[verifier::opaque]
    pub open spec fn view(&self) -> DocInsertStmtView
        decreases self,
    {
        DocInsertStmtView {
            collection: self.collection@,
            document: self.document@,
        }
    }

    /// A copy of the whole value.
    pub fn dup(&self) -> (r: DocInsertStmt)
        ensures
            r@ == self@,
        decreases self,
    {
        proof {
            reveal(DocInsertStmt::view);
            reveal(Expr::view);
            reveal(OrderByExpr::view);
            reveal(SelectColumn::view);
            reveal(FromClause::view);
            reveal(Cte::view);
            reveal(JoinClause::view);
            reveal(SelectStmt::view);
            reveal(exprs_view);
            reveal(when_clauses_view);
            reveal(order_by_exprs_view);
            reveal(select_columns_view);
            reveal(join_clauses_view);
            reveal(ctes_view);
        }
        DocInsertStmt {
            collection: self.collection.clone(),
            document: self.document.clone(),
        }
    }
}

pub broadcast proof fn doc_insert_stmt_view_made(collection: String, document: String)
    ensures
        #[trigger] (DocInsertStmt { collection, document }).view() == (DocInsertStmtView { collection: collection@, document: document@ }),
{
    reveal(DocInsertStmt::view);
    reveal(Expr::view);
    reveal(OrderByExpr::view);
    reveal(SelectColumn::view);
    reveal(FromClause::view);
    reveal(Cte::view);
    reveal(JoinClause::view);
    reveal(SelectStmt::view);
    reveal(exprs_view);
    reveal(when_clauses_view);
    reveal(order_by_exprs_view);
    reveal(select_columns_view);
    reveal(join_clauses_view);
    reveal(ctes_view);
}

impl DocInsertStmt {
    /// The view of a value in terms of the views of its parts.
    pub proof fn unfold(self)
        ensures
            self@ == (DocInsertStmtView { collection: self.collection@, document: self.document@ }),
    {
        reveal(DocInsertStmt::view);
        reveal(Expr::view);
        reveal(OrderByExpr::view);
        reveal(SelectColumn::view);
        reveal(FromClause::view);
        reveal(Cte::view);
        reveal(JoinClause::view);
        reveal(SelectStmt::view);
        reveal(exprs_view);
        reveal(when_clauses_view);
        reveal(order_by_exprs_view);
        reveal(select_columns_view);
        reveal(join_clauses_view);
        reveal(ctes_view);
    }
}

impl Clone for DocInsertStmt {
    fn clone(&self) -> (r: Self)
        ensures
            r@ == self@,
    {
        self.dup()
    }
}

/// DOC FIND.
#[derive(Debug)]
pub struct DocFindStmt {
    pub collection: String,
    pub filter: Option<Expr>,
}

/// What contracts say about a `DocFindStmt`.
pub struct DocFindStmtView {
    pub collection: Seq<char>,
    pub filter: Option<ExprView>,
}

impl DocFindStmt {
    #[verifier::opaque]
    pub open spec fn view(&self) -> DocFindStmtView
        decreases self,
    {
        DocFindStmtView {
            collection: self.collection@,
            filter: match self.filter { Some(y) => Some(y@), None => None },
        }
    }

    /// A copy of the whole value.
    pub fn dup(&self) -> (r: DocFindStmt)
        ensures
            r@ == self@,
        decreases self,
    {
        proof {
            reveal(DocFindStmt::view);
            reveal(Expr::view);
            reveal(OrderByExpr::view);
            reveal(SelectColumn::view);
            reveal(FromClause::view);
            reveal(Cte::view);
            reveal(JoinClause::view);
            reveal(SelectStmt::view);
            reveal(exprs_view);
            reveal(when_clauses_view);
            reveal(order_by_exprs_view);
            reveal(select_columns_view);
            reveal(join_clauses_view);
            reveal(ctes_view);
        }
        DocFindStmt {
            collection: self.collection.clone(),
            filter: match &self.filter { Some(y) => Some(y.dup()), None => None },
        }
    }
}

pub broadcast proof fn doc_find_stmt_view_made(collection: String, filter: Option<Expr>)
    ensures
        #[trigger] (DocFindStmt { collection, filter }).view() == (DocFindStmtView { collection: collection@, filter: match filter { Some(y) => Some(y@), None => None } }),
{
    reveal(DocFindStmt::view);
    reveal(Expr::view);
    reveal(OrderByExpr::view);
    reveal(SelectColumn::view);
    reveal(FromClause::view);
    reveal(Cte::view);
    reveal(JoinClause::view);
    reveal(SelectStmt::view);
    reveal(exprs_view);
    reveal(when_clauses_view);
    reveal(order_by_exprs_view);
    reveal(select_columns_view);
    reveal(join_clauses_view);
    reveal(ctes_view);
}

impl DocFindStmt {
    /// The view of a value in terms of the views of its parts.
    pub proof fn unfold(self)
        ensures
            self@ == (DocFindStmtView { collection: self.collection@, filter: match self.filter { Some(y) => Some(y@), None => None } }),
    {
        reveal(DocFindStmt::view);
        reveal(Expr::view);
        reveal(OrderByExpr::view);
        reveal(SelectColumn::view);
        reveal(FromClause::view);
        reveal(Cte::view);
        reveal(JoinClause::view);
        reveal(SelectStmt::view);
        reveal(exprs_view);
        reveal(when_clauses_view);
        reveal(order_by_exprs_view);
        reveal(select_columns_view);
        reveal(join_clauses_view);
        reveal(ctes_view);
    }
}

impl Clone for DocFindStmt {
    fn clone(&self) -> (r: Self)
        ensures
            r@ == self@,
    {
        self.dup()
    }
}

/// DOC UPDATE.
#[derive(Debug)]
pub struct DocUpdateStmt {
    pub collection: String,
    pub filter: Option<Expr>,
    pub updates: Vec<(String, Expr)>,
}

/// What contracts say about a `DocUpdateStmt`.
pub struct DocUpdateStmtView {
    pub collection: Seq<char>,
    pub filter: Option<ExprView>,
    pub updates: Seq<(Seq<char>, ExprView)>,
}

impl DocUpdateStmt {
    #[verifier::opaque]
    pub open spec fn view(&self) -> DocUpdateStmtView
        decreases self,
    {
        DocUpdateStmtView {
            collection: self.collection@,
            filter: match self.filter { Some(y) => Some(y@), None => None },
            updates: assignments_view(self.updates@),
        }
    }

    /// A copy of the whole value.
    pub fn dup(&self) -> (r: DocUpdateStmt)
        ensures
            r@ == self@,
        decreases self,
    {
        proof {
            reveal(DocUpdateStmt::view);
            reveal(Expr::view);
            reveal(OrderByExpr::view);
            reveal(SelectColumn::view);
            reveal(FromClause::view);
            reveal(Cte::view);
            reveal(JoinClause::view);
            reveal(SelectStmt::view);
            reveal(exprs_view);
            reveal(when_clauses_view);
            reveal(order_by_exprs_view);
            reveal(select_columns_view);
            reveal(join_clauses_view);
            reveal(ctes_view);
        }
        DocUpdateStmt {
            collection: self.collection.clone(),
            filter: match &self.filter { Some(y) => Some(y.dup()), None => None },
            updates: dup_assignments(&self.updates),
        }
    }
}

pub broadcast proof fn doc_update_stmt_view_made(collection: String, filter: Option<Expr>, updates: Vec<(String, Expr)>)
    ensures
        #[trigger] (DocUpdateStmt { collection, filter, updates }).view() == (DocUpdateStmtView { collection: collection@, filter: match filter { Some(y) => Some(y@), None => None }, updates: assignments_view(updates@) }),
{
    reveal(DocUpdateStmt::view);
    reveal(Expr::view);
    reveal(OrderByExpr::view);
    reveal(SelectColumn::view);
    reveal(FromClause::view);
    reveal(Cte::view);
    reveal(JoinClause::view);
    reveal(SelectStmt::view);
    reveal(exprs_view);
    reveal(when_clauses_view);
    reveal(order_by_exprs_view);
    reveal(select_columns_view);
    reveal(join_clauses_view);
    reveal(ctes_view);
}

impl DocUpdateStmt {
    /// The view of a value in terms of the views of its parts.
    pub proof fn unfold(self)
        ensures
            self@ == (DocUpdateStmtView { collection: self.collection@, filter: match self.filter { Some(y) => Some(y@), None => None }, updates: assignments_view(self.updates@) }),
    {
        reveal(DocUpdateStmt::view);
        reveal(Expr::view);
        reveal(OrderByExpr::view);
        reveal(SelectColumn::view);
        reveal(FromClause::view);
        reveal(Cte::view);
        reveal(JoinClause::view);
        reveal(SelectStmt::view);
        reveal(exprs_view);
        reveal(when_clauses_view);
        reveal(order_by_exprs_view);
        reveal(select_columns_view);
        reveal(join_clauses_view);
        reveal(ctes_view);
    }
}

impl Clone for DocUpdateStmt {
    fn clone(&self) -> (r: Self)
        ensures
            r@ == self@,
    {
        self.dup()
    }
}

/// DOC DELETE.
#[derive(Debug)]
pub struct DocDeleteStmt {
    pub collection: String,
    pub filter: Option<Expr>,
}

/// What contracts say about a `DocDeleteStmt`.
pub struct DocDeleteStmtView {
    pub collection: Seq<char>,
    pub filter: Option<ExprView>,
}

impl DocDeleteStmt {
    #[verifier::opaque]
    pub open spec fn view(&self) -> DocDeleteStmtView
        decreases self,
    {
        DocDeleteStmtView {
            collection: self.collection@,
            filter: match self.filter { Some(y) => Some(y@), None => None },
        }
    }

    /// A copy of the whole value.
    pub fn dup(&self) -> (r: DocDeleteStmt)
        ensures
            r@ == self@,
        decreases self,
    {
        proof {
            reveal(DocDeleteStmt::view);
            reveal(Expr::view);
            reveal(OrderByExpr::view);
            reveal(SelectColumn::view);
            reveal(FromClause::view);
            reveal(Cte::view);
            reveal(JoinClause::view);
            reveal(SelectStmt::view);
            reveal(exprs_view);
            reveal(when_clauses_view);
            reveal(order_by_exprs_view);
            reveal(select_columns_view);
            reveal(join_clauses_view);
            reveal(ctes_view);
        }
        DocDeleteStmt {
            collection: self.collection.clone(),
            filter: match &self.filter { Some(y) => Some(y.dup()), None => None },
        }
    }
}

pub broadcast proof fn doc_delete_stmt_view_made(collection: String, filter: Option<Expr>)
    ensures
        #[trigger] (DocDeleteStmt { collection, filter }).view() == (DocDeleteStmtView { collection: collection@, filter: match filter { Some(y) => Some(y@), None => None } }),
{
    reveal(DocDeleteStmt::view);
    reveal(Expr::view);
    reveal(OrderByExpr::view);
    reveal(SelectColumn::view);
    reveal(FromClause::view);
    reveal(Cte::view);
    reveal(JoinClause::view);
    reveal(SelectStmt::view);
    reveal(exprs_view);
    reveal(when_clauses_view);
    reveal(order_by_exprs_view);
    reveal(select_columns_view);
    reveal(join_clauses_view);
    reveal(ctes_view);
}

impl DocDeleteStmt {
    /// The view of a value in terms of the views of its parts.
    pub proof fn unfold(self)
        ensures
            self@ == (DocDeleteStmtView { collection: self.collection@, filter: match self.filter { Some(y) => Some(y@), None => None } }),
    {
        reveal(DocDeleteStmt::view);
        reveal(Expr::view);
        reveal(OrderByExpr::view);
        reveal(SelectColumn::view);
        reveal(FromClause::view);
        reveal(Cte::view);
        reveal(JoinClause::view);
        reveal(SelectStmt::view);
        reveal(exprs_view);
        reveal(when_clauses_view);
        reveal(order_by_exprs_view);
        reveal(select_columns_view);
        reveal(join_clauses_view);
        reveal(ctes_view);
    }
}

impl Clone for DocDeleteStmt {
    fn clone(&self) -> (r: Self)
        ensures
            r@ == self@,
    {
        self.dup()
    }
}

/// A parsed statement.
#[derive(Debug)]
pub enum Statement {
    CreateTable(CreateTableStmt),
    DropTable(DropTableStmt),
    CreateIndex(CreateIndexStmt),
    DropIndex(String),
    AlterTable(AlterTableStmt),
    Union(Box<Statement>, Box<Statement>, bool),
    Intersect(Box<Statement>, Box<Statement>, bool),
    Except(Box<Statement>, Box<Statement>, bool),
    Select(SelectStmt),
    Insert(InsertStmt),
    Update(UpdateStmt),
    Delete(DeleteStmt),
    KvGet(String),
    KvSet(String, String),
    KvDelete(String),
    KvScan(String, String),
    DocInsert(DocInsertStmt),
    DocFind(DocFindStmt),
    DocUpdate(DocUpdateStmt),
    DocDelete(DocDeleteStmt),
    Begin(Option<IsolationLevel>),
    Commit,
    Rollback,
    ShowTables,
    ShowColumns(String),
    ShowCreateTable(String),
    Describe(String),
    Explain(Box<Statement>, bool),
    Truncate(String),
    CreateDatabase { name: String, if_not_exists: bool },
    DropDatabase { name: String, if_exists: bool },
    UseDatabase(String),
    ShowDatabases,
    Analyze(Option<String>),
    ShowStats(Option<String>),
    Backup { path: String },
    Restore { path: String, to_lsn: Option<u64> },
    Migrate,
}

/// What contracts say about a `Statement`.
pub enum StatementView {
    CreateTable(CreateTableStmtView),
    DropTable(DropTableStmtView),
    CreateIndex(CreateIndexStmtView),
    DropIndex(Seq<char>),
    AlterTable(AlterTableStmtView),
    Union(Box<StatementView>, Box<StatementView>, bool),
    Intersect(Box<StatementView>, Box<StatementView>, bool),
    Except(Box<StatementView>, Box<StatementView>, bool),
    Select(SelectStmtView),
    Insert(InsertStmtView),
    Update(UpdateStmtView),
    Delete(DeleteStmtView),
    KvGet(Seq<char>),
    KvSet(Seq<char>, Seq<char>),
    KvDelete(Seq<char>),
    KvScan(Seq<char>, Seq<char>),
    DocInsert(DocInsertStmtView),
    DocFind(DocFindStmtView),
    DocUpdate(DocUpdateStmtView),
    DocDelete(DocDeleteStmtView),
    Begin(Option<IsolationLevel>),
    Commit,
    Rollback,
    ShowTables,
    ShowColumns(Seq<char>),
    ShowCreateTable(Seq<char>),
    Describe(Seq<char>),
    Explain(Box<StatementView>, bool),
    Truncate(Seq<char>),
    CreateDatabase { name: Seq<char>, if_not_exists: bool },
    DropDatabase { name: Seq<char>, if_exists: bool },
    UseDatabase(Seq<char>),
    ShowDatabases,
    Analyze(Option<Seq<char>>),
    ShowStats(Option<Seq<char>>),
    Backup { path: Seq<char> },
    Restore { path: Seq<char>, to_lsn: Option<u64> },
    Migrate,
}

impl Statement {
    #[verifier::opaque]
    pub open spec fn view(&self) -> StatementView
        decreases self,
    {
        match self {
            Statement::CreateTable(a) => StatementView::CreateTable(a@),
            Statement::DropTable(a) => StatementView::DropTable(a@),
            Statement::CreateIndex(a) => StatementView::CreateIndex(a@),
            Statement::DropIndex(a) => StatementView::DropIndex(a@),
            Statement::AlterTable(a) => StatementView::AlterTable(a@),
            Statement::Union(a, b, c) => StatementView::Union(Box::new(a@), Box::new(b@), *c),
            Statement::Intersect(a, b, c) => StatementView::Intersect(Box::new(a@), Box::new(b@), *c),
            Statement::Except(a, b, c) => StatementView::Except(Box::new(a@), Box::new(b@), *c),
            Statement::Select(a) => StatementView::Select(a@),
            Statement::Insert(a) => StatementView::Insert(a@),
            Statement::Update(a) => StatementView::Update(a@),
            Statement::Delete(a) => StatementView::Delete(a@),
            Statement::KvGet(a) => StatementView::KvGet(a@),
            Statement::KvSet(a, b) => StatementView::KvSet(a@, b@),
            Statement::KvDelete(a) => StatementView::KvDelete(a@),
            Statement::KvScan(a, b) => StatementView::KvScan(a@, b@),
            Statement::DocInsert(a) => StatementView::DocInsert(a@),
            Statement::DocFind(a) => StatementView::DocFind(a@),
            Statement::DocUpdate(a) => StatementView::DocUpdate(a@),
            Statement::DocDelete(a) => StatementView::DocDelete(a@),
            Statement::Begin(a) => StatementView::Begin(*a),
            Statement::Commit => StatementView::Commit,
            Statement::Rollback => StatementView::Rollback,
            Statement::ShowTables => StatementView::ShowTables,
            Statement::ShowColumns(a) => StatementView::ShowColumns(a@),
            Statement::ShowCreateTable(a) => StatementView::ShowCreateTable(a@),
            Statement::Describe(a) => StatementView::Describe(a@),
            Statement::Explain(a, b) => StatementView::Explain(Box::new(a@), *b),
            Statement::Truncate(a) => StatementView::Truncate(a@),
            Statement::CreateDatabase { name, if_not_exists } => StatementView::CreateDatabase { name: name@, if_not_exists: *if_not_exists },
            Statement::DropDatabase { name, if_exists } => StatementView::DropDatabase { name: name@, if_exists: *if_exists },
            Statement::UseDatabase(a) => StatementView::UseDatabase(a@),
            Statement::ShowDatabases => StatementView::ShowDatabases,
            Statement::Analyze(a) => StatementView::Analyze(match a { Some(y) => Some(y@), None => None }),
            Statement::ShowStats(a) => StatementView::ShowStats(match a { Some(y) => Some(y@), None => None }),
            Statement::Backup { path } => StatementView::Backup { path: path@ },
            Statement::Restore { path, to_lsn } => StatementView::Restore { path: path@, to_lsn: *to_lsn },
            Statement::Migrate => StatementView::Migrate,
        }
    }

    /// A copy of the whole value.
    pub fn dup(&self) -> (r: Statement)
        ensures
            r@ == self@,
        decreases self,
    {
        proof {
            reveal(Statement::view);
            reveal(Expr::view);
            reveal(OrderByExpr::view);
            reveal(SelectColumn::view);
            reveal(FromClause::view);
            reveal(Cte::view);
            reveal(JoinClause::view);
            reveal(SelectStmt::view);
            reveal(exprs_view);
            reveal(when_clauses_view);
            reveal(order_by_exprs_view);
            reveal(select_columns_view);
            reveal(join_clauses_view);
            reveal(ctes_view);
        }
        match self {
            Statement::CreateTable(a) => Statement::CreateTable(a.dup()),
            Statement::DropTable(a) => Statement::DropTable(a.dup()),
            Statement::CreateIndex(a) => Statement::CreateIndex(a.dup()),
            Statement::DropIndex(a) => Statement::DropIndex(a.clone()),
            Statement::AlterTable(a) => Statement::AlterTable(a.dup()),
            Statement::Union(a, b, c) => Statement::Union(Box::new(a.dup()), Box::new(b.dup()), *c),
            Statement::Intersect(a, b, c) => Statement::Intersect(Box::new(a.dup()), Box::new(b.dup()), *c),
            Statement::Except(a, b, c) => Statement::Except(Box::new(a.dup()), Box::new(b.dup()), *c),
            Statement::Select(a) => Statement::Select(a.dup()),
            Statement::Insert(a) => Statement::Insert(a.dup()),
            Statement::Update(a) => Statement::Update(a.dup()),
            Statement::Delete(a) => Statement::Delete(a.dup()),
            Statement::KvGet(a) => Statement::KvGet(a.clone()),
            Statement::KvSet(a, b) => Statement::KvSet(a.clone(), b.clone()),
            Statement::KvDelete(a) => Statement::KvDelete(a.clone()),
            Statement::KvScan(a, b) => Statement::KvScan(a.clone(), b.clone()),
            Statement::DocInsert(a) => Statement::DocInsert(a.dup()),
            Statement::DocFind(a) => Statement::DocFind(a.dup()),
            Statement::DocUpdate(a) => Statement::DocUpdate(a.dup()),
            Statement::DocDelete(a) => Statement::DocDelete(a.dup()),
            Statement::Begin(a) => Statement::Begin(*a),
            Statement::Commit => Statement::Commit,
            Statement::Rollback => Statement::Rollback,
            Statement::ShowTables => Statement::ShowTables,
            Statement::ShowColumns(a) => Statement::ShowColumns(a.clone()),
            Statement::ShowCreateTable(a) => Statement::ShowCreateTable(a.clone()),
            Statement::Describe(a) => Statement::Describe(a.clone()),
            Statement::Explain(a, b) => Statement::Explain(Box::new(a.dup()), *b),
            Statement::Truncate(a) => Statement::Truncate(a.clone()),
            Statement::CreateDatabase { name, if_not_exists } => Statement::CreateDatabase { name: name.clone(), if_not_exists: *if_not_exists },
            Statement::DropDatabase { name, if_exists } => Statement::DropDatabase { name: name.clone(), if_exists: *if_exists },
            Statement::UseDatabase(a) => Statement::UseDatabase(a.clone()),
            Statement::ShowDatabases => Statement::ShowDatabases,
            Statement::Analyze(a) => Statement::Analyze(match a { Some(y) => Some(y.clone()), None => None }),
            Statement::ShowStats(a) => Statement::ShowStats(match a { Some(y) => Some(y.clone()), None => None }),
            Statement::Backup { path } => Statement::Backup { path: path.clone() },
            Statement::Restore { path, to_lsn } => Statement::Restore { path: path.clone(), to_lsn: *to_lsn },
            Statement::Migrate => Statement::Migrate,
        }
    }
}

pub broadcast proof fn statement_view_create_table(a: CreateTableStmt)
    ensures
        #[trigger] Statement::CreateTable(a).view() == StatementView::CreateTable(a@),
{
    reveal(Statement::view);
    reveal(Expr::view);
    reveal(OrderByExpr::view);
    reveal(SelectColumn::view);
    reveal(FromClause::view);
    reveal(Cte::view);
    reveal(JoinClause::view);
    reveal(SelectStmt::view);
    reveal(exprs_view);
    reveal(when_clauses_view);
    reveal(order_by_exprs_view);
    reveal(select_columns_view);
    reveal(join_clauses_view);
    reveal(ctes_view);
}

pub broadcast proof fn statement_view_drop_table(a: DropTableStmt)
    ensures
        #[trigger] Statement::DropTable(a).view() == StatementView::DropTable(a@),
{
    reveal(Statement::view);
    reveal(Expr::view);
    reveal(OrderByExpr::view);
    reveal(SelectColumn::view);
    reveal(FromClause::view);
    reveal(Cte::view);
    reveal(JoinClause::view);
    reveal(SelectStmt::view);
    reveal(exprs_view);
    reveal(when_clauses_view);
    reveal(order_by_exprs_view);
    reveal(select_columns_view);
    reveal(join_clauses_view);
    reveal(ctes_view);
}

pub broadcast proof fn statement_view_create_index(a: CreateIndexStmt)
    ensures
        #[trigger] Statement::CreateIndex(a).view() == StatementView::CreateIndex(a@),
{
    reveal(Statement::view);
    reveal(Expr::view);
    reveal(OrderByExpr::view);
    reveal(SelectColumn::view);
    reveal(FromClause::view);
    reveal(Cte::view);
    reveal(JoinClause::view);
    reveal(SelectStmt::view);
    reveal(exprs_view);
    reveal(when_clauses_view);
    reveal(order_by_exprs_view);
    reveal(select_columns_view);
    reveal(join_clauses_view);
    reveal(ctes_view);
}

pub broadcast proof fn statement_view_drop_index(a: String)
    ensures
        #[trigger] Statement::DropIndex(a).view() == StatementView::DropIndex(a@),
{
    reveal(Statement::view);
    reveal(Expr::view);
    reveal(OrderByExpr::view);
    reveal(SelectColumn::view);
    reveal(FromClause::view);
    reveal(Cte::view);
    reveal(JoinClause::view);
    reveal(SelectStmt::view);
    reveal(exprs_view);
    reveal(when_clauses_view);
    reveal(order_by_exprs_view);
    reveal(select_columns_view);
    reveal(join_clauses_view);
    reveal(ctes_view);
}

pub broadcast proof fn statement_view_alter_table(a: AlterTableStmt)
    ensures
        #[trigger] Statement::AlterTable(a).view() == StatementView::AlterTable(a@),
{
    reveal(Statement::view);
    reveal(Expr::view);
    reveal(OrderByExpr::view);
    reveal(SelectColumn::view);
    reveal(FromClause::view);
    reveal(Cte::view);
    reveal(JoinClause::view);
    reveal(SelectStmt::view);
    reveal(exprs_view);
    reveal(when_clauses_view);
    reveal(order_by_exprs_view);
    reveal(select_columns_view);
    reveal(join_clauses_view);
    reveal(ctes_view);
}

pub broadcast proof fn statement_view_union(a: Box<Statement>, b: Box<Statement>, c: bool)
    ensures
        #[trigger] Statement::Union(a, b, c).view() == StatementView::Union(Box::new(a@), Box::new(b@), c),
{
    reveal(Statement::view);
    reveal(Expr::view);
    reveal(OrderByExpr::view);
    reveal(SelectColumn::view);
    reveal(FromClause::view);
    reveal(Cte::view);
    reveal(JoinClause::view);
    reveal(SelectStmt::view);
    reveal(exprs_view);
    reveal(when_clauses_view);
    reveal(order_by_exprs_view);
    reveal(select_columns_view);
    reveal(join_clauses_view);
    reveal(ctes_view);
}

pub broadcast proof fn statement_view_intersect(a: Box<Statement>, b: Box<Statement>, c: bool)
    ensures
        #[trigger] Statement::Intersect(a, b, c).view() == StatementView::Intersect(Box::new(a@), Box::new(b@), c),
{
    reveal(Statement::view);
    reveal(Expr::view);
    reveal(OrderByExpr::view);
    reveal(SelectColumn::view);
    reveal(FromClause::view);
    reveal(Cte::view);
    reveal(JoinClause::view);
    reveal(SelectStmt::view);
    reveal(exprs_view);
    reveal(when_clauses_view);
    reveal(order_by_exprs_view);
    reveal(select_columns_view);
    reveal(join_clauses_view);
    reveal(ctes_view);
}

pub broadcast proof fn statement_view_except(a: Box<Statement>, b: Box<Statement>, c: bool)
    ensures
        #[trigger] Statement::Except(a, b, c).view() == StatementView::Except(Box::new(a@), Box::new(b@), c),
{
    reveal(Statement::view);
    reveal(Expr::view);
    reveal(OrderByExpr::view);
    reveal(SelectColumn::view);
    reveal(FromClause::view);
    reveal(Cte::view);
    reveal(JoinClause::view);
    reveal(SelectStmt::view);
    reveal(exprs_view);
    reveal(when_clauses_view);
    reveal(order_by_exprs_view);
    reveal(select_columns_view);
    reveal(join_clauses_view);
    reveal(ctes_view);
}

pub broadcast proof fn statement_view_select(a: SelectStmt)
    ensures
        #[trigger] Statement::Select(a).view() == StatementView::Select(a@),
{
    reveal(Statement::view);
    reveal(Expr::view);
    reveal(OrderByExpr::view);
    reveal(SelectColumn::view);
    reveal(FromClause::view);
    reveal(Cte::view);
    reveal(JoinClause::view);
    reveal(SelectStmt::view);
    reveal(exprs_view);
    reveal(when_clauses_view);
    reveal(order_by_exprs_view);
    reveal(select_columns_view);
    reveal(join_clauses_view);
    reveal(ctes_view);
}

pub broadcast proof fn statement_view_insert(a: InsertStmt)
    ensures
        #[trigger] Statement::Insert(a).view() == StatementView::Insert(a@),
{
    reveal(Statement::view);
    reveal(Expr::view);
    reveal(OrderByExpr::view);
    reveal(SelectColumn::view);
    reveal(FromClause::view);
    reveal(Cte::view);
    reveal(JoinClause::view);
    reveal(SelectStmt::view);
    reveal(exprs_view);
    reveal(when_clauses_view);
    reveal(order_by_exprs_view);
    reveal(select_columns_view);
    reveal(join_clauses_view);
    reveal(ctes_view);
}

pub broadcast proof fn statement_view_update(a: UpdateStmt)
    ensures
        #[trigger] Statement::Update(a).view() == StatementView::Update(a@),
{
    reveal(Statement::view);
    reveal(Expr::view);
    reveal(OrderByExpr::view);
    reveal(SelectColumn::view);
    reveal(FromClause::view);
    reveal(Cte::view);
    reveal(JoinClause::view);
    reveal(SelectStmt::view);
    reveal(exprs_view);
    reveal(when_clauses_view);
    reveal(order_by_exprs_view);
    reveal(select_columns_view);
    reveal(join_clauses_view);
    reveal(ctes_view);
}

pub broadcast proof fn statement_view_delete(a: DeleteStmt)
    ensures
        #[trigger] Statement::Delete(a).view() == StatementView::Delete(a@),
{
    reveal(Statement::view);
    reveal(Expr::view);
    reveal(OrderByExpr::view);
    reveal(SelectColumn::view);
    reveal(FromClause::view);
    reveal(Cte::view);
    reveal(JoinClause::view);
    reveal(SelectStmt::view);
    reveal(exprs_view);
    reveal(when_clauses_view);
    reveal(order_by_exprs_view);
    reveal(select_columns_view);
    reveal(join_clauses_view);
    reveal(ctes_view);
}

pub broadcast proof fn statement_view_kv_get(a: String)
    ensures
        #[trigger] Statement::KvGet(a).view() == StatementView::KvGet(a@),
{
    reveal(Statement::view);
    reveal(Expr::view);
    reveal(OrderByExpr::view);
    reveal(SelectColumn::view);
    reveal(FromClause::view);
    reveal(Cte::view);
    reveal(JoinClause::view);
    reveal(SelectStmt::view);
    reveal(exprs_view);
    reveal(when_clauses_view);
    reveal(order_by_exprs_view);
    reveal(select_columns_view);
    reveal(join_clauses_view);
    reveal(ctes_view);
}

pub broadcast proof fn statement_view_kv_set(a: String, b: String)
    ensures
        #[trigger] Statement::KvSet(a, b).view() == StatementView::KvSet(a@, b@),
{
    reveal(Statement::view);
    reveal(Expr::view);
    reveal(OrderByExpr::view);
    reveal(SelectColumn::view);
    reveal(FromClause::view);
    reveal(Cte::view);
    reveal(JoinClause::view);
    reveal(SelectStmt::view);
    reveal(exprs_view);
    reveal(when_clauses_view);
    reveal(order_by_exprs_view);
    reveal(select_columns_view);
    reveal(join_clauses_view);
    reveal(ctes_view);
}

pub broadcast proof fn statement_view_kv_delete(a: String)
    ensures
        #[trigger] Statement::KvDelete(a).view() == StatementView::KvDelete(a@),
{
    reveal(Statement::view);
    reveal(Expr::view);
    reveal(OrderByExpr::view);
    reveal(SelectColumn::view);
    reveal(FromClause::view);
    reveal(Cte::view);
    reveal(JoinClause::view);
    reveal(SelectStmt::view);
    reveal(exprs_view);
    reveal(when_clauses_view);
    reveal(order_by_exprs_view);
    reveal(select_columns_view);
    reveal(join_clauses_view);
    reveal(ctes_view);
}

pub broadcast proof fn statement_view_kv_scan(a: String, b: String)
    ensures
        #[trigger] Statement::KvScan(a, b).view() == StatementView::KvScan(a@, b@),
{
    reveal(Statement::view);
    reveal(Expr::view);
    reveal(OrderByExpr::view);
    reveal(SelectColumn::view);
    reveal(FromClause::view);
    reveal(Cte::view);
    reveal(JoinClause::view);
    reveal(SelectStmt::view);
    reveal(exprs_view);
    reveal(when_clauses_view);
    reveal(order_by_exprs_view);
    reveal(select_columns_view);
    reveal(join_clauses_view);
    reveal(ctes_view);
}

pub broadcast proof fn statement_view_doc_insert(a: DocInsertStmt)
    ensures
        #[trigger] Statement::DocInsert(a).view() == StatementView::DocInsert(a@),
{
    reveal(Statement::view);
    reveal(Expr::view);
    reveal(OrderByExpr::view);
    reveal(SelectColumn::view);
    reveal(FromClause::view);
    reveal(Cte::view);
    reveal(JoinClause::view);
    reveal(SelectStmt::view);
    reveal(exprs_view);
    reveal(when_clauses_view);
    reveal(order_by_exprs_view);
    reveal(select_columns_view);
    reveal(join_clauses_view);
    reveal(ctes_view);
}

pub broadcast proof fn statement_view_doc_find(a: DocFindStmt)
    ensures
        #[trigger] Statement::DocFind(a).view() == StatementView::DocFind(a@),
{
    reveal(Statement::view);
    reveal(Expr::view);
    reveal(OrderByExpr::view);
    reveal(SelectColumn::view);
    reveal(FromClause::view);
    reveal(Cte::view);
    reveal(JoinClause::view);
    reveal(SelectStmt::view);
    reveal(exprs_view);
    reveal(when_clauses_view);
    reveal(order_by_exprs_view);
    reveal(select_columns_view);
    reveal(join_clauses_view);
    reveal(ctes_view);
}

pub broadcast proof fn statement_view_doc_update(a: DocUpdateStmt)
    ensures
        #[trigger] Statement::DocUpdate(a).view() == StatementView::DocUpdate(a@),
{
    reveal(Statement::view);
    reveal(Expr::view);
    reveal(OrderByExpr::view);
    reveal(SelectColumn::view);
    reveal(FromClause::view);
    reveal(Cte::view);
    reveal(JoinClause::view);
    reveal(SelectStmt::view);
    reveal(exprs_view);
    reveal(when_clauses_view);
    reveal(order_by_exprs_view);
    reveal(select_columns_view);
    reveal(join_clauses_view);
    reveal(ctes_view);
}

pub broadcast proof fn statement_view_doc_delete(a: DocDeleteStmt)
    ensures
        #[trigger] Statement::DocDelete(a).view() == StatementView::DocDelete(a@),
{
    reveal(Statement::view);
    reveal(Expr::view);
    reveal(OrderByExpr::view);
    reveal(SelectColumn::view);
    reveal(FromClause::view);
    reveal(Cte::view);
    reveal(JoinClause::view);
    reveal(SelectStmt::view);
    reveal(exprs_view);
    reveal(when_clauses_view);
    reveal(order_by_exprs_view);
    reveal(select_columns_view);
    reveal(join_clauses_view);
    reveal(ctes_view);
}

pub broadcast proof fn statement_view_begin(a: Option<IsolationLevel>)
    ensures
        #[trigger] Statement::Begin(a).view() == StatementView::Begin(a),
{
    reveal(Statement::view);
    reveal(Expr::view);
    reveal(OrderByExpr::view);
    reveal(SelectColumn::view);
    reveal(FromClause::view);
    reveal(Cte::view);
    reveal(JoinClause::view);
    reveal(SelectStmt::view);
    reveal(exprs_view);
    reveal(when_clauses_view);
    reveal(order_by_exprs_view);
    reveal(select_columns_view);
    reveal(join_clauses_view);
    reveal(ctes_view);
}

pub broadcast proof fn statement_view_show_columns(a: String)
    ensures
        #[trigger] Statement::ShowColumns(a).view() == StatementView::ShowColumns(a@),
{
    reveal(Statement::view);
    reveal(Expr::view);
    reveal(OrderByExpr::view);
    reveal(SelectColumn::view);
    reveal(FromClause::view);
    reveal(Cte::view);
    reveal(JoinClause::view);
    reveal(SelectStmt::view);
    reveal(exprs_view);
    reveal(when_clauses_view);
    reveal(order_by_exprs_view);
    reveal(select_columns_view);
    reveal(join_clauses_view);
    reveal(ctes_view);
}

pub broadcast proof fn statement_view_show_create_table(a: String)
    ensures
        #[trigger] Statement::ShowCreateTable(a).view() == StatementView::ShowCreateTable(a@),
{
    reveal(Statement::view);
    reveal(Expr::view);
    reveal(OrderByExpr::view);
    reveal(SelectColumn::view);
    reveal(FromClause::view);
    reveal(Cte::view);
    reveal(JoinClause::view);
    reveal(SelectStmt::view);
    reveal(exprs_view);
    reveal(when_clauses_view);
    reveal(order_by_exprs_view);
    reveal(select_columns_view);
    reveal(join_clauses_view);
    reveal(ctes_view);
}

pub broadcast proof fn statement_view_describe(a: String)
    ensures
        #[trigger] Statement::Describe(a).view() == StatementView::Describe(a@),
{
    reveal(Statement::view);
    reveal(Expr::view);
    reveal(OrderByExpr::view);
    reveal(SelectColumn::view);
    reveal(FromClause::view);
    reveal(Cte::view);
    reveal(JoinClause::view);
    reveal(SelectStmt::view);
    reveal(exprs_view);
    reveal(when_clauses_view);
    reveal(order_by_exprs_view);
    reveal(select_columns_view);
    reveal(join_clauses_view);
    reveal(ctes_view);
}

pub broadcast proof fn statement_view_explain(a: Box<Statement>, b: bool)
    ensures
        #[trigger] Statement::Explain(a, b).view() == StatementView::Explain(Box::new(a@), b),
{
    reveal(Statement::view);
    reveal(Expr::view);
    reveal(OrderByExpr::view);
    reveal(SelectColumn::view);
    reveal(FromClause::view);
    reveal(Cte::view);
    reveal(JoinClause::view);
    reveal(SelectStmt::view);
    reveal(exprs_view);
    reveal(when_clauses_view);
    reveal(order_by_exprs_view);
    reveal(select_columns_view);
    reveal(join_clauses_view);
    reveal(ctes_view);
}

pub broadcast proof fn statement_view_truncate(a: String)
    ensures
        #[trigger] Statement::Truncate(a).view() == StatementView::Truncate(a@),
{
    reveal(Statement::view);
    reveal(Expr::view);
    reveal(OrderByExpr::view);
    reveal(SelectColumn::view);
    reveal(FromClause::view);
    reveal(Cte::view);
    reveal(JoinClause::view);
    reveal(SelectStmt::view);
    reveal(exprs_view);
    reveal(when_clauses_view);
    reveal(order_by_exprs_view);
    reveal(select_columns_view);
    reveal(join_clauses_view);
    reveal(ctes_view);
}

pub broadcast proof fn statement_view_create_database(name: String, if_not_exists: bool)
    ensures
        #[trigger] (Statement::CreateDatabase { name, if_not_exists }).view() == (StatementView::CreateDatabase { name: name@, if_not_exists: if_not_exists }),
{
    reveal(Statement::view);
    reveal(Expr::view);
    reveal(OrderByExpr::view);
    reveal(SelectColumn::view);
    reveal(FromClause::view);
    reveal(Cte::view);
    reveal(JoinClause::view);
    reveal(SelectStmt::view);
    reveal(exprs_view);
    reveal(when_clauses_view);
    reveal(order_by_exprs_view);
    reveal(select_columns_view);
    reveal(join_clauses_view);
    reveal(ctes_view);
}

pub broadcast proof fn statement_view_drop_database(name: String, if_exists: bool)
    ensures
        #[trigger] (Statement::DropDatabase { name, if_exists }).view() == (StatementView::DropDatabase { name: name@, if_exists: if_exists }),
{
    reveal(Statement::view);
    reveal(Expr::view);
    reveal(OrderByExpr::view);
    reveal(SelectColumn::view);
    reveal(FromClause::view);
    reveal(Cte::view);
    reveal(JoinClause::view);
    reveal(SelectStmt::view);
    reveal(exprs_view);
    reveal(when_clauses_view);
    reveal(order_by_exprs_view);
    reveal(select_columns_view);
    reveal(join_clauses_view);
    reveal(ctes_view);
}

pub broadcast proof fn statement_view_use_database(a: String)
    ensures
        #[trigger] Statement::UseDatabase(a).view() == StatementView::UseDatabase(a@),
{
    reveal(Statement::view);
    reveal(Expr::view);
    reveal(OrderByExpr::view);
    reveal(SelectColumn::view);
    reveal(FromClause::view);
    reveal(Cte::view);
    reveal(JoinClause::view);
    reveal(SelectStmt::view);
    reveal(exprs_view);
    reveal(when_clauses_view);
    reveal(order_by_exprs_view);
    reveal(select_columns_view);
    reveal(join_clauses_view);
    reveal(ctes_view);
}

pub broadcast proof fn statement_view_analyze(a: Option<String>)
    ensures
        #[trigger] Statement::Analyze(a).view() == StatementView::Analyze(match a { Some(y) => Some(y@), None => None }),
{
    reveal(Statement::view);
    reveal(Expr::view);
    reveal(OrderByExpr::view);
    reveal(SelectColumn::view);
    reveal(FromClause::view);
    reveal(Cte::view);
    reveal(JoinClause::view);
    reveal(SelectStmt::view);
    reveal(exprs_view);
    reveal(when_clauses_view);
    reveal(order_by_exprs_view);
    reveal(select_columns_view);
    reveal(join_clauses_view);
    reveal(ctes_view);
}

pub broadcast proof fn statement_view_show_stats(a: Option<String>)
    ensures
        #[trigger] Statement::ShowStats(a).view() == StatementView::ShowStats(match a { Some(y) => Some(y@), None => None }),
{
    reveal(Statement::view);
    reveal(Expr::view);
    reveal(OrderByExpr::view);
    reveal(SelectColumn::view);
    reveal(FromClause::view);
    reveal(Cte::view);
    reveal(JoinClause::view);
    reveal(SelectStmt::view);
    reveal(exprs_view);
    reveal(when_clauses_view);
    reveal(order_by_exprs_view);
    reveal(select_columns_view);
    reveal(join_clauses_view);
    reveal(ctes_view);
}

pub broadcast proof fn statement_view_backup(path: String)
    ensures
        #[trigger] (Statement::Backup { path }).view() == (StatementView::Backup { path: path@ }),
{
    reveal(Statement::view);
    reveal(Expr::view);
    reveal(OrderByExpr::view);
    reveal(SelectColumn::view);
    reveal(FromClause::view);
    reveal(Cte::view);
    reveal(JoinClause::view);
    reveal(SelectStmt::view);
    reveal(exprs_view);
    reveal(when_clauses_view);
    reveal(order_by_exprs_view);
    reveal(select_columns_view);
    reveal(join_clauses_view);
    reveal(ctes_view);
}

pub broadcast proof fn statement_view_restore(path: String, to_lsn: Option<u64>)
    ensures
        #[trigger] (Statement::Restore { path, to_lsn }).view() == (StatementView::Restore { path: path@, to_lsn: to_lsn }),
{
    reveal(Statement::view);
    reveal(Expr::view);
    reveal(OrderByExpr::view);
    reveal(SelectColumn::view);
    reveal(FromClause::view);
    reveal(Cte::view);
    reveal(JoinClause::view);
    reveal(SelectStmt::view);
    reveal(exprs_view);
    reveal(when_clauses_view);
    reveal(order_by_exprs_view);
    reveal(select_columns_view);
    reveal(join_clauses_view);
    reveal(ctes_view);
}

impl Statement {
    /// The view of a value in terms of the views of its parts.
    pub proof fn unfold(self)
        ensures
            self@ == (match self {
            Statement::CreateTable(a) => StatementView::CreateTable(a@),
            Statement::DropTable(a) => StatementView::DropTable(a@),
            Statement::CreateIndex(a) => StatementView::CreateIndex(a@),
            Statement::DropIndex(a) => StatementView::DropIndex(a@),
            Statement::AlterTable(a) => StatementView::AlterTable(a@),
            Statement::Union(a, b, c) => StatementView::Union(Box::new(a@), Box::new(b@), c),
            Statement::Intersect(a, b, c) => StatementView::Intersect(Box::new(a@), Box::new(b@), c),
            Statement::Except(a, b, c) => StatementView::Except(Box::new(a@), Box::new(b@), c),
            Statement::Select(a) => StatementView::Select(a@),
            Statement::Insert(a) => StatementView::Insert(a@),
            Statement::Update(a) => StatementView::Update(a@),
            Statement::Delete(a) => StatementView::Delete(a@),
            Statement::KvGet(a) => StatementView::KvGet(a@),
            Statement::KvSet(a, b) => StatementView::KvSet(a@, b@),
            Statement::KvDelete(a) => StatementView::KvDelete(a@),
            Statement::KvScan(a, b) => StatementView::KvScan(a@, b@),
            Statement::DocInsert(a) => StatementView::DocInsert(a@),
            Statement::DocFind(a) => StatementView::DocFind(a@),
            Statement::DocUpdate(a) => StatementView::DocUpdate(a@),
            Statement::DocDelete(a) => StatementView::DocDelete(a@),
            Statement::Begin(a) => StatementView::Begin(a),
            Statement::Commit => StatementView::Commit,
            Statement::Rollback => StatementView::Rollback,
            Statement::ShowTables => StatementView::ShowTables,
            Statement::ShowColumns(a) => StatementView::ShowColumns(a@),
            Statement::ShowCreateTable(a) => StatementView::ShowCreateTable(a@),
            Statement::Describe(a) => StatementView::Describe(a@),
            Statement::Explain(a, b) => StatementView::Explain(Box::new(a@), b),
            Statement::Truncate(a) => StatementView::Truncate(a@),
            Statement::CreateDatabase { name, if_not_exists } => StatementView::CreateDatabase { name: name@, if_not_exists: if_not_exists },
            Statement::DropDatabase { name, if_exists } => StatementView::DropDatabase { name: name@, if_exists: if_exists },
            Statement::UseDatabase(a) => StatementView::UseDatabase(a@),
            Statement::ShowDatabases => StatementView::ShowDatabases,
            Statement::Analyze(a) => StatementView::Analyze(match a { Some(y) => Some(y@), None => None }),
            Statement::ShowStats(a) => StatementView::ShowStats(match a { Some(y) => Some(y@), None => None }),
            Statement::Backup { path } => StatementView::Backup { path: path@ },
            Statement::Restore { path, to_lsn } => StatementView::Restore { path: path@, to_lsn: to_lsn },
            Statement::Migrate => StatementView::Migrate,
        }),
    {
        reveal(Statement::view);
        reveal(Expr::view);
        reveal(OrderByExpr::view);
        reveal(SelectColumn::view);
        reveal(FromClause::view);
        reveal(Cte::view);
        reveal(JoinClause::view);
        reveal(SelectStmt::view);
        reveal(exprs_view);
        reveal(when_clauses_view);
        reveal(order_by_exprs_view);
        reveal(select_columns_view);
        reveal(join_clauses_view);
        reveal(ctes_view);
    }
}

impl Clone for Statement {
    fn clone(&self) -> (r: Self)
        ensures
            r@ == self@,
    {
        self.dup()
    }
}

/// The views of a sequence, item by item.
#[verifier::opaque]
pub open spec fn exprs_view(s: Seq<Expr>) -> Seq<ExprView>
    decreases s,
{
    Seq::new(s.len(), |i: int| if 0 <= i < s.len() { s[i]@ } else { arbitrary() })
}

pub broadcast proof fn exprs_push(s: Seq<Expr>, e: Expr)
    ensures
        #[trigger] exprs_view(s.push(e)) == exprs_view(s).push(e@),
{
    reveal(exprs_view);
    reveal(Expr::view);
    reveal(OrderByExpr::view);
    reveal(SelectColumn::view);
    reveal(FromClause::view);
    reveal(Cte::view);
    reveal(JoinClause::view);
    reveal(SelectStmt::view);
    reveal(when_clauses_view);
    reveal(order_by_exprs_view);
    reveal(select_columns_view);
    reveal(join_clauses_view);
    reveal(ctes_view);
    assert(exprs_view(s.push(e)) =~= exprs_view(s).push(e@));
}

pub broadcast proof fn exprs_len(s: Seq<Expr>)
    ensures
        (#[trigger] exprs_view(s)).len() == s.len(),
{
    reveal(exprs_view);
    reveal(Expr::view);
    reveal(OrderByExpr::view);
    reveal(SelectColumn::view);
    reveal(FromClause::view);
    reveal(Cte::view);
    reveal(JoinClause::view);
    reveal(SelectStmt::view);
    reveal(when_clauses_view);
    reveal(order_by_exprs_view);
    reveal(select_columns_view);
    reveal(join_clauses_view);
    reveal(ctes_view);
}

pub broadcast proof fn exprs_at(s: Seq<Expr>, i: int)
    requires
        0 <= i < s.len(),
    ensures
        #[trigger] exprs_view(s)[i] == s[i]@,
{
    reveal(exprs_view);
    reveal(Expr::view);
    reveal(OrderByExpr::view);
    reveal(SelectColumn::view);
    reveal(FromClause::view);
    reveal(Cte::view);
    reveal(JoinClause::view);
    reveal(SelectStmt::view);
    reveal(when_clauses_view);
    reveal(order_by_exprs_view);
    reveal(select_columns_view);
    reveal(join_clauses_view);
    reveal(ctes_view);
}

pub broadcast proof fn exprs_empty()
    ensures
        #[trigger] exprs_view(Seq::<Expr>::empty()) == Seq::<ExprView>::empty(),
{
    reveal(exprs_view);
    reveal(Expr::view);
    reveal(OrderByExpr::view);
    reveal(SelectColumn::view);
    reveal(FromClause::view);
    reveal(Cte::view);
    reveal(JoinClause::view);
    reveal(SelectStmt::view);
    reveal(when_clauses_view);
    reveal(order_by_exprs_view);
    reveal(select_columns_view);
    reveal(join_clauses_view);
    reveal(ctes_view);
    assert(exprs_view(Seq::<Expr>::empty()) =~= Seq::empty());
}

/// A copy of a list, item by item.
pub fn dup_exprs(v: &Vec<Expr>) -> (r: Vec<Expr>)
    ensures
        exprs_view(r@) == exprs_view(v@),
    decreases v,
{
    let mut r: Vec<Expr> = Vec::new();
    let mut i: usize = 0;
    proof {
        reveal(exprs_view);
        reveal(Expr::view);
        reveal(OrderByExpr::view);
        reveal(SelectColumn::view);
        reveal(FromClause::view);
        reveal(Cte::view);
        reveal(JoinClause::view);
        reveal(SelectStmt::view);
        reveal(when_clauses_view);
        reveal(order_by_exprs_view);
        reveal(select_columns_view);
        reveal(join_clauses_view);
        reveal(ctes_view);
    }
    while i < v.len()
        invariant
            i <= v.len(),
            exprs_view(r@) == exprs_view(v@).take(i as int),
        decreases v.len() - i,
    {
        let e = v[i].dup();
        proof {
            reveal(exprs_view);
            reveal(Expr::view);
            reveal(OrderByExpr::view);
            reveal(SelectColumn::view);
            reveal(FromClause::view);
            reveal(Cte::view);
            reveal(JoinClause::view);
            reveal(SelectStmt::view);
            reveal(when_clauses_view);
            reveal(order_by_exprs_view);
            reveal(select_columns_view);
            reveal(join_clauses_view);
            reveal(ctes_view);
            exprs_push(r@, e);
            assert(exprs_view(v@).take(i + 1) =~= exprs_view(v@).take(i as int).push(v@[i as int]@));
        }
        r.push(e);
        i = i + 1;
    }
    assert(exprs_view(v@).take(v@.len() as int) =~= exprs_view(v@));
    r
}

/// The views of a sequence, item by item.
#[verifier::opaque]
pub open spec fn when_clauses_view(s: Seq<(Expr, Expr)>) -> Seq<(ExprView, ExprView)>
    decreases s,
{
    Seq::new(s.len(), |i: int| if 0 <= i < s.len() { (s[i].0@, s[i].1@) } else { arbitrary() })
}

pub broadcast proof fn when_clauses_push(s: Seq<(Expr, Expr)>, e: (Expr, Expr))
    ensures
        #[trigger] when_clauses_view(s.push(e)) == when_clauses_view(s).push((e.0@, e.1@)),
{
    reveal(when_clauses_view);
    reveal(Expr::view);
    reveal(OrderByExpr::view);
    reveal(SelectColumn::view);
    reveal(FromClause::view);
    reveal(Cte::view);
    reveal(JoinClause::view);
    reveal(SelectStmt::view);
    reveal(exprs_view);
    reveal(order_by_exprs_view);
    reveal(select_columns_view);
    reveal(join_clauses_view);
    reveal(ctes_view);
    assert(when_clauses_view(s.push(e)) =~= when_clauses_view(s).push((e.0@, e.1@)));
}

pub broadcast proof fn when_clauses_len(s: Seq<(Expr, Expr)>)
    ensures
        (#[trigger] when_clauses_view(s)).len() == s.len(),
{
    reveal(when_clauses_view);
    reveal(Expr::view);
    reveal(OrderByExpr::view);
    reveal(SelectColumn::view);
    reveal(FromClause::view);
    reveal(Cte::view);
    reveal(JoinClause::view);
    reveal(SelectStmt::view);
    reveal(exprs_view);
    reveal(order_by_exprs_view);
    reveal(select_columns_view);
    reveal(join_clauses_view);
    reveal(ctes_view);
}

pub broadcast proof fn when_clauses_at(s: Seq<(Expr, Expr)>, i: int)
    requires
        0 <= i < s.len(),
    ensures
        #[trigger] when_clauses_view(s)[i] == (s[i].0@, s[i].1@),
{
    reveal(when_clauses_view);
    reveal(Expr::view);
    reveal(OrderByExpr::view);
    reveal(SelectColumn::view);
    reveal(FromClause::view);
    reveal(Cte::view);
    reveal(JoinClause::view);
    reveal(SelectStmt::view);
    reveal(exprs_view);
    reveal(order_by_exprs_view);
    reveal(select_columns_view);
    reveal(join_clauses_view);
    reveal(ctes_view);
}

pub broadcast proof fn when_clauses_empty()
    ensures
        #[trigger] when_clauses_view(Seq::<(Expr, Expr)>::empty()) == Seq::<(ExprView, ExprView)>::empty(),
{
    reveal(when_clauses_view);
    reveal(Expr::view);
    reveal(OrderByExpr::view);
    reveal(SelectColumn::view);
    reveal(FromClause::view);
    reveal(Cte::view);
    reveal(JoinClause::view);
    reveal(SelectStmt::view);
    reveal(exprs_view);
    reveal(order_by_exprs_view);
    reveal(select_columns_view);
    reveal(join_clauses_view);
    reveal(ctes_view);
    assert(when_clauses_view(Seq::<(Expr, Expr)>::empty()) =~= Seq::empty());
}

/// A copy of a list, item by item.
pub fn dup_when_clauses(v: &Vec<(Expr, Expr)>) -> (r: Vec<(Expr, Expr)>)
    ensures
        when_clauses_view(r@) == when_clauses_view(v@),
    decreases v,
{
    let mut r: Vec<(Expr, Expr)> = Vec::new();
    let mut i: usize = 0;
    proof {
        reveal(when_clauses_view);
        reveal(Expr::view);
        reveal(OrderByExpr::view);
        reveal(SelectColumn::view);
        reveal(FromClause::view);
        reveal(Cte::view);
        reveal(JoinClause::view);
        reveal(SelectStmt::view);
        reveal(exprs_view);
        reveal(order_by_exprs_view);
        reveal(select_columns_view);
        reveal(join_clauses_view);
        reveal(ctes_view);
    }
    while i < v.len()
        invariant
            i <= v.len(),
            when_clauses_view(r@) == when_clauses_view(v@).take(i as int),
        decreases v.len() - i,
    {
        let e = (v[i].0.dup(), v[i].1.dup());
        proof {
            reveal(when_clauses_view);
            reveal(Expr::view);
            reveal(OrderByExpr::view);
            reveal(SelectColumn::view);
            reveal(FromClause::view);
            reveal(Cte::view);
            reveal(JoinClause::view);
            reveal(SelectStmt::view);
            reveal(exprs_view);
            reveal(order_by_exprs_view);
            reveal(select_columns_view);
            reveal(join_clauses_view);
            reveal(ctes_view);
            when_clauses_push(r@, e);
            assert(when_clauses_view(v@).take(i + 1) =~= when_clauses_view(v@).take(i as int).push((v@[i as int].0@, v@[i as int].1@)));
        }
        r.push(e);
        i = i + 1;
    }
    assert(when_clauses_view(v@).take(v@.len() as int) =~= when_clauses_view(v@));
    r
}

/// The views of a sequence, item by item.
#[verifier::opaque]
pub open spec fn order_by_exprs_view(s: Seq<OrderByExpr>) -> Seq<OrderByExprView>
    decreases s,
{
    Seq::new(s.len(), |i: int| if 0 <= i < s.len() { s[i]@ } else { arbitrary() })
}

pub broadcast proof fn order_by_exprs_push(s: Seq<OrderByExpr>, e: OrderByExpr)
    ensures
        #[trigger] order_by_exprs_view(s.push(e)) == order_by_exprs_view(s).push(e@),
{
    reveal(order_by_exprs_view);
    reveal(Expr::view);
    reveal(OrderByExpr::view);
    reveal(SelectColumn::view);
    reveal(FromClause::view);
    reveal(Cte::view);
    reveal(JoinClause::view);
    reveal(SelectStmt::view);
    reveal(exprs_view);
    reveal(when_clauses_view);
    reveal(select_columns_view);
    reveal(join_clauses_view);
    reveal(ctes_view);
    assert(order_by_exprs_view(s.push(e)) =~= order_by_exprs_view(s).push(e@));
}

pub broadcast proof fn order_by_exprs_len(s: Seq<OrderByExpr>)
    ensures
        (#[trigger] order_by_exprs_view(s)).len() == s.len(),
{
    reveal(order_by_exprs_view);
    reveal(Expr::view);
    reveal(OrderByExpr::view);
    reveal(SelectColumn::view);
    reveal(FromClause::view);
    reveal(Cte::view);
    reveal(JoinClause::view);
    reveal(SelectStmt::view);
    reveal(exprs_view);
    reveal(when_clauses_view);
    reveal(select_columns_view);
    reveal(join_clauses_view);
    reveal(ctes_view);
}

pub broadcast proof fn order_by_exprs_at(s: Seq<OrderByExpr>, i: int)
    requires
        0 <= i < s.len(),
    ensures
        #[trigger] order_by_exprs_view(s)[i] == s[i]@,
{
    reveal(order_by_exprs_view);
    reveal(Expr::view);
    reveal(OrderByExpr::view);
    reveal(SelectColumn::view);
    reveal(FromClause::view);
    reveal(Cte::view);
    reveal(JoinClause::view);
    reveal(SelectStmt::view);
    reveal(exprs_view);
    reveal(when_clauses_view);
    reveal(select_columns_view);
    reveal(join_clauses_view);
    reveal(ctes_view);
}

pub broadcast proof fn order_by_exprs_empty()
    ensures
        #[trigger] order_by_exprs_view(Seq::<OrderByExpr>::empty()) == Seq::<OrderByExprView>::empty(),
{
    reveal(order_by_exprs_view);
    reveal(Expr::view);
    reveal(OrderByExpr::view);
    reveal(SelectColumn::view);
    reveal(FromClause::view);
    reveal(Cte::view);
    reveal(JoinClause::view);
    reveal(SelectStmt::view);
    reveal(exprs_view);
    reveal(when_clauses_view);
    reveal(select_columns_view);
    reveal(join_clauses_view);
    reveal(ctes_view);
    assert(order_by_exprs_view(Seq::<OrderByExpr>::empty()) =~= Seq::empty());
}

/// A copy of a list, item by item.
pub fn dup_order_by_exprs(v: &Vec<OrderByExpr>) -> (r: Vec<OrderByExpr>)
    ensures
        order_by_exprs_view(r@) == order_by_exprs_view(v@),
    decreases v,
{
    let mut r: Vec<OrderByExpr> = Vec::new();
    let mut i: usize = 0;
    proof {
        reveal(order_by_exprs_view);
        reveal(Expr::view);
        reveal(OrderByExpr::view);
        reveal(SelectColumn::view);
        reveal(FromClause::view);
        reveal(Cte::view);
        reveal(JoinClause::view);
        reveal(SelectStmt::view);
        reveal(exprs_view);
        reveal(when_clauses_view);
        reveal(select_columns_view);
        reveal(join_clauses_view);
        reveal(ctes_view);
    }
    while i < v.len()
        invariant
            i <= v.len(),
            order_by_exprs_view(r@) == order_by_exprs_view(v@).take(i as int),
        decreases v.len() - i,
    {
        let e = v[i].dup();
        proof {
            reveal(order_by_exprs_view);
            reveal(Expr::view);
            reveal(OrderByExpr::view);
            reveal(SelectColumn::view);
            reveal(FromClause::view);
            reveal(Cte::view);
            reveal(JoinClause::view);
            reveal(SelectStmt::view);
            reveal(exprs_view);
            reveal(when_clauses_view);
            reveal(select_columns_view);
            reveal(join_clauses_view);
            reveal(ctes_view);
            order_by_exprs_push(r@, e);
            assert(order_by_exprs_view(v@).take(i + 1) =~= order_by_exprs_view(v@).take(i as int).push(v@[i as int]@));
        }
        r.push(e);
        i = i + 1;
    }
    assert(order_by_exprs_view(v@).take(v@.len() as int) =~= order_by_exprs_view(v@));
    r
}

/// The views of a sequence, item by item.
#[verifier::opaque]
pub open spec fn select_columns_view(s: Seq<SelectColumn>) -> Seq<SelectColumnView>
    decreases s,
{
    Seq::new(s.len(), |i: int| if 0 <= i < s.len() { s[i]@ } else { arbitrary() })
}

pub broadcast proof fn select_columns_push(s: Seq<SelectColumn>, e: SelectColumn)
    ensures
        #[trigger] select_columns_view(s.push(e)) == select_columns_view(s).push(e@),
{
    reveal(select_columns_view);
    reveal(Expr::view);
    reveal(OrderByExpr::view);
    reveal(SelectColumn::view);
    reveal(FromClause::view);
    reveal(Cte::view);
    reveal(JoinClause::view);
    reveal(SelectStmt::view);
    reveal(exprs_view);
    reveal(when_clauses_view);
    reveal(order_by_exprs_view);
    reveal(join_clauses_view);
    reveal(ctes_view);
    assert(select_columns_view(s.push(e)) =~= select_columns_view(s).push(e@));
}

pub broadcast proof fn select_columns_len(s: Seq<SelectColumn>)
    ensures
        (#[trigger] select_columns_view(s)).len() == s.len(),
{
    reveal(select_columns_view);
    reveal(Expr::view);
    reveal(OrderByExpr::view);
    reveal(SelectColumn::view);
    reveal(FromClause::view);
    reveal(Cte::view);
    reveal(JoinClause::view);
    reveal(SelectStmt::view);
    reveal(exprs_view);
    reveal(when_clauses_view);
    reveal(order_by_exprs_view);
    reveal(join_clauses_view);
    reveal(ctes_view);
}

pub broadcast proof fn select_columns_at(s: Seq<SelectColumn>, i: int)
    requires
        0 <= i < s.len(),
    ensures
        #[trigger] select_columns_view(s)[i] == s[i]@,
{
    reveal(select_columns_view);
    reveal(Expr::view);
    reveal(OrderByExpr::view);
    reveal(SelectColumn::view);
    reveal(FromClause::view);
    reveal(Cte::view);
    reveal(JoinClause::view);
    reveal(SelectStmt::view);
    reveal(exprs_view);
    reveal(when_clauses_view);
    reveal(order_by_exprs_view);
    reveal(join_clauses_view);
    reveal(ctes_view);
}

pub broadcast proof fn select_columns_empty()
    ensures
        #[trigger] select_columns_view(Seq::<SelectColumn>::empty()) == Seq::<SelectColumnView>::empty(),
{
    reveal(select_columns_view);
    reveal(Expr::view);
    reveal(OrderByExpr::view);
    reveal(SelectColumn::view);
    reveal(FromClause::view);
    reveal(Cte::view);
    reveal(JoinClause::view);
    reveal(SelectStmt::view);
    reveal(exprs_view);
    reveal(when_clauses_view);
    reveal(order_by_exprs_view);
    reveal(join_clauses_view);
    reveal(ctes_view);
    assert(select_columns_view(Seq::<SelectColumn>::empty()) =~= Seq::empty());
}

/// A copy of a list, item by item.
pub fn dup_select_columns(v: &Vec<SelectColumn>) -> (r: Vec<SelectColumn>)
    ensures
        select_columns_view(r@) == select_columns_view(v@),
    decreases v,
{
    let mut r: Vec<SelectColumn> = Vec::new();
    let mut i: usize = 0;
    proof {
        reveal(select_columns_view);
        reveal(Expr::view);
        reveal(OrderByExpr::view);
        reveal(SelectColumn::view);
        reveal(FromClause::view);
        reveal(Cte::view);
        reveal(JoinClause::view);
        reveal(SelectStmt::view);
        reveal(exprs_view);
        reveal(when_clauses_view);
        reveal(order_by_exprs_view);
        reveal(join_clauses_view);
        reveal(ctes_view);
    }
    while i < v.len()
        invariant
            i <= v.len(),
            select_columns_view(r@) == select_columns_view(v@).take(i as int),
        decreases v.len() - i,
    {
        let e = v[i].dup();
        proof {
            reveal(select_columns_view);
            reveal(Expr::view);
            reveal(OrderByExpr::view);
            reveal(SelectColumn::view);
            reveal(FromClause::view);
            reveal(Cte::view);
            reveal(JoinClause::view);
            reveal(SelectStmt::view);
            reveal(exprs_view);
            reveal(when_clauses_view);
            reveal(order_by_exprs_view);
            reveal(join_clauses_view);
            reveal(ctes_view);
            select_columns_push(r@, e);
            assert(select_columns_view(v@).take(i + 1) =~= select_columns_view(v@).take(i as int).push(v@[i as int]@));
        }
        r.push(e);
        i = i + 1;
    }
    assert(select_columns_view(v@).take(v@.len() as int) =~= select_columns_view(v@));
    r
}

/// The views of a sequence, item by item.
#[verifier::opaque]
pub open spec fn join_clauses_view(s: Seq<JoinClause>) -> Seq<JoinClauseView>
    decreases s,
{
    Seq::new(s.len(), |i: int| if 0 <= i < s.len() { s[i]@ } else { arbitrary() })
}

pub broadcast proof fn join_clauses_push(s: Seq<JoinClause>, e: JoinClause)
    ensures
        #[trigger] join_clauses_view(s.push(e)) == join_clauses_view(s).push(e@),
{
    reveal(join_clauses_view);
    reveal(Expr::view);
    reveal(OrderByExpr::view);
    reveal(SelectColumn::view);
    reveal(FromClause::view);
    reveal(Cte::view);
    reveal(JoinClause::view);
    reveal(SelectStmt::view);
    reveal(exprs_view);
    reveal(when_clauses_view);
    reveal(order_by_exprs_view);
    reveal(select_columns_view);
    reveal(ctes_view);
    assert(join_clauses_view(s.push(e)) =~= join_clauses_view(s).push(e@));
}

pub broadcast proof fn join_clauses_len(s: Seq<JoinClause>)
    ensures
        (#[trigger] join_clauses_view(s)).len() == s.len(),
{
    reveal(join_clauses_view);
    reveal(Expr::view);
    reveal(OrderByExpr::view);
    reveal(SelectColumn::view);
    reveal(FromClause::view);
    reveal(Cte::view);
    reveal(JoinClause::view);
    reveal(SelectStmt::view);
    reveal(exprs_view);
    reveal(when_clauses_view);
    reveal(order_by_exprs_view);
    reveal(select_columns_view);
    reveal(ctes_view);
}

pub broadcast proof fn join_clauses_at(s: Seq<JoinClause>, i: int)
    requires
        0 <= i < s.len(),
    ensures
        #[trigger] join_clauses_view(s)[i] == s[i]@,
{
    reveal(join_clauses_view);
    reveal(Expr::view);
    reveal(OrderByExpr::view);
    reveal(SelectColumn::view);
    reveal(FromClause::view);
    reveal(Cte::view);
    reveal(JoinClause::view);
    reveal(SelectStmt::view);
    reveal(exprs_view);
    reveal(when_clauses_view);
    reveal(order_by_exprs_view);
    reveal(select_columns_view);
    reveal(ctes_view);
}

pub broadcast proof fn join_clauses_empty()
    ensures
        #[trigger] join_clauses_view(Seq::<JoinClause>::empty()) == Seq::<JoinClauseView>::empty(),
{
    reveal(join_clauses_view);
    reveal(Expr::view);
    reveal(OrderByExpr::view);
    reveal(SelectColumn::view);
    reveal(FromClause::view);
    reveal(Cte::view);
    reveal(JoinClause::view);
    reveal(SelectStmt::view);
    reveal(exprs_view);
    reveal(when_clauses_view);
    reveal(order_by_exprs_view);
    reveal(select_columns_view);
    reveal(ctes_view);
    assert(join_clauses_view(Seq::<JoinClause>::empty()) =~= Seq::empty());
}

/// A copy of a list, item by item.
pub fn dup_join_clauses(v: &Vec<JoinClause>) -> (r: Vec<JoinClause>)
    ensures
        join_clauses_view(r@) == join_clauses_view(v@),
    decreases v,
{
    let mut r: Vec<JoinClause> = Vec::new();
    let mut i: usize = 0;
    proof {
        reveal(join_clauses_view);
        reveal(Expr::view);
        reveal(OrderByExpr::view);
        reveal(SelectColumn::view);
        reveal(FromClause::view);
        reveal(Cte::view);
        reveal(JoinClause::view);
        reveal(SelectStmt::view);
        reveal(exprs_view);
        reveal(when_clauses_view);
        reveal(order_by_exprs_view);
        reveal(select_columns_view);
        reveal(ctes_view);
    }
    while i < v.len()
        invariant
            i <= v.len(),
            join_clauses_view(r@) == join_clauses_view(v@).take(i as int),
        decreases v.len() - i,
    {
        let e = v[i].dup();
        proof {
            reveal(join_clauses_view);
            reveal(Expr::view);
            reveal(OrderByExpr::view);
            reveal(SelectColumn::view);
            reveal(FromClause::view);
            reveal(Cte::view);
            reveal(JoinClause::view);
            reveal(SelectStmt::view);
            reveal(exprs_view);
            reveal(when_clauses_view);
            reveal(order_by_exprs_view);
            reveal(select_columns_view);
            reveal(ctes_view);
            join_clauses_push(r@, e);
            assert(join_clauses_view(v@).take(i + 1) =~= join_clauses_view(v@).take(i as int).push(v@[i as int]@));
        }
        r.push(e);
        i = i + 1;
    }
    assert(join_clauses_view(v@).take(v@.len() as int) =~= join_clauses_view(v@));
    r
}

/// The views of a sequence, item by item.
#[verifier::opaque]
pub open spec fn ctes_view(s: Seq<Cte>) -> Seq<CteView>
    decreases s,
{
    Seq::new(s.len(), |i: int| if 0 <= i < s.len() { s[i]@ } else { arbitrary() })
}

pub broadcast proof fn ctes_push(s: Seq<Cte>, e: Cte)
    ensures
        #[trigger] ctes_view(s.push(e)) == ctes_view(s).push(e@),
{
    reveal(ctes_view);
    reveal(Expr::view);
    reveal(OrderByExpr::view);
    reveal(SelectColumn::view);
    reveal(FromClause::view);
    reveal(Cte::view);
    reveal(JoinClause::view);
    reveal(SelectStmt::view);
    reveal(exprs_view);
    reveal(when_clauses_view);
    reveal(order_by_exprs_view);
    reveal(select_columns_view);
    reveal(join_clauses_view);
    assert(ctes_view(s.push(e)) =~= ctes_view(s).push(e@));
}

pub broadcast proof fn ctes_len(s: Seq<Cte>)
    ensures
        (#[trigger] ctes_view(s)).len() == s.len(),
{
    reveal(ctes_view);
    reveal(Expr::view);
    reveal(OrderByExpr::view);
    reveal(SelectColumn::view);
    reveal(FromClause::view);
    reveal(Cte::view);
    reveal(JoinClause::view);
    reveal(SelectStmt::view);
    reveal(exprs_view);
    reveal(when_clauses_view);
    reveal(order_by_exprs_view);
    reveal(select_columns_view);
    reveal(join_clauses_view);
}

pub broadcast proof fn ctes_at(s: Seq<Cte>, i: int)
    requires
        0 <= i < s.len(),
    ensures
        #[trigger] ctes_view(s)[i] == s[i]@,
{
    reveal(ctes_view);
    reveal(Expr::view);
    reveal(OrderByExpr::view);
    reveal(SelectColumn::view);
    reveal(FromClause::view);
    reveal(Cte::view);
    reveal(JoinClause::view);
    reveal(SelectStmt::view);
    reveal(exprs_view);
    reveal(when_clauses_view);
    reveal(order_by_exprs_view);
    reveal(select_columns_view);
    reveal(join_clauses_view);
}

pub broadcast proof fn ctes_empty()
    ensures
        #[trigger] ctes_view(Seq::<Cte>::empty()) == Seq::<CteView>::empty(),
{
    reveal(ctes_view);
    reveal(Expr::view);
    reveal(OrderByExpr::view);
    reveal(SelectColumn::view);
    reveal(FromClause::view);
    reveal(Cte::view);
    reveal(JoinClause::view);
    reveal(SelectStmt::view);
    reveal(exprs_view);
    reveal(when_clauses_view);
    reveal(order_by_exprs_view);
    reveal(select_columns_view);
    reveal(join_clauses_view);
    assert(ctes_view(Seq::<Cte>::empty()) =~= Seq::empty());
}

/// A copy of a list, item by item.
pub fn dup_ctes(v: &Vec<Cte>) -> (r: Vec<Cte>)
    ensures
        ctes_view(r@) == ctes_view(v@),
    decreases v,
{
    let mut r: Vec<Cte> = Vec::new();
    let mut i: usize = 0;
    proof {
        reveal(ctes_view);
        reveal(Expr::view);
        reveal(OrderByExpr::view);
        reveal(SelectColumn::view);
        reveal(FromClause::view);
        reveal(Cte::view);
        reveal(JoinClause::view);
        reveal(SelectStmt::view);
        reveal(exprs_view);
        reveal(when_clauses_view);
        reveal(order_by_exprs_view);
        reveal(select_columns_view);
        reveal(join_clauses_view);
    }
    while i < v.len()
        invariant
            i <= v.len(),
            ctes_view(r@) == ctes_view(v@).take(i as int),
        decreases v.len() - i,
    {
        let e = v[i].dup();
        proof {
            reveal(ctes_view);
            reveal(Expr::view);
            reveal(OrderByExpr::view);
            reveal(SelectColumn::view);
            reveal(FromClause::view);
            reveal(Cte::view);
            reveal(JoinClause::view);
            reveal(SelectStmt::view);
            reveal(exprs_view);
            reveal(when_clauses_view);
            reveal(order_by_exprs_view);
            reveal(select_columns_view);
            reveal(join_clauses_view);
            ctes_push(r@, e);
            assert(ctes_view(v@).take(i + 1) =~= ctes_view(v@).take(i as int).push(v@[i as int]@));
        }
        r.push(e);
        i = i + 1;
    }
    assert(ctes_view(v@).take(v@.len() as int) =~= ctes_view(v@));
    r
}

/// The views of a sequence, item by item.
#[verifier::opaque]
pub open spec fn column_defs_view(s: Seq<ColumnDef>) -> Seq<ColumnDefView>
    decreases s,
{
    Seq::new(s.len(), |i: int| if 0 <= i < s.len() { s[i]@ } else { arbitrary() })
}

pub broadcast proof fn column_defs_push(s: Seq<ColumnDef>, e: ColumnDef)
    ensures
        #[trigger] column_defs_view(s.push(e)) == column_defs_view(s).push(e@),
{
    reveal(column_defs_view);
    reveal(Expr::view);
    reveal(OrderByExpr::view);
    reveal(SelectColumn::view);
    reveal(FromClause::view);
    reveal(Cte::view);
    reveal(JoinClause::view);
    reveal(SelectStmt::view);
    reveal(exprs_view);
    reveal(when_clauses_view);
    reveal(order_by_exprs_view);
    reveal(select_columns_view);
    reveal(join_clauses_view);
    reveal(ctes_view);
    assert(column_defs_view(s.push(e)) =~= column_defs_view(s).push(e@));
}

pub broadcast proof fn column_defs_len(s: Seq<ColumnDef>)
    ensures
        (#[trigger] column_defs_view(s)).len() == s.len(),
{
    reveal(column_defs_view);
    reveal(Expr::view);
    reveal(OrderByExpr::view);
    reveal(SelectColumn::view);
    reveal(FromClause::view);
    reveal(Cte::view);
    reveal(JoinClause::view);
    reveal(SelectStmt::view);
    reveal(exprs_view);
    reveal(when_clauses_view);
    reveal(order_by_exprs_view);
    reveal(select_columns_view);
    reveal(join_clauses_view);
    reveal(ctes_view);
}

pub broadcast proof fn column_defs_at(s: Seq<ColumnDef>, i: int)
    requires
        0 <= i < s.len(),
    ensures
        #[trigger] column_defs_view(s)[i] == s[i]@,
{
    reveal(column_defs_view);
    reveal(Expr::view);
    reveal(OrderByExpr::view);
    reveal(SelectColumn::view);
    reveal(FromClause::view);
    reveal(Cte::view);
    reveal(JoinClause::view);
    reveal(SelectStmt::view);
    reveal(exprs_view);
    reveal(when_clauses_view);
    reveal(order_by_exprs_view);
    reveal(select_columns_view);
    reveal(join_clauses_view);
    reveal(ctes_view);
}

pub broadcast proof fn column_defs_empty()
    ensures
        #[trigger] column_defs_view(Seq::<ColumnDef>::empty()) == Seq::<ColumnDefView>::empty(),
{
    reveal(column_defs_view);
    reveal(Expr::view);
    reveal(OrderByExpr::view);
    reveal(SelectColumn::view);
    reveal(FromClause::view);
    reveal(Cte::view);
    reveal(JoinClause::view);
    reveal(SelectStmt::view);
    reveal(exprs_view);
    reveal(when_clauses_view);
    reveal(order_by_exprs_view);
    reveal(select_columns_view);
    reveal(join_clauses_view);
    reveal(ctes_view);
    assert(column_defs_view(Seq::<ColumnDef>::empty()) =~= Seq::empty());
}

/// A copy of a list, item by item.
pub fn dup_column_defs(v: &Vec<ColumnDef>) -> (r: Vec<ColumnDef>)
    ensures
        column_defs_view(r@) == column_defs_view(v@),
    decreases v,
{
    let mut r: Vec<ColumnDef> = Vec::new();
    let mut i: usize = 0;
    proof {
        reveal(column_defs_view);
        reveal(Expr::view);
        reveal(OrderByExpr::view);
        reveal(SelectColumn::view);
        reveal(FromClause::view);
        reveal(Cte::view);
        reveal(JoinClause::view);
        reveal(SelectStmt::view);
        reveal(exprs_view);
        reveal(when_clauses_view);
        reveal(order_by_exprs_view);
        reveal(select_columns_view);
        reveal(join_clauses_view);
        reveal(ctes_view);
    }
    while i < v.len()
        invariant
            i <= v.len(),
            column_defs_view(r@) == column_defs_view(v@).take(i as int),
        decreases v.len() - i,
    {
        let e = v[i].dup();
        proof {
            reveal(column_defs_view);
            reveal(Expr::view);
            reveal(OrderByExpr::view);
            reveal(SelectColumn::view);
            reveal(FromClause::view);
            reveal(Cte::view);
            reveal(JoinClause::view);
            reveal(SelectStmt::view);
            reveal(exprs_view);
            reveal(when_clauses_view);
            reveal(order_by_exprs_view);
            reveal(select_columns_view);
            reveal(join_clauses_view);
            reveal(ctes_view);
            column_defs_push(r@, e);
            assert(column_defs_view(v@).take(i + 1) =~= column_defs_view(v@).take(i as int).push(v@[i as int]@));
        }
        r.push(e);
        i = i + 1;
    }
    assert(column_defs_view(v@).take(v@.len() as int) =~= column_defs_view(v@));
    r
}

/// The views of a sequence, item by item.
#[verifier::opaque]
pub open spec fn foreign_key_defs_view(s: Seq<ForeignKeyDef>) -> Seq<ForeignKeyDefView>
    decreases s,
{
    Seq::new(s.len(), |i: int| if 0 <= i < s.len() { s[i]@ } else { arbitrary() })
}

pub broadcast proof fn foreign_key_defs_push(s: Seq<ForeignKeyDef>, e: ForeignKeyDef)
    ensures
        #[trigger] foreign_key_defs_view(s.push(e)) == foreign_key_defs_view(s).push(e@),
{
    reveal(foreign_key_defs_view);
    reveal(Expr::view);
    reveal(OrderByExpr::view);
    reveal(SelectColumn::view);
    reveal(FromClause::view);
    reveal(Cte::view);
    reveal(JoinClause::view);
    reveal(SelectStmt::view);
    reveal(exprs_view);
    reveal(when_clauses_view);
    reveal(order_by_exprs_view);
    reveal(select_columns_view);
    reveal(join_clauses_view);
    reveal(ctes_view);
    assert(foreign_key_defs_view(s.push(e)) =~= foreign_key_defs_view(s).push(e@));
}

pub broadcast proof fn foreign_key_defs_len(s: Seq<ForeignKeyDef>)
    ensures
        (#[trigger] foreign_key_defs_view(s)).len() == s.len(),
{
    reveal(foreign_key_defs_view);
    reveal(Expr::view);
    reveal(OrderByExpr::view);
    reveal(SelectColumn::view);
    reveal(FromClause::view);
    reveal(Cte::view);
    reveal(JoinClause::view);
    reveal(SelectStmt::view);
    reveal(exprs_view);
    reveal(when_clauses_view);
    reveal(order_by_exprs_view);
    reveal(select_columns_view);
    reveal(join_clauses_view);
    reveal(ctes_view);
}

pub broadcast proof fn foreign_key_defs_at(s: Seq<ForeignKeyDef>, i: int)
    requires
        0 <= i < s.len(),
    ensures
        #[trigger] foreign_key_defs_view(s)[i] == s[i]@,
{
    reveal(foreign_key_defs_view);
    reveal(Expr::view);
    reveal(OrderByExpr::view);
    reveal(SelectColumn::view);
    reveal(FromClause::view);
    reveal(Cte::view);
    reveal(JoinClause::view);
    reveal(SelectStmt::view);
    reveal(exprs_view);
    reveal(when_clauses_view);
    reveal(order_by_exprs_view);
    reveal(select_columns_view);
    reveal(join_clauses_view);
    reveal(ctes_view);
}

pub broadcast proof fn foreign_key_defs_empty()
    ensures
        #[trigger] foreign_key_defs_view(Seq::<ForeignKeyDef>::empty()) == Seq::<ForeignKeyDefView>::empty(),
{
    reveal(foreign_key_defs_view);
    reveal(Expr::view);
    reveal(OrderByExpr::view);
    reveal(SelectColumn::view);
    reveal(FromClause::view);
    reveal(Cte::view);
    reveal(JoinClause::view);
    reveal(SelectStmt::view);
    reveal(exprs_view);
    reveal(when_clauses_view);
    reveal(order_by_exprs_view);
    reveal(select_columns_view);
    reveal(join_clauses_view);
    reveal(ctes_view);
    assert(foreign_key_defs_view(Seq::<ForeignKeyDef>::empty()) =~= Seq::empty());
}

/// A copy of a list, item by item.
pub fn dup_foreign_key_defs(v: &Vec<ForeignKeyDef>) -> (r: Vec<ForeignKeyDef>)
    ensures
        foreign_key_defs_view(r@) == foreign_key_defs_view(v@),
    decreases v,
{
    let mut r: Vec<ForeignKeyDef> = Vec::new();
    let mut i: usize = 0;
    proof {
        reveal(foreign_key_defs_view);
        reveal(Expr::view);
        reveal(OrderByExpr::view);
        reveal(SelectColumn::view);
        reveal(FromClause::view);
        reveal(Cte::view);
        reveal(JoinClause::view);
        reveal(SelectStmt::view);
        reveal(exprs_view);
        reveal(when_clauses_view);
        reveal(order_by_exprs_view);
        reveal(select_columns_view);
        reveal(join_clauses_view);
        reveal(ctes_view);
    }
    while i < v.len()
        invariant
            i <= v.len(),
            foreign_key_defs_view(r@) == foreign_key_defs_view(v@).take(i as int),
        decreases v.len() - i,
    {
        let e = v[i].dup();
        proof {
            reveal(foreign_key_defs_view);
            reveal(Expr::view);
            reveal(OrderByExpr::view);
            reveal(SelectColumn::view);
            reveal(FromClause::view);
            reveal(Cte::view);
            reveal(JoinClause::view);
            reveal(SelectStmt::view);
            reveal(exprs_view);
            reveal(when_clauses_view);
            reveal(order_by_exprs_view);
            reveal(select_columns_view);
            reveal(join_clauses_view);
            reveal(ctes_view);
            foreign_key_defs_push(r@, e);
            assert(foreign_key_defs_view(v@).take(i + 1) =~= foreign_key_defs_view(v@).take(i as int).push(v@[i as int]@));
        }
        r.push(e);
        i = i + 1;
    }
    assert(foreign_key_defs_view(v@).take(v@.len() as int) =~= foreign_key_defs_view(v@));
    r
}

/// The views of a sequence, item by item.
#[verifier::opaque]
pub open spec fn value_rows_view(s: Seq<Vec<Expr>>) -> Seq<Seq<ExprView>>
    decreases s,
{
    Seq::new(s.len(), |i: int| if 0 <= i < s.len() { exprs_view(s[i]@) } else { arbitrary() })
}

pub broadcast proof fn value_rows_push(s: Seq<Vec<Expr>>, e: Vec<Expr>)
    ensures
        #[trigger] value_rows_view(s.push(e)) == value_rows_view(s).push(exprs_view(e@)),
{
    reveal(value_rows_view);
    reveal(Expr::view);
    reveal(OrderByExpr::view);
    reveal(SelectColumn::view);
    reveal(FromClause::view);
    reveal(Cte::view);
    reveal(JoinClause::view);
    reveal(SelectStmt::view);
    reveal(exprs_view);
    reveal(when_clauses_view);
    reveal(order_by_exprs_view);
    reveal(select_columns_view);
    reveal(join_clauses_view);
    reveal(ctes_view);
    assert(value_rows_view(s.push(e)) =~= value_rows_view(s).push(exprs_view(e@)));
}

pub broadcast proof fn value_rows_len(s: Seq<Vec<Expr>>)
    ensures
        (#[trigger] value_rows_view(s)).len() == s.len(),
{
    reveal(value_rows_view);
    reveal(Expr::view);
    reveal(OrderByExpr::view);
    reveal(SelectColumn::view);
    reveal(FromClause::view);
    reveal(Cte::view);
    reveal(JoinClause::view);
    reveal(SelectStmt::view);
    reveal(exprs_view);
    reveal(when_clauses_view);
    reveal(order_by_exprs_view);
    reveal(select_columns_view);
    reveal(join_clauses_view);
    reveal(ctes_view);
}

pub broadcast proof fn value_rows_at(s: Seq<Vec<Expr>>, i: int)
    requires
        0 <= i < s.len(),
    ensures
        #[trigger] value_rows_view(s)[i] == exprs_view(s[i]@),
{
    reveal(value_rows_view);
    reveal(Expr::view);
    reveal(OrderByExpr::view);
    reveal(SelectColumn::view);
    reveal(FromClause::view);
    reveal(Cte::view);
    reveal(JoinClause::view);
    reveal(SelectStmt::view);
    reveal(exprs_view);
    reveal(when_clauses_view);
    reveal(order_by_exprs_view);
    reveal(select_columns_view);
    reveal(join_clauses_view);
    reveal(ctes_view);
}

pub broadcast proof fn value_rows_empty()
    ensures
        #[trigger] value_rows_view(Seq::<Vec<Expr>>::empty()) == Seq::<Seq<ExprView>>::empty(),
{
    reveal(value_rows_view);
    reveal(Expr::view);
    reveal(OrderByExpr::view);
    reveal(SelectColumn::view);
    reveal(FromClause::view);
    reveal(Cte::view);
    reveal(JoinClause::view);
    reveal(SelectStmt::view);
    reveal(exprs_view);
    reveal(when_clauses_view);
    reveal(order_by_exprs_view);
    reveal(select_columns_view);
    reveal(join_clauses_view);
    reveal(ctes_view);
    assert(value_rows_view(Seq::<Vec<Expr>>::empty()) =~= Seq::empty());
}

/// A copy of a list, item by item.
pub fn dup_value_rows(v: &Vec<Vec<Expr>>) -> (r: Vec<Vec<Expr>>)
    ensures
        value_rows_view(r@) == value_rows_view(v@),
    decreases v,
{
    let mut r: Vec<Vec<Expr>> = Vec::new();
    let mut i: usize = 0;
    proof {
        reveal(value_rows_view);
        reveal(Expr::view);
        reveal(OrderByExpr::view);
        reveal(SelectColumn::view);
        reveal(FromClause::view);
        reveal(Cte::view);
        reveal(JoinClause::view);
        reveal(SelectStmt::view);
        reveal(exprs_view);
        reveal(when_clauses_view);
        reveal(order_by_exprs_view);
        reveal(select_columns_view);
        reveal(join_clauses_view);
        reveal(ctes_view);
    }
    while i < v.len()
        invariant
            i <= v.len(),
            value_rows_view(r@) == value_rows_view(v@).take(i as int),
        decreases v.len() - i,
    {
        let e = dup_exprs(&v[i]);
        proof {
            reveal(value_rows_view);
            reveal(Expr::view);
            reveal(OrderByExpr::view);
            reveal(SelectColumn::view);
            reveal(FromClause::view);
            reveal(Cte::view);
            reveal(JoinClause::view);
            reveal(SelectStmt::view);
            reveal(exprs_view);
            reveal(when_clauses_view);
            reveal(order_by_exprs_view);
            reveal(select_columns_view);
            reveal(join_clauses_view);
            reveal(ctes_view);
            value_rows_push(r@, e);
            assert(value_rows_view(v@).take(i + 1) =~= value_rows_view(v@).take(i as int).push(exprs_view(v@[i as int]@)));
        }
        r.push(e);
        i = i + 1;
    }
    assert(value_rows_view(v@).take(v@.len() as int) =~= value_rows_view(v@));
    r
}

/// The views of a sequence, item by item.
#[verifier::opaque]
pub open spec fn assignments_view(s: Seq<(String, Expr)>) -> Seq<(Seq<char>, ExprView)>
    decreases s,
{
    Seq::new(s.len(), |i: int| if 0 <= i < s.len() { (s[i].0@, s[i].1@) } else { arbitrary() })
}

pub broadcast proof fn assignments_push(s: Seq<(String, Expr)>, e: (String, Expr))
    ensures
        #[trigger] assignments_view(s.push(e)) == assignments_view(s).push((e.0@, e.1@)),
{
    reveal(assignments_view);
    reveal(Expr::view);
    reveal(OrderByExpr::view);
    reveal(SelectColumn::view);
    reveal(FromClause::view);
    reveal(Cte::view);
    reveal(JoinClause::view);
    reveal(SelectStmt::view);
    reveal(exprs_view);
    reveal(when_clauses_view);
    reveal(order_by_exprs_view);
    reveal(select_columns_view);
    reveal(join_clauses_view);
    reveal(ctes_view);
    assert(assignments_view(s.push(e)) =~= assignments_view(s).push((e.0@, e.1@)));
}

pub broadcast proof fn assignments_len(s: Seq<(String, Expr)>)
    ensures
        (#[trigger] assignments_view(s)).len() == s.len(),
{
    reveal(assignments_view);
    reveal(Expr::view);
    reveal(OrderByExpr::view);
    reveal(SelectColumn::view);
    reveal(FromClause::view);
    reveal(Cte::view);
    reveal(JoinClause::view);
    reveal(SelectStmt::view);
    reveal(exprs_view);
    reveal(when_clauses_view);
    reveal(order_by_exprs_view);
    reveal(select_columns_view);
    reveal(join_clauses_view);
    reveal(ctes_view);
}

pub broadcast proof fn assignments_at(s: Seq<(String, Expr)>, i: int)
    requires
        0 <= i < s.len(),
    ensures
        #[trigger] assignments_view(s)[i] == (s[i].0@, s[i].1@),
{
    reveal(assignments_view);
    reveal(Expr::view);
    reveal(OrderByExpr::view);
    reveal(SelectColumn::view);
    reveal(FromClause::view);
    reveal(Cte::view);
    reveal(JoinClause::view);
    reveal(SelectStmt::view);
    reveal(exprs_view);
    reveal(when_clauses_view);
    reveal(order_by_exprs_view);
    reveal(select_columns_view);
    reveal(join_clauses_view);
    reveal(ctes_view);
}

pub broadcast proof fn assignments_empty()
    ensures
        #[trigger] assignments_view(Seq::<(String, Expr)>::empty()) == Seq::<(Seq<char>, ExprView)>::empty(),
{
    reveal(assignments_view);
    reveal(Expr::view);
    reveal(OrderByExpr::view);
    reveal(SelectColumn::view);
    reveal(FromClause::view);
    reveal(Cte::view);
    reveal(JoinClause::view);
    reveal(SelectStmt::view);
    reveal(exprs_view);
    reveal(when_clauses_view);
    reveal(order_by_exprs_view);
    reveal(select_columns_view);
    reveal(join_clauses_view);
    reveal(ctes_view);
    assert(assignments_view(Seq::<(String, Expr)>::empty()) =~= Seq::empty());
}

/// A copy of a list, item by item.
pub fn dup_assignments(v: &Vec<(String, Expr)>) -> (r: Vec<(String, Expr)>)
    ensures
        assignments_view(r@) == assignments_view(v@),
    decreases v,
{
    let mut r: Vec<(String, Expr)> = Vec::new();
    let mut i: usize = 0;
    proof {
        reveal(assignments_view);
        reveal(Expr::view);
        reveal(OrderByExpr::view);
        reveal(SelectColumn::view);
        reveal(FromClause::view);
        reveal(Cte::view);
        reveal(JoinClause::view);
        reveal(SelectStmt::view);
        reveal(exprs_view);
        reveal(when_clauses_view);
        reveal(order_by_exprs_view);
        reveal(select_columns_view);
        reveal(join_clauses_view);
        reveal(ctes_view);
    }
    while i < v.len()
        invariant
            i <= v.len(),
            assignments_view(r@) == assignments_view(v@).take(i as int),
        decreases v.len() - i,
    {
        let e = (v[i].0.clone(), v[i].1.dup());
        proof {
            reveal(assignments_view);
            reveal(Expr::view);
            reveal(OrderByExpr::view);
            reveal(SelectColumn::view);
            reveal(FromClause::view);
            reveal(Cte::view);
            reveal(JoinClause::view);
            reveal(SelectStmt::view);
            reveal(exprs_view);
            reveal(when_clauses_view);
            reveal(order_by_exprs_view);
            reveal(select_columns_view);
            reveal(join_clauses_view);
            reveal(ctes_view);
            assignments_push(r@, e);
            assert(assignments_view(v@).take(i + 1) =~= assignments_view(v@).take(i as int).push((v@[i as int].0@, v@[i as int].1@)));
        }
        r.push(e);
        i = i + 1;
    }
    assert(assignments_view(v@).take(v@.len() as int) =~= assignments_view(v@));
    r
}

pub broadcast group group_ast_views {
    exprs_push,
    exprs_len,
    exprs_at,
    exprs_empty,
    when_clauses_push,
    when_clauses_len,
    when_clauses_at,
    when_clauses_empty,
    order_by_exprs_push,
    order_by_exprs_len,
    order_by_exprs_at,
    order_by_exprs_empty,
    select_columns_push,
    select_columns_len,
    select_columns_at,
    select_columns_empty,
    join_clauses_push,
    join_clauses_len,
    join_clauses_at,
    join_clauses_empty,
    ctes_push,
    ctes_len,
    ctes_at,
    ctes_empty,
    column_defs_push,
    column_defs_len,
    column_defs_at,
    column_defs_empty,
    foreign_key_defs_push,
    foreign_key_defs_len,
    foreign_key_defs_at,
    foreign_key_defs_empty,
    value_rows_push,
    value_rows_len,
    value_rows_at,
    value_rows_empty,
    assignments_push,
    assignments_len,
    assignments_at,
    assignments_empty,
    expr_view_literal,
    expr_view_column,
    expr_view_qualified_column,
    expr_view_binary_op,
    expr_view_unary_op,
    expr_view_function,
    expr_view_json_path,
    expr_view_is_null,
    expr_view_is_not_null,
    expr_view_in_list,
    expr_view_between,
    expr_view_case,
    expr_view_cast,
    expr_view_subquery,
    expr_view_in_subquery,
    expr_view_exists,
    expr_view_window_function,
    expr_view_interval,
    order_by_expr_view_made,
    select_column_view_expr,
    from_clause_view_table,
    from_clause_view_subquery,
    cte_view_made,
    join_clause_view_made,
    select_stmt_view_made,
    foreign_key_def_view_made,
    column_def_view_made,
    create_table_stmt_view_made,
    drop_table_stmt_view_made,
    create_index_stmt_view_made,
    alter_table_action_view_add_column,
    alter_table_action_view_drop_column,
    alter_table_action_view_rename_column,
    alter_table_stmt_view_made,
    insert_source_view_values,
    insert_source_view_select,
    conflict_action_view_do_update,
    on_conflict_view_made,
    insert_stmt_view_made,
    update_stmt_view_made,
    delete_stmt_view_made,
    doc_insert_stmt_view_made,
    doc_find_stmt_view_made,
    doc_update_stmt_view_made,
    doc_delete_stmt_view_made,
    statement_view_create_table,
    statement_view_drop_table,
    statement_view_create_index,
    statement_view_drop_index,
    statement_view_alter_table,
    statement_view_union,
    statement_view_intersect,
    statement_view_except,
    statement_view_select,
    statement_view_insert,
    statement_view_update,
    statement_view_delete,
    statement_view_kv_get,
    statement_view_kv_set,
    statement_view_kv_delete,
    statement_view_kv_scan,
    statement_view_doc_insert,
    statement_view_doc_find,
    statement_view_doc_update,
    statement_view_doc_delete,
    statement_view_begin,
    statement_view_show_columns,
    statement_view_show_create_table,
    statement_view_describe,
    statement_view_explain,
    statement_view_truncate,
    statement_view_create_database,
    statement_view_drop_database,
    statement_view_use_database,
    statement_view_analyze,
    statement_view_show_stats,
    statement_view_backup,
    statement_view_restore,
}

} // verus!
