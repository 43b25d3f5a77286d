use vstd::prelude::*;
use vstd::string::*;
use crate::planner::plan::{PhysicalPlan, PhysicalPlanView};
use crate::value::{DataType, Order, Value, ValueView, dup_values, names_view, rows_view, values_view};
use super::stats::{ColumnStats, ColumnStatsView, TableStats, TableStatsView, column_stats_view, stats_view};

verus! {

/// An operation on two floats.
#[derive(Debug, Clone, Copy, PartialEq, Eq, Structural)]
pub enum FloatOp {
    Plus,
    Minus,
    Times,
    Over,
    Rem,
    Power,
}

/// An operation on one float.
#[derive(Debug, Clone, Copy, PartialEq, Eq, Structural)]
pub enum FloatFn {
    Ceil,
    Floor,
    Round,
    Sqrt,
}

/// A question that is answered from outside: by the numeric unit, by what rules over transactions, by
/// whoever computes statistics and costs, or by the clock. Floats are bit patterns of their double-precision form.
#[derive(Debug)]
pub enum Ask {
    /// The result of an operation on two floats: `Reply::Bits`.
    Arith(FloatOp, u64, u64),
    /// The result of an operation on one float: `Reply::Bits`.
    Unary(FloatFn, u64),
    /// The float nearest to an integer: `Reply::Bits`.
    FromInt(i128),
    /// The integer that a float is cut off to, at most the largest and at least the smallest one:
    /// `Reply::Int`.
    ToInt(u64),
    /// The float that a text writes out: `Reply::MaybeBits`.
    ParseFloat(String),
    /// The shortest text that writes out a float: `Reply::Text`.
    ShowFloat(u64),
    /// The value of a type that a text writes out: `Reply::MaybeValue`.
    Parse(DataType, String),
    /// The text that writes out a value: `Reply::Text`.
    Show(Value),
    /// How two values that are neither null nor of one plainly ordered type stand to each other:
    /// `Reply::MaybeOrder`.
    Compare(Value, Value),
    /// Whether a transaction may change the row of a table under a key: `Reply::Verdict`.
    MayWrite(u64, String, Vec<Value>),
    /// Whether a transaction may commit: `Reply::Verdict`.
    MayCommit(u64),
    /// What there is to know of the columns of a table with some rows, and the second in which it was
    /// found out: `Reply::Stats`.
    Analyze(String, Vec<String>, Vec<Vec<Value>>),
    /// How many rows a plan is estimated to give, and its cost with two digits behind the point, by
    /// what is known of the tables: `Reply::Estimate`.
    Estimate(PhysicalPlan, Vec<TableStats>),
    /// The microseconds that the clock shows before a statement runs, or after: `Reply::Micros`.
    Clock(bool),
    /// How many times a number goes into another, with two digits behind the point: `Reply::Text`.
    Ratio(u64, u64),
    /// The milliseconds that the clock shows when a query is checked while it pays its charge of that
    /// number, having read so many rows, and whether it has been cancelled by then: `Reply::Look`.
    Look(u64, u64),
}

#[derive(Debug)]
pub enum Reply {
    Bits(u64),
    MaybeBits(Option<u64>),
    Int(i64),
    Text(String),
    MaybeValue(Option<Value>),
    MaybeOrder(Option<Order>),
    /// Why not, where something may not be done.
    Verdict(Option<String>),
    Stats(Vec<ColumnStats>, u64),
    Estimate(u64, String),
    Micros(u64),
    Look(u64, bool),
}

/// What contracts say about an `Ask`.
pub enum AskView {
    Arith(FloatOp, u64, u64),
    Unary(FloatFn, u64),
    FromInt(i128),
    ToInt(u64),
    ParseFloat(Seq<char>),
    ShowFloat(u64),
    Parse(DataType, Seq<char>),
    Show(ValueView),
    Compare(ValueView, ValueView),
    MayWrite(u64, Seq<char>, Seq<ValueView>),
    MayCommit(u64),
    Analyze(Seq<char>, Seq<Seq<char>>, Seq<Seq<ValueView>>),
    Estimate(PhysicalPlanView, Seq<TableStatsView>),
    Clock(bool),
    Ratio(u64, u64),
    Look(u64, u64),
}

/// What contracts say about a `Reply`.
pub enum ReplyView {
    Bits(u64),
    MaybeBits(Option<u64>),
    Int(i64),
    Text(Seq<char>),
    MaybeValue(Option<ValueView>),
    MaybeOrder(Option<Order>),
    Verdict(Option<Seq<char>>),
    Stats(Seq<ColumnStatsView>, u64),
    Estimate(u64, Seq<char>),
    Micros(u64),
    Look(u64, bool),
}

impl Ask {
    pub open spec fn view(&self) -> AskView {
        match self {
            Ask::Arith(o, a, b) => AskView::Arith(*o, *a, *b),
            Ask::Unary(o, a) => AskView::Unary(*o, *a),
            Ask::FromInt(n) => AskView::FromInt(*n),
            Ask::ToInt(b) => AskView::ToInt(*b),
            Ask::ParseFloat(s) => AskView::ParseFloat(s@),
            Ask::ShowFloat(b) => AskView::ShowFloat(*b),
            Ask::Parse(t, s) => AskView::Parse(*t, s@),
            Ask::Show(v) => AskView::Show(v@),
            Ask::Compare(a, b) => AskView::Compare(a@, b@),
            Ask::MayWrite(id, t, k) => AskView::MayWrite(*id, t@, values_view(k@)),
            Ask::MayCommit(id) => AskView::MayCommit(*id),
            Ask::Analyze(t, c, r) => AskView::Analyze(t@, names_view(c@), rows_view(r@)),
            Ask::Estimate(p, s) => AskView::Estimate(p@, stats_view(s@)),
            Ask::Clock(after) => AskView::Clock(*after),
            Ask::Ratio(a, b) => AskView::Ratio(*a, *b),
            Ask::Look(i, n) => AskView::Look(*i, *n),
        }
    }
}

impl Reply {
    pub open spec fn view(&self) -> ReplyView {
        match self {
            Reply::Bits(b) => ReplyView::Bits(*b),
            Reply::MaybeBits(b) => ReplyView::MaybeBits(*b),
            Reply::Int(n) => ReplyView::Int(*n),
            Reply::Text(s) => ReplyView::Text(s@),
            Reply::MaybeValue(v) => ReplyView::MaybeValue(match v { Some(x) => Some(x@), None => None }),
            Reply::MaybeOrder(o) => ReplyView::MaybeOrder(*o),
            Reply::Verdict(v) => ReplyView::Verdict(match v { Some(x) => Some(x@), None => None }),
            Reply::Stats(c, s) => ReplyView::Stats(column_stats_view(c@), *s),
            Reply::Estimate(n, c) => ReplyView::Estimate(*n, c@),
            Reply::Micros(n) => ReplyView::Micros(*n),
            Reply::Look(n, c) => ReplyView::Look(*n, *c),
        }
    }
}

/// The unit as a function from questions to answers.
pub type Unit = spec_fn(AskView) -> ReplyView;

/// Whether the unit may answer the question `q` with `r`.
pub open spec fn replies<U: Fn(Ask) -> Reply>(u: &U, q: AskView, r: ReplyView) -> bool {
    exists|ask: Ask, ans: Reply| ask@ == q && ans@ == r && #[trigger] call_ensures(*u, (ask,), ans)
}

/// Whether `u` answers every question, and the same question always alike.
#[verifier::opaque]
pub open spec fn is_unit<U: Fn(Ask) -> Reply>(u: &U) -> bool {
    &&& forall|ask: Ask| #[trigger] call_requires(*u, (ask,))
    &&& forall|q: AskView, r1: ReplyView, r2: ReplyView|
        #[trigger] replies(u, q, r1) && #[trigger] replies(u, q, r2) ==> r1 == r2
}

/// The answers of the unit `u`.
#[verifier::opaque]
pub open spec fn model<U: Fn(Ask) -> Reply>(u: &U) -> Unit {
    |q: AskView| choose|r: ReplyView| replies(u, q, r)
}

pub fn ask<U: Fn(Ask) -> Reply>(u: &U, q: Ask) -> (r: Reply)
    requires
        is_unit(u),
    ensures
        r@ == model(u)(q@),
{
    proof {
        reveal(is_unit);
        reveal(model);
    }
    let ghost v = q@;
    let ghost question = q;
    let r = u(q);
    proof {
        assert(call_ensures(*u, (question,), r));
        assert(replies(u, v, r@));
        assert(replies(u, v, model(u)(v)));
    }
    r
}

pub open spec fn bits_of(r: ReplyView) -> u64 {
    match r {
        ReplyView::Bits(b) => b,
        _ => 0,
    }
}

pub open spec fn float_op(m: Unit, op: FloatOp, a: u64, b: u64) -> u64 {
    bits_of(m(AskView::Arith(op, a, b)))
}

pub open spec fn float_fn(m: Unit, op: FloatFn, a: u64) -> u64 {
    bits_of(m(AskView::Unary(op, a)))
}

pub open spec fn float_of(m: Unit, n: i128) -> u64 {
    bits_of(m(AskView::FromInt(n)))
}

pub open spec fn int_of_float(m: Unit, b: u64) -> i64 {
    match m(AskView::ToInt(b)) {
        ReplyView::Int(n) => n,
        _ => 0,
    }
}

pub open spec fn float_of_text(m: Unit, s: Seq<char>) -> Option<u64> {
    match m(AskView::ParseFloat(s)) {
        ReplyView::MaybeBits(b) => b,
        _ => None,
    }
}

pub open spec fn text_of_float(m: Unit, b: u64) -> Seq<char> {
    match m(AskView::ShowFloat(b)) {
        ReplyView::Text(s) => s,
        _ => Seq::empty(),
    }
}

/// Whether a value is of a type.
pub open spec fn is_of(v: ValueView, t: DataType) -> bool {
    match t {
        DataType::Int64 => v is Int64,
        DataType::Float64 => v is Float64,
        DataType::Decimal => v is Decimal,
        DataType::Text => v is Text,
        DataType::Bool => v is Bool,
        DataType::Bytes => v is Bytes,
        DataType::Json => v is Json,
        DataType::Timestamp => v is Timestamp,
        DataType::Date => v is Date,
        DataType::Uuid => v is Uuid,
        DataType::Interval => v is Interval,
    }
}

fn is_value_of(v: &Value, t: DataType) -> (r: bool)
    ensures
        r == is_of(v@, t),
{
    match t {
        DataType::Int64 => matches!(v, Value::Int64(_)),
        DataType::Float64 => matches!(v, Value::Float64(_)),
        DataType::Decimal => matches!(v, Value::Decimal(_, _)),
        DataType::Text => matches!(v, Value::Text(_)),
        DataType::Bool => matches!(v, Value::Bool(_)),
        DataType::Bytes => matches!(v, Value::Bytes(_)),
        DataType::Json => matches!(v, Value::Json(_)),
        DataType::Timestamp => matches!(v, Value::Timestamp(_)),
        DataType::Date => matches!(v, Value::Date(_)),
        DataType::Uuid => matches!(v, Value::Uuid(_)),
        DataType::Interval => matches!(v, Value::Interval(_)),
    }
}

/// The value of the type `t` that a text writes out.
pub open spec fn value_of_text(m: Unit, t: DataType, s: Seq<char>) -> Option<ValueView> {
    match m(AskView::Parse(t, s)) {
        ReplyView::MaybeValue(Some(v)) => if is_of(v, t) {
            Some(v)
        } else {
            None
        },
        _ => None,
    }
}

pub open spec fn text_of_value(m: Unit, v: ValueView) -> Seq<char> {
    match m(AskView::Show(v)) {
        ReplyView::Text(s) => s,
        _ => Seq::empty(),
    }
}

pub open spec fn unit_order(m: Unit, a: ValueView, b: ValueView) -> Option<Order> {
    match m(AskView::Compare(a, b)) {
        ReplyView::MaybeOrder(o) => o,
        _ => None,
    }
}

pub open spec fn refusal(r: ReplyView) -> Option<Seq<char>> {
    match r {
        ReplyView::Verdict(v) => v,
        _ => None,
    }
}

/// Why a statement may not change the row of a table under a key. Outside transactions it always may.
pub open spec fn write_refused(m: Unit, txn: Option<u64>, table: Seq<char>, key: Seq<ValueView>) -> Option<Seq<char>> {
    match txn {
        None => None,
        Some(id) => refusal(m(AskView::MayWrite(id, table, key))),
    }
}

/// Why a transaction may not commit.
pub open spec fn commit_refused(m: Unit, id: u64) -> Option<Seq<char>> {
    refusal(m(AskView::MayCommit(id)))
}

pub open spec fn opt_string(s: Option<String>) -> Option<Seq<char>> {
    match s {
        Some(x) => Some(x@),
        None => None,
    }
}

pub fn ask_write<U: Fn(Ask) -> Reply>(u: &U, txn: Option<u64>, table: &str, key: &Vec<Value>) -> (r: Option<String>)
    requires
        is_unit(u),
    ensures
        opt_string(r) == write_refused(model(u), txn, table@, values_view(key@)),
{
    match txn {
        None => None,
        Some(id) => match ask(u, Ask::MayWrite(id, table.to_string(), dup_values(key))) {
            Reply::Verdict(v) => v,
            _ => None,
        },
    }
}

pub fn ask_commit<U: Fn(Ask) -> Reply>(u: &U, id: u64) -> (r: Option<String>)
    requires
        is_unit(u),
    ensures
        opt_string(r) == commit_refused(model(u), id),
{
    match ask(u, Ask::MayCommit(id)) {
        Reply::Verdict(v) => v,
        _ => None,
    }
}

/// What is found out about a table with some columns and rows.
pub open spec fn found_out(m: Unit, table: Seq<char>, columns: Seq<Seq<char>>, rows: Seq<Seq<ValueView>>) -> TableStatsView {
    let (c, at) = match m(AskView::Analyze(table, columns, rows)) {
        ReplyView::Stats(c, at) => (c, at),
        _ => (Seq::empty(), 0),
    };
    TableStatsView { table, row_count: rows.len() as u64, columns: c, computed_at_secs: at }
}

pub fn ask_stats<U: Fn(Ask) -> Reply>(u: &U, table: &str, columns: Vec<String>, rows: Vec<Vec<Value>>) -> (r: TableStats)
    requires
        is_unit(u),
    ensures
        r@ == found_out(model(u), table@, names_view(columns@), rows_view(rows@)),
{
    assert(rows_view(rows@).len() == rows@.len());
    let n = rows.len() as u64;
    let (c, at) = match ask(u, Ask::Analyze(table.to_string(), columns, rows)) {
        Reply::Stats(c, at) => (c, at),
        _ => {
            let none: Vec<ColumnStats> = Vec::new();
            assert(column_stats_view(none@) =~= Seq::empty());
            (none, 0)
        },
    };
    TableStats { table: table.to_string(), row_count: n, columns: c, computed_at_secs: at }
}

/// How many rows a plan is estimated to give, and its cost as a text.
pub open spec fn estimated(m: Unit, p: PhysicalPlanView, s: Seq<TableStatsView>) -> (u64, Seq<char>) {
    match m(AskView::Estimate(p, s)) {
        ReplyView::Estimate(n, c) => (n, c),
        _ => (0, Seq::empty()),
    }
}

pub fn ask_estimate<U: Fn(Ask) -> Reply>(u: &U, p: PhysicalPlan, s: Vec<TableStats>) -> (r: (u64, String))
    requires
        is_unit(u),
    ensures
        (r.0, r.1@) == estimated(model(u), p@, stats_view(s@)),
{
    match ask(u, Ask::Estimate(p, s)) {
        Reply::Estimate(n, c) => (n, c),
        _ => (0, String::new()),
    }
}

pub open spec fn micros_of(r: ReplyView) -> u64 {
    match r {
        ReplyView::Micros(n) => n,
        _ => 0,
    }
}

/// How many microseconds a statement took.
pub open spec fn took(m: Unit) -> u64 {
    let a = micros_of(m(AskView::Clock(false)));
    let b = micros_of(m(AskView::Clock(true)));
    if a <= b {
        (b - a) as u64
    } else {
        0
    }
}

pub fn ask_clock<U: Fn(Ask) -> Reply>(u: &U, after: bool) -> (r: u64)
    requires
        is_unit(u),
    ensures
        r == micros_of(model(u)(AskView::Clock(after))),
{
    match ask(u, Ask::Clock(after)) {
        Reply::Micros(n) => n,
        _ => 0,
    }
}

/// How many times as many rows came as were estimated, as a text.
pub open spec fn factor_text(m: Unit, actual: u64, estimate: u64) -> Seq<char> {
    if estimate > 0 {
        match m(AskView::Ratio(actual, estimate)) {
            ReplyView::Text(s) => s,
            _ => Seq::empty(),
        }
    } else if actual == 0 {
        "1.00"@
    } else {
        "inf"@
    }
}

pub fn ask_factor<U: Fn(Ask) -> Reply>(u: &U, actual: u64, estimate: u64) -> (r: String)
    requires
        is_unit(u),
    ensures
        r@ == factor_text(model(u), actual, estimate),
{
    if estimate > 0 {
        match ask(u, Ask::Ratio(actual, estimate)) {
            Reply::Text(s) => s,
            _ => String::new(),
        }
    } else if actual == 0 {
        "1.00".to_string()
    } else {
        "inf".to_string()
    }
}

/// What the clock shows at a check, and whether the query has been cancelled; without a clock, what
/// was known when the query began.
pub open spec fn looked(m: Unit, now: u64, i: u64, n: u64) -> (u64, bool) {
    match m(AskView::Look(i, n)) {
        ReplyView::Look(t, c) => (t, c),
        _ => (now, false),
    }
}

pub fn ask_look<U: Fn(Ask) -> Reply>(u: &U, now: u64, i: u64, n: u64) -> (r: (u64, bool))
    requires
        is_unit(u),
    ensures
        r == looked(model(u), now, i, n),
{
    match ask(u, Ask::Look(i, n)) {
        Reply::Look(t, c) => (t, c),
        _ => (now, false),
    }
}

pub fn ask_op<U: Fn(Ask) -> Reply>(u: &U, op: FloatOp, a: u64, b: u64) -> (r: u64)
    requires
        is_unit(u),
    ensures
        r == float_op(model(u), op, a, b),
{
    match ask(u, Ask::Arith(op, a, b)) {
        Reply::Bits(x) => x,
        _ => 0,
    }
}

pub fn ask_fn<U: Fn(Ask) -> Reply>(u: &U, op: FloatFn, a: u64) -> (r: u64)
    requires
        is_unit(u),
    ensures
        r == float_fn(model(u), op, a),
{
    match ask(u, Ask::Unary(op, a)) {
        Reply::Bits(x) => x,
        _ => 0,
    }
}

pub fn ask_float<U: Fn(Ask) -> Reply>(u: &U, n: i128) -> (r: u64)
    requires
        is_unit(u),
    ensures
        r == float_of(model(u), n),
{
    match ask(u, Ask::FromInt(n)) {
        Reply::Bits(x) => x,
        _ => 0,
    }
}

pub fn ask_int<U: Fn(Ask) -> Reply>(u: &U, b: u64) -> (r: i64)
    requires
        is_unit(u),
    ensures
        r == int_of_float(model(u), b),
{
    match ask(u, Ask::ToInt(b)) {
        Reply::Int(x) => x,
        _ => 0,
    }
}

pub fn ask_parse_float<U: Fn(Ask) -> Reply>(u: &U, s: &str) -> (r: Option<u64>)
    requires
        is_unit(u),
    ensures
        r == float_of_text(model(u), s@),
{
    match ask(u, Ask::ParseFloat(s.to_string())) {
        Reply::MaybeBits(x) => x,
        _ => None,
    }
}

pub fn ask_show_float<U: Fn(Ask) -> Reply>(u: &U, b: u64) -> (r: String)
    requires
        is_unit(u),
    ensures
        r@ == text_of_float(model(u), b),
{
    match ask(u, Ask::ShowFloat(b)) {
        Reply::Text(x) => x,
        _ => String::new(),
    }
}

pub fn ask_parse<U: Fn(Ask) -> Reply>(u: &U, t: DataType, s: &str) -> (r: Option<Value>)
    requires
        is_unit(u),
    ensures
        (match r { Some(v) => Some(v@), None => None }) == value_of_text(model(u), t, s@),
{
    match ask(u, Ask::Parse(t, s.to_string())) {
        Reply::MaybeValue(Some(x)) => if is_value_of(&x, t) {
            Some(x)
        } else {
            None
        },
        _ => None,
    }
}

pub fn ask_show<U: Fn(Ask) -> Reply>(u: &U, v: &Value) -> (r: String)
    requires
        is_unit(u),
    ensures
        r@ == text_of_value(model(u), v@),
{
    match ask(u, Ask::Show(v.dup())) {
        Reply::Text(x) => x,
        _ => String::new(),
    }
}

pub fn ask_order<U: Fn(Ask) -> Reply>(u: &U, a: &Value, b: &Value) -> (r: Option<Order>)
    requires
        is_unit(u),
    ensures
        r == unit_order(model(u), a@, b@),
{
    match ask(u, Ask::Compare(a.dup(), b.dup())) {
        Reply::MaybeOrder(x) => x,
        _ => None,
    }
}

} // verus!
