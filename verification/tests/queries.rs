use std::cell::RefCell;
use std::collections::HashMap;
use std::rc::Rc;

use bytedb_query::error::Result;
use bytedb_query::executor::constraints::Runner;
use bytedb_query::executor::engine::{ExecutionResult, QueryEngine};
use bytedb_query::executor::unit::{Ask, FloatFn, FloatOp, Reply};
use bytedb_query::parser::ast::{IsolationLevel, Statement};
use bytedb_query::value::{DataType, Order, Value};

fn as_float(v: &Value) -> Option<f64> {
    match v {
        Value::Int64(n) => Some(*n as f64),
        Value::Float64(b) => Some(f64::from_bits(*b)),
        Value::Decimal(n, scale) => Some(*n as f64 / 10f64.powi(*scale as i32)),
        _ => None,
    }
}

fn parse_decimal(s: &str) -> Option<Value> {
    let t = s.trim();
    let (whole, part) = match t.find('.') {
        Some(at) => (&t[..at], &t[at + 1..]),
        None => (t, ""),
    };
    let n: i128 = format!("{whole}{part}").parse().ok()?;
    Some(Value::Decimal(n, part.len() as u8))
}

fn parse_date(s: &str) -> Option<Value> {
    let p: Vec<i64> = s.trim().split('-').filter_map(|x| x.parse().ok()).collect();
    if p.len() != 3 {
        return None;
    }
    let (y, m, d) = (if p[1] <= 2 { p[0] - 1 } else { p[0] }, p[1], p[2]);
    let era = y.div_euclid(400);
    let yoe = y - era * 400;
    let doy = (153 * (if m > 2 { m - 3 } else { m + 9 }) + 2) / 5 + d - 1;
    Some(Value::Date((era * 146097 + yoe * 365 + yoe / 4 - yoe / 100 + doy - 719468) as i32))
}

fn parse_value(t: DataType, s: &str) -> Option<Value> {
    match t {
        DataType::Int64 => s.trim().parse().ok().map(Value::Int64),
        DataType::Float64 => s.trim().parse::<f64>().ok().map(|f| Value::Float64(f.to_bits())),
        DataType::Bool => s.trim().to_lowercase().parse().ok().map(Value::Bool),
        DataType::Decimal => parse_decimal(s),
        DataType::Date => parse_date(s),
        DataType::Uuid => u128::from_str_radix(&s.replace('-', ""), 16).ok().map(Value::Uuid),
        DataType::Json => Some(Value::Json(s.to_string())),
        _ => None,
    }
}

fn show_value(v: &Value) -> String {
    match v {
        Value::Null => "NULL".to_string(),
        Value::Bool(b) => b.to_string(),
        Value::Int64(n) | Value::Timestamp(n) | Value::Interval(n) => n.to_string(),
        Value::Float64(b) => f64::from_bits(*b).to_string(),
        Value::Text(s) | Value::Json(s) => s.clone(),
        other => format!("{other:?}"),
    }
}

fn order_values(a: &Value, b: &Value) -> Option<Order> {
    match as_float(a)?.partial_cmp(&as_float(b)?)? {
        std::cmp::Ordering::Less => Some(Order::Less),
        std::cmp::Ordering::Equal => Some(Order::Equal),
        std::cmp::Ordering::Greater => Some(Order::Greater),
    }
}

/// The numeric unit, on the machine's floats.
fn unit(q: Ask) -> Reply {
    match q {
        Ask::Arith(op, a, b) => {
            let (x, y) = (f64::from_bits(a), f64::from_bits(b));
            let z = match op {
                FloatOp::Plus => x + y,
                FloatOp::Minus => x - y,
                FloatOp::Times => x * y,
                FloatOp::Over => x / y,
                FloatOp::Rem => x % y,
                FloatOp::Power => x.powf(y),
            };
            Reply::Bits(z.to_bits())
        }
        Ask::Unary(op, a) => {
            let x = f64::from_bits(a);
            let z = match op {
                FloatFn::Ceil => x.ceil(),
                FloatFn::Floor => x.floor(),
                FloatFn::Round => x.round(),
                FloatFn::Sqrt => x.sqrt(),
            };
            Reply::Bits(z.to_bits())
        }
        Ask::FromInt(n) => Reply::Bits((n as f64).to_bits()),
        Ask::ToInt(b) => Reply::Int(f64::from_bits(b) as i64),
        Ask::ParseFloat(s) => Reply::MaybeBits(s.trim().parse::<f64>().ok().map(f64::to_bits)),
        Ask::ShowFloat(b) => Reply::Text(f64::from_bits(b).to_string()),
        Ask::Parse(t, s) => Reply::MaybeValue(parse_value(t, &s)),
        Ask::Show(v) => Reply::Text(show_value(&v)),
        Ask::Compare(a, b) => Reply::MaybeOrder(order_values(&a, &b)),
        _ => Reply::Verdict(None),
    }
}

/// Reading values.
trait Peek {
    fn as_i64(&self) -> Option<i64>;
    fn as_str(&self) -> Option<&str>;
    fn to_string(&self) -> String;
}

impl Peek for Value {
    fn as_i64(&self) -> Option<i64> {
        match self {
            Value::Int64(n) => Some(*n),
            _ => None,
        }
    }
    fn as_str(&self) -> Option<&str> {
        match self {
            Value::Text(s) => Some(s),
            _ => None,
        }
    }
    fn to_string(&self) -> String {
        show_value(self)
    }
}

const NOW: i64 = 1_700_000_000_000_000;

/// An engine with the numeric unit above.
#[derive(Clone)]
struct Db(Rc<RefCell<QueryEngine>>);

impl Db {
    fn new() -> Db {
        Db(Rc::new(RefCell::new(QueryEngine::new("test"))))
    }
    fn execute(&self, stmt: Statement, txn: Option<u64>) -> Result<ExecutionResult> {
        let rn = Runner { u: &unit, now: NOW, depth: 32 };
        self.0.borrow_mut().execute(&rn, stmt, txn)
    }
    fn execute_sql(&self, sql: &str, txn: Option<u64>) -> Result<ExecutionResult> {
        let rn = Runner { u: &unit, now: NOW, depth: 32 };
        self.0.borrow_mut().execute_sql(&rn, sql, txn)
    }
    fn begin(&self, level: IsolationLevel) -> u64 {
        self.0.borrow_mut().begin(level).unwrap()
    }
}

fn aggregate_expr_engine() -> Db {
    Db::new()
}

fn aggregate_expr_rows(e: &Db, sql: &str) -> Vec<Vec<Value>> {
    match e.execute_sql(sql, None).unwrap() {
        ExecutionResult::Rows { rows, .. } => rows,
        other => panic!("{other:?}"),
    }
}

fn aggregate_expr_one(e: &Db, sql: &str) -> Value {
    let r = aggregate_expr_rows(e, sql);
    assert_eq!(r.len(), 1, "expected one row for {sql}");
    r[0][0].clone()
}

fn aggregate_expr_seed(e: &Db) {
    e.execute_sql("CREATE TABLE t (id INT PRIMARY KEY, g INT, v INT)", None).unwrap();
    for (i, g, v) in [(1, 1, 10), (2, 1, 20), (3, 2, 5), (4, 2, 15), (5, 2, 25)] {
        e.execute_sql(&format!("INSERT INTO t VALUES ({i},{g},{v})"), None).unwrap();
    }
}

#[test]
fn scalar_arithmetic_over_aggregate_no_group() {
    let e = aggregate_expr_engine();
    aggregate_expr_seed(&e);
    assert_eq!(aggregate_expr_one(&e, "SELECT MAX(v) * 10 FROM t"), Value::Int64(250));
    assert_eq!(aggregate_expr_one(&e, "SELECT SUM(v) + 1 FROM t"), Value::Int64(76));
    assert_eq!(aggregate_expr_one(&e, "SELECT COUNT(*) * 2 FROM t"), Value::Int64(10));
    assert_eq!(aggregate_expr_one(&e, "SELECT MAX(v) - MIN(v) FROM t"), Value::Int64(20));
}

#[test]
fn arithmetic_over_aggregate_with_group() {
    let e = aggregate_expr_engine();
    aggregate_expr_seed(&e);
    let r = aggregate_expr_rows(&e, "SELECT g, SUM(v) * 2 FROM t GROUP BY g ORDER BY g");
    assert_eq!(r, vec![
        vec![Value::Int64(1), Value::Int64(60)],
        vec![Value::Int64(2), Value::Int64(90)],
    ]);
}

#[test]
fn multiple_aggregates_in_one_expression() {
    let e = aggregate_expr_engine();
    aggregate_expr_seed(&e);
    let r = aggregate_expr_rows(&e, "SELECT g, MAX(v) - MIN(v) FROM t GROUP BY g ORDER BY g");
    assert_eq!(r, vec![
        vec![Value::Int64(1), Value::Int64(10)],
        vec![Value::Int64(2), Value::Int64(20)],
    ]);
}

#[test]
fn aggregate_and_its_expression_together() {
    let e = aggregate_expr_engine();
    aggregate_expr_seed(&e);
    // SUM(v) appears twice: bare and in an expression; computed once, used twice
    let r = aggregate_expr_rows(&e, "SELECT SUM(v), SUM(v) + 100 FROM t");
    assert_eq!(r, vec![vec![Value::Int64(75), Value::Int64(175)]]);
}

#[test]
fn aggregate_in_scalar_subquery_expression() {
    let e = aggregate_expr_engine();
    aggregate_expr_seed(&e);
    // nested-aggregate expression inside a constant scalar subquery
    let r = aggregate_expr_rows(&e, "SELECT id FROM t WHERE v > (SELECT MAX(v) / 2 FROM t) ORDER BY id");
    // MAX(v)/2 = 25/2 = 12 ; v in {10,20,5,15,25} > 12 -> ids 2,4,5
    assert_eq!(r, vec![vec![Value::Int64(2)], vec![Value::Int64(4)], vec![Value::Int64(5)]]);
}

#[test]
fn having_aggregate_not_in_select() {
    let e = aggregate_expr_engine();
    aggregate_expr_seed(&e);
    // g1: sum=30,count=2,max-min=10 ; g2: sum=45,count=3,max-min=20
    let r = aggregate_expr_rows(&e, "SELECT g FROM t GROUP BY g HAVING SUM(v) > 30 ORDER BY g");
    assert_eq!(r, vec![vec![Value::Int64(2)]]);

    let r = aggregate_expr_rows(&e, "SELECT g FROM t GROUP BY g HAVING COUNT(*) > 2 ORDER BY g");
    assert_eq!(r, vec![vec![Value::Int64(2)]]);

    let r = aggregate_expr_rows(&e, "SELECT g FROM t GROUP BY g HAVING MAX(v) - MIN(v) > 15 ORDER BY g");
    assert_eq!(r, vec![vec![Value::Int64(2)]]);
}

#[test]
fn having_aggregate_also_in_select() {
    let e = aggregate_expr_engine();
    aggregate_expr_seed(&e);
    let r = aggregate_expr_rows(&e, "SELECT g, SUM(v) FROM t GROUP BY g HAVING SUM(v) > 30 ORDER BY g");
    assert_eq!(r, vec![vec![Value::Int64(2), Value::Int64(45)]]);
}

#[test]
fn plain_aggregates_still_work() {
    let e = aggregate_expr_engine();
    aggregate_expr_seed(&e);
    assert_eq!(aggregate_expr_one(&e, "SELECT COUNT(*) FROM t"), Value::Int64(5));
    assert_eq!(aggregate_expr_one(&e, "SELECT SUM(v) FROM t"), Value::Int64(75));
    let r = aggregate_expr_rows(&e, "SELECT g, COUNT(*) FROM t GROUP BY g ORDER BY g");
    assert_eq!(r, vec![
        vec![Value::Int64(1), Value::Int64(2)],
        vec![Value::Int64(2), Value::Int64(3)],
    ]);
}

fn aggregates_engine() -> Db {
    Db::new()
}

fn aggregates_one(e: &Db, sql: &str) -> Value {
    match e.execute_sql(sql, None).unwrap() {
        ExecutionResult::Rows { rows, .. } => rows[0][0].clone(),
        other => panic!("expected rows, got {other:?}"),
    }
}

#[test]
fn sum_does_not_silently_overflow() {
    let e = aggregates_engine();
    e.execute_sql("CREATE TABLE t (id INT PRIMARY KEY, n BIGINT)", None).unwrap();
    e.execute_sql("INSERT INTO t VALUES (1, 9223372036854775807)", None).unwrap();
    e.execute_sql("INSERT INTO t VALUES (2, 1)", None).unwrap();

    let s = aggregates_one(&e, "SELECT SUM(n) FROM t");
    let approx = match s {
        Value::Int64(v) => v as f64,
        Value::Float64(v) => f64::from_bits(v),
        other => panic!("unexpected SUM type {other:?}"),
    };
    assert!(approx > 9.2e18, "SUM wrapped to {approx} (should be ~9.22e18)");
}

#[test]
fn sum_within_range_stays_integer() {
    let e = aggregates_engine();
    e.execute_sql("CREATE TABLE t (id INT PRIMARY KEY, n INT)", None).unwrap();
    for i in 1..=5 {
        e.execute_sql(&format!("INSERT INTO t VALUES ({i}, {})", i * 10), None).unwrap();
    }
    assert_eq!(aggregates_one(&e, "SELECT SUM(n) FROM t"), Value::Int64(150));
}

#[test]
fn group_by_sum_overflow_safe() {
    let e = aggregates_engine();
    e.execute_sql("CREATE TABLE t (id INT PRIMARY KEY, g INT, n BIGINT)", None).unwrap();
    e.execute_sql("INSERT INTO t VALUES (1, 1, 9223372036854775807)", None).unwrap();
    e.execute_sql("INSERT INTO t VALUES (2, 1, 9223372036854775807)", None).unwrap();
    e.execute_sql("INSERT INTO t VALUES (3, 2, 5)", None).unwrap();

    let r = e.execute_sql("SELECT g, SUM(n) FROM t GROUP BY g ORDER BY g", None).unwrap();
    if let ExecutionResult::Rows { rows, .. } = r {
        let g1 = match rows[0][1] {
            Value::Int64(v) => v as f64,
            Value::Float64(v) => f64::from_bits(v),
            _ => panic!(),
        };
        assert!(g1 > 1.8e19, "group SUM wrapped: {g1}");
        assert_eq!(rows[1][1], Value::Int64(5));
    } else {
        panic!("expected rows");
    }
}

#[test]
fn join_with_smaller_left_side() {
    let e = aggregates_engine();
    e.execute_sql("CREATE TABLE big (id INT PRIMARY KEY, v INT)", None).unwrap();
    e.execute_sql("CREATE TABLE small (id INT PRIMARY KEY, label TEXT)", None).unwrap();
    for i in 1..=200 {
        e.execute_sql(&format!("INSERT INTO big VALUES ({i}, {})", i % 5), None).unwrap();
    }
    e.execute_sql("INSERT INTO small VALUES (1, 'a')", None).unwrap();
    e.execute_sql("INSERT INTO small VALUES (2, 'b')", None).unwrap();

    let r = e
        .execute_sql("SELECT big.id FROM small JOIN big ON small.id = big.id", None)
        .unwrap();
    if let ExecutionResult::Rows { rows, .. } = r {
        assert_eq!(rows.len(), 2, "inner join should match exactly 2 rows");
    } else {
        panic!("expected rows");
    }
}

fn arithmetic_engine() -> Db {
    Db::new()
}

fn arithmetic_one(e: &Db, sql: &str) -> Value {
    match e.execute_sql(sql, None).unwrap() {
        ExecutionResult::Rows { rows, .. } => rows[0][0].clone(),
        other => panic!("expected rows, got {other:?}"),
    }
}

fn arithmetic_approx(v: Value) -> f64 {
    match v {
        Value::Int64(n) => n as f64,
        Value::Float64(f) => f64::from_bits(f),
        other => panic!("unexpected numeric type {other:?}"),
    }
}

#[test]
fn multiply_overflow_does_not_wrap() {
    let e = arithmetic_engine();
    e.execute_sql("CREATE TABLE t (id INT PRIMARY KEY, a BIGINT)", None).unwrap();
    e.execute_sql("INSERT INTO t VALUES (1, 9223372036854775807)", None).unwrap();
    let v = arithmetic_approx(arithmetic_one(&e, "SELECT a * 2 FROM t WHERE id = 1"));
    assert!(v > 1.8e19, "a*2 wrapped to {v}");
}

#[test]
fn add_overflow_does_not_wrap() {
    let e = arithmetic_engine();
    e.execute_sql("CREATE TABLE t (id INT PRIMARY KEY, a BIGINT)", None).unwrap();
    e.execute_sql("INSERT INTO t VALUES (1, 9223372036854775807)", None).unwrap();
    let v = arithmetic_approx(arithmetic_one(&e, "SELECT a + a FROM t WHERE id = 1"));
    assert!(v > 1.8e19, "a+a wrapped to {v}");
}

#[test]
fn normal_arithmetic_stays_integer() {
    let e = arithmetic_engine();
    e.execute_sql("CREATE TABLE t (id INT PRIMARY KEY, a INT)", None).unwrap();
    e.execute_sql("INSERT INTO t VALUES (1, 21)", None).unwrap();
    assert_eq!(arithmetic_one(&e, "SELECT a * 2 FROM t WHERE id = 1"), Value::Int64(42));
    assert_eq!(arithmetic_one(&e, "SELECT a - 1 FROM t WHERE id = 1"), Value::Int64(20));
    assert_eq!(arithmetic_one(&e, "SELECT a / 2 FROM t WHERE id = 1"), Value::Int64(10));
}

fn correlated_subquery_engine() -> Db {
    Db::new()
}

fn correlated_subquery_rows(e: &Db, sql: &str) -> Vec<Vec<Value>> {
    match e.execute_sql(sql, None).unwrap() {
        ExecutionResult::Rows { rows, .. } => rows,
        other => panic!("{other:?}"),
    }
}

fn correlated_subquery_seed(e: &Db) {
    e.execute_sql("CREATE TABLE emp (id INT PRIMARY KEY, dept INT, sal INT)", None).unwrap();
    for (i, d, s) in [(1, 10, 100), (2, 10, 200), (3, 20, 150)] {
        e.execute_sql(&format!("INSERT INTO emp VALUES ({i},{d},{s})"), None).unwrap();
    }
    e.execute_sql("CREATE TABLE dept (id INT PRIMARY KEY, dname TEXT)", None).unwrap();
    for (i, n) in [(10, "eng"), (20, "sales"), (30, "hr")] {
        e.execute_sql(&format!("INSERT INTO dept VALUES ({i},'{n}')"), None).unwrap();
    }
}

#[test]
fn correlated_exists_in_where() {
    let e = correlated_subquery_engine();
    correlated_subquery_seed(&e);
    let r = correlated_subquery_rows(&e, "SELECT dname FROM dept WHERE EXISTS (SELECT 1 FROM emp WHERE emp.dept = dept.id) ORDER BY id");
    assert_eq!(r, vec![vec![Value::Text("eng".into())], vec![Value::Text("sales".into())]]);
}

#[test]
fn correlated_not_exists() {
    let e = correlated_subquery_engine();
    correlated_subquery_seed(&e);
    let r = correlated_subquery_rows(&e, "SELECT dname FROM dept WHERE NOT EXISTS (SELECT 1 FROM emp WHERE emp.dept = dept.id) ORDER BY id");
    assert_eq!(r, vec![vec![Value::Text("hr".into())]]);
}

#[test]
fn correlated_scalar_subquery_in_projection() {
    let e = correlated_subquery_engine();
    correlated_subquery_seed(&e);
    let r = correlated_subquery_rows(&e, "SELECT (SELECT COUNT(*) FROM emp WHERE emp.dept = dept.id) FROM dept ORDER BY id");
    assert_eq!(r, vec![vec![Value::Int64(2)], vec![Value::Int64(1)], vec![Value::Int64(0)]]);
}

#[test]
fn correlated_two_outer_columns_in_predicate() {
    let e = correlated_subquery_engine();
    e.execute_sql("CREATE TABLE o (id INT PRIMARY KEY, lo INT, hi INT)", None).unwrap();
    e.execute_sql("INSERT INTO o VALUES (1, 100, 200)", None).unwrap();
    e.execute_sql("INSERT INTO o VALUES (2, 150, 160)", None).unwrap();
    e.execute_sql("CREATE TABLE v (id INT PRIMARY KEY, val INT)", None).unwrap();
    for (i, x) in [(1, 120), (2, 155), (3, 300)] {
        e.execute_sql(&format!("INSERT INTO v VALUES ({i},{x})"), None).unwrap();
    }
    let r = correlated_subquery_rows(&e, "SELECT id, (SELECT COUNT(*) FROM v WHERE v.val >= o.lo AND v.val <= o.hi) FROM o ORDER BY id");
    assert_eq!(r, vec![
        vec![Value::Int64(1), Value::Int64(2)],
        vec![Value::Int64(2), Value::Int64(1)],
    ]);
}

#[test]
fn correlated_exists_via_outer_alias() {
    let e = correlated_subquery_engine();
    correlated_subquery_seed(&e);
    let r = correlated_subquery_rows(&e, "SELECT dname FROM dept d WHERE EXISTS (SELECT 1 FROM emp WHERE emp.dept = d.id) ORDER BY d.id");
    assert_eq!(r, vec![vec![Value::Text("eng".into())], vec![Value::Text("sales".into())]]);
}

#[test]
fn correlated_scalar_via_outer_alias() {
    let e = correlated_subquery_engine();
    correlated_subquery_seed(&e);
    let r = correlated_subquery_rows(&e, "SELECT (SELECT COUNT(*) FROM emp WHERE emp.dept = d.id) FROM dept d ORDER BY d.id");
    assert_eq!(r, vec![vec![Value::Int64(2)], vec![Value::Int64(1)], vec![Value::Int64(0)]]);
}

#[test]
fn correlated_in_subquery_with_outer_ref() {
    let e = correlated_subquery_engine();
    correlated_subquery_seed(&e);
    let r = correlated_subquery_rows(&e, "SELECT dname FROM dept WHERE id IN (SELECT dept FROM emp WHERE emp.sal > 120) ORDER BY id");
    assert_eq!(r, vec![vec![Value::Text("eng".into())], vec![Value::Text("sales".into())]]);
}

fn empty_aggregate_engine() -> Db {
    Db::new()
}

fn empty_aggregate_row(e: &Db, sql: &str) -> Vec<Value> {
    match e.execute_sql(sql, None).unwrap() {
        ExecutionResult::Rows { rows, .. } => {
            assert_eq!(rows.len(), 1, "ungrouped aggregate must return exactly one row for {sql}");
            rows.into_iter().next().unwrap()
        }
        other => panic!("{other:?}"),
    }
}

#[test]
fn count_star_on_empty_table_is_zero() {
    let e = empty_aggregate_engine();
    e.execute_sql("CREATE TABLE t (id INT PRIMARY KEY, v INT)", None).unwrap();
    assert_eq!(empty_aggregate_row(&e, "SELECT COUNT(*) FROM t"), vec![Value::Int64(0)]);
}

#[test]
fn other_aggregates_on_empty_table_are_null() {
    let e = empty_aggregate_engine();
    e.execute_sql("CREATE TABLE t (id INT PRIMARY KEY, v INT)", None).unwrap();
    assert_eq!(empty_aggregate_row(&e, "SELECT SUM(v) FROM t"), vec![Value::Null]);
    assert_eq!(empty_aggregate_row(&e, "SELECT AVG(v) FROM t"), vec![Value::Null]);
    assert_eq!(empty_aggregate_row(&e, "SELECT MIN(v) FROM t"), vec![Value::Null]);
    assert_eq!(empty_aggregate_row(&e, "SELECT MAX(v) FROM t"), vec![Value::Null]);
}

#[test]
fn multi_aggregate_on_empty_table() {
    let e = empty_aggregate_engine();
    e.execute_sql("CREATE TABLE t (id INT PRIMARY KEY, v INT)", None).unwrap();
    assert_eq!(
        empty_aggregate_row(&e, "SELECT COUNT(*), SUM(v), MAX(v) FROM t"),
        vec![Value::Int64(0), Value::Null, Value::Null]
    );
}

#[test]
fn sum_of_all_nulls_is_null() {
    let e = empty_aggregate_engine();
    e.execute_sql("CREATE TABLE t (id INT PRIMARY KEY, v INT)", None).unwrap();
    e.execute_sql("INSERT INTO t VALUES (1, NULL)", None).unwrap();
    e.execute_sql("INSERT INTO t VALUES (2, NULL)", None).unwrap();
    assert_eq!(empty_aggregate_row(&e, "SELECT SUM(v) FROM t"), vec![Value::Null]);
    assert_eq!(empty_aggregate_row(&e, "SELECT COUNT(*) FROM t"), vec![Value::Int64(2)]);
}

fn group_by_keys_engine() -> Db {
    Db::new()
}

fn group_by_keys_rows(e: &Db, sql: &str) -> Vec<Vec<Value>> {
    match e.execute_sql(sql, None).unwrap() {
        ExecutionResult::Rows { rows, .. } => rows,
        other => panic!("{other:?}"),
    }
}

fn group_by_keys_count_for(result: &[Vec<Value>], a: &str, b: &str) -> Option<i64> {
    for r in result {
        let ka = match &r[0] { Value::Text(s) => s.as_str(), _ => continue };
        let kb = match &r[1] { Value::Text(s) => s.as_str(), _ => continue };
        if ka == a && kb == b {
            if let Value::Int64(c) = r[2] { return Some(c); }
        }
    }
    None
}

#[test]
fn multi_column_group_keys_do_not_collide() {
    let e = group_by_keys_engine();
    e.execute_sql("CREATE TABLE t (id INT PRIMARY KEY, a TEXT, b TEXT)", None).unwrap();
    e.execute_sql("INSERT INTO t VALUES (1, 'a', 'b')", None).unwrap();
    e.execute_sql("INSERT INTO t VALUES (2, 'ab', '')", None).unwrap();
    e.execute_sql("INSERT INTO t VALUES (3, 'a', 'b')", None).unwrap();
    e.execute_sql("INSERT INTO t VALUES (4, '', 'ab')", None).unwrap();

    let result = group_by_keys_rows(&e, "SELECT a, b, COUNT(*) FROM t GROUP BY a, b");
    assert_eq!(result.len(), 3, "three distinct group tuples expected");
    assert_eq!(group_by_keys_count_for(&result, "a", "b"), Some(2));
    assert_eq!(group_by_keys_count_for(&result, "ab", ""), Some(1));
    assert_eq!(group_by_keys_count_for(&result, "", "ab"), Some(1));
}

#[test]
fn group_by_with_embedded_separator_bytes() {
    let e = group_by_keys_engine();
    e.execute_sql("CREATE TABLE t (id INT PRIMARY KEY, a TEXT, b TEXT)", None).unwrap();
    e.execute_sql("INSERT INTO t VALUES (1, 'x', 'y')", None).unwrap();
    e.execute_sql("INSERT INTO t VALUES (2, 'x', 'y')", None).unwrap();
    e.execute_sql("INSERT INTO t VALUES (3, 'xy', 'z')", None).unwrap();

    let result = group_by_keys_rows(&e, "SELECT a, b, COUNT(*) FROM t GROUP BY a, b");
    assert_eq!(result.len(), 2);
    assert_eq!(group_by_keys_count_for(&result, "x", "y"), Some(2));
    assert_eq!(group_by_keys_count_for(&result, "xy", "z"), Some(1));
}

#[test]
fn group_by_null_distinct_from_empty_string() {
    let e = group_by_keys_engine();
    e.execute_sql("CREATE TABLE t (id INT PRIMARY KEY, a TEXT)", None).unwrap();
    e.execute_sql("INSERT INTO t VALUES (1, '')", None).unwrap();
    e.execute_sql("INSERT INTO t VALUES (2, NULL)", None).unwrap();
    e.execute_sql("INSERT INTO t VALUES (3, '')", None).unwrap();

    let result = group_by_keys_rows(&e, "SELECT a, COUNT(*) FROM t GROUP BY a");
    let mut counts: HashMap<bool, i64> = HashMap::new();
    for r in &result {
        let is_null = matches!(r[0], Value::Null);
        if let Value::Int64(c) = r[1] {
            counts.insert(is_null, c);
        }
    }
    assert_eq!(result.len(), 2, "NULL and empty string must be distinct groups");
    assert_eq!(counts.get(&false), Some(&2));
    assert_eq!(counts.get(&true), Some(&1));
}

#[test]
fn group_by_aggregates_on_different_columns() {
    let e = group_by_keys_engine();
    e.execute_sql("CREATE TABLE t (id INT PRIMARY KEY, g INT, a INT, b INT)", None).unwrap();
    e.execute_sql("INSERT INTO t VALUES (1, 1, 100, 5)", None).unwrap();
    e.execute_sql("INSERT INTO t VALUES (2, 1, 200, 9)", None).unwrap();
    e.execute_sql("INSERT INTO t VALUES (3, 2, 7, 3)", None).unwrap();

    let result = group_by_keys_rows(&e, "SELECT g, SUM(a), MAX(b) FROM t GROUP BY g");
    assert_eq!(result.len(), 2);
    for r in &result {
        match r[0] {
            Value::Int64(1) => {
                assert_eq!(r[1], Value::Int64(300));
                assert_eq!(r[2], Value::Int64(9));
            }
            Value::Int64(2) => {
                assert_eq!(r[1], Value::Int64(7));
                assert_eq!(r[2], Value::Int64(3));
            }
            _ => panic!("unexpected group {:?}", r[0]),
        }
    }
}

#[test]
fn group_by_int_and_text_multi_aggregate() {
    let e = group_by_keys_engine();
    e.execute_sql("CREATE TABLE t (id INT PRIMARY KEY, g INT, label TEXT, v INT)", None).unwrap();
    e.execute_sql("INSERT INTO t VALUES (1, 10, 'p', 5)", None).unwrap();
    e.execute_sql("INSERT INTO t VALUES (2, 10, 'p', 7)", None).unwrap();
    e.execute_sql("INSERT INTO t VALUES (3, 20, 'q', 3)", None).unwrap();

    let result = group_by_keys_rows(&e, "SELECT g, label, COUNT(*), SUM(v), MIN(v), MAX(v) FROM t GROUP BY g, label");
    assert_eq!(result.len(), 2);
    for r in &result {
        match r[0] {
            Value::Int64(10) => {
                assert_eq!(r[2], Value::Int64(2));
                assert_eq!(r[3], Value::Int64(12));
                assert_eq!(r[4], Value::Int64(5));
                assert_eq!(r[5], Value::Int64(7));
            }
            Value::Int64(20) => {
                assert_eq!(r[2], Value::Int64(1));
                assert_eq!(r[3], Value::Int64(3));
                assert_eq!(r[4], Value::Int64(3));
                assert_eq!(r[5], Value::Int64(3));
            }
            _ => panic!("unexpected group {:?}", r[0]),
        }
    }
}

fn null_join_engine() -> Db {
    Db::new()
}

fn null_join_rows(e: &Db, sql: &str) -> Vec<Vec<Value>> {
    match e.execute_sql(sql, None).unwrap() {
        ExecutionResult::Rows { rows, .. } => rows,
        other => panic!("{other:?}"),
    }
}

fn null_join_seed(e: &Db) {
    e.execute_sql("CREATE TABLE a (id INT PRIMARY KEY, k INT)", None).unwrap();
    e.execute_sql("CREATE TABLE b (id INT PRIMARY KEY, k INT)", None).unwrap();
    e.execute_sql("INSERT INTO a VALUES (1, NULL)", None).unwrap();
    e.execute_sql("INSERT INTO a VALUES (2, 5)", None).unwrap();
    e.execute_sql("INSERT INTO b VALUES (1, NULL)", None).unwrap();
    e.execute_sql("INSERT INTO b VALUES (2, 5)", None).unwrap();
}

#[test]
fn null_keys_do_not_match_in_inner_join() {
    let e = null_join_engine();
    null_join_seed(&e);
    let r = null_join_rows(&e, "SELECT a.id FROM a JOIN b ON a.k = b.k ORDER BY a.id");
    assert_eq!(r, vec![vec![Value::Int64(2)]]);
}

#[test]
fn left_join_keeps_null_keyed_row_unmatched() {
    let e = null_join_engine();
    null_join_seed(&e);
    let r = null_join_rows(&e, "SELECT a.id, b.id FROM a LEFT JOIN b ON a.k = b.k ORDER BY a.id");
    assert_eq!(
        r,
        vec![
            vec![Value::Int64(1), Value::Null],
            vec![Value::Int64(2), Value::Int64(2)],
        ]
    );
}

fn null_logic_engine() -> Db {
    Db::new()
}

fn null_logic_ids(e: &Db, sql: &str) -> Vec<i64> {
    match e.execute_sql(sql, None).unwrap() {
        ExecutionResult::Rows { rows, .. } => rows.into_iter().filter_map(|r| r[0].as_i64()).collect(),
        other => panic!("{other:?}"),
    }
}

fn null_logic_seed(e: &Db) {
    e.execute_sql("CREATE TABLE t (id INT PRIMARY KEY, v INT)", None).unwrap();
    e.execute_sql("INSERT INTO t VALUES (1, 10)", None).unwrap();
    e.execute_sql("INSERT INTO t VALUES (2, 20)", None).unwrap();
    e.execute_sql("INSERT INTO t VALUES (3, NULL)", None).unwrap();
}

#[test]
fn not_of_null_comparison_excludes_row() {
    let e = null_logic_engine();
    null_logic_seed(&e);
    assert_eq!(null_logic_ids(&e, "SELECT id FROM t WHERE NOT (v > 15) ORDER BY id"), vec![1]);
}

#[test]
fn not_equal_excludes_null() {
    let e = null_logic_engine();
    null_logic_seed(&e);
    assert_eq!(null_logic_ids(&e, "SELECT id FROM t WHERE v <> 10 ORDER BY id"), vec![2]);
}

#[test]
fn not_in_with_null_excludes_everything() {
    let e = null_logic_engine();
    null_logic_seed(&e);
    assert_eq!(null_logic_ids(&e, "SELECT id FROM t WHERE v NOT IN (10, NULL) ORDER BY id"), Vec::<i64>::new());
    assert_eq!(null_logic_ids(&e, "SELECT id FROM t WHERE v NOT IN (10) ORDER BY id"), vec![2]);
}

#[test]
fn between_excludes_null() {
    let e = null_logic_engine();
    null_logic_seed(&e);
    assert_eq!(null_logic_ids(&e, "SELECT id FROM t WHERE v BETWEEN 5 AND 15 ORDER BY id"), vec![1]);
}

#[test]
fn column_check_enforced_on_insert_and_update() {
    let e = null_logic_engine();
    e.execute_sql("CREATE TABLE c (id INT PRIMARY KEY, age INT CHECK (age >= 0))", None).unwrap();
    assert!(e.execute_sql("INSERT INTO c VALUES (1, 5)", None).is_ok());
    assert!(e.execute_sql("INSERT INTO c VALUES (2, -1)", None).is_err());
    assert!(e.execute_sql("INSERT INTO c VALUES (3, NULL)", None).is_ok());
    assert!(e.execute_sql("UPDATE c SET age = -5 WHERE id = 1", None).is_err());
}

fn select_no_from_engine() -> Db {
    Db::new()
}

fn select_no_from_rows(e: &Db, sql: &str) -> Vec<Vec<Value>> {
    match e.execute_sql(sql, None).unwrap() {
        ExecutionResult::Rows { rows, .. } => rows,
        other => panic!("{other:?}"),
    }
}

#[test]
fn select_literal() {
    let e = select_no_from_engine();
    assert_eq!(select_no_from_rows(&e, "SELECT 50"), vec![vec![Value::Int64(50)]]);
}

#[test]
fn select_arithmetic() {
    let e = select_no_from_engine();
    assert_eq!(select_no_from_rows(&e, "SELECT 1 + 1"), vec![vec![Value::Int64(2)]]);
    assert_eq!(select_no_from_rows(&e, "SELECT 2 * 3 + 4"), vec![vec![Value::Int64(10)]]);
}

#[test]
fn select_multiple_columns_with_aliases() {
    let e = select_no_from_engine();
    match e.execute_sql("SELECT 1 AS a, 'hi' AS b", None).unwrap() {
        ExecutionResult::Rows { columns, rows } => {
            assert_eq!(columns, vec!["a".to_string(), "b".to_string()]);
            assert_eq!(rows, vec![vec![Value::Int64(1), Value::Text("hi".into())]]);
        }
        other => panic!("{other:?}"),
    }
}

#[test]
fn select_function_no_from() {
    let e = select_no_from_engine();
    assert_eq!(select_no_from_rows(&e, "SELECT UPPER('abc')"), vec![vec![Value::Text("ABC".into())]]);
    assert_eq!(select_no_from_rows(&e, "SELECT ABS(-7)"), vec![vec![Value::Int64(7)]]);
}

#[test]
fn select_star_no_from_errors() {
    let e = select_no_from_engine();
    assert!(e.execute_sql("SELECT *", None).is_err());
}

#[test]
fn scalar_subquery_no_from() {
    let e = select_no_from_engine();
    e.execute_sql("CREATE TABLE t (id INT PRIMARY KEY)", None).unwrap();
    e.execute_sql("INSERT INTO t VALUES (1)", None).unwrap();
    e.execute_sql("INSERT INTO t VALUES (2)", None).unwrap();
    assert_eq!(select_no_from_rows(&e, "SELECT (SELECT COUNT(*) FROM t)"), vec![vec![Value::Int64(2)]]);
}

#[test]
fn from_less_subquery_in_where() {
    let e = select_no_from_engine();
    e.execute_sql("CREATE TABLE t (id INT PRIMARY KEY)", None).unwrap();
    for i in 1..=5 { e.execute_sql(&format!("INSERT INTO t VALUES ({i})"), None).unwrap(); }
    let got: Vec<i64> = select_no_from_rows(&e, "SELECT id FROM t WHERE id > (SELECT 2) ORDER BY id")
        .into_iter().map(|r| match r[0] { Value::Int64(n) => n, _ => panic!() }).collect();
    assert_eq!(got, vec![3, 4, 5]);
}

fn subquery_cache_engine() -> Db {
    Db::new()
}

fn subquery_cache_rows(e: &Db, sql: &str) -> Vec<Vec<Value>> {
    match e.execute_sql(sql, None).unwrap() {
        ExecutionResult::Rows { rows, .. } => rows,
        other => panic!("{other:?}"),
    }
}

fn subquery_cache_ints(e: &Db, sql: &str) -> Vec<i64> {
    subquery_cache_rows(e, sql).into_iter().map(|r| match r[0] { Value::Int64(n) => n, _ => panic!("not int: {:?}", r[0]) }).collect()
}

fn subquery_cache_seed(e: &Db) {
    e.execute_sql("CREATE TABLE big (id INT PRIMARY KEY, v INT)", None).unwrap();
    for i in 1..=10 {
        e.execute_sql(&format!("INSERT INTO big VALUES ({i}, {})", i * 10), None).unwrap();
    }
    e.execute_sql("CREATE TABLE small (id INT PRIMARY KEY, ref INT)", None).unwrap();
    e.execute_sql("INSERT INTO small VALUES (1, 2)", None).unwrap();
    e.execute_sql("INSERT INTO small VALUES (2, 4)", None).unwrap();
    e.execute_sql("INSERT INTO small VALUES (3, 6)", None).unwrap();
}

#[test]
fn constant_in_subquery_correct() {
    let e = subquery_cache_engine();
    subquery_cache_seed(&e);
    let got = subquery_cache_ints(&e, "SELECT id FROM big WHERE id IN (SELECT ref FROM small) ORDER BY id");
    assert_eq!(got, vec![2, 4, 6]);
}

#[test]
fn constant_scalar_subquery_correct() {
    let e = subquery_cache_engine();
    subquery_cache_seed(&e);
    // (SELECT MAX(ref) FROM small) = 6, constant for every outer row
    let got = subquery_cache_ints(&e, "SELECT id FROM big WHERE id > (SELECT MAX(ref) FROM small) ORDER BY id");
    assert_eq!(got, vec![7, 8, 9, 10]);
}

#[test]
fn constant_exists_true_returns_all() {
    let e = subquery_cache_engine();
    subquery_cache_seed(&e);
    let got = subquery_cache_ints(&e, "SELECT id FROM big WHERE EXISTS (SELECT 1 FROM small) ORDER BY id");
    assert_eq!(got, (1..=10).collect::<Vec<_>>());
}

#[test]
fn constant_exists_false_returns_none() {
    let e = subquery_cache_engine();
    subquery_cache_seed(&e);
    e.execute_sql("CREATE TABLE empty (id INT PRIMARY KEY)", None).unwrap();
    let got = subquery_cache_ints(&e, "SELECT id FROM big WHERE EXISTS (SELECT 1 FROM empty) ORDER BY id");
    assert!(got.is_empty());
}

// The critical correctness test: the cache must be cleared between statements.
#[test]
fn cache_invalidated_between_statements() {
    let e = subquery_cache_engine();
    subquery_cache_seed(&e);
    let before = subquery_cache_ints(&e, "SELECT id FROM big WHERE id IN (SELECT ref FROM small) ORDER BY id");
    assert_eq!(before, vec![2, 4, 6]);

    e.execute_sql("INSERT INTO small VALUES (4, 8)", None).unwrap();
    let after = subquery_cache_ints(&e, "SELECT id FROM big WHERE id IN (SELECT ref FROM small) ORDER BY id");
    assert_eq!(after, vec![2, 4, 6, 8], "new small row must be visible (cache not stale)");

    e.execute_sql("DELETE FROM small WHERE ref = 2", None).unwrap();
    let after_del = subquery_cache_ints(&e, "SELECT id FROM big WHERE id IN (SELECT ref FROM small) ORDER BY id");
    assert_eq!(after_del, vec![4, 6, 8], "deleted small row must drop out");
}

// A correlated subquery must NOT be cached: each outer row gets its own result.
#[test]
fn correlated_not_cached_still_correct() {
    let e = subquery_cache_engine();
    subquery_cache_seed(&e);
    let got = subquery_cache_ints(&e, "SELECT id FROM big WHERE EXISTS (SELECT 1 FROM small WHERE small.ref = big.id) ORDER BY id");
    assert_eq!(got, vec![2, 4, 6]);
}

// Constant subquery nested inside a correlated EXISTS: outer correlated (per-row),
// inner constant. Must produce correct results.
#[test]
fn nested_constant_in_correlated() {
    let e = subquery_cache_engine();
    subquery_cache_seed(&e);
    let got = subquery_cache_ints(
        &e,
        "SELECT id FROM big WHERE EXISTS (SELECT 1 FROM small WHERE small.ref = big.id AND small.ref IN (SELECT ref FROM small)) ORDER BY id",
    );
    assert_eq!(got, vec![2, 4, 6]);
}

// Same constant subquery shape but data changes via UPDATE between statements.
#[test]
fn cache_reflects_update_between_statements() {
    let e = subquery_cache_engine();
    subquery_cache_seed(&e);
    let before = subquery_cache_ints(&e, "SELECT id FROM big WHERE id IN (SELECT ref FROM small) ORDER BY id");
    assert_eq!(before, vec![2, 4, 6]);
    e.execute_sql("UPDATE small SET ref = 8 WHERE id = 1", None).unwrap();
    let after = subquery_cache_ints(&e, "SELECT id FROM big WHERE id IN (SELECT ref FROM small) ORDER BY id");
    assert_eq!(after, vec![4, 6, 8]);
}

#[test]
fn two_distinct_constant_subqueries_one_statement() {
    let e = subquery_cache_engine();
    subquery_cache_seed(&e);
    let got = subquery_cache_ints(
        &e,
        "SELECT id FROM big WHERE id IN (SELECT ref FROM small) OR id IN (SELECT id FROM small) ORDER BY id",
    );
    // small.ref = {2,4,6}, small.id = {1,2,3} -> union {1,2,3,4,6}
    assert_eq!(got, vec![1, 2, 3, 4, 6]);
}

fn edge_cases_engine() -> Db {
    Db::new()
}

fn edge_cases_one(e: &Db, sql: &str) -> Value {
    match e.execute_sql(sql, None).unwrap() {
        ExecutionResult::Rows { rows, .. } => rows[0][0].clone(),
        other => panic!("expected rows, got {other:?}"),
    }
}

#[test]
fn abs_and_negate_work() {
    let e = edge_cases_engine();
    e.execute_sql("CREATE TABLE t (id INT PRIMARY KEY, n BIGINT)", None).unwrap();
    e.execute_sql("INSERT INTO t VALUES (1, -9223372036854775807)", None).unwrap();
    assert_eq!(edge_cases_one(&e, "SELECT ABS(n) FROM t WHERE id = 1"), Value::Int64(9223372036854775807));
    assert_eq!(edge_cases_one(&e, "SELECT ABS(-100) FROM t WHERE id = 1"), Value::Int64(100));
    assert_eq!(edge_cases_one(&e, "SELECT -n FROM t WHERE id = 1"), Value::Int64(9223372036854775807));
}

#[test]
fn repeat_huge_count_does_not_panic() {
    let e = edge_cases_engine();
    e.execute_sql("CREATE TABLE t (id INT PRIMARY KEY, s TEXT)", None).unwrap();
    e.execute_sql("INSERT INTO t VALUES (1, 'abcd')", None).unwrap();
    let v = edge_cases_one(&e, "SELECT REPEAT(s, 9223372036854775807) FROM t WHERE id = 1");
    assert!(matches!(v, Value::Null), "huge REPEAT should be NULL, got {v:?}");
    assert_eq!(edge_cases_one(&e, "SELECT REPEAT(s, 2) FROM t WHERE id = 1"), Value::Text("abcdabcd".into()));
}

#[test]
fn substring_out_of_range_is_safe() {
    let e = edge_cases_engine();
    e.execute_sql("CREATE TABLE t (id INT PRIMARY KEY, s TEXT)", None).unwrap();
    e.execute_sql("INSERT INTO t VALUES (1, 'hello')", None).unwrap();
    assert_eq!(edge_cases_one(&e, "SELECT SUBSTRING(s, 2, 3) FROM t WHERE id = 1"), Value::Text("ell".into()));
    assert_eq!(edge_cases_one(&e, "SELECT SUBSTRING(s, 100, 5) FROM t WHERE id = 1"), Value::Text("".into()));
    assert_eq!(edge_cases_one(&e, "SELECT SUBSTRING(s, 0, 2) FROM t WHERE id = 1"), Value::Text("he".into()));
}
