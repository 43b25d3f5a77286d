use std::cell::RefCell;
use std::rc::Rc;

use bytedb_query::error::QueryError;
use bytedb_query::error::Result;
use bytedb_query::executor::constraints::Runner;
use bytedb_query::executor::context::{QueryContext, ResourceLimits};
use bytedb_query::executor::engine::{ExecutionResult, QueryEngine};
use bytedb_query::executor::unit::{Ask, FloatFn, FloatOp, Reply};
use bytedb_query::parser::ast::{IsolationLevel, Statement};
use bytedb_query::parser::parser::Parser;
use bytedb_query::value::{DataType, Order, Value};

fn as_float(v: &Value) -> Option<f64> {
    match v {
        Value::Int64(n) => Some(*n as f64),
        Value::Float64(b) => Some(f64::from_bits(*b)),
        Value::Decimal(n, scale) => Some(*n as f64 / 10f64.powi(*scale as i32)),
        _ => None,
    }
}

fn parse_decimal(s: &str) -> Option<Value> {
    let t = s.trim();
    let (whole, part) = match t.find('.') {
        Some(at) => (&t[..at], &t[at + 1..]),
        None => (t, ""),
    };
    let n: i128 = format!("{whole}{part}").parse().ok()?;
    Some(Value::Decimal(n, part.len() as u8))
}

fn parse_date(s: &str) -> Option<Value> {
    let p: Vec<i64> = s.trim().split('-').filter_map(|x| x.parse().ok()).collect();
    if p.len() != 3 {
        return None;
    }
    let (y, m, d) = (if p[1] <= 2 { p[0] - 1 } else { p[0] }, p[1], p[2]);
    let era = y.div_euclid(400);
    let yoe = y - era * 400;
    let doy = (153 * (if m > 2 { m - 3 } else { m + 9 }) + 2) / 5 + d - 1;
    Some(Value::Date((era * 146097 + yoe * 365 + yoe / 4 - yoe / 100 + doy - 719468) as i32))
}

fn parse_value(t: DataType, s: &str) -> Option<Value> {
    match t {
        DataType::Int64 => s.trim().parse().ok().map(Value::Int64),
        DataType::Float64 => s.trim().parse::<f64>().ok().map(|f| Value::Float64(f.to_bits())),
        DataType::Bool => s.trim().to_lowercase().parse().ok().map(Value::Bool),
        DataType::Decimal => parse_decimal(s),
        DataType::Date => parse_date(s),
        DataType::Uuid => u128::from_str_radix(&s.replace('-', ""), 16).ok().map(Value::Uuid),
        DataType::Json => Some(Value::Json(s.to_string())),
        _ => None,
    }
}

fn show_value(v: &Value) -> String {
    match v {
        Value::Null => "NULL".to_string(),
        Value::Bool(b) => b.to_string(),
        Value::Int64(n) | Value::Timestamp(n) | Value::Interval(n) => n.to_string(),
        Value::Float64(b) => f64::from_bits(*b).to_string(),
        Value::Text(s) | Value::Json(s) => s.clone(),
        other => format!("{other:?}"),
    }
}

fn order_values(a: &Value, b: &Value) -> Option<Order> {
    match as_float(a)?.partial_cmp(&as_float(b)?)? {
        std::cmp::Ordering::Less => Some(Order::Less),
        std::cmp::Ordering::Equal => Some(Order::Equal),
        std::cmp::Ordering::Greater => Some(Order::Greater),
    }
}

/// The numeric unit, on the machine's floats.
fn unit(q: Ask) -> Reply {
    match q {
        Ask::Arith(op, a, b) => {
            let (x, y) = (f64::from_bits(a), f64::from_bits(b));
            let z = match op {
                FloatOp::Plus => x + y,
                FloatOp::Minus => x - y,
                FloatOp::Times => x * y,
                FloatOp::Over => x / y,
                FloatOp::Rem => x % y,
                FloatOp::Power => x.powf(y),
            };
            Reply::Bits(z.to_bits())
        }
        Ask::Unary(op, a) => {
            let x = f64::from_bits(a);
            let z = match op {
                FloatFn::Ceil => x.ceil(),
                FloatFn::Floor => x.floor(),
                FloatFn::Round => x.round(),
                FloatFn::Sqrt => x.sqrt(),
            };
            Reply::Bits(z.to_bits())
        }
        Ask::FromInt(n) => Reply::Bits((n as f64).to_bits()),
        Ask::ToInt(b) => Reply::Int(f64::from_bits(b) as i64),
        Ask::ParseFloat(s) => Reply::MaybeBits(s.trim().parse::<f64>().ok().map(f64::to_bits)),
        Ask::ShowFloat(b) => Reply::Text(f64::from_bits(b).to_string()),
        Ask::Parse(t, s) => Reply::MaybeValue(parse_value(t, &s)),
        Ask::Show(v) => Reply::Text(show_value(&v)),
        Ask::Compare(a, b) => Reply::MaybeOrder(order_values(&a, &b)),
        Ask::Estimate(_, _) => Reply::Estimate(20, "20.20".to_string()),
        Ask::Clock(after) => Reply::Micros(if after { 8_045 } else { 5_000 }),
        Ask::Ratio(a, b) => Reply::Text(format!("{:.2}", a as f64 / b as f64)),
        _ => Reply::Verdict(None),
    }
}

/// Reading values.
trait Peek {
    fn as_i64(&self) -> Option<i64>;
    fn as_str(&self) -> Option<&str>;
    fn to_string(&self) -> String;
}

impl Peek for Value {
    fn as_i64(&self) -> Option<i64> {
        match self {
            Value::Int64(n) => Some(*n),
            _ => None,
        }
    }
    fn as_str(&self) -> Option<&str> {
        match self {
            Value::Text(s) => Some(s),
            _ => None,
        }
    }
    fn to_string(&self) -> String {
        show_value(self)
    }
}

const NOW: i64 = 1_700_000_000_000_000;

/// An engine with the numeric unit above.
#[derive(Clone)]
struct Db(Rc<RefCell<QueryEngine>>);

impl Db {
    fn new() -> Db {
        Db(Rc::new(RefCell::new(QueryEngine::new("test"))))
    }
    fn execute(&self, stmt: Statement, txn: Option<u64>) -> Result<ExecutionResult> {
        let rn = Runner { u: &unit, now: NOW, depth: 32 };
        self.0.borrow_mut().execute(&rn, stmt, txn)
    }
    fn execute_sql(&self, sql: &str, txn: Option<u64>) -> Result<ExecutionResult> {
        let rn = Runner { u: &unit, now: NOW, depth: 32 };
        self.0.borrow_mut().execute_sql(&rn, sql, txn)
    }
    fn begin(&self, level: IsolationLevel) -> u64 {
        self.0.borrow_mut().begin(level).unwrap()
    }
}

fn isolation_setup() -> (Db, Db) {
    let e = Db::new();
    (e.clone(), e)
}

fn isolation_count(e: &Db, sql: &str, t: Option<u64>) -> usize {
    match e.execute_sql(sql, t).unwrap() {
        ExecutionResult::Rows { rows, .. } => rows.len(),
        o => panic!("{o:?}"),
    }
}

#[test]
fn no_dirty_read_across_transactions() {
    let (txn, e) = isolation_setup();
    e.execute_sql("CREATE TABLE t (id INT PRIMARY KEY, v INT)", None).unwrap();
    e.execute_sql("INSERT INTO t VALUES (1, 100)", None).unwrap();

    let a = txn.begin(IsolationLevel::ReadCommitted);
    let b = txn.begin(IsolationLevel::ReadCommitted);

    e.execute_sql("INSERT INTO t VALUES (2, 200)", Some(a)).unwrap();
    e.execute_sql("UPDATE t SET v = 999 WHERE id = 1", Some(a)).unwrap();

    assert_eq!(isolation_count(&e, "SELECT id FROM t", Some(b)), 1, "B must not see A's uncommitted insert");
    match e.execute_sql("SELECT v FROM t WHERE id = 1", Some(b)).unwrap() {
        ExecutionResult::Rows { rows, .. } => {
            assert_eq!(rows[0][0].as_i64().unwrap(), 100, "B must not see A's uncommitted update");
        }
        o => panic!("{o:?}"),
    }
}

#[test]
fn read_your_own_writes() {
    let (txn, e) = isolation_setup();
    e.execute_sql("CREATE TABLE t (id INT PRIMARY KEY, v INT)", None).unwrap();

    let a = txn.begin(IsolationLevel::ReadCommitted);
    e.execute_sql("INSERT INTO t VALUES (1, 100)", Some(a)).unwrap();
    e.execute_sql("UPDATE t SET v = 150 WHERE id = 1", Some(a)).unwrap();

    assert_eq!(isolation_count(&e, "SELECT id FROM t", Some(a)), 1, "A must see its own insert");
    match e.execute_sql("SELECT v FROM t WHERE id = 1", Some(a)).unwrap() {
        ExecutionResult::Rows { rows, .. } => {
            assert_eq!(rows[0][0].as_i64().unwrap(), 150, "A must see its own update");
        }
        o => panic!("{o:?}"),
    }
}

#[test]
fn snapshot_stable_after_concurrent_commit() {
    let (txn, e) = isolation_setup();
    e.execute_sql("CREATE TABLE t (id INT PRIMARY KEY, v INT)", None).unwrap();
    e.execute_sql("INSERT INTO t VALUES (1, 100)", None).unwrap();

    let b = txn.begin(IsolationLevel::RepeatableRead);
    assert_eq!(isolation_count(&e, "SELECT id FROM t", Some(b)), 1);

    let a = txn.begin(IsolationLevel::ReadCommitted);
    e.execute_sql("INSERT INTO t VALUES (2, 200)", Some(a)).unwrap();
    e.execute_sql("COMMIT", Some(a)).unwrap();

    assert_eq!(isolation_count(&e, "SELECT id FROM t", Some(b)), 1, "B's snapshot must not see A's post-snapshot commit");

    assert_eq!(isolation_count(&e, "SELECT id FROM t", None), 2, "a fresh read sees the committed row");
}

fn explain_engine() -> Db {
    Db::new()
}

fn explain_plan_text(e: &Db, sql: &str) -> String {
    match e.execute_sql(sql, None).unwrap() {
        ExecutionResult::Rows { rows, .. } => rows.iter()
            .map(|r| if let Value::Text(s) = &r[0] { s.clone() } else { String::new() })
            .collect::<Vec<_>>()
            .join("\n"),
        other => panic!("{other:?}"),
    }
}

fn explain_seed(e: &Db) {
    e.execute_sql("CREATE TABLE t (id INT PRIMARY KEY, g INT, v INT)", None).unwrap();
    for i in 1..=20 {
        e.execute_sql(&format!("INSERT INTO t VALUES ({i}, {}, {})", i % 3, i * 10), None).unwrap();
    }
}

#[test]
fn explain_shows_estimated_rows_and_cost() {
    let e = explain_engine();
    explain_seed(&e);
    let p = explain_plan_text(&e, "EXPLAIN SELECT * FROM t WHERE v > 50");
    assert!(p.contains("estimated_rows="), "must show estimate: {p}");
    assert!(p.contains("estimated_cost="), "must show cost: {p}");
    assert!(p.contains("Seq Scan on t"), "must show scan node: {p}");
    assert!(p.contains("filter:"), "must show filter predicate: {p}");
}

#[test]
fn explain_analyze_shows_actual_rows_and_time() {
    let e = explain_engine();
    explain_seed(&e);
    let p = explain_plan_text(&e, "EXPLAIN ANALYZE SELECT * FROM t WHERE v > 100");
    assert!(p.contains("Actual"), "ANALYZE must show actual stats: {p}");
    assert!(p.contains("rows="), "must show actual rows: {p}");
    assert!(p.contains("time="), "must show timing: {p}");
}

#[test]
fn explained_lines() {
    let e = explain_engine();
    explain_seed(&e);
    assert_eq!(
        explain_plan_text(&e, "EXPLAIN ANALYZE SELECT * FROM t WHERE v > 100"),
        "Plan  (estimated_rows=20  estimated_cost=20.20)\n\
         Actual  rows=10  time=3.045 ms  est/actual_factor=0.50\n\
         Project  (1 cols)\n  -> Seq Scan on t  (filter: (v > 100))"
    );
    assert_eq!(
        explain_plan_text(&e, "EXPLAIN SELECT * FROM t").lines().next(),
        Some("Plan  (estimated_rows=20  estimated_cost=20.20)")
    );
}

#[test]
fn explain_aggregate_shows_group_by() {
    let e = explain_engine();
    explain_seed(&e);
    let p = explain_plan_text(&e, "EXPLAIN SELECT g, COUNT(*) FROM t GROUP BY g");
    assert!(p.contains("Aggregate"), "must show aggregate node: {p}");
    assert!(p.contains("group by"), "must show group keys: {p}");
}

#[test]
fn explain_sort_shows_order() {
    let e = explain_engine();
    explain_seed(&e);
    let p = explain_plan_text(&e, "EXPLAIN SELECT * FROM t ORDER BY v DESC");
    assert!(p.contains("Sort"), "must show sort node: {p}");
    assert!(p.contains("DESC"), "must show sort direction: {p}");
}

#[test]
fn explain_does_not_execute_dml() {
    let e = explain_engine();
    explain_seed(&e);
    let before = match e.execute_sql("SELECT * FROM t", None).unwrap() {
        ExecutionResult::Rows { rows, .. } => rows.len(),
        other => panic!("{other:?}"),
    };
    // EXPLAIN (without ANALYZE) must not run the query
    let _ = explain_plan_text(&e, "EXPLAIN DELETE FROM t WHERE id = 1");
    let after = match e.execute_sql("SELECT * FROM t", None).unwrap() {
        ExecutionResult::Rows { rows, .. } => rows.len(),
        other => panic!("{other:?}"),
    };
    assert_eq!(before, after, "EXPLAIN without ANALYZE must not mutate data");
}

fn secondary_index_engine() -> Db {
    Db::new()
}

fn secondary_index_run(e: &Db, sql: &str) -> ExecutionResult {
    e.execute_sql(sql, None).unwrap_or_else(|err| panic!("sql failed: {sql}: {err:?}"))
}

fn secondary_index_rows(e: &Db, sql: &str) -> Vec<Vec<Value>> {
    match secondary_index_run(e, sql) {
        ExecutionResult::Rows { rows, .. } => rows,
        other => panic!("expected rows for {sql}, got {other:?}"),
    }
}

fn secondary_index_ints(e: &Db, sql: &str, col: usize) -> Vec<i64> {
    let mut v: Vec<i64> = secondary_index_rows(e, sql)
        .into_iter()
        .filter_map(|r| r.get(col).and_then(|x| x.as_i64()))
        .collect();
    v.sort_unstable();
    v
}

fn secondary_index_seed(e: &Db) {
    secondary_index_run(e, "CREATE TABLE users (id INT PRIMARY KEY, age INT, city TEXT)");
    for (id, age, city) in [
        (1, 30, "NYC"),
        (2, 25, "LA"),
        (3, 30, "NYC"),
        (4, 40, "SF"),
        (5, 25, "LA"),
        (6, 100, "NYC"),
    ] {
        secondary_index_run(e, &format!("INSERT INTO users VALUES ({id}, {age}, '{city}')"));
    }
}

#[test]
fn equality_lookup_matches_seq_scan() {
    let e = secondary_index_engine();
    secondary_index_seed(&e);
    secondary_index_run(&e, "CREATE INDEX idx_age ON users (age)");

    let plan = secondary_index_rows(&e, "EXPLAIN SELECT id FROM users WHERE age = 30");
    let txt: String = plan.iter().flatten().map(|v| v.to_string()).collect::<Vec<_>>().join("\n");
    assert!(txt.contains("Index Scan"), "expected Index Scan in plan, got:\n{txt}");

    assert_eq!(secondary_index_ints(&e, "SELECT id FROM users WHERE age = 30", 0), vec![1, 3]);
    assert_eq!(secondary_index_ints(&e, "SELECT id FROM users WHERE age = 25", 0), vec![2, 5]);
    assert_eq!(secondary_index_ints(&e, "SELECT id FROM users WHERE age = 99", 0), Vec::<i64>::new());
}

#[test]
fn range_lookup_is_correct() {
    let e = secondary_index_engine();
    secondary_index_seed(&e);
    secondary_index_run(&e, "CREATE INDEX idx_age ON users (age)");

    assert_eq!(secondary_index_ints(&e, "SELECT id FROM users WHERE age > 30", 0), vec![4, 6]);
    assert_eq!(secondary_index_ints(&e, "SELECT id FROM users WHERE age >= 30", 0), vec![1, 3, 4, 6]);
    assert_eq!(secondary_index_ints(&e, "SELECT id FROM users WHERE age < 30", 0), vec![2, 5]);
    assert_eq!(secondary_index_ints(&e, "SELECT id FROM users WHERE age <= 25", 0), vec![2, 5]);
}

#[test]
fn text_index_equality() {
    let e = secondary_index_engine();
    secondary_index_seed(&e);
    secondary_index_run(&e, "CREATE INDEX idx_city ON users (city)");

    let plan = secondary_index_rows(&e, "EXPLAIN SELECT id FROM users WHERE city = 'NYC'");
    let txt: String = plan.iter().flatten().map(|v| v.to_string()).collect::<Vec<_>>().join("\n");
    assert!(txt.contains("Index Scan"), "expected Index Scan, got:\n{txt}");

    assert_eq!(secondary_index_ints(&e, "SELECT id FROM users WHERE city = 'NYC'", 0), vec![1, 3, 6]);
    assert_eq!(secondary_index_ints(&e, "SELECT id FROM users WHERE city = 'LA'", 0), vec![2, 5]);
}

#[test]
fn update_keeps_index_consistent() {
    let e = secondary_index_engine();
    secondary_index_seed(&e);
    secondary_index_run(&e, "CREATE INDEX idx_age ON users (age)");

    secondary_index_run(&e, "UPDATE users SET age = 25 WHERE id = 1");
    // id 1 left the age=30 bucket and joined age=25.
    assert_eq!(secondary_index_ints(&e, "SELECT id FROM users WHERE age = 30", 0), vec![3]);
    assert_eq!(secondary_index_ints(&e, "SELECT id FROM users WHERE age = 25", 0), vec![1, 2, 5]);
}

#[test]
fn delete_removes_from_index() {
    let e = secondary_index_engine();
    secondary_index_seed(&e);
    secondary_index_run(&e, "CREATE INDEX idx_age ON users (age)");

    secondary_index_run(&e, "DELETE FROM users WHERE id = 3");
    assert_eq!(secondary_index_ints(&e, "SELECT id FROM users WHERE age = 30", 0), vec![1]);
}

#[test]
fn unique_index_rejects_duplicates() {
    let e = secondary_index_engine();
    secondary_index_run(&e, "CREATE TABLE u (id INT PRIMARY KEY, email TEXT)");
    secondary_index_run(&e, "INSERT INTO u VALUES (1, 'a@x.com')");
    secondary_index_run(&e, "CREATE UNIQUE INDEX idx_email ON u (email)");

    // Duplicate value must be rejected.
    assert!(e.execute_sql("INSERT INTO u VALUES (2, 'a@x.com')", None).is_err());
    // A distinct value is fine.
    assert!(e.execute_sql("INSERT INTO u VALUES (3, 'b@x.com')", None).is_ok());
}

#[test]
fn unique_index_build_rejects_existing_duplicates() {
    let e = secondary_index_engine();
    secondary_index_run(&e, "CREATE TABLE u (id INT PRIMARY KEY, email TEXT)");
    secondary_index_run(&e, "INSERT INTO u VALUES (1, 'a@x.com')");
    secondary_index_run(&e, "INSERT INTO u VALUES (2, 'a@x.com')");
    assert!(e.execute_sql("CREATE UNIQUE INDEX idx_email ON u (email)", None).is_err());
}

#[test]
fn drop_index_falls_back_to_seq_scan() {
    let e = secondary_index_engine();
    secondary_index_seed(&e);
    secondary_index_run(&e, "CREATE INDEX idx_age ON users (age)");
    secondary_index_run(&e, "DROP INDEX idx_age");

    let plan = secondary_index_rows(&e, "EXPLAIN SELECT id FROM users WHERE age = 30");
    let txt: String = plan.iter().flatten().map(|v| v.to_string()).collect::<Vec<_>>().join("\n");
    assert!(!txt.contains("Index Scan"), "index should be gone, got:\n{txt}");
    // Results still correct via seq scan.
    assert_eq!(secondary_index_ints(&e, "SELECT id FROM users WHERE age = 30", 0), vec![1, 3]);
}

fn rollback_atomicity_setup() -> (Db, Db) {
    let e = Db::new();
    (e.clone(), e)
}

fn rollback_atomicity_count(e: &Db, sql: &str, txn: Option<u64>) -> usize {
    match e.execute_sql(sql, txn).unwrap() {
        ExecutionResult::Rows { rows, .. } => rows.len(),
        other => panic!("expected rows, got {other:?}"),
    }
}

#[test]
fn rollback_of_insert_is_invisible_autocommit() {
    let (txn, e) = rollback_atomicity_setup();
    e.execute_sql("CREATE TABLE t (id INT PRIMARY KEY, v INT)", None).unwrap();

    let t1 = txn.begin(IsolationLevel::ReadCommitted);
    e.execute_sql("INSERT INTO t VALUES (1, 100)", Some(t1)).unwrap();
    e.execute_sql("ROLLBACK", Some(t1)).unwrap();

    let n = rollback_atomicity_count(&e, "SELECT id FROM t", None);
    assert_eq!(n, 0, "rolled-back INSERT must not be visible (autocommit read)");
}

#[test]
fn rollback_of_insert_invisible_to_new_txn() {
    let (txn, e) = rollback_atomicity_setup();
    e.execute_sql("CREATE TABLE t (id INT PRIMARY KEY, v INT)", None).unwrap();

    let t1 = txn.begin(IsolationLevel::ReadCommitted);
    e.execute_sql("INSERT INTO t VALUES (1, 100)", Some(t1)).unwrap();
    e.execute_sql("ROLLBACK", Some(t1)).unwrap();

    let t2 = txn.begin(IsolationLevel::ReadCommitted);
    let n = rollback_atomicity_count(&e, "SELECT id FROM t", Some(t2));
    assert_eq!(n, 0, "rolled-back INSERT must not be visible to a later txn");
}

#[test]
fn rollback_of_update_restores_value() {
    let (txn, e) = rollback_atomicity_setup();
    e.execute_sql("CREATE TABLE t (id INT PRIMARY KEY, v INT)", None).unwrap();
    e.execute_sql("INSERT INTO t VALUES (1, 100)", None).unwrap();

    let t1 = txn.begin(IsolationLevel::ReadCommitted);
    e.execute_sql("UPDATE t SET v = 999 WHERE id = 1", Some(t1)).unwrap();
    e.execute_sql("ROLLBACK", Some(t1)).unwrap();

    match e.execute_sql("SELECT v FROM t WHERE id = 1", None).unwrap() {
        ExecutionResult::Rows { rows, .. } => {
            let v = rows[0][0].as_i64().unwrap();
            assert_eq!(v, 100, "rolled-back UPDATE must restore the original value");
        }
        other => panic!("{other:?}"),
    }
}

#[test]
fn rollback_of_delete_keeps_row() {
    let (txn, e) = rollback_atomicity_setup();
    e.execute_sql("CREATE TABLE t (id INT PRIMARY KEY, v INT)", None).unwrap();
    e.execute_sql("INSERT INTO t VALUES (1, 100)", None).unwrap();

    let t1 = txn.begin(IsolationLevel::ReadCommitted);
    e.execute_sql("DELETE FROM t WHERE id = 1", Some(t1)).unwrap();
    e.execute_sql("ROLLBACK", Some(t1)).unwrap();

    let n = rollback_atomicity_count(&e, "SELECT id FROM t", None);
    assert_eq!(n, 1, "rolled-back DELETE must keep the row");
}

#[test]
fn rollback_restores_secondary_index() {
    let (txn, e) = rollback_atomicity_setup();
    e.execute_sql("CREATE TABLE t (id INT PRIMARY KEY, v INT)", None).unwrap();
    e.execute_sql("INSERT INTO t VALUES (1, 100)", None).unwrap();
    e.execute_sql("INSERT INTO t VALUES (2, 200)", None).unwrap();
    e.execute_sql("CREATE INDEX idx_v ON t (v)", None).unwrap();

    let t1 = txn.begin(IsolationLevel::ReadCommitted);
    e.execute_sql("UPDATE t SET v = 999 WHERE id = 1", Some(t1)).unwrap();
    e.execute_sql("INSERT INTO t VALUES (3, 300)", Some(t1)).unwrap();
    e.execute_sql("ROLLBACK", Some(t1)).unwrap();

    assert_eq!(rollback_atomicity_count(&e, "SELECT id FROM t WHERE v = 100", None), 1, "index must point to restored value");
    assert_eq!(rollback_atomicity_count(&e, "SELECT id FROM t WHERE v = 999", None), 0, "index must not retain rolled-back value");
    assert_eq!(rollback_atomicity_count(&e, "SELECT id FROM t WHERE v = 300", None), 0, "index must not retain rolled-back insert");
}

#[test]
fn multi_statement_rollback() {
    let (txn, e) = rollback_atomicity_setup();
    e.execute_sql("CREATE TABLE t (id INT PRIMARY KEY, v INT)", None).unwrap();

    let t1 = txn.begin(IsolationLevel::ReadCommitted);
    e.execute_sql("INSERT INTO t VALUES (1, 10)", Some(t1)).unwrap();
    e.execute_sql("UPDATE t SET v = 20 WHERE id = 1", Some(t1)).unwrap();
    e.execute_sql("UPDATE t SET v = 30 WHERE id = 1", Some(t1)).unwrap();
    e.execute_sql("ROLLBACK", Some(t1)).unwrap();

    assert_eq!(rollback_atomicity_count(&e, "SELECT id FROM t", None), 0, "all statements in the txn must be undone");
}

#[test]
fn commit_persists_changes() {
    let (txn, e) = rollback_atomicity_setup();
    e.execute_sql("CREATE TABLE t (id INT PRIMARY KEY, v INT)", None).unwrap();

    let t1 = txn.begin(IsolationLevel::ReadCommitted);
    e.execute_sql("INSERT INTO t VALUES (1, 100)", Some(t1)).unwrap();
    e.execute_sql("COMMIT", Some(t1)).unwrap();

    assert_eq!(rollback_atomicity_count(&e, "SELECT id FROM t", None), 1, "committed row must be visible");
}

fn parse_cache_engine() -> Db {
    Db::new()
}

fn parse_cache_seed(e: &Db) {
    e.execute_sql("CREATE TABLE t (id INT PRIMARY KEY, v INT)", None).unwrap();
    for i in 0..5 {
        e.execute_sql(&format!("INSERT INTO t VALUES ({}, {})", i, i * 10), None).unwrap();
    }
}

#[test]
fn parse_cached_distinguishes_different_sql() {
    let e = parse_cache_engine();
    let s1 = format!("{:?}", e.0.borrow_mut().parse_cached("SELECT 1").unwrap());
    let s2 = format!("{:?}", e.0.borrow_mut().parse_cached("SELECT 2").unwrap());
    assert_ne!(s1, s2, "different SQL must not share a cached statement");

    let s1_again = format!("{:?}", e.0.borrow_mut().parse_cached("SELECT 1").unwrap());
    assert_eq!(s1, s1_again, "same SQL must return an equivalent statement from cache");
}

#[test]
fn cache_serves_repeated_queries_correctly() {
    let e = parse_cache_engine();
    parse_cache_seed(&e);

    for _ in 0..4 {
        match e.execute_sql("SELECT id FROM t WHERE id = 3", None).unwrap() {
            ExecutionResult::Rows { rows, .. } => assert_eq!(rows.len(), 1),
            other => panic!("{other:?}"),
        }
    }

    match e.execute_sql("SELECT id FROM t", None).unwrap() {
        ExecutionResult::Rows { rows, .. } => assert_eq!(rows.len(), 5),
        other => panic!("{other:?}"),
    }

    match e.execute_sql("SELECT id FROM t WHERE id = 3", None).unwrap() {
        ExecutionResult::Rows { rows, .. } => assert_eq!(rows.len(), 1),
        other => panic!("{other:?}"),
    }
}

fn resource_limits_wiring_engine() -> Db {
    Db::new()
}

fn resource_limits_wiring_run(e: &Db, sql: &str) -> Result<ExecutionResult> {
    let mut p = Parser::new(sql).unwrap();
    let stmt = p.parse().unwrap();
    e.execute(stmt, None)
}

fn resource_limits_wiring_seed(e: &Db, n: i64) {
    resource_limits_wiring_run(e, "CREATE TABLE t (id INT PRIMARY KEY, v INT)").unwrap();
    for i in 0..n {
        resource_limits_wiring_run(e, &format!("INSERT INTO t VALUES ({}, {})", i, i)).unwrap();
    }
}

#[test]
fn bare_execute_is_unlimited_by_default() {
    let e = resource_limits_wiring_engine();
    resource_limits_wiring_seed(&e, 50);
    match resource_limits_wiring_run(&e, "SELECT * FROM t").unwrap() {
        ExecutionResult::Rows { rows, .. } => assert_eq!(rows.len(), 50),
        other => panic!("{other:?}"),
    }
}

#[test]
fn bare_execute_enforces_max_scan_rows() {
    let e = resource_limits_wiring_engine();
    resource_limits_wiring_seed(&e, 50);
    e.0.borrow_mut().set_resource_limits(10, 0);
    let r = resource_limits_wiring_run(&e, "SELECT * FROM t");
    assert!(
        matches!(r, Err(QueryError::ResourceLimit(_))),
        "expected ResourceLimit on the server path, got {:?}",
        r
    );
}

#[test]
fn context_does_not_leak_between_queries() {
    let e = resource_limits_wiring_engine();
    resource_limits_wiring_seed(&e, 50);
    e.0.borrow_mut().set_resource_limits(10, 0);
    assert!(resource_limits_wiring_run(&e, "SELECT * FROM t").is_err());

    e.0.borrow_mut().set_resource_limits(1000, 0);
    match resource_limits_wiring_run(&e, "SELECT * FROM t").unwrap() {
        ExecutionResult::Rows { rows, .. } => assert_eq!(rows.len(), 50),
        other => panic!("{other:?}"),
    }

    e.0.borrow_mut().set_resource_limits(0, 0);
    match resource_limits_wiring_run(&e, "SELECT * FROM t").unwrap() {
        ExecutionResult::Rows { rows, .. } => assert_eq!(rows.len(), 50),
        other => panic!("{other:?}"),
    }
}

fn parallel_scan_engine() -> Db {
    Db::new()
}

fn parallel_scan_seed_large(e: &Db, n: i64) {
    e.execute_sql("CREATE TABLE t (id INT PRIMARY KEY, v INT, g INT)", None).unwrap();
    for i in 0..n {
        e.execute_sql(&format!("INSERT INTO t VALUES ({i}, {}, {})", i % 1000, i % 7), None).unwrap();
    }
}

fn parallel_scan_ids(res: ExecutionResult) -> Vec<i64> {
    match res {
        ExecutionResult::Rows { rows, .. } => {
            let mut v: Vec<i64> = rows.into_iter()
                .filter_map(|r| r.first().and_then(|x| x.as_i64()))
                .collect();
            v.sort_unstable();
            v
        }
        other => panic!("expected rows, got {other:?}"),
    }
}

#[test]
fn parallel_scan_matches_expected() {
    let e = parallel_scan_engine();
    let n = 20000;
    parallel_scan_seed_large(&e, n);

    let got = parallel_scan_ids(e.execute_sql("SELECT id FROM t WHERE v = 500", None).unwrap());
    let expected: Vec<i64> = (0..n).filter(|i| i % 1000 == 500).collect();
    assert_eq!(got, expected);
}

#[test]
fn parallel_scan_complex_predicate() {
    let e = parallel_scan_engine();
    let n = 20000;
    parallel_scan_seed_large(&e, n);

    let got = parallel_scan_ids(e.execute_sql("SELECT id FROM t WHERE v > 100 AND g = 3", None).unwrap());
    let expected: Vec<i64> = (0..n).filter(|i| i % 1000 > 100 && i % 7 == 3).collect();
    assert_eq!(got, expected);
}

#[test]
fn parallel_scan_row_count_matches_sequential_semantics() {
    let e = parallel_scan_engine();
    let n = 20000;
    parallel_scan_seed_large(&e, n);

    let count = match e.execute_sql("SELECT id FROM t WHERE g = 0", None).unwrap() {
        ExecutionResult::Rows { rows, .. } => rows.len(),
        _ => panic!(),
    };
    let expected = (0..n).filter(|i| i % 7 == 0).count();
    assert_eq!(count, expected);
}

#[test]
fn parallel_scan_respects_row_limit() {
    let e = parallel_scan_engine();
    parallel_scan_seed_large(&e, 20000);

    let ctx = QueryContext::with_limits(ResourceLimits::unlimited().with_scan_rows(5000));
    let r = with_ctx(&e, "SELECT id FROM t WHERE v = 1", ctx);
    assert!(r.is_err(), "row limit must trip on the parallel scan path");
}

#[test]
fn parallel_scan_respects_cancel() {
    let e = parallel_scan_engine();
    parallel_scan_seed_large(&e, 20000);

    let mut ctx = QueryContext::new();
    ctx.cancel();
    let r = with_ctx(&e, "SELECT id FROM t WHERE v = 1", ctx);
    assert!(r.is_err(), "cancelled query must not return rows");
}

#[test]
fn aggregate_over_large_table_is_correct() {
    let e = parallel_scan_engine();
    let n = 20000i64;
    parallel_scan_seed_large(&e, n);

    match e.execute_sql("SELECT g, COUNT(*) FROM t WHERE v < 500 GROUP BY g", None).unwrap() {
        ExecutionResult::Rows { rows, columns } => {
            let gi = columns.iter().position(|c| c == "g").unwrap();
            let ci = columns.len() - 1;
            let mut total = 0i64;
            for r in &rows {
                let _ = &r[gi];
                total += r[ci].as_i64().unwrap();
            }
            let expected = (0..n).filter(|i| i % 1000 < 500).count() as i64;
            assert_eq!(total, expected);
        }
        other => panic!("expected rows, got {other:?}"),
    }
    let _ = Value::Null;
}

fn with_ctx(e: &Db, sql: &str, mut ctx: QueryContext) -> Result<ExecutionResult> {
    let rn = Runner { u: &unit, now: NOW, depth: 32 };
    e.0.borrow_mut().execute_sql_with_ctx(&rn, sql, None, &mut ctx, 0)
}
