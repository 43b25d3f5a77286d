use std::cell::RefCell;
use std::rc::Rc;

use bytedb_query::error::Result;
use bytedb_query::executor::constraints::Runner;
use bytedb_query::executor::engine::{ExecutionResult, QueryEngine};
use bytedb_query::executor::unit::{Ask, FloatFn, FloatOp, Reply};
use bytedb_query::parser::ast::{IsolationLevel, Statement};
use bytedb_query::value::{DataType, Order, Value};

fn as_float(v: &Value) -> Option<f64> {
    match v {
        Value::Int64(n) => Some(*n as f64),
        Value::Float64(b) => Some(f64::from_bits(*b)),
        Value::Decimal(n, scale) => Some(*n as f64 / 10f64.powi(*scale as i32)),
        _ => None,
    }
}

fn parse_decimal(s: &str) -> Option<Value> {
    let t = s.trim();
    let (whole, part) = match t.find('.') {
        Some(at) => (&t[..at], &t[at + 1..]),
        None => (t, ""),
    };
    let n: i128 = format!("{whole}{part}").parse().ok()?;
    Some(Value::Decimal(n, part.len() as u8))
}

fn parse_date(s: &str) -> Option<Value> {
    let p: Vec<i64> = s.trim().split('-').filter_map(|x| x.parse().ok()).collect();
    if p.len() != 3 {
        return None;
    }
    let (y, m, d) = (if p[1] <= 2 { p[0] - 1 } else { p[0] }, p[1], p[2]);
    let era = y.div_euclid(400);
    let yoe = y - era * 400;
    let doy = (153 * (if m > 2 { m - 3 } else { m + 9 }) + 2) / 5 + d - 1;
    Some(Value::Date((era * 146097 + yoe * 365 + yoe / 4 - yoe / 100 + doy - 719468) as i32))
}

fn parse_value(t: DataType, s: &str) -> Option<Value> {
    match t {
        DataType::Int64 => s.trim().parse().ok().map(Value::Int64),
        DataType::Float64 => s.trim().parse::<f64>().ok().map(|f| Value::Float64(f.to_bits())),
        DataType::Bool => s.trim().to_lowercase().parse().ok().map(Value::Bool),
        DataType::Decimal => parse_decimal(s),
        DataType::Date => parse_date(s),
        DataType::Uuid => u128::from_str_radix(&s.replace('-', ""), 16).ok().map(Value::Uuid),
        DataType::Json => Some(Value::Json(s.to_string())),
        _ => None,
    }
}

fn show_value(v: &Value) -> String {
    match v {
        Value::Null => "NULL".to_string(),
        Value::Bool(b) => b.to_string(),
        Value::Int64(n) | Value::Timestamp(n) | Value::Interval(n) => n.to_string(),
        Value::Float64(b) => f64::from_bits(*b).to_string(),
        Value::Text(s) | Value::Json(s) => s.clone(),
        other => format!("{other:?}"),
    }
}

fn order_values(a: &Value, b: &Value) -> Option<Order> {
    match as_float(a)?.partial_cmp(&as_float(b)?)? {
        std::cmp::Ordering::Less => Some(Order::Less),
        std::cmp::Ordering::Equal => Some(Order::Equal),
        std::cmp::Ordering::Greater => Some(Order::Greater),
    }
}

/// The numeric unit, on the machine's floats.
fn unit(q: Ask) -> Reply {
    match q {
        Ask::Arith(op, a, b) => {
            let (x, y) = (f64::from_bits(a), f64::from_bits(b));
            let z = match op {
                FloatOp::Plus => x + y,
                FloatOp::Minus => x - y,
                FloatOp::Times => x * y,
                FloatOp::Over => x / y,
                FloatOp::Rem => x % y,
                FloatOp::Power => x.powf(y),
            };
            Reply::Bits(z.to_bits())
        }
        Ask::Unary(op, a) => {
            let x = f64::from_bits(a);
            let z = match op {
                FloatFn::Ceil => x.ceil(),
                FloatFn::Floor => x.floor(),
                FloatFn::Round => x.round(),
                FloatFn::Sqrt => x.sqrt(),
            };
            Reply::Bits(z.to_bits())
        }
        Ask::FromInt(n) => Reply::Bits((n as f64).to_bits()),
        Ask::ToInt(b) => Reply::Int(f64::from_bits(b) as i64),
        Ask::ParseFloat(s) => Reply::MaybeBits(s.trim().parse::<f64>().ok().map(f64::to_bits)),
        Ask::ShowFloat(b) => Reply::Text(f64::from_bits(b).to_string()),
        Ask::Parse(t, s) => Reply::MaybeValue(parse_value(t, &s)),
        Ask::Show(v) => Reply::Text(show_value(&v)),
        Ask::Compare(a, b) => Reply::MaybeOrder(order_values(&a, &b)),
        _ => Reply::Verdict(None),
    }
}

/// Reading values.
trait Peek {
    fn as_i64(&self) -> Option<i64>;
    fn as_str(&self) -> Option<&str>;
    fn to_string(&self) -> String;
}

impl Peek for Value {
    fn as_i64(&self) -> Option<i64> {
        match self {
            Value::Int64(n) => Some(*n),
            _ => None,
        }
    }
    fn as_str(&self) -> Option<&str> {
        match self {
            Value::Text(s) => Some(s),
            _ => None,
        }
    }
    fn to_string(&self) -> String {
        show_value(self)
    }
}

const NOW: i64 = 1_700_000_000_000_000;

/// An engine with the numeric unit above.
#[derive(Clone)]
struct Db(Rc<RefCell<QueryEngine>>);

impl Db {
    fn new() -> Db {
        Db(Rc::new(RefCell::new(QueryEngine::new("test"))))
    }
    fn execute(&self, stmt: Statement, txn: Option<u64>) -> Result<ExecutionResult> {
        let rn = Runner { u: &unit, now: NOW, depth: 32 };
        self.0.borrow_mut().execute(&rn, stmt, txn)
    }
    fn execute_sql(&self, sql: &str, txn: Option<u64>) -> Result<ExecutionResult> {
        let rn = Runner { u: &unit, now: NOW, depth: 32 };
        self.0.borrow_mut().execute_sql(&rn, sql, txn)
    }
    fn begin(&self, level: IsolationLevel) -> u64 {
        self.0.borrow_mut().begin(level).unwrap()
    }
}

fn composite_key_engine() -> Db {
    Db::new()
}

#[test]
fn composite_primary_key() {
    let e = composite_key_engine();
    e.execute_sql("CREATE TABLE mc (a INT, b INT, v INT, PRIMARY KEY (a, b))", None).unwrap();
    e.execute_sql("INSERT INTO mc VALUES (1, 1, 10)", None).unwrap();
    e.execute_sql("INSERT INTO mc VALUES (1, 2, 20)", None).unwrap();
    // Same (a,b) is a duplicate; differing b is not.
    assert!(e.execute_sql("INSERT INTO mc VALUES (1, 1, 99)", None).is_err());
    e.execute_sql("INSERT INTO mc VALUES (2, 1, 30)", None).unwrap();

    let r = e.execute_sql("SELECT v FROM mc WHERE a = 1 AND b = 2", None).unwrap();
    if let ExecutionResult::Rows { rows, .. } = r {
        assert_eq!(rows, vec![vec![Value::Int64(20)]]);
    } else {
        panic!();
    }
}

#[test]
fn table_level_unique() {
    let e = composite_key_engine();
    e.execute_sql("CREATE TABLE uu (id INT PRIMARY KEY, x INT, UNIQUE (x))", None).unwrap();
    e.execute_sql("INSERT INTO uu VALUES (1, 5)", None).unwrap();
    assert!(e.execute_sql("INSERT INTO uu VALUES (2, 5)", None).is_err());
    assert!(e.execute_sql("INSERT INTO uu VALUES (3, 6)", None).is_ok());
}

fn constraints_engine() -> Db {
    Db::new()
}

fn constraints_count(e: &Db, sql: &str) -> usize {
    match e.execute_sql(sql, None).unwrap() {
        ExecutionResult::Rows { rows, .. } => rows.len(),
        other => panic!("{other:?}"),
    }
}

#[test]
fn duplicate_primary_key_is_rejected() {
    let e = constraints_engine();
    e.execute_sql("CREATE TABLE t (id INT PRIMARY KEY, v INT)", None).unwrap();
    e.execute_sql("INSERT INTO t VALUES (1, 100)", None).unwrap();

    let r = e.execute_sql("INSERT INTO t VALUES (1, 200)", None);
    assert!(r.is_err(), "duplicate PRIMARY KEY must be rejected, got {r:?}");

    assert_eq!(constraints_count(&e, "SELECT id FROM t"), 1, "row count must stay 1");
    match e.execute_sql("SELECT v FROM t WHERE id = 1", None).unwrap() {
        ExecutionResult::Rows { rows, .. } => {
            assert_eq!(rows[0][0].as_i64().unwrap(), 100, "original value must be preserved");
        }
        other => panic!("{other:?}"),
    }
}

#[test]
fn unique_column_is_rejected() {
    let e = constraints_engine();
    e.execute_sql("CREATE TABLE t (id INT PRIMARY KEY, email TEXT UNIQUE)", None).unwrap();
    e.execute_sql("INSERT INTO t VALUES (1, 'a@x.com')", None).unwrap();
    let r = e.execute_sql("INSERT INTO t VALUES (2, 'a@x.com')", None);
    assert!(r.is_err(), "duplicate UNIQUE value must be rejected, got {r:?}");
}

fn fk_cascade_engine() -> Db {
    Db::new()
}

fn fk_cascade_count(e: &Db, sql: &str) -> i64 {
    match e.execute_sql(sql, None).unwrap() {
        ExecutionResult::Rows { rows, .. } => match rows[0][0] {
            Value::Int64(n) => n,
            _ => panic!("not int"),
        },
        other => panic!("{other:?}"),
    }
}

fn fk_cascade_setup(with_index: bool, on_delete: &str) -> Db {
    let e = fk_cascade_engine();
    e.execute_sql("CREATE TABLE parent (id INT PRIMARY KEY, name TEXT)", None).unwrap();
    e.execute_sql(
        &format!("CREATE TABLE child (id INT PRIMARY KEY, parent_id INT REFERENCES parent(id) ON DELETE {})", on_delete),
        None,
    ).unwrap();
    if with_index {
        e.execute_sql("CREATE INDEX ix_child_parent ON child(parent_id)", None).unwrap();
    }
    for i in 1..=3 {
        e.execute_sql(&format!("INSERT INTO parent VALUES ({}, 'p{}')", i, i), None).unwrap();
    }
    e.execute_sql("INSERT INTO child VALUES (10, 1)", None).unwrap();
    e.execute_sql("INSERT INTO child VALUES (11, 1)", None).unwrap();
    e.execute_sql("INSERT INTO child VALUES (12, 2)", None).unwrap();
    e.execute_sql("INSERT INTO child VALUES (13, 3)", None).unwrap();
    e
}

fn fk_cascade_cascade_deletes_children(with_index: bool) {
    let e = fk_cascade_setup(with_index, "CASCADE");
    e.execute_sql("DELETE FROM parent WHERE id = 1", None).unwrap();
    assert_eq!(fk_cascade_count(&e, "SELECT COUNT(*) FROM child WHERE parent_id = 1"), 0);
    assert_eq!(fk_cascade_count(&e, "SELECT COUNT(*) FROM child"), 2);
    assert_eq!(fk_cascade_count(&e, "SELECT COUNT(*) FROM parent"), 2);
}

#[test]
fn cascade_with_index() { fk_cascade_cascade_deletes_children(true); }

#[test]
fn cascade_without_index() { fk_cascade_cascade_deletes_children(false); }

fn fk_cascade_restrict_blocks_delete(with_index: bool) {
    let e = fk_cascade_setup(with_index, "RESTRICT");
    assert!(e.execute_sql("DELETE FROM parent WHERE id = 1", None).is_err());
    assert_eq!(fk_cascade_count(&e, "SELECT COUNT(*) FROM parent"), 3);
    assert_eq!(fk_cascade_count(&e, "SELECT COUNT(*) FROM child"), 4);
    e.execute_sql("DELETE FROM child WHERE parent_id = 3", None).unwrap();
    assert!(e.execute_sql("DELETE FROM parent WHERE id = 3", None).is_ok());
}

#[test]
fn restrict_with_index() { fk_cascade_restrict_blocks_delete(true); }

#[test]
fn restrict_without_index() { fk_cascade_restrict_blocks_delete(false); }

fn fk_cascade_setnull_nulls_children(with_index: bool) {
    let e = fk_cascade_setup(with_index, "SET NULL");
    e.execute_sql("DELETE FROM parent WHERE id = 1", None).unwrap();
    assert_eq!(fk_cascade_count(&e, "SELECT COUNT(*) FROM child WHERE parent_id IS NULL"), 2);
    assert_eq!(fk_cascade_count(&e, "SELECT COUNT(*) FROM child"), 4);
    assert_eq!(fk_cascade_count(&e, "SELECT COUNT(*) FROM child WHERE parent_id = 2"), 1);
}

#[test]
fn setnull_with_index() { fk_cascade_setnull_nulls_children(true); }

#[test]
fn setnull_without_index() { fk_cascade_setnull_nulls_children(false); }

#[test]
fn cascade_multi_parent_delete_with_index() {
    let e = fk_cascade_setup(true, "CASCADE");
    e.execute_sql("DELETE FROM parent WHERE id < 3", None).unwrap();
    assert_eq!(fk_cascade_count(&e, "SELECT COUNT(*) FROM child"), 1);
    assert_eq!(fk_cascade_count(&e, "SELECT COUNT(*) FROM child WHERE parent_id = 3"), 1);
    assert_eq!(fk_cascade_count(&e, "SELECT COUNT(*) FROM parent"), 1);
}

#[test]
fn setnull_after_index_lookup_keeps_index_consistent() {
    let e = fk_cascade_setup(true, "SET NULL");
    e.execute_sql("DELETE FROM parent WHERE id = 1", None).unwrap();
    assert_eq!(fk_cascade_count(&e, "SELECT COUNT(*) FROM child WHERE parent_id = 1"), 0);
    assert_eq!(fk_cascade_count(&e, "SELECT COUNT(*) FROM child WHERE parent_id = 2"), 1);
    e.execute_sql("DELETE FROM parent WHERE id = 2", None).unwrap();
    assert_eq!(fk_cascade_count(&e, "SELECT COUNT(*) FROM child WHERE parent_id = 2"), 0);
    assert_eq!(fk_cascade_count(&e, "SELECT COUNT(*) FROM child WHERE parent_id IS NULL"), 3);
}

#[test]
fn cascade_text_fk_with_index() {
    let e = fk_cascade_engine();
    e.execute_sql("CREATE TABLE parent (id INT PRIMARY KEY, code TEXT UNIQUE)", None).unwrap();
    e.execute_sql(
        "CREATE TABLE child (id INT PRIMARY KEY, pcode TEXT REFERENCES parent(code) ON DELETE CASCADE)",
        None,
    ).unwrap();
    e.execute_sql("CREATE INDEX ix_child_pcode ON child(pcode)", None).unwrap();
    e.execute_sql("INSERT INTO parent VALUES (1, 'AA')", None).unwrap();
    e.execute_sql("INSERT INTO parent VALUES (2, 'BB')", None).unwrap();
    e.execute_sql("INSERT INTO child VALUES (10, 'AA')", None).unwrap();
    e.execute_sql("INSERT INTO child VALUES (11, 'AA')", None).unwrap();
    e.execute_sql("INSERT INTO child VALUES (12, 'BB')", None).unwrap();

    e.execute_sql("DELETE FROM parent WHERE code = 'AA'", None).unwrap();
    assert_eq!(fk_cascade_count(&e, "SELECT COUNT(*) FROM child"), 1);
    assert_eq!(fk_cascade_count(&e, "SELECT COUNT(*) FROM child WHERE pcode = 'BB'"), 1);
}

fn fk_checks_engine() -> Db {
    Db::new()
}

#[test]
fn fk_to_primary_key_accepts_valid_rejects_invalid() {
    let e = fk_checks_engine();
    e.execute_sql("CREATE TABLE parent (id INT PRIMARY KEY, name TEXT)", None).unwrap();
    e.execute_sql(
        "CREATE TABLE child (id INT PRIMARY KEY, parent_id INT REFERENCES parent(id))",
        None,
    )
    .unwrap();
    e.execute_sql("INSERT INTO parent VALUES (1, 'a')", None).unwrap();
    e.execute_sql("INSERT INTO parent VALUES (2, 'b')", None).unwrap();

    assert!(e.execute_sql("INSERT INTO child VALUES (10, 1)", None).is_ok());
    assert!(e.execute_sql("INSERT INTO child VALUES (11, 2)", None).is_ok());
    assert!(e.execute_sql("INSERT INTO child VALUES (12, 999)", None).is_err());
    assert!(e.execute_sql("INSERT INTO child VALUES (13, NULL)", None).is_ok());
}

#[test]
fn fk_to_non_pk_column_still_validates() {
    let e = fk_checks_engine();
    e.execute_sql("CREATE TABLE parent (id INT PRIMARY KEY, code TEXT UNIQUE)", None).unwrap();
    e.execute_sql(
        "CREATE TABLE child (id INT PRIMARY KEY, pcode TEXT REFERENCES parent(code))",
        None,
    )
    .unwrap();
    e.execute_sql("INSERT INTO parent VALUES (1, 'X')", None).unwrap();

    assert!(e.execute_sql("INSERT INTO child VALUES (10, 'X')", None).is_ok());
    assert!(e.execute_sql("INSERT INTO child VALUES (11, 'Y')", None).is_err());
}

#[test]
fn unique_update_to_existing_value_rejected() {
    let e = fk_checks_engine();
    e.execute_sql("CREATE TABLE u (id INT PRIMARY KEY, email TEXT UNIQUE)", None).unwrap();
    e.execute_sql("INSERT INTO u VALUES (1, 'a@x.com')", None).unwrap();
    e.execute_sql("INSERT INTO u VALUES (2, 'b@x.com')", None).unwrap();
    assert!(e.execute_sql("UPDATE u SET email = 'a@x.com' WHERE id = 2", None).is_err());
    assert!(e.execute_sql("UPDATE u SET email = 'c@x.com' WHERE id = 2", None).is_ok());
}

fn fk_validate_engine() -> Db {
    Db::new()
}

fn fk_validate_setup_unique_parent(with_index: bool) -> Db {
    let e = fk_validate_engine();
    e.execute_sql("CREATE TABLE parent (id INT PRIMARY KEY, code TEXT UNIQUE)", None).unwrap();
    e.execute_sql(
        "CREATE TABLE child (id INT PRIMARY KEY, pcode TEXT REFERENCES parent(code))",
        None,
    ).unwrap();
    if with_index {
        e.execute_sql("CREATE INDEX ix_parent_code ON parent(code)", None).unwrap();
    }
    e.execute_sql("INSERT INTO parent VALUES (1, 'AA')", None).unwrap();
    e.execute_sql("INSERT INTO parent VALUES (2, 'BB')", None).unwrap();
    e
}

fn fk_validate_insert_validates_against_non_pk(with_index: bool) {
    let e = fk_validate_setup_unique_parent(with_index);
    assert!(e.execute_sql("INSERT INTO child VALUES (10, 'AA')", None).is_ok());
    assert!(e.execute_sql("INSERT INTO child VALUES (11, 'BB')", None).is_ok());
    assert!(e.execute_sql("INSERT INTO child VALUES (12, 'ZZ')", None).is_err());
    assert!(e.execute_sql("INSERT INTO child VALUES (13, NULL)", None).is_ok());
}

#[test]
fn insert_non_pk_fk_with_parent_index() { fk_validate_insert_validates_against_non_pk(true); }

#[test]
fn insert_non_pk_fk_without_parent_index() { fk_validate_insert_validates_against_non_pk(false); }

fn fk_validate_update_validates_against_non_pk(with_index: bool) {
    let e = fk_validate_setup_unique_parent(with_index);
    e.execute_sql("INSERT INTO child VALUES (10, 'AA')", None).unwrap();
    assert!(e.execute_sql("UPDATE child SET pcode = 'BB' WHERE id = 10", None).is_ok());
    assert!(e.execute_sql("UPDATE child SET pcode = 'ZZ' WHERE id = 10", None).is_err());
    assert!(e.execute_sql("UPDATE child SET pcode = NULL WHERE id = 10", None).is_ok());
}

#[test]
fn update_non_pk_fk_with_parent_index() { fk_validate_update_validates_against_non_pk(true); }

#[test]
fn update_non_pk_fk_without_parent_index() { fk_validate_update_validates_against_non_pk(false); }

#[test]
fn insert_pk_fk_still_validates() {
    let e = fk_validate_engine();
    e.execute_sql("CREATE TABLE parent (id INT PRIMARY KEY, name TEXT)", None).unwrap();
    e.execute_sql(
        "CREATE TABLE child (id INT PRIMARY KEY, parent_id INT REFERENCES parent(id))",
        None,
    ).unwrap();
    e.execute_sql("INSERT INTO parent VALUES (1, 'a')", None).unwrap();
    assert!(e.execute_sql("INSERT INTO child VALUES (10, 1)", None).is_ok());
    assert!(e.execute_sql("INSERT INTO child VALUES (11, 99)", None).is_err());
}

#[test]
fn update_pk_fk_still_validates() {
    let e = fk_validate_engine();
    e.execute_sql("CREATE TABLE parent (id INT PRIMARY KEY, name TEXT)", None).unwrap();
    e.execute_sql(
        "CREATE TABLE child (id INT PRIMARY KEY, parent_id INT REFERENCES parent(id))",
        None,
    ).unwrap();
    e.execute_sql("INSERT INTO parent VALUES (1, 'a')", None).unwrap();
    e.execute_sql("INSERT INTO parent VALUES (2, 'b')", None).unwrap();
    e.execute_sql("INSERT INTO child VALUES (10, 1)", None).unwrap();
    assert!(e.execute_sql("UPDATE child SET parent_id = 2 WHERE id = 10", None).is_ok());
    assert!(e.execute_sql("UPDATE child SET parent_id = 99 WHERE id = 10", None).is_err());
}

#[test]
fn insert_int_fk_to_unique_with_index() {
    let e = fk_validate_engine();
    e.execute_sql("CREATE TABLE parent (id INT PRIMARY KEY, num INT UNIQUE)", None).unwrap();
    e.execute_sql(
        "CREATE TABLE child (id INT PRIMARY KEY, pnum INT REFERENCES parent(num))",
        None,
    ).unwrap();
    e.execute_sql("CREATE INDEX ix_pnum ON parent(num)", None).unwrap();
    e.execute_sql("INSERT INTO parent VALUES (1, 500)", None).unwrap();
    e.execute_sql("INSERT INTO parent VALUES (2, 600)", None).unwrap();
    assert!(e.execute_sql("INSERT INTO child VALUES (10, 500)", None).is_ok());
    assert!(e.execute_sql("INSERT INTO child VALUES (11, 600)", None).is_ok());
    assert!(e.execute_sql("INSERT INTO child VALUES (12, 700)", None).is_err());
}

fn insert_coercion_engine() -> Db {
    Db::new()
}

fn insert_coercion_row(e: &Db, sql: &str) -> Vec<Value> {
    match e.execute_sql(sql, None).unwrap() {
        ExecutionResult::Rows { rows, .. } => rows.into_iter().next().unwrap(),
        other => panic!("{other:?}"),
    }
}

#[test]
fn string_literals_coerced_to_numeric_and_bool_columns() {
    let e = insert_coercion_engine();
    e.execute_sql("CREATE TABLE t (id INT PRIMARY KEY, n INT, f FLOAT, b BOOL)", None).unwrap();
    e.execute_sql("INSERT INTO t (id, n, f, b) VALUES (1, '42', '3.5', 'true')", None).unwrap();
    assert_eq!(
        insert_coercion_row(&e, "SELECT n, f, b FROM t WHERE id = 1"),
        vec![Value::Int64(42), Value::Float64((3.5f64).to_bits()), Value::Bool(true)]
    );
    // The coerced int participates in integer comparison and aggregation.
    assert_eq!(insert_coercion_row(&e, "SELECT id FROM t WHERE n = 42"), vec![Value::Int64(1)]);
    assert_eq!(insert_coercion_row(&e, "SELECT SUM(n) FROM t"), vec![Value::Int64(42)]);
}

fn insert_values_engine() -> Db {
    Db::new()
}

fn insert_values_one(e: &Db, sql: &str) -> Value {
    match e.execute_sql(sql, None).unwrap() {
        ExecutionResult::Rows { rows, .. } => rows[0][0].clone(),
        other => panic!("{other:?}"),
    }
}

#[test]
fn insert_negative_integer() {
    let e = insert_values_engine();
    e.execute_sql("CREATE TABLE t (id INT PRIMARY KEY, n INT)", None).unwrap();
    e.execute_sql("INSERT INTO t VALUES (1, -100)", None).unwrap();
    e.execute_sql("INSERT INTO t VALUES (2, -9223372036854775807)", None).unwrap();
    assert_eq!(insert_values_one(&e, "SELECT n FROM t WHERE id = 1"), Value::Int64(-100));
    assert_eq!(insert_values_one(&e, "SELECT n FROM t WHERE id = 2"), Value::Int64(-9223372036854775807));
}

#[test]
fn insert_arithmetic_expression() {
    let e = insert_values_engine();
    e.execute_sql("CREATE TABLE t (id INT PRIMARY KEY, n INT)", None).unwrap();
    e.execute_sql("INSERT INTO t VALUES (1, 10 * 5 + 2)", None).unwrap();
    e.execute_sql("INSERT INTO t VALUES (2, -3 - 4)", None).unwrap();
    assert_eq!(insert_values_one(&e, "SELECT n FROM t WHERE id = 1"), Value::Int64(52));
    assert_eq!(insert_values_one(&e, "SELECT n FROM t WHERE id = 2"), Value::Int64(-7));
}

#[test]
fn insert_negative_float() {
    let e = insert_values_engine();
    e.execute_sql("CREATE TABLE t (id INT PRIMARY KEY, f FLOAT)", None).unwrap();
    e.execute_sql("INSERT INTO t VALUES (1, -3.5)", None).unwrap();
    assert_eq!(insert_values_one(&e, "SELECT f FROM t WHERE id = 1"), Value::Float64((-3.5f64).to_bits()));
}

fn no_pk_tables_engine() -> Db {
    Db::new()
}

fn no_pk_tables_rows(e: &Db, sql: &str) -> Vec<Vec<Value>> {
    match e.execute_sql(sql, None).unwrap() {
        ExecutionResult::Rows { rows, .. } => rows,
        o => panic!("{o:?}"),
    }
}

fn no_pk_tables_ints(e: &Db, sql: &str, col: usize) -> Vec<i64> {
    let mut v: Vec<i64> = no_pk_tables_rows(e, sql).into_iter().filter_map(|r| r.get(col).and_then(|x| x.as_i64())).collect();
    v.sort_unstable();
    v
}

#[test]
fn no_pk_table_holds_many_rows() {
    let e = no_pk_tables_engine();
    e.execute_sql("CREATE TABLE t (a INT, b INT)", None).unwrap();
    e.execute_sql("INSERT INTO t VALUES (1, 10)", None).unwrap();
    e.execute_sql("INSERT INTO t VALUES (2, 20)", None).unwrap();
    e.execute_sql("INSERT INTO t VALUES (3, 30)", None).unwrap();
    assert_eq!(no_pk_tables_ints(&e, "SELECT a FROM t", 0), vec![1, 2, 3]);
}

#[test]
fn no_pk_duplicate_rows_allowed() {
    let e = no_pk_tables_engine();
    e.execute_sql("CREATE TABLE t (a INT)", None).unwrap();
    e.execute_sql("INSERT INTO t VALUES (5)", None).unwrap();
    e.execute_sql("INSERT INTO t VALUES (5)", None).unwrap();
    assert_eq!(no_pk_tables_rows(&e, "SELECT a FROM t").len(), 2);
}

#[test]
fn no_pk_update_and_delete() {
    let e = no_pk_tables_engine();
    e.execute_sql("CREATE TABLE t (a INT, b INT)", None).unwrap();
    e.execute_sql("INSERT INTO t VALUES (1, 10)", None).unwrap();
    e.execute_sql("INSERT INTO t VALUES (2, 20)", None).unwrap();
    e.execute_sql("INSERT INTO t VALUES (3, 30)", None).unwrap();

    e.execute_sql("UPDATE t SET b = 99 WHERE a = 2", None).unwrap();
    assert_eq!(no_pk_tables_ints(&e, "SELECT b FROM t WHERE a = 2", 0), vec![99]);
    assert_eq!(no_pk_tables_ints(&e, "SELECT b FROM t", 0), vec![10, 30, 99]);

    e.execute_sql("DELETE FROM t WHERE a = 1", None).unwrap();
    assert_eq!(no_pk_tables_ints(&e, "SELECT a FROM t", 0), vec![2, 3]);
}

fn scientific_notation_engine() -> Db {
    Db::new()
}

fn scientific_notation_one(e: &Db, sql: &str) -> Value {
    match e.execute_sql(sql, None).unwrap() {
        ExecutionResult::Rows { rows, .. } => rows[0][0].clone(),
        other => panic!("{other:?}"),
    }
}

#[test]
fn scientific_notation_float_literals() {
    let e = scientific_notation_engine();
    e.execute_sql("CREATE TABLE t (id INT PRIMARY KEY, f FLOAT)", None).unwrap();
    e.execute_sql("INSERT INTO t VALUES (1, 9.9e18)", None).unwrap();
    e.execute_sql("INSERT INTO t VALUES (2, 1.5e-2)", None).unwrap();
    e.execute_sql("INSERT INTO t VALUES (3, 2E10)", None).unwrap();
    assert_eq!(scientific_notation_one(&e, "SELECT f FROM t WHERE id = 1"), Value::Float64((9.9e18f64).to_bits()));
    assert_eq!(scientific_notation_one(&e, "SELECT f FROM t WHERE id = 2"), Value::Float64((1.5e-2f64).to_bits()));
    assert_eq!(scientific_notation_one(&e, "SELECT f FROM t WHERE id = 3"), Value::Float64((2e10f64).to_bits()));
}
