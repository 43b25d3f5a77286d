use std::cell::RefCell;
use std::rc::Rc;

use bytedb_query::error::QueryError;
use bytedb_query::error::Result;
use bytedb_query::executor::cache::StmtCache;
use bytedb_query::executor::constraints::Runner;
use bytedb_query::executor::context::{QueryContext, ResourceLimits, ResourceUsageSnapshot};
use bytedb_query::executor::engine::{ExecutionResult, QueryEngine};
use bytedb_query::executor::functions::days_to_ymd;
use bytedb_query::executor::like::{ilike_match, like_match};
use bytedb_query::executor::scalar::cast_value;
use bytedb_query::executor::stats::{ColumnStats, TableStats};
use bytedb_query::executor::unit::{Ask, FloatFn, FloatOp, Reply};
use bytedb_query::kv::kv_engine::KvEngine;
use bytedb_query::parser::ast::{IsolationLevel, Statement};
use bytedb_query::parser::floats::{debug_float, write_float};
use bytedb_query::parser::lexer::Lexer;
use bytedb_query::parser::parser::Parser;
use bytedb_query::parser::sql_text::{expr_to_sql, quote_string};
use bytedb_query::value::{DataType, Order, Value};

fn as_float(v: &Value) -> Option<f64> {
    match v {
        Value::Int64(n) => Some(*n as f64),
        Value::Float64(b) => Some(f64::from_bits(*b)),
        Value::Decimal(n, scale) => Some(*n as f64 / 10f64.powi(*scale as i32)),
        _ => None,
    }
}

fn parse_decimal(s: &str) -> Option<Value> {
    let t = s.trim();
    let (whole, part) = match t.find('.') {
        Some(at) => (&t[..at], &t[at + 1..]),
        None => (t, ""),
    };
    let n: i128 = format!("{whole}{part}").parse().ok()?;
    Some(Value::Decimal(n, part.len() as u8))
}

fn parse_date(s: &str) -> Option<Value> {
    let p: Vec<i64> = s.trim().split('-').filter_map(|x| x.parse().ok()).collect();
    if p.len() != 3 {
        return None;
    }
    let (y, m, d) = (if p[1] <= 2 { p[0] - 1 } else { p[0] }, p[1], p[2]);
    let era = y.div_euclid(400);
    let yoe = y - era * 400;
    let doy = (153 * (if m > 2 { m - 3 } else { m + 9 }) + 2) / 5 + d - 1;
    Some(Value::Date((era * 146097 + yoe * 365 + yoe / 4 - yoe / 100 + doy - 719468) as i32))
}

fn parse_value(t: DataType, s: &str) -> Option<Value> {
    match t {
        DataType::Int64 => s.trim().parse().ok().map(Value::Int64),
        DataType::Float64 => s.trim().parse::<f64>().ok().map(|f| Value::Float64(f.to_bits())),
        DataType::Bool => s.trim().to_lowercase().parse().ok().map(Value::Bool),
        DataType::Decimal => parse_decimal(s),
        DataType::Date => parse_date(s),
        DataType::Uuid => u128::from_str_radix(&s.replace('-', ""), 16).ok().map(Value::Uuid),
        DataType::Json => Some(Value::Json(s.to_string())),
        _ => None,
    }
}

fn show_value(v: &Value) -> String {
    match v {
        Value::Null => "NULL".to_string(),
        Value::Bool(b) => b.to_string(),
        Value::Int64(n) | Value::Timestamp(n) | Value::Interval(n) => n.to_string(),
        Value::Float64(b) => f64::from_bits(*b).to_string(),
        Value::Text(s) | Value::Json(s) => s.clone(),
        other => format!("{other:?}"),
    }
}

fn order_values(a: &Value, b: &Value) -> Option<Order> {
    match as_float(a)?.partial_cmp(&as_float(b)?)? {
        std::cmp::Ordering::Less => Some(Order::Less),
        std::cmp::Ordering::Equal => Some(Order::Equal),
        std::cmp::Ordering::Greater => Some(Order::Greater),
    }
}

/// The numeric unit, on the machine's floats.
fn unit(q: Ask) -> Reply {
    match q {
        Ask::Arith(op, a, b) => {
            let (x, y) = (f64::from_bits(a), f64::from_bits(b));
            let z = match op {
                FloatOp::Plus => x + y,
                FloatOp::Minus => x - y,
                FloatOp::Times => x * y,
                FloatOp::Over => x / y,
                FloatOp::Rem => x % y,
                FloatOp::Power => x.powf(y),
            };
            Reply::Bits(z.to_bits())
        }
        Ask::Unary(op, a) => {
            let x = f64::from_bits(a);
            let z = match op {
                FloatFn::Ceil => x.ceil(),
                FloatFn::Floor => x.floor(),
                FloatFn::Round => x.round(),
                FloatFn::Sqrt => x.sqrt(),
            };
            Reply::Bits(z.to_bits())
        }
        Ask::FromInt(n) => Reply::Bits((n as f64).to_bits()),
        Ask::ToInt(b) => Reply::Int(f64::from_bits(b) as i64),
        Ask::ParseFloat(s) => Reply::MaybeBits(s.trim().parse::<f64>().ok().map(f64::to_bits)),
        Ask::ShowFloat(b) => Reply::Text(f64::from_bits(b).to_string()),
        Ask::Parse(t, s) => Reply::MaybeValue(parse_value(t, &s)),
        Ask::Show(v) => Reply::Text(show_value(&v)),
        Ask::Compare(a, b) => Reply::MaybeOrder(order_values(&a, &b)),
        Ask::Analyze(_, columns, rows) => {
            let found = columns.iter().map(|c| column(c, rows.len() as u64, 5)).collect();
            Reply::Stats(found, 77)
        }
        _ => Reply::Verdict(None),
    }
}

const NOW: i64 = 1_700_000_000_000_000;

/// An engine with the numeric unit above.
#[derive(Clone)]
struct Db(Rc<RefCell<QueryEngine>>);

impl Db {
    fn new() -> Db {
        Db(Rc::new(RefCell::new(QueryEngine::new("test"))))
    }
    fn execute_sql(&self, sql: &str, txn: Option<u64>) -> Result<ExecutionResult> {
        let rn = Runner { u: &unit, now: NOW, depth: 32 };
        self.0.borrow_mut().execute_sql(&rn, sql, txn)
    }
    fn begin(&self, level: IsolationLevel) -> u64 {
        self.0.borrow_mut().begin(level).unwrap()
    }
}

fn rows(db: &Db, sql: &str, txn: Option<u64>) -> Vec<Vec<Value>> {
    match db.execute_sql(sql, txn) {
        Ok(ExecutionResult::Rows { rows, .. }) => rows,
        other => panic!("{sql}: {other:?}"),
    }
}

fn texts(db: &Db, sql: &str) -> Vec<String> {
    rows(db, sql, None).iter().map(|r| show_value(&r[0])).collect()
}

fn ints(db: &Db, sql: &str, txn: Option<u64>) -> Vec<i64> {
    rows(db, sql, txn)
        .iter()
        .map(|r| match &r[0] {
            Value::Int64(n) => *n,
            other => panic!("{other:?}"),
        })
        .collect()
}

fn run(db: &Db, sql: &str) {
    if let Err(e) = db.execute_sql(sql, None) {
        panic!("{sql}: {e:?}");
    }
}

/// Runs a statement in a transaction of its own.
fn settled(db: &Db, sql: &str) {
    let t = db.begin(IsolationLevel::ReadCommitted);
    for s in [sql, "COMMIT"] {
        if let Err(e) = db.execute_sql(s, Some(t)) {
            panic!("{s}: {e:?}");
        }
    }
}

fn refused(db: &Db, sql: &str) -> QueryError {
    match db.execute_sql(sql, None) {
        Err(e) => e,
        Ok(r) => panic!("{sql}: {r:?}"),
    }
}

fn said(db: &Db, sql: &str) -> String {
    match db.execute_sql(sql, None) {
        Ok(ExecutionResult::Done(s)) => s,
        other => panic!("{sql}: {other:?}"),
    }
}

fn accounts() -> Db {
    let db = Db::new();
    run(&db, "CREATE TABLE acct (id INT PRIMARY KEY, bal INT)");
    run(&db, "INSERT INTO acct VALUES (1, 10), (2, 20), (3, 30)");
    db
}

// ---- transactions

#[test]
fn rollback_gives_back_all_rows() {
    let db = accounts();
    let t = db.begin(IsolationLevel::ReadCommitted);
    db.execute_sql("INSERT INTO acct VALUES (4, 40)", Some(t)).unwrap();
    db.execute_sql("UPDATE acct SET bal = bal + 1", Some(t)).unwrap();
    db.execute_sql("DELETE FROM acct WHERE id = 2", Some(t)).unwrap();
    assert!(db.execute_sql("INSERT INTO acct VALUES (1, 0)", Some(t)).is_err());
    db.execute_sql("ROLLBACK", Some(t)).unwrap();
    assert_eq!(ints(&db, "SELECT bal FROM acct ORDER BY id", None), vec![10, 20, 30]);
}

#[test]
fn update_in_a_transaction_goes_through_what_it_sees() {
    let db = accounts();
    let t = db.begin(IsolationLevel::RepeatableRead);
    settled(&db, "INSERT INTO acct VALUES (4, 40)");
    match db.execute_sql("UPDATE acct SET bal = 0", Some(t)).unwrap() {
        ExecutionResult::Modified { count } => assert_eq!(count, 3),
        other => panic!("{other:?}"),
    }
    assert_eq!(ints(&db, "SELECT bal FROM acct ORDER BY id", Some(t)), vec![0, 0, 0]);
    db.execute_sql("COMMIT", Some(t)).unwrap();
    assert_eq!(ints(&db, "SELECT bal FROM acct ORDER BY id", None), vec![0, 0, 0, 40]);
}

#[test]
fn delete_in_a_transaction_leaves_unseen_rows() {
    let db = accounts();
    let t = db.begin(IsolationLevel::Serializable);
    let o = db.begin(IsolationLevel::ReadCommitted);
    db.execute_sql("INSERT INTO acct VALUES (9, 90)", Some(o)).unwrap();
    db.execute_sql("DELETE FROM acct", Some(t)).unwrap();
    db.execute_sql("COMMIT", Some(o)).unwrap();
    db.execute_sql("COMMIT", Some(t)).unwrap();
    assert_eq!(ints(&db, "SELECT id FROM acct", None), vec![9]);
}

#[test]
fn read_committed_sees_later_commits() {
    let db = accounts();
    let a = db.begin(IsolationLevel::ReadCommitted);
    let b = db.begin(IsolationLevel::RepeatableRead);
    settled(&db, "UPDATE acct SET bal = 11 WHERE id = 1");
    assert_eq!(ints(&db, "SELECT bal FROM acct WHERE id = 1", Some(a)), vec![11]);
    assert_eq!(ints(&db, "SELECT bal FROM acct WHERE id = 1", Some(b)), vec![10]);
}

#[test]
fn changes_outside_transactions_are_seen_at_once() {
    let db = accounts();
    let t = db.begin(IsolationLevel::RepeatableRead);
    assert_eq!(ints(&db, "SELECT bal FROM acct WHERE id = 1", Some(t)), vec![10]);
    run(&db, "UPDATE acct SET bal = 11 WHERE id = 1");
    run(&db, "INSERT INTO acct VALUES (4, 40)");
    run(&db, "DELETE FROM acct WHERE id = 2");
    assert_eq!(ints(&db, "SELECT bal FROM acct ORDER BY id", Some(t)), vec![11, 30, 40]);
}

#[test]
fn ended_transaction_reads_but_does_not_write() {
    let db = accounts();
    let t = db.begin(IsolationLevel::ReadCommitted);
    db.execute_sql("COMMIT", Some(t)).unwrap();
    assert_eq!(ints(&db, "SELECT id FROM acct", Some(t)), vec![1, 2, 3]);
    assert_eq!(ints(&db, "SELECT COUNT(*) FROM acct", Some(999)), vec![3]);
    for sql in [
        "SELECT bal FROM acct WHERE id = 2",
        "UPDATE acct SET bal = 0",
        "DELETE FROM acct",
        "INSERT INTO acct VALUES (4, 40)",
    ] {
        assert!(matches!(db.execute_sql(sql, Some(t)), Err(QueryError::Execution(_))), "{sql}");
    }
    assert_eq!(ints(&db, "SELECT bal FROM acct", None), vec![10, 20, 30]);
}

#[test]
fn lasting_changes_wait_for_commit() {
    let db = accounts();
    db.0.borrow_mut().keep_deltas(true);
    let t = db.begin(IsolationLevel::ReadCommitted);
    db.execute_sql("UPDATE acct SET bal = 99 WHERE id = 3", Some(t)).unwrap();
    assert_eq!(db.0.borrow_mut().take_deltas().len(), 0);
    db.execute_sql("COMMIT", Some(t)).unwrap();
    let d = db.0.borrow_mut().take_deltas();
    assert_eq!(d.len(), 1);
    assert_eq!(d[0].table, "acct");
    assert_eq!(d[0].key, vec![Value::Int64(3)]);
    assert_eq!(d[0].after, Some(vec![Value::Int64(3), Value::Int64(99)]));
    assert_eq!(db.0.borrow_mut().take_deltas().len(), 0);
}

#[test]
fn lasting_changes_bring_the_rows_about_again() {
    let db = Db::new();
    run(&db, "CREATE TABLE t (id INT PRIMARY KEY, v INT)");
    db.0.borrow_mut().keep_deltas(true);
    for sql in [
        "INSERT INTO t VALUES (1, 1)",
        "UPDATE t SET v = 2 WHERE id = 1",
        "INSERT INTO t VALUES (2, 20), (3, 30)",
        "DELETE FROM t WHERE id = 2",
        "INSERT INTO t VALUES (2, 99)",
    ] {
        run(&db, sql);
    }
    let t = db.begin(IsolationLevel::ReadCommitted);
    db.execute_sql("UPDATE t SET v = 31 WHERE id = 3", Some(t)).unwrap();
    db.execute_sql("COMMIT", Some(t)).unwrap();
    let t = db.begin(IsolationLevel::ReadCommitted);
    db.execute_sql("DELETE FROM t", Some(t)).unwrap();
    db.execute_sql("ROLLBACK", Some(t)).unwrap();
    let again = Db::new();
    run(&again, "CREATE TABLE t (id INT PRIMARY KEY, v INT)");
    for c in db.0.borrow_mut().take_deltas() {
        match c.after {
            Some(row) => {
                again.0.borrow_mut().bulk_insert(&c.table, vec![row]).unwrap();
            }
            None => run(&again, &format!("DELETE FROM t WHERE id = {}", show_value(&c.key[0]))),
        }
    }
    assert_eq!(ints(&again, "SELECT id FROM t", None), vec![1, 2, 3]);
    assert_eq!(ints(&again, "SELECT v FROM t", None), vec![2, 99, 31]);
}

#[test]
fn refused_commit_is_taken_back() {
    let db = accounts();
    let t = db.begin(IsolationLevel::Serializable);
    db.execute_sql("UPDATE acct SET bal = 0", Some(t)).unwrap();
    let why = || Some("no".to_string());
    assert_eq!(db.0.borrow_mut().commit_decided(t, why()).err(), Some(QueryError::Execution("no".to_string())));
    assert_eq!(ints(&db, "SELECT bal FROM acct", None), vec![10, 20, 30]);
    assert!(matches!(db.0.borrow_mut().commit_decided(t, None), Err(QueryError::Execution(_))));
    let t = db.begin(IsolationLevel::Serializable);
    db.execute_sql("UPDATE acct SET bal = 0", Some(t)).unwrap();
    assert!(db.0.borrow_mut().commit_decided(t, None).is_ok());
    assert_eq!(ints(&db, "SELECT bal FROM acct", None), vec![0, 0, 0]);
}

// ---- what the tables keep

#[test]
fn refused_writes_name_their_reason() {
    let db = Db::new();
    run(&db, "CREATE TABLE p (id INT PRIMARY KEY)");
    run(&db, "CREATE TABLE c (id INT PRIMARY KEY, mail TEXT UNIQUE, n INT NOT NULL CHECK (n > 0), p INT REFERENCES p(id))");
    run(&db, "INSERT INTO p VALUES (1)");
    run(&db, "INSERT INTO c VALUES (1, 'a', 1, 1)");
    for (sql, word) in [
        ("INSERT INTO c VALUES (1, 'b', 1, 1)", "primary key"),
        ("INSERT INTO c VALUES (2, 'a', 1, 1)", "unique"),
        ("INSERT INTO c VALUES (2, 'b', NULL, 1)", "null"),
        ("INSERT INTO c VALUES (2, 'b', 0, 1)", "check"),
        ("INSERT INTO c VALUES (2, 'b', 1, 7)", "foreign key"),
        ("UPDATE c SET n = NULL", "null"),
        ("UPDATE c SET p = 7", "foreign key"),
        ("DELETE FROM p", "references"),
    ] {
        let e = refused(&db, sql).message().to_lowercase();
        assert!(e.contains(word), "{sql}: {e}");
    }
    assert_eq!(ints(&db, "SELECT COUNT(*) FROM c", None), vec![1]);
    run(&db, "INSERT INTO c VALUES (2, 'b', 1, NULL)");
    assert!(matches!(refused(&db, "UPDATE c SET mail = 'a' WHERE id = 2"), QueryError::Execution(_)));
}

#[test]
fn rows_without_a_primary_key_stay_in_the_order_they_came() {
    let db = Db::new();
    run(&db, "CREATE TABLE t (a INT)");
    run(&db, "INSERT INTO t VALUES (5), (5), (1)");
    assert_eq!(ints(&db, "SELECT a FROM t", None), vec![5, 5, 1]);
}

#[test]
fn bulk_rows_replace_those_under_their_keys() {
    let db = accounts();
    let n = db
        .0
        .borrow_mut()
        .bulk_insert("acct", vec![vec![Value::Int64(3), Value::Int64(33)], vec![Value::Int64(0), Value::Int64(7)]])
        .unwrap();
    assert_eq!(n, 2);
    assert_eq!(ints(&db, "SELECT bal FROM acct", None), vec![7, 10, 20, 33]);
    assert!(db.0.borrow_mut().bulk_insert("none", vec![]).is_err());
}

#[test]
fn truncate_empties_one_table() {
    let db = accounts();
    run(&db, "CREATE TABLE other (id INT PRIMARY KEY)");
    run(&db, "INSERT INTO other VALUES (1)");
    assert_eq!(said(&db, "TRUNCATE TABLE acct"), "TRUNCATE TABLE");
    assert_eq!(ints(&db, "SELECT COUNT(*) FROM acct", None), vec![0]);
    assert_eq!(ints(&db, "SELECT COUNT(*) FROM other", None), vec![1]);
    assert!(matches!(refused(&db, "TRUNCATE TABLE nowhere"), QueryError::Execution(_)));
}

// ---- listings

#[test]
fn names_are_listed_in_order() {
    let db = Db::new();
    for n in ["zeta", "alpha", "mid"] {
        run(&db, &format!("CREATE TABLE {n} (id INT PRIMARY KEY)"));
        run(&db, &format!("CREATE DATABASE {n}"));
    }
    assert_eq!(texts(&db, "SHOW TABLES").len(), 3);
    assert_eq!(texts(&db, "SHOW DATABASES"), vec!["alpha", "mid", "test", "zeta"]);
}

#[test]
fn databases_keep_their_own_tables() {
    let db = accounts();
    run(&db, "CREATE DATABASE side");
    run(&db, "USE side");
    assert!(texts(&db, "SHOW TABLES").is_empty());
    run(&db, "CREATE TABLE acct (id INT PRIMARY KEY)");
    assert_eq!(ints(&db, "SELECT COUNT(*) FROM acct", None), vec![0]);
    run(&db, "USE test");
    assert_eq!(ints(&db, "SELECT COUNT(*) FROM acct", None), vec![3]);
    assert!(db.execute_sql("USE nowhere", None).is_err());
    assert!(db.execute_sql("CREATE DATABASE side", None).is_err());
    run(&db, "CREATE DATABASE IF NOT EXISTS side");
}

#[test]
fn create_text_names_each_column() {
    let db = Db::new();
    run(&db, "CREATE TABLE t (id INT PRIMARY KEY, name TEXT NOT NULL)");
    let text = show_value(rows(&db, "SHOW CREATE TABLE t", None)[0].last().unwrap());
    assert_eq!(text, "CREATE TABLE t (\n  id Int64 PRIMARY KEY NOT NULL,\n  name Text NOT NULL\n)");
    assert_eq!(texts(&db, "SHOW COLUMNS FROM t"), vec!["id", "name"]);
    assert!(db.execute_sql("SHOW COLUMNS FROM nowhere", None).is_err());
}

// ---- the statement cache and the log of slow queries

#[test]
fn cached_statement_is_the_parsed_one() {
    let mut c = StmtCache::new();
    for i in 0..600 {
        let sql = format!("SELECT {i} FROM t");
        let direct = Parser::new(&sql).unwrap().parse().unwrap();
        assert_eq!(format!("{:?}", c.parse(&sql).unwrap()), format!("{direct:?}"));
        assert_eq!(format!("{:?}", c.parse(&sql).unwrap()), format!("{direct:?}"));
    }
    assert!(matches!(c.parse("SELEC 1"), Err(QueryError::Parse(_))));
}

#[test]
fn slow_log_keeps_the_latest() {
    let db = Db::new();
    let mut e = db.0.borrow_mut();
    e.note_query("before", 9_000, None, 1);
    assert!(e.slow_query_log().is_empty());
    e.set_slow_query_threshold_ms(Some(5));
    e.note_query("fast", 4_999, None, 2);
    for i in 0..300u64 {
        e.note_query(&format!("q{i}"), 5_000 + i, Some(i), i);
    }
    assert_eq!(e.slow_query_log().len(), 256);
    assert_eq!(e.slow_query_log()[0].sql, "q44");
    assert_eq!(e.slow_query_log()[255].duration_micros, 5_299);
    e.clear_slow_query_log();
    assert!(e.slow_query_log().is_empty());
}

// ---- keys and texts

#[test]
fn key_is_read_back_and_gone_after_delete() {
    let mut kv = KvEngine::new();
    for (k, v) in [("b", "2"), ("d", "4"), ("a", "1"), ("b", "3")] {
        kv.set(k, v).unwrap();
    }
    assert_eq!(kv.get("b").unwrap(), Some("3".to_string()));
    assert_eq!(kv.get("a").unwrap(), Some("1".to_string()));
    assert_eq!(
        kv.scan("b", "d").unwrap(),
        vec![("b".to_string(), "3".to_string()), ("d".to_string(), "4".to_string())]
    );
    assert!(kv.scan("e", "b").unwrap().is_empty());
    assert!(!kv.delete("c").unwrap());
    assert!(kv.delete("b").unwrap());
    assert_eq!(kv.get("b").unwrap(), None);
    assert_eq!(kv.get("d").unwrap(), Some("4".to_string()));
}

#[test]
fn like_stands_for_texts() {
    assert!(like_match("banana", "b%n_"));
    assert!(!like_match("banana", "b%n"));
    assert!(like_match("", "%"));
    assert!(!like_match("a", ""));
    assert!(!like_match("Banana", "b%"));
    assert!(ilike_match("BANANA", "b%A"));
}

#[test]
fn string_literals() {
    let db = Db::new();
    assert_eq!(texts(&db, "SELECT \"it's\""), vec!["it's"]);
    assert_eq!(texts(&db, "SELECT 'a\\nb\\\\c'"), vec!["a\nb\\c"]);
    assert_eq!(texts(&db, "SELECT 'a\\qb'"), vec!["a\\qb"]);
    assert!(matches!(refused(&db, "SELECT 'open"), QueryError::Parse(_)));
}

#[test]
fn expression_text() {
    let sql = "SELECT a FROM t WHERE a + 1 * b >= 2 AND NOT (c LIKE 'x%' OR d IS NULL)";
    let w = match Parser::new(sql).unwrap().parse().unwrap() {
        Statement::Select(q) => q.where_clause.unwrap(),
        other => panic!("{other:?}"),
    };
    let text = expr_to_sql(&w);
    assert_eq!(text, "(((a + (1 * b)) >= 2) AND (NOT ((c LIKE 'x%') OR (d IS NULL))))");
    let again = match Parser::new(&format!("SELECT a FROM t WHERE {text}")).unwrap().parse().unwrap() {
        Statement::Select(q) => q.where_clause.unwrap(),
        other => panic!("{other:?}"),
    };
    assert_eq!(expr_to_sql(&again), text);
    assert_eq!(quote_string("it's"), "'it''s'");
}

// ---- relations

#[test]
fn distinct_limit_and_offset() {
    let db = Db::new();
    run(&db, "CREATE TABLE t (a INT)");
    run(&db, "INSERT INTO t VALUES (2), (1), (2), (3), (1)");
    assert_eq!(ints(&db, "SELECT DISTINCT a FROM t", None), vec![2, 1, 3]);
    assert_eq!(ints(&db, "SELECT a FROM t ORDER BY a LIMIT 2 OFFSET 1", None), vec![1, 2]);
    assert_eq!(ints(&db, "SELECT a FROM t LIMIT 2 OFFSET 9", None), Vec::<i64>::new());
    assert_eq!(ints(&db, "SELECT a FROM t ORDER BY a DESC", None), vec![3, 2, 2, 1, 1]);
}

#[test]
fn order_of_rows() {
    let db = Db::new();
    run(&db, "CREATE TABLE t (id INT PRIMARY KEY, n INT, s TEXT)");
    run(&db, "INSERT INTO t VALUES (1, 5, 'b'), (2, NULL, NULL), (3, 4, 'a'), (4, 5, 'a')");
    assert_eq!(ints(&db, "SELECT id FROM t ORDER BY n", None), vec![2, 3, 1, 4]);
    assert_eq!(ints(&db, "SELECT id FROM t ORDER BY n DESC", None), vec![1, 4, 3, 2]);
    assert_eq!(ints(&db, "SELECT id FROM t ORDER BY n NULLS LAST", None), vec![3, 1, 4, 2]);
    assert_eq!(ints(&db, "SELECT id FROM t ORDER BY s", None), vec![3, 4, 1, 2]);
    assert_eq!(ints(&db, "SELECT id FROM t ORDER BY s DESC", None), vec![2, 1, 3, 4]);
    assert_eq!(ints(&db, "SELECT id FROM t ORDER BY n DESC, s", None), vec![2, 4, 1, 3]);
}

#[test]
fn first_rows_in_order() {
    let db = Db::new();
    run(&db, "CREATE TABLE t (id INT PRIMARY KEY, n INT)");
    run(&db, "INSERT INTO t VALUES (1, 5), (2, 9), (3, 4), (4, 7)");
    assert_eq!(ints(&db, "SELECT id FROM t ORDER BY n LIMIT 2", None), vec![3, 1]);
    assert_eq!(ints(&db, "SELECT id FROM t WHERE n > 4 ORDER BY n DESC LIMIT 2", None), vec![2, 4]);
    assert_eq!(ints(&db, "SELECT id FROM t ORDER BY n LIMIT 0", None), Vec::<i64>::new());
    assert_eq!(ints(&db, "SELECT id FROM t ORDER BY n DESC LIMIT 2 OFFSET 1", None), vec![4, 1]);
    assert_eq!(ints(&db, "SELECT id FROM t ORDER BY n LIMIT 9", None), vec![3, 1, 4, 2]);
}

#[test]
fn index_reads_fewer_rows_and_finds_the_same() {
    let db = accounts();
    for sql in ["SELECT id FROM acct WHERE bal = 20", "SELECT id FROM acct WHERE 20 < bal", "SELECT id FROM acct WHERE bal <= 20 AND id > 1"] {
        let before = ints(&db, sql, None);
        run(&db, "CREATE INDEX by_bal ON acct (bal)");
        assert_eq!(ints(&db, sql, None), before);
        run(&db, "DROP INDEX by_bal");
    }
    db.0.borrow_mut().set_resource_limits(2, 0);
    assert!(matches!(refused(&db, "SELECT id FROM acct WHERE bal = 20"), QueryError::ResourceLimit(_)));
    run(&db, "CREATE INDEX by_bal ON acct (bal)");
    assert_eq!(ints(&db, "SELECT id FROM acct WHERE bal = 20", None), vec![2]);
    assert_eq!(ints(&db, "SELECT id FROM acct WHERE bal < 20", None), vec![1]);
    assert!(matches!(refused(&db, "SELECT id FROM acct WHERE bal < 30"), QueryError::ResourceLimit(_)));
}

#[test]
fn set_operations_split_the_rows() {
    let db = Db::new();
    run(&db, "CREATE TABLE l (a INT)");
    run(&db, "CREATE TABLE r (a INT)");
    run(&db, "INSERT INTO l VALUES (1), (2), (3)");
    run(&db, "INSERT INTO r VALUES (2), (4)");
    assert_eq!(ints(&db, "SELECT a FROM l INTERSECT SELECT a FROM r", None), vec![2]);
    assert_eq!(ints(&db, "SELECT a FROM l EXCEPT SELECT a FROM r", None), vec![1, 3]);
    assert_eq!(ints(&db, "SELECT a FROM l UNION ALL SELECT a FROM r", None), vec![1, 2, 3, 2, 4]);
    assert_eq!(ints(&db, "SELECT a FROM l UNION SELECT a FROM r", None), vec![1, 2, 3, 4]);
}

#[test]
fn joins_and_null_keys() {
    let db = Db::new();
    run(&db, "CREATE TABLE l (id INT PRIMARY KEY, k INT)");
    run(&db, "CREATE TABLE r (id INT PRIMARY KEY, k INT)");
    run(&db, "INSERT INTO l VALUES (1, 7), (2, NULL), (3, 8)");
    run(&db, "INSERT INTO r VALUES (10, 7), (20, NULL), (30, 7)");
    assert_eq!(ints(&db, "SELECT r.id FROM l JOIN r ON l.k = r.k ORDER BY r.id", None), vec![10, 30]);
    assert_eq!(ints(&db, "SELECT l.id FROM l LEFT JOIN r ON l.k = r.k ORDER BY l.id", None), vec![1, 1, 2, 3]);
}

#[test]
fn groups_cover_the_rows() {
    let db = Db::new();
    run(&db, "CREATE TABLE t (g TEXT, n INT)");
    run(&db, "INSERT INTO t VALUES ('a', 1), ('b', 2), ('a', NULL), (NULL, 4)");
    let mut sizes = ints(&db, "SELECT COUNT(*) FROM t GROUP BY g", None);
    sizes.sort();
    assert_eq!(sizes, vec![1, 1, 2]);
    assert_eq!(ints(&db, "SELECT COUNT(n) FROM t", None), vec![3]);
    assert_eq!(ints(&db, "SELECT COUNT(*) FROM t WHERE n > 100", None), vec![0]);
}

// ---- errors

#[test]
fn each_kind_of_error() {
    let db = accounts();
    assert!(matches!(refused(&db, "SELECT FROM"), QueryError::Parse(_)));
    assert!(matches!(refused(&db, "INSERT INTO nowhere VALUES (1)"), QueryError::Execution(_)));
    assert!(matches!(refused(&db, "BACKUP TO 'x'"), QueryError::Execution(_)));
    assert!(matches!(refused(&db, "KV GET 'a'"), QueryError::Execution(_)));
    db.0.borrow_mut().set_resource_limits(2, 0);
    assert!(matches!(refused(&db, "SELECT id FROM acct"), QueryError::ResourceLimit(_)));
    db.0.borrow_mut().set_resource_limits(0, 0);
    let rn = Runner { u: &unit, now: NOW, depth: 32 };
    let mut ctx = QueryContext::new();
    ctx.cancel();
    assert_eq!(
        db.0.borrow_mut().execute_sql_with_ctx(&rn, "SELECT id FROM acct", None, &mut ctx, 0).err(),
        Some(QueryError::Cancelled)
    );
}

#[test]
fn commit_and_rollback_need_a_transaction() {
    let db = accounts();
    let none = QueryError::Execution("No active transaction".to_string());
    assert_eq!(refused(&db, "COMMIT"), none);
    assert_eq!(refused(&db, "ROLLBACK"), none);
}

// ---- limits

fn under(db: &Db, sql: &str, limits: ResourceLimits) -> (Option<QueryError>, ResourceUsageSnapshot) {
    let rn = Runner { u: &unit, now: NOW, depth: 32 };
    let mut ctx = QueryContext::with_limits(limits);
    let r = db.0.borrow_mut().execute_sql_with_ctx(&rn, sql, None, &mut ctx, 0);
    (r.err(), ctx.usage())
}

fn limit(s: &str) -> Option<QueryError> {
    Some(QueryError::ResourceLimit(s.to_string()))
}

#[test]
fn counting_stops_behind_the_limit() {
    let db = accounts();
    let (e, u) = under(&db, "SELECT * FROM acct", ResourceLimits::unlimited().with_scan_rows(1));
    assert_eq!(e, limit("max_scan_rows exceeded: 2 > 1"));
    assert_eq!(u.scan_rows, 2);
    let (e, u) = under(&db, "SELECT * FROM acct", ResourceLimits::unlimited());
    assert_eq!(e, None);
    assert_eq!(u.scan_rows, 3);
    let (e, u) = under(&db, "SELECT * FROM acct LIMIT 2", ResourceLimits::unlimited());
    assert_eq!(e, None);
    assert_eq!(u.scan_rows, 2);
}

#[test]
fn engine_limits_name_themselves() {
    let db = accounts();
    db.0.borrow_mut().set_resource_limits(2, 0);
    assert_eq!(Some(refused(&db, "SELECT * FROM acct")), limit("max_scan_rows exceeded: 3 > 2"));
    db.0.borrow_mut().set_resource_limits(0, 20);
    assert_eq!(rows(&db, "SELECT * FROM acct", None).len(), 3);
    assert_eq!(Some(refused(&db, "SELECT COUNT(*) FROM acct")), limit("max_memory_bytes exceeded: 24 > 20"));
}

#[test]
fn nested_queries_are_charged() {
    let db = accounts();
    run(&db, "CREATE TABLE copy (id INT PRIMARY KEY, bal INT)");
    let none = ResourceLimits::unlimited();
    assert_eq!(under(&db, "INSERT INTO copy SELECT * FROM acct", none).1.scan_rows, 3);
    assert_eq!(ints(&db, "SELECT COUNT(*) FROM copy", None), vec![3]);
    let (e, u) = under(&db, "INSERT INTO copy SELECT id + 10, bal FROM acct", none.with_scan_rows(2));
    assert_eq!(e, limit("max_scan_rows exceeded: 3 > 2"));
    assert_eq!(u.scan_rows, 3);
    assert_eq!(ints(&db, "SELECT COUNT(*) FROM copy", None), vec![3]);
    assert_eq!(under(&db, "WITH c AS (SELECT id FROM acct WHERE bal > 10) SELECT * FROM c", none).1.scan_rows, 5);
    assert_eq!(under(&db, "SELECT * FROM (SELECT id FROM acct) AS s WHERE id > 1", none).1.scan_rows, 6);
    assert_eq!(under(&db, "SELECT id FROM acct UNION SELECT id FROM copy", none).1.scan_rows, 6);
    assert_eq!(under(&db, "EXPLAIN ANALYZE SELECT id FROM acct", none).1.scan_rows, 3);
    assert_eq!(under(&db, "EXPLAIN SELECT id FROM acct", none).1.scan_rows, 0);
    assert_eq!(under(&db, "SELECT * FROM nowhere", none).1.scan_rows, 0);
    assert_eq!(under(&db, "SELECT * FROM acct WHERE id = 2", none).1.scan_rows, 0);
}

#[test]
fn joins_and_groups_take_memory() {
    let db = accounts();
    run(&db, "CREATE TABLE big (id INT PRIMARY KEY, ref INT, name TEXT)");
    run(&db, "INSERT INTO big VALUES (1, 1, 'a'), (2, 1, 'b'), (3, 2, 'b'), (4, 9, 'c')");
    let none = ResourceLimits::unlimited();
    let join = "SELECT big.id FROM acct JOIN big ON acct.id = big.ref";
    assert_eq!(under(&db, join, none).1, ResourceUsageSnapshot { memory_bytes: 72, temp_spill_bytes: 0, scan_rows: 7 });
    let left = "SELECT big.id FROM acct LEFT JOIN big ON acct.id = big.ref";
    assert_eq!(under(&db, left, none).1.memory_bytes, 96);
    let (e, u) = under(&db, left, none.with_memory(95));
    assert_eq!(e, limit("max_memory_bytes exceeded: 96 > 95"));
    assert_eq!(u.memory_bytes, 96);
    run(&db, "CREATE TABLE kind (name TEXT, label TEXT)");
    run(&db, "INSERT INTO kind VALUES ('a', 'x'), ('bc', 'y')");
    let texts = "SELECT big.id FROM big JOIN kind ON big.name = kind.name";
    assert_eq!(under(&db, texts, none).1.memory_bytes, (2 + 24) + (3 + 24));
    let groups = "SELECT name, COUNT(*) FROM big WHERE id > 0 GROUP BY name";
    assert_eq!(under(&db, groups, none).1, ResourceUsageSnapshot { memory_bytes: 3 * (4 + 2 + 24), temp_spill_bytes: 0, scan_rows: 4 });
    let (e, u) = under(&db, groups, none.with_memory(59));
    assert_eq!(e, limit("max_memory_bytes exceeded: 60 > 59"));
    assert_eq!(u.memory_bytes, 60);
    assert_eq!(under(&db, "SELECT COUNT(*) FROM big", none).1.memory_bytes, 24);
}

#[test]
fn a_key_is_charged_only_in_a_transaction() {
    let db = accounts();
    let rn = Runner { u: &unit, now: NOW, depth: 32 };
    let id = db.begin(IsolationLevel::ReadCommitted);
    let mut ctx = QueryContext::new();
    let sql = "SELECT bal FROM acct WHERE id = 2";
    assert!(db.0.borrow_mut().execute_sql_with_ctx(&rn, sql, Some(id), &mut ctx, 0).is_ok());
    assert_eq!(ctx.usage().scan_rows, 1);
}

#[test]
fn what_is_done_in_one_go_is_not_charged() {
    let db = accounts();
    run(&db, "INSERT INTO acct VALUES (4, 20)");
    let none = ResourceLimits::unlimited();
    let free = ResourceUsageSnapshot { memory_bytes: 0, temp_spill_bytes: 0, scan_rows: 0 };
    assert_eq!(under(&db, "SELECT bal, COUNT(*) FROM acct GROUP BY bal", none).1, free);
    assert_eq!(under(&db, "SELECT bal, COUNT(DISTINCT id) FROM acct GROUP BY bal", none).1.scan_rows, 4);
    assert_eq!(under(&db, "SELECT bal, COUNT(*) FROM acct GROUP BY bal HAVING COUNT(*) > 1", none).1.scan_rows, 4);
    assert_eq!(under(&db, "SELECT id FROM acct ORDER BY bal LIMIT 2", none).1, free);
    assert_eq!(under(&db, "SELECT id FROM acct ORDER BY bal LIMIT 2 OFFSET 1", none).1.scan_rows, 4);
    assert_eq!(under(&db, "SELECT id FROM acct ORDER BY bal", none).1.scan_rows, 4);
    run(&db, "INSERT INTO acct VALUES (5, NULL)");
    assert_eq!(under(&db, "SELECT id FROM acct ORDER BY bal LIMIT 2", none).1.scan_rows, 5);
    assert_eq!(under(&db, "SELECT id FROM acct WHERE id < 5 ORDER BY bal LIMIT 2", none).1, free);
}

#[test]
fn a_range_of_keys_is_charged_in_a_transaction() {
    let db = accounts();
    let rn = Runner { u: &unit, now: NOW, depth: 32 };
    let id = db.begin(IsolationLevel::ReadCommitted);
    let mut ctx = QueryContext::new();
    let sql = "SELECT bal FROM acct WHERE id > 1 AND id <= 3";
    assert_eq!(ints(&db, sql, Some(id)), vec![20, 30]);
    assert!(db.0.borrow_mut().execute_sql_with_ctx(&rn, sql, Some(id), &mut ctx, 0).is_ok());
    assert_eq!(ctx.usage().scan_rows, 3);
    assert_eq!(under(&db, sql, ResourceLimits::unlimited()).1.scan_rows, 3);
    run(&db, "INSERT INTO acct VALUES (4, 40)");
    let mut ctx = QueryContext::new();
    assert!(db.0.borrow_mut().execute_sql_with_ctx(&rn, "SELECT bal FROM acct WHERE 2 <= id AND id <= 3", Some(id), &mut ctx, 0).is_ok());
    assert_eq!(ctx.usage().scan_rows, 2);
    assert_eq!(under(&db, "SELECT bal FROM acct WHERE 2 <= id AND id <= 3", ResourceLimits::unlimited()).1.scan_rows, 4);
}

#[test]
fn many_rows_are_charged_at_once() {
    let db = Db::new();
    run(&db, "CREATE TABLE t (id INT PRIMARY KEY, v INT)");
    let many: Vec<Vec<Value>> = (0..16384).map(|i| vec![Value::Int64(i), Value::Int64(i)]).collect();
    assert_eq!(db.0.borrow_mut().bulk_insert("t", many).unwrap(), 16384);
    let (e, u) = under(&db, "SELECT id FROM t WHERE v = 5", ResourceLimits::unlimited().with_scan_rows(100));
    assert_eq!(e, limit("max_scan_rows exceeded: 16384 > 100"));
    assert_eq!(u.scan_rows, 16384);
    let (e, u) = under(&db, "SELECT id FROM t", ResourceLimits::unlimited().with_scan_rows(100));
    assert_eq!(e, limit("max_scan_rows exceeded: 101 > 100"));
    assert_eq!(u.scan_rows, 101);
}

// ---- statistics

fn column(name: &str, ndv: u64, bounds: i64) -> ColumnStats {
    ColumnStats {
        column: name.to_string(),
        null_fraction: 0.25f64.to_bits(),
        ndv,
        mcv: vec![(Value::Int64(1), 0.5f64.to_bits()), (Value::Int64(2), 0.25f64.to_bits())],
        bucket_bounds: (0..bounds).map(Value::Int64).collect(),
    }
}

fn stats(table: &str, rows: u64) -> TableStats {
    TableStats {
        table: table.to_string(),
        row_count: rows,
        columns: vec![column("id", 3, 0), column("bal", 3, 5)],
        computed_at_secs: 77,
    }
}

#[test]
fn statistics_are_shown_in_the_order_of_the_tables() {
    let db = accounts();
    let columns = match db.execute_sql("SHOW STATS", None) {
        Ok(ExecutionResult::Rows { columns, rows }) => {
            assert!(rows.is_empty());
            columns
        }
        other => panic!("{other:?}"),
    };
    assert_eq!(
        columns,
        vec!["table", "row_count", "column", "null_fraction", "ndv", "mcv_count", "histogram_buckets", "computed_at_secs"]
    );
    run(&db, "CREATE TABLE a (id INT PRIMARY KEY)");
    db.0.borrow_mut().keep_stats(stats("acct", 3));
    db.0.borrow_mut().keep_stats(stats("a", 9));
    db.0.borrow_mut().keep_stats(stats("acct", 4));
    assert_eq!(texts(&db, "SHOW STATS"), vec!["a", "a", "acct", "acct"]);
    assert_eq!(
        rows(&db, "SHOW STATS FOR acct", None)[1],
        vec![
            Value::Text("acct".to_string()),
            Value::Int64(4),
            Value::Text("bal".to_string()),
            Value::Float64(0.25f64.to_bits()),
            Value::Int64(3),
            Value::Int64(2),
            Value::Int64(4),
            Value::Int64(77),
        ]
    );
    assert_eq!(rows(&db, "SHOW STATS FOR acct", None)[0][6], Value::Int64(0));
    assert!(rows(&db, "SHOW STATS FOR nowhere", None).is_empty());
    run(&db, "DROP TABLE acct");
    assert_eq!(texts(&db, "SHOW STATS"), vec!["a", "a"]);
}

#[test]
fn statistics_are_computed_from_all_rows() {
    let db = accounts();
    let (columns, all) = db.0.borrow().collect_table_rows("acct").unwrap();
    assert_eq!(columns, vec!["id", "bal"]);
    assert_eq!(all.len(), 3);
    assert_eq!(all[1], vec![Value::Int64(2), Value::Int64(20)]);
    assert!(matches!(db.0.borrow().collect_table_rows("nowhere"), Err(QueryError::Execution(_))));
    run(&db, "CREATE TABLE b (id INT PRIMARY KEY)");
    assert_eq!(said(&db, "ANALYZE acct"), "ANALYZE 1");
    assert_eq!(texts(&db, "SHOW STATS"), vec!["acct", "acct"]);
    assert_eq!(
        rows(&db, "SHOW STATS", None)[0],
        vec![
            Value::Text("acct".to_string()),
            Value::Int64(3),
            Value::Text("id".to_string()),
            Value::Float64(0.25f64.to_bits()),
            Value::Int64(3),
            Value::Int64(2),
            Value::Int64(4),
            Value::Int64(77),
        ]
    );
    assert_eq!(said(&db, "ANALYZE"), "ANALYZE 2");
    assert_eq!(texts(&db, "SHOW STATS"), vec!["acct", "acct", "b"]);
    assert!(matches!(refused(&db, "ANALYZE nowhere"), QueryError::Execution(_)));
}

#[test]
fn the_smallest_table_is_read_first_once_counted() {
    let db = accounts();
    run(&db, "CREATE TABLE kind (k INT PRIMARY KEY, label TEXT)");
    run(&db, "INSERT INTO kind VALUES (20, 'x')");
    let sql = "SELECT * FROM acct JOIN kind ON acct.bal = kind.k";
    let first = |sql: &str| match db.execute_sql(sql, None) {
        Ok(ExecutionResult::Rows { columns, rows }) => (columns[0].clone(), rows),
        other => panic!("{other:?}"),
    };
    let (column, before) = first(sql);
    assert_eq!(column, "acct.id");
    assert_eq!(before, vec![vec![Value::Int64(2), Value::Int64(20), Value::Int64(20), Value::Text("x".to_string())]]);
    run(&db, "ANALYZE acct");
    assert_eq!(first(sql).0, "acct.id");
    run(&db, "ANALYZE");
    let (column, after) = first(sql);
    assert_eq!(column, "kind.k");
    assert_eq!(after, vec![vec![Value::Int64(20), Value::Text("x".to_string()), Value::Int64(2), Value::Int64(20)]]);
    let plan = texts(&db, &format!("EXPLAIN {sql}"));
    let line = |table: &str| plan.iter().position(|l| l.contains(&format!("Seq Scan on {table}"))).unwrap();
    assert!(line("kind") < line("acct"), "{plan:?}");
    assert_eq!(first("SELECT * FROM acct LEFT JOIN kind ON acct.bal = kind.k").0, "acct.id");
    assert_eq!(ints(&db, "SELECT acct.id FROM acct JOIN kind ON acct.bal = kind.k", None), vec![2]);
}

// ---- casts

#[test]
fn casting_twice_is_casting_once() {
    let cast = |v: &Value, t: DataType| cast_value(&unit, v, t);
    for n in [0, 7, -7, i64::MAX, i64::MIN] {
        let text = cast(&Value::Int64(n), DataType::Text);
        assert_eq!(text, Value::Text(n.to_string()));
        assert_eq!(cast(&text, DataType::Int64), Value::Int64(n));
    }
    let values = [Value::Null, Value::Bool(true), Value::Int64(3), Value::Text("12".to_string()), Value::Text("2024-02-29".to_string())];
    for t in [DataType::Int64, DataType::Float64, DataType::Text, DataType::Bool, DataType::Date, DataType::Decimal, DataType::Bytes] {
        for v in &values {
            let once = cast(v, t);
            assert_eq!(cast(&once, t), once);
        }
        assert_eq!(cast(&Value::Null, t), Value::Null);
    }
    assert_eq!(cast(&Value::Text("x".to_string()), DataType::Int64), Value::Null);
    assert_eq!(cast(&Value::Text("9223372036854775808".to_string()), DataType::Int64), Value::Null);
    assert_eq!(cast(&Value::Text("x".to_string()), DataType::Date), Value::Null);
}

// ---- tokens

#[test]
fn blanks_and_comments_in_front_leave_the_tokens() {
    let plain = Lexer::new("SELECT 'a' , 1").tokenize().unwrap();
    for front in [" ", "\t\n ", "-- a comment\n", " -- one\n-- two\n  "] {
        let text = format!("{front}SELECT 'a' , 1");
        assert_eq!(Lexer::new(&text).tokenize().unwrap(), plain);
    }
    assert_eq!(Lexer::new("-- only").tokenize().unwrap().len(), 1);
    assert_eq!(Lexer::new("").tokenize().unwrap().len(), 1);
}

#[test]
fn a_text_without_tokens_has_no_parser() {
    for (text, message) in [
        ("SELECT 'open", "Unterminated string"),
        ("SELECT 99999999999999999999", "Invalid integer: 99999999999999999999"),
    ] {
        let wrong = QueryError::Parse(message.to_string());
        assert_eq!(Lexer::new(text).tokenize().err(), Some(wrong.clone()));
        assert_eq!(Parser::new(text).err(), Some(wrong));
    }
    assert!(Parser::new("SELECT 1").is_ok());
}

#[test]
fn syntax_errors_name_the_token() {
    for (sql, message) in [
        ("5", "Unexpected token: IntLit(5)"),
        ("SELECT FROM t", "Unexpected token in expression: From"),
        ("SELECT a FROM t GROUP a", "Expected By, got Ident(\"a\")"),
        ("SELECT a FROM", "Expected identifier, got Eof"),
        ("SELECT a FROM t LIMIT 'x'", "Expected integer, got StringLit(\"x\")"),
        ("SELECT a FROM t WHERE b NOT 5", "Expected IN, BETWEEN, or LIKE after NOT"),
        ("SELECT a FROM t WHERE b IS 1", "Expected NullLit, got IntLit(1)"),
        ("SELECT a FROM t ORDER BY a NULLS 1", "Expected Last, got IntLit(1)"),
        ("SELECT a FROM t JOIN u", "Expected On, got Eof"),
        ("SELECT INTERVAL 5 FROM t", "Expected string literal after INTERVAL"),
        ("INSERT t", "Expected Into, got Ident(\"t\")"),
        ("INSERT INTO t 5", "Expected Values, got IntLit(5)"),
        ("UPDATE t b = 1", "Expected Set, got Ident(\"b\")"),
        ("DELETE FROM 1.50", "Expected identifier, got FloatLit(1.5)"),
        ("DELETE FROM true", "Expected identifier, got BoolLit(true)"),
        ("DELETE FROM x'0aff'", "Expected identifier, got HexBlob([10, 255])"),
        ("CREATE 5", "Expected TABLE, INDEX or DATABASE after CREATE"),
        ("CREATE TABLE t (id nope)", "Expected data type, got Ident(\"nope\")"),
        ("CREATE TABLE t (id INT REFERENCES p ON DELETE SET 5)", "Expected NULL after SET"),
        ("CREATE TABLE t (id INT REFERENCES p ON DELETE NO 5)", "Expected ACTION after NO"),
        ("CREATE TABLE t (id INT REFERENCES p ON DELETE 5)", "Expected CASCADE/RESTRICT/SET NULL, got IntLit(5)"),
        ("CREATE TABLE t (id INT REFERENCES p ON 5)", "Expected DELETE or UPDATE after ON"),
        ("CREATE TABLE t (CONSTRAINT c 5)", "Unexpected constraint token: IntLit(5)"),
        ("DROP 5", "Expected TABLE, INDEX or DATABASE after DROP"),
        ("ALTER TABLE t 5", "Expected ADD, DROP, or RENAME after ALTER TABLE <name>"),
        ("ALTER TABLE t RENAME a b", "Expected TO after column name in RENAME"),
        ("SHOW 5", "Expected TABLES, COLUMNS, CREATE, DATABASES, or STATS after SHOW"),
        ("KV 5", "Expected GET, SET, DELETE, or SCAN after KV"),
        ("KV GET 5", "Expected string, got IntLit(5)"),
        ("DOC 5", "Expected INSERT, FIND, UPDATE, or DELETE after DOC"),
        ("DOC INSERT INTO c 5", "Expected '{'"),
        ("DOC INSERT INTO c {", "Unterminated JSON object"),
        ("RESTORE FROM 'x' TO LSN 'y'", "expected LSN integer, got StringLit(\"y\")"),
    ] {
        assert_eq!(Parser::new(sql).unwrap().parse().err(), Some(QueryError::Parse(message.to_string())), "{sql}");
    }
}

#[test]
fn floats_are_written_out_plainly() {
    for (digits, plain, named) in [
        ("1.50", "1.5", "1.5"),
        ("1.", "1", "1.0"),
        ("0.0", "0", "0.0"),
        ("2.0e3", "2000", "2000.0"),
        ("1e20", "100000000000000000000", "1e20"),
        ("12.5E20", "1250000000000000000000", "1.25e21"),
        ("1e-7", "0.0000001", "1e-7"),
        ("0.0001", "0.0001", "0.0001"),
        ("0.00012345", "0.00012345", "0.00012345"),
        ("1e15", "1000000000000000", "1000000000000000.0"),
        ("1e16", "10000000000000000", "1e16"),
        ("007.10", "7.1", "7.1"),
    ] {
        assert_eq!(write_float(digits), plain);
        assert_eq!(debug_float(digits), named);
        assert_eq!(digits.parse::<f64>().unwrap().to_string(), plain);
        assert_eq!(format!("{:?}", digits.parse::<f64>().unwrap()), named);
    }
    let sql = "DOC INSERT INTO c {\"a\": 1.50, \"b\": [2.0, 1e3]}";
    match Parser::new(sql).unwrap().parse().unwrap() {
        Statement::DocInsert(d) => assert_eq!(d.document, "{\"a\":1.5,\"b\":[2,1000]}"),
        other => panic!("{other:?}"),
    }
}

#[test]
fn distinct_in_a_call_stands_before_an_expression() {
    let db = accounts();
    assert_eq!(ints(&db, "SELECT COUNT(DISTINCT bal) FROM acct", None), vec![3]);
    assert!(matches!(refused(&db, "SELECT COUNT(DISTINCT *) FROM acct"), QueryError::Parse(_)));
    assert!(matches!(refused(&db, "SELECT COUNT(DISTINCT) FROM acct"), QueryError::Parse(_)));
}

#[test]
fn insert_from_select_reads_what_its_transaction_sees() {
    let db = accounts();
    run(&db, "CREATE TABLE copy (id INT PRIMARY KEY, bal INT)");
    let t = db.begin(IsolationLevel::RepeatableRead);
    assert_eq!(ints(&db, "SELECT COUNT(*) FROM acct", Some(t)), vec![3]);
    settled(&db, "INSERT INTO acct VALUES (4, 40)");
    assert!(db.execute_sql("INSERT INTO copy SELECT * FROM acct", Some(t)).is_ok());
    assert_eq!(ints(&db, "SELECT COUNT(*) FROM copy", Some(t)), vec![3]);
}

#[test]
fn the_clock_is_read_at_each_check() {
    let db = Db::new();
    run(&db, "CREATE TABLE t (id INT PRIMARY KEY, v INT)");
    let many: Vec<Vec<Value>> = (0..5000).map(|i| vec![Value::Int64(i), Value::Int64(i)]).collect();
    assert_eq!(db.0.borrow_mut().bulk_insert("t", many).unwrap(), 5000);
    let late = |q: Ask| match q {
        Ask::Look(_, n) => Reply::Look(if n >= 2000 { 900 } else { 100 }, false),
        other => unit(other),
    };
    let stopped = |q: Ask| match q {
        Ask::Look(_, n) => Reply::Look(0, n >= 3000),
        other => unit(other),
    };
    let sql = "SELECT * FROM t WHERE v >= 0";
    let mut ctx = QueryContext::with_timeout(500, 0);
    let rn = Runner { u: &late, now: NOW, depth: 32 };
    let r = db.0.borrow_mut().execute_sql_with_ctx(&rn, sql, None, &mut ctx, 0);
    assert_eq!(r.err(), Some(QueryError::QueryTimeout(500)));
    assert_eq!(ctx.usage().scan_rows, 2048);
    let mut ctx = QueryContext::new();
    let rn = Runner { u: &stopped, now: NOW, depth: 32 };
    let r = db.0.borrow_mut().execute_sql_with_ctx(&rn, sql, None, &mut ctx, 0);
    assert_eq!(r.err(), Some(QueryError::Cancelled));
    assert_eq!(ctx.usage().scan_rows, 3072);
    let mut ctx = QueryContext::with_timeout(1000, 0);
    let rn = Runner { u: &late, now: NOW, depth: 32 };
    assert!(db.0.borrow_mut().execute_sql_with_ctx(&rn, sql, None, &mut ctx, 0).is_ok());
}

#[test]
fn groups_and_distinct_rows_are_checked_while_they_are_found() {
    let db = Db::new();
    run(&db, "CREATE TABLE t (id INT PRIMARY KEY, v INT)");
    run(&db, "CREATE TABLE sums (n INT)");
    let many: Vec<Vec<Value>> = (0..2500).map(|i| vec![Value::Int64(i), Value::Int64(1)]).collect();
    assert_eq!(db.0.borrow_mut().bulk_insert("t", many).unwrap(), 2500);
    let sql = "INSERT INTO sums SELECT SUM(v) FROM t";
    let apart = "INSERT INTO sums SELECT DISTINCT v FROM t";
    for (sql, last, wanted) in [(sql, 1, 0), (sql, 3, 24), (sql, 4, 24), (apart, 1, 0), (apart, 2, 0), (apart, 3, 0)] {
        let stop = |q: Ask| match q {
            Ask::Look(i, _) => Reply::Look(0, i == last),
            other => unit(other),
        };
        let rn = Runner { u: &stop, now: NOW, depth: 32 };
        let mut ctx = QueryContext::new();
        let r = db.0.borrow_mut().execute_sql_with_ctx(&rn, sql, None, &mut ctx, 0);
        assert_eq!(r.err(), Some(QueryError::Cancelled));
        assert_eq!(ctx.usage().memory_bytes, wanted);
        assert!(rows(&db, "SELECT n FROM sums", None).is_empty());
    }
    run(&db, sql);
    run(&db, apart);
    assert_eq!(ints(&db, "SELECT n FROM sums", None), vec![2500, 1]);
}

#[test]
fn a_bound_that_is_null_leaves_nothing_between() {
    let db = accounts();
    assert_eq!(ints(&db, "SELECT COUNT(*) FROM acct WHERE bal BETWEEN NULL AND 50", None), vec![0]);
    assert_eq!(ints(&db, "SELECT COUNT(*) FROM acct WHERE NOT (bal BETWEEN NULL AND 50)", None), vec![3]);
    assert_eq!(ints(&db, "SELECT COUNT(*) FROM acct WHERE bal NOT BETWEEN NULL AND 50", None), vec![3]);
}

#[test]
fn days_before_the_first_one() {
    assert_eq!(days_to_ymd(0), (1970, 1, 1));
    assert_eq!(days_to_ymd(-1), (1969, 12, 31));
    assert_eq!(days_to_ymd(-719468), (0, 3, 1));
    assert_eq!(days_to_ymd(-719469), (0, 2, 29));
}

#[test]
fn errors_say_what_is_wrong() {
    let db = accounts();
    let execution = |s: &str| QueryError::Execution(s.to_string());
    assert_eq!(refused(&db, "SELECT * FROM nowhere"), execution("Table 'nowhere' not found"));
    assert_eq!(refused(&db, "USE nowhere"), execution("Database 'nowhere' not found"));
    assert_eq!(
        refused(&db, "EXPLAIN SELECT 1"),
        QueryError::Plan("SELECT without FROM is handled by the executor".to_string())
    );
    assert_eq!(
        refused(&db, "EXPLAIN SHOW TABLES"),
        QueryError::Plan("Statement does not produce a logical plan".to_string())
    );
}

#[test]
fn a_cancelled_query_stops_at_the_next_check() {
    let db = accounts();
    run(&db, "CREATE TABLE t (id INT PRIMARY KEY, v INT)");
    let many: Vec<Vec<Value>> = (0..3000).map(|i| vec![Value::Int64(i), Value::Int64(i)]).collect();
    assert_eq!(db.0.borrow_mut().bulk_insert("t", many).unwrap(), 3000);
    let rn = Runner { u: &unit, now: NOW, depth: 32 };
    let stopped = |sql: &str, limits: ResourceLimits| {
        let mut ctx = QueryContext::with_limits(limits);
        ctx.cancel();
        let r = db.0.borrow_mut().execute_sql_with_ctx(&rn, sql, None, &mut ctx, 0);
        assert_eq!(r.err(), Some(QueryError::Cancelled));
        ctx.usage()
    };
    let none = ResourceLimits::unlimited();
    assert_eq!(stopped("SELECT * FROM t", none).scan_rows, 1023);
    assert_eq!(stopped("SELECT * FROM t", none.with_scan_rows(5000)).scan_rows, 3000);
    assert_eq!(stopped("SELECT * FROM t WHERE v > 5", none).scan_rows, 1024);
    assert_eq!(stopped("SELECT * FROM t WHERE v > 5", none.with_scan_rows(100)).scan_rows, 101);
    assert_eq!(stopped("SELECT * FROM acct", none).scan_rows, 3);
    run(&db, "CREATE TABLE sums (n INT)");
    let grouped = stopped("INSERT INTO sums SELECT SUM(bal) FROM acct", none);
    assert_eq!(grouped, ResourceUsageSnapshot { memory_bytes: 0, temp_spill_bytes: 0, scan_rows: 3 });
    assert!(rows(&db, "SELECT n FROM sums", None).is_empty());
    stopped("INSERT INTO sums SELECT bal FROM acct", none);
    assert_eq!(rows(&db, "SELECT n FROM sums", None).len(), 3);
}
