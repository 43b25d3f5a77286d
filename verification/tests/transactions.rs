use std::cell::RefCell;

use bytedb_query::error::{QueryError, Result};
use bytedb_query::executor::constraints::Runner;
use bytedb_query::executor::engine::{ExecutionResult, QueryEngine};
use bytedb_query::executor::marks::Mark;
use bytedb_query::executor::unit::{Ask, Reply};
use bytedb_query::parser::ast::IsolationLevel;
use bytedb_query::value::Value;

/// What one transaction has read and written.
struct Trace {
    id: u64,
    begun: usize,
    ended: Option<usize>,
    serializable: bool,
    aborted: bool,
    marks: Vec<Mark>,
}

impl Trace {
    fn writes(&self) -> bool {
        self.marks.iter().any(|m| matches!(m, Mark::Write { .. }))
    }

    /// Whether this transaction read what another wrote.
    fn read_from(&self, other: &Trace) -> bool {
        other.marks.iter().any(|w| match w {
            Mark::Write { table, key } => self.marks.iter().any(|r| match r {
                Mark::Scan { table: t } => t == table,
                Mark::Read { table: t, key: k } => t == table && k == key,
                Mark::Write { .. } => false,
            }),
            _ => false,
        })
    }

    fn beside(&self, other: &Trace) -> bool {
        let before = |a: &Trace, b: &Trace| a.ended.map_or(false, |at| at < b.begun);
        !before(self, other) && !before(other, self)
    }
}

/// Lets no serializable transaction commit that another has read from and that itself has read from
/// another, and no two transactions write one row.
struct Judge {
    clock: usize,
    traces: Vec<Trace>,
}

impl Judge {
    fn may_commit(&self, id: u64) -> Option<String> {
        let t = self.traces.iter().find(|t| t.id == id)?;
        let others = || self.traces.iter().filter(|o| o.id != id && o.serializable && !o.aborted && o.beside(t));
        let pivot = others().any(|o| t.read_from(o)) && others().any(|o| o.read_from(t));
        if t.serializable && t.writes() && pivot {
            Some(format!("transaction {id} could not be serialized"))
        } else {
            None
        }
    }

    fn may_write(&self, id: u64, table: &str, key: &[Value]) -> Option<String> {
        let taken = self.traces.iter().any(|o| {
            o.id != id
                && o.ended.is_none()
                && o.marks.iter().any(|m| matches!(m, Mark::Write { table: t, key: k } if t == table && k == key))
        });
        if taken {
            Some(format!("write conflict on {table}"))
        } else {
            None
        }
    }
}

struct Db {
    engine: RefCell<QueryEngine>,
    judge: RefCell<Judge>,
}

impl Db {
    fn new() -> Db {
        Db {
            engine: RefCell::new(QueryEngine::new("test")),
            judge: RefCell::new(Judge { clock: 0, traces: Vec::new() }),
        }
    }

    fn answer(&self, q: Ask) -> Reply {
        match q {
            Ask::MayCommit(id) => Reply::Verdict(self.judge.borrow().may_commit(id)),
            Ask::MayWrite(id, table, key) => Reply::Verdict(self.judge.borrow().may_write(id, &table, &key)),
            _ => Reply::Bits(0),
        }
    }

    fn begin(&self, level: IsolationLevel) -> u64 {
        let serializable = matches!(level, IsolationLevel::Serializable);
        let id = self.engine.borrow_mut().begin(level).unwrap();
        let mut j = self.judge.borrow_mut();
        j.clock += 1;
        let begun = j.clock;
        j.traces.push(Trace { id, begun, ended: None, serializable, aborted: false, marks: Vec::new() });
        id
    }

    fn footprint(&self, sql: &str, txn: u64) -> Vec<Mark> {
        let u = |q: Ask| self.answer(q);
        let rn = Runner { u: &u, now: 0, depth: 32 };
        let stmt = self.engine.borrow_mut().parse_cached(sql).unwrap();
        let marks = self.engine.borrow().footprint(&rn, &stmt, Some(txn));
        marks
    }

    fn execute_sql(&self, sql: &str, txn: Option<u64>) -> Result<ExecutionResult> {
        let marks = match txn {
            Some(id) => self.footprint(sql, id),
            None => Vec::new(),
        };
        let u = |q: Ask| self.answer(q);
        let rn = Runner { u: &u, now: 0, depth: 32 };
        let r = self.engine.borrow_mut().execute_sql(&rn, sql, txn);
        let mut j = self.judge.borrow_mut();
        j.clock += 1;
        let at = j.clock;
        if let Some(t) = j.traces.iter_mut().find(|t| Some(t.id) == txn) {
            t.marks.extend(marks);
            if sql == "COMMIT" || sql == "ROLLBACK" {
                t.ended = Some(at);
                t.aborted = r.is_err() || sql == "ROLLBACK";
            }
        }
        r
    }

    fn commit(&self, txn: u64) -> Result<ExecutionResult> {
        self.execute_sql("COMMIT", Some(txn))
    }

    fn ints(&self, sql: &str) -> Vec<i64> {
        match self.execute_sql(sql, None) {
            Ok(ExecutionResult::Rows { rows, .. }) => rows
                .iter()
                .map(|r| match &r[0] {
                    Value::Int64(n) => *n,
                    other => panic!("{other:?}"),
                })
                .collect(),
            other => panic!("{sql}: {other:?}"),
        }
    }
}

fn setup(seed: &[&str]) -> Db {
    let e = Db::new();
    for sql in seed {
        e.execute_sql(sql, None).unwrap();
    }
    e
}

fn doctors() -> Db {
    setup(&[
        "CREATE TABLE doctors (id INT PRIMARY KEY, on_call INT)",
        "INSERT INTO doctors VALUES (1, 1)",
        "INSERT INTO doctors VALUES (2, 1)",
    ])
}

fn accounts() -> Db {
    setup(&[
        "CREATE TABLE acct (id INT PRIMARY KEY, bal INT)",
        "INSERT INTO acct VALUES (1, 100)",
        "INSERT INTO acct VALUES (2, 100)",
    ])
}

fn aborts(ends: &[&Result<ExecutionResult>]) -> usize {
    ends.iter().filter(|r| r.is_err()).count()
}

#[test]
fn write_skew_aborts_one_under_serializable() {
    let e = doctors();
    let t1 = e.begin(IsolationLevel::Serializable);
    let t2 = e.begin(IsolationLevel::Serializable);

    e.execute_sql("SELECT id FROM doctors WHERE on_call = 1", Some(t1)).unwrap();
    e.execute_sql("SELECT id FROM doctors WHERE on_call = 1", Some(t2)).unwrap();

    e.execute_sql("UPDATE doctors SET on_call = 0 WHERE id = 1", Some(t1)).unwrap();
    e.execute_sql("UPDATE doctors SET on_call = 0 WHERE id = 2", Some(t2)).unwrap();

    let c1 = e.commit(t1);
    let c2 = e.commit(t2);

    assert_eq!(aborts(&[&c1, &c2]), 1, "exactly one serializable txn must abort (c1={c1:?} c2={c2:?})");
    assert_eq!(e.ints("SELECT id FROM doctors WHERE on_call = 1").len(), 1);
}

#[test]
fn write_skew_allowed_under_read_committed() {
    let e = doctors();
    let t1 = e.begin(IsolationLevel::ReadCommitted);
    let t2 = e.begin(IsolationLevel::ReadCommitted);

    e.execute_sql("SELECT id FROM doctors WHERE on_call = 1", Some(t1)).unwrap();
    e.execute_sql("SELECT id FROM doctors WHERE on_call = 1", Some(t2)).unwrap();

    e.execute_sql("UPDATE doctors SET on_call = 0 WHERE id = 1", Some(t1)).unwrap();
    e.execute_sql("UPDATE doctors SET on_call = 0 WHERE id = 2", Some(t2)).unwrap();

    assert!(e.commit(t1).is_ok());
    assert!(e.commit(t2).is_ok());
}

#[test]
fn disjoint_point_writes_both_commit() {
    let e = doctors();
    let t1 = e.begin(IsolationLevel::Serializable);
    let t2 = e.begin(IsolationLevel::Serializable);

    e.execute_sql("UPDATE doctors SET on_call = 0 WHERE id = 1", Some(t1)).unwrap();
    e.execute_sql("UPDATE doctors SET on_call = 0 WHERE id = 2", Some(t2)).unwrap();

    assert!(e.commit(t1).is_ok());
    assert!(e.commit(t2).is_ok());
}

#[test]
fn phantom_write_skew_aborts_one() {
    let e = setup(&["CREATE TABLE items (id INT PRIMARY KEY, color TEXT)", "INSERT INTO items VALUES (1, 'white')"]);
    let t1 = e.begin(IsolationLevel::Serializable);
    let t2 = e.begin(IsolationLevel::Serializable);

    e.execute_sql("SELECT id FROM items WHERE color = 'black'", Some(t1)).unwrap();
    e.execute_sql("SELECT id FROM items WHERE color = 'black'", Some(t2)).unwrap();

    e.execute_sql("INSERT INTO items VALUES (10, 'black')", Some(t1)).unwrap();
    e.execute_sql("INSERT INTO items VALUES (11, 'black')", Some(t2)).unwrap();

    let c1 = e.commit(t1);
    let c2 = e.commit(t2);
    assert_eq!(aborts(&[&c1, &c2]), 1, "exactly one must abort (c1={c1:?} c2={c2:?})");
}

#[test]
fn read_only_serializable_never_aborts() {
    let e = doctors();
    let t_ro = e.begin(IsolationLevel::Serializable);
    let t_w = e.begin(IsolationLevel::Serializable);

    e.execute_sql("SELECT id FROM doctors WHERE on_call = 1", Some(t_ro)).unwrap();
    e.execute_sql("UPDATE doctors SET on_call = 0 WHERE id = 1", Some(t_w)).unwrap();
    assert!(e.commit(t_w).is_ok());

    e.execute_sql("SELECT id FROM doctors WHERE on_call = 1", Some(t_ro)).unwrap();
    assert!(e.commit(t_ro).is_ok());
}

#[test]
fn probe_pivot_commits_first() {
    let e = accounts();
    let t1 = e.begin(IsolationLevel::Serializable);
    let t2 = e.begin(IsolationLevel::Serializable);

    e.execute_sql("SELECT bal FROM acct WHERE id = 2", Some(t1)).unwrap();
    e.execute_sql("UPDATE acct SET bal = 0 WHERE id = 1", Some(t1)).unwrap();
    let c1 = e.commit(t1);

    e.execute_sql("SELECT bal FROM acct WHERE id = 1", Some(t2)).unwrap();
    e.execute_sql("UPDATE acct SET bal = 0 WHERE id = 2", Some(t2)).unwrap();
    let c2 = e.commit(t2);

    assert_eq!(aborts(&[&c1, &c2]), 1, "exactly one must abort (c1={c1:?} c2={c2:?})");
}

#[test]
fn probe_three_txn_cycle_pivot_reads() {
    let e = setup(&[
        "CREATE TABLE t (id INT PRIMARY KEY, v INT)",
        "INSERT INTO t VALUES (1, 0)",
        "INSERT INTO t VALUES (2, 0)",
        "INSERT INTO t VALUES (3, 0)",
    ]);
    let tout = e.begin(IsolationLevel::Serializable);
    let tpiv = e.begin(IsolationLevel::Serializable);
    let tin = e.begin(IsolationLevel::Serializable);

    e.execute_sql("SELECT v FROM t WHERE id = 1", Some(tout)).unwrap();
    e.execute_sql("UPDATE t SET v = 1 WHERE id = 2", Some(tout)).unwrap();
    let cout = e.commit(tout);

    e.execute_sql("SELECT v FROM t WHERE id = 2", Some(tpiv)).unwrap();
    e.execute_sql("UPDATE t SET v = 1 WHERE id = 3", Some(tpiv)).unwrap();

    e.execute_sql("SELECT v FROM t WHERE id = 3", Some(tin)).unwrap();
    e.execute_sql("UPDATE t SET v = 1 WHERE id = 1", Some(tin)).unwrap();

    let cpiv = e.commit(tpiv);
    let cin = e.commit(tin);
    assert!(
        aborts(&[&cout, &cpiv, &cin]) >= 1,
        "at least one must abort to break cycle (cout={cout:?} cpiv={cpiv:?} cin={cin:?})"
    );
}

#[test]
fn probe_topn_unstrumented() {
    let e = accounts();
    let t1 = e.begin(IsolationLevel::Serializable);
    let t2 = e.begin(IsolationLevel::Serializable);

    e.execute_sql("SELECT id FROM acct ORDER BY bal LIMIT 5", Some(t1)).unwrap();
    e.execute_sql("SELECT id FROM acct ORDER BY bal LIMIT 5", Some(t2)).unwrap();

    e.execute_sql("UPDATE acct SET bal = 0 WHERE id = 1", Some(t1)).unwrap();
    e.execute_sql("UPDATE acct SET bal = 0 WHERE id = 2", Some(t2)).unwrap();

    let c1 = e.commit(t1);
    let c2 = e.commit(t2);
    println!("TOPN aborts={} c1={c1:?} c2={c2:?}", aborts(&[&c1, &c2]));
    assert_eq!(aborts(&[&c1, &c2]), 1, "top-n read path must record predicate scan");
}

#[test]
fn a_refused_commit_undoes_its_transaction() {
    let e = doctors();
    let t1 = e.begin(IsolationLevel::Serializable);
    let t2 = e.begin(IsolationLevel::Serializable);
    for t in [t1, t2] {
        e.execute_sql("SELECT id FROM doctors", Some(t)).unwrap();
    }
    e.execute_sql("UPDATE doctors SET on_call = 7 WHERE id = 1", Some(t1)).unwrap();
    e.execute_sql("UPDATE doctors SET on_call = 8 WHERE id = 2", Some(t2)).unwrap();
    assert_eq!(
        e.commit(t1).err(),
        Some(QueryError::Execution(format!("transaction {t1} could not be serialized")))
    );
    assert_eq!(e.ints("SELECT on_call FROM doctors WHERE id = 1"), vec![1]);
    assert!(e.commit(t2).is_ok());
    assert_eq!(e.ints("SELECT on_call FROM doctors WHERE id = 2"), vec![8]);
}

#[test]
fn a_row_that_another_changes_is_not_changed() {
    let e = accounts();
    let t1 = e.begin(IsolationLevel::ReadCommitted);
    let t2 = e.begin(IsolationLevel::ReadCommitted);
    e.execute_sql("UPDATE acct SET bal = 5 WHERE id = 1", Some(t1)).unwrap();
    let conflict = Some(QueryError::Core("write conflict on acct".to_string()));
    assert_eq!(e.execute_sql("UPDATE acct SET bal = 6 WHERE id = 1", Some(t2)).err(), conflict);
    assert_eq!(e.execute_sql("DELETE FROM acct WHERE id = 1", Some(t2)).err(), conflict);
    assert!(e.execute_sql("UPDATE acct SET bal = 6 WHERE id = 2", Some(t2)).is_ok());
    assert!(e.commit(t1).is_ok());
    assert!(e.execute_sql("UPDATE acct SET bal = 7 WHERE id = 1", Some(t2)).is_ok());
    assert!(e.commit(t2).is_ok());
    assert_eq!(e.ints("SELECT bal FROM acct"), vec![7, 6]);
}

fn read(n: i64) -> String {
    format!("{:?}", Mark::Read { table: "acct".to_string(), key: vec![Value::Int64(n)] })
}

fn scan() -> String {
    format!("{:?}", Mark::Scan { table: "acct".to_string() })
}

fn write(n: i64) -> String {
    format!("{:?}", Mark::Write { table: "acct".to_string(), key: vec![Value::Int64(n)] })
}

#[test]
fn footprints_of_statements() {
    let e = accounts();
    let t = e.begin(IsolationLevel::Serializable);
    let marks = |sql: &str| e.footprint(sql, t).iter().map(|m| format!("{m:?}")).collect::<Vec<_>>();
    assert_eq!(marks("SELECT * FROM acct"), vec![scan(), read(1), read(2)]);
    assert_eq!(marks("SELECT bal FROM acct WHERE id = 2"), vec![read(2)]);
    assert_eq!(marks("SELECT bal FROM acct WHERE id = 9"), vec![read(9)]);
    assert_eq!(marks("INSERT INTO acct VALUES (3, 30)"), vec![write(3)]);
    assert!(marks("UPDATE acct SET bal = 0 WHERE id = 1").contains(&write(1)));
    assert!(!marks("UPDATE acct SET bal = 0 WHERE id = 1").contains(&scan()));
    assert!(marks("UPDATE acct SET bal = 0").contains(&write(2)));
    assert!(marks("DELETE FROM acct WHERE id = 2").contains(&write(2)));
    assert!(!marks("DELETE FROM acct WHERE id = 2").contains(&write(1)));
    assert!(marks("EXPLAIN SELECT * FROM acct").is_empty());
    assert_eq!(marks("EXPLAIN ANALYZE SELECT * FROM acct"), vec![scan(), read(1), read(2)]);
    assert!(marks("SHOW TABLES").is_empty());
    assert!(e.footprint("SELECT * FROM acct", 999).is_empty());
}
