use bytedb_query::executor::batch::{deserialize_batch, ColumnVector, RecordBatch, SelectionVector, BATCH_SIZE};
use bytedb_query::executor::unit::{Ask, Reply};
use bytedb_query::executor::vector_scan::{exec_seq_scan_vectorized, try_fast_filter};
use bytedb_query::parser::ast::{BinOp, Expr, Statement};
use bytedb_query::parser::parser::Parser;
use bytedb_query::value::{Order, Value};

/// A numeric unit that only compares.
fn unit(q: Ask) -> Reply {
    match q {
        Ask::Compare(Value::Float64(a), Value::Float64(b)) => {
            let o = f64::from_bits(a).partial_cmp(&f64::from_bits(b));
            Reply::MaybeOrder(match o {
                Some(std::cmp::Ordering::Less) => Some(Order::Less),
                Some(std::cmp::Ordering::Equal) => Some(Order::Equal),
                Some(std::cmp::Ordering::Greater) => Some(Order::Greater),
                None => None,
            })
        }
        other => panic!("{other:?}"),
    }
}

fn row(n: Option<i64>, s: &str, b: bool, f: f64) -> Vec<u8> {
    let mut d = vec![4u8];
    match n {
        Some(n) => {
            d.push(2);
            d.extend_from_slice(&n.to_le_bytes());
        }
        None => d.push(0),
    }
    d.push(4);
    d.extend_from_slice(&(s.len() as u32).to_le_bytes());
    d.extend_from_slice(s.as_bytes());
    d.push(1);
    d.push(b as u8);
    d.push(3);
    d.extend_from_slice(&f.to_le_bytes());
    d
}

fn batch() -> RecordBatch {
    let rows = vec![row(Some(-5), "kölsch", true, 1.5), row(None, "ale", false, f64::NAN), row(Some(7), "", true, -2.0)];
    deserialize_batch(&rows, 4).unwrap()
}

#[test]
fn stored_rows_are_read_into_columns() {
    let b = batch();
    assert_eq!(b.num_rows, 3);
    assert_eq!(b.columns.len(), 4);
    assert_eq!(b.columns[1].len(), 3);
    let rows = b.materialize_all_rows();
    assert_eq!(rows[0][0], Value::Int64(-5));
    assert_eq!(rows[0][1], Value::Text("kölsch".to_string()));
    assert_eq!(rows[0][2], Value::Bool(true));
    assert_eq!(rows[0][3], Value::Float64(1.5f64.to_bits()));
    assert_eq!(rows[1][0], Value::Null);
    assert_eq!(rows[2][1], Value::Text(String::new()));
    assert!(BATCH_SIZE == 1024);
}

#[test]
fn columns_are_filtered() {
    let b = batch();
    assert_eq!(b.filter_int64_column(0, BinOp::Gt, -6).indices, vec![0, 2]);
    assert_eq!(b.filter_int64_column(0, BinOp::Eq, 7).indices, vec![2]);
    assert_eq!(b.filter_int64_column(0, BinOp::Neq, 7).indices, vec![0]);
    assert_eq!(b.filter_int64_column(1, BinOp::Eq, 7).indices, Vec::<u16>::new());
    assert_eq!(b.filter_int64_column(9, BinOp::Eq, 7).indices, Vec::<u16>::new());
    assert_eq!(b.filter_text_column(1, BinOp::Lte, "ale").indices, vec![1, 2]);
    assert_eq!(b.filter_text_column(1, BinOp::Gte, "ale").indices, vec![0, 1]);
    assert_eq!(b.filter_float64_column(&unit, 3, BinOp::Lt, 1.5f64.to_bits()).indices, vec![2]);
    assert_eq!(b.filter_float64_column(&unit, 3, BinOp::Neq, 1.5f64.to_bits()).indices, vec![1, 2]);
}

#[test]
fn a_selection_gives_its_rows() {
    let b = batch();
    let rows = b.materialize_rows(&SelectionVector { indices: vec![2, 0] });
    assert_eq!(rows.len(), 2);
    assert_eq!(rows[0][0], Value::Int64(7));
    assert_eq!(rows[1][0], Value::Int64(-5));
}

#[test]
fn rows_that_cannot_be_read_are_refused() {
    assert!(deserialize_batch(&vec![], 1).is_none());
    assert!(deserialize_batch(&vec![vec![0]], 0).is_none());
    assert!(deserialize_batch(&vec![vec![2, 0]], 1).is_none());
    assert!(deserialize_batch(&vec![vec![1]], 1).is_none());
    assert!(deserialize_batch(&vec![vec![1, 2, 0, 0]], 1).is_none());
    assert!(deserialize_batch(&vec![vec![1, 4, 1, 0, 0, 0, 0xff]], 1).is_none());
    assert!(deserialize_batch(&vec![vec![1, 9]], 1).is_none());
    assert!(deserialize_batch(&vec![vec![1, 1]], 1).is_none());
}

#[test]
fn a_column_of_nulls_has_no_type() {
    let b = deserialize_batch(&vec![vec![1, 0], vec![1, 0]], 1).unwrap();
    assert!(matches!(b.columns[0], ColumnVector::Null(2)));
    assert_eq!(b.materialize_all_rows(), vec![vec![Value::Null], vec![Value::Null]]);
    let c = RecordBatch::new(Vec::new(), 0);
    assert_eq!(c.materialize_all_rows().len(), 0);
}

#[test]
fn times_are_read_as_numbers_and_other_values_are_skipped() {
    let mut d = vec![2u8, 7];
    d.extend_from_slice(&123i64.to_le_bytes());
    d.extend_from_slice(&[5, 2, 0, 0, 0, 1, 2]);
    let b = deserialize_batch(&vec![d], 2).unwrap();
    let rows = b.materialize_all_rows();
    assert_eq!(rows[0][0], Value::Int64(123));
    assert_eq!(rows[0][1], Value::Null);
}

fn condition(sql: &str) -> Expr {
    match Parser::new(&format!("SELECT n FROM t WHERE {sql}")).unwrap().parse().unwrap() {
        Statement::Select(q) => q.where_clause.unwrap(),
        other => panic!("{other:?}"),
    }
}

#[test]
fn leaves_are_scanned_with_a_filter() {
    let leaves = vec![
        vec![row(Some(1), "a", true, 0.5), row(Some(2), "b", true, 1.5)],
        vec![vec![9, 9]],
        vec![row(Some(3), "b", false, 2.5), row(None, "c", true, 3.5), row(Some(4), "b", true, 4.5)],
    ];
    let names: Vec<String> = ["n", "s", "b", "f"].iter().map(|s| s.to_string()).collect();
    let found = |sql: &str, limit: Option<usize>| -> Vec<Value> {
        let f = try_fast_filter(&unit, &names, &condition(sql));
        assert!(f.is_some(), "{sql}");
        let mut rows = exec_seq_scan_vectorized(&unit, &leaves, 4, &f, limit);
        rows.iter_mut().map(|r| r.swap_remove(0)).collect()
    };
    assert_eq!(found("n >= 2", None), vec![Value::Int64(2), Value::Int64(3), Value::Int64(4)]);
    assert_eq!(found("3 > n", None), vec![Value::Int64(1), Value::Int64(2)]);
    assert_eq!(found("s = 'b'", Some(2)), vec![Value::Int64(2), Value::Int64(3)]);
    assert_eq!(found("s = 5", None), vec![]);
    assert_eq!(found("b = TRUE", None).len(), 5);
    assert_eq!(exec_seq_scan_vectorized(&unit, &leaves, 4, &None, Some(1)).len(), 1);
    assert_eq!(exec_seq_scan_vectorized(&unit, &leaves, 4, &None, None).len(), 5);
    assert!(try_fast_filter(&unit, &names, &condition("n > 1 AND n < 3")).is_none());
    assert!(try_fast_filter(&unit, &names, &condition("zz = 1")).is_none());
}

#[test]
fn stored_values_come_back() {
    let rows = vec![row(None, "a", true, 0.5), row(Some(i64::MIN), "é", false, -0.0), row(None, "", true, 3.0)];
    let b = deserialize_batch(&rows, 4).unwrap();
    assert_eq!(b.num_rows, 3);
    for c in &b.columns {
        assert_eq!(c.len(), 3);
    }
    let back = b.materialize_all_rows();
    assert_eq!(back[0], vec![Value::Null, Value::Text("a".to_string()), Value::Bool(true), Value::Float64(0.5f64.to_bits())]);
    assert_eq!(
        back[1],
        vec![Value::Int64(i64::MIN), Value::Text("é".to_string()), Value::Bool(false), Value::Float64((-0.0f64).to_bits())]
    );
    assert_eq!(back[2][0], Value::Null);
}
