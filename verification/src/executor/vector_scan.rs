use vstd::prelude::*;
use crate::parser::ast::{BinOp, Expr, ExprView};
use crate::planner::optimizer::{flip_op, flipped};
use crate::value::{Value, ValueView, names_view, rows_view};
use super::batch::{ColumnVectorView, RecordBatch, SelectionVector, batch_columns, bytes_view, covers, deserialize_batch, float_orders, int_orders, law_selected, row_at, selected, stored_rows, text_orders, vectors_view};
use super::eval::{eval_literal, literal_value};
use super::scope::{find_index, index_of};
use super::unit::{Ask, Reply, Unit, is_unit, model};

verus! {

/// A comparison of a column with a constant.
#[derive(Debug)]
pub struct FastFilter {
    pub col: usize,
    pub op: BinOp,
    pub value: Value,
}

/// What contracts say about a `FastFilter`.
pub struct FastFilterView {
    pub col: int,
    pub op: BinOp,
    pub value: ValueView,
}

impl FastFilter {
    pub open spec fn view(&self) -> FastFilterView {
        FastFilterView { col: self.col as int, op: self.op, value: self.value@ }
    }
}

pub open spec fn filter_view(f: Option<FastFilter>) -> Option<FastFilterView> {
    match f {
        Some(f) => Some(f@),
        None => None,
    }
}

pub open spec fn compares(op: BinOp) -> bool {
    op == BinOp::Eq || op == BinOp::Neq || op == BinOp::Lt || op == BinOp::Gt || op == BinOp::Lte || op == BinOp::Gte
}

/// A condition as a comparison of a column with a constant, where it is one.
pub open spec fn fast_filter(m: Unit, columns: Seq<Seq<char>>, e: ExprView) -> Option<FastFilterView> {
    match e {
        ExprView::BinaryOp { left, op, right } => if !compares(op) {
            None
        } else {
            match (*left, *right) {
                (ExprView::Column(c), ExprView::Literal(l)) => match index_of(columns, c) {
                    Some(i) => Some(FastFilterView { col: i, op, value: literal_value(m, l) }),
                    None => None,
                },
                (ExprView::Literal(l), ExprView::Column(c)) => match index_of(columns, c) {
                    Some(i) => Some(FastFilterView { col: i, op: flipped(op), value: literal_value(m, l) }),
                    None => None,
                },
                _ => None,
            }
        },
        _ => None,
    }
}

/// Reads a condition as a comparison of a column with a constant.
pub fn try_fast_filter<U: Fn(Ask) -> Reply>(u: &U, columns: &Vec<String>, e: &Expr) -> (r: Option<FastFilter>)
    requires
        is_unit(u),
    ensures
        filter_view(r) == fast_filter(model(u), names_view(columns@), e@),
{
    proof {
        (*e).unfold();
    }
    match e {
        Expr::BinaryOp { left, op, right } => {
            if !matches!(op, BinOp::Eq | BinOp::Neq | BinOp::Lt | BinOp::Gt | BinOp::Lte | BinOp::Gte) {
                return None;
            }
            proof {
                (**left).unfold();
                (**right).unfold();
            }
            match (&**left, &**right) {
                (Expr::Column(c), Expr::Literal(l)) => match find_index(columns, c.as_str()) {
                    Some(i) => Some(FastFilter { col: i, op: *op, value: eval_literal(u, l) }),
                    None => None,
                },
                (Expr::Literal(l), Expr::Column(c)) => match find_index(columns, c.as_str()) {
                    Some(i) => Some(FastFilter { col: i, op: flip_op(*op), value: eval_literal(u, l) }),
                    None => None,
                },
                _ => None,
            }
        },
        _ => None,
    }
}

/// The places of a batch of `n` rows that a filter lets through: none where the column is not of the
/// constant's type, and all where the constant is neither a number nor a text.
pub open spec fn let_through(m: Unit, c: Seq<ColumnVectorView>, n: nat, f: FastFilterView) -> Seq<u16> {
    let inside = 0 <= f.col < c.len();
    match f.value {
        ValueView::Int64(l) => if inside && c[f.col] is Int64 {
            selected(c[f.col]->Int64_1, int_orders(c[f.col]->Int64_0, l), f.op, n)
        } else {
            Seq::empty()
        },
        ValueView::Float64(l) => if inside && c[f.col] is Float64 {
            selected(c[f.col]->Float64_1, float_orders(m, c[f.col]->Float64_0, l), f.op, n)
        } else {
            Seq::empty()
        },
        ValueView::Text(l) => if inside && c[f.col] is Text {
            selected(c[f.col]->Text_1, text_orders(c[f.col]->Text_0, l), f.op, n)
        } else {
            Seq::empty()
        },
        _ => Seq::new(n, |i: int| i as u16),
    }
}

/// The rows of a batch that a filter lets through.
pub open spec fn batch_rows(m: Unit, c: Seq<ColumnVectorView>, n: nat, f: Option<FastFilterView>) -> Seq<Seq<ValueView>> {
    match f {
        None => Seq::new(n, |i: int| row_at(c, i)),
        Some(f) => {
            let at = let_through(m, c, n, f);
            Seq::new(at.len(), |j: int| row_at(c, at[j] as int))
        },
    }
}

/// How far a scan has come: the rows that it has found, and whether it has found enough.
pub struct Found {
    pub rows: Seq<Seq<ValueView>>,
    pub full: bool,
}

/// A scan of stored rows, leaf by leaf. A leaf that cannot be read is passed over.
pub open spec fn vector_scan(m: Unit, leaves: Seq<Seq<Seq<u8>>>, n: nat, f: Option<FastFilterView>, limit: Option<usize>) -> Found
    decreases leaves.len(),
{
    if leaves.len() == 0 {
        Found { rows: Seq::empty(), full: false }
    } else {
        let before = vector_scan(m, leaves.drop_last(), n, f, limit);
        let leaf = leaves.last();
        if before.full || leaf.len() == 0 || n == 0 {
            before
        } else {
            match stored_rows(leaf, n) {
                None => before,
                Some(rows) => {
                    let all = before.rows + batch_rows(m, batch_columns(rows, n), leaf.len(), f);
                    match limit {
                        Some(l) => if all.len() >= l {
                            Found { rows: all.take(l as int), full: true }
                        } else {
                            Found { rows: all, full: false }
                        },
                        None => Found { rows: all, full: false },
                    }
                },
            }
        }
    }
}

/// Whether a leaf holds no more rows than a selection can name, and each of its columns has a value
/// for each row.
pub open spec fn leaf_fits(leaf: Seq<Seq<u8>>, n: nat) -> bool {
    leaf.len() <= 65536 && (stored_rows(leaf, n) matches Some(rows) ==> forall|c: int|
        0 <= c < n ==> covers(#[trigger] batch_columns(rows, n)[c], leaf.len() as int))
}

pub open spec fn leaves_view(s: Seq<Vec<Vec<u8>>>) -> Seq<Seq<Seq<u8>>> {
    Seq::new(s.len(), |i: int| bytes_view(s[i]@))
}

fn all_places(n: usize) -> (r: SelectionVector)
    requires
        n <= 65536,
    ensures
        r.indices@ == Seq::new(n as nat, |i: int| i as u16),
{
    let mut indices: Vec<u16> = Vec::new();
    let mut i: usize = 0;
    while i < n
        invariant
            i <= n <= 65536,
            indices@ =~= Seq::new(i as nat, |k: int| k as u16),
        decreases n - i,
    {
        indices.push(i as u16);
        i = i + 1;
    }
    SelectionVector { indices }
}

fn filter_batch<U: Fn(Ask) -> Reply>(u: &U, b: &RecordBatch, filter: &Option<FastFilter>) -> (r: Vec<Vec<Value>>)
    requires
        is_unit(u),
        b.wf(),
        b.num_rows <= 65536,
    ensures
        rows_view(r@) == batch_rows(model(u), vectors_view(b.columns@), b.num_rows as nat, filter_view(*filter)),
{
    let ghost c = vectors_view(b.columns@);
    match filter {
        None => b.materialize_all_rows(),
        Some(f) => {
            let sel = match &f.value {
                Value::Int64(l) => b.filter_int64_column(f.col, f.op, *l),
                Value::Float64(l) => b.filter_float64_column(u, f.col, f.op, *l),
                Value::Text(l) => b.filter_text_column(f.col, f.op, l.as_str()),
                _ => all_places(b.num_rows),
            };
            proof {
                assert(c.len() == b.columns@.len());
                if f.col < c.len() {
                    assert(c[f.col as int] == b.columns@[f.col as int]@);
                    match (f.value@, c[f.col as int]) {
                        (ValueView::Int64(l), ColumnVectorView::Int64(v, z)) => {
                            law_selected(z, int_orders(v, l), f.op, b.num_rows as nat);
                        },
                        (ValueView::Float64(l), ColumnVectorView::Float64(v, z)) => {
                            law_selected(z, float_orders(model(u), v, l), f.op, b.num_rows as nat);
                        },
                        (ValueView::Text(l), ColumnVectorView::Text(v, z)) => {
                            law_selected(z, text_orders(v, l), f.op, b.num_rows as nat);
                        },
                        _ => {},
                    }
                }
                assert(sel.indices@ == let_through(model(u), c, b.num_rows as nat, f@));
            }
            b.materialize_rows(&sel)
        },
    }
}

/// Scans stored rows leaf by leaf, with a comparison of a column with a constant as the filter; it
/// stops once it has found as many rows as are asked for.
pub fn exec_seq_scan_vectorized<U: Fn(Ask) -> Reply>(
    u: &U,
    leaves: &Vec<Vec<Vec<u8>>>,
    num_columns: usize,
    filter: &Option<FastFilter>,
    limit: Option<usize>,
) -> (r: Vec<Vec<Value>>)
    requires
        is_unit(u),
        forall|i: int| 0 <= i < leaves@.len() ==> leaf_fits(#[trigger] leaves_view(leaves@)[i], num_columns as nat),
    ensures
        rows_view(r@) == vector_scan(model(u), leaves_view(leaves@), num_columns as nat, filter_view(*filter), limit).rows,
{
    let ghost all = leaves_view(leaves@);
    let ghost n = num_columns as nat;
    let ghost fv = filter_view(*filter);
    let mut rows: Vec<Vec<Value>> = Vec::new();
    let mut full = false;
    let mut i: usize = 0;
    proof {
        assert(all.take(0).len() == 0);
        assert(rows_view(rows@) =~= Seq::empty());
    }
    while i < leaves.len()
        invariant
            i <= leaves.len(),
            is_unit(u),
            all == leaves_view(leaves@),
            n == num_columns,
            fv == filter_view(*filter),
            forall|i: int| 0 <= i < leaves@.len() ==> leaf_fits(#[trigger] all[i], n),
            (Found { rows: rows_view(rows@), full }) == vector_scan(model(u), all.take(i as int), n, fv, limit),
        decreases leaves.len() - i,
    {
        proof {
            assert(all.take(i + 1).drop_last() =~= all.take(i as int));
            assert(all.take(i + 1).last() == all[i as int]);
            assert(all[i as int] == bytes_view(leaves@[i as int]@));
            assert(leaf_fits(all[i as int], n));
        }
        if !full {
            match deserialize_batch(&leaves[i], num_columns) {
                Some(b) => {
                    proof {
                        let c = vectors_view(b.columns@);
                        let stored = stored_rows(all[i as int], n)->0;
                        assert(c == batch_columns(stored, n));
                        assert forall|k: int| 0 <= k < b.columns@.len() implies covers((#[trigger] b.columns@[k])@, b.num_rows as int) by {
                            assert(c[k] == b.columns@[k]@);
                            assert(covers(batch_columns(stored, n)[k], all[i as int].len() as int));
                        }
                    }
                    let mut more = filter_batch(u, &b, filter);
                    let ghost a = rows@;
                    let ghost m = more@;
                    rows.append(&mut more);
                    assert(rows_view(rows@) =~= rows_view(a) + rows_view(m));
                    if let Some(l) = limit {
                        if rows.len() >= l {
                            let ghost whole = rows@;
                            rows.truncate(l);
                            assert(rows_view(rows@) =~= rows_view(whole).take(l as int));
                            full = true;
                        }
                    }
                },
                None => {},
            }
        }
        i = i + 1;
    }
    assert(all.take(leaves.len() as int) =~= all);
    rows
}

/// A scan finds no more rows than are asked for.
pub proof fn law_vector_scan_is_bounded(m: Unit, leaves: Seq<Seq<Seq<u8>>>, n: nat, f: Option<FastFilterView>, limit: usize)
    ensures
        vector_scan(m, leaves, n, f, Some(limit)).rows.len() <= limit,
    decreases leaves.len(),
{
    if leaves.len() > 0 {
        law_vector_scan_is_bounded(m, leaves.drop_last(), n, f, limit);
    }
}

} // verus!
