use vstd::prelude::*;
use vstd::string::*;
use vstd::utf8::{decode_utf8, valid_utf8};
use crate::parser::ast::BinOp;
use crate::value::{Order, Value, ValueView, names_push, names_view, rows_push, rows_view, values_push, values_view};
use super::scalar::{codes, int_order, order_ints, order_texts, seq_order};
use super::unit::{Ask, Reply, Unit, ask_order, is_unit, model, unit_order};

verus! {

/// How many rows a batch is made for.
pub const BATCH_SIZE: usize = 1024;

/// The values of one column, each with a flag that says whether it is null. Floats are bit
/// patterns.
#[derive(Debug)]
pub enum ColumnVector {
    Int64(Vec<i64>, Vec<bool>),
    Float64(Vec<u64>, Vec<bool>),
    Bool(Vec<bool>, Vec<bool>),
    Text(Vec<String>, Vec<bool>),
    Null(usize),
}

/// What contracts say about a `ColumnVector`.
pub enum ColumnVectorView {
    Int64(Seq<i64>, Seq<bool>),
    Float64(Seq<u64>, Seq<bool>),
    Bool(Seq<bool>, Seq<bool>),
    Text(Seq<Seq<char>>, Seq<bool>),
    Null(nat),
}

impl ColumnVector {
    pub open spec fn view(&self) -> ColumnVectorView {
        match self {
            ColumnVector::Int64(v, n) => ColumnVectorView::Int64(v@, n@),
            ColumnVector::Float64(v, n) => ColumnVectorView::Float64(v@, n@),
            ColumnVector::Bool(v, n) => ColumnVectorView::Bool(v@, n@),
            ColumnVector::Text(v, n) => ColumnVectorView::Text(names_view(v@), n@),
            ColumnVector::Null(k) => ColumnVectorView::Null(*k as nat),
        }
    }

    pub fn len(&self) -> (r: usize)
        ensures
            r as nat == column_len(self@),
    {
        match self {
            ColumnVector::Int64(v, _) => v.len(),
            ColumnVector::Float64(v, _) => v.len(),
            ColumnVector::Bool(v, _) => v.len(),
            ColumnVector::Text(v, _) => {
                assert(names_view(v@).len() == v@.len());
                v.len()
            },
            ColumnVector::Null(n) => *n,
        }
    }
}

/// How many values a column holds.
pub open spec fn column_len(c: ColumnVectorView) -> nat {
    match c {
        ColumnVectorView::Int64(v, _) => v.len(),
        ColumnVectorView::Float64(v, _) => v.len(),
        ColumnVectorView::Bool(v, _) => v.len(),
        ColumnVectorView::Text(v, _) => v.len(),
        ColumnVectorView::Null(n) => n,
    }
}

/// Whether a column has a value and a flag for each of `n` rows.
pub open spec fn covers(c: ColumnVectorView, n: int) -> bool {
    match c {
        ColumnVectorView::Int64(v, f) => v.len() >= n && f.len() >= n,
        ColumnVectorView::Float64(v, f) => v.len() >= n && f.len() >= n,
        ColumnVectorView::Bool(v, f) => v.len() >= n && f.len() >= n,
        ColumnVectorView::Text(v, f) => v.len() >= n && f.len() >= n,
        ColumnVectorView::Null(_) => true,
    }
}

/// The value of a column in row `i`.
pub open spec fn cell_value(c: ColumnVectorView, i: int) -> ValueView {
    match c {
        ColumnVectorView::Int64(v, f) => if f[i] { ValueView::Null } else { ValueView::Int64(v[i]) },
        ColumnVectorView::Float64(v, f) => if f[i] { ValueView::Null } else { ValueView::Float64(v[i]) },
        ColumnVectorView::Bool(v, f) => if f[i] { ValueView::Null } else { ValueView::Bool(v[i]) },
        ColumnVectorView::Text(v, f) => if f[i] { ValueView::Null } else { ValueView::Text(v[i]) },
        ColumnVectorView::Null(_) => ValueView::Null,
    }
}

pub open spec fn vectors_view(s: Seq<ColumnVector>) -> Seq<ColumnVectorView> {
    Seq::new(s.len(), |i: int| s[i]@)
}

/// Rows held column by column.
#[derive(Debug)]
pub struct RecordBatch {
    pub columns: Vec<ColumnVector>,
    pub num_rows: usize,
}

/// The rows that passed a test, by their places.
#[derive(Debug)]
pub struct SelectionVector {
    pub indices: Vec<u16>,
}

/// Whether a comparison holds of two values that stand in an order, or in none.
pub open spec fn passes(op: BinOp, o: Option<Order>) -> bool {
    match op {
        BinOp::Eq => o == Some(Order::Equal),
        BinOp::Neq => o != Some(Order::Equal),
        BinOp::Lt => o == Some(Order::Less),
        BinOp::Gt => o == Some(Order::Greater),
        BinOp::Lte => o == Some(Order::Less) || o == Some(Order::Equal),
        BinOp::Gte => o == Some(Order::Greater) || o == Some(Order::Equal),
        _ => true,
    }
}

fn does_pass(op: BinOp, o: Option<Order>) -> (r: bool)
    ensures
        r == passes(op, o),
{
    match op {
        BinOp::Eq => matches!(o, Some(Order::Equal)),
        BinOp::Neq => !matches!(o, Some(Order::Equal)),
        BinOp::Lt => matches!(o, Some(Order::Less)),
        BinOp::Gt => matches!(o, Some(Order::Greater)),
        BinOp::Lte => matches!(o, Some(Order::Less) | Some(Order::Equal)),
        BinOp::Gte => matches!(o, Some(Order::Greater) | Some(Order::Equal)),
        _ => true,
    }
}

/// The places below `n` that are not null and pass a comparison.
pub open spec fn selected(nulls: Seq<bool>, orders: Seq<Option<Order>>, op: BinOp, n: nat) -> Seq<u16>
    decreases n,
{
    if n == 0 {
        Seq::empty()
    } else {
        let before = selected(nulls, orders, op, (n - 1) as nat);
        if !nulls[n - 1] && passes(op, orders[n - 1]) {
            before.push((n - 1) as u16)
        } else {
            before
        }
    }
}

pub open spec fn int_orders(v: Seq<i64>, l: i64) -> Seq<Option<Order>> {
    Seq::new(v.len(), |i: int| Some(int_order(v[i] as int, l as int)))
}

pub open spec fn float_orders(m: Unit, v: Seq<u64>, l: u64) -> Seq<Option<Order>> {
    Seq::new(v.len(), |i: int| unit_order(m, ValueView::Float64(v[i]), ValueView::Float64(l)))
}

pub open spec fn text_orders(v: Seq<Seq<char>>, l: Seq<char>) -> Seq<Option<Order>> {
    Seq::new(v.len(), |i: int| Some(seq_order(codes(v[i]), codes(l), 0)))
}

/// The values of row `i`.
pub open spec fn row_at(c: Seq<ColumnVectorView>, i: int) -> Seq<ValueView> {
    Seq::new(c.len(), |j: int| cell_value(c[j], i))
}

impl RecordBatch {
    pub fn new(columns: Vec<ColumnVector>, num_rows: usize) -> (r: Self)
        ensures
            r.columns == columns,
            r.num_rows == num_rows,
    {
        RecordBatch { columns, num_rows }
    }

    /// Whether each column has a value for each row.
    pub open spec fn wf(&self) -> bool {
        forall|i: int| 0 <= i < self.columns@.len() ==> covers((#[trigger] self.columns@[i])@, self.num_rows as int)
    }

    pub fn filter_int64_column(&self, col_idx: usize, op: BinOp, literal: i64) -> (r: SelectionVector)
        requires
            self.wf(),
        ensures
            r.indices@ == (if col_idx < self.columns@.len() && self.columns@[col_idx as int] is Int64 {
                selected(
                    self.columns@[col_idx as int]@->Int64_1,
                    int_orders(self.columns@[col_idx as int]@->Int64_0, literal),
                    op,
                    self.num_rows as nat,
                )
            } else {
                Seq::empty()
            }),
    {
        let mut indices: Vec<u16> = Vec::new();
        if col_idx >= self.columns.len() {
            return SelectionVector { indices };
        }
        assert(covers(self.columns@[col_idx as int]@, self.num_rows as int));
        match &self.columns[col_idx] {
            ColumnVector::Int64(values, nulls) => {
                let ghost orders = int_orders(values@, literal);
                let mut i: usize = 0;
                while i < self.num_rows
                    invariant
                        i <= self.num_rows,
                        self.num_rows <= values@.len(),
                        self.num_rows <= nulls@.len(),
                        orders == int_orders(values@, literal),
                        indices@ == selected(nulls@, orders, op, i as nat),
                    decreases self.num_rows - i,
                {
                    assert((i + 1) as nat - 1 == i);
                    if !nulls[i] && does_pass(op, Some(order_ints(values[i] as i128, literal as i128))) {
                        indices.push(#[verifier::truncate] (i as u16));
                    }
                    i = i + 1;
                }
            },
            _ => {},
        }
        SelectionVector { indices }
    }

    pub fn filter_float64_column<U: Fn(Ask) -> Reply>(&self, u: &U, col_idx: usize, op: BinOp, literal: u64) -> (r: SelectionVector)
        requires
            is_unit(u),
            self.wf(),
        ensures
            r.indices@ == (if col_idx < self.columns@.len() && self.columns@[col_idx as int] is Float64 {
                selected(
                    self.columns@[col_idx as int]@->Float64_1,
                    float_orders(model(u), self.columns@[col_idx as int]@->Float64_0, literal),
                    op,
                    self.num_rows as nat,
                )
            } else {
                Seq::empty()
            }),
    {
        let mut indices: Vec<u16> = Vec::new();
        if col_idx >= self.columns.len() {
            return SelectionVector { indices };
        }
        assert(covers(self.columns@[col_idx as int]@, self.num_rows as int));
        let l = Value::Float64(literal);
        match &self.columns[col_idx] {
            ColumnVector::Float64(values, nulls) => {
                let ghost orders = float_orders(model(u), values@, literal);
                let mut i: usize = 0;
                while i < self.num_rows
                    invariant
                        i <= self.num_rows,
                        is_unit(u),
                        l@ == ValueView::Float64(literal),
                        self.num_rows <= values@.len(),
                        self.num_rows <= nulls@.len(),
                        orders == float_orders(model(u), values@, literal),
                        indices@ == selected(nulls@, orders, op, i as nat),
                    decreases self.num_rows - i,
                {
                    assert((i + 1) as nat - 1 == i);
                    let v = Value::Float64(values[i]);
                    let o = ask_order(u, &v, &l);
                    if !nulls[i] && does_pass(op, o) {
                        indices.push(#[verifier::truncate] (i as u16));
                    }
                    i = i + 1;
                }
            },
            _ => {},
        }
        SelectionVector { indices }
    }

    pub fn filter_text_column(&self, col_idx: usize, op: BinOp, literal: &str) -> (r: SelectionVector)
        requires
            self.wf(),
        ensures
            r.indices@ == (if col_idx < self.columns@.len() && self.columns@[col_idx as int] is Text {
                selected(
                    self.columns@[col_idx as int]@->Text_1,
                    text_orders(self.columns@[col_idx as int]@->Text_0, literal@),
                    op,
                    self.num_rows as nat,
                )
            } else {
                Seq::empty()
            }),
    {
        let mut indices: Vec<u16> = Vec::new();
        if col_idx >= self.columns.len() {
            return SelectionVector { indices };
        }
        assert(covers(self.columns@[col_idx as int]@, self.num_rows as int));
        match &self.columns[col_idx] {
            ColumnVector::Text(values, nulls) => {
                let ghost orders = text_orders(names_view(values@), literal@);
                assert(names_view(values@).len() == values@.len());
                let mut i: usize = 0;
                while i < self.num_rows
                    invariant
                        i <= self.num_rows,
                        self.num_rows <= values@.len(),
                        self.num_rows <= nulls@.len(),
                        orders == text_orders(names_view(values@), literal@),
                        indices@ == selected(nulls@, orders, op, i as nat),
                    decreases self.num_rows - i,
                {
                    assert((i + 1) as nat - 1 == i);
                    assert(names_view(values@)[i as int] == values@[i as int]@);
                    if !nulls[i] && does_pass(op, Some(order_texts(values[i].as_str(), literal))) {
                        indices.push(#[verifier::truncate] (i as u16));
                    }
                    i = i + 1;
                }
            },
            _ => {},
        }
        SelectionVector { indices }
    }

    fn make_row(&self, i: usize) -> (r: Vec<Value>)
        requires
            self.wf(),
            i < self.num_rows,
        ensures
            values_view(r@) == row_at(vectors_view(self.columns@), i as int),
    {
        let ghost all = vectors_view(self.columns@);
        let mut row: Vec<Value> = Vec::new();
        let mut j: usize = 0;
        while j < self.columns.len()
            invariant
                j <= self.columns.len(),
                self.wf(),
                i < self.num_rows,
                all == vectors_view(self.columns@),
                values_view(row@) =~= Seq::new(j as nat, |k: int| cell_value(all[k], i as int)),
            decreases self.columns.len() - j,
        {
            assert(covers(self.columns@[j as int]@, self.num_rows as int));
            let v = match &self.columns[j] {
                ColumnVector::Int64(values, nulls) => if nulls[i] { Value::Null } else { Value::Int64(values[i]) },
                ColumnVector::Float64(values, nulls) => if nulls[i] { Value::Null } else { Value::Float64(values[i]) },
                ColumnVector::Bool(values, nulls) => if nulls[i] { Value::Null } else { Value::Bool(values[i]) },
                ColumnVector::Text(values, nulls) => {
                    assert(names_view(values@).len() == values@.len());
                    if nulls[i] { Value::Null } else { Value::Text(values[i].clone()) }
                },
                ColumnVector::Null(_) => Value::Null,
            };
            proof {
                assert(v@ == cell_value(all[j as int], i as int));
                values_push(row@, v);
            }
            row.push(v);
            j = j + 1;
        }
        assert(values_view(row@) =~= row_at(all, i as int));
        row
    }

    /// The rows of a selection.
    pub fn materialize_rows(&self, sel: &SelectionVector) -> (r: Vec<Vec<Value>>)
        requires
            self.wf(),
            forall|j: int| 0 <= j < sel.indices@.len() ==> (#[trigger] sel.indices@[j]) < self.num_rows,
        ensures
            rows_view(r@) == Seq::new(
                sel.indices@.len(),
                |j: int| row_at(vectors_view(self.columns@), sel.indices@[j] as int),
            ),
    {
        let ghost all = vectors_view(self.columns@);
        let mut rows: Vec<Vec<Value>> = Vec::new();
        let mut j: usize = 0;
        while j < sel.indices.len()
            invariant
                j <= sel.indices.len(),
                self.wf(),
                forall|j: int| 0 <= j < sel.indices@.len() ==> (#[trigger] sel.indices@[j]) < self.num_rows,
                all == vectors_view(self.columns@),
                rows_view(rows@) =~= Seq::new(j as nat, |k: int| row_at(all, sel.indices@[k] as int)),
            decreases sel.indices.len() - j,
        {
            let row = self.make_row(sel.indices[j] as usize);
            proof {
                rows_push(rows@, row);
            }
            rows.push(row);
            j = j + 1;
        }
        assert(rows_view(rows@) =~= Seq::new(sel.indices@.len(), |j: int| row_at(all, sel.indices@[j] as int)));
        rows
    }

    /// All rows.
    pub fn materialize_all_rows(&self) -> (r: Vec<Vec<Value>>)
        requires
            self.wf(),
        ensures
            rows_view(r@) == Seq::new(self.num_rows as nat, |i: int| row_at(vectors_view(self.columns@), i)),
    {
        let ghost all = vectors_view(self.columns@);
        let mut rows: Vec<Vec<Value>> = Vec::new();
        let mut i: usize = 0;
        while i < self.num_rows
            invariant
                i <= self.num_rows,
                self.wf(),
                all == vectors_view(self.columns@),
                rows_view(rows@) =~= Seq::new(i as nat, |k: int| row_at(all, k)),
            decreases self.num_rows - i,
        {
            let row = self.make_row(i);
            proof {
                rows_push(rows@, row);
            }
            rows.push(row);
            i = i + 1;
        }
        assert(rows_view(rows@) =~= Seq::new(self.num_rows as nat, |i: int| row_at(all, i)));
        rows
    }
}

/// A selection from a batch of at most as many rows as a place can name holds places of the batch,
/// in order, of values that are not null and pass, and all of these.
pub proof fn law_selected(nulls: Seq<bool>, orders: Seq<Option<Order>>, op: BinOp, n: nat)
    requires
        n <= 65536,
    ensures
        forall|j: int| 0 <= j < selected(nulls, orders, op, n).len() ==> {
            let i = #[trigger] selected(nulls, orders, op, n)[j];
            i < n && !nulls[i as int] && passes(op, orders[i as int])
        },
        forall|j: int, k: int| 0 <= j < k < selected(nulls, orders, op, n).len() ==> #[trigger] selected(nulls, orders, op, n)[j]
            < #[trigger] selected(nulls, orders, op, n)[k],
        forall|i: int| 0 <= i < n && !nulls[i] && passes(op, #[trigger] orders[i]) ==> selected(nulls, orders, op, n).contains(
            i as u16,
        ),
    decreases n,
{
    if n > 0 {
        law_selected(nulls, orders, op, (n - 1) as nat);
        let before = selected(nulls, orders, op, (n - 1) as nat);
        let now = selected(nulls, orders, op, n);
        assert forall|j: int| 0 <= j < now.len() implies {
            let i = #[trigger] now[j];
            i < n && !nulls[i as int] && passes(op, orders[i as int])
        } by {
            if j < before.len() {
                assert(before[j] < n - 1);
            }
        }
        assert forall|j: int, k: int| 0 <= j < k < now.len() implies #[trigger] now[j] < #[trigger] now[k] by {
            if k < before.len() {
                assert(before[j] < before[k]);
            } else {
                assert(before[j] < n - 1);
            }
        }
        assert forall|i: int| 0 <= i < n && !nulls[i] && passes(op, #[trigger] orders[i]) implies now.contains(i as u16) by {
            if i < n - 1 {
                assert(before.contains(i as u16));
                let j = before.index_of(i as u16);
                assert(now[j] == i as u16);
            } else {
                assert(now[now.len() - 1] == i as u16);
            }
        }
    }
}

// ---- reading stored rows

/// A stored value. `Other` stands for values that are skipped.
#[derive(Debug)]
enum Cell {
    Null,
    Bool(bool),
    Int(i64),
    Float(u64),
    Text(String),
    Other(u8),
    Stamp(i64),
}

/// What contracts say about a stored value.
pub enum CellView {
    Null,
    Bool(bool),
    Int(i64),
    Float(u64),
    Text(Seq<char>),
    Other(u8),
    Stamp(i64),
}

impl Cell {
    spec fn view(&self) -> CellView {
        match self {
            Cell::Null => CellView::Null,
            Cell::Bool(b) => CellView::Bool(*b),
            Cell::Int(n) => CellView::Int(*n),
            Cell::Float(f) => CellView::Float(*f),
            Cell::Text(s) => CellView::Text(s@),
            Cell::Other(t) => CellView::Other(*t),
            Cell::Stamp(n) => CellView::Stamp(*n),
        }
    }
}

/// The byte that a stored value begins with.
pub open spec fn tag_of(c: CellView) -> u8 {
    match c {
        CellView::Null => 0,
        CellView::Bool(_) => 1,
        CellView::Int(_) => 2,
        CellView::Float(_) => 3,
        CellView::Text(_) => 4,
        CellView::Other(t) => t,
        CellView::Stamp(_) => 7,
    }
}

/// The number in four bytes from a place on, the least one first.
pub open spec fn number4(d: Seq<u8>, p: int) -> int {
    d[p] + d[p + 1] * 0x100 + d[p + 2] * 0x1_0000 + d[p + 3] * 0x100_0000
}

/// The number in eight bytes from a place on, the least one first.
pub open spec fn number8(d: Seq<u8>, p: int) -> int {
    number4(d, p) + number4(d, p + 4) * 0x1_0000_0000
}

/// The stored value at a place, and the place behind it.
pub open spec fn cell_at(d: Seq<u8>, p: int) -> Option<(CellView, int)> {
    if p >= d.len() {
        None
    } else {
        let q = p + 1;
        if d[p] == 0 {
            Some((CellView::Null, q))
        } else if d[p] == 1 {
            if q >= d.len() {
                None
            } else {
                Some((CellView::Bool(d[q] != 0), q + 1))
            }
        } else if d[p] == 2 || d[p] == 3 || d[p] == 7 {
            if q + 8 > d.len() {
                None
            } else {
                let n = number8(d, q) as u64;
                Some(
                    (
                        if d[p] == 2 {
                            CellView::Int(n as i64)
                        } else if d[p] == 3 {
                            CellView::Float(n)
                        } else {
                            CellView::Stamp(n as i64)
                        },
                        q + 8,
                    ),
                )
            }
        } else if d[p] == 4 || d[p] == 5 || d[p] == 6 {
            if q + 4 > d.len() {
                None
            } else {
                let end = q + 4 + number4(d, q);
                if d[p] == 4 {
                    if end > d.len() || !valid_utf8(d.subrange(q + 4, end)) {
                        None
                    } else {
                        Some((CellView::Text(decode_utf8(d.subrange(q + 4, end))), end))
                    }
                } else {
                    Some((CellView::Other(d[p]), if end > d.len() { d.len() as int } else { end }))
                }
            }
        } else {
            None
        }
    }
}

/// The first `n` values of a stored row, and the place behind them.
pub open spec fn cells_upto(d: Seq<u8>, n: nat) -> Option<(Seq<CellView>, int)>
    decreases n,
{
    if n == 0 {
        Some((Seq::empty(), 1))
    } else {
        match cells_upto(d, (n - 1) as nat) {
            None => None,
            Some((c, p)) => match cell_at(d, p) {
                None => None,
                Some((x, q)) => Some((c.push(x), q)),
            },
        }
    }
}

/// The values of a stored row of `n` columns, whose first byte is their number.
pub open spec fn stored_row(d: Seq<u8>, n: nat) -> Option<Seq<CellView>> {
    if d.len() == 0 || d[0] != n {
        None
    } else {
        match cells_upto(d, n) {
            Some((c, _)) => Some(c),
            None => None,
        }
    }
}

/// Stored rows, all of which must be readable.
pub open spec fn stored_rows(d: Seq<Seq<u8>>, n: nat) -> Option<Seq<Seq<CellView>>>
    decreases d.len(),
{
    if d.len() == 0 {
        Some(Seq::empty())
    } else {
        match (stored_rows(d.drop_last(), n), stored_row(d.last(), n)) {
            (Some(r), Some(x)) => Some(r.push(x)),
            _ => None,
        }
    }
}

/// A column as it is filled. Its type is that of its first value that is not null.
pub struct Filling {
    pub tag: u8,
    pub ints: Seq<i64>,
    pub floats: Seq<u64>,
    pub texts: Seq<Seq<char>>,
    pub bools: Seq<bool>,
    pub nulls: Seq<bool>,
}

pub open spec fn fill_step(f: Filling, c: CellView) -> Filling {
    let tag = if f.tag == 255 {
        if tag_of(c) != 0 {
            tag_of(c)
        } else {
            255u8
        }
    } else {
        f.tag
    };
    match c {
        CellView::Null => if tag == 3 {
            Filling { tag, floats: f.floats.push(0), nulls: f.nulls.push(true), ..f }
        } else if tag == 4 {
            Filling { tag, texts: f.texts.push(Seq::empty()), nulls: f.nulls.push(true), ..f }
        } else if tag == 1 {
            Filling { tag, bools: f.bools.push(false), nulls: f.nulls.push(true), ..f }
        } else {
            Filling { tag, ints: f.ints.push(0), nulls: f.nulls.push(true), ..f }
        },
        CellView::Bool(b) => Filling { tag, bools: f.bools.push(b), nulls: f.nulls.push(false), ..f },
        CellView::Int(n) => Filling { tag, ints: f.ints.push(n), nulls: f.nulls.push(false), ..f },
        CellView::Float(x) => Filling { tag, floats: f.floats.push(x), nulls: f.nulls.push(false), ..f },
        CellView::Text(s) => Filling { tag, texts: f.texts.push(s), nulls: f.nulls.push(false), ..f },
        CellView::Other(_) => Filling { tag, texts: f.texts.push(Seq::empty()), nulls: f.nulls.push(true), ..f },
        CellView::Stamp(n) => Filling { tag, ints: f.ints.push(n), nulls: f.nulls.push(false), ..f },
    }
}

/// Column `c` of rows.
pub open spec fn filled_column(rows: Seq<Seq<CellView>>, c: int) -> Filling
    decreases rows.len(),
{
    if rows.len() == 0 {
        Filling {
            tag: 255,
            ints: Seq::empty(),
            floats: Seq::empty(),
            texts: Seq::empty(),
            bools: Seq::empty(),
            nulls: Seq::empty(),
        }
    } else {
        fill_step(filled_column(rows.drop_last(), c), rows.last()[c])
    }
}

pub open spec fn column_from(f: Filling, n: nat) -> ColumnVectorView {
    if f.tag == 1 {
        ColumnVectorView::Bool(f.bools, f.nulls)
    } else if f.tag == 2 || f.tag == 7 {
        ColumnVectorView::Int64(f.ints, f.nulls)
    } else if f.tag == 3 {
        ColumnVectorView::Float64(f.floats, f.nulls)
    } else if f.tag == 4 {
        ColumnVectorView::Text(f.texts, f.nulls)
    } else {
        ColumnVectorView::Null(n)
    }
}

/// The columns of stored rows.
pub open spec fn batch_columns(rows: Seq<Seq<CellView>>, n: nat) -> Seq<ColumnVectorView> {
    Seq::new(n, |c: int| column_from(filled_column(rows, c), rows.len()))
}

/// `String::from_utf8`: the text that bytes encode, where they are valid.
#[verifier::external_body]
fn text_of_bytes(b: Vec<u8>) -> (r: Option<String>)
    ensures
        r is Some <==> valid_utf8(b@),
        r matches Some(s) ==> s@ == decode_utf8(b@),
{
    String::from_utf8(b).ok()
}

fn read4(d: &Vec<u8>, p: usize) -> (r: u32)
    requires
        p + 4 <= d@.len(),
    ensures
        r == number4(d@, p as int),
{
    let n = d.len();
    assert(p + 4 <= n);
    d[p] as u32 + d[p + 1] as u32 * 0x100 + d[p + 2] as u32 * 0x1_0000 + d[p + 3] as u32 * 0x100_0000
}

fn read8(d: &Vec<u8>, p: usize) -> (r: u64)
    requires
        p + 8 <= d@.len(),
    ensures
        r == number8(d@, p as int),
{
    let n = d.len();
    assert(p + 8 <= n);
    let a = read4(d, p);
    let b = read4(d, p + 4);
    a as u64 + b as u64 * 0x1_0000_0000
}

fn copy_bytes(d: &Vec<u8>, from: usize, to: usize) -> (r: Vec<u8>)
    requires
        from <= to <= d@.len(),
    ensures
        r@ == d@.subrange(from as int, to as int),
{
    let mut r: Vec<u8> = Vec::new();
    let mut i: usize = from;
    while i < to
        invariant
            from <= i <= to,
            to <= d@.len(),
            r@ =~= d@.subrange(from as int, i as int),
        decreases to - i,
    {
        r.push(d[i]);
        i = i + 1;
    }
    r
}

fn read_cell(d: &Vec<u8>, p: usize) -> (r: Option<(Cell, usize)>)
    requires
        p <= d@.len(),
    ensures
        (match r { Some((c, q)) => Some((c@, q as int)), None => None }) == cell_at(d@, p as int),
        r matches Some((c, q)) ==> q <= d@.len(),
{
    if p >= d.len() {
        return None;
    }
    let tag = d[p];
    let q = p + 1;
    let left = d.len() - q;
    match tag {
        0 => Some((Cell::Null, q)),
        1 => if left < 1 {
            None
        } else {
            Some((Cell::Bool(d[q] != 0), q + 1))
        },
        2 | 3 | 7 => if left < 8 {
            None
        } else {
            let n = read8(d, q);
            let c = match tag {
                2 => Cell::Int(#[verifier::truncate] (n as i64)),
                3 => Cell::Float(n),
                _ => Cell::Stamp(#[verifier::truncate] (n as i64)),
            };
            Some((c, q + 8))
        },
        4 | 5 | 6 => if left < 4 {
            None
        } else {
            let n = read4(d, q) as usize;
            let start = q + 4;
            if tag == 4 {
                if n > d.len() - start {
                    return None;
                }
                match text_of_bytes(copy_bytes(d, start, start + n)) {
                    Some(s) => Some((Cell::Text(s), start + n)),
                    None => None,
                }
            } else {
                let end = if n > d.len() - start {
                    d.len()
                } else {
                    start + n
                };
                Some((Cell::Other(tag), end))
            }
        },
        _ => None,
    }
}

spec fn cells_view(s: Seq<Cell>) -> Seq<CellView> {
    Seq::new(s.len(), |i: int| s[i]@)
}

spec fn cell_rows(s: Seq<Vec<Cell>>) -> Seq<Seq<CellView>> {
    Seq::new(s.len(), |i: int| cells_view(s[i]@))
}

proof fn lemma_cells_stop(d: Seq<u8>, k: nat, n: nat)
    requires
        k <= n,
        cells_upto(d, k) is None,
    ensures
        cells_upto(d, n) is None,
    decreases n,
{
    if k < n {
        lemma_cells_stop(d, k, (n - 1) as nat);
    }
}

proof fn lemma_rows_stop(d: Seq<Seq<u8>>, n: nat, k: int)
    requires
        0 <= k <= d.len(),
        stored_rows(d.take(k), n) is None,
    ensures
        stored_rows(d, n) is None,
    decreases d.len() - k,
{
    if k < d.len() {
        assert(d.take(k + 1).drop_last() =~= d.take(k));
        lemma_rows_stop(d, n, k + 1);
    } else {
        assert(d.take(k) =~= d);
    }
}

fn read_row(d: &Vec<u8>, n: usize) -> (r: Option<Vec<Cell>>)
    ensures
        (match r { Some(c) => Some(cells_view(c@)), None => None }) == stored_row(d@, n as nat),
        r matches Some(c) ==> c@.len() == n,
{
    if d.len() == 0 || d[0] as usize != n {
        return None;
    }
    let mut out: Vec<Cell> = Vec::new();
    let mut p: usize = 1;
    let mut i: usize = 0;
    assert(cells_view(out@) =~= Seq::empty());
    while i < n
        invariant
            i <= n,
            p <= d@.len(),
            out@.len() == i,
            d@.len() > 0 && d@[0] == n,
            cells_upto(d@, i as nat) == Some((cells_view(out@), p as int)),
        decreases n - i,
    {
        assert((i + 1) as nat - 1 == i);
        match read_cell(d, p) {
            None => {
                proof {
                    assert(cells_upto(d@, (i + 1) as nat) is None);
                    lemma_cells_stop(d@, (i + 1) as nat, n as nat);
                }
                return None;
            },
            Some((c, q)) => {
                let ghost before = out@;
                out.push(c);
                assert(cells_view(out@) =~= cells_view(before).push(c@));
                p = q;
            },
        }
        i = i + 1;
    }
    Some(out)
}

fn read_rows(d: &Vec<Vec<u8>>, n: usize) -> (r: Option<Vec<Vec<Cell>>>)
    ensures
        (match r { Some(c) => Some(cell_rows(c@)), None => None }) == stored_rows(bytes_view(d@), n as nat),
        r matches Some(c) ==> c@.len() == d@.len() && forall|i: int| 0 <= i < c@.len() ==> (#[trigger] c@[i])@.len() == n,
{
    let ghost all = bytes_view(d@);
    let mut out: Vec<Vec<Cell>> = Vec::new();
    let mut i: usize = 0;
    proof {
        assert(all.take(0).len() == 0);
        assert(cell_rows(out@) =~= Seq::empty());
    }
    while i < d.len()
        invariant
            i <= d.len(),
            out@.len() == i,
            all == bytes_view(d@),
            stored_rows(all.take(i as int), n as nat) == Some(cell_rows(out@)),
            forall|i: int| 0 <= i < out@.len() ==> (#[trigger] out@[i])@.len() == n,
        decreases d.len() - i,
    {
        proof {
            assert(all.take(i + 1).drop_last() =~= all.take(i as int));
            assert(all.take(i + 1).last() == d@[i as int]@);
        }
        match read_row(&d[i], n) {
            None => {
                proof {
                    lemma_rows_stop(all, n as nat, i + 1);
                }
                return None;
            },
            Some(row) => {
                let ghost before = out@;
                out.push(row);
                assert(cell_rows(out@) =~= cell_rows(before).push(cells_view(row@)));
            },
        }
        i = i + 1;
    }
    assert(all.take(d.len() as int) =~= all);
    Some(out)
}

pub open spec fn bytes_view(d: Seq<Vec<u8>>) -> Seq<Seq<u8>> {
    Seq::new(d.len(), |i: int| d[i]@)
}

fn fill_column(rows: &Vec<Vec<Cell>>, c: usize, Ghost(n): Ghost<nat>) -> (r: ColumnVector)
    requires
        c < n,
        forall|i: int| 0 <= i < rows@.len() ==> (#[trigger] rows@[i])@.len() == n,
    ensures
        r@ == column_from(filled_column(cell_rows(rows@), c as int), rows@.len()),
{
    let ghost all = cell_rows(rows@);
    let mut tag: u8 = 255;
    let mut ints: Vec<i64> = Vec::new();
    let mut floats: Vec<u64> = Vec::new();
    let mut texts: Vec<String> = Vec::new();
    let mut bools: Vec<bool> = Vec::new();
    let mut nulls: Vec<bool> = Vec::new();
    let mut i: usize = 0;
    proof {
        assert(all.take(0).len() == 0);
        assert(names_view(texts@) =~= Seq::empty());
    }
    while i < rows.len()
        invariant
            i <= rows.len(),
            c < n,
            forall|i: int| 0 <= i < rows@.len() ==> (#[trigger] rows@[i])@.len() == n,
            all == cell_rows(rows@),
            filled_column(all.take(i as int), c as int) == (Filling {
                tag,
                ints: ints@,
                floats: floats@,
                texts: names_view(texts@),
                bools: bools@,
                nulls: nulls@,
            }),
        decreases rows.len() - i,
    {
        proof {
            reveal_strlit("");
            assert(all.take(i + 1).drop_last() =~= all.take(i as int));
            assert(all.take(i + 1).last() == cells_view(rows@[i as int]@));
            assert(cells_view(rows@[i as int]@)[c as int] == rows@[i as int]@[c as int]@);
            assert(""@ =~= Seq::<char>::empty());
        }
        let cell = &rows[i][c];
        let own: u8 = match cell {
            Cell::Null => 0,
            Cell::Bool(_) => 1,
            Cell::Int(_) => 2,
            Cell::Float(_) => 3,
            Cell::Text(_) => 4,
            Cell::Other(t) => *t,
            Cell::Stamp(_) => 7,
        };
        if tag == 255 && own != 0 {
            tag = own;
        }
        match cell {
            Cell::Null => {
                nulls.push(true);
                match tag {
                    3 => floats.push(0),
                    4 => {
                        let e = "".to_string();
                        proof {
                            names_push(texts@, e);
                        }
                        texts.push(e);
                    },
                    1 => bools.push(false),
                    _ => ints.push(0),
                }
            },
            Cell::Bool(b) => {
                nulls.push(false);
                bools.push(*b);
            },
            Cell::Int(v) => {
                nulls.push(false);
                ints.push(*v);
            },
            Cell::Float(v) => {
                nulls.push(false);
                floats.push(*v);
            },
            Cell::Text(s) => {
                nulls.push(false);
                let e = s.clone();
                proof {
                    names_push(texts@, e);
                }
                texts.push(e);
            },
            Cell::Other(_) => {
                nulls.push(true);
                let e = "".to_string();
                proof {
                    names_push(texts@, e);
                }
                texts.push(e);
            },
            Cell::Stamp(v) => {
                nulls.push(false);
                ints.push(*v);
            },
        }
        i = i + 1;
    }
    assert(all.take(rows.len() as int) =~= all);
    match tag {
        1 => ColumnVector::Bool(bools, nulls),
        2 | 7 => ColumnVector::Int64(ints, nulls),
        3 => ColumnVector::Float64(floats, nulls),
        4 => ColumnVector::Text(texts, nulls),
        _ => ColumnVector::Null(rows.len()),
    }
}

/// Reads stored rows of `num_columns` values each into columns.
pub fn deserialize_batch(data_slices: &Vec<Vec<u8>>, num_columns: usize) -> (r: Option<RecordBatch>)
    ensures
        match r {
            Some(b) => {
                &&& data_slices@.len() > 0 && num_columns > 0
                &&& b.num_rows == data_slices@.len()
                &&& stored_rows(bytes_view(data_slices@), num_columns as nat) matches Some(rows) && vectors_view(b.columns@)
                    == batch_columns(rows, num_columns as nat)
            },
            None => data_slices@.len() == 0 || num_columns == 0 || stored_rows(
                bytes_view(data_slices@),
                num_columns as nat,
            ) is None,
        },
{
    if data_slices.len() == 0 || num_columns == 0 {
        return None;
    }
    match read_rows(data_slices, num_columns) {
        None => None,
        Some(rows) => {
            let ghost all = cell_rows(rows@);
            let ghost n = num_columns as nat;
            let mut columns: Vec<ColumnVector> = Vec::new();
            let mut c: usize = 0;
            assert(all.len() == rows@.len());
            while c < num_columns
                invariant
                    c <= num_columns,
                    n == num_columns,
                    all == cell_rows(rows@),
                    all.len() == rows@.len(),
                    forall|i: int| 0 <= i < rows@.len() ==> (#[trigger] rows@[i])@.len() == n,
                    vectors_view(columns@) =~= batch_columns(all, c as nat),
                decreases num_columns - c,
            {
                let v = fill_column(&rows, c, Ghost(n));
                let ghost before = columns@;
                columns.push(v);
                assert(vectors_view(columns@) =~= vectors_view(before).push(v@));
                c = c + 1;
            }
            Some(RecordBatch { columns, num_rows: data_slices.len() })
        },
    }
}

} // verus!
