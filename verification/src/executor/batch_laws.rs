use vstd::prelude::*;
use vstd::utf8::{encode_utf8, encode_utf8_decode_utf8, encode_utf8_valid_utf8};
use crate::value::ValueView;
use super::batch::{CellView, batch_columns, cell_at, cell_value, cells_upto, column_from, column_len, covers, filled_column, number4, number8, row_at, stored_row, stored_rows, tag_of};

verus! {

/// A number in four bytes, the least one first.
pub open spec fn bytes4(n: int) -> Seq<u8> {
    seq![(n % 256) as u8, (n / 256 % 256) as u8, (n / 65536 % 256) as u8, (n / 16777216 % 256) as u8]
}

/// A number in eight bytes, the least one first.
pub open spec fn bytes8(n: u64) -> Seq<u8> {
    bytes4(n as int % 0x1_0000_0000) + bytes4(n as int / 0x1_0000_0000)
}

/// A value as it is stored: its tag, and what follows it.
pub open spec fn value_bytes(v: ValueView) -> Seq<u8> {
    match v {
        ValueView::Bool(b) => seq![1u8, if b { 1u8 } else { 0u8 }],
        ValueView::Int64(n) => seq![2u8] + bytes8(n as u64),
        ValueView::Float64(b) => seq![3u8] + bytes8(b),
        ValueView::Text(s) => seq![4u8] + bytes4(encode_utf8(s).len() as int) + encode_utf8(s),
        _ => seq![0u8],
    }
}

/// Values one behind the other.
pub open spec fn values_bytes(v: Seq<ValueView>) -> Seq<u8>
    decreases v.len(),
{
    if v.len() == 0 {
        Seq::empty()
    } else {
        values_bytes(v.drop_last()) + value_bytes(v.last())
    }
}

/// A row as it is stored: the number of its values, and the values.
pub open spec fn row_bytes(v: Seq<ValueView>) -> Seq<u8> {
    seq![v.len() as u8] + values_bytes(v)
}

pub open spec fn rows_bytes(rows: Seq<Seq<ValueView>>) -> Seq<Seq<u8>> {
    Seq::new(rows.len(), |i: int| row_bytes(rows[i]))
}

/// Whether a value can be stored under a tag: it is null, or of the tag's type, and a text has a
/// length that fits.
pub open spec fn fits(v: ValueView, tag: u8) -> bool {
    match v {
        ValueView::Null => true,
        ValueView::Bool(_) => tag == 1,
        ValueView::Int64(_) => tag == 2,
        ValueView::Float64(_) => tag == 3,
        ValueView::Text(s) => tag == 4 && encode_utf8(s).len() < 0x1_0000_0000,
        _ => false,
    }
}

pub open spec fn cell_of(v: ValueView) -> CellView {
    match v {
        ValueView::Bool(b) => CellView::Bool(b),
        ValueView::Int64(n) => CellView::Int(n),
        ValueView::Float64(b) => CellView::Float(b),
        ValueView::Text(s) => CellView::Text(s),
        _ => CellView::Null,
    }
}

pub open spec fn cells_of(v: Seq<ValueView>) -> Seq<CellView> {
    Seq::new(v.len(), |i: int| cell_of(v[i]))
}

pub open spec fn cell_table(rows: Seq<Seq<ValueView>>) -> Seq<Seq<CellView>> {
    Seq::new(rows.len(), |i: int| cells_of(rows[i]))
}

proof fn lemma_bytes4(n: int)
    requires
        0 <= n < 0x1_0000_0000,
    ensures
        bytes4(n).len() == 4,
        number4(bytes4(n), 0) == n,
{
    let a = n / 256;
    let b = a / 256;
    let c = b / 256;
    assert(n / 65536 == b);
    assert(n / 16777216 == c);
    assert(0 <= c < 256);
}

proof fn lemma_bytes8(n: u64)
    ensures
        bytes8(n).len() == 8,
        number8(bytes8(n), 0) == n,
{
    let l = n as int % 0x1_0000_0000;
    let h = n as int / 0x1_0000_0000;
    lemma_bytes4(l);
    lemma_bytes4(h);
    assert(number4(bytes8(n), 0) == number4(bytes4(l), 0));
    assert(number4(bytes8(n), 4) == number4(bytes4(h), 0));
}

proof fn lemma_sign(n: i64)
    ensures
        (n as u64) as i64 == n,
{
    assert((n as u64) as i64 == n) by (bit_vector);
}

/// A stored value is read where it stands.
#[verifier::spinoff_prover]
proof fn lemma_cell(d: Seq<u8>, p: int, v: ValueView, tag: u8)
    requires
        fits(v, tag),
        0 <= p,
        p + value_bytes(v).len() <= d.len(),
        d.subrange(p, p + value_bytes(v).len()) == value_bytes(v),
    ensures
        cell_at(d, p) == Some((cell_of(v), p + value_bytes(v).len())),
{
    let b = value_bytes(v);
    assert forall|i: int| 0 <= i < b.len() implies d[p + i] == #[trigger] b[i] by {
        assert(d.subrange(p, p + b.len())[i] == d[p + i]);
    }
    assert(d[p + 0] == b[0]);
    match v {
        ValueView::Bool(x) => {
            assert(d[p + 1] == b[1]);
        },
        ValueView::Int64(n) => {
            lemma_bytes8(n as u64);
            lemma_number8(d, p, b, n as u64);
            lemma_sign(n);
        },
        ValueView::Float64(n) => {
            lemma_bytes8(n);
            lemma_number8(d, p, b, n);
        },
        ValueView::Text(s) => {
            let n = encode_utf8(s).len() as int;
            lemma_bytes4(n);
            assert(b[1] == bytes4(n)[0] && b[2] == bytes4(n)[1] && b[3] == bytes4(n)[2] && b[4] == bytes4(n)[3]);
            assert(d[p + 1] == b[1] && d[p + 2] == b[2] && d[p + 3] == b[3] && d[p + 4] == b[4]);
            assert(number4(d, p + 1) == n);
            let text = d.subrange(p + 5, p + 5 + n);
            assert(text =~= encode_utf8(s)) by {
                assert forall|i: int| 0 <= i < n implies text[i] == encode_utf8(s)[i] by {
                    assert(d[p + (5 + i)] == b[5 + i]);
                }
            }
            encode_utf8_valid_utf8(s);
            encode_utf8_decode_utf8(s);
        },
        _ => {},
    }
}

proof fn lemma_number8(d: Seq<u8>, p: int, b: Seq<u8>, n: u64)
    requires
        0 <= p,
        p + 9 <= d.len(),
        b.len() == 9,
        forall|i: int| 0 <= i < b.len() ==> d[p + i] == #[trigger] b[i],
        b.subrange(1, 9) =~= bytes8(n),
    ensures
        number8(d, p + 1) == n,
{
    lemma_bytes8(n);
    let e = bytes8(n);
    assert forall|i: int| 0 <= i < 8 implies d[p + 1 + i] == #[trigger] e[i] by {
        assert(b.subrange(1, 9)[i] == b[1 + i]);
        assert(d[p + (1 + i)] == b[1 + i]);
    }
    assert(d[p + 1] == e[0] && d[p + 2] == e[1] && d[p + 3] == e[2] && d[p + 4] == e[3]);
    assert(d[p + 5] == e[4] && d[p + 6] == e[5] && d[p + 7] == e[6] && d[p + 8] == e[7]);
    assert(number4(d, p + 1) == number4(e, 0));
    assert(number4(d, p + 1 + 4) == number4(e, 4));
}

/// A value of a stored row stands behind those before it.
#[verifier::spinoff_prover]
proof fn lemma_place(v: Seq<ValueView>, k: int)
    requires
        0 < k <= v.len(),
    ensures
        ({
            let p = 1 + values_bytes(v.take(k - 1)).len() as int;
            let b = value_bytes(v[k - 1]);
            &&& p + b.len() <= row_bytes(v).len()
            &&& row_bytes(v).subrange(p, p + b.len()) == b
            &&& values_bytes(v.take(k)).len() + 1 == p + b.len()
        }),
{
    lemma_front(v, k);
    assert(v.take(k).drop_last() =~= v.take(k - 1));
    assert(v.take(k).last() == v[k - 1]);
    let d = row_bytes(v);
    let p = 1 + values_bytes(v.take(k - 1)).len() as int;
    let b = value_bytes(v[k - 1]);
    let whole = values_bytes(v);
    let front = values_bytes(v.take(k));
    assert(front == values_bytes(v.take(k - 1)) + b);
    assert forall|i: int| 0 <= i < b.len() implies d.subrange(p, p + b.len())[i] == b[i] by {
        assert(d[p + i] == whole[p + i - 1]);
        assert(whole.subrange(0, front.len() as int)[p + i - 1] == front[p + i - 1]);
    }
    assert(d.subrange(p, p + b.len()) =~= b);
}

/// Stored values are read one behind the other.
#[verifier::spinoff_prover]
proof fn lemma_cells(v: Seq<ValueView>, tags: Seq<u8>, k: int)
    requires
        v.len() <= 255,
        tags.len() == v.len(),
        forall|i: int| 0 <= i < v.len() ==> fits(#[trigger] v[i], tags[i]),
        0 <= k <= v.len(),
    ensures
        cells_upto(row_bytes(v), k as nat) == Some((cells_of(v.take(k)), 1 + values_bytes(v.take(k)).len() as int)),
    decreases k,
{
    if k == 0 {
        assert(v.take(0) =~= Seq::empty());
        assert(cells_of(v.take(0)) =~= Seq::empty());
    } else {
        lemma_cells(v, tags, k - 1);
        lemma_place(v, k);
        let p = 1 + values_bytes(v.take(k - 1)).len() as int;
        lemma_cell(row_bytes(v), p, v[k - 1], tags[k - 1]);
        assert(cells_of(v.take(k)) =~= cells_of(v.take(k - 1)).push(cell_of(v[k - 1])));
    }
}

proof fn lemma_front(v: Seq<ValueView>, k: int)
    requires
        0 <= k <= v.len(),
    ensures
        values_bytes(v.take(k)).len() <= values_bytes(v).len(),
        values_bytes(v).subrange(0, values_bytes(v.take(k)).len() as int) == values_bytes(v.take(k)),
    decreases v.len(),
{
    if k == v.len() {
        assert(v.take(k) =~= v);
        assert(values_bytes(v).subrange(0, values_bytes(v).len() as int) =~= values_bytes(v));
    } else {
        let d = v.drop_last();
        lemma_front(d, k);
        assert(d.take(k) =~= v.take(k));
        let n = values_bytes(v.take(k)).len() as int;
        assert(values_bytes(v).subrange(0, n) =~= values_bytes(d).subrange(0, n));
    }
}

proof fn lemma_row(v: Seq<ValueView>, tags: Seq<u8>)
    requires
        v.len() <= 255,
        tags.len() == v.len(),
        forall|i: int| 0 <= i < v.len() ==> fits(#[trigger] v[i], tags[i]),
    ensures
        stored_row(row_bytes(v), v.len()) == Some(cells_of(v)),
{
    lemma_cells(v, tags, v.len() as int);
    assert(v.take(v.len() as int) =~= v);
}

proof fn lemma_rows(rows: Seq<Seq<ValueView>>, tags: Seq<u8>)
    requires
        tags.len() <= 255,
        forall|i: int| 0 <= i < rows.len() ==> (#[trigger] rows[i]).len() == tags.len(),
        forall|i: int, c: int| 0 <= i < rows.len() && 0 <= c < tags.len() ==> fits(#[trigger] rows[i][c], tags[c]),
    ensures
        stored_rows(rows_bytes(rows), tags.len()) == Some(cell_table(rows)),
    decreases rows.len(),
{
    if rows.len() == 0 {
        assert(cell_table(rows) =~= Seq::empty());
    } else {
        let d = rows.drop_last();
        assert forall|i: int| 0 <= i < d.len() implies (#[trigger] d[i]).len() == tags.len() by {
            assert(d[i] == rows[i]);
        }
        assert forall|i: int, c: int| 0 <= i < d.len() && 0 <= c < tags.len() implies fits(#[trigger] d[i][c], tags[c]) by {
            assert(fits(rows[i][c], tags[c]));
        }
        lemma_rows(d, tags);
        assert(rows_bytes(rows).drop_last() =~= rows_bytes(d));
        let last = rows.last();
        assert(last == rows[rows.len() - 1]);
        assert forall|c: int| 0 <= c < last.len() implies fits(#[trigger] last[c], tags[c]) by {
            assert(fits(rows[rows.len() - 1][c], tags[c]));
        }
        lemma_row(last, tags);
        assert(cell_table(rows) =~= cell_table(d).push(cells_of(last)));
    }
}

/// Whether a column's values are null or of one type, and where the type is not a number the first
/// value is not null. Numbers are whole ones and points in time.
pub open spec fn uniform(rows: Seq<Seq<CellView>>, c: int, tag: u8) -> bool {
    &&& tag == 1 || tag == 2 || tag == 3 || tag == 4 || tag == 7
    &&& forall|i: int| 0 <= i < rows.len() ==> (#[trigger] rows[i])[c] is Null || (tag_of(rows[i][c]) == tag && rows[i][c] !is Other)
    &&& tag == 2 || tag == 7 || rows.len() == 0 || rows[0][c] !is Null
}

pub open spec fn all_null(rows: Seq<Seq<CellView>>, c: int) -> bool {
    forall|i: int| 0 <= i < rows.len() ==> (#[trigger] rows[i])[c] is Null
}

/// The value that a stored one stands for.
pub open spec fn value_of(c: CellView) -> ValueView {
    match c {
        CellView::Bool(b) => ValueView::Bool(b),
        CellView::Int(n) => ValueView::Int64(n),
        CellView::Float(b) => ValueView::Float64(b),
        CellView::Text(s) => ValueView::Text(s),
        CellView::Stamp(n) => ValueView::Int64(n),
        _ => ValueView::Null,
    }
}

proof fn lemma_filling(rows: Seq<Seq<CellView>>, c: int, tag: u8)
    requires
        uniform(rows, c, tag),
    ensures
        ({
            let f = filled_column(rows, c);
            &&& f.nulls.len() == rows.len()
            &&& f.tag == 255 || f.tag == tag
            &&& f.tag == 255 ==> all_null(rows, c)
            &&& rows.len() > 0 && rows[0][c] !is Null ==> f.tag == tag
            &&& tag == 1 ==> f.bools.len() == rows.len()
            &&& tag == 2 || tag == 7 ==> f.ints.len() == rows.len()
            &&& tag == 3 ==> f.floats.len() == rows.len()
            &&& tag == 4 ==> f.texts.len() == rows.len()
            &&& forall|i: int| 0 <= i < rows.len() ==> #[trigger] f.nulls[i] == (rows[i][c] is Null)
            &&& forall|i: int| 0 <= i < rows.len() && (#[trigger] rows[i])[c] !is Null ==> {
                &&& tag == 1 ==> rows[i][c] == CellView::Bool(f.bools[i])
                &&& tag == 2 ==> rows[i][c] == CellView::Int(f.ints[i])
                &&& tag == 3 ==> rows[i][c] == CellView::Float(f.floats[i])
                &&& tag == 4 ==> rows[i][c] == CellView::Text(f.texts[i])
                &&& tag == 7 ==> rows[i][c] == CellView::Stamp(f.ints[i])
            }
        }),
    decreases rows.len(),
{
    if rows.len() > 0 {
        let d = rows.drop_last();
        assert forall|i: int| 0 <= i < d.len() implies (#[trigger] d[i])[c] is Null || (tag_of(d[i][c]) == tag && d[i][c] !is Other) by {
            assert(d[i] == rows[i]);
        }
        if d.len() > 0 {
            assert(d[0] == rows[0]);
        }
        lemma_filling(d, c, tag);
        let x = rows[rows.len() - 1][c];
        assert(rows.last()[c] == x);
        let f = filled_column(rows, c);
        let g = filled_column(d, c);
        if f.tag == 255 {
            assert forall|i: int| 0 <= i < rows.len() implies (#[trigger] rows[i])[c] is Null by {
                if i < d.len() {
                    assert(d[i][c] is Null);
                }
            }
        }
        assert forall|i: int| 0 <= i < rows.len() implies #[trigger] f.nulls[i] == (rows[i][c] is Null) by {
            if i < d.len() {
                assert(g.nulls[i] == (d[i][c] is Null));
            }
        }
        assert forall|i: int| 0 <= i < rows.len() && (#[trigger] rows[i])[c] !is Null implies {
            &&& tag == 1 ==> rows[i][c] == CellView::Bool(f.bools[i])
            &&& tag == 2 ==> rows[i][c] == CellView::Int(f.ints[i])
            &&& tag == 3 ==> rows[i][c] == CellView::Float(f.floats[i])
            &&& tag == 4 ==> rows[i][c] == CellView::Text(f.texts[i])
            &&& tag == 7 ==> rows[i][c] == CellView::Stamp(f.ints[i])
        } by {
            if i < d.len() {
                assert(d[i] == rows[i]);
            }
        }
    }
}

/// A column whose values are null or of one type comes out with a value for each row, and with the
/// value that is stored there.
pub proof fn law_uniform_columns_cover(rows: Seq<Seq<CellView>>, c: int, tag: u8)
    requires
        uniform(rows, c, tag),
    ensures
        covers(column_from(filled_column(rows, c), rows.len()), rows.len() as int),
        column_len(column_from(filled_column(rows, c), rows.len())) == rows.len(),
        forall|i: int| 0 <= i < rows.len() ==> cell_value(column_from(filled_column(rows, c), rows.len()), i) == value_of(
            (#[trigger] rows[i])[c],
        ),
{
    lemma_filling(rows, c, tag);
    let f = filled_column(rows, c);
    let v = column_from(f, rows.len());
    assert forall|i: int| 0 <= i < rows.len() implies cell_value(v, i) == value_of((#[trigger] rows[i])[c]) by {
        assert(f.nulls[i] == (rows[i][c] is Null));
    }
}

/// Whether the values of a column can be stored and told apart: they fit one tag, and unless that is
/// the tag of whole numbers no null comes before them.
pub open spec fn column_fits(rows: Seq<Seq<ValueView>>, c: int, tag: u8) -> bool {
    &&& 1 <= tag <= 4
    &&& forall|i: int| 0 <= i < rows.len() ==> fits(#[trigger] rows[i][c], tag)
    &&& tag == 2 || rows[0][c] !is Null || forall|i: int| 0 <= i < rows.len() ==> #[trigger] rows[i][c] is Null
}

/// Values that were stored row by row come back from their batch: the rows can be read, there are as
/// many of them, each column has a value for each row, and each row has the values that were stored.
pub proof fn law_stored_values_come_back(rows: Seq<Seq<ValueView>>, tags: Seq<u8>)
    requires
        rows.len() > 0,
        1 <= tags.len() <= 255,
        forall|i: int| 0 <= i < rows.len() ==> (#[trigger] rows[i]).len() == tags.len(),
        forall|c: int| 0 <= c < tags.len() ==> column_fits(rows, c, #[trigger] tags[c]),
    ensures
        stored_rows(rows_bytes(rows), tags.len()) == Some(cell_table(rows)),
        batch_columns(cell_table(rows), tags.len()).len() == tags.len(),
        forall|c: int| 0 <= c < tags.len() ==> {
            &&& covers(#[trigger] batch_columns(cell_table(rows), tags.len())[c], rows.len() as int)
            &&& column_len(batch_columns(cell_table(rows), tags.len())[c]) == rows.len()
        },
        forall|i: int| 0 <= i < rows.len() ==> row_at(batch_columns(cell_table(rows), tags.len()), i) == #[trigger] rows[i],
{
    let n = tags.len();
    let t = cell_table(rows);
    let b = batch_columns(t, n);
    assert forall|i: int, c: int| 0 <= i < rows.len() && 0 <= c < n implies fits(#[trigger] rows[i][c], tags[c]) by {
        assert(column_fits(rows, c, tags[c]));
    }
    lemma_rows(rows, tags);
    assert forall|c: int| 0 <= c < n implies {
        &&& covers(#[trigger] b[c], rows.len() as int)
        &&& column_len(b[c]) == rows.len()
        &&& forall|i: int| 0 <= i < rows.len() ==> cell_value(b[c], i) == #[trigger] rows[i][c]
    } by {
        lemma_column(rows, c, tags[c], n);
    }
    assert forall|i: int| 0 <= i < rows.len() implies row_at(b, i) == #[trigger] rows[i] by {
        assert forall|c: int| 0 <= c < n implies row_at(b, i)[c] == rows[i][c] by {
            assert(covers(b[c], rows.len() as int));
        }
        assert(row_at(b, i) =~= rows[i]);
    }
}

proof fn lemma_column(rows: Seq<Seq<ValueView>>, c: int, tag: u8, n: nat)
    requires
        rows.len() > 0,
        0 <= c < n,
        forall|i: int| 0 <= i < rows.len() ==> (#[trigger] rows[i]).len() == n,
        column_fits(rows, c, tag),
    ensures
        ({
            let v = batch_columns(cell_table(rows), n)[c];
            &&& covers(v, rows.len() as int)
            &&& column_len(v) == rows.len()
            &&& forall|i: int| 0 <= i < rows.len() ==> cell_value(v, i) == #[trigger] rows[i][c]
        }),
{
    let t = cell_table(rows);
    let none = forall|i: int| 0 <= i < rows.len() ==> #[trigger] rows[i][c] is Null;
    let as_tag = if none {
        2u8
    } else {
        tag
    };
    assert forall|i: int| 0 <= i < t.len() implies (#[trigger] t[i])[c] is Null || (tag_of(t[i][c]) == as_tag && t[i][c] !is Other) by {
        assert(fits(rows[i][c], tag));
        assert(t[i][c] == cell_of(rows[i][c]));
    }
    assert(t[0][c] == cell_of(rows[0][c]));
    assert(fits(rows[0][c], tag));
    law_uniform_columns_cover(t, c, as_tag);
    let v = batch_columns(t, n)[c];
    assert forall|i: int| 0 <= i < rows.len() implies cell_value(v, i) == #[trigger] rows[i][c] by {
        assert(t[i][c] == cell_of(rows[i][c]));
        assert(fits(rows[i][c], tag));
        assert(cell_value(v, i) == value_of(t[i][c]));
    }
}

} // verus!
