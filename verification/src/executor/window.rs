use vstd::prelude::*;
use vstd::string::*;
use crate::text::text_is;
use crate::value::{Order, Value, ValueView, rows_view, values_push, values_view};
use super::aggregate::{given_count, number_count, number_sum};
use super::functions::extreme;
use super::relation::{place_of, row_key, same_key, same_row};
use super::sort::{Direction, key_after, sort_indices, sorted};
use super::unit::{Ask, FloatOp, Reply, Unit, ask_float, ask_op, float_of, float_op, is_unit, model};

verus! {

/// The views of a column that may be missing.
pub open spec fn opt_values(c: Option<Vec<Value>>) -> Option<Seq<ValueView>> {
    match c {
        Some(c) => Some(values_view(c@)),
        None => None,
    }
}

/// The places below `n` whose partition is that of row `i`, in order.
pub open spec fn partition_of(parts: Seq<Seq<ValueView>>, i: int, n: int) -> Seq<usize>
    decreases n,
{
    if n <= 0 {
        Seq::empty()
    } else if row_key(parts[n - 1]) == row_key(parts[i]) {
        partition_of(parts, i, n - 1).push((n - 1) as usize)
    } else {
        partition_of(parts, i, n - 1)
    }
}

/// The partition of row `i`, sorted where the window is ordered.
pub open spec fn window_of(
    m: Unit,
    parts: Seq<Seq<ValueView>>,
    keys: Seq<Seq<ValueView>>,
    d: Seq<Direction>,
    i: int,
) -> Seq<usize> {
    let p = partition_of(parts, i, parts.len() as int);
    if d.len() == 0 {
        p
    } else {
        sorted(p, key_after(m, keys, d))
    }
}

/// RANK at place `p`: one more than the rows before those with the same sort keys.
pub open spec fn rank_at(w: Seq<usize>, keys: Seq<Seq<ValueView>>, p: int) -> int
    decreases p,
{
    if p <= 0 {
        1
    } else if keys[w[p] as int] != keys[w[p - 1] as int] {
        p + 1
    } else {
        rank_at(w, keys, p - 1)
    }
}

/// DENSE_RANK at place `p`: one more than the changes of the sort keys before it.
pub open spec fn dense_rank_at(w: Seq<usize>, keys: Seq<Seq<ValueView>>, p: int) -> int
    decreases p,
{
    if p <= 0 {
        1
    } else if keys[w[p] as int] != keys[w[p - 1] as int] {
        dense_rank_at(w, keys, p - 1) + 1
    } else {
        dense_rank_at(w, keys, p - 1)
    }
}

/// The column's values at the given places.
pub open spec fn values_at(col: Seq<ValueView>, at: Seq<usize>) -> Seq<ValueView> {
    Seq::new(at.len(), |i: int| col[at[i] as int])
}

/// What the functions that number the rows of a window give at place `p`.
pub open spec fn numbering(f: Seq<char>, w: Seq<usize>, keys: Seq<Seq<ValueView>>, p: int) -> Option<ValueView> {
    if f == "ROW_NUMBER"@ {
        Some(ValueView::Int64((p + 1) as i64))
    } else if f == "RANK"@ {
        Some(ValueView::Int64(rank_at(w, keys, p) as i64))
    } else if f == "DENSE_RANK"@ {
        Some(ValueView::Int64(dense_rank_at(w, keys, p) as i64))
    } else {
        None
    }
}

/// What the functions that run over the rows of a window up to place `p` give; `v` holds the
/// column's values up to there.
pub open spec fn running(m: Unit, f: Seq<char>, v: Option<Seq<ValueView>>, p: int) -> Option<ValueView> {
    if f == "COUNT"@ {
        Some(ValueView::Int64(match v { Some(v) => given_count(v) as i64, None => (p + 1) as i64 }))
    } else if f == "SUM"@ {
        Some(ValueView::Float64(match v { Some(v) => number_sum(m, v), None => 0 }))
    } else if f == "AVG"@ {
        Some(
            match v {
                Some(v) => if number_count(v) > 0 {
                    ValueView::Float64(
                        float_op(m, FloatOp::Over, number_sum(m, v), float_of(m, number_count(v) as i128)),
                    )
                } else {
                    ValueView::Null
                },
                None => ValueView::Null,
            },
        )
    } else if f == "MIN"@ {
        Some(match v { Some(v) => extreme(m, v, Order::Less, ValueView::Null), None => ValueView::Null })
    } else if f == "MAX"@ {
        Some(match v { Some(v) => extreme(m, v, Order::Greater, ValueView::Null), None => ValueView::Null })
    } else {
        None
    }
}

/// What LAG and LEAD give at place `p`: the column's value so many rows before or behind it.
pub open spec fn shifted(f: Seq<char>, w: Seq<usize>, col: Option<Seq<ValueView>>, offset: nat, p: int) -> ValueView {
    let q = if f == "LAG"@ { p - offset } else { p + offset };
    if (f == "LAG"@ || f == "LEAD"@) && 0 <= q < w.len() {
        match col {
            Some(c) => c[w[q] as int],
            None => ValueView::Null,
        }
    } else {
        ValueView::Null
    }
}

/// What the window function named `f`, in upper case, gives at place `p` of the window `w`.
pub open spec fn window_value(
    m: Unit,
    f: Seq<char>,
    w: Seq<usize>,
    keys: Seq<Seq<ValueView>>,
    col: Option<Seq<ValueView>>,
    offset: nat,
    p: int,
) -> ValueView {
    match numbering(f, w, keys, p) {
        Some(v) => v,
        None => match running(m, f, match col { Some(c) => Some(values_at(c, w.take(p + 1))), None => None }, p) {
            Some(v) => v,
            None => shifted(f, w, col, offset, p),
        },
    }
}

/// What a window function gives for each of the rows: `parts` holds the values that part them,
/// `keys` those that order them, and `col` those of the column that the function is asked for.
pub open spec fn window_column(
    m: Unit,
    f: Seq<char>,
    parts: Seq<Seq<ValueView>>,
    keys: Seq<Seq<ValueView>>,
    d: Seq<Direction>,
    col: Option<Seq<ValueView>>,
    offset: nat,
) -> Seq<ValueView> {
    Seq::new(
        parts.len(),
        |i: int|
            {
                let w = window_of(m, parts, keys, d, i);
                window_value(m, f, w, keys, col, offset, place_of(w, i as usize))
            },
    )
}

fn find_partition(parts: &Vec<Vec<Value>>, i: usize) -> (r: Vec<usize>)
    requires
        i < parts.len(),
    ensures
        r@ == partition_of(rows_view(parts@), i as int, parts@.len() as int),
        forall|k: int| 0 <= k < r@.len() ==> (#[trigger] r@[k]) < parts@.len(),
        r@.contains(i),
{
    let mut r: Vec<usize> = Vec::new();
    let mut n: usize = 0;
    let ghost all = rows_view(parts@);
    while n < parts.len()
        invariant
            n <= parts.len(),
            i < parts.len(),
            all == rows_view(parts@),
            r@ == partition_of(all, i as int, n as int),
            forall|k: int| 0 <= k < r@.len() ==> (#[trigger] r@[k]) < n,
            n > i ==> r@.contains(i),
        decreases parts.len() - n,
    {
        let ghost before = r@;
        if same_key(&parts[n], &parts[i]) {
            r.push(n);
        }
        proof {
            if n > i {
                let k = choose|k: int| 0 <= k < before.len() && before[k] == i;
                assert(r@[k] == i);
            } else if n == i {
                assert(r@[r@.len() - 1] == i);
            }
        }
        n = n + 1;
    }
    r
}

fn find_place(w: &Vec<usize>, i: usize) -> (p: usize)
    requires
        w@.contains(i),
    ensures
        p == place_of(w@, i),
        p < w@.len(),
        w@[p as int] == i,
{
    let mut p: usize = 0;
    assert(w@.skip(0) =~= w@);
    while p < w.len()
        invariant
            p <= w.len(),
            w@.contains(i),
            forall|k: int| 0 <= k < p ==> w@[k] != i,
            place_of(w@, i) == p + place_of(w@.skip(p as int), i),
        decreases w.len() - p,
    {
        assert(w@.skip(p as int)[0] == w@[p as int]);
        if w[p] == i {
            return p;
        }
        assert(w@.skip(p as int).skip(1) =~= w@.skip(p + 1));
        p = p + 1;
    }
    proof {
        let k = choose|k: int| 0 <= k < w@.len() && w@[k] == i;
        assert(false);
    }
    p
}

fn rank(w: &Vec<usize>, keys: &Vec<Vec<Value>>, p: usize) -> (r: usize)
    requires
        p < w.len(),
        forall|k: int| 0 <= k < w@.len() ==> (#[trigger] w@[k]) < keys@.len(),
    ensures
        r == rank_at(w@, rows_view(keys@), p as int),
        r <= p + 1,
{
    let ghost all = rows_view(keys@);
    let mut q: usize = p;
    while q > 0
        invariant
            q <= p < w.len(),
            all == rows_view(keys@),
            forall|k: int| 0 <= k < w@.len() ==> (#[trigger] w@[k]) < keys@.len(),
            rank_at(w@, all, p as int) == rank_at(w@, all, q as int),
        decreases q,
    {
        let a: usize = w[q];
        let b: usize = w[q - 1];
        if !same_row(&keys[a], &keys[b]) {
            return q + 1;
        }
        q = q - 1;
    }
    1
}

fn dense_rank(w: &Vec<usize>, keys: &Vec<Vec<Value>>, p: usize) -> (r: usize)
    requires
        p < w.len(),
        forall|k: int| 0 <= k < w@.len() ==> (#[trigger] w@[k]) < keys@.len(),
    ensures
        r == dense_rank_at(w@, rows_view(keys@), p as int),
{
    let ghost all = rows_view(keys@);
    let mut q: usize = 0;
    let mut r: usize = 1;
    while q < p
        invariant
            q <= p < w.len(),
            all == rows_view(keys@),
            forall|k: int| 0 <= k < w@.len() ==> (#[trigger] w@[k]) < keys@.len(),
            r == dense_rank_at(w@, all, q as int),
            r <= q + 1,
        decreases p - q,
    {
        let a: usize = w[q + 1];
        let b: usize = w[q];
        if !same_row(&keys[a], &keys[b]) {
            r = r + 1;
        }
        q = q + 1;
    }
    r
}

fn numbering_value(f: &str, w: &Vec<usize>, keys: &Vec<Vec<Value>>, p: usize) -> (r: Option<Value>)
    requires
        p < w.len(),
        forall|k: int| 0 <= k < w@.len() ==> (#[trigger] w@[k]) < keys@.len(),
    ensures
        (match r { Some(v) => Some(v@), None => None }) == numbering(f@, w@, rows_view(keys@), p as int),
{
    if text_is(f, "ROW_NUMBER") {
        Some(Value::Int64((p + 1) as i64))
    } else if text_is(f, "RANK") {
        Some(Value::Int64(rank(w, keys, p) as i64))
    } else if text_is(f, "DENSE_RANK") {
        Some(Value::Int64(dense_rank(w, keys, p) as i64))
    } else {
        None
    }
}

fn column_upto(col: &Vec<Value>, w: &Vec<usize>, p: usize) -> (r: Vec<Value>)
    requires
        p < w.len(),
        forall|k: int| 0 <= k < w@.len() ==> (#[trigger] w@[k]) < col@.len(),
    ensures
        values_view(r@) == values_at(values_view(col@), w@.take(p + 1)),
{
    let ghost all = values_at(values_view(col@), w@.take(p + 1));
    let mut r: Vec<Value> = Vec::new();
    let mut i: usize = 0;
    assert(values_view(r@) =~= all.take(0));
    while i <= p
        invariant
            i <= p + 1,
            p < w.len(),
            forall|k: int| 0 <= k < w@.len() ==> (#[trigger] w@[k]) < col@.len(),
            all == values_at(values_view(col@), w@.take(p + 1)),
            values_view(r@) == all.take(i as int),
        decreases p + 1 - i,
    {
        let v = col[w[i]].dup();
        proof {
            values_push(r@, v);
            assert(all[i as int] == v@);
            assert(all.take(i + 1) =~= all.take(i as int).push(v@));
        }
        r.push(v);
        i = i + 1;
    }
    assert(all.take(p + 1) =~= all);
    r
}

fn running_value<U: Fn(Ask) -> Reply>(u: &U, f: &str, v: &Option<Vec<Value>>, p: usize) -> (r: Option<Value>)
    requires
        is_unit(u),
        p < usize::MAX,
    ensures
        (match r { Some(x) => Some(x@), None => None }) == running(
            model(u),
            f@,
            opt_values(*v),
            p as int,
        ),
{
    if text_is(f, "COUNT") {
        match v {
            Some(v) => Some(Value::Int64(super::aggregate::count_given(v) as i64)),
            None => Some(Value::Int64((p + 1) as i64)),
        }
    } else if text_is(f, "SUM") {
        match v {
            Some(v) => Some(Value::Float64(super::aggregate::add_numbers(u, v).0)),
            None => Some(Value::Float64(0)),
        }
    } else if text_is(f, "AVG") {
        match v {
            Some(v) => {
                let (sum, n) = super::aggregate::add_numbers(u, v);
                if n > 0 {
                    let d: u64 = ask_float(u, n as i128);
                    Some(Value::Float64(ask_op(u, FloatOp::Over, sum, d)))
                } else {
                    Some(Value::Null)
                }
            },
            None => Some(Value::Null),
        }
    } else if text_is(f, "MIN") {
        match v {
            Some(v) => Some(super::functions::find_extreme(u, v, Order::Less)),
            None => Some(Value::Null),
        }
    } else if text_is(f, "MAX") {
        match v {
            Some(v) => Some(super::functions::find_extreme(u, v, Order::Greater)),
            None => Some(Value::Null),
        }
    } else {
        None
    }
}

fn shifted_value(f: &str, w: &Vec<usize>, col: &Option<Vec<Value>>, offset: u64, p: usize) -> (r: Value)
    requires
        p < w.len(),
        *col matches Some(c) ==> forall|k: int| 0 <= k < w@.len() ==> (#[trigger] w@[k]) < c@.len(),
    ensures
        r@ == shifted(
            f@,
            w@,
            opt_values(*col),
            offset as nat,
            p as int,
        ),
{
    let lag = text_is(f, "LAG");
    let lead = text_is(f, "LEAD");
    let q: usize = if lag {
        if offset > p as u64 {
            return Value::Null;
        }
        p - offset as usize
    } else if lead {
        if offset >= (w.len() - p) as u64 {
            return Value::Null;
        }
        p + offset as usize
    } else {
        return Value::Null;
    };
    match col {
        Some(c) => c[w[q]].dup(),
        None => Value::Null,
    }
}

fn value_in_window<U: Fn(Ask) -> Reply>(
    u: &U,
    f: &str,
    w: &Vec<usize>,
    keys: &Vec<Vec<Value>>,
    col: &Option<Vec<Value>>,
    offset: u64,
    p: usize,
) -> (r: Value)
    requires
        is_unit(u),
        p < w.len(),
        forall|k: int| 0 <= k < w@.len() ==> (#[trigger] w@[k]) < keys@.len(),
        *col matches Some(c) ==> c@.len() == keys@.len(),
    ensures
        r@ == window_value(
            model(u),
            f@,
            w@,
            rows_view(keys@),
            opt_values(*col),
            offset as nat,
            p as int,
        ),
{
    match numbering_value(f, w, keys, p) {
        Some(v) => {
            return v;
        },
        None => {},
    }
    let v: Option<Vec<Value>> = match col {
        Some(c) => Some(column_upto(c, w, p)),
        None => None,
    };
    match running_value(u, f, &v, p) {
        Some(v) => {
            return v;
        },
        None => {},
    }
    shifted_value(f, w, col, offset, p)
}

proof fn lemma_sorted_has(s: Seq<usize>, after: spec_fn(usize, usize) -> bool, i: usize)
    requires
        s.contains(i),
    ensures
        sorted(s, after).contains(i),
{
    broadcast use vstd::seq_lib::group_to_multiset_ensures;

    super::sort::law_sort_permutes(s, after);
    assert(s.to_multiset().count(i) > 0);
    assert(sorted(s, after).to_multiset().count(i) > 0);
}

/// Computes a window function for each of the rows.
pub fn compute_window_function<U: Fn(Ask) -> Reply>(
    u: &U,
    f: &str,
    parts: &Vec<Vec<Value>>,
    keys: &Vec<Vec<Value>>,
    d: &Vec<Direction>,
    col: &Option<Vec<Value>>,
    offset: u64,
) -> (r: Vec<Value>)
    requires
        is_unit(u),
        keys@.len() == parts@.len(),
        *col matches Some(c) ==> c@.len() == parts@.len(),
    ensures
        values_view(r@) == window_column(
            model(u),
            f@,
            rows_view(parts@),
            rows_view(keys@),
            d@,
            opt_values(*col),
            offset as nat,
        ),
        r@.len() == parts@.len(),
{
    let ghost c = opt_values(*col);
    let ghost all = window_column(model(u), f@, rows_view(parts@), rows_view(keys@), d@, c, offset as nat);
    let mut r: Vec<Value> = Vec::new();
    let mut i: usize = 0;
    assert(values_view(r@) =~= all.take(0));
    while i < parts.len()
        invariant
            i <= parts.len(),
            r@.len() == i,
            is_unit(u),
            keys@.len() == parts@.len(),
            *col matches Some(x) ==> x@.len() == parts@.len(),
            c == opt_values(*col),
            all == window_column(model(u), f@, rows_view(parts@), rows_view(keys@), d@, c, offset as nat),
            values_view(r@) == all.take(i as int),
        decreases parts.len() - i,
    {
        let p = find_partition(parts, i);
        let w = if d.len() == 0 {
            p
        } else {
            proof {
                lemma_sorted_has(p@, key_after(model(u), rows_view(keys@), d@), i);
            }
            sort_indices(u, &p, keys, d)
        };
        let at: usize = find_place(&w, i);
        let v = value_in_window(u, f, &w, keys, col, offset, at);
        proof {
            values_push(r@, v);
            assert(w@ == window_of(model(u), rows_view(parts@), rows_view(keys@), d@, i as int));
            assert(all[i as int] == v@);
            assert(all.take(i + 1) =~= all.take(i as int).push(v@));
        }
        r.push(v);
        i = i + 1;
    }
    assert(all.take(parts.len() as int) =~= all);
    r
}

} // verus!
