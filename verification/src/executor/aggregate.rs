use vstd::prelude::*;
use vstd::string::*;
use crate::text::text_is;
use crate::value::{Order, Value, ValueView, dup_values, rows_push, rows_view, values_push, values_view};
use super::functions::{extreme, find_extreme};
use super::relation::{distinct, has_row, law_distinct, same_row, same_value};
use super::scalar::{int128_to_value, int_value};
use super::unit::{Ask, FloatOp, Reply, Unit, ask_float, ask_op, float_of, float_op, is_unit, model};

verus! {

/// The places of the rows with which a group starts, in order.
pub open spec fn group_starts(keys: Seq<Seq<ValueView>>) -> Seq<usize>
    decreases keys.len(),
{
    if keys.len() == 0 {
        Seq::empty()
    } else if keys.drop_last().contains(keys.last()) {
        group_starts(keys.drop_last())
    } else {
        group_starts(keys.drop_last()).push((keys.len() - 1) as usize)
    }
}

/// The places of the rows whose key is `k`, in order.
pub open spec fn places_of_key(keys: Seq<Seq<ValueView>>, k: Seq<ValueView>) -> Seq<usize>
    decreases keys.len(),
{
    if keys.len() == 0 {
        Seq::empty()
    } else if keys.last() == k {
        places_of_key(keys.drop_last(), k).push((keys.len() - 1) as usize)
    } else {
        places_of_key(keys.drop_last(), k)
    }
}

pub fn find_group_starts(keys: &Vec<Vec<Value>>) -> (r: Vec<usize>)
    ensures
        r@ == group_starts(rows_view(keys@)),
        forall|i: int| 0 <= i < r@.len() ==> (#[trigger] r@[i]) < keys@.len(),
{
    let ghost all = rows_view(keys@);
    let mut r: Vec<usize> = Vec::new();
    let mut seen: Vec<Vec<Value>> = Vec::new();
    let mut i: usize = 0;
    assert(r@ =~= group_starts(all.take(0)));
    assert(rows_view(seen@) =~= distinct(all.take(0)));
    while i < keys.len()
        invariant
            i <= keys.len(),
            all == rows_view(keys@),
            r@ == group_starts(all.take(i as int)),
            rows_view(seen@) == distinct(all.take(i as int)),
            forall|k: int| 0 <= k < r@.len() ==> (#[trigger] r@[k]) < i,
        decreases keys.len() - i,
    {
        proof {
            assert(all.take(i + 1).drop_last() =~= all.take(i as int));
            law_distinct(all.take(i as int));
        }
        if !has_row(&seen, &keys[i]) {
            let k = dup_values(&keys[i]);
            proof {
                rows_push(seen@, k);
            }
            seen.push(k);
            r.push(i);
        }
        i = i + 1;
    }
    assert(all.take(keys.len() as int) =~= all);
    r
}

pub fn find_places_of_key(keys: &Vec<Vec<Value>>, key: &Vec<Value>) -> (r: Vec<usize>)
    ensures
        r@ == places_of_key(rows_view(keys@), values_view(key@)),
        forall|i: int| 0 <= i < r@.len() ==> (#[trigger] r@[i]) < keys@.len(),
{
    let ghost all = rows_view(keys@);
    let ghost k = values_view(key@);
    let mut r: Vec<usize> = Vec::new();
    let mut i: usize = 0;
    assert(r@ =~= places_of_key(all.take(0), k));
    while i < keys.len()
        invariant
            i <= keys.len(),
            all == rows_view(keys@),
            k == values_view(key@),
            r@ == places_of_key(all.take(i as int), k),
            forall|j: int| 0 <= j < r@.len() ==> (#[trigger] r@[j]) < i,
        decreases keys.len() - i,
    {
        assert(all.take(i + 1).drop_last() =~= all.take(i as int));
        if same_row(&keys[i], key) {
            r.push(i);
        }
        i = i + 1;
    }
    assert(all.take(keys.len() as int) =~= all);
    r
}

/// How many of the values are not null.
pub open spec fn given_count(v: Seq<ValueView>) -> nat
    decreases v.len(),
{
    if v.len() == 0 {
        0
    } else {
        given_count(v.drop_last()) + (if v.last() is Null { 0nat } else { 1nat })
    }
}

/// The values that are not null.
pub open spec fn given(v: Seq<ValueView>) -> Seq<ValueView>
    decreases v.len(),
{
    if v.len() == 0 {
        Seq::empty()
    } else if v.last() is Null {
        given(v.drop_last())
    } else {
        given(v.drop_last()).push(v.last())
    }
}

pub open spec fn is_number(v: ValueView) -> bool {
    v is Int64 || v is Float64
}

/// How many of the values are numbers.
pub open spec fn number_count(v: Seq<ValueView>) -> nat
    decreases v.len(),
{
    if v.len() == 0 {
        0
    } else {
        number_count(v.drop_last()) + (if is_number(v.last()) { 1nat } else { 0nat })
    }
}

/// The sum of the integers among the values.
pub open spec fn int_sum(v: Seq<ValueView>) -> int
    decreases v.len(),
{
    if v.len() == 0 {
        0
    } else {
        int_sum(v.drop_last()) + (match v.last() { ValueView::Int64(n) => n as int, _ => 0 })
    }
}

/// The sum of the floats among the values, added up from the front.
pub open spec fn float_sum(m: Unit, v: Seq<ValueView>) -> u64
    decreases v.len(),
{
    if v.len() == 0 {
        0
    } else {
        match v.last() {
            ValueView::Float64(f) => float_op(m, FloatOp::Plus, float_sum(m, v.drop_last()), f),
            _ => float_sum(m, v.drop_last()),
        }
    }
}

pub open spec fn has_float(v: Seq<ValueView>) -> bool {
    exists|i: int| 0 <= i < v.len() && #[trigger] v[i] is Float64
}

/// The sum of all the numbers among the values as floats, added up from the front.
pub open spec fn number_sum(m: Unit, v: Seq<ValueView>) -> u64
    decreases v.len(),
{
    if v.len() == 0 {
        0
    } else {
        match v.last() {
            ValueView::Float64(f) => float_op(m, FloatOp::Plus, number_sum(m, v.drop_last()), f),
            ValueView::Int64(n) => float_op(m, FloatOp::Plus, number_sum(m, v.drop_last()), float_of(m, n as i128)),
            _ => number_sum(m, v.drop_last()),
        }
    }
}

/// SUM: null where there is no number, a float where one of the numbers is.
pub open spec fn sum_of(m: Unit, v: Seq<ValueView>) -> ValueView {
    if number_count(v) == 0 {
        ValueView::Null
    } else if has_float(v) {
        ValueView::Float64(float_op(m, FloatOp::Plus, float_sum(m, v), float_of(m, int_sum(v) as i128)))
    } else {
        int_value(m, int_sum(v))
    }
}

/// AVG: null where there is no number.
pub open spec fn avg_of(m: Unit, v: Seq<ValueView>) -> ValueView {
    if number_count(v) == 0 {
        ValueView::Null
    } else {
        ValueView::Float64(float_op(m, FloatOp::Over, number_sum(m, v), float_of(m, number_count(v) as i128)))
    }
}

/// What the aggregate named `f`, in upper case, gives for a group of `n` rows; `v` holds the
/// column that it is asked for, where it is asked for one.
pub open spec fn aggregate(m: Unit, f: Seq<char>, n: nat, v: Option<Seq<ValueView>>) -> ValueView {
    match v {
        None => if f == "COUNT"@ || f == "COUNT_DISTINCT"@ {
            ValueView::Int64(n as i64)
        } else {
            ValueView::Null
        },
        Some(v) => if f == "COUNT"@ {
            ValueView::Int64(given_count(v) as i64)
        } else if f == "COUNT_DISTINCT"@ {
            ValueView::Int64(distinct(given(v)).len() as i64)
        } else if f == "SUM"@ {
            sum_of(m, v)
        } else if f == "AVG"@ {
            avg_of(m, v)
        } else if f == "MIN"@ {
            extreme(m, v, Order::Less, ValueView::Null)
        } else if f == "MAX"@ {
            extreme(m, v, Order::Greater, ValueView::Null)
        } else {
            ValueView::Null
        },
    }
}

pub fn count_given(v: &Vec<Value>) -> (r: usize)
    ensures
        r == given_count(values_view(v@)),
{
    let ghost all = values_view(v@);
    let mut n: usize = 0;
    let mut i: usize = 0;
    assert(all.take(0) =~= Seq::empty());
    while i < v.len()
        invariant
            i <= v.len(),
            n <= i,
            all == values_view(v@),
            n == given_count(all.take(i as int)),
        decreases v.len() - i,
    {
        assert(all.take(i + 1).drop_last() =~= all.take(i as int));
        match &v[i] {
            Value::Null => {},
            _ => {
                n = n + 1;
            },
        }
        i = i + 1;
    }
    assert(all.take(v.len() as int) =~= all);
    n
}

fn has_value(v: &Vec<Value>, x: &Value) -> (r: bool)
    ensures
        r == values_view(v@).contains(x@),
{
    let mut i: usize = 0;
    while i < v.len()
        invariant
            i <= v.len(),
            forall|j: int| 0 <= j < i ==> values_view(v@)[j] != x@,
        decreases v.len() - i,
    {
        if same_value(&v[i], x) {
            assert(values_view(v@)[i as int] == x@);
            return true;
        }
        i = i + 1;
    }
    false
}

fn count_distinct(v: &Vec<Value>) -> (r: usize)
    ensures
        r == distinct(given(values_view(v@))).len(),
{
    let ghost all = values_view(v@);
    let mut seen: Vec<Value> = Vec::new();
    let mut i: usize = 0;
    assert(all.take(0) =~= Seq::empty());
    assert(values_view(seen@) =~= distinct(given(all.take(0))));
    while i < v.len()
        invariant
            i <= v.len(),
            all == values_view(v@),
            values_view(seen@) == distinct(given(all.take(i as int))),
        decreases v.len() - i,
    {
        let ghost g = given(all.take(i as int));
        assert(all.take(i + 1).drop_last() =~= all.take(i as int));
        assert(all.take(i + 1).last() == v@[i as int]@);
        match &v[i] {
            Value::Null => {},
            x => {
                assert(g.push(x@).drop_last() =~= g);
                if !has_value(&seen, x) {
                    let y = x.dup();
                    proof {
                        values_push(seen@, y);
                    }
                    seen.push(y);
                }
            },
        }
        i = i + 1;
    }
    assert(all.take(v.len() as int) =~= all);
    seen.len()
}

fn sum_value<U: Fn(Ask) -> Reply>(u: &U, v: &Vec<Value>) -> (r: Value)
    requires
        is_unit(u),
    ensures
        r@ == sum_of(model(u), values_view(v@)),
{
    let ghost all = values_view(v@);
    let mut sum: i128 = 0;
    let mut fsum: u64 = 0;
    let mut is_float = false;
    let mut any = false;
    let mut i: usize = 0;
    assert(all.take(0) =~= Seq::empty());
    while i < v.len()
        invariant
            i <= v.len(),
            is_unit(u),
            all == values_view(v@),
            sum == int_sum(all.take(i as int)),
            -(0x8000_0000_0000_0000 * i) <= sum <= 0x8000_0000_0000_0000 * i,
            fsum == float_sum(model(u), all.take(i as int)),
            is_float == has_float(all.take(i as int)),
            any == (number_count(all.take(i as int)) > 0),
        decreases v.len() - i,
    {
        let ghost t = all.take(i as int);
        let ghost w = all.take(i + 1);
        assert(w.drop_last() =~= t);
        assert(w.last() == v@[i as int]@);
        assert(i < 0x1_0000_0000_0000_0000);
        match &v[i] {
            Value::Int64(n) => {
                sum = sum + *n as i128;
                any = true;
            },
            Value::Float64(f) => {
                is_float = true;
                fsum = ask_op(u, FloatOp::Plus, fsum, *f);
                any = true;
                assert(w[i as int] is Float64);
            },
            _ => {},
        }
        proof {
            if has_float(t) {
                let k = choose|k: int| 0 <= k < t.len() && #[trigger] t[k] is Float64;
                assert(w[k] is Float64);
            }
            if has_float(w) && !(w.last() is Float64) {
                let k = choose|k: int| 0 <= k < w.len() && #[trigger] w[k] is Float64;
                assert(t[k] is Float64);
            }
        }
        i = i + 1;
    }
    assert(all.take(v.len() as int) =~= all);
    if !any {
        Value::Null
    } else if is_float {
        let k: u64 = ask_float(u, sum);
        Value::Float64(ask_op(u, FloatOp::Plus, fsum, k))
    } else {
        int128_to_value(u, sum)
    }
}

/// The sum of all the numbers as floats, and how many there are.
pub fn add_numbers<U: Fn(Ask) -> Reply>(u: &U, v: &Vec<Value>) -> (r: (u64, usize))
    requires
        is_unit(u),
    ensures
        r.0 == number_sum(model(u), values_view(v@)),
        r.1 == number_count(values_view(v@)),
{
    let ghost all = values_view(v@);
    let mut sum: u64 = 0;
    let mut n: usize = 0;
    let mut i: usize = 0;
    assert(all.take(0) =~= Seq::empty());
    while i < v.len()
        invariant
            i <= v.len(),
            n <= i,
            is_unit(u),
            all == values_view(v@),
            sum == number_sum(model(u), all.take(i as int)),
            n == number_count(all.take(i as int)),
        decreases v.len() - i,
    {
        assert(all.take(i + 1).drop_last() =~= all.take(i as int));
        assert(all.take(i + 1).last() == v@[i as int]@);
        match &v[i] {
            Value::Int64(k) => {
                let f: u64 = ask_float(u, *k as i128);
                sum = ask_op(u, FloatOp::Plus, sum, f);
                n = n + 1;
            },
            Value::Float64(f) => {
                sum = ask_op(u, FloatOp::Plus, sum, *f);
                n = n + 1;
            },
            _ => {},
        }
        i = i + 1;
    }
    assert(all.take(v.len() as int) =~= all);
    (sum, n)
}

fn avg_value<U: Fn(Ask) -> Reply>(u: &U, v: &Vec<Value>) -> (r: Value)
    requires
        is_unit(u),
    ensures
        r@ == avg_of(model(u), values_view(v@)),
{
    let (sum, n) = add_numbers(u, v);
    if n == 0 {
        Value::Null
    } else {
        let d: u64 = ask_float(u, n as i128);
        Value::Float64(ask_op(u, FloatOp::Over, sum, d))
    }
}

/// What an aggregate gives for a group of `n` rows.
pub fn compute_aggregate<U: Fn(Ask) -> Reply>(u: &U, f: &str, n: usize, v: &Option<Vec<Value>>) -> (r: Value)
    requires
        is_unit(u),
    ensures
        r@ == aggregate(model(u), f@, n as nat, match *v { Some(x) => Some(values_view(x@)), None => None }),
{
    match v {
        None => if text_is(f, "COUNT") || text_is(f, "COUNT_DISTINCT") {
            Value::Int64(n as i64)
        } else {
            Value::Null
        },
        Some(v) => if text_is(f, "COUNT") {
            Value::Int64(count_given(v) as i64)
        } else if text_is(f, "COUNT_DISTINCT") {
            Value::Int64(count_distinct(v) as i64)
        } else if text_is(f, "SUM") {
            sum_value(u, v)
        } else if text_is(f, "AVG") {
            avg_value(u, v)
        } else if text_is(f, "MIN") {
            find_extreme(u, v, Order::Less)
        } else if text_is(f, "MAX") {
            find_extreme(u, v, Order::Greater)
        } else {
            Value::Null
        },
    }
}

/// Every row belongs to exactly one group: that of the row with which its group starts.
pub proof fn law_groups_cover(keys: Seq<Seq<ValueView>>, i: int)
    requires
        0 <= i < keys.len() <= usize::MAX,
    ensures
        exists|g: int|
            0 <= g < group_starts(keys).len() && 0 <= (#[trigger] group_starts(keys)[g]) < keys.len()
                && keys[group_starts(keys)[g] as int] == keys[i],
    decreases keys.len(),
{
    let d = keys.drop_last();
    let gs = group_starts(keys);
    if i < keys.len() - 1 {
        law_groups_cover(d, i);
        let g = choose|g: int|
            0 <= g < group_starts(d).len() && 0 <= (#[trigger] group_starts(d)[g]) < d.len()
                && d[group_starts(d)[g] as int] == d[i];
        assert(gs[g] == group_starts(d)[g]);
        assert(keys[gs[g] as int] == keys[i]);
    } else if d.contains(keys.last()) {
        let j = choose|j: int| 0 <= j < d.len() && d[j] == keys.last();
        law_groups_cover(d, j);
        let g = choose|g: int|
            0 <= g < group_starts(d).len() && 0 <= (#[trigger] group_starts(d)[g]) < d.len()
                && d[group_starts(d)[g] as int] == d[j];
        assert(gs[g] == group_starts(d)[g]);
        assert(keys[gs[g] as int] == keys[i]);
    } else {
        assert(gs[gs.len() - 1] == (keys.len() - 1) as usize);
        assert(keys[gs[gs.len() - 1] as int] == keys[i]);
    }
}

/// COUNT of a column counts no more rows than COUNT(*), and as many where none of them is null.
pub proof fn law_count(v: Seq<ValueView>)
    ensures
        given_count(v) <= v.len(),
        (forall|i: int| 0 <= i < v.len() ==> !(#[trigger] v[i] is Null)) ==> given_count(v) == v.len(),
    decreases v.len(),
{
    if v.len() > 0 {
        law_count(v.drop_last());
        if forall|i: int| 0 <= i < v.len() ==> !(#[trigger] v[i] is Null) {
            assert forall|i: int| 0 <= i < v.drop_last().len() implies !(#[trigger] v.drop_last()[i] is Null) by {
                assert(v.drop_last()[i] == v[i]);
            }
            assert(!(v[v.len() - 1] is Null));
        }
    }
}

} // verus!
