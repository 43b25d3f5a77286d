use vstd::prelude::*;
use vstd::string::*;
use crate::value::{Order, ValueView};
use super::aggregate::{aggregate, float_sum, given, given_count, has_float, int_sum, number_count, number_sum};
use super::functions::extreme;
use super::relation::{distinct, law_distinct};
use super::scalar::compare;
use super::sort::{Direction, kin, lemma_sort_chain, lemma_sort_flip, sort_order};
use super::unit::{FloatOp, Unit, float_of, float_op};

verus! {

/// The values that are not null, in their order.
pub open spec fn without_nulls(v: Seq<ValueView>) -> Seq<ValueView> {
    v.filter(|x: ValueView| !(x is Null))
}

/// A number as a float.
pub open spec fn as_float(m: Unit, v: ValueView) -> u64 {
    match v {
        ValueView::Int64(n) => float_of(m, n as i128),
        ValueView::Float64(f) => f,
        _ => 0,
    }
}

/// Numbers added up as floats, from the front.
pub open spec fn added_up(m: Unit, v: Seq<ValueView>) -> u64 {
    v.fold_left(0u64, |a: u64, x: ValueView| float_op(m, FloatOp::Plus, a, as_float(m, x)))
}

/// Integers added up.
pub open spec fn total(v: Seq<ValueView>) -> int {
    v.fold_left(0int, |a: int, x: ValueView| a + x->Int64_0)
}

pub open spec fn all_integers(v: Seq<ValueView>) -> bool {
    forall|i: int| 0 <= i < v.len() ==> #[trigger] v[i] is Int64
}

pub open spec fn all_numbers(v: Seq<ValueView>) -> bool {
    forall|i: int| 0 <= i < v.len() ==> (#[trigger] v[i] is Int64 || v[i] is Float64)
}

pub open spec fn all_nulls(v: Seq<ValueView>) -> bool {
    forall|i: int| 0 <= i < v.len() ==> #[trigger] v[i] is Null
}

/// Whether `f` names an aggregate.
pub open spec fn names_one(f: Seq<char>) -> bool {
    f == "COUNT"@ || f == "COUNT_DISTINCT"@ || f == "SUM"@ || f == "AVG"@ || f == "MIN"@ || f == "MAX"@
}

pub proof fn lemma_aggregate_names()
    ensures
        "COUNT"@.len() == 5,
        "COUNT_DISTINCT"@.len() == 14,
        "SUM"@.len() == 3 && "SUM"@[0] == 'S',
        "AVG"@.len() == 3 && "AVG"@[0] == 'A',
        "MIN"@.len() == 3 && "MIN"@[0] == 'M' && "MIN"@[1] == 'I',
        "MAX"@.len() == 3 && "MAX"@[0] == 'M' && "MAX"@[1] == 'A',
{
    reveal_strlit("COUNT");
    reveal_strlit("COUNT_DISTINCT");
    reveal_strlit("SUM");
    reveal_strlit("AVG");
    reveal_strlit("MIN");
    reveal_strlit("MAX");
}

proof fn lemma_sums_pass(m: Unit, v: Seq<ValueView>)
    ensures
        given_count(v) == given_count(without_nulls(v)),
        given(v) == without_nulls(v),
        given(without_nulls(v)) == without_nulls(v),
        given_count(v) == without_nulls(v).len(),
        number_count(v) == number_count(without_nulls(v)),
        int_sum(v) == int_sum(without_nulls(v)),
        float_sum(m, v) == float_sum(m, without_nulls(v)),
        number_sum(m, v) == number_sum(m, without_nulls(v)),
        has_float(v) == has_float(without_nulls(v)),
    decreases v.len(),
{
    reveal(Seq::filter);
    let u = without_nulls(v);
    if v.len() > 0 {
        lemma_sums_pass(m, v.drop_last());
        let a = without_nulls(v.drop_last());
        if !(v.last() is Null) {
            assert(u == a.push(v.last()));
            assert(u.drop_last() =~= a);
            assert(has_float(u) == (has_float(a) || v.last() is Float64)) by {
                if has_float(u) {
                    let i = choose|i: int| 0 <= i < u.len() && #[trigger] u[i] is Float64;
                    if i < a.len() {
                        assert(a[i] is Float64);
                    }
                }
                if has_float(a) {
                    let i = choose|i: int| 0 <= i < a.len() && #[trigger] a[i] is Float64;
                    assert(u[i] is Float64);
                }
                if v.last() is Float64 {
                    assert(u[a.len() as int] is Float64);
                }
            }
        }
        assert(has_float(v) == (has_float(v.drop_last()) || v.last() is Float64)) by {
            if has_float(v) {
                let i = choose|i: int| 0 <= i < v.len() && #[trigger] v[i] is Float64;
                if i < v.len() - 1 {
                    assert(v.drop_last()[i] is Float64);
                }
            }
            if has_float(v.drop_last()) {
                let i = choose|i: int| 0 <= i < v.drop_last().len() && #[trigger] v.drop_last()[i] is Float64;
                assert(v[i] is Float64);
            }
            if v.last() is Float64 {
                assert(v[v.len() - 1] is Float64);
            }
        }
    }
}

proof fn lemma_front_passes(v: Seq<ValueView>)
    requires
        v.len() > 0,
    ensures
        without_nulls(v) == (if v[0] is Null {
            without_nulls(v.skip(1))
        } else {
            seq![v[0]] + without_nulls(v.skip(1))
        }),
{
    reveal(Seq::filter);
    let p = |x: ValueView| !(x is Null);
    let a = seq![v[0]];
    assert(v =~= a + v.skip(1));
    Seq::filter_distributes_over_add(a, v.skip(1), p);
    assert(a.drop_last() =~= Seq::empty());
    assert(a.drop_last().filter(p) =~= Seq::empty());
    assert(a.last() == v[0]);
    if v[0] is Null {
        assert(a.filter(p) =~= Seq::empty());
    } else {
        assert(a.filter(p) =~= a);
    }
}

proof fn lemma_extreme_passes(m: Unit, v: Seq<ValueView>, o: Order, best: ValueView)
    ensures
        extreme(m, v, o, best) == extreme(m, without_nulls(v), o, best),
    decreases v.len(),
{
    reveal(Seq::filter);
    if v.len() > 0 {
        lemma_front_passes(v);
        let u = without_nulls(v);
        let next = if !(v[0] is Null) && (best is Null || compare(m, v[0], best) == Some(o)) {
            v[0]
        } else {
            best
        };
        lemma_extreme_passes(m, v.skip(1), o, next);
        if !(v[0] is Null) {
            assert(u[0] == v[0]);
            assert(u.skip(1) =~= without_nulls(v.skip(1)));
        }
    }
}

/// Aggregates of a column pass over nulls: what they give is what they give for the values that are
/// not null, however many rows the group has.
pub proof fn law_aggregates_pass_over_nulls(m: Unit, f: Seq<char>, n: nat, k: nat, v: Seq<ValueView>)
    requires
        names_one(f),
    ensures
        aggregate(m, f, n, Some(v)) == aggregate(m, f, k, Some(without_nulls(v))),
{
    lemma_sums_pass(m, v);
    lemma_extreme_passes(m, v, Order::Less, ValueView::Null);
    lemma_extreme_passes(m, v, Order::Greater, ValueView::Null);
}

/// A null more, wherever it stands, changes no aggregate of a column.
pub proof fn law_null_changes_nothing(m: Unit, f: Seq<char>, n: nat, k: nat, v: Seq<ValueView>, at: int)
    requires
        names_one(f),
        0 <= at <= v.len(),
    ensures
        aggregate(m, f, n, Some(v.insert(at, ValueView::Null))) == aggregate(m, f, k, Some(v)),
{
    reveal(Seq::filter);
    let p = |x: ValueView| !(x is Null);
    let w = v.insert(at, ValueView::Null);
    let a = v.take(at);
    let b = v.skip(at);
    let z = seq![ValueView::Null];
    assert(w =~= a + (z + b));
    assert(v =~= a + b);
    Seq::filter_distributes_over_add(a, z + b, p);
    Seq::filter_distributes_over_add(z, b, p);
    Seq::filter_distributes_over_add(a, b, p);
    assert(z.drop_last() =~= Seq::empty());
    assert(z.drop_last().filter(p) =~= Seq::empty());
    assert(!p(z.last()));
    assert(z.filter(p) =~= Seq::empty());
    assert(z.filter(p) + b.filter(p) =~= b.filter(p));
    law_aggregates_pass_over_nulls(m, f, n, k, v);
    law_aggregates_pass_over_nulls(m, f, n, k, w);
    law_aggregates_pass_over_nulls(m, f, k, k, v);
}

/// AVG passes over nulls.
pub proof fn law_avg_passes_over_nulls(m: Unit, n: nat, k: nat, v: Seq<ValueView>, at: int)
    requires
        0 <= at <= v.len(),
    ensures
        aggregate(m, "AVG"@, n, Some(v)) == aggregate(m, "AVG"@, k, Some(without_nulls(v))),
        aggregate(m, "AVG"@, n, Some(v.insert(at, ValueView::Null))) == aggregate(m, "AVG"@, k, Some(v)),
{
    law_aggregates_pass_over_nulls(m, "AVG"@, n, k, v);
    law_null_changes_nothing(m, "AVG"@, n, k, v, at);
}

proof fn lemma_numbers(m: Unit, v: Seq<ValueView>)
    requires
        all_numbers(v),
    ensures
        number_count(v) == v.len(),
        number_sum(m, v) == added_up(m, v),
    decreases v.len(),
{
    if v.len() > 0 {
        assert forall|i: int| 0 <= i < v.drop_last().len() implies (#[trigger] v.drop_last()[i] is Int64 || v.drop_last()[i] is Float64) by {
            assert(v.drop_last()[i] == v[i]);
        }
        assert(v[v.len() - 1] is Int64 || v[v.len() - 1] is Float64);
        lemma_numbers(m, v.drop_last());
    }
}

/// The AVG of numbers is their sum divided by how many they are.
pub proof fn law_avg(m: Unit, n: nat, v: Seq<ValueView>)
    requires
        all_numbers(v),
        v.len() > 0,
    ensures
        aggregate(m, "AVG"@, n, Some(v)) == ValueView::Float64(
            float_op(m, FloatOp::Over, added_up(m, v), float_of(m, v.len() as i128)),
        ),
{
    lemma_aggregate_names();
    lemma_numbers(m, v);
}

/// COUNT(*) counts the rows.
pub proof fn law_count_rows(m: Unit, n: nat)
    ensures
        aggregate(m, "COUNT"@, n, None) == ValueView::Int64(n as i64),
{
}

/// COUNT of a column counts the values that are not null, and with DISTINCT how many different ones
/// there are.
pub proof fn law_count_column(m: Unit, n: nat, v: Seq<ValueView>)
    ensures
        aggregate(m, "COUNT"@, n, Some(v)) == ValueView::Int64(without_nulls(v).len() as i64),
        aggregate(m, "COUNT_DISTINCT"@, n, Some(v)) == ValueView::Int64(without_nulls(v).to_set().len() as i64),
{
    lemma_aggregate_names();
    lemma_sums_pass(m, v);
    let g = without_nulls(v);
    law_distinct(g);
    distinct(g).unique_seq_to_set();
    assert(distinct(g).to_set() =~= g.to_set());
}

/// Where a column holds nothing but nulls, SUM, AVG, MIN and MAX are null and COUNT is zero.
pub proof fn law_aggregates_of_nothing(m: Unit, n: nat, v: Seq<ValueView>)
    requires
        all_nulls(v),
    ensures
        aggregate(m, "SUM"@, n, Some(v)) is Null,
        aggregate(m, "AVG"@, n, Some(v)) is Null,
        aggregate(m, "MIN"@, n, Some(v)) is Null,
        aggregate(m, "MAX"@, n, Some(v)) is Null,
        aggregate(m, "COUNT"@, n, Some(v)) == ValueView::Int64(0),
        aggregate(m, "COUNT_DISTINCT"@, n, Some(v)) == ValueView::Int64(0),
{
    lemma_aggregate_names();
    lemma_sums_pass(m, v);
    lemma_extreme_passes(m, v, Order::Less, ValueView::Null);
    lemma_extreme_passes(m, v, Order::Greater, ValueView::Null);
    let g = without_nulls(v);
    broadcast use vstd::seq_lib::group_filter_ensures;
    if g.len() > 0 {
        assert(!(g[0] is Null));
        assert(g.contains(g[0]));
        v.lemma_filter_contains_rev(|x: ValueView| !(x is Null), g[0]);
        assert(false);
    }
    law_distinct(g);
}

proof fn lemma_integers(m: Unit, v: Seq<ValueView>)
    requires
        all_integers(v),
    ensures
        number_count(v) == v.len(),
        int_sum(v) == total(v),
        !has_float(v),
    decreases v.len(),
{
    if v.len() > 0 {
        assert forall|i: int| 0 <= i < v.drop_last().len() implies #[trigger] v.drop_last()[i] is Int64 by {
            assert(v.drop_last()[i] == v[i]);
        }
        assert(v[v.len() - 1] is Int64);
        lemma_integers(m, v.drop_last());
    }
}

/// The SUM of integers is the integer that they add up to, and a float where that is too large.
pub proof fn law_sum_of_integers(m: Unit, n: nat, v: Seq<ValueView>)
    requires
        all_integers(v),
        v.len() > 0,
    ensures
        aggregate(m, "SUM"@, n, Some(v)) == (if i64::MIN <= total(v) <= i64::MAX {
            ValueView::Int64(total(v) as i64)
        } else {
            ValueView::Float64(float_of(m, total(v) as i128))
        }),
{
    lemma_aggregate_names();
    lemma_integers(m, v);
}

/// One integer more adds to a SUM what it is.
pub proof fn law_sum_grows(m: Unit, n: nat, k: nat, v: Seq<ValueView>, s: i64, x: i64)
    requires
        all_integers(v),
        aggregate(m, "SUM"@, n, Some(v)) == ValueView::Int64(s),
        i64::MIN <= s + x <= i64::MAX,
    ensures
        aggregate(m, "SUM"@, k, Some(v.push(ValueView::Int64(x)))) == ValueView::Int64((s + x) as i64),
{
    lemma_aggregate_names();
    let w = v.push(ValueView::Int64(x));
    lemma_integers(m, v);
    lemma_integers(m, w);
    assert(w.drop_last() =~= v);
}

/// The floats of a column.
pub open spec fn only_floats(v: Seq<ValueView>) -> Seq<ValueView> {
    v.filter(|x: ValueView| x is Float64)
}

/// The integers of a column.
pub open spec fn only_integers(v: Seq<ValueView>) -> Seq<ValueView> {
    v.filter(|x: ValueView| x is Int64)
}

proof fn lemma_parts(m: Unit, v: Seq<ValueView>)
    requires
        all_numbers(v),
    ensures
        float_sum(m, v) == added_up(m, only_floats(v)),
        int_sum(v) == total(only_integers(v)),
        number_count(v) == v.len(),
    decreases v.len(),
{
    reveal(Seq::filter);
    if v.len() > 0 {
        assert forall|i: int| 0 <= i < v.drop_last().len() implies (#[trigger] v.drop_last()[i] is Int64 || v.drop_last()[i] is Float64) by {
            assert(v.drop_last()[i] == v[i]);
        }
        assert(v[v.len() - 1] is Int64 || v[v.len() - 1] is Float64);
        lemma_parts(m, v.drop_last());
        let f = only_floats(v.drop_last());
        let i = only_integers(v.drop_last());
        assert(f.push(v.last()).drop_last() =~= f);
        assert(i.push(v.last()).drop_last() =~= i);
    }
}

/// The SUM of numbers of which one is a float is the sum of the floats plus the sum of the integers.
pub proof fn law_sum_with_floats(m: Unit, n: nat, v: Seq<ValueView>, i: int)
    requires
        all_numbers(v),
        0 <= i < v.len(),
        v[i] is Float64,
    ensures
        aggregate(m, "SUM"@, n, Some(v)) == ValueView::Float64(
            float_op(m, FloatOp::Plus, added_up(m, only_floats(v)), float_of(m, total(only_integers(v)) as i128)),
        ),
{
    lemma_aggregate_names();
    lemma_parts(m, v);
}

pub open spec fn all_kin(v: Seq<ValueView>) -> bool {
    forall|i: int, j: int| 0 <= i < v.len() && 0 <= j < v.len() ==> kin(#[trigger] v[i], #[trigger] v[j])
}

pub open spec fn way(o: Order) -> Direction {
    Direction { ascending: o == Order::Less, nulls_first: None }
}

proof fn lemma_extreme(m: Unit, v: Seq<ValueView>, o: Order, best: ValueView)
    requires
        o == Order::Less || o == Order::Greater,
        all_kin(v),
        forall|i: int| 0 <= i < v.len() ==> kin(#[trigger] v[i], best) && kin(best, v[i]),
        kin(best, best),
    ensures
        ({
            let e = extreme(m, v, o, best);
            &&& e == best || v.contains(e)
            &&& !(best is Null) ==> !(e is Null) && sort_order(m, e, best, way(o)) != Order::Greater
            &&& forall|i: int|
                0 <= i < v.len() && !(#[trigger] v[i] is Null) ==> !(e is Null) && sort_order(m, e, v[i], way(o)) != Order::Greater
        }),
    decreases v.len(),
{
    let e = extreme(m, v, o, best);
    lemma_sort_flip(m, best, best, way(o));
    if v.len() > 0 {
        let t = v.skip(1);
        assert forall|i: int, j: int| 0 <= i < t.len() && 0 <= j < t.len() implies kin(#[trigger] t[i], #[trigger] t[j]) by {
            assert(kin(v[i + 1], v[j + 1]));
        }
        let next = if !(v[0] is Null) && (best is Null || compare(m, v[0], best) == Some(o)) {
            v[0]
        } else {
            best
        };
        assert(kin(v[0], v[0]) && kin(v[0], best) && kin(best, v[0]));
        assert forall|i: int| 0 <= i < t.len() implies kin(#[trigger] t[i], next) && kin(next, t[i]) by {
            assert(kin(v[i + 1], v[0]) && kin(v[0], v[i + 1]));
            assert(kin(v[i + 1], best));
        }
        lemma_extreme(m, t, o, next);
        assert(e == extreme(m, t, o, next));
        assert(e == best || v.contains(e)) by {
            if t.contains(e) {
                let i = choose|i: int| 0 <= i < t.len() && t[i] == e;
                assert(v[i + 1] == e);
            } else if e == v[0] {
                assert(v.contains(v[0]));
            }
        }
        assert(kin(e, next) && kin(e, v[0]) && kin(e, best)) by {
            if t.contains(e) {
                let i = choose|i: int| 0 <= i < t.len() && t[i] == e;
                assert(kin(v[i + 1], v[0]));
                assert(kin(v[i + 1], best));
            }
        }
        lemma_sort_flip(m, v[0], best, way(o));
        lemma_sort_flip(m, v[0], v[0], way(o));
        if !(best is Null) {
            lemma_sort_chain(m, e, next, best, way(o));
        }
        if !(v[0] is Null) {
            lemma_sort_chain(m, e, next, v[0], way(o));
        }
        assert forall|i: int| 0 <= i < v.len() && !(#[trigger] v[i] is Null) implies !(e is Null) && sort_order(m, e, v[i], way(o))
            != Order::Greater by {
            if i > 0 {
                assert(t[i - 1] == v[i]);
            }
        }
    }
}

/// MIN and MAX give one of the values, and none of the others comes before it, or behind it. So it
/// is wherever the values are of one type that has an order of its own, or null.
pub proof fn law_min_max(m: Unit, n: nat, v: Seq<ValueView>, i: int)
    requires
        all_kin(v),
        0 <= i < v.len(),
        !(v[i] is Null),
    ensures
        ({
            let low = aggregate(m, "MIN"@, n, Some(v));
            let high = aggregate(m, "MAX"@, n, Some(v));
            &&& v.contains(low) && v.contains(high)
            &&& !(low is Null) && !(high is Null)
            &&& compare(m, v[i], low) != Some(Order::Less)
            &&& compare(m, v[i], high) != Some(Order::Greater)
        }),
{
    lemma_aggregate_names();
    let low = extreme(m, v, Order::Less, ValueView::Null);
    let high = extreme(m, v, Order::Greater, ValueView::Null);
    lemma_extreme(m, v, Order::Less, ValueView::Null);
    lemma_extreme(m, v, Order::Greater, ValueView::Null);
    assert(v[i] == v[i]);
    assert(sort_order(m, low, v[i], way(Order::Less)) != Order::Greater);
    assert(sort_order(m, high, v[i], way(Order::Greater)) != Order::Greater);
    let a = choose|a: int| 0 <= a < v.len() && v[a] == low;
    let b = choose|b: int| 0 <= b < v.len() && v[b] == high;
    assert(kin(v[a], v[i]) && kin(v[b], v[i]));
    lemma_sort_flip(m, low, v[i], way(Order::Less));
    lemma_sort_flip(m, high, v[i], way(Order::Greater));
}

/// The MIN of integers is one of them and no greater than any; the MAX is one of them and no less
/// than any.
pub proof fn law_min_max_of_integers(m: Unit, n: nat, v: Seq<ValueView>, i: int)
    requires
        all_integers(v),
        0 <= i < v.len(),
    ensures
        ({
            let low = aggregate(m, "MIN"@, n, Some(v));
            let high = aggregate(m, "MAX"@, n, Some(v));
            &&& v.contains(low) && v.contains(high)
            &&& low is Int64 && low->Int64_0 <= v[i]->Int64_0
            &&& high is Int64 && high->Int64_0 >= v[i]->Int64_0
        }),
{
    assert forall|a: int, b: int| 0 <= a < v.len() && 0 <= b < v.len() implies kin(#[trigger] v[a], #[trigger] v[b]) by {
        assert(v[a] is Int64 && v[b] is Int64);
    }
    assert(v[i] is Int64);
    law_min_max(m, n, v, i);
    let low = aggregate(m, "MIN"@, n, Some(v));
    let high = aggregate(m, "MAX"@, n, Some(v));
    let a = choose|a: int| 0 <= a < v.len() && v[a] == low;
    let b = choose|b: int| 0 <= b < v.len() && v[b] == high;
    assert(v[a] is Int64 && v[b] is Int64);
}

} // verus!
