use vstd::prelude::*;
use crate::parser::ast::StatementView;
use crate::value::ValueView;
use super::constraints::Run;
use super::engine::{EngineView, ResultView, ran};
use super::relation::{RelationView, except_of, intersect_of, law_distinct, law_intersect_and_except, lemma_front, matched_rows, place_of, row_key, row_keys, union_of, used_up, without};
use super::window_laws::law_parted_by_values;

verus! {

/// Whether a row holds nothing but nulls, truth values, numbers and texts.
pub open spec fn plain_row(r: Seq<ValueView>) -> bool {
    forall|k: int| 0 <= k < r.len() ==> (#[trigger] r[k] is Null || r[k] is Bool || r[k] is Int64 || r[k] is Float64 || r[k] is Text)
}

pub open spec fn plain_rows(rows: Seq<Seq<ValueView>>) -> bool {
    forall|i: int| 0 <= i < rows.len() ==> plain_row(#[trigger] rows[i])
}

/// How often an item stands in a sequence.
pub open spec fn times<T>(s: Seq<T>, x: T) -> nat {
    s.to_multiset().count(x)
}

proof fn lemma_without<T>(s: Seq<T>, k: T, x: T)
    ensures
        times(without(s, k), x) == (if x == k {
            0
        } else {
            times(s, x)
        }),
    decreases s.len(),
{
    broadcast use vstd::seq_lib::group_to_multiset_ensures;

    if s.len() > 0 {
        let d = s.drop_last();
        lemma_without(d, k, x);
        assert(s =~= d.push(s.last()));
        assert(s.to_multiset() =~= d.to_multiset().insert(s.last()));
        if s.last() != k {
            assert(without(s, k).to_multiset() =~= without(d, k).to_multiset().insert(s.last()));
        }
    } else {
        assert(s =~= Seq::empty());
    }
}

proof fn lemma_place_in<T>(s: Seq<T>, x: T)
    requires
        s.contains(x),
    ensures
        0 <= place_of(s, x) < s.len(),
        s[place_of(s, x)] == x,
    decreases s.len(),
{
    let k = choose|k: int| 0 <= k < s.len() && s[k] == x;
    if s[0] != x {
        assert(s.skip(1)[k - 1] == x);
        lemma_place_in(s.skip(1), x);
        assert(s.skip(1)[place_of(s.skip(1), x)] == s[place_of(s, x)]);
    }
}

proof fn lemma_used_up<T>(s: Seq<T>, k: T, all: bool, x: T)
    requires
        s.contains(k),
    ensures
        times(used_up(s, k, all), x) == (if x != k {
            times(s, x) as int
        } else if all {
            times(s, x) - 1
        } else {
            0
        }),
{
    broadcast use vstd::seq_lib::group_to_multiset_ensures;

    lemma_without(s, k, x);
    lemma_place_in(s, k);
    let p = place_of(s, k);
    assert(s.remove(p).to_multiset() =~= s.to_multiset().remove(s[p]));
    assert(s.to_multiset().count(k) > 0);
}

proof fn lemma_matched(left: Seq<Seq<ValueView>>, right: Seq<Seq<Option<ValueView>>>, all: bool, x: Seq<ValueView>)
    requires
        plain_rows(left),
        plain_row(x),
    ensures
        ({
            let l = times(left, x);
            let r = times(right, row_key(x));
            times(matched_rows(left, right, all, true), x) == (if all {
                if l <= r {
                    l
                } else {
                    r
                }
            } else if l > 0 && r > 0 {
                1
            } else {
                0
            })
        }),
    decreases left.len(),
{
    broadcast use vstd::seq_lib::group_to_multiset_ensures;

    if left.len() > 0 {
        let h = left[0];
        let t = left.skip(1);
        let k = row_key(h);
        assert forall|i: int| 0 <= i < t.len() implies plain_row(#[trigger] t[i]) by {
            assert(t[i] == left[i + 1]);
        }
        assert(plain_row(left[0]));
        law_parted_by_values(h, x);
        assert(left =~= seq![h] + t);
        lemma_front(h, t);
        assert(times(left, x) == times(t, x) + (if h == x {
            1nat
        } else {
            0nat
        }));
        assert(right.contains(k) <==> right.to_multiset().count(k) > 0);
        if right.contains(k) {
            let rest = used_up(right, k, all);
            lemma_used_up(right, k, all, row_key(x));
            lemma_matched(t, rest, all, x);
            lemma_front(h, matched_rows(t, rest, all, true));
        } else {
            lemma_matched(t, right, all, x);
        }
    } else {
        assert(left =~= Seq::empty());
        assert(matched_rows(left, right, all, true) =~= Seq::empty());
    }
}

proof fn lemma_keys_times(rows: Seq<Seq<ValueView>>, x: Seq<ValueView>)
    requires
        plain_rows(rows),
        plain_row(x),
    ensures
        times(row_keys(rows), row_key(x)) == times(rows, x),
    decreases rows.len(),
{
    broadcast use vstd::seq_lib::group_to_multiset_ensures;

    if rows.len() > 0 {
        let d = rows.drop_last();
        assert forall|i: int| 0 <= i < d.len() implies plain_row(#[trigger] d[i]) by {
            assert(d[i] == rows[i]);
        }
        lemma_keys_times(d, x);
        assert(plain_row(rows[rows.len() - 1]));
        law_parted_by_values(rows.last(), x);
        assert(rows =~= d.push(rows.last()));
        assert(row_keys(rows) =~= row_keys(d).push(row_key(rows.last())));
        assert(rows.to_multiset() =~= d.to_multiset().insert(rows.last()));
        assert(row_keys(rows).to_multiset() =~= row_keys(d).to_multiset().insert(row_key(rows.last())));
    } else {
        assert(rows =~= Seq::empty());
        assert(row_keys(rows) =~= Seq::empty());
    }
}

/// UNION ALL gives the rows of both sides, one behind the other; UNION each row of either side once.
pub proof fn law_union(left: Seq<Seq<ValueView>>, right: Seq<Seq<ValueView>>, x: Seq<ValueView>)
    ensures
        union_of(left, right, true) == left + right,
        union_of(left, right, false).no_duplicates(),
        union_of(left, right, false).contains(x) <==> left.contains(x) || right.contains(x),
{
    law_distinct(left + right);
    if left.contains(x) {
        let i = choose|i: int| 0 <= i < left.len() && left[i] == x;
        assert((left + right)[i] == x);
    }
    if right.contains(x) {
        let i = choose|i: int| 0 <= i < right.len() && right[i] == x;
        assert((left + right)[left.len() + i] == x);
    }
    if (left + right).contains(x) {
        let i = choose|i: int| 0 <= i < (left + right).len() && (left + right)[i] == x;
        if i < left.len() {
            assert(left[i] == x);
        } else {
            assert(right[i - left.len()] == x);
        }
    }
}

/// INTERSECT gives each row that stands on both sides once; INTERSECT ALL as often as it stands on the
/// side that has it less often.
pub proof fn law_intersect(left: Seq<Seq<ValueView>>, right: Seq<Seq<ValueView>>, x: Seq<ValueView>)
    requires
        plain_rows(left),
        plain_rows(right),
        plain_row(x),
    ensures
        times(intersect_of(left, right, false), x) == (if left.contains(x) && right.contains(x) {
            1nat
        } else {
            0
        }),
        times(intersect_of(left, right, true), x) == (if times(left, x) <= times(right, x) {
            times(left, x)
        } else {
            times(right, x)
        }),
{
    broadcast use vstd::seq_lib::group_to_multiset_ensures;

    lemma_matched(left, row_keys(right), false, x);
    lemma_matched(left, row_keys(right), true, x);
    lemma_keys_times(right, x);
}

/// EXCEPT ALL takes a row of the left side away as often as it stands on the right side; EXCEPT takes
/// it away once where it stands there at all.
pub proof fn law_except(left: Seq<Seq<ValueView>>, right: Seq<Seq<ValueView>>, x: Seq<ValueView>)
    requires
        plain_rows(left),
        plain_rows(right),
        plain_row(x),
    ensures
        times(except_of(left, right, true), x) == (if times(left, x) <= times(right, x) {
            0
        } else {
            times(left, x) - times(right, x)
        }),
        times(except_of(left, right, false), x) == (if left.contains(x) && right.contains(x) {
            times(left, x) - 1
        } else {
            times(left, x) as int
        }),
{
    broadcast use vstd::seq_lib::group_to_multiset_ensures;

    law_intersect(left, right, x);
    law_intersect_and_except(left, row_keys(right), true);
    law_intersect_and_except(left, row_keys(right), false);
    let a = intersect_of(left, right, true).to_multiset().add(except_of(left, right, true).to_multiset());
    let b = intersect_of(left, right, false).to_multiset().add(except_of(left, right, false).to_multiset());
    assert(a.count(x) == left.to_multiset().count(x));
    assert(b.count(x) == left.to_multiset().count(x));
}

/// A set operation between two queries runs the one and then the other, and gives the rows of both
/// put together, under the names of the first.
pub proof fn law_set_statements(run: Run, e: EngineView, l: StatementView, r: StatementView, all: bool, txn: Option<u64>, x: RelationView, y: RelationView)
    requires
        ran(run, e, l, txn).r == Ok::<ResultView, crate::error::ErrorView>(ResultView::Rows(x)),
        ran(run, ran(run, e, l, txn).e, r, txn).r == Ok::<ResultView, crate::error::ErrorView>(ResultView::Rows(y)),
    ensures
        ran(run, e, StatementView::Union(Box::new(l), Box::new(r), all), txn).r == Ok::<ResultView, crate::error::ErrorView>(
            ResultView::Rows(RelationView { columns: x.columns, rows: union_of(x.rows, y.rows, all) }),
        ),
        ran(run, e, StatementView::Intersect(Box::new(l), Box::new(r), all), txn).r == Ok::<ResultView, crate::error::ErrorView>(
            ResultView::Rows(RelationView { columns: x.columns, rows: intersect_of(x.rows, y.rows, all) }),
        ),
        ran(run, e, StatementView::Except(Box::new(l), Box::new(r), all), txn).r == Ok::<ResultView, crate::error::ErrorView>(
            ResultView::Rows(RelationView { columns: x.columns, rows: except_of(x.rows, y.rows, all) }),
        ),
{
}

} // verus!
