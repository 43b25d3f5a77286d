use vstd::prelude::*;
use crate::parser::ast::OrderByExprView;
use crate::value::{Order, ValueView};
use super::relation::limited;
use super::scope::value_at;
use super::select::{top_arranged, top_directions, top_keys, top_places};
use super::sort::{key_after, keys_order, kin_keys, law_rows_are_in_order, law_sort_permutes, rows_at, sorted, upto};
use super::unit::Unit;

verus! {

/// The values by which a row is placed among the first ones.
pub open spec fn top_key(row: Seq<ValueView>, p: Seq<(int, bool)>) -> Seq<ValueView> {
    Seq::new(p.len(), |j: int| value_at(row, Some(p[j].0)))
}

/// Whether a row must stand behind another.
pub open spec fn row_after(m: Unit, p: Seq<(int, bool)>, a: Seq<ValueView>, b: Seq<ValueView>) -> bool {
    keys_order(m, top_key(a, p), top_key(b, p), top_directions(p), 0) == Order::Greater
}

proof fn lemma_rows_permute(rows: Seq<Seq<ValueView>>, a: Seq<usize>, b: Seq<usize>)
    requires
        a.to_multiset() == b.to_multiset(),
    ensures
        rows_at(rows, a).to_multiset() == rows_at(rows, b).to_multiset(),
    decreases a.len(),
{
    broadcast use vstd::seq_lib::group_to_multiset_ensures;
    broadcast use vstd::multiset::group_multiset_axioms;

    assert(a.len() == a.to_multiset().len());
    assert(b.len() == b.to_multiset().len());
    if a.len() == 0 {
        assert(rows_at(rows, a) =~= rows_at(rows, b));
    } else {
        let x = a.last();
        let d = a.drop_last();
        assert(a =~= d.push(x));
        assert(a.contains(x));
        assert(a.to_multiset().count(x) > 0);
        assert(b.contains(x));
        let j = b.index_of(x);
        let c = b.remove(j);
        assert(d.to_multiset() =~= c.to_multiset()) by {
            assert(a.to_multiset() =~= d.to_multiset().insert(x));
            assert(c.to_multiset() =~= b.to_multiset().remove(x));
        }
        lemma_rows_permute(rows, d, c);
        let row = rows[x as int];
        assert(rows_at(rows, a) =~= rows_at(rows, d).push(row));
        assert(rows_at(rows, c) =~= rows_at(rows, b).remove(j));
        assert(rows_at(rows, b)[j] == row);
        assert(rows_at(rows, b).to_multiset() =~= rows_at(rows, b).remove(j).to_multiset().insert(row)) by {
            assert(rows_at(rows, b).contains(row));
        }
    }
}

/// The first `n` rows in some order: there are as many as were asked for, or all of them; together
/// with those that are left out they are the rows that there were; they stand in order, and none that
/// is left out would have had to stand before one of them.
pub proof fn law_first_rows(m: Unit, columns: Seq<Seq<char>>, rows: Seq<Seq<ValueView>>, by: Seq<OrderByExprView>, n: nat)
    requires
        rows.len() <= usize::MAX,
        top_places(by, columns).len() > 0,
        forall|i: int, j: int|
            0 <= i < rows.len() && 0 <= j < rows.len() ==> kin_keys(
                top_key(#[trigger] rows[i], top_places(by, columns)),
                top_key(#[trigger] rows[j], top_places(by, columns)),
            ),
    ensures
        ({
            let p = top_places(by, columns);
            let all = top_arranged(m, columns, rows, by);
            let first = limited(all, n, 0);
            let left = all.skip(first.len() as int);
            &&& first.len() == (if n <= rows.len() {
                n
            } else {
                rows.len()
            })
            &&& first.to_multiset().add(left.to_multiset()) == rows.to_multiset()
            &&& forall|i: int, j: int| 0 <= i < j < first.len() ==> !row_after(m, p, #[trigger] first[i], #[trigger] first[j])
            &&& forall|i: int, j: int|
                0 <= i < first.len() && 0 <= j < left.len() ==> !row_after(m, p, #[trigger] first[i], #[trigger] left[j])
        }),
{
    broadcast use vstd::seq_lib::group_to_multiset_ensures;

    let p = top_places(by, columns);
    let keys = top_keys(rows, p);
    let d = top_directions(p);
    let after = key_after(m, keys, d);
    let at = sorted(upto(rows.len()), after);
    let all = top_arranged(m, columns, rows, by);
    assert forall|i: int| 0 <= i < rows.len() implies #[trigger] keys[i] == top_key(rows[i], p) by {
        assert(keys[i] =~= top_key(rows[i], p));
    }
    assert forall|i: int, j: int| 0 <= i < keys.len() && 0 <= j < keys.len() implies kin_keys(#[trigger] keys[i], #[trigger] keys[j]) by {
        assert(keys[i] == top_key(rows[i], p));
        assert(keys[j] == top_key(rows[j], p));
    }
    law_rows_are_in_order(m, keys, d);
    law_sort_permutes(upto(rows.len()), after);
    lemma_rows_permute(rows, at, upto(rows.len()));
    assert(rows_at(rows, upto(rows.len())) =~= rows);
    assert(all == rows_at(rows, at));
    let first = limited(all, n, 0);
    let left = all.skip(first.len() as int);
    assert(all =~= first + left);
    vstd::seq_lib::lemma_multiset_commutative(first, left);
    assert forall|i: int| 0 <= i < at.len() implies (#[trigger] at[i]) < rows.len() by {
        assert(at.contains(at[i]));
        assert(at.to_multiset().count(at[i]) > 0);
        assert(upto(rows.len()).contains(at[i]));
    }
    assert forall|i: int, j: int| 0 <= i < j < all.len() implies !row_after(m, p, #[trigger] all[i], #[trigger] all[j]) by {
        assert(!after(at[i], at[j]));
        assert(keys[at[i] as int] == top_key(all[i], p));
        assert(keys[at[j] as int] == top_key(all[j], p));
    }
    assert forall|i: int, j: int| 0 <= i < j < first.len() implies !row_after(m, p, #[trigger] first[i], #[trigger] first[j]) by {
        assert(first[i] == all[i] && first[j] == all[j]);
    }
    assert forall|i: int, j: int| 0 <= i < first.len() && 0 <= j < left.len() implies !row_after(
        m,
        p,
        #[trigger] first[i],
        #[trigger] left[j],
    ) by {
        assert(first[i] == all[i] && left[j] == all[first.len() + j]);
    }
}

} // verus!
