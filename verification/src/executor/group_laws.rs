use vstd::prelude::*;
use crate::parser::ast::ExprView;
use crate::value::ValueView;
use super::aggregate::{aggregate, group_starts, law_groups_cover, places_of_key};
use super::expr_laws::lemma_index_of;
use super::grouping::{CallView, call_result, call_results, column_at, group_keys, group_names, group_places, group_row, grouped, labels, picked};
use super::relation::RelationView;
use super::scope::{index_of, value_at};
use super::sort::upto;
use super::unit::Unit;

verus! {

/// The expressions that name some columns.
pub open spec fn columns_of(names: Seq<Seq<char>>) -> Seq<ExprView> {
    Seq::new(names.len(), |i: int| ExprView::Column(names[i]))
}

/// The rows that agree with a key in the columns at some places.
pub open spec fn members(rows: Seq<Seq<ValueView>>, at: Seq<int>, key: Seq<ValueView>) -> Seq<Seq<ValueView>> {
    rows.filter(|r: Seq<ValueView>| picked(r, at) == key)
}

/// What an aggregate is over some rows: of the column that it is asked for where they have it, else
/// of the rows.
pub open spec fn summed_up(m: Unit, columns: Seq<Seq<char>>, rows: Seq<Seq<ValueView>>, c: CallView) -> ValueView {
    aggregate(
        m,
        c.f,
        rows.len(),
        if c.column is Some && columns.contains(c.column->0) {
            Some(rows.map_values(|r: Seq<ValueView>| value_at(r, index_of(columns, c.column->0))))
        } else {
            None
        },
    )
}

proof fn lemma_index_contains(names: Seq<Seq<char>>, x: Seq<char>)
    ensures
        index_of(names, x) is Some <==> names.contains(x),
        index_of(names, x) matches Some(i) ==> 0 <= i < names.len() && names[i] == x,
    decreases names.len(),
{
    if names.len() > 0 {
        let d = names.drop_last();
        lemma_index_contains(d, x);
        if names.contains(x) {
            let k = choose|k: int| 0 <= k < names.len() && names[k] == x;
            if k < d.len() {
                assert(d[k] == x);
                assert(d.contains(x));
            }
        }
        if d.contains(x) {
            let k = choose|k: int| 0 <= k < d.len() && d[k] == x;
            assert(names[k] == x);
        }
        if names.last() == x {
            assert(names[names.len() - 1] == x);
        }
    }
}

proof fn lemma_members(rows: Seq<Seq<ValueView>>, at: Seq<int>, key: Seq<ValueView>, n: int, c: int)
    requires
        0 <= n <= rows.len() <= usize::MAX,
    ensures
        ({
            let p = places_of_key(group_keys(rows, at).take(n), key);
            let mine = members(rows.take(n), at, key);
            &&& p.len() == mine.len()
            &&& forall|k: int| 0 <= k < p.len() ==> (#[trigger] p[k]) < n && rows[p[k] as int] == mine[k]
        }),
    decreases n,
{
    reveal(Seq::filter);
    let keys = group_keys(rows, at);
    let pred = |r: Seq<ValueView>| picked(r, at) == key;
    if n > 0 {
        lemma_members(rows, at, key, n - 1, c);
        assert(keys.take(n).drop_last() =~= keys.take(n - 1));
        assert(rows.take(n).drop_last() =~= rows.take(n - 1));
        assert(keys.take(n).last() == picked(rows[n - 1], at));
        assert(rows.take(n).last() == rows[n - 1]);
    } else {
        assert(rows.take(0).filter(pred) =~= Seq::empty());
    }
}

proof fn lemma_results(m: Unit, rel: RelationView, at: Seq<int>, key: Seq<ValueView>, c: CallView)
    requires
        rel.rows.len() <= usize::MAX,
    ensures
        call_result(m, rel, places_of_key(group_keys(rel.rows, at), key), c) == summed_up(m, rel.columns, members(rel.rows, at, key), c),
{
    let keys = group_keys(rel.rows, at);
    let n = rel.rows.len() as int;
    lemma_members(rel.rows, at, key, n, 0);
    assert(keys.take(n) =~= keys);
    assert(rel.rows.take(n) =~= rel.rows);
    let p = places_of_key(keys, key);
    let mine = members(rel.rows, at, key);
    if c.column is Some {
        lemma_index_contains(rel.columns, c.column->0);
        if rel.columns.contains(c.column->0) {
            let i = index_of(rel.columns, c.column->0);
            assert(column_at(rel.rows, p, i->0) =~= mine.map_values(|r: Seq<ValueView>| value_at(r, i)));
        }
    }
}

/// A row of GROUP BY begins with the key of some row that was grouped, and behind it stand the
/// aggregates over exactly the rows that have that key.
pub proof fn law_group_sums_up_its_rows(m: Unit, rel: RelationView, by: Seq<ExprView>, calls: Seq<CallView>, k: int)
    requires
        by.len() > 0,
        rel.rows.len() <= usize::MAX,
        0 <= k < grouped(m, rel, by, calls).rows.len(),
    ensures
        ({
            let at = group_places(rel.columns, by);
            let row = grouped(m, rel, by, calls).rows[k];
            exists|s: int|
                #![trigger rel.rows[s]]
                0 <= s < rel.rows.len() && row == picked(rel.rows[s], at) + Seq::new(
                    calls.len(),
                    |j: int| summed_up(m, rel.columns, members(rel.rows, at, picked(rel.rows[s], at)), calls[j]),
                )
        }),
{
    let at = group_places(rel.columns, by);
    let keys = group_keys(rel.rows, at);
    let s = group_starts(keys)[k] as int;
    lemma_starts(keys);
    assert(keys.contains(keys[s]));
    assert(group_starts(keys)[k] < keys.len());
    let key = picked(rel.rows[s], at);
    assert(keys[s] == key);
    assert forall|j: int| 0 <= j < calls.len() implies call_result(m, rel, places_of_key(keys, key), #[trigger] calls[j]) == summed_up(
        m,
        rel.columns,
        members(rel.rows, at, key),
        calls[j],
    ) by {
        lemma_results(m, rel, at, key, calls[j]);
    }
    assert(call_results(m, rel, places_of_key(keys, key), calls) =~= Seq::new(
        calls.len(),
        |j: int| summed_up(m, rel.columns, members(rel.rows, at, picked(rel.rows[s], at)), calls[j]),
    ));
    assert(grouped(m, rel, by, calls).rows[k] == group_row(m, rel, at, calls, s));
}

proof fn lemma_starts(keys: Seq<Seq<ValueView>>)
    requires
        keys.len() <= usize::MAX,
    ensures
        forall|k: int| 0 <= k < group_starts(keys).len() ==> (#[trigger] group_starts(keys)[k]) < keys.len(),
        forall|a: int, b: int|
            0 <= a < b < group_starts(keys).len() ==> keys[#[trigger] group_starts(keys)[a] as int] != keys[#[trigger] group_starts(keys)[b] as int],
    decreases keys.len(),
{
    if keys.len() > 0 {
        let d = keys.drop_last();
        lemma_starts(d);
        let s = group_starts(d);
        let t = group_starts(keys);
        assert forall|k: int| 0 <= k < s.len() implies #[trigger] t[k] == s[k] && keys[t[k] as int] == d[s[k] as int] by {
            assert(s[k] < d.len());
        }
        assert forall|a: int, b: int| 0 <= a < b < t.len() implies keys[#[trigger] t[a] as int] != keys[#[trigger] t[b] as int] by {
            assert(t[a] == s[a]);
            if b < s.len() {
                assert(t[b] == s[b]);
            } else {
                assert(d.contains(d[s[a] as int]));
            }
        }
    }
}

/// Every row that is grouped has its group, and no two groups have one key.
pub proof fn law_one_group_per_key(m: Unit, rel: RelationView, by: Seq<ExprView>, calls: Seq<CallView>, i: int, a: int, b: int)
    requires
        by.len() > 0,
        rel.rows.len() <= usize::MAX,
    ensures
        ({
            let at = group_places(rel.columns, by);
            let g = grouped(m, rel, by, calls).rows;
            &&& 0 <= i < rel.rows.len() ==> exists|k: int|
                0 <= k < g.len() && (#[trigger] g[k]).take(at.len() as int) == picked(rel.rows[i], at)
            &&& 0 <= a < b < g.len() ==> g[a].take(at.len() as int) != g[b].take(at.len() as int)
        }),
{
    let at = group_places(rel.columns, by);
    let keys = group_keys(rel.rows, at);
    let t = group_starts(keys);
    let g = grouped(m, rel, by, calls).rows;
    lemma_starts(keys);
    assert forall|k: int| 0 <= k < g.len() implies (#[trigger] g[k]).take(at.len() as int) == keys[t[k] as int] by {
        assert(t[k] < keys.len());
        assert(g[k] == group_row(m, rel, at, calls, t[k] as int));
        assert(g[k].take(at.len() as int) =~= picked(rel.rows[t[k] as int], at));
    }
    if 0 <= i < rel.rows.len() {
        assert(keys[i] == picked(rel.rows[i], at));
        law_groups_cover(keys, i);
        let k = choose|k: int| 0 <= k < t.len() && 0 <= (#[trigger] t[k]) < keys.len() && keys[t[k] as int] == keys[i];
        assert(g[k].take(at.len() as int) == picked(rel.rows[i], at));
    }
    if 0 <= a < b < g.len() {
        assert(keys[t[a] as int] != keys[t[b] as int]);
        assert(g[a].take(at.len() as int) == keys[t[a] as int]);
        assert(g[b].take(at.len() as int) == keys[t[b] as int]);
    }
}

/// Without GROUP BY the aggregates are over all rows, and stand in a single row even where there is
/// none to sum up.
pub proof fn law_no_group_by(m: Unit, rel: RelationView, calls: Seq<CallView>)
    requires
        rel.rows.len() <= usize::MAX,
    ensures
        grouped(m, rel, Seq::empty(), calls).rows == seq![
            Seq::new(calls.len(), |j: int| summed_up(m, rel.columns, rel.rows, calls[j])),
        ],
        grouped(m, rel, Seq::empty(), calls).columns == Seq::new(calls.len(), |j: int| calls[j].label),
{
    let all = upto(rel.rows.len());
    assert forall|j: int| 0 <= j < calls.len() implies call_result(m, rel, all, #[trigger] calls[j]) == summed_up(m, rel.columns, rel.rows, calls[j]) by {
        let c = calls[j];
        if c.column is Some {
            lemma_index_contains(rel.columns, c.column->0);
            if rel.columns.contains(c.column->0) {
                let i = index_of(rel.columns, c.column->0);
                assert(column_at(rel.rows, all, i->0) =~= rel.rows.map_values(|r: Seq<ValueView>| value_at(r, i)));
            }
        }
    }
    assert(call_results(m, rel, all, calls) =~= Seq::new(calls.len(), |j: int| summed_up(m, rel.columns, rel.rows, calls[j])));
    assert(group_names(Seq::empty()) + labels(calls) =~= Seq::new(calls.len(), |j: int| calls[j].label));
}

/// GROUP BY of columns groups by the places of those columns, and names its result by them and by the
/// aggregates.
pub proof fn law_group_columns(m: Unit, rel: RelationView, names: Seq<Seq<char>>, calls: Seq<CallView>, j: int, c: int, row: Seq<ValueView>)
    requires
        rel.columns.no_duplicates(),
        forall|x: int| 0 <= x < names.len() ==> rel.columns.contains(#[trigger] names[x]),
        0 <= j < names.len(),
        0 <= c < rel.columns.len(),
        rel.columns[c] == names[j],
        row.len() == rel.columns.len(),
    ensures
        group_places(rel.columns, columns_of(names)).len() == names.len(),
        group_places(rel.columns, columns_of(names))[j] == c,
        picked(row, group_places(rel.columns, columns_of(names)))[j] == row[c],
        grouped(m, rel, columns_of(names), calls).columns == names + Seq::new(calls.len(), |k: int| calls[k].label),
{
    lemma_group_places(rel.columns, names);
    lemma_index_of(rel.columns, c);
    assert(group_places(rel.columns, columns_of(names))[j] == index_of(rel.columns, names[j])->0);
    assert(names + labels(calls) =~= names + Seq::new(calls.len(), |k: int| calls[k].label));
}

proof fn lemma_group_places(columns: Seq<Seq<char>>, names: Seq<Seq<char>>)
    requires
        forall|x: int| 0 <= x < names.len() ==> columns.contains(#[trigger] names[x]),
    ensures
        group_names(columns_of(names)) == names,
        group_places(columns, columns_of(names)) == Seq::new(names.len(), |x: int| index_of(columns, names[x])->0),
    decreases names.len(),
{
    let by = columns_of(names);
    if names.len() > 0 {
        let d = names.drop_last();
        assert forall|x: int| 0 <= x < d.len() implies columns.contains(#[trigger] d[x]) by {
            assert(names[x] == d[x]);
        }
        lemma_group_places(columns, d);
        assert(by.drop_last() =~= columns_of(d));
        assert(columns.contains(names[names.len() - 1]));
        lemma_index_contains(columns, names.last());
    }
    assert(group_names(by) =~= names);
    assert(group_places(columns, by) =~= Seq::new(names.len(), |x: int| index_of(columns, names[x])->0));
}

} // verus!
