use vstd::prelude::*;
use crate::parser::ast::BinOp;
use crate::value::Order;
use super::batch::{int_orders, passes, selected, text_orders};
use super::expr_laws::{lemma_text_compare, text_before};
use super::stats::{TableStatsView, stats_row, stats_rows, with_stats, without_stats};
use super::show::name_order;

verus! {

// ---- filters over columns

proof fn lemma_selected(nulls: Seq<bool>, orders: Seq<Option<Order>>, op: BinOp, n: nat, i: u16)
    requires
        n <= 0x1_0000,
    ensures
        selected(nulls, orders, op, n).contains(i) <==> i < n && !nulls[i as int] && passes(op, orders[i as int]),
    decreases n,
{
    if n > 0 {
        lemma_selected(nulls, orders, op, (n - 1) as nat, i);
        let a = selected(nulls, orders, op, (n - 1) as nat);
        let b = selected(nulls, orders, op, n);
        if b.contains(i) {
            let k = choose|k: int| 0 <= k < b.len() && b[k] == i;
            if k < a.len() {
                assert(a[k] == i);
                assert(a.contains(i));
            }
        }
        if i < n && !nulls[i as int] && passes(op, orders[i as int]) {
            if i < n - 1 {
                let k = choose|k: int| 0 <= k < a.len() && a[k] == i;
                assert(b[k] == i);
            } else {
                assert(b[a.len() as int] == i);
            }
        }
    }
}

/// Whether an integer stands to another as a comparison asks.
pub open spec fn integer_passes(x: i64, op: BinOp, l: i64) -> bool {
    match op {
        BinOp::Eq => x == l,
        BinOp::Neq => x != l,
        BinOp::Lt => x < l,
        BinOp::Gt => x > l,
        BinOp::Lte => x <= l,
        BinOp::Gte => x >= l,
        _ => true,
    }
}

/// A filter over a column of integers selects the rows whose integer is not null and stands to the
/// constant as the comparison asks, in their order.
pub proof fn law_filter_integers(v: Seq<i64>, nulls: Seq<bool>, op: BinOp, l: i64, i: u16, a: int, b: int)
    requires
        v.len() == nulls.len() <= 0x1_0000,
    ensures
        ({
            let s = selected(nulls, int_orders(v, l), op, v.len());
            &&& s.contains(i) <==> i < v.len() && !nulls[i as int] && integer_passes(v[i as int], op, l)
            &&& 0 <= a < b < s.len() ==> s[a] < s[b]
        }),
{
    lemma_selected(nulls, int_orders(v, l), op, v.len(), i);
    if i < v.len() {
        assert(int_orders(v, l)[i as int] == Some(super::scalar::int_order(v[i as int] as int, l as int)));
    }
    lemma_rises(nulls, int_orders(v, l), op, v.len(), a, b);
}

proof fn lemma_rises(nulls: Seq<bool>, orders: Seq<Option<Order>>, op: BinOp, n: nat, a: int, b: int)
    requires
        n <= 0x1_0000,
    ensures
        0 <= a < b < selected(nulls, orders, op, n).len() ==> selected(nulls, orders, op, n)[a] < selected(nulls, orders, op, n)[b],
        0 <= b < selected(nulls, orders, op, n).len() ==> selected(nulls, orders, op, n)[b] < n,
        0 <= a < selected(nulls, orders, op, n).len() ==> selected(nulls, orders, op, n)[a] < n,
    decreases n,
{
    if n > 0 {
        lemma_rises(nulls, orders, op, (n - 1) as nat, a, b);
    }
}

/// A filter over a column of texts selects the rows whose text is not null and stands to the constant
/// as the comparison asks, by the order of a dictionary.
pub proof fn law_filter_texts(v: Seq<Seq<char>>, nulls: Seq<bool>, op: BinOp, l: Seq<char>, i: u16)
    requires
        v.len() == nulls.len() <= 0x1_0000,
        i < v.len(),
        !nulls[i as int],
    ensures
        selected(nulls, text_orders(v, l), op, v.len()).contains(i) <==> (match op {
            BinOp::Eq => v[i as int] == l,
            BinOp::Neq => v[i as int] != l,
            BinOp::Lt => text_before(v[i as int], l),
            BinOp::Gt => text_before(l, v[i as int]),
            BinOp::Lte => !text_before(l, v[i as int]),
            BinOp::Gte => !text_before(v[i as int], l),
            _ => true,
        }),
{
    lemma_selected(nulls, text_orders(v, l), op, v.len(), i);
    let m = arbitrary();
    lemma_text_compare(m, v[i as int], l);
    lemma_text_compare(m, l, v[i as int]);
}

// ---- statistics

/// Statistics that are brought up to date are those that are kept, and those of other tables stay;
/// dropping them leaves none of the table.
pub proof fn law_stats_kept(s: Seq<TableStatsView>, x: TableStatsView, other: TableStatsView)
    requires
        forall|i: int, j: int| 0 <= i < j < s.len() ==> (#[trigger] s[i]).table != (#[trigger] s[j]).table,
        s.contains(other),
        other.table != x.table,
    ensures
        with_stats(s, x).contains(x),
        with_stats(s, x).contains(other),
        without_stats(s, x.table).contains(other),
        forall|i: int| 0 <= i < without_stats(s, x.table).len() ==> (#[trigger] without_stats(s, x.table)[i]).table != x.table,
    decreases s.len(),
{
    let d = s.drop_last();
    let w = with_stats(s, x);
    let o = without_stats(s, x.table);
    let k = choose|k: int| 0 <= k < s.len() && s[k] == other;
    lemma_with(s, x);
    assert(w.contains(other)) by {
        lemma_with_other(s, x, k);
    }
    lemma_without(s, x.table, k);
}

proof fn lemma_with(s: Seq<TableStatsView>, x: TableStatsView)
    ensures
        with_stats(s, x).contains(x),
    decreases s.len(),
{
    let w = with_stats(s, x);
    if s.len() == 0 {
        assert(w[0] == x);
    } else if s.last().table == x.table {
        assert(w[s.len() - 1] == x);
    } else if name_order(s.last().table, x.table) == Order::Greater {
        let b = with_stats(s.drop_last(), x);
        lemma_with(s.drop_last(), x);
        let k = choose|k: int| 0 <= k < b.len() && b[k] == x;
        assert(w[k] == x);
    } else {
        assert(w[s.len() as int] == x);
    }
}

proof fn lemma_with_other(s: Seq<TableStatsView>, x: TableStatsView, k: int)
    requires
        0 <= k < s.len(),
        s[k].table != x.table,
    ensures
        with_stats(s, x).contains(s[k]),
    decreases s.len(),
{
    let w = with_stats(s, x);
    let d = s.drop_last();
    if s.last().table == x.table {
        assert(w[k] == s[k]);
    } else if name_order(s.last().table, x.table) == Order::Greater {
        let b = with_stats(d, x);
        if k < d.len() {
            assert(d[k] == s[k]);
            lemma_with_other(d, x, k);
            let j = choose|j: int| 0 <= j < b.len() && b[j] == s[k];
            assert(w[j] == s[k]);
        } else {
            assert(w[b.len() as int] == s[k]);
        }
    } else {
        assert(w[k] == s[k]);
    }
}

proof fn lemma_without(s: Seq<TableStatsView>, t: Seq<char>, k: int)
    ensures
        0 <= k < s.len() && s[k].table != t ==> without_stats(s, t).contains(s[k]),
        forall|i: int| 0 <= i < without_stats(s, t).len() ==> (#[trigger] without_stats(s, t)[i]).table != t,
    decreases s.len(),
{
    if s.len() > 0 {
        let d = s.drop_last();
        lemma_without(d, t, k);
        let o = without_stats(s, t);
        let b = without_stats(d, t);
        if 0 <= k < s.len() && s[k].table != t {
            if k < d.len() {
                assert(d[k] == s[k]);
                let j = choose|j: int| 0 <= j < b.len() && b[j] == s[k];
                assert(o[j] == s[k]);
            } else {
                assert(o[b.len() as int] == s[k]);
            }
        }
    }
}

/// SHOW STATS of a table tells a line for each of its columns, and none of another table.
pub proof fn law_shown_stats(s: Seq<TableStatsView>, k: int, c: int)
    requires
        0 <= k < s.len(),
        0 <= c < s[k].columns.len(),
    ensures
        stats_rows(s, None).contains(stats_row(s[k], s[k].columns[c])),
        stats_rows(s, Some(s[k].table)).contains(stats_row(s[k], s[k].columns[c])),
    decreases s.len(),
{
    let d = s.drop_last();
    let x = s.last();
    let row = stats_row(s[k], s[k].columns[c]);
    let tail = Seq::new(x.columns.len(), |i: int| stats_row(x, x.columns[i]));
    let a = stats_rows(d, None);
    let b = stats_rows(d, Some(s[k].table));
    if k < d.len() {
        assert(d[k] == s[k]);
        law_shown_stats(d, k, c);
        let i = choose|i: int| 0 <= i < a.len() && a[i] == row;
        assert((a + tail)[i] == row);
        let j = choose|j: int| 0 <= j < b.len() && b[j] == row;
        assert((b + tail)[j] == row);
        assert(stats_rows(s, Some(s[k].table))[j] == row);
    } else {
        assert(tail[c] == row);
        assert((a + tail)[a.len() + c] == row);
        assert((b + tail)[b.len() + c] == row);
    }
}

} // verus!
