use vstd::prelude::*;
use crate::executor::expr_laws::{lemma_text_compare, text_before};
use crate::executor::keys::{key_order, order_key, value_order};
use crate::executor::rows::{Rows, lemma_find, well_kept};
use crate::executor::scalar::{codes, seq_order};
use crate::value::{Order, ValueView};
use super::kv_engine::{between, entries_between, row_text, text_row, value_under};

verus! {

proof fn lemma_shift(a: Seq<int>, b: Seq<int>, x: int, i: int)
    requires
        0 <= i,
    ensures
        seq_order(seq![x] + a, seq![x] + b, i + 1) == seq_order(a, b, i),
    decreases a.len() - i,
{
    let p = seq![x] + a;
    let q = seq![x] + b;
    if i < a.len() && i < b.len() {
        assert(p[i + 1] == a[i] && q[i + 1] == b[i]);
        lemma_shift(a, b, x, i + 1);
    }
}

/// Keys stand in the order of a dictionary.
pub proof fn law_text_keys(x: Seq<char>, y: Seq<char>)
    ensures
        key_order(text_row(x), text_row(y), 0) == (if x == y {
            Order::Equal
        } else if text_before(x, y) {
            Order::Less
        } else {
            Order::Greater
        }),
        x != y && !text_before(x, y) ==> text_before(y, x),
        text_before(x, y) ==> x != y && !text_before(y, x),
{
    let a = text_row(x);
    let b = text_row(y);
    assert(a[0] == ValueView::Text(x) && b[0] == ValueView::Text(y));
    let p = order_key(a[0]);
    let q = order_key(b[0]);
    assert(p[0] == 4 && q[0] == 4);
    lemma_shift(codes(x), codes(y), 4, 0);
    let m = arbitrary();
    lemma_text_compare(m, x, y);
    assert(value_order(a[0], b[0]) == seq_order(codes(x), codes(y), 0));
    reveal_with_fuel(key_order, 2);
}

/// Whether the rows are texts under texts.
pub open spec fn all_texts(r: Rows) -> bool {
    forall|i: int| 0 <= i < r.keys.len() ==> #[trigger] r.keys[i] == text_row(row_text(r.keys[i]))
}

proof fn lemma_entries(r: Rows, start: Seq<char>, end: Seq<char>, n: nat, k: Seq<char>, v: Seq<char>)
    requires
        n <= r.keys.len() == r.rows.len(),
    ensures
        entries_between(r, start, end, n).contains((k, v)) <==> exists|i: int|
            0 <= i < n && between(#[trigger] r.keys[i], start, end) && row_text(r.keys[i]) == k && row_text(r.rows[i]) == v,
    decreases n,
{
    if n > 0 {
        let a = entries_between(r, start, end, (n - 1) as nat);
        let b = entries_between(r, start, end, n);
        lemma_entries(r, start, end, (n - 1) as nat, k, v);
        if b.contains((k, v)) {
            let x = choose|x: int| 0 <= x < b.len() && b[x] == (k, v);
            if x < a.len() {
                assert(a[x] == (k, v));
                assert(a.contains((k, v)));
            } else {
                assert(between(r.keys[n - 1], start, end));
            }
        }
        if exists|i: int| 0 <= i < n && between(#[trigger] r.keys[i], start, end) && row_text(r.keys[i]) == k && row_text(r.rows[i]) == v {
            let i = choose|i: int|
                0 <= i < n && between(#[trigger] r.keys[i], start, end) && row_text(r.keys[i]) == k && row_text(r.rows[i]) == v;
            if i < n - 1 {
                assert(a.contains((k, v)));
                let x = choose|x: int| 0 <= x < a.len() && a[x] == (k, v);
                assert(b[x] == (k, v));
            } else {
                assert(b[a.len() as int] == (k, v));
            }
        }
    }
}

/// A scan gives exactly the keys from its first to its last, both with their texts.
pub proof fn law_scan_holds(r: Rows, start: Seq<char>, end: Seq<char>, k: Seq<char>, v: Seq<char>)
    requires
        well_kept(r),
        all_texts(r),
    ensures
        entries_between(r, start, end, r.keys.len()).contains((k, v)) <==> value_under(r, k) == Some(v) && !text_before(k, start)
            && !text_before(end, k),
{
    lemma_entries(r, start, end, r.keys.len(), k, v);
    law_text_keys(k, start);
    law_text_keys(k, end);
    law_text_keys(end, k);
    law_text_keys(end, end);
    if exists|i: int| 0 <= i < r.keys.len() && between(#[trigger] r.keys[i], start, end) && row_text(r.keys[i]) == k && row_text(r.rows[i]) == v {
        let i = choose|i: int|
            0 <= i < r.keys.len() && between(#[trigger] r.keys[i], start, end) && row_text(r.keys[i]) == k && row_text(r.rows[i]) == v;
        assert(r.keys[i] == text_row(k));
        lemma_find(r, text_row(k), i);
    }
    if value_under(r, k) == Some(v) && !text_before(k, start) && !text_before(end, k) {
        crate::executor::rows::lemma_place(r.keys, text_row(k));
        let i = crate::executor::rows::place(r.keys, text_row(k)).0;
        assert(r.keys[i] == text_row(k));
        assert(text_row(k)[0] == ValueView::Text(k));
        assert(row_text(r.keys[i]) == k);
        assert(between(r.keys[i], start, end));
    }
}

/// A scan gives its keys in the order of a dictionary.
pub proof fn law_scan_in_order(r: Rows, start: Seq<char>, end: Seq<char>, n: nat, a: int, b: int)
    requires
        well_kept(r),
        all_texts(r),
        n <= r.keys.len(),
        0 <= a < b < entries_between(r, start, end, n).len(),
    ensures
        text_before(entries_between(r, start, end, n)[a].0, entries_between(r, start, end, n)[b].0),
    decreases n,
{
    if n > 0 {
        let e = entries_between(r, start, end, (n - 1) as nat);
        if b < e.len() {
            law_scan_in_order(r, start, end, (n - 1) as nat, a, b);
        } else {
            let i = lemma_from(r, start, end, (n - 1) as nat, a);
            assert(r.keys[i] == text_row(row_text(r.keys[i])));
            assert(r.keys[n - 1] == text_row(row_text(r.keys[n - 1])));
            assert(key_order(r.keys[i], r.keys[n - 1], 0) == Order::Less);
            law_text_keys(row_text(r.keys[i]), row_text(r.keys[n - 1]));
        }
    }
}

proof fn lemma_from(r: Rows, start: Seq<char>, end: Seq<char>, n: nat, a: int) -> (i: int)
    requires
        n <= r.keys.len(),
        0 <= a < entries_between(r, start, end, n).len(),
    ensures
        0 <= i < n,
        entries_between(r, start, end, n)[a].0 == row_text(r.keys[i]),
    decreases n,
{
    let e = entries_between(r, start, end, (n - 1) as nat);
    if a < e.len() {
        lemma_from(r, start, end, (n - 1) as nat, a)
    } else {
        n - 1
    }
}

} // verus!
