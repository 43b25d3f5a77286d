use vstd::prelude::*;
use vstd::string::*;
use crate::value::ValueView;
use super::relation::{place_of, row_key};
use super::sort::{Direction, in_order, key_after, keys_order, kin_keys, law_sort_orders, law_sort_permutes, sorted};
use super::unit::{FloatOp, Unit, float_of, float_op};
use super::window::{partition_of, window_column, window_of};

verus! {

/// The place of a row in its window.
pub open spec fn place_in(m: Unit, parts: Seq<Seq<ValueView>>, keys: Seq<Seq<ValueView>>, d: Seq<Direction>, i: int) -> int {
    place_of(window_of(m, parts, keys, d, i), i as usize)
}

proof fn lemma_names()
    ensures
        "ROW_NUMBER"@.len() == 10 && "ROW_NUMBER"@[0] == 'R',
        "DENSE_RANK"@.len() == 10 && "DENSE_RANK"@[0] == 'D',
        "COUNT"@.len() == 5,
        "RANK"@.len() == 4 && "RANK"@[0] == 'R',
        "LEAD"@.len() == 4 && "LEAD"@[0] == 'L',
        "SUM"@.len() == 3 && "SUM"@[0] == 'S',
        "AVG"@.len() == 3 && "AVG"@[0] == 'A',
        "LAG"@.len() == 3 && "LAG"@[0] == 'L',
        "MIN"@.len() == 3 && "MIN"@[0] == 'M' && "MIN"@[1] == 'I',
        "MAX"@.len() == 3 && "MAX"@[0] == 'M' && "MAX"@[1] == 'A',
{
    reveal_strlit("ROW_NUMBER");
    reveal_strlit("DENSE_RANK");
    reveal_strlit("COUNT");
    reveal_strlit("RANK");
    reveal_strlit("LEAD");
    reveal_strlit("SUM");
    reveal_strlit("AVG");
    reveal_strlit("LAG");
    reveal_strlit("MIN");
    reveal_strlit("MAX");
}

proof fn lemma_partition(parts: Seq<Seq<ValueView>>, i: int, n: int)
    requires
        0 <= n <= parts.len() <= usize::MAX,
    ensures
        partition_of(parts, i, n).no_duplicates(),
        forall|k: int| 0 <= k < partition_of(parts, i, n).len() ==> (#[trigger] partition_of(parts, i, n)[k]) < n,
        forall|j: usize| #[trigger] partition_of(parts, i, n).contains(j) <==> j < n && row_key(parts[j as int]) == row_key(parts[i]),
    decreases n,
{
    if n > 0 {
        lemma_partition(parts, i, n - 1);
        let a = partition_of(parts, i, n - 1);
        let b = partition_of(parts, i, n);
        assert forall|j: usize| #[trigger] b.contains(j) <==> j < n && row_key(parts[j as int]) == row_key(parts[i]) by {
            if b.contains(j) {
                let k = choose|k: int| 0 <= k < b.len() && b[k] == j;
                if k < a.len() {
                    assert(a[k] == j);
                    assert(a.contains(j));
                }
            }
            if j < n && row_key(parts[j as int]) == row_key(parts[i]) {
                if j < n - 1 {
                    assert(a.contains(j));
                    let k = choose|k: int| 0 <= k < a.len() && a[k] == j;
                    assert(b[k] == j);
                } else {
                    assert(b[a.len() as int] == j);
                }
            }
        }
    }
}

/// The window of a row holds the rows that agree with it in what parts them, each once.
pub proof fn law_window_is_partition(m: Unit, parts: Seq<Seq<ValueView>>, keys: Seq<Seq<ValueView>>, d: Seq<Direction>, i: int)
    requires
        0 <= i < parts.len() <= usize::MAX,
    ensures
        window_of(m, parts, keys, d, i).no_duplicates(),
        forall|j: usize|
            #[trigger] window_of(m, parts, keys, d, i).contains(j) <==> j < parts.len() && row_key(parts[j as int]) == row_key(
                parts[i],
            ),
{
    broadcast use vstd::seq_lib::group_to_multiset_ensures;

    let n = parts.len() as int;
    let p = partition_of(parts, i, n);
    lemma_partition(parts, i, n);
    if d.len() > 0 {
        let after = key_after(m, keys, d);
        let w = sorted(p, after);
        law_sort_permutes(p, after);
        p.lemma_multiset_has_no_duplicates();
        assert(w.to_multiset() == p.to_multiset());
        w.lemma_multiset_has_no_duplicates_conv();
        assert forall|j: usize| #[trigger] w.contains(j) <==> p.contains(j) by {
            assert(w.to_multiset().count(j) == p.to_multiset().count(j));
        }
    }
}

/// Rows that agree in what parts them have one window.
pub proof fn law_one_window(m: Unit, parts: Seq<Seq<ValueView>>, keys: Seq<Seq<ValueView>>, d: Seq<Direction>, i: int, j: int)
    requires
        0 <= i < parts.len(),
        0 <= j < parts.len(),
        row_key(parts[i]) == row_key(parts[j]),
    ensures
        window_of(m, parts, keys, d, i) == window_of(m, parts, keys, d, j),
{
    lemma_same_partition(parts, i, j, parts.len() as int);
}

proof fn lemma_same_partition(parts: Seq<Seq<ValueView>>, i: int, j: int, n: int)
    requires
        row_key(parts[i]) == row_key(parts[j]),
    ensures
        partition_of(parts, i, n) == partition_of(parts, j, n),
    decreases n,
{
    if n > 0 {
        lemma_same_partition(parts, i, j, n - 1);
    }
}

/// Without PARTITION BY all rows stand in one window.
pub proof fn law_unparted_window(m: Unit, parts: Seq<Seq<ValueView>>, keys: Seq<Seq<ValueView>>, d: Seq<Direction>, i: int)
    requires
        0 <= i < parts.len() <= usize::MAX,
        forall|j: int| 0 <= j < parts.len() ==> (#[trigger] parts[j]).len() == 0,
    ensures
        forall|j: usize| #[trigger] window_of(m, parts, keys, d, i).contains(j) <==> j < parts.len(),
{
    law_window_is_partition(m, parts, keys, d, i);
    assert forall|j: int| 0 <= j < parts.len() implies row_key(#[trigger] parts[j]) == row_key(parts[i]) by {
        assert(row_key(parts[j]) =~= row_key(parts[i]));
    }
}

/// Rows that are parted by integers, texts, booleans or nulls are in one window exactly where they
/// agree in all of them.
pub proof fn law_parted_by_values(a: Seq<ValueView>, b: Seq<ValueView>)
    requires
        forall|k: int| 0 <= k < a.len() ==> (#[trigger] a[k] is Null || a[k] is Bool || a[k] is Int64 || a[k] is Float64 || a[k] is Text),
        forall|k: int| 0 <= k < b.len() ==> (#[trigger] b[k] is Null || b[k] is Bool || b[k] is Int64 || b[k] is Float64 || b[k] is Text),
    ensures
        row_key(a) == row_key(b) <==> a == b,
{
    if row_key(a) == row_key(b) {
        assert(row_key(a).len() == a.len() && row_key(b).len() == b.len());
        assert forall|k: int| 0 <= k < a.len() implies a[k] == b[k] by {
            assert(row_key(a)[k] == row_key(b)[k]);
            assert(a[k] is Null || a[k] is Bool || a[k] is Int64 || a[k] is Float64 || a[k] is Text);
            assert(b[k] is Null || b[k] is Bool || b[k] is Int64 || b[k] is Float64 || b[k] is Text);
        }
        assert(a =~= b);
    }
}

/// An ordered window stands in order: of two rows, the one that comes first has no later keys.
pub proof fn law_window_in_order(
    m: Unit,
    parts: Seq<Seq<ValueView>>,
    keys: Seq<Seq<ValueView>>,
    d: Seq<Direction>,
    i: int,
    a: int,
    b: int,
)
    requires
        0 <= i < parts.len() <= usize::MAX,
        keys.len() == parts.len(),
        forall|x: int, y: int| 0 <= x < keys.len() && 0 <= y < keys.len() ==> kin_keys(#[trigger] keys[x], #[trigger] keys[y]),
        d.len() > 0,
        0 <= a < b < window_of(m, parts, keys, d, i).len(),
    ensures
        ({
            let w = window_of(m, parts, keys, d, i);
            keys_order(m, keys[w[a] as int], keys[w[b] as int], d, 0) != crate::value::Order::Greater
        }),
{
    let n = parts.len();
    let p = partition_of(parts, i, n as int);
    let after = key_after(m, keys, d);
    lemma_partition(parts, i, n as int);
    super::sort::lemma_keys_order_all(m, keys, d);
    law_sort_orders(p, after, n);
    let w = window_of(m, parts, keys, d, i);
    assert(in_order(w, after));
    assert(!after(w[a], w[b]));
}

/// A window that is ordered by an integer stands with the least first, or with the greatest first
/// where the order is DESC.
pub proof fn law_window_by_integer(
    m: Unit,
    parts: Seq<Seq<ValueView>>,
    keys: Seq<Seq<ValueView>>,
    way: Direction,
    i: int,
    a: int,
    b: int,
)
    requires
        0 <= i < parts.len() <= usize::MAX,
        keys.len() == parts.len(),
        forall|x: int| 0 <= x < keys.len() ==> (#[trigger] keys[x]).len() == 1 && keys[x][0] is Int64,
        0 <= a < b < window_of(m, parts, keys, seq![way], i).len(),
    ensures
        ({
            let w = window_of(m, parts, keys, seq![way], i);
            let x = keys[w[a] as int][0]->Int64_0;
            let y = keys[w[b] as int][0]->Int64_0;
            if way.ascending {
                x <= y
            } else {
                x >= y
            }
        }),
{
    let d = seq![way];
    assert forall|x: int, y: int| 0 <= x < keys.len() && 0 <= y < keys.len() implies kin_keys(#[trigger] keys[x], #[trigger] keys[y]) by {
        assert(keys[x][0] is Int64 && keys[y][0] is Int64);
    }
    law_window_in_order(m, parts, keys, d, i, a, b);
    law_window_is_partition(m, parts, keys, d, i);
    let w = window_of(m, parts, keys, d, i);
    assert(w.contains(w[a]) && w.contains(w[b]));
    let x = keys[w[a] as int];
    let y = keys[w[b] as int];
    assert(x[0] is Int64 && y[0] is Int64);
    assert(d[0] == way);
    reveal_with_fuel(keys_order, 2);
}

proof fn lemma_in_window(m: Unit, parts: Seq<Seq<ValueView>>, keys: Seq<Seq<ValueView>>, d: Seq<Direction>, i: int)
    requires
        0 <= i < parts.len() <= usize::MAX,
    ensures
        ({
            let w = window_of(m, parts, keys, d, i);
            let p = place_in(m, parts, keys, d, i);
            0 <= p < w.len() && w[p] == i
        }),
        forall|k: int|
            #![trigger window_of(m, parts, keys, d, i)[k]]
            0 <= k < window_of(m, parts, keys, d, i).len() ==> window_of(m, parts, keys, d, i)[k] < parts.len(),
        forall|k: int|
            0 <= k < window_of(m, parts, keys, d, i).len() ==> #[trigger] window_of(
                m,
                parts,
                keys,
                d,
                window_of(m, parts, keys, d, i)[k] as int,
            ) == window_of(m, parts, keys, d, i),
        forall|k: int|
            0 <= k < window_of(m, parts, keys, d, i).len() ==> #[trigger] place_in(
                m,
                parts,
                keys,
                d,
                window_of(m, parts, keys, d, i)[k] as int,
            ) == k,
{
    let w = window_of(m, parts, keys, d, i);
    law_window_is_partition(m, parts, keys, d, i);
    assert(w.contains(i as usize));
    lemma_place(w, i as usize);
    assert forall|k: int| 0 <= k < w.len() implies w[k] < parts.len() by {
        assert(w.contains(w[k]));
    }
    assert forall|k: int| 0 <= k < w.len() implies #[trigger] window_of(m, parts, keys, d, w[k] as int) == w by {
        assert(w.contains(w[k]));
        law_one_window(m, parts, keys, d, w[k] as int, i);
    }
    assert forall|k: int| 0 <= k < w.len() implies #[trigger] place_in(m, parts, keys, d, w[k] as int) == k by {
        assert(w.contains(w[k]));
        law_one_window(m, parts, keys, d, w[k] as int, i);
        lemma_place(w, w[k]);
    }
}

proof fn lemma_place(s: Seq<usize>, x: usize)
    requires
        s.contains(x),
    ensures
        0 <= place_of(s, x) < s.len(),
        s[place_of(s, x)] == x,
    decreases s.len(),
{
    let k = choose|k: int| 0 <= k < s.len() && s[k] == x;
    if s[0] != x {
        assert(s.skip(1)[k - 1] == x);
        lemma_place(s.skip(1), x);
        assert(s.skip(1)[place_of(s.skip(1), x)] == s[place_of(s, x)]);
    }
}

/// A row stands in its own window, once, and every row of the window has the place there at which
/// it is found.
pub proof fn law_place_in_window(m: Unit, parts: Seq<Seq<ValueView>>, keys: Seq<Seq<ValueView>>, d: Seq<Direction>, i: int, k: int)
    requires
        0 <= i < parts.len() <= usize::MAX,
        0 <= k < window_of(m, parts, keys, d, i).len(),
    ensures
        ({
            let w = window_of(m, parts, keys, d, i);
            let p = place_in(m, parts, keys, d, i);
            &&& 0 <= p < w.len() && w[p] == i
            &&& window_of(m, parts, keys, d, w[k] as int) == w
            &&& place_in(m, parts, keys, d, w[k] as int) == k
        }),
{
    lemma_in_window(m, parts, keys, d, i);
}

/// LAG of `k` rows gives at place `p` of a window what the column holds at place `p - k`, and null
/// where there is no such place.
pub proof fn law_lag(
    m: Unit,
    parts: Seq<Seq<ValueView>>,
    keys: Seq<Seq<ValueView>>,
    d: Seq<Direction>,
    col: Seq<ValueView>,
    k: nat,
    i: int,
    p: int,
)
    requires
        0 <= i < parts.len() <= usize::MAX,
        0 <= p < window_of(m, parts, keys, d, i).len(),
    ensures
        ({
            let w = window_of(m, parts, keys, d, i);
            window_column(m, "LAG"@, parts, keys, d, Some(col), k)[w[p] as int] == (if k <= p {
                col[w[p - k] as int]
            } else {
                ValueView::Null
            })
        }),
{
    lemma_names();
    lemma_in_window(m, parts, keys, d, i);
    let w = window_of(m, parts, keys, d, i);
    assert(window_of(m, parts, keys, d, w[p] as int) == w);
    assert(place_in(m, parts, keys, d, w[p] as int) == p);
    assert(w[p] < parts.len());
}

/// LEAD of `k` rows gives at place `p` of a window what the column holds at place `p + k`, and null
/// where there is no such place.
pub proof fn law_lead(
    m: Unit,
    parts: Seq<Seq<ValueView>>,
    keys: Seq<Seq<ValueView>>,
    d: Seq<Direction>,
    col: Seq<ValueView>,
    k: nat,
    i: int,
    p: int,
)
    requires
        0 <= i < parts.len() <= usize::MAX,
        0 <= p < window_of(m, parts, keys, d, i).len(),
    ensures
        ({
            let w = window_of(m, parts, keys, d, i);
            window_column(m, "LEAD"@, parts, keys, d, Some(col), k)[w[p] as int] == (if p + k < w.len() {
                col[w[p + k] as int]
            } else {
                ValueView::Null
            })
        }),
{
    lemma_names();
    lemma_in_window(m, parts, keys, d, i);
    let w = window_of(m, parts, keys, d, i);
    assert(window_of(m, parts, keys, d, w[p] as int) == w);
    assert(place_in(m, parts, keys, d, w[p] as int) == p);
    assert(w[p] < parts.len());
}

/// The first row of a window has no row before it and the last none behind it; for two neighbours,
/// LAG of the second is the column's value in the first, and LEAD of the first that in the second.
pub proof fn law_neighbours(
    m: Unit,
    parts: Seq<Seq<ValueView>>,
    keys: Seq<Seq<ValueView>>,
    d: Seq<Direction>,
    col: Seq<ValueView>,
    i: int,
    p: int,
)
    requires
        0 <= i < parts.len() <= usize::MAX,
        1 <= p < window_of(m, parts, keys, d, i).len(),
    ensures
        ({
            let w = window_of(m, parts, keys, d, i);
            let lag = window_column(m, "LAG"@, parts, keys, d, Some(col), 1);
            let lead = window_column(m, "LEAD"@, parts, keys, d, Some(col), 1);
            &&& lag[w[0] as int] is Null
            &&& lag[w[p] as int] == col[w[p - 1] as int]
            &&& lead[w[p - 1] as int] == col[w[p] as int]
            &&& lead[w[w.len() - 1] as int] is Null
        }),
{
    let w = window_of(m, parts, keys, d, i);
    law_lag(m, parts, keys, d, col, 1, i, 0);
    law_lag(m, parts, keys, d, col, 1, i, p);
    law_lead(m, parts, keys, d, col, 1, i, p - 1);
    law_lead(m, parts, keys, d, col, 1, i, w.len() - 1);
}

/// ROW_NUMBER counts the rows of a window from one on, in its order.
pub proof fn law_row_number(
    m: Unit,
    parts: Seq<Seq<ValueView>>,
    keys: Seq<Seq<ValueView>>,
    d: Seq<Direction>,
    col: Option<Seq<ValueView>>,
    k: nat,
    i: int,
    p: int,
)
    requires
        0 <= i < parts.len() <= usize::MAX,
        0 <= p < window_of(m, parts, keys, d, i).len(),
    ensures
        window_column(m, "ROW_NUMBER"@, parts, keys, d, col, k)[window_of(m, parts, keys, d, i)[p] as int] == ValueView::Int64(
            (p + 1) as i64,
        ),
{
    lemma_in_window(m, parts, keys, d, i);
    let w = window_of(m, parts, keys, d, i);
    assert(window_of(m, parts, keys, d, w[p] as int) == w);
    assert(place_in(m, parts, keys, d, w[p] as int) == p);
    assert(w[p] < parts.len());
}

/// RANK and DENSE_RANK start at one. A row whose keys are those of the row before it has the same
/// rank as that; any other has its place in the window as its RANK, and the next number as its
/// DENSE_RANK.
pub proof fn law_rank(
    m: Unit,
    parts: Seq<Seq<ValueView>>,
    keys: Seq<Seq<ValueView>>,
    d: Seq<Direction>,
    col: Option<Seq<ValueView>>,
    k: nat,
    i: int,
    p: int,
)
    requires
        0 <= i < parts.len() <= usize::MAX,
        parts.len() <= i64::MAX,
        1 <= p < window_of(m, parts, keys, d, i).len(),
    ensures
        ({
            let w = window_of(m, parts, keys, d, i);
            let rank = window_column(m, "RANK"@, parts, keys, d, col, k);
            let dense = window_column(m, "DENSE_RANK"@, parts, keys, d, col, k);
            let same = keys[w[p] as int] == keys[w[p - 1] as int];
            &&& rank[w[0] as int] == ValueView::Int64(1)
            &&& dense[w[0] as int] == ValueView::Int64(1)
            &&& rank[w[p] as int] == (if same {
                rank[w[p - 1] as int]
            } else {
                ValueView::Int64((p + 1) as i64)
            })
            &&& dense[w[p] as int] == (if same {
                dense[w[p - 1] as int]
            } else {
                ValueView::Int64((dense[w[p - 1] as int]->Int64_0 + 1) as i64)
            })
        }),
{
    lemma_names();
    lemma_in_window(m, parts, keys, d, i);
    let w = window_of(m, parts, keys, d, i);
    lemma_dense(w, keys, p - 1);
    law_window_is_partition(m, parts, keys, d, i);
    assert(w.len() <= parts.len()) by {
        lemma_short(w, parts.len());
    }
    assert forall|q: int| q == 0 || q == p || q == p - 1 implies window_of(m, parts, keys, d, #[trigger] w[q] as int) == w && place_in(
        m,
        parts,
        keys,
        d,
        w[q] as int,
    ) == q && w[q] < parts.len() by {
        assert(window_of(m, parts, keys, d, w[q] as int) == w);
        assert(place_in(m, parts, keys, d, w[q] as int) == q);
    }
    assert(w[0] < parts.len() && w[p] < parts.len() && w[p - 1] < parts.len());
}

proof fn lemma_dense(w: Seq<usize>, keys: Seq<Seq<ValueView>>, p: int)
    ensures
        1 <= super::window::dense_rank_at(w, keys, p),
        p >= 0 ==> super::window::dense_rank_at(w, keys, p) <= p + 1,
    decreases p,
{
    if p > 0 {
        lemma_dense(w, keys, p - 1);
    }
}

proof fn lemma_short(w: Seq<usize>, n: nat)
    requires
        w.no_duplicates(),
        forall|k: int| 0 <= k < w.len() ==> (#[trigger] w[k]) < n,
    ensures
        w.len() <= n,
{
    let s = w.map_values(|x: usize| x as int);
    assert(s.no_duplicates());
    s.unique_seq_to_set();
    vstd::set_lib::lemma_int_range(0, n as int);
    assert(s.to_set().subset_of(vstd::set_lib::set_int_range(0, n as int))) by {
        assert forall|x: int| s.to_set().contains(x) implies vstd::set_lib::set_int_range(0, n as int).contains(x) by {
            let k = choose|k: int| 0 <= k < s.len() && s[k] == x;
            assert(w[k] < n);
        }
    }
    vstd::set_lib::lemma_len_subset(s.to_set(), vstd::set_lib::set_int_range(0, n as int));
}

/// The values of a column in the rows of a window up to place `p`.
pub open spec fn so_far(w: Seq<usize>, col: Option<Seq<ValueView>>, p: int) -> Option<Seq<ValueView>> {
    match col {
        Some(c) => Some(Seq::new((p + 1) as nat, |q: int| c[w[q] as int])),
        None => None,
    }
}

/// COUNT, AVG, MIN and MAX over a window are at each place what the aggregate is over the rows up to
/// that place.
pub proof fn law_running_aggregate(
    m: Unit,
    f: Seq<char>,
    parts: Seq<Seq<ValueView>>,
    keys: Seq<Seq<ValueView>>,
    d: Seq<Direction>,
    col: Option<Seq<ValueView>>,
    k: nat,
    i: int,
    p: int,
)
    requires
        f == "COUNT"@ || f == "AVG"@ || f == "MIN"@ || f == "MAX"@,
        0 <= i < parts.len() <= usize::MAX,
        0 <= p < window_of(m, parts, keys, d, i).len(),
    ensures
        ({
            let w = window_of(m, parts, keys, d, i);
            window_column(m, f, parts, keys, d, col, k)[w[p] as int] == super::aggregate::aggregate(
                m,
                f,
                (p + 1) as nat,
                so_far(w, col, p),
            )
        }),
{
    lemma_names();
    super::aggregate_laws::lemma_aggregate_names();
    lemma_in_window(m, parts, keys, d, i);
    let w = window_of(m, parts, keys, d, i);
    assert(window_of(m, parts, keys, d, w[p] as int) == w);
    assert(place_in(m, parts, keys, d, w[p] as int) == p);
    assert(w[p] < parts.len());
    if let Some(c) = col {
        assert(super::window::values_at(c, w.take(p + 1)) =~= Seq::new((p + 1) as nat, |q: int| c[w[q] as int]));
    }
}

/// SUM over a window starts at zero and adds at each place the number that the column holds there;
/// what is no number adds nothing.
pub proof fn law_running_sum(
    m: Unit,
    parts: Seq<Seq<ValueView>>,
    keys: Seq<Seq<ValueView>>,
    d: Seq<Direction>,
    col: Seq<ValueView>,
    k: nat,
    i: int,
    p: int,
)
    requires
        0 <= i < parts.len() <= usize::MAX,
        0 <= p < window_of(m, parts, keys, d, i).len(),
    ensures
        ({
            let w = window_of(m, parts, keys, d, i);
            let sum = window_column(m, "SUM"@, parts, keys, d, Some(col), k);
            let before = if p > 0 {
                sum[w[p - 1] as int]
            } else {
                ValueView::Float64(0)
            };
            &&& before is Float64
            &&& sum[w[p] as int] == (match col[w[p] as int] {
                ValueView::Int64(n) => ValueView::Float64(
                    float_op(m, FloatOp::Plus, before->Float64_0, float_of(m, n as i128)),
                ),
                ValueView::Float64(x) => ValueView::Float64(float_op(m, FloatOp::Plus, before->Float64_0, x)),
                _ => before,
            })
        }),
{
    lemma_names();
    lemma_in_window(m, parts, keys, d, i);
    let w = window_of(m, parts, keys, d, i);
    assert(window_of(m, parts, keys, d, w[p] as int) == w);
    assert(place_in(m, parts, keys, d, w[p] as int) == p);
    assert(w[p] < parts.len());
    let a = super::window::values_at(col, w.take(p + 1));
    let b = super::window::values_at(col, w.take(p));
    assert(a.drop_last() =~= b);
    assert(a.last() == col[w[p] as int]);
    if p > 0 {
        assert(window_of(m, parts, keys, d, w[p - 1] as int) == w);
        assert(place_in(m, parts, keys, d, w[p - 1] as int) == p - 1);
        assert(w[p - 1] < parts.len());
    } else {
        assert(super::aggregate::number_sum(m, b) == 0);
    }
}

} // verus!
