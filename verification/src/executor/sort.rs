use vstd::prelude::*;
use crate::value::{Order, Value, ValueView, dup_values, rows_push, rows_view, values_view};
use super::keys::{lemma_seq_equal, lemma_seq_flip, lemma_seq_less};
use super::scalar::{byte_codes, codes, compare, order_of, seq_order};
use super::unit::{Ask, Reply, Unit, is_unit, model};

verus! {

/// The direction of a sort key: ascending or not, and where nulls go, if that was said.
#[derive(Debug, Clone, Copy, PartialEq, Eq, Structural)]
pub struct Direction {
    pub ascending: bool,
    pub nulls_first: Option<bool>,
}

pub open spec fn reversed(o: Order) -> Order {
    match o {
        Order::Less => Order::Greater,
        Order::Equal => Order::Equal,
        Order::Greater => Order::Less,
    }
}

/// The order of two values in a sort. Nulls come last where the sort ascends and first where it
/// descends, unless it says otherwise; values that stand to each other in no way count as equal.
pub open spec fn sort_order(m: Unit, a: ValueView, b: ValueView, d: Direction) -> Order {
    let nulls_first = match d.nulls_first {
        Some(f) => f,
        None => !d.ascending,
    };
    if a is Null && b is Null {
        Order::Equal
    } else if a is Null {
        if nulls_first {
            Order::Less
        } else {
            Order::Greater
        }
    } else if b is Null {
        if nulls_first {
            Order::Greater
        } else {
            Order::Less
        }
    } else {
        match compare(m, a, b) {
            Some(o) => if d.ascending {
                o
            } else {
                reversed(o)
            },
            None => Order::Equal,
        }
    }
}

/// The order of two lists of sort keys from place `i` on: that of the first keys that are not
/// equal.
pub open spec fn keys_order(m: Unit, a: Seq<ValueView>, b: Seq<ValueView>, d: Seq<Direction>, i: int) -> Order
    decreases d.len() - i,
{
    if i < 0 || i >= d.len() || i >= a.len() || i >= b.len() {
        Order::Equal
    } else {
        let o = sort_order(m, a[i], b[i], d[i]);
        if o == Order::Equal {
            keys_order(m, a, b, d, i + 1)
        } else {
            o
        }
    }
}

fn order_in_sort<U: Fn(Ask) -> Reply>(u: &U, a: &Value, b: &Value, d: Direction) -> (r: Order)
    requires
        is_unit(u),
    ensures
        r == sort_order(model(u), a@, b@, d),
{
    let nulls_first = match d.nulls_first {
        Some(f) => f,
        None => !d.ascending,
    };
    match (a, b) {
        (Value::Null, Value::Null) => Order::Equal,
        (Value::Null, _) => if nulls_first {
            Order::Less
        } else {
            Order::Greater
        },
        (_, Value::Null) => if nulls_first {
            Order::Greater
        } else {
            Order::Less
        },
        _ => match order_of(u, a, b) {
            Some(Order::Less) => if d.ascending {
                Order::Less
            } else {
                Order::Greater
            },
            Some(Order::Greater) => if d.ascending {
                Order::Greater
            } else {
                Order::Less
            },
            _ => Order::Equal,
        },
    }
}

pub fn order_of_keys<U: Fn(Ask) -> Reply>(u: &U, a: &Vec<Value>, b: &Vec<Value>, d: &Vec<Direction>) -> (r: Order)
    requires
        is_unit(u),
    ensures
        r == keys_order(model(u), values_view(a@), values_view(b@), d@, 0),
{
    let mut i: usize = 0;
    while i < d.len() && i < a.len() && i < b.len()
        invariant
            i <= d.len(),
            is_unit(u),
            keys_order(model(u), values_view(a@), values_view(b@), d@, 0) == keys_order(
                model(u),
                values_view(a@),
                values_view(b@),
                d@,
                i as int,
            ),
        decreases d.len() - i,
    {
        assert(values_view(a@)[i as int] == a@[i as int]@);
        assert(values_view(b@)[i as int] == b@[i as int]@);
        let o = order_in_sort(u, &a[i], &b[i], d[i]);
        if o != Order::Equal {
            return o;
        }
        i = i + 1;
    }
    Order::Equal
}

/// Two sorted sequences as one; where an item of each may come next, the first sequence's does.
pub open spec fn merged(a: Seq<usize>, b: Seq<usize>, after: spec_fn(usize, usize) -> bool) -> Seq<usize>
    decreases a.len() + b.len(),
{
    if a.len() == 0 {
        b
    } else if b.len() == 0 {
        a
    } else if after(a[0], b[0]) {
        seq![b[0]] + merged(a, b.skip(1), after)
    } else {
        seq![a[0]] + merged(a.skip(1), b, after)
    }
}

/// The items sorted, those that may stand in any order left in the one that they had; `after` says
/// of two items whether the first must stand behind the second.
pub open spec fn sorted(s: Seq<usize>, after: spec_fn(usize, usize) -> bool) -> Seq<usize>
    decreases s.len(),
{
    if s.len() <= 1 {
        s
    } else {
        let h = s.len() as int / 2;
        merged(sorted(s.take(h), after), sorted(s.skip(h), after), after)
    }
}

/// Whether the keys of row `i` must stand behind those of row `j`.
pub open spec fn key_after(m: Unit, keys: Seq<Seq<ValueView>>, d: Seq<Direction>) -> spec_fn(usize, usize) -> bool {
    |i: usize, j: usize| keys_order(m, keys[i as int], keys[j as int], d, 0) == Order::Greater
}

fn merge<U: Fn(Ask) -> Reply>(
    u: &U,
    a: &Vec<usize>,
    b: &Vec<usize>,
    keys: &Vec<Vec<Value>>,
    d: &Vec<Direction>,
) -> (r: Vec<usize>)
    requires
        is_unit(u),
        forall|i: int| 0 <= i < a@.len() ==> (#[trigger] a@[i]) < keys@.len(),
        forall|i: int| 0 <= i < b@.len() ==> (#[trigger] b@[i]) < keys@.len(),
    ensures
        r@ == merged(a@, b@, key_after(model(u), rows_view(keys@), d@)),
        forall|i: int| 0 <= i < r@.len() ==> (#[trigger] r@[i]) < keys@.len(),
{
    let ghost after = key_after(model(u), rows_view(keys@), d@);
    let mut out: Vec<usize> = Vec::new();
    let mut i: usize = 0;
    let mut j: usize = 0;
    assert(a@.skip(0) =~= a@);
    assert(b@.skip(0) =~= b@);
    assert(out@ + merged(a@, b@, after) =~= merged(a@, b@, after));
    while i < a.len() && j < b.len()
        invariant
            i <= a.len(),
            j <= b.len(),
            is_unit(u),
            after == key_after(model(u), rows_view(keys@), d@),
            forall|k: int| 0 <= k < a@.len() ==> (#[trigger] a@[k]) < keys@.len(),
            forall|k: int| 0 <= k < b@.len() ==> (#[trigger] b@[k]) < keys@.len(),
            forall|k: int| 0 <= k < out@.len() ==> (#[trigger] out@[k]) < keys@.len(),
            out@ + merged(a@.skip(i as int), b@.skip(j as int), after) == merged(a@, b@, after),
        decreases a.len() - i + b.len() - j,
    {
        let ghost before = out@;
        let ghost x = a@.skip(i as int);
        let ghost y = b@.skip(j as int);
        assert(x.skip(1) =~= a@.skip(i + 1));
        assert(y.skip(1) =~= b@.skip(j + 1));
        let p: usize = a[i];
        let q: usize = b[j];
        assert(rows_view(keys@)[p as int] == values_view(keys@[p as int]@));
        assert(rows_view(keys@)[q as int] == values_view(keys@[q as int]@));
        let o = order_of_keys(u, &keys[p], &keys[q], d);
        if o == Order::Greater {
            out.push(q);
            j = j + 1;
            assert(out@ + merged(x, y.skip(1), after) =~= before + (seq![q] + merged(x, y.skip(1), after)));
        } else {
            out.push(p);
            i = i + 1;
            assert(out@ + merged(x.skip(1), y, after) =~= before + (seq![p] + merged(x.skip(1), y, after)));
        }
    }
    let ghost upto = out@;
    let ghost tail = if i == a.len() { b@.skip(j as int) } else { a@.skip(i as int) };
    assert(upto + tail == merged(a@, b@, after));
    while i < a.len()
        invariant
            i <= a.len(),
            j <= b.len(),
            i < a.len() ==> j == b.len(),
            forall|k: int| 0 <= k < a@.len() ==> (#[trigger] a@[k]) < keys@.len(),
            forall|k: int| 0 <= k < out@.len() ==> (#[trigger] out@[k]) < keys@.len(),
            out@ + (if i == a.len() { b@.skip(j as int) } else { a@.skip(i as int) }) == merged(a@, b@, after),
        decreases a.len() - i,
    {
        let ghost before = out@;
        out.push(a[i]);
        i = i + 1;
        assert(before + a@.skip(i - 1) =~= out@ + (if i == a.len() { b@.skip(j as int) } else { a@.skip(i as int) }));
    }
    while j < b.len()
        invariant
            j <= b.len(),
            forall|k: int| 0 <= k < b@.len() ==> (#[trigger] b@[k]) < keys@.len(),
            forall|k: int| 0 <= k < out@.len() ==> (#[trigger] out@[k]) < keys@.len(),
            out@ + b@.skip(j as int) == merged(a@, b@, after),
        decreases b.len() - j,
    {
        let ghost before = out@;
        out.push(b[j]);
        j = j + 1;
        assert(before + b@.skip(j - 1) =~= out@ + b@.skip(j as int));
    }
    assert(out@ + b@.skip(j as int) =~= out@);
    out
}

fn part(s: &Vec<usize>, from: usize, to: usize) -> (r: Vec<usize>)
    requires
        from <= to <= s.len(),
    ensures
        r@ == s@.subrange(from as int, to as int),
{
    let mut r: Vec<usize> = Vec::new();
    let mut i: usize = from;
    while i < to
        invariant
            from <= i <= to <= s.len(),
            r@ == s@.subrange(from as int, i as int),
        decreases to - i,
    {
        r.push(s[i]);
        i = i + 1;
        assert(r@ =~= s@.subrange(from as int, i as int));
    }
    r
}

/// Sorts row numbers by the keys of the rows.
pub fn sort_indices<U: Fn(Ask) -> Reply>(
    u: &U,
    s: &Vec<usize>,
    keys: &Vec<Vec<Value>>,
    d: &Vec<Direction>,
) -> (r: Vec<usize>)
    requires
        is_unit(u),
        forall|i: int| 0 <= i < s@.len() ==> (#[trigger] s@[i]) < keys@.len(),
    ensures
        r@ == sorted(s@, key_after(model(u), rows_view(keys@), d@)),
        forall|i: int| 0 <= i < r@.len() ==> (#[trigger] r@[i]) < keys@.len(),
    decreases s@.len(),
{
    if s.len() <= 1 {
        let r = part(s, 0, s.len());
        assert(r@ =~= s@);
        return r;
    }
    let h: usize = s.len() / 2;
    let a = part(s, 0, h);
    let b = part(s, h, s.len());
    assert(a@ =~= s@.take(h as int));
    assert(b@ =~= s@.skip(h as int));
    let x = sort_indices(u, &a, keys, d);
    let y = sort_indices(u, &b, keys, d);
    merge(u, &x, &y, keys, d)
}

/// The numbers below `n`.
pub open spec fn upto(n: nat) -> Seq<usize> {
    Seq::new(n, |i: int| i as usize)
}

pub fn count_up(n: usize) -> (r: Vec<usize>)
    ensures
        r@ == upto(n as nat),
        forall|i: int| 0 <= i < r@.len() ==> (#[trigger] r@[i]) < n,
{
    let mut r: Vec<usize> = Vec::new();
    let mut i: usize = 0;
    while i < n
        invariant
            i <= n,
            r@.len() == i,
            forall|j: int| 0 <= j < i ==> #[trigger] r@[j] == j,
        decreases n - i,
    {
        r.push(i);
        i = i + 1;
    }
    assert(r@ =~= upto(n as nat));
    r
}

/// The rows with the given numbers.
pub open spec fn rows_at(rows: Seq<Seq<ValueView>>, at: Seq<usize>) -> Seq<Seq<ValueView>> {
    Seq::new(at.len(), |i: int| rows[at[i] as int])
}

pub fn take_rows(rows: &Vec<Vec<Value>>, at: &Vec<usize>) -> (r: Vec<Vec<Value>>)
    requires
        forall|i: int| 0 <= i < at@.len() ==> (#[trigger] at@[i]) < rows@.len(),
    ensures
        rows_view(r@) == rows_at(rows_view(rows@), at@),
{
    let mut r: Vec<Vec<Value>> = Vec::new();
    let mut i: usize = 0;
    let ghost all = rows_at(rows_view(rows@), at@);
    assert(rows_view(r@) =~= all.take(0));
    while i < at.len()
        invariant
            i <= at.len(),
            forall|k: int| 0 <= k < at@.len() ==> (#[trigger] at@[k]) < rows@.len(),
            all == rows_at(rows_view(rows@), at@),
            rows_view(r@) == all.take(i as int),
        decreases at.len() - i,
    {
        let row = dup_values(&rows[at[i]]);
        proof {
            rows_push(r@, row);
            assert(all.take(i + 1) =~= all.take(i as int).push(all[i as int]));
        }
        r.push(row);
        i = i + 1;
    }
    assert(all.take(at.len() as int) =~= all);
    r
}

/// ORDER BY: the rows sorted by their keys.
pub open spec fn ordered(
    m: Unit,
    rows: Seq<Seq<ValueView>>,
    keys: Seq<Seq<ValueView>>,
    d: Seq<Direction>,
) -> Seq<Seq<ValueView>> {
    rows_at(rows, sorted(upto(rows.len()), key_after(m, keys, d)))
}

pub fn sort_rows<U: Fn(Ask) -> Reply>(
    u: &U,
    rows: &Vec<Vec<Value>>,
    keys: &Vec<Vec<Value>>,
    d: &Vec<Direction>,
) -> (r: Vec<Vec<Value>>)
    requires
        is_unit(u),
        keys@.len() == rows@.len(),
    ensures
        rows_view(r@) == ordered(model(u), rows_view(rows@), rows_view(keys@), d@),
{
    let all = count_up(rows.len());
    let at = sort_indices(u, &all, keys, d);
    take_rows(rows, &at)
}

/// Merging loses nothing and adds nothing.
pub proof fn law_merge_permutes(a: Seq<usize>, b: Seq<usize>, after: spec_fn(usize, usize) -> bool)
    ensures
        merged(a, b, after).to_multiset() =~= a.to_multiset().add(b.to_multiset()),
    decreases a.len() + b.len(),
{
    broadcast use vstd::seq_lib::group_to_multiset_ensures;

    if a.len() == 0 {
        assert(a =~= Seq::empty());
    } else if b.len() == 0 {
        assert(b =~= Seq::empty());
    } else if after(a[0], b[0]) {
        law_merge_permutes(a, b.skip(1), after);
        super::relation::lemma_front(b[0], merged(a, b.skip(1), after));
        super::relation::lemma_front(b[0], b.skip(1));
        assert(b =~= seq![b[0]] + b.skip(1));
    } else {
        law_merge_permutes(a.skip(1), b, after);
        super::relation::lemma_front(a[0], merged(a.skip(1), b, after));
        super::relation::lemma_front(a[0], a.skip(1));
        assert(a =~= seq![a[0]] + a.skip(1));
    }
}

/// Sorting loses nothing and adds nothing.
pub proof fn law_sort_permutes(s: Seq<usize>, after: spec_fn(usize, usize) -> bool)
    ensures
        sorted(s, after).to_multiset() =~= s.to_multiset(),
        sorted(s, after).len() == s.len(),
    decreases s.len(),
{
    broadcast use vstd::seq_lib::group_to_multiset_ensures;

    if s.len() > 1 {
        let h = s.len() as int / 2;
        law_sort_permutes(s.take(h), after);
        law_sort_permutes(s.skip(h), after);
        law_merge_permutes(sorted(s.take(h), after), sorted(s.skip(h), after), after);
        assert(s =~= s.take(h) + s.skip(h));
        vstd::seq_lib::lemma_multiset_commutative(s.take(h), s.skip(h));
        assert(sorted(s, after).to_multiset().len() == s.to_multiset().len());
    }
}

/// Whether no item must stand behind one that follows it.
pub open spec fn in_order(s: Seq<usize>, after: spec_fn(usize, usize) -> bool) -> bool {
    forall|i: int, j: int| 0 <= i < j < s.len() ==> !after(#[trigger] s[i], #[trigger] s[j])
}

/// Whether all items are below `n`.
pub open spec fn below(s: Seq<usize>, n: nat) -> bool {
    forall|i: int| 0 <= i < s.len() ==> (#[trigger] s[i]) < n
}

/// Whether `after` orders the items below `n`: of two at most one must stand behind the other, and
/// where neither of two pairs must be turned round, nor must the pair of their ends.
pub open spec fn orders(after: spec_fn(usize, usize) -> bool, n: nat) -> bool {
    &&& forall|x: usize, y: usize| x < n && y < n && #[trigger] after(x, y) ==> !after(y, x)
    &&& forall|x: usize, y: usize, z: usize|
        x < n && y < n && z < n && !#[trigger] after(x, y) && !#[trigger] after(y, z) ==> !after(x, z)
}

proof fn lemma_merge_holds(a: Seq<usize>, b: Seq<usize>, after: spec_fn(usize, usize) -> bool)
    ensures
        forall|k: int|
            0 <= k < merged(a, b, after).len() ==> a.contains(#[trigger] merged(a, b, after)[k]) || b.contains(
                merged(a, b, after)[k],
            ),
    decreases a.len() + b.len(),
{
    let r = merged(a, b, after);
    if a.len() > 0 && b.len() > 0 {
        if after(a[0], b[0]) {
            lemma_merge_holds(a, b.skip(1), after);
            assert forall|k: int| 0 <= k < r.len() implies a.contains(#[trigger] r[k]) || b.contains(r[k]) by {
                if k > 0 {
                    assert(r[k] == merged(a, b.skip(1), after)[k - 1]);
                    if b.skip(1).contains(r[k]) {
                        let i = choose|i: int| 0 <= i < b.skip(1).len() && b.skip(1)[i] == r[k];
                        assert(b[i + 1] == r[k]);
                    }
                } else {
                    assert(b[0] == r[k]);
                }
            }
        } else {
            lemma_merge_holds(a.skip(1), b, after);
            assert forall|k: int| 0 <= k < r.len() implies a.contains(#[trigger] r[k]) || b.contains(r[k]) by {
                if k > 0 {
                    assert(r[k] == merged(a.skip(1), b, after)[k - 1]);
                    if a.skip(1).contains(r[k]) {
                        let i = choose|i: int| 0 <= i < a.skip(1).len() && a.skip(1)[i] == r[k];
                        assert(a[i + 1] == r[k]);
                    }
                } else {
                    assert(a[0] == r[k]);
                }
            }
        }
    }
}

/// Two sequences in order are merged to one in order.
pub proof fn law_merge_orders(a: Seq<usize>, b: Seq<usize>, after: spec_fn(usize, usize) -> bool, n: nat)
    requires
        orders(after, n),
        below(a, n),
        below(b, n),
        in_order(a, after),
        in_order(b, after),
    ensures
        in_order(merged(a, b, after), after),
    decreases a.len() + b.len(),
{
    let r = merged(a, b, after);
    if a.len() > 0 && b.len() > 0 {
        let front = after(a[0], b[0]);
        let (x, y) = if front { (a, b.skip(1)) } else { (a.skip(1), b) };
        assert forall|i: int, j: int| 0 <= i < j < x.len() implies !after(#[trigger] x[i], #[trigger] x[j]) by {
            if !front {
                assert(x[i] == a[i + 1] && x[j] == a[j + 1]);
            }
        }
        assert forall|i: int, j: int| 0 <= i < j < y.len() implies !after(#[trigger] y[i], #[trigger] y[j]) by {
            if front {
                assert(y[i] == b[i + 1] && y[j] == b[j + 1]);
            }
        }
        assert forall|i: int| 0 <= i < x.len() implies (#[trigger] x[i]) < n by {
            assert(x[i] == if front { a[i] } else { a[i + 1] });
        }
        assert forall|i: int| 0 <= i < y.len() implies (#[trigger] y[i]) < n by {
            assert(y[i] == if front { b[i + 1] } else { b[i] });
        }
        law_merge_orders(x, y, after, n);
        lemma_merge_holds(x, y, after);
        let t = merged(x, y, after);
        assert forall|i: int, j: int| 0 <= i < j < r.len() implies !after(#[trigger] r[i], #[trigger] r[j]) by {
            assert(r[j] == t[j - 1]);
            if i > 0 {
                assert(r[i] == t[i - 1]);
            } else {
                let v = t[j - 1];
                if x.contains(v) {
                    let k = choose|k: int| 0 <= k < x.len() && x[k] == v;
                    if front {
                        if k > 0 {
                            assert(!after(a[0], a[k]));
                        }
                        assert(!after(b[0], a[0]));
                        assert(!after(a[0], v) || v == a[0]);
                        assert(!after(b[0], v));
                    } else {
                        assert(v == a[k + 1]);
                        assert(!after(a[0], a[k + 1]));
                    }
                } else {
                    let k = choose|k: int| 0 <= k < y.len() && y[k] == v;
                    if front {
                        assert(v == b[k + 1]);
                        assert(!after(b[0], b[k + 1]));
                    } else {
                        if k > 0 {
                            assert(!after(b[0], b[k]));
                        }
                        assert(!after(a[0], b[0]));
                        assert(!after(a[0], v));
                    }
                }
            }
        }
    }
}

pub proof fn lemma_sorted_below(s: Seq<usize>, after: spec_fn(usize, usize) -> bool, n: nat)
    requires
        below(s, n),
    ensures
        below(sorted(s, after), n),
    decreases s.len(),
{
    if s.len() > 1 {
        let h = s.len() as int / 2;
        assert forall|i: int| 0 <= i < s.take(h).len() implies (#[trigger] s.take(h)[i]) < n by {
            assert(s.take(h)[i] == s[i]);
        }
        assert forall|i: int| 0 <= i < s.skip(h).len() implies (#[trigger] s.skip(h)[i]) < n by {
            assert(s.skip(h)[i] == s[h + i]);
        }
        lemma_sorted_below(s.take(h), after, n);
        lemma_sorted_below(s.skip(h), after, n);
        let x = sorted(s.take(h), after);
        let y = sorted(s.skip(h), after);
        lemma_merge_holds(x, y, after);
        let r = sorted(s, after);
        assert forall|i: int| 0 <= i < r.len() implies (#[trigger] r[i]) < n by {
            assert(x.contains(r[i]) || y.contains(r[i]));
        }
    }
}

/// Sorting brings the items into order.
pub proof fn law_sort_orders(s: Seq<usize>, after: spec_fn(usize, usize) -> bool, n: nat)
    requires
        orders(after, n),
        below(s, n),
    ensures
        in_order(sorted(s, after), after),
    decreases s.len(),
{
    if s.len() > 1 {
        let h = s.len() as int / 2;
        assert forall|i: int| 0 <= i < s.take(h).len() implies (#[trigger] s.take(h)[i]) < n by {
            assert(s.take(h)[i] == s[i]);
        }
        assert forall|i: int| 0 <= i < s.skip(h).len() implies (#[trigger] s.skip(h)[i]) < n by {
            assert(s.skip(h)[i] == s[h + i]);
        }
        law_sort_orders(s.take(h), after, n);
        law_sort_orders(s.skip(h), after, n);
        lemma_sorted_below(s.take(h), after, n);
        lemma_sorted_below(s.skip(h), after, n);
        law_merge_orders(sorted(s.take(h), after), sorted(s.skip(h), after), after, n);
    }
}

// ---- sorted rows

/// Whether two values are of one type that has an order of its own, or one of them is null.
pub open spec fn kin(a: ValueView, b: ValueView) -> bool {
    match (a, b) {
        (ValueView::Null, _) => true,
        (_, ValueView::Null) => true,
        (ValueView::Bool(_), ValueView::Bool(_)) => true,
        (ValueView::Int64(_), ValueView::Int64(_)) => true,
        (ValueView::Timestamp(_), ValueView::Timestamp(_)) => true,
        (ValueView::Date(_), ValueView::Date(_)) => true,
        (ValueView::Interval(_), ValueView::Interval(_)) => true,
        (ValueView::Uuid(_), ValueView::Uuid(_)) => true,
        (ValueView::Text(_), ValueView::Text(_)) => true,
        (ValueView::Bytes(_), ValueView::Bytes(_)) => true,
        _ => false,
    }
}

pub open spec fn kin_keys(a: Seq<ValueView>, b: Seq<ValueView>) -> bool {
    a.len() == b.len() && forall|c: int| 0 <= c < a.len() ==> kin(#[trigger] a[c], b[c])
}

proof fn lemma_seq_chain(a: Seq<int>, b: Seq<int>, c: Seq<int>)
    ensures
        ({
            let x = seq_order(a, b, 0);
            let y = seq_order(b, c, 0);
            let z = seq_order(a, c, 0);
            &&& x != Order::Greater && y != Order::Greater ==> z != Order::Greater
            &&& x != Order::Less && y != Order::Less ==> z != Order::Less
            &&& (x != Order::Greater && y != Order::Greater) || (x != Order::Less && y != Order::Less) ==> (z == Order::Equal) == (x
                == Order::Equal && y == Order::Equal)
        }),
{
    lemma_seq_equal(a, b, 0);
    lemma_seq_equal(b, c, 0);
    lemma_seq_equal(a, c, 0);
    lemma_seq_flip(a, b, 0);
    lemma_seq_flip(b, c, 0);
    lemma_seq_flip(a, c, 0);
    if seq_order(a, b, 0) == Order::Less && seq_order(b, c, 0) == Order::Less {
        lemma_seq_less(a, b, c, 0);
    }
    if seq_order(a, b, 0) == Order::Greater && seq_order(b, c, 0) == Order::Greater {
        lemma_seq_less(c, b, a, 0);
    }
}

pub proof fn lemma_sort_flip(m: Unit, a: ValueView, b: ValueView, d: Direction)
    requires
        kin(a, b),
    ensures
        sort_order(m, b, a, d) == reversed(sort_order(m, a, b, d)),
{
    match (a, b) {
        (ValueView::Text(x), ValueView::Text(y)) => {
            lemma_seq_flip(codes(x), codes(y), 0);
        },
        (ValueView::Bytes(x), ValueView::Bytes(y)) => {
            lemma_seq_flip(byte_codes(x), byte_codes(y), 0);
        },
        _ => {},
    }
}

pub proof fn lemma_sort_chain(m: Unit, a: ValueView, b: ValueView, c: ValueView, d: Direction)
    requires
        kin(a, b),
        kin(b, c),
        kin(a, c),
        sort_order(m, a, b, d) != Order::Greater,
        sort_order(m, b, c, d) != Order::Greater,
    ensures
        sort_order(m, a, c, d) != Order::Greater,
        (sort_order(m, a, c, d) == Order::Equal) == (sort_order(m, a, b, d) == Order::Equal && sort_order(m, b, c, d)
            == Order::Equal),
{
    match (a, b, c) {
        (ValueView::Text(x), ValueView::Text(y), ValueView::Text(z)) => {
            lemma_seq_chain(codes(x), codes(y), codes(z));
        },
        (ValueView::Bytes(x), ValueView::Bytes(y), ValueView::Bytes(z)) => {
            lemma_seq_chain(byte_codes(x), byte_codes(y), byte_codes(z));
        },
        _ => {},
    }
}

proof fn lemma_sort_keys_flip(m: Unit, a: Seq<ValueView>, b: Seq<ValueView>, d: Seq<Direction>, i: int)
    requires
        kin_keys(a, b),
        0 <= i,
    ensures
        keys_order(m, b, a, d, i) == reversed(keys_order(m, a, b, d, i)),
    decreases d.len() - i,
{
    if i < d.len() && i < a.len() {
        assert(kin(a[i], b[i]));
        lemma_sort_flip(m, a[i], b[i], d[i]);
        lemma_sort_keys_flip(m, a, b, d, i + 1);
    }
}

proof fn lemma_sort_keys_chain(m: Unit, a: Seq<ValueView>, b: Seq<ValueView>, c: Seq<ValueView>, d: Seq<Direction>, i: int)
    requires
        kin_keys(a, b),
        kin_keys(b, c),
        kin_keys(a, c),
        0 <= i,
        keys_order(m, a, b, d, i) != Order::Greater,
        keys_order(m, b, c, d, i) != Order::Greater,
    ensures
        keys_order(m, a, c, d, i) != Order::Greater,
    decreases d.len() - i,
{
    if i < d.len() && i < a.len() {
        assert(kin(a[i], b[i]));
        assert(kin(b[i], c[i]));
        assert(kin(a[i], c[i]));
        lemma_sort_chain(m, a[i], b[i], c[i], d[i]);
        if sort_order(m, a[i], b[i], d[i]) == Order::Equal && sort_order(m, b[i], c[i], d[i]) == Order::Equal {
            lemma_sort_keys_chain(m, a, b, c, d, i + 1);
        }
    }
}

/// Sorted rows stand in order: of two rows, the one that comes first has no later keys. So it is
/// wherever each key is of one type that has an order of its own, or null.
pub proof fn law_rows_are_in_order(m: Unit, keys: Seq<Seq<ValueView>>, d: Seq<Direction>)
    requires
        keys.len() <= usize::MAX,
        forall|i: int, j: int| 0 <= i < keys.len() && 0 <= j < keys.len() ==> kin_keys(#[trigger] keys[i], #[trigger] keys[j]),
    ensures
        in_order(sorted(upto(keys.len()), key_after(m, keys, d)), key_after(m, keys, d)),
{
    lemma_keys_order_all(m, keys, d);
    law_sort_orders(upto(keys.len()), key_after(m, keys, d), keys.len());
}

pub proof fn lemma_keys_order_all(m: Unit, keys: Seq<Seq<ValueView>>, d: Seq<Direction>)
    requires
        keys.len() <= usize::MAX,
        forall|i: int, j: int| 0 <= i < keys.len() && 0 <= j < keys.len() ==> kin_keys(#[trigger] keys[i], #[trigger] keys[j]),
    ensures
        orders(key_after(m, keys, d), keys.len()),
{
    let n = keys.len();
    let after = key_after(m, keys, d);
    assert forall|x: usize, y: usize| x < n && y < n && #[trigger] after(x, y) implies !after(y, x) by {
        lemma_sort_keys_flip(m, keys[x as int], keys[y as int], d, 0);
    }
    assert forall|x: usize, y: usize, z: usize|
        x < n && y < n && z < n && !#[trigger] after(x, y) && !#[trigger] after(y, z) implies !after(x, z) by {
        lemma_sort_keys_chain(m, keys[x as int], keys[y as int], keys[z as int], d, 0);
    }
}

proof fn lemma_merged_same(a: Seq<usize>, b: Seq<usize>, f: spec_fn(usize, usize) -> bool, g: spec_fn(usize, usize) -> bool, n: nat)
    requires
        below(a, n),
        below(b, n),
        forall|x: usize, y: usize| x < n && y < n ==> #[trigger] f(x, y) == g(x, y),
    ensures
        merged(a, b, f) == merged(a, b, g),
    decreases a.len() + b.len(),
{
    if a.len() > 0 && b.len() > 0 {
        assert(f(a[0], b[0]) == g(a[0], b[0]));
        assert forall|i: int| 0 <= i < a.skip(1).len() implies (#[trigger] a.skip(1)[i]) < n by {
            assert(a.skip(1)[i] == a[i + 1]);
        }
        assert forall|i: int| 0 <= i < b.skip(1).len() implies (#[trigger] b.skip(1)[i]) < n by {
            assert(b.skip(1)[i] == b[i + 1]);
        }
        if f(a[0], b[0]) {
            lemma_merged_same(a, b.skip(1), f, g, n);
        } else {
            lemma_merged_same(a.skip(1), b, f, g, n);
        }
    }
}

proof fn lemma_sorted_same(s: Seq<usize>, f: spec_fn(usize, usize) -> bool, g: spec_fn(usize, usize) -> bool, n: nat)
    requires
        below(s, n),
        forall|x: usize, y: usize| x < n && y < n ==> #[trigger] f(x, y) == g(x, y),
    ensures
        sorted(s, f) == sorted(s, g),
    decreases s.len(),
{
    if s.len() > 1 {
        let h = s.len() as int / 2;
        assert forall|i: int| 0 <= i < s.take(h).len() implies (#[trigger] s.take(h)[i]) < n by {
            assert(s.take(h)[i] == s[i]);
        }
        assert forall|i: int| 0 <= i < s.skip(h).len() implies (#[trigger] s.skip(h)[i]) < n by {
            assert(s.skip(h)[i] == s[h + i]);
        }
        lemma_sorted_same(s.take(h), f, g, n);
        lemma_sorted_same(s.skip(h), f, g, n);
        lemma_sorted_below(s.take(h), f, n);
        lemma_sorted_below(s.skip(h), f, n);
        lemma_merged_same(sorted(s.take(h), f), sorted(s.skip(h), f), f, g, n);
    }
}

/// Whether no key is null.
pub open spec fn all_given(keys: Seq<Seq<ValueView>>) -> bool {
    forall|i: int, c: int| 0 <= i < keys.len() && 0 <= c < keys[i].len() ==> !(#[trigger] keys[i][c] is Null)
}

/// Whether two lists of directions agree but for where nulls go.
pub open spec fn same_ways(d: Seq<Direction>, e: Seq<Direction>) -> bool {
    d.len() == e.len() && forall|c: int| 0 <= c < d.len() ==> (#[trigger] d[c]).ascending == e[c].ascending
}

proof fn lemma_keys_same(m: Unit, a: Seq<ValueView>, b: Seq<ValueView>, d: Seq<Direction>, e: Seq<Direction>, i: int)
    requires
        same_ways(d, e),
        0 <= i,
        forall|c: int| 0 <= c < a.len() ==> !(#[trigger] a[c] is Null),
        forall|c: int| 0 <= c < b.len() ==> !(#[trigger] b[c] is Null),
    ensures
        keys_order(m, a, b, d, i) == keys_order(m, a, b, e, i),
    decreases d.len() - i,
{
    if i < d.len() && i < a.len() && i < b.len() {
        assert(d[i].ascending == e[i].ascending);
        assert(!(a[i] is Null) && !(b[i] is Null));
        lemma_keys_same(m, a, b, d, e, i + 1);
    }
}

/// Where no key is null, it makes no difference to a sort where nulls would go.
pub proof fn law_sort_without_nulls(m: Unit, rows: Seq<Seq<ValueView>>, keys: Seq<Seq<ValueView>>, d: Seq<Direction>, e: Seq<Direction>)
    requires
        rows.len() == keys.len(),
        keys.len() <= usize::MAX,
        all_given(keys),
        same_ways(d, e),
    ensures
        ordered(m, rows, keys, d) == ordered(m, rows, keys, e),
{
    let n = keys.len();
    let f = key_after(m, keys, d);
    let g = key_after(m, keys, e);
    assert forall|x: usize, y: usize| x < n && y < n implies #[trigger] f(x, y) == g(x, y) by {
        let a = keys[x as int];
        let b = keys[y as int];
        assert forall|c: int| 0 <= c < a.len() implies !(#[trigger] a[c] is Null) by {
            assert(!(keys[x as int][c] is Null));
        }
        assert forall|c: int| 0 <= c < b.len() implies !(#[trigger] b[c] is Null) by {
            assert(!(keys[y as int][c] is Null));
        }
        lemma_keys_same(m, a, b, d, e, 0);
    }
    lemma_sorted_same(upto(n), f, g, n);
}

} // verus!
