use vstd::prelude::*;
use crate::value::{Order, Value, ValueView, dup_values, rows_view, values_view};
use super::keys::{key_order, law_keys_flip, law_keys_less, law_keys_level, order_keys};

verus! {

/// The rows of a table with their keys, in the order of the keys.
pub struct Rows {
    pub keys: Seq<Seq<ValueView>>,
    pub rows: Seq<Seq<ValueView>>,
}

/// Where a key stands, or where it would go: in front of the keys that come after it.
pub open spec fn place(keys: Seq<Seq<ValueView>>, k: Seq<ValueView>) -> (int, bool)
    decreases keys.len(),
{
    if keys.len() == 0 {
        (0, false)
    } else {
        match key_order(k, keys.last(), 0) {
            Order::Greater => (keys.len() as int, false),
            Order::Equal => (keys.len() - 1, true),
            Order::Less => place(keys.drop_last(), k),
        }
    }
}

/// The row of a key.
pub open spec fn row_of(r: Rows, k: Seq<ValueView>) -> Option<Seq<ValueView>> {
    let p = place(r.keys, k);
    if p.1 && p.0 < r.rows.len() {
        Some(r.rows[p.0])
    } else {
        None
    }
}

/// The rows with `row` under the key `k`.
pub open spec fn put(r: Rows, k: Seq<ValueView>, row: Seq<ValueView>) -> Rows {
    let p = place(r.keys, k);
    if p.1 {
        Rows { keys: r.keys, rows: r.rows.update(p.0, row) }
    } else {
        Rows { keys: r.keys.insert(p.0, k), rows: r.rows.insert(p.0, row) }
    }
}

/// The rows without the key `k`.
pub open spec fn del(r: Rows, k: Seq<ValueView>) -> Rows {
    let p = place(r.keys, k);
    if p.1 {
        Rows { keys: r.keys.remove(p.0), rows: r.rows.remove(p.0) }
    } else {
        r
    }
}

/// The rows with what a key held at some time.
pub open spec fn restored(r: Rows, k: Seq<ValueView>, before: Option<Seq<ValueView>>) -> Rows {
    match before {
        Some(row) => put(r, k, row),
        None => del(r, k),
    }
}

/// Whether every row has a key, and each key comes before the next.
pub open spec fn well_kept(r: Rows) -> bool {
    &&& r.keys.len() == r.rows.len()
    &&& forall|i: int, j: int| 0 <= i < j < r.keys.len() ==> key_order(#[trigger] r.keys[i], #[trigger] r.keys[j], 0) == Order::Less
}

pub proof fn lemma_place(keys: Seq<Seq<ValueView>>, k: Seq<ValueView>)
    ensures
        0 <= place(keys, k).0 <= keys.len(),
        place(keys, k).1 ==> place(keys, k).0 < keys.len() && keys[place(keys, k).0] == k,
        forall|j: int|
            place(keys, k).0 <= j < keys.len() && !(place(keys, k).1 && j == place(keys, k).0) ==> key_order(
                k,
                #[trigger] keys[j],
                0,
            ) == Order::Less,
        !place(keys, k).1 && place(keys, k).0 > 0 ==> key_order(k, keys[place(keys, k).0 - 1], 0) == Order::Greater,
    decreases keys.len(),
{
    if keys.len() > 0 {
        law_keys_level(k, keys.last());
        lemma_place(keys.drop_last(), k);
        assert forall|j: int|
            place(keys, k).0 <= j < keys.len() && !(place(keys, k).1 && j == place(keys, k).0) implies key_order(
            k,
            #[trigger] keys[j],
            0,
        ) == Order::Less by {
            if j < keys.len() - 1 {
                assert(keys.drop_last()[j] == keys[j]);
            }
        }
    }
}

/// Place is determined by what comes after it.
proof fn lemma_place_is(keys: Seq<Seq<ValueView>>, k: Seq<ValueView>, p: int, found: bool)
    requires
        0 <= p <= keys.len(),
        found ==> p < keys.len() && keys[p] == k,
        forall|j: int| p <= j < keys.len() && !(found && j == p) ==> key_order(k, #[trigger] keys[j], 0) == Order::Less,
        !found && p > 0 ==> key_order(k, keys[p - 1], 0) == Order::Greater,
    ensures
        place(keys, k) == (p, found),
    decreases keys.len(),
{
    if keys.len() > 0 {
        law_keys_level(k, keys.last());
        if p < keys.len() && !(found && p == keys.len() - 1) {
            assert(key_order(k, keys[keys.len() - 1], 0) == Order::Less);
            assert forall|j: int|
                p <= j < keys.drop_last().len() && !(found && j == p) implies key_order(
                k,
                #[trigger] keys.drop_last()[j],
                0,
            ) == Order::Less by {
                assert(keys.drop_last()[j] == keys[j]);
            }
            lemma_place_is(keys.drop_last(), k, p, found);
        }
    }
}

pub proof fn lemma_find(r: Rows, k: Seq<ValueView>, i: int)
    requires
        well_kept(r),
        0 <= i < r.keys.len(),
        r.keys[i] == k,
    ensures
        place(r.keys, k) == (i, true),
{
    lemma_place_is(r.keys, k, i, true);
}

pub proof fn lemma_absent(r: Rows, k: Seq<ValueView>)
    requires
        well_kept(r),
        !place(r.keys, k).1,
    ensures
        forall|j: int| 0 <= j < r.keys.len() ==> #[trigger] r.keys[j] != k,
{
    assert forall|j: int| 0 <= j < r.keys.len() implies #[trigger] r.keys[j] != k by {
        if r.keys[j] == k {
            lemma_find(r, k, j);
        }
    }
}

/// What was put under a key is what is read under it.
pub proof fn law_read_after_put(r: Rows, k: Seq<ValueView>, row: Seq<ValueView>)
    requires
        r.keys.len() == r.rows.len(),
    ensures
        row_of(put(r, k, row), k) == Some(row),
{
    lemma_place(r.keys, k);
    law_keys_level(k, k);
    let p = place(r.keys, k);
    let n = put(r, k, row);
    if p.1 {
        assert(n.rows[p.0] == row);
    } else {
        assert forall|j: int| p.0 < j < n.keys.len() implies key_order(k, #[trigger] n.keys[j], 0) == Order::Less by {
            assert(n.keys[j] == r.keys[j - 1]);
        }
        lemma_place_is(n.keys, k, p.0, true);
    }
}

/// A key that was deleted holds nothing.
pub proof fn law_read_after_del(r: Rows, k: Seq<ValueView>)
    requires
        well_kept(r),
    ensures
        row_of(del(r, k), k) is None,
{
    lemma_place(r.keys, k);
    let p = place(r.keys, k);
    if p.1 {
        let n = del(r, k);
        law_del_keeps_order(r, k);
        if place(n.keys, k).1 {
            lemma_place(n.keys, k);
            let q = place(n.keys, k).0;
            let i = if q < p.0 {
                q
            } else {
                q + 1
            };
            assert(r.keys[i] == k);
            law_keys_level(k, k);
            if i < p.0 {
                assert(key_order(r.keys[i], r.keys[p.0], 0) == Order::Less);
            } else {
                assert(key_order(r.keys[p.0], r.keys[i], 0) == Order::Less);
            }
        }
    }
}

/// Rows stay well kept when one is put.
pub proof fn law_put_keeps_order(r: Rows, k: Seq<ValueView>, row: Seq<ValueView>)
    requires
        well_kept(r),
    ensures
        well_kept(put(r, k, row)),
{
    lemma_place(r.keys, k);
    let p = place(r.keys, k);
    if !p.1 {
        let n = put(r, k, row);
        assert forall|i: int, j: int| 0 <= i < j < n.keys.len() implies key_order(
            #[trigger] n.keys[i],
            #[trigger] n.keys[j],
            0,
        ) == Order::Less by {
            let a = if i < p.0 {
                i
            } else {
                i - 1
            };
            let b = if j < p.0 {
                j
            } else {
                j - 1
            };
            if i == p.0 {
                assert(n.keys[j] == r.keys[b]);
            } else if j == p.0 {
                assert(n.keys[i] == r.keys[i]);
                law_keys_flip(k, r.keys[p.0 - 1]);
                if i < p.0 - 1 {
                    law_keys_less(r.keys[i], r.keys[p.0 - 1], k);
                }
            } else {
                assert(n.keys[i] == r.keys[a]);
                assert(n.keys[j] == r.keys[b]);
            }
        }
    }
}

/// Rows stay well kept when one is deleted.
pub proof fn law_del_keeps_order(r: Rows, k: Seq<ValueView>)
    requires
        well_kept(r),
    ensures
        well_kept(del(r, k)),
{
    lemma_place(r.keys, k);
    let p = place(r.keys, k);
    if p.1 {
        let n = del(r, k);
        assert forall|i: int, j: int| 0 <= i < j < n.keys.len() implies key_order(
            #[trigger] n.keys[i],
            #[trigger] n.keys[j],
            0,
        ) == Order::Less by {
            let a = if i < p.0 {
                i
            } else {
                i + 1
            };
            let b = if j < p.0 {
                j
            } else {
                j + 1
            };
            assert(n.keys[i] == r.keys[a]);
            assert(n.keys[j] == r.keys[b]);
        }
    }
}

/// Putting a row leaves what the other keys hold.
pub proof fn law_put_leaves_others(r: Rows, k: Seq<ValueView>, row: Seq<ValueView>, other: Seq<ValueView>)
    requires
        well_kept(r),
        other != k,
    ensures
        row_of(put(r, k, row), other) == row_of(r, other),
{
    lemma_place(r.keys, k);
    lemma_place(r.keys, other);
    law_put_keeps_order(r, k, row);
    let p = place(r.keys, k);
    let q = place(r.keys, other);
    let n = put(r, k, row);
    if !p.1 {
        if q.1 {
            let i = if q.0 < p.0 {
                q.0
            } else {
                q.0 + 1
            };
            assert(n.keys[i] == other);
            assert(n.rows[i] == r.rows[q.0]);
            lemma_find(n, other, i);
        } else {
            lemma_absent(r, other);
            lemma_place(n.keys, other);
            let i = place(n.keys, other).0;
            if place(n.keys, other).1 {
                if i < p.0 {
                    assert(r.keys[i] == other);
                } else if i > p.0 {
                    assert(r.keys[i - 1] == other);
                } else {
                    assert(n.keys[i] == k);
                }
            }
        }
    }
}

/// Restoring what a key held undoes a put.
pub proof fn law_restore_undoes_put(r: Rows, k: Seq<ValueView>, row: Seq<ValueView>)
    requires
        r.keys.len() == r.rows.len(),
    ensures
        restored(put(r, k, row), k, row_of(r, k)) == r,
{
    lemma_place(r.keys, k);
    law_keys_level(k, k);
    let p = place(r.keys, k);
    let n = put(r, k, row);
    if p.1 {
        assert(n.rows.update(p.0, r.rows[p.0]) =~= r.rows);
    } else {
        assert forall|j: int| p.0 < j < n.keys.len() implies key_order(k, #[trigger] n.keys[j], 0) == Order::Less by {
            assert(n.keys[j] == r.keys[j - 1]);
        }
        lemma_place_is(n.keys, k, p.0, true);
        assert(n.keys.remove(p.0) =~= r.keys);
        assert(n.rows.remove(p.0) =~= r.rows);
    }
}

/// Restoring what a key held undoes a deletion.
pub proof fn law_restore_undoes_del(r: Rows, k: Seq<ValueView>)
    requires
        well_kept(r),
    ensures
        restored(del(r, k), k, row_of(r, k)) == r,
{
    lemma_place(r.keys, k);
    let p = place(r.keys, k);
    if p.1 {
        let n = del(r, k);
        assert forall|j: int| p.0 <= j < n.keys.len() implies key_order(k, #[trigger] n.keys[j], 0) == Order::Less by {
            assert(n.keys[j] == r.keys[j + 1]);
        }
        if p.0 > 0 {
            law_keys_flip(r.keys[p.0 - 1], k);
            assert(key_order(r.keys[p.0 - 1], r.keys[p.0], 0) == Order::Less);
            assert(n.keys[p.0 - 1] == r.keys[p.0 - 1]);
        }
        lemma_place_is(n.keys, k, p.0, false);
        assert(n.keys.insert(p.0, k) =~= r.keys);
        assert(n.rows.insert(p.0, r.rows[p.0]) =~= r.rows);
    }
}

/// Deleting a key leaves what the others hold.
pub proof fn law_del_leaves_others(r: Rows, k: Seq<ValueView>, other: Seq<ValueView>)
    requires
        well_kept(r),
        other != k,
    ensures
        row_of(del(r, k), other) == row_of(r, other),
{
    lemma_place(r.keys, k);
    if place(r.keys, k).1 {
        law_restore_undoes_del(r, k);
        law_del_keeps_order(r, k);
        law_put_leaves_others(del(r, k), k, row_of(r, k)->0, other);
    }
}

/// Finds where a key stands or would go.
pub fn find_place(keys: &Vec<Vec<Value>>, k: &Vec<Value>) -> (r: (usize, bool))
    ensures
        (r.0 as int, r.1) == place(rows_view(keys@), values_view(k@)),
        r.0 <= keys@.len(),
        r.1 ==> r.0 < keys@.len(),
{
    let ghost all = rows_view(keys@);
    let mut i: usize = keys.len();
    assert(all.take(i as int) =~= all);
    while i > 0
        invariant
            i <= keys.len(),
            all == rows_view(keys@),
            place(all, values_view(k@)) == place(all.take(i as int), values_view(k@)),
        decreases i,
    {
        assert(all.take(i as int).drop_last() =~= all.take(i - 1));
        assert(all.take(i as int).last() == values_view(keys@[i - 1]@));
        match order_keys(k, &keys[i - 1]) {
            Order::Greater => {
                return (i, false);
            },
            Order::Equal => {
                return (i - 1, true);
            },
            Order::Less => {},
        }
        i = i - 1;
    }
    (0, false)
}

/// Puts a row under a key.
pub fn put_row(keys: &mut Vec<Vec<Value>>, rows: &mut Vec<Vec<Value>>, k: Vec<Value>, row: Vec<Value>)
    requires
        old(keys)@.len() == old(rows)@.len(),
    ensures
        (Rows { keys: rows_view(final(keys)@), rows: rows_view(final(rows)@) }) == put(
            Rows { keys: rows_view(old(keys)@), rows: rows_view(old(rows)@) },
            values_view(k@),
            values_view(row@),
        ),
        final(keys)@.len() == final(rows)@.len(),
{
    let (p, found) = find_place(keys, &k);
    let ghost ks = keys@;
    let ghost rs = rows@;
    if found {
        rows.set(p, row);
        assert(rows_view(rows@) =~= rows_view(rs).update(p as int, values_view(row@)));
    } else {
        keys.insert(p, k);
        rows.insert(p, row);
        assert(rows_view(keys@) =~= rows_view(ks).insert(p as int, values_view(k@)));
        assert(rows_view(rows@) =~= rows_view(rs).insert(p as int, values_view(row@)));
    }
}

/// Deletes the row of a key.
pub fn del_row(keys: &mut Vec<Vec<Value>>, rows: &mut Vec<Vec<Value>>, k: &Vec<Value>)
    requires
        old(keys)@.len() == old(rows)@.len(),
    ensures
        (Rows { keys: rows_view(final(keys)@), rows: rows_view(final(rows)@) }) == del(
            Rows { keys: rows_view(old(keys)@), rows: rows_view(old(rows)@) },
            values_view(k@),
        ),
        final(keys)@.len() == final(rows)@.len(),
{
    let (p, found) = find_place(keys, k);
    let ghost ks = keys@;
    let ghost rs = rows@;
    if found {
        keys.remove(p);
        rows.remove(p);
        assert(rows_view(keys@) =~= rows_view(ks).remove(p as int));
        assert(rows_view(rows@) =~= rows_view(rs).remove(p as int));
    }
}

/// Reads the row of a key.
pub fn get_row(keys: &Vec<Vec<Value>>, rows: &Vec<Vec<Value>>, k: &Vec<Value>) -> (r: Option<Vec<Value>>)
    requires
        keys@.len() == rows@.len(),
    ensures
        (match r { Some(row) => Some(values_view(row@)), None => None }) == row_of(
            Rows { keys: rows_view(keys@), rows: rows_view(rows@) },
            values_view(k@),
        ),
{
    let (p, found) = find_place(keys, k);
    if found {
        Some(dup_values(&rows[p]))
    } else {
        None
    }
}

} // verus!
