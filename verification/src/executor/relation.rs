use vstd::prelude::*;
use vstd::string::*;
use crate::text::text_is;
use crate::value::{Value, ValueView, dup_names, dup_rows, dup_values, names_view, rows_push, rows_view, values_view};

verus! {

/// Column names and rows.
#[derive(Debug)]
pub struct Relation {
    pub columns: Vec<String>,
    pub rows: Vec<Vec<Value>>,
}

/// What contracts say about a `Relation`.
pub struct RelationView {
    pub columns: Seq<Seq<char>>,
    pub rows: Seq<Seq<ValueView>>,
}

impl Relation {
    pub open spec fn view(&self) -> RelationView {
        RelationView { columns: names_view(self.columns@), rows: rows_view(self.rows@) }
    }

    /// A copy of the whole relation.
    pub fn dup(&self) -> (r: Relation)
        ensures
            r@ == self@,
    {
        Relation { columns: dup_names(&self.columns), rows: dup_rows(&self.rows) }
    }
}

fn same_vec(a: &Vec<u8>, b: &Vec<u8>) -> (r: bool)
    ensures
        r == (a@ == b@),
{
    if a.len() != b.len() {
        return false;
    }
    let mut i: usize = 0;
    while i < a.len()
        invariant
            i <= a.len(),
            a.len() == b.len(),
            forall|j: int| 0 <= j < i ==> a@[j] == b@[j],
        decreases a.len() - i,
    {
        if a[i] != b[i] {
            return false;
        }
        i = i + 1;
    }
    assert(a@ =~= b@);
    true
}

/// Whether two values are the very same.
pub fn same_value(a: &Value, b: &Value) -> (r: bool)
    ensures
        r == (a@ == b@),
{
    match (a, b) {
        (Value::Null, Value::Null) => true,
        (Value::Bool(x), Value::Bool(y)) => *x == *y,
        (Value::Int64(x), Value::Int64(y)) => *x == *y,
        (Value::Float64(x), Value::Float64(y)) => *x == *y,
        (Value::Text(x), Value::Text(y)) => text_is(x.as_str(), y.as_str()),
        (Value::Bytes(x), Value::Bytes(y)) => same_vec(x, y),
        (Value::Json(x), Value::Json(y)) => text_is(x.as_str(), y.as_str()),
        (Value::Timestamp(x), Value::Timestamp(y)) => *x == *y,
        (Value::Date(x), Value::Date(y)) => *x == *y,
        (Value::Uuid(x), Value::Uuid(y)) => *x == *y,
        (Value::Decimal(x, k), Value::Decimal(y, l)) => *x == *y && *k == *l,
        (Value::Interval(x), Value::Interval(y)) => *x == *y,
        _ => false,
    }
}

/// Whether two rows hold the very same values.
pub fn same_row(a: &Vec<Value>, b: &Vec<Value>) -> (r: bool)
    ensures
        r == (values_view(a@) == values_view(b@)),
{
    if a.len() != b.len() {
        assert(values_view(a@).len() != values_view(b@).len());
        return false;
    }
    let mut i: usize = 0;
    while i < a.len()
        invariant
            i <= a.len(),
            a.len() == b.len(),
            forall|j: int| 0 <= j < i ==> values_view(a@)[j] == values_view(b@)[j],
        decreases a.len() - i,
    {
        if !same_value(&a[i], &b[i]) {
            assert(values_view(a@)[i as int] != values_view(b@)[i as int]);
            return false;
        }
        i = i + 1;
    }
    assert(values_view(a@) =~= values_view(b@));
    true
}

/// Whether one of the rows is `row`.
pub fn has_row(rows: &Vec<Vec<Value>>, row: &Vec<Value>) -> (r: bool)
    ensures
        r == rows_view(rows@).contains(values_view(row@)),
{
    let mut i: usize = 0;
    while i < rows.len()
        invariant
            i <= rows.len(),
            forall|j: int| 0 <= j < i ==> rows_view(rows@)[j] != values_view(row@),
        decreases rows.len() - i,
    {
        if same_row(&rows[i], row) {
            assert(rows_view(rows@)[i as int] == values_view(row@));
            return true;
        }
        i = i + 1;
    }
    false
}

/// The rows without those that have stood before.
pub open spec fn distinct<T>(rows: Seq<T>) -> Seq<T>
    decreases rows.len(),
{
    if rows.len() == 0 {
        Seq::empty()
    } else {
        let d = distinct(rows.drop_last());
        if d.contains(rows.last()) {
            d
        } else {
            d.push(rows.last())
        }
    }
}

pub fn distinct_rows(rows: &Vec<Vec<Value>>) -> (r: Vec<Vec<Value>>)
    ensures
        rows_view(r@) == distinct(rows_view(rows@)),
{
    let mut out: Vec<Vec<Value>> = Vec::new();
    let mut i: usize = 0;
    let ghost all = rows_view(rows@);
    assert(all.take(0) =~= Seq::empty());
    assert(rows_view(out@) =~= Seq::empty());
    while i < rows.len()
        invariant
            i <= rows.len(),
            all == rows_view(rows@),
            rows_view(out@) == distinct(all.take(i as int)),
        decreases rows.len() - i,
    {
        assert(all.take(i + 1).drop_last() =~= all.take(i as int));
        if !has_row(&out, &rows[i]) {
            let row = dup_values(&rows[i]);
            proof {
                rows_push(out@, row);
            }
            out.push(row);
        }
        i = i + 1;
    }
    assert(all.take(rows.len() as int) =~= all);
    out
}

/// DISTINCT keeps each row once: what it gives holds no row twice, and the rows that it was given.
pub proof fn law_distinct<T>(rows: Seq<T>)
    ensures
        distinct(rows).no_duplicates(),
        forall|x: T| #[trigger] distinct(rows).contains(x) <==> rows.contains(x),
    decreases rows.len(),
{
    if rows.len() > 0 {
        let d = distinct(rows.drop_last());
        law_distinct(rows.drop_last());
        assert forall|x: T| #[trigger] distinct(rows).contains(x) <==> rows.contains(x) by {
            if rows.contains(x) {
                let i = choose|i: int| 0 <= i < rows.len() && rows[i] == x;
                if i < rows.len() - 1 {
                    assert(rows.drop_last()[i] == x);
                    assert(rows.drop_last().contains(x));
                    assert(d.contains(x));
                    let k = choose|k: int| 0 <= k < d.len() && d[k] == x;
                    assert(distinct(rows)[k] == x);
                } else {
                    if !d.contains(x) {
                        assert(distinct(rows)[d.len() as int] == x);
                    }
                }
            }
            if distinct(rows).contains(x) {
                let i = choose|i: int| 0 <= i < distinct(rows).len() && distinct(rows)[i] == x;
                if i < d.len() {
                    assert(d.contains(x));
                    assert(rows.drop_last().contains(x));
                    let k = choose|k: int| 0 <= k < rows.drop_last().len() && rows.drop_last()[k] == x;
                    assert(rows[k] == x);
                } else {
                    assert(rows[rows.len() - 1] == x);
                }
            }
        }
    }
}

/// DISTINCT of what it gave changes nothing.
pub proof fn law_distinct_twice<T>(rows: Seq<T>)
    ensures
        distinct(distinct(rows)) == distinct(rows),
{
    law_distinct(rows);
    lemma_distinct_keeps(distinct(rows));
}

proof fn lemma_distinct_keeps<T>(rows: Seq<T>)
    requires
        rows.no_duplicates(),
    ensures
        distinct(rows) == rows,
    decreases rows.len(),
{
    if rows.len() > 0 {
        lemma_distinct_keeps(rows.drop_last());
        assert(!rows.drop_last().contains(rows.last())) by {
            if rows.drop_last().contains(rows.last()) {
                let i = choose|i: int| 0 <= i < rows.drop_last().len() && rows.drop_last()[i] == rows.last();
                assert(rows[i] == rows[rows.len() - 1]);
            }
        }
        assert(rows.drop_last().push(rows.last()) =~= rows);
    } else {
        assert(distinct(rows) =~= rows);
    }
}

/// At most `count` rows from behind the first `offset` on.
pub open spec fn limited<T>(rows: Seq<T>, count: nat, offset: nat) -> Seq<T> {
    super::strings::slice_of(rows, offset, Some(count))
}

pub fn limit_rows(rows: &Vec<Vec<Value>>, count: usize, offset: usize) -> (r: Vec<Vec<Value>>)
    ensures
        rows_view(r@) == limited(rows_view(rows@), count as nat, offset as nat),
{
    let a: usize = if offset <= rows.len() { offset } else { rows.len() };
    let b: usize = if count <= rows.len() - a { a + count } else { rows.len() };
    let ghost all = rows_view(rows@);
    let mut out: Vec<Vec<Value>> = Vec::new();
    let mut i: usize = a;
    assert(rows_view(out@) =~= all.subrange(a as int, a as int));
    while i < b
        invariant
            a <= i <= b <= rows.len(),
            all == rows_view(rows@),
            rows_view(out@) == all.subrange(a as int, i as int),
        decreases b - i,
    {
        let row = dup_values(&rows[i]);
        proof {
            rows_push(out@, row);
            assert(all.subrange(a as int, i + 1) =~= all.subrange(a as int, i as int).push(all[i as int]));
        }
        out.push(row);
        i = i + 1;
    }
    assert(all.skip(a as int) =~= all.subrange(a as int, all.len() as int));
    out
}

/// LIMIT without an offset gives the first rows, and never more than were asked for.
pub proof fn law_limit<T>(rows: Seq<T>, count: nat)
    ensures
        limited(rows, count, 0) == (if count <= rows.len() { rows.take(count as int) } else { rows }),
        limited(rows, count, 0).len() <= count,
{
    assert(rows.skip(0) =~= rows);
    assert(rows.take(rows.len() as int) =~= rows);
    if count <= rows.len() {
        assert(rows.subrange(0, count as int) =~= rows.take(count as int));
    }
}

/// The rows that a LIMIT passes over and those that it gives are together the first rows.
pub proof fn law_offset_goes_on<T>(rows: Seq<T>, offset: nat, count: nat)
    ensures
        limited(rows, offset, 0) + limited(rows, count, offset) == limited(rows, offset + count, 0),
{
    law_limit(rows, offset);
    law_limit(rows, offset + count);
    assert(limited(rows, offset, 0) + limited(rows, count, offset) =~= limited(rows, offset + count, 0));
}

/// What a value counts as when rows of two queries are held against each other: values of the
/// types behind text all count as one.
pub open spec fn set_key(v: ValueView) -> Option<ValueView> {
    match v {
        ValueView::Null => Some(v),
        ValueView::Bool(_) => Some(v),
        ValueView::Int64(_) => Some(v),
        ValueView::Float64(_) => Some(v),
        ValueView::Text(_) => Some(v),
        _ => None,
    }
}

pub open spec fn row_key(row: Seq<ValueView>) -> Seq<Option<ValueView>> {
    Seq::new(row.len(), |i: int| set_key(row[i]))
}

fn same_key_value(a: &Value, b: &Value) -> (r: bool)
    ensures
        r == (set_key(a@) == set_key(b@)),
{
    match (a, b) {
        (Value::Null, Value::Null) => true,
        (Value::Bool(x), Value::Bool(y)) => *x == *y,
        (Value::Int64(x), Value::Int64(y)) => *x == *y,
        (Value::Float64(x), Value::Float64(y)) => *x == *y,
        (Value::Text(x), Value::Text(y)) => text_is(x.as_str(), y.as_str()),
        _ => !plain(a) && !plain(b),
    }
}

fn plain(v: &Value) -> (r: bool)
    ensures
        r == (set_key(v@) is Some),
{
    match v {
        Value::Null => true,
        Value::Bool(_) => true,
        Value::Int64(_) => true,
        Value::Float64(_) => true,
        Value::Text(_) => true,
        _ => false,
    }
}

/// Whether two rows count as the same in a set operation.
pub fn same_key(a: &Vec<Value>, b: &Vec<Value>) -> (r: bool)
    ensures
        r == (row_key(values_view(a@)) == row_key(values_view(b@))),
{
    let ghost x = row_key(values_view(a@));
    let ghost y = row_key(values_view(b@));
    if a.len() != b.len() {
        assert(x.len() != y.len());
        return false;
    }
    let mut i: usize = 0;
    while i < a.len()
        invariant
            i <= a.len(),
            a.len() == b.len(),
            x == row_key(values_view(a@)),
            y == row_key(values_view(b@)),
            forall|j: int| 0 <= j < i ==> x[j] == y[j],
        decreases a.len() - i,
    {
        if !same_key_value(&a[i], &b[i]) {
            assert(x[i as int] != y[i as int]);
            return false;
        }
        i = i + 1;
    }
    assert(x =~= y);
    true
}

pub open spec fn row_keys(rows: Seq<Seq<ValueView>>) -> Seq<Seq<Option<ValueView>>> {
    Seq::new(rows.len(), |i: int| row_key(rows[i]))
}

/// The first place of `x`.
pub open spec fn place_of<T>(s: Seq<T>, x: T) -> int
    decreases s.len(),
{
    if s.len() == 0 || s[0] == x {
        0
    } else {
        1 + place_of(s.skip(1), x)
    }
}

/// The items that are not `k`.
pub open spec fn without<T>(s: Seq<T>, k: T) -> Seq<T>
    decreases s.len(),
{
    if s.len() == 0 {
        s
    } else if s.last() == k {
        without(s.drop_last(), k)
    } else {
        without(s.drop_last(), k).push(s.last())
    }
}

/// The keys that are left of the right side once `k` has been matched: without the first such key
/// where rows count as often as they stand, and otherwise without all of them.
pub open spec fn used_up<T>(right: Seq<T>, k: T, all: bool) -> Seq<T> {
    if all {
        right.remove(place_of(right, k))
    } else {
        without(right, k)
    }
}

/// The left rows from place `i` on that the right side matches (`keep`) or does not match.
pub open spec fn matched_rows(
    left: Seq<Seq<ValueView>>,
    right: Seq<Seq<Option<ValueView>>>,
    all: bool,
    keep: bool,
) -> Seq<Seq<ValueView>>
    decreases left.len(),
{
    if left.len() == 0 {
        Seq::empty()
    } else {
        let k = row_key(left[0]);
        if right.contains(k) {
            let rest = matched_rows(left.skip(1), used_up(right, k, all), all, keep);
            if keep {
                seq![left[0]] + rest
            } else {
                rest
            }
        } else {
            let rest = matched_rows(left.skip(1), right, all, keep);
            if keep {
                rest
            } else {
                seq![left[0]] + rest
            }
        }
    }
}

/// UNION.
pub open spec fn union_of(left: Seq<Seq<ValueView>>, right: Seq<Seq<ValueView>>, all: bool) -> Seq<Seq<ValueView>> {
    if all {
        left + right
    } else {
        distinct(left + right)
    }
}

/// INTERSECT.
pub open spec fn intersect_of(left: Seq<Seq<ValueView>>, right: Seq<Seq<ValueView>>, all: bool) -> Seq<Seq<ValueView>> {
    matched_rows(left, row_keys(right), all, true)
}

/// EXCEPT. Without ALL, a row of the right side takes away the first of the left side that it
/// matches, whatever follows.
pub open spec fn except_of(left: Seq<Seq<ValueView>>, right: Seq<Seq<ValueView>>, all: bool) -> Seq<Seq<ValueView>> {
    matched_rows(left, row_keys(right), all, false)
}

pub fn union_rows(left: &Vec<Vec<Value>>, right: &Vec<Vec<Value>>, all: bool) -> (r: Vec<Vec<Value>>)
    ensures
        rows_view(r@) == union_of(rows_view(left@), rows_view(right@), all),
{
    let mut out = dup_rows(left);
    let mut i: usize = 0;
    let ghost l = rows_view(left@);
    let ghost t = rows_view(right@);
    assert(l + t.take(0) =~= l);
    while i < right.len()
        invariant
            i <= right.len(),
            t == rows_view(right@),
            rows_view(out@) == l + t.take(i as int),
        decreases right.len() - i,
    {
        let row = dup_values(&right[i]);
        proof {
            rows_push(out@, row);
            assert(l + t.take(i + 1) =~= (l + t.take(i as int)).push(t[i as int]));
        }
        out.push(row);
        i = i + 1;
    }
    assert(t.take(right.len() as int) =~= t);
    if all {
        out
    } else {
        distinct_rows(&out)
    }
}

proof fn lemma_place<T>(s: Seq<T>, x: T, i: int)
    requires
        0 <= i < s.len(),
        s[i] == x,
        forall|j: int| 0 <= j < i ==> s[j] != x,
    ensures
        place_of(s, x) == i,
    decreases i,
{
    if i > 0 {
        assert(s.skip(1)[i - 1] == x);
        lemma_place(s.skip(1), x, i - 1);
    }
}

fn take_key(right: &mut Vec<&Vec<Value>>, row: &Vec<Value>, all: bool) -> (found: bool)
    ensures
        found == keys_of(old(right)@).contains(row_key(values_view(row@))),
        keys_of(final(right)@) == (if found {
            used_up(keys_of(old(right)@), row_key(values_view(row@)), all)
        } else {
            keys_of(old(right)@)
        }),
{
    let ghost keys = keys_of(right@);
    let ghost k = row_key(values_view(row@));
    if all {
        let mut i: usize = 0;
        while i < right.len()
            invariant
                i <= right.len(),
                *right == *old(right),
                keys == keys_of(right@),
                k == row_key(values_view(row@)),
                all,
                forall|j: int| 0 <= j < i ==> keys[j] != k,
            decreases right.len() - i,
        {
            if same_key(right[i], row) {
                proof {
                    assert(keys[i as int] == k);
                    lemma_place(keys, k, i as int);
                }
                let _ = right.remove(i);
                assert(keys_of(right@) =~= keys.remove(i as int));
                return true;
            }
            i = i + 1;
        }
        false
    } else {
        let mut out: Vec<&Vec<Value>> = Vec::new();
        let mut found = false;
        let mut i: usize = 0;
        assert(without(keys.take(0), k) =~= Seq::empty());
        assert(keys_of(out@) =~= Seq::empty());
        while i < right.len()
            invariant
                i <= right.len(),
                *right == *old(right),
                keys == keys_of(right@),
                k == row_key(values_view(row@)),
                found == (exists|j: int| 0 <= j < i && keys[j] == k),
                keys_of(out@) == without(keys.take(i as int), k),
            decreases right.len() - i,
        {
            assert(keys.take(i + 1).drop_last() =~= keys.take(i as int));
            let item = right[i];
            if same_key(item, row) {
                found = true;
                assert(keys[i as int] == k);
            } else {
                assert(keys_of(out@.push(item)) =~= keys_of(out@).push(row_key(values_view(item@))));
                out.push(item);
            }
            i = i + 1;
        }
        assert(keys.take(right.len() as int) =~= keys);
        if found {
            *right = out;
        }
        found
    }
}

pub open spec fn keys_of(s: Seq<&Vec<Value>>) -> Seq<Seq<Option<ValueView>>> {
    Seq::new(s.len(), |i: int| row_key(values_view(s[i]@)))
}

fn refs_of(rows: &Vec<Vec<Value>>) -> (r: Vec<&Vec<Value>>)
    ensures
        keys_of(r@) == row_keys(rows_view(rows@)),
{
    let mut r: Vec<&Vec<Value>> = Vec::new();
    let mut i: usize = 0;
    while i < rows.len()
        invariant
            i <= rows.len(),
            r.len() == i,
            forall|j: int| 0 <= j < i ==> r@[j] == rows@[j],
        decreases rows.len() - i,
    {
        r.push(&rows[i]);
        i = i + 1;
    }
    assert(keys_of(r@) =~= row_keys(rows_view(rows@)));
    r
}

/// The left rows that the right side matches (`keep`) or does not match.
pub fn match_rows(left: &Vec<Vec<Value>>, right: &Vec<Vec<Value>>, all: bool, keep: bool) -> (r: Vec<Vec<Value>>)
    ensures
        rows_view(r@) == matched_rows(rows_view(left@), row_keys(rows_view(right@)), all, keep),
{
    let mut rest = refs_of(right);
    let mut out: Vec<Vec<Value>> = Vec::new();
    let mut i: usize = 0;
    let ghost l = rows_view(left@);
    let ghost whole = matched_rows(l, row_keys(rows_view(right@)), all, keep);
    assert(l.skip(0) =~= l);
    assert(rows_view(out@) + whole =~= whole);
    while i < left.len()
        invariant
            i <= left.len(),
            l == rows_view(left@),
            rows_view(out@) + matched_rows(l.skip(i as int), keys_of(rest@), all, keep) == whole,
        decreases left.len() - i,
    {
        let ghost before = rows_view(out@);
        let ghost rem = l.skip(i as int);
        let ghost right_keys = keys_of(rest@);
        assert(rem.skip(1) =~= l.skip(i + 1));
        let found = take_key(&mut rest, &left[i], all);
        if found == keep {
            let row = dup_values(&left[i]);
            proof {
                rows_push(out@, row);
            }
            out.push(row);
            assert(before.push(rem[0]) + matched_rows(l.skip(i + 1), keys_of(rest@), all, keep) =~= before + (seq![rem[0]]
                + matched_rows(l.skip(i + 1), keys_of(rest@), all, keep)));
        }
        i = i + 1;
    }
    assert(matched_rows(l.skip(i as int), keys_of(rest@), all, keep) =~= Seq::empty());
    assert(rows_view(out@) + Seq::<Seq<ValueView>>::empty() =~= rows_view(out@));
    out
}

/// INTERSECT ALL and EXCEPT ALL of the same two sides part the left rows between them.
pub proof fn law_intersect_and_except(left: Seq<Seq<ValueView>>, right: Seq<Seq<Option<ValueView>>>, all: bool)
    ensures
        matched_rows(left, right, all, true).to_multiset().add(matched_rows(left, right, all, false).to_multiset())
            =~= left.to_multiset(),
    decreases left.len(),
{
    broadcast use vstd::seq_lib::group_to_multiset_ensures;

    if left.len() > 0 {
        let k = row_key(left[0]);
        let r = if right.contains(k) { used_up(right, k, all) } else { right };
        law_intersect_and_except(left.skip(1), r, all);
        assert(left =~= seq![left[0]] + left.skip(1));
        lemma_front(left[0], left.skip(1));
        lemma_front(left[0], matched_rows(left.skip(1), r, all, true));
        lemma_front(left[0], matched_rows(left.skip(1), r, all, false));
    } else {
        assert(matched_rows(left, right, all, true) =~= Seq::empty());
        assert(matched_rows(left, right, all, false) =~= Seq::empty());
        assert(left =~= Seq::empty());
    }
}

/// An item put before a sequence adds it to what the sequence holds.
pub proof fn lemma_front<T>(x: T, s: Seq<T>)
    ensures
        (seq![x] + s).to_multiset() =~= s.to_multiset().insert(x),
{
    broadcast use vstd::seq_lib::group_to_multiset_ensures;

    vstd::seq_lib::lemma_multiset_commutative(seq![x], s);
    assert(seq![x] =~= Seq::empty().push(x));
    assert(seq![x].to_multiset() =~= Seq::<T>::empty().to_multiset().insert(x));
}

} // verus!
