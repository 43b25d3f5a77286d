use vstd::prelude::*;
use crate::parser::ast::JoinType;
use crate::value::{Value, ValueView, dup_values, rows_push, rows_view, values_push, values_view};
use super::relation::same_value;

verus! {

/// Whether a left and a right row have the same key, which is not null.
pub open spec fn keys_meet(l: Seq<ValueView>, li: nat, r: Seq<ValueView>, ri: nat) -> bool {
    li < l.len() && ri < r.len() && !(l[li as int] is Null) && l[li as int] == r[ri as int]
}

/// `n` nulls.
pub open spec fn nulls(n: nat) -> Seq<ValueView> {
    Seq::new(n, |i: int| ValueView::Null)
}

/// A row cut off or filled up with nulls to `n` values.
pub open spec fn resized(row: Seq<ValueView>, n: nat) -> Seq<ValueView> {
    if row.len() >= n {
        row.take(n as int)
    } else {
        row + nulls((n - row.len()) as nat)
    }
}

/// The left row with each of the right rows that meet it.
pub open spec fn with_right(l: Seq<ValueView>, right: Seq<Seq<ValueView>>, li: nat, ri: nat) -> Seq<Seq<ValueView>>
    decreases right.len(),
{
    if right.len() == 0 {
        Seq::empty()
    } else if keys_meet(l, li, right.last(), ri) {
        with_right(l, right.drop_last(), li, ri).push(l + right.last())
    } else {
        with_right(l, right.drop_last(), li, ri)
    }
}

/// Each of the left rows that meet the right row, with it.
pub open spec fn with_left(left: Seq<Seq<ValueView>>, r: Seq<ValueView>, li: nat, ri: nat) -> Seq<Seq<ValueView>>
    decreases left.len(),
{
    if left.len() == 0 {
        Seq::empty()
    } else if keys_meet(left.last(), li, r, ri) {
        with_left(left.drop_last(), r, li, ri).push(left.last() + r)
    } else {
        with_left(left.drop_last(), r, li, ri)
    }
}

/// What one left row adds to a join; with `outer` set, a row that meets none stands alone.
pub open spec fn left_part(
    l: Seq<ValueView>,
    right: Seq<Seq<ValueView>>,
    li: nat,
    ri: nat,
    width: nat,
    outer: bool,
) -> Seq<Seq<ValueView>> {
    let found = with_right(l, right, li, ri);
    if found.len() == 0 && outer {
        seq![resized(l, width)]
    } else {
        found
    }
}

/// What one right row adds to a join; with `outer` set, a row that meets none stands alone.
pub open spec fn right_part(
    left: Seq<Seq<ValueView>>,
    r: Seq<ValueView>,
    li: nat,
    ri: nat,
    lw: nat,
    outer: bool,
) -> Seq<Seq<ValueView>> {
    let found = with_left(left, r, li, ri);
    if found.len() == 0 && outer {
        seq![nulls(lw) + r]
    } else {
        found
    }
}

/// The join in the order of the left rows.
pub open spec fn left_major(
    left: Seq<Seq<ValueView>>,
    right: Seq<Seq<ValueView>>,
    li: nat,
    ri: nat,
    width: nat,
    outer: bool,
) -> Seq<Seq<ValueView>>
    decreases left.len(),
{
    if left.len() == 0 {
        Seq::empty()
    } else {
        left_major(left.drop_last(), right, li, ri, width, outer) + left_part(left.last(), right, li, ri, width, outer)
    }
}

/// The join in the order of the right rows.
pub open spec fn right_major(
    left: Seq<Seq<ValueView>>,
    right: Seq<Seq<ValueView>>,
    li: nat,
    ri: nat,
    lw: nat,
    outer: bool,
) -> Seq<Seq<ValueView>>
    decreases right.len(),
{
    if right.len() == 0 {
        Seq::empty()
    } else {
        right_major(left, right.drop_last(), li, ri, lw, outer) + right_part(left, right.last(), li, ri, lw, outer)
    }
}

/// Whether every row has an integer as its key.
pub open spec fn int_keys(rows: Seq<Seq<ValueView>>, i: nat) -> bool {
    forall|k: int| 0 <= k < rows.len() ==> i < (#[trigger] rows[k]).len() && rows[k][i as int] is Int64
}

/// The rows of a join of `lw` left and `rw` right columns. An inner join on integers whose left
/// side is the smaller one comes in the order of the right rows.
pub open spec fn joined_rows(
    left: Seq<Seq<ValueView>>,
    right: Seq<Seq<ValueView>>,
    li: nat,
    ri: nat,
    lw: nat,
    rw: nat,
    how: JoinType,
) -> Seq<Seq<ValueView>> {
    match how {
        JoinType::Inner => if int_keys(left, li) && int_keys(right, ri) && left.len() < right.len() {
            right_major(left, right, li, ri, lw, false)
        } else {
            left_major(left, right, li, ri, lw + rw, false)
        },
        JoinType::Left => left_major(left, right, li, ri, lw + rw, true),
        JoinType::Right => right_major(left, right, li, ri, lw, true),
    }
}

fn do_keys_meet(l: &Vec<Value>, li: usize, r: &Vec<Value>, ri: usize) -> (b: bool)
    ensures
        b == keys_meet(values_view(l@), li as nat, values_view(r@), ri as nat),
{
    if li >= l.len() || ri >= r.len() {
        return false;
    }
    match &l[li] {
        Value::Null => false,
        v => same_value(v, &r[ri]),
    }
}

/// Puts copies of the values of `more` behind `row`.
pub fn extend_row(row: &mut Vec<Value>, more: &Vec<Value>)
    ensures
        values_view(final(row)@) == values_view(old(row)@) + values_view(more@),
{
    let mut i: usize = 0;
    let ghost m = values_view(more@);
    let ghost start = values_view(row@);
    assert(start + m.take(0) =~= start);
    while i < more.len()
        invariant
            i <= more.len(),
            m == values_view(more@),
            values_view(row@) == start + m.take(i as int),
        decreases more.len() - i,
    {
        let v = more[i].dup();
        proof {
            values_push(row@, v);
            assert(start + m.take(i + 1) =~= (start + m.take(i as int)).push(m[i as int]));
        }
        row.push(v);
        i = i + 1;
    }
    assert(m.take(more.len() as int) =~= m);
}

fn combine(l: &Vec<Value>, r: &Vec<Value>) -> (row: Vec<Value>)
    ensures
        values_view(row@) == values_view(l@) + values_view(r@),
{
    let mut row = dup_values(l);
    extend_row(&mut row, r);
    row
}

/// A copy of a row, cut off or filled up with nulls to `n` values.
pub fn resize_row(row: &Vec<Value>, n: usize) -> (r: Vec<Value>)
    ensures
        values_view(r@) == resized(values_view(row@), n as nat),
        r@.len() == n,
{
    let mut r: Vec<Value> = Vec::new();
    let ghost all = resized(values_view(row@), n as nat);
    let mut i: usize = 0;
    assert(values_view(r@) =~= all.take(0));
    while i < n
        invariant
            i <= n,
            r@.len() == i,
            all == resized(values_view(row@), n as nat),
            values_view(r@) == all.take(i as int),
        decreases n - i,
    {
        let v = if i < row.len() { row[i].dup() } else { Value::Null };
        proof {
            values_push(r@, v);
            assert(all[i as int] == v@);
            assert(all.take(i + 1) =~= all.take(i as int).push(v@));
        }
        r.push(v);
        i = i + 1;
    }
    assert(all.take(n as int) =~= all);
    r
}

fn null_row(n: usize) -> (r: Vec<Value>)
    ensures
        values_view(r@) == nulls(n as nat),
{
    let mut r: Vec<Value> = Vec::new();
    let mut i: usize = 0;
    assert(values_view(r@) =~= nulls(0));
    while i < n
        invariant
            i <= n,
            values_view(r@) == nulls(i as nat),
        decreases n - i,
    {
        let v = Value::Null;
        proof {
            values_push(r@, v);
        }
        r.push(v);
        i = i + 1;
        assert(values_view(r@) =~= nulls(i as nat));
    }
    r
}

fn add_left_part(
    out: &mut Vec<Vec<Value>>,
    l: &Vec<Value>,
    right: &Vec<Vec<Value>>,
    li: usize,
    ri: usize,
    width: usize,
    outer: bool,
)
    ensures
        rows_view(final(out)@) == rows_view(old(out)@) + left_part(
            values_view(l@),
            rows_view(right@),
            li as nat,
            ri as nat,
            width as nat,
            outer,
        ),
{
    let ghost start = rows_view(out@);
    let ghost x = values_view(l@);
    let ghost t = rows_view(right@);
    let mut found = false;
    let mut j: usize = 0;
    assert(with_right(x, t.take(0), li as nat, ri as nat) =~= Seq::empty());
    assert(start + Seq::<Seq<ValueView>>::empty() =~= start);
    while j < right.len()
        invariant
            j <= right.len(),
            x == values_view(l@),
            t == rows_view(right@),
            found == (with_right(x, t.take(j as int), li as nat, ri as nat).len() > 0),
            rows_view(out@) == start + with_right(x, t.take(j as int), li as nat, ri as nat),
        decreases right.len() - j,
    {
        assert(t.take(j + 1).drop_last() =~= t.take(j as int));
        if do_keys_meet(l, li, &right[j], ri) {
            let row = combine(l, &right[j]);
            proof {
                rows_push(out@, row);
                let w = with_right(x, t.take(j as int), li as nat, ri as nat);
                assert((start + w).push(x + t[j as int]) =~= start + w.push(x + t[j as int]));
            }
            out.push(row);
            found = true;
        }
        j = j + 1;
    }
    assert(t.take(right.len() as int) =~= t);
    if !found && outer {
        let row = resize_row(l, width);
        proof {
            rows_push(out@, row);
            assert(start + Seq::<Seq<ValueView>>::empty() =~= start);
            assert(with_right(x, t, li as nat, ri as nat) =~= Seq::empty());
            assert(start.push(resized(x, width as nat)) =~= start + seq![resized(x, width as nat)]);
        }
        out.push(row);
    }
}

fn add_right_part(
    out: &mut Vec<Vec<Value>>,
    left: &Vec<Vec<Value>>,
    r: &Vec<Value>,
    li: usize,
    ri: usize,
    lw: usize,
    outer: bool,
)
    ensures
        rows_view(final(out)@) == rows_view(old(out)@) + right_part(
            rows_view(left@),
            values_view(r@),
            li as nat,
            ri as nat,
            lw as nat,
            outer,
        ),
{
    let ghost start = rows_view(out@);
    let ghost x = values_view(r@);
    let ghost t = rows_view(left@);
    let mut found = false;
    let mut j: usize = 0;
    assert(with_left(t.take(0), x, li as nat, ri as nat) =~= Seq::empty());
    assert(start + Seq::<Seq<ValueView>>::empty() =~= start);
    while j < left.len()
        invariant
            j <= left.len(),
            x == values_view(r@),
            t == rows_view(left@),
            found == (with_left(t.take(j as int), x, li as nat, ri as nat).len() > 0),
            rows_view(out@) == start + with_left(t.take(j as int), x, li as nat, ri as nat),
        decreases left.len() - j,
    {
        assert(t.take(j + 1).drop_last() =~= t.take(j as int));
        if do_keys_meet(&left[j], li, r, ri) {
            let row = combine(&left[j], r);
            proof {
                rows_push(out@, row);
                let w = with_left(t.take(j as int), x, li as nat, ri as nat);
                assert((start + w).push(t[j as int] + x) =~= start + w.push(t[j as int] + x));
            }
            out.push(row);
            found = true;
        }
        j = j + 1;
    }
    assert(t.take(left.len() as int) =~= t);
    if !found && outer {
        let mut row = null_row(lw);
        extend_row(&mut row, r);
        proof {
            rows_push(out@, row);
            assert(start + Seq::<Seq<ValueView>>::empty() =~= start);
            assert(with_left(t, x, li as nat, ri as nat) =~= Seq::empty());
            assert(start.push(nulls(lw as nat) + x) =~= start + seq![nulls(lw as nat) + x]);
        }
        out.push(row);
    }
}

fn join_by_left(
    left: &Vec<Vec<Value>>,
    right: &Vec<Vec<Value>>,
    li: usize,
    ri: usize,
    width: usize,
    outer: bool,
) -> (r: Vec<Vec<Value>>)
    ensures
        rows_view(r@) == left_major(rows_view(left@), rows_view(right@), li as nat, ri as nat, width as nat, outer),
{
    let mut out: Vec<Vec<Value>> = Vec::new();
    let ghost l = rows_view(left@);
    let ghost t = rows_view(right@);
    let mut i: usize = 0;
    assert(rows_view(out@) =~= left_major(l.take(0), t, li as nat, ri as nat, width as nat, outer));
    while i < left.len()
        invariant
            i <= left.len(),
            l == rows_view(left@),
            t == rows_view(right@),
            rows_view(out@) == left_major(l.take(i as int), t, li as nat, ri as nat, width as nat, outer),
        decreases left.len() - i,
    {
        assert(l.take(i + 1).drop_last() =~= l.take(i as int));
        assert(l.take(i + 1).last() == values_view(left@[i as int]@));
        add_left_part(&mut out, &left[i], right, li, ri, width, outer);
        i = i + 1;
    }
    assert(l.take(left.len() as int) =~= l);
    out
}

fn join_by_right(
    left: &Vec<Vec<Value>>,
    right: &Vec<Vec<Value>>,
    li: usize,
    ri: usize,
    lw: usize,
    outer: bool,
) -> (r: Vec<Vec<Value>>)
    ensures
        rows_view(r@) == right_major(rows_view(left@), rows_view(right@), li as nat, ri as nat, lw as nat, outer),
{
    let mut out: Vec<Vec<Value>> = Vec::new();
    let ghost l = rows_view(left@);
    let ghost t = rows_view(right@);
    let mut i: usize = 0;
    assert(rows_view(out@) =~= right_major(l, t.take(0), li as nat, ri as nat, lw as nat, outer));
    while i < right.len()
        invariant
            i <= right.len(),
            l == rows_view(left@),
            t == rows_view(right@),
            rows_view(out@) == right_major(l, t.take(i as int), li as nat, ri as nat, lw as nat, outer),
        decreases right.len() - i,
    {
        assert(t.take(i + 1).drop_last() =~= t.take(i as int));
        assert(t.take(i + 1).last() == values_view(right@[i as int]@));
        add_right_part(&mut out, left, &right[i], li, ri, lw, outer);
        i = i + 1;
    }
    assert(t.take(right.len() as int) =~= t);
    out
}

pub fn has_int_keys(rows: &Vec<Vec<Value>>, k: usize) -> (r: bool)
    ensures
        r == int_keys(rows_view(rows@), k as nat),
{
    let ghost all = rows_view(rows@);
    let mut i: usize = 0;
    while i < rows.len()
        invariant
            i <= rows.len(),
            all == rows_view(rows@),
            forall|j: int| 0 <= j < i ==> k < (#[trigger] all[j]).len() && all[j][k as int] is Int64,
        decreases rows.len() - i,
    {
        assert(all[i as int] == values_view(rows@[i as int]@));
        if k >= rows[i].len() {
            return false;
        }
        assert(all[i as int][k as int] == rows@[i as int]@[k as int]@);
        match &rows[i][k] {
            Value::Int64(_) => {},
            _ => {
                return false;
            },
        }
        i = i + 1;
    }
    true
}

/// Joins rows of `lw` columns with rows of `rw` columns by the columns `li` and `ri`.
pub fn join_rows(
    left: &Vec<Vec<Value>>,
    right: &Vec<Vec<Value>>,
    li: usize,
    ri: usize,
    lw: usize,
    rw: usize,
    how: JoinType,
) -> (r: Vec<Vec<Value>>)
    requires
        lw + rw <= usize::MAX,
    ensures
        rows_view(r@) == joined_rows(
            rows_view(left@),
            rows_view(right@),
            li as nat,
            ri as nat,
            lw as nat,
            rw as nat,
            how,
        ),
{
    match how {
        JoinType::Inner => {
            if has_int_keys(left, li) && has_int_keys(right, ri) && left.len() < right.len() {
                join_by_right(left, right, li, ri, lw, false)
            } else {
                join_by_left(left, right, li, ri, lw + rw, false)
            }
        },
        JoinType::Left => join_by_left(left, right, li, ri, lw + rw, true),
        JoinType::Right => join_by_right(left, right, li, ri, lw, true),
    }
}

proof fn lemma_with_right(l: Seq<ValueView>, right: Seq<Seq<ValueView>>, li: nat, ri: nat, j: int)
    requires
        0 <= j < right.len(),
        keys_meet(l, li, right[j], ri),
    ensures
        with_right(l, right, li, ri).contains(l + right[j]),
    decreases right.len(),
{
    let w = with_right(l, right, li, ri);
    let v = with_right(l, right.drop_last(), li, ri);
    if j == right.len() - 1 {
        assert(w[v.len() as int] == l + right[j]);
    } else {
        lemma_with_right(l, right.drop_last(), li, ri, j);
        let k = choose|k: int| 0 <= k < v.len() && v[k] == l + right[j];
        assert(w[k] == l + right[j]);
    }
}

proof fn lemma_left_major(
    left: Seq<Seq<ValueView>>,
    right: Seq<Seq<ValueView>>,
    li: nat,
    ri: nat,
    width: nat,
    outer: bool,
    i: int,
    row: Seq<ValueView>,
)
    requires
        0 <= i < left.len(),
        left_part(left[i], right, li, ri, width, outer).contains(row),
    ensures
        left_major(left, right, li, ri, width, outer).contains(row),
    decreases left.len(),
{
    let a = left_major(left.drop_last(), right, li, ri, width, outer);
    let b = left_part(left.last(), right, li, ri, width, outer);
    if i == left.len() - 1 {
        let k = choose|k: int| 0 <= k < b.len() && b[k] == row;
        assert((a + b)[a.len() + k] == row);
    } else {
        lemma_left_major(left.drop_last(), right, li, ri, width, outer, i, row);
        let k = choose|k: int| 0 <= k < a.len() && a[k] == row;
        assert((a + b)[k] == row);
    }
}

/// A join in the order of the left rows holds every pair of rows that meet.
pub proof fn law_join_complete(
    left: Seq<Seq<ValueView>>,
    right: Seq<Seq<ValueView>>,
    li: nat,
    ri: nat,
    width: nat,
    outer: bool,
    i: int,
    j: int,
)
    requires
        0 <= i < left.len(),
        0 <= j < right.len(),
        keys_meet(left[i], li, right[j], ri),
    ensures
        left_major(left, right, li, ri, width, outer).contains(left[i] + right[j]),
{
    lemma_with_right(left[i], right, li, ri, j);
    lemma_left_major(left, right, li, ri, width, outer, i, left[i] + right[j]);
}

/// A LEFT JOIN keeps every left row: where it meets no right row, it stands with nulls.
pub proof fn law_left_join_keeps(
    left: Seq<Seq<ValueView>>,
    right: Seq<Seq<ValueView>>,
    li: nat,
    ri: nat,
    lw: nat,
    rw: nat,
    i: int,
)
    requires
        0 <= i < left.len(),
        forall|j: int| 0 <= j < right.len() ==> !keys_meet(left[i], li, #[trigger] right[j], ri),
    ensures
        joined_rows(left, right, li, ri, lw, rw, JoinType::Left).contains(resized(left[i], lw + rw)),
{
    lemma_meets_none(left[i], right, li, ri);
    assert(left_part(left[i], right, li, ri, lw + rw, true)[0] == resized(left[i], lw + rw));
    lemma_left_major(left, right, li, ri, lw + rw, true, i, resized(left[i], lw + rw));
}

proof fn lemma_meets_none(l: Seq<ValueView>, right: Seq<Seq<ValueView>>, li: nat, ri: nat)
    requires
        forall|j: int| 0 <= j < right.len() ==> !keys_meet(l, li, #[trigger] right[j], ri),
    ensures
        with_right(l, right, li, ri).len() == 0,
    decreases right.len(),
{
    if right.len() > 0 {
        assert(!keys_meet(l, li, right[right.len() - 1], ri));
        assert forall|j: int| 0 <= j < right.drop_last().len() implies !keys_meet(
            l,
            li,
            #[trigger] right.drop_last()[j],
            ri,
        ) by {
            assert(right.drop_last()[j] == right[j]);
        }
        lemma_meets_none(l, right.drop_last(), li, ri);
    }
}

/// A row whose key is null meets no row.
pub proof fn law_null_keys_meet_nothing(l: Seq<ValueView>, li: nat, r: Seq<ValueView>, ri: nat)
    requires
        li < l.len() && l[li as int] is Null || ri < r.len() && r[ri as int] is Null,
    ensures
        !keys_meet(l, li, r, ri),
{
}

} // verus!
