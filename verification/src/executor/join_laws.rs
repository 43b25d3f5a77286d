use vstd::prelude::*;
use crate::parser::ast::JoinType;
use crate::value::ValueView;
use super::join::{joined_rows, left_major, left_part, nulls, resized, right_major, right_part, with_left, with_right};

verus! {

/// Whether a left and a right row belong together: they hold the same value, which is not null, in
/// the columns that the join is on.
pub open spec fn belong(l: Seq<ValueView>, li: nat, r: Seq<ValueView>, ri: nat) -> bool {
    li < l.len() && ri < r.len() && l[li as int] == r[ri as int] && !(l[li as int] is Null)
}

proof fn lemma_with_right(l: Seq<ValueView>, right: Seq<Seq<ValueView>>, li: nat, ri: nat)
    ensures
        with_right(l, right, li, ri) == right.filter(|r: Seq<ValueView>| belong(l, li, r, ri)).map_values(
            |r: Seq<ValueView>| l + r,
        ),
    decreases right.len(),
{
    reveal(Seq::filter);
    let p = |r: Seq<ValueView>| belong(l, li, r, ri);
    let f = |r: Seq<ValueView>| l + r;
    if right.len() > 0 {
        lemma_with_right(l, right.drop_last(), li, ri);
        let a = right.drop_last().filter(p);
        assert(a.push(right.last()).map_values(f) =~= a.map_values(f).push(l + right.last()));
    }
    assert(with_right(l, right, li, ri) =~= right.filter(p).map_values(f));
}

proof fn lemma_with_left(left: Seq<Seq<ValueView>>, r: Seq<ValueView>, li: nat, ri: nat)
    ensures
        with_left(left, r, li, ri) == left.filter(|l: Seq<ValueView>| belong(l, li, r, ri)).map_values(
            |l: Seq<ValueView>| l + r,
        ),
    decreases left.len(),
{
    reveal(Seq::filter);
    let p = |l: Seq<ValueView>| belong(l, li, r, ri);
    let f = |l: Seq<ValueView>| l + r;
    if left.len() > 0 {
        lemma_with_left(left.drop_last(), r, li, ri);
        let a = left.drop_last().filter(p);
        assert(a.push(left.last()).map_values(f) =~= a.map_values(f).push(left.last() + r));
    }
    assert(with_left(left, r, li, ri) =~= left.filter(p).map_values(f));
}

/// A LEFT JOIN adds for each left row the right rows that belong to it, each behind the left row, or
/// the left row with nulls behind it where there are none.
pub proof fn law_left_join_grows(
    left: Seq<Seq<ValueView>>,
    l: Seq<ValueView>,
    right: Seq<Seq<ValueView>>,
    li: nat,
    ri: nat,
    rw: nat,
)
    ensures
        ({
            let found = right.filter(|r: Seq<ValueView>| belong(l, li, r, ri)).map_values(|r: Seq<ValueView>| l + r);
            let join = |a: Seq<Seq<ValueView>>| joined_rows(a, right, li, ri, l.len(), rw, JoinType::Left);
            &&& join(Seq::empty()) == Seq::<Seq<ValueView>>::empty()
            &&& join(left.push(l)) == join(left) + (if found.len() == 0 {
                seq![l + nulls(rw)]
            } else {
                found
            })
        }),
{
    lemma_with_right(l, right, li, ri);
    assert(left.push(l).drop_last() =~= left);
    assert(resized(l, l.len() + rw) =~= l + nulls(rw));
}

/// A RIGHT JOIN adds for each right row the left rows that belong to it, each in front of the right
/// row, or the right row with nulls in front of it where there are none.
pub proof fn law_right_join_grows(
    left: Seq<Seq<ValueView>>,
    right: Seq<Seq<ValueView>>,
    r: Seq<ValueView>,
    li: nat,
    ri: nat,
    lw: nat,
    rw: nat,
)
    ensures
        ({
            let found = left.filter(|l: Seq<ValueView>| belong(l, li, r, ri)).map_values(|l: Seq<ValueView>| l + r);
            let join = |b: Seq<Seq<ValueView>>| joined_rows(left, b, li, ri, lw, rw, JoinType::Right);
            &&& join(Seq::empty()) == Seq::<Seq<ValueView>>::empty()
            &&& join(right.push(r)) == join(right) + (if found.len() == 0 {
                seq![nulls(lw) + r]
            } else {
                found
            })
        }),
{
    lemma_with_left(left, r, li, ri);
    assert(right.push(r).drop_last() =~= right);
}

proof fn lemma_right_major(
    left: Seq<Seq<ValueView>>,
    right: Seq<Seq<ValueView>>,
    li: nat,
    ri: nat,
    lw: nat,
    outer: bool,
    j: int,
    row: Seq<ValueView>,
)
    requires
        0 <= j < right.len(),
        right_part(left, right[j], li, ri, lw, outer).contains(row),
    ensures
        right_major(left, right, li, ri, lw, outer).contains(row),
    decreases right.len(),
{
    let a = right_major(left, right.drop_last(), li, ri, lw, outer);
    let b = right_part(left, right.last(), li, ri, lw, outer);
    if j < right.len() - 1 {
        assert(right.drop_last()[j] == right[j]);
        lemma_right_major(left, right.drop_last(), li, ri, lw, outer, j, row);
        let k = choose|k: int| 0 <= k < a.len() && a[k] == row;
        assert((a + b)[k] == row);
    } else {
        let k = choose|k: int| 0 <= k < b.len() && b[k] == row;
        assert((a + b)[a.len() + k] == row);
    }
}

proof fn lemma_left_major(
    left: Seq<Seq<ValueView>>,
    right: Seq<Seq<ValueView>>,
    li: nat,
    ri: nat,
    width: nat,
    outer: bool,
    i: int,
    row: Seq<ValueView>,
)
    requires
        0 <= i < left.len(),
        left_part(left[i], right, li, ri, width, outer).contains(row),
    ensures
        left_major(left, right, li, ri, width, outer).contains(row),
    decreases left.len(),
{
    let a = left_major(left.drop_last(), right, li, ri, width, outer);
    let b = left_part(left.last(), right, li, ri, width, outer);
    if i < left.len() - 1 {
        assert(left.drop_last()[i] == left[i]);
        lemma_left_major(left.drop_last(), right, li, ri, width, outer, i, row);
        let k = choose|k: int| 0 <= k < a.len() && a[k] == row;
        assert((a + b)[k] == row);
    } else {
        let k = choose|k: int| 0 <= k < b.len() && b[k] == row;
        assert((a + b)[a.len() + k] == row);
    }
}

/// A RIGHT JOIN keeps every right row: one that no left row belongs to stands behind nulls.
pub proof fn law_right_join_keeps(
    left: Seq<Seq<ValueView>>,
    right: Seq<Seq<ValueView>>,
    li: nat,
    ri: nat,
    lw: nat,
    rw: nat,
    j: int,
)
    requires
        0 <= j < right.len(),
        forall|i: int| 0 <= i < left.len() ==> !belong(#[trigger] left[i], li, right[j], ri),
    ensures
        joined_rows(left, right, li, ri, lw, rw, JoinType::Right).contains(nulls(lw) + right[j]),
{
    let r = right[j];
    let p = |l: Seq<ValueView>| belong(l, li, r, ri);
    lemma_with_left(left, r, li, ri);
    assert(left.filter(p).len() == 0) by {
        broadcast use vstd::seq_lib::group_filter_ensures;
        if left.filter(p).len() > 0 {
            let l = left.filter(p)[0];
            assert(left.filter(p).contains(l));
            left.lemma_filter_contains_rev(p, l);
            let i = choose|i: int| 0 <= i < left.len() && left[i] == l;
            assert(p(left.filter(p)[0]));
            assert(!belong(left[i], li, right[j], ri));
        }
    }
    assert(right_part(left, r, li, ri, lw, true)[0] == nulls(lw) + r);
    lemma_right_major(left, right, li, ri, lw, true, j, nulls(lw) + r);
}

/// Every pair of rows that belong together stands in a join of any kind, the left row in front.
pub proof fn law_join_holds_pairs(
    left: Seq<Seq<ValueView>>,
    right: Seq<Seq<ValueView>>,
    li: nat,
    ri: nat,
    lw: nat,
    rw: nat,
    how: JoinType,
    i: int,
    j: int,
)
    requires
        0 <= i < left.len(),
        0 <= j < right.len(),
        belong(left[i], li, right[j], ri),
    ensures
        joined_rows(left, right, li, ri, lw, rw, how).contains(left[i] + right[j]),
{
    broadcast use vstd::seq_lib::group_filter_ensures;

    let l = left[i];
    let r = right[j];
    let p = |x: Seq<ValueView>| belong(l, li, x, ri);
    let q = |x: Seq<ValueView>| belong(x, li, r, ri);
    lemma_with_right(l, right, li, ri);
    lemma_with_left(left, r, li, ri);
    assert(p(right[j]) && q(left[i]));
    assert(right.filter(p).contains(right[j]));
    assert(left.filter(q).contains(left[i]));
    let a = choose|a: int| 0 <= a < right.filter(p).len() && right.filter(p)[a] == r;
    let b = choose|b: int| 0 <= b < left.filter(q).len() && left.filter(q)[b] == l;
    assert(with_right(l, right, li, ri)[a] == l + r);
    assert(with_left(left, r, li, ri)[b] == l + r);
    assert(left_part(l, right, li, ri, lw + rw, how is Left).contains(l + r));
    assert(right_part(left, r, li, ri, lw, how is Right).contains(l + r));
    lemma_left_major(left, right, li, ri, lw + rw, how is Left, i, l + r);
    lemma_right_major(left, right, li, ri, lw, how is Right, j, l + r);
}

/// Whether a row is a pair of rows that belong together.
pub open spec fn is_pair(left: Seq<Seq<ValueView>>, right: Seq<Seq<ValueView>>, li: nat, ri: nat, row: Seq<ValueView>) -> bool {
    exists|i: int, j: int|
        0 <= i < left.len() && 0 <= j < right.len() && belong(#[trigger] left[i], li, #[trigger] right[j], ri) && row == left[i]
            + right[j]
}

/// Whether a row is a left row that no right row belongs to, with nulls behind it.
pub open spec fn is_lone_left(left: Seq<Seq<ValueView>>, right: Seq<Seq<ValueView>>, li: nat, ri: nat, width: nat, row: Seq<ValueView>) -> bool {
    exists|i: int|
        0 <= i < left.len() && row == resized(#[trigger] left[i], width) && forall|j: int|
            0 <= j < right.len() ==> !belong(left[i], li, #[trigger] right[j], ri)
}

/// Whether a row is a right row that no left row belongs to, with nulls in front of it.
pub open spec fn is_lone_right(left: Seq<Seq<ValueView>>, right: Seq<Seq<ValueView>>, li: nat, ri: nat, lw: nat, row: Seq<ValueView>) -> bool {
    exists|j: int|
        0 <= j < right.len() && row == nulls(lw) + #[trigger] right[j] && forall|i: int|
            0 <= i < left.len() ==> !belong(#[trigger] left[i], li, right[j], ri)
}

proof fn lemma_left_sound(left: Seq<Seq<ValueView>>, right: Seq<Seq<ValueView>>, li: nat, ri: nat, width: nat, outer: bool, k: int)
    requires
        0 <= k < left_major(left, right, li, ri, width, outer).len(),
    ensures
        is_pair(left, right, li, ri, left_major(left, right, li, ri, width, outer)[k]) || (outer && is_lone_left(
            left,
            right,
            li,
            ri,
            width,
            left_major(left, right, li, ri, width, outer)[k],
        )),
    decreases left.len(),
{
    broadcast use vstd::seq_lib::group_filter_ensures;

    let row = left_major(left, right, li, ri, width, outer)[k];
    let a = left_major(left.drop_last(), right, li, ri, width, outer);
    let l = left.last();
    let last = left.len() - 1;
    if k < a.len() {
        lemma_left_sound(left.drop_last(), right, li, ri, width, outer, k);
        assert(row == a[k]);
        if is_pair(left.drop_last(), right, li, ri, row) {
            let (i, j) = choose|i: int, j: int|
                0 <= i < left.drop_last().len() && 0 <= j < right.len() && belong(
                    #[trigger] left.drop_last()[i],
                    li,
                    #[trigger] right[j],
                    ri,
                ) && row == left.drop_last()[i] + right[j];
            assert(left.drop_last()[i] == left[i]);
            assert(belong(left[i], li, right[j], ri));
        } else {
            let i = choose|i: int|
                0 <= i < left.drop_last().len() && row == resized(#[trigger] left.drop_last()[i], width) && forall|j: int|
                    0 <= j < right.len() ==> !belong(left.drop_last()[i], li, #[trigger] right[j], ri);
            assert(left.drop_last()[i] == left[i]);
        }
    } else {
        let p = |r: Seq<ValueView>| belong(l, li, r, ri);
        lemma_with_right(l, right, li, ri);
        let found = right.filter(p);
        if with_right(l, right, li, ri).len() == 0 && outer {
            assert(row == resized(left[last], width));
            assert forall|j: int| 0 <= j < right.len() implies !belong(left[last], li, #[trigger] right[j], ri) by {
                if belong(left[last], li, right[j], ri) {
                    assert(p(right[j]));
                    assert(found.contains(right[j]));
                }
            }
        } else {
            let x = found[k - a.len()];
            assert(p(found[k - a.len()]));
            assert(row == l + x);
            assert(found.contains(x));
            right.lemma_filter_contains_rev(p, x);
            let j = choose|j: int| 0 <= j < right.len() && right[j] == x;
            assert(belong(left[last], li, right[j], ri));
        }
    }
}

proof fn lemma_right_sound(left: Seq<Seq<ValueView>>, right: Seq<Seq<ValueView>>, li: nat, ri: nat, lw: nat, outer: bool, k: int)
    requires
        0 <= k < right_major(left, right, li, ri, lw, outer).len(),
    ensures
        is_pair(left, right, li, ri, right_major(left, right, li, ri, lw, outer)[k]) || (outer && is_lone_right(
            left,
            right,
            li,
            ri,
            lw,
            right_major(left, right, li, ri, lw, outer)[k],
        )),
    decreases right.len(),
{
    broadcast use vstd::seq_lib::group_filter_ensures;

    let row = right_major(left, right, li, ri, lw, outer)[k];
    let a = right_major(left, right.drop_last(), li, ri, lw, outer);
    let r = right.last();
    let last = right.len() - 1;
    if k < a.len() {
        lemma_right_sound(left, right.drop_last(), li, ri, lw, outer, k);
        assert(row == a[k]);
        if is_pair(left, right.drop_last(), li, ri, row) {
            let (i, j) = choose|i: int, j: int|
                0 <= i < left.len() && 0 <= j < right.drop_last().len() && belong(
                    #[trigger] left[i],
                    li,
                    #[trigger] right.drop_last()[j],
                    ri,
                ) && row == left[i] + right.drop_last()[j];
            assert(right.drop_last()[j] == right[j]);
            assert(belong(left[i], li, right[j], ri));
        } else {
            let j = choose|j: int|
                0 <= j < right.drop_last().len() && row == nulls(lw) + #[trigger] right.drop_last()[j] && forall|i: int|
                    0 <= i < left.len() ==> !belong(#[trigger] left[i], li, right.drop_last()[j], ri);
            assert(right.drop_last()[j] == right[j]);
        }
    } else {
        let p = |l: Seq<ValueView>| belong(l, li, r, ri);
        lemma_with_left(left, r, li, ri);
        let found = left.filter(p);
        if with_left(left, r, li, ri).len() == 0 && outer {
            assert(row == nulls(lw) + right[last]);
            assert forall|i: int| 0 <= i < left.len() implies !belong(#[trigger] left[i], li, right[last], ri) by {
                if belong(left[i], li, right[last], ri) {
                    assert(p(left[i]));
                    assert(found.contains(left[i]));
                }
            }
        } else {
            let x = found[k - a.len()];
            assert(p(found[k - a.len()]));
            assert(row == x + r);
            assert(found.contains(x));
            left.lemma_filter_contains_rev(p, x);
            let i = choose|i: int| 0 <= i < left.len() && left[i] == x;
            assert(belong(left[i], li, right[last], ri));
        }
    }
}

/// A join holds nothing but pairs of rows that belong together and, where it keeps one side, rows of
/// that side that nothing belongs to.
pub proof fn law_join_holds_no_more(
    left: Seq<Seq<ValueView>>,
    right: Seq<Seq<ValueView>>,
    li: nat,
    ri: nat,
    lw: nat,
    rw: nat,
    how: JoinType,
    k: int,
)
    requires
        0 <= k < joined_rows(left, right, li, ri, lw, rw, how).len(),
    ensures
        ({
            let row = joined_rows(left, right, li, ri, lw, rw, how)[k];
            is_pair(left, right, li, ri, row) || (match how {
                JoinType::Inner => false,
                JoinType::Left => is_lone_left(left, right, li, ri, lw + rw, row),
                JoinType::Right => is_lone_right(left, right, li, ri, lw, row),
            })
        }),
{
    match how {
        JoinType::Inner => {
            if joined_rows(left, right, li, ri, lw, rw, how) == right_major(left, right, li, ri, lw, false) {
                lemma_right_sound(left, right, li, ri, lw, false, k);
            } else {
                lemma_left_sound(left, right, li, ri, lw + rw, false, k);
            }
        },
        JoinType::Left => {
            lemma_left_sound(left, right, li, ri, lw + rw, true, k);
        },
        JoinType::Right => {
            lemma_right_sound(left, right, li, ri, lw, true, k);
        },
    }
}

/// How many pairs of rows belong together, counted by the left rows.
pub open spec fn pairs_by_left(left: Seq<Seq<ValueView>>, right: Seq<Seq<ValueView>>, li: nat, ri: nat) -> nat {
    left.fold_left(0nat, |n: nat, l: Seq<ValueView>| n + right.filter(|r: Seq<ValueView>| belong(l, li, r, ri)).len())
}

/// How many pairs of rows belong together, counted by the right rows.
pub open spec fn pairs_by_right(left: Seq<Seq<ValueView>>, right: Seq<Seq<ValueView>>, li: nat, ri: nat) -> nat {
    right.fold_left(0nat, |n: nat, r: Seq<ValueView>| n + left.filter(|l: Seq<ValueView>| belong(l, li, r, ri)).len())
}

proof fn lemma_left_len(left: Seq<Seq<ValueView>>, right: Seq<Seq<ValueView>>, li: nat, ri: nat, width: nat)
    ensures
        left_major(left, right, li, ri, width, false).len() == pairs_by_left(left, right, li, ri),
    decreases left.len(),
{
    if left.len() > 0 {
        lemma_left_len(left.drop_last(), right, li, ri, width);
        lemma_with_right(left.last(), right, li, ri);
    }
}

proof fn lemma_right_len(left: Seq<Seq<ValueView>>, right: Seq<Seq<ValueView>>, li: nat, ri: nat, lw: nat)
    ensures
        right_major(left, right, li, ri, lw, false).len() == pairs_by_right(left, right, li, ri),
    decreases right.len(),
{
    if right.len() > 0 {
        lemma_right_len(left, right.drop_last(), li, ri, lw);
        lemma_with_left(left, right.last(), li, ri);
    }
}

/// An INNER JOIN has as many rows as there are pairs of rows that belong together.
pub proof fn law_inner_join_size(left: Seq<Seq<ValueView>>, right: Seq<Seq<ValueView>>, li: nat, ri: nat, lw: nat, rw: nat)
    ensures
        ({
            let n = joined_rows(left, right, li, ri, lw, rw, JoinType::Inner).len();
            n == pairs_by_left(left, right, li, ri) || n == pairs_by_right(left, right, li, ri)
        }),
{
    lemma_left_len(left, right, li, ri, lw + rw);
    lemma_right_len(left, right, li, ri, lw);
}

} // verus!
