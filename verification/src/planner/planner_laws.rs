use vstd::prelude::*;
use crate::executor::select::base_table;
use crate::parser::ast::{BinOp, ExprView, FromClauseView, LiteralValueView, SelectStmtView};
use super::logical_plan::select_plan;
use super::optimizer::{IndexInfoView, Seek, best_seek, column_test, conjuncts, index_on, indexes_of, optimized, seek_for, smallest};
use super::plan::PhysicalPlanView;

verus! {

/// The table that is read first is one of the smallest, and of these the one that is written first.
pub proof fn law_smallest(c: Seq<u64>, k: int)
    requires
        0 <= k < c.len(),
    ensures
        0 <= smallest(c) < c.len(),
        c[smallest(c)] <= c[k],
        k < smallest(c) ==> c[smallest(c)] < c[k],
    decreases c.len(),
{
    if c.len() > 1 {
        let d = c.drop_last();
        law_smallest(d, 0);
        if k < d.len() {
            law_smallest(d, k);
        }
    }
}

/// A condition compares a column with a constant, whichever of the two stands on the left.
pub proof fn law_column_test(c: Seq<char>, l: LiteralValueView)
    ensures
        ({
            let x = Box::new(ExprView::Column(c));
            let v = ExprView::Literal(l);
            let y = Box::new(v);
            &&& column_test(ExprView::BinaryOp { left: x, op: BinOp::Eq, right: y }) == Some((c, BinOp::Eq, v))
            &&& column_test(ExprView::BinaryOp { left: y, op: BinOp::Eq, right: x }) == Some((c, BinOp::Eq, v))
            &&& column_test(ExprView::BinaryOp { left: x, op: BinOp::Lt, right: y }) == Some((c, BinOp::Lt, v))
            &&& column_test(ExprView::BinaryOp { left: y, op: BinOp::Lt, right: x }) == Some((c, BinOp::Gt, v))
            &&& column_test(ExprView::BinaryOp { left: x, op: BinOp::Gt, right: y }) == Some((c, BinOp::Gt, v))
            &&& column_test(ExprView::BinaryOp { left: y, op: BinOp::Gt, right: x }) == Some((c, BinOp::Lt, v))
            &&& column_test(ExprView::BinaryOp { left: x, op: BinOp::Lte, right: y }) == Some((c, BinOp::Lte, v))
            &&& column_test(ExprView::BinaryOp { left: y, op: BinOp::Lte, right: x }) == Some((c, BinOp::Gte, v))
            &&& column_test(ExprView::BinaryOp { left: x, op: BinOp::Gte, right: y }) == Some((c, BinOp::Gte, v))
            &&& column_test(ExprView::BinaryOp { left: y, op: BinOp::Gte, right: x }) == Some((c, BinOp::Lte, v))
            &&& column_test(ExprView::BinaryOp { left: x, op: BinOp::Neq, right: y }) is None
            &&& column_test(ExprView::BinaryOp { left: x, op: BinOp::Like, right: y }) is None
        }),
{
}

/// Whether an index helps with a condition by an equality.
pub open spec fn seeks_equal(x: Seq<IndexInfoView>, e: ExprView) -> bool {
    seek_for(x, e) is Some && seek_for(x, e)->0.op == BinOp::Eq
}

/// An index is used where one of the conditions lets it be; an equality goes before a range, and of
/// those that count alike the first is taken.
pub proof fn law_best_seek(x: Seq<IndexInfoView>, c: Seq<ExprView>, k: int)
    requires
        0 <= k < c.len(),
        seek_for(x, c[k]) is Some,
    ensures
        best_seek(x, c) is Some,
        seeks_equal(x, c[k]) ==> best_seek(x, c)->0.op == BinOp::Eq,
        seeks_equal(x, c[k]) && (forall|j: int| 0 <= j < k ==> !seeks_equal(x, #[trigger] c[j])) ==> best_seek(x, c) == seek_for(x, c[k]),
        (forall|j: int| 0 <= j < c.len() ==> !seeks_equal(x, #[trigger] c[j])) && (forall|j: int|
            0 <= j < k ==> seek_for(x, #[trigger] c[j]) is None) ==> best_seek(x, c) == seek_for(x, c[k]),
    decreases c.len(),
{
    lemma_best_from(x, c);
    let d = c.drop_last();
    if k < d.len() {
        assert(d[k] == c[k]);
        law_best_seek(x, d, k);
        if seeks_equal(x, c[k]) && (forall|j: int| 0 <= j < k ==> !seeks_equal(x, #[trigger] c[j])) {
            assert forall|j: int| 0 <= j < k implies !seeks_equal(x, #[trigger] d[j]) by {
                assert(d[j] == c[j]);
            }
        }
        if (forall|j: int| 0 <= j < c.len() ==> !seeks_equal(x, #[trigger] c[j])) && (forall|j: int|
            0 <= j < k ==> seek_for(x, #[trigger] c[j]) is None) {
            assert forall|j: int| 0 <= j < d.len() implies !seeks_equal(x, #[trigger] d[j]) by {
                assert(d[j] == c[j]);
            }
            assert forall|j: int| 0 <= j < k implies seek_for(x, #[trigger] d[j]) is None by {
                assert(d[j] == c[j]);
            }
            assert(!seeks_equal(x, c[c.len() - 1]));
        }
    } else {
        lemma_best_from(x, d);
        assert(c.last() == c[k]);
        if best_seek(x, d) is Some {
            let j = choose|j: int| 0 <= j < d.len() && seek_for(x, #[trigger] d[j]) == best_seek(x, d);
            assert(d[j] == c[j]);
            if best_seek(x, d)->0.op == BinOp::Eq {
                assert(seeks_equal(x, c[j]));
            }
        }
    }
}

proof fn lemma_best_from(x: Seq<IndexInfoView>, c: Seq<ExprView>)
    ensures
        best_seek(x, c) is Some ==> exists|j: int| 0 <= j < c.len() && seek_for(x, #[trigger] c[j]) == best_seek(x, c),
    decreases c.len(),
{
    if c.len() > 0 {
        let d = c.drop_last();
        lemma_best_from(x, d);
        if best_seek(x, c) is Some {
            if best_seek(x, c) == best_seek(x, d) {
                let j = choose|j: int| 0 <= j < d.len() && seek_for(x, #[trigger] d[j]) == best_seek(x, d);
                assert(c[j] == d[j]);
            } else {
                assert(seek_for(x, c[c.len() - 1]) == best_seek(x, c));
            }
        }
    }
}

/// The plan of a query over one table with an equality on an indexed column reads the table by that
/// index, and tests the whole condition again.
pub proof fn law_indexed_query(
    q: SelectStmtView,
    s: Seq<(Seq<char>, u64)>,
    cat: Seq<(Seq<char>, Seq<IndexInfoView>)>,
    t: Seq<char>,
    x: Seq<IndexInfoView>,
    c: Seq<char>,
    l: LiteralValueView,
    name: Seq<char>,
)
    requires
        q.from == FromClauseView::Table(t),
        q.joins.len() == 0,
        q.where_clause == Some(
            (ExprView::BinaryOp { left: Box::new(ExprView::Column(c)), op: BinOp::Eq, right: Box::new(ExprView::Literal(l)) }),
        ),
        q.group_by.len() == 0,
        !crate::executor::grouping::list_has_aggregate(q.columns),
        q.order_by.len() == 0,
        q.limit is None,
        q.offset is None,
        !q.distinct,
        indexes_of(cat, t) == Some(x),
        index_on(x, c) == Some(name),
    ensures
        select_plan(q) matches Ok(p) && optimized(p, s, cat) == (PhysicalPlanView::Project {
            input: Box::new(
                PhysicalPlanView::IndexScan {
                    table: t,
                    index_name: name,
                    column: c,
                    op: BinOp::Eq,
                    value: ExprView::Literal(l),
                    filter: q.where_clause,
                    limit: None,
                },
            ),
            columns: q.columns,
        }),
{
    let e = ExprView::BinaryOp { left: Box::new(ExprView::Column(c)), op: BinOp::Eq, right: Box::new(ExprView::Literal(l)) };
    assert(base_table(q) == Some(t));
    assert(q.joins =~= Seq::empty());
    assert(conjuncts(e) == seq![e]);
    let one = seq![e];
    assert(one.drop_last() =~= Seq::empty());
    reveal_with_fuel(best_seek, 2);
    assert(best_seek(x, one) == Some(Seek { index: name, column: c, op: BinOp::Eq, value: ExprView::Literal(l) }));
    reveal_with_fuel(super::optimizer::physical_of, 4);
    reveal_with_fuel(super::optimizer::limit_down, 3);
    reveal_with_fuel(super::optimizer::indexed, 3);
}

} // verus!
