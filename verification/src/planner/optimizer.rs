use vstd::prelude::*;
use vstd::string::*;
use crate::executor::eval::predicate;
use crate::executor::scope::{Env, NamesView, ScopeView};
use crate::parser::ast::{BinOp, Expr, ExprView, JoinType};
use crate::text::text_is;
use crate::value::{ValueView, names_view};
use super::plan::{LogicalPlan, LogicalPlanView, PhysicalPlan, PhysicalPlanView};

verus! {

/// How many rows a table is known to have.
#[derive(Debug)]
pub struct TableRows {
    pub table: String,
    pub rows: u64,
}

/// The known row counts, seen from contracts.
pub open spec fn counts_view(s: Seq<TableRows>) -> Seq<(Seq<char>, u64)> {
    Seq::new(s.len(), |i: int| (s[i].table@, s[i].rows))
}

/// The known row count of a table.
pub open spec fn count_of(s: Seq<(Seq<char>, u64)>, t: Seq<char>) -> Option<u64>
    decreases s.len(),
{
    if s.len() == 0 {
        None
    } else if s.last().0 == t {
        Some(s.last().1)
    } else {
        count_of(s.drop_last(), t)
    }
}

pub fn find_count(s: &Vec<TableRows>, t: &str) -> (r: Option<u64>)
    ensures
        r == count_of(counts_view(s@), t@),
{
    let ghost all = counts_view(s@);
    let mut i: usize = s.len();
    assert(all.take(i as int) =~= all);
    while i > 0
        invariant
            i <= s.len(),
            all == counts_view(s@),
            count_of(all, t@) == count_of(all.take(i as int), t@),
        decreases i,
    {
        assert(all.take(i as int).drop_last() =~= all.take(i - 1));
        assert(all.take(i as int).last() == (s@[i - 1].table@, s@[i - 1].rows));
        if text_is(s[i - 1].table.as_str(), t) {
            return Some(s[i - 1].rows);
        }
        i = i - 1;
    }
    None
}

/// An index that the planner may use.
#[derive(Debug)]
pub struct IndexInfo {
    pub name: String,
    pub columns: Vec<String>,
    pub unique: bool,
}

/// What contracts say about an `IndexInfo`.
pub struct IndexInfoView {
    pub name: Seq<char>,
    pub columns: Seq<Seq<char>>,
    pub unique: bool,
}

impl IndexInfo {
    pub open spec fn view(&self) -> IndexInfoView {
        IndexInfoView { name: self.name@, columns: names_view(self.columns@), unique: self.unique }
    }
}

/// The indexes of a table.
#[derive(Debug)]
pub struct TableIndexes {
    pub table: String,
    pub indexes: Vec<IndexInfo>,
}

pub open spec fn infos_view(s: Seq<IndexInfo>) -> Seq<IndexInfoView> {
    Seq::new(s.len(), |i: int| s[i]@)
}

/// The indexes of tables, seen from contracts.
pub open spec fn catalog_view(s: Seq<TableIndexes>) -> Seq<(Seq<char>, Seq<IndexInfoView>)> {
    Seq::new(s.len(), |i: int| (s[i].table@, infos_view(s[i].indexes@)))
}

// ---- joins

/// The relations of a chain of joins that are plain tables, from the left to the right.
pub open spec fn chain_tables(p: LogicalPlanView) -> Seq<Option<Seq<char>>>
    decreases p,
{
    match p {
        LogicalPlanView::Join { left, right, .. } => chain_tables(*left).push(table_of(*right)),
        _ => seq![table_of(p)],
    }
}

pub open spec fn table_of(p: LogicalPlanView) -> Option<Seq<char>> {
    match p {
        LogicalPlanView::Scan { table, .. } => Some(table),
        _ => None,
    }
}

/// The conditions of a chain of joins.
pub open spec fn chain_edges(p: LogicalPlanView) -> Seq<(ExprView, JoinType)>
    decreases p,
{
    match p {
        LogicalPlanView::Join { left, right, condition, join_type } => chain_edges(*left).push((condition, join_type)),
        _ => Seq::empty(),
    }
}

pub open spec fn all_inner(e: Seq<(ExprView, JoinType)>) -> bool {
    forall|i: int| 0 <= i < e.len() ==> (#[trigger] e[i]).1 == JoinType::Inner
}

/// The row counts of the relations of a chain, nothing where one of them is not known.
pub open spec fn chain_counts(t: Seq<Option<Seq<char>>>, s: Seq<(Seq<char>, u64)>) -> Option<Seq<u64>>
    decreases t.len(),
{
    if t.len() == 0 {
        Some(Seq::empty())
    } else {
        match (chain_counts(t.drop_last(), s), t.last()) {
            (Some(c), Some(name)) => match count_of(s, name) {
                Some(n) => Some(c.push(n)),
                None => None,
            },
            _ => None,
        }
    }
}

/// The place of the first of the smallest counts.
pub open spec fn smallest(c: Seq<u64>) -> int
    decreases c.len(),
{
    if c.len() <= 1 {
        0
    } else {
        let k = smallest(c.drop_last());
        if c.last() < c[k] {
            c.len() - 1
        } else {
            k
        }
    }
}

/// Which relation of a chain comes first: the smallest, where every join is an inner one and all
/// counts are known, and otherwise the one that was written first.
pub open spec fn leader(p: LogicalPlanView, s: Seq<(Seq<char>, u64)>) -> int {
    match chain_counts(chain_tables(p), s) {
        Some(c) => if all_inner(chain_edges(p)) {
            smallest(c)
        } else {
            0
        },
        None => 0,
    }
}

/// A sequence with item `k` in front of the others.
pub open spec fn led_by<T>(s: Seq<T>, k: int) -> Seq<T> {
    seq![s[k]] + s.remove(k)
}

/// Relations joined from the left to the right.
pub open spec fn joined(rels: Seq<PhysicalPlanView>, edges: Seq<(ExprView, JoinType)>) -> PhysicalPlanView
    decreases edges.len(),
{
    if edges.len() == 0 || rels.len() < 2 {
        rels[0]
    } else {
        PhysicalPlanView::HashJoin {
            left: Box::new(joined(rels.drop_last(), edges.drop_last())),
            right: Box::new(rels.last()),
            condition: edges.last().0,
            join_type: edges.last().1,
        }
    }
}

/// A condition put onto a plan: into the scan where the plan is one.
pub open spec fn filtered(p: PhysicalPlanView, e: ExprView) -> PhysicalPlanView {
    match p {
        PhysicalPlanView::SeqScan { table, filter, limit, needed_columns } => PhysicalPlanView::SeqScan {
            table,
            filter: Some(
                match filter {
                    Some(f) => ExprView::BinaryOp { left: Box::new(f), op: BinOp::And, right: Box::new(e) },
                    None => e,
                },
            ),
            limit,
            needed_columns,
        },
        _ => PhysicalPlanView::Filter { input: Box::new(p), predicate: e },
    }
}

/// How a plan is carried out.
pub open spec fn physical_of(p: LogicalPlanView, s: Seq<(Seq<char>, u64)>) -> PhysicalPlanView
    decreases p, 0int,
{
    match p {
        LogicalPlanView::Scan { table, filter } => PhysicalPlanView::SeqScan { table, filter, limit: None, needed_columns: None },
        LogicalPlanView::Filter { input, predicate } => filtered(physical_of(*input, s), predicate),
        LogicalPlanView::Project { input, columns } => PhysicalPlanView::Project { input: Box::new(physical_of(*input, s)), columns },
        LogicalPlanView::Join { left, right, .. } => joined(
            led_by(chain_plans(*left, s).push(physical_of(*right, s)), leader(p, s)),
            chain_edges(p),
        ),
        LogicalPlanView::Aggregate { input, group_by, aggregates, having } => PhysicalPlanView::HashAggregate {
            input: Box::new(physical_of(*input, s)),
            group_by,
            aggregates,
            having,
        },
        LogicalPlanView::Sort { input, order_by } => PhysicalPlanView::Sort { input: Box::new(physical_of(*input, s)), order_by },
        LogicalPlanView::Limit { input, count, offset } => PhysicalPlanView::Limit {
            input: Box::new(physical_of(*input, s)),
            count,
            offset,
        },
        LogicalPlanView::Distinct { input } => PhysicalPlanView::Distinct { input: Box::new(physical_of(*input, s)) },
        LogicalPlanView::Insert { table, columns, source } => PhysicalPlanView::Insert { table, columns, source },
        LogicalPlanView::Update { table, assignments, filter } => PhysicalPlanView::Update { table, assignments, filter },
        LogicalPlanView::Delete { table, filter } => PhysicalPlanView::Delete { table, filter },
        LogicalPlanView::CreateTable(q) => PhysicalPlanView::CreateTable(q),
        LogicalPlanView::DropTable(q) => PhysicalPlanView::DropTable(q),
        LogicalPlanView::CreateIndex(q) => PhysicalPlanView::CreateIndex(q),
        LogicalPlanView::DropIndex(n) => PhysicalPlanView::DropIndex(n),
    }
}

/// The relations of a chain of joins, each as it is carried out.
pub open spec fn chain_plans(p: LogicalPlanView, s: Seq<(Seq<char>, u64)>) -> Seq<PhysicalPlanView>
    decreases p, 1int,
{
    match p {
        LogicalPlanView::Join { left, right, .. } => chain_plans(*left, s).push(physical_of(*right, s)),
        _ => seq![physical_of(p, s)],
    }
}

// ---- limits

/// A limit put into the scan below some conditions.
pub open spec fn limit_in_scan(p: PhysicalPlanView, n: usize) -> PhysicalPlanView
    decreases p,
{
    match p {
        PhysicalPlanView::SeqScan { table, filter, limit, needed_columns } => PhysicalPlanView::SeqScan {
            table,
            filter,
            limit: Some(n),
            needed_columns,
        },
        PhysicalPlanView::Filter { input, predicate } => PhysicalPlanView::Filter {
            input: Box::new(limit_in_scan(*input, n)),
            predicate,
        },
        _ => p,
    }
}

/// A plan whose limit, where it skips no rows and nothing is sorted, also stands in its scan.
pub open spec fn limit_down(p: PhysicalPlanView) -> PhysicalPlanView
    decreases p,
{
    match p {
        PhysicalPlanView::Project { input, columns } => PhysicalPlanView::Project { input: Box::new(limit_down(*input)), columns },
        PhysicalPlanView::Limit { input, count, offset } => if offset == 0 && !(*input is Sort) {
            PhysicalPlanView::Limit { input: Box::new(limit_in_scan(*input, count)), count, offset }
        } else {
            p
        },
        _ => p,
    }
}

// ---- indexes

/// The conditions that a condition joins by AND.
pub open spec fn conjuncts(e: ExprView) -> Seq<ExprView>
    decreases e,
{
    match e {
        ExprView::BinaryOp { left, op: BinOp::And, right } => conjuncts(*left) + conjuncts(*right),
        _ => seq![e],
    }
}

/// The comparison with its sides changed over.
pub open spec fn flipped(op: BinOp) -> BinOp {
    match op {
        BinOp::Lt => BinOp::Gt,
        BinOp::Gt => BinOp::Lt,
        BinOp::Lte => BinOp::Gte,
        BinOp::Gte => BinOp::Lte,
        _ => op,
    }
}

pub fn flip_op(op: BinOp) -> (r: BinOp)
    ensures
        r == flipped(op),
{
    match op {
        BinOp::Lt => BinOp::Gt,
        BinOp::Gt => BinOp::Lt,
        BinOp::Lte => BinOp::Gte,
        BinOp::Gte => BinOp::Lte,
        other => other,
    }
}

/// Changing the sides over twice changes nothing.
pub proof fn law_flip_twice(op: BinOp)
    ensures
        flipped(flipped(op)) == op,
{
}

pub open spec fn can_seek(op: BinOp) -> bool {
    op == BinOp::Eq || op == BinOp::Lt || op == BinOp::Lte || op == BinOp::Gt || op == BinOp::Gte
}

/// A condition as a column, a comparison and a constant.
pub open spec fn column_test(e: ExprView) -> Option<(Seq<char>, BinOp, ExprView)> {
    match e {
        ExprView::BinaryOp { left, op, right } => if !can_seek(op) {
            None
        } else {
            match (crate::executor::select::column_name(*left), *right) {
                (Some(c), ExprView::Literal(_)) => Some((c, op, *right)),
                _ => match (*left, crate::executor::select::column_name(*right)) {
                    (ExprView::Literal(_), Some(c)) => Some((c, flipped(op), *left)),
                    _ => None,
                },
            }
        },
        _ => None,
    }
}

/// The first index whose first column is `c`.
pub open spec fn index_on(x: Seq<IndexInfoView>, c: Seq<char>) -> Option<Seq<char>>
    decreases x.len(),
{
    if x.len() == 0 {
        None
    } else {
        match index_on(x.drop_last(), c) {
            Some(n) => Some(n),
            None => if x.last().columns.len() > 0 && x.last().columns[0] == c {
                Some(x.last().name)
            } else {
                None
            },
        }
    }
}

/// A way to use an index: the index, the column, the comparison and the constant.
pub struct Seek {
    pub index: Seq<char>,
    pub column: Seq<char>,
    pub op: BinOp,
    pub value: ExprView,
}

/// How an index helps with a condition.
pub open spec fn seek_for(x: Seq<IndexInfoView>, e: ExprView) -> Option<Seek> {
    match column_test(e) {
        Some((c, op, v)) => match index_on(x, c) {
            Some(n) => Some(Seek { index: n, column: c, op, value: v }),
            None => None,
        },
        None => None,
    }
}

/// The best way to use an index for some conditions: the first equality, or else the first range.
pub open spec fn best_seek(x: Seq<IndexInfoView>, c: Seq<ExprView>) -> Option<Seek>
    decreases c.len(),
{
    if c.len() == 0 {
        None
    } else {
        let b = best_seek(x, c.drop_last());
        let n = seek_for(x, c.last());
        match (b, n) {
            (Some(s), _) if s.op == BinOp::Eq => b,
            (_, Some(t)) if t.op == BinOp::Eq => n,
            (Some(_), _) => b,
            _ => n,
        }
    }
}

/// The indexes of a table.
pub open spec fn indexes_of(s: Seq<(Seq<char>, Seq<IndexInfoView>)>, t: Seq<char>) -> Option<Seq<IndexInfoView>>
    decreases s.len(),
{
    if s.len() == 0 {
        None
    } else if s.last().0 == t {
        Some(s.last().1)
    } else {
        indexes_of(s.drop_last(), t)
    }
}

/// A plan whose scans use indexes where they help; the condition is still tested for each row.
pub open spec fn indexed(p: PhysicalPlanView, x: Seq<(Seq<char>, Seq<IndexInfoView>)>) -> PhysicalPlanView
    decreases p,
{
    match p {
        PhysicalPlanView::SeqScan { table, filter: Some(f), limit, needed_columns } => match indexes_of(x, table) {
            Some(i) => match best_seek(i, conjuncts(f)) {
                Some(s) => PhysicalPlanView::IndexScan {
                    table,
                    index_name: s.index,
                    column: s.column,
                    op: s.op,
                    value: s.value,
                    filter: Some(f),
                    limit,
                },
                None => p,
            },
            None => p,
        },
        PhysicalPlanView::Filter { input, predicate } => PhysicalPlanView::Filter { input: Box::new(indexed(*input, x)), predicate },
        PhysicalPlanView::Project { input, columns } => PhysicalPlanView::Project { input: Box::new(indexed(*input, x)), columns },
        PhysicalPlanView::HashJoin { left, right, condition, join_type } => PhysicalPlanView::HashJoin {
            left: Box::new(indexed(*left, x)),
            right: Box::new(indexed(*right, x)),
            condition,
            join_type,
        },
        PhysicalPlanView::NestedLoopJoin { left, right, condition, join_type } => PhysicalPlanView::NestedLoopJoin {
            left: Box::new(indexed(*left, x)),
            right: Box::new(indexed(*right, x)),
            condition,
            join_type,
        },
        PhysicalPlanView::HashAggregate { input, group_by, aggregates, having } => PhysicalPlanView::HashAggregate {
            input: Box::new(indexed(*input, x)),
            group_by,
            aggregates,
            having,
        },
        PhysicalPlanView::Sort { input, order_by } => PhysicalPlanView::Sort { input: Box::new(indexed(*input, x)), order_by },
        PhysicalPlanView::Limit { input, count, offset } => PhysicalPlanView::Limit { input: Box::new(indexed(*input, x)), count, offset },
        PhysicalPlanView::Distinct { input } => PhysicalPlanView::Distinct { input: Box::new(indexed(*input, x)) },
        _ => p,
    }
}

/// The plan that the optimizer makes.
pub open spec fn optimized(
    p: LogicalPlanView,
    s: Seq<(Seq<char>, u64)>,
    x: Seq<(Seq<char>, Seq<IndexInfoView>)>,
) -> PhysicalPlanView {
    indexed(limit_down(physical_of(p, s)), x)
}

// ---- what the plans keep

/// A condition holds for a row where all that it joins by AND hold.
pub proof fn law_conjuncts(env: Env, o: Seq<ScopeView>, n: NamesView, row: Seq<ValueView>, e: ExprView)
    ensures
        predicate(env, o, n, row, e) == (forall|i: int|
            0 <= i < conjuncts(e).len() ==> #[trigger] predicate(env, o, n, row, conjuncts(e)[i])),
    decreases e,
{
    match e {
        ExprView::BinaryOp { left, op: BinOp::And, right } => {
            law_conjuncts(env, o, n, row, *left);
            law_conjuncts(env, o, n, row, *right);
            let a = conjuncts(*left);
            let b = conjuncts(*right);
            let c = conjuncts(e);
            if predicate(env, o, n, row, e) {
                assert forall|i: int| 0 <= i < c.len() implies #[trigger] predicate(env, o, n, row, c[i]) by {
                    if i < a.len() {
                        assert(c[i] == a[i]);
                    } else {
                        assert(c[i] == b[i - a.len()]);
                    }
                }
            }
            if forall|i: int| 0 <= i < c.len() ==> #[trigger] predicate(env, o, n, row, c[i]) {
                assert forall|i: int| 0 <= i < a.len() implies #[trigger] predicate(env, o, n, row, a[i]) by {
                    assert(c[i] == a[i]);
                    assert(predicate(env, o, n, row, c[i]));
                }
                assert forall|i: int| 0 <= i < b.len() implies #[trigger] predicate(env, o, n, row, b[i]) by {
                    assert(c[a.len() + i] == b[i]);
                    assert(predicate(env, o, n, row, c[a.len() + i]));
                }
            }
        },
        _ => {
            assert(conjuncts(e)[0] == e);
        },
    }
}

/// The tables that a plan reads, in the order in which it reads them.
pub open spec fn tables_read(p: PhysicalPlanView) -> Seq<Seq<char>>
    decreases p,
{
    match p {
        PhysicalPlanView::SeqScan { table, .. } => seq![table],
        PhysicalPlanView::IndexScan { table, .. } => seq![table],
        PhysicalPlanView::Filter { input, .. } => tables_read(*input),
        PhysicalPlanView::Project { input, .. } => tables_read(*input),
        PhysicalPlanView::HashJoin { left, right, .. } => tables_read(*left) + tables_read(*right),
        PhysicalPlanView::NestedLoopJoin { left, right, .. } => tables_read(*left) + tables_read(*right),
        PhysicalPlanView::HashAggregate { input, .. } => tables_read(*input),
        PhysicalPlanView::Sort { input, .. } => tables_read(*input),
        PhysicalPlanView::Limit { input, .. } => tables_read(*input),
        PhysicalPlanView::Distinct { input } => tables_read(*input),
        _ => Seq::empty(),
    }
}

/// Using indexes changes no table that a plan reads.
pub proof fn law_indexes_keep_tables(p: PhysicalPlanView, x: Seq<(Seq<char>, Seq<IndexInfoView>)>)
    ensures
        tables_read(indexed(p, x)) == tables_read(p),
    decreases p,
{
    match p {
        PhysicalPlanView::Filter { input, .. } => law_indexes_keep_tables(*input, x),
        PhysicalPlanView::Project { input, .. } => law_indexes_keep_tables(*input, x),
        PhysicalPlanView::HashJoin { left, right, .. } => {
            law_indexes_keep_tables(*left, x);
            law_indexes_keep_tables(*right, x);
        },
        PhysicalPlanView::NestedLoopJoin { left, right, .. } => {
            law_indexes_keep_tables(*left, x);
            law_indexes_keep_tables(*right, x);
        },
        PhysicalPlanView::HashAggregate { input, .. } => law_indexes_keep_tables(*input, x),
        PhysicalPlanView::Sort { input, .. } => law_indexes_keep_tables(*input, x),
        PhysicalPlanView::Limit { input, .. } => law_indexes_keep_tables(*input, x),
        PhysicalPlanView::Distinct { input } => law_indexes_keep_tables(*input, x),
        _ => {},
    }
}

proof fn lemma_limit_in_scan(p: PhysicalPlanView, n: usize)
    ensures
        tables_read(limit_in_scan(p, n)) == tables_read(p),
    decreases p,
{
    match p {
        PhysicalPlanView::Filter { input, .. } => lemma_limit_in_scan(*input, n),
        _ => {},
    }
}

/// Moving limits down changes no table that a plan reads.
pub proof fn law_limits_keep_tables(p: PhysicalPlanView)
    ensures
        tables_read(limit_down(p)) == tables_read(p),
    decreases p,
{
    match p {
        PhysicalPlanView::Project { input, .. } => law_limits_keep_tables(*input),
        PhysicalPlanView::Limit { input, count, offset } => lemma_limit_in_scan(*input, count),
        _ => {},
    }
}

/// Putting one relation of a chain in front only changes the order of the relations.
pub proof fn law_leader_permutes<T>(s: Seq<T>, k: int)
    requires
        0 <= k < s.len(),
    ensures
        led_by(s, k).to_multiset() == s.to_multiset(),
{
    broadcast use vstd::seq_lib::group_to_multiset_ensures;

    let x = seq![s[k]];
    vstd::seq_lib::lemma_multiset_commutative(x, s.remove(k));
    assert(s.to_multiset() =~= s.remove(k).to_multiset().insert(s[k]));
    assert(x =~= Seq::empty().push(s[k]));
    assert(Seq::<T>::empty().to_multiset() =~= vstd::multiset::Multiset::empty());
    assert(x.to_multiset() =~= vstd::multiset::Multiset::empty().insert(s[k]));
    assert(led_by(s, k).to_multiset() =~= s.to_multiset());
}

// ---- making the plans

pub open spec fn plans_view(s: Seq<PhysicalPlan>) -> Seq<PhysicalPlanView> {
    Seq::new(s.len(), |i: int| s[i]@)
}

/// One join of a chain.
#[derive(Debug)]
struct JoinEdge {
    condition: Expr,
    join_type: JoinType,
}

spec fn edges_view(s: Seq<JoinEdge>) -> Seq<(ExprView, JoinType)> {
    Seq::new(s.len(), |i: int| (s[i].condition@, s[i].join_type))
}

fn flatten_edges(p: &LogicalPlan) -> (r: Vec<JoinEdge>)
    ensures
        edges_view(r@) == chain_edges(p@),
    decreases p,
{
    proof {
        (*p).unfold();
    }
    match p {
        LogicalPlan::Join { left, right, condition, join_type } => {
            let mut r = flatten_edges(left);
            let ghost before = r@;
            let e = JoinEdge { condition: condition.dup(), join_type: *join_type };
            r.push(e);
            assert(edges_view(r@) =~= edges_view(before).push((condition@, *join_type)));
            r
        },
        _ => {
            let r: Vec<JoinEdge> = Vec::new();
            assert(edges_view(r@) =~= Seq::empty());
            r
        },
    }
}

fn scan_count(p: &LogicalPlan, s: &Vec<TableRows>) -> (r: Option<u64>)
    ensures
        r == (match table_of(p@) {
            Some(t) => count_of(counts_view(s@), t),
            None => None,
        }),
{
    proof {
        (*p).unfold();
    }
    match p {
        LogicalPlan::Scan { table, filter } => find_count(s, table.as_str()),
        _ => None,
    }
}

fn find_chain_counts(p: &LogicalPlan, s: &Vec<TableRows>) -> (r: Option<Vec<u64>>)
    ensures
        (match r { Some(c) => Some(c@), None => None }) == chain_counts(chain_tables(p@), counts_view(s@)),
    decreases p,
{
    proof {
        (*p).unfold();
    }
    let ghost sv = counts_view(s@);
    match p {
        LogicalPlan::Join { left, right, condition, join_type } => {
            proof {
                assert(chain_tables(p@).drop_last() =~= chain_tables(left@));
                assert(chain_tables(p@).last() == table_of(right@));
            }
            match (find_chain_counts(left, s), scan_count(right, s)) {
                (Some(mut c), Some(n)) => {
                    c.push(n);
                    Some(c)
                },
                _ => None,
            }
        },
        _ => {
            proof {
                assert(chain_tables(p@) =~= seq![table_of(p@)]);
                assert(chain_tables(p@).drop_last() =~= Seq::empty());
                assert(chain_counts(chain_tables(p@).drop_last(), sv) == Some(Seq::<u64>::empty()));
            }
            match scan_count(p, s) {
                Some(n) => {
                    let mut c: Vec<u64> = Vec::new();
                    c.push(n);
                    assert(c@ =~= Seq::empty().push(n));
                    Some(c)
                },
                None => None,
            }
        },
    }
}

pub fn find_smallest(c: &Vec<u64>) -> (r: usize)
    ensures
        r as int == smallest(c@),
        c@.len() > 0 ==> r < c@.len(),
{
    let mut k: usize = 0;
    let mut i: usize = 1;
    if c.len() <= 1 {
        return 0;
    }
    assert(c@.take(1).len() == 1);
    while i < c.len()
        invariant
            1 <= i <= c.len(),
            k < i,
            k as int == smallest(c@.take(i as int)),
        decreases c.len() - i,
    {
        assert(c@.take(i + 1).drop_last() =~= c@.take(i as int));
        if c[i] < c[k] {
            k = i;
        }
        i = i + 1;
    }
    assert(c@.take(c.len() as int) =~= c@);
    k
}

fn are_inner(e: &Vec<JoinEdge>) -> (r: bool)
    ensures
        r == all_inner(edges_view(e@)),
{
    let mut i: usize = 0;
    while i < e.len()
        invariant
            i <= e.len(),
            forall|j: int| 0 <= j < i ==> (#[trigger] edges_view(e@)[j]).1 == JoinType::Inner,
        decreases e.len() - i,
    {
        assert(edges_view(e@)[i as int].1 == e@[i as int].join_type);
        if !matches!(e[i].join_type, JoinType::Inner) {
            return false;
        }
        i = i + 1;
    }
    true
}

fn find_leader(p: &LogicalPlan, s: &Vec<TableRows>, edges: &Vec<JoinEdge>) -> (r: usize)
    requires
        edges_view(edges@) == chain_edges(p@),
    ensures
        r as int == leader(p@, counts_view(s@)),
        r < chain_tables(p@).len(),
{
    proof {
        lemma_chain(p@);
    }
    match find_chain_counts(p, s) {
        Some(c) => {
            proof {
                lemma_counts(chain_tables(p@), counts_view(s@));
            }
            if are_inner(edges) {
                find_smallest(&c)
            } else {
                0
            }
        },
        None => 0,
    }
}

proof fn lemma_chain(p: LogicalPlanView)
    ensures
        chain_tables(p).len() == chain_edges(p).len() + 1,
    decreases p,
{
    match p {
        LogicalPlanView::Join { left, .. } => lemma_chain(*left),
        _ => {},
    }
}

proof fn lemma_chain_plans(p: LogicalPlanView, s: Seq<(Seq<char>, u64)>)
    ensures
        chain_plans(p, s).len() == chain_tables(p).len(),
    decreases p,
{
    match p {
        LogicalPlanView::Join { left, .. } => lemma_chain_plans(*left, s),
        _ => {},
    }
}

proof fn lemma_counts(t: Seq<Option<Seq<char>>>, s: Seq<(Seq<char>, u64)>)
    ensures
        chain_counts(t, s) matches Some(c) ==> c.len() == t.len(),
    decreases t.len(),
{
    if t.len() > 0 {
        lemma_counts(t.drop_last(), s);
    }
}

fn one_plan(p: PhysicalPlan) -> (r: Vec<PhysicalPlan>)
    ensures
        plans_view(r@) == seq![p@],
{
    let mut r: Vec<PhysicalPlan> = Vec::new();
    r.push(p);
    assert(plans_view(r@) =~= seq![p@]);
    r
}

fn push_plan(r: &mut Vec<PhysicalPlan>, p: PhysicalPlan)
    ensures
        plans_view(final(r)@) == plans_view(old(r)@).push(p@),
{
    let ghost before = r@;
    r.push(p);
    assert(plans_view(r@) =~= plans_view(before).push(p@));
}

fn reorder_join_chain(rels: &mut Vec<PhysicalPlan>, k: usize)
    requires
        k < old(rels)@.len(),
    ensures
        plans_view(final(rels)@) == led_by(plans_view(old(rels)@), k as int),
{
    let ghost before = rels@;
    let x = rels.remove(k);
    rels.insert(0, x);
    assert(plans_view(rels@) =~= led_by(plans_view(before), k as int));
}

fn build_physical_join_chain(rels: Vec<PhysicalPlan>, edges: &Vec<JoinEdge>) -> (r: PhysicalPlan)
    requires
        rels@.len() == edges@.len() + 1,
    ensures
        r@ == joined(plans_view(rels@), edges_view(edges@)),
{
    let ghost rv = plans_view(rels@);
    let ghost ev = edges_view(edges@);
    let mut r = rels[0].dup();
    let mut i: usize = 0;
    proof {
        assert(ev.take(0).len() == 0);
        assert(rv.take(1)[0] == r@);
    }
    while i < edges.len()
        invariant
            i <= edges.len(),
            rels@.len() == edges@.len() + 1,
            rv == plans_view(rels@),
            ev == edges_view(edges@),
            r@ == joined(rv.take(i + 1), ev.take(i as int)),
        decreases edges.len() - i,
    {
        proof {
            assert(rv.take(i + 2).drop_last() =~= rv.take(i + 1));
            assert(rv.take(i + 2).last() == rels@[i + 1]@);
            assert(ev.take(i + 1).drop_last() =~= ev.take(i as int));
            assert(ev.take(i + 1).last() == (edges@[i as int].condition@, edges@[i as int].join_type));
        }
        r = PhysicalPlan::HashJoin {
            left: Box::new(r),
            right: Box::new(rels[i + 1].dup()),
            condition: edges[i].condition.dup(),
            join_type: edges[i].join_type,
        };
        proof {
            r.unfold();
        }
        i = i + 1;
    }
    proof {
        assert(rv.take(rels.len() as int) =~= rv);
        assert(ev.take(edges.len() as int) =~= ev);
    }
    r
}

fn add_filter(p: PhysicalPlan, e: Expr) -> (r: PhysicalPlan)
    ensures
        r@ == filtered(p@, e@),
{
    proof {
        p.unfold();
    }
    match p {
        PhysicalPlan::SeqScan { table, filter, limit, needed_columns } => {
            let merged = match filter {
                Some(f) => {
                    let m = Expr::BinaryOp { left: Box::new(f), op: BinOp::And, right: Box::new(e) };
                    proof {
                        m.unfold();
                    }
                    m
                },
                None => e,
            };
            let r = PhysicalPlan::SeqScan { table, filter: Some(merged), limit, needed_columns };
            proof {
                r.unfold();
            }
            r
        },
        other => {
            let r = PhysicalPlan::Filter { input: Box::new(other), predicate: e };
            proof {
                r.unfold();
            }
            r
        },
    }
}

fn dup_opt(e: &Option<Expr>) -> (r: Option<Expr>)
    ensures
        crate::executor::grouping::opt_expr(r) == crate::executor::grouping::opt_expr(*e),
{
    match e {
        Some(e) => Some(e.dup()),
        None => None,
    }
}

fn convert_to_physical(p: &LogicalPlan, s: &Vec<TableRows>) -> (r: PhysicalPlan)
    ensures
        r@ == physical_of(p@, counts_view(s@)),
    decreases p, 0int,
{
    proof {
        (*p).unfold();
    }
    let r = match p {
        LogicalPlan::Scan { table, filter } => PhysicalPlan::SeqScan {
            table: table.clone(),
            filter: dup_opt(filter),
            limit: None,
            needed_columns: None,
        },
        LogicalPlan::Filter { input, predicate } => {
            return add_filter(convert_to_physical(input, s), predicate.dup());
        },
        LogicalPlan::Project { input, columns } => PhysicalPlan::Project {
            input: Box::new(convert_to_physical(input, s)),
            columns: crate::parser::ast::dup_select_columns(columns),
        },
        LogicalPlan::Join { left, right, condition, join_type } => {
            let edges = flatten_edges(p);
            let k = find_leader(p, s, &edges);
            let mut rels = convert_chain(left, s);
            proof {
                lemma_chain(p@);
                lemma_chain_plans(left@, counts_view(s@));
                assert(edges_view(edges@).len() == edges@.len());
                assert(plans_view(rels@).len() == rels@.len());
            }
            push_plan(&mut rels, convert_to_physical(right, s));
            proof {
                assert(plans_view(rels@).len() == rels@.len());
            }
            reorder_join_chain(&mut rels, k);
            proof {
                assert(plans_view(rels@).len() == rels@.len());
            }
            return build_physical_join_chain(rels, &edges);
        },
        LogicalPlan::Aggregate { input, group_by, aggregates, having } => PhysicalPlan::HashAggregate {
            input: Box::new(convert_to_physical(input, s)),
            group_by: crate::parser::ast::dup_exprs(group_by),
            aggregates: crate::parser::ast::dup_exprs(aggregates),
            having: dup_opt(having),
        },
        LogicalPlan::Sort { input, order_by } => PhysicalPlan::Sort {
            input: Box::new(convert_to_physical(input, s)),
            order_by: crate::parser::ast::dup_order_by_exprs(order_by),
        },
        LogicalPlan::Limit { input, count, offset } => PhysicalPlan::Limit {
            input: Box::new(convert_to_physical(input, s)),
            count: *count,
            offset: *offset,
        },
        LogicalPlan::Distinct { input } => PhysicalPlan::Distinct { input: Box::new(convert_to_physical(input, s)) },
        LogicalPlan::Insert { table, columns, source } => PhysicalPlan::Insert {
            table: table.clone(),
            columns: match columns {
                Some(c) => Some(crate::value::dup_names(c)),
                None => None,
            },
            source: source.dup(),
        },
        LogicalPlan::Update { table, assignments, filter } => PhysicalPlan::Update {
            table: table.clone(),
            assignments: crate::parser::ast::dup_assignments(assignments),
            filter: dup_opt(filter),
        },
        LogicalPlan::Delete { table, filter } => PhysicalPlan::Delete { table: table.clone(), filter: dup_opt(filter) },
        LogicalPlan::CreateTable(q) => PhysicalPlan::CreateTable(q.dup()),
        LogicalPlan::DropTable(q) => PhysicalPlan::DropTable(q.dup()),
        LogicalPlan::CreateIndex(q) => PhysicalPlan::CreateIndex(q.dup()),
        LogicalPlan::DropIndex(n) => PhysicalPlan::DropIndex(n.clone()),
    };
    proof {
        r.unfold();
    }
    r
}

fn convert_chain(p: &LogicalPlan, s: &Vec<TableRows>) -> (r: Vec<PhysicalPlan>)
    ensures
        plans_view(r@) == chain_plans(p@, counts_view(s@)),
    decreases p, 1int,
{
    proof {
        (*p).unfold();
    }
    match p {
        LogicalPlan::Join { left, right, condition, join_type } => {
            let mut r = convert_chain(left, s);
            push_plan(&mut r, convert_to_physical(right, s));
            r
        },
        _ => one_plan(convert_to_physical(p, s)),
    }
}

fn push_limit_into_scan(p: PhysicalPlan, n: usize) -> (r: PhysicalPlan)
    ensures
        r@ == limit_in_scan(p@, n),
    decreases p,
{
    proof {
        p.unfold();
    }
    match p {
        PhysicalPlan::SeqScan { table, filter, limit, needed_columns } => {
            let r = PhysicalPlan::SeqScan { table, filter, limit: Some(n), needed_columns };
            proof {
                r.unfold();
            }
            r
        },
        PhysicalPlan::Filter { input, predicate } => {
            let r = PhysicalPlan::Filter { input: Box::new(push_limit_into_scan(*input, n)), predicate };
            proof {
                r.unfold();
            }
            r
        },
        other => other,
    }
}

fn push_limit_down(p: PhysicalPlan) -> (r: PhysicalPlan)
    ensures
        r@ == limit_down(p@),
    decreases p,
{
    proof {
        p.unfold();
    }
    match p {
        PhysicalPlan::Project { input, columns } => {
            let r = PhysicalPlan::Project { input: Box::new(push_limit_down(*input)), columns };
            proof {
                r.unfold();
            }
            r
        },
        PhysicalPlan::Limit { input, count, offset } => {
            proof {
                (*input).unfold();
            }
            if offset == 0 && !matches!(&*input, PhysicalPlan::Sort { .. }) {
                let r = PhysicalPlan::Limit { input: Box::new(push_limit_into_scan(*input, count)), count, offset };
                proof {
                    r.unfold();
                }
                r
            } else {
                let r = PhysicalPlan::Limit { input, count, offset };
                proof {
                    r.unfold();
                }
                r
            }
        },
        other => other,
    }
}

pub open spec fn refs_view(s: Seq<&Expr>) -> Seq<ExprView> {
    Seq::new(s.len(), |i: int| s[i]@)
}

fn collect_conjuncts<'a>(e: &'a Expr, out: &mut Vec<&'a Expr>)
    ensures
        refs_view(final(out)@) == refs_view(old(out)@) + conjuncts(e@),
    decreases e,
{
    let ghost front = refs_view(out@);
    proof {
        (*e).unfold();
    }
    match e {
        Expr::BinaryOp { left, op: BinOp::And, right } => {
            collect_conjuncts(left, out);
            collect_conjuncts(right, out);
            assert(refs_view(out@) =~= front + conjuncts(e@));
        },
        other => {
            let ghost before = out@;
            out.push(other);
            assert(refs_view(out@) =~= front + conjuncts(e@));
        },
    }
}

fn name_column(e: &Expr) -> (r: Option<&String>)
    ensures
        (match r { Some(s) => Some(s@), None => None }) == crate::executor::select::column_name(e@),
{
    proof {
        (*e).unfold();
    }
    match e {
        Expr::Column(c) => Some(c),
        Expr::QualifiedColumn(_, c) => Some(c),
        _ => None,
    }
}

fn is_literal(e: &Expr) -> (r: bool)
    ensures
        r == (e@ is Literal),
{
    proof {
        (*e).unfold();
    }
    matches!(e, Expr::Literal(_))
}

fn as_col_op_literal(e: &Expr) -> (r: Option<(String, BinOp, Expr)>)
    ensures
        (match r { Some((c, op, v)) => Some((c@, op, v@)), None => None }) == column_test(e@),
{
    proof {
        (*e).unfold();
    }
    match e {
        Expr::BinaryOp { left, op, right } => {
            if !matches!(op, BinOp::Eq | BinOp::Lt | BinOp::Lte | BinOp::Gt | BinOp::Gte) {
                return None;
            }
            match name_column(left) {
                Some(c) => if is_literal(right) {
                    return Some((c.clone(), *op, right.dup()));
                },
                None => {},
            }
            match name_column(right) {
                Some(c) => if is_literal(left) {
                    return Some((c.clone(), flip_op(*op), left.dup()));
                },
                None => {},
            }
            None
        },
        _ => None,
    }
}

fn find_index_on(x: &Vec<IndexInfo>, c: &str) -> (r: Option<String>)
    ensures
        (match r { Some(n) => Some(n@), None => None }) == index_on(infos_view(x@), c@),
{
    let ghost all = infos_view(x@);
    let mut r: Option<String> = None;
    let mut i: usize = 0;
    assert(all.take(0).len() == 0);
    while i < x.len()
        invariant
            i <= x.len(),
            all == infos_view(x@),
            (match r { Some(n) => Some(n@), None => None }) == index_on(all.take(i as int), c@),
        decreases x.len() - i,
    {
        proof {
            assert(all.take(i + 1).drop_last() =~= all.take(i as int));
            assert(all.take(i + 1).last() == x@[i as int]@);
        }
        if r.is_none() && x[i].columns.len() > 0 {
            assert(x@[i as int]@.columns[0] == x@[i as int].columns@[0]@);
            if text_is(x[i].columns[0].as_str(), c) {
                r = Some(x[i].name.clone());
            }
        }
        i = i + 1;
    }
    assert(all.take(x.len() as int) =~= all);
    r
}

struct Found {
    index: String,
    column: String,
    op: BinOp,
    value: Expr,
}

spec fn found_view(f: Option<Found>) -> Option<Seek> {
    match f {
        Some(f) => Some(Seek { index: f.index@, column: f.column@, op: f.op, value: f.value@ }),
        None => None,
    }
}

fn find_seek(x: &Vec<IndexInfo>, e: &Expr) -> (r: Option<Found>)
    ensures
        found_view(r) == seek_for(infos_view(x@), e@),
{
    match as_col_op_literal(e) {
        Some((c, op, v)) => match find_index_on(x, c.as_str()) {
            Some(n) => Some(Found { index: n, column: c, op, value: v }),
            None => None,
        },
        None => None,
    }
}

fn find_index_predicate(e: &Expr, x: &Vec<IndexInfo>) -> (r: Option<Found>)
    ensures
        found_view(r) == best_seek(infos_view(x@), conjuncts(e@)),
{
    let mut parts: Vec<&Expr> = Vec::new();
    assert(refs_view(parts@) =~= Seq::empty());
    collect_conjuncts(e, &mut parts);
    let ghost all = conjuncts(e@);
    proof {
        assert(refs_view(parts@) =~= all);
        assert(all.take(0).len() == 0);
    }
    let mut r: Option<Found> = None;
    let mut i: usize = 0;
    while i < parts.len()
        invariant
            i <= parts.len(),
            refs_view(parts@) == all,
            found_view(r) == best_seek(infos_view(x@), all.take(i as int)),
        decreases parts.len() - i,
    {
        proof {
            assert(all.take(i + 1).drop_last() =~= all.take(i as int));
            assert(all.take(i + 1).last() == refs_view(parts@)[i as int]);
        }
        let n = find_seek(x, parts[i]);
        let settled = match &r {
            Some(f) => matches!(f.op, BinOp::Eq),
            None => false,
        };
        let better = match &n {
            Some(f) => matches!(f.op, BinOp::Eq),
            None => false,
        };
        if !settled && (better || r.is_none()) {
            r = n;
        }
        i = i + 1;
    }
    assert(all.take(parts.len() as int) =~= all);
    r
}

fn find_indexes<'a>(x: &'a Vec<TableIndexes>, t: &str) -> (r: Option<&'a Vec<IndexInfo>>)
    ensures
        (match r { Some(v) => Some(infos_view(v@)), None => None }) == indexes_of(catalog_view(x@), t@),
{
    let ghost all = catalog_view(x@);
    let mut i: usize = x.len();
    assert(all.take(i as int) =~= all);
    while i > 0
        invariant
            i <= x.len(),
            all == catalog_view(x@),
            indexes_of(all, t@) == indexes_of(all.take(i as int), t@),
        decreases i,
    {
        assert(all.take(i as int).drop_last() =~= all.take(i - 1));
        assert(all.take(i as int).last() == (x@[i - 1].table@, infos_view(x@[i - 1].indexes@)));
        if text_is(x[i - 1].table.as_str(), t) {
            return Some(&x[i - 1].indexes);
        }
        i = i - 1;
    }
    None
}

fn select_indexes(p: PhysicalPlan, x: &Vec<TableIndexes>) -> (r: PhysicalPlan)
    ensures
        r@ == indexed(p@, catalog_view(x@)),
    decreases p,
{
    proof {
        p.unfold();
    }
    let r = match p {
        PhysicalPlan::SeqScan { table, filter: Some(f), limit, needed_columns } => {
            let seek = match find_indexes(x, table.as_str()) {
                Some(i) => find_index_predicate(&f, i),
                None => None,
            };
            match seek {
                Some(s) => PhysicalPlan::IndexScan {
                    table,
                    index_name: s.index,
                    column: s.column,
                    op: s.op,
                    value: s.value,
                    filter: Some(f),
                    limit,
                },
                None => PhysicalPlan::SeqScan { table, filter: Some(f), limit, needed_columns },
            }
        },
        PhysicalPlan::Filter { input, predicate } => PhysicalPlan::Filter {
            input: Box::new(select_indexes(*input, x)),
            predicate,
        },
        PhysicalPlan::Project { input, columns } => PhysicalPlan::Project {
            input: Box::new(select_indexes(*input, x)),
            columns,
        },
        PhysicalPlan::HashJoin { left, right, condition, join_type } => PhysicalPlan::HashJoin {
            left: Box::new(select_indexes(*left, x)),
            right: Box::new(select_indexes(*right, x)),
            condition,
            join_type,
        },
        PhysicalPlan::NestedLoopJoin { left, right, condition, join_type } => PhysicalPlan::NestedLoopJoin {
            left: Box::new(select_indexes(*left, x)),
            right: Box::new(select_indexes(*right, x)),
            condition,
            join_type,
        },
        PhysicalPlan::HashAggregate { input, group_by, aggregates, having } => PhysicalPlan::HashAggregate {
            input: Box::new(select_indexes(*input, x)),
            group_by,
            aggregates,
            having,
        },
        PhysicalPlan::Sort { input, order_by } => PhysicalPlan::Sort { input: Box::new(select_indexes(*input, x)), order_by },
        PhysicalPlan::Limit { input, count, offset } => PhysicalPlan::Limit {
            input: Box::new(select_indexes(*input, x)),
            count,
            offset,
        },
        PhysicalPlan::Distinct { input } => PhysicalPlan::Distinct { input: Box::new(select_indexes(*input, x)) },
        other => other,
    };
    proof {
        r.unfold();
    }
    r
}

/// Makes a plan without knowing anything of the tables.
pub fn optimize(p: &LogicalPlan) -> (r: crate::error::Result<PhysicalPlan>)
    ensures
        r matches Ok(q) && q@ == optimized(p@, Seq::empty(), Seq::empty()),
{
    let s: Vec<TableRows> = Vec::new();
    assert(counts_view(s@) =~= Seq::empty());
    optimize_with_stats(p, &s)
}

/// Makes a plan from what is known of the sizes of the tables.
pub fn optimize_with_stats(p: &LogicalPlan, s: &Vec<TableRows>) -> (r: crate::error::Result<PhysicalPlan>)
    ensures
        r matches Ok(q) && q@ == optimized(p@, counts_view(s@), Seq::empty()),
{
    let x: Vec<TableIndexes> = Vec::new();
    assert(catalog_view(x@) =~= Seq::empty());
    optimize_with_catalog(p, s, &x)
}

/// Makes a plan from what is known of the sizes of the tables and of their indexes.
pub fn optimize_with_catalog(p: &LogicalPlan, s: &Vec<TableRows>, x: &Vec<TableIndexes>) -> (r: crate::error::Result<PhysicalPlan>)
    ensures
        r matches Ok(q) && q@ == optimized(p@, counts_view(s@), catalog_view(x@)),
{
    let q = convert_to_physical(p, s);
    let q = push_limit_down(q);
    Ok(select_indexes(q, x))
}

} // verus!
