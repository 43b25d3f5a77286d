use vstd::prelude::*;
use vstd::string::*;
use crate::parser::ast::{BinOp, Expr, ExprView, JoinType, LiteralValue, LiteralValueView, SelectStmt, SelectStmtView};
use crate::parser::ast::{exprs_at, exprs_len, exprs_view, order_by_exprs_at, order_by_exprs_len, order_by_exprs_view};
use crate::planner::plan::{PhysicalPlan, PhysicalPlanView};
use crate::text::text_is;
use crate::planner::optimizer::{IndexInfoView, best_seek, can_seek, column_test, conjuncts, flip_op, flipped, law_conjuncts, seek_for};
use crate::value::{DataType, Order, Value, ValueView, dup_names, dup_values, names_view, rows_push, rows_view, values_view};
use super::aggregate::{find_group_starts, group_starts};
use super::charges::{CHECK_PERIOD, Charge, capped, group_key_width, key_width, measure_group_key, measure_key, plus};
use super::constraints::{ints, list_column_names, table_scope};
use super::dml::{concerned, find_key_places, is_concerned, key_places, no_scopes, outside};
use super::eval::{Reader, eval, eval_literal, eval_value, literal_value, predicate, truthy};
use super::grouping::{collect_query_calls, find_group_places, group_keys, group_places, group_rows, grouped, make_keys, opt_expr, query_calls};
use super::join::{has_int_keys, int_keys, join_rows, joined_rows};
use super::marks::{Gate, Mark, MarkView, Way, asked_key, find_asked_key, join_marks, mark_scan, marks_push, marks_view, no_marks, number_rows, numbered, scan_marks, touch, touched};
use super::keys::{even_handed, law_compare_flips, order_values, value_order};
use super::relation::{Relation, RelationView, limit_rows, limited};
use super::rollback::lemma_index_range;
use super::scope::{Env, Names, NamesView, bare_names, find_index, find_source, get_value, index_of, source_of, value_at};
use super::scalar::compared;
use super::select::{add_prefixed, column_name, extract_join_keys, apply_filter, join_keys, kept, kept_if, make_names, opt_text, prefixed, query_names};
use super::store::{Store, StoreView, column_names, table_index};
use super::strings::text_upper;
use super::table::{Column, ColumnView, Table, TableView, columns_view};
use super::unit::{Ask, Reply, Unit};
use super::vector_scan::{fast_filter, try_fast_filter};

verus! {

/// Whether a condition asks for the row of one key: the primary key has one column, which equals a
/// constant.
pub open spec fn asks_key(cols: Seq<ColumnView>, filter: Option<ExprView>) -> bool {
    let at = key_places(cols);
    match filter {
        Some(ExprView::BinaryOp { left, op: BinOp::Eq, right }) => at.len() == 1 && match (*left, *right) {
            (ExprView::Column(n), ExprView::Literal(_)) => n == cols[at[0]].name,
            (ExprView::Literal(_), ExprView::Column(n)) => n == cols[at[0]].name,
            _ => false,
        },
        _ => false,
    }
}

/// A comparison of a column with a constant, the column in front.
pub open spec fn key_bound(e: ExprView, name: Seq<char>) -> Option<(BinOp, LiteralValueView)> {
    match e {
        ExprView::BinaryOp { left, op, right } => match (*left, *right) {
            (ExprView::Column(n), ExprView::Literal(l)) => if n == name {
                Some((op, l))
            } else {
                None
            },
            (ExprView::Literal(l), ExprView::Column(n)) => if n == name {
                Some((flipped(op), l))
            } else {
                None
            },
            _ => None,
        },
        _ => None,
    }
}

/// The ends of the range of keys that two comparisons give: one from below, and one from above that
/// takes its end in.
pub open spec fn bounds_range(a: (BinOp, LiteralValueView), b: (BinOp, LiteralValueView)) -> Option<(LiteralValueView, LiteralValueView)> {
    if (a.0 == BinOp::Gte || a.0 == BinOp::Gt) && b.0 == BinOp::Lte {
        Some((a.1, b.1))
    } else if a.0 == BinOp::Lte && (b.0 == BinOp::Gte || b.0 == BinOp::Gt) {
        Some((b.1, a.1))
    } else {
        None
    }
}

/// The range of keys that a condition asks for, where the primary key has one column.
pub open spec fn key_range(cols: Seq<ColumnView>, filter: Option<ExprView>) -> Option<(LiteralValueView, LiteralValueView)> {
    let at = key_places(cols);
    match filter {
        Some(ExprView::BinaryOp { left, op: BinOp::And, right }) => if at.len() == 1 {
            match (key_bound(*left, cols[at[0]].name), key_bound(*right, cols[at[0]].name)) {
                (Some(a), Some(b)) => bounds_range(a, b),
                _ => None,
            }
        } else {
            None
        },
        _ => None,
    }
}

/// The rows whose value at place `j` lies between two others.
pub open spec fn rows_between(rows: Seq<Seq<ValueView>>, j: int, lo: ValueView, hi: ValueView) -> Seq<Seq<ValueView>>
    decreases rows.len(),
{
    if rows.len() == 0 {
        Seq::empty()
    } else {
        let before = rows_between(rows.drop_last(), j, lo, hi);
        let v = value_at(rows.last(), Some(j));
        if value_order(v, lo) != Order::Less && value_order(v, hi) != Order::Greater {
            before.push(rows.last())
        } else {
            before
        }
    }
}

/// How far a scan has come: the rows that it read, and those of them that it keeps.
pub struct Progress {
    pub read: nat,
    pub found: Seq<Seq<ValueView>>,
}

/// A scan of rows that stops once it has found as many as it may give.
pub open spec fn scan_progress(env: Env, n: NamesView, rows: Seq<Seq<ValueView>>, filter: Option<ExprView>, limit: Option<usize>) -> Progress
    decreases rows.len(),
{
    if rows.len() == 0 {
        Progress { read: 0, found: Seq::empty() }
    } else {
        let p = scan_progress(env, n, rows.drop_last(), filter, limit);
        if limit matches Some(l) && p.found.len() > 0 && p.found.len() >= l {
            p
        } else {
            Progress {
                read: p.read + 1,
                found: if concerned(env, n, rows.last(), filter) {
                    p.found.push(rows.last())
                } else {
                    p.found
                },
            }
        }
    }
}

/// The rows that an index hands out.
pub open spec fn handed_out(env: Env, n: NamesView, rows: Seq<Seq<ValueView>>, e: ExprView) -> Seq<Seq<ValueView>>
    decreases rows.len(),
{
    if rows.len() == 0 {
        Seq::empty()
    } else if concerned(env, n, rows.last(), Some(e)) {
        handed_out(env, n, rows.drop_last(), e).push(rows.last())
    } else {
        handed_out(env, n, rows.drop_last(), e)
    }
}

/// The comparison by which an index hands out rows: a range takes its end in.
pub open spec fn reach(op: BinOp) -> BinOp {
    match op {
        BinOp::Lt => BinOp::Lte,
        BinOp::Gt => BinOp::Gte,
        _ => op,
    }
}

/// The constant of a condition, made into the type of the column.
pub open spec fn probe(value: ExprView, t: DataType) -> ExprView {
    ExprView::Cast { expr: Box::new(value), data_type: t }
}

pub open spec fn index_test(column: Seq<char>, op: BinOp, value: ExprView, t: DataType) -> ExprView {
    ExprView::BinaryOp { left: Box::new(ExprView::Column(column)), op: reach(op), right: Box::new(probe(value, t)) }
}

/// What an index of a table hands rows out by.
pub open spec fn seek_test(t: TableView, column: Seq<char>, op: BinOp, value: ExprView) -> ExprView {
    index_test(column, op, value, t.columns[index_of(column_names(t.columns), column)->0].data_type)
}

/// The rows of a table that an index hands out, where it is of use. Where rows have changes that not
/// every transaction sees (`mixed`), indexes are left alone.
pub open spec fn sought(
    env: Env,
    t: TableView,
    rows: Seq<Seq<ValueView>>,
    column: Seq<char>,
    op: BinOp,
    value: ExprView,
    mixed: bool,
) -> Option<Seq<Seq<ValueView>>> {
    match index_of(column_names(t.columns), column) {
        None => None,
        Some(c) => {
            let ty = t.columns[c].data_type;
            if mixed || ty == DataType::Decimal || ty == DataType::Json || !can_seek(op) || eval(
                env,
                no_scopes(),
                table_scope(t),
                Seq::empty(),
                probe(value, ty),
            ) is Null {
                None
            } else {
                Some(handed_out(env, table_scope(t), rows, index_test(column, op, value, ty)))
            }
        },
    }
}

/// The rows of a table that a scan by an index goes through: those that the index hands out, or all
/// of them.
pub open spec fn seek_rows(
    env: Env,
    t: TableView,
    rows: Seq<Seq<ValueView>>,
    column: Seq<char>,
    op: BinOp,
    value: ExprView,
    mixed: bool,
) -> Seq<Seq<ValueView>> {
    match sought(env, t, rows, column, op, value, mixed) {
        Some(r) => r,
        None => rows,
    }
}

/// From so many rows on, a condition is tested on all rows of a table at once.
pub const PARALLEL_SCAN_THRESHOLD: usize = 16384;

/// What is read while a plan is carried out: the stored tables, the names of those that the query
/// made, whether it runs in a transaction, and whether the tables hold changes that not every
/// transaction sees.
pub struct Around {
    pub s: StoreView,
    pub made: Seq<Seq<char>>,
    pub in_txn: bool,
    pub mixed: bool,
}

/// What a plan is charged, what a transaction that carries it out reads, whether it asks what the
/// transaction sees, and the rows that it gives to the plan above it as far as that is charged by them;
/// there are none where it fails.
pub struct Metered {
    pub charges: Seq<Charge>,
    pub marks: Seq<MarkView>,
    pub snap: bool,
    pub rel: Option<RelationView>,
}

pub open spec fn no_reading() -> Metered {
    Metered { charges: Seq::empty(), marks: Seq::empty(), snap: false, rel: None }
}

/// Marks, as far as they are made in a transaction.
pub open spec fn in_txn_only(in_txn: bool, marks: Seq<MarkView>) -> Seq<MarkView> {
    if in_txn {
        marks
    } else {
        Seq::empty()
    }
}

/// What a scan of `n` rows is charged of which it reads `read`.
pub open spec fn scan_cost(n: nat, read: nat, filter: Option<ExprView>, limit: Option<usize>, in_txn: bool) -> Seq<Charge> {
    if !in_txn && limit is None && filter is Some && n >= PARALLEL_SCAN_THRESHOLD {
        seq![Charge::AllRows(capped(n as int)), Charge::Check]
    } else if !in_txn && limit is None && filter is None {
        seq![Charge::PlainRows(capped(read as int))]
    } else {
        seq![Charge::Rows(capped(read as int))]
    }
}

/// A scan of a table. A row that is looked up by its key is charged only in a transaction, where a
/// range of keys is charged the rows in it, and what describes the tables is not charged.
pub open spec fn metered_scan(
    env: Env,
    q: SelectStmtView,
    a: Around,
    table: Seq<char>,
    filter: Option<ExprView>,
    limit: Option<usize>,
) -> Metered {
    match source_of(env.db, table) {
        None => no_reading(),
        Some(rel) => {
            let n = query_names(q, rel.columns);
            let stored = table_index(a.s, table);
            let made = index_of(a.made, table) is Some;
            if !made && stored is Some && asks_key(a.s.tables[stored->0].columns, filter) {
                let f = scan_progress(env, n, rel.rows, filter, None).found;
                Metered {
                    charges: if a.in_txn {
                        seq![Charge::Rows(capped(f.len() as int))]
                    } else {
                        Seq::empty()
                    },
                    marks: in_txn_only(a.in_txn, seq![MarkView::Read { table, key: asked_key(env.m, filter) }]),
                    snap: a.in_txn,
                    rel: Some(RelationView { columns: rel.columns, rows: f }),
                }
            } else if a.in_txn && !made && stored is Some && key_range(a.s.tables[stored->0].columns, filter) is Some {
                let cols = a.s.tables[stored->0].columns;
                let ends = key_range(cols, filter)->0;
                let lo = literal_value(env.m, ends.0);
                let hi = literal_value(env.m, ends.1);
                let j = key_places(cols)[0];
                let p = scan_progress(env, n, rows_between(rel.rows, j, lo, hi), filter, limit);
                Metered {
                    charges: seq![Charge::Rows(capped(p.read as int))],
                    marks: scan_marks(
                        table,
                        touched(env, n, a.s.tables[stored->0].keys, rel.rows, Gate::Between(j, lo, hi), filter, limit),
                    ),
                    snap: true,
                    rel: Some(RelationView { columns: rel.columns, rows: p.found }),
                }
            } else {
                let p = scan_progress(env, n, rel.rows, filter, limit);
                Metered {
                    charges: if made || stored is Some {
                        scan_cost(rel.rows.len(), p.read, filter, limit, a.in_txn)
                    } else {
                        Seq::empty()
                    },
                    marks: in_txn_only(
                        a.in_txn && (made || stored is Some),
                        scan_marks(
                            table,
                            touched(env, n, if made {
                                numbered(rel.rows.len())
                            } else {
                                a.s.tables[stored->0].keys
                            }, rel.rows, Gate::All, filter, limit),
                        ),
                    ),
                    snap: a.in_txn && a.mixed && !made && stored is Some,
                    rel: Some(RelationView { columns: rel.columns, rows: p.found }),
                }
            }
        },
    }
}

/// A scan by an index, or by all rows where the index is of no use.
pub open spec fn metered_seek(
    env: Env,
    q: SelectStmtView,
    a: Around,
    table: Seq<char>,
    column: Seq<char>,
    op: BinOp,
    value: ExprView,
    filter: Option<ExprView>,
    limit: Option<usize>,
) -> Metered {
    match (source_of(env.db, table), table_index(a.s, table)) {
        (Some(rel), Some(i)) => if index_of(a.made, table) is Some {
            metered_scan(env, q, a, table, filter, limit)
        } else {
            match sought(env, a.s.tables[i], rel.rows, column, op, value, a.mixed) {
                None => metered_scan(env, q, a, table, filter, limit),
                Some(out) => {
                    let n = query_names(q, rel.columns);
                    let p = scan_progress(env, n, out, filter, limit);
                    Metered {
                        charges: seq![Charge::Rows(capped(p.read as int))],
                        marks: in_txn_only(
                            a.in_txn,
                            scan_marks(
                                table,
                                touched(
                                    env,
                                    n,
                                    a.s.tables[i].keys,
                                    rel.rows,
                                    Gate::Index(table_scope(a.s.tables[i]), seek_test(a.s.tables[i], column, op, value)),
                                    filter,
                                    limit,
                                ),
                            ),
                        ),
                        snap: a.in_txn && out.len() > 0,
                        rel: Some(RelationView { columns: rel.columns, rows: p.found }),
                    }
                },
            }
        },
        _ => metered_scan(env, q, a, table, filter, limit),
    }
}

/// The table that a plan reads, where it reads only one.
pub open spec fn plan_table(p: PhysicalPlanView) -> Option<Seq<char>> {
    match p {
        PhysicalPlanView::SeqScan { table, .. } => Some(table),
        PhysicalPlanView::IndexScan { table, .. } => Some(table),
        _ => None,
    }
}

/// A check at the row of number `i`, where it is the first of `CHECK_PERIOD` rows.
pub open spec fn check_due(i: int) -> Seq<Charge> {
    if i % CHECK_PERIOD as int == 0 {
        seq![Charge::Check]
    } else {
        Seq::empty()
    }
}

/// The checks while `n` rows are gone through.
pub open spec fn check_rows(n: nat) -> Seq<Charge>
    decreases n,
{
    if n == 0 {
        Seq::empty()
    } else {
        check_rows((n - 1) as nat) + check_due(n - 1)
    }
}

/// The checks and the memory while the keys at a place of the first `n` rows are entered one after
/// the other.
pub open spec fn enter_keys(rows: Seq<Seq<ValueView>>, at: nat, n: nat) -> Seq<Charge>
    decreases n,
{
    if n == 0 {
        Seq::empty()
    } else {
        let c = Charge::Memory(capped(key_width(value_at(rows[n - 1], Some(at as int))) + 24));
        (enter_keys(rows, at, (n - 1) as nat) + check_due(n - 1)).push(c)
    }
}

/// The checks and the memory while the first `n` rows, of these keys, are put into groups.
pub open spec fn enter_groups(keys: Seq<Seq<ValueView>>, n: nat) -> Seq<Charge>
    decreases n,
{
    if n == 0 {
        Seq::empty()
    } else {
        let before = enter_groups(keys, (n - 1) as nat) + check_due(n - 1);
        if keys.take(n - 1).contains(keys[n - 1]) {
            before
        } else {
            before.push(Charge::Memory(capped(group_key_width(keys[n - 1]) + 24)))
        }
    }
}

/// The memory for the table by which rows are joined: of integers so many entries as the side has
/// that it is built from, of other keys one entry after the other.
pub open spec fn join_memory(left: Seq<Seq<ValueView>>, right: Seq<Seq<ValueView>>, li: nat, ri: nat, how: JoinType) -> Seq<Charge> {
    if int_keys(left, li) && int_keys(right, ri) {
        let n = if how == JoinType::Inner && left.len() < right.len() {
            left.len()
        } else {
            right.len()
        };
        seq![Charge::Memory(capped(n as int * 24))] + check_rows(n)
    } else {
        enter_keys(right, ri, right.len())
    }
}

/// The memory for the groups of a relation: each is charged where its first row comes.
pub open spec fn group_memory(rel: RelationView, by: Seq<ExprView>) -> Seq<Charge> {
    let keys = group_keys(rel.rows, group_places(rel.columns, by));
    enter_groups(keys, keys.len())
}

/// Two relations joined.
pub open spec fn metered_join(
    l: Metered,
    r: Metered,
    lt: Option<Seq<char>>,
    rt: Option<Seq<char>>,
    condition: ExprView,
    how: JoinType,
) -> Metered {
    match l.rel {
        None => l,
        Some(a) => match r.rel {
            None => Metered { charges: l.charges + r.charges, marks: l.marks + r.marks, snap: l.snap || r.snap, rel: None },
            Some(b) => match join_keys(condition, a.columns, b.columns) {
                None => Metered { charges: l.charges + r.charges, marks: l.marks + r.marks, snap: l.snap || r.snap, rel: None },
                Some((li, ri)) => Metered {
                    marks: l.marks + r.marks,
                    snap: l.snap || r.snap,
                    charges: l.charges + r.charges + join_memory(a.rows, b.rows, li as nat, ri as nat, how),
                    rel: Some(
                        RelationView {
                            columns: prefixed(lt, a.columns) + prefixed(rt, b.columns),
                            rows: joined_rows(
                                a.rows,
                                b.rows,
                                li as nat,
                                ri as nat,
                                a.columns.len(),
                                b.columns.len(),
                                how,
                            ),
                        },
                    ),
                },
            },
        },
    }
}

/// Whether the rows that count hold whole numbers at a place.
pub open spec fn whole_numbers(env: Env, n: NamesView, rows: Seq<Seq<ValueView>>, filter: Option<ExprView>, j: int) -> bool {
    forall|i: int| 0 <= i < rows.len() && concerned(env, n, #[trigger] rows[i], filter) ==> value_at(rows[i], Some(j)) is Int64
}

/// The condition of a scan as far as it compares a column with a constant.
pub open spec fn plain_test(m: Unit, columns: Seq<Seq<char>>, filter: Option<ExprView>) -> Option<ExprView> {
    match filter {
        Some(e) => if fast_filter(m, columns, e) is Some {
            filter
        } else {
            None
        },
        None => None,
    }
}

pub open spec fn is_table(a: Around, table: Seq<char>) -> bool {
    index_of(a.made, table) is Some || table_index(a.s, table) is Some
}

/// Whether the first rows of a sorted scan are found while it goes on, which is not charged: the rows
/// are sorted by one column, and it holds whole numbers.
pub open spec fn top_in_one_go(env: Env, q: SelectStmtView, a: Around, p: PhysicalPlanView) -> bool {
    match p {
        PhysicalPlanView::Sort { input, order_by } => match *input {
            PhysicalPlanView::SeqScan { table, filter, .. } => order_by.len() == 1 && is_table(a, table) && match (
                source_of(env.db, table),
                order_by[0].expr,
            ) {
                (Some(rel), ExprView::Column(c)) => match index_of(rel.columns, c) {
                    Some(j) => whole_numbers(
                        env,
                        query_names(q, rel.columns),
                        rel.rows,
                        plain_test(env.m, rel.columns, filter),
                        j,
                    ),
                    None => false,
                },
                _ => false,
            },
            _ => false,
        },
        _ => false,
    }
}

/// The table of which the first rows are sought by a column of its, whether or not they are found
/// while the scan goes on.
pub open spec fn top_sought(env: Env, a: Around, p: PhysicalPlanView) -> Option<Seq<char>> {
    match p {
        PhysicalPlanView::Sort { input, order_by } => match *input {
            PhysicalPlanView::SeqScan { table, .. } => if order_by.len() == 1 && is_table(a, table) {
                match (source_of(env.db, table), order_by[0].expr) {
                    (Some(rel), ExprView::Column(c)) => if index_of(rel.columns, c) is Some {
                        Some(table)
                    } else {
                        None
                    },
                    _ => None,
                }
            } else {
                None
            },
            _ => None,
        },
        _ => None,
    }
}

/// What finding the first rows of a sorted scan adds to what is read.
pub open spec fn top_marks(env: Env, a: Around, p: PhysicalPlanView) -> Seq<MarkView> {
    match top_sought(env, a, p) {
        Some(table) => in_txn_only(a.in_txn, scan_marks(table, Seq::empty())),
        None => Seq::empty(),
    }
}

/// Whether a call can be computed while a scan goes on.
pub open spec fn quick_call(columns: Seq<Seq<char>>, e: ExprView) -> bool {
    match e {
        ExprView::Function { name, args } => text_upper(name) != "COUNT_DISTINCT"@ && (text_upper(name) == "COUNT"@ || (args.len() > 0 && (
        args[0] matches ExprView::Column(c) && index_of(columns, c) is Some))),
        _ => true,
    }
}

/// Whether the groups of a scan are made while it goes on, which is not charged: outside
/// transactions, of all rows of a table, by its columns.
pub open spec fn groups_in_one_go(
    env: Env,
    a: Around,
    p: PhysicalPlanView,
    by: Seq<ExprView>,
    calls: Seq<ExprView>,
    having: Option<ExprView>,
) -> bool {
    !a.in_txn && having is None && by.len() > 0 && match p {
        PhysicalPlanView::SeqScan { table, filter: None, .. } => is_table(a, table) && match source_of(env.db, table) {
            Some(rel) => group_places(rel.columns, by).len() == by.len() && forall|i: int|
                0 <= i < calls.len() ==> quick_call(rel.columns, #[trigger] calls[i]),
            None => false,
        },
        _ => false,
    }
}

/// The groups of rows, of which only a query that tells its rows apart has further need.
pub open spec fn summed_up(env: Env, q: SelectStmtView, r: RelationView, by: Seq<ExprView>, having: Option<ExprView>) -> RelationView {
    if q.distinct {
        let g = grouped(env.m, r, by, query_calls(q.columns, having));
        RelationView { columns: g.columns, rows: kept_if(env, no_scopes(), query_names(q, g.columns), g.rows, having) }
    } else {
        r
    }
}

/// As many rows as a limit leaves.
pub open spec fn cut_short(rel: Option<RelationView>, count: usize, offset: usize) -> Option<RelationView> {
    match rel {
        None => None,
        Some(r) => Some(RelationView { columns: r.columns, rows: limited(r.rows, count as nat, offset as nat) }),
    }
}

/// What carrying out a plan of the query `q` is charged. Queries inside expressions are not charged.
pub open spec fn metered(env: Env, q: SelectStmtView, a: Around, p: PhysicalPlanView) -> Metered
    decreases p,
{
    match p {
        PhysicalPlanView::SeqScan { table, filter, limit, needed_columns: _ } => metered_scan(env, q, a, table, filter, limit),
        PhysicalPlanView::IndexScan { table, index_name: _, column, op, value, filter, limit } => metered_seek(
            env,
            q,
            a,
            table,
            column,
            op,
            value,
            filter,
            limit,
        ),
        PhysicalPlanView::Filter { input, predicate } => {
            let m = metered(env, q, a, *input);
            match m.rel {
                None => m,
                Some(r) => Metered {
                    rel: Some(
                        RelationView {
                            columns: r.columns,
                            rows: kept(env, no_scopes(), query_names(q, r.columns), r.rows, predicate),
                        },
                    ),
                    ..m
                },
            }
        },
        PhysicalPlanView::HashJoin { left, right, condition, join_type } => metered_join(
            metered(env, q, a, *left),
            metered(env, q, a, *right),
            plan_table(*left),
            plan_table(*right),
            condition,
            join_type,
        ),
        PhysicalPlanView::NestedLoopJoin { left, right, condition, join_type } => metered_join(
            metered(env, q, a, *left),
            metered(env, q, a, *right),
            plan_table(*left),
            plan_table(*right),
            condition,
            join_type,
        ),
        PhysicalPlanView::HashAggregate { input, group_by, aggregates, having } => {
            let m = metered(env, q, a, *input);
            match m.rel {
                None => m,
                Some(r) if groups_in_one_go(env, a, *input, group_by, aggregates, having) => Metered {
                    charges: Seq::empty(),
                    rel: Some(summed_up(env, q, r, group_by, having)),
                    ..m
                },
                Some(r) => Metered {
                    charges: m.charges + group_memory(r, group_by),
                    rel: Some(summed_up(env, q, r, group_by, having)),
                    ..m
                },
            }
        },
        PhysicalPlanView::Project { input, .. } => metered(env, q, a, *input),
        PhysicalPlanView::Sort { input, .. } => metered(env, q, a, *input),
        PhysicalPlanView::Limit { input, count, offset } => {
            let all = metered(env, q, a, *input);
            let m = Metered { rel: cut_short(all.rel, count, offset), ..all };
            if offset != 0 {
                m
            } else if top_in_one_go(env, q, a, *input) {
                Metered { charges: Seq::empty(), marks: top_marks(env, a, *input), ..m }
            } else {
                Metered { marks: top_marks(env, a, *input) + m.marks, ..m }
            }
        },
        PhysicalPlanView::Distinct { input } => {
            let m = metered(env, q, a, *input);
            match m.rel {
                None => m,
                Some(r) => Metered { charges: m.charges + check_rows(r.rows.len()), ..m },
            }
        },
        _ => no_reading(),
    }
}

fn is_column(e: &Expr, name: &str) -> (r: bool)
    ensures
        r == (e@ == ExprView::Column(name@)),
{
    proof {
        (*e).unfold();
    }
    match e {
        Expr::Column(c) => text_is(c.as_str(), name),
        _ => false,
    }
}

fn is_constant(e: &Expr) -> (r: bool)
    ensures
        r == (e@ is Literal),
{
    proof {
        (*e).unfold();
    }
    matches!(e, Expr::Literal(_))
}

pub fn try_pk_lookup(cols: &Vec<Column>, filter: &Option<Expr>) -> (r: bool)
    ensures
        r == asks_key(columns_view(cols@), opt_expr(*filter)),
{
    let at = find_key_places(cols);
    assert(ints(at@).len() == at@.len());
    match filter {
        Some(e) => {
            proof {
                (*e).unfold();
            }
            match e {
                Expr::BinaryOp { left, op: BinOp::Eq, right } => {
                    if at.len() != 1 {
                        return false;
                    }
                    proof {
                        lemma_key_places(columns_view(cols@));
                        assert(ints(at@)[0] == at@[0]);
                    }
                    let name = &cols[at[0]].name;
                    (is_column(left, name.as_str()) && is_constant(right)) || (is_constant(left) && is_column(
                        right,
                        name.as_str(),
                    ))
                },
                _ => false,
            }
        },
        None => false,
    }
}

proof fn lemma_key_places(cols: Seq<ColumnView>)
    ensures
        forall|i: int| 0 <= i < key_places(cols).len() ==> 0 <= #[trigger] key_places(cols)[i] < cols.len(),
    decreases cols.len(),
{
    if cols.len() > 0 {
        lemma_key_places(cols.drop_last());
        let before = key_places(cols.drop_last());
        assert forall|i: int| 0 <= i < key_places(cols).len() implies 0 <= #[trigger] key_places(cols)[i] < cols.len() by {
            if i < before.len() {
                assert(0 <= before[i] < cols.drop_last().len());
            }
        }
    }
}

fn scan<'a, U: Fn(Ask) -> Reply>(cx: &Reader<'a, U>, n: &Names, rows: &Vec<Vec<Value>>, filter: &Option<Expr>, limit: Option<usize>) -> (r: (usize, Vec<Vec<Value>>))
    requires
        cx.ready(),
    ensures
        (Progress { read: r.0 as nat, found: rows_view(r.1@) }) == scan_progress(cx.env(), n@, rows_view(rows@), opt_expr(*filter), limit),
{
    let ghost all = rows_view(rows@);
    let mut read: usize = 0;
    let mut found: Vec<Vec<Value>> = Vec::new();
    let mut i: usize = 0;
    assert(all.take(0).len() == 0);
    assert(rows_view(found@) =~= Seq::empty());
    while i < rows.len()
        invariant
            i <= rows.len(),
            cx.ready(),
            all == rows_view(rows@),
            read <= i,
            (Progress { read: read as nat, found: rows_view(found@) }) == scan_progress(cx.env(), n@, all.take(i as int), opt_expr(*filter), limit),
        decreases rows.len() - i,
    {
        proof {
            assert(all.take(i + 1).drop_last() =~= all.take(i as int));
            assert(all.take(i + 1).last() == values_view(rows@[i as int]@));
            assert(rows_view(found@).len() == found@.len());
        }
        let full = match limit {
            Some(l) => found.len() > 0 && found.len() >= l,
            None => false,
        };
        if !full {
            read = read + 1;
            if is_concerned(cx, n, &rows[i], filter) {
                let row = dup_values(&rows[i]);
                proof {
                    rows_push(found@, row);
                }
                found.push(row);
            }
        }
        i = i + 1;
    }
    assert(all.take(rows.len() as int) =~= all);
    (read, found)
}

fn hand_out<'a, U: Fn(Ask) -> Reply>(cx: &Reader<'a, U>, n: &Names, rows: &Vec<Vec<Value>>, test: &Option<Expr>) -> (r: Vec<Vec<Value>>)
    requires
        cx.ready(),
        test is Some,
    ensures
        rows_view(r@) == handed_out(cx.env(), n@, rows_view(rows@), opt_expr(*test)->0),
{
    let ghost all = rows_view(rows@);
    let ghost ev = opt_expr(*test)->0;
    let mut r: Vec<Vec<Value>> = Vec::new();
    let mut i: usize = 0;
    proof {
        assert(all.take(0).len() == 0);
        assert(rows_view(r@) =~= Seq::empty());
    }
    while i < rows.len()
        invariant
            i <= rows.len(),
            cx.ready(),
            all == rows_view(rows@),
            opt_expr(*test) == Some(ev),
            rows_view(r@) == handed_out(cx.env(), n@, all.take(i as int), ev),
        decreases rows.len() - i,
    {
        proof {
            assert(all.take(i + 1).drop_last() =~= all.take(i as int));
            assert(all.take(i + 1).last() == values_view(rows@[i as int]@));
        }
        if is_concerned(cx, n, &rows[i], test) {
            let row = crate::value::dup_values(&rows[i]);
            proof {
                rows_push(r@, row);
            }
            r.push(row);
        }
        i = i + 1;
    }
    assert(all.take(rows.len() as int) =~= all);
    r
}

/// Finds the rows that an index hands out; none are made where all rows are gone through.
fn seek<'a, U: Fn(Ask) -> Reply>(
    cx: &Reader<'a, U>,
    t: &Table,
    rows: &Vec<Vec<Value>>,
    column: &str,
    op: BinOp,
    value: &Expr,
    mixed: bool,
) -> (r: Option<(Vec<Vec<Value>>, Way)>)
    requires
        cx.ready(),
    ensures
        r matches Some((_, w)) ==> w@ == Gate::Index(table_scope(t@), seek_test(t@, column@, op, value@)),
        (match r { Some((out, _)) => Some(rows_view(out@)), None => None }) == sought(
            cx.env(),
            t@,
            rows_view(rows@),
            column@,
            op,
            value@,
            mixed,
        ),
{
    let c = list_column_names(&t.columns);
    let n = bare_names(&c);
    let i = match find_index(&c, column) {
        Some(i) => i,
        None => {
            return None;
        },
    };
    proof {
        lemma_index_range(column_names(t@.columns), column@);
        assert(t@.columns[i as int] == t.columns@[i as int]@);
    }
    let ty = t.columns[i].data_type;
    let sought = matches!(op, BinOp::Eq | BinOp::Lt | BinOp::Lte | BinOp::Gt | BinOp::Gte);
    if mixed || !sought || matches!(ty, DataType::Decimal | DataType::Json) {
        return None;
    }
    let p = Expr::Cast { expr: Box::new(value.dup()), data_type: ty };
    proof {
        p.unfold();
    }
    let o = outside();
    let none: Vec<Value> = Vec::new();
    proof {
        assert(values_view(none@) =~= Seq::empty());
    }
    let v = eval_value(cx, &o, &n, &none, &p);
    if matches!(v, Value::Null) {
        return None;
    }
    let l = Expr::Column(column.to_string());
    let wide = match op {
        BinOp::Lt => BinOp::Lte,
        BinOp::Gt => BinOp::Gte,
        _ => op,
    };
    let test = Expr::BinaryOp { left: Box::new(l), op: wide, right: Box::new(p) };
    proof {
        l.unfold();
        test.unfold();
    }
    let test = Some(test);
    let out = hand_out(cx, &n, rows, &test);
    Some((out, Way::Index(n, test)))
}

/// What is read while a plan is carried out.
pub struct Nearby<'a> {
    pub s: &'a Store,
    pub made: &'a Vec<String>,
    pub in_txn: bool,
    pub mixed: bool,
}

impl<'a> Nearby<'a> {
    pub open spec fn view(&self) -> Around {
        Around { s: self.s@, made: names_view(self.made@), in_txn: self.in_txn, mixed: self.mixed }
    }
}

/// What a plan is charged, what it reads, and its rows.
pub struct Reading {
    pub charges: Vec<Charge>,
    pub marks: Vec<Mark>,
    pub snap: bool,
    pub rel: Option<Relation>,
}

impl Reading {
    pub open spec fn view(&self) -> Metered {
        Metered {
            charges: self.charges@,
            marks: marks_view(self.marks@),
            snap: self.snap,
            rel: match self.rel {
                Some(r) => Some(r@),
                None => None,
            },
        }
    }
}

fn make_no_reading() -> (r: Reading)
    ensures
        r@ == no_reading(),
{
    let charges: Vec<Charge> = Vec::new();
    let r = Reading { charges, marks: no_marks(), snap: false, rel: None };
    assert(r@.charges =~= Seq::empty());
    r
}

fn find_key_bound<'a>(e: &'a Expr, name: &str) -> (r: Option<(BinOp, &'a LiteralValue)>)
    ensures
        (match r { Some((op, l)) => Some((op, l@)), None => None }) == key_bound(e@, name@),
{
    proof {
        (*e).unfold();
    }
    match e {
        Expr::BinaryOp { left, op, right } => {
            proof {
                (**left).unfold();
                (**right).unfold();
            }
            match (&**left, &**right) {
                (Expr::Column(n), Expr::Literal(l)) => if text_is(n.as_str(), name) {
                    Some((*op, l))
                } else {
                    None
                },
                (Expr::Literal(l), Expr::Column(n)) => if text_is(n.as_str(), name) {
                    Some((flip_op(*op), l))
                } else {
                    None
                },
                _ => None,
            }
        },
        _ => None,
    }
}

fn try_pk_range<'a>(cols: &Vec<Column>, filter: &'a Option<Expr>) -> (r: Option<(&'a LiteralValue, &'a LiteralValue, usize)>)
    ensures
        (match r { Some((lo, hi, _)) => Some((lo@, hi@)), None => None }) == key_range(columns_view(cols@), opt_expr(*filter)),
        r matches Some((_, _, j)) ==> j == key_places(columns_view(cols@))[0],
{
    let at = find_key_places(cols);
    assert(ints(at@).len() == at@.len());
    match filter {
        Some(e) => {
            proof {
                (*e).unfold();
            }
            match e {
                Expr::BinaryOp { left, op: BinOp::And, right } => {
                    if at.len() != 1 {
                        return None;
                    }
                    proof {
                        lemma_key_places(columns_view(cols@));
                        assert(ints(at@)[0] == at@[0]);
                        assert(columns_view(cols@)[at@[0] as int] == cols@[at@[0] as int]@);
                    }
                    let name = &cols[at[0]].name;
                    match (find_key_bound(left, name.as_str()), find_key_bound(right, name.as_str())) {
                        (Some((a, x)), Some((b, y))) => if matches!(a, BinOp::Gte | BinOp::Gt) && matches!(b, BinOp::Lte) {
                            Some((x, y, at[0]))
                        } else if matches!(a, BinOp::Lte) && matches!(b, BinOp::Gte | BinOp::Gt) {
                            Some((y, x, at[0]))
                        } else {
                            None
                        },
                        _ => None,
                    }
                },
                _ => None,
            }
        },
        None => None,
    }
}

fn take_between(rows: &Vec<Vec<Value>>, j: usize, lo: &Value, hi: &Value) -> (r: Vec<Vec<Value>>)
    ensures
        rows_view(r@) == rows_between(rows_view(rows@), j as int, lo@, hi@),
{
    let ghost all = rows_view(rows@);
    let mut r: Vec<Vec<Value>> = Vec::new();
    let mut i: usize = 0;
    assert(all.take(0).len() == 0);
    assert(rows_view(r@) =~= Seq::empty());
    while i < rows.len()
        invariant
            i <= rows.len(),
            all == rows_view(rows@),
            rows_view(r@) == rows_between(all.take(i as int), j as int, lo@, hi@),
        decreases rows.len() - i,
    {
        proof {
            assert(all.take(i + 1).drop_last() =~= all.take(i as int));
            assert(all.take(i + 1).last() == values_view(rows@[i as int]@));
        }
        let v = get_value(&rows[i], Some(j));
        if !matches!(order_values(&v, lo), Order::Less) && !matches!(order_values(&v, hi), Order::Greater) {
            let row = dup_values(&rows[i]);
            proof {
                rows_push(r@, row);
            }
            r.push(row);
        }
        i = i + 1;
    }
    assert(all.take(rows.len() as int) =~= all);
    r
}

fn cost_scan(n: usize, read: usize, filtered: bool, limit: Option<usize>, in_txn: bool) -> (r: Vec<Charge>)
    ensures
        forall|f: Option<ExprView>| f is Some == filtered ==> r@ == #[trigger] scan_cost(n as nat, read as nat, f, limit, in_txn),
{
    let mut r: Vec<Charge> = Vec::new();
    if !in_txn && limit.is_none() && filtered && n >= PARALLEL_SCAN_THRESHOLD {
        r.push(Charge::AllRows(n as u64));
        r.push(Charge::Check);
        assert(r@ =~= seq![Charge::AllRows(n as u64), Charge::Check]);
    } else if !in_txn && limit.is_none() && !filtered {
        r.push(Charge::PlainRows(read as u64));
        assert(r@ =~= seq![Charge::PlainRows(read as u64)]);
    } else {
        r.push(Charge::Rows(read as u64));
        assert(r@ =~= seq![Charge::Rows(read as u64)]);
    }
    r
}

fn meter_scan<'a, U: Fn(Ask) -> Reply>(
    cx: &Reader<'a, U>,
    q: &SelectStmt,
    a: &Nearby,
    table: &str,
    filter: &Option<Expr>,
    limit: Option<usize>,
) -> (r: Reading)
    requires
        cx.ready(),
        a.s.wf(),
    ensures
        r@ == metered_scan(cx.env(), q@, a@, table@, opt_expr(*filter), limit),
{
    let source = match find_source(cx.db, table) {
        Some(s) => s,
        None => {
            return make_no_reading();
        },
    };
    let n = make_names(q, &source.rel.columns);
    let made = find_index(a.made, table).is_some();
    let stored = a.s.find(table);
    let by_key = match stored {
        Some(i) => {
            assert(a.s@.tables[i as int] == a.s.tables@[i as int]@);
            !made && try_pk_lookup(&a.s.tables[i].columns, filter)
        },
        None => false,
    };
    let mut charges: Vec<Charge> = Vec::new();
    let columns = dup_names(&source.rel.columns);
    if by_key {
        let (_, rows) = scan(cx, &n, &source.rel.rows, filter, None);
        assert(rows_view(rows@).len() == rows@.len());
        let mut marks = no_marks();
        if a.in_txn {
            charges.push(Charge::Rows(rows.len() as u64));
            let m = Mark::Read { table: table.to_string(), key: find_asked_key(cx.u, filter) };
            proof {
                marks_push(marks@, m);
            }
            marks.push(m);
        }
        let ghost want = metered_scan(cx.env(), q@, a@, table@, opt_expr(*filter), limit);
        assert(charges@ =~= want.charges);
        assert(marks_view(marks@) =~= want.marks);
        Reading { charges, marks, snap: a.in_txn, rel: Some(Relation { columns, rows }) }
    } else {
        if a.in_txn && !made {
            if let Some(i) = stored {
                assert(a.s@.tables[i as int] == a.s.tables@[i as int]@);
                if let Some((lo, hi, j)) = try_pk_range(&a.s.tables[i].columns, filter) {
                    let lo = eval_literal(cx.u, lo);
                    let hi = eval_literal(cx.u, hi);
                    let between = take_between(&source.rel.rows, j, &lo, &hi);
                    let (read, rows) = scan(cx, &n, &between, filter, limit);
                    charges.push(Charge::Rows(read as u64));
                    let keys = touch(cx, &n, &a.s.tables[i].keys, &source.rel.rows, &Way::Between(j, lo, hi), filter, limit);
                    let marks = mark_scan(table, keys);
                    let ghost want = metered_scan(cx.env(), q@, a@, table@, opt_expr(*filter), limit);
                    assert(charges@ =~= want.charges);
                    return Reading { charges, marks, snap: true, rel: Some(Relation { columns, rows }) };
                }
            }
        }
        let (read, rows) = scan(cx, &n, &source.rel.rows, filter, limit);
        assert(rows_view(source.rel.rows@).len() == source.rel.rows@.len());
        if made || stored.is_some() {
            charges = cost_scan(source.rel.rows.len(), read, filter.is_some(), limit, a.in_txn);
        }
        let mut marks = no_marks();
        if a.in_txn {
            if made {
                let keys = number_rows(source.rel.rows.len());
                marks = mark_scan(table, touch(cx, &n, &keys, &source.rel.rows, &Way::All, filter, limit));
            } else if let Some(i) = stored {
                assert(a.s@.tables[i as int] == a.s.tables@[i as int]@);
                marks = mark_scan(table, touch(cx, &n, &a.s.tables[i].keys, &source.rel.rows, &Way::All, filter, limit));
            }
        }
        let ghost want = metered_scan(cx.env(), q@, a@, table@, opt_expr(*filter), limit);
        assert(charges@ =~= want.charges);
        let snap = a.in_txn && a.mixed && !made && stored.is_some();
        Reading { charges, marks, snap, rel: Some(Relation { columns, rows }) }
    }
}

fn meter_seek<'a, U: Fn(Ask) -> Reply>(
    cx: &Reader<'a, U>,
    q: &SelectStmt,
    a: &Nearby,
    table: &str,
    column: &str,
    op: BinOp,
    value: &Expr,
    filter: &Option<Expr>,
    limit: Option<usize>,
) -> (r: Reading)
    requires
        cx.ready(),
        a.s.wf(),
    ensures
        r@ == metered_seek(cx.env(), q@, a@, table@, column@, op, value@, opt_expr(*filter), limit),
{
    if find_index(a.made, table).is_some() {
        return meter_scan(cx, q, a, table, filter, limit);
    }
    match (find_source(cx.db, table), a.s.find(table)) {
        (Some(source), Some(i)) => {
            assert(a.s@.tables[i as int] == a.s.tables@[i as int]@);
            match seek(cx, &a.s.tables[i], &source.rel.rows, column, op, value, a.mixed) {
                None => meter_scan(cx, q, a, table, filter, limit),
                Some((out, way)) => {
                    let n = make_names(q, &source.rel.columns);
                    let (read, rows) = scan(cx, &n, &out, filter, limit);
                    let mut charges: Vec<Charge> = Vec::new();
                    charges.push(Charge::Rows(read as u64));
                    assert(charges@ =~= seq![Charge::Rows(capped(read as int))]);
                    let mut marks = no_marks();
                    if a.in_txn {
                        marks = mark_scan(table, touch(cx, &n, &a.s.tables[i].keys, &source.rel.rows, &way, filter, limit));
                    }
                    assert(rows_view(out@).len() == out@.len());
                    Reading { charges, marks, snap: a.in_txn && out.len() > 0, rel: Some(Relation { columns: dup_names(&source.rel.columns), rows }) }
                },
            }
        },
        _ => meter_scan(cx, q, a, table, filter, limit),
    }
}

fn times24(n: usize) -> (r: u64)
    ensures
        r == capped(n * 24),
{
    let n = n as u64;
    if n > u64::MAX / 24 {
        u64::MAX
    } else {
        n * 24
    }
}

fn charge_due(charges: &mut Vec<Charge>, i: usize)
    ensures
        final(charges)@ == old(charges)@ + check_due(i as int),
{
    let ghost front = charges@;
    if i % 1024 == 0 {
        charges.push(Charge::Check);
    }
    assert(charges@ =~= front + check_due(i as int));
}

fn charge_check(charges: &mut Vec<Charge>, n: usize)
    ensures
        final(charges)@ == old(charges)@ + check_rows(n as nat),
{
    let ghost front = charges@;
    let mut i: usize = 0;
    assert(charges@ =~= front + check_rows(0));
    while i < n
        invariant
            i <= n,
            charges@ == front + check_rows(i as nat),
        decreases n - i,
    {
        charge_due(charges, i);
        assert(charges@ =~= front + check_rows((i + 1) as nat));
        i = i + 1;
    }
}

fn charge_join(charges: &mut Vec<Charge>, left: &Vec<Vec<Value>>, right: &Vec<Vec<Value>>, li: usize, ri: usize, how: JoinType)
    ensures
        final(charges)@ == old(charges)@ + join_memory(rows_view(left@), rows_view(right@), li as nat, ri as nat, how),
{
    let ghost start = charges@;
    let ghost whole = join_memory(rows_view(left@), rows_view(right@), li as nat, ri as nat, how);
    proof {
        assert(rows_view(left@).len() == left@.len());
        assert(rows_view(right@).len() == right@.len());
    }
    if has_int_keys(left, li) && has_int_keys(right, ri) {
        let n = if matches!(how, JoinType::Inner) && left.len() < right.len() {
            left.len()
        } else {
            right.len()
        };
        charges.push(Charge::Memory(times24(n)));
        charge_check(charges, n);
        assert(charges@ =~= start + whole);
        return;
    }
    let mut i: usize = 0;
    assert(charges@ =~= start + enter_keys(rows_view(right@), ri as nat, 0));
    while i < right.len()
        invariant
            i <= right.len(),
            rows_view(right@).len() == right@.len(),
            charges@ == start + enter_keys(rows_view(right@), ri as nat, i as nat),
        decreases right.len() - i,
    {
        assert(rows_view(right@)[i as int] == values_view(right@[i as int]@));
        let v = get_value(&right[i], Some(ri));
        charge_due(charges, i);
        charges.push(Charge::Memory(plus(measure_key(&v), 24)));
        assert(charges@ =~= start + enter_keys(rows_view(right@), ri as nat, (i + 1) as nat));
        i = i + 1;
    }
}

/// The groups that start among the first rows are the first groups.
proof fn lemma_starts_in_order(keys: Seq<Seq<ValueView>>, i: int)
    requires
        0 <= i <= keys.len() <= usize::MAX,
    ensures
        ({
            let p = group_starts(keys.take(i));
            let g = group_starts(keys);
            p.len() <= g.len() && g.take(p.len() as int) == p && forall|k: int| p.len() <= k < g.len() ==> #[trigger] g[k] >= i
        }),
    decreases keys.len(),
{
    let p = group_starts(keys.take(i));
    let g = group_starts(keys);
    if i == keys.len() {
        assert(keys.take(i) =~= keys);
        assert(g.take(p.len() as int) =~= p);
    } else {
        let d = keys.drop_last();
        lemma_starts_in_order(d, i);
        assert(d.take(i) =~= keys.take(i));
        assert(g.take(p.len() as int) =~= group_starts(d).take(p.len() as int));
    }
}

fn charge_groups(charges: &mut Vec<Charge>, rel: &Relation, by: &Vec<Expr>)
    ensures
        final(charges)@ == old(charges)@ + group_memory(rel@, exprs_view(by@)),
{
    let ghost start = charges@;
    let ghost whole = group_memory(rel@, exprs_view(by@));
    assert(rows_view(rel.rows@).len() == rel.rows@.len());
    let at = find_group_places(&rel.columns, by);
    let keys = make_keys(&rel.rows, &at);
    let starts = find_group_starts(&keys);
    let ghost k = rows_view(keys@);
    assert(k.len() == keys@.len());
    let mut i: usize = 0;
    let mut j: usize = 0;
    assert(k.take(0) =~= Seq::empty());
    assert(charges@ =~= start + enter_groups(k, 0));
    while i < keys.len()
        invariant
            i <= keys.len(),
            k == rows_view(keys@),
            k.len() == keys@.len(),
            starts@ == group_starts(k),
            j == group_starts(k.take(i as int)).len(),
            j <= starts.len(),
            charges@ == start + enter_groups(k, i as nat),
        decreases keys.len() - i,
    {
        proof {
            assert(k[i as int] == values_view(keys@[i as int]@));
            lemma_starts_in_order(k, i as int);
            lemma_starts_in_order(k, i + 1);
            let t = k.take(i + 1);
            assert(t.drop_last() =~= k.take(i as int));
            assert(t.last() == k[i as int]);
            if !k.take(i as int).contains(k[i as int]) {
                let p = group_starts(t);
                assert(p.last() == i);
                assert(starts@.take(p.len() as int)[j as int] == p[j as int]);
            }
        }
        charge_due(charges, i);
        if j < starts.len() && starts[j] == i {
            charges.push(Charge::Memory(plus(measure_group_key(&keys[i]), 24)));
            j = j + 1;
        }
        assert(charges@ =~= start + enter_groups(k, (i + 1) as nat));
        i = i + 1;
    }
}

fn name_plan(p: &PhysicalPlan) -> (r: Option<&str>)
    ensures
        opt_text(r) == plan_table(p@),
{
    proof {
        (*p).unfold();
    }
    match p {
        PhysicalPlan::SeqScan { table, .. } => Some(table.as_str()),
        PhysicalPlan::IndexScan { table, .. } => Some(table.as_str()),
        _ => None,
    }
}

pub fn join_charges(a: Vec<Charge>, b: &Vec<Charge>) -> (r: Vec<Charge>)
    ensures
        r@ == a@ + b@,
{
    let mut r = a;
    let mut i: usize = 0;
    assert(r@ =~= a@ + b@.take(0));
    while i < b.len()
        invariant
            i <= b.len(),
            r@ == a@ + b@.take(i as int),
        decreases b.len() - i,
    {
        assert(a@ + b@.take(i + 1) =~= (a@ + b@.take(i as int)).push(b@[i as int]));
        r.push(b[i]);
        i = i + 1;
    }
    assert(b@.take(b.len() as int) =~= b@);
    r
}

fn meter_join(l: Reading, r: Reading, lt: Option<&str>, rt: Option<&str>, condition: &Expr, how: JoinType) -> (out: Reading)
    ensures
        out@ == metered_join(l@, r@, opt_text(lt), opt_text(rt), condition@, how),
{
    let ghost lv = l@;
    let ghost rv = r@;
    let a = match l.rel {
        Some(a) => a,
        None => {
            return l;
        },
    };
    let mut charges = join_charges(l.charges, &r.charges);
    let marks = join_marks(l.marks, &r.marks);
    let snap = l.snap || r.snap;
    let b = match r.rel {
        Some(b) => b,
        None => {
            return Reading { charges, marks, snap, rel: None };
        },
    };
    match extract_join_keys(condition, &a.columns, &b.columns) {
        None => Reading { charges, marks, snap, rel: None },
        Some((li, ri)) => {
            charge_join(&mut charges, &a.rows, &b.rows, li, ri, how);
            let mut columns: Vec<String> = Vec::new();
            assert(names_view(columns@) =~= Seq::empty());
            add_prefixed(&mut columns, lt, &a.columns);
            add_prefixed(&mut columns, rt, &b.columns);
            let width: usize = columns.len();
            let rows = join_rows(&a.rows, &b.rows, li, ri, a.columns.len(), b.columns.len(), how);
            let rel = Relation { columns, rows };
            proof {
                assert(a@.columns.len() == a.columns@.len());
                assert(b@.columns.len() == b.columns@.len());
                assert(rel@.columns =~= prefixed(opt_text(lt), a@.columns) + prefixed(opt_text(rt), b@.columns));
            }
            Reading { charges, marks, snap, rel: Some(rel) }
        },
    }
}

fn has_whole_numbers<'a, U: Fn(Ask) -> Reply>(cx: &Reader<'a, U>, n: &Names, rows: &Vec<Vec<Value>>, filter: &Option<Expr>, j: usize) -> (r: bool)
    requires
        cx.ready(),
    ensures
        r == whole_numbers(cx.env(), n@, rows_view(rows@), opt_expr(*filter), j as int),
{
    let ghost all = rows_view(rows@);
    let mut i: usize = 0;
    while i < rows.len()
        invariant
            i <= rows.len(),
            cx.ready(),
            all == rows_view(rows@),
            forall|k: int|
                0 <= k < i && concerned(cx.env(), n@, #[trigger] all[k], opt_expr(*filter)) ==> value_at(all[k], Some(j as int)) is Int64,
        decreases rows.len() - i,
    {
        assert(all[i as int] == values_view(rows@[i as int]@));
        if is_concerned(cx, n, &rows[i], filter) && !matches!(get_value(&rows[i], Some(j)), Value::Int64(_)) {
            return false;
        }
        i = i + 1;
    }
    true
}

fn does_top_in_one_go<'a, U: Fn(Ask) -> Reply>(cx: &Reader<'a, U>, q: &SelectStmt, a: &Nearby, p: &PhysicalPlan) -> (r: bool)
    requires
        cx.ready(),
        a.s.wf(),
    ensures
        r == top_in_one_go(cx.env(), q@, a@, p@),
{
    proof {
        (*p).unfold();
    }
    let (input, by) = match p {
        PhysicalPlan::Sort { input, order_by } => (input, order_by),
        _ => {
            return false;
        },
    };
    proof {
        broadcast use order_by_exprs_len;

        (**input).unfold();
        assert(order_by_exprs_view(by@).len() == by@.len());
    }
    let (table, filter) = match &**input {
        PhysicalPlan::SeqScan { table, filter, limit: _, needed_columns: _ } => (table, filter),
        _ => {
            return false;
        },
    };
    if by.len() != 1 || !(find_index(a.made, table.as_str()).is_some() || a.s.find(table.as_str()).is_some()) {
        return false;
    }
    proof {
        broadcast use order_by_exprs_at;

        assert(order_by_exprs_view(by@)[0] == by@[0]@);
        by@[0].unfold();
        by@[0].expr.unfold();
    }
    match (find_source(cx.db, table.as_str()), &by[0].expr) {
        (Some(s), Expr::Column(c)) => match find_index(&s.rel.columns, c.as_str()) {
            Some(j) => {
                let n = make_names(q, &s.rel.columns);
                let plain = match filter {
                    Some(e) => try_fast_filter(cx.u, &s.rel.columns, e).is_some(),
                    None => false,
                };
                if plain {
                    has_whole_numbers(cx, &n, &s.rel.rows, filter, j)
                } else {
                    has_whole_numbers(cx, &n, &s.rel.rows, &None, j)
                }
            },
            None => false,
        },
        _ => false,
    }
}

fn mark_top<'a, U: Fn(Ask) -> Reply>(cx: &Reader<'a, U>, a: &Nearby, p: &PhysicalPlan) -> (r: Vec<Mark>)
    requires
        cx.ready(),
        a.s.wf(),
    ensures
        marks_view(r@) == top_marks(cx.env(), a@, p@),
{
    proof {
        (*p).unfold();
    }
    let (input, by) = match p {
        PhysicalPlan::Sort { input, order_by } => (input, order_by),
        _ => {
            return no_marks();
        },
    };
    proof {
        broadcast use order_by_exprs_len;

        (**input).unfold();
        assert(order_by_exprs_view(by@).len() == by@.len());
    }
    let table = match &**input {
        PhysicalPlan::SeqScan { table, filter: _, limit: _, needed_columns: _ } => table,
        _ => {
            return no_marks();
        },
    };
    if by.len() != 1 || !(find_index(a.made, table.as_str()).is_some() || a.s.find(table.as_str()).is_some()) {
        return no_marks();
    }
    proof {
        broadcast use order_by_exprs_at;

        assert(order_by_exprs_view(by@)[0] == by@[0]@);
        by@[0].unfold();
        by@[0].expr.unfold();
    }
    match (find_source(cx.db, table.as_str()), &by[0].expr) {
        (Some(s), Expr::Column(c)) => {
            if a.in_txn && find_index(&s.rel.columns, c.as_str()).is_some() {
                let keys: Vec<Vec<Value>> = Vec::new();
                assert(rows_view(keys@) =~= Seq::empty());
                mark_scan(table.as_str(), keys)
            } else {
                no_marks()
            }
        },
        _ => no_marks(),
    }
}

fn is_quick_call(columns: &Vec<String>, e: &Expr) -> (r: bool)
    ensures
        r == quick_call(names_view(columns@), e@),
{
    proof {
        broadcast use exprs_len;

        (*e).unfold();
    }
    match e {
        Expr::Function { name, args } => {
            let f = name.to_uppercase();
            if text_is(f.as_str(), "COUNT_DISTINCT") {
                return false;
            }
            if text_is(f.as_str(), "COUNT") {
                return true;
            }
            if args.len() == 0 {
                return false;
            }
            proof {
                broadcast use exprs_at;

                assert(exprs_view(args@)[0] == args@[0]@);
                args@[0].unfold();
            }
            match &args[0] {
                Expr::Column(c) => find_index(columns, c.as_str()).is_some(),
                _ => false,
            }
        },
        _ => true,
    }
}

fn are_quick_calls(columns: &Vec<String>, calls: &Vec<Expr>) -> (r: bool)
    ensures
        r == (forall|i: int| 0 <= i < exprs_view(calls@).len() ==> quick_call(names_view(columns@), #[trigger] exprs_view(calls@)[i])),
{
    let ghost all = exprs_view(calls@);
    proof {
        broadcast use exprs_len;

        assert(all.len() == calls@.len());
    }
    let mut i: usize = 0;
    while i < calls.len()
        invariant
            i <= calls.len(),
            all == exprs_view(calls@),
            all.len() == calls@.len(),
            forall|k: int| 0 <= k < i ==> quick_call(names_view(columns@), #[trigger] all[k]),
        decreases calls.len() - i,
    {
        proof {
            broadcast use exprs_at;

            assert(all[i as int] == calls@[i as int]@);
        }
        if !is_quick_call(columns, &calls[i]) {
            return false;
        }
        i = i + 1;
    }
    true
}

fn does_group_in_one_go<'a, U: Fn(Ask) -> Reply>(
    cx: &Reader<'a, U>,
    a: &Nearby,
    p: &PhysicalPlan,
    by: &Vec<Expr>,
    calls: &Vec<Expr>,
    having: &Option<Expr>,
) -> (r: bool)
    requires
        cx.ready(),
        a.s.wf(),
    ensures
        r == groups_in_one_go(cx.env(), a@, p@, exprs_view(by@), exprs_view(calls@), opt_expr(*having)),
{
    proof {
        broadcast use exprs_len;

        (*p).unfold();
        assert(exprs_view(by@).len() == by@.len());
    }
    if a.in_txn || having.is_some() || by.len() == 0 {
        return false;
    }
    match p {
        PhysicalPlan::SeqScan { table, filter, limit: _, needed_columns: _ } => {
            if filter.is_some() || !(find_index(a.made, table.as_str()).is_some() || a.s.find(table.as_str()).is_some()) {
                return false;
            }
            match find_source(cx.db, table.as_str()) {
                Some(s) => {
                    let at = find_group_places(&s.rel.columns, by);
                    assert(ints(at@).len() == at@.len());
                    at.len() == by.len() && are_quick_calls(&s.rel.columns, calls)
                },
                None => false,
            }
        },
        _ => false,
    }
}

fn sum_up<'a, U: Fn(Ask) -> Reply>(cx: &Reader<'a, U>, q: &SelectStmt, r: Relation, by: &Vec<Expr>, having: &Option<Expr>) -> (out: Relation)
    requires
        cx.ready(),
    ensures
        out@ == summed_up(cx.env(), q@, r@, exprs_view(by@), opt_expr(*having)),
{
    proof {
        (*q).unfold();
    }
    if q.distinct {
        let calls = collect_query_calls(&q.columns, having);
        let g = group_rows(cx.u, &r, by, &calls);
        let n = make_names(q, &g.columns);
        let rows = apply_filter(cx, &outside(), &n, g.rows, having);
        Relation { columns: g.columns, rows }
    } else {
        r
    }
}

/// Finds out what carrying out a plan is charged.
pub fn meter<'a, U: Fn(Ask) -> Reply>(cx: &Reader<'a, U>, q: &SelectStmt, a: &Nearby, p: &PhysicalPlan) -> (r: Reading)
    requires
        cx.ready(),
        a.s.wf(),
    ensures
        r@ == metered(cx.env(), q@, a@, p@),
    decreases p,
{
    proof {
        (*p).unfold();
    }
    match p {
        PhysicalPlan::SeqScan { table, filter, limit, needed_columns: _ } => meter_scan(cx, q, a, table.as_str(), filter, *limit),
        PhysicalPlan::IndexScan { table, index_name: _, column, op, value, filter, limit } => meter_seek(
            cx,
            q,
            a,
            table.as_str(),
            column.as_str(),
            *op,
            value,
            filter,
            *limit,
        ),
        PhysicalPlan::Filter { input, predicate } => {
            let m = meter(cx, q, a, input);
            match m.rel {
                None => m,
                Some(r) => {
                    let n = make_names(q, &r.columns);
                    let test = Some(predicate.dup());
                    let rows = apply_filter(cx, &outside(), &n, r.rows, &test);
                    Reading { charges: m.charges, marks: m.marks, snap: m.snap, rel: Some(Relation { columns: r.columns, rows }) }
                },
            }
        },
        PhysicalPlan::HashJoin { left, right, condition, join_type }
        | PhysicalPlan::NestedLoopJoin { left, right, condition, join_type } => {
            let l = meter(cx, q, a, left);
            let r = meter(cx, q, a, right);
            meter_join(l, r, name_plan(left), name_plan(right), condition, *join_type)
        },
        PhysicalPlan::HashAggregate { input, group_by, aggregates, having } => {
            let m = meter(cx, q, a, input);
            match m.rel {
                None => m,
                Some(r) => {
                    if does_group_in_one_go(cx, a, input, group_by, aggregates, having) {
                        let charges: Vec<Charge> = Vec::new();
                        assert(charges@ =~= Seq::empty());
                        return Reading { charges, marks: m.marks, snap: m.snap, rel: Some(sum_up(cx, q, r, group_by, having)) };
                    }
                    let mut charges = m.charges;
                    charge_groups(&mut charges, &r, group_by);
                    Reading { charges, marks: m.marks, snap: m.snap, rel: Some(sum_up(cx, q, r, group_by, having)) }
                },
            }
        },
        PhysicalPlan::Project { input, columns: _ } => meter(cx, q, a, input),
        PhysicalPlan::Sort { input, order_by: _ } => meter(cx, q, a, input),
        PhysicalPlan::Limit { input, count, offset } => {
            let all = meter(cx, q, a, input);
            let rel = match &all.rel {
                None => None,
                Some(r) => Some(Relation { columns: dup_names(&r.columns), rows: limit_rows(&r.rows, *count, *offset) }),
            };
            let m = Reading { charges: all.charges, marks: all.marks, snap: all.snap, rel };
            if *offset != 0 {
                m
            } else {
                let first = mark_top(cx, a, input);
                if does_top_in_one_go(cx, q, a, input) {
                    let charges: Vec<Charge> = Vec::new();
                    assert(charges@ =~= Seq::empty());
                    Reading { charges, marks: first, snap: m.snap, rel: m.rel }
                } else {
                    Reading { charges: m.charges, marks: join_marks(first, &m.marks), snap: m.snap, rel: m.rel }
                }
            }
        },
        PhysicalPlan::Distinct { input } => {
            let m = meter(cx, q, a, input);
            match m.rel {
                None => m,
                Some(r) => {
                    let mut charges = m.charges;
                    assert(rows_view(r.rows@).len() == r.rows@.len());
                    charge_check(&mut charges, r.rows.len());
                    Reading { charges, marks: m.marks, snap: m.snap, rel: Some(r) }
                },
            }
        },
        _ => make_no_reading(),
    }
}

/// A scan never reads more rows than there are, nor finds more than it reads.
pub proof fn law_scan_is_bounded(env: Env, n: NamesView, rows: Seq<Seq<ValueView>>, filter: Option<ExprView>, limit: Option<usize>)
    ensures
        scan_progress(env, n, rows, filter, limit).read <= rows.len(),
        scan_progress(env, n, rows, filter, limit).found.len() <= scan_progress(env, n, rows, filter, limit).read,
        limit matches Some(l) ==> (l > 0 ==> scan_progress(env, n, rows, filter, limit).found.len() <= l),
    decreases rows.len(),
{
    if rows.len() > 0 {
        law_scan_is_bounded(env, n, rows.drop_last(), filter, limit);
    }
}

/// The side of a comparison with a constant that names the column.
pub open spec fn column_side(e: ExprView) -> ExprView {
    match e {
        ExprView::BinaryOp { left, op: _, right } => if column_name(*left) is Some && *right is Literal {
            *left
        } else {
            *right
        },
        _ => e,
    }
}

/// Whether a condition that an index can help with, read by the names `n`, compares a column of the
/// table with a constant of the column's type.
pub open spec fn straight(env: Env, n: NamesView, t: TableView, e: ExprView) -> bool {
    match column_test(e) {
        None => true,
        Some((c, _, v)) => match index_of(column_names(t.columns), c) {
            None => true,
            Some(i) => forall|row: Seq<ValueView>|
                #[trigger] eval(env, no_scopes(), table_scope(t), row, probe(v, t.columns[i].data_type)) == eval(
                    env,
                    no_scopes(),
                    n,
                    row,
                    v,
                ) && eval(env, no_scopes(), n, row, column_side(e)) == eval(
                    env,
                    no_scopes(),
                    table_scope(t),
                    row,
                    ExprView::Column(c),
                ),
        },
    }
}

proof fn lemma_best_seek(x: Seq<IndexInfoView>, c: Seq<ExprView>) -> (i: int)
    requires
        best_seek(x, c) is Some,
    ensures
        0 <= i < c.len(),
        seek_for(x, c[i]) == best_seek(x, c),
    decreases c.len(),
{
    if best_seek(x, c) == seek_for(x, c.last()) {
        c.len() - 1
    } else {
        lemma_best_seek(x, c.drop_last())
    }
}

proof fn lemma_handed_out(env: Env, n: NamesView, own: NamesView, rows: Seq<Seq<ValueView>>, e: ExprView, test: ExprView)
    requires
        forall|row: Seq<ValueView>| #[trigger] predicate(env, no_scopes(), n, row, e) ==> predicate(env, no_scopes(), own, row, test),
    ensures
        kept(env, no_scopes(), n, handed_out(env, own, rows, test), e) == kept(env, no_scopes(), n, rows, e),
    decreases rows.len(),
{
    if rows.len() > 0 {
        lemma_handed_out(env, n, own, rows.drop_last(), e, test);
        let h = handed_out(env, own, rows.drop_last(), test);
        if concerned(env, own, rows.last(), Some(test)) {
            assert(h.push(rows.last()).drop_last() =~= h);
        }
    }
}

/// A scan by the index that a condition asks for finds the rows that a scan of the whole table
/// finds, in the same order.
pub proof fn law_index_scan_matches_scan(
    env: Env,
    n: NamesView,
    t: TableView,
    rows: Seq<Seq<ValueView>>,
    x: Seq<IndexInfoView>,
    e: ExprView,
    mixed: bool,
)
    requires
        even_handed(env.m),
        best_seek(x, conjuncts(e)) is Some,
        forall|i: int| 0 <= i < conjuncts(e).len() ==> straight(env, n, t, #[trigger] conjuncts(e)[i]),
    ensures
        ({
            let k = best_seek(x, conjuncts(e))->0;
            kept(env, no_scopes(), n, seek_rows(env, t, rows, k.column, k.op, k.value, mixed), e) == kept(
                env,
                no_scopes(),
                n,
                rows,
                e,
            )
        }),
{
    let c = conjuncts(e);
    let own = table_scope(t);
    let i = lemma_best_seek(x, c);
    let k = best_seek(x, c)->0;
    assert(straight(env, n, t, c[i]));
    match index_of(column_names(t.columns), k.column) {
        None => {},
        Some(at) => {
            let test = index_test(k.column, k.op, k.value, t.columns[at].data_type);
            assert forall|row: Seq<ValueView>| #[trigger] predicate(env, no_scopes(), n, row, e) implies predicate(
                env,
                no_scopes(),
                own,
                row,
                test,
            ) by {
                law_conjuncts(env, no_scopes(), n, row, e);
                assert(predicate(env, no_scopes(), n, row, c[i]));
                let v = eval(env, no_scopes(), n, row, k.value);
                let w = eval(env, no_scopes(), own, row, ExprView::Column(k.column));
                assert(eval(env, no_scopes(), own, row, probe(k.value, t.columns[at].data_type)) == v);
                law_compare_flips(env.m, v, w);
                assert(eval(env, no_scopes(), own, row, test) == compared(env.m, reach(k.op), w, v));
                assert(truthy(compared(env.m, k.op, w, v)));
            }
            lemma_handed_out(env, n, own, rows, e, test);
        },
    }
}

} // verus!
