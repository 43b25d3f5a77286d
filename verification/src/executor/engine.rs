use vstd::prelude::*;
use vstd::string::*;
use crate::error::{ErrorView, QueryError, run_error, table_missing};
use crate::parser::parser::parse_fault;
use crate::parser::ast::{AlterTableAction, AlterTableActionView, AlterTableStmt, AlterTableStmtView, InsertSource, InsertSourceView, IsolationLevel, SelectColumn, SelectColumnView, SelectStmt, SelectStmtView, Statement, StatementView, select_columns_view};
use crate::planner::logical_plan::{build_logical_plan, logical_of};
use crate::planner::optimizer::{TableRows, counts_view, optimize_with_catalog, optimized};
use crate::planner::physical_plan::tree_text;
use crate::planner::plan::{LogicalPlanView, PhysicalPlan, PhysicalPlanView};
use crate::text::{join2, join3, nat_text, nat_to_text, text_is};
use crate::value::{Order, Value, ValueView, dup_values, names_push, names_view, rows_view, values_view};
use super::cache::{STMT_CACHE_SIZE, SlowLog, SlowQueryEntry, SlowQueryView, StmtCache, parsed, slow_put, slow_view};
use super::charges::{check_at, check_running, law_unlimited_is_never_refused, pay_all, spend_all};
use super::constraints::{Clerk, Run, Runner, ints, list_column_names, pick_values, run_env, table_scope};
use super::context::{ContextView, QueryContext, ResourceLimits, no_limits, no_usage};
use super::ddl::{Shaped, alter_table_work, create_index_work, create_table_work, drop_index_work, drop_table_work, exec_alter_table, exec_create_index, exec_create_table, exec_drop_index, exec_drop_table, table_with_index};
use super::delete::{build_returning_result, delete_work, exec_delete, returned};
use super::dml::{Work, exec_insert, exec_update, find_key_places, insert_work, key_places, no_scopes, outside, update_work, walked};
use super::eval::Reader;
use super::footprint::{delete_footprint, insert_footprint, mark_delete, mark_insert, mark_update, update_footprint};
use super::grouping::picked;
use super::history::{Eye, Past, PastView, add_pasts, changes_of, drop_past, made_by, mark_commit, pasts_view, seen, show_store, with_commit, without_past};
use super::marks::{Mark, MarkView, join_marks, marks_view, no_marks};
use super::relation::{Relation, RelationView, except_of, intersect_of, match_rows, union_of, union_rows};
use super::rows::Rows;
use super::scalar::{codes, seq_order};
use super::scope::{Known, Names, NamesView, bare, bare_names, find_index, index_of};
use super::select::{run_query, select_rel};
use super::show::{add_name, catalog_of, create_text, describe_table, described, index_snapshot, in_order, law_names_stay_in_order, list_table_names, list_texts, listing, show_create, with_name};
use super::spending::{Bill, Owed, Setting, Spot, bill_both, bill_query, no_bill, nothing_owed, owed_both, query_owes};
use super::stats::{TableStats, TableStatsView, drop_stats, dup_stats, law_stats_stay_in_order, lemma_without_stats, put_stats, show_stats, shown_stats, stats_in_order, stats_view, with_stats, without_stats};
use super::store::{Store, StoreView, column_names, sources_of, store_ok, store_put, store_undo_all, table_index, table_names, with_rows};
use super::table::{Change, ChangeView, changes_push, changes_view};
use super::unit::{Ask, Reply, Unit, ask_clock, ask_commit, ask_estimate, ask_factor, ask_stats, commit_refused, estimated, factor_text, found_out, opt_string, took};

verus! {

/// What a statement comes to.
#[derive(Debug)]
pub enum ExecutionResult {
    Rows { columns: Vec<String>, rows: Vec<Vec<Value>> },
    Modified { count: u64 },
    Done(String),
}

/// What contracts say about an `ExecutionResult`.
pub enum ResultView {
    Rows(RelationView),
    Modified(nat),
    Done(Seq<char>),
}

impl ExecutionResult {
    pub open spec fn view(&self) -> ResultView {
        match self {
            ExecutionResult::Rows { columns, rows } => ResultView::Rows(
                RelationView { columns: names_view(columns@), rows: rows_view(rows@) },
            ),
            ExecutionResult::Modified { count } => ResultView::Modified(*count as nat),
            ExecutionResult::Done(s) => ResultView::Done(s@),
        }
    }
}

/// A transaction that is under way: the last commit before it began, what takes its changes back,
/// and the changes of its statements that succeeded.
#[derive(Debug)]
pub struct Txn {
    pub id: u64,
    pub level: IsolationLevel,
    pub snap: u64,
    pub undo: Vec<Change>,
    pub deltas: Vec<Change>,
}

/// What contracts say about a `Txn`.
pub struct TxnView {
    pub id: u64,
    pub level: IsolationLevel,
    pub snap: u64,
    pub undo: Seq<ChangeView>,
    pub deltas: Seq<ChangeView>,
}

impl Txn {
    pub open spec fn view(&self) -> TxnView {
        TxnView {
            id: self.id,
            level: self.level,
            snap: self.snap,
            undo: changes_view(self.undo@),
            deltas: changes_view(self.deltas@),
        }
    }
}

pub open spec fn txns_view(s: Seq<Txn>) -> Seq<TxnView> {
    Seq::new(s.len(), |i: int| s[i]@)
}

/// A database that is not in use.
#[derive(Debug)]
pub struct Shelf {
    pub name: String,
    pub store: Store,
}

pub open spec fn shelves_view(s: Seq<Shelf>) -> Seq<(Seq<char>, StoreView)> {
    Seq::new(s.len(), |i: int| (s[i].name@, s[i].store@))
}

/// Databases, one of which is in use, with the transactions under way.
#[derive(Debug)]
pub struct QueryEngine {
    pub store: Store,
    pub current_db: String,
    pub databases: Vec<String>,
    pub shelved: Vec<Shelf>,
    pub txns: Vec<Txn>,
    pub next_txn: u64,
    pub history: Vec<Past>,
    pub commits: u64,
    pub counts: Vec<TableRows>,
    pub stats: Vec<TableStats>,
    pub logged: bool,
    pub durable: Vec<Change>,
    pub max_scan_rows: Option<u64>,
    pub max_memory_bytes: Option<u64>,
    pub stmt_cache: StmtCache,
    pub slow_log: SlowLog,
}

/// What contracts say about a `QueryEngine`, apart from its limits, its cache and its log of slow
/// queries.
pub struct EngineView {
    pub store: StoreView,
    pub current_db: Seq<char>,
    pub databases: Seq<Seq<char>>,
    pub shelved: Seq<(Seq<char>, StoreView)>,
    pub txns: Seq<TxnView>,
    pub next_txn: u64,
    pub history: Seq<PastView>,
    pub commits: u64,
    pub counts: Seq<(Seq<char>, u64)>,
    pub stats: Seq<TableStatsView>,
    pub logged: bool,
    pub durable: Seq<ChangeView>,
}

impl QueryEngine {
    pub open spec fn view(&self) -> EngineView {
        EngineView {
            store: self.store@,
            current_db: self.current_db@,
            databases: names_view(self.databases@),
            shelved: shelves_view(self.shelved@),
            txns: txns_view(self.txns@),
            next_txn: self.next_txn,
            history: pasts_view(self.history@),
            commits: self.commits,
            counts: counts_view(self.counts@),
            stats: stats_view(self.stats@),
            logged: self.logged,
            durable: changes_view(self.durable@),
        }
    }

    /// What holds also while a statement changes rows.
    pub open spec fn sound(&self) -> bool {
        &&& self.store.wf()
        &&& forall|i: int| 0 <= i < self.shelved@.len() ==> (#[trigger] self.shelved@[i]).store.wf() && self.shelved@[i].store@.log.len() == 0
        &&& in_order(names_view(self.databases@))
        &&& stats_in_order(self@.stats)
        &&& txns_ok(self@)
        &&& self.stmt_cache@.len() <= STMT_CACHE_SIZE
    }

    pub open spec fn wf(&self) -> bool {
        self.sound() && self.store@.log.len() == 0
    }
}

/// Whether the transactions under way have numbers below the next one and began before what was
/// committed after them.
pub open spec fn txns_ok(e: EngineView) -> bool {
    forall|i: int| 0 <= i < e.txns.len() ==> (#[trigger] e.txns[i]).id < e.next_txn && e.txns[i].snap <= e.commits
}

/// What is true of every engine between two statements.
pub open spec fn engine_ok(e: EngineView) -> bool {
    store_ok(e.store) && e.store.log.len() == 0 && txns_ok(e)
}

/// What a statement came to: the engine after it, and the result.
pub struct Ran {
    pub e: EngineView,
    pub r: Result<ResultView, ErrorView>,
}

pub open spec fn said(e: EngineView, text: Seq<char>) -> Ran {
    Ran { e, r: Ok(ResultView::Done(text)) }
}

pub open spec fn gave(e: EngineView, rel: RelationView) -> Ran {
    Ran { e, r: Ok(ResultView::Rows(rel)) }
}

pub open spec fn failed(e: EngineView, text: Seq<char>) -> Ran {
    Ran { e, r: Err(run_error(text)) }
}

pub open spec fn no_txn_message() -> Seq<char> {
    "No active transaction"@
}

// ---- transactions

/// The place of a transaction that is under way.
pub open spec fn txn_at(t: Seq<TxnView>, id: u64) -> Option<int>
    decreases t.len(),
{
    if t.len() == 0 {
        None
    } else {
        match txn_at(t.drop_last(), id) {
            Some(i) => Some(i),
            None => if t.last().id == id {
                Some(t.len() - 1)
            } else {
                None
            },
        }
    }
}

/// Whether a statement may run: outside a transaction, or in one that is under way.
pub open spec fn may_run(e: EngineView, txn: Option<u64>) -> bool {
    match txn {
        None => true,
        Some(id) => txn_at(e.txns, id) is Some,
    }
}

/// BEGIN.
pub open spec fn begun(e: EngineView, level: IsolationLevel) -> Ran {
    if e.next_txn == u64::MAX {
        failed(e, "No transaction numbers are left"@)
    } else {
        said(
            EngineView {
                txns: e.txns.push(
                    TxnView { id: e.next_txn, level, snap: e.commits, undo: Seq::empty(), deltas: Seq::empty() },
                ),
                next_txn: (e.next_txn + 1) as u64,
                ..e
            },
            "Transaction "@ + nat_text(e.next_txn as nat) + " started"@,
        )
    }
}

/// The number of the commit after one.
pub open spec fn after_commit(c: u64) -> u64 {
    if c == u64::MAX {
        c
    } else {
        (c + 1) as u64
    }
}

/// A limit that is written as a number, where zero sets none.
pub open spec fn limit_from(n: u64) -> Option<u64> {
    if n == 0 {
        None
    } else {
        Some(n)
    }
}

fn make_limit(n: u64) -> (r: Option<u64>)
    ensures
        r == limit_from(n),
{
    if n == 0 {
        None
    } else {
        Some(n)
    }
}

fn count_commit(c: u64) -> (r: u64)
    ensures
        r == after_commit(c),
{
    if c == u64::MAX {
        c
    } else {
        c + 1
    }
}

/// The history, as long as there are transactions to read it.
pub open spec fn needed(h: Seq<PastView>, t: Seq<TxnView>) -> Seq<PastView> {
    if t.len() == 0 {
        Seq::empty()
    } else {
        h
    }
}

pub open spec fn eye_of(t: TxnView) -> Eye {
    Eye { id: t.id, level: t.level, snap: t.snap }
}

/// What a statement reads: in a transaction, what the transaction sees.
pub open spec fn read_store(e: EngineView, txn: Option<u64>) -> StoreView {
    match txn {
        None => e.store,
        Some(id) => match txn_at(e.txns, id) {
            None => e.store,
            Some(i) => seen(e.store, e.history, eye_of(e.txns[i])),
        },
    }
}

/// COMMIT: what the transaction did stays, and its changes become lasting.
pub open spec fn committed(e: EngineView, txn: Option<u64>) -> Ran {
    match txn {
        None => failed(e, no_txn_message()),
        Some(id) => match txn_at(e.txns, id) {
            None => failed(e, no_txn_message()),
            Some(i) => said(
                EngineView {
                    txns: e.txns.remove(i),
                    history: needed(with_commit(e.history, id, after_commit(e.commits)), e.txns.remove(i)),
                    commits: after_commit(e.commits),
                    durable: e.durable + e.txns[i].deltas,
                    ..e
                },
                "COMMIT"@,
            ),
        },
    }
}

/// The engine with what a transaction did taken back.
pub open spec fn without_txn(e: EngineView, i: int) -> EngineView {
    EngineView {
        store: store_undo_all(e.store, e.txns[i].undo),
        txns: e.txns.remove(i),
        history: needed(without_past(e.history, e.txns[i].id), e.txns.remove(i)),
        ..e
    }
}

/// ROLLBACK.
pub open spec fn rolled_back(e: EngineView, txn: Option<u64>) -> Ran {
    match txn {
        None => failed(e, no_txn_message()),
        Some(id) => match txn_at(e.txns, id) {
            None => failed(e, no_txn_message()),
            Some(i) => said(without_txn(e, i), "ROLLBACK"@),
        },
    }
}

/// What the end of a transaction comes to once it is decided whether it may commit. One that may not
/// is taken back, and the answer is an error that says why.
pub open spec fn decided(e: EngineView, id: u64, refused: Option<Seq<char>>) -> Ran {
    match refused {
        None => committed(e, Some(id)),
        Some(why) => Ran { e: rolled_back(e, Some(id)).e, r: Err(run_error(why)) },
    }
}

/// COMMIT: what rules over transactions decides whether one that is under way may commit.
pub open spec fn ended(run: Run, e: EngineView, txn: Option<u64>) -> Ran {
    match txn {
        None => committed(e, txn),
        Some(id) => if txn_at(e.txns, id) is Some {
            decided(e, id, commit_refused(run.m, id))
        } else {
            committed(e, txn)
        },
    }
}

/// The engine after a statement that changed rows, with what it did noted. The changes of a
/// statement that failed are kept for taking back only. What is changed outside transactions is there
/// for all to see; what a transaction changes is part of the history.
pub open spec fn noted(e: EngineView, s: StoreView, ok: bool, txn: Option<u64>) -> EngineView {
    let lasting = if ok && e.logged {
        s.log
    } else {
        Seq::empty()
    };
    let store = StoreView { log: Seq::empty(), ..s };
    match txn {
        None => EngineView { store, durable: e.durable + lasting, ..e },
        Some(id) => match txn_at(e.txns, id) {
            None => EngineView { store, ..e },
            Some(i) => EngineView {
                store,
                history: e.history + made_by(s.log, Some(id), None),
                txns: e.txns.update(
                    i,
                    TxnView { undo: e.txns[i].undo + s.log, deltas: e.txns[i].deltas + lasting, ..e.txns[i] },
                ),
                ..e
            },
        },
    }
}

/// The names that a statement on a table reads by.
pub open spec fn names_in(s: StoreView, t: Seq<char>) -> NamesView {
    match table_index(s, t) {
        Some(i) => table_scope(s.tables[i]),
        None => bare(Seq::empty()),
    }
}

/// The result of INSERT, UPDATE and DELETE.
pub open spec fn written(run: Run, e: EngineView, w: Work, t: Seq<char>, returning: Option<Seq<SelectColumnView>>, txn: Option<u64>) -> Ran {
    let after = noted(e, w.s, w.err is None, txn);
    Ran {
        e: after,
        r: match w.err {
            Some(x) => Err(x),
            None => match returning {
                Some(cols) => Ok(
                    ResultView::Rows(returned(run_env(run, after.store), names_in(after.store, t), w.rows, cols)),
                ),
                None => Ok(ResultView::Modified(w.rows.len())),
            },
        },
    }
}

// ---- shapes and databases

/// The result of a statement that shapes tables.
pub open spec fn shaped(e: EngineView, w: Shaped, text: Seq<char>) -> Ran {
    Ran {
        e: EngineView { store: w.s, ..e },
        r: match w.err {
            Some(x) => Err(x),
            None => Ok(ResultView::Done(text)),
        },
    }
}

pub open spec fn altered_text(q: AlterTableStmtView) -> Seq<char> {
    match q.action {
        AlterTableActionView::AddColumn(c) => "Column '"@ + c.name + "' added"@,
        AlterTableActionView::DropColumn(n) => "Column '"@ + n + "' dropped"@,
        AlterTableActionView::RenameColumn { old_name, new_name } => "Column '"@ + old_name + "' renamed to '"@ + new_name + "'"@,
    }
}

pub open spec fn no_store() -> StoreView {
    StoreView { tables: Seq::empty(), rows: Seq::empty(), log: Seq::empty() }
}

pub open spec fn shelf_names(s: Seq<(Seq<char>, StoreView)>) -> Seq<Seq<char>> {
    Seq::new(s.len(), |i: int| s[i].0)
}

pub open spec fn database_missing(name: Seq<char>) -> Seq<char> {
    "Database '"@ + name + "' not found"@
}

/// CREATE DATABASE.
pub open spec fn database_made(e: EngineView, name: Seq<char>, if_not_exists: bool) -> Ran {
    if index_of(e.databases, name) is Some {
        if if_not_exists {
            said(e, "Database "@ + name + " already exists"@)
        } else {
            failed(e, "Database '"@ + name + "' already exists"@)
        }
    } else {
        said(EngineView { databases: with_name(e.databases, name), ..e }, "Database "@ + name + " created"@)
    }
}

/// DROP DATABASE: not the one in use.
pub open spec fn database_dropped(e: EngineView, name: Seq<char>, if_exists: bool) -> Ran {
    if name == e.current_db {
        failed(e, "Cannot drop the current database; USE another first"@)
    } else {
        match index_of(e.databases, name) {
            None => if if_exists {
                said(e, "OK"@)
            } else {
                failed(e, database_missing(name))
            },
            Some(i) => said(
                EngineView {
                    databases: e.databases.remove(i),
                    shelved: match index_of(shelf_names(e.shelved), name) {
                        Some(j) => e.shelved.remove(j),
                        None => e.shelved,
                    },
                    ..e
                },
                "Database "@ + name + " dropped"@,
            ),
        }
    }
}

/// The engine with another database in use.
pub open spec fn switched(e: EngineView, name: Seq<char>) -> EngineView {
    if name == e.current_db {
        e
    } else {
        let shelved = e.shelved.push((e.current_db, e.store));
        match index_of(shelf_names(e.shelved), name) {
            Some(i) => EngineView { store: e.shelved[i].1, shelved: shelved.remove(i), current_db: name, ..e },
            None => EngineView { store: no_store(), shelved, current_db: name, ..e },
        }
    }
}

/// USE.
pub open spec fn database_used(e: EngineView, name: Seq<char>) -> Ran {
    if index_of(e.databases, name) is Some {
        said(switched(e, name), "Now using database "@ + name)
    } else {
        failed(e, database_missing(name))
    }
}

// ---- ANALYZE and EXPLAIN

/// The known counts, with that of one table brought up to date.
pub open spec fn with_count(c: Seq<(Seq<char>, u64)>, t: Seq<char>, n: u64) -> Seq<(Seq<char>, u64)> {
    match index_of(count_names(c), t) {
        Some(i) => c.update(i, (t, n)),
        None => c.push((t, n)),
    }
}

pub open spec fn count_names(c: Seq<(Seq<char>, u64)>) -> Seq<Seq<char>> {
    Seq::new(c.len(), |i: int| c[i].0)
}

/// The engine with what was found out about a table.
pub open spec fn with_found(e: EngineView, s: TableStatsView) -> EngineView {
    EngineView { counts: with_count(e.counts, s.table, s.row_count), stats: with_stats(e.stats, s), ..e }
}

/// What is found out about table `i`.
pub open spec fn found_of(m: Unit, s: StoreView, i: int) -> TableStatsView {
    found_out(m, s.tables[i].name, column_names(s.tables[i].columns), s.rows[i])
}

/// The engine with what was found out about the first `n` tables.
pub open spec fn with_all_found(m: Unit, e: EngineView, n: nat) -> EngineView
    decreases n,
{
    if n == 0 {
        e
    } else {
        with_found(with_all_found(m, e, (n - 1) as nat), found_of(m, e.store, n - 1))
    }
}

/// ANALYZE: what is found out about the tables is kept.
pub open spec fn analyzed(m: Unit, e: EngineView, t: Option<Seq<char>>) -> Ran {
    match t {
        Some(name) => match table_index(e.store, name) {
            None => failed(e, table_missing(name)),
            Some(i) => said(with_found(e, found_of(m, e.store, i)), "ANALYZE 1"@),
        },
        None => said(with_all_found(m, e, e.store.tables.len()), "ANALYZE "@ + nat_text(e.store.tables.len())),
    }
}

/// How many rows a result speaks of.
pub open spec fn result_size(r: ResultView) -> nat {
    match r {
        ResultView::Rows(rel) => rel.rows.len(),
        ResultView::Modified(n) => n,
        ResultView::Done(_) => 0,
    }
}

/// How a statement is carried out by what is known of the tables.
pub open spec fn plan_of(e: EngineView, p: LogicalPlanView) -> PhysicalPlanView {
    optimized(p, e.counts, catalog_of(e.store.tables))
}

/// The line of EXPLAIN with what is estimated.
pub open spec fn estimate_line(rows: u64, cost: Seq<char>) -> Seq<char> {
    "Plan  (estimated_rows="@ + nat_text(rows as nat) + "  estimated_cost="@ + cost + ")"@
}

/// Three digits of a number.
pub open spec fn three_digits(n: nat) -> Seq<char> {
    if n < 10 {
        "00"@ + nat_text(n)
    } else if n < 100 {
        "0"@ + nat_text(n)
    } else {
        nat_text(n)
    }
}

/// Microseconds as milliseconds with three digits behind the point.
pub open spec fn millis_text(us: u64) -> Seq<char> {
    nat_text((us / 1000) as nat) + "."@ + three_digits((us % 1000) as nat)
}

/// The line of EXPLAIN ANALYZE with what was measured.
pub open spec fn actual_line(m: Unit, n: u64, estimate: u64) -> Seq<char> {
    "Actual  rows="@ + nat_text(n as nat) + "  time="@ + millis_text(took(m)) + " ms  est/actual_factor="@ + factor_text(m, n, estimate)
}

/// The lines of EXPLAIN: what is estimated, what was measured where the statement ran, and the plan.
pub open spec fn explained(m: Unit, e: EngineView, p: LogicalPlanView, ran: Option<ResultView>) -> Seq<Seq<char>> {
    let plan = plan_of(e, p);
    let (rows, cost) = estimated(m, plan, e.stats);
    let first = seq![estimate_line(rows, cost)];
    match ran {
        None => first + tree_text(plan, 0),
        Some(v) => first + seq![actual_line(m, result_size(v) as u64, rows)] + tree_text(plan, 0),
    }
}

// ---- statements

pub enum SetOp {
    Union,
    Intersect,
    Except,
}

pub open spec fn set_result(op: SetOp, all: bool, a: Seq<Seq<ValueView>>, b: Seq<Seq<ValueView>>) -> Seq<Seq<ValueView>> {
    match op {
        SetOp::Union => union_of(a, b, all),
        SetOp::Intersect => intersect_of(a, b, all),
        SetOp::Except => except_of(a, b, all),
    }
}

/// What a statement runs with in an engine, which knows how many rows tables have.
pub open spec fn informed(run: Run, e: EngineView) -> Run {
    Run { known: Known { counts: e.counts, ..run.known }, ..run }
}

/// Whether a query may run: also in a transaction that is not under way, as long as it does not come
/// to ask what the transaction sees.
pub open spec fn may_read(run: Run, e: EngineView, q: SelectStmtView, txn: Option<u64>) -> bool {
    may_run(e, txn) || !query_owes(informed(run, e), setting(e, e.store, txn), sources_of(e.store), Seq::empty(), q).snap
}

/// What is said of a statement that another engine runs, or that needs a disk.
pub open spec fn foreign_message(s: StatementView) -> Seq<char> {
    match s {
        StatementView::KvGet(_) | StatementView::KvSet(_, _) | StatementView::KvDelete(_) | StatementView::KvScan(_, _) => {
            "Use KV engine for KV operations"@
        },
        StatementView::DocInsert(_) | StatementView::DocFind(_) | StatementView::DocUpdate(_) | StatementView::DocDelete(_) => {
            "Use Document engine for DOC operations"@
        },
        StatementView::Backup { .. } => "BACKUP requires a disk-backed engine"@,
        StatementView::Restore { .. } => "RESTORE requires a disk-backed engine"@,
        StatementView::Migrate => "MIGRATE requires a disk-backed engine"@,
        _ => Seq::empty(),
    }
}

/// What a statement comes to that holds no other.
pub open spec fn ran_simple(run: Run, e: EngineView, s: StatementView, txn: Option<u64>) -> Ran {
    match s {
        StatementView::Begin(level) => begun(e, match level {
            Some(l) => l,
            None => IsolationLevel::ReadCommitted,
        }),
        StatementView::Commit => ended(run, e, txn),
        StatementView::Rollback => rolled_back(e, txn),
        StatementView::ShowTables => gave(e, listing("table_name"@, table_names(e.store.tables))),
        StatementView::Describe(t) | StatementView::ShowColumns(t) => match table_index(e.store, t) {
            Some(i) => gave(e, described(e.store.tables[i])),
            None => failed(e, table_missing(t)),
        },
        StatementView::ShowCreateTable(t) => match table_index(e.store, t) {
            Some(i) => gave(e, listing("Create Table"@, seq![create_text(e.store.tables[i])])),
            None => failed(e, table_missing(t)),
        },
        StatementView::Truncate(t) => match table_index(e.store, t) {
            Some(i) => said(
                EngineView { store: with_rows(e.store, i, Rows { keys: Seq::empty(), rows: Seq::empty() }), ..e },
                "TRUNCATE TABLE"@,
            ),
            None => failed(e, table_missing(t)),
        },
        StatementView::CreateTable(q) => shaped(e, create_table_work(run.m, e.store, q), "Table "@ + q.name + " created"@),
        StatementView::DropTable(q) => shaped(
            if table_index(e.store, q.name) is Some {
                EngineView { counts: without_count(e.counts, q.name), stats: without_stats(e.stats, q.name), ..e }
            } else {
                e
            },
            drop_table_work(e.store, q),
            if table_index(e.store, q.name) is Some {
                "Table "@ + q.name + " dropped"@
            } else {
                "OK"@
            },
        ),
        StatementView::CreateIndex(q) => shaped(
            e,
            create_index_work(e.store, q),
            "Index "@ + q.name + " created on "@ + q.table,
        ),
        StatementView::DropIndex(n) => said(
            EngineView { store: drop_index_work(e.store, n), ..e },
            if table_with_index(e.store.tables, n) is Some {
                "Index "@ + n + " dropped"@
            } else {
                "Index "@ + n + " not found"@
            },
        ),
        StatementView::AlterTable(q) => shaped(e, alter_table_work(e.store, q), altered_text(q)),
        StatementView::CreateDatabase { name, if_not_exists } => database_made(e, name, if_not_exists),
        StatementView::DropDatabase { name, if_exists } => database_dropped(e, name, if_exists),
        StatementView::UseDatabase(name) => database_used(e, name),
        StatementView::ShowDatabases => gave(e, listing("database"@, e.databases)),
        StatementView::Analyze(t) => analyzed(run.m, e, t),
        StatementView::Select(q) => if may_read(run, e, q, txn) {
            Ran {
                e,
                r: match select_rel(run.m, informed(run, e).known, sources_of(read_store(e, txn)), no_scopes(), q, run.depth) {
                    Ok(rel) => Ok(ResultView::Rows(rel)),
                    Err(x) => Err(x),
                },
            }
        } else {
            failed(e, no_txn_message())
        },
        StatementView::Insert(q) => if may_run(e, txn) {
            written(informed(run, e), e, insert_work(informed(run, e), e.store, read_store(e, txn), q), q.table, q.returning, txn)
        } else {
            failed(e, no_txn_message())
        },
        StatementView::Update(q) => if may_run(e, txn) {
            written(informed(run, e), e, update_work(informed(run, e), txn, e.store, read_store(e, txn), q), q.table, q.returning, txn)
        } else {
            failed(e, no_txn_message())
        },
        StatementView::Delete(q) => if may_run(e, txn) {
            written(informed(run, e), e, delete_work(informed(run, e), txn, e.store, read_store(e, txn), q), q.table, q.returning, txn)
        } else {
            failed(e, no_txn_message())
        },
        StatementView::ShowStats(t) => gave(e, shown_stats(e.stats, t)),
        _ => failed(e, foreign_message(s)),
    }
}

/// What a statement comes to. The sides of UNION, INTERSECT and EXCEPT run one after the other;
/// EXPLAIN runs its statement only with ANALYZE.
pub open spec fn ran(run: Run, e: EngineView, s: StatementView, txn: Option<u64>) -> Ran
    decreases s,
{
    match s {
        StatementView::Union(l, r, all) => {
            let a = ran(run, e, *l, txn);
            if a.r is Err {
                a
            } else {
                let b = ran(run, a.e, *r, txn);
                both(a, b, SetOp::Union, all)
            }
        },
        StatementView::Intersect(l, r, all) => {
            let a = ran(run, e, *l, txn);
            if a.r is Err {
                a
            } else {
                let b = ran(run, a.e, *r, txn);
                both(a, b, SetOp::Intersect, all)
            }
        },
        StatementView::Except(l, r, all) => {
            let a = ran(run, e, *l, txn);
            if a.r is Err {
                a
            } else {
                let b = ran(run, a.e, *r, txn);
                both(a, b, SetOp::Except, all)
            }
        },
        StatementView::Explain(inner, analyze) => match logical_of(*inner) {
            Err(x) => Ran { e, r: Err(x) },
            Ok(p) => if analyze {
                let a = ran(run, e, *inner, txn);
                match a.r {
                    Err(_) => a,
                    Ok(v) => gave(a.e, listing("QUERY PLAN"@, explained(run.m, e, p, Some(v)))),
                }
            } else {
                gave(e, listing("QUERY PLAN"@, explained(run.m, e, p, None)))
            },
        },
        _ => ran_simple(run, e, s, txn),
    }
}

pub open spec fn set_rows(a: ResultView, b: ResultView, op: SetOp, all: bool) -> Result<ResultView, ErrorView> {
    match (a, b) {
        (ResultView::Rows(x), ResultView::Rows(y)) => Ok(
            ResultView::Rows(RelationView { columns: x.columns, rows: set_result(op, all, x.rows, y.rows) }),
        ),
        _ => Err(run_error(set_message(op))),
    }
}

pub open spec fn set_message(op: SetOp) -> Seq<char> {
    match op {
        SetOp::Union => "UNION requires two SELECT statements"@,
        SetOp::Intersect => "INTERSECT requires two SELECT statements"@,
        SetOp::Except => "EXCEPT requires two SELECT statements"@,
    }
}

/// The result of a set operation once both sides ran.
pub open spec fn both(a: Ran, b: Ran, op: SetOp, all: bool) -> Ran {
    match (a.r, b.r) {
        (Ok(x), Ok(y)) => Ran { e: b.e, r: set_rows(x, y, op, all) },
        _ => b,
    }
}

/// What the queries of a statement are charged: a SELECT on its own, one that rows are inserted from,
/// the sides of a set operation, and a statement that is explained as it runs.
pub open spec fn statement_owes(run: Run, e: EngineView, s: StatementView, txn: Option<u64>) -> Owed
    decreases s,
{
    match s {
        StatementView::Select(q) => if may_read(run, e, q, txn) {
            query_owes(informed(run, e), setting(e, read_store(e, txn), txn), sources_of(read_store(e, txn)), Seq::empty(), q)
        } else {
            nothing_owed()
        },
        StatementView::Insert(i) => match i.source {
            InsertSourceView::Select(q) => if may_run(e, txn) {
                query_owes(informed(run, e), setting(e, read_store(e, txn), txn), sources_of(read_store(e, txn)), Seq::empty(), q)
            } else {
                nothing_owed()
            },
            _ => nothing_owed(),
        },
        StatementView::Union(l, r, _) | StatementView::Intersect(l, r, _) | StatementView::Except(l, r, _) => owed_both(
            statement_owes(run, e, *l, txn),
            statement_owes(run, e, *r, txn),
        ),
        StatementView::Explain(inner, analyze) => if analyze {
            statement_owes(run, e, *inner, txn)
        } else {
            nothing_owed()
        },
        _ => nothing_owed(),
    }
}

/// What a statement in a transaction reads, goes through by a condition and writes, on which it is
/// decided whether the transaction may commit. Queries inside expressions leave no marks.
pub open spec fn footprint_of(run: Run, e: EngineView, s: StatementView, txn: Option<u64>) -> Seq<MarkView>
    decreases s,
{
    let v = read_store(e, txn);
    if txn is None || !may_run(e, txn) {
        Seq::empty()
    } else {
        match s {
            StatementView::Select(_) | StatementView::Union(_, _, _) | StatementView::Intersect(_, _, _)
            | StatementView::Except(_, _, _) => statement_owes(run, e, s, txn).marks,
            StatementView::Insert(q) => statement_owes(run, e, s, txn).marks + insert_footprint(informed(run, e), e.store, v, q),
            StatementView::Update(q) => update_footprint(informed(run, e), txn, e.store, v, q),
            StatementView::Delete(q) => delete_footprint(informed(run, e), txn, e.store, v, q),
            StatementView::Explain(inner, analyze) => if analyze && logical_of(*inner) is Ok {
                footprint_of(run, e, *inner, txn)
            } else {
                Seq::empty()
            },
            _ => Seq::empty(),
        }
    }
}

/// What the queries of a statement that reads `s` are read in.
pub open spec fn setting(e: EngineView, s: StoreView, txn: Option<u64>) -> Setting {
    Setting {
        s,
        counts: e.counts,
        catalog: catalog_of(e.store.tables),
        in_txn: txn is Some,
        mixed: txn is Some && e.history.len() > 0,
    }
}

/// A context that limits the rows that are read and the memory that is taken, and nothing else.
pub open spec fn own_limits(rows: Option<u64>, bytes: Option<u64>) -> ContextView {
    ContextView {
        cancelled: false,
        deadline: None,
        timeout: None,
        limits: ResourceLimits { max_scan_rows: rows, max_memory_bytes: bytes, ..no_limits() },
        usage: no_usage(),
    }
}

/// What a statement comes to where it may read only so many rows and take only so much memory.
pub open spec fn ran_within(run: Run, e: EngineView, rows: Option<u64>, bytes: Option<u64>, s: StatementView, txn: Option<u64>) -> Ran {
    match spend_all(own_limits(rows, bytes), statement_owes(run, e, s, txn).charges, None, 0).err {
        Some(x) => Ran { e, r: Err(x) },
        None => ran(run, e, s, txn),
    }
}

/// A context that was charged for a statement, up to the first charge that it refuses. `now` is the
/// time at the start; at each check the clock is looked at again.
pub open spec fn charged(run: Run, e: EngineView, c: ContextView, s: StatementView, txn: Option<u64>, now: u64) -> ContextView {
    spend_all(c, statement_owes(run, e, s, txn).charges, Some(run.m), now).c
}

/// What a statement comes to under a context.
pub open spec fn ran_under(run: Run, e: EngineView, c: ContextView, s: StatementView, txn: Option<u64>, now: u64) -> Ran {
    let owed = statement_owes(run, e, s, txn).charges;
    let w = match spend_all(c, owed, Some(run.m), now).err {
        Some(x) => Ran { e, r: Err(x) },
        None => ran(run, e, s, txn),
    };
    let after = charged(run, e, c, s, txn, now);
    match check_at(after, Some(run.m), now, owed.len() as u64, after.usage.scan_rows) {
        Some(x) => Ran { e: w.e, r: Err(x) },
        None => w,
    }
}

/// Puts rows into table `i` as they are.
pub open spec fn bulk_put(s: StoreView, i: int, rows: Seq<Seq<ValueView>>) -> StoreView
    decreases rows.len(),
{
    if rows.len() == 0 {
        s
    } else {
        let b = bulk_put(s, i, rows.drop_last());
        store_put(b, i, picked(rows.last(), key_places(s.tables[i].columns)), rows.last())
    }
}

// ---- running statements

pub open spec fn result_view(r: crate::error::Result<ExecutionResult>) -> Result<ResultView, ErrorView> {
    match r {
        Ok(x) => Ok(x@),
        Err(e) => Err(e@),
    }
}

/// Whether an engine and a result are what a statement comes to.
pub open spec fn came_to(w: Ran, e: QueryEngine, r: crate::error::Result<ExecutionResult>) -> bool {
    e.wf() && w == (Ran { e: e@, r: result_view(r) })
}

/// Whether a statement left the limits, the cache and the log of slow queries alone.
pub open spec fn kept(a: QueryEngine, b: QueryEngine) -> bool {
    a.max_scan_rows == b.max_scan_rows && a.max_memory_bytes == b.max_memory_bytes && a.stmt_cache == b.stmt_cache && a.slow_log == b.slow_log
}

fn give(rel: Relation) -> (r: crate::error::Result<ExecutionResult>)
    ensures
        result_view(r) == Ok::<ResultView, ErrorView>(ResultView::Rows(rel@)),
{
    Ok(ExecutionResult::Rows { columns: rel.columns, rows: rel.rows })
}

fn say(s: String) -> (r: crate::error::Result<ExecutionResult>)
    ensures
        result_view(r) == Ok::<ResultView, ErrorView>(ResultView::Done(s@)),
{
    Ok(ExecutionResult::Done(s))
}

fn fail(s: &str) -> (r: crate::error::Result<ExecutionResult>)
    ensures
        result_view(r) == Err::<ResultView, ErrorView>(run_error(s@)),
{
    Err(QueryError::Execution(s.to_string()))
}

fn no_txn() -> (r: crate::error::Result<ExecutionResult>)
    ensures
        result_view(r) == Err::<ResultView, ErrorView>(run_error(no_txn_message())),
{
    Err(QueryError::Execution("No active transaction".to_string()))
}

fn no_database(name: &str) -> (r: crate::error::Result<ExecutionResult>)
    ensures
        result_view(r) == Err::<ResultView, ErrorView>(run_error(database_missing(name@))),
{
    Err(QueryError::Execution(join3("Database '", name, "' not found")))
}

fn find_txn(t: &Vec<Txn>, id: u64) -> (r: Option<usize>)
    ensures
        (match r { Some(i) => Some(i as int), None => None }) == txn_at(txns_view(t@), id),
        r matches Some(i) ==> i < t@.len(),
{
    let ghost all = txns_view(t@);
    let mut r: Option<usize> = None;
    let mut i: usize = 0;
    assert(all.take(0).len() == 0);
    while i < t.len()
        invariant
            i <= t.len(),
            all == txns_view(t@),
            (match r { Some(i) => Some(i as int), None => None }) == txn_at(all.take(i as int), id),
            r matches Some(j) ==> j < t@.len(),
        decreases t.len() - i,
    {
        proof {
            assert(all.take(i + 1).drop_last() =~= all.take(i as int));
            assert(all.take(i + 1).last() == t@[i as int]@);
        }
        if r.is_none() && t[i].id == id {
            r = Some(i);
        }
        i = i + 1;
    }
    assert(all.take(t.len() as int) =~= all);
    r
}

fn list_shelf_names(s: &Vec<Shelf>) -> (r: Vec<String>)
    ensures
        names_view(r@) == shelf_names(shelves_view(s@)),
{
    let ghost all = shelf_names(shelves_view(s@));
    let mut r: Vec<String> = Vec::new();
    let mut i: usize = 0;
    assert(names_view(r@) =~= all.take(0));
    while i < s.len()
        invariant
            i <= s.len(),
            all == shelf_names(shelves_view(s@)),
            names_view(r@) == all.take(i as int),
        decreases s.len() - i,
    {
        proof {
            names_push(r@, s@[i as int].name);
            assert(all.take(i + 1) =~= all.take(i as int).push(s@[i as int].name@));
        }
        r.push(s[i].name.clone());
        i = i + 1;
    }
    assert(all.take(s.len() as int) =~= all);
    r
}

fn list_count_names(c: &Vec<TableRows>) -> (r: Vec<String>)
    ensures
        names_view(r@) == count_names(counts_view(c@)),
{
    let ghost all = count_names(counts_view(c@));
    let mut r: Vec<String> = Vec::new();
    let mut i: usize = 0;
    assert(names_view(r@) =~= all.take(0));
    while i < c.len()
        invariant
            i <= c.len(),
            all == count_names(counts_view(c@)),
            names_view(r@) == all.take(i as int),
        decreases c.len() - i,
    {
        proof {
            names_push(r@, c@[i as int].table);
            assert(all.take(i + 1) =~= all.take(i as int).push(c@[i as int].table@));
        }
        r.push(c[i].table.clone());
        i = i + 1;
    }
    assert(all.take(c.len() as int) =~= all);
    r
}

fn put_count(c: &mut Vec<TableRows>, t: &str, n: u64)
    ensures
        counts_view(final(c)@) == with_count(counts_view(old(c)@), t@, n),
{
    let ghost before = counts_view(c@);
    let names = list_count_names(c);
    let entry = TableRows { table: t.to_string(), rows: n };
    match find_index(&names, t) {
        Some(i) => {
            assert(names_view(names@).len() == before.len());
            c.set(i, entry);
            assert(counts_view(c@) =~= before.update(i as int, (t@, n)));
        },
        None => {
            c.push(entry);
            assert(counts_view(c@) =~= before.push((t@, n)));
        },
    }
}

/// The known counts without that of a table.
pub open spec fn without_count(c: Seq<(Seq<char>, u64)>, t: Seq<char>) -> Seq<(Seq<char>, u64)> {
    match index_of(count_names(c), t) {
        Some(i) => c.remove(i),
        None => c,
    }
}

fn drop_count(c: &mut Vec<TableRows>, t: &str)
    ensures
        counts_view(final(c)@) == without_count(counts_view(old(c)@), t@),
{
    let ghost before = counts_view(c@);
    let names = list_count_names(c);
    match find_index(&names, t) {
        Some(i) => {
            assert(names_view(names@).len() == before.len());
            c.remove(i);
            assert(counts_view(c@) =~= before.remove(i as int));
        },
        None => {},
    }
}

fn append_changes(to: &mut Vec<Change>, from: &Vec<Change>)
    ensures
        changes_view(final(to)@) == changes_view(old(to)@) + changes_view(from@),
{
    let ghost start = changes_view(to@);
    let ghost all = changes_view(from@);
    let mut i: usize = 0;
    assert(start + all.take(0) =~= start);
    while i < from.len()
        invariant
            i <= from.len(),
            all == changes_view(from@),
            changes_view(to@) == start + all.take(i as int),
        decreases from.len() - i,
    {
        let c = from[i].dup();
        proof {
            changes_push(to@, c);
            assert(start + all.take(i + 1) =~= (start + all.take(i as int)).push(c@));
        }
        to.push(c);
        i = i + 1;
    }
    assert(all.take(from.len() as int) =~= all);
}

impl QueryEngine {
    /// An engine with one database, which is in use and holds no table.
    pub fn new(name: &str) -> (r: QueryEngine)
        ensures
            r.wf(),
            r.max_scan_rows is None,
            r.max_memory_bytes is None,
            r.slow_log.threshold_ms is None,
            slow_view(r.slow_log.entries@) == Seq::<SlowQueryView>::empty(),
            r.stmt_cache@ == Seq::<(u64, StatementView)>::empty(),
            r@ == (EngineView {
                store: no_store(),
                current_db: name@,
                databases: seq![name@],
                shelved: Seq::empty(),
                txns: Seq::empty(),
                next_txn: 1,
                history: Seq::empty(),
                commits: 0,
                counts: Seq::empty(),
                stats: Seq::empty(),
                logged: false,
                durable: Seq::empty(),
            }),
    {
        let mut databases: Vec<String> = Vec::new();
        databases.push(name.to_string());
        let r = QueryEngine {
            store: Store::new(),
            current_db: name.to_string(),
            databases,
            shelved: Vec::new(),
            txns: Vec::new(),
            next_txn: 1,
            history: Vec::new(),
            commits: 0,
            counts: Vec::new(),
            stats: Vec::new(),
            logged: false,
            durable: Vec::new(),
            max_scan_rows: None,
            max_memory_bytes: None,
            stmt_cache: StmtCache::new(),
            slow_log: SlowLog::new(),
        };
        proof {
            assert(r@.databases =~= seq![name@]);
            assert(r@.shelved =~= Seq::empty());
            assert(r@.txns =~= Seq::empty());
            assert(r@.history =~= Seq::empty());
            assert(r@.counts =~= Seq::empty());
            assert(r@.stats =~= Seq::empty());
            assert(r@.durable =~= Seq::empty());
        }
        r
    }

    fn can_run(&self, txn: Option<u64>) -> (r: bool)
        ensures
            r == may_run(self@, txn),
    {
        match txn {
            None => true,
            Some(id) => find_txn(&self.txns, id).is_some(),
        }
    }

    fn exec_begin(&mut self, level: IsolationLevel) -> (r: crate::error::Result<ExecutionResult>)
        requires
            old(self).wf(),
        ensures
            came_to(begun(old(self)@, level), *final(self), r),
            kept(*old(self), *final(self)),
    {
        if self.next_txn == u64::MAX {
            return fail("No transaction numbers are left");
        }
        let ghost before = self@;
        let id = self.next_txn;
        let t = Txn { id, level, snap: self.commits, undo: Vec::new(), deltas: Vec::new() };
        self.txns.push(t);
        self.next_txn = id + 1;
        proof {
            assert(t@.undo =~= Seq::empty());
            assert(t@.deltas =~= Seq::empty());
            assert(self@.txns =~= before.txns.push(t@));
        }
        let n = nat_to_text(id as u128);
        say(join3("Transaction ", n.as_str(), " started"))
    }

    fn exec_commit(&mut self, txn: Option<u64>) -> (r: crate::error::Result<ExecutionResult>)
        requires
            old(self).wf(),
        ensures
            came_to(committed(old(self)@, txn), *final(self), r),
            kept(*old(self), *final(self)),
    {
        match txn {
            None => no_txn(),
            Some(id) => match find_txn(&self.txns, id) {
                None => no_txn(),
                Some(i) => {
                    let ghost before = self@;
                    assert(before.txns[i as int] == self.txns@[i as int]@);
                    let t = self.txns.remove(i);
                    append_changes(&mut self.durable, &t.deltas);
                    assert(self@.txns =~= before.txns.remove(i as int));
                    self.commits = count_commit(self.commits);
                    let mut h: Vec<Past> = Vec::new();
                    assert(pasts_view(h@) =~= Seq::empty());
                    std::mem::swap(&mut h, &mut self.history);
                    if self.txns.len() > 0 {
                        self.history = mark_commit(h, id, self.commits);
                    }
                    say("COMMIT".to_string())
                },
            },
        }
    }

    /// Runs COMMIT.
    fn end_txn<'a, U: Fn(Ask) -> Reply>(&mut self, rn: &Runner<'a, U>, txn: Option<u64>) -> (r: crate::error::Result<ExecutionResult>)
        requires
            rn.ready(),
            old(self).wf(),
        ensures
            came_to(ended(rn.run(), old(self)@, txn), *final(self), r),
            kept(*old(self), *final(self)),
    {
        match txn {
            None => self.exec_commit(txn),
            Some(id) => match find_txn(&self.txns, id) {
                None => self.exec_commit(txn),
                Some(_) => {
                    let refused = ask_commit(rn.u, id);
                    self.commit_decided(id, refused)
                },
            },
        }
    }

    fn rollback_txn_effects(&mut self, i: usize)
        requires
            old(self).wf(),
            i < old(self).txns@.len(),
        ensures
            final(self).wf(),
            final(self)@ == without_txn(old(self)@, i as int),
            kept(*old(self), *final(self)),
    {
        let ghost before = self@;
        assert(before.txns[i as int] == self.txns@[i as int]@);
        let t = self.txns.remove(i);
        self.store.undo_all(&t.undo);
        assert(self@.txns =~= before.txns.remove(i as int));
        let mut h: Vec<Past> = Vec::new();
        assert(pasts_view(h@) =~= Seq::empty());
        std::mem::swap(&mut h, &mut self.history);
        if self.txns.len() > 0 {
            self.history = drop_past(h, t.id);
        }
    }

    fn exec_rollback(&mut self, txn: Option<u64>) -> (r: crate::error::Result<ExecutionResult>)
        requires
            old(self).wf(),
        ensures
            came_to(rolled_back(old(self)@, txn), *final(self), r),
            kept(*old(self), *final(self)),
    {
        match txn {
            None => no_txn(),
            Some(id) => match find_txn(&self.txns, id) {
                None => no_txn(),
                Some(i) => {
                    self.rollback_txn_effects(i);
                    say("ROLLBACK".to_string())
                },
            },
        }
    }

    fn note(&mut self, ok: bool, txn: Option<u64>)
        requires
            old(self).sound(),
        ensures
            final(self).wf(),
            final(self)@ == noted(old(self)@, old(self)@.store, ok, txn),
            kept(*old(self), *final(self)),
    {
        let ghost before = self@;
        let log = self.store.take_log();
        match txn {
            None => {
                if ok && self.logged {
                    append_changes(&mut self.durable, &log);
                } else {
                    assert(before.durable + Seq::<ChangeView>::empty() =~= before.durable);
                }
            },
            Some(id) => match find_txn(&self.txns, id) {
                None => {},
                Some(i) => {
                    assert(before.txns[i as int] == self.txns@[i as int]@);
                    let mut t = self.txns.remove(i);
                    append_changes(&mut t.undo, &log);
                    if ok && self.logged {
                        append_changes(&mut t.deltas, &log);
                    } else {
                        assert(changes_view(t.deltas@) + Seq::<ChangeView>::empty() =~= changes_view(t.deltas@));
                    }
                    self.txns.insert(i, t);
                    add_pasts(&mut self.history, &log, Some(id), None);
                    assert(self@.txns =~= before.txns.update(i as int, t@));
                },
            },
        }
    }

    fn read_names(&self, t: &str) -> (r: Names)
        ensures
            r@ == names_in(self@.store, t@),
    {
        match self.store.find(t) {
            Some(i) => {
                let c = list_column_names(&self.store.tables[i].columns);
                assert(self@.store.tables[i as int] == self.store.tables@[i as int]@);
                bare_names(&c)
            },
            None => {
                let c: Vec<String> = Vec::new();
                assert(names_view(c@) =~= Seq::empty());
                bare_names(&c)
            },
        }
    }

    fn finish_write<'a, U: Fn(Ask) -> Reply>(
        &mut self,
        rn: &Runner<'a, U>,
        rows: Vec<Vec<Value>>,
        err: Option<QueryError>,
        table: &str,
        returning: &Option<Vec<SelectColumn>>,
        txn: Option<u64>,
        Ghost(e): Ghost<EngineView>,
    ) -> (r: crate::error::Result<ExecutionResult>)
        requires
            rn.ready(),
            old(self).sound(),
            e == (EngineView { store: e.store, ..old(self)@ }),
        ensures
            came_to(
                written(
                    informed(rn.run(), e),
                    e,
                    Work { s: old(self)@.store, rows: rows_view(rows@), err: super::dml::opt_view(err) },
                    table@,
                    match *returning {
                        Some(c) => Some(select_columns_view(c@)),
                        None => None,
                    },
                    txn,
                ),
                *final(self),
                r,
            ),
            kept(*old(self), *final(self)),
    {
        self.note(err.is_none(), txn);
        match err {
            Some(x) => Err(x),
            None => match returning {
                Some(cols) => {
                    let names = self.read_names(table);
                    let cx = Reader { u: rn.u, now: rn.now, counts: &self.counts, db: &self.store.sources, depth: rn.depth };
                    give(build_returning_result(&cx, &names, &rows, cols))
                },
                None => {
                    assert(rows_view(rows@).len() == rows@.len());
                    Ok(ExecutionResult::Modified { count: rows.len() as u64 })
                },
            },
        }
    }

    fn exec_create_database(&mut self, name: &str, if_not_exists: bool) -> (r: crate::error::Result<ExecutionResult>)
        requires
            old(self).wf(),
        ensures
            came_to(database_made(old(self)@, name@, if_not_exists), *final(self), r),
            kept(*old(self), *final(self)),
    {
        if find_index(&self.databases, name).is_some() {
            if if_not_exists {
                return say(join3("Database ", name, " already exists"));
            }
            return Err(QueryError::Execution(join3("Database '", name, "' already exists")));
        }
        proof {
            law_names_stay_in_order(names_view(self.databases@), name@);
        }
        add_name(&mut self.databases, name);
        say(join3("Database ", name, " created"))
    }

    fn exec_drop_database(&mut self, name: &str, if_exists: bool) -> (r: crate::error::Result<ExecutionResult>)
        requires
            old(self).wf(),
        ensures
            came_to(database_dropped(old(self)@, name@, if_exists), *final(self), r),
            kept(*old(self), *final(self)),
    {
        if text_is(self.current_db.as_str(), name) {
            return fail("Cannot drop the current database; USE another first");
        }
        let ghost before = self@;
        match find_index(&self.databases, name) {
            None => {
                if if_exists {
                    say("OK".to_string())
                } else {
                    no_database(name)
                }
            },
            Some(i) => {
                let ghost names = names_view(self.databases@);
                let names_there = list_shelf_names(&self.shelved);
                let at = find_index(&names_there, name);
                let _ = self.databases.remove(i);
                proof {
                    assert(names_view(self.databases@) =~= names.remove(i as int));
                    lemma_order_without(names, i as int);
                }
                match at {
                    Some(j) => {
                        assert(names_view(names_there@).len() == self.shelved@.len());
                        let ghost shelved = self.shelved@;
                        let _ = self.shelved.remove(j);
                        assert(self@.shelved =~= before.shelved.remove(j as int));
                    },
                    None => {},
                }
                say(join3("Database ", name, " dropped"))
            },
        }
    }

    fn switch_to_database(&mut self, name: &str)
        requires
            old(self).wf(),
        ensures
            final(self).wf(),
            final(self)@ == switched(old(self)@, name@),
            kept(*old(self), *final(self)),
    {
        if text_is(self.current_db.as_str(), name) {
            return;
        }
        let ghost before = self@;
        let names = list_shelf_names(&self.shelved);
        let at = find_index(&names, name);
        let ghost shelved = self.shelved@;
        assert(names_view(names@).len() == shelved.len());
        let mut store = match at {
            Some(i) => {
                let s = self.shelved.remove(i);
                assert(before.shelved[i as int] == (s.name@, s.store@));
                s.store
            },
            None => Store::new(),
        };
        std::mem::swap(&mut store, &mut self.store);
        let mut old_name = name.to_string();
        std::mem::swap(&mut old_name, &mut self.current_db);
        let sh = Shelf { name: old_name, store };
        self.shelved.push(sh);
        proof {
            let pushed = before.shelved.push((before.current_db, before.store));
            match at {
                Some(i) => {
                    assert(self@.shelved =~= pushed.remove(i as int));
                },
                None => {
                    assert(self@.shelved =~= pushed);
                },
            }
        }
    }

    fn exec_use_database(&mut self, name: &str) -> (r: crate::error::Result<ExecutionResult>)
        requires
            old(self).wf(),
        ensures
            came_to(database_used(old(self)@, name@), *final(self), r),
            kept(*old(self), *final(self)),
    {
        if find_index(&self.databases, name).is_none() {
            return no_database(name);
        }
        self.switch_to_database(name);
        say(join2("Now using database ", name))
    }

    /// Finds out about table `i` and keeps it.
    fn analyze_table<'a, U: Fn(Ask) -> Reply>(&mut self, rn: &Runner<'a, U>, i: usize)
        requires
            rn.ready(),
            old(self).wf(),
            i < old(self).store.tables@.len(),
        ensures
            final(self).wf(),
            final(self)@ == with_found(old(self)@, found_of(rn.run().m, old(self)@.store, i as int)),
            final(self).store == old(self).store,
            kept(*old(self), *final(self)),
    {
        assert(self@.store.tables[i as int] == self.store.tables@[i as int]@);
        let name = self.store.tables[i].name.clone();
        let (_, rows) = self.store.copy_rows(i);
        let found = ask_stats(rn.u, name.as_str(), list_column_names(&self.store.tables[i].columns), rows);
        self.keep_stats(found);
    }

    fn exec_analyze<'a, U: Fn(Ask) -> Reply>(&mut self, rn: &Runner<'a, U>, t: &Option<String>) -> (r: crate::error::Result<ExecutionResult>)
        requires
            rn.ready(),
            old(self).wf(),
        ensures
            came_to(analyzed(rn.run().m, old(self)@, match *t { Some(n) => Some(n@), None => None }), *final(self), r),
            kept(*old(self), *final(self)),
    {
        let ghost before = *self;
        match t {
            Some(name) => match self.store.find(name.as_str()) {
                None => Err(QueryError::no_table(name.as_str())),
                Some(i) => {
                    self.analyze_table(rn, i);
                    say("ANALYZE 1".to_string())
                },
            },
            None => {
                let mut i: usize = 0;
                while i < self.store.tables.len()
                    invariant
                        rn.ready(),
                        self.wf(),
                        i <= self.store.tables@.len(),
                        self@ == with_all_found(rn.run().m, before@, i as nat),
                        self.store == before.store,
                        kept(before, *self),
                    decreases self.store.tables@.len() - i,
                {
                    assert(i + 1 - 1 == i);
                    self.analyze_table(rn, i);
                    i = i + 1;
                }
                assert(before@.store.tables.len() == self.store.tables@.len());
                let n = nat_to_text(self.store.tables.len() as u128);
                say(join2("ANALYZE ", n.as_str()))
            },
        }
    }
}

impl QueryEngine {
    #[verifier::spinoff_prover]
    fn run_shape<'a, U: Fn(Ask) -> Reply>(&mut self, rn: &Runner<'a, U>, s: &Statement, txn: Option<u64>) -> (r: crate::error::Result<ExecutionResult>)
        requires
            rn.ready(),
            old(self).wf(),
            s@ is CreateTable || s@ is DropTable || s@ is CreateIndex || s@ is DropIndex || s@ is AlterTable,
        ensures
            came_to(ran_simple(rn.run(), old(self)@, s@, txn), *final(self), r),
            kept(*old(self), *final(self)),
    {
        let ghost e = self@;
        proof {
            (*s).unfold();
        }
        match s {
            Statement::CreateTable(q) => {
                proof {
                    (*q).unfold();
                }
                match exec_create_table(rn.u, &mut self.store, q) {
                    Ok(_) => say(join3("Table ", q.name.as_str(), " created")),
                    Err(x) => Err(x),
                }
            },
            Statement::DropTable(q) => {
                proof {
                    (*q).unfold();
                }
                match exec_drop_table(&mut self.store, q) {
                    Ok(found) => if found {
                        drop_count(&mut self.counts, q.name.as_str());
                        drop_stats(&mut self.stats, q.name.as_str());
                        proof {
                            lemma_without_stats(e.stats, q.name@);
                        }
                        say(join3("Table ", q.name.as_str(), " dropped"))
                    } else {
                        say("OK".to_string())
                    },
                    Err(x) => Err(x),
                }
            },
            Statement::CreateIndex(q) => {
                proof {
                    (*q).unfold();
                }
                match exec_create_index(&mut self.store, q) {
                    Ok(_) => {
                        let a = join3("Index ", q.name.as_str(), " created on ");
                        say(join2(a.as_str(), q.table.as_str()))
                    },
                    Err(x) => Err(x),
                }
            },
            Statement::DropIndex(n) => {
                if exec_drop_index(&mut self.store, n.as_str()) {
                    say(join3("Index ", n.as_str(), " dropped"))
                } else {
                    say(join3("Index ", n.as_str(), " not found"))
                }
            },
            Statement::AlterTable(q) => match exec_alter_table(&mut self.store, q) {
                Ok(_) => say(show_altered(q)),
                Err(x) => Err(x),
            },
            _ => {
                proof {
                    reveal_strlit("");
                }
                fail("")
            },
        }
    }

    #[verifier::spinoff_prover]
    fn run_simple<'a, U: Fn(Ask) -> Reply>(&mut self, rn: &Runner<'a, U>, s: &Statement, txn: Option<u64>) -> (r: crate::error::Result<ExecutionResult>)
        requires
            rn.ready(),
            old(self).wf(),
            !(s@ is Union || s@ is Intersect || s@ is Except || s@ is Explain),
        ensures
            came_to(ran_simple(rn.run(), old(self)@, s@, txn), *final(self), r),
            kept(*old(self), *final(self)),
    {
        let ghost e = self@;
        proof {
            (*s).unfold();
        }
        match s {
            Statement::Begin(level) => self.exec_begin(match level {
                Some(l) => *l,
                None => IsolationLevel::ReadCommitted,
            }),
            Statement::Commit => self.end_txn(rn, txn),
            Statement::Rollback => self.exec_rollback(txn),
            Statement::ShowTables => {
                let names = list_table_names(&self.store.tables);
                give(list_texts("table_name", &names))
            },
            Statement::Describe(t) | Statement::ShowColumns(t) => self.exec_describe(t.as_str()),
            Statement::ShowCreateTable(t) => self.exec_show_create(t.as_str()),
            Statement::Truncate(t) => self.exec_truncate(t.as_str()),
            Statement::CreateTable(_) | Statement::DropTable(_) | Statement::CreateIndex(_) | Statement::DropIndex(_)
            | Statement::AlterTable(_) => self.run_shape(rn, s, txn),
            Statement::CreateDatabase { name, if_not_exists } => self.exec_create_database(name.as_str(), *if_not_exists),
            Statement::DropDatabase { name, if_exists } => self.exec_drop_database(name.as_str(), *if_exists),
            Statement::UseDatabase(name) => self.exec_use_database(name.as_str()),
            Statement::ShowDatabases => give(list_texts("database", &self.databases)),
            Statement::Analyze(t) => self.exec_analyze(rn, t),
            Statement::Select(q) => self.exec_select(rn, q, txn),
            Statement::Insert(q) => {
                if !self.can_run(txn) {
                    return no_txn();
                }
                proof {
                    (*q).unfold();
                }
                let v = self.visible(txn);
                let clerk = Clerk { u: rn.u, now: rn.now, counts: &self.counts, depth: rn.depth };
                let (rows, err) = exec_insert(&clerk, &mut self.store, &v, q);
                self.finish_write(rn, rows, err, q.table.as_str(), &q.returning, txn, Ghost(e))
            },
            Statement::Update(q) => {
                if !self.can_run(txn) {
                    return no_txn();
                }
                proof {
                    (*q).unfold();
                }
                let v = self.visible(txn);
                let clerk = Clerk { u: rn.u, now: rn.now, counts: &self.counts, depth: rn.depth };
                let (rows, err) = exec_update(&clerk, txn, &mut self.store, &v, q);
                self.finish_write(rn, rows, err, q.table.as_str(), &q.returning, txn, Ghost(e))
            },
            Statement::Delete(q) => {
                if !self.can_run(txn) {
                    return no_txn();
                }
                proof {
                    (*q).unfold();
                }
                let v = self.visible(txn);
                let clerk = Clerk { u: rn.u, now: rn.now, counts: &self.counts, depth: rn.depth };
                let (rows, err) = exec_delete(&clerk, txn, &mut self.store, &v, q);
                self.finish_write(rn, rows, err, q.table.as_str(), &q.returning, txn, Ghost(e))
            },
            Statement::ShowStats(t) => give(show_stats(&self.stats, t)),
            Statement::KvGet(_) | Statement::KvSet(_, _) | Statement::KvDelete(_) | Statement::KvScan(_, _) => fail(
                "Use KV engine for KV operations",
            ),
            Statement::DocInsert(_) | Statement::DocFind(_) | Statement::DocUpdate(_) | Statement::DocDelete(_) => fail(
                "Use Document engine for DOC operations",
            ),
            Statement::Backup { path } => fail("BACKUP requires a disk-backed engine"),
            Statement::Restore { path, to_lsn } => fail("RESTORE requires a disk-backed engine"),
            Statement::Migrate => fail("MIGRATE requires a disk-backed engine"),
            _ => {
                proof {
                    reveal_strlit("");
                }
                fail("")
            },
        }
    }

    fn exec_describe(&self, t: &str) -> (r: crate::error::Result<ExecutionResult>)
        ensures
            result_view(r) == (match table_index(self@.store, t@) {
                Some(i) => Ok(ResultView::Rows(described(self@.store.tables[i]))),
                None => Err(run_error(table_missing(t@))),
            }),
    {
        match self.store.find(t) {
            Some(i) => {
                assert(self@.store.tables[i as int] == self.store.tables@[i as int]@);
                give(describe_table(&self.store.tables[i]))
            },
            None => Err(QueryError::no_table(t)),
        }
    }

    fn exec_show_create(&self, t: &str) -> (r: crate::error::Result<ExecutionResult>)
        ensures
            result_view(r) == (match table_index(self@.store, t@) {
                Some(i) => Ok(ResultView::Rows(listing("Create Table"@, seq![create_text(self@.store.tables[i])]))),
                None => Err(run_error(table_missing(t@))),
            }),
    {
        match self.store.find(t) {
            Some(i) => {
                assert(self@.store.tables[i as int] == self.store.tables@[i as int]@);
                let mut lines: Vec<String> = Vec::new();
                lines.push(show_create(&self.store.tables[i]));
                assert(names_view(lines@) =~= seq![create_text(self@.store.tables[i as int])]);
                give(list_texts("Create Table", &lines))
            },
            None => Err(QueryError::no_table(t)),
        }
    }

    fn exec_truncate(&mut self, t: &str) -> (r: crate::error::Result<ExecutionResult>)
        requires
            old(self).wf(),
        ensures
            came_to(
                match table_index(old(self)@.store, t@) {
                    Some(i) => said(
                        EngineView {
                            store: with_rows(old(self)@.store, i, Rows { keys: Seq::empty(), rows: Seq::empty() }),
                            ..old(self)@
                        },
                        "TRUNCATE TABLE"@,
                    ),
                    None => failed(old(self)@, table_missing(t@)),
                },
                *final(self),
                r,
            ),
            kept(*old(self), *final(self)),
    {
        match self.store.find(t) {
            Some(i) => {
                self.store.clear_rows(i);
                say("TRUNCATE TABLE".to_string())
            },
            None => Err(QueryError::no_table(t)),
        }
    }

    fn exec_select<'a, U: Fn(Ask) -> Reply>(&self, rn: &Runner<'a, U>, q: &SelectStmt, txn: Option<u64>) -> (r: crate::error::Result<ExecutionResult>)
        requires
            rn.ready(),
            self.wf(),
        ensures
            result_view(r) == ran_simple(rn.run(), self@, StatementView::Select(q@), txn).r,
    {
        if !self.can_read(rn, q, txn) {
            return no_txn();
        }
        let o = outside();
        let v = self.visible(txn);
        let db = match &v {
            Some(v) => &v.sources,
            None => &self.store.sources,
        };
        let cx = Reader { u: rn.u, now: rn.now, counts: &self.counts, db, depth: rn.depth };
        match run_query(&cx, &o, q) {
            Ok(rel) => give(rel),
            Err(x) => Err(x),
        }
    }

    /// What a transaction sees of the store, where that differs from the store.
    fn visible(&self, txn: Option<u64>) -> (r: Option<Store>)
        requires
            self.wf(),
        ensures
            walked(self@.store, r) == read_store(self@, txn),
            r matches Some(v) ==> v.wf() && v.tables@.len() == self.store.tables@.len(),
    {
        match txn {
            Some(id) => match find_txn(&self.txns, id) {
                Some(i) => {
                    let t = &self.txns[i];
                    let eye = Eye { id: t.id, level: t.level, snap: t.snap };
                    assert(self@.txns[i as int] == self.txns@[i as int]@);
                    if self.history.len() > 0 {
                        return Some(show_store(&self.store, &self.history, &eye));
                    }
                    assert(changes_of(self@.history) =~= Seq::empty());
                    assert(self@.history.len() == 0);
                    assert(seen(self@.store, self@.history, eye) == self@.store);
                    None
                },
                None => None,
            },
            None => None,
        }
    }

    /// Plans a statement with what is known of the tables.
    fn plan_statement(&self, s: &Statement) -> (r: crate::error::Result<PhysicalPlan>)
        ensures
            match r {
                Ok(q) => logical_of(s@) matches Ok(p) && q@ == plan_of(self@, p),
                Err(x) => logical_of(s@) matches Err(y) && x@ == y,
            },
    {
        let p = match build_logical_plan(s) {
            Ok(p) => p,
            Err(x) => {
                return Err(x);
            },
        };
        let x = index_snapshot(&self.store.tables);
        optimize_with_catalog(&p, &self.counts, &x)
    }

    fn exec_explain<'a, U: Fn(Ask) -> Reply>(&mut self, rn: &Runner<'a, U>, inner: &Statement, analyze: bool, txn: Option<u64>) -> (r: crate::error::Result<ExecutionResult>)
        requires
            rn.ready(),
            old(self).wf(),
        ensures
            came_to(
                ran(rn.run(), old(self)@, StatementView::Explain(Box::new(inner@), analyze), txn),
                *final(self),
                r,
            ),
            kept(*old(self), *final(self)),
        decreases inner, 1int,
    {
        let plan = match self.plan_statement(inner) {
            Ok(p) => p,
            Err(x) => {
                return Err(x);
            },
        };
        let lines = plan.explain_tree();
        let (n, cost) = ask_estimate(rn.u, plan, dup_stats(&self.stats));
        let mut all: Vec<String> = Vec::new();
        all.push(show_estimate(n, cost.as_str()));
        if analyze {
            let start = ask_clock(rn.u, false);
            match self.run_statement(rn, inner, txn) {
                Err(x) => {
                    return Err(x);
                },
                Ok(v) => {
                    let end = ask_clock(rn.u, true);
                    let us: u64 = if start <= end {
                        end - start
                    } else {
                        0
                    };
                    let actual = count_result(&v);
                    let factor = ask_factor(rn.u, actual, n);
                    all.push(show_actual(actual, us, factor.as_str()));
                },
            }
        }
        let ghost front = names_view(all@);
        append_names(&mut all, &lines);
        proof {
            assert(names_view(all@) == front + names_view(lines@));
            if analyze {
                assert(front =~= seq![front[0]] + seq![front[1]]);
            } else {
                assert(front =~= seq![front[0]]);
            }
        }
        give(list_texts("QUERY PLAN", &all))
    }

    fn run_statement<'a, U: Fn(Ask) -> Reply>(&mut self, rn: &Runner<'a, U>, s: &Statement, txn: Option<u64>) -> (r: crate::error::Result<ExecutionResult>)
        requires
            rn.ready(),
            old(self).wf(),
        ensures
            came_to(ran(rn.run(), old(self)@, s@, txn), *final(self), r),
            kept(*old(self), *final(self)),
        decreases s, 0int,
    {
        proof {
            (*s).unfold();
        }
        match s {
            Statement::Union(l, r, all) => {
                let a = match self.run_statement(rn, l, txn) {
                    Ok(a) => a,
                    Err(x) => {
                        return Err(x);
                    },
                };
                match self.run_statement(rn, r, txn) {
                    Ok(b) => exec_union(a, b, *all),
                    Err(x) => Err(x),
                }
            },
            Statement::Intersect(l, r, all) => {
                let a = match self.run_statement(rn, l, txn) {
                    Ok(a) => a,
                    Err(x) => {
                        return Err(x);
                    },
                };
                match self.run_statement(rn, r, txn) {
                    Ok(b) => exec_intersect(a, b, *all),
                    Err(x) => Err(x),
                }
            },
            Statement::Except(l, r, all) => {
                let a = match self.run_statement(rn, l, txn) {
                    Ok(a) => a,
                    Err(x) => {
                        return Err(x);
                    },
                };
                match self.run_statement(rn, r, txn) {
                    Ok(b) => exec_except(a, b, *all),
                    Err(x) => Err(x),
                }
            },
            Statement::Explain(inner, analyze) => self.exec_explain(rn, inner, *analyze, txn),
            _ => self.run_simple(rn, s, txn),
        }
    }

    fn bill_select<'a, U: Fn(Ask) -> Reply>(&self, rn: &Runner<'a, U>, s: &Store, q: &SelectStmt, txn: Option<u64>) -> (r: Bill)
        requires
            rn.ready(),
            s.wf(),
        ensures
            r@ == query_owes(informed(rn.run(), self@), setting(self@, s@, txn), sources_of(s@), Seq::empty(), q@),
    {
        let catalog = index_snapshot(&self.store.tables);
        assert(pasts_view(self.history@).len() == self.history@.len());
        let x = Spot {
            s,
            counts: &self.counts,
            catalog: &catalog,
            in_txn: txn.is_some(),
            mixed: txn.is_some() && self.history.len() > 0,
        };
        let made: Vec<String> = Vec::new();
        assert(names_view(made@) =~= Seq::empty());
        let cx = Reader { u: rn.u, now: rn.now, counts: &self.counts, db: &s.sources, depth: rn.depth };
        bill_query(&cx, &x, &made, q)
    }

    fn can_read<'a, U: Fn(Ask) -> Reply>(&self, rn: &Runner<'a, U>, q: &SelectStmt, txn: Option<u64>) -> (r: bool)
        requires
            rn.ready(),
            self.wf(),
        ensures
            r == may_read(rn.run(), self@, q@, txn),
    {
        self.can_run(txn) || !self.bill_select(rn, &self.store, q, txn).snap
    }

    fn bill_statement<'a, U: Fn(Ask) -> Reply>(&self, rn: &Runner<'a, U>, s: &Statement, txn: Option<u64>) -> (r: Bill)
        requires
            rn.ready(),
            self.wf(),
        ensures
            r@ == statement_owes(rn.run(), self@, s@, txn),
        decreases s,
    {
        proof {
            (*s).unfold();
        }
        match s {
            Statement::Select(q) => {
                if !self.can_read(rn, q, txn) {
                    return no_bill(true);
                }
                match &self.visible(txn) {
                    Some(v) => self.bill_select(rn, v, q, txn),
                    None => self.bill_select(rn, &self.store, q, txn),
                }
            },
            Statement::Insert(i) => {
                proof {
                    (*i).unfold();
                    i.source.unfold();
                }
                match &i.source {
                    InsertSource::Select(q) => {
                        if !self.can_run(txn) {
                            return no_bill(true);
                        }
                        match &self.visible(txn) {
                            Some(v) => self.bill_select(rn, v, q, txn),
                            None => self.bill_select(rn, &self.store, q, txn),
                        }
                    },
                    _ => no_bill(true),
                }
            },
            Statement::Union(l, r, _) | Statement::Intersect(l, r, _) | Statement::Except(l, r, _) => {
                let a = self.bill_statement(rn, l, txn);
                let b = self.bill_statement(rn, r, txn);
                bill_both(a, b)
            },
            Statement::Explain(inner, analyze) => if *analyze {
                self.bill_statement(rn, inner, txn)
            } else {
                no_bill(true)
            },
            _ => no_bill(true),
        }
    }

    /// What a statement in a transaction reads, goes through by a condition and writes; on this it is
    /// decided which transactions may commit.
    pub fn footprint<'a, U: Fn(Ask) -> Reply>(&self, rn: &Runner<'a, U>, s: &Statement, txn_id: Option<u64>) -> (r: Vec<Mark>)
        requires
            rn.ready(),
            self.wf(),
        ensures
            marks_view(r@) == footprint_of(rn.run(), self@, s@, txn_id),
        decreases s,
    {
        proof {
            (*s).unfold();
        }
        if txn_id.is_none() || !self.can_run(txn_id) {
            return no_marks();
        }
        let clerk = Clerk { u: rn.u, now: rn.now, counts: &self.counts, depth: rn.depth };
        match s {
            Statement::Select(_) | Statement::Union(_, _, _) | Statement::Intersect(_, _, _) | Statement::Except(_, _, _) => {
                self.bill_statement(rn, s, txn_id).marks
            },
            Statement::Insert(q) => {
                let b = self.bill_statement(rn, s, txn_id);
                let w = mark_insert(&clerk, &self.store, &self.visible(txn_id), q);
                join_marks(b.marks, &w)
            },
            Statement::Update(q) => mark_update(&clerk, txn_id, &self.store, &self.visible(txn_id), q),
            Statement::Delete(q) => mark_delete(&clerk, txn_id, &self.store, &self.visible(txn_id), q),
            Statement::Explain(inner, analyze) => if *analyze && build_logical_plan(inner).is_ok() {
                self.footprint(rn, inner, txn_id)
            } else {
                no_marks()
            },
            _ => no_marks(),
        }
    }

    /// Runs a statement, in a transaction or on its own. One that would read more rows or take more
    /// memory than the engine's limits allow is refused.
    pub fn execute<'a, U: Fn(Ask) -> Reply>(&mut self, rn: &Runner<'a, U>, stmt: Statement, txn_id: Option<u64>) -> (r: crate::error::Result<ExecutionResult>)
        requires
            rn.ready(),
            old(self).wf(),
        ensures
            came_to(ran_within(rn.run(), old(self)@, old(self).max_scan_rows, old(self).max_memory_bytes, stmt@, txn_id), *final(self), r),
            kept(*old(self), *final(self)),
    {
        if self.max_scan_rows.is_some() || self.max_memory_bytes.is_some() {
            let limits = ResourceLimits {
                max_memory_bytes: self.max_memory_bytes,
                max_temp_spill_bytes: None,
                max_scan_rows: self.max_scan_rows,
            };
            let mut ctx = QueryContext::with_limits(limits);
            let bill = self.bill_statement(rn, &stmt, txn_id);
            match pay_all(&mut ctx, &bill.charges, None::<&U>, 0) {
                Ok(_) => {},
                Err(x) => {
                    return Err(x);
                },
            }
        } else {
            proof {
                let owed = statement_owes(rn.run(), self@, stmt@, txn_id);
                law_unlimited_is_never_refused(own_limits(None, None), owed.charges, None, 0);
            }
        }
        self.run_statement(rn, &stmt, txn_id)
    }

    /// Parses a text, or takes the statement that the cache holds for it.
    pub fn parse_cached(&mut self, sql: &str) -> (r: crate::error::Result<Statement>)
        requires
            old(self).wf(),
        ensures
            final(self).wf(),
            final(self)@ == old(self)@,
            final(self).max_scan_rows == old(self).max_scan_rows,
            final(self).max_memory_bytes == old(self).max_memory_bytes,
            final(self).slow_log == old(self).slow_log,
            parsed(old(self).stmt_cache@, sql@) == (final(self).stmt_cache@, match r { Ok(s) => Some(s@), Err(_) => None }),
            r matches Err(e) ==> e@ == ErrorView::Parse(parse_fault(sql@)),
    {
        self.stmt_cache.parse(sql)
    }

    /// Runs the statement that a text writes out.
    pub fn execute_sql<'a, U: Fn(Ask) -> Reply>(&mut self, rn: &Runner<'a, U>, sql: &str, txn_id: Option<u64>) -> (r: crate::error::Result<ExecutionResult>)
        requires
            rn.ready(),
            old(self).wf(),
        ensures
            came_to(
                match parsed(old(self).stmt_cache@, sql@).1 {
                    Some(s) => ran_within(rn.run(), old(self)@, old(self).max_scan_rows, old(self).max_memory_bytes, s, txn_id),
                    None => Ran { e: old(self)@, r: Err(ErrorView::Parse(parse_fault(sql@))) },
                },
                *final(self),
                r,
            ),
            final(self).stmt_cache@ == parsed(old(self).stmt_cache@, sql@).0,
            final(self).max_scan_rows == old(self).max_scan_rows,
            final(self).max_memory_bytes == old(self).max_memory_bytes,
            final(self).slow_log == old(self).slow_log,
    {
        match self.parse_cached(sql) {
            Ok(s) => self.execute(rn, s, txn_id),
            Err(x) => Err(x),
        }
    }

    /// Runs a statement under a context, which is charged the rows that the statement's queries read
    /// and the memory that they take to join and to group. A context that was cancelled, or whose time
    /// is up, has the last word.
    pub fn execute_with_ctx<'a, U: Fn(Ask) -> Reply>(
        &mut self,
        rn: &Runner<'a, U>,
        stmt: &Statement,
        txn_id: Option<u64>,
        ctx: &mut QueryContext,
        now: u64,
    ) -> (r: crate::error::Result<ExecutionResult>)
        requires
            rn.ready(),
            old(self).wf(),
        ensures
            final(ctx)@ == charged(rn.run(), old(self)@, old(ctx)@, stmt@, txn_id, now),
            came_to(ran_under(rn.run(), old(self)@, old(ctx)@, stmt@, txn_id, now), *final(self), r),
            kept(*old(self), *final(self)),
    {
        let bill = self.bill_statement(rn, stmt, txn_id);
        let n = bill.charges.len() as u64;
        let res = match pay_all(ctx, &bill.charges, Some(rn.u), now) {
            Err(x) => Err(x),
            Ok(_) => self.run_statement(rn, stmt, txn_id),
        };
        let read = ctx.usage().scan_rows;
        match check_running(ctx, Some(rn.u), now, n, read) {
            Err(x) => Err(x),
            Ok(_) => res,
        }
    }

    /// Runs the statement that a text writes out under a context.
    pub fn execute_sql_with_ctx<'a, U: Fn(Ask) -> Reply>(
        &mut self,
        rn: &Runner<'a, U>,
        sql: &str,
        txn_id: Option<u64>,
        ctx: &mut QueryContext,
        now: u64,
    ) -> (r: crate::error::Result<ExecutionResult>)
        requires
            rn.ready(),
            old(self).wf(),
        ensures
            match parsed(old(self).stmt_cache@, sql@).1 {
                Some(s) => {
                    &&& final(ctx)@ == charged(rn.run(), old(self)@, old(ctx)@, s, txn_id, now)
                    &&& came_to(ran_under(rn.run(), old(self)@, old(ctx)@, s, txn_id, now), *final(self), r)
                },
                None => {
                    &&& final(ctx)@ == old(ctx)@
                    &&& came_to(
                        Ran {
                            e: old(self)@,
                            r: Err(match check_at(old(ctx)@, Some(rn.run().m), now, 0, old(ctx)@.usage.scan_rows) {
                                Some(x) => x,
                                None => ErrorView::Parse(parse_fault(sql@)),
                            }),
                        },
                        *final(self),
                        r,
                    )
                },
            },
            final(self).stmt_cache@ == parsed(old(self).stmt_cache@, sql@).0,
            final(self).max_scan_rows == old(self).max_scan_rows,
            final(self).max_memory_bytes == old(self).max_memory_bytes,
            final(self).slow_log == old(self).slow_log,
    {
        match self.parse_cached(sql) {
            Ok(s) => self.execute_with_ctx(rn, &s, txn_id, ctx, now),
            Err(x) => {
                let read = ctx.usage().scan_rows;
                match check_running(ctx, Some(rn.u), now, 0, read) {
                    Err(y) => Err(y),
                    Ok(_) => Err(x),
                }
            },
        }
    }

    /// Begins a transaction and gives its number, as long as there are numbers left.
    pub fn begin(&mut self, level: IsolationLevel) -> (r: Option<u64>)
        requires
            old(self).wf(),
        ensures
            final(self).wf(),
            final(self)@ == begun(old(self)@, level).e,
            kept(*old(self), *final(self)),
            r == (if old(self)@.next_txn == u64::MAX {
                None
            } else {
                Some(old(self)@.next_txn)
            }),
    {
        let id = self.next_txn;
        match self.exec_begin(level) {
            Ok(_) => Some(id),
            Err(_) => None,
        }
    }

    /// Takes back what a transaction did and ends it, if it is under way.
    pub fn rollback(&mut self, txn_id: u64)
        requires
            old(self).wf(),
        ensures
            final(self).wf(),
            final(self)@ == rolled_back(old(self)@, Some(txn_id)).e,
            kept(*old(self), *final(self)),
    {
        match find_txn(&self.txns, txn_id) {
            Some(i) => {
                self.rollback_txn_effects(i);
            },
            None => {},
        }
    }

    /// Ends a transaction of which it was decided whether it may commit, and why not.
    pub fn commit_decided(&mut self, txn_id: u64, refused: Option<String>) -> (r: crate::error::Result<ExecutionResult>)
        requires
            old(self).wf(),
        ensures
            came_to(decided(old(self)@, txn_id, opt_string(refused)), *final(self), r),
            kept(*old(self), *final(self)),
    {
        match refused {
            None => self.exec_commit(Some(txn_id)),
            Some(why) => {
                self.rollback(txn_id);
                Err(QueryError::Execution(why))
            },
        }
    }

    /// The names of the columns of a table and its rows, from which its statistics are computed.
    pub fn collect_table_rows(&self, table: &str) -> (r: crate::error::Result<(Vec<String>, Vec<Vec<Value>>)>)
        requires
            self.wf(),
        ensures
            match table_index(self@.store, table@) {
                Some(i) => r matches Ok(x) && names_view(x.0@) == column_names(self@.store.tables[i].columns) && rows_view(x.1@)
                    == self@.store.rows[i],
                None => r matches Err(x) && x@ == run_error(table_missing(table@)),
            },
    {
        match self.store.find(table) {
            Some(i) => {
                assert(self@.store.tables[i as int] == self.store.tables@[i as int]@);
                let (_, rows) = self.store.copy_rows(i);
                Ok((list_column_names(&self.store.tables[i].columns), rows))
            },
            None => Err(QueryError::no_table(table)),
        }
    }

    /// Keeps what was found out about a table, in place of what was known before.
    pub fn keep_stats(&mut self, s: TableStats)
        requires
            old(self).wf(),
        ensures
            final(self).wf(),
            final(self)@ == with_found(old(self)@, s@),
            final(self).store == old(self).store,
            kept(*old(self), *final(self)),
    {
        proof {
            law_stats_stay_in_order(self@.stats, s@);
        }
        put_count(&mut self.counts, s.table.as_str(), s.row_count);
        put_stats(&mut self.stats, s);
    }

    /// Takes away the changes that have become lasting since they were last taken.
    pub fn take_deltas(&mut self) -> (r: Vec<Change>)
        requires
            old(self).wf(),
        ensures
            final(self).wf(),
            changes_view(r@) == old(self)@.durable,
            final(self)@ == (EngineView { durable: Seq::empty(), ..old(self)@ }),
            kept(*old(self), *final(self)),
    {
        let mut r: Vec<Change> = Vec::new();
        assert(changes_view(r@) =~= Seq::empty());
        std::mem::swap(&mut r, &mut self.durable);
        r
    }

    /// Says whether lasting changes are collected for a disk.
    pub fn keep_deltas(&mut self, on: bool)
        requires
            old(self).wf(),
        ensures
            final(self).wf(),
            final(self)@ == (EngineView { logged: on, ..old(self)@ }),
            kept(*old(self), *final(self)),
    {
        self.logged = on;
    }

    /// Sets how many rows a statement may read and how many bytes of memory it may take; zero means
    /// any number.
    pub fn set_resource_limits(&mut self, max_scan_rows: u64, max_memory_bytes: u64)
        requires
            old(self).wf(),
        ensures
            final(self).wf(),
            final(self)@ == old(self)@,
            final(self).max_scan_rows == limit_from(max_scan_rows),
            final(self).max_memory_bytes == limit_from(max_memory_bytes),
            final(self).stmt_cache == old(self).stmt_cache,
            final(self).slow_log == old(self).slow_log,
    {
        self.max_scan_rows = make_limit(max_scan_rows);
        self.max_memory_bytes = make_limit(max_memory_bytes);
    }

    pub fn set_slow_query_threshold_ms(&mut self, threshold_ms: Option<u64>)
        requires
            old(self).wf(),
        ensures
            final(self).wf(),
            final(self)@ == old(self)@,
            final(self).max_scan_rows == old(self).max_scan_rows,
            final(self).stmt_cache == old(self).stmt_cache,
            final(self).slow_log == (SlowLog { threshold_ms, ..old(self).slow_log }),
    {
        self.slow_log.threshold_ms = threshold_ms;
    }

    pub fn slow_query_log(&self) -> (r: &Vec<SlowQueryEntry>)
        ensures
            *r == self.slow_log.entries,
    {
        &self.slow_log.entries
    }

    pub fn clear_slow_query_log(&mut self)
        requires
            old(self).wf(),
        ensures
            final(self).wf(),
            final(self)@ == old(self)@,
            final(self).max_scan_rows == old(self).max_scan_rows,
            final(self).stmt_cache == old(self).stmt_cache,
            final(self).slow_log.threshold_ms == old(self).slow_log.threshold_ms,
            final(self).slow_log.entries@.len() == 0,
    {
        self.slow_log.entries = Vec::new();
    }

    /// Notes how long a text took to run.
    pub fn note_query(&mut self, sql: &str, elapsed_us: u64, txn_id: Option<u64>, now_us: u64)
        requires
            old(self).wf(),
        ensures
            final(self).wf(),
            final(self)@ == old(self)@,
            final(self).max_scan_rows == old(self).max_scan_rows,
            final(self).stmt_cache == old(self).stmt_cache,
            final(self).slow_log.threshold_ms == old(self).slow_log.threshold_ms,
            slow_view(final(self).slow_log.entries@) == slow_put(
                old(self).slow_log.threshold_ms,
                slow_view(old(self).slow_log.entries@),
                (SlowQueryView { sql: sql@, duration_micros: elapsed_us, txn_id, timestamp_micros: now_us }),
            ),
    {
        self.slow_log.maybe_record_slow_query(sql, elapsed_us, txn_id, now_us);
    }

    /// The rows of a table go in as they are, each under the values of its primary key.
    pub fn bulk_insert(&mut self, table: &str, rows: Vec<Vec<Value>>) -> (r: crate::error::Result<u64>)
        requires
            old(self).wf(),
        ensures
            final(self).wf(),
            kept(*old(self), *final(self)),
            match table_index(old(self)@.store, table@) {
                None => final(self)@ == old(self)@ && (r matches Err(x) && x@ == run_error(table_missing(table@))),
                Some(i) => {
                    &&& final(self)@ == (EngineView {
                        store: StoreView { log: Seq::empty(), ..bulk_put(old(self)@.store, i, rows_view(rows@)) },
                        ..old(self)@
                    })
                    &&& r matches Ok(n) && n == rows@.len()
                },
            },
    {
        let i = match self.store.find(table) {
            Some(i) => i,
            None => {
                return Err(QueryError::no_table(table));
            },
        };
        let ghost before = self@;
        let at = find_key_places(&self.store.tables[i].columns);
        let ghost all = rows_view(rows@);
        assert(self@.store.tables[i as int] == self.store.tables@[i as int]@);
        let mut j: usize = 0;
        assert(all.take(0).len() == 0);
        while j < rows.len()
            invariant
                j <= rows.len(),
                i < self.store.tables@.len(),
                all == rows_view(rows@),
                self.sound(),
                self@ == (EngineView { store: bulk_put(before.store, i as int, all.take(j as int)), ..before }),
                ints(at@) == key_places(before.store.tables[i as int].columns),
                kept(*old(self), *self),
            decreases rows.len() - j,
        {
            proof {
                assert(all.take(j + 1).drop_last() =~= all.take(j as int));
                assert(all.take(j + 1).last() == values_view(rows@[j as int]@));
            }
            let k = pick_values(&rows[j], &at);
            self.store.put(i, k, dup_values(&rows[j]));
            j = j + 1;
        }
        assert(all.take(rows.len() as int) =~= all);
        let _ = self.store.take_log();
        Ok(rows.len() as u64)
    }
}

fn combine(a: ExecutionResult, b: ExecutionResult) -> (r: Option<(Vec<String>, Vec<Vec<Value>>, Vec<Vec<Value>>)>)
    ensures
        match r {
            Some((c, x, y)) => {
                &&& a@ == ResultView::Rows(RelationView { columns: names_view(c@), rows: rows_view(x@) })
                &&& b@ is Rows
                &&& b@->Rows_0.rows == rows_view(y@)
            },
            None => !(a@ is Rows && b@ is Rows),
        },
{
    match (a, b) {
        (ExecutionResult::Rows { columns, rows }, ExecutionResult::Rows { columns: _, rows: other }) => Some((columns, rows, other)),
        _ => None,
    }
}

fn exec_union(a: ExecutionResult, b: ExecutionResult, all: bool) -> (r: crate::error::Result<ExecutionResult>)
    ensures
        result_view(r) == set_rows(a@, b@, SetOp::Union, all),
{
    match combine(a, b) {
        Some((c, x, y)) => Ok(ExecutionResult::Rows { columns: c, rows: union_rows(&x, &y, all) }),
        None => fail("UNION requires two SELECT statements"),
    }
}

fn exec_intersect(a: ExecutionResult, b: ExecutionResult, all: bool) -> (r: crate::error::Result<ExecutionResult>)
    ensures
        result_view(r) == set_rows(a@, b@, SetOp::Intersect, all),
{
    match combine(a, b) {
        Some((c, x, y)) => Ok(ExecutionResult::Rows { columns: c, rows: match_rows(&x, &y, all, true) }),
        None => fail("INTERSECT requires two SELECT statements"),
    }
}

fn exec_except(a: ExecutionResult, b: ExecutionResult, all: bool) -> (r: crate::error::Result<ExecutionResult>)
    ensures
        result_view(r) == set_rows(a@, b@, SetOp::Except, all),
{
    match combine(a, b) {
        Some((c, x, y)) => Ok(ExecutionResult::Rows { columns: c, rows: match_rows(&x, &y, all, false) }),
        None => fail("EXCEPT requires two SELECT statements"),
    }
}

fn show_estimate(rows: u64, cost: &str) -> (r: String)
    ensures
        r@ == estimate_line(rows, cost@),
{
    let n = nat_to_text(rows as u128);
    let a = join3("Plan  (estimated_rows=", n.as_str(), "  estimated_cost=");
    join3(a.as_str(), cost, ")")
}

fn show_three(n: u64) -> (r: String)
    ensures
        r@ == three_digits(n as nat),
{
    let t = nat_to_text(n as u128);
    if n < 10 {
        join2("00", t.as_str())
    } else if n < 100 {
        join2("0", t.as_str())
    } else {
        t
    }
}

fn show_actual(rows: u64, us: u64, factor: &str) -> (r: String)
    ensures
        r@ == "Actual  rows="@ + nat_text(rows as nat) + "  time="@ + millis_text(us) + " ms  est/actual_factor="@ + factor@,
{
    let n = nat_to_text(rows as u128);
    let whole = nat_to_text((us / 1000) as u128);
    let part = show_three(us % 1000);
    let ms = join3(whole.as_str(), ".", part.as_str());
    let a = join3("Actual  rows=", n.as_str(), "  time=");
    let b = join3(a.as_str(), ms.as_str(), " ms  est/actual_factor=");
    join2(b.as_str(), factor)
}

fn count_result(v: &ExecutionResult) -> (r: u64)
    ensures
        r as nat == result_size(v@),
{
    match v {
        ExecutionResult::Rows { columns: _, rows } => {
            assert(rows_view(rows@).len() == rows@.len());
            rows.len() as u64
        },
        ExecutionResult::Modified { count } => *count,
        ExecutionResult::Done(_) => 0,
    }
}

fn append_names(to: &mut Vec<String>, from: &Vec<String>)
    ensures
        names_view(final(to)@) == names_view(old(to)@) + names_view(from@),
{
    let ghost start = names_view(to@);
    let ghost all = names_view(from@);
    let mut i: usize = 0;
    assert(start + all.take(0) =~= start);
    while i < from.len()
        invariant
            i <= from.len(),
            all == names_view(from@),
            names_view(to@) == start + all.take(i as int),
        decreases from.len() - i,
    {
        let n = from[i].clone();
        proof {
            names_push(to@, n);
            assert(start + all.take(i + 1) =~= (start + all.take(i as int)).push(n@));
        }
        to.push(n);
        i = i + 1;
    }
    assert(all.take(from.len() as int) =~= all);
}

fn show_altered(q: &AlterTableStmt) -> (r: String)
    ensures
        r@ == altered_text(q@),
{
    proof {
        (*q).unfold();
        q.action.unfold();
    }
    match &q.action {
        AlterTableAction::AddColumn(c) => {
            proof {
                (*c).unfold();
            }
            join3("Column '", c.name.as_str(), "' added")
        },
        AlterTableAction::DropColumn(n) => join3("Column '", n.as_str(), "' dropped"),
        AlterTableAction::RenameColumn { old_name, new_name } => {
            let a = join3("Column '", old_name.as_str(), "' renamed to '");
            join3(a.as_str(), new_name.as_str(), "'")
        },
    }
}

/// Names in order stay so when one leaves.
proof fn lemma_order_without(s: Seq<Seq<char>>, k: int)
    requires
        in_order(s),
        0 <= k < s.len(),
    ensures
        in_order(s.remove(k)),
{
    if 0 < k < s.len() - 1 {
        lemma_chained(codes(s[k - 1]), codes(s[k]), codes(s[k + 1]), 0);
    }
}

proof fn lemma_chained(a: Seq<int>, b: Seq<int>, c: Seq<int>, i: int)
    requires
        i >= 0,
        seq_order(a, b, i) != Order::Greater,
        seq_order(b, c, i) != Order::Greater,
    ensures
        seq_order(a, c, i) != Order::Greater,
    decreases a.len() - i,
{
    if i < a.len() && i < b.len() && i < c.len() && a[i] == b[i] && b[i] == c[i] {
        lemma_chained(a, b, c, i + 1);
    }
}

} // verus!
