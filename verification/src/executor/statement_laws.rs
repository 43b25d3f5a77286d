use vstd::prelude::*;
use vstd::string::*;
use crate::error::ErrorView;
use crate::parser::ast::{AlterTableActionView, AlterTableStmtView, CreateIndexStmtView, CreateTableStmtView, DropTableStmtView, ExprView, ForeignKeyDefView, IsolationLevel, SelectColumnView, SelectStmtView, StatementView};
use crate::value::ValueView;
use super::constraints::{Run, places_of};
use super::ddl::{declared_checks, declared_fks, has_index, indexes_but, table_with_index};
use super::delete::{delete_work, returned};
use super::dml::{insert_work, update_work};
use super::engine::{EngineView, ResultView, Ran, informed, may_read, may_run, ran, read_store};
use super::eval::eval;
use super::expr_laws::{lemma_index_absent, lemma_index_of};
use super::relation::RelationView;
use super::rollback::lemma_index_range;
use super::scope::{index_of, source_of};
use super::select::select_rel;
use super::store::{StoreView, column_names, sources_of, stored_source, store_ok, table_index, table_names};
use super::table::TableView;

verus! {

pub open spec fn is_ok(r: Ran) -> bool {
    r.r is Ok
}

// ---- tables

/// What queries read under the name of a stored table is that table: its columns and its rows.
pub proof fn law_stored_table_is_read(s: StoreView, i: int)
    requires
        store_ok(s),
        0 <= i < s.tables.len(),
        s.tables[i].name != "information_schema.tables"@,
        s.tables[i].name != "information_schema.columns"@,
    ensures
        source_of(sources_of(s), s.tables[i].name) == Some(RelationView { columns: column_names(s.tables[i].columns), rows: s.rows[i] }),
{
    let all = sources_of(s);
    let n = s.tables.len() as int;
    assert(all.len() == n + 2);
    assert(all.drop_last().len() == n + 1);
    assert(all.last().name == "information_schema.columns"@);
    assert(all.drop_last().last().name == "information_schema.tables"@);
    reveal_with_fuel(source_of, 3);
    let own = Seq::new(s.tables.len(), |k: int| stored_source(s, k));
    assert(all.drop_last().drop_last() =~= own);
    lemma_own_source(s, i, n);
    assert(own.take(n) =~= own);
}

proof fn lemma_own_source(s: StoreView, i: int, n: int)
    requires
        store_ok(s),
        0 <= i < n <= s.tables.len(),
    ensures
        source_of(Seq::new(s.tables.len(), |k: int| stored_source(s, k)).take(n), s.tables[i].name) == Some(stored_source(s, i).rel),
    decreases n,
{
    let own = Seq::new(s.tables.len(), |k: int| stored_source(s, k));
    let t = own.take(n);
    assert(t.last() == stored_source(s, n - 1));
    assert(t.drop_last() =~= own.take(n - 1));
    if i < n - 1 {
        assert(s.tables[i].name != s.tables[n - 1].name);
        lemma_own_source(s, i, n - 1);
    }
}

/// CREATE TABLE adds an empty table with the columns that it declares; where there is a table of the
/// name it fails. Nothing else changes.
pub proof fn law_create_table(run: Run, e: EngineView, q: CreateTableStmtView, txn: Option<u64>, c: int)
    ensures
        ({
            let r = ran(run, e, StatementView::CreateTable(q), txn);
            if table_names(e.store.tables).contains(q.name) {
                r.r is Err && r.e == e
            } else {
                let n = e.store.tables.len() as int;
                let t = r.e.store.tables[n];
                &&& r.r is Ok
                &&& r.e == (EngineView { store: r.e.store, ..e })
                &&& r.e.store.tables == e.store.tables.push(t)
                &&& r.e.store.rows == e.store.rows.push(Seq::empty())
                &&& t.name == q.name
                &&& t.keys.len() == 0 && t.indexes.len() == 0 && t.next_rowid == 1
                &&& t.columns.len() == q.columns.len() == t.seqs.len()
                &&& 0 <= c < q.columns.len() ==> {
                    &&& t.columns[c].name == q.columns[c].name
                    &&& t.columns[c].data_type == q.columns[c].data_type
                    &&& t.columns[c].nullable == q.columns[c].nullable
                    &&& t.columns[c].primary_key == q.columns[c].primary_key
                    &&& t.columns[c].unique == q.columns[c].unique
                    &&& t.columns[c].auto_increment == q.columns[c].auto_increment
                    &&& t.columns[c].max_length == q.columns[c].max_length
                    &&& t.columns[c].default is Some <==> q.columns[c].default is Some
                    &&& q.columns[c].default matches Some(ExprView::Literal(l)) ==> (!(l is HexBlob) ==> t.columns[c].default == Some(
                        super::eval::literal_value(run.m, l),
                    ))
                    &&& t.seqs[c] == 1
                    &&& q.columns[c].check is Some ==> t.checks.contains(q.columns[c].check->0)
                    &&& q.columns[c].references matches Some((table, column)) ==> t.fks.contains(
                        (ForeignKeyDefView {
                            columns: seq![q.columns[c].name],
                            ref_table: table,
                            ref_columns: seq![column],
                            on_delete: q.columns[c].on_delete,
                            on_update: q.columns[c].on_update,
                        }),
                    )
                }
            }
        }),
{
    lemma_named(table_names(e.store.tables), q.name);
    let t = super::ddl::declared_table(run.m, q);
    let r = ran(run, e, StatementView::CreateTable(q), txn);
    if !table_names(e.store.tables).contains(q.name) {
        assert(r.e.store.tables[e.store.tables.len() as int] == t);
    }
    if 0 <= c < q.columns.len() {
        assert(t.columns[c] == super::ddl::declared(run.m, q.columns[c]));
        assert(t.seqs[c] == 1);
        if q.columns[c].check is Some {
            lemma_checks(q.columns, q.check_constraints, c);
        }
        if let Some((table, column)) = q.columns[c].references {
            lemma_fks(q.columns, q.foreign_keys, c, table, column);
        }
    }
}

proof fn lemma_named(names: Seq<Seq<char>>, x: Seq<char>)
    ensures
        index_of(names, x) is Some <==> names.contains(x),
        index_of(names, x) matches Some(i) ==> 0 <= i < names.len() && names[i] == x,
    decreases names.len(),
{
    if names.len() > 0 {
        let d = names.drop_last();
        lemma_named(d, x);
        if names.contains(x) {
            let k = choose|k: int| 0 <= k < names.len() && names[k] == x;
            if k < d.len() {
                assert(d[k] == x);
            }
        }
        if d.contains(x) {
            let k = choose|k: int| 0 <= k < d.len() && d[k] == x;
            assert(names[k] == x);
        }
        if names.last() == x {
            assert(names[names.len() - 1] == x);
        }
    }
}

proof fn lemma_checks(c: Seq<crate::parser::ast::ColumnDefView>, own: Seq<ExprView>, i: int)
    requires
        0 <= i < c.len(),
        c[i].check is Some,
    ensures
        declared_checks(c, own).contains(c[i].check->0),
    decreases c.len(),
{
    let d = c.drop_last();
    let r = declared_checks(c, own);
    if i < d.len() {
        lemma_checks(d, own, i);
        let b = declared_checks(d, own);
        let k = choose|k: int| 0 <= k < b.len() && b[k] == d[i].check->0;
        assert(r[k] == c[i].check->0);
    } else {
        assert(r[r.len() - 1] == c[i].check->0);
    }
}

proof fn lemma_fks(c: Seq<crate::parser::ast::ColumnDefView>, own: Seq<crate::parser::ast::ForeignKeyDefView>, i: int, table: Seq<char>, column: Seq<char>)
    requires
        0 <= i < c.len(),
        c[i].references == Some((table, column)),
    ensures
        declared_fks(c, own).contains(super::ddl::column_fk(c[i], table, column)),
    decreases c.len(),
{
    let d = c.drop_last();
    let r = declared_fks(c, own);
    if i < d.len() {
        lemma_fks(d, own, i, table, column);
        let b = declared_fks(d, own);
        let k = choose|k: int| 0 <= k < b.len() && b[k] == super::ddl::column_fk(d[i], table, column);
        assert(r[k] == b[k]);
    } else {
        assert(r[r.len() - 1] == super::ddl::column_fk(c[i], table, column));
    }
}

/// DROP TABLE takes a table away with its rows, and leaves the others in their order; where there is
/// no such table it fails, unless it says IF EXISTS.
pub proof fn law_drop_table(run: Run, e: EngineView, q: DropTableStmtView, txn: Option<u64>)
    requires
        store_ok(e.store),
    ensures
        ({
            let r = ran(run, e, StatementView::DropTable(q), txn);
            match table_index(e.store, q.name) {
                Some(i) => {
                    &&& r.r is Ok
                    &&& e.store.tables[i].name == q.name
                    &&& r.e.store.tables == e.store.tables.remove(i)
                    &&& r.e.store.rows == e.store.rows.remove(i)
                    &&& !table_names(r.e.store.tables).contains(q.name)
                },
                None => r.e == e && (r.r is Ok <==> q.if_exists),
            }
        }),
{
    lemma_named(table_names(e.store.tables), q.name);
    if let Some(i) = table_index(e.store, q.name) {
        let left = e.store.tables.remove(i);
        if table_names(left).contains(q.name) {
            let k = choose|k: int| 0 <= k < table_names(left).len() && table_names(left)[k] == q.name;
            let j = if k < i {
                k
            } else {
                k + 1
            };
            assert(left[k] == e.store.tables[j]);
            if j < i {
                assert(e.store.tables[j].name != e.store.tables[i].name);
            } else {
                assert(e.store.tables[i].name != e.store.tables[j].name);
            }
        }
    }
}

/// TRUNCATE takes all rows out of a table and leaves everything else.
pub proof fn law_truncate(run: Run, e: EngineView, t: Seq<char>, txn: Option<u64>)
    ensures
        ({
            let r = ran(run, e, StatementView::Truncate(t), txn);
            match table_index(e.store, t) {
                Some(i) => {
                    &&& r.r is Ok
                    &&& r.e.store.rows == e.store.rows.update(i, Seq::empty())
                    &&& r.e.store.tables == e.store.tables.update(i, TableView { keys: Seq::empty(), ..e.store.tables[i] })
                    &&& r.e == (EngineView { store: r.e.store, ..e })
                },
                None => r.r is Err && r.e == e,
            }
        }),
{
}

/// ALTER TABLE adds a column behind the others, takes one out that is no part of the primary key, or
/// gives one another name; rows and other tables stay as they are.
pub proof fn law_alter_table(run: Run, e: EngineView, q: AlterTableStmtView, txn: Option<u64>, i: int)
    requires
        table_index(e.store, q.table) == Some(i),
    ensures
        ({
            let r = ran(run, e, StatementView::AlterTable(q), txn);
            let t = e.store.tables[i];
            let u = r.e.store.tables[i];
            let names = column_names(t.columns);
            &&& r.e.store.rows == e.store.rows
            &&& r.r is Err ==> r.e == e
            &&& r.r is Ok ==> r.e.store.tables == e.store.tables.update(i, u) && u.name == t.name && u.keys == t.keys && u.checks == t.checks
            &&& q.action matches AlterTableActionView::AddColumn(c) ==> r.r is Ok && column_names(u.columns) == names.push(c.name)
                && u.columns.take(t.columns.len() as int) == t.columns && u.columns.last().data_type == c.data_type
                && u.columns.last().nullable == c.nullable
            &&& q.action matches AlterTableActionView::DropColumn(n) ==> {
                &&& r.r is Ok <==> (names.contains(n) && !t.columns[index_of(names, n)->0].primary_key)
                &&& r.r is Ok ==> u.columns == t.columns.remove(index_of(names, n)->0) && u.seqs == t.seqs.remove(index_of(names, n)->0)
            }
            &&& q.action matches AlterTableActionView::RenameColumn { old_name, new_name } ==> {
                &&& r.r is Ok <==> names.contains(old_name)
                &&& r.r is Ok ==> column_names(u.columns) == names.update(index_of(names, old_name)->0, new_name)
            }
        }),
{
    lemma_index_range(table_names(e.store.tables), q.table);
    let t = e.store.tables[i];
    let names = column_names(t.columns);
    let u = ran(run, e, StatementView::AlterTable(q), txn).e.store.tables[i];
    match q.action {
        AlterTableActionView::AddColumn(c) => {
            assert(column_names(u.columns) =~= names.push(c.name));
            assert(u.columns.take(t.columns.len() as int) =~= t.columns);
        },
        AlterTableActionView::DropColumn(n) => {
            lemma_named(names, n);
        },
        AlterTableActionView::RenameColumn { old_name, new_name } => {
            lemma_named(names, old_name);
            if names.contains(old_name) {
                assert(column_names(u.columns) =~= names.update(index_of(names, old_name)->0, new_name));
            }
        },
    }
}

/// Two rows under different keys that agree in a column, not null.
pub open spec fn doubled(t: TableView, rows: Seq<Seq<ValueView>>, c: int) -> bool {
    exists|a: int, b: int|
        0 <= a < rows.len() && 0 <= b < rows.len() && t.keys[a] != t.keys[b] && #[trigger] rows[a][c] == #[trigger] rows[b][c] && !(
        rows[a][c] is Null)
}

/// CREATE INDEX over a column notes the index where the column is there and the name is free; a
/// unique one only where no two rows agree in the column.
pub proof fn law_create_index(run: Run, e: EngineView, q: CreateIndexStmtView, txn: Option<u64>, i: int, c: int)
    requires
        table_index(e.store, q.table) == Some(i),
        column_names(e.store.tables[i].columns).no_duplicates(),
        0 <= c < e.store.tables[i].columns.len() <= usize::MAX,
        q.columns == seq![e.store.tables[i].columns[c].name],
        forall|j: int| 0 <= j < e.store.rows[i].len() ==> c < (#[trigger] e.store.rows[i][j]).len(),
    ensures
        ({
            let r = ran(run, e, StatementView::CreateIndex(q), txn);
            let t = e.store.tables[i];
            let u = r.e.store.tables[i];
            let free = forall|k: int| 0 <= k < t.indexes.len() ==> (#[trigger] t.indexes[k]).name != q.name;
            &&& r.r is Ok <==> free && !(q.unique && doubled(t, e.store.rows[i], c))
            &&& r.r is Err ==> r.e == e
            &&& r.r is Ok ==> r.e.store.rows == e.store.rows && u.indexes.len() == t.indexes.len() + 1 && u.indexes.last().name == q.name
                && u.indexes.last().unique == q.unique && u.indexes.last().columns == seq![c as usize] && u.columns == t.columns
                && u.indexes.drop_last() == t.indexes
        }),
{
    lemma_index_range(table_names(e.store.tables), q.table);
    let t = e.store.tables[i];
    let rows = e.store.rows[i];
    let names = column_names(t.columns);
    lemma_index_of(names, c);
    assert(q.columns.drop_last() =~= Seq::empty());
    reveal_with_fuel(places_of, 2);
    let at = places_of(names, q.columns);
    assert(at =~= seq![c]);
    assert forall|j: int| 0 <= j < rows.len() implies #[trigger] super::grouping::picked(rows[j], at) == seq![rows[j][c]] by {
        assert(c < rows[j].len());
        assert(super::grouping::picked(rows[j], at) =~= seq![rows[j][c]]);
    }
    assert(super::ddl::has_doubles(t.keys, rows, at) <==> doubled(t, rows, c)) by {
        if super::ddl::has_doubles(t.keys, rows, at) {
            let j = choose|j: int| 0 <= j < rows.len() && #[trigger] super::constraints::index_taken(t.keys, rows, at, rows[j], Some(t.keys[j]));
            let vals = super::grouping::picked(rows[j], at);
            let b = choose|b: int| 0 <= b < rows.len() && #[trigger] super::constraints::carries(rows[b], at, vals) && Some(t.keys[j]) != Some(t.keys[b]);
            assert(at[0] == c);
            assert(c < rows[b].len());
            assert(rows[b][c] == rows[j][c]);
            if rows[j][c] is Null {
                assert(vals[0] is Null);
                assert(super::constraints::holds_null(vals));
            }
        }
        if doubled(t, rows, c) {
            let (a, b) = choose|a: int, b: int|
                0 <= a < rows.len() && 0 <= b < rows.len() && t.keys[a] != t.keys[b] && #[trigger] rows[a][c] == #[trigger] rows[b][c] && !(
                rows[a][c] is Null);
            let vals = super::grouping::picked(rows[a], at);
            assert(vals == seq![rows[a][c]]);
            assert(!super::constraints::holds_null(vals)) by {
                if super::constraints::holds_null(vals) {
                    let k = choose|k: int| 0 <= k < vals.len() && #[trigger] vals[k] is Null;
                }
            }
            assert(c < rows[b].len());
            assert(super::constraints::carries(rows[b], at, vals)) by {
                assert forall|k: int| 0 <= k < at.len() implies k < vals.len() && super::scope::value_at(rows[b], Some(#[trigger] at[k])) == vals[k] by {}
            }
            assert(super::constraints::index_taken(t.keys, rows, at, rows[a], Some(t.keys[a])));
        }
    }
    assert(super::ddl::uints(at) =~= seq![c as usize]);
    if ran(run, e, StatementView::CreateIndex(q), txn).r is Ok {
        assert(ran(run, e, StatementView::CreateIndex(q), txn).e.store.tables[i].indexes.drop_last() =~= t.indexes);
    }
}

/// DROP INDEX takes an index of the name out of the first table that has one, and changes nothing
/// where none has.
pub proof fn law_drop_index(run: Run, e: EngineView, name: Seq<char>, txn: Option<u64>)
    ensures
        ({
            let r = ran(run, e, StatementView::DropIndex(name), txn);
            &&& r.r is Ok
            &&& r.e.store.rows == e.store.rows
            &&& (forall|i: int| 0 <= i < e.store.tables.len() ==> !has_index(#[trigger] e.store.tables[i], name)) ==> r.e.store == e.store
            &&& forall|i: int| #![trigger e.store.tables[i]]
                0 <= i < e.store.tables.len() && has_index(e.store.tables[i], name) && (forall|j: int|
                    0 <= j < i ==> !has_index(#[trigger] e.store.tables[j], name)) ==> !has_index(r.e.store.tables[i], name)
                    && r.e.store.tables[i].columns == e.store.tables[i].columns
        }),
{
    let t = e.store.tables;
    lemma_with_index(t, name);
    if let Some(i) = table_with_index(t, name) {
        lemma_indexes_but(t[i].indexes, name);
    }
}

proof fn lemma_with_index(t: Seq<TableView>, name: Seq<char>)
    ensures
        match table_with_index(t, name) {
            Some(i) => 0 <= i < t.len() && has_index(t[i], name) && forall|j: int| 0 <= j < i ==> !has_index(#[trigger] t[j], name),
            None => forall|j: int| 0 <= j < t.len() ==> !has_index(#[trigger] t[j], name),
        },
    decreases t.len(),
{
    if t.len() > 0 {
        lemma_with_index(t.drop_last(), name);
        assert(forall|j: int| 0 <= j < t.len() - 1 ==> #[trigger] t[j] == t.drop_last()[j]);
    }
}

proof fn lemma_indexes_but(x: Seq<super::table::TableIndexView>, name: Seq<char>)
    ensures
        forall|k: int| 0 <= k < indexes_but(x, name).len() ==> (#[trigger] indexes_but(x, name)[k]).name != name,
    decreases x.len(),
{
    if x.len() > 0 {
        lemma_indexes_but(x.drop_last(), name);
        let a = indexes_but(x.drop_last(), name);
        assert forall|k: int| 0 <= k < indexes_but(x, name).len() implies (#[trigger] indexes_but(x, name)[k]).name != name by {
            if k < a.len() {
                assert(indexes_but(x, name)[k] == a[k]);
            }
        }
    }
}

// ---- rows

/// INSERT, UPDATE and DELETE do what their work comes to, and answer with how many rows they put in,
/// changed or took away, or with those rows where they say RETURNING. One that fails answers with its
/// error.
pub proof fn law_rows_modified(run: Run, e: EngineView, s: StatementView, txn: Option<u64>)
    requires
        may_run(e, txn),
        s is Insert || s is Update || s is Delete,
    ensures
        ({
            let r = ran(run, e, s, txn);
            let v = read_store(e, txn);
            let (w, t, returning) = match s {
                StatementView::Insert(q) => (insert_work(informed(run, e), e.store, v, q), q.table, q.returning),
                StatementView::Update(q) => (update_work(informed(run, e), txn, e.store, v, q), q.table, q.returning),
                StatementView::Delete(q) => (delete_work(informed(run, e), txn, e.store, v, q), q.table, q.returning),
                _ => arbitrary(),
            };
            &&& r.e.store.rows == w.s.rows
            &&& r.e.store.tables == w.s.tables
            &&& w.err is Some ==> r.r == Err::<ResultView, ErrorView>(w.err->0)
            &&& w.err is None && returning is None ==> r.r == Ok::<ResultView, ErrorView>(ResultView::Modified(w.rows.len()))
            &&& w.err is None && returning == Some(seq![SelectColumnView::Star]) ==> r.r is Ok && r.r->Ok_0 is Rows
                && r.r->Ok_0->Rows_0.rows == w.rows
        }),
{
    assert(seq![SelectColumnView::Star][0] is Star);
}

/// RETURNING of columns gives for each row that a statement was about the values of those columns.
pub proof fn law_returning(env: super::scope::Env, n: super::scope::NamesView, rows: Seq<Seq<ValueView>>, names: Seq<Seq<char>>, i: int, j: int, c: int)
    requires
        n.columns.no_duplicates(),
        0 <= i < rows.len(),
        0 <= j < names.len(),
        0 <= c < n.columns.len() == rows[i].len(),
        n.columns[c] == names[j],
    ensures
        ({
            let r = returned(env, n, rows, Seq::new(names.len(), |k: int| SelectColumnView::Expr(ExprView::Column(names[k]), None)));
            &&& r.columns == names
            &&& r.rows.len() == rows.len()
            &&& r.rows[i][j] == rows[i][c]
        }),
{
    lemma_index_of(n.columns, c);
    let cols = Seq::new(names.len(), |k: int| SelectColumnView::Expr(ExprView::Column(names[k]), None));
    assert(!(cols[0] is Star));
    assert(returned(env, n, rows, cols).columns =~= names);
}

/// A SELECT gives the rows of its query over what is read, and changes nothing.
pub proof fn law_select_statement(run: Run, e: EngineView, q: SelectStmtView, txn: Option<u64>)
    requires
        may_read(run, e, q, txn),
    ensures
        ({
            let r = ran(run, e, StatementView::Select(q), txn);
            let out = select_rel(run.m, informed(run, e).known, sources_of(read_store(e, txn)), Seq::empty(), q, run.depth);
            &&& r.e == e
            &&& out is Ok ==> r.r == Ok::<ResultView, ErrorView>(ResultView::Rows(out->Ok_0))
            &&& out is Err ==> r.r == Err::<ResultView, ErrorView>(out->Err_0)
        }),
{
}

// ---- what is told of tables

/// SHOW TABLES lists the names of the tables, and SHOW DATABASES those of the databases.
pub proof fn law_show_names(run: Run, e: EngineView, txn: Option<u64>, i: int)
    ensures
        ({
            let r = ran(run, e, StatementView::ShowTables, txn);
            let d = ran(run, e, StatementView::ShowDatabases, txn);
            &&& r.e == e && d.e == e
            &&& r.r is Ok && r.r->Ok_0 is Rows && d.r is Ok && d.r->Ok_0 is Rows
            &&& r.r->Ok_0->Rows_0.rows.len() == e.store.tables.len()
            &&& d.r->Ok_0->Rows_0.rows.len() == e.databases.len()
            &&& 0 <= i < e.store.tables.len() ==> r.r->Ok_0->Rows_0.rows[i] == seq![ValueView::Text(e.store.tables[i].name)]
            &&& 0 <= i < e.databases.len() ==> d.r->Ok_0->Rows_0.rows[i] == seq![ValueView::Text(e.databases[i])]
        }),
{
}

/// DESCRIBE and SHOW COLUMNS tell of each column its name, its type, whether it may be null and
/// whether it belongs to the primary key.
#[verifier::spinoff_prover]
pub proof fn law_describe(run: Run, e: EngineView, t: Seq<char>, txn: Option<u64>, i: int, c: int)
    requires
        table_index(e.store, t) == Some(i),
        0 <= c < e.store.tables[i].columns.len(),
    ensures
        ({
            let r = ran(run, e, StatementView::Describe(t), txn);
            let col = e.store.tables[i].columns[c];
            &&& r == ran(run, e, StatementView::ShowColumns(t), txn)
            &&& r.e == e
            &&& r.r is Ok && r.r->Ok_0 is Rows
            &&& r.r->Ok_0->Rows_0.columns == seq!["name"@, "type"@, "nullable"@, "primary_key"@]
            &&& r.r->Ok_0->Rows_0.rows.len() == e.store.tables[i].columns.len()
            &&& r.r->Ok_0->Rows_0.rows[c] == seq![
                ValueView::Text(col.name),
                ValueView::Text(super::store::type_text(col.data_type)),
                ValueView::Bool(col.nullable),
                ValueView::Bool(col.primary_key),
            ]
        }),
{
    let u = e.store.tables[i];
    let d = super::show::described(u);
    assert(ran(run, e, StatementView::Describe(t), txn) == (Ran { e, r: Ok(ResultView::Rows(d)) }));
    assert(ran(run, e, StatementView::ShowColumns(t), txn) == (Ran { e, r: Ok(ResultView::Rows(d)) }));
    assert(d.rows[c] == super::show::describe_row(u.columns[c]));
}

/// A statement about a table that is not there fails and changes nothing.
pub proof fn law_missing_table(run: Run, e: EngineView, t: Seq<char>, txn: Option<u64>)
    requires
        table_index(e.store, t) is None,
    ensures
        ran(run, e, StatementView::Describe(t), txn).r is Err && ran(run, e, StatementView::Describe(t), txn).e == e,
        ran(run, e, StatementView::ShowCreateTable(t), txn).r is Err && ran(run, e, StatementView::ShowCreateTable(t), txn).e == e,
        ran(run, e, StatementView::Truncate(t), txn).r is Err && ran(run, e, StatementView::Truncate(t), txn).e == e,
        ran(run, e, StatementView::Analyze(Some(t)), txn).r is Err && ran(run, e, StatementView::Analyze(Some(t)), txn).e == e,
{
}

// ---- databases

/// CREATE DATABASE adds a name that is not there yet; one that is there makes it fail unless it says
/// IF NOT EXISTS. The tables stay.
pub proof fn law_create_database(run: Run, e: EngineView, name: Seq<char>, if_not_exists: bool, txn: Option<u64>)
    ensures
        ({
            let r = ran(run, e, StatementView::CreateDatabase { name, if_not_exists }, txn);
            if e.databases.contains(name) {
                r.e == e && (r.r is Ok <==> if_not_exists)
            } else {
                &&& r.r is Ok
                &&& r.e == (EngineView { databases: r.e.databases, ..e })
                &&& r.e.databases.contains(name)
                &&& r.e.databases.len() == e.databases.len() + 1
                &&& forall|d: Seq<char>| e.databases.contains(d) ==> #[trigger] r.e.databases.contains(d)
            }
        }),
{
    lemma_named(e.databases, name);
    lemma_with_name(e.databases, name);
}

proof fn lemma_with_name(s: Seq<Seq<char>>, n: Seq<char>)
    ensures
        super::show::with_name(s, n).len() == s.len() + 1,
        super::show::with_name(s, n).contains(n),
        forall|d: Seq<char>| s.contains(d) ==> #[trigger] super::show::with_name(s, n).contains(d),
    decreases s.len(),
{
    let r = super::show::with_name(s, n);
    if s.len() == 0 {
        assert(r[0] == n);
    } else if super::show::name_order(s.last(), n) == crate::value::Order::Greater {
        let b = s.drop_last();
        let w = super::show::with_name(b, n);
        lemma_with_name(b, n);
        assert(r.contains(n)) by {
            let k = choose|k: int| 0 <= k < w.len() && w[k] == n;
            assert(r[k] == n);
        }
        assert forall|d: Seq<char>| s.contains(d) implies #[trigger] r.contains(d) by {
            let k = choose|k: int| 0 <= k < s.len() && s[k] == d;
            if k < b.len() {
                assert(b[k] == d);
                assert(w.contains(d));
                let x = choose|x: int| 0 <= x < w.len() && w[x] == d;
                assert(r[x] == d);
            } else {
                assert(r[w.len() as int] == d);
            }
        }
    } else {
        assert(r[s.len() as int] == n);
        assert forall|d: Seq<char>| s.contains(d) implies #[trigger] r.contains(d) by {
            let k = choose|k: int| 0 <= k < s.len() && s[k] == d;
            assert(r[k] == d);
        }
    }
}

/// DROP DATABASE refuses the one in use; it takes any other away, and one that is not there makes it
/// fail unless it says IF EXISTS.
pub proof fn law_drop_database(run: Run, e: EngineView, name: Seq<char>, if_exists: bool, txn: Option<u64>)
    ensures
        ({
            let r = ran(run, e, StatementView::DropDatabase { name, if_exists }, txn);
            &&& r.e.store == e.store && r.e.current_db == e.current_db
            &&& name == e.current_db ==> r.r is Err && r.e == e
            &&& name != e.current_db && !e.databases.contains(name) ==> r.e == e && (r.r is Ok <==> if_exists)
            &&& name != e.current_db && e.databases.contains(name) ==> r.r is Ok && r.e.databases.len() == e.databases.len() - 1 && (
            e.databases.no_duplicates() ==> !r.e.databases.contains(name))
        }),
{
    lemma_named(e.databases, name);
    if let Some(i) = index_of(e.databases, name) {
        let left = e.databases.remove(i);
        if e.databases.no_duplicates() && left.contains(name) {
            let k = choose|k: int| 0 <= k < left.len() && left[k] == name;
            let j = if k < i {
                k
            } else {
                k + 1
            };
            assert(e.databases[j] == name);
        }
    }
}

/// USE puts the tables of the database in use aside and brings those of the other: none where it has
/// never been used. Going there and back brings the same tables.
pub proof fn law_use_database(run: Run, e: EngineView, name: Seq<char>, txn: Option<u64>)
    requires
        e.databases.contains(name),
        e.databases.contains(e.current_db),
        name != e.current_db,
        !super::engine::shelf_names(e.shelved).contains(e.current_db),
    ensures
        ({
            let there = ran(run, e, StatementView::UseDatabase(name), txn);
            let back = ran(run, there.e, StatementView::UseDatabase(e.current_db), txn);
            &&& there.r is Ok && there.e.current_db == name
            &&& !super::engine::shelf_names(e.shelved).contains(name) ==> there.e.store.tables.len() == 0
            &&& back.r is Ok && back.e.current_db == e.current_db
            &&& back.e.store == e.store
        }),
{
    lemma_named(e.databases, name);
    lemma_named(e.databases, e.current_db);
    let names = super::engine::shelf_names(e.shelved);
    lemma_named(names, name);
    let there = ran(run, e, StatementView::UseDatabase(name), txn).e;
    let left = super::engine::shelf_names(there.shelved);
    lemma_named(left, e.current_db);
    let full = e.shelved.push((e.current_db, e.store));
    let last = there.shelved.len() - 1;
    assert(there.shelved[last] == (e.current_db, e.store)) by {
        if let Some(i) = index_of(names, name) {
            assert(full.remove(i)[last] == full[last + 1]);
        }
    }
    assert(left[last] == e.current_db);
    assert forall|k: int| 0 <= k < last implies #[trigger] left[k] != e.current_db by {
        if let Some(i) = index_of(names, name) {
            let j = if k < i {
                k
            } else {
                k + 1
            };
            assert(there.shelved[k] == full[j]);
            assert(j < e.shelved.len());
            assert(names[j] == there.shelved[k].0);
            assert(names.contains(names[j]));
        } else {
            assert(names[k] == left[k]);
            assert(names.contains(names[k]));
        }
    }
    lemma_last_only(left, e.current_db);
}

proof fn lemma_last_only(s: Seq<Seq<char>>, x: Seq<char>)
    requires
        s.len() > 0,
        s.last() == x,
        forall|k: int| 0 <= k < s.len() - 1 ==> #[trigger] s[k] != x,
    ensures
        index_of(s, x) == Some(s.len() - 1),
{
    let d = s.drop_last();
    assert forall|k: int| 0 <= k < d.len() implies #[trigger] d[k] != x by {
        assert(d[k] == s[k]);
    }
    lemma_index_absent(d, x);
}

// ---- transactions

/// BEGIN opens a transaction under a number that no other has, at the level that it names, or READ
/// COMMITTED where it names none; it changes no row.
pub proof fn law_begin(run: Run, e: EngineView, level: Option<IsolationLevel>, txn: Option<u64>)
    requires
        e.next_txn < u64::MAX,
        super::engine::txns_ok(e),
    ensures
        ({
            let r = ran(run, e, StatementView::Begin(level), txn);
            &&& r.r is Ok
            &&& r.e.store == e.store
            &&& r.e.txns.len() == e.txns.len() + 1
            &&& r.e.txns.last().id == e.next_txn
            &&& r.e.txns.last().snap == e.commits
            &&& r.e.txns.last().level == (match level {
                Some(l) => l,
                None => IsolationLevel::ReadCommitted,
            })
            &&& r.e.next_txn == e.next_txn + 1
            &&& forall|i: int| 0 <= i < e.txns.len() ==> (#[trigger] e.txns[i]).id != r.e.txns.last().id
        }),
{
}

/// COMMIT and ROLLBACK outside a transaction fail and change nothing.
pub proof fn law_no_transaction(run: Run, e: EngineView)
    ensures
        ran(run, e, StatementView::Commit, None).r is Err && ran(run, e, StatementView::Commit, None).e == e,
        ran(run, e, StatementView::Rollback, None).r is Err && ran(run, e, StatementView::Rollback, None).e == e,
{
}

/// EXPLAIN tells the plan of a statement without running it; EXPLAIN ANALYZE runs it.
pub proof fn law_explain(run: Run, e: EngineView, s: StatementView, txn: Option<u64>)
    ensures
        ran(run, e, StatementView::Explain(Box::new(s), false), txn).e == e,
        crate::planner::logical_plan::logical_of(s) is Ok ==> ran(run, e, StatementView::Explain(Box::new(s), true), txn).e == ran(run, e, s, txn).e,
        crate::planner::logical_plan::logical_of(s) is Ok && ran(run, e, s, txn).r is Err ==> ran(run, e, StatementView::Explain(Box::new(s), true), txn).r
            == ran(run, e, s, txn).r,
{
}

} // verus!
