use vstd::prelude::*;
use vstd::string::*;
use crate::error::{ErrorView, QueryError, column_missing, run_error, table_missing};
use crate::parser::ast::{AlterTableAction, AlterTableActionView, AlterTableStmt, AlterTableStmtView, ColumnDef, ColumnDefView, CreateIndexStmt, CreateIndexStmtView, CreateTableStmt, CreateTableStmtView, DropTableStmt, DropTableStmtView, Expr, ExprView, ForeignKeyDef, ForeignKeyDefView, LiteralValue, LiteralValueView};
use crate::parser::ast::{column_defs_at, column_defs_len, column_defs_view, dup_exprs, dup_foreign_key_defs, exprs_push, exprs_view, foreign_key_defs_empty, foreign_key_defs_push, foreign_key_defs_view};
use crate::text::{join3, text_is};
use crate::value::{Value, ValueView, names_view, rows_view, values_view};
use super::constraints::{find_places, index_taken, ints, is_index_taken, list_column_names, places_of};
use super::dml::{index_message, no_rows};
use super::eval::{eval_literal, literal_value};
use super::relation::Relation;
use super::rows::{Rows, well_kept};
use super::scope::{Source, find_index, index_of, sources_view};
use super::store::{Store, StoreView, column_names, describe, info_sources, rows_at_table, shapes, sources_of, stored_source, table_index, table_names, with_rows};
use super::table::{Column, ColumnView, Table, TableIndex, TableIndexView, TableView, columns_push, columns_view, table_indexes_push, table_indexes_view, tables_view};
use super::unit::{Ask, Reply, Unit, is_unit, model};

verus! {

// ---- tables in the store

proof fn lemma_absent_name(s: StoreView, name: Seq<char>)
    requires
        table_index(s, name) is None,
    ensures
        forall|i: int| 0 <= i < s.tables.len() ==> (#[trigger] s.tables[i]).name != name,
{
    lemma_not_found(table_names(s.tables), name);
    assert forall|i: int| 0 <= i < s.tables.len() implies (#[trigger] s.tables[i]).name != name by {
        assert(table_names(s.tables)[i] == s.tables[i].name);
    }
}

proof fn lemma_not_found(names: Seq<Seq<char>>, name: Seq<char>)
    requires
        index_of(names, name) is None,
    ensures
        forall|i: int| 0 <= i < names.len() ==> #[trigger] names[i] != name,
    decreases names.len(),
{
    if names.len() > 0 {
        lemma_not_found(names.drop_last(), name);
        assert forall|i: int| 0 <= i < names.len() implies #[trigger] names[i] != name by {
            if i < names.len() - 1 {
                assert(names.drop_last()[i] == names[i]);
            }
        }
    }
}

/// The store with one more table.
pub open spec fn with_table(s: StoreView, t: TableView) -> StoreView {
    StoreView { tables: s.tables.push(t), rows: s.rows.push(Seq::empty()), log: s.log }
}

/// The store without table `i`.
pub open spec fn without_table(s: StoreView, i: int) -> StoreView {
    StoreView { tables: s.tables.remove(i), rows: s.rows.remove(i), log: s.log }
}

/// The store with another table `i` over the same rows.
pub open spec fn with_other(s: StoreView, i: int, t: TableView) -> StoreView {
    StoreView { tables: s.tables.update(i, t), rows: s.rows, log: s.log }
}

fn append_sources(r: &mut Vec<Source>, more: Vec<Source>)
    ensures
        final(r)@ == old(r)@ + more@,
{
    let mut more = more;
    let ghost a = r@;
    let ghost b = more@;
    r.append(&mut more);
    assert(r@ =~= a + b);
}

impl Store {
    /// Adds a table without rows.
    pub fn add_table(&mut self, t: Table)
        requires
            old(self).wf(),
            table_index(old(self)@, t@.name) is None,
            t@.keys.len() == 0,
            t@.seqs.len() == t@.columns.len(),
        ensures
            final(self).wf(),
            final(self)@ == with_table(old(self)@, t@),
    {
        let ghost before = *self;
        let n: usize = self.tables.len();
        let source = Source {
            name: t.name.clone(),
            rel: Relation { columns: list_column_names(&t.columns), rows: no_rows() },
        };
        self.sources.truncate(n);
        self.sources.push(source);
        self.tables.push(t);
        append_sources(&mut self.sources, describe(&self.tables));
        proof {
            lemma_absent_name(before@, t@.name);
            let v = with_table(before@, t@);
            assert(self@.tables =~= v.tables);
            assert(self@.rows =~= v.rows);
            assert forall|j: int| 0 <= j < self@.tables.len() implies well_kept(#[trigger] rows_at_table(self@, j)) by {
                if j < n {
                    assert(well_kept(rows_at_table(before@, j)));
                }
            }
            assert forall|j: int| 0 <= j < self@.tables.len() implies (#[trigger] self@.tables[j]).seqs.len() == self@.tables[j].columns.len() by {
                if j < n {
                    assert(before@.tables[j].seqs.len() == before@.tables[j].columns.len());
                }
            }
            assert forall|x: int, y: int| 0 <= x < y < self@.tables.len() implies (#[trigger] self@.tables[x]).name != (#[trigger] self@.tables[y]).name by {
                assert(before@.tables[x].name == self@.tables[x].name);
                if y < n {
                    assert(before@.tables[y].name == self@.tables[y].name);
                }
            }
            assert forall|j: int| 0 <= j < self.sources@.len() implies #[trigger] sources_view(self.sources@)[j] == sources_of(self@)[j] by {
                if j < n {
                    assert(sources_view(before.sources@)[j] == sources_of(before@)[j]);
                    assert(sources_of(before@)[j] == stored_source(before@, j));
                    assert(sources_of(self@)[j] == stored_source(self@, j));
                } else if j == n {
                    assert(sources_of(self@)[j] == stored_source(self@, j));
                } else {
                    assert(sources_of(self@)[j] == info_sources(shapes(self@.tables))[j - n - 1]);
                }
            }
            assert(sources_view(self.sources@) =~= sources_of(self@));
        }
    }

    /// Takes table `i` away.
    pub fn remove_table(&mut self, i: usize)
        requires
            old(self).wf(),
            i < old(self).tables@.len(),
        ensures
            final(self).wf(),
            final(self)@ == without_table(old(self)@, i as int),
    {
        let ghost before = *self;
        let n: usize = self.tables.len();
        self.sources.truncate(n);
        self.tables.remove(i);
        self.sources.remove(i);
        append_sources(&mut self.sources, describe(&self.tables));
        proof {
            let v = without_table(before@, i as int);
            assert(self@.tables =~= v.tables);
            assert(self@.rows =~= v.rows);
            assert forall|j: int| 0 <= j < self@.tables.len() implies well_kept(#[trigger] rows_at_table(self@, j)) by {
                let k = if j < i {
                    j
                } else {
                    j + 1
                };
                assert(well_kept(rows_at_table(before@, k)));
            }
            assert forall|j: int| 0 <= j < self@.tables.len() implies (#[trigger] self@.tables[j]).seqs.len() == self@.tables[j].columns.len() by {
                let k = if j < i {
                    j
                } else {
                    j + 1
                };
                assert(before@.tables[k].seqs.len() == before@.tables[k].columns.len());
            }
            assert forall|x: int, y: int| 0 <= x < y < self@.tables.len() implies (#[trigger] self@.tables[x]).name != (#[trigger] self@.tables[y]).name by {
                let a = if x < i {
                    x
                } else {
                    x + 1
                };
                let b = if y < i {
                    y
                } else {
                    y + 1
                };
                assert(before@.tables[a].name != before@.tables[b].name);
            }
            assert forall|j: int| 0 <= j < self.sources@.len() implies #[trigger] sources_view(self.sources@)[j] == sources_of(self@)[j] by {
                if j < n - 1 {
                    let k = if j < i {
                        j
                    } else {
                        j + 1
                    };
                    assert(sources_view(before.sources@)[k] == sources_of(before@)[k]);
                    assert(sources_of(before@)[k] == stored_source(before@, k));
                    assert(sources_of(self@)[j] == stored_source(self@, j));
                } else {
                    assert(sources_of(self@)[j] == info_sources(shapes(self@.tables))[j - (n - 1)]);
                }
            }
            assert(sources_view(self.sources@) =~= sources_of(self@));
        }
    }

    /// Puts another table in the place of table `i`, over the same rows.
    pub fn replace_table(&mut self, i: usize, t: Table)
        requires
            old(self).wf(),
            i < old(self).tables@.len(),
            t@.name == old(self).tables@[i as int]@.name,
            t@.keys == old(self).tables@[i as int]@.keys,
            t@.seqs.len() == t@.columns.len(),
        ensures
            final(self).wf(),
            final(self)@ == with_other(old(self)@, i as int, t@),
    {
        let ghost before = *self;
        let n: usize = self.tables.len();
        self.sources.truncate(n);
        let s = self.sources.remove(i);
        let source = Source {
            name: t.name.clone(),
            rel: Relation { columns: list_column_names(&t.columns), rows: s.rel.rows },
        };
        self.sources.insert(i, source);
        self.tables.set(i, t);
        append_sources(&mut self.sources, describe(&self.tables));
        proof {
            let v = with_other(before@, i as int, t@);
            assert(self@.tables =~= v.tables);
            assert(self@.rows =~= v.rows);
            assert forall|j: int| 0 <= j < self@.tables.len() implies well_kept(#[trigger] rows_at_table(self@, j)) by {
                assert(well_kept(rows_at_table(before@, j)));
            }
            assert forall|j: int| 0 <= j < self@.tables.len() implies (#[trigger] self@.tables[j]).seqs.len() == self@.tables[j].columns.len() by {
                assert(before@.tables[j].seqs.len() == before@.tables[j].columns.len());
            }
            assert forall|x: int, y: int| 0 <= x < y < self@.tables.len() implies (#[trigger] self@.tables[x]).name != (#[trigger] self@.tables[y]).name by {
                assert(before@.tables[x].name != before@.tables[y].name);
            }
            assert forall|j: int| 0 <= j < self.sources@.len() implies #[trigger] sources_view(self.sources@)[j] == sources_of(self@)[j] by {
                if j < n {
                    assert(sources_view(before.sources@)[j] == sources_of(before@)[j]);
                    assert(sources_of(before@)[j] == stored_source(before@, j));
                    assert(sources_of(self@)[j] == stored_source(self@, j));
                } else {
                    assert(sources_of(self@)[j] == info_sources(shapes(self@.tables))[j - n]);
                }
            }
            assert(sources_view(self.sources@) =~= sources_of(self@));
        }
    }

    /// Takes the rows of table `i` away.
    pub fn clear_rows(&mut self, i: usize)
        requires
            old(self).wf(),
            i < old(self).tables@.len(),
        ensures
            final(self).wf(),
            final(self)@ == with_rows(old(self)@, i as int, Rows { keys: Seq::empty(), rows: Seq::empty() }),
    {
        let ghost before = *self;
        let mut t = self.tables.remove(i);
        let mut s = self.sources.remove(i);
        t.keys = no_rows();
        s.rel.rows = no_rows();
        self.tables.insert(i, t);
        self.sources.insert(i, s);
        proof {
            assert(before@.tables[i as int] == before.tables@[i as int]@);
            assert(before@.tables[i as int].seqs.len() == before@.tables[i as int].columns.len());
            super::store::lemma_table_changed(before, *self, i as int, Rows { keys: Seq::empty(), rows: Seq::empty() });
        }
    }
}

// ---- CREATE TABLE

/// The value of a constant that a column declaration gives as its default; anything else counts as
/// null.
pub open spec fn simple_value(m: Unit, e: ExprView) -> ValueView {
    match e {
        ExprView::Literal(LiteralValueView::HexBlob(_)) => ValueView::Null,
        ExprView::Literal(l) => literal_value(m, l),
        _ => ValueView::Null,
    }
}

pub fn eval_expr_simple<U: Fn(Ask) -> Reply>(u: &U, e: &Expr) -> (r: Value)
    requires
        is_unit(u),
    ensures
        r@ == simple_value(model(u), e@),
{
    proof {
        (*e).unfold();
    }
    match e {
        Expr::Literal(LiteralValue::HexBlob(_)) => Value::Null,
        Expr::Literal(l) => eval_literal(u, l),
        _ => Value::Null,
    }
}

/// A column as its declaration says.
pub open spec fn declared(m: Unit, c: ColumnDefView) -> ColumnView {
    ColumnView {
        name: c.name,
        data_type: c.data_type,
        nullable: c.nullable,
        primary_key: c.primary_key,
        unique: c.unique,
        auto_increment: c.auto_increment,
        default: match c.default {
            Some(e) => Some(simple_value(m, e)),
            None => None,
        },
        max_length: c.max_length,
    }
}

fn declare<U: Fn(Ask) -> Reply>(u: &U, c: &ColumnDef) -> (r: Column)
    requires
        is_unit(u),
    ensures
        r@ == declared(model(u), c@),
{
    proof {
        (*c).unfold();
    }
    let default = match &c.default {
        Some(e) => Some(eval_expr_simple(u, e)),
        None => None,
    };
    Column {
        name: c.name.clone(),
        data_type: c.data_type,
        nullable: c.nullable,
        primary_key: c.primary_key,
        unique: c.unique,
        auto_increment: c.auto_increment,
        default,
        max_length: c.max_length,
    }
}

pub open spec fn declared_all(m: Unit, c: Seq<ColumnDefView>) -> Seq<ColumnView> {
    Seq::new(c.len(), |i: int| declared(m, c[i]))
}

/// The conditions of a table: its own and those of its columns.
pub open spec fn declared_checks(c: Seq<ColumnDefView>, own: Seq<ExprView>) -> Seq<ExprView>
    decreases c.len(),
{
    if c.len() == 0 {
        own
    } else {
        match c.last().check {
            Some(e) => declared_checks(c.drop_last(), own).push(e),
            None => declared_checks(c.drop_last(), own),
        }
    }
}

pub open spec fn column_fk(c: ColumnDefView, t: Seq<char>, k: Seq<char>) -> ForeignKeyDefView {
    ForeignKeyDefView {
        columns: seq![c.name],
        ref_table: t,
        ref_columns: seq![k],
        on_delete: c.on_delete,
        on_update: c.on_update,
    }
}

/// The foreign keys of a table: its own and those of its columns.
pub open spec fn declared_fks(c: Seq<ColumnDefView>, own: Seq<ForeignKeyDefView>) -> Seq<ForeignKeyDefView>
    decreases c.len(),
{
    if c.len() == 0 {
        own
    } else {
        match c.last().references {
            Some((t, k)) => declared_fks(c.drop_last(), own).push(column_fk(c.last(), t, k)),
            None => declared_fks(c.drop_last(), own),
        }
    }
}

pub open spec fn ones(n: nat) -> Seq<i64> {
    Seq::new(n, |i: int| 1i64)
}

/// The table that a CREATE TABLE makes.
pub open spec fn declared_table(m: Unit, q: CreateTableStmtView) -> TableView {
    TableView {
        name: q.name,
        columns: declared_all(m, q.columns),
        checks: declared_checks(q.columns, q.check_constraints),
        fks: declared_fks(q.columns, q.foreign_keys),
        indexes: Seq::empty(),
        seqs: ones(q.columns.len()),
        next_rowid: 1,
        keys: Seq::empty(),
    }
}

fn one_name(s: &String) -> (r: Vec<String>)
    ensures
        names_view(r@) == seq![s@],
{
    let mut r: Vec<String> = Vec::new();
    r.push(s.clone());
    assert(names_view(r@) =~= seq![s@]);
    r
}

fn make_table<U: Fn(Ask) -> Reply>(u: &U, q: &CreateTableStmt) -> (r: Table)
    requires
        is_unit(u),
    ensures
        r@ == declared_table(model(u), q@),
{
    let ghost m = model(u);
    let ghost all = column_defs_view(q.columns@);
    let mut columns: Vec<Column> = Vec::new();
    let mut checks = dup_exprs(&q.check_constraints);
    let mut fks = dup_foreign_key_defs(&q.foreign_keys);
    let mut seqs: Vec<i64> = Vec::new();
    let mut i: usize = 0;
    proof {
        broadcast use column_defs_len;

        (*q).unfold();
        assert(columns_view(columns@) =~= declared_all(m, all).take(0));
        assert(all.take(0).len() == 0);
        assert(seqs@ =~= ones(0));
    }
    while i < q.columns.len()
        invariant
            i <= q.columns.len(),
            is_unit(u),
            m == model(u),
            all == column_defs_view(q.columns@),
            all.len() == q.columns@.len(),
            columns_view(columns@) == declared_all(m, all).take(i as int),
            exprs_view(checks@) == declared_checks(all.take(i as int), q@.check_constraints),
            foreign_key_defs_view(fks@) == declared_fks(all.take(i as int), q@.foreign_keys),
            seqs@ == ones(i as nat),
        decreases q.columns.len() - i,
    {
        let d = &q.columns[i];
        let c = declare(u, d);
        proof {
            broadcast use column_defs_at;

            assert(all[i as int] == q.columns@[i as int]@);
            q.columns@[i as int].unfold();
            assert(all.take(i + 1).drop_last() =~= all.take(i as int));
            assert(all.take(i + 1).last() == all[i as int]);
            columns_push(columns@, c);
            assert(declared_all(m, all)[i as int] == c@);
            assert(declared_all(m, all).take(i + 1) =~= declared_all(m, all).take(i as int).push(c@));
            assert(ones((i + 1) as nat) =~= ones(i as nat).push(1));
        }
        columns.push(c);
        seqs.push(1);
        match &d.check {
            Some(e) => {
                let e = e.dup();
                proof {
                    exprs_push(checks@, e);
                }
                checks.push(e);
            },
            None => {},
        }
        match &d.references {
            Some((t, k)) => {
                let fk = ForeignKeyDef {
                    columns: one_name(&d.name),
                    ref_table: t.clone(),
                    ref_columns: one_name(k),
                    on_delete: d.on_delete,
                    on_update: d.on_update,
                };
                proof {
                    fk.unfold();
                    foreign_key_defs_push(fks@, fk);
                }
                fks.push(fk);
            },
            None => {},
        }
        i = i + 1;
    }
    let r = Table {
        name: q.name.clone(),
        columns,
        checks,
        fks,
        indexes: Vec::new(),
        seqs,
        next_rowid: 1,
        keys: no_rows(),
    };
    proof {
        assert(all.take(q.columns.len() as int) =~= all);
        assert(declared_all(m, all).take(q.columns.len() as int) =~= declared_all(m, all));
        assert(r@.indexes =~= Seq::empty());
    }
    r
}

/// What a statement that changes tables came to.
pub struct Shaped {
    pub s: StoreView,
    pub err: Option<ErrorView>,
}

/// CREATE TABLE: the name must be free.
pub open spec fn create_table_work(m: Unit, s: StoreView, q: CreateTableStmtView) -> Shaped {
    match table_index(s, q.name) {
        Some(_) => Shaped { s, err: Some(run_error("Table '"@ + q.name + "' already exists"@)) },
        None => Shaped { s: with_table(s, declared_table(m, q)), err: None },
    }
}

pub open spec fn unit_view(r: crate::error::Result<()>) -> Option<ErrorView> {
    match r {
        Ok(_) => None,
        Err(e) => Some(e@),
    }
}

pub fn exec_create_table<U: Fn(Ask) -> Reply>(u: &U, s: &mut Store, q: &CreateTableStmt) -> (r: crate::error::Result<()>)
    requires
        is_unit(u),
        old(s).wf(),
    ensures
        final(s).wf(),
        final(s)@.log == old(s)@.log,
        create_table_work(model(u), old(s)@, q@) == (Shaped { s: final(s)@, err: unit_view(r) }),
{
    proof {
        (*q).unfold();
    }
    match s.find(q.name.as_str()) {
        Some(_) => Err(QueryError::Execution(join3("Table '", q.name.as_str(), "' already exists"))),
        None => {
            let t = make_table(u, q);
            s.add_table(t);
            Ok(())
        },
    }
}

/// DROP TABLE: the table must be there unless the statement says otherwise.
pub open spec fn drop_table_work(s: StoreView, q: DropTableStmtView) -> Shaped {
    match table_index(s, q.name) {
        Some(i) => Shaped { s: without_table(s, i), err: None },
        None => Shaped {
            s,
            err: if q.if_exists {
                None
            } else {
                Some(run_error(table_missing(q.name)))
            },
        },
    }
}

pub fn exec_drop_table(s: &mut Store, q: &DropTableStmt) -> (r: crate::error::Result<bool>)
    requires
        old(s).wf(),
    ensures
        final(s).wf(),
        final(s)@.log == old(s)@.log,
        drop_table_work(old(s)@, q@) == (Shaped {
            s: final(s)@,
            err: match r {
                Ok(_) => None,
                Err(e) => Some(e@),
            },
        }),
        r matches Ok(found) ==> found == (table_index(old(s)@, q@.name) is Some),
{
    proof {
        (*q).unfold();
    }
    match s.find(q.name.as_str()) {
        Some(i) => {
            s.remove_table(i);
            Ok(true)
        },
        None => if q.if_exists {
            Ok(false)
        } else {
            Err(QueryError::no_table(q.name.as_str()))
        },
    }
}

// ---- indexes

pub open spec fn has_index(t: TableView, name: Seq<char>) -> bool {
    exists|i: int| 0 <= i < t.indexes.len() && (#[trigger] t.indexes[i]).name == name
}

fn is_index_of(t: &Table, name: &str) -> (r: bool)
    ensures
        r == has_index(t@, name@),
{
    let mut i: usize = 0;
    while i < t.indexes.len()
        invariant
            i <= t.indexes.len(),
            forall|j: int| 0 <= j < i ==> (#[trigger] t@.indexes[j]).name != name@,
        decreases t.indexes.len() - i,
    {
        assert(t@.indexes[i as int] == t.indexes@[i as int]@);
        if text_is(t.indexes[i].name.as_str(), name) {
            return true;
        }
        i = i + 1;
    }
    false
}

/// Whether two rows agree in all columns of an index and none of these is null.
pub open spec fn has_doubles(keys: Seq<Seq<ValueView>>, rows: Seq<Seq<ValueView>>, at: Seq<int>) -> bool {
    exists|j: int| 0 <= j < rows.len() && #[trigger] index_taken(keys, rows, at, rows[j], Some(keys[j]))
}

fn find_doubles(keys: &Vec<Vec<Value>>, rows: &Vec<Vec<Value>>, at: &Vec<usize>) -> (r: bool)
    requires
        keys@.len() == rows@.len(),
    ensures
        r == has_doubles(rows_view(keys@), rows_view(rows@), ints(at@)),
{
    let ghost ks = rows_view(keys@);
    let ghost rs = rows_view(rows@);
    let mut j: usize = 0;
    while j < rows.len()
        invariant
            j <= rows.len(),
            keys@.len() == rows@.len(),
            ks == rows_view(keys@),
            rs == rows_view(rows@),
            forall|k: int| 0 <= k < j ==> !#[trigger] index_taken(ks, rs, ints(at@), rs[k], Some(ks[k])),
        decreases rows.len() - j,
    {
        assert(rs[j as int] == values_view(rows@[j as int]@));
        assert(ks[j as int] == values_view(keys@[j as int]@));
        if is_index_taken(keys, rows, at, &rows[j], Some(&keys[j])) {
            return true;
        }
        j = j + 1;
    }
    false
}

pub open spec fn with_index(t: TableView, x: TableIndexView) -> TableView {
    TableView { indexes: t.indexes.push(x), ..t }
}

/// CREATE INDEX: the table and the columns must be there, the name must be free in the table, and
/// the rows must agree with a unique index.
pub open spec fn create_index_work(s: StoreView, q: CreateIndexStmtView) -> Shaped {
    match table_index(s, q.table) {
        None => Shaped { s, err: Some(run_error(table_missing(q.table))) },
        Some(i) => {
            let t = s.tables[i];
            let at = places_of(column_names(t.columns), q.columns);
            if has_index(t, q.name) {
                Shaped { s, err: Some(run_error("Index '"@ + q.name + "' already exists"@)) }
            } else if at.len() != q.columns.len() {
                Shaped { s, err: Some(run_error("indexed column not found"@)) }
            } else if q.unique && has_doubles(t.keys, s.rows[i], at) {
                Shaped { s, err: Some(run_error(index_message())) }
            } else {
                Shaped {
                    s: with_other(
                        s,
                        i,
                        with_index(
                            t,
                            TableIndexView { name: q.name, columns: uints(at), unique: q.unique },
                        ),
                    ),
                    err: None,
                }
            }
        },
    }
}

pub open spec fn uints(s: Seq<int>) -> Seq<usize> {
    Seq::new(s.len(), |i: int| s[i] as usize)
}

pub fn exec_create_index(s: &mut Store, q: &CreateIndexStmt) -> (r: crate::error::Result<()>)
    requires
        old(s).wf(),
    ensures
        final(s).wf(),
        final(s)@.log == old(s)@.log,
        create_index_work(old(s)@, q@) == (Shaped { s: final(s)@, err: unit_view(r) }),
{
    proof {
        (*q).unfold();
    }
    match s.find(q.table.as_str()) {
        None => Err(QueryError::no_table(q.table.as_str())),
        Some(i) => {
            proof {
                assert(s@.tables[i as int] == s.tables@[i as int]@);
                assert(well_kept(rows_at_table(s@, i as int)));
                assert(s@.tables[i as int].seqs.len() == s@.tables[i as int].columns.len());
            }
            if is_index_of(&s.tables[i], q.name.as_str()) {
                return Err(QueryError::Execution(join3("Index '", q.name.as_str(), "' already exists")));
            }
            let cols = list_column_names(&s.tables[i].columns);
            let at = find_places(&cols, &q.columns);
            assert(ints(at@).len() == at@.len());
            if at.len() != q.columns.len() {
                return Err(QueryError::Execution("indexed column not found".to_string()));
            }
            if q.unique && find_doubles(&s.tables[i].keys, &s.sources[i].rel.rows, &at) {
                return Err(QueryError::Execution("unique index violated".to_string()));
            }
            let mut t = s.tables[i].dup();
            proof {
                assert(uints(ints(at@)) =~= at@);
            }
            let x = TableIndex { name: q.name.clone(), columns: at, unique: q.unique };
            proof {
                table_indexes_push(t.indexes@, x);
            }
            t.indexes.push(x);
            s.replace_table(i, t);
            Ok(())
        },
    }
}

/// The first table that has an index of the name.
pub open spec fn table_with_index(t: Seq<TableView>, name: Seq<char>) -> Option<int>
    decreases t.len(),
{
    if t.len() == 0 {
        None
    } else {
        match table_with_index(t.drop_last(), name) {
            Some(i) => Some(i),
            None => if has_index(t.last(), name) {
                Some(t.len() - 1)
            } else {
                None
            },
        }
    }
}

pub open spec fn indexes_but(x: Seq<TableIndexView>, name: Seq<char>) -> Seq<TableIndexView>
    decreases x.len(),
{
    if x.len() == 0 {
        Seq::empty()
    } else if x.last().name == name {
        indexes_but(x.drop_last(), name)
    } else {
        indexes_but(x.drop_last(), name).push(x.last())
    }
}

/// DROP INDEX: takes it out of the first table that has it.
pub open spec fn drop_index_work(s: StoreView, name: Seq<char>) -> StoreView {
    match table_with_index(s.tables, name) {
        None => s,
        Some(i) => with_other(s, i, TableView { indexes: indexes_but(s.tables[i].indexes, name), ..s.tables[i] }),
    }
}

fn find_table_with_index(t: &Vec<Table>, name: &str) -> (r: Option<usize>)
    ensures
        (match r { Some(i) => Some(i as int), None => None }) == table_with_index(tables_view(t@), name@),
        r matches Some(i) ==> i < t@.len(),
{
    let ghost all = tables_view(t@);
    let mut r: Option<usize> = None;
    let mut i: usize = 0;
    assert(all.take(0).len() == 0);
    while i < t.len()
        invariant
            i <= t.len(),
            all == tables_view(t@),
            (match r { Some(i) => Some(i as int), None => None }) == table_with_index(all.take(i as int), name@),
            r matches Some(k) ==> k < t@.len(),
        decreases t.len() - i,
    {
        assert(all.take(i + 1).drop_last() =~= all.take(i as int));
        assert(all.take(i + 1).last() == t@[i as int]@);
        if r.is_none() && is_index_of(&t[i], name) {
            r = Some(i);
        }
        i = i + 1;
    }
    assert(all.take(t.len() as int) =~= all);
    r
}

fn keep_other_indexes(x: &Vec<TableIndex>, name: &str) -> (r: Vec<TableIndex>)
    ensures
        table_indexes_view(r@) == indexes_but(table_indexes_view(x@), name@),
{
    let ghost all = table_indexes_view(x@);
    let mut r: Vec<TableIndex> = Vec::new();
    let mut i: usize = 0;
    assert(all.take(0).len() == 0);
    assert(table_indexes_view(r@) =~= Seq::empty());
    while i < x.len()
        invariant
            i <= x.len(),
            all == table_indexes_view(x@),
            table_indexes_view(r@) == indexes_but(all.take(i as int), name@),
        decreases x.len() - i,
    {
        assert(all.take(i + 1).drop_last() =~= all.take(i as int));
        assert(all.take(i + 1).last() == x@[i as int]@);
        if !text_is(x[i].name.as_str(), name) {
            let e = x[i].dup();
            proof {
                table_indexes_push(r@, e);
            }
            r.push(e);
        }
        i = i + 1;
    }
    assert(all.take(x.len() as int) =~= all);
    r
}

/// Runs a DROP INDEX; says whether there was such an index.
pub fn exec_drop_index(s: &mut Store, name: &str) -> (r: bool)
    requires
        old(s).wf(),
    ensures
        final(s).wf(),
        final(s)@.log == old(s)@.log,
        final(s)@ == drop_index_work(old(s)@, name@),
        r == (table_with_index(old(s)@.tables, name@) is Some),
{
    match find_table_with_index(&s.tables, name) {
        None => false,
        Some(i) => {
            proof {
                assert(s@.tables[i as int] == s.tables@[i as int]@);
                assert(s@.tables[i as int].seqs.len() == s@.tables[i as int].columns.len());
            }
            let mut t = s.tables[i].dup();
            t.indexes = keep_other_indexes(&t.indexes, name);
            s.replace_table(i, t);
            true
        },
    }
}

// ---- ALTER TABLE

/// A column that ALTER TABLE adds: its name, type, length, and whether it is a key and may be
/// null.
pub open spec fn added(c: ColumnDefView) -> ColumnView {
    ColumnView {
        name: c.name,
        data_type: c.data_type,
        nullable: c.nullable,
        primary_key: c.primary_key,
        unique: false,
        auto_increment: false,
        default: None,
        max_length: c.max_length,
    }
}

pub open spec fn renamed(c: ColumnView, name: Seq<char>) -> ColumnView {
    ColumnView { name, auto_increment: false, ..c }
}

/// The table that an ALTER TABLE makes of one; the rows stay as they are, and foreign keys go. No
/// column of the primary key can be dropped.
pub open spec fn altered(t: TableView, a: AlterTableActionView) -> Option<TableView> {
    match a {
        AlterTableActionView::AddColumn(c) => Some(
            TableView { columns: t.columns.push(added(c)), seqs: t.seqs.push(1), fks: Seq::empty(), ..t },
        ),
        AlterTableActionView::DropColumn(name) => match index_of(column_names(t.columns), name) {
            None => None,
            Some(i) => if t.columns[i].primary_key {
                None
            } else {
                Some(
                    TableView {
                        columns: t.columns.remove(i),
                        seqs: t.seqs.remove(i),
                        fks: Seq::empty(),
                        indexes: Seq::empty(),
                        ..t
                    },
                )
            },
        },
        AlterTableActionView::RenameColumn { old_name, new_name } => match index_of(column_names(t.columns), old_name) {
            None => None,
            Some(i) => Some(
                TableView {
                    columns: t.columns.update(i, renamed(t.columns[i], new_name)),
                    fks: Seq::empty(),
                    indexes: Seq::empty(),
                    ..t
                },
            ),
        },
    }
}

/// Why a table cannot be altered.
pub open spec fn alter_message(t: TableView, a: AlterTableActionView) -> Seq<char> {
    match a {
        AlterTableActionView::AddColumn(_) => Seq::empty(),
        AlterTableActionView::DropColumn(name) => match index_of(column_names(t.columns), name) {
            None => column_missing(name),
            Some(_) => "Cannot drop primary key column"@,
        },
        AlterTableActionView::RenameColumn { old_name, new_name: _ } => column_missing(old_name),
    }
}

/// ALTER TABLE.
pub open spec fn alter_table_work(s: StoreView, q: AlterTableStmtView) -> Shaped {
    match table_index(s, q.table) {
        None => Shaped { s, err: Some(run_error(table_missing(q.table))) },
        Some(i) => match altered(s.tables[i], q.action) {
            None => Shaped { s, err: Some(run_error(alter_message(s.tables[i], q.action))) },
            Some(t) => Shaped { s: with_other(s, i, t), err: None },
        },
    }
}

fn no_fks() -> (r: Vec<ForeignKeyDef>)
    ensures
        foreign_key_defs_view(r@) == Seq::<ForeignKeyDefView>::empty(),
{
    proof {
        broadcast use foreign_key_defs_empty;

    }
    let r: Vec<ForeignKeyDef> = Vec::new();
    assert(r@ =~= Seq::empty());
    r
}

fn no_indexes() -> (r: Vec<TableIndex>)
    ensures
        table_indexes_view(r@) == Seq::<TableIndexView>::empty(),
{
    let r: Vec<TableIndex> = Vec::new();
    assert(table_indexes_view(r@) =~= Seq::empty());
    r
}

fn alter(t: &Table, a: &AlterTableAction) -> (r: crate::error::Result<Table>)
    requires
        t@.seqs.len() == t@.columns.len(),
    ensures
        match r {
            Ok(n) => altered(t@, a@) == Some(n@),
            Err(x) => altered(t@, a@) is None && x@ == run_error(alter_message(t@, a@)),
        },
        r matches Ok(n) ==> n@.seqs.len() == n@.columns.len() && n@.name == t@.name && n@.keys == t@.keys,
{
    let mut n = t.dup();
    let cols = list_column_names(&t.columns);
    let ghost c0 = n.columns@;
    proof {
        (*a).unfold();
        assert(columns_view(c0).len() == c0.len());
    }
    match a {
        AlterTableAction::AddColumn(d) => {
            proof {
                (*d).unfold();
            }
            let c = Column {
                name: d.name.clone(),
                data_type: d.data_type,
                nullable: d.nullable,
                primary_key: d.primary_key,
                unique: false,
                auto_increment: false,
                default: None,
                max_length: d.max_length,
            };
            proof {
                columns_push(n.columns@, c);
            }
            n.columns.push(c);
            n.seqs.push(1);
            n.fks = no_fks();
            Ok(n)
        },
        AlterTableAction::DropColumn(name) => match find_index(&cols, name.as_str()) {
            None => Err(QueryError::no_column(name.as_str())),
            Some(i) => {
                assert(t@.columns[i as int] == t.columns@[i as int]@);
                if t.columns[i].primary_key {
                    return Err(QueryError::Execution("Cannot drop primary key column".to_string()));
                }
                n.columns.remove(i);
                n.seqs.remove(i);
                assert(columns_view(n.columns@) =~= columns_view(c0).remove(i as int));
                n.fks = no_fks();
                n.indexes = no_indexes();
                Ok(n)
            },
        },
        AlterTableAction::RenameColumn { old_name, new_name } => match find_index(&cols, old_name.as_str()) {
            None => Err(QueryError::no_column(old_name.as_str())),
            Some(i) => {
                let mut c = n.columns[i].dup();
                c.name = new_name.clone();
                c.auto_increment = false;
                assert(columns_view(c0)[i as int] == c0[i as int]@);
                n.columns.set(i, c);
                assert(columns_view(n.columns@) =~= columns_view(c0).update(i as int, c@));
                n.fks = no_fks();
                n.indexes = no_indexes();
                Ok(n)
            },
        },
    }
}

/// Runs an ALTER TABLE.
pub fn exec_alter_table(s: &mut Store, q: &AlterTableStmt) -> (r: crate::error::Result<()>)
    requires
        old(s).wf(),
    ensures
        final(s).wf(),
        final(s)@.log == old(s)@.log,
        alter_table_work(old(s)@, q@) == (Shaped { s: final(s)@, err: unit_view(r) }),
{
    proof {
        (*q).unfold();
    }
    match s.find(q.table.as_str()) {
        None => Err(QueryError::no_table(q.table.as_str())),
        Some(i) => {
            proof {
                assert(s@.tables[i as int] == s.tables@[i as int]@);
                assert(s@.tables[i as int].seqs.len() == s@.tables[i as int].columns.len());
            }
            match alter(&s.tables[i], &q.action) {
                Err(x) => Err(x),
                Ok(t) => {
                    s.replace_table(i, t);
                    Ok(())
                },
            }
        },
    }
}

} // verus!
