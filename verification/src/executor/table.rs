use vstd::prelude::*;
use crate::parser::ast::{Expr, ExprView, ForeignKeyDef, ForeignKeyDefView};
use crate::parser::ast::{dup_exprs, dup_foreign_key_defs, exprs_view, foreign_key_defs_view};
use crate::value::{DataType, Value, ValueView, dup_rows, dup_values, rows_view, values_view};

verus! {

/// A column of a table.
#[derive(Debug)]
pub struct Column {
    pub name: String,
    pub data_type: DataType,
    pub nullable: bool,
    pub primary_key: bool,
    pub unique: bool,
    pub auto_increment: bool,
    pub default: Option<Value>,
    pub max_length: Option<usize>,
}

/// What contracts say about a `Column`.
pub struct ColumnView {
    pub name: Seq<char>,
    pub data_type: DataType,
    pub nullable: bool,
    pub primary_key: bool,
    pub unique: bool,
    pub auto_increment: bool,
    pub default: Option<ValueView>,
    pub max_length: Option<usize>,
}

impl Column {
    pub open spec fn view(&self) -> ColumnView
        decreases self,
    {
        ColumnView {
            name: self.name@,
            data_type: self.data_type,
            nullable: self.nullable,
            primary_key: self.primary_key,
            unique: self.unique,
            auto_increment: self.auto_increment,
            default: match self.default { Some(y) => Some(y@), None => None },
            max_length: self.max_length,
        }
    }

    /// A copy of the whole value.
    pub fn dup(&self) -> (r: Column)
        ensures
            r@ == self@,
        decreases self,
    {
        Column {
            name: self.name.clone(),
            data_type: self.data_type,
            nullable: self.nullable,
            primary_key: self.primary_key,
            unique: self.unique,
            auto_increment: self.auto_increment,
            default: match &self.default { Some(y) => Some(y.dup()), None => None },
            max_length: self.max_length,
        }
    }
}

impl Clone for Column {
    fn clone(&self) -> (r: Self)
        ensures
            r@ == self@,
    {
        self.dup()
    }
}

/// An index of a table over the columns at some places.
#[derive(Debug)]
pub struct TableIndex {
    pub name: String,
    pub columns: Vec<usize>,
    pub unique: bool,
}

/// What contracts say about a `TableIndex`.
pub struct TableIndexView {
    pub name: Seq<char>,
    pub columns: Seq<usize>,
    pub unique: bool,
}

impl TableIndex {
    pub open spec fn view(&self) -> TableIndexView
        decreases self,
    {
        TableIndexView {
            name: self.name@,
            columns: self.columns@,
            unique: self.unique,
        }
    }

    /// A copy of the whole value.
    pub fn dup(&self) -> (r: TableIndex)
        ensures
            r@ == self@,
        decreases self,
    {
        TableIndex {
            name: self.name.clone(),
            columns: crate::text::copy_vec(&self.columns),
            unique: self.unique,
        }
    }
}

impl Clone for TableIndex {
    fn clone(&self) -> (r: Self)
        ensures
            r@ == self@,
    {
        self.dup()
    }
}

/// A table without its rows: its columns and conditions, the next number of each counting
/// column and of rows without a key, and the keys of its rows.
#[derive(Debug)]
pub struct Table {
    pub name: String,
    pub columns: Vec<Column>,
    pub checks: Vec<Expr>,
    pub fks: Vec<ForeignKeyDef>,
    pub indexes: Vec<TableIndex>,
    pub seqs: Vec<i64>,
    pub next_rowid: i64,
    pub keys: Vec<Vec<Value>>,
}

/// What contracts say about a `Table`.
pub struct TableView {
    pub name: Seq<char>,
    pub columns: Seq<ColumnView>,
    pub checks: Seq<ExprView>,
    pub fks: Seq<ForeignKeyDefView>,
    pub indexes: Seq<TableIndexView>,
    pub seqs: Seq<i64>,
    pub next_rowid: i64,
    pub keys: Seq<Seq<ValueView>>,
}

impl Table {
    pub open spec fn view(&self) -> TableView
        decreases self,
    {
        TableView {
            name: self.name@,
            columns: columns_view(self.columns@),
            checks: exprs_view(self.checks@),
            fks: foreign_key_defs_view(self.fks@),
            indexes: table_indexes_view(self.indexes@),
            seqs: self.seqs@,
            next_rowid: self.next_rowid,
            keys: rows_view(self.keys@),
        }
    }

    /// A copy of the whole value.
    pub fn dup(&self) -> (r: Table)
        ensures
            r@ == self@,
        decreases self,
    {
        Table {
            name: self.name.clone(),
            columns: dup_columns(&self.columns),
            checks: dup_exprs(&self.checks),
            fks: dup_foreign_key_defs(&self.fks),
            indexes: dup_table_indexes(&self.indexes),
            seqs: crate::text::copy_vec(&self.seqs),
            next_rowid: self.next_rowid,
            keys: dup_rows(&self.keys),
        }
    }
}

impl Clone for Table {
    fn clone(&self) -> (r: Self)
        ensures
            r@ == self@,
    {
        self.dup()
    }
}

/// What happened to the row under a key: what it was and what it became.
#[derive(Debug)]
pub struct Change {
    pub table: String,
    pub key: Vec<Value>,
    pub before: Option<Vec<Value>>,
    pub after: Option<Vec<Value>>,
}

/// What contracts say about a `Change`.
pub struct ChangeView {
    pub table: Seq<char>,
    pub key: Seq<ValueView>,
    pub before: Option<Seq<ValueView>>,
    pub after: Option<Seq<ValueView>>,
}

impl Change {
    pub open spec fn view(&self) -> ChangeView
        decreases self,
    {
        ChangeView {
            table: self.table@,
            key: values_view(self.key@),
            before: match self.before { Some(y) => Some(values_view(y@)), None => None },
            after: match self.after { Some(y) => Some(values_view(y@)), None => None },
        }
    }

    /// A copy of the whole value.
    pub fn dup(&self) -> (r: Change)
        ensures
            r@ == self@,
        decreases self,
    {
        Change {
            table: self.table.clone(),
            key: dup_values(&self.key),
            before: match &self.before { Some(y) => Some(dup_values(y)), None => None },
            after: match &self.after { Some(y) => Some(dup_values(y)), None => None },
        }
    }
}

impl Clone for Change {
    fn clone(&self) -> (r: Self)
        ensures
            r@ == self@,
    {
        self.dup()
    }
}

/// The views of a sequence, item by item.
pub open spec fn columns_view(s: Seq<Column>) -> Seq<ColumnView>
    decreases s,
{
    Seq::new(s.len(), |i: int| if 0 <= i < s.len() { s[i]@ } else { arbitrary() })
}

pub broadcast proof fn columns_push(s: Seq<Column>, e: Column)
    ensures
        #[trigger] columns_view(s.push(e)) == columns_view(s).push(e@),
{
    assert(columns_view(s.push(e)) =~= columns_view(s).push(e@));
}

/// A copy of a list, item by item.
pub fn dup_columns(v: &Vec<Column>) -> (r: Vec<Column>)
    ensures
        columns_view(r@) == columns_view(v@),
    decreases v,
{
    let mut r: Vec<Column> = Vec::new();
    let mut i: usize = 0;
    while i < v.len()
        invariant
            i <= v.len(),
            columns_view(r@) == columns_view(v@).take(i as int),
        decreases v.len() - i,
    {
        let e = v[i].dup();
        proof {
            columns_push(r@, e);
            assert(columns_view(v@).take(i + 1) =~= columns_view(v@).take(i as int).push(v@[i as int]@));
        }
        r.push(e);
        i = i + 1;
    }
    assert(columns_view(v@).take(v@.len() as int) =~= columns_view(v@));
    r
}

/// The views of a sequence, item by item.
pub open spec fn table_indexes_view(s: Seq<TableIndex>) -> Seq<TableIndexView>
    decreases s,
{
    Seq::new(s.len(), |i: int| if 0 <= i < s.len() { s[i]@ } else { arbitrary() })
}

pub broadcast proof fn table_indexes_push(s: Seq<TableIndex>, e: TableIndex)
    ensures
        #[trigger] table_indexes_view(s.push(e)) == table_indexes_view(s).push(e@),
{
    assert(table_indexes_view(s.push(e)) =~= table_indexes_view(s).push(e@));
}

/// A copy of a list, item by item.
pub fn dup_table_indexes(v: &Vec<TableIndex>) -> (r: Vec<TableIndex>)
    ensures
        table_indexes_view(r@) == table_indexes_view(v@),
    decreases v,
{
    let mut r: Vec<TableIndex> = Vec::new();
    let mut i: usize = 0;
    while i < v.len()
        invariant
            i <= v.len(),
            table_indexes_view(r@) == table_indexes_view(v@).take(i as int),
        decreases v.len() - i,
    {
        let e = v[i].dup();
        proof {
            table_indexes_push(r@, e);
            assert(table_indexes_view(v@).take(i + 1) =~= table_indexes_view(v@).take(i as int).push(v@[i as int]@));
        }
        r.push(e);
        i = i + 1;
    }
    assert(table_indexes_view(v@).take(v@.len() as int) =~= table_indexes_view(v@));
    r
}

/// The views of a sequence, item by item.
pub open spec fn tables_view(s: Seq<Table>) -> Seq<TableView>
    decreases s,
{
    Seq::new(s.len(), |i: int| if 0 <= i < s.len() { s[i]@ } else { arbitrary() })
}

pub broadcast proof fn tables_push(s: Seq<Table>, e: Table)
    ensures
        #[trigger] tables_view(s.push(e)) == tables_view(s).push(e@),
{
    assert(tables_view(s.push(e)) =~= tables_view(s).push(e@));
}

/// A copy of a list, item by item.
pub fn dup_tables(v: &Vec<Table>) -> (r: Vec<Table>)
    ensures
        tables_view(r@) == tables_view(v@),
    decreases v,
{
    let mut r: Vec<Table> = Vec::new();
    let mut i: usize = 0;
    while i < v.len()
        invariant
            i <= v.len(),
            tables_view(r@) == tables_view(v@).take(i as int),
        decreases v.len() - i,
    {
        let e = v[i].dup();
        proof {
            tables_push(r@, e);
            assert(tables_view(v@).take(i + 1) =~= tables_view(v@).take(i as int).push(v@[i as int]@));
        }
        r.push(e);
        i = i + 1;
    }
    assert(tables_view(v@).take(v@.len() as int) =~= tables_view(v@));
    r
}

/// The views of a sequence, item by item.
pub open spec fn changes_view(s: Seq<Change>) -> Seq<ChangeView>
    decreases s,
{
    Seq::new(s.len(), |i: int| if 0 <= i < s.len() { s[i]@ } else { arbitrary() })
}

pub broadcast proof fn changes_push(s: Seq<Change>, e: Change)
    ensures
        #[trigger] changes_view(s.push(e)) == changes_view(s).push(e@),
{
    assert(changes_view(s.push(e)) =~= changes_view(s).push(e@));
}

/// A copy of a list, item by item.
pub fn dup_changes(v: &Vec<Change>) -> (r: Vec<Change>)
    ensures
        changes_view(r@) == changes_view(v@),
    decreases v,
{
    let mut r: Vec<Change> = Vec::new();
    let mut i: usize = 0;
    while i < v.len()
        invariant
            i <= v.len(),
            changes_view(r@) == changes_view(v@).take(i as int),
        decreases v.len() - i,
    {
        let e = v[i].dup();
        proof {
            changes_push(r@, e);
            assert(changes_view(v@).take(i + 1) =~= changes_view(v@).take(i as int).push(v@[i as int]@));
        }
        r.push(e);
        i = i + 1;
    }
    assert(changes_view(v@).take(v@.len() as int) =~= changes_view(v@));
    r
}

} // verus!
