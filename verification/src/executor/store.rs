use vstd::prelude::*;
use vstd::string::*;
use crate::text::text_is;
use crate::value::{DataType, Value, ValueView, dup_rows, dup_values, names_push, names_view, rows_push, rows_view, values_view};
use super::relation::{Relation, RelationView};
use super::rows::{Rows, del, del_row, get_row, law_del_keeps_order, law_put_keeps_order, law_restore_undoes_del, law_restore_undoes_put, put, put_row, restored, row_of, well_kept};
use super::scope::{Source, SourceView, index_of, sources_view};
use super::table::{Change, ChangeView, Column, ColumnView, Table, TableView, changes_push, changes_view, tables_view};

verus! {

/// Tables with their rows, and what happened to the rows since the log was last taken away. The
/// rows stand among the tables that queries read; behind them stand two that describe the tables.
#[derive(Debug)]
pub struct Store {
    pub tables: Vec<Table>,
    pub sources: Vec<Source>,
    pub log: Vec<Change>,
}

/// What contracts say about a `Store`.
pub struct StoreView {
    pub tables: Seq<TableView>,
    pub rows: Seq<Seq<Seq<ValueView>>>,
    pub log: Seq<ChangeView>,
}

pub open spec fn rows_at_table(s: StoreView, i: int) -> Rows {
    Rows { keys: s.tables[i].keys, rows: s.rows[i] }
}

/// Whether the tables have names of their own and their rows are well kept.
pub open spec fn store_ok(s: StoreView) -> bool {
    &&& s.rows.len() == s.tables.len()
    &&& forall|i: int| 0 <= i < s.tables.len() ==> well_kept(#[trigger] rows_at_table(s, i))
    &&& forall|i: int| 0 <= i < s.tables.len() ==> (#[trigger] s.tables[i]).seqs.len() == s.tables[i].columns.len()
    &&& forall|i: int, j: int| 0 <= i < j < s.tables.len() ==> (#[trigger] s.tables[i]).name != (#[trigger] s.tables[j]).name
}

pub open spec fn column_names(c: Seq<ColumnView>) -> Seq<Seq<char>> {
    Seq::new(c.len(), |i: int| c[i].name)
}

pub open spec fn shapes(t: Seq<TableView>) -> Seq<(Seq<char>, Seq<ColumnView>)> {
    Seq::new(t.len(), |i: int| (t[i].name, t[i].columns))
}

/// The name of a data type.
pub open spec fn type_text(t: DataType) -> Seq<char> {
    match t {
        DataType::Int64 => "Int64"@,
        DataType::Float64 => "Float64"@,
        DataType::Decimal => "Decimal"@,
        DataType::Text => "Text"@,
        DataType::Bool => "Bool"@,
        DataType::Bytes => "Bytes"@,
        DataType::Json => "Json"@,
        DataType::Timestamp => "Timestamp"@,
        DataType::Date => "Date"@,
        DataType::Uuid => "Uuid"@,
        DataType::Interval => "Interval"@,
    }
}

pub fn show_type(t: DataType) -> (r: String)
    ensures
        r@ == type_text(t),
{
    match t {
        DataType::Int64 => "Int64".to_string(),
        DataType::Float64 => "Float64".to_string(),
        DataType::Decimal => "Decimal".to_string(),
        DataType::Text => "Text".to_string(),
        DataType::Bool => "Bool".to_string(),
        DataType::Bytes => "Bytes".to_string(),
        DataType::Json => "Json".to_string(),
        DataType::Timestamp => "Timestamp".to_string(),
        DataType::Date => "Date".to_string(),
        DataType::Uuid => "Uuid".to_string(),
        DataType::Interval => "Interval".to_string(),
    }
}

pub open spec fn table_row(name: Seq<char>) -> Seq<ValueView> {
    seq![
        ValueView::Text("bytedb"@),
        ValueView::Text("public"@),
        ValueView::Text(name),
        ValueView::Text("BASE TABLE"@),
    ]
}

/// The rows of `information_schema.tables`.
pub open spec fn table_rows(s: Seq<(Seq<char>, Seq<ColumnView>)>) -> Seq<Seq<ValueView>> {
    Seq::new(s.len(), |i: int| table_row(s[i].0))
}

pub open spec fn column_row(name: Seq<char>, c: ColumnView, i: int) -> Seq<ValueView> {
    seq![
        ValueView::Text("bytedb"@),
        ValueView::Text("public"@),
        ValueView::Text(name),
        ValueView::Text(c.name),
        ValueView::Int64((i + 1) as i64),
        ValueView::Text(if c.nullable {
            "YES"@
        } else {
            "NO"@
        }),
        ValueView::Text(type_text(c.data_type)),
    ]
}

/// The rows of `information_schema.columns`.
pub open spec fn column_rows(s: Seq<(Seq<char>, Seq<ColumnView>)>) -> Seq<Seq<ValueView>>
    decreases s.len(),
{
    if s.len() == 0 {
        Seq::empty()
    } else {
        column_rows(s.drop_last()) + Seq::new(s.last().1.len(), |i: int| column_row(s.last().0, s.last().1[i], i))
    }
}

pub open spec fn tables_columns() -> Seq<Seq<char>> {
    seq!["table_catalog"@, "table_schema"@, "table_name"@, "table_type"@]
}

pub open spec fn columns_columns() -> Seq<Seq<char>> {
    seq![
        "table_catalog"@,
        "table_schema"@,
        "table_name"@,
        "column_name"@,
        "ordinal_position"@,
        "is_nullable"@,
        "data_type"@,
    ]
}

/// The tables that describe tables.
pub open spec fn info_sources(s: Seq<(Seq<char>, Seq<ColumnView>)>) -> Seq<SourceView> {
    seq![
        SourceView {
            name: "information_schema.tables"@,
            rel: RelationView { columns: tables_columns(), rows: table_rows(s) },
        },
        SourceView {
            name: "information_schema.columns"@,
            rel: RelationView { columns: columns_columns(), rows: column_rows(s) },
        },
    ]
}

pub open spec fn stored_source(s: StoreView, i: int) -> SourceView {
    SourceView {
        name: s.tables[i].name,
        rel: RelationView { columns: column_names(s.tables[i].columns), rows: s.rows[i] },
    }
}

/// What queries read.
pub open spec fn sources_of(s: StoreView) -> Seq<SourceView> {
    Seq::new(s.tables.len(), |i: int| stored_source(s, i)) + info_sources(shapes(s.tables))
}

/// The place of the table of a name.
pub open spec fn table_index(s: StoreView, name: Seq<char>) -> Option<int> {
    index_of(table_names(s.tables), name)
}

pub open spec fn table_names(t: Seq<TableView>) -> Seq<Seq<char>> {
    Seq::new(t.len(), |i: int| t[i].name)
}

pub open spec fn with_rows(s: StoreView, i: int, r: Rows) -> StoreView {
    StoreView {
        tables: s.tables.update(i, TableView { keys: r.keys, ..s.tables[i] }),
        rows: s.rows.update(i, r.rows),
        log: s.log,
    }
}

/// The store with other next numbers in table `i`.
pub open spec fn with_counters(s: StoreView, i: int, seqs: Seq<i64>, next_rowid: i64) -> StoreView {
    StoreView { tables: s.tables.update(i, TableView { seqs, next_rowid, ..s.tables[i] }), ..s }
}

/// The store after a row was put under a key of table `i`.
pub open spec fn store_put(s: StoreView, i: int, k: Seq<ValueView>, row: Seq<ValueView>) -> StoreView {
    let r = rows_at_table(s, i);
    let n = with_rows(s, i, put(r, k, row));
    StoreView {
        tables: n.tables,
        rows: n.rows,
        log: s.log.push(
            ChangeView { table: s.tables[i].name, key: k, before: row_of(r, k), after: Some(row) },
        ),
    }
}

/// The store after the row under a key of table `i` was deleted.
pub open spec fn store_del(s: StoreView, i: int, k: Seq<ValueView>) -> StoreView {
    let r = rows_at_table(s, i);
    let n = with_rows(s, i, del(r, k));
    StoreView {
        tables: n.tables,
        rows: n.rows,
        log: s.log.push(ChangeView { table: s.tables[i].name, key: k, before: row_of(r, k), after: None }),
    }
}

/// The store with what a change did taken back.
pub open spec fn store_undo(s: StoreView, c: ChangeView) -> StoreView {
    match table_index(s, c.table) {
        Some(i) => with_rows(s, i, restored(rows_at_table(s, i), c.key, c.before)),
        None => s,
    }
}

/// The store with what changes did taken back, from the last to the first.
pub open spec fn store_undo_all(s: StoreView, c: Seq<ChangeView>) -> StoreView
    decreases c.len(),
{
    if c.len() == 0 {
        s
    } else {
        store_undo_all(store_undo(s, c.last()), c.drop_last())
    }
}

impl Store {
    pub open spec fn view(&self) -> StoreView {
        StoreView {
            tables: tables_view(self.tables@),
            rows: Seq::new(self.tables@.len(), |i: int| rows_view(self.sources@[i].rel.rows@)),
            log: changes_view(self.log@),
        }
    }

    /// Copies the keys and the rows of a table.
    pub fn copy_rows(&self, i: usize) -> (r: (Vec<Vec<Value>>, Vec<Vec<Value>>))
        requires
            self.wf(),
            i < self.tables@.len(),
        ensures
            rows_view(r.0@) == self@.tables[i as int].keys,
            rows_view(r.1@) == self@.rows[i as int],
            r.0@.len() == r.1@.len(),
    {
        assert(self@.tables[i as int] == self.tables@[i as int]@);
        assert(well_kept(rows_at_table(self@, i as int)));
        let keys = dup_rows(&self.tables[i].keys);
        let rows = dup_rows(&self.sources[i].rel.rows);
        assert(rows_view(keys@).len() == keys@.len());
        assert(rows_view(rows@).len() == rows@.len());
        (keys, rows)
    }

    pub open spec fn wf(&self) -> bool {
        &&& store_ok(self@)
        &&& self.sources@.len() == self.tables@.len() + 2
        &&& sources_view(self.sources@) == sources_of(self@)
    }

    /// A store without tables.
    pub fn new() -> (r: Store)
        ensures
            r.wf(),
            r@ == (StoreView { tables: Seq::empty(), rows: Seq::empty(), log: Seq::empty() }),
    {
        let tables: Vec<Table> = Vec::new();
        let sources = describe(&tables);
        let r = Store { tables, sources, log: Vec::new() };
        proof {
            assert(r@.tables =~= Seq::empty());
            assert(r@.rows =~= Seq::empty());
            assert(r@.log =~= Seq::empty());
            assert(shapes(r@.tables) =~= shapes(tables_view(tables@)));
            assert(sources_view(r.sources@) =~= sources_of(r@));
        }
        r
    }

    /// Finds the table of a name.
    pub fn find(&self, name: &str) -> (r: Option<usize>)
        ensures
            (match r { Some(i) => Some(i as int), None => None }) == table_index(self@, name@),
            r matches Some(i) ==> i < self.tables@.len() && self.tables@[i as int].name@ == name@,
    {
        let ghost all = table_names(self@.tables);
        let mut i: usize = 0;
        let mut r: Option<usize> = None;
        assert(all.take(0).len() == 0);
        while i < self.tables.len()
            invariant
                i <= self.tables.len(),
                all == table_names(self@.tables),
                all.len() == self.tables@.len(),
                (match r { Some(i) => Some(i as int), None => None }) == index_of(all.take(i as int), name@),
                r matches Some(i) ==> i < self.tables@.len() && self.tables@[i as int].name@ == name@,
            decreases self.tables.len() - i,
        {
            assert(all.take(i + 1).drop_last() =~= all.take(i as int));
            assert(all.take(i + 1).last() == self.tables@[i as int].name@);
            if r.is_none() && text_is(self.tables[i].name.as_str(), name) {
                r = Some(i);
            }
            i = i + 1;
        }
        assert(all.take(self.tables.len() as int) =~= all);
        r
    }

    /// Reads the row under a key of table `i`.
    pub fn get(&self, i: usize, k: &Vec<Value>) -> (r: Option<Vec<Value>>)
        requires
            self.wf(),
            i < self.tables@.len(),
        ensures
            (match r { Some(row) => Some(values_view(row@)), None => None }) == row_of(
                rows_at_table(self@, i as int),
                values_view(k@),
            ),
    {
        proof {
            assert(well_kept(rows_at_table(self@, i as int)));
            assert(rows_at_table(self@, i as int).keys == rows_view(self.tables@[i as int].keys@));
        }
        get_row(&self.tables[i].keys, &self.sources[i].rel.rows, k)
    }

    /// Puts a row under a key of table `i`.
    pub fn put(&mut self, i: usize, k: Vec<Value>, row: Vec<Value>)
        requires
            old(self).wf(),
            i < old(self).tables@.len(),
        ensures
            final(self).wf(),
            final(self)@ == store_put(old(self)@, i as int, values_view(k@), values_view(row@)),
            final(self).tables@.len() == old(self).tables@.len(),
    {
        let ghost before = *self;
        let before_row = self.get(i, &k);
        let change = Change {
            table: self.tables[i].name.clone(),
            key: dup_values(&k),
            before: before_row,
            after: Some(dup_values(&row)),
        };
        let ghost kv = values_view(k@);
        let ghost rv = values_view(row@);
        proof {
            assert(well_kept(rows_at_table(self@, i as int)));
            law_put_keeps_order(rows_at_table(self@, i as int), kv, rv);
        }
        let mut t = self.tables.remove(i);
        let mut s = self.sources.remove(i);
        let ghost t0 = t;
        let ghost s0 = s;
        put_row(&mut t.keys, &mut s.rel.rows, k, row);
        proof {
            assert(t@ == (TableView { keys: rows_view(t.keys@), ..t0@ }));
        }
        self.tables.insert(i, t);
        self.sources.insert(i, s);
        proof {
            changes_push(self.log@, change);
        }
        self.log.push(change);
        proof {
            lemma_table_changed(before, *self, i as int, put(rows_at_table(before@, i as int), kv, rv));
            assert(self@ == store_put(before@, i as int, kv, rv));
        }
    }

    /// Deletes the row under a key of table `i`.
    pub fn del(&mut self, i: usize, k: &Vec<Value>)
        requires
            old(self).wf(),
            i < old(self).tables@.len(),
        ensures
            final(self).wf(),
            final(self)@ == store_del(old(self)@, i as int, values_view(k@)),
            final(self).tables@.len() == old(self).tables@.len(),
    {
        let ghost before = *self;
        let before_row = self.get(i, k);
        let change = Change {
            table: self.tables[i].name.clone(),
            key: dup_values(k),
            before: before_row,
            after: None,
        };
        let ghost kv = values_view(k@);
        proof {
            assert(well_kept(rows_at_table(self@, i as int)));
            law_del_keeps_order(rows_at_table(self@, i as int), kv);
        }
        let mut t = self.tables.remove(i);
        let mut s = self.sources.remove(i);
        let ghost t0 = t;
        del_row(&mut t.keys, &mut s.rel.rows, k);
        proof {
            assert(t@ == (TableView { keys: rows_view(t.keys@), ..t0@ }));
        }
        self.tables.insert(i, t);
        self.sources.insert(i, s);
        proof {
            changes_push(self.log@, change);
        }
        self.log.push(change);
        proof {
            lemma_table_changed(before, *self, i as int, del(rows_at_table(before@, i as int), kv));
            assert(self@ == store_del(before@, i as int, kv));
        }
    }

    /// Sets the next numbers of the counting columns of table `i` and of its rows.
    pub fn set_counters(&mut self, i: usize, seqs: Vec<i64>, next_rowid: i64)
        requires
            old(self).wf(),
            i < old(self).tables@.len(),
            seqs@.len() == old(self).tables@[i as int].columns@.len(),
        ensures
            final(self).wf(),
            final(self)@ == with_counters(old(self)@, i as int, seqs@, next_rowid),
            final(self).tables@.len() == old(self).tables@.len(),
            final(self).tables@[i as int].columns == old(self).tables@[i as int].columns,
    {
        let ghost before = *self;
        let mut t = self.tables.remove(i);
        t.seqs = seqs;
        t.next_rowid = next_rowid;
        self.tables.insert(i, t);
        proof {
            assert(well_kept(rows_at_table(before@, i as int)));
            assert(before@.tables[i as int] == before.tables@[i as int]@);
            assert(before@.tables[i as int].seqs.len() == before@.tables[i as int].columns.len());
            lemma_table_changed(before, *self, i as int, rows_at_table(before@, i as int));
            assert(self@.rows =~= before@.rows);
        }
    }

    /// Takes back what a change did.
    pub fn undo(&mut self, c: &Change)
        requires
            old(self).wf(),
        ensures
            final(self).wf(),
            final(self)@ == store_undo(old(self)@, c@),
    {
        match self.find(c.table.as_str()) {
            None => {},
            Some(i) => {
                let ghost before = *self;
                let ghost kv = values_view(c.key@);
                let ghost r = rows_at_table(self@, i as int);
                proof {
                    assert(well_kept(r));
                }
                let mut t = self.tables.remove(i);
                let mut s = self.sources.remove(i);
                let ghost t0 = t;
                match &c.before {
                    Some(row) => {
                        proof {
                            law_put_keeps_order(r, kv, values_view(row@));
                        }
                        put_row(&mut t.keys, &mut s.rel.rows, dup_values(&c.key), dup_values(row));
                    },
                    None => {
                        proof {
                            law_del_keeps_order(r, kv);
                        }
                        del_row(&mut t.keys, &mut s.rel.rows, &c.key);
                    },
                }
                proof {
                    assert(t@ == (TableView { keys: rows_view(t.keys@), ..t0@ }));
                }
                self.tables.insert(i, t);
                self.sources.insert(i, s);
                proof {
                    lemma_table_changed(before, *self, i as int, restored(r, kv, c@.before));
                }
            },
        }
    }

    /// Takes back what changes did, from the last to the first.
    pub fn undo_all(&mut self, c: &Vec<Change>)
        requires
            old(self).wf(),
        ensures
            final(self).wf(),
            final(self)@ == store_undo_all(old(self)@, changes_view(c@)),
            final(self)@.log == old(self)@.log,
    {
        let ghost all = changes_view(c@);
        let mut i: usize = c.len();
        assert(all.take(i as int) =~= all);
        while i > 0
            invariant
                i <= c.len(),
                all == changes_view(c@),
                self.wf(),
                store_undo_all(old(self)@, all) == store_undo_all(self@, all.take(i as int)),
                self@.log == old(self)@.log,
            decreases i,
        {
            assert(all.take(i as int).drop_last() =~= all.take(i - 1));
            assert(all.take(i as int).last() == c@[i - 1]@);
            self.undo(&c[i - 1]);
            i = i - 1;
        }
        assert(all.take(0).len() == 0);
    }

    /// Takes the log away.
    pub fn take_log(&mut self) -> (r: Vec<Change>)
        requires
            old(self).wf(),
        ensures
            final(self).wf(),
            changes_view(r@) == old(self)@.log,
            final(self)@ == (StoreView { log: Seq::empty(), ..old(self)@ }),
            final(self).tables@ == old(self).tables@,
    {
        let ghost before = *self;
        let mut r: Vec<Change> = Vec::new();
        std::mem::swap(&mut r, &mut self.log);
        proof {
            assert(self@.log =~= Seq::empty());
            assert(self@.rows =~= before@.rows);
            assert(sources_of(self@) =~= sources_of(before@));
            assert forall|i: int| 0 <= i < self@.tables.len() implies well_kept(#[trigger] rows_at_table(self@, i)) by {
                assert(well_kept(rows_at_table(before@, i)));
            }
        }
        r
    }
}

/// Only table `i` and its rows differ between two stores, and its name and columns do not.
pub proof fn lemma_table_changed(a: Store, b: Store, i: int, r: Rows)
    requires
        a.wf(),
        0 <= i < a.tables@.len(),
        well_kept(r),
        b.tables@.len() == a.tables@.len(),
        b.sources@.len() == a.sources@.len(),
        forall|j: int| 0 <= j < a.tables@.len() && j != i ==> b.tables@[j] == a.tables@[j],
        forall|j: int| 0 <= j < a.sources@.len() && j != i ==> b.sources@[j] == a.sources@[j],
        b.tables@[i]@.name == a.tables@[i]@.name,
        b.tables@[i]@.columns == a.tables@[i]@.columns,
        b.tables@[i]@.seqs.len() == a.tables@[i]@.seqs.len(),
        b.tables@[i]@.keys == r.keys,
        rows_view(b.sources@[i].rel.rows@) == r.rows,
        b.sources@[i].name == a.sources@[i].name,
        b.sources@[i].rel.columns == a.sources@[i].rel.columns,
    ensures
        b.wf(),
        b@ == (StoreView {
            tables: a@.tables.update(i, b.tables@[i]@),
            rows: a@.rows.update(i, r.rows),
            log: changes_view(b.log@),
        }),
{
    assert(b@.tables =~= a@.tables.update(i, b.tables@[i]@));
    assert(b@.rows =~= a@.rows.update(i, r.rows));
    assert(shapes(b@.tables) =~= shapes(a@.tables));
    assert forall|j: int| 0 <= j < b@.tables.len() implies well_kept(#[trigger] rows_at_table(b@, j)) by {
        assert(well_kept(rows_at_table(a@, j)));
    }
    assert forall|j: int| 0 <= j < b@.tables.len() implies (#[trigger] b@.tables[j]).seqs.len() == b@.tables[j].columns.len() by {
        assert(a@.tables[j].seqs.len() == a@.tables[j].columns.len());
    }
    assert forall|x: int, y: int| 0 <= x < y < b@.tables.len() implies (#[trigger] b@.tables[x]).name != (#[trigger] b@.tables[y]).name by {
        assert(a@.tables[x].name != a@.tables[y].name);
    }
    assert forall|j: int| 0 <= j < b.sources@.len() implies #[trigger] sources_view(b.sources@)[j] == sources_of(b@)[j] by {
        assert(sources_view(a.sources@)[j] == sources_of(a@)[j]);
        if j < a.tables@.len() {
            assert(sources_of(a@)[j] == stored_source(a@, j));
            assert(sources_of(b@)[j] == stored_source(b@, j));
        }
    }
    assert(sources_view(b.sources@) =~= sources_of(b@));
}

fn text_value(s: &str) -> (r: Value)
    ensures
        r@ == ValueView::Text(s@),
{
    Value::Text(s.to_string())
}

fn make_table_row(name: &str) -> (r: Vec<Value>)
    ensures
        values_view(r@) == table_row(name@),
{
    let mut r: Vec<Value> = Vec::new();
    r.push(text_value("bytedb"));
    r.push(text_value("public"));
    r.push(text_value(name));
    r.push(text_value("BASE TABLE"));
    assert(values_view(r@) =~= table_row(name@));
    r
}

fn make_column_row(name: &str, c: &Column, i: usize) -> (r: Vec<Value>)
    ensures
        values_view(r@) == column_row(name@, c@, i as int),
{
    let mut r: Vec<Value> = Vec::new();
    r.push(text_value("bytedb"));
    r.push(text_value("public"));
    r.push(text_value(name));
    r.push(text_value(c.name.as_str()));
    r.push(Value::Int64((i as i128 + 1) as i64));
    r.push(
        if c.nullable {
            text_value("YES")
        } else {
            text_value("NO")
        },
    );
    r.push(Value::Text(show_type(c.data_type)));
    assert(values_view(r@) =~= column_row(name@, c@, i as int));
    r
}

fn add_column_rows(rows: &mut Vec<Vec<Value>>, t: &Table)
    ensures
        rows_view(final(rows)@) == rows_view(old(rows)@) + Seq::new(
            t@.columns.len(),
            |i: int| column_row(t@.name, t@.columns[i], i),
        ),
{
    let ghost front = rows_view(rows@);
    let ghost all = Seq::new(t@.columns.len(), |i: int| column_row(t@.name, t@.columns[i], i));
    let mut i: usize = 0;
    assert(rows_view(rows@) =~= front + all.take(0));
    while i < t.columns.len()
        invariant
            i <= t.columns.len(),
            all == Seq::new(t@.columns.len(), |i: int| column_row(t@.name, t@.columns[i], i)),
            all.len() == t.columns@.len(),
            rows_view(rows@) == front + all.take(i as int),
        decreases t.columns.len() - i,
    {
        let row = make_column_row(t.name.as_str(), &t.columns[i], i);
        proof {
            rows_push(rows@, row);
            assert(t@.columns[i as int] == t.columns@[i as int]@);
            assert(all[i as int] == values_view(row@));
            assert(front + all.take(i + 1) =~= (front + all.take(i as int)).push(values_view(row@)));
        }
        rows.push(row);
        i = i + 1;
    }
    assert(all.take(t.columns.len() as int) =~= all);
}

fn name_list4(a: &str, b: &str, c: &str, d: &str) -> (r: Vec<String>)
    ensures
        names_view(r@) == seq![a@, b@, c@, d@],
{
    let mut r: Vec<String> = Vec::new();
    r.push(a.to_string());
    r.push(b.to_string());
    r.push(c.to_string());
    r.push(d.to_string());
    assert(names_view(r@) =~= seq![a@, b@, c@, d@]);
    r
}

/// The tables that describe tables.
pub fn describe(tables: &Vec<Table>) -> (r: Vec<Source>)
    ensures
        sources_view(r@) == info_sources(shapes(tables_view(tables@))),
        r@.len() == 2,
{
    let ghost sh = shapes(tables_view(tables@));
    let mut rows: Vec<Vec<Value>> = Vec::new();
    let mut cols: Vec<Vec<Value>> = Vec::new();
    let mut i: usize = 0;
    proof {
        assert(rows_view(rows@) =~= table_rows(sh).take(0));
        assert(sh.take(0).len() == 0);
        assert(rows_view(cols@) =~= Seq::empty());
    }
    while i < tables.len()
        invariant
            i <= tables.len(),
            sh == shapes(tables_view(tables@)),
            sh.len() == tables@.len(),
            rows_view(rows@) == table_rows(sh).take(i as int),
            rows_view(cols@) == column_rows(sh.take(i as int)),
        decreases tables.len() - i,
    {
        let row = make_table_row(tables[i].name.as_str());
        proof {
            rows_push(rows@, row);
            assert(sh[i as int] == (tables@[i as int]@.name, tables@[i as int]@.columns));
            assert(table_rows(sh)[i as int] == values_view(row@));
            assert(table_rows(sh).take(i + 1) =~= table_rows(sh).take(i as int).push(values_view(row@)));
            assert(sh.take(i + 1).drop_last() =~= sh.take(i as int));
            assert(sh.take(i + 1).last() == sh[i as int]);
        }
        rows.push(row);
        add_column_rows(&mut cols, &tables[i]);
        proof {
            let t = tables@[i as int]@;
            assert(Seq::new(t.columns.len(), |k: int| column_row(t.name, t.columns[k], k)) =~= Seq::new(
                sh.take(i + 1).last().1.len(),
                |k: int| column_row(sh.take(i + 1).last().0, sh.take(i + 1).last().1[k], k),
            ));
        }
        i = i + 1;
    }
    proof {
        assert(table_rows(sh).take(tables.len() as int) =~= table_rows(sh));
        assert(sh.take(tables.len() as int) =~= sh);
    }
    let mut names = name_list4("table_catalog", "table_schema", "table_name", "column_name");
    let a = "ordinal_position".to_string();
    let b = "is_nullable".to_string();
    let c = "data_type".to_string();
    proof {
        names_push(names@, a);
        names_push(names@.push(a), b);
        names_push(names@.push(a).push(b), c);
    }
    names.push(a);
    names.push(b);
    names.push(c);
    assert(names_view(names@) =~= columns_columns());
    let mut r: Vec<Source> = Vec::new();
    r.push(
        Source {
            name: "information_schema.tables".to_string(),
            rel: Relation {
                columns: name_list4("table_catalog", "table_schema", "table_name", "table_type"),
                rows,
            },
        },
    );
    r.push(Source { name: "information_schema.columns".to_string(), rel: Relation { columns: names, rows: cols } });
    assert(sources_view(r@) =~= info_sources(sh));
    r
}

proof fn lemma_index_names(names: Seq<Seq<char>>, i: int)
    requires
        0 <= i < names.len(),
        forall|j: int| 0 <= j < names.len() && j != i ==> #[trigger] names[j] != names[i],
    ensures
        index_of(names, names[i]) == Some(i),
    decreases names.len(),
{
    let d = names.drop_last();
    if i < names.len() - 1 {
        assert(d[i] == names[i]);
        assert forall|j: int| 0 <= j < d.len() && j != i implies #[trigger] d[j] != d[i] by {
            assert(d[j] == names[j]);
        }
        lemma_index_names(d, i);
    } else {
        lemma_index_absent(d, names[i]);
    }
}

proof fn lemma_index_absent(names: Seq<Seq<char>>, name: Seq<char>)
    requires
        forall|j: int| 0 <= j < names.len() ==> #[trigger] names[j] != name,
    ensures
        index_of(names, name) is None,
    decreases names.len(),
{
    if names.len() > 0 {
        assert(names[names.len() - 1] != name);
        assert forall|j: int| 0 <= j < names.drop_last().len() implies #[trigger] names.drop_last()[j] != name by {
            assert(names.drop_last()[j] == names[j]);
        }
        lemma_index_absent(names.drop_last(), name);
    }
}

/// Where the name of table `i` leads to.
pub proof fn lemma_table_index(s: StoreView, i: int)
    requires
        store_ok(s),
        0 <= i < s.tables.len(),
    ensures
        table_index(s, s.tables[i].name) == Some(i),
{
    let names = table_names(s.tables);
    assert forall|j: int| 0 <= j < names.len() && j != i implies #[trigger] names[j] != names[i] by {
        if j < i {
            assert(s.tables[j].name != s.tables[i].name);
        } else {
            assert(s.tables[i].name != s.tables[j].name);
        }
    }
    lemma_index_names(names, i);
}

/// Undoing the change that a put logged gives back the tables and rows before it.
pub proof fn law_undo_put(s: StoreView, i: int, k: Seq<ValueView>, row: Seq<ValueView>)
    requires
        store_ok(s),
        0 <= i < s.tables.len(),
    ensures
        store_undo(store_put(s, i, k, row), store_put(s, i, k, row).log.last()).tables == s.tables,
        store_undo(store_put(s, i, k, row), store_put(s, i, k, row).log.last()).rows == s.rows,
{
    let r = rows_at_table(s, i);
    assert(well_kept(r));
    law_restore_undoes_put(r, k, row);
    let n = store_put(s, i, k, row);
    assert(table_names(n.tables) =~= table_names(s.tables));
    lemma_table_index(s, i);
    assert(n.log.last().table == s.tables[i].name);
    assert(rows_at_table(n, i) == put(r, k, row));
    let u = store_undo(n, n.log.last());
    assert(u.tables =~= s.tables);
    assert(u.rows =~= s.rows);
}

/// Undoing the change that a deletion logged gives back the tables and rows before it.
pub proof fn law_undo_del(s: StoreView, i: int, k: Seq<ValueView>)
    requires
        store_ok(s),
        0 <= i < s.tables.len(),
    ensures
        store_undo(store_del(s, i, k), store_del(s, i, k).log.last()).tables == s.tables,
        store_undo(store_del(s, i, k), store_del(s, i, k).log.last()).rows == s.rows,
{
    let r = rows_at_table(s, i);
    assert(well_kept(r));
    law_restore_undoes_del(r, k);
    let n = store_del(s, i, k);
    assert(table_names(n.tables) =~= table_names(s.tables));
    lemma_table_index(s, i);
    assert(rows_at_table(n, i) == del(r, k));
    let u = store_undo(n, n.log.last());
    assert(u.tables =~= s.tables);
    assert(u.rows =~= s.rows);
}

} // verus!
