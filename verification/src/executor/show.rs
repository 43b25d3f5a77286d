use vstd::prelude::*;
use vstd::string::*;
use crate::planner::optimizer::{IndexInfo, IndexInfoView, TableIndexes, catalog_view, infos_view};
use crate::text::{join2, join3};
use crate::value::{Order, Value, ValueView, names_push, names_view, rows_push, rows_view, values_view};
use super::relation::{Relation, RelationView};
use super::scalar::{codes, order_texts, seq_order};
use super::store::{show_type, table_names, type_text};
use super::table::{Column, ColumnView, Table, TableIndexView, TableView, columns_view, tables_view};

verus! {

/// Rows of one text each.
pub open spec fn text_rows(lines: Seq<Seq<char>>) -> Seq<Seq<ValueView>> {
    Seq::new(lines.len(), |i: int| seq![ValueView::Text(lines[i])])
}

/// A relation of one column of texts.
pub open spec fn listing(column: Seq<char>, lines: Seq<Seq<char>>) -> RelationView {
    RelationView { columns: seq![column], rows: text_rows(lines) }
}

pub fn list_texts(column: &str, lines: &Vec<String>) -> (r: Relation)
    ensures
        r@ == listing(column@, names_view(lines@)),
{
    let ghost all = names_view(lines@);
    let mut columns: Vec<String> = Vec::new();
    columns.push(column.to_string());
    let mut rows: Vec<Vec<Value>> = Vec::new();
    let mut i: usize = 0;
    assert(rows_view(rows@) =~= text_rows(all.take(0)));
    while i < lines.len()
        invariant
            i <= lines.len(),
            all == names_view(lines@),
            rows_view(rows@) == text_rows(all.take(i as int)),
        decreases lines.len() - i,
    {
        let mut row: Vec<Value> = Vec::new();
        row.push(Value::Text(lines[i].clone()));
        let ghost before = rows@;
        proof {
            assert(values_view(row@) =~= seq![ValueView::Text(all[i as int])]);
            rows_push(before, row);
        }
        rows.push(row);
        assert(text_rows(all.take(i + 1)) =~= text_rows(all.take(i as int)).push(seq![ValueView::Text(all[i as int])]));
        i = i + 1;
    }
    assert(all.take(lines.len() as int) =~= all);
    assert(names_view(columns@) =~= seq![column@]);
    Relation { columns, rows }
}

pub fn list_table_names(t: &Vec<Table>) -> (r: Vec<String>)
    ensures
        names_view(r@) == table_names(tables_view(t@)),
{
    let ghost all = tables_view(t@);
    let mut r: Vec<String> = Vec::new();
    let mut i: usize = 0;
    assert(names_view(r@) =~= table_names(all.take(0)));
    while i < t.len()
        invariant
            i <= t.len(),
            all == tables_view(t@),
            names_view(r@) == table_names(all.take(i as int)),
        decreases t.len() - i,
    {
        proof {
            names_push(r@, t@[i as int].name);
            assert(table_names(all.take(i + 1)) =~= table_names(all.take(i as int)).push(t@[i as int]@.name));
        }
        r.push(t[i].name.clone());
        i = i + 1;
    }
    assert(all.take(t.len() as int) =~= all);
    r
}

// ---- DESCRIBE

pub open spec fn describe_columns() -> Seq<Seq<char>> {
    seq!["name"@, "type"@, "nullable"@, "primary_key"@]
}

pub open spec fn describe_row(c: ColumnView) -> Seq<ValueView> {
    seq![
        ValueView::Text(c.name),
        ValueView::Text(type_text(c.data_type)),
        ValueView::Bool(c.nullable),
        ValueView::Bool(c.primary_key),
    ]
}

/// What DESCRIBE and SHOW COLUMNS say of a table.
pub open spec fn described(t: TableView) -> RelationView {
    RelationView { columns: describe_columns(), rows: Seq::new(t.columns.len(), |i: int| describe_row(t.columns[i])) }
}

fn describe_column(c: &Column) -> (r: Vec<Value>)
    ensures
        values_view(r@) == describe_row(c@),
{
    let mut row: Vec<Value> = Vec::new();
    row.push(Value::Text(c.name.clone()));
    row.push(Value::Text(show_type(c.data_type)));
    row.push(Value::Bool(c.nullable));
    row.push(Value::Bool(c.primary_key));
    assert(values_view(row@) =~= describe_row(c@));
    row
}

pub fn describe_table(t: &Table) -> (r: Relation)
    ensures
        r@ == described(t@),
{
    let ghost all = columns_view(t.columns@);
    let mut columns: Vec<String> = Vec::new();
    columns.push("name".to_string());
    columns.push("type".to_string());
    columns.push("nullable".to_string());
    columns.push("primary_key".to_string());
    let mut rows: Vec<Vec<Value>> = Vec::new();
    let mut i: usize = 0;
    while i < t.columns.len()
        invariant
            i <= t.columns.len(),
            all == columns_view(t.columns@),
            rows_view(rows@) =~= Seq::new(i as nat, |j: int| describe_row(all[j])),
        decreases t.columns.len() - i,
    {
        let row = describe_column(&t.columns[i]);
        proof {
            rows_push(rows@, row);
        }
        rows.push(row);
        i = i + 1;
    }
    assert(names_view(columns@) =~= describe_columns());
    assert(rows_view(rows@) =~= described(t@).rows);
    Relation { columns, rows }
}

// ---- SHOW CREATE TABLE

/// A column of a declaration.
pub open spec fn column_text(c: ColumnView) -> Seq<char> {
    "  "@ + c.name + " "@ + type_text(c.data_type) + (if c.primary_key {
        " PRIMARY KEY"@
    } else {
        Seq::empty()
    }) + (if !c.nullable {
        " NOT NULL"@
    } else {
        Seq::empty()
    })
}

/// The columns of a declaration, a line each.
pub open spec fn columns_text(c: Seq<ColumnView>) -> Seq<char>
    decreases c.len(),
{
    if c.len() == 0 {
        Seq::empty()
    } else if c.len() == 1 {
        column_text(c.last())
    } else {
        columns_text(c.drop_last()) + ",\n"@ + column_text(c.last())
    }
}

/// The declaration of a table.
pub open spec fn create_text(t: TableView) -> Seq<char> {
    "CREATE TABLE "@ + t.name + " (\n"@ + columns_text(t.columns) + "\n)"@
}

fn show_column(c: &Column) -> (r: String)
    ensures
        r@ == column_text(c@),
{
    let a = join3("  ", c.name.as_str(), " ");
    let b = show_type(c.data_type);
    let d = join2(a.as_str(), b.as_str());
    let e = if c.primary_key {
        join2(d.as_str(), " PRIMARY KEY")
    } else {
        d
    };
    let r = if !c.nullable {
        join2(e.as_str(), " NOT NULL")
    } else {
        e
    };
    assert(r@ =~= column_text(c@));
    r
}

fn show_columns(c: &Vec<Column>) -> (r: String)
    ensures
        r@ == columns_text(columns_view(c@)),
{
    let ghost all = columns_view(c@);
    let mut r = "".to_string();
    let mut i: usize = 0;
    proof {
        reveal_strlit("");
        assert(r@ =~= columns_text(all.take(0)));
    }
    while i < c.len()
        invariant
            i <= c.len(),
            all == columns_view(c@),
            r@ == columns_text(all.take(i as int)),
        decreases c.len() - i,
    {
        proof {
            assert(all.take(i + 1).drop_last() =~= all.take(i as int));
            assert(all.take(i + 1).last() == c@[i as int]@);
        }
        let l = show_column(&c[i]);
        r = if i == 0 {
            l
        } else {
            join3(r.as_str(), ",\n", l.as_str())
        };
        i = i + 1;
    }
    assert(all.take(c.len() as int) =~= all);
    r
}

pub fn show_create(t: &Table) -> (r: String)
    ensures
        r@ == create_text(t@),
{
    let a = join3("CREATE TABLE ", t.name.as_str(), " (\n");
    let b = show_columns(&t.columns);
    join3(a.as_str(), b.as_str(), "\n)")
}

// ---- names in order

/// The order of names.
pub open spec fn name_order(a: Seq<char>, b: Seq<char>) -> Order {
    seq_order(codes(a), codes(b), 0)
}

/// Whether each name comes no later than the next.
pub open spec fn in_order(s: Seq<Seq<char>>) -> bool {
    forall|i: int, j: int| 0 <= i && j == i + 1 && j < s.len() ==> name_order(#[trigger] s[i], #[trigger] s[j]) != Order::Greater
}

/// Names in order with one more.
pub open spec fn with_name(s: Seq<Seq<char>>, n: Seq<char>) -> Seq<Seq<char>>
    decreases s.len(),
{
    if s.len() == 0 {
        seq![n]
    } else if name_order(s.last(), n) == Order::Greater {
        with_name(s.drop_last(), n).push(s.last())
    } else {
        s.push(n)
    }
}

pub fn add_name(s: &mut Vec<String>, n: &str)
    ensures
        names_view(final(s)@) == with_name(names_view(old(s)@), n@),
{
    let ghost all = names_view(s@);
    let mut i: usize = s.len();
    proof {
        assert(all.take(i as int) =~= all);
        assert(all.skip(i as int) =~= Seq::empty());
        assert(with_name(all, n@) + all.skip(i as int) =~= with_name(all, n@));
    }
    let mut searching = true;
    while searching && i > 0
        invariant
            i <= s.len(),
            *s == *old(s),
            all == names_view(s@),
            with_name(all, n@) == with_name(all.take(i as int), n@) + all.skip(i as int),
            !searching ==> with_name(all.take(i as int), n@) == all.take(i as int).push(n@),
        decreases i, if searching { 1int } else { 0int },
    {
        assert(all.take(i as int).drop_last() =~= all.take(i - 1));
        assert(all.take(i as int).last() == all[i - 1]);
        match order_texts(s[i - 1].as_str(), n) {
            Order::Greater => {
                proof {
                    let w = with_name(all.take(i - 1), n@);
                    assert(w.push(all[i - 1]) + all.skip(i as int) =~= w + all.skip(i - 1));
                }
                i = i - 1;
            },
            _ => {
                searching = false;
            },
        }
    }
    proof {
        if i == 0 {
            assert(all.take(0) =~= Seq::empty());
            assert(seq![n@] =~= Seq::<Seq<char>>::empty().push(n@));
        }
        assert(with_name(all.take(i as int), n@) =~= all.take(i as int).push(n@));
        assert(all.take(i as int).push(n@) + all.skip(i as int) =~= all.insert(i as int, n@));
    }
    s.insert(i, n.to_string());
    assert(names_view(s@) =~= all.insert(i as int, n@));
}

/// Adding a name keeps names in order.
pub proof fn law_names_stay_in_order(s: Seq<Seq<char>>, n: Seq<char>)
    requires
        in_order(s),
    ensures
        in_order(with_name(s, n)),
        with_name(s, n).len() == s.len() + 1,
        s.len() > 0 ==> with_name(s, n).last() == (if name_order(s.last(), n) == Order::Greater {
            s.last()
        } else {
            n
        }),
    decreases s.len(),
{
    if s.len() > 0 && name_order(s.last(), n) == Order::Greater {
        let d = s.drop_last();
        assert(in_order(d));
        law_names_stay_in_order(d, n);
        lemma_turned(codes(s.last()), codes(n), 0);
        let w = with_name(d, n);
        let r = w.push(s.last());
        assert forall|i: int, j: int| 0 <= i && j == i + 1 && j < r.len() implies name_order(#[trigger] r[i], #[trigger] r[j])
            != Order::Greater by {
            if j < w.len() {
                assert(name_order(w[i], w[j]) != Order::Greater);
            } else if d.len() > 0 {
                assert(name_order(s[s.len() - 2], s[s.len() - 1]) != Order::Greater);
            }
        }
    } else if s.len() > 0 {
        let r = s.push(n);
        assert forall|i: int, j: int| 0 <= i && j == i + 1 && j < r.len() implies name_order(#[trigger] r[i], #[trigger] r[j])
            != Order::Greater by {
            if j < s.len() {
                assert(name_order(s[i], s[j]) != Order::Greater);
            }
        }
    }
}

/// Of two different sequences one comes first.
proof fn lemma_turned(a: Seq<int>, b: Seq<int>, i: int)
    requires
        i >= 0,
        seq_order(a, b, i) == Order::Greater,
    ensures
        seq_order(b, a, i) != Order::Greater,
    decreases a.len() - i,
{
    if i < a.len() && i < b.len() && a[i] == b[i] {
        lemma_turned(a, b, i + 1);
    }
}

// ---- the indexes of tables

/// The names of the columns at places.
pub open spec fn names_at(c: Seq<ColumnView>, at: Seq<usize>) -> Seq<Seq<char>>
    decreases at.len(),
{
    if at.len() == 0 {
        Seq::empty()
    } else if at.last() < c.len() {
        names_at(c, at.drop_last()).push(c[at.last() as int].name)
    } else {
        names_at(c, at.drop_last())
    }
}

fn pick_names(c: &Vec<Column>, at: &Vec<usize>) -> (r: Vec<String>)
    ensures
        names_view(r@) == names_at(columns_view(c@), at@),
{
    let ghost all = columns_view(c@);
    let mut r: Vec<String> = Vec::new();
    let mut i: usize = 0;
    proof {
        assert(at@.take(0).len() == 0);
        assert(names_view(r@) =~= Seq::empty());
    }
    while i < at.len()
        invariant
            i <= at.len(),
            all == columns_view(c@),
            names_view(r@) == names_at(all, at@.take(i as int)),
        decreases at.len() - i,
    {
        assert(at@.take(i + 1).drop_last() =~= at@.take(i as int));
        if at[i] < c.len() {
            proof {
                names_push(r@, c@[at@[i as int] as int].name);
            }
            r.push(c[at[i]].name.clone());
        }
        i = i + 1;
    }
    assert(at@.take(at.len() as int) =~= at@);
    r
}

pub open spec fn info_of(t: TableView, x: TableIndexView) -> IndexInfoView {
    IndexInfoView { name: x.name, columns: names_at(t.columns, x.columns), unique: x.unique }
}

pub open spec fn infos_of(t: TableView) -> Seq<IndexInfoView> {
    Seq::new(t.indexes.len(), |i: int| info_of(t, t.indexes[i]))
}

/// The tables that have indexes, with these.
pub open spec fn catalog_of(t: Seq<TableView>) -> Seq<(Seq<char>, Seq<IndexInfoView>)>
    decreases t.len(),
{
    if t.len() == 0 {
        Seq::empty()
    } else if t.last().indexes.len() == 0 {
        catalog_of(t.drop_last())
    } else {
        catalog_of(t.drop_last()).push((t.last().name, infos_of(t.last())))
    }
}

fn list_infos(t: &Table) -> (r: Vec<IndexInfo>)
    ensures
        infos_view(r@) == infos_of(t@),
{
    let ghost tv = t@;
    let mut r: Vec<IndexInfo> = Vec::new();
    let mut i: usize = 0;
    while i < t.indexes.len()
        invariant
            i <= t.indexes.len(),
            tv == t@,
            infos_view(r@) =~= Seq::new(i as nat, |j: int| info_of(tv, tv.indexes[j])),
        decreases t.indexes.len() - i,
    {
        let x = &t.indexes[i];
        let info = IndexInfo { name: x.name.clone(), columns: pick_names(&t.columns, &x.columns), unique: x.unique };
        let ghost before = r@;
        assert(info@ == info_of(tv, tv.indexes[i as int]));
        r.push(info);
        assert(infos_view(r@) =~= infos_view(before).push(info@));
        i = i + 1;
    }
    assert(infos_view(r@) =~= infos_of(tv));
    r
}

/// The indexes that the planner may use.
pub fn index_snapshot(t: &Vec<Table>) -> (r: Vec<TableIndexes>)
    ensures
        catalog_view(r@) == catalog_of(tables_view(t@)),
{
    let ghost all = tables_view(t@);
    let mut r: Vec<TableIndexes> = Vec::new();
    let mut i: usize = 0;
    proof {
        assert(all.take(0).len() == 0);
        assert(catalog_view(r@) =~= Seq::empty());
    }
    while i < t.len()
        invariant
            i <= t.len(),
            all == tables_view(t@),
            catalog_view(r@) == catalog_of(all.take(i as int)),
        decreases t.len() - i,
    {
        proof {
            assert(all.take(i + 1).drop_last() =~= all.take(i as int));
            assert(all.take(i + 1).last() == t@[i as int]@);
            assert(t@[i as int]@.indexes.len() == t@[i as int].indexes@.len());
        }
        if t[i].indexes.len() > 0 {
            let ghost before = r@;
            let x = TableIndexes { table: t[i].name.clone(), indexes: list_infos(&t[i]) };
            r.push(x);
            assert(catalog_view(r@) =~= catalog_view(before).push((x.table@, infos_view(x.indexes@))));
        }
        i = i + 1;
    }
    assert(all.take(t.len() as int) =~= all);
    r
}

} // verus!
