use vstd::prelude::*;
use vstd::string::*;
use crate::text::text_is;
use crate::value::{names_push, names_view};
use super::ast::{ColumnDef, Expr, ForeignKeyDef};
use super::ast::{column_defs_at, column_defs_empty, column_defs_len, column_defs_push, column_defs_view};
use super::ast::{exprs_empty, exprs_view, foreign_key_defs_empty, foreign_key_defs_view};
use super::grammar::{TableParts, all_columns, has_column, marked_column, marked_columns, no_parts};

verus! {

/// What the elements of a CREATE TABLE declare, as far as they have been read.
pub struct Elements {
    pub columns: Vec<ColumnDef>,
    pub checks: Vec<Expr>,
    pub fks: Vec<ForeignKeyDef>,
    pub keys: Vec<String>,
    pub uniques: Vec<String>,
}

impl Elements {
    pub open spec fn view(&self) -> TableParts {
        TableParts {
            columns: column_defs_view(self.columns@),
            checks: exprs_view(self.checks@),
            fks: foreign_key_defs_view(self.fks@),
            keys: names_view(self.keys@),
            uniques: names_view(self.uniques@),
        }
    }

    pub fn new() -> (r: Elements)
        ensures
            r@ == no_parts(),
    {
        proof {
            broadcast use {column_defs_empty, exprs_empty, foreign_key_defs_empty};
        }
        let r = Elements { columns: Vec::new(), checks: Vec::new(), fks: Vec::new(), keys: Vec::new(), uniques: Vec::new() };
        assert(names_view(r.keys@) =~= Seq::empty());
        assert(names_view(r.uniques@) =~= Seq::empty());
        r
    }
}

/// Puts `more` behind the names in `names`.
pub fn append_names(names: &mut Vec<String>, more: &Vec<String>)
    ensures
        names_view(final(names)@) == names_view(old(names)@) + names_view(more@),
{
    let mut i: usize = 0;
    assert(names_view(more@).take(0) =~= Seq::empty());
    while i < more.len()
        invariant
            i <= more.len(),
            names_view(names@) == names_view(old(names)@) + names_view(more@).take(i as int),
        decreases more.len() - i,
    {
        let n = more[i].clone();
        proof {
            names_push(names@, n);
            assert(names_view(more@).take(i + 1) =~= names_view(more@).take(i as int).push(n@));
        }
        names.push(n);
        i = i + 1;
    }
    assert(names_view(more@).take(more.len() as int) =~= names_view(more@));
}

/// Whether `name` stands among `names`.
pub fn has_name(names: &Vec<String>, name: &str) -> (r: bool)
    ensures
        r == names_view(names@).contains(name@),
{
    let mut i: usize = 0;
    while i < names.len()
        invariant
            i <= names.len(),
            forall|j: int| 0 <= j < i ==> #[trigger] names_view(names@)[j] != name@,
        decreases names.len() - i,
    {
        if text_is(names[i].as_str(), name) {
            assert(names_view(names@)[i as int] == name@);
            return true;
        }
        i = i + 1;
    }
    false
}

/// Whether one of the columns is named `name`.
pub fn column_known(columns: &Vec<ColumnDef>, name: &str) -> (r: bool)
    ensures
        r == has_column(column_defs_view(columns@), name@),
{
    proof {
        broadcast use {column_defs_at, column_defs_len};
    }
    let mut i: usize = 0;
    while i < columns.len()
        invariant
            i <= columns.len(),
            forall|j: int| 0 <= j < i ==> (#[trigger] column_defs_view(columns@)[j]).name != name@,
        decreases columns.len() - i,
    {
        proof {
            broadcast use {column_defs_at, column_defs_len};
            columns@[i as int].unfold();
        }
        assert(column_defs_view(columns@)[i as int].name == columns@[i as int].name@);
        if text_is(columns[i].name.as_str(), name) {
            return true;
        }
        i = i + 1;
    }
    false
}

/// Whether every name is that of a column.
pub fn names_known(columns: &Vec<ColumnDef>, names: &Vec<String>) -> (r: bool)
    ensures
        r == all_columns(column_defs_view(columns@), names_view(names@)),
{
    let mut i: usize = 0;
    while i < names.len()
        invariant
            i <= names.len(),
            forall|j: int| 0 <= j < i ==> has_column(column_defs_view(columns@), #[trigger] names_view(names@)[j]),
        decreases names.len() - i,
    {
        assert(names_view(names@)[i as int] == names@[i as int]@);
        if !column_known(columns, names[i].as_str()) {
            return false;
        }
        i = i + 1;
    }
    true
}

fn mark_column(c: &ColumnDef, keys: &Vec<String>, uniques: &Vec<String>) -> (r: ColumnDef)
    ensures
        r@ == marked_column(c@, names_view(keys@), names_view(uniques@)),
{
    let c = c.dup();
    proof {
        broadcast use super::ast::column_def_view_made;
        c.unfold();
    }
    let key = has_name(keys, c.name.as_str());
    let unique = has_name(uniques, c.name.as_str());
    ColumnDef {
        primary_key: c.primary_key || key,
        nullable: c.nullable && !key,
        unique: c.unique || unique,
        ..c
    }
}

/// The columns with what a PRIMARY KEY and a UNIQUE of the table say of them.
pub fn mark_columns(columns: &Vec<ColumnDef>, keys: &Vec<String>, uniques: &Vec<String>) -> (r: Vec<ColumnDef>)
    ensures
        column_defs_view(r@) == marked_columns(column_defs_view(columns@), names_view(keys@), names_view(uniques@)),
{
    proof {
        broadcast use {column_defs_at, column_defs_empty, column_defs_len};
    }
    let ghost all = marked_columns(column_defs_view(columns@), names_view(keys@), names_view(uniques@));
    let mut r: Vec<ColumnDef> = Vec::new();
    let mut i: usize = 0;
    assert(all.take(0) =~= Seq::empty());
    while i < columns.len()
        invariant
            i <= columns.len(),
            all == marked_columns(column_defs_view(columns@), names_view(keys@), names_view(uniques@)),
            column_defs_view(r@) == all.take(i as int),
        decreases columns.len() - i,
    {
        proof {
            broadcast use {column_defs_at, column_defs_len, column_defs_push};
        }
        let c = mark_column(&columns[i], keys, uniques);
        assert(all.take(i + 1) =~= all.take(i as int).push(c@));
        r.push(c);
        i = i + 1;
    }
    assert(all.take(columns.len() as int) =~= all);
    r
}

} // verus!
