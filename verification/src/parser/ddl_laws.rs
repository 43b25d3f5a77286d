use vstd::prelude::*;
use crate::value::DataType;
use super::ast::{AlterTableActionView, AlterTableStmtView, ColumnDefView, CreateIndexStmtView, CreateTableStmtView, DropTableStmtView, ExprView, FkAction, ForeignKeyDefView, FromClauseView, JoinClauseView, LiteralValueView, OrderByExprView, SelectColumnView, SelectStmtView, StatementView};
use super::clause_laws::lemma_name_expr;
use super::grammar::{Read, TableParts, all_columns, g_atom, g_casts, g_column_def, g_columns, g_constraint, g_constraints, g_create, g_create_index, g_create_table, g_element, g_elements, g_expr_group, g_fk_action, g_fk_actions, g_foreign_key, g_from, g_having_order, g_joins, g_limit_offset, g_name_group, g_names, g_opt_group, g_opt_having, g_opt_order, g_opt_where, g_parse, g_plain_select, g_primary, g_ref_column, g_references, g_select, g_select_head, g_select_tail, g_set_ops, g_statement, g_type, g_where_group, has_column, marked_columns, no_parts, plain_column, starts_table_constraint, tok};
use super::grammar_laws::{column, sign, word};
use super::token::{Kind, TokenView, ascii_upper};

verus! {

/// A column of which nothing is declared but its name and its type.
pub open spec fn declared(c: ColumnDefView, name: Seq<char>, t: DataType) -> bool {
    c.name == name && c.data_type == t && c.max_length is None
}

/// Whether a column carries no constraint beyond those that are named: null is in it where `nullable`
/// is set.
pub open spec fn unbound(c: ColumnDefView, nullable: bool) -> bool {
    &&& c.nullable == nullable
    &&& c.references is None
    &&& c.on_delete == FkAction::Restrict
    &&& c.on_update == FkAction::Restrict
}

/// Which type a word of a column definition stands for.
pub open spec fn types_as(k: Kind, t: DataType) -> bool {
    ||| (k == Kind::Int || k == Kind::Integer || k == Kind::Bigint || k == Kind::Smallint || k == Kind::Serial) && t == DataType::Int64
    ||| (k == Kind::Float || k == Kind::Real || k == Kind::DoublePrecision) && t == DataType::Float64
    ||| k == Kind::Numeric && t == DataType::Decimal
    ||| (k == Kind::Text || k == Kind::Varchar) && t == DataType::Text
    ||| k == Kind::Bool && t == DataType::Bool
    ||| (k == Kind::Bytes || k == Kind::Blob) && t == DataType::Bytes
    ||| k == Kind::Json && t == DataType::Json
    ||| k == Kind::Timestamp && t == DataType::Timestamp
    ||| k == Kind::Date && t == DataType::Date
    ||| k == Kind::Uuid && t == DataType::Uuid
    ||| k == Kind::Interval && t == DataType::Interval
}

/// A column with a type alone takes null, is no key, and has no default, check or reference.
pub proof fn law_plain_column(c: Seq<char>, k: Kind, t: DataType)
    requires
        types_as(k, t),
        k != Kind::Serial,
    ensures
        g_column_def(seq![word(c), sign(k)], 0) matches Read::Got(d, e) && e == 2 && declared(d, c, t) && unbound(d, true) && !d.primary_key
            && !d.unique && !d.auto_increment && d.default is None && d.check is None,
{
    let s = seq![word(c), sign(k)];
    assert(s.len() == 2);
    assert(tok(s, 0) == word(c) && tok(s, 1) == sign(k) && tok(s, 2) == sign(Kind::Eof));
    assert(g_type(s, 1) == Read::Got((t, None::<usize>), 2));
    assert(g_constraints(s, 2, plain_column(c, t, None)) == Read::Got(plain_column(c, t, None), 2));
}

/// NOT NULL and UNIQUE behind a column.
pub proof fn law_not_null_and_unique(c: Seq<char>)
    ensures
        g_column_def(seq![word(c), sign(Kind::Int), sign(Kind::Not), sign(Kind::NullLit), sign(Kind::Unique)], 0) matches Read::Got(d, e) && e == 5 && declared(d, c, DataType::Int64) && unbound(d, false) && d.unique && !d.primary_key && d.default is None && d.check is None,
{
    let t = seq![word(c), sign(Kind::Int), sign(Kind::Not), sign(Kind::NullLit), sign(Kind::Unique)];
    assert(t.len() == 5);
    assert(tok(t, 0) == word(c) && tok(t, 1) == sign(Kind::Int) && tok(t, 2) == sign(Kind::Not) && tok(t, 3) == sign(Kind::NullLit) && tok(t, 4) == sign(Kind::Unique) && tok(t, 5) == sign(Kind::Eof));
    let c0 = plain_column(c, DataType::Int64, None);
    assert(g_type(t, 1) == Read::Got((DataType::Int64, None::<usize>), 2));
    let c1 = ColumnDefView { nullable: false, ..c0 };
    let c2 = ColumnDefView { unique: true, ..c1 };
    assert(g_constraints(t, 5, c2) == Read::Got(c2, 5));
    assert(g_constraint(t, 4, c1) == Read::Got(c2, 5));
    assert(g_constraints(t, 4, c1) == Read::Got(c2, 5));
    assert(g_constraint(t, 2, c0) == Read::Got(c1, 4));
    assert(g_constraints(t, 2, c0) == Read::Got(c2, 5));
}

/// PRIMARY KEY behind a column: null is not in a key.
pub proof fn law_primary_key_column(c: Seq<char>)
    ensures
        g_column_def(seq![word(c), sign(Kind::Int), sign(Kind::Primary), sign(Kind::Key)], 0) matches Read::Got(d, e) && e == 4 && declared(d, c, DataType::Int64) && unbound(d, false) && d.primary_key && !d.unique && !d.auto_increment && d.default is None && d.check is None,
{
    let t = seq![word(c), sign(Kind::Int), sign(Kind::Primary), sign(Kind::Key)];
    assert(t.len() == 4);
    assert(tok(t, 0) == word(c) && tok(t, 1) == sign(Kind::Int) && tok(t, 2) == sign(Kind::Primary) && tok(t, 3) == sign(Kind::Key) && tok(t, 4) == sign(Kind::Eof));
    let c0 = plain_column(c, DataType::Int64, None);
    assert(g_type(t, 1) == Read::Got((DataType::Int64, None::<usize>), 2));
    let c1 = ColumnDefView { primary_key: true, nullable: false, ..c0 };
    assert(g_constraints(t, 4, c1) == Read::Got(c1, 4));
    assert(g_constraint(t, 2, c0) == Read::Got(c1, 4));
    assert(g_constraints(t, 2, c0) == Read::Got(c1, 4));
}

/// A SERIAL column counts up by itself and is the key.
pub proof fn law_serial_column(c: Seq<char>)
    ensures
        g_column_def(seq![word(c), sign(Kind::Serial)], 0) matches Read::Got(d, e) && e == 2 && declared(d, c, DataType::Int64) && unbound(d, false) && d.primary_key && d.auto_increment && !d.unique && d.default is None && d.check is None,
{
    let t = seq![word(c), sign(Kind::Serial)];
    assert(t.len() == 2);
    assert(tok(t, 0) == word(c) && tok(t, 1) == sign(Kind::Serial) && tok(t, 2) == sign(Kind::Eof));
    let c0 = plain_column(c, DataType::Int64, None);
    assert(g_type(t, 1) == Read::Got((DataType::Int64, None::<usize>), 2));
    assert(g_constraints(t, 2, c0) == Read::Got(c0, 2));
}

/// DEFAULT behind a column.
pub proof fn law_default_of_column(c: Seq<char>, k: i64)
    ensures
        g_column_def(seq![word(c), sign(Kind::Int), sign(Kind::Default), TokenView::IntLit(k)], 0) matches Read::Got(d, e) && e == 4 && declared(d, c, DataType::Int64) && unbound(d, true) && d.default == Some(ExprView::Literal(LiteralValueView::Integer(k))) && d.check is None && !d.unique && !d.primary_key,
{
    let t = seq![word(c), sign(Kind::Int), sign(Kind::Default), TokenView::IntLit(k)];
    assert(t.len() == 4);
    assert(tok(t, 0) == word(c) && tok(t, 1) == sign(Kind::Int) && tok(t, 2) == sign(Kind::Default) && tok(t, 3) == TokenView::IntLit(k) && tok(t, 4) == sign(Kind::Eof));
    let c0 = plain_column(c, DataType::Int64, None);
    assert(g_type(t, 1) == Read::Got((DataType::Int64, None::<usize>), 2));
    let e = ExprView::Literal(LiteralValueView::Integer(k));
    let c1 = ColumnDefView { default: Some(e), ..c0 };
    assert(g_atom(t, 3) == Read::Got(e, 4));
    assert(g_casts(t, 4, e) == Read::Got(e, 4));
    assert(g_primary(t, 3) == Read::Got(e, 4));
    assert(g_constraint(t, 2, c0) == Read::Got(c1, 4));
    assert(g_constraints(t, 4, c1) == Read::Got(c1, 4));
    assert(g_constraints(t, 2, c0) == Read::Got(c1, 4));
}

/// CHECK behind a column.
pub proof fn law_check_of_column(c: Seq<char>, chk: Seq<char>, x: Seq<char>)
    requires
        ascii_upper(chk) == "CHECK"@,
    ensures
        g_column_def(seq![word(c), sign(Kind::Int), word(chk), sign(Kind::LParen), word(x), sign(Kind::RParen)], 0) matches Read::Got(d, e) && e == 6 && declared(d, c, DataType::Int64) && unbound(d, true) && d.check == Some(column(x)) && d.default is None && !d.unique && !d.primary_key,
{
    let t = seq![word(c), sign(Kind::Int), word(chk), sign(Kind::LParen), word(x), sign(Kind::RParen)];
    assert(t.len() == 6);
    assert(tok(t, 0) == word(c) && tok(t, 1) == sign(Kind::Int) && tok(t, 2) == word(chk) && tok(t, 3) == sign(Kind::LParen) && tok(t, 4) == word(x) && tok(t, 5) == sign(Kind::RParen) && tok(t, 6) == sign(Kind::Eof));
    let c0 = plain_column(c, DataType::Int64, None);
    assert(g_type(t, 1) == Read::Got((DataType::Int64, None::<usize>), 2));
    let c1 = ColumnDefView { check: Some(column(x)), ..c0 };
    lemma_name_expr(t, 4, x);
    assert(g_expr_group(t, 3) == Read::Got(column(x), 6));
    assert(g_constraint(t, 2, c0) == Read::Got(c1, 6));
    assert(g_constraints(t, 6, c1) == Read::Got(c1, 6));
    assert(g_constraints(t, 2, c0) == Read::Got(c1, 6));
}

/// Which action of a foreign key a word stands for.
pub open spec fn acts_as(k: Kind, a: FkAction) -> bool {
    ||| k == Kind::Cascade && a == FkAction::Cascade
    ||| k == Kind::Restrict && a == FkAction::Restrict
}

/// REFERENCES behind a column: the table and the column that it names, what becomes of the row where
/// the one it refers to is deleted, and where that one is changed.
pub proof fn law_reference_of_column(c: Seq<char>, rf: Seq<char>, u: Seq<char>, v: Seq<char>, k: Kind, a: FkAction)
    requires
        ascii_upper(rf) == "REFERENCES"@,
        acts_as(k, a),
    ensures
        g_column_def(seq![word(c), sign(Kind::Int), word(rf), word(u), sign(Kind::LParen), word(v), sign(Kind::RParen), sign(Kind::On), sign(Kind::Delete), sign(k), sign(Kind::On), sign(Kind::Update), sign(Kind::SetKw), sign(Kind::NullLit)], 0) matches Read::Got(d, e) && e == 14 && declared(d, c, DataType::Int64) && d.references == Some((u, v))
            && d.on_delete == a && d.on_update == FkAction::SetNull && d.nullable && d.check is None,
{
    let t = seq![word(c), sign(Kind::Int), word(rf), word(u), sign(Kind::LParen), word(v), sign(Kind::RParen), sign(Kind::On), sign(Kind::Delete), sign(k), sign(Kind::On), sign(Kind::Update), sign(Kind::SetKw), sign(Kind::NullLit)];
    assert(t.len() == 14);
    assert(tok(t, 0) == word(c) && tok(t, 1) == sign(Kind::Int) && tok(t, 2) == word(rf) && tok(t, 3) == word(u) && tok(t, 4) == sign(Kind::LParen) && tok(t, 5) == word(v) && tok(t, 6) == sign(Kind::RParen) && tok(t, 7) == sign(Kind::On) && tok(t, 8) == sign(Kind::Delete) && tok(t, 9) == sign(k) && tok(t, 10) == sign(Kind::On) && tok(t, 11) == sign(Kind::Update) && tok(t, 12) == sign(Kind::SetKw) && tok(t, 13) == sign(Kind::NullLit) && tok(t, 14) == sign(Kind::Eof));
    reveal_strlit("REFERENCES");
    reveal_strlit("CHECK");
    assert("REFERENCES"@.len() == 10 && "CHECK"@.len() == 5);
    let c0 = plain_column(c, DataType::Int64, None);
    let c1 = ColumnDefView { references: Some((u, v)), on_delete: a, on_update: FkAction::SetNull, ..c0 };
    assert(g_type(t, 1) == Read::Got((DataType::Int64, None::<usize>), 2));
    assert(g_ref_column(t, 4) == Read::Got(v, 7));
    assert(g_fk_action(t, 12) == Read::Got(FkAction::SetNull, 14));
    assert(g_fk_action(t, 9) == Read::Got(a, 10));
    assert(g_fk_actions(t, 14, a, FkAction::SetNull) == Read::Got((a, FkAction::SetNull), 14));
    assert(g_fk_actions(t, 10, a, FkAction::Restrict) == Read::Got((a, FkAction::SetNull), 14));
    assert(g_fk_actions(t, 7, FkAction::Restrict, FkAction::Restrict) == Read::Got((a, FkAction::SetNull), 14));
    assert(g_references(t, 3, c0) == Read::Got(c1, 14));
    assert(g_constraint(t, 2, c0) == Read::Got(c1, 14));
    assert(g_constraints(t, 14, c1) == Read::Got(c1, 14));
    assert(g_constraints(t, 2, c0) == Read::Got(c1, 14));
}

/// A REFERENCES that names only a table means its column `id`, and holds rows fast that are referred to.
pub proof fn law_bare_reference(c: Seq<char>, rf: Seq<char>, u: Seq<char>)
    requires
        ascii_upper(rf) == "REFERENCES"@,
    ensures
        g_column_def(seq![word(c), sign(Kind::Int), word(rf), word(u)], 0) matches Read::Got(d, e) && e == 4 && declared(d, c, DataType::Int64) && d.references == Some((u, "id"@)) && d.on_delete == FkAction::Restrict && d.on_update == FkAction::Restrict,
{
    let t = seq![word(c), sign(Kind::Int), word(rf), word(u)];
    assert(t.len() == 4);
    assert(tok(t, 0) == word(c) && tok(t, 1) == sign(Kind::Int) && tok(t, 2) == word(rf) && tok(t, 3) == word(u) && tok(t, 4) == sign(Kind::Eof));
    let c0 = plain_column(c, DataType::Int64, None);
    assert(g_type(t, 1) == Read::Got((DataType::Int64, None::<usize>), 2));
    reveal_strlit("REFERENCES");
    reveal_strlit("CHECK");
    assert("REFERENCES"@.len() == 10 && "CHECK"@.len() == 5);
    let c1 = ColumnDefView { references: Some((u, "id"@)), on_delete: FkAction::Restrict, on_update: FkAction::Restrict, ..c0 };
    assert(g_ref_column(t, 4) == Read::Got("id"@, 4));
    assert(g_fk_actions(t, 4, FkAction::Restrict, FkAction::Restrict) == Read::Got((FkAction::Restrict, FkAction::Restrict), 4));
    assert(g_references(t, 3, c0) == Read::Got(c1, 4));
    assert(g_constraint(t, 2, c0) == Read::Got(c1, 4));
    assert(g_constraints(t, 4, c1) == Read::Got(c1, 4));
    assert(g_constraints(t, 2, c0) == Read::Got(c1, 4));
}

/// What the elements of a table declare that has an integer key and a unique text.
spec fn two_columns(a: Seq<char>, b: Seq<char>) -> TableParts {
    TableParts {
        columns: seq![plain_column(a, DataType::Int64, None), plain_column(b, DataType::Text, None)],
        checks: Seq::empty(),
        fks: Seq::empty(),
        keys: seq![a],
        uniques: seq![b],
    }
}

proof fn lemma_two_columns(t: Seq<TokenView>, a: Seq<char>, b: Seq<char>)
    requires
        t.len() == 21,
        !starts_table_constraint(word(a)),
        !starts_table_constraint(word(b)),
        tok(t, 4) == word(a),
        tok(t, 5) == sign(Kind::Int),
        tok(t, 6) == sign(Kind::Comma),
        tok(t, 7) == word(b),
        tok(t, 8) == sign(Kind::Text),
        tok(t, 9) == sign(Kind::Comma),
        tok(t, 10) == sign(Kind::Primary),
        tok(t, 11) == sign(Kind::Key),
        tok(t, 12) == sign(Kind::LParen),
        tok(t, 13) == word(a),
        tok(t, 14) == sign(Kind::RParen),
        tok(t, 15) == sign(Kind::Comma),
        tok(t, 16) == sign(Kind::Unique),
        tok(t, 17) == sign(Kind::LParen),
        tok(t, 18) == word(b),
        tok(t, 19) == sign(Kind::RParen),
        tok(t, 20) == sign(Kind::RParen),
    ensures
        g_elements(t, 4, no_parts()) == Read::Got(two_columns(a, b), 20),
{
    let p0 = no_parts();
    let ca = plain_column(a, DataType::Int64, None);
    let cb = plain_column(b, DataType::Text, None);
    let p1 = TableParts { columns: p0.columns.push(ca), ..p0 };
    let p2 = TableParts { columns: p1.columns.push(cb), ..p1 };
    let p3 = TableParts { keys: p2.keys + seq![a], ..p2 };
    let p4 = TableParts { uniques: p3.uniques + seq![b], ..p3 };
    assert(g_type(t, 5) == Read::Got((DataType::Int64, None::<usize>), 6));
    assert(g_constraints(t, 6, ca) == Read::Got(ca, 6));
    assert(g_column_def(t, 4) == Read::Got(ca, 6));
    assert(g_element(t, 4, p0) == Read::Got(p1, 6));
    assert(g_type(t, 8) == Read::Got((DataType::Text, None::<usize>), 9));
    assert(g_constraints(t, 9, cb) == Read::Got(cb, 9));
    assert(g_column_def(t, 7) == Read::Got(cb, 9));
    assert(g_element(t, 7, p1) == Read::Got(p2, 9));
    let names = Seq::<Seq<char>>::empty();
    assert(names.push(a) =~= seq![a]);
    assert(names.push(b) =~= seq![b]);
    assert(g_names(t, 13, names) == Read::Got(seq![a], 14));
    assert(g_name_group(t, 12) == Read::Got(seq![a], 15));
    assert(g_element(t, 10, p2) == Read::Got(p3, 15));
    assert(g_names(t, 18, names) == Read::Got(seq![b], 19));
    assert(g_name_group(t, 17) == Read::Got(seq![b], 20));
    assert(seq![b].len() == 1);
    assert(g_element(t, 16, p3) == Read::Got(p4, 20));
    assert(g_elements(t, 16, p3) == Read::Got(p4, 20));
    assert(g_elements(t, 10, p2) == Read::Got(p4, 20));
    assert(g_elements(t, 7, p1) == Read::Got(p4, 20));
    assert(g_elements(t, 4, p0) == Read::Got(p4, 20));
    assert(p4.keys =~= seq![a]);
    assert(p4.uniques =~= seq![b]);
    assert(p4.columns =~= seq![ca, cb]);
    assert(p4 == two_columns(a, b));
}

proof fn lemma_marked(a: Seq<char>, b: Seq<char>)
    requires
        a != b,
    ensures
        all_columns(two_columns(a, b).columns, two_columns(a, b).keys),
        all_columns(two_columns(a, b).columns, two_columns(a, b).uniques),
        marked_columns(two_columns(a, b).columns, two_columns(a, b).keys, two_columns(a, b).uniques) == seq![
            ColumnDefView { primary_key: true, nullable: false, ..plain_column(a, DataType::Int64, None) },
            ColumnDefView { unique: true, ..plain_column(b, DataType::Text, None) },
        ],
{
    let p = two_columns(a, b);
    assert(p.columns[0].name == a && p.columns[1].name == b);
    assert(p.keys[0] == a && p.uniques[0] == b);
    assert(p.keys.contains(a) && !p.keys.contains(b) && p.uniques.contains(b) && !p.uniques.contains(a));
    assert(has_column(p.columns, a) && has_column(p.columns, b));
    let m = marked_columns(p.columns, p.keys, p.uniques);
    let ca = ColumnDefView { primary_key: true, nullable: false, ..plain_column(a, DataType::Int64, None) };
    let cb = ColumnDefView { unique: true, ..plain_column(b, DataType::Text, None) };
    assert(m[0] == ca);
    assert(m[1] == cb);
    assert(m =~= seq![ca, cb]);
}

proof fn lemma_created(t: Seq<TokenView>, s: StatementView)
    requires
        t.len() == 21,
        tok(t, 0) == sign(Kind::Create),
        tok(t, 1) == sign(Kind::Table),
        g_create_table(t, 1) == Read::Got(s, 21),
    ensures
        g_parse(t, 0) == Read::Got(s, 21),
{
    assert(tok(t, 21) == sign(Kind::Eof));
    assert(g_create(t, 0) == Read::Got(s, 21));
    assert(g_statement(t, 0) == Read::Got(s, 21));
    assert(g_set_ops(t, 21, s) == Read::Got(s, 21));
}

proof fn lemma_create_table(t: Seq<TokenView>, tb: Seq<char>, a: Seq<char>, b: Seq<char>)
    requires
        a != b,
        !starts_table_constraint(word(a)),
        !starts_table_constraint(word(b)),
        t.len() == 21,
        tok(t, 0) == sign(Kind::Create),
        tok(t, 1) == sign(Kind::Table),
        tok(t, 2) == word(tb),
        tok(t, 3) == sign(Kind::LParen),
        tok(t, 4) == word(a),
        tok(t, 5) == sign(Kind::Int),
        tok(t, 6) == sign(Kind::Comma),
        tok(t, 7) == word(b),
        tok(t, 8) == sign(Kind::Text),
        tok(t, 9) == sign(Kind::Comma),
        tok(t, 10) == sign(Kind::Primary),
        tok(t, 11) == sign(Kind::Key),
        tok(t, 12) == sign(Kind::LParen),
        tok(t, 13) == word(a),
        tok(t, 14) == sign(Kind::RParen),
        tok(t, 15) == sign(Kind::Comma),
        tok(t, 16) == sign(Kind::Unique),
        tok(t, 17) == sign(Kind::LParen),
        tok(t, 18) == word(b),
        tok(t, 19) == sign(Kind::RParen),
        tok(t, 20) == sign(Kind::RParen),
    ensures
        g_parse(t, 0) == Read::Got(
            StatementView::CreateTable(
                CreateTableStmtView {
                    name: tb,
                    columns: seq![
                        ColumnDefView { primary_key: true, nullable: false, ..plain_column(a, DataType::Int64, None) },
                        ColumnDefView { unique: true, ..plain_column(b, DataType::Text, None) },
                    ],
                    if_not_exists: false,
                    check_constraints: Seq::empty(),
                    foreign_keys: Seq::empty(),
                },
            ),
            21,
        ),
{
    lemma_two_columns(t, a, b);
    lemma_marked(a, b);
    let p4 = two_columns(a, b);
    let s = StatementView::CreateTable(
        CreateTableStmtView {
            name: tb,
            columns: marked_columns(p4.columns, p4.keys, p4.uniques),
            if_not_exists: false,
            check_constraints: p4.checks,
            foreign_keys: p4.fks,
        },
    );
    assert(g_create_table(t, 1) == Read::Got(s, 21));
    lemma_created(t, s);
}

/// CREATE TABLE: its columns in the order in which they stand; the table's PRIMARY KEY makes its
/// column the key, and the table's UNIQUE makes its column unique.
#[verifier::spinoff_prover]
pub proof fn law_create_table_parts(tb: Seq<char>, a: Seq<char>, b: Seq<char>)
    requires
        a != b,
        !starts_table_constraint(word(a)),
        !starts_table_constraint(word(b)),
    ensures
        g_parse(seq![sign(Kind::Create), sign(Kind::Table), word(tb), sign(Kind::LParen), word(a), sign(Kind::Int), sign(Kind::Comma), word(b), sign(Kind::Text), sign(Kind::Comma), sign(Kind::Primary), sign(Kind::Key), sign(Kind::LParen), word(a), sign(Kind::RParen), sign(Kind::Comma), sign(Kind::Unique), sign(Kind::LParen), word(b), sign(Kind::RParen), sign(Kind::RParen)], 0) matches Read::Got(StatementView::CreateTable(s), e) && {
            &&& e == 21
            &&& s.name == tb
            &&& !s.if_not_exists
            &&& s.columns.len() == 2
            &&& declared(s.columns[0], a, DataType::Int64)
            &&& s.columns[0].primary_key && !s.columns[0].nullable && !s.columns[0].unique
            &&& declared(s.columns[1], b, DataType::Text)
            &&& !s.columns[1].primary_key && s.columns[1].nullable && s.columns[1].unique
            &&& s.check_constraints.len() == 0
            &&& s.foreign_keys.len() == 0
        },
{
    let t = seq![sign(Kind::Create), sign(Kind::Table), word(tb), sign(Kind::LParen), word(a), sign(Kind::Int), sign(Kind::Comma), word(b), sign(Kind::Text), sign(Kind::Comma), sign(Kind::Primary), sign(Kind::Key), sign(Kind::LParen), word(a), sign(Kind::RParen), sign(Kind::Comma), sign(Kind::Unique), sign(Kind::LParen), word(b), sign(Kind::RParen), sign(Kind::RParen)];
    assert(t.len() == 21);
    assert(tok(t, 0) == sign(Kind::Create) && tok(t, 1) == sign(Kind::Table) && tok(t, 2) == word(tb) && tok(t, 3) == sign(Kind::LParen) && tok(t, 4) == word(a) && tok(t, 5) == sign(Kind::Int) && tok(t, 6) == sign(Kind::Comma) && tok(t, 7) == word(b) && tok(t, 8) == sign(Kind::Text) && tok(t, 9) == sign(Kind::Comma) && tok(t, 10) == sign(Kind::Primary) && tok(t, 11) == sign(Kind::Key) && tok(t, 12) == sign(Kind::LParen) && tok(t, 13) == word(a) && tok(t, 14) == sign(Kind::RParen) && tok(t, 15) == sign(Kind::Comma) && tok(t, 16) == sign(Kind::Unique) && tok(t, 17) == sign(Kind::LParen) && tok(t, 18) == word(b) && tok(t, 19) == sign(Kind::RParen) && tok(t, 20) == sign(Kind::RParen) && tok(t, 21) == sign(Kind::Eof));
    lemma_create_table(t, tb, a, b);
}

/// A foreign key of the table: its columns, and those that they refer to, each in the order in which
/// they stand.
pub proof fn law_foreign_key_parts(a: Seq<char>, b: Seq<char>, rf: Seq<char>, u: Seq<char>, c: Seq<char>, d: Seq<char>)
    requires
        ascii_upper(rf) == "REFERENCES"@,
    ensures
        g_foreign_key(seq![sign(Kind::Key), sign(Kind::LParen), word(a), sign(Kind::Comma), word(b), sign(Kind::RParen), word(rf), word(u), sign(Kind::LParen), word(c), sign(Kind::Comma), word(d), sign(Kind::RParen), sign(Kind::On), sign(Kind::Delete), sign(Kind::Cascade)], 0) == Read::Got(
            ForeignKeyDefView {
                columns: seq![a, b],
                ref_table: u,
                ref_columns: seq![c, d],
                on_delete: FkAction::Cascade,
                on_update: FkAction::Restrict,
            },
            16,
        ),
{
    let t = seq![sign(Kind::Key), sign(Kind::LParen), word(a), sign(Kind::Comma), word(b), sign(Kind::RParen), word(rf), word(u), sign(Kind::LParen), word(c), sign(Kind::Comma), word(d), sign(Kind::RParen), sign(Kind::On), sign(Kind::Delete), sign(Kind::Cascade)];
    assert(t.len() == 16);
    assert(tok(t, 0) == sign(Kind::Key) && tok(t, 1) == sign(Kind::LParen) && tok(t, 2) == word(a) && tok(t, 3) == sign(Kind::Comma) && tok(t, 4) == word(b) && tok(t, 5) == sign(Kind::RParen) && tok(t, 6) == word(rf) && tok(t, 7) == word(u) && tok(t, 8) == sign(Kind::LParen) && tok(t, 9) == word(c) && tok(t, 10) == sign(Kind::Comma) && tok(t, 11) == word(d) && tok(t, 12) == sign(Kind::RParen) && tok(t, 13) == sign(Kind::On) && tok(t, 14) == sign(Kind::Delete) && tok(t, 15) == sign(Kind::Cascade) && tok(t, 16) == sign(Kind::Eof));
    let names = Seq::<Seq<char>>::empty();
    assert(names.push(a).push(b) =~= seq![a, b]);
    assert(names.push(c).push(d) =~= seq![c, d]);
    assert(g_names(t, 4, names.push(a)) == Read::Got(seq![a, b], 5));
    assert(g_names(t, 2, names) == Read::Got(seq![a, b], 5));
    assert(g_name_group(t, 1) == Read::Got(seq![a, b], 6));
    assert(g_names(t, 11, names.push(c)) == Read::Got(seq![c, d], 12));
    assert(g_names(t, 9, names) == Read::Got(seq![c, d], 12));
    assert(g_name_group(t, 8) == Read::Got(seq![c, d], 13));
    assert(g_fk_action(t, 15) == Read::Got(FkAction::Cascade, 16));
    assert(g_fk_actions(t, 16, FkAction::Cascade, FkAction::Restrict) == Read::Got((FkAction::Cascade, FkAction::Restrict), 16));
    assert(g_fk_actions(t, 13, FkAction::Restrict, FkAction::Restrict) == Read::Got((FkAction::Cascade, FkAction::Restrict), 16));
}

/// DROP of a table, an index and a database; IF EXISTS is kept.
pub proof fn law_drop_words(x: Seq<char>)
    ensures
        g_parse(seq![sign(Kind::Drop), sign(Kind::Table), word(x)], 0) == Read::Got(StatementView::DropTable(DropTableStmtView { name: x, if_exists: false }), 3),
        g_parse(seq![sign(Kind::Drop), sign(Kind::Table), sign(Kind::If), sign(Kind::Exists), word(x)], 0) == Read::Got(StatementView::DropTable(DropTableStmtView { name: x, if_exists: true }), 5),
        g_parse(seq![sign(Kind::Drop), sign(Kind::Index), word(x)], 0) == Read::Got(StatementView::DropIndex(x), 3),
        g_parse(seq![sign(Kind::Drop), sign(Kind::Database), word(x)], 0) == Read::Got(StatementView::DropDatabase { name: x, if_exists: false }, 3),
{
    let t0 = seq![sign(Kind::Drop), sign(Kind::Table), word(x)];
    assert(t0.len() == 3);
    assert(tok(t0, 0) == sign(Kind::Drop) && tok(t0, 1) == sign(Kind::Table) && tok(t0, 2) == word(x) && tok(t0, 3) == sign(Kind::Eof));
    let s0 = StatementView::DropTable(DropTableStmtView { name: x, if_exists: false });
    assert(g_statement(t0, 0) == Read::Got(s0, 3));
    assert(g_set_ops(t0, 3, s0) == Read::Got(s0, 3));
    let t1 = seq![sign(Kind::Drop), sign(Kind::Table), sign(Kind::If), sign(Kind::Exists), word(x)];
    assert(t1.len() == 5);
    assert(tok(t1, 0) == sign(Kind::Drop) && tok(t1, 1) == sign(Kind::Table) && tok(t1, 2) == sign(Kind::If) && tok(t1, 3) == sign(Kind::Exists) && tok(t1, 4) == word(x) && tok(t1, 5) == sign(Kind::Eof));
    let s1 = StatementView::DropTable(DropTableStmtView { name: x, if_exists: true });
    assert(g_statement(t1, 0) == Read::Got(s1, 5));
    assert(g_set_ops(t1, 5, s1) == Read::Got(s1, 5));
    let t2 = seq![sign(Kind::Drop), sign(Kind::Index), word(x)];
    assert(t2.len() == 3);
    assert(tok(t2, 0) == sign(Kind::Drop) && tok(t2, 1) == sign(Kind::Index) && tok(t2, 2) == word(x) && tok(t2, 3) == sign(Kind::Eof));
    let s2 = StatementView::DropIndex(x);
    assert(g_statement(t2, 0) == Read::Got(s2, 3));
    assert(g_set_ops(t2, 3, s2) == Read::Got(s2, 3));
    let t3 = seq![sign(Kind::Drop), sign(Kind::Database), word(x)];
    assert(t3.len() == 3);
    assert(tok(t3, 0) == sign(Kind::Drop) && tok(t3, 1) == sign(Kind::Database) && tok(t3, 2) == word(x) && tok(t3, 3) == sign(Kind::Eof));
    let s3 = StatementView::DropDatabase { name: x, if_exists: false };
    assert(g_statement(t3, 0) == Read::Got(s3, 3));
    assert(g_set_ops(t3, 3, s3) == Read::Got(s3, 3));
}

/// CREATE INDEX: the index, its table, and its columns in the order in which they stand.
pub proof fn law_index_words(x: Seq<char>, tb: Seq<char>, a: Seq<char>, b: Seq<char>)
    ensures
        g_parse(seq![sign(Kind::Create), sign(Kind::Index), word(x), sign(Kind::On), word(tb), sign(Kind::LParen), word(a), sign(Kind::Comma), word(b), sign(Kind::RParen)], 0) == Read::Got(StatementView::CreateIndex(CreateIndexStmtView { name: x, table: tb, columns: seq![a, b], unique: false }), 10),
{
    let t0 = seq![sign(Kind::Create), sign(Kind::Index), word(x), sign(Kind::On), word(tb), sign(Kind::LParen), word(a), sign(Kind::Comma), word(b), sign(Kind::RParen)];
    assert(t0.len() == 10);
    assert(tok(t0, 0) == sign(Kind::Create) && tok(t0, 1) == sign(Kind::Index) && tok(t0, 2) == word(x) && tok(t0, 3) == sign(Kind::On) && tok(t0, 4) == word(tb) && tok(t0, 5) == sign(Kind::LParen) && tok(t0, 6) == word(a) && tok(t0, 7) == sign(Kind::Comma) && tok(t0, 8) == word(b) && tok(t0, 9) == sign(Kind::RParen) && tok(t0, 10) == sign(Kind::Eof));
    assert(Seq::<Seq<char>>::empty().push(a).push(b) =~= seq![a, b]);
    assert(g_names(t0, 8, Seq::<Seq<char>>::empty().push(a)) == Read::Got(seq![a, b], 9));
    assert(g_names(t0, 6, Seq::empty()) == Read::Got(seq![a, b], 9));
    assert(g_name_group(t0, 5) == Read::Got(seq![a, b], 10));
    assert(g_create_index(t0, 2, false) == Read::Got(StatementView::CreateIndex(CreateIndexStmtView { name: x, table: tb, columns: seq![a, b], unique: false }), 10));
    let s0 = StatementView::CreateIndex(CreateIndexStmtView { name: x, table: tb, columns: seq![a, b], unique: false });
    assert(g_statement(t0, 0) == Read::Got(s0, 10));
    assert(g_set_ops(t0, 10, s0) == Read::Got(s0, 10));
}

/// CREATE UNIQUE INDEX: the index, its table, and its columns in the order in which they stand.
pub proof fn law_unique_index_words(x: Seq<char>, tb: Seq<char>, a: Seq<char>, b: Seq<char>)
    ensures
        g_parse(seq![sign(Kind::Create), sign(Kind::Unique), sign(Kind::Index), word(x), sign(Kind::On), word(tb), sign(Kind::LParen), word(a), sign(Kind::Comma), word(b), sign(Kind::RParen)], 0) == Read::Got(StatementView::CreateIndex(CreateIndexStmtView { name: x, table: tb, columns: seq![a, b], unique: true }), 11),
{
    let t0 = seq![sign(Kind::Create), sign(Kind::Unique), sign(Kind::Index), word(x), sign(Kind::On), word(tb), sign(Kind::LParen), word(a), sign(Kind::Comma), word(b), sign(Kind::RParen)];
    assert(t0.len() == 11);
    assert(tok(t0, 0) == sign(Kind::Create) && tok(t0, 1) == sign(Kind::Unique) && tok(t0, 2) == sign(Kind::Index) && tok(t0, 3) == word(x) && tok(t0, 4) == sign(Kind::On) && tok(t0, 5) == word(tb) && tok(t0, 6) == sign(Kind::LParen) && tok(t0, 7) == word(a) && tok(t0, 8) == sign(Kind::Comma) && tok(t0, 9) == word(b) && tok(t0, 10) == sign(Kind::RParen) && tok(t0, 11) == sign(Kind::Eof));
    assert(Seq::<Seq<char>>::empty().push(a).push(b) =~= seq![a, b]);
    assert(g_names(t0, 9, Seq::<Seq<char>>::empty().push(a)) == Read::Got(seq![a, b], 10));
    assert(g_names(t0, 7, Seq::empty()) == Read::Got(seq![a, b], 10));
    assert(g_name_group(t0, 6) == Read::Got(seq![a, b], 11));
    assert(g_create_index(t0, 3, true) == Read::Got(StatementView::CreateIndex(CreateIndexStmtView { name: x, table: tb, columns: seq![a, b], unique: true }), 11));
    let s0 = StatementView::CreateIndex(CreateIndexStmtView { name: x, table: tb, columns: seq![a, b], unique: true });
    assert(g_statement(t0, 0) == Read::Got(s0, 11));
    assert(g_set_ops(t0, 11, s0) == Read::Got(s0, 11));
}

/// ALTER TABLE: a column is dropped, or renamed from the first name to the second.
pub proof fn law_alter_words(tb: Seq<char>, a: Seq<char>, b: Seq<char>)
    ensures
        g_parse(seq![sign(Kind::Alter), sign(Kind::Table), word(tb), sign(Kind::Drop), sign(Kind::Column), word(a)], 0) == Read::Got(StatementView::AlterTable(AlterTableStmtView { table: tb, action: AlterTableActionView::DropColumn(a) }), 6),
        g_parse(seq![sign(Kind::Alter), sign(Kind::Table), word(tb), sign(Kind::Rename), sign(Kind::Column), word(a), sign(Kind::To), word(b)], 0) == Read::Got(StatementView::AlterTable(AlterTableStmtView { table: tb, action: AlterTableActionView::RenameColumn { old_name: a, new_name: b } }), 8),
{
    let t0 = seq![sign(Kind::Alter), sign(Kind::Table), word(tb), sign(Kind::Drop), sign(Kind::Column), word(a)];
    assert(t0.len() == 6);
    assert(tok(t0, 0) == sign(Kind::Alter) && tok(t0, 1) == sign(Kind::Table) && tok(t0, 2) == word(tb) && tok(t0, 3) == sign(Kind::Drop) && tok(t0, 4) == sign(Kind::Column) && tok(t0, 5) == word(a) && tok(t0, 6) == sign(Kind::Eof));
    let s0 = StatementView::AlterTable(AlterTableStmtView { table: tb, action: AlterTableActionView::DropColumn(a) });
    assert(g_statement(t0, 0) == Read::Got(s0, 6));
    assert(g_set_ops(t0, 6, s0) == Read::Got(s0, 6));
    let t1 = seq![sign(Kind::Alter), sign(Kind::Table), word(tb), sign(Kind::Rename), sign(Kind::Column), word(a), sign(Kind::To), word(b)];
    assert(t1.len() == 8);
    assert(tok(t1, 0) == sign(Kind::Alter) && tok(t1, 1) == sign(Kind::Table) && tok(t1, 2) == word(tb) && tok(t1, 3) == sign(Kind::Rename) && tok(t1, 4) == sign(Kind::Column) && tok(t1, 5) == word(a) && tok(t1, 6) == sign(Kind::To) && tok(t1, 7) == word(b) && tok(t1, 8) == sign(Kind::Eof));
    let s1 = StatementView::AlterTable(AlterTableStmtView { table: tb, action: AlterTableActionView::RenameColumn { old_name: a, new_name: b } });
    assert(g_statement(t1, 0) == Read::Got(s1, 8));
    assert(g_set_ops(t1, 8, s1) == Read::Got(s1, 8));
}

/// `SELECT * FROM t`.
pub open spec fn star_query(tb: Seq<char>) -> SelectStmtView {
    SelectStmtView {
        columns: seq![SelectColumnView::Star],
        distinct: false,
        from: FromClauseView::Table(tb),
        from_alias: None,
        joins: Seq::empty(),
        where_clause: None,
        group_by: Seq::empty(),
        having: None,
        order_by: Seq::empty(),
        limit: None,
        offset: None,
        ctes: Seq::empty(),
    }
}

/// Whether a token ends a query.
pub open spec fn ends_query(k: TokenView) -> bool {
    k == sign(Kind::Eof) || k == sign(Kind::Union) || k == sign(Kind::Intersect) || k == sign(Kind::Except)
}

proof fn lemma_star_query(t: Seq<TokenView>, p: int, tb: Seq<char>)
    requires
        0 <= p,
        p + 4 <= t.len(),
        tok(t, p) == sign(Kind::Select),
        tok(t, p + 1) == sign(Kind::Star),
        tok(t, p + 2) == sign(Kind::From),
        tok(t, p + 3) == word(tb),
        ends_query(tok(t, p + 4)),
    ensures
        g_statement(t, p) == Read::Got(StatementView::Select(star_query(tb)), p + 4),
{
    let q = p + 4;
    assert(g_columns(t, p + 1) == Read::Got(seq![SelectColumnView::Star], p + 2));
    assert(g_from(t, p + 2) == Read::Got((FromClauseView::Table(tb), None::<Seq<char>>), q));
    assert(g_joins(t, q, Seq::empty()) == Read::Got(Seq::<JoinClauseView>::empty(), q));
    assert(g_select_head(t, p + 1, false) == Read::Got(star_query(tb), q));
    assert(g_opt_where(t, q) == Read::Got(None::<ExprView>, q));
    assert(g_opt_group(t, q) == Read::Got(Seq::<ExprView>::empty(), q));
    assert(g_where_group(t, q) == Read::Got((None::<ExprView>, Seq::<ExprView>::empty()), q));
    assert(g_opt_having(t, q) == Read::Got(None::<ExprView>, q));
    assert(g_opt_order(t, q) == Read::Got(Seq::<OrderByExprView>::empty(), q));
    assert(g_having_order(t, q) == Read::Got((None::<ExprView>, Seq::<OrderByExprView>::empty()), q));
    assert(g_limit_offset(t, q) == Read::Got((None::<usize>, None::<usize>), q));
    assert(g_select_tail(t, q, star_query(tb)) == Read::Got(star_query(tb), q));
    assert(g_select(t, p + 1) == Read::Got(star_query(tb), q));
    assert(g_plain_select(t, p) == Read::Got(StatementView::Select(star_query(tb)), q));
}

/// The set operation that a word between two queries stands for, the first query on its left.
pub open spec fn combines_as(k: Kind, l: StatementView, r: StatementView, all: bool, s: StatementView) -> bool {
    ||| k == Kind::Union && s == StatementView::Union(Box::new(l), Box::new(r), all)
    ||| k == Kind::Intersect && s == StatementView::Intersect(Box::new(l), Box::new(r), all)
    ||| k == Kind::Except && s == StatementView::Except(Box::new(l), Box::new(r), all)
}

proof fn lemma_combined(t: Seq<TokenView>, p: int, k: Kind, l: StatementView, q: int, r: StatementView, all: bool, s: StatementView)
    requires
        0 <= p < q < t.len(),
        tok(t, p) == sign(k),
        q == if all { p + 2 } else { p + 1 },
        tok(t, p + 1) == sign(if all { Kind::All } else { Kind::Select }),
        g_statement(t, q) == Read::Got(r, t.len() as int),
        combines_as(k, l, r, all, s),
    ensures
        g_set_ops(t, p, l) == Read::Got(s, t.len() as int),
{
    let e = t.len() as int;
    assert(tok(t, e) == sign(Kind::Eof));
    assert(g_set_ops(t, e, r) == Read::Got(r, e));
}

/// UNION, INTERSECT and EXCEPT between two queries.
#[verifier::spinoff_prover]
pub proof fn law_set_words(a: Seq<char>, k: Kind, b: Seq<char>, s: StatementView)
    requires
        combines_as(k, StatementView::Select(star_query(a)), StatementView::Select(star_query(b)), false, s),
    ensures
        g_parse(seq![sign(Kind::Select), sign(Kind::Star), sign(Kind::From), word(a), sign(k), sign(Kind::Select), sign(Kind::Star), sign(Kind::From), word(b)], 0) == Read::Got(s, 9),
{
    let t = seq![sign(Kind::Select), sign(Kind::Star), sign(Kind::From), word(a), sign(k), sign(Kind::Select), sign(Kind::Star), sign(Kind::From), word(b)];
    assert(t.len() == 9);
    assert(tok(t, 0) == sign(Kind::Select) && tok(t, 1) == sign(Kind::Star) && tok(t, 2) == sign(Kind::From) && tok(t, 3) == word(a));
    assert(tok(t, 4) == sign(k) && tok(t, 9) == sign(Kind::Eof));
    assert(tok(t, 5) == sign(Kind::Select) && tok(t, 6) == sign(Kind::Star) && tok(t, 7) == sign(Kind::From) && tok(t, 8) == word(b));
    lemma_star_query(t, 0, a);
    lemma_star_query(t, 5, b);
    lemma_combined(t, 4, k, StatementView::Select(star_query(a)), 5, StatementView::Select(star_query(b)), false, s);
}

/// ALL behind UNION, INTERSECT or EXCEPT keeps what occurs more than once.
#[verifier::spinoff_prover]
pub proof fn law_set_words_all(a: Seq<char>, k: Kind, b: Seq<char>, s: StatementView)
    requires
        combines_as(k, StatementView::Select(star_query(a)), StatementView::Select(star_query(b)), true, s),
    ensures
        g_parse(seq![sign(Kind::Select), sign(Kind::Star), sign(Kind::From), word(a), sign(k), sign(Kind::All), sign(Kind::Select), sign(Kind::Star), sign(Kind::From), word(b)], 0) == Read::Got(s, 10),
{
    let t = seq![sign(Kind::Select), sign(Kind::Star), sign(Kind::From), word(a), sign(k), sign(Kind::All), sign(Kind::Select), sign(Kind::Star), sign(Kind::From), word(b)];
    assert(t.len() == 10);
    assert(tok(t, 0) == sign(Kind::Select) && tok(t, 1) == sign(Kind::Star) && tok(t, 2) == sign(Kind::From) && tok(t, 3) == word(a));
    assert(tok(t, 4) == sign(k) && tok(t, 5) == sign(Kind::All) && tok(t, 10) == sign(Kind::Eof));
    assert(tok(t, 6) == sign(Kind::Select) && tok(t, 7) == sign(Kind::Star) && tok(t, 8) == sign(Kind::From) && tok(t, 9) == word(b));
    lemma_star_query(t, 0, a);
    lemma_star_query(t, 6, b);
    lemma_combined(t, 4, k, StatementView::Select(star_query(a)), 6, StatementView::Select(star_query(b)), true, s);
}

} // verus!
