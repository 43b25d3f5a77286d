use vstd::prelude::*;
use vstd::string::*;
use crate::error::{ErrorView, QueryError};
use crate::text::{int_to_text, join2, join3};
use crate::value::DataType;
use crate::value::names_view;
use super::ast::{AlterTableAction, AlterTableStmt, ColumnDef, ConflictAction, CreateIndexStmt, CreateTableStmt, Cte, DeleteStmt, DocDeleteStmt, DocFindStmt, DocInsertStmt, DocUpdateStmt, DropTableStmt, Expr, FkAction, ForeignKeyDef, InsertSource, InsertStmt, IsolationLevel, OnConflict, SelectColumn, SelectStmt, Statement, UpdateStmt};
use super::ast::{assignments_view, column_defs_push, ctes_view, exprs_push, foreign_key_defs_push, select_columns_view, value_rows_view};
use super::ast::{ColumnDefView, CreateTableStmtView, DeleteStmtView, InsertStmtView, SelectStmtView, StatementView, UpdateStmtView};
use super::elements::{Elements, append_names, mark_columns, names_known};
use super::grammar::Read;
use super::grammar::{at, all_columns, is_word, marked_columns, no_parts, plain_column, json_piece, set_op, skip_column_word, starts_constraint, starts_table_constraint, tok};
use super::grammar::{g_added_constraints, g_all, g_alter, g_alter_action, g_analyze, g_assignment, g_assignments, g_backup, g_begin, g_column_def, g_conflict_action, g_constraint, g_constraints, g_create, g_create_index, g_create_table, g_cte, g_ctes, g_delete, g_doc, g_doc_delete, g_doc_find, g_doc_insert, g_doc_update, g_drop, g_element, g_elements, g_explain, g_expr_group, g_fk_action, g_fk_actions, g_foreign_key, g_if_exists, g_if_not_exists, g_insert, g_insert_columns, g_json, g_json_object, g_kv, g_on_conflict, g_parse, g_plain_select, g_ref_column, g_references, g_restore, g_returning, g_row_statement, g_schema_statement, g_session_statement, g_set_ops, g_show, g_single, g_source, g_statement, g_stats_table, g_table_constraint, g_truncate, g_update, g_use, g_value_rows, g_with};
use super::parser::Parser;
use super::floats::write_float;
use super::messages::{say_stray, say_wanted};
use super::token::{Kind, Token};

verus! {

impl Parser {
    /// Reads what follows ON DELETE or ON UPDATE.
    pub(super) fn parse_fk_action(&mut self) -> (r: Result<FkAction, QueryError>)
        requires
            old(self).wf(),
        ensures
            final(self).wf(),
            final(self).toks() == old(self).toks(),
            final(self).pos() >= old(self).pos(),
            r is Ok ==> final(self).pos() > old(self).pos(),
            match r {
                Ok(x) => g_fk_action(old(self).toks(), old(self).pos()) == Read::Got(x, final(self).pos()),
                Err(e) => g_fk_action(old(self).toks(), old(self).pos()) matches Read::Wrong(m) && e@ == ErrorView::Parse(m),
            },
    {
        if self.at(Kind::Cascade) {
            self.advance();
            Ok(FkAction::Cascade)
        } else if self.at(Kind::Restrict) {
            self.advance();
            Ok(FkAction::Restrict)
        } else if self.at(Kind::SetKw) {
            self.advance();
            if self.at(Kind::NullLit) {
                self.advance();
                Ok(FkAction::SetNull)
            } else {
                Err(QueryError::Parse("Expected NULL after SET".to_string()))
            }
        } else if self.at_word("NO") {
            self.advance();
            if self.at_word("ACTION") {
                self.advance();
                Ok(FkAction::Restrict)
            } else {
                Err(QueryError::Parse("Expected ACTION after NO".to_string()))
            }
        } else {
            Err(QueryError::Parse(say_wanted("CASCADE/RESTRICT/SET NULL", self.current())))
        }
    }

    pub fn parse_fk_actions(&mut self) -> (r: Result<(FkAction, FkAction), QueryError>)
        requires
            old(self).wf(),
        ensures
            final(self).wf(),
            final(self).toks() == old(self).toks(),
            final(self).pos() >= old(self).pos(),
            match r {
                Ok(x) => g_fk_actions(old(self).toks(), old(self).pos(), FkAction::Restrict, FkAction::Restrict) == Read::Got(x, final(self).pos()),
                Err(e) => g_fk_actions(old(self).toks(), old(self).pos(), FkAction::Restrict, FkAction::Restrict) matches Read::Wrong(m) && e@ == ErrorView::Parse(m),
            },
    {
        let mut on_delete = FkAction::Restrict;
        let mut on_update = FkAction::Restrict;
        while self.at(Kind::On)
            invariant
                self.wf(),
                self.toks() == old(self).toks(),
                old(self).pos() <= self.pos(),
                g_fk_actions(old(self).toks(), old(self).pos(), FkAction::Restrict, FkAction::Restrict) == g_fk_actions(
                    self.toks(),
                    self.pos(),
                    on_delete,
                    on_update,
                ),
            decreases self.toks().len() - self.pos(),
        {
            self.advance();
            if self.at(Kind::Delete) {
                self.advance();
                on_delete = self.parse_fk_action()?;
            } else if self.at(Kind::Update) {
                self.advance();
                on_update = self.parse_fk_action()?;
            } else {
                return Err(QueryError::Parse("Expected DELETE or UPDATE after ON".to_string()));
            }
        }
        Ok((on_delete, on_update))
    }

    /// Reads an expression in parentheses.
    pub(super) fn parse_expr_group(&mut self) -> (r: Result<Expr, QueryError>)
        requires
            old(self).wf(),
        ensures
            final(self).wf(),
            final(self).toks() == old(self).toks(),
            final(self).pos() >= old(self).pos(),
            r is Ok ==> final(self).pos() > old(self).pos(),
            match r {
                Ok(x) => g_expr_group(old(self).toks(), old(self).pos()) == Read::Got(x@, final(self).pos()),
                Err(e) => g_expr_group(old(self).toks(), old(self).pos()) matches Read::Wrong(m) && e@ == ErrorView::Parse(m),
            },
    {
        self.expect(Kind::LParen)?;
        let e = self.parse_expr()?;
        self.expect(Kind::RParen)?;
        Ok(e)
    }

    pub(super) fn parse_ref_column(&mut self) -> (r: Result<String, QueryError>)
        requires
            old(self).wf(),
        ensures
            final(self).wf(),
            final(self).toks() == old(self).toks(),
            final(self).pos() >= old(self).pos(),
            match r {
                Ok(x) => g_ref_column(old(self).toks(), old(self).pos()) == Read::Got(x@, final(self).pos()),
                Err(e) => g_ref_column(old(self).toks(), old(self).pos()) matches Read::Wrong(m) && e@ == ErrorView::Parse(m),
            },
    {
        if self.at(Kind::LParen) {
            self.advance();
            let c = self.expect_ident()?;
            self.expect(Kind::RParen)?;
            Ok(c)
        } else {
            Ok("id".to_string())
        }
    }

    pub(super) fn at_constraint(&self) -> (r: bool)
        requires
            self.wf(),
        ensures
            r == starts_constraint(tok(self.toks(), self.pos())),
    {
        self.at(Kind::Not) || self.at(Kind::Primary) || self.at(Kind::Unique) || self.at(Kind::Default)
            || self.at_word("CHECK") || self.at_word("REFERENCES")
    }

    pub(super) fn with_references(c: ColumnDef, table: String, col: String, on_delete: FkAction, on_update: FkAction) -> (r: ColumnDef)
        ensures
            r@ == (ColumnDefView { references: Some((table@, col@)), on_delete, on_update, ..c@ }),
    {
        proof {
            broadcast use super::ast::column_def_view_made;
        }
        proof {
            c.unfold();
        }
        ColumnDef { references: Some((table, col)), on_delete, on_update, ..c }
    }

    pub(super) fn with_null_refused(c: ColumnDef) -> (r: ColumnDef)
        ensures
            r@ == (ColumnDefView { nullable: false, ..c@ }),
    {
        proof {
            broadcast use super::ast::column_def_view_made;
        }
        proof {
            c.unfold();
        }
        ColumnDef { nullable: false, ..c }
    }

    pub(super) fn with_key(c: ColumnDef) -> (r: ColumnDef)
        ensures
            r@ == (ColumnDefView { primary_key: true, nullable: false, ..c@ }),
    {
        proof {
            broadcast use super::ast::column_def_view_made;
        }
        proof {
            c.unfold();
        }
        ColumnDef { primary_key: true, nullable: false, ..c }
    }

    pub(super) fn with_serial(c: ColumnDef) -> (r: ColumnDef)
        ensures
            r@ == (ColumnDefView { auto_increment: true, primary_key: true, nullable: false, ..c@ }),
    {
        proof {
            broadcast use super::ast::column_def_view_made;
        }
        proof {
            c.unfold();
        }
        ColumnDef { auto_increment: true, primary_key: true, nullable: false, ..c }
    }

    pub(super) fn with_unique(c: ColumnDef) -> (r: ColumnDef)
        ensures
            r@ == (ColumnDefView { unique: true, ..c@ }),
    {
        proof {
            broadcast use super::ast::column_def_view_made;
        }
        proof {
            c.unfold();
        }
        ColumnDef { unique: true, ..c }
    }

    pub(super) fn with_default(c: ColumnDef, e: Expr) -> (r: ColumnDef)
        ensures
            r@ == (ColumnDefView { default: Some(e@), ..c@ }),
    {
        proof {
            broadcast use super::ast::column_def_view_made;
        }
        proof {
            c.unfold();
        }
        ColumnDef { default: Some(e), ..c }
    }

    pub(super) fn with_check(c: ColumnDef, e: Expr) -> (r: ColumnDef)
        ensures
            r@ == (ColumnDefView { check: Some(e@), ..c@ }),
    {
        proof {
            broadcast use super::ast::column_def_view_made;
        }
        proof {
            c.unfold();
        }
        ColumnDef { check: Some(e), ..c }
    }

    pub(super) fn bare_column(name: String, data_type: DataType, max_length: Option<usize>) -> (r: ColumnDef)
        ensures
            r@ == plain_column(name@, data_type, max_length),
    {
        proof {
            broadcast use super::ast::column_def_view_made;
        }
        ColumnDef {
            name,
            data_type,
            max_length,
            nullable: true,
            primary_key: false,
            unique: false,
            auto_increment: false,
            default: None,
            check: None,
            references: None,
            on_delete: FkAction::Restrict,
            on_update: FkAction::Restrict,
        }
    }

    /// Reads a REFERENCES of a column, from behind the word on.
    pub(super) fn parse_references(&mut self, c: ColumnDef) -> (r: Result<ColumnDef, QueryError>)
        requires
            old(self).wf(),
        ensures
            final(self).wf(),
            final(self).toks() == old(self).toks(),
            final(self).pos() >= old(self).pos(),
            r is Ok ==> final(self).pos() > old(self).pos(),
            match r {
                Ok(x) => g_references(old(self).toks(), old(self).pos(), c@) == Read::Got(x@, final(self).pos()),
                Err(e) => g_references(old(self).toks(), old(self).pos(), c@) matches Read::Wrong(m) && e@ == ErrorView::Parse(m),
            },
    {
        let table = self.expect_ident()?;
        let col = self.parse_ref_column()?;
        let (on_delete, on_update) = self.parse_fk_actions()?;
        Ok(Self::with_references(c, table, col, on_delete, on_update))
    }

    /// Reads one constraint behind a column's type.
    pub(super) fn parse_constraint(&mut self, c: ColumnDef) -> (r: Result<ColumnDef, QueryError>)
        requires
            old(self).wf(),
            starts_constraint(tok(old(self).toks(), old(self).pos())),
        ensures
            final(self).wf(),
            final(self).toks() == old(self).toks(),
            final(self).pos() >= old(self).pos(),
            r is Ok ==> final(self).pos() > old(self).pos(),
            match r {
                Ok(x) => g_constraint(old(self).toks(), old(self).pos(), c@) == Read::Got(x@, final(self).pos()),
                Err(e) => g_constraint(old(self).toks(), old(self).pos(), c@) matches Read::Wrong(m) && e@ == ErrorView::Parse(m),
            },
    {
        if self.at(Kind::Not) {
            self.advance();
            self.expect(Kind::NullLit)?;
            Ok(Self::with_null_refused(c))
        } else if self.at(Kind::Primary) {
            self.advance();
            self.expect(Kind::Key)?;
            Ok(Self::with_key(c))
        } else if self.at(Kind::Unique) {
            self.advance();
            Ok(Self::with_unique(c))
        } else if self.at(Kind::Default) {
            self.advance();
            let e = self.parse_primary()?;
            Ok(Self::with_default(c, e))
        } else if self.at_word("CHECK") {
            self.advance();
            let e = self.parse_expr_group()?;
            Ok(Self::with_check(c, e))
        } else {
            self.advance();
            self.parse_references(c)
        }
    }

    pub(super) fn parse_constraints(&mut self, column: ColumnDef) -> (r: Result<ColumnDef, QueryError>)
        requires
            old(self).wf(),
        ensures
            final(self).wf(),
            final(self).toks() == old(self).toks(),
            final(self).pos() >= old(self).pos(),
            match r {
                Ok(x) => g_constraints(old(self).toks(), old(self).pos(), column@) == Read::Got(x@, final(self).pos()),
                Err(e) => g_constraints(old(self).toks(), old(self).pos(), column@) matches Read::Wrong(m) && e@ == ErrorView::Parse(m),
            },
    {
        let mut c = column;
        while self.at_constraint()
            invariant
                self.wf(),
                self.toks() == old(self).toks(),
                old(self).pos() <= self.pos(),
                g_constraints(old(self).toks(), old(self).pos(), column@) == g_constraints(self.toks(), self.pos(), c@),
            decreases self.toks().len() - self.pos(),
        {
            c = self.parse_constraint(c)?;
        }
        Ok(c)
    }

    /// Reads a column definition.
    pub(super) fn parse_column_def(&mut self) -> (r: Result<ColumnDef, QueryError>)
        requires
            old(self).wf(),
        ensures
            final(self).wf(),
            final(self).toks() == old(self).toks(),
            final(self).pos() >= old(self).pos(),
            r is Ok ==> final(self).pos() > old(self).pos(),
            match r {
                Ok(x) => g_column_def(old(self).toks(), old(self).pos()) == Read::Got(x@, final(self).pos()),
                Err(e) => g_column_def(old(self).toks(), old(self).pos()) matches Read::Wrong(m) && e@ == ErrorView::Parse(m),
            },
    {
        let name = self.expect_ident()?;
        let (data_type, max_length) = self.parse_data_type()?;
        let serial = self.previous_data_type_serial();
        let c = self.parse_constraints(Self::bare_column(name, data_type, max_length))?;
        if serial {
            Ok(Self::with_serial(c))
        } else {
            Ok(c)
        }
    }

    /// Reads a foreign key of the table, from behind FOREIGN on.
    pub(super) fn parse_foreign_key(&mut self) -> (r: Result<ForeignKeyDef, QueryError>)
        requires
            old(self).wf(),
        ensures
            final(self).wf(),
            final(self).toks() == old(self).toks(),
            final(self).pos() >= old(self).pos(),
            r is Ok ==> final(self).pos() > old(self).pos(),
            match r {
                Ok(x) => g_foreign_key(old(self).toks(), old(self).pos()) == Read::Got(x@, final(self).pos()),
                Err(e) => g_foreign_key(old(self).toks(), old(self).pos()) matches Read::Wrong(m) && e@ == ErrorView::Parse(m),
            },
    {
        proof {
            broadcast use super::ast::foreign_key_def_view_made;
        }
        self.expect(Kind::Key)?;
        let columns = self.parse_name_group()?;
        if !self.at_word("REFERENCES") {
            return Err(QueryError::Parse("Expected REFERENCES".to_string()));
        }
        self.advance();
        let ref_table = self.expect_ident()?;
        let ref_columns = self.parse_name_group()?;
        let (on_delete, on_update) = self.parse_fk_actions()?;
        Ok(ForeignKeyDef { columns, ref_table, ref_columns, on_delete, on_update })
    }

    pub(super) fn parse_table_check(&mut self, a: &mut Elements) -> (r: Result<(), QueryError>)
        requires
            old(self).wf(),
            is_word(tok(old(self).toks(), old(self).pos()), "CHECK"@),
        ensures
            final(self).wf(),
            final(self).toks() == old(self).toks(),
            final(self).pos() >= old(self).pos(),
            r is Ok ==> final(self).pos() > old(self).pos(),
            match r {
                Ok(_) => g_table_constraint(old(self).toks(), old(self).pos(), old(a)@) == Read::Got(final(a)@, final(self).pos()),
                Err(e) => g_table_constraint(old(self).toks(), old(self).pos(), old(a)@) matches Read::Wrong(m) && e@ == ErrorView::Parse(m),
            },
    {
        self.advance();
        let e = self.parse_expr_group()?;
        proof {
            exprs_push(a.checks@, e);
        }
        a.checks.push(e);
        Ok(())
    }

    pub(super) fn parse_table_fk(&mut self, a: &mut Elements) -> (r: Result<(), QueryError>)
        requires
            old(self).wf(),
            is_word(tok(old(self).toks(), old(self).pos()), "FOREIGN"@),
            !is_word(tok(old(self).toks(), old(self).pos()), "CHECK"@),
        ensures
            final(self).wf(),
            final(self).toks() == old(self).toks(),
            final(self).pos() >= old(self).pos(),
            r is Ok ==> final(self).pos() > old(self).pos(),
            match r {
                Ok(_) => g_table_constraint(old(self).toks(), old(self).pos(), old(a)@) == Read::Got(final(a)@, final(self).pos()),
                Err(e) => g_table_constraint(old(self).toks(), old(self).pos(), old(a)@) matches Read::Wrong(m) && e@ == ErrorView::Parse(m),
            },
    {
        self.advance();
        let fk = self.parse_foreign_key()?;
        proof {
            foreign_key_defs_push(a.fks@, fk);
        }
        a.fks.push(fk);
        Ok(())
    }

    pub(super) fn parse_table_key(&mut self, a: &mut Elements) -> (r: Result<(), QueryError>)
        requires
            old(self).wf(),
            at(old(self).toks(), old(self).pos(), Kind::Primary),
        ensures
            final(self).wf(),
            final(self).toks() == old(self).toks(),
            final(self).pos() >= old(self).pos(),
            r is Ok ==> final(self).pos() > old(self).pos(),
            match r {
                Ok(_) => g_table_constraint(old(self).toks(), old(self).pos(), old(a)@) == Read::Got(final(a)@, final(self).pos()),
                Err(e) => g_table_constraint(old(self).toks(), old(self).pos(), old(a)@) matches Read::Wrong(m) && e@ == ErrorView::Parse(m),
            },
    {
        self.advance();
        self.expect(Kind::Key)?;
        let names = self.parse_name_group()?;
        append_names(&mut a.keys, &names);
        Ok(())
    }

    pub(super) fn parse_table_unique(&mut self, a: &mut Elements) -> (r: Result<(), QueryError>)
        requires
            old(self).wf(),
            at(old(self).toks(), old(self).pos(), Kind::Unique),
        ensures
            final(self).wf(),
            final(self).toks() == old(self).toks(),
            final(self).pos() >= old(self).pos(),
            r is Ok ==> final(self).pos() > old(self).pos(),
            match r {
                Ok(_) => g_table_constraint(old(self).toks(), old(self).pos(), old(a)@) == Read::Got(final(a)@, final(self).pos()),
                Err(e) => g_table_constraint(old(self).toks(), old(self).pos(), old(a)@) matches Read::Wrong(m) && e@ == ErrorView::Parse(m),
            },
    {
        self.advance();
        let names = self.parse_name_group()?;
        if names.len() != 1 {
            return Err(QueryError::Parse("A UNIQUE of the table names one column".to_string()));
        }
        append_names(&mut a.uniques, &names);
        Ok(())
    }

    /// Reads a constraint of the table without the name before it.
    pub(super) fn parse_table_constraint(&mut self, a: &mut Elements) -> (r: Result<(), QueryError>)
        requires
            old(self).wf(),
        ensures
            final(self).wf(),
            final(self).toks() == old(self).toks(),
            final(self).pos() >= old(self).pos(),
            r is Ok ==> final(self).pos() > old(self).pos(),
            match r {
                Ok(_) => g_table_constraint(old(self).toks(), old(self).pos(), old(a)@) == Read::Got(final(a)@, final(self).pos()),
                Err(e) => g_table_constraint(old(self).toks(), old(self).pos(), old(a)@) matches Read::Wrong(m) && e@ == ErrorView::Parse(m),
            },
    {
        if self.at_word("CHECK") {
            self.parse_table_check(a)
        } else if self.at_word("FOREIGN") {
            self.parse_table_fk(a)
        } else if self.at(Kind::Primary) {
            self.parse_table_key(a)
        } else if self.at(Kind::Unique) {
            self.parse_table_unique(a)
        } else {
            Err(QueryError::Parse(say_stray("Unexpected constraint token: ", self.current())))
        }
    }

    pub(super) fn at_table_constraint(&self) -> (r: bool)
        requires
            self.wf(),
        ensures
            r == starts_table_constraint(tok(self.toks(), self.pos())),
    {
        self.at(Kind::Unique) || self.at(Kind::Primary) || self.at_word("CHECK") || self.at_word("CONSTRAINT")
            || self.at_word("FOREIGN")
    }

    /// Reads one element of a CREATE TABLE.
    pub(super) fn parse_element(&mut self, a: &mut Elements) -> (r: Result<(), QueryError>)
        requires
            old(self).wf(),
        ensures
            final(self).wf(),
            final(self).toks() == old(self).toks(),
            final(self).pos() >= old(self).pos(),
            r is Ok ==> final(self).pos() > old(self).pos(),
            match r {
                Ok(_) => g_element(old(self).toks(), old(self).pos(), old(a)@) == Read::Got(final(a)@, final(self).pos()),
                Err(e) => g_element(old(self).toks(), old(self).pos(), old(a)@) matches Read::Wrong(m) && e@ == ErrorView::Parse(m),
            },
    {
        if self.at_table_constraint() {
            if self.at_word("CONSTRAINT") {
                self.advance();
                let _ = self.expect_ident()?;
            }
            self.parse_table_constraint(a)
        } else {
            let c = self.parse_column_def()?;
            proof {
                column_defs_push(a.columns@, c);
            }
            a.columns.push(c);
            Ok(())
        }
    }

    /// Reads the elements of a CREATE TABLE.
    pub(super) fn parse_elements(&mut self) -> (r: Result<Elements, QueryError>)
        requires
            old(self).wf(),
        ensures
            final(self).wf(),
            final(self).toks() == old(self).toks(),
            final(self).pos() >= old(self).pos(),
            r is Ok ==> final(self).pos() > old(self).pos(),
            match r {
                Ok(x) => g_elements(old(self).toks(), old(self).pos(), no_parts()) == Read::Got(x@, final(self).pos()),
                Err(e) => g_elements(old(self).toks(), old(self).pos(), no_parts()) matches Read::Wrong(m) && e@ == ErrorView::Parse(m),
            },
    {
        let mut a = Elements::new();
        loop
            invariant
                self.wf(),
                self.toks() == old(self).toks(),
                old(self).pos() <= self.pos(),
                g_elements(old(self).toks(), old(self).pos(), no_parts()) == g_elements(self.toks(), self.pos(), a@),
            decreases self.toks().len() - self.pos(),
        {
            self.parse_element(&mut a)?;
            if !self.at(Kind::Comma) {
                return Ok(a);
            }
            self.advance();
        }
    }

    pub(super) fn parse_if_not_exists(&mut self) -> (r: Result<bool, QueryError>)
        requires
            old(self).wf(),
        ensures
            final(self).wf(),
            final(self).toks() == old(self).toks(),
            final(self).pos() >= old(self).pos(),
            match r {
                Ok(x) => g_if_not_exists(old(self).toks(), old(self).pos()) == Read::Got(x, final(self).pos()),
                Err(e) => g_if_not_exists(old(self).toks(), old(self).pos()) matches Read::Wrong(m) && e@ == ErrorView::Parse(m),
            },
    {
        if self.at(Kind::If) {
            self.advance();
            self.expect(Kind::Not)?;
            self.expect(Kind::Exists)?;
            Ok(true)
        } else {
            Ok(false)
        }
    }

    pub(super) fn parse_if_exists(&mut self) -> (r: Result<bool, QueryError>)
        requires
            old(self).wf(),
        ensures
            final(self).wf(),
            final(self).toks() == old(self).toks(),
            final(self).pos() >= old(self).pos(),
            match r {
                Ok(x) => g_if_exists(old(self).toks(), old(self).pos()) == Read::Got(x, final(self).pos()),
                Err(e) => g_if_exists(old(self).toks(), old(self).pos()) matches Read::Wrong(m) && e@ == ErrorView::Parse(m),
            },
    {
        if self.at(Kind::If) {
            self.advance();
            self.expect(Kind::Exists)?;
            Ok(true)
        } else {
            Ok(false)
        }
    }

    pub(super) fn finish_table(name: String, if_not_exists: bool, a: Elements) -> (r: Result<Statement, QueryError>)
        ensures
            match r {
                Ok(s) => all_columns(a@.columns, a@.keys) && all_columns(a@.columns, a@.uniques) && s@
                    == StatementView::CreateTable(
                    CreateTableStmtView {
                        name: name@,
                        columns: marked_columns(a@.columns, a@.keys, a@.uniques),
                        if_not_exists,
                        check_constraints: a@.checks,
                        foreign_keys: a@.fks,
                    },
                ),
                Err(e) => !(all_columns(a@.columns, a@.keys) && all_columns(a@.columns, a@.uniques)) && e@
                    == ErrorView::Parse("Unknown column in a constraint of the table"@),
            },
    {
        proof {
            broadcast use {super::ast::create_table_stmt_view_made, super::ast::statement_view_create_table};
        }
        if !names_known(&a.columns, &a.keys) || !names_known(&a.columns, &a.uniques) {
            return Err(QueryError::Parse("Unknown column in a constraint of the table".to_string()));
        }
        let columns = mark_columns(&a.columns, &a.keys, &a.uniques);
        Ok(
            Statement::CreateTable(
                CreateTableStmt { name, columns, if_not_exists, check_constraints: a.checks, foreign_keys: a.fks },
            ),
        )
    }

    pub fn parse_create_table(&mut self) -> (r: Result<Statement, QueryError>)
        requires
            old(self).wf(),
        ensures
            final(self).wf(),
            final(self).toks() == old(self).toks(),
            final(self).pos() >= old(self).pos(),
            r is Ok ==> final(self).pos() > old(self).pos(),
            match r {
                Ok(x) => g_create_table(old(self).toks(), old(self).pos()) == Read::Got(x@, final(self).pos()),
                Err(e) => g_create_table(old(self).toks(), old(self).pos()) matches Read::Wrong(m) && e@ == ErrorView::Parse(m),
            },
    {
        self.expect(Kind::Table)?;
        let if_not_exists = self.parse_if_not_exists()?;
        let name = self.expect_ident()?;
        self.expect(Kind::LParen)?;
        let a = self.parse_elements()?;
        self.expect(Kind::RParen)?;
        Self::finish_table(name, if_not_exists, a)
    }

    pub(super) fn parse_create_index(&mut self, unique: bool) -> (r: Result<Statement, QueryError>)
        requires
            old(self).wf(),
        ensures
            final(self).wf(),
            final(self).toks() == old(self).toks(),
            final(self).pos() >= old(self).pos(),
            r is Ok ==> final(self).pos() > old(self).pos(),
            match r {
                Ok(x) => g_create_index(old(self).toks(), old(self).pos(), unique) == Read::Got(x@, final(self).pos()),
                Err(e) => g_create_index(old(self).toks(), old(self).pos(), unique) matches Read::Wrong(m) && e@ == ErrorView::Parse(m),
            },
    {
        proof {
            broadcast use {super::ast::create_index_stmt_view_made, super::ast::statement_view_create_index};
        }
        let name = self.expect_ident()?;
        self.expect(Kind::On)?;
        let table = self.expect_ident()?;
        let columns = self.parse_name_group()?;
        Ok(Statement::CreateIndex(CreateIndexStmt { name, table, columns, unique }))
    }

    pub(super) fn parse_create(&mut self) -> (r: Result<Statement, QueryError>)
        requires
            old(self).wf(),
        ensures
            final(self).wf(),
            final(self).toks() == old(self).toks(),
            final(self).pos() >= old(self).pos(),
            r is Ok ==> final(self).pos() > old(self).pos(),
            match r {
                Ok(x) => g_create(old(self).toks(), old(self).pos()) == Read::Got(x@, final(self).pos()),
                Err(e) => g_create(old(self).toks(), old(self).pos()) matches Read::Wrong(m) && e@ == ErrorView::Parse(m),
            },
    {
        proof {
            broadcast use super::ast::statement_view_create_database;
        }
        self.expect(Kind::Create)?;
        if self.at(Kind::Unique) {
            self.advance();
            self.expect(Kind::Index)?;
            self.parse_create_index(true)
        } else if self.at(Kind::Table) {
            self.parse_create_table()
        } else if self.at(Kind::Index) {
            self.advance();
            self.parse_create_index(false)
        } else if self.at(Kind::Database) {
            self.advance();
            let if_not_exists = self.parse_if_not_exists()?;
            let name = self.expect_ident()?;
            Ok(Statement::CreateDatabase { name, if_not_exists })
        } else {
            Err(QueryError::Parse("Expected TABLE, INDEX or DATABASE after CREATE".to_string()))
        }
    }

    pub(super) fn parse_drop(&mut self) -> (r: Result<Statement, QueryError>)
        requires
            old(self).wf(),
        ensures
            final(self).wf(),
            final(self).toks() == old(self).toks(),
            final(self).pos() >= old(self).pos(),
            r is Ok ==> final(self).pos() > old(self).pos(),
            match r {
                Ok(x) => g_drop(old(self).toks(), old(self).pos()) == Read::Got(x@, final(self).pos()),
                Err(e) => g_drop(old(self).toks(), old(self).pos()) matches Read::Wrong(m) && e@ == ErrorView::Parse(m),
            },
    {
        proof {
            broadcast use {super::ast::drop_table_stmt_view_made, super::ast::statement_view_drop_database, super::ast::statement_view_drop_index, super::ast::statement_view_drop_table};
        }
        self.expect(Kind::Drop)?;
        if self.at(Kind::Table) {
            self.advance();
            let if_exists = self.parse_if_exists()?;
            let name = self.expect_ident()?;
            Ok(Statement::DropTable(DropTableStmt { name, if_exists }))
        } else if self.at(Kind::Index) {
            self.advance();
            let name = self.expect_ident()?;
            Ok(Statement::DropIndex(name))
        } else if self.at(Kind::Database) {
            self.advance();
            let if_exists = self.parse_if_exists()?;
            let name = self.expect_ident()?;
            Ok(Statement::DropDatabase { name, if_exists })
        } else {
            Err(QueryError::Parse("Expected TABLE, INDEX or DATABASE after DROP".to_string()))
        }
    }

    pub(super) fn parse_added_constraints(&mut self, column: ColumnDef) -> (r: Result<ColumnDef, QueryError>)
        requires
            old(self).wf(),
        ensures
            final(self).wf(),
            final(self).toks() == old(self).toks(),
            final(self).pos() >= old(self).pos(),
            match r {
                Ok(x) => g_added_constraints(old(self).toks(), old(self).pos(), column@) == Read::Got(x@, final(self).pos()),
                Err(e) => g_added_constraints(old(self).toks(), old(self).pos(), column@) matches Read::Wrong(m) && e@ == ErrorView::Parse(m),
            },
    {
        let mut c = column;
        while self.at(Kind::Not) || self.at(Kind::Primary)
            invariant
                self.wf(),
                self.toks() == old(self).toks(),
                old(self).pos() <= self.pos(),
                g_added_constraints(old(self).toks(), old(self).pos(), column@) == g_added_constraints(
                    self.toks(),
                    self.pos(),
                    c@,
                ),
            decreases self.toks().len() - self.pos(),
        {
            if self.at(Kind::Not) {
                self.advance();
                self.expect(Kind::NullLit)?;
                c = Self::with_null_refused(c);
            } else {
                self.advance();
                self.expect(Kind::Key)?;
                c = Self::with_key(c);
            }
        }
        Ok(c)
    }

    /// Passes over the keyword COLUMN where it stands.
    pub(super) fn skip_column_word(&mut self)
        requires
            old(self).wf(),
        ensures
            final(self).wf(),
            final(self).toks() == old(self).toks(),
            final(self).pos() >= old(self).pos(),
            final(self).pos() == skip_column_word(old(self).toks(), old(self).pos()),
    {
        if self.at(Kind::Column) {
            self.advance();
        }
    }

    pub(super) fn parse_alter_action(&mut self) -> (r: Result<AlterTableAction, QueryError>)
        requires
            old(self).wf(),
        ensures
            final(self).wf(),
            final(self).toks() == old(self).toks(),
            final(self).pos() >= old(self).pos(),
            r is Ok ==> final(self).pos() > old(self).pos(),
            match r {
                Ok(x) => g_alter_action(old(self).toks(), old(self).pos()) == Read::Got(x@, final(self).pos()),
                Err(e) => g_alter_action(old(self).toks(), old(self).pos()) matches Read::Wrong(m) && e@ == ErrorView::Parse(m),
            },
    {
        proof {
            broadcast use {super::ast::alter_table_action_view_add_column, super::ast::alter_table_action_view_drop_column, super::ast::alter_table_action_view_rename_column};
        }
        if self.at(Kind::Add) {
            self.advance();
            self.skip_column_word();
            let name = self.expect_ident()?;
            let (data_type, max_length) = self.parse_data_type()?;
            let c = self.parse_added_constraints(Self::bare_column(name, data_type, max_length))?;
            Ok(AlterTableAction::AddColumn(c))
        } else if self.at(Kind::Drop) {
            self.advance();
            self.skip_column_word();
            let name = self.expect_ident()?;
            Ok(AlterTableAction::DropColumn(name))
        } else if self.at(Kind::Rename) {
            self.advance();
            self.skip_column_word();
            let old_name = self.expect_ident()?;
            if !self.at(Kind::To) && !self.at_upper_word("TO") {
                return Err(QueryError::Parse("Expected TO after column name in RENAME".to_string()));
            }
            self.advance();
            let new_name = self.expect_ident()?;
            Ok(AlterTableAction::RenameColumn { old_name, new_name })
        } else {
            Err(QueryError::Parse("Expected ADD, DROP, or RENAME after ALTER TABLE <name>".to_string()))
        }
    }

    pub(super) fn parse_alter(&mut self) -> (r: Result<Statement, QueryError>)
        requires
            old(self).wf(),
        ensures
            final(self).wf(),
            final(self).toks() == old(self).toks(),
            final(self).pos() >= old(self).pos(),
            r is Ok ==> final(self).pos() > old(self).pos(),
            match r {
                Ok(x) => g_alter(old(self).toks(), old(self).pos()) == Read::Got(x@, final(self).pos()),
                Err(e) => g_alter(old(self).toks(), old(self).pos()) matches Read::Wrong(m) && e@ == ErrorView::Parse(m),
            },
    {
        proof {
            broadcast use {super::ast::alter_table_stmt_view_made, super::ast::statement_view_alter_table};
        }
        self.expect(Kind::Alter)?;
        self.expect(Kind::Table)?;
        let table = self.expect_ident()?;
        let action = self.parse_alter_action()?;
        Ok(Statement::AlterTable(AlterTableStmt { table, action }))
    }

    pub(super) fn parse_assignment(&mut self, dollar: bool) -> (r: Result<(String, Expr), QueryError>)
        requires
            old(self).wf(),
        ensures
            final(self).wf(),
            final(self).toks() == old(self).toks(),
            final(self).pos() >= old(self).pos(),
            r is Ok ==> final(self).pos() > old(self).pos(),
            match r {
                Ok(x) => g_assignment(old(self).toks(), old(self).pos(), dollar) == Read::Got((x.0@, x.1@), final(self).pos()),
                Err(e) => g_assignment(old(self).toks(), old(self).pos(), dollar) matches Read::Wrong(m) && e@ == ErrorView::Parse(m),
            },
    {
        if dollar && self.at(Kind::DollarDot) {
            self.advance();
        }
        let col = self.expect_ident()?;
        self.expect(Kind::Eq)?;
        let e = self.parse_expr()?;
        Ok((col, e))
    }

    pub(super) fn parse_assignments(&mut self, dollar: bool) -> (r: Result<Vec<(String, Expr)>, QueryError>)
        requires
            old(self).wf(),
        ensures
            final(self).wf(),
            final(self).toks() == old(self).toks(),
            final(self).pos() >= old(self).pos(),
            r is Ok ==> final(self).pos() > old(self).pos(),
            match r {
                Ok(x) => g_assignments(old(self).toks(), old(self).pos(), dollar, Seq::empty()) == Read::Got(assignments_view(x@), final(self).pos()),
                Err(e) => g_assignments(old(self).toks(), old(self).pos(), dollar, Seq::empty()) matches Read::Wrong(m) && e@ == ErrorView::Parse(m),
            },
    {
        proof {
            broadcast use {super::ast::assignments_empty, super::ast::assignments_push};
        }
        let mut assignments: Vec<(String, Expr)> = Vec::new();
        loop
            invariant
                self.wf(),
                self.toks() == old(self).toks(),
                old(self).pos() <= self.pos(),
                g_assignments(old(self).toks(), old(self).pos(), dollar, Seq::empty()) == g_assignments(
                    self.toks(),
                    self.pos(),
                    dollar,
                    assignments_view(assignments@),
                ),
            decreases self.toks().len() - self.pos(),
        {
            proof {
                broadcast use {super::ast::assignments_empty, super::ast::assignments_push};
            }
            let a = self.parse_assignment(dollar)?;
            assignments.push(a);
            if !self.at(Kind::Comma) {
                return Ok(assignments);
            }
            self.advance();
        }
    }

    pub(super) fn parse_value_rows(&mut self) -> (r: Result<Vec<Vec<Expr>>, QueryError>)
        requires
            old(self).wf(),
        ensures
            final(self).wf(),
            final(self).toks() == old(self).toks(),
            final(self).pos() >= old(self).pos(),
            r is Ok ==> final(self).pos() > old(self).pos(),
            match r {
                Ok(x) => g_value_rows(old(self).toks(), old(self).pos(), Seq::empty()) == Read::Got(value_rows_view(x@), final(self).pos()),
                Err(e) => g_value_rows(old(self).toks(), old(self).pos(), Seq::empty()) matches Read::Wrong(m) && e@ == ErrorView::Parse(m),
            },
    {
        proof {
            broadcast use {super::ast::exprs_empty, super::ast::exprs_push, super::ast::value_rows_empty, super::ast::value_rows_push};
        }
        let mut rows: Vec<Vec<Expr>> = Vec::new();
        loop
            invariant
                self.wf(),
                self.toks() == old(self).toks(),
                old(self).pos() <= self.pos(),
                g_value_rows(old(self).toks(), old(self).pos(), Seq::empty()) == g_value_rows(
                    self.toks(),
                    self.pos(),
                    value_rows_view(rows@),
                ),
            decreases self.toks().len() - self.pos(),
        {
            proof {
                broadcast use {super::ast::exprs_empty, super::ast::exprs_push, super::ast::value_rows_empty, super::ast::value_rows_push};
            }
            self.expect(Kind::LParen)?;
            let row = self.parse_expr_list()?;
            self.expect(Kind::RParen)?;
            rows.push(row);
            if !self.at(Kind::Comma) {
                return Ok(rows);
            }
            self.advance();
        }
    }

    pub(super) fn parse_source(&mut self) -> (r: Result<InsertSource, QueryError>)
        requires
            old(self).wf(),
        ensures
            final(self).wf(),
            final(self).toks() == old(self).toks(),
            final(self).pos() >= old(self).pos(),
            r is Ok ==> final(self).pos() > old(self).pos(),
            match r {
                Ok(x) => g_source(old(self).toks(), old(self).pos()) == Read::Got(x@, final(self).pos()),
                Err(e) => g_source(old(self).toks(), old(self).pos()) matches Read::Wrong(m) && e@ == ErrorView::Parse(m),
            },
    {
        proof {
            broadcast use {super::ast::insert_source_view_select, super::ast::insert_source_view_values};
        }
        if self.at(Kind::Select) {
            self.advance();
            let s = self.parse_select_body()?;
            Ok(InsertSource::Select(s))
        } else {
            self.expect(Kind::Values)?;
            let rows = self.parse_value_rows()?;
            Ok(InsertSource::Values(rows))
        }
    }

    pub(super) fn parse_conflict_action(&mut self) -> (r: Result<ConflictAction, QueryError>)
        requires
            old(self).wf(),
        ensures
            final(self).wf(),
            final(self).toks() == old(self).toks(),
            final(self).pos() >= old(self).pos(),
            r is Ok ==> final(self).pos() > old(self).pos(),
            match r {
                Ok(x) => g_conflict_action(old(self).toks(), old(self).pos()) == Read::Got(x@, final(self).pos()),
                Err(e) => g_conflict_action(old(self).toks(), old(self).pos()) matches Read::Wrong(m) && e@ == ErrorView::Parse(m),
            },
    {
        proof {
            broadcast use super::ast::conflict_action_view_do_update;
        }
        if self.at(Kind::Nothing) {
            self.advance();
            let a = ConflictAction::DoNothing;
            proof {
                a.unfold();
            }
            Ok(a)
        } else {
            self.expect(Kind::Update)?;
            self.expect(Kind::SetKw)?;
            let a = self.parse_assignments(false)?;
            Ok(ConflictAction::DoUpdate(a))
        }
    }

    pub(super) fn parse_on_conflict(&mut self) -> (r: Result<Option<OnConflict>, QueryError>)
        requires
            old(self).wf(),
        ensures
            final(self).wf(),
            final(self).toks() == old(self).toks(),
            final(self).pos() >= old(self).pos(),
            match r {
                Ok(x) => g_on_conflict(old(self).toks(), old(self).pos()) == Read::Got((match x { Some(c) => Some(c@), None => None }), final(self).pos()),
                Err(e) => g_on_conflict(old(self).toks(), old(self).pos()) matches Read::Wrong(m) && e@ == ErrorView::Parse(m),
            },
    {
        proof {
            broadcast use super::ast::on_conflict_view_made;
        }
        if self.at(Kind::On) {
            self.advance();
            self.expect(Kind::Conflict)?;
            let columns = self.parse_name_group()?;
            self.expect(Kind::Do)?;
            let action = self.parse_conflict_action()?;
            Ok(Some(OnConflict { columns, action }))
        } else {
            Ok(None)
        }
    }

    pub(super) fn parse_returning(&mut self) -> (r: Result<Option<Vec<SelectColumn>>, QueryError>)
        requires
            old(self).wf(),
        ensures
            final(self).wf(),
            final(self).toks() == old(self).toks(),
            final(self).pos() >= old(self).pos(),
            match r {
                Ok(x) => g_returning(old(self).toks(), old(self).pos()) == Read::Got((match x { Some(c) => Some(select_columns_view(c@)), None => None }), final(self).pos()),
                Err(e) => g_returning(old(self).toks(), old(self).pos()) matches Read::Wrong(m) && e@ == ErrorView::Parse(m),
            },
    {
        if self.at(Kind::Returning) {
            self.advance();
            let c = self.parse_select_columns()?;
            Ok(Some(c))
        } else {
            Ok(None)
        }
    }

    pub(super) fn parse_insert_columns(&mut self) -> (r: Result<Option<Vec<String>>, QueryError>)
        requires
            old(self).wf(),
        ensures
            final(self).wf(),
            final(self).toks() == old(self).toks(),
            final(self).pos() >= old(self).pos(),
            match r {
                Ok(x) => g_insert_columns(old(self).toks(), old(self).pos()) == Read::Got((match x { Some(c) => Some(names_view(c@)), None => None }), final(self).pos()),
                Err(e) => g_insert_columns(old(self).toks(), old(self).pos()) matches Read::Wrong(m) && e@ == ErrorView::Parse(m),
            },
    {
        if self.at(Kind::LParen) {
            let c = self.parse_name_group()?;
            Ok(Some(c))
        } else {
            Ok(None)
        }
    }

    pub(super) fn insert_of(
        table: String,
        columns: Option<Vec<String>>,
        source: InsertSource,
        on_conflict: Option<OnConflict>,
        returning: Option<Vec<SelectColumn>>,
    ) -> (r: Statement)
        ensures
            r@ == StatementView::Insert(
                InsertStmtView {
                    table: table@,
                    columns: match columns { Some(c) => Some(names_view(c@)), None => None },
                    source: source@,
                    on_conflict: match on_conflict { Some(c) => Some(c@), None => None },
                    returning: match returning { Some(c) => Some(select_columns_view(c@)), None => None },
                },
            ),
    {
        proof {
            broadcast use {super::ast::insert_stmt_view_made, super::ast::statement_view_insert};
        }
        Statement::Insert(InsertStmt { table, columns, source, on_conflict, returning })
    }

    pub fn parse_insert(&mut self) -> (r: Result<Statement, QueryError>)
        requires
            old(self).wf(),
        ensures
            final(self).wf(),
            final(self).toks() == old(self).toks(),
            final(self).pos() >= old(self).pos(),
            r is Ok ==> final(self).pos() > old(self).pos(),
            match r {
                Ok(x) => g_insert(old(self).toks(), old(self).pos()) == Read::Got(x@, final(self).pos()),
                Err(e) => g_insert(old(self).toks(), old(self).pos()) matches Read::Wrong(m) && e@ == ErrorView::Parse(m),
            },
    {
        self.expect(Kind::Insert)?;
        self.expect(Kind::Into)?;
        let table = self.expect_ident()?;
        let columns = self.parse_insert_columns()?;
        let source = self.parse_source()?;
        let on_conflict = self.parse_on_conflict()?;
        let returning = self.parse_returning()?;
        Ok(Self::insert_of(table, columns, source, on_conflict, returning))
    }

    pub(super) fn update_of(
        table: String,
        assignments: Vec<(String, Expr)>,
        where_clause: Option<Expr>,
        returning: Option<Vec<SelectColumn>>,
    ) -> (r: Statement)
        ensures
            r@ == StatementView::Update(
                UpdateStmtView {
                    table: table@,
                    assignments: assignments_view(assignments@),
                    where_clause: match where_clause { Some(c) => Some(c@), None => None },
                    returning: match returning { Some(c) => Some(select_columns_view(c@)), None => None },
                },
            ),
    {
        proof {
            broadcast use {super::ast::statement_view_update, super::ast::update_stmt_view_made};
        }
        Statement::Update(UpdateStmt { table, assignments, where_clause, returning })
    }

    pub fn parse_update(&mut self) -> (r: Result<Statement, QueryError>)
        requires
            old(self).wf(),
        ensures
            final(self).wf(),
            final(self).toks() == old(self).toks(),
            final(self).pos() >= old(self).pos(),
            r is Ok ==> final(self).pos() > old(self).pos(),
            match r {
                Ok(x) => g_update(old(self).toks(), old(self).pos()) == Read::Got(x@, final(self).pos()),
                Err(e) => g_update(old(self).toks(), old(self).pos()) matches Read::Wrong(m) && e@ == ErrorView::Parse(m),
            },
    {
        self.expect(Kind::Update)?;
        let table = self.expect_ident()?;
        self.expect(Kind::SetKw)?;
        let assignments = self.parse_assignments(false)?;
        let where_clause = self.parse_opt_where()?;
        let returning = self.parse_returning()?;
        Ok(Self::update_of(table, assignments, where_clause, returning))
    }

    pub(super) fn delete_of(table: String, where_clause: Option<Expr>, returning: Option<Vec<SelectColumn>>) -> (r: Statement)
        ensures
            r@ == StatementView::Delete(
                DeleteStmtView {
                    table: table@,
                    where_clause: match where_clause { Some(c) => Some(c@), None => None },
                    returning: match returning { Some(c) => Some(select_columns_view(c@)), None => None },
                },
            ),
    {
        proof {
            broadcast use {super::ast::delete_stmt_view_made, super::ast::statement_view_delete};
        }
        Statement::Delete(DeleteStmt { table, where_clause, returning })
    }

    pub fn parse_delete(&mut self) -> (r: Result<Statement, QueryError>)
        requires
            old(self).wf(),
        ensures
            final(self).wf(),
            final(self).toks() == old(self).toks(),
            final(self).pos() >= old(self).pos(),
            r is Ok ==> final(self).pos() > old(self).pos(),
            match r {
                Ok(x) => g_delete(old(self).toks(), old(self).pos()) == Read::Got(x@, final(self).pos()),
                Err(e) => g_delete(old(self).toks(), old(self).pos()) matches Read::Wrong(m) && e@ == ErrorView::Parse(m),
            },
    {
        self.expect(Kind::Delete)?;
        self.expect(Kind::From)?;
        let table = self.expect_ident()?;
        let where_clause = self.parse_opt_where()?;
        let returning = self.parse_returning()?;
        Ok(Self::delete_of(table, where_clause, returning))
    }

    pub(super) fn parse_begin(&mut self) -> (r: Result<Statement, QueryError>)
        requires
            old(self).wf(),
        ensures
            final(self).wf(),
            final(self).toks() == old(self).toks(),
            final(self).pos() >= old(self).pos(),
            r is Ok ==> final(self).pos() > old(self).pos(),
            match r {
                Ok(x) => g_begin(old(self).toks(), old(self).pos()) == Read::Got(x@, final(self).pos()),
                Err(e) => g_begin(old(self).toks(), old(self).pos()) matches Read::Wrong(m) && e@ == ErrorView::Parse(m),
            },
    {
        proof {
            broadcast use super::ast::statement_view_begin;
        }
        self.expect(Kind::Begin)?;
        if self.at(Kind::Serializable) {
            self.advance();
            Ok(Statement::Begin(Some(IsolationLevel::Serializable)))
        } else {
            Ok(Statement::Begin(None))
        }
    }

    pub(super) fn parse_stats_table(&mut self) -> (r: Result<Option<String>, QueryError>)
        requires
            old(self).wf(),
        ensures
            final(self).wf(),
            final(self).toks() == old(self).toks(),
            final(self).pos() >= old(self).pos(),
            match r {
                Ok(x) => g_stats_table(old(self).toks(), old(self).pos()) == Read::Got((match x { Some(s) => Some(s@), None => None }), final(self).pos()),
                Err(e) => g_stats_table(old(self).toks(), old(self).pos()) matches Read::Wrong(m) && e@ == ErrorView::Parse(m),
            },
    {
        if self.at_word("FOR") {
            self.advance();
            let n = self.expect_ident()?;
            Ok(Some(n))
        } else {
            Ok(None)
        }
    }

    pub(super) fn parse_show(&mut self) -> (r: Result<Statement, QueryError>)
        requires
            old(self).wf(),
        ensures
            final(self).wf(),
            final(self).toks() == old(self).toks(),
            final(self).pos() >= old(self).pos(),
            r is Ok ==> final(self).pos() > old(self).pos(),
            match r {
                Ok(x) => g_show(old(self).toks(), old(self).pos()) == Read::Got(x@, final(self).pos()),
                Err(e) => g_show(old(self).toks(), old(self).pos()) matches Read::Wrong(m) && e@ == ErrorView::Parse(m),
            },
    {
        proof {
            broadcast use {super::ast::statement_view_show_columns, super::ast::statement_view_show_create_table, super::ast::statement_view_show_stats};
        }
        self.expect(Kind::Show)?;
        if self.at(Kind::Tables) {
            self.advance();
            let s = Statement::ShowTables;
            proof {
                s.unfold();
            }
            Ok(s)
        } else if self.at(Kind::Columns) {
            self.advance();
            self.expect(Kind::From)?;
            let n = self.expect_ident()?;
            Ok(Statement::ShowColumns(n))
        } else if self.at(Kind::Create) {
            self.advance();
            self.expect(Kind::Table)?;
            let n = self.expect_ident()?;
            Ok(Statement::ShowCreateTable(n))
        } else if self.at_word("DATABASES") {
            self.advance();
            let s = Statement::ShowDatabases;
            proof {
                s.unfold();
            }
            Ok(s)
        } else if self.at_word("STATS") {
            self.advance();
            let n = self.parse_stats_table()?;
            Ok(Statement::ShowStats(n))
        } else {
            Err(QueryError::Parse("Expected TABLES, COLUMNS, CREATE, DATABASES, or STATS after SHOW".to_string()))
        }
    }

    pub(super) fn parse_truncate(&mut self) -> (r: Result<Statement, QueryError>)
        requires
            old(self).wf(),
        ensures
            final(self).wf(),
            final(self).toks() == old(self).toks(),
            final(self).pos() >= old(self).pos(),
            r is Ok ==> final(self).pos() > old(self).pos(),
            match r {
                Ok(x) => g_truncate(old(self).toks(), old(self).pos()) == Read::Got(x@, final(self).pos()),
                Err(e) => g_truncate(old(self).toks(), old(self).pos()) matches Read::Wrong(m) && e@ == ErrorView::Parse(m),
            },
    {
        proof {
            broadcast use super::ast::statement_view_truncate;
        }
        self.expect(Kind::Truncate)?;
        if self.at(Kind::Table) {
            self.advance();
        }
        let n = self.expect_ident()?;
        Ok(Statement::Truncate(n))
    }

    pub(super) fn parse_kv(&mut self) -> (r: Result<Statement, QueryError>)
        requires
            old(self).wf(),
        ensures
            final(self).wf(),
            final(self).toks() == old(self).toks(),
            final(self).pos() >= old(self).pos(),
            r is Ok ==> final(self).pos() > old(self).pos(),
            match r {
                Ok(x) => g_kv(old(self).toks(), old(self).pos()) == Read::Got(x@, final(self).pos()),
                Err(e) => g_kv(old(self).toks(), old(self).pos()) matches Read::Wrong(m) && e@ == ErrorView::Parse(m),
            },
    {
        proof {
            broadcast use {super::ast::statement_view_kv_delete, super::ast::statement_view_kv_get, super::ast::statement_view_kv_scan, super::ast::statement_view_kv_set};
        }
        self.expect(Kind::Kv)?;
        if self.at(Kind::Get) {
            self.advance();
            let k = self.expect_string()?;
            Ok(Statement::KvGet(k))
        } else if self.at(Kind::SetKw) {
            self.advance();
            let k = self.expect_string()?;
            let v = self.expect_string()?;
            Ok(Statement::KvSet(k, v))
        } else if self.at(Kind::Delete) {
            self.advance();
            let k = self.expect_string()?;
            Ok(Statement::KvDelete(k))
        } else if self.at(Kind::Scan) {
            self.advance();
            let a = self.expect_string()?;
            let b = self.expect_string()?;
            Ok(Statement::KvScan(a, b))
        } else {
            Err(QueryError::Parse("Expected GET, SET, DELETE, or SCAN after KV".to_string()))
        }
    }

    /// The text that the next token stands for inside a JSON document.
    pub(super) fn json_piece(&self) -> (r: String)
        requires
            self.wf(),
        ensures
            r@ == json_piece(tok(self.toks(), self.pos())),
    {
        match self.current() {
            Token::Kind(Kind::LBrace) => "{".to_string(),
            Token::Kind(Kind::RBrace) => "}".to_string(),
            Token::StringLit(s) => join3("\"", s.as_str(), "\""),
            Token::IntLit(n) => int_to_text(*n),
            Token::FloatLit(f) => write_float(f.as_str()),
            Token::BoolLit(b) => if *b { "true".to_string() } else { "false".to_string() },
            Token::Kind(Kind::NullLit) => "null".to_string(),
            Token::Kind(Kind::Colon) => ":".to_string(),
            Token::Kind(Kind::Comma) => ",".to_string(),
            Token::Kind(Kind::LBracket) => "[".to_string(),
            Token::Kind(Kind::RBracket) => "]".to_string(),
            _ => String::new(),
        }
    }

    pub fn parse_json_object(&mut self) -> (r: Result<String, QueryError>)
        requires
            old(self).wf(),
        ensures
            final(self).wf(),
            final(self).toks() == old(self).toks(),
            final(self).pos() >= old(self).pos(),
            r is Ok ==> final(self).pos() > old(self).pos(),
            match r {
                Ok(x) => g_json_object(old(self).toks(), old(self).pos()) == Read::Got(x@, final(self).pos()),
                Err(e) => g_json_object(old(self).toks(), old(self).pos()) matches Read::Wrong(m) && e@ == ErrorView::Parse(m),
            },
    {
        if !self.at(Kind::LBrace) {
            return Err(QueryError::Parse("Expected '{'".to_string()));
        }
        let mut text = String::new();
        assert(text@ =~= Seq::empty());
        let mut depth: usize = 0;
        loop
            invariant
                self.wf(),
                self.toks() == old(self).toks(),
                old(self).pos() <= self.pos(),
                depth <= self.pos() - old(self).pos(),
                depth == 0 ==> at(self.toks(), self.pos(), Kind::LBrace),
                g_json(old(self).toks(), old(self).pos(), 0, Seq::empty()) == g_json(
                    self.toks(),
                    self.pos(),
                    depth as int,
                    text@,
                ),
                at(old(self).toks(), old(self).pos(), Kind::LBrace),
            decreases self.toks().len() - self.pos(),
        {
            if self.at(Kind::Eof) {
                return Err(QueryError::Parse("Unterminated JSON object".to_string()));
            }
            let piece = self.json_piece();
            text = join2(text.as_str(), piece.as_str());
            if self.at(Kind::LBrace) {
                self.advance();
                proof {
                    self.lemma_pos_fits();
                }
                depth = depth + 1;
            } else if self.at(Kind::RBrace) {
                self.advance();
                if depth == 1 {
                    return Ok(text);
                }
                depth = depth - 1;
            } else {
                self.advance();
            }
        }
    }

    pub(super) fn parse_doc_insert(&mut self) -> (r: Result<Statement, QueryError>)
        requires
            old(self).wf(),
        ensures
            final(self).wf(),
            final(self).toks() == old(self).toks(),
            final(self).pos() >= old(self).pos(),
            r is Ok ==> final(self).pos() > old(self).pos(),
            match r {
                Ok(x) => g_doc_insert(old(self).toks(), old(self).pos()) == Read::Got(x@, final(self).pos()),
                Err(e) => g_doc_insert(old(self).toks(), old(self).pos()) matches Read::Wrong(m) && e@ == ErrorView::Parse(m),
            },
    {
        proof {
            broadcast use {super::ast::doc_insert_stmt_view_made, super::ast::statement_view_doc_insert};
        }
        self.expect(Kind::Into)?;
        let collection = self.expect_ident()?;
        let document = self.parse_json_object()?;
        Ok(Statement::DocInsert(DocInsertStmt { collection, document }))
    }

    pub(super) fn parse_doc_find(&mut self) -> (r: Result<Statement, QueryError>)
        requires
            old(self).wf(),
        ensures
            final(self).wf(),
            final(self).toks() == old(self).toks(),
            final(self).pos() >= old(self).pos(),
            r is Ok ==> final(self).pos() > old(self).pos(),
            match r {
                Ok(x) => g_doc_find(old(self).toks(), old(self).pos()) == Read::Got(x@, final(self).pos()),
                Err(e) => g_doc_find(old(self).toks(), old(self).pos()) matches Read::Wrong(m) && e@ == ErrorView::Parse(m),
            },
    {
        proof {
            broadcast use {super::ast::doc_find_stmt_view_made, super::ast::statement_view_doc_find};
        }
        self.expect(Kind::In)?;
        let collection = self.expect_ident()?;
        let filter = self.parse_opt_where()?;
        Ok(Statement::DocFind(DocFindStmt { collection, filter }))
    }

    pub(super) fn parse_doc_update(&mut self) -> (r: Result<Statement, QueryError>)
        requires
            old(self).wf(),
        ensures
            final(self).wf(),
            final(self).toks() == old(self).toks(),
            final(self).pos() >= old(self).pos(),
            r is Ok ==> final(self).pos() > old(self).pos(),
            match r {
                Ok(x) => g_doc_update(old(self).toks(), old(self).pos()) == Read::Got(x@, final(self).pos()),
                Err(e) => g_doc_update(old(self).toks(), old(self).pos()) matches Read::Wrong(m) && e@ == ErrorView::Parse(m),
            },
    {
        proof {
            broadcast use {super::ast::doc_update_stmt_view_made, super::ast::statement_view_doc_update};
        }
        self.expect(Kind::In)?;
        let collection = self.expect_ident()?;
        let filter = self.parse_opt_where()?;
        self.expect(Kind::SetKw)?;
        let updates = self.parse_assignments(true)?;
        Ok(Statement::DocUpdate(DocUpdateStmt { collection, filter, updates }))
    }

    pub(super) fn parse_doc_delete(&mut self) -> (r: Result<Statement, QueryError>)
        requires
            old(self).wf(),
        ensures
            final(self).wf(),
            final(self).toks() == old(self).toks(),
            final(self).pos() >= old(self).pos(),
            r is Ok ==> final(self).pos() > old(self).pos(),
            match r {
                Ok(x) => g_doc_delete(old(self).toks(), old(self).pos()) == Read::Got(x@, final(self).pos()),
                Err(e) => g_doc_delete(old(self).toks(), old(self).pos()) matches Read::Wrong(m) && e@ == ErrorView::Parse(m),
            },
    {
        proof {
            broadcast use {super::ast::doc_delete_stmt_view_made, super::ast::statement_view_doc_delete};
        }
        self.expect(Kind::From)?;
        let collection = self.expect_ident()?;
        let filter = self.parse_opt_where()?;
        Ok(Statement::DocDelete(DocDeleteStmt { collection, filter }))
    }

    pub(super) fn parse_doc(&mut self) -> (r: Result<Statement, QueryError>)
        requires
            old(self).wf(),
        ensures
            final(self).wf(),
            final(self).toks() == old(self).toks(),
            final(self).pos() >= old(self).pos(),
            r is Ok ==> final(self).pos() > old(self).pos(),
            match r {
                Ok(x) => g_doc(old(self).toks(), old(self).pos()) == Read::Got(x@, final(self).pos()),
                Err(e) => g_doc(old(self).toks(), old(self).pos()) matches Read::Wrong(m) && e@ == ErrorView::Parse(m),
            },
    {
        self.expect(Kind::Doc)?;
        if self.at(Kind::Insert) {
            self.advance();
            self.parse_doc_insert()
        } else if self.at(Kind::Find) {
            self.advance();
            self.parse_doc_find()
        } else if self.at(Kind::Update) {
            self.advance();
            self.parse_doc_update()
        } else if self.at(Kind::Delete) {
            self.advance();
            self.parse_doc_delete()
        } else {
            Err(QueryError::Parse("Expected INSERT, FIND, UPDATE, or DELETE after DOC".to_string()))
        }
    }

    pub(super) fn parse_backup(&mut self) -> (r: Result<Statement, QueryError>)
        requires
            old(self).wf(),
        ensures
            final(self).wf(),
            final(self).toks() == old(self).toks(),
            final(self).pos() >= old(self).pos(),
            r is Ok ==> final(self).pos() > old(self).pos(),
            match r {
                Ok(x) => g_backup(old(self).toks(), old(self).pos()) == Read::Got(x@, final(self).pos()),
                Err(e) => g_backup(old(self).toks(), old(self).pos()) matches Read::Wrong(m) && e@ == ErrorView::Parse(m),
            },
    {
        proof {
            broadcast use super::ast::statement_view_backup;
        }
        self.expect(Kind::Backup)?;
        self.expect(Kind::To)?;
        let path = self.expect_string()?;
        Ok(Statement::Backup { path })
    }

    pub(super) fn parse_restore(&mut self) -> (r: Result<Statement, QueryError>)
        requires
            old(self).wf(),
        ensures
            final(self).wf(),
            final(self).toks() == old(self).toks(),
            final(self).pos() >= old(self).pos(),
            r is Ok ==> final(self).pos() > old(self).pos(),
            match r {
                Ok(x) => g_restore(old(self).toks(), old(self).pos()) == Read::Got(x@, final(self).pos()),
                Err(e) => g_restore(old(self).toks(), old(self).pos()) matches Read::Wrong(m) && e@ == ErrorView::Parse(m),
            },
    {
        proof {
            broadcast use super::ast::statement_view_restore;
        }
        self.expect(Kind::Restore)?;
        self.expect(Kind::From)?;
        let path = self.expect_string()?;
        if self.at(Kind::To) {
            self.advance();
            self.expect(Kind::Lsn)?;
            match self.expect_integer() {
                Ok(n) => Ok(Statement::Restore { path, to_lsn: Some(n as u64) }),
                Err(_) => Err(QueryError::Parse(say_stray("expected LSN integer, got ", self.current()))),
            }
        } else {
            Ok(Statement::Restore { path, to_lsn: None })
        }
    }

    pub(super) fn parse_cte(&mut self) -> (r: Result<Cte, QueryError>)
        requires
            old(self).wf(),
        ensures
            final(self).wf(),
            final(self).toks() == old(self).toks(),
            final(self).pos() >= old(self).pos(),
            r is Ok ==> final(self).pos() > old(self).pos(),
            match r {
                Ok(x) => g_cte(old(self).toks(), old(self).pos()) == Read::Got(x@, final(self).pos()),
                Err(e) => g_cte(old(self).toks(), old(self).pos()) matches Read::Wrong(m) && e@ == ErrorView::Parse(m),
            },
    {
        proof {
            broadcast use super::ast::cte_view_made;
        }
        let name = self.expect_ident()?;
        self.expect(Kind::As)?;
        let query = self.parse_query_group()?;
        Ok(Cte { name, query })
    }

    pub(super) fn parse_ctes(&mut self) -> (r: Result<Vec<Cte>, QueryError>)
        requires
            old(self).wf(),
        ensures
            final(self).wf(),
            final(self).toks() == old(self).toks(),
            final(self).pos() >= old(self).pos(),
            r is Ok ==> final(self).pos() > old(self).pos(),
            match r {
                Ok(x) => g_ctes(old(self).toks(), old(self).pos(), Seq::empty()) == Read::Got(ctes_view(x@), final(self).pos()),
                Err(e) => g_ctes(old(self).toks(), old(self).pos(), Seq::empty()) matches Read::Wrong(m) && e@ == ErrorView::Parse(m),
            },
    {
        proof {
            broadcast use {super::ast::ctes_empty, super::ast::ctes_push};
        }
        let mut ctes: Vec<Cte> = Vec::new();
        loop
            invariant
                self.wf(),
                self.toks() == old(self).toks(),
                old(self).pos() <= self.pos(),
                g_ctes(old(self).toks(), old(self).pos(), Seq::empty()) == g_ctes(
                    self.toks(),
                    self.pos(),
                    ctes_view(ctes@),
                ),
            decreases self.toks().len() - self.pos(),
        {
            proof {
                broadcast use {super::ast::ctes_empty, super::ast::ctes_push};
            }
            let cte = self.parse_cte()?;
            ctes.push(cte);
            if !self.at(Kind::Comma) {
                return Ok(ctes);
            }
            self.advance();
        }
    }

    pub(super) fn with_ctes(s: SelectStmt, ctes: Vec<Cte>) -> (r: SelectStmt)
        ensures
            r@ == (SelectStmtView { ctes: ctes_view(ctes@), ..s@ }),
    {
        proof {
            broadcast use super::ast::select_stmt_view_made;
        }
        proof {
            s.unfold();
        }
        SelectStmt { ctes, ..s }
    }

    pub(super) fn parse_with(&mut self) -> (r: Result<Statement, QueryError>)
        requires
            old(self).wf(),
        ensures
            final(self).wf(),
            final(self).toks() == old(self).toks(),
            final(self).pos() >= old(self).pos(),
            r is Ok ==> final(self).pos() > old(self).pos(),
            match r {
                Ok(x) => g_with(old(self).toks(), old(self).pos()) == Read::Got(x@, final(self).pos()),
                Err(e) => g_with(old(self).toks(), old(self).pos()) matches Read::Wrong(m) && e@ == ErrorView::Parse(m),
            },
    {
        proof {
            broadcast use super::ast::statement_view_select;
        }
        self.expect(Kind::With)?;
        if self.at(Kind::Recursive) {
            self.advance();
        }
        let ctes = self.parse_ctes()?;
        self.expect(Kind::Select)?;
        let s = self.parse_select_body()?;
        Ok(Statement::Select(Self::with_ctes(s, ctes)))
    }

    pub(super) fn parse_use(&mut self) -> (r: Result<Statement, QueryError>)
        requires
            old(self).wf(),
            at(old(self).toks(), old(self).pos(), Kind::Use),
        ensures
            final(self).wf(),
            final(self).toks() == old(self).toks(),
            final(self).pos() >= old(self).pos(),
            r is Ok ==> final(self).pos() > old(self).pos(),
            match r {
                Ok(x) => g_use(old(self).toks(), old(self).pos()) == Read::Got(x@, final(self).pos()),
                Err(e) => g_use(old(self).toks(), old(self).pos()) matches Read::Wrong(m) && e@ == ErrorView::Parse(m),
            },
    {
        proof {
            broadcast use super::ast::statement_view_use_database;
        }
        self.advance();
        if self.at(Kind::Database) {
            self.advance();
        }
        let n = self.expect_ident()?;
        Ok(Statement::UseDatabase(n))
    }

    pub(super) fn parse_analyze(&mut self) -> (r: Result<Statement, QueryError>)
        requires
            old(self).wf(),
            at(old(self).toks(), old(self).pos(), Kind::Analyze),
        ensures
            final(self).wf(),
            final(self).toks() == old(self).toks(),
            final(self).pos() >= old(self).pos(),
            r is Ok ==> final(self).pos() > old(self).pos(),
            match r {
                Ok(x) => g_analyze(old(self).toks(), old(self).pos()) == Read::Got(x@, final(self).pos()),
                Err(e) => g_analyze(old(self).toks(), old(self).pos()) matches Read::Wrong(m) && e@ == ErrorView::Parse(m),
            },
    {
        proof {
            broadcast use super::ast::statement_view_analyze;
        }
        self.advance();
        if self.at_word("TABLE") {
            self.advance();
        }
        match self.ident_at() {
            Some(n) => {
                self.advance();
                Ok(Statement::Analyze(Some(n)))
            },
            None => Ok(Statement::Analyze(None)),
        }
    }

    pub fn parse_select(&mut self) -> (r: Result<Statement, QueryError>)
        requires
            old(self).wf(),
        ensures
            final(self).wf(),
            final(self).toks() == old(self).toks(),
            final(self).pos() >= old(self).pos(),
            r is Ok ==> final(self).pos() > old(self).pos(),
            match r {
                Ok(x) => g_plain_select(old(self).toks(), old(self).pos()) == Read::Got(x@, final(self).pos()),
                Err(e) => g_plain_select(old(self).toks(), old(self).pos()) matches Read::Wrong(m) && e@ == ErrorView::Parse(m),
            },
    {
        proof {
            broadcast use super::ast::statement_view_select;
        }
        self.expect(Kind::Select)?;
        let s = self.parse_select_body()?;
        Ok(Statement::Select(s))
    }

    pub(super) fn parse_row_statement(&mut self, k: Kind) -> (r: Result<Statement, QueryError>)
        requires
            old(self).wf(),
        ensures
            final(self).wf(),
            final(self).toks() == old(self).toks(),
            final(self).pos() >= old(self).pos(),
            r is Ok ==> final(self).pos() > old(self).pos(),
            match r {
                Ok(x) => g_row_statement(old(self).toks(), old(self).pos(), k) == Read::Got(x@, final(self).pos()),
                Err(e) => g_row_statement(old(self).toks(), old(self).pos(), k) matches Read::Wrong(m) && e@ == ErrorView::Parse(m),
            },
    {
        match k {
            Kind::With => self.parse_with(),
            Kind::Select => self.parse_select(),
            Kind::Insert => self.parse_insert(),
            Kind::Update => self.parse_update(),
            _ => self.parse_delete(),
        }
    }

    pub(super) fn parse_schema_statement(&mut self, k: Kind) -> (r: Result<Statement, QueryError>)
        requires
            old(self).wf(),
            at(old(self).toks(), old(self).pos(), k), k == Kind::Create || k == Kind::Drop || k == Kind::Alter || k == Kind::Truncate || k == Kind::Use || k == Kind::Analyze,
        ensures
            final(self).wf(),
            final(self).toks() == old(self).toks(),
            final(self).pos() >= old(self).pos(),
            r is Ok ==> final(self).pos() > old(self).pos(),
            match r {
                Ok(x) => g_schema_statement(old(self).toks(), old(self).pos(), k) == Read::Got(x@, final(self).pos()),
                Err(e) => g_schema_statement(old(self).toks(), old(self).pos(), k) matches Read::Wrong(m) && e@ == ErrorView::Parse(m),
            },
    {
        match k {
            Kind::Create => self.parse_create(),
            Kind::Drop => self.parse_drop(),
            Kind::Alter => self.parse_alter(),
            Kind::Truncate => self.parse_truncate(),
            Kind::Use => self.parse_use(),
            _ => self.parse_analyze(),
        }
    }

    pub(super) fn parse_session_statement(&mut self, k: Kind) -> (r: Result<Statement, QueryError>)
        requires
            old(self).wf(),
            at(old(self).toks(), old(self).pos(), k), k != Kind::Eof,
        ensures
            final(self).wf(),
            final(self).toks() == old(self).toks(),
            final(self).pos() >= old(self).pos(),
            r is Ok ==> final(self).pos() > old(self).pos(),
            match r {
                Ok(x) => g_session_statement(old(self).toks(), old(self).pos(), k) == Read::Got(x@, final(self).pos()),
                Err(e) => g_session_statement(old(self).toks(), old(self).pos(), k) matches Read::Wrong(m) && e@ == ErrorView::Parse(m),
            },
    {
        match k {
            Kind::Begin => self.parse_begin(),
            Kind::Commit => {
                self.advance();
                let s = Statement::Commit;
                proof {
                    s.unfold();
                }
                Ok(s)
            },
            Kind::Rollback => {
                self.advance();
                let s = Statement::Rollback;
                proof {
                    s.unfold();
                }
                Ok(s)
            },
            Kind::Migrate => {
                self.advance();
                let s = Statement::Migrate;
                proof {
                    s.unfold();
                }
                Ok(s)
            },
            Kind::Backup => self.parse_backup(),
            _ => self.parse_restore(),
        }
    }

    pub(super) fn parse_single(&mut self, k: Kind) -> (r: Result<Statement, QueryError>)
        requires
            old(self).wf(),
            at(old(self).toks(), old(self).pos(), k),
        ensures
            final(self).wf(),
            final(self).toks() == old(self).toks(),
            final(self).pos() >= old(self).pos(),
            r is Ok ==> final(self).pos() > old(self).pos(),
            match r {
                Ok(x) => g_single(old(self).toks(), old(self).pos(), k) == Read::Got(x@, final(self).pos()),
                Err(e) => g_single(old(self).toks(), old(self).pos(), k) matches Read::Wrong(m) && e@ == ErrorView::Parse(m),
            },
    {
        match k {
            Kind::With | Kind::Select | Kind::Insert | Kind::Update | Kind::Delete => self.parse_row_statement(k),
            Kind::Create | Kind::Drop | Kind::Alter | Kind::Truncate | Kind::Use | Kind::Analyze => {
                self.parse_schema_statement(k)
            },
            Kind::Begin | Kind::Commit | Kind::Rollback | Kind::Migrate | Kind::Backup | Kind::Restore => {
                self.parse_session_statement(k)
            },
            Kind::Kv => self.parse_kv(),
            Kind::Doc => self.parse_doc(),
            Kind::Show => self.parse_show(),
            _ => Err(QueryError::Parse(say_stray("Unexpected token: ", self.current()))),
        }
    }

    pub fn parse_statement(&mut self) -> (r: Result<Statement, QueryError>)
        requires
            old(self).wf(),
        ensures
            final(self).wf(),
            final(self).toks() == old(self).toks(),
            final(self).pos() >= old(self).pos(),
            r is Ok ==> final(self).pos() > old(self).pos(),
            match r {
                Ok(x) => g_statement(old(self).toks(), old(self).pos()) == Read::Got(x@, final(self).pos()),
                Err(e) => g_statement(old(self).toks(), old(self).pos()) matches Read::Wrong(m) && e@ == ErrorView::Parse(m),
            },
        decreases old(self).toks().len() - old(self).pos(), 1int,
    {
        match self.kind_at() {
            Some(Kind::Explain) => {
                self.advance();
                self.parse_explain()
            },
            Some(k) => self.parse_single(k),
            None => Err(QueryError::Parse(say_stray("Unexpected token: ", self.current()))),
        }
    }

    /// Reads the rest of an EXPLAIN.
    pub(super) fn parse_explain(&mut self) -> (r: Result<Statement, QueryError>)
        requires
            old(self).wf(),
        ensures
            final(self).wf(),
            final(self).toks() == old(self).toks(),
            final(self).pos() >= old(self).pos(),
            r is Ok ==> final(self).pos() > old(self).pos(),
            match r {
                Ok(x) => g_explain(old(self).toks(), old(self).pos()) == Read::Got(x@, final(self).pos()),
                Err(e) => g_explain(old(self).toks(), old(self).pos()) matches Read::Wrong(m) && e@ == ErrorView::Parse(m),
            },
        decreases old(self).toks().len() - old(self).pos(), 2int,
    {
        proof {
            broadcast use super::ast::statement_view_explain;
        }
        if self.at(Kind::Analyze) {
            self.advance();
            let s = self.parse_statement()?;
            Ok(Statement::Explain(Box::new(s), true))
        } else {
            let s = self.parse_statement()?;
            Ok(Statement::Explain(Box::new(s), false))
        }
    }

    pub(super) fn set_op_at(&self) -> (r: Option<Kind>)
        requires
            self.wf(),
        ensures
            match r {
                Some(k) => at(self.toks(), self.pos(), k) && (k == Kind::Union || k == Kind::Intersect || k == Kind::Except),
                None => !at(self.toks(), self.pos(), Kind::Union) && !at(self.toks(), self.pos(), Kind::Intersect) && !at(
                    self.toks(),
                    self.pos(),
                    Kind::Except,
                ),
            },
    {
        if self.at(Kind::Union) {
            Some(Kind::Union)
        } else if self.at(Kind::Intersect) {
            Some(Kind::Intersect)
        } else if self.at(Kind::Except) {
            Some(Kind::Except)
        } else {
            None
        }
    }

    pub(super) fn set_op_of(k: Kind, left: Statement, right: Statement, all: bool) -> (r: Statement)
        ensures
            r@ == set_op(k, left@, right@, all),
    {
        proof {
            broadcast use {super::ast::statement_view_except, super::ast::statement_view_intersect, super::ast::statement_view_union};
        }
        match k {
            Kind::Union => Statement::Union(Box::new(left), Box::new(right), all),
            Kind::Intersect => Statement::Intersect(Box::new(left), Box::new(right), all),
            _ => Statement::Except(Box::new(left), Box::new(right), all),
        }
    }

    pub(super) fn skip_all(&mut self) -> (r: bool)
        requires
            old(self).wf(),
        ensures
            final(self).wf(),
            final(self).toks() == old(self).toks(),
            final(self).pos() >= old(self).pos(),
            (r, final(self).pos()) == g_all(old(self).toks(), old(self).pos()),
    {
        if self.at(Kind::All) {
            self.advance();
            true
        } else {
            false
        }
    }

    /// Reads the set operations behind the statement `left`.
    pub fn maybe_parse_union(&mut self, left: Statement) -> (r: Result<Statement, QueryError>)
        requires
            old(self).wf(),
        ensures
            final(self).wf(),
            final(self).toks() == old(self).toks(),
            final(self).pos() >= old(self).pos(),
            match r {
                Ok(x) => g_set_ops(old(self).toks(), old(self).pos(), left@) == Read::Got(x@, final(self).pos()),
                Err(e) => g_set_ops(old(self).toks(), old(self).pos(), left@) matches Read::Wrong(m) && e@ == ErrorView::Parse(m),
            },
        decreases old(self).toks().len() - old(self).pos(), 0int,
    {
        match self.set_op_at() {
            None => Ok(left),
            Some(k) => {
                self.advance();
                let all = self.skip_all();
                let first = self.parse_statement()?;
                let right = self.maybe_parse_union(first)?;
                Ok(Self::set_op_of(k, left, right, all))
            },
        }
    }

    pub fn parse(&mut self) -> (r: Result<Statement, QueryError>)
        requires
            old(self).wf(),
        ensures
            final(self).wf(),
            final(self).toks() == old(self).toks(),
            final(self).pos() >= old(self).pos(),
            r is Ok ==> final(self).pos() > old(self).pos(),
            match r {
                Ok(x) => g_parse(old(self).toks(), old(self).pos()) == Read::Got(x@, final(self).pos()),
                Err(e) => g_parse(old(self).toks(), old(self).pos()) matches Read::Wrong(m) && e@ == ErrorView::Parse(m),
            },
    {
        let first = self.parse_statement()?;
        let s = self.maybe_parse_union(first)?;
        if self.at(Kind::Semicolon) {
            self.advance();
        }
        Ok(s)
    }
}

} // verus!
