use vstd::prelude::*;
use vstd::string::*;
use crate::error::{ErrorView, QueryError};
use crate::text::join3;
use super::ast::{Expr, FromClause, JoinClause, JoinType, OrderByExpr, SelectColumn, SelectStmt};
use super::ast::{exprs_view, join_clauses_push, join_clauses_view, order_by_exprs_push, order_by_exprs_view, select_columns_push, select_columns_view};
use super::ast::SelectStmtView;
use super::grammar::at;
use super::grammar::select_head;
use super::grammar::Read;
use super::grammar::{g_column_alias, g_column_list, g_columns, g_direction, g_from, g_having_order, g_join, g_join_head, g_joins, g_limit_offset, g_nulls, g_opt_group, g_opt_having, g_opt_limit, g_opt_offset, g_opt_order, g_opt_where, g_orders, g_select, g_select_head, g_select_tail, g_where_group};
use super::parser::Parser;
use super::token::Kind;

verus! {

impl Parser {
    pub(super) fn parse_direction(&mut self) -> (r: bool)
        requires
            old(self).wf(),
        ensures
            final(self).wf(),
            final(self).toks() == old(self).toks(),
            final(self).pos() >= old(self).pos(),
            (r, final(self).pos()) == g_direction(old(self).toks(), old(self).pos()),
    {
        if self.at(Kind::Desc) {
            self.advance();
            false
        } else {
            if self.at(Kind::Asc) {
                self.advance();
            }
            true
        }
    }

    pub(super) fn parse_nulls(&mut self) -> (r: Result<Option<bool>, QueryError>)
        requires
            old(self).wf(),
        ensures
            final(self).wf(),
            final(self).toks() == old(self).toks(),
            final(self).pos() >= old(self).pos(),
            match r {
                Ok(x) => g_nulls(old(self).toks(), old(self).pos()) == Read::Got(x, final(self).pos()),
                Err(e) => g_nulls(old(self).toks(), old(self).pos()) matches Read::Wrong(m) && e@ == ErrorView::Parse(m),
            },
    {
        if self.at(Kind::Nulls) {
            self.advance();
            if self.at(Kind::First) {
                self.advance();
                Ok(Some(true))
            } else {
                self.expect(Kind::Last)?;
                Ok(Some(false))
            }
        } else {
            Ok(None)
        }
    }

    pub fn parse_order_by(&mut self) -> (r: Result<Vec<OrderByExpr>, QueryError>)
        requires
            old(self).wf(),
        ensures
            final(self).wf(),
            final(self).toks() == old(self).toks(),
            final(self).pos() >= old(self).pos(),
            r is Ok ==> final(self).pos() > old(self).pos(),
            match r {
                Ok(x) => g_orders(old(self).toks(), old(self).pos(), Seq::empty()) == Read::Got(order_by_exprs_view(x@), final(self).pos()),
                Err(e) => g_orders(old(self).toks(), old(self).pos(), Seq::empty()) matches Read::Wrong(m) && e@ == ErrorView::Parse(m),
            },
        decreases old(self).toks().len() - old(self).pos(), 12int,
    {
        proof {
            broadcast use {super::ast::exprs_empty, super::ast::exprs_push, super::ast::order_by_expr_view_made, super::ast::order_by_exprs_empty, super::ast::order_by_exprs_push};
        }
        let mut exprs: Vec<OrderByExpr> = Vec::new();
        loop
            invariant
                self.wf(),
                self.toks() == old(self).toks(),
                old(self).pos() <= self.pos(),
                g_orders(old(self).toks(), old(self).pos(), Seq::empty()) == g_orders(
                    self.toks(),
                    self.pos(),
                    order_by_exprs_view(exprs@),
                ),
            decreases self.toks().len() - self.pos(),
        {
            proof {
                broadcast use {super::ast::exprs_empty, super::ast::exprs_push, super::ast::order_by_expr_view_made, super::ast::order_by_exprs_empty, super::ast::order_by_exprs_push};
            }
            let expr = self.parse_expr()?;
            let ascending = self.parse_direction();
            let nulls_first = self.parse_nulls()?;
            let key = OrderByExpr { expr, ascending, nulls_first };
            proof {
                order_by_exprs_push(exprs@, key);
            }
            exprs.push(key);
            if !self.at(Kind::Comma) {
                return Ok(exprs);
            }
            self.advance();
        }
    }

    pub(super) fn parse_opt_order(&mut self) -> (r: Result<Vec<OrderByExpr>, QueryError>)
        requires
            old(self).wf(),
        ensures
            final(self).wf(),
            final(self).toks() == old(self).toks(),
            final(self).pos() >= old(self).pos(),
            match r {
                Ok(x) => g_opt_order(old(self).toks(), old(self).pos()) == Read::Got(order_by_exprs_view(x@), final(self).pos()),
                Err(e) => g_opt_order(old(self).toks(), old(self).pos()) matches Read::Wrong(m) && e@ == ErrorView::Parse(m),
            },
        decreases old(self).toks().len() - old(self).pos(), 13int,
    {
        proof {
            broadcast use {super::ast::exprs_empty, super::ast::order_by_exprs_empty};
        }
        if self.at(Kind::Order) {
            self.advance();
            self.expect(Kind::By)?;
            self.parse_order_by()
        } else {
            Ok(Vec::new())
        }
    }

    pub fn parse_select_columns(&mut self) -> (r: Result<Vec<SelectColumn>, QueryError>)
        requires
            old(self).wf(),
        ensures
            final(self).wf(),
            final(self).toks() == old(self).toks(),
            final(self).pos() >= old(self).pos(),
            r is Ok ==> final(self).pos() > old(self).pos(),
            match r {
                Ok(x) => g_columns(old(self).toks(), old(self).pos()) == Read::Got(select_columns_view(x@), final(self).pos()),
                Err(e) => g_columns(old(self).toks(), old(self).pos()) matches Read::Wrong(m) && e@ == ErrorView::Parse(m),
            },
        decreases old(self).toks().len() - old(self).pos(), 14int,
    {
        proof {
            broadcast use {super::ast::select_column_view_expr, super::ast::select_columns_empty, super::ast::select_columns_push};
        }
        let mut columns: Vec<SelectColumn> = Vec::new();
        if self.at(Kind::Star) {
            self.advance();
            proof {
                SelectColumn::Star.unfold();
                assert(select_columns_view(columns@.push(SelectColumn::Star)) =~= seq![SelectColumn::Star@]);
            }
            columns.push(SelectColumn::Star);
            return Ok(columns);
        }
        loop
            invariant
                self.wf(),
                self.toks() == old(self).toks(),
                old(self).pos() <= self.pos(),
                g_columns(old(self).toks(), old(self).pos()) == g_column_list(
                    self.toks(),
                    self.pos(),
                    select_columns_view(columns@),
                ),
            decreases self.toks().len() - self.pos(),
        {
            proof {
                broadcast use {super::ast::select_column_view_expr, super::ast::select_columns_empty, super::ast::select_columns_push};
            }
            let expr = self.parse_expr()?;
            let alias = self.parse_column_alias()?;
            let col = SelectColumn::Expr(expr, alias);
            proof {
                select_columns_push(columns@, col);
            }
            columns.push(col);
            if !self.at(Kind::Comma) {
                return Ok(columns);
            }
            self.advance();
        }
    }

    pub(super) fn parse_column_alias(&mut self) -> (r: Result<Option<String>, QueryError>)
        requires
            old(self).wf(),
        ensures
            final(self).wf(),
            final(self).toks() == old(self).toks(),
            final(self).pos() >= old(self).pos(),
            match r {
                Ok(x) => g_column_alias(old(self).toks(), old(self).pos()) == Read::Got((match x { Some(s) => Some(s@), None => None }), final(self).pos()),
                Err(e) => g_column_alias(old(self).toks(), old(self).pos()) matches Read::Wrong(m) && e@ == ErrorView::Parse(m),
            },
    {
        if self.at(Kind::As) {
            self.advance();
            let name = self.expect_ident()?;
            Ok(Some(name))
        } else {
            Ok(None)
        }
    }

    pub(super) fn parse_from_clause(&mut self) -> (r: Result<(FromClause, Option<String>), QueryError>)
        requires
            old(self).wf(),
        ensures
            final(self).wf(),
            final(self).toks() == old(self).toks(),
            final(self).pos() >= old(self).pos(),
            match r {
                Ok(x) => g_from(old(self).toks(), old(self).pos()) == Read::Got((x.0@, match x.1 { Some(s) => Some(s@), None => None }), final(self).pos()),
                Err(e) => g_from(old(self).toks(), old(self).pos()) matches Read::Wrong(m) && e@ == ErrorView::Parse(m),
            },
        decreases old(self).toks().len() - old(self).pos(), 13int,
    {
        proof {
            broadcast use {super::ast::from_clause_view_subquery, super::ast::from_clause_view_table};
        }
        if !self.at(Kind::From) {
            let nothing = FromClause::Absent;
            proof {
                nothing.unfold();
            }
            return Ok((nothing, None));
        }
        self.advance();
        if self.at(Kind::LParen) {
            let subquery = self.parse_query_group()?;
            let alias = self.try_parse_alias();
            Ok((FromClause::Subquery(Box::new(subquery)), alias))
        } else {
            let table = self.expect_ident()?;
            if self.at(Kind::Dot) {
                self.advance();
                let sub = self.expect_ident()?;
                let alias = self.try_parse_alias();
                Ok((FromClause::Table(join3(table.as_str(), ".", sub.as_str())), alias))
            } else {
                let alias = self.try_parse_alias();
                Ok((FromClause::Table(table), alias))
            }
        }
    }

    pub(super) fn parse_join_head(&mut self) -> (r: Result<JoinType, QueryError>)
        requires
            old(self).wf(),
        ensures
            final(self).wf(),
            final(self).toks() == old(self).toks(),
            final(self).pos() >= old(self).pos(),
            r is Ok ==> final(self).pos() > old(self).pos(),
            match r {
                Ok(x) => g_join_head(old(self).toks(), old(self).pos()) == Read::Got(x, final(self).pos()),
                Err(e) => g_join_head(old(self).toks(), old(self).pos()) matches Read::Wrong(m) && e@ == ErrorView::Parse(m),
            },
    {
        if self.at(Kind::Inner) {
            self.advance();
            self.expect(Kind::Join)?;
            Ok(JoinType::Inner)
        } else if self.at(Kind::Left) {
            self.advance();
            self.expect(Kind::Join)?;
            Ok(JoinType::Left)
        } else if self.at(Kind::Right) {
            self.advance();
            self.expect(Kind::Join)?;
            Ok(JoinType::Right)
        } else if self.at(Kind::Join) {
            self.advance();
            Ok(JoinType::Inner)
        } else {
            Err(QueryError::Parse("Expected JOIN".to_string()))
        }
    }

    pub(super) fn parse_join(&mut self) -> (r: Result<JoinClause, QueryError>)
        requires
            old(self).wf(),
        ensures
            final(self).wf(),
            final(self).toks() == old(self).toks(),
            final(self).pos() >= old(self).pos(),
            r is Ok ==> final(self).pos() > old(self).pos(),
            match r {
                Ok(x) => g_join(old(self).toks(), old(self).pos()) == Read::Got(x@, final(self).pos()),
                Err(e) => g_join(old(self).toks(), old(self).pos()) matches Read::Wrong(m) && e@ == ErrorView::Parse(m),
            },
        decreases old(self).toks().len() - old(self).pos(), 12int,
    {
        proof {
            broadcast use super::ast::join_clause_view_made;
        }
        let join_type = self.parse_join_head()?;
        let table = self.expect_ident()?;
        let alias = if self.at(Kind::On) {
            None
        } else {
            self.try_parse_alias()
        };
        self.expect(Kind::On)?;
        let condition = self.parse_expr()?;
        Ok(JoinClause { join_type, table, alias, condition })
    }

    pub(super) fn parse_joins(&mut self) -> (r: Result<Vec<JoinClause>, QueryError>)
        requires
            old(self).wf(),
        ensures
            final(self).wf(),
            final(self).toks() == old(self).toks(),
            final(self).pos() >= old(self).pos(),
            match r {
                Ok(x) => g_joins(old(self).toks(), old(self).pos(), Seq::empty()) == Read::Got(join_clauses_view(x@), final(self).pos()),
                Err(e) => g_joins(old(self).toks(), old(self).pos(), Seq::empty()) matches Read::Wrong(m) && e@ == ErrorView::Parse(m),
            },
        decreases old(self).toks().len() - old(self).pos(), 13int,
    {
        proof {
            broadcast use {super::ast::join_clauses_empty, super::ast::join_clauses_push};
        }
        let mut joins: Vec<JoinClause> = Vec::new();
        while self.at_join()
            invariant
                self.wf(),
                self.toks() == old(self).toks(),
                old(self).pos() <= self.pos(),
                g_joins(old(self).toks(), old(self).pos(), Seq::empty()) == g_joins(
                    self.toks(),
                    self.pos(),
                    join_clauses_view(joins@),
                ),
            decreases self.toks().len() - self.pos(),
        {
            proof {
                broadcast use {super::ast::join_clauses_empty, super::ast::join_clauses_push};
            }
            let j = self.parse_join()?;
            proof {
                join_clauses_push(joins@, j);
            }
            joins.push(j);
        }
        Ok(joins)
    }

    pub(super) fn parse_opt_where(&mut self) -> (r: Result<Option<Expr>, QueryError>)
        requires
            old(self).wf(),
        ensures
            final(self).wf(),
            final(self).toks() == old(self).toks(),
            final(self).pos() >= old(self).pos(),
            match r {
                Ok(x) => g_opt_where(old(self).toks(), old(self).pos()) == Read::Got((match x { Some(e) => Some(e@), None => None }), final(self).pos()),
                Err(e) => g_opt_where(old(self).toks(), old(self).pos()) matches Read::Wrong(m) && e@ == ErrorView::Parse(m),
            },
        decreases old(self).toks().len() - old(self).pos(), 12int,
    {
        if self.at(Kind::Where) {
            self.advance();
            let e = self.parse_expr()?;
            Ok(Some(e))
        } else {
            Ok(None)
        }
    }

    pub(super) fn parse_opt_group(&mut self) -> (r: Result<Vec<Expr>, QueryError>)
        requires
            old(self).wf(),
        ensures
            final(self).wf(),
            final(self).toks() == old(self).toks(),
            final(self).pos() >= old(self).pos(),
            match r {
                Ok(x) => g_opt_group(old(self).toks(), old(self).pos()) == Read::Got(exprs_view(x@), final(self).pos()),
                Err(e) => g_opt_group(old(self).toks(), old(self).pos()) matches Read::Wrong(m) && e@ == ErrorView::Parse(m),
            },
        decreases old(self).toks().len() - old(self).pos(), 13int,
    {
        proof {
            broadcast use super::ast::exprs_empty;
        }
        if self.at(Kind::Group) {
            self.advance();
            self.expect(Kind::By)?;
            self.parse_expr_list()
        } else {
            Ok(Vec::new())
        }
    }

    pub(super) fn parse_opt_having(&mut self) -> (r: Result<Option<Expr>, QueryError>)
        requires
            old(self).wf(),
        ensures
            final(self).wf(),
            final(self).toks() == old(self).toks(),
            final(self).pos() >= old(self).pos(),
            match r {
                Ok(x) => g_opt_having(old(self).toks(), old(self).pos()) == Read::Got((match x { Some(e) => Some(e@), None => None }), final(self).pos()),
                Err(e) => g_opt_having(old(self).toks(), old(self).pos()) matches Read::Wrong(m) && e@ == ErrorView::Parse(m),
            },
        decreases old(self).toks().len() - old(self).pos(), 12int,
    {
        if self.at(Kind::Having) {
            self.advance();
            let e = self.parse_expr()?;
            Ok(Some(e))
        } else {
            Ok(None)
        }
    }

    pub(super) fn parse_opt_limit(&mut self) -> (r: Result<Option<usize>, QueryError>)
        requires
            old(self).wf(),
        ensures
            final(self).wf(),
            final(self).toks() == old(self).toks(),
            final(self).pos() >= old(self).pos(),
            match r {
                Ok(x) => g_opt_limit(old(self).toks(), old(self).pos()) == Read::Got(x, final(self).pos()),
                Err(e) => g_opt_limit(old(self).toks(), old(self).pos()) matches Read::Wrong(m) && e@ == ErrorView::Parse(m),
            },
    {
        if self.at(Kind::Limit) {
            self.advance();
            let n = self.expect_integer()?;
            Ok(Some(n as usize))
        } else {
            Ok(None)
        }
    }

    pub(super) fn parse_opt_offset(&mut self) -> (r: Result<Option<usize>, QueryError>)
        requires
            old(self).wf(),
        ensures
            final(self).wf(),
            final(self).toks() == old(self).toks(),
            final(self).pos() >= old(self).pos(),
            match r {
                Ok(x) => g_opt_offset(old(self).toks(), old(self).pos()) == Read::Got(x, final(self).pos()),
                Err(e) => g_opt_offset(old(self).toks(), old(self).pos()) matches Read::Wrong(m) && e@ == ErrorView::Parse(m),
            },
    {
        if self.at(Kind::Offset) {
            self.advance();
            let n = self.expect_integer()?;
            Ok(Some(n as usize))
        } else {
            Ok(None)
        }
    }

    /// Reads a SELECT from behind the keyword on.
    pub fn parse_select_body(&mut self) -> (r: Result<SelectStmt, QueryError>)
        requires
            old(self).wf(),
        ensures
            final(self).wf(),
            final(self).toks() == old(self).toks(),
            final(self).pos() >= old(self).pos(),
            r is Ok ==> final(self).pos() > old(self).pos(),
            match r {
                Ok(x) => g_select(old(self).toks(), old(self).pos()) == Read::Got(x@, final(self).pos()),
                Err(e) => g_select(old(self).toks(), old(self).pos()) matches Read::Wrong(m) && e@ == ErrorView::Parse(m),
            },
        decreases old(self).toks().len() - old(self).pos(), 19int,
    {
        if self.at(Kind::Distinct) {
            self.advance();
            let head = self.parse_select_head(true)?;
            self.parse_select_tail(head)
        } else {
            let head = self.parse_select_head(false)?;
            self.parse_select_tail(head)
        }
    }

    /// Reads the select list, FROM and the joins.
    pub(super) fn parse_select_head(&mut self, distinct: bool) -> (r: Result<SelectStmt, QueryError>)
        requires
            old(self).wf(),
        ensures
            final(self).wf(),
            final(self).toks() == old(self).toks(),
            final(self).pos() >= old(self).pos(),
            r is Ok ==> final(self).pos() > old(self).pos(),
            match r {
                Ok(x) => g_select_head(old(self).toks(), old(self).pos(), distinct) == Read::Got(x@, final(self).pos()),
                Err(e) => g_select_head(old(self).toks(), old(self).pos(), distinct) matches Read::Wrong(m) && e@ == ErrorView::Parse(m),
            },
        decreases old(self).toks().len() - old(self).pos(), 18int,
    {
        let columns = self.parse_select_columns()?;
        let (from, from_alias) = self.parse_from_clause()?;
        let joins = self.parse_joins()?;
        Ok(Self::bare_select(columns, distinct, from, from_alias, joins))
    }

    pub(super) fn bare_select(
        columns: Vec<SelectColumn>,
        distinct: bool,
        from: FromClause,
        from_alias: Option<String>,
        joins: Vec<JoinClause>,
    ) -> (r: SelectStmt)
        ensures
            r@ == select_head(
                select_columns_view(columns@),
                distinct,
                (from@, match from_alias { Some(s) => Some(s@), None => None }),
                join_clauses_view(joins@),
            ),
    {
        proof {
            broadcast use {super::ast::ctes_empty, super::ast::exprs_empty, super::ast::join_clauses_empty, super::ast::order_by_exprs_empty, super::ast::select_columns_empty, super::ast::select_stmt_view_made};
        }
        SelectStmt {
            columns,
            distinct,
            from,
            from_alias,
            joins,
            where_clause: None,
            group_by: Vec::new(),
            having: None,
            order_by: Vec::new(),
            limit: None,
            offset: None,
            ctes: Vec::new(),
        }
    }

    pub(super) fn parse_where_group(&mut self) -> (r: Result<(Option<Expr>, Vec<Expr>), QueryError>)
        requires
            old(self).wf(),
        ensures
            final(self).wf(),
            final(self).toks() == old(self).toks(),
            final(self).pos() >= old(self).pos(),
            match r {
                Ok(x) => g_where_group(old(self).toks(), old(self).pos()) == Read::Got((match x.0 { Some(e) => Some(e@), None => None }, exprs_view(x.1@)), final(self).pos()),
                Err(e) => g_where_group(old(self).toks(), old(self).pos()) matches Read::Wrong(m) && e@ == ErrorView::Parse(m),
            },
        decreases old(self).toks().len() - old(self).pos(), 14int,
    {
        let w = self.parse_opt_where()?;
        assert(decreases_to!(old(self).toks().len() - old(self).pos(), 14int => self.toks().len() - self.pos(), 13int));
        let g = self.parse_opt_group()?;
        Ok((w, g))
    }

    pub(super) fn parse_having_order(&mut self) -> (r: Result<(Option<Expr>, Vec<OrderByExpr>), QueryError>)
        requires
            old(self).wf(),
        ensures
            final(self).wf(),
            final(self).toks() == old(self).toks(),
            final(self).pos() >= old(self).pos(),
            match r {
                Ok(x) => g_having_order(old(self).toks(), old(self).pos()) == Read::Got((match x.0 { Some(e) => Some(e@), None => None }, order_by_exprs_view(x.1@)), final(self).pos()),
                Err(e) => g_having_order(old(self).toks(), old(self).pos()) matches Read::Wrong(m) && e@ == ErrorView::Parse(m),
            },
        decreases old(self).toks().len() - old(self).pos(), 14int,
    {
        let h = self.parse_opt_having()?;
        assert(decreases_to!(old(self).toks().len() - old(self).pos(), 14int => self.toks().len() - self.pos(), 13int));
        let o = self.parse_opt_order()?;
        Ok((h, o))
    }

    pub(super) fn parse_limit_offset(&mut self) -> (r: Result<(Option<usize>, Option<usize>), QueryError>)
        requires
            old(self).wf(),
        ensures
            final(self).wf(),
            final(self).toks() == old(self).toks(),
            final(self).pos() >= old(self).pos(),
            match r {
                Ok(x) => g_limit_offset(old(self).toks(), old(self).pos()) == Read::Got(x, final(self).pos()),
                Err(e) => g_limit_offset(old(self).toks(), old(self).pos()) matches Read::Wrong(m) && e@ == ErrorView::Parse(m),
            },
    {
        let l = self.parse_opt_limit()?;
        let o = self.parse_opt_offset()?;
        Ok((l, o))
    }

    /// Reads the clauses of a SELECT behind its joins into `s`.
    pub(super) fn parse_select_tail(&mut self, s: SelectStmt) -> (r: Result<SelectStmt, QueryError>)
        requires
            old(self).wf(),
        ensures
            final(self).wf(),
            final(self).toks() == old(self).toks(),
            final(self).pos() >= old(self).pos(),
            match r {
                Ok(x) => g_select_tail(old(self).toks(), old(self).pos(), s@) == Read::Got(x@, final(self).pos()),
                Err(e) => g_select_tail(old(self).toks(), old(self).pos(), s@) matches Read::Wrong(m) && e@ == ErrorView::Parse(m),
            },
        decreases old(self).toks().len() - old(self).pos(), 17int,
    {
        let (where_clause, group_by) = self.parse_where_group()?;
        assert(decreases_to!(old(self).toks().len() - old(self).pos(), 17int => self.toks().len() - self.pos(), 14int));
        let (having, order_by) = self.parse_having_order()?;
        let (limit, offset) = self.parse_limit_offset()?;
        Ok(Self::with_tail(s, where_clause, group_by, having, order_by, limit, offset))
    }

    pub(super) fn with_tail(
        s: SelectStmt,
        where_clause: Option<Expr>,
        group_by: Vec<Expr>,
        having: Option<Expr>,
        order_by: Vec<OrderByExpr>,
        limit: Option<usize>,
        offset: Option<usize>,
    ) -> (r: SelectStmt)
        ensures
            r@ == (SelectStmtView {
                where_clause: match where_clause { Some(e) => Some(e@), None => None },
                group_by: exprs_view(group_by@),
                having: match having { Some(e) => Some(e@), None => None },
                order_by: order_by_exprs_view(order_by@),
                limit,
                offset,
                ..s@
            }),
    {
        proof {
            broadcast use super::ast::select_stmt_view_made;
        }
        proof {
            s.unfold();
        }
        SelectStmt {
            columns: s.columns,
            distinct: s.distinct,
            from: s.from,
            from_alias: s.from_alias,
            joins: s.joins,
            where_clause,
            group_by,
            having,
            order_by,
            limit,
            offset,
            ctes: s.ctes,
        }
    }
}

} // verus!
