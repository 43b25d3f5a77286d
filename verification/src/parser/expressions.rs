use vstd::prelude::*;
use vstd::string::*;
use crate::error::{ErrorView, QueryError};
use crate::text::join2;
use super::ast::{BinOp, Expr, LiteralValue, OrderByExpr, SelectStmt, UnaryOp};
use super::ast::{exprs_push, exprs_view, order_by_exprs_view, when_clauses_push, when_clauses_view};
use super::ast::ExprView;
use super::grammar::Read;
use super::grammar::{at, tok};
use super::grammar::{additive_op, compares, comparison_op, literal_of, minus, multiplicative_op};
use super::grammar::{g_addition, g_addition_rest, g_and, g_and_rest, g_args, g_atom, g_between, g_call, g_call_args, g_case, g_case_end, g_case_rest, g_cast, g_casts, g_compare, g_comparison, g_comparison_rest, g_composed, g_else, g_exists, g_expr, g_exprs, g_in, g_interval, g_is, g_json_path, g_keyword_atom, g_multiplication, g_multiplication_rest, g_named, g_negatable, g_not_atom, g_operand, g_or_rest, g_paren, g_partition, g_prefixed, g_primary, g_query_group, g_unary, g_whens, g_window};
use super::parser::Parser;
use super::messages::say_stray;
use super::token::{Kind, Token};

verus! {

impl Parser {
    pub fn parse_expr(&mut self) -> (r: Result<Expr, QueryError>)
        requires
            old(self).wf(),
        ensures
            final(self).wf(),
            final(self).toks() == old(self).toks(),
            final(self).pos() >= old(self).pos(),
            r is Ok ==> final(self).pos() > old(self).pos(),
            match r {
                Ok(x) => g_expr(old(self).toks(), old(self).pos()) == Read::Got(x@, final(self).pos()),
                Err(e) => g_expr(old(self).toks(), old(self).pos()) matches Read::Wrong(m) && e@ == ErrorView::Parse(m),
            },
        decreases old(self).toks().len() - old(self).pos(), 11int,
    {
        self.parse_or_expr()
    }

    pub(super) fn parse_or_expr(&mut self) -> (r: Result<Expr, QueryError>)
        requires
            old(self).wf(),
        ensures
            final(self).wf(),
            final(self).toks() == old(self).toks(),
            final(self).pos() >= old(self).pos(),
            r is Ok ==> final(self).pos() > old(self).pos(),
            match r {
                Ok(x) => g_expr(old(self).toks(), old(self).pos()) == Read::Got(x@, final(self).pos()),
                Err(e) => g_expr(old(self).toks(), old(self).pos()) matches Read::Wrong(m) && e@ == ErrorView::Parse(m),
            },
        decreases old(self).toks().len() - old(self).pos(), 10int,
    {
        proof {
            broadcast use super::ast::expr_view_binary_op;
        }
        let mut left = self.parse_and_expr()?;
        while self.at(Kind::Or)
            invariant
                self.wf(),
                self.toks() == old(self).toks(),
                old(self).pos() < self.pos(),
                g_expr(old(self).toks(), old(self).pos()) == g_or_rest(self.toks(), self.pos(), left@),
            decreases self.toks().len() - self.pos(),
        {
            proof {
                broadcast use super::ast::expr_view_binary_op;
            }
            self.advance();
            let right = self.parse_and_expr()?;
            left = Expr::BinaryOp { left: Box::new(left), op: BinOp::Or, right: Box::new(right) };
        }
        Ok(left)
    }

    pub(super) fn parse_and_expr(&mut self) -> (r: Result<Expr, QueryError>)
        requires
            old(self).wf(),
        ensures
            final(self).wf(),
            final(self).toks() == old(self).toks(),
            final(self).pos() >= old(self).pos(),
            r is Ok ==> final(self).pos() > old(self).pos(),
            match r {
                Ok(x) => g_and(old(self).toks(), old(self).pos()) == Read::Got(x@, final(self).pos()),
                Err(e) => g_and(old(self).toks(), old(self).pos()) matches Read::Wrong(m) && e@ == ErrorView::Parse(m),
            },
        decreases old(self).toks().len() - old(self).pos(), 8int,
    {
        proof {
            broadcast use super::ast::expr_view_binary_op;
        }
        let mut left = self.parse_comparison()?;
        while self.at(Kind::And)
            invariant
                self.wf(),
                self.toks() == old(self).toks(),
                old(self).pos() < self.pos(),
                g_and(old(self).toks(), old(self).pos()) == g_and_rest(self.toks(), self.pos(), left@),
            decreases self.toks().len() - self.pos(),
        {
            proof {
                broadcast use super::ast::expr_view_binary_op;
            }
            self.advance();
            let right = self.parse_comparison()?;
            left = Expr::BinaryOp { left: Box::new(left), op: BinOp::And, right: Box::new(right) };
        }
        Ok(left)
    }

    pub(super) fn comparison_at(&self) -> (r: Option<BinOp>)
        requires
            self.wf(),
        ensures
            r == comparison_op(tok(self.toks(), self.pos())),
    {
        match self.current() {
            Token::Kind(Kind::Eq) => Some(BinOp::Eq),
            Token::Kind(Kind::Neq) => Some(BinOp::Neq),
            Token::Kind(Kind::Lt) => Some(BinOp::Lt),
            Token::Kind(Kind::Gt) => Some(BinOp::Gt),
            Token::Kind(Kind::Lte) => Some(BinOp::Lte),
            Token::Kind(Kind::Gte) => Some(BinOp::Gte),
            Token::Kind(Kind::Like) => Some(BinOp::Like),
            Token::Kind(Kind::Ilike) => Some(BinOp::Ilike),
            _ => None,
        }
    }

    pub(super) fn at_comparison(&self) -> (r: bool)
        requires
            self.wf(),
        ensures
            r == compares(tok(self.toks(), self.pos())),
    {
        self.at(Kind::Is) || self.at(Kind::Not) || self.at(Kind::In) || self.at(Kind::Between)
            || self.comparison_at().is_some()
    }

    pub fn parse_comparison(&mut self) -> (r: Result<Expr, QueryError>)
        requires
            old(self).wf(),
        ensures
            final(self).wf(),
            final(self).toks() == old(self).toks(),
            final(self).pos() >= old(self).pos(),
            r is Ok ==> final(self).pos() > old(self).pos(),
            match r {
                Ok(x) => g_comparison(old(self).toks(), old(self).pos()) == Read::Got(x@, final(self).pos()),
                Err(e) => g_comparison(old(self).toks(), old(self).pos()) matches Read::Wrong(m) && e@ == ErrorView::Parse(m),
            },
        decreases old(self).toks().len() - old(self).pos(), 7int,
    {
        let mut left = self.parse_addition()?;
        while self.at_comparison()
            invariant
                self.wf(),
                self.toks() == old(self).toks(),
                old(self).pos() < self.pos(),
                g_comparison(old(self).toks(), old(self).pos()) == g_comparison_rest(self.toks(), self.pos(), left@),
            decreases self.toks().len() - self.pos(),
        {
            left = self.parse_compare(left)?;
        }
        Ok(left)
    }

    /// Reads one comparison behind the operand `left`.
    pub(super) fn parse_compare(&mut self, left: Expr) -> (r: Result<Expr, QueryError>)
        requires
            old(self).wf(),
        ensures
            final(self).wf(),
            final(self).toks() == old(self).toks(),
            final(self).pos() >= old(self).pos(),
            r is Ok ==> final(self).pos() > old(self).pos(),
            match r {
                Ok(x) => g_compare(old(self).toks(), old(self).pos(), left@) == Read::Got(x@, final(self).pos()),
                Err(e) => g_compare(old(self).toks(), old(self).pos(), left@) matches Read::Wrong(m) && e@ == ErrorView::Parse(m),
            },
        decreases old(self).toks().len() - old(self).pos(), 6int,
    {
        proof {
            broadcast use super::ast::expr_view_unary_op;
        }
        if self.at(Kind::Is) {
            self.advance();
            self.parse_is(left)
        } else if self.at(Kind::Not) {
            self.advance();
            let inner = self.parse_negatable(left)?;
            Ok(Expr::UnaryOp { op: UnaryOp::Not, expr: Box::new(inner) })
        } else if self.at(Kind::In) {
            self.advance();
            self.parse_in(left)
        } else if self.at(Kind::Between) {
            self.advance();
            self.parse_between(left)
        } else {
            match self.comparison_at() {
                Some(op) => {
                    self.advance();
                    self.parse_operand(left, op)
                },
                None => Err(QueryError::Parse(say_stray("Unexpected token in expression: ", self.current()))),
            }
        }
    }

    /// Reads what follows IS.
    pub(super) fn parse_is(&mut self, left: Expr) -> (r: Result<Expr, QueryError>)
        requires
            old(self).wf(),
        ensures
            final(self).wf(),
            final(self).toks() == old(self).toks(),
            final(self).pos() >= old(self).pos(),
            r is Ok ==> final(self).pos() > old(self).pos(),
            match r {
                Ok(x) => g_is(old(self).toks(), old(self).pos(), left@) == Read::Got(x@, final(self).pos()),
                Err(e) => g_is(old(self).toks(), old(self).pos(), left@) matches Read::Wrong(m) && e@ == ErrorView::Parse(m),
            },
    {
        proof {
            broadcast use {super::ast::expr_view_is_not_null, super::ast::expr_view_is_null};
        }
        if self.at(Kind::Not) {
            self.advance();
            self.expect(Kind::NullLit)?;
            Ok(Expr::IsNotNull(Box::new(left)))
        } else {
            self.expect(Kind::NullLit)?;
            Ok(Expr::IsNull(Box::new(left)))
        }
    }

    /// Reads what may follow NOT behind an operand.
    pub(super) fn parse_negatable(&mut self, left: Expr) -> (r: Result<Expr, QueryError>)
        requires
            old(self).wf(),
        ensures
            final(self).wf(),
            final(self).toks() == old(self).toks(),
            final(self).pos() >= old(self).pos(),
            r is Ok ==> final(self).pos() > old(self).pos(),
            match r {
                Ok(x) => g_negatable(old(self).toks(), old(self).pos(), left@) == Read::Got(x@, final(self).pos()),
                Err(e) => g_negatable(old(self).toks(), old(self).pos(), left@) matches Read::Wrong(m) && e@ == ErrorView::Parse(m),
            },
        decreases old(self).toks().len() - old(self).pos(), 10int,
    {
        if self.at(Kind::In) {
            self.advance();
            self.parse_in(left)
        } else if self.at(Kind::Between) {
            self.advance();
            self.parse_between(left)
        } else if self.at(Kind::Like) {
            self.advance();
            self.parse_operand(left, BinOp::Like)
        } else if self.at(Kind::Ilike) {
            self.advance();
            self.parse_operand(left, BinOp::Ilike)
        } else {
            Err(QueryError::Parse("Expected IN, BETWEEN, or LIKE after NOT".to_string()))
        }
    }

    /// Reads the right operand of `left op`.
    pub(super) fn parse_operand(&mut self, left: Expr, op: BinOp) -> (r: Result<Expr, QueryError>)
        requires
            old(self).wf(),
        ensures
            final(self).wf(),
            final(self).toks() == old(self).toks(),
            final(self).pos() >= old(self).pos(),
            r is Ok ==> final(self).pos() > old(self).pos(),
            match r {
                Ok(x) => g_operand(old(self).toks(), old(self).pos(), left@, op) == Read::Got(x@, final(self).pos()),
                Err(e) => g_operand(old(self).toks(), old(self).pos(), left@, op) matches Read::Wrong(m) && e@ == ErrorView::Parse(m),
            },
        decreases old(self).toks().len() - old(self).pos(), 6int,
    {
        proof {
            broadcast use super::ast::expr_view_binary_op;
        }
        let right = self.parse_addition()?;
        Ok(Expr::BinaryOp { left: Box::new(left), op, right: Box::new(right) })
    }

    /// Reads what follows IN.
    pub(super) fn parse_in(&mut self, left: Expr) -> (r: Result<Expr, QueryError>)
        requires
            old(self).wf(),
        ensures
            final(self).wf(),
            final(self).toks() == old(self).toks(),
            final(self).pos() >= old(self).pos(),
            r is Ok ==> final(self).pos() > old(self).pos(),
            match r {
                Ok(x) => g_in(old(self).toks(), old(self).pos(), left@) == Read::Got(x@, final(self).pos()),
                Err(e) => g_in(old(self).toks(), old(self).pos(), left@) matches Read::Wrong(m) && e@ == ErrorView::Parse(m),
            },
        decreases old(self).toks().len() - old(self).pos(), 6int,
    {
        proof {
            broadcast use {super::ast::expr_view_in_list, super::ast::expr_view_in_subquery};
        }
        self.expect(Kind::LParen)?;
        if self.at(Kind::Select) {
            self.advance();
            let subquery = self.parse_select_body()?;
            self.expect(Kind::RParen)?;
            Ok(Expr::InSubquery { expr: Box::new(left), subquery: Box::new(subquery) })
        } else {
            let list = self.parse_expr_list()?;
            self.expect(Kind::RParen)?;
            Ok(Expr::InList { expr: Box::new(left), list })
        }
    }

    /// Reads what follows BETWEEN.
    pub(super) fn parse_between(&mut self, left: Expr) -> (r: Result<Expr, QueryError>)
        requires
            old(self).wf(),
        ensures
            final(self).wf(),
            final(self).toks() == old(self).toks(),
            final(self).pos() >= old(self).pos(),
            r is Ok ==> final(self).pos() > old(self).pos(),
            match r {
                Ok(x) => g_between(old(self).toks(), old(self).pos(), left@) == Read::Got(x@, final(self).pos()),
                Err(e) => g_between(old(self).toks(), old(self).pos(), left@) matches Read::Wrong(m) && e@ == ErrorView::Parse(m),
            },
        decreases old(self).toks().len() - old(self).pos(), 6int,
    {
        proof {
            broadcast use super::ast::expr_view_between;
        }
        let low = self.parse_addition()?;
        self.expect(Kind::And)?;
        let high = self.parse_addition()?;
        Ok(Expr::Between { expr: Box::new(left), low: Box::new(low), high: Box::new(high) })
    }

    pub(super) fn additive_at(&self) -> (r: Option<BinOp>)
        requires
            self.wf(),
        ensures
            r == additive_op(tok(self.toks(), self.pos())),
    {
        match self.current() {
            Token::Kind(Kind::Plus) => Some(BinOp::Plus),
            Token::Kind(Kind::Minus) => Some(BinOp::Minus),
            _ => None,
        }
    }

    pub(super) fn parse_addition(&mut self) -> (r: Result<Expr, QueryError>)
        requires
            old(self).wf(),
        ensures
            final(self).wf(),
            final(self).toks() == old(self).toks(),
            final(self).pos() >= old(self).pos(),
            r is Ok ==> final(self).pos() > old(self).pos(),
            match r {
                Ok(x) => g_addition(old(self).toks(), old(self).pos()) == Read::Got(x@, final(self).pos()),
                Err(e) => g_addition(old(self).toks(), old(self).pos()) matches Read::Wrong(m) && e@ == ErrorView::Parse(m),
            },
        decreases old(self).toks().len() - old(self).pos(), 5int,
    {
        proof {
            broadcast use super::ast::expr_view_binary_op;
        }
        let mut left = self.parse_multiplication()?;
        loop
            invariant
                self.wf(),
                self.toks() == old(self).toks(),
                old(self).pos() < self.pos(),
                g_addition(old(self).toks(), old(self).pos()) == g_addition_rest(self.toks(), self.pos(), left@),
            decreases self.toks().len() - self.pos(),
        {
            proof {
                broadcast use super::ast::expr_view_binary_op;
            }
            match self.additive_at() {
                Some(op) => {
                    self.advance();
                    let right = self.parse_multiplication()?;
                    left = Expr::BinaryOp { left: Box::new(left), op, right: Box::new(right) };
                },
                None => {
                    return Ok(left);
                },
            }
        }
    }

    pub(super) fn multiplicative_at(&self) -> (r: Option<BinOp>)
        requires
            self.wf(),
        ensures
            r == multiplicative_op(tok(self.toks(), self.pos())),
    {
        match self.current() {
            Token::Kind(Kind::Star) => Some(BinOp::Mul),
            Token::Kind(Kind::Slash) => Some(BinOp::Div),
            Token::Kind(Kind::Percent) => Some(BinOp::Mod),
            _ => None,
        }
    }

    pub(super) fn parse_multiplication(&mut self) -> (r: Result<Expr, QueryError>)
        requires
            old(self).wf(),
        ensures
            final(self).wf(),
            final(self).toks() == old(self).toks(),
            final(self).pos() >= old(self).pos(),
            r is Ok ==> final(self).pos() > old(self).pos(),
            match r {
                Ok(x) => g_multiplication(old(self).toks(), old(self).pos()) == Read::Got(x@, final(self).pos()),
                Err(e) => g_multiplication(old(self).toks(), old(self).pos()) matches Read::Wrong(m) && e@ == ErrorView::Parse(m),
            },
        decreases old(self).toks().len() - old(self).pos(), 4int,
    {
        proof {
            broadcast use super::ast::expr_view_binary_op;
        }
        let mut left = self.parse_unary()?;
        loop
            invariant
                self.wf(),
                self.toks() == old(self).toks(),
                old(self).pos() < self.pos(),
                g_multiplication(old(self).toks(), old(self).pos()) == g_multiplication_rest(
                    self.toks(),
                    self.pos(),
                    left@,
                ),
            decreases self.toks().len() - self.pos(),
        {
            proof {
                broadcast use super::ast::expr_view_binary_op;
            }
            match self.multiplicative_at() {
                Some(op) => {
                    self.advance();
                    let right = self.parse_unary()?;
                    left = Expr::BinaryOp { left: Box::new(left), op, right: Box::new(right) };
                },
                None => {
                    return Ok(left);
                },
            }
        }
    }

    pub(super) fn parse_unary(&mut self) -> (r: Result<Expr, QueryError>)
        requires
            old(self).wf(),
        ensures
            final(self).wf(),
            final(self).toks() == old(self).toks(),
            final(self).pos() >= old(self).pos(),
            r is Ok ==> final(self).pos() > old(self).pos(),
            match r {
                Ok(x) => g_unary(old(self).toks(), old(self).pos()) == Read::Got(x@, final(self).pos()),
                Err(e) => g_unary(old(self).toks(), old(self).pos()) matches Read::Wrong(m) && e@ == ErrorView::Parse(m),
            },
        decreases old(self).toks().len() - old(self).pos(), 3int,
    {
        proof {
            broadcast use super::ast::expr_view_unary_op;
        }
        if self.at(Kind::Not) {
            self.advance();
            let expr = self.parse_unary()?;
            Ok(Expr::UnaryOp { op: UnaryOp::Not, expr: Box::new(expr) })
        } else if self.at(Kind::Minus) {
            self.advance();
            let expr = self.parse_unary()?;
            Ok(Self::negate(expr))
        } else {
            self.parse_primary()
        }
    }

    /// Puts a minus sign before an operand.
    pub(super) fn negate(expr: Expr) -> (r: Expr)
        ensures
            r@ == minus(expr@),
    {
        proof {
            broadcast use {super::ast::expr_view_literal, super::ast::expr_view_unary_op};
        }
        proof {
            expr.unfold();
        }
        match expr {
            Expr::Literal(LiteralValue::Integer(n)) => if n == i64::MIN {
                Expr::UnaryOp { op: UnaryOp::Neg, expr: Box::new(Expr::Literal(LiteralValue::Integer(n))) }
            } else {
                Expr::Literal(LiteralValue::Integer(-n))
            },
            Expr::Literal(LiteralValue::Float { negative, digits }) => Expr::Literal(
                LiteralValue::Float { negative: !negative, digits },
            ),
            other => Expr::UnaryOp { op: UnaryOp::Neg, expr: Box::new(other) },
        }
    }

    pub fn parse_primary(&mut self) -> (r: Result<Expr, QueryError>)
        requires
            old(self).wf(),
        ensures
            final(self).wf(),
            final(self).toks() == old(self).toks(),
            final(self).pos() >= old(self).pos(),
            r is Ok ==> final(self).pos() > old(self).pos(),
            match r {
                Ok(x) => g_primary(old(self).toks(), old(self).pos()) == Read::Got(x@, final(self).pos()),
                Err(e) => g_primary(old(self).toks(), old(self).pos()) matches Read::Wrong(m) && e@ == ErrorView::Parse(m),
            },
        decreases old(self).toks().len() - old(self).pos(), 2int,
    {
        proof {
            broadcast use super::ast::expr_view_cast;
        }
        let mut expr = self.parse_atom()?;
        while self.at(Kind::DoubleColon)
            invariant
                self.wf(),
                self.toks() == old(self).toks(),
                old(self).pos() < self.pos(),
                g_primary(old(self).toks(), old(self).pos()) == g_casts(self.toks(), self.pos(), expr@),
            decreases self.toks().len() - self.pos(),
        {
            proof {
                broadcast use super::ast::expr_view_cast;
            }
            self.advance();
            let (data_type, _) = self.parse_data_type()?;
            expr = Expr::Cast { expr: Box::new(expr), data_type };
        }
        Ok(expr)
    }

    pub(super) fn literal_at(&self) -> (r: Option<LiteralValue>)
        requires
            self.wf(),
        ensures
            (match r { Some(l) => Some(l@), None => None }) == literal_of(tok(self.toks(), self.pos())),
    {
        match self.current() {
            Token::IntLit(n) => Some(LiteralValue::Integer(*n)),
            Token::FloatLit(f) => Some(LiteralValue::Float { negative: false, digits: f.clone() }),
            Token::StringLit(s) => Some(LiteralValue::String(s.clone())),
            Token::BoolLit(b) => Some(LiteralValue::Bool(*b)),
            Token::HexBlob(b) => Some(LiteralValue::HexBlob(crate::text::copy_vec(b))),
            Token::Kind(Kind::NullLit) => Some(LiteralValue::Null),
            _ => None,
        }
    }

    /// Reads an operand without the casts that may follow it.
    pub(super) fn parse_atom(&mut self) -> (r: Result<Expr, QueryError>)
        requires
            old(self).wf(),
        ensures
            final(self).wf(),
            final(self).toks() == old(self).toks(),
            final(self).pos() >= old(self).pos(),
            r is Ok ==> final(self).pos() > old(self).pos(),
            match r {
                Ok(x) => g_atom(old(self).toks(), old(self).pos()) == Read::Got(x@, final(self).pos()),
                Err(e) => g_atom(old(self).toks(), old(self).pos()) matches Read::Wrong(m) && e@ == ErrorView::Parse(m),
            },
        decreases old(self).toks().len() - old(self).pos(), 1int,
    {
        proof {
            broadcast use super::ast::expr_view_literal;
        }
        match self.literal_at() {
            Some(l) => {
                self.advance();
                return Ok(Expr::Literal(l));
            },
            None => {},
        }
        match self.ident_at() {
            Some(name) => {
                self.advance();
                return self.parse_named(name);
            },
            None => {},
        }
        match self.kind_at() {
            Some(k) => self.parse_keyword_atom(k),
            None => Err(QueryError::Parse(say_stray("Unexpected token in expression: ", self.current()))),
        }
    }

    /// Reads an operand that starts with the keyword or symbol `k`, which stands next.
    pub(super) fn parse_keyword_atom(&mut self, k: Kind) -> (r: Result<Expr, QueryError>)
        requires
            old(self).wf(),
            at(old(self).toks(), old(self).pos(), k),
        ensures
            final(self).wf(),
            final(self).toks() == old(self).toks(),
            final(self).pos() >= old(self).pos(),
            r is Ok ==> final(self).pos() > old(self).pos(),
            match r {
                Ok(x) => g_keyword_atom(old(self).toks(), old(self).pos(), k) == Read::Got(x@, final(self).pos()),
                Err(e) => g_keyword_atom(old(self).toks(), old(self).pos(), k) matches Read::Wrong(m) && e@ == ErrorView::Parse(m),
            },
        decreases old(self).toks().len() - old(self).pos(), 0int,
    {
        match k {
            Kind::Default => {
                self.advance();
                let e = Expr::Default;
                proof {
                    e.unfold();
                }
                Ok(e)
            },
            Kind::Case | Kind::Cast | Kind::LParen => {
                self.advance();
                self.parse_composed(k)
            },
            Kind::Exists | Kind::Not => {
                self.advance();
                self.parse_prefixed(k)
            },
            Kind::Interval => {
                self.advance();
                self.parse_interval()
            },
            Kind::DollarDot => {
                self.advance();
                self.parse_json_path()
            },
            _ => Err(QueryError::Parse(say_stray("Unexpected token in expression: ", self.current()))),
        }
    }

    pub(super) fn parse_interval(&mut self) -> (r: Result<Expr, QueryError>)
        requires
            old(self).wf(),
        ensures
            final(self).wf(),
            final(self).toks() == old(self).toks(),
            final(self).pos() >= old(self).pos(),
            r is Ok ==> final(self).pos() > old(self).pos(),
            match r {
                Ok(x) => g_interval(old(self).toks(), old(self).pos()) == Read::Got(x@, final(self).pos()),
                Err(e) => g_interval(old(self).toks(), old(self).pos()) matches Read::Wrong(m) && e@ == ErrorView::Parse(m),
            },
    {
        proof {
            broadcast use super::ast::expr_view_interval;
        }
        match self.expect_string() {
            Ok(s) => Ok(Expr::Interval(s)),
            Err(_) => Err(QueryError::Parse("Expected string literal after INTERVAL".to_string())),
        }
    }

    pub(super) fn parse_json_path(&mut self) -> (r: Result<Expr, QueryError>)
        requires
            old(self).wf(),
        ensures
            final(self).wf(),
            final(self).toks() == old(self).toks(),
            final(self).pos() >= old(self).pos(),
            r is Ok ==> final(self).pos() > old(self).pos(),
            match r {
                Ok(x) => g_json_path(old(self).toks(), old(self).pos()) == Read::Got(x@, final(self).pos()),
                Err(e) => g_json_path(old(self).toks(), old(self).pos()) matches Read::Wrong(m) && e@ == ErrorView::Parse(m),
            },
    {
        proof {
            broadcast use super::ast::expr_view_json_path;
        }
        let path = self.expect_ident()?;
        Ok(Expr::JsonPath { path })
    }

    /// Reads what follows CASE, CAST or an opening parenthesis.
    pub(super) fn parse_composed(&mut self, k: Kind) -> (r: Result<Expr, QueryError>)
        requires
            old(self).wf(),
        ensures
            final(self).wf(),
            final(self).toks() == old(self).toks(),
            final(self).pos() >= old(self).pos(),
            r is Ok ==> final(self).pos() > old(self).pos(),
            match r {
                Ok(x) => g_composed(old(self).toks(), old(self).pos(), k) == Read::Got(x@, final(self).pos()),
                Err(e) => g_composed(old(self).toks(), old(self).pos(), k) matches Read::Wrong(m) && e@ == ErrorView::Parse(m),
            },
        decreases old(self).toks().len() - old(self).pos(), 21int,
    {
        match k {
            Kind::Case => self.parse_case(),
            Kind::Cast => self.parse_cast(),
            _ => self.parse_paren(),
        }
    }

    /// Reads what follows EXISTS or NOT.
    pub(super) fn parse_prefixed(&mut self, k: Kind) -> (r: Result<Expr, QueryError>)
        requires
            old(self).wf(),
        ensures
            final(self).wf(),
            final(self).toks() == old(self).toks(),
            final(self).pos() >= old(self).pos(),
            r is Ok ==> final(self).pos() > old(self).pos(),
            match r {
                Ok(x) => g_prefixed(old(self).toks(), old(self).pos(), k) == Read::Got(x@, final(self).pos()),
                Err(e) => g_prefixed(old(self).toks(), old(self).pos(), k) matches Read::Wrong(m) && e@ == ErrorView::Parse(m),
            },
        decreases old(self).toks().len() - old(self).pos(), 21int,
    {
        match k {
            Kind::Exists => self.parse_exists(),
            _ => self.parse_not_atom(),
        }
    }

    /// Reads an operand that starts with `name`, from behind the name on.
    pub(super) fn parse_named(&mut self, name: String) -> (r: Result<Expr, QueryError>)
        requires
            old(self).wf(),
        ensures
            final(self).wf(),
            final(self).toks() == old(self).toks(),
            final(self).pos() >= old(self).pos(),
            match r {
                Ok(x) => g_named(old(self).toks(), old(self).pos(), name@) == Read::Got(x@, final(self).pos()),
                Err(e) => g_named(old(self).toks(), old(self).pos(), name@) matches Read::Wrong(m) && e@ == ErrorView::Parse(m),
            },
        decreases old(self).toks().len() - old(self).pos(), 16int,
    {
        proof {
            broadcast use {super::ast::expr_view_column, super::ast::expr_view_qualified_column};
        }
        if self.at(Kind::LParen) {
            self.advance();
            self.parse_call(name)
        } else if self.at(Kind::Dot) {
            self.advance();
            let col = self.expect_ident()?;
            Ok(Expr::QualifiedColumn(name, col))
        } else {
            Ok(Expr::Column(name))
        }
    }

    /// Reads EXISTS from behind the keyword on.
    pub(super) fn parse_exists(&mut self) -> (r: Result<Expr, QueryError>)
        requires
            old(self).wf(),
        ensures
            final(self).wf(),
            final(self).toks() == old(self).toks(),
            final(self).pos() >= old(self).pos(),
            r is Ok ==> final(self).pos() > old(self).pos(),
            match r {
                Ok(x) => g_exists(old(self).toks(), old(self).pos()) == Read::Got(x@, final(self).pos()),
                Err(e) => g_exists(old(self).toks(), old(self).pos()) matches Read::Wrong(m) && e@ == ErrorView::Parse(m),
            },
        decreases old(self).toks().len() - old(self).pos(), 1int,
    {
        proof {
            broadcast use super::ast::expr_view_exists;
        }
        let select = self.parse_query_group()?;
        Ok(Expr::Exists(Box::new(select)))
    }

    /// Reads NOT at the start of an operand, from behind the keyword on.
    pub(super) fn parse_not_atom(&mut self) -> (r: Result<Expr, QueryError>)
        requires
            old(self).wf(),
        ensures
            final(self).wf(),
            final(self).toks() == old(self).toks(),
            final(self).pos() >= old(self).pos(),
            r is Ok ==> final(self).pos() > old(self).pos(),
            match r {
                Ok(x) => g_not_atom(old(self).toks(), old(self).pos()) == Read::Got(x@, final(self).pos()),
                Err(e) => g_not_atom(old(self).toks(), old(self).pos()) matches Read::Wrong(m) && e@ == ErrorView::Parse(m),
            },
        decreases old(self).toks().len() - old(self).pos(), 4int,
    {
        proof {
            broadcast use super::ast::expr_view_unary_op;
        }
        if self.at(Kind::Exists) {
            self.advance();
            let e = self.parse_exists()?;
            Ok(Expr::UnaryOp { op: UnaryOp::Not, expr: Box::new(e) })
        } else {
            let e = self.parse_unary()?;
            Ok(Expr::UnaryOp { op: UnaryOp::Not, expr: Box::new(e) })
        }
    }

    /// Reads a query or an expression in parentheses, from behind the opening one on.
    pub(super) fn parse_paren(&mut self) -> (r: Result<Expr, QueryError>)
        requires
            old(self).wf(),
        ensures
            final(self).wf(),
            final(self).toks() == old(self).toks(),
            final(self).pos() >= old(self).pos(),
            r is Ok ==> final(self).pos() > old(self).pos(),
            match r {
                Ok(x) => g_paren(old(self).toks(), old(self).pos()) == Read::Got(x@, final(self).pos()),
                Err(e) => g_paren(old(self).toks(), old(self).pos()) matches Read::Wrong(m) && e@ == ErrorView::Parse(m),
            },
        decreases old(self).toks().len() - old(self).pos(), 20int,
    {
        proof {
            broadcast use super::ast::expr_view_subquery;
        }
        if self.at(Kind::Select) {
            self.advance();
            let select = self.parse_select_body()?;
            self.expect(Kind::RParen)?;
            Ok(Expr::Subquery(Box::new(select)))
        } else {
            let e = self.parse_expr()?;
            self.expect(Kind::RParen)?;
            Ok(e)
        }
    }

    /// Reads a query in parentheses.
    pub(super) fn parse_query_group(&mut self) -> (r: Result<SelectStmt, QueryError>)
        requires
            old(self).wf(),
        ensures
            final(self).wf(),
            final(self).toks() == old(self).toks(),
            final(self).pos() >= old(self).pos(),
            r is Ok ==> final(self).pos() > old(self).pos(),
            match r {
                Ok(x) => g_query_group(old(self).toks(), old(self).pos()) == Read::Got(x@, final(self).pos()),
                Err(e) => g_query_group(old(self).toks(), old(self).pos()) matches Read::Wrong(m) && e@ == ErrorView::Parse(m),
            },
        decreases old(self).toks().len() - old(self).pos(), 0int,
    {
        self.expect(Kind::LParen)?;
        self.expect(Kind::Select)?;
        let select = self.parse_select_body()?;
        self.expect(Kind::RParen)?;
        Ok(select)
    }

    /// Reads the arguments of a call up to the closing parenthesis.
    pub(super) fn parse_call_args(&mut self, name: String) -> (r: Result<(String, Vec<Expr>), QueryError>)
        requires
            old(self).wf(),
        ensures
            final(self).wf(),
            final(self).toks() == old(self).toks(),
            final(self).pos() >= old(self).pos(),
            match r {
                Ok(x) => g_call_args(old(self).toks(), old(self).pos(), name@) == Read::Got((x.0@, exprs_view(x.1@)), final(self).pos()),
                Err(e) => g_call_args(old(self).toks(), old(self).pos(), name@) matches Read::Wrong(m) && e@ == ErrorView::Parse(m),
            },
        decreases old(self).toks().len() - old(self).pos(), 14int,
    {
        if self.at(Kind::Distinct) {
            self.advance();
            let args = self.parse_expr_list()?;
            let upper = name.as_str().to_uppercase();
            Ok((join2(upper.as_str(), "_DISTINCT"), args))
        } else {
            let args = self.parse_args()?;
            Ok((name, args))
        }
    }

    pub(super) fn parse_args(&mut self) -> (r: Result<Vec<Expr>, QueryError>)
        requires
            old(self).wf(),
        ensures
            final(self).wf(),
            final(self).toks() == old(self).toks(),
            final(self).pos() >= old(self).pos(),
            match r {
                Ok(x) => g_args(old(self).toks(), old(self).pos()) == Read::Got(exprs_view(x@), final(self).pos()),
                Err(e) => g_args(old(self).toks(), old(self).pos()) matches Read::Wrong(m) && e@ == ErrorView::Parse(m),
            },
        decreases old(self).toks().len() - old(self).pos(), 13int,
    {
        proof {
            broadcast use super::ast::exprs_empty;
        }
        if self.at(Kind::RParen) {
            Ok(Vec::new())
        } else if self.at(Kind::Star) {
            self.advance();
            Ok(Self::star_args())
        } else {
            self.parse_expr_list()
        }
    }

    pub(super) fn star_args() -> (r: Vec<Expr>)
        ensures
            exprs_view(r@) == seq![ExprView::Column("*"@)],
    {
        proof {
            broadcast use {super::ast::expr_view_column, super::ast::exprs_empty, super::ast::exprs_push};
        }
        let mut args: Vec<Expr> = Vec::new();
        let star = Expr::Column("*".to_string());
        proof {
            exprs_push(args@, star);
            assert(Seq::<ExprView>::empty().push(star@) =~= seq![star@]);
        }
        args.push(star);
        args
    }

    /// Reads a call from behind its opening parenthesis on.
    #[verifier::rlimit(60)]
    #[verifier::spinoff_prover]
    pub(super) fn parse_call(&mut self, name: String) -> (r: Result<Expr, QueryError>)
        requires
            old(self).wf(),
        ensures
            final(self).wf(),
            final(self).toks() == old(self).toks(),
            final(self).pos() >= old(self).pos(),
            r is Ok ==> final(self).pos() > old(self).pos(),
            match r {
                Ok(x) => g_call(old(self).toks(), old(self).pos(), name@) == Read::Got(x@, final(self).pos()),
                Err(e) => g_call(old(self).toks(), old(self).pos(), name@) matches Read::Wrong(m) && e@ == ErrorView::Parse(m),
            },
        decreases old(self).toks().len() - old(self).pos(), 15int,
    {
        proof {
            broadcast use {super::ast::expr_view_function, super::ast::expr_view_window_function};
        }
        let (name, args) = self.parse_call_args(name)?;
        self.expect(Kind::RParen)?;
        if self.at(Kind::Over) {
            self.advance();
            let (partition_by, order_by) = self.parse_window()?;
            Ok(Expr::WindowFunction { name, args, partition_by, order_by })
        } else {
            Ok(Expr::Function { name, args })
        }
    }

    /// Reads a window in parentheses.
    pub(super) fn parse_window(&mut self) -> (r: Result<(Vec<Expr>, Vec<OrderByExpr>), QueryError>)
        requires
            old(self).wf(),
        ensures
            final(self).wf(),
            final(self).toks() == old(self).toks(),
            final(self).pos() >= old(self).pos(),
            r is Ok ==> final(self).pos() > old(self).pos(),
            match r {
                Ok(x) => g_window(old(self).toks(), old(self).pos()) == Read::Got((exprs_view(x.0@), order_by_exprs_view(x.1@)), final(self).pos()),
                Err(e) => g_window(old(self).toks(), old(self).pos()) matches Read::Wrong(m) && e@ == ErrorView::Parse(m),
            },
        decreases old(self).toks().len() - old(self).pos(), 13int,
    {
        self.expect(Kind::LParen)?;
        let partition_by = self.parse_partition()?;
        let order_by = self.parse_opt_order()?;
        self.expect(Kind::RParen)?;
        Ok((partition_by, order_by))
    }

    pub(super) fn parse_partition(&mut self) -> (r: Result<Vec<Expr>, QueryError>)
        requires
            old(self).wf(),
        ensures
            final(self).wf(),
            final(self).toks() == old(self).toks(),
            final(self).pos() >= old(self).pos(),
            match r {
                Ok(x) => g_partition(old(self).toks(), old(self).pos()) == Read::Got(exprs_view(x@), final(self).pos()),
                Err(e) => g_partition(old(self).toks(), old(self).pos()) matches Read::Wrong(m) && e@ == ErrorView::Parse(m),
            },
        decreases old(self).toks().len() - old(self).pos(), 12int,
    {
        proof {
            broadcast use super::ast::exprs_empty;
        }
        if self.at(Kind::Partition) {
            self.advance();
            self.expect(Kind::By)?;
            self.parse_expr_list()
        } else {
            Ok(Vec::new())
        }
    }

    /// Reads a CASE from behind the keyword on.
    pub(super) fn parse_case(&mut self) -> (r: Result<Expr, QueryError>)
        requires
            old(self).wf(),
        ensures
            final(self).wf(),
            final(self).toks() == old(self).toks(),
            final(self).pos() >= old(self).pos(),
            r is Ok ==> final(self).pos() > old(self).pos(),
            match r {
                Ok(x) => g_case(old(self).toks(), old(self).pos()) == Read::Got(x@, final(self).pos()),
                Err(e) => g_case(old(self).toks(), old(self).pos()) matches Read::Wrong(m) && e@ == ErrorView::Parse(m),
            },
        decreases old(self).toks().len() - old(self).pos(), 13int,
    {
        if self.at(Kind::When) {
            self.parse_case_rest(None)
        } else {
            let operand = self.parse_expr()?;
            self.parse_case_rest(Some(Box::new(operand)))
        }
    }

    pub(super) fn parse_case_rest(&mut self, operand: Option<Box<Expr>>) -> (r: Result<Expr, QueryError>)
        requires
            old(self).wf(),
        ensures
            final(self).wf(),
            final(self).toks() == old(self).toks(),
            final(self).pos() >= old(self).pos(),
            r is Ok ==> final(self).pos() > old(self).pos(),
            match r {
                Ok(x) => g_case_rest(old(self).toks(), old(self).pos(), (match operand { Some(o) => Some(Box::new(o@)), None => None })) == Read::Got(x@, final(self).pos()),
                Err(e) => g_case_rest(old(self).toks(), old(self).pos(), (match operand { Some(o) => Some(Box::new(o@)), None => None })) matches Read::Wrong(m) && e@ == ErrorView::Parse(m),
            },
        decreases old(self).toks().len() - old(self).pos(), 12int,
    {
        let when_clauses = self.parse_whens()?;
        self.parse_case_end(operand, when_clauses)
    }

    /// Reads the rest of a CASE behind its WHEN clauses.
    pub(super) fn parse_case_end(&mut self, operand: Option<Box<Expr>>, when_clauses: Vec<(Expr, Expr)>) -> (r: Result<Expr, QueryError>)
        requires
            old(self).wf(),
        ensures
            final(self).wf(),
            final(self).toks() == old(self).toks(),
            final(self).pos() >= old(self).pos(),
            r is Ok ==> final(self).pos() > old(self).pos(),
            match r {
                Ok(x) => g_case_end(old(self).toks(), old(self).pos(), (match operand { Some(o) => Some(Box::new(o@)), None => None }), when_clauses_view(when_clauses@)) == Read::Got(x@, final(self).pos()),
                Err(e) => g_case_end(old(self).toks(), old(self).pos(), (match operand { Some(o) => Some(Box::new(o@)), None => None }), when_clauses_view(when_clauses@)) matches Read::Wrong(m) && e@ == ErrorView::Parse(m),
            },
        decreases old(self).toks().len() - old(self).pos(), 11int,
    {
        let else_result = self.parse_else()?;
        self.expect(Kind::End)?;
        Ok(Self::case_of(operand, when_clauses, else_result))
    }

    pub(super) fn case_of(operand: Option<Box<Expr>>, when_clauses: Vec<(Expr, Expr)>, else_result: Option<Box<Expr>>) -> (r: Expr)
        ensures
            r@ == (ExprView::Case {
                operand: match operand { Some(o) => Some(Box::new(o@)), None => None },
                when_clauses: when_clauses_view(when_clauses@),
                else_result: match else_result { Some(o) => Some(Box::new(o@)), None => None },
            }),
    {
        proof {
            broadcast use super::ast::expr_view_case;
        }
        Expr::Case { operand, when_clauses, else_result }
    }

    pub(super) fn parse_else(&mut self) -> (r: Result<Option<Box<Expr>>, QueryError>)
        requires
            old(self).wf(),
        ensures
            final(self).wf(),
            final(self).toks() == old(self).toks(),
            final(self).pos() >= old(self).pos(),
            match r {
                Ok(x) => g_else(old(self).toks(), old(self).pos()) == Read::Got((match x { Some(o) => Some(Box::new(o@)), None => None }), final(self).pos()),
                Err(e) => g_else(old(self).toks(), old(self).pos()) matches Read::Wrong(m) && e@ == ErrorView::Parse(m),
            },
        decreases old(self).toks().len() - old(self).pos(), 10int,
    {
        if self.at(Kind::Else) {
            self.advance();
            let e = self.parse_expr()?;
            Ok(Some(Box::new(e)))
        } else {
            Ok(None)
        }
    }

    pub(super) fn parse_whens(&mut self) -> (r: Result<Vec<(Expr, Expr)>, QueryError>)
        requires
            old(self).wf(),
        ensures
            final(self).wf(),
            final(self).toks() == old(self).toks(),
            final(self).pos() >= old(self).pos(),
            match r {
                Ok(x) => g_whens(old(self).toks(), old(self).pos(), Seq::empty()) == Read::Got(when_clauses_view(x@), final(self).pos()),
                Err(e) => g_whens(old(self).toks(), old(self).pos(), Seq::empty()) matches Read::Wrong(m) && e@ == ErrorView::Parse(m),
            },
        decreases old(self).toks().len() - old(self).pos(), 10int,
    {
        proof {
            broadcast use {super::ast::when_clauses_empty, super::ast::when_clauses_push};
        }
        let mut whens: Vec<(Expr, Expr)> = Vec::new();
        while self.at(Kind::When)
            invariant
                self.wf(),
                self.toks() == old(self).toks(),
                old(self).pos() <= self.pos(),
                g_whens(old(self).toks(), old(self).pos(), Seq::empty()) == g_whens(
                    self.toks(),
                    self.pos(),
                    when_clauses_view(whens@),
                ),
            decreases self.toks().len() - self.pos(),
        {
            proof {
                broadcast use {super::ast::when_clauses_empty, super::ast::when_clauses_push};
            }
            self.advance();
            let condition = self.parse_expr()?;
            self.expect(Kind::Then)?;
            let result = self.parse_expr()?;
            proof {
                when_clauses_push(whens@, (condition, result));
            }
            whens.push((condition, result));
        }
        Ok(whens)
    }

    /// Reads a CAST from behind the keyword on.
    pub(super) fn parse_cast(&mut self) -> (r: Result<Expr, QueryError>)
        requires
            old(self).wf(),
        ensures
            final(self).wf(),
            final(self).toks() == old(self).toks(),
            final(self).pos() >= old(self).pos(),
            r is Ok ==> final(self).pos() > old(self).pos(),
            match r {
                Ok(x) => g_cast(old(self).toks(), old(self).pos()) == Read::Got(x@, final(self).pos()),
                Err(e) => g_cast(old(self).toks(), old(self).pos()) matches Read::Wrong(m) && e@ == ErrorView::Parse(m),
            },
        decreases old(self).toks().len() - old(self).pos(), 12int,
    {
        proof {
            broadcast use super::ast::expr_view_cast;
        }
        self.expect(Kind::LParen)?;
        let expr = self.parse_expr()?;
        self.expect(Kind::As)?;
        let (data_type, _) = self.parse_data_type()?;
        self.expect(Kind::RParen)?;
        Ok(Expr::Cast { expr: Box::new(expr), data_type })
    }

    pub fn parse_expr_list(&mut self) -> (r: Result<Vec<Expr>, QueryError>)
        requires
            old(self).wf(),
        ensures
            final(self).wf(),
            final(self).toks() == old(self).toks(),
            final(self).pos() >= old(self).pos(),
            r is Ok ==> final(self).pos() > old(self).pos(),
            match r {
                Ok(x) => g_exprs(old(self).toks(), old(self).pos(), Seq::empty()) == Read::Got(exprs_view(x@), final(self).pos()),
                Err(e) => g_exprs(old(self).toks(), old(self).pos(), Seq::empty()) matches Read::Wrong(m) && e@ == ErrorView::Parse(m),
            },
        decreases old(self).toks().len() - old(self).pos(), 12int,
    {
        proof {
            broadcast use {super::ast::exprs_empty, super::ast::exprs_push};
        }
        let mut exprs: Vec<Expr> = Vec::new();
        loop
            invariant
                self.wf(),
                self.toks() == old(self).toks(),
                old(self).pos() <= self.pos(),
                g_exprs(old(self).toks(), old(self).pos(), Seq::empty()) == g_exprs(
                    self.toks(),
                    self.pos(),
                    exprs_view(exprs@),
                ),
            decreases self.toks().len() - self.pos(),
        {
            proof {
                broadcast use {super::ast::exprs_empty, super::ast::exprs_push};
            }
            let e = self.parse_expr()?;
            proof {
                exprs_push(exprs@, e);
            }
            exprs.push(e);
            if !self.at(Kind::Comma) {
                return Ok(exprs);
            }
            self.advance();
        }
    }
}

} // verus!
