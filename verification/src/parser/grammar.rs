//! The grammar of statements, as functions from a token sequence and a position to what stands
//! there and the position behind it, or to what is wrong there. Nothing is said where a function only
//! makes sure that a read went forward: it always does.
use vstd::prelude::*;
use super::ast::{BinOp, ColumnDefView, ConflictActionView, CteView, ExprView, FkAction, ForeignKeyDefView, FromClauseView, InsertSourceView, IsolationLevel, JoinClauseView, JoinType, LiteralValueView, OnConflictView, OrderByExprView, SelectColumnView, SelectStmtView, StatementView, UnaryOp};
use super::ast::{AlterTableActionView, AlterTableStmtView, CreateIndexStmtView, CreateTableStmtView, DeleteStmtView, DocDeleteStmtView, DocFindStmtView, DocInsertStmtView, DocUpdateStmtView, DropTableStmtView, InsertStmtView, UpdateStmtView};
use super::floats::plain_float;
use super::messages::{stray_text, wanted, wanted_text};
use super::token::{Kind, TokenView, ascii_upper};
use crate::executor::strings::text_upper;
use crate::text::int_text;
use crate::value::DataType;

verus! {

/// What stands at a position of a token sequence, and the position behind it; or what is wrong there.
pub enum Read<T> {
    Got(T, int),
    Wrong(Seq<char>),
}

/// That one of two tokens in a row was expected where another stands.
pub open spec fn wanted_pair(t: Seq<TokenView>, p: int, a: Kind, b: Kind) -> Seq<char> {
    if at(t, p, a) {
        wanted(b, tok(t, p + 1))
    } else {
        wanted(a, tok(t, p))
    }
}

/// The token at a position; behind the last one, the end token.
pub open spec fn tok(t: Seq<TokenView>, p: int) -> TokenView {
    if 0 <= p < t.len() {
        t[p]
    } else {
        TokenView::Kind(Kind::Eof)
    }
}

/// Whether the token at a position is of the kind `k`.
pub open spec fn at(t: Seq<TokenView>, p: int, k: Kind) -> bool {
    tok(t, p) == TokenView::Kind(k)
}

/// Whether a parse went forward from `p` and stayed inside the text.
pub open spec fn ahead(t: Seq<TokenView>, p: int, q: int) -> bool {
    p < q <= t.len()
}

/// Whether the token is the word `w`, whatever its case.
pub open spec fn is_word(k: TokenView, w: Seq<char>) -> bool {
    k matches TokenView::Ident(s) && ascii_upper(s) == w
}

/// Whether the token is a word that is `w` in upper case, letters beyond ASCII taken in.
pub open spec fn is_upper_word(k: TokenView, w: Seq<char>) -> bool {
    k matches TokenView::Ident(s) && text_upper(s) == w
}

/// The name that a token can be read as: an identifier, or a keyword that is also a name.
pub open spec fn name_of(k: TokenView) -> Option<Seq<char>> {
    match k {
        TokenView::Ident(s) => Some(s),
        TokenView::Kind(Kind::Tables) => Some("tables"@),
        TokenView::Kind(Kind::Columns) => Some("columns"@),
        TokenView::Kind(Kind::Show) => Some("show"@),
        TokenView::Kind(Kind::Index) => Some("index"@),
        TokenView::Kind(Kind::Key) => Some("key"@),
        TokenView::Kind(Kind::Column) => Some("column"@),
        TokenView::Kind(Kind::Rows) => Some("rows"@),
        TokenView::Kind(Kind::Row) => Some("row"@),
        TokenView::Kind(Kind::Date) => Some("date"@),
        TokenView::Kind(Kind::Timestamp) => Some("timestamp"@),
        TokenView::Kind(Kind::Text) => Some("text"@),
        TokenView::Kind(Kind::Int) => Some("int"@),
        TokenView::Kind(Kind::Float) => Some("float"@),
        TokenView::Kind(Kind::Bool) => Some("bool"@),
        TokenView::Kind(Kind::Uuid) => Some("uuid"@),
        TokenView::Kind(Kind::Json) => Some("json"@),
        TokenView::Kind(Kind::First) => Some("first"@),
        TokenView::Kind(Kind::Last) => Some("last"@),
        TokenView::Kind(Kind::Partition) => Some("partition"@),
        TokenView::Kind(Kind::Over) => Some("over"@),
        _ => None,
    }
}

pub open spec fn g_name(t: Seq<TokenView>, p: int) -> Read<Seq<char>> {
    match name_of(tok(t, p)) {
        Some(n) => Read::Got(n, p + 1),
        None => Read::Wrong(wanted_text("identifier"@, tok(t, p))),
    }
}

pub open spec fn g_string(t: Seq<TokenView>, p: int) -> Read<Seq<char>> {
    match tok(t, p) {
        TokenView::StringLit(s) => Read::Got(s, p + 1),
        _ => Read::Wrong(wanted_text("string"@, tok(t, p))),
    }
}

pub open spec fn g_integer(t: Seq<TokenView>, p: int) -> Read<i64> {
    match tok(t, p) {
        TokenView::IntLit(n) => Read::Got(n, p + 1),
        _ => Read::Wrong(wanted_text("integer"@, tok(t, p))),
    }
}

/// One or more names with commas between them, after those in `acc`.
pub open spec fn g_names(t: Seq<TokenView>, p: int, acc: Seq<Seq<char>>) -> Read<Seq<Seq<char>>>
    decreases t.len() - p,
{
    match g_name(t, p) {
        Read::Wrong(m) => Read::Wrong(m),
        Read::Got(n, q) => if at(t, q, Kind::Comma) && p < t.len() {
            g_names(t, q + 1, acc.push(n))
        } else {
            Read::Got(acc.push(n), q)
        },
    }
}

/// A list of names in parentheses.
pub open spec fn g_name_group(t: Seq<TokenView>, p: int) -> Read<Seq<Seq<char>>> {
    if at(t, p, Kind::LParen) {
        match g_names(t, p + 1, Seq::empty()) {
            Read::Got(ns, q) => if at(t, q, Kind::RParen) {
                Read::Got(ns, q + 1)
            } else {
                Read::Wrong(wanted(Kind::RParen, tok(t, q)))
            },
            Read::Wrong(m) => Read::Wrong(m),
        }
    } else {
        Read::Wrong(wanted(Kind::LParen, tok(t, p)))
    }
}

/// The alias that may stand at `p`. AS without a name behind it is passed over.
pub open spec fn g_alias(t: Seq<TokenView>, p: int) -> (Option<Seq<char>>, int) {
    if at(t, p, Kind::As) {
        match g_name(t, p + 1) {
            Read::Got(n, q) => (Some(n), q),
            Read::Wrong(_) => (None, p + 1),
        }
    } else {
        match tok(t, p) {
            TokenView::Ident(s) => (Some(s), p + 1),
            _ => (None, p),
        }
    }
}

pub open spec fn type_of(k: TokenView) -> Option<DataType> {
    match k {
        TokenView::Kind(Kind::Int) => Some(DataType::Int64),
        TokenView::Kind(Kind::Integer) => Some(DataType::Int64),
        TokenView::Kind(Kind::Bigint) => Some(DataType::Int64),
        TokenView::Kind(Kind::Smallint) => Some(DataType::Int64),
        TokenView::Kind(Kind::Serial) => Some(DataType::Int64),
        TokenView::Kind(Kind::Float) => Some(DataType::Float64),
        TokenView::Kind(Kind::Real) => Some(DataType::Float64),
        TokenView::Kind(Kind::DoublePrecision) => Some(DataType::Float64),
        TokenView::Kind(Kind::Numeric) => Some(DataType::Decimal),
        TokenView::Kind(Kind::Text) => Some(DataType::Text),
        TokenView::Kind(Kind::Varchar) => Some(DataType::Text),
        TokenView::Kind(Kind::Bool) => Some(DataType::Bool),
        TokenView::Kind(Kind::Bytes) => Some(DataType::Bytes),
        TokenView::Kind(Kind::Blob) => Some(DataType::Bytes),
        TokenView::Kind(Kind::Json) => Some(DataType::Json),
        TokenView::Kind(Kind::Timestamp) => Some(DataType::Timestamp),
        TokenView::Kind(Kind::Date) => Some(DataType::Date),
        TokenView::Kind(Kind::Uuid) => Some(DataType::Uuid),
        TokenView::Kind(Kind::Interval) => Some(DataType::Interval),
        _ => None,
    }
}

/// The size in parentheses that may follow a type name: one number, or two with a comma.
pub open spec fn g_type_size(t: Seq<TokenView>, p: int) -> Read<Option<usize>> {
    if at(t, p, Kind::LParen) {
        match g_integer(t, p + 1) {
            Read::Wrong(m) => Read::Wrong(m),
            Read::Got(n, q) => if at(t, q, Kind::Comma) {
                match g_integer(t, q + 1) {
                    Read::Wrong(m) => Read::Wrong(m),
                    Read::Got(_, q2) => if at(t, q2, Kind::RParen) {
                        Read::Got(Some(n as usize), q2 + 1)
                    } else {
                        Read::Wrong(wanted(Kind::RParen, tok(t, q2)))
                    },
                }
            } else if at(t, q, Kind::RParen) {
                Read::Got(Some(n as usize), q + 1)
            } else {
                Read::Wrong(wanted(Kind::RParen, tok(t, q)))
            },
        }
    } else {
        Read::Got(None, p)
    }
}

/// A type, and for a text or byte type its greatest length.
pub open spec fn g_type(t: Seq<TokenView>, p: int) -> Read<(DataType, Option<usize>)> {
    match type_of(tok(t, p)) {
        None => Read::Wrong(wanted_text("data type"@, tok(t, p))),
        Some(dt) => {
            let q = if (dt == DataType::Float64 || dt == DataType::Decimal) && is_upper_word(tok(t, p + 1), "PRECISION"@) {
                p + 2
            } else {
                p + 1
            };
            match g_type_size(t, q) {
                Read::Wrong(m) => Read::Wrong(m),
                Read::Got(size, e) => Read::Got((dt, if dt == DataType::Text || dt == DataType::Bytes { size } else { None }), e),
            }
        },
    }
}

/// The comparison that a token stands for, where two operands and nothing else take part in it.
pub open spec fn comparison_op(k: TokenView) -> Option<BinOp> {
    match k {
        TokenView::Kind(Kind::Eq) => Some(BinOp::Eq),
        TokenView::Kind(Kind::Neq) => Some(BinOp::Neq),
        TokenView::Kind(Kind::Lt) => Some(BinOp::Lt),
        TokenView::Kind(Kind::Gt) => Some(BinOp::Gt),
        TokenView::Kind(Kind::Lte) => Some(BinOp::Lte),
        TokenView::Kind(Kind::Gte) => Some(BinOp::Gte),
        TokenView::Kind(Kind::Like) => Some(BinOp::Like),
        TokenView::Kind(Kind::Ilike) => Some(BinOp::Ilike),
        _ => None,
    }
}

pub open spec fn additive_op(k: TokenView) -> Option<BinOp> {
    match k {
        TokenView::Kind(Kind::Plus) => Some(BinOp::Plus),
        TokenView::Kind(Kind::Minus) => Some(BinOp::Minus),
        _ => None,
    }
}

pub open spec fn multiplicative_op(k: TokenView) -> Option<BinOp> {
    match k {
        TokenView::Kind(Kind::Star) => Some(BinOp::Mul),
        TokenView::Kind(Kind::Slash) => Some(BinOp::Div),
        TokenView::Kind(Kind::Percent) => Some(BinOp::Mod),
        _ => None,
    }
}

pub open spec fn binary(l: ExprView, op: BinOp, r: ExprView) -> ExprView {
    ExprView::BinaryOp { left: Box::new(l), op, right: Box::new(r) }
}

pub open spec fn negated(e: ExprView) -> ExprView {
    ExprView::UnaryOp { op: UnaryOp::Not, expr: Box::new(e) }
}

/// An expression: operands joined by OR, from left to right.
pub open spec fn g_expr(t: Seq<TokenView>, p: int) -> Read<ExprView>
    decreases t.len() - p, 9int,
{
    match g_and(t, p) {
        Read::Got(l, q) => if ahead(t, p, q) { g_or_rest(t, q, l) } else { Read::Wrong(Seq::empty()) },
        Read::Wrong(m) => Read::Wrong(m),
    }
}

pub open spec fn g_or_rest(t: Seq<TokenView>, p: int, l: ExprView) -> Read<ExprView>
    decreases t.len() - p, 9int,
{
    if at(t, p, Kind::Or) && 0 <= p < t.len() {
        match g_and(t, p + 1) {
            Read::Got(r, q) => if ahead(t, p + 1, q) { g_or_rest(t, q, binary(l, BinOp::Or, r)) } else { Read::Wrong(Seq::empty()) },
            Read::Wrong(m) => Read::Wrong(m),
        }
    } else {
        Read::Got(l, p)
    }
}

/// Operands joined by AND, from left to right.
pub open spec fn g_and(t: Seq<TokenView>, p: int) -> Read<ExprView>
    decreases t.len() - p, 8int,
{
    match g_comparison(t, p) {
        Read::Got(l, q) => if ahead(t, p, q) { g_and_rest(t, q, l) } else { Read::Wrong(Seq::empty()) },
        Read::Wrong(m) => Read::Wrong(m),
    }
}

pub open spec fn g_and_rest(t: Seq<TokenView>, p: int, l: ExprView) -> Read<ExprView>
    decreases t.len() - p, 7int,
{
    if at(t, p, Kind::And) && 0 <= p < t.len() {
        match g_comparison(t, p + 1) {
            Read::Got(r, q) => if ahead(t, p + 1, q) { g_and_rest(t, q, binary(l, BinOp::And, r)) } else { Read::Wrong(Seq::empty()) },
            Read::Wrong(m) => Read::Wrong(m),
        }
    } else {
        Read::Got(l, p)
    }
}

/// Operands with comparisons behind them, from left to right.
pub open spec fn g_comparison(t: Seq<TokenView>, p: int) -> Read<ExprView>
    decreases t.len() - p, 7int,
{
    match g_addition(t, p) {
        Read::Got(l, q) => if ahead(t, p, q) { g_comparison_rest(t, q, l) } else { Read::Wrong(Seq::empty()) },
        Read::Wrong(m) => Read::Wrong(m),
    }
}

/// Whether a token goes on with a comparison.
pub open spec fn compares(k: TokenView) -> bool {
    ||| k == TokenView::Kind(Kind::Is)
    ||| k == TokenView::Kind(Kind::Not)
    ||| k == TokenView::Kind(Kind::In)
    ||| k == TokenView::Kind(Kind::Between)
    ||| comparison_op(k) is Some
}

pub open spec fn g_comparison_rest(t: Seq<TokenView>, p: int, l: ExprView) -> Read<ExprView>
    decreases t.len() - p, 6int,
{
    if 0 <= p < t.len() && compares(tok(t, p)) {
        match g_compare(t, p, l) {
            Read::Got(e, q) => if ahead(t, p, q) { g_comparison_rest(t, q, e) } else { Read::Wrong(Seq::empty()) },
            Read::Wrong(m) => Read::Wrong(m),
        }
    } else {
        Read::Got(l, p)
    }
}

/// One comparison behind the operand `l`.
pub open spec fn g_compare(t: Seq<TokenView>, p: int, l: ExprView) -> Read<ExprView>
    decreases t.len() - p, 5int,
{
    if p < 0 || p >= t.len() {
        Read::Wrong(stray_text("Unexpected token in expression: "@, tok(t, p)))
    } else if at(t, p, Kind::Is) {
        g_is(t, p + 1, l)
    } else if at(t, p, Kind::Not) {
        match g_negatable(t, p + 1, l) {
            Read::Got(e, q) => Read::Got(negated(e), q),
            Read::Wrong(m) => Read::Wrong(m),
        }
    } else if at(t, p, Kind::In) {
        g_in(t, p + 1, l)
    } else if at(t, p, Kind::Between) {
        g_between(t, p + 1, l)
    } else {
        match comparison_op(tok(t, p)) {
            Some(op) => g_operand(t, p + 1, l, op),
            None => Read::Wrong(stray_text("Unexpected token in expression: "@, tok(t, p))),
        }
    }
}

/// What follows IS: NULL or NOT NULL.
pub open spec fn g_is(t: Seq<TokenView>, p: int, l: ExprView) -> Read<ExprView> {
    if at(t, p, Kind::Not) {
        if at(t, p + 1, Kind::NullLit) {
            Read::Got(ExprView::IsNotNull(Box::new(l)), p + 2)
        } else {
            Read::Wrong(wanted(Kind::NullLit, tok(t, p + 1)))
        }
    } else if at(t, p, Kind::NullLit) {
        Read::Got(ExprView::IsNull(Box::new(l)), p + 1)
    } else {
        Read::Wrong(wanted(Kind::NullLit, tok(t, p)))
    }
}

/// What may follow NOT behind an operand: IN, BETWEEN, LIKE or ILIKE.
pub open spec fn g_negatable(t: Seq<TokenView>, p: int, l: ExprView) -> Read<ExprView>
    decreases t.len() - p, 10int,
{
    if p < 0 || p >= t.len() {
        Read::Wrong("Expected IN, BETWEEN, or LIKE after NOT"@)
    } else if at(t, p, Kind::In) {
        g_in(t, p + 1, l)
    } else if at(t, p, Kind::Between) {
        g_between(t, p + 1, l)
    } else if at(t, p, Kind::Like) {
        g_operand(t, p + 1, l, BinOp::Like)
    } else if at(t, p, Kind::Ilike) {
        g_operand(t, p + 1, l, BinOp::Ilike)
    } else {
        Read::Wrong("Expected IN, BETWEEN, or LIKE after NOT"@)
    }
}

/// The right operand of `l op`.
pub open spec fn g_operand(t: Seq<TokenView>, p: int, l: ExprView, op: BinOp) -> Read<ExprView>
    decreases t.len() - p, 6int,
{
    match g_addition(t, p) {
        Read::Got(r, q) => Read::Got(binary(l, op, r), q),
        Read::Wrong(m) => Read::Wrong(m),
    }
}

/// What follows IN: a list or a query in parentheses.
pub open spec fn g_in(t: Seq<TokenView>, p: int, l: ExprView) -> Read<ExprView>
    decreases t.len() - p, 6int,
{
    if at(t, p, Kind::LParen) && 0 <= p < t.len() {
        if at(t, p + 1, Kind::Select) {
            match g_select(t, p + 2) {
                Read::Got(s, q) => if at(t, q, Kind::RParen) {
                    Read::Got(ExprView::InSubquery { expr: Box::new(l), subquery: Box::new(s) }, q + 1)
                } else {
                    Read::Wrong(wanted(Kind::RParen, tok(t, q)))
                },
                Read::Wrong(m) => Read::Wrong(m),
            }
        } else {
            match g_exprs(t, p + 1, Seq::empty()) {
                Read::Got(list, q) => if at(t, q, Kind::RParen) {
                    Read::Got(ExprView::InList { expr: Box::new(l), list }, q + 1)
                } else {
                    Read::Wrong(wanted(Kind::RParen, tok(t, q)))
                },
                Read::Wrong(m) => Read::Wrong(m),
            }
        }
    } else {
        Read::Wrong(wanted(Kind::LParen, tok(t, p)))
    }
}

/// What follows BETWEEN: the two bounds.
pub open spec fn g_between(t: Seq<TokenView>, p: int, l: ExprView) -> Read<ExprView>
    decreases t.len() - p, 6int,
{
    match g_addition(t, p) {
        Read::Got(low, q) => if ahead(t, p, q) && at(t, q, Kind::And) {
            match g_addition(t, q + 1) {
                Read::Got(high, e) => Read::Got(ExprView::Between { expr: Box::new(l), low: Box::new(low), high: Box::new(high) }, e),
                Read::Wrong(m) => Read::Wrong(m),
            }
        } else {
            Read::Wrong(wanted(Kind::And, tok(t, q)))
        },
        Read::Wrong(m) => Read::Wrong(m),
    }
}

/// Operands joined by `+` and `-`, from left to right.
pub open spec fn g_addition(t: Seq<TokenView>, p: int) -> Read<ExprView>
    decreases t.len() - p, 5int,
{
    match g_multiplication(t, p) {
        Read::Got(l, q) => if ahead(t, p, q) { g_addition_rest(t, q, l) } else { Read::Wrong(Seq::empty()) },
        Read::Wrong(m) => Read::Wrong(m),
    }
}

pub open spec fn g_addition_rest(t: Seq<TokenView>, p: int, l: ExprView) -> Read<ExprView>
    decreases t.len() - p, 4int,
{
    match additive_op(tok(t, p)) {
        Some(op) => if 0 <= p < t.len() {
            match g_multiplication(t, p + 1) {
                Read::Got(r, q) => if ahead(t, p + 1, q) { g_addition_rest(t, q, binary(l, op, r)) } else { Read::Wrong(Seq::empty()) },
                Read::Wrong(m) => Read::Wrong(m),
            }
        } else {
            Read::Wrong(Seq::empty())
        },
        None => Read::Got(l, p),
    }
}

/// Operands joined by `*`, `/` and `%`, from left to right.
pub open spec fn g_multiplication(t: Seq<TokenView>, p: int) -> Read<ExprView>
    decreases t.len() - p, 4int,
{
    match g_unary(t, p) {
        Read::Got(l, q) => if ahead(t, p, q) { g_multiplication_rest(t, q, l) } else { Read::Wrong(Seq::empty()) },
        Read::Wrong(m) => Read::Wrong(m),
    }
}

pub open spec fn g_multiplication_rest(t: Seq<TokenView>, p: int, l: ExprView) -> Read<ExprView>
    decreases t.len() - p, 3int,
{
    match multiplicative_op(tok(t, p)) {
        Some(op) => if 0 <= p < t.len() {
            match g_unary(t, p + 1) {
                Read::Got(r, q) => if ahead(t, p + 1, q) {
                    g_multiplication_rest(t, q, binary(l, op, r))
                } else {
                    Read::Wrong(Seq::empty())
                },
                Read::Wrong(m) => Read::Wrong(m),
            }
        } else {
            Read::Wrong(Seq::empty())
        },
        None => Read::Got(l, p),
    }
}

/// A minus sign before an operand: a literal number takes it up.
pub open spec fn minus(e: ExprView) -> ExprView {
    match e {
        ExprView::Literal(LiteralValueView::Integer(n)) => if n == i64::MIN {
            ExprView::UnaryOp { op: UnaryOp::Neg, expr: Box::new(e) }
        } else {
            ExprView::Literal(LiteralValueView::Integer((-n) as i64))
        },
        ExprView::Literal(LiteralValueView::Float { negative, digits }) => ExprView::Literal(
            LiteralValueView::Float { negative: !negative, digits },
        ),
        _ => ExprView::UnaryOp { op: UnaryOp::Neg, expr: Box::new(e) },
    }
}

/// An operand with the signs and NOTs before it.
pub open spec fn g_unary(t: Seq<TokenView>, p: int) -> Read<ExprView>
    decreases t.len() - p, 3int,
{
    if at(t, p, Kind::Not) && 0 <= p < t.len() {
        match g_unary(t, p + 1) {
            Read::Got(e, q) => Read::Got(negated(e), q),
            Read::Wrong(m) => Read::Wrong(m),
        }
    } else if at(t, p, Kind::Minus) && 0 <= p < t.len() {
        match g_unary(t, p + 1) {
            Read::Got(e, q) => Read::Got(minus(e), q),
            Read::Wrong(m) => Read::Wrong(m),
        }
    } else {
        g_primary(t, p)
    }
}

/// An operand, with the `::` casts behind it.
pub open spec fn g_primary(t: Seq<TokenView>, p: int) -> Read<ExprView>
    decreases t.len() - p, 2int,
{
    match g_atom(t, p) {
        Read::Got(e, q) => g_casts(t, q, e),
        Read::Wrong(m) => Read::Wrong(m),
    }
}

pub open spec fn g_casts(t: Seq<TokenView>, p: int, e: ExprView) -> Read<ExprView>
    decreases t.len() - p,
{
    if at(t, p, Kind::DoubleColon) && 0 <= p < t.len() {
        match g_type(t, p + 1) {
            Read::Got((dt, _), q) => if ahead(t, p, q) {
                g_casts(t, q, ExprView::Cast { expr: Box::new(e), data_type: dt })
            } else {
                Read::Wrong(Seq::empty())
            },
            Read::Wrong(m) => Read::Wrong(m),
        }
    } else {
        Read::Got(e, p)
    }
}

/// The literal that a token is.
pub open spec fn literal_of(k: TokenView) -> Option<LiteralValueView> {
    match k {
        TokenView::IntLit(n) => Some(LiteralValueView::Integer(n)),
        TokenView::FloatLit(f) => Some(LiteralValueView::Float { negative: false, digits: f }),
        TokenView::StringLit(s) => Some(LiteralValueView::String(s)),
        TokenView::BoolLit(b) => Some(LiteralValueView::Bool(b)),
        TokenView::HexBlob(b) => Some(LiteralValueView::HexBlob(b)),
        TokenView::Kind(Kind::NullLit) => Some(LiteralValueView::Null),
        _ => None,
    }
}

/// An operand without casts behind it.
pub open spec fn g_atom(t: Seq<TokenView>, p: int) -> Read<ExprView>
    decreases t.len() - p, 1int,
{
    if p < 0 || p >= t.len() {
        Read::Wrong(stray_text("Unexpected token in expression: "@, tok(t, p)))
    } else {
        match literal_of(tok(t, p)) {
            Some(l) => Read::Got(ExprView::Literal(l), p + 1),
            None => match tok(t, p) {
                TokenView::Ident(name) => g_named(t, p + 1, name),
                TokenView::Kind(k) => g_keyword_atom(t, p, k),
                _ => Read::Wrong(stray_text("Unexpected token in expression: "@, tok(t, p))),
            },
        }
    }
}

/// An operand that starts with the keyword or symbol `k` at `p`.
pub open spec fn g_keyword_atom(t: Seq<TokenView>, p: int, k: Kind) -> Read<ExprView>
    decreases t.len() - p, 0int,
{
    if p < 0 || p >= t.len() {
        Read::Wrong(stray_text("Unexpected token in expression: "@, tok(t, p)))
    } else if k == Kind::Default {
        Read::Got(ExprView::Default, p + 1)
    } else if k == Kind::Case || k == Kind::Cast || k == Kind::LParen {
        g_composed(t, p + 1, k)
    } else if k == Kind::Exists || k == Kind::Not {
        g_prefixed(t, p + 1, k)
    } else if k == Kind::Interval {
        g_interval(t, p + 1)
    } else if k == Kind::DollarDot {
        g_json_path(t, p + 1)
    } else {
        Read::Wrong(stray_text("Unexpected token in expression: "@, tok(t, p)))
    }
}

/// The text of an INTERVAL, from behind the keyword on.
pub open spec fn g_interval(t: Seq<TokenView>, p: int) -> Read<ExprView> {
    match g_string(t, p) {
        Read::Got(s, q) => Read::Got(ExprView::Interval(s), q),
        Read::Wrong(_) => Read::Wrong("Expected string literal after INTERVAL"@),
    }
}

/// A path into the document, from behind `$.` on.
pub open spec fn g_json_path(t: Seq<TokenView>, p: int) -> Read<ExprView> {
    match g_name(t, p) {
        Read::Got(n, q) => Read::Got(ExprView::JsonPath { path: n }, q),
        Read::Wrong(m) => Read::Wrong(m),
    }
}

/// CASE, CAST or an opening parenthesis, from behind it on.
pub open spec fn g_composed(t: Seq<TokenView>, p: int, k: Kind) -> Read<ExprView>
    decreases t.len() - p, 20int,
{
    if k == Kind::Case {
        g_case(t, p)
    } else if k == Kind::Cast {
        g_cast(t, p)
    } else {
        g_paren(t, p)
    }
}

/// EXISTS or NOT, from behind it on.
pub open spec fn g_prefixed(t: Seq<TokenView>, p: int, k: Kind) -> Read<ExprView>
    decreases t.len() - p, 20int,
{
    if k == Kind::Exists {
        g_exists(t, p)
    } else {
        g_not_atom(t, p)
    }
}

/// An operand that starts with a name, from behind the name on: a call, a qualified column or a
/// column.
pub open spec fn g_named(t: Seq<TokenView>, p: int, name: Seq<char>) -> Read<ExprView>
    decreases t.len() - p, 14int,
{
    if at(t, p, Kind::LParen) && 0 <= p < t.len() {
        g_call(t, p + 1, name)
    } else if at(t, p, Kind::Dot) {
        match g_name(t, p + 1) {
            Read::Got(c, q) => Read::Got(ExprView::QualifiedColumn(name, c), q),
            Read::Wrong(m) => Read::Wrong(m),
        }
    } else {
        Read::Got(ExprView::Column(name), p)
    }
}

/// EXISTS, from behind the keyword on.
pub open spec fn g_exists(t: Seq<TokenView>, p: int) -> Read<ExprView>
    decreases t.len() - p, 1int,
{
    match g_query_group(t, p) {
        Read::Got(s, q) => Read::Got(ExprView::Exists(Box::new(s)), q),
        Read::Wrong(m) => Read::Wrong(m),
    }
}

/// NOT as the start of an operand, from behind the keyword on.
pub open spec fn g_not_atom(t: Seq<TokenView>, p: int) -> Read<ExprView>
    decreases t.len() - p, 4int,
{
    if at(t, p, Kind::Exists) && 0 <= p < t.len() {
        match g_exists(t, p + 1) {
            Read::Got(e, q) => Read::Got(negated(e), q),
            Read::Wrong(m) => Read::Wrong(m),
        }
    } else {
        match g_unary(t, p) {
            Read::Got(e, q) => Read::Got(negated(e), q),
            Read::Wrong(m) => Read::Wrong(m),
        }
    }
}

/// A query or an expression in parentheses, from behind the opening one on.
pub open spec fn g_paren(t: Seq<TokenView>, p: int) -> Read<ExprView>
    decreases t.len() - p, 16int,
{
    if at(t, p, Kind::Select) && 0 <= p < t.len() {
        match g_select(t, p + 1) {
            Read::Got(s, q) => if at(t, q, Kind::RParen) {
                Read::Got(ExprView::Subquery(Box::new(s)), q + 1)
            } else {
                Read::Wrong(wanted(Kind::RParen, tok(t, q)))
            },
            Read::Wrong(m) => Read::Wrong(m),
        }
    } else {
        match g_expr(t, p) {
            Read::Got(e, q) => if at(t, q, Kind::RParen) {
                Read::Got(e, q + 1)
            } else {
                Read::Wrong(wanted(Kind::RParen, tok(t, q)))
            },
            Read::Wrong(m) => Read::Wrong(m),
        }
    }
}

/// A query in parentheses.
pub open spec fn g_query_group(t: Seq<TokenView>, p: int) -> Read<SelectStmtView>
    decreases t.len() - p, 0int,
{
    if at(t, p, Kind::LParen) && at(t, p + 1, Kind::Select) && 0 <= p < t.len() {
        match g_select(t, p + 2) {
            Read::Got(s, q) => if at(t, q, Kind::RParen) {
                Read::Got(s, q + 1)
            } else {
                Read::Wrong(wanted(Kind::RParen, tok(t, q)))
            },
            Read::Wrong(m) => Read::Wrong(m),
        }
    } else {
        Read::Wrong(wanted_pair(t, p, Kind::LParen, Kind::Select))
    }
}

/// The arguments in a call of `name`, from behind the opening parenthesis to the closing one,
/// with the name under which it is called: `f(DISTINCT ..)` calls `F_DISTINCT`.
pub open spec fn g_call_args(t: Seq<TokenView>, p: int, name: Seq<char>) -> Read<(Seq<char>, Seq<ExprView>)>
    decreases t.len() - p, 12int,
{
    if at(t, p, Kind::Distinct) && 0 <= p < t.len() {
        match g_exprs(t, p + 1, Seq::empty()) {
            Read::Got(args, q) => Read::Got((text_upper(name) + "_DISTINCT"@, args), q),
            Read::Wrong(m) => Read::Wrong(m),
        }
    } else {
        match g_args(t, p) {
            Read::Got(args, q) => Read::Got((name, args), q),
            Read::Wrong(m) => Read::Wrong(m),
        }
    }
}

/// The arguments themselves: none, a star, or a list.
pub open spec fn g_args(t: Seq<TokenView>, p: int) -> Read<Seq<ExprView>>
    decreases t.len() - p, 11int,
{
    if at(t, p, Kind::RParen) {
        Read::Got(Seq::empty(), p)
    } else if at(t, p, Kind::Star) {
        Read::Got(seq![ExprView::Column("*"@)], p + 1)
    } else {
        g_exprs(t, p, Seq::empty())
    }
}

/// A call of `name`, from behind the opening parenthesis on, with the window that may follow it.
pub open spec fn g_call(t: Seq<TokenView>, p: int, name: Seq<char>) -> Read<ExprView>
    decreases t.len() - p, 13int,
{
    match g_call_args(t, p, name) {
        Read::Wrong(m) => Read::Wrong(m),
        Read::Got((name, args), q) => if !(at(t, q, Kind::RParen)) || q < p {
            Read::Wrong(wanted(Kind::RParen, tok(t, q)))
        } else if at(t, q + 1, Kind::Over) && q + 1 < t.len() {
            match g_window(t, q + 2) {
                Read::Got((partition_by, order_by), e) => Read::Got(ExprView::WindowFunction { name, args, partition_by, order_by }, e),
                Read::Wrong(m) => Read::Wrong(m),
            }
        } else {
            Read::Got(ExprView::Function { name, args }, q + 1)
        },
    }
}

/// A window in parentheses: PARTITION BY and ORDER BY, each of which may be missing.
pub open spec fn g_window(t: Seq<TokenView>, p: int) -> Read<(Seq<ExprView>, Seq<OrderByExprView>)>
    decreases t.len() - p, 13int,
{
    if at(t, p, Kind::LParen) && 0 <= p < t.len() {
        match g_partition(t, p + 1) {
            Read::Wrong(m) => Read::Wrong(m),
            Read::Got(partition_by, q) => if ahead(t, p, q) {
                match g_opt_order(t, q) {
                    Read::Wrong(m) => Read::Wrong(m),
                    Read::Got(order_by, e) => if at(t, e, Kind::RParen) {
                        Read::Got((partition_by, order_by), e + 1)
                    } else {
                        Read::Wrong(wanted(Kind::RParen, tok(t, e)))
                    },
                }
            } else {
                Read::Wrong(Seq::empty())
            },
        }
    } else {
        Read::Wrong(wanted(Kind::LParen, tok(t, p)))
    }
}

pub open spec fn g_partition(t: Seq<TokenView>, p: int) -> Read<Seq<ExprView>>
    decreases t.len() - p, 12int,
{
    if at(t, p, Kind::Partition) && 0 <= p < t.len() {
        if at(t, p + 1, Kind::By) {
            g_exprs(t, p + 2, Seq::empty())
        } else {
            Read::Wrong(wanted(Kind::By, tok(t, p + 1)))
        }
    } else {
        Read::Got(Seq::empty(), p)
    }
}

/// A CASE, from behind the keyword on.
pub open spec fn g_case(t: Seq<TokenView>, p: int) -> Read<ExprView>
    decreases t.len() - p, 12int,
{
    if at(t, p, Kind::When) {
        g_case_rest(t, p, None)
    } else {
        match g_expr(t, p) {
            Read::Got(o, q) => if ahead(t, p, q) { g_case_rest(t, q, Some(Box::new(o))) } else { Read::Wrong(Seq::empty()) },
            Read::Wrong(m) => Read::Wrong(m),
        }
    }
}

pub open spec fn g_case_rest(t: Seq<TokenView>, p: int, operand: Option<Box<ExprView>>) -> Read<ExprView>
    decreases t.len() - p, 11int,
{
    match g_whens(t, p, Seq::empty()) {
        Read::Wrong(m) => Read::Wrong(m),
        Read::Got(when_clauses, q) => if p <= q <= t.len() {
            g_case_end(t, q, operand, when_clauses)
        } else {
            Read::Wrong(Seq::empty())
        },
    }
}

/// The rest of a CASE behind its WHEN clauses.
pub open spec fn g_case_end(
    t: Seq<TokenView>,
    p: int,
    operand: Option<Box<ExprView>>,
    when_clauses: Seq<(ExprView, ExprView)>,
) -> Read<ExprView>
    decreases t.len() - p, 10int,
{
    match g_else(t, p) {
        Read::Wrong(m) => Read::Wrong(m),
        Read::Got(else_result, e) => if at(t, e, Kind::End) {
            Read::Got(ExprView::Case { operand, when_clauses, else_result }, e + 1)
        } else {
            Read::Wrong(wanted(Kind::End, tok(t, e)))
        },
    }
}

pub open spec fn g_else(t: Seq<TokenView>, p: int) -> Read<Option<Box<ExprView>>>
    decreases t.len() - p, 9int,
{
    if at(t, p, Kind::Else) && 0 <= p < t.len() {
        match g_expr(t, p + 1) {
            Read::Got(e, q) => Read::Got(Some(Box::new(e)), q),
            Read::Wrong(m) => Read::Wrong(m),
        }
    } else {
        Read::Got(None, p)
    }
}

pub open spec fn g_whens(t: Seq<TokenView>, p: int, acc: Seq<(ExprView, ExprView)>) -> Read<Seq<(ExprView, ExprView)>>
    decreases t.len() - p, 10int,
{
    if at(t, p, Kind::When) && 0 <= p < t.len() {
        match g_expr(t, p + 1) {
            Read::Wrong(m) => Read::Wrong(m),
            Read::Got(c, q) => if ahead(t, p, q) && at(t, q, Kind::Then) && q < t.len() {
                match g_expr(t, q + 1) {
                    Read::Wrong(m) => Read::Wrong(m),
                    Read::Got(r, e) => if ahead(t, q, e) { g_whens(t, e, acc.push((c, r))) } else { Read::Wrong(Seq::empty()) },
                }
            } else {
                Read::Wrong(wanted(Kind::Then, tok(t, q)))
            },
        }
    } else {
        Read::Got(acc, p)
    }
}

/// A CAST, from behind the keyword on.
pub open spec fn g_cast(t: Seq<TokenView>, p: int) -> Read<ExprView>
    decreases t.len() - p, 12int,
{
    if at(t, p, Kind::LParen) && 0 <= p < t.len() {
        match g_expr(t, p + 1) {
            Read::Wrong(m) => Read::Wrong(m),
            Read::Got(e, q) => if at(t, q, Kind::As) {
                match g_type(t, q + 1) {
                    Read::Wrong(m) => Read::Wrong(m),
                    Read::Got((dt, _), r) => if at(t, r, Kind::RParen) {
                        Read::Got(ExprView::Cast { expr: Box::new(e), data_type: dt }, r + 1)
                    } else {
                        Read::Wrong(wanted(Kind::RParen, tok(t, r)))
                    },
                }
            } else {
                Read::Wrong(wanted(Kind::As, tok(t, q)))
            },
        }
    } else {
        Read::Wrong(wanted(Kind::LParen, tok(t, p)))
    }
}

/// One or more expressions with commas between them, after those in `acc`.
pub open spec fn g_exprs(t: Seq<TokenView>, p: int, acc: Seq<ExprView>) -> Read<Seq<ExprView>>
    decreases t.len() - p, 10int,
{
    match g_expr(t, p) {
        Read::Wrong(m) => Read::Wrong(m),
        Read::Got(e, q) => if ahead(t, p, q) {
            if at(t, q, Kind::Comma) && q < t.len() {
                g_exprs(t, q + 1, acc.push(e))
            } else {
                Read::Got(acc.push(e), q)
            }
        } else {
            Read::Wrong(Seq::empty())
        },
    }
}

/// The direction behind a sort key; ascending where none stands.
pub open spec fn g_direction(t: Seq<TokenView>, p: int) -> (bool, int) {
    if at(t, p, Kind::Desc) {
        (false, p + 1)
    } else if at(t, p, Kind::Asc) {
        (true, p + 1)
    } else {
        (true, p)
    }
}

pub open spec fn g_nulls(t: Seq<TokenView>, p: int) -> Read<Option<bool>> {
    if at(t, p, Kind::Nulls) {
        if at(t, p + 1, Kind::First) {
            Read::Got(Some(true), p + 2)
        } else if at(t, p + 1, Kind::Last) {
            Read::Got(Some(false), p + 2)
        } else {
            Read::Wrong(wanted(Kind::Last, tok(t, p + 1)))
        }
    } else {
        Read::Got(None, p)
    }
}

/// One or more sort keys with commas between them, after those in `acc`.
pub open spec fn g_orders(t: Seq<TokenView>, p: int, acc: Seq<OrderByExprView>) -> Read<Seq<OrderByExprView>>
    decreases t.len() - p, 11int,
{
    match g_expr(t, p) {
        Read::Wrong(m) => Read::Wrong(m),
        Read::Got(e, q) => if ahead(t, p, q) {
            let (ascending, q1) = g_direction(t, q);
            match g_nulls(t, q1) {
                Read::Wrong(m) => Read::Wrong(m),
                Read::Got(nulls_first, q2) => {
                    let key = OrderByExprView { expr: e, ascending, nulls_first };
                    if at(t, q2, Kind::Comma) && q2 < t.len() {
                        g_orders(t, q2 + 1, acc.push(key))
                    } else {
                        Read::Got(acc.push(key), q2)
                    }
                },
            }
        } else {
            Read::Wrong(Seq::empty())
        },
    }
}

pub open spec fn g_opt_order(t: Seq<TokenView>, p: int) -> Read<Seq<OrderByExprView>>
    decreases t.len() - p, 12int,
{
    if at(t, p, Kind::Order) && 0 <= p < t.len() {
        if at(t, p + 1, Kind::By) {
            g_orders(t, p + 2, Seq::empty())
        } else {
            Read::Wrong(wanted(Kind::By, tok(t, p + 1)))
        }
    } else {
        Read::Got(Seq::empty(), p)
    }
}

/// A select list: a star, or expressions with their aliases.
pub open spec fn g_columns(t: Seq<TokenView>, p: int) -> Read<Seq<SelectColumnView>>
    decreases t.len() - p, 13int,
{
    if at(t, p, Kind::Star) {
        Read::Got(seq![SelectColumnView::Star], p + 1)
    } else {
        g_column_list(t, p, Seq::empty())
    }
}

pub open spec fn g_column_list(t: Seq<TokenView>, p: int, acc: Seq<SelectColumnView>) -> Read<Seq<SelectColumnView>>
    decreases t.len() - p, 12int,
{
    match g_expr(t, p) {
        Read::Wrong(m) => Read::Wrong(m),
        Read::Got(e, q) => if ahead(t, p, q) {
            match g_column_alias(t, q) {
                Read::Wrong(m) => Read::Wrong(m),
                Read::Got(alias, r) => {
                    let col = SelectColumnView::Expr(e, alias);
                    if at(t, r, Kind::Comma) && r < t.len() {
                        g_column_list(t, r + 1, acc.push(col))
                    } else {
                        Read::Got(acc.push(col), r)
                    }
                },
            }
        } else {
            Read::Wrong(Seq::empty())
        },
    }
}

pub open spec fn g_column_alias(t: Seq<TokenView>, p: int) -> Read<Option<Seq<char>>> {
    if at(t, p, Kind::As) {
        match g_name(t, p + 1) {
            Read::Got(n, q) => Read::Got(Some(n), q),
            Read::Wrong(m) => Read::Wrong(m),
        }
    } else {
        Read::Got(None, p)
    }
}

/// FROM with what it names, and the alias behind it; no FROM is in order too.
pub open spec fn g_from(t: Seq<TokenView>, p: int) -> Read<(FromClauseView, Option<Seq<char>>)>
    decreases t.len() - p, 12int,
{
    if at(t, p, Kind::From) && 0 <= p < t.len() {
        if at(t, p + 1, Kind::LParen) {
            match g_query_group(t, p + 1) {
                Read::Got(s, q) => {
                    let (alias, e) = g_alias(t, q);
                    Read::Got((FromClauseView::Subquery(Box::new(s)), alias), e)
                },
                Read::Wrong(m) => Read::Wrong(m),
            }
        } else {
            match g_name(t, p + 1) {
                Read::Wrong(m) => Read::Wrong(m),
                Read::Got(n, q) => if at(t, q, Kind::Dot) {
                    match g_name(t, q + 1) {
                        Read::Got(sub, q2) => {
                            let (alias, e) = g_alias(t, q2);
                            Read::Got((FromClauseView::Table(n + "."@ + sub), alias), e)
                        },
                        Read::Wrong(m) => Read::Wrong(m),
                    }
                } else {
                    let (alias, e) = g_alias(t, q);
                    Read::Got((FromClauseView::Table(n), alias), e)
                },
            }
        }
    } else {
        Read::Got((FromClauseView::Absent, None), p)
    }
}

/// The words that open a join, and the kind of join they open.
pub open spec fn g_join_head(t: Seq<TokenView>, p: int) -> Read<JoinType> {
    match tok(t, p) {
        TokenView::Kind(Kind::Inner) => if at(t, p + 1, Kind::Join) { Read::Got(JoinType::Inner, p + 2) } else { Read::Wrong(wanted(Kind::Join, tok(t, p + 1))) },
        TokenView::Kind(Kind::Left) => if at(t, p + 1, Kind::Join) { Read::Got(JoinType::Left, p + 2) } else { Read::Wrong(wanted(Kind::Join, tok(t, p + 1))) },
        TokenView::Kind(Kind::Right) => if at(t, p + 1, Kind::Join) { Read::Got(JoinType::Right, p + 2) } else { Read::Wrong(wanted(Kind::Join, tok(t, p + 1))) },
        TokenView::Kind(Kind::Join) => Read::Got(JoinType::Inner, p + 1),
        _ => Read::Wrong("Expected JOIN"@),
    }
}

pub open spec fn starts_join(k: TokenView) -> bool {
    k == TokenView::Kind(Kind::Join) || k == TokenView::Kind(Kind::Inner) || k == TokenView::Kind(Kind::Left) || k == TokenView::Kind(Kind::Right)
}

pub open spec fn g_join(t: Seq<TokenView>, p: int) -> Read<JoinClauseView>
    decreases t.len() - p, 11int,
{
    match g_join_head(t, p) {
        Read::Wrong(m) => Read::Wrong(m),
        Read::Got(join_type, q) => match g_name(t, q) {
            Read::Wrong(m) => Read::Wrong(m),
            Read::Got(table, q1) => {
                let (alias, q2) = if at(t, q1, Kind::On) { (None, q1) } else { g_alias(t, q1) };
                if at(t, q2, Kind::On) && ahead(t, p, q2) {
                    match g_expr(t, q2 + 1) {
                        Read::Got(condition, e) => Read::Got(JoinClauseView { join_type, table, alias, condition }, e),
                        Read::Wrong(m) => Read::Wrong(m),
                    }
                } else {
                    Read::Wrong(wanted(Kind::On, tok(t, q2)))
                }
            },
        },
    }
}

pub open spec fn g_joins(t: Seq<TokenView>, p: int, acc: Seq<JoinClauseView>) -> Read<Seq<JoinClauseView>>
    decreases t.len() - p, 12int,
{
    if starts_join(tok(t, p)) && 0 <= p < t.len() {
        match g_join(t, p) {
            Read::Got(j, q) => if ahead(t, p, q) { g_joins(t, q, acc.push(j)) } else { Read::Wrong(Seq::empty()) },
            Read::Wrong(m) => Read::Wrong(m),
        }
    } else {
        Read::Got(acc, p)
    }
}

pub open spec fn g_opt_where(t: Seq<TokenView>, p: int) -> Read<Option<ExprView>>
    decreases t.len() - p, 11int,
{
    if at(t, p, Kind::Where) && 0 <= p < t.len() {
        match g_expr(t, p + 1) {
            Read::Got(e, q) => Read::Got(Some(e), q),
            Read::Wrong(m) => Read::Wrong(m),
        }
    } else {
        Read::Got(None, p)
    }
}

pub open spec fn g_opt_group(t: Seq<TokenView>, p: int) -> Read<Seq<ExprView>>
    decreases t.len() - p, 12int,
{
    if at(t, p, Kind::Group) && 0 <= p < t.len() {
        if at(t, p + 1, Kind::By) {
            g_exprs(t, p + 2, Seq::empty())
        } else {
            Read::Wrong(wanted(Kind::By, tok(t, p + 1)))
        }
    } else {
        Read::Got(Seq::empty(), p)
    }
}

pub open spec fn g_opt_having(t: Seq<TokenView>, p: int) -> Read<Option<ExprView>>
    decreases t.len() - p, 11int,
{
    if at(t, p, Kind::Having) && 0 <= p < t.len() {
        match g_expr(t, p + 1) {
            Read::Got(e, q) => Read::Got(Some(e), q),
            Read::Wrong(m) => Read::Wrong(m),
        }
    } else {
        Read::Got(None, p)
    }
}

pub open spec fn g_opt_limit(t: Seq<TokenView>, p: int) -> Read<Option<usize>> {
    if at(t, p, Kind::Limit) {
        match g_integer(t, p + 1) {
            Read::Got(n, q) => Read::Got(Some(n as usize), q),
            Read::Wrong(m) => Read::Wrong(m),
        }
    } else {
        Read::Got(None, p)
    }
}

pub open spec fn g_opt_offset(t: Seq<TokenView>, p: int) -> Read<Option<usize>> {
    if at(t, p, Kind::Offset) {
        match g_integer(t, p + 1) {
            Read::Got(n, q) => Read::Got(Some(n as usize), q),
            Read::Wrong(m) => Read::Wrong(m),
        }
    } else {
        Read::Got(None, p)
    }
}

pub open spec fn g_distinct(t: Seq<TokenView>, p: int) -> (bool, int) {
    if at(t, p, Kind::Distinct) {
        (true, p + 1)
    } else {
        (false, p)
    }
}

/// A SELECT, from behind the keyword on.
pub open spec fn g_select(t: Seq<TokenView>, p: int) -> Read<SelectStmtView>
    decreases t.len() - p, 17int,
{
    let (distinct, p0) = g_distinct(t, p);
    if p < 0 || p0 > t.len() {
        Read::Wrong(Seq::empty())
    } else {
        match g_select_head(t, p0, distinct) {
            Read::Wrong(m) => Read::Wrong(m),
            Read::Got(s, q) => if ahead(t, p, q) { g_select_tail(t, q, s) } else { Read::Wrong(Seq::empty()) },
        }
    }
}

/// A SELECT with nothing behind its joins.
pub open spec fn select_head(
    columns: Seq<SelectColumnView>,
    distinct: bool,
    from: (FromClauseView, Option<Seq<char>>),
    joins: Seq<JoinClauseView>,
) -> SelectStmtView {
    SelectStmtView {
        columns,
        distinct,
        from: from.0,
        from_alias: from.1,
        joins,
        where_clause: None,
        group_by: Seq::empty(),
        having: None,
        order_by: Seq::empty(),
        limit: None,
        offset: None,
        ctes: Seq::empty(),
    }
}

/// The select list, FROM and the joins.
pub open spec fn g_select_head(t: Seq<TokenView>, p: int, distinct: bool) -> Read<SelectStmtView>
    decreases t.len() - p, 16int,
{
    match g_columns(t, p) {
        Read::Wrong(m) => Read::Wrong(m),
        Read::Got(columns, p1) => if ahead(t, p, p1) {
            match g_from(t, p1) {
                Read::Wrong(m) => Read::Wrong(m),
                Read::Got(from, p2) => if ahead(t, p, p2) {
                    match g_joins(t, p2, Seq::empty()) {
                        Read::Wrong(m) => Read::Wrong(m),
                        Read::Got(joins, p3) => Read::Got(select_head(columns, distinct, from, joins), p3),
                    }
                } else {
                    Read::Wrong(Seq::empty())
                },
            }
        } else {
            Read::Wrong(Seq::empty())
        },
    }
}

/// WHERE and GROUP BY, each of which may be missing.
pub open spec fn g_where_group(t: Seq<TokenView>, p: int) -> Read<(Option<ExprView>, Seq<ExprView>)>
    decreases t.len() - p, 14int,
{
    match g_opt_where(t, p) {
        Read::Wrong(m) => Read::Wrong(m),
        Read::Got(w, p1) => if p <= p1 <= t.len() {
            match g_opt_group(t, p1) {
                Read::Wrong(m) => Read::Wrong(m),
                Read::Got(g, p2) => Read::Got((w, g), p2),
            }
        } else {
            Read::Wrong(Seq::empty())
        },
    }
}

/// HAVING and ORDER BY, each of which may be missing.
pub open spec fn g_having_order(t: Seq<TokenView>, p: int) -> Read<(Option<ExprView>, Seq<OrderByExprView>)>
    decreases t.len() - p, 14int,
{
    match g_opt_having(t, p) {
        Read::Wrong(m) => Read::Wrong(m),
        Read::Got(h, p1) => if p <= p1 <= t.len() {
            match g_opt_order(t, p1) {
                Read::Wrong(m) => Read::Wrong(m),
                Read::Got(o, p2) => Read::Got((h, o), p2),
            }
        } else {
            Read::Wrong(Seq::empty())
        },
    }
}

/// LIMIT and OFFSET, each of which may be missing.
pub open spec fn g_limit_offset(t: Seq<TokenView>, p: int) -> Read<(Option<usize>, Option<usize>)> {
    match g_opt_limit(t, p) {
        Read::Wrong(m) => Read::Wrong(m),
        Read::Got(l, p1) => match g_opt_offset(t, p1) {
            Read::Wrong(m) => Read::Wrong(m),
            Read::Got(o, p2) => Read::Got((l, o), p2),
        },
    }
}

/// The clauses of a SELECT behind its joins, put into `s`.
pub open spec fn g_select_tail(t: Seq<TokenView>, p: int, s: SelectStmtView) -> Read<SelectStmtView>
    decreases t.len() - p, 15int,
{
    match g_where_group(t, p) {
        Read::Wrong(m) => Read::Wrong(m),
        Read::Got((where_clause, group_by), p1) => if p <= p1 <= t.len() {
            match g_having_order(t, p1) {
                Read::Wrong(m) => Read::Wrong(m),
                Read::Got((having, order_by), p2) => match g_limit_offset(t, p2) {
                    Read::Wrong(m) => Read::Wrong(m),
                    Read::Got((limit, offset), p3) => Read::Got(SelectStmtView { where_clause, group_by, having, order_by, limit, offset, ..s }, p3),
                },
            }
        } else {
            Read::Wrong(Seq::empty())
        },
    }
}

/// What a foreign key does when the row it refers to changes, from behind ON DELETE or ON UPDATE on.
pub open spec fn g_fk_action(t: Seq<TokenView>, p: int) -> Read<FkAction> {
    match tok(t, p) {
        TokenView::Kind(Kind::Cascade) => Read::Got(FkAction::Cascade, p + 1),
        TokenView::Kind(Kind::Restrict) => Read::Got(FkAction::Restrict, p + 1),
        TokenView::Kind(Kind::SetKw) => if at(t, p + 1, Kind::NullLit) { Read::Got(FkAction::SetNull, p + 2) } else { Read::Wrong("Expected NULL after SET"@) },
        k => if is_word(k, "NO"@) && is_word(tok(t, p + 1), "ACTION"@) {
            Read::Got(FkAction::Restrict, p + 2)
        } else {
            Read::Wrong(if is_word(k, "NO"@) { "Expected ACTION after NO"@ } else { wanted_text("CASCADE/RESTRICT/SET NULL"@, k) })
        },
    }
}

/// The ON DELETE and ON UPDATE clauses of a foreign key; the last of each kind counts.
pub open spec fn g_fk_actions(t: Seq<TokenView>, p: int, on_delete: FkAction, on_update: FkAction) -> Read<(FkAction, FkAction)>
    decreases t.len() - p,
{
    if at(t, p, Kind::On) && 0 <= p < t.len() {
        if at(t, p + 1, Kind::Delete) {
            match g_fk_action(t, p + 2) {
                Read::Got(a, q) => g_fk_actions(t, q, a, on_update),
                Read::Wrong(m) => Read::Wrong(m),
            }
        } else if at(t, p + 1, Kind::Update) {
            match g_fk_action(t, p + 2) {
                Read::Got(a, q) => g_fk_actions(t, q, on_delete, a),
                Read::Wrong(m) => Read::Wrong(m),
            }
        } else {
            Read::Wrong("Expected DELETE or UPDATE after ON"@)
        }
    } else {
        Read::Got((on_delete, on_update), p)
    }
}

/// An expression in parentheses.
pub open spec fn g_expr_group(t: Seq<TokenView>, p: int) -> Read<ExprView> {
    if at(t, p, Kind::LParen) {
        match g_expr(t, p + 1) {
            Read::Got(e, q) => if at(t, q, Kind::RParen) {
                Read::Got(e, q + 1)
            } else {
                Read::Wrong(wanted(Kind::RParen, tok(t, q)))
            },
            Read::Wrong(m) => Read::Wrong(m),
        }
    } else {
        Read::Wrong(wanted(Kind::LParen, tok(t, p)))
    }
}

/// The column that a REFERENCES names: `id` where it names only a table.
pub open spec fn g_ref_column(t: Seq<TokenView>, p: int) -> Read<Seq<char>> {
    if at(t, p, Kind::LParen) {
        match g_name(t, p + 1) {
            Read::Got(c, q) => if at(t, q, Kind::RParen) {
                Read::Got(c, q + 1)
            } else {
                Read::Wrong(wanted(Kind::RParen, tok(t, q)))
            },
            Read::Wrong(m) => Read::Wrong(m),
        }
    } else {
        Read::Got("id"@, p)
    }
}

pub open spec fn starts_constraint(k: TokenView) -> bool {
    k == TokenView::Kind(Kind::Not) || k == TokenView::Kind(Kind::Primary) || k == TokenView::Kind(Kind::Unique) || k
        == TokenView::Kind(Kind::Default) || is_word(k, "CHECK"@) || is_word(k, "REFERENCES"@)
}

/// A REFERENCES of a column, from behind the word on, put into `c`.
pub open spec fn g_references(t: Seq<TokenView>, p: int, c: ColumnDefView) -> Read<ColumnDefView> {
    match g_name(t, p) {
        Read::Wrong(m) => Read::Wrong(m),
        Read::Got(table, q) => match g_ref_column(t, q) {
            Read::Wrong(m) => Read::Wrong(m),
            Read::Got(col, q2) => match g_fk_actions(t, q2, FkAction::Restrict, FkAction::Restrict) {
                Read::Wrong(m) => Read::Wrong(m),
                Read::Got((on_delete, on_update), e) => Read::Got(ColumnDefView { references: Some((table, col)), on_delete, on_update, ..c }, e),
            },
        },
    }
}

/// One constraint behind a column's type, put into `c`.
pub open spec fn g_constraint(t: Seq<TokenView>, p: int, c: ColumnDefView) -> Read<ColumnDefView> {
    if at(t, p, Kind::Not) {
        if at(t, p + 1, Kind::NullLit) {
            Read::Got(ColumnDefView { nullable: false, ..c }, p + 2)
        } else {
            Read::Wrong(wanted(Kind::NullLit, tok(t, p + 1)))
        }
    } else if at(t, p, Kind::Primary) {
        if at(t, p + 1, Kind::Key) {
            Read::Got(ColumnDefView { primary_key: true, nullable: false, ..c }, p + 2)
        } else {
            Read::Wrong(wanted(Kind::Key, tok(t, p + 1)))
        }
    } else if at(t, p, Kind::Unique) {
        Read::Got(ColumnDefView { unique: true, ..c }, p + 1)
    } else if at(t, p, Kind::Default) {
        match g_primary(t, p + 1) {
            Read::Got(e, q) => Read::Got(ColumnDefView { default: Some(e), ..c }, q),
            Read::Wrong(m) => Read::Wrong(m),
        }
    } else if is_word(tok(t, p), "CHECK"@) {
        match g_expr_group(t, p + 1) {
            Read::Got(e, q) => Read::Got(ColumnDefView { check: Some(e), ..c }, q),
            Read::Wrong(m) => Read::Wrong(m),
        }
    } else {
        g_references(t, p + 1, c)
    }
}

/// The constraints behind a column's type, put into `c`.
pub open spec fn g_constraints(t: Seq<TokenView>, p: int, c: ColumnDefView) -> Read<ColumnDefView>
    decreases t.len() - p,
{
    if starts_constraint(tok(t, p)) {
        match g_constraint(t, p, c) {
            Read::Got(d, q) => if ahead(t, p, q) {
                g_constraints(t, q, d)
            } else {
                Read::Wrong(Seq::empty())
            },
            Read::Wrong(m) => Read::Wrong(m),
        }
    } else {
        Read::Got(c, p)
    }
}

/// A column with its type and nothing declared of it.
pub open spec fn plain_column(name: Seq<char>, data_type: DataType, max_length: Option<usize>) -> ColumnDefView {
    ColumnDefView {
        name,
        data_type,
        max_length,
        nullable: true,
        primary_key: false,
        unique: false,
        auto_increment: false,
        default: None,
        check: None,
        references: None,
        on_delete: FkAction::Restrict,
        on_update: FkAction::Restrict,
    }
}

/// A column definition. A SERIAL column counts up by itself and is the primary key.
pub open spec fn g_column_def(t: Seq<TokenView>, p: int) -> Read<ColumnDefView> {
    match g_name(t, p) {
        Read::Wrong(m) => Read::Wrong(m),
        Read::Got(name, q) => match g_type(t, q) {
            Read::Wrong(m) => Read::Wrong(m),
            Read::Got((dt, len), q2) => match g_constraints(t, q2, plain_column(name, dt, len)) {
                Read::Wrong(m) => Read::Wrong(m),
                Read::Got(c, e) => if at(t, q, Kind::Serial) {
                    Read::Got(ColumnDefView { auto_increment: true, primary_key: true, nullable: false, ..c }, e)
                } else {
                    Read::Got(c, e)
                },
            },
        },
    }
}

/// What the elements of a CREATE TABLE declare: columns, checks, foreign keys, and the columns
/// that a PRIMARY KEY or UNIQUE of the table names.
pub struct TableParts {
    pub columns: Seq<ColumnDefView>,
    pub checks: Seq<ExprView>,
    pub fks: Seq<ForeignKeyDefView>,
    pub keys: Seq<Seq<char>>,
    pub uniques: Seq<Seq<char>>,
}

pub open spec fn no_parts() -> TableParts {
    TableParts {
        columns: Seq::empty(),
        checks: Seq::empty(),
        fks: Seq::empty(),
        keys: Seq::empty(),
        uniques: Seq::empty(),
    }
}

pub open spec fn starts_table_constraint(k: TokenView) -> bool {
    k == TokenView::Kind(Kind::Unique) || k == TokenView::Kind(Kind::Primary) || is_word(k, "CHECK"@) || is_word(k, "CONSTRAINT"@) || is_word(k, "FOREIGN"@)
}

/// A foreign key of the table, from behind FOREIGN on.
pub open spec fn g_foreign_key(t: Seq<TokenView>, p: int) -> Read<ForeignKeyDefView> {
    if at(t, p, Kind::Key) {
        match g_name_group(t, p + 1) {
            Read::Wrong(m) => Read::Wrong(m),
            Read::Got(columns, q) => if is_word(tok(t, q), "REFERENCES"@) {
                match g_name(t, q + 1) {
                    Read::Wrong(m) => Read::Wrong(m),
                    Read::Got(ref_table, q2) => match g_name_group(t, q2) {
                        Read::Wrong(m) => Read::Wrong(m),
                        Read::Got(ref_columns, q3) => match g_fk_actions(t, q3, FkAction::Restrict, FkAction::Restrict) {
                            Read::Wrong(m) => Read::Wrong(m),
                            Read::Got((on_delete, on_update), e) => Read::Got(ForeignKeyDefView { columns, ref_table, ref_columns, on_delete, on_update }, e),
                        },
                    },
                }
            } else {
                Read::Wrong("Expected REFERENCES"@)
            },
        }
    } else {
        Read::Wrong(wanted(Kind::Key, tok(t, p)))
    }
}

/// A constraint of the table without the name before it, put into `a`. A UNIQUE of the table
/// names one column.
pub open spec fn g_table_constraint(t: Seq<TokenView>, p: int, a: TableParts) -> Read<TableParts> {
    if is_word(tok(t, p), "CHECK"@) {
        match g_expr_group(t, p + 1) {
            Read::Got(e, q) => Read::Got(TableParts { checks: a.checks.push(e), ..a }, q),
            Read::Wrong(m) => Read::Wrong(m),
        }
    } else if is_word(tok(t, p), "FOREIGN"@) {
        match g_foreign_key(t, p + 1) {
            Read::Got(fk, q) => Read::Got(TableParts { fks: a.fks.push(fk), ..a }, q),
            Read::Wrong(m) => Read::Wrong(m),
        }
    } else if at(t, p, Kind::Primary) {
        if at(t, p + 1, Kind::Key) {
            match g_name_group(t, p + 2) {
                Read::Got(ns, q) => Read::Got(TableParts { keys: a.keys + ns, ..a }, q),
                Read::Wrong(m) => Read::Wrong(m),
            }
        } else {
            Read::Wrong(wanted(Kind::Key, tok(t, p + 1)))
        }
    } else if at(t, p, Kind::Unique) {
        match g_name_group(t, p + 1) {
            Read::Got(ns, q) => if ns.len() == 1 {
                Read::Got(TableParts { uniques: a.uniques + ns, ..a }, q)
            } else {
                Read::Wrong("A UNIQUE of the table names one column"@)
            },
            Read::Wrong(m) => Read::Wrong(m),
        }
    } else {
        Read::Wrong(stray_text("Unexpected constraint token: "@, tok(t, p)))
    }
}

/// One element of a CREATE TABLE, put into `a`.
pub open spec fn g_element(t: Seq<TokenView>, p: int, a: TableParts) -> Read<TableParts> {
    if starts_table_constraint(tok(t, p)) {
        if is_word(tok(t, p), "CONSTRAINT"@) {
            match g_name(t, p + 1) {
                Read::Got(_, q) => g_table_constraint(t, q, a),
                Read::Wrong(m) => Read::Wrong(m),
            }
        } else {
            g_table_constraint(t, p, a)
        }
    } else {
        match g_column_def(t, p) {
            Read::Got(c, q) => Read::Got(TableParts { columns: a.columns.push(c), ..a }, q),
            Read::Wrong(m) => Read::Wrong(m),
        }
    }
}

/// The elements of a CREATE TABLE with commas between them, put into `a`.
pub open spec fn g_elements(t: Seq<TokenView>, p: int, a: TableParts) -> Read<TableParts>
    decreases t.len() - p,
{
    match g_element(t, p, a) {
        Read::Wrong(m) => Read::Wrong(m),
        Read::Got(b, q) => if ahead(t, p, q) && at(t, q, Kind::Comma) {
            g_elements(t, q + 1, b)
        } else {
            Read::Got(b, q)
        },
    }
}

/// Whether every name is that of a column.
pub open spec fn all_columns(cols: Seq<ColumnDefView>, names: Seq<Seq<char>>) -> bool {
    forall|i: int| 0 <= i < names.len() ==> has_column(cols, #[trigger] names[i])
}

pub open spec fn has_column(cols: Seq<ColumnDefView>, name: Seq<char>) -> bool {
    exists|j: int| 0 <= j < cols.len() && (#[trigger] cols[j]).name == name
}

/// A column with what a PRIMARY KEY and a UNIQUE of the table say of it.
pub open spec fn marked_column(c: ColumnDefView, keys: Seq<Seq<char>>, uniques: Seq<Seq<char>>) -> ColumnDefView {
    ColumnDefView {
        primary_key: c.primary_key || keys.contains(c.name),
        nullable: c.nullable && !keys.contains(c.name),
        unique: c.unique || uniques.contains(c.name),
        ..c
    }
}

pub open spec fn marked_columns(cols: Seq<ColumnDefView>, keys: Seq<Seq<char>>, uniques: Seq<Seq<char>>) -> Seq<
    ColumnDefView,
> {
    Seq::new(cols.len(), |i: int| marked_column(cols[i], keys, uniques))
}

/// IF NOT EXISTS, which may be missing.
pub open spec fn g_if_not_exists(t: Seq<TokenView>, p: int) -> Read<bool> {
    if at(t, p, Kind::If) {
        if at(t, p + 1, Kind::Not) && at(t, p + 2, Kind::Exists) {
            Read::Got(true, p + 3)
        } else {
            Read::Wrong(wanted_pair(t, p + 1, Kind::Not, Kind::Exists))
        }
    } else {
        Read::Got(false, p)
    }
}

/// IF EXISTS, which may be missing.
pub open spec fn g_if_exists(t: Seq<TokenView>, p: int) -> Read<bool> {
    if at(t, p, Kind::If) {
        if at(t, p + 1, Kind::Exists) {
            Read::Got(true, p + 2)
        } else {
            Read::Wrong(wanted(Kind::Exists, tok(t, p + 1)))
        }
    } else {
        Read::Got(false, p)
    }
}

/// CREATE TABLE, from TABLE on.
pub open spec fn g_create_table(t: Seq<TokenView>, p: int) -> Read<StatementView> {
    if at(t, p, Kind::Table) {
        match g_if_not_exists(t, p + 1) {
            Read::Wrong(m) => Read::Wrong(m),
            Read::Got(if_not_exists, q) => match g_name(t, q) {
                Read::Wrong(m) => Read::Wrong(m),
                Read::Got(name, q2) => if at(t, q2, Kind::LParen) {
                    match g_elements(t, q2 + 1, no_parts()) {
                        Read::Wrong(m) => Read::Wrong(m),
                        Read::Got(a, e) => if at(t, e, Kind::RParen) && all_columns(a.columns, a.keys) && all_columns(
                            a.columns,
                            a.uniques,
                        ) {
                            Read::Got(StatementView::CreateTable(
                                        CreateTableStmtView {
                                            name,
                                            columns: marked_columns(a.columns, a.keys, a.uniques),
                                            if_not_exists,
                                            check_constraints: a.checks,
                                            foreign_keys: a.fks,
                                        },
                                    ),
                                    e + 1,)
                        } else {
                            Read::Wrong(if at(t, e, Kind::RParen) { "Unknown column in a constraint of the table"@ } else { wanted(Kind::RParen, tok(t, e)) })
                        },
                    }
                } else {
                    Read::Wrong(wanted(Kind::LParen, tok(t, q2)))
                },
            },
        }
    } else {
        Read::Wrong(wanted(Kind::Table, tok(t, p)))
    }
}

/// CREATE INDEX, from the name of the index on.
pub open spec fn g_create_index(t: Seq<TokenView>, p: int, unique: bool) -> Read<StatementView> {
    match g_name(t, p) {
        Read::Wrong(m) => Read::Wrong(m),
        Read::Got(name, q) => if at(t, q, Kind::On) {
            match g_name(t, q + 1) {
                Read::Wrong(m) => Read::Wrong(m),
                Read::Got(table, q2) => match g_name_group(t, q2) {
                    Read::Wrong(m) => Read::Wrong(m),
                    Read::Got(columns, e) => Read::Got(StatementView::CreateIndex(CreateIndexStmtView { name, table, columns, unique }), e),
                },
            }
        } else {
            Read::Wrong(wanted(Kind::On, tok(t, q)))
        },
    }
}

pub open spec fn g_create(t: Seq<TokenView>, p: int) -> Read<StatementView> {
    if !(at(t, p, Kind::Create)) {
        Read::Wrong(wanted(Kind::Create, tok(t, p)))
    } else if at(t, p + 1, Kind::Unique) {
        if at(t, p + 2, Kind::Index) {
            g_create_index(t, p + 3, true)
        } else {
            Read::Wrong(wanted(Kind::Index, tok(t, p + 2)))
        }
    } else {
        match tok(t, p + 1) {
            TokenView::Kind(Kind::Table) => g_create_table(t, p + 1),
            TokenView::Kind(Kind::Index) => g_create_index(t, p + 2, false),
            TokenView::Kind(Kind::Database) => match g_if_not_exists(t, p + 2) {
                Read::Wrong(m) => Read::Wrong(m),
                Read::Got(if_not_exists, q) => match g_name(t, q) {
                    Read::Got(name, e) => Read::Got(StatementView::CreateDatabase { name, if_not_exists }, e),
                    Read::Wrong(m) => Read::Wrong(m),
                },
            },
            _ => Read::Wrong("Expected TABLE, INDEX or DATABASE after CREATE"@),
        }
    }
}

pub open spec fn g_drop(t: Seq<TokenView>, p: int) -> Read<StatementView> {
    if !(at(t, p, Kind::Drop)) {
        Read::Wrong(wanted(Kind::Drop, tok(t, p)))
    } else {
        match tok(t, p + 1) {
            TokenView::Kind(Kind::Table) => match g_if_exists(t, p + 2) {
                Read::Wrong(m) => Read::Wrong(m),
                Read::Got(if_exists, q) => match g_name(t, q) {
                    Read::Got(name, e) => Read::Got(StatementView::DropTable(DropTableStmtView { name, if_exists }), e),
                    Read::Wrong(m) => Read::Wrong(m),
                },
            },
            TokenView::Kind(Kind::Index) => match g_name(t, p + 2) {
                Read::Got(name, e) => Read::Got(StatementView::DropIndex(name), e),
                Read::Wrong(m) => Read::Wrong(m),
            },
            TokenView::Kind(Kind::Database) => match g_if_exists(t, p + 2) {
                Read::Wrong(m) => Read::Wrong(m),
                Read::Got(if_exists, q) => match g_name(t, q) {
                    Read::Got(name, e) => Read::Got(StatementView::DropDatabase { name, if_exists }, e),
                    Read::Wrong(m) => Read::Wrong(m),
                },
            },
            _ => Read::Wrong("Expected TABLE, INDEX or DATABASE after DROP"@),
        }
    }
}

/// The keyword COLUMN, which may be missing.
pub open spec fn skip_column_word(t: Seq<TokenView>, p: int) -> int {
    if at(t, p, Kind::Column) {
        p + 1
    } else {
        p
    }
}

/// NOT NULL and PRIMARY KEY behind the column that ALTER TABLE adds, put into `c`.
pub open spec fn g_added_constraints(t: Seq<TokenView>, p: int, c: ColumnDefView) -> Read<ColumnDefView>
    decreases t.len() - p,
{
    if at(t, p, Kind::Not) && 0 <= p < t.len() {
        if at(t, p + 1, Kind::NullLit) {
            g_added_constraints(t, p + 2, (ColumnDefView { nullable: false, ..c }))
        } else {
            Read::Wrong(wanted(Kind::NullLit, tok(t, p + 1)))
        }
    } else if at(t, p, Kind::Primary) && 0 <= p < t.len() {
        if at(t, p + 1, Kind::Key) {
            g_added_constraints(t, p + 2, (ColumnDefView { primary_key: true, nullable: false, ..c }))
        } else {
            Read::Wrong(wanted(Kind::Key, tok(t, p + 1)))
        }
    } else {
        Read::Got(c, p)
    }
}

pub open spec fn g_alter_action(t: Seq<TokenView>, p: int) -> Read<AlterTableActionView> {
    match tok(t, p) {
        TokenView::Kind(Kind::Add) => match g_name(t, skip_column_word(t, p + 1)) {
            Read::Wrong(m) => Read::Wrong(m),
            Read::Got(name, q) => match g_type(t, q) {
                Read::Wrong(m) => Read::Wrong(m),
                Read::Got((dt, len), q2) => match g_added_constraints(t, q2, plain_column(name, dt, len)) {
                    Read::Got(c, e) => Read::Got(AlterTableActionView::AddColumn(c), e),
                    Read::Wrong(m) => Read::Wrong(m),
                },
            },
        },
        TokenView::Kind(Kind::Drop) => match g_name(t, skip_column_word(t, p + 1)) {
            Read::Got(name, e) => Read::Got(AlterTableActionView::DropColumn(name), e),
            Read::Wrong(m) => Read::Wrong(m),
        },
        TokenView::Kind(Kind::Rename) => match g_name(t, skip_column_word(t, p + 1)) {
            Read::Wrong(m) => Read::Wrong(m),
            Read::Got(old_name, q) => if at(t, q, Kind::To) || is_upper_word(tok(t, q), "TO"@) {
                match g_name(t, q + 1) {
                    Read::Got(new_name, e) => Read::Got(AlterTableActionView::RenameColumn { old_name, new_name }, e),
                    Read::Wrong(m) => Read::Wrong(m),
                }
            } else {
                Read::Wrong("Expected TO after column name in RENAME"@)
            },
        },
        _ => Read::Wrong("Expected ADD, DROP, or RENAME after ALTER TABLE <name>"@),
    }
}

pub open spec fn g_alter(t: Seq<TokenView>, p: int) -> Read<StatementView> {
    if at(t, p, Kind::Alter) && at(t, p + 1, Kind::Table) {
        match g_name(t, p + 2) {
            Read::Wrong(m) => Read::Wrong(m),
            Read::Got(table, q) => match g_alter_action(t, q) {
                Read::Got(action, e) => Read::Got(StatementView::AlterTable(AlterTableStmtView { table, action }), e),
                Read::Wrong(m) => Read::Wrong(m),
            },
        }
    } else {
        Read::Wrong(wanted_pair(t, p, Kind::Alter, Kind::Table))
    }
}

/// One assignment. With `dollar` set, a `$.` may stand before its name.
pub open spec fn g_assignment(t: Seq<TokenView>, p: int, dollar: bool) -> Read<(Seq<char>, ExprView)> {
    match g_name(t, if dollar && at(t, p, Kind::DollarDot) { p + 1 } else { p }) {
        Read::Wrong(m) => Read::Wrong(m),
        Read::Got(col, q) => if at(t, q, Kind::Eq) {
            match g_expr(t, q + 1) {
                Read::Wrong(m) => Read::Wrong(m),
                Read::Got(e, r) => Read::Got((col, e), r),
            }
        } else {
            Read::Wrong(wanted(Kind::Eq, tok(t, q)))
        },
    }
}

/// One or more assignments with commas between them, after those in `acc`.
pub open spec fn g_assignments(t: Seq<TokenView>, p: int, dollar: bool, acc: Seq<(Seq<char>, ExprView)>) -> Read<Seq<(Seq<char>, ExprView)>>
    decreases t.len() - p,
{
    match g_assignment(t, p, dollar) {
        Read::Wrong(m) => Read::Wrong(m),
        Read::Got(a, r) => if ahead(t, p, r) && at(t, r, Kind::Comma) {
            g_assignments(t, r + 1, dollar, acc.push(a))
        } else {
            Read::Got(acc.push(a), r)
        },
    }
}

/// The rows of a VALUES with commas between them, after those in `acc`.
pub open spec fn g_value_rows(t: Seq<TokenView>, p: int, acc: Seq<Seq<ExprView>>) -> Read<Seq<Seq<ExprView>>>
    decreases t.len() - p,
{
    if at(t, p, Kind::LParen) {
        match g_exprs(t, p + 1, Seq::empty()) {
            Read::Wrong(m) => Read::Wrong(m),
            Read::Got(row, q) => if at(t, q, Kind::RParen) {
                if at(t, q + 1, Kind::Comma) && ahead(t, p, q) {
                    g_value_rows(t, q + 2, acc.push(row))
                } else {
                    Read::Got(acc.push(row), q + 1)
                }
            } else {
                Read::Wrong(wanted(Kind::RParen, tok(t, q)))
            },
        }
    } else {
        Read::Wrong(wanted(Kind::LParen, tok(t, p)))
    }
}

pub open spec fn g_source(t: Seq<TokenView>, p: int) -> Read<InsertSourceView> {
    if at(t, p, Kind::Select) {
        match g_select(t, p + 1) {
            Read::Got(s, q) => Read::Got(InsertSourceView::Select(s), q),
            Read::Wrong(m) => Read::Wrong(m),
        }
    } else if at(t, p, Kind::Values) {
        match g_value_rows(t, p + 1, Seq::empty()) {
            Read::Got(rows, q) => Read::Got(InsertSourceView::Values(rows), q),
            Read::Wrong(m) => Read::Wrong(m),
        }
    } else {
        Read::Wrong(wanted(Kind::Values, tok(t, p)))
    }
}

pub open spec fn g_conflict_action(t: Seq<TokenView>, p: int) -> Read<ConflictActionView> {
    if at(t, p, Kind::Nothing) {
        Read::Got(ConflictActionView::DoNothing, p + 1)
    } else if at(t, p, Kind::Update) && at(t, p + 1, Kind::SetKw) {
        match g_assignments(t, p + 2, false, Seq::empty()) {
            Read::Got(a, q) => Read::Got(ConflictActionView::DoUpdate(a), q),
            Read::Wrong(m) => Read::Wrong(m),
        }
    } else {
        Read::Wrong(wanted_pair(t, p, Kind::Update, Kind::SetKw))
    }
}

pub open spec fn g_on_conflict(t: Seq<TokenView>, p: int) -> Read<Option<OnConflictView>> {
    if at(t, p, Kind::On) {
        if at(t, p + 1, Kind::Conflict) {
            match g_name_group(t, p + 2) {
                Read::Wrong(m) => Read::Wrong(m),
                Read::Got(columns, q) => if at(t, q, Kind::Do) {
                    match g_conflict_action(t, q + 1) {
                        Read::Got(action, e) => Read::Got(Some(OnConflictView { columns, action }), e),
                        Read::Wrong(m) => Read::Wrong(m),
                    }
                } else {
                    Read::Wrong(wanted(Kind::Do, tok(t, q)))
                },
            }
        } else {
            Read::Wrong(wanted(Kind::Conflict, tok(t, p + 1)))
        }
    } else {
        Read::Got(None, p)
    }
}

pub open spec fn g_returning(t: Seq<TokenView>, p: int) -> Read<Option<Seq<SelectColumnView>>> {
    if at(t, p, Kind::Returning) {
        match g_columns(t, p + 1) {
            Read::Got(c, q) => Read::Got(Some(c), q),
            Read::Wrong(m) => Read::Wrong(m),
        }
    } else {
        Read::Got(None, p)
    }
}

pub open spec fn g_insert_columns(t: Seq<TokenView>, p: int) -> Read<Option<Seq<Seq<char>>>> {
    if at(t, p, Kind::LParen) {
        match g_name_group(t, p) {
            Read::Got(ns, q) => Read::Got(Some(ns), q),
            Read::Wrong(m) => Read::Wrong(m),
        }
    } else {
        Read::Got(None, p)
    }
}

pub open spec fn g_insert(t: Seq<TokenView>, p: int) -> Read<StatementView> {
    if at(t, p, Kind::Insert) && at(t, p + 1, Kind::Into) {
        match g_name(t, p + 2) {
            Read::Wrong(m) => Read::Wrong(m),
            Read::Got(table, q1) => match g_insert_columns(t, q1) {
                Read::Wrong(m) => Read::Wrong(m),
                Read::Got(columns, q2) => match g_source(t, q2) {
                    Read::Wrong(m) => Read::Wrong(m),
                    Read::Got(source, q3) => match g_on_conflict(t, q3) {
                        Read::Wrong(m) => Read::Wrong(m),
                        Read::Got(on_conflict, q4) => match g_returning(t, q4) {
                            Read::Wrong(m) => Read::Wrong(m),
                            Read::Got(returning, e) => Read::Got(StatementView::Insert(
                                        InsertStmtView { table, columns, source, on_conflict, returning },
                                    ),
                                    e,),
                        },
                    },
                },
            },
        }
    } else {
        Read::Wrong(wanted_pair(t, p, Kind::Insert, Kind::Into))
    }
}

pub open spec fn g_update(t: Seq<TokenView>, p: int) -> Read<StatementView> {
    if at(t, p, Kind::Update) {
        match g_name(t, p + 1) {
            Read::Wrong(m) => Read::Wrong(m),
            Read::Got(table, q) => if at(t, q, Kind::SetKw) {
                match g_assignments(t, q + 1, false, Seq::empty()) {
                    Read::Wrong(m) => Read::Wrong(m),
                    Read::Got(assignments, q2) => match g_opt_where(t, q2) {
                        Read::Wrong(m) => Read::Wrong(m),
                        Read::Got(where_clause, q3) => match g_returning(t, q3) {
                            Read::Wrong(m) => Read::Wrong(m),
                            Read::Got(returning, e) => Read::Got(StatementView::Update(UpdateStmtView { table, assignments, where_clause, returning }), e),
                        },
                    },
                }
            } else {
                Read::Wrong(wanted(Kind::SetKw, tok(t, q)))
            },
        }
    } else {
        Read::Wrong(wanted(Kind::Update, tok(t, p)))
    }
}

pub open spec fn g_delete(t: Seq<TokenView>, p: int) -> Read<StatementView> {
    if at(t, p, Kind::Delete) && at(t, p + 1, Kind::From) {
        match g_name(t, p + 2) {
            Read::Wrong(m) => Read::Wrong(m),
            Read::Got(table, q) => match g_opt_where(t, q) {
                Read::Wrong(m) => Read::Wrong(m),
                Read::Got(where_clause, q2) => match g_returning(t, q2) {
                    Read::Wrong(m) => Read::Wrong(m),
                    Read::Got(returning, e) => Read::Got(StatementView::Delete(DeleteStmtView { table, where_clause, returning }), e),
                },
            },
        }
    } else {
        Read::Wrong(wanted_pair(t, p, Kind::Delete, Kind::From))
    }
}

pub open spec fn g_begin(t: Seq<TokenView>, p: int) -> Read<StatementView> {
    if at(t, p, Kind::Begin) {
        if at(t, p + 1, Kind::Serializable) {
            Read::Got(StatementView::Begin(Some(IsolationLevel::Serializable)), p + 2)
        } else {
            Read::Got(StatementView::Begin(None), p + 1)
        }
    } else {
        Read::Wrong(wanted(Kind::Begin, tok(t, p)))
    }
}

/// The table that SHOW STATS is asked for, which may be missing.
pub open spec fn g_stats_table(t: Seq<TokenView>, p: int) -> Read<Option<Seq<char>>> {
    if is_word(tok(t, p), "FOR"@) {
        match g_name(t, p + 1) {
            Read::Got(n, q) => Read::Got(Some(n), q),
            Read::Wrong(m) => Read::Wrong(m),
        }
    } else {
        Read::Got(None, p)
    }
}

pub open spec fn g_show(t: Seq<TokenView>, p: int) -> Read<StatementView> {
    if !(at(t, p, Kind::Show)) {
        Read::Wrong(wanted(Kind::Show, tok(t, p)))
    } else {
        match tok(t, p + 1) {
            TokenView::Kind(Kind::Tables) => Read::Got(StatementView::ShowTables, p + 2),
            TokenView::Kind(Kind::Columns) => if at(t, p + 2, Kind::From) {
                match g_name(t, p + 3) {
                    Read::Got(n, e) => Read::Got(StatementView::ShowColumns(n), e),
                    Read::Wrong(m) => Read::Wrong(m),
                }
            } else {
                Read::Wrong(wanted(Kind::From, tok(t, p + 2)))
            },
            TokenView::Kind(Kind::Create) => if at(t, p + 2, Kind::Table) {
                match g_name(t, p + 3) {
                    Read::Got(n, e) => Read::Got(StatementView::ShowCreateTable(n), e),
                    Read::Wrong(m) => Read::Wrong(m),
                }
            } else {
                Read::Wrong(wanted(Kind::Table, tok(t, p + 2)))
            },
            k => if is_word(k, "DATABASES"@) {
                Read::Got(StatementView::ShowDatabases, p + 2)
            } else if is_word(k, "STATS"@) {
                match g_stats_table(t, p + 2) {
                    Read::Got(n, e) => Read::Got(StatementView::ShowStats(n), e),
                    Read::Wrong(m) => Read::Wrong(m),
                }
            } else {
                Read::Wrong("Expected TABLES, COLUMNS, CREATE, DATABASES, or STATS after SHOW"@)
            },
        }
    }
}

pub open spec fn g_truncate(t: Seq<TokenView>, p: int) -> Read<StatementView> {
    if at(t, p, Kind::Truncate) {
        match g_name(t, if at(t, p + 1, Kind::Table) { p + 2 } else { p + 1 }) {
            Read::Got(n, e) => Read::Got(StatementView::Truncate(n), e),
            Read::Wrong(m) => Read::Wrong(m),
        }
    } else {
        Read::Wrong(wanted(Kind::Truncate, tok(t, p)))
    }
}

pub open spec fn g_kv(t: Seq<TokenView>, p: int) -> Read<StatementView> {
    if !(at(t, p, Kind::Kv)) {
        Read::Wrong(wanted(Kind::Kv, tok(t, p)))
    } else {
        match tok(t, p + 1) {
            TokenView::Kind(Kind::Get) => match g_string(t, p + 2) {
                Read::Got(k, e) => Read::Got(StatementView::KvGet(k), e),
                Read::Wrong(m) => Read::Wrong(m),
            },
            TokenView::Kind(Kind::SetKw) => match g_string(t, p + 2) {
                Read::Wrong(m) => Read::Wrong(m),
                Read::Got(k, q) => match g_string(t, q) {
                    Read::Got(v, e) => Read::Got(StatementView::KvSet(k, v), e),
                    Read::Wrong(m) => Read::Wrong(m),
                },
            },
            TokenView::Kind(Kind::Delete) => match g_string(t, p + 2) {
                Read::Got(k, e) => Read::Got(StatementView::KvDelete(k), e),
                Read::Wrong(m) => Read::Wrong(m),
            },
            TokenView::Kind(Kind::Scan) => match g_string(t, p + 2) {
                Read::Wrong(m) => Read::Wrong(m),
                Read::Got(a, q) => match g_string(t, q) {
                    Read::Got(b, e) => Read::Got(StatementView::KvScan(a, b), e),
                    Read::Wrong(m) => Read::Wrong(m),
                },
            },
            _ => Read::Wrong("Expected GET, SET, DELETE, or SCAN after KV"@),
        }
    }
}

/// The text that a token stands for inside a JSON document; tokens that no document holds stand
/// for nothing.
pub open spec fn json_piece(k: TokenView) -> Seq<char> {
    match k {
        TokenView::Kind(Kind::LBrace) => "{"@,
        TokenView::Kind(Kind::RBrace) => "}"@,
        TokenView::StringLit(s) => "\""@ + s + "\""@,
        TokenView::IntLit(n) => int_text(n as int),
        TokenView::FloatLit(f) => plain_float(f),
        TokenView::BoolLit(b) => if b { "true"@ } else { "false"@ },
        TokenView::Kind(Kind::NullLit) => "null"@,
        TokenView::Kind(Kind::Colon) => ":"@,
        TokenView::Kind(Kind::Comma) => ","@,
        TokenView::Kind(Kind::LBracket) => "["@,
        TokenView::Kind(Kind::RBracket) => "]"@,
        _ => Seq::empty(),
    }
}

/// The text of a JSON document up to the brace that closes the last of `depth` open ones, after
/// the text in `acc`.
pub open spec fn g_json(t: Seq<TokenView>, p: int, depth: int, acc: Seq<char>) -> Read<Seq<char>>
    decreases t.len() - p,
{
    if p < 0 || p >= t.len() || at(t, p, Kind::Eof) {
        Read::Wrong("Unterminated JSON object"@)
    } else {
        let text = acc + json_piece(tok(t, p));
        if at(t, p, Kind::LBrace) {
            g_json(t, p + 1, depth + 1, text)
        } else if at(t, p, Kind::RBrace) {
            if depth == 1 {
                Read::Got(text, p + 1)
            } else {
                g_json(t, p + 1, depth - 1, text)
            }
        } else {
            g_json(t, p + 1, depth, text)
        }
    }
}

pub open spec fn g_json_object(t: Seq<TokenView>, p: int) -> Read<Seq<char>> {
    if at(t, p, Kind::LBrace) {
        g_json(t, p, 0, Seq::empty())
    } else {
        Read::Wrong("Expected '{'"@)
    }
}

pub open spec fn g_doc(t: Seq<TokenView>, p: int) -> Read<StatementView> {
    if !(at(t, p, Kind::Doc)) {
        Read::Wrong(wanted(Kind::Doc, tok(t, p)))
    } else if at(t, p + 1, Kind::Insert) {
        g_doc_insert(t, p + 2)
    } else if at(t, p + 1, Kind::Find) {
        g_doc_find(t, p + 2)
    } else if at(t, p + 1, Kind::Update) {
        g_doc_update(t, p + 2)
    } else if at(t, p + 1, Kind::Delete) {
        g_doc_delete(t, p + 2)
    } else {
        Read::Wrong("Expected INSERT, FIND, UPDATE, or DELETE after DOC"@)
    }
}

/// DOC INSERT, from INTO on.
pub open spec fn g_doc_insert(t: Seq<TokenView>, p: int) -> Read<StatementView> {
    if at(t, p, Kind::Into) {
        match g_name(t, p + 1) {
            Read::Wrong(m) => Read::Wrong(m),
            Read::Got(collection, q) => match g_json_object(t, q) {
                Read::Got(document, e) => Read::Got(StatementView::DocInsert(DocInsertStmtView { collection, document }), e),
                Read::Wrong(m) => Read::Wrong(m),
            },
        }
    } else {
        Read::Wrong(wanted(Kind::Into, tok(t, p)))
    }
}

/// DOC FIND, from IN on.
pub open spec fn g_doc_find(t: Seq<TokenView>, p: int) -> Read<StatementView> {
    if at(t, p, Kind::In) {
        match g_name(t, p + 1) {
            Read::Wrong(m) => Read::Wrong(m),
            Read::Got(collection, q) => match g_opt_where(t, q) {
                Read::Got(filter, e) => Read::Got(StatementView::DocFind(DocFindStmtView { collection, filter }), e),
                Read::Wrong(m) => Read::Wrong(m),
            },
        }
    } else {
        Read::Wrong(wanted(Kind::In, tok(t, p)))
    }
}

/// DOC UPDATE, from IN on.
pub open spec fn g_doc_update(t: Seq<TokenView>, p: int) -> Read<StatementView> {
    if at(t, p, Kind::In) {
        match g_name(t, p + 1) {
            Read::Wrong(m) => Read::Wrong(m),
            Read::Got(collection, q) => match g_opt_where(t, q) {
                Read::Wrong(m) => Read::Wrong(m),
                Read::Got(filter, q2) => if at(t, q2, Kind::SetKw) {
                    match g_assignments(t, q2 + 1, true, Seq::empty()) {
                        Read::Got(updates, e) => Read::Got(StatementView::DocUpdate(DocUpdateStmtView { collection, filter, updates }), e),
                        Read::Wrong(m) => Read::Wrong(m),
                    }
                } else {
                    Read::Wrong(wanted(Kind::SetKw, tok(t, q2)))
                },
            },
        }
    } else {
        Read::Wrong(wanted(Kind::In, tok(t, p)))
    }
}

/// DOC DELETE, from FROM on.
pub open spec fn g_doc_delete(t: Seq<TokenView>, p: int) -> Read<StatementView> {
    if at(t, p, Kind::From) {
        match g_name(t, p + 1) {
            Read::Wrong(m) => Read::Wrong(m),
            Read::Got(collection, q) => match g_opt_where(t, q) {
                Read::Got(filter, e) => Read::Got(StatementView::DocDelete(DocDeleteStmtView { collection, filter }), e),
                Read::Wrong(m) => Read::Wrong(m),
            },
        }
    } else {
        Read::Wrong(wanted(Kind::From, tok(t, p)))
    }
}

pub open spec fn g_backup(t: Seq<TokenView>, p: int) -> Read<StatementView> {
    if at(t, p, Kind::Backup) && at(t, p + 1, Kind::To) {
        match g_string(t, p + 2) {
            Read::Got(path, e) => Read::Got(StatementView::Backup { path }, e),
            Read::Wrong(m) => Read::Wrong(m),
        }
    } else {
        Read::Wrong(wanted_pair(t, p, Kind::Backup, Kind::To))
    }
}

pub open spec fn g_restore(t: Seq<TokenView>, p: int) -> Read<StatementView> {
    if at(t, p, Kind::Restore) && at(t, p + 1, Kind::From) {
        match g_string(t, p + 2) {
            Read::Wrong(m) => Read::Wrong(m),
            Read::Got(path, q) => if at(t, q, Kind::To) {
                if at(t, q + 1, Kind::Lsn) {
                    match g_integer(t, q + 2) {
                        Read::Got(n, e) => Read::Got(StatementView::Restore { path, to_lsn: Some(n as u64) }, e),
                        Read::Wrong(_) => Read::Wrong(stray_text("expected LSN integer, got "@, tok(t, q + 2))),
                    }
                } else {
                    Read::Wrong(wanted(Kind::Lsn, tok(t, q + 1)))
                }
            } else {
                Read::Got(StatementView::Restore { path, to_lsn: None }, q)
            },
        }
    } else {
        Read::Wrong(wanted_pair(t, p, Kind::Restore, Kind::From))
    }
}

/// A named query of a WITH.
pub open spec fn g_cte(t: Seq<TokenView>, p: int) -> Read<CteView> {
    match g_name(t, p) {
        Read::Wrong(m) => Read::Wrong(m),
        Read::Got(name, q) => if at(t, q, Kind::As) {
            match g_query_group(t, q + 1) {
                Read::Wrong(m) => Read::Wrong(m),
                Read::Got(query, r) => Read::Got(CteView { name, query }, r),
            }
        } else {
            Read::Wrong(wanted(Kind::As, tok(t, q)))
        },
    }
}

/// The named queries of a WITH, with commas between them, after those in `acc`.
pub open spec fn g_ctes(t: Seq<TokenView>, p: int, acc: Seq<CteView>) -> Read<Seq<CteView>>
    decreases t.len() - p,
{
    match g_cte(t, p) {
        Read::Wrong(m) => Read::Wrong(m),
        Read::Got(c, r) => if ahead(t, p, r) && at(t, r, Kind::Comma) {
            g_ctes(t, r + 1, acc.push(c))
        } else {
            Read::Got(acc.push(c), r)
        },
    }
}

pub open spec fn g_with(t: Seq<TokenView>, p: int) -> Read<StatementView> {
    if at(t, p, Kind::With) {
        match g_ctes(t, if at(t, p + 1, Kind::Recursive) { p + 2 } else { p + 1 }, Seq::empty()) {
            Read::Wrong(m) => Read::Wrong(m),
            Read::Got(ctes, q) => if at(t, q, Kind::Select) {
                match g_select(t, q + 1) {
                    Read::Got(s, e) => Read::Got(StatementView::Select(SelectStmtView { ctes, ..s }), e),
                    Read::Wrong(m) => Read::Wrong(m),
                }
            } else {
                Read::Wrong(wanted(Kind::Select, tok(t, q)))
            },
        }
    } else {
        Read::Wrong(wanted(Kind::With, tok(t, p)))
    }
}

pub open spec fn g_use(t: Seq<TokenView>, p: int) -> Read<StatementView> {
    match g_name(t, if at(t, p + 1, Kind::Database) { p + 2 } else { p + 1 }) {
        Read::Got(n, e) => Read::Got(StatementView::UseDatabase(n), e),
        Read::Wrong(m) => Read::Wrong(m),
    }
}

pub open spec fn g_analyze(t: Seq<TokenView>, p: int) -> Read<StatementView> {
    let q = if is_word(tok(t, p + 1), "TABLE"@) { p + 2 } else { p + 1 };
    match tok(t, q) {
        TokenView::Ident(s) => Read::Got(StatementView::Analyze(Some(s)), q + 1),
        _ => Read::Got(StatementView::Analyze(None), q),
    }
}

pub open spec fn g_plain_select(t: Seq<TokenView>, p: int) -> Read<StatementView> {
    if at(t, p, Kind::Select) {
        match g_select(t, p + 1) {
            Read::Got(s, e) => Read::Got(StatementView::Select(s), e),
            Read::Wrong(m) => Read::Wrong(m),
        }
    } else {
        Read::Wrong(wanted(Kind::Select, tok(t, p)))
    }
}

/// One statement, without the set operations that may follow it.
pub open spec fn g_statement(t: Seq<TokenView>, p: int) -> Read<StatementView>
    decreases t.len() - p, 0int,
{
    match tok(t, p) {
        TokenView::Kind(Kind::Explain) => if 0 <= p < t.len() {
            g_explain(t, p + 1)
        } else {
            Read::Wrong(Seq::empty())
        },
        TokenView::Kind(k) => g_single(t, p, k),
        _ => Read::Wrong(stray_text("Unexpected token: "@, tok(t, p))),
    }
}

/// The rest of an EXPLAIN.
pub open spec fn g_explain(t: Seq<TokenView>, p: int) -> Read<StatementView>
    decreases t.len() - p, 1int,
{
    let analyze = at(t, p, Kind::Analyze);
    match g_statement(t, if analyze && 0 <= p < t.len() { p + 1 } else { p }) {
        Read::Got(s, e) => Read::Got(StatementView::Explain(Box::new(s), analyze), e),
        Read::Wrong(m) => Read::Wrong(m),
    }
}

/// A statement that starts with the keyword `k` and holds no other statement.
pub open spec fn g_single(t: Seq<TokenView>, p: int, k: Kind) -> Read<StatementView> {
    if k == Kind::With || k == Kind::Select || k == Kind::Insert || k == Kind::Update || k == Kind::Delete {
        g_row_statement(t, p, k)
    } else if k == Kind::Create || k == Kind::Drop || k == Kind::Alter || k == Kind::Truncate || k == Kind::Use || k
        == Kind::Analyze {
        g_schema_statement(t, p, k)
    } else if k == Kind::Begin || k == Kind::Commit || k == Kind::Rollback || k == Kind::Migrate || k == Kind::Backup
        || k == Kind::Restore {
        g_session_statement(t, p, k)
    } else if k == Kind::Kv {
        g_kv(t, p)
    } else if k == Kind::Doc {
        g_doc(t, p)
    } else if k == Kind::Show {
        g_show(t, p)
    } else {
        Read::Wrong(stray_text("Unexpected token: "@, tok(t, p)))
    }
}

/// A statement on rows.
pub open spec fn g_row_statement(t: Seq<TokenView>, p: int, k: Kind) -> Read<StatementView> {
    if k == Kind::With {
        g_with(t, p)
    } else if k == Kind::Select {
        g_plain_select(t, p)
    } else if k == Kind::Insert {
        g_insert(t, p)
    } else if k == Kind::Update {
        g_update(t, p)
    } else {
        g_delete(t, p)
    }
}

/// A statement on tables, indexes or databases.
pub open spec fn g_schema_statement(t: Seq<TokenView>, p: int, k: Kind) -> Read<StatementView> {
    if k == Kind::Create {
        g_create(t, p)
    } else if k == Kind::Drop {
        g_drop(t, p)
    } else if k == Kind::Alter {
        g_alter(t, p)
    } else if k == Kind::Truncate {
        g_truncate(t, p)
    } else if k == Kind::Use {
        g_use(t, p)
    } else {
        g_analyze(t, p)
    }
}

/// A statement on transactions or on the whole store.
pub open spec fn g_session_statement(t: Seq<TokenView>, p: int, k: Kind) -> Read<StatementView> {
    if k == Kind::Begin {
        g_begin(t, p)
    } else if k == Kind::Commit {
        Read::Got(StatementView::Commit, p + 1)
    } else if k == Kind::Rollback {
        Read::Got(StatementView::Rollback, p + 1)
    } else if k == Kind::Migrate {
        Read::Got(StatementView::Migrate, p + 1)
    } else if k == Kind::Backup {
        g_backup(t, p)
    } else {
        g_restore(t, p)
    }
}

pub open spec fn g_all(t: Seq<TokenView>, p: int) -> (bool, int) {
    if at(t, p, Kind::All) {
        (true, p + 1)
    } else {
        (false, p)
    }
}

/// The set operation with the keyword `k`.
pub open spec fn set_op(k: Kind, left: StatementView, right: StatementView, all: bool) -> StatementView {
    if k == Kind::Union {
        StatementView::Union(Box::new(left), Box::new(right), all)
    } else if k == Kind::Intersect {
        StatementView::Intersect(Box::new(left), Box::new(right), all)
    } else {
        StatementView::Except(Box::new(left), Box::new(right), all)
    }
}

/// The set operations behind the statement `left`; they group to the right.
pub open spec fn g_set_ops(t: Seq<TokenView>, p: int, left: StatementView) -> Read<StatementView>
    decreases t.len() - p,
{
    if (at(t, p, Kind::Union) || at(t, p, Kind::Intersect) || at(t, p, Kind::Except)) && 0 <= p < t.len() {
        let (all, q) = g_all(t, p + 1);
        match g_statement(t, q) {
            Read::Wrong(m) => Read::Wrong(m),
            Read::Got(first, r) => if ahead(t, p, r) {
                match g_set_ops(t, r, first) {
                    Read::Wrong(m) => Read::Wrong(m),
                    Read::Got(right, e) => Read::Got(set_op(tok(t, p)->Kind_0, left, right, all), e),
                }
            } else {
                Read::Wrong(Seq::empty())
            },
        }
    } else {
        Read::Got(left, p)
    }
}

/// A whole statement with its set operations, and the semicolon that may close it.
pub open spec fn g_parse(t: Seq<TokenView>, p: int) -> Read<StatementView> {
    match g_statement(t, p) {
        Read::Wrong(m) => Read::Wrong(m),
        Read::Got(first, q) => match g_set_ops(t, q, first) {
            Read::Wrong(m) => Read::Wrong(m),
            Read::Got(s, e) => Read::Got(s, if at(t, e, Kind::Semicolon) { e + 1 } else { e }),
        },
    }
}

} // verus!
