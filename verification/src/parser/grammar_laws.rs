use vstd::prelude::*;
use super::ast::{BinOp, ExprView, UnaryOp};
use super::grammar::{Read, ahead, additive_op, at, binary, compares, comparison_op, g_addition, g_addition_rest, g_and, g_and_rest, g_atom, g_between, g_casts, g_compare, g_comparison, g_comparison_rest, g_composed, g_expr, g_keyword_atom, g_multiplication, g_multiplication_rest, g_named, g_negatable, g_operand, g_or_rest, g_paren, g_primary, g_unary, multiplicative_op, negated, tok};
use super::token::{Kind, TokenView};

verus! {

pub open spec fn word(x: Seq<char>) -> TokenView {
    TokenView::Ident(x)
}

pub open spec fn sign(k: Kind) -> TokenView {
    TokenView::Kind(k)
}

pub open spec fn column(x: Seq<char>) -> ExprView {
    ExprView::Column(x)
}

/// Whether a token can stand behind a column without belonging to it.
pub open spec fn parts_from_name(k: TokenView) -> bool {
    k != sign(Kind::LParen) && k != sign(Kind::Dot) && k != sign(Kind::DoubleColon)
}

pub proof fn lemma_name(t: Seq<TokenView>, p: int, x: Seq<char>)
    requires
        0 <= p < t.len(),
        tok(t, p) == word(x),
        parts_from_name(tok(t, p + 1)),
    ensures
        g_unary(t, p) == Read::Got(column(x), p + 1),
{
    assert(g_named(t, p + 1, x) == Read::Got(column(x), p + 1));
    assert(g_atom(t, p) == Read::Got(column(x), p + 1));
    assert(g_casts(t, p + 1, column(x)) == Read::Got(column(x), p + 1));
    assert(g_primary(t, p) == Read::Got(column(x), p + 1));
}

pub proof fn lemma_product1(t: Seq<TokenView>, p: int, a: ExprView, q: int)
    requires
        g_unary(t, p) == Read::Got(a, q),
        ahead(t, p, q),
        multiplicative_op(tok(t, q)) is None,
    ensures
        g_multiplication(t, p) == Read::Got(a, q),
{
    assert(g_multiplication_rest(t, q, a) == Read::Got(a, q));
}

proof fn lemma_product2(t: Seq<TokenView>, p: int, a: ExprView, q: int, op: BinOp, b: ExprView, r: int)
    requires
        0 <= p,
        g_unary(t, p) == Read::Got(a, q),
        ahead(t, p, q),
        q < t.len(),
        multiplicative_op(tok(t, q)) == Some(op),
        g_unary(t, q + 1) == Read::Got(b, r),
        ahead(t, q + 1, r),
        multiplicative_op(tok(t, r)) is None,
    ensures
        g_multiplication(t, p) == Read::Got(binary(a, op, b), r),
{
    assert(g_multiplication_rest(t, r, binary(a, op, b)) == Read::Got(binary(a, op, b), r));
    assert(g_multiplication_rest(t, q, a) == Read::Got(binary(a, op, b), r));
}

pub proof fn lemma_sum1(t: Seq<TokenView>, p: int, a: ExprView, q: int)
    requires
        g_multiplication(t, p) == Read::Got(a, q),
        ahead(t, p, q),
        additive_op(tok(t, q)) is None,
    ensures
        g_addition(t, p) == Read::Got(a, q),
{
    assert(g_addition_rest(t, q, a) == Read::Got(a, q));
}

proof fn lemma_sum2(t: Seq<TokenView>, p: int, a: ExprView, q: int, op: BinOp, b: ExprView, r: int)
    requires
        0 <= p,
        g_multiplication(t, p) == Read::Got(a, q),
        ahead(t, p, q),
        q < t.len(),
        additive_op(tok(t, q)) == Some(op),
        g_multiplication(t, q + 1) == Read::Got(b, r),
        ahead(t, q + 1, r),
        additive_op(tok(t, r)) is None,
    ensures
        g_addition(t, p) == Read::Got(binary(a, op, b), r),
{
    assert(g_addition_rest(t, r, binary(a, op, b)) == Read::Got(binary(a, op, b), r));
    assert(g_addition_rest(t, q, a) == Read::Got(binary(a, op, b), r));
}

proof fn lemma_comparison1(t: Seq<TokenView>, p: int, a: ExprView, q: int)
    requires
        g_addition(t, p) == Read::Got(a, q),
        ahead(t, p, q),
        !compares(tok(t, q)),
    ensures
        g_comparison(t, p) == Read::Got(a, q),
{
    assert(g_comparison_rest(t, q, a) == Read::Got(a, q));
}

proof fn lemma_comparison2(t: Seq<TokenView>, p: int, a: ExprView, q: int, op: BinOp, b: ExprView, r: int)
    requires
        0 <= p,
        g_addition(t, p) == Read::Got(a, q),
        ahead(t, p, q),
        q < t.len(),
        comparison_op(tok(t, q)) == Some(op),
        g_addition(t, q + 1) == Read::Got(b, r),
        ahead(t, q + 1, r),
        !compares(tok(t, r)),
    ensures
        g_comparison(t, p) == Read::Got(binary(a, op, b), r),
{
    let e = binary(a, op, b);
    assert(g_operand(t, q + 1, a, op) == Read::Got(e, r));
    assert(g_compare(t, q, a) == Read::Got(e, r));
    assert(g_comparison_rest(t, r, e) == Read::Got(e, r));
    assert(g_comparison_rest(t, q, a) == Read::Got(e, r));
}

pub proof fn lemma_and1(t: Seq<TokenView>, p: int, a: ExprView, q: int)
    requires
        g_comparison(t, p) == Read::Got(a, q),
        ahead(t, p, q),
        !at(t, q, Kind::And),
    ensures
        g_and(t, p) == Read::Got(a, q),
{
    assert(g_and_rest(t, q, a) == Read::Got(a, q));
}

proof fn lemma_and2(t: Seq<TokenView>, p: int, a: ExprView, q: int, b: ExprView, r: int)
    requires
        0 <= p,
        g_comparison(t, p) == Read::Got(a, q),
        ahead(t, p, q),
        q < t.len(),
        at(t, q, Kind::And),
        g_comparison(t, q + 1) == Read::Got(b, r),
        ahead(t, q + 1, r),
        !at(t, r, Kind::And),
    ensures
        g_and(t, p) == Read::Got(binary(a, BinOp::And, b), r),
{
    let e = binary(a, BinOp::And, b);
    assert(g_and_rest(t, r, e) == Read::Got(e, r));
    assert(g_and_rest(t, q, a) == Read::Got(e, r));
}

pub proof fn lemma_or1(t: Seq<TokenView>, p: int, a: ExprView, q: int)
    requires
        g_and(t, p) == Read::Got(a, q),
        ahead(t, p, q),
        !at(t, q, Kind::Or),
    ensures
        g_expr(t, p) == Read::Got(a, q),
{
    assert(g_or_rest(t, q, a) == Read::Got(a, q));
}

proof fn lemma_or2(t: Seq<TokenView>, p: int, a: ExprView, q: int, b: ExprView, r: int)
    requires
        0 <= p,
        g_and(t, p) == Read::Got(a, q),
        ahead(t, p, q),
        q < t.len(),
        at(t, q, Kind::Or),
        g_and(t, q + 1) == Read::Got(b, r),
        ahead(t, q + 1, r),
        !at(t, r, Kind::Or),
    ensures
        g_expr(t, p) == Read::Got(binary(a, BinOp::Or, b), r),
{
    let e = binary(a, BinOp::Or, b);
    assert(g_or_rest(t, r, e) == Read::Got(e, r));
    assert(g_or_rest(t, q, a) == Read::Got(e, r));
}

/// Whether nothing goes on behind an expression that ends before this token.
pub open spec fn closes(k: TokenView) -> bool {
    parts_from_name(k) && multiplicative_op(k) is None && additive_op(k) is None && !compares(k) && k != sign(Kind::And) && k != sign(
        Kind::Or,
    )
}

pub proof fn lemma_sum_up(t: Seq<TokenView>, p: int, a: ExprView, q: int)
    requires
        g_addition(t, p) == Read::Got(a, q),
        ahead(t, p, q),
        closes(tok(t, q)),
    ensures
        g_comparison(t, p) == Read::Got(a, q),
        g_and(t, p) == Read::Got(a, q),
        g_expr(t, p) == Read::Got(a, q),
{
    lemma_comparison1(t, p, a, q);
    lemma_and1(t, p, a, q);
    lemma_or1(t, p, a, q);
}

/// Which operation a sign between two operands stands for, and how tightly it binds: products before
/// sums.
pub open spec fn arithmetic(k: Kind, op: BinOp, product: bool) -> bool {
    ||| k == Kind::Star && op == BinOp::Mul && product
    ||| k == Kind::Slash && op == BinOp::Div && product
    ||| k == Kind::Percent && op == BinOp::Mod && product
    ||| k == Kind::Plus && op == BinOp::Plus && !product
    ||| k == Kind::Minus && op == BinOp::Minus && !product
}

/// Which comparison a sign or a word between two operands stands for.
pub open spec fn comparing(k: Kind, op: BinOp) -> bool {
    ||| k == Kind::Eq && op == BinOp::Eq
    ||| k == Kind::Neq && op == BinOp::Neq
    ||| k == Kind::Lt && op == BinOp::Lt
    ||| k == Kind::Gt && op == BinOp::Gt
    ||| k == Kind::Lte && op == BinOp::Lte
    ||| k == Kind::Gte && op == BinOp::Gte
    ||| k == Kind::Like && op == BinOp::Like
    ||| k == Kind::Ilike && op == BinOp::Ilike
}

/// `x op y` is read as the operation that the sign stands for, `x` on its left and `y` on its right.
pub proof fn law_binary_operation(x: Seq<char>, k: Kind, y: Seq<char>, op: BinOp)
    requires
        arithmetic(k, op, true) || arithmetic(k, op, false) || comparing(k, op) || (k == Kind::And && op == BinOp::And) || (k == Kind::Or && op
            == BinOp::Or),
    ensures
        g_expr(seq![word(x), sign(k), word(y)], 0) == Read::Got(binary(column(x), op, column(y)), 3),
{
    let t = seq![word(x), sign(k), word(y)];
    let a = column(x);
    let b = column(y);
    assert(tok(t, 0) == word(x) && tok(t, 1) == sign(k) && tok(t, 2) == word(y) && tok(t, 3) == sign(Kind::Eof));
    lemma_name(t, 0, x);
    lemma_name(t, 2, y);
    lemma_product1(t, 2, b, 3);
    if multiplicative_op(sign(k)) is Some {
        lemma_product2(t, 0, a, 1, op, b, 3);
        lemma_sum1(t, 0, binary(a, op, b), 3);
        lemma_sum_up(t, 0, binary(a, op, b), 3);
    } else {
        lemma_product1(t, 0, a, 1);
        lemma_sum1(t, 2, b, 3);
        if additive_op(sign(k)) is Some {
            lemma_sum2(t, 0, a, 1, op, b, 3);
            lemma_sum_up(t, 0, binary(a, op, b), 3);
        } else {
            lemma_sum1(t, 0, a, 1);
            lemma_comparison1(t, 2, b, 3);
            if comparing(k, op) {
                lemma_comparison2(t, 0, a, 1, op, b, 3);
                lemma_and1(t, 0, binary(a, op, b), 3);
                lemma_or1(t, 0, binary(a, op, b), 3);
            } else {
                lemma_comparison1(t, 0, a, 1);
                lemma_and1(t, 2, b, 3);
                if k == Kind::And {
                    lemma_and2(t, 0, a, 1, b, 3);
                    lemma_or1(t, 0, binary(a, op, b), 3);
                } else {
                    lemma_and1(t, 0, a, 1);
                    lemma_or2(t, 0, a, 1, b, 3);
                }
            }
        }
    }
}

/// Products bind tighter than sums, on either side.
pub proof fn law_products_before_sums(x: Seq<char>, k: Kind, y: Seq<char>, l: Kind, z: Seq<char>, sum: BinOp, product: BinOp)
    ensures
        arithmetic(k, sum, false) && arithmetic(l, product, true) ==> g_expr(seq![word(x), sign(k), word(y), sign(l), word(z)], 0) == Read::Got(
            binary(column(x), sum, binary(column(y), product, column(z))),
            5,
        ),
        arithmetic(k, product, true) && arithmetic(l, sum, false) ==> g_expr(seq![word(x), sign(k), word(y), sign(l), word(z)], 0) == Read::Got(
            binary(binary(column(x), product, column(y)), sum, column(z)),
            5,
        ),
{
    let t = seq![word(x), sign(k), word(y), sign(l), word(z)];
    let (a, b, c) = (column(x), column(y), column(z));
    assert(tok(t, 0) == word(x) && tok(t, 1) == sign(k) && tok(t, 2) == word(y) && tok(t, 3) == sign(l) && tok(t, 4) == word(z) && tok(t, 5)
        == sign(Kind::Eof));
    if arithmetic(k, sum, false) && arithmetic(l, product, true) {
        lemma_name(t, 0, x);
        lemma_name(t, 2, y);
        lemma_name(t, 4, z);
        lemma_product1(t, 0, a, 1);
        lemma_product2(t, 2, b, 3, product, c, 5);
        lemma_sum2(t, 0, a, 1, sum, binary(b, product, c), 5);
        lemma_sum_up(t, 0, binary(a, sum, binary(b, product, c)), 5);
    }
    if arithmetic(k, product, true) && arithmetic(l, sum, false) {
        lemma_name(t, 0, x);
        lemma_name(t, 2, y);
        lemma_name(t, 4, z);
        lemma_product2(t, 0, a, 1, product, b, 3);
        lemma_product1(t, 4, c, 5);
        lemma_sum2(t, 0, binary(a, product, b), 3, sum, c, 5);
        lemma_sum_up(t, 0, binary(binary(a, product, b), sum, c), 5);
    }
}

/// Operations that bind alike are read from the left to the right.
pub proof fn law_from_left_to_right(x: Seq<char>, k: Kind, y: Seq<char>, l: Kind, z: Seq<char>, first: BinOp, second: BinOp, product: bool)
    requires
        arithmetic(k, first, product),
        arithmetic(l, second, product),
    ensures
        g_expr(seq![word(x), sign(k), word(y), sign(l), word(z)], 0) == Read::Got(
            binary(binary(column(x), first, column(y)), second, column(z)),
            5,
        ),
{
    let t = seq![word(x), sign(k), word(y), sign(l), word(z)];
    let (a, b, c) = (column(x), column(y), column(z));
    let ab = binary(a, first, b);
    let e = binary(ab, second, c);
    assert(tok(t, 0) == word(x) && tok(t, 1) == sign(k) && tok(t, 2) == word(y) && tok(t, 3) == sign(l) && tok(t, 4) == word(z) && tok(t, 5)
        == sign(Kind::Eof));
    lemma_name(t, 0, x);
    lemma_name(t, 2, y);
    lemma_name(t, 4, z);
    if product {
        assert(g_multiplication_rest(t, 5, e) == Read::Got(e, 5));
        assert(g_multiplication_rest(t, 3, ab) == Read::Got(e, 5));
        assert(g_multiplication_rest(t, 1, a) == Read::Got(e, 5));
        assert(g_multiplication(t, 0) == Read::Got(e, 5));
        lemma_sum1(t, 0, e, 5);
    } else {
        lemma_product1(t, 0, a, 1);
        lemma_product1(t, 2, b, 3);
        lemma_product1(t, 4, c, 5);
        assert(g_addition_rest(t, 5, e) == Read::Got(e, 5));
        assert(g_addition_rest(t, 3, ab) == Read::Got(e, 5));
        assert(g_addition_rest(t, 1, a) == Read::Got(e, 5));
        assert(g_addition(t, 0) == Read::Got(e, 5));
    }
    lemma_sum_up(t, 0, e, 5);
}

/// Arithmetic binds tighter than comparisons, on either side.
pub proof fn law_arithmetic_before_comparisons(x: Seq<char>, k: Kind, y: Seq<char>, l: Kind, z: Seq<char>, op: BinOp, compare: BinOp, product: bool)
    ensures
        arithmetic(k, op, product) && comparing(l, compare) ==> g_expr(seq![word(x), sign(k), word(y), sign(l), word(z)], 0) == Read::Got(
            binary(binary(column(x), op, column(y)), compare, column(z)),
            5,
        ),
        comparing(k, compare) && arithmetic(l, op, product) ==> g_expr(seq![word(x), sign(k), word(y), sign(l), word(z)], 0) == Read::Got(
            binary(column(x), compare, binary(column(y), op, column(z))),
            5,
        ),
{
    let t = seq![word(x), sign(k), word(y), sign(l), word(z)];
    let (a, b, c) = (column(x), column(y), column(z));
    assert(tok(t, 0) == word(x) && tok(t, 1) == sign(k) && tok(t, 2) == word(y) && tok(t, 3) == sign(l) && tok(t, 4) == word(z) && tok(t, 5)
        == sign(Kind::Eof));
    if arithmetic(k, op, product) && comparing(l, compare) {
        lemma_name(t, 0, x);
        lemma_name(t, 2, y);
        lemma_name(t, 4, z);
        if product {
            lemma_product2(t, 0, a, 1, op, b, 3);
            lemma_sum1(t, 0, binary(a, op, b), 3);
        } else {
            lemma_product1(t, 0, a, 1);
            lemma_product1(t, 2, b, 3);
            lemma_sum2(t, 0, a, 1, op, b, 3);
        }
        lemma_product1(t, 4, c, 5);
        lemma_sum1(t, 4, c, 5);
        let e = binary(binary(a, op, b), compare, c);
        lemma_comparison2(t, 0, binary(a, op, b), 3, compare, c, 5);
        lemma_and1(t, 0, e, 5);
        lemma_or1(t, 0, e, 5);
    }
    if comparing(k, compare) && arithmetic(l, op, product) {
        lemma_name(t, 0, x);
        lemma_name(t, 2, y);
        lemma_name(t, 4, z);
        lemma_product1(t, 0, a, 1);
        lemma_sum1(t, 0, a, 1);
        if product {
            lemma_product2(t, 2, b, 3, op, c, 5);
            lemma_sum1(t, 2, binary(b, op, c), 5);
        } else {
            lemma_product1(t, 2, b, 3);
            lemma_product1(t, 4, c, 5);
            lemma_sum2(t, 2, b, 3, op, c, 5);
        }
        let e = binary(a, compare, binary(b, op, c));
        lemma_comparison2(t, 0, a, 1, compare, binary(b, op, c), 5);
        lemma_and1(t, 0, e, 5);
        lemma_or1(t, 0, e, 5);
    }
}

proof fn lemma_alone(t: Seq<TokenView>, p: int, x: Seq<char>)
    requires
        0 <= p < t.len(),
        tok(t, p) == word(x),
        tok(t, p + 1) == sign(Kind::And) || tok(t, p + 1) == sign(Kind::Or) || tok(t, p + 1) == sign(Kind::Eof) || tok(t, p + 1) == sign(
            Kind::RParen,
        ),
    ensures
        g_addition(t, p) == Read::Got(column(x), p + 1),
        g_comparison(t, p) == Read::Got(column(x), p + 1),
{
    lemma_name(t, p, x);
    lemma_product1(t, p, column(x), p + 1);
    lemma_sum1(t, p, column(x), p + 1);
    lemma_comparison1(t, p, column(x), p + 1);
}

/// AND binds tighter than OR, on either side.
pub proof fn law_and_before_or(x: Seq<char>, y: Seq<char>, z: Seq<char>)
    ensures
        g_expr(seq![word(x), sign(Kind::Or), word(y), sign(Kind::And), word(z)], 0) == Read::Got(
            binary(column(x), BinOp::Or, binary(column(y), BinOp::And, column(z))),
            5,
        ),
        g_expr(seq![word(x), sign(Kind::And), word(y), sign(Kind::Or), word(z)], 0) == Read::Got(
            binary(binary(column(x), BinOp::And, column(y)), BinOp::Or, column(z)),
            5,
        ),
{
    let (a, b, c) = (column(x), column(y), column(z));
    let t = seq![word(x), sign(Kind::Or), word(y), sign(Kind::And), word(z)];
    assert(tok(t, 0) == word(x) && tok(t, 1) == sign(Kind::Or) && tok(t, 2) == word(y) && tok(t, 3) == sign(Kind::And) && tok(t, 4) == word(z)
        && tok(t, 5) == sign(Kind::Eof));
    lemma_alone(t, 0, x);
    lemma_alone(t, 2, y);
    lemma_alone(t, 4, z);
    lemma_and1(t, 0, a, 1);
    lemma_and2(t, 2, b, 3, c, 5);
    lemma_or2(t, 0, a, 1, binary(b, BinOp::And, c), 5);
    let u = seq![word(x), sign(Kind::And), word(y), sign(Kind::Or), word(z)];
    assert(tok(u, 0) == word(x) && tok(u, 1) == sign(Kind::And) && tok(u, 2) == word(y) && tok(u, 3) == sign(Kind::Or) && tok(u, 4) == word(z)
        && tok(u, 5) == sign(Kind::Eof));
    lemma_alone(u, 0, x);
    lemma_alone(u, 2, y);
    lemma_alone(u, 4, z);
    lemma_and2(u, 0, a, 1, b, 3);
    lemma_and1(u, 4, c, 5);
    lemma_or2(u, 0, binary(a, BinOp::And, b), 3, c, 5);
}

/// Comparisons bind tighter than AND and OR.
pub proof fn law_comparisons_before_and(
    x: Seq<char>,
    k: Kind,
    y: Seq<char>,
    both: Kind,
    z: Seq<char>,
    l: Kind,
    w: Seq<char>,
    first: BinOp,
    join: BinOp,
    second: BinOp,
)
    requires
        comparing(k, first),
        comparing(l, second),
        (both == Kind::And && join == BinOp::And) || (both == Kind::Or && join == BinOp::Or),
    ensures
        g_expr(seq![word(x), sign(k), word(y), sign(both), word(z), sign(l), word(w)], 0) == Read::Got(
            binary(binary(column(x), first, column(y)), join, binary(column(z), second, column(w))),
            7,
        ),
{
    let t = seq![word(x), sign(k), word(y), sign(both), word(z), sign(l), word(w)];
    let (a, b, c, d) = (column(x), column(y), column(z), column(w));
    assert(tok(t, 0) == word(x) && tok(t, 1) == sign(k) && tok(t, 2) == word(y) && tok(t, 3) == sign(both) && tok(t, 4) == word(z) && tok(t, 5)
        == sign(l) && tok(t, 6) == word(w) && tok(t, 7) == sign(Kind::Eof));
    lemma_name(t, 0, x);
    lemma_product1(t, 0, a, 1);
    lemma_sum1(t, 0, a, 1);
    lemma_alone(t, 2, y);
    lemma_comparison2(t, 0, a, 1, first, b, 3);
    lemma_name(t, 4, z);
    lemma_product1(t, 4, c, 5);
    lemma_sum1(t, 4, c, 5);
    lemma_alone(t, 6, w);
    lemma_comparison2(t, 4, c, 5, second, d, 7);
    let l1 = binary(a, first, b);
    let r1 = binary(c, second, d);
    if both == Kind::And {
        lemma_and2(t, 0, l1, 3, r1, 7);
        lemma_or1(t, 0, binary(l1, join, r1), 7);
    } else {
        lemma_and1(t, 0, l1, 3);
        lemma_and1(t, 4, r1, 7);
        lemma_or2(t, 0, l1, 3, r1, 7);
    }
}

/// Parentheses hold together what stands in them.
pub proof fn law_parentheses(x: Seq<char>, k: Kind, y: Seq<char>, l: Kind, z: Seq<char>, sum: BinOp, product: BinOp)
    requires
        arithmetic(k, sum, false),
        arithmetic(l, product, true),
    ensures
        g_expr(seq![sign(Kind::LParen), word(x), sign(k), word(y), sign(Kind::RParen), sign(l), word(z)], 0) == Read::Got(
            binary(binary(column(x), sum, column(y)), product, column(z)),
            7,
        ),
{
    let t = seq![sign(Kind::LParen), word(x), sign(k), word(y), sign(Kind::RParen), sign(l), word(z)];
    let (a, b, c) = (column(x), column(y), column(z));
    let s = binary(a, sum, b);
    assert(tok(t, 0) == sign(Kind::LParen) && tok(t, 1) == word(x) && tok(t, 2) == sign(k) && tok(t, 3) == word(y) && tok(t, 4) == sign(
        Kind::RParen,
    ) && tok(t, 5) == sign(l) && tok(t, 6) == word(z) && tok(t, 7) == sign(Kind::Eof));
    lemma_name(t, 1, x);
    lemma_name(t, 3, y);
    lemma_product1(t, 1, a, 2);
    lemma_product1(t, 3, b, 4);
    lemma_sum2(t, 1, a, 2, sum, b, 4);
    lemma_sum_up(t, 1, s, 4);
    assert(g_paren(t, 1) == Read::Got(s, 5));
    assert(g_composed(t, 1, Kind::LParen) == Read::Got(s, 5));
    assert(g_keyword_atom(t, 0, Kind::LParen) == Read::Got(s, 5));
    assert(g_atom(t, 0) == Read::Got(s, 5));
    assert(g_casts(t, 5, s) == Read::Got(s, 5));
    assert(g_primary(t, 0) == Read::Got(s, 5));
    assert(g_unary(t, 0) == Read::Got(s, 5));
    lemma_name(t, 6, z);
    lemma_product2(t, 0, s, 5, product, c, 7);
    lemma_sum1(t, 0, binary(s, product, c), 7);
    lemma_sum_up(t, 0, binary(s, product, c), 7);
}

/// `x IS NULL` and `x IS NOT NULL`.
pub proof fn law_is_null(x: Seq<char>)
    ensures
        g_expr(seq![word(x), sign(Kind::Is), sign(Kind::NullLit)], 0) == Read::Got(ExprView::IsNull(Box::new(column(x))), 3),
        g_expr(seq![word(x), sign(Kind::Is), sign(Kind::Not), sign(Kind::NullLit)], 0) == Read::Got(
            ExprView::IsNotNull(Box::new(column(x))),
            4,
        ),
{
    let a = column(x);
    let t = seq![word(x), sign(Kind::Is), sign(Kind::NullLit)];
    let e = ExprView::IsNull(Box::new(a));
    assert(tok(t, 0) == word(x) && tok(t, 1) == sign(Kind::Is) && tok(t, 2) == sign(Kind::NullLit) && tok(t, 3) == sign(Kind::Eof));
    lemma_name(t, 0, x);
    lemma_product1(t, 0, a, 1);
    lemma_sum1(t, 0, a, 1);
    assert(g_compare(t, 1, a) == Read::Got(e, 3));
    assert(g_comparison_rest(t, 3, e) == Read::Got(e, 3));
    assert(g_comparison_rest(t, 1, a) == Read::Got(e, 3));
    assert(g_comparison(t, 0) == Read::Got(e, 3));
    lemma_and1(t, 0, e, 3);
    lemma_or1(t, 0, e, 3);
    let u = seq![word(x), sign(Kind::Is), sign(Kind::Not), sign(Kind::NullLit)];
    let f = ExprView::IsNotNull(Box::new(a));
    assert(tok(u, 0) == word(x) && tok(u, 1) == sign(Kind::Is) && tok(u, 2) == sign(Kind::Not) && tok(u, 3) == sign(Kind::NullLit) && tok(u, 4)
        == sign(Kind::Eof));
    lemma_name(u, 0, x);
    lemma_product1(u, 0, a, 1);
    lemma_sum1(u, 0, a, 1);
    assert(g_compare(u, 1, a) == Read::Got(f, 4));
    assert(g_comparison_rest(u, 4, f) == Read::Got(f, 4));
    assert(g_comparison_rest(u, 1, a) == Read::Got(f, 4));
    assert(g_comparison(u, 0) == Read::Got(f, 4));
    lemma_and1(u, 0, f, 4);
    lemma_or1(u, 0, f, 4);
}

/// `x BETWEEN y AND z`: the AND belongs to the bounds.
pub proof fn law_between(x: Seq<char>, y: Seq<char>, z: Seq<char>)
    ensures
        g_expr(seq![word(x), sign(Kind::Between), word(y), sign(Kind::And), word(z)], 0) == Read::Got(
            ExprView::Between { expr: Box::new(column(x)), low: Box::new(column(y)), high: Box::new(column(z)) },
            5,
        ),
        g_expr(seq![word(x), sign(Kind::Not), sign(Kind::Between), word(y), sign(Kind::And), word(z)], 0) == Read::Got(
            ExprView::UnaryOp {
                op: UnaryOp::Not,
                expr: Box::new(
                    ExprView::Between { expr: Box::new(column(x)), low: Box::new(column(y)), high: Box::new(column(z)) },
                ),
            },
            6,
        ),
{
    let (a, b, c) = (column(x), column(y), column(z));
    let e = ExprView::Between { expr: Box::new(a), low: Box::new(b), high: Box::new(c) };
    let t = seq![word(x), sign(Kind::Between), word(y), sign(Kind::And), word(z)];
    assert(tok(t, 0) == word(x) && tok(t, 1) == sign(Kind::Between) && tok(t, 2) == word(y) && tok(t, 3) == sign(Kind::And) && tok(t, 4) == word(
        z,
    ) && tok(t, 5) == sign(Kind::Eof));
    lemma_name(t, 0, x);
    lemma_product1(t, 0, a, 1);
    lemma_sum1(t, 0, a, 1);
    lemma_alone(t, 2, y);
    lemma_alone(t, 4, z);
    assert(g_between(t, 2, a) == Read::Got(e, 5));
    assert(g_compare(t, 1, a) == Read::Got(e, 5));
    assert(g_comparison_rest(t, 5, e) == Read::Got(e, 5));
    assert(g_comparison_rest(t, 1, a) == Read::Got(e, 5));
    assert(g_comparison(t, 0) == Read::Got(e, 5));
    lemma_and1(t, 0, e, 5);
    lemma_or1(t, 0, e, 5);
    let u = seq![word(x), sign(Kind::Not), sign(Kind::Between), word(y), sign(Kind::And), word(z)];
    let f = negated(e);
    assert(tok(u, 0) == word(x) && tok(u, 1) == sign(Kind::Not) && tok(u, 2) == sign(Kind::Between) && tok(u, 3) == word(y) && tok(u, 4) == sign(
        Kind::And,
    ) && tok(u, 5) == word(z) && tok(u, 6) == sign(Kind::Eof));
    lemma_name(u, 0, x);
    lemma_product1(u, 0, a, 1);
    lemma_sum1(u, 0, a, 1);
    lemma_alone(u, 3, y);
    lemma_alone(u, 5, z);
    assert(g_between(u, 3, a) == Read::Got(e, 6));
    assert(g_negatable(u, 2, a) == Read::Got(e, 6));
    assert(g_compare(u, 1, a) == Read::Got(f, 6));
    assert(g_comparison_rest(u, 6, f) == Read::Got(f, 6));
    assert(g_comparison_rest(u, 1, a) == Read::Got(f, 6));
    assert(g_comparison(u, 0) == Read::Got(f, 6));
    lemma_and1(u, 0, f, 6);
    lemma_or1(u, 0, f, 6);
}

} // verus!
