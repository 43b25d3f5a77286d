use vstd::prelude::*;
use crate::text::{digit_char, nat_text};
use super::ast::BinOp;
use super::grammar_laws::{arithmetic, comparing, sign};
use super::lexer::{digits_value, exponent_end, is_digit, mantissa_end, number_token, single_token, string_rest, token_at};
use super::sql_text::op_text;
use super::token::{Kind, TokenView};

verus! {

/// Whether the character `d` stands at `p`.
pub open spec fn stands(s: Seq<char>, p: int, d: char) -> bool {
    0 <= p < s.len() && s[p] == d
}

/// The signs of one character, whatever stands behind them.
pub proof fn law_single_signs(s: Seq<char>, p: int)
    requires
        0 <= p < s.len(),
    ensures
        s[p] == '(' ==> token_at(s, p) == Some((sign(Kind::LParen), p + 1)),
        s[p] == ')' ==> token_at(s, p) == Some((sign(Kind::RParen), p + 1)),
        s[p] == '[' ==> token_at(s, p) == Some((sign(Kind::LBracket), p + 1)),
        s[p] == ']' ==> token_at(s, p) == Some((sign(Kind::RBracket), p + 1)),
        s[p] == '{' ==> token_at(s, p) == Some((sign(Kind::LBrace), p + 1)),
        s[p] == '}' ==> token_at(s, p) == Some((sign(Kind::RBrace), p + 1)),
        s[p] == ',' ==> token_at(s, p) == Some((sign(Kind::Comma), p + 1)),
        s[p] == ';' ==> token_at(s, p) == Some((sign(Kind::Semicolon), p + 1)),
        s[p] == '.' ==> token_at(s, p) == Some((sign(Kind::Dot), p + 1)),
        s[p] == '+' ==> token_at(s, p) == Some((sign(Kind::Plus), p + 1)),
        s[p] == '-' ==> token_at(s, p) == Some((sign(Kind::Minus), p + 1)),
        s[p] == '*' ==> token_at(s, p) == Some((sign(Kind::Star), p + 1)),
        s[p] == '/' ==> token_at(s, p) == Some((sign(Kind::Slash), p + 1)),
        s[p] == '%' ==> token_at(s, p) == Some((sign(Kind::Percent), p + 1)),
{
}

/// The signs of comparisons: the longer one is read where it stands. `==` is `=`, and `!=` and `<>`
/// are one.
pub proof fn law_comparison_signs(s: Seq<char>, p: int)
    requires
        0 <= p < s.len(),
    ensures
        s[p] == '=' ==> token_at(s, p) == Some((sign(Kind::Eq), if stands(s, p + 1, '=') { p + 2 } else { p + 1 })),
        s[p] == '!' && stands(s, p + 1, '=') ==> token_at(s, p) == Some((sign(Kind::Neq), p + 2)),
        s[p] == '!' && !stands(s, p + 1, '=') ==> token_at(s, p) is None,
        s[p] == '<' && stands(s, p + 1, '=') ==> token_at(s, p) == Some((sign(Kind::Lte), p + 2)),
        s[p] == '<' && stands(s, p + 1, '>') ==> token_at(s, p) == Some((sign(Kind::Neq), p + 2)),
        s[p] == '<' && !stands(s, p + 1, '=') && !stands(s, p + 1, '>') ==> token_at(s, p) == Some((sign(Kind::Lt), p + 1)),
        s[p] == '>' && stands(s, p + 1, '=') ==> token_at(s, p) == Some((sign(Kind::Gte), p + 2)),
        s[p] == '>' && !stands(s, p + 1, '=') ==> token_at(s, p) == Some((sign(Kind::Gt), p + 1)),
        s[p] == ':' && stands(s, p + 1, ':') ==> token_at(s, p) == Some((sign(Kind::DoubleColon), p + 2)),
        s[p] == ':' && !stands(s, p + 1, ':') ==> token_at(s, p) == Some((sign(Kind::Colon), p + 1)),
        s[p] == '$' && stands(s, p + 1, '.') ==> token_at(s, p) == Some((sign(Kind::DollarDot), p + 2)),
{
}

/// The sign that an operation is written with is read as the same operation.
pub proof fn law_written_sign_is_read(op: BinOp, rest: Seq<char>)
    requires
        op != BinOp::And,
        op != BinOp::Or,
        op != BinOp::Like,
        op != BinOp::Ilike,
    ensures
        token_at(op_text(op) + seq![' '] + rest, 0) matches Some((TokenView::Kind(k), e)) && e == op_text(op).len() && (arithmetic(k, op, true)
            || arithmetic(k, op, false) || comparing(k, op)),
{
    reveal_strlit("=");
    reveal_strlit("<>");
    reveal_strlit("<");
    reveal_strlit(">");
    reveal_strlit("<=");
    reveal_strlit(">=");
    reveal_strlit("+");
    reveal_strlit("-");
    reveal_strlit("*");
    reveal_strlit("/");
    reveal_strlit("%");
    let s = op_text(op) + seq![' '] + rest;
    let n = op_text(op).len() as int;
    assert(1 <= n <= 2);
    assert(s[0] == op_text(op)[0]);
    assert(s[n] == ' ');
    if n == 2 {
        assert(s[1] == op_text(op)[1]);
    }
    law_single_signs(s, 0);
    law_comparison_signs(s, 0);
}

proof fn lemma_string(s: Seq<char>, p: int, e: int, quote: char, acc: Seq<char>)
    requires
        0 <= p <= e < s.len(),
        s[e] == quote,
        forall|i: int| p <= i < e ==> s[i] != quote && s[i] != '\\',
    ensures
        string_rest(s, p, quote, acc) == Some((acc + s.subrange(p, e), e + 1)),
    decreases e - p,
{
    if p == e {
        assert(acc + s.subrange(p, e) =~= acc);
    } else {
        lemma_string(s, p + 1, e, quote, acc.push(s[p]));
        assert(acc.push(s[p]) + s.subrange(p + 1, e) =~= acc + s.subrange(p, e));
    }
}

/// A string in quotes of either kind stands for what is between them.
pub proof fn law_string_token(t: Seq<char>, quote: char, rest: Seq<char>)
    requires
        quote == '\'' || quote == '"',
        forall|i: int| 0 <= i < t.len() ==> t[i] != quote && t[i] != '\\',
    ensures
        token_at(seq![quote] + t + seq![quote] + rest, 0) == Some((TokenView::StringLit(t), (t.len() + 2) as int)),
{
    let s = seq![quote] + t + seq![quote] + rest;
    let e = (t.len() + 1) as int;
    assert(s[0] == quote && s[e] == quote);
    assert forall|i: int| 1 <= i < e implies s[i] != quote && s[i] != '\\' by {
        assert(s[i] == t[i - 1]);
    }
    lemma_string(s, 1, e, quote, Seq::empty());
    assert(Seq::<char>::empty() + s.subrange(1, e) =~= t);
    assert(single_token(quote) is None);
}

/// A string whose quote is not closed is no token.
pub proof fn law_open_string(t: Seq<char>, quote: char)
    requires
        quote == '\'' || quote == '"',
        forall|i: int| 0 <= i < t.len() ==> t[i] != quote,
    ensures
        token_at(seq![quote] + t, 0) is None,
{
    let s = seq![quote] + t;
    assert(s[0] == quote);
    assert forall|i: int| 1 <= i < s.len() implies s[i] != quote by {
        assert(s[i] == t[i - 1]);
    }
    lemma_open(s, 1, quote, Seq::empty());
    assert(single_token(quote) is None);
}

proof fn lemma_open(s: Seq<char>, p: int, quote: char, acc: Seq<char>)
    requires
        1 <= p,
        forall|i: int| 1 <= i < s.len() ==> s[i] != quote,
    ensures
        string_rest(s, p, quote, acc) is None,
    decreases s.len() - p,
{
    if p < s.len() {
        if s[p] == '\\' {
            if p + 1 < s.len() {
                lemma_open(s, p + 2, quote, acc + super::lexer::unescape(s[p + 1]));
            }
        } else {
            lemma_open(s, p + 1, quote, acc.push(s[p]));
        }
    }
}

proof fn lemma_digits(n: nat)
    ensures
        nat_text(n).len() > 0,
        forall|i: int| 0 <= i < nat_text(n).len() ==> is_digit(#[trigger] nat_text(n)[i]),
        digits_value(nat_text(n)) == n,
    decreases n,
{
    reveal_with_fuel(digits_value, 2);
    let t = nat_text(n);
    if n < 10 {
        assert(t.drop_last() =~= Seq::empty());
        assert(is_digit(digit_char(n)));
    } else {
        lemma_digits(n / 10);
        let f = nat_text(n / 10);
        assert(t.drop_last() =~= f);
        assert(is_digit(digit_char(n % 10)));
        assert forall|i: int| 0 <= i < t.len() implies is_digit(#[trigger] t[i]) by {
            if i < f.len() {
                assert(is_digit(f[i]));
            }
        }
    }
}

proof fn lemma_mantissa(s: Seq<char>, p: int)
    requires
        0 <= p <= s.len(),
        forall|i: int| 0 <= i < s.len() ==> is_digit(#[trigger] s[i]),
    ensures
        mantissa_end(s, p, false) == (s.len() as int, false),
    decreases s.len() - p,
{
    if p < s.len() {
        assert(is_digit(s[p]));
        lemma_mantissa(s, p + 1);
    }
}

/// The digits of a number are read as the number; one that does not fit is refused.
pub proof fn law_integer_token(n: nat)
    ensures
        n <= i64::MAX ==> token_at(nat_text(n), 0) == Some((TokenView::IntLit(n as i64), nat_text(n).len() as int)),
        n > i64::MAX ==> token_at(nat_text(n), 0) is None,
{
    let s = nat_text(n);
    lemma_digits(n);
    lemma_mantissa(s, 0);
    assert(is_digit(s[0]));
    assert(exponent_end(s, s.len() as int) == (s.len() as int, false));
    assert(s.subrange(0, s.len() as int) =~= s);
    assert(single_token(s[0]) is None);
    assert(token_at(s, 0) == number_token(s, 0));
}

} // verus!
