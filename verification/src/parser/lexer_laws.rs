use vstd::prelude::*;
use super::lexer::{char_is_alphanumeric, char_is_whitespace, digits_end, exponent_end, hex_fault, hex_rest, hex_rest_fault, hex_token, is_digit, lemma_line_end, lemma_next_token, lemma_skip_space, lemma_token_start, line_end, mantissa_end, next_token_of, number_fault, number_token, skip_space, string_rest, text_fault, token_at, token_fault, token_start, tokens_of, unescape, word_end, word_token};
use super::token::{Kind, TokenView};

verus! {

/// What is read at a place, moved on by `n`.
spec fn moved<T>(r: Option<(T, int)>, n: int) -> Option<(T, int)> {
    match r {
        Some((x, q)) => Some((x, q + n)),
        None => None,
    }
}

proof fn lemma_skip_space_moves(a: Seq<char>, s: Seq<char>, p: int)
    requires
        0 <= p,
    ensures
        skip_space(a + s, a.len() + p) == a.len() + skip_space(s, p),
        skip_space(s, p) >= p,
    decreases s.len() - p,
{
    if p < s.len() {
        assert((a + s)[a.len() + p] == s[p]);
        if char_is_whitespace(s[p]) {
            lemma_skip_space_moves(a, s, p + 1);
        }
    }
}

proof fn lemma_line_end_moves(a: Seq<char>, s: Seq<char>, p: int)
    requires
        0 <= p,
    ensures
        line_end(a + s, a.len() + p) == a.len() + line_end(s, p),
        line_end(s, p) >= p,
    decreases s.len() - p,
{
    if p < s.len() {
        assert((a + s)[a.len() + p] == s[p]);
        if s[p] != '\n' {
            lemma_line_end_moves(a, s, p + 1);
        }
    }
}

proof fn lemma_word_end_moves(a: Seq<char>, s: Seq<char>, p: int)
    requires
        0 <= p <= s.len(),
    ensures
        word_end(a + s, a.len() + p) == a.len() + word_end(s, p),
        p <= word_end(s, p) <= s.len(),
    decreases s.len() - p,
{
    if p < s.len() {
        assert((a + s)[a.len() + p] == s[p]);
        if char_is_alphanumeric(s[p]) || s[p] == '_' {
            lemma_word_end_moves(a, s, p + 1);
        }
    }
}

proof fn lemma_digits_end_moves(a: Seq<char>, s: Seq<char>, p: int)
    requires
        0 <= p <= s.len(),
    ensures
        digits_end(a + s, a.len() + p) == a.len() + digits_end(s, p),
        p <= digits_end(s, p) <= s.len(),
    decreases s.len() - p,
{
    if p < s.len() {
        assert((a + s)[a.len() + p] == s[p]);
        if is_digit(s[p]) {
            lemma_digits_end_moves(a, s, p + 1);
        }
    }
}

proof fn lemma_mantissa_end_moves(a: Seq<char>, s: Seq<char>, p: int, pointed: bool)
    requires
        0 <= p <= s.len(),
    ensures
        mantissa_end(a + s, a.len() + p, pointed).0 == a.len() + mantissa_end(s, p, pointed).0,
        mantissa_end(a + s, a.len() + p, pointed).1 == mantissa_end(s, p, pointed).1,
        p <= mantissa_end(s, p, pointed).0 <= s.len(),
    decreases s.len() - p,
{
    if p < s.len() {
        assert((a + s)[a.len() + p] == s[p]);
        if is_digit(s[p]) {
            lemma_mantissa_end_moves(a, s, p + 1, pointed);
        } else if s[p] == '.' && !pointed {
            lemma_mantissa_end_moves(a, s, p + 1, true);
        }
    }
}

proof fn lemma_exponent_end_moves(a: Seq<char>, s: Seq<char>, p: int)
    requires
        0 <= p <= s.len(),
    ensures
        exponent_end(a + s, a.len() + p).0 == a.len() + exponent_end(s, p).0,
        exponent_end(a + s, a.len() + p).1 == exponent_end(s, p).1,
        p <= exponent_end(s, p).0 <= s.len(),
{
    let w = a + s;
    if p < s.len() {
        assert(w[a.len() + p] == s[p]);
    }
    if p + 1 < s.len() {
        assert(w[a.len() + p + 1] == s[p + 1]);
        lemma_digits_end_moves(a, s, p + 1);
    }
    if p + 2 < s.len() {
        assert(w[a.len() + p + 2] == s[p + 2]);
        lemma_digits_end_moves(a, s, p + 2);
    }
}

proof fn lemma_string_rest_moves(a: Seq<char>, s: Seq<char>, p: int, quote: char, acc: Seq<char>)
    requires
        0 <= p,
    ensures
        string_rest(a + s, a.len() + p, quote, acc) == moved(string_rest(s, p, quote, acc), a.len() as int),
    decreases s.len() - p,
{
    let w = a + s;
    if p < s.len() {
        assert(w[a.len() + p] == s[p]);
        if s[p] == '\\' && s[p] != quote {
            if p + 1 < s.len() {
                assert(w[a.len() + p + 1] == s[p + 1]);
                lemma_string_rest_moves(a, s, p + 2, quote, acc + unescape(s[p + 1]));
            }
        } else if s[p] != quote {
            lemma_string_rest_moves(a, s, p + 1, quote, acc.push(s[p]));
        }
    }
}

proof fn lemma_hex_rest_moves(a: Seq<char>, s: Seq<char>, p: int, acc: Seq<char>)
    requires
        0 <= p,
    ensures
        hex_rest(a + s, a.len() + p, acc) == moved(hex_rest(s, p, acc), a.len() as int),
        hex_rest_fault(a + s, a.len() + p) == hex_rest_fault(s, p),
    decreases s.len() - p,
{
    if p < s.len() {
        assert((a + s)[a.len() + p] == s[p]);
        if s[p] != '\'' {
            lemma_hex_rest_moves(a, s, p + 1, acc.push(s[p]));
            lemma_hex_rest_moves(a, s, p + 1, acc);
        }
    }
}

proof fn lemma_hex_token_moves(a: Seq<char>, s: Seq<char>, p: int)
    requires
        0 <= p,
    ensures
        hex_token(a + s, a.len() + p) == moved(hex_token(s, p), a.len() as int),
        hex_fault(a + s, a.len() + p) == hex_fault(s, p),
{
    if p + 1 < s.len() {
        assert((a + s)[a.len() + p + 1] == s[p + 1]);
        lemma_hex_rest_moves(a, s, p + 2, Seq::empty());
    }
}

proof fn lemma_token_moves(a: Seq<char>, s: Seq<char>, p: int)
    requires
        0 <= p < s.len(),
    ensures
        token_at(a + s, a.len() + p) == moved(token_at(s, p), a.len() as int),
        token_fault(a + s, a.len() + p) == token_fault(s, p),
{
    let w = a + s;
    let n = a.len() as int;
    assert(w[n + p] == s[p]);
    if p + 1 < s.len() {
        assert(w[n + p + 1] == s[p + 1]);
    }
    lemma_string_rest_moves(a, s, p + 1, s[p], Seq::empty());
    lemma_hex_token_moves(a, s, p);
    lemma_word_end_moves(a, s, p);
    assert(w.subrange(n + p, n + word_end(s, p)) =~= s.subrange(p, word_end(s, p)));
    assert(word_token(w, n + p) == moved(word_token(s, p), n));
    lemma_mantissa_end_moves(a, s, p, false);
    let m = mantissa_end(s, p, false).0;
    lemma_hex_token_moves(a, s, m);
    lemma_exponent_end_moves(a, s, m);
    if m + 1 < s.len() {
        assert(w[n + m + 1] == s[m + 1]);
    }
    let e = exponent_end(s, m).0;
    assert(w.subrange(n + p, n + e) =~= s.subrange(p, e));
    assert(number_token(w, n + p) == moved(number_token(s, p), n));
    assert(number_fault(w, n + p) == number_fault(s, p));
}

proof fn lemma_token_start_moves(a: Seq<char>, s: Seq<char>, p: int)
    requires
        0 <= p <= s.len(),
    ensures
        token_start(a + s, a.len() + p) == a.len() + token_start(s, p),
    decreases s.len() - p,
{
    let w = a + s;
    let n = a.len() as int;
    lemma_skip_space_moves(a, s, p);
    lemma_skip_space(s, p);
    let q = skip_space(s, p);
    if q < s.len() {
        assert(w[n + q] == s[q]);
    }
    if q + 1 < s.len() {
        assert(w[n + q + 1] == s[q + 1]);
        if s[q] == '-' && s[q + 1] == '-' {
            lemma_line_end_moves(a, s, q);
            lemma_line_end(s, q);
            lemma_token_start_moves(a, s, line_end(s, q));
        }
    }
}

proof fn lemma_tokens_move(a: Seq<char>, s: Seq<char>, p: int)
    requires
        0 <= p <= s.len(),
    ensures
        tokens_of(a + s, a.len() + p) == tokens_of(s, p),
        text_fault(a + s, a.len() + p) == text_fault(s, p),
    decreases s.len() - p,
{
    let w = a + s;
    let n = a.len() as int;
    lemma_token_start_moves(a, s, p);
    lemma_token_start(s, p);
    let q = token_start(s, p);
    if q < s.len() {
        lemma_token_moves(a, s, q);
    }
    lemma_next_token(s, p);
    assert(next_token_of(w, n + p) == moved(next_token_of(s, p), n));
    match next_token_of(s, p) {
        Some((t, e)) => {
            if t != TokenView::Kind(Kind::Eof) {
                lemma_tokens_move(a, s, e);
            }
        },
        None => {},
    }
}

proof fn lemma_blank_run(w: Seq<char>, s: Seq<char>, p: int)
    requires
        0 <= p <= w.len(),
        forall|i: int| 0 <= i < w.len() ==> char_is_whitespace(#[trigger] w[i]),
    ensures
        skip_space(w + s, p) == skip_space(w + s, w.len() as int),
    decreases w.len() - p,
{
    if p < w.len() {
        assert((w + s)[p] == w[p]);
        lemma_blank_run(w, s, p + 1);
    }
}

/// Blanks before a text change nothing: its tokens are the same, or what is wrong with it.
pub proof fn law_blanks_before(w: Seq<char>, s: Seq<char>)
    requires
        forall|i: int| 0 <= i < w.len() ==> char_is_whitespace(#[trigger] w[i]),
    ensures
        tokens_of(w + s, 0) == tokens_of(s, 0),
        text_fault(w + s, 0) == text_fault(s, 0),
{
    lemma_blank_run(w, s, 0);
    lemma_same_start(w + s, w.len() as int);
    lemma_tokens_move(w, s, 0);
}

/// Where the first token is looked for from `p` on as from the start, the tokens are those from `p`
/// on.
proof fn lemma_same_start(t: Seq<char>, p: int)
    requires
        0 <= p <= t.len(),
        token_start(t, 0) == token_start(t, p) || skip_space(t, 0) == skip_space(t, p),
    ensures
        tokens_of(t, 0) == tokens_of(t, p),
        text_fault(t, 0) == text_fault(t, p),
{
    assert(next_token_of(t, 0) == next_token_of(t, p));
}

proof fn lemma_comment_run(t: Seq<char>, p: int, e: int)
    requires
        0 <= p <= e <= t.len(),
        forall|i: int| p <= i < e ==> #[trigger] t[i] != '\n',
        e == t.len() || t[e] == '\n',
    ensures
        line_end(t, p) == e,
    decreases e - p,
{
    if p < e {
        assert(t[p] != '\n');
        lemma_comment_run(t, p + 1, e);
    }
}

/// A line comment before a text changes nothing: its tokens are the same, or what is wrong with it.
pub proof fn law_comment_before(c: Seq<char>, s: Seq<char>)
    requires
        forall|i: int| 0 <= i < c.len() ==> #[trigger] c[i] != '\n',
    ensures
        tokens_of(seq!['-', '-'] + c + seq!['\n'] + s, 0) == tokens_of(s, 0),
        text_fault(seq!['-', '-'] + c + seq!['\n'] + s, 0) == text_fault(s, 0),
{
    let a = seq!['-', '-'] + c + seq!['\n'];
    let t = a + s;
    let e = c.len() as int + 2;
    assert(t[0] == '-' && t[1] == '-');
    assert(t[e] == '\n');
    assert forall|i: int| 0 <= i < e implies #[trigger] t[i] != '\n' by {
        if i >= 2 {
            assert(t[i] == c[i - 2]);
        }
    }
    lemma_comment_run(t, 0, e);
    assert(!char_is_whitespace('-'));
    assert(skip_space(t, 0) == 0);
    assert(token_start(t, 0) == token_start(t, e));
    assert(char_is_whitespace('\n'));
    assert(skip_space(t, e) == skip_space(t, e + 1));
    assert(token_start(t, e) == token_start(t, e + 1));
    assert(t =~= a + s);
    lemma_same_start(t, e + 1);
    lemma_tokens_move(a, s, 0);
}

/// A text that is a line comment alone holds no token but the end.
pub proof fn law_comment_alone(c: Seq<char>)
    requires
        forall|i: int| 0 <= i < c.len() ==> #[trigger] c[i] != '\n',
    ensures
        tokens_of(seq!['-', '-'] + c, 0) == Some(seq![TokenView::Kind(Kind::Eof)]),
{
    let t = seq!['-', '-'] + c;
    let e = t.len() as int;
    assert(t[0] == '-' && t[1] == '-');
    assert forall|i: int| 0 <= i < e implies #[trigger] t[i] != '\n' by {
        if i >= 2 {
            assert(t[i] == c[i - 2]);
        }
    }
    lemma_comment_run(t, 0, e);
    assert(!char_is_whitespace('-'));
    assert(skip_space(t, 0) == 0);
    assert(token_start(t, 0) == token_start(t, e));
    assert(skip_space(t, e) == e);
    assert(token_start(t, e) == e);
}

/// The tokens of a text end with the end token, which stands nowhere else; each other token takes at
/// least one character.
pub proof fn law_tokens_end_once(s: Seq<char>, p: int)
    requires
        0 <= p <= s.len(),
    ensures
        tokens_of(s, p) matches Some(t) ==> 0 < t.len() <= s.len() - p + 1 && t.last() == TokenView::Kind(Kind::Eof) && forall|i: int|
            0 <= i < t.len() - 1 ==> #[trigger] t[i] != TokenView::Kind(Kind::Eof),
    decreases s.len() - p,
{
    lemma_next_token(s, p);
    match next_token_of(s, p) {
        Some((t, q)) => {
            if t != TokenView::Kind(Kind::Eof) {
                law_tokens_end_once(s, q);
                match tokens_of(s, q) {
                    Some(rest) => {
                        let all = seq![t] + rest;
                        assert(all.last() == rest.last());
                        assert forall|i: int| 0 <= i < all.len() - 1 implies #[trigger] all[i] != TokenView::Kind(Kind::Eof) by {
                            if i > 0 {
                                assert(all[i] == rest[i - 1]);
                            }
                        }
                    },
                    None => {},
                }
            }
        },
        None => {},
    }
}

/// Behind the end of a text there is nothing but the end token.
pub proof fn law_nothing_behind_the_end(s: Seq<char>)
    ensures
        tokens_of(s, s.len() as int) == Some(seq![TokenView::Kind(Kind::Eof)]),
{
    assert(skip_space(s, s.len() as int) == s.len());
    assert(token_start(s, s.len() as int) == s.len());
}

} // verus!
