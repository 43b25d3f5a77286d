use vstd::prelude::*;
use vstd::string::*;
use crate::error::QueryError;
use super::token::{Kind, Token, TokenView, ascii_upper, keyword_of, lemma_keyword_is_no_end};
use super::token::{tokens_view, tokens_push};
use crate::text::{chars_of, string_of};

verus! {

/// Whether Unicode counts a character as white space.
pub uninterp spec fn unicode_is_whitespace(c: char) -> bool;

/// Whether Unicode counts a character as alphabetic.
pub uninterp spec fn unicode_is_alphabetic(c: char) -> bool;

/// Whether Unicode counts a character as numeric.
pub uninterp spec fn unicode_is_numeric(c: char) -> bool;

pub open spec fn char_is_whitespace(c: char) -> bool {
    if (c as u32) < 128 {
        is_ascii_space(c)
    } else {
        unicode_is_whitespace(c)
    }
}

pub open spec fn char_is_alphabetic(c: char) -> bool {
    if (c as u32) < 128 {
        is_ascii_letter(c)
    } else {
        unicode_is_alphabetic(c)
    }
}

pub open spec fn char_is_numeric(c: char) -> bool {
    if (c as u32) < 128 {
        is_digit(c)
    } else {
        unicode_is_numeric(c)
    }
}

pub open spec fn char_is_alphanumeric(c: char) -> bool {
    char_is_alphabetic(c) || char_is_numeric(c)
}

pub open spec fn is_ascii_letter(c: char) -> bool {
    'a' <= c <= 'z' || 'A' <= c <= 'Z'
}

pub open spec fn is_digit(c: char) -> bool {
    '0' <= c <= '9'
}

pub open spec fn is_ascii_space(c: char) -> bool {
    c == ' ' || '\t' <= c <= '\r'
}

/// `char::is_whitespace` of the standard library: a property of the character alone. Among the
/// ASCII characters it holds of the space and of tab to carriage return.
pub assume_specification[ char::is_whitespace ](c: char) -> (r: bool)
    ensures
        (c as u32) < 128 ==> r == is_ascii_space(c),
        (c as u32) >= 128 ==> r == unicode_is_whitespace(c),
;

/// `char::is_alphabetic` of the standard library: a property of the character alone. Among the
/// ASCII characters it holds of the letters.
pub assume_specification[ char::is_alphabetic ](c: char) -> (r: bool)
    ensures
        (c as u32) < 128 ==> r == is_ascii_letter(c),
        (c as u32) >= 128 ==> r == unicode_is_alphabetic(c),
;

/// `char::is_alphanumeric` of the standard library: it holds of what `char::is_alphabetic` or
/// `char::is_numeric` holds of. Among the ASCII characters these are the letters and the digits.
pub assume_specification[ char::is_alphanumeric ](c: char) -> (r: bool)
    ensures
        (c as u32) < 128 ==> r == (is_ascii_letter(c) || is_digit(c)),
        (c as u32) >= 128 ==> r == (unicode_is_alphabetic(c) || unicode_is_numeric(c)),
;

pub open spec fn is_hex_digit(c: char) -> bool {
    is_digit(c) || 'a' <= c <= 'f' || 'A' <= c <= 'F'
}

/// The value of a hexadecimal digit; of any other character, zero.
pub open spec fn nibble(c: char) -> u8 {
    if is_digit(c) {
        (c as u8 - '0' as u8) as u8
    } else if 'a' <= c <= 'f' {
        (c as u8 - 'a' as u8 + 10) as u8
    } else if 'A' <= c <= 'F' {
        (c as u8 - 'A' as u8 + 10) as u8
    } else {
        0
    }
}

/// The bytes that hexadecimal digits spell, two digits to a byte; a missing last digit is a zero.
pub open spec fn hex_bytes(h: Seq<char>) -> Seq<u8> {
    Seq::new(
        ((h.len() + 1) / 2) as nat,
        |i: int| (16 * nibble(h[2 * i]) + (if 2 * i + 1 < h.len() { nibble(h[2 * i + 1]) } else { 0 })) as u8,
    )
}

pub fn hex_char_to_nibble(c: char) -> (r: u8)
    ensures
        r == nibble(c),
        r < 16,
{
    if '0' <= c && c <= '9' {
        (c as u8) - 48u8
    } else if 'a' <= c && c <= 'f' {
        (c as u8) - 97u8 + 10u8
    } else if 'A' <= c && c <= 'F' {
        (c as u8) - 65u8 + 10u8
    } else {
        0
    }
}

/// Decodes hexadecimal digits, two to a byte.
pub fn decode_hex(hex: &str) -> (bytes: Vec<u8>)
    ensures
        bytes@ == hex_bytes(hex@),
{
    let v = chars_of(hex);
    let mut bytes: Vec<u8> = Vec::new();
    let mut i: usize = 0;
    while i < v.len()
        invariant
            v@ == hex@,
            i <= v.len() || (i == v.len() + 1),
            i % 2 == 0,
            bytes@ == hex_bytes(hex@).take(i as int / 2),
            i as int / 2 <= hex_bytes(hex@).len(),
        decreases v.len() + 1 - i,
    {
        let high = hex_char_to_nibble(v[i]);
        let low = if i < v.len() - 1 { hex_char_to_nibble(v[i + 1]) } else { 0 };
        let ghost k = i as int / 2;
        proof {
            assert(2 * k == i);
            assert(hex_bytes(hex@)[k] == 16 * high + low);
            assert(hex_bytes(hex@).take(k + 1) =~= hex_bytes(hex@).take(k).push((16 * high + low) as u8));
        }
        bytes.push(high * 16u8 + low);
        if i < v.len() - 1 {
            i = i + 2;
        } else {
            proof {
                assert(hex_bytes(hex@).take(k + 1) =~= hex_bytes(hex@));
            }
            return bytes;
        }
    }
    assert(hex_bytes(hex@).take(i as int / 2) =~= hex_bytes(hex@));
    bytes
}

/// The first position from `p` on that holds no whitespace.
pub open spec fn skip_space(s: Seq<char>, p: int) -> int
    decreases s.len() - p,
{
    if 0 <= p < s.len() && char_is_whitespace(s[p]) {
        skip_space(s, p + 1)
    } else {
        p
    }
}

/// The first position from `p` on that holds a line end.
pub open spec fn line_end(s: Seq<char>, p: int) -> int
    decreases s.len() - p,
{
    if 0 <= p < s.len() && s[p] != '\n' {
        line_end(s, p + 1)
    } else {
        p
    }
}

/// The first position from `p` on that holds neither a letter, a digit nor an underscore.
pub open spec fn word_end(s: Seq<char>, p: int) -> int
    decreases s.len() - p,
{
    if 0 <= p < s.len() && (char_is_alphanumeric(s[p]) || s[p] == '_') {
        word_end(s, p + 1)
    } else {
        p
    }
}

/// The first position from `p` on that holds no digit.
pub open spec fn digits_end(s: Seq<char>, p: int) -> int
    decreases s.len() - p,
{
    if 0 <= p < s.len() && is_digit(s[p]) {
        digits_end(s, p + 1)
    } else {
        p
    }
}

/// Where digits with at most one point end, and whether a point was among them (or before).
pub open spec fn mantissa_end(s: Seq<char>, p: int, pointed: bool) -> (int, bool)
    decreases s.len() - p,
{
    if 0 <= p < s.len() && is_digit(s[p]) {
        mantissa_end(s, p + 1, pointed)
    } else if 0 <= p < s.len() && s[p] == '.' && !pointed {
        mantissa_end(s, p + 1, true)
    } else {
        (p, pointed)
    }
}

/// Where the exponent that may follow a number at `p` ends, and whether there is one.
pub open spec fn exponent_end(s: Seq<char>, p: int) -> (int, bool) {
    if p < s.len() && (s[p] == 'e' || s[p] == 'E') {
        let q = if p + 1 < s.len() && (s[p + 1] == '+' || s[p + 1] == '-') { p + 2 } else { p + 1 };
        if q < s.len() && is_digit(s[q]) {
            (digits_end(s, q), true)
        } else {
            (p, false)
        }
    } else {
        (p, false)
    }
}

/// The number that decimal digits spell.
pub open spec fn digits_value(d: Seq<char>) -> nat
    decreases d.len(),
{
    if d.len() == 0 {
        0
    } else {
        digits_value(d.drop_last()) * 10 + (d.last() as nat - '0' as nat) as nat
    }
}

/// The characters a backslash and the character after it stand for inside a string.
pub open spec fn unescape(c: char) -> Seq<char> {
    if c == 'n' {
        seq!['\n']
    } else if c == 't' {
        seq!['\t']
    } else if c == '\\' {
        seq!['\\']
    } else {
        seq!['\\', c]
    }
}

/// The rest of a string literal from `p` on, up to its closing quote: its text after `acc`, and
/// the position behind the quote. None where the quote is missing.
pub open spec fn string_rest(s: Seq<char>, p: int, quote: char, acc: Seq<char>) -> Option<(Seq<char>, int)>
    decreases s.len() - p,
{
    if p < 0 || p >= s.len() {
        None
    } else if s[p] == quote {
        Some((acc, p + 1))
    } else if s[p] == '\\' {
        if p + 1 < s.len() {
            string_rest(s, p + 2, quote, acc + unescape(s[p + 1]))
        } else {
            None
        }
    } else {
        string_rest(s, p + 1, quote, acc.push(s[p]))
    }
}

/// The rest of a blob literal from `p` on, up to its closing quote: its digits after `acc`, and
/// the position behind the quote. Whitespace among the digits is passed over; None where another
/// character stands there or the quote is missing.
pub open spec fn hex_rest(s: Seq<char>, p: int, acc: Seq<char>) -> Option<(Seq<char>, int)>
    decreases s.len() - p,
{
    if p < 0 || p >= s.len() {
        None
    } else if s[p] == '\'' {
        Some((acc, p + 1))
    } else if is_hex_digit(s[p]) {
        hex_rest(s, p + 1, acc.push(s[p]))
    } else if char_is_whitespace(s[p]) {
        hex_rest(s, p + 1, acc)
    } else {
        None
    }
}

/// The blob literal whose marker stands at `p`.
pub open spec fn hex_token(s: Seq<char>, p: int) -> Option<(TokenView, int)> {
    if p + 1 < s.len() && s[p + 1] == '\'' {
        match hex_rest(s, p + 2, Seq::empty()) {
            Some((digits, q)) => if digits.len() % 2 == 0 {
                Some((TokenView::HexBlob(hex_bytes(digits)), q))
            } else {
                None
            },
            None => None,
        }
    } else {
        None
    }
}

/// The number that starts at `p`, where a digit stands. `0x'..'` is a blob.
pub open spec fn number_token(s: Seq<char>, p: int) -> Option<(TokenView, int)> {
    let (m, pointed) = mantissa_end(s, p, false);
    if s[p] == '0' && m == p + 1 && m + 1 < s.len() && s[m + 1] == '\'' {
        hex_token(s, m)
    } else {
        let (e, scaled) = exponent_end(s, m);
        if pointed || scaled {
            Some((TokenView::FloatLit(s.subrange(p, e)), e))
        } else if digits_value(s.subrange(p, e)) <= i64::MAX {
            Some((TokenView::IntLit(digits_value(s.subrange(p, e)) as i64), e))
        } else {
            None
        }
    }
}

/// The keyword or identifier that starts at `p`; `x'..'` is a blob.
pub open spec fn word_token(s: Seq<char>, p: int) -> Option<(TokenView, int)> {
    if (s[p] == 'x' || s[p] == 'X') && p + 1 < s.len() && s[p + 1] == '\'' {
        hex_token(s, p)
    } else {
        let e = word_end(s, p);
        let w = s.subrange(p, e);
        match keyword_of(ascii_upper(w)) {
            Some(k) => Some((k, e)),
            None => Some((TokenView::Ident(w), e)),
        }
    }
}

/// What is wrong with a blob literal whose digits run from `p` on.
pub open spec fn hex_rest_fault(s: Seq<char>, p: int) -> Seq<char>
    decreases s.len() - p,
{
    if p < 0 || p >= s.len() {
        "Unterminated blob literal"@
    } else if s[p] == '\'' {
        "Blob literal must have even number of hex digits"@
    } else if is_hex_digit(s[p]) || char_is_whitespace(s[p]) {
        hex_rest_fault(s, p + 1)
    } else {
        "Invalid hex character '"@.push(s[p]) + "' in blob literal"@
    }
}

/// What is wrong with the blob literal whose marker stands at `p`.
pub open spec fn hex_fault(s: Seq<char>, p: int) -> Seq<char> {
    if p + 1 < s.len() && s[p + 1] == '\'' {
        hex_rest_fault(s, p + 2)
    } else {
        "Expected ''' after x"@
    }
}

/// What is wrong with the number that starts at `p`.
pub open spec fn number_fault(s: Seq<char>, p: int) -> Seq<char> {
    let (m, pointed) = mantissa_end(s, p, false);
    if s[p] == '0' && m == p + 1 && m + 1 < s.len() && s[m + 1] == '\'' {
        hex_fault(s, m)
    } else {
        "Invalid integer: "@ + s.subrange(p, exponent_end(s, m).0)
    }
}

/// What is wrong where no token can be read at `p`.
pub open spec fn token_fault(s: Seq<char>, p: int) -> Seq<char> {
    let c = s[p];
    if c == '$' {
        "Expected '.' after '$'"@
    } else if c == '!' {
        "Expected '=' after '!'"@
    } else if c == '"' || c == '\'' {
        "Unterminated string"@
    } else if is_digit(c) {
        number_fault(s, p)
    } else if char_is_alphabetic(c) || c == '_' {
        hex_fault(s, p)
    } else {
        "Unexpected character: '"@.push(c) + "'"@
    }
}

/// What is wrong with the first token from `p` on that cannot be read.
pub open spec fn text_fault(s: Seq<char>, p: int) -> Seq<char>
    decreases s.len() - p,
{
    if p < 0 || p > s.len() {
        Seq::empty()
    } else {
        match next_token_of(s, p) {
            None => token_fault(s, token_start(s, p)),
            Some((t, q)) => if t == TokenView::Kind(Kind::Eof) {
                Seq::empty()
            } else {
                proof {
                    lemma_next_token(s, p);
                }
                text_fault(s, q)
            },
        }
    }
}

/// Whether an error is a parse error with the message `m`.
pub open spec fn says(e: QueryError, m: Seq<char>) -> bool {
    e matches QueryError::Parse(x) && x@ == m
}

/// The token made of one character, for the characters that are always a token by themselves.
pub open spec fn single_token(c: char) -> Option<TokenView> {
    if c == '(' {
        Some(TokenView::Kind(Kind::LParen))
    } else if c == ')' {
        Some(TokenView::Kind(Kind::RParen))
    } else if c == '{' {
        Some(TokenView::Kind(Kind::LBrace))
    } else if c == '}' {
        Some(TokenView::Kind(Kind::RBrace))
    } else if c == '[' {
        Some(TokenView::Kind(Kind::LBracket))
    } else if c == ']' {
        Some(TokenView::Kind(Kind::RBracket))
    } else if c == ',' {
        Some(TokenView::Kind(Kind::Comma))
    } else if c == ';' {
        Some(TokenView::Kind(Kind::Semicolon))
    } else if c == '+' {
        Some(TokenView::Kind(Kind::Plus))
    } else if c == '-' {
        Some(TokenView::Kind(Kind::Minus))
    } else if c == '*' {
        Some(TokenView::Kind(Kind::Star))
    } else if c == '/' {
        Some(TokenView::Kind(Kind::Slash))
    } else if c == '%' {
        Some(TokenView::Kind(Kind::Percent))
    } else if c == '.' {
        Some(TokenView::Kind(Kind::Dot))
    } else {
        None
    }
}

/// The token at `p`, where neither whitespace nor a comment stands, and the position behind it.
/// None where no token can be read.
pub open spec fn token_at(s: Seq<char>, p: int) -> Option<(TokenView, int)> {
    let c = s[p];
    let followed_by = |d: char| p + 1 < s.len() && s[p + 1] == d;
    if single_token(c) is Some {
        Some((single_token(c)->0, p + 1))
    } else if c == ':' {
        if followed_by(':') {
            Some((TokenView::Kind(Kind::DoubleColon), p + 2))
        } else {
            Some((TokenView::Kind(Kind::Colon), p + 1))
        }
    } else if c == '$' {
        if followed_by('.') {
            Some((TokenView::Kind(Kind::DollarDot), p + 2))
        } else {
            None
        }
    } else if c == '=' {
        Some((TokenView::Kind(Kind::Eq), if followed_by('=') { p + 2 } else { p + 1 }))
    } else if c == '!' {
        if followed_by('=') {
            Some((TokenView::Kind(Kind::Neq), p + 2))
        } else {
            None
        }
    } else if c == '<' {
        if followed_by('=') {
            Some((TokenView::Kind(Kind::Lte), p + 2))
        } else if followed_by('>') {
            Some((TokenView::Kind(Kind::Neq), p + 2))
        } else {
            Some((TokenView::Kind(Kind::Lt), p + 1))
        }
    } else if c == '>' {
        if followed_by('=') {
            Some((TokenView::Kind(Kind::Gte), p + 2))
        } else {
            Some((TokenView::Kind(Kind::Gt), p + 1))
        }
    } else if c == '"' || c == '\'' {
        match string_rest(s, p + 1, c, Seq::empty()) {
            Some((t, q)) => Some((TokenView::StringLit(t), q)),
            None => None,
        }
    } else if is_digit(c) {
        number_token(s, p)
    } else if char_is_alphabetic(c) || c == '_' {
        word_token(s, p)
    } else {
        None
    }
}

/// Where the next token starts: behind whitespace and comments, each of which runs from two
/// dashes to the end of its line.
pub open spec fn token_start(s: Seq<char>, p: int) -> int
    decreases s.len() - p,
{
    let q = skip_space(s, p);
    if 0 <= p && q + 1 < s.len() && s[q] == '-' && s[q + 1] == '-' {
        proof {
            lemma_skip_space(s, p);
            lemma_line_end(s, q);
        }
        token_start(s, line_end(s, q))
    } else {
        q
    }
}

/// The next token from `p` on and the position behind it; at the end of the text, the end token.
pub open spec fn next_token_of(s: Seq<char>, p: int) -> Option<(TokenView, int)> {
    let q = token_start(s, p);
    if q >= s.len() {
        Some((TokenView::Kind(Kind::Eof), q))
    } else {
        token_at(s, q)
    }
}

/// All tokens from `p` on, with the end token behind them. None where a token cannot be read.
pub open spec fn tokens_of(s: Seq<char>, p: int) -> Option<Seq<TokenView>>
    decreases s.len() - p,
{
    if p < 0 || p > s.len() {
        None
    } else {
        match next_token_of(s, p) {
            None => None,
            Some((t, q)) => if t == TokenView::Kind(Kind::Eof) {
                Some(seq![t])
            } else {
                proof {
                    lemma_next_token(s, p);
                }
                match tokens_of(s, q) {
                    None => None,
                    Some(rest) => Some(seq![t] + rest),
                }
            },
        }
    }
}

pub proof fn lemma_skip_space(s: Seq<char>, p: int)
    requires
        0 <= p <= s.len(),
    ensures
        p <= skip_space(s, p) <= s.len(),
    decreases s.len() - p,
{
    if p < s.len() && char_is_whitespace(s[p]) {
        lemma_skip_space(s, p + 1);
    }
}

pub proof fn lemma_line_end(s: Seq<char>, p: int)
    requires
        0 <= p <= s.len(),
    ensures
        p <= line_end(s, p) <= s.len(),
        p < s.len() && s[p] != '\n' ==> p < line_end(s, p),
    decreases s.len() - p,
{
    if p < s.len() && s[p] != '\n' {
        lemma_line_end(s, p + 1);
    }
}

proof fn lemma_word_end(s: Seq<char>, p: int)
    requires
        0 <= p <= s.len(),
    ensures
        p <= word_end(s, p) <= s.len(),
    decreases s.len() - p,
{
    if p < s.len() && (char_is_alphanumeric(s[p]) || s[p] == '_') {
        lemma_word_end(s, p + 1);
    }
}

proof fn lemma_digits_end(s: Seq<char>, p: int)
    requires
        0 <= p <= s.len(),
    ensures
        p <= digits_end(s, p) <= s.len(),
    decreases s.len() - p,
{
    if p < s.len() && is_digit(s[p]) {
        lemma_digits_end(s, p + 1);
    }
}

proof fn lemma_mantissa_end(s: Seq<char>, p: int, pointed: bool)
    requires
        0 <= p <= s.len(),
    ensures
        p <= mantissa_end(s, p, pointed).0 <= s.len(),
    decreases s.len() - p,
{
    if p < s.len() && is_digit(s[p]) {
        lemma_mantissa_end(s, p + 1, pointed);
    } else if p < s.len() && s[p] == '.' && !pointed {
        lemma_mantissa_end(s, p + 1, true);
    }
}

proof fn lemma_string_rest(s: Seq<char>, p: int, quote: char, acc: Seq<char>)
    requires
        0 <= p,
    ensures
        string_rest(s, p, quote, acc) matches Some((_, q)) ==> p < q <= s.len(),
    decreases s.len() - p,
{
    if p < s.len() && s[p] != quote {
        if s[p] == '\\' {
            if p + 1 < s.len() {
                lemma_string_rest(s, p + 2, quote, acc + unescape(s[p + 1]));
            }
        } else {
            lemma_string_rest(s, p + 1, quote, acc.push(s[p]));
        }
    }
}

proof fn lemma_hex_rest(s: Seq<char>, p: int, acc: Seq<char>)
    requires
        0 <= p,
    ensures
        hex_rest(s, p, acc) matches Some((_, q)) ==> p < q <= s.len(),
    decreases s.len() - p,
{
    if p < s.len() && s[p] != '\'' {
        if is_hex_digit(s[p]) {
            lemma_hex_rest(s, p + 1, acc.push(s[p]));
        } else if char_is_whitespace(s[p]) {
            lemma_hex_rest(s, p + 1, acc);
        }
    }
}

pub proof fn lemma_token_start(s: Seq<char>, p: int)
    requires
        0 <= p <= s.len(),
    ensures
        p <= token_start(s, p) <= s.len(),
    decreases s.len() - p,
{
    lemma_skip_space(s, p);
    let q = skip_space(s, p);
    if q + 1 < s.len() && s[q] == '-' && s[q + 1] == '-' {
        lemma_line_end(s, q);
        lemma_token_start(s, line_end(s, q));
    }
}

/// A token that can be read takes up at least one character.
pub proof fn lemma_next_token(s: Seq<char>, p: int)
    requires
        0 <= p <= s.len(),
    ensures
        next_token_of(s, p) matches Some((t, q)) ==> (if t == TokenView::Kind(Kind::Eof) { q == s.len() } else { p < q <= s.len() }),
{
    lemma_token_start(s, p);
    let q = token_start(s, p);
    if q < s.len() {
        let c = s[q];
        if c == '"' || c == '\'' {
            lemma_string_rest(s, q + 1, c, Seq::empty());
        }
        lemma_word_end(s, q);
        if char_is_alphabetic(c) || c == '_' {
            lemma_word_end(s, q + 1);
            lemma_keyword_is_no_end(ascii_upper(s.subrange(q, word_end(s, q))));
        }
        lemma_mantissa_end(s, q, false);
        let (m, pointed) = mantissa_end(s, q, false);
        if is_digit(c) {
            lemma_mantissa_end(s, q + 1, false);
        }
        lemma_hex_rest(s, m + 2, Seq::empty());
        lemma_hex_rest(s, q + 2, Seq::empty());
        lemma_digits_end(s, m);
        if m + 1 <= s.len() {
            lemma_digits_end(s, m + 1);
        }
        if m + 2 <= s.len() {
            lemma_digits_end(s, m + 2);
        }
    }
}

/// Reads the tokens of a statement's text.
pub struct Lexer {
    input: Vec<char>,
    pos: usize,
}

impl Lexer {
    /// The text that is read.
    pub closed spec fn input(&self) -> Seq<char> {
        self.input@
    }

    /// How many of its characters have been read.
    pub closed spec fn pos(&self) -> int {
        self.pos as int
    }

    pub open spec fn wf(&self) -> bool {
        0 <= self.pos() <= self.input().len()
    }

    pub fn new(input: &str) -> (r: Self)
        ensures
            r.wf(),
            r.input() == input@,
            r.pos() == 0,
    {
        Lexer { input: chars_of(input), pos: 0 }
    }

    /// Reads all tokens that are left, the end token included.
    pub fn tokenize(&mut self) -> (r: Result<Vec<Token>, QueryError>)
        requires
            old(self).wf(),
        ensures
            final(self).wf(),
            final(self).input() == old(self).input(),
            match r {
                Ok(ts) => tokens_of(old(self).input(), old(self).pos()) == Some(tokens_view(ts@)) && final(self).pos()
                    == final(self).input().len(),
                Err(e) => tokens_of(old(self).input(), old(self).pos()) is None && says(
                    e,
                    text_fault(old(self).input(), old(self).pos()),
                ),
            },
    {
        let mut tokens: Vec<Token> = Vec::new();
        let ghost all = tokens_of(self.input(), self.pos());
        proof {
            assert(tokens_view(tokens@) =~= Seq::empty());
            assert(all matches Some(a) ==> Seq::<TokenView>::empty() + a =~= a);
        }
        loop
            invariant
                self.wf(),
                self.input() == old(self).input(),
                all == tokens_of(old(self).input(), old(self).pos()),
                match tokens_of(self.input(), self.pos()) {
                    Some(rest) => all == Some(tokens_view(tokens@) + rest),
                    None => all is None && text_fault(self.input(), self.pos()) == text_fault(old(self).input(), old(self).pos()),
                },
            decreases self.input().len() - self.pos(),
        {
            proof {
                lemma_next_token(self.input(), self.pos());
            }
            let tok = match self.next_token() {
                Ok(t) => t,
                Err(e) => return Err(e),
            };
            let end = matches!(tok, Token::Kind(Kind::Eof));
            proof {
                tokens_push(tokens@, tok);
                let before = tokens_view(tokens@);
                assert(before.push(tok@) =~= before + seq![tok@]);
                if !end {
                    match tokens_of(self.input(), self.pos()) {
                        Some(rest) => {
                            assert(before + (seq![tok@] + rest) =~= before.push(tok@) + rest);
                        },
                        None => {},
                    }
                }
            }
            tokens.push(tok);
            if end {
                return Ok(tokens);
            }
        }
    }

    pub fn next_token(&mut self) -> (r: Result<Token, QueryError>)
        requires
            old(self).wf(),
        ensures
            final(self).wf(),
            final(self).input() == old(self).input(),
            match r {
                Ok(t) => next_token_of(old(self).input(), old(self).pos()) == Some((t@, final(self).pos())),
                Err(e) => next_token_of(old(self).input(), old(self).pos()) is None && says(
                    e,
                    token_fault(old(self).input(), token_start(old(self).input(), old(self).pos())),
                ),
            },
        decreases old(self).input().len() - old(self).pos(),
    {
        proof {
            lemma_next_token(self.input(), self.pos());
            lemma_skip_space(self.input(), self.pos());
        }
        let ghost start = self.pos();
        self.skip_whitespace();
        if self.pos >= self.input.len() {
            return Ok(Token::Kind(Kind::Eof));
        }
        let ch = self.input[self.pos];
        if ch == '-' && self.next_is('-') {
            proof {
                lemma_line_end(self.input(), self.pos());
            }
            self.skip_line_comment();
            return self.next_token();
        }
        let ghost p = self.pos();
        proof {
            assert(token_start(self.input(), start) == p);
        }
        match Self::single(ch) {
            Some(t) => {
                self.pos = self.pos + 1;
                return Ok(t);
            },
            None => {},
        }
        if ch == ':' {
            if self.next_is(':') {
                self.pos = self.pos + 2;
                Ok(Token::Kind(Kind::DoubleColon))
            } else {
                self.pos = self.pos + 1;
                Ok(Token::Kind(Kind::Colon))
            }
        } else if ch == '$' {
            if self.next_is('.') {
                self.pos = self.pos + 2;
                Ok(Token::Kind(Kind::DollarDot))
            } else {
                self.pos = self.pos + 1;
                Err(QueryError::Parse("Expected '.' after '$'".to_string()))
            }
        } else if ch == '=' {
            if self.next_is('=') {
                self.pos = self.pos + 2;
            } else {
                self.pos = self.pos + 1;
            }
            Ok(Token::Kind(Kind::Eq))
        } else if ch == '!' {
            if self.next_is('=') {
                self.pos = self.pos + 2;
                Ok(Token::Kind(Kind::Neq))
            } else {
                self.pos = self.pos + 1;
                Err(QueryError::Parse("Expected '=' after '!'".to_string()))
            }
        } else if ch == '<' {
            if self.next_is('=') {
                self.pos = self.pos + 2;
                Ok(Token::Kind(Kind::Lte))
            } else if self.next_is('>') {
                self.pos = self.pos + 2;
                Ok(Token::Kind(Kind::Neq))
            } else {
                self.pos = self.pos + 1;
                Ok(Token::Kind(Kind::Lt))
            }
        } else if ch == '>' {
            if self.next_is('=') {
                self.pos = self.pos + 2;
                Ok(Token::Kind(Kind::Gte))
            } else {
                self.pos = self.pos + 1;
                Ok(Token::Kind(Kind::Gt))
            }
        } else if ch == '"' || ch == '\'' {
            self.read_string(ch)
        } else if '0' <= ch && ch <= '9' {
            self.read_number()
        } else if ch.is_alphabetic() || ch == '_' {
            self.read_word()
        } else {
            self.pos = self.pos + 1;
            let mut what = String::new();
            what.push(ch);
            assert("Unexpected character: '"@ + what@ =~= "Unexpected character: '"@.push(ch));
            Err(QueryError::Parse(crate::text::join3("Unexpected character: '", what.as_str(), "'")))
        }
    }

    fn single(c: char) -> (r: Option<Token>)
        ensures
            (match r { Some(t) => Some(t@), None => None }) == single_token(c),
    {
        match c {
            '(' => Some(Token::Kind(Kind::LParen)),
            ')' => Some(Token::Kind(Kind::RParen)),
            '{' => Some(Token::Kind(Kind::LBrace)),
            '}' => Some(Token::Kind(Kind::RBrace)),
            '[' => Some(Token::Kind(Kind::LBracket)),
            ']' => Some(Token::Kind(Kind::RBracket)),
            ',' => Some(Token::Kind(Kind::Comma)),
            ';' => Some(Token::Kind(Kind::Semicolon)),
            '+' => Some(Token::Kind(Kind::Plus)),
            '-' => Some(Token::Kind(Kind::Minus)),
            '*' => Some(Token::Kind(Kind::Star)),
            '/' => Some(Token::Kind(Kind::Slash)),
            '%' => Some(Token::Kind(Kind::Percent)),
            '.' => Some(Token::Kind(Kind::Dot)),
            _ => None,
        }
    }

    /// Reads the keyword, identifier or blob that starts here.
    fn read_word(&mut self) -> (r: Result<Token, QueryError>)
        requires
            old(self).wf(),
            old(self).pos() < old(self).input().len(),
        ensures
            final(self).wf(),
            final(self).input() == old(self).input(),
            match r {
                Ok(t) => word_token(old(self).input(), old(self).pos()) == Some((t@, final(self).pos())),
                Err(e) => word_token(old(self).input(), old(self).pos()) is None && says(
                    e,
                    hex_fault(old(self).input(), old(self).pos()),
                ),
            },
    {
        let start = self.pos;
        let first = self.input[self.pos];
        if (first == 'x' || first == 'X') && self.next_is('\'') {
            return self.read_hex_blob();
        }
        while self.pos < self.input.len() && (self.input[self.pos].is_alphanumeric() || self.input[self.pos] == '_')
            invariant
                self.wf(),
                self.input() == old(self).input(),
                start as int == old(self).pos() <= self.pos(),
                word_end(self.input(), self.pos()) == word_end(self.input(), start as int),
            decreases self.input().len() - self.pos(),
        {
            self.pos = self.pos + 1;
        }
        let word = string_of(&self.input, start, self.pos);
        match Token::is_keyword(word.as_str()) {
            Some(k) => Ok(k),
            None => Ok(Token::Ident(word)),
        }
    }

    pub fn read_string(&mut self, quote: char) -> (r: Result<Token, QueryError>)
        requires
            old(self).wf(),
            old(self).pos() < old(self).input().len(),
        ensures
            final(self).wf(),
            final(self).input() == old(self).input(),
            match r {
                Ok(t) => match string_rest(old(self).input(), old(self).pos() + 1, quote, Seq::empty()) {
                    Some((text, q)) => t@ == TokenView::StringLit(text) && final(self).pos() == q,
                    None => false,
                },
                Err(e) => string_rest(old(self).input(), old(self).pos() + 1, quote, Seq::empty()) is None && says(
                    e,
                    "Unterminated string"@,
                ),
            },
    {
        let ghost whole = string_rest(self.input(), self.pos() + 1, quote, Seq::empty());
        assert(self.pos < self.input.len());
        self.pos = self.pos + 1;
        let mut s = String::new();
        proof {
            assert(s@ =~= Seq::<char>::empty());
        }
        while self.pos < self.input.len() && self.input[self.pos] != quote
            invariant
                self.wf(),
                self.input() == old(self).input(),
                whole == string_rest(old(self).input(), old(self).pos() + 1, quote, Seq::empty()),
                whole == string_rest(self.input(), self.pos(), quote, s@),
            decreases self.input().len() - self.pos(),
        {
            let ghost before = s@;
            if self.input[self.pos] == '\\' {
                if self.pos + 1 >= self.input.len() {
                    self.pos = self.input.len();
                    return Err(QueryError::Parse("Unterminated string".to_string()));
                }
                let c = self.input[self.pos + 1];
                if c == 'n' {
                    s.push('\n');
                } else if c == 't' {
                    s.push('\t');
                } else if c == '\\' {
                    s.push('\\');
                } else {
                    s.push('\\');
                    s.push(c);
                }
                proof {
                    assert(s@ =~= before + unescape(c));
                }
                self.pos = self.pos + 2;
            } else {
                s.push(self.input[self.pos]);
                self.pos = self.pos + 1;
            }
        }
        if self.pos >= self.input.len() {
            return Err(QueryError::Parse("Unterminated string".to_string()));
        }
        self.pos = self.pos + 1;
        Ok(Token::StringLit(s))
    }

    pub fn read_number(&mut self) -> (r: Result<Token, QueryError>)
        requires
            old(self).wf(),
            old(self).pos() < old(self).input().len(),
            is_digit(old(self).input()[old(self).pos()]),
        ensures
            final(self).wf(),
            final(self).input() == old(self).input(),
            match r {
                Ok(t) => number_token(old(self).input(), old(self).pos()) == Some((t@, final(self).pos())),
                Err(e) => number_token(old(self).input(), old(self).pos()) is None && says(
                    e,
                    number_fault(old(self).input(), old(self).pos()),
                ),
            },
    {
        let start = self.pos;
        let mut is_float = false;
        let mut going = true;
        while going && self.pos < self.input.len() && (is_ascii_digit(self.input[self.pos]) || self.input[self.pos]
            == '.')
            invariant
                self.wf(),
                self.input() == old(self).input(),
                start as int == old(self).pos() <= self.pos(),
                going ==> mantissa_end(self.input(), self.pos(), is_float) == mantissa_end(
                    self.input(),
                    start as int,
                    false,
                ),
                !going ==> (self.pos(), is_float) == mantissa_end(self.input(), start as int, false),
                !is_float ==> forall|i: int| start <= i < self.pos() ==> is_digit(self.input()[i]),
                self.pos() == start ==> going && !is_float,
            decreases self.input().len() - self.pos() + (if going { 1int } else { 0int }),
        {
            if self.input[self.pos] == '.' {
                if is_float {
                    going = false;
                } else {
                    is_float = true;
                    self.pos = self.pos + 1;
                }
            } else {
                self.pos = self.pos + 1;
            }
        }
        proof {
            assert(mantissa_end(self.input(), start as int, false) == (self.pos(), is_float));
        }
        if self.input[start] == '0' && self.pos == start + 1 && self.next_is('\'') {
            return self.read_hex_blob();
        }
        let ghost m = self.pos();
        let ghost pointed = is_float;
        if self.pos < self.input.len() && (self.input[self.pos] == 'e' || self.input[self.pos] == 'E') {
            let mut look: usize = self.pos + 1;
            if look < self.input.len() && (self.input[look] == '+' || self.input[look] == '-') {
                look = look + 1;
            }
            if look < self.input.len() && is_ascii_digit(self.input[look]) {
                is_float = true;
                self.pos = look;
                while self.pos < self.input.len() && is_ascii_digit(self.input[self.pos])
                    invariant
                        self.wf(),
                        self.input() == old(self).input(),
                        look <= self.pos(),
                        digits_end(self.input(), self.pos()) == digits_end(self.input(), look as int),
                    decreases self.input().len() - self.pos(),
                {
                    self.pos = self.pos + 1;
                }
            }
        }
        proof {
            lemma_digits_end(self.input(), self.pos());
        }
        if is_float {
            Ok(Token::FloatLit(string_of(&self.input, start, self.pos)))
        } else {
            match parse_digits(&self.input, start, self.pos) {
                Some(n) => Ok(Token::IntLit(n)),
                None => {
                    let digits = string_of(&self.input, start, self.pos);
                    Err(QueryError::Parse(crate::text::join2("Invalid integer: ", digits.as_str())))
                },
            }
        }
    }

    pub fn skip_whitespace(&mut self)
        requires
            old(self).wf(),
        ensures
            final(self).wf(),
            final(self).input() == old(self).input(),
            final(self).pos() == skip_space(old(self).input(), old(self).pos()),
    {
        while self.pos < self.input.len() && self.input[self.pos].is_whitespace()
            invariant
                self.wf(),
                self.input() == old(self).input(),
                skip_space(self.input(), self.pos()) == skip_space(old(self).input(), old(self).pos()),
            decreases self.input().len() - self.pos(),
        {
            self.pos = self.pos + 1;
        }
    }

    pub fn skip_line_comment(&mut self)
        requires
            old(self).wf(),
        ensures
            final(self).wf(),
            final(self).input() == old(self).input(),
            final(self).pos() == line_end(old(self).input(), old(self).pos()),
    {
        while self.pos < self.input.len() && self.input[self.pos] != '\n'
            invariant
                self.wf(),
                self.input() == old(self).input(),
                line_end(self.input(), self.pos()) == line_end(old(self).input(), old(self).pos()),
            decreases self.input().len() - self.pos(),
        {
            self.pos = self.pos + 1;
        }
    }

    pub fn read_hex_blob(&mut self) -> (r: Result<Token, QueryError>)
        requires
            old(self).wf(),
            old(self).pos() < old(self).input().len(),
        ensures
            final(self).wf(),
            final(self).input() == old(self).input(),
            match r {
                Ok(t) => hex_token(old(self).input(), old(self).pos()) == Some((t@, final(self).pos())),
                Err(e) => hex_token(old(self).input(), old(self).pos()) is None && says(
                    e,
                    hex_fault(old(self).input(), old(self).pos()),
                ),
            },
    {
        assert(self.pos < self.input.len());
        self.pos = self.pos + 1;
        if self.pos >= self.input.len() || self.input[self.pos] != '\'' {
            return Err(QueryError::Parse("Expected ''' after x".to_string()));
        }
        self.pos = self.pos + 1;
        let mut hex = String::new();
        let ghost whole = hex_rest(self.input(), self.pos(), Seq::empty());
        let mut count: usize = 0;
        proof {
            assert(hex@ =~= Seq::<char>::empty());
        }
        while self.pos < self.input.len() && self.input[self.pos] != '\''
            invariant
                self.wf(),
                self.input() == old(self).input(),
                old(self).pos() + 1 < self.input().len(),
                self.input()[old(self).pos() + 1] == '\'',
                whole == hex_rest(old(self).input(), old(self).pos() + 2, Seq::empty()),
                whole == hex_rest(self.input(), self.pos(), hex@),
                hex_rest_fault(self.input(), self.pos()) == hex_rest_fault(old(self).input(), old(self).pos() + 2),
                count == hex@.len(),
                count <= self.pos(),
            decreases self.input().len() - self.pos(),
        {
            let c = self.input[self.pos];
            if is_ascii_digit(c) || ('a' <= c && c <= 'f') || ('A' <= c && c <= 'F') {
                hex.push(c);
                count = count + 1;
            } else if !c.is_whitespace() {
                let mut what = String::new();
                what.push(c);
                assert("Invalid hex character '"@ + what@ =~= "Invalid hex character '"@.push(c));
                return Err(
                    QueryError::Parse(crate::text::join3("Invalid hex character '", what.as_str(), "' in blob literal")),
                );
            }
            self.pos = self.pos + 1;
        }
        if self.pos >= self.input.len() {
            return Err(QueryError::Parse("Unterminated blob literal".to_string()));
        }
        self.pos = self.pos + 1;
        if count % 2 != 0 {
            return Err(QueryError::Parse("Blob literal must have even number of hex digits".to_string()));
        }
        let bytes = decode_hex(hex.as_str());
        Ok(Token::HexBlob(bytes))
    }

    /// The character behind the next one.
    pub fn peek_next(&self) -> (r: Option<char>)
        requires
            self.wf(),
        ensures
            r == (if self.pos() + 1 < self.input().len() { Some(self.input()[self.pos() + 1]) } else { None }),
    {
        if self.pos < self.input.len() && self.pos + 1 < self.input.len() {
            Some(self.input[self.pos + 1])
        } else {
            None
        }
    }

    fn next_is(&self, c: char) -> (r: bool)
        requires
            self.wf(),
        ensures
            r == (self.pos() + 1 < self.input().len() && self.input()[self.pos() + 1] == c),
    {
        match self.peek_next() {
            Some(d) => c == d,
            None => false,
        }
    }
}

fn is_ascii_digit(c: char) -> (r: bool)
    ensures
        r == is_digit(c),
{
    '0' <= c && c <= '9'
}

/// The number that the digits `from..to` spell, where it is an `i64`.
fn parse_digits(v: &Vec<char>, from: usize, to: usize) -> (r: Option<i64>)
    requires
        from <= to <= v.len(),
        forall|i: int| from <= i < to ==> is_digit(v@[i]),
    ensures
        r == (if digits_value(v@.subrange(from as int, to as int)) <= i64::MAX {
            Some(digits_value(v@.subrange(from as int, to as int)) as i64)
        } else {
            None
        }),
{
    let mut n: i64 = 0;
    let mut i: usize = from;
    while i < to
        invariant
            from <= i <= to <= v.len(),
            forall|i: int| from <= i < to ==> is_digit(v@[i]),
            n == digits_value(v@.subrange(from as int, i as int)),
            n >= 0,
        decreases to - i,
    {
        let d: i64 = (v[i] as u8 - 48u8) as i64;
        proof {
            let part = v@.subrange(from as int, i + 1);
            assert(part.drop_last() =~= v@.subrange(from as int, i as int));
            assert(digits_value(part) == n * 10 + d);
        }
        if n > 922337203685477580 || (n == 922337203685477580 && d > 7) {
            proof {
                lemma_digits_value_grows(v@, from as int, i + 1, to as int);
            }
            return None;
        }
        n = n * 10 + d;
        i = i + 1;
    }
    Some(n)
}

proof fn lemma_digits_value_grows(v: Seq<char>, from: int, mid: int, to: int)
    requires
        0 <= from <= mid <= to <= v.len(),
        forall|i: int| from <= i < to ==> is_digit(v[i]),
    ensures
        digits_value(v.subrange(from, mid)) <= digits_value(v.subrange(from, to)),
    decreases to - mid,
{
    if mid < to {
        lemma_digits_value_grows(v, from, mid, to - 1);
        assert(v.subrange(from, to).drop_last() =~= v.subrange(from, to - 1));
    }
}

} // verus!
