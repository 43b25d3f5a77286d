use vstd::prelude::*;
use vstd::string::*;
use crate::error::{ErrorView, QueryError};
use crate::value::DataType;
use crate::value::{names_push, names_view};
use super::ast::StatementView;
use super::grammar::{Read, at, is_upper_word, is_word, starts_join, tok};
use super::grammar::{g_alias, g_integer, g_name, g_name_group, g_names, g_parse, g_string, g_type, g_type_size};
use super::lexer::{Lexer, says, text_fault, tokens_of};
use super::lexer_laws::law_tokens_end_once;
use super::messages::{name_of_kind, say_wanted, wanted};
use super::token::{Kind, Token, TokenView, tokens_view, word_is};

verus! {

broadcast use super::ast::group_ast_views;

/// What the parser makes of a statement's text: the statement, or `None` for a syntax error.
pub open spec fn parse_text(sql: Seq<char>) -> Option<StatementView> {
    match tokens_of(sql, 0) {
        None => None,
        Some(t) => match g_parse(t, 0) {
            Read::Got(s, _) => Some(s),
            Read::Wrong(_) => None,
        },
    }
}

/// What the parser says of a text that makes no statement.
pub open spec fn parse_fault(sql: Seq<char>) -> Seq<char> {
    match tokens_of(sql, 0) {
        None => text_fault(sql, 0),
        Some(t) => match g_parse(t, 0) {
            Read::Got(_, _) => Seq::empty(),
            Read::Wrong(m) => m,
        },
    }
}

/// Reads statements from tokens.
pub struct Parser {
    tokens: Vec<Token>,
    pos: usize,
    last_data_type_serial: bool,
}

impl Parser {
    /// The tokens, the end token last.
    pub closed spec fn toks(&self) -> Seq<TokenView> {
        tokens_view(self.tokens@)
    }

    /// How many tokens have been read.
    pub closed spec fn pos(&self) -> int {
        self.pos as int
    }

    /// A position fits in a `usize`.
    pub proof fn lemma_pos_fits(&self)
        ensures
            self.pos() <= usize::MAX,
    {
    }

    pub open spec fn wf(&self) -> bool {
        &&& self.toks().len() > 0
        &&& self.toks().last() == TokenView::Kind(Kind::Eof)
        &&& 0 <= self.pos() < self.toks().len()
    }

    /// A parser of a text, which fails exactly where the text cannot be read as tokens, with the error
    /// that `Lexer::tokenize` gives; whether the tokens make a statement is not looked at.
    pub fn new(input: &str) -> (r: Result<Self, QueryError>)
        ensures
            match r {
                Ok(p) => p.wf() && p.pos() == 0 && tokens_of(input@, 0) == Some(p.toks()),
                Err(e) => tokens_of(input@, 0) is None && says(e, text_fault(input@, 0)),
            },
    {
        let mut lexer = Lexer::new(input);
        let tokens = match lexer.tokenize() {
            Ok(t) => t,
            Err(e) => {
                return Err(e);
            },
        };
        proof {
            law_tokens_end_once(input@, 0);
        }
        Ok(Parser { tokens, pos: 0, last_data_type_serial: false })
    }

    pub closed spec fn serial(&self) -> bool {
        self.last_data_type_serial
    }

    pub fn previous_data_type_serial(&self) -> (r: bool)
        ensures
            r == self.serial(),
    {
        self.last_data_type_serial
    }

    pub fn current(&self) -> (r: &Token)
        requires
            self.wf(),
        ensures
            r@ == tok(self.toks(), self.pos()),
    {
        &self.tokens[self.pos]
    }

    pub fn advance(&mut self)
        requires
            old(self).wf(),
            tok(old(self).toks(), old(self).pos()) != TokenView::Kind(Kind::Eof),
        ensures
            final(self).wf(),
            final(self).toks() == old(self).toks(),
            final(self).pos() == old(self).pos() + 1,
            final(self).serial() == old(self).serial(),
    {
        assert(self.pos < self.tokens.len());
        self.pos = self.pos + 1;
    }

    /// Whether the next token is of the kind `k`.
    pub(super) fn at(&self, k: Kind) -> (r: bool)
        requires
            self.wf(),
        ensures
            r == at(self.toks(), self.pos(), k),
    {
        match self.current() {
            Token::Kind(c) => *c == k,
            _ => false,
        }
    }

    pub(super) fn at_join(&self) -> (r: bool)
        requires
            self.wf(),
        ensures
            r == starts_join(tok(self.toks(), self.pos())),
    {
        self.at(Kind::Join) || self.at(Kind::Inner) || self.at(Kind::Left) || self.at(Kind::Right)
    }

    /// Passes over a token of the kind `expected`.
    pub fn expect(&mut self, expected: Kind) -> (r: Result<(), QueryError>)
        requires
            old(self).wf(),
            expected != Kind::Eof,
        ensures
            final(self).wf(),
            final(self).toks() == old(self).toks(),
            final(self).serial() == old(self).serial(),
            match r {
                Ok(_) => at(old(self).toks(), old(self).pos(), expected) && final(self).pos() == old(self).pos() + 1,
                Err(e) => !at(old(self).toks(), old(self).pos(), expected) && final(self).pos() == old(self).pos()
                    && e@ == ErrorView::Parse(wanted(expected, tok(old(self).toks(), old(self).pos()))),
            },
    {
        if self.at(expected) {
            self.advance();
            Ok(())
        } else {
            Err(QueryError::Parse(say_wanted(name_of_kind(expected), self.current())))
        }
    }

    pub fn expect_ident(&mut self) -> (r: Result<String, QueryError>)
        requires
            old(self).wf(),
        ensures
            final(self).wf(),
            final(self).toks() == old(self).toks(),
            final(self).pos() >= old(self).pos(),
            r is Ok ==> final(self).pos() > old(self).pos(),
            match r {
                Ok(x) => g_name(old(self).toks(), old(self).pos()) == Read::Got(x@, final(self).pos()),
                Err(e) => g_name(old(self).toks(), old(self).pos()) matches Read::Wrong(m) && e@ == ErrorView::Parse(m),
            },
    {
        let name = match self.current() {
            Token::Ident(s) => s.clone(),
            Token::Kind(Kind::Tables) => "tables".to_string(),
            Token::Kind(Kind::Columns) => "columns".to_string(),
            Token::Kind(Kind::Show) => "show".to_string(),
            Token::Kind(Kind::Index) => "index".to_string(),
            Token::Kind(Kind::Key) => "key".to_string(),
            Token::Kind(Kind::Column) => "column".to_string(),
            Token::Kind(Kind::Rows) => "rows".to_string(),
            Token::Kind(Kind::Row) => "row".to_string(),
            Token::Kind(Kind::Date) => "date".to_string(),
            Token::Kind(Kind::Timestamp) => "timestamp".to_string(),
            Token::Kind(Kind::Text) => "text".to_string(),
            Token::Kind(Kind::Int) => "int".to_string(),
            Token::Kind(Kind::Float) => "float".to_string(),
            Token::Kind(Kind::Bool) => "bool".to_string(),
            Token::Kind(Kind::Uuid) => "uuid".to_string(),
            Token::Kind(Kind::Json) => "json".to_string(),
            Token::Kind(Kind::First) => "first".to_string(),
            Token::Kind(Kind::Last) => "last".to_string(),
            Token::Kind(Kind::Partition) => "partition".to_string(),
            Token::Kind(Kind::Over) => "over".to_string(),
            _ => return Err(QueryError::Parse(say_wanted("identifier", self.current()))),
        };
        self.advance();
        Ok(name)
    }

    pub fn expect_string(&mut self) -> (r: Result<String, QueryError>)
        requires
            old(self).wf(),
        ensures
            final(self).wf(),
            final(self).toks() == old(self).toks(),
            final(self).pos() >= old(self).pos(),
            r is Ok ==> final(self).pos() > old(self).pos(),
            match r {
                Ok(x) => g_string(old(self).toks(), old(self).pos()) == Read::Got(x@, final(self).pos()),
                Err(e) => g_string(old(self).toks(), old(self).pos()) matches Read::Wrong(m) && e@ == ErrorView::Parse(m),
            },
    {
        let s = match self.current() {
            Token::StringLit(s) => s.clone(),
            _ => return Err(QueryError::Parse(say_wanted("string", self.current()))),
        };
        self.advance();
        Ok(s)
    }

    pub fn expect_integer(&mut self) -> (r: Result<i64, QueryError>)
        requires
            old(self).wf(),
        ensures
            final(self).wf(),
            final(self).toks() == old(self).toks(),
            final(self).serial() == old(self).serial(),
            final(self).pos() >= old(self).pos(),
            r is Err ==> final(self).pos() == old(self).pos(),
            r is Ok ==> final(self).pos() > old(self).pos(),
            match r {
                Ok(x) => g_integer(old(self).toks(), old(self).pos()) == Read::Got(x, final(self).pos()),
                Err(e) => g_integer(old(self).toks(), old(self).pos()) matches Read::Wrong(m) && e@ == ErrorView::Parse(m),
            },
    {
        let n: i64 = match self.current() {
            Token::IntLit(n) => *n,
            _ => return Err(QueryError::Parse(say_wanted("integer", self.current()))),
        };
        self.advance();
        Ok(n)
    }

    /// Whether the next token is the word `w`, whatever its case.
    pub(super) fn at_word(&self, w: &str) -> (r: bool)
        requires
            self.wf(),
        ensures
            r == is_word(tok(self.toks(), self.pos()), w@),
    {
        match self.current() {
            Token::Ident(s) => word_is(s.as_str(), w),
            _ => false,
        }
    }

    /// Whether the next token is a word that is `w` in upper case.
    pub(super) fn at_upper_word(&self, w: &str) -> (r: bool)
        requires
            self.wf(),
        ensures
            r == is_upper_word(tok(self.toks(), self.pos()), w@),
    {
        match self.current() {
            Token::Ident(s) => {
                let up = s.as_str().to_uppercase();
                crate::text::text_is(up.as_str(), w)
            },
            _ => false,
        }
    }

    pub fn parse_ident_list(&mut self) -> (r: Result<Vec<String>, QueryError>)
        requires
            old(self).wf(),
        ensures
            final(self).wf(),
            final(self).toks() == old(self).toks(),
            final(self).pos() >= old(self).pos(),
            r is Ok ==> final(self).pos() > old(self).pos(),
            match r {
                Ok(x) => g_names(old(self).toks(), old(self).pos(), Seq::empty()) == Read::Got(names_view(x@), final(self).pos()),
                Err(e) => g_names(old(self).toks(), old(self).pos(), Seq::empty()) matches Read::Wrong(m) && e@ == ErrorView::Parse(m),
            },
    {
        let mut idents: Vec<String> = Vec::new();
        assert(names_view(idents@) =~= Seq::empty());
        loop
            invariant
                self.wf(),
                self.toks() == old(self).toks(),
                old(self).pos() <= self.pos(),
                g_names(self.toks(), self.pos(), names_view(idents@)) == g_names(
                    old(self).toks(),
                    old(self).pos(),
                    Seq::empty(),
                ),
            decreases self.toks().len() - self.pos(),
        {
            let name = self.expect_ident()?;
            proof {
                names_push(idents@, name);
            }
            idents.push(name);
            if !self.at(Kind::Comma) {
                return Ok(idents);
            }
            self.advance();
        }
    }

    /// Reads a list of names in parentheses.
    pub(super) fn parse_name_group(&mut self) -> (r: Result<Vec<String>, QueryError>)
        requires
            old(self).wf(),
        ensures
            final(self).wf(),
            final(self).toks() == old(self).toks(),
            final(self).pos() >= old(self).pos(),
            r is Ok ==> final(self).pos() > old(self).pos(),
            match r {
                Ok(x) => g_name_group(old(self).toks(), old(self).pos()) == Read::Got(names_view(x@), final(self).pos()),
                Err(e) => g_name_group(old(self).toks(), old(self).pos()) matches Read::Wrong(m) && e@ == ErrorView::Parse(m),
            },
    {
        self.expect(Kind::LParen)?;
        let names = self.parse_ident_list()?;
        self.expect(Kind::RParen)?;
        Ok(names)
    }

    pub fn try_parse_alias(&mut self) -> (r: Option<String>)
        requires
            old(self).wf(),
        ensures
            final(self).wf(),
            final(self).toks() == old(self).toks(),
            final(self).pos() >= old(self).pos(),
            (match r { Some(s) => Some(s@), None => None }, final(self).pos()) == g_alias(
                old(self).toks(),
                old(self).pos(),
            ),
    {
        if self.at(Kind::As) {
            self.advance();
            match self.expect_name_or_stay() {
                Some(n) => Some(n),
                None => None,
            }
        } else {
            let name = match self.current() {
                Token::Ident(s) => s.clone(),
                _ => return None,
            };
            self.advance();
            Some(name)
        }
    }

    /// Reads a name where one stands, and otherwise nothing.
    pub(super) fn expect_name_or_stay(&mut self) -> (r: Option<String>)
        requires
            old(self).wf(),
        ensures
            final(self).wf(),
            final(self).toks() == old(self).toks(),
            match r {
                Some(s) => g_name(old(self).toks(), old(self).pos()) == Read::Got(s@, final(self).pos()),
                None => g_name(old(self).toks(), old(self).pos()) is Wrong && final(self).pos() == old(self).pos(),
            },
    {
        let pos = self.pos;
        match self.expect_ident() {
            Ok(n) => Some(n),
            Err(_) => {
                self.pos = pos;
                None
            },
        }
    }

    pub fn parse_data_type(&mut self) -> (r: Result<(DataType, Option<usize>), QueryError>)
        requires
            old(self).wf(),
        ensures
            final(self).wf(),
            final(self).toks() == old(self).toks(),
            r is Ok ==> final(self).serial() == at(old(self).toks(), old(self).pos(), Kind::Serial),
            final(self).pos() >= old(self).pos(),
            r is Ok ==> final(self).pos() > old(self).pos(),
            match r {
                Ok(x) => g_type(old(self).toks(), old(self).pos()) == Read::Got(x, final(self).pos()),
                Err(e) => g_type(old(self).toks(), old(self).pos()) matches Read::Wrong(m) && e@ == ErrorView::Parse(m),
            },
    {
        self.last_data_type_serial = self.at(Kind::Serial);
        let dt = match self.current() {
            Token::Kind(Kind::Int) => DataType::Int64,
            Token::Kind(Kind::Integer) => DataType::Int64,
            Token::Kind(Kind::Bigint) => DataType::Int64,
            Token::Kind(Kind::Smallint) => DataType::Int64,
            Token::Kind(Kind::Serial) => DataType::Int64,
            Token::Kind(Kind::Float) => DataType::Float64,
            Token::Kind(Kind::Real) => DataType::Float64,
            Token::Kind(Kind::DoublePrecision) => DataType::Float64,
            Token::Kind(Kind::Numeric) => DataType::Decimal,
            Token::Kind(Kind::Text) => DataType::Text,
            Token::Kind(Kind::Varchar) => DataType::Text,
            Token::Kind(Kind::Bool) => DataType::Bool,
            Token::Kind(Kind::Bytes) => DataType::Bytes,
            Token::Kind(Kind::Blob) => DataType::Bytes,
            Token::Kind(Kind::Json) => DataType::Json,
            Token::Kind(Kind::Timestamp) => DataType::Timestamp,
            Token::Kind(Kind::Date) => DataType::Date,
            Token::Kind(Kind::Uuid) => DataType::Uuid,
            Token::Kind(Kind::Interval) => DataType::Interval,
            _ => return Err(QueryError::Parse(say_wanted("data type", self.current()))),
        };
        self.advance();
        if (dt == DataType::Float64 || dt == DataType::Decimal) && self.at_upper_word("PRECISION") {
            self.advance();
        }
        let size = self.parse_type_size()?;
        if dt == DataType::Text || dt == DataType::Bytes {
            Ok((dt, size))
        } else {
            Ok((dt, None))
        }
    }

    /// Reads the size that may follow a type name.
    pub(super) fn parse_type_size(&mut self) -> (r: Result<Option<usize>, QueryError>)
        requires
            old(self).wf(),
        ensures
            final(self).wf(),
            final(self).toks() == old(self).toks(),
            final(self).serial() == old(self).serial(),
            final(self).pos() >= old(self).pos(),
            match r {
                Ok(x) => g_type_size(old(self).toks(), old(self).pos()) == Read::Got(x, final(self).pos()),
                Err(e) => g_type_size(old(self).toks(), old(self).pos()) matches Read::Wrong(m) && e@ == ErrorView::Parse(m),
            },
    {
        if !self.at(Kind::LParen) {
            return Ok(None);
        }
        self.advance();
        let n = self.expect_integer()?;
        if self.at(Kind::Comma) {
            self.advance();
            let _ = self.expect_integer()?;
        }
        self.expect(Kind::RParen)?;
        Ok(Some(n as usize))
    }

    pub(super) fn ident_at(&self) -> (r: Option<String>)
        requires
            self.wf(),
        ensures
            match r {
                Some(s) => tok(self.toks(), self.pos()) == TokenView::Ident(s@),
                None => !(tok(self.toks(), self.pos()) is Ident),
            },
    {
        match self.current() {
            Token::Ident(s) => Some(s.clone()),
            _ => None,
        }
    }

    pub(super) fn kind_at(&self) -> (r: Option<Kind>)
        requires
            self.wf(),
        ensures
            match r {
                Some(k) => tok(self.toks(), self.pos()) == TokenView::Kind(k),
                None => !(tok(self.toks(), self.pos()) is Kind),
            },
    {
        match self.current() {
            Token::Kind(k) => Some(*k),
            _ => None,
        }
    }
}

} // verus!
