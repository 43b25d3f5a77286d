use vstd::prelude::*;
use vstd::string::*;

verus! {

/// The tokens that carry nothing: symbols, keywords, NULL and the end of the text.
#[derive(Debug, Clone, Copy, PartialEq, Eq, Structural)]
pub enum Kind {
    NullLit,
    LParen,
    RParen,
    LBrace,
    RBrace,
    LBracket,
    RBracket,
    Comma,
    Semicolon,
    Colon,
    DoubleColon,
    Plus,
    Minus,
    Star,
    Slash,
    Percent,
    Dot,
    DollarDot,
    Eq,
    Neq,
    Lt,
    Gt,
    Lte,
    Gte,
    Explain,
    With,
    Recursive,
    Select,
    Insert,
    Update,
    Delete,
    Create,
    Drop,
    Alter,
    Begin,
    Commit,
    Rollback,
    Kv,
    Doc,
    Show,
    Truncate,
    Use,
    Database,
    Analyze,
    Backup,
    Restore,
    Migrate,
    To,
    From,
    Lsn,
    As,
    Distinct,
    Where,
    Group,
    By,
    Having,
    Order,
    Limit,
    Offset,
    Join,
    Inner,
    Left,
    Right,
    On,
    Desc,
    Asc,
    Nulls,
    First,
    Last,
    Into,
    Values,
    Conflict,
    Do,
    Nothing,
    SetKw,
    Returning,
    Unique,
    Index,
    Table,
    If,
    Not,
    Exists,
    Primary,
    Key,
    Default,
    Add,
    Column,
    Rename,
    Serializable,
    Union,
    All,
    Intersect,
    Except,
    Tables,
    Columns,
    Get,
    Scan,
    Find,
    In,
    Or,
    And,
    Like,
    Ilike,
    Is,
    Between,
    Case,
    When,
    Then,
    Else,
    End,
    Cast,
    Over,
    Partition,
    Interval,
    Int,
    Integer,
    Bigint,
    Smallint,
    Serial,
    Float,
    Real,
    DoublePrecision,
    Numeric,
    Text,
    Varchar,
    Bool,
    Bytes,
    Blob,
    Json,
    Timestamp,
    Date,
    Uuid,
    Rows,
    Row,
    Cascade,
    Restrict,
    Eof,
}

/// A token of a statement: a literal, a word, or one of a fixed kind. A float is kept as it was
/// written.
#[derive(Debug, PartialEq, Eq)]
pub enum Token {
    StringLit(String),
    IntLit(i64),
    FloatLit(String),
    HexBlob(Vec<u8>),
    BoolLit(bool),
    Ident(String),
    Kind(Kind),
}

/// What contracts say about a `Token`.
pub enum TokenView {
    StringLit(Seq<char>),
    IntLit(i64),
    FloatLit(Seq<char>),
    HexBlob(Seq<u8>),
    BoolLit(bool),
    Ident(Seq<char>),
    Kind(Kind),
}

impl Token {
    pub open spec fn view(&self) -> TokenView
        decreases self,
    {
        match self {
            Token::StringLit(a) => TokenView::StringLit(a@),
            Token::IntLit(a) => TokenView::IntLit(*a),
            Token::FloatLit(a) => TokenView::FloatLit(a@),
            Token::HexBlob(a) => TokenView::HexBlob(a@),
            Token::BoolLit(a) => TokenView::BoolLit(*a),
            Token::Ident(a) => TokenView::Ident(a@),
            Token::Kind(a) => TokenView::Kind(*a),
        }
    }

    /// A copy of the whole value.
    pub fn dup(&self) -> (r: Token)
        ensures
            r@ == self@,
        decreases self,
    {
        match self {
            Token::StringLit(a) => Token::StringLit(a.clone()),
            Token::IntLit(a) => Token::IntLit(*a),
            Token::FloatLit(a) => Token::FloatLit(a.clone()),
            Token::HexBlob(a) => Token::HexBlob(crate::text::copy_vec(a)),
            Token::BoolLit(a) => Token::BoolLit(*a),
            Token::Ident(a) => Token::Ident(a.clone()),
            Token::Kind(a) => Token::Kind(*a),
        }
    }
}

impl Clone for Token {
    fn clone(&self) -> (r: Self)
        ensures
            r@ == self@,
    {
        self.dup()
    }
}

/// The views of a sequence, item by item.
pub open spec fn tokens_view(s: Seq<Token>) -> Seq<TokenView>
    decreases s,
{
    Seq::new(s.len(), |i: int| if 0 <= i < s.len() { s[i]@ } else { arbitrary() })
}

pub broadcast proof fn tokens_push(s: Seq<Token>, e: Token)
    ensures
        #[trigger] tokens_view(s.push(e)) == tokens_view(s).push(e@),
{
    assert(tokens_view(s.push(e)) =~= tokens_view(s).push(e@));
}

/// The keyword that an upper-case word spells, in one stretch of the vocabulary.
#[verifier::opaque]
pub open spec fn keyword_part0(w: Seq<char>) -> Option<TokenView> {
    if w == "EXPLAIN"@ {
        Some(TokenView::Kind(Kind::Explain))
    }
    else if w == "WITH"@ {
        Some(TokenView::Kind(Kind::With))
    }
    else if w == "RECURSIVE"@ {
        Some(TokenView::Kind(Kind::Recursive))
    }
    else if w == "SELECT"@ {
        Some(TokenView::Kind(Kind::Select))
    }
    else if w == "INSERT"@ {
        Some(TokenView::Kind(Kind::Insert))
    }
    else if w == "UPDATE"@ {
        Some(TokenView::Kind(Kind::Update))
    }
    else if w == "DELETE"@ {
        Some(TokenView::Kind(Kind::Delete))
    }
    else if w == "CREATE"@ {
        Some(TokenView::Kind(Kind::Create))
    }
    else if w == "DROP"@ {
        Some(TokenView::Kind(Kind::Drop))
    }
    else if w == "ALTER"@ {
        Some(TokenView::Kind(Kind::Alter))
    }
    else if w == "BEGIN"@ {
        Some(TokenView::Kind(Kind::Begin))
    }
    else if w == "COMMIT"@ {
        Some(TokenView::Kind(Kind::Commit))
    }
    else if w == "ROLLBACK"@ {
        Some(TokenView::Kind(Kind::Rollback))
    }
    else if w == "KV"@ {
        Some(TokenView::Kind(Kind::Kv))
    }
    else if w == "DOC"@ {
        Some(TokenView::Kind(Kind::Doc))
    }
    else if w == "SHOW"@ {
        Some(TokenView::Kind(Kind::Show))
    }
    else if w == "TRUNCATE"@ {
        Some(TokenView::Kind(Kind::Truncate))
    }
    else if w == "USE"@ {
        Some(TokenView::Kind(Kind::Use))
    }
    else if w == "DATABASE"@ {
        Some(TokenView::Kind(Kind::Database))
    }
    else if w == "ANALYZE"@ {
        Some(TokenView::Kind(Kind::Analyze))
    }
    else if w == "BACKUP"@ {
        Some(TokenView::Kind(Kind::Backup))
    }
    else if w == "RESTORE"@ {
        Some(TokenView::Kind(Kind::Restore))
    }
    else if w == "MIGRATE"@ {
        Some(TokenView::Kind(Kind::Migrate))
    }
    else if w == "TO"@ {
        Some(TokenView::Kind(Kind::To))
    }
    else if w == "FROM"@ {
        Some(TokenView::Kind(Kind::From))
    }
    else if w == "LSN"@ {
        Some(TokenView::Kind(Kind::Lsn))
    }
    else if w == "AS"@ {
        Some(TokenView::Kind(Kind::As))
    }
    else if w == "DISTINCT"@ {
        Some(TokenView::Kind(Kind::Distinct))
    }
    else if w == "WHERE"@ {
        Some(TokenView::Kind(Kind::Where))
    }
    else if w == "GROUP"@ {
        Some(TokenView::Kind(Kind::Group))
    }
    else {
        None
    }
}

fn find_keyword_part0(w: &str) -> (r: Option<Token>)
    ensures
        (match r { Some(t) => Some(t@), None => None }) == keyword_part0(w@),
{
    reveal(keyword_part0);
    if crate::text::text_is(w, "EXPLAIN") {
        return Some(Token::Kind(Kind::Explain));
    }
    if crate::text::text_is(w, "WITH") {
        return Some(Token::Kind(Kind::With));
    }
    if crate::text::text_is(w, "RECURSIVE") {
        return Some(Token::Kind(Kind::Recursive));
    }
    if crate::text::text_is(w, "SELECT") {
        return Some(Token::Kind(Kind::Select));
    }
    if crate::text::text_is(w, "INSERT") {
        return Some(Token::Kind(Kind::Insert));
    }
    if crate::text::text_is(w, "UPDATE") {
        return Some(Token::Kind(Kind::Update));
    }
    if crate::text::text_is(w, "DELETE") {
        return Some(Token::Kind(Kind::Delete));
    }
    if crate::text::text_is(w, "CREATE") {
        return Some(Token::Kind(Kind::Create));
    }
    if crate::text::text_is(w, "DROP") {
        return Some(Token::Kind(Kind::Drop));
    }
    if crate::text::text_is(w, "ALTER") {
        return Some(Token::Kind(Kind::Alter));
    }
    if crate::text::text_is(w, "BEGIN") {
        return Some(Token::Kind(Kind::Begin));
    }
    if crate::text::text_is(w, "COMMIT") {
        return Some(Token::Kind(Kind::Commit));
    }
    if crate::text::text_is(w, "ROLLBACK") {
        return Some(Token::Kind(Kind::Rollback));
    }
    if crate::text::text_is(w, "KV") {
        return Some(Token::Kind(Kind::Kv));
    }
    if crate::text::text_is(w, "DOC") {
        return Some(Token::Kind(Kind::Doc));
    }
    if crate::text::text_is(w, "SHOW") {
        return Some(Token::Kind(Kind::Show));
    }
    if crate::text::text_is(w, "TRUNCATE") {
        return Some(Token::Kind(Kind::Truncate));
    }
    if crate::text::text_is(w, "USE") {
        return Some(Token::Kind(Kind::Use));
    }
    if crate::text::text_is(w, "DATABASE") {
        return Some(Token::Kind(Kind::Database));
    }
    if crate::text::text_is(w, "ANALYZE") {
        return Some(Token::Kind(Kind::Analyze));
    }
    if crate::text::text_is(w, "BACKUP") {
        return Some(Token::Kind(Kind::Backup));
    }
    if crate::text::text_is(w, "RESTORE") {
        return Some(Token::Kind(Kind::Restore));
    }
    if crate::text::text_is(w, "MIGRATE") {
        return Some(Token::Kind(Kind::Migrate));
    }
    if crate::text::text_is(w, "TO") {
        return Some(Token::Kind(Kind::To));
    }
    if crate::text::text_is(w, "FROM") {
        return Some(Token::Kind(Kind::From));
    }
    if crate::text::text_is(w, "LSN") {
        return Some(Token::Kind(Kind::Lsn));
    }
    if crate::text::text_is(w, "AS") {
        return Some(Token::Kind(Kind::As));
    }
    if crate::text::text_is(w, "DISTINCT") {
        return Some(Token::Kind(Kind::Distinct));
    }
    if crate::text::text_is(w, "WHERE") {
        return Some(Token::Kind(Kind::Where));
    }
    if crate::text::text_is(w, "GROUP") {
        return Some(Token::Kind(Kind::Group));
    }
    None
}

/// The keyword that an upper-case word spells, in one stretch of the vocabulary.
#[verifier::opaque]
pub open spec fn keyword_part1(w: Seq<char>) -> Option<TokenView> {
    if w == "BY"@ {
        Some(TokenView::Kind(Kind::By))
    }
    else if w == "HAVING"@ {
        Some(TokenView::Kind(Kind::Having))
    }
    else if w == "ORDER"@ {
        Some(TokenView::Kind(Kind::Order))
    }
    else if w == "LIMIT"@ {
        Some(TokenView::Kind(Kind::Limit))
    }
    else if w == "OFFSET"@ {
        Some(TokenView::Kind(Kind::Offset))
    }
    else if w == "JOIN"@ {
        Some(TokenView::Kind(Kind::Join))
    }
    else if w == "INNER"@ {
        Some(TokenView::Kind(Kind::Inner))
    }
    else if w == "LEFT"@ {
        Some(TokenView::Kind(Kind::Left))
    }
    else if w == "RIGHT"@ {
        Some(TokenView::Kind(Kind::Right))
    }
    else if w == "ON"@ {
        Some(TokenView::Kind(Kind::On))
    }
    else if w == "DESC"@ {
        Some(TokenView::Kind(Kind::Desc))
    }
    else if w == "ASC"@ {
        Some(TokenView::Kind(Kind::Asc))
    }
    else if w == "NULLS"@ {
        Some(TokenView::Kind(Kind::Nulls))
    }
    else if w == "FIRST"@ {
        Some(TokenView::Kind(Kind::First))
    }
    else if w == "LAST"@ {
        Some(TokenView::Kind(Kind::Last))
    }
    else if w == "INTO"@ {
        Some(TokenView::Kind(Kind::Into))
    }
    else if w == "VALUES"@ {
        Some(TokenView::Kind(Kind::Values))
    }
    else if w == "CONFLICT"@ {
        Some(TokenView::Kind(Kind::Conflict))
    }
    else if w == "DO"@ {
        Some(TokenView::Kind(Kind::Do))
    }
    else if w == "NOTHING"@ {
        Some(TokenView::Kind(Kind::Nothing))
    }
    else if w == "SET"@ {
        Some(TokenView::Kind(Kind::SetKw))
    }
    else if w == "RETURNING"@ {
        Some(TokenView::Kind(Kind::Returning))
    }
    else if w == "UNIQUE"@ {
        Some(TokenView::Kind(Kind::Unique))
    }
    else if w == "INDEX"@ {
        Some(TokenView::Kind(Kind::Index))
    }
    else if w == "TABLE"@ {
        Some(TokenView::Kind(Kind::Table))
    }
    else if w == "IF"@ {
        Some(TokenView::Kind(Kind::If))
    }
    else if w == "NOT"@ {
        Some(TokenView::Kind(Kind::Not))
    }
    else if w == "EXISTS"@ {
        Some(TokenView::Kind(Kind::Exists))
    }
    else if w == "PRIMARY"@ {
        Some(TokenView::Kind(Kind::Primary))
    }
    else if w == "KEY"@ {
        Some(TokenView::Kind(Kind::Key))
    }
    else {
        None
    }
}

fn find_keyword_part1(w: &str) -> (r: Option<Token>)
    ensures
        (match r { Some(t) => Some(t@), None => None }) == keyword_part1(w@),
{
    reveal(keyword_part1);
    if crate::text::text_is(w, "BY") {
        return Some(Token::Kind(Kind::By));
    }
    if crate::text::text_is(w, "HAVING") {
        return Some(Token::Kind(Kind::Having));
    }
    if crate::text::text_is(w, "ORDER") {
        return Some(Token::Kind(Kind::Order));
    }
    if crate::text::text_is(w, "LIMIT") {
        return Some(Token::Kind(Kind::Limit));
    }
    if crate::text::text_is(w, "OFFSET") {
        return Some(Token::Kind(Kind::Offset));
    }
    if crate::text::text_is(w, "JOIN") {
        return Some(Token::Kind(Kind::Join));
    }
    if crate::text::text_is(w, "INNER") {
        return Some(Token::Kind(Kind::Inner));
    }
    if crate::text::text_is(w, "LEFT") {
        return Some(Token::Kind(Kind::Left));
    }
    if crate::text::text_is(w, "RIGHT") {
        return Some(Token::Kind(Kind::Right));
    }
    if crate::text::text_is(w, "ON") {
        return Some(Token::Kind(Kind::On));
    }
    if crate::text::text_is(w, "DESC") {
        return Some(Token::Kind(Kind::Desc));
    }
    if crate::text::text_is(w, "ASC") {
        return Some(Token::Kind(Kind::Asc));
    }
    if crate::text::text_is(w, "NULLS") {
        return Some(Token::Kind(Kind::Nulls));
    }
    if crate::text::text_is(w, "FIRST") {
        return Some(Token::Kind(Kind::First));
    }
    if crate::text::text_is(w, "LAST") {
        return Some(Token::Kind(Kind::Last));
    }
    if crate::text::text_is(w, "INTO") {
        return Some(Token::Kind(Kind::Into));
    }
    if crate::text::text_is(w, "VALUES") {
        return Some(Token::Kind(Kind::Values));
    }
    if crate::text::text_is(w, "CONFLICT") {
        return Some(Token::Kind(Kind::Conflict));
    }
    if crate::text::text_is(w, "DO") {
        return Some(Token::Kind(Kind::Do));
    }
    if crate::text::text_is(w, "NOTHING") {
        return Some(Token::Kind(Kind::Nothing));
    }
    if crate::text::text_is(w, "SET") {
        return Some(Token::Kind(Kind::SetKw));
    }
    if crate::text::text_is(w, "RETURNING") {
        return Some(Token::Kind(Kind::Returning));
    }
    if crate::text::text_is(w, "UNIQUE") {
        return Some(Token::Kind(Kind::Unique));
    }
    if crate::text::text_is(w, "INDEX") {
        return Some(Token::Kind(Kind::Index));
    }
    if crate::text::text_is(w, "TABLE") {
        return Some(Token::Kind(Kind::Table));
    }
    if crate::text::text_is(w, "IF") {
        return Some(Token::Kind(Kind::If));
    }
    if crate::text::text_is(w, "NOT") {
        return Some(Token::Kind(Kind::Not));
    }
    if crate::text::text_is(w, "EXISTS") {
        return Some(Token::Kind(Kind::Exists));
    }
    if crate::text::text_is(w, "PRIMARY") {
        return Some(Token::Kind(Kind::Primary));
    }
    if crate::text::text_is(w, "KEY") {
        return Some(Token::Kind(Kind::Key));
    }
    None
}

/// The keyword that an upper-case word spells, in one stretch of the vocabulary.
#[verifier::opaque]
pub open spec fn keyword_part2(w: Seq<char>) -> Option<TokenView> {
    if w == "DEFAULT"@ {
        Some(TokenView::Kind(Kind::Default))
    }
    else if w == "ADD"@ {
        Some(TokenView::Kind(Kind::Add))
    }
    else if w == "COLUMN"@ {
        Some(TokenView::Kind(Kind::Column))
    }
    else if w == "RENAME"@ {
        Some(TokenView::Kind(Kind::Rename))
    }
    else if w == "SERIALIZABLE"@ {
        Some(TokenView::Kind(Kind::Serializable))
    }
    else if w == "UNION"@ {
        Some(TokenView::Kind(Kind::Union))
    }
    else if w == "ALL"@ {
        Some(TokenView::Kind(Kind::All))
    }
    else if w == "INTERSECT"@ {
        Some(TokenView::Kind(Kind::Intersect))
    }
    else if w == "EXCEPT"@ {
        Some(TokenView::Kind(Kind::Except))
    }
    else if w == "TABLES"@ {
        Some(TokenView::Kind(Kind::Tables))
    }
    else if w == "COLUMNS"@ {
        Some(TokenView::Kind(Kind::Columns))
    }
    else if w == "GET"@ {
        Some(TokenView::Kind(Kind::Get))
    }
    else if w == "SCAN"@ {
        Some(TokenView::Kind(Kind::Scan))
    }
    else if w == "FIND"@ {
        Some(TokenView::Kind(Kind::Find))
    }
    else if w == "IN"@ {
        Some(TokenView::Kind(Kind::In))
    }
    else if w == "OR"@ {
        Some(TokenView::Kind(Kind::Or))
    }
    else if w == "AND"@ {
        Some(TokenView::Kind(Kind::And))
    }
    else if w == "LIKE"@ {
        Some(TokenView::Kind(Kind::Like))
    }
    else if w == "ILIKE"@ {
        Some(TokenView::Kind(Kind::Ilike))
    }
    else if w == "IS"@ {
        Some(TokenView::Kind(Kind::Is))
    }
    else if w == "BETWEEN"@ {
        Some(TokenView::Kind(Kind::Between))
    }
    else if w == "CASE"@ {
        Some(TokenView::Kind(Kind::Case))
    }
    else if w == "WHEN"@ {
        Some(TokenView::Kind(Kind::When))
    }
    else if w == "THEN"@ {
        Some(TokenView::Kind(Kind::Then))
    }
    else if w == "ELSE"@ {
        Some(TokenView::Kind(Kind::Else))
    }
    else if w == "END"@ {
        Some(TokenView::Kind(Kind::End))
    }
    else if w == "CAST"@ {
        Some(TokenView::Kind(Kind::Cast))
    }
    else if w == "OVER"@ {
        Some(TokenView::Kind(Kind::Over))
    }
    else if w == "PARTITION"@ {
        Some(TokenView::Kind(Kind::Partition))
    }
    else if w == "INTERVAL"@ {
        Some(TokenView::Kind(Kind::Interval))
    }
    else {
        None
    }
}

fn find_keyword_part2(w: &str) -> (r: Option<Token>)
    ensures
        (match r { Some(t) => Some(t@), None => None }) == keyword_part2(w@),
{
    reveal(keyword_part2);
    if crate::text::text_is(w, "DEFAULT") {
        return Some(Token::Kind(Kind::Default));
    }
    if crate::text::text_is(w, "ADD") {
        return Some(Token::Kind(Kind::Add));
    }
    if crate::text::text_is(w, "COLUMN") {
        return Some(Token::Kind(Kind::Column));
    }
    if crate::text::text_is(w, "RENAME") {
        return Some(Token::Kind(Kind::Rename));
    }
    if crate::text::text_is(w, "SERIALIZABLE") {
        return Some(Token::Kind(Kind::Serializable));
    }
    if crate::text::text_is(w, "UNION") {
        return Some(Token::Kind(Kind::Union));
    }
    if crate::text::text_is(w, "ALL") {
        return Some(Token::Kind(Kind::All));
    }
    if crate::text::text_is(w, "INTERSECT") {
        return Some(Token::Kind(Kind::Intersect));
    }
    if crate::text::text_is(w, "EXCEPT") {
        return Some(Token::Kind(Kind::Except));
    }
    if crate::text::text_is(w, "TABLES") {
        return Some(Token::Kind(Kind::Tables));
    }
    if crate::text::text_is(w, "COLUMNS") {
        return Some(Token::Kind(Kind::Columns));
    }
    if crate::text::text_is(w, "GET") {
        return Some(Token::Kind(Kind::Get));
    }
    if crate::text::text_is(w, "SCAN") {
        return Some(Token::Kind(Kind::Scan));
    }
    if crate::text::text_is(w, "FIND") {
        return Some(Token::Kind(Kind::Find));
    }
    if crate::text::text_is(w, "IN") {
        return Some(Token::Kind(Kind::In));
    }
    if crate::text::text_is(w, "OR") {
        return Some(Token::Kind(Kind::Or));
    }
    if crate::text::text_is(w, "AND") {
        return Some(Token::Kind(Kind::And));
    }
    if crate::text::text_is(w, "LIKE") {
        return Some(Token::Kind(Kind::Like));
    }
    if crate::text::text_is(w, "ILIKE") {
        return Some(Token::Kind(Kind::Ilike));
    }
    if crate::text::text_is(w, "IS") {
        return Some(Token::Kind(Kind::Is));
    }
    if crate::text::text_is(w, "BETWEEN") {
        return Some(Token::Kind(Kind::Between));
    }
    if crate::text::text_is(w, "CASE") {
        return Some(Token::Kind(Kind::Case));
    }
    if crate::text::text_is(w, "WHEN") {
        return Some(Token::Kind(Kind::When));
    }
    if crate::text::text_is(w, "THEN") {
        return Some(Token::Kind(Kind::Then));
    }
    if crate::text::text_is(w, "ELSE") {
        return Some(Token::Kind(Kind::Else));
    }
    if crate::text::text_is(w, "END") {
        return Some(Token::Kind(Kind::End));
    }
    if crate::text::text_is(w, "CAST") {
        return Some(Token::Kind(Kind::Cast));
    }
    if crate::text::text_is(w, "OVER") {
        return Some(Token::Kind(Kind::Over));
    }
    if crate::text::text_is(w, "PARTITION") {
        return Some(Token::Kind(Kind::Partition));
    }
    if crate::text::text_is(w, "INTERVAL") {
        return Some(Token::Kind(Kind::Interval));
    }
    None
}

/// The keyword that an upper-case word spells, in one stretch of the vocabulary.
#[verifier::opaque]
pub open spec fn keyword_part3(w: Seq<char>) -> Option<TokenView> {
    if w == "INT"@ {
        Some(TokenView::Kind(Kind::Int))
    }
    else if w == "INTEGER"@ {
        Some(TokenView::Kind(Kind::Integer))
    }
    else if w == "BIGINT"@ {
        Some(TokenView::Kind(Kind::Bigint))
    }
    else if w == "SMALLINT"@ {
        Some(TokenView::Kind(Kind::Smallint))
    }
    else if w == "SERIAL"@ {
        Some(TokenView::Kind(Kind::Serial))
    }
    else if w == "FLOAT"@ {
        Some(TokenView::Kind(Kind::Float))
    }
    else if w == "REAL"@ {
        Some(TokenView::Kind(Kind::Real))
    }
    else if w == "DOUBLE"@ {
        Some(TokenView::Kind(Kind::DoublePrecision))
    }
    else if w == "NUMERIC"@ {
        Some(TokenView::Kind(Kind::Numeric))
    }
    else if w == "DECIMAL"@ {
        Some(TokenView::Kind(Kind::Numeric))
    }
    else if w == "TEXT"@ {
        Some(TokenView::Kind(Kind::Text))
    }
    else if w == "VARCHAR"@ {
        Some(TokenView::Kind(Kind::Varchar))
    }
    else if w == "BOOL"@ {
        Some(TokenView::Kind(Kind::Bool))
    }
    else if w == "BOOLEAN"@ {
        Some(TokenView::Kind(Kind::Bool))
    }
    else if w == "BYTES"@ {
        Some(TokenView::Kind(Kind::Bytes))
    }
    else if w == "BLOB"@ {
        Some(TokenView::Kind(Kind::Blob))
    }
    else if w == "JSON"@ {
        Some(TokenView::Kind(Kind::Json))
    }
    else if w == "TIMESTAMP"@ {
        Some(TokenView::Kind(Kind::Timestamp))
    }
    else if w == "DATE"@ {
        Some(TokenView::Kind(Kind::Date))
    }
    else if w == "UUID"@ {
        Some(TokenView::Kind(Kind::Uuid))
    }
    else if w == "ROWS"@ {
        Some(TokenView::Kind(Kind::Rows))
    }
    else if w == "ROW"@ {
        Some(TokenView::Kind(Kind::Row))
    }
    else if w == "CASCADE"@ {
        Some(TokenView::Kind(Kind::Cascade))
    }
    else if w == "RESTRICT"@ {
        Some(TokenView::Kind(Kind::Restrict))
    }
    else if w == "TRUE"@ {
        Some(TokenView::BoolLit(true))
    }
    else if w == "FALSE"@ {
        Some(TokenView::BoolLit(false))
    }
    else if w == "NULL"@ {
        Some(TokenView::Kind(Kind::NullLit))
    }
    else {
        None
    }
}

fn find_keyword_part3(w: &str) -> (r: Option<Token>)
    ensures
        (match r { Some(t) => Some(t@), None => None }) == keyword_part3(w@),
{
    reveal(keyword_part3);
    if crate::text::text_is(w, "INT") {
        return Some(Token::Kind(Kind::Int));
    }
    if crate::text::text_is(w, "INTEGER") {
        return Some(Token::Kind(Kind::Integer));
    }
    if crate::text::text_is(w, "BIGINT") {
        return Some(Token::Kind(Kind::Bigint));
    }
    if crate::text::text_is(w, "SMALLINT") {
        return Some(Token::Kind(Kind::Smallint));
    }
    if crate::text::text_is(w, "SERIAL") {
        return Some(Token::Kind(Kind::Serial));
    }
    if crate::text::text_is(w, "FLOAT") {
        return Some(Token::Kind(Kind::Float));
    }
    if crate::text::text_is(w, "REAL") {
        return Some(Token::Kind(Kind::Real));
    }
    if crate::text::text_is(w, "DOUBLE") {
        return Some(Token::Kind(Kind::DoublePrecision));
    }
    if crate::text::text_is(w, "NUMERIC") {
        return Some(Token::Kind(Kind::Numeric));
    }
    if crate::text::text_is(w, "DECIMAL") {
        return Some(Token::Kind(Kind::Numeric));
    }
    if crate::text::text_is(w, "TEXT") {
        return Some(Token::Kind(Kind::Text));
    }
    if crate::text::text_is(w, "VARCHAR") {
        return Some(Token::Kind(Kind::Varchar));
    }
    if crate::text::text_is(w, "BOOL") {
        return Some(Token::Kind(Kind::Bool));
    }
    if crate::text::text_is(w, "BOOLEAN") {
        return Some(Token::Kind(Kind::Bool));
    }
    if crate::text::text_is(w, "BYTES") {
        return Some(Token::Kind(Kind::Bytes));
    }
    if crate::text::text_is(w, "BLOB") {
        return Some(Token::Kind(Kind::Blob));
    }
    if crate::text::text_is(w, "JSON") {
        return Some(Token::Kind(Kind::Json));
    }
    if crate::text::text_is(w, "TIMESTAMP") {
        return Some(Token::Kind(Kind::Timestamp));
    }
    if crate::text::text_is(w, "DATE") {
        return Some(Token::Kind(Kind::Date));
    }
    if crate::text::text_is(w, "UUID") {
        return Some(Token::Kind(Kind::Uuid));
    }
    if crate::text::text_is(w, "ROWS") {
        return Some(Token::Kind(Kind::Rows));
    }
    if crate::text::text_is(w, "ROW") {
        return Some(Token::Kind(Kind::Row));
    }
    if crate::text::text_is(w, "CASCADE") {
        return Some(Token::Kind(Kind::Cascade));
    }
    if crate::text::text_is(w, "RESTRICT") {
        return Some(Token::Kind(Kind::Restrict));
    }
    if crate::text::text_is(w, "TRUE") {
        return Some(Token::BoolLit(true));
    }
    if crate::text::text_is(w, "FALSE") {
        return Some(Token::BoolLit(false));
    }
    if crate::text::text_is(w, "NULL") {
        return Some(Token::Kind(Kind::NullLit));
    }
    None
}

/// The keyword that an upper-case word spells, if it spells one.
pub open spec fn keyword_of(w: Seq<char>) -> Option<TokenView> {
    if keyword_part0(w) is Some {
        keyword_part0(w)
    }
    else if keyword_part1(w) is Some {
        keyword_part1(w)
    }
    else if keyword_part2(w) is Some {
        keyword_part2(w)
    }
    else if keyword_part3(w) is Some {
        keyword_part3(w)
    }
    else {
        None
    }
}

/// No keyword is the end token.
pub proof fn lemma_keyword_is_no_end(w: Seq<char>)
    ensures
        keyword_of(w) != Some(TokenView::Kind(Kind::Eof)),
{
    reveal(keyword_part0);
    reveal(keyword_part1);
    reveal(keyword_part2);
    reveal(keyword_part3);
}

/// An ASCII letter in upper case; any other character as it is.
pub open spec fn ascii_upper_char(c: char) -> char {
    if 'a' <= c <= 'z' {
        ((c as u8) - 32) as u8 as char
    } else {
        c
    }
}

/// A word with its ASCII letters in upper case.
pub open spec fn ascii_upper(w: Seq<char>) -> Seq<char> {
    Seq::new(w.len(), |i: int| ascii_upper_char(w[i]))
}

pub fn to_ascii_upper_char(c: char) -> (r: char)
    ensures
        r == ascii_upper_char(c),
{
    if 'a' <= c && c <= 'z' {
        ((c as u8) - 32u8) as char
    } else {
        c
    }
}

/// Writes a word with its ASCII letters in upper case.
pub fn to_ascii_upper(w: &str) -> (r: String)
    ensures
        r@ == ascii_upper(w@),
{
    let v = crate::text::chars_of(w);
    let mut out = String::new();
    let mut i: usize = 0;
    while i < v.len()
        invariant
            i <= v.len(),
            v@ == w@,
            out@ == ascii_upper(w@).take(i as int),
        decreases v.len() - i,
    {
        out.push(to_ascii_upper_char(v[i]));
        assert(ascii_upper(w@).take(i + 1) =~= ascii_upper(w@).take(i as int).push(ascii_upper_char(w@[i as int])));
        i = i + 1;
    }
    assert(ascii_upper(w@).take(w@.len() as int) =~= ascii_upper(w@));
    out
}

/// Whether a word is `lit`, whatever the case of its ASCII letters. `lit` is in upper case.
pub fn word_is(w: &str, lit: &str) -> (r: bool)
    ensures
        r == (ascii_upper(w@) == lit@),
{
    let up = to_ascii_upper(w);
    crate::text::text_is(up.as_str(), lit)
}

impl Token {
    /// The keyword that a word spells, whatever the case of its ASCII letters.
    pub fn is_keyword(word: &str) -> (r: Option<Token>)
        ensures
            (match r { Some(t) => Some(t@), None => None }) == keyword_of(ascii_upper(word@)),
    {
        let up = to_ascii_upper(word);
        let r = find_keyword_part0(up.as_str());
        if r.is_some() {
            return r;
        }
        let r = find_keyword_part1(up.as_str());
        if r.is_some() {
            return r;
        }
        let r = find_keyword_part2(up.as_str());
        if r.is_some() {
            return r;
        }
        let r = find_keyword_part3(up.as_str());
        if r.is_some() {
            return r;
        }
        None
    }
}

} // verus!
