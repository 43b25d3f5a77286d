//! What the parser says of tokens that it did not expect.
use vstd::prelude::*;
use vstd::string::*;
use crate::text::{int_text, int_to_text, join2, join3, nat_text, nat_to_text};
use super::floats::{debug_float, float_debug};
use super::token::{Kind, Token, TokenView};

verus! {

/// The text that `Debug` writes for a text: in quotes, with escapes for what is not plainly printed.
pub uninterp spec fn quoted_text(s: Seq<char>) -> Seq<char>;

/// `Debug` of `str`, through `format!`. Its result depends on the text alone; which characters are
/// written as escapes is not said.
#[verifier::external_body]
fn quoted(s: &str) -> (r: String)
    ensures
        r@ == quoted_text(s@),
{
    format!("{:?}", s)
}

/// The name of a kind of token.
#[verifier::opaque]
pub open spec fn kind_name(k: Kind) -> Seq<char> {
    match k {
        Kind::NullLit => "NullLit"@,
        Kind::LParen => "LParen"@,
        Kind::RParen => "RParen"@,
        Kind::LBrace => "LBrace"@,
        Kind::RBrace => "RBrace"@,
        Kind::LBracket => "LBracket"@,
        Kind::RBracket => "RBracket"@,
        Kind::Comma => "Comma"@,
        Kind::Semicolon => "Semicolon"@,
        Kind::Colon => "Colon"@,
        Kind::DoubleColon => "DoubleColon"@,
        Kind::Plus => "Plus"@,
        Kind::Minus => "Minus"@,
        Kind::Star => "Star"@,
        Kind::Slash => "Slash"@,
        Kind::Percent => "Percent"@,
        Kind::Dot => "Dot"@,
        Kind::DollarDot => "DollarDot"@,
        Kind::Eq => "Eq"@,
        Kind::Neq => "Neq"@,
        Kind::Lt => "Lt"@,
        Kind::Gt => "Gt"@,
        Kind::Lte => "Lte"@,
        Kind::Gte => "Gte"@,
        Kind::Explain => "Explain"@,
        Kind::With => "With"@,
        Kind::Recursive => "Recursive"@,
        Kind::Select => "Select"@,
        Kind::Insert => "Insert"@,
        Kind::Update => "Update"@,
        Kind::Delete => "Delete"@,
        Kind::Create => "Create"@,
        Kind::Drop => "Drop"@,
        Kind::Alter => "Alter"@,
        Kind::Begin => "Begin"@,
        Kind::Commit => "Commit"@,
        Kind::Rollback => "Rollback"@,
        Kind::Kv => "Kv"@,
        Kind::Doc => "Doc"@,
        Kind::Show => "Show"@,
        Kind::Truncate => "Truncate"@,
        Kind::Use => "Use"@,
        Kind::Database => "Database"@,
        Kind::Analyze => "Analyze"@,
        Kind::Backup => "Backup"@,
        Kind::Restore => "Restore"@,
        Kind::Migrate => "Migrate"@,
        Kind::To => "To"@,
        Kind::From => "From"@,
        Kind::Lsn => "Lsn"@,
        Kind::As => "As"@,
        Kind::Distinct => "Distinct"@,
        Kind::Where => "Where"@,
        Kind::Group => "Group"@,
        Kind::By => "By"@,
        Kind::Having => "Having"@,
        Kind::Order => "Order"@,
        Kind::Limit => "Limit"@,
        Kind::Offset => "Offset"@,
        Kind::Join => "Join"@,
        Kind::Inner => "Inner"@,
        Kind::Left => "Left"@,
        Kind::Right => "Right"@,
        Kind::On => "On"@,
        Kind::Desc => "Desc"@,
        Kind::Asc => "Asc"@,
        Kind::Nulls => "Nulls"@,
        Kind::First => "First"@,
        Kind::Last => "Last"@,
        Kind::Into => "Into"@,
        Kind::Values => "Values"@,
        Kind::Conflict => "Conflict"@,
        Kind::Do => "Do"@,
        Kind::Nothing => "Nothing"@,
        Kind::SetKw => "Set"@,
        Kind::Returning => "Returning"@,
        Kind::Unique => "Unique"@,
        Kind::Index => "Index"@,
        Kind::Table => "Table"@,
        Kind::If => "If"@,
        Kind::Not => "Not"@,
        Kind::Exists => "Exists"@,
        Kind::Primary => "Primary"@,
        Kind::Key => "Key"@,
        Kind::Default => "Default"@,
        Kind::Add => "Add"@,
        Kind::Column => "Column"@,
        Kind::Rename => "Rename"@,
        Kind::Serializable => "Serializable"@,
        Kind::Union => "Union"@,
        Kind::All => "All"@,
        Kind::Intersect => "Intersect"@,
        Kind::Except => "Except"@,
        Kind::Tables => "Tables"@,
        Kind::Columns => "Columns"@,
        Kind::Get => "Get"@,
        Kind::Scan => "Scan"@,
        Kind::Find => "Find"@,
        Kind::In => "In"@,
        Kind::Or => "Or"@,
        Kind::And => "And"@,
        Kind::Like => "Like"@,
        Kind::Ilike => "Ilike"@,
        Kind::Is => "Is"@,
        Kind::Between => "Between"@,
        Kind::Case => "Case"@,
        Kind::When => "When"@,
        Kind::Then => "Then"@,
        Kind::Else => "Else"@,
        Kind::End => "End"@,
        Kind::Cast => "Cast"@,
        Kind::Over => "Over"@,
        Kind::Partition => "Partition"@,
        Kind::Interval => "Interval"@,
        Kind::Int => "Int"@,
        Kind::Integer => "Integer"@,
        Kind::Bigint => "Bigint"@,
        Kind::Smallint => "Smallint"@,
        Kind::Serial => "Serial"@,
        Kind::Float => "Float"@,
        Kind::Real => "Real"@,
        Kind::DoublePrecision => "DoublePrecision"@,
        Kind::Numeric => "Numeric"@,
        Kind::Text => "Text"@,
        Kind::Varchar => "Varchar"@,
        Kind::Bool => "Bool"@,
        Kind::Bytes => "Bytes"@,
        Kind::Blob => "Blob"@,
        Kind::Json => "Json"@,
        Kind::Timestamp => "Timestamp"@,
        Kind::Date => "Date"@,
        Kind::Uuid => "Uuid"@,
        Kind::Rows => "Rows"@,
        Kind::Row => "Row"@,
        Kind::Cascade => "Cascade"@,
        Kind::Restrict => "Restrict"@,
        Kind::Eof => "Eof"@,
    }
}

pub fn name_of_kind(k: Kind) -> (r: &'static str)
    ensures
        r@ == kind_name(k),
{
    proof {
        reveal(kind_name);
    }
    match k {
        Kind::NullLit => "NullLit",
        Kind::LParen => "LParen",
        Kind::RParen => "RParen",
        Kind::LBrace => "LBrace",
        Kind::RBrace => "RBrace",
        Kind::LBracket => "LBracket",
        Kind::RBracket => "RBracket",
        Kind::Comma => "Comma",
        Kind::Semicolon => "Semicolon",
        Kind::Colon => "Colon",
        Kind::DoubleColon => "DoubleColon",
        Kind::Plus => "Plus",
        Kind::Minus => "Minus",
        Kind::Star => "Star",
        Kind::Slash => "Slash",
        Kind::Percent => "Percent",
        Kind::Dot => "Dot",
        Kind::DollarDot => "DollarDot",
        Kind::Eq => "Eq",
        Kind::Neq => "Neq",
        Kind::Lt => "Lt",
        Kind::Gt => "Gt",
        Kind::Lte => "Lte",
        Kind::Gte => "Gte",
        Kind::Explain => "Explain",
        Kind::With => "With",
        Kind::Recursive => "Recursive",
        Kind::Select => "Select",
        Kind::Insert => "Insert",
        Kind::Update => "Update",
        Kind::Delete => "Delete",
        Kind::Create => "Create",
        Kind::Drop => "Drop",
        Kind::Alter => "Alter",
        Kind::Begin => "Begin",
        Kind::Commit => "Commit",
        Kind::Rollback => "Rollback",
        Kind::Kv => "Kv",
        Kind::Doc => "Doc",
        Kind::Show => "Show",
        Kind::Truncate => "Truncate",
        Kind::Use => "Use",
        Kind::Database => "Database",
        Kind::Analyze => "Analyze",
        Kind::Backup => "Backup",
        Kind::Restore => "Restore",
        Kind::Migrate => "Migrate",
        Kind::To => "To",
        Kind::From => "From",
        Kind::Lsn => "Lsn",
        Kind::As => "As",
        Kind::Distinct => "Distinct",
        Kind::Where => "Where",
        Kind::Group => "Group",
        Kind::By => "By",
        Kind::Having => "Having",
        Kind::Order => "Order",
        Kind::Limit => "Limit",
        Kind::Offset => "Offset",
        Kind::Join => "Join",
        Kind::Inner => "Inner",
        Kind::Left => "Left",
        Kind::Right => "Right",
        Kind::On => "On",
        Kind::Desc => "Desc",
        Kind::Asc => "Asc",
        Kind::Nulls => "Nulls",
        Kind::First => "First",
        Kind::Last => "Last",
        Kind::Into => "Into",
        Kind::Values => "Values",
        Kind::Conflict => "Conflict",
        Kind::Do => "Do",
        Kind::Nothing => "Nothing",
        Kind::SetKw => "Set",
        Kind::Returning => "Returning",
        Kind::Unique => "Unique",
        Kind::Index => "Index",
        Kind::Table => "Table",
        Kind::If => "If",
        Kind::Not => "Not",
        Kind::Exists => "Exists",
        Kind::Primary => "Primary",
        Kind::Key => "Key",
        Kind::Default => "Default",
        Kind::Add => "Add",
        Kind::Column => "Column",
        Kind::Rename => "Rename",
        Kind::Serializable => "Serializable",
        Kind::Union => "Union",
        Kind::All => "All",
        Kind::Intersect => "Intersect",
        Kind::Except => "Except",
        Kind::Tables => "Tables",
        Kind::Columns => "Columns",
        Kind::Get => "Get",
        Kind::Scan => "Scan",
        Kind::Find => "Find",
        Kind::In => "In",
        Kind::Or => "Or",
        Kind::And => "And",
        Kind::Like => "Like",
        Kind::Ilike => "Ilike",
        Kind::Is => "Is",
        Kind::Between => "Between",
        Kind::Case => "Case",
        Kind::When => "When",
        Kind::Then => "Then",
        Kind::Else => "Else",
        Kind::End => "End",
        Kind::Cast => "Cast",
        Kind::Over => "Over",
        Kind::Partition => "Partition",
        Kind::Interval => "Interval",
        Kind::Int => "Int",
        Kind::Integer => "Integer",
        Kind::Bigint => "Bigint",
        Kind::Smallint => "Smallint",
        Kind::Serial => "Serial",
        Kind::Float => "Float",
        Kind::Real => "Real",
        Kind::DoublePrecision => "DoublePrecision",
        Kind::Numeric => "Numeric",
        Kind::Text => "Text",
        Kind::Varchar => "Varchar",
        Kind::Bool => "Bool",
        Kind::Bytes => "Bytes",
        Kind::Blob => "Blob",
        Kind::Json => "Json",
        Kind::Timestamp => "Timestamp",
        Kind::Date => "Date",
        Kind::Uuid => "Uuid",
        Kind::Rows => "Rows",
        Kind::Row => "Row",
        Kind::Cascade => "Cascade",
        Kind::Restrict => "Restrict",
        Kind::Eof => "Eof",
    }
}

/// Bytes as numbers, with commas between them.
pub open spec fn bytes_text(b: Seq<u8>) -> Seq<char>
    decreases b.len(),
{
    if b.len() == 0 {
        Seq::empty()
    } else if b.len() == 1 {
        nat_text(b[0] as nat)
    } else {
        bytes_text(b.drop_last()) + ", "@ + nat_text(b.last() as nat)
    }
}

fn text_of_bytes(b: &Vec<u8>) -> (r: String)
    ensures
        r@ == bytes_text(b@),
{
    let mut r = String::new();
    let mut i: usize = 0;
    assert(r@ =~= bytes_text(b@.take(0)));
    while i < b.len()
        invariant
            i <= b.len(),
            r@ == bytes_text(b@.take(i as int)),
        decreases b.len() - i,
    {
        let n = nat_to_text(b[i] as u128);
        proof {
            let s = b@.take(i + 1);
            assert(s.drop_last() =~= b@.take(i as int));
            assert(s.last() == b@[i as int]);
        }
        if i == 0 {
            r = n;
        } else {
            r = join3(r.as_str(), ", ", n.as_str());
        }
        i = i + 1;
    }
    assert(b@.take(i as int) =~= b@);
    r
}

/// How a token is called in a message.
pub open spec fn token_text(k: TokenView) -> Seq<char> {
    match k {
        TokenView::StringLit(s) => "StringLit("@ + quoted_text(s) + ")"@,
        TokenView::IntLit(n) => "IntLit("@ + int_text(n as int) + ")"@,
        TokenView::FloatLit(f) => "FloatLit("@ + float_debug(f) + ")"@,
        TokenView::HexBlob(b) => "HexBlob(["@ + bytes_text(b) + "])"@,
        TokenView::BoolLit(b) => if b {
            "BoolLit(true)"@
        } else {
            "BoolLit(false)"@
        },
        TokenView::Ident(s) => "Ident("@ + quoted_text(s) + ")"@,
        TokenView::Kind(k) => kind_name(k),
    }
}

pub fn text_of_token(k: &Token) -> (r: String)
    ensures
        r@ == token_text(k@),
{
    match k {
        Token::StringLit(s) => join3("StringLit(", quoted(s.as_str()).as_str(), ")"),
        Token::IntLit(n) => join3("IntLit(", int_to_text(*n).as_str(), ")"),
        Token::FloatLit(f) => join3("FloatLit(", debug_float(f.as_str()).as_str(), ")"),
        Token::HexBlob(b) => join3("HexBlob([", text_of_bytes(b).as_str(), "])"),
        Token::BoolLit(b) => if *b {
            "BoolLit(true)".to_string()
        } else {
            "BoolLit(false)".to_string()
        },
        Token::Ident(s) => join3("Ident(", quoted(s.as_str()).as_str(), ")"),
        Token::Kind(k) => name_of_kind(*k).to_string(),
    }
}

/// That something was expected where a token stands.
pub open spec fn wanted_text(what: Seq<char>, k: TokenView) -> Seq<char> {
    "Expected "@ + what + ", got "@ + token_text(k)
}

pub fn say_wanted(what: &str, k: &Token) -> (r: String)
    ensures
        r@ == wanted_text(what@, k@),
{
    join2(join3("Expected ", what, ", got ").as_str(), text_of_token(k).as_str())
}

/// That a token of a kind was expected where another stands.
pub open spec fn wanted(kind: Kind, k: TokenView) -> Seq<char> {
    wanted_text(kind_name(kind), k)
}

/// That a token cannot stand where it does.
pub open spec fn stray_text(what: Seq<char>, k: TokenView) -> Seq<char> {
    what + token_text(k)
}

pub fn say_stray(what: &str, k: &Token) -> (r: String)
    ensures
        r@ == stray_text(what@, k@),
{
    join2(what, text_of_token(k).as_str())
}

} // verus!
