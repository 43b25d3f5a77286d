use vstd::prelude::*;
use vstd::string::*;
use crate::text::{chars_of, int_text, int_to_text};
use crate::value::DataType;
use super::ast::{BinOp, Expr, ExprView, LiteralValue, LiteralValueView, UnaryOp};
use super::ast::{exprs_at, exprs_len, exprs_view, when_clauses_at, when_clauses_len, when_clauses_view};

verus! {

/// The sign of an operator.
pub open spec fn op_text(op: BinOp) -> Seq<char> {
    match op {
        BinOp::Eq => "="@,
        BinOp::Neq => "<>"@,
        BinOp::Lt => "<"@,
        BinOp::Gt => ">"@,
        BinOp::Lte => "<="@,
        BinOp::Gte => ">="@,
        BinOp::And => "AND"@,
        BinOp::Or => "OR"@,
        BinOp::Plus => "+"@,
        BinOp::Minus => "-"@,
        BinOp::Mul => "*"@,
        BinOp::Div => "/"@,
        BinOp::Mod => "%"@,
        BinOp::Like => "LIKE"@,
        BinOp::Ilike => "ILIKE"@,
    }
}

pub fn binop_sql(op: BinOp) -> (r: &'static str)
    ensures
        r@ == op_text(op),
{
    match op {
        BinOp::Eq => "=",
        BinOp::Neq => "<>",
        BinOp::Lt => "<",
        BinOp::Gt => ">",
        BinOp::Lte => "<=",
        BinOp::Gte => ">=",
        BinOp::And => "AND",
        BinOp::Or => "OR",
        BinOp::Plus => "+",
        BinOp::Minus => "-",
        BinOp::Mul => "*",
        BinOp::Div => "/",
        BinOp::Mod => "%",
        BinOp::Like => "LIKE",
        BinOp::Ilike => "ILIKE",
    }
}

/// The word by which a CAST names a type.
pub open spec fn type_word(t: DataType) -> Seq<char> {
    match t {
        DataType::Int64 => "INT"@,
        DataType::Float64 => "FLOAT"@,
        DataType::Decimal => "DECIMAL"@,
        DataType::Text => "TEXT"@,
        DataType::Bool => "BOOL"@,
        DataType::Bytes => "BYTES"@,
        DataType::Json => "JSON"@,
        DataType::Timestamp => "TIMESTAMP"@,
        DataType::Date => "DATE"@,
        DataType::Uuid => "UUID"@,
        DataType::Interval => "INTERVAL"@,
    }
}

fn show_type_word(t: DataType) -> (r: &'static str)
    ensures
        r@ == type_word(t),
{
    match t {
        DataType::Int64 => "INT",
        DataType::Float64 => "FLOAT",
        DataType::Decimal => "DECIMAL",
        DataType::Text => "TEXT",
        DataType::Bool => "BOOL",
        DataType::Bytes => "BYTES",
        DataType::Json => "JSON",
        DataType::Timestamp => "TIMESTAMP",
        DataType::Date => "DATE",
        DataType::Uuid => "UUID",
        DataType::Interval => "INTERVAL",
    }
}

/// A text with each quote written twice.
pub open spec fn doubled(s: Seq<char>) -> Seq<char>
    decreases s.len(),
{
    if s.len() == 0 {
        Seq::empty()
    } else if s.last() == '\'' {
        doubled(s.drop_last()).push('\'').push('\'')
    } else {
        doubled(s.drop_last()).push(s.last())
    }
}

/// A text as a literal.
pub open spec fn quoted(s: Seq<char>) -> Seq<char> {
    seq!['\''] + doubled(s) + seq!['\'']
}

pub fn quote_string(s: &str) -> (r: String)
    ensures
        r@ == quoted(s@),
{
    let v = chars_of(s);
    let mut r = String::new();
    r.push('\'');
    let mut i: usize = 0;
    assert(s@.take(0).len() == 0);
    assert(r@ =~= seq!['\''] + doubled(s@.take(0)));
    while i < v.len()
        invariant
            i <= v.len(),
            v@ == s@,
            r@ == seq!['\''] + doubled(s@.take(i as int)),
        decreases v.len() - i,
    {
        let c = v[i];
        proof {
            assert(s@.take(i + 1).drop_last() =~= s@.take(i as int));
            assert(s@.take(i + 1).last() == c);
        }
        let ghost before = r@;
        r.push(c);
        if c == '\'' {
            r.push('\'');
            assert(r@ =~= seq!['\''] + doubled(s@.take(i + 1)));
        } else {
            assert(r@ =~= seq!['\''] + doubled(s@.take(i + 1)));
        }
        i = i + 1;
    }
    assert(s@.take(v.len() as int) =~= s@);
    r.push('\'');
    assert(r@ =~= quoted(s@));
    r
}

/// What a literal's text stands for: a pair of quotes counts as one.
pub open spec fn unquoted(s: Seq<char>) -> Seq<char>
    decreases s.len(),
{
    if s.len() == 0 {
        Seq::empty()
    } else if s.len() >= 2 && s.last() == '\'' && s[s.len() - 2] == '\'' {
        unquoted(s.drop_last().drop_last()).push('\'')
    } else {
        unquoted(s.drop_last()).push(s.last())
    }
}

/// Quoting loses nothing: what stands between the outer quotes is the text again once each pair
/// of quotes is read as one.
pub proof fn law_quote(s: Seq<char>)
    ensures
        quoted(s)[0] == '\'',
        quoted(s).last() == '\'',
        unquoted(quoted(s).subrange(1, quoted(s).len() - 1)) == s,
    decreases s.len(),
{
    assert(quoted(s).subrange(1, quoted(s).len() - 1) =~= doubled(s));
    lemma_unquoted(s);
}

proof fn lemma_unquoted(s: Seq<char>)
    ensures
        unquoted(doubled(s)) == s,
    decreases s.len(),
{
    if s.len() > 0 {
        lemma_unquoted(s.drop_last());
        let d = doubled(s.drop_last());
        if s.last() == '\'' {
            assert(doubled(s).drop_last().drop_last() =~= d);
        } else {
            assert(doubled(s).drop_last() =~= d);
        }
        assert(s.drop_last().push(s.last()) =~= s);
    }
}

pub open spec fn hex_digit(d: u8) -> char {
    if d < 10 {
        ('0' as u32 + d as u32) as char
    } else {
        ('A' as u32 + (d as u32 - 10)) as char
    }
}

pub open spec fn hex_text(b: Seq<u8>) -> Seq<char>
    decreases b.len(),
{
    if b.len() == 0 {
        Seq::empty()
    } else {
        hex_text(b.drop_last()).push(hex_digit(b.last() / 16)).push(hex_digit(b.last() % 16))
    }
}

fn show_hex_digit(d: u8) -> (r: char)
    requires
        d < 16,
    ensures
        r == hex_digit(d),
{
    match d {
        0 => '0',
        1 => '1',
        2 => '2',
        3 => '3',
        4 => '4',
        5 => '5',
        6 => '6',
        7 => '7',
        8 => '8',
        9 => '9',
        10 => 'A',
        11 => 'B',
        12 => 'C',
        13 => 'D',
        14 => 'E',
        _ => 'F',
    }
}

fn write_hex(b: &Vec<u8>, out: &mut String)
    ensures
        final(out)@ == old(out)@ + hex_text(b@),
{
    let ghost front = out@;
    let mut i: usize = 0;
    assert(b@.take(0).len() == 0);
    assert(out@ =~= front + hex_text(b@.take(0)));
    while i < b.len()
        invariant
            i <= b.len(),
            out@ == front + hex_text(b@.take(i as int)),
        decreases b.len() - i,
    {
        proof {
            assert(b@.take(i + 1).drop_last() =~= b@.take(i as int));
            assert(b@.take(i + 1).last() == b@[i as int]);
        }
        out.push(show_hex_digit(b[i] / 16));
        out.push(show_hex_digit(b[i] % 16));
        assert(out@ =~= front + hex_text(b@.take(i + 1)));
        i = i + 1;
    }
    assert(b@.take(b.len() as int) =~= b@);
}

/// The text of a constant.
pub open spec fn literal_sql(l: LiteralValueView) -> Seq<char> {
    match l {
        LiteralValueView::Integer(n) => int_text(n as int),
        LiteralValueView::Float { negative, digits } => if negative {
            "-"@ + digits
        } else {
            digits
        },
        LiteralValueView::String(s) => quoted(s),
        LiteralValueView::Bool(b) => if b {
            "TRUE"@
        } else {
            "FALSE"@
        },
        LiteralValueView::Null => "NULL"@,
        LiteralValueView::HexBlob(b) => "X'"@ + hex_text(b) + "'"@,
    }
}

/// The text of an expression, with brackets around every operation. What has no text of its own is
/// written as null.
pub open spec fn sql_of(e: ExprView) -> Seq<char>
    decreases e,
{
    match e {
        ExprView::Literal(l) => literal_sql(l),
        ExprView::Column(c) => c,
        ExprView::QualifiedColumn(t, c) => t + "."@ + c,
        ExprView::BinaryOp { left, op, right } => "("@ + sql_of(*left) + " "@ + op_text(op) + " "@ + sql_of(*right) + ")"@,
        ExprView::UnaryOp { op, expr } => (match op {
            UnaryOp::Not => "(NOT "@,
            UnaryOp::Neg => "(-"@,
        }) + sql_of(*expr) + ")"@,
        ExprView::Function { name, args } => name + "("@ + sql_list(args) + ")"@,
        ExprView::IsNull(x) => "("@ + sql_of(*x) + " IS NULL)"@,
        ExprView::IsNotNull(x) => "("@ + sql_of(*x) + " IS NOT NULL)"@,
        ExprView::InList { expr, list } => "("@ + sql_of(*expr) + " IN ("@ + sql_list(list) + "))"@,
        ExprView::Between { expr, low, high } => "("@ + sql_of(*expr) + " BETWEEN "@ + sql_of(*low) + " AND "@ + sql_of(*high) + ")"@,
        ExprView::Case { operand, when_clauses, else_result } => "CASE"@ + (match operand {
            Some(x) => " "@ + sql_of(*x),
            None => Seq::empty(),
        }) + sql_whens(when_clauses) + (match else_result {
            Some(x) => " ELSE "@ + sql_of(*x),
            None => Seq::empty(),
        }) + " END"@,
        ExprView::Cast { expr, data_type } => "CAST("@ + sql_of(*expr) + " AS "@ + type_word(data_type) + ")"@,
        ExprView::Interval(s) => "INTERVAL "@ + quoted(s),
        ExprView::JsonPath { path } => path,
        _ => "NULL"@,
    }
}

pub open spec fn sql_list(es: Seq<ExprView>) -> Seq<char>
    decreases es,
{
    if es.len() == 0 {
        Seq::empty()
    } else if es.len() == 1 {
        sql_of(es.last())
    } else {
        sql_list(es.drop_last()) + ", "@ + sql_of(es.last())
    }
}

pub open spec fn sql_whens(w: Seq<(ExprView, ExprView)>) -> Seq<char>
    decreases w,
{
    if w.len() == 0 {
        Seq::empty()
    } else {
        sql_whens(w.drop_last()) + " WHEN "@ + sql_of(w.last().0) + " THEN "@ + sql_of(w.last().1)
    }
}

fn write_literal(l: &LiteralValue, out: &mut String)
    ensures
        final(out)@ == old(out)@ + literal_sql(l@),
{
    let ghost front = out@;
    match l {
        LiteralValue::Integer(n) => {
            let t = int_to_text(*n);
            out.append(t.as_str());
        },
        LiteralValue::Float { negative, digits } => {
            if *negative {
                out.append("-");
            }
            out.append(digits.as_str());
        },
        LiteralValue::String(s) => {
            let t = quote_string(s.as_str());
            out.append(t.as_str());
        },
        LiteralValue::Bool(b) => if *b {
            out.append("TRUE");
        } else {
            out.append("FALSE");
        },
        LiteralValue::Null => {
            out.append("NULL");
        },
        LiteralValue::HexBlob(b) => {
            out.append("X'");
            write_hex(b, out);
            out.append("'");
        },
    }
    assert(out@ =~= front + literal_sql(l@));
}

/// Writes the text of an expression behind `out`.
pub fn write_expr(e: &Expr, out: &mut String)
    ensures
        final(out)@ == old(out)@ + sql_of(e@),
    decreases e,
{
    let ghost front = out@;
    proof {
        (*e).unfold();
    }
    match e {
        Expr::Literal(l) => write_literal(l, out),
        Expr::Column(c) => out.append(c.as_str()),
        Expr::QualifiedColumn(t, c) => {
            out.append(t.as_str());
            out.append(".");
            out.append(c.as_str());
        },
        Expr::BinaryOp { left, op, right } => {
            out.append("(");
            write_expr(left, out);
            out.append(" ");
            out.append(binop_sql(*op));
            out.append(" ");
            write_expr(right, out);
            out.append(")");
        },
        Expr::UnaryOp { op, expr } => {
            match op {
                UnaryOp::Not => out.append("(NOT "),
                UnaryOp::Neg => out.append("(-"),
            }
            write_expr(expr, out);
            out.append(")");
        },
        Expr::Function { name, args } => {
            out.append(name.as_str());
            out.append("(");
            write_list(args, out);
            out.append(")");
        },
        Expr::IsNull(x) => {
            out.append("(");
            write_expr(x, out);
            out.append(" IS NULL)");
        },
        Expr::IsNotNull(x) => {
            out.append("(");
            write_expr(x, out);
            out.append(" IS NOT NULL)");
        },
        Expr::InList { expr, list } => {
            out.append("(");
            write_expr(expr, out);
            out.append(" IN (");
            write_list(list, out);
            out.append("))");
        },
        Expr::Between { expr, low, high } => {
            out.append("(");
            write_expr(expr, out);
            out.append(" BETWEEN ");
            write_expr(low, out);
            out.append(" AND ");
            write_expr(high, out);
            out.append(")");
        },
        Expr::Case { operand, when_clauses, else_result } => {
            out.append("CASE");
            match operand {
                Some(x) => {
                    out.append(" ");
                    write_expr(x, out);
                },
                None => {},
            }
            write_whens(when_clauses, out);
            match else_result {
                Some(x) => {
                    out.append(" ELSE ");
                    write_expr(x, out);
                },
                None => {},
            }
            out.append(" END");
        },
        Expr::Cast { expr, data_type } => {
            out.append("CAST(");
            write_expr(expr, out);
            out.append(" AS ");
            out.append(show_type_word(*data_type));
            out.append(")");
        },
        Expr::Interval(s) => {
            out.append("INTERVAL ");
            let t = quote_string(s.as_str());
            out.append(t.as_str());
        },
        Expr::JsonPath { path } => out.append(path.as_str()),
        _ => out.append("NULL"),
    }
    assert(out@ =~= front + sql_of(e@));
}

pub fn write_list(es: &Vec<Expr>, out: &mut String)
    ensures
        final(out)@ == old(out)@ + sql_list(exprs_view(es@)),
    decreases es,
{
    let ghost front = out@;
    let ghost all = exprs_view(es@);
    let mut i: usize = 0;
    proof {
        broadcast use exprs_len;

        assert(all.take(0).len() == 0);
        assert(out@ =~= front + sql_list(all.take(0)));
    }
    while i < es.len()
        invariant
            i <= es.len(),
            all == exprs_view(es@),
            all.len() == es@.len(),
            out@ == front + sql_list(all.take(i as int)),
        decreases es.len() - i,
    {
        proof {
            broadcast use exprs_at;

            assert(all[i as int] == es@[i as int]@);
            assert(all.take(i + 1).drop_last() =~= all.take(i as int));
            assert(all.take(i + 1).last() == all[i as int]);
        }
        if i > 0 {
            out.append(", ");
        }
        write_expr(&es[i], out);
        assert(out@ =~= front + sql_list(all.take(i + 1)));
        i = i + 1;
    }
    assert(all.take(es.len() as int) =~= all);
}

fn write_whens(w: &Vec<(Expr, Expr)>, out: &mut String)
    ensures
        final(out)@ == old(out)@ + sql_whens(when_clauses_view(w@)),
    decreases w,
{
    let ghost front = out@;
    let ghost all = when_clauses_view(w@);
    let mut i: usize = 0;
    proof {
        broadcast use when_clauses_len;

        assert(all.take(0).len() == 0);
        assert(out@ =~= front + sql_whens(all.take(0)));
    }
    while i < w.len()
        invariant
            i <= w.len(),
            all == when_clauses_view(w@),
            all.len() == w@.len(),
            out@ == front + sql_whens(all.take(i as int)),
        decreases w.len() - i,
    {
        proof {
            broadcast use when_clauses_at;

            assert(all[i as int] == (w@[i as int].0@, w@[i as int].1@));
            assert(all.take(i + 1).drop_last() =~= all.take(i as int));
            assert(all.take(i + 1).last() == all[i as int]);
        }
        out.append(" WHEN ");
        write_expr(&w[i].0, out);
        out.append(" THEN ");
        write_expr(&w[i].1, out);
        assert(out@ =~= front + sql_whens(all.take(i + 1)));
        i = i + 1;
    }
    assert(all.take(w.len() as int) =~= all);
}

/// The text of an expression.
pub fn expr_to_sql(e: &Expr) -> (r: String)
    ensures
        r@ == sql_of(e@),
{
    let mut r = String::new();
    write_expr(e, &mut r);
    assert(r@ =~= sql_of(e@));
    r
}

} // verus!
