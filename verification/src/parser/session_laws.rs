use vstd::prelude::*;
use super::ast::{DocDeleteStmtView, DocFindStmtView, DocUpdateStmtView, ExprView, IsolationLevel, StatementView};
use super::clause_laws::lemma_name_expr;
use super::grammar::{Read, g_assignment, g_assignments, g_doc_update, g_opt_where, g_parse, g_set_ops, g_statement, tok};
use super::grammar_laws::{column, sign, word};
use super::token::{Kind, TokenView};

verus! {

/// KV GET and KV SCAN: the key, and the two ends of the range in their order.
pub proof fn law_kv_read_words(k: Seq<char>, v: Seq<char>)
    ensures
        g_parse(seq![sign(Kind::Kv), sign(Kind::Get), TokenView::StringLit(k)], 0) == Read::Got(StatementView::KvGet(k), 3),
        g_parse(seq![sign(Kind::Kv), sign(Kind::Scan), TokenView::StringLit(k), TokenView::StringLit(v)], 0) == Read::Got(StatementView::KvScan(k, v), 4),
{
    let t0 = seq![sign(Kind::Kv), sign(Kind::Get), TokenView::StringLit(k)];
    assert(t0.len() == 3);
    assert(tok(t0, 0) == sign(Kind::Kv) && tok(t0, 1) == sign(Kind::Get) && tok(t0, 2) == TokenView::StringLit(k) && tok(t0, 3) == sign(Kind::Eof));
    let s0 = StatementView::KvGet(k);
    assert(g_statement(t0, 0) == Read::Got(s0, 3));
    assert(g_set_ops(t0, 3, s0) == Read::Got(s0, 3));
    let t1 = seq![sign(Kind::Kv), sign(Kind::Scan), TokenView::StringLit(k), TokenView::StringLit(v)];
    assert(t1.len() == 4);
    assert(tok(t1, 0) == sign(Kind::Kv) && tok(t1, 1) == sign(Kind::Scan) && tok(t1, 2) == TokenView::StringLit(k) && tok(t1, 3) == TokenView::StringLit(v) && tok(t1, 4) == sign(Kind::Eof));
    let s1 = StatementView::KvScan(k, v);
    assert(g_statement(t1, 0) == Read::Got(s1, 4));
    assert(g_set_ops(t1, 4, s1) == Read::Got(s1, 4));
}

/// KV SET and KV DELETE: the key, and what is kept under it.
pub proof fn law_kv_write_words(k: Seq<char>, v: Seq<char>)
    ensures
        g_parse(seq![sign(Kind::Kv), sign(Kind::SetKw), TokenView::StringLit(k), TokenView::StringLit(v)], 0) == Read::Got(StatementView::KvSet(k, v), 4),
        g_parse(seq![sign(Kind::Kv), sign(Kind::Delete), TokenView::StringLit(k)], 0) == Read::Got(StatementView::KvDelete(k), 3),
{
    let t0 = seq![sign(Kind::Kv), sign(Kind::SetKw), TokenView::StringLit(k), TokenView::StringLit(v)];
    assert(t0.len() == 4);
    assert(tok(t0, 0) == sign(Kind::Kv) && tok(t0, 1) == sign(Kind::SetKw) && tok(t0, 2) == TokenView::StringLit(k) && tok(t0, 3) == TokenView::StringLit(v) && tok(t0, 4) == sign(Kind::Eof));
    let s0 = StatementView::KvSet(k, v);
    assert(g_statement(t0, 0) == Read::Got(s0, 4));
    assert(g_set_ops(t0, 4, s0) == Read::Got(s0, 4));
    let t1 = seq![sign(Kind::Kv), sign(Kind::Delete), TokenView::StringLit(k)];
    assert(t1.len() == 3);
    assert(tok(t1, 0) == sign(Kind::Kv) && tok(t1, 1) == sign(Kind::Delete) && tok(t1, 2) == TokenView::StringLit(k) && tok(t1, 3) == sign(Kind::Eof));
    let s1 = StatementView::KvDelete(k);
    assert(g_statement(t1, 0) == Read::Got(s1, 3));
    assert(g_set_ops(t1, 3, s1) == Read::Got(s1, 3));
}

/// BEGIN, COMMIT and ROLLBACK.
pub proof fn law_transaction_words()
    ensures
        g_parse(seq![sign(Kind::Begin)], 0) == Read::Got(StatementView::Begin(None), 1),
        g_parse(seq![sign(Kind::Begin), sign(Kind::Serializable)], 0) == Read::Got(StatementView::Begin(Some(IsolationLevel::Serializable)), 2),
        g_parse(seq![sign(Kind::Commit)], 0) == Read::Got(StatementView::Commit, 1),
        g_parse(seq![sign(Kind::Rollback)], 0) == Read::Got(StatementView::Rollback, 1),
{
    let t0 = seq![sign(Kind::Begin)];
    assert(t0.len() == 1);
    assert(tok(t0, 0) == sign(Kind::Begin) && tok(t0, 1) == sign(Kind::Eof));
    let s0 = StatementView::Begin(None);
    assert(g_statement(t0, 0) == Read::Got(s0, 1));
    assert(g_set_ops(t0, 1, s0) == Read::Got(s0, 1));
    let t1 = seq![sign(Kind::Begin), sign(Kind::Serializable)];
    assert(t1.len() == 2);
    assert(tok(t1, 0) == sign(Kind::Begin) && tok(t1, 1) == sign(Kind::Serializable) && tok(t1, 2) == sign(Kind::Eof));
    let s1 = StatementView::Begin(Some(IsolationLevel::Serializable));
    assert(g_statement(t1, 0) == Read::Got(s1, 2));
    assert(g_set_ops(t1, 2, s1) == Read::Got(s1, 2));
    let t2 = seq![sign(Kind::Commit)];
    assert(t2.len() == 1);
    assert(tok(t2, 0) == sign(Kind::Commit) && tok(t2, 1) == sign(Kind::Eof));
    let s2 = StatementView::Commit;
    assert(g_statement(t2, 0) == Read::Got(s2, 1));
    assert(g_set_ops(t2, 1, s2) == Read::Got(s2, 1));
    let t3 = seq![sign(Kind::Rollback)];
    assert(t3.len() == 1);
    assert(tok(t3, 0) == sign(Kind::Rollback) && tok(t3, 1) == sign(Kind::Eof));
    let s3 = StatementView::Rollback;
    assert(g_statement(t3, 0) == Read::Got(s3, 1));
    assert(g_set_ops(t3, 1, s3) == Read::Got(s3, 1));
}

/// SHOW of the tables, of the columns of a table, and of how it was made.
pub proof fn law_show_words(x: Seq<char>)
    ensures
        g_parse(seq![sign(Kind::Show), sign(Kind::Tables)], 0) == Read::Got(StatementView::ShowTables, 2),
        g_parse(seq![sign(Kind::Show), sign(Kind::Columns), sign(Kind::From), word(x)], 0) == Read::Got(StatementView::ShowColumns(x), 4),
        g_parse(seq![sign(Kind::Show), sign(Kind::Create), sign(Kind::Table), word(x)], 0) == Read::Got(StatementView::ShowCreateTable(x), 4),
{
    let t0 = seq![sign(Kind::Show), sign(Kind::Tables)];
    assert(t0.len() == 2);
    assert(tok(t0, 0) == sign(Kind::Show) && tok(t0, 1) == sign(Kind::Tables) && tok(t0, 2) == sign(Kind::Eof));
    let s0 = StatementView::ShowTables;
    assert(g_statement(t0, 0) == Read::Got(s0, 2));
    assert(g_set_ops(t0, 2, s0) == Read::Got(s0, 2));
    let t1 = seq![sign(Kind::Show), sign(Kind::Columns), sign(Kind::From), word(x)];
    assert(t1.len() == 4);
    assert(tok(t1, 0) == sign(Kind::Show) && tok(t1, 1) == sign(Kind::Columns) && tok(t1, 2) == sign(Kind::From) && tok(t1, 3) == word(x) && tok(t1, 4) == sign(Kind::Eof));
    let s1 = StatementView::ShowColumns(x);
    assert(g_statement(t1, 0) == Read::Got(s1, 4));
    assert(g_set_ops(t1, 4, s1) == Read::Got(s1, 4));
    let t2 = seq![sign(Kind::Show), sign(Kind::Create), sign(Kind::Table), word(x)];
    assert(t2.len() == 4);
    assert(tok(t2, 0) == sign(Kind::Show) && tok(t2, 1) == sign(Kind::Create) && tok(t2, 2) == sign(Kind::Table) && tok(t2, 3) == word(x) && tok(t2, 4) == sign(Kind::Eof));
    let s2 = StatementView::ShowCreateTable(x);
    assert(g_statement(t2, 0) == Read::Got(s2, 4));
    assert(g_set_ops(t2, 4, s2) == Read::Got(s2, 4));
}

/// TRUNCATE of a table, and the databases that are made and used.
pub proof fn law_table_and_database_words(x: Seq<char>)
    ensures
        g_parse(seq![sign(Kind::Truncate), sign(Kind::Table), word(x)], 0) == Read::Got(StatementView::Truncate(x), 3),
        g_parse(seq![sign(Kind::Use), word(x)], 0) == Read::Got(StatementView::UseDatabase(x), 2),
        g_parse(seq![sign(Kind::Create), sign(Kind::Database), sign(Kind::If), sign(Kind::Not), sign(Kind::Exists), word(x)], 0) == Read::Got(StatementView::CreateDatabase { name: x, if_not_exists: true }, 6),
{
    let t0 = seq![sign(Kind::Truncate), sign(Kind::Table), word(x)];
    assert(t0.len() == 3);
    assert(tok(t0, 0) == sign(Kind::Truncate) && tok(t0, 1) == sign(Kind::Table) && tok(t0, 2) == word(x) && tok(t0, 3) == sign(Kind::Eof));
    let s0 = StatementView::Truncate(x);
    assert(g_statement(t0, 0) == Read::Got(s0, 3));
    assert(g_set_ops(t0, 3, s0) == Read::Got(s0, 3));
    let t1 = seq![sign(Kind::Use), word(x)];
    assert(t1.len() == 2);
    assert(tok(t1, 0) == sign(Kind::Use) && tok(t1, 1) == word(x) && tok(t1, 2) == sign(Kind::Eof));
    let s1 = StatementView::UseDatabase(x);
    assert(g_statement(t1, 0) == Read::Got(s1, 2));
    assert(g_set_ops(t1, 2, s1) == Read::Got(s1, 2));
    let t2 = seq![sign(Kind::Create), sign(Kind::Database), sign(Kind::If), sign(Kind::Not), sign(Kind::Exists), word(x)];
    assert(t2.len() == 6);
    assert(tok(t2, 0) == sign(Kind::Create) && tok(t2, 1) == sign(Kind::Database) && tok(t2, 2) == sign(Kind::If) && tok(t2, 3) == sign(Kind::Not) && tok(t2, 4) == sign(Kind::Exists) && tok(t2, 5) == word(x) && tok(t2, 6) == sign(Kind::Eof));
    let s2 = StatementView::CreateDatabase { name: x, if_not_exists: true };
    assert(g_statement(t2, 0) == Read::Got(s2, 6));
    assert(g_set_ops(t2, 6, s2) == Read::Got(s2, 6));
}

/// BACKUP and RESTORE, with the place in the log up to which is restored.
pub proof fn law_backup_words(p: Seq<char>, n: i64)
    requires
        0 <= n,
    ensures
        g_parse(seq![sign(Kind::Backup), sign(Kind::To), TokenView::StringLit(p)], 0) == Read::Got(StatementView::Backup { path: p }, 3),
        g_parse(seq![sign(Kind::Restore), sign(Kind::From), TokenView::StringLit(p)], 0) == Read::Got(StatementView::Restore { path: p, to_lsn: None }, 3),
        g_parse(seq![sign(Kind::Restore), sign(Kind::From), TokenView::StringLit(p), sign(Kind::To), sign(Kind::Lsn), TokenView::IntLit(n)], 0) == Read::Got(StatementView::Restore { path: p, to_lsn: Some(n as u64) }, 6),
{
    let t0 = seq![sign(Kind::Backup), sign(Kind::To), TokenView::StringLit(p)];
    assert(t0.len() == 3);
    assert(tok(t0, 0) == sign(Kind::Backup) && tok(t0, 1) == sign(Kind::To) && tok(t0, 2) == TokenView::StringLit(p) && tok(t0, 3) == sign(Kind::Eof));
    let s0 = StatementView::Backup { path: p };
    assert(g_statement(t0, 0) == Read::Got(s0, 3));
    assert(g_set_ops(t0, 3, s0) == Read::Got(s0, 3));
    let t1 = seq![sign(Kind::Restore), sign(Kind::From), TokenView::StringLit(p)];
    assert(t1.len() == 3);
    assert(tok(t1, 0) == sign(Kind::Restore) && tok(t1, 1) == sign(Kind::From) && tok(t1, 2) == TokenView::StringLit(p) && tok(t1, 3) == sign(Kind::Eof));
    let s1 = StatementView::Restore { path: p, to_lsn: None };
    assert(g_statement(t1, 0) == Read::Got(s1, 3));
    assert(g_set_ops(t1, 3, s1) == Read::Got(s1, 3));
    let t2 = seq![sign(Kind::Restore), sign(Kind::From), TokenView::StringLit(p), sign(Kind::To), sign(Kind::Lsn), TokenView::IntLit(n)];
    assert(t2.len() == 6);
    assert(tok(t2, 0) == sign(Kind::Restore) && tok(t2, 1) == sign(Kind::From) && tok(t2, 2) == TokenView::StringLit(p) && tok(t2, 3) == sign(Kind::To) && tok(t2, 4) == sign(Kind::Lsn) && tok(t2, 5) == TokenView::IntLit(n) && tok(t2, 6) == sign(Kind::Eof));
    let s2 = StatementView::Restore { path: p, to_lsn: Some(n as u64) };
    assert(g_statement(t2, 0) == Read::Got(s2, 6));
    assert(g_set_ops(t2, 6, s2) == Read::Got(s2, 6));
}

/// DOC FIND and DOC DELETE: the collection, and what the documents are told by.
pub proof fn law_doc_words(c: Seq<char>, f: Seq<char>)
    ensures
        g_parse(seq![sign(Kind::Doc), sign(Kind::Find), sign(Kind::In), word(c), sign(Kind::Where), word(f)], 0) == Read::Got(StatementView::DocFind(DocFindStmtView { collection: c, filter: Some(column(f)) }), 6),
        g_parse(seq![sign(Kind::Doc), sign(Kind::Delete), sign(Kind::From), word(c), sign(Kind::Where), word(f)], 0) == Read::Got(StatementView::DocDelete(DocDeleteStmtView { collection: c, filter: Some(column(f)) }), 6),
{
    let t0 = seq![sign(Kind::Doc), sign(Kind::Find), sign(Kind::In), word(c), sign(Kind::Where), word(f)];
    assert(t0.len() == 6);
    assert(tok(t0, 0) == sign(Kind::Doc) && tok(t0, 1) == sign(Kind::Find) && tok(t0, 2) == sign(Kind::In) && tok(t0, 3) == word(c) && tok(t0, 4) == sign(Kind::Where) && tok(t0, 5) == word(f) && tok(t0, 6) == sign(Kind::Eof));
    lemma_name_expr(t0, 5, f);
    assert(g_opt_where(t0, 4) == Read::Got(Some(column(f)), 6));
    let s0 = StatementView::DocFind(DocFindStmtView { collection: c, filter: Some(column(f)) });
    assert(g_statement(t0, 0) == Read::Got(s0, 6));
    assert(g_set_ops(t0, 6, s0) == Read::Got(s0, 6));
    let t1 = seq![sign(Kind::Doc), sign(Kind::Delete), sign(Kind::From), word(c), sign(Kind::Where), word(f)];
    assert(t1.len() == 6);
    assert(tok(t1, 0) == sign(Kind::Doc) && tok(t1, 1) == sign(Kind::Delete) && tok(t1, 2) == sign(Kind::From) && tok(t1, 3) == word(c) && tok(t1, 4) == sign(Kind::Where) && tok(t1, 5) == word(f) && tok(t1, 6) == sign(Kind::Eof));
    lemma_name_expr(t1, 5, f);
    assert(g_opt_where(t1, 4) == Read::Got(Some(column(f)), 6));
    let s1 = StatementView::DocDelete(DocDeleteStmtView { collection: c, filter: Some(column(f)) });
    assert(g_statement(t1, 0) == Read::Got(s1, 6));
    assert(g_set_ops(t1, 6, s1) == Read::Got(s1, 6));
}

/// DOC UPDATE: the collection, what the documents are told by, and what is set in them.
pub proof fn law_doc_update_words(c: Seq<char>, f: Seq<char>, a: Seq<char>, x: Seq<char>)
    ensures
        g_parse(seq![sign(Kind::Doc), sign(Kind::Update), sign(Kind::In), word(c), sign(Kind::Where), word(f), sign(Kind::SetKw), sign(Kind::DollarDot), word(a), sign(Kind::Eq), word(x)], 0) == Read::Got(StatementView::DocUpdate(DocUpdateStmtView { collection: c, filter: Some(column(f)), updates: seq![(a, column(x))] }), 11),
{
    let t0 = seq![sign(Kind::Doc), sign(Kind::Update), sign(Kind::In), word(c), sign(Kind::Where), word(f), sign(Kind::SetKw), sign(Kind::DollarDot), word(a), sign(Kind::Eq), word(x)];
    assert(t0.len() == 11);
    assert(tok(t0, 0) == sign(Kind::Doc) && tok(t0, 1) == sign(Kind::Update) && tok(t0, 2) == sign(Kind::In) && tok(t0, 3) == word(c) && tok(t0, 4) == sign(Kind::Where) && tok(t0, 5) == word(f) && tok(t0, 6) == sign(Kind::SetKw) && tok(t0, 7) == sign(Kind::DollarDot) && tok(t0, 8) == word(a) && tok(t0, 9) == sign(Kind::Eq) && tok(t0, 10) == word(x) && tok(t0, 11) == sign(Kind::Eof));
    lemma_name_expr(t0, 5, f);
    lemma_name_expr(t0, 10, x);
    assert(g_opt_where(t0, 4) == Read::Got(Some(column(f)), 6));
    assert(Seq::<(Seq<char>, ExprView)>::empty().push((a, column(x))) =~= seq![(a, column(x))]);
    assert(g_assignment(t0, 7, true) == Read::Got((a, column(x)), 11));
    assert(g_assignments(t0, 7, true, Seq::empty()) == Read::Got(seq![(a, column(x))], 11));
    assert(g_doc_update(t0, 2) == Read::Got(StatementView::DocUpdate(DocUpdateStmtView { collection: c, filter: Some(column(f)), updates: seq![(a, column(x))] }), 11));
    let s0 = StatementView::DocUpdate(DocUpdateStmtView { collection: c, filter: Some(column(f)), updates: seq![(a, column(x))] });
    assert(g_statement(t0, 0) == Read::Got(s0, 11));
    assert(g_set_ops(t0, 11, s0) == Read::Got(s0, 11));
}

/// EXPLAIN of a statement holds the statement; ANALYZE is kept.
pub proof fn law_explain_words(rest: Seq<TokenView>, s: StatementView, e: int)
    requires
        g_statement(seq![sign(Kind::Explain)] + rest, 1) == Read::Got(s, e),
        rest.len() > 0,
        rest[0] != sign(Kind::Analyze),
    ensures
        g_statement(seq![sign(Kind::Explain)] + rest, 0) == Read::Got(StatementView::Explain(Box::new(s), false), e),
{
    let t = seq![sign(Kind::Explain)] + rest;
    assert(tok(t, 0) == sign(Kind::Explain));
    assert(tok(t, 1) == rest[0]);
    assert(super::grammar::g_explain(t, 1) == Read::Got(StatementView::Explain(Box::new(s), false), e));
}

} // verus!
