use vstd::prelude::*;
use super::ast::{ConflictActionView, DeleteStmtView, ExprView, FromClauseView, InsertSourceView, InsertStmtView, JoinClauseView, JoinType, OnConflictView, OrderByExprView, SelectColumnView, StatementView, UpdateStmtView};
use super::grammar::{Read, ahead, g_args, g_assignment, g_assignments, g_atom, g_call, g_call_args, g_case, g_case_end, g_case_rest, g_casts, g_column_alias, g_column_list, g_columns, g_compare, g_comparison, g_comparison_rest, g_composed, g_conflict_action, g_delete, g_else, g_expr, g_exprs, g_from, g_having_order, g_in, g_insert, g_join, g_joins, g_keyword_atom, g_limit_offset, g_name_group, g_named, g_names, g_nulls, g_on_conflict, g_opt_group, g_opt_having, g_opt_order, g_opt_where, g_orders, g_parse, g_partition, g_primary, g_returning, g_select, g_select_head, g_set_ops, g_statement, g_unary, g_update, g_value_rows, g_whens, g_where_group, g_window, tok};
use super::grammar_laws::{closes, column, lemma_and1, lemma_name, lemma_or1, lemma_product1, lemma_sum1, lemma_sum_up, sign, word};
use super::token::{Kind, TokenView};

verus! {

/// A name that nothing goes on behind is a column.
pub proof fn lemma_name_expr(t: Seq<TokenView>, p: int, x: Seq<char>)
    requires
        0 <= p < t.len(),
        tok(t, p) == word(x),
        closes(tok(t, p + 1)),
    ensures
        g_expr(t, p) == Read::Got(column(x), p + 1),
{
    lemma_name(t, p, x);
    lemma_product1(t, p, column(x), p + 1);
    lemma_sum1(t, p, column(x), p + 1);
    lemma_sum_up(t, p, column(x), p + 1);
}

/// A SELECT with each of its clauses: each clause holds what stands behind its own word.
#[verifier::spinoff_prover]
pub proof fn law_select_clauses(x: Seq<char>, tb: Seq<char>, w: Seq<char>, g: Seq<char>, h: Seq<char>, o: Seq<char>, n: i64, m: i64)
    requires
        0 <= n <= usize::MAX,
        0 <= m <= usize::MAX,
    ensures
        g_select(seq![word(x), sign(Kind::From), word(tb), sign(Kind::Where), word(w), sign(Kind::Group), sign(Kind::By), word(g), sign(Kind::Having), word(h), sign(Kind::Order), sign(Kind::By), word(o), sign(Kind::Desc), sign(Kind::Limit), TokenView::IntLit(n), sign(Kind::Offset), TokenView::IntLit(m)], 0) matches Read::Got(s, e) && {
            &&& e == 18
            &&& s.columns == seq![SelectColumnView::Expr(column(x), None::<Seq<char>>)]
            &&& !s.distinct
            &&& s.from == FromClauseView::Table(tb)
            &&& s.from_alias == None::<Seq<char>>
            &&& s.joins.len() == 0
            &&& s.where_clause == Some(column(w))
            &&& s.group_by == seq![column(g)]
            &&& s.having == Some(column(h))
            &&& s.order_by == seq![OrderByExprView { expr: column(o), ascending: false, nulls_first: None::<bool> }]
            &&& s.limit matches Some(l) && l == n
            &&& s.offset matches Some(k) && k == m
            &&& s.ctes.len() == 0
        },
{
    let t = seq![word(x), sign(Kind::From), word(tb), sign(Kind::Where), word(w), sign(Kind::Group), sign(Kind::By), word(g), sign(Kind::Having), word(h), sign(Kind::Order), sign(Kind::By), word(o), sign(Kind::Desc), sign(Kind::Limit), TokenView::IntLit(n), sign(Kind::Offset), TokenView::IntLit(m)];
    assert(t.len() == 18);
    assert(tok(t, 0) == word(x) && tok(t, 1) == sign(Kind::From) && tok(t, 2) == word(tb) && tok(t, 3) == sign(Kind::Where) && tok(t, 4) == word(w) && tok(t, 5) == sign(Kind::Group) && tok(t, 6) == sign(Kind::By) && tok(t, 7) == word(g) && tok(t, 8) == sign(Kind::Having) && tok(t, 9) == word(h) && tok(t, 10) == sign(Kind::Order) && tok(t, 11) == sign(Kind::By) && tok(t, 12) == word(o) && tok(t, 13) == sign(Kind::Desc) && tok(t, 14) == sign(Kind::Limit) && tok(t, 15) == TokenView::IntLit(n) && tok(t, 16) == sign(Kind::Offset) && tok(t, 17) == TokenView::IntLit(m) && tok(t, 18) == sign(Kind::Eof));
    lemma_name_expr(t, 0, x);
    lemma_name_expr(t, 4, w);
    lemma_name_expr(t, 7, g);
    lemma_name_expr(t, 9, h);
    lemma_name_expr(t, 12, o);
    let cols = seq![SelectColumnView::Expr(column(x), None::<Seq<char>>)];
    assert(Seq::<SelectColumnView>::empty().push(SelectColumnView::Expr(column(x), None::<Seq<char>>)) =~= cols);
    assert(g_column_list(t, 0, Seq::empty()) == Read::Got(cols, 1));
    assert(g_columns(t, 0) == Read::Got(cols, 1));
    assert(g_from(t, 1) == Read::Got((FromClauseView::Table(tb), None::<Seq<char>>), 3));
    assert(g_joins(t, 3, Seq::empty()) == Read::Got(Seq::<JoinClauseView>::empty(), 3));
    assert(g_select_head(t, 0, false) matches Read::Got(s, e) && e == 3 && s.columns == cols);
    assert(g_opt_where(t, 3) == Read::Got(Some(column(w)), 5));
    assert(Seq::<ExprView>::empty().push(column(g)) =~= seq![column(g)]);
    assert(g_exprs(t, 7, Seq::empty()) == Read::Got(seq![column(g)], 8));
    assert(g_opt_group(t, 5) == Read::Got(seq![column(g)], 8));
    assert(g_where_group(t, 3) == Read::Got((Some(column(w)), seq![column(g)]), 8));
    assert(g_opt_having(t, 8) == Read::Got(Some(column(h)), 10));
    let key = OrderByExprView { expr: column(o), ascending: false, nulls_first: None::<bool> };
    assert(Seq::<OrderByExprView>::empty().push(key) =~= seq![key]);
    assert(g_nulls(t, 14) == Read::Got(None::<bool>, 14));
    assert(g_orders(t, 12, Seq::empty()) == Read::Got(seq![key], 14));
    assert(g_opt_order(t, 10) == Read::Got(seq![key], 14));
    assert(g_having_order(t, 8) == Read::Got((Some(column(h)), seq![key]), 14));
    assert(g_limit_offset(t, 14) == Read::Got((Some(n as usize), Some(m as usize)), 18));
}

/// DISTINCT, the aliases of columns and tables, and a select list of two columns in the order in
/// which they stand.
#[verifier::spinoff_prover]
pub proof fn law_select_list_parts(x: Seq<char>, a: Seq<char>, y: Seq<char>, tb: Seq<char>, b: Seq<char>)
    ensures
        g_select(seq![sign(Kind::Distinct), word(x), sign(Kind::As), word(a), sign(Kind::Comma), word(y), sign(Kind::From), word(tb), word(b)], 0) matches Read::Got(s, e) && {
            &&& e == 9
            &&& s.distinct
            &&& s.columns == seq![SelectColumnView::Expr(column(x), Some(a)), SelectColumnView::Expr(column(y), None::<Seq<char>>)]
            &&& s.from == FromClauseView::Table(tb)
            &&& s.from_alias == Some(b)
            &&& s.joins.len() == 0
            &&& s.where_clause is None && s.having is None && s.group_by.len() == 0 && s.order_by.len() == 0
            &&& s.limit is None && s.offset is None
        },
{
    let t = seq![sign(Kind::Distinct), word(x), sign(Kind::As), word(a), sign(Kind::Comma), word(y), sign(Kind::From), word(tb), word(b)];
    assert(t.len() == 9);
    assert(tok(t, 0) == sign(Kind::Distinct) && tok(t, 1) == word(x) && tok(t, 2) == sign(Kind::As) && tok(t, 3) == word(a) && tok(t, 4) == sign(Kind::Comma) && tok(t, 5) == word(y) && tok(t, 6) == sign(Kind::From) && tok(t, 7) == word(tb) && tok(t, 8) == word(b) && tok(t, 9) == sign(Kind::Eof));
    lemma_name_expr(t, 1, x);
    lemma_name_expr(t, 5, y);
    let first = SelectColumnView::Expr(column(x), Some(a));
    let second = SelectColumnView::Expr(column(y), None::<Seq<char>>);
    let none = Seq::<SelectColumnView>::empty();
    assert(none.push(first).push(second) =~= seq![first, second]);
    assert(g_column_alias(t, 2) == Read::Got(Some(a), 4));
    assert(g_column_alias(t, 6) == Read::Got(None::<Seq<char>>, 6));
    assert(g_column_list(t, 5, none.push(first)) == Read::Got(none.push(first).push(second), 6));
    assert(g_column_list(t, 1, none) == Read::Got(none.push(first).push(second), 6));
    assert(g_columns(t, 1) == Read::Got(seq![first, second], 6));
    assert(g_from(t, 6) == Read::Got((FromClauseView::Table(tb), Some(b)), 9));
    assert(g_joins(t, 9, Seq::empty()) == Read::Got(Seq::<JoinClauseView>::empty(), 9));
    assert(g_select_head(t, 1, true) matches Read::Got(s, e) && e == 9);
    assert(g_opt_where(t, 9) == Read::Got(None::<ExprView>, 9));
    assert(g_opt_group(t, 9) == Read::Got(Seq::<ExprView>::empty(), 9));
    assert(g_where_group(t, 9) == Read::Got((None::<ExprView>, Seq::<ExprView>::empty()), 9));
    assert(g_opt_having(t, 9) == Read::Got(None::<ExprView>, 9));
    assert(g_opt_order(t, 9) == Read::Got(Seq::<OrderByExprView>::empty(), 9));
    assert(g_having_order(t, 9) == Read::Got((None::<ExprView>, Seq::<OrderByExprView>::empty()), 9));
    assert(g_limit_offset(t, 9) == Read::Got((None::<usize>, None::<usize>), 9));
}

/// `SELECT * FROM t`.
pub proof fn law_select_star_parts(tb: Seq<char>)
    ensures
        g_select(seq![sign(Kind::Star), sign(Kind::From), word(tb)], 0) matches Read::Got(s, e) && e == 3 && s.columns == seq![SelectColumnView::Star] && !s.distinct && s.from
            == FromClauseView::Table(tb) && s.from_alias is None,
{
    let t = seq![sign(Kind::Star), sign(Kind::From), word(tb)];
    assert(t.len() == 3);
    assert(tok(t, 0) == sign(Kind::Star) && tok(t, 1) == sign(Kind::From) && tok(t, 2) == word(tb) && tok(t, 3) == sign(Kind::Eof));
    assert(g_columns(t, 0) == Read::Got(seq![SelectColumnView::Star], 1));
    assert(g_from(t, 1) == Read::Got((FromClauseView::Table(tb), None::<Seq<char>>), 3));
    assert(g_joins(t, 3, Seq::empty()) == Read::Got(Seq::<JoinClauseView>::empty(), 3));
    assert(g_select_head(t, 0, false) matches Read::Got(s, e) && e == 3);
    assert(g_opt_where(t, 3) == Read::Got(None::<ExprView>, 3));
    assert(g_opt_group(t, 3) == Read::Got(Seq::<ExprView>::empty(), 3));
    assert(g_where_group(t, 3) == Read::Got((None::<ExprView>, Seq::<ExprView>::empty()), 3));
    assert(g_opt_having(t, 3) == Read::Got(None::<ExprView>, 3));
    assert(g_opt_order(t, 3) == Read::Got(Seq::<OrderByExprView>::empty(), 3));
    assert(g_having_order(t, 3) == Read::Got((None::<ExprView>, Seq::<OrderByExprView>::empty()), 3));
    assert(g_limit_offset(t, 3) == Read::Got((None::<usize>, None::<usize>), 3));
}

/// Which join the words that open it stand for.
pub open spec fn joins_as(k: Kind, j: JoinType) -> bool {
    ||| k == Kind::Inner && j == JoinType::Inner
    ||| k == Kind::Left && j == JoinType::Left
    ||| k == Kind::Right && j == JoinType::Right
}

/// INNER, LEFT and RIGHT JOIN, with the table's alias and the condition.
pub proof fn law_join_words(k: Kind, j: JoinType, u: Seq<char>, a: Seq<char>, c: Seq<char>)
    requires
        joins_as(k, j),
    ensures
        g_joins(seq![sign(k), sign(Kind::Join), word(u), word(a), sign(Kind::On), word(c)], 0, Seq::empty()) == Read::Got(
            seq![JoinClauseView { join_type: j, table: u, alias: Some(a), condition: column(c) }],
            6,
        ),
{
    let t = seq![sign(k), sign(Kind::Join), word(u), word(a), sign(Kind::On), word(c)];
    assert(t.len() == 6);
    assert(tok(t, 0) == sign(k) && tok(t, 1) == sign(Kind::Join) && tok(t, 2) == word(u) && tok(t, 3) == word(a) && tok(t, 4) == sign(Kind::On) && tok(t, 5) == word(c) && tok(t, 6) == sign(Kind::Eof));
    lemma_name_expr(t, 5, c);
    let join = JoinClauseView { join_type: j, table: u, alias: Some(a), condition: column(c) };
    assert(Seq::<JoinClauseView>::empty().push(join) =~= seq![join]);
    assert(g_join(t, 0) == Read::Got(join, 6));
    assert(g_joins(t, 6, seq![join]) == Read::Got(seq![join], 6));
}

/// JOIN alone is an inner join.
pub proof fn law_join_alone(u: Seq<char>, c: Seq<char>)
    ensures
        g_joins(seq![sign(Kind::Join), word(u), sign(Kind::On), word(c)], 0, Seq::empty()) == Read::Got(
            seq![JoinClauseView { join_type: JoinType::Inner, table: u, alias: None, condition: column(c) }],
            4,
        ),
{
    let t = seq![sign(Kind::Join), word(u), sign(Kind::On), word(c)];
    assert(t.len() == 4);
    assert(tok(t, 0) == sign(Kind::Join) && tok(t, 1) == word(u) && tok(t, 2) == sign(Kind::On) && tok(t, 3) == word(c) && tok(t, 4) == sign(Kind::Eof));
    lemma_name_expr(t, 3, c);
    let join = JoinClauseView { join_type: JoinType::Inner, table: u, alias: None, condition: column(c) };
    assert(Seq::<JoinClauseView>::empty().push(join) =~= seq![join]);
    assert(g_join(t, 0) == Read::Got(join, 4));
    assert(g_joins(t, 4, seq![join]) == Read::Got(seq![join], 4));
}

/// The sort keys in the order in which they stand, each with its direction and the place of its
/// nulls; a key without a word behind it is ascending.
pub proof fn law_order_by_parts(a: Seq<char>, b: Seq<char>, c: Seq<char>)
    ensures
        g_opt_order(seq![sign(Kind::Order), sign(Kind::By), word(a), sign(Kind::Desc), sign(Kind::Nulls), sign(Kind::First), sign(Kind::Comma), word(b), sign(Kind::Asc), sign(Kind::Nulls), sign(Kind::Last), sign(Kind::Comma), word(c)], 0) == Read::Got(
            seq![
                OrderByExprView { expr: column(a), ascending: false, nulls_first: Some(true) },
                OrderByExprView { expr: column(b), ascending: true, nulls_first: Some(false) },
                OrderByExprView { expr: column(c), ascending: true, nulls_first: None },
            ],
            13,
        ),
{
    let t = seq![sign(Kind::Order), sign(Kind::By), word(a), sign(Kind::Desc), sign(Kind::Nulls), sign(Kind::First), sign(Kind::Comma), word(b), sign(Kind::Asc), sign(Kind::Nulls), sign(Kind::Last), sign(Kind::Comma), word(c)];
    assert(t.len() == 13);
    assert(tok(t, 0) == sign(Kind::Order) && tok(t, 1) == sign(Kind::By) && tok(t, 2) == word(a) && tok(t, 3) == sign(Kind::Desc) && tok(t, 4) == sign(Kind::Nulls) && tok(t, 5) == sign(Kind::First) && tok(t, 6) == sign(Kind::Comma) && tok(t, 7) == word(b) && tok(t, 8) == sign(Kind::Asc) && tok(t, 9) == sign(Kind::Nulls) && tok(t, 10) == sign(Kind::Last) && tok(t, 11) == sign(Kind::Comma) && tok(t, 12) == word(c) && tok(t, 13) == sign(Kind::Eof));
    lemma_name_expr(t, 2, a);
    lemma_name_expr(t, 7, b);
    lemma_name_expr(t, 12, c);
    let first = OrderByExprView { expr: column(a), ascending: false, nulls_first: Some(true) };
    let second = OrderByExprView { expr: column(b), ascending: true, nulls_first: Some(false) };
    let third = OrderByExprView { expr: column(c), ascending: true, nulls_first: None };
    let none = Seq::<OrderByExprView>::empty();
    assert(none.push(first).push(second).push(third) =~= seq![first, second, third]);
    assert(g_nulls(t, 4) == Read::Got(Some(true), 6));
    assert(g_nulls(t, 9) == Read::Got(Some(false), 11));
    assert(g_nulls(t, 13) == Read::Got(None::<bool>, 13));
    assert(g_orders(t, 12, none.push(first).push(second)) == Read::Got(seq![first, second, third], 13));
    assert(g_orders(t, 7, none.push(first)) == Read::Got(seq![first, second, third], 13));
    assert(g_orders(t, 2, none) == Read::Got(seq![first, second, third], 13));
}

/// An operand that nothing goes on behind is the whole expression.
proof fn lemma_atom_up(t: Seq<TokenView>, p: int, e: ExprView, q: int)
    requires
        0 <= p,
        g_atom(t, p) == Read::Got(e, q),
        ahead(t, p, q),
        closes(tok(t, q)),
        tok(t, p) != sign(Kind::Minus),
        tok(t, p) != sign(Kind::Not),
    ensures
        g_expr(t, p) == Read::Got(e, q),
{
    assert(g_casts(t, q, e) == Read::Got(e, q));
    assert(g_primary(t, p) == Read::Got(e, q));
    assert(g_unary(t, p) == Read::Got(e, q));
    lemma_product1(t, p, e, q);
    lemma_sum1(t, p, e, q);
    lemma_sum_up(t, p, e, q);
}

/// A CASE with an operand: the operand, the pairs of WHEN and THEN in the order in which they stand,
/// and the ELSE.
#[verifier::spinoff_prover]
pub proof fn law_case_parts(o: Seq<char>, a: Seq<char>, b: Seq<char>, c: Seq<char>, d: Seq<char>, z: Seq<char>)
    ensures
        g_expr(seq![sign(Kind::Case), word(o), sign(Kind::When), word(a), sign(Kind::Then), word(b), sign(Kind::When), word(c), sign(Kind::Then), word(d), sign(Kind::Else), word(z), sign(Kind::End)], 0) == Read::Got(
            ExprView::Case {
                operand: Some(Box::new(column(o))),
                when_clauses: seq![(column(a), column(b)), (column(c), column(d))],
                else_result: Some(Box::new(column(z))),
            },
            13,
        ),
{
    let t = seq![sign(Kind::Case), word(o), sign(Kind::When), word(a), sign(Kind::Then), word(b), sign(Kind::When), word(c), sign(Kind::Then), word(d), sign(Kind::Else), word(z), sign(Kind::End)];
    assert(t.len() == 13);
    assert(tok(t, 0) == sign(Kind::Case) && tok(t, 1) == word(o) && tok(t, 2) == sign(Kind::When) && tok(t, 3) == word(a) && tok(t, 4) == sign(Kind::Then) && tok(t, 5) == word(b) && tok(t, 6) == sign(Kind::When) && tok(t, 7) == word(c) && tok(t, 8) == sign(Kind::Then) && tok(t, 9) == word(d) && tok(t, 10) == sign(Kind::Else) && tok(t, 11) == word(z) && tok(t, 12) == sign(Kind::End) && tok(t, 13) == sign(Kind::Eof));
    lemma_name_expr(t, 1, o);
    lemma_name_expr(t, 3, a);
    lemma_name_expr(t, 5, b);
    lemma_name_expr(t, 7, c);
    lemma_name_expr(t, 9, d);
    lemma_name_expr(t, 11, z);
    let whens = seq![(column(a), column(b)), (column(c), column(d))];
    let none = Seq::<(ExprView, ExprView)>::empty();
    assert(none.push((column(a), column(b))).push((column(c), column(d))) =~= whens);
    let e = ExprView::Case { operand: Some(Box::new(column(o))), when_clauses: whens, else_result: Some(Box::new(column(z))) };
    assert(g_whens(t, 10, whens) == Read::Got(whens, 10));
    assert(g_whens(t, 6, none.push((column(a), column(b)))) == Read::Got(whens, 10));
    assert(g_whens(t, 2, none) == Read::Got(whens, 10));
    assert(g_else(t, 10) == Read::Got(Some(Box::new(column(z))), 12));
    assert(g_case_end(t, 10, Some(Box::new(column(o))), whens) == Read::Got(e, 13));
    assert(g_case_rest(t, 2, Some(Box::new(column(o)))) == Read::Got(e, 13));
    assert(g_case(t, 1) == Read::Got(e, 13));
    assert(g_composed(t, 1, Kind::Case) == Read::Got(e, 13));
    assert(g_keyword_atom(t, 0, Kind::Case) == Read::Got(e, 13));
    assert(g_atom(t, 0) == Read::Got(e, 13));
    lemma_atom_up(t, 0, e, 13);
}

/// A CASE without an operand and without an ELSE.
pub proof fn law_searched_case_parts(a: Seq<char>, b: Seq<char>)
    ensures
        g_expr(seq![sign(Kind::Case), sign(Kind::When), word(a), sign(Kind::Then), word(b), sign(Kind::End)], 0) == Read::Got(
            ExprView::Case { operand: None, when_clauses: seq![(column(a), column(b))], else_result: None },
            6,
        ),
{
    let t = seq![sign(Kind::Case), sign(Kind::When), word(a), sign(Kind::Then), word(b), sign(Kind::End)];
    assert(t.len() == 6);
    assert(tok(t, 0) == sign(Kind::Case) && tok(t, 1) == sign(Kind::When) && tok(t, 2) == word(a) && tok(t, 3) == sign(Kind::Then) && tok(t, 4) == word(b) && tok(t, 5) == sign(Kind::End) && tok(t, 6) == sign(Kind::Eof));
    lemma_name_expr(t, 2, a);
    lemma_name_expr(t, 4, b);
    let whens = seq![(column(a), column(b))];
    assert(Seq::<(ExprView, ExprView)>::empty().push((column(a), column(b))) =~= whens);
    let e = ExprView::Case { operand: None, when_clauses: whens, else_result: None };
    assert(g_whens(t, 5, whens) == Read::Got(whens, 5));
    assert(g_whens(t, 1, Seq::empty()) == Read::Got(whens, 5));
    assert(g_else(t, 5) == Read::Got(None::<Box<ExprView>>, 5));
    assert(g_case_end(t, 5, None, whens) == Read::Got(e, 6));
    assert(g_case_rest(t, 1, None) == Read::Got(e, 6));
    assert(g_case(t, 1) == Read::Got(e, 6));
    assert(g_composed(t, 1, Kind::Case) == Read::Got(e, 6));
    assert(g_keyword_atom(t, 0, Kind::Case) == Read::Got(e, 6));
    assert(g_atom(t, 0) == Read::Got(e, 6));
    lemma_atom_up(t, 0, e, 6);
}

/// A call: its name, and its arguments in the order in which they stand.
pub proof fn law_call_parts(f: Seq<char>, a: Seq<char>, b: Seq<char>)
    ensures
        g_expr(seq![word(f), sign(Kind::LParen), word(a), sign(Kind::Comma), word(b), sign(Kind::RParen)], 0) == Read::Got(ExprView::Function { name: f, args: seq![column(a), column(b)] }, 6),
{
    let t = seq![word(f), sign(Kind::LParen), word(a), sign(Kind::Comma), word(b), sign(Kind::RParen)];
    assert(t.len() == 6);
    assert(tok(t, 0) == word(f) && tok(t, 1) == sign(Kind::LParen) && tok(t, 2) == word(a) && tok(t, 3) == sign(Kind::Comma) && tok(t, 4) == word(b) && tok(t, 5) == sign(Kind::RParen) && tok(t, 6) == sign(Kind::Eof));
    lemma_name_expr(t, 2, a);
    lemma_name_expr(t, 4, b);
    let args = seq![column(a), column(b)];
    let none = Seq::<ExprView>::empty();
    assert(none.push(column(a)).push(column(b)) =~= args);
    let e = ExprView::Function { name: f, args };
    assert(g_exprs(t, 4, none.push(column(a))) == Read::Got(args, 5));
    assert(g_exprs(t, 2, none) == Read::Got(args, 5));
    assert(g_args(t, 2) == Read::Got(args, 5));
    assert(g_call_args(t, 2, f) == Read::Got((f, args), 5));
    assert(g_call(t, 2, f) == Read::Got(e, 6));
    assert(g_named(t, 1, f) == Read::Got(e, 6));
    assert(g_atom(t, 0) == Read::Got(e, 6));
    lemma_atom_up(t, 0, e, 6);
}

/// A window: what it is parted by, and what it is ordered by.
#[verifier::spinoff_prover]
pub proof fn law_window_parts(f: Seq<char>, a: Seq<char>, p: Seq<char>, o: Seq<char>)
    ensures
        g_expr(seq![word(f), sign(Kind::LParen), word(a), sign(Kind::RParen), sign(Kind::Over), sign(Kind::LParen), sign(Kind::Partition), sign(Kind::By), word(p), sign(Kind::Order), sign(Kind::By), word(o), sign(Kind::Desc), sign(Kind::RParen)], 0) == Read::Got(
            ExprView::WindowFunction {
                name: f,
                args: seq![column(a)],
                partition_by: seq![column(p)],
                order_by: seq![OrderByExprView { expr: column(o), ascending: false, nulls_first: None }],
            },
            14,
        ),
{
    let t = seq![word(f), sign(Kind::LParen), word(a), sign(Kind::RParen), sign(Kind::Over), sign(Kind::LParen), sign(Kind::Partition), sign(Kind::By), word(p), sign(Kind::Order), sign(Kind::By), word(o), sign(Kind::Desc), sign(Kind::RParen)];
    assert(t.len() == 14);
    assert(tok(t, 0) == word(f) && tok(t, 1) == sign(Kind::LParen) && tok(t, 2) == word(a) && tok(t, 3) == sign(Kind::RParen) && tok(t, 4) == sign(Kind::Over) && tok(t, 5) == sign(Kind::LParen) && tok(t, 6) == sign(Kind::Partition) && tok(t, 7) == sign(Kind::By) && tok(t, 8) == word(p) && tok(t, 9) == sign(Kind::Order) && tok(t, 10) == sign(Kind::By) && tok(t, 11) == word(o) && tok(t, 12) == sign(Kind::Desc) && tok(t, 13) == sign(Kind::RParen) && tok(t, 14) == sign(Kind::Eof));
    lemma_name_expr(t, 2, a);
    lemma_name_expr(t, 8, p);
    lemma_name_expr(t, 11, o);
    let key = OrderByExprView { expr: column(o), ascending: false, nulls_first: None };
    let e = ExprView::WindowFunction { name: f, args: seq![column(a)], partition_by: seq![column(p)], order_by: seq![key] };
    assert(Seq::<ExprView>::empty().push(column(a)) =~= seq![column(a)]);
    assert(Seq::<ExprView>::empty().push(column(p)) =~= seq![column(p)]);
    assert(Seq::<OrderByExprView>::empty().push(key) =~= seq![key]);
    assert(g_exprs(t, 2, Seq::empty()) == Read::Got(seq![column(a)], 3));
    assert(g_args(t, 2) == Read::Got(seq![column(a)], 3));
    assert(g_call_args(t, 2, f) == Read::Got((f, seq![column(a)]), 3));
    assert(g_exprs(t, 8, Seq::empty()) == Read::Got(seq![column(p)], 9));
    assert(g_partition(t, 6) == Read::Got(seq![column(p)], 9));
    assert(g_nulls(t, 13) == Read::Got(None::<bool>, 13));
    assert(g_orders(t, 11, Seq::empty()) == Read::Got(seq![key], 13));
    assert(g_opt_order(t, 9) == Read::Got(seq![key], 13));
    assert(g_window(t, 5) == Read::Got((seq![column(p)], seq![key]), 14));
    assert(g_call(t, 2, f) == Read::Got(e, 14));
    assert(g_named(t, 1, f) == Read::Got(e, 14));
    assert(g_atom(t, 0) == Read::Got(e, 14));
    lemma_atom_up(t, 0, e, 14);
}

/// `x IN (a, b)`.
pub proof fn law_in_parts(x: Seq<char>, a: Seq<char>, b: Seq<char>)
    ensures
        g_expr(seq![word(x), sign(Kind::In), sign(Kind::LParen), word(a), sign(Kind::Comma), word(b), sign(Kind::RParen)], 0) == Read::Got(ExprView::InList { expr: Box::new(column(x)), list: seq![column(a), column(b)] }, 7),
{
    let t = seq![word(x), sign(Kind::In), sign(Kind::LParen), word(a), sign(Kind::Comma), word(b), sign(Kind::RParen)];
    assert(t.len() == 7);
    assert(tok(t, 0) == word(x) && tok(t, 1) == sign(Kind::In) && tok(t, 2) == sign(Kind::LParen) && tok(t, 3) == word(a) && tok(t, 4) == sign(Kind::Comma) && tok(t, 5) == word(b) && tok(t, 6) == sign(Kind::RParen) && tok(t, 7) == sign(Kind::Eof));
    lemma_name_expr(t, 3, a);
    lemma_name_expr(t, 5, b);
    let list = seq![column(a), column(b)];
    let none = Seq::<ExprView>::empty();
    assert(none.push(column(a)).push(column(b)) =~= list);
    let e = ExprView::InList { expr: Box::new(column(x)), list };
    lemma_name(t, 0, x);
    lemma_product1(t, 0, column(x), 1);
    lemma_sum1(t, 0, column(x), 1);
    assert(g_exprs(t, 5, none.push(column(a))) == Read::Got(list, 6));
    assert(g_exprs(t, 3, none) == Read::Got(list, 6));
    assert(g_in(t, 2, column(x)) == Read::Got(e, 7));
    assert(g_compare(t, 1, column(x)) == Read::Got(e, 7));
    assert(g_comparison_rest(t, 7, e) == Read::Got(e, 7));
    assert(g_comparison_rest(t, 1, column(x)) == Read::Got(e, 7));
    assert(g_comparison(t, 0) == Read::Got(e, 7));
    lemma_and1(t, 0, e, 7);
    lemma_or1(t, 0, e, 7);
}

/// An UPDATE: its table, its assignments in the order in which they stand, and its WHERE.
#[verifier::spinoff_prover]
pub proof fn law_update_parts(tb: Seq<char>, a: Seq<char>, x: Seq<char>, b: Seq<char>, y: Seq<char>, w: Seq<char>)
    ensures
        g_parse(seq![sign(Kind::Update), word(tb), sign(Kind::SetKw), word(a), sign(Kind::Eq), word(x), sign(Kind::Comma), word(b), sign(Kind::Eq), word(y), sign(Kind::Where), word(w)], 0) == Read::Got(
            StatementView::Update(
                UpdateStmtView { table: tb, assignments: seq![(a, column(x)), (b, column(y))], where_clause: Some(column(w)), returning: None },
            ),
            12,
        ),
{
    let t = seq![sign(Kind::Update), word(tb), sign(Kind::SetKw), word(a), sign(Kind::Eq), word(x), sign(Kind::Comma), word(b), sign(Kind::Eq), word(y), sign(Kind::Where), word(w)];
    assert(t.len() == 12);
    assert(tok(t, 0) == sign(Kind::Update) && tok(t, 1) == word(tb) && tok(t, 2) == sign(Kind::SetKw) && tok(t, 3) == word(a) && tok(t, 4) == sign(Kind::Eq) && tok(t, 5) == word(x) && tok(t, 6) == sign(Kind::Comma) && tok(t, 7) == word(b) && tok(t, 8) == sign(Kind::Eq) && tok(t, 9) == word(y) && tok(t, 10) == sign(Kind::Where) && tok(t, 11) == word(w) && tok(t, 12) == sign(Kind::Eof));
    lemma_name_expr(t, 5, x);
    lemma_name_expr(t, 9, y);
    lemma_name_expr(t, 11, w);
    let list = seq![(a, column(x)), (b, column(y))];
    let none = Seq::<(Seq<char>, ExprView)>::empty();
    assert(none.push((a, column(x))).push((b, column(y))) =~= list);
    let u = UpdateStmtView { table: tb, assignments: list, where_clause: Some(column(w)), returning: None };
    assert(g_assignment(t, 3, false) == Read::Got((a, column(x)), 6));
    assert(g_assignment(t, 7, false) == Read::Got((b, column(y)), 10));
    assert(g_assignments(t, 7, false, none.push((a, column(x)))) == Read::Got(list, 10));
    assert(g_assignments(t, 3, false, none) == Read::Got(list, 10));
    assert(g_opt_where(t, 10) == Read::Got(Some(column(w)), 12));
    assert(g_update(t, 0) == Read::Got(StatementView::Update(u), 12));
    assert(g_statement(t, 0) == Read::Got(StatementView::Update(u), 12));
    assert(g_set_ops(t, 12, StatementView::Update(u)) == Read::Got(StatementView::Update(u), 12));
}

/// A DELETE: its table, its WHERE and its RETURNING.
pub proof fn law_delete_parts(tb: Seq<char>, w: Seq<char>)
    ensures
        g_parse(seq![sign(Kind::Delete), sign(Kind::From), word(tb), sign(Kind::Where), word(w), sign(Kind::Returning), sign(Kind::Star)], 0) == Read::Got(
            StatementView::Delete(DeleteStmtView { table: tb, where_clause: Some(column(w)), returning: Some(seq![SelectColumnView::Star]) }),
            7,
        ),
{
    let t = seq![sign(Kind::Delete), sign(Kind::From), word(tb), sign(Kind::Where), word(w), sign(Kind::Returning), sign(Kind::Star)];
    assert(t.len() == 7);
    assert(tok(t, 0) == sign(Kind::Delete) && tok(t, 1) == sign(Kind::From) && tok(t, 2) == word(tb) && tok(t, 3) == sign(Kind::Where) && tok(t, 4) == word(w) && tok(t, 5) == sign(Kind::Returning) && tok(t, 6) == sign(Kind::Star) && tok(t, 7) == sign(Kind::Eof));
    lemma_name_expr(t, 4, w);
    let d = StatementView::Delete(
        DeleteStmtView { table: tb, where_clause: Some(column(w)), returning: Some(seq![SelectColumnView::Star]) },
    );
    assert(g_opt_where(t, 3) == Read::Got(Some(column(w)), 5));
    assert(g_columns(t, 6) == Read::Got(seq![SelectColumnView::Star], 7));
    assert(g_returning(t, 5) == Read::Got(Some(seq![SelectColumnView::Star]), 7));
    assert(g_delete(t, 0) == Read::Got(d, 7));
    assert(g_statement(t, 0) == Read::Got(d, 7));
    assert(g_set_ops(t, 7, d) == Read::Got(d, 7));
}

/// An INSERT: its table, its columns, and the values of a row, each in the order in which they stand.
#[verifier::rlimit(60)]
pub proof fn law_insert_parts(tb: Seq<char>, a: Seq<char>, b: Seq<char>, x: Seq<char>, y: Seq<char>)
    ensures
        g_parse(seq![sign(Kind::Insert), sign(Kind::Into), word(tb), sign(Kind::LParen), word(a), sign(Kind::Comma), word(b), sign(Kind::RParen), sign(Kind::Values), sign(Kind::LParen), word(x), sign(Kind::Comma), word(y), sign(Kind::RParen)], 0) == Read::Got(
            StatementView::Insert(
                InsertStmtView {
                    table: tb,
                    columns: Some(seq![a, b]),
                    source: InsertSourceView::Values(seq![seq![column(x), column(y)]]),
                    on_conflict: None,
                    returning: None,
                },
            ),
            14,
        ),
{
    let t = seq![sign(Kind::Insert), sign(Kind::Into), word(tb), sign(Kind::LParen), word(a), sign(Kind::Comma), word(b), sign(Kind::RParen), sign(Kind::Values), sign(Kind::LParen), word(x), sign(Kind::Comma), word(y), sign(Kind::RParen)];
    assert(t.len() == 14);
    assert(tok(t, 0) == sign(Kind::Insert) && tok(t, 1) == sign(Kind::Into) && tok(t, 2) == word(tb) && tok(t, 3) == sign(Kind::LParen) && tok(t, 4) == word(a) && tok(t, 5) == sign(Kind::Comma) && tok(t, 6) == word(b) && tok(t, 7) == sign(Kind::RParen) && tok(t, 8) == sign(Kind::Values) && tok(t, 9) == sign(Kind::LParen) && tok(t, 10) == word(x) && tok(t, 11) == sign(Kind::Comma) && tok(t, 12) == word(y) && tok(t, 13) == sign(Kind::RParen) && tok(t, 14) == sign(Kind::Eof));
    lemma_name_expr(t, 10, x);
    lemma_name_expr(t, 12, y);
    let first = seq![column(x), column(y)];
    let names = Seq::<Seq<char>>::empty();
    let none = Seq::<ExprView>::empty();
    assert(names.push(a).push(b) =~= seq![a, b]);
    assert(none.push(column(x)).push(column(y)) =~= first);
    assert(Seq::<Seq<ExprView>>::empty().push(first) =~= seq![first]);
    assert(g_names(t, 6, names.push(a)) == Read::Got(seq![a, b], 7));
    assert(g_names(t, 4, names) == Read::Got(seq![a, b], 7));
    assert(g_name_group(t, 3) == Read::Got(seq![a, b], 8));
    assert(g_exprs(t, 12, none.push(column(x))) == Read::Got(first, 13));
    assert(g_exprs(t, 10, none) == Read::Got(first, 13));
    assert(g_value_rows(t, 9, Seq::empty()) == Read::Got(seq![first], 14));
    let s = StatementView::Insert(
        InsertStmtView {
            table: tb,
            columns: Some(seq![a, b]),
            source: InsertSourceView::Values(seq![first]),
            on_conflict: None,
            returning: None,
        },
    );
    assert(g_insert(t, 0) == Read::Got(s, 14));
    assert(g_statement(t, 0) == Read::Got(s, 14));
    assert(g_set_ops(t, 14, s) == Read::Got(s, 14));
}

/// What an INSERT does where a row is there already: nothing, or the assignments that stand behind
/// DO UPDATE SET.
pub proof fn law_on_conflict_parts(k: Seq<char>, a: Seq<char>, x: Seq<char>)
    ensures
        g_on_conflict(seq![sign(Kind::On), sign(Kind::Conflict), sign(Kind::LParen), word(k), sign(Kind::RParen), sign(Kind::Do), sign(Kind::Update), sign(Kind::SetKw), word(a), sign(Kind::Eq), word(x)], 0) == Read::Got(
            Some(OnConflictView { columns: seq![k], action: ConflictActionView::DoUpdate(seq![(a, column(x))]) }),
            11,
        ),
        g_on_conflict(seq![sign(Kind::On), sign(Kind::Conflict), sign(Kind::LParen), word(k), sign(Kind::RParen), sign(Kind::Do), sign(Kind::Nothing)], 0) == Read::Got(
            Some(OnConflictView { columns: seq![k], action: ConflictActionView::DoNothing }),
            7,
        ),
{
    let t = seq![sign(Kind::On), sign(Kind::Conflict), sign(Kind::LParen), word(k), sign(Kind::RParen), sign(Kind::Do), sign(Kind::Update), sign(Kind::SetKw), word(a), sign(Kind::Eq), word(x)];
    let u = seq![sign(Kind::On), sign(Kind::Conflict), sign(Kind::LParen), word(k), sign(Kind::RParen), sign(Kind::Do), sign(Kind::Nothing)];
    assert(t.len() == 11);
    assert(tok(t, 0) == sign(Kind::On) && tok(t, 1) == sign(Kind::Conflict) && tok(t, 2) == sign(Kind::LParen) && tok(t, 3) == word(k) && tok(t, 4) == sign(Kind::RParen) && tok(t, 5) == sign(Kind::Do) && tok(t, 6) == sign(Kind::Update) && tok(t, 7) == sign(Kind::SetKw) && tok(t, 8) == word(a) && tok(t, 9) == sign(Kind::Eq) && tok(t, 10) == word(x) && tok(t, 11) == sign(Kind::Eof));
    assert(u.len() == 7);
    assert(tok(u, 0) == sign(Kind::On) && tok(u, 1) == sign(Kind::Conflict) && tok(u, 2) == sign(Kind::LParen) && tok(u, 3) == word(k) && tok(u, 4) == sign(Kind::RParen) && tok(u, 5) == sign(Kind::Do) && tok(u, 6) == sign(Kind::Nothing) && tok(u, 7) == sign(Kind::Eof));
    lemma_name_expr(t, 10, x);
    let names = Seq::<Seq<char>>::empty();
    assert(names.push(k) =~= seq![k]);
    assert(g_names(t, 3, names) == Read::Got(seq![k], 4));
    assert(g_names(u, 3, names) == Read::Got(seq![k], 4));
    assert(g_name_group(t, 2) == Read::Got(seq![k], 5));
    assert(g_name_group(u, 2) == Read::Got(seq![k], 5));
    assert(Seq::<(Seq<char>, ExprView)>::empty().push((a, column(x))) =~= seq![(a, column(x))]);
    assert(g_assignment(t, 8, false) == Read::Got((a, column(x)), 11));
    assert(g_assignments(t, 8, false, Seq::empty()) == Read::Got(seq![(a, column(x))], 11));
    assert(g_conflict_action(t, 6) == Read::Got(ConflictActionView::DoUpdate(seq![(a, column(x))]), 11));
}

} // verus!
