use vstd::prelude::*;
use vstd::string::*;
use crate::parser::ast::{ExprView, FromClauseView, JoinClauseView, SelectColumnView, SelectStmtView};
use crate::value::ValueView;
use super::eval::{call_name, eval};
use super::expr_laws::{lemma_index_absent, lemma_index_of};
use super::group_laws::summed_up;
use super::grouping::{CallView, collected, column_calls, column_has_aggregate, grouped, list_calls, list_has_aggregate, made_call, names_aggregate, query_calls};
use super::relation::RelationView;
use super::scope::{Env, NamesView, ScopeView, SourceView, dotted, index_of, last_index_of, names_table, outer_scope, real_table};
use super::select::{condensed, finished, has_star, has_window, is_window, join_all, join_one, projected, query_names};
use super::strings::text_upper;

verus! {

pub open spec fn item(e: ExprView) -> SelectColumnView {
    SelectColumnView::Expr(e, None)
}

/// Whether a query does nothing beyond reading, grouping and its select list.
pub open spec fn bare_query(q: SelectStmtView) -> bool {
    q.where_clause is None && q.having is None && q.order_by.len() == 0 && q.limit is None && q.offset is None && !q.distinct
}

/// `SELECT k, f(c) FROM .. GROUP BY k` gives one row for each group: the group's key and what the
/// aggregate is over the group.
pub proof fn law_group_query(env: Env, o: Seq<ScopeView>, q: SelectStmtView, read: RelationView, k: Seq<char>, f: Seq<char>, c: Seq<char>)
    requires
        bare_query(q),
        q.group_by == seq![ExprView::Column(k)],
        q.columns == seq![
            item(ExprView::Column(k)),
            item(ExprView::Function { name: f, args: seq![ExprView::Column(c)] }),
        ],
        read.columns.contains(k),
        call_name(f, seq![ExprView::Column(c)]) != k,
    ensures
        ({
            let label = call_name(f, seq![ExprView::Column(c)]);
            let call = CallView { f: text_upper(f), label, column: Some(c) };
            finished(env, o, q, read) == (RelationView {
                columns: seq![k, label],
                rows: grouped(env.m, read, seq![ExprView::Column(k)], seq![call]).rows,
            })
        }),
{
    let args = seq![ExprView::Column(c)];
    let label = call_name(f, args);
    let call = CallView { f: text_upper(f), label, column: Some(c) };
    let cols = q.columns;
    assert(made_call(f, args) == call) by {
        assert(args[0] == ExprView::Column(c));
    }
    assert(column_calls(cols[1]) == seq![call]);
    assert(column_calls(cols[0]) == Seq::<CallView>::empty());
    let d = cols.drop_last();
    assert(d.len() == 1 && d.last() == cols[0]);
    assert(d.drop_last() =~= Seq::empty());
    assert(list_calls(d.drop_last()) == Seq::<CallView>::empty());
    assert(list_calls(d) =~= Seq::empty());
    assert(list_calls(cols) =~= seq![call]);
    assert(query_calls(cols, q.having) =~= seq![call]);
    let g = grouped(env.m, read, q.group_by, seq![call]);
    assert(RelationView { columns: read.columns, rows: read.rows } == read);
    assert(condensed(env, o, q, read) == g);
    lemma_group_shape(env, read, k, call);
    assert(g.columns == seq![k, label]);
    let n = query_names(q, g.columns);
    assert(!has_star(cols)) by {
        assert(!(cols[0] is Star) && !(cols[1] is Star));
    }
    assert(!has_window(cols)) by {
        assert(!is_window(cols[0]) && !is_window(cols[1]));
    }
    assert(g.columns.no_duplicates());
    lemma_index_of(g.columns, 0);
    lemma_index_of(g.columns, 1);
    let p = projected(env, o, n, g, cols);
    assert forall|i: int| 0 <= i < g.rows.len() implies #[trigger] p.rows[i] == g.rows[i] by {
        assert(g.rows[i].len() == 2);
        assert(p.rows[i] =~= g.rows[i]);
    }
    assert(p.rows =~= g.rows);
    assert(p.columns =~= seq![k, label]);
}

proof fn lemma_group_shape(env: Env, read: RelationView, k: Seq<char>, call: CallView)
    requires
        read.columns.contains(k),
    ensures
        ({
            let g = grouped(env.m, read, seq![ExprView::Column(k)], seq![call]);
            &&& g.columns == seq![k, call.label]
            &&& forall|i: int| 0 <= i < g.rows.len() ==> (#[trigger] g.rows[i]).len() == 2
        }),
{
    let by = seq![ExprView::Column(k)];
    let g = grouped(env.m, read, by, seq![call]);
    assert(by.drop_last() =~= Seq::empty());
    reveal_with_fuel(super::grouping::group_names, 2);
    reveal_with_fuel(super::grouping::group_places, 2);
    assert(super::grouping::group_names(by) =~= seq![k]);
    lemma_there(read.columns, k);
    let at = super::grouping::group_places(read.columns, by);
    assert(at.len() == 1);
    assert(g.columns =~= seq![k, call.label]);
}

proof fn lemma_there(names: Seq<Seq<char>>, x: Seq<char>)
    requires
        names.contains(x),
    ensures
        index_of(names, x) is Some,
    decreases names.len(),
{
    let k = choose|k: int| 0 <= k < names.len() && names[k] == x;
    if k < names.len() - 1 {
        assert(names.drop_last()[k] == x);
        lemma_there(names.drop_last(), x);
    }
}

/// `SELECT f(c) FROM ..` gives a single row with what the aggregate is over all rows; `COUNT(*)` is how
/// many they are.
pub proof fn law_aggregate_query(env: Env, o: Seq<ScopeView>, q: SelectStmtView, read: RelationView, f: Seq<char>, c: Seq<char>)
    requires
        bare_query(q),
        q.group_by.len() == 0,
        q.columns == seq![item(ExprView::Function { name: f, args: seq![ExprView::Column(c)] })],
        names_aggregate(f),
        read.rows.len() <= usize::MAX,
    ensures
        ({
            let label = call_name(f, seq![ExprView::Column(c)]);
            let call = CallView { f: text_upper(f), label, column: Some(c) };
            &&& finished(env, o, q, read) == (RelationView {
                columns: seq![label],
                rows: seq![seq![summed_up(env.m, read.columns, read.rows, call)]],
            })
            &&& text_upper(f) == "COUNT"@ && c == "*"@ && !read.columns.contains("*"@) ==> summed_up(env.m, read.columns, read.rows, call)
                == ValueView::Int64(read.rows.len() as i64)
        }),
{
    let args = seq![ExprView::Column(c)];
    let label = call_name(f, args);
    let call = CallView { f: text_upper(f), label, column: Some(c) };
    let cols = q.columns;
    assert(made_call(f, args) == call) by {
        assert(args[0] == ExprView::Column(c));
    }
    assert(column_calls(cols[0]) == seq![call]);
    assert(cols.drop_last() =~= Seq::empty());
    assert(list_calls(cols.drop_last()) == Seq::<CallView>::empty());
    assert(list_calls(cols) =~= seq![call]);
    assert(query_calls(cols, q.having) =~= seq![call]);
    let e = ExprView::Function { name: f, args };
    assert(collected(e) == seq![call]);
    assert(column_has_aggregate(cols[0]));
    assert(list_has_aggregate(cols));
    assert(q.group_by =~= Seq::empty());
    let g = grouped(env.m, read, Seq::empty(), seq![call]);
    assert(RelationView { columns: read.columns, rows: read.rows } == read);
    assert(condensed(env, o, q, read) == g);
    super::group_laws::law_no_group_by(env.m, read, seq![call]);
    assert(g.columns =~= seq![label]);
    let row = seq![summed_up(env.m, read.columns, read.rows, call)];
    assert(g.rows[0] =~= row);
    assert(g.rows =~= seq![row]);
    let n = query_names(q, g.columns);
    assert(!(cols[0] is Star));
    assert(!is_window(cols[0]));
    assert(g.columns.no_duplicates());
    lemma_index_of(g.columns, 0);
    let p = projected(env, o, n, g, cols);
    assert(p.rows[0] =~= row);
    assert(p.rows =~= seq![row]);
    assert(p.columns =~= seq![label]);
}

// ---- names

/// A column that is written with a name that the query gives to a table is that table's column.
pub proof fn law_alias_stands_for_table(env: Env, o: Seq<ScopeView>, q: SelectStmtView, columns: Seq<Seq<char>>, row: Seq<ValueView>, t: Seq<char>, a: Seq<char>, c: Seq<char>, i: int)
    requires
        q.from == FromClauseView::Table(t),
        q.from_alias == Some(a),
        q.joins.len() == 0,
        columns.no_duplicates(),
        0 <= i < columns.len() == row.len(),
        columns[i] == dotted(t, c),
        !columns.contains(c),
    ensures
        eval(env, o, query_names(q, columns), row, ExprView::QualifiedColumn(a, c)) == row[i],
        a != t ==> eval(env, o, query_names(q, columns), row, ExprView::QualifiedColumn(t, c)) == row[i],
{
    let n = query_names(q, columns);
    assert(n.aliases =~= seq![a]);
    assert(n.reals =~= seq![t]);
    assert(n.tables =~= seq![t]);
    assert(last_index_of(n.aliases, a) == Some(0int));
    assert(real_table(n, a) == t);
    assert(n.tables[0] == t);
    lemma_there(n.tables, t);
    lemma_index_of(columns, i);
    assert forall|k: int| 0 <= k < columns.len() implies #[trigger] columns[k] != c by {
        assert(columns.contains(columns[k]));
    }
    lemma_index_absent(columns, c);
    if a != t {
        assert(n.aliases.drop_last() =~= Seq::empty());
        assert(last_index_of(n.aliases.drop_last(), t) is None);
        assert(last_index_of(n.aliases, t) is None);
        assert(real_table(n, t) == t);
    }
}

/// A column of a table that the row is not from is the column of the innermost enclosing row that is
/// from that table.
pub proof fn law_outer_column(env: Env, o: Seq<ScopeView>, n: NamesView, row: Seq<ValueView>, s: ScopeView, t: Seq<char>, c: Seq<char>, i: int)
    requires
        !names_table(n, t),
        s.names.tables.contains(t),
        s.names.columns.no_duplicates(),
        0 <= i < s.names.columns.len() == s.row.len(),
        s.names.columns[i] == c,
    ensures
        eval(env, o.push(s), n, row, ExprView::QualifiedColumn(t, c)) == s.row[i],
{
    lemma_there(s.names.tables, t);
    assert(o.push(s).last() == s);
    assert(outer_scope(o.push(s), t) == Some(s));
    lemma_index_of(s.names.columns, i);
}

/// A column of the row's own table is the row's, whatever the rows around it hold.
pub proof fn law_own_column(env: Env, o: Seq<ScopeView>, n: NamesView, row: Seq<ValueView>, t: Seq<char>, c: Seq<char>, i: int)
    requires
        n.tables.contains(t),
        n.columns.no_duplicates(),
        0 <= i < n.columns.len() == row.len(),
        n.columns[i] == c,
    ensures
        eval(env, o, n, row, ExprView::QualifiedColumn(t, c)) == row[i],
{
    lemma_there(n.tables, t);
    lemma_index_of(n.columns, i);
}

/// Joins are made one after the other, each with what the ones before it gave; one that fails fails
/// the query.
pub proof fn law_joins_in_turn(db: Seq<SourceView>, first: RelationView, t: Seq<char>, joins: Seq<JoinClauseView>, j: JoinClauseView)
    ensures
        join_all(db, first, t, Seq::empty()) == Ok::<RelationView, crate::error::ErrorView>(first),
        match join_all(db, first, t, joins) {
            Err(e) => join_all(db, first, t, joins.push(j)) == Err::<RelationView, crate::error::ErrorView>(e),
            Ok(l) => join_all(db, first, t, joins.push(j)) == join_one(db, l, if joins.len() == 0 {
                Some(t)
            } else {
                None
            }, j),
        },
{
    assert(joins.push(j).drop_last() =~= joins);
}

} // verus!
