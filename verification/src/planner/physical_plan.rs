use vstd::prelude::*;
use vstd::string::*;
use crate::parser::ast::{BinOp, Expr, ExprView, JoinType, OrderByExpr, OrderByExprView};
use crate::parser::ast::{exprs_len, exprs_view, order_by_exprs_at, order_by_exprs_len, order_by_exprs_view, select_columns_len, select_columns_view};
use crate::parser::sql_text::{sql_list, sql_of, write_expr, write_list};
use crate::text::{join2, nat_text, nat_to_text};
use crate::value::{names_push, names_view};
use super::plan::{PhysicalPlan, PhysicalPlanView};

verus! {

/// The sign of a comparison in a plan.
pub open spec fn comparison_text(op: BinOp) -> Seq<char> {
    match op {
        BinOp::Eq => "="@,
        BinOp::Neq => "<>"@,
        BinOp::Lt => "<"@,
        BinOp::Gt => ">"@,
        BinOp::Lte => "<="@,
        BinOp::Gte => ">="@,
        _ => "?"@,
    }
}

pub fn binop_text(op: BinOp) -> (r: &'static str)
    ensures
        r@ == comparison_text(op),
{
    match op {
        BinOp::Eq => "=",
        BinOp::Neq => "<>",
        BinOp::Lt => "<",
        BinOp::Gt => ">",
        BinOp::Lte => "<=",
        BinOp::Gte => ">=",
        _ => "?",
    }
}

pub open spec fn join_text(t: JoinType) -> Seq<char> {
    match t {
        JoinType::Inner => "inner"@,
        JoinType::Left => "left"@,
        JoinType::Right => "right"@,
    }
}

pub fn join_type_text(t: JoinType) -> (r: &'static str)
    ensures
        r@ == join_text(t),
{
    match t {
        JoinType::Inner => "inner",
        JoinType::Left => "left",
        JoinType::Right => "right",
    }
}

/// Two blanks for each step down the tree.
pub open spec fn indent_text(depth: nat) -> Seq<char>
    decreases depth,
{
    if depth == 0 {
        Seq::empty()
    } else {
        indent_text((depth - 1) as nat) + "  "@
    }
}

/// What stands in front of a step.
pub open spec fn arrow_text(depth: nat) -> Seq<char> {
    if depth == 0 {
        Seq::empty()
    } else {
        indent_text(depth) + "-> "@
    }
}

pub open spec fn filter_text(f: Option<ExprView>) -> Seq<char> {
    match f {
        Some(e) => "  (filter: "@ + sql_of(e) + ")"@,
        None => Seq::empty(),
    }
}

pub open spec fn sort_keys_text(by: Seq<OrderByExprView>) -> Seq<char>
    decreases by.len(),
{
    if by.len() == 0 {
        Seq::empty()
    } else {
        let key = sql_of(by.last().expr) + " "@ + (if by.last().ascending {
            "ASC"@
        } else {
            "DESC"@
        });
        if by.len() == 1 {
            key
        } else {
            sort_keys_text(by.drop_last()) + ", "@ + key
        }
    }
}

/// The line of the first step of a plan.
pub open spec fn head_text(p: PhysicalPlanView) -> Seq<char> {
    match p {
        PhysicalPlanView::SeqScan { table, filter, limit, needed_columns } => "Seq Scan on "@ + table + filter_text(filter) + (match limit {
            Some(n) => "  (limit "@ + nat_text(n as nat) + ")"@,
            None => Seq::empty(),
        }),
        PhysicalPlanView::IndexScan { table, index_name, column, op, value, filter, limit } => "Index Scan using "@ + index_name + " on "@ + table
            + "  ("@ + column + " "@ + comparison_text(op) + " "@ + sql_of(value) + ")"@,
        PhysicalPlanView::Filter { input, predicate } => "Filter  ("@ + sql_of(predicate) + ")"@,
        PhysicalPlanView::Project { input, columns } => "Project  ("@ + nat_text(columns.len()) + " cols)"@,
        PhysicalPlanView::HashJoin { left, right, condition, join_type } => "Hash Join  ["@ + join_text(join_type) + "]  on "@ + sql_of(condition),
        PhysicalPlanView::NestedLoopJoin { left, right, condition, join_type } => "Nested Loop Join  ["@ + join_text(join_type) + "]  on "@ + sql_of(condition),
        PhysicalPlanView::HashAggregate { input, group_by, aggregates, having } => "Aggregate"@ + (if group_by.len() > 0 {
            "  (group by: "@ + sql_list(group_by) + ")"@
        } else {
            Seq::empty()
        }) + "  ("@ + nat_text(aggregates.len()) + " aggs)"@ + (if having is Some {
            "  (having)"@
        } else {
            Seq::empty()
        }),
        PhysicalPlanView::Sort { input, order_by } => "Sort  ("@ + sort_keys_text(order_by) + ")"@,
        PhysicalPlanView::Limit { input, count, offset } => "Limit "@ + nat_text(count as nat) + " offset "@ + nat_text(offset as nat),
        PhysicalPlanView::Distinct { input } => "Distinct"@,
        PhysicalPlanView::Insert { table, columns, source } => "Insert into "@ + table,
        PhysicalPlanView::Update { table, assignments, filter } => "Update "@ + table + filter_text(filter),
        PhysicalPlanView::Delete { table, filter } => "Delete from "@ + table + filter_text(filter),
        PhysicalPlanView::CreateTable(q) => "Create Table "@ + q.name,
        PhysicalPlanView::DropTable(q) => "Drop Table "@ + q.name,
        PhysicalPlanView::CreateIndex(q) => "Create Index "@ + q.name + " on "@ + q.table,
        PhysicalPlanView::DropIndex(n) => "Drop Index "@ + n,
    }
}

/// The lines of a plan, from the last step to the first, each further in than the one that it
/// feeds. An index scan has a line of its own for its condition.
pub open spec fn tree_text(p: PhysicalPlanView, depth: nat) -> Seq<Seq<char>>
    decreases p,
{
    let head = seq![arrow_text(depth) + head_text(p)];
    match p {
        PhysicalPlanView::IndexScan { filter: Some(f), .. } => head.push(indent_text(depth) + "  filter: "@ + sql_of(f)),
        PhysicalPlanView::Filter { input, .. } => head + tree_text(*input, depth + 1),
        PhysicalPlanView::Project { input, .. } => head + tree_text(*input, depth + 1),
        PhysicalPlanView::HashJoin { left, right, .. } => head + tree_text(*left, depth + 1) + tree_text(*right, depth + 1),
        PhysicalPlanView::NestedLoopJoin { left, right, .. } => head + tree_text(*left, depth + 1) + tree_text(*right, depth + 1),
        PhysicalPlanView::HashAggregate { input, .. } => head + tree_text(*input, depth + 1),
        PhysicalPlanView::Sort { input, .. } => head + tree_text(*input, depth + 1),
        PhysicalPlanView::Limit { input, .. } => head + tree_text(*input, depth + 1),
        PhysicalPlanView::Distinct { input } => head + tree_text(*input, depth + 1),
        _ => head,
    }
}

fn write_filter(f: &Option<Expr>, out: &mut String)
    ensures
        final(out)@ == old(out)@ + filter_text(crate::executor::grouping::opt_expr(*f)),
{
    let ghost front = out@;
    match f {
        Some(e) => {
            out.append("  (filter: ");
            write_expr(e, out);
            out.append(")");
        },
        None => {},
    }
    assert(out@ =~= front + filter_text(crate::executor::grouping::opt_expr(*f)));
}

fn write_nat(n: usize, out: &mut String)
    ensures
        final(out)@ == old(out)@ + nat_text(n as nat),
{
    let t = nat_to_text(n as u128);
    out.append(t.as_str());
}

fn write_sort_keys(by: &Vec<OrderByExpr>, out: &mut String)
    ensures
        final(out)@ == old(out)@ + sort_keys_text(order_by_exprs_view(by@)),
{
    let ghost front = out@;
    let ghost all = order_by_exprs_view(by@);
    let mut i: usize = 0;
    proof {
        broadcast use order_by_exprs_len;

        assert(all.take(0).len() == 0);
        assert(out@ =~= front + sort_keys_text(all.take(0)));
    }
    while i < by.len()
        invariant
            i <= by.len(),
            all == order_by_exprs_view(by@),
            all.len() == by@.len(),
            out@ == front + sort_keys_text(all.take(i as int)),
        decreases by.len() - i,
    {
        proof {
            broadcast use order_by_exprs_at;

            assert(all[i as int] == by@[i as int]@);
            by@[i as int].unfold();
            assert(all.take(i + 1).drop_last() =~= all.take(i as int));
            assert(all.take(i + 1).last() == all[i as int]);
        }
        if i > 0 {
            out.append(", ");
        }
        write_expr(&by[i].expr, out);
        out.append(" ");
        out.append(
            if by[i].ascending {
                "ASC"
            } else {
                "DESC"
            },
        );
        assert(out@ =~= front + sort_keys_text(all.take(i + 1)));
        i = i + 1;
    }
    assert(all.take(by.len() as int) =~= all);
}

fn write_scan_head(p: &PhysicalPlan, out: &mut String)
    requires
        p is SeqScan || p is IndexScan,
    ensures
        final(out)@ == old(out)@ + head_text(p@),
{
    let ghost front = out@;
    proof {
        (*p).unfold();
    }
    match p {
        PhysicalPlan::SeqScan { table, filter, limit, needed_columns } => {
            out.append("Seq Scan on ");
            out.append(table.as_str());
            write_filter(filter, out);
            match limit {
                Some(n) => {
                    out.append("  (limit ");
                    write_nat(*n, out);
                    out.append(")");
                },
                None => {},
            }
        },
        PhysicalPlan::IndexScan { table, index_name, column, op, value, filter, limit } => {
            out.append("Index Scan using ");
            out.append(index_name.as_str());
            out.append(" on ");
            out.append(table.as_str());
            out.append("  (");
            out.append(column.as_str());
            out.append(" ");
            out.append(binop_text(*op));
            out.append(" ");
            write_expr(value, out);
            out.append(")");
        },
        _ => {},
    }
    assert(out@ =~= front + head_text(p@));
}

fn write_group_head(group_by: &Vec<Expr>, aggregates: &Vec<Expr>, having: &Option<Expr>, out: &mut String, Ghost(p): Ghost<PhysicalPlanView>)
    requires
        p matches PhysicalPlanView::HashAggregate { input: _, group_by: g, aggregates: a, having: h } && g == exprs_view(group_by@) && a
            == exprs_view(aggregates@) && h == crate::executor::grouping::opt_expr(*having),
    ensures
        final(out)@ == old(out)@ + head_text(p),
{
    let ghost front = out@;
    proof {
        broadcast use exprs_len;

        assert(exprs_view(group_by@).len() == group_by@.len());
        assert(exprs_view(aggregates@).len() == aggregates@.len());
    }
    out.append("Aggregate");
    if group_by.len() > 0 {
        out.append("  (group by: ");
        write_list(group_by, out);
        out.append(")");
    }
    out.append("  (");
    write_nat(aggregates.len(), out);
    out.append(" aggs)");
    if having.is_some() {
        out.append("  (having)");
    }
    assert(out@ =~= front + head_text(p));
}

fn write_head(p: &PhysicalPlan, out: &mut String)
    ensures
        final(out)@ == old(out)@ + head_text(p@),
{
    let ghost front = out@;
    proof {
        broadcast use select_columns_len;

        (*p).unfold();
    }
    match p {
        PhysicalPlan::SeqScan { .. } => write_scan_head(p, out),
        PhysicalPlan::IndexScan { .. } => write_scan_head(p, out),
        PhysicalPlan::Filter { input, predicate } => {
            out.append("Filter  (");
            write_expr(predicate, out);
            out.append(")");
        },
        PhysicalPlan::Project { input, columns } => {
            assert(select_columns_view(columns@).len() == columns@.len());
            out.append("Project  (");
            write_nat(columns.len(), out);
            out.append(" cols)");
        },
        PhysicalPlan::HashJoin { left, right, condition, join_type } => {
            out.append("Hash Join  [");
            out.append(join_type_text(*join_type));
            out.append("]  on ");
            write_expr(condition, out);
        },
        PhysicalPlan::NestedLoopJoin { left, right, condition, join_type } => {
            out.append("Nested Loop Join  [");
            out.append(join_type_text(*join_type));
            out.append("]  on ");
            write_expr(condition, out);
        },
        PhysicalPlan::HashAggregate { input, group_by, aggregates, having } => {
            write_group_head(group_by, aggregates, having, out, Ghost(p@));
        },
        PhysicalPlan::Sort { input, order_by } => {
            out.append("Sort  (");
            write_sort_keys(order_by, out);
            out.append(")");
        },
        PhysicalPlan::Limit { input, count, offset } => {
            out.append("Limit ");
            write_nat(*count, out);
            out.append(" offset ");
            write_nat(*offset, out);
        },
        PhysicalPlan::Distinct { input } => out.append("Distinct"),
        PhysicalPlan::Insert { table, columns, source } => {
            out.append("Insert into ");
            out.append(table.as_str());
        },
        PhysicalPlan::Update { table, assignments, filter } => {
            out.append("Update ");
            out.append(table.as_str());
            write_filter(filter, out);
        },
        PhysicalPlan::Delete { table, filter } => {
            out.append("Delete from ");
            out.append(table.as_str());
            write_filter(filter, out);
        },
        PhysicalPlan::CreateTable(q) => {
            proof {
                (*q).unfold();
            }
            out.append("Create Table ");
            out.append(q.name.as_str());
        },
        PhysicalPlan::DropTable(q) => {
            proof {
                (*q).unfold();
            }
            out.append("Drop Table ");
            out.append(q.name.as_str());
        },
        PhysicalPlan::CreateIndex(q) => {
            proof {
                (*q).unfold();
            }
            out.append("Create Index ");
            out.append(q.name.as_str());
            out.append(" on ");
            out.append(q.table.as_str());
        },
        PhysicalPlan::DropIndex(n) => {
            out.append("Drop Index ");
            out.append(n.as_str());
        },
    }
    assert(out@ =~= front + head_text(p@));
}

fn head_line(p: &PhysicalPlan, indent: &str, top: bool, Ghost(depth): Ghost<nat>) -> (r: String)
    requires
        indent@ == indent_text(depth),
        top == (depth == 0),
    ensures
        r@ == arrow_text(depth) + head_text(p@),
{
    let mut line = String::new();
    if !top {
        line.append(indent);
        line.append("-> ");
    }
    assert(line@ =~= arrow_text(depth));
    write_head(p, &mut line);
    line
}

spec fn added(old_lines: Seq<String>, new_lines: Seq<String>, more: Seq<Seq<char>>) -> bool {
    names_view(new_lines) == names_view(old_lines) + more
}

impl PhysicalPlan {
    /// The lines of the plan.
    pub fn explain_tree(&self) -> (r: Vec<String>)
        ensures
            names_view(r@) == tree_text(self@, 0),
    {
        let mut out: Vec<String> = Vec::new();
        proof {
            reveal_strlit("");
            assert(names_view(out@) =~= Seq::empty());
            assert(""@ =~= indent_text(0));
        }
        self.write_tree("", true, &mut out, Ghost(0));
        assert(names_view(out@) =~= tree_text(self@, 0));
        out
    }

    fn write_tree(&self, indent: &str, top: bool, out: &mut Vec<String>, Ghost(depth): Ghost<nat>)
        requires
            indent@ == indent_text(depth),
            top == (depth == 0),
        ensures
            added(old(out)@, final(out)@, tree_text(self@, depth)),
        decreases self,
    {
        let ghost front = names_view(out@);
        proof {
            (*self).unfold();
        }
        let line = head_line(self, indent, top, Ghost(depth));
        proof {
            names_push(out@, line);
        }
        out.push(line);
        let ghost head = seq![arrow_text(depth) + head_text(self@)];
        assert(names_view(out@) =~= front + head);
        let next = join2(indent, "  ");
        let next = next.as_str();
        assert(next@ == indent_text(depth + 1));
        let below: Ghost<nat> = Ghost(depth + 1);
        match self {
            PhysicalPlan::IndexScan { table, index_name, column, op, value, filter, limit } => match filter {
                Some(f) => {
                    let mut line = join2(indent, "  filter: ");
                    write_expr(f, &mut line);
                    proof {
                        names_push(out@, line);
                    }
                    out.push(line);
                },
                None => {},
            },
            PhysicalPlan::Filter { input, predicate } => input.write_tree(next, false, out, below),
            PhysicalPlan::Project { input, columns } => input.write_tree(next, false, out, below),
            PhysicalPlan::HashJoin { left, right, condition, join_type } => {
                left.write_tree(next, false, out, below);
                right.write_tree(next, false, out, below);
            },
            PhysicalPlan::NestedLoopJoin { left, right, condition, join_type } => {
                left.write_tree(next, false, out, below);
                right.write_tree(next, false, out, below);
            },
            PhysicalPlan::HashAggregate { input, group_by, aggregates, having } => input.write_tree(next, false, out, below),
            PhysicalPlan::Sort { input, order_by } => input.write_tree(next, false, out, below),
            PhysicalPlan::Limit { input, count, offset } => input.write_tree(next, false, out, below),
            PhysicalPlan::Distinct { input } => input.write_tree(next, false, out, below),
            _ => {},
        }
        assert(names_view(out@) =~= front + tree_text(self@, depth));
    }
}

} // verus!
