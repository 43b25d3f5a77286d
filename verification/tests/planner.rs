use bytedb_query::parser::ast::{BinOp, Expr, JoinType, LiteralValue, Statement};
use bytedb_query::parser::parser::Parser;
use bytedb_query::planner::logical_plan::build_logical_plan;
use bytedb_query::planner::optimizer::{optimize, optimize_with_catalog, optimize_with_stats, IndexInfo, TableIndexes, TableRows};
use bytedb_query::planner::plan::{LogicalPlan, PhysicalPlan};

fn scan(t: &str) -> LogicalPlan {
    LogicalPlan::Scan { table: t.to_string(), filter: None }
}

fn join(left: LogicalPlan, right: LogicalPlan) -> LogicalPlan {
    LogicalPlan::Join {
        left: Box::new(left),
        right: Box::new(right),
        condition: Expr::Literal(LiteralValue::Bool(true)),
        join_type: JoinType::Inner,
    }
}

fn rows_of(t: &str, rows: u64) -> TableRows {
    TableRows { table: t.to_string(), rows }
}

fn first_table(p: &PhysicalPlan) -> Option<&str> {
    match p {
        PhysicalPlan::SeqScan { table, .. } => Some(table),
        PhysicalPlan::HashJoin { left, .. } => first_table(left),
        PhysicalPlan::NestedLoopJoin { left, .. } => first_table(left),
        PhysicalPlan::Filter { input, .. } => first_table(input),
        PhysicalPlan::Project { input, .. } => first_table(input),
        _ => None,
    }
}

fn parse(sql: &str) -> Statement {
    Parser::new(sql).unwrap().parse().unwrap()
}

#[test]
fn no_stats_preserves_source_order() {
    let plan = join(join(scan("a"), scan("b")), scan("c"));
    let phys = optimize(&plan).unwrap();

    assert_eq!(first_table(&phys), Some("a"));
}

#[test]
fn smallest_table_drives_when_stats_present() {
    let catalog = vec![rows_of("big", 10_000), rows_of("small", 5), rows_of("medium", 500)];
    let plan = join(join(scan("big"), scan("medium")), scan("small"));
    let phys = optimize_with_stats(&plan, &catalog).unwrap();
    assert_eq!(first_table(&phys), Some("small"));
}

#[test]
fn outer_join_keeps_source_order() {
    let catalog = vec![rows_of("big", 10_000), rows_of("small", 5)];
    let plan = LogicalPlan::Join {
        left: Box::new(scan("big")),
        right: Box::new(scan("small")),
        condition: Expr::Literal(LiteralValue::Bool(true)),
        join_type: JoinType::Left,
    };
    let phys = optimize_with_stats(&plan, &catalog).unwrap();
    assert_eq!(first_table(&phys), Some("big"));
}

#[test]
fn missing_stats_for_one_relation_falls_back() {
    let catalog = vec![rows_of("big", 10_000)];
    let plan = join(scan("big"), scan("small"));
    let phys = optimize_with_stats(&plan, &catalog).unwrap();
    assert_eq!(first_table(&phys), Some("big"));
}

#[test]
fn an_equality_wins_over_a_range_in_the_choice_of_an_index() {
    let x = vec![TableIndexes {
        table: "t".to_string(),
        indexes: vec![
            IndexInfo { name: "by_a".to_string(), columns: vec!["a".to_string()], unique: false },
            IndexInfo { name: "by_b".to_string(), columns: vec!["b".to_string()], unique: false },
        ],
    }];
    let logical = build_logical_plan(&parse("SELECT id FROM t WHERE a > 3 AND 5 = b")).unwrap();
    let plan = optimize_with_catalog(&logical, &Vec::new(), &x).unwrap();
    match plan {
        PhysicalPlan::Project { input, .. } => match *input {
            PhysicalPlan::IndexScan { index_name, op, .. } => {
                assert_eq!(index_name, "by_b");
                assert_eq!(op, BinOp::Eq);
            }
            other => panic!("{other:?}"),
        },
        other => panic!("{other:?}"),
    }
}

#[test]
fn a_flipped_comparison_is_turned_round() {
    let x = vec![TableIndexes {
        table: "t".to_string(),
        indexes: vec![IndexInfo { name: "by_a".to_string(), columns: vec!["a".to_string()], unique: false }],
    }];
    let logical = build_logical_plan(&parse("SELECT id FROM t WHERE 3 < a")).unwrap();
    let plan = optimize_with_catalog(&logical, &Vec::new(), &x).unwrap();
    match plan {
        PhysicalPlan::Project { input, .. } => assert!(matches!(*input, PhysicalPlan::IndexScan { op: BinOp::Gt, .. })),
        other => panic!("{other:?}"),
    }
}

#[test]
fn a_limit_reaches_the_scan_unless_rows_are_sorted() {
    let limit_of = |sql: &str| match optimize(&build_logical_plan(&parse(sql)).unwrap()).unwrap() {
        PhysicalPlan::Project { input, .. } => match *input {
            PhysicalPlan::Limit { input, .. } => match *input {
                PhysicalPlan::SeqScan { limit, .. } => limit,
                _ => None,
            },
            _ => None,
        },
        _ => None,
    };
    assert_eq!(limit_of("SELECT id FROM t LIMIT 4"), Some(4));
    assert_eq!(limit_of("SELECT id FROM t WHERE a = 1 LIMIT 4"), Some(4));
    assert_eq!(limit_of("SELECT id FROM t LIMIT 4 OFFSET 2"), None);
    assert_eq!(limit_of("SELECT id FROM t ORDER BY id LIMIT 4"), None);
}

#[test]
fn a_plan_is_written_as_a_tree() {
    let logical = build_logical_plan(&parse("SELECT * FROM t WHERE v > 50 ORDER BY v DESC LIMIT 2")).unwrap();
    let lines = optimize(&logical).unwrap().explain_tree();
    let text = lines.join("\n");
    assert!(text.contains("Seq Scan on t"), "{text}");
    assert!(text.contains("filter:"), "{text}");
    assert!(text.contains("DESC"), "{text}");
    assert!(lines.len() >= 4, "{text}");
}

#[test]
fn a_statement_without_a_plan_is_refused() {
    assert!(build_logical_plan(&parse("SHOW TABLES")).is_err());
}
