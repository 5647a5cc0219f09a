use tinyolap::catalog::schema::DataType;
use tinyolap::logical_plan::logical_operators::{
    AggFunc as LogAggFunc, BinaryOp as LogBinaryOp, LiteralValue as LogLiteralValue, LogicalExpr, LogicalPlan,
};
use tinyolap::physical_plan::lower::lower;
use tinyolap::physical_plan::optimizer::Optimizer;
use tinyolap::physical_plan::physical_operators::{
    AggFunc, AggSpec, CmpOp, LiteralValue, LogicalOp, PhysicalExpr, PhysicalPlan,
};

fn lcol(table: &str, name: &str) -> LogicalExpr {
    LogicalExpr::Column(table.to_string(), name.to_string())
}

fn col(name: &str) -> PhysicalExpr {
    PhysicalExpr::Column(name.to_string())
}

fn scan(table: &str, columns: Vec<&str>) -> PhysicalPlan {
    PhysicalPlan::FullScan {
        table: table.to_string(),
        columns: columns.into_iter().map(|s| s.to_string()).collect(),
    }
}

// SELECT name FROM users: the scan loads only the referenced columns.
#[test]
fn test_column_pruning() {
    let plan = LogicalPlan::Project {
        projections: vec![lcol("users", "name")],
        input: Box::new(LogicalPlan::Scan { table: "users".to_string() }),
    };

    let physical = lower(plan);

    match physical {
        PhysicalPlan::Project { input, .. } => match *input {
            PhysicalPlan::FullScan { table, columns } => {
                assert_eq!(table, "users");
                assert_eq!(columns, vec!["name"]);
            }
            _ => panic!("expected Scan"),
        },
        _ => panic!("expected Project"),
    }
}

// SELECT name FROM users WHERE age > 30
#[test]
fn test_filter_lowering() {
    let plan = LogicalPlan::Project {
        projections: vec![lcol("users", "name")],
        input: Box::new(LogicalPlan::Filter {
            predicate: LogicalExpr::BinaryOp {
                left: Box::new(lcol("users", "age")),
                op: LogBinaryOp::Gt,
                right: Box::new(LogicalExpr::Literal(LogLiteralValue::Int(30))),
            },
            input: Box::new(LogicalPlan::Scan { table: "users".to_string() }),
        }),
    };

    let physical = lower(plan);

    match physical {
        PhysicalPlan::Project { input, .. } => match *input {
            PhysicalPlan::Filter { predicate, input } => {
                match predicate {
                    PhysicalExpr::Compare { left, op, right } => match (*left, op, *right) {
                        (PhysicalExpr::Column(col), CmpOp::Gt, PhysicalExpr::Literal(LiteralValue::Int(30))) => {
                            assert_eq!(col, "age")
                        }
                        _ => panic!("unexpected predicate shape"),
                    },
                    _ => panic!("expected BinaryOp predicate"),
                }
                match *input {
                    PhysicalPlan::FullScan { mut columns, .. } => {
                        columns.sort();
                        assert_eq!(columns, vec!["age", "name"]);
                    }
                    _ => panic!("expected Scan"),
                }
            }
            _ => panic!("expected Filter"),
        },
        _ => panic!("expected Project"),
    }
}

// SELECT name, SUM(age) FROM users GROUP BY name
#[test]
fn test_aggregate_lowering() {
    let agg_expr = || LogicalExpr::Aggregate { func: LogAggFunc::Sum, arg: Box::new(lcol("users", "age")) };

    let plan = LogicalPlan::Project {
        projections: vec![lcol("users", "name"), agg_expr()],
        input: Box::new(LogicalPlan::Aggregate {
            group_by: vec![lcol("users", "name")],
            aggregates: vec![agg_expr()],
            input: Box::new(LogicalPlan::Scan { table: "users".to_string() }),
        }),
    };

    let physical = lower(plan);

    match physical {
        PhysicalPlan::Project { projections, input } => {
            assert_eq!(projections.len(), 2);
            match &projections[0] {
                PhysicalExpr::Column(c) => assert_eq!(c, "name"),
                _ => panic!("expected Column for name"),
            }
            match &projections[1] {
                PhysicalExpr::Column(c) => assert_eq!(c, "sum(age)"),
                _ => panic!("expected Column(\"sum(age)\") in projection"),
            }

            match *input {
                PhysicalPlan::Aggregate { group_by, aggregates, input } => {
                    assert_eq!(group_by.len(), 1);
                    match &group_by[0] {
                        PhysicalExpr::Column(c) => assert_eq!(c, "name"),
                        _ => panic!("expected Column in group_by"),
                    }

                    assert_eq!(aggregates.len(), 1);
                    assert_eq!(aggregates[0].output_name, "sum(age)");
                    match aggregates[0].func {
                        AggFunc::Sum => {}
                        _ => panic!("expected Sum"),
                    }
                    match &aggregates[0].arg {
                        PhysicalExpr::Column(c) => assert_eq!(c, "age"),
                        _ => panic!("expected Column(\"age\") as agg arg"),
                    }

                    match *input {
                        PhysicalPlan::FullScan { mut columns, .. } => {
                            columns.sort();
                            assert_eq!(columns, vec!["age", "name"]);
                        }
                        _ => panic!("expected Scan"),
                    }
                }
                _ => panic!("expected Aggregate"),
            }
        }
        _ => panic!("expected Project"),
    }
}

// SELECT name FROM users LIMIT 5
#[test]
fn test_limit_lowering() {
    let plan = LogicalPlan::Limit {
        limit: 5,
        input: Box::new(LogicalPlan::Project {
            projections: vec![lcol("users", "name")],
            input: Box::new(LogicalPlan::Scan { table: "users".to_string() }),
        }),
    };

    let physical = lower(plan);

    match physical {
        PhysicalPlan::Limit { limit, input } => {
            assert_eq!(limit, 5);
            match *input {
                PhysicalPlan::Project { .. } => {}
                _ => panic!("expected Project under Limit"),
            }
        }
        _ => panic!("expected Limit"),
    }
}

// Filter + Scan becomes a ZoneMapScan.
#[test]
fn test_predicate_pushdown() {
    let predicate = PhysicalExpr::Compare {
        left: Box::new(col("age")),
        op: CmpOp::Gt,
        right: Box::new(PhysicalExpr::Literal(LiteralValue::Int(30))),
    };

    let plan = PhysicalPlan::Filter { predicate, input: Box::new(scan("users", vec!["age", "name"])) };

    let optimized = Optimizer::new().optimize(plan);
    println!("{}", optimized.display());

    match optimized {
        PhysicalPlan::ZoneMapScan { table, columns, predicate } => {
            assert_eq!(table, "users");
            assert_eq!(columns, vec!["age", "name"]);
            match predicate {
                PhysicalExpr::Compare { left, op, right } => match (*left, op, *right) {
                    (PhysicalExpr::Column(col), CmpOp::Gt, PhysicalExpr::Literal(LiteralValue::Int(30))) => {
                        assert_eq!(col, "age")
                    }
                    _ => panic!("unexpected predicate shape"),
                },
                _ => panic!("expected BinaryOp predicate"),
            }
        }
        _ => panic!("expected ZoneMapScan after pushdown"),
    }
}

// Filter { predicate: true } becomes its input.
#[test]
fn test_eliminate_true_filter() {
    let plan = PhysicalPlan::Filter {
        predicate: PhysicalExpr::Literal(LiteralValue::Bool(true)),
        input: Box::new(scan("users", vec!["name"])),
    };

    let optimized = Optimizer::new().optimize(plan);
    println!("{}", optimized.display());

    match optimized {
        PhysicalPlan::FullScan { .. } => {}
        _ => panic!("expected Filter to be eliminated, leaving Scan"),
    }
}

// A filter over an aggregate is not pushed down.
#[test]
fn test_no_pushdown_over_aggregate() {
    let plan = PhysicalPlan::Filter {
        predicate: PhysicalExpr::Compare {
            left: Box::new(col("age")),
            op: CmpOp::Gt,
            right: Box::new(PhysicalExpr::Literal(LiteralValue::Int(30))),
        },
        input: Box::new(PhysicalPlan::Aggregate {
            group_by: vec![col("name")],
            aggregates: vec![AggSpec { func: AggFunc::Sum, arg: col("age"), output_name: "sum(age)".to_string() }],
            input: Box::new(scan("users", vec!["age", "name"])),
        }),
    };

    let optimized = Optimizer::new().optimize(plan);
    println!("{}", optimized.display());

    match optimized {
        PhysicalPlan::Filter { input, .. } => match *input {
            PhysicalPlan::Aggregate { .. } => {}
            _ => panic!("expected Aggregate under Filter"),
        },
        _ => panic!("expected Filter to remain"),
    }
}

#[test]
fn scan_columns_are_sorted_and_distinct() {
    let plan = LogicalPlan::Project {
        projections: vec![lcol("t", "zeta"), lcol("t", "alpha"), lcol("t", "zeta")],
        input: Box::new(LogicalPlan::Filter {
            predicate: LogicalExpr::BinaryOp {
                left: Box::new(lcol("t", "mid")),
                op: LogBinaryOp::And,
                right: Box::new(lcol("t", "alpha")),
            },
            input: Box::new(LogicalPlan::Scan { table: "t".to_string() }),
        }),
    };
    match lower(plan) {
        PhysicalPlan::Project { projections, input } => {
            assert_eq!(projections.len(), 3);
            match *input {
                PhysicalPlan::Filter { predicate, input } => {
                    assert!(matches!(predicate, PhysicalExpr::Logical { op: LogicalOp::And, .. }));
                    match *input {
                        PhysicalPlan::FullScan { columns, .. } => assert_eq!(columns, vec!["alpha", "mid", "zeta"]),
                        _ => panic!("expected FullScan"),
                    }
                }
                _ => panic!("expected Filter"),
            }
        }
        _ => panic!("expected Project"),
    }
}

#[test]
fn cast_of_integer_literal_takes_the_column_type() {
    let pred = |n: i64, t: DataType| LogicalPlan::Filter {
        predicate: LogicalExpr::BinaryOp {
            left: Box::new(lcol("t", "c")),
            op: LogBinaryOp::Eq,
            right: Box::new(LogicalExpr::Cast {
                expr: Box::new(LogicalExpr::Literal(LogLiteralValue::Int(n))),
                target_datatype: t,
            }),
        },
        input: Box::new(LogicalPlan::Scan { table: "t".to_string() }),
    };
    let right_of = |p: PhysicalPlan| match p {
        PhysicalPlan::Filter { predicate: PhysicalExpr::Compare { right, .. }, .. } => *right,
        _ => panic!("expected a comparison filter"),
    };
    assert!(matches!(right_of(lower(pred(100, DataType::I16))), PhysicalExpr::Literal(LiteralValue::I16(100))));
    // Out of range for the type: the literal stays as written.
    assert!(matches!(right_of(lower(pred(40000, DataType::I16))), PhysicalExpr::Literal(LiteralValue::Int(40000))));
    assert!(matches!(right_of(lower(pred(-1, DataType::U8))), PhysicalExpr::Literal(LiteralValue::Int(-1))));
    assert!(matches!(right_of(lower(pred(7, DataType::U64))), PhysicalExpr::Literal(LiteralValue::U64(7))));
}

#[test]
fn aggregate_names_render_their_argument() {
    let plan = LogicalPlan::Project {
        projections: vec![LogicalExpr::Aggregate {
            func: LogAggFunc::Max,
            arg: Box::new(LogicalExpr::Literal(LogLiteralValue::Int(-12))),
        }],
        input: Box::new(LogicalPlan::Scan { table: "t".to_string() }),
    };
    match lower(plan) {
        PhysicalPlan::Project { projections, .. } => match &projections[0] {
            PhysicalExpr::Column(c) => assert_eq!(c, "max(-12)"),
            _ => panic!("expected a column"),
        },
        _ => panic!("expected Project"),
    }
}

#[test]
fn plan_display_indents_inputs() {
    let plan = PhysicalPlan::Limit {
        limit: 3,
        input: Box::new(PhysicalPlan::Filter {
            predicate: PhysicalExpr::Compare {
                left: Box::new(col("age")),
                op: CmpOp::GtEq,
                right: Box::new(PhysicalExpr::Literal(LiteralValue::Str("x".to_string()))),
            },
            input: Box::new(scan("users", vec!["age", "name"])),
        }),
    };
    assert_eq!(plan.display(), "Limit(3)\n  Filter((age >= 'x'))\n    FullScan(users, cols=[age, name])\n");
}

#[test]
fn children_and_with_new_children() {
    let plan = PhysicalPlan::Limit { limit: 1, input: Box::new(scan("t", vec!["a"])) };
    assert_eq!(plan.children().len(), 1);
    assert_eq!(scan("t", vec![]).children().len(), 0);
    let replaced = plan.with_new_children(vec![scan("u", vec!["b"])]);
    match replaced {
        PhysicalPlan::Limit { limit, input } => {
            assert_eq!(limit, 1);
            assert!(matches!(*input, PhysicalPlan::FullScan { ref table, .. } if table == "u"));
        }
        _ => panic!("expected Limit"),
    }
}
