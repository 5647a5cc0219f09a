use tinyolap::catalog::schema::{ColumnSchema, DataType, TableSchema};
use tinyolap::frontend::sql::{
    SqlBinaryOp, SqlExpr, SqlFunction, SqlFunctionArg, SqlFunctionArguments, SqlGroupBy, SqlLimitClause, SqlQuery,
    SqlSelect, SqlSelectItem, SqlSetExpr, SqlStatement, SqlTableFactor, SqlValue,
};
use tinyolap::logical_plan::logical_operators::{BinaryOp, LiteralValue, LogicalExpr, LogicalPlan};
use tinyolap::logical_plan::lower::lower;
use tinyolap::logical_plan::optimizer::{fold_expr, Optimizer};

fn make_schema() -> TableSchema {
    TableSchema {
        name: "users".to_string(),
        columns: vec![
            ColumnSchema { name: "id".to_string(), data_type: DataType::I64 },
            ColumnSchema { name: "name".to_string(), data_type: DataType::Str },
            ColumnSchema { name: "age".to_string(), data_type: DataType::I32 },
        ],
        sort_key: vec![0],
    }
}

fn ident(s: &str) -> SqlExpr {
    SqlExpr::Identifier(s.to_string())
}

fn num(s: &str) -> SqlExpr {
    SqlExpr::Value(SqlValue::Number { text: s.to_string(), float_bits: s.parse::<f64>().ok().map(|f| f.to_bits()) })
}

fn bin(l: SqlExpr, op: SqlBinaryOp, r: SqlExpr) -> SqlExpr {
    SqlExpr::BinaryOp { left: Box::new(l), op, right: Box::new(r) }
}

fn select(items: Vec<SqlSelectItem>, selection: Option<SqlExpr>, limit: Option<&str>) -> SqlStatement {
    SqlStatement::Query(Box::new(SqlQuery {
        with: vec![],
        body: SqlSetExpr::Select(Box::new(SqlSelect {
            projection: items,
            from: vec![SqlTableFactor::Table("users".to_string())],
            joins: vec![],
            selection,
            group_by: SqlGroupBy::Expressions(vec![]),
            having: None,
            rest: vec![],
        })),
        limit_clause: limit.map(|n| SqlLimitClause::LimitOffset(Some(num(n)))),
        order_by: vec![],
        rest: vec![],
    }))
}

fn lower_stmt(stmt: &SqlStatement) -> Result<LogicalPlan, String> {
    lower(stmt, &make_schema())
}

fn optimize_stmt(stmt: &SqlStatement) -> LogicalPlan {
    let plan = lower_stmt(stmt).unwrap();
    let schema = make_schema();
    Optimizer::new(&schema).optimize(plan)
}

// SELECT name, COUNT(id) FROM users GROUP BY name
#[test]
fn print_simple_select() {
    let count = SqlExpr::Function(SqlFunction {
        name: "COUNT".to_string(),
        args: SqlFunctionArguments::List(vec![SqlFunctionArg::Expr(ident("id"))]),
        rest: vec![],
    });
    let stmt = SqlStatement::Query(Box::new(SqlQuery {
        with: vec![],
        body: SqlSetExpr::Select(Box::new(SqlSelect {
            projection: vec![SqlSelectItem::UnnamedExpr(ident("name")), SqlSelectItem::UnnamedExpr(count)],
            from: vec![SqlTableFactor::Table("users".to_string())],
            joins: vec![],
            selection: None,
            group_by: SqlGroupBy::Expressions(vec![ident("name")]),
            having: None,
            rest: vec![],
        })),
        limit_clause: None,
        order_by: vec![],
        rest: vec![],
    }));
    let plan = lower_stmt(&stmt).unwrap();
    println!("{}", plan.display());
}

// SELECT * FROM users LIMIT 10
#[test]
fn print_limit() {
    let plan = lower_stmt(&select(vec![SqlSelectItem::Wildcard], None, Some("10"))).unwrap();
    println!("{}", plan.display());
}

#[test]
fn plans_are_written_one_operator_per_line() {
    let stmt = select(
        vec![SqlSelectItem::UnnamedExpr(ident("id"))],
        Some(bin(ident("age"), SqlBinaryOp::Gt, num("30"))),
        Some("5"),
    );
    let plan = lower_stmt(&stmt).unwrap();
    assert_eq!(
        plan.display(),
        "Limit(5)\n  Project(users.id)\n    Filter((users.age > 30))\n      Scan(users)\n"
    );
}

// SELECT id FROM users
#[test]
fn simple_select_lowers_correctly() {
    let plan = lower_stmt(&select(vec![SqlSelectItem::UnnamedExpr(ident("id"))], None, None)).unwrap();
    assert!(matches!(plan, LogicalPlan::Project { .. }));
}

// SELECT id FROM users WHERE age > 30
#[test]
fn where_clause_produces_filter() {
    let stmt = select(
        vec![SqlSelectItem::UnnamedExpr(ident("id"))],
        Some(bin(ident("age"), SqlBinaryOp::Gt, num("30"))),
        None,
    );
    let plan = lower_stmt(&stmt).unwrap();
    assert!(matches!(plan, LogicalPlan::Project {
        input, ..
    } if matches!(input.as_ref(), LogicalPlan::Filter { .. })));
}

// SELECT id FROM users LIMIT 5
#[test]
fn limit_is_root() {
    let plan = lower_stmt(&select(vec![SqlSelectItem::UnnamedExpr(ident("id"))], None, Some("5"))).unwrap();
    assert!(matches!(plan, LogicalPlan::Limit { limit: 5, .. }));
}

// SELECT * FROM users
#[test]
fn select_star_expands_to_all_columns() {
    let plan = lower_stmt(&select(vec![SqlSelectItem::Wildcard], None, None)).unwrap();
    if let LogicalPlan::Project { projections, .. } = plan {
        assert_eq!(projections.len(), 3);
    } else {
        panic!("expected Project node");
    }
}

// SELECT id FROM users WHERE 1 = 1 AND age > 30
#[test]
fn constant_fold_and_simplify() {
    let stmt = select(
        vec![SqlSelectItem::UnnamedExpr(ident("id"))],
        Some(bin(bin(num("1"), SqlBinaryOp::Eq, num("1")), SqlBinaryOp::And, bin(ident("age"), SqlBinaryOp::Gt, num("30")))),
        None,
    );
    let plan = optimize_stmt(&stmt);
    if let LogicalPlan::Project { input, .. } = plan {
        if let LogicalPlan::Filter { predicate, .. } = input.as_ref() {
            assert!(!matches!(predicate, LogicalExpr::Literal(LiteralValue::Bool(true))));
        }
    }
}

// SELECT id FROM users WHERE 1 = 1
#[test]
fn eliminate_true_filter() {
    let stmt = select(vec![SqlSelectItem::UnnamedExpr(ident("id"))], Some(bin(num("1"), SqlBinaryOp::Eq, num("1"))), None);
    let plan = optimize_stmt(&stmt);
    if let LogicalPlan::Project { input, .. } = plan {
        assert!(matches!(input.as_ref(), LogicalPlan::Scan { .. }));
    } else {
        panic!("expected Project at root");
    }
}

// SELECT id FROM users WHERE 1 = 2
#[test]
fn keep_false_filter() {
    let stmt = select(vec![SqlSelectItem::UnnamedExpr(ident("id"))], Some(bin(num("1"), SqlBinaryOp::Eq, num("2"))), None);
    let plan = optimize_stmt(&stmt);
    if let LogicalPlan::Project { input, .. } = plan {
        assert!(matches!(input.as_ref(), LogicalPlan::Filter { .. }));
    } else {
        panic!("expected Project at root");
    }
}

// SELECT id FROM users WHERE age > 30
#[test]
fn non_constant_expr_unchanged() {
    let stmt = select(
        vec![SqlSelectItem::UnnamedExpr(ident("id"))],
        Some(bin(ident("age"), SqlBinaryOp::Gt, num("30"))),
        None,
    );
    let plan = optimize_stmt(&stmt);
    if let LogicalPlan::Project { input, .. } = plan {
        assert!(matches!(input.as_ref(), LogicalPlan::Filter { .. }));
    } else {
        panic!("expected Filter to remain");
    }
}

#[test]
fn coercion_casts_the_literal_to_the_column_type() {
    let stmt = select(
        vec![SqlSelectItem::UnnamedExpr(ident("id"))],
        Some(bin(ident("age"), SqlBinaryOp::Gt, num("30"))),
        None,
    );
    let plan = optimize_stmt(&stmt);
    match plan {
        LogicalPlan::Project { input, .. } => match *input {
            LogicalPlan::Filter { predicate: LogicalExpr::BinaryOp { right, op: BinaryOp::Gt, .. }, .. } => {
                assert!(matches!(*right, LogicalExpr::Cast { target_datatype: DataType::I32, .. }));
            }
            _ => panic!("expected a comparison filter"),
        },
        _ => panic!("expected Project"),
    }
}

#[test]
fn folding_boolean_connectives() {
    let t = || LogicalExpr::Literal(LiteralValue::Bool(true));
    let f = || LogicalExpr::Literal(LiteralValue::Bool(false));
    let c = || LogicalExpr::Column("users".to_string(), "age".to_string());
    let and = |l, r| LogicalExpr::BinaryOp { left: Box::new(l), op: BinaryOp::And, right: Box::new(r) };
    let or = |l, r| LogicalExpr::BinaryOp { left: Box::new(l), op: BinaryOp::Or, right: Box::new(r) };
    assert_eq!(fold_expr(and(t(), c())), c());
    assert_eq!(fold_expr(and(f(), c())), f());
    assert_eq!(fold_expr(or(t(), c())), t());
    assert_eq!(fold_expr(or(f(), c())), c());
    let lt = LogicalExpr::BinaryOp {
        left: Box::new(LogicalExpr::Literal(LiteralValue::Int(3))),
        op: BinaryOp::Lt,
        right: Box::new(LogicalExpr::Literal(LiteralValue::Int(-4))),
    };
    assert_eq!(fold_expr(lt), f());
}

#[test]
fn unknown_column_fails_lowering() {
    let stmt = select(vec![SqlSelectItem::UnnamedExpr(ident("nope"))], None, None);
    assert!(lower_stmt(&stmt).is_err());
}

#[test]
fn folding_twice_is_folding_once() {
    let int = |v: i64| LogicalExpr::Literal(LiteralValue::Int(v));
    let c = || LogicalExpr::Column("users".to_string(), "age".to_string());
    let op = |l, o, r| LogicalExpr::BinaryOp { left: Box::new(l), op: o, right: Box::new(r) };
    // (1 < 2) AND ((age > 3) OR (2 = 5))
    let e = op(
        op(int(1), BinaryOp::Lt, int(2)),
        BinaryOp::And,
        op(op(c(), BinaryOp::Gt, int(3)), BinaryOp::Or, op(int(2), BinaryOp::Eq, int(5))),
    );
    let once = fold_expr(e);
    assert_eq!(once, op(op(c(), BinaryOp::Gt, int(3)), BinaryOp::Or, LogicalExpr::Literal(LiteralValue::Bool(false))));
    assert_eq!(fold_expr(once.clone()), once);
}
