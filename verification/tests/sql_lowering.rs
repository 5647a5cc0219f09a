use tinyolap::frontend::sql::{
    SqlBinaryOp, SqlExpr, SqlFunction, SqlFunctionArg, SqlFunctionArguments, SqlGroupBy, SqlQuery, SqlSelect,
    SqlSelectItem, SqlSetExpr, SqlStatement, SqlTableFactor, SqlValue,
};
use tinyolap::parser::ast::{AggFunc, CmpOp, Literal, Predicate, Projection, SelectExpr, Statement};
use tinyolap::parser::lower::lower;

fn ident(s: &str) -> SqlExpr {
    SqlExpr::Identifier(s.to_string())
}

fn num(s: &str) -> SqlExpr {
    SqlExpr::Value(SqlValue::Number { text: s.to_string(), float_bits: s.parse::<f64>().ok().map(|f| f.to_bits()) })
}

fn bin(l: SqlExpr, op: SqlBinaryOp, r: SqlExpr) -> SqlExpr {
    SqlExpr::BinaryOp { left: Box::new(l), op, right: Box::new(r) }
}

fn call(name: &str, arg: SqlFunctionArg) -> SqlSelectItem {
    SqlSelectItem::UnnamedExpr(SqlExpr::Function(SqlFunction {
        name: name.to_string(),
        args: SqlFunctionArguments::List(vec![arg]),
        rest: vec![],
    }))
}

fn query(items: Vec<SqlSelectItem>, selection: Option<SqlExpr>) -> SqlStatement {
    SqlStatement::Query(Box::new(SqlQuery {
        with: vec![],
        body: SqlSetExpr::Select(Box::new(SqlSelect {
            projection: items,
            from: vec![SqlTableFactor::Table("events".to_string())],
            joins: vec![],
            selection,
            group_by: SqlGroupBy::Expressions(vec![]),
            having: None,
            rest: vec![],
        })),
        limit_clause: None,
        order_by: vec![],
        rest: vec![],
    }))
}

// SELECT * FROM events WHERE ts > 1000 AND uid = 42
#[test]
fn test_where_lowering() {
    let stmt = query(
        vec![SqlSelectItem::Wildcard],
        Some(bin(bin(ident("ts"), SqlBinaryOp::Gt, num("1000")), SqlBinaryOp::And, bin(ident("uid"), SqlBinaryOp::Eq, num("42")))),
    );
    let select = match lower(&stmt).unwrap() {
        Statement::Select(s) => s,
        _ => panic!("expected SELECT"),
    };
    assert_eq!(
        select.where_clause,
        Some(Predicate::And(
            Box::new(Predicate::Cmp { col: "ts".into(), op: CmpOp::Gt, value: Literal::Int(1000) }),
            Box::new(Predicate::Cmp { col: "uid".into(), op: CmpOp::Eq, value: Literal::Int(42) }),
        ))
    );
}

// SELECT sum(ts), count(*), max(uid) FROM events
#[test]
fn test_agg_lowering() {
    let stmt = query(
        vec![
            call("sum", SqlFunctionArg::Expr(ident("ts"))),
            call("count", SqlFunctionArg::Wildcard),
            call("max", SqlFunctionArg::Expr(ident("uid"))),
        ],
        None,
    );
    let select = match lower(&stmt).unwrap() {
        Statement::Select(s) => s,
        _ => panic!("expected SELECT"),
    };
    let exprs = match select.projection {
        Projection::Exprs(e) => e,
        _ => panic!("expected Exprs"),
    };
    assert_eq!(exprs[0], SelectExpr::Agg { func: AggFunc::Sum, col: "ts".into() });
    assert_eq!(exprs[1], SelectExpr::Agg { func: AggFunc::Count, col: "*".into() });
    assert_eq!(exprs[2], SelectExpr::Agg { func: AggFunc::Max, col: "uid".into() });
}

#[test]
fn unsupported_statement_is_an_error() {
    assert!(lower(&SqlStatement::Other("DROP TABLE events".to_string())).is_err());
}
