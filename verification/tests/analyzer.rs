use tinyolap::catalog::schema::{ColumnSchema, DataType, TableSchema};
use tinyolap::frontend::analyzer::analyze;
use tinyolap::frontend::sql::{
    SqlBinaryOp, SqlExpr, SqlGroupBy, SqlNode, SqlQuery, SqlSelect, SqlSelectItem, SqlSetExpr, SqlStatement,
    SqlTableFactor, SqlValue,
};

fn make_schema() -> TableSchema {
    TableSchema {
        name: "users".to_string(),
        columns: vec![
            ColumnSchema { name: "id".to_string(), data_type: DataType::I64 },
            ColumnSchema { name: "name".to_string(), data_type: DataType::Str },
            ColumnSchema { name: "age".to_string(), data_type: DataType::I32 },
        ],
        sort_key: vec![0],
    }
}

fn ident(s: &str) -> SqlExpr {
    SqlExpr::Identifier(s.to_string())
}

fn compound(a: &str, b: &str) -> SqlExpr {
    SqlExpr::CompoundIdentifier(vec![a.to_string(), b.to_string()])
}

fn num(s: &str) -> SqlExpr {
    SqlExpr::Value(SqlValue::Number { text: s.to_string(), float_bits: s.parse::<f64>().ok().map(|f| f.to_bits()) })
}

fn text(s: &str) -> SqlExpr {
    SqlExpr::Value(SqlValue::SingleQuotedString(s.to_string()))
}

fn bin(l: SqlExpr, op: SqlBinaryOp, r: SqlExpr) -> SqlExpr {
    SqlExpr::BinaryOp { left: Box::new(l), op, right: Box::new(r) }
}

fn select(items: Vec<SqlExpr>, table: &str, selection: Option<SqlExpr>) -> SqlStatement {
    SqlStatement::Query(Box::new(SqlQuery {
        with: vec![],
        body: SqlSetExpr::Select(Box::new(SqlSelect {
            projection: items.into_iter().map(SqlSelectItem::UnnamedExpr).collect(),
            from: vec![SqlTableFactor::Table(table.to_string())],
            joins: vec![],
            selection,
            group_by: SqlGroupBy::Expressions(vec![]),
            having: None,
            rest: vec![],
        })),
        limit_clause: None,
        order_by: vec![],
        rest: vec![],
    }))
}

fn analyze_stmt(stmt: &SqlStatement) -> Result<(), String> {
    analyze(stmt, &make_schema())
}

#[test]
fn valid_column_reference_passes() {
    assert!(analyze_stmt(&select(vec![ident("id"), ident("name")], "users", None)).is_ok());
}

#[test]
fn select_star_passes() {
    let stmt = SqlStatement::Query(Box::new(SqlQuery {
        with: vec![],
        body: SqlSetExpr::Select(Box::new(SqlSelect {
            projection: vec![SqlSelectItem::Wildcard],
            from: vec![SqlTableFactor::Table("users".to_string())],
            joins: vec![],
            selection: None,
            group_by: SqlGroupBy::Expressions(vec![]),
            having: None,
            rest: vec![],
        })),
        limit_clause: None,
        order_by: vec![],
        rest: vec![],
    }));
    assert!(analyze_stmt(&stmt).is_ok());
}

#[test]
fn unknown_column_is_rejected() {
    assert!(analyze_stmt(&select(vec![ident("unknown_col")], "users", None)).is_err());
}

#[test]
fn unknown_table_is_rejected() {
    assert!(analyze_stmt(&select(vec![ident("id")], "orders", None)).is_err());
}

#[test]
fn qualified_column_wrong_table_is_rejected() {
    assert!(analyze_stmt(&select(vec![compound("orders", "id")], "users", None)).is_err());
}

#[test]
fn qualified_column_valid_passes() {
    assert!(analyze_stmt(&select(vec![compound("users", "id")], "users", None)).is_ok());
}

#[test]
fn type_mismatch_string_to_numeric_is_rejected() {
    let stmt = select(vec![ident("id")], "users", Some(bin(ident("age"), SqlBinaryOp::Eq, text("hello"))));
    assert!(analyze_stmt(&stmt).is_err());
}

#[test]
fn type_mismatch_numeric_to_string_is_rejected() {
    let stmt = select(vec![ident("id")], "users", Some(bin(ident("name"), SqlBinaryOp::Eq, num("42"))));
    assert!(analyze_stmt(&stmt).is_err());
}

#[test]
fn valid_type_comparison_passes() {
    let stmt = select(vec![ident("id")], "users", Some(bin(ident("age"), SqlBinaryOp::Gt, num("30"))));
    assert!(analyze_stmt(&stmt).is_ok());
}

#[test]
fn i16_overflow_is_rejected() {
    let schema = TableSchema {
        name: "users".to_string(),
        columns: vec![ColumnSchema { name: "country_id".to_string(), data_type: DataType::I16 }],
        sort_key: vec![0],
    };
    let stmt = select(
        vec![ident("country_id")],
        "users",
        Some(bin(ident("country_id"), SqlBinaryOp::Eq, num("40000"))),
    );
    assert!(analyze(&stmt, &schema).is_err());
}

#[test]
fn i16_in_range_passes() {
    let schema = TableSchema {
        name: "users".to_string(),
        columns: vec![ColumnSchema { name: "country_id".to_string(), data_type: DataType::I16 }],
        sort_key: vec![0],
    };
    let stmt = select(vec![ident("country_id")], "users", Some(bin(ident("country_id"), SqlBinaryOp::Eq, num("100"))));
    assert!(analyze(&stmt, &schema).is_ok());
}

#[test]
fn error_messages_name_the_problem() {
    assert_eq!(analyze_stmt(&select(vec![ident("zz")], "users", None)), Err("unknown column: zz".to_string()));
    assert_eq!(analyze_stmt(&select(vec![ident("id")], "orders", None)), Err("Unknown table: orders".to_string()));
    assert_eq!(
        analyze_stmt(&select(vec![compound("orders", "id")], "users", None)),
        Err("unknown table in qualified reference: orders".to_string())
    );
    let schema = TableSchema {
        name: "users".to_string(),
        columns: vec![ColumnSchema { name: "c".to_string(), data_type: DataType::I16 }],
        sort_key: vec![],
    };
    let stmt = select(vec![ident("c")], "users", Some(bin(num("40000"), SqlBinaryOp::Lt, ident("c"))));
    assert_eq!(
        analyze(&stmt, &schema),
        Err("literal 40000 is out of range for column type I16 (-32768..=32767)".to_string())
    );
    let stmt = select(vec![ident("c")], "users", Some(bin(ident("c"), SqlBinaryOp::Lt, num("1.5"))));
    assert_eq!(
        analyze(&stmt, &schema),
        Err("type mismatch: non-integer literal 1.5 compared to integer column".to_string())
    );
    assert_eq!(
        analyze_stmt(&SqlStatement::Other("DROP TABLE users".to_string())),
        Err("unsupported statement type".to_string())
    );
}

#[test]
fn float_columns_accept_any_number() {
    let schema = TableSchema {
        name: "users".to_string(),
        columns: vec![ColumnSchema { name: "score".to_string(), data_type: DataType::F64 }],
        sort_key: vec![],
    };
    let stmt = select(vec![ident("score")], "users", Some(bin(ident("score"), SqlBinaryOp::Gt, num("2.5"))));
    assert!(analyze(&stmt, &schema).is_ok());
}

fn with_parts(
    from: SqlTableFactor,
    joins: Vec<SqlNode>,
    selection: Option<SqlExpr>,
    having: Option<SqlExpr>,
    order_by: Vec<SqlNode>,
) -> SqlStatement {
    SqlStatement::Query(Box::new(SqlQuery {
        with: vec![],
        body: SqlSetExpr::Select(Box::new(SqlSelect {
            projection: vec![SqlSelectItem::UnnamedExpr(ident("id"))],
            from: vec![from],
            joins: vec![joins],
            selection,
            group_by: SqlGroupBy::Expressions(vec![]),
            having,
            rest: vec![],
        })),
        order_by,
        limit_clause: None,
        rest: vec![],
    }))
}

fn users() -> SqlTableFactor {
    SqlTableFactor::Table("users".to_string())
}

#[test]
fn names_in_order_by_having_and_nested_expressions_are_checked() {
    // SELECT id FROM users ORDER BY nope
    let s = with_parts(users(), vec![], None, None, vec![SqlNode::Expr(ident("nope"))]);
    assert_eq!(analyze_stmt(&s), Err("unknown column: nope".to_string()));
    // SELECT id FROM users HAVING missing > 1
    let s = with_parts(users(), vec![], None, Some(bin(ident("missing"), SqlBinaryOp::Gt, num("1"))), vec![]);
    assert_eq!(analyze_stmt(&s), Err("unknown column: missing".to_string()));
    // SELECT id FROM users WHERE age IN (1, x)
    let in_list = SqlExpr::Other("age IN (1, x)".to_string(), vec![
        SqlNode::Expr(ident("age")),
        SqlNode::Expr(num("1")),
        SqlNode::Expr(ident("x")),
    ]);
    let s = with_parts(users(), vec![], Some(in_list), None, vec![]);
    assert_eq!(analyze_stmt(&s), Err("unknown column: x".to_string()));
    // SELECT id FROM users WHERE CASE WHEN age > 1 THEN id ELSE zzz END = 1
    let case = SqlExpr::Other("CASE WHEN age > 1 THEN id ELSE zzz END".to_string(), vec![
        SqlNode::Expr(bin(ident("age"), SqlBinaryOp::Gt, num("1"))),
        SqlNode::Expr(ident("id")),
        SqlNode::Expr(ident("zzz")),
    ]);
    let s = with_parts(users(), vec![], Some(bin(case, SqlBinaryOp::Eq, num("1"))), None, vec![]);
    assert_eq!(analyze_stmt(&s), Err("unknown column: zzz".to_string()));
    // ORDER BY a known column passes.
    let s = with_parts(users(), vec![], None, None, vec![SqlNode::Expr(ident("age"))]);
    assert!(analyze_stmt(&s).is_ok());
}

#[test]
fn joined_and_nested_tables_are_checked() {
    // SELECT id FROM users JOIN orders ON users.id = orders.id
    let on = bin(compound("users", "id"), SqlBinaryOp::Eq, compound("orders", "id"));
    let s = with_parts(users(), vec![SqlNode::Table(SqlTableFactor::Table("orders".to_string())), SqlNode::Expr(on)], None, None, vec![]);
    assert_eq!(analyze_stmt(&s), Err("Unknown table: orders".to_string()));
    // SELECT id FROM (SELECT id FROM orders) AS s
    let derived = SqlTableFactor::Other("(SELECT id FROM orders) AS s".to_string(), vec![
        SqlNode::Expr(ident("id")),
        SqlNode::Table(SqlTableFactor::Table("orders".to_string())),
    ]);
    let s = with_parts(derived, vec![], None, None, vec![]);
    assert_eq!(analyze_stmt(&s), Err("Unknown table: orders".to_string()));
    // A self join on known columns passes.
    let on = bin(compound("users", "id"), SqlBinaryOp::Eq, compound("users", "age"));
    let s = with_parts(users(), vec![SqlNode::Table(users()), SqlNode::Expr(on)], None, None, vec![]);
    assert!(analyze_stmt(&s).is_ok());
}
