//! Schema validation: checks that every table and column a query names
//! exists in the schema, and that a literal compared with a column suits the
//! column's type. The tree is walked in the order the statement is written,
//! each expression before its operands, and the first problem found is
//! reported.
use vstd::prelude::*;
use vstd::string::*;

use crate::catalog::schema::{find_column_spec, is_numeric, lemma_find_column, DataType, TableSchema};
use crate::frontend::sql::{
    SqlExpr, SqlFunctionArg, SqlFunctionArguments, SqlGroupBy, SqlLimitClause, SqlNode, SqlQuery, SqlSelect,
    SqlSelectItem, SqlSetExpr, SqlStatement, SqlTableFactor, SqlValue,
};
use crate::text::{decimal, fmt_i64, fmt_u64, parse_i128, parse_int_spec, signed_decimal, str_eq};

verus! {

/// A problem the analyzer reports.
pub enum Issue {
    UnknownColumn(Seq<char>),
    UnknownTable(Seq<char>),
    UnknownQualifiedTable(Seq<char>),
    NumericToNonNumeric,
    StringToNumeric,
    NonInteger(Seq<char>),
    OutOfRange(Seq<char>, DataType),
    UnsupportedStatement,
}

pub open spec fn data_type_name_spec(t: DataType) -> Seq<char> {
    match t {
        DataType::I8 => seq!['I', '8'],
        DataType::I16 => seq!['I', '1', '6'],
        DataType::I32 => seq!['I', '3', '2'],
        DataType::I64 => seq!['I', '6', '4'],
        DataType::U8 => seq!['U', '8'],
        DataType::U16 => seq!['U', '1', '6'],
        DataType::U32 => seq!['U', '3', '2'],
        DataType::U64 => seq!['U', '6', '4'],
        DataType::F32 => seq!['F', '3', '2'],
        DataType::F64 => seq!['F', '6', '4'],
        DataType::Bool => seq!['B', 'o', 'o', 'l'],
        DataType::Str => seq!['S', 't', 'r'],
    }
}

/// The bounds of an integer type; `None` for the others.
pub open spec fn int_range(t: DataType) -> Option<(int, int)> {
    match t {
        DataType::I8 => Some((i8::MIN as int, i8::MAX as int)),
        DataType::I16 => Some((i16::MIN as int, i16::MAX as int)),
        DataType::I32 => Some((i32::MIN as int, i32::MAX as int)),
        DataType::I64 => Some((i64::MIN as int, i64::MAX as int)),
        DataType::U8 => Some((0, u8::MAX as int)),
        DataType::U16 => Some((0, u16::MAX as int)),
        DataType::U32 => Some((0, u32::MAX as int)),
        DataType::U64 => Some((0, u64::MAX as int)),
        _ => None,
    }
}

pub open spec fn issue_message(i: Issue) -> Seq<char> {
    match i {
        Issue::UnknownColumn(n) => "unknown column: "@ + n,
        Issue::UnknownTable(n) => "Unknown table: "@ + n,
        Issue::UnknownQualifiedTable(n) => "unknown table in qualified reference: "@ + n,
        Issue::NumericToNonNumeric => "type mismatch: numeric literal compared to non-numeric column"@,
        Issue::StringToNumeric => "type mismatch: string literal compared to numeric column"@,
        Issue::NonInteger(s) => "type mismatch: non-integer literal "@ + s + " compared to integer column"@,
        Issue::OutOfRange(s, t) => {
            let (lo, hi) = int_range(t)->0;
            "literal "@ + s + " is out of range for column type "@ + data_type_name_spec(t) + " ("@ + signed_decimal(lo)
                + "..="@ + signed_decimal(hi) + ")"@
        },
        Issue::UnsupportedStatement => "unsupported statement type"@,
    }
}

/// Can a literal be compared with a column of type `t`? Numeric literals go
/// with numeric columns and string literals with the others; a numeric
/// literal compared with an integer column must be an integer in its range.
pub open spec fn check_type_spec(t: DataType, v: SqlValue) -> Option<Issue> {
    match v {
        SqlValue::Number { text, .. } => if !is_numeric(t) {
            Some(Issue::NumericToNonNumeric)
        } else {
            match int_range(t) {
                None => None,
                Some((lo, hi)) => match parse_int_spec(text@, true, i128::MIN as int, i128::MAX as int) {
                    None => Some(Issue::NonInteger(text@)),
                    Some(n) => if n < lo || n > hi {
                        Some(Issue::OutOfRange(text@, t))
                    } else {
                        None
                    },
                },
            }
        },
        SqlValue::SingleQuotedString(_) => if is_numeric(t) {
            Some(Issue::StringToNumeric)
        } else {
            None
        },
        _ => None,
    }
}

pub open spec fn column_type_spec(schema: TableSchema, name: Seq<char>) -> Option<DataType> {
    match find_column_spec(schema.cols(), name) {
        Some(i) => Some(schema.cols()[i].1),
        None => None,
    }
}

/// Which columns a literal can be compared with, whatever its text: a
/// numeric literal is refused as a type mismatch exactly by the Bool and Str
/// columns, and a float column accepts every numeric literal; a string
/// literal is refused exactly by the integer and float columns.
pub proof fn lemma_literal_type_groups(t: DataType, v: SqlValue)
    ensures
        v is Number ==> (check_type_spec(t, v) == Some(Issue::NumericToNonNumeric) <==> (t is Bool || t is Str)),
        v is Number && (t is F32 || t is F64) ==> check_type_spec(t, v) is None,
        v is Number && int_range(t) is Some ==> check_type_spec(t, v) is None || check_type_spec(t, v) matches Some(
            Issue::NonInteger(_),
        ) || check_type_spec(t, v) matches Some(Issue::OutOfRange(_, _)),
        v is SingleQuotedString ==> (check_type_spec(t, v) == Some(Issue::StringToNumeric) <==> !(t is Bool
            || t is Str)),
{
}

/// A number compared with an integer column must be an integer within the
/// column type's machine range; one that is not an integer is refused as such.
pub proof fn lemma_integer_literal_range(t: DataType, text: String, bits: Option<u64>)
    ensures
        t is I8 ==> (parse_int_spec(text@, true, i128::MIN as int, i128::MAX as int) matches Some(n) ==> (check_type_spec(t, SqlValue::Number { text, float_bits: bits }) is None <==> -128 <= n <= 127)),
        t is I16 ==> (parse_int_spec(text@, true, i128::MIN as int, i128::MAX as int) matches Some(n) ==> (check_type_spec(t, SqlValue::Number { text, float_bits: bits }) is None <==> -32768 <= n <= 32767)),
        t is I32 ==> (parse_int_spec(text@, true, i128::MIN as int, i128::MAX as int) matches Some(n) ==> (check_type_spec(t, SqlValue::Number { text, float_bits: bits }) is None <==> -2147483648 <= n <= 2147483647)),
        t is I64 ==> (parse_int_spec(text@, true, i128::MIN as int, i128::MAX as int) matches Some(n) ==> (check_type_spec(t, SqlValue::Number { text, float_bits: bits }) is None <==> -9223372036854775808 <= n <= 9223372036854775807)),
        t is U8 ==> (parse_int_spec(text@, true, i128::MIN as int, i128::MAX as int) matches Some(n) ==> (check_type_spec(t, SqlValue::Number { text, float_bits: bits }) is None <==> 0 <= n <= 255)),
        t is U16 ==> (parse_int_spec(text@, true, i128::MIN as int, i128::MAX as int) matches Some(n) ==> (check_type_spec(t, SqlValue::Number { text, float_bits: bits }) is None <==> 0 <= n <= 65535)),
        t is U32 ==> (parse_int_spec(text@, true, i128::MIN as int, i128::MAX as int) matches Some(n) ==> (check_type_spec(t, SqlValue::Number { text, float_bits: bits }) is None <==> 0 <= n <= 4294967295)),
        t is U64 ==> (parse_int_spec(text@, true, i128::MIN as int, i128::MAX as int) matches Some(n) ==> (check_type_spec(t, SqlValue::Number { text, float_bits: bits }) is None <==> 0 <= n <= 18446744073709551615)),
        parse_int_spec(text@, true, i128::MIN as int, i128::MAX as int) is None && int_range(t) is Some ==> check_type_spec(
            t,
            SqlValue::Number { text, float_bits: bits },
        ) == Some(Issue::NonInteger(text@)),
{
}

/// The type of the column an expression names: `Ok(None)` when it names
/// none, an issue when it names one that does not exist.
pub open spec fn resolve_spec(e: SqlExpr, schema: TableSchema) -> Result<Option<DataType>, Issue> {
    match e {
        SqlExpr::Identifier(n) => match column_type_spec(schema, n@) {
            Some(t) => Ok(Some(t)),
            None => Err(Issue::UnknownColumn(n@)),
        },
        SqlExpr::CompoundIdentifier(parts) => if parts@.len() == 2 {
            if parts@[0]@ != schema.name@ {
                Err(Issue::UnknownQualifiedTable(parts@[0]@))
            } else {
                match column_type_spec(schema, parts@[1]@) {
                    Some(t) => Ok(Some(t)),
                    None => Err(Issue::UnknownColumn(parts@[1]@)),
                }
            }
        } else {
            Ok(None)
        },
        _ => Ok(None),
    }
}

/// The check of one expression node, before its operands: names must
/// resolve, and a comparison of a column with a literal must suit the
/// column's type, column on the left checked first.
pub open spec fn node_issue(e: SqlExpr, schema: TableSchema) -> Option<Issue> {
    match e {
        SqlExpr::Identifier(_) => match resolve_spec(e, schema) {
            Err(i) => Some(i),
            Ok(_) => None,
        },
        SqlExpr::CompoundIdentifier(_) => match resolve_spec(e, schema) {
            Err(i) => Some(i),
            Ok(_) => None,
        },
        SqlExpr::BinaryOp { left, right, .. } => {
            let first = match (resolve_spec(*left, schema), *right) {
                (Ok(Some(t)), SqlExpr::Value(v)) => check_type_spec(t, v),
                (Err(i), _) => Some(i),
                _ => None,
            };
            if first is Some {
                first
            } else {
                match (*left, resolve_spec(*right, schema)) {
                    (SqlExpr::Value(v), Ok(Some(t))) => check_type_spec(t, v),
                    (_, Err(i)) => Some(i),
                    _ => None,
                }
            }
        },
        _ => None,
    }
}

/// The first issue of an expression tree, in pre-order.
pub open spec fn expr_issue(e: SqlExpr, schema: TableSchema) -> Option<Issue>
    decreases e, 0int,
{
    match node_issue(e, schema) {
        Some(i) => Some(i),
        None => match e {
            SqlExpr::BinaryOp { left, right, .. } => match expr_issue(*left, schema) {
                Some(i) => Some(i),
                None => expr_issue(*right, schema),
            },
            SqlExpr::UnaryOp { expr, .. } => expr_issue(*expr, schema),
            SqlExpr::Function(f) => match match f.args {
                SqlFunctionArguments::List(list) => args_issue(list@, 0, schema),
                SqlFunctionArguments::Other(_, inner) => nodes_issue(inner@, 0, schema),
            } {
                Some(i) => Some(i),
                None => nodes_issue(f.rest@, 0, schema),
            },
            SqlExpr::Other(_, inner) => nodes_issue(inner@, 0, schema),
            _ => None,
        },
    }
}

/// The first issue of the function arguments from position `i` on.
pub open spec fn args_issue(args: Seq<SqlFunctionArg>, i: int, schema: TableSchema) -> Option<Issue>
    decreases args, args.len() - i,
{
    if 0 <= i < args.len() {
        let here = match args[i] {
            SqlFunctionArg::Expr(e) => expr_issue(e, schema),
            SqlFunctionArg::Other(_, inner) => nodes_issue(inner@, 0, schema),
            SqlFunctionArg::Wildcard => None,
        };
        match here {
            Some(x) => Some(x),
            None => args_issue(args, i + 1, schema),
        }
    } else {
        None
    }
}

/// A table reference must name the schema's table; one the tree does not
/// model is checked through what it holds.
pub open spec fn table_issue(t: SqlTableFactor, schema: TableSchema) -> Option<Issue>
    decreases t, 0int,
{
    match t {
        SqlTableFactor::Table(n) => if n@ != schema.name@ {
            Some(Issue::UnknownTable(n@))
        } else {
            None
        },
        SqlTableFactor::Other(_, inner) => nodes_issue(inner@, 0, schema),
    }
}

/// The first issue of the nested expressions and table references from
/// position `i` on.
pub open spec fn nodes_issue(ns: Seq<SqlNode>, i: int, schema: TableSchema) -> Option<Issue>
    decreases ns, ns.len() - i,
{
    if 0 <= i < ns.len() {
        let here = match ns[i] {
            SqlNode::Expr(e) => expr_issue(e, schema),
            SqlNode::Table(t) => table_issue(t, schema),
        };
        match here {
            Some(x) => Some(x),
            None => nodes_issue(ns, i + 1, schema),
        }
    } else {
        None
    }
}

/// The first issue of the expressions from position `i` on.
pub open spec fn exprs_issue(es: Seq<SqlExpr>, i: int, schema: TableSchema) -> Option<Issue>
    decreases es.len() - i,
{
    if 0 <= i < es.len() {
        match expr_issue(es[i], schema) {
            Some(x) => Some(x),
            None => exprs_issue(es, i + 1, schema),
        }
    } else {
        None
    }
}

pub open spec fn item_issue(item: SqlSelectItem, schema: TableSchema) -> Option<Issue> {
    match item {
        SqlSelectItem::UnnamedExpr(e) => expr_issue(e, schema),
        SqlSelectItem::ExprWithAlias(e) => expr_issue(e, schema),
        SqlSelectItem::Other(_, inner) => nodes_issue(inner@, 0, schema),
        SqlSelectItem::Wildcard => None,
    }
}

pub open spec fn items_issue(items: Seq<SqlSelectItem>, i: int, schema: TableSchema) -> Option<Issue>
    decreases items.len() - i,
{
    if 0 <= i < items.len() {
        match item_issue(items[i], schema) {
            Some(x) => Some(x),
            None => items_issue(items, i + 1, schema),
        }
    } else {
        None
    }
}

/// The `FROM` items from position `i` on, each followed by its joins.
pub open spec fn tables_issue(ts: Seq<SqlTableFactor>, joins: Seq<Vec<SqlNode>>, i: int, schema: TableSchema) -> Option<Issue>
    decreases ts.len() - i,
{
    if 0 <= i < ts.len() {
        match table_issue(ts[i], schema) {
            Some(x) => Some(x),
            None => match (if i < joins.len() {
                nodes_issue(joins[i]@, 0, schema)
            } else {
                None
            }) {
                Some(x) => Some(x),
                None => tables_issue(ts, joins, i + 1, schema),
            },
        }
    } else {
        None
    }
}

pub open spec fn rows_issue(rows: Seq<Vec<SqlExpr>>, i: int, schema: TableSchema) -> Option<Issue>
    decreases rows.len() - i,
{
    if 0 <= i < rows.len() {
        match exprs_issue(rows[i]@, 0, schema) {
            Some(x) => Some(x),
            None => rows_issue(rows, i + 1, schema),
        }
    } else {
        None
    }
}

pub open spec fn opt_expr_issue(e: Option<SqlExpr>, schema: TableSchema) -> Option<Issue> {
    match e {
        Some(x) => expr_issue(x, schema),
        None => None,
    }
}

pub open spec fn first_of(a: Option<Issue>, b: Option<Issue>) -> Option<Issue> {
    if a is Some {
        a
    } else {
        b
    }
}

/// Select list, then `FROM` with its joins, then `WHERE`, then `GROUP BY`,
/// then `HAVING`, then the other clauses.
pub open spec fn select_issue(s: SqlSelect, schema: TableSchema) -> Option<Issue> {
    first_of(
        items_issue(s.projection@, 0, schema),
        first_of(
            tables_issue(s.from@, s.joins@, 0, schema),
            first_of(
                opt_expr_issue(s.selection, schema),
                first_of(
                    match s.group_by {
                        SqlGroupBy::Expressions(v) => exprs_issue(v@, 0, schema),
                        SqlGroupBy::All(_) => None,
                    },
                    first_of(opt_expr_issue(s.having, schema), nodes_issue(s.rest@, 0, schema)),
                ),
            ),
        ),
    )
}

pub open spec fn limit_issue(l: Option<SqlLimitClause>, schema: TableSchema) -> Option<Issue> {
    match l {
        Some(SqlLimitClause::LimitOffset(e)) => opt_expr_issue(e, schema),
        Some(SqlLimitClause::Other(_, inner)) => nodes_issue(inner@, 0, schema),
        None => None,
    }
}

/// `WITH`, the body, `ORDER BY`, the limit, then the clauses after it.
pub open spec fn query_issue(q: SqlQuery, schema: TableSchema) -> Option<Issue> {
    first_of(
        nodes_issue(q.with@, 0, schema),
        first_of(
            match q.body {
                SqlSetExpr::Select(s) => select_issue(*s, schema),
                SqlSetExpr::Values(rows) => rows_issue(rows@, 0, schema),
                SqlSetExpr::Other(_, inner) => nodes_issue(inner@, 0, schema),
            },
            first_of(
                nodes_issue(q.order_by@, 0, schema),
                first_of(limit_issue(q.limit_clause, schema), nodes_issue(q.rest@, 0, schema)),
            ),
        ),
    )
}

/// What `analyze` reports: nothing for an INSERT, the first issue of a
/// query, and that the statement is unsupported for anything else.
pub open spec fn analyze_spec(stmt: SqlStatement, schema: TableSchema) -> Option<Issue> {
    match stmt {
        SqlStatement::Insert(_) => None,
        SqlStatement::Query(q) => query_issue(*q, schema),
        SqlStatement::Other(_) => Some(Issue::UnsupportedStatement),
    }
}

/// The result that reports `i`, or success.
pub open spec fn reports(r: Result<(), String>, i: Option<Issue>) -> bool {
    match i {
        None => r is Ok,
        Some(x) => r is Err && r->Err_0@ == issue_message(x),
    }
}

// ---------------------------------------------------------------------------
// Messages

fn message_with(prefix: &str, name: &str) -> (r: String)
    ensures
        r@ == prefix@ + name@,
{
    let mut s = String::from_str(prefix);
    s.append(name);
    s
}

fn unknown_column(name: &str) -> (r: String)
    ensures
        r@ == issue_message(Issue::UnknownColumn(name@)),
{
    proof { reveal_strlit("unknown column: "); }
    message_with("unknown column: ", name)
}

fn unknown_table(name: &str) -> (r: String)
    ensures
        r@ == issue_message(Issue::UnknownTable(name@)),
{
    proof { reveal_strlit("Unknown table: "); }
    message_with("Unknown table: ", name)
}

fn unknown_qualified_table(name: &str) -> (r: String)
    ensures
        r@ == issue_message(Issue::UnknownQualifiedTable(name@)),
{
    proof { reveal_strlit("unknown table in qualified reference: "); }
    message_with("unknown table in qualified reference: ", name)
}

pub(crate) fn data_type_name(t: DataType) -> (r: &'static str)
    ensures
        r@ == data_type_name_spec(t),
{
    match t {
        DataType::I8 => {
            proof { reveal_strlit("I8"); }
            "I8"
        },
        DataType::I16 => {
            proof { reveal_strlit("I16"); }
            "I16"
        },
        DataType::I32 => {
            proof { reveal_strlit("I32"); }
            "I32"
        },
        DataType::I64 => {
            proof { reveal_strlit("I64"); }
            "I64"
        },
        DataType::U8 => {
            proof { reveal_strlit("U8"); }
            "U8"
        },
        DataType::U16 => {
            proof { reveal_strlit("U16"); }
            "U16"
        },
        DataType::U32 => {
            proof { reveal_strlit("U32"); }
            "U32"
        },
        DataType::U64 => {
            proof { reveal_strlit("U64"); }
            "U64"
        },
        DataType::F32 => {
            proof { reveal_strlit("F32"); }
            "F32"
        },
        DataType::F64 => {
            proof { reveal_strlit("F64"); }
            "F64"
        },
        DataType::Bool => {
            proof { reveal_strlit("Bool"); }
            "Bool"
        },
        DataType::Str => {
            proof { reveal_strlit("Str"); }
            "Str"
        },
    }
}

/// The bounds of an integer type, the lower one signed and the upper one unsigned.
fn int_bounds(t: DataType) -> (r: Option<(i64, u64)>)
    ensures
        match r {
            Some((lo, hi)) => int_range(t) == Some((lo as int, hi as int)),
            None => int_range(t) is None,
        },
{
    match t {
        DataType::I8 => Some((-128, 127)),
        DataType::I16 => Some((-32768, 32767)),
        DataType::I32 => Some((-2147483648, 2147483647)),
        DataType::I64 => Some((-9223372036854775808, 9223372036854775807)),
        DataType::U8 => Some((0, 255)),
        DataType::U16 => Some((0, 65535)),
        DataType::U32 => Some((0, 4294967295)),
        DataType::U64 => Some((0, 18446744073709551615)),
        _ => None,
    }
}

fn out_of_range(text: &str, t: DataType, lo: i64, hi: u64) -> (r: String)
    requires
        int_range(t) == Some((lo as int, hi as int)),
    ensures
        r@ == issue_message(Issue::OutOfRange(text@, t)),
{
    proof {
        reveal_strlit("literal ");
        reveal_strlit(" is out of range for column type ");
        reveal_strlit(" (");
        reveal_strlit("..=");
        reveal_strlit(")");
    }
    let mut s = String::from_str("literal ");
    s.append(text);
    s.append(" is out of range for column type ");
    s.append(data_type_name(t));
    s.append(" (");
    s.append(fmt_i64(lo).as_str());
    s.append("..=");
    s.append(fmt_u64(hi).as_str());
    s.append(")");
    s
}

fn is_numeric_type(t: DataType) -> (r: bool)
    ensures
        r == is_numeric(t),
{
    match t {
        DataType::Bool | DataType::Str => false,
        _ => true,
    }
}

// ---------------------------------------------------------------------------
// Checks

/// Checks that a literal can be compared with a column of type `data_type`.
pub fn check_type_compat(data_type: DataType, val: &SqlValue) -> (r: Result<(), String>)
    ensures
        reports(r, check_type_spec(data_type, *val)),
{
    let numeric = is_numeric_type(data_type);
    match val {
        SqlValue::Number { text, .. } => {
            if !numeric {
                proof { reveal_strlit("type mismatch: numeric literal compared to non-numeric column"); }
                return Err(String::from_str("type mismatch: numeric literal compared to non-numeric column"));
            }
            let (lo, hi) = match int_bounds(data_type) {
                Some(b) => b,
                None => return Ok(()),
            };
            match parse_i128(text.as_str()) {
                None => {
                    proof {
                        reveal_strlit("type mismatch: non-integer literal ");
                        reveal_strlit(" compared to integer column");
                    }
                    let mut s = String::from_str("type mismatch: non-integer literal ");
                    s.append(text.as_str());
                    s.append(" compared to integer column");
                    Err(s)
                },
                Some(n) => {
                    if n < lo as i128 || n > hi as i128 {
                        Err(out_of_range(text.as_str(), data_type, lo, hi))
                    } else {
                        Ok(())
                    }
                },
            }
        },
        SqlValue::SingleQuotedString(_) => {
            if numeric {
                proof { reveal_strlit("type mismatch: string literal compared to numeric column"); }
                Err(String::from_str("type mismatch: string literal compared to numeric column"))
            } else {
                Ok(())
            }
        },
        _ => Ok(()),
    }
}

/// The type of the column named `name`; `unknown column: <name>` when the
/// schema has none.
fn resolve_column(schema: &TableSchema, name: &String) -> (r: Result<DataType, String>)
    ensures
        match r {
            Ok(t) => column_type_spec(*schema, name@) == Some(t),
            Err(m) => column_type_spec(*schema, name@) is None && m@ == issue_message(Issue::UnknownColumn(name@)),
        },
{
    proof {
        lemma_find_column(schema.cols(), name@);
    }
    match schema.find_column(name) {
        Some(i) => Ok(schema.columns[i].data_type),
        None => Err(unknown_column(name.as_str())),
    }
}

/// The type of the column an expression names, if it names one.
fn resolve_column_expr(expr: &SqlExpr, schema: &TableSchema) -> (r: Result<Option<DataType>, String>)
    ensures
        match (r, resolve_spec(*expr, *schema)) {
            (Ok(a), Ok(b)) => a == b,
            (Err(m), Err(i)) => m@ == issue_message(i),
            _ => false,
        },
{
    match expr {
        SqlExpr::Identifier(ident) => Ok(Some(resolve_column(schema, ident)?)),
        SqlExpr::CompoundIdentifier(parts) => {
            if parts.len() == 2 {
                if !str_eq(parts[0].as_str(), schema.name.as_str()) {
                    return Err(unknown_qualified_table(parts[0].as_str()));
                }
                Ok(Some(resolve_column(schema, &parts[1])?))
            } else {
                Ok(None)
            }
        },
        _ => Ok(None),
    }
}

fn check_node(e: &SqlExpr, schema: &TableSchema) -> (r: Result<(), String>)
    ensures
        reports(r, node_issue(*e, *schema)),
{
    match e {
        SqlExpr::Identifier(_) | SqlExpr::CompoundIdentifier(_) => match resolve_column_expr(e, schema) {
            Err(m) => Err(m),
            Ok(_) => Ok(()),
        },
        SqlExpr::BinaryOp { left, right, .. } => {
            match resolve_column_expr(left, schema) {
                Ok(Some(t)) => {
                    if let SqlExpr::Value(v) = &**right {
                        match check_type_compat(t, v) {
                            Err(m) => return Err(m),
                            Ok(()) => {},
                        }
                    }
                },
                Err(m) => return Err(m),
                Ok(None) => {},
            }
            match resolve_column_expr(right, schema) {
                Ok(Some(t)) => {
                    if let SqlExpr::Value(v) = &**left {
                        check_type_compat(t, v)
                    } else {
                        Ok(())
                    }
                },
                Err(m) => Err(m),
                Ok(None) => Ok(()),
            }
        },
        _ => Ok(()),
    }
}

/// Checks an expression and its operands, in pre-order.
pub fn check_expr(e: &SqlExpr, schema: &TableSchema) -> (r: Result<(), String>)
    ensures
        reports(r, expr_issue(*e, *schema)),
    decreases *e, 0int,
{
    match check_node(e, schema) {
        Err(m) => return Err(m),
        Ok(()) => {},
    }
    match e {
        SqlExpr::BinaryOp { left, right, .. } => {
            match check_expr(left, schema) {
                Err(m) => Err(m),
                Ok(()) => check_expr(right, schema),
            }
        },
        SqlExpr::UnaryOp { expr, .. } => check_expr(expr, schema),
        SqlExpr::Function(f) => {
            match &f.args {
                SqlFunctionArguments::List(list) => {
                    let mut i: usize = 0;
                    while i < list.len()
                        invariant
                            i <= list@.len(),
                            *e == SqlExpr::Function(*f),
                            f.args == SqlFunctionArguments::List(*list),
                            args_issue(list@, 0, *schema) == args_issue(list@, i as int, *schema),
                        decreases list@.len() - i,
                    {
                        match &list[i] {
                            SqlFunctionArg::Expr(a) => {
                                proof {
                                    assert(decreases_to!(*e => list@[i as int]));
                                }
                                match check_expr(a, schema) {
                                    Err(m) => return Err(m),
                                    Ok(()) => {},
                                }
                            },
                            SqlFunctionArg::Other(_, inner) => {
                                proof {
                                    assert(decreases_to!(*e => list@[i as int]));
                                }
                                match check_nodes(inner, schema) {
                                    Err(m) => return Err(m),
                                    Ok(()) => {},
                                }
                            },
                            SqlFunctionArg::Wildcard => {},
                        }
                        i = i + 1;
                    }
                },
                SqlFunctionArguments::Other(_, inner) => match check_nodes(inner, schema) {
                    Err(m) => return Err(m),
                    Ok(()) => {},
                },
            }
            check_nodes(&f.rest, schema)
        },
        SqlExpr::Other(_, inner) => check_nodes(inner, schema),
        _ => Ok(()),
    }
}

/// Checks a table reference: it must name the schema's table.
fn check_table(t: &SqlTableFactor, schema: &TableSchema) -> (r: Result<(), String>)
    ensures
        reports(r, table_issue(*t, *schema)),
    decreases *t, 0int,
{
    match t {
        SqlTableFactor::Table(name) => {
            if !str_eq(name.as_str(), schema.name.as_str()) {
                Err(unknown_table(name.as_str()))
            } else {
                Ok(())
            }
        },
        SqlTableFactor::Other(_, inner) => check_nodes(inner, schema),
    }
}

/// Checks nested expressions and table references, in order.
fn check_nodes(ns: &Vec<SqlNode>, schema: &TableSchema) -> (r: Result<(), String>)
    ensures
        reports(r, nodes_issue(ns@, 0, *schema)),
    decreases ns@, 1int,
{
    let mut i: usize = 0;
    while i < ns.len()
        invariant
            i <= ns@.len(),
            nodes_issue(ns@, 0, *schema) == nodes_issue(ns@, i as int, *schema),
        decreases ns@.len() - i,
    {
        proof {
            assert(decreases_to!(ns@ => ns@[i as int]));
        }
        match &ns[i] {
            SqlNode::Expr(x) => match check_expr(x, schema) {
                Err(m) => return Err(m),
                Ok(()) => {},
            },
            SqlNode::Table(t) => match check_table(t, schema) {
                Err(m) => return Err(m),
                Ok(()) => {},
            },
        }
        i = i + 1;
    }
    Ok(())
}

fn check_exprs(es: &Vec<SqlExpr>, schema: &TableSchema) -> (r: Result<(), String>)
    ensures
        reports(r, exprs_issue(es@, 0, *schema)),
{
    let mut i: usize = 0;
    while i < es.len()
        invariant
            i <= es@.len(),
            exprs_issue(es@, 0, *schema) == exprs_issue(es@, i as int, *schema),
        decreases es@.len() - i,
    {
        match check_expr(&es[i], schema) {
            Err(m) => return Err(m),
            Ok(()) => {},
        }
        i = i + 1;
    }
    Ok(())
}

fn check_opt_expr(e: &Option<SqlExpr>, schema: &TableSchema) -> (r: Result<(), String>)
    ensures
        reports(r, opt_expr_issue(*e, *schema)),
{
    match e {
        Some(x) => check_expr(x, schema),
        None => Ok(()),
    }
}

fn check_select(s: &SqlSelect, schema: &TableSchema) -> (r: Result<(), String>)
    ensures
        reports(r, select_issue(*s, *schema)),
{
    let mut i: usize = 0;
    while i < s.projection.len()
        invariant
            i <= s.projection@.len(),
            items_issue(s.projection@, 0, *schema) == items_issue(s.projection@, i as int, *schema),
        decreases s.projection@.len() - i,
    {
        match &s.projection[i] {
            SqlSelectItem::UnnamedExpr(e) | SqlSelectItem::ExprWithAlias(e) => match check_expr(e, schema) {
                Err(m) => return Err(m),
                Ok(()) => {},
            },
            SqlSelectItem::Other(_, inner) => match check_nodes(inner, schema) {
                Err(m) => return Err(m),
                Ok(()) => {},
            },
            SqlSelectItem::Wildcard => {},
        }
        i = i + 1;
    }
    let mut j: usize = 0;
    while j < s.from.len()
        invariant
            j <= s.from@.len(),
            items_issue(s.projection@, 0, *schema) is None,
            tables_issue(s.from@, s.joins@, 0, *schema) == tables_issue(s.from@, s.joins@, j as int, *schema),
        decreases s.from@.len() - j,
    {
        match check_table(&s.from[j], schema) {
            Err(m) => return Err(m),
            Ok(()) => {},
        }
        if j < s.joins.len() {
            match check_nodes(&s.joins[j], schema) {
                Err(m) => return Err(m),
                Ok(()) => {},
            }
        }
        j = j + 1;
    }
    match check_opt_expr(&s.selection, schema) {
        Err(m) => return Err(m),
        Ok(()) => {},
    }
    match &s.group_by {
        SqlGroupBy::Expressions(v) => match check_exprs(v, schema) {
            Err(m) => return Err(m),
            Ok(()) => {},
        },
        SqlGroupBy::All(_) => {},
    }
    match check_opt_expr(&s.having, schema) {
        Err(m) => return Err(m),
        Ok(()) => {},
    }
    check_nodes(&s.rest, schema)
}

fn check_query(q: &SqlQuery, schema: &TableSchema) -> (r: Result<(), String>)
    ensures
        reports(r, query_issue(*q, *schema)),
{
    match check_nodes(&q.with, schema) {
        Err(m) => return Err(m),
        Ok(()) => {},
    }
    match &q.body {
        SqlSetExpr::Select(s) => match check_select(s, schema) {
            Err(m) => return Err(m),
            Ok(()) => {},
        },
        SqlSetExpr::Values(rows) => {
            let mut i: usize = 0;
            while i < rows.len()
                invariant
                    i <= rows@.len(),
                    q.body == SqlSetExpr::Values(*rows),
                    nodes_issue(q.with@, 0, *schema) is None,
                    rows_issue(rows@, 0, *schema) == rows_issue(rows@, i as int, *schema),
                decreases rows@.len() - i,
            {
                match check_exprs(&rows[i], schema) {
                    Err(m) => return Err(m),
                    Ok(()) => {},
                }
                i = i + 1;
            }
        },
        SqlSetExpr::Other(_, inner) => match check_nodes(inner, schema) {
            Err(m) => return Err(m),
            Ok(()) => {},
        },
    }
    match check_nodes(&q.order_by, schema) {
        Err(m) => return Err(m),
        Ok(()) => {},
    }
    match &q.limit_clause {
        Some(SqlLimitClause::LimitOffset(e)) => match check_opt_expr(e, schema) {
            Err(m) => return Err(m),
            Ok(()) => {},
        },
        Some(SqlLimitClause::Other(_, inner)) => match check_nodes(inner, schema) {
            Err(m) => return Err(m),
            Ok(()) => {},
        },
        None => {},
    }
    check_nodes(&q.rest, schema)
}

/// Checks the names and literal types of a statement against the schema.
pub fn analyze(stmt: &SqlStatement, schema: &TableSchema) -> (r: Result<(), String>)
    ensures
        reports(r, analyze_spec(*stmt, *schema)),
{
    match stmt {
        SqlStatement::Insert(_) => Ok(()),
        SqlStatement::Query(q) => check_query(q, schema),
        SqlStatement::Other(_) => {
            proof { reveal_strlit("unsupported statement type"); }
            Err(String::from_str("unsupported statement type"))
        },
    }
}

} // verus!
