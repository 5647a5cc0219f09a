//! The SQL syntax tree the front end works on: the subset of SQL that
//! tinyOLAP reads, with every other construct kept as an `Other` carrying its
//! rendering and the expressions and table references nested in it, in the
//! order they are written. Numeric literals keep their text, and, when the
//! text denotes a binary64 float, that float's bit pattern.
use vstd::prelude::*;

verus! {

pub enum SqlStatement {
    Query(Box<SqlQuery>),
    Insert(SqlInsert),
    Other(String),
}

/// An expression or a table reference nested in a construct the tree does
/// not model.
pub enum SqlNode {
    Expr(SqlExpr),
    Table(SqlTableFactor),
}

pub struct SqlQuery {
    /// What the `WITH` clause holds.
    pub with: Vec<SqlNode>,
    pub body: SqlSetExpr,
    /// What the `ORDER BY` clause holds.
    pub order_by: Vec<SqlNode>,
    pub limit_clause: Option<SqlLimitClause>,
    /// What the clauses after the limit hold (its offset, `FETCH`, ...).
    pub rest: Vec<SqlNode>,
}

pub enum SqlSetExpr {
    Select(Box<SqlSelect>),
    Values(Vec<Vec<SqlExpr>>),
    Other(String, Vec<SqlNode>),
}

pub struct SqlSelect {
    pub projection: Vec<SqlSelectItem>,
    pub from: Vec<SqlTableFactor>,
    /// What the joins of each `FROM` item hold: their tables and conditions.
    pub joins: Vec<Vec<SqlNode>>,
    pub selection: Option<SqlExpr>,
    pub group_by: SqlGroupBy,
    pub having: Option<SqlExpr>,
    /// What the select's other clauses hold.
    pub rest: Vec<SqlNode>,
}

/// The relation of one `FROM` item.
pub enum SqlTableFactor {
    Table(String),
    Other(String, Vec<SqlNode>),
}

pub enum SqlSelectItem {
    UnnamedExpr(SqlExpr),
    ExprWithAlias(SqlExpr),
    Wildcard,
    Other(String, Vec<SqlNode>),
}

pub enum SqlGroupBy {
    Expressions(Vec<SqlExpr>),
    All(String),
}

pub enum SqlLimitClause {
    LimitOffset(Option<SqlExpr>),
    Other(String, Vec<SqlNode>),
}

#[allow(inconsistent_fields)]
pub enum SqlExpr {
    Identifier(String),
    CompoundIdentifier(Vec<String>),
    Value(SqlValue),
    BinaryOp { left: Box<SqlExpr>, op: SqlBinaryOp, right: Box<SqlExpr> },
    UnaryOp { op: SqlUnaryOp, expr: Box<SqlExpr> },
    Function(SqlFunction),
    Other(String, Vec<SqlNode>),
}

pub enum SqlValue {
    /// A numeric literal: its text, and the bits of the float it denotes when
    /// the text reads as one.
    Number { text: String, float_bits: Option<u64> },
    SingleQuotedString(String),
    Boolean(bool),
    Null,
    Other(String),
}

#[derive(Clone, Copy, PartialEq, Eq, Structural)]
pub enum SqlBinaryOp {
    Eq,
    NotEq,
    Lt,
    LtEq,
    Gt,
    GtEq,
    And,
    Or,
    Other,
}

#[derive(Clone, Copy, PartialEq, Eq, Structural)]
pub enum SqlUnaryOp {
    Minus,
    Not,
    Other,
}

pub struct SqlFunction {
    pub name: String,
    pub args: SqlFunctionArguments,
    /// What the call's other parts hold (`FILTER`, `OVER`, ...).
    pub rest: Vec<SqlNode>,
}

pub enum SqlFunctionArguments {
    List(Vec<SqlFunctionArg>),
    Other(String, Vec<SqlNode>),
}

pub enum SqlFunctionArg {
    Wildcard,
    Expr(SqlExpr),
    Other(String, Vec<SqlNode>),
}

pub struct SqlInsert {
    pub table: String,
    pub columns: Vec<String>,
    pub source: Option<Box<SqlQuery>>,
}

} // verus!
