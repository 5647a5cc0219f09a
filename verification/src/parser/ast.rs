//! tinyOLAP's own statement tree: what the SQL front end hands to the
//! planner after lowering.
use vstd::prelude::*;

verus! {

#[derive(Clone, Copy, Debug, PartialEq, Eq, Structural)]
pub enum CmpOp {
    Eq,
    Ne,
    Lt,
    Le,
    Gt,
    Ge,
}

/// A literal value. A float is held by its IEEE-754 binary64 bit pattern.
#[derive(Debug, PartialEq)]
pub enum Literal {
    Int(i64),
    UInt(u64),
    Float(u64),
    Str(String),
    Bool(bool),
    Null,
}

#[derive(Debug, PartialEq)]
pub enum Predicate {
    Cmp { col: String, op: CmpOp, value: Literal },
    And(Box<Predicate>, Box<Predicate>),
    Or(Box<Predicate>, Box<Predicate>),
    Not(Box<Predicate>),
}

impl Clone for Literal {
    fn clone(&self) -> (r: Self)
        ensures
            r == *self,
    {
        match self {
            Literal::Int(i) => Literal::Int(*i),
            Literal::UInt(u) => Literal::UInt(*u),
            Literal::Float(f) => Literal::Float(*f),
            Literal::Str(s) => Literal::Str(s.clone()),
            Literal::Bool(b) => Literal::Bool(*b),
            Literal::Null => Literal::Null,
        }
    }
}

impl Clone for Predicate {
    fn clone(&self) -> (r: Self)
        ensures
            r == *self,
        decreases self,
    {
        match self {
            Predicate::Cmp { col, op, value } => Predicate::Cmp { col: col.clone(), op: *op, value: value.clone() },
            Predicate::And(a, b) => Predicate::And(Box::new((**a).clone()), Box::new((**b).clone())),
            Predicate::Or(a, b) => Predicate::Or(Box::new((**a).clone()), Box::new((**b).clone())),
            Predicate::Not(a) => Predicate::Not(Box::new((**a).clone())),
        }
    }
}

#[derive(Clone, Copy, Debug, PartialEq, Eq, Structural)]
pub enum AggFunc {
    Sum,
    Max,
    Min,
    Count,
    Avg,
}

#[derive(Clone, Debug, PartialEq)]
pub enum SelectExpr {
    Col(String),
    Agg { func: AggFunc, col: String },
}

#[derive(Clone, Debug, PartialEq)]
pub enum Projection {
    All,
    Exprs(Vec<SelectExpr>),
}

#[derive(Clone, Debug, PartialEq)]
pub struct SelectStmt {
    pub table: String,
    pub projection: Projection,
    pub where_clause: Option<Predicate>,
    pub group_by: Vec<String>,
}

#[derive(Clone, Debug, PartialEq)]
pub struct InsertStmt {
    pub table: String,
    pub columns: Option<Vec<String>>,
    pub rows: Vec<Vec<Literal>>,
}

#[derive(Clone, Debug, PartialEq)]
pub enum Statement {
    Insert(InsertStmt),
    Select(SelectStmt),
}

#[derive(Clone, Debug, PartialEq)]
pub enum ParseError {
    Syntax(String),
    Unsupported(String),
}

/// Which kind of `ParseError` a failure gives, without its message.
#[derive(Clone, Copy, Debug, PartialEq, Eq, Structural)]
pub enum ErrorKind {
    Syntax,
    Unsupported,
}

impl ParseError {
    pub open spec fn kind(&self) -> ErrorKind {
        match self {
            ParseError::Syntax(_) => ErrorKind::Syntax,
            ParseError::Unsupported(_) => ErrorKind::Unsupported,
        }
    }
}

/// A result whose error is described by its kind only.
pub open spec fn same_outcome<T>(r: Result<T, ParseError>, s: Result<T, ErrorKind>) -> bool {
    match (r, s) {
        (Ok(a), Ok(b)) => a == b,
        (Err(e), Err(k)) => e.kind() == k,
        _ => false,
    }
}

} // verus!
