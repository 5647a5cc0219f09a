//! The logical plan: what a query computes, before any choice of operators.
use vstd::prelude::*;

use crate::catalog::schema::DataType;

verus! {

/// A literal. A float is held by its IEEE-754 binary64 bit pattern.
#[derive(Debug, PartialEq)]
pub enum LiteralValue {
    Int(i64),
    Float(u64),
    Str(String),
    Bool(bool),
    Null,
}

#[derive(Clone, Copy, Debug, PartialEq, Eq, Structural)]
pub enum BinaryOp {
    Eq,
    NotEq,
    Lt,
    LtEq,
    Gt,
    GtEq,
    And,
    Or,
}

#[derive(Clone, Copy, Debug, PartialEq, Eq, Structural)]
pub enum AggFunc {
    Count,
    Sum,
    Avg,
    Min,
    Max,
}

#[derive(Debug, PartialEq)]
pub enum LogicalExpr {
    /// A column, qualified by its table.
    Column(String, String),
    Literal(LiteralValue),
    BinaryOp { left: Box<LogicalExpr>, op: BinaryOp, right: Box<LogicalExpr> },
    Aggregate { func: AggFunc, arg: Box<LogicalExpr> },
    Cast { expr: Box<LogicalExpr>, target_datatype: DataType },
}

#[derive(Debug, PartialEq)]
pub enum LogicalPlan {
    Scan { table: String },
    Filter { predicate: LogicalExpr, input: Box<LogicalPlan> },
    Project { projections: Vec<LogicalExpr>, input: Box<LogicalPlan> },
    Aggregate { group_by: Vec<LogicalExpr>, aggregates: Vec<LogicalExpr>, input: Box<LogicalPlan> },
    Limit { limit: u64, input: Box<LogicalPlan> },
}

/// A plan with its lists as sequences.
pub enum PlanView {
    Scan { table: String },
    Filter { predicate: LogicalExpr, input: Box<PlanView> },
    Project { projections: Seq<LogicalExpr>, input: Box<PlanView> },
    Aggregate { group_by: Seq<LogicalExpr>, aggregates: Seq<LogicalExpr>, input: Box<PlanView> },
    Limit { limit: u64, input: Box<PlanView> },
}

impl LogicalPlan {
    pub open spec fn view(&self) -> PlanView
        decreases self,
    {
        match self {
            LogicalPlan::Scan { table } => PlanView::Scan { table: *table },
            LogicalPlan::Filter { predicate, input } => PlanView::Filter {
                predicate: *predicate,
                input: Box::new(input.view()),
            },
            LogicalPlan::Project { projections, input } => PlanView::Project {
                projections: projections@,
                input: Box::new(input.view()),
            },
            LogicalPlan::Aggregate { group_by, aggregates, input } => PlanView::Aggregate {
                group_by: group_by@,
                aggregates: aggregates@,
                input: Box::new(input.view()),
            },
            LogicalPlan::Limit { limit, input } => PlanView::Limit { limit: *limit, input: Box::new(input.view()) },
        }
    }
}

impl Clone for LiteralValue {
    fn clone(&self) -> (r: Self)
        ensures
            r == *self,
    {
        match self {
            LiteralValue::Int(i) => LiteralValue::Int(*i),
            LiteralValue::Float(f) => LiteralValue::Float(*f),
            LiteralValue::Str(s) => LiteralValue::Str(s.clone()),
            LiteralValue::Bool(b) => LiteralValue::Bool(*b),
            LiteralValue::Null => LiteralValue::Null,
        }
    }
}

impl Clone for LogicalExpr {
    fn clone(&self) -> (r: Self)
        ensures
            r == *self,
        decreases self,
    {
        match self {
            LogicalExpr::Column(t, c) => LogicalExpr::Column(t.clone(), c.clone()),
            LogicalExpr::Literal(l) => LogicalExpr::Literal(l.clone()),
            LogicalExpr::BinaryOp { left, op, right } => LogicalExpr::BinaryOp {
                left: Box::new((**left).clone()),
                op: *op,
                right: Box::new((**right).clone()),
            },
            LogicalExpr::Aggregate { func, arg } => LogicalExpr::Aggregate { func: *func, arg: Box::new((**arg).clone()) },
            LogicalExpr::Cast { expr, target_datatype } => LogicalExpr::Cast {
                expr: Box::new((**expr).clone()),
                target_datatype: *target_datatype,
            },
        }
    }
}

} // verus!
