//! Writing a logical plan out, one operator per line, each input indented
//! two spaces more than the operator over it.
use vstd::prelude::*;
use vstd::string::*;

use crate::frontend::analyzer::{data_type_name, data_type_name_spec};
use crate::logical_plan::logical_operators::{AggFunc, BinaryOp, LiteralValue, LogicalExpr, LogicalPlan, PlanView};
use crate::physical_plan::physical_operators::{float_string, float_text, indent, joined};
use crate::text::{decimal, fmt_i64, fmt_u64, signed_decimal};

verus! {

pub open spec fn binary_op_text(op: BinaryOp) -> Seq<char> {
    match op {
        BinaryOp::Eq => "="@,
        BinaryOp::NotEq => "!="@,
        BinaryOp::Lt => "<"@,
        BinaryOp::LtEq => "<="@,
        BinaryOp::Gt => ">"@,
        BinaryOp::GtEq => ">="@,
        BinaryOp::And => "AND"@,
        BinaryOp::Or => "OR"@,
    }
}

pub open spec fn aggregate_text(f: AggFunc) -> Seq<char> {
    match f {
        AggFunc::Count => "COUNT"@,
        AggFunc::Sum => "SUM"@,
        AggFunc::Avg => "AVG"@,
        AggFunc::Min => "MIN"@,
        AggFunc::Max => "MAX"@,
    }
}

pub open spec fn value_text(l: LiteralValue) -> Seq<char> {
    match l {
        LiteralValue::Int(v) => signed_decimal(v as int),
        LiteralValue::Float(b) => float_text(b as int),
        LiteralValue::Str(s) => "'"@ + s@ + "'"@,
        LiteralValue::Bool(b) => if b {
            "true"@
        } else {
            "false"@
        },
        LiteralValue::Null => "NULL"@,
    }
}

/// An expression written out: a column as `table.column`, binary operations
/// in parentheses.
pub open spec fn logical_expr_text(e: LogicalExpr) -> Seq<char>
    decreases e,
{
    match e {
        LogicalExpr::Column(t, c) => t@ + "."@ + c@,
        LogicalExpr::Literal(l) => value_text(l),
        LogicalExpr::BinaryOp { left, op, right } => "("@ + logical_expr_text(*left) + " "@ + binary_op_text(op) + " "@
            + logical_expr_text(*right) + ")"@,
        LogicalExpr::Aggregate { func, arg } => aggregate_text(func) + "("@ + logical_expr_text(*arg) + ")"@,
        LogicalExpr::Cast { expr, target_datatype } => "CAST("@ + logical_expr_text(*expr) + " AS "@
            + data_type_name_spec(target_datatype) + ")"@,
    }
}

pub open spec fn exprs_text(es: Seq<LogicalExpr>) -> Seq<char> {
    joined(es.map_values(|e: LogicalExpr| logical_expr_text(e)))
}

/// The number of operators on the longest path from the root to the scan.
pub open spec fn logical_height(p: PlanView) -> nat
    decreases p,
{
    match p {
        PlanView::Filter { input, .. } => 1 + logical_height(*input),
        PlanView::Project { input, .. } => 1 + logical_height(*input),
        PlanView::Aggregate { input, .. } => 1 + logical_height(*input),
        PlanView::Limit { input, .. } => 1 + logical_height(*input),
        PlanView::Scan { .. } => 1,
    }
}

pub open spec fn logical_plan_text(p: PlanView, depth: nat) -> Seq<char>
    decreases p,
{
    match p {
        PlanView::Scan { table } => indent(depth) + "Scan("@ + table@ + ")\n"@,
        PlanView::Filter { predicate, input } => indent(depth) + "Filter("@ + logical_expr_text(predicate) + ")\n"@
            + logical_plan_text(*input, depth + 1),
        PlanView::Project { projections, input } => indent(depth) + "Project("@ + exprs_text(projections) + ")\n"@
            + logical_plan_text(*input, depth + 1),
        PlanView::Aggregate { group_by, aggregates, input } => indent(depth) + "Aggregate(group_by=["@ + exprs_text(
            group_by,
        ) + "], aggs=["@ + exprs_text(aggregates) + "])\n"@ + logical_plan_text(*input, depth + 1),
        PlanView::Limit { limit, input } => indent(depth) + "Limit("@ + decimal(limit as nat) + ")\n"@
            + logical_plan_text(*input, depth + 1),
    }
}

impl BinaryOp {
    pub fn display(&self) -> (r: &'static str)
        ensures
            r@ == binary_op_text(*self),
    {
        proof {
            reveal_strlit("=");
            reveal_strlit("!=");
            reveal_strlit("<");
            reveal_strlit("<=");
            reveal_strlit(">");
            reveal_strlit(">=");
            reveal_strlit("AND");
            reveal_strlit("OR");
        }
        match self {
            BinaryOp::Eq => "=",
            BinaryOp::NotEq => "!=",
            BinaryOp::Lt => "<",
            BinaryOp::LtEq => "<=",
            BinaryOp::Gt => ">",
            BinaryOp::GtEq => ">=",
            BinaryOp::And => "AND",
            BinaryOp::Or => "OR",
        }
    }
}

impl AggFunc {
    pub fn display(&self) -> (r: &'static str)
        ensures
            r@ == aggregate_text(*self),
    {
        proof {
            reveal_strlit("COUNT");
            reveal_strlit("SUM");
            reveal_strlit("AVG");
            reveal_strlit("MIN");
            reveal_strlit("MAX");
        }
        match self {
            AggFunc::Count => "COUNT",
            AggFunc::Sum => "SUM",
            AggFunc::Avg => "AVG",
            AggFunc::Min => "MIN",
            AggFunc::Max => "MAX",
        }
    }
}

impl LiteralValue {
    pub fn display(&self) -> (r: String)
        ensures
            r@ == value_text(*self),
    {
        proof {
            reveal_strlit("'");
            reveal_strlit("true");
            reveal_strlit("false");
            reveal_strlit("NULL");
        }
        match self {
            LiteralValue::Int(v) => fmt_i64(*v),
            LiteralValue::Float(b) => float_string(*b),
            LiteralValue::Str(t) => {
                let mut s = String::from_str("'");
                s.append(t.as_str());
                s.append("'");
                s
            },
            LiteralValue::Bool(b) => if *b {
                String::from_str("true")
            } else {
                String::from_str("false")
            },
            LiteralValue::Null => String::from_str("NULL"),
        }
    }
}

impl LogicalExpr {
    /// The expression written out.
    pub fn display(&self) -> (r: String)
        ensures
            r@ == logical_expr_text(*self),
        decreases self,
    {
        proof {
            reveal_strlit(".");
            reveal_strlit("(");
            reveal_strlit(" ");
            reveal_strlit(")");
            reveal_strlit("CAST(");
            reveal_strlit(" AS ");
        }
        match self {
            LogicalExpr::Column(t, c) => {
                let mut s = t.clone();
                s.append(".");
                s.append(c.as_str());
                s
            },
            LogicalExpr::Literal(l) => l.display(),
            LogicalExpr::BinaryOp { left, op, right } => {
                let mut s = String::from_str("(");
                s.append(left.display().as_str());
                s.append(" ");
                s.append(op.display());
                s.append(" ");
                s.append(right.display().as_str());
                s.append(")");
                s
            },
            LogicalExpr::Aggregate { func, arg } => {
                let mut s = String::from_str(func.display());
                s.append("(");
                s.append(arg.display().as_str());
                s.append(")");
                s
            },
            LogicalExpr::Cast { expr, target_datatype } => {
                let mut s = String::from_str("CAST(");
                s.append(expr.display().as_str());
                s.append(" AS ");
                s.append(data_type_name(*target_datatype));
                s.append(")");
                s
            },
        }
    }
}

fn push_exprs(out: &mut String, items: &Vec<LogicalExpr>)
    ensures
        final(out)@ == old(out)@ + exprs_text(items@),
{
    let ghost start = out@;
    let ghost texts = items@.map_values(|e: LogicalExpr| logical_expr_text(e));
    let mut i: usize = 0;
    assert(texts.take(0) =~= Seq::<Seq<char>>::empty());
    while i < items.len()
        invariant
            i <= items@.len(),
            texts == items@.map_values(|e: LogicalExpr| logical_expr_text(e)),
            out@ == start + joined(texts.take(i as int)),
        decreases items@.len() - i,
    {
        proof { reveal_strlit(", "); }
        assert(texts.take(i + 1).drop_last() =~= texts.take(i as int));
        if i > 0 {
            out.append(", ");
        }
        out.append(items[i].display().as_str());
        i = i + 1;
        proof {
            if i == 1 {
                assert(texts.take(1) =~= seq![texts[0]]);
            }
        }
    }
    assert(texts.take(i as int) =~= texts);
}

impl LogicalPlan {
    /// The plan written out, one operator per line.
    pub fn display(&self) -> (r: String)
        requires
            logical_height(self.view()) <= usize::MAX,
        ensures
            r@ == logical_plan_text(self.view(), 0),
    {
        let mut s = String::new();
        self.fmt_indented(&mut s, 0);
        s
    }

    /// Appends the plan written out at indentation `depth`.
    #[verifier::rlimit(40)]
    pub fn fmt_indented(&self, out: &mut String, depth: usize)
        requires
            depth + logical_height(self.view()) <= usize::MAX,
        ensures
            final(out)@ == old(out)@ + logical_plan_text(self.view(), depth as nat),
        decreases self,
    {
        proof {
            reveal_strlit("  ");
            reveal_strlit("Scan(");
            reveal_strlit(")\n");
            reveal_strlit("Filter(");
            reveal_strlit("Project(");
            reveal_strlit("Aggregate(group_by=[");
            reveal_strlit("], aggs=[");
            reveal_strlit("])\n");
            reveal_strlit("Limit(");
        }
        let mut k: usize = 0;
        let ghost start = out@;
        while k < depth
            invariant
                k <= depth,
                out@ == start + indent(k as nat),
            decreases depth - k,
        {
            out.append("  ");
            k = k + 1;
        }
        match self {
            LogicalPlan::Scan { table } => {
                out.append("Scan(");
                out.append(table.as_str());
                out.append(")\n");
            },
            LogicalPlan::Filter { predicate, input } => {
                out.append("Filter(");
                out.append(predicate.display().as_str());
                out.append(")\n");
                input.fmt_indented(out, depth + 1);
            },
            LogicalPlan::Project { projections, input } => {
                out.append("Project(");
                push_exprs(out, projections);
                out.append(")\n");
                input.fmt_indented(out, depth + 1);
            },
            LogicalPlan::Aggregate { group_by, aggregates, input } => {
                out.append("Aggregate(group_by=[");
                push_exprs(out, group_by);
                out.append("], aggs=[");
                push_exprs(out, aggregates);
                out.append("])\n");
                input.fmt_indented(out, depth + 1);
            },
            LogicalPlan::Limit { limit, input } => {
                out.append("Limit(");
                out.append(fmt_u64(*limit).as_str());
                out.append(")\n");
                input.fmt_indented(out, depth + 1);
            },
        }
    }
}

} // verus!
