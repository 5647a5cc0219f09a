//! Lowers a logical plan into a physical plan. The scan reads only the
//! columns that the query refers to, in ascending order of name, each once.
use vstd::prelude::*;
use vstd::string::*;

use crate::catalog::schema::DataType;
use crate::logical_plan::logical_operators::{
    AggFunc as LogicalAggFunc, BinaryOp, LiteralValue as LogicalLiteral, LogicalExpr, LogicalPlan, PlanView,
};
use crate::logical_plan::display::{aggregate_text, binary_op_text};
use crate::names::{insert_name, insert_name_spec, insert_names_spec, lemma_insert_names, sorted_names};
use crate::physical_plan::physical_operators::{
    agg_func_text, aggs_view, cmp_op_text, logical_op_text, exprs_view, names_view, AggFunc, AggSpec, AggSpecView, CmpOp, ExprView, LiteralValue,
    LiteralView, LogicalOp, PhysicalExpr, PhysicalPlan, PhysicalPlanView,
};
use crate::text::{decimal, fmt_i64, fmt_u64, lower_char, signed_decimal, string_views};

verus! {

// ---------------------------------------------------------------------------
// The columns a plan refers to

/// Column names of an expression, left to right, repeats included.
pub open spec fn expr_cols(e: LogicalExpr) -> Seq<Seq<char>>
    decreases e,
{
    match e {
        LogicalExpr::Column(_, c) => seq![c@],
        LogicalExpr::Literal(_) => Seq::empty(),
        LogicalExpr::BinaryOp { left, right, .. } => expr_cols(*left) + expr_cols(*right),
        LogicalExpr::Aggregate { arg, .. } => expr_cols(*arg),
        LogicalExpr::Cast { expr, .. } => expr_cols(*expr),
    }
}

pub open spec fn exprs_cols(s: Seq<LogicalExpr>) -> Seq<Seq<char>>
    decreases s.len(),
{
    if s.len() == 0 {
        Seq::empty()
    } else {
        exprs_cols(s.drop_last()) + expr_cols(s.last())
    }
}

/// Column names of a plan, node by node from the root, repeats included.
pub open spec fn plan_cols(p: PlanView) -> Seq<Seq<char>>
    decreases p,
{
    match p {
        PlanView::Scan { .. } => Seq::empty(),
        PlanView::Filter { predicate, input } => expr_cols(predicate) + plan_cols(*input),
        PlanView::Project { projections, input } => exprs_cols(projections) + plan_cols(*input),
        PlanView::Aggregate { group_by, aggregates, input } => exprs_cols(group_by) + exprs_cols(aggregates)
            + plan_cols(*input),
        PlanView::Limit { input, .. } => plan_cols(*input),
    }
}

/// The columns the scan reads: the plan's column names, ascending, each once.
pub open spec fn scan_columns(p: PlanView) -> Seq<Seq<char>> {
    insert_names_spec(Seq::empty(), plan_cols(p))
}

proof fn lemma_insert_names_concat(v: Seq<Seq<char>>, a: Seq<Seq<char>>, b: Seq<Seq<char>>)
    ensures
        insert_names_spec(v, a + b) == insert_names_spec(insert_names_spec(v, a), b),
    decreases b.len(),
{
    if b.len() == 0 {
        assert(a + b =~= a);
    } else {
        assert((a + b).drop_last() =~= a + b.drop_last());
        assert((a + b).last() == b.last());
        lemma_insert_names_concat(v, a, b.drop_last());
    }
}

/// The scan's columns are in ascending order, and they are exactly the
/// columns that the plan names.
pub proof fn lemma_scan_columns(p: PlanView)
    ensures
        sorted_names(scan_columns(p)),
        forall|c: Seq<char>| #[trigger] scan_columns(p).contains(c) <==> plan_cols(p).contains(c),
{
    lemma_insert_names(Seq::empty(), plan_cols(p));
}

fn collect_expr_columns(expr: &LogicalExpr, cols: &mut Vec<String>)
    requires
        sorted_names(string_views(old(cols)@)),
    ensures
        string_views(final(cols)@) == insert_names_spec(string_views(old(cols)@), expr_cols(*expr)),
        sorted_names(string_views(final(cols)@)),
    decreases expr,
{
    let ghost v0 = string_views(cols@);
    match expr {
        LogicalExpr::Column(_, col) => {
            insert_name(cols, col.clone());
            proof {
                let one = seq![col@];
                assert(one.drop_last() =~= Seq::<Seq<char>>::empty());
                assert(insert_names_spec(v0, Seq::<Seq<char>>::empty()) == v0);
                assert(insert_names_spec(v0, one) == insert_name_spec(v0, col@));
            }
        },
        LogicalExpr::Literal(_) => {},
        LogicalExpr::BinaryOp { left, right, .. } => {
            collect_expr_columns(left, cols);
            collect_expr_columns(right, cols);
            proof {
                lemma_insert_names_concat(v0, expr_cols(**left), expr_cols(**right));
            }
        },
        LogicalExpr::Aggregate { arg, .. } => collect_expr_columns(arg, cols),
        LogicalExpr::Cast { expr, .. } => collect_expr_columns(expr, cols),
    }
    proof {
        lemma_insert_names(v0, expr_cols(*expr));
    }
}

fn collect_exprs_columns(exprs: &Vec<LogicalExpr>, cols: &mut Vec<String>)
    requires
        sorted_names(string_views(old(cols)@)),
    ensures
        string_views(final(cols)@) == insert_names_spec(string_views(old(cols)@), exprs_cols(exprs@)),
        sorted_names(string_views(final(cols)@)),
{
    let ghost v0 = string_views(cols@);
    let mut i: usize = 0;
    assert(exprs@.take(0) =~= Seq::<LogicalExpr>::empty());
    while i < exprs.len()
        invariant
            i <= exprs@.len(),
            v0 == string_views(old(cols)@),
            string_views(cols@) == insert_names_spec(v0, exprs_cols(exprs@.take(i as int))),
            sorted_names(string_views(cols@)),
        decreases exprs@.len() - i,
    {
        collect_expr_columns(&exprs[i], cols);
        proof {
            let t = exprs@.take(i + 1);
            assert(t.drop_last() =~= exprs@.take(i as int));
            lemma_insert_names_concat(v0, exprs_cols(exprs@.take(i as int)), expr_cols(exprs@[i as int]));
        }
        i = i + 1;
    }
    assert(exprs@.take(i as int) =~= exprs@);
}

/// Adds the plan's column names to `cols`, keeping it ascending and free of repeats.
fn collect_columns(plan: &LogicalPlan, cols: &mut Vec<String>)
    requires
        sorted_names(string_views(old(cols)@)),
    ensures
        string_views(final(cols)@) == insert_names_spec(string_views(old(cols)@), plan_cols(plan.view())),
        sorted_names(string_views(final(cols)@)),
    decreases plan,
{
    let ghost v0 = string_views(cols@);
    match plan {
        LogicalPlan::Scan { .. } => {},
        LogicalPlan::Filter { predicate, input } => {
            collect_expr_columns(predicate, cols);
            collect_columns(input, cols);
            proof {
                lemma_insert_names_concat(v0, expr_cols(*predicate), plan_cols(input.view()));
            }
        },
        LogicalPlan::Project { projections, input } => {
            collect_exprs_columns(projections, cols);
            collect_columns(input, cols);
            proof {
                lemma_insert_names_concat(v0, exprs_cols(projections@), plan_cols(input.view()));
            }
        },
        LogicalPlan::Aggregate { group_by, aggregates, input } => {
            collect_exprs_columns(group_by, cols);
            collect_exprs_columns(aggregates, cols);
            collect_columns(input, cols);
            proof {
                lemma_insert_names_concat(v0, exprs_cols(group_by@), exprs_cols(aggregates@));
                lemma_insert_names_concat(
                    v0,
                    exprs_cols(group_by@) + exprs_cols(aggregates@),
                    plan_cols(input.view()),
                );
            }
        },
        LogicalPlan::Limit { input, .. } => collect_columns(input, cols),
    }
}

// ---------------------------------------------------------------------------
// Names of aggregate results

pub open spec fn agg_func_name_spec(f: LogicalAggFunc) -> Seq<char> {
    match f {
        LogicalAggFunc::Count => seq!['c', 'o', 'u', 'n', 't'],
        LogicalAggFunc::Sum => seq!['s', 'u', 'm'],
        LogicalAggFunc::Avg => seq!['a', 'v', 'g'],
        LogicalAggFunc::Min => seq!['m', 'i', 'n'],
        LogicalAggFunc::Max => seq!['m', 'a', 'x'],
    }
}

fn agg_func_name(func: &LogicalAggFunc) -> (r: &'static str)
    ensures
        r@ == agg_func_name_spec(*func),
{
    match func {
        LogicalAggFunc::Count => {
            proof { reveal_strlit("count"); }
            "count"
        },
        LogicalAggFunc::Sum => {
            proof { reveal_strlit("sum"); }
            "sum"
        },
        LogicalAggFunc::Avg => {
            proof { reveal_strlit("avg"); }
            "avg"
        },
        LogicalAggFunc::Min => {
            proof { reveal_strlit("min"); }
            "min"
        },
        LogicalAggFunc::Max => {
            proof { reveal_strlit("max"); }
            "max"
        },
    }
}

/// How an expression is written in the name of an aggregate's result. A
/// comparison or boolean operation is written `<expr>`, a cast as its operand,
/// and a float literal as `float(` and the decimal value of its bit pattern `)`.
pub open spec fn expr_display_spec(e: LogicalExpr) -> Seq<char>
    decreases e,
{
    match e {
        LogicalExpr::Column(_, c) => c@,
        LogicalExpr::Literal(LogicalLiteral::Int(n)) => signed_decimal(n as int),
        LogicalExpr::Literal(LogicalLiteral::Float(bits)) => seq!['f', 'l', 'o', 'a', 't', '('] + decimal(
            bits as nat,
        ) + seq![')'],
        LogicalExpr::Literal(LogicalLiteral::Str(s)) => s@,
        LogicalExpr::Literal(LogicalLiteral::Bool(b)) => if b {
            seq!['t', 'r', 'u', 'e']
        } else {
            seq!['f', 'a', 'l', 's', 'e']
        },
        LogicalExpr::Literal(LogicalLiteral::Null) => seq!['n', 'u', 'l', 'l'],
        LogicalExpr::BinaryOp { .. } => seq!['<', 'e', 'x', 'p', 'r', '>'],
        LogicalExpr::Aggregate { func, arg } => agg_func_name_spec(func) + seq!['('] + expr_display_spec(*arg) + seq![
            ')',
        ],
        LogicalExpr::Cast { expr, .. } => expr_display_spec(*expr),
    }
}

/// The name of an aggregate's result column: `func(arg)`, such as `sum(age)`.
pub open spec fn agg_output_name_spec(func: LogicalAggFunc, arg: LogicalExpr) -> Seq<char> {
    agg_func_name_spec(func) + seq!['('] + expr_display_spec(arg) + seq![')']
}

fn expr_display(expr: &LogicalExpr) -> (r: String)
    ensures
        r@ == expr_display_spec(*expr),
    decreases expr,
{
    match expr {
        LogicalExpr::Column(_, col) => col.clone(),
        LogicalExpr::Literal(LogicalLiteral::Int(n)) => fmt_i64(*n),
        LogicalExpr::Literal(LogicalLiteral::Float(bits)) => {
            proof { reveal_strlit("float("); reveal_strlit(")"); }
            let mut s = String::from_str("float(");
            s.append(fmt_u64(*bits).as_str());
            s.append(")");
            s
        },
        LogicalExpr::Literal(LogicalLiteral::Str(s)) => s.clone(),
        LogicalExpr::Literal(LogicalLiteral::Bool(b)) => {
            proof { reveal_strlit("true"); reveal_strlit("false"); }
            if *b {
                String::from_str("true")
            } else {
                String::from_str("false")
            }
        },
        LogicalExpr::Literal(LogicalLiteral::Null) => {
            proof { reveal_strlit("null"); }
            String::from_str("null")
        },
        LogicalExpr::BinaryOp { .. } => {
            proof { reveal_strlit("<expr>"); }
            String::from_str("<expr>")
        },
        LogicalExpr::Aggregate { func, arg } => {
            proof { reveal_strlit("("); reveal_strlit(")"); }
            let mut s = String::from_str(agg_func_name(func));
            s.append("(");
            s.append(expr_display(arg).as_str());
            s.append(")");
            s
        },
        LogicalExpr::Cast { expr, .. } => expr_display(expr),
    }
}

/// `func(arg)`.
fn agg_output_name(func: &LogicalAggFunc, arg: &LogicalExpr) -> (r: String)
    ensures
        r@ == agg_output_name_spec(*func, *arg),
{
    proof { reveal_strlit("("); reveal_strlit(")"); }
    let mut s = String::from_str(agg_func_name(func));
    s.append("(");
    s.append(expr_display(arg).as_str());
    s.append(")");
    s
}

// ---------------------------------------------------------------------------
// Expressions

pub open spec fn lower_literal_spec(l: LogicalLiteral) -> LiteralView {
    match l {
        LogicalLiteral::Int(n) => LiteralView::Int(n),
        LogicalLiteral::Float(f) => LiteralView::Float(f),
        LogicalLiteral::Str(s) => LiteralView::Str(s@),
        LogicalLiteral::Bool(b) => LiteralView::Bool(b),
        LogicalLiteral::Null => LiteralView::Null,
    }
}

/// An integer literal cast to an integer type is a literal of that type,
/// when its value is in the type's range.
pub open spec fn typed_int_spec(n: i64, t: DataType) -> Option<LiteralView> {
    match t {
        DataType::I8 => if i8::MIN <= n <= i8::MAX { Some(LiteralView::I8(n as i8)) } else { None },
        DataType::I16 => if i16::MIN <= n <= i16::MAX { Some(LiteralView::I16(n as i16)) } else { None },
        DataType::I32 => if i32::MIN <= n <= i32::MAX { Some(LiteralView::I32(n as i32)) } else { None },
        DataType::I64 => Some(LiteralView::I64(n)),
        DataType::U8 => if 0 <= n <= u8::MAX { Some(LiteralView::U8(n as u8)) } else { None },
        DataType::U16 => if 0 <= n <= u16::MAX { Some(LiteralView::U16(n as u16)) } else { None },
        DataType::U32 => if 0 <= n <= u32::MAX { Some(LiteralView::U32(n as u32)) } else { None },
        DataType::U64 => if 0 <= n { Some(LiteralView::U64(n as u64)) } else { None },
        _ => None,
    }
}

/// A comparison becomes `Compare`, AND / OR become `Logical`; an aggregate
/// becomes the column that holds its result; a cast of an integer literal to
/// an integer type that holds it becomes a literal of that type, and any other
/// cast is its operand.
pub open spec fn lower_expr_spec(e: LogicalExpr) -> ExprView
    decreases e,
{
    match e {
        LogicalExpr::Column(_, c) => ExprView::Column(c@),
        LogicalExpr::Literal(l) => ExprView::Literal(lower_literal_spec(l)),
        LogicalExpr::BinaryOp { left, op, right } => {
            let l = Box::new(lower_expr_spec(*left));
            let r = Box::new(lower_expr_spec(*right));
            match op {
                BinaryOp::Eq => ExprView::Compare { left: l, op: CmpOp::Eq, right: r },
                BinaryOp::NotEq => ExprView::Compare { left: l, op: CmpOp::NotEq, right: r },
                BinaryOp::Lt => ExprView::Compare { left: l, op: CmpOp::Lt, right: r },
                BinaryOp::LtEq => ExprView::Compare { left: l, op: CmpOp::LtEq, right: r },
                BinaryOp::Gt => ExprView::Compare { left: l, op: CmpOp::Gt, right: r },
                BinaryOp::GtEq => ExprView::Compare { left: l, op: CmpOp::GtEq, right: r },
                BinaryOp::And => ExprView::Logical { left: l, op: LogicalOp::And, right: r },
                BinaryOp::Or => ExprView::Logical { left: l, op: LogicalOp::Or, right: r },
            }
        },
        LogicalExpr::Aggregate { func, arg } => ExprView::Column(agg_output_name_spec(func, *arg)),
        LogicalExpr::Cast { expr, target_datatype } => match *expr {
            LogicalExpr::Literal(LogicalLiteral::Int(n)) => match typed_int_spec(n, target_datatype) {
                Some(l) => ExprView::Literal(l),
                None => lower_expr_spec(*expr),
            },
            _ => lower_expr_spec(*expr),
        },
    }
}

fn lower_literal(lit: LogicalLiteral) -> (r: LiteralValue)
    ensures
        r@ == lower_literal_spec(lit),
{
    match lit {
        LogicalLiteral::Int(n) => LiteralValue::Int(n),
        LogicalLiteral::Float(f) => LiteralValue::Float(f),
        LogicalLiteral::Str(s) => LiteralValue::Str(s),
        LogicalLiteral::Bool(b) => LiteralValue::Bool(b),
        LogicalLiteral::Null => LiteralValue::Null,
    }
}

fn typed_int_literal(n: i64, t: DataType) -> (r: Option<LiteralValue>)
    ensures
        match r {
            Some(l) => typed_int_spec(n, t) == Some(l@),
            None => typed_int_spec(n, t) is None,
        },
{
    match t {
        DataType::I8 => if -128 <= n && n <= 127 { Some(LiteralValue::I8(n as i8)) } else { None },
        DataType::I16 => if -32768 <= n && n <= 32767 { Some(LiteralValue::I16(n as i16)) } else { None },
        DataType::I32 => if -2147483648 <= n && n <= 2147483647 {
            Some(LiteralValue::I32(n as i32))
        } else {
            None
        },
        DataType::I64 => Some(LiteralValue::I64(n)),
        DataType::U8 => if 0 <= n && n <= 255 { Some(LiteralValue::U8(n as u8)) } else { None },
        DataType::U16 => if 0 <= n && n <= 65535 { Some(LiteralValue::U16(n as u16)) } else { None },
        DataType::U32 => if 0 <= n && n <= 4294967295 { Some(LiteralValue::U32(n as u32)) } else { None },
        DataType::U64 => if 0 <= n { Some(LiteralValue::U64(n as u64)) } else { None },
        _ => None,
    }
}

fn lower_expr(expr: LogicalExpr) -> (r: PhysicalExpr)
    ensures
        r.view() == lower_expr_spec(expr),
    decreases expr,
{
    match expr {
        LogicalExpr::Column(_, col) => PhysicalExpr::Column(col),
        LogicalExpr::Literal(lit) => PhysicalExpr::Literal(lower_literal(lit)),
        LogicalExpr::BinaryOp { left, op, right } => {
            let l = Box::new(lower_expr(*left));
            let r = Box::new(lower_expr(*right));
            match op {
                BinaryOp::Eq => PhysicalExpr::Compare { left: l, op: CmpOp::Eq, right: r },
                BinaryOp::NotEq => PhysicalExpr::Compare { left: l, op: CmpOp::NotEq, right: r },
                BinaryOp::Lt => PhysicalExpr::Compare { left: l, op: CmpOp::Lt, right: r },
                BinaryOp::LtEq => PhysicalExpr::Compare { left: l, op: CmpOp::LtEq, right: r },
                BinaryOp::Gt => PhysicalExpr::Compare { left: l, op: CmpOp::Gt, right: r },
                BinaryOp::GtEq => PhysicalExpr::Compare { left: l, op: CmpOp::GtEq, right: r },
                BinaryOp::And => PhysicalExpr::Logical { left: l, op: LogicalOp::And, right: r },
                BinaryOp::Or => PhysicalExpr::Logical { left: l, op: LogicalOp::Or, right: r },
            }
        },
        LogicalExpr::Aggregate { func, arg } => PhysicalExpr::Column(agg_output_name(&func, &arg)),
        LogicalExpr::Cast { expr: inner, target_datatype } => {
            let typed = match &*inner {
                LogicalExpr::Literal(LogicalLiteral::Int(n)) => typed_int_literal(*n, target_datatype),
                _ => None,
            };
            match typed {
                Some(l) => PhysicalExpr::Literal(l),
                None => lower_expr(*inner),
            }
        },
    }
}

pub open spec fn lower_exprs_spec(s: Seq<LogicalExpr>) -> Seq<ExprView> {
    s.map_values(|e: LogicalExpr| lower_expr_spec(e))
}

fn lower_exprs(v: Vec<LogicalExpr>) -> (r: Vec<PhysicalExpr>)
    ensures
        exprs_view(r@) == lower_exprs_spec(v@),
{
    let ghost orig = v@;
    let mut src = v;
    let mut rev: Vec<LogicalExpr> = Vec::new();
    // Take the expressions off the end, then lower them back in order.
    while src.len() > 0
        invariant
            rev@.len() + src@.len() == orig.len(),
            src@ == orig.take(src@.len() as int),
            forall|j: int| 0 <= j < rev@.len() ==> #[trigger] rev@[j] == orig[orig.len() - 1 - j],
        decreases src@.len(),
    {
        let e = src.pop().unwrap();
        rev.push(e);
        proof {
            assert(src@ =~= orig.take(src@.len() as int));
        }
    }
    let mut out: Vec<PhysicalExpr> = Vec::new();
    while rev.len() > 0
        invariant
            out@.len() + rev@.len() == orig.len(),
            forall|j: int| 0 <= j < rev@.len() ==> #[trigger] rev@[j] == orig[orig.len() - 1 - j],
            forall|j: int| 0 <= j < out@.len() ==> #[trigger] out@[j].view() == lower_expr_spec(orig[j]),
        decreases rev@.len(),
    {
        let e = rev.pop().unwrap();
        out.push(lower_expr(e));
    }
    proof {
        assert(exprs_view(out@) =~= lower_exprs_spec(orig));
    }
    out
}

pub open spec fn lower_agg_func_spec(f: LogicalAggFunc) -> AggFunc {
    match f {
        LogicalAggFunc::Count => AggFunc::Count,
        LogicalAggFunc::Sum => AggFunc::Sum,
        LogicalAggFunc::Avg => AggFunc::Avg,
        LogicalAggFunc::Min => AggFunc::Min,
        LogicalAggFunc::Max => AggFunc::Max,
    }
}

fn lower_agg_func(func: LogicalAggFunc) -> (r: AggFunc)
    ensures
        r == lower_agg_func_spec(func),
{
    match func {
        LogicalAggFunc::Count => AggFunc::Count,
        LogicalAggFunc::Sum => AggFunc::Sum,
        LogicalAggFunc::Avg => AggFunc::Avg,
        LogicalAggFunc::Min => AggFunc::Min,
        LogicalAggFunc::Max => AggFunc::Max,
    }
}

/// Lowering keeps each operator: a binary operation of the logical plan
/// becomes a comparison or a boolean operation of the physical plan that
/// prints as the same operator, over the lowered operands.
pub proof fn lemma_lowering_keeps_operator(left: LogicalExpr, op: BinaryOp, right: LogicalExpr)
    ensures
        ({
            let e = lower_expr_spec(LogicalExpr::BinaryOp { left: Box::new(left), op, right: Box::new(right) });
            match e {
                ExprView::Compare { left: l, op: c, right: r } => cmp_op_text(c) == binary_op_text(op) && *l
                    == lower_expr_spec(left) && *r == lower_expr_spec(right),
                ExprView::Logical { left: l, op: o, right: r } => logical_op_text(o) == binary_op_text(op) && *l
                    == lower_expr_spec(left) && *r == lower_expr_spec(right),
                _ => false,
            }
        }),
{
}

/// Lowering keeps the aggregate: the physical plan names the same aggregate
/// function as the logical plan, and different logical aggregates stay
/// different.
pub proof fn lemma_lowering_keeps_aggregate(f: LogicalAggFunc, g: LogicalAggFunc)
    ensures
        agg_func_text(lower_agg_func_spec(f)) == aggregate_text(f),
        lower_agg_func_spec(f) == lower_agg_func_spec(g) ==> f == g,
{
}

/// The lowered aggregate computes what the logical one names, and its result
/// column is named after that same function, in lower case: `avg(age)` holds
/// an AVG.
pub proof fn lemma_aggregate_spec_names_its_function(func: LogicalAggFunc, arg: LogicalExpr)
    ensures
        ({
            let s = lower_agg_spec_spec(LogicalExpr::Aggregate { func, arg: Box::new(arg) });
            &&& agg_func_text(s.func) == aggregate_text(func)
            &&& s.output_name.take(agg_func_text(s.func).len() as int) == agg_func_text(s.func).map_values(
                |c: char| lower_char(c),
            )
        }),
{
    reveal_strlit("COUNT");
    reveal_strlit("SUM");
    reveal_strlit("AVG");
    reveal_strlit("MIN");
    reveal_strlit("MAX");
    let s = lower_agg_spec_spec(LogicalExpr::Aggregate { func, arg: Box::new(arg) });
    let t = agg_func_text(s.func);
    assert(s.output_name.take(t.len() as int) =~= t.map_values(|c: char| lower_char(c)));
}

/// The spec of an aggregate: its function, its argument, and the name of its result.
pub open spec fn lower_agg_spec_spec(e: LogicalExpr) -> AggSpecView
    recommends
        e is Aggregate,
{
    match e {
        LogicalExpr::Aggregate { func, arg } => AggSpecView {
            func: lower_agg_func_spec(func),
            arg: lower_expr_spec(*arg),
            output_name: agg_output_name_spec(func, *arg),
        },
        _ => arbitrary(),
    }
}

fn lower_agg_spec(expr: LogicalExpr) -> (r: AggSpec)
    requires
        expr is Aggregate,
    ensures
        r.view() == lower_agg_spec_spec(expr),
{
    match expr {
        LogicalExpr::Aggregate { func, arg } => {
            let output_name = agg_output_name(&func, &arg);
            AggSpec { func: lower_agg_func(func), arg: lower_expr(*arg), output_name }
        },
        _ => {
            proof {
                assert(false);
            }
            AggSpec { func: AggFunc::Count, arg: PhysicalExpr::Literal(LiteralValue::Null), output_name: String::new() }
        },
    }
}

pub open spec fn all_aggregates(s: Seq<LogicalExpr>) -> bool {
    forall|i: int| 0 <= i < s.len() ==> #[trigger] s[i] is Aggregate
}

pub open spec fn lower_agg_specs_spec(s: Seq<LogicalExpr>) -> Seq<AggSpecView> {
    s.map_values(|e: LogicalExpr| lower_agg_spec_spec(e))
}

fn lower_agg_specs(v: Vec<LogicalExpr>) -> (r: Vec<AggSpec>)
    requires
        all_aggregates(v@),
    ensures
        aggs_view(r@) == lower_agg_specs_spec(v@),
{
    let ghost orig = v@;
    let mut src = v;
    let mut rev: Vec<LogicalExpr> = Vec::new();
    while src.len() > 0
        invariant
            rev@.len() + src@.len() == orig.len(),
            src@ == orig.take(src@.len() as int),
            forall|j: int| 0 <= j < rev@.len() ==> #[trigger] rev@[j] == orig[orig.len() - 1 - j],
        decreases src@.len(),
    {
        let e = src.pop().unwrap();
        rev.push(e);
        proof {
            assert(src@ =~= orig.take(src@.len() as int));
        }
    }
    let mut out: Vec<AggSpec> = Vec::new();
    while rev.len() > 0
        invariant
            out@.len() + rev@.len() == orig.len(),
            all_aggregates(orig),
            forall|j: int| 0 <= j < rev@.len() ==> #[trigger] rev@[j] == orig[orig.len() - 1 - j],
            forall|j: int| 0 <= j < out@.len() ==> #[trigger] out@[j].view() == lower_agg_spec_spec(orig[j]),
        decreases rev@.len(),
    {
        let e = rev.pop().unwrap();
        proof {
            assert(orig[orig.len() - 1 - rev@.len()] is Aggregate);
        }
        out.push(lower_agg_spec(e));
    }
    proof {
        assert(aggs_view(out@) =~= lower_agg_specs_spec(orig));
    }
    out
}

// ---------------------------------------------------------------------------
// Plans

/// Every `Aggregate` node of the plan lists only aggregate expressions.
pub open spec fn aggregates_well_formed(p: PlanView) -> bool
    decreases p,
{
    match p {
        PlanView::Scan { .. } => true,
        PlanView::Filter { input, .. } => aggregates_well_formed(*input),
        PlanView::Project { input, .. } => aggregates_well_formed(*input),
        PlanView::Aggregate { aggregates, input, .. } => all_aggregates(aggregates) && aggregates_well_formed(*input),
        PlanView::Limit { input, .. } => aggregates_well_formed(*input),
    }
}

fn all_are_aggregates(v: &Vec<LogicalExpr>) -> (r: bool)
    ensures
        r == all_aggregates(v@),
{
    let mut i: usize = 0;
    while i < v.len()
        invariant
            i <= v@.len(),
            forall|j: int| 0 <= j < i ==> #[trigger] v@[j] is Aggregate,
        decreases v@.len() - i,
    {
        match &v[i] {
            LogicalExpr::Aggregate { .. } => {},
            _ => {
                return false;
            },
        }
        i = i + 1;
    }
    true
}

/// Does every `Aggregate` node of the plan list only aggregate expressions?
pub fn aggregates_are_well_formed(plan: &LogicalPlan) -> (r: bool)
    ensures
        r == aggregates_well_formed(plan.view()),
    decreases plan,
{
    match plan {
        LogicalPlan::Scan { .. } => true,
        LogicalPlan::Filter { input, .. } => aggregates_are_well_formed(input),
        LogicalPlan::Project { input, .. } => aggregates_are_well_formed(input),
        LogicalPlan::Aggregate { aggregates, input, .. } => {
            all_are_aggregates(aggregates) && aggregates_are_well_formed(input)
        },
        LogicalPlan::Limit { input, .. } => aggregates_are_well_formed(input),
    }
}

/// Node for node: the scan becomes a full scan of `cols`, and every
/// expression is lowered.
pub open spec fn lower_plan_spec(p: PlanView, cols: Seq<Seq<char>>) -> PhysicalPlanView
    decreases p,
{
    match p {
        PlanView::Scan { table } => PhysicalPlanView::FullScan { table: table@, columns: cols },
        PlanView::Filter { predicate, input } => PhysicalPlanView::Filter {
            predicate: lower_expr_spec(predicate),
            input: Box::new(lower_plan_spec(*input, cols)),
        },
        PlanView::Project { projections, input } => PhysicalPlanView::Project {
            projections: lower_exprs_spec(projections),
            input: Box::new(lower_plan_spec(*input, cols)),
        },
        PlanView::Aggregate { group_by, aggregates, input } => PhysicalPlanView::Aggregate {
            group_by: lower_exprs_spec(group_by),
            aggregates: lower_agg_specs_spec(aggregates),
            input: Box::new(lower_plan_spec(*input, cols)),
        },
        PlanView::Limit { limit, input } => PhysicalPlanView::Limit {
            limit,
            input: Box::new(lower_plan_spec(*input, cols)),
        },
    }
}

fn copy_names(cols: &Vec<String>) -> (r: Vec<String>)
    ensures
        names_view(r@) == names_view(cols@),
{
    let mut out: Vec<String> = Vec::new();
    let mut i: usize = 0;
    while i < cols.len()
        invariant
            i <= cols@.len(),
            out@.len() == i,
            forall|j: int| 0 <= j < i ==> #[trigger] out@[j]@ == cols@[j]@,
        decreases cols@.len() - i,
    {
        out.push(cols[i].clone());
        i = i + 1;
    }
    proof {
        assert(names_view(out@) =~= names_view(cols@));
    }
    out
}

fn lower_plan(plan: LogicalPlan, cols: &Vec<String>) -> (r: PhysicalPlan)
    requires
        aggregates_well_formed(plan.view()),
    ensures
        r.view() == lower_plan_spec(plan.view(), names_view(cols@)),
    decreases plan,
{
    match plan {
        LogicalPlan::Scan { table } => PhysicalPlan::FullScan { table, columns: copy_names(cols) },
        LogicalPlan::Filter { predicate, input } => PhysicalPlan::Filter {
            predicate: lower_expr(predicate),
            input: Box::new(lower_plan(*input, cols)),
        },
        LogicalPlan::Project { projections, input } => PhysicalPlan::Project {
            projections: lower_exprs(projections),
            input: Box::new(lower_plan(*input, cols)),
        },
        LogicalPlan::Aggregate { group_by, aggregates, input } => PhysicalPlan::Aggregate {
            group_by: lower_exprs(group_by),
            aggregates: lower_agg_specs(aggregates),
            input: Box::new(lower_plan(*input, cols)),
        },
        LogicalPlan::Limit { limit, input } => PhysicalPlan::Limit { limit, input: Box::new(lower_plan(*input, cols)) },
    }
}

/// Lowers a logical plan. The scan reads `scan_columns`: the columns that the
/// plan refers to, ascending, each once (see `lemma_scan_columns`).
pub fn lower(plan: LogicalPlan) -> (r: PhysicalPlan)
    requires
        aggregates_well_formed(plan.view()),
    ensures
        r.view() == lower_plan_spec(plan.view(), scan_columns(plan.view())),
{
    let mut cols: Vec<String> = Vec::new();
    proof {
        assert(string_views(cols@) =~= Seq::<Seq<char>>::empty());
    }
    collect_columns(&plan, &mut cols);
    proof {
        assert(names_view(cols@) =~= string_views(cols@));
    }
    lower_plan(plan, &cols)
}

} // verus!
