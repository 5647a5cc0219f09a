//! Rule-based logical plan optimizer. Each rule rewrites the whole plan tree
//! bottom-up; the rules run in order, each on the output of the previous one:
//! type coercion, constant folding, then elimination of filters that are
//! always true.
use vstd::prelude::*;
use vstd::string::*;

use crate::catalog::schema::{find_column_spec, lemma_find_column, DataType, TableSchema};
use crate::logical_plan::logical_operators::{BinaryOp, LiteralValue, LogicalExpr, LogicalPlan, PlanView};

verus! {

// ---------------------------------------------------------------------------
// Constant folding

pub open spec fn is_comparison(op: BinaryOp) -> bool {
    !(op is And) && !(op is Or)
}

pub open spec fn compare_ints(a: int, op: BinaryOp, b: int) -> bool {
    match op {
        BinaryOp::Eq => a == b,
        BinaryOp::NotEq => a != b,
        BinaryOp::Lt => a < b,
        BinaryOp::LtEq => a <= b,
        BinaryOp::Gt => a > b,
        BinaryOp::GtEq => a >= b,
        _ => false,
    }
}

/// One folding step on a binary operation whose operands are already folded:
/// comparisons of two integer literals become a boolean literal, and AND / OR
/// with a boolean literal on the left simplify.
pub open spec fn fold_binary(l: LogicalExpr, op: BinaryOp, r: LogicalExpr) -> LogicalExpr {
    match (l, r) {
        (LogicalExpr::Literal(LiteralValue::Int(a)), LogicalExpr::Literal(LiteralValue::Int(b))) => {
            if is_comparison(op) {
                LogicalExpr::Literal(LiteralValue::Bool(compare_ints(a as int, op, b as int)))
            } else {
                LogicalExpr::BinaryOp { left: Box::new(l), op, right: Box::new(r) }
            }
        },
        _ => if l == LogicalExpr::Literal(LiteralValue::Bool(true)) && op is And {
            r
        } else if l == LogicalExpr::Literal(LiteralValue::Bool(false)) && op is And {
            LogicalExpr::Literal(LiteralValue::Bool(false))
        } else if l == LogicalExpr::Literal(LiteralValue::Bool(true)) && op is Or {
            LogicalExpr::Literal(LiteralValue::Bool(true))
        } else if l == LogicalExpr::Literal(LiteralValue::Bool(false)) && op is Or {
            r
        } else {
            LogicalExpr::BinaryOp { left: Box::new(l), op, right: Box::new(r) }
        },
    }
}

/// Folds binary operations bottom-up; other expressions are left as they are.
pub open spec fn fold_expr_spec(e: LogicalExpr) -> LogicalExpr
    decreases e,
{
    match e {
        LogicalExpr::BinaryOp { left, op, right } => fold_binary(fold_expr_spec(*left), op, fold_expr_spec(*right)),
        _ => e,
    }
}

/// Folding is idempotent: one bottom-up pass leaves nothing a second pass
/// would fold.
pub proof fn lemma_fold_idempotent(e: LogicalExpr)
    ensures
        fold_expr_spec(fold_expr_spec(e)) == fold_expr_spec(e),
    decreases e,
{
    if let LogicalExpr::BinaryOp { left, op, right } = e {
        lemma_fold_idempotent(*left);
        lemma_fold_idempotent(*right);
        let l = fold_expr_spec(*left);
        let r = fold_expr_spec(*right);
        let f = fold_binary(l, op, r);
        if let LogicalExpr::BinaryOp { left: fl, op: fop, right: fr } = f {
            if f == r {
                assert(fold_expr_spec(f) == f);
            } else {
                assert(*fl == l && fop == op && *fr == r);
                assert(fold_expr_spec(f) == fold_binary(fold_expr_spec(l), op, fold_expr_spec(r)));
            }
        }
    }
}

fn is_bool_literal(e: &LogicalExpr, b: bool) -> (r: bool)
    ensures
        r == (*e == LogicalExpr::Literal(LiteralValue::Bool(b))),
{
    match e {
        LogicalExpr::Literal(LiteralValue::Bool(x)) => *x == b,
        _ => false,
    }
}

/// Evaluates binary operations whose operands are literals.
pub fn fold_expr(expr: LogicalExpr) -> (r: LogicalExpr)
    ensures
        r == fold_expr_spec(expr),
    decreases expr,
{
    match expr {
        LogicalExpr::BinaryOp { left, op, right } => {
            let left = fold_expr(*left);
            let right = fold_expr(*right);
            let ints = match (&left, &right) {
                (LogicalExpr::Literal(LiteralValue::Int(a)), LogicalExpr::Literal(LiteralValue::Int(b))) => Some((*a, *b)),
                _ => None,
            };
            if let Some((a, b)) = ints {
                let result = match op {
                    BinaryOp::Eq => a == b,
                    BinaryOp::NotEq => a != b,
                    BinaryOp::Lt => a < b,
                    BinaryOp::LtEq => a <= b,
                    BinaryOp::Gt => a > b,
                    BinaryOp::GtEq => a >= b,
                    _ => return LogicalExpr::BinaryOp { left: Box::new(left), op, right: Box::new(right) },
                };
                return LogicalExpr::Literal(LiteralValue::Bool(result));
            }
            if is_bool_literal(&left, true) && op == BinaryOp::And {
                right
            } else if is_bool_literal(&left, false) && op == BinaryOp::And {
                LogicalExpr::Literal(LiteralValue::Bool(false))
            } else if is_bool_literal(&left, true) && op == BinaryOp::Or {
                LogicalExpr::Literal(LiteralValue::Bool(true))
            } else if is_bool_literal(&left, false) && op == BinaryOp::Or {
                right
            } else {
                LogicalExpr::BinaryOp { left: Box::new(left), op, right: Box::new(right) }
            }
        },
        other => other,
    }
}

// ---------------------------------------------------------------------------
// Evaluation, for stating what folding and coercion preserve

pub enum Value {
    Int(int),
    Bool(bool),
}

/// The value of an expression on a row, where `env` gives the value of each
/// (table, column). `None` when the expression is not a row-level integer or
/// boolean computation (an aggregate, an unsupported literal, a type mismatch).
/// A cast keeps its operand's value.
pub open spec fn eval(e: LogicalExpr, env: spec_fn(Seq<char>, Seq<char>) -> Option<Value>) -> Option<Value>
    decreases e,
{
    match e {
        LogicalExpr::Column(t, c) => env(t@, c@),
        LogicalExpr::Literal(LiteralValue::Int(i)) => Some(Value::Int(i as int)),
        LogicalExpr::Literal(LiteralValue::Bool(b)) => Some(Value::Bool(b)),
        LogicalExpr::Literal(_) => None,
        LogicalExpr::BinaryOp { left, op, right } => eval_binary(eval(*left, env), op, eval(*right, env)),
        LogicalExpr::Aggregate { .. } => None,
        LogicalExpr::Cast { expr, .. } => eval(*expr, env),
    }
}

pub open spec fn eval_binary(l: Option<Value>, op: BinaryOp, r: Option<Value>) -> Option<Value> {
    match (l, r) {
        (Some(Value::Int(a)), Some(Value::Int(b))) => if is_comparison(op) {
            Some(Value::Bool(compare_ints(a, op, b)))
        } else {
            None
        },
        (Some(Value::Bool(a)), Some(Value::Bool(b))) => match op {
            BinaryOp::And => Some(Value::Bool(a && b)),
            BinaryOp::Or => Some(Value::Bool(a || b)),
            _ => None,
        },
        _ => None,
    }
}

/// Constant folding is sound: wherever an expression has a value, its folded
/// form has the same value.
pub proof fn lemma_fold_preserves_eval(e: LogicalExpr, env: spec_fn(Seq<char>, Seq<char>) -> Option<Value>)
    requires
        eval(e, env) is Some,
    ensures
        eval(fold_expr_spec(e), env) == eval(e, env),
    decreases e,
{
    if let LogicalExpr::BinaryOp { left, op, right } = e {
        lemma_fold_preserves_eval(*left, env);
        lemma_fold_preserves_eval(*right, env);
        let l = fold_expr_spec(*left);
        let r = fold_expr_spec(*right);
        assert(eval(LogicalExpr::BinaryOp { left: Box::new(l), op, right: Box::new(r) }, env) == eval(e, env));
    }
}

// ---------------------------------------------------------------------------
// Type coercion

/// The type of the first schema column named `c`.
pub open spec fn column_type(schema: TableSchema, c: Seq<char>) -> DataType {
    schema.cols()[find_column_spec(schema.cols(), c)->0].1
}

/// A literal compared with a column is cast to the column's type.
pub open spec fn coerce_comparison_spec(l: LogicalExpr, op: BinaryOp, r: LogicalExpr, schema: TableSchema) -> LogicalExpr {
    match (l, r) {
        (LogicalExpr::Column(t, c), LogicalExpr::Literal(lit)) => LogicalExpr::BinaryOp {
            left: Box::new(LogicalExpr::Column(t, c)),
            op,
            right: Box::new(
                LogicalExpr::Cast { expr: Box::new(LogicalExpr::Literal(lit)), target_datatype: column_type(schema, c@) },
            ),
        },
        (LogicalExpr::Literal(lit), LogicalExpr::Column(t, c)) => LogicalExpr::BinaryOp {
            left: Box::new(
                LogicalExpr::Cast { expr: Box::new(LogicalExpr::Literal(lit)), target_datatype: column_type(schema, c@) },
            ),
            op,
            right: Box::new(LogicalExpr::Column(t, c)),
        },
        (l, r) => LogicalExpr::BinaryOp { left: Box::new(l), op, right: Box::new(r) },
    }
}

pub open spec fn coerce_expr_spec(e: LogicalExpr, schema: TableSchema) -> LogicalExpr
    decreases e,
{
    match e {
        LogicalExpr::BinaryOp { left, op, right } => {
            let l = coerce_expr_spec(*left, schema);
            let r = coerce_expr_spec(*right, schema);
            if is_comparison(op) {
                coerce_comparison_spec(l, op, r, schema)
            } else {
                LogicalExpr::BinaryOp { left: Box::new(l), op, right: Box::new(r) }
            }
        },
        LogicalExpr::Cast { expr, target_datatype } => LogicalExpr::Cast {
            expr: Box::new(coerce_expr_spec(*expr, schema)),
            target_datatype,
        },
        _ => e,
    }
}

/// Every column that coercion will look up is in the schema: each comparison
/// between a column and a literal names a known column.
pub open spec fn coercion_ok(e: LogicalExpr, schema: TableSchema) -> bool
    decreases e,
{
    match e {
        LogicalExpr::BinaryOp { left, op, right } => {
            &&& coercion_ok(*left, schema)
            &&& coercion_ok(*right, schema)
            &&& is_comparison(op) ==> match (*left, *right) {
                (LogicalExpr::Column(_, c), LogicalExpr::Literal(_)) => find_column_spec(schema.cols(), c@) is Some,
                (LogicalExpr::Literal(_), LogicalExpr::Column(_, c)) => find_column_spec(schema.cols(), c@) is Some,
                _ => true,
            }
        },
        LogicalExpr::Cast { expr, .. } => coercion_ok(*expr, schema),
        _ => true,
    }
}

/// Coercion leaves columns and literals as they are.
pub proof fn lemma_coerce_leaves(e: LogicalExpr, schema: TableSchema)
    ensures
        e is Column ==> coerce_expr_spec(e, schema) == e,
        e is Literal ==> coerce_expr_spec(e, schema) == e,
        coerce_expr_spec(e, schema) is Column ==> e is Column,
        coerce_expr_spec(e, schema) is Literal ==> e is Literal,
{
}

/// Coercion preserves evaluation: it only wraps literals in casts.
pub proof fn lemma_coerce_preserves_eval(
    e: LogicalExpr,
    schema: TableSchema,
    env: spec_fn(Seq<char>, Seq<char>) -> Option<Value>,
)
    ensures
        eval(coerce_expr_spec(e, schema), env) == eval(e, env),
    decreases e,
{
    match e {
        LogicalExpr::BinaryOp { left, op, right } => {
            lemma_coerce_preserves_eval(*left, schema, env);
            lemma_coerce_preserves_eval(*right, schema, env);
            let l = coerce_expr_spec(*left, schema);
            let r = coerce_expr_spec(*right, schema);
            match (l, r) {
                (LogicalExpr::Column(t, c), LogicalExpr::Literal(lit)) => {
                    let cast = LogicalExpr::Cast {
                        expr: Box::new(LogicalExpr::Literal(lit)),
                        target_datatype: column_type(schema, c@),
                    };
                    assert(eval(cast, env) == eval(r, env));
                },
                (LogicalExpr::Literal(lit), LogicalExpr::Column(t, c)) => {
                    let cast = LogicalExpr::Cast {
                        expr: Box::new(LogicalExpr::Literal(lit)),
                        target_datatype: column_type(schema, c@),
                    };
                    assert(eval(cast, env) == eval(l, env));
                },
                _ => {},
            }
        },
        LogicalExpr::Cast { expr, .. } => {
            lemma_coerce_preserves_eval(*expr, schema, env);
        },
        _ => {},
    }
}

fn column_type_of(schema: &TableSchema, c: &String) -> (r: DataType)
    requires
        find_column_spec(schema.cols(), c@) is Some,
    ensures
        r == column_type(*schema, c@),
{
    proof {
        lemma_find_column(schema.cols(), c@);
    }
    match schema.find_column(c) {
        Some(i) => schema.columns[i].data_type,
        None => DataType::Bool,
    }
}

/// Inserts a cast of the literal to the column's type where a column is compared with a literal.
pub fn coerce_comparison(left: LogicalExpr, op: BinaryOp, right: LogicalExpr, schema: &TableSchema) -> (r: LogicalExpr)
    requires
        match (left, right) {
            (LogicalExpr::Column(_, c), LogicalExpr::Literal(_)) => find_column_spec(schema.cols(), c@) is Some,
            (LogicalExpr::Literal(_), LogicalExpr::Column(_, c)) => find_column_spec(schema.cols(), c@) is Some,
            _ => true,
        },
    ensures
        r == coerce_comparison_spec(left, op, right, *schema),
{
    match (left, right) {
        (LogicalExpr::Column(table, col), LogicalExpr::Literal(lit)) => {
            let target_type = column_type_of(schema, &col);
            LogicalExpr::BinaryOp {
                left: Box::new(LogicalExpr::Column(table, col)),
                op,
                right: Box::new(LogicalExpr::Cast { expr: Box::new(LogicalExpr::Literal(lit)), target_datatype: target_type }),
            }
        },
        (LogicalExpr::Literal(lit), LogicalExpr::Column(table, col)) => {
            let target_type = column_type_of(schema, &col);
            LogicalExpr::BinaryOp {
                left: Box::new(LogicalExpr::Cast { expr: Box::new(LogicalExpr::Literal(lit)), target_datatype: target_type }),
                op,
                right: Box::new(LogicalExpr::Column(table, col)),
            }
        },
        (left, right) => LogicalExpr::BinaryOp { left: Box::new(left), op, right: Box::new(right) },
    }
}

pub fn is_comparison_op(op: &BinaryOp) -> (r: bool)
    ensures
        r == is_comparison(*op),
{
    match op {
        BinaryOp::Eq | BinaryOp::NotEq | BinaryOp::Lt | BinaryOp::LtEq | BinaryOp::Gt | BinaryOp::GtEq => true,
        _ => false,
    }
}

/// Applies coercion to every comparison of the expression tree.
pub fn coerce_expr(expr: LogicalExpr, schema: &TableSchema) -> (r: LogicalExpr)
    requires
        coercion_ok(expr, *schema),
    ensures
        r == coerce_expr_spec(expr, *schema),
    decreases expr,
{
    match expr {
        LogicalExpr::BinaryOp { left, op, right } => {
            proof {
                lemma_coerce_leaves(*left, *schema);
                lemma_coerce_leaves(*right, *schema);
            }
            let left = coerce_expr(*left, schema);
            let right = coerce_expr(*right, schema);
            if is_comparison_op(&op) {
                coerce_comparison(left, op, right, schema)
            } else {
                LogicalExpr::BinaryOp { left: Box::new(left), op, right: Box::new(right) }
            }
        },
        LogicalExpr::Cast { expr, target_datatype } => LogicalExpr::Cast {
            expr: Box::new(coerce_expr(*expr, schema)),
            target_datatype,
        },
        other => other,
    }
}

/// Checks `coercion_ok`: every comparison of a column with a literal names a schema column.
pub fn coercion_columns_known(e: &LogicalExpr, schema: &TableSchema) -> (r: bool)
    ensures
        r == coercion_ok(*e, *schema),
    decreases e,
{
    match e {
        LogicalExpr::BinaryOp { left, op, right } => {
            if !coercion_columns_known(left, schema) || !coercion_columns_known(right, schema) {
                return false;
            }
            if is_comparison_op(op) {
                match (&**left, &**right) {
                    (LogicalExpr::Column(_, c), LogicalExpr::Literal(_)) => schema.find_column(c).is_some(),
                    (LogicalExpr::Literal(_), LogicalExpr::Column(_, c)) => schema.find_column(c).is_some(),
                    _ => true,
                }
            } else {
                true
            }
        },
        LogicalExpr::Cast { expr, .. } => coercion_columns_known(expr, schema),
        _ => true,
    }
}

// ---------------------------------------------------------------------------
// Rewriting plans

#[derive(Clone, Copy, PartialEq, Eq, Structural)]
pub enum Rule {
    TypeCoercion,
    ConstantFolding,
    EliminateTrueFilter,
}

pub open spec fn map_fold(s: Seq<LogicalExpr>) -> Seq<LogicalExpr> {
    s.map_values(|e: LogicalExpr| fold_expr_spec(e))
}

/// What a rule does to one node whose children are already rewritten.
pub open spec fn apply_node_spec(rule: Rule, node: PlanView, schema: TableSchema) -> PlanView {
    match rule {
        Rule::TypeCoercion => match node {
            PlanView::Filter { predicate, input } => PlanView::Filter {
                predicate: coerce_expr_spec(predicate, schema),
                input,
            },
            other => other,
        },
        Rule::ConstantFolding => match node {
            PlanView::Filter { predicate, input } => PlanView::Filter { predicate: fold_expr_spec(predicate), input },
            PlanView::Project { projections, input } => PlanView::Project { projections: map_fold(projections), input },
            other => other,
        },
        Rule::EliminateTrueFilter => match node {
            PlanView::Filter { predicate, input } => if predicate == LogicalExpr::Literal(LiteralValue::Bool(true)) {
                *input
            } else {
                PlanView::Filter { predicate, input }
            },
            other => other,
        },
    }
}

/// Applies a rule bottom-up: children first, then the node.
pub open spec fn rewrite_spec(rule: Rule, plan: PlanView, schema: TableSchema) -> PlanView
    decreases plan,
{
    match plan {
        PlanView::Scan { .. } => apply_node_spec(rule, plan, schema),
        PlanView::Filter { predicate, input } => apply_node_spec(
            rule,
            PlanView::Filter { predicate, input: Box::new(rewrite_spec(rule, *input, schema)) },
            schema,
        ),
        PlanView::Project { projections, input } => apply_node_spec(
            rule,
            PlanView::Project { projections, input: Box::new(rewrite_spec(rule, *input, schema)) },
            schema,
        ),
        PlanView::Aggregate { group_by, aggregates, input } => apply_node_spec(
            rule,
            PlanView::Aggregate { group_by, aggregates, input: Box::new(rewrite_spec(rule, *input, schema)) },
            schema,
        ),
        PlanView::Limit { limit, input } => apply_node_spec(
            rule,
            PlanView::Limit { limit, input: Box::new(rewrite_spec(rule, *input, schema)) },
            schema,
        ),
    }
}

/// Every filter predicate of the plan passes `coercion_ok`.
pub open spec fn plan_coercion_ok(plan: PlanView, schema: TableSchema) -> bool
    decreases plan,
{
    match plan {
        PlanView::Scan { .. } => true,
        PlanView::Filter { predicate, input } => coercion_ok(predicate, schema) && plan_coercion_ok(*input, schema),
        PlanView::Project { input, .. } => plan_coercion_ok(*input, schema),
        PlanView::Aggregate { input, .. } => plan_coercion_ok(*input, schema),
        PlanView::Limit { input, .. } => plan_coercion_ok(*input, schema),
    }
}

/// Does the plan hold a filter whose predicate is the literal `true`?
pub open spec fn has_true_filter(plan: PlanView) -> bool
    decreases plan,
{
    match plan {
        PlanView::Scan { .. } => false,
        PlanView::Filter { predicate, input } => predicate == LogicalExpr::Literal(LiteralValue::Bool(true))
            || has_true_filter(*input),
        PlanView::Project { input, .. } => has_true_filter(*input),
        PlanView::Aggregate { input, .. } => has_true_filter(*input),
        PlanView::Limit { input, .. } => has_true_filter(*input),
    }
}

/// After `EliminateTrueFilter` no filter with a literal `true` predicate remains.
pub proof fn lemma_eliminate_true_filter_complete(plan: PlanView, schema: TableSchema)
    ensures
        !has_true_filter(rewrite_spec(Rule::EliminateTrueFilter, plan, schema)),
    decreases plan,
{
    match plan {
        PlanView::Scan { .. } => {},
        PlanView::Filter { predicate, input } => lemma_eliminate_true_filter_complete(*input, schema),
        PlanView::Project { input, .. } => lemma_eliminate_true_filter_complete(*input, schema),
        PlanView::Aggregate { input, .. } => lemma_eliminate_true_filter_complete(*input, schema),
        PlanView::Limit { input, .. } => lemma_eliminate_true_filter_complete(*input, schema),
    }
}

fn fold_all(v: Vec<LogicalExpr>) -> (r: Vec<LogicalExpr>)
    ensures
        r@ == map_fold(v@),
{
    let mut out: Vec<LogicalExpr> = Vec::new();
    let mut src = v;
    let ghost orig = src@;
    let mut rev: Vec<LogicalExpr> = Vec::new();
    // Take the expressions off the end, then put them back in order.
    while src.len() > 0
        invariant
            rev@.len() + src@.len() == orig.len(),
            src@ == orig.take(src@.len() as int),
            forall|j: int| 0 <= j < rev@.len() ==> #[trigger] rev@[j] == orig[orig.len() - 1 - j],
        decreases src@.len(),
    {
        let e = src.pop().unwrap();
        rev.push(e);
        proof {
            assert(src@ =~= orig.take(src@.len() as int));
        }
    }
    while rev.len() > 0
        invariant
            out@.len() + rev@.len() == orig.len(),
            forall|j: int| 0 <= j < rev@.len() ==> #[trigger] rev@[j] == orig[orig.len() - 1 - j],
            forall|j: int| 0 <= j < out@.len() ==> #[trigger] out@[j] == fold_expr_spec(orig[j]),
        decreases rev@.len(),
    {
        let e = rev.pop().unwrap();
        out.push(fold_expr(e));
    }
    proof {
        assert(out@ =~= map_fold(orig));
    }
    out
}

/// Applies a rule to one node.
fn apply_node(rule: Rule, node: LogicalPlan, schema: &TableSchema) -> (r: LogicalPlan)
    requires
        rule is TypeCoercion ==> (node matches LogicalPlan::Filter { predicate, .. } ==> coercion_ok(predicate, *schema)),
    ensures
        r.view() == apply_node_spec(rule, node.view(), *schema),
{
    match rule {
        Rule::TypeCoercion => match node {
            LogicalPlan::Filter { predicate, input } => LogicalPlan::Filter { predicate: coerce_expr(predicate, schema), input },
            other => other,
        },
        Rule::ConstantFolding => match node {
            LogicalPlan::Filter { predicate, input } => LogicalPlan::Filter { predicate: fold_expr(predicate), input },
            LogicalPlan::Project { projections, input } => LogicalPlan::Project { projections: fold_all(projections), input },
            other => other,
        },
        Rule::EliminateTrueFilter => match node {
            LogicalPlan::Filter { predicate, input } => {
                if is_bool_literal(&predicate, true) {
                    *input
                } else {
                    LogicalPlan::Filter { predicate, input }
                }
            },
            other => other,
        },
    }
}

/// Applies a rule to every node, children before parents.
pub fn rewrite(plan: LogicalPlan, rule: Rule, schema: &TableSchema) -> (r: LogicalPlan)
    requires
        rule is TypeCoercion ==> plan_coercion_ok(plan.view(), *schema),
    ensures
        r.view() == rewrite_spec(rule, plan.view(), *schema),
    decreases plan,
{
    match plan {
        LogicalPlan::Filter { predicate, input } => {
            let new_input = rewrite(*input, rule, schema);
            apply_node(rule, LogicalPlan::Filter { predicate, input: Box::new(new_input) }, schema)
        },
        LogicalPlan::Project { projections, input } => {
            let new_input = rewrite(*input, rule, schema);
            apply_node(rule, LogicalPlan::Project { projections, input: Box::new(new_input) }, schema)
        },
        LogicalPlan::Aggregate { group_by, aggregates, input } => {
            let new_input = rewrite(*input, rule, schema);
            apply_node(rule, LogicalPlan::Aggregate { group_by, aggregates, input: Box::new(new_input) }, schema)
        },
        LogicalPlan::Limit { limit, input } => {
            let new_input = rewrite(*input, rule, schema);
            apply_node(rule, LogicalPlan::Limit { limit, input: Box::new(new_input) }, schema)
        },
        leaf => apply_node(rule, leaf, schema),
    }
}

/// Checks `plan_coercion_ok` for a plan.
pub fn plan_coercion_columns_known(plan: &LogicalPlan, schema: &TableSchema) -> (r: bool)
    ensures
        r == plan_coercion_ok(plan.view(), *schema),
    decreases plan,
{
    match plan {
        LogicalPlan::Scan { .. } => true,
        LogicalPlan::Filter { predicate, input } => coercion_columns_known(predicate, schema)
            && plan_coercion_columns_known(input, schema),
        LogicalPlan::Project { input, .. } => plan_coercion_columns_known(input, schema),
        LogicalPlan::Aggregate { input, .. } => plan_coercion_columns_known(input, schema),
        LogicalPlan::Limit { input, .. } => plan_coercion_columns_known(input, schema),
    }
}

/// The three rules in order.
pub open spec fn optimize_spec(plan: PlanView, schema: TableSchema) -> PlanView {
    rewrite_spec(
        Rule::EliminateTrueFilter,
        rewrite_spec(Rule::ConstantFolding, rewrite_spec(Rule::TypeCoercion, plan, schema), schema),
        schema,
    )
}

pub struct ConstantFolding;

pub struct EliminateTrueFilter;

pub struct TypeCoercion<'a> {
    pub schema: &'a TableSchema,
}

impl ConstantFolding {
    pub fn name(&self) -> (r: &'static str)
        ensures
            r@ == "constant_folding"@,
    {
        proof { reveal_strlit("constant_folding"); }
        "constant_folding"
    }

    /// Folds every filter predicate and projection.
    pub fn apply(&self, plan: LogicalPlan, schema: &TableSchema) -> (r: LogicalPlan)
        ensures
            r.view() == rewrite_spec(Rule::ConstantFolding, plan.view(), *schema),
    {
        rewrite(plan, Rule::ConstantFolding, schema)
    }
}

impl EliminateTrueFilter {
    pub fn name(&self) -> (r: &'static str)
        ensures
            r@ == "eliminate_true_filter"@,
    {
        proof { reveal_strlit("eliminate_true_filter"); }
        "eliminate_true_filter"
    }

    /// Removes filters whose predicate is the literal `true`.
    pub fn apply(&self, plan: LogicalPlan, schema: &TableSchema) -> (r: LogicalPlan)
        ensures
            r.view() == rewrite_spec(Rule::EliminateTrueFilter, plan.view(), *schema),
            !has_true_filter(r.view()),
    {
        proof {
            lemma_eliminate_true_filter_complete(plan.view(), *schema);
        }
        rewrite(plan, Rule::EliminateTrueFilter, schema)
    }
}

impl<'a> TypeCoercion<'a> {
    pub fn name(&self) -> (r: &'static str)
        ensures
            r@ == "type_coercion"@,
    {
        proof { reveal_strlit("type_coercion"); }
        "type_coercion"
    }

    /// Casts literals compared with columns to the columns' types, in every filter.
    pub fn apply(&self, plan: LogicalPlan) -> (r: LogicalPlan)
        requires
            plan_coercion_ok(plan.view(), *self.schema),
        ensures
            r.view() == rewrite_spec(Rule::TypeCoercion, plan.view(), *self.schema),
    {
        rewrite(plan, Rule::TypeCoercion, self.schema)
    }
}

pub struct Optimizer<'a> {
    schema: &'a TableSchema,
}

impl<'a> Optimizer<'a> {
    pub closed spec fn schema(&self) -> TableSchema {
        *self.schema
    }

    pub fn new(schema: &'a TableSchema) -> (r: Self)
        ensures
            r.schema() == *schema,
    {
        Optimizer { schema }
    }

    /// Runs type coercion, constant folding and true-filter elimination, in that order.
    pub fn optimize(&self, plan: LogicalPlan) -> (r: LogicalPlan)
        requires
            plan_coercion_ok(plan.view(), self.schema()),
        ensures
            r.view() == optimize_spec(plan.view(), self.schema()),
            !has_true_filter(r.view()),
    {
        let p1 = TypeCoercion { schema: self.schema }.apply(plan);
        let p2 = ConstantFolding.apply(p1, self.schema);
        EliminateTrueFilter.apply(p2, self.schema)
    }
}

} // verus!
