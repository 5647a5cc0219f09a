//! Rule-based physical plan optimizer: filters that are always true are
//! removed, then a filter directly over a full scan becomes a zone-map scan
//! that carries the predicate.
use vstd::prelude::*;
use vstd::string::*;

use crate::physical_plan::physical_operators::{
    ExprView, LiteralValue, LiteralView, PhysicalExpr, PhysicalPlan, PhysicalPlanView,
};

verus! {

pub open spec fn is_true_literal(e: ExprView) -> bool {
    e == ExprView::Literal(LiteralView::Bool(true))
}

#[derive(Clone, Copy, PartialEq, Eq, Structural)]
pub enum Rule {
    EliminateTrueFilter,
    PredicatePushdown,
}

/// What a rule does to one node whose input is already rewritten.
pub open spec fn apply_node_spec(rule: Rule, node: PhysicalPlanView) -> PhysicalPlanView {
    match rule {
        Rule::EliminateTrueFilter => match node {
            PhysicalPlanView::Filter { predicate, input } => if is_true_literal(predicate) {
                *input
            } else {
                PhysicalPlanView::Filter { predicate, input }
            },
            other => other,
        },
        Rule::PredicatePushdown => match node {
            PhysicalPlanView::Filter { predicate, input } => match *input {
                PhysicalPlanView::FullScan { table, columns } => PhysicalPlanView::ZoneMapScan {
                    table,
                    columns,
                    predicate,
                },
                _ => PhysicalPlanView::Filter { predicate, input },
            },
            other => other,
        },
    }
}

/// Applies a rule bottom-up: the input first, then the node.
pub open spec fn rewrite_spec(rule: Rule, plan: PhysicalPlanView) -> PhysicalPlanView
    decreases plan,
{
    match plan {
        PhysicalPlanView::Filter { predicate, input } => apply_node_spec(
            rule,
            PhysicalPlanView::Filter { predicate, input: Box::new(rewrite_spec(rule, *input)) },
        ),
        PhysicalPlanView::Project { projections, input } => apply_node_spec(
            rule,
            PhysicalPlanView::Project { projections, input: Box::new(rewrite_spec(rule, *input)) },
        ),
        PhysicalPlanView::Aggregate { group_by, aggregates, input } => apply_node_spec(
            rule,
            PhysicalPlanView::Aggregate { group_by, aggregates, input: Box::new(rewrite_spec(rule, *input)) },
        ),
        PhysicalPlanView::Limit { limit, input } => apply_node_spec(
            rule,
            PhysicalPlanView::Limit { limit, input: Box::new(rewrite_spec(rule, *input)) },
        ),
        scan => apply_node_spec(rule, scan),
    }
}

/// True-filter elimination, then predicate pushdown.
pub open spec fn optimize_spec(plan: PhysicalPlanView) -> PhysicalPlanView {
    rewrite_spec(Rule::PredicatePushdown, rewrite_spec(Rule::EliminateTrueFilter, plan))
}

// ---------------------------------------------------------------------------
// What the rules keep

/// `input` filtered by `predicate`, where a literal `true` filters nothing.
pub open spec fn filtered(predicate: ExprView, input: PhysicalPlanView) -> PhysicalPlanView {
    if is_true_literal(predicate) {
        input
    } else {
        PhysicalPlanView::Filter { predicate, input: Box::new(input) }
    }
}

/// The rows a plan produces, written without zone-map scans and without
/// filters that are always true: a zone-map scan reads what a filter over a
/// full scan of the same columns reads.
pub open spec fn normal_form(plan: PhysicalPlanView) -> PhysicalPlanView
    decreases plan,
{
    match plan {
        PhysicalPlanView::FullScan { table, columns } => PhysicalPlanView::FullScan { table, columns },
        PhysicalPlanView::ZoneMapScan { table, columns, predicate } => filtered(
            predicate,
            PhysicalPlanView::FullScan { table, columns },
        ),
        PhysicalPlanView::Filter { predicate, input } => filtered(predicate, normal_form(*input)),
        PhysicalPlanView::Project { projections, input } => PhysicalPlanView::Project {
            projections,
            input: Box::new(normal_form(*input)),
        },
        PhysicalPlanView::Aggregate { group_by, aggregates, input } => PhysicalPlanView::Aggregate {
            group_by,
            aggregates,
            input: Box::new(normal_form(*input)),
        },
        PhysicalPlanView::Limit { limit, input } => PhysicalPlanView::Limit {
            limit,
            input: Box::new(normal_form(*input)),
        },
    }
}

/// Each rule leaves what the plan computes as it was.
pub proof fn lemma_rewrite_preserves_normal_form(rule: Rule, plan: PhysicalPlanView)
    ensures
        normal_form(rewrite_spec(rule, plan)) == normal_form(plan),
    decreases plan,
{
    match plan {
        PhysicalPlanView::Filter { predicate, input } => {
            lemma_rewrite_preserves_normal_form(rule, *input);
        },
        PhysicalPlanView::Project { projections, input } => {
            lemma_rewrite_preserves_normal_form(rule, *input);
        },
        PhysicalPlanView::Aggregate { group_by, aggregates, input } => {
            lemma_rewrite_preserves_normal_form(rule, *input);
        },
        PhysicalPlanView::Limit { limit, input } => {
            lemma_rewrite_preserves_normal_form(rule, *input);
        },
        _ => {},
    }
}

/// Does a filter of the plan have the literal `true` as its predicate?
pub open spec fn has_true_filter(plan: PhysicalPlanView) -> bool
    decreases plan,
{
    match plan {
        PhysicalPlanView::Filter { predicate, input } => is_true_literal(predicate) || has_true_filter(*input),
        PhysicalPlanView::Project { input, .. } => has_true_filter(*input),
        PhysicalPlanView::Aggregate { input, .. } => has_true_filter(*input),
        PhysicalPlanView::Limit { input, .. } => has_true_filter(*input),
        _ => false,
    }
}

/// Is some filter of the plan directly over a full scan?
pub open spec fn has_filter_over_scan(plan: PhysicalPlanView) -> bool
    decreases plan,
{
    match plan {
        PhysicalPlanView::Filter { input, .. } => (*input is FullScan) || has_filter_over_scan(*input),
        PhysicalPlanView::Project { input, .. } => has_filter_over_scan(*input),
        PhysicalPlanView::Aggregate { input, .. } => has_filter_over_scan(*input),
        PhysicalPlanView::Limit { input, .. } => has_filter_over_scan(*input),
        _ => false,
    }
}

/// After true-filter elimination no filter is the literal `true`.
pub proof fn lemma_eliminate_complete(plan: PhysicalPlanView)
    ensures
        !has_true_filter(rewrite_spec(Rule::EliminateTrueFilter, plan)),
    decreases plan,
{
    match plan {
        PhysicalPlanView::Filter { input, .. } => lemma_eliminate_complete(*input),
        PhysicalPlanView::Project { input, .. } => lemma_eliminate_complete(*input),
        PhysicalPlanView::Aggregate { input, .. } => lemma_eliminate_complete(*input),
        PhysicalPlanView::Limit { input, .. } => lemma_eliminate_complete(*input),
        _ => {},
    }
}

/// Pushdown leaves no filter directly over a full scan, and adds no filter.
pub proof fn lemma_pushdown_complete(plan: PhysicalPlanView)
    ensures
        !has_filter_over_scan(rewrite_spec(Rule::PredicatePushdown, plan)),
        !has_true_filter(plan) ==> !has_true_filter(rewrite_spec(Rule::PredicatePushdown, plan)),
    decreases plan,
{
    match plan {
        PhysicalPlanView::Filter { input, .. } => lemma_pushdown_complete(*input),
        PhysicalPlanView::Project { input, .. } => lemma_pushdown_complete(*input),
        PhysicalPlanView::Aggregate { input, .. } => lemma_pushdown_complete(*input),
        PhysicalPlanView::Limit { input, .. } => lemma_pushdown_complete(*input),
        _ => {},
    }
}

/// The optimizer computes what the plan computed, with no filter that is
/// always true and no filter left directly over a full scan.
pub proof fn lemma_optimize(plan: PhysicalPlanView)
    ensures
        normal_form(optimize_spec(plan)) == normal_form(plan),
        !has_true_filter(optimize_spec(plan)),
        !has_filter_over_scan(optimize_spec(plan)),
{
    let p1 = rewrite_spec(Rule::EliminateTrueFilter, plan);
    lemma_rewrite_preserves_normal_form(Rule::EliminateTrueFilter, plan);
    lemma_rewrite_preserves_normal_form(Rule::PredicatePushdown, p1);
    lemma_eliminate_complete(plan);
    lemma_pushdown_complete(p1);
}

fn is_true_expr(e: &PhysicalExpr) -> (r: bool)
    ensures
        r == is_true_literal(e.view()),
{
    match e {
        PhysicalExpr::Literal(LiteralValue::Bool(b)) => *b,
        _ => false,
    }
}

fn apply_node(rule: Rule, node: PhysicalPlan) -> (r: PhysicalPlan)
    ensures
        r.view() == apply_node_spec(rule, node.view()),
{
    let ghost nv = node.view();
    match rule {
        Rule::EliminateTrueFilter => match node {
            PhysicalPlan::Filter { predicate, input } => {
                if is_true_expr(&predicate) {
                    assert(nv == PhysicalPlanView::Filter { predicate: predicate.view(), input: Box::new(input.view()) });
                    *input
                } else {
                    PhysicalPlan::Filter { predicate, input }
                }
            },
            other => other,
        },
        Rule::PredicatePushdown => match node {
            PhysicalPlan::Filter { predicate, input } => match *input {
                PhysicalPlan::FullScan { table, columns } => PhysicalPlan::ZoneMapScan { table, columns, predicate },
                other => PhysicalPlan::Filter { predicate, input: Box::new(other) },
            },
            other => other,
        },
    }
}

/// Applies a rule to every node, inputs before the nodes over them.
fn rewrite(plan: PhysicalPlan, rule: Rule) -> (r: PhysicalPlan)
    ensures
        r.view() == rewrite_spec(rule, plan.view()),
    decreases plan,
{
    match plan {
        PhysicalPlan::Filter { predicate, input } => {
            let new_input = rewrite(*input, rule);
            apply_node(rule, PhysicalPlan::Filter { predicate, input: Box::new(new_input) })
        },
        PhysicalPlan::Project { projections, input } => {
            let new_input = rewrite(*input, rule);
            apply_node(rule, PhysicalPlan::Project { projections, input: Box::new(new_input) })
        },
        PhysicalPlan::Aggregate { group_by, aggregates, input } => {
            let new_input = rewrite(*input, rule);
            apply_node(rule, PhysicalPlan::Aggregate { group_by, aggregates, input: Box::new(new_input) })
        },
        PhysicalPlan::Limit { limit, input } => {
            let new_input = rewrite(*input, rule);
            apply_node(rule, PhysicalPlan::Limit { limit, input: Box::new(new_input) })
        },
        scan => apply_node(rule, scan),
    }
}

/// A rewrite of whole physical plans.
pub trait OptimizerRule {
    fn name(&self) -> &'static str;

    fn apply(&self, plan: PhysicalPlan) -> PhysicalPlan;
}

pub struct EliminateTrueFilter;

pub struct PredicatePushdown;

impl OptimizerRule for EliminateTrueFilter {
    fn name(&self) -> (r: &'static str)
        ensures
            r@ == "eliminate_true_filter"@,
    {
        proof { reveal_strlit("eliminate_true_filter"); }
        "eliminate_true_filter"
    }

    /// Replaces each filter whose predicate is the literal `true` by its input.
    fn apply(&self, plan: PhysicalPlan) -> (r: PhysicalPlan)
        ensures
            r.view() == rewrite_spec(Rule::EliminateTrueFilter, plan.view()),
    {
        rewrite(plan, Rule::EliminateTrueFilter)
    }
}

impl OptimizerRule for PredicatePushdown {
    fn name(&self) -> (r: &'static str)
        ensures
            r@ == "predicate_pushdown"@,
    {
        proof { reveal_strlit("predicate_pushdown"); }
        "predicate_pushdown"
    }

    /// Turns each filter directly over a full scan into a zone-map scan of
    /// the same table and columns with the filter's predicate.
    fn apply(&self, plan: PhysicalPlan) -> (r: PhysicalPlan)
        ensures
            r.view() == rewrite_spec(Rule::PredicatePushdown, plan.view()),
    {
        rewrite(plan, Rule::PredicatePushdown)
    }
}

/// Runs true-filter elimination, then predicate pushdown.
pub struct Optimizer {
    rules: Vec<Rule>,
}

impl Optimizer {
    pub closed spec fn rules(&self) -> Seq<Rule> {
        self.rules@
    }

    pub fn new() -> (r: Self)
        ensures
            r.rules() == seq![Rule::EliminateTrueFilter, Rule::PredicatePushdown],
    {
        let mut rules = Vec::new();
        rules.push(Rule::EliminateTrueFilter);
        rules.push(Rule::PredicatePushdown);
        proof {
            assert(rules@ =~= seq![Rule::EliminateTrueFilter, Rule::PredicatePushdown]);
        }
        Optimizer { rules }
    }

    /// Applies each rule in turn, each to the output of the one before.
    pub fn optimize(&self, plan: PhysicalPlan) -> (r: PhysicalPlan)
        requires
            self.rules() == seq![Rule::EliminateTrueFilter, Rule::PredicatePushdown],
        ensures
            r.view() == optimize_spec(plan.view()),
            normal_form(r.view()) == normal_form(plan.view()),
            !has_true_filter(r.view()),
            !has_filter_over_scan(r.view()),
    {
        proof {
            lemma_optimize(plan.view());
        }
        let mut p = plan;
        let ghost start = p.view();
        let mut i: usize = 0;
        while i < self.rules.len()
            invariant
                self.rules@ == seq![Rule::EliminateTrueFilter, Rule::PredicatePushdown],
                i <= 2,
                i == 0 ==> p.view() == start,
                i == 1 ==> p.view() == rewrite_spec(Rule::EliminateTrueFilter, start),
                i == 2 ==> p.view() == optimize_spec(start),
            decreases 2 - i,
        {
            p = rewrite(p, self.rules[i]);
            i = i + 1;
        }
        p
    }
}

} // verus!
