//! The physical plan: which operators run, and on which columns.
use vstd::prelude::*;
use vstd::string::*;

use crate::text::{decimal, fmt_i64, fmt_u64, signed_decimal};

verus! {

/// A literal of the physical layer. Literals whose type a cast fixed carry
/// that type; `Int` and `Float` are numbers as written in the query. A float
/// is held by its IEEE-754 bit pattern (binary32 for `F32`, binary64 for
/// `F64` and `Float`).
#[derive(Debug)]
pub enum LiteralValue {
    I8(i8),
    I16(i16),
    I32(i32),
    I64(i64),
    U8(u8),
    U16(u16),
    U32(u32),
    U64(u64),
    F32(u32),
    F64(u64),
    Int(i64),
    Float(u64),
    Str(String),
    Bool(bool),
    Null,
}

#[derive(Clone, Copy, Debug, PartialEq, Eq, Structural)]
pub enum CmpOp {
    Eq,
    NotEq,
    Lt,
    LtEq,
    Gt,
    GtEq,
}

#[derive(Clone, Copy, Debug, PartialEq, Eq, Structural)]
pub enum LogicalOp {
    And,
    Or,
}

#[derive(Clone, Copy, Debug, PartialEq, Eq, Structural)]
pub enum AggFunc {
    Count,
    Sum,
    Avg,
    Min,
    Max,
}

/// A row-level expression. There is no aggregate here: an aggregate is an
/// `AggSpec` of an `Aggregate` node, and above that node its result is read
/// as a column named after it, such as `sum(age)`.
#[derive(Debug)]
#[allow(inconsistent_fields)]
pub enum PhysicalExpr {
    Column(String),
    Literal(LiteralValue),
    Compare { left: Box<PhysicalExpr>, op: CmpOp, right: Box<PhysicalExpr> },
    Logical { left: Box<PhysicalExpr>, op: LogicalOp, right: Box<PhysicalExpr> },
}

#[derive(Debug)]
pub struct AggSpec {
    pub func: AggFunc,
    pub arg: PhysicalExpr,
    pub output_name: String,
}

#[derive(Debug)]
pub enum PhysicalPlan {
    FullScan { table: String, columns: Vec<String> },
    ZoneMapScan { table: String, columns: Vec<String>, predicate: PhysicalExpr },
    Filter { predicate: PhysicalExpr, input: Box<PhysicalPlan> },
    Project { projections: Vec<PhysicalExpr>, input: Box<PhysicalPlan> },
    Aggregate { group_by: Vec<PhysicalExpr>, aggregates: Vec<AggSpec>, input: Box<PhysicalPlan> },
    Limit { limit: u64, input: Box<PhysicalPlan> },
}

// ---------------------------------------------------------------------------
// Views: the same trees with every string taken as its characters.

pub enum LiteralView {
    I8(i8),
    I16(i16),
    I32(i32),
    I64(i64),
    U8(u8),
    U16(u16),
    U32(u32),
    U64(u64),
    F32(u32),
    F64(u64),
    Int(i64),
    Float(u64),
    Str(Seq<char>),
    Bool(bool),
    Null,
}

#[allow(inconsistent_fields)]
pub enum ExprView {
    Column(Seq<char>),
    Literal(LiteralView),
    Compare { left: Box<ExprView>, op: CmpOp, right: Box<ExprView> },
    Logical { left: Box<ExprView>, op: LogicalOp, right: Box<ExprView> },
}

pub struct AggSpecView {
    pub func: AggFunc,
    pub arg: ExprView,
    pub output_name: Seq<char>,
}

pub enum PhysicalPlanView {
    FullScan { table: Seq<char>, columns: Seq<Seq<char>> },
    ZoneMapScan { table: Seq<char>, columns: Seq<Seq<char>>, predicate: ExprView },
    Filter { predicate: ExprView, input: Box<PhysicalPlanView> },
    Project { projections: Seq<ExprView>, input: Box<PhysicalPlanView> },
    Aggregate { group_by: Seq<ExprView>, aggregates: Seq<AggSpecView>, input: Box<PhysicalPlanView> },
    Limit { limit: u64, input: Box<PhysicalPlanView> },
}

impl View for LiteralValue {
    type V = LiteralView;

    open spec fn view(&self) -> LiteralView {
        match self {
            LiteralValue::I8(v) => LiteralView::I8(*v),
            LiteralValue::I16(v) => LiteralView::I16(*v),
            LiteralValue::I32(v) => LiteralView::I32(*v),
            LiteralValue::I64(v) => LiteralView::I64(*v),
            LiteralValue::U8(v) => LiteralView::U8(*v),
            LiteralValue::U16(v) => LiteralView::U16(*v),
            LiteralValue::U32(v) => LiteralView::U32(*v),
            LiteralValue::U64(v) => LiteralView::U64(*v),
            LiteralValue::F32(v) => LiteralView::F32(*v),
            LiteralValue::F64(v) => LiteralView::F64(*v),
            LiteralValue::Int(v) => LiteralView::Int(*v),
            LiteralValue::Float(v) => LiteralView::Float(*v),
            LiteralValue::Str(s) => LiteralView::Str(s@),
            LiteralValue::Bool(b) => LiteralView::Bool(*b),
            LiteralValue::Null => LiteralView::Null,
        }
    }
}

impl PhysicalExpr {
    pub open spec fn view(&self) -> ExprView
        decreases self,
    {
        match self {
            PhysicalExpr::Column(c) => ExprView::Column(c@),
            PhysicalExpr::Literal(l) => ExprView::Literal(l@),
            PhysicalExpr::Compare { left, op, right } => ExprView::Compare {
                left: Box::new(left.view()),
                op: *op,
                right: Box::new(right.view()),
            },
            PhysicalExpr::Logical { left, op, right } => ExprView::Logical {
                left: Box::new(left.view()),
                op: *op,
                right: Box::new(right.view()),
            },
        }
    }
}

pub open spec fn exprs_view(v: Seq<PhysicalExpr>) -> Seq<ExprView> {
    v.map_values(|e: PhysicalExpr| e.view())
}

impl AggSpec {
    pub open spec fn view(&self) -> AggSpecView {
        AggSpecView { func: self.func, arg: self.arg.view(), output_name: self.output_name@ }
    }
}

pub open spec fn aggs_view(v: Seq<AggSpec>) -> Seq<AggSpecView> {
    v.map_values(|a: AggSpec| a.view())
}

pub open spec fn names_view(v: Seq<String>) -> Seq<Seq<char>> {
    v.map_values(|s: String| s@)
}

impl PhysicalPlan {
    pub open spec fn view(&self) -> PhysicalPlanView
        decreases self,
    {
        match self {
            PhysicalPlan::FullScan { table, columns } => PhysicalPlanView::FullScan {
                table: table@,
                columns: names_view(columns@),
            },
            PhysicalPlan::ZoneMapScan { table, columns, predicate } => PhysicalPlanView::ZoneMapScan {
                table: table@,
                columns: names_view(columns@),
                predicate: predicate.view(),
            },
            PhysicalPlan::Filter { predicate, input } => PhysicalPlanView::Filter {
                predicate: predicate.view(),
                input: Box::new(input.view()),
            },
            PhysicalPlan::Project { projections, input } => PhysicalPlanView::Project {
                projections: exprs_view(projections@),
                input: Box::new(input.view()),
            },
            PhysicalPlan::Aggregate { group_by, aggregates, input } => PhysicalPlanView::Aggregate {
                group_by: exprs_view(group_by@),
                aggregates: aggs_view(aggregates@),
                input: Box::new(input.view()),
            },
            PhysicalPlan::Limit { limit, input } => PhysicalPlanView::Limit {
                limit: *limit,
                input: Box::new(input.view()),
            },
        }
    }

    /// Is this node a scan, with no input?
    pub open spec fn is_leaf(&self) -> bool {
        self is FullScan || self is ZoneMapScan
    }

    /// The input of a node that has one.
    pub open spec fn input_of(&self) -> PhysicalPlan
        recommends
            !self.is_leaf(),
    {
        match self {
            PhysicalPlan::Filter { input, .. } => **input,
            PhysicalPlan::Project { input, .. } => **input,
            PhysicalPlan::Aggregate { input, .. } => **input,
            PhysicalPlan::Limit { input, .. } => **input,
            _ => arbitrary(),
        }
    }

    /// The node's inputs: none for a scan, one for every other operator.
    pub fn children(&self) -> (r: Vec<&PhysicalPlan>)
        ensures
            self.is_leaf() ==> r@.len() == 0,
            !self.is_leaf() ==> r@.len() == 1 && *r@[0] == self.input_of(),
    {
        match self {
            PhysicalPlan::FullScan { .. } => Vec::new(),
            PhysicalPlan::ZoneMapScan { .. } => Vec::new(),
            PhysicalPlan::Filter { input, .. } => {
                let mut v = Vec::new();
                v.push(&**input);
                v
            },
            PhysicalPlan::Project { input, .. } => {
                let mut v = Vec::new();
                v.push(&**input);
                v
            },
            PhysicalPlan::Aggregate { input, .. } => {
                let mut v = Vec::new();
                v.push(&**input);
                v
            },
            PhysicalPlan::Limit { input, .. } => {
                let mut v = Vec::new();
                v.push(&**input);
                v
            },
        }
    }

    /// The same node over the first of `new_children`; a scan is returned as it is.
    pub fn with_new_children(self, new_children: Vec<PhysicalPlan>) -> (r: PhysicalPlan)
        requires
            !self.is_leaf() ==> new_children@.len() >= 1,
        ensures
            self.is_leaf() ==> r == self,
            !self.is_leaf() ==> r.input_of() == new_children@[0],
            match (self, r) {
                (PhysicalPlan::Filter { predicate: p, .. }, PhysicalPlan::Filter { predicate: q, .. }) => p == q,
                (PhysicalPlan::Project { projections: p, .. }, PhysicalPlan::Project { projections: q, .. }) => p == q,
                (
                    PhysicalPlan::Aggregate { group_by: g, aggregates: a, .. },
                    PhysicalPlan::Aggregate { group_by: h, aggregates: b, .. },
                ) => g == h && a == b,
                (PhysicalPlan::Limit { limit: l, .. }, PhysicalPlan::Limit { limit: m, .. }) => l == m,
                (PhysicalPlan::FullScan { .. }, _) => true,
                (PhysicalPlan::ZoneMapScan { .. }, _) => true,
                _ => false,
            },
    {
        let mut new_children = new_children;
        match self {
            PhysicalPlan::Filter { predicate, .. } => PhysicalPlan::Filter {
                predicate,
                input: Box::new(new_children.remove(0)),
            },
            PhysicalPlan::Project { projections, .. } => PhysicalPlan::Project {
                projections,
                input: Box::new(new_children.remove(0)),
            },
            PhysicalPlan::Aggregate { group_by, aggregates, .. } => PhysicalPlan::Aggregate {
                group_by,
                aggregates,
                input: Box::new(new_children.remove(0)),
            },
            PhysicalPlan::Limit { limit, .. } => PhysicalPlan::Limit { limit, input: Box::new(new_children.remove(0)) },
            scan => scan,
        }
    }
}


// ---------------------------------------------------------------------------
// Rendering. A float literal is written `float(` and the decimal value of its
// bit pattern `)`.

pub open spec fn float_text(bits: int) -> Seq<char> {
    "float("@ + decimal(bits as nat) + ")"@
}

pub open spec fn literal_text(l: LiteralView) -> Seq<char> {
    match l {
        LiteralView::I8(v) => signed_decimal(v as int),
        LiteralView::I16(v) => signed_decimal(v as int),
        LiteralView::I32(v) => signed_decimal(v as int),
        LiteralView::I64(v) => signed_decimal(v as int),
        LiteralView::U8(v) => decimal(v as nat),
        LiteralView::U16(v) => decimal(v as nat),
        LiteralView::U32(v) => decimal(v as nat),
        LiteralView::U64(v) => decimal(v as nat),
        LiteralView::F32(b) => float_text(b as int),
        LiteralView::F64(b) => float_text(b as int),
        LiteralView::Int(v) => signed_decimal(v as int),
        LiteralView::Float(b) => float_text(b as int),
        LiteralView::Str(s) => "'"@ + s + "'"@,
        LiteralView::Bool(b) => if b {
            "true"@
        } else {
            "false"@
        },
        LiteralView::Null => "NULL"@,
    }
}

pub open spec fn cmp_op_text(op: CmpOp) -> Seq<char> {
    match op {
        CmpOp::Eq => "="@,
        CmpOp::NotEq => "!="@,
        CmpOp::Lt => "<"@,
        CmpOp::LtEq => "<="@,
        CmpOp::Gt => ">"@,
        CmpOp::GtEq => ">="@,
    }
}

pub open spec fn logical_op_text(op: LogicalOp) -> Seq<char> {
    match op {
        LogicalOp::And => "AND"@,
        LogicalOp::Or => "OR"@,
    }
}

pub open spec fn agg_func_text(f: AggFunc) -> Seq<char> {
    match f {
        AggFunc::Count => "COUNT"@,
        AggFunc::Sum => "SUM"@,
        AggFunc::Avg => "AVG"@,
        AggFunc::Min => "MIN"@,
        AggFunc::Max => "MAX"@,
    }
}

/// An expression written out, comparisons and boolean operations in parentheses.
pub open spec fn expr_text(e: ExprView) -> Seq<char>
    decreases e,
{
    match e {
        ExprView::Column(c) => c,
        ExprView::Literal(l) => literal_text(l),
        ExprView::Compare { left, op, right } => "("@ + expr_text(*left) + " "@ + cmp_op_text(op) + " "@ + expr_text(
            *right,
        ) + ")"@,
        ExprView::Logical { left, op, right } => "("@ + expr_text(*left) + " "@ + logical_op_text(op) + " "@
            + expr_text(*right) + ")"@,
    }
}

/// The items of `items`, separated by `, `.
pub open spec fn joined(items: Seq<Seq<char>>) -> Seq<char>
    decreases items.len(),
{
    if items.len() == 0 {
        Seq::empty()
    } else if items.len() == 1 {
        items[0]
    } else {
        joined(items.drop_last()) + ", "@ + items.last()
    }
}

pub open spec fn agg_text(a: AggSpecView) -> Seq<char> {
    agg_func_text(a.func) + "("@ + expr_text(a.arg) + ") -> "@ + a.output_name
}

pub open spec fn indent(depth: nat) -> Seq<char>
    decreases depth,
{
    if depth == 0 {
        Seq::empty()
    } else {
        indent((depth - 1) as nat) + "  "@
    }
}

/// The number of operators on the longest path from the root to a scan.
pub open spec fn plan_height(p: PhysicalPlanView) -> nat
    decreases p,
{
    match p {
        PhysicalPlanView::Filter { input, .. } => 1 + plan_height(*input),
        PhysicalPlanView::Project { input, .. } => 1 + plan_height(*input),
        PhysicalPlanView::Aggregate { input, .. } => 1 + plan_height(*input),
        PhysicalPlanView::Limit { input, .. } => 1 + plan_height(*input),
        _ => 1,
    }
}

/// A plan written out one operator per line, each input indented two
/// spaces more than the operator over it.
pub open spec fn plan_text(p: PhysicalPlanView, depth: nat) -> Seq<char>
    decreases p,
{
    match p {
        PhysicalPlanView::FullScan { table, columns } => indent(depth) + "FullScan("@ + table + ", cols=["@ + joined(
            columns,
        ) + "])\n"@,
        PhysicalPlanView::ZoneMapScan { table, columns, predicate } => indent(depth) + "ZoneMapScan("@ + table
            + ", cols=["@ + joined(columns) + "], predicate="@ + expr_text(predicate) + ")\n"@,
        PhysicalPlanView::Filter { predicate, input } => indent(depth) + "Filter("@ + expr_text(predicate) + ")\n"@
            + plan_text(*input, depth + 1),
        PhysicalPlanView::Project { projections, input } => indent(depth) + "Project("@ + joined(
            projections.map_values(|e: ExprView| expr_text(e)),
        ) + ")\n"@ + plan_text(*input, depth + 1),
        PhysicalPlanView::Aggregate { group_by, aggregates, input } => indent(depth) + "HashAggregate(group_by=["@
            + joined(group_by.map_values(|e: ExprView| expr_text(e))) + "], aggs=["@ + joined(
            aggregates.map_values(|a: AggSpecView| agg_text(a)),
        ) + "])\n"@ + plan_text(*input, depth + 1),
        PhysicalPlanView::Limit { limit, input } => indent(depth) + "Limit("@ + decimal(limit as nat) + ")\n"@
            + plan_text(*input, depth + 1),
    }
}

pub(crate) fn float_string(bits: u64) -> (r: String)
    ensures
        r@ == float_text(bits as int),
{
    proof { reveal_strlit("float("); reveal_strlit(")"); }
    let mut s = String::from_str("float(");
    s.append(fmt_u64(bits).as_str());
    s.append(")");
    s
}

impl LiteralValue {
    /// The literal written out.
    pub fn display(&self) -> (r: String)
        ensures
            r@ == literal_text(self@),
    {
        match self {
            LiteralValue::I8(v) => fmt_i64(*v as i64),
            LiteralValue::I16(v) => fmt_i64(*v as i64),
            LiteralValue::I32(v) => fmt_i64(*v as i64),
            LiteralValue::I64(v) => fmt_i64(*v),
            LiteralValue::U8(v) => fmt_u64(*v as u64),
            LiteralValue::U16(v) => fmt_u64(*v as u64),
            LiteralValue::U32(v) => fmt_u64(*v as u64),
            LiteralValue::U64(v) => fmt_u64(*v),
            LiteralValue::F32(b) => float_string(*b as u64),
            LiteralValue::F64(b) => float_string(*b),
            LiteralValue::Int(v) => fmt_i64(*v),
            LiteralValue::Float(b) => float_string(*b),
            LiteralValue::Str(t) => {
                proof { reveal_strlit("'"); }
                let mut s = String::from_str("'");
                s.append(t.as_str());
                s.append("'");
                s
            },
            LiteralValue::Bool(b) => {
                proof { reveal_strlit("true"); reveal_strlit("false"); }
                if *b {
                    String::from_str("true")
                } else {
                    String::from_str("false")
                }
            },
            LiteralValue::Null => {
                proof { reveal_strlit("NULL"); }
                String::from_str("NULL")
            },
        }
    }
}

impl CmpOp {
    pub fn display(&self) -> (r: &'static str)
        ensures
            r@ == cmp_op_text(*self),
    {
        match self {
            CmpOp::Eq => {
                proof { reveal_strlit("="); }
                "="
            },
            CmpOp::NotEq => {
                proof { reveal_strlit("!="); }
                "!="
            },
            CmpOp::Lt => {
                proof { reveal_strlit("<"); }
                "<"
            },
            CmpOp::LtEq => {
                proof { reveal_strlit("<="); }
                "<="
            },
            CmpOp::Gt => {
                proof { reveal_strlit(">"); }
                ">"
            },
            CmpOp::GtEq => {
                proof { reveal_strlit(">="); }
                ">="
            },
        }
    }
}

impl LogicalOp {
    pub fn display(&self) -> (r: &'static str)
        ensures
            r@ == logical_op_text(*self),
    {
        match self {
            LogicalOp::And => {
                proof { reveal_strlit("AND"); }
                "AND"
            },
            LogicalOp::Or => {
                proof { reveal_strlit("OR"); }
                "OR"
            },
        }
    }
}

impl AggFunc {
    pub fn display(&self) -> (r: &'static str)
        ensures
            r@ == agg_func_text(*self),
    {
        match self {
            AggFunc::Count => {
                proof { reveal_strlit("COUNT"); }
                "COUNT"
            },
            AggFunc::Sum => {
                proof { reveal_strlit("SUM"); }
                "SUM"
            },
            AggFunc::Avg => {
                proof { reveal_strlit("AVG"); }
                "AVG"
            },
            AggFunc::Min => {
                proof { reveal_strlit("MIN"); }
                "MIN"
            },
            AggFunc::Max => {
                proof { reveal_strlit("MAX"); }
                "MAX"
            },
        }
    }
}

impl PhysicalExpr {
    /// The expression written out.
    pub fn display(&self) -> (r: String)
        ensures
            r@ == expr_text(self.view()),
        decreases self,
    {
        match self {
            PhysicalExpr::Column(c) => c.clone(),
            PhysicalExpr::Literal(l) => l.display(),
            PhysicalExpr::Compare { left, op, right } => {
                proof { reveal_strlit("("); reveal_strlit(" "); reveal_strlit(")"); }
                let mut s = String::from_str("(");
                s.append(left.display().as_str());
                s.append(" ");
                s.append(op.display());
                s.append(" ");
                s.append(right.display().as_str());
                s.append(")");
                s
            },
            PhysicalExpr::Logical { left, op, right } => {
                proof { reveal_strlit("("); reveal_strlit(" "); reveal_strlit(")"); }
                let mut s = String::from_str("(");
                s.append(left.display().as_str());
                s.append(" ");
                s.append(op.display());
                s.append(" ");
                s.append(right.display().as_str());
                s.append(")");
                s
            },
        }
    }
}

fn push_joined_names(out: &mut String, items: &Vec<String>)
    ensures
        final(out)@ == old(out)@ + joined(names_view(items@)),
{
    let ghost start = out@;
    let ghost views = names_view(items@);
    let mut i: usize = 0;
    assert(views.take(0) =~= Seq::<Seq<char>>::empty());
    while i < items.len()
        invariant
            i <= items@.len(),
            views == names_view(items@),
            out@ == start + joined(views.take(i as int)),
        decreases items@.len() - i,
    {
        proof { reveal_strlit(", "); }
        assert(views.take(i + 1).drop_last() =~= views.take(i as int));
        if i > 0 {
            out.append(", ");
        }
        out.append(items[i].as_str());
        i = i + 1;
        proof {
            if i == 1 {
                assert(views.take(1) =~= seq![views[0]]);
            }
        }
    }
    assert(views.take(i as int) =~= views);
}

fn push_joined_exprs(out: &mut String, items: &Vec<PhysicalExpr>)
    ensures
        final(out)@ == old(out)@ + joined(exprs_view(items@).map_values(|e: ExprView| expr_text(e))),
{
    let ghost start = out@;
    let ghost texts = exprs_view(items@).map_values(|e: ExprView| expr_text(e));
    let mut i: usize = 0;
    assert(texts.take(0) =~= Seq::<Seq<char>>::empty());
    while i < items.len()
        invariant
            i <= items@.len(),
            texts == exprs_view(items@).map_values(|e: ExprView| expr_text(e)),
            out@ == start + joined(texts.take(i as int)),
        decreases items@.len() - i,
    {
        proof { reveal_strlit(", "); }
        assert(texts.take(i + 1).drop_last() =~= texts.take(i as int));
        if i > 0 {
            out.append(", ");
        }
        out.append(items[i].display().as_str());
        i = i + 1;
        proof {
            if i == 1 {
                assert(texts.take(1) =~= seq![texts[0]]);
            }
        }
    }
    assert(texts.take(i as int) =~= texts);
}

fn push_joined_aggs(out: &mut String, items: &Vec<AggSpec>)
    ensures
        final(out)@ == old(out)@ + joined(aggs_view(items@).map_values(|a: AggSpecView| agg_text(a))),
{
    let ghost start = out@;
    let ghost texts = aggs_view(items@).map_values(|a: AggSpecView| agg_text(a));
    let mut i: usize = 0;
    assert(texts.take(0) =~= Seq::<Seq<char>>::empty());
    while i < items.len()
        invariant
            i <= items@.len(),
            texts == aggs_view(items@).map_values(|a: AggSpecView| agg_text(a)),
            out@ == start + joined(texts.take(i as int)),
        decreases items@.len() - i,
    {
        proof { reveal_strlit(", "); reveal_strlit("("); reveal_strlit(") -> "); }
        assert(texts.take(i + 1).drop_last() =~= texts.take(i as int));
        if i > 0 {
            out.append(", ");
        }
        let a = &items[i];
        let mut t = String::from_str(a.func.display());
        t.append("(");
        t.append(a.arg.display().as_str());
        t.append(") -> ");
        t.append(a.output_name.as_str());
        out.append(t.as_str());
        i = i + 1;
        proof {
            if i == 1 {
                assert(texts.take(1) =~= seq![texts[0]]);
            }
        }
    }
    assert(texts.take(i as int) =~= texts);
}

impl PhysicalPlan {
    /// The plan written out, one operator per line.
    pub fn display(&self) -> (r: String)
        requires
            plan_height(self.view()) <= usize::MAX,
        ensures
            r@ == plan_text(self.view(), 0),
    {
        let mut s = String::new();
        self.fmt_indented(&mut s, 0);
        s
    }

    /// Appends the plan written out at indentation `depth`.
    #[verifier::rlimit(40)]
    pub fn fmt_indented(&self, out: &mut String, depth: usize)
        requires
            depth + plan_height(self.view()) <= usize::MAX,
        ensures
            final(out)@ == old(out)@ + plan_text(self.view(), depth as nat),
        decreases self,
    {
        proof {
            reveal_strlit("  ");
            reveal_strlit("FullScan(");
            reveal_strlit(", cols=[");
            reveal_strlit("])\n");
            reveal_strlit("ZoneMapScan(");
            reveal_strlit("], predicate=");
            reveal_strlit(")\n");
            reveal_strlit("Filter(");
            reveal_strlit("Project(");
            reveal_strlit("HashAggregate(group_by=[");
            reveal_strlit("], aggs=[");
            reveal_strlit("Limit(");
        }
        let mut k: usize = 0;
        let ghost start = out@;
        while k < depth
            invariant
                k <= depth,
                out@ == start + indent(k as nat),
            decreases depth - k,
        {
            out.append("  ");
            k = k + 1;
        }
        match self {
            PhysicalPlan::FullScan { table, columns } => {
                out.append("FullScan(");
                out.append(table.as_str());
                out.append(", cols=[");
                push_joined_names(out, columns);
                out.append("])\n");
            },
            PhysicalPlan::ZoneMapScan { table, columns, predicate } => {
                out.append("ZoneMapScan(");
                out.append(table.as_str());
                out.append(", cols=[");
                push_joined_names(out, columns);
                out.append("], predicate=");
                out.append(predicate.display().as_str());
                out.append(")\n");
            },
            PhysicalPlan::Filter { predicate, input } => {
                out.append("Filter(");
                out.append(predicate.display().as_str());
                out.append(")\n");
                input.fmt_indented(out, depth + 1);
            },
            PhysicalPlan::Project { projections, input } => {
                out.append("Project(");
                push_joined_exprs(out, projections);
                out.append(")\n");
                input.fmt_indented(out, depth + 1);
            },
            PhysicalPlan::Aggregate { group_by, aggregates, input } => {
                out.append("HashAggregate(group_by=[");
                push_joined_exprs(out, group_by);
                out.append("], aggs=[");
                push_joined_aggs(out, aggregates);
                out.append("])\n");
                input.fmt_indented(out, depth + 1);
            },
            PhysicalPlan::Limit { limit, input } => {
                out.append("Limit(");
                out.append(fmt_u64(*limit).as_str());
                out.append(")\n");
                input.fmt_indented(out, depth + 1);
            },
        }
    }
}

} // verus!
