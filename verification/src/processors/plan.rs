//! Planning a SELECT into a pull-based pipeline:
//!
//!   FullScan -> [Filter] -> [Projection | Aggregate | GroupByAggregate]
//!
//! `build_plan` decides which columns the scan reads (only those the query
//! needs), whether a filter runs, and which final stage follows, with the
//! positions and types every stage works on. The nodes themselves are made by
//! the caller, which owns the files.
use vstd::prelude::*;
use vstd::string::*;

use crate::aggregator::factory::{agg_output_type, agg_output_type_spec};
use crate::catalog::schema::{
    find_column_spec, lemma_find_column, lemma_find_column_first, lemma_find_column_none, ColumnSchema,
    DataType, TableSchema,
};
use crate::parser::ast::{AggFunc, Predicate, Projection, SelectExpr, SelectStmt};
use crate::parser::lower::{views_of, SelectExprView};
use crate::processors::processor::ExecutionError;
use crate::text::{contains_string, string_views};

verus! {

/// One aggregate of the SELECT list, ready to instantiate.
pub struct AggSpec {
    pub func: AggFunc,
    /// Position of the input column among the scanned columns.
    pub input_col_idx: usize,
    /// Type of the input column.
    pub input_type: DataType,
    pub output_col: ColumnSchema,
}

pub enum PlanStage {
    /// Aggregation per distinct value of the GROUP BY columns.
    GroupByAggregate { group_by_indices: Vec<usize>, group_by_schema: Vec<ColumnSchema>, agg_specs: Vec<AggSpec> },
    /// Aggregation over the whole input.
    Aggregate { agg_specs: Vec<AggSpec> },
    /// Keeps the named columns.
    Projection { output_cols: Vec<String> },
}

pub struct PipelinePlan {
    /// The columns the scan reads, in schema order.
    pub scan_cols: Vec<ColumnSchema>,
    pub filter: Option<Predicate>,
    pub stage: PlanStage,
}

/// An aggregate spec by views: function, input position, input type, output name, output type.
pub type AggSpecView = (AggFunc, int, DataType, Seq<char>, DataType);

impl AggSpec {
    pub open spec fn view(&self) -> AggSpecView {
        (self.func, self.input_col_idx as int, self.input_type, self.output_col.name@, self.output_col.data_type)
    }
}

pub open spec fn agg_specs_view(v: Seq<AggSpec>) -> Seq<AggSpecView> {
    v.map_values(|a: AggSpec| a.view())
}

pub open spec fn cols_view(v: Seq<ColumnSchema>) -> Seq<(Seq<char>, DataType)> {
    v.map_values(|c: ColumnSchema| c@)
}

/// The columns a predicate compares, left to right.
pub open spec fn pred_cols(p: Predicate) -> Seq<Seq<char>>
    decreases p,
{
    match p {
        Predicate::Cmp { col, .. } => seq![col@],
        Predicate::And(a, b) => pred_cols(*a) + pred_cols(*b),
        Predicate::Or(a, b) => pred_cols(*a) + pred_cols(*b),
        Predicate::Not(a) => pred_cols(*a),
    }
}

pub open spec fn star() -> Seq<char> {
    seq!['*']
}

/// The columns the SELECT list reads: bare columns, and aggregate inputs other than `*`.
pub open spec fn proj_names(exprs: Seq<SelectExprView>) -> Seq<Seq<char>>
    decreases exprs.len(),
{
    if exprs.len() == 0 {
        Seq::empty()
    } else {
        let rest = proj_names(exprs.drop_last());
        match exprs.last() {
            SelectExprView::Col(n) => rest.push(n),
            SelectExprView::Agg { col, .. } => if col != star() {
                rest.push(col)
            } else {
                rest
            },
        }
    }
}

/// Does the query need column `name`: selected, aggregated, filtered on or grouped by?
pub open spec fn needed(stmt: SelectStmt, exprs: Seq<SelectExprView>, name: Seq<char>) -> bool {
    ||| proj_names(exprs).contains(name)
    ||| (stmt.where_clause matches Some(p) && pred_cols(p).contains(name))
    ||| string_views(stmt.group_by@).contains(name)
}

/// Column pruning: the schema's columns the query needs, in schema order.
pub open spec fn scan_cols_spec(stmt: SelectStmt, exprs: Seq<SelectExprView>, cols: Seq<(Seq<char>, DataType)>) -> Seq<
    (Seq<char>, DataType),
>
    decreases cols.len(),
{
    if cols.len() == 0 {
        Seq::empty()
    } else {
        let rest = scan_cols_spec(stmt, exprs, cols.drop_last());
        if needed(stmt, exprs, cols.last().0) {
            rest.push(cols.last())
        } else {
            rest
        }
    }
}

/// Every scanned column is a column of the schema.
pub proof fn lemma_scan_cols_subset(stmt: SelectStmt, exprs: Seq<SelectExprView>, cols: Seq<(Seq<char>, DataType)>)
    ensures
        forall|i: int| 0 <= i < scan_cols_spec(stmt, exprs, cols).len() ==> cols.contains(
            #[trigger] scan_cols_spec(stmt, exprs, cols)[i],
        ),
    decreases cols.len(),
{
    if cols.len() > 0 {
        let p = cols.drop_last();
        lemma_scan_cols_subset(stmt, exprs, p);
        let s = scan_cols_spec(stmt, exprs, cols);
        let r = scan_cols_spec(stmt, exprs, p);
        assert forall|i: int| 0 <= i < s.len() implies cols.contains(#[trigger] s[i]) by {
            if i < r.len() {
                assert(s[i] == r[i]);
                assert(p.contains(r[i]));
                let j = choose|j: int| 0 <= j < p.len() && p[j] == r[i];
                assert(cols[j] == r[i]);
            } else {
                assert(s[i] == cols[cols.len() - 1]);
            }
        }
    }
}

pub open spec fn agg_func_name_spec(f: AggFunc) -> Seq<char> {
    match f {
        AggFunc::Sum => seq!['s', 'u', 'm'],
        AggFunc::Max => seq!['m', 'a', 'x'],
        AggFunc::Min => seq!['m', 'i', 'n'],
        AggFunc::Count => seq!['c', 'o', 'u', 'n', 't'],
        AggFunc::Avg => seq!['a', 'v', 'g'],
    }
}

/// The name of an aggregate's output column: `func(col)`.
pub open spec fn agg_output_name(f: AggFunc, col: Seq<char>) -> Seq<char> {
    agg_func_name_spec(f) + seq!['('] + col + seq![')']
}

/// The spec of one aggregate. With `star_dummy`, `count(*)`-style `*` reads the
/// first scanned column, whose values it ignores.
pub open spec fn one_agg_spec(
    func: AggFunc,
    col: Seq<char>,
    cols: Seq<(Seq<char>, DataType)>,
    scan: Seq<(Seq<char>, DataType)>,
    star_dummy: bool,
) -> Option<AggSpecView> {
    let input = if star_dummy && col == star() {
        if scan.len() == 0 {
            None
        } else {
            Some((0int, scan[0].1))
        }
    } else {
        match find_column_spec(cols, col) {
            None => None,
            Some(ci) => match find_column_spec(scan, col) {
                None => None,
                Some(si) => Some((si, cols[ci].1)),
            },
        }
    };
    match input {
        None => None,
        Some((idx, ty)) => match agg_output_type_spec(func, ty) {
            None => None,
            Some(out) => Some((func, idx, ty, agg_output_name(func, col), out)),
        },
    }
}

/// Specs of the aggregates of the SELECT list, left to right; the first
/// failure wins. In a grouped query bare columns are the keys and are skipped;
/// otherwise a bare column is an error.
pub open spec fn agg_specs_spec(
    exprs: Seq<SelectExprView>,
    cols: Seq<(Seq<char>, DataType)>,
    scan: Seq<(Seq<char>, DataType)>,
    grouped: bool,
) -> Option<Seq<AggSpecView>>
    decreases exprs.len(),
{
    if exprs.len() == 0 {
        Some(Seq::empty())
    } else {
        match agg_specs_spec(exprs.drop_last(), cols, scan, grouped) {
            None => None,
            Some(prefix) => match exprs.last() {
                SelectExprView::Col(_) => if grouped {
                    Some(prefix)
                } else {
                    None
                },
                SelectExprView::Agg { func, col } => match one_agg_spec(func, col, cols, scan, grouped) {
                    None => None,
                    Some(s) => Some(prefix.push(s)),
                },
            },
        }
    }
}

/// Positions of the GROUP BY columns among the scanned columns, when all are there.
pub open spec fn group_indices_spec(names: Seq<Seq<char>>, scan: Seq<(Seq<char>, DataType)>) -> Option<Seq<int>> {
    if forall|i: int| 0 <= i < names.len() ==> #[trigger] find_column_spec(scan, names[i]) is Some {
        Some(Seq::new(names.len(), |i: int| find_column_spec(scan, names[i])->0))
    } else {
        None
    }
}

/// The final stage, by views.
pub enum StageView {
    GroupByAggregate { indices: Seq<int>, schema: Seq<(Seq<char>, DataType)>, specs: Seq<AggSpecView> },
    Aggregate { specs: Seq<AggSpecView> },
    Projection { names: Seq<Seq<char>> },
}

pub open spec fn has_agg(exprs: Seq<SelectExprView>) -> bool {
    exists|i: int| 0 <= i < exprs.len() && #[trigger] exprs[i] is Agg
}

/// The bare column names of the SELECT list.
pub open spec fn col_names(exprs: Seq<SelectExprView>) -> Seq<Seq<char>>
    decreases exprs.len(),
{
    if exprs.len() == 0 {
        Seq::empty()
    } else {
        let rest = col_names(exprs.drop_last());
        match exprs.last() {
            SelectExprView::Col(n) => rest.push(n),
            _ => rest,
        }
    }
}

/// What the final stage is, or `None` when planning fails.
pub open spec fn stage_spec(
    stmt: SelectStmt,
    exprs: Seq<SelectExprView>,
    cols: Seq<(Seq<char>, DataType)>,
    scan: Seq<(Seq<char>, DataType)>,
) -> Option<StageView> {
    let gb = string_views(stmt.group_by@);
    if has_agg(exprs) && gb.len() > 0 {
        match group_indices_spec(gb, scan) {
            None => None,
            Some(indices) => match agg_specs_spec(exprs, cols, scan, true) {
                None => None,
                Some(specs) => Some(
                    StageView::GroupByAggregate {
                        indices,
                        schema: Seq::new(gb.len(), |i: int| cols[find_column_spec(cols, gb[i])->0]),
                        specs,
                    },
                ),
            },
        }
    } else if has_agg(exprs) {
        match agg_specs_spec(exprs, cols, scan, false) {
            None => None,
            Some(specs) => Some(StageView::Aggregate { specs }),
        }
    } else {
        Some(StageView::Projection { names: col_names(exprs) })
    }
}

pub open spec fn stage_view(s: PlanStage) -> StageView {
    match s {
        PlanStage::GroupByAggregate { group_by_indices, group_by_schema, agg_specs } => StageView::GroupByAggregate {
            indices: group_by_indices@.map_values(|i: usize| i as int),
            schema: cols_view(group_by_schema@),
            specs: agg_specs_view(agg_specs@),
        },
        PlanStage::Aggregate { agg_specs } => StageView::Aggregate { specs: agg_specs_view(agg_specs@) },
        PlanStage::Projection { output_cols } => StageView::Projection { names: string_views(output_cols@) },
    }
}

fn invalid(msg: &str) -> (r: ExecutionError)
    ensures
        r matches ExecutionError::InvalidData(m) && m@ == msg@,
{
    ExecutionError::InvalidData(String::from_str(msg))
}

/// Appends the columns a predicate compares.
pub fn collect_pred_cols(pred: &Predicate, out: &mut Vec<String>)
    ensures
        string_views(final(out)@) == string_views(old(out)@) + pred_cols(*pred),
    decreases pred,
{
    match pred {
        Predicate::Cmp { col, .. } => {
            let ghost before = out@;
            out.push(col.clone());
            proof {
                assert(string_views(out@) =~= string_views(before) + pred_cols(*pred));
            }
        },
        Predicate::And(a, b) | Predicate::Or(a, b) => {
            let ghost before = out@;
            collect_pred_cols(a, out);
            collect_pred_cols(b, out);
            proof {
                assert(string_views(out@) =~= string_views(before) + pred_cols(*pred));
            }
        },
        Predicate::Not(inner) => collect_pred_cols(inner, out),
    }
}

fn agg_func_name(f: AggFunc) -> (r: &'static str)
    ensures
        r@ == agg_func_name_spec(f),
{
    match f {
        AggFunc::Sum => {
            proof { reveal_strlit("sum"); assert("sum"@ =~= seq!['s', 'u', 'm']); }
            "sum"
        },
        AggFunc::Max => {
            proof { reveal_strlit("max"); assert("max"@ =~= seq!['m', 'a', 'x']); }
            "max"
        },
        AggFunc::Min => {
            proof { reveal_strlit("min"); assert("min"@ =~= seq!['m', 'i', 'n']); }
            "min"
        },
        AggFunc::Count => {
            proof { reveal_strlit("count"); assert("count"@ =~= seq!['c', 'o', 'u', 'n', 't']); }
            "count"
        },
        AggFunc::Avg => {
            proof { reveal_strlit("avg"); assert("avg"@ =~= seq!['a', 'v', 'g']); }
            "avg"
        },
    }
}

/// `func(col)`.
pub fn agg_output_col_name(f: AggFunc, col: &String) -> (r: String)
    ensures
        r@ == agg_output_name(f, col@),
{
    let mut s = String::from_str(agg_func_name(f));
    proof { reveal_strlit("("); reveal_strlit(")"); }
    s.append("(");
    s.append(col.as_str());
    s.append(")");
    s
}

/// Position of the first column named `name` in a list of columns.
fn find_in(cols: &Vec<ColumnSchema>, name: &String) -> (r: Option<usize>)
    ensures
        match r {
            Some(i) => find_column_spec(cols_view(cols@), name@) == Some(i as int),
            None => find_column_spec(cols_view(cols@), name@) is None,
        },
{
    let n = cols.len();
    let mut i: usize = 0;
    while i < n
        invariant
            n == cols@.len(),
            i <= n,
            forall|j: int| 0 <= j < i ==> cols@[j].name@ != name@,
        decreases n - i,
    {
        if cols[i].name == *name {
            proof {
                let cv = cols_view(cols@);
                assert forall|j: int| 0 <= j < i implies cv[j].0 != name@ by {
                    assert(cv[j] == cols@[j]@);
                }
                assert(cv[i as int] == cols@[i as int]@);
                lemma_find_column_first(cv, name@, i as int);
            }
            return Some(i);
        }
        i = i + 1;
    }
    proof {
        let cv = cols_view(cols@);
        assert forall|j: int| 0 <= j < cv.len() implies cv[j].0 != name@ by {
            assert(cv[j] == cols@[j]@);
        }
        lemma_find_column_none(cv, name@);
    }
    None
}

fn clone_col(c: &ColumnSchema) -> (r: ColumnSchema)
    ensures
        r@ == c@,
{
    ColumnSchema { name: c.name.clone(), data_type: c.data_type }
}

/// The spec of one aggregate, or the planning error it gives.
fn build_agg_spec(
    func: AggFunc,
    col: &String,
    schema: &TableSchema,
    scan: &Vec<ColumnSchema>,
    star_dummy: bool,
) -> (r: Result<AggSpec, ExecutionError>)
    ensures
        match r {
            Ok(s) => one_agg_spec(func, col@, schema.cols(), cols_view(scan@), star_dummy) == Some(s.view()),
            Err(e) => one_agg_spec(func, col@, schema.cols(), cols_view(scan@), star_dummy) is None && e is InvalidData,
        },
{
    proof { reveal_strlit("*"); assert("*"@ =~= star()); }
    let star_s = String::from_str("*");
    let (idx, ty) = if star_dummy && *col == star_s {
        if scan.len() == 0 {
            return Err(invalid("no column to count (planner bug)"));
        }
        (0usize, scan[0].data_type)
    } else {
        let ci = match schema.find_column(col) {
            Some(i) => i,
            None => return Err(invalid("aggregate refers to unknown column")),
        };
        let si = match find_in(scan, col) {
            Some(i) => i,
            None => return Err(invalid("aggregate column not in scan (planner bug)")),
        };
        proof {
            lemma_find_column(schema.cols(), col@);
        }
        (si, schema.columns[ci].data_type)
    };
    let out = match agg_output_type(func, ty) {
        Ok(t) => t,
        Err(e) => return Err(e),
    };
    let name = agg_output_col_name(func, col);
    Ok(AggSpec { func, input_col_idx: idx, input_type: ty, output_col: ColumnSchema { name, data_type: out } })
}

pub proof fn lemma_agg_specs_prefix_none(
    exprs: Seq<SelectExprView>,
    cols: Seq<(Seq<char>, DataType)>,
    scan: Seq<(Seq<char>, DataType)>,
    grouped: bool,
    k: int,
)
    requires
        0 <= k <= exprs.len(),
        agg_specs_spec(exprs.take(k), cols, scan, grouped) is None,
    ensures
        agg_specs_spec(exprs, cols, scan, grouped) is None,
    decreases exprs.len() - k,
{
    if k < exprs.len() {
        assert(exprs.take(k + 1).drop_last() =~= exprs.take(k));
        lemma_agg_specs_prefix_none(exprs, cols, scan, grouped, k + 1);
    } else {
        assert(exprs.take(k) =~= exprs);
    }
}

/// Specs of all aggregates of the SELECT list.
fn build_agg_specs(
    exprs: &Vec<SelectExpr>,
    schema: &TableSchema,
    scan: &Vec<ColumnSchema>,
    grouped: bool,
) -> (r: Result<Vec<AggSpec>, ExecutionError>)
    ensures
        match r {
            Ok(v) => agg_specs_spec(views_of(exprs@), schema.cols(), cols_view(scan@), grouped) == Some(
                agg_specs_view(v@),
            ),
            Err(e) => agg_specs_spec(views_of(exprs@), schema.cols(), cols_view(scan@), grouped) is None
                && e is InvalidData,
        },
{
    let ghost ev = views_of(exprs@);
    let n = exprs.len();
    let mut out: Vec<AggSpec> = Vec::new();
    let mut i: usize = 0;
    proof {
        assert(ev.take(0) =~= Seq::<SelectExprView>::empty());
        assert(agg_specs_view(out@) =~= Seq::<AggSpecView>::empty());
    }
    while i < n
        invariant
            n == exprs@.len(),
            ev == views_of(exprs@),
            i <= n,
            agg_specs_spec(ev.take(i as int), schema.cols(), cols_view(scan@), grouped) == Some(agg_specs_view(out@)),
        decreases n - i,
    {
        proof {
            assert(ev.take(i + 1).drop_last() =~= ev.take(i as int));
            assert(ev.take(i + 1).last() == exprs@[i as int].view());
        }
        match &exprs[i] {
            SelectExpr::Col(_) => {
                if !grouped {
                    proof {
                        lemma_agg_specs_prefix_none(ev, schema.cols(), cols_view(scan@), grouped, i + 1);
                    }
                    return Err(invalid("mixing column references and aggregates is not supported"));
                }
            },
            SelectExpr::Agg { func, col } => {
                match build_agg_spec(*func, col, schema, scan, grouped) {
                    Ok(s) => {
                        let ghost before = out@;
                        let ghost sv = s.view();
                        out.push(s);
                        proof {
                            assert(agg_specs_view(out@) =~= agg_specs_view(before).push(sv));
                        }
                    },
                    Err(e) => {
                        proof {
                            lemma_agg_specs_prefix_none(ev, schema.cols(), cols_view(scan@), grouped, i + 1);
                        }
                        return Err(e);
                    },
                }
            },
        }
        i = i + 1;
    }
    proof {
        assert(ev.take(n as int) =~= ev);
    }
    Ok(out)
}

/// Names the SELECT list reads, as `proj_names` describes.
fn collect_proj_names(exprs: &Vec<SelectExpr>) -> (r: Vec<String>)
    ensures
        string_views(r@) == proj_names(views_of(exprs@)),
{
    proof { reveal_strlit("*"); assert("*"@ =~= star()); }
    let star_s = String::from_str("*");
    let ghost ev = views_of(exprs@);
    let mut out: Vec<String> = Vec::new();
    let mut i: usize = 0;
    while i < exprs.len()
        invariant
            i <= exprs@.len(),
            ev == views_of(exprs@),
            star_s@ == star(),
            string_views(out@) == proj_names(ev.take(i as int)),
        decreases exprs@.len() - i,
    {
        proof {
            assert(ev.take(i + 1).drop_last() =~= ev.take(i as int));
            assert(ev.take(i + 1).last() == exprs@[i as int].view());
        }
        let ghost before = out@;
        match &exprs[i] {
            SelectExpr::Col(name) => {
                out.push(name.clone());
                proof { assert(string_views(out@) =~= string_views(before).push(name@)); }
            },
            SelectExpr::Agg { col, .. } => {
                if *col != star_s {
                    out.push(col.clone());
                    proof { assert(string_views(out@) =~= string_views(before).push(col@)); }
                }
            },
        }
        i = i + 1;
    }
    proof {
        assert(ev.take(exprs@.len() as int) =~= ev);
    }
    out
}

/// Bare column names of the SELECT list.
fn collect_col_names(exprs: &Vec<SelectExpr>) -> (r: Vec<String>)
    ensures
        string_views(r@) == col_names(views_of(exprs@)),
{
    let ghost ev = views_of(exprs@);
    let mut out: Vec<String> = Vec::new();
    let mut i: usize = 0;
    while i < exprs.len()
        invariant
            i <= exprs@.len(),
            ev == views_of(exprs@),
            string_views(out@) == col_names(ev.take(i as int)),
        decreases exprs@.len() - i,
    {
        proof {
            assert(ev.take(i + 1).drop_last() =~= ev.take(i as int));
            assert(ev.take(i + 1).last() == exprs@[i as int].view());
        }
        let ghost before = out@;
        if let SelectExpr::Col(name) = &exprs[i] {
            out.push(name.clone());
            proof { assert(string_views(out@) =~= string_views(before).push(name@)); }
        }
        i = i + 1;
    }
    proof {
        assert(ev.take(exprs@.len() as int) =~= ev);
    }
    out
}

/// Plans a SELECT whose projection has been expanded into expressions.
#[verifier::loop_isolation(false)]
pub fn build_plan(stmt: &SelectStmt, schema: &TableSchema) -> (r: Result<PipelinePlan, ExecutionError>)
    requires
        stmt.projection is Exprs,
    ensures
        ({
            let exprs = views_of(stmt.projection->Exprs_0@);
            let scan = scan_cols_spec(*stmt, exprs, schema.cols());
            match r {
                Ok(plan) => {
                    &&& cols_view(plan.scan_cols@) == scan
                    &&& plan.filter == stmt.where_clause
                    &&& stage_spec(*stmt, exprs, schema.cols(), scan) == Some(stage_view(plan.stage))
                },
                Err(e) => stage_spec(*stmt, exprs, schema.cols(), scan) is None && e is InvalidData,
            }
        }),
{
    let exprs = match &stmt.projection {
        Projection::Exprs(e) => e,
        Projection::All => {
            return Err(invalid("projection must be expanded"));
        },
    };
    let ghost ev = views_of(exprs@);
    let mut pred_names: Vec<String> = Vec::new();
    if let Some(pred) = &stmt.where_clause {
        collect_pred_cols(pred, &mut pred_names);
    }
    proof {
        assert(string_views(Seq::<String>::empty()) =~= Seq::<Seq<char>>::empty());
    }
    let proj = collect_proj_names(exprs);

    // Column pruning: only read the columns this query needs.
    let mut scan_cols: Vec<ColumnSchema> = Vec::new();
    let n = schema.columns.len();
    let mut i: usize = 0;
    while i < n
        invariant
            n == schema.columns@.len(),
            i <= n,
            ev == views_of(exprs@),
            string_views(proj@) == proj_names(ev),
            string_views(pred_names@) == match stmt.where_clause {
                Some(p) => pred_cols(p),
                None => Seq::<Seq<char>>::empty(),
            },
            cols_view(scan_cols@) == scan_cols_spec(*stmt, ev, schema.cols().take(i as int)),
        decreases n - i,
    {
        let c = &schema.columns[i];
        let keep = contains_string(&proj, &c.name) || contains_string(&pred_names, &c.name) || contains_string(
            &stmt.group_by,
            &c.name,
        );
        let ghost before = scan_cols@;
        proof {
            assert(schema.cols().take(i + 1).drop_last() =~= schema.cols().take(i as int));
            assert(schema.cols().take(i + 1).last() == c@);
            assert(keep == needed(*stmt, ev, c.name@));
        }
        if keep {
            scan_cols.push(clone_col(c));
            proof {
                assert(cols_view(scan_cols@) =~= cols_view(before).push(c@));
            }
        }
        i = i + 1;
    }
    proof {
        assert(schema.cols().take(n as int) =~= schema.cols());
    }
    let ghost scan = cols_view(scan_cols@);

    let mut has_agg_exprs = false;
    let mut k: usize = 0;
    while k < exprs.len()
        invariant
            k <= exprs@.len(),
            ev == views_of(exprs@),
            has_agg_exprs == exists|j: int| 0 <= j < k && #[trigger] ev[j] is Agg,
        decreases exprs@.len() - k,
    {
        if let SelectExpr::Agg { .. } = &exprs[k] {
            has_agg_exprs = true;
            proof { assert(ev[k as int] is Agg); }
        }
        k = k + 1;
        proof {
            if exists|j: int| 0 <= j < k && #[trigger] ev[j] is Agg {
                let j = choose|j: int| 0 <= j < k && #[trigger] ev[j] is Agg;
                if j < k - 1 {
                    assert(exists|j: int| 0 <= j < k - 1 && #[trigger] ev[j] is Agg);
                }
            }
        }
    }
    let has_group_by = stmt.group_by.len() > 0;
    let filter = match &stmt.where_clause {
        Some(p) => Some(p.clone()),
        None => None,
    };

    if has_agg_exprs && has_group_by {
        // Grouped aggregation: positions and schema of the GROUP BY keys.
        let g = stmt.group_by.len();
        let mut group_by_indices: Vec<usize> = Vec::new();
        let mut j: usize = 0;
        let ghost gb = string_views(stmt.group_by@);
        while j < g
            invariant
                g == stmt.group_by@.len(),
                gb == string_views(stmt.group_by@),
                j <= g,
                group_by_indices@.len() == j,
                forall|t: int| 0 <= t < j ==> #[trigger] find_column_spec(scan, gb[t]) == Some(group_by_indices@[t] as int),
            decreases g - j,
        {
            match find_in(&scan_cols, &stmt.group_by[j]) {
                Some(idx) => group_by_indices.push(idx),
                None => {
                    proof {
                        assert(find_column_spec(scan, gb[j as int]) is None);
                    }
                    return Err(invalid("GROUP BY column not in scan (planner bug)"));
                },
            }
            j = j + 1;
        }
        proof {
            assert(group_by_indices@.map_values(|i: usize| i as int) =~= Seq::new(
                gb.len(),
                |i: int| find_column_spec(scan, gb[i])->0,
            ));
        }
        let mut group_by_schema: Vec<ColumnSchema> = Vec::new();
        let mut j2: usize = 0;
        while j2 < g
            invariant
                g == stmt.group_by@.len(),
                gb == string_views(stmt.group_by@),
                j2 <= g,
                group_by_schema@.len() == j2,
                scan == cols_view(scan_cols@),
                scan == scan_cols_spec(*stmt, ev, schema.cols()),
                forall|t: int| 0 <= t < g ==> #[trigger] find_column_spec(scan, gb[t]) is Some,
                forall|t: int| 0 <= t < j2 ==> find_column_spec(schema.cols(), gb[t]) is Some,
                forall|t: int| 0 <= t < j2 ==> #[trigger] group_by_schema@[t]@ == schema.cols()[find_column_spec(schema.cols(), gb[t])->0],
            decreases g - j2,
        {
            match schema.find_column(&stmt.group_by[j2]) {
                Some(ci) => {
                    proof {
                        lemma_find_column(schema.cols(), stmt.group_by@[j2 as int]@);
                    }
                    group_by_schema.push(clone_col(&schema.columns[ci]));
                },
                None => {
                    proof {
                        let name = gb[j2 as int];
                        assert(find_column_spec(scan, name) is Some);
                        lemma_find_column(scan, name);
                        lemma_find_column(schema.cols(), name);
                        lemma_scan_cols_subset(*stmt, ev, schema.cols());
                        let si = find_column_spec(scan, name)->0;
                        assert(schema.cols().contains(scan[si]));
                        let cj = choose|cj: int| 0 <= cj < schema.cols().len() && schema.cols()[cj] == scan[si];
                        assert(schema.cols()[cj].0 == name);
                    }
                    return Err(invalid("GROUP BY column not in schema (planner bug)"));
                },
            }
            j2 = j2 + 1;
        }
        proof {
            assert(cols_view(group_by_schema@) =~= Seq::new(
                gb.len(),
                |i: int| schema.cols()[find_column_spec(schema.cols(), gb[i])->0],
            ));
        }
        let agg_specs = match build_agg_specs(exprs, schema, &scan_cols, true) {
            Ok(v) => v,
            Err(e) => return Err(e),
        };
        Ok(PipelinePlan {
            scan_cols,
            filter,
            stage: PlanStage::GroupByAggregate { group_by_indices, group_by_schema, agg_specs },
        })
    } else if has_agg_exprs {
        let agg_specs = match build_agg_specs(exprs, schema, &scan_cols, false) {
            Ok(v) => v,
            Err(e) => return Err(e),
        };
        Ok(PipelinePlan { scan_cols, filter, stage: PlanStage::Aggregate { agg_specs } })
    } else {
        let output_cols = collect_col_names(exprs);
        Ok(PipelinePlan { scan_cols, filter, stage: PlanStage::Projection { output_cols } })
    }
}

} // verus!
