//! Lowers a SELECT statement into a logical plan. Name resolution happens
//! here: bare column names are qualified with their table.
use vstd::prelude::*;
use vstd::string::*;

use crate::catalog::schema::{find_column_spec, lemma_find_column, ColumnSchema, TableSchema};
use crate::frontend::sql::{
    SqlBinaryOp, SqlExpr, SqlFunction, SqlFunctionArg, SqlFunctionArguments, SqlGroupBy, SqlLimitClause,
    SqlQuery, SqlSelectItem, SqlSetExpr, SqlStatement, SqlValue,
};
use crate::logical_plan::display::aggregate_text;
use crate::logical_plan::logical_operators::{AggFunc, BinaryOp, LiteralValue, LogicalExpr, LogicalPlan, PlanView};
use crate::text::{parse_i64, parse_int_spec, parse_u64, upper_char, uppercase_eq};

verus! {

pub open spec fn lower_literal_spec(v: SqlValue) -> Option<LiteralValue> {
    match v {
        SqlValue::Number { text, float_bits } => match parse_int_spec(text@, true, i64::MIN as int, i64::MAX as int) {
            Some(i) => Some(LiteralValue::Int(i as i64)),
            None => match float_bits {
                Some(b) => Some(LiteralValue::Float(b)),
                None => None,
            },
        },
        SqlValue::SingleQuotedString(s) => Some(LiteralValue::Str(s)),
        SqlValue::Boolean(b) => Some(LiteralValue::Bool(b)),
        SqlValue::Null => Some(LiteralValue::Null),
        SqlValue::Other(_) => None,
    }
}

pub open spec fn lower_binary_op_spec(op: SqlBinaryOp) -> Option<BinaryOp> {
    match op {
        SqlBinaryOp::Eq => Some(BinaryOp::Eq),
        SqlBinaryOp::NotEq => Some(BinaryOp::NotEq),
        SqlBinaryOp::Lt => Some(BinaryOp::Lt),
        SqlBinaryOp::LtEq => Some(BinaryOp::LtEq),
        SqlBinaryOp::Gt => Some(BinaryOp::Gt),
        SqlBinaryOp::GtEq => Some(BinaryOp::GtEq),
        SqlBinaryOp::And => Some(BinaryOp::And),
        SqlBinaryOp::Or => Some(BinaryOp::Or),
        SqlBinaryOp::Other => None,
    }
}

/// Aggregate function by its name, compared in uppercase.
pub open spec fn agg_func_spec(name: Seq<char>) -> Option<AggFunc> {
    let u = name.map_values(|c: char| upper_char(c));
    if u == seq!['C', 'O', 'U', 'N', 'T'] {
        Some(AggFunc::Count)
    } else if u == seq!['S', 'U', 'M'] {
        Some(AggFunc::Sum)
    } else if u == seq!['A', 'V', 'G'] {
        Some(AggFunc::Avg)
    } else if u == seq!['M', 'I', 'N'] {
        Some(AggFunc::Min)
    } else if u == seq!['M', 'A', 'X'] {
        Some(AggFunc::Max)
    } else {
        None
    }
}

/// The aggregate a name selects is the one whose name it spells, in any
/// case: a name selects `func` exactly when, in upper case, it is the name
/// the plan prints for `func`.
pub proof fn lemma_aggregate_by_name(name: Seq<char>, func: AggFunc)
    ensures
        agg_func_spec(name) == Some(func) <==> name.map_values(|c: char| upper_char(c)) == aggregate_text(func),
{
    reveal_strlit("COUNT");
    reveal_strlit("SUM");
    reveal_strlit("AVG");
    reveal_strlit("MIN");
    reveal_strlit("MAX");
    assert("COUNT"@ =~= seq!['C', 'O', 'U', 'N', 'T']);
    assert("SUM"@ =~= seq!['S', 'U', 'M']);
    assert("AVG"@ =~= seq!['A', 'V', 'G']);
    assert("MIN"@ =~= seq!['M', 'I', 'N']);
    assert("MAX"@ =~= seq!['M', 'A', 'X']);
    let u = name.map_values(|c: char| upper_char(c));
    assert(seq!['C', 'O', 'U', 'N', 'T'] != seq!['S', 'U', 'M']);
    assert(seq!['S', 'U', 'M'][0] != seq!['A', 'V', 'G'][0]);
    assert(seq!['M', 'I', 'N'][1] != seq!['M', 'A', 'X'][1]);
    assert(seq!['S', 'U', 'M'][0] != seq!['M', 'I', 'N'][0]);
    assert(seq!['A', 'V', 'G'][0] != seq!['M', 'I', 'N'][0]);
}

/// A function call is lowered to the aggregate it names: the called name, in
/// upper case, is the name of the aggregate in the plan.
pub proof fn lemma_call_lowers_to_named_aggregate(f: SqlFunction, schema: TableSchema)
    ensures
        lower_expr_spec(SqlExpr::Function(f), schema) matches Some(LogicalExpr::Aggregate { func, .. }) ==> f.name@.map_values(
            |c: char| upper_char(c),
        ) == aggregate_text(func),
{
    if let Some(LogicalExpr::Aggregate { func, .. }) = lower_expr_spec(SqlExpr::Function(f), schema) {
        lemma_aggregate_by_name(f.name@, func);
    }
}

/// An expression with names resolved against the schema: a bare column is
/// qualified with the table's name, a two-part name is taken as it stands.
pub open spec fn lower_expr_spec(e: SqlExpr, schema: TableSchema) -> Option<LogicalExpr>
    decreases e,
{
    match e {
        SqlExpr::Identifier(ident) => match find_column_spec(schema.cols(), ident@) {
            Some(i) => Some(LogicalExpr::Column(schema.name, schema.columns@[i].name)),
            None => None,
        },
        SqlExpr::CompoundIdentifier(parts) => if parts@.len() == 2 {
            Some(LogicalExpr::Column(parts@[0], parts@[1]))
        } else {
            None
        },
        SqlExpr::Value(v) => match lower_literal_spec(v) {
            Some(l) => Some(LogicalExpr::Literal(l)),
            None => None,
        },
        SqlExpr::BinaryOp { left, op, right } => match lower_expr_spec(*left, schema) {
            None => None,
            Some(l) => match lower_expr_spec(*right, schema) {
                None => None,
                Some(r) => match lower_binary_op_spec(op) {
                    None => None,
                    Some(o) => Some(LogicalExpr::BinaryOp { left: Box::new(l), op: o, right: Box::new(r) }),
                },
            },
        },
        SqlExpr::Function(f) => match agg_func_spec(f.name@) {
            None => None,
            Some(func) => match f.args {
                SqlFunctionArguments::List(list) => if list@.len() > 0 && list@[0] is Expr {
                    match lower_expr_spec(list@[0]->Expr_0, schema) {
                        None => None,
                        Some(arg) => Some(LogicalExpr::Aggregate { func, arg: Box::new(arg) }),
                    }
                } else {
                    None
                },
                SqlFunctionArguments::Other(..) => None,
            },
        },
        _ => None,
    }
}

fn err(msg: &str) -> String {
    String::from_str(msg)
}

pub fn lower_literal(v: &SqlValue) -> (r: Result<LiteralValue, String>)
    ensures
        match r {
            Ok(l) => lower_literal_spec(*v) == Some(l),
            Err(_) => lower_literal_spec(*v) is None,
        },
{
    match v {
        SqlValue::Number { text, float_bits } => {
            if let Some(i) = parse_i64(text.as_str()) {
                Ok(LiteralValue::Int(i))
            } else if let Some(b) = float_bits {
                Ok(LiteralValue::Float(*b))
            } else {
                Err(err("cannot parse number"))
            }
        },
        SqlValue::SingleQuotedString(s) => Ok(LiteralValue::Str(s.clone())),
        SqlValue::Boolean(b) => Ok(LiteralValue::Bool(*b)),
        SqlValue::Null => Ok(LiteralValue::Null),
        SqlValue::Other(_) => Err(err("unsupported literal")),
    }
}

pub fn lower_binary_op(op: SqlBinaryOp) -> (r: Result<BinaryOp, String>)
    ensures
        match r {
            Ok(o) => lower_binary_op_spec(op) == Some(o),
            Err(_) => lower_binary_op_spec(op) is None,
        },
{
    match op {
        SqlBinaryOp::Eq => Ok(BinaryOp::Eq),
        SqlBinaryOp::NotEq => Ok(BinaryOp::NotEq),
        SqlBinaryOp::Lt => Ok(BinaryOp::Lt),
        SqlBinaryOp::LtEq => Ok(BinaryOp::LtEq),
        SqlBinaryOp::Gt => Ok(BinaryOp::Gt),
        SqlBinaryOp::GtEq => Ok(BinaryOp::GtEq),
        SqlBinaryOp::And => Ok(BinaryOp::And),
        SqlBinaryOp::Or => Ok(BinaryOp::Or),
        SqlBinaryOp::Other => Err(err("unsupported operator")),
    }
}

fn agg_func(name: &str) -> (r: Option<AggFunc>)
    ensures
        r == agg_func_spec(name@),
{
    proof {
        reveal_strlit("COUNT");
        reveal_strlit("SUM");
        reveal_strlit("AVG");
        reveal_strlit("MIN");
        reveal_strlit("MAX");
        assert("COUNT"@ =~= seq!['C', 'O', 'U', 'N', 'T']);
        assert("SUM"@ =~= seq!['S', 'U', 'M']);
        assert("AVG"@ =~= seq!['A', 'V', 'G']);
        assert("MIN"@ =~= seq!['M', 'I', 'N']);
        assert("MAX"@ =~= seq!['M', 'A', 'X']);
    }
    if uppercase_eq(name, "COUNT") {
        Some(AggFunc::Count)
    } else if uppercase_eq(name, "SUM") {
        Some(AggFunc::Sum)
    } else if uppercase_eq(name, "AVG") {
        Some(AggFunc::Avg)
    } else if uppercase_eq(name, "MIN") {
        Some(AggFunc::Min)
    } else if uppercase_eq(name, "MAX") {
        Some(AggFunc::Max)
    } else {
        None
    }
}

/// An aggregate call: the function by name, its first argument as an expression.
fn lower_agg_expr(f: &SqlFunction, schema: &TableSchema, Ghost(whole): Ghost<SqlExpr>) -> (r: Result<LogicalExpr, String>)
    requires
        whole == SqlExpr::Function(*f),
    ensures
        match r {
            Ok(x) => lower_expr_spec(whole, *schema) == Some(x),
            Err(_) => lower_expr_spec(whole, *schema) is None,
        },
    decreases whole, 0nat,
{
    let func = match agg_func(f.name.as_str()) {
        Some(x) => x,
        None => return Err(err("unsupported aggregate function")),
    };
    let arg = match &f.args {
        SqlFunctionArguments::List(list) => {
            if list.len() == 0 {
                return Err(err("unsupported aggregate argument"));
            }
            match &list[0] {
                SqlFunctionArg::Expr(e) => {
                    proof {
                        assert(decreases_to!(whole => list@[0]));
                    }
                    match lower_expr(e, schema) {
                        Ok(x) => x,
                        Err(m) => return Err(m),
                    }
                },
                _ => return Err(err("unsupported aggregate argument")),
            }
        },
        SqlFunctionArguments::Other(..) => return Err(err("unsupported aggregate argument form")),
    };
    Ok(LogicalExpr::Aggregate { func, arg: Box::new(arg) })
}

/// Lowers an expression, resolving names against the schema.
pub fn lower_expr(e: &SqlExpr, schema: &TableSchema) -> (r: Result<LogicalExpr, String>)
    ensures
        match r {
            Ok(x) => lower_expr_spec(*e, *schema) == Some(x),
            Err(_) => lower_expr_spec(*e, *schema) is None,
        },
    decreases *e, 1nat,
{
    match e {
        SqlExpr::Identifier(ident) => match schema.find_column(ident) {
            Some(i) => {
                proof {
                    lemma_find_column(schema.cols(), ident@);
                }
                Ok(LogicalExpr::Column(schema.name.clone(), schema.columns[i].name.clone()))
            },
            None => Err(err("Unknown column")),
        },
        SqlExpr::CompoundIdentifier(parts) => {
            if parts.len() == 2 {
                Ok(LogicalExpr::Column(parts[0].clone(), parts[1].clone()))
            } else {
                Err(err("Unsupported expression"))
            }
        },
        SqlExpr::Value(v) => match lower_literal(v) {
            Ok(l) => Ok(LogicalExpr::Literal(l)),
            Err(m) => Err(m),
        },
        SqlExpr::BinaryOp { left, op, right } => {
            let l = match lower_expr(left, schema) {
                Ok(x) => x,
                Err(m) => return Err(m),
            };
            let r = match lower_expr(right, schema) {
                Ok(x) => x,
                Err(m) => return Err(m),
            };
            let o = match lower_binary_op(*op) {
                Ok(x) => x,
                Err(m) => return Err(m),
            };
            Ok(LogicalExpr::BinaryOp { left: Box::new(l), op: o, right: Box::new(r) })
        },
        SqlExpr::Function(f) => lower_agg_expr(f, schema, Ghost(*e)),
        _ => Err(err("Unsupported expression")),
    }
}

/// All schema columns, qualified with the table's name, in schema order.
pub open spec fn star_columns(schema: TableSchema) -> Seq<LogicalExpr> {
    Seq::new(schema.columns@.len(), |i: int| LogicalExpr::Column(schema.name, schema.columns@[i].name))
}

/// The expressions one SELECT item contributes: `*` expands to every column.
pub open spec fn lower_item_spec(item: SqlSelectItem, schema: TableSchema) -> Option<Seq<LogicalExpr>> {
    match item {
        SqlSelectItem::Wildcard => Some(star_columns(schema)),
        SqlSelectItem::UnnamedExpr(e) => match lower_expr_spec(e, schema) {
            Some(x) => Some(seq![x]),
            None => None,
        },
        SqlSelectItem::ExprWithAlias(e) => match lower_expr_spec(e, schema) {
            Some(x) => Some(seq![x]),
            None => None,
        },
        SqlSelectItem::Other(..) => None,
    }
}

pub open spec fn lower_projection_spec(items: Seq<SqlSelectItem>, schema: TableSchema) -> Option<Seq<LogicalExpr>>
    decreases items.len(),
{
    if items.len() == 0 {
        Some(Seq::empty())
    } else {
        match lower_projection_spec(items.drop_last(), schema) {
            None => None,
            Some(prefix) => match lower_item_spec(items.last(), schema) {
                None => None,
                Some(x) => Some(prefix + x),
            },
        }
    }
}

/// The aggregate calls of the SELECT list, in order; other items contribute nothing.
pub open spec fn collect_aggregates_spec(items: Seq<SqlSelectItem>, schema: TableSchema) -> Option<Seq<LogicalExpr>>
    decreases items.len(),
{
    if items.len() == 0 {
        Some(Seq::empty())
    } else {
        match collect_aggregates_spec(items.drop_last(), schema) {
            None => None,
            Some(prefix) => {
                let e = match items.last() {
                    SqlSelectItem::UnnamedExpr(e) => Some(e),
                    SqlSelectItem::ExprWithAlias(e) => Some(e),
                    _ => None,
                };
                match e {
                    Some(SqlExpr::Function(f)) => match lower_expr_spec(SqlExpr::Function(f), schema) {
                        None => None,
                        Some(x) => Some(prefix.push(x)),
                    },
                    _ => Some(prefix),
                }
            },
        }
    }
}

pub open spec fn lower_exprs_spec(es: Seq<SqlExpr>, schema: TableSchema) -> Option<Seq<LogicalExpr>>
    decreases es.len(),
{
    if es.len() == 0 {
        Some(Seq::empty())
    } else {
        match lower_exprs_spec(es.drop_last(), schema) {
            None => None,
            Some(prefix) => match lower_expr_spec(es.last(), schema) {
                None => None,
                Some(x) => Some(prefix.push(x)),
            },
        }
    }
}

pub open spec fn lower_group_by_spec(g: SqlGroupBy, schema: TableSchema) -> Option<Seq<LogicalExpr>> {
    match g {
        SqlGroupBy::Expressions(es) => lower_exprs_spec(es@, schema),
        SqlGroupBy::All(_) => None,
    }
}

/// `LIMIT n` with `n` a number literal read as a `u64`.
pub open spec fn lower_limit_spec(c: SqlLimitClause) -> Option<u64> {
    match c {
        SqlLimitClause::LimitOffset(Some(SqlExpr::Value(SqlValue::Number { text, .. }))) => match parse_int_spec(
            text@,
            false,
            0,
            u64::MAX as int,
        ) {
            Some(n) => Some(n as u64),
            None => None,
        },
        _ => None,
    }
}

proof fn lemma_exprs_prefix_none(es: Seq<SqlExpr>, schema: TableSchema, k: int)
    requires
        0 <= k <= es.len(),
        lower_exprs_spec(es.take(k), schema) is None,
    ensures
        lower_exprs_spec(es, schema) is None,
    decreases es.len() - k,
{
    if k < es.len() {
        assert(es.take(k + 1).drop_last() =~= es.take(k));
        lemma_exprs_prefix_none(es, schema, k + 1);
    } else {
        assert(es.take(k) =~= es);
    }
}

proof fn lemma_projection_prefix_none(items: Seq<SqlSelectItem>, schema: TableSchema, k: int)
    requires
        0 <= k <= items.len(),
        lower_projection_spec(items.take(k), schema) is None,
    ensures
        lower_projection_spec(items, schema) is None,
    decreases items.len() - k,
{
    if k < items.len() {
        assert(items.take(k + 1).drop_last() =~= items.take(k));
        lemma_projection_prefix_none(items, schema, k + 1);
    } else {
        assert(items.take(k) =~= items);
    }
}

proof fn lemma_aggregates_prefix_none(items: Seq<SqlSelectItem>, schema: TableSchema, k: int)
    requires
        0 <= k <= items.len(),
        collect_aggregates_spec(items.take(k), schema) is None,
    ensures
        collect_aggregates_spec(items, schema) is None,
    decreases items.len() - k,
{
    if k < items.len() {
        assert(items.take(k + 1).drop_last() =~= items.take(k));
        lemma_aggregates_prefix_none(items, schema, k + 1);
    } else {
        assert(items.take(k) =~= items);
    }
}

fn lower_exprs(es: &Vec<SqlExpr>, schema: &TableSchema) -> (r: Result<Vec<LogicalExpr>, String>)
    ensures
        match r {
            Ok(v) => lower_exprs_spec(es@, *schema) == Some(v@),
            Err(_) => lower_exprs_spec(es@, *schema) is None,
        },
{
    let mut out: Vec<LogicalExpr> = Vec::new();
    let mut i: usize = 0;
    proof {
        assert(es@.take(0) =~= Seq::<SqlExpr>::empty());
    }
    while i < es.len()
        invariant
            i <= es@.len(),
            lower_exprs_spec(es@.take(i as int), *schema) == Some(out@),
        decreases es@.len() - i,
    {
        proof {
            assert(es@.take(i + 1).drop_last() =~= es@.take(i as int));
        }
        match lower_expr(&es[i], schema) {
            Ok(x) => out.push(x),
            Err(m) => {
                proof {
                    lemma_exprs_prefix_none(es@, *schema, i + 1);
                }
                return Err(m);
            },
        }
        i = i + 1;
    }
    proof {
        assert(es@.take(es@.len() as int) =~= es@);
    }
    Ok(out)
}

/// The SELECT list as expressions; `*` expands to every column of the table.
pub fn lower_projection(items: &Vec<SqlSelectItem>, schema: &TableSchema) -> (r: Result<Vec<LogicalExpr>, String>)
    ensures
        match r {
            Ok(v) => lower_projection_spec(items@, *schema) == Some(v@),
            Err(_) => lower_projection_spec(items@, *schema) is None,
        },
{
    let mut out: Vec<LogicalExpr> = Vec::new();
    let mut i: usize = 0;
    proof {
        assert(items@.take(0) =~= Seq::<SqlSelectItem>::empty());
    }
    while i < items.len()
        invariant
            i <= items@.len(),
            lower_projection_spec(items@.take(i as int), *schema) == Some(out@),
        decreases items@.len() - i,
    {
        proof {
            assert(items@.take(i + 1).drop_last() =~= items@.take(i as int));
        }
        let ghost before = out@;
        match &items[i] {
            SqlSelectItem::Wildcard => {
                let n = schema.columns.len();
                let mut j: usize = 0;
                while j < n
                    invariant
                        n == schema.columns@.len(),
                        j <= n,
                        out@ == before + star_columns(*schema).take(j as int),
                    decreases n - j,
                {
                    out.push(LogicalExpr::Column(schema.name.clone(), schema.columns[j].name.clone()));
                    j = j + 1;
                    proof {
                        assert(out@ =~= before + star_columns(*schema).take(j as int));
                    }
                }
                proof {
                    assert(star_columns(*schema).take(n as int) =~= star_columns(*schema));
                }
            },
            SqlSelectItem::UnnamedExpr(e) | SqlSelectItem::ExprWithAlias(e) => {
                match lower_expr(e, schema) {
                    Ok(x) => {
                        out.push(x);
                        proof {
                            assert(out@ =~= before + seq![x]);
                        }
                    },
                    Err(m) => {
                        proof {
                            lemma_projection_prefix_none(items@, *schema, i + 1);
                        }
                        return Err(m);
                    },
                }
            },
            SqlSelectItem::Other(..) => {
                proof {
                    lemma_projection_prefix_none(items@, *schema, i + 1);
                }
                return Err(err("unsupported SELECT item"));
            },
        }
        i = i + 1;
    }
    proof {
        assert(items@.take(items@.len() as int) =~= items@);
    }
    Ok(out)
}

pub fn lower_group_by(g: &SqlGroupBy, schema: &TableSchema) -> (r: Result<Vec<LogicalExpr>, String>)
    ensures
        match r {
            Ok(v) => lower_group_by_spec(*g, *schema) == Some(v@),
            Err(_) => lower_group_by_spec(*g, *schema) is None,
        },
{
    match g {
        SqlGroupBy::Expressions(es) => lower_exprs(es, schema),
        SqlGroupBy::All(_) => Err(err("Unsupported GROUP BY form")),
    }
}

pub fn lower_limit(c: &SqlLimitClause) -> (r: Result<u64, String>)
    ensures
        match r {
            Ok(n) => lower_limit_spec(*c) == Some(n),
            Err(_) => lower_limit_spec(*c) is None,
        },
{
    match c {
        SqlLimitClause::LimitOffset(Some(SqlExpr::Value(v))) => {
            if let SqlValue::Number { text, .. } = v {
                match parse_u64(text.as_str()) {
                    Some(n) => Ok(n),
                    None => Err(err("invalid LIMIT value")),
                }
            } else {
                Err(err("LIMIT must be a number"))
            }
        },
        _ => Err(err("unsupported LIMIT clause")),
    }
}

/// The aggregate calls of the SELECT list.
pub fn collect_aggregates(items: &Vec<SqlSelectItem>, schema: &TableSchema) -> (r: Result<Vec<LogicalExpr>, String>)
    ensures
        match r {
            Ok(v) => collect_aggregates_spec(items@, *schema) == Some(v@),
            Err(_) => collect_aggregates_spec(items@, *schema) is None,
        },
{
    let mut out: Vec<LogicalExpr> = Vec::new();
    let mut i: usize = 0;
    proof {
        assert(items@.take(0) =~= Seq::<SqlSelectItem>::empty());
    }
    while i < items.len()
        invariant
            i <= items@.len(),
            collect_aggregates_spec(items@.take(i as int), *schema) == Some(out@),
        decreases items@.len() - i,
    {
        proof {
            assert(items@.take(i + 1).drop_last() =~= items@.take(i as int));
        }
        let e = match &items[i] {
            SqlSelectItem::UnnamedExpr(e) => Some(e),
            SqlSelectItem::ExprWithAlias(e) => Some(e),
            _ => None,
        };
        if let Some(e) = e {
            if let SqlExpr::Function(_) = e {
                match lower_expr(e, schema) {
                    Ok(x) => out.push(x),
                    Err(m) => {
                        proof {
                            lemma_aggregates_prefix_none(items@, *schema, i + 1);
                        }
                        return Err(m);
                    },
                }
            }
        }
        i = i + 1;
    }
    proof {
        assert(items@.take(items@.len() as int) =~= items@);
    }
    Ok(out)
}

/// The plan of a query, built bottom-up: Scan, then Filter for a WHERE
/// clause, Aggregate when there are GROUP BY keys or aggregate calls, Project,
/// and Limit for a LIMIT clause.
pub open spec fn lower_query_spec(q: SqlQuery, schema: TableSchema) -> Option<PlanView> {
    match q.body {
        SqlSetExpr::Select(select) => {
            let scan = PlanView::Scan { table: schema.name };
            let filtered = match select.selection {
                None => Some(scan),
                Some(p) => match lower_expr_spec(p, schema) {
                    None => None,
                    Some(pred) => Some(PlanView::Filter { predicate: pred, input: Box::new(scan) }),
                },
            };
            match filtered {
                None => None,
                Some(plan1) => match lower_group_by_spec(select.group_by, schema) {
                    None => None,
                    Some(gb) => match collect_aggregates_spec(select.projection@, schema) {
                        None => None,
                        Some(aggs) => {
                            let plan2 = if gb.len() > 0 || aggs.len() > 0 {
                                PlanView::Aggregate {
                                    group_by: gb,
                                    aggregates: aggs,
                                    input: Box::new(plan1),
                                }
                            } else {
                                plan1
                            };
                            match lower_projection_spec(select.projection@, schema) {
                                None => None,
                                Some(projs) => {
                                    let plan3 = PlanView::Project {
                                        projections: projs,
                                        input: Box::new(plan2),
                                    };
                                    match q.limit_clause {
                                        None => Some(plan3),
                                        Some(c) => match lower_limit_spec(c) {
                                            None => None,
                                            Some(n) => Some(PlanView::Limit { limit: n, input: Box::new(plan3) }),
                                        },
                                    }
                                },
                            }
                        },
                    },
                },
            }
        },
        _ => None,
    }
}

pub fn lower_query(q: &SqlQuery, schema: &TableSchema) -> (r: Result<LogicalPlan, String>)
    ensures
        match r {
            Ok(p) => lower_query_spec(*q, *schema) == Some(p.view()),
            Err(_) => lower_query_spec(*q, *schema) is None,
        },
{
    let select = match &q.body {
        SqlSetExpr::Select(s) => s,
        _ => return Err(err("Only SELECT is supported")),
    };
    let mut plan = LogicalPlan::Scan { table: schema.name.clone() };
    let ghost mut pv = PlanView::Scan { table: schema.name };
    if let Some(predicate) = &select.selection {
        let predicate = match lower_expr(predicate, schema) {
            Ok(p) => p,
            Err(m) => return Err(m),
        };
        let ghost inner = plan.view();
        plan = LogicalPlan::Filter { predicate, input: Box::new(plan) };
        proof {
            pv = PlanView::Filter { predicate, input: Box::new(pv) };
            assert(plan.view() == PlanView::Filter { predicate, input: Box::new(inner) });
        }
    }
    assert(plan.view() == pv);
    let group_by = match lower_group_by(&select.group_by, schema) {
        Ok(g) => g,
        Err(m) => return Err(m),
    };
    let aggregates = match collect_aggregates(&select.projection, schema) {
        Ok(a) => a,
        Err(m) => return Err(m),
    };
    if group_by.len() > 0 || aggregates.len() > 0 {
        let ghost gv = group_by@;
        let ghost av = aggregates@;
        plan = LogicalPlan::Aggregate { group_by, aggregates, input: Box::new(plan) };
        proof {
            pv = PlanView::Aggregate { group_by: gv, aggregates: av, input: Box::new(pv) };
            assert(plan.view() == pv);
        }
    }
    let projections = match lower_projection(&select.projection, schema) {
        Ok(p) => p,
        Err(m) => return Err(m),
    };
    let ghost prv = projections@;
    plan = LogicalPlan::Project { projections, input: Box::new(plan) };
    proof {
        pv = PlanView::Project { projections: prv, input: Box::new(pv) };
        assert(plan.view() == pv);
    }
    if let Some(limit_expr) = &q.limit_clause {
        let limit = match lower_limit(limit_expr) {
            Ok(n) => n,
            Err(m) => return Err(m),
        };
        plan = LogicalPlan::Limit { limit, input: Box::new(plan) };
        proof {
            pv = PlanView::Limit { limit, input: Box::new(pv) };
            assert(plan.view() == pv);
        }
    }
    Ok(plan)
}

/// Lowers a SELECT statement; other statements are refused.
pub fn lower(stmt: &SqlStatement, schema: &TableSchema) -> (r: Result<LogicalPlan, String>)
    ensures
        match stmt {
            SqlStatement::Query(q) => match r {
                Ok(p) => lower_query_spec(**q, *schema) == Some(p.view()),
                Err(_) => lower_query_spec(**q, *schema) is None,
            },
            _ => r is Err,
        },
{
    match stmt {
        SqlStatement::Query(q) => lower_query(q, schema),
        _ => Err(err("only SELECT is supported in the lowerer")),
    }
}

} // verus!
