//! Lowers the SQL syntax tree into tinyOLAP's statements. Only `INSERT INTO ...
//! VALUES` and plain `SELECT` are lowered; everything else is refused as
//! unsupported.
use vstd::prelude::*;
use vstd::string::*;

use crate::frontend::sql::{
    SqlBinaryOp, SqlExpr, SqlFunctionArg, SqlFunctionArguments, SqlGroupBy, SqlInsert, SqlQuery,
    SqlSelectItem, SqlSetExpr, SqlStatement, SqlTableFactor, SqlUnaryOp, SqlValue,
};
use crate::parser::ast::{
    AggFunc, CmpOp, ErrorKind, InsertStmt, Literal, ParseError, Predicate, Projection, SelectExpr,
    SelectStmt, Statement, same_outcome,
};
use crate::logical_plan::lower::lower_binary_op_spec;
use crate::logical_plan::optimizer::compare_ints;
use crate::processors::zone_map_scan::cmp_holds;
use crate::text::{lower_char, lowercase_eq, parse_i64, parse_int_spec, parse_u64};

verus! {

/// Two's complement negation of a 64-bit value, wrapping `i64::MIN` to itself.
pub open spec fn wrapping_neg_i64(i: int) -> int {
    if i == i64::MIN {
        i
    } else {
        -i
    }
}

/// The signed reading of a `u64` (`u as i64`).
pub open spec fn u64_as_i64(u: int) -> int {
    if u > i64::MAX {
        u - 0x1_0000_0000_0000_0000
    } else {
        u
    }
}

/// IEEE-754 negation of a binary64 bit pattern: the sign bit flips.
pub open spec fn neg_f64_bits(b: int) -> int {
    if b >= 0x8000_0000_0000_0000 {
        b - 0x8000_0000_0000_0000
    } else {
        b + 0x8000_0000_0000_0000
    }
}

pub open spec fn lower_value_spec(v: SqlValue) -> Result<Literal, ErrorKind> {
    match v {
        SqlValue::Number { text, float_bits } => match parse_int_spec(text@, true, i64::MIN as int, i64::MAX as int) {
            Some(i) => Ok(Literal::Int(i as i64)),
            None => match parse_int_spec(text@, false, 0, u64::MAX as int) {
                Some(u) => Ok(Literal::UInt(u as u64)),
                None => match float_bits {
                    Some(b) => Ok(Literal::Float(b)),
                    None => Err(ErrorKind::Syntax),
                },
            },
        },
        SqlValue::SingleQuotedString(s) => Ok(Literal::Str(s)),
        SqlValue::Boolean(b) => Ok(Literal::Bool(b)),
        SqlValue::Null => Ok(Literal::Null),
        SqlValue::Other(_) => Err(ErrorKind::Unsupported),
    }
}

/// A value in a `VALUES` row: a literal, or a unary minus applied to one.
pub open spec fn lower_expr_spec(e: SqlExpr) -> Result<Literal, ErrorKind>
    decreases e,
{
    match e {
        SqlExpr::Value(v) => lower_value_spec(v),
        SqlExpr::UnaryOp { op: SqlUnaryOp::Minus, expr } => match lower_expr_spec(*expr) {
            Ok(Literal::Int(i)) => Ok(Literal::Int(wrapping_neg_i64(i as int) as i64)),
            Ok(Literal::Float(f)) => Ok(Literal::Float(neg_f64_bits(f as int) as u64)),
            Ok(Literal::UInt(u)) => Ok(Literal::Int(wrapping_neg_i64(u64_as_i64(u as int)) as i64)),
            Ok(_) => Err(ErrorKind::Unsupported),
            Err(k) => Err(k),
        },
        _ => Err(ErrorKind::Unsupported),
    }
}

pub open spec fn lower_cmpop_spec(op: SqlBinaryOp) -> Result<CmpOp, ErrorKind> {
    match op {
        SqlBinaryOp::Eq => Ok(CmpOp::Eq),
        SqlBinaryOp::NotEq => Ok(CmpOp::Ne),
        SqlBinaryOp::Lt => Ok(CmpOp::Lt),
        SqlBinaryOp::LtEq => Ok(CmpOp::Le),
        SqlBinaryOp::Gt => Ok(CmpOp::Gt),
        SqlBinaryOp::GtEq => Ok(CmpOp::Ge),
        _ => Err(ErrorKind::Unsupported),
    }
}

/// The two lowerings of a SQL comparison agree: the operator of the
/// statement tree and the operator of the logical plan decide every pair of
/// integers alike; both lowerings keep different operators apart.
pub proof fn lemma_comparison_lowerings_agree(op: SqlBinaryOp, op2: SqlBinaryOp, a: int, b: int)
    ensures
        lower_cmpop_spec(op) matches Ok(c) ==> lower_binary_op_spec(op) matches Some(l) && compare_ints(a, l, b)
            == cmp_holds(a, c, b),
        lower_cmpop_spec(op) is Ok && lower_cmpop_spec(op) == lower_cmpop_spec(op2) ==> op == op2,
        lower_binary_op_spec(op) is Some && lower_binary_op_spec(op) == lower_binary_op_spec(op2) ==> op == op2,
{
}

pub open spec fn lower_predicate_spec(e: SqlExpr) -> Result<Predicate, ErrorKind>
    decreases e,
{
    match e {
        SqlExpr::BinaryOp { left, op: SqlBinaryOp::And, right } => match lower_predicate_spec(*left) {
            Ok(l) => match lower_predicate_spec(*right) {
                Ok(r) => Ok(Predicate::And(Box::new(l), Box::new(r))),
                Err(k) => Err(k),
            },
            Err(k) => Err(k),
        },
        SqlExpr::BinaryOp { left, op: SqlBinaryOp::Or, right } => match lower_predicate_spec(*left) {
            Ok(l) => match lower_predicate_spec(*right) {
                Ok(r) => Ok(Predicate::Or(Box::new(l), Box::new(r))),
                Err(k) => Err(k),
            },
            Err(k) => Err(k),
        },
        SqlExpr::UnaryOp { op: SqlUnaryOp::Not, expr } => match lower_predicate_spec(*expr) {
            Ok(p) => Ok(Predicate::Not(Box::new(p))),
            Err(k) => Err(k),
        },
        SqlExpr::BinaryOp { left, op, right } => match *left {
            SqlExpr::Identifier(col) => match *right {
                SqlExpr::Value(v) => match lower_value_spec(v) {
                    Ok(value) => match lower_cmpop_spec(op) {
                        Ok(cop) => Ok(Predicate::Cmp { col, op: cop, value }),
                        Err(k) => Err(k),
                    },
                    Err(k) => Err(k),
                },
                _ => Err(ErrorKind::Unsupported),
            },
            _ => Err(ErrorKind::Unsupported),
        },
        _ => Err(ErrorKind::Unsupported),
    }
}

/// Case-insensitive aggregate name.
pub open spec fn lower_agg_func_spec(name: Seq<char>) -> Result<AggFunc, ErrorKind> {
    let l = name.map_values(|c: char| lower_char(c));
    if l == seq!['s', 'u', 'm'] {
        Ok(AggFunc::Sum)
    } else if l == seq!['m', 'a', 'x'] {
        Ok(AggFunc::Max)
    } else if l == seq!['m', 'i', 'n'] {
        Ok(AggFunc::Min)
    } else if l == seq!['c', 'o', 'u', 'n', 't'] {
        Ok(AggFunc::Count)
    } else if l == seq!['a', 'v', 'g'] {
        Ok(AggFunc::Avg)
    } else {
        Err(ErrorKind::Unsupported)
    }
}

/// The column an aggregate reads: `*`, or a bare column name as first argument.
pub open spec fn agg_arg_column(args: SqlFunctionArguments) -> Option<Seq<char>> {
    match args {
        SqlFunctionArguments::List(list) => if list@.len() == 0 {
            None
        } else {
            match list@[0] {
                SqlFunctionArg::Wildcard => Some(seq!['*']),
                SqlFunctionArg::Expr(SqlExpr::Identifier(id)) => Some(id@),
                _ => None,
            }
        },
        SqlFunctionArguments::Other(..) => None,
    }
}

/// One projection item, by views: a column, or an aggregate with its column.
pub open spec fn lower_select_item_spec(item: SqlSelectItem) -> Result<SelectExprView, ErrorKind> {
    match item {
        SqlSelectItem::UnnamedExpr(SqlExpr::Identifier(id)) => Ok(SelectExprView::Col(id@)),
        SqlSelectItem::UnnamedExpr(SqlExpr::Function(f)) => match lower_agg_func_spec(f.name@) {
            Ok(func) => match agg_arg_column(f.args) {
                Some(col) => Ok(SelectExprView::Agg { func, col }),
                None => Err(ErrorKind::Unsupported),
            },
            Err(k) => Err(k),
        },
        _ => Err(ErrorKind::Unsupported),
    }
}

/// A projection item with its names as character sequences.
pub enum SelectExprView {
    Col(Seq<char>),
    Agg { func: AggFunc, col: Seq<char> },
}

impl SelectExpr {
    pub open spec fn view(&self) -> SelectExprView {
        match self {
            SelectExpr::Col(c) => SelectExprView::Col(c@),
            SelectExpr::Agg { func, col } => SelectExprView::Agg { func: *func, col: col@ },
        }
    }
}

/// Lowers the items left to right; the first failure wins.
pub open spec fn lower_items_spec(items: Seq<SqlSelectItem>) -> Result<Seq<SelectExprView>, ErrorKind>
    decreases items.len(),
{
    if items.len() == 0 {
        Ok(Seq::empty())
    } else {
        match lower_items_spec(items.drop_last()) {
            Ok(prefix) => match lower_select_item_spec(items.last()) {
                Ok(x) => Ok(prefix.push(x)),
                Err(k) => Err(k),
            },
            Err(k) => Err(k),
        }
    }
}

pub open spec fn lower_group_by_spec(g: SqlGroupBy) -> Result<Seq<Seq<char>>, ErrorKind> {
    match g {
        SqlGroupBy::Expressions(exprs) => if forall|i: int|
            0 <= i < exprs@.len() ==> #[trigger] exprs@[i] is Identifier {
            Ok(Seq::new(exprs@.len(), |i: int| exprs@[i]->Identifier_0@))
        } else {
            Err(ErrorKind::Unsupported)
        },
        SqlGroupBy::All(_) => Err(ErrorKind::Unsupported),
    }
}

/// A `VALUES` row lowered element by element; the first failure wins.
pub open spec fn lower_row_spec(row: Seq<SqlExpr>) -> Result<Seq<Literal>, ErrorKind>
    decreases row.len(),
{
    if row.len() == 0 {
        Ok(Seq::empty())
    } else {
        match lower_row_spec(row.drop_last()) {
            Ok(prefix) => match lower_expr_spec(row.last()) {
                Ok(x) => Ok(prefix.push(x)),
                Err(k) => Err(k),
            },
            Err(k) => Err(k),
        }
    }
}

/// All rows lowered, row by row; the first failure wins.
pub open spec fn lower_rows_spec(rows: Seq<Vec<SqlExpr>>) -> Result<Seq<Seq<Literal>>, ErrorKind>
    decreases rows.len(),
{
    if rows.len() == 0 {
        Ok(Seq::empty())
    } else {
        match lower_rows_spec(rows.drop_last()) {
            Ok(prefix) => match lower_row_spec(rows.last()@) {
                Ok(x) => Ok(prefix.push(x)),
                Err(k) => Err(k),
            },
            Err(k) => Err(k),
        }
    }
}

/// Mixing bare columns with aggregates needs a GROUP BY that lists every bare column.
pub open spec fn projection_mix_ok(exprs: Seq<SelectExprView>, group_by: Seq<Seq<char>>) -> bool {
    let has_col = exists|i: int| 0 <= i < exprs.len() && #[trigger] exprs[i] is Col;
    let has_agg = exists|i: int| 0 <= i < exprs.len() && #[trigger] exprs[i] is Agg;
    has_col && has_agg ==> group_by.len() > 0 && forall|i: int|
        0 <= i < exprs.len() && #[trigger] exprs[i] is Col ==> group_by.contains(exprs[i]->Col_0)
}

fn unsupported(msg: &str) -> (r: ParseError)
    ensures
        r.kind() == ErrorKind::Unsupported,
        r matches ParseError::Unsupported(m) && m@ == msg@,
{
    ParseError::Unsupported(String::from_str(msg))
}

fn unsupported_named(msg: &str, name: &String) -> (r: ParseError)
    ensures
        r.kind() == ErrorKind::Unsupported,
        r matches ParseError::Unsupported(m) && m@ == msg@ + name@,
{
    let mut s = String::from_str(msg);
    s.append(name.as_str());
    ParseError::Unsupported(s)
}

pub fn lower_value(v: &SqlValue) -> (r: Result<Literal, ParseError>)
    ensures
        same_outcome(r, lower_value_spec(*v)),
{
    match v {
        SqlValue::Number { text, float_bits } => {
            if let Some(i) = parse_i64(text.as_str()) {
                Ok(Literal::Int(i))
            } else if let Some(u) = parse_u64(text.as_str()) {
                Ok(Literal::UInt(u))
            } else if let Some(b) = float_bits {
                Ok(Literal::Float(*b))
            } else {
                Err(ParseError::Syntax(String::from_str(text.as_str())))
            }
        },
        SqlValue::SingleQuotedString(s) => Ok(Literal::Str(s.clone())),
        SqlValue::Boolean(b) => Ok(Literal::Bool(*b)),
        SqlValue::Null => Ok(Literal::Null),
        SqlValue::Other(t) => Err(unsupported_named("literal: ", t)),
    }
}

fn neg_bits(f: u64) -> (r: u64)
    ensures
        r as int == neg_f64_bits(f as int),
{
    if f >= 0x8000_0000_0000_0000u64 {
        f - 0x8000_0000_0000_0000u64
    } else {
        f + 0x8000_0000_0000_0000u64
    }
}

fn wrapping_neg(i: i64) -> (r: i64)
    ensures
        r as int == wrapping_neg_i64(i as int),
{
    if i == i64::MIN {
        i
    } else {
        -i
    }
}

fn u64_to_i64(u: u64) -> (r: i64)
    ensures
        r as int == u64_as_i64(u as int),
{
    if u > 0x7fff_ffff_ffff_ffffu64 {
        (u as i128 - 0x1_0000_0000_0000_0000i128) as i64
    } else {
        u as i64
    }
}

/// One value of a `VALUES` row. Negation wraps, as release builds do.
pub fn lower_expr(e: &SqlExpr) -> (r: Result<Literal, ParseError>)
    ensures
        same_outcome(r, lower_expr_spec(*e)),
    decreases e,
{
    match e {
        SqlExpr::Value(v) => lower_value(v),
        SqlExpr::UnaryOp { op: SqlUnaryOp::Minus, expr } => match lower_expr(expr) {
            Ok(Literal::Int(i)) => Ok(Literal::Int(wrapping_neg(i))),
            Ok(Literal::Float(f)) => Ok(Literal::Float(neg_bits(f))),
            Ok(Literal::UInt(u)) => Ok(Literal::Int(wrapping_neg(u64_to_i64(u)))),
            Ok(_) => Err(unsupported("unary minus on non-numeric")),
            Err(e) => Err(e),
        },
        SqlExpr::UnaryOp { .. } => Err(unsupported("expr in VALUES")),
        _ => Err(unsupported("expr in VALUES")),
    }
}

pub fn lower_cmpop(op: SqlBinaryOp) -> (r: Result<CmpOp, ParseError>)
    ensures
        same_outcome(r, lower_cmpop_spec(op)),
{
    match op {
        SqlBinaryOp::Eq => Ok(CmpOp::Eq),
        SqlBinaryOp::NotEq => Ok(CmpOp::Ne),
        SqlBinaryOp::Lt => Ok(CmpOp::Lt),
        SqlBinaryOp::LtEq => Ok(CmpOp::Le),
        SqlBinaryOp::Gt => Ok(CmpOp::Gt),
        SqlBinaryOp::GtEq => Ok(CmpOp::Ge),
        _ => Err(unsupported("comparison op")),
    }
}

/// A WHERE clause: AND / OR / NOT over `column op literal` comparisons.
pub fn lower_predicate(e: &SqlExpr) -> (r: Result<Predicate, ParseError>)
    ensures
        same_outcome(r, lower_predicate_spec(*e)),
    decreases e,
{
    match e {
        SqlExpr::BinaryOp { left, op, right } => {
            if *op == SqlBinaryOp::And || *op == SqlBinaryOp::Or {
                let l = match lower_predicate(left) {
                    Ok(p) => p,
                    Err(err) => return Err(err),
                };
                let r = match lower_predicate(right) {
                    Ok(p) => p,
                    Err(err) => return Err(err),
                };
                if *op == SqlBinaryOp::And {
                    Ok(Predicate::And(Box::new(l), Box::new(r)))
                } else {
                    Ok(Predicate::Or(Box::new(l), Box::new(r)))
                }
            } else {
                let col = match &**left {
                    SqlExpr::Identifier(id) => id.clone(),
                    _ => return Err(unsupported("LHS must be a column name")),
                };
                let value = match &**right {
                    SqlExpr::Value(v) => match lower_value(v) {
                        Ok(x) => x,
                        Err(err) => return Err(err),
                    },
                    _ => return Err(unsupported("RHS must be a literal")),
                };
                match lower_cmpop(*op) {
                    Ok(cop) => Ok(Predicate::Cmp { col, op: cop, value }),
                    Err(err) => Err(err),
                }
            }
        },
        SqlExpr::UnaryOp { op: SqlUnaryOp::Not, expr } => match lower_predicate(expr) {
            Ok(p) => Ok(Predicate::Not(Box::new(p))),
            Err(err) => Err(err),
        },
        _ => Err(unsupported("unsupported predicate")),
    }
}

/// Case-insensitive aggregate function name.
pub fn lower_agg_func(name: &str) -> (r: Result<AggFunc, ParseError>)
    ensures
        same_outcome(r, lower_agg_func_spec(name@)),
{
    proof {
        reveal_strlit("sum");
        reveal_strlit("max");
        reveal_strlit("min");
        reveal_strlit("count");
        reveal_strlit("avg");
        assert("sum"@ =~= seq!['s', 'u', 'm']);
        assert("max"@ =~= seq!['m', 'a', 'x']);
        assert("min"@ =~= seq!['m', 'i', 'n']);
        assert("count"@ =~= seq!['c', 'o', 'u', 'n', 't']);
        assert("avg"@ =~= seq!['a', 'v', 'g']);
    }
    if lowercase_eq(name, "sum") {
        Ok(AggFunc::Sum)
    } else if lowercase_eq(name, "max") {
        Ok(AggFunc::Max)
    } else if lowercase_eq(name, "min") {
        Ok(AggFunc::Min)
    } else if lowercase_eq(name, "count") {
        Ok(AggFunc::Count)
    } else if lowercase_eq(name, "avg") {
        Ok(AggFunc::Avg)
    } else {
        Err(unsupported_named("unknown aggregate function: ", &String::from_str(name)))
    }
}

fn lower_select_item(item: &SqlSelectItem) -> (r: Result<SelectExpr, ParseError>)
    ensures
        match (r, lower_select_item_spec(*item)) {
            (Ok(a), Ok(b)) => a.view() == b,
            (Err(e), Err(k)) => e.kind() == k,
            _ => false,
        },
{
    match item {
        SqlSelectItem::UnnamedExpr(SqlExpr::Identifier(id)) => Ok(SelectExpr::Col(id.clone())),
        SqlSelectItem::UnnamedExpr(SqlExpr::Function(f)) => {
            let func = match lower_agg_func(f.name.as_str()) {
                Ok(x) => x,
                Err(e) => return Err(e),
            };
            match &f.args {
                SqlFunctionArguments::List(list) => {
                    if list.len() == 0 {
                        return Err(unsupported("unsupported function argument"));
                    }
                    match &list[0] {
                        SqlFunctionArg::Wildcard => {
                            proof {
                                reveal_strlit("*");
                                assert("*"@ =~= seq!['*']);
                            }
                            Ok(SelectExpr::Agg { func, col: String::from_str("*") })
                        },
                        SqlFunctionArg::Expr(SqlExpr::Identifier(id)) => Ok(
                            SelectExpr::Agg { func, col: id.clone() },
                        ),
                        _ => Err(unsupported("unsupported function argument")),
                    }
                },
                SqlFunctionArguments::Other(..) => Err(unsupported("unsupported function args form")),
            }
        },
        _ => Err(unsupported("unsupported projection item")),
    }
}

pub open spec fn views_of(v: Seq<SelectExpr>) -> Seq<SelectExprView> {
    v.map_values(|x: SelectExpr| x.view())
}

/// A projection list where every item is a column or an aggregate of a column.
pub fn lower_projection(items: &Vec<SqlSelectItem>) -> (r: Result<Projection, ParseError>)
    ensures
        match (r, lower_items_spec(items@)) {
            (Ok(Projection::Exprs(v)), Ok(b)) => views_of(v@) == b,
            (Err(e), Err(k)) => e.kind() == k,
            _ => false,
        },
{
    let n = items.len();
    let mut out: Vec<SelectExpr> = Vec::new();
    let mut i: usize = 0;
    proof {
        assert(items@.take(0) =~= Seq::<SqlSelectItem>::empty());
        assert(views_of(out@) =~= Seq::<SelectExprView>::empty());
    }
    while i < n
        invariant
            n == items@.len(),
            i <= n,
            lower_items_spec(items@.take(i as int)) == Ok::<Seq<SelectExprView>, ErrorKind>(views_of(out@)),
        decreases n - i,
    {
        proof {
            assert(items@.take(i + 1).drop_last() =~= items@.take(i as int));
        }
        match lower_select_item(&items[i]) {
            Ok(x) => {
                let ghost before = out@;
                let ghost xv = x.view();
                out.push(x);
                proof {
                    assert(views_of(out@) =~= views_of(before).push(xv));
                }
            },
            Err(e) => {
                proof {
                    lemma_items_prefix_err(items@, i as int + 1);
                }
                return Err(e);
            },
        }
        i = i + 1;
    }
    proof {
        assert(items@.take(n as int) =~= items@);
    }
    Ok(Projection::Exprs(out))
}

/// A failure within a prefix is the failure of the whole list.
pub proof fn lemma_items_prefix_err(items: Seq<SqlSelectItem>, k: int)
    requires
        0 <= k <= items.len(),
        lower_items_spec(items.take(k)) is Err,
    ensures
        lower_items_spec(items) == lower_items_spec(items.take(k)),
    decreases items.len() - k,
{
    if k < items.len() {
        assert(items.take(k + 1).drop_last() =~= items.take(k));
        lemma_items_prefix_err(items, k + 1);
    } else {
        assert(items.take(k) =~= items);
    }
}

pub proof fn lemma_row_prefix_err(row: Seq<SqlExpr>, k: int)
    requires
        0 <= k <= row.len(),
        lower_row_spec(row.take(k)) is Err,
    ensures
        lower_row_spec(row) == lower_row_spec(row.take(k)),
    decreases row.len() - k,
{
    if k < row.len() {
        assert(row.take(k + 1).drop_last() =~= row.take(k));
        lemma_row_prefix_err(row, k + 1);
    } else {
        assert(row.take(k) =~= row);
    }
}

pub proof fn lemma_rows_prefix_err(rows: Seq<Vec<SqlExpr>>, k: int)
    requires
        0 <= k <= rows.len(),
        lower_rows_spec(rows.take(k)) is Err,
    ensures
        lower_rows_spec(rows) == lower_rows_spec(rows.take(k)),
    decreases rows.len() - k,
{
    if k < rows.len() {
        assert(rows.take(k + 1).drop_last() =~= rows.take(k));
        lemma_rows_prefix_err(rows, k + 1);
    } else {
        assert(rows.take(k) =~= rows);
    }
}

fn lower_row(row: &Vec<SqlExpr>) -> (r: Result<Vec<Literal>, ParseError>)
    ensures
        match (r, lower_row_spec(row@)) {
            (Ok(v), Ok(s)) => v@ == s,
            (Err(e), Err(k)) => e.kind() == k,
            _ => false,
        },
{
    let n = row.len();
    let mut out: Vec<Literal> = Vec::new();
    let mut i: usize = 0;
    proof {
        assert(row@.take(0) =~= Seq::<SqlExpr>::empty());
    }
    while i < n
        invariant
            n == row@.len(),
            i <= n,
            lower_row_spec(row@.take(i as int)) == Ok::<Seq<Literal>, ErrorKind>(out@),
        decreases n - i,
    {
        proof {
            assert(row@.take(i + 1).drop_last() =~= row@.take(i as int));
        }
        match lower_expr(&row[i]) {
            Ok(x) => {
                out.push(x);
            },
            Err(e) => {
                proof {
                    lemma_row_prefix_err(row@, i as int + 1);
                }
                return Err(e);
            },
        }
        i = i + 1;
    }
    proof {
        assert(row@.take(n as int) =~= row@);
    }
    Ok(out)
}

pub open spec fn rows_view(rows: Seq<Vec<Literal>>) -> Seq<Seq<Literal>> {
    rows.map_values(|r: Vec<Literal>| r@)
}

fn lower_rows(rows: &Vec<Vec<SqlExpr>>) -> (r: Result<Vec<Vec<Literal>>, ParseError>)
    ensures
        match (r, lower_rows_spec(rows@)) {
            (Ok(v), Ok(s)) => rows_view(v@) == s,
            (Err(e), Err(k)) => e.kind() == k,
            _ => false,
        },
{
    let n = rows.len();
    let mut out: Vec<Vec<Literal>> = Vec::new();
    let mut i: usize = 0;
    proof {
        assert(rows@.take(0) =~= Seq::<Vec<SqlExpr>>::empty());
        assert(rows_view(out@) =~= Seq::<Seq<Literal>>::empty());
    }
    while i < n
        invariant
            n == rows@.len(),
            i <= n,
            lower_rows_spec(rows@.take(i as int)) == Ok::<Seq<Seq<Literal>>, ErrorKind>(rows_view(out@)),
        decreases n - i,
    {
        proof {
            assert(rows@.take(i + 1).drop_last() =~= rows@.take(i as int));
        }
        match lower_row(&rows[i]) {
            Ok(x) => {
                let ghost before = out@;
                let ghost xv = x@;
                out.push(x);
                proof {
                    assert(rows_view(out@) =~= rows_view(before).push(xv));
                }
            },
            Err(e) => {
                proof {
                    lemma_rows_prefix_err(rows@, i as int + 1);
                }
                return Err(e);
            },
        }
        i = i + 1;
    }
    proof {
        assert(rows@.take(n as int) =~= rows@);
    }
    Ok(out)
}

/// What an `INSERT` lowers to: its table, its column list (absent when empty)
/// and its `VALUES` rows.
pub open spec fn lower_insert_spec(ins: SqlInsert) -> Result<(Seq<char>, Option<Seq<Seq<char>>>, Seq<Seq<Literal>>), ErrorKind> {
    match ins.source {
        None => Err(ErrorKind::Unsupported),
        Some(q) => match q.body {
            SqlSetExpr::Values(rows) => match lower_rows_spec(rows@) {
                Ok(rs) => Ok(
                    (
                        ins.table@,
                        if ins.columns@.len() == 0 {
                            None
                        } else {
                            Some(ins.columns@.map_values(|c: String| c@))
                        },
                        rs,
                    ),
                ),
                Err(k) => Err(k),
            },
            _ => Err(ErrorKind::Unsupported),
        },
    }
}

pub open spec fn insert_view(s: InsertStmt) -> (Seq<char>, Option<Seq<Seq<char>>>, Seq<Seq<Literal>>) {
    (
        s.table@,
        match s.columns {
            None => None,
            Some(c) => Some(c@.map_values(|x: String| x@)),
        },
        rows_view(s.rows@),
    )
}

fn clone_strings(v: &Vec<String>) -> (r: Vec<String>)
    ensures
        r@ == v@,
{
    let mut out: Vec<String> = Vec::new();
    let mut i: usize = 0;
    while i < v.len()
        invariant
            i <= v@.len(),
            out@ == v@.take(i as int),
        decreases v@.len() - i,
    {
        out.push(v[i].clone());
        i = i + 1;
        proof {
            assert(out@ =~= v@.take(i as int));
        }
    }
    proof {
        assert(v@.take(v@.len() as int) =~= v@);
    }
    out
}

pub fn lower_insert(ins: &SqlInsert) -> (r: Result<InsertStmt, ParseError>)
    ensures
        match (r, lower_insert_spec(*ins)) {
            (Ok(s), Ok(v)) => insert_view(s) == v,
            (Err(e), Err(k)) => e.kind() == k,
            _ => false,
        },
{
    let table = ins.table.clone();
    let columns = if ins.columns.len() == 0 {
        None
    } else {
        Some(clone_strings(&ins.columns))
    };
    let source = match &ins.source {
        Some(q) => q,
        None => return Err(unsupported("INSERT without VALUES")),
    };
    let rows = match &source.body {
        SqlSetExpr::Values(rows) => match lower_rows(rows) {
            Ok(r) => r,
            Err(e) => return Err(e),
        },
        _ => return Err(unsupported("INSERT must use VALUES")),
    };
    let r = InsertStmt { table, columns, rows };
    proof {
        if ins.columns@.len() != 0 {
            assert(ins.columns@.map_values(|c: String| c@) =~= r.columns->0@.map_values(|x: String| x@));
        }
    }
    Ok(r)
}

fn lower_group_by(g: &SqlGroupBy) -> (r: Result<Vec<String>, ParseError>)
    ensures
        match (r, lower_group_by_spec(*g)) {
            (Ok(v), Ok(s)) => v@.map_values(|x: String| x@) == s,
            (Err(e), Err(k)) => e.kind() == k,
            _ => false,
        },
{
    match g {
        SqlGroupBy::Expressions(exprs) => {
            let n = exprs.len();
            let mut out: Vec<String> = Vec::new();
            let mut i: usize = 0;
            while i < n
                invariant
                    n == exprs@.len(),
                    *g == SqlGroupBy::Expressions(*exprs),
                    i <= n,
                    out@.len() == i,
                    forall|j: int| 0 <= j < i ==> #[trigger] exprs@[j] is Identifier,
                    forall|j: int| 0 <= j < i ==> out@[j]@ == #[trigger] exprs@[j]->Identifier_0@,
                decreases n - i,
            {
                match &exprs[i] {
                    SqlExpr::Identifier(id) => {
                        out.push(id.clone());
                    },
                    _ => {
                        proof {
                            assert(!(exprs@[i as int] is Identifier));
                        }
                        return Err(unsupported("GROUP BY only supports column names"));
                    },
                }
                i = i + 1;
            }
            proof {
                assert(out@.map_values(|x: String| x@) =~= Seq::new(
                    exprs@.len(),
                    |i: int| exprs@[i]->Identifier_0@,
                ));
            }
            Ok(out)
        },
        SqlGroupBy::All(_) => Err(unsupported("unsupported GROUP BY form")),
    }
}

/// The table a SELECT reads: the relation of its first FROM item.
pub open spec fn select_table_spec(from: Seq<SqlTableFactor>) -> Result<Seq<char>, ErrorKind> {
    if from.len() == 0 {
        Err(ErrorKind::Unsupported)
    } else {
        match from[0] {
            SqlTableFactor::Table(name) => Ok(name@),
            SqlTableFactor::Other(..) => Err(ErrorKind::Unsupported),
        }
    }
}

/// The projection of a SELECT: a lone `*` is `All`.
pub open spec fn select_projection_spec(items: Seq<SqlSelectItem>) -> Result<Option<Seq<SelectExprView>>, ErrorKind> {
    if items.len() == 1 && items[0] is Wildcard {
        Ok(None)
    } else {
        match lower_items_spec(items) {
            Ok(v) => Ok(Some(v)),
            Err(k) => Err(k),
        }
    }
}

/// A SELECT statement, by views: table, projection (`None` for `*`),
/// WHERE predicate and GROUP BY columns.
pub open spec fn lower_select_spec(q: SqlQuery) -> Result<
    (Seq<char>, Option<Seq<SelectExprView>>, Option<Predicate>, Seq<Seq<char>>),
    ErrorKind,
> {
    match q.body {
        SqlSetExpr::Select(s) => match select_table_spec(s.from@) {
            Err(k) => Err(k),
            Ok(table) => match select_projection_spec(s.projection@) {
                Err(k) => Err(k),
                Ok(proj) => match (match s.selection {
                    None => Ok(None),
                    Some(e) => match lower_predicate_spec(e) {
                        Ok(p) => Ok(Some(p)),
                        Err(k) => Err(k),
                    },
                }) {
                    Err(k) => Err(k),
                    Ok(pred) => match lower_group_by_spec(s.group_by) {
                        Err(k) => Err(k),
                        Ok(gb) => match proj {
                            Some(exprs) => if projection_mix_ok(exprs, gb) {
                                Ok((table, proj, pred, gb))
                            } else {
                                Err(ErrorKind::Unsupported)
                            },
                            None => Ok((table, proj, pred, gb)),
                        },
                    },
                },
            },
        },
        _ => Err(ErrorKind::Unsupported),
    }
}

pub open spec fn select_view(s: SelectStmt) -> (Seq<char>, Option<Seq<SelectExprView>>, Option<Predicate>, Seq<Seq<char>>) {
    (
        s.table@,
        match s.projection {
            Projection::All => None,
            Projection::Exprs(v) => Some(views_of(v@)),
        },
        s.where_clause,
        s.group_by@.map_values(|x: String| x@),
    )
}

/// Does `v` hold a string equal to `name`?
fn contains_name(v: &Vec<String>, name: &String) -> (r: bool)
    ensures
        r == v@.map_values(|x: String| x@).contains(name@),
{
    let mut i: usize = 0;
    while i < v.len()
        invariant
            i <= v@.len(),
            forall|j: int| 0 <= j < i ==> v@[j]@ != name@,
        decreases v@.len() - i,
    {
        if v[i] == *name {
            proof {
                assert(v@.map_values(|x: String| x@)[i as int] == name@);
            }
            return true;
        }
        i = i + 1;
    }
    proof {
        if v@.map_values(|x: String| x@).contains(name@) {
            let m = v@.map_values(|x: String| x@);
            let j = choose|j: int| 0 <= j < m.len() && #[trigger] m[j] == name@;
            assert(v@[j]@ == name@);
        }
    }
    false
}

/// Checks that mixing columns and aggregates comes with a GROUP BY listing every bare column.
fn check_projection_mix(exprs: &Vec<SelectExpr>, group_by: &Vec<String>) -> (r: Result<(), ParseError>)
    ensures
        match r {
            Ok(()) => projection_mix_ok(views_of(exprs@), group_by@.map_values(|x: String| x@)),
            Err(e) => !projection_mix_ok(views_of(exprs@), group_by@.map_values(|x: String| x@)) && e.kind()
                == ErrorKind::Unsupported,
        },
{
    let ghost ev = views_of(exprs@);
    let ghost gv = group_by@.map_values(|x: String| x@);
    let n = exprs.len();
    let mut has_col = false;
    let mut has_agg = false;
    let mut i: usize = 0;
    while i < n
        invariant
            n == exprs@.len(),
            ev == views_of(exprs@),
            i <= n,
            has_col == exists|j: int| 0 <= j < i && #[trigger] ev[j] is Col,
            has_agg == exists|j: int| 0 <= j < i && #[trigger] ev[j] is Agg,
        decreases n - i,
    {
        match &exprs[i] {
            SelectExpr::Col(_) => {
                has_col = true;
                proof { assert(ev[i as int] is Col); }
            },
            SelectExpr::Agg { .. } => {
                has_agg = true;
                proof { assert(ev[i as int] is Agg); }
            },
        }
        i = i + 1;
        proof {
            assert(has_col == exists|j: int| 0 <= j < i && #[trigger] ev[j] is Col) by {
                if exists|j: int| 0 <= j < i && #[trigger] ev[j] is Col {
                    let j = choose|j: int| 0 <= j < i && #[trigger] ev[j] is Col;
                    if j < i - 1 {
                        assert(exists|j: int| 0 <= j < i - 1 && #[trigger] ev[j] is Col);
                    }
                }
            }
            assert(has_agg == exists|j: int| 0 <= j < i && #[trigger] ev[j] is Agg) by {
                if exists|j: int| 0 <= j < i && #[trigger] ev[j] is Agg {
                    let j = choose|j: int| 0 <= j < i && #[trigger] ev[j] is Agg;
                    if j < i - 1 {
                        assert(exists|j: int| 0 <= j < i - 1 && #[trigger] ev[j] is Agg);
                    }
                }
            }
        }
    }
    if has_col && has_agg {
        if group_by.len() == 0 {
            return Err(unsupported("mixing columns and aggregates requires a GROUP BY clause"));
        }
        let mut k: usize = 0;
        while k < n
            invariant
                n == exprs@.len(),
                ev == views_of(exprs@),
                gv == group_by@.map_values(|x: String| x@),
                k <= n,
                exists|j: int| 0 <= j < n && #[trigger] ev[j] is Col,
                exists|j: int| 0 <= j < n && #[trigger] ev[j] is Agg,
                gv.len() > 0,
                forall|j: int| 0 <= j < k && #[trigger] ev[j] is Col ==> gv.contains(ev[j]->Col_0),
            decreases n - k,
        {
            if let SelectExpr::Col(name) = &exprs[k] {
                if !contains_name(group_by, name) {
                    proof {
                        assert(ev[k as int] is Col);
                        assert(ev[k as int]->Col_0 == name@);
                    }
                    return Err(unsupported_named("column must appear in GROUP BY or be an aggregate: ", name));
                }
            }
            k = k + 1;
        }
    }
    Ok(())
}

pub fn lower_select(q: &SqlQuery) -> (r: Result<SelectStmt, ParseError>)
    ensures
        match (r, lower_select_spec(*q)) {
            (Ok(s), Ok(v)) => select_view(s) == v,
            (Err(e), Err(k)) => e.kind() == k,
            _ => false,
        },
{
    let select = match &q.body {
        SqlSetExpr::Select(s) => s,
        _ => return Err(unsupported("only plain SELECT supported")),
    };
    if select.from.len() == 0 {
        return Err(unsupported("SELECT requires a FROM clause"));
    }
    let table = match &select.from[0] {
        SqlTableFactor::Table(name) => name.clone(),
        SqlTableFactor::Other(..) => return Err(unsupported("only simple table references supported")),
    };
    let is_star = select.projection.len() == 1 && match &select.projection[0] {
        SqlSelectItem::Wildcard => true,
        _ => false,
    };
    let projection = if is_star {
        Projection::All
    } else {
        match lower_projection(&select.projection) {
            Ok(p) => p,
            Err(e) => return Err(e),
        }
    };
    let where_clause = match &select.selection {
        None => None,
        Some(e) => match lower_predicate(e) {
            Ok(p) => Some(p),
            Err(err) => return Err(err),
        },
    };
    let group_by = match lower_group_by(&select.group_by) {
        Ok(g) => g,
        Err(e) => return Err(e),
    };
    if let Projection::Exprs(exprs) = &projection {
        match check_projection_mix(exprs, &group_by) {
            Ok(()) => {},
            Err(e) => return Err(e),
        }
    }
    Ok(SelectStmt { table, projection, where_clause, group_by })
}

/// Lowers a statement: `INSERT` and `SELECT` are supported.
pub fn lower(stmt: &SqlStatement) -> (r: Result<Statement, ParseError>)
    ensures
        match stmt {
            SqlStatement::Insert(ins) => match (r, lower_insert_spec(*ins)) {
                (Ok(Statement::Insert(s)), Ok(v)) => insert_view(s) == v,
                (Err(e), Err(k)) => e.kind() == k,
                _ => false,
            },
            SqlStatement::Query(q) => match (r, lower_select_spec(**q)) {
                (Ok(Statement::Select(s)), Ok(v)) => select_view(s) == v,
                (Err(e), Err(k)) => e.kind() == k,
                _ => false,
            },
            SqlStatement::Other(_) => r matches Err(e) && e.kind() == ErrorKind::Unsupported,
        },
{
    match stmt {
        SqlStatement::Insert(ins) => match lower_insert(ins) {
            Ok(s) => Ok(Statement::Insert(s)),
            Err(e) => Err(e),
        },
        SqlStatement::Query(q) => match lower_select(q) {
            Ok(s) => Ok(Statement::Select(s)),
            Err(e) => Err(e),
        },
        SqlStatement::Other(_) => Err(unsupported("statement")),
    }
}

} // verus!
