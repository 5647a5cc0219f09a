//! Evaluating a WHERE predicate on a batch: a boolean mask over its rows.
//!
//! A comparison reads the first column of the batch with its name and
//! compares each row's value with the literal as the filter operator does:
//! integers exactly, floats as IEEE-754 doubles (NaN compares false, except
//! `!=`), an integer against a float as the double nearest to it, strings by
//! code point, booleans with false first.
use vstd::prelude::*;
use vstd::string::*;

use crate::catalog::schema::{find_column_spec, lemma_find_column};
use crate::execution::filter::{
    batch_cols,
    cell_in_range,
    cell_view,
    cells_hold,
    cells_hold_exec,
    chunk_cell,
    chunk_cell_at,
    chunk_kind,
    column_position,
    f32_val,
    f64_val,
    int_as_float,
    kind_of,
    widened,
    Cell,
    CellView,
    Kind,
};
use crate::float_bits::{int_to_f64_spec, is_nan, is_nan32, nat_to_f64_spec};
use crate::parser::ast::{CmpOp, Literal, Predicate};
use crate::physical_plan::physical_operators as phys;
use crate::processors::batch::Batch;
use crate::processors::processor::ExecutionError;
use crate::processors::zone_map_scan::{
    can_skip_spec,
    f64_cmp_holds,
    lemma_can_skip_sound,
    literal_as_f64_spec,
    literal_int_value,
    pred_holds,
    row_within_zone,
    RowValue,
};
use crate::storage::column_chunk::ColumnChunk;
use crate::storage::zone_map::ZoneMap;

verus! {

pub open spec fn as_phys_op(op: CmpOp) -> phys::CmpOp {
    match op {
        CmpOp::Eq => phys::CmpOp::Eq,
        CmpOp::Ne => phys::CmpOp::NotEq,
        CmpOp::Lt => phys::CmpOp::Lt,
        CmpOp::Le => phys::CmpOp::LtEq,
        CmpOp::Gt => phys::CmpOp::Gt,
        CmpOp::Ge => phys::CmpOp::GtEq,
    }
}

/// The value of a literal; `None` for NULL.
pub open spec fn ast_literal_cell(v: Literal) -> Option<CellView> {
    match v {
        Literal::Int(i) => Some(CellView::Int(i as int)),
        Literal::UInt(u) => Some(CellView::Int(u as int)),
        Literal::Float(b) => Some(CellView::Float(f64_val(b))),
        Literal::Str(s) => Some(CellView::Str(s@)),
        Literal::Bool(b) => Some(CellView::Bool(b)),
        Literal::Null => None,
    }
}

/// The comparison `col op value` can be evaluated on the batch: the column
/// exists and the literal is a value of the column's kind.
pub open spec fn leaf_ok(b: Batch, col: Seq<char>, value: Literal) -> bool {
    match (find_column_spec(batch_cols(b), col), ast_literal_cell(value)) {
        (Some(k), Some(l)) => chunk_kind(b.columns@[k]) == kind_of(l),
        _ => false,
    }
}

/// Every comparison of the predicate can be evaluated on the batch.
pub open spec fn eval_ok(p: Predicate, b: Batch) -> bool
    decreases p,
{
    match p {
        Predicate::Cmp { col, op, value } => leaf_ok(b, col@, value),
        Predicate::And(x, y) => eval_ok(*x, b) && eval_ok(*y, b),
        Predicate::Or(x, y) => eval_ok(*x, b) && eval_ok(*y, b),
        Predicate::Not(x) => eval_ok(*x, b),
    }
}

/// The truth of `col op value` on row `i`; false when it cannot be evaluated.
pub open spec fn leaf_truth(b: Batch, i: int, col: Seq<char>, op: CmpOp, value: Literal) -> bool {
    match (find_column_spec(batch_cols(b), col), ast_literal_cell(value)) {
        (Some(k), Some(l)) => cells_hold(chunk_cell(b.columns@[k], i), as_phys_op(op), l),
        _ => false,
    }
}

/// Whether row `i` of the batch satisfies the predicate.
pub open spec fn eval_row(p: Predicate, b: Batch, i: int) -> bool
    decreases p,
{
    match p {
        Predicate::Cmp { col, op, value } => leaf_truth(b, i, col@, op, value),
        Predicate::And(x, y) => eval_row(*x, b, i) && eval_row(*y, b, i),
        Predicate::Or(x, y) => eval_row(*x, b, i) || eval_row(*y, b, i),
        Predicate::Not(x) => !eval_row(*x, b, i),
    }
}

/// A binary32 value as binary64 bits: the widened value, or a quiet NaN.
pub open spec fn f32_bits_as_f64(b: u32) -> u64 {
    if is_nan32(b) {
        0x7ff8_0000_0000_0000u64
    } else {
        widened(b) as u64
    }
}

/// Row `i` of a numeric column as the zone map sees it; `None` for strings
/// and booleans.
pub open spec fn chunk_row_value(c: ColumnChunk, i: int) -> Option<RowValue> {
    match c {
        ColumnChunk::I8(v) => Some(RowValue::Int(v@[i] as int)),
        ColumnChunk::I16(v) => Some(RowValue::Int(v@[i] as int)),
        ColumnChunk::I32(v) => Some(RowValue::Int(v@[i] as int)),
        ColumnChunk::I64(v) => Some(RowValue::Int(v@[i] as int)),
        ColumnChunk::U8(v) => Some(RowValue::Int(v@[i] as int)),
        ColumnChunk::U16(v) => Some(RowValue::Int(v@[i] as int)),
        ColumnChunk::U32(v) => Some(RowValue::Int(v@[i] as int)),
        ColumnChunk::U64(v) => Some(RowValue::Int(v@[i] as int)),
        ColumnChunk::F32(v) => Some(RowValue::Float(f32_bits_as_f64(v@[i]))),
        ColumnChunk::F64(v) => Some(RowValue::Float(v@[i])),
        _ => None,
    }
}

/// Row `i` of the batch: each numeric column's value under its name (the
/// first column of that name).
pub open spec fn row_of(b: Batch, i: int) -> Map<Seq<char>, RowValue> {
    Map::new(
        |n: Seq<char>|
            find_column_spec(batch_cols(b), n) is Some && chunk_row_value(
                b.columns@[find_column_spec(batch_cols(b), n)->0],
                i,
            ) is Some,
        |n: Seq<char>| chunk_row_value(b.columns@[find_column_spec(batch_cols(b), n)->0], i)->0,
    )
}

proof fn lemma_f64_compare(x: u64, op: CmpOp, y: u64)
    ensures
        f64_cmp_holds(x, op, y) == cells_hold(CellView::Float(f64_val(x)), as_phys_op(op), CellView::Float(f64_val(y))),
{
}

proof fn lemma_quiet_nan()
    ensures
        is_nan(0x7ff8_0000_0000_0000u64),
{
}

proof fn lemma_row_float(c: ColumnChunk, i: int, x: u64)
    requires
        chunk_row_value(c, i) == Some(RowValue::Float(x)),
    ensures
        chunk_cell(c, i) == CellView::Float(f64_val(x)),
{
    lemma_quiet_nan();
}

/// The evaluator agrees with the zone-map model of a row: on the numeric
/// comparisons that model covers it gives the same truth, and the others it
/// decides as `leaf_truth` does.
pub proof fn lemma_eval_row_model(p: Predicate, b: Batch, i: int)
    ensures
        eval_row(p, b, i) == pred_holds(p, row_of(b, i), |c: Seq<char>, op: CmpOp, v: Literal| leaf_truth(b, i, c, op, v)),
    decreases p,
{
    let other = |c: Seq<char>, op: CmpOp, v: Literal| leaf_truth(b, i, c, op, v);
    let row = row_of(b, i);
    match p {
        Predicate::Cmp { col, op, value } => {
            if row.contains_key(col@) {
                let k = find_column_spec(batch_cols(b), col@)->0;
                let c = b.columns@[k];
                match (row[col@], literal_int_value(value), literal_as_f64_spec(value)) {
                    (RowValue::Int(x), Some(l), _) => {},
                    (RowValue::Float(x), _, Some(l)) => {
                        lemma_row_float(c, i, x);
                        lemma_f64_compare(x, op, l);
                        match value {
                            Literal::UInt(u) => {
                                assert(int_to_f64_spec(u as int) == nat_to_f64_spec(u as nat));
                            },
                            _ => {},
                        }
                    },
                    _ => {},
                }
            }
        },
        Predicate::And(x, y) => {
            lemma_eval_row_model(*x, b, i);
            lemma_eval_row_model(*y, b, i);
        },
        Predicate::Or(x, y) => {
            lemma_eval_row_model(*x, b, i);
            lemma_eval_row_model(*y, b, i);
        },
        Predicate::Not(x) => {
            lemma_eval_row_model(*x, b, i);
        },
    }
}

/// Zone-map pruning never loses a row the filter keeps: when the zone map of
/// a part lets `can_skip` skip it, no row described by that zone map passes
/// the predicate.
pub proof fn lemma_skipped_rows_fail(zone: ZoneMap, p: Predicate, b: Batch, i: int)
    requires
        can_skip_spec(zone, p),
        row_within_zone(zone, row_of(b, i)),
    ensures
        !eval_row(p, b, i),
{
    lemma_eval_row_model(p, b, i);
    lemma_can_skip_sound(zone, p, row_of(b, i), |c: Seq<char>, op: CmpOp, v: Literal| leaf_truth(b, i, c, op, v));
}

fn as_phys_op_exec(op: CmpOp) -> (r: phys::CmpOp)
    ensures
        r == as_phys_op(op),
{
    match op {
        CmpOp::Eq => phys::CmpOp::Eq,
        CmpOp::Ne => phys::CmpOp::NotEq,
        CmpOp::Lt => phys::CmpOp::Lt,
        CmpOp::Le => phys::CmpOp::LtEq,
        CmpOp::Gt => phys::CmpOp::Gt,
        CmpOp::Ge => phys::CmpOp::GtEq,
    }
}

fn literal_cell_of<'a>(v: &'a Literal) -> (r: Option<Cell<'a>>)
    ensures
        match r {
            Some(c) => ast_literal_cell(*v) == Some(cell_view(c)) && cell_in_range(c),
            None => ast_literal_cell(*v) is None,
        },
{
    match v {
        Literal::Int(i) => Some(Cell::Int(*i as i128)),
        Literal::UInt(u) => Some(Cell::Int(*u as i128)),
        Literal::Float(b) => Some(Cell::Float(*b)),
        Literal::Str(s) => Some(Cell::Str(s.as_str())),
        Literal::Bool(b) => Some(Cell::Bool(*b)),
        Literal::Null => None,
    }
}

fn check(p: &Predicate, b: &Batch) -> (r: Result<(), ExecutionError>)
    requires
        b.wf(),
    ensures
        r is Ok <==> eval_ok(*p, *b),
        r matches Err(e) ==> e is InvalidData,
    decreases p,
{
    match p {
        Predicate::Cmp { col, op, value } => {
            let k = match column_position(b, col) {
                Some(k) => k,
                None => {
                    return Err(ExecutionError::InvalidData(String::from_str("WHERE: unknown column")));
                },
            };
            proof { lemma_find_column(batch_cols(*b), col@); }
            let l = match literal_cell_of(value) {
                Some(l) => l,
                None => {
                    return Err(ExecutionError::InvalidData(String::from_str("WHERE: comparison with NULL")));
                },
            };
            let ck = match &b.columns[k] {
                ColumnChunk::Str(_) => Kind::Str,
                ColumnChunk::Bool(_) => Kind::Bool,
                _ => Kind::Num,
            };
            let lk = match l {
                Cell::Int(_) => Kind::Num,
                Cell::Float(_) => Kind::Num,
                Cell::Str(_) => Kind::Str,
                Cell::Bool(_) => Kind::Bool,
            };
            if ck == lk {
                Ok(())
            } else {
                Err(ExecutionError::InvalidData(String::from_str("WHERE: column compared with a value of another kind")))
            }
        },
        Predicate::And(x, y) => {
            check(x, b)?;
            check(y, b)
        },
        Predicate::Or(x, y) => {
            check(x, b)?;
            check(y, b)
        },
        Predicate::Not(x) => check(x, b),
    }
}

fn eval_row_exec(p: &Predicate, b: &Batch, i: usize) -> (r: bool)
    requires
        b.wf(),
        eval_ok(*p, *b),
        i < b.rows(),
    ensures
        r == eval_row(*p, *b, i as int),
    decreases p,
{
    match p {
        Predicate::Cmp { col, op, value } => {
            let k = column_position(b, col).unwrap();
            proof {
                lemma_find_column(batch_cols(*b), col@);
                assert(b.columns@[k as int].spec_len() == b.columns@[0].spec_len());
            }
            let a = chunk_cell_at(&b.columns[k], i);
            let l = literal_cell_of(value).unwrap();
            cells_hold_exec(&a, as_phys_op_exec(*op), &l)
        },
        Predicate::And(x, y) => eval_row_exec(x, b, i) && eval_row_exec(y, b, i),
        Predicate::Or(x, y) => eval_row_exec(x, b, i) || eval_row_exec(y, b, i),
        Predicate::Not(x) => !eval_row_exec(x, b, i),
    }
}

/// The rows of `b` that satisfy `predicate`, as a mask; an error when a
/// comparison names no column of the batch, compares with NULL, or compares
/// a column with a value of another kind.
pub fn evaluate(predicate: &Predicate, b: &Batch) -> (r: Result<Vec<bool>, ExecutionError>)
    requires
        b.wf(),
    ensures
        match r {
            Ok(m) => eval_ok(*predicate, *b) && m@.len() == b.rows() && forall|i: int|
                0 <= i < b.rows() ==> m@[i] == #[trigger] eval_row(*predicate, *b, i),
            Err(e) => !eval_ok(*predicate, *b) && e is InvalidData,
        },
{
    check(predicate, b)?;
    let n = if b.columns.len() == 0 {
        0
    } else {
        b.columns[0].len()
    };
    let mut m: Vec<bool> = Vec::new();
    let mut i: usize = 0;
    while i < n
        invariant
            b.wf(),
            eval_ok(*predicate, *b),
            n == b.rows(),
            i <= n,
            m@.len() == i,
            forall|k: int| 0 <= k < i ==> m@[k] == #[trigger] eval_row(*predicate, *b, k),
        decreases n - i,
    {
        m.push(eval_row_exec(predicate, b, i));
        i = i + 1;
    }
    Ok(m)
}

} // verus!
