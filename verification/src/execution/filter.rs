//! Evaluating a filter predicate on a batch: which rows pass.
//!
//! A predicate is a comparison of two leaves (a column or a literal), a
//! boolean column or literal, or an AND / OR of predicates. Numbers compare
//! by value: integers exactly, floats as IEEE-754 doubles (a binary32 value
//! is widened first, which keeps its value), and an integer against a float
//! as the double nearest to the integer. A comparison with a NaN is false,
//! except `!=`. Strings compare by code point, booleans with false first.
use vstd::prelude::*;

use crate::catalog::schema::{find_column_spec, lemma_find_column, DataType};
use crate::float_bits::{
    f32_to_f64_bits,
    f64_is_nan,
    f64_less,
    i64_to_f64_bits,
    int_to_f64_spec,
    is_nan,
    is_nan32,
    lemma_widen_order,
    order_key,
    u64_to_f64_bits,
    widen_magnitude,
};
use crate::names::{lemma_lex_total, lex_lt, str_lt};
use crate::physical_plan::physical_operators::{CmpOp, ExprView, LiteralValue, LiteralView, LogicalOp, PhysicalExpr};
use crate::processors::batch::Batch;
use crate::processors::processor::ExecutionError;
use crate::storage::column_chunk::ColumnChunk;
use crate::text::str_eq;

verus! {

/// A double, as far as comparisons see it: NaN, or its place in the order.
pub struct FloatVal {
    pub nan: bool,
    pub key: int,
}

/// One row's value of a leaf.
pub enum CellView {
    Int(int),
    Float(FloatVal),
    Str(Seq<char>),
    Bool(bool),
}

#[derive(PartialEq, Eq, Structural)]
pub enum Kind {
    Num,
    Str,
    Bool,
}

pub open spec fn f64_val(b: u64) -> FloatVal {
    if is_nan(b) {
        FloatVal { nan: true, key: 0 }
    } else {
        FloatVal { nan: false, key: order_key(b) }
    }
}

/// The binary64 bits of a binary32 value that is not NaN.
pub open spec fn widened(b: u32) -> int {
    let sign = b >= 0x8000_0000;
    let mag = if sign { b - 0x8000_0000 } else { b as int };
    (if sign { 0x8000_0000_0000_0000int } else { 0int }) + widen_magnitude(mag)
}

pub open spec fn f32_val(b: u32) -> FloatVal {
    if is_nan32(b) {
        FloatVal { nan: true, key: 0 }
    } else {
        f64_val(widened(b) as u64)
    }
}

/// An integer as the double nearest to it.
pub open spec fn int_as_float(v: int) -> FloatVal {
    f64_val(int_to_f64_spec(v) as u64)
}

pub open spec fn kind_of(c: CellView) -> Kind {
    match c {
        CellView::Int(_) => Kind::Num,
        CellView::Float(_) => Kind::Num,
        CellView::Str(_) => Kind::Str,
        CellView::Bool(_) => Kind::Bool,
    }
}

pub open spec fn chunk_kind(c: ColumnChunk) -> Kind {
    match c {
        ColumnChunk::Str(_) => Kind::Str,
        ColumnChunk::Bool(_) => Kind::Bool,
        _ => Kind::Num,
    }
}

/// Row `i` of a column.
pub open spec fn chunk_cell(c: ColumnChunk, i: int) -> CellView {
    match c {
        ColumnChunk::I8(v) => CellView::Int(v@[i] as int),
        ColumnChunk::I16(v) => CellView::Int(v@[i] as int),
        ColumnChunk::I32(v) => CellView::Int(v@[i] as int),
        ColumnChunk::I64(v) => CellView::Int(v@[i] as int),
        ColumnChunk::U8(v) => CellView::Int(v@[i] as int),
        ColumnChunk::U16(v) => CellView::Int(v@[i] as int),
        ColumnChunk::U32(v) => CellView::Int(v@[i] as int),
        ColumnChunk::U64(v) => CellView::Int(v@[i] as int),
        ColumnChunk::F32(v) => CellView::Float(f32_val(v@[i])),
        ColumnChunk::F64(v) => CellView::Float(f64_val(v@[i])),
        ColumnChunk::Str(v) => CellView::Str(v@[i]@),
        ColumnChunk::Bool(v) => CellView::Bool(v@[i]),
    }
}

/// The value of a literal; `None` for NULL, which compares with nothing.
pub open spec fn literal_cell(l: LiteralView) -> Option<CellView> {
    match l {
        LiteralView::I8(v) => Some(CellView::Int(v as int)),
        LiteralView::I16(v) => Some(CellView::Int(v as int)),
        LiteralView::I32(v) => Some(CellView::Int(v as int)),
        LiteralView::I64(v) => Some(CellView::Int(v as int)),
        LiteralView::U8(v) => Some(CellView::Int(v as int)),
        LiteralView::U16(v) => Some(CellView::Int(v as int)),
        LiteralView::U32(v) => Some(CellView::Int(v as int)),
        LiteralView::U64(v) => Some(CellView::Int(v as int)),
        LiteralView::Int(v) => Some(CellView::Int(v as int)),
        LiteralView::F32(b) => Some(CellView::Float(f32_val(b))),
        LiteralView::F64(b) => Some(CellView::Float(f64_val(b))),
        LiteralView::Float(b) => Some(CellView::Float(f64_val(b))),
        LiteralView::Str(s) => Some(CellView::Str(s)),
        LiteralView::Bool(b) => Some(CellView::Bool(b)),
        LiteralView::Null => None,
    }
}

pub open spec fn order_holds(a: int, op: CmpOp, b: int) -> bool {
    match op {
        CmpOp::Eq => a == b,
        CmpOp::NotEq => a != b,
        CmpOp::Lt => a < b,
        CmpOp::LtEq => a <= b,
        CmpOp::Gt => a > b,
        CmpOp::GtEq => a >= b,
    }
}

pub open spec fn float_holds(a: FloatVal, op: CmpOp, b: FloatVal) -> bool {
    if a.nan || b.nan {
        op is NotEq
    } else {
        order_holds(a.key, op, b.key)
    }
}

pub open spec fn text_holds(a: Seq<char>, op: CmpOp, b: Seq<char>) -> bool {
    match op {
        CmpOp::Eq => a == b,
        CmpOp::NotEq => a != b,
        CmpOp::Lt => lex_lt(a, b),
        CmpOp::LtEq => a == b || lex_lt(a, b),
        CmpOp::Gt => lex_lt(b, a),
        CmpOp::GtEq => a == b || lex_lt(b, a),
    }
}

pub open spec fn bool_rank(b: bool) -> int {
    if b {
        1
    } else {
        0
    }
}

/// The truth of `a op b` for two values of the same kind.
pub open spec fn cells_hold(a: CellView, op: CmpOp, b: CellView) -> bool {
    match (a, b) {
        (CellView::Int(x), CellView::Int(y)) => order_holds(x, op, y),
        (CellView::Float(x), CellView::Float(y)) => float_holds(x, op, y),
        (CellView::Int(x), CellView::Float(y)) => float_holds(int_as_float(x), op, y),
        (CellView::Float(x), CellView::Int(y)) => float_holds(x, op, int_as_float(y)),
        (CellView::Str(x), CellView::Str(y)) => text_holds(x, op, y),
        (CellView::Bool(x), CellView::Bool(y)) => order_holds(bool_rank(x), op, bool_rank(y)),
        _ => false,
    }
}

/// The names and types of a batch's columns.
pub open spec fn batch_cols(b: Batch) -> Seq<(Seq<char>, DataType)> {
    b.schema@.map_values(|c: crate::catalog::schema::ColumnSchema| c@)
}

/// The kind of a leaf of the predicate; `None` for an unknown column, NULL,
/// or an expression that is no leaf.
pub open spec fn leaf_kind(e: ExprView, b: Batch) -> Option<Kind> {
    match e {
        ExprView::Column(n) => match find_column_spec(batch_cols(b), n) {
            Some(k) => Some(chunk_kind(b.columns@[k])),
            None => None,
        },
        ExprView::Literal(l) => match literal_cell(l) {
            Some(c) => Some(kind_of(c)),
            None => None,
        },
        _ => None,
    }
}

/// Row `i`'s value of a leaf.
pub open spec fn leaf_cell(e: ExprView, b: Batch, i: int) -> CellView {
    match e {
        ExprView::Column(n) => chunk_cell(b.columns@[find_column_spec(batch_cols(b), n)->0], i),
        ExprView::Literal(l) => literal_cell(l)->0,
        _ => CellView::Bool(false),
    }
}

/// The predicate can be evaluated on the batch: its comparisons are of
/// leaves of one kind, its other leaves are boolean.
pub open spec fn predicate_ok(e: ExprView, b: Batch) -> bool
    decreases e,
{
    match e {
        ExprView::Compare { left, op, right } => leaf_kind(*left, b) is Some && leaf_kind(*left, b) == leaf_kind(
            *right,
            b,
        ),
        ExprView::Logical { left, op, right } => predicate_ok(*left, b) && predicate_ok(*right, b),
        _ => leaf_kind(e, b) == Some(Kind::Bool),
    }
}

/// Whether row `i` passes the predicate.
pub open spec fn row_passes(e: ExprView, b: Batch, i: int) -> bool
    decreases e,
{
    match e {
        ExprView::Compare { left, op, right } => cells_hold(leaf_cell(*left, b, i), op, leaf_cell(*right, b, i)),
        ExprView::Logical { left, op, right } => match op {
            LogicalOp::And => row_passes(*left, b, i) && row_passes(*right, b, i),
            LogicalOp::Or => row_passes(*left, b, i) || row_passes(*right, b, i),
        },
        _ => leaf_cell(e, b, i) == CellView::Bool(true),
    }
}

/// A row's value of a leaf. Floats are held as binary64 bits.
pub enum Cell<'a> {
    Int(i128),
    Float(u64),
    Str(&'a str),
    Bool(bool),
}

pub open spec fn cell_view(c: Cell) -> CellView {
    match c {
        Cell::Int(v) => CellView::Int(v as int),
        Cell::Float(b) => CellView::Float(f64_val(b)),
        Cell::Str(s) => CellView::Str(s@),
        Cell::Bool(b) => CellView::Bool(b),
    }
}

pub open spec fn cell_in_range(c: Cell) -> bool {
    match c {
        Cell::Int(v) => i64::MIN <= v <= u64::MAX,
        _ => true,
    }
}

proof fn lemma_widen_val(b: u32, r: u64)
    requires
        crate::float_bits::widen_spec(b, r),
    ensures
        f64_val(r) == f32_val(b),
{
    lemma_widen_order(b, b, r, r);
}

fn f32_cell<'a>(b: u32) -> (r: Cell<'a>)
    ensures
        cell_view(r) == CellView::Float(f32_val(b)),
        cell_in_range(r),
{
    let w = f32_to_f64_bits(b);
    proof { lemma_widen_val(b, w); }
    Cell::Float(w)
}

pub(crate) fn chunk_cell_at<'a>(c: &'a ColumnChunk, i: usize) -> (r: Cell<'a>)
    requires
        i < c.spec_len(),
    ensures
        cell_view(r) == chunk_cell(*c, i as int),
        cell_in_range(r),
{
    match c {
        ColumnChunk::I8(v) => Cell::Int(v[i] as i128),
        ColumnChunk::I16(v) => Cell::Int(v[i] as i128),
        ColumnChunk::I32(v) => Cell::Int(v[i] as i128),
        ColumnChunk::I64(v) => Cell::Int(v[i] as i128),
        ColumnChunk::U8(v) => Cell::Int(v[i] as i128),
        ColumnChunk::U16(v) => Cell::Int(v[i] as i128),
        ColumnChunk::U32(v) => Cell::Int(v[i] as i128),
        ColumnChunk::U64(v) => Cell::Int(v[i] as i128),
        ColumnChunk::F32(v) => f32_cell(v[i]),
        ColumnChunk::F64(v) => Cell::Float(v[i]),
        ColumnChunk::Str(v) => Cell::Str(v[i].as_str()),
        ColumnChunk::Bool(v) => Cell::Bool(v[i]),
    }
}

fn literal_cell_of<'a>(l: &'a LiteralValue) -> (r: Option<Cell<'a>>)
    ensures
        match r {
            Some(c) => literal_cell(l@) == Some(cell_view(c)) && cell_in_range(c),
            None => literal_cell(l@) is None,
        },
{
    match l {
        LiteralValue::I8(v) => Some(Cell::Int(*v as i128)),
        LiteralValue::I16(v) => Some(Cell::Int(*v as i128)),
        LiteralValue::I32(v) => Some(Cell::Int(*v as i128)),
        LiteralValue::I64(v) => Some(Cell::Int(*v as i128)),
        LiteralValue::U8(v) => Some(Cell::Int(*v as i128)),
        LiteralValue::U16(v) => Some(Cell::Int(*v as i128)),
        LiteralValue::U32(v) => Some(Cell::Int(*v as i128)),
        LiteralValue::U64(v) => Some(Cell::Int(*v as i128)),
        LiteralValue::Int(v) => Some(Cell::Int(*v as i128)),
        LiteralValue::F32(b) => Some(f32_cell(*b)),
        LiteralValue::F64(b) => Some(Cell::Float(*b)),
        LiteralValue::Float(b) => Some(Cell::Float(*b)),
        LiteralValue::Str(s) => Some(Cell::Str(s.as_str())),
        LiteralValue::Bool(b) => Some(Cell::Bool(*b)),
        LiteralValue::Null => None,
    }
}

/// The binary64 bits nearest to an integer of an i64 or u64 column.
fn int_to_float_bits(v: i128) -> (r: u64)
    requires
        i64::MIN <= v <= u64::MAX,
    ensures
        r == int_to_f64_spec(v as int),
{
    if v >= 0 {
        u64_to_f64_bits(v as u64)
    } else {
        i64_to_f64_bits(v as i64)
    }
}

fn float_holds_exec(a: u64, op: CmpOp, b: u64) -> (r: bool)
    ensures
        r == float_holds(f64_val(a), op, f64_val(b)),
{
    if f64_is_nan(a) || f64_is_nan(b) {
        return match op {
            CmpOp::NotEq => true,
            _ => false,
        };
    }
    let lt = f64_less(a, b);
    let gt = f64_less(b, a);
    match op {
        CmpOp::Eq => !lt && !gt,
        CmpOp::NotEq => lt || gt,
        CmpOp::Lt => lt,
        CmpOp::LtEq => !gt,
        CmpOp::Gt => gt,
        CmpOp::GtEq => !lt,
    }
}

fn order_holds_exec(a: i128, op: CmpOp, b: i128) -> (r: bool)
    ensures
        r == order_holds(a as int, op, b as int),
{
    match op {
        CmpOp::Eq => a == b,
        CmpOp::NotEq => a != b,
        CmpOp::Lt => a < b,
        CmpOp::LtEq => a <= b,
        CmpOp::Gt => a > b,
        CmpOp::GtEq => a >= b,
    }
}

fn text_holds_exec(a: &str, op: CmpOp, b: &str) -> (r: bool)
    ensures
        r == text_holds(a@, op, b@),
{
    let eq = str_eq(a, b);
    let lt = str_lt(a, b);
    let gt = str_lt(b, a);
    proof {
        if a@ != b@ {
            lemma_lex_total(a@, b@);
        } else {
            crate::names::lemma_lex_irreflexive(a@);
        }
    }
    match op {
        CmpOp::Eq => eq,
        CmpOp::NotEq => !eq,
        CmpOp::Lt => lt,
        CmpOp::LtEq => eq || lt,
        CmpOp::Gt => gt,
        CmpOp::GtEq => eq || gt,
    }
}

pub(crate) fn cells_hold_exec(a: &Cell, op: CmpOp, b: &Cell) -> (r: bool)
    requires
        cell_in_range(*a),
        cell_in_range(*b),
    ensures
        r == cells_hold(cell_view(*a), op, cell_view(*b)),
{
    match (a, b) {
        (Cell::Int(x), Cell::Int(y)) => order_holds_exec(*x, op, *y),
        (Cell::Float(x), Cell::Float(y)) => float_holds_exec(*x, op, *y),
        (Cell::Int(x), Cell::Float(y)) => float_holds_exec(int_to_float_bits(*x), op, *y),
        (Cell::Float(x), Cell::Int(y)) => float_holds_exec(*x, op, int_to_float_bits(*y)),
        (Cell::Str(x), Cell::Str(y)) => text_holds_exec(x, op, y),
        (Cell::Bool(x), Cell::Bool(y)) => {
            let rx: i128 = if *x { 1 } else { 0 };
            let ry: i128 = if *y { 1 } else { 0 };
            order_holds_exec(rx, op, ry)
        },
        _ => false,
    }
}

pub(crate) fn column_position(b: &Batch, name: &String) -> (r: Option<usize>)
    ensures
        match r {
            Some(i) => find_column_spec(batch_cols(*b), name@) == Some(i as int),
            None => find_column_spec(batch_cols(*b), name@) is None,
        },
{
    let n = b.schema.len();
    let mut i: usize = 0;
    while i < n
        invariant
            n == b.schema@.len(),
            i <= n,
            find_column_spec(batch_cols(*b).take(i as int), name@) is None,
        decreases n - i,
    {
        proof {
            assert(batch_cols(*b).take(i + 1).drop_last() =~= batch_cols(*b).take(i as int));
        }
        if b.schema[i].name == *name {
            proof {
                crate::catalog::schema::lemma_find_prefix(batch_cols(*b), name@, i + 1);
                lemma_find_column(batch_cols(*b).take(i + 1), name@);
            }
            return Some(i);
        }
        i = i + 1;
    }
    proof {
        assert(batch_cols(*b).take(n as int) =~= batch_cols(*b));
    }
    None
}

fn leaf_kind_of(e: &PhysicalExpr, b: &Batch) -> (r: Option<Kind>)
    requires
        b.wf(),
    ensures
        r == leaf_kind(e@, *b),
{
    match e {
        PhysicalExpr::Column(n) => match column_position(b, n) {
            Some(k) => {
                proof { lemma_find_column(batch_cols(*b), n@); }
                Some(match &b.columns[k] {
                    ColumnChunk::Str(_) => Kind::Str,
                    ColumnChunk::Bool(_) => Kind::Bool,
                    _ => Kind::Num,
                })
            },
            None => None,
        },
        PhysicalExpr::Literal(l) => match literal_cell_of(l) {
            Some(c) => Some(match c {
                Cell::Int(_) => Kind::Num,
                Cell::Float(_) => Kind::Num,
                Cell::Str(_) => Kind::Str,
                Cell::Bool(_) => Kind::Bool,
            }),
            None => None,
        },
        _ => None,
    }
}

fn leaf_cell_at<'a>(e: &'a PhysicalExpr, b: &'a Batch, i: usize) -> (r: Cell<'a>)
    requires
        b.wf(),
        leaf_kind(e@, *b) is Some,
        i < b.rows(),
    ensures
        cell_view(r) == leaf_cell(e@, *b, i as int),
        cell_in_range(r),
{
    match e {
        PhysicalExpr::Column(n) => {
            let k = column_position(b, n).unwrap();
            proof {
                lemma_find_column(batch_cols(*b), n@);
                assert(b.columns@[k as int].spec_len() == b.columns@[0].spec_len());
            }
            chunk_cell_at(&b.columns[k], i)
        },
        PhysicalExpr::Literal(l) => literal_cell_of(l).unwrap(),
        _ => Cell::Bool(false),
    }
}

/// Checks that the predicate can be evaluated on batches shaped like `b`.
fn check_predicate(e: &PhysicalExpr, b: &Batch) -> (r: Result<(), ExecutionError>)
    requires
        b.wf(),
    ensures
        r is Ok <==> predicate_ok(e@, *b),
        r matches Err(err) ==> err is InvalidData,
    decreases e,
{
    match e {
        PhysicalExpr::Compare { left, op, right } => {
            let kl = leaf_kind_of(left, b);
            let kr = leaf_kind_of(right, b);
            match (kl, kr) {
                (Some(a), Some(c)) => {
                    if a == c {
                        Ok(())
                    } else {
                        Err(ExecutionError::InvalidData(String::from_str("filter: comparison of values of different kinds")))
                    }
                },
                _ => Err(ExecutionError::InvalidData(String::from_str("filter: comparison operand is not a known column or a value"))),
            }
        },
        PhysicalExpr::Logical { left, op, right } => {
            check_predicate(left, b)?;
            check_predicate(right, b)
        },
        _ => {
            match leaf_kind_of(e, b) {
                Some(Kind::Bool) => Ok(()),
                _ => Err(ExecutionError::InvalidData(String::from_str("filter: predicate is not boolean"))),
            }
        },
    }
}

fn row_passes_exec(e: &PhysicalExpr, b: &Batch, i: usize) -> (r: bool)
    requires
        b.wf(),
        predicate_ok(e@, *b),
        i < b.rows(),
    ensures
        r == row_passes(e@, *b, i as int),
    decreases e,
{
    match e {
        PhysicalExpr::Compare { left, op, right } => {
            let a = leaf_cell_at(left, b, i);
            let c = leaf_cell_at(right, b, i);
            cells_hold_exec(&a, *op, &c)
        },
        PhysicalExpr::Logical { left, op, right } => {
            let l = row_passes_exec(left, b, i);
            match op {
                LogicalOp::And => l && row_passes_exec(right, b, i),
                LogicalOp::Or => l || row_passes_exec(right, b, i),
            }
        },
        _ => {
            let c = leaf_cell_at(e, b, i);
            match c {
                Cell::Bool(v) => v,
                _ => false,
            }
        },
    }
}

/// The rows of `b` that pass `predicate`, as a mask; an error when the
/// predicate cannot be evaluated on the batch.
pub fn filter_mask(predicate: &PhysicalExpr, b: &Batch) -> (r: Result<Vec<bool>, ExecutionError>)
    requires
        b.wf(),
    ensures
        match r {
            Ok(m) => predicate_ok(predicate@, *b) && m@.len() == b.rows() && forall|i: int|
                0 <= i < b.rows() ==> m@[i] == #[trigger] row_passes(predicate@, *b, i),
            Err(e) => !predicate_ok(predicate@, *b) && e is InvalidData,
        },
{
    check_predicate(predicate, b)?;
    let n = if b.columns.len() == 0 {
        0
    } else {
        b.columns[0].len()
    };
    let mut m: Vec<bool> = Vec::new();
    let mut i: usize = 0;
    while i < n
        invariant
            b.wf(),
            predicate_ok(predicate@, *b),
            n == b.rows(),
            i <= n,
            m@.len() == i,
            forall|k: int| 0 <= k < i ==> m@[k] == #[trigger] row_passes(predicate@, *b, k),
        decreases n - i,
    {
        m.push(row_passes_exec(predicate, b, i));
        i = i + 1;
    }
    Ok(m)
}

} // verus!
