//! One row's value of a column, and the keys of GROUP BY: the values of
//! the grouping columns in a row. Floats are compared by their bit patterns,
//! so a NaN groups with the NaNs of the same pattern.
use vstd::prelude::*;

use crate::catalog::schema::DataType;
use crate::storage::column_chunk::ColumnChunk;

verus! {

/// A binary32 value by its bit pattern; equal when the bits are.
#[derive(Clone, Copy, Debug, PartialEq, Eq, Structural, Hash)]
pub struct HashableF32(pub u32);

/// A binary64 value by its bit pattern; equal when the bits are.
#[derive(Clone, Copy, Debug, PartialEq, Eq, Structural, Hash)]
pub struct HashableF64(pub u64);

#[derive(Debug)]
pub enum ScalarValue {
    I8(i8),
    I16(i16),
    I32(i32),
    I64(i64),
    U8(u8),
    U16(u16),
    U32(u32),
    U64(u64),
    F32(HashableF32),
    F64(HashableF64),
    Bool(bool),
    Str(String),
}

impl Clone for ScalarValue {
    fn clone(&self) -> (r: Self)
        ensures
            r@ == self@,
    {
        match self {
            ScalarValue::I8(v) => ScalarValue::I8(*v),
            ScalarValue::I16(v) => ScalarValue::I16(*v),
            ScalarValue::I32(v) => ScalarValue::I32(*v),
            ScalarValue::I64(v) => ScalarValue::I64(*v),
            ScalarValue::U8(v) => ScalarValue::U8(*v),
            ScalarValue::U16(v) => ScalarValue::U16(*v),
            ScalarValue::U32(v) => ScalarValue::U32(*v),
            ScalarValue::U64(v) => ScalarValue::U64(*v),
            ScalarValue::F32(v) => ScalarValue::F32(HashableF32(v.0)),
            ScalarValue::F64(v) => ScalarValue::F64(HashableF64(v.0)),
            ScalarValue::Bool(v) => ScalarValue::Bool(*v),
            ScalarValue::Str(v) => ScalarValue::Str(v.clone()),
        }
    }
}

pub enum ScalarView {
    I8(i8),
    I16(i16),
    I32(i32),
    I64(i64),
    U8(u8),
    U16(u16),
    U32(u32),
    U64(u64),
    F32(u32),
    F64(u64),
    Bool(bool),
    Str(Seq<char>),
}

impl View for ScalarValue {
    type V = ScalarView;

    open spec fn view(&self) -> ScalarView {
        match self {
            ScalarValue::I8(v) => ScalarView::I8(*v),
            ScalarValue::I16(v) => ScalarView::I16(*v),
            ScalarValue::I32(v) => ScalarView::I32(*v),
            ScalarValue::I64(v) => ScalarView::I64(*v),
            ScalarValue::U8(v) => ScalarView::U8(*v),
            ScalarValue::U16(v) => ScalarView::U16(*v),
            ScalarValue::U32(v) => ScalarView::U32(*v),
            ScalarValue::U64(v) => ScalarView::U64(*v),
            ScalarValue::F32(v) => ScalarView::F32(v.0),
            ScalarValue::F64(v) => ScalarView::F64(v.0),
            ScalarValue::Bool(v) => ScalarView::Bool(*v),
            ScalarValue::Str(v) => ScalarView::Str(v@),
        }
    }
}

pub open spec fn scalar_type(v: ScalarView) -> DataType {
    match v {
        ScalarView::I8(_) => DataType::I8,
        ScalarView::I16(_) => DataType::I16,
        ScalarView::I32(_) => DataType::I32,
        ScalarView::I64(_) => DataType::I64,
        ScalarView::U8(_) => DataType::U8,
        ScalarView::U16(_) => DataType::U16,
        ScalarView::U32(_) => DataType::U32,
        ScalarView::U64(_) => DataType::U64,
        ScalarView::F32(_) => DataType::F32,
        ScalarView::F64(_) => DataType::F64,
        ScalarView::Bool(_) => DataType::Bool,
        ScalarView::Str(_) => DataType::Str,
    }
}

/// Row `row` of a column.
pub open spec fn chunk_scalar(c: ColumnChunk, row: int) -> ScalarView {
    match c {
        ColumnChunk::I8(v) => ScalarView::I8(v@[row]),
        ColumnChunk::I16(v) => ScalarView::I16(v@[row]),
        ColumnChunk::I32(v) => ScalarView::I32(v@[row]),
        ColumnChunk::I64(v) => ScalarView::I64(v@[row]),
        ColumnChunk::U8(v) => ScalarView::U8(v@[row]),
        ColumnChunk::U16(v) => ScalarView::U16(v@[row]),
        ColumnChunk::U32(v) => ScalarView::U32(v@[row]),
        ColumnChunk::U64(v) => ScalarView::U64(v@[row]),
        ColumnChunk::F32(v) => ScalarView::F32(v@[row]),
        ColumnChunk::F64(v) => ScalarView::F64(v@[row]),
        ColumnChunk::Bool(v) => ScalarView::Bool(v@[row]),
        ColumnChunk::Str(v) => ScalarView::Str(v@[row]@),
    }
}

pub open spec fn chunk_data_type(c: ColumnChunk) -> DataType {
    match c {
        ColumnChunk::I8(_) => DataType::I8,
        ColumnChunk::I16(_) => DataType::I16,
        ColumnChunk::I32(_) => DataType::I32,
        ColumnChunk::I64(_) => DataType::I64,
        ColumnChunk::U8(_) => DataType::U8,
        ColumnChunk::U16(_) => DataType::U16,
        ColumnChunk::U32(_) => DataType::U32,
        ColumnChunk::U64(_) => DataType::U64,
        ColumnChunk::F32(_) => DataType::F32,
        ColumnChunk::F64(_) => DataType::F64,
        ColumnChunk::Bool(_) => DataType::Bool,
        ColumnChunk::Str(_) => DataType::Str,
    }
}

/// The type of the values a chunk holds.
pub fn chunk_type_of(c: &ColumnChunk) -> (r: DataType)
    ensures
        r == chunk_data_type(*c),
{
    match c {
        ColumnChunk::I8(_) => DataType::I8,
        ColumnChunk::I16(_) => DataType::I16,
        ColumnChunk::I32(_) => DataType::I32,
        ColumnChunk::I64(_) => DataType::I64,
        ColumnChunk::U8(_) => DataType::U8,
        ColumnChunk::U16(_) => DataType::U16,
        ColumnChunk::U32(_) => DataType::U32,
        ColumnChunk::U64(_) => DataType::U64,
        ColumnChunk::F32(_) => DataType::F32,
        ColumnChunk::F64(_) => DataType::F64,
        ColumnChunk::Bool(_) => DataType::Bool,
        ColumnChunk::Str(_) => DataType::Str,
    }
}

/// `c` is the column of `vals`, all of type `t`.
pub open spec fn column_of_scalars(vals: Seq<ScalarView>, t: DataType, c: ColumnChunk) -> bool {
    &&& chunk_data_type(c) == t
    &&& c.spec_len() == vals.len()
    &&& forall|i: int| 0 <= i < vals.len() ==> #[trigger] chunk_scalar(c, i) == vals[i]
}

pub open spec fn scalar_views(v: Seq<ScalarValue>) -> Seq<ScalarView> {
    v.map_values(|s: ScalarValue| s@)
}

fn push_value(out: &mut ColumnChunk, x: &ScalarValue)
    requires
        chunk_data_type(*old(out)) == scalar_type(x@),
    ensures
        chunk_data_type(*final(out)) == chunk_data_type(*old(out)),
        final(out).spec_len() == old(out).spec_len() + 1,
        forall|k: int| 0 <= k < old(out).spec_len() ==> #[trigger] chunk_scalar(*final(out), k) == chunk_scalar(*old(out), k),
        chunk_scalar(*final(out), old(out).spec_len() as int) == x@,
{
    match x {
        ScalarValue::I8(v) => {
            if let ColumnChunk::I8(col) = out {
                col.push(*v);
            }
        },
        ScalarValue::I16(v) => {
            if let ColumnChunk::I16(col) = out {
                col.push(*v);
            }
        },
        ScalarValue::I32(v) => {
            if let ColumnChunk::I32(col) = out {
                col.push(*v);
            }
        },
        ScalarValue::I64(v) => {
            if let ColumnChunk::I64(col) = out {
                col.push(*v);
            }
        },
        ScalarValue::U8(v) => {
            if let ColumnChunk::U8(col) = out {
                col.push(*v);
            }
        },
        ScalarValue::U16(v) => {
            if let ColumnChunk::U16(col) = out {
                col.push(*v);
            }
        },
        ScalarValue::U32(v) => {
            if let ColumnChunk::U32(col) = out {
                col.push(*v);
            }
        },
        ScalarValue::U64(v) => {
            if let ColumnChunk::U64(col) = out {
                col.push(*v);
            }
        },
        ScalarValue::F32(v) => {
            if let ColumnChunk::F32(col) = out {
                col.push(v.0);
            }
        },
        ScalarValue::F64(v) => {
            if let ColumnChunk::F64(col) = out {
                col.push(v.0);
            }
        },
        ScalarValue::Bool(v) => {
            if let ColumnChunk::Bool(col) = out {
                col.push(*v);
            }
        },
        ScalarValue::Str(v) => {
            if let ColumnChunk::Str(col) = out {
                col.push(v.clone());
            }
        },
    }
}

impl ScalarValue {
    /// The value at `row` of a column.
    pub fn from_chunk(chunk: &ColumnChunk, row: usize) -> (r: ScalarValue)
        requires
            row < chunk.spec_len(),
        ensures
            r@ == chunk_scalar(*chunk, row as int),
    {
        match chunk {
            ColumnChunk::I8(v) => ScalarValue::I8(v[row]),
            ColumnChunk::I16(v) => ScalarValue::I16(v[row]),
            ColumnChunk::I32(v) => ScalarValue::I32(v[row]),
            ColumnChunk::I64(v) => ScalarValue::I64(v[row]),
            ColumnChunk::U8(v) => ScalarValue::U8(v[row]),
            ColumnChunk::U16(v) => ScalarValue::U16(v[row]),
            ColumnChunk::U32(v) => ScalarValue::U32(v[row]),
            ColumnChunk::U64(v) => ScalarValue::U64(v[row]),
            ColumnChunk::F32(v) => ScalarValue::F32(HashableF32(v[row])),
            ColumnChunk::F64(v) => ScalarValue::F64(HashableF64(v[row])),
            ColumnChunk::Bool(v) => ScalarValue::Bool(v[row]),
            ColumnChunk::Str(v) => ScalarValue::Str(v[row].clone()),
        }
    }

    /// Do `self` and `other` hold the same value (floats by their bits)?
    pub fn same(&self, other: &ScalarValue) -> (r: bool)
        ensures
            r == (self@ == other@),
    {
        match (self, other) {
            (ScalarValue::I8(a), ScalarValue::I8(b)) => *a == *b,
            (ScalarValue::I16(a), ScalarValue::I16(b)) => *a == *b,
            (ScalarValue::I32(a), ScalarValue::I32(b)) => *a == *b,
            (ScalarValue::I64(a), ScalarValue::I64(b)) => *a == *b,
            (ScalarValue::U8(a), ScalarValue::U8(b)) => *a == *b,
            (ScalarValue::U16(a), ScalarValue::U16(b)) => *a == *b,
            (ScalarValue::U32(a), ScalarValue::U32(b)) => *a == *b,
            (ScalarValue::U64(a), ScalarValue::U64(b)) => *a == *b,
            (ScalarValue::F32(a), ScalarValue::F32(b)) => a.0 == b.0,
            (ScalarValue::F64(a), ScalarValue::F64(b)) => a.0 == b.0,
            (ScalarValue::Bool(a), ScalarValue::Bool(b)) => *a == *b,
            (ScalarValue::Str(a), ScalarValue::Str(b)) => *a == *b,
            _ => false,
        }
    }

    /// The column of `values`, which are all of the type of the first; an
    /// empty list gives an empty `I8` column.
    pub fn build_column(values: Vec<ScalarValue>) -> (r: ColumnChunk)
        requires
            forall|i: int|
                0 <= i < values@.len() ==> scalar_type(#[trigger] values@[i]@) == scalar_type(values@[0]@),
        ensures
            values@.len() == 0 ==> (r matches ColumnChunk::I8(v) && v@.len() == 0),
            values@.len() > 0 ==> column_of_scalars(scalar_views(values@), scalar_type(values@[0]@), r),
    {
        if values.len() == 0 {
            return ColumnChunk::I8(Vec::new());
        }
        let ghost vs = scalar_views(values@);
        let ghost t = scalar_type(values@[0]@);
        let mut out = match &values[0] {
            ScalarValue::I8(_) => ColumnChunk::I8(Vec::new()),
            ScalarValue::I16(_) => ColumnChunk::I16(Vec::new()),
            ScalarValue::I32(_) => ColumnChunk::I32(Vec::new()),
            ScalarValue::I64(_) => ColumnChunk::I64(Vec::new()),
            ScalarValue::U8(_) => ColumnChunk::U8(Vec::new()),
            ScalarValue::U16(_) => ColumnChunk::U16(Vec::new()),
            ScalarValue::U32(_) => ColumnChunk::U32(Vec::new()),
            ScalarValue::U64(_) => ColumnChunk::U64(Vec::new()),
            ScalarValue::F32(_) => ColumnChunk::F32(Vec::new()),
            ScalarValue::F64(_) => ColumnChunk::F64(Vec::new()),
            ScalarValue::Bool(_) => ColumnChunk::Bool(Vec::new()),
            ScalarValue::Str(_) => ColumnChunk::Str(Vec::new()),
        };
        let mut i: usize = 0;
        while i < values.len()
            invariant
                vs == scalar_views(values@),
                values@.len() > 0,
                t == scalar_type(values@[0]@),
                forall|k: int| 0 <= k < values@.len() ==> scalar_type(#[trigger] values@[k]@) == t,
                i <= values@.len(),
                chunk_data_type(out) == t,
                out.spec_len() == i,
                forall|k: int| 0 <= k < i ==> #[trigger] chunk_scalar(out, k) == vs[k],
            decreases values@.len() - i,
        {
            assert(scalar_type(values@[i as int]@) == t);
            push_value(&mut out, &values[i]);
            i = i + 1;
        }
        out
    }
}

} // verus!
