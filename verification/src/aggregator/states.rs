//! Per-group states of MIN and MAX over a column of one numeric type, and the
//! column they finalize to. Float columns keep IEEE-754 bit patterns.
use vstd::prelude::*;

use crate::catalog::schema::DataType;
use crate::storage::column_chunk::ColumnChunk;

verus! {

/// One optional partial result per group; `None` for a group that has seen no
/// value yet.
pub enum GroupStates {
    I8(Vec<Option<i8>>),
    I16(Vec<Option<i16>>),
    I32(Vec<Option<i32>>),
    I64(Vec<Option<i64>>),
    U8(Vec<Option<u8>>),
    U16(Vec<Option<u16>>),
    U32(Vec<Option<u32>>),
    U64(Vec<Option<u64>>),
    F32(Vec<Option<u32>>),
    F64(Vec<Option<u64>>),
}

pub enum GroupStatesView {
    I8(Seq<Option<i8>>),
    I16(Seq<Option<i16>>),
    I32(Seq<Option<i32>>),
    I64(Seq<Option<i64>>),
    U8(Seq<Option<u8>>),
    U16(Seq<Option<u16>>),
    U32(Seq<Option<u32>>),
    U64(Seq<Option<u64>>),
    F32(Seq<Option<u32>>),
    F64(Seq<Option<u64>>),
}

impl View for GroupStates {
    type V = GroupStatesView;

    open spec fn view(&self) -> GroupStatesView {
        match self {
            GroupStates::I8(v) => GroupStatesView::I8(v@),
            GroupStates::I16(v) => GroupStatesView::I16(v@),
            GroupStates::I32(v) => GroupStatesView::I32(v@),
            GroupStates::I64(v) => GroupStatesView::I64(v@),
            GroupStates::U8(v) => GroupStatesView::U8(v@),
            GroupStates::U16(v) => GroupStatesView::U16(v@),
            GroupStates::U32(v) => GroupStatesView::U32(v@),
            GroupStates::U64(v) => GroupStatesView::U64(v@),
            GroupStates::F32(v) => GroupStatesView::F32(v@),
            GroupStates::F64(v) => GroupStatesView::F64(v@),
        }
    }
}

/// `s` with each empty state replaced by `d`.
pub open spec fn or_default<T>(s: Seq<Option<T>>, d: T) -> Seq<T> {
    Seq::new(
        s.len(),
        |i: int|
            match s[i] {
                Some(x) => x,
                None => d,
            },
    )
}

impl GroupStatesView {
    /// The column type the states were built for.
    pub open spec fn data_type(self) -> DataType {
        match self {
            GroupStatesView::I8(_) => DataType::I8,
            GroupStatesView::I16(_) => DataType::I16,
            GroupStatesView::I32(_) => DataType::I32,
            GroupStatesView::I64(_) => DataType::I64,
            GroupStatesView::U8(_) => DataType::U8,
            GroupStatesView::U16(_) => DataType::U16,
            GroupStatesView::U32(_) => DataType::U32,
            GroupStatesView::U64(_) => DataType::U64,
            GroupStatesView::F32(_) => DataType::F32,
            GroupStatesView::F64(_) => DataType::F64,
        }
    }

    /// The number of groups held.
    pub open spec fn len(self) -> nat {
        match self {
            GroupStatesView::I8(s) => s.len(),
            GroupStatesView::I16(s) => s.len(),
            GroupStatesView::I32(s) => s.len(),
            GroupStatesView::I64(s) => s.len(),
            GroupStatesView::U8(s) => s.len(),
            GroupStatesView::U16(s) => s.len(),
            GroupStatesView::U32(s) => s.len(),
            GroupStatesView::U64(s) => s.len(),
            GroupStatesView::F32(s) => s.len(),
            GroupStatesView::F64(s) => s.len(),
        }
    }

    /// `c` holds values of the type these states were built for.
    pub open spec fn accepts(self, c: ColumnChunk) -> bool {
        match (self, c) {
            (GroupStatesView::I8(_), ColumnChunk::I8(_)) => true,
            (GroupStatesView::I16(_), ColumnChunk::I16(_)) => true,
            (GroupStatesView::I32(_), ColumnChunk::I32(_)) => true,
            (GroupStatesView::I64(_), ColumnChunk::I64(_)) => true,
            (GroupStatesView::U8(_), ColumnChunk::U8(_)) => true,
            (GroupStatesView::U16(_), ColumnChunk::U16(_)) => true,
            (GroupStatesView::U32(_), ColumnChunk::U32(_)) => true,
            (GroupStatesView::U64(_), ColumnChunk::U64(_)) => true,
            (GroupStatesView::F32(_), ColumnChunk::F32(_)) => true,
            (GroupStatesView::F64(_), ColumnChunk::F64(_)) => true,
            _ => false,
        }
    }
}

/// No group yet, for a numeric column type; `None` for the others.
pub open spec fn empty_states(t: DataType) -> Option<GroupStatesView> {
    match t {
        DataType::I8 => Some(GroupStatesView::I8(Seq::empty())),
        DataType::I16 => Some(GroupStatesView::I16(Seq::empty())),
        DataType::I32 => Some(GroupStatesView::I32(Seq::empty())),
        DataType::I64 => Some(GroupStatesView::I64(Seq::empty())),
        DataType::U8 => Some(GroupStatesView::U8(Seq::empty())),
        DataType::U16 => Some(GroupStatesView::U16(Seq::empty())),
        DataType::U32 => Some(GroupStatesView::U32(Seq::empty())),
        DataType::U64 => Some(GroupStatesView::U64(Seq::empty())),
        DataType::F32 => Some(GroupStatesView::F32(Seq::empty())),
        DataType::F64 => Some(GroupStatesView::F64(Seq::empty())),
        _ => None,
    }
}

/// `c` is the column of final values: each group's result, zero where the
/// group saw no value (the bit pattern of +0.0 for floats).
pub open spec fn finalized(v: GroupStatesView, c: ColumnChunk) -> bool {
    match (v, c) {
        (GroupStatesView::I8(s), ColumnChunk::I8(w)) => w@ == or_default(s, 0i8),
        (GroupStatesView::I16(s), ColumnChunk::I16(w)) => w@ == or_default(s, 0i16),
        (GroupStatesView::I32(s), ColumnChunk::I32(w)) => w@ == or_default(s, 0i32),
        (GroupStatesView::I64(s), ColumnChunk::I64(w)) => w@ == or_default(s, 0i64),
        (GroupStatesView::U8(s), ColumnChunk::U8(w)) => w@ == or_default(s, 0u8),
        (GroupStatesView::U16(s), ColumnChunk::U16(w)) => w@ == or_default(s, 0u16),
        (GroupStatesView::U32(s), ColumnChunk::U32(w)) => w@ == or_default(s, 0u32),
        (GroupStatesView::U64(s), ColumnChunk::U64(w)) => w@ == or_default(s, 0u64),
        (GroupStatesView::F32(s), ColumnChunk::F32(w)) => w@ == or_default(s, 0u32),
        (GroupStatesView::F64(s), ColumnChunk::F64(w)) => w@ == or_default(s, 0u64),
        _ => false,
    }
}

fn unwrap_all<T: Copy>(s: &Vec<Option<T>>, d: T) -> (r: Vec<T>)
    ensures
        r@ == or_default(s@, d),
{
    let mut out: Vec<T> = Vec::new();
    let mut i: usize = 0;
    while i < s.len()
        invariant
            i <= s@.len(),
            out@ == or_default(s@.take(i as int), d),
        decreases s@.len() - i,
    {
        let x = match s[i] {
            Some(x) => x,
            None => d,
        };
        out.push(x);
        i = i + 1;
        assert(out@ =~= or_default(s@.take(i as int), d));
    }
    assert(s@.take(s@.len() as int) =~= s@);
    out
}

impl GroupStates {
    /// No group yet, for a numeric column type; `None` for the others.
    pub fn empty(t: DataType) -> (r: Option<GroupStates>)
        ensures
            match r {
                Some(s) => empty_states(t) == Some(s@),
                None => empty_states(t) is None,
            },
    {
        match t {
            DataType::I8 => Some(GroupStates::I8(Vec::new())),
            DataType::I16 => Some(GroupStates::I16(Vec::new())),
            DataType::I32 => Some(GroupStates::I32(Vec::new())),
            DataType::I64 => Some(GroupStates::I64(Vec::new())),
            DataType::U8 => Some(GroupStates::U8(Vec::new())),
            DataType::U16 => Some(GroupStates::U16(Vec::new())),
            DataType::U32 => Some(GroupStates::U32(Vec::new())),
            DataType::U64 => Some(GroupStates::U64(Vec::new())),
            DataType::F32 => Some(GroupStates::F32(Vec::new())),
            DataType::F64 => Some(GroupStates::F64(Vec::new())),
            _ => None,
        }
    }

    /// The final value of each group, zero where it saw no value.
    pub fn finalize(&self) -> (r: ColumnChunk)
        ensures
            finalized(self@, r),
    {
        match self {
            GroupStates::I8(s) => ColumnChunk::I8(unwrap_all(s, 0i8)),
            GroupStates::I16(s) => ColumnChunk::I16(unwrap_all(s, 0i16)),
            GroupStates::I32(s) => ColumnChunk::I32(unwrap_all(s, 0i32)),
            GroupStates::I64(s) => ColumnChunk::I64(unwrap_all(s, 0i64)),
            GroupStates::U8(s) => ColumnChunk::U8(unwrap_all(s, 0u8)),
            GroupStates::U16(s) => ColumnChunk::U16(unwrap_all(s, 0u16)),
            GroupStates::U32(s) => ColumnChunk::U32(unwrap_all(s, 0u32)),
            GroupStates::U64(s) => ColumnChunk::U64(unwrap_all(s, 0u64)),
            GroupStates::F32(s) => ColumnChunk::F32(unwrap_all(s, 0u32)),
            GroupStates::F64(s) => ColumnChunk::F64(unwrap_all(s, 0u64)),
        }
    }

    pub fn data_type(&self) -> (r: DataType)
        ensures
            r == self@.data_type(),
    {
        match self {
            GroupStates::I8(_) => DataType::I8,
            GroupStates::I16(_) => DataType::I16,
            GroupStates::I32(_) => DataType::I32,
            GroupStates::I64(_) => DataType::I64,
            GroupStates::U8(_) => DataType::U8,
            GroupStates::U16(_) => DataType::U16,
            GroupStates::U32(_) => DataType::U32,
            GroupStates::U64(_) => DataType::U64,
            GroupStates::F32(_) => DataType::F32,
            GroupStates::F64(_) => DataType::F64,
        }
    }

    /// The number of groups held.
    pub fn len(&self) -> (r: usize)
        ensures
            r == self@.len(),
    {
        match self {
            GroupStates::I8(v) => v.len(),
            GroupStates::I16(v) => v.len(),
            GroupStates::I32(v) => v.len(),
            GroupStates::I64(v) => v.len(),
            GroupStates::U8(v) => v.len(),
            GroupStates::U16(v) => v.len(),
            GroupStates::U32(v) => v.len(),
            GroupStates::U64(v) => v.len(),
            GroupStates::F32(v) => v.len(),
            GroupStates::F64(v) => v.len(),
        }
    }
}

} // verus!
