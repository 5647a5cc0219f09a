//! Sum aggregate.
//!
//! State and output share the input type `T`. The sum is exact: every
//! partial sum must fit in `T`.
use vstd::prelude::*;
use vstd::string::*;

use core::marker::PhantomData;

use crate::aggregator::Integer;
use crate::aggregator::grouped::{group_sum, grouped_sum_update, ids_fit, padded, sums_fit, sums_would_fit, zip_len};
use crate::catalog::schema::DataType;
use crate::processors::processor::ExecutionError;
use crate::storage::column_chunk::ColumnChunk;

verus! {

pub struct Sum<T>(pub PhantomData<T>);

/// Mathematical sum of the values of `s`.
pub open spec fn seq_sum<T: Integer>(s: Seq<T>) -> int
    decreases s.len(),
{
    if s.len() == 0 {
        0
    } else {
        seq_sum(s.drop_last()) + s.last().int_value()
    }
}

/// Every running sum of `s`, from the left, fits in `T`.
pub open spec fn prefix_sums_fit<T: Integer>(s: Seq<T>) -> bool {
    forall|k: int| 0 <= k <= s.len() ==> T::min_int() <= #[trigger] seq_sum(s.take(k)) <= T::max_int()
}

/// The sum of a concatenation is the sum of the sums of its parts.
pub proof fn lemma_seq_sum_concat<T: Integer>(a: Seq<T>, b: Seq<T>)
    ensures
        seq_sum(a + b) == seq_sum(a) + seq_sum(b),
    decreases b.len(),
{
    if b.len() == 0 {
        assert(a + b =~= a);
    } else {
        lemma_seq_sum_concat(a, b.drop_last());
        assert((a + b).drop_last() =~= a + b.drop_last());
    }
}

/// Splitting the input anywhere, summing each side and merging the partial
/// sums gives the sum of the whole input.
pub proof fn lemma_sum_split<T: Integer>(s: Seq<T>, k: int)
    requires
        0 <= k <= s.len(),
    ensures
        seq_sum(s.take(k)) + seq_sum(s.skip(k)) == seq_sum(s),
{
    assert(s.take(k) + s.skip(k) =~= s);
    lemma_seq_sum_concat(s.take(k), s.skip(k));
}

impl<T: Integer> Sum<T> {
    pub fn init() -> (r: T)
        ensures
            r.int_value() == 0,
    {
        T::zero()
    }

    /// Adds the sum of a chunk to the state.
    pub fn update(state: &mut T, input: &[T])
        requires
            prefix_sums_fit(input@),
            T::min_int() <= old(state).int_value() + seq_sum(input@) <= T::max_int(),
        ensures
            final(state).int_value() == old(state).int_value() + seq_sum(input@),
    {
        let mut total: T = T::zero();
        let mut i: usize = 0;
        while i < input.len()
            invariant
                i <= input@.len(),
                prefix_sums_fit(input@),
                total.int_value() == seq_sum(input@.take(i as int)),
            decreases input@.len() - i,
        {
            proof {
                assert(input@.take(i + 1).drop_last() =~= input@.take(i as int));
                assert(T::min_int() <= seq_sum(input@.take(i + 1)) <= T::max_int());
            }
            total = total.add(&input[i]);
            i = i + 1;
        }
        proof {
            assert(input@.take(input@.len() as int) =~= input@);
        }
        Self::merge(state, total);
    }

    /// Combines two partial sums.
    pub fn merge(a: &mut T, b: T)
        requires
            T::min_int() <= old(a).int_value() + b.int_value() <= T::max_int(),
        ensures
            final(a).int_value() == old(a).int_value() + b.int_value(),
    {
        *a = a.add(&b);
    }

    pub fn finalize(state: T) -> (r: T)
        ensures
            r == state,
    {
        state
    }
}


/// The running sums of each group, after the zipped pairs are added to
/// `acc` grown to `n` zero entries.
pub open spec fn sums_after<T: Integer>(acc: Seq<T>, vals: Seq<T>, gids: Seq<u32>, n: nat) -> Seq<int> {
    let p = padded(acc, n, T::zero_spec());
    Seq::new(p.len(), |g: int| p[g].int_value() + group_sum(vals, gids, g, zip_len(vals.len(), gids.len()) as int))
}

pub open spec fn int_values<T: Integer>(s: Seq<T>) -> Seq<int> {
    Seq::new(s.len(), |g: int| s[g].int_value())
}

/// SUM over an integer column, one sum per group, in the column's type.
pub enum IntegerSums {
    I8(Vec<i8>),
    I16(Vec<i16>),
    I32(Vec<i32>),
    I64(Vec<i64>),
    U8(Vec<u8>),
    U16(Vec<u16>),
    U32(Vec<u32>),
    U64(Vec<u64>),
}

impl IntegerSums {
    /// The sum of each group so far.
    pub open spec fn values(&self) -> Seq<int> {
        match self {
            IntegerSums::I8(v) => int_values(v@),
            IntegerSums::I16(v) => int_values(v@),
            IntegerSums::I32(v) => int_values(v@),
            IntegerSums::I64(v) => int_values(v@),
            IntegerSums::U8(v) => int_values(v@),
            IntegerSums::U16(v) => int_values(v@),
            IntegerSums::U32(v) => int_values(v@),
            IntegerSums::U64(v) => int_values(v@),
        }
    }

    pub open spec fn data_type_spec(&self) -> DataType {
        match self {
            IntegerSums::I8(_) => DataType::I8,
            IntegerSums::I16(_) => DataType::I16,
            IntegerSums::I32(_) => DataType::I32,
            IntegerSums::I64(_) => DataType::I64,
            IntegerSums::U8(_) => DataType::U8,
            IntegerSums::U16(_) => DataType::U16,
            IntegerSums::U32(_) => DataType::U32,
            IntegerSums::U64(_) => DataType::U64,
        }
    }

    /// `c` holds values of the summed type.
    pub open spec fn accepts(&self, c: ColumnChunk) -> bool {
        match (self, c) {
            (IntegerSums::I8(_), ColumnChunk::I8(_)) => true,
            (IntegerSums::I16(_), ColumnChunk::I16(_)) => true,
            (IntegerSums::I32(_), ColumnChunk::I32(_)) => true,
            (IntegerSums::I64(_), ColumnChunk::I64(_)) => true,
            (IntegerSums::U8(_), ColumnChunk::U8(_)) => true,
            (IntegerSums::U16(_), ColumnChunk::U16(_)) => true,
            (IntegerSums::U32(_), ColumnChunk::U32(_)) => true,
            (IntegerSums::U64(_), ColumnChunk::U64(_)) => true,
            _ => false,
        }
    }

    /// Every running sum stays within the summed type.
    pub open spec fn fits(&self, c: ColumnChunk, gids: Seq<u32>, n: nat) -> bool {
        match (self, c) {
            (IntegerSums::I8(a), ColumnChunk::I8(v)) => sums_fit(padded(a@, n, i8::zero_spec()), v@, gids),
            (IntegerSums::I16(a), ColumnChunk::I16(v)) => sums_fit(padded(a@, n, i16::zero_spec()), v@, gids),
            (IntegerSums::I32(a), ColumnChunk::I32(v)) => sums_fit(padded(a@, n, i32::zero_spec()), v@, gids),
            (IntegerSums::I64(a), ColumnChunk::I64(v)) => sums_fit(padded(a@, n, i64::zero_spec()), v@, gids),
            (IntegerSums::U8(a), ColumnChunk::U8(v)) => sums_fit(padded(a@, n, u8::zero_spec()), v@, gids),
            (IntegerSums::U16(a), ColumnChunk::U16(v)) => sums_fit(padded(a@, n, u16::zero_spec()), v@, gids),
            (IntegerSums::U32(a), ColumnChunk::U32(v)) => sums_fit(padded(a@, n, u32::zero_spec()), v@, gids),
            (IntegerSums::U64(a), ColumnChunk::U64(v)) => sums_fit(padded(a@, n, u64::zero_spec()), v@, gids),
            _ => false,
        }
    }

    /// The sums after adding the chunk's values to their groups.
    pub open spec fn updated(&self, c: ColumnChunk, gids: Seq<u32>, n: nat) -> Seq<int> {
        match (self, c) {
            (IntegerSums::I8(a), ColumnChunk::I8(v)) => sums_after(a@, v@, gids, n),
            (IntegerSums::I16(a), ColumnChunk::I16(v)) => sums_after(a@, v@, gids, n),
            (IntegerSums::I32(a), ColumnChunk::I32(v)) => sums_after(a@, v@, gids, n),
            (IntegerSums::I64(a), ColumnChunk::I64(v)) => sums_after(a@, v@, gids, n),
            (IntegerSums::U8(a), ColumnChunk::U8(v)) => sums_after(a@, v@, gids, n),
            (IntegerSums::U16(a), ColumnChunk::U16(v)) => sums_after(a@, v@, gids, n),
            (IntegerSums::U32(a), ColumnChunk::U32(v)) => sums_after(a@, v@, gids, n),
            (IntegerSums::U64(a), ColumnChunk::U64(v)) => sums_after(a@, v@, gids, n),
            _ => self.values(),
        }
    }

    /// No group yet, for an integer column type; `None` for the others.
    pub fn new(input: DataType) -> (r: Option<IntegerSums>)
        ensures
            match r {
                Some(s) => s.values() == Seq::<int>::empty() && s.data_type_spec() == input,
                None => !is_integer_type(input),
            },
    {
        let r = match input {
            DataType::I8 => Some(IntegerSums::I8(Vec::new())),
            DataType::I16 => Some(IntegerSums::I16(Vec::new())),
            DataType::I32 => Some(IntegerSums::I32(Vec::new())),
            DataType::I64 => Some(IntegerSums::I64(Vec::new())),
            DataType::U8 => Some(IntegerSums::U8(Vec::new())),
            DataType::U16 => Some(IntegerSums::U16(Vec::new())),
            DataType::U32 => Some(IntegerSums::U32(Vec::new())),
            DataType::U64 => Some(IntegerSums::U64(Vec::new())),
            _ => None,
        };
        proof {
            if r is Some {
                assert(r->0.values() =~= Seq::<int>::empty());
            }
        }
        r
    }

    /// Adds each value of the chunk to the sum of its group; the sums first
    /// grow to `n_groups` zeros. A chunk of another type, or a sum that would
    /// leave the summed type, is refused and nothing changes.
    pub fn update(&mut self, chunk: &ColumnChunk, group_ids: &[u32], n_groups: usize) -> (r: Result<(), ExecutionError>)
        requires
            old(self).accepts(*chunk) ==> ids_fit(old(self).values().len(), chunk.spec_len(), group_ids@, n_groups as nat),
        ensures
            r is Ok <==> old(self).accepts(*chunk) && old(self).fits(*chunk, group_ids@, n_groups as nat),
            r is Ok ==> final(self).values() == old(self).updated(*chunk, group_ids@, n_groups as nat),
            final(self).data_type_spec() == old(self).data_type_spec(),
            r is Err ==> final(self).values() == old(self).values(),
            !old(self).accepts(*chunk) ==> (r matches Err(ExecutionError::InvalidData(m)) && m@
                == "SUM: state/chunk type mismatch (planner bug)"@),
            old(self).accepts(*chunk) && !old(self).fits(*chunk, group_ids@, n_groups as nat) ==> (r matches Err(
                ExecutionError::InvalidData(m),
            ) && m@ == "SUM: overflow"@),
    {
        match (self, chunk) {
            (IntegerSums::I8(acc), ColumnChunk::I8(v)) => {
                if !sums_would_fit(acc, v.as_slice(), group_ids, n_groups) {
                    return Err(ExecutionError::InvalidData(String::from_str("SUM: overflow")));
                }
                grouped_sum_update(acc, v.as_slice(), group_ids, n_groups);
                proof {
                    assert(int_values(acc@) =~= sums_after(old(self)->I8_0@, v@, group_ids@, n_groups as nat));
                }
                Ok(())
            },
            (IntegerSums::I16(acc), ColumnChunk::I16(v)) => {
                if !sums_would_fit(acc, v.as_slice(), group_ids, n_groups) {
                    return Err(ExecutionError::InvalidData(String::from_str("SUM: overflow")));
                }
                grouped_sum_update(acc, v.as_slice(), group_ids, n_groups);
                proof {
                    assert(int_values(acc@) =~= sums_after(old(self)->I16_0@, v@, group_ids@, n_groups as nat));
                }
                Ok(())
            },
            (IntegerSums::I32(acc), ColumnChunk::I32(v)) => {
                if !sums_would_fit(acc, v.as_slice(), group_ids, n_groups) {
                    return Err(ExecutionError::InvalidData(String::from_str("SUM: overflow")));
                }
                grouped_sum_update(acc, v.as_slice(), group_ids, n_groups);
                proof {
                    assert(int_values(acc@) =~= sums_after(old(self)->I32_0@, v@, group_ids@, n_groups as nat));
                }
                Ok(())
            },
            (IntegerSums::I64(acc), ColumnChunk::I64(v)) => {
                if !sums_would_fit(acc, v.as_slice(), group_ids, n_groups) {
                    return Err(ExecutionError::InvalidData(String::from_str("SUM: overflow")));
                }
                grouped_sum_update(acc, v.as_slice(), group_ids, n_groups);
                proof {
                    assert(int_values(acc@) =~= sums_after(old(self)->I64_0@, v@, group_ids@, n_groups as nat));
                }
                Ok(())
            },
            (IntegerSums::U8(acc), ColumnChunk::U8(v)) => {
                if !sums_would_fit(acc, v.as_slice(), group_ids, n_groups) {
                    return Err(ExecutionError::InvalidData(String::from_str("SUM: overflow")));
                }
                grouped_sum_update(acc, v.as_slice(), group_ids, n_groups);
                proof {
                    assert(int_values(acc@) =~= sums_after(old(self)->U8_0@, v@, group_ids@, n_groups as nat));
                }
                Ok(())
            },
            (IntegerSums::U16(acc), ColumnChunk::U16(v)) => {
                if !sums_would_fit(acc, v.as_slice(), group_ids, n_groups) {
                    return Err(ExecutionError::InvalidData(String::from_str("SUM: overflow")));
                }
                grouped_sum_update(acc, v.as_slice(), group_ids, n_groups);
                proof {
                    assert(int_values(acc@) =~= sums_after(old(self)->U16_0@, v@, group_ids@, n_groups as nat));
                }
                Ok(())
            },
            (IntegerSums::U32(acc), ColumnChunk::U32(v)) => {
                if !sums_would_fit(acc, v.as_slice(), group_ids, n_groups) {
                    return Err(ExecutionError::InvalidData(String::from_str("SUM: overflow")));
                }
                grouped_sum_update(acc, v.as_slice(), group_ids, n_groups);
                proof {
                    assert(int_values(acc@) =~= sums_after(old(self)->U32_0@, v@, group_ids@, n_groups as nat));
                }
                Ok(())
            },
            (IntegerSums::U64(acc), ColumnChunk::U64(v)) => {
                if !sums_would_fit(acc, v.as_slice(), group_ids, n_groups) {
                    return Err(ExecutionError::InvalidData(String::from_str("SUM: overflow")));
                }
                grouped_sum_update(acc, v.as_slice(), group_ids, n_groups);
                proof {
                    assert(int_values(acc@) =~= sums_after(old(self)->U64_0@, v@, group_ids@, n_groups as nat));
                }
                Ok(())
            },
            _ => Err(ExecutionError::InvalidData(String::from_str("SUM: state/chunk type mismatch (planner bug)"))),
        }
    }

    /// One sum per group.
    pub fn finalize(&self) -> (r: ColumnChunk)
        ensures
            r.spec_len() == self.values().len(),
            forall|g: int| 0 <= g < self.values().len() ==> #[trigger] chunk_int(r, g) == self.values()[g],
            chunk_type(r) == self.data_type_spec(),
    {
        match self {
            IntegerSums::I8(v) => ColumnChunk::I8(v.clone()),
            IntegerSums::I16(v) => ColumnChunk::I16(v.clone()),
            IntegerSums::I32(v) => ColumnChunk::I32(v.clone()),
            IntegerSums::I64(v) => ColumnChunk::I64(v.clone()),
            IntegerSums::U8(v) => ColumnChunk::U8(v.clone()),
            IntegerSums::U16(v) => ColumnChunk::U16(v.clone()),
            IntegerSums::U32(v) => ColumnChunk::U32(v.clone()),
            IntegerSums::U64(v) => ColumnChunk::U64(v.clone()),
        }
    }

    /// The number of groups held so far.
    pub fn group_count(&self) -> (r: usize)
        ensures
            r == self.values().len(),
    {
        match self {
            IntegerSums::I8(v) => v.len(),
            IntegerSums::I16(v) => v.len(),
            IntegerSums::I32(v) => v.len(),
            IntegerSums::I64(v) => v.len(),
            IntegerSums::U8(v) => v.len(),
            IntegerSums::U16(v) => v.len(),
            IntegerSums::U32(v) => v.len(),
            IntegerSums::U64(v) => v.len(),
        }
    }

    pub fn data_type(&self) -> (r: DataType)
        ensures
            r == self.data_type_spec(),
    {
        match self {
            IntegerSums::I8(_) => DataType::I8,
            IntegerSums::I16(_) => DataType::I16,
            IntegerSums::I32(_) => DataType::I32,
            IntegerSums::I64(_) => DataType::I64,
            IntegerSums::U8(_) => DataType::U8,
            IntegerSums::U16(_) => DataType::U16,
            IntegerSums::U32(_) => DataType::U32,
            IntegerSums::U64(_) => DataType::U64,
        }
    }
}

pub open spec fn is_integer_type(t: DataType) -> bool {
    t is I8 || t is I16 || t is I32 || t is I64 || t is U8 || t is U16 || t is U32 || t is U64
}

/// Row `g` of an integer column, as an integer.
pub open spec fn chunk_int(c: ColumnChunk, g: int) -> int {
    match c {
        ColumnChunk::I8(v) => v@[g] as int,
        ColumnChunk::I16(v) => v@[g] as int,
        ColumnChunk::I32(v) => v@[g] as int,
        ColumnChunk::I64(v) => v@[g] as int,
        ColumnChunk::U8(v) => v@[g] as int,
        ColumnChunk::U16(v) => v@[g] as int,
        ColumnChunk::U32(v) => v@[g] as int,
        ColumnChunk::U64(v) => v@[g] as int,
        _ => 0,
    }
}

pub open spec fn chunk_type(c: ColumnChunk) -> DataType {
    match c {
        ColumnChunk::I8(_) => DataType::I8,
        ColumnChunk::I16(_) => DataType::I16,
        ColumnChunk::I32(_) => DataType::I32,
        ColumnChunk::I64(_) => DataType::I64,
        ColumnChunk::U8(_) => DataType::U8,
        ColumnChunk::U16(_) => DataType::U16,
        ColumnChunk::U32(_) => DataType::U32,
        ColumnChunk::U64(_) => DataType::U64,
        ColumnChunk::F32(_) => DataType::F32,
        ColumnChunk::F64(_) => DataType::F64,
        ColumnChunk::Bool(_) => DataType::Bool,
        ColumnChunk::Str(_) => DataType::Str,
    }
}

} // verus!
