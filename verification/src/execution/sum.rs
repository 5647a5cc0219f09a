//! SUM over an integer column, accumulated in a wider type: signed columns
//! sum into an `i64`, unsigned ones into a `u64`. An overflow of the wide
//! accumulator is reported, not wrapped.
use vstd::prelude::*;
use vstd::string::*;

use crate::aggregator::Integer;
use crate::aggregator::sum::seq_sum;
use crate::catalog::schema::DataType;
use crate::processors::processor::ExecutionError;
use crate::storage::column_chunk::ColumnChunk;

verus! {

/// A running sum in the accumulator type of its column.
#[derive(Clone, Copy, Debug, PartialEq, Eq, Structural)]
pub enum WideSum {
    Signed(i64),
    Unsigned(u64),
}

impl WideSum {
    pub open spec fn value(self) -> int {
        match self {
            WideSum::Signed(v) => v as int,
            WideSum::Unsigned(v) => v as int,
        }
    }

    pub open spec fn lo(self) -> int {
        match self {
            WideSum::Signed(_) => i64::MIN as int,
            WideSum::Unsigned(_) => 0,
        }
    }

    pub open spec fn hi(self) -> int {
        match self {
            WideSum::Signed(_) => i64::MAX as int,
            WideSum::Unsigned(_) => u64::MAX as int,
        }
    }

    /// A zero sum for an integer column type; `None` for the others, whose
    /// sums are not integers.
    pub fn for_type(t: DataType) -> (r: Option<WideSum>)
        ensures
            match r {
                Some(s) => s.value() == 0 && (s is Signed <==> (t is I8 || t is I16 || t is I32 || t is I64)) && (s is Unsigned
                    <==> (t is U8 || t is U16 || t is U32 || t is U64)),
                None => !(t is I8 || t is I16 || t is I32 || t is I64 || t is U8 || t is U16 || t is U32 || t is U64),
            },
    {
        match t {
            DataType::I8 | DataType::I16 | DataType::I32 | DataType::I64 => Some(WideSum::Signed(0)),
            DataType::U8 | DataType::U16 | DataType::U32 | DataType::U64 => Some(WideSum::Unsigned(0)),
            _ => None,
        }
    }
}

/// The sum goes through `vals` from `start` without leaving `[lo, hi]`.
pub open spec fn running_fits<T: Integer>(start: int, vals: Seq<T>, lo: int, hi: int) -> bool {
    forall|k: int| 0 <= k <= vals.len() ==> lo <= start + #[trigger] seq_sum(vals.take(k)) <= hi
}

/// The chunk holds integers of the signedness the sum is kept in.
pub open spec fn sum_accepts(s: WideSum, c: ColumnChunk) -> bool {
    match (s, c) {
        (WideSum::Signed(_), ColumnChunk::I8(_)) => true,
        (WideSum::Signed(_), ColumnChunk::I16(_)) => true,
        (WideSum::Signed(_), ColumnChunk::I32(_)) => true,
        (WideSum::Signed(_), ColumnChunk::I64(_)) => true,
        (WideSum::Unsigned(_), ColumnChunk::U8(_)) => true,
        (WideSum::Unsigned(_), ColumnChunk::U16(_)) => true,
        (WideSum::Unsigned(_), ColumnChunk::U32(_)) => true,
        (WideSum::Unsigned(_), ColumnChunk::U64(_)) => true,
        _ => false,
    }
}

/// The sum of an integer chunk's values, and whether it can be added to `s`
/// one value at a time without overflow.
pub open spec fn chunk_total(c: ColumnChunk) -> int {
    match c {
        ColumnChunk::I8(v) => seq_sum(v@),
        ColumnChunk::I16(v) => seq_sum(v@),
        ColumnChunk::I32(v) => seq_sum(v@),
        ColumnChunk::I64(v) => seq_sum(v@),
        ColumnChunk::U8(v) => seq_sum(v@),
        ColumnChunk::U16(v) => seq_sum(v@),
        ColumnChunk::U32(v) => seq_sum(v@),
        ColumnChunk::U64(v) => seq_sum(v@),
        _ => 0,
    }
}

pub open spec fn chunk_fits(s: WideSum, c: ColumnChunk) -> bool {
    match c {
        ColumnChunk::I8(v) => running_fits(s.value(), v@, s.lo(), s.hi()),
        ColumnChunk::I16(v) => running_fits(s.value(), v@, s.lo(), s.hi()),
        ColumnChunk::I32(v) => running_fits(s.value(), v@, s.lo(), s.hi()),
        ColumnChunk::I64(v) => running_fits(s.value(), v@, s.lo(), s.hi()),
        ColumnChunk::U8(v) => running_fits(s.value(), v@, s.lo(), s.hi()),
        ColumnChunk::U16(v) => running_fits(s.value(), v@, s.lo(), s.hi()),
        ColumnChunk::U32(v) => running_fits(s.value(), v@, s.lo(), s.hi()),
        ColumnChunk::U64(v) => running_fits(s.value(), v@, s.lo(), s.hi()),
        _ => false,
    }
}

/// Adds `vals` to `start` one by one; `None` at the first running sum that
/// leaves `[lo, hi]`.
fn add_all<T: Integer>(start: i128, vals: &Vec<T>, lo: i128, hi: i128) -> (r: Option<i128>)
    requires
        lo <= start <= hi,
        i64::MIN <= lo,
        hi <= u64::MAX,
        i64::MIN <= T::min_int(),
        T::max_int() <= u64::MAX,
    ensures
        match r {
            Some(v) => running_fits(start as int, vals@, lo as int, hi as int) && v == start + seq_sum(vals@) && lo <= v
                <= hi,
            None => !running_fits(start as int, vals@, lo as int, hi as int),
        },
{
    let mut acc = start;
    let mut i: usize = 0;
    proof {
        assert(vals@.take(0) =~= Seq::<T>::empty());
    }
    while i < vals.len()
        invariant
            i <= vals@.len(),
            i64::MIN <= lo,
            hi <= u64::MAX,
            i64::MIN <= T::min_int(),
            T::max_int() <= u64::MAX,
            lo <= acc <= hi,
            acc == start + seq_sum(vals@.take(i as int)),
            forall|k: int| 0 <= k <= i ==> lo <= start + #[trigger] seq_sum(vals@.take(k)) <= hi,
        decreases vals@.len() - i,
    {
        proof {
            assert(vals@.take(i + 1).drop_last() =~= vals@.take(i as int));
            vals@[i as int].lemma_range();
        }
        let x = vals[i].to_i128();
        let next = acc + x;
        if next < lo || next > hi {
            proof {
                assert(seq_sum(vals@.take(i + 1)) == seq_sum(vals@.take(i as int)) + vals@[i as int].int_value());
            }
            return None;
        }
        acc = next;
        i = i + 1;
    }
    proof {
        assert(vals@.take(vals@.len() as int) =~= vals@);
    }
    Some(acc)
}

/// Adds the values of an integer chunk to the running sum. A chunk of
/// another kind, or a running sum that would overflow the accumulator, is
/// reported; the sum is then unchanged.
pub fn sum_into(s: &mut WideSum, c: &ColumnChunk) -> (r: Result<(), ExecutionError>)
    ensures
        r is Ok <==> sum_accepts(*old(s), *c) && chunk_fits(*old(s), *c),
        r is Ok ==> final(s).value() == old(s).value() + chunk_total(*c) && (*final(s) is Signed <==> *old(s) is Signed),
        r is Err ==> *final(s) == *old(s) && r->Err_0 is InvalidData,
{
    let (start, lo, hi): (i128, i128, i128) = match *s {
        WideSum::Signed(v) => (v as i128, i64::MIN as i128, i64::MAX as i128),
        WideSum::Unsigned(v) => (v as i128, 0, u64::MAX as i128),
    };
    let total = match (&*s, c) {
        (WideSum::Signed(_), ColumnChunk::I8(v)) => add_all(start, v, lo, hi),
        (WideSum::Signed(_), ColumnChunk::I16(v)) => add_all(start, v, lo, hi),
        (WideSum::Signed(_), ColumnChunk::I32(v)) => add_all(start, v, lo, hi),
        (WideSum::Signed(_), ColumnChunk::I64(v)) => add_all(start, v, lo, hi),
        (WideSum::Unsigned(_), ColumnChunk::U8(v)) => add_all(start, v, lo, hi),
        (WideSum::Unsigned(_), ColumnChunk::U16(v)) => add_all(start, v, lo, hi),
        (WideSum::Unsigned(_), ColumnChunk::U32(v)) => add_all(start, v, lo, hi),
        (WideSum::Unsigned(_), ColumnChunk::U64(v)) => add_all(start, v, lo, hi),
        _ => {
            return Err(ExecutionError::InvalidData(String::from_str("SUM: column is not of the summed type")));
        },
    };
    match total {
        Some(t) => {
            match *s {
                WideSum::Signed(_) => *s = WideSum::Signed(t as i64),
                WideSum::Unsigned(_) => *s = WideSum::Unsigned(t as u64),
            }
            Ok(())
        },
        None => Err(ExecutionError::InvalidData(String::from_str("SUM: overflow"))),
    }
}

} // verus!
