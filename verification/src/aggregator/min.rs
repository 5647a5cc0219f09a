//! Min aggregate.
//!
//! State is `Option<T>`: `None` means no values seen yet. `Min` is for totally
//! ordered integers; `MinFloat` needs only a partial order, and never adopts a
//! value that compares neither greater nor less (a NaN), so such values are
//! skipped.
use vstd::prelude::*;
use vstd::string::*;

use core::marker::PhantomData;

use crate::aggregator::grouped::{fmin_updated, grouped_fmin_update, grouped_min_update, ids_fit, min_updated};
use crate::aggregator::states::{empty_states, finalized, GroupStates, GroupStatesView};
use crate::aggregator::{Integer, PartialCompare};
use crate::catalog::schema::DataType;
use crate::frontend::analyzer::{data_type_name, data_type_name_spec};
use crate::processors::processor::ExecutionError;
use crate::storage::column_chunk::ColumnChunk;

verus! {

pub struct Min<T>(pub PhantomData<T>);

/// The smaller of two partial minima; on a tie the first one.
pub open spec fn min_merge<T: Integer>(a: Option<T>, b: Option<T>) -> Option<T> {
    match (a, b) {
        (_, None) => a,
        (None, Some(bv)) => Some(bv),
        (Some(av), Some(bv)) => if bv.int_value() < av.int_value() {
            Some(bv)
        } else {
            Some(av)
        },
    }
}

/// Minimum of a sequence, `None` when it is empty.
pub open spec fn seq_min<T: Integer>(s: Seq<T>) -> Option<T>
    decreases s.len(),
{
    if s.len() == 0 {
        None
    } else {
        min_merge(seq_min(s.drop_last()), Some(s.last()))
    }
}

pub proof fn lemma_min_merge_assoc<T: Integer>(x: Option<T>, y: Option<T>, z: Option<T>)
    ensures
        min_merge(min_merge(x, y), z) == min_merge(x, min_merge(y, z)),
{
    if let (Some(a), Some(b), Some(c)) = (x, y, z) {
        a.lemma_injective(&b);
        b.lemma_injective(&c);
        a.lemma_injective(&c);
    }
}

pub proof fn lemma_min_merge_none<T: Integer>(x: Option<T>)
    ensures
        min_merge(None, x) == x,
        min_merge(x, None) == x,
{
}

/// The minimum of a concatenation merges the minima of its parts.
pub proof fn lemma_seq_min_concat<T: Integer>(a: Seq<T>, b: Seq<T>)
    ensures
        seq_min(a + b) == min_merge(seq_min(a), seq_min(b)),
    decreases b.len(),
{
    if b.len() == 0 {
        assert(a + b =~= a);
    } else {
        lemma_seq_min_concat(a, b.drop_last());
        assert((a + b).drop_last() =~= a + b.drop_last());
        assert((a + b).last() == b.last());
        lemma_min_merge_assoc(seq_min(a), seq_min(b.drop_last()), Some(b.last()));
    }
}

/// Splitting the input anywhere, taking the minimum of each side and merging
/// them gives the minimum of the whole input.
pub proof fn lemma_min_split<T: Integer>(s: Seq<T>, k: int)
    requires
        0 <= k <= s.len(),
    ensures
        min_merge(seq_min(s.take(k)), seq_min(s.skip(k))) == seq_min(s),
{
    assert(s.take(k) + s.skip(k) =~= s);
    lemma_seq_min_concat(s.take(k), s.skip(k));
}

impl<T: Integer> Min<T> {
    pub fn init() -> (r: Option<T>)
        ensures
            r is None,
    {
        None
    }

    /// Folds a chunk of input into the state.
    pub fn update(state: &mut Option<T>, input: &[T])
        ensures
            *final(state) == min_merge(*old(state), seq_min(input@)),
    {
        let mut chunk_min: Option<T> = None;
        let mut i: usize = 0;
        while i < input.len()
            invariant
                i <= input@.len(),
                chunk_min == seq_min(input@.take(i as int)),
            decreases input@.len() - i,
        {
            proof {
                assert(input@.take(i + 1).drop_last() =~= input@.take(i as int));
            }
            Self::merge(&mut chunk_min, Some(input[i]));
            i = i + 1;
        }
        proof {
            assert(input@.take(input@.len() as int) =~= input@);
        }
        Self::merge(state, chunk_min);
    }

    /// Combines two partial states.
    pub fn merge(a: &mut Option<T>, b: Option<T>)
        ensures
            *final(a) == min_merge(*old(a), b),
    {
        match (*a, b) {
            (_, None) => {},
            (None, Some(bv)) => *a = Some(bv),
            (Some(av), Some(bv)) => {
                if bv.lt(&av) {
                    *a = Some(bv);
                } else {
                    *a = Some(av);
                }
            },
        }
    }

    pub fn finalize(state: Option<T>) -> (r: Option<T>)
        ensures
            r == state,
    {
        state
    }
}

pub struct MinFloat<T>(pub PhantomData<T>);

/// One step of the partial-order minimum: a value unordered with itself (a
/// NaN) is skipped; any other `v` is adopted when nothing is held yet or when
/// it compares less than what is held.
pub open spec fn min_float_step<T: PartialCompare>(state: Option<T>, v: T) -> Option<T> {
    if v.spec_unordered() {
        state
    } else {
        match state {
            None => Some(v),
            Some(current) => if v.spec_lt(&current) {
                Some(v)
            } else {
                Some(current)
            },
        }
    }
}

/// The state after folding `s` into `state` from left to right.
pub open spec fn min_float_fold<T: PartialCompare>(state: Option<T>, s: Seq<T>) -> Option<T>
    decreases s.len(),
{
    if s.len() == 0 {
        state
    } else {
        min_float_step(min_float_fold(state, s.drop_last()), s.last())
    }
}

pub open spec fn min_float_merge<T: PartialCompare>(a: Option<T>, b: Option<T>) -> Option<T> {
    match (a, b) {
        (_, None) => a,
        (None, Some(bv)) => if bv.spec_unordered() {
            a
        } else {
            Some(bv)
        },
        (Some(av), Some(bv)) => if bv.spec_lt(&av) {
            Some(bv)
        } else {
            a
        },
    }
}

impl<T: PartialCompare> MinFloat<T> {
    pub fn init() -> (r: Option<T>)
        ensures
            r is None,
    {
        None
    }

    pub fn update(state: &mut Option<T>, input: &[T])
        ensures
            *final(state) == min_float_fold(*old(state), input@),
    {
        let ghost start = *state;
        let mut i: usize = 0;
        while i < input.len()
            invariant
                i <= input@.len(),
                *state == min_float_fold(start, input@.take(i as int)),
            decreases input@.len() - i,
        {
            proof {
                assert(input@.take(i + 1).drop_last() =~= input@.take(i as int));
            }
            let v = input[i];
            if !v.unordered() {
                match *state {
                    None => *state = Some(v),
                    Some(current) => {
                        if v.lt(&current) {
                            *state = Some(v);
                        }
                    },
                }
            }
            i = i + 1;
        }
        proof {
            assert(input@.take(input@.len() as int) =~= input@);
        }
    }

    pub fn merge(a: &mut Option<T>, b: Option<T>)
        ensures
            *final(a) == min_float_merge(*old(a), b),
    {
        match (*a, b) {
            (_, None) => {},
            (None, Some(bv)) => {
                if !bv.unordered() {
                    *a = Some(bv);
                }
            },
            (Some(av), Some(bv)) => {
                if bv.lt(&av) {
                    *a = Some(bv);
                }
            },
        }
    }

    pub fn finalize(state: Option<T>) -> (r: Option<T>)
        ensures
            r == state,
    {
        state
    }
}

/// The states after folding the (value, group id) pairs of a chunk of their
/// own type into them; the states unchanged for a chunk of another type.
pub open spec fn min_update_spec(s: GroupStatesView, c: ColumnChunk, gids: Seq<u32>, n: nat) -> GroupStatesView {
    match (s, c) {
        (GroupStatesView::I8(a), ColumnChunk::I8(v)) => GroupStatesView::I8(min_updated(a, v@, gids, n)),
        (GroupStatesView::I16(a), ColumnChunk::I16(v)) => GroupStatesView::I16(min_updated(a, v@, gids, n)),
        (GroupStatesView::I32(a), ColumnChunk::I32(v)) => GroupStatesView::I32(min_updated(a, v@, gids, n)),
        (GroupStatesView::I64(a), ColumnChunk::I64(v)) => GroupStatesView::I64(min_updated(a, v@, gids, n)),
        (GroupStatesView::U8(a), ColumnChunk::U8(v)) => GroupStatesView::U8(min_updated(a, v@, gids, n)),
        (GroupStatesView::U16(a), ColumnChunk::U16(v)) => GroupStatesView::U16(min_updated(a, v@, gids, n)),
        (GroupStatesView::U32(a), ColumnChunk::U32(v)) => GroupStatesView::U32(min_updated(a, v@, gids, n)),
        (GroupStatesView::U64(a), ColumnChunk::U64(v)) => GroupStatesView::U64(min_updated(a, v@, gids, n)),
        (GroupStatesView::F32(a), ColumnChunk::F32(v)) => GroupStatesView::F32(fmin_updated(a, v@, gids, n)),
        (GroupStatesView::F64(a), ColumnChunk::F64(v)) => GroupStatesView::F64(fmin_updated(a, v@, gids, n)),
        _ => s,
    }
}

/// MIN over a column, one result per group.
pub struct MinAgg {
    state: GroupStates,
}

impl View for MinAgg {
    type V = GroupStatesView;

    closed spec fn view(&self) -> GroupStatesView {
        self.state@
    }
}

impl MinAgg {
    /// An aggregate with no group yet; an error for a column type that has no
    /// order (Bool, Str).
    pub fn new(input: DataType) -> (r: Result<Self, ExecutionError>)
        ensures
            match r {
                Ok(a) => empty_states(input) == Some(a@),
                Err(e) => empty_states(input) is None && (e matches ExecutionError::InvalidData(m) && m@
                    == "MIN is not supported for type "@ + data_type_name_spec(input)),
            },
    {
        match GroupStates::empty(input) {
            Some(state) => Ok(MinAgg { state }),
            None => {
                let mut m = String::from_str("MIN is not supported for type ");
                m.append(data_type_name(input));
                Err(ExecutionError::InvalidData(m))
            },
        }
    }

    /// Folds each value of the chunk into the state of its group; the states
    /// first grow to `n_groups`. A chunk of another type than the aggregate
    /// was built for is refused and nothing changes.
    pub fn update(&mut self, chunk: &ColumnChunk, group_ids: &[u32], n_groups: usize) -> (r: Result<(), ExecutionError>)
        requires
            old(self)@.accepts(*chunk) ==> ids_fit(old(self)@.len(), chunk.spec_len(), group_ids@, n_groups as nat),
        ensures
            old(self)@.accepts(*chunk) ==> r is Ok && final(self)@ == min_update_spec(
                old(self)@,
                *chunk,
                group_ids@,
                n_groups as nat,
            ),
            !old(self)@.accepts(*chunk) ==> final(self)@ == old(self)@ && (r matches Err(
                ExecutionError::InvalidData(m),
            ) && m@ == "MIN: state/chunk type mismatch (planner bug)"@),
    {
        match (&mut self.state, chunk) {
            (GroupStates::I8(acc), ColumnChunk::I8(v)) => grouped_min_update(acc, v.as_slice(), group_ids, n_groups),
            (GroupStates::I16(acc), ColumnChunk::I16(v)) => grouped_min_update(acc, v.as_slice(), group_ids, n_groups),
            (GroupStates::I32(acc), ColumnChunk::I32(v)) => grouped_min_update(acc, v.as_slice(), group_ids, n_groups),
            (GroupStates::I64(acc), ColumnChunk::I64(v)) => grouped_min_update(acc, v.as_slice(), group_ids, n_groups),
            (GroupStates::U8(acc), ColumnChunk::U8(v)) => grouped_min_update(acc, v.as_slice(), group_ids, n_groups),
            (GroupStates::U16(acc), ColumnChunk::U16(v)) => grouped_min_update(acc, v.as_slice(), group_ids, n_groups),
            (GroupStates::U32(acc), ColumnChunk::U32(v)) => grouped_min_update(acc, v.as_slice(), group_ids, n_groups),
            (GroupStates::U64(acc), ColumnChunk::U64(v)) => grouped_min_update(acc, v.as_slice(), group_ids, n_groups),
            (GroupStates::F32(acc), ColumnChunk::F32(v)) => grouped_fmin_update(acc, v.as_slice(), group_ids, n_groups),
            (GroupStates::F64(acc), ColumnChunk::F64(v)) => grouped_fmin_update(acc, v.as_slice(), group_ids, n_groups),
            _ => {
                return Err(ExecutionError::InvalidData(String::from_str("MIN: state/chunk type mismatch (planner bug)")));
            },
        }
        Ok(())
    }

    /// One value per group: its result, zero for a group that saw no value.
    pub fn finalize(&mut self) -> (r: ColumnChunk)
        ensures
            finalized(old(self)@, r),
            final(self)@ == old(self)@,
    {
        self.state.finalize()
    }

    /// The number of groups held so far.
    pub fn group_count(&self) -> (r: usize)
        ensures
            r == self@.len(),
    {
        self.state.len()
    }

    /// The type of the finalized column: the input type.
    pub fn output_type(&self) -> (r: DataType)
        ensures
            r == self@.data_type(),
    {
        self.state.data_type()
    }
}

} // verus!
