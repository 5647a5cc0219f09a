//! MAX over an integer column of a batch, one running maximum per group.
//!
//! Without GROUP BY (a single group) the batch's whole column is reduced at
//! once and the result merged into the running maximum; with groups each row
//! goes to the state of its group id.
use vstd::prelude::*;
use vstd::string::*;

use crate::aggregator::grouped::{grouped_max_update, ids_fit, ids_would_fit, max_updated, padded};
use crate::aggregator::max::{max_merge, seq_max, Max};
use crate::aggregator::states::or_default;
use crate::aggregator::Integer;
use crate::catalog::schema::{find_column_spec, lemma_find_column, ColumnSchema, DataType};
use crate::execution::filter::{batch_cols, column_position};
use crate::processors::batch::Batch;
use crate::processors::processor::ExecutionError;
use crate::storage::column_chunk::ColumnChunk;

verus! {

/// An integer type that a column chunk can hold.
pub trait ColumnInt: Integer {
    /// The values of `c` when it holds this type.
    spec fn column_values(c: ColumnChunk) -> Option<Seq<Self>>;

    spec fn data_type_spec() -> DataType;

    fn values_in(c: &ColumnChunk) -> (r: Option<&Vec<Self>>)
        ensures
            match r {
                Some(v) => Self::column_values(*c) == Some(v@),
                None => Self::column_values(*c) is None,
            },
    ;

    fn data_type() -> (r: DataType)
        ensures
            r == Self::data_type_spec(),
    ;

    /// The column holding `values`.
    fn into_chunk(values: Vec<Self>) -> (r: ColumnChunk)
        ensures
            Self::column_values(r) == Some(values@),
    ;
}

impl ColumnInt for i8 {
    open spec fn column_values(c: ColumnChunk) -> Option<Seq<Self>> {
        match c {
            ColumnChunk::I8(v) => Some(v@),
            _ => None,
        }
    }

    open spec fn data_type_spec() -> DataType {
        DataType::I8
    }

    fn values_in(c: &ColumnChunk) -> (r: Option<&Vec<Self>>) {
        match c {
            ColumnChunk::I8(v) => Some(v),
            _ => None,
        }
    }

    fn data_type() -> (r: DataType) {
        DataType::I8
    }

    fn into_chunk(values: Vec<Self>) -> (r: ColumnChunk) {
        ColumnChunk::I8(values)
    }
}

impl ColumnInt for i16 {
    open spec fn column_values(c: ColumnChunk) -> Option<Seq<Self>> {
        match c {
            ColumnChunk::I16(v) => Some(v@),
            _ => None,
        }
    }

    open spec fn data_type_spec() -> DataType {
        DataType::I16
    }

    fn values_in(c: &ColumnChunk) -> (r: Option<&Vec<Self>>) {
        match c {
            ColumnChunk::I16(v) => Some(v),
            _ => None,
        }
    }

    fn data_type() -> (r: DataType) {
        DataType::I16
    }

    fn into_chunk(values: Vec<Self>) -> (r: ColumnChunk) {
        ColumnChunk::I16(values)
    }
}

impl ColumnInt for i32 {
    open spec fn column_values(c: ColumnChunk) -> Option<Seq<Self>> {
        match c {
            ColumnChunk::I32(v) => Some(v@),
            _ => None,
        }
    }

    open spec fn data_type_spec() -> DataType {
        DataType::I32
    }

    fn values_in(c: &ColumnChunk) -> (r: Option<&Vec<Self>>) {
        match c {
            ColumnChunk::I32(v) => Some(v),
            _ => None,
        }
    }

    fn data_type() -> (r: DataType) {
        DataType::I32
    }

    fn into_chunk(values: Vec<Self>) -> (r: ColumnChunk) {
        ColumnChunk::I32(values)
    }
}

impl ColumnInt for i64 {
    open spec fn column_values(c: ColumnChunk) -> Option<Seq<Self>> {
        match c {
            ColumnChunk::I64(v) => Some(v@),
            _ => None,
        }
    }

    open spec fn data_type_spec() -> DataType {
        DataType::I64
    }

    fn values_in(c: &ColumnChunk) -> (r: Option<&Vec<Self>>) {
        match c {
            ColumnChunk::I64(v) => Some(v),
            _ => None,
        }
    }

    fn data_type() -> (r: DataType) {
        DataType::I64
    }

    fn into_chunk(values: Vec<Self>) -> (r: ColumnChunk) {
        ColumnChunk::I64(values)
    }
}

impl ColumnInt for u8 {
    open spec fn column_values(c: ColumnChunk) -> Option<Seq<Self>> {
        match c {
            ColumnChunk::U8(v) => Some(v@),
            _ => None,
        }
    }

    open spec fn data_type_spec() -> DataType {
        DataType::U8
    }

    fn values_in(c: &ColumnChunk) -> (r: Option<&Vec<Self>>) {
        match c {
            ColumnChunk::U8(v) => Some(v),
            _ => None,
        }
    }

    fn data_type() -> (r: DataType) {
        DataType::U8
    }

    fn into_chunk(values: Vec<Self>) -> (r: ColumnChunk) {
        ColumnChunk::U8(values)
    }
}

impl ColumnInt for u16 {
    open spec fn column_values(c: ColumnChunk) -> Option<Seq<Self>> {
        match c {
            ColumnChunk::U16(v) => Some(v@),
            _ => None,
        }
    }

    open spec fn data_type_spec() -> DataType {
        DataType::U16
    }

    fn values_in(c: &ColumnChunk) -> (r: Option<&Vec<Self>>) {
        match c {
            ColumnChunk::U16(v) => Some(v),
            _ => None,
        }
    }

    fn data_type() -> (r: DataType) {
        DataType::U16
    }

    fn into_chunk(values: Vec<Self>) -> (r: ColumnChunk) {
        ColumnChunk::U16(values)
    }
}

impl ColumnInt for u32 {
    open spec fn column_values(c: ColumnChunk) -> Option<Seq<Self>> {
        match c {
            ColumnChunk::U32(v) => Some(v@),
            _ => None,
        }
    }

    open spec fn data_type_spec() -> DataType {
        DataType::U32
    }

    fn values_in(c: &ColumnChunk) -> (r: Option<&Vec<Self>>) {
        match c {
            ColumnChunk::U32(v) => Some(v),
            _ => None,
        }
    }

    fn data_type() -> (r: DataType) {
        DataType::U32
    }

    fn into_chunk(values: Vec<Self>) -> (r: ColumnChunk) {
        ColumnChunk::U32(values)
    }
}

impl ColumnInt for u64 {
    open spec fn column_values(c: ColumnChunk) -> Option<Seq<Self>> {
        match c {
            ColumnChunk::U64(v) => Some(v@),
            _ => None,
        }
    }

    open spec fn data_type_spec() -> DataType {
        DataType::U64
    }

    fn values_in(c: &ColumnChunk) -> (r: Option<&Vec<Self>>) {
        match c {
            ColumnChunk::U64(v) => Some(v),
            _ => None,
        }
    }

    fn data_type() -> (r: DataType) {
        DataType::U64
    }

    fn into_chunk(values: Vec<Self>) -> (r: ColumnChunk) {
        ColumnChunk::U64(values)
    }
}

/// The values of the batch column named `name`, when there is one.
pub open spec fn named_values<T: ColumnInt>(b: Batch, name: Seq<char>) -> Option<Seq<T>> {
    match find_column_spec(batch_cols(b), name) {
        Some(k) => T::column_values(b.columns@[k]),
        None => None,
    }
}

/// The batch column named `name`, if any, holds values of type `T`.
pub open spec fn typed_if_present<T: ColumnInt>(b: Batch, name: Seq<char>) -> bool {
    find_column_spec(batch_cols(b), name) is Some ==> named_values::<T>(b, name) is Some
}

/// The states after folding `vals` in: without groups (`n == 1`) the
/// maximum of all of `vals` merges into the one state; otherwise each value
/// goes to the state of its group id.
pub open spec fn folded<T: ColumnInt>(states: Seq<Option<T>>, vals: Seq<T>, gids: Seq<u32>, n: nat) -> Seq<Option<T>> {
    if n == 1 {
        let p = padded(states, 1, None);
        p.update(0, max_merge(p[0], seq_max(vals)))
    } else {
        max_updated(states, vals, gids, n)
    }
}

/// The fold can run: with groups, every zipped row's group id has a state
/// and every group id has a value.
pub open spec fn fold_ok<T: ColumnInt>(len: nat, vals: Seq<T>, gids: Seq<u32>, n: nat) -> bool {
    n != 1 ==> gids.len() <= vals.len() && ids_fit(len, vals.len(), gids, n)
}

pub struct MaxAccumulator<T: ColumnInt> {
    has_value: Vec<bool>,
    running_maximums: Vec<T>,
    column_name: String,
}

impl<T: ColumnInt> MaxAccumulator<T> {
    /// The two state vectors have the same length, and a group that has seen
    /// no value holds zero.
    pub closed spec fn wf(&self) -> bool {
        &&& self.has_value@.len() == self.running_maximums@.len()
        &&& forall|g: int|
            0 <= g < self.has_value@.len() && !(#[trigger] self.has_value@[g]) ==> self.running_maximums@[g]
                == T::zero_spec()
    }

    /// The maximum of each group, `None` for a group that has seen no value.
    pub closed spec fn states(&self) -> Seq<Option<T>> {
        Seq::new(
            self.has_value@.len(),
            |g: int|
                if self.has_value@[g] {
                    Some(self.running_maximums@[g])
                } else {
                    None
                },
        )
    }

    /// The running maxima as stored, a zero where a group has no value.
    pub closed spec fn stored(&self) -> Seq<T> {
        self.running_maximums@
    }

    pub closed spec fn column(&self) -> Seq<char> {
        self.column_name@
    }

    pub fn new(column_name: String) -> (r: Self)
        ensures
            r.wf(),
            r.states() == Seq::<Option<T>>::empty(),
            r.column() == column_name@,
    {
        let r = MaxAccumulator { column_name, running_maximums: Vec::new(), has_value: Vec::new() };
        assert(r.states() =~= Seq::<Option<T>>::empty());
        r
    }

    fn load(&self) -> (r: Vec<Option<T>>)
        requires
            self.wf(),
        ensures
            r@ == self.states(),
    {
        let mut out: Vec<Option<T>> = Vec::new();
        let mut g: usize = 0;
        while g < self.has_value.len()
            invariant
                self.wf(),
                g <= self.has_value@.len(),
                out@ == self.states().take(g as int),
            decreases self.has_value@.len() - g,
        {
            if self.has_value[g] {
                out.push(Some(self.running_maximums[g]));
            } else {
                out.push(None);
            }
            g = g + 1;
            assert(out@ =~= self.states().take(g as int));
        }
        assert(self.states().take(g as int) =~= self.states());
        out
    }

    fn store(&mut self, states: &Vec<Option<T>>)
        ensures
            final(self).wf(),
            final(self).states() == states@,
            final(self).stored() == or_default(states@, T::zero_spec()),
            final(self).column() == old(self).column(),
    {
        let mut has: Vec<bool> = Vec::new();
        let mut vals: Vec<T> = Vec::new();
        let z = T::zero();
        let mut g: usize = 0;
        while g < states.len()
            invariant
                z == T::zero_spec(),
                g <= states@.len(),
                has@.len() == g,
                vals@.len() == g,
                forall|k: int| 0 <= k < g ==> (#[trigger] has@[k]) == (states@[k] is Some),
                forall|k: int| 0 <= k < g ==> (#[trigger] vals@[k]) == (match states@[k] {
                    Some(v) => v,
                    None => T::zero_spec(),
                }),
            decreases states@.len() - g,
        {
            match states[g] {
                Some(v) => {
                    has.push(true);
                    vals.push(v);
                },
                None => {
                    has.push(false);
                    vals.push(z);
                },
            }
            g = g + 1;
        }
        self.has_value = has;
        self.running_maximums = vals;
        assert(self.states() =~= states@);
        assert(self.stored() =~= or_default(states@, T::zero_spec()));
    }

    /// Grows the states to `num_groups`, the new ones empty.
    pub fn ensure_capacity(&mut self, num_groups: usize)
        requires
            old(self).wf(),
        ensures
            final(self).wf(),
            final(self).states() == padded(old(self).states(), num_groups as nat, None),
            final(self).column() == old(self).column(),
    {
        if self.has_value.len() < num_groups {
            let mut states = self.load();
            let ghost before = states@;
            while states.len() < num_groups
                invariant
                    before.len() <= states@.len() <= num_groups,
                    states@ == before + Seq::new((states@.len() - before.len()) as nat, |i: int| None::<T>),
                decreases num_groups - states@.len(),
            {
                states.push(None);
                assert(states@ =~= before + Seq::new((states@.len() - before.len()) as nat, |i: int| None::<T>));
            }
            self.store(&states);
        }
    }

    fn fold_in(&mut self, vals: &Vec<T>, group_indices: &[u32], num_groups: usize)
        requires
            old(self).wf(),
            fold_ok(old(self).states().len(), vals@, group_indices@, num_groups as nat),
        ensures
            final(self).wf(),
            final(self).states() == folded(old(self).states(), vals@, group_indices@, num_groups as nat),
            final(self).column() == old(self).column(),
    {
        self.ensure_capacity(num_groups);
        if num_groups == 1 {
            let mut partial: Option<T> = None;
            Max::<T>::update(&mut partial, vals.as_slice());
            assert(partial == seq_max(vals@));
            if let Some(p) = partial {
                if self.has_value[0] {
                    if self.running_maximums[0].lt(&p) {
                        self.running_maximums.set(0, p);
                    }
                    proof {
                        let a = self.running_maximums@[0];
                        a.lemma_injective(&p);
                    }
                } else {
                    self.running_maximums.set(0, p);
                    self.has_value.set(0, true);
                }
            }
            proof {
                let s = padded(old(self).states(), 1, None);
                assert(self.states() =~= s.update(0, max_merge(s[0], seq_max(vals@))));
            }
        } else {
            let mut states = self.load();
            grouped_max_update(&mut states, vals.as_slice(), group_indices, num_groups);
            self.store(&states);
        }
    }

    fn can_fold(&self, batch: &Batch, name: &String, group_indices: &[u32], num_groups: usize) -> (r: bool)
        requires
            self.wf(),
            batch.wf(),
        ensures
            r == (typed_if_present::<T>(*batch, name@) && (named_values::<T>(*batch, name@) matches Some(vals)
                ==> fold_ok(self.states().len(), vals, group_indices@, num_groups as nat))),
    {
        match column_position(batch, name) {
            None => true,
            Some(k) => {
                proof { lemma_find_column(batch_cols(*batch), name@); }
                match T::values_in(&batch.columns[k]) {
                    None => false,
                    Some(vals) => num_groups == 1 || (group_indices.len() <= vals.len() && ids_would_fit(
                        self.has_value.len(),
                        vals.len(),
                        group_indices,
                        num_groups,
                    )),
                }
            },
        }
    }

    /// Whether `update` can take the batch: its column of this name, if
    /// any, is of this type, and with groups every group id of its rows has
    /// a state.
    pub fn can_update(&self, batch: &Batch, group_indices: &[u32], num_groups: usize) -> (r: bool)
        requires
            self.wf(),
            batch.wf(),
        ensures
            r == (typed_if_present::<T>(*batch, self.column()) && (named_values::<T>(*batch, self.column()) matches Some(
                vals,
            ) ==> fold_ok(self.states().len(), vals, group_indices@, num_groups as nat))),
    {
        self.can_fold(batch, &self.column_name, group_indices, num_groups)
    }

    /// Whether `merge` can take the batch, as `can_update` for `update`.
    pub fn can_merge(&self, batch: &Batch, group_indices: &[u32], num_groups: usize) -> (r: bool)
        requires
            self.wf(),
            batch.wf(),
        ensures
            r == (typed_if_present::<T>(*batch, "max("@ + self.column() + ")"@) && (named_values::<T>(
                *batch,
                "max("@ + self.column() + ")"@,
            ) matches Some(vals) ==> fold_ok(self.states().len(), vals, group_indices@, num_groups as nat))),
    {
        let name = self.output_name();
        self.can_fold(batch, &name, group_indices, num_groups)
    }

    /// Folds the batch's column named after this accumulator into the
    /// states, after growing them to `num_groups`. An error, with the states
    /// grown, when the batch has no such column.
    pub fn update(&mut self, batch: &Batch, group_indices: &[u32], num_groups: usize) -> (r: Result<(), ExecutionError>)
        requires
            old(self).wf(),
            batch.wf(),
            typed_if_present::<T>(*batch, old(self).column()),
            named_values::<T>(*batch, old(self).column()) matches Some(vals) ==> fold_ok(
                old(self).states().len(),
                vals,
                group_indices@,
                num_groups as nat,
            ),
        ensures
            final(self).wf(),
            final(self).column() == old(self).column(),
            match named_values::<T>(*batch, old(self).column()) {
                Some(vals) => r is Ok && final(self).states() == folded(
                    old(self).states(),
                    vals,
                    group_indices@,
                    num_groups as nat,
                ),
                None => r matches Err(ExecutionError::InvalidData(m)) && m@ == "MaxAccumulator: column '"@ + old(self).column()
                    + "' not found in batch"@ && final(self).states() == padded(old(self).states(), num_groups as nat, None),
            },
    {
        let ghost name = self.column_name@;
        match column_position(batch, &self.column_name) {
            None => {
                self.ensure_capacity(num_groups);
                proof {
                    reveal_strlit("MaxAccumulator: column '");
                    reveal_strlit("' not found in batch");
                }
                let mut msg = String::from_str("MaxAccumulator: column '");
                msg.append(self.column_name.as_str());
                msg.append("' not found in batch");
                Err(ExecutionError::InvalidData(msg))
            },
            Some(k) => {
                proof { lemma_find_column(batch_cols(*batch), name); }
                let vals = T::values_in(&batch.columns[k]).unwrap();
                self.fold_in(vals, group_indices, num_groups);
                Ok(())
            },
        }
    }

    /// Folds a batch of partial maxima, the column named after this
    /// accumulator's output, into the states, as `update` folds input rows.
    /// An error carrying the column's name when the batch has no such column.
    pub fn merge(&mut self, batch: &Batch, group_indices: &[u32], num_groups: usize) -> (r: Result<(), ExecutionError>)
        requires
            old(self).wf(),
            batch.wf(),
            typed_if_present::<T>(*batch, "max("@ + old(self).column() + ")"@),
            named_values::<T>(*batch, "max("@ + old(self).column() + ")"@) matches Some(vals) ==> fold_ok(
                old(self).states().len(),
                vals,
                group_indices@,
                num_groups as nat,
            ),
        ensures
            final(self).wf(),
            final(self).column() == old(self).column(),
            match named_values::<T>(*batch, "max("@ + old(self).column() + ")"@) {
                Some(vals) => r is Ok && final(self).states() == folded(
                    old(self).states(),
                    vals,
                    group_indices@,
                    num_groups as nat,
                ),
                None => r matches Err(ExecutionError::InvalidData(m)) && m@ == "max("@ + old(self).column() + ")"@
                    && final(self).states() == padded(old(self).states(), num_groups as nat, None),
            },
    {
        let name = self.output_name();
        match column_position(batch, &name) {
            None => {
                self.ensure_capacity(num_groups);
                Err(ExecutionError::InvalidData(name))
            },
            Some(k) => {
                proof { lemma_find_column(batch_cols(*batch), name@); }
                let vals = T::values_in(&batch.columns[k]).unwrap();
                self.fold_in(vals, group_indices, num_groups);
                Ok(())
            },
        }
    }

    /// `max(<column>)`.
    pub fn output_name(&self) -> (r: String)
        ensures
            r@ == "max("@ + self.column() + ")"@,
    {
        proof {
            reveal_strlit("max(");
            reveal_strlit(")");
        }
        let mut s = String::from_str("max(");
        s.append(self.column_name.as_str());
        s.append(")");
        s
    }

    /// The output column: `max(<column>)`, of the input's type.
    pub fn output_field(&self) -> (r: ColumnSchema)
        ensures
            r.name@ == "max("@ + self.column() + ")"@,
            r.data_type == T::data_type_spec(),
    {
        ColumnSchema { name: self.output_name(), data_type: T::data_type() }
    }

    /// Hands out the running maxima, by group id, leaving none behind; a
    /// group that has seen no value gives zero.
    pub fn materialize(&mut self) -> (r: Vec<T>)
        ensures
            r@ == old(self).stored(),
            old(self).wf() ==> r@ == or_default(old(self).states(), T::zero_spec()),
            final(self).stored() == Seq::<T>::empty(),
            final(self).column() == old(self).column(),
    {
        let mut out: Vec<T> = Vec::new();
        std::mem::swap(&mut out, &mut self.running_maximums);
        proof {
            if old(self).wf() {
                lemma_stored_default(*old(self));
            }
        }
        out
    }
}

proof fn lemma_stored_default<T: ColumnInt>(a: MaxAccumulator<T>)
    requires
        a.wf(),
    ensures
        a.stored() == or_default(a.states(), T::zero_spec()),
{
    assert(a.stored() =~= or_default(a.states(), T::zero_spec()));
}

} // verus!
