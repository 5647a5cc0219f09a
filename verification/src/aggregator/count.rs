//! Count aggregate over any column type: values are ignored, only the number
//! of rows per group matters. Output is always U64.
use vstd::prelude::*;

use crate::aggregator::grouped::{group_count, grouped_count_update, padded};
use crate::catalog::schema::DataType;
use crate::processors::processor::ExecutionError;
use crate::storage::column_chunk::ColumnChunk;

verus! {

pub struct CountAgg {
    count: Vec<u64>,
}

impl View for CountAgg {
    type V = Seq<u64>;

    /// The count of each group so far.
    closed spec fn view(&self) -> Seq<u64> {
        self.count@
    }
}

impl CountAgg {
    pub fn new() -> (r: Self)
        ensures
            r@ == Seq::<u64>::empty(),
    {
        CountAgg { count: Vec::new() }
    }

    /// Counts every row of the batch toward its group id; the counts first
    /// grow to `n_groups` zeros. The chunk's values are not read.
    pub fn update(&mut self, chunk: &ColumnChunk, group_ids: &[u32], n_groups: usize) -> (r: Result<(), ExecutionError>)
        requires
            forall|i: int| 0 <= i < group_ids@.len() ==> (#[trigger] group_ids@[i] as int) < padded(
                old(self)@,
                n_groups as nat,
                0u64,
            ).len(),
            forall|g: int|
                0 <= g < padded(old(self)@, n_groups as nat, 0u64).len() ==> #[trigger] padded(
                    old(self)@,
                    n_groups as nat,
                    0u64,
                )[g] + group_count(group_ids@, g, group_ids@.len() as int) <= u64::MAX,
        ensures
            r is Ok,
            ({
                let p = padded(old(self)@, n_groups as nat, 0u64);
                &&& final(self)@.len() == p.len()
                &&& forall|g: int|
                    0 <= g < p.len() ==> #[trigger] final(self)@[g] == p[g] + group_count(
                        group_ids@,
                        g,
                        group_ids@.len() as int,
                    )
            }),
    {
        grouped_count_update(&mut self.count, group_ids, n_groups);
        Ok(())
    }

    /// The number of groups held so far.
    pub fn group_count(&self) -> (r: usize)
        ensures
            r == self@.len(),
    {
        self.count.len()
    }

    /// The counts, one row per group.
    pub fn finalize(&mut self) -> (r: ColumnChunk)
        ensures
            r matches ColumnChunk::U64(v) && v@ == old(self)@,
            final(self)@ == old(self)@,
    {
        ColumnChunk::U64(self.count.clone())
    }

    pub fn output_type(&self) -> (r: DataType)
        ensures
            r == DataType::U64,
    {
        DataType::U64
    }
}

} // verus!
