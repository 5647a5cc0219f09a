//! A columnar batch: one slice of rows flowing through the pipeline.
use vstd::prelude::*;

use crate::catalog::schema::ColumnSchema;
use crate::storage::column_chunk::{copy_of, mask_count, ColumnChunk};
use crate::text::{contains_string, string_views};

verus! {

/// One column per schema entry, every column with the same number of rows
/// (see `wf`). A full scan makes one batch per part.
pub struct Batch {
    pub schema: Vec<ColumnSchema>,
    pub columns: Vec<ColumnChunk>,
}

/// The positions among `cols` of the names that `names` holds, in order.
pub open spec fn kept_positions(cols: Seq<Seq<char>>, names: Seq<Seq<char>>) -> Seq<int>
    decreases cols.len(),
{
    if cols.len() == 0 {
        Seq::empty()
    } else {
        let p = kept_positions(cols.drop_last(), names);
        if names.contains(cols.last()) {
            p.push(cols.len() - 1)
        } else {
            p
        }
    }
}

/// The names of a batch's columns.
pub open spec fn schema_names(schema: Seq<ColumnSchema>) -> Seq<Seq<char>> {
    schema.map_values(|c: ColumnSchema| c.name@)
}

pub proof fn lemma_kept_positions(cols: Seq<Seq<char>>, names: Seq<Seq<char>>)
    ensures
        forall|j: int|
            0 <= j < kept_positions(cols, names).len() ==> 0 <= #[trigger] kept_positions(cols, names)[j] < cols.len()
                && names.contains(cols[kept_positions(cols, names)[j]]),
        forall|a: int, b: int|
            0 <= a < b < kept_positions(cols, names).len() ==> kept_positions(cols, names)[a] < kept_positions(
                cols,
                names,
            )[b],
        forall|k: int| 0 <= k < cols.len() && names.contains(#[trigger] cols[k]) ==> kept_positions(cols, names).contains(k),
    decreases cols.len(),
{
    if cols.len() > 0 {
        let d = cols.drop_last();
        lemma_kept_positions(d, names);
        let p = kept_positions(d, names);
        assert forall|k: int| 0 <= k < d.len() implies d[k] == cols[k] by {}
        if names.contains(cols.last()) {
            assert forall|k: int| 0 <= k < cols.len() && names.contains(#[trigger] cols[k]) implies p.push(
                cols.len() - 1,
            ).contains(k) by {
                if k < cols.len() - 1 {
                    assert(names.contains(d[k]));
                    let j = choose|j: int| 0 <= j < p.len() && p[j] == k;
                    assert(p.push(cols.len() - 1)[j] == k);
                } else {
                    assert(p.push(cols.len() - 1)[p.len() as int] == k);
                }
            }
        } else {
            assert forall|k: int| 0 <= k < cols.len() && names.contains(#[trigger] cols[k]) implies p.contains(k) by {
                assert(k < cols.len() - 1);
                assert(names.contains(d[k]));
            }
        }
    }
}

/// `r` holds the columns of `src` whose names `names` holds, in order.
pub open spec fn selection_of(src: Batch, names: Seq<Seq<char>>, r: Batch) -> bool {
    let ks = kept_positions(schema_names(src.schema@), names);
    &&& r.schema@.len() == ks.len()
    &&& r.columns@.len() == ks.len()
    &&& forall|j: int|
        0 <= j < ks.len() ==> (#[trigger] r.schema@[j])@ == src.schema@[ks[j]]@ && copy_of(src.columns@[ks[j]], r.columns@[j])
}

impl Batch {
    /// Whether the batch is well formed: as many columns as schema entries,
    /// all of one length.
    pub fn is_wf(&self) -> (r: bool)
        ensures
            r == self.wf(),
    {
        if self.schema.len() != self.columns.len() {
            return false;
        }
        if self.columns.len() == 0 {
            return true;
        }
        let n = self.columns[0].len();
        let mut i: usize = 1;
        while i < self.columns.len()
            invariant
                self.schema@.len() == self.columns@.len(),
                self.columns@.len() > 0,
                n == self.columns@[0].spec_len(),
                1 <= i <= self.columns@.len(),
                forall|k: int| 0 <= k < i ==> (#[trigger] self.columns@[k]).spec_len() == n,
            decreases self.columns@.len() - i,
        {
            if self.columns[i].len() != n {
                return false;
            }
            i = i + 1;
        }
        true
    }

    /// The columns whose names `names` holds, in the batch's order.
    pub fn select_columns(&self, names: &Vec<String>) -> (r: Batch)
        requires
            self.wf(),
        ensures
            r.wf(),
            selection_of(*self, string_views(names@), r),
    {
        let ghost cols = schema_names(self.schema@);
        let ghost want = string_views(names@);
        proof { lemma_kept_positions(cols, want); }
        let mut schema: Vec<ColumnSchema> = Vec::new();
        let mut columns: Vec<ColumnChunk> = Vec::new();
        let mut i: usize = 0;
        while i < self.schema.len()
            invariant
                self.wf(),
                cols == schema_names(self.schema@),
                want == string_views(names@),
                i <= self.schema@.len(),
                schema@.len() == columns@.len(),
                schema@.len() == kept_positions(cols.take(i as int), want).len(),
                forall|j: int|
                    0 <= j < schema@.len() ==> {
                        let k = kept_positions(cols.take(i as int), want)[j];
                        &&& 0 <= k < i
                        &&& (#[trigger] schema@[j])@ == self.schema@[k]@
                        &&& copy_of(self.columns@[k], columns@[j])
                        &&& columns@[j].spec_len() == self.columns@[k].spec_len()
                    },
            decreases self.schema@.len() - i,
        {
            proof {
                assert(cols.take(i + 1).drop_last() =~= cols.take(i as int));
                lemma_kept_positions(cols.take(i as int), want);
            }
            if contains_string(names, &self.schema[i].name) {
                schema.push(self.schema[i].clone());
                let c = self.columns[i].clone();
                proof {
                    if self.columns@[i as int] is Str {
                        assert(copy_of(self.columns@[i as int], c));
                    }
                }
                columns.push(c);
            }
            i = i + 1;
        }
        proof {
            assert(cols.take(i as int) =~= cols);
            assert(kept_positions(cols.take(i as int), want) == kept_positions(cols, want));
        }
        let r = Batch { schema, columns };
        proof {
            assert forall|a: int, b: int|
                0 <= a < r.columns@.len() && 0 <= b < r.columns@.len() implies (#[trigger] r.columns@[a]).spec_len()
                == (#[trigger] r.columns@[b]).spec_len() by {
                let ka = kept_positions(cols, want)[a];
                let kb = kept_positions(cols, want)[b];
                assert(r.schema@[a]@ == self.schema@[ka]@);
                assert(r.schema@[b]@ == self.schema@[kb]@);
                assert(self.columns@[ka].spec_len() == self.columns@[kb].spec_len());
            }
            assert forall|j: int| 0 <= j < r.schema@.len() implies (#[trigger] r.schema@[j])@ == self.schema@[kept_positions(cols, want)[j]]@
                && copy_of(self.columns@[kept_positions(cols, want)[j]], r.columns@[j]) by {
                assert(schema@[j]@ == r.schema@[j]@);
            }
        }
        r
    }

    /// As many columns as schema entries, all of one length.
    pub open spec fn wf(&self) -> bool {
        &&& self.schema@.len() == self.columns@.len()
        &&& forall|i: int, j: int|
            0 <= i < self.columns@.len() && 0 <= j < self.columns@.len() ==> (#[trigger] self.columns@[i]).spec_len()
                == (#[trigger] self.columns@[j]).spec_len()
    }

    /// The number of rows.
    pub open spec fn rows(&self) -> nat {
        if self.columns@.len() == 0 {
            0
        } else {
            self.columns@[0].spec_len()
        }
    }

    /// The rows whose position is `true` in `mask`, in every column.
    pub fn filter(&self, mask: &Vec<bool>) -> (r: Batch)
        ensures
            r.schema@.len() == self.schema@.len(),
            forall|i: int| 0 <= i < self.schema@.len() ==> (#[trigger] r.schema@[i])@ == self.schema@[i]@,
            r.columns@.len() == self.columns@.len(),
            forall|i: int| 0 <= i < self.columns@.len() ==> (#[trigger] self.columns@[i]).filtered(mask@, r.columns@[i]),
            self.wf() ==> r.wf() && r.rows() == mask_count(mask@, self.rows()),
    {
        let mut schema: Vec<ColumnSchema> = Vec::new();
        let mut i: usize = 0;
        while i < self.schema.len()
            invariant
                i <= self.schema@.len(),
                schema@.len() == i,
                forall|k: int| 0 <= k < i ==> (#[trigger] schema@[k])@ == self.schema@[k]@,
            decreases self.schema@.len() - i,
        {
            schema.push(self.schema[i].clone());
            i = i + 1;
        }
        let mut columns: Vec<ColumnChunk> = Vec::new();
        let mut j: usize = 0;
        while j < self.columns.len()
            invariant
                j <= self.columns@.len(),
                columns@.len() == j,
                forall|k: int| 0 <= k < j ==> (#[trigger] self.columns@[k]).filtered(mask@, columns@[k]),
            decreases self.columns@.len() - j,
        {
            columns.push(self.columns[j].filter(mask));
            j = j + 1;
        }
        let r = Batch { schema, columns };
        proof {
            if self.wf() {
                assert forall|a: int, b: int|
                    0 <= a < r.columns@.len() && 0 <= b < r.columns@.len() implies (#[trigger] r.columns@[a]).spec_len()
                    == (#[trigger] r.columns@[b]).spec_len() by {
                    self.columns@[a].lemma_filtered_len(mask@, r.columns@[a]);
                    self.columns@[b].lemma_filtered_len(mask@, r.columns@[b]);
                    assert(self.columns@[a].spec_len() == self.columns@[b].spec_len());
                }
                if r.columns@.len() > 0 {
                    self.columns@[0].lemma_filtered_len(mask@, r.columns@[0]);
                }
            }
        }
        r
    }

    /// The first `n` rows of every column (all of them when there are fewer).
    pub fn head(&self, n: usize) -> (r: Batch)
        ensures
            r.schema@.len() == self.schema@.len(),
            forall|i: int| 0 <= i < self.schema@.len() ==> (#[trigger] r.schema@[i])@ == self.schema@[i]@,
            r.columns@.len() == self.columns@.len(),
            forall|i: int| 0 <= i < self.columns@.len() ==> (#[trigger] self.columns@[i]).filtered(
                Seq::new(self.columns@[i].spec_len(), |k: int| k < n),
                r.columns@[i],
            ),
    {
        let mut schema: Vec<ColumnSchema> = Vec::new();
        let mut i: usize = 0;
        while i < self.schema.len()
            invariant
                i <= self.schema@.len(),
                schema@.len() == i,
                forall|k: int| 0 <= k < i ==> (#[trigger] schema@[k])@ == self.schema@[k]@,
            decreases self.schema@.len() - i,
        {
            schema.push(self.schema[i].clone());
            i = i + 1;
        }
        let mut columns: Vec<ColumnChunk> = Vec::new();
        let mut j: usize = 0;
        while j < self.columns.len()
            invariant
                j <= self.columns@.len(),
                columns@.len() == j,
                forall|k: int|
                    0 <= k < j ==> (#[trigger] self.columns@[k]).filtered(
                        Seq::new(self.columns@[k].spec_len(), |x: int| x < n),
                        columns@[k],
                    ),
            decreases self.columns@.len() - j,
        {
            let len = self.columns[j].len();
            let mut mask: Vec<bool> = Vec::new();
            let mut k: usize = 0;
            while k < len
                invariant
                    k <= len,
                    mask@ == Seq::new(k as nat, |x: int| x < n),
                decreases len - k,
            {
                mask.push(k < n);
                k = k + 1;
                assert(mask@ =~= Seq::new(k as nat, |x: int| x < n));
            }
            columns.push(self.columns[j].filter(&mask));
            j = j + 1;
        }
        Batch { schema, columns }
    }
}

} // verus!
