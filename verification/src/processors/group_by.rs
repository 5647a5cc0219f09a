//! GROUP BY keys: each distinct combination of the grouping columns' values
//! gets a group id, in the order the combinations first appear.
use vstd::prelude::*;

use crate::catalog::schema::DataType;
use crate::processors::batch::Batch;
use crate::processors::scalar_value::{chunk_data_type, chunk_type_of, chunk_scalar, column_of_scalars, scalar_type, scalar_views, ScalarValue, ScalarView};
use crate::storage::column_chunk::ColumnChunk;

verus! {

/// The key of row `i`: its values in the grouping columns `idx`.
pub open spec fn row_key(b: Batch, idx: Seq<usize>, i: int) -> Seq<ScalarView> {
    Seq::new(idx.len(), |c: int| chunk_scalar(b.columns@[idx[c] as int], i))
}

/// Some row before row `i` has group id `g`.
pub open spec fn some_row_before(ids: Seq<u32>, g: int, i: int) -> bool {
    exists|j: int| #![trigger ids[j]] 0 <= j < i && ids[j] == g
}

/// Some row has group id `g`.
pub open spec fn some_row_in(ids: Seq<u32>, g: int) -> bool {
    exists|i: int| #![trigger ids[i]] 0 <= i < ids.len() && ids[i] == g
}

pub struct GroupKeys {
    types: Vec<DataType>,
    keys: Vec<Vec<ScalarValue>>,
}

impl GroupKeys {
    /// The key of each group, by group id.
    pub closed spec fn keys(&self) -> Seq<Seq<ScalarView>> {
        Seq::new(self.keys@.len(), |g: int| scalar_views(self.keys@[g]@))
    }

    /// The types of the grouping columns.
    pub closed spec fn types(&self) -> Seq<DataType> {
        self.types@
    }

    /// Every key has one value per grouping column, of its type; no two
    /// groups have the same key.
    pub closed spec fn wf(&self) -> bool {
        &&& forall|g: int| 0 <= g < self.keys@.len() ==> (#[trigger] self.keys@[g]@).len() == self.types@.len()
        &&& forall|g: int, c: int|
            0 <= g < self.keys@.len() && 0 <= c < self.types@.len() ==> scalar_type((#[trigger] self.keys@[g]@[c])@)
                == self.types@[c]
        &&& forall|a: int, b: int| 0 <= a < b < self.keys@.len() ==> self.keys()[a] != self.keys()[b]
    }

    pub fn new(types: Vec<DataType>) -> (r: Self)
        ensures
            r.wf(),
            r.types() == types@,
            r.keys() == Seq::<Seq<ScalarView>>::empty(),
    {
        let r = GroupKeys { types, keys: Vec::new() };
        assert(r.keys() =~= Seq::<Seq<ScalarView>>::empty());
        r
    }

    /// The number of groups.
    pub fn len(&self) -> (r: usize)
        ensures
            r == self.keys().len(),
    {
        self.keys.len()
    }

    fn find(&self, key: &Vec<ScalarValue>) -> (r: Option<usize>)
        ensures
            match r {
                Some(g) => g < self.keys().len() && self.keys()[g as int] == scalar_views(key@),
                None => forall|g: int| 0 <= g < self.keys().len() ==> self.keys()[g] != scalar_views(key@),
            },
    {
        let mut g: usize = 0;
        while g < self.keys.len()
            invariant
                g <= self.keys@.len(),
                forall|h: int| 0 <= h < g ==> self.keys()[h] != scalar_views(key@),
            decreases self.keys@.len() - g,
        {
            if same_key(&self.keys[g], key) {
                return Some(g);
            }
            g = g + 1;
        }
        None
    }

    /// Whether `assign` can take `b` and `idx`: the batch is well formed,
    /// `idx` names one column of it per grouping column, of that column's
    /// type, and the group ids of its rows fit in a `u32`.
    pub fn accepts(&self, b: &Batch, idx: &Vec<usize>) -> (r: bool)
        ensures
            r == (b.wf() && idx@.len() == self.types().len() && (forall|c: int|
                0 <= c < idx@.len() ==> (#[trigger] idx@[c]) < b.columns@.len() && chunk_data_type(b.columns@[idx@[c] as int])
                    == self.types()[c]) && self.keys().len() + b.rows() <= u32::MAX),
    {
        if !b.is_wf() || idx.len() != self.types.len() {
            return false;
        }
        let mut c: usize = 0;
        while c < idx.len()
            invariant
                idx@.len() == self.types@.len(),
                c <= idx@.len(),
                forall|k: int|
                    0 <= k < c ==> (#[trigger] idx@[k]) < b.columns@.len() && chunk_data_type(b.columns@[idx@[k] as int])
                        == self.types@[k],
            decreases idx@.len() - c,
        {
            if idx[c] >= b.columns.len() || chunk_type_of(&b.columns[idx[c]]) != self.types[c] {
                return false;
            }
            c = c + 1;
        }
        let rows = if b.columns.len() == 0 {
            0
        } else {
            b.columns[0].len()
        };
        rows as u128 + self.keys.len() as u128 <= 0xFFFF_FFFF
    }

    /// The group id of every row of `b`, by its values in the grouping
    /// columns `idx`; a key not seen before becomes a new group.
    pub fn assign(&mut self, b: &Batch, idx: &Vec<usize>) -> (ids: Vec<u32>)
        requires
            old(self).wf(),
            b.wf(),
            idx@.len() == old(self).types().len(),
            forall|c: int|
                0 <= c < idx@.len() ==> (#[trigger] idx@[c]) < b.columns@.len() && chunk_data_type(b.columns@[idx@[c] as int])
                    == old(self).types()[c],
            old(self).keys().len() + b.rows() <= u32::MAX,
        ensures
            final(self).wf(),
            final(self).types() == old(self).types(),
            final(self).keys().len() >= old(self).keys().len(),
            final(self).keys().take(old(self).keys().len() as int) == old(self).keys(),
            ids@.len() == b.rows(),
            forall|i: int|
                0 <= i < b.rows() ==> (#[trigger] ids@[i]) < final(self).keys().len() && final(self).keys()[ids@[i] as int]
                    == row_key(*b, idx@, i),
            forall|g: int|
                old(self).keys().len() <= g < final(self).keys().len() ==> #[trigger] some_row_in(ids@, g),
            forall|i: int, g: int|
                0 <= i < b.rows() && old(self).keys().len() <= g < ids@[i] ==> #[trigger] some_row_before(ids@, g, i),
            forall|i: int, j: int|
                0 <= i < b.rows() && 0 <= j < b.rows() ==> (#[trigger] ids@[i] == #[trigger] ids@[j] <==> row_key(
                    *b,
                    idx@,
                    i,
                ) == row_key(*b, idx@, j)),
            forall|i: int, g: int|
                0 <= i < b.rows() && 0 <= g < final(self).keys().len() ==> (#[trigger] ids@[i] == g <==> row_key(
                    *b,
                    idx@,
                    i,
                ) == #[trigger] final(self).keys()[g]),
    {
        let ghost start = self.keys();
        let n = if b.columns.len() == 0 {
            0
        } else {
            b.columns[0].len()
        };
        let mut ids: Vec<u32> = Vec::new();
        let mut i: usize = 0;
        let ghost mut origin: Seq<int> = Seq::empty();
        while i < n
            invariant
                self.wf(),
                b.wf(),
                n == b.rows(),
                self.types@ == old(self).types@,
                idx@.len() == self.types@.len(),
                forall|c: int|
                    0 <= c < idx@.len() ==> (#[trigger] idx@[c]) < b.columns@.len() && chunk_data_type(
                        b.columns@[idx@[c] as int],
                    ) == self.types@[c],
                start == old(self).keys(),
                start.len() + n <= u32::MAX,
                i <= n,
                self.keys().len() <= start.len() + i,
                self.keys().len() >= start.len(),
                self.keys().take(start.len() as int) == start,
                ids@.len() == i,
                forall|k: int|
                    0 <= k < i ==> (#[trigger] ids@[k]) < self.keys().len() && self.keys()[ids@[k] as int] == row_key(
                        *b,
                        idx@,
                        k,
                    ),
                origin.len() == self.keys().len() - start.len(),
                forall|g: int|
                    start.len() <= g < self.keys().len() ==> 0 <= #[trigger] origin[g - start.len()] < i && ids@[origin[g
                        - start.len()]] == g,
                forall|k: int, g: int|
                    0 <= k < i && start.len() <= g < ids@[k] ==> #[trigger] some_row_before(ids@, g, k),
            decreases n - i,
        {
            let ghost ids_before = ids@;
            let ghost len_before = self.keys().len();
            let key = row_key_at(b, idx, i);
            match self.find(&key) {
                Some(g) => {
                    ids.push(g as u32);
                },
                None => {
                    let g = self.keys.len();
                    let ghost before = self.keys();
                    self.keys.push(key);
                    proof {
                        assert(self.keys() =~= before.push(row_key(*b, idx@, i as int)));
                        assert(self.keys@[g as int]@.len() == self.types@.len()) by {
                            assert(scalar_views(self.keys@[g as int]@).len() == row_key(*b, idx@, i as int).len());
                        }
                        assert forall|c: int| 0 <= c < self.types@.len() implies scalar_type(
                            (#[trigger] self.keys@[g as int]@[c])@,
                        ) == self.types@[c] by {
                            assert(scalar_views(self.keys@[g as int]@)[c] == row_key(*b, idx@, i as int)[c]);
                            lemma_scalar_type(b.columns@[idx@[c] as int], i as int);
                        }
                        assert forall|x: int, y: int| 0 <= x < y < self.keys@.len() implies self.keys()[x] != self.keys()[y] by {
                            if y == g {
                                assert(self.keys()[x] == before[x]);
                            } else {
                                assert(self.keys()[x] == before[x]);
                                assert(self.keys()[y] == before[y]);
                            }
                        }
                        assert(self.keys().take(start.len() as int) =~= before.take(start.len() as int));
                        origin = origin.push(i as int);
                    }
                    ids.push(g as u32);
                },
            }
            proof {
                assert(ids@[i as int] <= len_before);
                assert forall|k: int, g: int|
                    0 <= k < i + 1 && start.len() <= g < ids@[k] implies #[trigger] some_row_before(ids@, g, k) by {
                    if k < i {
                        assert(ids@[k] == ids_before[k]);
                        assert(some_row_before(ids_before, g, k));
                        let j = choose|j: int| #![trigger ids_before[j]] 0 <= j < k && ids_before[j] == g;
                        assert(ids@[j] == ids_before[j]);
                    } else {
                        let j = origin[g - start.len()];
                        assert(0 <= j < i && ids_before[j] == g);
                        assert(ids@[j] == ids_before[j]);
                    }
                }
            }
            i = i + 1;
        }
        proof {
            assert forall|x: int, y: int| 0 <= x < b.rows() && 0 <= y < b.rows() implies (#[trigger] ids@[x]
                == #[trigger] ids@[y] <==> row_key(*b, idx@, x) == row_key(*b, idx@, y)) by {
                if row_key(*b, idx@, x) == row_key(*b, idx@, y) && ids@[x] != ids@[y] {
                    let (a, c) = if ids@[x] < ids@[y] { (ids@[x] as int, ids@[y] as int) } else { (ids@[y] as int, ids@[x] as int) };
                    assert(self.keys()[a] != self.keys()[c]);
                }
            }
            assert forall|x: int, g: int| 0 <= x < b.rows() && 0 <= g < self.keys().len() implies (#[trigger] ids@[x]
                == g <==> row_key(*b, idx@, x) == #[trigger] self.keys()[g]) by {
                if row_key(*b, idx@, x) == self.keys()[g] && ids@[x] != g {
                    let (a, c) = if ids@[x] < g { (ids@[x] as int, g) } else { (g, ids@[x] as int) };
                    assert(self.keys()[a] != self.keys()[c]);
                }
            }
            assert forall|g: int| start.len() <= g < self.keys().len() implies #[trigger] some_row_in(ids@, g) by {
                let k = origin[g - start.len()];
                assert(0 <= k < b.rows() && ids@[k] == g);
            }
        }
        ids
    }

    /// One column per grouping column, holding each group's value in that
    /// column, by group id.
    pub fn key_columns(&self) -> (r: Vec<ColumnChunk>)
        requires
            self.wf(),
        ensures
            r@.len() == self.types().len(),
            self.keys().len() > 0 ==> forall|c: int|
                0 <= c < self.types().len() ==> column_of_scalars(
                    Seq::new(self.keys().len(), |g: int| self.keys()[g][c]),
                    self.types()[c],
                    #[trigger] r@[c],
                ),
    {
        let mut cols: Vec<ColumnChunk> = Vec::new();
        let mut c: usize = 0;
        while c < self.types.len()
            invariant
                self.wf(),
                c <= self.types@.len(),
                cols@.len() == c,
                self.keys().len() > 0 ==> forall|k: int|
                    0 <= k < c ==> column_of_scalars(
                        Seq::new(self.keys().len(), |g: int| self.keys()[g][k]),
                        self.types()[k],
                        #[trigger] cols@[k],
                    ),
            decreases self.types@.len() - c,
        {
            let mut vals: Vec<ScalarValue> = Vec::new();
            let mut g: usize = 0;
            while g < self.keys.len()
                invariant
                    self.wf(),
                    c < self.types@.len(),
                    g <= self.keys@.len(),
                    vals@.len() == g,
                    forall|h: int| 0 <= h < g ==> (#[trigger] vals@[h])@ == self.keys()[h][c as int],
                decreases self.keys@.len() - g,
            {
                assert(self.keys@[g as int]@.len() == self.types@.len());
                vals.push(self.keys[g][c].clone());
                g = g + 1;
            }
            proof {
                assert forall|h: int| 0 <= h < vals@.len() implies scalar_type(#[trigger] vals@[h]@) == self.types@[c as int] by {
                    assert(vals@[h]@ == self.keys@[h]@[c as int]@);
                }
                assert(scalar_views(vals@) =~= Seq::new(self.keys().len(), |h: int| self.keys()[h][c as int]));
            }
            let col = ScalarValue::build_column(vals);
            cols.push(col);
            c = c + 1;
        }
        cols
    }
}

proof fn lemma_scalar_type(c: ColumnChunk, i: int)
    ensures
        scalar_type(chunk_scalar(c, i)) == chunk_data_type(c),
{
}

fn same_key(a: &Vec<ScalarValue>, b: &Vec<ScalarValue>) -> (r: bool)
    ensures
        r == (scalar_views(a@) == scalar_views(b@)),
{
    if a.len() != b.len() {
        return false;
    }
    let mut i: usize = 0;
    while i < a.len()
        invariant
            a@.len() == b@.len(),
            i <= a@.len(),
            forall|k: int| 0 <= k < i ==> a@[k]@ == b@[k]@,
        decreases a@.len() - i,
    {
        if !a[i].same(&b[i]) {
            proof {
                assert(scalar_views(a@)[i as int] != scalar_views(b@)[i as int]);
            }
            return false;
        }
        i = i + 1;
    }
    assert(scalar_views(a@) =~= scalar_views(b@));
    true
}

fn row_key_at(b: &Batch, idx: &Vec<usize>, i: usize) -> (r: Vec<ScalarValue>)
    requires
        b.wf(),
        i < b.rows(),
        forall|c: int| 0 <= c < idx@.len() ==> (#[trigger] idx@[c]) < b.columns@.len(),
    ensures
        scalar_views(r@) == row_key(*b, idx@, i as int),
{
    let mut key: Vec<ScalarValue> = Vec::new();
    let mut c: usize = 0;
    while c < idx.len()
        invariant
            b.wf(),
            i < b.rows(),
            forall|k: int| 0 <= k < idx@.len() ==> (#[trigger] idx@[k]) < b.columns@.len(),
            c <= idx@.len(),
            key@.len() == c,
            forall|k: int| 0 <= k < c ==> (#[trigger] key@[k])@ == chunk_scalar(b.columns@[idx@[k] as int], i as int),
        decreases idx@.len() - c,
    {
        let col = idx[c];
        assert(b.columns@[col as int].spec_len() == b.columns@[0].spec_len());
        key.push(ScalarValue::from_chunk(&b.columns[col], i));
        c = c + 1;
    }
    assert(scalar_views(key@) =~= row_key(*b, idx@, i as int));
    key
}

} // verus!
