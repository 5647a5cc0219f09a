//! A column of values in memory. Float columns hold IEEE-754 bit patterns.
use vstd::prelude::*;

verus! {

pub enum ColumnChunk {
    I8(Vec<i8>),
    I16(Vec<i16>),
    I32(Vec<i32>),
    I64(Vec<i64>),
    U8(Vec<u8>),
    U16(Vec<u16>),
    U32(Vec<u32>),
    U64(Vec<u64>),
    /// binary32 bit patterns
    F32(Vec<u32>),
    /// binary64 bit patterns
    F64(Vec<u64>),
    Bool(Vec<bool>),
    Str(Vec<String>),
}

/// The elements of `v` whose position holds `true` in `mask`, in order.
pub open spec fn filter_by_mask<T>(v: Seq<T>, mask: Seq<bool>) -> Seq<T>
    decreases v.len(),
{
    if v.len() == 0 {
        Seq::empty()
    } else {
        let rest = filter_by_mask(v.drop_last(), mask);
        if v.len() - 1 < mask.len() && mask[v.len() - 1] {
            rest.push(v.last())
        } else {
            rest
        }
    }
}

/// The number of `true` values among the first `n` of `mask`.
pub open spec fn mask_count(mask: Seq<bool>, n: nat) -> nat
    decreases n,
{
    if n == 0 {
        0
    } else {
        mask_count(mask, (n - 1) as nat) + if n - 1 < mask.len() && mask[n - 1] {
            1nat
        } else {
            0nat
        }
    }
}

/// Filtering keeps one row for each `true` among the first rows of the mask.
pub proof fn lemma_filter_len<T>(v: Seq<T>, mask: Seq<bool>)
    ensures
        filter_by_mask(v, mask).len() == mask_count(mask, v.len()),
    decreases v.len(),
{
    if v.len() > 0 {
        lemma_filter_len(v.drop_last(), mask);
    }
}

fn filter_vec<T: Copy>(v: &Vec<T>, mask: &Vec<bool>) -> (r: Vec<T>)
    ensures
        r@ == filter_by_mask(v@, mask@),
{
    let mut out: Vec<T> = Vec::new();
    let mut i: usize = 0;
    while i < v.len()
        invariant
            i <= v@.len(),
            out@ == filter_by_mask(v@.take(i as int), mask@),
        decreases v@.len() - i,
    {
        proof {
            assert(v@.take(i + 1).drop_last() =~= v@.take(i as int));
        }
        if i < mask.len() && mask[i] {
            out.push(v[i]);
        }
        i = i + 1;
    }
    proof {
        assert(v@.take(v@.len() as int) =~= v@);
    }
    out
}

fn filter_strings(v: &Vec<String>, mask: &Vec<bool>) -> (r: Vec<String>)
    ensures
        r@ == filter_by_mask(v@, mask@),
{
    let mut out: Vec<String> = Vec::new();
    let mut i: usize = 0;
    while i < v.len()
        invariant
            i <= v@.len(),
            out@ == filter_by_mask(v@.take(i as int), mask@),
        decreases v@.len() - i,
    {
        proof {
            assert(v@.take(i + 1).drop_last() =~= v@.take(i as int));
        }
        if i < mask.len() && mask[i] {
            out.push(v[i].clone());
        }
        i = i + 1;
    }
    proof {
        assert(v@.take(v@.len() as int) =~= v@);
    }
    out
}

impl ColumnChunk {
    pub open spec fn spec_len(&self) -> nat {
        match self {
            ColumnChunk::I8(v) => v@.len(),
            ColumnChunk::I16(v) => v@.len(),
            ColumnChunk::I32(v) => v@.len(),
            ColumnChunk::I64(v) => v@.len(),
            ColumnChunk::U8(v) => v@.len(),
            ColumnChunk::U16(v) => v@.len(),
            ColumnChunk::U32(v) => v@.len(),
            ColumnChunk::U64(v) => v@.len(),
            ColumnChunk::F32(v) => v@.len(),
            ColumnChunk::F64(v) => v@.len(),
            ColumnChunk::Bool(v) => v@.len(),
            ColumnChunk::Str(v) => v@.len(),
        }
    }

    /// Number of rows.
    pub fn len(&self) -> (r: usize)
        ensures
            r == self.spec_len(),
    {
        match self {
            ColumnChunk::I8(v) => v.len(),
            ColumnChunk::I16(v) => v.len(),
            ColumnChunk::I32(v) => v.len(),
            ColumnChunk::I64(v) => v.len(),
            ColumnChunk::U8(v) => v.len(),
            ColumnChunk::U16(v) => v.len(),
            ColumnChunk::U32(v) => v.len(),
            ColumnChunk::U64(v) => v.len(),
            ColumnChunk::F32(v) => v.len(),
            ColumnChunk::F64(v) => v.len(),
            ColumnChunk::Bool(v) => v.len(),
            ColumnChunk::Str(v) => v.len(),
        }
    }

    /// `r` holds the rows of `self` whose position is `true` in `mask`, with the same type.
    pub open spec fn filtered(self, mask: Seq<bool>, r: ColumnChunk) -> bool {
        match (self, r) {
            (ColumnChunk::I8(v), ColumnChunk::I8(w)) => w@ == filter_by_mask(v@, mask),
            (ColumnChunk::I16(v), ColumnChunk::I16(w)) => w@ == filter_by_mask(v@, mask),
            (ColumnChunk::I32(v), ColumnChunk::I32(w)) => w@ == filter_by_mask(v@, mask),
            (ColumnChunk::I64(v), ColumnChunk::I64(w)) => w@ == filter_by_mask(v@, mask),
            (ColumnChunk::U8(v), ColumnChunk::U8(w)) => w@ == filter_by_mask(v@, mask),
            (ColumnChunk::U16(v), ColumnChunk::U16(w)) => w@ == filter_by_mask(v@, mask),
            (ColumnChunk::U32(v), ColumnChunk::U32(w)) => w@ == filter_by_mask(v@, mask),
            (ColumnChunk::U64(v), ColumnChunk::U64(w)) => w@ == filter_by_mask(v@, mask),
            (ColumnChunk::F32(v), ColumnChunk::F32(w)) => w@ == filter_by_mask(v@, mask),
            (ColumnChunk::F64(v), ColumnChunk::F64(w)) => w@ == filter_by_mask(v@, mask),
            (ColumnChunk::Bool(v), ColumnChunk::Bool(w)) => w@ == filter_by_mask(v@, mask),
            (ColumnChunk::Str(v), ColumnChunk::Str(w)) => w@ == filter_by_mask(v@, mask),
            _ => false,
        }
    }

    /// A filtered chunk has one row per `true` among the first rows of the mask.
    pub proof fn lemma_filtered_len(self, mask: Seq<bool>, r: ColumnChunk)
        requires
            self.filtered(mask, r),
        ensures
            r.spec_len() == mask_count(mask, self.spec_len()),
    {
        match (self, r) {
            (ColumnChunk::I8(v), ColumnChunk::I8(w)) => lemma_filter_len(v@, mask),
            (ColumnChunk::I16(v), ColumnChunk::I16(w)) => lemma_filter_len(v@, mask),
            (ColumnChunk::I32(v), ColumnChunk::I32(w)) => lemma_filter_len(v@, mask),
            (ColumnChunk::I64(v), ColumnChunk::I64(w)) => lemma_filter_len(v@, mask),
            (ColumnChunk::U8(v), ColumnChunk::U8(w)) => lemma_filter_len(v@, mask),
            (ColumnChunk::U16(v), ColumnChunk::U16(w)) => lemma_filter_len(v@, mask),
            (ColumnChunk::U32(v), ColumnChunk::U32(w)) => lemma_filter_len(v@, mask),
            (ColumnChunk::U64(v), ColumnChunk::U64(w)) => lemma_filter_len(v@, mask),
            (ColumnChunk::F32(v), ColumnChunk::F32(w)) => lemma_filter_len(v@, mask),
            (ColumnChunk::F64(v), ColumnChunk::F64(w)) => lemma_filter_len(v@, mask),
            (ColumnChunk::Bool(v), ColumnChunk::Bool(w)) => lemma_filter_len(v@, mask),
            (ColumnChunk::Str(v), ColumnChunk::Str(w)) => lemma_filter_len(v@, mask),
            _ => {},
        }
    }

    /// The rows whose position is `true` in `mask`, as a chunk of the same type.
    pub fn filter(&self, mask: &Vec<bool>) -> (r: ColumnChunk)
        ensures
            self.filtered(mask@, r),
    {
        match self {
            ColumnChunk::I8(v) => ColumnChunk::I8(filter_vec(v, mask)),
            ColumnChunk::I16(v) => ColumnChunk::I16(filter_vec(v, mask)),
            ColumnChunk::I32(v) => ColumnChunk::I32(filter_vec(v, mask)),
            ColumnChunk::I64(v) => ColumnChunk::I64(filter_vec(v, mask)),
            ColumnChunk::U8(v) => ColumnChunk::U8(filter_vec(v, mask)),
            ColumnChunk::U16(v) => ColumnChunk::U16(filter_vec(v, mask)),
            ColumnChunk::U32(v) => ColumnChunk::U32(filter_vec(v, mask)),
            ColumnChunk::U64(v) => ColumnChunk::U64(filter_vec(v, mask)),
            ColumnChunk::F32(v) => ColumnChunk::F32(filter_vec(v, mask)),
            ColumnChunk::F64(v) => ColumnChunk::F64(filter_vec(v, mask)),
            ColumnChunk::Bool(v) => ColumnChunk::Bool(filter_vec(v, mask)),
            ColumnChunk::Str(v) => ColumnChunk::Str(filter_strings(v, mask)),
        }
    }
}

/// `a` and `b` are the same column: same type, same values.
pub open spec fn same_chunk(a: ColumnChunk, b: ColumnChunk) -> bool {
    match (a, b) {
        (ColumnChunk::I8(x), ColumnChunk::I8(y)) => x@ == y@,
        (ColumnChunk::I16(x), ColumnChunk::I16(y)) => x@ == y@,
        (ColumnChunk::I32(x), ColumnChunk::I32(y)) => x@ == y@,
        (ColumnChunk::I64(x), ColumnChunk::I64(y)) => x@ == y@,
        (ColumnChunk::U8(x), ColumnChunk::U8(y)) => x@ == y@,
        (ColumnChunk::U16(x), ColumnChunk::U16(y)) => x@ == y@,
        (ColumnChunk::U32(x), ColumnChunk::U32(y)) => x@ == y@,
        (ColumnChunk::U64(x), ColumnChunk::U64(y)) => x@ == y@,
        (ColumnChunk::F32(x), ColumnChunk::F32(y)) => x@ == y@,
        (ColumnChunk::F64(x), ColumnChunk::F64(y)) => x@ == y@,
        (ColumnChunk::Bool(x), ColumnChunk::Bool(y)) => x@ == y@,
        (ColumnChunk::Str(x), ColumnChunk::Str(y)) => x@ == y@,
        _ => false,
    }
}

/// `b` holds the values of `a`: the same column, strings compared by view.
pub open spec fn copy_of(a: ColumnChunk, b: ColumnChunk) -> bool {
    match (a, b) {
        (ColumnChunk::Str(x), ColumnChunk::Str(y)) => x@.len() == y@.len() && forall|i: int|
            0 <= i < x@.len() ==> #[trigger] y@[i]@ == x@[i]@,
        _ => same_chunk(a, b),
    }
}

fn clone_strings(v: &Vec<String>) -> (r: Vec<String>)
    ensures
        r@.len() == v@.len(),
        forall|i: int| 0 <= i < v@.len() ==> #[trigger] r@[i]@ == v@[i]@,
{
    let mut out: Vec<String> = Vec::new();
    let mut i: usize = 0;
    while i < v.len()
        invariant
            i <= v@.len(),
            out@.len() == i,
            forall|k: int| 0 <= k < i ==> #[trigger] out@[k]@ == v@[k]@,
        decreases v@.len() - i,
    {
        out.push(v[i].clone());
        i = i + 1;
    }
    out
}

impl Clone for ColumnChunk {
    fn clone(&self) -> (r: Self)
        ensures
            self matches ColumnChunk::Str(v) ==> r matches ColumnChunk::Str(w) && w@.len() == v@.len() && forall|i: int|
                0 <= i < v@.len() ==> #[trigger] w@[i]@ == v@[i]@,
            !(self is Str) ==> same_chunk(*self, r),
            r.spec_len() == self.spec_len(),
    {
        match self {
            ColumnChunk::I8(v) => ColumnChunk::I8(v.clone()),
            ColumnChunk::I16(v) => ColumnChunk::I16(v.clone()),
            ColumnChunk::I32(v) => ColumnChunk::I32(v.clone()),
            ColumnChunk::I64(v) => ColumnChunk::I64(v.clone()),
            ColumnChunk::U8(v) => ColumnChunk::U8(v.clone()),
            ColumnChunk::U16(v) => ColumnChunk::U16(v.clone()),
            ColumnChunk::U32(v) => ColumnChunk::U32(v.clone()),
            ColumnChunk::U64(v) => ColumnChunk::U64(v.clone()),
            ColumnChunk::F32(v) => ColumnChunk::F32(v.clone()),
            ColumnChunk::F64(v) => ColumnChunk::F64(v.clone()),
            ColumnChunk::Bool(v) => ColumnChunk::Bool(v.clone()),
            ColumnChunk::Str(v) => ColumnChunk::Str(clone_strings(v)),
        }
    }
}

} // verus!
