//! SUM over an integer column of a batch, one running sum per group, kept in
//! a wider type: signed columns in an `i64`, unsigned ones in a `u64`.
//!
//! Without GROUP BY (a single group) the batch's column is first summed in
//! its own type, wrapping on overflow as two's-complement addition does, and
//! that partial sum is added to the running sum; with groups each value is
//! added to the running sum of its group.
use vstd::arithmetic::div_mod::{
    lemma_add_mod_noop_right,
    lemma_mod_add_multiples_vanish,
    lemma_mod_bound,
    lemma_mod_sub_multiples_vanish,
    lemma_small_mod,
};
use vstd::prelude::*;
use vstd::string::*;

use crate::aggregator::grouped::{group_sum, ids_fit, ids_would_fit, padded, zip_len};
use crate::aggregator::sum::{int_values, seq_sum};
use crate::aggregator::Integer;
use crate::catalog::schema::{lemma_find_column, ColumnSchema, DataType};
use crate::execution::filter::{batch_cols, column_position};
use crate::execution::max::{named_values, typed_if_present, ColumnInt};
use crate::processors::batch::Batch;
use crate::processors::processor::ExecutionError;
use crate::storage::column_chunk::ColumnChunk;

verus! {

/// `v` brought into the `r` values starting at `lo`, as wrapping
/// arithmetic does.
pub open spec fn wrap_range(v: int, lo: int, r: int) -> int {
    (v - lo) % r + lo
}

proof fn lemma_wrap_range_add(a: int, b: int, lo: int, r: int)
    requires
        r > 0,
    ensures
        wrap_range(wrap_range(a, lo, r) + b, lo, r) == wrap_range(a + b, lo, r),
{
    lemma_add_mod_noop_right(b, a - lo, r);
    assert(wrap_range(a, lo, r) + b - lo == b + (a - lo) % r);
    assert(a + b - lo == b + (a - lo));
}

proof fn lemma_wrap_range_bounds(v: int, lo: int, r: int)
    requires
        r > 0,
    ensures
        lo <= wrap_range(v, lo, r) < lo + r,
        lo <= v < lo + r ==> wrap_range(v, lo, r) == v,
{
    lemma_mod_bound(v - lo, r);
    if lo <= v < lo + r {
        lemma_small_mod((v - lo) as nat, r as nat);
    }
}

/// Wrapping a sum of two values of the range takes off or adds `r` at most
/// once.
proof fn lemma_wrap_range_once(s: int, lo: int, r: int)
    requires
        r > 0,
        lo - r <= s < lo + 2 * r,
    ensures
        wrap_range(s, lo, r) == if s >= lo + r {
            s - r
        } else if s < lo {
            s + r
        } else {
            s
        },
{
    if s >= lo + r {
        lemma_mod_add_multiples_vanish(s - lo - r, r);
        lemma_small_mod((s - lo - r) as nat, r as nat);
    } else if s < lo {
        lemma_mod_sub_multiples_vanish(s - lo + r, r);
        lemma_small_mod((s - lo + r) as nat, r as nat);
    } else {
        lemma_small_mod((s - lo) as nat, r as nat);
    }
}

/// An integer column type that SUM runs over, with the wider type its sums
/// are kept in.
pub trait Summable: ColumnInt {
    type Wide: ColumnInt;

    /// `v` brought into the type's range by wrapping.
    spec fn wrap(v: int) -> int;

    spec fn output_type_spec() -> DataType;

    proof fn lemma_wrap_add(a: int, b: int)
        ensures
            Self::wrap(Self::wrap(a) + b) == Self::wrap(a + b),
    ;

    proof fn lemma_wrap_bounds(v: int)
        ensures
            Self::min_int() <= Self::wrap(v) <= Self::max_int(),
            Self::min_int() <= v <= Self::max_int() ==> Self::wrap(v) == v,
    ;

    proof fn lemma_bounds()
        ensures
            i64::MIN <= Self::min_int(),
            Self::max_int() <= u64::MAX,
            i64::MIN <= <Self::Wide as Integer>::min_int(),
            <Self::Wide as Integer>::max_int() <= u64::MAX,
    ;

    /// Two's-complement addition in the type.
    fn add_wrapping(&self, other: &Self) -> (r: Self)
        ensures
            r.int_value() == Self::wrap(self.int_value() + other.int_value()),
    ;

    fn widen(&self) -> (r: Self::Wide)
        ensures
            r.int_value() == self.int_value(),
    ;

    fn output_type() -> (r: DataType)
        ensures
            r == Self::output_type_spec(),
            r == Self::Wide::data_type_spec(),
    ;

    /// The column holding sums of this type.
    fn into_column(values: Vec<Self::Wide>) -> (r: ColumnChunk)
        ensures
            Self::Wide::column_values(r) == Some(values@),
    ;
}

impl Summable for i8 {
    type Wide = i64;

    open spec fn wrap(v: int) -> int {
        wrap_range(v, -0x80, 0x100)
    }

    open spec fn output_type_spec() -> DataType {
        DataType::I64
    }

    proof fn lemma_wrap_add(a: int, b: int) {
        lemma_wrap_range_add(a, b, -0x80, 0x100);
    }

    proof fn lemma_wrap_bounds(v: int) {
        lemma_wrap_range_bounds(v, -0x80, 0x100);
    }

    proof fn lemma_bounds() {
    }

    fn add_wrapping(&self, other: &Self) -> (r: Self) {
        proof { lemma_wrap_range_once(*self + *other, -0x80, 0x100); }
        self.wrapping_add(*other)
    }

    fn widen(&self) -> (r: i64) {
        *self as i64
    }

    fn output_type() -> (r: DataType) {
        DataType::I64
    }

    fn into_column(values: Vec<i64>) -> (r: ColumnChunk) {
        ColumnChunk::I64(values)
    }
}

impl Summable for i16 {
    type Wide = i64;

    open spec fn wrap(v: int) -> int {
        wrap_range(v, -0x8000, 0x1_0000)
    }

    open spec fn output_type_spec() -> DataType {
        DataType::I64
    }

    proof fn lemma_wrap_add(a: int, b: int) {
        lemma_wrap_range_add(a, b, -0x8000, 0x1_0000);
    }

    proof fn lemma_wrap_bounds(v: int) {
        lemma_wrap_range_bounds(v, -0x8000, 0x1_0000);
    }

    proof fn lemma_bounds() {
    }

    fn add_wrapping(&self, other: &Self) -> (r: Self) {
        proof { lemma_wrap_range_once(*self + *other, -0x8000, 0x1_0000); }
        self.wrapping_add(*other)
    }

    fn widen(&self) -> (r: i64) {
        *self as i64
    }

    fn output_type() -> (r: DataType) {
        DataType::I64
    }

    fn into_column(values: Vec<i64>) -> (r: ColumnChunk) {
        ColumnChunk::I64(values)
    }
}

impl Summable for i32 {
    type Wide = i64;

    open spec fn wrap(v: int) -> int {
        wrap_range(v, -0x8000_0000, 0x1_0000_0000)
    }

    open spec fn output_type_spec() -> DataType {
        DataType::I64
    }

    proof fn lemma_wrap_add(a: int, b: int) {
        lemma_wrap_range_add(a, b, -0x8000_0000, 0x1_0000_0000);
    }

    proof fn lemma_wrap_bounds(v: int) {
        lemma_wrap_range_bounds(v, -0x8000_0000, 0x1_0000_0000);
    }

    proof fn lemma_bounds() {
    }

    fn add_wrapping(&self, other: &Self) -> (r: Self) {
        proof { lemma_wrap_range_once(*self + *other, -0x8000_0000, 0x1_0000_0000); }
        self.wrapping_add(*other)
    }

    fn widen(&self) -> (r: i64) {
        *self as i64
    }

    fn output_type() -> (r: DataType) {
        DataType::I64
    }

    fn into_column(values: Vec<i64>) -> (r: ColumnChunk) {
        ColumnChunk::I64(values)
    }
}

impl Summable for i64 {
    type Wide = i64;

    open spec fn wrap(v: int) -> int {
        wrap_range(v, -0x8000_0000_0000_0000, 0x1_0000_0000_0000_0000)
    }

    open spec fn output_type_spec() -> DataType {
        DataType::I64
    }

    proof fn lemma_wrap_add(a: int, b: int) {
        lemma_wrap_range_add(a, b, -0x8000_0000_0000_0000, 0x1_0000_0000_0000_0000);
    }

    proof fn lemma_wrap_bounds(v: int) {
        lemma_wrap_range_bounds(v, -0x8000_0000_0000_0000, 0x1_0000_0000_0000_0000);
    }

    proof fn lemma_bounds() {
    }

    fn add_wrapping(&self, other: &Self) -> (r: Self) {
        proof { lemma_wrap_range_once(*self + *other, -0x8000_0000_0000_0000, 0x1_0000_0000_0000_0000); }
        self.wrapping_add(*other)
    }

    fn widen(&self) -> (r: i64) {
        *self
    }

    fn output_type() -> (r: DataType) {
        DataType::I64
    }

    fn into_column(values: Vec<i64>) -> (r: ColumnChunk) {
        ColumnChunk::I64(values)
    }
}

impl Summable for u8 {
    type Wide = u64;

    open spec fn wrap(v: int) -> int {
        wrap_range(v, 0, 0x100)
    }

    open spec fn output_type_spec() -> DataType {
        DataType::U64
    }

    proof fn lemma_wrap_add(a: int, b: int) {
        lemma_wrap_range_add(a, b, 0, 0x100);
    }

    proof fn lemma_wrap_bounds(v: int) {
        lemma_wrap_range_bounds(v, 0, 0x100);
    }

    proof fn lemma_bounds() {
    }

    fn add_wrapping(&self, other: &Self) -> (r: Self) {
        proof { lemma_wrap_range_once(*self + *other, 0, 0x100); }
        self.wrapping_add(*other)
    }

    fn widen(&self) -> (r: u64) {
        *self as u64
    }

    fn output_type() -> (r: DataType) {
        DataType::U64
    }

    fn into_column(values: Vec<u64>) -> (r: ColumnChunk) {
        ColumnChunk::U64(values)
    }
}

impl Summable for u16 {
    type Wide = u64;

    open spec fn wrap(v: int) -> int {
        wrap_range(v, 0, 0x1_0000)
    }

    open spec fn output_type_spec() -> DataType {
        DataType::U64
    }

    proof fn lemma_wrap_add(a: int, b: int) {
        lemma_wrap_range_add(a, b, 0, 0x1_0000);
    }

    proof fn lemma_wrap_bounds(v: int) {
        lemma_wrap_range_bounds(v, 0, 0x1_0000);
    }

    proof fn lemma_bounds() {
    }

    fn add_wrapping(&self, other: &Self) -> (r: Self) {
        proof { lemma_wrap_range_once(*self + *other, 0, 0x1_0000); }
        self.wrapping_add(*other)
    }

    fn widen(&self) -> (r: u64) {
        *self as u64
    }

    fn output_type() -> (r: DataType) {
        DataType::U64
    }

    fn into_column(values: Vec<u64>) -> (r: ColumnChunk) {
        ColumnChunk::U64(values)
    }
}

impl Summable for u32 {
    type Wide = u64;

    open spec fn wrap(v: int) -> int {
        wrap_range(v, 0, 0x1_0000_0000)
    }

    open spec fn output_type_spec() -> DataType {
        DataType::U64
    }

    proof fn lemma_wrap_add(a: int, b: int) {
        lemma_wrap_range_add(a, b, 0, 0x1_0000_0000);
    }

    proof fn lemma_wrap_bounds(v: int) {
        lemma_wrap_range_bounds(v, 0, 0x1_0000_0000);
    }

    proof fn lemma_bounds() {
    }

    fn add_wrapping(&self, other: &Self) -> (r: Self) {
        proof { lemma_wrap_range_once(*self + *other, 0, 0x1_0000_0000); }
        self.wrapping_add(*other)
    }

    fn widen(&self) -> (r: u64) {
        *self as u64
    }

    fn output_type() -> (r: DataType) {
        DataType::U64
    }

    fn into_column(values: Vec<u64>) -> (r: ColumnChunk) {
        ColumnChunk::U64(values)
    }
}

impl Summable for u64 {
    type Wide = u64;

    open spec fn wrap(v: int) -> int {
        wrap_range(v, 0, 0x1_0000_0000_0000_0000)
    }

    open spec fn output_type_spec() -> DataType {
        DataType::U64
    }

    proof fn lemma_wrap_add(a: int, b: int) {
        lemma_wrap_range_add(a, b, 0, 0x1_0000_0000_0000_0000);
    }

    proof fn lemma_wrap_bounds(v: int) {
        lemma_wrap_range_bounds(v, 0, 0x1_0000_0000_0000_0000);
    }

    proof fn lemma_bounds() {
    }

    fn add_wrapping(&self, other: &Self) -> (r: Self) {
        proof { lemma_wrap_range_once(*self + *other, 0, 0x1_0000_0000_0000_0000); }
        self.wrapping_add(*other)
    }

    fn widen(&self) -> (r: u64) {
        *self
    }

    fn output_type() -> (r: DataType) {
        DataType::U64
    }

    fn into_column(values: Vec<u64>) -> (r: ColumnChunk) {
        ColumnChunk::U64(values)
    }
}

/// The sum of `vals` as the column's own type adds it up, wrapping.
pub open spec fn wrapped_sum<T: Summable>(vals: Seq<T>) -> int {
    T::wrap(seq_sum(vals))
}

/// The running sums, as integers, after `vals` are folded into `acc` grown
/// to `n` zeros: without groups (`n == 1`) the wrapped sum of all of `vals`
/// is added to the one sum (nothing for no values); otherwise each value is
/// added to the sum of its group id.
pub open spec fn sums_folded<T: Summable>(acc: Seq<T::Wide>, vals: Seq<T>, gids: Seq<u32>, n: nat) -> Seq<int> {
    let p = int_values(padded(acc, n, <T::Wide as Integer>::zero_spec()));
    if n == 1 {
        if vals.len() == 0 {
            p
        } else {
            p.update(0, p[0] + wrapped_sum(vals))
        }
    } else {
        Seq::new(p.len(), |g: int| p[g] + group_sum(vals, gids, g, zip_len(vals.len(), gids.len()) as int))
    }
}

/// The fold can run: every group id names a sum, and no running sum leaves
/// the wide type.
pub open spec fn sum_fold_ok<T: Summable>(acc: Seq<T::Wide>, vals: Seq<T>, gids: Seq<u32>, n: nat) -> bool {
    let p = padded(acc, n, <T::Wide as Integer>::zero_spec());
    if n == 1 {
        vals.len() > 0 ==> <T::Wide as Integer>::min_int() <= p[0].int_value() + wrapped_sum(vals)
            <= <T::Wide as Integer>::max_int()
    } else {
        &&& gids.len() <= vals.len()
        &&& ids_fit(acc.len(), vals.len(), gids, n)
        &&& forall|g: int, k: int|
            0 <= g < p.len() && 0 <= k <= zip_len(vals.len(), gids.len()) ==> <T::Wide as Integer>::min_int()
                <= #[trigger] p[g].int_value() + #[trigger] group_sum(vals, gids, g, k) <= <T::Wide as Integer>::max_int()
    }
}

pub struct SumAccumulator<T: Summable> {
    running_sums: Vec<T::Wide>,
    column_name: String,
}

impl<T: Summable> SumAccumulator<T> {
    /// The running sums as stored, by group id.
    pub closed spec fn raw(&self) -> Seq<T::Wide> {
        self.running_sums@
    }

    pub closed spec fn column(&self) -> Seq<char> {
        self.column_name@
    }

    pub fn new(column_name: String) -> (r: Self)
        ensures
            r.raw() == Seq::<T::Wide>::empty(),
            r.column() == column_name@,
    {
        SumAccumulator { column_name, running_sums: Vec::new() }
    }

    /// Grows the sums to `num_groups`, the new ones zero.
    pub fn ensure_capacity(&mut self, num_groups: usize)
        ensures
            final(self).raw() == padded(old(self).raw(), num_groups as nat, <T::Wide as Integer>::zero_spec()),
            final(self).column() == old(self).column(),
    {
        let z = <T::Wide as Integer>::zero();
        let ghost start = self.running_sums@;
        if self.running_sums.len() < num_groups {
            while self.running_sums.len() < num_groups
                invariant
                    z == <T::Wide as Integer>::zero_spec(),
                    start.len() <= self.running_sums@.len() <= num_groups,
                    self.running_sums@ == start + Seq::new(
                        (self.running_sums@.len() - start.len()) as nat,
                        |i: int| <T::Wide as Integer>::zero_spec(),
                    ),
                    self.column_name@ == old(self).column_name@,
                decreases num_groups - self.running_sums@.len(),
            {
                self.running_sums.push(z);
                assert(self.running_sums@ =~= start + Seq::new(
                    (self.running_sums@.len() - start.len()) as nat,
                    |i: int| <T::Wide as Integer>::zero_spec(),
                ));
            }
        }
    }

    fn wrapped_total(vals: &Vec<T>) -> (r: T)
        ensures
            r.int_value() == wrapped_sum(vals@),
    {
        let mut partial = T::zero();
        let mut i: usize = 0;
        proof {
            partial.lemma_range();
            T::lemma_wrap_bounds(0);
            assert(vals@.take(0) =~= Seq::<T>::empty());
        }
        while i < vals.len()
            invariant
                i <= vals@.len(),
                partial.int_value() == T::wrap(seq_sum(vals@.take(i as int))),
            decreases vals@.len() - i,
        {
            proof {
                assert(vals@.take(i + 1).drop_last() =~= vals@.take(i as int));
                T::lemma_wrap_add(seq_sum(vals@.take(i as int)), vals@[i as int].int_value());
            }
            partial = partial.add_wrapping(&vals[i]);
            i = i + 1;
        }
        proof {
            assert(vals@.take(i as int) =~= vals@);
        }
        partial
    }

    fn fold_in(&mut self, vals: &Vec<T>, group_indices: &[u32], num_groups: usize)
        requires
            sum_fold_ok(old(self).raw(), vals@, group_indices@, num_groups as nat),
        ensures
            int_values(final(self).raw()) == sums_folded(old(self).raw(), vals@, group_indices@, num_groups as nat),
            final(self).column() == old(self).column(),
    {
        let ghost before = self.running_sums@;
        self.ensure_capacity(num_groups);
        let ghost p = self.running_sums@;
        if num_groups == 1 {
            if vals.len() > 0 {
                let partial = Self::wrapped_total(vals);
                let cur = self.running_sums[0];
                let next = cur.add(&partial.widen());
                self.running_sums.set(0, next);
            }
            proof {
                let q = int_values(p);
                if vals@.len() == 0 {
                    assert(int_values(self.running_sums@) =~= q);
                } else {
                    assert(int_values(self.running_sums@) =~= q.update(0, q[0] + wrapped_sum(vals@)));
                }
            }
        } else {
            let m = if vals.len() <= group_indices.len() {
                vals.len()
            } else {
                group_indices.len()
            };
            let mut i: usize = 0;
            while i < m
                invariant
                    m == zip_len(vals@.len(), group_indices@.len()),
                    m <= vals@.len(),
                    m <= group_indices@.len(),
                    i <= m,
                    p == padded(before, num_groups as nat, <T::Wide as Integer>::zero_spec()),
                    self.running_sums@.len() == p.len(),
                    forall|j: int| 0 <= j < m ==> (#[trigger] group_indices@[j] as int) < p.len(),
                    forall|g: int, k: int|
                        0 <= g < p.len() && 0 <= k <= m ==> <T::Wide as Integer>::min_int() <= #[trigger] p[g].int_value()
                            + #[trigger] group_sum(vals@, group_indices@, g, k) <= <T::Wide as Integer>::max_int(),
                    forall|g: int|
                        0 <= g < p.len() ==> #[trigger] self.running_sums@[g].int_value() == p[g].int_value() + group_sum(
                            vals@,
                            group_indices@,
                            g,
                            i as int,
                        ),
                    self.column_name@ == old(self).column_name@,
                decreases m - i,
            {
                let gid = group_indices[i] as usize;
                proof {
                    assert(group_indices@[i as int] as int == gid);
                    assert(p[gid as int].int_value() + group_sum(vals@, group_indices@, gid as int, i + 1)
                        <= <T::Wide as Integer>::max_int());
                    assert(<T::Wide as Integer>::min_int() <= p[gid as int].int_value() + group_sum(
                        vals@,
                        group_indices@,
                        gid as int,
                        i + 1,
                    ));
                }
                let cur = self.running_sums[gid];
                let next = cur.add(&vals[i].widen());
                self.running_sums.set(gid, next);
                i = i + 1;
                proof {
                    assert forall|g: int| 0 <= g < p.len() implies #[trigger] self.running_sums@[g].int_value()
                        == p[g].int_value() + group_sum(vals@, group_indices@, g, i as int) by {
                        assert(group_sum(vals@, group_indices@, g, i as int) == group_sum(
                            vals@,
                            group_indices@,
                            g,
                            i - 1,
                        ) + if group_indices@[i - 1] == g {
                            vals@[i - 1].int_value()
                        } else {
                            0
                        });
                    }
                }
            }
            proof {
                assert(int_values(self.running_sums@) =~= Seq::new(
                    p.len(),
                    |g: int| int_values(p)[g] + group_sum(vals@, group_indices@, g, m as int),
                ));
            }
        }
    }

    /// Whether adding `vals` to the sums grown to `num_groups` keeps every
    /// running sum within the wide type; the group ids must fit.
    fn sums_stay_in_range(&self, vals: &Vec<T>, group_indices: &[u32], num_groups: usize) -> (r: bool)
        requires
            num_groups != 1,
            group_indices@.len() <= vals@.len(),
            ids_fit(self.raw().len(), vals@.len(), group_indices@, num_groups as nat),
        ensures
            r == sum_fold_ok(self.raw(), vals@, group_indices@, num_groups as nat),
    {
        let ghost p = padded(self.raw(), num_groups as nat, <T::Wide as Integer>::zero_spec());
        proof { T::lemma_bounds(); }
        let (lo, hi) = <T::Wide as Integer>::bounds();
        let plen = if self.running_sums.len() >= num_groups {
            self.running_sums.len()
        } else {
            num_groups
        };
        let mut running: Vec<i128> = Vec::new();
        let mut j: usize = 0;
        while j < plen
            invariant
                j <= plen,
                plen == p.len(),
                p == padded(self.raw(), num_groups as nat, <T::Wide as Integer>::zero_spec()),
                running@.len() == j,
                forall|g: int| 0 <= g < j ==> #[trigger] running@[g] == p[g].int_value(),
            decreases plen - j,
        {
            if j < self.running_sums.len() {
                running.push(self.running_sums[j].to_i128());
            } else {
                let z = <T::Wide as Integer>::zero();
                running.push(z.to_i128());
            }
            j = j + 1;
        }
        let m = vals.len().min(group_indices.len());
        let mut i: usize = 0;
        proof {
            assert forall|g: int, k: int| 0 <= g < p.len() && 0 <= k <= 0 implies <T::Wide as Integer>::min_int()
                <= #[trigger] p[g].int_value() + #[trigger] group_sum(vals@, group_indices@, g, k)
                <= <T::Wide as Integer>::max_int() by {
                p[g].lemma_range();
            }
        }
        while i < m
            invariant
                num_groups != 1,
                m == zip_len(vals@.len(), group_indices@.len()),
                m <= vals@.len(),
                m <= group_indices@.len(),
                i <= m,
                p == padded(self.raw(), num_groups as nat, <T::Wide as Integer>::zero_spec()),
                lo == <T::Wide as Integer>::min_int(),
                hi == <T::Wide as Integer>::max_int(),
                i64::MIN <= lo,
                hi <= u64::MAX,
                i64::MIN <= T::min_int(),
                T::max_int() <= u64::MAX,
                running@.len() == p.len(),
                forall|k: int| 0 <= k < m ==> (#[trigger] group_indices@[k] as int) < p.len(),
                forall|g: int|
                    0 <= g < p.len() ==> #[trigger] running@[g] == p[g].int_value() + group_sum(
                        vals@,
                        group_indices@,
                        g,
                        i as int,
                    ),
                forall|g: int, k: int|
                    0 <= g < p.len() && 0 <= k <= i ==> <T::Wide as Integer>::min_int() <= #[trigger] p[g].int_value()
                        + #[trigger] group_sum(vals@, group_indices@, g, k) <= <T::Wide as Integer>::max_int(),
            decreases m - i,
        {
            let g = group_indices[i] as usize;
            proof {
                vals@[i as int].lemma_range();
                assert(lo <= running@[g as int] <= hi) by {
                    assert(running@[g as int] == p[g as int].int_value() + group_sum(
                        vals@,
                        group_indices@,
                        g as int,
                        i as int,
                    ));
                }
            }
            let next = running[g] + vals[i].to_i128();
            proof {
                assert forall|h: int| 0 <= h < p.len() implies #[trigger] group_sum(vals@, group_indices@, h, i + 1)
                    == group_sum(vals@, group_indices@, h, i as int) + if h == g {
                    vals@[i as int].int_value()
                } else {
                    0
                } by {}
            }
            if next < lo || next > hi {
                proof {
                    assert(p[g as int].int_value() + group_sum(vals@, group_indices@, g as int, i + 1) == next);
                    assert(!sum_fold_ok(self.raw(), vals@, group_indices@, num_groups as nat));
                }
                return false;
            }
            running.set(g, next);
            i = i + 1;
            proof {
                assert forall|h: int, k: int|
                    0 <= h < p.len() && 0 <= k <= i implies <T::Wide as Integer>::min_int() <= #[trigger] p[h].int_value()
                    + #[trigger] group_sum(vals@, group_indices@, h, k) <= <T::Wide as Integer>::max_int() by {
                    if k == i {
                        assert(running@[h] == p[h].int_value() + group_sum(vals@, group_indices@, h, k));
                    }
                }
            }
        }
        true
    }

    /// Whether `update` can take the batch: its column of this name, if
    /// any, is of this type, every group id of its rows has a sum, and no
    /// running sum leaves the wide type.
    pub fn can_update(&self, batch: &Batch, group_indices: &[u32], num_groups: usize) -> (r: bool)
        requires
            batch.wf(),
        ensures
            r == (typed_if_present::<T>(*batch, self.column()) && (named_values::<T>(*batch, self.column()) matches Some(
                vals,
            ) ==> sum_fold_ok(self.raw(), vals, group_indices@, num_groups as nat))),
    {
        match column_position(batch, &self.column_name) {
            None => true,
            Some(k) => {
                proof {
                    lemma_find_column(batch_cols(*batch), self.column_name@);
                    T::lemma_bounds();
                }
                match T::values_in(&batch.columns[k]) {
                    None => false,
                    Some(vals) => {
                        if num_groups == 1 {
                            if vals.len() == 0 {
                                return true;
                            }
                            let partial = Self::wrapped_total(vals);
                            let first: i128 = if self.running_sums.len() > 0 {
                                self.running_sums[0].to_i128()
                            } else {
                                let z = <T::Wide as Integer>::zero();
                                z.to_i128()
                            };
                            proof {
                                let p = padded(self.raw(), 1, <T::Wide as Integer>::zero_spec());
                                assert(first == p[0].int_value());
                            }
                            proof {
                                partial.lemma_range();
                                if self.running_sums@.len() > 0 {
                                    self.running_sums@[0].lemma_range();
                                }
                            }
                            let (lo, hi) = <T::Wide as Integer>::bounds();
                            let total = first + partial.to_i128();
                            lo <= total && total <= hi
                        } else {
                            group_indices.len() <= vals.len() && ids_would_fit(
                                self.running_sums.len(),
                                vals.len(),
                                group_indices,
                                num_groups,
                            ) && self.sums_stay_in_range(vals, group_indices, num_groups)
                        }
                    },
                }
            },
        }
    }

    /// Adds the batch's column named after this accumulator to the sums,
    /// after growing them to `num_groups`. An error, with the sums grown,
    /// when the batch has no such column.
    pub fn update(&mut self, batch: &Batch, group_indices: &[u32], num_groups: usize) -> (r: Result<(), ExecutionError>)
        requires
            batch.wf(),
            typed_if_present::<T>(*batch, old(self).column()),
            named_values::<T>(*batch, old(self).column()) matches Some(vals) ==> sum_fold_ok(
                old(self).raw(),
                vals,
                group_indices@,
                num_groups as nat,
            ),
        ensures
            final(self).column() == old(self).column(),
            match named_values::<T>(*batch, old(self).column()) {
                Some(vals) => r is Ok && int_values(final(self).raw()) == sums_folded(
                    old(self).raw(),
                    vals,
                    group_indices@,
                    num_groups as nat,
                ),
                None => r matches Err(ExecutionError::InvalidData(m)) && m@ == "SumAccumulator: column '"@
                    + old(self).column() + "' not found in batch"@ && final(self).raw() == padded(
                    old(self).raw(),
                    num_groups as nat,
                    <T::Wide as Integer>::zero_spec(),
                ),
            },
    {
        let ghost name = self.column_name@;
        match column_position(batch, &self.column_name) {
            None => {
                self.ensure_capacity(num_groups);
                proof {
                    reveal_strlit("SumAccumulator: column '");
                    reveal_strlit("' not found in batch");
                }
                let mut msg = String::from_str("SumAccumulator: column '");
                msg.append(self.column_name.as_str());
                msg.append("' not found in batch");
                Err(ExecutionError::InvalidData(msg))
            },
            Some(k) => {
                proof { lemma_find_column(batch_cols(*batch), name); }
                let vals = T::values_in(&batch.columns[k]).unwrap();
                self.fold_in(vals, group_indices, num_groups);
                Ok(())
            },
        }
    }

    /// The output column: `sum(<column>)`, of the wide type.
    pub fn output_field(&self) -> (r: ColumnSchema)
        ensures
            r.name@ == "sum("@ + self.column() + ")"@,
            r.data_type == T::output_type_spec(),
    {
        proof {
            reveal_strlit("sum(");
            reveal_strlit(")");
        }
        let mut s = String::from_str("sum(");
        s.append(self.column_name.as_str());
        s.append(")");
        ColumnSchema { name: s, data_type: T::output_type() }
    }

    /// Hands out the sums as a column, by group id, leaving none behind.
    pub fn finalize(&mut self) -> (r: ColumnChunk)
        ensures
            <T::Wide as ColumnInt>::column_values(r) == Some(old(self).raw()),
            final(self).raw() == Seq::<T::Wide>::empty(),
            final(self).column() == old(self).column(),
    {
        let mut out: Vec<T::Wide> = Vec::new();
        std::mem::swap(&mut out, &mut self.running_sums);
        T::into_column(out)
    }
}

} // verus!
