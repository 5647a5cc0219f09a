//! Zone maps: per-part min/max bounds of numeric columns, the byte layout of
//! `part.zonemap`, and lookup by column name.
use vstd::prelude::*;

use crate::aggregator::Integer;
use crate::float_bits::{f32_less, f32_lt, f64_le, f64_less, f64_lt, is_nan, is_nan32, order_key32};

verus! {

/// Min/max bounds for one column within one part.
pub struct ZoneMapEntry<T> {
    pub min: T,
    pub max: T,
}

/// The order in which a column's values are compared for its bounds.
pub trait ValueOrder<T> {
    /// `a` compares below `b`.
    spec fn before(a: T, b: T) -> bool;

    fn less(a: T, b: T) -> (r: bool)
        ensures
            r == Self::before(a, b),
    ;
}

/// Integers by their value.
pub struct IntegerOrder;

/// Binary32 bit patterns as the floats they encode.
pub struct F32Order;

/// Binary64 bit patterns as the floats they encode.
pub struct F64Order;

impl<T: Integer> ValueOrder<T> for IntegerOrder {
    open spec fn before(a: T, b: T) -> bool {
        a.int_value() < b.int_value()
    }

    fn less(a: T, b: T) -> (r: bool) {
        a.lt(&b)
    }
}

impl ValueOrder<u32> for F32Order {
    open spec fn before(a: u32, b: u32) -> bool {
        f32_lt(a, b)
    }

    fn less(a: u32, b: u32) -> (r: bool) {
        f32_less(a, b)
    }
}

impl ValueOrder<u64> for F64Order {
    open spec fn before(a: u64, b: u64) -> bool {
        f64_lt(a, b)
    }

    fn less(a: u64, b: u64) -> (r: bool) {
        f64_less(a, b)
    }
}

/// The minimum as a single pass tracks it: the first value, replaced by each
/// later value that compares below the one held.
pub open spec fn running_min<T, O: ValueOrder<T>>(s: Seq<T>) -> T
    decreases s.len(),
{
    if s.len() <= 1 {
        s[0]
    } else {
        let m = running_min::<T, O>(s.drop_last());
        if O::before(s.last(), m) {
            s.last()
        } else {
            m
        }
    }
}

/// The maximum as a single pass tracks it: the first value, replaced by each
/// later value that the one held compares below.
pub open spec fn running_max<T, O: ValueOrder<T>>(s: Seq<T>) -> T
    decreases s.len(),
{
    if s.len() <= 1 {
        s[0]
    } else {
        let m = running_max::<T, O>(s.drop_last());
        if O::before(m, s.last()) {
            s.last()
        } else {
            m
        }
    }
}

/// The running bounds are values of the column.
pub proof fn lemma_running_bounds_occur<T, O: ValueOrder<T>>(s: Seq<T>)
    requires
        s.len() > 0,
    ensures
        s.contains(running_min::<T, O>(s)),
        s.contains(running_max::<T, O>(s)),
    decreases s.len(),
{
    if s.len() > 1 {
        lemma_running_bounds_occur::<T, O>(s.drop_last());
        let a = running_min::<T, O>(s.drop_last());
        let b = running_max::<T, O>(s.drop_last());
        let ia = choose|i: int| 0 <= i < s.drop_last().len() && s.drop_last()[i] == a;
        let ib = choose|i: int| 0 <= i < s.drop_last().len() && s.drop_last()[i] == b;
        assert(s[ia] == a);
        assert(s[ib] == b);
        assert(s[s.len() - 1] == s.last());
    } else {
        assert(s[0] == s[0]);
    }
}

/// For integers the running bounds are the least and the greatest value.
pub proof fn lemma_integer_bounds<T: Integer>(s: Seq<T>)
    requires
        s.len() > 0,
    ensures
        forall|i: int|
            0 <= i < s.len() ==> running_min::<T, IntegerOrder>(s).int_value() <= (#[trigger] s[i]).int_value()
                <= running_max::<T, IntegerOrder>(s).int_value(),
    decreases s.len(),
{
    if s.len() > 1 {
        lemma_integer_bounds(s.drop_last());
        assert forall|i: int| 0 <= i < s.len() implies running_min::<T, IntegerOrder>(s).int_value() <= (
        #[trigger] s[i]).int_value() <= running_max::<T, IntegerOrder>(s).int_value() by {
            if i < s.len() - 1 {
                assert(s[i] == s.drop_last()[i]);
            }
        }
    }
}

/// For binary64 values none of which is a NaN, the running bounds are the
/// least and the greatest value.
pub proof fn lemma_f64_bounds(s: Seq<u64>)
    requires
        s.len() > 0,
        forall|i: int| 0 <= i < s.len() ==> !is_nan(#[trigger] s[i]),
    ensures
        forall|i: int|
            0 <= i < s.len() ==> f64_le(running_min::<u64, F64Order>(s), #[trigger] s[i]) && f64_le(
                s[i],
                running_max::<u64, F64Order>(s),
            ),
    decreases s.len(),
{
    if s.len() > 1 {
        lemma_f64_bounds(s.drop_last());
        lemma_running_bounds_occur::<u64, F64Order>(s.drop_last());
        let p = s.drop_last();
        let a = choose|j: int| 0 <= j < p.len() && p[j] == running_min::<u64, F64Order>(p);
        let b = choose|j: int| 0 <= j < p.len() && p[j] == running_max::<u64, F64Order>(p);
        assert(p[a] == s[a] && p[b] == s[b]);
        assert(!is_nan(running_min::<u64, F64Order>(p)) && !is_nan(running_max::<u64, F64Order>(p)));
        assert forall|i: int| 0 <= i < s.len() implies f64_le(running_min::<u64, F64Order>(s), #[trigger] s[i])
            && f64_le(s[i], running_max::<u64, F64Order>(s)) by {
            if i < s.len() - 1 {
                assert(s[i] == s.drop_last()[i]);
            }
            assert(!is_nan(s[s.len() - 1]));
        }
    } else {
        assert(!is_nan(s[0]));
    }
}

/// For binary32 values none of which is a NaN, the running bounds are the
/// least and the greatest value.
pub proof fn lemma_f32_bounds(s: Seq<u32>)
    requires
        s.len() > 0,
        forall|i: int| 0 <= i < s.len() ==> !is_nan32(#[trigger] s[i]),
    ensures
        forall|i: int|
            0 <= i < s.len() ==> order_key32(running_min::<u32, F32Order>(s)) <= order_key32(#[trigger] s[i])
                <= order_key32(running_max::<u32, F32Order>(s)),
    decreases s.len(),
{
    if s.len() > 1 {
        lemma_f32_bounds(s.drop_last());
        lemma_running_bounds_occur::<u32, F32Order>(s.drop_last());
        let p = s.drop_last();
        let a = choose|j: int| 0 <= j < p.len() && p[j] == running_min::<u32, F32Order>(p);
        let b = choose|j: int| 0 <= j < p.len() && p[j] == running_max::<u32, F32Order>(p);
        assert(p[a] == s[a] && p[b] == s[b]);
        assert(!is_nan32(running_min::<u32, F32Order>(p)) && !is_nan32(running_max::<u32, F32Order>(p)));
        assert forall|i: int| 0 <= i < s.len() implies order_key32(running_min::<u32, F32Order>(s)) <= order_key32(
        #[trigger] s[i]) <= order_key32(running_max::<u32, F32Order>(s)) by {
            if i < s.len() - 1 {
                assert(s[i] == s.drop_last()[i]);
            }
            assert(!is_nan32(s[s.len() - 1]));
        }
    }
}

/// The bounds of `values` as one pass in the order `O` finds them; `None`
/// when there are no values.
pub fn value_bounds<T: Copy, O: ValueOrder<T>>(values: &[T]) -> (r: Option<ZoneMapEntry<T>>)
    ensures
        values@.len() == 0 <==> r is None,
        r matches Some(z) ==> {
            &&& z.min == running_min::<T, O>(values@)
            &&& z.max == running_max::<T, O>(values@)
            &&& values@.contains(z.min)
            &&& values@.contains(z.max)
        },
{
    if values.len() == 0 {
        return None;
    }
    let mut lo = values[0];
    let mut hi = values[0];
    let mut i: usize = 1;
    while i < values.len()
        invariant
            1 <= i <= values@.len(),
            lo == running_min::<T, O>(values@.take(i as int)),
            hi == running_max::<T, O>(values@.take(i as int)),
        decreases values@.len() - i,
    {
        proof {
            assert(values@.take(i + 1).drop_last() =~= values@.take(i as int));
        }
        let v = values[i];
        if O::less(v, lo) {
            lo = v;
        }
        if O::less(hi, v) {
            hi = v;
        }
        i = i + 1;
    }
    proof {
        assert(values@.take(i as int) =~= values@);
        lemma_running_bounds_occur::<T, O>(values@);
    }
    Some(ZoneMapEntry { min: lo, max: hi })
}

/// Type-erased zone map entry for one column: both bounds widened to eight raw
/// little-endian bytes, with the column's name and type tag.
pub struct EncodedZoneMapEntry {
    pub col_name: String,
    pub type_tag: u8,
    pub min_bytes: [u8; 8],
    pub max_bytes: [u8; 8],
}

/// One (min, max) pair as read back from a zone map.
pub struct ZoneEntry {
    pub min_bytes: [u8; 8],
    pub max_bytes: [u8; 8],
}

/// All entries of one column.
pub struct ZoneColumn {
    pub name: String,
    pub type_tag: u8,
    pub entries: Vec<ZoneEntry>,
}

/// A part's zone map: one record per zone-mapped column.
pub struct ZoneMap {
    pub columns: Vec<ZoneColumn>,
}

/// Index of the first column named `name`.
pub open spec fn zone_find(cols: Seq<ZoneColumn>, name: Seq<char>) -> Option<int>
    decreases cols.len(),
{
    if cols.len() == 0 {
        None
    } else {
        match zone_find(cols.drop_last(), name) {
            Some(i) => Some(i),
            None => if cols.last().name@ == name {
                Some(cols.len() - 1)
            } else {
                None
            },
        }
    }
}

pub proof fn lemma_zone_find(cols: Seq<ZoneColumn>, name: Seq<char>)
    ensures
        match zone_find(cols, name) {
            Some(i) => 0 <= i < cols.len() && cols[i].name@ == name,
            None => forall|j: int| 0 <= j < cols.len() ==> cols[j].name@ != name,
        },
    decreases cols.len(),
{
    if cols.len() > 0 {
        let p = cols.drop_last();
        lemma_zone_find(p, name);
        assert forall|j: int| 0 <= j < p.len() implies p[j] == cols[j] by {}
    }
}

pub proof fn lemma_zone_find_prefix(cols: Seq<ZoneColumn>, name: Seq<char>, k: int)
    requires
        0 <= k <= cols.len(),
    ensures
        zone_find(cols.take(k), name) is Some ==> zone_find(cols.take(k), name) == zone_find(cols, name),
    decreases cols.len() - k,
{
    if k < cols.len() {
        lemma_zone_find_prefix(cols, name, k + 1);
        assert(cols.take(k + 1).drop_last() =~= cols.take(k));
    } else {
        assert(cols.take(k) =~= cols);
    }
}

impl ZoneMap {
    pub open spec fn lookup(&self, name: Seq<char>) -> Option<ZoneColumn> {
        match zone_find(self.columns@, name) {
            Some(i) => Some(self.columns@[i]),
            None => None,
        }
    }

    /// The zone-map record of column `name`, if the map has one.
    pub fn get(&self, name: &String) -> (r: Option<&ZoneColumn>)
        ensures
            match r {
                Some(c) => self.lookup(name@) == Some(*c),
                None => self.lookup(name@) is None,
            },
    {
        let n = self.columns.len();
        let mut i: usize = 0;
        while i < n
            invariant
                n == self.columns@.len(),
                i <= n,
                zone_find(self.columns@.take(i as int), name@) is None,
            decreases n - i,
        {
            proof {
                assert(self.columns@.take(i + 1).drop_last() =~= self.columns@.take(i as int));
            }
            if self.columns[i].name == *name {
                proof {
                    lemma_zone_find_prefix(self.columns@, name@, i + 1);
                }
                return Some(&self.columns[i]);
            }
            i = i + 1;
        }
        proof {
            assert(self.columns@.take(n as int) =~= self.columns@);
        }
        None
    }
}

} // verus!
