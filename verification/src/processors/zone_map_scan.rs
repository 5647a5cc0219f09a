//! ZoneMapScan: part-level pruning via zone maps.
//!
//! `can_skip` interprets a `Predicate` against a part's min/max bounds; the
//! scan loops over parts and skips those `can_skip` rejects.
use vstd::prelude::*;

use crate::bytes::{as_signed64, le8_value, le_i64, le_u64};
use crate::parser::ast::{CmpOp, Literal, Predicate};
use crate::catalog::schema::ColumnSchema;
use crate::float_bits::{f64_le, f64_less, f64_less_eq, f64_lt, i64_to_f64_bits, int_to_f64_spec, is_nan, nat_to_f64_spec, order_key, u64_to_f64_bits};
use crate::storage::zone_map::{ZoneColumn, ZoneEntry, ZoneMap};

verus! {

/// The pruning truth table: can no value in `min..=max` satisfy `v op value`?
pub open spec fn bounds_exclude_spec(min: int, max: int, op: CmpOp, value: int) -> bool {
    match op {
        CmpOp::Eq => value < min || value > max,
        CmpOp::Lt => min >= value,
        CmpOp::Le => min > value,
        CmpOp::Gt => max <= value,
        CmpOp::Ge => max < value,
        CmpOp::Ne => false,
    }
}

/// A literal read as a signed 64-bit value.
pub open spec fn literal_as_i64_spec(v: Literal) -> Option<int> {
    match v {
        Literal::Int(i) => Some(i as int),
        Literal::UInt(u) => if u <= i64::MAX {
            Some(u as int)
        } else {
            None
        },
        _ => None,
    }
}

/// A literal read as an unsigned 64-bit value.
pub open spec fn literal_as_u64_spec(v: Literal) -> Option<int> {
    match v {
        Literal::Int(i) => if i >= 0 {
            Some(i as int)
        } else {
            None
        },
        Literal::UInt(u) => Some(u as int),
        _ => None,
    }
}

pub open spec fn is_signed_tag(tag: u8) -> bool {
    1 <= tag <= 4
}

pub open spec fn is_unsigned_tag(tag: u8) -> bool {
    5 <= tag <= 8
}

/// Lower bound of an entry, read in the integer family of `tag`.
pub open spec fn entry_lo(tag: u8, e: ZoneEntry) -> int {
    if is_signed_tag(tag) {
        as_signed64(le8_value(e.min_bytes@))
    } else {
        le8_value(e.min_bytes@)
    }
}

/// Upper bound of an entry, read in the integer family of `tag`.
pub open spec fn entry_hi(tag: u8, e: ZoneEntry) -> int {
    if is_signed_tag(tag) {
        as_signed64(le8_value(e.max_bytes@))
    } else {
        le8_value(e.max_bytes@)
    }
}

pub open spec fn is_float_tag(tag: u8) -> bool {
    9 <= tag <= 10
}

/// A literal as a binary64 bit pattern: integers converted as `as f64`
/// converts them, floats as they are.
pub open spec fn literal_as_f64_spec(v: Literal) -> Option<u64> {
    match v {
        Literal::Int(i) => Some(int_to_f64_spec(i as int) as u64),
        Literal::UInt(u) => Some(nat_to_f64_spec(u as nat) as u64),
        Literal::Float(f) => Some(f),
        _ => None,
    }
}

/// The pruning truth table on binary64 values, with IEEE-754 comparisons.
pub open spec fn bounds_exclude_f64_spec(min: u64, max: u64, op: CmpOp, value: u64) -> bool {
    match op {
        CmpOp::Eq => f64_lt(value, min) || f64_lt(max, value),
        CmpOp::Lt => f64_le(value, min),
        CmpOp::Le => f64_lt(value, min),
        CmpOp::Gt => f64_le(max, value),
        CmpOp::Ge => f64_lt(max, value),
        CmpOp::Ne => false,
    }
}

/// The bound of a float entry, as binary64 bits.
pub open spec fn float_bound(b: Seq<u8>) -> u64 {
    le8_value(b) as u64
}

/// Can this one entry prove that `op value` matches nothing?
pub open spec fn entry_excludes_spec(tag: u8, e: ZoneEntry, op: CmpOp, value: Literal) -> bool {
    if is_signed_tag(tag) {
        match literal_as_i64_spec(value) {
            Some(v) => bounds_exclude_spec(entry_lo(tag, e), entry_hi(tag, e), op, v),
            None => false,
        }
    } else if is_unsigned_tag(tag) {
        match literal_as_u64_spec(value) {
            Some(v) => bounds_exclude_spec(entry_lo(tag, e), entry_hi(tag, e), op, v),
            None => false,
        }
    } else if is_float_tag(tag) {
        match literal_as_f64_spec(value) {
            Some(v) => bounds_exclude_f64_spec(float_bound(e.min_bytes@), float_bound(e.max_bytes@), op, v),
            None => false,
        }
    } else {
        false
    }
}

/// Every entry of the column excludes `op value`.
pub open spec fn column_excludes(c: ZoneColumn, op: CmpOp, value: Literal) -> bool {
    forall|k: int| 0 <= k < c.entries@.len() ==> #[trigger] entry_excludes_spec(c.type_tag, c.entries@[k], op, value)
}

/// Whether the zone map proves `predicate` false for every row of the part.
pub open spec fn can_skip_spec(zone: ZoneMap, predicate: Predicate) -> bool
    decreases predicate,
{
    match predicate {
        Predicate::Cmp { col, op, value } => match zone.lookup(col@) {
            None => false,
            Some(c) => column_excludes(c, op, value),
        },
        Predicate::And(a, b) => can_skip_spec(zone, *a) || can_skip_spec(zone, *b),
        Predicate::Or(a, b) => can_skip_spec(zone, *a) && can_skip_spec(zone, *b),
        Predicate::Not(_) => false,
    }
}

/// The integer a literal denotes, when it is an integer literal.
pub open spec fn literal_int_value(v: Literal) -> Option<int> {
    match v {
        Literal::Int(i) => Some(i as int),
        Literal::UInt(u) => Some(u as int),
        _ => None,
    }
}

pub open spec fn cmp_holds(a: int, op: CmpOp, b: int) -> bool {
    match op {
        CmpOp::Eq => a == b,
        CmpOp::Ne => a != b,
        CmpOp::Lt => a < b,
        CmpOp::Le => a <= b,
        CmpOp::Gt => a > b,
        CmpOp::Ge => a >= b,
    }
}

/// The pruning table on integer bounds is exact: for a non-empty range
/// `min..=max` and any comparison but `!=`, the range is excluded exactly
/// when no integer in it satisfies the comparison; `!=` never excludes, and
/// an excluded range never holds a value that satisfies the comparison.
pub proof fn lemma_bounds_exclude_exact(min: int, max: int, op: CmpOp, value: int)
    requires
        min <= max,
    ensures
        bounds_exclude_spec(min, max, op, value) ==> forall|x: int| min <= x <= max ==> !#[trigger] cmp_holds(x, op, value),
        !(op is Ne) && (forall|x: int| min <= x <= max ==> !#[trigger] cmp_holds(x, op, value)) ==> bounds_exclude_spec(
            min,
            max,
            op,
            value,
        ),
        op is Ne ==> !bounds_exclude_spec(min, max, op, value),
{
    if !bounds_exclude_spec(min, max, op, value) {
        match op {
            CmpOp::Eq => assert(cmp_holds(value, op, value)),
            CmpOp::Lt => assert(cmp_holds(min, op, value)),
            CmpOp::Le => assert(cmp_holds(min, op, value)),
            CmpOp::Gt => assert(cmp_holds(max, op, value)),
            CmpOp::Ge => assert(cmp_holds(max, op, value)),
            CmpOp::Ne => {},
        }
    }
}

/// The pruning table on float bounds is exact for bounds and a value that
/// are not NaN: for any comparison but `!=`, the range is excluded exactly
/// when no float in it (NaN aside) satisfies the comparison.
pub proof fn lemma_bounds_exclude_f64_exact(min: u64, max: u64, op: CmpOp, value: u64)
    requires
        !is_nan(min),
        !is_nan(max),
        !is_nan(value),
        f64_le(min, max),
    ensures
        bounds_exclude_f64_spec(min, max, op, value) ==> forall|x: u64|
            !is_nan(x) && f64_le(min, x) && f64_le(x, max) ==> !#[trigger] f64_cmp_holds(x, op, value),
        !(op is Ne) && (forall|x: u64|
            !is_nan(x) && f64_le(min, x) && f64_le(x, max) ==> !#[trigger] f64_cmp_holds(x, op, value))
            ==> bounds_exclude_f64_spec(min, max, op, value),
{
    if !bounds_exclude_f64_spec(min, max, op, value) {
        match op {
            CmpOp::Eq => assert(f64_cmp_holds(value, op, value)),
            CmpOp::Lt => assert(f64_cmp_holds(min, op, value)),
            CmpOp::Le => assert(f64_cmp_holds(min, op, value)),
            CmpOp::Gt => assert(f64_cmp_holds(max, op, value)),
            CmpOp::Ge => assert(f64_cmp_holds(max, op, value)),
            CmpOp::Ne => {},
        }
    }
}

/// A value of a row: an integer, or a float as its binary64 bits.
pub enum RowValue {
    Int(int),
    Float(u64),
}

/// A comparison of binary64 values as IEEE-754 makes it: false for NaN,
/// except `!=`.
pub open spec fn f64_cmp_holds(a: u64, op: CmpOp, b: u64) -> bool {
    match op {
        CmpOp::Eq => !is_nan(a) && !is_nan(b) && order_key(a) == order_key(b),
        CmpOp::Ne => !(!is_nan(a) && !is_nan(b) && order_key(a) == order_key(b)),
        CmpOp::Lt => f64_lt(a, b),
        CmpOp::Le => f64_le(a, b),
        CmpOp::Gt => f64_lt(b, a),
        CmpOp::Ge => f64_le(b, a),
    }
}

/// Truth of `predicate` on a row that maps column names to values. An
/// integer column compares with an integer literal, a float column with a
/// numeric literal converted to binary64; every other comparison (other
/// literals, columns the row does not hold) takes its truth from `other`.
pub open spec fn pred_holds(
    predicate: Predicate,
    row: Map<Seq<char>, RowValue>,
    other: spec_fn(Seq<char>, CmpOp, Literal) -> bool,
) -> bool
    decreases predicate,
{
    match predicate {
        Predicate::Cmp { col, op, value } => if row.contains_key(col@) {
            match (row[col@], literal_int_value(value), literal_as_f64_spec(value)) {
                (RowValue::Int(x), Some(l), _) => cmp_holds(x, op, l),
                (RowValue::Float(x), _, Some(l)) => f64_cmp_holds(x, op, l),
                _ => other(col@, op, value),
            }
        } else {
            other(col@, op, value)
        },
        Predicate::And(a, b) => pred_holds(*a, row, other) && pred_holds(*b, row, other),
        Predicate::Or(a, b) => pred_holds(*a, row, other) || pred_holds(*b, row, other),
        Predicate::Not(a) => !pred_holds(*a, row, other),
    }
}

/// A float entry holds `x`: `x` lies between its bounds, or both bounds are
/// NaN (the writer keeps a NaN bound only when the column starts with NaN,
/// and such bounds exclude nothing).
pub open spec fn float_entry_holds(e: ZoneEntry, x: u64) -> bool {
    let lo = float_bound(e.min_bytes@);
    let hi = float_bound(e.max_bytes@);
    (is_nan(lo) && is_nan(hi)) || (f64_le(lo, x) && f64_le(x, hi))
}

/// A row of the part described by `zone`: every column the zone map covers
/// has at least one entry; an integer column's value lies between the bounds
/// of one of its entries, and a float column's value is NaN or is held by
/// one of its entries.
pub open spec fn row_within_zone(zone: ZoneMap, row: Map<Seq<char>, RowValue>) -> bool {
    forall|name: Seq<char>| #[trigger] zone.lookup(name) is Some ==> {
        let c = zone.lookup(name)->0;
        &&& c.entries@.len() > 0
        &&& (is_signed_tag(c.type_tag) || is_unsigned_tag(c.type_tag)) ==> {
            &&& row.contains_key(name)
            &&& row[name] is Int
            &&& exists|k: int|
                0 <= k < c.entries@.len() && entry_lo(c.type_tag, #[trigger] c.entries@[k]) <= row[name]->Int_0
                    <= entry_hi(c.type_tag, c.entries@[k])
        }
        &&& is_float_tag(c.type_tag) ==> {
            &&& row.contains_key(name)
            &&& row[name] is Float
            &&& (is_nan(row[name]->Float_0) || exists|k: int|
                0 <= k < c.entries@.len() && float_entry_holds(#[trigger] c.entries@[k], row[name]->Float_0))
        }
    }
}

proof fn lemma_float_entry_sound(lo: u64, hi: u64, x: u64, op: CmpOp, v: u64)
    requires
        is_nan(x) || (is_nan(lo) && is_nan(hi)) || (f64_le(lo, x) && f64_le(x, hi)),
        bounds_exclude_f64_spec(lo, hi, op, v),
    ensures
        !f64_cmp_holds(x, op, v),
{
}

/// Zone-map pruning is sound: when `can_skip` holds for a part, the predicate
/// is false on every row of that part, whatever the comparisons outside the
/// model mean.
pub proof fn lemma_can_skip_sound(
    zone: ZoneMap,
    predicate: Predicate,
    row: Map<Seq<char>, RowValue>,
    other: spec_fn(Seq<char>, CmpOp, Literal) -> bool,
)
    requires
        row_within_zone(zone, row),
        can_skip_spec(zone, predicate),
    ensures
        !pred_holds(predicate, row, other),
    decreases predicate,
{
    match predicate {
        Predicate::Cmp { col, op, value } => {
            let c = zone.lookup(col@)->0;
            assert(zone.lookup(col@) is Some);
            assert(c.entries@.len() > 0);
            assert(entry_excludes_spec(c.type_tag, c.entries@[0], op, value));
            if is_signed_tag(c.type_tag) || is_unsigned_tag(c.type_tag) {
                let k = choose|k: int|
                    0 <= k < c.entries@.len() && entry_lo(c.type_tag, #[trigger] c.entries@[k]) <= row[col@]->Int_0
                        <= entry_hi(c.type_tag, c.entries@[k]);
                assert(entry_excludes_spec(c.type_tag, c.entries@[k], op, value));
            } else if is_float_tag(c.type_tag) {
                let x = row[col@]->Float_0;
                if is_nan(x) {
                    let e = c.entries@[0];
                    lemma_float_entry_sound(
                        float_bound(e.min_bytes@),
                        float_bound(e.max_bytes@),
                        x,
                        op,
                        literal_as_f64_spec(value)->0,
                    );
                } else {
                    let k = choose|k: int|
                        0 <= k < c.entries@.len() && float_entry_holds(#[trigger] c.entries@[k], x);
                    let e = c.entries@[k];
                    assert(entry_excludes_spec(c.type_tag, e, op, value));
                    lemma_float_entry_sound(
                        float_bound(e.min_bytes@),
                        float_bound(e.max_bytes@),
                        x,
                        op,
                        literal_as_f64_spec(value)->0,
                    );
                }
            }
        },
        Predicate::And(a, b) => {
            if can_skip_spec(zone, *a) {
                lemma_can_skip_sound(zone, *a, row, other);
            } else {
                lemma_can_skip_sound(zone, *b, row, other);
            }
        },
        Predicate::Or(a, b) => {
            lemma_can_skip_sound(zone, *a, row, other);
            lemma_can_skip_sound(zone, *b, row, other);
        },
        Predicate::Not(_) => {},
    }
}

/// The pruning truth table.
pub fn bounds_exclude(min: i128, max: i128, op: &CmpOp, value: i128) -> (r: bool)
    ensures
        r == bounds_exclude_spec(min as int, max as int, *op, value as int),
{
    match op {
        CmpOp::Eq => value < min || value > max,
        CmpOp::Lt => min >= value,
        CmpOp::Le => min > value,
        CmpOp::Gt => max <= value,
        CmpOp::Ge => max < value,
        CmpOp::Ne => false,
    }
}

/// The literal as an `i64`, when it is an integer that fits.
pub fn literal_as_i64(v: &Literal) -> (r: Option<i64>)
    ensures
        match r {
            Some(x) => literal_as_i64_spec(*v) == Some(x as int),
            None => literal_as_i64_spec(*v) is None,
        },
{
    match v {
        Literal::Int(i) => Some(*i),
        Literal::UInt(u) => if *u <= 0x7fff_ffff_ffff_ffffu64 {
            Some(*u as i64)
        } else {
            None
        },
        _ => None,
    }
}

/// The literal as a `u64`, when it is an integer that fits.
pub fn literal_as_u64(v: &Literal) -> (r: Option<u64>)
    ensures
        match r {
            Some(x) => literal_as_u64_spec(*v) == Some(x as int),
            None => literal_as_u64_spec(*v) is None,
        },
{
    match v {
        Literal::Int(i) => if *i >= 0 {
            Some(*i as u64)
        } else {
            None
        },
        Literal::UInt(u) => Some(*u),
        _ => None,
    }
}

/// The literal as binary64 bits: integers converted as `as f64` converts
/// them, floats as they are.
pub fn literal_as_f64(v: &Literal) -> (r: Option<u64>)
    ensures
        r == literal_as_f64_spec(*v),
{
    match v {
        Literal::Int(i) => Some(i64_to_f64_bits(*i)),
        Literal::UInt(u) => Some(u64_to_f64_bits(*u)),
        Literal::Float(f) => Some(*f),
        _ => None,
    }
}

/// The pruning truth table on binary64 values.
pub fn bounds_exclude_f64(min: u64, max: u64, op: &CmpOp, value: u64) -> (r: bool)
    ensures
        r == bounds_exclude_f64_spec(min, max, *op, value),
{
    match op {
        CmpOp::Eq => f64_less(value, min) || f64_less(max, value),
        CmpOp::Lt => f64_less_eq(value, min),
        CmpOp::Le => f64_less(value, min),
        CmpOp::Gt => f64_less_eq(max, value),
        CmpOp::Ge => f64_less(max, value),
        CmpOp::Ne => false,
    }
}

/// Can this one (min, max) entry prove `op value` matches nothing?
pub fn entry_excludes(type_tag: u8, entry: &ZoneEntry, op: &CmpOp, value: &Literal) -> (r: bool)
    ensures
        r == entry_excludes_spec(type_tag, *entry, *op, *value),
{
    if 1 <= type_tag && type_tag <= 4 {
        match literal_as_i64(value) {
            Some(v) => bounds_exclude(
                le_i64(&entry.min_bytes) as i128,
                le_i64(&entry.max_bytes) as i128,
                op,
                v as i128,
            ),
            None => false,
        }
    } else if 5 <= type_tag && type_tag <= 8 {
        match literal_as_u64(value) {
            Some(v) => bounds_exclude(
                le_u64(&entry.min_bytes) as i128,
                le_u64(&entry.max_bytes) as i128,
                op,
                v as i128,
            ),
            None => false,
        }
    } else if 9 <= type_tag && type_tag <= 10 {
        match literal_as_f64(value) {
            Some(v) => bounds_exclude_f64(le_u64(&entry.min_bytes), le_u64(&entry.max_bytes), op, v),
            None => false,
        }
    } else {
        false
    }
}

/// Returns true if `predicate` is provably false for every row in the part,
/// using only the zone map's bounds. False means "cannot prove".
pub fn can_skip(zone: &ZoneMap, predicate: &Predicate) -> (r: bool)
    ensures
        r == can_skip_spec(*zone, *predicate),
    decreases predicate,
{
    match predicate {
        Predicate::Cmp { col, op, value } => match zone.get(col) {
            None => false,
            Some(column) => {
                let n = column.entries.len();
                let mut k: usize = 0;
                while k < n
                    invariant
                        n == column.entries@.len(),
                        k <= n,
                        zone.lookup(col@) == Some(*column),
                        *predicate == (Predicate::Cmp { col: *col, op: *op, value: *value }),
                        forall|j: int| 0 <= j < k ==> #[trigger] entry_excludes_spec(column.type_tag, column.entries@[j], *op, *value),
                    decreases n - k,
                {
                    if !entry_excludes(column.type_tag, &column.entries[k], op, value) {
                        proof {
                            assert(!entry_excludes_spec(column.type_tag, column.entries@[k as int], *op, *value));
                            assert(!column_excludes(*column, *op, *value));
                            assert(zone.lookup(col@) == Some(*column));
                            assert(*predicate == Predicate::Cmp { col: *col, op: *op, value: *value });
                        }
                        return false;
                    }
                    k = k + 1;
                }
                true
            },
        },
        Predicate::And(a, b) => can_skip(zone, a) || can_skip(zone, b),
        Predicate::Or(a, b) => can_skip(zone, a) && can_skip(zone, b),
        Predicate::Not(_) => false,
    }
}


/// How many of the decisions on `zones` (the zone map given for each part
/// decided on, if one could be read) were to skip: a zone map was given and
/// proves `p` false.
pub open spec fn skip_count(zones: Seq<Option<ZoneMap>>, p: Predicate) -> nat
    decreases zones.len(),
{
    if zones.len() == 0 {
        0
    } else {
        skip_count(zones.drop_last(), p) + if zones.last() matches Some(z) && can_skip_spec(z, p) {
            1nat
        } else {
            0nat
        }
    }
}

/// How many of the decisions on `zones` were to read the part.
pub open spec fn read_count(zones: Seq<Option<ZoneMap>>, p: Predicate) -> nat
    decreases zones.len(),
{
    if zones.len() == 0 {
        0
    } else {
        read_count(zones.drop_last(), p) + if zones.last() matches Some(z) && can_skip_spec(z, p) {
            0nat
        } else {
            1nat
        }
    }
}

/// The parts read when the parts `ids` are decided on in order with the zone
/// maps `zones` (one per part decided on): each part in turn, unless its zone
/// map was given and proves `p` false.
pub open spec fn parts_read(ids: Seq<u32>, zones: Seq<Option<ZoneMap>>, p: Predicate) -> Seq<u32>
    decreases zones.len(),
{
    if zones.len() == 0 {
        Seq::empty()
    } else {
        let prev = parts_read(ids, zones.drop_last(), p);
        if zones.last() matches Some(z) && can_skip_spec(z, p) {
            prev
        } else {
            prev.push(ids[zones.len() - 1])
        }
    }
}

/// Like a full scan, but skips the parts whose zone map proves the predicate
/// false. Lazy and sequential: the caller asks for the next part with
/// `next_part`, reads its zone map, and asks `skip_part` whether to read the
/// part; a part whose zone map is missing or unreadable is read.
pub struct ZoneMapScan {
    table_dir: String,
    columns: Vec<ColumnSchema>,
    predicate: Predicate,
    part_ids: Vec<u32>,
    cursor: usize,
    parts_skipped: usize,
    pending: Option<u32>,
    decided: Ghost<Seq<Option<ZoneMap>>>,
}

impl ZoneMapScan {
    pub closed spec fn table_dir_spec(&self) -> String {
        self.table_dir
    }

    pub closed spec fn columns_spec(&self) -> Seq<ColumnSchema> {
        self.columns@
    }

    pub closed spec fn predicate_spec(&self) -> Predicate {
        self.predicate
    }

    pub fn table_dir(&self) -> (r: &String)
        ensures
            *r == self.table_dir_spec(),
    {
        &self.table_dir
    }

    /// The columns each part is read for.
    pub fn columns(&self) -> (r: &Vec<ColumnSchema>)
        ensures
            r@ == self.columns_spec(),
    {
        &self.columns
    }

    pub fn predicate(&self) -> (r: &Predicate)
        ensures
            *r == self.predicate_spec(),
    {
        &self.predicate
    }

    pub closed spec fn part_ids(&self) -> Seq<u32> {
        self.part_ids@
    }

    /// How many parts have been handed out.
    pub closed spec fn cursor(&self) -> nat {
        self.cursor as nat
    }

    pub closed spec fn skipped(&self) -> nat {
        self.parts_skipped as nat
    }

    /// The part handed out last, while no decision on it was asked for.
    pub closed spec fn pending(&self) -> Option<u32> {
        self.pending
    }

    /// The zone map given for each part decided on so far, in order.
    pub closed spec fn decided(&self) -> Seq<Option<ZoneMap>> {
        self.decided@
    }

    /// No more parts are skipped than were handed out, and no more handed
    /// out than there are; a pending part is the last one handed out.
    pub closed spec fn wf(&self) -> bool {
        &&& self.cursor <= self.part_ids@.len()
        &&& self.parts_skipped + (if self.pending is Some { 1int } else { 0int }) <= self.cursor
        &&& self.pending is Some ==> self.cursor > 0 && self.pending == Some(self.part_ids@[self.cursor - 1])
        &&& self.decided@.len() + (if self.pending is Some { 1int } else { 0int }) == self.cursor
        &&& self.parts_skipped == skip_count(self.decided@, self.predicate)
    }

    /// A scan of the parts `part_ids` of the table in `table_dir`, in that order.
    pub fn new(table_dir: String, columns: Vec<ColumnSchema>, predicate: Predicate, part_ids: Vec<u32>) -> (r: Self)
        ensures
            r.wf(),
            r.table_dir_spec() == table_dir,
            r.columns_spec() == columns@,
            r.predicate_spec() == predicate,
            r.part_ids() == part_ids@,
            r.cursor() == 0,
            r.skipped() == 0,
            r.pending() is None,
            r.decided() == Seq::<Option<ZoneMap>>::empty(),
    {
        ZoneMapScan {
            table_dir,
            columns,
            predicate,
            part_ids,
            cursor: 0,
            parts_skipped: 0,
            pending: None,
            decided: Ghost(Seq::empty()),
        }
    }

    /// Parts pruned so far.
    pub fn parts_skipped(&self) -> (r: usize)
        requires
            self.wf(),
        ensures
            r == self.skipped(),
            r == skip_count(self.decided(), self.predicate_spec()),
            r <= self.cursor() <= self.part_ids().len(),
    {
        self.parts_skipped
    }

    /// The next part to consider, in order, or `None` when every part has
    /// been handed out. A part handed out before and not decided on counts
    /// as read.
    pub fn next_part(&mut self) -> (r: Option<u32>)
        requires
            old(self).wf(),
        ensures
            final(self).wf(),
            final(self).part_ids() == old(self).part_ids(),
            final(self).skipped() == old(self).skipped(),
            final(self).predicate_spec() == old(self).predicate_spec(),
            final(self).columns_spec() == old(self).columns_spec(),
            final(self).table_dir_spec() == old(self).table_dir_spec(),
            old(self).cursor() < old(self).part_ids().len() ==> r == Some(old(self).part_ids()[old(self).cursor() as int])
                && final(self).cursor() == old(self).cursor() + 1,
            old(self).cursor() >= old(self).part_ids().len() ==> r is None && final(self).cursor() == old(self).cursor(),
            final(self).pending() == r,
            parts_read(final(self).part_ids(), final(self).decided(), final(self).predicate_spec()) == if old(
                self,
            ).pending() is Some {
                parts_read(old(self).part_ids(), old(self).decided(), old(self).predicate_spec()).push(
                    old(self).pending()->0,
                )
            } else {
                parts_read(old(self).part_ids(), old(self).decided(), old(self).predicate_spec())
            },
            final(self).decided() == if old(self).pending() is Some {
                old(self).decided().push(None)
            } else {
                old(self).decided()
            },
    {
        proof {
            if self.pending is Some {
                self.decided@ = self.decided@.push(None);
                assert(self.decided@.drop_last() =~= old(self).decided@);
            }
        }
        if self.cursor < self.part_ids.len() {
            let id = self.part_ids[self.cursor];
            self.cursor = self.cursor + 1;
            self.pending = Some(id);
            Some(id)
        } else {
            self.pending = None;
            None
        }
    }

    /// Whether to skip the part handed out last, given its zone map, if one
    /// could be read: only when the zone map proves the predicate false.
    pub fn skip_part(&mut self, zone: Option<&ZoneMap>) -> (skip: bool)
        requires
            old(self).wf(),
        ensures
            final(self).wf(),
            skip == (old(self).pending() is Some && zone is Some && can_skip_spec(*zone->0, old(self).predicate_spec())),
            final(self).skipped() == old(self).skipped() + if skip { 1nat } else { 0nat },
            final(self).cursor() == old(self).cursor(),
            final(self).part_ids() == old(self).part_ids(),
            final(self).predicate_spec() == old(self).predicate_spec(),
            final(self).columns_spec() == old(self).columns_spec(),
            final(self).table_dir_spec() == old(self).table_dir_spec(),
            final(self).pending() is None,
            parts_read(final(self).part_ids(), final(self).decided(), final(self).predicate_spec()) == if old(
                self,
            ).pending() is Some && !skip {
                parts_read(old(self).part_ids(), old(self).decided(), old(self).predicate_spec()).push(
                    old(self).pending()->0,
                )
            } else {
                parts_read(old(self).part_ids(), old(self).decided(), old(self).predicate_spec())
            },
            final(self).decided() == if old(self).pending() is Some {
                old(self).decided().push(
                    match zone {
                        Some(z) => Some(*z),
                        None => None,
                    },
                )
            } else {
                old(self).decided()
            },
    {
        let skip = match (&self.pending, zone) {
            (Some(_), Some(z)) => can_skip(z, &self.predicate),
            _ => false,
        };
        proof {
            if self.pending is Some {
                let g = match zone {
                    Some(z) => Some(*z),
                    None => None,
                };
                self.decided@ = self.decided@.push(g);
                assert(self.decided@.drop_last() =~= old(self).decided@);
            }
        }
        if skip {
            self.parts_skipped = self.parts_skipped + 1;
        }
        self.pending = None;
        skip
    }
}

/// Over any run of a scan: the parts are handed out in order, and each part
/// handed out is either decided on, in that order, or pending. Of the parts
/// decided on, those skipped are the ones whose zone map was given and proves
/// the predicate false; the others, and only they, are read, in order
/// (`parts_read`), so the two counts add up to the parts decided on. Once
/// `next_part` has answered `None`, every part has been decided on.
pub proof fn lemma_scan_accounting(scan: ZoneMapScan)
    requires
        scan.wf(),
    ensures
        scan.skipped() == skip_count(scan.decided(), scan.predicate_spec()),
        scan.skipped() + read_count(scan.decided(), scan.predicate_spec()) == scan.decided().len(),
        parts_read(scan.part_ids(), scan.decided(), scan.predicate_spec()).len() == read_count(
            scan.decided(),
            scan.predicate_spec(),
        ),
        scan.decided().len() <= scan.cursor() <= scan.part_ids().len(),
        scan.pending() is None ==> scan.decided().len() == scan.cursor(),
        scan.pending() is None && scan.cursor() == scan.part_ids().len() ==> scan.decided().len()
            == scan.part_ids().len(),
{
    lemma_counts_add(scan.decided(), scan.predicate_spec());
    lemma_parts_read_len(scan.part_ids(), scan.decided(), scan.predicate_spec());
}

proof fn lemma_parts_read_len(ids: Seq<u32>, zones: Seq<Option<ZoneMap>>, p: Predicate)
    ensures
        parts_read(ids, zones, p).len() == read_count(zones, p),
    decreases zones.len(),
{
    if zones.len() > 0 {
        lemma_parts_read_len(ids, zones.drop_last(), p);
    }
}

proof fn lemma_counts_add(zones: Seq<Option<ZoneMap>>, p: Predicate)
    ensures
        skip_count(zones, p) + read_count(zones, p) == zones.len(),
    decreases zones.len(),
{
    if zones.len() > 0 {
        lemma_counts_add(zones.drop_last(), p);
    }
}


// ---------------------------------------------------------------------------
// A whole run of the scan, as the sequence of its batches

/// The zone map `z` proves `p` false, so its part is skipped.
pub open spec fn skips(z: Option<ZoneMap>, p: Predicate) -> bool {
    z matches Some(m) && can_skip_spec(m, p)
}

/// One batch of the scan from cursor `c`: the parts are taken in order,
/// each one's zone map given by `zone`, and the first that is not skipped is
/// read; the result is that part and the cursor after it, or `None` and the
/// end when every part left is skipped.
pub open spec fn next_read(ids: Seq<u32>, zone: spec_fn(u32) -> Option<ZoneMap>, p: Predicate, c: nat) -> (
    Option<u32>,
    nat,
)
    decreases ids.len() - c,
{
    if c >= ids.len() {
        (None, c)
    } else if skips(zone(ids[c as int]), p) {
        next_read(ids, zone, p, c + 1)
    } else {
        (Some(ids[c as int]), c + 1)
    }
}

/// The cursor after `k` batches.
pub open spec fn cursor_after(ids: Seq<u32>, zone: spec_fn(u32) -> Option<ZoneMap>, p: Predicate, k: nat) -> nat
    decreases k,
{
    if k == 0 {
        0
    } else {
        next_read(ids, zone, p, cursor_after(ids, zone, p, (k - 1) as nat)).1
    }
}

/// What the batch after `k` batches returns.
pub open spec fn batch(ids: Seq<u32>, zone: spec_fn(u32) -> Option<ZoneMap>, p: Predicate, k: nat) -> Option<u32> {
    next_read(ids, zone, p, cursor_after(ids, zone, p, k)).0
}

/// The parts from position `c` on whose zone map does not prove `p` false,
/// in order.
pub open spec fn readable_from(ids: Seq<u32>, zone: spec_fn(u32) -> Option<ZoneMap>, p: Predicate, c: nat) -> Seq<u32>
    decreases ids.len() - c,
{
    if c >= ids.len() {
        Seq::empty()
    } else if skips(zone(ids[c as int]), p) {
        readable_from(ids, zone, p, c + 1)
    } else {
        seq![ids[c as int]] + readable_from(ids, zone, p, c + 1)
    }
}

/// How many of the first `c` parts are skipped.
pub open spec fn skipped_before(ids: Seq<u32>, zone: spec_fn(u32) -> Option<ZoneMap>, p: Predicate, c: nat) -> nat
    decreases c,
{
    if c == 0 || c > ids.len() {
        0
    } else {
        skipped_before(ids, zone, p, (c - 1) as nat) + if skips(zone(ids[c - 1]), p) {
            1nat
        } else {
            0nat
        }
    }
}

proof fn lemma_next_read(ids: Seq<u32>, zone: spec_fn(u32) -> Option<ZoneMap>, p: Predicate, c: nat)
    requires
        c <= ids.len(),
    ensures
        ({
            let (r, c2) = next_read(ids, zone, p, c);
            let rs = readable_from(ids, zone, p, c);
            &&& c <= c2 <= ids.len()
            &&& rs.len() > 0 ==> r == Some(rs[0]) && readable_from(ids, zone, p, c2) == rs.drop_first()
                && skipped_before(ids, zone, p, c2) == skipped_before(ids, zone, p, c) + (c2 - c - 1)
            &&& rs.len() == 0 ==> r is None && c2 == ids.len() && readable_from(ids, zone, p, c2) == rs
                && skipped_before(ids, zone, p, c2) == skipped_before(ids, zone, p, c) + (c2 - c)
        }),
    decreases ids.len() - c,
{
    if c < ids.len() {
        assert(skipped_before(ids, zone, p, c + 1) == skipped_before(ids, zone, p, c) + if skips(zone(ids[c as int]), p) {
            1nat
        } else {
            0nat
        });
        if skips(zone(ids[c as int]), p) {
            lemma_next_read(ids, zone, p, c + 1);
        } else {
            let rs = readable_from(ids, zone, p, c);
            assert(rs.drop_first() =~= readable_from(ids, zone, p, c + 1));
        }
    }
}

/// The batches of a whole run of a zone-map scan over the parts `ids`, each
/// part's zone map given by `zone` (`None` where it is missing or
/// unreadable): the `k`-th batch is the `k`-th part, in order, whose zone map
/// does not prove `p` false, and after the last of them every batch is
/// `None`; so no skipped part is ever read. The parts skipped so far and the
/// batches returned so far add up to the parts visited, and the skipped ones
/// are exactly those whose zone map proves `p` false.
pub proof fn lemma_scan_run(ids: Seq<u32>, zone: spec_fn(u32) -> Option<ZoneMap>, p: Predicate, k: nat)
    ensures
        k < readable_from(ids, zone, p, 0).len() ==> batch(ids, zone, p, k) == Some(
            readable_from(ids, zone, p, 0)[k as int],
        ),
        k >= readable_from(ids, zone, p, 0).len() ==> batch(ids, zone, p, k) is None,
        cursor_after(ids, zone, p, k) <= ids.len(),
        skipped_before(ids, zone, p, cursor_after(ids, zone, p, k)) + (if k < readable_from(ids, zone, p, 0).len() {
            k
        } else {
            readable_from(ids, zone, p, 0).len()
        }) == cursor_after(ids, zone, p, k),
    decreases k,
{
    lemma_run_prefix(ids, zone, p, k);
    let c = cursor_after(ids, zone, p, k);
    lemma_next_read(ids, zone, p, c);
}

/// After `k` batches, what is left to read is the whole readable list with
/// its first `k` parts (or all of it) taken off.
proof fn lemma_run_prefix(ids: Seq<u32>, zone: spec_fn(u32) -> Option<ZoneMap>, p: Predicate, k: nat)
    ensures
        cursor_after(ids, zone, p, k) <= ids.len(),
        readable_from(ids, zone, p, cursor_after(ids, zone, p, k)) == readable_from(ids, zone, p, 0).skip(
            if k < readable_from(ids, zone, p, 0).len() {
                k as int
            } else {
                readable_from(ids, zone, p, 0).len() as int
            },
        ),
        skipped_before(ids, zone, p, cursor_after(ids, zone, p, k)) + (if k < readable_from(ids, zone, p, 0).len() {
            k
        } else {
            readable_from(ids, zone, p, 0).len()
        }) == cursor_after(ids, zone, p, k),
    decreases k,
{
    let all = readable_from(ids, zone, p, 0);
    if k == 0 {
        assert(all.skip(0) =~= all);
    } else {
        let k1 = (k - 1) as nat;
        lemma_run_prefix(ids, zone, p, k1);
        let c = cursor_after(ids, zone, p, k1);
        lemma_next_read(ids, zone, p, c);
        let rs = readable_from(ids, zone, p, c);
        if k1 < all.len() {
            assert(rs == all.skip(k1 as int));
            assert(rs.len() > 0);
            assert(rs.drop_first() =~= all.skip(k as int));
        } else {
            assert(rs == all.skip(all.len() as int));
            assert(rs.len() == 0);
        }
    }
}


/// The scan's own count agrees with the run: when each part decided on was
/// given the zone map `zone` gives it, `parts_skipped` (the skip count of the
/// decisions) is the number of the parts visited that the run skips.
pub proof fn lemma_decisions_follow_run(
    ids: Seq<u32>,
    zone: spec_fn(u32) -> Option<ZoneMap>,
    p: Predicate,
    decided: Seq<Option<ZoneMap>>,
)
    requires
        decided.len() <= ids.len(),
        forall|i: int| 0 <= i < decided.len() ==> #[trigger] decided[i] == zone(ids[i]),
    ensures
        skip_count(decided, p) == skipped_before(ids, zone, p, decided.len()),
    decreases decided.len(),
{
    if decided.len() > 0 {
        let d = decided.drop_last();
        assert forall|i: int| 0 <= i < d.len() implies #[trigger] d[i] == zone(ids[i]) by {
            assert(d[i] == decided[i]);
        }
        lemma_decisions_follow_run(ids, zone, p, d);
        assert(decided.last() == zone(ids[decided.len() - 1]));
    }
}

} // verus!
