//! What an INSERT decides before and after it writes a part: that the
//! chunks fit the schema, the bounds each numeric column records in the
//! zone map, and how parts are named and numbered on disk.
use vstd::prelude::*;
use vstd::string::*;

use crate::aggregator::Integer;
use crate::bytes::{le_bytes, to_le8, twos_complement};
use crate::catalog::schema::{type_tag_spec, ColumnSchema, DataType, TableSchema};
use crate::float_bits::{f32_lt, f32_to_f64_bits, f64_lt, widen_spec};
use crate::storage::column_chunk::ColumnChunk;
use crate::storage::zone_map::{
    lemma_integer_bounds, running_max, running_min, value_bounds, EncodedZoneMapEntry, F32Order,
    F64Order, IntegerOrder, ZoneMapEntry,
};
use crate::text::{decimal, fmt_u64, padded_decimal, parse_int_spec, parse_u64, push_padded_decimal};

verus! {

/// What an INSERT wrote: the part's id and its row count.
pub struct PartMetadata {
    pub part_id: u32,
    pub rows: u64,
}

// ---------------------------------------------------------------------------
// Validation

/// Does the chunk hold values of the column's type?
pub open spec fn chunk_matches(chunk: ColumnChunk, t: DataType) -> bool {
    match (chunk, t) {
        (ColumnChunk::I8(_), DataType::I8) => true,
        (ColumnChunk::I16(_), DataType::I16) => true,
        (ColumnChunk::I32(_), DataType::I32) => true,
        (ColumnChunk::I64(_), DataType::I64) => true,
        (ColumnChunk::U8(_), DataType::U8) => true,
        (ColumnChunk::U16(_), DataType::U16) => true,
        (ColumnChunk::U32(_), DataType::U32) => true,
        (ColumnChunk::U64(_), DataType::U64) => true,
        (ColumnChunk::F32(_), DataType::F32) => true,
        (ColumnChunk::F64(_), DataType::F64) => true,
        (ColumnChunk::Bool(_), DataType::Bool) => true,
        (ColumnChunk::Str(_), DataType::Str) => true,
        _ => false,
    }
}

/// Why an INSERT's chunks do not fit the schema.
pub enum InsertIssue {
    ChunkCount { expected: nat, got: nat },
    RowCount { column: nat },
    TypeMismatch { column: nat },
}

/// The first problem of `chunks` against the schema's columns: the number of
/// chunks, then column by column its row count (against the first chunk's)
/// and its type.
pub open spec fn insert_issue(chunks: Seq<ColumnChunk>, cols: Seq<(Seq<char>, DataType)>) -> Option<InsertIssue> {
    if chunks.len() != cols.len() {
        Some(InsertIssue::ChunkCount { expected: cols.len(), got: chunks.len() })
    } else {
        column_issue(chunks, cols, 0)
    }
}

pub open spec fn column_issue(chunks: Seq<ColumnChunk>, cols: Seq<(Seq<char>, DataType)>, i: int) -> Option<
    InsertIssue,
>
    decreases chunks.len() - i,
{
    if i < 0 || i >= chunks.len() {
        None
    } else if chunks[i].spec_len() != chunks[0].spec_len() {
        Some(InsertIssue::RowCount { column: i as nat })
    } else if !chunk_matches(chunks[i], cols[i].1) {
        Some(InsertIssue::TypeMismatch { column: i as nat })
    } else {
        column_issue(chunks, cols, i + 1)
    }
}

pub open spec fn type_debug_name(t: DataType) -> Seq<char> {
    crate::frontend::analyzer::data_type_name_spec(t)
}

pub open spec fn insert_message(issue: InsertIssue, cols: Seq<(Seq<char>, DataType)>) -> Seq<char> {
    match issue {
        InsertIssue::ChunkCount { expected, got } => "expected "@ + decimal(expected) + " chunks, got "@ + decimal(got),
        InsertIssue::RowCount { column } => "column "@ + decimal(column) + ": row count mismatch"@,
        InsertIssue::TypeMismatch { column } => "column '"@ + cols[column as int].0
            + "': chunk type does not match schema type "@ + type_debug_name(cols[column as int].1),
    }
}

fn chunk_type_matches(chunk: &ColumnChunk, t: DataType) -> (r: bool)
    ensures
        r == chunk_matches(*chunk, t),
{
    match (chunk, t) {
        (ColumnChunk::I8(_), DataType::I8) => true,
        (ColumnChunk::I16(_), DataType::I16) => true,
        (ColumnChunk::I32(_), DataType::I32) => true,
        (ColumnChunk::I64(_), DataType::I64) => true,
        (ColumnChunk::U8(_), DataType::U8) => true,
        (ColumnChunk::U16(_), DataType::U16) => true,
        (ColumnChunk::U32(_), DataType::U32) => true,
        (ColumnChunk::U64(_), DataType::U64) => true,
        (ColumnChunk::F32(_), DataType::F32) => true,
        (ColumnChunk::F64(_), DataType::F64) => true,
        (ColumnChunk::Bool(_), DataType::Bool) => true,
        (ColumnChunk::Str(_), DataType::Str) => true,
        _ => false,
    }
}

fn type_debug(t: DataType) -> (r: &'static str)
    ensures
        r@ == type_debug_name(t),
{
    match t {
        DataType::I8 => {
            proof { reveal_strlit("I8"); }
            "I8"
        },
        DataType::I16 => {
            proof { reveal_strlit("I16"); }
            "I16"
        },
        DataType::I32 => {
            proof { reveal_strlit("I32"); }
            "I32"
        },
        DataType::I64 => {
            proof { reveal_strlit("I64"); }
            "I64"
        },
        DataType::U8 => {
            proof { reveal_strlit("U8"); }
            "U8"
        },
        DataType::U16 => {
            proof { reveal_strlit("U16"); }
            "U16"
        },
        DataType::U32 => {
            proof { reveal_strlit("U32"); }
            "U32"
        },
        DataType::U64 => {
            proof { reveal_strlit("U64"); }
            "U64"
        },
        DataType::F32 => {
            proof { reveal_strlit("F32"); }
            "F32"
        },
        DataType::F64 => {
            proof { reveal_strlit("F64"); }
            "F64"
        },
        DataType::Bool => {
            proof { reveal_strlit("Bool"); }
            "Bool"
        },
        DataType::Str => {
            proof { reveal_strlit("Str"); }
            "Str"
        },
    }
}

/// Checks that there is one chunk per column, that every chunk has as many
/// rows as the first, and that each chunk's type is its column's; gives the
/// row count.
pub fn validate_chunks(chunks: &Vec<ColumnChunk>, schema: &TableSchema) -> (r: Result<u64, String>)
    ensures
        match insert_issue(chunks@, schema.cols()) {
            None => r is Ok && r->Ok_0 == (if chunks@.len() == 0 { 0 } else { chunks@[0].spec_len() }),
            Some(issue) => r is Err && r->Err_0@ == insert_message(issue, schema.cols()),
        },
{
    let ncols = schema.columns.len();
    if chunks.len() != ncols {
        proof {
            reveal_strlit("expected ");
            reveal_strlit(" chunks, got ");
        }
        let mut s = String::from_str("expected ");
        s.append(fmt_u64(ncols as u64).as_str());
        s.append(" chunks, got ");
        s.append(fmt_u64(chunks.len() as u64).as_str());
        return Err(s);
    }
    let rows: usize = if chunks.len() == 0 {
        0
    } else {
        chunks[0].len()
    };
    let mut i: usize = 0;
    while i < chunks.len()
        invariant
            i <= chunks@.len(),
            chunks@.len() == schema.cols().len(),
            chunks@.len() > 0 ==> rows == chunks@[0].spec_len(),
            column_issue(chunks@, schema.cols(), 0) == column_issue(chunks@, schema.cols(), i as int),
        decreases chunks@.len() - i,
    {
        if chunks[i].len() != rows {
            proof {
                reveal_strlit("column ");
                reveal_strlit(": row count mismatch");
            }
            let mut s = String::from_str("column ");
            s.append(fmt_u64(i as u64).as_str());
            s.append(": row count mismatch");
            return Err(s);
        }
        let col = &schema.columns[i];
        assert(schema.cols()[i as int] == col@);
        if !chunk_type_matches(&chunks[i], col.data_type) {
            proof {
                reveal_strlit("column '");
                reveal_strlit("': chunk type does not match schema type ");
            }
            let mut s = String::from_str("column '");
            s.append(col.name.as_str());
            s.append("': chunk type does not match schema type ");
            s.append(type_debug(col.data_type));
            return Err(s);
        }
        i = i + 1;
    }
    Ok(rows as u64)
}

// ---------------------------------------------------------------------------
// Zone map bounds

/// The smallest and largest values of a column, or `None` when it is empty.
pub fn column_bounds<T: Integer>(values: &Vec<T>) -> (r: Option<ZoneMapEntry<T>>)
    ensures
        values@.len() == 0 <==> r is None,
        r matches Some(z) ==> {
            &&& values@.contains(z.min)
            &&& values@.contains(z.max)
            &&& forall|i: int|
                0 <= i < values@.len() ==> z.min.int_value() <= (#[trigger] values@[i]).int_value()
                    <= z.max.int_value()
        },
{
    let r = value_bounds::<T, IntegerOrder>(values.as_slice());
    proof {
        if values@.len() > 0 {
            lemma_integer_bounds(values@);
        }
    }
    r
}

/// A signed value as the eight little-endian bytes of an `i64`.
pub open spec fn signed_bytes(v: int) -> Seq<u8> {
    le_bytes(twos_complement(v, 8), 8)
}

fn i64_bytes(v: i128) -> (r: [u8; 8])
    requires
        i64::MIN <= v <= i64::MAX,
    ensures
        r@ == signed_bytes(v as int),
{
    proof {
        crate::bytes::lemma_pow256_values();
    }
    let u: u64 = if v < 0 {
        (v + 0x1_0000_0000_0000_0000i128) as u64
    } else {
        v as u64
    };
    to_le8(u)
}

/// Widens the bounds of a signed column to eight bytes each.
pub fn widen_signed<T: Integer>(z: ZoneMapEntry<T>) -> (r: ([u8; 8], [u8; 8]))
    requires
        T::min_int() >= i64::MIN,
        T::max_int() <= i64::MAX,
    ensures
        r.0@ == signed_bytes(z.min.int_value()),
        r.1@ == signed_bytes(z.max.int_value()),
{
    proof {
        z.min.lemma_range();
        z.max.lemma_range();
    }
    (i64_bytes(z.min.to_i128()), i64_bytes(z.max.to_i128()))
}

/// Widens the bounds of an unsigned column to eight bytes each.
pub fn widen_unsigned<T: Integer>(z: ZoneMapEntry<T>) -> (r: ([u8; 8], [u8; 8]))
    requires
        T::min_int() >= 0,
        T::max_int() <= u64::MAX,
    ensures
        r.0@ == le_bytes(z.min.int_value(), 8),
        r.1@ == le_bytes(z.max.int_value(), 8),
{
    proof {
        z.min.lemma_range();
        z.max.lemma_range();
    }
    (to_le8(z.min.to_i128() as u64), to_le8(z.max.to_i128() as u64))
}

// ---------------------------------------------------------------------------
// Float bounds, tracked as the writer tracks them: a value replaces the
// minimum when it compares below it, the maximum when it compares above it
// (so a NaN only stays when it comes first).

pub open spec fn f64_running_min(s: Seq<u64>) -> u64
    decreases s.len(),
{
    if s.len() <= 1 {
        s[0]
    } else {
        let m = f64_running_min(s.drop_last());
        if f64_lt(s.last(), m) {
            s.last()
        } else {
            m
        }
    }
}

pub open spec fn f64_running_max(s: Seq<u64>) -> u64
    decreases s.len(),
{
    if s.len() <= 1 {
        s[0]
    } else {
        let m = f64_running_max(s.drop_last());
        if f64_lt(m, s.last()) {
            s.last()
        } else {
            m
        }
    }
}

pub open spec fn f32_running_min(s: Seq<u32>) -> u32
    decreases s.len(),
{
    if s.len() <= 1 {
        s[0]
    } else {
        let m = f32_running_min(s.drop_last());
        if f32_lt(s.last(), m) {
            s.last()
        } else {
            m
        }
    }
}

pub open spec fn f32_running_max(s: Seq<u32>) -> u32
    decreases s.len(),
{
    if s.len() <= 1 {
        s[0]
    } else {
        let m = f32_running_max(s.drop_last());
        if f32_lt(m, s.last()) {
            s.last()
        } else {
            m
        }
    }
}

/// The bounds of a binary64 column, or `None` when it is empty.
pub fn f64_bounds(values: &Vec<u64>) -> (r: Option<(u64, u64)>)
    ensures
        values@.len() == 0 <==> r is None,
        r matches Some((lo, hi)) ==> lo == f64_running_min(values@) && hi == f64_running_max(values@),
{
    match value_bounds::<u64, F64Order>(values.as_slice()) {
        None => None,
        Some(z) => {
            proof {
                lemma_f64_running_same(values@);
            }
            Some((z.min, z.max))
        },
    }
}

/// The writer's running bounds are those of the order of the float type.
proof fn lemma_f64_running_same(s: Seq<u64>)
    requires
        s.len() > 0,
    ensures
        f64_running_min(s) == running_min::<u64, F64Order>(s),
        f64_running_max(s) == running_max::<u64, F64Order>(s),
    decreases s.len(),
{
    if s.len() > 1 {
        lemma_f64_running_same(s.drop_last());
    }
}

/// The bounds of a binary32 column, or `None` when it is empty.
pub fn f32_bounds(values: &Vec<u32>) -> (r: Option<(u32, u32)>)
    ensures
        values@.len() == 0 <==> r is None,
        r matches Some((lo, hi)) ==> lo == f32_running_min(values@) && hi == f32_running_max(values@),
{
    match value_bounds::<u32, F32Order>(values.as_slice()) {
        None => None,
        Some(z) => {
            proof {
                lemma_f32_running_same(values@);
            }
            Some((z.min, z.max))
        },
    }
}

/// The writer's running bounds are those of the order of the float type.
proof fn lemma_f32_running_same(s: Seq<u32>)
    requires
        s.len() > 0,
    ensures
        f32_running_min(s) == running_min::<u32, F32Order>(s),
        f32_running_max(s) == running_max::<u32, F32Order>(s),
    decreases s.len(),
{
    if s.len() > 1 {
        lemma_f32_running_same(s.drop_last());
    }
}

/// Widens the bounds of a float column to binary64, eight bytes each.
pub fn widen_float(lo: u32, hi: u32) -> (r: ([u8; 8], [u8; 8]))
    ensures
        exists|a: u64, b: u64| widen_spec(lo, a) && widen_spec(hi, b) && r.0@ == le_bytes(a as int, 8) && r.1@ == le_bytes(
            b as int,
            8,
        ),
{
    let a = f32_to_f64_bits(lo);
    let b = f32_to_f64_bits(hi);
    (to_le8(a), to_le8(b))
}

// ---------------------------------------------------------------------------
// The zone map entry of a column

/// Is `x` the least, resp. greatest, of the values of `s`?
pub open spec fn is_least<T: Integer>(s: Seq<T>, x: T) -> bool {
    s.contains(x) && forall|i: int| 0 <= i < s.len() ==> x.int_value() <= (#[trigger] s[i]).int_value()
}

pub open spec fn is_greatest<T: Integer>(s: Seq<T>, x: T) -> bool {
    s.contains(x) && forall|i: int| 0 <= i < s.len() ==> (#[trigger] s[i]).int_value() <= x.int_value()
}

pub open spec fn signed_bounds<T: Integer>(s: Seq<T>, lo: Seq<u8>, hi: Seq<u8>) -> bool {
    exists|a: T, b: T| is_least(s, a) && is_greatest(s, b) && lo == signed_bytes(a.int_value()) && hi == signed_bytes(
        b.int_value(),
    )
}

pub open spec fn unsigned_bounds<T: Integer>(s: Seq<T>, lo: Seq<u8>, hi: Seq<u8>) -> bool {
    exists|a: T, b: T| is_least(s, a) && is_greatest(s, b) && lo == le_bytes(a.int_value(), 8) && hi == le_bytes(
        b.int_value(),
        8,
    )
}

/// The bytes a chunk's bounds are stored as: integers widened to 64 bits in
/// their own signedness, floats widened to binary64.
pub open spec fn chunk_bounds(chunk: ColumnChunk, lo: Seq<u8>, hi: Seq<u8>) -> bool {
    match chunk {
        ColumnChunk::I8(v) => signed_bounds(v@, lo, hi),
        ColumnChunk::I16(v) => signed_bounds(v@, lo, hi),
        ColumnChunk::I32(v) => signed_bounds(v@, lo, hi),
        ColumnChunk::I64(v) => signed_bounds(v@, lo, hi),
        ColumnChunk::U8(v) => unsigned_bounds(v@, lo, hi),
        ColumnChunk::U16(v) => unsigned_bounds(v@, lo, hi),
        ColumnChunk::U32(v) => unsigned_bounds(v@, lo, hi),
        ColumnChunk::U64(v) => unsigned_bounds(v@, lo, hi),
        ColumnChunk::F32(v) => exists|a: u64, b: u64|
            widen_spec(f32_running_min(v@), a) && widen_spec(f32_running_max(v@), b) && lo == le_bytes(a as int, 8)
                && hi == le_bytes(b as int, 8),
        ColumnChunk::F64(v) => lo == le_bytes(f64_running_min(v@) as int, 8) && hi == le_bytes(
            f64_running_max(v@) as int,
            8,
        ),
        _ => false,
    }
}

/// Bool and string columns, and empty columns, have no zone map entry.
pub open spec fn has_zone_entry(chunk: ColumnChunk) -> bool {
    chunk.spec_len() > 0 && !(chunk is Bool) && !(chunk is Str)
}

fn signed_entry<T: Integer>(values: &Vec<T>) -> (r: Option<([u8; 8], [u8; 8])>)
    requires
        T::min_int() >= i64::MIN,
        T::max_int() <= i64::MAX,
    ensures
        values@.len() == 0 <==> r is None,
        r matches Some((lo, hi)) ==> signed_bounds(values@, lo@, hi@),
{
    match column_bounds(values) {
        None => None,
        Some(z) => {
            let ghost (a, b) = (z.min, z.max);
            let w = widen_signed(z);
            proof {
                assert(is_least(values@, a) && is_greatest(values@, b));
            }
            Some(w)
        },
    }
}

fn unsigned_entry<T: Integer>(values: &Vec<T>) -> (r: Option<([u8; 8], [u8; 8])>)
    requires
        T::min_int() >= 0,
        T::max_int() <= u64::MAX,
    ensures
        values@.len() == 0 <==> r is None,
        r matches Some((lo, hi)) ==> unsigned_bounds(values@, lo@, hi@),
{
    match column_bounds(values) {
        None => None,
        Some(z) => {
            let ghost (a, b) = (z.min, z.max);
            let w = widen_unsigned(z);
            proof {
                assert(is_least(values@, a) && is_greatest(values@, b));
            }
            Some(w)
        },
    }
}

/// The zone map entry the writer records for a column: its name, its type's
/// tag, and its bounds; `None` for a bool or string column or an empty one.
pub fn zone_entry_for(col: &ColumnSchema, chunk: &ColumnChunk) -> (r: Option<EncodedZoneMapEntry>)
    ensures
        r is Some <==> has_zone_entry(*chunk),
        r matches Some(e) ==> e.col_name@ == col.name@ && e.type_tag == type_tag_spec(col.data_type) && chunk_bounds(
            *chunk,
            e.min_bytes@,
            e.max_bytes@,
        ),
{
    let bounds = match chunk {
        ColumnChunk::I8(v) => signed_entry(v),
        ColumnChunk::I16(v) => signed_entry(v),
        ColumnChunk::I32(v) => signed_entry(v),
        ColumnChunk::I64(v) => signed_entry(v),
        ColumnChunk::U8(v) => unsigned_entry(v),
        ColumnChunk::U16(v) => unsigned_entry(v),
        ColumnChunk::U32(v) => unsigned_entry(v),
        ColumnChunk::U64(v) => unsigned_entry(v),
        ColumnChunk::F32(v) => match f32_bounds(v) {
            None => None,
            Some((lo, hi)) => Some(widen_float(lo, hi)),
        },
        ColumnChunk::F64(v) => match f64_bounds(v) {
            None => None,
            Some((lo, hi)) => Some((to_le8(lo), to_le8(hi))),
        },
        ColumnChunk::Bool(_) => None,
        ColumnChunk::Str(_) => None,
    };
    match bounds {
        None => None,
        Some((min_bytes, max_bytes)) => Some(
            EncodedZoneMapEntry {
                col_name: col.name.clone(),
                type_tag: col.data_type.type_tag(),
                min_bytes,
                max_bytes,
            },
        ),
    }
}

/// `e` is the zone map entry of column `col`, which holds `chunk`.
#[verifier::opaque]
pub open spec fn entry_describes(e: EncodedZoneMapEntry, col: ColumnSchema, chunk: ColumnChunk) -> bool {
    &&& has_zone_entry(chunk)
    &&& e.col_name@ == col.name@
    &&& e.type_tag == type_tag_spec(col.data_type)
    &&& chunk_bounds(chunk, e.min_bytes@, e.max_bytes@)
}

/// `e` is the entry of one of the part's columns.
pub open spec fn entry_of_part(e: EncodedZoneMapEntry, cols: Seq<ColumnSchema>, chunks: Seq<ColumnChunk>) -> bool {
    exists|k: int| 0 <= k < chunks.len() && #[trigger] entry_describes(e, cols[k], chunks[k])
}

/// The positions, below `k`, of the columns that have a zone map entry, in
/// column order.
pub open spec fn zone_columns(chunks: Seq<ColumnChunk>, k: int) -> Seq<int>
    decreases k,
{
    if k <= 0 {
        Seq::empty()
    } else {
        let prev = zone_columns(chunks, k - 1);
        if has_zone_entry(chunks[k - 1]) {
            prev.push(k - 1)
        } else {
            prev
        }
    }
}

/// The zone map entries of a part, in column order: one for each column that
/// has one (a numeric column with at least one row).
pub fn part_zone_entries(cols: &Vec<ColumnSchema>, chunks: &Vec<ColumnChunk>) -> (r: Vec<EncodedZoneMapEntry>)
    requires
        cols@.len() == chunks@.len(),
    ensures
        r@.len() == zone_columns(chunks@, chunks@.len() as int).len(),
        forall|j: int|
            0 <= j < r@.len() ==> #[trigger] entry_describes(
                r@[j],
                cols@[zone_columns(chunks@, chunks@.len() as int)[j]],
                chunks@[zone_columns(chunks@, chunks@.len() as int)[j]],
            ),
        forall|j: int| 0 <= j < r@.len() ==> #[trigger] entry_of_part(r@[j], cols@, chunks@),
        forall|k: int|
            0 <= k < chunks@.len() && has_zone_entry(#[trigger] chunks@[k]) ==> exists|j: int|
                0 <= j < r@.len() && #[trigger] entry_describes(r@[j], cols@[k], chunks@[k]),
{
    let mut out: Vec<EncodedZoneMapEntry> = Vec::new();
    let mut k: usize = 0;
    while k < chunks.len()
        invariant
            cols@.len() == chunks@.len(),
            k <= chunks@.len(),
            out@.len() == zone_columns(chunks@, k as int).len(),
            forall|j: int|
                0 <= j < out@.len() ==> #[trigger] entry_describes(
                    out@[j],
                    cols@[zone_columns(chunks@, k as int)[j]],
                    chunks@[zone_columns(chunks@, k as int)[j]],
                ),
            forall|j: int| 0 <= j < out@.len() ==> #[trigger] entry_of_part(out@[j], cols@, chunks@),
            forall|x: int|
                0 <= x < k && has_zone_entry(#[trigger] chunks@[x]) ==> exists|j: int|
                    0 <= j < out@.len() && #[trigger] entry_describes(out@[j], cols@[x], chunks@[x]),
        decreases chunks@.len() - k,
    {
        match zone_entry_for(&cols[k], &chunks[k]) {
            Some(e) => {
                assert(entry_describes(e, cols@[k as int], chunks@[k as int])) by {
                    reveal(entry_describes);
                }
                let ghost before = out@;
                out.push(e);
                proof {
                    let zc = zone_columns(chunks@, k as int);
                    assert(zone_columns(chunks@, k + 1) == zc.push(k as int));
                    assert forall|j: int| 0 <= j < out@.len() implies #[trigger] entry_describes(
                        out@[j],
                        cols@[zone_columns(chunks@, k + 1)[j]],
                        chunks@[zone_columns(chunks@, k + 1)[j]],
                    ) by {
                        if j < before.len() {
                            assert(out@[j] == before[j]);
                            assert(zone_columns(chunks@, k + 1)[j] == zc[j]);
                        }
                    }
                    assert(entry_describes(out@[before.len() as int], cols@[k as int], chunks@[k as int]));
                    assert forall|j: int| 0 <= j < out@.len() implies #[trigger] entry_of_part(out@[j], cols@, chunks@) by {
                        if j < before.len() {
                            assert(out@[j] == before[j]);
                        } else {
                            assert(entry_describes(out@[j], cols@[k as int], chunks@[k as int]));
                        }
                    }
                    assert forall|x: int|
                        0 <= x < k + 1 && has_zone_entry(#[trigger] chunks@[x]) implies exists|j: int|
                        0 <= j < out@.len() && #[trigger] entry_describes(out@[j], cols@[x], chunks@[x]) by {
                        if x < k {
                            let j = choose|j: int| 0 <= j < before.len() && #[trigger] entry_describes(before[j], cols@[x], chunks@[x]);
                            assert(out@[j] == before[j]);
                        }
                    }
                }
            },
            None => {
                assert(zone_columns(chunks@, k + 1) == zone_columns(chunks@, k as int));
                assert forall|x: int|
                    0 <= x < k + 1 && has_zone_entry(#[trigger] chunks@[x]) implies exists|j: int|
                    0 <= j < out@.len() && #[trigger] entry_describes(out@[j], cols@[x], chunks@[x]) by {
                    assert(x != k);
                }
            },
        }
        k = k + 1;
    }
    out
}

// ---------------------------------------------------------------------------
// Part names

/// The name of the temporary directory a part is written into before it is
/// renamed: `tmp_part_` and the id, zero-padded to five digits.
pub fn tmp_part_name(part_id: u32) -> (r: String)
    ensures
        r@ == "tmp_part_"@ + padded_decimal(part_id as nat, 5),
{
    proof { reveal_strlit("tmp_part_"); }
    let mut s = String::from_str("tmp_part_");
    push_padded_decimal(&mut s, part_id as u64, 5);
    s
}

/// The id of a part directory's name: `part_` then a `u32` in decimal.
pub open spec fn part_id_of(name: Seq<char>) -> Option<int> {
    if name.len() >= 5 && name.take(5) == "part_"@ {
        parse_int_spec(name.skip(5), false, 0, u32::MAX as int)
    } else {
        None
    }
}

/// Reads a part id from a directory name.
pub fn parse_part_id(name: &str) -> (r: Option<u32>)
    ensures
        match r {
            Some(id) => part_id_of(name@) == Some(id as int),
            None => part_id_of(name@) is None,
        },
{
    proof { reveal_strlit("part_"); }
    let n = name.unicode_len();
    if n < 5 {
        return None;
    }
    let prefix = name.substring_char(0, 5);
    if !crate::text::str_eq(prefix, "part_") {
        return None;
    }
    assert(name@.take(5) == prefix@);
    let rest = name.substring_char(5, n);
    assert(rest@ == name@.skip(5));
    match parse_u64(rest) {
        Some(v) => {
            if v <= 0xffff_ffff {
                Some(v as u32)
            } else {
                None
            }
        },
        None => None,
    }
}

/// The largest part id among the names, if any.
pub open spec fn max_part_id(names: Seq<Seq<char>>) -> Option<int>
    decreases names.len(),
{
    if names.len() == 0 {
        None
    } else {
        let rest = max_part_id(names.drop_last());
        match part_id_of(names.last()) {
            None => rest,
            Some(id) => match rest {
                None => Some(id),
                Some(m) => Some(if id > m { id } else { m }),
            },
        }
    }
}

/// The id the next part gets: one past the largest id in use, 0 when there
/// is none; one past `u32::MAX` wraps to 0.
pub open spec fn next_part_id_spec(names: Seq<Seq<char>>) -> int {
    match max_part_id(names) {
        None => 0,
        Some(m) => (m + 1) % 0x1_0000_0000,
    }
}

/// The id for a new part, given the names of the entries of the table's directory.
pub fn next_part_id(names: &Vec<String>) -> (r: u32)
    ensures
        r as int == next_part_id_spec(crate::text::string_views(names@)),
{
    let ghost views = crate::text::string_views(names@);
    let mut max_id: Option<u32> = None;
    let mut i: usize = 0;
    while i < names.len()
        invariant
            i <= names@.len(),
            views == crate::text::string_views(names@),
            match max_id {
                None => max_part_id(views.take(i as int)) is None,
                Some(m) => max_part_id(views.take(i as int)) == Some(m as int),
            },
        decreases names@.len() - i,
    {
        proof {
            assert(views.take(i + 1).drop_last() =~= views.take(i as int));
            assert(views.take(i + 1).last() == names@[i as int]@);
        }
        if let Some(id) = parse_part_id(names[i].as_str()) {
            max_id = match max_id {
                None => Some(id),
                Some(m) => Some(if id > m { id } else { m }),
            };
        }
        i = i + 1;
    }
    proof {
        assert(views.take(i as int) =~= views);
    }
    match max_id {
        None => 0,
        Some(m) => if m == 0xffff_ffff {
            0
        } else {
            m + 1
        },
    }
}

/// Is `id` the part id of one of the first `n` names?
pub open spec fn names_have_id(names: Seq<Seq<char>>, n: int, id: int) -> bool {
    exists|i: int| 0 <= i < n && part_id_of(names[i]) == Some(id)
}

pub open spec fn ids_have(ids: Seq<u32>, id: int) -> bool {
    exists|k: int| 0 <= k < ids.len() && ids[k] == id
}

proof fn lemma_names_have_id_step(names: Seq<Seq<char>>, i: int, x: int)
    requires
        0 <= i < names.len(),
    ensures
        names_have_id(names, i + 1, x) <==> (names_have_id(names, i, x) || part_id_of(names[i]) == Some(x)),
{
    if names_have_id(names, i + 1, x) {
        let j = choose|j: int| 0 <= j < i + 1 && part_id_of(names[j]) == Some(x);
        if j < i {
            assert(names_have_id(names, i, x));
        }
    }
    if names_have_id(names, i, x) {
        let j = choose|j: int| 0 <= j < i && part_id_of(names[j]) == Some(x);
        assert(names_have_id(names, i + 1, x));
    }
    if part_id_of(names[i]) == Some(x) {
        assert(names_have_id(names, i + 1, x));
    }
}

/// The ids of the parts among a table directory's entries, ascending and
/// without repeats.
pub fn discover_part_ids(names: &Vec<String>) -> (r: Vec<u32>)
    ensures
        forall|a: int, b: int| 0 <= a < b < r@.len() ==> r@[a] < r@[b],
        forall|id: int|
            #[trigger] names_have_id(crate::text::string_views(names@), names@.len() as int, id) <==> ids_have(r@, id),
{
    let ghost views = crate::text::string_views(names@);
    let mut ids: Vec<u32> = Vec::new();
    let mut i: usize = 0;
    while i < names.len()
        invariant
            i <= names@.len(),
            views == crate::text::string_views(names@),
            forall|a: int, b: int| 0 <= a < b < ids@.len() ==> ids@[a] < ids@[b],
            forall|id: int| #[trigger] names_have_id(views, i as int, id) <==> ids_have(ids@, id),
        decreases names@.len() - i,
    {
        assert(views[i as int] == names@[i as int]@);
        if let Some(id) = parse_part_id(names[i].as_str()) {
            // Insert `id` before the first larger id, unless it is there.
            let mut k: usize = 0;
            while k < ids.len() && ids[k] < id
                invariant
                    k <= ids@.len(),
                    forall|j: int| 0 <= j < k ==> ids@[j] < id,
                decreases ids@.len() - k,
            {
                k = k + 1;
            }
            if k == ids.len() || ids[k] != id {
                let ghost old_ids = ids@;
                ids.insert(k, id);
                proof {
                    assert forall|a: int, b: int| 0 <= a < b < ids@.len() implies ids@[a] < ids@[b] by {
                        if b == k as int {
                            assert(ids@[a] == old_ids[a]);
                        } else if a == k as int {
                            assert(ids@[b] == old_ids[b - 1]);
                        } else if a > k as int {
                            assert(ids@[a] == old_ids[a - 1] && ids@[b] == old_ids[b - 1]);
                        } else if b > k as int {
                            assert(ids@[a] == old_ids[a] && ids@[b] == old_ids[b - 1]);
                        }
                    }
                    assert forall|x: int| #[trigger] names_have_id(views, i + 1, x) <==> ids_have(ids@, x) by {
                        if ids_have(ids@, x) {
                            let m = choose|m: int| 0 <= m < ids@.len() && ids@[m] == x;
                            if m < k {
                                assert(old_ids[m] == x);
                                assert(ids_have(old_ids, x));
                            } else if m > k {
                                assert(old_ids[m - 1] == x);
                                assert(ids_have(old_ids, x));
                            }
                        }
                        if names_have_id(views, i as int, x) {
                            assert(ids_have(old_ids, x));
                            let m = choose|m: int| 0 <= m < old_ids.len() && old_ids[m] == x;
                            if m < k {
                                assert(ids@[m] == x);
                            } else {
                                assert(ids@[m + 1] == x);
                            }
                        }
                        if x == id as int {
                            assert(ids@[k as int] == x);
                        }
                    }
                }
            } else {
                proof {
                    assert forall|x: int| #[trigger] names_have_id(views, i + 1, x) <==> ids_have(ids@, x) by {
                        lemma_names_have_id_step(views, i as int, x);
                        if x == id as int {
                            assert(ids@[k as int] == x);
                        }
                    }
                }
            }
        } else {
            proof {
                assert forall|x: int| #[trigger] names_have_id(views, i + 1, x) <==> ids_have(ids@, x) by {
                    if names_have_id(views, i + 1, x) {
                        let j = choose|j: int| 0 <= j < i + 1 && part_id_of(views[j]) == Some(x);
                        assert(j < i);
                        assert(names_have_id(views, i as int, x));
                    }
                    if names_have_id(views, i as int, x) {
                        let j = choose|j: int| 0 <= j < i && part_id_of(views[j]) == Some(x);
                        assert(names_have_id(views, i + 1, x));
                    }
                }
            }
        }
        i = i + 1;
    }
    ids
}

} // verus!
