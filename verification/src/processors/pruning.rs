//! Zone-map pruning is sound from writing to reading: the zone map a part is
//! written with holds every row of the part, so a part that `can_skip`
//! skips holds no row the WHERE filter would keep.
use vstd::prelude::*;

use crate::aggregator::Integer;
use crate::bytes::{as_signed64, le8_value, le_bytes, lemma_le8_roundtrip, lemma_pow256_values, twos_complement};
use crate::float_bits::{
    f32_lt,
    f64_le,
    f64_lt,
    is_nan,
    is_nan32,
    lemma_widen_in_range,
    lemma_widen_order,
    order_key,
    order_key32,
    widen_spec,
};
use crate::catalog::schema::{find_column_spec, lemma_find_column_first, type_tag_spec, DataType};
use crate::execution::filter::batch_cols;
use crate::parser::ast::Predicate;
use crate::processors::batch::Batch;
use crate::processors::evaluate::{chunk_row_value, eval_row, f32_bits_as_f64, lemma_skipped_rows_fail, row_of};
use crate::processors::zone_map_scan::{
    can_skip_spec,
    entry_hi,
    entry_lo,
    float_bound,
    float_entry_holds,
    is_float_tag,
    is_signed_tag,
    is_unsigned_tag,
    row_within_zone,
};
use crate::storage::zone_map::{lemma_zone_find, zone_find, EncodedZoneMapEntry, ZoneMap};
use crate::storage::zone_map_format::{
    decode_zone_map_spec,
    entries_view,
    entry_view,
    column_view,
    written_columns,
    lemma_zone_map_roundtrip,
    writable,
    zone_map_bytes,
    zone_map_view,
};
use crate::storage::column_chunk::ColumnChunk;
use crate::storage::table_writer::{
    chunk_bounds,
    chunk_matches,
    entry_describes,
    entry_of_part,
    has_zone_entry,
    f32_running_max,
    f32_running_min,
    f64_running_max,
    f64_running_min,
    is_greatest,
    is_least,
    signed_bounds,
    signed_bytes,
    unsigned_bounds,
};
use crate::storage::zone_map::ZoneEntry;
use crate::processors::zone_map_scan::RowValue;

verus! {

/// The running bounds of binary64 values: NaN exactly when the first value
/// is, and otherwise below and above every value that is not NaN.
proof fn lemma_f64_running(s: Seq<u64>, i: int)
    requires
        0 <= i < s.len(),
    ensures
        is_nan(s[0]) ==> is_nan(f64_running_min(s)) && is_nan(f64_running_max(s)),
        !is_nan(s[0]) ==> !is_nan(f64_running_min(s)) && !is_nan(f64_running_max(s)),
        !is_nan(s[0]) && !is_nan(s[i]) ==> order_key(f64_running_min(s)) <= order_key(s[i]) <= order_key(
            f64_running_max(s),
        ),
    decreases s.len(),
{
    if s.len() > 1 {
        let d = s.drop_last();
        let j = if i < s.len() - 1 { i } else { 0 };
        lemma_f64_running(d, j);
        lemma_f64_running(d, 0);
        assert(d[0] == s[0]);
        if i < s.len() - 1 {
            assert(d[i] == s[i]);
        }
    }
}

proof fn lemma_f32_running(s: Seq<u32>, i: int)
    requires
        0 <= i < s.len(),
    ensures
        is_nan32(s[0]) ==> is_nan32(f32_running_min(s)) && is_nan32(f32_running_max(s)),
        !is_nan32(s[0]) ==> !is_nan32(f32_running_min(s)) && !is_nan32(f32_running_max(s)),
        !is_nan32(s[0]) && !is_nan32(s[i]) ==> order_key32(f32_running_min(s)) <= order_key32(s[i]) <= order_key32(
            f32_running_max(s),
        ),
    decreases s.len(),
{
    if s.len() > 1 {
        let d = s.drop_last();
        let j = if i < s.len() - 1 { i } else { 0 };
        lemma_f32_running(d, j);
        lemma_f32_running(d, 0);
        assert(d[0] == s[0]);
        if i < s.len() - 1 {
            assert(d[i] == s[i]);
        }
    }
}

/// The eight bytes of a signed 64-bit value read back as that value.
proof fn lemma_signed_bytes_value(v: int)
    requires
        i64::MIN <= v <= i64::MAX,
    ensures
        as_signed64(le8_value(signed_bytes(v))) == v,
{
    lemma_pow256_values();
    let t = twos_complement(v, 8);
    assert(0 <= t < 0x1_0000_0000_0000_0000);
    lemma_le8_roundtrip(t);
}

proof fn lemma_signed_entry<T: Integer>(s: Seq<T>, lo: Seq<u8>, hi: Seq<u8>, i: int)
    requires
        signed_bounds(s, lo, hi),
        0 <= i < s.len(),
        T::min_int() >= i64::MIN,
        T::max_int() <= i64::MAX,
    ensures
        as_signed64(le8_value(lo)) <= s[i].int_value() <= as_signed64(le8_value(hi)),
{
    let (a, b) = choose|a: T, b: T|
        is_least(s, a) && is_greatest(s, b) && lo == signed_bytes(a.int_value()) && hi == signed_bytes(b.int_value());
    a.lemma_range();
    b.lemma_range();
    lemma_signed_bytes_value(a.int_value());
    lemma_signed_bytes_value(b.int_value());
    assert(a.int_value() <= s[i].int_value() <= b.int_value());
}

proof fn lemma_unsigned_entry<T: Integer>(s: Seq<T>, lo: Seq<u8>, hi: Seq<u8>, i: int)
    requires
        unsigned_bounds(s, lo, hi),
        0 <= i < s.len(),
        T::min_int() >= 0,
        T::max_int() <= u64::MAX,
    ensures
        le8_value(lo) <= s[i].int_value() <= le8_value(hi),
{
    let (a, b) = choose|a: T, b: T|
        is_least(s, a) && is_greatest(s, b) && lo == le_bytes(a.int_value(), 8) && hi == le_bytes(b.int_value(), 8);
    a.lemma_range();
    b.lemma_range();
    lemma_le8_roundtrip(a.int_value());
    lemma_le8_roundtrip(b.int_value());
    assert(a.int_value() <= s[i].int_value() <= b.int_value());
}

proof fn lemma_quiet_nan_bits()
    ensures
        is_nan(0x7ff8_0000_0000_0000u64),
{
}

proof fn lemma_f64_entry(s: Seq<u64>, e: ZoneEntry, i: int)
    requires
        e.min_bytes@ == le_bytes(f64_running_min(s) as int, 8),
        e.max_bytes@ == le_bytes(f64_running_max(s) as int, 8),
        0 <= i < s.len(),
    ensures
        is_nan(s[i]) || float_entry_holds(e, s[i]),
{
    let lo = f64_running_min(s);
    let hi = f64_running_max(s);
    lemma_le8_roundtrip(lo as int);
    lemma_le8_roundtrip(hi as int);
    assert(float_bound(e.min_bytes@) == lo);
    assert(float_bound(e.max_bytes@) == hi);
    lemma_f64_running(s, i);
}

/// A binary32 value that is not NaN widens to the bits `f32_bits_as_f64` gives.
proof fn lemma_widened_bits(xb: u32)
    requires
        !is_nan32(xb),
    ensures
        widen_spec(xb, f32_bits_as_f64(xb)),
{
    lemma_widen_in_range(xb);
}

proof fn lemma_f32_entry(s: Seq<u32>, e: ZoneEntry, a: u64, b: u64, i: int)
    requires
        widen_spec(f32_running_min(s), a),
        widen_spec(f32_running_max(s), b),
        e.min_bytes@ == le_bytes(a as int, 8),
        e.max_bytes@ == le_bytes(b as int, 8),
        0 <= i < s.len(),
    ensures
        is_nan(f32_bits_as_f64(s[i])) || float_entry_holds(e, f32_bits_as_f64(s[i])),
{
    lemma_quiet_nan_bits();
    lemma_le8_roundtrip(a as int);
    lemma_le8_roundtrip(b as int);
    assert(float_bound(e.min_bytes@) == a);
    assert(float_bound(e.max_bytes@) == b);
    lemma_f32_running(s, i);
    let xb = s[i];
    lemma_widen_order(f32_running_min(s), f32_running_max(s), a, b);
    if !is_nan32(xb) {
        let x = f32_bits_as_f64(xb);
        lemma_widened_bits(xb);
        lemma_widen_order(xb, f32_running_min(s), x, a);
        lemma_widen_order(f32_running_max(s), xb, b, x);
    }
}

/// Row `i` of a float column lies in the entry of the column's bounds, or
/// is NaN.
proof fn lemma_float_entry(chunk: ColumnChunk, e: ZoneEntry, i: int)
    requires
        chunk is F32 || chunk is F64,
        chunk_bounds(chunk, e.min_bytes@, e.max_bytes@),
        0 <= i < chunk.spec_len(),
    ensures
        chunk_row_value(chunk, i) matches Some(RowValue::Float(x)) && (is_nan(x) || float_entry_holds(e, x)),
{
    match chunk {
        ColumnChunk::F64(v) => {
            lemma_f64_entry(v@, e, i);
        },
        ColumnChunk::F32(v) => {
            let s = v@;
            let (a, b) = choose|a: u64, b: u64|
                widen_spec(f32_running_min(s), a) && widen_spec(f32_running_max(s), b) && e.min_bytes@ == le_bytes(
                    a as int,
                    8,
                ) && e.max_bytes@ == le_bytes(b as int, 8);
            lemma_f32_entry(s, e, a, b, i);
        },
        _ => {},
    }
}

/// Row `i` of a numeric column lies in the entry of the column's bounds,
/// read in the family of the column's type tag.
proof fn lemma_chunk_entry(chunk: ColumnChunk, t: DataType, e: ZoneEntry, i: int)
    requires
        has_zone_entry(chunk),
        chunk_matches(chunk, t),
        chunk_bounds(chunk, e.min_bytes@, e.max_bytes@),
        0 <= i < chunk.spec_len(),
    ensures
        ({
            let tag = type_tag_spec(t);
            &&& (is_signed_tag(tag) || is_unsigned_tag(tag)) ==> (chunk_row_value(chunk, i) matches Some(
                RowValue::Int(x),
            ) && entry_lo(tag, e) <= x <= entry_hi(tag, e))
            &&& is_float_tag(tag) ==> (chunk_row_value(chunk, i) matches Some(RowValue::Float(x)) && (is_nan(x)
                || float_entry_holds(e, x)))
        }),
{
    let lo = e.min_bytes@;
    let hi = e.max_bytes@;
    match chunk {
        ColumnChunk::I8(v) => lemma_signed_entry::<i8>(v@, lo, hi, i),
        ColumnChunk::I16(v) => lemma_signed_entry::<i16>(v@, lo, hi, i),
        ColumnChunk::I32(v) => lemma_signed_entry::<i32>(v@, lo, hi, i),
        ColumnChunk::I64(v) => lemma_signed_entry::<i64>(v@, lo, hi, i),
        ColumnChunk::U8(v) => lemma_unsigned_entry::<u8>(v@, lo, hi, i),
        ColumnChunk::U16(v) => lemma_unsigned_entry::<u16>(v@, lo, hi, i),
        ColumnChunk::U32(v) => lemma_unsigned_entry::<u32>(v@, lo, hi, i),
        ColumnChunk::U64(v) => lemma_unsigned_entry::<u64>(v@, lo, hi, i),
        _ => lemma_float_entry(chunk, e, i),
    }
}

/// The columns of `b` have distinct names, and each column holds values of
/// its schema type.
pub open spec fn part_columns_ok(b: Batch) -> bool {
    &&& forall|x: int, y: int|
        0 <= x < y < b.schema@.len() ==> (#[trigger] b.schema@[x]).name@ != (#[trigger] b.schema@[y]).name@
    &&& forall|k: int| 0 <= k < b.columns@.len() ==> chunk_matches(#[trigger] b.columns@[k], b.schema@[k].data_type)
}

/// `z` is the zone map read back from a part written from the columns of
/// `b`: the bytes of entries `es`, each the entry of one of `b`'s columns.
pub open spec fn zone_map_of_part(z: ZoneMap, es: Seq<EncodedZoneMapEntry>, b: Batch) -> bool {
    &&& forall|j: int| 0 <= j < es.len() ==> #[trigger] entry_of_part(es[j], b.schema@, b.columns@)
    &&& writable(entries_view(es))
    &&& decode_zone_map_spec(zone_map_bytes(entries_view(es))) == Some(zone_map_view(z))
}

/// Every row of a part lies within the zone map the part was written with.
pub proof fn lemma_written_rows_within_zone(b: Batch, es: Seq<EncodedZoneMapEntry>, z: ZoneMap, i: int)
    requires
        b.wf(),
        part_columns_ok(b),
        zone_map_of_part(z, es, b),
        0 <= i < b.rows(),
    ensures
        row_within_zone(z, row_of(b, i)),
{
    lemma_zone_map_roundtrip(entries_view(es));
    assert(zone_map_view(z) == written_columns(entries_view(es)));
    assert(z.columns@.len() == es.len()) by {
        assert(zone_map_view(z).len() == z.columns@.len());
        assert(written_columns(entries_view(es)).len() == es.len());
    }
    let row = row_of(b, i);
    assert forall|name: Seq<char>| #[trigger] z.lookup(name) is Some implies {
        let c = z.lookup(name)->0;
        &&& c.entries@.len() > 0
        &&& (is_signed_tag(c.type_tag) || is_unsigned_tag(c.type_tag)) ==> {
            &&& row.contains_key(name)
            &&& row[name] is Int
            &&& exists|k: int|
                0 <= k < c.entries@.len() && entry_lo(c.type_tag, #[trigger] c.entries@[k]) <= row[name]->Int_0
                    <= entry_hi(c.type_tag, c.entries@[k])
        }
        &&& is_float_tag(c.type_tag) ==> {
            &&& row.contains_key(name)
            &&& row[name] is Float
            &&& (is_nan(row[name]->Float_0) || exists|k: int|
                0 <= k < c.entries@.len() && float_entry_holds(#[trigger] c.entries@[k], row[name]->Float_0))
        }
    } by {
        lemma_zone_find(z.columns@, name);
        let j = zone_find(z.columns@, name)->0;
        let c = z.columns@[j];
        assert(entries_view(es)[j] == entry_view(es[j]));
        assert(written_columns(entries_view(es))[j] == (es[j].col_name@, es[j].type_tag, seq![(es[j].min_bytes@, es[j].max_bytes@)]));
        assert(zone_map_view(z)[j] == (es[j].col_name@, es[j].type_tag, seq![(es[j].min_bytes@, es[j].max_bytes@)]));
        assert(zone_map_view(z)[j] == column_view(c));
        assert(column_view(c).2.len() == c.entries@.len());
        assert(c.entries@.len() == 1);
        let e0 = c.entries@[0];
        assert(c.entries@.map_values(|q: ZoneEntry| (q.min_bytes@, q.max_bytes@))[0] == (e0.min_bytes@, e0.max_bytes@));
        assert(e0.min_bytes@ == es[j].min_bytes@ && e0.max_bytes@ == es[j].max_bytes@);
        assert(entry_of_part(es[j], b.schema@, b.columns@));
        let k = choose|k: int| 0 <= k < b.columns@.len() && #[trigger] entry_describes(es[j], b.schema@[k], b.columns@[k]);
        reveal(entry_describes);
        let col = b.schema@[k];
        let chunk = b.columns@[k];
        assert(col.name@ == name);
        assert forall|m: int| 0 <= m < k implies batch_cols(b)[m].0 != name by {
            assert(b.schema@[m].name@ != b.schema@[k].name@);
        }
        lemma_find_column_first(batch_cols(b), name, k);
        assert(chunk.spec_len() == b.columns@[0].spec_len());
        lemma_chunk_entry(chunk, col.data_type, e0, i);
        assert(c.type_tag == type_tag_spec(col.data_type));
    }
}

/// Zone-map pruning is sound from writing to reading: when the zone map a
/// part was written with lets `can_skip` skip it, no row of the part
/// satisfies the predicate.
pub proof fn lemma_written_part_pruning_sound(b: Batch, es: Seq<EncodedZoneMapEntry>, z: ZoneMap, p: Predicate, i: int)
    requires
        b.wf(),
        part_columns_ok(b),
        zone_map_of_part(z, es, b),
        can_skip_spec(z, p),
        0 <= i < b.rows(),
    ensures
        !eval_row(p, b, i),
{
    lemma_written_rows_within_zone(b, es, z, i);
    lemma_skipped_rows_fail(z, p, b, i);
}

} // verus!
