//! The byte layout of `part.zonemap`:
//!
//! ```text
//! Header:
//!   [version: u8]
//!   [col_count: u16]
//!   for each column:
//!     [col_name_len: u16][col_name: utf8]
//!     [type_tag: u8]
//!     [entry_count: u32]   // 1 when written: one entry per part
//!     [data_offset: u64]   // absolute offset of the column's entries
//! Data:
//!   for each column: entry_count × ([min: 8 bytes][max: 8 bytes])
//! ```
//!
//! All integers are little-endian. The writer gives each column one entry;
//! the reader follows the counts and offsets it finds.
use vstd::prelude::*;
use vstd::slice::slice_subrange;
use vstd::utf8::{decode_utf8, encode_utf8, encode_utf8_decode_utf8, encode_utf8_valid_utf8, valid_utf8};

use crate::bytes::{
    le_bytes, le_value, lemma_le_bytes_of_value, lemma_le_roundtrip, lemma_pow256_values, pow256, push_le,
    read_le,
};
use crate::storage::zone_map::{EncodedZoneMapEntry, ZoneColumn, ZoneEntry, ZoneMap};

verus! {

pub const ZONE_MAP_VERSION: u8 = 1;

/// An entry to write: column name, type tag, and the two 8-byte bounds.
pub type EntryView = (Seq<char>, u8, Seq<u8>, Seq<u8>);

/// A column read back: name, type tag, and its (min, max) byte pairs.
pub type ColumnView = (Seq<char>, u8, Seq<(Seq<u8>, Seq<u8>)>);

pub open spec fn entry_view(e: EncodedZoneMapEntry) -> EntryView {
    (e.col_name@, e.type_tag, e.min_bytes@, e.max_bytes@)
}

pub open spec fn entries_view(es: Seq<EncodedZoneMapEntry>) -> Seq<EntryView> {
    es.map_values(|e: EncodedZoneMapEntry| entry_view(e))
}

pub open spec fn column_view(c: ZoneColumn) -> ColumnView {
    (c.name@, c.type_tag, c.entries@.map_values(|z: ZoneEntry| (z.min_bytes@, z.max_bytes@)))
}

pub open spec fn zone_map_view(z: ZoneMap) -> Seq<ColumnView> {
    z.columns@.map_values(|c: ZoneColumn| column_view(c))
}

// ---------------------------------------------------------------------------
// Writing

/// Length of one column's header record.
pub open spec fn record_len(e: EntryView) -> int {
    15 + encode_utf8(e.0).len() as int
}

pub open spec fn headers_len(es: Seq<EntryView>) -> int
    decreases es.len(),
{
    if es.len() == 0 {
        0
    } else {
        headers_len(es.drop_last()) + record_len(es.last())
    }
}

/// Length of the whole header: version, count, and the records.
pub open spec fn header_size(es: Seq<EntryView>) -> int {
    3 + headers_len(es)
}

/// One header record; a name longer than `u16::MAX` bytes has its length
/// stored modulo 2^16.
pub open spec fn record(e: EntryView, offset: int) -> Seq<u8> {
    let name = encode_utf8(e.0);
    le_bytes(name.len() as int % 0x1_0000, 2) + name + seq![e.1] + le_bytes(1, 4) + le_bytes(offset, 8)
}

/// The header records, the `i`-th pointing at `data_start + 16 * i`.
pub open spec fn records(es: Seq<EntryView>, data_start: int) -> Seq<u8>
    decreases es.len(),
{
    if es.len() == 0 {
        Seq::empty()
    } else {
        records(es.drop_last(), data_start) + record(es.last(), data_start + 16 * (es.len() - 1))
    }
}

pub open spec fn data(es: Seq<EntryView>) -> Seq<u8>
    decreases es.len(),
{
    if es.len() == 0 {
        Seq::empty()
    } else {
        data(es.drop_last()) + es.last().2 + es.last().3
    }
}

/// The bytes of `part.zonemap` for `es`. A column count above `u16::MAX`
/// is stored modulo 2^16.
pub open spec fn zone_map_bytes(es: Seq<EntryView>) -> Seq<u8> {
    seq![ZONE_MAP_VERSION] + le_bytes(es.len() as int % 0x1_0000, 2) + records(es, header_size(es)) + data(es)
}

/// The offsets fit in 64 bits.
pub open spec fn offsets_fit(es: Seq<EntryView>) -> bool {
    header_size(es) + 16 * es.len() < 0x1_0000_0000_0000_0000
}

proof fn lemma_headers_len_take(es: Seq<EntryView>, i: int)
    requires
        0 <= i < es.len(),
    ensures
        headers_len(es.take(i + 1)) == headers_len(es.take(i)) + record_len(es[i]),
        headers_len(es.take(i)) <= headers_len(es),
        headers_len(es.take(i)) >= 0,
    decreases es.len() - i,
{
    assert(es.take(i + 1).drop_last() =~= es.take(i));
    lemma_headers_len_nonneg(es.take(i));
    if i + 1 < es.len() {
        lemma_headers_len_take(es, i + 1);
    } else {
        assert(es.take(i + 1) =~= es);
    }
}

proof fn lemma_headers_len_nonneg(es: Seq<EntryView>)
    ensures
        headers_len(es) >= 0,
    decreases es.len(),
{
    if es.len() > 0 {
        lemma_headers_len_nonneg(es.drop_last());
    }
}

/// Do the offsets of the zone map of `entries` fit in 64 bits?
pub fn zone_map_fits(entries: &Vec<EncodedZoneMapEntry>) -> (r: bool)
    ensures
        r == offsets_fit(entries_view(entries@)),
{
    let ghost es = entries_view(entries@);
    let n = entries.len();
    let mut total: u128 = 3;
    let mut i: usize = 0;
    while i < n
        invariant
            n == entries@.len() == es.len(),
            es == entries_view(entries@),
            i <= n,
            total as int == 3 + headers_len(es.take(i as int)),
            total < 0x1_0000_0000_0000_0000,
        decreases n - i,
    {
        proof {
            assert(es.take(i + 1).drop_last() =~= es.take(i as int));
            lemma_headers_len_nonneg(es.take(i as int));
        }
        let len = entries[i].col_name.as_str().as_bytes().len();
        assert(es[i as int].0 == entries@[i as int].col_name@);
        total = total + 15 + len as u128;
        i = i + 1;
        if total >= 0x1_0000_0000_0000_0000 {
            proof {
                lemma_headers_prefix_le(es, i as int);
            }
            return false;
        }
    }
    proof {
        assert(es.take(n as int) =~= es);
    }
    total + 16 * (n as u128) < 0x1_0000_0000_0000_0000
}

proof fn lemma_headers_prefix_le(es: Seq<EntryView>, k: int)
    requires
        0 <= k <= es.len(),
    ensures
        headers_len(es.take(k)) <= headers_len(es),
    decreases es.len(),
{
    if k < es.len() {
        assert(es.drop_last().take(k) =~= es.take(k));
        lemma_headers_prefix_le(es.drop_last(), k);
        lemma_headers_len_nonneg(es.drop_last());
    } else {
        assert(es.take(k) =~= es);
    }
}

/// The serialized zone map of `entries`.
pub fn encode_zone_map(entries: &Vec<EncodedZoneMapEntry>) -> (r: Vec<u8>)
    requires
        offsets_fit(entries_view(entries@)),
    ensures
        r@ == zone_map_bytes(entries_view(entries@)),
{
    let ghost es = entries_view(entries@);
    let n = entries.len();
    proof { lemma_headers_len_nonneg(es); }
    // Header size: version, count, and one record per column.
    let mut hsize: u64 = 3;
    let mut i: usize = 0;
    assert(es.take(0) =~= Seq::<EntryView>::empty());
    while i < n
        invariant
            n == entries@.len() == es.len(),
            es == entries_view(entries@),
            offsets_fit(es),
            i <= n,
            hsize as int == 3 + headers_len(es.take(i as int)),
        decreases n - i,
    {
        proof {
            lemma_headers_len_take(es, i as int);
            if i + 1 < n {
                lemma_headers_len_take(es, i + 1);
            } else {
                assert(es.take(i + 1) =~= es);
            }
        }
        let bytes = entries[i].col_name.as_str().as_bytes();
        let len = bytes.len();
        assert(es[i as int].0 == entries@[i as int].col_name@);
        assert(len == encode_utf8(es[i as int].0).len());
        hsize = hsize + 15 + len as u64;
        i = i + 1;
    }
    assert(es.take(n as int) =~= es);
    let mut out: Vec<u8> = Vec::new();
    out.push(ZONE_MAP_VERSION);
    push_le(&mut out, (n % 0x1_0000) as u64, 2);
    // Header records.
    let mut data_offset: u64 = hsize;
    let mut j: usize = 0;
    assert(out@ =~= seq![ZONE_MAP_VERSION] + le_bytes(es.len() as int % 0x1_0000, 2) + records(es.take(0), hsize as int));
    while j < n
        invariant
            n == entries@.len() == es.len(),
            es == entries_view(entries@),
            offsets_fit(es),
            hsize as int == header_size(es),
            j <= n,
            data_offset as int == hsize + 16 * j,
            out@ == seq![ZONE_MAP_VERSION] + le_bytes(es.len() as int % 0x1_0000, 2) + records(es.take(j as int), hsize as int),
        decreases n - j,
    {
        let name_bytes = entries[j].col_name.as_str().as_bytes();
        let ghost before = out@;
        push_le(&mut out, (name_bytes.len() % 0x1_0000) as u64, 2);
        let mut k: usize = 0;
        while k < name_bytes.len()
            invariant
                k <= name_bytes@.len(),
                out@ == before + le_bytes(name_bytes@.len() as int % 0x1_0000, 2) + name_bytes@.take(k as int),
            decreases name_bytes@.len() - k,
        {
            out.push(name_bytes[k]);
            k = k + 1;
            assert(out@ =~= before + le_bytes(name_bytes@.len() as int % 0x1_0000, 2) + name_bytes@.take(k as int));
        }
        out.push(entries[j].type_tag);
        push_le(&mut out, 1, 4);
        push_le(&mut out, data_offset, 8);
        proof {
            assert(name_bytes@.take(k as int) =~= name_bytes@);
            assert(es[j as int] == entry_view(entries@[j as int]));
            assert(es.take(j + 1).drop_last() =~= es.take(j as int));
            assert(out@ =~= before + record(es[j as int], hsize + 16 * j));
        }
        data_offset = data_offset + 16;
        j = j + 1;
    }
    proof {
        assert(es.take(n as int) =~= es);
    }
    let ghost head = out@;
    // Data: the bounds of each column.
    let mut m: usize = 0;
    assert(data(es.take(0)) =~= Seq::<u8>::empty());
    assert(out@ =~= head + data(es.take(0)));
    while m < n
        invariant
            n == entries@.len() == es.len(),
            es == entries_view(entries@),
            m <= n,
            out@ == head + data(es.take(m as int)),
        decreases n - m,
    {
        let e = &entries[m];
        let mut b: usize = 0;
        let ghost before = out@;
        while b < 8
            invariant
                b <= 8,
                out@ == before + e.min_bytes@.take(b as int),
            decreases 8 - b,
        {
            out.push(e.min_bytes[b]);
            b = b + 1;
            assert(out@ =~= before + e.min_bytes@.take(b as int));
        }
        let mut c: usize = 0;
        while c < 8
            invariant
                c <= 8,
                out@ == before + e.min_bytes@ + e.max_bytes@.take(c as int),
            decreases 8 - c,
        {
            out.push(e.max_bytes[c]);
            c = c + 1;
            assert(out@ =~= before + e.min_bytes@ + e.max_bytes@.take(c as int));
        }
        proof {
            assert(e.min_bytes@.take(8) =~= e.min_bytes@);
            assert(e.max_bytes@.take(8) =~= e.max_bytes@);
            assert(es[m as int] == entry_view(entries@[m as int]));
            assert(es.take(m + 1).drop_last() =~= es.take(m as int));
            assert(out@ =~= head + data(es.take(m + 1)));
        }
        m = m + 1;
    }
    proof {
        assert(es.take(n as int) =~= es);
    }
    out
}


// ---------------------------------------------------------------------------
// Reading

/// The little-endian value of the `n` bytes at `pos`.
pub open spec fn read_at(b: Seq<u8>, pos: int, n: int) -> int {
    le_value(b.subrange(pos, pos + n))
}

/// The entries of a column: `count` pairs of 8-byte bounds from `offset` on.
pub open spec fn entries_at(b: Seq<u8>, offset: int, count: nat) -> Seq<(Seq<u8>, Seq<u8>)> {
    Seq::new(
        count,
        |k: int| (b.subrange(offset + 16 * k, offset + 16 * k + 8), b.subrange(offset + 16 * k + 8, offset + 16 * k + 16)),
    )
}

/// The column record at `pos`, and the position after it: `None` when the
/// record or the entries it points at run past the end, or the name is not
/// UTF-8.
pub open spec fn parse_record(b: Seq<u8>, pos: int) -> Option<(ColumnView, int)> {
    if !(0 <= pos && pos + 2 <= b.len()) {
        None
    } else {
        let name_end = pos + 2 + read_at(b, pos, 2);
        if name_end + 13 > b.len() {
            None
        } else if !valid_utf8(b.subrange(pos + 2, name_end)) {
            None
        } else {
            let count = read_at(b, name_end + 1, 4);
            let offset = read_at(b, name_end + 5, 8);
            if offset + 16 * count > b.len() {
                None
            } else {
                Some(
                    (
                        (decode_utf8(b.subrange(pos + 2, name_end)), b[name_end], entries_at(b, offset, count as nat)),
                        name_end + 13,
                    ),
                )
            }
        }
    }
}

/// `k` consecutive records from `pos` on.
pub open spec fn parse_records(b: Seq<u8>, pos: int, k: nat) -> Option<Seq<ColumnView>>
    decreases k,
{
    if k == 0 {
        Some(Seq::empty())
    } else {
        match parse_record(b, pos) {
            None => None,
            Some((c, next)) => match parse_records(b, next, (k - 1) as nat) {
                None => None,
                Some(rest) => Some(seq![c] + rest),
            },
        }
    }
}

/// The columns of a zone map file: version 1, then as many records as the
/// count says.
pub open spec fn decode_zone_map_spec(b: Seq<u8>) -> Option<Seq<ColumnView>> {
    if b.len() < 3 || b[0] != ZONE_MAP_VERSION {
        None
    } else {
        parse_records(b, 3, read_at(b, 1, 2) as nat)
    }
}

pub open spec fn prepend(done: Seq<ColumnView>, rest: Option<Seq<ColumnView>>) -> Option<Seq<ColumnView>> {
    match rest {
        None => None,
        Some(r) => Some(done + r),
    }
}

/// `std::str::from_utf8`: the text whose UTF-8 encoding is `bytes`, or
/// nothing when `bytes` is not valid UTF-8.
#[verifier::external_body]
pub(crate) fn utf8_text(bytes: &[u8]) -> (r: Option<&str>)
    ensures
        match r {
            Some(s) => valid_utf8(bytes@) && s@ == decode_utf8(bytes@),
            None => !valid_utf8(bytes@),
        },
{
    std::str::from_utf8(bytes).ok()
}

fn read_bound(bytes: &[u8], at: usize) -> (r: [u8; 8])
    requires
        at + 8 <= bytes@.len(),
    ensures
        r@ == bytes@.subrange(at as int, at + 8),
{
    let r: [u8; 8] = [
        bytes[at],
        bytes[at + 1],
        bytes[at + 2],
        bytes[at + 3],
        bytes[at + 4],
        bytes[at + 5],
        bytes[at + 6],
        bytes[at + 7],
    ];
    assert(r@ =~= bytes@.subrange(at as int, at + 8));
    r
}

/// Reads one column record at `pos`.
fn read_record(bytes: &[u8], pos: usize) -> (r: Option<(ZoneColumn, usize)>)
    ensures
        match r {
            Some((c, next)) => parse_record(bytes@, pos as int) == Some((column_view(c), next as int)),
            None => parse_record(bytes@, pos as int) is None,
        },
{
    let b = bytes;
    let len = b.len();
    if pos > len || len - pos < 2 {
        return None;
    }
    let nlen = read_le(slice_subrange(b, pos, pos + 2));
    proof {
        lemma_le_bytes_of_value(b@.subrange(pos as int, pos + 2));
        lemma_pow256_values();
    }
    // nlen < 2^16, so this stays well inside usize.
    if (len - pos - 2) < (nlen as usize) || (len - pos - 2 - nlen as usize) < 13 {
        return None;
    }
    let name_end: usize = pos + 2 + nlen as usize;
    let name = match utf8_text(slice_subrange(b, pos + 2, name_end)) {
        Some(s) => s,
        None => return None,
    };
    let tag = b[name_end];
    let count = read_le(slice_subrange(b, name_end + 1, name_end + 5));
    let offset = read_le(slice_subrange(b, name_end + 5, name_end + 13));
    proof {
        lemma_le_bytes_of_value(b@.subrange(name_end + 1, name_end + 5));
    }
    // count < 2^32, so 16 * count fits in u64; compare without overflow.
    if (offset as u128) + 16 * (count as u128) > len as u128 {
        return None;
    }
    let mut entries: Vec<ZoneEntry> = Vec::new();
    let mut k: u64 = 0;
    let ghost want = entries_at(b@, offset as int, count as nat);
    while k < count
        invariant
            k <= count,
            offset + 16 * count <= len,
            len == b@.len(),
            want == entries_at(b@, offset as int, count as nat),
            entries@.len() == k,
            forall|j: int| 0 <= j < k ==> (#[trigger] entries@[j]).min_bytes@ == want[j].0 && entries@[j].max_bytes@ == want[j].1,
        decreases count - k,
    {
        let at: usize = (offset + 16 * k) as usize;
        let min_bytes = read_bound(b, at);
        let max_bytes = read_bound(b, at + 8);
        entries.push(ZoneEntry { min_bytes, max_bytes });
        k = k + 1;
    }
    let col = ZoneColumn { name: String::from_str(name), type_tag: tag, entries };
    proof {
        let v = column_view(col);
        assert(v.2 =~= want);
    }
    Some((col, name_end + 13))
}

/// Reads a zone map file: `None` when it is not one.
pub fn decode_zone_map(bytes: &[u8]) -> (r: Option<ZoneMap>)
    ensures
        match r {
            Some(z) => decode_zone_map_spec(bytes@) == Some(zone_map_view(z)),
            None => decode_zone_map_spec(bytes@) is None,
        },
{
    if bytes.len() < 3 || bytes[0] != ZONE_MAP_VERSION {
        return None;
    }
    let count = read_le(slice_subrange(bytes, 1, 3));
    let mut columns: Vec<ZoneColumn> = Vec::new();
    let mut pos: usize = 3;
    let mut i: u64 = 0;
    proof {
        assert(zone_map_view(ZoneMap { columns }) =~= Seq::<ColumnView>::empty());
        assert(prepend(Seq::empty(), parse_records(bytes@, 3, count as nat)) =~= parse_records(bytes@, 3, count as nat)) by {
            if parse_records(bytes@, 3, count as nat) is Some {
                assert(Seq::<ColumnView>::empty() + parse_records(bytes@, 3, count as nat)->0 =~= parse_records(bytes@, 3, count as nat)->0);
            }
        }
    }
    while i < count
        invariant
            i <= count,
            count as int == read_at(bytes@, 1, 2),
            bytes@.len() >= 3,
            bytes@[0] == ZONE_MAP_VERSION,
            decode_zone_map_spec(bytes@) == prepend(
                zone_map_view(ZoneMap { columns }),
                parse_records(bytes@, pos as int, (count - i) as nat),
            ),
        decreases count - i,
    {
        let ghost done = zone_map_view(ZoneMap { columns });
        match read_record(bytes, pos) {
            None => return None,
            Some((col, next)) => {
                let ghost c = column_view(col);
                columns.push(col);
                proof {
                    assert(zone_map_view(ZoneMap { columns }) =~= done + seq![c]);
                    let rest = parse_records(bytes@, next as int, (count - i - 1) as nat);
                    if rest is Some {
                        assert(done + (seq![c] + rest->0) =~= (done + seq![c]) + rest->0);
                    }
                }
                pos = next;
            },
        }
        i = i + 1;
    }
    proof {
        let z = zone_map_view(ZoneMap { columns });
        assert(z + Seq::<ColumnView>::empty() =~= z);
    }
    Some(ZoneMap { columns })
}


// ---------------------------------------------------------------------------
// Reading back what was written

/// What the writer can store without loss: fewer than 2^16 columns, names
/// shorter than 2^16 bytes, 8-byte bounds, and offsets within 64 bits.
pub open spec fn writable(es: Seq<EntryView>) -> bool {
    &&& es.len() < 0x1_0000
    &&& offsets_fit(es)
    &&& forall|i: int| 0 <= i < es.len() ==> #[trigger] entry_writable(es[i])
}

pub open spec fn entry_writable(e: EntryView) -> bool {
    encode_utf8(e.0).len() < 0x1_0000 && e.2.len() == 8 && e.3.len() == 8
}

/// The columns a zone map of `es` holds: one entry each.
pub open spec fn written_columns(es: Seq<EntryView>) -> Seq<ColumnView> {
    es.map_values(|e: EntryView| (e.0, e.1, seq![(e.2, e.3)]))
}

proof fn lemma_records_len(es: Seq<EntryView>, o: int)
    ensures
        records(es, o).len() == headers_len(es),
    decreases es.len(),
{
    if es.len() > 0 {
        lemma_records_len(es.drop_last(), o);
    }
}

proof fn lemma_data_len(es: Seq<EntryView>)
    requires
        forall|i: int| 0 <= i < es.len() ==> #[trigger] entry_writable(es[i]),
    ensures
        data(es).len() == 16 * es.len(),
    decreases es.len(),
{
    if es.len() > 0 {
        let p = es.drop_last();
        assert forall|i: int| 0 <= i < p.len() implies #[trigger] entry_writable(p[i]) by {
            assert(p[i] == es[i]);
        }
        lemma_data_len(p);
        assert(entry_writable(es[es.len() - 1]));
    }
}

proof fn lemma_records_prefix(es: Seq<EntryView>, k: int, o: int)
    requires
        0 <= k <= es.len(),
    ensures
        records(es.take(k), o) == records(es, o).take(headers_len(es.take(k))),
    decreases es.len() - k,
{
    lemma_records_len(es.take(k), o);
    if k == es.len() {
        assert(es.take(k) =~= es);
        lemma_records_len(es, o);
        assert(records(es, o).take(headers_len(es)) =~= records(es, o));
    } else {
        lemma_records_prefix(es, k + 1, o);
        assert(es.take(k + 1).drop_last() =~= es.take(k));
        assert(records(es.take(k), o) =~= records(es.take(k + 1), o).take(headers_len(es.take(k))));
        lemma_headers_len_take(es, k);
        lemma_records_len(es, o);
        if k + 1 < es.len() {
            lemma_headers_len_take(es, k + 1);
        } else {
            assert(es.take(k + 1) =~= es);
        }
        assert(records(es, o).take(headers_len(es.take(k + 1))).take(headers_len(es.take(k))) =~= records(es, o).take(
            headers_len(es.take(k)),
        ));
    }
}

proof fn lemma_data_prefix(es: Seq<EntryView>, k: int)
    requires
        0 <= k <= es.len(),
        forall|i: int| 0 <= i < es.len() ==> #[trigger] entry_writable(es[i]),
    ensures
        data(es.take(k)) == data(es).take(16 * k),
    decreases es.len() - k,
{
    let t = es.take(k);
    assert forall|i: int| 0 <= i < t.len() implies #[trigger] entry_writable(t[i]) by {
        assert(t[i] == es[i]);
    }
    lemma_data_len(t);
    if k == es.len() {
        assert(es.take(k) =~= es);
        lemma_data_len(es);
        assert(data(es).take(16 * k) =~= data(es));
    } else {
        lemma_data_prefix(es, k + 1);
        assert(es.take(k + 1).drop_last() =~= es.take(k));
        assert(data(es.take(k)) =~= data(es.take(k + 1)).take(16 * k));
        lemma_data_len(es);
        assert(data(es).take(16 * (k + 1)).take(16 * k) =~= data(es).take(16 * k));
    }
}

/// The bytes of the header record of column `i`.
proof fn lemma_record_in_bytes(es: Seq<EntryView>, i: int)
    requires
        writable(es),
        0 <= i < es.len(),
    ensures
        3 + headers_len(es.take(i)) + record_len(es[i]) <= zone_map_bytes(es).len(),
        zone_map_bytes(es).subrange(3 + headers_len(es.take(i)), 3 + headers_len(es.take(i)) + record_len(es[i]))
            == record(es[i], header_size(es) + 16 * i),
        headers_len(es.take(i + 1)) == headers_len(es.take(i)) + record_len(es[i]),
        headers_len(es.take(i)) >= 0,
{
    let b = zone_map_bytes(es);
    let hs = header_size(es);
    let e = es[i];
    let h = headers_len(es.take(i));
    let pos = 3 + h;
    let rec = record(e, hs + 16 * i);
    let head = seq![ZONE_MAP_VERSION] + le_bytes(es.len() as int % 0x1_0000, 2);
    let recs = records(es, hs);
    lemma_headers_len_take(es, i);
    lemma_headers_len_nonneg(es.take(i));
    lemma_records_len(es, hs);
    lemma_records_prefix(es, i + 1, hs);
    assert(es.take(i + 1).drop_last() =~= es.take(i));
    assert(records(es.take(i + 1), hs) == records(es.take(i), hs) + rec);
    lemma_records_len(es.take(i), hs);
    assert(headers_len(es.take(i + 1)) <= headers_len(es)) by {
        if i + 1 < es.len() {
            lemma_headers_len_take(es, i + 1);
        } else {
            assert(es.take(i + 1) =~= es);
        }
    }
    assert(b.subrange(pos, pos + record_len(e)) =~= rec) by {
        assert forall|t: int| 0 <= t < record_len(e) implies #[trigger] b.subrange(pos, pos + record_len(e))[t] == rec[t] by {
            assert(b[pos + t] == recs[h + t]);
            assert(recs[h + t] == records(es.take(i + 1), hs)[h + t]);
        }
    }
}

/// The fields of one header record.
proof fn lemma_record_fields(e: EntryView, off: int)
    requires
        entry_writable(e),
        0 <= off < 0x1_0000_0000_0000_0000,
    ensures
        ({
            let rec = record(e, off);
            let nlen = encode_utf8(e.0).len() as int;
            &&& rec.len() == record_len(e)
            &&& le_value(rec.subrange(0, 2)) == nlen
            &&& rec.subrange(2, 2 + nlen) == encode_utf8(e.0)
            &&& rec[2 + nlen] == e.1
            &&& le_value(rec.subrange(3 + nlen, 7 + nlen)) == 1
            &&& le_value(rec.subrange(7 + nlen, 15 + nlen)) == off
        }),
{
    let rec = record(e, off);
    let name = encode_utf8(e.0);
    let nlen = name.len() as int;
    lemma_pow256_values();
    assert(rec.subrange(0, 2) =~= le_bytes(nlen % 0x1_0000, 2));
    lemma_le_roundtrip(nlen, 2);
    assert(rec.subrange(2, 2 + nlen) =~= name);
    assert(rec.subrange(3 + nlen, 7 + nlen) =~= le_bytes(1, 4));
    lemma_le_roundtrip(1, 4);
    assert(rec.subrange(7 + nlen, 15 + nlen) =~= le_bytes(off, 8));
    lemma_le_roundtrip(off, 8);
}

/// The bounds of column `i` in the data section.
proof fn lemma_entry_in_bytes(es: Seq<EntryView>, i: int)
    requires
        writable(es),
        0 <= i < es.len(),
    ensures
        header_size(es) + 16 * i + 16 <= zone_map_bytes(es).len(),
        zone_map_bytes(es).subrange(header_size(es) + 16 * i, header_size(es) + 16 * i + 8) == es[i].2,
        zone_map_bytes(es).subrange(header_size(es) + 16 * i + 8, header_size(es) + 16 * i + 16) == es[i].3,
{
    let b = zone_map_bytes(es);
    let hs = header_size(es);
    let e = es[i];
    let off = hs + 16 * i;
    let d = data(es);
    assert(entry_writable(e));
    lemma_records_len(es, hs);
    lemma_data_len(es);
    lemma_data_prefix(es, i);
    lemma_data_prefix(es, i + 1);
    assert(es.take(i + 1).drop_last() =~= es.take(i));
    assert(data(es.take(i + 1)) == data(es.take(i)) + e.2 + e.3);
    assert(b.len() == hs + 16 * es.len());
    assert(b.subrange(off, off + 8) =~= e.2) by {
        assert forall|t: int| 0 <= t < 8 implies #[trigger] b.subrange(off, off + 8)[t] == e.2[t] by {
            assert(b[off + t] == d[16 * i + t]);
            assert(d[16 * i + t] == data(es.take(i + 1))[16 * i + t]);
        }
    }
    assert(b.subrange(off + 8, off + 16) =~= e.3) by {
        assert forall|t: int| 0 <= t < 8 implies #[trigger] b.subrange(off + 8, off + 16)[t] == e.3[t] by {
            assert(b[off + 8 + t] == d[16 * i + 8 + t]);
            assert(d[16 * i + 8 + t] == data(es.take(i + 1))[16 * i + 8 + t]);
        }
    }
}

/// The record of column `i` is found where the writer put it.
proof fn lemma_parse_record_at(es: Seq<EntryView>, i: int)
    requires
        writable(es),
        0 <= i < es.len(),
    ensures
        parse_record(zone_map_bytes(es), 3 + headers_len(es.take(i))) == Some(
            (written_columns(es)[i], 3 + headers_len(es.take(i + 1))),
        ),
{
    let b = zone_map_bytes(es);
    let hs = header_size(es);
    let e = es[i];
    let nlen = encode_utf8(e.0).len() as int;
    let pos = 3 + headers_len(es.take(i));
    let off = hs + 16 * i;
    let rec = record(e, off);
    assert(entry_writable(e));
    lemma_record_in_bytes(es, i);
    lemma_headers_len_nonneg(es);
    lemma_record_fields(e, off);
    lemma_entry_in_bytes(es, i);
    let whole = b.subrange(pos, pos + record_len(e));
    assert(b.subrange(pos, pos + 2) =~= whole.subrange(0, 2));
    assert(b.subrange(pos + 2, pos + 2 + nlen) =~= whole.subrange(2, 2 + nlen));
    assert(b[pos + 2 + nlen] == whole[2 + nlen]);
    assert(b.subrange(pos + 2 + nlen + 1, pos + 2 + nlen + 5) =~= whole.subrange(3 + nlen, 7 + nlen));
    assert(b.subrange(pos + 2 + nlen + 5, pos + 2 + nlen + 13) =~= whole.subrange(7 + nlen, 15 + nlen));
    encode_utf8_valid_utf8(e.0);
    encode_utf8_decode_utf8(e.0);
    assert(entries_at(b, off, 1) =~= seq![(e.2, e.3)]);
}

proof fn lemma_parse_from(es: Seq<EntryView>, i: int)
    requires
        writable(es),
        0 <= i <= es.len(),
    ensures
        parse_records(zone_map_bytes(es), 3 + headers_len(es.take(i)), (es.len() - i) as nat) == Some(
            written_columns(es).skip(i),
        ),
    decreases es.len() - i,
{
    if i == es.len() {
        assert(written_columns(es).skip(i) =~= Seq::<ColumnView>::empty());
    } else {
        lemma_parse_record_at(es, i);
        lemma_parse_from(es, i + 1);
        assert(seq![written_columns(es)[i]] + written_columns(es).skip(i + 1) =~= written_columns(es).skip(i));
    }
}

/// Reading a zone map gives back the columns written into it, each with its
/// one (min, max) entry.
pub proof fn lemma_zone_map_roundtrip(es: Seq<EntryView>)
    requires
        writable(es),
    ensures
        decode_zone_map_spec(zone_map_bytes(es)) == Some(written_columns(es)),
{
    let b = zone_map_bytes(es);
    lemma_pow256_values();
    assert(b.subrange(1, 3) =~= le_bytes(es.len() as int % 0x1_0000, 2));
    lemma_le_roundtrip(es.len() as int, 2);
    assert(es.take(0) =~= Seq::<EntryView>::empty());
    lemma_parse_from(es, 0);
    assert(written_columns(es).skip(0) =~= written_columns(es));
}

} // verus!
