//! The stored form of a string column of a part: one frame, as for the
//! fixed-width columns, whose decoded bytes hold each string in turn as its
//! UTF-8 length (a little-endian `u32`) followed by its UTF-8 bytes. A column
//! without rows is an empty file.
use vstd::prelude::*;
use vstd::utf8::{decode_utf8, encode_utf8, encode_utf8_decode_utf8, encode_utf8_valid_utf8, valid_utf8};

use crate::bytes::{le_bytes, le_value, lemma_le_bytes_of_value, lemma_le_roundtrip, lemma_pow256_values, push_le, read_le};
use crate::encoding::{codec_tag_spec, Codec};
use crate::storage::column_reader::frame_value_bytes;
use crate::storage::column_writer::{block_of, frame};
use crate::storage::lz4::{lz4_compress_prepend_size, lz4_decompress_size_prepended, lz4_decompressed};
use crate::storage::zone_map_format::utf8_text;

verus! {

/// One string's record: its UTF-8 length, then its UTF-8 bytes.
pub open spec fn string_record(s: Seq<char>) -> Seq<u8> {
    le_bytes(encode_utf8(s).len() as int, 4) + encode_utf8(s)
}

pub open spec fn string_records(v: Seq<Seq<char>>) -> Seq<u8>
    decreases v.len(),
{
    if v.len() == 0 {
        Seq::empty()
    } else {
        string_records(v.drop_last()) + string_record(v.last())
    }
}

/// The stored file of a string column whose records are compressed to `c`.
pub open spec fn string_column_bin(v: Seq<Seq<char>>, c: Seq<u8>) -> Seq<u8> {
    if v.len() == 0 {
        Seq::empty()
    } else {
        frame(Codec::Plain, c)
    }
}

/// The records are small enough that their compressed block, which lz4 may
/// make a tenth larger, still fits the frame's 32-bit length field.
pub open spec fn strings_storable(v: Seq<Seq<char>>) -> bool {
    string_records(v).len() <= 0xE000_0000
}

/// `c` is a compressed form of the records of `v` that fits the frame's
/// length field and reads back.
pub open spec fn strings_readable(v: Seq<Seq<char>>, c: Seq<u8>) -> bool {
    v.len() > 0 ==> block_of(string_records(v), c)
}

/// `bin` is the stored file of `v`, for some compressed form of its records.
pub open spec fn string_column_written(v: Seq<Seq<char>>, bin: Seq<u8>) -> bool {
    exists|c: Seq<u8>| #![trigger string_column_bin(v, c)] strings_readable(v, c) && bin == string_column_bin(v, c)
}

pub open spec fn views_of(v: Seq<String>) -> Seq<Seq<char>> {
    v.map_values(|s: String| s@)
}

/// Is the column small enough to be stored (see `strings_storable`)?
pub fn string_column_fits(values: &Vec<String>) -> (r: bool)
    ensures
        r == strings_storable(views_of(values@)),
{
    let ghost vs = views_of(values@);
    let mut total: u64 = 0;
    let mut i: usize = 0;
    while i < values.len()
        invariant
            vs == views_of(values@),
            i <= values@.len(),
            total as int == string_records(vs.take(i as int)).len(),
            total <= 0xE000_0000,
        decreases values@.len() - i,
    {
        proof {
            assert(vs.take(i + 1).drop_last() =~= vs.take(i as int));
            assert(vs[i as int] == values@[i as int]@);
        }
        let len = values[i].as_str().as_bytes().len();
        if len as u64 > 0xE000_0000 || total + 4 + len as u64 > 0xE000_0000 {
            proof {
                lemma_records_prefix_len(vs, i + 1);
            }
            return false;
        }
        total = total + 4 + len as u64;
        i = i + 1;
    }
    proof {
        assert(vs.take(values@.len() as int) =~= vs);
    }
    true
}

/// Lays out a string column.
pub fn write_string_column(values: &Vec<String>) -> (r: Vec<u8>)
    requires
        strings_storable(views_of(values@)),
    ensures
        string_column_written(views_of(values@), r@),
{
    let ghost vs = views_of(values@);
    let mut raw: Vec<u8> = Vec::new();
    let mut i: usize = 0;
    while i < values.len()
        invariant
            vs == views_of(values@),
            string_records(vs).len() <= 0xE000_0000,
            i <= values@.len(),
            raw@ == string_records(vs.take(i as int)),
        decreases values@.len() - i,
    {
        proof {
            assert(vs.take(i + 1).drop_last() =~= vs.take(i as int));
            lemma_records_prefix_len(vs, i + 1);
        }
        let bytes = values[i].as_str().as_bytes();
        let ghost before = raw@;
        push_le(&mut raw, bytes.len() as u64, 4);
        let mut k: usize = 0;
        while k < bytes.len()
            invariant
                k <= bytes@.len(),
                raw@ == before + le_bytes(bytes@.len() as int, 4) + bytes@.take(k as int),
            decreases bytes@.len() - k,
        {
            raw.push(bytes[k]);
            k = k + 1;
            assert(raw@ =~= before + le_bytes(bytes@.len() as int, 4) + bytes@.take(k as int));
        }
        proof {
            assert(bytes@.take(bytes@.len() as int) =~= bytes@);
            assert(vs[i as int] == values@[i as int]@);
            assert(raw@ =~= string_records(vs.take(i + 1)));
        }
        i = i + 1;
    }
    proof {
        assert(vs.take(values@.len() as int) =~= vs);
    }
    if values.len() == 0 {
        let r: Vec<u8> = Vec::new();
        proof {
            let c = Seq::<u8>::empty();
            assert(strings_readable(vs, c) && r@ == string_column_bin(vs, c));
        }
        return r;
    }
    let compressed = lz4_compress_prepend_size(raw.as_slice());
    let mut out: Vec<u8> = Vec::new();
    out.push(Codec::Plain.tag());
    push_le(&mut out, compressed.len() as u64, 4);
    let ghost mid = out@;
    let mut j: usize = 0;
    while j < compressed.len()
        invariant
            j <= compressed@.len(),
            out@ == mid + compressed@.take(j as int),
        decreases compressed@.len() - j,
    {
        out.push(compressed[j]);
        j = j + 1;
        assert(out@ =~= mid + compressed@.take(j as int));
    }
    proof {
        assert(compressed@.take(compressed@.len() as int) =~= compressed@);
        assert(out@ =~= frame(Codec::Plain, compressed@));
        assert(strings_readable(vs, compressed@) && out@ == string_column_bin(vs, compressed@));
    }
    out
}

proof fn lemma_records_prefix_len(v: Seq<Seq<char>>, k: int)
    requires
        0 <= k <= v.len(),
    ensures
        string_records(v.take(k)).len() <= string_records(v).len(),
    decreases v.len(),
{
    if k < v.len() {
        assert(v.drop_last().take(k) =~= v.take(k));
        lemma_records_prefix_len(v.drop_last(), k);
    } else {
        assert(v.take(k) =~= v);
    }
}

/// The strings held in records `b`, or `None` when `b` does not split into
/// whole records of valid UTF-8.
pub open spec fn parse_strings(b: Seq<u8>) -> Option<Seq<Seq<char>>>
    decreases b.len(),
{
    if b.len() == 0 {
        Some(Seq::empty())
    } else if b.len() < 4 {
        None
    } else {
        let n = le_value(b.subrange(0, 4));
        if n < 0 || b.len() < 4 + n || !valid_utf8(b.subrange(4, 4 + n)) {
            None
        } else {
            match parse_strings(b.skip(4 + n)) {
                Some(rest) => Some(seq![decode_utf8(b.subrange(4, 4 + n))] + rest),
                None => None,
            }
        }
    }
}

/// The strings of a stored string column: `None` when it is damaged.
pub open spec fn read_strings_spec(bin: Seq<u8>) -> Option<Seq<Seq<char>>> {
    if bin.len() == 0 {
        Some(Seq::empty())
    } else if bin.len() < 5 {
        None
    } else {
        let n = le_value(bin.subrange(1, 5));
        if n < 0 || bin.len() != 5 + n {
            None
        } else {
            match frame_value_bytes(bin[0], bin.subrange(5, 5 + n), 1) {
                Some(raw) => parse_strings(raw),
                None => None,
            }
        }
    }
}

/// Reads a stored string column back.
pub fn read_string_column(bin: &[u8]) -> (r: Option<Vec<String>>)
    ensures
        match r {
            Some(v) => read_strings_spec(bin@) == Some(views_of(v@)),
            None => read_strings_spec(bin@) is None,
        },
{
    if bin.len() == 0 {
        let v: Vec<String> = Vec::new();
        assert(views_of(v@) =~= Seq::<Seq<char>>::empty());
        return Some(v);
    }
    if bin.len() < 5 {
        return None;
    }
    let head = vstd::slice::slice_subrange(bin, 1, 5);
    let n64 = read_le(head);
    proof {
        assert(head@ =~= bin@.subrange(1, 5));
        lemma_le_bytes_of_value(head@);
    }
    if ((bin.len() - 5) as u64) != n64 {
        return None;
    }
    let n = n64 as usize;
    let payload = vstd::slice::slice_subrange(bin, 5, 5 + n);
    proof {
        assert(payload@ =~= bin@.subrange(5, 5 + n));
    }
    let codec = match Codec::from_tag(bin[0]) {
        Some(c) => c,
        None => {
            return None;
        },
    };
    let enc = match lz4_decompress_size_prepended(payload) {
        Ok(d) => d,
        Err(_) => {
            return None;
        },
    };
    let mut raw: Vec<u8> = Vec::new();
    match codec.decode(enc.as_slice(), 1, &mut raw) {
        Ok(()) => {},
        Err(_) => {
            return None;
        },
    }
    proof {
        assert(raw@ =~= Seq::<u8>::empty() + raw@);
    }
    parse_string_records(raw.as_slice())
}

fn parse_string_records(b: &[u8]) -> (r: Option<Vec<String>>)
    ensures
        match r {
            Some(v) => parse_strings(b@) == Some(views_of(v@)),
            None => parse_strings(b@) is None,
        },
{
    let len = b.len();
    let mut out: Vec<String> = Vec::new();
    let mut pos: usize = 0;
    proof {
        assert(b@.skip(0) =~= b@);
        match parse_strings(b@) {
            Some(x) => assert(views_of(out@) + x =~= x),
            None => {},
        }
    }
    while pos < len
        invariant
            len == b@.len(),
            pos <= len,
            parse_strings(b@) == match parse_strings(b@.skip(pos as int)) {
                Some(x) => Some(views_of(out@) + x),
                None => None::<Seq<Seq<char>>>,
            },
        decreases len - pos,
    {
        let ghost rest = b@.skip(pos as int);
        if len - pos < 4 {
            return None;
        }
        let head = vstd::slice::slice_subrange(b, pos, pos + 4);
        let n64 = read_le(head);
        proof {
            assert(head@ =~= rest.subrange(0, 4));
            lemma_le_bytes_of_value(head@);
        }
        if ((len - pos - 4) as u64) < n64 {
            return None;
        }
        let n = n64 as usize;
        let text_bytes = vstd::slice::slice_subrange(b, pos + 4, pos + 4 + n);
        proof {
            assert(text_bytes@ =~= rest.subrange(4, 4 + n));
            assert(rest.skip(4 + n) =~= b@.skip(pos + 4 + n));
        }
        let s = match utf8_text(text_bytes) {
            Some(t) => t,
            None => {
                return None;
            },
        };
        let ghost before = out@;
        out.push(s.to_string());
        proof {
            assert(views_of(out@) =~= views_of(before).push(decode_utf8(rest.subrange(4, 4 + n))));
            match parse_strings(b@.skip(pos + 4 + n)) {
                Some(x) => {
                    assert(views_of(before) + (seq![decode_utf8(rest.subrange(4, 4 + n))] + x) =~= views_of(out@) + x);
                },
                None => {},
            }
        }
        pos = pos + 4 + n;
    }
    proof {
        assert(b@.skip(len as int) =~= Seq::<u8>::empty());
        assert(views_of(out@) + Seq::<Seq<char>>::empty() =~= views_of(out@));
    }
    Some(out)
}

proof fn lemma_records_front(v: Seq<Seq<char>>)
    requires
        v.len() > 0,
    ensures
        string_records(v) == string_record(v[0]) + string_records(v.drop_first()),
    decreases v.len(),
{
    if v.len() == 1 {
        assert(v.drop_last() =~= Seq::<Seq<char>>::empty());
        assert(v.drop_first() =~= Seq::<Seq<char>>::empty());
        assert(string_records(v) =~= string_record(v[0]) + string_records(v.drop_first()));
    } else {
        lemma_records_front(v.drop_last());
        assert(v.drop_last().drop_first() =~= v.drop_first().drop_last());
        assert(v.drop_first().last() == v.last());
        assert(v.drop_last()[0] == v[0]);
        assert(string_records(v) =~= string_record(v[0]) + string_records(v.drop_first()));
    }
}

proof fn lemma_parse_records(v: Seq<Seq<char>>)
    requires
        string_records(v).len() <= u32::MAX,
    ensures
        parse_strings(string_records(v)) == Some(v),
    decreases v.len(),
{
    if v.len() == 0 {
        assert(v =~= Seq::<Seq<char>>::empty());
    } else {
        lemma_records_front(v);
        let b = string_records(v);
        let e = encode_utf8(v[0]);
        let n = e.len() as int;
        let tail = string_records(v.drop_first());
        assert(b.len() == 4 + n + tail.len());
        lemma_pow256_values();
        lemma_le_roundtrip(n, 4);
        assert(b.subrange(0, 4) =~= le_bytes(n, 4));
        assert(b.subrange(4, 4 + n) =~= e);
        assert(b.skip(4 + n) =~= tail);
        encode_utf8_valid_utf8(v[0]);
        encode_utf8_decode_utf8(v[0]);
        lemma_parse_records(v.drop_first());
        assert(seq![v[0]] + v.drop_first() =~= v);
    }
}

/// Reading a written string column gives its strings back, when its
/// compressed block reads back (which `write_string_column` ensures of what
/// it writes).
pub proof fn lemma_string_column_roundtrip(v: Seq<Seq<char>>, c: Seq<u8>)
    requires
        strings_storable(v),
        strings_readable(v, c),
    ensures
        read_strings_spec(string_column_bin(v, c)) == Some(v),
{
    lemma_parse_records(v);
    if v.len() > 0 {
        let raw = string_records(v);
        let bin = string_column_bin(v, c);
        lemma_pow256_values();
        lemma_le_roundtrip(c.len() as int, 4);
        assert(bin.subrange(1, 5) =~= le_bytes(c.len() as int, 4));
        assert(bin.subrange(5, 5 + c.len() as int) =~= c);
        assert(bin[0] == codec_tag_spec(Codec::Plain));
        assert(frame_value_bytes(bin[0], c, 1) == Some(raw));
    } else {
        assert(v =~= Seq::<Seq<char>>::empty());
    }
}

} // verus!
