//! Reading a fixed-width column back from its stored file: the frames are
//! split off one after the other, decompressed, decoded and turned back into
//! values.
use vstd::prelude::*;

use crate::bytes::{le_bytes, le_value, lemma_le_bytes_of_value, lemma_le_roundtrip, lemma_pow256_values, pow256, read_le};
use crate::encoding::{
    codec_decoded,
    codec_encoded,
    codec_of_tag,
    codec_tag_spec,
    decode_values,
    lemma_codec_roundtrip,
    lemma_values_bytes_concat,
    lemma_values_bytes_injective,
    lemma_values_bytes_len,
    values_bytes,
    Codec,
    Primitive,
};
use crate::catalog::schema::DataType;
use crate::storage::column_chunk::ColumnChunk;
use crate::storage::column_writer::{
    blocks_bytes,
    blocks_readable,
    bool_bytes,
    column_bin,
    column_marks,
    column_readable,
    first_block_rows,
    frame,
    rows_per_block_spec,
    stored_as,
    ColumnFile,
};
use crate::storage::table_writer::chunk_matches;
use crate::storage::string_column::{read_string_column, read_strings_spec, views_of};
use crate::storage::lz4::{lz4_decompress_size_prepended, lz4_decompressed};

verus! {

/// The value bytes of one frame's payload: `None` when the tag names no
/// codec, or the payload does not decompress, or does not decode into whole
/// values of `w` bytes.
pub open spec fn frame_value_bytes(tag: u8, payload: Seq<u8>, w: usize) -> Option<Seq<u8>> {
    match codec_of_tag(tag) {
        Some(c) => match lz4_decompressed(payload) {
            Some(enc) => match codec_decoded(c, enc, w) {
                Ok(raw) => Some(raw),
                Err(_) => None,
            },
            None => None,
        },
        None => None,
    }
}

/// The value bytes of the frames of `b`, one frame after the other; `None`
/// when `b` does not split into whole frames or a frame cannot be read.
pub open spec fn read_frames(b: Seq<u8>, w: usize) -> Option<Seq<u8>>
    decreases b.len(),
{
    if b.len() == 0 {
        Some(Seq::empty())
    } else if b.len() < 5 {
        None
    } else {
        let n = le_value(b.subrange(1, 5));
        if n < 0 || b.len() < 5 + n {
            None
        } else {
            match frame_value_bytes(b[0], b.subrange(5, 5 + n), w) {
                Some(raw) => match read_frames(b.skip(5 + n), w) {
                    Some(rest) => Some(raw + rest),
                    None => None,
                },
                None => None,
            }
        }
    }
}

pub open spec fn prefixed(a: Seq<u8>, o: Option<Seq<u8>>) -> Option<Seq<u8>> {
    match o {
        Some(x) => Some(a + x),
        None => None,
    }
}

/// The values stored in a column file, or `None` when the file is damaged.
pub fn read_column<T: Primitive>(bin: &[u8]) -> (r: Option<Vec<T>>)
    requires
        1 <= T::width_spec() <= 8,
    ensures
        match r {
            Some(v) => read_frames(bin@, T::width_spec() as usize) == Some(values_bytes(v@)),
            None => read_frames(bin@, T::width_spec() as usize) is None,
        },
        forall|vals: Seq<T>, codec: Codec, cs: Seq<Seq<u8>>|
            #![trigger column_bin(vals, codec, cs)]
            bin@ == column_bin(vals, codec, cs) && column_readable(vals, codec, cs) ==> (r matches Some(v) && v@
                == vals),
{
    let w = T::width();
    let len = bin.len();
    let mut out: Vec<T> = Vec::new();
    let mut pos: usize = 0;
    proof {
        assert(bin@.skip(0) =~= bin@);
        assert(values_bytes(out@) =~= Seq::<u8>::empty());
        match read_frames(bin@, w) {
            Some(x) => assert(Seq::<u8>::empty() + x =~= x),
            None => {},
        }
    }
    while pos < len
        invariant
            w == T::width_spec(),
            1 <= w <= 8,
            len == bin@.len(),
            pos <= len,
            read_frames(bin@, w) == prefixed(values_bytes(out@), read_frames(bin@.skip(pos as int), w)),
        decreases len - pos,
    {
        let ghost rest = bin@.skip(pos as int);
        if len - pos < 5 {
            proof { lemma_not_written::<T>(bin@); }
            return None;
        }
        let tag = bin[pos];
        let head = vstd::slice::slice_subrange(bin, pos + 1, pos + 5);
        let n64 = read_le(head);
        proof {
            assert(head@ =~= rest.subrange(1, 5));
            assert(rest[0] == tag);
            lemma_le_bytes_of_value(head@);
        }
        if ((len - pos - 5) as u64) < n64 {
            proof { lemma_not_written::<T>(bin@); }
            return None;
        }
        let n = n64 as usize;
        let payload = vstd::slice::slice_subrange(bin, pos + 5, pos + 5 + n);
        proof {
            assert(payload@ =~= rest.subrange(5, 5 + n));
            assert(rest.skip(5 + n) =~= bin@.skip(pos + 5 + n));
        }
        let codec = match Codec::from_tag(tag) {
            Some(c) => c,
            None => {
                proof { lemma_not_written::<T>(bin@); }
            return None;
            },
        };
        let enc = match lz4_decompress_size_prepended(payload) {
            Ok(d) => d,
            Err(_) => {
                proof { lemma_not_written::<T>(bin@); }
            return None;
            },
        };
        let mut raw: Vec<u8> = Vec::new();
        match codec.decode(enc.as_slice(), w, &mut raw) {
            Ok(()) => {},
            Err(_) => {
                proof { lemma_not_written::<T>(bin@); }
            return None;
            },
        }
        proof {
            assert(raw@ =~= Seq::<u8>::empty() + raw@);
            assert(raw@.len() % (w as nat) == 0) by {
                match codec {
                    Codec::Plain => {},
                }
            }
        }
        let ghost before = out@;
        decode_values(raw.as_slice(), &mut out);
        proof {
            match read_frames(bin@.skip(pos + 5 + n), w) {
                Some(x) => {
                    assert(values_bytes(before) + (raw@ + x) =~= values_bytes(out@) + x);
                },
                None => {},
            }
        }
        pos = pos + 5 + n;
    }
    proof {
        assert(bin@.skip(len as int) =~= Seq::<u8>::empty());
        assert(values_bytes(out@) + Seq::<u8>::empty() =~= values_bytes(out@));
        assert forall|vals: Seq<T>, codec: Codec, cs: Seq<Seq<u8>>|
            #![trigger column_bin(vals, codec, cs)]
            bin@ == column_bin(vals, codec, cs) && column_readable(vals, codec, cs) implies (Some(out) matches Some(v)
                && v@ == vals) by {
            lemma_column_roundtrip(vals, codec, cs);
            lemma_values_bytes_injective(out@, vals);
        }
    }
    Some(out)
}

/// A file that cannot be read is not one that `write_column` laid out.
proof fn lemma_not_written<T: Primitive>(b: Seq<u8>)
    requires
        1 <= T::width_spec() <= 8,
        read_frames(b, T::width_spec() as usize) is None,
    ensures
        forall|vals: Seq<T>, codec: Codec, cs: Seq<Seq<u8>>|
            #![trigger column_bin(vals, codec, cs)]
            !(b == column_bin(vals, codec, cs) && column_readable(vals, codec, cs)),
{
    assert forall|vals: Seq<T>, codec: Codec, cs: Seq<Seq<u8>>|
        #![trigger column_bin(vals, codec, cs)]
        !(b == column_bin(vals, codec, cs) && column_readable(vals, codec, cs)) by {
        if b == column_bin(vals, codec, cs) && column_readable(vals, codec, cs) {
            lemma_column_roundtrip(vals, codec, cs);
        }
    }
}

proof fn lemma_blocks_roundtrip<T: Primitive>(vals: Seq<T>, codec: Codec, r: nat, cs: Seq<Seq<u8>>)
    requires
        1 <= T::width_spec() <= 8,
        r > 0,
        blocks_readable(vals, codec, r, cs),
    ensures
        read_frames(blocks_bytes(vals, codec, r, cs), T::width_spec() as usize) == Some(values_bytes(vals)),
    decreases vals.len(),
{
    let w = T::width_spec() as usize;
    if vals.len() == 0 {
        assert(values_bytes(vals) =~= Seq::<u8>::empty());
    } else {
        let k = first_block_rows(vals.len(), r);
        let block = vals.take(k as int);
        let raw = values_bytes(block);
        let enc = codec_encoded(codec, raw);
        let c = cs[0];
        let f = frame(codec, c);
        let rest = blocks_bytes(vals.skip(k as int), codec, r, cs.drop_first());
        let b = blocks_bytes(vals, codec, r, cs);
        assert(b == f + rest);
        lemma_blocks_roundtrip(vals.skip(k as int), codec, r, cs.drop_first());
        lemma_values_bytes_len(block);
        assert((block.len() * T::width_spec()) % T::width_spec() == 0) by (nonlinear_arith)
            requires
                T::width_spec() > 0,
        ;
        lemma_codec_roundtrip(codec, raw, w);
        lemma_pow256_values();
        lemma_le_roundtrip(c.len() as int, 4);
        assert(b[0] == codec_tag_spec(codec));
        assert(b.subrange(1, 5) =~= le_bytes(c.len() as int, 4));
        assert(b.subrange(5, 5 + c.len() as int) =~= c);
        assert(b.skip(5 + c.len() as int) =~= rest);
        assert(frame_value_bytes(b[0], b.subrange(5, 5 + c.len() as int), w) == Some(raw));
        lemma_values_bytes_concat(block, vals.skip(k as int));
        assert(block + vals.skip(k as int) =~= vals);
    }
}

/// Reading the file that `write_column` lays out for `vals`, its blocks
/// compressed to `cs`, gives back the bytes of `vals`, when each of `cs`
/// decompresses to its block (which `write_column` ensures of what it writes).
pub proof fn lemma_column_roundtrip<T: Primitive>(vals: Seq<T>, codec: Codec, cs: Seq<Seq<u8>>)
    requires
        1 <= T::width_spec() <= 8,
        column_readable(vals, codec, cs),
    ensures
        read_frames(column_bin(vals, codec, cs), T::width_spec() as usize) == Some(values_bytes(vals)),
{
    crate::storage::column_writer::lemma_rows_per_block(T::width_spec());
    lemma_blocks_roundtrip(vals, codec, rows_per_block_spec(T::width_spec()), cs);
}

/// `a` and `b` hold the same values, in columns of the same type.
pub open spec fn same_values(a: ColumnChunk, b: ColumnChunk) -> bool {
    match (a, b) {
        (ColumnChunk::I8(x), ColumnChunk::I8(y)) => x@ == y@,
        (ColumnChunk::I16(x), ColumnChunk::I16(y)) => x@ == y@,
        (ColumnChunk::I32(x), ColumnChunk::I32(y)) => x@ == y@,
        (ColumnChunk::I64(x), ColumnChunk::I64(y)) => x@ == y@,
        (ColumnChunk::U8(x), ColumnChunk::U8(y)) => x@ == y@,
        (ColumnChunk::U16(x), ColumnChunk::U16(y)) => x@ == y@,
        (ColumnChunk::U32(x), ColumnChunk::U32(y)) => x@ == y@,
        (ColumnChunk::U64(x), ColumnChunk::U64(y)) => x@ == y@,
        (ColumnChunk::F32(x), ColumnChunk::F32(y)) => x@ == y@,
        (ColumnChunk::F64(x), ColumnChunk::F64(y)) => x@ == y@,
        (ColumnChunk::Bool(x), ColumnChunk::Bool(y)) => x@ == y@,
        (ColumnChunk::Str(x), ColumnChunk::Str(y)) => x@ == y@,
        _ => false,
    }
}

/// `r` is what reading the stored column `bin` of type `t` gives: the values
/// whose bytes the frames hold, booleans from bytes that are not zero; `None`
/// when the file cannot be read.
pub open spec fn chunk_read(bin: Seq<u8>, t: DataType, r: Option<ColumnChunk>) -> bool {
    match t {
        DataType::I8 => match r {
            Some(ColumnChunk::I8(v)) => read_frames(bin, 1) == Some(values_bytes(v@)),
            None => read_frames(bin, 1) is None,
            _ => false,
        },
        DataType::I16 => match r {
            Some(ColumnChunk::I16(v)) => read_frames(bin, 2) == Some(values_bytes(v@)),
            None => read_frames(bin, 2) is None,
            _ => false,
        },
        DataType::I32 => match r {
            Some(ColumnChunk::I32(v)) => read_frames(bin, 4) == Some(values_bytes(v@)),
            None => read_frames(bin, 4) is None,
            _ => false,
        },
        DataType::I64 => match r {
            Some(ColumnChunk::I64(v)) => read_frames(bin, 8) == Some(values_bytes(v@)),
            None => read_frames(bin, 8) is None,
            _ => false,
        },
        DataType::U8 => match r {
            Some(ColumnChunk::U8(v)) => read_frames(bin, 1) == Some(values_bytes(v@)),
            None => read_frames(bin, 1) is None,
            _ => false,
        },
        DataType::U16 => match r {
            Some(ColumnChunk::U16(v)) => read_frames(bin, 2) == Some(values_bytes(v@)),
            None => read_frames(bin, 2) is None,
            _ => false,
        },
        DataType::U32 => match r {
            Some(ColumnChunk::U32(v)) => read_frames(bin, 4) == Some(values_bytes(v@)),
            None => read_frames(bin, 4) is None,
            _ => false,
        },
        DataType::U64 => match r {
            Some(ColumnChunk::U64(v)) => read_frames(bin, 8) == Some(values_bytes(v@)),
            None => read_frames(bin, 8) is None,
            _ => false,
        },
        DataType::F32 => match r {
            Some(ColumnChunk::F32(v)) => read_frames(bin, 4) == Some(values_bytes(v@)),
            None => read_frames(bin, 4) is None,
            _ => false,
        },
        DataType::F64 => match r {
            Some(ColumnChunk::F64(v)) => read_frames(bin, 8) == Some(values_bytes(v@)),
            None => read_frames(bin, 8) is None,
            _ => false,
        },
        DataType::Bool => match r {
            Some(ColumnChunk::Bool(v)) => exists|u: Seq<u8>|
                #![trigger values_bytes(u)]
                read_frames(bin, 1) == Some(values_bytes(u)) && v@ == u.map_values(|x: u8| x != 0),
            None => read_frames(bin, 1) is None,
            _ => false,
        },
        DataType::Str => match r {
            Some(ColumnChunk::Str(v)) => read_strings_spec(bin) == Some(views_of(v@)),
            None => read_strings_spec(bin) is None,
            _ => false,
        },
    }
}

fn bytes_as_bools(u: Vec<u8>) -> (r: Vec<bool>)
    ensures
        r@ == u@.map_values(|x: u8| x != 0),
{
    let mut out: Vec<bool> = Vec::new();
    let mut i: usize = 0;
    while i < u.len()
        invariant
            i <= u@.len(),
            out@ == u@.take(i as int).map_values(|x: u8| x != 0),
        decreases u@.len() - i,
    {
        out.push(u[i] != 0);
        i = i + 1;
        assert(out@ =~= u@.take(i as int).map_values(|x: u8| x != 0));
    }
    assert(u@.take(u@.len() as int) =~= u@);
    out
}

/// The column of type `t` stored in `bin`. Reading the stored form that
/// `encode_column` gives for a column of that type gives the column back.
pub fn read_chunk(bin: &[u8], t: DataType) -> (r: Option<ColumnChunk>)
    ensures
        chunk_read(bin@, t, r),
        forall|c: ColumnChunk, codec: Codec, f: ColumnFile|
            #![trigger stored_as(c, codec, f)]
            stored_as(c, codec, f) && f.bin@ == bin@ && chunk_matches(c, t) ==> (r matches Some(
                d,
            ) && same_values(d, c)),
{
    match t {
        DataType::I8 => match read_column::<i8>(bin) {
            Some(v) => Some(ColumnChunk::I8(v)),
            None => None,
        },
        DataType::I16 => match read_column::<i16>(bin) {
            Some(v) => Some(ColumnChunk::I16(v)),
            None => None,
        },
        DataType::I32 => match read_column::<i32>(bin) {
            Some(v) => Some(ColumnChunk::I32(v)),
            None => None,
        },
        DataType::I64 => match read_column::<i64>(bin) {
            Some(v) => Some(ColumnChunk::I64(v)),
            None => None,
        },
        DataType::U8 => match read_column::<u8>(bin) {
            Some(v) => Some(ColumnChunk::U8(v)),
            None => None,
        },
        DataType::U16 => match read_column::<u16>(bin) {
            Some(v) => Some(ColumnChunk::U16(v)),
            None => None,
        },
        DataType::U32 => match read_column::<u32>(bin) {
            Some(v) => Some(ColumnChunk::U32(v)),
            None => None,
        },
        DataType::U64 => match read_column::<u64>(bin) {
            Some(v) => Some(ColumnChunk::U64(v)),
            None => None,
        },
        DataType::F32 => match read_column::<u32>(bin) {
            Some(v) => Some(ColumnChunk::F32(v)),
            None => None,
        },
        DataType::F64 => match read_column::<u64>(bin) {
            Some(v) => Some(ColumnChunk::F64(v)),
            None => None,
        },
        DataType::Bool => match read_column::<u8>(bin) {
            Some(u) => {
                let ghost uv = u@;
                let v = bytes_as_bools(u);
                proof {
                    assert forall|c: ColumnChunk, codec: Codec, f: ColumnFile|
                        #![trigger stored_as(c, codec, f)]
                        stored_as(c, codec, f) && f.bin@ == bin@ && chunk_matches(c, t)
                            implies same_values(ColumnChunk::Bool(v), c) by {
                        if let ColumnChunk::Bool(b) = c {
                            let cs = choose|cs: Seq<Seq<u8>>|
                                #![trigger column_bin(bool_bytes(b@), codec, cs)]
                                column_readable(bool_bytes(b@), codec, cs) && f.bin@ == column_bin(bool_bytes(b@), codec, cs)
                                    && f.marks@ == column_marks(bool_bytes(b@), codec, cs);
                            assert(bin@ == column_bin(bool_bytes(b@), codec, cs));
                            assert(uv == bool_bytes(b@));
                            assert(v@ =~= b@);
                        }
                    }
                }
                Some(ColumnChunk::Bool(v))
            },
            None => None,
        },
        DataType::Str => match read_string_column(bin) {
            Some(v) => Some(ColumnChunk::Str(v)),
            None => None,
        },
    }
}

} // verus!
