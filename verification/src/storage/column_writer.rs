//! The stored form of one fixed-width column of a part.
//!
//! Values are grouped into granules of `GRANULE_SIZE` rows, and granules into
//! blocks: a block is closed at the first granule boundary where it holds at
//! least `BLOCK_BUFFER_SIZE` bytes of values, and the last block takes what
//! is left. Each block is stored as a frame:
//!
//! ```text
//! [u8 codec tag][u32 LE compressed length][lz4 block, uncompressed size first]
//! ```
//!
//! One mark per granule gives the offset of its block's frame in the file and
//! the offset of its first value in the block's decoded bytes.
use vstd::prelude::*;

use crate::bytes::{le_bytes, push_le};
use crate::config::{BLOCK_BUFFER_SIZE, GRANULE_SIZE};
use crate::storage::column_chunk::ColumnChunk;
use crate::encoding::{codec_encoded, codec_tag_spec, encode_values, lemma_values_bytes_len, values_bytes, Codec, Primitive};
use crate::storage::lz4::{lz4_compress_prepend_size, lz4_decompressed};
use crate::storage::zone_map::{running_max, running_min, value_bounds, F32Order, F64Order, IntegerOrder, ValueOrder, ZoneMapEntry};

verus! {

/// Where a granule starts: the offset of its block's frame in the column file,
/// and the offset of its first value in the block's decoded bytes.
#[derive(Clone, Copy, Debug, PartialEq, Eq, Structural)]
pub struct Mark {
    pub block_offset: u64,
    pub decompressed_offset: u64,
}

/// The rows of a block of `w`-byte values: the fewest whole granules that
/// hold at least `BLOCK_BUFFER_SIZE` bytes.
pub open spec fn rows_per_block_spec(w: nat) -> nat {
    let gw: int = GRANULE_SIZE * w;
    (GRANULE_SIZE * ((BLOCK_BUFFER_SIZE + gw - 1) / gw)) as nat
}

/// A block is closed at the first granule boundary where it holds at least
/// `BLOCK_BUFFER_SIZE` bytes: one granule fewer would hold less.
pub proof fn lemma_rows_per_block(w: nat)
    requires
        1 <= w <= 8,
    ensures
        rows_per_block_spec(w) % (GRANULE_SIZE as nat) == 0,
        rows_per_block_spec(w) > 0,
        rows_per_block_spec(w) * w >= BLOCK_BUFFER_SIZE,
        (rows_per_block_spec(w) - GRANULE_SIZE) * w < BLOCK_BUFFER_SIZE,
        rows_per_block_spec(w) <= 8192,
{
    if w == 1 {
        assert((8192int + 512 - 1) / 512 == 16);
        assert(rows_per_block_spec(1) == 8192);
        assert(rows_per_block_spec(w) * w == 8192 * 1);
        assert((rows_per_block_spec(w) - GRANULE_SIZE) * w == 7680 * 1);
    } else if w == 2 {
        assert((8192int + 1024 - 1) / 1024 == 8);
        assert(rows_per_block_spec(2) == 4096);
        assert(rows_per_block_spec(w) * w == 4096 * 2);
        assert((rows_per_block_spec(w) - GRANULE_SIZE) * w == 3584 * 2);
    } else if w == 3 {
        assert((8192int + 1536 - 1) / 1536 == 6);
        assert(rows_per_block_spec(3) == 3072);
        assert(rows_per_block_spec(w) * w == 3072 * 3);
        assert((rows_per_block_spec(w) - GRANULE_SIZE) * w == 2560 * 3);
    } else if w == 4 {
        assert((8192int + 2048 - 1) / 2048 == 4);
        assert(rows_per_block_spec(4) == 2048);
        assert(rows_per_block_spec(w) * w == 2048 * 4);
        assert((rows_per_block_spec(w) - GRANULE_SIZE) * w == 1536 * 4);
    } else if w == 5 {
        assert((8192int + 2560 - 1) / 2560 == 4);
        assert(rows_per_block_spec(5) == 2048);
        assert(rows_per_block_spec(w) * w == 2048 * 5);
        assert((rows_per_block_spec(w) - GRANULE_SIZE) * w == 1536 * 5);
    } else if w == 6 {
        assert((8192int + 3072 - 1) / 3072 == 3);
        assert(rows_per_block_spec(6) == 1536);
        assert(rows_per_block_spec(w) * w == 1536 * 6);
        assert((rows_per_block_spec(w) - GRANULE_SIZE) * w == 1024 * 6);
    } else if w == 7 {
        assert((8192int + 3584 - 1) / 3584 == 3);
        assert(rows_per_block_spec(7) == 1536);
        assert(rows_per_block_spec(w) * w == 1536 * 7);
        assert((rows_per_block_spec(w) - GRANULE_SIZE) * w == 1024 * 7);
    } else {
        assert((8192int + 4096 - 1) / 4096 == 2);
        assert(rows_per_block_spec(8) == 1024);
        assert(rows_per_block_spec(w) * w == 1024 * 8);
        assert((rows_per_block_spec(w) - GRANULE_SIZE) * w == 512 * 8);
    }
}

fn rows_per_block(w: usize) -> (r: usize)
    requires
        1 <= w <= 8,
    ensures
        r == rows_per_block_spec(w as nat),
{
    let gw = GRANULE_SIZE * w;
    GRANULE_SIZE * ((BLOCK_BUFFER_SIZE + gw - 1) / gw)
}

/// `c` is a compressed form of the block bytes `enc` as a frame holds it: it
/// fits the frame's 32-bit length field and decompresses to `enc`.
pub open spec fn block_of(enc: Seq<u8>, c: Seq<u8>) -> bool {
    c.len() <= u32::MAX && lz4_decompressed(c) == Some(enc)
}

/// The stored frame of a block whose compressed form is `c`.
pub open spec fn frame(codec: Codec, c: Seq<u8>) -> Seq<u8> {
    seq![codec_tag_spec(codec)] + le_bytes(c.len() as int, 4) + c
}

/// The marks of a block of `rows` values of `w` bytes whose frame starts at
/// `offset`: one per granule.
pub open spec fn granule_marks(rows: nat, w: nat, offset: int) -> Seq<Mark> {
    Seq::new(
        ((rows + GRANULE_SIZE - 1) / (GRANULE_SIZE as int)) as nat,
        |j: int| Mark { block_offset: offset as u64, decompressed_offset: (j * GRANULE_SIZE * w) as u64 },
    )
}

/// The rows of the first block of `vals` cut into blocks of `r` rows.
pub open spec fn first_block_rows(n: nat, r: nat) -> nat {
    if r <= n {
        r
    } else {
        n
    }
}

/// The frames of `vals` cut into consecutive blocks of `r` rows, the last
/// possibly shorter, block `i` compressed to `cs[i]`.
pub open spec fn blocks_bytes<T: Primitive>(vals: Seq<T>, codec: Codec, r: nat, cs: Seq<Seq<u8>>) -> Seq<u8>
    decreases vals.len(),
{
    if vals.len() == 0 || r == 0 {
        Seq::empty()
    } else {
        let k = first_block_rows(vals.len(), r);
        frame(codec, cs[0]) + blocks_bytes(vals.skip(k as int), codec, r, cs.drop_first())
    }
}

/// The marks of the same blocks, the first frame starting at `offset`.
pub open spec fn blocks_marks<T: Primitive>(vals: Seq<T>, codec: Codec, r: nat, offset: int, cs: Seq<Seq<u8>>) -> Seq<Mark>
    decreases vals.len(),
{
    if vals.len() == 0 || r == 0 {
        Seq::empty()
    } else {
        let k = first_block_rows(vals.len(), r);
        granule_marks(k, T::width_spec(), offset) + blocks_marks(
            vals.skip(k as int),
            codec,
            r,
            offset + frame(codec, cs[0]).len(),
            cs.drop_first(),
        )
    }
}

/// `cs` holds one compressed form per block, each of the block's encoded
/// bytes (see `block_of`).
pub open spec fn blocks_readable<T: Primitive>(vals: Seq<T>, codec: Codec, r: nat, cs: Seq<Seq<u8>>) -> bool
    decreases vals.len(),
{
    if vals.len() == 0 || r == 0 {
        cs.len() == 0
    } else {
        let k = first_block_rows(vals.len(), r);
        &&& cs.len() > 0
        &&& block_of(codec_encoded(codec, values_bytes(vals.take(k as int))), cs[0])
        &&& blocks_readable(vals.skip(k as int), codec, r, cs.drop_first())
    }
}

/// `cs` are compressed forms of the blocks of the column file of `vals`.
pub open spec fn column_readable<T: Primitive>(vals: Seq<T>, codec: Codec, cs: Seq<Seq<u8>>) -> bool {
    blocks_readable(vals, codec, rows_per_block_spec(T::width_spec()), cs)
}

/// The column file of `vals`, its blocks compressed to `cs`.
pub open spec fn column_bin<T: Primitive>(vals: Seq<T>, codec: Codec, cs: Seq<Seq<u8>>) -> Seq<u8> {
    blocks_bytes(vals, codec, rows_per_block_spec(T::width_spec()), cs)
}

/// The marks of `vals`, one per granule in order, its blocks compressed to `cs`.
pub open spec fn column_marks<T: Primitive>(vals: Seq<T>, codec: Codec, cs: Seq<Seq<u8>>) -> Seq<Mark> {
    blocks_marks(vals, codec, rows_per_block_spec(T::width_spec()), 0, cs)
}

/// `bin` and `marks` are the column file and marks of `vals`, for some
/// compressed forms of its blocks.
pub open spec fn column_written<T: Primitive>(vals: Seq<T>, codec: Codec, bin: Seq<u8>, marks: Seq<Mark>) -> bool {
    exists|cs: Seq<Seq<u8>>|
        #![trigger column_bin(vals, codec, cs)]
        column_readable(vals, codec, cs) && bin == column_bin(vals, codec, cs) && marks == column_marks(vals, codec, cs)
}

/// The marks of blocks of `r` rows, `r` a whole number of granules: one
/// mark per granule, each giving the granule's first value's place in its
/// block's decoded bytes.
proof fn lemma_blocks_marks<T: Primitive>(vals: Seq<T>, codec: Codec, r: nat, offset: int, cs: Seq<Seq<u8>>)
    requires
        r > 0,
        r % 512 == 0,
        r <= 8192,
        1 <= T::width_spec() <= 8,
    ensures
        blocks_marks(vals, codec, r, offset, cs).len() == (vals.len() + 511) / 512,
        forall|j: int|
            0 <= j < blocks_marks(vals, codec, r, offset, cs).len() ==> (#[trigger] blocks_marks(vals, codec, r, offset, cs)[j]).decompressed_offset
                == ((j * 512) % (r as int)) * T::width_spec(),
    decreases vals.len(),
{
    let w = T::width_spec();
    if vals.len() > 0 {
        let n = vals.len();
        let k: nat = first_block_rows(n, r);
        let g = granule_marks(k, w, offset);
        let next = offset + frame(codec, cs[0]).len();
        let rest = blocks_marks(vals.skip(k as int), codec, r, next, cs.drop_first());
        lemma_blocks_marks(vals.skip(k as int), codec, r, next, cs.drop_first());
        assert(blocks_marks(vals, codec, r, offset, cs) == g + rest);
        assert(g.len() == (k + 511) / 512);
        assert((k + 511) / 512 <= r / 512) by (nonlinear_arith)
            requires
                k <= r,
                r % 512 == 0,
        ;
        if k < r {
            assert(vals.skip(k as int).len() == 0);
            assert(rest.len() == 0);
        } else {
            assert((r + 511) / 512 == r / 512) by (nonlinear_arith)
                requires
                    r % 512 == 0,
            ;
            assert((n + 511) / 512 == r / 512 + (n - r + 511) / 512) by (nonlinear_arith)
                requires
                    r % 512 == 0,
                    r <= n,
            ;
        }
        assert forall|j: int| 0 <= j < g.len() + rest.len() implies (#[trigger] (g + rest)[j]).decompressed_offset
            == ((j * 512) % (r as int)) * w by {
            if j < g.len() {
                assert(j * 512 < r) by (nonlinear_arith)
                    requires
                        0 <= j < (k + 511) / 512,
                        (k + 511) / 512 <= r / 512,
                        r % 512 == 0,
                ;
                assert((j * 512) % (r as int) == j * 512) by (nonlinear_arith)
                    requires
                        0 <= j * 512 < r,
                ;
                assert(j * GRANULE_SIZE * w == (j * 512) * w);
                assert(0 <= (j * 512) * w < 0x1_0000_0000) by (nonlinear_arith)
                    requires
                        0 <= j * 512 < r,
                        r <= 8192,
                        w <= 8,
                ;
            } else {
                let jj = j - g.len();
                assert(g.len() == r / 512);
                assert(j * 512 == jj * 512 + r) by (nonlinear_arith)
                    requires
                        jj == j - r / 512,
                        r % 512 == 0,
                ;
                assert((j * 512) % (r as int) == (jj * 512) % (r as int)) by (nonlinear_arith)
                    requires
                        j * 512 == jj * 512 + r,
                        r > 0,
                        jj >= 0,
                ;
                assert(rest[jj].decompressed_offset == ((jj * 512) % (r as int)) * w);
            }
        }
    }
}

/// One mark per granule: the marks of a column of `n` values number
/// `ceil(n / 512)`, and mark `j` gives the place of row `512 * j`'s bytes in
/// the decoded bytes of its block.
pub proof fn lemma_one_mark_per_granule<T: Primitive>(vals: Seq<T>, codec: Codec, cs: Seq<Seq<u8>>)
    requires
        1 <= T::width_spec() <= 8,
    ensures
        column_marks(vals, codec, cs).len() == (vals.len() + GRANULE_SIZE - 1) / (GRANULE_SIZE as int),
        forall|j: int|
            0 <= j < column_marks(vals, codec, cs).len() ==> (#[trigger] column_marks(vals, codec, cs)[j]).decompressed_offset
                == ((j * GRANULE_SIZE) % (rows_per_block_spec(T::width_spec()) as int)) * T::width_spec(),
{
    lemma_rows_per_block(T::width_spec());
    lemma_blocks_marks(vals, codec, rows_per_block_spec(T::width_spec()), 0, cs);
}

/// Appends the marks of one block of `rows` values starting at `offset`.
fn push_granule_marks(marks: &mut Vec<Mark>, rows: usize, w: usize, block_offset: u64)
    requires
        1 <= w <= 8,
        rows <= 8192,
    ensures
        final(marks)@ == old(marks)@ + granule_marks(rows as nat, w as nat, block_offset as int),
{
    let ghost start = marks@;
    let mut g: usize = 0;
    let mut j: usize = 0;
    while g < rows
        invariant
            1 <= w <= 8,
            rows <= 8192,
            g == j * GRANULE_SIZE,
            g < rows + GRANULE_SIZE,
            marks@ == start + Seq::new(
                j as nat,
                |i: int| Mark { block_offset: block_offset as int as u64, decompressed_offset: (i * GRANULE_SIZE * w) as u64 },
            ),
        decreases rows + GRANULE_SIZE - g,
    {
        assert(g * w <= 8704 * 8) by (nonlinear_arith)
            requires
                g < 8192 + 512,
                w <= 8,
        ;
        assert(j * GRANULE_SIZE * w == g * w) by (nonlinear_arith)
            requires
                g == j * GRANULE_SIZE,
        ;
        marks.push(Mark { block_offset, decompressed_offset: (g * w) as u64 });
        g = g + GRANULE_SIZE;
        j = j + 1;
        assert(marks@ =~= start + Seq::new(
            j as nat,
            |i: int| Mark { block_offset: block_offset as int as u64, decompressed_offset: (i * GRANULE_SIZE * w) as u64 },
        ));
    }
    assert(j == (rows + GRANULE_SIZE - 1) / (GRANULE_SIZE as int));
    assert(marks@ =~= start + granule_marks(rows as nat, w as nat, block_offset as int));
}

/// The stored file of a column and its marks.
pub struct ColumnFile {
    pub bin: Vec<u8>,
    pub marks: Vec<Mark>,
}

/// Lays out `values` as a column file: blocks of whole granules, each framed
/// and compressed, and one mark per granule. Also gives the column's bounds
/// in the order `O`: `None` when there are no values.
pub fn write_column<T: Primitive, O: ValueOrder<T>>(values: &[T], codec: Codec) -> (r: (ColumnFile, Option<ZoneMapEntry<T>>))
    requires
        1 <= T::width_spec() <= 8,
    ensures
        column_written(values@, codec, r.0.bin@, r.0.marks@),
        r.0.marks@.len() == (values@.len() + GRANULE_SIZE - 1) / (GRANULE_SIZE as int),
        values@.len() == 0 <==> r.1 is None,
        r.1 matches Some(z) ==> {
            &&& z.min == running_min::<T, O>(values@)
            &&& z.max == running_max::<T, O>(values@)
            &&& values@.contains(z.min)
            &&& values@.contains(z.max)
        },
{
    let w = T::width();
    let rpb = rows_per_block(w);
    proof { lemma_rows_per_block(w as nat); }
    let n = values.len();
    let mut bin: Vec<u8> = Vec::new();
    let mut marks: Vec<Mark> = Vec::new();
    let mut start: usize = 0;
    let ghost mut done: Seq<Seq<u8>> = Seq::empty();
    proof {
        assert(values@.skip(0) =~= values@);
        assert forall|rest: Seq<Seq<u8>>| #![trigger blocks_bytes(values@.skip(0), codec, rpb as nat, rest)]
            blocks_bytes(values@, codec, rpb as nat, done + rest) == bin@ + blocks_bytes(values@.skip(0), codec, rpb as nat, rest)
            && blocks_marks(values@, codec, rpb as nat, 0, done + rest) == marks@ + blocks_marks(values@.skip(0), codec, rpb as nat, bin@.len() as int, rest)
            && blocks_readable(values@, codec, rpb as nat, done + rest) == blocks_readable(values@.skip(0), codec, rpb as nat, rest) by {
            assert(done + rest =~= rest);
            assert(bin@ + blocks_bytes(values@, codec, rpb as nat, rest) =~= blocks_bytes(values@, codec, rpb as nat, rest));
            assert(marks@ + blocks_marks(values@, codec, rpb as nat, 0, rest) =~= blocks_marks(values@, codec, rpb as nat, 0, rest));
        }
    }
    while start < n
        invariant
            w == T::width_spec(),
            1 <= w <= 8,
            rpb == rows_per_block_spec(w as nat),
            0 < rpb <= 8192,
            n == values@.len(),
            start <= n,
            forall|rest: Seq<Seq<u8>>| #![trigger blocks_bytes(values@.skip(start as int), codec, rpb as nat, rest)]
                blocks_bytes(values@, codec, rpb as nat, done + rest) == bin@ + blocks_bytes(values@.skip(start as int), codec, rpb as nat, rest)
                && blocks_marks(values@, codec, rpb as nat, 0, done + rest) == marks@ + blocks_marks(values@.skip(start as int), codec, rpb as nat, bin@.len() as int, rest)
                && blocks_readable(values@, codec, rpb as nat, done + rest) == blocks_readable(values@.skip(start as int), codec, rpb as nat, rest),
        decreases n - start,
    {
        let end = if n - start > rpb {
            start + rpb
        } else {
            n
        };
        let ghost rest = values@.skip(start as int);
        let ghost k = (end - start) as int;
        proof {
            assert(rest.take(k) =~= values@.subrange(start as int, end as int));
            assert(rest.skip(k) =~= values@.skip(end as int));
            assert(k == first_block_rows(rest.len(), rpb as nat));
        }
        let block_offset = bin.len() as u64;
        let ghost before = bin@;
        let ghost marks_before = marks@;
        push_granule_marks(&mut marks, end - start, w, block_offset);
        let mut raw: Vec<u8> = Vec::new();
        encode_values(values, start, end, &mut raw);
        proof {
            assert(raw@ =~= values_bytes(values@.subrange(start as int, end as int)));
            lemma_values_bytes_len(values@.subrange(start as int, end as int));
            assert((end - start) * w <= 8192 * 8) by (nonlinear_arith)
                requires
                    end - start <= 8192,
                    w <= 8,
            ;
        }
        let mut encoded: Vec<u8> = Vec::new();
        codec.encode(raw.as_slice(), w, &mut encoded);
        proof {
            assert(encoded@ == codec_encoded(codec, raw@));
            assert(encoded@.len() == raw@.len()) by {
                match codec {
                    Codec::Plain => {},
                }
            }
        }
        let compressed = lz4_compress_prepend_size(encoded.as_slice());
        bin.push(codec.tag());
        push_le(&mut bin, compressed.len() as u64, 4);
        let mut i: usize = 0;
        let ghost mid = bin@;
        while i < compressed.len()
            invariant
                i <= compressed@.len(),
                bin@ == mid + compressed@.take(i as int),
            decreases compressed@.len() - i,
        {
            bin.push(compressed[i]);
            i = i + 1;
            assert(bin@ =~= mid + compressed@.take(i as int));
        }
        proof {
            let c = compressed@;
            assert(c.take(c.len() as int) =~= c);
            let f = frame(codec, c);
            assert(bin@ =~= before + f);
            assert(block_of(codec_encoded(codec, values_bytes(rest.take(k))), c));
            let old_done = done;
            done = done.push(c);
            assert forall|tail: Seq<Seq<u8>>| #![trigger blocks_bytes(values@.skip(end as int), codec, rpb as nat, tail)]
                blocks_bytes(values@, codec, rpb as nat, done + tail) == bin@ + blocks_bytes(values@.skip(end as int), codec, rpb as nat, tail)
                && blocks_marks(values@, codec, rpb as nat, 0, done + tail) == marks@ + blocks_marks(values@.skip(end as int), codec, rpb as nat, bin@.len() as int, tail)
                && blocks_readable(values@, codec, rpb as nat, done + tail) == blocks_readable(values@.skip(end as int), codec, rpb as nat, tail) by {
                let cs2 = seq![c] + tail;
                assert(done + tail =~= old_done + cs2);
                assert(cs2[0] == c);
                assert(cs2.drop_first() =~= tail);
                assert(blocks_bytes(rest, codec, rpb as nat, cs2) == f + blocks_bytes(rest.skip(k), codec, rpb as nat, tail));
                assert(blocks_marks(rest, codec, rpb as nat, before.len() as int, cs2) == granule_marks(k as nat, w as nat, before.len() as int)
                    + blocks_marks(rest.skip(k), codec, rpb as nat, (before.len() + f.len()) as int, tail));
                assert(blocks_readable(rest, codec, rpb as nat, cs2) == blocks_readable(rest.skip(k), codec, rpb as nat, tail));
                assert(block_offset as int as u64 == before.len() as u64);
                assert(marks@ == marks_before + granule_marks(k as nat, w as nat, before.len() as int));
                assert(blocks_bytes(values@, codec, rpb as nat, old_done + cs2) == before + blocks_bytes(rest, codec, rpb as nat, cs2));
                assert(blocks_marks(values@, codec, rpb as nat, 0, old_done + cs2) == marks_before + blocks_marks(rest, codec, rpb as nat, before.len() as int, cs2));
                assert(blocks_readable(values@, codec, rpb as nat, old_done + cs2) == blocks_readable(rest, codec, rpb as nat, cs2));
                assert(before + (f + blocks_bytes(rest.skip(k), codec, rpb as nat, tail)) =~= bin@ + blocks_bytes(rest.skip(k), codec, rpb as nat, tail));
                assert(marks_before + (granule_marks(k as nat, w as nat, before.len() as int) + blocks_marks(rest.skip(k), codec, rpb as nat, (before.len() + f.len()) as int, tail))
                    =~= marks@ + blocks_marks(rest.skip(k), codec, rpb as nat, bin@.len() as int, tail));
            }
        }
        start = end;
    }
    proof {
        assert(values@.skip(n as int) =~= Seq::<T>::empty());
        let e = Seq::<Seq<u8>>::empty();
        assert(blocks_bytes(values@.skip(n as int), codec, rpb as nat, e) == Seq::<u8>::empty());
        assert(done + e =~= done);
        assert(bin@ + Seq::<u8>::empty() =~= bin@);
        assert(marks@ + Seq::<Mark>::empty() =~= marks@);
        assert(column_readable(values@, codec, done) && bin@ == column_bin(values@, codec, done) && marks@ == column_marks(values@, codec, done));
        lemma_one_mark_per_granule(values@, codec, done);
    }
    let zone = value_bounds::<T, O>(values);
    (ColumnFile { bin, marks }, zone)
}

/// The stored form of a mark: its two offsets as little-endian `u64`s.
pub open spec fn mark_bytes(m: Mark) -> Seq<u8> {
    le_bytes(m.block_offset as int, 8) + le_bytes(m.decompressed_offset as int, 8)
}

pub open spec fn marks_bytes(ms: Seq<Mark>) -> Seq<u8>
    decreases ms.len(),
{
    if ms.len() == 0 {
        Seq::empty()
    } else {
        marks_bytes(ms.drop_last()) + mark_bytes(ms.last())
    }
}

/// The contents of a mark file.
pub fn encode_marks(marks: &[Mark]) -> (r: Vec<u8>)
    ensures
        r@ == marks_bytes(marks@),
{
    let mut out: Vec<u8> = Vec::new();
    let mut i: usize = 0;
    while i < marks.len()
        invariant
            i <= marks@.len(),
            out@ == marks_bytes(marks@.take(i as int)),
        decreases marks@.len() - i,
    {
        proof {
            assert(marks@.take(i + 1).drop_last() =~= marks@.take(i as int));
        }
        push_le(&mut out, marks[i].block_offset, 8);
        push_le(&mut out, marks[i].decompressed_offset, 8);
        i = i + 1;
        assert(out@ =~= marks_bytes(marks@.take(i as int)));
    }
    assert(marks@.take(marks@.len() as int) =~= marks@);
    out
}

/// A boolean is stored as one byte, 1 for true and 0 for false.
pub open spec fn bool_bytes(v: Seq<bool>) -> Seq<u8> {
    Seq::new(
        v.len(),
        |i: int|
            if v[i] {
                1u8
            } else {
                0u8
            },
    )
}

fn bools_as_bytes(v: &Vec<bool>) -> (r: Vec<u8>)
    ensures
        r@ == bool_bytes(v@),
{
    let mut out: Vec<u8> = Vec::new();
    let mut i: usize = 0;
    while i < v.len()
        invariant
            i <= v@.len(),
            out@ == bool_bytes(v@.take(i as int)),
        decreases v@.len() - i,
    {
        out.push(if v[i] { 1u8 } else { 0u8 });
        i = i + 1;
        assert(out@ =~= bool_bytes(v@.take(i as int)));
    }
    assert(v@.take(v@.len() as int) =~= v@);
    out
}

/// `f` is the stored form of a fixed-width column `chunk`, for some
/// compressed forms of its blocks; float columns are stored by their bit
/// patterns, which are their little-endian bytes.
pub open spec fn stored_as(chunk: ColumnChunk, codec: Codec, f: ColumnFile) -> bool {
    match chunk {
        ColumnChunk::I8(v) => column_written(v@, codec, f.bin@, f.marks@),
        ColumnChunk::I16(v) => column_written(v@, codec, f.bin@, f.marks@),
        ColumnChunk::I32(v) => column_written(v@, codec, f.bin@, f.marks@),
        ColumnChunk::I64(v) => column_written(v@, codec, f.bin@, f.marks@),
        ColumnChunk::U8(v) => column_written(v@, codec, f.bin@, f.marks@),
        ColumnChunk::U16(v) => column_written(v@, codec, f.bin@, f.marks@),
        ColumnChunk::U32(v) => column_written(v@, codec, f.bin@, f.marks@),
        ColumnChunk::U64(v) => column_written(v@, codec, f.bin@, f.marks@),
        ColumnChunk::F32(v) => column_written(v@, codec, f.bin@, f.marks@),
        ColumnChunk::F64(v) => column_written(v@, codec, f.bin@, f.marks@),
        ColumnChunk::Bool(v) => column_written(bool_bytes(v@), codec, f.bin@, f.marks@),
        ColumnChunk::Str(_) => false,
    }
}

/// The stored form of a fixed-width column; `None` for a string column,
/// which has a layout of its own.
pub fn encode_column(chunk: &ColumnChunk, codec: Codec) -> (r: Option<ColumnFile>)
    ensures
        match r {
            Some(f) => stored_as(*chunk, codec, f),
            None => chunk is Str,
        },
{
    match chunk {
        ColumnChunk::I8(v) => Some(write_column::<i8, IntegerOrder>(v.as_slice(), codec).0),
        ColumnChunk::I16(v) => Some(write_column::<i16, IntegerOrder>(v.as_slice(), codec).0),
        ColumnChunk::I32(v) => Some(write_column::<i32, IntegerOrder>(v.as_slice(), codec).0),
        ColumnChunk::I64(v) => Some(write_column::<i64, IntegerOrder>(v.as_slice(), codec).0),
        ColumnChunk::U8(v) => Some(write_column::<u8, IntegerOrder>(v.as_slice(), codec).0),
        ColumnChunk::U16(v) => Some(write_column::<u16, IntegerOrder>(v.as_slice(), codec).0),
        ColumnChunk::U32(v) => Some(write_column::<u32, IntegerOrder>(v.as_slice(), codec).0),
        ColumnChunk::U64(v) => Some(write_column::<u64, IntegerOrder>(v.as_slice(), codec).0),
        ColumnChunk::F32(v) => Some(write_column::<u32, F32Order>(v.as_slice(), codec).0),
        ColumnChunk::F64(v) => Some(write_column::<u64, F64Order>(v.as_slice(), codec).0),
        ColumnChunk::Bool(v) => {
            let bytes = bools_as_bytes(v);
            Some(write_column::<u8, IntegerOrder>(bytes.as_slice(), codec).0)
        },
        ColumnChunk::Str(_) => None,
    }
}

} // verus!
