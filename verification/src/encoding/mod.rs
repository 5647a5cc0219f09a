//! Byte encodings of column values: fixed-width primitives serialise to
//! their little-endian two's-complement bytes, and a codec turns a block of
//! such bytes into its stored form and back.
use vstd::prelude::*;

use crate::bytes::{le_bytes, le_value, lemma_le_bytes_of_value, lemma_le_roundtrip, lemma_pow256_values, pow256, push_le, read_le, twos_complement};

pub mod plain;

verus! {

#[derive(Debug, PartialEq, Eq, Structural)]
pub enum EncodingError {
    /// The stride cannot divide a byte stream (it is zero).
    UnsupportedStride(usize),
    /// The byte stream does not hold a whole number of values.
    Truncated,
}

/// A fixed-width value with a little-endian byte form.
pub trait Primitive: Sized + Copy {
    /// The number of bytes of one value.
    spec fn width_spec() -> nat;

    /// The value's bytes: its two's-complement pattern, least significant byte first.
    spec fn le_bytes_spec(self) -> Seq<u8>;

    const WIDTH: usize;

    fn width() -> (r: usize)
        ensures
            r == Self::width_spec(),
    ;

    /// Appends the value's bytes to `out`.
    fn encode_le(&self, out: &mut Vec<u8>)
        ensures
            final(out)@ == old(out)@ + self.le_bytes_spec(),
    ;

    /// The value whose bytes are `bytes`.
    fn decode_le(bytes: &[u8]) -> (r: Self)
        requires
            bytes@.len() == Self::width_spec(),
        ensures
            r.le_bytes_spec() == bytes@,
    ;

    proof fn lemma_le_bytes_len(x: Self)
        ensures
            x.le_bytes_spec().len() == Self::width_spec(),
    ;

    /// Different values have different bytes, so decoding the bytes of a
    /// value gives the value back.
    proof fn lemma_le_bytes_injective(x: Self, y: Self)
        requires
            x.le_bytes_spec() == y.le_bytes_spec(),
        ensures
            x == y,
    ;
}

/// The bytes of a run of values, one after the other.
pub open spec fn values_bytes<T: Primitive>(s: Seq<T>) -> Seq<u8>
    decreases s.len(),
{
    if s.len() == 0 {
        Seq::empty()
    } else {
        values_bytes(s.drop_last()) + s.last().le_bytes_spec()
    }
}

/// Appends the bytes of `vals[start..end]` to `out`.
pub fn encode_values<T: Primitive>(vals: &[T], start: usize, end: usize, out: &mut Vec<u8>)
    requires
        start <= end <= vals@.len(),
    ensures
        final(out)@ == old(out)@ + values_bytes(vals@.subrange(start as int, end as int)),
{
    let mut i = start;
    while i < end
        invariant
            start <= i <= end <= vals@.len(),
            out@ == old(out)@ + values_bytes(vals@.subrange(start as int, i as int)),
        decreases end - i,
    {
        proof {
            assert(vals@.subrange(start as int, i + 1).drop_last() =~= vals@.subrange(start as int, i as int));
        }
        vals[i].encode_le(out);
        i = i + 1;
        proof {
            assert(out@ =~= old(out)@ + values_bytes(vals@.subrange(start as int, i as int)));
        }
    }
}

/// How a block of value bytes is transformed before compression.
#[derive(Clone, Copy, Debug, PartialEq, Eq, Structural)]
pub enum Codec {
    /// The bytes as they are.
    Plain,
}

/// The byte that names the codec in front of each stored block.
pub open spec fn codec_tag_spec(c: Codec) -> u8 {
    match c {
        Codec::Plain => 0,
    }
}

/// The encoded form of a block of value bytes.
pub open spec fn codec_encoded(c: Codec, raw: Seq<u8>) -> Seq<u8> {
    match c {
        Codec::Plain => raw,
    }
}

impl Codec {
    pub fn tag(&self) -> (r: u8)
        ensures
            r == codec_tag_spec(*self),
    {
        match self {
            Codec::Plain => 0,
        }
    }

    /// Appends the encoded form of `src`, a run of values of `stride` bytes each.
    pub fn encode(&self, src: &[u8], stride: usize, out: &mut Vec<u8>)
        requires
            stride > 0,
        ensures
            final(out)@ == old(out)@ + codec_encoded(*self, src@),
    {
        match self {
            Codec::Plain => plain::encode(src, stride, out),
        }
    }
}

/// The codec that a stored tag names.
pub open spec fn codec_of_tag(tag: u8) -> Option<Codec> {
    if tag == 0 {
        Some(Codec::Plain)
    } else {
        None
    }
}

/// What decoding `enc` with codec `c` gives, for values of `stride` bytes.
pub open spec fn codec_decoded(c: Codec, enc: Seq<u8>, stride: usize) -> Result<Seq<u8>, EncodingError> {
    match c {
        Codec::Plain => plain::decode_spec(enc, stride),
    }
}

/// Each codec decodes what it encoded, for whole values.
pub proof fn lemma_codec_roundtrip(c: Codec, raw: Seq<u8>, stride: usize)
    requires
        stride > 0,
        raw.len() % (stride as nat) == 0,
    ensures
        codec_decoded(c, codec_encoded(c, raw), stride) == Ok::<Seq<u8>, EncodingError>(raw),
        codec_of_tag(codec_tag_spec(c)) == Some(c),
{
    match c {
        Codec::Plain => plain::lemma_plain_roundtrip(raw, stride),
    }
}

impl Codec {
    pub fn from_tag(tag: u8) -> (r: Option<Codec>)
        ensures
            r == codec_of_tag(tag),
    {
        if tag == 0 {
            Some(Codec::Plain)
        } else {
            None
        }
    }

    /// Appends the decoded form of `src` to `out`, or reports why it cannot
    /// be decoded and leaves `out` as it was.
    pub fn decode(&self, src: &[u8], stride: usize, out: &mut Vec<u8>) -> (r: Result<(), EncodingError>)
        ensures
            match codec_decoded(*self, src@, stride) {
                Ok(bytes) => r is Ok && final(out)@ == old(out)@ + bytes,
                Err(e) => r == Err::<(), EncodingError>(e) && final(out)@ == old(out)@,
            },
    {
        match self {
            Codec::Plain => plain::decode(src, stride, out),
        }
    }
}

/// The bytes of two runs are the bytes of the first, then of the second.
pub proof fn lemma_values_bytes_concat<T: Primitive>(a: Seq<T>, b: Seq<T>)
    ensures
        values_bytes(a + b) == values_bytes(a) + values_bytes(b),
    decreases b.len(),
{
    if b.len() == 0 {
        assert(a + b =~= a);
        assert(values_bytes(a) + values_bytes(b) =~= values_bytes(a));
    } else {
        lemma_values_bytes_concat(a, b.drop_last());
        assert((a + b).drop_last() =~= a + b.drop_last());
        assert(values_bytes(a + b) =~= values_bytes(a) + values_bytes(b));
    }
}

/// The bytes of a run are `width` bytes per value.
pub proof fn lemma_values_bytes_len<T: Primitive>(s: Seq<T>)
    ensures
        values_bytes(s).len() == s.len() * T::width_spec(),
    decreases s.len(),
{
    if s.len() > 0 {
        lemma_values_bytes_len(s.drop_last());
        T::lemma_le_bytes_len(s.last());
        assert((s.len() - 1) * T::width_spec() + T::width_spec() == s.len() * T::width_spec()) by (nonlinear_arith);
    }
}

/// Two runs with the same bytes are the same run.
pub proof fn lemma_values_bytes_injective<T: Primitive>(a: Seq<T>, b: Seq<T>)
    requires
        T::width_spec() > 0,
        values_bytes(a) == values_bytes(b),
    ensures
        a == b,
    decreases a.len(),
{
    lemma_values_bytes_len(a);
    lemma_values_bytes_len(b);
    assert(a.len() == b.len()) by (nonlinear_arith)
        requires
            a.len() * T::width_spec() == b.len() * T::width_spec(),
            T::width_spec() > 0,
    ;
    if a.len() > 0 {
        let w = T::width_spec();
        let va = values_bytes(a.drop_last());
        let vb = values_bytes(b.drop_last());
        lemma_values_bytes_len(a.drop_last());
        lemma_values_bytes_len(b.drop_last());
        T::lemma_le_bytes_len(a.last());
        T::lemma_le_bytes_len(b.last());
        assert(values_bytes(a) == va + a.last().le_bytes_spec());
        assert(values_bytes(b) == vb + b.last().le_bytes_spec());
        assert(va =~= values_bytes(a).take(va.len() as int));
        assert(vb =~= values_bytes(b).take(va.len() as int));
        assert(a.last().le_bytes_spec() =~= values_bytes(a).skip(va.len() as int));
        assert(b.last().le_bytes_spec() =~= values_bytes(b).skip(va.len() as int));
        T::lemma_le_bytes_injective(a.last(), b.last());
        lemma_values_bytes_injective(a.drop_last(), b.drop_last());
        assert(a =~= a.drop_last().push(a.last()));
        assert(b =~= b.drop_last().push(b.last()));
    }
}

/// Appends the values whose bytes are `raw`, `stride` bytes each.
pub fn decode_values<T: Primitive>(raw: &[u8], out: &mut Vec<T>)
    requires
        T::width_spec() > 0,
        raw@.len() % T::width_spec() == 0,
    ensures
        values_bytes(final(out)@) == values_bytes(old(out)@) + raw@,
        final(out)@.len() == old(out)@.len() + raw@.len() / T::width_spec(),
{
    let w = T::width();
    let len = raw.len();
    let n = len / w;
    let mut j: usize = 0;
    let mut pos: usize = 0;
    let ghost start = out@;
    proof {
        assert(n * w == raw@.len()) by (nonlinear_arith)
            requires
                raw@.len() % (w as nat) == 0,
                w > 0,
                n == raw@.len() / (w as nat),
        ;
        assert(raw@.take(0) =~= Seq::<u8>::empty());
        assert(start.skip(start.len() as int) =~= Seq::<T>::empty());
        assert(start + Seq::<T>::empty() =~= start);
    }
    while j < n
        invariant
            w == T::width_spec(),
            w > 0,
            len == raw@.len(),
            n * w == raw@.len(),
            j <= n,
            pos == j * w,
            out@.len() == start.len() + j,
            out@.take(start.len() as int) == start,
            values_bytes(out@) == values_bytes(start) + raw@.take(pos as int),
        decreases n - j,
    {
        assert(pos + w <= raw@.len()) by (nonlinear_arith)
            requires
                pos == j * w,
                j < n,
                n * w == raw@.len(),
        ;
        let piece = vstd::slice::slice_subrange(raw, pos, pos + w);
        let v = T::decode_le(piece);
        let ghost before = out@;
        out.push(v);
        proof {
            assert(out@.drop_last() =~= before);
            assert(raw@.take(pos + w) =~= raw@.take(pos as int) + piece@);
            assert(out@.take(start.len() as int) =~= start);
        }
        pos = pos + w;
        j = j + 1;
        assert(pos == j * w) by (nonlinear_arith)
            requires
                pos == (j - 1) * w + w,
        ;
    }
    proof {
        assert(raw@.take(pos as int) =~= raw@);
        assert(n == raw@.len() / (w as nat)) ;
    }
}

/// `256^n`, for `n <= 8`.
fn pow256_exec(n: usize) -> (r: i128)
    requires
        n <= 8,
    ensures
        r == pow256(n as nat),
{
    let mut r: i128 = 1;
    let mut i: usize = 0;
    proof { lemma_pow256_values(); }
    while i < n
        invariant
            i <= n <= 8,
            r == pow256(i as nat),
        decreases n - i,
    {
        proof { lemma_pow256_values(); }
        assert(pow256((i + 1) as nat) == 256 * pow256(i as nat));
        assert(r <= 0x100_0000_0000_0000) by {
            lemma_pow256_values();
        }
        r = r * 256;
        i = i + 1;
    }
    r
}

/// Appends the `n`-byte two's-complement pattern of `v`.
fn push_signed(out: &mut Vec<u8>, v: i64, n: usize)
    requires
        1 <= n <= 8,
        -(pow256(n as nat) / 2) <= v < pow256(n as nat) / 2,
    ensures
        final(out)@ == old(out)@ + le_bytes(twos_complement(v as int, n as nat), n as nat),
{
    let m = pow256_exec(n);
    proof { lemma_pow256_values(); }
    let t: u64 = if v < 0 {
        (v as i128 + m) as u64
    } else {
        v as u64
    };
    push_le(out, t, n);
}

/// The value whose `n`-byte two's-complement pattern is `bytes`.
fn read_signed(bytes: &[u8]) -> (r: i64)
    requires
        1 <= bytes@.len() <= 8,
    ensures
        twos_complement(r as int, bytes@.len()) == le_value(bytes@),
        -(pow256(bytes@.len()) / 2) <= r < pow256(bytes@.len()) / 2,
{
    let u = read_le(bytes);
    let m = pow256_exec(bytes.len());
    proof {
        lemma_le_bytes_of_value(bytes@);
        lemma_pow256_values();
    }
    if (u as i128) >= m / 2 {
        (u as i128 - m) as i64
    } else {
        u as i64
    }
}

/// Two values of one width with the same pattern are equal.
proof fn lemma_twos_injective(x: int, y: int, n: nat)
    requires
        n >= 1,
        -(pow256(n) / 2) <= x < pow256(n) / 2,
        -(pow256(n) / 2) <= y < pow256(n) / 2,
        le_bytes(twos_complement(x, n), n) == le_bytes(twos_complement(y, n), n),
    ensures
        x == y,
{
    lemma_le_roundtrip(twos_complement(x, n), n);
    lemma_le_roundtrip(twos_complement(y, n), n);
}

proof fn lemma_pow_half(n: nat)
    requires
        n == 1 || n == 2 || n == 4 || n == 8,
    ensures
        n == 1 ==> pow256(n) == 0x100,
        n == 2 ==> pow256(n) == 0x1_0000,
        n == 4 ==> pow256(n) == 0x1_0000_0000,
        n == 8 ==> pow256(n) == 0x1_0000_0000_0000_0000,
{
    lemma_pow256_values();
}

impl Primitive for i8 {
    open spec fn width_spec() -> nat {
        1
    }

    open spec fn le_bytes_spec(self) -> Seq<u8> {
        le_bytes(twos_complement(self as int, 1), 1)
    }

    const WIDTH: usize = 1;

    fn width() -> (r: usize) {
        1
    }

    fn encode_le(&self, out: &mut Vec<u8>) {
        proof { lemma_pow_half(1); }
        push_signed(out, *self as i64, 1);
    }

    fn decode_le(bytes: &[u8]) -> (r: Self) {
        proof { lemma_pow_half(1); }
        let v = read_signed(bytes);
        proof { lemma_le_bytes_of_value(bytes@); }
        v as i8
    }

    proof fn lemma_le_bytes_len(x: Self) {
    }

    proof fn lemma_le_bytes_injective(x: Self, y: Self) {
        lemma_pow_half(1);
        lemma_twos_injective(x as int, y as int, 1);
    }
}

impl Primitive for i16 {
    open spec fn width_spec() -> nat {
        2
    }

    open spec fn le_bytes_spec(self) -> Seq<u8> {
        le_bytes(twos_complement(self as int, 2), 2)
    }

    const WIDTH: usize = 2;

    fn width() -> (r: usize) {
        2
    }

    fn encode_le(&self, out: &mut Vec<u8>) {
        proof { lemma_pow_half(2); }
        push_signed(out, *self as i64, 2);
    }

    fn decode_le(bytes: &[u8]) -> (r: Self) {
        proof { lemma_pow_half(2); }
        let v = read_signed(bytes);
        proof { lemma_le_bytes_of_value(bytes@); }
        v as i16
    }

    proof fn lemma_le_bytes_len(x: Self) {
    }

    proof fn lemma_le_bytes_injective(x: Self, y: Self) {
        lemma_pow_half(2);
        lemma_twos_injective(x as int, y as int, 2);
    }
}

impl Primitive for i32 {
    open spec fn width_spec() -> nat {
        4
    }

    open spec fn le_bytes_spec(self) -> Seq<u8> {
        le_bytes(twos_complement(self as int, 4), 4)
    }

    const WIDTH: usize = 4;

    fn width() -> (r: usize) {
        4
    }

    fn encode_le(&self, out: &mut Vec<u8>) {
        proof { lemma_pow_half(4); }
        push_signed(out, *self as i64, 4);
    }

    fn decode_le(bytes: &[u8]) -> (r: Self) {
        proof { lemma_pow_half(4); }
        let v = read_signed(bytes);
        proof { lemma_le_bytes_of_value(bytes@); }
        v as i32
    }

    proof fn lemma_le_bytes_len(x: Self) {
    }

    proof fn lemma_le_bytes_injective(x: Self, y: Self) {
        lemma_pow_half(4);
        lemma_twos_injective(x as int, y as int, 4);
    }
}

impl Primitive for i64 {
    open spec fn width_spec() -> nat {
        8
    }

    open spec fn le_bytes_spec(self) -> Seq<u8> {
        le_bytes(twos_complement(self as int, 8), 8)
    }

    const WIDTH: usize = 8;

    fn width() -> (r: usize) {
        8
    }

    fn encode_le(&self, out: &mut Vec<u8>) {
        proof { lemma_pow_half(8); }
        push_signed(out, *self, 8);
    }

    fn decode_le(bytes: &[u8]) -> (r: Self) {
        proof { lemma_pow_half(8); }
        let v = read_signed(bytes);
        proof { lemma_le_bytes_of_value(bytes@); }
        v
    }

    proof fn lemma_le_bytes_len(x: Self) {
    }

    proof fn lemma_le_bytes_injective(x: Self, y: Self) {
        lemma_pow_half(8);
        lemma_twos_injective(x as int, y as int, 8);
    }
}

impl Primitive for u8 {
    open spec fn width_spec() -> nat {
        1
    }

    open spec fn le_bytes_spec(self) -> Seq<u8> {
        le_bytes(self as int, 1)
    }

    const WIDTH: usize = 1;

    fn width() -> (r: usize) {
        1
    }

    fn encode_le(&self, out: &mut Vec<u8>) {
        push_le(out, *self as u64, 1);
    }

    fn decode_le(bytes: &[u8]) -> (r: Self) {
        let v = read_le(bytes);
        proof {
            lemma_le_bytes_of_value(bytes@);
            lemma_pow_half(1);
        }
        v as u8
    }

    proof fn lemma_le_bytes_len(x: Self) {
    }

    proof fn lemma_le_bytes_injective(x: Self, y: Self) {
        lemma_pow_half(1);
        lemma_le_roundtrip(x as int, 1);
        lemma_le_roundtrip(y as int, 1);
    }
}

impl Primitive for u16 {
    open spec fn width_spec() -> nat {
        2
    }

    open spec fn le_bytes_spec(self) -> Seq<u8> {
        le_bytes(self as int, 2)
    }

    const WIDTH: usize = 2;

    fn width() -> (r: usize) {
        2
    }

    fn encode_le(&self, out: &mut Vec<u8>) {
        push_le(out, *self as u64, 2);
    }

    fn decode_le(bytes: &[u8]) -> (r: Self) {
        let v = read_le(bytes);
        proof {
            lemma_le_bytes_of_value(bytes@);
            lemma_pow_half(2);
        }
        v as u16
    }

    proof fn lemma_le_bytes_len(x: Self) {
    }

    proof fn lemma_le_bytes_injective(x: Self, y: Self) {
        lemma_pow_half(2);
        lemma_le_roundtrip(x as int, 2);
        lemma_le_roundtrip(y as int, 2);
    }
}

impl Primitive for u32 {
    open spec fn width_spec() -> nat {
        4
    }

    open spec fn le_bytes_spec(self) -> Seq<u8> {
        le_bytes(self as int, 4)
    }

    const WIDTH: usize = 4;

    fn width() -> (r: usize) {
        4
    }

    fn encode_le(&self, out: &mut Vec<u8>) {
        push_le(out, *self as u64, 4);
    }

    fn decode_le(bytes: &[u8]) -> (r: Self) {
        let v = read_le(bytes);
        proof {
            lemma_le_bytes_of_value(bytes@);
            lemma_pow_half(4);
        }
        v as u32
    }

    proof fn lemma_le_bytes_len(x: Self) {
    }

    proof fn lemma_le_bytes_injective(x: Self, y: Self) {
        lemma_pow_half(4);
        lemma_le_roundtrip(x as int, 4);
        lemma_le_roundtrip(y as int, 4);
    }
}

impl Primitive for u64 {
    open spec fn width_spec() -> nat {
        8
    }

    open spec fn le_bytes_spec(self) -> Seq<u8> {
        le_bytes(self as int, 8)
    }

    const WIDTH: usize = 8;

    fn width() -> (r: usize) {
        8
    }

    fn encode_le(&self, out: &mut Vec<u8>) {
        push_le(out, *self, 8);
    }

    fn decode_le(bytes: &[u8]) -> (r: Self) {
        let v = read_le(bytes);
        proof {
            lemma_le_bytes_of_value(bytes@);
            lemma_pow_half(8);
        }
        v
    }

    proof fn lemma_le_bytes_len(x: Self) {
    }

    proof fn lemma_le_bytes_injective(x: Self, y: Self) {
        lemma_pow_half(8);
        lemma_le_roundtrip(x as int, 8);
        lemma_le_roundtrip(y as int, 8);
    }
}

} // verus!
