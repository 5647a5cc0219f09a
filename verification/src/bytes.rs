//! Little-endian byte layouts of fixed-width integers.
use vstd::prelude::*;

verus! {

/// Value of eight little-endian bytes as an unsigned integer.
pub open spec fn le8_value(b: Seq<u8>) -> int {
    b[0] as int + 0x100 * b[1] as int + 0x1_0000 * b[2] as int + 0x100_0000 * b[3] as int
        + 0x1_0000_0000 * b[4] as int + 0x100_0000_0000 * b[5] as int
        + 0x1_0000_0000_0000 * b[6] as int + 0x100_0000_0000_0000 * b[7] as int
}

/// Two's complement reading of a 64-bit pattern.
pub open spec fn as_signed64(u: int) -> int {
    if u >= 0x8000_0000_0000_0000 {
        u - 0x1_0000_0000_0000_0000
    } else {
        u
    }
}

/// The `k`-th little-endian byte of `v` (`v >= 0`).
pub open spec fn byte_of(v: int, k: nat) -> u8 {
    ((v / pow256(k)) % 256) as u8
}

pub open spec fn pow256(k: nat) -> int
    decreases k,
{
    if k == 0 {
        1
    } else {
        256 * pow256((k - 1) as nat)
    }
}

/// The first `n` little-endian bytes of `v`.
pub open spec fn le_bytes(v: int, n: nat) -> Seq<u8> {
    Seq::new(n, |i: int| byte_of(v, i as nat))
}

/// `u64::from_le_bytes`.
pub fn le_u64(b: &[u8; 8]) -> (r: u64)
    ensures
        r as int == le8_value(b@),
{
    let r: u64 = (b[0] as u64) + 0x100 * ((b[1] as u64) + 0x100 * ((b[2] as u64) + 0x100 * ((b[3] as u64)
        + 0x100 * ((b[4] as u64) + 0x100 * ((b[5] as u64) + 0x100 * ((b[6] as u64) + 0x100 * (b[7] as u64)))))));
    r
}

/// `i64::from_le_bytes`.
pub fn le_i64(b: &[u8; 8]) -> (r: i64)
    ensures
        r as int == as_signed64(le8_value(b@)),
{
    let u = le_u64(b);
    if u >= 0x8000_0000_0000_0000u64 {
        (u as i128 - 0x1_0000_0000_0000_0000i128) as i64
    } else {
        u as i64
    }
}

pub proof fn lemma_pow256_values()
    ensures
        pow256(0) == 1,
        pow256(1) == 0x100,
        pow256(2) == 0x1_0000,
        pow256(3) == 0x100_0000,
        pow256(4) == 0x1_0000_0000,
        pow256(5) == 0x100_0000_0000,
        pow256(6) == 0x1_0000_0000_0000,
        pow256(7) == 0x100_0000_0000_0000,
        pow256(8) == 0x1_0000_0000_0000_0000,
{
    reveal_with_fuel(pow256, 9);
}

/// Appends the `n` low little-endian bytes of `v` to `out`.
pub fn push_le(out: &mut Vec<u8>, v: u64, n: usize)
    requires
        n <= 8,
    ensures
        final(out)@ == old(out)@ + le_bytes(v as int, n as nat),
{
    let mut q: u64 = v;
    let mut i: usize = 0;
    proof { lemma_pow256_values(); }
    while i < n
        invariant
            i <= n <= 8,
            q as int == v as int / pow256(i as nat),
            out@ == old(out)@ + le_bytes(v as int, i as nat),
        decreases n - i,
    {
        proof {
            lemma_pow256_values();
            lemma_div_pow256_step(v as int, i as nat);
        }
        out.push((q % 256) as u8);
        q = q / 256;
        i = i + 1;
        assert(out@ =~= old(out)@ + le_bytes(v as int, i as nat));
    }
}

pub proof fn lemma_div_pow256_step(v: int, i: nat)
    requires
        v >= 0,
    ensures
        (v / pow256(i)) / 256 == v / pow256(i + 1),
        pow256(i) > 0,
{
    lemma_pow256_pos(i);
    assert(pow256(i + 1) == 256 * pow256(i));
    vstd::arithmetic::div_mod::lemma_div_denominator(v, pow256(i), 256);
    assert(pow256(i) * 256 == 256 * pow256(i)) by (nonlinear_arith);
}

pub proof fn lemma_pow256_pos(i: nat)
    ensures
        pow256(i) > 0,
    decreases i,
{
    if i > 0 {
        lemma_pow256_pos((i - 1) as nat);
    }
}

/// The eight little-endian bytes of `v`.
pub fn to_le8(v: u64) -> (r: [u8; 8])
    ensures
        r@ == le_bytes(v as int, 8),
        le8_value(r@) == v as int,
{
    let mut out: Vec<u8> = Vec::new();
    push_le(&mut out, v, 8);
    let r: [u8; 8] = [out[0], out[1], out[2], out[3], out[4], out[5], out[6], out[7]];
    proof {
        assert(r@ =~= le_bytes(v as int, 8));
        lemma_le8_roundtrip(v as int);
    }
    r
}

/// Reading back the bytes of a 64-bit value gives the value.
pub proof fn lemma_le8_roundtrip(v: int)
    requires
        0 <= v < 0x1_0000_0000_0000_0000,
    ensures
        le8_value(le_bytes(v, 8)) == v,
{
    lemma_pow256_values();
    let b = le_bytes(v, 8);
    let q0 = v / pow256(0);
    let q1 = v / pow256(1);
    let q2 = v / pow256(2);
    let q3 = v / pow256(3);
    let q4 = v / pow256(4);
    let q5 = v / pow256(5);
    let q6 = v / pow256(6);
    let q7 = v / pow256(7);
    let q8 = v / pow256(8);
    lemma_div_pow256_step(v, 0);
    lemma_div_pow256_step(v, 1);
    lemma_div_pow256_step(v, 2);
    lemma_div_pow256_step(v, 3);
    lemma_div_pow256_step(v, 4);
    lemma_div_pow256_step(v, 5);
    lemma_div_pow256_step(v, 6);
    lemma_div_pow256_step(v, 7);
    assert(q0 == v);
    assert(q8 == 0);
    assert(q0 == q0 % 256 + 256 * q1);
    assert(q1 == q1 % 256 + 256 * q2);
    assert(q2 == q2 % 256 + 256 * q3);
    assert(q3 == q3 % 256 + 256 * q4);
    assert(q4 == q4 % 256 + 256 * q5);
    assert(q5 == q5 % 256 + 256 * q6);
    assert(q6 == q6 % 256 + 256 * q7);
    assert(q7 == q7 % 256 + 256 * q8);
    assert(b[0] as int == q0 % 256);
    assert(b[1] as int == q1 % 256);
    assert(b[2] as int == q2 % 256);
    assert(b[3] as int == q3 % 256);
    assert(b[4] as int == q4 % 256);
    assert(b[5] as int == q5 % 256);
    assert(b[6] as int == q6 % 256);
    assert(b[7] as int == q7 % 256);
}


/// Little-endian value of a byte sequence of any length.
pub open spec fn le_value(b: Seq<u8>) -> int
    decreases b.len(),
{
    if b.len() == 0 {
        0
    } else {
        b[0] as int + 256 * le_value(b.drop_first())
    }
}

/// The two's-complement pattern of `v` in `n` bytes, read as unsigned.
pub open spec fn twos_complement(v: int, n: nat) -> int {
    if v < 0 {
        v + pow256(n)
    } else {
        v
    }
}

proof fn lemma_le_bytes_cons(v: int, n: nat)
    requires
        v >= 0,
        n > 0,
    ensures
        le_bytes(v, n) == seq![(v % 256) as u8] + le_bytes(v / 256, (n - 1) as nat),
{
    let a = le_bytes(v, n);
    let b = seq![(v % 256) as u8] + le_bytes(v / 256, (n - 1) as nat);
    assert forall|i: int| 0 <= i < n implies a[i] == b[i] by {
        if i > 0 {
            lemma_pow256_pos((i - 1) as nat);
            vstd::arithmetic::div_mod::lemma_div_denominator(v, 256, pow256((i - 1) as nat));
            assert(pow256(i as nat) == 256 * pow256((i - 1) as nat));
        }
    }
    assert(a =~= b);
}

/// Reading back the `n` bytes of a value below `256^n` gives the value.
pub proof fn lemma_le_roundtrip(v: int, n: nat)
    requires
        0 <= v < pow256(n),
    ensures
        le_value(le_bytes(v, n)) == v,
    decreases n,
{
    if n == 0 {
        assert(le_bytes(v, n) =~= Seq::<u8>::empty());
    } else {
        lemma_le_bytes_cons(v, n);
        assert(le_bytes(v, n).drop_first() =~= le_bytes(v / 256, (n - 1) as nat));
        assert(pow256(n) == 256 * pow256((n - 1) as nat));
        lemma_le_roundtrip(v / 256, (n - 1) as nat);
    }
}

/// Every byte sequence is the encoding of its value, which is below `256^len`.
pub proof fn lemma_le_bytes_of_value(b: Seq<u8>)
    ensures
        le_bytes(le_value(b), b.len()) == b,
        0 <= le_value(b) < pow256(b.len()),
    decreases b.len(),
{
    if b.len() > 0 {
        let w = le_value(b.drop_first());
        lemma_le_bytes_of_value(b.drop_first());
        let v = le_value(b);
        assert(v % 256 == b[0] as int && v / 256 == w) by {
            vstd::arithmetic::div_mod::lemma_fundamental_div_mod_converse(v, 256, w, b[0] as int);
        }
        lemma_le_bytes_cons(v, b.len());
        assert(pow256(b.len()) == 256 * pow256((b.len() - 1) as nat));
        assert(seq![b[0]] + b.drop_first() =~= b);
    } else {
        assert(le_bytes(0, 0) =~= b);
    }
}

/// The little-endian value of up to eight bytes.
pub fn read_le(bytes: &[u8]) -> (r: u64)
    requires
        bytes@.len() <= 8,
    ensures
        r as int == le_value(bytes@),
{
    let n = bytes.len();
    let mut i: usize = n;
    let mut acc: u64 = 0;
    proof {
        lemma_pow256_values();
        assert(bytes@.skip(n as int) =~= Seq::<u8>::empty());
    }
    while i > 0
        invariant
            n == bytes@.len() <= 8,
            i <= n,
            acc as int == le_value(bytes@.skip(i as int)),
        decreases i,
    {
        let ghost tail = bytes@.skip(i as int);
        proof {
            lemma_le_bytes_of_value(tail);
            lemma_pow256_values();
            assert(pow256(tail.len()) <= 0x100_0000_0000_0000) by {
                lemma_pow256_values();
                if tail.len() < 7 {
                    lemma_pow256_mono(tail.len(), 7);
                }
            }
        }
        let b = bytes[i - 1];
        acc = (b as u64) + 256 * acc;
        i = i - 1;
        proof {
            assert(bytes@.skip(i as int).drop_first() =~= tail);
        }
    }
    proof {
        assert(bytes@.skip(0) =~= bytes@);
    }
    acc
}

proof fn lemma_pow256_mono(a: nat, b: nat)
    requires
        a <= b,
    ensures
        pow256(a) <= pow256(b),
    decreases b,
{
    if a < b {
        lemma_pow256_mono(a, (b - 1) as nat);
        lemma_pow256_pos((b - 1) as nat);
    }
}

} // verus!
