//! IEEE-754 binary64 values held as their bit patterns: their order, and
//! the conversion of integers to them.
use vstd::prelude::*;

verus! {

pub open spec fn p2(n: nat) -> int
    decreases n,
{
    if n == 0 {
        1
    } else {
        2 * p2((n - 1) as nat)
    }
}

pub proof fn lemma_p2_pos(n: nat)
    ensures
        p2(n) >= 1,
    decreases n,
{
    if n > 0 {
        lemma_p2_pos((n - 1) as nat);
    }
}

pub proof fn lemma_p2_mono(a: nat, b: nat)
    requires
        a <= b,
    ensures
        p2(a) <= p2(b),
    decreases b,
{
    lemma_p2_pos(a);
    if a < b {
        lemma_p2_mono(a, (b - 1) as nat);
    }
}

pub proof fn lemma_p2_values()
    ensures
        p2(11) == 0x800,
        p2(23) == 0x80_0000,
        p2(29) == 0x2000_0000,
        p2(52) == 0x10_0000_0000_0000,
        p2(53) == 0x20_0000_0000_0000,
        p2(63) == 0x8000_0000_0000_0000,
        p2(64) == 0x1_0000_0000_0000_0000,
{
    reveal_with_fuel(p2, 65);
}

pub proof fn lemma_p2_add(a: nat, b: nat)
    ensures
        p2(a + b) == p2(a) * p2(b),
    decreases b,
{
    if b > 0 {
        lemma_p2_add(a, (b - 1) as nat);
        assert(p2(a + b) == 2 * p2((a + b - 1) as nat));
        assert(p2(a) * p2(b) == p2(a) * (2 * p2((b - 1) as nat)));
        assert(p2(a) * (2 * p2((b - 1) as nat)) == 2 * (p2(a) * p2((b - 1) as nat))) by (nonlinear_arith);
    }
}

// ---------------------------------------------------------------------------
// Order

/// The sign bit.
pub open spec fn sign_bit(b: u64) -> bool {
    b >= 0x8000_0000_0000_0000
}

/// The biased exponent field.
pub open spec fn exponent_field(b: u64) -> int {
    (b as int % 0x8000_0000_0000_0000) / 0x10_0000_0000_0000
}

/// The fraction field.
pub open spec fn fraction_field(b: u64) -> int {
    b as int % 0x10_0000_0000_0000
}

pub open spec fn is_nan(b: u64) -> bool {
    exponent_field(b) == 0x7ff && fraction_field(b) != 0
}

/// A key that orders the values that are not NaN as IEEE-754 does: the
/// magnitude bits, negated for a negative sign, so that -0 and +0 coincide.
pub open spec fn order_key(b: u64) -> int {
    if sign_bit(b) {
        -(b - 0x8000_0000_0000_0000)
    } else {
        b as int
    }
}

/// `a < b` as IEEE-754 compares: false when either is NaN.
pub open spec fn f64_lt(a: u64, b: u64) -> bool {
    !is_nan(a) && !is_nan(b) && order_key(a) < order_key(b)
}

pub open spec fn f64_le(a: u64, b: u64) -> bool {
    !is_nan(a) && !is_nan(b) && order_key(a) <= order_key(b)
}

pub fn f64_is_nan(b: u64) -> (r: bool)
    ensures
        r == is_nan(b),
{
    let e = (b % 0x8000_0000_0000_0000) / 0x10_0000_0000_0000;
    let f = b % 0x10_0000_0000_0000;
    e == 0x7ff && f != 0
}

fn f64_key(b: u64) -> (r: i128)
    ensures
        r == order_key(b),
{
    if b >= 0x8000_0000_0000_0000 {
        0 - (b - 0x8000_0000_0000_0000) as i128
    } else {
        b as i128
    }
}

/// `a < b` on binary64 values.
pub fn f64_less(a: u64, b: u64) -> (r: bool)
    ensures
        r == f64_lt(a, b),
{
    !f64_is_nan(a) && !f64_is_nan(b) && f64_key(a) < f64_key(b)
}

/// `a <= b` on binary64 values.
pub fn f64_less_eq(a: u64, b: u64) -> (r: bool)
    ensures
        r == f64_le(a, b),
{
    !f64_is_nan(a) && !f64_is_nan(b) && f64_key(a) <= f64_key(b)
}

// ---------------------------------------------------------------------------
// Integers to binary64, rounding to nearest, ties to even

/// The position of the highest set bit of `m > 0`.
pub open spec fn floor_log2(m: nat) -> nat
    decreases m,
{
    if m < 2 {
        0
    } else {
        1 + floor_log2(m / 2)
    }
}

proof fn lemma_floor_log2(m: nat, k: nat)
    requires
        p2(k) <= m < p2(k + 1),
    ensures
        floor_log2(m) == k,
    decreases k,
{
    if k > 0 {
        assert(p2(k) == 2 * p2((k - 1) as nat));
        assert(p2(k + 1) == 2 * p2(k));
        lemma_floor_log2(m / 2, (k - 1) as nat);
    } else {
        assert(p2(1) == 2);
    }
}

/// The binary64 pattern of a natural number below 2^64, rounded to 53
/// significant bits, to the nearest and ties to an even significand.
pub open spec fn nat_to_f64_spec(m: nat) -> int {
    if m == 0 {
        0
    } else {
        let k = floor_log2(m);
        if k <= 52 {
            (k + 1023) * p2(52) + (m * p2((52 - k) as nat) - p2(52))
        } else {
            let s = (k - 52) as nat;
            let q = m as int / p2(s);
            let rem = m as int % p2(s);
            let half = p2((s - 1) as nat);
            let q2 = if rem > half || (rem == half && q % 2 == 1) {
                q + 1
            } else {
                q
            };
            if q2 == p2(53) {
                (k + 1024) * p2(52)
            } else {
                (k + 1023) * p2(52) + (q2 - p2(52))
            }
        }
    }
}

/// `m as f64`, as its bit pattern.
pub fn u64_to_f64_bits(m: u64) -> (r: u64)
    ensures
        r == nat_to_f64_spec(m as nat),
{
    if m == 0 {
        return 0;
    }
    proof { lemma_p2_values(); }
    // The highest power of two not above m.
    let mut k: u64 = 0;
    let mut pk: u128 = 1;
    while pk * 2 <= m as u128
        invariant
            1 <= pk <= m,
            pk == p2(k as nat),
            k <= 63,
            m < 0x1_0000_0000_0000_0000,
        decreases 64 - k,
    {
        proof {
            lemma_p2_values();
            if k >= 63 {
                lemma_p2_mono(63, (k + 1) as nat);
            }
        }
        pk = pk * 2;
        k = k + 1;
    }
    proof {
        lemma_floor_log2(m as nat, k as nat);
    }
    if k <= 52 {
        let mut shift: u128 = 1;
        let mut j: u64 = 0;
        while j < 52 - k
            invariant
                j <= 52 - k,
                shift == p2(j as nat),
                k <= 52,
            decreases 52 - k - j,
        {
            proof {
                lemma_p2_values();
                lemma_p2_mono((j + 1) as nat, 52);
            }
            shift = shift * 2;
            j = j + 1;
        }
        proof {
            lemma_p2_pos(j as nat);
            lemma_p2_add(k as nat, (52 - k) as nat);
            assert(m * shift < p2(k as nat + 1) * shift) by (nonlinear_arith)
                requires m < p2(k as nat + 1), shift > 0;
            lemma_p2_add((k + 1) as nat, (52 - k) as nat);
            assert(m * shift >= p2(k as nat) * shift) by (nonlinear_arith)
                requires m >= p2(k as nat), shift > 0;
        }
        let mant = (m as u128) * shift;
        ((k as u128 + 1023) * 0x10_0000_0000_0000 + (mant - 0x10_0000_0000_0000)) as u64
    } else {
        let s = k - 52;
        let mut ps: u128 = 1;
        let mut j: u64 = 0;
        while j < s
            invariant
                j <= s <= 11,
                ps == p2(j as nat),
            decreases s - j,
        {
            proof {
                lemma_p2_values();
                lemma_p2_mono((j + 1) as nat, 11);
            }
            ps = ps * 2;
            j = j + 1;
        }
        proof { lemma_p2_pos(s as nat); }
        let q = (m as u128) / ps;
        let rem = (m as u128) % ps;
        let half = ps / 2;
        proof {
            assert(p2(s as nat) == 2 * p2((s - 1) as nat));
            lemma_p2_add(s as nat, 53);
            assert(q < p2(53)) by (nonlinear_arith)
                requires
                    q as int == m as int / ps as int,
                    m < p2(k as nat + 1),
                    p2(k as nat + 1) == p2(53) * ps,
                    ps > 0;
            assert(q >= p2(52)) by (nonlinear_arith)
                requires
                    q as int == m as int / ps as int,
                    m >= p2(k as nat),
                    p2(k as nat) == p2(52) * ps,
                    ps > 0;
        }
        let q2 = if rem > half || (rem == half && q % 2 == 1) {
            q + 1
        } else {
            q
        };
        if q2 == 0x20_0000_0000_0000 {
            ((k as u128 + 1024) * 0x10_0000_0000_0000) as u64
        } else {
            ((k as u128 + 1023) * 0x10_0000_0000_0000 + (q2 - 0x10_0000_0000_0000)) as u64
        }
    }
}

/// The binary64 pattern of an integer in the range of `i64` or `u64`:
/// the sign bit, then the magnitude rounded as `nat_to_f64_spec` does.
pub open spec fn int_to_f64_spec(v: int) -> int {
    if v < 0 {
        0x8000_0000_0000_0000 + nat_to_f64_spec((-v) as nat)
    } else {
        nat_to_f64_spec(v as nat)
    }
}

/// `v as f64`, as its bit pattern.
pub fn i64_to_f64_bits(v: i64) -> (r: u64)
    ensures
        r == int_to_f64_spec(v as int),
{
    if v < 0 {
        let mag: u64 = (0i128 - v as i128) as u64;
        let b = u64_to_f64_bits(mag);
        proof {
            lemma_nat_to_f64_bound(mag as nat);
        }
        0x8000_0000_0000_0000 + b
    } else {
        u64_to_f64_bits(v as u64)
    }
}

/// Converting a magnitude up to 2^63 gives a pattern without the sign bit.
proof fn lemma_nat_to_f64_bound(m: nat)
    requires
        m <= 0x8000_0000_0000_0000,
    ensures
        nat_to_f64_spec(m) < 0x8000_0000_0000_0000,
{
    lemma_p2_values();
    if m > 0 {
        let k = floor_log2(m);
        lemma_floor_log2_bounds(m);
        assert(k <= 63) by {
            if k > 63 {
                lemma_p2_mono(64, k);
            }
        }
        if k <= 52 {
            let sh = p2((52 - k) as nat);
            lemma_p2_pos((52 - k) as nat);
            lemma_p2_add((k + 1) as nat, (52 - k) as nat);
            assert(m * sh < p2(53)) by (nonlinear_arith)
                requires m < p2(k + 1), p2(k + 1) * sh == p2(53), sh > 0;
            assert((k + 1023) * p2(52) <= 1075 * p2(52)) by (nonlinear_arith)
                requires k <= 52, p2(52) > 0;
        } else {
            let s = (k - 52) as nat;
            let ps = p2(s);
            lemma_p2_pos(s);
            lemma_p2_add(s, 53);
            assert(m as int / ps < p2(53)) by (nonlinear_arith)
                requires m < p2(k + 1), p2(k + 1) == ps * p2(53), ps > 0;
            assert((k + 1024) * p2(52) <= 1087 * p2(52)) by (nonlinear_arith)
                requires k <= 63, p2(52) > 0;
        }
    }
}

pub proof fn lemma_floor_log2_bounds(m: nat)
    requires
        m >= 1,
    ensures
        p2(floor_log2(m)) <= m < p2(floor_log2(m) + 1),
    decreases m,
{
    if m >= 2 {
        lemma_floor_log2_bounds(m / 2);
    }
}


// ---------------------------------------------------------------------------
// binary32

pub open spec fn is_nan32(b: u32) -> bool {
    (b as int % 0x8000_0000) / 0x80_0000 == 0xff && b as int % 0x80_0000 != 0
}

pub open spec fn order_key32(b: u32) -> int {
    if b >= 0x8000_0000 {
        -(b - 0x8000_0000)
    } else {
        b as int
    }
}

pub open spec fn f32_lt(a: u32, b: u32) -> bool {
    !is_nan32(a) && !is_nan32(b) && order_key32(a) < order_key32(b)
}

/// Whether binary32 bits encode a NaN.
pub fn f32_is_nan(b: u32) -> (r: bool)
    ensures
        r == is_nan32(b),
{
    (b % 0x8000_0000) / 0x80_0000 == 0xff && b % 0x80_0000 != 0
}

/// `a < b` on binary32 values.
pub fn f32_less(a: u32, b: u32) -> (r: bool)
    ensures
        r == f32_lt(a, b),
{
    let nan_a = (a % 0x8000_0000) / 0x80_0000 == 0xff && a % 0x80_0000 != 0;
    let nan_b = (b % 0x8000_0000) / 0x80_0000 == 0xff && b % 0x80_0000 != 0;
    let ka: i64 = if a >= 0x8000_0000 { 0 - (a - 0x8000_0000) as i64 } else { a as i64 };
    let kb: i64 = if b >= 0x8000_0000 { 0 - (b - 0x8000_0000) as i64 } else { b as i64 };
    !nan_a && !nan_b && ka < kb
}

/// The binary64 magnitude bits (sign excluded) of a binary32 magnitude
/// `mag < 2^31` that is not NaN: the same value in the wider format.
/// Infinity maps to infinity; a subnormal is normalised.
pub open spec fn widen_magnitude(mag: int) -> int {
    let e = mag / 0x80_0000;
    let f = mag % 0x80_0000;
    if e == 0xff {
        0x7ff * p2(52)
    } else if e == 0 {
        if f == 0 {
            0
        } else {
            let p = floor_log2(f as nat);
            (p + 874) * p2(52) + (f - p2(p)) * p2((52 - p) as nat)
        }
    } else {
        (e + 896) * p2(52) + f * p2(29)
    }
}

/// `b as f64` for a binary32 `b`, as bits: the sign bit, then the value in
/// the wider format; a NaN stays a NaN.
pub open spec fn widen_spec(b: u32, r: u64) -> bool {
    let sign = b >= 0x8000_0000;
    let mag = if sign { b - 0x8000_0000 } else { b as int };
    if is_nan32(b) {
        is_nan(r)
    } else {
        r == (if sign { 0x8000_0000_0000_0000int } else { 0int }) + widen_magnitude(mag)
    }
}

/// Widens binary32 bits to binary64 bits, value for value.
pub fn f32_to_f64_bits(b: u32) -> (r: u64)
    ensures
        widen_spec(b, r),
{
    proof { lemma_p2_values(); }
    let sign: u64 = if b >= 0x8000_0000 { 0x8000_0000_0000_0000 } else { 0 };
    let mag: u32 = if b >= 0x8000_0000 { b - 0x8000_0000 } else { b };
    let e: u32 = mag / 0x80_0000;
    let f: u32 = mag % 0x80_0000;
    assert(e < 0x100) by (nonlinear_arith) requires mag < 0x8000_0000, e == mag / 0x80_0000;
    if e == 0xff {
        if f == 0 {
            sign + 0x7ff0_0000_0000_0000
        } else {
            // A quiet NaN carrying the payload.
            sign + 0x7ff8_0000_0000_0000 + (f as u64 % 0x40_0000) * 0x2000_0000
        }
    } else if e == 0 {
        if f == 0 {
            sign
        } else {
            let mut p: u64 = 0;
            let mut pp: u64 = 1;
            while pp * 2 <= f as u64
                invariant
                    1 <= pp <= f,
                    pp == p2(p as nat),
                    f < 0x80_0000,
                    p <= 22,
                decreases 23 - p,
            {
                proof {
                    if p >= 22 {
                        lemma_p2_mono(23, (p + 1) as nat);
                        reveal_with_fuel(p2, 24);
                    }
                }
                pp = pp * 2;
                p = p + 1;
            }
            proof {
                lemma_floor_log2(f as nat, p as nat);
            }
            let mut sh: u64 = 1;
            let mut j: u64 = 0;
            while j < 52 - p
                invariant
                    j <= 52 - p,
                    p <= 22,
                    sh == p2(j as nat),
                decreases 52 - p - j,
            {
                proof {
                    lemma_p2_mono((j + 1) as nat, 52);
                    lemma_p2_values();
                }
                sh = sh * 2;
                j = j + 1;
            }
            proof {
                lemma_p2_pos(j as nat);
                lemma_p2_add(p as nat, (52 - p) as nat);
                assert((f - pp) * sh < pp * sh) by (nonlinear_arith)
                    requires f < 2 * pp, f >= pp, sh > 0;
                assert(p2(p as nat) == pp);
                assert(mag == f);
            }
            sign + (p + 874) * 0x10_0000_0000_0000 + (f as u64 - pp) * sh
        }
    } else {
        sign + (e as u64 + 896) * 0x10_0000_0000_0000 + (f as u64) * 0x2000_0000
    }
}


/// Where a widened magnitude falls: between consecutive multiples of 2^52
/// fixed by the exponent.
proof fn lemma_widen_magnitude_range(m: int)
    requires
        0 <= m <= 0x7f80_0000,
    ensures
        ({
            let e = m / 0x80_0000;
            let f = m % 0x80_0000;
            let w = widen_magnitude(m);
            &&& m == 0 ==> w == 0
            &&& e == 0 && f > 0 ==> floor_log2(f as nat) <= 22 && (floor_log2(f as nat) + 874) * p2(52) <= w < (
            floor_log2(f as nat) + 875) * p2(52)
            &&& 1 <= e <= 254 ==> (e + 896) * p2(52) <= w < (e + 897) * p2(52)
            &&& e == 255 ==> w == 2047 * p2(52)
        }),
{
    lemma_p2_values();
    let e = m / 0x80_0000;
    let f = m % 0x80_0000;
    if e == 0 && f > 0 {
        let p = floor_log2(f as nat);
        lemma_floor_log2_bounds(f as nat);
        assert(p <= 22) by {
            if p > 22 {
                lemma_p2_mono(23, p);
            }
        }
        lemma_p2_add(p, (52 - p) as nat);
        lemma_p2_pos((52 - p) as nat);
        assert((f - p2(p)) * p2((52 - p) as nat) < p2(p) * p2((52 - p) as nat)) by (nonlinear_arith)
            requires f < p2(p + 1), p2(p + 1) == 2 * p2(p), f >= p2(p), p2((52 - p) as nat) > 0;
        assert((f - p2(p)) * p2((52 - p) as nat) >= 0) by (nonlinear_arith)
            requires f >= p2(p), p2((52 - p) as nat) > 0;
    }
    if 1 <= e <= 254 {
        assert(f * p2(29) < p2(52)) by (nonlinear_arith)
            requires f < 0x80_0000, p2(29) == 0x2000_0000, p2(52) == 0x10_0000_0000_0000;
    }
}

proof fn lemma_floor_log2_mono(a: nat, b: nat)
    requires
        1 <= a <= b,
    ensures
        floor_log2(a) <= floor_log2(b),
    decreases b,
{
    if a >= 2 {
        lemma_floor_log2_mono(a / 2, b / 2);
    }
}

/// Widening keeps the order of magnitudes.
proof fn lemma_widen_magnitude_mono(m1: int, m2: int)
    requires
        0 <= m1 < m2 <= 0x7f80_0000,
    ensures
        widen_magnitude(m1) < widen_magnitude(m2),
{
    lemma_widen_magnitude_range(m1);
    lemma_widen_magnitude_range(m2);
    lemma_p2_values();
    let e1 = m1 / 0x80_0000;
    let e2 = m2 / 0x80_0000;
    let f1 = m1 % 0x80_0000;
    let f2 = m2 % 0x80_0000;
    assert(e1 <= e2);
    if e1 == e2 && 1 <= e1 <= 254 {
        assert(f1 < f2);
        assert(f1 * p2(29) < f2 * p2(29)) by (nonlinear_arith)
            requires f1 < f2, p2(29) > 0;
    } else if e1 == 0 && e2 == 0 && m1 > 0 {
        let p1 = floor_log2(f1 as nat);
        let p2_ = floor_log2(f2 as nat);
        lemma_floor_log2_mono(f1 as nat, f2 as nat);
        if p1 == p2_ {
            lemma_p2_pos((52 - p1) as nat);
            assert((f1 - p2(p1)) * p2((52 - p1) as nat) < (f2 - p2(p1)) * p2((52 - p1) as nat)) by (nonlinear_arith)
                requires f1 < f2, p2((52 - p1) as nat) > 0;
        }
    }
}

/// The widened bits of a binary32 value that is not NaN fit in 64 bits.
pub proof fn lemma_widen_in_range(b: u32)
    requires
        !is_nan32(b),
    ensures
        ({
            let sign = b >= 0x8000_0000;
            let mag = if sign { b - 0x8000_0000 } else { b as int };
            &&& 0 <= widen_magnitude(mag)
            &&& (if sign { 0x8000_0000_0000_0000int } else { 0int }) + widen_magnitude(mag) < 0x1_0000_0000_0000_0000
        }),
{
    lemma_p2_values();
    let mag = if b >= 0x8000_0000 { b - 0x8000_0000 } else { b as int };
    assert(mag <= 0x7f80_0000);
    lemma_widen_magnitude_range(mag);
    let e = mag / 0x80_0000;
    let f = mag % 0x80_0000;
    if e == 0 && f > 0 {
        lemma_p2_pos(52);
        assert((floor_log2(f as nat) + 874) * p2(52) >= 0) by (nonlinear_arith)
            requires
                p2(52) > 0,
        ;
    }
}

/// Widening keeps the IEEE-754 order of binary32 values that are not NaN,
/// and keeps NaN a NaN.
pub proof fn lemma_widen_order(a: u32, b: u32, wa: u64, wb: u64)
    requires
        widen_spec(a, wa),
        widen_spec(b, wb),
    ensures
        is_nan(wa) <==> is_nan32(a),
        !is_nan32(a) && !is_nan32(b) ==> (f32_lt(a, b) <==> f64_lt(wa, wb)),
{
    lemma_p2_values();
    let ma = if a >= 0x8000_0000 { a - 0x8000_0000 } else { a as int };
    let mb = if b >= 0x8000_0000 { b - 0x8000_0000 } else { b as int };
    if !is_nan32(a) {
        assert(ma <= 0x7f80_0000);
        lemma_widen_magnitude_range(ma);
        assert(widen_magnitude(ma) <= 2047 * p2(52));
    }
    if !is_nan32(b) {
        assert(mb <= 0x7f80_0000);
        lemma_widen_magnitude_range(mb);
    }
    if !is_nan32(a) && !is_nan32(b) {
        if ma < mb {
            lemma_widen_magnitude_mono(ma, mb);
        } else if mb < ma {
            lemma_widen_magnitude_mono(mb, ma);
        }
        // A widened magnitude is below 2^63 and is not NaN.
        assert(!is_nan(wa) && !is_nan(wb));
    }
}

} // verus!
