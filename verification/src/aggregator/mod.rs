//! Aggregation.
//!
//! Each aggregate is written in two layers: a generic math struct (`Sum<T>`,
//! `Max<T>`, ...) with static init/update/merge/finalize functions, whose merge
//! combines partial states computed over disjoint parts of the input; and a
//! runtime wrapper over columns of a given type that keeps one state per group.
use vstd::prelude::*;

use crate::float_bits::{f32_is_nan, f32_less, f32_lt, f64_is_nan, f64_less, f64_lt, is_nan, is_nan32};

pub mod count;
pub mod factory;
pub mod grouped;
pub mod max;
pub mod min;
pub mod states;
pub mod sum;
pub mod top_k;

verus! {

/// A fixed-width machine integer, seen through its mathematical value.
pub trait Integer: Copy + Sized {
    spec fn int_value(&self) -> int;

    spec fn min_int() -> int;

    spec fn max_int() -> int;

    proof fn lemma_range(&self)
        ensures
            Self::min_int() <= self.int_value() <= Self::max_int(),
    ;

    proof fn lemma_injective(&self, other: &Self)
        ensures
            self.int_value() == other.int_value() ==> *self == *other,
    ;

    /// The zero of the type.
    spec fn zero_spec() -> Self;

    proof fn lemma_zero_spec(z: Self)
        requires
            z.int_value() == 0,
        ensures
            z == Self::zero_spec(),
    ;

    fn zero() -> (r: Self)
        ensures
            r.int_value() == 0,
            r == Self::zero_spec(),
    ;

    fn lt(&self, other: &Self) -> (r: bool)
        ensures
            r == (self.int_value() < other.int_value()),
    ;

    fn to_i128(&self) -> (r: i128)
        ensures
            r as int == self.int_value(),
    ;

    fn add(&self, other: &Self) -> (r: Self)
        requires
            Self::min_int() <= self.int_value() + other.int_value() <= Self::max_int(),
        ensures
            r.int_value() == self.int_value() + other.int_value(),
    ;

    /// The least and the greatest value of the type.
    fn bounds() -> (r: (i128, i128))
        ensures
            r.0 == Self::min_int(),
            r.1 == Self::max_int(),
    ;
}

/// A partial order, as `PartialOrd` gives one: `<` and `>` may both be false.
pub trait PartialCompare: Copy + Sized {
    spec fn spec_lt(&self, other: &Self) -> bool;

    spec fn spec_gt(&self, other: &Self) -> bool;

    fn lt(&self, other: &Self) -> (r: bool)
        ensures
            r == self.spec_lt(other),
    ;

    fn gt(&self, other: &Self) -> (r: bool)
        ensures
            r == self.spec_gt(other),
    ;

    /// Whether the value is unordered even with itself, as a NaN is.
    spec fn spec_unordered(&self) -> bool;

    fn unordered(&self) -> (r: bool)
        ensures
            r == self.spec_unordered(),
    ;
}

impl Integer for i8 {
    open spec fn zero_spec() -> Self {
        0
    }

    proof fn lemma_zero_spec(z: Self) {
        assert(z.int_value() == z as int);
    }

    open spec fn int_value(&self) -> int {
        *self as int
    }

    open spec fn min_int() -> int {
        i8::MIN as int
    }

    open spec fn max_int() -> int {
        i8::MAX as int
    }

    proof fn lemma_range(&self) {
    }

    proof fn lemma_injective(&self, other: &Self) {
    }

    fn zero() -> (r: Self) {
        0
    }

    fn lt(&self, other: &Self) -> (r: bool) {
        *self < *other
    }

    fn to_i128(&self) -> (r: i128) {
        *self as i128
    }

    fn bounds() -> (r: (i128, i128)) {
        (i8::MIN as i128, i8::MAX as i128)
    }

    fn add(&self, other: &Self) -> (r: Self) {
        *self + *other
    }
}

impl PartialCompare for i8 {
    open spec fn spec_lt(&self, other: &Self) -> bool {
        *self < *other
    }

    open spec fn spec_gt(&self, other: &Self) -> bool {
        *self > *other
    }

    fn lt(&self, other: &Self) -> (r: bool) {
        *self < *other
    }
    fn gt(&self, other: &Self) -> (r: bool) {
        *self > *other
    }

    open spec fn spec_unordered(&self) -> bool {
        false
    }

    fn unordered(&self) -> (r: bool) {
        false
    }
}

impl Integer for i16 {
    open spec fn zero_spec() -> Self {
        0
    }

    proof fn lemma_zero_spec(z: Self) {
        assert(z.int_value() == z as int);
    }

    open spec fn int_value(&self) -> int {
        *self as int
    }

    open spec fn min_int() -> int {
        i16::MIN as int
    }

    open spec fn max_int() -> int {
        i16::MAX as int
    }

    proof fn lemma_range(&self) {
    }

    proof fn lemma_injective(&self, other: &Self) {
    }

    fn zero() -> (r: Self) {
        0
    }

    fn lt(&self, other: &Self) -> (r: bool) {
        *self < *other
    }

    fn to_i128(&self) -> (r: i128) {
        *self as i128
    }

    fn bounds() -> (r: (i128, i128)) {
        (i16::MIN as i128, i16::MAX as i128)
    }

    fn add(&self, other: &Self) -> (r: Self) {
        *self + *other
    }
}

impl PartialCompare for i16 {
    open spec fn spec_lt(&self, other: &Self) -> bool {
        *self < *other
    }

    open spec fn spec_gt(&self, other: &Self) -> bool {
        *self > *other
    }

    fn lt(&self, other: &Self) -> (r: bool) {
        *self < *other
    }
    fn gt(&self, other: &Self) -> (r: bool) {
        *self > *other
    }

    open spec fn spec_unordered(&self) -> bool {
        false
    }

    fn unordered(&self) -> (r: bool) {
        false
    }
}

impl Integer for i32 {
    open spec fn zero_spec() -> Self {
        0
    }

    proof fn lemma_zero_spec(z: Self) {
        assert(z.int_value() == z as int);
    }

    open spec fn int_value(&self) -> int {
        *self as int
    }

    open spec fn min_int() -> int {
        i32::MIN as int
    }

    open spec fn max_int() -> int {
        i32::MAX as int
    }

    proof fn lemma_range(&self) {
    }

    proof fn lemma_injective(&self, other: &Self) {
    }

    fn zero() -> (r: Self) {
        0
    }

    fn lt(&self, other: &Self) -> (r: bool) {
        *self < *other
    }

    fn to_i128(&self) -> (r: i128) {
        *self as i128
    }

    fn bounds() -> (r: (i128, i128)) {
        (i32::MIN as i128, i32::MAX as i128)
    }

    fn add(&self, other: &Self) -> (r: Self) {
        *self + *other
    }
}

impl PartialCompare for i32 {
    open spec fn spec_lt(&self, other: &Self) -> bool {
        *self < *other
    }

    open spec fn spec_gt(&self, other: &Self) -> bool {
        *self > *other
    }

    fn lt(&self, other: &Self) -> (r: bool) {
        *self < *other
    }
    fn gt(&self, other: &Self) -> (r: bool) {
        *self > *other
    }

    open spec fn spec_unordered(&self) -> bool {
        false
    }

    fn unordered(&self) -> (r: bool) {
        false
    }
}

impl Integer for i64 {
    open spec fn zero_spec() -> Self {
        0
    }

    proof fn lemma_zero_spec(z: Self) {
        assert(z.int_value() == z as int);
    }

    open spec fn int_value(&self) -> int {
        *self as int
    }

    open spec fn min_int() -> int {
        i64::MIN as int
    }

    open spec fn max_int() -> int {
        i64::MAX as int
    }

    proof fn lemma_range(&self) {
    }

    proof fn lemma_injective(&self, other: &Self) {
    }

    fn zero() -> (r: Self) {
        0
    }

    fn lt(&self, other: &Self) -> (r: bool) {
        *self < *other
    }

    fn to_i128(&self) -> (r: i128) {
        *self as i128
    }

    fn bounds() -> (r: (i128, i128)) {
        (i64::MIN as i128, i64::MAX as i128)
    }

    fn add(&self, other: &Self) -> (r: Self) {
        *self + *other
    }
}

impl PartialCompare for i64 {
    open spec fn spec_lt(&self, other: &Self) -> bool {
        *self < *other
    }

    open spec fn spec_gt(&self, other: &Self) -> bool {
        *self > *other
    }

    fn lt(&self, other: &Self) -> (r: bool) {
        *self < *other
    }
    fn gt(&self, other: &Self) -> (r: bool) {
        *self > *other
    }

    open spec fn spec_unordered(&self) -> bool {
        false
    }

    fn unordered(&self) -> (r: bool) {
        false
    }
}

impl Integer for u8 {
    open spec fn zero_spec() -> Self {
        0
    }

    proof fn lemma_zero_spec(z: Self) {
        assert(z.int_value() == z as int);
    }

    open spec fn int_value(&self) -> int {
        *self as int
    }

    open spec fn min_int() -> int {
        u8::MIN as int
    }

    open spec fn max_int() -> int {
        u8::MAX as int
    }

    proof fn lemma_range(&self) {
    }

    proof fn lemma_injective(&self, other: &Self) {
    }

    fn zero() -> (r: Self) {
        0
    }

    fn lt(&self, other: &Self) -> (r: bool) {
        *self < *other
    }

    fn to_i128(&self) -> (r: i128) {
        *self as i128
    }

    fn bounds() -> (r: (i128, i128)) {
        (u8::MIN as i128, u8::MAX as i128)
    }

    fn add(&self, other: &Self) -> (r: Self) {
        *self + *other
    }
}

impl PartialCompare for u8 {
    open spec fn spec_lt(&self, other: &Self) -> bool {
        *self < *other
    }

    open spec fn spec_gt(&self, other: &Self) -> bool {
        *self > *other
    }

    fn lt(&self, other: &Self) -> (r: bool) {
        *self < *other
    }
    fn gt(&self, other: &Self) -> (r: bool) {
        *self > *other
    }

    open spec fn spec_unordered(&self) -> bool {
        false
    }

    fn unordered(&self) -> (r: bool) {
        false
    }
}

impl Integer for u16 {
    open spec fn zero_spec() -> Self {
        0
    }

    proof fn lemma_zero_spec(z: Self) {
        assert(z.int_value() == z as int);
    }

    open spec fn int_value(&self) -> int {
        *self as int
    }

    open spec fn min_int() -> int {
        u16::MIN as int
    }

    open spec fn max_int() -> int {
        u16::MAX as int
    }

    proof fn lemma_range(&self) {
    }

    proof fn lemma_injective(&self, other: &Self) {
    }

    fn zero() -> (r: Self) {
        0
    }

    fn lt(&self, other: &Self) -> (r: bool) {
        *self < *other
    }

    fn to_i128(&self) -> (r: i128) {
        *self as i128
    }

    fn bounds() -> (r: (i128, i128)) {
        (u16::MIN as i128, u16::MAX as i128)
    }

    fn add(&self, other: &Self) -> (r: Self) {
        *self + *other
    }
}

impl PartialCompare for u16 {
    open spec fn spec_lt(&self, other: &Self) -> bool {
        *self < *other
    }

    open spec fn spec_gt(&self, other: &Self) -> bool {
        *self > *other
    }

    fn lt(&self, other: &Self) -> (r: bool) {
        *self < *other
    }
    fn gt(&self, other: &Self) -> (r: bool) {
        *self > *other
    }

    open spec fn spec_unordered(&self) -> bool {
        false
    }

    fn unordered(&self) -> (r: bool) {
        false
    }
}

impl Integer for u32 {
    open spec fn zero_spec() -> Self {
        0
    }

    proof fn lemma_zero_spec(z: Self) {
        assert(z.int_value() == z as int);
    }

    open spec fn int_value(&self) -> int {
        *self as int
    }

    open spec fn min_int() -> int {
        u32::MIN as int
    }

    open spec fn max_int() -> int {
        u32::MAX as int
    }

    proof fn lemma_range(&self) {
    }

    proof fn lemma_injective(&self, other: &Self) {
    }

    fn zero() -> (r: Self) {
        0
    }

    fn lt(&self, other: &Self) -> (r: bool) {
        *self < *other
    }

    fn to_i128(&self) -> (r: i128) {
        *self as i128
    }

    fn bounds() -> (r: (i128, i128)) {
        (u32::MIN as i128, u32::MAX as i128)
    }

    fn add(&self, other: &Self) -> (r: Self) {
        *self + *other
    }
}

impl PartialCompare for u32 {
    open spec fn spec_lt(&self, other: &Self) -> bool {
        *self < *other
    }

    open spec fn spec_gt(&self, other: &Self) -> bool {
        *self > *other
    }

    fn lt(&self, other: &Self) -> (r: bool) {
        *self < *other
    }
    fn gt(&self, other: &Self) -> (r: bool) {
        *self > *other
    }

    open spec fn spec_unordered(&self) -> bool {
        false
    }

    fn unordered(&self) -> (r: bool) {
        false
    }
}

impl Integer for u64 {
    open spec fn zero_spec() -> Self {
        0
    }

    proof fn lemma_zero_spec(z: Self) {
        assert(z.int_value() == z as int);
    }

    open spec fn int_value(&self) -> int {
        *self as int
    }

    open spec fn min_int() -> int {
        u64::MIN as int
    }

    open spec fn max_int() -> int {
        u64::MAX as int
    }

    proof fn lemma_range(&self) {
    }

    proof fn lemma_injective(&self, other: &Self) {
    }

    fn zero() -> (r: Self) {
        0
    }

    fn lt(&self, other: &Self) -> (r: bool) {
        *self < *other
    }

    fn to_i128(&self) -> (r: i128) {
        *self as i128
    }

    fn bounds() -> (r: (i128, i128)) {
        (u64::MIN as i128, u64::MAX as i128)
    }

    fn add(&self, other: &Self) -> (r: Self) {
        *self + *other
    }
}

impl PartialCompare for u64 {
    open spec fn spec_lt(&self, other: &Self) -> bool {
        *self < *other
    }

    open spec fn spec_gt(&self, other: &Self) -> bool {
        *self > *other
    }

    fn lt(&self, other: &Self) -> (r: bool) {
        *self < *other
    }
    fn gt(&self, other: &Self) -> (r: bool) {
        *self > *other
    }

    open spec fn spec_unordered(&self) -> bool {
        false
    }

    fn unordered(&self) -> (r: bool) {
        false
    }
}

/// A float held by its IEEE-754 bit pattern, ordered as the float it encodes:
/// `<` is false whenever either side is a NaN.
pub trait FloatBits: Copy + Sized {
    spec fn float_lt(&self, other: &Self) -> bool;

    /// Whether the bits encode a NaN.
    spec fn float_is_nan(&self) -> bool;

    fn less(&self, other: &Self) -> (r: bool)
        ensures
            r == self.float_lt(other),
    ;

    fn is_nan(&self) -> (r: bool)
        ensures
            r == self.float_is_nan(),
    ;
}

impl FloatBits for u64 {
    open spec fn float_lt(&self, other: &Self) -> bool {
        f64_lt(*self, *other)
    }

    open spec fn float_is_nan(&self) -> bool {
        is_nan(*self)
    }

    fn less(&self, other: &Self) -> (r: bool) {
        f64_less(*self, *other)
    }

    fn is_nan(&self) -> (r: bool) {
        f64_is_nan(*self)
    }
}

impl FloatBits for u32 {
    open spec fn float_lt(&self, other: &Self) -> bool {
        f32_lt(*self, *other)
    }

    open spec fn float_is_nan(&self) -> bool {
        is_nan32(*self)
    }

    fn less(&self, other: &Self) -> (r: bool) {
        f32_less(*self, *other)
    }

    fn is_nan(&self) -> (r: bool) {
        f32_is_nan(*self)
    }
}

} // verus!
