//! Fixed-width integers seen as mathematical integers.
//!
//! [`PrimInt`] gives the arithmetic that the integer shrinking strategies need, each
//! operation stated over the integer value, so those strategies are written once for
//! every primitive integer type.

use vstd::prelude::*;
use rand::rngs::StdRng;
use crate::rng::{random_i8, random_i16, random_i32, random_i64, random_i128, random_isize, random_u8, random_u16, random_u32, random_u64, random_u128, random_usize};

verus! {

/// Half of an integer, rounded toward zero (Rust's `x / 2`).
pub open spec fn trunc_half(x: int) -> int {
    if x >= 0 {
        x / 2
    } else {
        -((-x) / 2)
    }
}

/// A primitive integer type.
pub trait PrimInt: Copy + Sized {
    /// The mathematical value.
    spec fn int_value(self) -> int;

    /// The smallest value of the type.
    spec fn lowest() -> int;

    /// The largest value of the type.
    spec fn highest() -> int;

    /// Every value lies in the type's range, which holds zero and one and reaches no
    /// lower below zero than one past the negated top.
    proof fn lemma_range(self)
        ensures
            Self::lowest() <= self.int_value() <= Self::highest(),
            Self::lowest() <= 0,
            1 <= Self::highest(),
            Self::lowest() >= -Self::highest() - 1,
    ;

    /// Values are determined by their mathematical value.
    proof fn lemma_injective(a: Self, b: Self)
        ensures
            a.int_value() == b.int_value() ==> a == b,
    ;

    /// The value zero.
    fn zero() -> (r: Self)
        ensures
            r.int_value() == 0,
    ;

    /// The smallest value of the type.
    fn minimum() -> (r: Self)
        ensures
            r.int_value() == Self::lowest(),
    ;

    /// The largest value of the type.
    fn maximum() -> (r: Self)
        ensures
            r.int_value() == Self::highest(),
    ;

    /// Whether `self < other`.
    fn less(self, other: Self) -> (r: bool)
        ensures
            r == (self.int_value() < other.int_value()),
    ;

    /// Whether `self == other`.
    fn same(self, other: Self) -> (r: bool)
        ensures
            r == (self.int_value() == other.int_value()),
    ;

    /// `self / 2`, rounded toward zero.
    fn half(self) -> (r: Self)
        ensures
            r.int_value() == trunc_half(self.int_value()),
    ;

    /// `self + other`, which must not overflow.
    fn plus(self, other: Self) -> (r: Self)
        requires
            Self::lowest() <= self.int_value() + other.int_value() <= Self::highest(),
        ensures
            r.int_value() == self.int_value() + other.int_value(),
    ;

    /// `self - other`, which must not overflow.
    fn minus(self, other: Self) -> (r: Self)
        requires
            Self::lowest() <= self.int_value() - other.int_value() <= Self::highest(),
        ensures
            r.int_value() == self.int_value() - other.int_value(),
    ;

    /// A value drawn from `lo..=hi`.
    fn random_in(rng: &mut StdRng, lo: Self, hi: Self) -> (r: Self)
        requires
            lo.int_value() <= hi.int_value(),
        ensures
            lo.int_value() <= r.int_value() <= hi.int_value(),
    ;

    /// `-self` where the type holds it.
    fn checked_negate(self) -> (r: Option<Self>)
        ensures
            r is Some <==> Self::lowest() <= -self.int_value() <= Self::highest(),
            r matches Some(n) ==> n.int_value() == -self.int_value(),
    ;
}

impl PrimInt for i8 {
    open spec fn int_value(self) -> int {
        self as int
    }

    open spec fn lowest() -> int {
        i8::MIN as int
    }

    open spec fn highest() -> int {
        i8::MAX as int
    }

    proof fn lemma_range(self) {
    }

    proof fn lemma_injective(a: Self, b: Self) {
    }

    fn zero() -> (r: Self) {
        0
    }

    fn random_in(rng: &mut StdRng, lo: Self, hi: Self) -> (r: Self) {
        random_i8(rng, lo, hi)
    }

    fn minimum() -> (r: Self) {
        i8::MIN
    }

    fn maximum() -> (r: Self) {
        i8::MAX
    }

    fn less(self, other: Self) -> (r: bool) {
        self < other
    }

    fn same(self, other: Self) -> (r: bool) {
        self == other
    }

    fn half(self) -> (r: Self) {
        self / 2
    }

    fn plus(self, other: Self) -> (r: Self) {
        self + other
    }

    fn minus(self, other: Self) -> (r: Self) {
        self - other
    }

    fn checked_negate(self) -> (r: Option<Self>) {
        if self == i8::MIN {
            None
        } else {
            Some(-self)
        }
    }
}

impl PrimInt for i16 {
    open spec fn int_value(self) -> int {
        self as int
    }

    open spec fn lowest() -> int {
        i16::MIN as int
    }

    open spec fn highest() -> int {
        i16::MAX as int
    }

    proof fn lemma_range(self) {
    }

    proof fn lemma_injective(a: Self, b: Self) {
    }

    fn zero() -> (r: Self) {
        0
    }

    fn random_in(rng: &mut StdRng, lo: Self, hi: Self) -> (r: Self) {
        random_i16(rng, lo, hi)
    }

    fn minimum() -> (r: Self) {
        i16::MIN
    }

    fn maximum() -> (r: Self) {
        i16::MAX
    }

    fn less(self, other: Self) -> (r: bool) {
        self < other
    }

    fn same(self, other: Self) -> (r: bool) {
        self == other
    }

    fn half(self) -> (r: Self) {
        self / 2
    }

    fn plus(self, other: Self) -> (r: Self) {
        self + other
    }

    fn minus(self, other: Self) -> (r: Self) {
        self - other
    }

    fn checked_negate(self) -> (r: Option<Self>) {
        if self == i16::MIN {
            None
        } else {
            Some(-self)
        }
    }
}

impl PrimInt for i32 {
    open spec fn int_value(self) -> int {
        self as int
    }

    open spec fn lowest() -> int {
        i32::MIN as int
    }

    open spec fn highest() -> int {
        i32::MAX as int
    }

    proof fn lemma_range(self) {
    }

    proof fn lemma_injective(a: Self, b: Self) {
    }

    fn zero() -> (r: Self) {
        0
    }

    fn random_in(rng: &mut StdRng, lo: Self, hi: Self) -> (r: Self) {
        random_i32(rng, lo, hi)
    }

    fn minimum() -> (r: Self) {
        i32::MIN
    }

    fn maximum() -> (r: Self) {
        i32::MAX
    }

    fn less(self, other: Self) -> (r: bool) {
        self < other
    }

    fn same(self, other: Self) -> (r: bool) {
        self == other
    }

    fn half(self) -> (r: Self) {
        self / 2
    }

    fn plus(self, other: Self) -> (r: Self) {
        self + other
    }

    fn minus(self, other: Self) -> (r: Self) {
        self - other
    }

    fn checked_negate(self) -> (r: Option<Self>) {
        if self == i32::MIN {
            None
        } else {
            Some(-self)
        }
    }
}

impl PrimInt for i64 {
    open spec fn int_value(self) -> int {
        self as int
    }

    open spec fn lowest() -> int {
        i64::MIN as int
    }

    open spec fn highest() -> int {
        i64::MAX as int
    }

    proof fn lemma_range(self) {
    }

    proof fn lemma_injective(a: Self, b: Self) {
    }

    fn zero() -> (r: Self) {
        0
    }

    fn random_in(rng: &mut StdRng, lo: Self, hi: Self) -> (r: Self) {
        random_i64(rng, lo, hi)
    }

    fn minimum() -> (r: Self) {
        i64::MIN
    }

    fn maximum() -> (r: Self) {
        i64::MAX
    }

    fn less(self, other: Self) -> (r: bool) {
        self < other
    }

    fn same(self, other: Self) -> (r: bool) {
        self == other
    }

    fn half(self) -> (r: Self) {
        self / 2
    }

    fn plus(self, other: Self) -> (r: Self) {
        self + other
    }

    fn minus(self, other: Self) -> (r: Self) {
        self - other
    }

    fn checked_negate(self) -> (r: Option<Self>) {
        if self == i64::MIN {
            None
        } else {
            Some(-self)
        }
    }
}

impl PrimInt for i128 {
    open spec fn int_value(self) -> int {
        self as int
    }

    open spec fn lowest() -> int {
        i128::MIN as int
    }

    open spec fn highest() -> int {
        i128::MAX as int
    }

    proof fn lemma_range(self) {
    }

    proof fn lemma_injective(a: Self, b: Self) {
    }

    fn zero() -> (r: Self) {
        0
    }

    fn random_in(rng: &mut StdRng, lo: Self, hi: Self) -> (r: Self) {
        random_i128(rng, lo, hi)
    }

    fn minimum() -> (r: Self) {
        i128::MIN
    }

    fn maximum() -> (r: Self) {
        i128::MAX
    }

    fn less(self, other: Self) -> (r: bool) {
        self < other
    }

    fn same(self, other: Self) -> (r: bool) {
        self == other
    }

    fn half(self) -> (r: Self) {
        self / 2
    }

    fn plus(self, other: Self) -> (r: Self) {
        self + other
    }

    fn minus(self, other: Self) -> (r: Self) {
        self - other
    }

    fn checked_negate(self) -> (r: Option<Self>) {
        if self == i128::MIN {
            None
        } else {
            Some(-self)
        }
    }
}

impl PrimInt for isize {
    open spec fn int_value(self) -> int {
        self as int
    }

    open spec fn lowest() -> int {
        isize::MIN as int
    }

    open spec fn highest() -> int {
        isize::MAX as int
    }

    proof fn lemma_range(self) {
    }

    proof fn lemma_injective(a: Self, b: Self) {
    }

    fn zero() -> (r: Self) {
        0
    }

    fn random_in(rng: &mut StdRng, lo: Self, hi: Self) -> (r: Self) {
        random_isize(rng, lo, hi)
    }

    fn minimum() -> (r: Self) {
        isize::MIN
    }

    fn maximum() -> (r: Self) {
        isize::MAX
    }

    fn less(self, other: Self) -> (r: bool) {
        self < other
    }

    fn same(self, other: Self) -> (r: bool) {
        self == other
    }

    fn half(self) -> (r: Self) {
        self / 2
    }

    fn plus(self, other: Self) -> (r: Self) {
        self + other
    }

    fn minus(self, other: Self) -> (r: Self) {
        self - other
    }

    fn checked_negate(self) -> (r: Option<Self>) {
        if self == isize::MIN {
            None
        } else {
            Some(-self)
        }
    }
}

impl PrimInt for u8 {
    open spec fn int_value(self) -> int {
        self as int
    }

    open spec fn lowest() -> int {
        u8::MIN as int
    }

    open spec fn highest() -> int {
        u8::MAX as int
    }

    proof fn lemma_range(self) {
    }

    proof fn lemma_injective(a: Self, b: Self) {
    }

    fn zero() -> (r: Self) {
        0
    }

    fn random_in(rng: &mut StdRng, lo: Self, hi: Self) -> (r: Self) {
        random_u8(rng, lo, hi)
    }

    fn minimum() -> (r: Self) {
        u8::MIN
    }

    fn maximum() -> (r: Self) {
        u8::MAX
    }

    fn less(self, other: Self) -> (r: bool) {
        self < other
    }

    fn same(self, other: Self) -> (r: bool) {
        self == other
    }

    fn half(self) -> (r: Self) {
        self / 2
    }

    fn plus(self, other: Self) -> (r: Self) {
        self + other
    }

    fn minus(self, other: Self) -> (r: Self) {
        self - other
    }

    fn checked_negate(self) -> (r: Option<Self>) {
        if self == 0 {
            Some(0)
        } else {
            None
        }
    }
}

impl PrimInt for u16 {
    open spec fn int_value(self) -> int {
        self as int
    }

    open spec fn lowest() -> int {
        u16::MIN as int
    }

    open spec fn highest() -> int {
        u16::MAX as int
    }

    proof fn lemma_range(self) {
    }

    proof fn lemma_injective(a: Self, b: Self) {
    }

    fn zero() -> (r: Self) {
        0
    }

    fn random_in(rng: &mut StdRng, lo: Self, hi: Self) -> (r: Self) {
        random_u16(rng, lo, hi)
    }

    fn minimum() -> (r: Self) {
        u16::MIN
    }

    fn maximum() -> (r: Self) {
        u16::MAX
    }

    fn less(self, other: Self) -> (r: bool) {
        self < other
    }

    fn same(self, other: Self) -> (r: bool) {
        self == other
    }

    fn half(self) -> (r: Self) {
        self / 2
    }

    fn plus(self, other: Self) -> (r: Self) {
        self + other
    }

    fn minus(self, other: Self) -> (r: Self) {
        self - other
    }

    fn checked_negate(self) -> (r: Option<Self>) {
        if self == 0 {
            Some(0)
        } else {
            None
        }
    }
}

impl PrimInt for u32 {
    open spec fn int_value(self) -> int {
        self as int
    }

    open spec fn lowest() -> int {
        u32::MIN as int
    }

    open spec fn highest() -> int {
        u32::MAX as int
    }

    proof fn lemma_range(self) {
    }

    proof fn lemma_injective(a: Self, b: Self) {
    }

    fn zero() -> (r: Self) {
        0
    }

    fn random_in(rng: &mut StdRng, lo: Self, hi: Self) -> (r: Self) {
        random_u32(rng, lo, hi)
    }

    fn minimum() -> (r: Self) {
        u32::MIN
    }

    fn maximum() -> (r: Self) {
        u32::MAX
    }

    fn less(self, other: Self) -> (r: bool) {
        self < other
    }

    fn same(self, other: Self) -> (r: bool) {
        self == other
    }

    fn half(self) -> (r: Self) {
        self / 2
    }

    fn plus(self, other: Self) -> (r: Self) {
        self + other
    }

    fn minus(self, other: Self) -> (r: Self) {
        self - other
    }

    fn checked_negate(self) -> (r: Option<Self>) {
        if self == 0 {
            Some(0)
        } else {
            None
        }
    }
}

impl PrimInt for u64 {
    open spec fn int_value(self) -> int {
        self as int
    }

    open spec fn lowest() -> int {
        u64::MIN as int
    }

    open spec fn highest() -> int {
        u64::MAX as int
    }

    proof fn lemma_range(self) {
    }

    proof fn lemma_injective(a: Self, b: Self) {
    }

    fn zero() -> (r: Self) {
        0
    }

    fn random_in(rng: &mut StdRng, lo: Self, hi: Self) -> (r: Self) {
        random_u64(rng, lo, hi)
    }

    fn minimum() -> (r: Self) {
        u64::MIN
    }

    fn maximum() -> (r: Self) {
        u64::MAX
    }

    fn less(self, other: Self) -> (r: bool) {
        self < other
    }

    fn same(self, other: Self) -> (r: bool) {
        self == other
    }

    fn half(self) -> (r: Self) {
        self / 2
    }

    fn plus(self, other: Self) -> (r: Self) {
        self + other
    }

    fn minus(self, other: Self) -> (r: Self) {
        self - other
    }

    fn checked_negate(self) -> (r: Option<Self>) {
        if self == 0 {
            Some(0)
        } else {
            None
        }
    }
}

impl PrimInt for u128 {
    open spec fn int_value(self) -> int {
        self as int
    }

    open spec fn lowest() -> int {
        u128::MIN as int
    }

    open spec fn highest() -> int {
        u128::MAX as int
    }

    proof fn lemma_range(self) {
    }

    proof fn lemma_injective(a: Self, b: Self) {
    }

    fn zero() -> (r: Self) {
        0
    }

    fn random_in(rng: &mut StdRng, lo: Self, hi: Self) -> (r: Self) {
        random_u128(rng, lo, hi)
    }

    fn minimum() -> (r: Self) {
        u128::MIN
    }

    fn maximum() -> (r: Self) {
        u128::MAX
    }

    fn less(self, other: Self) -> (r: bool) {
        self < other
    }

    fn same(self, other: Self) -> (r: bool) {
        self == other
    }

    fn half(self) -> (r: Self) {
        self / 2
    }

    fn plus(self, other: Self) -> (r: Self) {
        self + other
    }

    fn minus(self, other: Self) -> (r: Self) {
        self - other
    }

    fn checked_negate(self) -> (r: Option<Self>) {
        if self == 0 {
            Some(0)
        } else {
            None
        }
    }
}

impl PrimInt for usize {
    open spec fn int_value(self) -> int {
        self as int
    }

    open spec fn lowest() -> int {
        usize::MIN as int
    }

    open spec fn highest() -> int {
        usize::MAX as int
    }

    proof fn lemma_range(self) {
    }

    proof fn lemma_injective(a: Self, b: Self) {
    }

    fn zero() -> (r: Self) {
        0
    }

    fn random_in(rng: &mut StdRng, lo: Self, hi: Self) -> (r: Self) {
        random_usize(rng, lo, hi)
    }

    fn minimum() -> (r: Self) {
        usize::MIN
    }

    fn maximum() -> (r: Self) {
        usize::MAX
    }

    fn less(self, other: Self) -> (r: bool) {
        self < other
    }

    fn same(self, other: Self) -> (r: bool) {
        self == other
    }

    fn half(self) -> (r: Self) {
        self / 2
    }

    fn plus(self, other: Self) -> (r: Self) {
        self + other
    }

    fn minus(self, other: Self) -> (r: Self) {
        self - other
    }

    fn checked_negate(self) -> (r: Option<Self>) {
        if self == 0 {
            Some(0)
        } else {
            None
        }
    }
}

} // verus!
