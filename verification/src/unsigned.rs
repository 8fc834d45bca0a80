//! The unsigned integer widths that can be taken apart into digits.
use vstd::prelude::*;

verus! {

/// An unsigned machine integer, seen as the natural number it holds.
///
/// The extractor needs a zero, a one, comparison, addition, subtraction,
/// division, remainder and a conversion to `usize`; every operation is specified
/// by what it does to the numbers held.
pub trait UnsignedInt: Copy + Sized {
    /// The natural number that `self` holds.
    spec fn to_nat(self) -> nat;

    /// The largest number that the type can hold.
    spec fn limit() -> nat;

    /// No value exceeds the limit of its type.
    proof fn within_limit(self)
        ensures
            self.to_nat() <= Self::limit(),
    ;

    /// Two values that hold the same number are the same value.
    proof fn same_number(self, other: Self)
        ensures
            self.to_nat() == other.to_nat() ==> self == other,
    ;

    /// The number `0`.
    fn zero_value() -> (r: Self)
        ensures
            r.to_nat() == 0,
    ;

    /// The number `1`.
    fn one_value() -> (r: Self)
        ensures
            r.to_nat() == 1,
    ;

    /// Whether `self` is strictly smaller than `rhs`.
    fn less_than(self, rhs: Self) -> (r: bool)
        ensures
            r == (self.to_nat() < rhs.to_nat()),
    ;

    /// The sum, which must fit in the type.
    fn plus(self, rhs: Self) -> (r: Self)
        requires
            self.to_nat() + rhs.to_nat() <= Self::limit(),
        ensures
            r.to_nat() == self.to_nat() + rhs.to_nat(),
    ;

    /// The difference, which must not fall below zero.
    fn minus(self, rhs: Self) -> (r: Self)
        requires
            rhs.to_nat() <= self.to_nat(),
        ensures
            r.to_nat() == self.to_nat() - rhs.to_nat(),
    ;

    /// The quotient of the division by a nonzero `rhs`, rounded down.
    fn quotient(self, rhs: Self) -> (r: Self)
        requires
            rhs.to_nat() != 0,
        ensures
            r.to_nat() == self.to_nat() / rhs.to_nat(),
    ;

    /// The remainder of the division by a nonzero `rhs`.
    fn remainder(self, rhs: Self) -> (r: Self)
        requires
            rhs.to_nat() != 0,
        ensures
            r.to_nat() == self.to_nat() % rhs.to_nat(),
    ;

    /// The same number as a `usize`, or `None` when a `usize` cannot hold it.
    fn try_to_usize(self) -> (r: Option<usize>)
        ensures
            r == (if self.to_nat() <= usize::MAX {
                Some(self.to_nat() as usize)
            } else {
                None
            }),
    ;
}

/// The number that a digit holds, if there is a digit.
pub open spec fn number_of<T: UnsignedInt>(digit: Option<T>) -> Option<nat> {
    match digit {
        Some(d) => Some(d.to_nat()),
        None => None,
    }
}

/// The numbers that the digits hold.
pub open spec fn numbers_of<T: UnsignedInt>(digits: Seq<T>) -> Seq<nat> {
    Seq::new(digits.len(), |i: int| digits[i].to_nat())
}

/// The number that a digit holds determines the digit.
pub proof fn law_number_determines_digit<T: UnsignedInt>(a: Option<T>, b: Option<T>)
    requires
        number_of(a) == number_of(b),
    ensures
        a == b,
{
    match (a, b) {
        (Some(x), Some(y)) => {
            x.same_number(y);
        },
        _ => {},
    }
}

/// The numbers that digits hold determine the digits.
pub proof fn law_numbers_determine_digits<T: UnsignedInt>(a: Seq<T>, b: Seq<T>)
    requires
        numbers_of(a) == numbers_of(b),
    ensures
        a == b,
{
    assert(numbers_of(a).len() == a.len());
    assert(numbers_of(b).len() == b.len());
    assert forall|i: int| 0 <= i < a.len() implies a[i] == b[i] by {
        assert(numbers_of(a)[i] == a[i].to_nat());
        assert(numbers_of(b)[i] == b[i].to_nat());
        a[i].same_number(b[i]);
    }
    assert(a =~= b);
}

impl UnsignedInt for u8 {
    open spec fn to_nat(self) -> nat {
        self as nat
    }

    open spec fn limit() -> nat {
        u8::MAX as nat
    }

    proof fn within_limit(self) {
    }

    proof fn same_number(self, other: Self) {
    }

    fn zero_value() -> (r: u8) {
        <u8 as num::Zero>::zero()
    }

    fn one_value() -> (r: u8) {
        <u8 as num::One>::one()
    }

    fn less_than(self, rhs: u8) -> (r: bool) {
        self < rhs
    }

    fn plus(self, rhs: u8) -> (r: u8) {
        self + rhs
    }

    fn minus(self, rhs: u8) -> (r: u8) {
        self - rhs
    }

    fn quotient(self, rhs: u8) -> (r: u8) {
        self / rhs
    }

    fn remainder(self, rhs: u8) -> (r: u8) {
        self % rhs
    }

    fn try_to_usize(self) -> (r: Option<usize>) {
        <u8 as num::ToPrimitive>::to_usize(&self)
    }
}

impl UnsignedInt for u16 {
    open spec fn to_nat(self) -> nat {
        self as nat
    }

    open spec fn limit() -> nat {
        u16::MAX as nat
    }

    proof fn within_limit(self) {
    }

    proof fn same_number(self, other: Self) {
    }

    fn zero_value() -> (r: u16) {
        <u16 as num::Zero>::zero()
    }

    fn one_value() -> (r: u16) {
        <u16 as num::One>::one()
    }

    fn less_than(self, rhs: u16) -> (r: bool) {
        self < rhs
    }

    fn plus(self, rhs: u16) -> (r: u16) {
        self + rhs
    }

    fn minus(self, rhs: u16) -> (r: u16) {
        self - rhs
    }

    fn quotient(self, rhs: u16) -> (r: u16) {
        self / rhs
    }

    fn remainder(self, rhs: u16) -> (r: u16) {
        self % rhs
    }

    fn try_to_usize(self) -> (r: Option<usize>) {
        <u16 as num::ToPrimitive>::to_usize(&self)
    }
}

impl UnsignedInt for u32 {
    open spec fn to_nat(self) -> nat {
        self as nat
    }

    open spec fn limit() -> nat {
        u32::MAX as nat
    }

    proof fn within_limit(self) {
    }

    proof fn same_number(self, other: Self) {
    }

    fn zero_value() -> (r: u32) {
        <u32 as num::Zero>::zero()
    }

    fn one_value() -> (r: u32) {
        <u32 as num::One>::one()
    }

    fn less_than(self, rhs: u32) -> (r: bool) {
        self < rhs
    }

    fn plus(self, rhs: u32) -> (r: u32) {
        self + rhs
    }

    fn minus(self, rhs: u32) -> (r: u32) {
        self - rhs
    }

    fn quotient(self, rhs: u32) -> (r: u32) {
        self / rhs
    }

    fn remainder(self, rhs: u32) -> (r: u32) {
        self % rhs
    }

    fn try_to_usize(self) -> (r: Option<usize>) {
        <u32 as num::ToPrimitive>::to_usize(&self)
    }
}

impl UnsignedInt for u64 {
    open spec fn to_nat(self) -> nat {
        self as nat
    }

    open spec fn limit() -> nat {
        u64::MAX as nat
    }

    proof fn within_limit(self) {
    }

    proof fn same_number(self, other: Self) {
    }

    fn zero_value() -> (r: u64) {
        <u64 as num::Zero>::zero()
    }

    fn one_value() -> (r: u64) {
        <u64 as num::One>::one()
    }

    fn less_than(self, rhs: u64) -> (r: bool) {
        self < rhs
    }

    fn plus(self, rhs: u64) -> (r: u64) {
        self + rhs
    }

    fn minus(self, rhs: u64) -> (r: u64) {
        self - rhs
    }

    fn quotient(self, rhs: u64) -> (r: u64) {
        self / rhs
    }

    fn remainder(self, rhs: u64) -> (r: u64) {
        self % rhs
    }

    fn try_to_usize(self) -> (r: Option<usize>) {
        <u64 as num::ToPrimitive>::to_usize(&self)
    }
}

impl UnsignedInt for u128 {
    open spec fn to_nat(self) -> nat {
        self as nat
    }

    open spec fn limit() -> nat {
        u128::MAX as nat
    }

    proof fn within_limit(self) {
    }

    proof fn same_number(self, other: Self) {
    }

    fn zero_value() -> (r: u128) {
        <u128 as num::Zero>::zero()
    }

    fn one_value() -> (r: u128) {
        <u128 as num::One>::one()
    }

    fn less_than(self, rhs: u128) -> (r: bool) {
        self < rhs
    }

    fn plus(self, rhs: u128) -> (r: u128) {
        self + rhs
    }

    fn minus(self, rhs: u128) -> (r: u128) {
        self - rhs
    }

    fn quotient(self, rhs: u128) -> (r: u128) {
        self / rhs
    }

    fn remainder(self, rhs: u128) -> (r: u128) {
        self % rhs
    }

    fn try_to_usize(self) -> (r: Option<usize>) {
        <u128 as num::ToPrimitive>::to_usize(&self)
    }
}

impl UnsignedInt for usize {
    open spec fn to_nat(self) -> nat {
        self as nat
    }

    open spec fn limit() -> nat {
        usize::MAX as nat
    }

    proof fn within_limit(self) {
    }

    proof fn same_number(self, other: Self) {
    }

    fn zero_value() -> (r: usize) {
        <usize as num::Zero>::zero()
    }

    fn one_value() -> (r: usize) {
        <usize as num::One>::one()
    }

    fn less_than(self, rhs: usize) -> (r: bool) {
        self < rhs
    }

    fn plus(self, rhs: usize) -> (r: usize) {
        self + rhs
    }

    fn minus(self, rhs: usize) -> (r: usize) {
        self - rhs
    }

    fn quotient(self, rhs: usize) -> (r: usize) {
        self / rhs
    }

    fn remainder(self, rhs: usize) -> (r: usize) {
        self % rhs
    }

    fn try_to_usize(self) -> (r: Option<usize>) {
        <usize as num::ToPrimitive>::to_usize(&self)
    }
}

} // verus!
