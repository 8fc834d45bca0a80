//! What this crate takes for granted about the `num` crate.
//!
//! The digit extractor is generic over the unsigned integer widths, and it gets
//! its two constants and its conversion to a platform-sized count from `num`'s
//! `Zero`, `One` and `ToPrimitive`. Nothing below is proved here: each item
//! states, for one primitive type, what the implementation in `num` returns.
use vstd::prelude::*;

verus! {

/// `num::Zero::zero` for `u8` returns the additive identity, the number `0`.
pub assume_specification[ <u8 as num::Zero>::zero ]() -> (r: u8)
    ensures
        r == 0,
;

/// `num::One::one` for `u8` returns the multiplicative identity, the number `1`.
pub assume_specification[ <u8 as num::One>::one ]() -> (r: u8)
    ensures
        r == 1,
;

/// `num::ToPrimitive::to_usize` for `u8` returns the same number as a `usize`
/// when a `usize` can hold it, and `None` when it cannot.
pub assume_specification[ <u8 as num::ToPrimitive>::to_usize ](x: &u8) -> (r: Option<usize>)
    ensures
        r == (if *x <= usize::MAX {
            Some(*x as usize)
        } else {
            None
        }),
;

/// `num::Zero::zero` for `u16` returns the additive identity, the number `0`.
pub assume_specification[ <u16 as num::Zero>::zero ]() -> (r: u16)
    ensures
        r == 0,
;

/// `num::One::one` for `u16` returns the multiplicative identity, the number `1`.
pub assume_specification[ <u16 as num::One>::one ]() -> (r: u16)
    ensures
        r == 1,
;

/// `num::ToPrimitive::to_usize` for `u16` returns the same number as a `usize`
/// when a `usize` can hold it, and `None` when it cannot.
pub assume_specification[ <u16 as num::ToPrimitive>::to_usize ](x: &u16) -> (r: Option<usize>)
    ensures
        r == (if *x <= usize::MAX {
            Some(*x as usize)
        } else {
            None
        }),
;

/// `num::Zero::zero` for `u32` returns the additive identity, the number `0`.
pub assume_specification[ <u32 as num::Zero>::zero ]() -> (r: u32)
    ensures
        r == 0,
;

/// `num::One::one` for `u32` returns the multiplicative identity, the number `1`.
pub assume_specification[ <u32 as num::One>::one ]() -> (r: u32)
    ensures
        r == 1,
;

/// `num::ToPrimitive::to_usize` for `u32` returns the same number as a `usize`
/// when a `usize` can hold it, and `None` when it cannot.
pub assume_specification[ <u32 as num::ToPrimitive>::to_usize ](x: &u32) -> (r: Option<usize>)
    ensures
        r == (if *x <= usize::MAX {
            Some(*x as usize)
        } else {
            None
        }),
;

/// `num::Zero::zero` for `u64` returns the additive identity, the number `0`.
pub assume_specification[ <u64 as num::Zero>::zero ]() -> (r: u64)
    ensures
        r == 0,
;

/// `num::One::one` for `u64` returns the multiplicative identity, the number `1`.
pub assume_specification[ <u64 as num::One>::one ]() -> (r: u64)
    ensures
        r == 1,
;

/// `num::ToPrimitive::to_usize` for `u64` returns the same number as a `usize`
/// when a `usize` can hold it, and `None` when it cannot.
pub assume_specification[ <u64 as num::ToPrimitive>::to_usize ](x: &u64) -> (r: Option<usize>)
    ensures
        r == (if *x <= usize::MAX {
            Some(*x as usize)
        } else {
            None
        }),
;

/// `num::Zero::zero` for `u128` returns the additive identity, the number `0`.
pub assume_specification[ <u128 as num::Zero>::zero ]() -> (r: u128)
    ensures
        r == 0,
;

/// `num::One::one` for `u128` returns the multiplicative identity, the number `1`.
pub assume_specification[ <u128 as num::One>::one ]() -> (r: u128)
    ensures
        r == 1,
;

/// `num::ToPrimitive::to_usize` for `u128` returns the same number as a `usize`
/// when a `usize` can hold it, and `None` when it cannot.
pub assume_specification[ <u128 as num::ToPrimitive>::to_usize ](x: &u128) -> (r: Option<usize>)
    ensures
        r == (if *x <= usize::MAX {
            Some(*x as usize)
        } else {
            None
        }),
;

/// `num::Zero::zero` for `usize` returns the additive identity, the number `0`.
pub assume_specification[ <usize as num::Zero>::zero ]() -> (r: usize)
    ensures
        r == 0,
;

/// `num::One::one` for `usize` returns the multiplicative identity, the number `1`.
pub assume_specification[ <usize as num::One>::one ]() -> (r: usize)
    ensures
        r == 1,
;

/// `num::ToPrimitive::to_usize` for `usize` returns the same number as a `usize`
/// when a `usize` can hold it, and `None` when it cannot.
pub assume_specification[ <usize as num::ToPrimitive>::to_usize ](x: &usize) -> (r: Option<usize>)
    ensures
        r == (if *x <= usize::MAX {
            Some(*x as usize)
        } else {
            None
        }),
;

} // verus!
