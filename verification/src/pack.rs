//! The digit extractor.
use crate::laws::{
    law_output_is_digit, law_remaining_after_steps, law_steps_closed_form, law_steps_then_step,
};
use crate::model::{digit_at, size_hint_of, PackState};
use crate::unsigned::{number_of, numbers_of, UnsignedInt};
use vstd::prelude::*;

verus! {

/// Why a step could not be taken.
#[derive(Clone, Copy, Debug, PartialEq, Eq, Structural)]
pub enum UnpackError {
    /// A digit is due and the base is zero.
    DivisionByZero,
}

/// A number that is taken apart into `length` digits in base `modulo`, one digit
/// per step, least significant digit first.
pub struct IntegerPack<T: UnsignedInt> {
    // what is left of the packed number
    value: T,
    // the base
    modulo: T,
    // how many digits are produced in all
    length: T,
    // how many digits have been produced
    index: T,
}

impl<T: UnsignedInt> View for IntegerPack<T> {
    type V = PackState;

    closed spec fn view(&self) -> PackState {
        PackState {
            value: self.value.to_nat(),
            modulo: self.modulo.to_nat(),
            length: self.length.to_nat(),
            index: self.index.to_nat(),
        }
    }
}

/// Starts the extraction of `length` digits of `value` in base `modulo`.
///
/// Nothing is computed yet, and no base is refused: a base of zero only matters
/// once a digit is asked for.
pub fn unpack<T: UnsignedInt>(value: T, modulo: T, length: T) -> (pack: IntegerPack<T>)
    ensures
        pack@ == PackState::fresh(value.to_nat(), modulo.to_nat(), length.to_nat()),
{
    IntegerPack { value, modulo, length, index: T::zero_value() }
}

impl<T: UnsignedInt> IntegerPack<T> {
    #[verifier::type_invariant]
    spec fn well_formed(self) -> bool {
        self.index.to_nat() <= self.length.to_nat()
    }

    /// Takes one step: produces the lowest digit of what is left and drops it,
    /// or produces nothing, and changes nothing, once `length` digits are out.
    ///
    /// A digit cannot be taken in base zero, so an active state must have a
    /// nonzero base; `try_next` takes any state.
    pub fn next(&mut self) -> (digit: Option<T>)
        requires
            old(self)@.active() ==> old(self)@.modulo != 0,
        ensures
            number_of(digit) == old(self)@.output(),
            final(self)@ == old(self)@.step(),
            final(self)@.wf(),
    {
        proof {
            use_type_invariant(&*self);
            self.length.within_limit();
        }
        if self.index.less_than(self.length) {
            let v = self.value.remainder(self.modulo);
            self.index = self.index.plus(T::one_value());
            self.value = self.value.quotient(self.modulo);
            Some(v)
        } else {
            None
        }
    }

    /// Takes one step if it can be taken: as `next`, but an active state with a
    /// base of zero is reported as an error and left as it is.
    pub fn try_next(&mut self) -> (result: Result<Option<T>, UnpackError>)
        ensures
            final(self)@.wf(),
            match result {
                Ok(digit) => {
                    &&& !(old(self)@.active() && old(self)@.modulo == 0)
                    &&& number_of(digit) == old(self)@.output()
                    &&& final(self)@ == old(self)@.step()
                },
                Err(e) => {
                    &&& old(self)@.active() && old(self)@.modulo == 0
                    &&& e == UnpackError::DivisionByZero
                    &&& *final(self) == *old(self)
                },
            },
    {
        proof {
            use_type_invariant(&*self);
        }
        if self.index.less_than(self.length) && !T::zero_value().less_than(self.modulo) {
            Err(UnpackError::DivisionByZero)
        } else {
            Ok(self.next())
        }
    }

    /// How many steps are left: the exact count as lower and upper bound, or
    /// `(0, None)` when the count is too large for a `usize`.
    pub fn size_hint(&self) -> (hint: (usize, Option<usize>))
        ensures
            hint == size_hint_of(self@.remaining()),
            self@.wf(),
    {
        proof {
            use_type_invariant(self);
        }
        let v = self.length.minus(self.index);
        match v.try_to_usize() {
            Some(v) => (v, Some(v)),
            None => (0, None),
        }
    }

    /// Takes every step that is left and counts the digits that come out.
    ///
    /// The count must fit in a `usize`, and digits cannot be taken in base zero.
    pub fn count(&mut self) -> (n: usize)
        requires
            old(self)@.active() ==> old(self)@.modulo != 0,
            old(self)@.remaining() <= usize::MAX,
        ensures
            n == old(self)@.remaining(),
            final(self)@ == old(self)@.advanced(old(self)@.remaining()),
            final(self)@.wf(),
    {
        proof {
            use_type_invariant(&*self);
        }
        let ghost start = self@;
        let mut n: usize = 0;
        loop
            invariant
                start.active() ==> start.modulo != 0,
                start.remaining() <= usize::MAX,
                n <= start.remaining(),
                self@ == start.steps(n as nat),
                self@.wf(),
            ensures
                n == start.remaining(),
            decreases start.remaining() - n,
        {
            proof {
                law_remaining_after_steps(start, n as nat);
                law_steps_then_step(start, n as nat);
            }
            match self.next() {
                Some(_) => {
                    n = n + 1;
                },
                None => {
                    break ;
                },
            }
        }
        proof {
            law_steps_closed_form(start, start.remaining());
        }
        n
    }

    /// Takes every step that is left and returns the digits that come out, in
    /// the order in which they are produced.
    ///
    /// Their number must fit in a `usize`, and digits cannot be taken in base
    /// zero.
    pub fn collect(&mut self) -> (digits: Vec<T>)
        requires
            old(self)@.active() ==> old(self)@.modulo != 0,
            old(self)@.remaining() <= usize::MAX,
        ensures
            digits@.len() == old(self)@.remaining(),
            numbers_of(digits@) == old(self)@.digits(),
            final(self)@ == old(self)@.advanced(old(self)@.remaining()),
            final(self)@.wf(),
    {
        proof {
            use_type_invariant(&*self);
        }
        let ghost start = self@;
        let mut digits: Vec<T> = Vec::new();
        loop
            invariant
                start.active() ==> start.modulo != 0,
                digits@.len() <= start.remaining(),
                self@ == start.steps(digits@.len()),
                self@.wf(),
                forall|i: int|
                    0 <= i < digits@.len() ==> (#[trigger] digits@[i]).to_nat() == digit_at(
                        start.value,
                        start.modulo,
                        i as nat,
                    ),
            ensures
                digits@.len() == start.remaining(),
            decreases start.remaining() - digits@.len(),
        {
            proof {
                law_remaining_after_steps(start, digits@.len());
                law_steps_then_step(start, digits@.len());
            }
            match self.next() {
                Some(d) => {
                    proof {
                        law_output_is_digit(start, digits@.len());
                    }
                    digits.push(d);
                },
                None => {
                    break ;
                },
            }
        }
        proof {
            law_steps_closed_form(start, start.remaining());
            assert(numbers_of(digits@) =~= start.digits());
        }
        digits
    }
}

/// Numbers that can be taken apart by a method call.
pub trait Unpack<T: UnsignedInt = Self> {
    /// The number that `self` stands for.
    spec fn packed(&self) -> nat;

    /// Starts the extraction of `length` digits of `self` in base `modulo`.
    fn unpack(&self, modulo: T, length: T) -> (pack: IntegerPack<T>)
        ensures
            pack@ == PackState::fresh(self.packed(), modulo.to_nat(), length.to_nat()),
    ;
}

impl Unpack for usize {
    open spec fn packed(&self) -> nat {
        *self as nat
    }

    fn unpack(&self, modulo: usize, length: usize) -> (pack: IntegerPack<usize>) {
        unpack(*self, modulo, length)
    }
}

impl Unpack for u8 {
    open spec fn packed(&self) -> nat {
        *self as nat
    }

    fn unpack(&self, modulo: u8, length: u8) -> (pack: IntegerPack<u8>) {
        unpack(*self, modulo, length)
    }
}

impl Unpack for u16 {
    open spec fn packed(&self) -> nat {
        *self as nat
    }

    fn unpack(&self, modulo: u16, length: u16) -> (pack: IntegerPack<u16>) {
        unpack(*self, modulo, length)
    }
}

impl Unpack for u32 {
    open spec fn packed(&self) -> nat {
        *self as nat
    }

    fn unpack(&self, modulo: u32, length: u32) -> (pack: IntegerPack<u32>) {
        unpack(*self, modulo, length)
    }
}

impl Unpack for u64 {
    open spec fn packed(&self) -> nat {
        *self as nat
    }

    fn unpack(&self, modulo: u64, length: u64) -> (pack: IntegerPack<u64>) {
        unpack(*self, modulo, length)
    }
}

impl Unpack for u128 {
    open spec fn packed(&self) -> nat {
        *self as nat
    }

    fn unpack(&self, modulo: u128, length: u128) -> (pack: IntegerPack<u128>) {
        unpack(*self, modulo, length)
    }
}

} // verus!
