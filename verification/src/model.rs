//! The mathematical model of digit extraction.
//!
//! An extractor is modelled by four natural numbers. Everything the executable
//! code promises is stated over this model, and the laws of the library are
//! proved about it.
use vstd::arithmetic::power::pow;
use vstd::prelude::*;

verus! {

/// The digit of `value` at position `k` in base `modulo`, position `0` being the
/// least significant: `value` divided by `modulo` to the power `k`, rounded
/// down, and reduced by `modulo`.
pub open spec fn digit_at(value: nat, modulo: nat, k: nat) -> nat {
    ((value as int / pow(modulo as int, k)) % (modulo as int)) as nat
}

/// The number that the digits stand for in base `modulo`, least significant
/// digit first: the sum of each digit times `modulo` to the power of its
/// position.
pub open spec fn compose(digits: Seq<nat>, modulo: nat) -> nat
    decreases digits.len(),
{
    if digits.len() == 0 {
        0
    } else {
        let top = (digits.len() - 1) as nat;
        (compose(digits.drop_last(), modulo) + digits.last() * pow(modulo as int, top)) as nat
    }
}

/// Whether every digit is smaller than `modulo`.
pub open spec fn digits_below(digits: Seq<nat>, modulo: nat) -> bool {
    forall|i: int| 0 <= i < digits.len() ==> digits[i] < modulo
}

/// What is reported of `remaining` steps: the exact count as both bounds when a
/// `usize` can hold it, and otherwise a lower bound of zero with no upper bound.
pub open spec fn size_hint_of(remaining: nat) -> (usize, Option<usize>) {
    if remaining <= usize::MAX {
        (remaining as usize, Some(remaining as usize))
    } else {
        (0, None)
    }
}

/// The state of an extractor.
pub struct PackState {
    /// What is left of the number: the digits not yet produced.
    pub value: nat,
    /// The base.
    pub modulo: nat,
    /// How many digits are produced in all.
    pub length: nat,
    /// How many digits have been produced.
    pub index: nat,
}

impl PackState {
    /// The state before any digit was produced.
    pub open spec fn fresh(value: nat, modulo: nat, length: nat) -> PackState {
        PackState { value, modulo, length, index: 0 }
    }

    /// The invariant of every state: no more digits produced than `length`.
    pub open spec fn wf(self) -> bool {
        self.index <= self.length
    }

    /// Whether a digit is still to come.
    pub open spec fn active(self) -> bool {
        self.index < self.length
    }

    /// How many digits are still to come.
    pub open spec fn remaining(self) -> nat {
        if self.index < self.length {
            (self.length - self.index) as nat
        } else {
            0
        }
    }

    /// What the next step produces: the lowest digit of `value` while the state
    /// is active, nothing once it is exhausted.
    pub open spec fn output(self) -> Option<nat> {
        if self.active() {
            Some(self.value % self.modulo)
        } else {
            None
        }
    }

    /// The state after one step: an active state drops its lowest digit and
    /// counts it, an exhausted state stays as it is.
    pub open spec fn step(self) -> PackState {
        if self.active() {
            PackState { value: self.value / self.modulo, index: self.index + 1, ..self }
        } else {
            self
        }
    }

    /// The state after `n` steps.
    pub open spec fn steps(self, n: nat) -> PackState
        decreases n,
    {
        if n == 0 {
            self
        } else {
            self.step().steps((n - 1) as nat)
        }
    }

    /// The state with `n` more digits produced, in closed form.
    pub open spec fn advanced(self, n: nat) -> PackState {
        PackState {
            value: (self.value as int / pow(self.modulo as int, n)) as nat,
            index: self.index + n,
            ..self
        }
    }

    /// The digits still to come, in the order in which they are produced.
    pub open spec fn digits(self) -> Seq<nat> {
        Seq::new(self.remaining(), |k: int| digit_at(self.value, self.modulo, k as nat))
    }
}

} // verus!
