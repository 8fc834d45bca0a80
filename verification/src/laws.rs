//! Laws of digit extraction, proved about the model.
//!
//! The executable functions promise that a step does to the model what
//! `PackState::step` says and produces what `PackState::output` says. The laws
//! below say what follows for any number of steps.
use crate::arith::{lemma_low_and_high, lemma_pow_nonnegative, lemma_pow_unfold};
use crate::model::{compose, digit_at, digits_below, size_hint_of, PackState};
use vstd::arithmetic::div_mod::{
    lemma_basic_div, lemma_div_basics, lemma_div_denominator, lemma_mod_pos_bound,
};
use vstd::arithmetic::mul::{lemma_mul_is_associative, lemma_mul_is_distributive_add};
use vstd::arithmetic::power::{lemma_pow0, lemma_pow_positive, pow};
use vstd::prelude::*;

verus! {

/// Taking a single step in a row is taking a step.
proof fn lemma_steps_one(s: PackState)
    ensures
        s.steps(1) == s.step(),
{
    reveal_with_fuel(PackState::steps, 2);
}

/// A step on an active state uses up exactly one digit and keeps the invariant;
/// a step on an exhausted state changes nothing.
pub proof fn law_step_counts_one(s: PackState)
    ensures
        s.wf() ==> s.step().wf(),
        s.active() ==> s.step().remaining() + 1 == s.remaining(),
        !s.active() ==> s.step() == s,
{
}

/// Taking `a` steps and then `b` steps is taking `a + b` steps.
pub proof fn law_steps_add(s: PackState, a: nat, b: nat)
    ensures
        s.steps(a).steps(b) == s.steps(a + b),
    decreases a,
{
    if a > 0 {
        law_steps_add(s.step(), (a - 1) as nat, b);
    }
}

/// Taking one more step after `n` steps is taking `n + 1` steps.
pub proof fn law_steps_then_step(s: PackState, n: nat)
    ensures
        s.steps(n).step() == s.steps(n + 1),
{
    law_steps_add(s, n, 1);
    lemma_steps_one(s.steps(n));
}

/// Steps keep the invariant, the base and the length, and each step that is
/// taken while digits remain uses up exactly one of them.
pub proof fn law_remaining_after_steps(s: PackState, n: nat)
    ensures
        s.wf() ==> s.steps(n).wf(),
        s.steps(n).length == s.length,
        s.steps(n).modulo == s.modulo,
        s.steps(n).remaining() == if n <= s.remaining() {
            (s.remaining() - n) as nat
        } else {
            0
        },
    decreases n,
{
    if n > 0 {
        law_remaining_after_steps(s.step(), (n - 1) as nat);
    }
}

/// As long as digits remain, `n` steps divide the value by the `n`-th power of
/// the base and count `n` digits.
pub proof fn law_steps_closed_form(s: PackState, n: nat)
    requires
        n > 0 ==> s.modulo > 0,
        n <= s.remaining(),
    ensures
        s.steps(n) == s.advanced(n),
    decreases n,
{
    let m = s.modulo as int;
    if n == 0 {
        lemma_pow0(m);
        lemma_div_basics(s.value as int);
    } else {
        let rest = (n - 1) as nat;
        law_steps_closed_form(s.step(), rest);
        lemma_pow_positive(m, rest);
        lemma_pow_unfold(m, n);
        lemma_div_denominator(s.value as int, m, pow(m, rest));
    }
}

/// The digit produced after `k` earlier steps is the digit of the value at
/// position `k`, and it is smaller than the base.
pub proof fn law_output_is_digit(s: PackState, k: nat)
    requires
        s.modulo > 0,
        k < s.remaining(),
    ensures
        s.steps(k).output() == Some(digit_at(s.value, s.modulo, k)),
        digit_at(s.value, s.modulo, k) < s.modulo,
{
    let m = s.modulo as int;
    law_steps_closed_form(s, k);
    lemma_pow_positive(m, k);
    lemma_mod_pos_bound(s.value as int / pow(m, k), m);
}

/// The digits still to come are the outputs of the steps, one after the other.
pub proof fn law_digits_are_outputs(s: PackState)
    requires
        s.modulo > 0,
    ensures
        s.digits().len() == s.remaining(),
        forall|k: nat|
            k < s.remaining() ==> #[trigger] s.steps(k).output() == Some(s.digits()[k as int]),
{
    assert forall|k: nat| k < s.remaining() implies #[trigger] s.steps(k).output() == Some(
        s.digits()[k as int],
    ) by {
        law_output_is_digit(s, k);
    }
}

/// Once the value is smaller than the `k`-th power of the base, the digit at
/// position `k` is zero: steps beyond the digits that the value has produce `0`.
pub proof fn law_truncation(value: nat, modulo: nat, k: nat)
    requires
        modulo > 0,
        value < pow(modulo as int, k),
    ensures
        digit_at(value, modulo, k) == 0,
{
    lemma_basic_div(value as int, pow(modulo as int, k));
}

/// An exhausted state produces nothing and no number of steps changes it.
pub proof fn law_exhausted_is_fixed(s: PackState, n: nat)
    requires
        !s.active(),
    ensures
        s.output() is None,
        s.steps(n) == s,
    decreases n,
{
    if n > 0 {
        law_exhausted_is_fixed(s, (n - 1) as nat);
    }
}

/// Exactly `length` digits come out of a fresh state: each of the first `length`
/// steps produces one, and every step after them produces nothing and leaves the
/// state as it is.
pub proof fn law_exhaustion(value: nat, modulo: nat, length: nat, n: nat)
    ensures
        n < length ==> PackState::fresh(value, modulo, length).steps(n).output() is Some,
        n >= length ==> PackState::fresh(value, modulo, length).steps(n).output() is None,
        n >= length ==> PackState::fresh(value, modulo, length).steps(n) == PackState::fresh(
            value,
            modulo,
            length,
        ).steps(length),
{
    let s = PackState::fresh(value, modulo, length);
    law_remaining_after_steps(s, n);
    if n >= length {
        let more = (n - length) as nat;
        law_remaining_after_steps(s, length);
        law_steps_add(s, length, more);
        law_exhausted_is_fixed(s.steps(length), more);
    }
}

/// A fresh state has `length` digits to come, and none once they are taken.
pub proof fn law_count_is_length(value: nat, modulo: nat, length: nat)
    ensures
        PackState::fresh(value, modulo, length).wf(),
        PackState::fresh(value, modulo, length).remaining() == length,
        PackState::fresh(value, modulo, length).advanced(length).remaining() == 0,
{
}

/// What is reported of a fresh state after `n` steps is `length - n` as both
/// bounds, and `0` as both bounds from the `length`-th step on, whenever a
/// `usize` can hold `length - n`.
pub proof fn law_size_hint_after_steps(value: nat, modulo: nat, length: nat, n: nat)
    requires
        n <= length ==> length - n <= usize::MAX,
    ensures
        n <= length ==> size_hint_of(PackState::fresh(value, modulo, length).steps(n).remaining())
            == (((length - n) as usize, Some((length - n) as usize))),
        n >= length ==> size_hint_of(PackState::fresh(value, modulo, length).steps(n).remaining())
            == ((0usize, Some(0usize))),
{
    law_remaining_after_steps(PackState::fresh(value, modulo, length), n);
}

/// The composed number is its lowest digit plus the base times the number
/// composed of the other digits.
pub proof fn law_compose_front(digits: Seq<nat>, modulo: nat)
    requires
        digits.len() > 0,
    ensures
        compose(digits, modulo) == digits[0] + modulo * compose(digits.skip(1), modulo),
    decreases digits.len(),
{
    let m = modulo as int;
    let front = digits.drop_last();
    let back = digits.skip(1);
    let top = (digits.len() - 1) as nat;
    let high = digits.last() as int;
    lemma_pow_nonnegative(modulo, top);
    assert(high * pow(m, top) >= 0) by (nonlinear_arith)
        requires
            high >= 0,
            pow(m, top) >= 0,
    ;
    assert(compose(digits, modulo) == compose(front, modulo) + high * pow(m, top));
    if digits.len() == 1 {
        lemma_pow0(m);
        assert(compose(front, modulo) == 0);
        assert(compose(back, modulo) == 0);
        assert(modulo * compose(back, modulo) == 0) by (nonlinear_arith)
            requires
                compose(back, modulo) == 0,
        ;
    } else {
        let below = (top - 1) as nat;
        let inner = compose(front.skip(1), modulo) as int;
        law_compose_front(front, modulo);
        assert(back.drop_last() =~= front.skip(1));
        assert(back.last() == digits.last());
        lemma_pow_nonnegative(modulo, below);
        assert(high * pow(m, below) >= 0) by (nonlinear_arith)
            requires
                high >= 0,
                pow(m, below) >= 0,
        ;
        assert(compose(back, modulo) == inner + high * pow(m, below));
        assert(m * (high * pow(m, below)) == high * pow(m, top)) by {
            lemma_pow_unfold(m, top);
            lemma_mul_is_associative(m, high, pow(m, below));
            lemma_mul_is_associative(high, m, pow(m, below));
        }
        assert(m * (inner + high * pow(m, below)) == m * inner + high * pow(m, top)) by {
            lemma_mul_is_distributive_add(m, inner, high * pow(m, below));
        }
    }
}

/// After `k` steps on the number composed of `digits`, what is left is the
/// number composed of the digits from position `k` on.
proof fn lemma_round_trip_steps(digits: Seq<nat>, modulo: nat, k: nat)
    requires
        digits_below(digits, modulo),
        k <= digits.len(),
    ensures
        PackState::fresh(compose(digits, modulo), modulo, digits.len()).steps(k) == (PackState {
            value: compose(digits.skip(k as int), modulo),
            modulo,
            length: digits.len(),
            index: k,
        }),
    decreases k,
{
    let s = PackState::fresh(compose(digits, modulo), modulo, digits.len());
    if k == 0 {
        assert(digits.skip(0) =~= digits);
    } else {
        let before = (k - 1) as nat;
        let rest = digits.skip(before as int);
        lemma_round_trip_steps(digits, modulo, before);
        law_steps_then_step(s, before);
        assert(rest.skip(1) =~= digits.skip(k as int));
        law_compose_front(rest, modulo);
        lemma_low_and_high(compose(rest, modulo), modulo, rest[0], compose(rest.skip(1), modulo));
    }
}

/// Composing digits below the base and extracting as many digits again gives
/// the same digits back, in order.
pub proof fn law_round_trip(digits: Seq<nat>, modulo: nat)
    requires
        digits_below(digits, modulo),
    ensures
        PackState::fresh(compose(digits, modulo), modulo, digits.len()).digits() == digits,
        forall|k: nat|
            k < digits.len() ==> #[trigger] PackState::fresh(
                compose(digits, modulo),
                modulo,
                digits.len(),
            ).steps(k).output() == Some(digits[k as int]),
{
    let s = PackState::fresh(compose(digits, modulo), modulo, digits.len());
    assert forall|k: nat| k < digits.len() implies #[trigger] s.steps(k).output() == Some(
        digits[k as int],
    ) by {
        let rest = digits.skip(k as int);
        lemma_round_trip_steps(digits, modulo, k);
        law_compose_front(rest, modulo);
        lemma_low_and_high(compose(rest, modulo), modulo, rest[0], compose(rest.skip(1), modulo));
    }
    if digits.len() > 0 {
        law_digits_are_outputs(s);
        assert forall|k: int| 0 <= k < digits.len() implies s.digits()[k] == digits[k] by {
            assert(s.steps(k as nat).output() == Some(s.digits()[k]));
        }
    }
    assert(s.digits() =~= digits);
}

} // verus!
