//! Facts about powers and division that the laws rest on.
use vstd::arithmetic::div_mod::lemma_fundamental_div_mod_converse;
use vstd::arithmetic::power::pow;
use vstd::prelude::*;

verus! {

/// A power with a positive exponent is the base times the next lower power.
pub(crate) proof fn lemma_pow_unfold(b: int, e: nat)
    requires
        e > 0,
    ensures
        pow(b, e) == b * pow(b, (e - 1) as nat),
{
    reveal(pow);
}

/// No power of a natural number is negative.
pub(crate) proof fn lemma_pow_nonnegative(b: nat, e: nat)
    ensures
        pow(b as int, e) >= 0,
    decreases e,
{
    reveal(pow);
    if e > 0 {
        lemma_pow_nonnegative(b, (e - 1) as nat);
        assert(b * pow(b as int, (e - 1) as nat) >= 0) by (nonlinear_arith)
            requires
                b >= 0,
                pow(b as int, (e - 1) as nat) >= 0,
        ;
    }
}

/// A number of the form `low + modulo * high` with `low` below `modulo` has
/// remainder `low` and quotient `high`.
pub(crate) proof fn lemma_low_and_high(x: nat, modulo: nat, low: nat, high: nat)
    requires
        low < modulo,
        x == low + modulo * high,
    ensures
        x % modulo == low,
        x / modulo == high,
{
    assert(x as int == (high as int) * (modulo as int) + (low as int)) by (nonlinear_arith)
        requires
            x == low + modulo * high,
    ;
    lemma_fundamental_div_mod_converse(x as int, modulo as int, high as int, low as int);
}

} // verus!
