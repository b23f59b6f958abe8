use vstd::prelude::*;
use vstd::arithmetic::div_mod::{lemma_div_is_ordered, lemma_div_by_multiple, lemma_hoist_over_denominator};

verus! {

/// Basis points in a whole: a rate of 10000 bps is 100%.
pub const BPS_DENOMINATOR: u128 = 10000;

/// The fee that a rate of `bps` basis points takes from `amount`, rounded down.
pub open spec fn fee_of(amount: int, bps: int) -> int {
    (amount * bps) / 10000
}

/// Splits `amount` into the fee that a rate of `fee_bps` basis points takes
/// and the net that remains: `fee = floor(amount * fee_bps / 10000)`,
/// `net = amount - fee`.
///
/// The product is never formed in 128 bits: the amount is split into its
/// whole ten-thousands and the rest, so every amount is accepted. A rate
/// above 10000 bps would make the fee exceed the amount.
pub fn split(amount: u128, fee_bps: u16) -> (r: (u128, u128))
    requires
        fee_bps <= 10000,
    ensures
        r.0 == fee_of(amount as int, fee_bps as int),
        r.0 + r.1 == amount,
        r.0 <= amount,
{
    let b = fee_bps as u128;
    let q = amount / BPS_DENOMINATOR;
    let rem = amount % BPS_DENOMINATOR;
    proof {
        assert(amount == q * 10000 + rem) by (nonlinear_arith)
            requires q == amount / 10000, rem == amount % 10000;
        assert(q * b <= q * 10000) by (nonlinear_arith)
            requires b <= 10000, q >= 0;
        assert(rem * b <= 10000 * 10000) by (nonlinear_arith)
            requires b <= 10000, rem < 10000, rem >= 0;
        assert((amount as int) * (b as int) == (q * b) * 10000 + rem * b) by (nonlinear_arith)
            requires amount == q * 10000 + rem;
        lemma_hoist_over_denominator((rem * b) as int, (q * b) as int, 10000);
        assert((amount as int) * (b as int) <= (amount as int) * 10000) by (nonlinear_arith)
            requires b <= 10000, amount >= 0;
        lemma_div_is_ordered((amount as int) * (b as int), (amount as int) * 10000, 10000);
        lemma_div_by_multiple(amount as int, 10000);
    }
    let fee = q * b + (rem * b) / BPS_DENOMINATOR;
    (fee, amount - fee)
}

/// A rate of at most 100% takes at most the whole amount.
pub proof fn lemma_fee_at_most_amount(amount: int, bps: int)
    requires
        0 <= amount,
        0 <= bps <= 10000,
    ensures
        0 <= fee_of(amount, bps) <= amount,
{
    assert(amount * bps <= amount * 10000) by (nonlinear_arith)
        requires bps <= 10000, amount >= 0;
    assert(0 <= amount * bps) by (nonlinear_arith)
        requires bps >= 0, amount >= 0;
    lemma_div_is_ordered(amount * bps, amount * 10000, 10000);
    lemma_div_is_ordered(0, amount * bps, 10000);
    lemma_div_by_multiple(amount, 10000);
}

} // verus!
