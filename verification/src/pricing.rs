use vstd::prelude::*;
use vstd::arithmetic::div_mod::{
    lemma_div_denominator, lemma_div_multiples_vanish, lemma_div_pos_is_pos,
    lemma_fundamental_div_mod, lemma_mod_bound, lemma_multiply_divide_lt,
};
use vstd::arithmetic::mul::lemma_mul_upper_bound;
use crate::errors::DexError;

verus! {

/// Output of the constant-product pricing formula, over unbounded
/// integers: the fee is taken off the input leg in basis points, then the
/// trade follows `amount_in_with_fee * reserve_out / (reserve_in * 10_000
/// + amount_in_with_fee)`, rounded down in the pool's favor.
pub open spec fn spec_swap_output(amount_in: int, reserve_in: int, reserve_out: int, fee_bps: int) -> int {
    let amount_in_with_fee = amount_in * (10_000 - fee_bps);
    (amount_in_with_fee * reserve_out) / (reserve_in * 10_000 + amount_in_with_fee)
}

/// The wide numerator of the pricing formula does not fit the 128-bit
/// intermediate width.
pub open spec fn spec_swap_overflows(amount_in: int, reserve_out: int, fee_bps: int) -> bool {
    amount_in * (10_000 - fee_bps) * reserve_out > u128::MAX
}

/// The exact outcome of `calculate_swap_amount`: which inputs are
/// rejected, with which error, and the amount paid out on the rest.
pub open spec fn spec_swap_amount(amount_in: u64, reserve_in: u64, reserve_out: u64, fee_bps: u64) -> Result<u64, DexError> {
    if amount_in == 0 {
        Err(DexError::InvalidCalculation)
    } else if reserve_in == 0 || reserve_out == 0 {
        Err(DexError::InsufficientLiquidity)
    } else if fee_bps > 10_000 {
        Err(DexError::InvalidCalculation)
    } else if spec_swap_overflows(amount_in as int, reserve_out as int, fee_bps as int) {
        Err(DexError::MathOverflow)
    } else {
        Ok(spec_swap_output(amount_in as int, reserve_in as int, reserve_out as int, fee_bps as int) as u64)
    }
}

/// The pool can always pay what the formula computes: the output of a
/// valid swap is strictly below the outbound reserve.
pub proof fn lemma_swap_output_lt_reserve_out(amount_in: int, reserve_in: int, reserve_out: int, fee_bps: int)
    requires
        0 < amount_in,
        0 < reserve_in,
        0 < reserve_out,
        0 <= fee_bps <= 10_000,
    ensures
        0 <= spec_swap_output(amount_in, reserve_in, reserve_out, fee_bps) < reserve_out,
{
    let fee_multiplier = 10_000 - fee_bps;
    let amount_in_with_fee = amount_in * fee_multiplier;
    let numerator = amount_in_with_fee * reserve_out;
    let denominator = reserve_in * 10_000 + amount_in_with_fee;
    assert(0 <= amount_in_with_fee && 0 <= numerator && numerator < denominator * reserve_out)
        by (nonlinear_arith)
        requires
            0 < amount_in,
            0 < reserve_in,
            0 < reserve_out,
            0 <= fee_multiplier,
            amount_in_with_fee == amount_in * fee_multiplier,
            numerator == amount_in_with_fee * reserve_out,
            denominator == reserve_in * 10_000 + amount_in_with_fee,
    ;
    lemma_div_pos_is_pos(numerator, denominator);
    lemma_multiply_divide_lt(numerator, denominator, reserve_out);
}

/// With a zero fee, the formula reduces to the plain constant-product
/// quotient `reserve_out * amount_in / (reserve_in + amount_in)`.
pub proof fn lemma_swap_output_zero_fee(amount_in: int, reserve_in: int, reserve_out: int)
    requires
        0 < amount_in,
        0 < reserve_in,
        0 <= reserve_out,
    ensures
        spec_swap_output(amount_in, reserve_in, reserve_out, 0)
            == (reserve_out * amount_in) / (reserve_in + amount_in),
{
    let x = reserve_out * amount_in;
    let y = reserve_in + amount_in;
    assert(amount_in * (10_000 - 0) * reserve_out == 10_000 * x) by (nonlinear_arith)
        requires
            x == reserve_out * amount_in,
    ;
    assert(reserve_in * 10_000 + amount_in * (10_000 - 0) == 10_000 * y);
    assert(0 <= 10_000 * x) by (nonlinear_arith)
        requires
            0 < amount_in,
            0 <= reserve_out,
            x == reserve_out * amount_in,
    ;
    lemma_div_denominator(10_000 * x, 10_000, y);
    lemma_div_multiples_vanish(x, 10_000);
    assert(spec_swap_output(amount_in, reserve_in, reserve_out, 0) == (10_000 * x) / (10_000 * y));
}

/// The core soundness property of the pricing engine: a swap never
/// decreases the product of the reserves. With a positive fee the product
/// strictly grows in the pool's favor; with a zero fee it is preserved up
/// to rounding.
pub proof fn lemma_swap_preserves_product(amount_in: int, reserve_in: int, reserve_out: int, fee_bps: int)
    requires
        0 < amount_in,
        0 < reserve_in,
        0 < reserve_out,
        0 <= fee_bps <= 10_000,
    ensures
        (reserve_in + amount_in)
            * (reserve_out - spec_swap_output(amount_in, reserve_in, reserve_out, fee_bps))
            >= reserve_in * reserve_out,
{
    let fee_multiplier = 10_000 - fee_bps;
    let amount_in_with_fee = amount_in * fee_multiplier;
    let numerator = amount_in_with_fee * reserve_out;
    let denominator = reserve_in * 10_000 + amount_in_with_fee;
    let amount_out = numerator / denominator;
    lemma_swap_output_lt_reserve_out(amount_in, reserve_in, reserve_out, fee_bps);
    assert(0 <= numerator && 0 < denominator) by (nonlinear_arith)
        requires
            0 < amount_in,
            0 < reserve_in,
            0 < reserve_out,
            0 <= fee_multiplier,
            amount_in_with_fee == amount_in * fee_multiplier,
            numerator == amount_in_with_fee * reserve_out,
            denominator == reserve_in * 10_000 + amount_in_with_fee,
    ;
    lemma_fundamental_div_mod(numerator, denominator);
    lemma_mod_bound(numerator, denominator);
    assert(denominator * amount_out <= numerator);
    assert((reserve_in + amount_in) * (reserve_out - amount_out) >= reserve_in * reserve_out)
        by (nonlinear_arith)
        requires
            denominator * amount_out <= numerator,
            amount_in_with_fee == amount_in * fee_multiplier,
            numerator == amount_in_with_fee * reserve_out,
            denominator == reserve_in * 10_000 + amount_in_with_fee,
            0 <= amount_out <= reserve_out,
            0 <= fee_multiplier <= 10_000,
            0 < amount_in,
            0 < reserve_in,
            0 < reserve_out,
    ;
}

/// Amount paid out by a swap of `amount_in` against reserves
/// `(reserve_in, reserve_out)` with a fee of `fee_bps` basis points,
/// following the constant-product formula with the fee taken off the
/// input leg. All intermediate products are formed in 128 bits and any
/// value that exceeds that width is rejected rather than wrapped; the
/// division rounds down in the pool's favor.
pub fn calculate_swap_amount(amount_in: u64, reserve_in: u64, reserve_out: u64, fee_bps: u64) -> (result: Result<u64, DexError>)
    ensures
        result == spec_swap_amount(amount_in, reserve_in, reserve_out, fee_bps),
        result matches Ok(amount_out) ==> {
            &&& 0 < amount_in
            &&& 0 < reserve_in
            &&& 0 < reserve_out
            &&& fee_bps <= 10_000
            &&& amount_out < reserve_out
            &&& amount_out == spec_swap_output(amount_in as int, reserve_in as int, reserve_out as int, fee_bps as int)
        },
{
    if amount_in == 0 {
        return Err(DexError::InvalidCalculation);
    }
    if reserve_in == 0 || reserve_out == 0 {
        return Err(DexError::InsufficientLiquidity);
    }
    if fee_bps > 10_000 {
        return Err(DexError::InvalidCalculation);
    }

    let fee_multiplier: u128 = 10_000u128 - (fee_bps as u128);
    proof {
        lemma_mul_upper_bound(amount_in as int, u64::MAX as int, fee_multiplier as int, 10_000);
    }
    let amount_in_with_fee: u128 = (amount_in as u128) * fee_multiplier;

    let numerator: u128 = match amount_in_with_fee.checked_mul(reserve_out as u128) {
        Some(n) => n,
        None => {
            return Err(DexError::MathOverflow);
        },
    };

    proof {
        lemma_mul_upper_bound(reserve_in as int, u64::MAX as int, 10_000, 10_000);
    }
    let denominator: u128 = (reserve_in as u128) * 10_000u128 + amount_in_with_fee;

    let amount_out: u128 = numerator / denominator;
    proof {
        lemma_swap_output_lt_reserve_out(amount_in as int, reserve_in as int, reserve_out as int, fee_bps as int);
    }
    Ok(amount_out as u64)
}

} // verus!
