use vstd::prelude::*;
use vstd::arithmetic::div_mod::{
    lemma_div_by_multiple, lemma_div_pos_is_pos, lemma_fundamental_div_mod, lemma_mod_bound,
    lemma_multiply_divide_le,
};
use vstd::arithmetic::mul::{lemma_mul_inequality, lemma_mul_upper_bound};
use crate::errors::DexError;
use crate::math::{integer_sqrt, is_floor_sqrt, lemma_floor_sqrt_is_floor_sqrt, spec_floor_sqrt};

verus! {

/// The exact outcome of `calculate_lp_tokens`: the first deposit is
/// denominated by the integer square root of the amounts' product; later
/// deposits mint the smaller of the two ratio-preserving share counts.
pub open spec fn spec_lp_tokens(amount_a: u64, amount_b: u64, reserve_a: u64, reserve_b: u64, lp_supply: u64) -> Result<u64, DexError> {
    if lp_supply == 0 {
        Ok(spec_floor_sqrt(amount_a as int * amount_b as int) as u64)
    } else if reserve_a == 0 || reserve_b == 0 {
        Err(DexError::InvalidCalculation)
    } else {
        let lp_a = (amount_a as int * lp_supply as int) / (reserve_a as int);
        let lp_b = (amount_b as int * lp_supply as int) / (reserve_b as int);
        if spec_min(lp_a, lp_b) > u64::MAX {
            Err(DexError::InvalidCalculation)
        } else {
            Ok(spec_min(lp_a, lp_b) as u64)
        }
    }
}

/// The smaller of two integers, used to cap share issuance to the more
/// constraining deposit leg.
pub open spec fn spec_min(x: int, y: int) -> int {
    if x <= y {
        x
    } else {
        y
    }
}

/// The exact outcome of `calculate_withdraw_amounts`: each asset is paid
/// out in proportion to the share of the supply being redeemed, rounded
/// down in the pool's favor.
pub open spec fn spec_withdraw_amounts(lp_token_amount: u64, reserve_a: u64, reserve_b: u64, lp_supply: u64) -> Result<(u64, u64), DexError> {
    if lp_token_amount == 0 {
        Err(DexError::InvalidCalculation)
    } else if lp_supply == 0 {
        Err(DexError::InsufficientLiquidity)
    } else {
        let amount_a = (reserve_a as int * lp_token_amount as int) / (lp_supply as int);
        let amount_b = (reserve_b as int * lp_token_amount as int) / (lp_supply as int);
        if amount_a > u64::MAX || amount_b > u64::MAX {
            Err(DexError::InvalidCalculation)
        } else {
            Ok((amount_a as u64, amount_b as u64))
        }
    }
}

/// Liquidity shares minted for a deposit of `(amount_a, amount_b)`
/// against the current reserves and share supply. The first deposit ever
/// (zero supply) is denominated by the rounded-down integer square root
/// of `amount_a * amount_b`, computed deterministically with no floating
/// point; any later deposit mints `min(amount_a * lp_supply / reserve_a,
/// amount_b * lp_supply / reserve_b)`, capping issuance to the more
/// constraining leg. A result that does not fit in 64 bits is rejected
/// rather than truncated.
pub fn calculate_lp_tokens(amount_a: u64, amount_b: u64, reserve_a: u64, reserve_b: u64, lp_supply: u64) -> (result: Result<u64, DexError>)
    ensures
        result == spec_lp_tokens(amount_a, amount_b, reserve_a, reserve_b, lp_supply),
        lp_supply == 0 ==> (result matches Ok(shares)
            && is_floor_sqrt(amount_a as int * amount_b as int, shares as int)),
{
    if lp_supply == 0 {
        proof {
            lemma_mul_upper_bound(amount_a as int, u64::MAX as int, amount_b as int, u64::MAX as int);
        }
        let product: u128 = (amount_a as u128) * (amount_b as u128);
        Ok(integer_sqrt(product))
    } else {
        if reserve_a == 0 || reserve_b == 0 {
            return Err(DexError::InvalidCalculation);
        }
        proof {
            lemma_mul_upper_bound(amount_a as int, u64::MAX as int, lp_supply as int, u64::MAX as int);
            lemma_mul_upper_bound(amount_b as int, u64::MAX as int, lp_supply as int, u64::MAX as int);
        }
        let lp_a: u128 = ((amount_a as u128) * (lp_supply as u128)) / (reserve_a as u128);
        let lp_b: u128 = ((amount_b as u128) * (lp_supply as u128)) / (reserve_b as u128);
        let lp_min: u128 = if lp_a <= lp_b { lp_a } else { lp_b };
        if lp_min > u64::MAX as u128 {
            Err(DexError::InvalidCalculation)
        } else {
            Ok(lp_min as u64)
        }
    }
}

/// Amounts of the two assets paid out for redeeming `lp_token_amount`
/// shares against the current reserves and share supply: each reserve is
/// scaled by `lp_token_amount / lp_supply` in 128-bit arithmetic,
/// rounding down so the pool never pays out more than the redeemer's
/// proportional slice. A result that does not fit in 64 bits is rejected
/// rather than truncated.
pub fn calculate_withdraw_amounts(lp_token_amount: u64, reserve_a: u64, reserve_b: u64, lp_supply: u64) -> (result: Result<(u64, u64), DexError>)
    ensures
        result == spec_withdraw_amounts(lp_token_amount, reserve_a, reserve_b, lp_supply),
        0 < lp_token_amount <= lp_supply ==> (result matches Ok(amounts)
            && amounts.0 <= reserve_a && amounts.1 <= reserve_b),
{
    proof {
        if 0 < lp_token_amount <= lp_supply {
            lemma_withdraw_within_reserve(reserve_a as int, lp_token_amount as int, lp_supply as int);
            lemma_withdraw_within_reserve(reserve_b as int, lp_token_amount as int, lp_supply as int);
        }
    }
    if lp_token_amount == 0 {
        return Err(DexError::InvalidCalculation);
    }
    if lp_supply == 0 {
        return Err(DexError::InsufficientLiquidity);
    }
    proof {
        lemma_mul_upper_bound(reserve_a as int, u64::MAX as int, lp_token_amount as int, u64::MAX as int);
        lemma_mul_upper_bound(reserve_b as int, u64::MAX as int, lp_token_amount as int, u64::MAX as int);
    }
    let amount_a: u128 = ((reserve_a as u128) * (lp_token_amount as u128)) / (lp_supply as u128);
    let amount_b: u128 = ((reserve_b as u128) * (lp_token_amount as u128)) / (lp_supply as u128);
    if amount_a > u64::MAX as u128 || amount_b > u64::MAX as u128 {
        return Err(DexError::InvalidCalculation);
    }
    Ok((amount_a as u64, amount_b as u64))
}

/// Redeeming at most the whole supply never asks for more than the
/// reserve holds.
pub proof fn lemma_withdraw_within_reserve(reserve: int, lp_token_amount: int, lp_supply: int)
    requires
        0 <= reserve,
        0 < lp_supply,
        0 <= lp_token_amount <= lp_supply,
    ensures
        0 <= (reserve * lp_token_amount) / lp_supply <= reserve,
{
    assert(0 <= reserve * lp_token_amount && reserve * lp_token_amount <= lp_supply * reserve)
        by (nonlinear_arith)
        requires
            0 <= reserve,
            0 < lp_supply,
            0 <= lp_token_amount <= lp_supply,
    ;
    lemma_div_pos_is_pos(reserve * lp_token_amount, lp_supply);
    lemma_multiply_divide_le(reserve * lp_token_amount, lp_supply, reserve);
}

/// Rounding never creates value: depositing `(amount_a, amount_b)` into a
/// consistent pool and immediately redeeming every share that the deposit
/// minted returns at most `(amount_a, amount_b)`, componentwise. `shares`
/// is what `calculate_lp_tokens` minted for the deposit; the redemption
/// divides the grown reserves by the grown supply.
pub proof fn lemma_deposit_withdraw_round_trip(amount_a: u64, amount_b: u64, reserve_a: u64, reserve_b: u64, lp_supply: u64, shares: u64)
    requires
        0 < amount_a,
        0 < amount_b,
        0 < shares,
        lp_supply == 0 ==> reserve_a == 0 && reserve_b == 0,
        lp_supply > 0 ==> reserve_a > 0 && reserve_b > 0,
        spec_lp_tokens(amount_a, amount_b, reserve_a, reserve_b, lp_supply) == Ok::<u64, DexError>(shares),
        reserve_a + amount_a <= u64::MAX,
        reserve_b + amount_b <= u64::MAX,
        lp_supply + shares <= u64::MAX,
    ensures
        (spec_withdraw_amounts(
            shares,
            (reserve_a + amount_a) as u64,
            (reserve_b + amount_b) as u64,
            (lp_supply + shares) as u64,
        ) matches Ok(amounts) && amounts.0 <= amount_a && amounts.1 <= amount_b),
{
    if lp_supply == 0 {
        let product = amount_a as int * amount_b as int;
        lemma_floor_sqrt_is_floor_sqrt(product);
        let root = spec_floor_sqrt(product);
        lemma_mul_upper_bound(amount_a as int, u64::MAX as int, amount_b as int, u64::MAX as int);
        assert(root <= u64::MAX) by (nonlinear_arith)
            requires
                is_floor_sqrt(product, root),
                product <= u64::MAX as int * u64::MAX as int,
        ;
        assert(shares == root);
        lemma_div_by_multiple(amount_a as int, shares as int);
        lemma_div_by_multiple(amount_b as int, shares as int);
        assert(amount_a as int * shares as int == (reserve_a + amount_a) * shares);
        assert(amount_b as int * shares as int == (reserve_b + amount_b) * shares);
    } else {
        let lp_a = (amount_a as int * lp_supply as int) / (reserve_a as int);
        let lp_b = (amount_b as int * lp_supply as int) / (reserve_b as int);
        assert(shares == spec_min(lp_a, lp_b));
        lemma_round_trip_leg(amount_a as int, reserve_a as int, lp_supply as int, shares as int);
        lemma_round_trip_leg(amount_b as int, reserve_b as int, lp_supply as int, shares as int);
    }
    lemma_withdraw_within_reserve(
        (reserve_a + amount_a) as int,
        shares as int,
        (lp_supply + shares) as int,
    );
    lemma_withdraw_within_reserve(
        (reserve_b + amount_b) as int,
        shares as int,
        (lp_supply + shares) as int,
    );
}

/// One leg of the round trip: if the minted shares are at most the
/// ratio-preserving count for this asset, the redemption of those shares
/// from the grown pool returns at most the deposited amount.
proof fn lemma_round_trip_leg(amount: int, reserve: int, lp_supply: int, shares: int)
    requires
        0 < amount,
        0 < reserve,
        0 < lp_supply,
        0 < shares,
        shares <= (amount * lp_supply) / reserve,
    ensures
        ((reserve + amount) * shares) / (lp_supply + shares) <= amount,
{
    let quotient = (amount * lp_supply) / reserve;
    lemma_fundamental_div_mod(amount * lp_supply, reserve);
    lemma_mod_bound(amount * lp_supply, reserve);
    lemma_mul_inequality(shares, quotient, reserve);
    assert(shares * reserve <= amount * lp_supply);
    assert((reserve + amount) * shares <= (lp_supply + shares) * amount) by (nonlinear_arith)
        requires
            shares * reserve <= amount * lp_supply,
            0 < amount,
            0 < reserve,
            0 < lp_supply,
            0 < shares,
    ;
    lemma_multiply_divide_le((reserve + amount) * shares, lp_supply + shares, amount);
}

} // verus!
