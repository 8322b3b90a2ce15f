use vstd::prelude::*;
use crate::errors::DexError;
use crate::pricing::{calculate_swap_amount, lemma_swap_preserves_product, spec_swap_amount};
use crate::shares::{
    calculate_lp_tokens, calculate_withdraw_amounts, spec_lp_tokens, spec_withdraw_amounts,
};
use crate::state::{AccountId, Pool};

verus! {

/// The exact outcome of `add_liquidity` on a given record: either the
/// error that rejects the request, or the new record and the shares to
/// mint.
pub open spec fn spec_add_liquidity(pool: Pool, lp_supply: u64, amount_a: u64, amount_b: u64, min_lp_tokens: u64) -> Result<(Pool, u64), DexError> {
    if amount_a == 0 || amount_b == 0 {
        Err(DexError::InvalidCalculation)
    } else {
        match spec_lp_tokens(amount_a, amount_b, pool.reserve_a, pool.reserve_b, lp_supply) {
            Err(e) => Err(e),
            Ok(lp_tokens) => if lp_tokens < min_lp_tokens {
                Err(DexError::SlippageExceeded)
            } else if pool.reserve_a + amount_a > u64::MAX || pool.reserve_b + amount_b > u64::MAX {
                Err(DexError::MathOverflow)
            } else {
                Ok((
                    (Pool {
                        reserve_a: (pool.reserve_a + amount_a) as u64,
                        reserve_b: (pool.reserve_b + amount_b) as u64,
                        ..pool
                    }),
                    lp_tokens,
                ))
            },
        }
    }
}

/// The exact outcome of `swap` on a given record: either the error that
/// rejects the request, or the new record and the amount to pay out.
pub open spec fn spec_swap(pool: Pool, amount_in: u64, min_amount_out: u64, is_a_to_b: bool) -> Result<(Pool, u64), DexError> {
    if amount_in == 0 {
        Err(DexError::InvalidCalculation)
    } else {
        let reserve_in = if is_a_to_b { pool.reserve_a } else { pool.reserve_b };
        let reserve_out = if is_a_to_b { pool.reserve_b } else { pool.reserve_a };
        match spec_swap_amount(amount_in, reserve_in, reserve_out, pool.fee_numerator) {
            Err(e) => Err(e),
            Ok(amount_out) => if amount_out < min_amount_out {
                Err(DexError::SlippageExceeded)
            } else if amount_out == 0 {
                Err(DexError::InvalidCalculation)
            } else if reserve_in + amount_in > u64::MAX {
                Err(DexError::MathOverflow)
            } else if is_a_to_b {
                Ok((
                    (Pool {
                        reserve_a: (reserve_in + amount_in) as u64,
                        reserve_b: (reserve_out - amount_out) as u64,
                        ..pool
                    }),
                    amount_out,
                ))
            } else {
                Ok((
                    (Pool {
                        reserve_a: (reserve_out - amount_out) as u64,
                        reserve_b: (reserve_in + amount_in) as u64,
                        ..pool
                    }),
                    amount_out,
                ))
            },
        }
    }
}

/// The exact outcome of `remove_liquidity` on a given record: either the
/// error that rejects the request, or the new record and the two amounts
/// to pay out.
pub open spec fn spec_remove_liquidity(pool: Pool, lp_supply: u64, lp_token_amount: u64, min_amount_a: u64, min_amount_b: u64) -> Result<(Pool, (u64, u64)), DexError> {
    match spec_withdraw_amounts(lp_token_amount, pool.reserve_a, pool.reserve_b, lp_supply) {
        Err(e) => Err(e),
        Ok(amounts) => if amounts.0 < min_amount_a || amounts.1 < min_amount_b {
            Err(DexError::SlippageExceeded)
        } else if amounts.0 > pool.reserve_a || amounts.1 > pool.reserve_b {
            Err(DexError::MathOverflow)
        } else {
            Ok((
                (Pool {
                    reserve_a: (pool.reserve_a - amounts.0) as u64,
                    reserve_b: (pool.reserve_b - amounts.1) as u64,
                    ..pool
                }),
                amounts,
            ))
        },
    }
}

/// Creates the record of a new pool for two distinct assets: zero
/// reserves, the fee fixed at 30 basis points, and the custody identities
/// the hosting environment established for it. The only transition out of
/// the uninitialized state; rejected with `InvalidTokenMints` when the
/// two asset mints coincide.
pub fn initialize_pool(authority: AccountId, token_a_mint: AccountId, token_b_mint: AccountId, token_a_vault: AccountId, token_b_vault: AccountId, lp_token_mint: AccountId, authority_bump: u8) -> (result: Result<Pool, DexError>)
    ensures
        token_a_mint == token_b_mint ==> result == Err::<Pool, DexError>(DexError::InvalidTokenMints),
        token_a_mint != token_b_mint ==> result == Ok::<Pool, DexError>(Pool {
            authority,
            token_a_mint,
            token_b_mint,
            token_a_vault,
            token_b_vault,
            lp_token_mint,
            reserve_a: 0,
            reserve_b: 0,
            fee_numerator: 30,
            authority_bump,
        }),
        result matches Ok(pool) ==> pool.wf(),
{
    if token_a_mint == token_b_mint {
        return Err(DexError::InvalidTokenMints);
    }
    Ok(Pool {
        authority,
        token_a_mint,
        token_b_mint,
        token_a_vault,
        token_b_vault,
        lp_token_mint,
        reserve_a: 0,
        reserve_b: 0,
        fee_numerator: 30,
        authority_bump,
    })
}

/// Adds `(amount_a, amount_b)` to the pool's reserves and reports the
/// liquidity shares to mint in return. `lp_supply` is the outstanding
/// share supply before the deposit. Every check runs before the record is
/// touched: on any error the pool is unchanged and nothing is owed to
/// custody; on success the custody service must pull the two amounts into
/// the vaults and mint the returned shares to the depositor, atomically
/// with this reserve update.
pub fn add_liquidity(pool: &mut Pool, lp_supply: u64, amount_a: u64, amount_b: u64, min_lp_tokens: u64) -> (result: Result<u64, DexError>)
    ensures
        (match spec_add_liquidity(*old(pool), lp_supply, amount_a, amount_b, min_lp_tokens) {
            Ok(outcome) => result == Ok::<u64, DexError>(outcome.1) && *final(pool) == outcome.0,
            Err(e) => result == Err::<u64, DexError>(e) && *final(pool) == *old(pool),
        }),
        result is Err ==> *final(pool) == *old(pool),
        old(pool).wf() ==> final(pool).wf(),
        result is Ok ==> final(pool).reserve_a == old(pool).reserve_a + amount_a
            && final(pool).reserve_b == old(pool).reserve_b + amount_b,
{
    if amount_a == 0 || amount_b == 0 {
        return Err(DexError::InvalidCalculation);
    }
    let lp_tokens: u64 = match calculate_lp_tokens(amount_a, amount_b, pool.reserve_a, pool.reserve_b, lp_supply) {
        Ok(v) => v,
        Err(e) => {
            return Err(e);
        },
    };
    if lp_tokens < min_lp_tokens {
        return Err(DexError::SlippageExceeded);
    }
    let new_reserve_a: u64 = match pool.reserve_a.checked_add(amount_a) {
        Some(v) => v,
        None => {
            return Err(DexError::MathOverflow);
        },
    };
    let new_reserve_b: u64 = match pool.reserve_b.checked_add(amount_b) {
        Some(v) => v,
        None => {
            return Err(DexError::MathOverflow);
        },
    };
    pool.reserve_a = new_reserve_a;
    pool.reserve_b = new_reserve_b;
    Ok(lp_tokens)
}

/// Swaps `amount_in` of one asset for the other, in the direction given
/// by `is_a_to_b`. Every check runs before the record is touched: on any
/// error the pool is unchanged; on success the custody service must pull
/// `amount_in` into the inbound vault and pay the returned amount from
/// the outbound vault, atomically with this reserve update. A successful
/// swap never decreases the product of the reserves.
pub fn swap(pool: &mut Pool, amount_in: u64, min_amount_out: u64, is_a_to_b: bool) -> (result: Result<u64, DexError>)
    ensures
        (match spec_swap(*old(pool), amount_in, min_amount_out, is_a_to_b) {
            Ok(outcome) => result == Ok::<u64, DexError>(outcome.1) && *final(pool) == outcome.0,
            Err(e) => result == Err::<u64, DexError>(e) && *final(pool) == *old(pool),
        }),
        result is Err ==> *final(pool) == *old(pool),
        old(pool).wf() ==> final(pool).wf(),
        result is Ok ==> (final(pool).reserve_a as int) * (final(pool).reserve_b as int)
            >= (old(pool).reserve_a as int) * (old(pool).reserve_b as int),
{
    if amount_in == 0 {
        return Err(DexError::InvalidCalculation);
    }
    let reserve_in: u64 = if is_a_to_b { pool.reserve_a } else { pool.reserve_b };
    let reserve_out: u64 = if is_a_to_b { pool.reserve_b } else { pool.reserve_a };
    let amount_out: u64 = match calculate_swap_amount(amount_in, reserve_in, reserve_out, pool.fee_numerator) {
        Ok(v) => v,
        Err(e) => {
            return Err(e);
        },
    };
    if amount_out < min_amount_out {
        return Err(DexError::SlippageExceeded);
    }
    if amount_out == 0 {
        return Err(DexError::InvalidCalculation);
    }
    let new_reserve_in: u64 = match reserve_in.checked_add(amount_in) {
        Some(v) => v,
        None => {
            return Err(DexError::MathOverflow);
        },
    };
    let new_reserve_out: u64 = reserve_out - amount_out;
    if is_a_to_b {
        pool.reserve_a = new_reserve_in;
        pool.reserve_b = new_reserve_out;
    } else {
        pool.reserve_b = new_reserve_in;
        pool.reserve_a = new_reserve_out;
    }
    proof {
        lemma_swap_preserves_product(
            amount_in as int,
            reserve_in as int,
            reserve_out as int,
            old(pool).fee_numerator as int,
        );
        assert((new_reserve_out as int) * (new_reserve_in as int)
            == (new_reserve_in as int) * (new_reserve_out as int)) by (nonlinear_arith);
        assert((reserve_out as int) * (reserve_in as int)
            == (reserve_in as int) * (reserve_out as int)) by (nonlinear_arith);
    }
    Ok(amount_out)
}

/// Redeems `lp_token_amount` liquidity shares for proportional amounts of
/// both assets. `lp_supply` is the outstanding share supply before the
/// burn. Every check runs before the record is touched: on any error the
/// pool is unchanged; on success the custody service must burn the shares
/// and pay the two returned amounts from the vaults, atomically with this
/// reserve update.
pub fn remove_liquidity(pool: &mut Pool, lp_supply: u64, lp_token_amount: u64, min_amount_a: u64, min_amount_b: u64) -> (result: Result<(u64, u64), DexError>)
    ensures
        (match spec_remove_liquidity(*old(pool), lp_supply, lp_token_amount, min_amount_a, min_amount_b) {
            Ok(outcome) => result == Ok::<(u64, u64), DexError>(outcome.1) && *final(pool) == outcome.0,
            Err(e) => result == Err::<(u64, u64), DexError>(e) && *final(pool) == *old(pool),
        }),
        result is Err ==> *final(pool) == *old(pool),
        old(pool).wf() ==> final(pool).wf(),
{
    let amounts: (u64, u64) = match calculate_withdraw_amounts(lp_token_amount, pool.reserve_a, pool.reserve_b, lp_supply) {
        Ok(v) => v,
        Err(e) => {
            return Err(e);
        },
    };
    if amounts.0 < min_amount_a || amounts.1 < min_amount_b {
        return Err(DexError::SlippageExceeded);
    }
    let new_reserve_a: u64 = match pool.reserve_a.checked_sub(amounts.0) {
        Some(v) => v,
        None => {
            return Err(DexError::MathOverflow);
        },
    };
    let new_reserve_b: u64 = match pool.reserve_b.checked_sub(amounts.1) {
        Some(v) => v,
        None => {
            return Err(DexError::MathOverflow);
        },
    };
    pool.reserve_a = new_reserve_a;
    pool.reserve_b = new_reserve_b;
    Ok(amounts)
}

} // verus!
