use mini_dex::errors::DexError;
use mini_dex::pool::{add_liquidity, initialize_pool, remove_liquidity, swap};
use mini_dex::state::Pool;

fn pool_with_reserves(reserve_a: u64, reserve_b: u64) -> Pool {
    Pool {
        authority: 10,
        token_a_mint: 11,
        token_b_mint: 12,
        token_a_vault: 13,
        token_b_vault: 14,
        lp_token_mint: 15,
        reserve_a,
        reserve_b,
        fee_numerator: 30,
        authority_bump: 255,
    }
}

#[test]
fn initialize_pool_creates_fresh_record() {
    let pool = initialize_pool(10, 11, 12, 13, 14, 15, 255).unwrap();
    assert_eq!(pool, pool_with_reserves(0, 0));
    assert_eq!(pool.reserve_a, 0);
    assert_eq!(pool.reserve_b, 0);
    assert_eq!(pool.fee_numerator, 30);
}

#[test]
fn initialize_pool_same_mints_rejected() {
    assert_eq!(initialize_pool(10, 11, 11, 13, 14, 15, 255), Err(DexError::InvalidTokenMints));
}

#[test]
fn add_liquidity_first_deposit() {
    let mut pool = pool_with_reserves(0, 0);
    let shares = add_liquidity(&mut pool, 0, 4, 9, 0).unwrap();
    assert_eq!(shares, 6);
    assert_eq!(pool, pool_with_reserves(4, 9));
}

#[test]
fn add_liquidity_subsequent_deposit() {
    let mut pool = pool_with_reserves(1000, 2000);
    let shares = add_liquidity(&mut pool, 100, 100, 200, 10).unwrap();
    assert_eq!(shares, 10);
    assert_eq!(pool, pool_with_reserves(1100, 2200));
}

#[test]
fn add_liquidity_zero_amount_rejected() {
    let mut pool = pool_with_reserves(1000, 2000);
    assert_eq!(add_liquidity(&mut pool, 100, 0, 200, 0), Err(DexError::InvalidCalculation));
    assert_eq!(add_liquidity(&mut pool, 100, 100, 0, 0), Err(DexError::InvalidCalculation));
    assert_eq!(pool, pool_with_reserves(1000, 2000));
}

#[test]
fn add_liquidity_slippage_rejected_and_pool_unchanged() {
    let mut pool = pool_with_reserves(1000, 2000);
    assert_eq!(add_liquidity(&mut pool, 100, 100, 200, 11), Err(DexError::SlippageExceeded));
    assert_eq!(pool, pool_with_reserves(1000, 2000));
}

#[test]
fn add_liquidity_reserve_overflow_rejected() {
    let mut pool = pool_with_reserves(u64::MAX - 5, 1000);
    assert_eq!(add_liquidity(&mut pool, 100, 10, 10, 0), Err(DexError::MathOverflow));
    assert_eq!(pool, pool_with_reserves(u64::MAX - 5, 1000));
}

#[test]
fn swap_a_to_b_updates_reserves() {
    let mut pool = pool_with_reserves(1000, 1000);
    let out = swap(&mut pool, 100, 0, true).unwrap();
    assert_eq!(out, 90);
    assert_eq!(pool, pool_with_reserves(1100, 910));
}

#[test]
fn swap_b_to_a_updates_reserves() {
    let mut pool = pool_with_reserves(1000, 1000);
    let out = swap(&mut pool, 100, 0, false).unwrap();
    assert_eq!(out, 90);
    assert_eq!(pool, pool_with_reserves(910, 1100));
}

#[test]
fn swap_slippage_rejected_and_pool_unchanged() {
    let mut pool = pool_with_reserves(1000, 1000);
    assert_eq!(swap(&mut pool, 100, 91, true), Err(DexError::SlippageExceeded));
    assert_eq!(pool, pool_with_reserves(1000, 1000));
}

#[test]
fn swap_zero_input_rejected() {
    let mut pool = pool_with_reserves(1000, 1000);
    assert_eq!(swap(&mut pool, 0, 0, true), Err(DexError::InvalidCalculation));
    assert_eq!(pool, pool_with_reserves(1000, 1000));
}

#[test]
fn swap_zero_output_rejected() {
    // Too small a trade against deep reserves computes zero and is refused.
    let mut pool = pool_with_reserves(1_000_000, 1_000_000);
    assert_eq!(swap(&mut pool, 1, 0, true), Err(DexError::InvalidCalculation));
    assert_eq!(pool, pool_with_reserves(1_000_000, 1_000_000));
}

#[test]
fn swap_empty_pool_rejected() {
    let mut pool = pool_with_reserves(0, 0);
    assert_eq!(swap(&mut pool, 100, 0, true), Err(DexError::InsufficientLiquidity));
    assert_eq!(pool, pool_with_reserves(0, 0));
}

#[test]
fn swap_inbound_reserve_overflow_rejected() {
    let mut pool = pool_with_reserves(u64::MAX - 5, u64::MAX);
    pool.fee_numerator = 0;
    let before = pool;
    assert_eq!(swap(&mut pool, 10, 0, true), Err(DexError::MathOverflow));
    assert_eq!(pool, before);
}

#[test]
fn swap_numerator_overflow_rejected() {
    let mut pool = pool_with_reserves(u64::MAX, u64::MAX);
    let before = pool;
    assert_eq!(swap(&mut pool, u64::MAX, 0, true), Err(DexError::MathOverflow));
    assert_eq!(pool, before);
}

#[test]
fn swap_product_not_decreased_across_directions() {
    for is_a_to_b in [true, false] {
        let mut pool = pool_with_reserves(5000, 3000);
        let before = (pool.reserve_a as u128) * (pool.reserve_b as u128);
        swap(&mut pool, 777, 0, is_a_to_b).unwrap();
        let after = (pool.reserve_a as u128) * (pool.reserve_b as u128);
        assert!(after >= before);
    }
}

#[test]
fn remove_liquidity_proportional_payout() {
    let mut pool = pool_with_reserves(1100, 2200);
    let (out_a, out_b) = remove_liquidity(&mut pool, 110, 10, 0, 0).unwrap();
    assert_eq!((out_a, out_b), (100, 200));
    assert_eq!(pool, pool_with_reserves(1000, 2000));
}

#[test]
fn remove_liquidity_slippage_rejected_and_pool_unchanged() {
    let mut pool = pool_with_reserves(1100, 2200);
    assert_eq!(remove_liquidity(&mut pool, 110, 10, 101, 0), Err(DexError::SlippageExceeded));
    assert_eq!(remove_liquidity(&mut pool, 110, 10, 0, 201), Err(DexError::SlippageExceeded));
    assert_eq!(pool, pool_with_reserves(1100, 2200));
}

#[test]
fn remove_liquidity_zero_shares_rejected() {
    let mut pool = pool_with_reserves(1100, 2200);
    assert_eq!(remove_liquidity(&mut pool, 110, 0, 0, 0), Err(DexError::InvalidCalculation));
    assert_eq!(pool, pool_with_reserves(1100, 2200));
}

#[test]
fn remove_liquidity_zero_supply_rejected() {
    let mut pool = pool_with_reserves(1100, 2200);
    assert_eq!(remove_liquidity(&mut pool, 0, 10, 0, 0), Err(DexError::InsufficientLiquidity));
    assert_eq!(pool, pool_with_reserves(1100, 2200));
}

#[test]
fn remove_liquidity_over_supply_rejected_defensively() {
    // More shares than the supply would drain past the reserves: the
    // defensive subtraction check refuses it.
    let mut pool = pool_with_reserves(100, 100);
    assert_eq!(remove_liquidity(&mut pool, 10, 20, 0, 0), Err(DexError::MathOverflow));
    assert_eq!(pool, pool_with_reserves(100, 100));
}

#[test]
fn pool_lifecycle() {
    let mut pool = initialize_pool(10, 11, 12, 13, 14, 15, 255).unwrap();
    let mut lp_supply: u64 = 0;

    let minted = add_liquidity(&mut pool, lp_supply, 40_000, 90_000, 0).unwrap();
    assert_eq!(minted, 60_000); // sqrt(40_000 * 90_000)
    lp_supply += minted;

    let out = swap(&mut pool, 4_000, 1, true).unwrap();
    assert!(out > 0 && out < 90_000);
    assert_eq!(pool.reserve_a, 44_000);
    assert_eq!(pool.reserve_b, 90_000 - out);

    let (out_a, out_b) = remove_liquidity(&mut pool, lp_supply, lp_supply, 0, 0).unwrap();
    assert_eq!((out_a, out_b), (44_000, 90_000 - out));
    assert_eq!(pool.reserve_a, 0);
    assert_eq!(pool.reserve_b, 0);
}
