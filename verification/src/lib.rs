//! Core of a two-asset constant-product liquidity pool.
//!
//! The library decides, given the current reserves and a requested action,
//! the exact quantities to move and the resulting new reserve state:
//! swap pricing with a basis-point fee, liquidity-share issuance and
//! redemption, and the four pool state transitions (initialize,
//! add-liquidity, swap, remove-liquidity). All arithmetic is carried out
//! in 128-bit intermediate width and fails explicitly instead of wrapping
//! or truncating. Custody of the underlying assets (the actual transfer,
//! mint and burn of tokens) is an external concern: each operation only
//! computes the amounts the custody service must move and the new reserve
//! snapshot, and leaves the record untouched when it fails.

pub mod errors;
pub mod math;
pub mod pool;
pub mod pricing;
pub mod shares;
pub mod state;
