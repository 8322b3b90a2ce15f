use vstd::prelude::*;

verus! {

/// Why a pool operation was rejected. Every error is terminal for the
/// operation that raised it, and an operation that returns an error leaves
/// the pool record unchanged.
#[derive(Clone, Copy, Debug, PartialEq, Eq, Structural)]
pub enum DexError {
    /// A computed amount fell below the caller's declared minimum.
    SlippageExceeded,
    /// A computation cannot produce a usable result: a zero input where a
    /// positive one is required, a division by zero, a fee rate above
    /// 10,000 basis points, or a result that does not fit in 64 bits.
    InvalidCalculation,
    /// The operation needs nonzero reserves or nonzero outstanding shares
    /// and found none.
    InsufficientLiquidity,
    /// A checked arithmetic step exceeded its representable range.
    MathOverflow,
    /// The two asset mints of a new pool must be different.
    InvalidTokenMints,
}

} // verus!
