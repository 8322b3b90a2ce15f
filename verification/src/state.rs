use vstd::prelude::*;

verus! {

/// Opaque identifier of an external account: an asset mint, a custody
/// vault, or the derived authority that controls the pool's vaults. The
/// core never looks inside one; it only records them and compares them
/// for equality.
pub type AccountId = u64;

/// The persistent record of one liquidity pool: the identities of its two
/// assets, its custody vaults, its liquidity-share mint, the authority
/// that may move funds on its behalf, the current reserves, and the fee
/// rate fixed at creation. It is created once by `initialize_pool` and
/// mutated only by `add_liquidity`, `swap` and `remove_liquidity`.
#[derive(Clone, Copy, Debug, PartialEq, Eq, Structural)]
pub struct Pool {
    /// Derived authority that controls the pool's custody vaults.
    pub authority: AccountId,
    /// Mint of asset A.
    pub token_a_mint: AccountId,
    /// Mint of asset B.
    pub token_b_mint: AccountId,
    /// Custody account holding the reserve of asset A.
    pub token_a_vault: AccountId,
    /// Custody account holding the reserve of asset B.
    pub token_b_vault: AccountId,
    /// Mint of the liquidity-share token issued and burned by this pool.
    pub lp_token_mint: AccountId,
    /// Current holdings of asset A.
    pub reserve_a: u64,
    /// Current holdings of asset B.
    pub reserve_b: u64,
    /// Fee rate in basis points (30 = 0.30%), fixed at creation.
    pub fee_numerator: u64,
    /// Derivation nonce of the authority.
    pub authority_bump: u8,
}

impl Pool {
    /// A well-formed pool record, as `initialize_pool` creates it and as
    /// every operation preserves it: the two asset mints are distinct and
    /// the fee rate is within range.
    pub open spec fn wf(self) -> bool {
        &&& self.token_a_mint != self.token_b_mint
        &&& self.fee_numerator <= 10_000
    }
}

} // verus!
