//! The escrow record: one maker's standing offer.

use crate::address::Address;
use vstd::prelude::*;

verus! {

/// A maker's offer. Written once when the escrow is made, read when it is
/// taken or refunded, and never changed in between.
#[derive(Clone, Copy, Debug, PartialEq, Eq)]
pub struct Escrow {
    /// Who made the escrow.
    pub maker: Address,
    /// The maker's own number for this escrow.
    pub seed: u64,
    /// The asset that was deposited.
    pub mint_a: Address,
    /// The asset asked for in return.
    pub mint_b: Address,
    /// How much of `mint_b` unlocks the vault.
    pub receive_amount: u64,
    /// The bump byte found when the record's address was derived.
    pub authority_bump: u8,
}

} // verus!
