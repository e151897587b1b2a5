//! What can go wrong, for the escrow operations and for the ledger beneath
//! them.

use vstd::prelude::*;

verus! {

/// Why an escrow operation was refused. A refused operation changes nothing.
#[derive(Clone, Copy, Debug, PartialEq, Eq, Structural)]
pub enum EscrowError {
    /// The derived address of the record or the vault is not free.
    DuplicateIdentity,
    /// The caller is not the identity the operation requires.
    AuthorizationFailure,
    /// The paying party holds less than the operation moves.
    InsufficientBalance,
    /// No escrow stands at the referenced address.
    MissingRecord,
    /// The address search found no usable address for these parameters.
    Underivable,
}

/// Why the ledger refused a primitive operation.
#[derive(Clone, Copy, Debug, PartialEq, Eq, Structural)]
pub enum LedgerError {
    /// The authorizer does not control the paying holder.
    Unauthorized,
    /// The paying holder has less than the amount.
    Insufficient,
    /// The address is not free: an account stands there, or it holds some
    /// of the asset of the vault that was to be created.
    Occupied,
    /// No account stands at the address.
    Vacant,
    /// The vault still holds a balance.
    NotDrained,
    /// The asset's total would exceed what a balance can hold.
    SupplyExceeded,
}

} // verus!
