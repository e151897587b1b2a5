//! Refunding an escrow: the maker receives what the vault holds, and the
//! vault and the record are closed.

use crate::address::Address;
use crate::error::EscrowError;
use crate::instructions::{carried_out, sure};
use crate::ledger::Ledger;
use crate::model::{Account, LedgerState};
use vstd::prelude::*;

verus! {

/// The parties to `refund`. `maker` is the caller, whose signature the host
/// has checked; the operation checks it against the record.
#[derive(Clone, Copy, Debug, PartialEq, Eq)]
pub struct Refund {
    /// Who asks for the deposit back.
    pub maker: Address,
    /// The address of the escrow record.
    pub escrow: Address,
}

impl Refund {
    /// What `refund` must do on `state` when the vault's address is `vault`.
    ///
    /// The steps are: move all that the vault holds of `mint_a` to the
    /// maker on the record's authority, close the vault, close the record.
    /// The storage deposits of both go to the record's maker.
    pub open spec fn outcome(self, state: LedgerState, vault: Option<(Address, u8)>) -> Result<
        LedgerState,
        EscrowError,
    > {
        if !state.holds_record(self.escrow) {
            Err(EscrowError::MissingRecord)
        } else {
            let record = state.record(self.escrow);
            if record.maker != self.maker || !state.signs_for_itself(self.maker) {
                Err(EscrowError::AuthorizationFailure)
            } else {
                match vault {
                    None => Err(EscrowError::Underivable),
                    Some((vault, bump)) => {
                        if !state.holds_vault(vault, self.escrow, record.mint_a) {
                            Err(EscrowError::MissingRecord)
                        } else {
                            let returned = state.moved(
                                vault,
                                record.maker,
                                record.mint_a,
                                state.balance(vault, record.mint_a),
                            );
                            Ok(
                                returned.closed(vault, record.maker).closed(
                                    self.escrow,
                                    record.maker,
                                ),
                            )
                        }
                    },
                }
            }
        }
    }
}

/// Ends the escrow whose vault is at `vault` in the maker's favour: returns
/// the vault's contents to the maker and closes vault and record, releasing
/// their storage deposits to the maker. Refused,
/// with the ledger unchanged, when no record stands at the escrow's address,
/// when the caller is not the record's maker or does not control its own
/// holdings, or when no vault address was found or the escrow's vault is not
/// there.
pub fn refund_at(ledger: &mut Ledger, accounts: &Refund, vault: Option<(Address, u8)>) -> (done:
    Result<(), EscrowError>)
    requires
        old(ledger).wf(),
    ensures
        final(ledger).wf(),
        carried_out(done, old(ledger)@, final(ledger)@, accounts.outcome(old(ledger)@, vault)),
{
    let record = match ledger.account(&accounts.escrow) {
        Some(Account::Record(record)) => record,
        _ => {
            return Err(EscrowError::MissingRecord);
        },
    };
    if record.maker != accounts.maker || ledger.authority_of(&accounts.maker) != accounts.maker {
        return Err(EscrowError::AuthorizationFailure);
    }
    let vault = match vault {
        Some((vault, _)) => vault,
        None => {
            return Err(EscrowError::Underivable);
        },
    };
    match ledger.account(&vault) {
        Some(Account::Vault { authority, mint }) => {
            if authority != accounts.escrow || mint != record.mint_a {
                return Err(EscrowError::MissingRecord);
            }
        },
        _ => {
            return Err(EscrowError::MissingRecord);
        },
    }
    let locked = ledger.balance(&vault, &record.mint_a);
    sure(ledger.transfer(&vault, &record.maker, &record.mint_a, locked, &accounts.escrow));
    sure(ledger.close_account(&vault, &record.maker));
    sure(ledger.close_account(&accounts.escrow, &record.maker));
    Ok(())
}

} // verus!
