//! Taking an escrow: the taker pays the maker, receives what the vault
//! holds, and the vault and the record are closed.

use crate::address::Address;
use crate::error::EscrowError;
use crate::instructions::{carried_out, sure};
use crate::ledger::Ledger;
use crate::model::{Account, LedgerState};
use vstd::prelude::*;

verus! {

/// The parties to `take`. `taker` is the caller, whose signature the host
/// has checked; anyone may be a taker.
#[derive(Clone, Copy, Debug, PartialEq, Eq)]
pub struct Take {
    /// Who pays `mint_b` and receives the vault's contents.
    pub taker: Address,
    /// The address of the escrow record.
    pub escrow: Address,
}

impl Take {
    /// What `take` must do on `state` when the vault's address is `vault`.
    ///
    /// The steps are: move the record's `receive_amount` of `mint_b` from
    /// the taker to the maker, move all that the vault holds of `mint_a` to
    /// the taker on the record's authority, close the vault, close the
    /// record. The storage deposits of both go to the record's maker.
    pub open spec fn outcome(self, state: LedgerState, vault: Option<(Address, u8)>) -> Result<
        LedgerState,
        EscrowError,
    > {
        if !state.holds_record(self.escrow) {
            Err(EscrowError::MissingRecord)
        } else {
            let record = state.record(self.escrow);
            if !state.signs_for_itself(self.taker) {
                Err(EscrowError::AuthorizationFailure)
            } else if state.balance(self.taker, record.mint_b) < record.receive_amount {
                Err(EscrowError::InsufficientBalance)
            } else {
                match vault {
                    None => Err(EscrowError::Underivable),
                    Some((vault, bump)) => {
                        if !state.holds_vault(vault, self.escrow, record.mint_a) {
                            Err(EscrowError::MissingRecord)
                        } else {
                            let paid = state.moved(
                                self.taker,
                                record.maker,
                                record.mint_b,
                                record.receive_amount as nat,
                            );
                            let released = paid.moved(
                                vault,
                                self.taker,
                                record.mint_a,
                                paid.balance(vault, record.mint_a),
                            );
                            Ok(
                                released.closed(vault, record.maker).closed(
                                    self.escrow,
                                    record.maker,
                                ),
                            )
                        }
                    },
                }
            }
        }
    }
}

/// Settles the escrow whose vault is at `vault`: pays the maker, hands the
/// vault's contents to the taker and closes vault and record, releasing
/// their storage deposits to the maker. Refused, with the ledger unchanged,
/// when no record stands at the escrow's address, when the taker does not
/// control its own holdings, when the taker has less than the record asks,
/// or when no vault address was found or the escrow's vault is not there.
pub fn take_at(ledger: &mut Ledger, accounts: &Take, vault: Option<(Address, u8)>) -> (done: Result<
    (),
    EscrowError,
>)
    requires
        old(ledger).wf(),
    ensures
        final(ledger).wf(),
        carried_out(done, old(ledger)@, final(ledger)@, accounts.outcome(old(ledger)@, vault)),
{
    let record = match ledger.account(&accounts.escrow) {
        Some(Account::Record(record)) => record,
        _ => {
            return Err(EscrowError::MissingRecord);
        },
    };
    if ledger.authority_of(&accounts.taker) != accounts.taker {
        return Err(EscrowError::AuthorizationFailure);
    }
    if ledger.balance(&accounts.taker, &record.mint_b) < record.receive_amount {
        return Err(EscrowError::InsufficientBalance);
    }
    let vault = match vault {
        Some((vault, _)) => vault,
        None => {
            return Err(EscrowError::Underivable);
        },
    };
    match ledger.account(&vault) {
        Some(Account::Vault { authority, mint }) => {
            if authority != accounts.escrow || mint != record.mint_a {
                return Err(EscrowError::MissingRecord);
            }
        },
        _ => {
            return Err(EscrowError::MissingRecord);
        },
    }
    sure(
        ledger.transfer(
            &accounts.taker,
            &record.maker,
            &record.mint_b,
            record.receive_amount,
            &accounts.taker,
        ),
    );
    let locked = ledger.balance(&vault, &record.mint_a);
    sure(ledger.transfer(&vault, &accounts.taker, &record.mint_a, locked, &accounts.escrow));
    sure(ledger.close_account(&vault, &record.maker));
    sure(ledger.close_account(&accounts.escrow, &record.maker));
    Ok(())
}

} // verus!
