//! Making an escrow: the record and the vault are created and the deposit
//! goes into the vault.

use crate::address::Address;
use crate::error::EscrowError;
use crate::identity::Derived;
use crate::instructions::{carried_out, sure};
use crate::ledger::Ledger;
use crate::model::{Account, LedgerState};
use crate::state::Escrow;
use vstd::prelude::*;

verus! {

/// The parties to `make`. `maker` is the caller, whose signature the host
/// has checked.
#[derive(Clone, Copy, Debug, PartialEq, Eq)]
pub struct Make {
    /// Who makes the escrow and pays the deposit.
    pub maker: Address,
    /// The asset that is deposited.
    pub mint_a: Address,
    /// The asset asked for in return.
    pub mint_b: Address,
}

impl Make {
    /// The record that `make` writes.
    pub open spec fn record(self, seed: u64, receive: u64, bump: u8) -> Escrow {
        Escrow {
            maker: self.maker,
            seed,
            mint_a: self.mint_a,
            mint_b: self.mint_b,
            receive_amount: receive,
            authority_bump: bump,
        }
    }

    /// Writes the record for an escrow made under `seed` that asks for
    /// `receive`.
    pub fn new_record(&self, seed: u64, receive: u64, bump: u8) -> (record: Escrow)
        ensures
            record == self.record(seed, receive, bump),
    {
        Escrow {
            maker: self.maker,
            seed,
            mint_a: self.mint_a,
            mint_b: self.mint_b,
            receive_amount: receive,
            authority_bump: bump,
        }
    }

    /// The state with the record and its vault created, nothing deposited
    /// yet.
    pub open spec fn opened(self, state: LedgerState, seed: u64, receive: u64, at: Derived)
        -> LedgerState {
        state.opened(at.record, Account::Record(self.record(seed, receive, at.record_bump))).opened(
            at.vault,
            Account::Vault { authority: at.record, mint: self.mint_a },
        )
    }

    /// Whether both addresses are free for a new escrow: no account stands
    /// at either, they are two addresses, and the vault's holds none of
    /// `mint_a`.
    pub open spec fn finds_free(self, state: LedgerState, at: Derived) -> bool {
        &&& !state.occupied(at.record)
        &&& !state.occupied(at.vault)
        &&& at.record != at.vault
        &&& state.balance(at.vault, self.mint_a) == 0
    }

    /// What `make` must do on `state` when the addresses are `derived`.
    ///
    /// The steps are: create the record, create the vault, empty, under the
    /// record's authority, move the deposit from the maker into the vault.
    pub open spec fn outcome(
        self,
        state: LedgerState,
        seed: u64,
        deposit: u64,
        receive: u64,
        derived: Option<Derived>,
    ) -> Result<LedgerState, EscrowError> {
        match derived {
            None => Err(EscrowError::Underivable),
            Some(at) => {
                let opened = self.opened(state, seed, receive, at);
                if !self.finds_free(state, at) {
                    Err(EscrowError::DuplicateIdentity)
                } else if !opened.signs_for_itself(self.maker) {
                    Err(EscrowError::AuthorizationFailure)
                } else if opened.balance(self.maker, self.mint_a) < deposit {
                    Err(EscrowError::InsufficientBalance)
                } else {
                    Ok(opened.moved(self.maker, at.vault, self.mint_a, deposit as nat))
                }
            },
        }
    }
}

/// Makes an escrow at the given addresses: writes the record, creates the
/// vault and moves `deposit` of `mint_a` from the maker into it, so that the
/// vault holds exactly the deposit. Refused, with the ledger unchanged, when
/// no addresses were found, when either address is taken or the vault's
/// already holds some of `mint_a`, when the maker does not control its own
/// holdings, or when the maker has less than `deposit`.
pub fn make_at(
    ledger: &mut Ledger,
    accounts: &Make,
    seed: u64,
    deposit: u64,
    receive: u64,
    derived: Option<Derived>,
) -> (done: Result<(), EscrowError>)
    requires
        old(ledger).wf(),
    ensures
        final(ledger).wf(),
        carried_out(
            done,
            old(ledger)@,
            final(ledger)@,
            accounts.outcome(old(ledger)@, seed, deposit, receive, derived),
        ),
{
    let at = match derived {
        Some(at) => at,
        None => {
            return Err(EscrowError::Underivable);
        },
    };
    if ledger.account(&at.record).is_some() || ledger.account(&at.vault).is_some() || at.record
        == at.vault || ledger.balance(&at.vault, &accounts.mint_a) > 0 {
        return Err(EscrowError::DuplicateIdentity);
    }
    if accounts.maker == at.vault || ledger.authority_of(&accounts.maker) != accounts.maker {
        return Err(EscrowError::AuthorizationFailure);
    }
    if ledger.balance(&accounts.maker, &accounts.mint_a) < deposit {
        return Err(EscrowError::InsufficientBalance);
    }
    let record = accounts.new_record(seed, receive, at.record_bump);
    sure(ledger.create_account(&at.record, Account::Record(record)));
    sure(
        ledger.create_account(
            &at.vault,
            Account::Vault { authority: at.record, mint: accounts.mint_a },
        ),
    );
    sure(ledger.transfer(&accounts.maker, &at.vault, &accounts.mint_a, deposit, &accounts.maker));
    Ok(())
}

} // verus!
