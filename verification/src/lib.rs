//! A two-party escrow for swapping one fungible asset for another.
//!
//! A maker locks a quantity of one asset in a vault and records how much of
//! a second asset they want for it. Any taker who pays that amount receives
//! the vault's contents; until then the maker may take the deposit back.
//! Every operation either completes or leaves the ledger as it was.

pub mod address;
pub mod error;
pub mod identity;
pub mod instructions;
pub mod laws;
pub mod ledger;
pub mod model;
pub mod state;

pub use address::Address;
pub use error::{EscrowError, LedgerError};
pub use identity::{derive_addresses, derive_record, derive_vault, Derived};
pub use instructions::make::{make_at, Make};
pub use instructions::refund::{refund_at, Refund};
pub use instructions::take::{take_at, Take};
pub use ledger::Ledger;
pub use model::{Account, LedgerState, Release};
pub use state::Escrow;

use instructions::carried_out;
use vstd::prelude::*;

verus! {

/// Makes an escrow: derives the addresses of the record and the vault from
/// the maker, the seed and the offered asset, then creates both and locks
/// `deposit` of `mint_a` in the vault. `receive` is what a taker must pay
/// of `mint_b`.
pub fn make(
    ledger: &mut Ledger,
    program: &Address,
    accounts: &Make,
    seed: u64,
    deposit: u64,
    receive: u64,
) -> (done: Result<(), EscrowError>)
    requires
        old(ledger).wf(),
    ensures
        final(ledger).wf(),
        carried_out(
            done,
            old(ledger)@,
            final(ledger)@,
            accounts.outcome(
                old(ledger)@,
                seed,
                deposit,
                receive,
                identity::derived(*program, accounts.maker, seed, accounts.mint_a),
            ),
        ),
{
    let found = derive_addresses(program, &accounts.maker, seed, &accounts.mint_a);
    make_at(ledger, accounts, seed, deposit, receive, found)
}

/// Returns the deposit to the maker and closes the escrow.
pub fn refund(ledger: &mut Ledger, program: &Address, accounts: &Refund) -> (done: Result<
    (),
    EscrowError,
>)
    requires
        old(ledger).wf(),
    ensures
        final(ledger).wf(),
        carried_out(
            done,
            old(ledger)@,
            final(ledger)@,
            accounts.outcome(old(ledger)@, identity::vault_address(*program, accounts.escrow)),
        ),
{
    let vault = derive_vault(program, &accounts.escrow);
    refund_at(ledger, accounts, vault)
}

/// Settles the escrow: the taker pays the maker what the record asks and
/// receives the vault's contents, and the escrow is closed.
pub fn take(ledger: &mut Ledger, program: &Address, accounts: &Take) -> (done: Result<
    (),
    EscrowError,
>)
    requires
        old(ledger).wf(),
    ensures
        final(ledger).wf(),
        carried_out(
            done,
            old(ledger)@,
            final(ledger)@,
            accounts.outcome(old(ledger)@, identity::vault_address(*program, accounts.escrow)),
        ),
{
    let vault = derive_vault(program, &accounts.escrow);
    take_at(ledger, accounts, vault)
}

} // verus!
