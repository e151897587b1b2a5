//! What holds of the escrow operations on every ledger state.
//!
//! Each law is stated over the outcomes that the operations are proved to
//! have. The addresses are parameters: a law holds wherever the record and
//! the vault stand, and so in particular at the addresses that `make`,
//! `take` and `refund` derive.

use crate::address::Address;
use crate::error::EscrowError;
use crate::identity::{derived, vault_address, Derived};
use crate::instructions::carried_out;
use crate::instructions::make::Make;
use crate::instructions::refund::Refund;
use crate::instructions::take::Take;
use crate::model::{LedgerState, Release};
use vstd::prelude::*;

verus! {

/// The vault that `take` and `refund` look up for a record is the vault
/// that `make` derived together with that record.
pub proof fn derived_vault_is_found_again(
    program: Address,
    maker: Address,
    seed: u64,
    mint_a: Address,
)
    ensures
        derived(program, maker, seed, mint_a) matches Some(at) ==> vault_address(
            program,
            at.record,
        ) == Some((at.vault, at.vault_bump)),
{
}

/// A `make` that succeeds leaves the offer on record at the record's
/// address and the vault, under the record's authority, at the vault's. The
/// vault holds exactly the deposit, which has gone from the maker; every
/// other balance and every other account stands as before.
pub proof fn make_records_the_offer(
    state: LedgerState,
    accounts: Make,
    seed: u64,
    deposit: u64,
    receive: u64,
    at: Derived,
)
    requires
        accounts.outcome(state, seed, deposit, receive, Some(at)) is Ok,
    ensures
        ({
            let made = accounts.outcome(state, seed, deposit, receive, Some(at))->Ok_0;
            &&& made.holds_record(at.record)
            &&& made.record(at.record) == accounts.record(seed, receive, at.record_bump)
            &&& made.holds_vault(at.vault, at.record, accounts.mint_a)
            &&& made.authority_of(at.vault) == at.record
            &&& made.balance(at.vault, accounts.mint_a) == deposit
            &&& made.balance(accounts.maker, accounts.mint_a) == state.balance(
                accounts.maker,
                accounts.mint_a,
            ) - deposit
            &&& forall|holder: Address, mint: Address|
                !(mint == accounts.mint_a && (holder == accounts.maker || holder == at.vault))
                    ==> made.balance(holder, mint) == state.balance(holder, mint)
            &&& forall|address: Address|
                address != at.record && address != at.vault ==> made.account(address)
                    == state.account(address)
            &&& made.releases == state.releases
        }),
{
}

/// A `refund` that succeeds gives the maker all that the vault held,
/// empties the vault's address, removes both accounts and releases their
/// storage deposits to the maker.
pub proof fn refund_returns_the_vault(state: LedgerState, refund: Refund, vault: Address, bump: u8)
    requires
        refund.outcome(state, Some((vault, bump))) is Ok,
    ensures
        ({
            let refunded = refund.outcome(state, Some((vault, bump)))->Ok_0;
            let mint_a = state.record(refund.escrow).mint_a;
            &&& refunded.balance(refund.maker, mint_a) == state.balance(refund.maker, mint_a)
                + state.balance(vault, mint_a)
            &&& refunded.balance(vault, mint_a) == 0
            &&& !refunded.occupied(refund.escrow)
            &&& !refunded.occupied(vault)
            &&& refunded.releases == state.releases.push(
                Release { account: vault, to: refund.maker },
            ).push(Release { account: refund.escrow, to: refund.maker })
        }),
{
}

/// A `take` that succeeds releases the storage deposits of the vault and of
/// the record to the record's maker, not to the taker, and changes no
/// balance of a third party and no account at another address.
pub proof fn take_releases_storage_to_the_maker(
    state: LedgerState,
    take: Take,
    vault: Address,
    bump: u8,
)
    requires
        take.outcome(state, Some((vault, bump))) is Ok,
    ensures
        ({
            let settled = take.outcome(state, Some((vault, bump)))->Ok_0;
            let maker = state.record(take.escrow).maker;
            &&& settled.releases == state.releases.push(Release { account: vault, to: maker }).push(
                Release { account: take.escrow, to: maker },
            )
            &&& forall|holder: Address, mint: Address|
                holder != take.taker && holder != maker && holder != vault ==> settled.balance(
                    holder,
                    mint,
                ) == state.balance(holder, mint)
            &&& forall|address: Address|
                address != take.escrow && address != vault ==> settled.account(address)
                    == state.account(address)
        }),
{
}

/// No operation rewrites a record: a record that stands before and after
/// an operation is the same record. Nor does any operation create or
/// destroy an asset.
pub proof fn records_and_supply_are_kept(
    state: LedgerState,
    accounts: Make,
    seed: u64,
    deposit: u64,
    receive: u64,
    derived: Option<Derived>,
    take: Take,
    refund: Refund,
    vault: Option<(Address, u8)>,
    address: Address,
)
    ensures
        accounts.outcome(state, seed, deposit, receive, derived) matches Ok(made) ==> made.supply
            == state.supply && (state.holds_record(address) ==> made.holds_record(address)
            && made.record(address) == state.record(address)),
        take.outcome(state, vault) matches Ok(settled) ==> settled.supply == state.supply && (
        settled.holds_record(address) ==> state.holds_record(address) && settled.record(address)
            == state.record(address)),
        refund.outcome(state, vault) matches Ok(refunded) ==> refunded.supply == state.supply && (
        refunded.holds_record(address) ==> state.holds_record(address) && refunded.record(address)
            == state.record(address)),
{
}

/// A `make` followed at once by a `take`, by a taker who controls its own
/// holdings and has the asked amount of `mint_b`, succeeds; afterwards
/// nothing of `mint_a` is left at the vault's address, and neither the
/// record nor the vault exists.
pub proof fn make_then_take_settles(
    state: LedgerState,
    accounts: Make,
    seed: u64,
    deposit: u64,
    receive: u64,
    at: Derived,
    taker: Address,
    bump: u8,
)
    requires
        accounts.outcome(state, seed, deposit, receive, Some(at)) matches Ok(made)
            && made.signs_for_itself(taker) && made.balance(taker, accounts.mint_b) >= receive,
    ensures
        ({
            let made = accounts.outcome(state, seed, deposit, receive, Some(at))->Ok_0;
            let take = Take { taker, escrow: at.record };
            &&& take.outcome(made, Some((at.vault, bump))) matches Ok(settled)
            &&& settled.balance(at.vault, accounts.mint_a) == 0
            &&& !settled.occupied(at.record)
            &&& !settled.occupied(at.vault)
            &&& settled.accounts == state.accounts
            &&& settled.supply == state.supply
        }),
{
    let made = accounts.outcome(state, seed, deposit, receive, Some(at))->Ok_0;
    let take = Take { taker, escrow: at.record };
    let settled = take.outcome(made, Some((at.vault, bump)))->Ok_0;
    assert(settled.accounts =~= state.accounts);
}

/// A `make` followed by a `refund` undoes the `make` on the whole ledger:
/// the maker has exactly the deposit back, every holder has of every asset
/// what it had, and the accounts are those that stood before. What remains
/// is the note of the two storage deposits released to the maker.
pub proof fn make_then_refund_restores(
    state: LedgerState,
    accounts: Make,
    seed: u64,
    deposit: u64,
    receive: u64,
    at: Derived,
    bump: u8,
)
    requires
        accounts.outcome(state, seed, deposit, receive, Some(at)) is Ok,
    ensures
        ({
            let made = accounts.outcome(state, seed, deposit, receive, Some(at))->Ok_0;
            let refund = Refund { maker: accounts.maker, escrow: at.record };
            &&& refund.outcome(made, Some((at.vault, bump))) matches Ok(refunded)
            &&& refunded.balance(accounts.maker, accounts.mint_a) == made.balance(
                accounts.maker,
                accounts.mint_a,
            ) + deposit
            &&& forall|holder: Address, mint: Address|
                refunded.balance(holder, mint) == state.balance(holder, mint)
            &&& refunded.accounts == state.accounts
            &&& refunded.supply == state.supply
            &&& refunded.releases == state.releases.push(
                Release { account: at.vault, to: accounts.maker },
            ).push(Release { account: at.record, to: accounts.maker })
        }),
{
    let made = accounts.outcome(state, seed, deposit, receive, Some(at))->Ok_0;
    let refund = Refund { maker: accounts.maker, escrow: at.record };
    let refunded = refund.outcome(made, Some((at.vault, bump)))->Ok_0;
    assert(refunded.accounts =~= state.accounts);
}

/// Once an escrow has been taken, a `refund` of it fails for want of the
/// record, whoever asks and whatever vault is named, and changes nothing.
pub proof fn refund_after_take_finds_nothing(
    state: LedgerState,
    take: Take,
    vault: Option<(Address, u8)>,
    refund: Refund,
    later: Option<(Address, u8)>,
)
    requires
        take.outcome(state, vault) is Ok,
        refund.escrow == take.escrow,
    ensures
        refund.outcome(take.outcome(state, vault)->Ok_0, later) == Err::<
            LedgerState,
            EscrowError,
        >(EscrowError::MissingRecord),
        forall|done: Result<(), EscrowError>, after: LedgerState| #[trigger]
            carried_out(
                done,
                take.outcome(state, vault)->Ok_0,
                after,
                refund.outcome(take.outcome(state, vault)->Ok_0, later),
            ) ==> done == Err::<(), EscrowError>(EscrowError::MissingRecord) && after
                == take.outcome(state, vault)->Ok_0,
{
}

/// Once an escrow has been refunded, a `take` of it fails for want of the
/// record, whoever asks and whatever vault is named, and changes nothing.
pub proof fn take_after_refund_finds_nothing(
    state: LedgerState,
    refund: Refund,
    vault: Option<(Address, u8)>,
    take: Take,
    later: Option<(Address, u8)>,
)
    requires
        refund.outcome(state, vault) is Ok,
        take.escrow == refund.escrow,
    ensures
        take.outcome(refund.outcome(state, vault)->Ok_0, later) == Err::<LedgerState, EscrowError>(
            EscrowError::MissingRecord,
        ),
        forall|done: Result<(), EscrowError>, after: LedgerState| #[trigger]
            carried_out(
                done,
                refund.outcome(state, vault)->Ok_0,
                after,
                take.outcome(refund.outcome(state, vault)->Ok_0, later),
            ) ==> done == Err::<(), EscrowError>(EscrowError::MissingRecord) && after
                == refund.outcome(state, vault)->Ok_0,
{
}

/// An escrow can be ended only once: after a `take` a second `take` fails
/// for want of the record, and after a `refund` a second `refund` does.
pub proof fn ended_escrow_stays_ended(
    state: LedgerState,
    take: Take,
    refund: Refund,
    vault: Option<(Address, u8)>,
    later: Option<(Address, u8)>,
)
    ensures
        take.outcome(state, vault) matches Ok(settled) ==> take.outcome(settled, later) == Err::<
            LedgerState,
            EscrowError,
        >(EscrowError::MissingRecord),
        refund.outcome(state, vault) matches Ok(refunded) ==> refund.outcome(refunded, later)
            == Err::<LedgerState, EscrowError>(EscrowError::MissingRecord),
{
}

/// Once an escrow has been taken or refunded, its addresses are free: a new
/// `make` at them for the same asset is not refused as a duplicate.
pub proof fn ended_escrow_frees_its_addresses(
    state: LedgerState,
    take: Take,
    refund: Refund,
    at: Derived,
    again: Make,
    seed: u64,
    deposit: u64,
    receive: u64,
)
    requires
        at.record != at.vault,
        take.escrow == at.record,
        refund.escrow == at.record,
        again.mint_a == state.record(at.record).mint_a,
    ensures
        take.outcome(state, Some((at.vault, at.vault_bump))) matches Ok(settled) ==> again.outcome(
            settled,
            seed,
            deposit,
            receive,
            Some(at),
        ) != Err::<LedgerState, EscrowError>(EscrowError::DuplicateIdentity),
        refund.outcome(state, Some((at.vault, at.vault_bump))) matches Ok(refunded)
            ==> again.outcome(refunded, seed, deposit, receive, Some(at)) != Err::<
            LedgerState,
            EscrowError,
        >(EscrowError::DuplicateIdentity),
{
}

/// While an escrow stands, a second `make` at its addresses is refused as a
/// duplicate, whatever else it asks for, and nothing more is deposited. The
/// same maker, seed and asset always derive the same addresses, so `make`
/// cannot be repeated with them.
pub proof fn second_make_is_a_duplicate(
    state: LedgerState,
    first: Make,
    seed: u64,
    deposit: u64,
    receive: u64,
    derived: Option<Derived>,
    again: Make,
    other_seed: u64,
    other_deposit: u64,
    other_receive: u64,
)
    requires
        first.outcome(state, seed, deposit, receive, derived) is Ok,
    ensures
        again.outcome(
            first.outcome(state, seed, deposit, receive, derived)->Ok_0,
            other_seed,
            other_deposit,
            other_receive,
            derived,
        ) == Err::<LedgerState, EscrowError>(EscrowError::DuplicateIdentity),
        forall|done: Result<(), EscrowError>, after: LedgerState| #[trigger]
            carried_out(
                done,
                first.outcome(state, seed, deposit, receive, derived)->Ok_0,
                after,
                again.outcome(
                    first.outcome(state, seed, deposit, receive, derived)->Ok_0,
                    other_seed,
                    other_deposit,
                    other_receive,
                    derived,
                ),
            ) ==> done == Err::<(), EscrowError>(EscrowError::DuplicateIdentity) && after
                == first.outcome(state, seed, deposit, receive, derived)->Ok_0,
{
}

/// A `refund` asked for by anyone but the record's maker fails for want of
/// authority and leaves the vault, like all else, untouched.
pub proof fn refund_is_for_the_maker_only(
    state: LedgerState,
    refund: Refund,
    vault: Option<(Address, u8)>,
)
    requires
        state.holds_record(refund.escrow),
        state.record(refund.escrow).maker != refund.maker,
    ensures
        refund.outcome(state, vault) == Err::<LedgerState, EscrowError>(
            EscrowError::AuthorizationFailure,
        ),
        forall|done: Result<(), EscrowError>, after: LedgerState| #[trigger]
            carried_out(done, state, after, refund.outcome(state, vault)) ==> done == Err::<
                (),
                EscrowError,
            >(EscrowError::AuthorizationFailure) && after == state,
{
}

/// A `take` of a standing escrow by a taker who controls its own holdings
/// and has less of `mint_b` than the record asks fails for want of funds,
/// whatever vault is named, and leaves the balances of maker, taker and
/// vault, like all else, unchanged.
pub proof fn take_needs_the_asked_amount(
    state: LedgerState,
    take: Take,
    vault: Option<(Address, u8)>,
)
    requires
        state.holds_record(take.escrow),
        state.signs_for_itself(take.taker),
        state.balance(take.taker, state.record(take.escrow).mint_b) < state.record(
            take.escrow,
        ).receive_amount,
    ensures
        take.outcome(state, vault) == Err::<LedgerState, EscrowError>(
            EscrowError::InsufficientBalance,
        ),
        forall|done: Result<(), EscrowError>, after: LedgerState| #[trigger]
            carried_out(done, state, after, take.outcome(state, vault)) ==> done == Err::<
                (),
                EscrowError,
            >(EscrowError::InsufficientBalance) && after == state,
{
}

/// An operation that is refused leaves every balance and every account as
/// it was.
pub proof fn refused_operation_changes_nothing(
    done: Result<(), EscrowError>,
    before: LedgerState,
    after: LedgerState,
    outcome: Result<LedgerState, EscrowError>,
)
    requires
        carried_out(done, before, after, outcome),
    ensures
        done is Err <==> outcome is Err,
        done is Err ==> after == before && done->Err_0 == outcome->Err_0,
{
}

/// A `take` between two different parties over two different assets is a
/// swap: the taker gains what the vault held and pays the asked amount, and
/// the maker gains the asked amount.
pub proof fn take_swaps(state: LedgerState, take: Take, vault: Address, bump: u8)
    requires
        take.outcome(state, Some((vault, bump))) is Ok,
        state.record(take.escrow).maker != take.taker,
        state.record(take.escrow).mint_a != state.record(take.escrow).mint_b,
    ensures
        ({
            let record = state.record(take.escrow);
            let settled = take.outcome(state, Some((vault, bump)))->Ok_0;
            &&& settled.balance(take.taker, record.mint_a) == state.balance(
                take.taker,
                record.mint_a,
            ) + state.balance(vault, record.mint_a)
            &&& settled.balance(take.taker, record.mint_b) == state.balance(
                take.taker,
                record.mint_b,
            ) - record.receive_amount
            &&& settled.balance(record.maker, record.mint_b) == state.balance(
                record.maker,
                record.mint_b,
            ) + record.receive_amount
            &&& settled.balance(vault, record.mint_a) == 0
        }),
{
}

} // verus!
