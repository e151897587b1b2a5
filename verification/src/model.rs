//! The ledger as a mathematical value, and the steps that change it.
//!
//! The escrow operations are stated over this model: who holds how much of
//! which asset, and which records and vaults stand at which addresses.

use crate::address::Address;
use crate::error::LedgerError;
use crate::state::Escrow;
use vstd::prelude::*;

verus! {

/// What stands at an address of the ledger.
#[derive(Clone, Copy, Debug, PartialEq, Eq)]
pub enum Account {
    /// A custody account for one asset. Only `authority` can move what the
    /// address holds; the address itself cannot.
    Vault { authority: Address, mint: Address },
    /// An escrow record.
    Record(Escrow),
}

/// The release of a closed account's storage deposit.
#[derive(Clone, Copy, Debug, PartialEq, Eq)]
pub struct Release {
    /// The address of the account that was closed.
    pub account: Address,
    /// Who received its storage deposit.
    pub to: Address,
}

/// The state of a ledger.
#[verifier::ext_equal]
pub struct LedgerState {
    /// For each holder and asset, in this order, the amount held.
    pub balances: Map<(Address, Address), nat>,
    /// For each asset, the amount in existence.
    pub supply: Map<Address, nat>,
    /// The records and vaults, by address.
    pub accounts: Map<Address, Account>,
    /// The storage deposits released so far, oldest first.
    pub releases: Seq<Release>,
}

impl LedgerState {
    /// Nobody holds anything and no account exists.
    pub open spec fn empty() -> LedgerState {
        LedgerState {
            balances: Map::total(|key: (Address, Address)| 0nat),
            supply: Map::total(|mint: Address| 0nat),
            accounts: Map::empty(),
            releases: Seq::empty(),
        }
    }

    /// Every holder has a balance of every asset, and every asset a supply.
    pub open spec fn wf(self) -> bool {
        &&& forall|key: (Address, Address)| self.balances.contains_key(key)
        &&& forall|mint: Address| self.supply.contains_key(mint)
    }

    /// How much of `mint` the holder has.
    pub open spec fn balance(self, holder: Address, mint: Address) -> nat {
        self.balances[(holder, mint)]
    }

    /// Whether an account stands at `address`.
    pub open spec fn occupied(self, address: Address) -> bool {
        self.accounts.contains_key(address)
    }

    /// The account at `address`, if there is one.
    pub open spec fn account(self, address: Address) -> Option<Account> {
        if self.accounts.contains_key(address) {
            Some(self.accounts[address])
        } else {
            None
        }
    }

    /// Whether an escrow record stands at `address`.
    pub open spec fn holds_record(self, address: Address) -> bool {
        self.accounts.contains_key(address) && self.accounts[address] is Record
    }

    /// The record at `address`; meaningful where `holds_record` is true.
    pub open spec fn record(self, address: Address) -> Escrow {
        self.accounts[address]->Record_0
    }

    /// Whether the vault for `mint` under `authority` stands at `address`.
    pub open spec fn holds_vault(self, address: Address, authority: Address, mint: Address)
        -> bool {
        self.accounts.contains_key(address) && self.accounts[address] == (Account::Vault {
            authority,
            mint,
        })
    }

    /// Who may move what `holder` holds: a vault's authority for a vault,
    /// the holder itself otherwise.
    pub open spec fn authority_of(self, holder: Address) -> Address {
        if self.accounts.contains_key(holder) {
            match self.accounts[holder] {
                Account::Vault { authority, mint } => authority,
                Account::Record(escrow) => holder,
            }
        } else {
            holder
        }
    }

    /// Whether `holder` moves its own holdings.
    pub open spec fn signs_for_itself(self, holder: Address) -> bool {
        self.authority_of(holder) == holder
    }

    /// Whether `authorizer` may move `amount` of `mint` out of `from`.
    pub open spec fn transfer_check(
        self,
        from: Address,
        mint: Address,
        amount: nat,
        authorizer: Address,
    ) -> Result<(), LedgerError> {
        if self.authority_of(from) != authorizer {
            Err(LedgerError::Unauthorized)
        } else if self.balance(from, mint) < amount {
            Err(LedgerError::Insufficient)
        } else {
            Ok(())
        }
    }

    /// The state after `amount` of `mint` went from `from` to `to`.
    pub open spec fn moved(self, from: Address, to: Address, mint: Address, amount: nat)
        -> LedgerState {
        let debited = self.balances.insert(
            (from, mint),
            (self.balances[(from, mint)] - amount) as nat,
        );
        let credited = debited.insert((to, mint), debited[(to, mint)] + amount);
        LedgerState { balances: credited, ..self }
    }

    /// Whether `amount` more of `mint` can exist.
    pub open spec fn issue_check(self, mint: Address, amount: nat) -> Result<(), LedgerError> {
        if self.supply[mint] + amount > u64::MAX {
            Err(LedgerError::SupplyExceeded)
        } else {
            Ok(())
        }
    }

    /// The state after `amount` of `mint` was created in `holder`'s hands.
    pub open spec fn issued(self, holder: Address, mint: Address, amount: nat) -> LedgerState {
        LedgerState {
            balances: self.balances.insert((holder, mint), self.balances[(holder, mint)] + amount),
            supply: self.supply.insert(mint, self.supply[mint] + amount),
            ..self
        }
    }

    /// Whether `address` is free for `account`: no account stands there,
    /// and a vault's address holds none of the vault's asset, so that a
    /// vault opens empty.
    pub open spec fn free_for(self, address: Address, account: Account) -> bool {
        !self.occupied(address) && match account {
            Account::Vault { authority, mint } => self.balance(address, mint) == 0,
            Account::Record(escrow) => true,
        }
    }

    /// Whether `account` can be created at `address`.
    pub open spec fn create_check(self, address: Address, account: Account) -> Result<
        (),
        LedgerError,
    > {
        if self.free_for(address, account) {
            Ok(())
        } else {
            Err(LedgerError::Occupied)
        }
    }

    /// The state after `account` was created at `address`.
    pub open spec fn opened(self, address: Address, account: Account) -> LedgerState {
        LedgerState { accounts: self.accounts.insert(address, account), ..self }
    }

    /// Whether the account at `address` can be closed: it exists, and if it
    /// is a vault it holds nothing of its asset.
    pub open spec fn close_check(self, address: Address) -> Result<(), LedgerError> {
        if !self.occupied(address) {
            Err(LedgerError::Vacant)
        } else {
            match self.accounts[address] {
                Account::Vault { authority, mint } => if self.balance(address, mint) > 0 {
                    Err(LedgerError::NotDrained)
                } else {
                    Ok(())
                },
                Account::Record(escrow) => Ok(()),
            }
        }
    }

    /// The state after the account at `address` was closed and its storage
    /// deposit released to `to`.
    pub open spec fn closed(self, address: Address, to: Address) -> LedgerState {
        LedgerState {
            accounts: self.accounts.remove(address),
            releases: self.releases.push(Release { account: address, to }),
            ..self
        }
    }
}

} // verus!
