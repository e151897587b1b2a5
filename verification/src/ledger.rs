//! An in-memory ledger: balances per holder and asset, the records and
//! vaults that stand at addresses, and a note of every storage deposit
//! released. It is the escrow's collaborator: it moves assets when the right
//! authority asks and opens and closes accounts. Every operation either
//! succeeds or changes nothing.

use crate::address::Address;
use crate::error::LedgerError;
use crate::model::{Account, LedgerState, Release};
use vstd::prelude::*;

verus! {

/// One holder's amount of one asset.
#[derive(Clone, Copy, Debug)]
struct Holding {
    holder: Address,
    mint: Address,
    amount: u64,
}

/// An account and the address it stands at.
#[derive(Clone, Copy, Debug)]
struct Slot {
    address: Address,
    account: Account,
}

/// The ledger. No holder appears twice for one asset, no address holds two
/// accounts, and no asset exists in a greater amount than a balance can
/// hold.
#[derive(Debug)]
pub struct Ledger {
    holdings: Vec<Holding>,
    slots: Vec<Slot>,
    released: Vec<Release>,
}

spec fn is_holding(h: Holding, holder: Address, mint: Address) -> bool {
    h.holder == holder && h.mint == mint
}

spec fn has_holding(s: Seq<Holding>, holder: Address, mint: Address) -> bool {
    exists|i: int| 0 <= i < s.len() && is_holding(#[trigger] s[i], holder, mint)
}

spec fn holding_index(s: Seq<Holding>, holder: Address, mint: Address) -> int {
    choose|i: int| 0 <= i < s.len() && is_holding(#[trigger] s[i], holder, mint)
}

/// What `holder` has of `mint`: the amount of its holding, or nothing.
spec fn held(s: Seq<Holding>, holder: Address, mint: Address) -> nat {
    if has_holding(s, holder, mint) {
        s[holding_index(s, holder, mint)].amount as nat
    } else {
        0
    }
}

spec fn distinct_holdings(s: Seq<Holding>) -> bool {
    forall|i: int, j: int|
        0 <= i < j < s.len() ==> !is_holding(#[trigger] s[i], (#[trigger] s[j]).holder, s[j].mint)
}

/// What one holding adds to the supply of `mint`.
spec fn share(h: Holding, mint: Address) -> nat {
    if h.mint == mint {
        h.amount as nat
    } else {
        0
    }
}

/// The amount of `mint` across all holdings.
spec fn total(s: Seq<Holding>, mint: Address) -> nat
    decreases s.len(),
{
    if s.len() == 0 {
        0
    } else {
        total(s.drop_last(), mint) + share(s.last(), mint)
    }
}

/// `amount` where `applies`, nothing elsewhere.
spec fn part(applies: bool, amount: u64) -> nat {
    if applies {
        amount as nat
    } else {
        0
    }
}

spec fn bounded_supply(s: Seq<Holding>) -> bool {
    forall|mint: Address| #[trigger] total(s, mint) <= u64::MAX
}

proof fn lemma_held_at(s: Seq<Holding>, i: int)
    requires
        distinct_holdings(s),
        0 <= i < s.len(),
    ensures
        has_holding(s, s[i].holder, s[i].mint),
        holding_index(s, s[i].holder, s[i].mint) == i,
        held(s, s[i].holder, s[i].mint) == s[i].amount,
{
    assert(is_holding(s[i], s[i].holder, s[i].mint));
    let j = holding_index(s, s[i].holder, s[i].mint);
    assert(is_holding(s[j], s[i].holder, s[i].mint));
    if j < i {
        assert(!is_holding(s[j], s[i].holder, s[i].mint));
    }
    if i < j {
        assert(!is_holding(s[i], s[j].holder, s[j].mint));
    }
}

/// Changing the amount of one holding changes what its holder has of its
/// asset and nothing else.
proof fn lemma_held_update(s: Seq<Holding>, i: int, amount: u64, holder: Address, mint: Address)
    requires
        distinct_holdings(s),
        0 <= i < s.len(),
    ensures
        distinct_holdings(s.update(i, Holding { amount, ..s[i] })),
        held(s.update(i, Holding { amount, ..s[i] }), holder, mint) == if is_holding(
            s[i],
            holder,
            mint,
        ) {
            amount as nat
        } else {
            held(s, holder, mint)
        },
{
    let t = s.update(i, Holding { amount, ..s[i] });
    assert forall|a: int, b: int| 0 <= a < b < t.len() implies !is_holding(
        #[trigger] t[a],
        (#[trigger] t[b]).holder,
        t[b].mint,
    ) by {
        assert(!is_holding(s[a], s[b].holder, s[b].mint));
    }
    if has_holding(s, holder, mint) {
        let j = holding_index(s, holder, mint);
        assert(is_holding(t[j], holder, mint));
        lemma_held_at(s, j);
        lemma_held_at(t, j);
        if j == i {
        } else {
            lemma_held_at(s, i);
        }
    } else {
        if has_holding(t, holder, mint) {
            let j = holding_index(t, holder, mint);
            assert(is_holding(s[j], holder, mint));
        }
    }
}

/// A new holding for a holder and asset that had none adds exactly that.
proof fn lemma_held_push(s: Seq<Holding>, h: Holding, holder: Address, mint: Address)
    requires
        distinct_holdings(s),
        !has_holding(s, h.holder, h.mint),
    ensures
        distinct_holdings(s.push(h)),
        held(s.push(h), holder, mint) == if is_holding(h, holder, mint) {
            h.amount as nat
        } else {
            held(s, holder, mint)
        },
{
    let t = s.push(h);
    assert forall|a: int, b: int| 0 <= a < b < t.len() implies !is_holding(
        #[trigger] t[a],
        (#[trigger] t[b]).holder,
        t[b].mint,
    ) by {
        if b < s.len() {
            assert(!is_holding(s[a], s[b].holder, s[b].mint));
        } else {
            assert(!is_holding(s[a], h.holder, h.mint));
        }
    }
    if is_holding(h, holder, mint) {
        lemma_held_at(t, s.len() as int);
    } else if has_holding(s, holder, mint) {
        let j = holding_index(s, holder, mint);
        assert(is_holding(t[j], holder, mint));
        lemma_held_at(s, j);
        lemma_held_at(t, j);
    } else {
        if has_holding(t, holder, mint) {
            let j = holding_index(t, holder, mint);
            assert(is_holding(s[j], holder, mint));
        }
    }
}

proof fn lemma_total_update(s: Seq<Holding>, i: int, h: Holding, mint: Address)
    requires
        0 <= i < s.len(),
    ensures
        total(s.update(i, h), mint) + share(s[i], mint) == total(s, mint) + share(h, mint),
    decreases s.len(),
{
    if i == s.len() - 1 {
        assert(s.update(i, h).drop_last() =~= s.drop_last());
    } else {
        assert(s.update(i, h).drop_last() =~= s.drop_last().update(i, h));
        lemma_total_update(s.drop_last(), i, h, mint);
    }
}

proof fn lemma_total_push(s: Seq<Holding>, h: Holding, mint: Address)
    ensures
        total(s.push(h), mint) == total(s, mint) + share(h, mint),
{
    assert(s.push(h).drop_last() =~= s);
}

proof fn lemma_share_bounded(s: Seq<Holding>, i: int, mint: Address)
    requires
        0 <= i < s.len(),
    ensures
        share(s[i], mint) <= total(s, mint),
    decreases s.len(),
{
    if i < s.len() - 1 {
        lemma_share_bounded(s.drop_last(), i, mint);
    }
}

proof fn lemma_total_prefix(s: Seq<Holding>, n: int, mint: Address)
    requires
        0 <= n <= s.len(),
    ensures
        total(s.subrange(0, n), mint) <= total(s, mint),
    decreases s.len(),
{
    if n == s.len() {
        assert(s.subrange(0, n) =~= s);
    } else {
        assert(s.drop_last().subrange(0, n) =~= s.subrange(0, n));
        lemma_total_prefix(s.drop_last(), n, mint);
    }
}

spec fn has_slot(s: Seq<Slot>, address: Address) -> bool {
    exists|i: int| 0 <= i < s.len() && (#[trigger] s[i]).address == address
}

spec fn slot_index(s: Seq<Slot>, address: Address) -> int {
    choose|i: int| 0 <= i < s.len() && (#[trigger] s[i]).address == address
}

spec fn distinct_slots(s: Seq<Slot>) -> bool {
    forall|i: int, j: int|
        0 <= i < j < s.len() ==> (#[trigger] s[i]).address != (#[trigger] s[j]).address
}

proof fn lemma_slot_at(s: Seq<Slot>, i: int)
    requires
        distinct_slots(s),
        0 <= i < s.len(),
    ensures
        has_slot(s, s[i].address),
        slot_index(s, s[i].address) == i,
{
    let j = slot_index(s, s[i].address);
    if j < i {
        assert(s[j].address != s[i].address);
    }
    if i < j {
        assert(s[i].address != s[j].address);
    }
}

/// A slot at a free address adds that account and leaves the others.
proof fn lemma_slot_push(s: Seq<Slot>, slot: Slot, address: Address)
    requires
        distinct_slots(s),
        !has_slot(s, slot.address),
    ensures
        distinct_slots(s.push(slot)),
        has_slot(s.push(slot), address) == (address == slot.address || has_slot(s, address)),
        has_slot(s.push(slot), address) ==> s.push(slot)[slot_index(s.push(slot), address)].account
            == if address == slot.address {
            slot.account
        } else {
            s[slot_index(s, address)].account
        },
{
    let t = s.push(slot);
    assert forall|a: int, b: int| 0 <= a < b < t.len() implies (#[trigger] t[a]).address != (
    #[trigger] t[b]).address by {
        if b < s.len() {
            assert(s[a].address != s[b].address);
        } else {
            assert(s[a].address != slot.address);
        }
    }
    if address == slot.address {
        lemma_slot_at(t, s.len() as int);
    } else if has_slot(s, address) {
        let j = slot_index(s, address);
        assert(t[j].address == address);
        lemma_slot_at(s, j);
        lemma_slot_at(t, j);
    } else {
        if has_slot(t, address) {
            let j = slot_index(t, address);
            assert(s[j].address == address);
        }
    }
}

/// Taking a slot out removes that account and leaves the others.
proof fn lemma_slot_remove(s: Seq<Slot>, i: int, address: Address)
    requires
        distinct_slots(s),
        0 <= i < s.len(),
    ensures
        distinct_slots(s.remove(i)),
        has_slot(s.remove(i), address) == (address != s[i].address && has_slot(s, address)),
        has_slot(s.remove(i), address) ==> s.remove(i)[slot_index(s.remove(i), address)].account
            == s[slot_index(s, address)].account,
{
    let t = s.remove(i);
    assert forall|a: int, b: int| 0 <= a < b < t.len() implies (#[trigger] t[a]).address != (
    #[trigger] t[b]).address by {
        let a0 = if a < i { a } else { a + 1 };
        let b0 = if b < i { b } else { b + 1 };
        assert(t[a] == s[a0] && t[b] == s[b0]);
        assert(s[a0].address != s[b0].address);
    }
    if has_slot(t, address) {
        let j = slot_index(t, address);
        let j0 = if j < i { j } else { j + 1 };
        assert(t[j] == s[j0]);
        assert(s[j0].address == address);
        lemma_slot_at(s, j0);
        lemma_slot_at(s, i);
    } else if has_slot(s, address) && address != s[i].address {
        let j0 = slot_index(s, address);
        let j = if j0 < i { j0 } else { j0 - 1 };
        assert(t[j] == s[j0]);
        assert(t[j].address == address);
    }
}

impl View for Ledger {
    type V = LedgerState;

    closed spec fn view(&self) -> LedgerState {
        LedgerState {
            balances: Map::total(|key: (Address, Address)| held(self.holdings@, key.0, key.1)),
            supply: Map::total(|mint: Address| total(self.holdings@, mint)),
            accounts: Map::new(
                |address: Address| has_slot(self.slots@, address),
                |address: Address| self.slots@[slot_index(self.slots@, address)].account,
            ),
            releases: self.released@,
        }
    }
}

impl Ledger {
    /// The ledger's invariant.
    pub closed spec fn wf(&self) -> bool {
        &&& distinct_holdings(self.holdings@)
        &&& bounded_supply(self.holdings@)
        &&& distinct_slots(self.slots@)
    }

    /// A well-formed ledger's state gives every holder a balance of every
    /// asset, within what a balance can hold.
    pub proof fn lemma_state_wf(&self)
        requires
            self.wf(),
        ensures
            self@.wf(),
            forall|mint: Address| #[trigger] self@.supply[mint] <= u64::MAX,
            forall|holder: Address, mint: Address| #[trigger]
                self@.balance(holder, mint) <= self@.supply[mint],
    {
        assert forall|holder: Address, mint: Address| #[trigger]
            self@.balance(holder, mint) <= self@.supply[mint] by {
            if has_holding(self.holdings@, holder, mint) {
                lemma_share_bounded(
                    self.holdings@,
                    holding_index(self.holdings@, holder, mint),
                    mint,
                );
            }
        }
        assert forall|mint: Address| #[trigger] self@.supply[mint] <= u64::MAX by {
            assert(total(self.holdings@, mint) <= u64::MAX);
        }
    }

    /// A ledger on which nobody holds anything and no account exists.
    pub fn new() -> (ledger: Ledger)
        ensures
            ledger.wf(),
            ledger@ == LedgerState::empty(),
    {
        let ledger = Ledger { holdings: Vec::new(), slots: Vec::new(), released: Vec::new() };
        assert(ledger@.balances =~= LedgerState::empty().balances);
        assert(ledger@.supply =~= LedgerState::empty().supply);
        assert(ledger@.accounts =~= LedgerState::empty().accounts);
        ledger
    }

    fn find_holding(&self, holder: &Address, mint: &Address) -> (found: Option<usize>)
        ensures
            match found {
                Some(i) => i < self.holdings@.len() && is_holding(
                    self.holdings@[i as int],
                    *holder,
                    *mint,
                ),
                None => !has_holding(self.holdings@, *holder, *mint),
            },
    {
        let mut i: usize = 0;
        while i < self.holdings.len()
            invariant
                i <= self.holdings@.len(),
                forall|k: int|
                    0 <= k < i ==> !is_holding(#[trigger] self.holdings@[k], *holder, *mint),
            decreases self.holdings@.len() - i,
        {
            if self.holdings[i].holder == *holder && self.holdings[i].mint == *mint {
                return Some(i);
            }
            i += 1;
        }
        None
    }

    fn find_slot(&self, address: &Address) -> (found: Option<usize>)
        ensures
            match found {
                Some(i) => i < self.slots@.len() && self.slots@[i as int].address == *address,
                None => !has_slot(self.slots@, *address),
            },
    {
        let mut i: usize = 0;
        while i < self.slots.len()
            invariant
                i <= self.slots@.len(),
                forall|k: int| 0 <= k < i ==> (#[trigger] self.slots@[k]).address != *address,
            decreases self.slots@.len() - i,
        {
            if self.slots[i].address == *address {
                return Some(i);
            }
            i += 1;
        }
        None
    }

    /// The account at `address`, if there is one.
    pub fn account(&self, address: &Address) -> (found: Option<Account>)
        requires
            self.wf(),
        ensures
            found == self@.account(*address),
    {
        match self.find_slot(address) {
            Some(i) => {
                proof {
                    lemma_slot_at(self.slots@, i as int);
                }
                Some(self.slots[i].account)
            },
            None => None,
        }
    }

    /// Who may move what `holder` holds.
    pub fn authority_of(&self, holder: &Address) -> (authority: Address)
        requires
            self.wf(),
        ensures
            authority == self@.authority_of(*holder),
    {
        match self.account(holder) {
            Some(Account::Vault { authority, .. }) => authority,
            _ => *holder,
        }
    }

    /// Creates `account` at `address`, unless an account stands there or, for
    /// a vault, the address already holds some of the vault's asset.
    pub fn create_account(&mut self, address: &Address, account: Account) -> (done: Result<
        (),
        LedgerError,
    >)
        requires
            old(self).wf(),
        ensures
            final(self).wf(),
            done == old(self)@.create_check(*address, account),
            final(self)@ == if done is Ok {
                old(self)@.opened(*address, account)
            } else {
                old(self)@
            },
    {
        if self.find_slot(address).is_some() {
            return Err(LedgerError::Occupied);
        }
        if let Account::Vault { mint, .. } = account {
            if self.balance(address, &mint) > 0 {
                return Err(LedgerError::Occupied);
            }
        }
        let ghost s = self.slots@;
        let slot = Slot { address: *address, account };
        self.slots.push(slot);
        proof {
            assert(self.slots@ == s.push(slot));
            lemma_slot_push(s, slot, *address);
            let wanted = old(self)@.opened(*address, account);
            assert forall|a: Address| #[trigger]
                self@.accounts.contains_key(a) == wanted.accounts.contains_key(a) by {
                lemma_slot_push(s, slot, a);
            }
            assert forall|a: Address| self@.accounts.contains_key(a) implies #[trigger]
                self@.accounts[a] == wanted.accounts[a] by {
                lemma_slot_push(s, slot, a);
            }
            assert(self@.accounts =~= wanted.accounts);
        }
        Ok(())
    }

    /// Closes the account at `address` and releases its storage deposit to
    /// `refund_to`. Refused when no account stands there, and for a vault
    /// that still holds some of its asset.
    pub fn close_account(&mut self, address: &Address, refund_to: &Address) -> (done: Result<
        (),
        LedgerError,
    >)
        requires
            old(self).wf(),
        ensures
            final(self).wf(),
            done == old(self)@.close_check(*address),
            final(self)@ == if done is Ok {
                old(self)@.closed(*address, *refund_to)
            } else {
                old(self)@
            },
    {
        match self.find_slot(address) {
            None => Err(LedgerError::Vacant),
            Some(i) => {
                proof {
                    lemma_slot_at(self.slots@, i as int);
                }
                if let Account::Vault { mint, .. } = self.slots[i].account {
                    if self.balance(address, &mint) > 0 {
                        return Err(LedgerError::NotDrained);
                    }
                }
                let ghost s = self.slots@;
                self.slots.remove(i);
                self.released.push(Release { account: *address, to: *refund_to });
                proof {
                    assert(self.slots@ == s.remove(i as int));
                    lemma_slot_remove(s, i as int, *address);
                    let wanted = old(self)@.closed(*address, *refund_to);
                    assert forall|a: Address| #[trigger]
                        self@.accounts.contains_key(a) == wanted.accounts.contains_key(a) by {
                        lemma_slot_remove(s, i as int, a);
                    }
                    assert forall|a: Address| self@.accounts.contains_key(a) implies #[trigger]
                        self@.accounts[a] == wanted.accounts[a] by {
                        lemma_slot_remove(s, i as int, a);
                    }
                    assert(self@.accounts =~= wanted.accounts);
                }
                Ok(())
            },
        }
    }

    /// The storage deposits released so far, oldest first.
    pub fn releases(&self) -> (log: Vec<Release>)
        ensures
            log@ == self@.releases,
    {
        let mut log: Vec<Release> = Vec::new();
        let mut i: usize = 0;
        while i < self.released.len()
            invariant
                i <= self.released@.len(),
                log@ == self.released@.subrange(0, i as int),
            decreases self.released@.len() - i,
        {
            log.push(self.released[i]);
            assert(log@ == self.released@.subrange(0, i + 1));
            i += 1;
        }
        assert(log@ == self.released@);
        log
    }

    /// How much of `mint` the holder has.
    pub fn balance(&self, holder: &Address, mint: &Address) -> (amount: u64)
        requires
            self.wf(),
        ensures
            amount == self@.balance(*holder, *mint),
    {
        match self.find_holding(holder, mint) {
            Some(i) => {
                proof {
                    lemma_held_at(self.holdings@, i as int);
                }
                self.holdings[i].amount
            },
            None => 0,
        }
    }

    /// How much of `mint` exists.
    pub fn supply(&self, mint: &Address) -> (amount: u64)
        requires
            self.wf(),
        ensures
            amount == self@.supply[*mint],
    {
        let mut sum: u64 = 0;
        let mut i: usize = 0;
        while i < self.holdings.len()
            invariant
                i <= self.holdings@.len(),
                sum == total(self.holdings@.subrange(0, i as int), *mint),
                total(self.holdings@, *mint) <= u64::MAX,
            decreases self.holdings@.len() - i,
        {
            proof {
                let next = self.holdings@.subrange(0, i + 1);
                assert(next.drop_last() =~= self.holdings@.subrange(0, i as int));
                lemma_total_prefix(self.holdings@, i + 1, *mint);
            }
            if self.holdings[i].mint == *mint {
                sum = sum + self.holdings[i].amount;
            }
            i += 1;
        }
        assert(self.holdings@.subrange(0, i as int) =~= self.holdings@);
        sum
    }

    /// Takes `amount` of `mint` from `holder`, who has at least that much.
    fn debit(&mut self, holder: &Address, mint: &Address, amount: u64)
        requires
            old(self).wf(),
            held(old(self).holdings@, *holder, *mint) >= amount,
        ensures
            final(self).wf(),
            final(self).slots == old(self).slots,
            final(self).released == old(self).released,
            forall|h: Address, m: Address| #[trigger]
                held(final(self).holdings@, h, m) == held(old(self).holdings@, h, m) - part(
                    h == *holder && m == *mint,
                    amount,
                ),
            forall|m: Address| #[trigger]
                total(final(self).holdings@, m) == total(old(self).holdings@, m) - part(
                    m == *mint,
                    amount,
                ),
            total(old(self).holdings@, *mint) >= amount,
    {
        match self.find_holding(holder, mint) {
            Some(i) => {
                let before = self.holdings[i];
                let ghost s = self.holdings@;
                proof {
                    lemma_held_at(s, i as int);
                    lemma_share_bounded(s, i as int, *mint);
                }
                let after = Holding { amount: before.amount - amount, ..before };
                self.holdings[i] = after;
                proof {
                    assert(self.holdings@ == s.update(i as int, after));
                    assert forall|h: Address, m: Address| #[trigger]
                        held(self.holdings@, h, m) == held(s, h, m) - part(
                            h == *holder && m == *mint,
                            amount,
                        ) by {
                        lemma_held_update(s, i as int, after.amount, h, m);
                    }
                    assert forall|m: Address| #[trigger]
                        total(self.holdings@, m) == total(s, m) - part(m == *mint, amount) by {
                        lemma_total_update(s, i as int, after, m);
                    }
                    lemma_held_update(s, i as int, after.amount, *holder, *mint);
                    assert forall|m: Address| #[trigger] total(self.holdings@, m) <= u64::MAX by {
                        assert(total(s, m) <= u64::MAX);
                    }
                }
            },
            None => {
                proof {
                    assert(amount == 0);
                }
            },
        }
    }

    /// Gives `amount` of `mint` to `holder`; the asset's total has room
    /// for it.
    fn credit(&mut self, holder: &Address, mint: &Address, amount: u64)
        requires
            old(self).wf(),
            total(old(self).holdings@, *mint) + amount <= u64::MAX,
        ensures
            final(self).wf(),
            final(self).slots == old(self).slots,
            final(self).released == old(self).released,
            forall|h: Address, m: Address| #[trigger]
                held(final(self).holdings@, h, m) == held(old(self).holdings@, h, m) + part(
                    h == *holder && m == *mint,
                    amount,
                ),
            forall|m: Address| #[trigger]
                total(final(self).holdings@, m) == total(old(self).holdings@, m) + part(
                    m == *mint,
                    amount,
                ),
    {
        let ghost s = self.holdings@;
        match self.find_holding(holder, mint) {
            Some(i) => {
                let before = self.holdings[i];
                proof {
                    lemma_held_at(s, i as int);
                    lemma_share_bounded(s, i as int, *mint);
                }
                let after = Holding { amount: before.amount + amount, ..before };
                self.holdings[i] = after;
                proof {
                    assert(self.holdings@ == s.update(i as int, after));
                    assert forall|h: Address, m: Address| #[trigger]
                        held(self.holdings@, h, m) == held(s, h, m) + part(
                            h == *holder && m == *mint,
                            amount,
                        ) by {
                        lemma_held_update(s, i as int, after.amount, h, m);
                    }
                    assert forall|m: Address| #[trigger]
                        total(self.holdings@, m) == total(s, m) + part(m == *mint, amount) by {
                        lemma_total_update(s, i as int, after, m);
                    }
                    lemma_held_update(s, i as int, after.amount, *holder, *mint);
                    assert forall|m: Address| #[trigger] total(self.holdings@, m) <= u64::MAX by {
                        assert(total(s, m) <= u64::MAX);
                    }
                }
            },
            None => {
                let fresh = Holding { holder: *holder, mint: *mint, amount };
                self.holdings.push(fresh);
                proof {
                    assert(self.holdings@ == s.push(fresh));
                    assert forall|h: Address, m: Address| #[trigger]
                        held(self.holdings@, h, m) == held(s, h, m) + part(
                            h == *holder && m == *mint,
                            amount,
                        ) by {
                        lemma_held_push(s, fresh, h, m);
                    }
                    assert forall|m: Address| #[trigger]
                        total(self.holdings@, m) == total(s, m) + part(m == *mint, amount) by {
                        lemma_total_push(s, fresh, m);
                    }
                    lemma_held_push(s, fresh, *holder, *mint);
                    assert forall|m: Address| #[trigger] total(self.holdings@, m) <= u64::MAX by {
                        assert(total(s, m) <= u64::MAX);
                    }
                }
            },
        }
    }

    /// Creates `amount` of `mint` in `holder`'s hands, unless the asset's
    /// total would no longer fit a balance.
    pub fn issue(&mut self, holder: &Address, mint: &Address, amount: u64) -> (done: Result<
        (),
        LedgerError,
    >)
        requires
            old(self).wf(),
        ensures
            final(self).wf(),
            done == old(self)@.issue_check(*mint, amount as nat),
            final(self)@ == if done is Ok {
                old(self)@.issued(*holder, *mint, amount as nat)
            } else {
                old(self)@
            },
    {
        let supply = self.supply(mint);
        if amount > u64::MAX - supply {
            return Err(LedgerError::SupplyExceeded);
        }
        self.credit(holder, mint, amount);
        proof {
            let wanted = old(self)@.issued(*holder, *mint, amount as nat);
            assert(self@.balances =~= wanted.balances);
            assert(self@.supply =~= wanted.supply);
        }
        Ok(())
    }

    /// Moves `amount` of `mint` from `from` to `to` on the word of
    /// `authorizer`. Refused when `authorizer` does not control `from`, and
    /// otherwise when `from` has less than `amount`.
    pub fn transfer(
        &mut self,
        from: &Address,
        to: &Address,
        mint: &Address,
        amount: u64,
        authorizer: &Address,
    ) -> (done: Result<(), LedgerError>)
        requires
            old(self).wf(),
        ensures
            final(self).wf(),
            done == old(self)@.transfer_check(*from, *mint, amount as nat, *authorizer),
            final(self)@ == if done is Ok {
                old(self)@.moved(*from, *to, *mint, amount as nat)
            } else {
                old(self)@
            },
    {
        if self.authority_of(from) != *authorizer {
            return Err(LedgerError::Unauthorized);
        }
        if self.balance(from, mint) < amount {
            return Err(LedgerError::Insufficient);
        }
        self.debit(from, mint, amount);
        self.credit(to, mint, amount);
        proof {
            let wanted = old(self)@.moved(*from, *to, *mint, amount as nat);
            assert(self@.balances =~= wanted.balances);
            assert(self@.supply =~= wanted.supply);
        }
        Ok(())
    }
}

} // verus!
