use escrow::{Account, Address, Escrow, Ledger, LedgerError, Release};

fn address(byte: u8) -> Address {
    Address { bytes: [byte; 32] }
}

fn record(maker: Address) -> Escrow {
    Escrow {
        maker,
        seed: 3,
        mint_a: address(10),
        mint_b: address(11),
        receive_amount: 40,
        authority_bump: 254,
    }
}

#[test]
fn new_ledger_is_empty() {
    let ledger = Ledger::new();
    assert_eq!(ledger.balance(&address(1), &address(10)), 0);
    assert_eq!(ledger.supply(&address(10)), 0);
    assert_eq!(ledger.account(&address(1)), None);
    assert_eq!(ledger.authority_of(&address(1)), address(1));
}

#[test]
fn issue_adds_to_balance_and_supply() {
    let mut ledger = Ledger::new();
    assert_eq!(ledger.issue(&address(1), &address(10), 700), Ok(()));
    assert_eq!(ledger.issue(&address(1), &address(10), 300), Ok(()));
    assert_eq!(ledger.issue(&address(2), &address(10), 50), Ok(()));
    assert_eq!(ledger.issue(&address(1), &address(11), 5), Ok(()));
    assert_eq!(ledger.balance(&address(1), &address(10)), 1000);
    assert_eq!(ledger.balance(&address(2), &address(10)), 50);
    assert_eq!(ledger.balance(&address(1), &address(11)), 5);
    assert_eq!(ledger.balance(&address(2), &address(11)), 0);
    assert_eq!(ledger.supply(&address(10)), 1050);
    assert_eq!(ledger.supply(&address(11)), 5);
}

#[test]
fn issue_stops_at_the_largest_balance() {
    let mut ledger = Ledger::new();
    assert_eq!(ledger.issue(&address(1), &address(10), u64::MAX - 1), Ok(()));
    assert_eq!(ledger.issue(&address(2), &address(10), 2), Err(LedgerError::SupplyExceeded));
    assert_eq!(ledger.balance(&address(2), &address(10)), 0);
    assert_eq!(ledger.supply(&address(10)), u64::MAX - 1);
    assert_eq!(ledger.issue(&address(2), &address(10), 1), Ok(()));
    assert_eq!(ledger.supply(&address(10)), u64::MAX);
    assert_eq!(ledger.issue(&address(2), &address(11), u64::MAX), Ok(()));
}

#[test]
fn transfer_moves_the_amount() {
    let mut ledger = Ledger::new();
    ledger.issue(&address(1), &address(10), 100).unwrap();
    assert_eq!(ledger.transfer(&address(1), &address(2), &address(10), 30, &address(1)), Ok(()));
    assert_eq!(ledger.balance(&address(1), &address(10)), 70);
    assert_eq!(ledger.balance(&address(2), &address(10)), 30);
    assert_eq!(ledger.supply(&address(10)), 100);
    assert_eq!(ledger.transfer(&address(1), &address(2), &address(10), 70, &address(1)), Ok(()));
    assert_eq!(ledger.balance(&address(1), &address(10)), 0);
    assert_eq!(ledger.balance(&address(2), &address(10)), 100);
}

#[test]
fn transfer_to_oneself_changes_nothing() {
    let mut ledger = Ledger::new();
    ledger.issue(&address(1), &address(10), 100).unwrap();
    assert_eq!(ledger.transfer(&address(1), &address(1), &address(10), 100, &address(1)), Ok(()));
    assert_eq!(ledger.balance(&address(1), &address(10)), 100);
    assert_eq!(ledger.supply(&address(10)), 100);
}

#[test]
fn transfer_of_nothing_from_an_empty_hand_succeeds() {
    let mut ledger = Ledger::new();
    assert_eq!(ledger.transfer(&address(1), &address(2), &address(10), 0, &address(1)), Ok(()));
    assert_eq!(ledger.balance(&address(2), &address(10)), 0);
}

#[test]
fn transfer_beyond_the_balance_is_refused() {
    let mut ledger = Ledger::new();
    ledger.issue(&address(1), &address(10), 100).unwrap();
    assert_eq!(
        ledger.transfer(&address(1), &address(2), &address(10), 101, &address(1)),
        Err(LedgerError::Insufficient)
    );
    assert_eq!(
        ledger.transfer(&address(1), &address(2), &address(11), 1, &address(1)),
        Err(LedgerError::Insufficient)
    );
    assert_eq!(ledger.balance(&address(1), &address(10)), 100);
    assert_eq!(ledger.balance(&address(2), &address(10)), 0);
}

#[test]
fn transfer_on_another_word_is_refused() {
    let mut ledger = Ledger::new();
    ledger.issue(&address(1), &address(10), 100).unwrap();
    assert_eq!(
        ledger.transfer(&address(1), &address(2), &address(10), 10, &address(2)),
        Err(LedgerError::Unauthorized)
    );
    assert_eq!(
        ledger.transfer(&address(1), &address(2), &address(10), 1000, &address(2)),
        Err(LedgerError::Unauthorized)
    );
    assert_eq!(ledger.balance(&address(1), &address(10)), 100);
}

#[test]
fn vault_moves_only_on_its_authority() {
    let mut ledger = Ledger::new();
    let vault = Account::Vault { authority: address(5), mint: address(10) };
    assert_eq!(ledger.create_account(&address(6), vault), Ok(()));
    assert_eq!(ledger.authority_of(&address(6)), address(5));
    ledger.issue(&address(6), &address(10), 100).unwrap();
    assert_eq!(
        ledger.transfer(&address(6), &address(1), &address(10), 10, &address(6)),
        Err(LedgerError::Unauthorized)
    );
    assert_eq!(ledger.transfer(&address(6), &address(1), &address(10), 10, &address(5)), Ok(()));
    assert_eq!(ledger.balance(&address(6), &address(10)), 90);
    assert_eq!(ledger.balance(&address(1), &address(10)), 10);
}

#[test]
fn create_account_refuses_an_occupied_address() {
    let mut ledger = Ledger::new();
    let vault = Account::Vault { authority: address(5), mint: address(10) };
    let other = Account::Record(record(address(1)));
    assert_eq!(ledger.create_account(&address(6), vault), Ok(()));
    assert_eq!(ledger.create_account(&address(6), other), Err(LedgerError::Occupied));
    assert_eq!(ledger.create_account(&address(6), vault), Err(LedgerError::Occupied));
    assert_eq!(ledger.account(&address(6)), Some(vault));
    assert_eq!(ledger.create_account(&address(7), other), Ok(()));
    assert_eq!(ledger.account(&address(7)), Some(other));
    assert_eq!(ledger.authority_of(&address(7)), address(7));
}

#[test]
fn close_account_refuses_a_vacant_address() {
    let mut ledger = Ledger::new();
    assert_eq!(ledger.close_account(&address(6), &address(1)), Err(LedgerError::Vacant));
}

#[test]
fn close_account_refuses_a_vault_that_holds_its_asset() {
    let mut ledger = Ledger::new();
    let vault = Account::Vault { authority: address(5), mint: address(10) };
    ledger.create_account(&address(6), vault).unwrap();
    ledger.issue(&address(6), &address(10), 1).unwrap();
    assert_eq!(ledger.close_account(&address(6), &address(1)), Err(LedgerError::NotDrained));
    assert_eq!(ledger.account(&address(6)), Some(vault));
    ledger.transfer(&address(6), &address(1), &address(10), 1, &address(5)).unwrap();
    assert_eq!(ledger.close_account(&address(6), &address(1)), Ok(()));
    assert_eq!(ledger.account(&address(6)), None);
    assert_eq!(ledger.close_account(&address(6), &address(1)), Err(LedgerError::Vacant));
}

#[test]
fn close_account_looks_only_at_the_vaults_own_asset() {
    let mut ledger = Ledger::new();
    let vault = Account::Vault { authority: address(5), mint: address(10) };
    ledger.create_account(&address(6), vault).unwrap();
    ledger.issue(&address(6), &address(11), 9).unwrap();
    assert_eq!(ledger.close_account(&address(6), &address(1)), Ok(()));
    assert_eq!(ledger.balance(&address(6), &address(11)), 9);
}

#[test]
fn closing_one_account_keeps_the_others() {
    let mut ledger = Ledger::new();
    let first = Account::Record(record(address(1)));
    let second = Account::Vault { authority: address(5), mint: address(10) };
    let third = Account::Record(record(address(2)));
    ledger.create_account(&address(6), first).unwrap();
    ledger.create_account(&address(7), second).unwrap();
    ledger.create_account(&address(8), third).unwrap();
    assert_eq!(ledger.close_account(&address(6), &address(1)), Ok(()));
    assert_eq!(ledger.account(&address(6)), None);
    assert_eq!(ledger.account(&address(7)), Some(second));
    assert_eq!(ledger.account(&address(8)), Some(third));
    assert_eq!(ledger.create_account(&address(6), third), Ok(()));
    assert_eq!(ledger.account(&address(6)), Some(third));
}

#[test]
fn vault_cannot_be_created_where_its_asset_is_held() {
    let mut ledger = Ledger::new();
    let vault = Account::Vault { authority: address(5), mint: address(10) };
    ledger.issue(&address(6), &address(10), 7).unwrap();
    assert_eq!(ledger.create_account(&address(6), vault), Err(LedgerError::Occupied));
    assert_eq!(ledger.account(&address(6)), None);
    assert_eq!(ledger.balance(&address(6), &address(10)), 7);
    ledger.transfer(&address(6), &address(1), &address(10), 7, &address(6)).unwrap();
    assert_eq!(ledger.create_account(&address(6), vault), Ok(()));
    assert_eq!(ledger.account(&address(6)), Some(vault));
}

#[test]
fn vault_and_record_can_be_created_where_another_asset_is_held() {
    let mut ledger = Ledger::new();
    let vault = Account::Vault { authority: address(5), mint: address(10) };
    ledger.issue(&address(6), &address(11), 7).unwrap();
    ledger.issue(&address(7), &address(10), 7).unwrap();
    assert_eq!(ledger.create_account(&address(6), vault), Ok(()));
    assert_eq!(ledger.create_account(&address(7), Account::Record(record(address(1)))), Ok(()));
}

#[test]
fn close_account_notes_who_received_the_storage_deposit() {
    let mut ledger = Ledger::new();
    assert_eq!(ledger.releases(), vec![]);
    let vault = Account::Vault { authority: address(5), mint: address(10) };
    ledger.create_account(&address(6), vault).unwrap();
    ledger.create_account(&address(7), Account::Record(record(address(1)))).unwrap();
    assert_eq!(ledger.close_account(&address(7), &address(2)), Ok(()));
    assert_eq!(ledger.close_account(&address(6), &address(3)), Ok(()));
    assert_eq!(
        ledger.releases(),
        vec![
            Release { account: address(7), to: address(2) },
            Release { account: address(6), to: address(3) },
        ]
    );
}

#[test]
fn refused_close_releases_nothing() {
    let mut ledger = Ledger::new();
    let vault = Account::Vault { authority: address(5), mint: address(10) };
    ledger.create_account(&address(6), vault).unwrap();
    ledger.issue(&address(6), &address(10), 1).unwrap();
    assert_eq!(ledger.close_account(&address(6), &address(2)), Err(LedgerError::NotDrained));
    assert_eq!(ledger.close_account(&address(8), &address(2)), Err(LedgerError::Vacant));
    assert_eq!(ledger.releases(), vec![]);
}
