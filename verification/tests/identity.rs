use escrow::{derive_addresses, derive_record, derive_vault, Address, Derived};

fn address(byte: u8) -> Address {
    Address { bytes: [byte; 32] }
}

fn program() -> Address {
    address(9)
}

const RECORD_OF_SEED_1: [u8; 32] = [
    28, 138, 239, 220, 205, 114, 46, 54, 6, 34, 208, 186, 69, 66, 71, 239, 222, 49, 211, 73, 147,
    254, 103, 228, 230, 124, 216, 132, 65, 196, 213, 196,
];

const VAULT_OF_SEED_1: [u8; 32] = [
    32, 8, 72, 218, 152, 177, 91, 17, 32, 201, 146, 202, 103, 164, 156, 16, 58, 205, 216, 155,
    197, 175, 161, 142, 189, 194, 136, 57, 165, 172, 102, 221,
];

const RECORD_OF_SEED_2: [u8; 32] = [
    235, 18, 16, 70, 33, 245, 155, 53, 75, 187, 197, 22, 14, 209, 161, 199, 25, 192, 185, 158,
    189, 10, 223, 131, 53, 65, 249, 92, 72, 137, 7, 108,
];

const VAULT_OF_SEED_2: [u8; 32] = [
    5, 51, 206, 96, 210, 37, 163, 206, 206, 48, 37, 119, 226, 231, 88, 20, 81, 24, 250, 93, 180,
    26, 214, 127, 119, 180, 136, 63, 210, 222, 224, 213,
];

#[test]
fn record_address_is_the_hash_of_tag_maker_seed_and_asset() {
    let found = derive_record(&program(), &address(1), 1, &address(2));
    assert_eq!(found, Some((Address { bytes: RECORD_OF_SEED_1 }, 255)));
}

#[test]
fn vault_address_is_the_hash_of_tag_and_record() {
    let record = Address { bytes: RECORD_OF_SEED_1 };
    let found = derive_vault(&program(), &record);
    assert_eq!(found, Some((Address { bytes: VAULT_OF_SEED_1 }, 255)));
}

#[test]
fn bump_counts_down_past_addresses_on_the_curve() {
    let record = Address { bytes: RECORD_OF_SEED_2 };
    let found = derive_vault(&program(), &record);
    assert_eq!(found, Some((Address { bytes: VAULT_OF_SEED_2 }, 250)));
}

#[test]
fn derive_addresses_gives_record_and_vault_together() {
    let found = derive_addresses(&program(), &address(1), 1, &address(2));
    let expected = Derived {
        record: Address { bytes: RECORD_OF_SEED_1 },
        record_bump: 255,
        vault: Address { bytes: VAULT_OF_SEED_1 },
        vault_bump: 255,
    };
    assert_eq!(found, Some(expected));
}

#[test]
fn derive_addresses_agrees_with_its_two_steps() {
    let at = derive_addresses(&program(), &address(1), 2, &address(2)).unwrap();
    assert_eq!(
        derive_record(&program(), &address(1), 2, &address(2)),
        Some((at.record, at.record_bump))
    );
    assert_eq!(derive_vault(&program(), &at.record), Some((at.vault, at.vault_bump)));
    assert_eq!(at.record, Address { bytes: RECORD_OF_SEED_2 });
    assert_eq!(at.vault_bump, 250);
}

#[test]
fn same_inputs_give_same_addresses() {
    let first = derive_addresses(&program(), &address(1), 7, &address(2));
    let second = derive_addresses(&program(), &address(1), 7, &address(2));
    assert!(first.is_some());
    assert_eq!(first, second);
}

#[test]
fn record_and_vault_differ_from_each_other_and_from_the_inputs() {
    let at = derive_addresses(&program(), &address(1), 1, &address(2)).unwrap();
    assert_ne!(at.record, at.vault);
    assert_ne!(at.record, program());
    assert_ne!(at.record, address(1));
    assert_ne!(at.record, address(2));
    assert_ne!(at.vault, program());
    assert_ne!(at.vault, at.record);
}

#[test]
fn each_input_changes_the_record_address() {
    let base = derive_record(&program(), &address(1), 1, &address(2)).unwrap().0;
    let other_seed = derive_record(&program(), &address(1), 2, &address(2)).unwrap().0;
    let other_maker = derive_record(&program(), &address(3), 1, &address(2)).unwrap().0;
    let other_mint = derive_record(&program(), &address(1), 1, &address(4)).unwrap().0;
    let other_program = derive_record(&address(8), &address(1), 1, &address(2)).unwrap().0;
    assert_ne!(base, other_seed);
    assert_ne!(base, other_maker);
    assert_ne!(base, other_mint);
    assert_ne!(base, other_program);
    assert_ne!(other_seed, other_maker);
}

#[test]
fn seed_enters_in_little_endian_order() {
    let low = derive_record(&program(), &address(1), 1, &address(2)).unwrap().0;
    let high = derive_record(&program(), &address(1), 1 << 56, &address(2)).unwrap().0;
    assert_eq!(low, Address { bytes: RECORD_OF_SEED_1 });
    assert_ne!(low, high);
}

#[test]
fn addresses_compare_by_their_bytes() {
    let mut bytes = [5u8; 32];
    let a = Address::new(bytes);
    assert_eq!(a, address(5));
    bytes[31] = 6;
    assert_ne!(Address::new(bytes), a);
    bytes[31] = 5;
    bytes[0] = 4;
    assert_ne!(Address::new(bytes), a);
    assert_eq!(a.to_vec(), vec![5u8; 32]);
}
