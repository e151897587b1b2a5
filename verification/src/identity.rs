//! The identity deriver: from a maker, a seed and the offered asset to the
//! address of the escrow record and the address of its vault.
//!
//! Both addresses are program-derived: the host's address search hashes a
//! list of byte strings together with the program's identity and returns the
//! first result, counting the bump byte down from 255, that is not a point
//! on the signing curve. The search is a pure function of its inputs, and
//! that is all this library relies on.

use crate::address::Address;
use vstd::bytes::{spec_u64_to_le_bytes, u64_to_le_bytes};
use vstd::prelude::*;

verus! {

/// Where an escrow lives: the record's address and the vault's, each with
/// the bump byte its search ended on.
#[derive(Clone, Copy, Debug, PartialEq, Eq)]
pub struct Derived {
    pub record: Address,
    pub record_bump: u8,
    pub vault: Address,
    pub vault_bump: u8,
}

/// What the host's address search returns for these byte strings under this
/// program: the address found and its bump byte, or nothing.
pub uninterp spec fn program_address(seeds: Seq<Seq<u8>>, program: Seq<u8>) -> Option<
    (Seq<u8>, u8),
>;

/// The contents of a list of byte strings.
pub open spec fn seed_bytes(seeds: Seq<Vec<u8>>) -> Seq<Seq<u8>> {
    Seq::new(seeds.len(), |i: int| seeds[i]@)
}

/// The search result as bytes.
pub open spec fn found_bytes(found: Option<(Address, u8)>) -> Option<(Seq<u8>, u8)> {
    match found {
        Some((address, bump)) => Some((address@, bump)),
        None => None,
    }
}

/// `Pubkey::try_find_program_address` of `anchor_lang`: the result is the
/// address search applied to the seeds' bytes and the program's bytes. The
/// call returns nothing, rather than failing, when the seeds are too many
/// or too long or when no bump byte gives a usable address.
#[verifier::external_body]
fn find_program_address(seeds: &Vec<Vec<u8>>, program: &Address) -> (found: Option<(Address, u8)>)
    ensures
        found_bytes(found) == program_address(seed_bytes(seeds@), program@),
{
    let parts: Vec<&[u8]> = seeds.iter().map(Vec::as_slice).collect();
    let id = anchor_lang::prelude::Pubkey::new_from_array(program.bytes);
    match anchor_lang::prelude::Pubkey::try_find_program_address(&parts, &id) {
        Some((key, bump)) => Some((Address { bytes: key.to_bytes() }, bump)),
        None => None,
    }
}

/// The search result as an address.
pub open spec fn located(seeds: Seq<Seq<u8>>, program: Address) -> Option<(Address, u8)> {
    match program_address(seeds, program@) {
        Some((bytes, bump)) => Some((Address::of(bytes), bump)),
        None => None,
    }
}

/// The bytes of the word `escrow`, which open a record's seeds.
pub open spec fn record_tag() -> Seq<u8> {
    seq![101u8, 115u8, 99u8, 114u8, 111u8, 119u8]
}

/// The bytes of the word `vault`, which open a vault's seeds.
pub open spec fn vault_tag() -> Seq<u8> {
    seq![118u8, 97u8, 117u8, 108u8, 116u8]
}

/// A record's seeds: the tag, the maker, the seed in little-endian bytes,
/// and the offered asset.
pub open spec fn record_seeds(maker: Address, seed: u64, mint_a: Address) -> Seq<Seq<u8>> {
    seq![record_tag(), maker@, spec_u64_to_le_bytes(seed), mint_a@]
}

/// A vault's seeds: the tag and the address of the record it belongs to.
pub open spec fn vault_seeds(record: Address) -> Seq<Seq<u8>> {
    seq![vault_tag(), record@]
}

/// The address and bump of the record that `maker` makes under `seed` for
/// `mint_a`.
pub open spec fn record_address(program: Address, maker: Address, seed: u64, mint_a: Address)
    -> Option<(Address, u8)> {
    located(record_seeds(maker, seed, mint_a), program)
}

/// The address and bump of the vault that belongs to the record at `record`.
pub open spec fn vault_address(program: Address, record: Address) -> Option<(Address, u8)> {
    located(vault_seeds(record), program)
}

/// Both addresses of an escrow, when both searches succeed.
pub open spec fn derived(program: Address, maker: Address, seed: u64, mint_a: Address) -> Option<
    Derived,
> {
    match record_address(program, maker, seed, mint_a) {
        Some((record, record_bump)) => match vault_address(program, record) {
            Some((vault, vault_bump)) => Some(
                Derived { record, record_bump, vault, vault_bump },
            ),
            None => None,
        },
        None => None,
    }
}

fn locate(seeds: &Vec<Vec<u8>>, program: &Address) -> (found: Option<(Address, u8)>)
    ensures
        found == located(seed_bytes(seeds@), *program),
{
    let found = find_program_address(seeds, program);
    proof {
        if let Some((address, bump)) = found {
            Address::lemma_of_view(address);
        }
    }
    found
}

fn record_tag_bytes() -> (tag: Vec<u8>)
    ensures
        tag@ == record_tag(),
{
    let mut tag: Vec<u8> = Vec::new();
    tag.push(101);
    tag.push(115);
    tag.push(99);
    tag.push(114);
    tag.push(111);
    tag.push(119);
    assert(tag@ =~= record_tag());
    tag
}

fn vault_tag_bytes() -> (tag: Vec<u8>)
    ensures
        tag@ == vault_tag(),
{
    let mut tag: Vec<u8> = Vec::new();
    tag.push(118);
    tag.push(97);
    tag.push(117);
    tag.push(108);
    tag.push(116);
    assert(tag@ =~= vault_tag());
    tag
}

/// Finds the address of the record that `maker` makes under `seed` for
/// `mint_a`.
pub fn derive_record(program: &Address, maker: &Address, seed: u64, mint_a: &Address) -> (found:
    Option<(Address, u8)>)
    ensures
        found == record_address(*program, *maker, seed, *mint_a),
{
    let mut seeds: Vec<Vec<u8>> = Vec::new();
    seeds.push(record_tag_bytes());
    seeds.push(maker.to_vec());
    seeds.push(u64_to_le_bytes(seed));
    seeds.push(mint_a.to_vec());
    assert(seed_bytes(seeds@) =~= record_seeds(*maker, seed, *mint_a));
    locate(&seeds, program)
}

/// Finds the address of the vault that belongs to the record at `record`.
pub fn derive_vault(program: &Address, record: &Address) -> (found: Option<(Address, u8)>)
    ensures
        found == vault_address(*program, *record),
{
    let mut seeds: Vec<Vec<u8>> = Vec::new();
    seeds.push(vault_tag_bytes());
    seeds.push(record.to_vec());
    assert(seed_bytes(seeds@) =~= vault_seeds(*record));
    locate(&seeds, program)
}

/// Finds both addresses of the escrow that `maker` makes under `seed` for
/// `mint_a`. The same inputs always give the same answer.
pub fn derive_addresses(
    program: &Address,
    maker: &Address,
    seed: u64,
    mint_a: &Address,
) -> (found: Option<Derived>)
    ensures
        found == derived(*program, *maker, seed, *mint_a),
{
    match derive_record(program, maker, seed, mint_a) {
        Some((record, record_bump)) => match derive_vault(program, &record) {
            Some((vault, vault_bump)) => Some(
                Derived { record, record_bump, vault, vault_bump },
            ),
            None => None,
        },
        None => None,
    }
}

} // verus!
