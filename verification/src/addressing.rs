//! Where records live: every record of the program stands at an address
//! derived from seeds that name it, so that two records share an address
//! only if they share their seeds. The global state is named by a fixed
//! text, a game by its id, an escrow record by its owner and the id of its
//! game, and the record of a settlement attempt by its initiator and the
//! transaction hash.

use vstd::prelude::*;
use vstd::bytes::{lemma_auto_spec_u64_to_from_le_bytes, spec_u64_to_le_bytes, u64_to_le_bytes};
use anchor_lang::prelude::Pubkey;
use crate::bytes32::{Address, Bytes32};

verus! {

/// What `Pubkey::try_find_program_address` returns for a list of seeds and
/// a program id: the derived address with its bump seed, or nothing where
/// the seeds are not admissible or no bump seed leads to a valid address.
pub uninterp spec fn program_address(seeds: Seq<Seq<u8>>, program_id: Seq<u8>) -> Option<
    (Seq<u8>, u8),
>;

/// The byte strings that a list of seeds holds.
pub open spec fn seeds_view(seeds: Seq<Vec<u8>>) -> Seq<Seq<u8>> {
    Seq::new(seeds.len(), |i: int| seeds[i]@)
}

/// Calls `Pubkey::try_find_program_address` with the seeds in their order.
/// The search is deterministic: what it finds depends on the seeds and the
/// program id alone. It answers with nothing, and does not panic, where
/// there are too many seeds or one is too long.
#[verifier::external_body]
fn find_program_address(seeds: &Vec<Vec<u8>>, program_id: &Address) -> (found: Option<
    (Bytes32, u8),
>)
    ensures
        match found {
            Some((address, bump)) => program_address(seeds_view(seeds@), program_id@) == Some(
                (address@, bump),
            ),
            None => program_address(seeds_view(seeds@), program_id@) is None,
        },
{
    let id = Pubkey::new_from_array(program_id.bytes);
    let seeds: Vec<&[u8]> = seeds.iter().map(|seed| seed.as_slice()).collect();
    match Pubkey::try_find_program_address(&seeds, &id) {
        Some((address, bump)) => Some((Bytes32 { bytes: address.to_bytes() }, bump)),
        None => None,
    }
}

/// The address part of a derivation result.
pub open spec fn address_of(found: Option<(Seq<u8>, u8)>) -> Option<Bytes32> {
    match found {
        Some((address, _)) => Some(Bytes32::of(address)),
        None => None,
    }
}

/// The text `global_state`.
pub open spec fn global_state_tag() -> Seq<u8> {
    seq![103u8, 108u8, 111u8, 98u8, 97u8, 108u8, 95u8, 115u8, 116u8, 97u8, 116u8, 101u8]
}

/// The text `game`.
pub open spec fn game_tag() -> Seq<u8> {
    seq![103u8, 97u8, 109u8, 101u8]
}

/// The text `player`.
pub open spec fn player_tag() -> Seq<u8> {
    seq![112u8, 108u8, 97u8, 121u8, 101u8, 114u8]
}

/// The seeds of the global state: its name.
pub open spec fn global_state_seeds() -> Seq<Seq<u8>> {
    seq![global_state_tag()]
}

/// The seeds of a game: the text `game` and the id, little endian.
pub open spec fn game_seeds(game_id: u64) -> Seq<Seq<u8>> {
    seq![game_tag(), spec_u64_to_le_bytes(game_id)]
}

/// The seeds of an escrow record: the text `player`, the owner, and the id
/// of the game, little endian.
pub open spec fn player_seeds(owner: Address, game_id: u64) -> Seq<Seq<u8>> {
    seq![player_tag(), owner@, spec_u64_to_le_bytes(game_id)]
}

/// The seeds of the record of a settlement attempt: the initiator and the
/// transaction hash.
pub open spec fn attempt_seeds(initiator: Address, tx_hash: Bytes32) -> Seq<Seq<u8>> {
    seq![initiator@, tx_hash@]
}

/// The seeds of a game name its id: different ids have different seeds.
pub proof fn lemma_game_seeds_name_the_id(a: u64, b: u64)
    requires
        game_seeds(a) == game_seeds(b),
    ensures
        a == b,
{
    lemma_auto_spec_u64_to_from_le_bytes();
}

/// The seeds of an escrow record name its owner and its game.
pub proof fn lemma_player_seeds_name_the_record(
    owner_a: Address,
    game_a: u64,
    owner_b: Address,
    game_b: u64,
)
    requires
        player_seeds(owner_a, game_a) == player_seeds(owner_b, game_b),
    ensures
        owner_a == owner_b,
        game_a == game_b,
{
    lemma_auto_spec_u64_to_from_le_bytes();
    Bytes32::lemma_view_injective(owner_a, owner_b);
}

/// The seeds of an attempt's record name its initiator and its transaction.
pub proof fn lemma_attempt_seeds_name_the_attempt(
    initiator_a: Address,
    tx_a: Bytes32,
    initiator_b: Address,
    tx_b: Bytes32,
)
    requires
        attempt_seeds(initiator_a, tx_a) == attempt_seeds(initiator_b, tx_b),
    ensures
        initiator_a == initiator_b,
        tx_a == tx_b,
{
    Bytes32::lemma_view_injective(initiator_a, initiator_b);
    Bytes32::lemma_view_injective(tx_a, tx_b);
}

fn bytes_of(value: &Bytes32) -> (bytes: Vec<u8>)
    ensures
        bytes@ == value@,
{
    let mut bytes: Vec<u8> = Vec::new();
    bytes.extend_from_slice(value.bytes.as_slice());
    bytes
}

fn derive(seeds: &Vec<Vec<u8>>, program_id: &Address) -> (r: Option<Bytes32>)
    ensures
        r == address_of(program_address(seeds_view(seeds@), program_id@)),
{
    match find_program_address(seeds, program_id) {
        Some((address, _)) => {
            proof {
                Bytes32::lemma_view_of(address);
            }
            Some(address)
        },
        None => None,
    }
}

/// The address of the global state of the program `program_id`, where one
/// can be derived.
pub fn global_state_address(program_id: &Address) -> (r: Option<Bytes32>)
    ensures
        r == address_of(program_address(global_state_seeds(), program_id@)),
{
    let mut seeds: Vec<Vec<u8>> = Vec::new();
    seeds.push(vec![103u8, 108u8, 111u8, 98u8, 97u8, 108u8, 95u8, 115u8, 116u8, 97u8, 116u8, 101u8]);
    assert(seeds_view(seeds@) =~= global_state_seeds());
    derive(&seeds, program_id)
}

/// The address of the game with the given id, where one can be derived.
pub fn game_address(program_id: &Address, game_id: u64) -> (r: Option<Bytes32>)
    ensures
        r == address_of(program_address(game_seeds(game_id), program_id@)),
{
    let mut seeds: Vec<Vec<u8>> = Vec::new();
    seeds.push(vec![103u8, 97u8, 109u8, 101u8]);
    seeds.push(u64_to_le_bytes(game_id));
    assert(seeds_view(seeds@) =~= game_seeds(game_id));
    derive(&seeds, program_id)
}

/// The address of the escrow record of `owner` in the game with the given
/// id, where one can be derived.
pub fn player_address(program_id: &Address, owner: &Address, game_id: u64) -> (r: Option<Bytes32>)
    ensures
        r == address_of(program_address(player_seeds(*owner, game_id), program_id@)),
{
    let mut seeds: Vec<Vec<u8>> = Vec::new();
    seeds.push(vec![112u8, 108u8, 97u8, 121u8, 101u8, 114u8]);
    seeds.push(bytes_of(owner));
    seeds.push(u64_to_le_bytes(game_id));
    assert(seeds_view(seeds@) =~= player_seeds(*owner, game_id));
    derive(&seeds, program_id)
}

/// The address of the record for the attempt that `initiator` makes with
/// the transaction `tx_hash` under the program `program_id`, where one can
/// be derived.
pub fn record_address(initiator: &Address, tx_hash: &Bytes32, program_id: &Address) -> (r: Option<
    Bytes32,
>)
    ensures
        r == address_of(program_address(attempt_seeds(*initiator, *tx_hash), program_id@)),
{
    let mut seeds: Vec<Vec<u8>> = Vec::new();
    seeds.push(bytes_of(initiator));
    seeds.push(bytes_of(tx_hash));
    assert(seeds_view(seeds@) =~= attempt_seeds(*initiator, *tx_hash));
    derive(&seeds, program_id)
}

} // verus!
