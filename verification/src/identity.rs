//! The program's domain-separation tag.

use vstd::prelude::*;
use anchor_lang::solana_program::hash::hash;
use crate::bytes32::{Address, Bytes32};

verus! {

/// The SHA-256 digest of a byte string, as `solana_program::hash::hash`
/// computes it.
pub uninterp spec fn sha256_digest(data: Seq<u8>) -> Seq<u8>;

/// Calls `solana_program::hash::hash` on the 32 bytes of the value and hands
/// back the 32 bytes of the digest. The digest depends on the bytes alone.
#[verifier::external_body]
fn digest_of(value: &Bytes32) -> (digest: Bytes32)
    ensures
        digest@ == sha256_digest(value@),
{
    Bytes32 { bytes: hash(&value.bytes).to_bytes() }
}

/// The digest of a program's identity.
pub open spec fn identity_digest(program_id: Seq<u8>) -> Seq<u8> {
    sha256_digest(program_id)
}

/// The tag made from a digest: the digest with its first byte set to zero.
pub open spec fn tag_of(digest: Seq<u8>) -> Seq<u8> {
    digest.update(0, 0u8)
}

/// Forces the first byte of a digest to zero so that the tag fits the proof
/// system's field.
pub fn domain_tag_from_digest(digest: Bytes32) -> (tag: Bytes32)
    ensures
        tag@ == tag_of(digest@),
{
    let mut bytes = digest.bytes;
    bytes[0] = 0;
    Bytes32 { bytes }
}

/// The domain-separation tag of a program: the digest of its identity with
/// the first byte zeroed.
pub fn domain_tag(program_id: &Address) -> (tag: Bytes32)
    ensures
        tag@ == tag_of(identity_digest(program_id@)),
{
    domain_tag_from_digest(digest_of(program_id))
}

} // verus!
