//! The persisted form of a staged verifier state: a record of exactly 1024
//! bytes, whatever the size of the encrypted payload.
//!
//! The record is a sequence of 32-byte slots. Slot 0 is the header: the
//! stage, the number of written input slots and the length of the encrypted
//! payload (two bytes, little endian). Then follow the initiator, the
//! checked public inputs, the nullifiers, the output commitments, the two
//! public amounts, the relayer fee and the merkle root index (each integer
//! in the first eight bytes of a slot of its own, little endian), and the
//! encrypted payload. Every byte that no field occupies is zero.

use vstd::prelude::*;
use vstd::bytes::{
    lemma_auto_spec_u16_to_from_le_bytes, lemma_auto_spec_u64_to_from_le_bytes,
    spec_u16_from_le_bytes, spec_u16_to_le_bytes, spec_u64_to_le_bytes, u16_from_le_bytes,
    u16_to_le_bytes, u64_from_le_bytes, u64_to_le_bytes,
};
use vstd::slice::{slice_subrange, slice_to_vec};
use crate::bytes32::Bytes32;
use crate::error::ErrorCode;
use crate::staged::{
    u64_at, word_at, Stage, StagedVerifierState, VerifierStateView, MAX_ENCRYPTED_LEN,
    NUM_CHECKED_INPUTS, NUM_COMMITMENTS, NUM_NULLIFIERS,
};

verus! {

/// Length of a record.
pub const RECORD_LEN: usize = 1024;

/// Offset of the initiator.
pub const INITIATOR_AT: usize = 32;

/// Offset of the first checked public input.
pub const INPUTS_AT: usize = 64;

/// Offset of the first nullifier.
pub const NULLIFIERS_AT: usize = 320;

/// Offset of the first output commitment.
pub const COMMITMENTS_AT: usize = 384;

/// Offset of the public token amount.
pub const AMOUNT_SPL_AT: usize = 448;

/// Offset of the public native amount.
pub const AMOUNT_SOL_AT: usize = 480;

/// Offset of the relayer fee.
pub const RELAYER_FEE_AT: usize = 512;

/// Offset of the merkle root index.
pub const ROOT_INDEX_AT: usize = 544;

/// Offset of the encrypted payload.
pub const ENCRYPTED_AT: usize = 576;

/// `n` zero bytes.
pub open spec fn zeros(n: nat) -> Seq<u8> {
    Seq::new(n, |i: int| 0u8)
}

/// The byte that stands for a stage.
pub open spec fn stage_tag(stage: Stage) -> u8 {
    match stage {
        Stage::Opened => 0,
        Stage::Accumulated => 1,
        Stage::Verified => 2,
        Stage::Rejected => 3,
        Stage::Closed => 4,
    }
}

/// The stage that a byte stands for, if any.
pub open spec fn stage_of_tag(tag: u8) -> Option<Stage> {
    if tag == 0 {
        Some(Stage::Opened)
    } else if tag == 1 {
        Some(Stage::Accumulated)
    } else if tag == 2 {
        Some(Stage::Verified)
    } else if tag == 3 {
        Some(Stage::Rejected)
    } else if tag == 4 {
        Some(Stage::Closed)
    } else {
        None
    }
}

/// The bytes of the given values, one value after the other.
pub open spec fn concat_words(words: Seq<Bytes32>) -> Seq<u8>
    decreases words.len(),
{
    if words.len() == 0 {
        Seq::empty()
    } else {
        concat_words(words.drop_last()) + words.last()@
    }
}

/// The record of a state.
pub open spec fn record_bytes(v: VerifierStateView) -> Seq<u8> {
    seq![stage_tag(v.stage), v.filled as u8] + spec_u16_to_le_bytes(
        v.encrypted_payload.len() as u16,
    ) + zeros(28) + v.initiator@ + concat_words(v.checked_public_inputs) + concat_words(
        v.nullifiers,
    ) + concat_words(v.output_commitments) + v.public_amount_spl@ + v.public_amount_sol@
        + spec_u64_to_le_bytes(v.relayer_fee) + zeros(24) + spec_u64_to_le_bytes(
        v.merkle_root_index,
    ) + zeros(24) + v.encrypted_payload + zeros(
        (MAX_ENCRYPTED_LEN - v.encrypted_payload.len()) as nat,
    )
}

/// The length that the header of a record gives for the encrypted payload.
pub open spec fn encrypted_len(bytes: Seq<u8>) -> nat {
    spec_u16_from_le_bytes(bytes.subrange(2, 4)) as nat
}

/// The state that a record holds.
pub open spec fn parsed(bytes: Seq<u8>) -> VerifierStateView {
    VerifierStateView {
        initiator: word_at(bytes, INITIATOR_AT as int),
        stage: stage_of_tag(bytes[0]).unwrap(),
        filled: bytes[1] as nat,
        checked_public_inputs: Seq::new(
            NUM_CHECKED_INPUTS as nat,
            |i: int| word_at(bytes, INPUTS_AT + 32 * i),
        ),
        nullifiers: Seq::new(NUM_NULLIFIERS as nat, |i: int| word_at(bytes, NULLIFIERS_AT + 32 * i)),
        output_commitments: Seq::new(
            NUM_COMMITMENTS as nat,
            |i: int| word_at(bytes, COMMITMENTS_AT + 32 * i),
        ),
        public_amount_spl: word_at(bytes, AMOUNT_SPL_AT as int),
        public_amount_sol: word_at(bytes, AMOUNT_SOL_AT as int),
        relayer_fee: u64_at(bytes, RELAYER_FEE_AT as int),
        merkle_root_index: u64_at(bytes, ROOT_INDEX_AT as int),
        encrypted_payload: bytes.subrange(
            ENCRYPTED_AT as int,
            ENCRYPTED_AT + encrypted_len(bytes),
        ),
    }
}

/// Every byte of a record that no field occupies is zero: the rest of the
/// header, the rest of the two integer slots, and all that follows the
/// encrypted payload.
pub open spec fn padding_is_zero(bytes: Seq<u8>) -> bool {
    &&& forall|i: int| 4 <= i < INITIATOR_AT ==> bytes[i] == 0
    &&& forall|i: int| RELAYER_FEE_AT + 8 <= i < ROOT_INDEX_AT ==> bytes[i] == 0
    &&& forall|i: int| ROOT_INDEX_AT + 8 <= i < ENCRYPTED_AT ==> bytes[i] == 0
    &&& forall|i: int| ENCRYPTED_AT + encrypted_len(bytes) <= i < RECORD_LEN ==> bytes[i] == 0
}

/// A record is accepted when it has the length of a record, names a stage,
/// gives an encrypted payload that fits, is zero wherever no field stands,
/// and holds a state of the required shape.
pub open spec fn record_accepted(bytes: Seq<u8>) -> bool {
    &&& bytes.len() == RECORD_LEN
    &&& stage_of_tag(bytes[0]) is Some
    &&& encrypted_len(bytes) <= MAX_ENCRYPTED_LEN
    &&& padding_is_zero(bytes)
    &&& parsed(bytes).wf()
}

/// The values of `concat_words` lie one after the other, 32 bytes each.
pub proof fn lemma_concat_words(words: Seq<Bytes32>)
    ensures
        concat_words(words).len() == 32 * words.len(),
        forall|i: int, j: int|
            0 <= i < words.len() && 0 <= j < 32 ==> #[trigger] concat_words(words)[32 * i + j]
                == words[i]@[j],
    decreases words.len(),
{
    if words.len() > 0 {
        lemma_concat_words(words.drop_last());
        let head = concat_words(words.drop_last());
        assert forall|i: int, j: int| 0 <= i < words.len() && 0 <= j < 32 implies #[trigger]
            concat_words(words)[32 * i + j] == words[i]@[j] by {
            if i < words.len() - 1 {
                assert(head[32 * i + j] == words.drop_last()[i]@[j]);
            }
        }
    }
}

/// The parts of a record, each at its offset.
pub proof fn lemma_record_parts(v: VerifierStateView)
    requires
        v.wf(),
    ensures
        record_bytes(v).len() == RECORD_LEN,
        record_bytes(v)[0] == stage_tag(v.stage),
        record_bytes(v)[1] == v.filled,
        record_bytes(v).subrange(2, 4) == spec_u16_to_le_bytes(v.encrypted_payload.len() as u16),
        record_bytes(v).subrange(INITIATOR_AT as int, INITIATOR_AT + 32) == v.initiator@,
        forall|k: int|
            0 <= k < NUM_CHECKED_INPUTS ==> #[trigger] record_bytes(v).subrange(
                INPUTS_AT + 32 * k,
                INPUTS_AT + 32 * k + 32,
            ) == v.checked_public_inputs[k]@,
        forall|k: int|
            0 <= k < NUM_NULLIFIERS ==> #[trigger] record_bytes(v).subrange(
                NULLIFIERS_AT + 32 * k,
                NULLIFIERS_AT + 32 * k + 32,
            ) == v.nullifiers[k]@,
        forall|k: int|
            0 <= k < NUM_COMMITMENTS ==> #[trigger] record_bytes(v).subrange(
                COMMITMENTS_AT + 32 * k,
                COMMITMENTS_AT + 32 * k + 32,
            ) == v.output_commitments[k]@,
        record_bytes(v).subrange(AMOUNT_SPL_AT as int, AMOUNT_SPL_AT + 32) == v.public_amount_spl@,
        record_bytes(v).subrange(AMOUNT_SOL_AT as int, AMOUNT_SOL_AT + 32) == v.public_amount_sol@,
        record_bytes(v).subrange(RELAYER_FEE_AT as int, RELAYER_FEE_AT + 8) == spec_u64_to_le_bytes(
            v.relayer_fee,
        ),
        record_bytes(v).subrange(ROOT_INDEX_AT as int, ROOT_INDEX_AT + 8) == spec_u64_to_le_bytes(
            v.merkle_root_index,
        ),
        record_bytes(v).subrange(ENCRYPTED_AT as int, ENCRYPTED_AT + v.encrypted_payload.len())
            == v.encrypted_payload,
        forall|i: int| 4 <= i < INITIATOR_AT ==> record_bytes(v)[i] == 0,
        forall|i: int| RELAYER_FEE_AT + 8 <= i < ROOT_INDEX_AT ==> record_bytes(v)[i] == 0,
        forall|i: int| ROOT_INDEX_AT + 8 <= i < ENCRYPTED_AT ==> record_bytes(v)[i] == 0,
        forall|i: int|
            ENCRYPTED_AT + v.encrypted_payload.len() <= i < RECORD_LEN ==> record_bytes(v)[i] == 0,
{
    lemma_auto_spec_u16_to_from_le_bytes();
    lemma_auto_spec_u64_to_from_le_bytes();
    lemma_concat_words(v.checked_public_inputs);
    lemma_concat_words(v.nullifiers);
    lemma_concat_words(v.output_commitments);
    let r = record_bytes(v);
    let len16 = spec_u16_to_le_bytes(v.encrypted_payload.len() as u16);
    let a0 = seq![stage_tag(v.stage), v.filled as u8] + len16 + zeros(28);
    let a1 = a0 + v.initiator@;
    let a2 = a1 + concat_words(v.checked_public_inputs);
    let a3 = a2 + concat_words(v.nullifiers);
    let a4 = a3 + concat_words(v.output_commitments);
    let a5 = a4 + v.public_amount_spl@ + v.public_amount_sol@;
    let a6 = a5 + spec_u64_to_le_bytes(v.relayer_fee) + zeros(24);
    let a7 = a6 + spec_u64_to_le_bytes(v.merkle_root_index) + zeros(24);
    let a8 = a7 + v.encrypted_payload;
    assert(len16.len() == 2);
    assert(a0.len() == 32);
    assert(a1.len() == 64);
    assert(a2.len() == 320);
    assert(a3.len() == 384);
    assert(a4.len() == 448);
    assert(a5.len() == 512);
    assert(a6.len() == 544);
    assert(a7.len() == 576);
    assert(r == a8 + zeros((MAX_ENCRYPTED_LEN - v.encrypted_payload.len()) as nat));
    assert(r.len() == RECORD_LEN);
    assert(r.subrange(2, 4) =~= len16);
    assert(r.subrange(INITIATOR_AT as int, INITIATOR_AT + 32) =~= v.initiator@);
    assert forall|k: int| 0 <= k < NUM_CHECKED_INPUTS implies #[trigger] r.subrange(
        INPUTS_AT + 32 * k,
        INPUTS_AT + 32 * k + 32,
    ) == v.checked_public_inputs[k]@ by {
        let part = r.subrange(INPUTS_AT + 32 * k, INPUTS_AT + 32 * k + 32);
        assert forall|j: int| 0 <= j < 32 implies part[j] == v.checked_public_inputs[k]@[j] by {
            assert(part[j] == a2[INPUTS_AT + 32 * k + j]);
            assert(a2[INPUTS_AT + 32 * k + j] == concat_words(v.checked_public_inputs)[32 * k
                + j]);
        }
        assert(part =~= v.checked_public_inputs[k]@);
    }
    assert forall|k: int| 0 <= k < NUM_NULLIFIERS implies #[trigger] r.subrange(
        NULLIFIERS_AT + 32 * k,
        NULLIFIERS_AT + 32 * k + 32,
    ) == v.nullifiers[k]@ by {
        let part = r.subrange(NULLIFIERS_AT + 32 * k, NULLIFIERS_AT + 32 * k + 32);
        assert forall|j: int| 0 <= j < 32 implies part[j] == v.nullifiers[k]@[j] by {
            assert(part[j] == a3[NULLIFIERS_AT + 32 * k + j]);
            assert(a3[NULLIFIERS_AT + 32 * k + j] == concat_words(v.nullifiers)[32 * k + j]);
        }
        assert(part =~= v.nullifiers[k]@);
    }
    assert forall|k: int| 0 <= k < NUM_COMMITMENTS implies #[trigger] r.subrange(
        COMMITMENTS_AT + 32 * k,
        COMMITMENTS_AT + 32 * k + 32,
    ) == v.output_commitments[k]@ by {
        let part = r.subrange(COMMITMENTS_AT + 32 * k, COMMITMENTS_AT + 32 * k + 32);
        assert forall|j: int| 0 <= j < 32 implies part[j] == v.output_commitments[k]@[j] by {
            assert(part[j] == a4[COMMITMENTS_AT + 32 * k + j]);
            assert(a4[COMMITMENTS_AT + 32 * k + j] == concat_words(v.output_commitments)[32 * k
                + j]);
        }
        assert(part =~= v.output_commitments[k]@);
    }
    assert(r.subrange(AMOUNT_SPL_AT as int, AMOUNT_SPL_AT + 32) =~= v.public_amount_spl@);
    assert(r.subrange(AMOUNT_SOL_AT as int, AMOUNT_SOL_AT + 32) =~= v.public_amount_sol@);
    assert(r.subrange(RELAYER_FEE_AT as int, RELAYER_FEE_AT + 8) =~= spec_u64_to_le_bytes(
        v.relayer_fee,
    ));
    assert(r.subrange(ROOT_INDEX_AT as int, ROOT_INDEX_AT + 8) =~= spec_u64_to_le_bytes(
        v.merkle_root_index,
    ));
    assert(r.subrange(ENCRYPTED_AT as int, ENCRYPTED_AT + v.encrypted_payload.len())
        =~= v.encrypted_payload);
}

/// Writing a state to its record and reading the record back gives the
/// state again, field for field, and every byte of the record that no field
/// occupies is zero.
pub proof fn lemma_record_round_trip(v: VerifierStateView)
    requires
        v.wf(),
    ensures
        record_bytes(v).len() == RECORD_LEN,
        padding_is_zero(record_bytes(v)),
        record_accepted(record_bytes(v)),
        parsed(record_bytes(v)) == v,
{
    lemma_record_parts(v);
    lemma_auto_spec_u16_to_from_le_bytes();
    lemma_auto_spec_u64_to_from_le_bytes();
    let r = record_bytes(v);
    let p = parsed(r);
    assert(encrypted_len(r) == v.encrypted_payload.len());
    Bytes32::lemma_view_of(v.initiator);
    Bytes32::lemma_view_of(v.public_amount_spl);
    Bytes32::lemma_view_of(v.public_amount_sol);
    assert forall|k: int| 0 <= k < NUM_CHECKED_INPUTS implies p.checked_public_inputs[k]
        == v.checked_public_inputs[k] by {
        assert(r.subrange(INPUTS_AT + 32 * k, INPUTS_AT + 32 * k + 32)
            == v.checked_public_inputs[k]@);
        Bytes32::lemma_view_of(v.checked_public_inputs[k]);
    }
    assert forall|k: int| 0 <= k < NUM_NULLIFIERS implies p.nullifiers[k] == v.nullifiers[k] by {
        assert(r.subrange(NULLIFIERS_AT + 32 * k, NULLIFIERS_AT + 32 * k + 32)
            == v.nullifiers[k]@);
        Bytes32::lemma_view_of(v.nullifiers[k]);
    }
    assert forall|k: int| 0 <= k < NUM_COMMITMENTS implies p.output_commitments[k]
        == v.output_commitments[k] by {
        assert(r.subrange(COMMITMENTS_AT + 32 * k, COMMITMENTS_AT + 32 * k + 32)
            == v.output_commitments[k]@);
        Bytes32::lemma_view_of(v.output_commitments[k]);
    }
    assert(p.checked_public_inputs =~= v.checked_public_inputs);
    assert(p.nullifiers =~= v.nullifiers);
    assert(p.output_commitments =~= v.output_commitments);
    assert(p.encrypted_payload =~= v.encrypted_payload);
    assert(p.stage == v.stage);
    assert(p.filled == v.filled);
    assert(p.relayer_fee == v.relayer_fee);
    assert(p.merkle_root_index == v.merkle_root_index);
}

/// Every state has exactly one record: reading an accepted record and
/// writing the state back gives the same bytes.
pub proof fn lemma_record_is_canonical(bytes: Seq<u8>)
    requires
        record_accepted(bytes),
    ensures
        record_bytes(parsed(bytes)) == bytes,
{
    let v = parsed(bytes);
    let r = record_bytes(v);
    lemma_record_parts(v);
    lemma_auto_spec_u16_to_from_le_bytes();
    lemma_auto_spec_u64_to_from_le_bytes();
    assert(v.encrypted_payload.len() == encrypted_len(bytes));
    assert(spec_u16_to_le_bytes(spec_u16_from_le_bytes(bytes.subrange(2, 4))) == bytes.subrange(
        2,
        4,
    ));
    assert(spec_u64_to_le_bytes(v.relayer_fee) == bytes.subrange(
        RELAYER_FEE_AT as int,
        RELAYER_FEE_AT + 8,
    ));
    assert(spec_u64_to_le_bytes(v.merkle_root_index) == bytes.subrange(
        ROOT_INDEX_AT as int,
        ROOT_INDEX_AT + 8,
    ));
    assert forall|i: int| 0 <= i < RECORD_LEN implies r[i] == bytes[i] by {
        if i < 2 {
        } else if i < 4 {
            assert(r.subrange(2, 4)[i - 2] == bytes.subrange(2, 4)[i - 2]);
        } else if i < INITIATOR_AT {
        } else if i < INPUTS_AT {
            lemma_word_bytes(bytes, INITIATOR_AT as int, i);
            assert(r.subrange(INITIATOR_AT as int, INITIATOR_AT + 32)[i - INITIATOR_AT] == r[i]);
        } else if i < NULLIFIERS_AT {
            let k = (i - INPUTS_AT) / 32;
            lemma_word_bytes(bytes, INPUTS_AT + 32 * k, i);
            assert(r.subrange(INPUTS_AT + 32 * k, INPUTS_AT + 32 * k + 32)[i - INPUTS_AT - 32 * k]
                == r[i]);
        } else if i < COMMITMENTS_AT {
            let k = (i - NULLIFIERS_AT) / 32;
            lemma_word_bytes(bytes, NULLIFIERS_AT + 32 * k, i);
            assert(r.subrange(NULLIFIERS_AT + 32 * k, NULLIFIERS_AT + 32 * k + 32)[i
                - NULLIFIERS_AT - 32 * k] == r[i]);
        } else if i < AMOUNT_SPL_AT {
            let k = (i - COMMITMENTS_AT) / 32;
            lemma_word_bytes(bytes, COMMITMENTS_AT + 32 * k, i);
            assert(r.subrange(COMMITMENTS_AT + 32 * k, COMMITMENTS_AT + 32 * k + 32)[i
                - COMMITMENTS_AT - 32 * k] == r[i]);
        } else if i < AMOUNT_SOL_AT {
            lemma_word_bytes(bytes, AMOUNT_SPL_AT as int, i);
            assert(r.subrange(AMOUNT_SPL_AT as int, AMOUNT_SPL_AT + 32)[i - AMOUNT_SPL_AT]
                == r[i]);
        } else if i < RELAYER_FEE_AT {
            lemma_word_bytes(bytes, AMOUNT_SOL_AT as int, i);
            assert(r.subrange(AMOUNT_SOL_AT as int, AMOUNT_SOL_AT + 32)[i - AMOUNT_SOL_AT]
                == r[i]);
        } else if i < RELAYER_FEE_AT + 8 {
            assert(r.subrange(RELAYER_FEE_AT as int, RELAYER_FEE_AT + 8)[i - RELAYER_FEE_AT]
                == bytes.subrange(RELAYER_FEE_AT as int, RELAYER_FEE_AT + 8)[i - RELAYER_FEE_AT]);
        } else if i < ROOT_INDEX_AT {
        } else if i < ROOT_INDEX_AT + 8 {
            assert(r.subrange(ROOT_INDEX_AT as int, ROOT_INDEX_AT + 8)[i - ROOT_INDEX_AT]
                == bytes.subrange(ROOT_INDEX_AT as int, ROOT_INDEX_AT + 8)[i - ROOT_INDEX_AT]);
        } else if i < ENCRYPTED_AT {
        } else if i < ENCRYPTED_AT + encrypted_len(bytes) {
            assert(r.subrange(ENCRYPTED_AT as int, ENCRYPTED_AT + v.encrypted_payload.len())[i
                - ENCRYPTED_AT] == r[i]);
        } else {
        }
    }
    assert(r =~= bytes);
}

/// Byte `i` of a record is the matching byte of the value that is read at
/// `offset`, where `i` lies in that value's 32 bytes.
proof fn lemma_word_bytes(bytes: Seq<u8>, offset: int, i: int)
    requires
        0 <= offset <= i < offset + 32 <= bytes.len(),
    ensures
        word_at(bytes, offset)@[i - offset] == bytes[i],
{
    Bytes32::lemma_of_view(bytes.subrange(offset, offset + 32));
}

fn stage_to_tag(stage: Stage) -> (tag: u8)
    ensures
        tag == stage_tag(stage),
{
    match stage {
        Stage::Opened => 0,
        Stage::Accumulated => 1,
        Stage::Verified => 2,
        Stage::Rejected => 3,
        Stage::Closed => 4,
    }
}

fn tag_to_stage(tag: u8) -> (stage: Option<Stage>)
    ensures
        stage == stage_of_tag(tag),
{
    if tag == 0 {
        Some(Stage::Opened)
    } else if tag == 1 {
        Some(Stage::Accumulated)
    } else if tag == 2 {
        Some(Stage::Verified)
    } else if tag == 3 {
        Some(Stage::Rejected)
    } else if tag == 4 {
        Some(Stage::Closed)
    } else {
        None
    }
}

fn append_zeros(out: &mut Vec<u8>, n: usize)
    ensures
        final(out)@ == old(out)@ + zeros(n as nat),
{
    let mut i: usize = 0;
    assert(out@ =~= old(out)@ + zeros(0));
    while i < n
        invariant
            i <= n,
            out@ == old(out)@ + zeros(i as nat),
        decreases n - i,
    {
        out.push(0u8);
        i += 1;
        assert(out@ =~= old(out)@ + zeros(i as nat));
    }
}

fn append_words(out: &mut Vec<u8>, words: &Vec<Bytes32>)
    ensures
        final(out)@ == old(out)@ + concat_words(words@),
{
    let mut i: usize = 0;
    assert(out@ =~= old(out)@ + concat_words(words@.take(0)));
    while i < words.len()
        invariant
            i <= words@.len(),
            out@ == old(out)@ + concat_words(words@.take(i as int)),
        decreases words@.len() - i,
    {
        out.extend_from_slice(words[i].bytes.as_slice());
        proof {
            assert(words@.take(i + 1).drop_last() =~= words@.take(i as int));
            assert(words@.take(i + 1).last() == words@[i as int]);
            assert(out@ =~= old(out)@ + concat_words(words@.take(i + 1)));
        }
        i += 1;
    }
    assert(words@.take(i as int) =~= words@);
}

fn all_zero(bytes: &[u8], from: usize, to: usize) -> (r: bool)
    requires
        from <= to <= bytes@.len(),
    ensures
        r == forall|i: int| from <= i < to ==> bytes@[i] == 0,
{
    let mut i: usize = from;
    while i < to
        invariant
            from <= i <= to <= bytes@.len(),
            forall|j: int| from <= j < i ==> bytes@[j] == 0,
        decreases to - i,
    {
        if bytes[i] != 0 {
            return false;
        }
        i += 1;
    }
    true
}

fn read_words(bytes: &[u8], offset: usize, count: usize) -> (words: Vec<Bytes32>)
    requires
        offset + 32 * count <= bytes@.len(),
    ensures
        words@ == Seq::new(count as nat, |i: int| word_at(bytes@, offset + 32 * i)),
{
    let mut words: Vec<Bytes32> = Vec::new();
    let mut i: usize = 0;
    let len: usize = bytes.len();
    while i < count
        invariant
            i <= count,
            offset + 32 * count <= len == bytes@.len(),
            words@.len() == i,
            forall|k: int| 0 <= k < i ==> words@[k] == word_at(bytes@, offset + 32 * k),
        decreases count - i,
    {
        words.push(Bytes32::from_slice(bytes, offset + 32 * i));
        i += 1;
    }
    assert(words@ =~= Seq::new(count as nat, |i: int| word_at(bytes@, offset + 32 * i)));
    words
}

impl StagedVerifierState {
    /// Writes the state to its record of 1024 bytes.
    pub fn to_record(&self) -> (record: Vec<u8>)
        requires
            self.wf(),
        ensures
            record@ == record_bytes(self@),
            record@.len() == RECORD_LEN,
            padding_is_zero(record@),
    {
        let mut out: Vec<u8> = Vec::new();
        out.push(stage_to_tag(self.stage()));
        out.push(self.filled_inputs() as u8);
        assert(out@ =~= seq![stage_tag(self@.stage), self@.filled as u8]);
        let encrypted = self.encrypted_payload();
        let len16 = u16_to_le_bytes(encrypted.len() as u16);
        out.extend_from_slice(len16.as_slice());
        append_zeros(&mut out, 28);
        out.extend_from_slice(self.initiator().bytes.as_slice());
        append_words(&mut out, self.checked_public_inputs());
        append_words(&mut out, self.nullifiers());
        append_words(&mut out, self.output_commitments());
        out.extend_from_slice(self.public_amount_spl().bytes.as_slice());
        out.extend_from_slice(self.public_amount_sol().bytes.as_slice());
        let fee = u64_to_le_bytes(self.relayer_fee());
        out.extend_from_slice(fee.as_slice());
        append_zeros(&mut out, 24);
        let index = u64_to_le_bytes(self.merkle_root_index());
        out.extend_from_slice(index.as_slice());
        append_zeros(&mut out, 24);
        out.extend_from_slice(encrypted.as_slice());
        append_zeros(&mut out, MAX_ENCRYPTED_LEN - encrypted.len());
        proof {
            assert(out@ == record_bytes(self@));
            lemma_record_round_trip(self@);
        }
        out
    }

    /// Reads a state back from a record. A record that is not accepted is
    /// rejected as malformed.
    pub fn from_record(bytes: &[u8]) -> (r: Result<StagedVerifierState, ErrorCode>)
        ensures
            match r {
                Ok(state) => {
                    &&& record_accepted(bytes@)
                    &&& state@ == parsed(bytes@)
                    &&& state.wf()
                },
                Err(e) => e == ErrorCode::MalformedInput && !record_accepted(bytes@),
            },
    {
        if bytes.len() != RECORD_LEN {
            return Err(ErrorCode::MalformedInput);
        }
        let stage = match tag_to_stage(bytes[0]) {
            None => {
                return Err(ErrorCode::MalformedInput);
            },
            Some(stage) => stage,
        };
        let filled = bytes[1] as usize;
        let encrypted_len = u16_from_le_bytes(slice_subrange(bytes, 2, 4)) as usize;
        if encrypted_len > MAX_ENCRYPTED_LEN {
            return Err(ErrorCode::MalformedInput);
        }
        if !all_zero(bytes, 4, INITIATOR_AT) || !all_zero(bytes, RELAYER_FEE_AT + 8, ROOT_INDEX_AT)
            || !all_zero(bytes, ROOT_INDEX_AT + 8, ENCRYPTED_AT) || !all_zero(
            bytes,
            ENCRYPTED_AT + encrypted_len,
            RECORD_LEN,
        ) {
            return Err(ErrorCode::MalformedInput);
        }
        if filled < 2 || filled > NUM_CHECKED_INPUTS {
            return Err(ErrorCode::MalformedInput);
        }
        let populated = filled == NUM_CHECKED_INPUTS;
        let shape_ok = match stage {
            Stage::Opened => !populated,
            Stage::Accumulated | Stage::Verified | Stage::Rejected => populated,
            Stage::Closed => true,
        };
        if !shape_ok {
            return Err(ErrorCode::MalformedInput);
        }
        let nullifiers = read_words(bytes, NULLIFIERS_AT, NUM_NULLIFIERS);
        if nullifiers[0].same(&nullifiers[1]) {
            return Err(ErrorCode::MalformedInput);
        }
        let state = StagedVerifierState::from_parts(
            Bytes32::from_slice(bytes, INITIATOR_AT),
            stage,
            filled,
            read_words(bytes, INPUTS_AT, NUM_CHECKED_INPUTS),
            nullifiers,
            read_words(bytes, COMMITMENTS_AT, NUM_COMMITMENTS),
            Bytes32::from_slice(bytes, AMOUNT_SPL_AT),
            Bytes32::from_slice(bytes, AMOUNT_SOL_AT),
            u64_from_le_bytes(slice_subrange(bytes, RELAYER_FEE_AT, RELAYER_FEE_AT + 8)),
            slice_to_vec(slice_subrange(bytes, ENCRYPTED_AT, ENCRYPTED_AT + encrypted_len)),
            u64_from_le_bytes(slice_subrange(bytes, ROOT_INDEX_AT, ROOT_INDEX_AT + 8)),
        );
        Ok(state)
    }
}

} // verus!
