use blackjack::bytes32::Bytes32;
use blackjack::error::ErrorCode;
use blackjack::identity::{domain_tag, domain_tag_from_digest};
use blackjack::staged::{
    Stage, StagedVerifierState, MAX_ENCRYPTED_LEN, NUM_CHECKED_INPUTS, PAYLOAD_FIXED_LEN,
};

fn word(b: u8) -> Bytes32 {
    Bytes32::new([b; 32])
}

fn payload(extra: usize) -> Vec<u8> {
    let mut p = Vec::new();
    p.extend_from_slice(&[0x11; 32]);
    p.extend_from_slice(&[0x22; 32]);
    p.extend_from_slice(&[0x33; 32]);
    p.extend_from_slice(&[0x44; 32]);
    p.extend_from_slice(&[0x55; 32]);
    p.extend_from_slice(&[0x66; 32]);
    p.extend_from_slice(&0x0102_0304_0506_0708u64.to_le_bytes());
    p.extend_from_slice(&42u64.to_le_bytes());
    for i in 0..extra {
        p.push((i % 251) as u8 + 1);
    }
    p
}

fn chunks(first: u8, n: usize) -> Vec<u8> {
    let mut p = Vec::new();
    for i in 0..n {
        p.extend_from_slice(&[first + i as u8; 32]);
    }
    p
}

#[test]
fn domain_tag_zeroes_first_byte_only() {
    let digest = Bytes32::new([0xab; 32]);
    let tag = domain_tag_from_digest(digest);
    assert_eq!(tag.bytes[0], 0);
    assert_eq!(&tag.bytes[1..], &[0xabu8; 31][..]);
}

#[test]
fn domain_tag_is_a_digest_of_the_program_id() {
    let id = word(7);
    let tag = domain_tag(&id);
    assert_eq!(tag.bytes[0], 0);
    assert_ne!(&tag.bytes[1..], &id.bytes[1..]);
    assert_eq!(domain_tag(&id), tag);
    assert_ne!(domain_tag(&word(8)), tag);
}

#[test]
fn domain_tag_matches_known_digests() {
    assert_eq!(
        domain_tag(&word(7)).bytes,
        [
            0, 176, 111, 142, 78, 58, 119, 21, 210, 1, 213, 115, 208, 170, 66, 55, 98, 229, 93,
            171, 214, 26, 44, 2, 39, 143, 165, 108, 198, 210, 148, 224
        ]
    );
    let mut counting = [0u8; 32];
    for (i, b) in counting.iter_mut().enumerate() {
        *b = i as u8;
    }
    assert_eq!(
        domain_tag(&Bytes32::new(counting)).bytes,
        [
            0, 13, 205, 41, 102, 196, 51, 102, 145, 18, 84, 72, 187, 178, 91, 79, 244, 18, 164,
            156, 115, 45, 178, 200, 171, 193, 184, 88, 27, 215, 16, 221
        ]
    );
}

#[test]
fn phase1_reads_every_field() {
    let p = payload(5);
    let state = StagedVerifierState::phase1_open(&word(7), word(0xee), word(0x99), &p).unwrap();
    assert_eq!(state.initiator(), word(0xee));
    assert_eq!(state.stage(), Stage::Opened);
    assert_eq!(state.filled_inputs(), 2);
    let inputs = state.checked_public_inputs();
    assert_eq!(inputs.len(), NUM_CHECKED_INPUTS);
    assert_eq!(inputs[0], domain_tag(&word(7)));
    assert_eq!(inputs[1], word(0x99));
    for slot in &inputs[2..] {
        assert_eq!(*slot, word(0));
    }
    assert_eq!(state.nullifiers(), &vec![word(0x11), word(0x22)]);
    assert_eq!(state.output_commitments(), &vec![word(0x33), word(0x44)]);
    assert_eq!(state.public_amount_spl(), word(0x55));
    assert_eq!(state.public_amount_sol(), word(0x66));
    assert_eq!(state.relayer_fee(), 0x0102_0304_0506_0708);
    assert_eq!(state.merkle_root_index(), 42);
    assert_eq!(state.encrypted_payload(), &vec![1u8, 2, 3, 4, 5]);
}

#[test]
fn phase1_with_short_payload_is_malformed() {
    for len in [0usize, 1, 32, PAYLOAD_FIXED_LEN - 1] {
        let p = payload(0);
        let r = StagedVerifierState::phase1_open(&word(7), word(0xee), word(0x99), &p[..len]);
        assert_eq!(r.err(), Some(ErrorCode::MalformedInput));
    }
}

#[test]
fn phase1_payload_bounds() {
    let exact = payload(0);
    assert_eq!(exact.len(), PAYLOAD_FIXED_LEN);
    let state = StagedVerifierState::open_with_tag(word(1), word(2), word(3), &exact).unwrap();
    assert!(state.encrypted_payload().is_empty());

    let full = payload(MAX_ENCRYPTED_LEN);
    let state = StagedVerifierState::open_with_tag(word(1), word(2), word(3), &full).unwrap();
    assert_eq!(state.encrypted_payload().len(), MAX_ENCRYPTED_LEN);

    let over = payload(MAX_ENCRYPTED_LEN + 1);
    let r = StagedVerifierState::open_with_tag(word(1), word(2), word(3), &over);
    assert_eq!(r.err(), Some(ErrorCode::MalformedInput));
}

#[test]
fn phase1_rejects_a_repeated_nullifier() {
    let mut p = payload(0);
    for b in &mut p[32..64] {
        *b = 0x11;
    }
    let r = StagedVerifierState::open_with_tag(word(1), word(2), word(3), &p);
    assert_eq!(r.err(), Some(ErrorCode::MalformedInput));
}

#[test]
fn phase2_writes_chunks_from_slot_two() {
    let mut state =
        StagedVerifierState::open_with_tag(word(1), word(2), word(3), &payload(0)).unwrap();
    assert_eq!(state.phase2_accumulate(&word(2), &chunks(0xa0, 2)), Ok(()));
    assert_eq!(state.stage(), Stage::Opened);
    assert_eq!(state.filled_inputs(), 4);
    assert_eq!(
        state.checked_public_inputs(),
        &vec![word(1), word(3), word(0xa0), word(0xa1), word(0), word(0), word(0), word(0)]
    );

    assert_eq!(state.phase2_accumulate(&word(2), &chunks(0xb0, 1)), Ok(()));
    assert_eq!(state.filled_inputs(), 4);
    assert_eq!(state.checked_public_inputs()[2], word(0xb0));
    assert_eq!(state.checked_public_inputs()[3], word(0xa1));

    assert_eq!(state.phase2_accumulate(&word(2), &chunks(0xc0, 6)), Ok(()));
    assert_eq!(state.stage(), Stage::Accumulated);
    assert_eq!(state.filled_inputs(), NUM_CHECKED_INPUTS);
    assert_eq!(
        state.checked_public_inputs(),
        &vec![
            word(1),
            word(3),
            word(0xc0),
            word(0xc1),
            word(0xc2),
            word(0xc3),
            word(0xc4),
            word(0xc5)
        ]
    );

    assert_eq!(state.phase2_accumulate(&word(2), &chunks(0xd0, 1)), Ok(()));
    assert_eq!(state.stage(), Stage::Accumulated);
    assert_eq!(state.checked_public_inputs()[2], word(0xd0));
    assert_eq!(state.checked_public_inputs()[7], word(0xc5));
}

#[test]
fn inputs_are_handed_out_for_accumulated_records_only() {
    let mut state =
        StagedVerifierState::open_with_tag(word(1), word(2), word(3), &payload(0)).unwrap();
    assert_eq!(state.inputs_to_verify(&word(2)).err(), Some(ErrorCode::InvalidOperation));
    state.phase2_accumulate(&word(2), &chunks(0xa0, 5)).unwrap();
    assert_eq!(state.inputs_to_verify(&word(2)).err(), Some(ErrorCode::InvalidOperation));
    state.phase2_accumulate(&word(2), &chunks(0xa0, 6)).unwrap();
    assert_eq!(state.inputs_to_verify(&word(9)).err(), Some(ErrorCode::Unauthorized));
    let inputs = state.inputs_to_verify(&word(2)).unwrap();
    assert_eq!(inputs, state.checked_public_inputs());
    assert_eq!(inputs[7], word(0xa5));
    state.abort_verifier_state(&word(2)).unwrap();
    assert_eq!(state.inputs_to_verify(&word(2)).err(), Some(ErrorCode::InvalidOperation));
}

#[test]
fn phase2_is_idempotent_per_slot() {
    let mut once =
        StagedVerifierState::open_with_tag(word(1), word(2), word(3), &payload(0)).unwrap();
    let mut twice =
        StagedVerifierState::open_with_tag(word(1), word(2), word(3), &payload(0)).unwrap();
    once.phase2_accumulate(&word(2), &chunks(0xa0, 3)).unwrap();
    twice.phase2_accumulate(&word(2), &chunks(0xa0, 3)).unwrap();
    twice.phase2_accumulate(&word(2), &chunks(0xa0, 3)).unwrap();
    assert_eq!(once.checked_public_inputs(), twice.checked_public_inputs());
    assert_eq!(once.filled_inputs(), twice.filled_inputs());
    assert_eq!(once.to_record(), twice.to_record());
}

#[test]
fn phase2_errors() {
    let mut state =
        StagedVerifierState::open_with_tag(word(1), word(2), word(3), &payload(0)).unwrap();
    let before = state.to_record();
    assert_eq!(
        state.phase2_accumulate(&word(9), &chunks(0xa0, 1)),
        Err(ErrorCode::Unauthorized)
    );
    assert_eq!(
        state.phase2_accumulate(&word(2), &chunks(0xa0, 1)[..31]),
        Err(ErrorCode::MalformedInput)
    );
    assert_eq!(
        state.phase2_accumulate(&word(2), &chunks(0xa0, 7)),
        Err(ErrorCode::TooManyInputs)
    );
    assert_eq!(state.to_record(), before);
    assert_eq!(state.phase2_accumulate(&word(2), &[]), Ok(()));
    assert_eq!(state.to_record(), before);

    state.abort_verifier_state(&word(2)).unwrap();
    assert_eq!(
        state.phase2_accumulate(&word(2), &chunks(0xa0, 1)),
        Err(ErrorCode::InvalidOperation)
    );
}

#[test]
fn close_and_abort_by_stage() {
    let mut state =
        StagedVerifierState::open_with_tag(word(1), word(2), word(3), &payload(0)).unwrap();
    assert_eq!(state.close_verifier_state(&word(2)), Err(ErrorCode::InvalidOperation));
    assert_eq!(state.close_verifier_state(&word(9)), Err(ErrorCode::Unauthorized));
    assert_eq!(state.abort_verifier_state(&word(9)), Err(ErrorCode::Unauthorized));
    assert_eq!(state.stage(), Stage::Opened);
    state.phase2_accumulate(&word(2), &chunks(0xa0, 6)).unwrap();
    assert_eq!(state.close_verifier_state(&word(2)), Err(ErrorCode::InvalidOperation));
    assert_eq!(state.abort_verifier_state(&word(2)), Ok(()));
    assert_eq!(state.stage(), Stage::Closed);
    assert_eq!(state.abort_verifier_state(&word(2)), Err(ErrorCode::InvalidOperation));
    assert_eq!(state.close_verifier_state(&word(2)), Err(ErrorCode::InvalidOperation));
}
