use blackjack::addressing::record_address;
use blackjack::bytes32::Bytes32;
use blackjack::error::ErrorCode;
use blackjack::escrow::GameEnded;
use blackjack::identity::domain_tag;
use blackjack::ledger::Ledger;
use blackjack::pipeline::Pipeline;
use blackjack::settlement::Verdict;
use blackjack::staged::{Stage, StagedVerifierState};

fn word(b: u8) -> Bytes32 {
    Bytes32::new([b; 32])
}

fn opening(n0: u8, n1: u8) -> Vec<u8> {
    let mut p = Vec::new();
    for b in [n0, n1, 0x33, 0x44, 0x55, 0x66] {
        p.extend_from_slice(&[b; 32]);
    }
    p.extend_from_slice(&1u64.to_le_bytes());
    p.extend_from_slice(&2u64.to_le_bytes());
    p.extend_from_slice(&[9, 8, 7]);
    p
}

fn six() -> Vec<u8> {
    let mut p = Vec::new();
    for i in 0..6u8 {
        p.extend_from_slice(&[0xb0 + i; 32]);
    }
    p
}

fn ledger_with_games(n: u64) -> Ledger {
    let mut ledger = Ledger::new();
    ledger.initialize(word(0xad)).unwrap();
    for _ in 0..n {
        let mut wallet = 100u64;
        ledger.start_game(&mut wallet, word(0xa), 100, true).unwrap();
    }
    ledger
}

#[test]
fn phase1_open_creates_the_record_at_its_address() {
    let mut pipeline = Pipeline::new(word(7));
    assert_eq!(pipeline.program_id(), word(7));
    let record = pipeline.phase1_open(word(0xee), word(0x99), &opening(0x11, 0x22)).unwrap();
    assert_eq!(Some(record), record_address(&word(0xee), &word(0x99), &word(7)));
    assert_eq!(pipeline.stage_of(&record), Some(Stage::Opened));
    let bytes = pipeline.record_of(&record).unwrap();
    let state = StagedVerifierState::from_record(&bytes).unwrap();
    assert_eq!(state.initiator(), word(0xee));
    assert_eq!(state.checked_public_inputs()[0], domain_tag(&word(7)));
    assert_eq!(state.checked_public_inputs()[1], word(0x99));
    assert_eq!(state.nullifiers(), &vec![word(0x11), word(0x22)]);
    assert_eq!(state.encrypted_payload(), &vec![9u8, 8, 7]);
}

#[test]
fn phase1_with_short_payload_creates_no_state() {
    let mut pipeline = Pipeline::new(word(7));
    let p = opening(0x11, 0x22);
    let r = pipeline.phase1_open(word(0xee), word(0x99), &p[..207]);
    assert_eq!(r, Err(ErrorCode::MalformedInput));
    let address = record_address(&word(0xee), &word(0x99), &word(7)).unwrap();
    assert_eq!(pipeline.stage_of(&address), None);
    assert_eq!(pipeline.record_of(&address), None);
    assert!(pipeline.phase1_open(word(0xee), word(0x99), &p).is_ok());
}

#[test]
fn phase1_never_overwrites_an_attempt_in_progress() {
    let mut pipeline = Pipeline::new(word(7));
    let record = pipeline.phase1_open(word(0xee), word(0x99), &opening(0x11, 0x22)).unwrap();
    pipeline.phase2_accumulate(&record, &word(0xee), &six()).unwrap();
    let before = pipeline.record_of(&record).unwrap();
    let again = pipeline.phase1_open(word(0xee), word(0x99), &opening(0x55, 0x66));
    assert_eq!(again, Err(ErrorCode::AlreadyInitialized));
    assert_eq!(pipeline.record_of(&record).unwrap(), before);
    assert_eq!(pipeline.stage_of(&record), Some(Stage::Accumulated));

    let other = pipeline.phase1_open(word(0xee), word(0x9a), &opening(0x55, 0x66)).unwrap();
    assert_ne!(other, record);
    let third = pipeline.phase1_open(word(0xef), word(0x99), &opening(0x55, 0x66)).unwrap();
    assert_ne!(third, record);
    assert_ne!(third, other);
}

#[test]
fn open_at_by_given_address() {
    let mut pipeline = Pipeline::new(word(7));
    let p = opening(0x11, 0x22);
    assert_eq!(
        pipeline.open_at(None, word(1), word(2), word(3), &p),
        Err(ErrorCode::MalformedInput)
    );
    assert_eq!(
        pipeline.open_at(Some(word(0x50)), word(1), word(2), word(3), &p[..100]),
        Err(ErrorCode::MalformedInput)
    );
    assert_eq!(pipeline.stage_of(&word(0x50)), None);
    assert_eq!(pipeline.open_at(Some(word(0x50)), word(1), word(2), word(3), &p), Ok(word(0x50)));
    assert_eq!(
        pipeline.open_at(Some(word(0x50)), word(1), word(4), word(5), &p),
        Err(ErrorCode::AlreadyInitialized)
    );
    assert_eq!(
        pipeline.open_at(Some(word(0x50)), word(1), word(4), word(5), &p[..100]),
        Err(ErrorCode::MalformedInput)
    );
    let state = StagedVerifierState::from_record(&pipeline.record_of(&word(0x50)).unwrap()).unwrap();
    assert_eq!(state.initiator(), word(2));
    assert_eq!(state.checked_public_inputs()[0], word(1));
}

#[test]
fn pipeline_runs_an_attempt_to_settlement() {
    let mut pipeline = Pipeline::new(word(7));
    let mut ledger = ledger_with_games(2);
    let who = word(0xee);
    let record = pipeline.phase1_open(who, word(0x99), &opening(0x11, 0x22)).unwrap();
    assert_eq!(
        pipeline.phase3_verify(&mut ledger, &record, &who, true, 1, 0),
        Err(ErrorCode::InvalidOperation)
    );
    assert_eq!(pipeline.phase2_accumulate(&record, &who, &six()[..96]), Ok(()));
    assert_eq!(pipeline.stage_of(&record), Some(Stage::Opened));
    assert_eq!(
        pipeline.phase3_verify(&mut ledger, &record, &who, true, 1, 0),
        Err(ErrorCode::InvalidOperation)
    );
    assert_eq!(
        pipeline.inputs_to_verify(&record, &who).err(),
        Some(ErrorCode::InvalidOperation)
    );
    assert_eq!(pipeline.phase2_accumulate(&record, &who, &six()), Ok(()));
    assert_eq!(pipeline.stage_of(&record), Some(Stage::Accumulated));
    assert!(!pipeline.is_spent(&word(0x11)));
    assert_eq!(
        pipeline.inputs_to_verify(&record, &word(1)).err(),
        Some(ErrorCode::Unauthorized)
    );
    assert_eq!(
        pipeline.inputs_to_verify(&word(0x55), &who).err(),
        Some(ErrorCode::AttemptNotFound)
    );
    let inputs = pipeline.inputs_to_verify(&record, &who).unwrap().clone();
    assert_eq!(inputs.len(), 8);
    assert_eq!(inputs[0], domain_tag(&word(7)));
    assert_eq!(inputs[1], word(0x99));
    assert_eq!(inputs[2], word(0xb0));
    assert_eq!(inputs[7], word(0xb5));

    let verdict = pipeline.phase3_verify(&mut ledger, &record, &who, true, 2, 77).unwrap();
    assert_eq!(
        verdict,
        Verdict::Verified(GameEnded { game_id: 2, winner_address: None, total_prize: 77 })
    );
    assert_eq!(pipeline.stage_of(&record), Some(Stage::Verified));
    assert!(pipeline.is_spent(&word(0x11)) && pipeline.is_spent(&word(0x22)));
    assert!(!ledger.game(2).unwrap().is_game_active);
    assert!(ledger.game(1).unwrap().is_game_active);

    assert_eq!(
        pipeline.abort_verifier_state(&record, &who),
        Err(ErrorCode::InvalidOperation)
    );
    assert_eq!(pipeline.close_verifier_state(&record, &word(1)), Err(ErrorCode::Unauthorized));
    assert_eq!(pipeline.close_verifier_state(&record, &who), Ok(()));
    assert_eq!(pipeline.stage_of(&record), None);
    assert_eq!(
        pipeline.close_verifier_state(&record, &who),
        Err(ErrorCode::AttemptNotFound)
    );
    assert!(pipeline.is_spent(&word(0x11)));
}

#[test]
fn pipeline_blocks_a_spent_nullifier_across_attempts() {
    let mut pipeline = Pipeline::new(word(7));
    let mut ledger = ledger_with_games(2);
    let first = pipeline.phase1_open(word(0xe1), word(0x99), &opening(0x11, 0x22)).unwrap();
    let second = pipeline.phase1_open(word(0xe2), word(0x98), &opening(0x22, 0x33)).unwrap();
    pipeline.phase2_accumulate(&first, &word(0xe1), &six()).unwrap();
    pipeline.phase2_accumulate(&second, &word(0xe2), &six()).unwrap();
    pipeline.phase3_verify(&mut ledger, &first, &word(0xe1), true, 1, 0).unwrap();
    pipeline.close_verifier_state(&first, &word(0xe1)).unwrap();

    let before = pipeline.record_of(&second).unwrap();
    let r = pipeline.phase3_verify(&mut ledger, &second, &word(0xe2), true, 2, 0);
    assert_eq!(r, Err(ErrorCode::NullifierReused));
    assert_eq!(pipeline.record_of(&second).unwrap(), before);
    assert!(!pipeline.is_spent(&word(0x33)));
    assert!(ledger.game(2).unwrap().is_game_active);
    assert_eq!(ledger.vault_balance(), 200);

    let r = pipeline.phase3_verify(&mut ledger, &second, &word(0xe2), false, 2, 0);
    assert_eq!(r, Ok(Verdict::Rejected));
    assert_eq!(pipeline.stage_of(&second), Some(Stage::Rejected));
    assert!(ledger.game(2).unwrap().is_game_active);
    assert!(!pipeline.is_spent(&word(0x33)));
    assert_eq!(pipeline.close_verifier_state(&second, &word(0xe2)), Ok(()));

    let again = pipeline.phase1_open(word(0xe1), word(0x99), &opening(0x11, 0x44)).unwrap();
    assert_eq!(again, first);
    pipeline.phase2_accumulate(&again, &word(0xe1), &six()).unwrap();
    let r = pipeline.phase3_verify(&mut ledger, &again, &word(0xe1), true, 2, 0);
    assert_eq!(r, Err(ErrorCode::NullifierReused));
    assert_eq!(pipeline.abort_verifier_state(&again, &word(0xe1)), Ok(()));
    assert_eq!(pipeline.stage_of(&again), None);
}

#[test]
fn pipeline_errors_on_unknown_record_and_wrong_caller() {
    let mut pipeline = Pipeline::new(word(7));
    let mut ledger = ledger_with_games(1);
    let ghost = word(0x77);
    assert_eq!(
        pipeline.phase2_accumulate(&ghost, &word(1), &six()),
        Err(ErrorCode::AttemptNotFound)
    );
    assert_eq!(
        pipeline.phase3_verify(&mut ledger, &ghost, &word(1), true, 1, 0),
        Err(ErrorCode::AttemptNotFound)
    );
    assert_eq!(pipeline.abort_verifier_state(&ghost, &word(1)), Err(ErrorCode::AttemptNotFound));

    let record = pipeline.phase1_open(word(0xee), word(0x99), &opening(0x11, 0x22)).unwrap();
    assert_eq!(
        pipeline.phase2_accumulate(&record, &word(1), &six()),
        Err(ErrorCode::Unauthorized)
    );
    let mut seven = six();
    seven.extend_from_slice(&[0u8; 32]);
    assert_eq!(
        pipeline.phase2_accumulate(&record, &word(0xee), &seven),
        Err(ErrorCode::TooManyInputs)
    );
    assert_eq!(
        pipeline.phase2_accumulate(&record, &word(0xee), &seven[..33]),
        Err(ErrorCode::MalformedInput)
    );
    pipeline.phase2_accumulate(&record, &word(0xee), &six()).unwrap();
    assert_eq!(
        pipeline.phase3_verify(&mut ledger, &record, &word(1), true, 1, 0),
        Err(ErrorCode::Unauthorized)
    );
    assert_eq!(
        pipeline.phase3_verify(&mut ledger, &record, &word(0xee), true, 9, 0),
        Err(ErrorCode::GameNotFound)
    );
    assert_eq!(pipeline.stage_of(&record), Some(Stage::Accumulated));
    assert!(!pipeline.is_spent(&word(0x11)));
    assert_eq!(pipeline.abort_verifier_state(&record, &word(1)), Err(ErrorCode::Unauthorized));
    assert_eq!(pipeline.abort_verifier_state(&record, &word(0xee)), Ok(()));
}
