use blackjack::bytes32::Bytes32;
use blackjack::error::ErrorCode;
use blackjack::escrow::{EndGame, Game, GameEnded, Player, Signer};
use blackjack::ledger::Ledger;
use blackjack::nullifiers::NullifierSet;
use blackjack::settlement::{phase3_verify, phase3_verify_records, Verdict};
use blackjack::staged::{Stage, StagedVerifierState};

fn word(b: u8) -> Bytes32 {
    Bytes32::new([b; 32])
}

fn opening(n0: u8, n1: u8) -> Vec<u8> {
    let mut p = Vec::new();
    for b in [n0, n1, 0x33, 0x44, 0x55, 0x66] {
        p.extend_from_slice(&[b; 32]);
    }
    p.extend_from_slice(&1u64.to_le_bytes());
    p.extend_from_slice(&2u64.to_le_bytes());
    p
}

fn opened(initiator: u8, n0: u8, n1: u8) -> StagedVerifierState {
    StagedVerifierState::open_with_tag(word(1), word(initiator), word(3), &opening(n0, n1)).unwrap()
}

fn accumulated(initiator: u8, n0: u8, n1: u8) -> StagedVerifierState {
    let mut state = opened(initiator, n0, n1);
    let mut six = Vec::new();
    for i in 0..6u8 {
        six.extend_from_slice(&[0xb0 + i; 32]);
    }
    state.phase2_accumulate(&word(initiator), &six).unwrap();
    state
}

fn ledger_with_games(n: u64) -> Ledger {
    let mut ledger = Ledger::new();
    ledger.initialize(word(0xad)).unwrap();
    for _ in 0..n {
        let mut wallet = 100u64;
        ledger.start_game(&mut wallet, word(0xa), 100, true).unwrap();
    }
    ledger
}

#[test]
fn nullifier_set_basics() {
    let mut set = NullifierSet::new();
    assert_eq!(set.len(), 0);
    assert!(!set.contains(&word(1)));
    assert!(set.insert(word(1)));
    assert!(!set.insert(word(1)));
    assert!(set.contains(&word(1)));
    assert_eq!(set.len(), 1);
    assert!(!set.contains_any(&vec![word(2), word(3)]));
    assert!(set.contains_any(&vec![word(2), word(1)]));
    set.insert_all(&vec![word(1), word(2), word(2), word(3)]);
    assert_eq!(set.len(), 3);
    assert!(set.contains(&word(2)) && set.contains(&word(3)));
    assert!(!set.contains_any(&vec![]));
}

#[test]
fn phase3_on_opened_state_fails() {
    let mut state = opened(2, 0x11, 0x22);
    let mut spent = NullifierSet::new();
    let mut ledger = ledger_with_games(1);
    let before = state.to_record();
    for proof_valid in [true, false] {
        let r = phase3_verify(&mut state, &mut spent, &mut ledger, &word(2), proof_valid, 1, 0);
        assert_eq!(r, Err(ErrorCode::InvalidOperation));
    }
    assert_eq!(state.stage(), Stage::Opened);
    assert_eq!(state.to_record(), before);
    assert_eq!(spent.len(), 0);
    assert!(ledger.game(1).unwrap().is_game_active);
}

#[test]
fn phase3_on_partially_accumulated_state_fails() {
    let mut state = opened(2, 0x11, 0x22);
    state.phase2_accumulate(&word(2), &[0xa0; 160]).unwrap();
    assert_eq!(state.filled_inputs(), 7);
    let mut spent = NullifierSet::new();
    let mut ledger = ledger_with_games(1);
    let r = phase3_verify(&mut state, &mut spent, &mut ledger, &word(2), true, 1, 0);
    assert_eq!(r, Err(ErrorCode::InvalidOperation));
    assert!(ledger.game(1).unwrap().is_game_active);
}

#[test]
fn phase3_success_settles_and_spends() {
    let mut state = accumulated(2, 0x11, 0x22);
    let mut spent = NullifierSet::new();
    let mut ledger = ledger_with_games(2);
    let r = phase3_verify(&mut state, &mut spent, &mut ledger, &word(2), true, 2, 55);
    assert_eq!(
        r,
        Ok(Verdict::Verified(GameEnded { game_id: 2, winner_address: None, total_prize: 55 }))
    );
    assert_eq!(state.stage(), Stage::Verified);
    assert!(spent.contains(&word(0x11)) && spent.contains(&word(0x22)));
    assert_eq!(spent.len(), 2);
    assert!(!ledger.game(2).unwrap().is_game_active);
    assert!(ledger.game(1).unwrap().is_game_active);
    assert_eq!(ledger.vault_balance(), 200);

    let mut wallet = 0u64;
    ledger.withdraw(&mut wallet, 2, word(0xa), 100).unwrap();
    assert_eq!(wallet, 100);
    assert_eq!(state.close_verifier_state(&word(2)), Ok(()));
    assert_eq!(state.stage(), Stage::Closed);
}

#[test]
fn phase3_failure_rejects_without_moving_anything() {
    let mut state = accumulated(2, 0x11, 0x22);
    let mut spent = NullifierSet::new();
    let mut ledger = ledger_with_games(1);
    let r = phase3_verify(&mut state, &mut spent, &mut ledger, &word(2), false, 1, 55);
    assert_eq!(r, Ok(Verdict::Rejected));
    assert_eq!(state.stage(), Stage::Rejected);
    assert_eq!(spent.len(), 0);
    assert!(ledger.game(1).unwrap().is_game_active);
    assert_eq!(ledger.vault_balance(), 100);
    let again = phase3_verify(&mut state, &mut spent, &mut ledger, &word(2), true, 1, 55);
    assert_eq!(again, Err(ErrorCode::InvalidOperation));
    assert_eq!(state.close_verifier_state(&word(2)), Ok(()));
}

#[test]
fn reused_nullifier_blocks_later_settlement() {
    let mut spent = NullifierSet::new();
    let mut ledger = ledger_with_games(3);
    let mut first = accumulated(2, 0x11, 0x22);
    phase3_verify(&mut first, &mut spent, &mut ledger, &word(2), true, 1, 0).unwrap();

    let mut unrelated = accumulated(4, 0x77, 0x88);
    phase3_verify(&mut unrelated, &mut spent, &mut ledger, &word(4), true, 2, 0).unwrap();
    assert_eq!(spent.len(), 4);

    for (n0, n1) in [(0x11u8, 0x99u8), (0x99, 0x22), (0x22, 0x11)] {
        let mut later = accumulated(5, n0, n1);
        let before = later.to_record();
        let r = phase3_verify(&mut later, &mut spent, &mut ledger, &word(5), true, 3, 0);
        assert_eq!(r, Err(ErrorCode::NullifierReused));
        assert_eq!(later.stage(), Stage::Accumulated);
        assert_eq!(later.to_record(), before);
        assert_eq!(spent.len(), 4);
        assert!(!spent.contains(&word(0x99)));
        assert!(ledger.game(3).unwrap().is_game_active);
        assert_eq!(ledger.vault_balance(), 300);
        assert_eq!(ledger.player(3, &word(0xa)), Some(Player { game_id: 3, bet: 100 }));
    }
}

#[test]
fn phase3_errors() {
    let mut state = accumulated(2, 0x11, 0x22);
    let mut spent = NullifierSet::new();
    let mut ledger = ledger_with_games(1);
    let r = phase3_verify(&mut state, &mut spent, &mut ledger, &word(9), true, 1, 0);
    assert_eq!(r, Err(ErrorCode::Unauthorized));
    let r = phase3_verify(&mut state, &mut spent, &mut ledger, &word(2), true, 7, 0);
    assert_eq!(r, Err(ErrorCode::GameNotFound));
    assert_eq!(state.stage(), Stage::Accumulated);
    assert_eq!(spent.len(), 0);
    let r = phase3_verify(&mut state, &mut spent, &mut ledger, &word(2), true, 1, 0);
    assert!(r.is_ok());
}

fn end_ctx(game_id: u64) -> EndGame {
    EndGame {
        game: Game {
            game_id,
            player_one: word(0xa),
            player_two: None,
            bet_amount: 100,
            is_game_active: true,
            is_single_player: true,
        },
        player: Player { game_id, bet: 100 },
        signer: Signer { key: word(2), lamports: 0 },
    }
}

#[test]
fn phase3_on_records_settles_and_spends() {
    let mut state = accumulated(2, 0x11, 0x22);
    let mut spent = NullifierSet::new();
    spent.insert(word(0x77));
    let mut ctx = end_ctx(4);
    let r = phase3_verify_records(&mut state, &mut spent, &mut ctx, &word(2), true, 4, 55);
    assert_eq!(
        r,
        Ok(Verdict::Verified(GameEnded { game_id: 4, winner_address: None, total_prize: 55 }))
    );
    assert_eq!(state.stage(), Stage::Verified);
    assert!(spent.contains(&word(0x11)) && spent.contains(&word(0x22)));
    assert_eq!(spent.len(), 3);
    assert_eq!(ctx.game, Game { is_game_active: false, ..end_ctx(4).game });
    assert_eq!(ctx.player, end_ctx(4).player);
}

#[test]
fn phase3_on_records_rejects_and_fails_without_side_effects() {
    let mut spent = NullifierSet::new();
    spent.insert(word(0x22));

    let mut opened_only = opened(2, 0x11, 0x33);
    let mut ctx = end_ctx(4);
    for proof_valid in [true, false] {
        let r = phase3_verify_records(
            &mut opened_only, &mut spent, &mut ctx, &word(2), proof_valid, 4, 0,
        );
        assert_eq!(r, Err(ErrorCode::InvalidOperation));
    }
    assert_eq!(opened_only.stage(), Stage::Opened);

    let mut reused = accumulated(2, 0x11, 0x22);
    let before = reused.to_record();
    let r = phase3_verify_records(&mut reused, &mut spent, &mut ctx, &word(2), true, 4, 0);
    assert_eq!(r, Err(ErrorCode::NullifierReused));
    let r = phase3_verify_records(&mut reused, &mut spent, &mut ctx, &word(9), true, 4, 0);
    assert_eq!(r, Err(ErrorCode::Unauthorized));
    assert_eq!(reused.to_record(), before);

    let mut fresh = accumulated(2, 0x11, 0x33);
    let r = phase3_verify_records(&mut fresh, &mut spent, &mut ctx, &word(2), true, 5, 0);
    assert_eq!(r, Err(ErrorCode::GameNotFound));
    assert_eq!(fresh.stage(), Stage::Accumulated);
    assert_eq!(spent.len(), 1);
    assert_eq!(ctx, end_ctx(4));

    let r = phase3_verify_records(&mut fresh, &mut spent, &mut ctx, &word(2), false, 5, 0);
    assert_eq!(r, Ok(Verdict::Rejected));
    assert_eq!(fresh.stage(), Stage::Rejected);
    assert_eq!(spent.len(), 1);
    assert_eq!(ctx, end_ctx(4));
}
