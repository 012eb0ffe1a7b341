use blackjack::bytes32::Bytes32;
use blackjack::error::ErrorCode;
use blackjack::escrow::{
    create_game, end_game, initialize, join_game, start_game, start_multiplayer_game,
    start_single_player_game, withdraw_bet, CreateGame, EndGame, Game, GameCreated, GameEnded,
    GlobalState, Initialize, JoinGame, Player, PlayerJoined, Signer, StartGame, Vault,
    WithdrawBet,
};

fn addr(b: u8) -> Bytes32 {
    Bytes32::new([b; 32])
}

fn signer(b: u8, lamports: u64) -> Signer {
    Signer { key: addr(b), lamports }
}

fn fresh() -> GlobalState {
    GlobalState { authority: addr(9), next_game_id: 1 }
}

fn start_ctx(lamports: u64, vault: u64) -> StartGame {
    StartGame {
        global_state: fresh(),
        game: Game::blank(),
        player: Player::blank(),
        signer: signer(1, lamports),
        vault: Vault { balance: vault },
    }
}

fn open_game() -> Game {
    Game {
        game_id: 4,
        player_one: addr(1),
        player_two: None,
        bet_amount: 30,
        is_game_active: true,
        is_single_player: false,
    }
}

#[test]
fn initialize_starts_the_counter_at_one() {
    let mut ctx = Initialize { global_state: GlobalState::blank(), signer: signer(9, 5) };
    assert_eq!(initialize(&mut ctx), Ok(()));
    assert_eq!(ctx.global_state, GlobalState { authority: addr(9), next_game_id: 1 });
    assert_eq!(ctx.signer, signer(9, 5));
}

#[test]
fn initialize_refuses_a_record_that_was_created_before() {
    let mut ctx = Initialize { global_state: GlobalState::blank(), signer: signer(9, 5) };
    initialize(&mut ctx).unwrap();
    ctx.signer = signer(8, 5);
    let before = ctx;
    assert_eq!(initialize(&mut ctx), Err(ErrorCode::AlreadyInitialized));
    assert_eq!(ctx, before);

    let mut used = Initialize {
        global_state: GlobalState { authority: addr(9), next_game_id: 41 },
        signer: signer(8, 5),
    };
    assert_eq!(initialize(&mut used), Err(ErrorCode::AlreadyInitialized));
    assert_eq!(used.global_state, GlobalState { authority: addr(9), next_game_id: 41 });
}

fn create_ctx(lamports: u64, vault: u64) -> CreateGame {
    CreateGame {
        global_state: fresh(),
        game: Game::blank(),
        player: Player::blank(),
        player_one: signer(1, lamports),
        vault: Vault { balance: vault },
    }
}

#[test]
fn create_game_assigns_then_increments() {
    let mut ctx = create_ctx(100, 0);
    let event = create_game(&mut ctx, 50).unwrap();
    assert_eq!(
        ctx.game,
        Game {
            game_id: 1,
            player_one: addr(1),
            player_two: None,
            bet_amount: 50,
            is_game_active: true,
            is_single_player: false,
        }
    );
    assert_eq!(event, GameCreated { player1_address: addr(1), bet: 50 });
    assert_eq!(ctx.global_state.next_game_id, 2);
    ctx.player_one = signer(2, 7);
    create_game(&mut ctx, 7).unwrap();
    assert_eq!(ctx.game.game_id, 2);
    assert_eq!(ctx.game.player_one, addr(2));
    assert_eq!(ctx.global_state.next_game_id, 3);
}

#[test]
fn create_game_locks_the_stake() {
    let mut ctx = create_ctx(120, 30);
    create_game(&mut ctx, 50).unwrap();
    assert_eq!(ctx.player, Player { game_id: 1, bet: 50 });
    assert_eq!(ctx.player_one, signer(1, 70));
    assert_eq!(ctx.vault.balance, 80);
    assert!(ctx.game.is_game_active);
    assert_eq!(ctx.game.player_two, None);
}

#[test]
fn create_game_is_the_start_of_a_multiplayer_game() {
    let mut created = create_ctx(120, 30);
    let mut started = start_ctx(120, 30);
    assert_eq!(create_game(&mut created, 50), start_multiplayer_game(&mut started, 50));
    assert_eq!(created.global_state, started.global_state);
    assert_eq!(created.game, started.game);
    assert_eq!(created.player, started.player);
    assert_eq!(created.player_one, started.signer);
    assert_eq!(created.vault, started.vault);
}

#[test]
fn create_game_refuses_a_creator_who_cannot_pay() {
    for (lamports, bet) in [(0u64, 1u64), (49, 50), (u64::MAX - 1, u64::MAX)] {
        let mut ctx = create_ctx(lamports, 5);
        let before = ctx;
        assert_eq!(create_game(&mut ctx, bet), Err(ErrorCode::InsufficientFunds));
        assert_eq!(ctx, before);
    }
}

#[test]
fn create_game_fails_at_the_machine_limits() {
    let mut exhausted = create_ctx(100, 0);
    exhausted.global_state.next_game_id = u64::MAX;
    let before = exhausted;
    assert_eq!(create_game(&mut exhausted, 50), Err(ErrorCode::Overflow));
    assert_eq!(exhausted, before);

    let mut brimful = create_ctx(100, u64::MAX - 49);
    let before = brimful;
    assert_eq!(create_game(&mut brimful, 50), Err(ErrorCode::Overflow));
    assert_eq!(brimful, before);
}

#[test]
fn ids_count_the_starts_that_succeed() {
    let mut init = Initialize { global_state: GlobalState::blank(), signer: signer(9, 0) };
    initialize(&mut init).unwrap();
    let mut global_state = init.global_state;
    let mut vault = Vault::new();
    let mut succeeded = 0u64;
    for round in 0..30u64 {
        let mut ctx = StartGame {
            global_state,
            game: Game::blank(),
            player: Player::blank(),
            signer: signer(1, if round % 3 == 0 { 0 } else { 10 }),
            vault,
        };
        let r = if round % 2 == 0 {
            start_single_player_game(&mut ctx, 5)
        } else {
            start_multiplayer_game(&mut ctx, 5)
        };
        if r.is_ok() {
            succeeded += 1;
            assert_eq!(ctx.game.game_id, succeeded);
        }
        global_state = ctx.global_state;
        vault = ctx.vault;
        assert_eq!(global_state.next_game_id, succeeded + 1);
    }
    assert_eq!(succeeded, 20);
    let mut ctx = CreateGame {
        global_state,
        game: Game::blank(),
        player: Player::blank(),
        player_one: signer(2, 5),
        vault,
    };
    create_game(&mut ctx, 5).unwrap();
    assert_eq!(ctx.game.game_id, succeeded + 1);
    assert_eq!(ctx.global_state.next_game_id, succeeded + 2);
}

#[test]
fn blank_records_are_zeroed() {
    assert_eq!(
        Game::blank(),
        Game {
            game_id: 0,
            player_one: addr(0),
            player_two: None,
            bet_amount: 0,
            is_game_active: false,
            is_single_player: false,
        }
    );
    assert_eq!(Player::blank(), Player { game_id: 0, bet: 0 });
    assert_eq!(GlobalState::blank(), GlobalState { authority: addr(0), next_game_id: 0 });
}

#[test]
fn start_single_player_game_locks_the_stake() {
    let mut ctx = start_ctx(250, 0);
    let event = start_single_player_game(&mut ctx, 100).unwrap();
    assert_eq!(ctx.game.game_id, 1);
    assert_eq!(ctx.game.player_one, addr(1));
    assert!(ctx.game.is_single_player);
    assert!(ctx.game.is_game_active);
    assert_eq!(ctx.game.bet_amount, 100);
    assert_eq!(ctx.player, Player { game_id: 1, bet: 100 });
    assert_eq!(event, GameCreated { player1_address: addr(1), bet: 100 });
    assert_eq!(ctx.signer.lamports, 150);
    assert_eq!(ctx.vault.balance, 100);
    assert_eq!(ctx.global_state.next_game_id, 2);
}

#[test]
fn start_multiplayer_game_is_joinable() {
    let mut ctx = start_ctx(100, 0);
    start_multiplayer_game(&mut ctx, 100).unwrap();
    assert!(!ctx.game.is_single_player);
    assert_eq!(ctx.signer.lamports, 0);

    let mut other = start_ctx(100, 0);
    start_game(&mut other, 100, false).unwrap();
    assert_eq!(other, ctx);
}

#[test]
fn start_game_rejects_an_uncovered_stake_without_side_effects() {
    let mut ctx = start_ctx(99, 5);
    let before = ctx;
    assert_eq!(start_single_player_game(&mut ctx, 100), Err(ErrorCode::InsufficientFunds));
    assert_eq!(ctx, before);
}

#[test]
fn start_game_rejects_a_stake_that_overflows_the_vault() {
    let mut ctx = start_ctx(10, u64::MAX - 5);
    let before = ctx;
    assert_eq!(start_multiplayer_game(&mut ctx, 10), Err(ErrorCode::Overflow));
    assert_eq!(ctx, before);
}

#[test]
fn start_game_rejects_when_ids_are_exhausted() {
    let mut ctx = start_ctx(10, 0);
    ctx.global_state.next_game_id = u64::MAX;
    let before = ctx;
    assert_eq!(start_multiplayer_game(&mut ctx, 10), Err(ErrorCode::Overflow));
    assert_eq!(ctx, before);
}

#[test]
fn join_game_seats_the_joiner_and_locks_the_stake() {
    let mut ctx = JoinGame {
        game: open_game(),
        player: Player { game_id: 0, bet: 30 },
        signer: signer(2, 31),
        vault: Vault { balance: 30 },
    };
    let event = join_game(&mut ctx).unwrap();
    assert_eq!(ctx.game.player_two, Some(addr(2)));
    assert_eq!(ctx.player, Player { game_id: 4, bet: 30 });
    assert_eq!(event, PlayerJoined { player2_address: addr(2), game_id: 4 });
    assert_eq!(ctx.signer.lamports, 1);
    assert_eq!(ctx.vault.balance, 60);
}

#[test]
fn join_game_errors_in_order() {
    let base = JoinGame {
        game: open_game(),
        player: Player { game_id: 0, bet: 31 },
        signer: signer(2, 30),
        vault: Vault { balance: 30 },
    };
    let check = |ctx: JoinGame, expected: ErrorCode| {
        let mut tried = ctx;
        assert_eq!(join_game(&mut tried), Err(expected));
        assert_eq!(tried, ctx);
    };
    let mut single = base;
    single.game.is_single_player = true;
    single.game.is_game_active = false;
    check(single, ErrorCode::InvalidOperation);
    let mut settled = base;
    settled.game.is_game_active = false;
    check(settled, ErrorCode::GameNotActive);
    check(base, ErrorCode::BetMismatch);
    let mut poor = base;
    poor.player.bet = 30;
    poor.signer.lamports = 29;
    check(poor, ErrorCode::InsufficientFunds);
    let mut brimful = base;
    brimful.player.bet = 30;
    brimful.vault.balance = u64::MAX - 29;
    check(brimful, ErrorCode::Overflow);
}

#[test]
fn end_game_clears_the_active_flag() {
    let mut ctx = EndGame {
        game: open_game(),
        player: Player { game_id: 4, bet: 30 },
        signer: signer(1, 0),
    };
    let event = end_game(&mut ctx, 4, 12).unwrap();
    assert_eq!(event, GameEnded { game_id: 4, winner_address: None, total_prize: 12 });
    assert!(!ctx.game.is_game_active);
    assert_eq!(ctx.game, Game { is_game_active: false, ..open_game() });
    let again = end_game(&mut ctx, 4, 0).unwrap();
    assert_eq!(again.total_prize, 0);
    assert!(!ctx.game.is_game_active);
    assert_eq!(end_game(&mut ctx, 5, 0), Err(ErrorCode::GameNotFound));
}

fn withdraw_ctx(active: bool) -> WithdrawBet {
    WithdrawBet {
        game: Game { is_game_active: active, ..open_game() },
        player: Player { game_id: 4, bet: 30 },
        signer: signer(1, 2),
        vault: Vault { balance: 45 },
    }
}

#[test]
fn withdraw_bet_moves_funds_atomically() {
    let mut ctx = withdraw_ctx(false);
    let event = withdraw_bet(&mut ctx, 20).unwrap();
    assert_eq!(event, GameEnded { game_id: 4, winner_address: Some(addr(1)), total_prize: 20 });
    assert_eq!(ctx.player.bet, 10);
    assert_eq!(ctx.vault.balance, 25);
    assert_eq!(ctx.signer.lamports, 22);
    withdraw_bet(&mut ctx, 10).unwrap();
    assert_eq!((ctx.player.bet, ctx.vault.balance, ctx.signer.lamports), (0, 15, 32));
}

#[test]
fn withdraw_bet_fails_on_an_active_game_for_every_amount() {
    for amount in [0u64, 1, 30, 31, u64::MAX] {
        let mut ctx = withdraw_ctx(true);
        assert_eq!(withdraw_bet(&mut ctx, amount), Err(ErrorCode::GameStillActive));
        assert_eq!(ctx, withdraw_ctx(true));
    }
}

#[test]
fn withdraw_bet_errors_after_settlement() {
    let check = |ctx: WithdrawBet, amount: u64, expected: ErrorCode| {
        let mut tried = ctx;
        assert_eq!(withdraw_bet(&mut tried, amount), Err(expected));
        assert_eq!(tried, ctx);
    };
    let mut stranger = withdraw_ctx(false);
    stranger.player.game_id = 5;
    check(stranger, 1, ErrorCode::PlayerNotFound);
    check(withdraw_ctx(false), 31, ErrorCode::InsufficientBalance);
    let mut short = withdraw_ctx(false);
    short.vault.balance = 29;
    check(short, 30, ErrorCode::InsufficientBalance);
    let mut full = withdraw_ctx(false);
    full.signer.lamports = u64::MAX;
    check(full, 1, ErrorCode::Overflow);
}

#[test]
fn vault_deposit_and_release() {
    let mut vault = Vault::new();
    let mut wallet = 10u64;
    assert_eq!(vault.deposit(&mut wallet, 11), Err(ErrorCode::InsufficientFunds));
    assert_eq!(vault.deposit(&mut wallet, 4), Ok(()));
    assert_eq!((vault.balance, wallet), (4, 6));
    assert_eq!(vault.release(&mut wallet, 5), Err(ErrorCode::InsufficientBalance));
    assert_eq!(vault.release(&mut wallet, 3), Ok(()));
    assert_eq!((vault.balance, wallet), (1, 9));
    let mut brimful = Vault { balance: u64::MAX };
    assert_eq!(brimful.deposit(&mut wallet, 1), Err(ErrorCode::Overflow));
    let mut rich = u64::MAX;
    assert_eq!(vault.release(&mut rich, 1), Err(ErrorCode::Overflow));
}
