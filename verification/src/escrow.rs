//! Escrow records of the wager ledger and the instructions that act on them.
//!
//! A wager is a [`Game`] with one [`Player`] record per participant. Stakes
//! are held in a [`Vault`]. Each instruction works on the records that its
//! context names and on nothing else: it checks first and acts only when
//! nothing can fail, so a rejected instruction leaves its context untouched.
//! What an instruction returns is the notification to publish.

use vstd::prelude::*;
use crate::bytes32::{Address, Bytes32};
use crate::error::ErrorCode;

verus! {

/// The singleton record that hands out game ids.
#[derive(Clone, Copy, Debug, PartialEq, Eq)]
pub struct GlobalState {
    /// The administrator who created the ledger.
    pub authority: Address,
    /// The id that the next game will get. It starts at 1 and only grows.
    pub next_game_id: u64,
}

/// One wager session.
#[derive(Clone, Copy, Debug, PartialEq, Eq)]
pub struct Game {
    pub game_id: u64,
    pub player_one: Address,
    /// The second participant, absent until somebody joins.
    pub player_two: Option<Address>,
    /// The stake that each participant locks.
    pub bet_amount: u64,
    /// True from creation until settlement; never true again afterwards.
    pub is_game_active: bool,
    pub is_single_player: bool,
}

/// The escrow record of one participant in one game.
#[derive(Clone, Copy, Debug, PartialEq, Eq)]
pub struct Player {
    /// The game this record belongs to.
    pub game_id: u64,
    /// What is still locked for the participant. Only withdrawals change it.
    pub bet: u64,
}

/// Holder of the locked funds.
#[derive(Clone, Copy, Debug, PartialEq, Eq)]
pub struct Vault {
    pub balance: u64,
}

/// The caller of an instruction and the caller's spendable balance.
#[derive(Clone, Copy, Debug, PartialEq, Eq)]
pub struct Signer {
    pub key: Address,
    pub lamports: u64,
}

/// Notification that a game was created.
#[derive(Clone, Copy, Debug, PartialEq, Eq)]
pub struct GameCreated {
    pub player1_address: Address,
    pub bet: u64,
}

/// Notification that a second participant joined a game.
#[derive(Clone, Copy, Debug, PartialEq, Eq)]
pub struct PlayerJoined {
    pub player2_address: Address,
    pub game_id: u64,
}

/// Notification that a game was settled or that funds were paid out of it.
#[derive(Clone, Copy, Debug, PartialEq, Eq)]
pub struct GameEnded {
    pub game_id: u64,
    /// The payee of a withdrawal; absent on settlement, which names no winner.
    pub winner_address: Option<Address>,
    /// The final bet on settlement, the amount paid on withdrawal.
    pub total_prize: u64,
}

/// The records of `initialize`: the global state to create, still blank,
/// and its creator.
#[derive(Clone, Copy, Debug, PartialEq, Eq)]
pub struct Initialize {
    pub global_state: GlobalState,
    pub signer: Signer,
}

/// The records of a game start: the global state, the game and the escrow
/// record to fill in, the bettor, and the vault.
#[derive(Clone, Copy, Debug, PartialEq, Eq)]
pub struct StartGame {
    pub global_state: GlobalState,
    pub game: Game,
    pub player: Player,
    pub signer: Signer,
    pub vault: Vault,
}

/// The records of `create_game`: the global state, the game and the escrow
/// record to fill in, the creator, and the vault.
#[derive(Clone, Copy, Debug, PartialEq, Eq)]
pub struct CreateGame {
    pub global_state: GlobalState,
    pub game: Game,
    pub player: Player,
    pub player_one: Signer,
    pub vault: Vault,
}

/// The records of `join_game`: the game, the joiner's escrow record, whose
/// `bet` is the stake that the joiner offers, the joiner, and the vault.
#[derive(Clone, Copy, Debug, PartialEq, Eq)]
pub struct JoinGame {
    pub game: Game,
    pub player: Player,
    pub signer: Signer,
    pub vault: Vault,
}

/// The records of `end_game`.
#[derive(Clone, Copy, Debug, PartialEq, Eq)]
pub struct EndGame {
    pub game: Game,
    pub player: Player,
    pub signer: Signer,
}

/// The records of `withdraw_bet`: the settled game, the payee's escrow
/// record, the payee, and the vault.
#[derive(Clone, Copy, Debug, PartialEq, Eq)]
pub struct WithdrawBet {
    pub game: Game,
    pub player: Player,
    pub signer: Signer,
    pub vault: Vault,
}

/// The record of a freshly created game.
pub open spec fn new_game(game_id: u64, creator: Address, bet_amount: u64, single_player: bool)
    -> Game {
    Game {
        game_id,
        player_one: creator,
        player_two: None,
        bet_amount,
        is_game_active: true,
        is_single_player: single_player,
    }
}

/// Why moving `amount` from a spendable balance into the vault fails, if it
/// does.
pub open spec fn deposit_error(vault: Vault, wallet: u64, amount: u64) -> Option<ErrorCode> {
    if wallet < amount {
        Some(ErrorCode::InsufficientFunds)
    } else if vault.balance + amount > u64::MAX {
        Some(ErrorCode::Overflow)
    } else {
        None
    }
}

/// Why paying `amount` out of the vault into a spendable balance fails, if
/// it does.
pub open spec fn release_error(vault: Vault, wallet: u64, amount: u64) -> Option<ErrorCode> {
    if vault.balance < amount {
        Some(ErrorCode::InsufficientBalance)
    } else if wallet + amount > u64::MAX {
        Some(ErrorCode::Overflow)
    } else {
        None
    }
}

impl GlobalState {
    /// The global state before it is created: no authority, and a counter
    /// of 0, which no created state ever shows.
    pub open spec fn spec_blank() -> GlobalState {
        GlobalState { authority: Bytes32::spec_zero(), next_game_id: 0 }
    }

    /// The global state before it is created.
    pub fn blank() -> (state: GlobalState)
        ensures
            state == GlobalState::spec_blank(),
    {
        GlobalState { authority: Bytes32::zero(), next_game_id: 0 }
    }
}

impl Game {
    /// The record of a game before anything is written to it.
    pub open spec fn spec_blank() -> Game {
        Game {
            game_id: 0,
            player_one: Bytes32::spec_zero(),
            player_two: None,
            bet_amount: 0,
            is_game_active: false,
            is_single_player: false,
        }
    }

    /// The record of a game before anything is written to it.
    pub fn blank() -> (game: Game)
        ensures
            game == Game::spec_blank(),
    {
        Game {
            game_id: 0,
            player_one: Bytes32::zero(),
            player_two: None,
            bet_amount: 0,
            is_game_active: false,
            is_single_player: false,
        }
    }
}

impl Player {
    /// An escrow record before anything is written to it.
    pub fn blank() -> (player: Player)
        ensures
            player == (Player { game_id: 0, bet: 0 }),
    {
        Player { game_id: 0, bet: 0 }
    }
}

impl Vault {
    /// An empty vault.
    pub fn new() -> (vault: Vault)
        ensures
            vault.balance == 0,
    {
        Vault { balance: 0 }
    }

    /// Moves `amount` from `wallet` into the vault.
    pub fn deposit(&mut self, wallet: &mut u64, amount: u64) -> (r: Result<(), ErrorCode>)
        ensures
            match r {
                Ok(()) => {
                    &&& deposit_error(*old(self), *old(wallet), amount) is None
                    &&& final(self).balance == old(self).balance + amount
                    &&& *final(wallet) == *old(wallet) - amount
                },
                Err(e) => {
                    &&& deposit_error(*old(self), *old(wallet), amount) == Some(e)
                    &&& *final(self) == *old(self)
                    &&& *final(wallet) == *old(wallet)
                },
            },
    {
        if *wallet < amount {
            return Err(ErrorCode::InsufficientFunds);
        }
        if amount > u64::MAX - self.balance {
            return Err(ErrorCode::Overflow);
        }
        self.balance = self.balance + amount;
        *wallet = *wallet - amount;
        Ok(())
    }

    /// Pays `amount` out of the vault into `wallet`.
    pub fn release(&mut self, wallet: &mut u64, amount: u64) -> (r: Result<(), ErrorCode>)
        ensures
            match r {
                Ok(()) => {
                    &&& release_error(*old(self), *old(wallet), amount) is None
                    &&& final(self).balance == old(self).balance - amount
                    &&& *final(wallet) == *old(wallet) + amount
                },
                Err(e) => {
                    &&& release_error(*old(self), *old(wallet), amount) == Some(e)
                    &&& *final(self) == *old(self)
                    &&& *final(wallet) == *old(wallet)
                },
            },
    {
        if self.balance < amount {
            return Err(ErrorCode::InsufficientBalance);
        }
        if amount > u64::MAX - *wallet {
            return Err(ErrorCode::Overflow);
        }
        self.balance = self.balance - amount;
        *wallet = *wallet + amount;
        Ok(())
    }
}

impl Initialize {
    /// Creating fails exactly when the record has been created before: its
    /// counter is no longer 0.
    pub open spec fn error(self) -> Option<ErrorCode> {
        if self.global_state.next_game_id != 0 {
            Some(ErrorCode::AlreadyInitialized)
        } else {
            None
        }
    }

    /// The records after creating: the signer is the authority and the
    /// first game will get id 1.
    pub open spec fn after(self) -> Initialize {
        Initialize {
            global_state: GlobalState { authority: self.signer.key, next_game_id: 1 },
            signer: self.signer,
        }
    }
}

/// Creates the global state in a blank record: the signer administers it
/// and the first game will get id 1.
///
/// A record that has been created before is refused with
/// `AlreadyInitialized` and stays as it is, so that the counter is never
/// set back.
pub fn initialize(ctx: &mut Initialize) -> (r: Result<(), ErrorCode>)
    ensures
        match r {
            Ok(()) => {
                &&& old(ctx).error() is None
                &&& *final(ctx) == old(ctx).after()
            },
            Err(e) => {
                &&& old(ctx).error() == Some(e)
                &&& *final(ctx) == *old(ctx)
            },
        },
{
    if ctx.global_state.next_game_id != 0 {
        return Err(ErrorCode::AlreadyInitialized);
    }
    ctx.global_state.authority = ctx.signer.key;
    ctx.global_state.next_game_id = 1;
    Ok(())
}

/// Why starting a game fails, if it does: the stake must be covered by the
/// bettor's spendable balance, fit into the vault, and a fresh id must be
/// left.
pub open spec fn start_game_error(
    global_state: GlobalState,
    wallet: u64,
    vault: Vault,
    bet_amount: u64,
) -> Option<ErrorCode> {
    if deposit_error(vault, wallet, bet_amount) is Some {
        deposit_error(vault, wallet, bet_amount)
    } else if global_state.next_game_id == u64::MAX {
        Some(ErrorCode::Overflow)
    } else {
        None
    }
}

impl StartGame {
    /// Why the start fails, if it does.
    pub open spec fn error(self, bet_amount: u64) -> Option<ErrorCode> {
        start_game_error(self.global_state, self.signer.lamports, self.vault, bet_amount)
    }

    /// The records after the start succeeded: the game has the id that the
    /// counter showed and is active, the counter has moved on by one, the
    /// escrow record locks the stake, and the stake has moved from the
    /// bettor into the vault.
    pub open spec fn after(self, bet_amount: u64, single_player: bool) -> StartGame {
        StartGame {
            global_state: GlobalState {
                authority: self.global_state.authority,
                next_game_id: (self.global_state.next_game_id + 1) as u64,
            },
            game: new_game(
                self.global_state.next_game_id,
                self.signer.key,
                bet_amount,
                single_player,
            ),
            player: Player { game_id: self.global_state.next_game_id, bet: bet_amount },
            signer: Signer {
                key: self.signer.key,
                lamports: (self.signer.lamports - bet_amount) as u64,
            },
            vault: Vault { balance: (self.vault.balance + bet_amount) as u64 },
        }
    }
}

/// Starts a game: allocates its id, fills in the game and the bettor's
/// escrow record, and moves the stake from the bettor's spendable balance
/// into the vault.
pub fn start_game(ctx: &mut StartGame, bet_amount: u64, single_player: bool) -> (r: Result<
    GameCreated,
    ErrorCode,
>)
    ensures
        match r {
            Ok(event) => {
                &&& old(ctx).error(bet_amount) is None
                &&& *final(ctx) == old(ctx).after(bet_amount, single_player)
                &&& event == (GameCreated { player1_address: old(ctx).signer.key, bet: bet_amount })
            },
            Err(e) => {
                &&& old(ctx).error(bet_amount) == Some(e)
                &&& *final(ctx) == *old(ctx)
            },
        },
{
    if ctx.signer.lamports < bet_amount {
        return Err(ErrorCode::InsufficientFunds);
    }
    if bet_amount > u64::MAX - ctx.vault.balance {
        return Err(ErrorCode::Overflow);
    }
    if ctx.global_state.next_game_id == u64::MAX {
        return Err(ErrorCode::Overflow);
    }
    ctx.game.game_id = ctx.global_state.next_game_id;
    ctx.global_state.next_game_id = ctx.global_state.next_game_id + 1;
    ctx.game.player_one = ctx.signer.key;
    ctx.game.player_two = None;
    ctx.game.bet_amount = bet_amount;
    ctx.game.is_game_active = true;
    ctx.game.is_single_player = single_player;
    ctx.player.game_id = ctx.game.game_id;
    ctx.player.bet = bet_amount;
    ctx.vault.balance = ctx.vault.balance + bet_amount;
    ctx.signer.lamports = ctx.signer.lamports - bet_amount;
    Ok(GameCreated { player1_address: ctx.signer.key, bet: bet_amount })
}

/// Starts a game that nobody can join.
pub fn start_single_player_game(ctx: &mut StartGame, bet_amount: u64) -> (r: Result<
    GameCreated,
    ErrorCode,
>)
    ensures
        match r {
            Ok(event) => {
                &&& old(ctx).error(bet_amount) is None
                &&& *final(ctx) == old(ctx).after(bet_amount, true)
                &&& event == (GameCreated { player1_address: old(ctx).signer.key, bet: bet_amount })
            },
            Err(e) => {
                &&& old(ctx).error(bet_amount) == Some(e)
                &&& *final(ctx) == *old(ctx)
            },
        },
{
    start_game(ctx, bet_amount, true)
}

/// Starts a game that a second participant may join.
pub fn start_multiplayer_game(ctx: &mut StartGame, bet_amount: u64) -> (r: Result<
    GameCreated,
    ErrorCode,
>)
    ensures
        match r {
            Ok(event) => {
                &&& old(ctx).error(bet_amount) is None
                &&& *final(ctx) == old(ctx).after(bet_amount, false)
                &&& event == (GameCreated { player1_address: old(ctx).signer.key, bet: bet_amount })
            },
            Err(e) => {
                &&& old(ctx).error(bet_amount) == Some(e)
                &&& *final(ctx) == *old(ctx)
            },
        },
{
    start_game(ctx, bet_amount, false)
}

impl CreateGame {
    /// The same records as those of a game start, the creator as bettor.
    pub open spec fn as_start(self) -> StartGame {
        StartGame {
            global_state: self.global_state,
            game: self.game,
            player: self.player,
            signer: self.player_one,
            vault: self.vault,
        }
    }

    /// Why creating fails, if it does: as a start does. The stake must be
    /// covered by the creator's spendable balance, fit into the vault, and a
    /// fresh id must be left.
    pub open spec fn error(self, bet_amount: u64) -> Option<ErrorCode> {
        self.as_start().error(bet_amount)
    }

    /// The records after creating succeeded: those after the start of a
    /// multiplayer game. The game has the id that the counter showed and is
    /// active, the counter has moved on by one, the creator's escrow record
    /// locks the stake, and the stake has moved from the creator into the
    /// vault.
    pub open spec fn after(self, bet_amount: u64) -> CreateGame {
        let started = self.as_start().after(bet_amount, false);
        CreateGame {
            global_state: started.global_state,
            game: started.game,
            player: started.player,
            player_one: started.signer,
            vault: started.vault,
        }
    }
}

/// Creates a game that a second participant may join: the start of a
/// multiplayer game under its other name. It allocates the id, fills in the
/// game and the creator's escrow record, and moves the stake from the
/// creator's spendable balance into the vault.
///
/// A creator who cannot cover the stake is refused with `InsufficientFunds`
/// and nothing changes.
pub fn create_game(ctx: &mut CreateGame, bet_amount: u64) -> (r: Result<GameCreated, ErrorCode>)
    ensures
        match r {
            Ok(event) => {
                &&& old(ctx).error(bet_amount) is None
                &&& *final(ctx) == old(ctx).after(bet_amount)
                &&& event == (GameCreated { player1_address: old(ctx).player_one.key, bet: bet_amount })
            },
            Err(e) => {
                &&& old(ctx).error(bet_amount) == Some(e)
                &&& *final(ctx) == *old(ctx)
            },
        },
        old(ctx).player_one.lamports < bet_amount ==> r == Err::<GameCreated, ErrorCode>(
            ErrorCode::InsufficientFunds,
        ),
{
    let mut start = StartGame {
        global_state: ctx.global_state,
        game: ctx.game,
        player: ctx.player,
        signer: ctx.player_one,
        vault: ctx.vault,
    };
    match start_multiplayer_game(&mut start, bet_amount) {
        Err(e) => Err(e),
        Ok(event) => {
            ctx.global_state = start.global_state;
            ctx.game = start.game;
            ctx.player = start.player;
            ctx.player_one = start.signer;
            ctx.vault = start.vault;
            Ok(event)
        },
    }
}

/// Why joining a game fails, if it does.
///
/// A single-player game rejects every join with `InvalidOperation`, whoever
/// asks and whatever the stake. Otherwise the game must be active, the stake
/// must equal the game's bet, and the stake must be movable into the vault.
pub open spec fn join_game_error(game: Game, stake: u64, wallet: u64, vault: Vault) -> Option<
    ErrorCode,
> {
    if game.is_single_player {
        Some(ErrorCode::InvalidOperation)
    } else if !game.is_game_active {
        Some(ErrorCode::GameNotActive)
    } else if stake != game.bet_amount {
        Some(ErrorCode::BetMismatch)
    } else {
        deposit_error(vault, wallet, stake)
    }
}

impl JoinGame {
    /// Why the join fails, if it does. The stake offered is the `bet` of the
    /// joiner's escrow record.
    pub open spec fn error(self) -> Option<ErrorCode> {
        join_game_error(self.game, self.player.bet, self.signer.lamports, self.vault)
    }

    /// The records after the join succeeded: the joiner has the second seat,
    /// the escrow record belongs to the game, and the stake has moved from
    /// the joiner into the vault.
    pub open spec fn after(self) -> JoinGame {
        JoinGame {
            game: Game { player_two: Some(self.signer.key), ..self.game },
            player: Player { game_id: self.game.game_id, bet: self.player.bet },
            signer: Signer {
                key: self.signer.key,
                lamports: (self.signer.lamports - self.player.bet) as u64,
            },
            vault: Vault { balance: (self.vault.balance + self.player.bet) as u64 },
        }
    }
}

/// Seats the signer as the second participant of the game and moves the
/// stake that the signer's escrow record offers into the vault.
pub fn join_game(ctx: &mut JoinGame) -> (r: Result<PlayerJoined, ErrorCode>)
    ensures
        match r {
            Ok(event) => {
                &&& old(ctx).error() is None
                &&& *final(ctx) == old(ctx).after()
                &&& event == (PlayerJoined {
                    player2_address: old(ctx).signer.key,
                    game_id: old(ctx).game.game_id,
                })
            },
            Err(e) => {
                &&& old(ctx).error() == Some(e)
                &&& *final(ctx) == *old(ctx)
            },
        },
{
    if ctx.game.is_single_player {
        return Err(ErrorCode::InvalidOperation);
    }
    if !ctx.game.is_game_active {
        return Err(ErrorCode::GameNotActive);
    }
    if ctx.game.bet_amount != ctx.player.bet {
        return Err(ErrorCode::BetMismatch);
    }
    let mut lamports = ctx.signer.lamports;
    match ctx.vault.deposit(&mut lamports, ctx.player.bet) {
        Err(e) => Err(e),
        Ok(()) => {
            ctx.signer.lamports = lamports;
            ctx.game.player_two = Some(ctx.signer.key);
            ctx.player.game_id = ctx.game.game_id;
            Ok(PlayerJoined { player2_address: ctx.signer.key, game_id: ctx.game.game_id })
        },
    }
}

/// Settles the game: it stops being active, for good. Settling a game that
/// is already settled changes nothing. No winner is determined.
///
/// Fails with `GameNotFound` exactly when `game_id` is not the id of the
/// game in the context.
pub fn end_game(ctx: &mut EndGame, game_id: u64, final_bet: u64) -> (r: Result<
    GameEnded,
    ErrorCode,
>)
    ensures
        match r {
            Ok(event) => {
                &&& game_id == old(ctx).game.game_id
                &&& *final(ctx) == (EndGame {
                    game: Game { is_game_active: false, ..old(ctx).game },
                    ..*old(ctx)
                })
                &&& event == (GameEnded { game_id, winner_address: None, total_prize: final_bet })
            },
            Err(e) => {
                &&& e == ErrorCode::GameNotFound
                &&& game_id != old(ctx).game.game_id
                &&& *final(ctx) == *old(ctx)
            },
        },
{
    if ctx.game.game_id != game_id {
        return Err(ErrorCode::GameNotFound);
    }
    ctx.game.is_game_active = false;
    Ok(GameEnded { game_id, winner_address: None, total_prize: final_bet })
}

/// Why a withdrawal fails, if it does.
///
/// While the game is active every withdrawal fails with `GameStillActive`,
/// whatever the amount. After settlement the record must belong to the
/// game, the amount must not exceed what is locked for the player nor what
/// the vault holds, and it must fit into the payee's spendable balance.
pub open spec fn withdraw_error(game: Game, player: Player, vault: Vault, wallet: u64, amount: u64)
    -> Option<ErrorCode> {
    if game.is_game_active {
        Some(ErrorCode::GameStillActive)
    } else if player.game_id != game.game_id {
        Some(ErrorCode::PlayerNotFound)
    } else if amount > player.bet {
        Some(ErrorCode::InsufficientBalance)
    } else {
        release_error(vault, wallet, amount)
    }
}

impl WithdrawBet {
    /// Why the withdrawal fails, if it does.
    pub open spec fn error(self, amount: u64) -> Option<ErrorCode> {
        withdraw_error(self.game, self.player, self.vault, self.signer.lamports, amount)
    }

    /// The records after the withdrawal succeeded: the vault and the escrow
    /// record are both lower by the amount, and the payee's spendable balance
    /// is higher by it.
    pub open spec fn after(self, amount: u64) -> WithdrawBet {
        WithdrawBet {
            game: self.game,
            player: Player { game_id: self.player.game_id, bet: (self.player.bet - amount) as u64 },
            signer: Signer {
                key: self.signer.key,
                lamports: (self.signer.lamports + amount) as u64,
            },
            vault: Vault { balance: (self.vault.balance - amount) as u64 },
        }
    }
}

/// Pays `amount` of the signer's locked stake out of the vault. The vault,
/// the escrow record and the spendable balance change together or not at
/// all. While the game is active the withdrawal fails, whatever the amount.
pub fn withdraw_bet(ctx: &mut WithdrawBet, amount: u64) -> (r: Result<GameEnded, ErrorCode>)
    ensures
        match r {
            Ok(event) => {
                &&& old(ctx).error(amount) is None
                &&& *final(ctx) == old(ctx).after(amount)
                &&& event == (GameEnded {
                    game_id: old(ctx).game.game_id,
                    winner_address: Some(old(ctx).signer.key),
                    total_prize: amount,
                })
            },
            Err(e) => {
                &&& old(ctx).error(amount) == Some(e)
                &&& *final(ctx) == *old(ctx)
            },
        },
        old(ctx).game.is_game_active ==> r == Err::<GameEnded, ErrorCode>(
            ErrorCode::GameStillActive,
        ),
{
    if ctx.game.is_game_active {
        return Err(ErrorCode::GameStillActive);
    }
    if ctx.player.game_id != ctx.game.game_id {
        return Err(ErrorCode::PlayerNotFound);
    }
    if amount > ctx.player.bet {
        return Err(ErrorCode::InsufficientBalance);
    }
    let mut lamports = ctx.signer.lamports;
    match ctx.vault.release(&mut lamports, amount) {
        Err(e) => Err(e),
        Ok(()) => {
            ctx.signer.lamports = lamports;
            ctx.player.bet = ctx.player.bet - amount;
            Ok(
                GameEnded {
                    game_id: ctx.game.game_id,
                    winner_address: Some(ctx.signer.key),
                    total_prize: amount,
                },
            )
        },
    }
}

} // verus!
