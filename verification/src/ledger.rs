//! The escrow ledger: the global state, every game, every participant's
//! escrow record and the vault, kept consistent as one value.
//!
//! Each operation is one atomic step. It either succeeds and moves the
//! ledger to the state that the matching `after_*` function describes, or it
//! fails with the error that the matching `*_error` function names and
//! leaves the ledger and the caller's spendable balance as they were.

use vstd::prelude::*;
use crate::bytes32::Address;
use crate::error::ErrorCode;
use crate::escrow::{
    new_game, EndGame, Game, GameCreated, GameEnded, GlobalState, Initialize, JoinGame, Player,
    PlayerJoined, Signer, StartGame, Vault, WithdrawBet,
};
use crate::keyed::{
    has_key, keys_unique, lemma_selection_at_most_total, lemma_sum_over_bound, lemma_sum_over_le,
    lemma_sum_over_push, lemma_sum_over_remove, lemma_sum_over_update, lemma_to_map_at,
    lemma_to_map_has, lemma_to_map_push, lemma_to_map_remove, lemma_to_map_update, sum_over,
    to_map, weight_by_key,
};

verus! {

/// An escrow record together with the participant who owns it.
#[derive(Clone, Copy)]
struct PlayerAccount {
    owner: Address,
    record: Player,
}

/// The escrow ledger.
pub struct Ledger {
    global_state: Option<GlobalState>,
    games: Vec<Game>,
    players: Vec<PlayerAccount>,
    vault: Vault,
}

/// What a ledger holds: the global state once it exists, the games by id,
/// the escrow records by game id and owner, and the vault.
pub struct LedgerView {
    pub global_state: Option<GlobalState>,
    pub games: Map<u64, Game>,
    pub players: Map<(u64, Address), Player>,
    pub vault: Vault,
}

spec fn game_key() -> spec_fn(Game) -> u64 {
    |g: Game| g.game_id
}

spec fn player_key() -> spec_fn(PlayerAccount) -> (u64, Address) {
    |p: PlayerAccount| (p.record.game_id, p.owner)
}

spec fn record_of() -> spec_fn(PlayerAccount) -> Player {
    |p: PlayerAccount| p.record
}

/// Every escrow record belongs to one of the games.
spec fn records_have_games(games: Map<u64, Game>, players: Seq<PlayerAccount>) -> bool {
    forall|i: int|
        0 <= i < players.len() ==> games.dom().contains((#[trigger] players[i]).record.game_id)
}

/// What an escrow record locks.
spec fn locked_amount() -> spec_fn(PlayerAccount) -> nat {
    |p: PlayerAccount| p.record.bet as nat
}

impl LedgerView {
    /// What the escrow record under a key locks.
    pub open spec fn locked(self) -> spec_fn((u64, Address)) -> nat {
        |k: (u64, Address)| self.players[k].bet as nat
    }

    /// What the escrow record under a key locks in a game that is still
    /// active; nothing for a record of a settled game.
    pub open spec fn locked_while_active(self) -> spec_fn((u64, Address)) -> nat {
        |k: (u64, Address)|
            if self.games.dom().contains(k.0) && self.games[k.0].is_game_active {
                self.players[k].bet as nat
            } else {
                0
            }
    }

    /// Some escrow record still refers to the game.
    pub open spec fn has_escrow(self, game_id: u64) -> bool {
        exists|owner: Address| #[trigger] self.players.dom().contains((game_id, owner))
    }

    /// What holds of every ledger that the operations can reach: a game is
    /// filed under its own id, ids start at 1 and lie below the id counter,
    /// an escrow record is filed under its own game, that game is on the
    /// ledger, and no record locks more than the vault holds.
    pub open spec fn consistent(self) -> bool {
        &&& self.global_state is Some ==> self.next_game_id() >= 1
        &&& forall|id: u64| #[trigger]
            self.games.dom().contains(id) ==> {
                &&& self.games[id].game_id == id
                &&& self.global_state is Some
                &&& 1 <= id < self.next_game_id()
            }
        &&& forall|id: u64, owner: Address| #[trigger]
            self.players.dom().contains((id, owner)) ==> {
                &&& self.players[(id, owner)].game_id == id
                &&& self.games.dom().contains(id)
                &&& self.players[(id, owner)].bet <= self.vault.balance
            }
    }

    /// Initializing fails exactly when the global state already exists.
    pub open spec fn initialize_error(self) -> Option<ErrorCode> {
        if self.global_state is Some {
            Some(ErrorCode::AlreadyInitialized)
        } else {
            None
        }
    }

    /// After initializing, the global state exists: `admin` is its
    /// authority and the first game will get id 1.
    pub open spec fn after_initialize(self, admin: Address) -> LedgerView {
        LedgerView {
            global_state: Some(GlobalState { authority: admin, next_game_id: 1 }),
            ..self
        }
    }

    /// The id that the next successful `start_game` assigns.
    pub open spec fn next_game_id(self) -> u64 {
        self.global_state.unwrap().next_game_id
    }

    /// A start fails before the global state exists, when the stake is not
    /// covered by the bettor's spendable balance or does not fit into the
    /// vault, and when no fresh id is left.
    pub open spec fn start_game_error(self, wallet: u64, bet_amount: u64) -> Option<ErrorCode> {
        match self.global_state {
            None => Some(ErrorCode::NotInitialized),
            Some(global_state) => crate::escrow::start_game_error(
                global_state,
                wallet,
                self.vault,
                bet_amount,
            ),
        }
    }

    /// After a start, the new game is on the ledger under the id that the
    /// counter showed, the counter has moved on by one, the bettor's escrow
    /// record locks the stake, and the vault is higher by it.
    pub open spec fn after_start_game(self, bettor: Address, bet_amount: u64, single_player: bool)
        -> LedgerView {
        let id = self.next_game_id();
        LedgerView {
            global_state: Some(
                GlobalState {
                    authority: self.global_state.unwrap().authority,
                    next_game_id: (id + 1) as u64,
                },
            ),
            games: self.games.insert(id, new_game(id, bettor, bet_amount, single_player)),
            players: self.players.insert((id, bettor), Player { game_id: id, bet: bet_amount }),
            vault: Vault { balance: (self.vault.balance + bet_amount) as u64 },
        }
    }

    /// A join fails on an unknown game, on a single-player game (whoever
    /// asks and whatever the stake), on a settled game, on a stake other than
    /// the game's bet, for a participant who already holds an escrow record
    /// in the game, and when the stake cannot be moved into the vault.
    pub open spec fn join_game_error(self, wallet: u64, game_id: u64, joiner: Address, stake: u64)
        -> Option<ErrorCode> {
        if !self.games.dom().contains(game_id) {
            Some(ErrorCode::GameNotFound)
        } else if self.games[game_id].is_single_player {
            Some(ErrorCode::InvalidOperation)
        } else if !self.games[game_id].is_game_active {
            Some(ErrorCode::GameNotActive)
        } else if stake != self.games[game_id].bet_amount {
            Some(ErrorCode::BetMismatch)
        } else if self.players.dom().contains((game_id, joiner)) {
            Some(ErrorCode::InvalidOperation)
        } else {
            crate::escrow::deposit_error(self.vault, wallet, stake)
        }
    }

    /// After a join, the joiner has the second seat, the joiner's escrow
    /// record locks the stake, and the vault is higher by it.
    pub open spec fn after_join_game(self, game_id: u64, joiner: Address, stake: u64)
        -> LedgerView {
        LedgerView {
            games: self.games.insert(
                game_id,
                Game { player_two: Some(joiner), ..self.games[game_id] },
            ),
            players: self.players.insert((game_id, joiner), Player { game_id, bet: stake }),
            vault: Vault { balance: (self.vault.balance + stake) as u64 },
            ..self
        }
    }

    /// Settling fails exactly when the game is not on the ledger.
    pub open spec fn end_game_error(self, game_id: u64) -> Option<ErrorCode> {
        if !self.games.dom().contains(game_id) {
            Some(ErrorCode::GameNotFound)
        } else {
            None
        }
    }

    /// After settling, the game is no longer active. Nothing else changes.
    pub open spec fn after_end_game(self, game_id: u64) -> LedgerView {
        LedgerView {
            games: self.games.insert(
                game_id,
                Game { is_game_active: false, ..self.games[game_id] },
            ),
            ..self
        }
    }

    /// A withdrawal fails on an unknown game, on every active game whatever
    /// the amount, for a participant without an escrow record in the game,
    /// for an amount above what is locked, and when the amount does not fit
    /// into the payee's spendable balance.
    pub open spec fn withdraw_error(self, wallet: u64, game_id: u64, player: Address, amount: u64)
        -> Option<ErrorCode> {
        if !self.games.dom().contains(game_id) {
            Some(ErrorCode::GameNotFound)
        } else if self.games[game_id].is_game_active {
            Some(ErrorCode::GameStillActive)
        } else if !self.players.dom().contains((game_id, player)) {
            Some(ErrorCode::PlayerNotFound)
        } else if amount > self.players[(game_id, player)].bet {
            Some(ErrorCode::InsufficientBalance)
        } else if wallet + amount > u64::MAX {
            Some(ErrorCode::Overflow)
        } else {
            None
        }
    }

    /// After a withdrawal the vault and the escrow record are both lower by
    /// the amount. A record that reaches zero is reclaimed, and with the last
    /// record of a game the game itself.
    pub open spec fn after_withdraw(self, game_id: u64, player: Address, amount: u64)
        -> LedgerView {
        let key = (game_id, player);
        let left = (self.players[key].bet - amount) as u64;
        let players = if left == 0 {
            self.players.remove(key)
        } else {
            self.players.insert(key, Player { game_id, bet: left })
        };
        let remaining = LedgerView { players, ..self };
        LedgerView {
            games: if remaining.has_escrow(game_id) {
                self.games
            } else {
                self.games.remove(game_id)
            },
            players,
            vault: Vault { balance: (self.vault.balance - amount) as u64 },
            ..self
        }
    }
}

impl View for Ledger {
    type V = LedgerView;

    closed spec fn view(&self) -> LedgerView {
        LedgerView {
            global_state: self.global_state,
            games: to_map(self.games@, game_key()),
            players: to_map(self.players@, player_key()).map_values(record_of()),
            vault: self.vault,
        }
    }
}

impl Ledger {
    /// The ledger's invariant: ids and record keys are unique, every game id
    /// lies below the id counter, every escrow record belongs to a game on the
    /// ledger, and the vault holds exactly the sum of what is locked.
    pub closed spec fn wf(&self) -> bool {
        &&& keys_unique(self.games@, game_key())
        &&& keys_unique(self.players@, player_key())
        &&& forall|i: int|
            0 <= i < self.games@.len() ==> {
                &&& self.global_state is Some
                &&& 1 <= (#[trigger] self.games@[i]).game_id
                    < self.global_state.unwrap().next_game_id
            }
        &&& records_have_games(to_map(self.games@, game_key()), self.players@)
        &&& self.global_state is Some ==> self.global_state.unwrap().next_game_id >= 1
        &&& self.vault.balance == sum_over(self.players@, locked_amount())
    }

    proof fn lemma_player_entry(&self, i: int)
        requires
            self.wf(),
            0 <= i < self.players@.len(),
        ensures
            self@.players.dom().contains((self.players@[i].record.game_id, self.players@[i].owner)),
            self@.players[(self.players@[i].record.game_id, self.players@[i].owner)]
                == self.players@[i].record,
    {
        lemma_to_map_at(self.players@, player_key(), i);
    }

    /// No escrow record refers to a game that is without escrow.
    proof fn lemma_no_escrow_no_record(&self, game_id: u64)
        requires
            self.wf(),
            !self@.has_escrow(game_id),
        ensures
            forall|i: int|
                0 <= i < self.players@.len() ==> (#[trigger] self.players@[i]).record.game_id
                    != game_id,
    {
        assert forall|i: int| 0 <= i < self.players@.len() implies (#[trigger] self.players@[
            i
        ]).record.game_id != game_id by {
            self.lemma_player_entry(i);
        }
    }

    /// An empty ledger whose global state does not exist yet.
    pub fn new() -> (ledger: Ledger)
        ensures
            ledger.wf(),
            ledger@ == (LedgerView {
                global_state: None,
                games: Map::empty(),
                players: Map::empty(),
                vault: Vault { balance: 0 },
            }),
    {
        let ledger = Ledger {
            global_state: None,
            games: Vec::new(),
            players: Vec::new(),
            vault: Vault { balance: 0 },
        };
        assert(ledger@.games =~= Map::empty());
        assert(ledger@.players =~= Map::empty());
        ledger
    }

    /// The global state, once it exists.
    pub fn global_state(&self) -> (r: Option<GlobalState>)
        ensures
            r == self@.global_state,
    {
        self.global_state
    }

    /// What the vault holds.
    pub fn vault_balance(&self) -> (r: u64)
        ensures
            r == self@.vault.balance,
    {
        self.vault.balance
    }

    fn find_game(&self, game_id: u64) -> (r: Option<usize>)
        ensures
            match r {
                Some(i) => i < self.games@.len() && self.games@[i as int].game_id == game_id,
                None => !has_key(self.games@, game_key(), game_id),
            },
    {
        let mut i: usize = 0;
        while i < self.games.len()
            invariant
                i <= self.games@.len(),
                forall|j: int| 0 <= j < i ==> self.games@[j].game_id != game_id,
            decreases self.games@.len() - i,
        {
            if self.games[i].game_id == game_id {
                return Some(i);
            }
            i += 1;
        }
        None
    }

    fn find_player(&self, game_id: u64, owner: &Address) -> (r: Option<usize>)
        ensures
            match r {
                Some(i) => {
                    &&& i < self.players@.len()
                    &&& self.players@[i as int].record.game_id == game_id
                    &&& self.players@[i as int].owner == *owner
                },
                None => !has_key(self.players@, player_key(), (game_id, *owner)),
            },
    {
        let mut i: usize = 0;
        while i < self.players.len()
            invariant
                i <= self.players@.len(),
                forall|j: int|
                    0 <= j < i ==> !(self.players@[j].record.game_id == game_id
                        && self.players@[j].owner == *owner),
            decreases self.players@.len() - i,
        {
            if self.players[i].record.game_id == game_id && self.players[i].owner.same(owner) {
                return Some(i);
            }
            i += 1;
        }
        None
    }

    fn has_escrow_for(&self, game_id: u64) -> (r: bool)
        requires
            self.wf(),
        ensures
            r == self@.has_escrow(game_id),
    {
        let mut i: usize = 0;
        while i < self.players.len()
            invariant
                self.wf(),
                i <= self.players@.len(),
                forall|j: int| 0 <= j < i ==> self.players@[j].record.game_id != game_id,
            decreases self.players@.len() - i,
        {
            if self.players[i].record.game_id == game_id {
                proof {
                    self.lemma_player_entry(i as int);
                }
                return true;
            }
            i += 1;
        }
        proof {
            assert forall|owner: Address| !self@.players.dom().contains((game_id, owner)) by {
                if has_key(self.players@, player_key(), (game_id, owner)) {
                    lemma_to_map_has(self.players@, player_key(), (game_id, owner));
                }
            }
        }
        false
    }

    /// The game with the given id, if it is on the ledger.
    pub fn game(&self, game_id: u64) -> (r: Option<Game>)
        requires
            self.wf(),
        ensures
            r == if self@.games.dom().contains(game_id) {
                Some(self@.games[game_id])
            } else {
                None
            },
    {
        match self.find_game(game_id) {
            Some(i) => {
                proof {
                    lemma_to_map_at(self.games@, game_key(), i as int);
                }
                Some(self.games[i])
            },
            None => None,
        }
    }

    /// The escrow record of `owner` in the game, if there is one.
    pub fn player(&self, game_id: u64, owner: &Address) -> (r: Option<Player>)
        requires
            self.wf(),
        ensures
            r == if self@.players.dom().contains((game_id, *owner)) {
                Some(self@.players[(game_id, *owner)])
            } else {
                None
            },
    {
        match self.find_player(game_id, owner) {
            Some(i) => {
                proof {
                    self.lemma_player_entry(i as int);
                }
                Some(self.players[i].record)
            },
            None => None,
        }
    }

    /// Creates the global state with `admin` as its authority. The first
    /// game will get id 1.
    pub fn initialize(&mut self, admin: Address) -> (r: Result<(), ErrorCode>)
        requires
            old(self).wf(),
        ensures
            final(self).wf(),
            match r {
                Ok(()) => {
                    &&& old(self)@.initialize_error() is None
                    &&& final(self)@ == old(self)@.after_initialize(admin)
                },
                Err(e) => {
                    &&& old(self)@.initialize_error() == Some(e)
                    &&& final(self)@ == old(self)@
                },
            },
    {
        let mut ctx = Initialize {
            global_state: match self.global_state {
                Some(global_state) => global_state,
                None => GlobalState::blank(),
            },
            signer: Signer { key: admin, lamports: 0 },
        };
        match crate::escrow::initialize(&mut ctx) {
            Err(e) => Err(e),
            Ok(()) => {
                self.global_state = Some(ctx.global_state);
                Ok(())
            },
        }
    }

    /// Starts a game for `bettor`: assigns the next id, creates the game and
    /// the bettor's escrow record, and moves the stake from `wallet`, the
    /// bettor's spendable balance, into the vault. Returns the id together
    /// with the notification.
    pub fn start_game(
        &mut self,
        wallet: &mut u64,
        bettor: Address,
        bet_amount: u64,
        single_player: bool,
    ) -> (r: Result<(u64, GameCreated), ErrorCode>)
        requires
            old(self).wf(),
        ensures
            final(self).wf(),
            match r {
                Ok((game_id, event)) => {
                    &&& old(self)@.start_game_error(*old(wallet), bet_amount) is None
                    &&& final(self)@ == old(self)@.after_start_game(
                        bettor,
                        bet_amount,
                        single_player,
                    )
                    &&& game_id == old(self)@.next_game_id()
                    &&& event == (GameCreated { player1_address: bettor, bet: bet_amount })
                    &&& *final(wallet) == *old(wallet) - bet_amount
                },
                Err(e) => {
                    &&& old(self)@.start_game_error(*old(wallet), bet_amount) == Some(e)
                    &&& final(self)@ == old(self)@
                    &&& *final(wallet) == *old(wallet)
                },
            },
    {
        let global_state = match self.global_state {
            None => {
                return Err(ErrorCode::NotInitialized);
            },
            Some(global_state) => global_state,
        };
        let mut ctx = StartGame {
            global_state,
            game: Game::blank(),
            player: Player::blank(),
            signer: Signer { key: bettor, lamports: *wallet },
            vault: self.vault,
        };
        match crate::escrow::start_game(&mut ctx, bet_amount, single_player) {
            Err(e) => Err(e),
            Ok(event) => {
                let game = ctx.game;
                let record = ctx.player;
                let global_state = ctx.global_state;
                let vault = ctx.vault;
                *wallet = ctx.signer.lamports;
                let account = PlayerAccount { owner: bettor, record };
                proof {
                    let id = game.game_id;
                    assert(!has_key(self.games@, game_key(), id));
                    assert(!has_key(self.players@, player_key(), (id, bettor))) by {
                        if has_key(self.players@, player_key(), (id, bettor)) {
                            let i = choose|i: int|
                                0 <= i < self.players@.len() && #[trigger] player_key()(
                                    self.players@[i],
                                ) == (id, bettor);
                            assert(has_key(self.games@, game_key(), self.players@[i].record.game_id));
                        }
                    }
                    lemma_to_map_push(self.games@, game_key(), game);
                    lemma_to_map_push(self.players@, player_key(), account);
                    lemma_sum_over_push(self.players@, locked_amount(), account);
                }
                let ghost before = *self;
                self.global_state = Some(global_state);
                self.vault = vault;
                self.games.push(game);
                self.players.push(account);
                proof {
                    assert(self@.games =~= before@.after_start_game(
                        bettor,
                        bet_amount,
                        single_player,
                    ).games);
                    assert(self@.players =~= before@.after_start_game(
                        bettor,
                        bet_amount,
                        single_player,
                    ).players);
                }
                Ok((game.game_id, event))
            },
        }
    }
}

impl Ledger {
    /// Seats `joiner` as the second participant of a multiplayer game and
    /// locks the joiner's stake, taken from `wallet`.
    pub fn join_game(&mut self, wallet: &mut u64, game_id: u64, joiner: Address, stake: u64) -> (r:
        Result<PlayerJoined, ErrorCode>)
        requires
            old(self).wf(),
        ensures
            final(self).wf(),
            match r {
                Ok(event) => {
                    &&& old(self)@.join_game_error(*old(wallet), game_id, joiner, stake) is None
                    &&& final(self)@ == old(self)@.after_join_game(game_id, joiner, stake)
                    &&& event == (PlayerJoined { player2_address: joiner, game_id })
                    &&& *final(wallet) == *old(wallet) - stake
                },
                Err(e) => {
                    &&& old(self)@.join_game_error(*old(wallet), game_id, joiner, stake) == Some(e)
                    &&& final(self)@ == old(self)@
                    &&& *final(wallet) == *old(wallet)
                },
            },
    {
        let idx = match self.find_game(game_id) {
            None => {
                return Err(ErrorCode::GameNotFound);
            },
            Some(idx) => idx,
        };
        proof {
            lemma_to_map_at(self.games@, game_key(), idx as int);
        }
        let game = self.games[idx];
        if game.is_single_player {
            return Err(ErrorCode::InvalidOperation);
        }
        if !game.is_game_active {
            return Err(ErrorCode::GameNotActive);
        }
        if stake != game.bet_amount {
            return Err(ErrorCode::BetMismatch);
        }
        match self.find_player(game_id, &joiner) {
            Some(i) => {
                proof {
                    self.lemma_player_entry(i as int);
                }
                return Err(ErrorCode::InvalidOperation);
            },
            None => {},
        }
        let mut ctx = JoinGame {
            game,
            player: Player { game_id: 0, bet: stake },
            signer: Signer { key: joiner, lamports: *wallet },
            vault: self.vault,
        };
        match crate::escrow::join_game(&mut ctx) {
            Err(e) => Err(e),
            Ok(event) => {
                let game = ctx.game;
                let record = ctx.player;
                let vault = ctx.vault;
                *wallet = ctx.signer.lamports;
                let account = PlayerAccount { owner: joiner, record };
                let ghost before = *self;
                proof {
                    lemma_to_map_update(self.games@, game_key(), idx as int, game);
                    lemma_to_map_push(self.players@, player_key(), account);
                    lemma_sum_over_push(self.players@, locked_amount(), account);
                }
                self.vault = vault;
                self.games[idx] = game;
                self.players.push(account);
                proof {
                    let after = before@.after_join_game(game_id, joiner, stake);
                    assert(self.games@ =~= before.games@.update(idx as int, game));
                    assert(self@.games =~= after.games);
                    assert(self@.players =~= after.players);
                }
                Ok(event)
            },
        }
    }

    /// Settles a game: it stops being active and its escrow becomes
    /// withdrawable. Settling a settled game changes nothing. No winner is
    /// determined.
    pub fn end_game(&mut self, game_id: u64, final_bet: u64) -> (r: Result<GameEnded, ErrorCode>)
        requires
            old(self).wf(),
        ensures
            final(self).wf(),
            match r {
                Ok(event) => {
                    &&& old(self)@.end_game_error(game_id) is None
                    &&& final(self)@ == old(self)@.after_end_game(game_id)
                    &&& event == (GameEnded { game_id, winner_address: None, total_prize: final_bet })
                },
                Err(e) => {
                    &&& old(self)@.end_game_error(game_id) == Some(e)
                    &&& final(self)@ == old(self)@
                },
            },
    {
        let idx = match self.find_game(game_id) {
            None => {
                return Err(ErrorCode::GameNotFound);
            },
            Some(idx) => idx,
        };
        let mut ctx = EndGame {
            game: self.games[idx],
            player: Player::blank(),
            signer: Signer { key: self.games[idx].player_one, lamports: 0 },
        };
        match crate::escrow::end_game(&mut ctx, game_id, final_bet) {
            Err(e) => Err(e),
            Ok(event) => {
                let game = ctx.game;
                let ghost before = *self;
                proof {
                    lemma_to_map_at(self.games@, game_key(), idx as int);
                    lemma_to_map_update(self.games@, game_key(), idx as int, game);
                }
                self.games[idx] = game;
                proof {
                    assert(self.games@ =~= before.games@.update(idx as int, game));
                    assert(self@.games =~= before@.after_end_game(game_id).games);
                }
                Ok(event)
            },
        }
    }
}

impl Ledger {
    /// Pays `amount` of what is locked for `player` in a settled game into
    /// `wallet`, the player's spendable balance. Vault and escrow record go
    /// down together. A record that reaches zero is reclaimed, and with the
    /// last record of a game the game itself.
    ///
    /// While the game is active the withdrawal fails, whatever the amount.
    pub fn withdraw(&mut self, wallet: &mut u64, game_id: u64, player: Address, amount: u64) -> (r:
        Result<GameEnded, ErrorCode>)
        requires
            old(self).wf(),
        ensures
            final(self).wf(),
            match r {
                Ok(event) => {
                    &&& old(self)@.withdraw_error(*old(wallet), game_id, player, amount) is None
                    &&& final(self)@ == old(self)@.after_withdraw(game_id, player, amount)
                    &&& event == (GameEnded {
                        game_id,
                        winner_address: Some(player),
                        total_prize: amount,
                    })
                    &&& *final(wallet) == *old(wallet) + amount
                },
                Err(e) => {
                    &&& old(self)@.withdraw_error(*old(wallet), game_id, player, amount) == Some(e)
                    &&& final(self)@ == old(self)@
                    &&& *final(wallet) == *old(wallet)
                },
            },
            old(self)@.games.dom().contains(game_id) && old(self)@.games[game_id].is_game_active
                ==> r == Err::<GameEnded, ErrorCode>(ErrorCode::GameStillActive),
    {
        let game_idx = match self.find_game(game_id) {
            None => {
                return Err(ErrorCode::GameNotFound);
            },
            Some(idx) => idx,
        };
        proof {
            lemma_to_map_at(self.games@, game_key(), game_idx as int);
        }
        let game = self.games[game_idx];
        if game.is_game_active {
            return Err(ErrorCode::GameStillActive);
        }
        let idx = match self.find_player(game_id, &player) {
            None => {
                return Err(ErrorCode::PlayerNotFound);
            },
            Some(idx) => idx,
        };
        proof {
            self.lemma_player_entry(idx as int);
            lemma_sum_over_bound(self.players@, locked_amount(), idx as int);
        }
        let mut ctx = WithdrawBet {
            game,
            player: self.players[idx].record,
            signer: Signer { key: player, lamports: *wallet },
            vault: self.vault,
        };
        match crate::escrow::withdraw_bet(&mut ctx, amount) {
            Err(e) => Err(e),
            Ok(event) => {
                let record = ctx.player;
                let vault = ctx.vault;
                *wallet = ctx.signer.lamports;
                let ghost before = *self;
                let ghost after = before@.after_withdraw(game_id, player, amount);
                let account = PlayerAccount { owner: player, record };
                self.vault = vault;
                if record.bet == 0 {
                    proof {
                        lemma_to_map_remove(self.players@, player_key(), idx as int);
                        lemma_sum_over_remove(self.players@, locked_amount(), idx as int);
                    }
                    self.players.remove(idx);
                } else {
                    proof {
                        lemma_to_map_update(self.players@, player_key(), idx as int, account);
                        lemma_sum_over_update(self.players@, locked_amount(), idx as int, account);
                    }
                    self.players[idx] = account;
                    assert(self.players@ =~= before.players@.update(idx as int, account));
                }
                assert(self@.players =~= after.players);
                assert(self.games@ == before.games@);
                assert(self.wf());
                let ghost remaining = LedgerView { players: after.players, ..before@ };
                assert(self@.has_escrow(game_id) == remaining.has_escrow(game_id)) by {
                    assert(self@.players == remaining.players);
                    if self@.has_escrow(game_id) {
                        let owner = choose|owner: Address| #[trigger]
                            self@.players.dom().contains((game_id, owner));
                        assert(remaining.players.dom().contains((game_id, owner)));
                    }
                    if remaining.has_escrow(game_id) {
                        let owner = choose|owner: Address| #[trigger]
                            remaining.players.dom().contains((game_id, owner));
                        assert(self@.players.dom().contains((game_id, owner)));
                    }
                }
                if !self.has_escrow_for(game_id) {
                    let ghost mid = *self;
                    proof {
                        self.lemma_no_escrow_no_record(game_id);
                        lemma_to_map_remove(self.games@, game_key(), game_idx as int);
                    }
                    self.games.remove(game_idx);
                    proof {
                        assert(self@.games =~= after.games);
                        assert forall|i: int| 0 <= i < self.games@.len() implies {
                            &&& self.global_state is Some
                            &&& 1 <= (#[trigger] self.games@[i]).game_id
                                < self.global_state.unwrap().next_game_id
                        } by {
                            let i2 = if i < game_idx { i } else { i + 1 };
                            assert(self.games@[i] == mid.games@[i2]);
                        }
                    }
                } else {
                    assert(self@.games =~= after.games);
                }
                Ok(event)
            },
        }
    }
}

impl Ledger {
    /// A well-formed ledger is consistent.
    pub proof fn lemma_wf(&self)
        requires
            self.wf(),
        ensures
            self@.consistent(),
    {
        assert forall|id: u64| #[trigger] self@.games.dom().contains(id) implies {
            &&& self@.games[id].game_id == id
            &&& self@.global_state is Some
            &&& 1 <= id < self@.next_game_id()
        } by {
            lemma_to_map_has(self.games@, game_key(), id);
        }
        assert forall|id: u64, owner: Address| #[trigger]
            self@.players.dom().contains((id, owner)) implies {
            &&& self@.players[(id, owner)].game_id == id
            &&& self@.games.dom().contains(id)
            &&& self@.players[(id, owner)].bet <= self@.vault.balance
        } by {
            lemma_to_map_has(self.players@, player_key(), (id, owner));
            let i = crate::keyed::index_of(self.players@, player_key(), (id, owner));
            lemma_sum_over_bound(self.players@, locked_amount(), i);
            assert(has_key(self.games@, game_key(), self.players@[i].record.game_id));
        }
    }

    /// The vault covers what is locked: take any escrow records of a
    /// well-formed ledger, each once; the vault holds at least the sum of what
    /// they lock, and so at least the sum of what is locked in active games.
    pub proof fn lemma_vault_covers_locked(&self, keys: Seq<(u64, Address)>)
        requires
            self.wf(),
            keys.no_duplicates(),
            forall|i: int| 0 <= i < keys.len() ==> self@.players.dom().contains(#[trigger] keys[i]),
        ensures
            sum_over(keys, self@.locked_while_active()) <= sum_over(keys, self@.locked()),
            sum_over(keys, self@.locked()) <= self@.vault.balance,
    {
        let by_key = weight_by_key(self.players@, player_key(), locked_amount());
        lemma_selection_at_most_total(self.players@, player_key(), locked_amount(), keys);
        lemma_sum_over_le(keys, self@.locked(), by_key);
        lemma_sum_over_le(keys, self@.locked_while_active(), self@.locked());
    }
}

} // verus!
