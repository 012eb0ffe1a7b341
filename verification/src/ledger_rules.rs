//! What holds of the ledger over whole histories: any sequence of
//! operations, each applied as one atomic step.

use vstd::prelude::*;
use crate::bytes32::Address;
use crate::error::ErrorCode;
use crate::escrow::CreateGame;
use crate::ledger::LedgerView;

verus! {

/// One call of a ledger operation with its arguments. `wallet` is the
/// caller's spendable balance at the time of the call.
pub enum LedgerOp {
    Initialize { admin: Address },
    /// The start of a game of either kind. Creating a game is the start of a
    /// multiplayer game.
    StartGame { wallet: u64, bettor: Address, bet_amount: u64, single_player: bool },
    JoinGame { wallet: u64, game_id: u64, joiner: Address, stake: u64 },
    EndGame { game_id: u64 },
    Withdraw { wallet: u64, game_id: u64, player: Address, amount: u64 },
}

impl LedgerView {
    /// The error with which the operation is rejected in this state, if it is.
    pub open spec fn error_of(self, op: LedgerOp) -> Option<ErrorCode> {
        match op {
            LedgerOp::Initialize { .. } => self.initialize_error(),
            LedgerOp::StartGame { wallet, bet_amount, .. } => self.start_game_error(
                wallet,
                bet_amount,
            ),
            LedgerOp::JoinGame { wallet, game_id, joiner, stake } => self.join_game_error(
                wallet,
                game_id,
                joiner,
                stake,
            ),
            LedgerOp::EndGame { game_id } => self.end_game_error(game_id),
            LedgerOp::Withdraw { wallet, game_id, player, amount } => self.withdraw_error(
                wallet,
                game_id,
                player,
                amount,
            ),
        }
    }

    /// The state after the operation: unchanged where it is rejected.
    pub open spec fn step(self, op: LedgerOp) -> LedgerView {
        if self.error_of(op) is Some {
            self
        } else {
            match op {
                LedgerOp::Initialize { admin } => self.after_initialize(admin),
                LedgerOp::StartGame { bettor, bet_amount, single_player, .. } => self.after_start_game(
                    bettor,
                    bet_amount,
                    single_player,
                ),
                LedgerOp::JoinGame { game_id, joiner, stake, .. } => self.after_join_game(
                    game_id,
                    joiner,
                    stake,
                ),
                LedgerOp::EndGame { game_id } => self.after_end_game(game_id),
                LedgerOp::Withdraw { game_id, player, amount, .. } => self.after_withdraw(
                    game_id,
                    player,
                    amount,
                ),
            }
        }
    }

    /// The state after the operations of `ops`, applied in order.
    pub open spec fn run(self, ops: Seq<LedgerOp>) -> LedgerView
        decreases ops.len(),
    {
        if ops.len() == 0 {
            self
        } else {
            self.run(ops.drop_last()).step(ops.last())
        }
    }

    /// The id that the operation assigns in this state: that of the new game
    /// where a `StartGame` succeeds, none otherwise.
    pub open spec fn assigned_id(self, op: LedgerOp) -> Option<u64> {
        match op {
            LedgerOp::StartGame { wallet, bet_amount, .. } => if self.start_game_error(
                wallet,
                bet_amount,
            ) is None {
                Some(self.next_game_id())
            } else {
                None
            },
            _ => None,
        }
    }

    /// How many of the operations of `ops`, applied in order from this
    /// state, are starts that succeed.
    pub open spec fn starts_that_succeed(self, ops: Seq<LedgerOp>) -> nat
        decreases ops.len(),
    {
        if ops.len() == 0 {
            0
        } else {
            let earlier = self.starts_that_succeed(ops.drop_last());
            if self.run(ops.drop_last()).assigned_id(ops.last()) is Some {
                earlier + 1
            } else {
                earlier
            }
        }
    }

    /// The id counter, read as 0 while the global state does not exist.
    pub open spec fn id_counter(self) -> int {
        match self.global_state {
            None => 0,
            Some(global_state) => global_state.next_game_id as int,
        }
    }
}

/// No operation lowers the id counter, and a successful start raises it
/// above the id that it assigned.
pub proof fn lemma_step_id_counter(v: LedgerView, op: LedgerOp)
    ensures
        v.id_counter() <= v.step(op).id_counter(),
        v.assigned_id(op) matches Some(id) ==> id == v.id_counter() && v.step(op).id_counter() == id
            + 1,
{
}

/// Running a longer prefix of a history never lowers the id counter.
pub proof fn lemma_run_id_counter(v: LedgerView, ops: Seq<LedgerOp>, i: int, j: int)
    requires
        0 <= i <= j <= ops.len(),
    ensures
        v.run(ops.take(i)).id_counter() <= v.run(ops.take(j)).id_counter(),
    decreases j - i,
{
    if i < j {
        lemma_run_id_counter(v, ops, i, j - 1);
        assert(ops.take(j).drop_last() =~= ops.take(j - 1));
        lemma_step_id_counter(v.run(ops.take(j - 1)), ops[j - 1]);
    }
}

/// Game ids are handed out in strictly increasing order and so never
/// repeat: in any history of ledger operations from any state, whichever
/// operations lie in between, a start that succeeds later assigns a larger
/// id than one that succeeded earlier.
pub proof fn lemma_game_ids_strictly_increase(v: LedgerView, ops: Seq<LedgerOp>, i: int, j: int)
    requires
        0 <= i < j < ops.len(),
        v.run(ops.take(i)).assigned_id(ops[i]) is Some,
        v.run(ops.take(j)).assigned_id(ops[j]) is Some,
    ensures
        v.run(ops.take(i)).assigned_id(ops[i]).unwrap() < v.run(ops.take(j)).assigned_id(
            ops[j],
        ).unwrap(),
{
    let before_i = v.run(ops.take(i));
    lemma_step_id_counter(before_i, ops[i]);
    assert(ops.take(i + 1).drop_last() =~= ops.take(i));
    lemma_run_id_counter(v, ops, i + 1, j);
    lemma_step_id_counter(v.run(ops.take(j)), ops[j]);
}

/// The id counter counts the starts that succeeded: in any history of
/// operations on a ledger whose global state exists, the counter has moved
/// on by exactly the number of starts that succeeded. Operations that fail,
/// and operations other than starts, use up no id.
pub proof fn lemma_ids_count_the_starts(v: LedgerView, ops: Seq<LedgerOp>)
    requires
        v.global_state is Some,
    ensures
        v.run(ops).global_state is Some,
        v.run(ops).id_counter() == v.id_counter() + v.starts_that_succeed(ops),
    decreases ops.len(),
{
    if ops.len() > 0 {
        lemma_ids_count_the_starts(v, ops.drop_last());
        lemma_step_id_counter(v.run(ops.drop_last()), ops.last());
    }
}

/// Ids are handed out as 1, 2, 3 and so on, without gaps and without
/// repeats: on a ledger that has just been initialized, after any history
/// in which exactly `k` starts succeeded, whatever failed or happened in
/// between, the next start or creation that succeeds gives its game the id
/// `k + 1` and leaves the counter at `k + 2`.
pub proof fn lemma_next_id_is_the_count(
    v: LedgerView,
    admin: Address,
    ops: Seq<LedgerOp>,
    wallet: u64,
    bettor: Address,
    bet_amount: u64,
    single_player: bool,
)
    requires
        v.initialize_error() is None,
        v.after_initialize(admin).run(ops).start_game_error(wallet, bet_amount) is None,
    ensures
        ({
            let fresh = v.after_initialize(admin);
            let k = fresh.starts_that_succeed(ops);
            let before = fresh.run(ops);
            &&& before.next_game_id() == k + 1
            &&& before.after_start_game(bettor, bet_amount, single_player).games[(k + 1) as u64]
                == crate::escrow::new_game((k + 1) as u64, bettor, bet_amount, single_player)
            &&& before.after_start_game(bettor, bet_amount, single_player).next_game_id() == k + 2
        }),
{
    lemma_ids_count_the_starts(v.after_initialize(admin), ops);
}

/// Creating a game is the ledger's start of a multiplayer game: on records
/// that show the ledger's global state and vault, `create_game` fails
/// exactly where that start fails, with the same error, and where it
/// succeeds it leaves the records that the start puts on the ledger. So
/// what holds of starts in a history holds of creations too.
pub proof fn lemma_creating_is_a_multiplayer_start(v: LedgerView, ctx: CreateGame, bet_amount: u64)
    requires
        v.global_state == Some(ctx.global_state),
        v.vault == ctx.vault,
    ensures
        ctx.error(bet_amount) == v.start_game_error(ctx.player_one.lamports, bet_amount),
        ctx.error(bet_amount) is None ==> ({
            let id = v.next_game_id();
            let creator = ctx.player_one.key;
            let started = v.after_start_game(creator, bet_amount, false);
            let created = ctx.after(bet_amount);
            &&& created.game.game_id == id
            &&& started.global_state == Some(created.global_state)
            &&& started.games[id] == created.game
            &&& started.players[(id, creator)] == created.player
            &&& started.vault == created.vault
        }),
{
}

/// A settled game is never active again: whatever operation is applied to a
/// consistent ledger, a game that was settled before and is still on the
/// ledger afterwards is still settled.
pub proof fn lemma_settled_stays_settled(v: LedgerView, op: LedgerOp, game_id: u64)
    requires
        v.consistent(),
        v.games.dom().contains(game_id),
        !v.games[game_id].is_game_active,
        v.step(op).games.dom().contains(game_id),
    ensures
        !v.step(op).games[game_id].is_game_active,
{
}

/// What is locked for a participant is never raised: whatever operation is
/// applied to a consistent ledger, an escrow record that existed before and
/// still exists afterwards locks at most what it locked before, and only a
/// withdrawal lowers it.
pub proof fn lemma_lock_never_raised(v: LedgerView, op: LedgerOp, game_id: u64, owner: Address)
    requires
        v.consistent(),
        v.players.dom().contains((game_id, owner)),
        v.step(op).players.dom().contains((game_id, owner)),
    ensures
        v.step(op).players[(game_id, owner)].bet <= v.players[(game_id, owner)].bet,
        !(op is Withdraw) ==> v.step(op).players[(game_id, owner)] == v.players[(game_id, owner)],
{
}

/// While a game is active nothing can be withdrawn from it: every
/// withdrawal is rejected with `GameStillActive`, for every participant and
/// amount, and changes nothing.
pub proof fn lemma_no_withdrawal_from_active_game(
    v: LedgerView,
    wallet: u64,
    game_id: u64,
    player: Address,
    amount: u64,
)
    requires
        v.games.dom().contains(game_id),
        v.games[game_id].is_game_active,
    ensures
        v.withdraw_error(wallet, game_id, player, amount) == Some(ErrorCode::GameStillActive),
        v.step(LedgerOp::Withdraw { wallet, game_id, player, amount }) == v,
{
}

/// A single-player game cannot be joined: every join is rejected with
/// `InvalidOperation`, whoever asks and whatever the stake.
pub proof fn lemma_single_player_game_rejects_join(
    v: LedgerView,
    wallet: u64,
    game_id: u64,
    joiner: Address,
    stake: u64,
)
    requires
        v.games.dom().contains(game_id),
        v.games[game_id].is_single_player,
    ensures
        v.join_game_error(wallet, game_id, joiner, stake) == Some(ErrorCode::InvalidOperation),
{
}

} // verus!
