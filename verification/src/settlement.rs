//! The settlement dispatcher: the third phase of an attempt, which turns the
//! outcome of the proof check into the settlement of a game.
//!
//! The proof system itself is not part of this library. The caller checks
//! the proof against the record's checked public inputs and hands the
//! outcome in; everything that follows from it is decided here.

use vstd::prelude::*;
use crate::bytes32::{Address, Bytes32};
use crate::error::ErrorCode;
use crate::escrow::{EndGame, Game, GameEnded};
use crate::ledger::{Ledger, LedgerView};
use crate::nullifiers::{any_spent, NullifierSet};
use crate::staged::{Stage, StagedVerifierState, VerifierStateView};

verus! {

/// How a third phase that got as far as the proof check ended.
#[derive(Clone, Copy, Debug, PartialEq, Eq)]
pub enum Verdict {
    /// The proof was accepted and the game settled.
    Verified(GameEnded),
    /// The proof was refused. Nothing was settled.
    Rejected,
}

/// Why an attempt is not admitted to settlement, if it is not.
///
/// Only the initiator may run the third phase, and only on an accumulated
/// record. With an accepted proof, a nullifier that is already spent fails
/// the phase with `NullifierReused`.
pub open spec fn admission_error(
    state: VerifierStateView,
    caller: Address,
    proof_valid: bool,
    spent: Set<Bytes32>,
) -> Option<ErrorCode> {
    if caller != state.initiator {
        Some(ErrorCode::Unauthorized)
    } else if !(state.stage is Accumulated) {
        Some(ErrorCode::InvalidOperation)
    } else if proof_valid && any_spent(spent, state.nullifiers) {
        Some(ErrorCode::NullifierReused)
    } else {
        None
    }
}

/// Why the third phase fails, if it does.
///
/// It fails where the attempt is not admitted. A refused proof is no error:
/// the attempt is rejected. With an accepted proof, a game that is not on
/// the ledger fails the phase with `GameNotFound`.
pub open spec fn phase3_error(
    state: VerifierStateView,
    caller: Address,
    proof_valid: bool,
    spent: Set<Bytes32>,
    ledger: LedgerView,
    game_id: u64,
) -> Option<ErrorCode> {
    if admission_error(state, caller, proof_valid, spent) is Some {
        admission_error(state, caller, proof_valid, spent)
    } else if !proof_valid {
        None
    } else {
        ledger.end_game_error(game_id)
    }
}

/// Why the third phase on the record of one game fails, if it does: as on
/// a ledger, where the game is not found exactly when the record is that of
/// another game.
pub open spec fn phase3_records_error(
    state: VerifierStateView,
    caller: Address,
    proof_valid: bool,
    spent: Set<Bytes32>,
    game: Game,
    game_id: u64,
) -> Option<ErrorCode> {
    if admission_error(state, caller, proof_valid, spent) is Some {
        admission_error(state, caller, proof_valid, spent)
    } else if !proof_valid {
        None
    } else if game.game_id != game_id {
        Some(ErrorCode::GameNotFound)
    } else {
        None
    }
}

/// The third phase settles: it does not fail and the proof was accepted.
pub open spec fn phase3_settles(
    state: VerifierStateView,
    caller: Address,
    proof_valid: bool,
    spent: Set<Bytes32>,
    ledger: LedgerView,
    game_id: u64,
) -> bool {
    proof_valid && phase3_error(state, caller, proof_valid, spent, ledger, game_id) is None
}

/// The record after the third phase: verified or rejected where the phase
/// does not fail, untouched where it does.
pub open spec fn state_after_phase3(
    state: VerifierStateView,
    caller: Address,
    proof_valid: bool,
    spent: Set<Bytes32>,
    ledger: LedgerView,
    game_id: u64,
) -> VerifierStateView {
    if phase3_error(state, caller, proof_valid, spent, ledger, game_id) is Some {
        state
    } else if proof_valid {
        state.at_stage(Stage::Verified)
    } else {
        state.at_stage(Stage::Rejected)
    }
}

/// The spent set after the third phase: extended by the record's nullifiers
/// where the phase settles, untouched otherwise.
pub open spec fn spent_after_phase3(
    state: VerifierStateView,
    caller: Address,
    proof_valid: bool,
    spent: Set<Bytes32>,
    ledger: LedgerView,
    game_id: u64,
) -> Set<Bytes32> {
    if phase3_settles(state, caller, proof_valid, spent, ledger, game_id) {
        spent.union(state.nullifiers.to_set())
    } else {
        spent
    }
}

/// The ledger after the third phase: the game is settled where the phase
/// settles; otherwise no game, escrow record or vault balance changes.
pub open spec fn ledger_after_phase3(
    state: VerifierStateView,
    caller: Address,
    proof_valid: bool,
    spent: Set<Bytes32>,
    ledger: LedgerView,
    game_id: u64,
) -> LedgerView {
    if phase3_settles(state, caller, proof_valid, spent, ledger, game_id) {
        ledger.after_end_game(game_id)
    } else {
        ledger
    }
}

/// Decides whether an attempt is admitted to settlement.
fn check_admission(
    state: &StagedVerifierState,
    spent: &NullifierSet,
    caller: &Address,
    proof_valid: bool,
) -> (r: Result<(), ErrorCode>)
    requires
        state.wf(),
    ensures
        match r {
            Ok(()) => admission_error(state@, *caller, proof_valid, spent@) is None,
            Err(e) => admission_error(state@, *caller, proof_valid, spent@) == Some(e),
        },
{
    if !caller.same(&state.initiator()) {
        return Err(ErrorCode::Unauthorized);
    }
    match state.stage() {
        Stage::Accumulated => {},
        _ => {
            return Err(ErrorCode::InvalidOperation);
        },
    }
    if proof_valid && spent.contains_any(state.nullifiers()) {
        return Err(ErrorCode::NullifierReused);
    }
    Ok(())
}

/// Phase 3: concludes a settlement attempt.
///
/// `proof_valid` is the outcome of checking the proof against the record's
/// checked public inputs. Where the proof was accepted, every nullifier of
/// the record is unspent and the game is on the ledger, the nullifiers are
/// spent, the game is settled and the record is verified, all in this one
/// step. Where the proof was refused the record is rejected and nothing
/// else changes. Where the phase fails nothing changes at all.
pub fn phase3_verify(
    state: &mut StagedVerifierState,
    spent: &mut NullifierSet,
    ledger: &mut Ledger,
    caller: &Address,
    proof_valid: bool,
    game_id: u64,
    final_bet: u64,
) -> (r: Result<Verdict, ErrorCode>)
    requires
        old(state).wf(),
        old(spent).wf(),
        old(ledger).wf(),
    ensures
        final(state).wf(),
        final(spent).wf(),
        final(ledger).wf(),
        final(state)@ == state_after_phase3(
            old(state)@,
            *caller,
            proof_valid,
            old(spent)@,
            old(ledger)@,
            game_id,
        ),
        final(spent)@ == spent_after_phase3(
            old(state)@,
            *caller,
            proof_valid,
            old(spent)@,
            old(ledger)@,
            game_id,
        ),
        final(ledger)@ == ledger_after_phase3(
            old(state)@,
            *caller,
            proof_valid,
            old(spent)@,
            old(ledger)@,
            game_id,
        ),
        match r {
            Ok(Verdict::Verified(event)) => {
                &&& phase3_settles(
                    old(state)@,
                    *caller,
                    proof_valid,
                    old(spent)@,
                    old(ledger)@,
                    game_id,
                )
                &&& event == (GameEnded { game_id, winner_address: None, total_prize: final_bet })
            },
            Ok(Verdict::Rejected) => {
                &&& !proof_valid
                &&& phase3_error(
                    old(state)@,
                    *caller,
                    proof_valid,
                    old(spent)@,
                    old(ledger)@,
                    game_id,
                ) is None
            },
            Err(e) => phase3_error(
                old(state)@,
                *caller,
                proof_valid,
                old(spent)@,
                old(ledger)@,
                game_id,
            ) == Some(e),
        },
{
    match check_admission(state, spent, caller, proof_valid) {
        Err(e) => {
            return Err(e);
        },
        Ok(()) => {},
    }
    if !proof_valid {
        state.conclude(false);
        return Ok(Verdict::Rejected);
    }
    match ledger.end_game(game_id, final_bet) {
        Err(e) => Err(e),
        Ok(event) => {
            spent.insert_all(state.nullifiers());
            state.conclude(true);
            Ok(Verdict::Verified(event))
        },
    }
}

/// Phase 3 on the record of one game: concludes a settlement attempt where
/// the game is at hand as a record and `spent` holds the nullifiers known to
/// be spent.
///
/// It decides as `phase3_verify` does. Where the proof was accepted, no
/// nullifier of the attempt is spent and the record is that of the game
/// named, the nullifiers are spent, the game is settled and the attempt is
/// verified, in one step. Where the proof was refused the attempt is
/// rejected and nothing else changes. Where the phase fails nothing changes
/// at all.
pub fn phase3_verify_records(
    state: &mut StagedVerifierState,
    spent: &mut NullifierSet,
    ctx: &mut EndGame,
    caller: &Address,
    proof_valid: bool,
    game_id: u64,
    final_bet: u64,
) -> (r: Result<Verdict, ErrorCode>)
    requires
        old(state).wf(),
        old(spent).wf(),
    ensures
        final(state).wf(),
        final(spent).wf(),
        match r {
            Ok(Verdict::Verified(event)) => {
                &&& proof_valid
                &&& phase3_records_error(
                    old(state)@,
                    *caller,
                    proof_valid,
                    old(spent)@,
                    old(ctx).game,
                    game_id,
                ) is None
                &&& final(state)@ == old(state)@.at_stage(Stage::Verified)
                &&& final(spent)@ == old(spent)@.union(old(state)@.nullifiers.to_set())
                &&& *final(ctx) == (EndGame {
                    game: Game { is_game_active: false, ..old(ctx).game },
                    ..*old(ctx)
                })
                &&& event == (GameEnded { game_id, winner_address: None, total_prize: final_bet })
            },
            Ok(Verdict::Rejected) => {
                &&& !proof_valid
                &&& phase3_records_error(
                    old(state)@,
                    *caller,
                    proof_valid,
                    old(spent)@,
                    old(ctx).game,
                    game_id,
                ) is None
                &&& final(state)@ == old(state)@.at_stage(Stage::Rejected)
                &&& final(spent)@ == old(spent)@
                &&& *final(ctx) == *old(ctx)
            },
            Err(e) => {
                &&& phase3_records_error(
                    old(state)@,
                    *caller,
                    proof_valid,
                    old(spent)@,
                    old(ctx).game,
                    game_id,
                ) == Some(e)
                &&& final(state)@ == old(state)@
                &&& final(spent)@ == old(spent)@
                &&& *final(ctx) == *old(ctx)
            },
        },
{
    match check_admission(state, spent, caller, proof_valid) {
        Err(e) => {
            return Err(e);
        },
        Ok(()) => {},
    }
    if !proof_valid {
        state.conclude(false);
        return Ok(Verdict::Rejected);
    }
    match crate::escrow::end_game(ctx, game_id, final_bet) {
        Err(e) => Err(e),
        Ok(event) => {
            spent.insert_all(state.nullifiers());
            state.conclude(true);
            Ok(Verdict::Verified(event))
        },
    }
}

/// The spent set only grows: whatever the third phase is given, every
/// nullifier that was spent before it is spent after it.
pub proof fn lemma_spent_set_only_grows(
    state: VerifierStateView,
    caller: Address,
    proof_valid: bool,
    spent: Set<Bytes32>,
    ledger: LedgerView,
    game_id: u64,
)
    ensures
        spent.subset_of(spent_after_phase3(state, caller, proof_valid, spent, ledger, game_id)),
{
}

/// A nullifier settles at most once.
///
/// Let an attempt that presents the nullifier `n` settle. Then `n` is spent
/// afterwards, and in every later spent set, which can only have grown, the
/// third phase of any attempt that presents `n` again, run by its initiator
/// on an accumulated record, never settles: with an accepted proof it fails
/// with `NullifierReused` and leaves record and spent set as they were, and
/// with a refused proof it rejects the attempt. Either way no game, escrow
/// record or vault balance changes.
pub proof fn lemma_nullifier_settles_once(
    n: Bytes32,
    first: VerifierStateView,
    first_caller: Address,
    first_spent: Set<Bytes32>,
    first_ledger: LedgerView,
    first_game: u64,
    later: VerifierStateView,
    later_proof_valid: bool,
    later_spent: Set<Bytes32>,
    later_ledger: LedgerView,
    later_game: u64,
)
    requires
        first.nullifiers.contains(n),
        phase3_settles(first, first_caller, true, first_spent, first_ledger, first_game),
        spent_after_phase3(
            first,
            first_caller,
            true,
            first_spent,
            first_ledger,
            first_game,
        ).subset_of(later_spent),
        later.nullifiers.contains(n),
        later.stage is Accumulated,
    ensures
        later_spent.contains(n),
        !phase3_settles(
            later,
            later.initiator,
            later_proof_valid,
            later_spent,
            later_ledger,
            later_game,
        ),
        later_proof_valid ==> phase3_error(
            later,
            later.initiator,
            later_proof_valid,
            later_spent,
            later_ledger,
            later_game,
        ) == Some(ErrorCode::NullifierReused),
        later_proof_valid ==> state_after_phase3(
            later,
            later.initiator,
            later_proof_valid,
            later_spent,
            later_ledger,
            later_game,
        ) == later,
        spent_after_phase3(
            later,
            later.initiator,
            later_proof_valid,
            later_spent,
            later_ledger,
            later_game,
        ) == later_spent,
        ledger_after_phase3(
            later,
            later.initiator,
            later_proof_valid,
            later_spent,
            later_ledger,
            later_game,
        ) == later_ledger,
{
    let after_first = spent_after_phase3(
        first,
        first_caller,
        true,
        first_spent,
        first_ledger,
        first_game,
    );
    assert(first.nullifiers.to_set().contains(n));
    assert(after_first.contains(n));
    let i = choose|i: int| 0 <= i < later.nullifiers.len() && later.nullifiers[i] == n;
    assert(later_spent.contains(later.nullifiers[i]));
    assert(any_spent(later_spent, later.nullifiers));
}

/// The proof of an attempt is never checked against a record that is not
/// fully populated: on every record that is not accumulated, an opened one
/// above all, the third phase fails, whatever the outcome handed in, and
/// changes nothing.
pub proof fn lemma_phase3_needs_accumulated_record(
    state: VerifierStateView,
    caller: Address,
    proof_valid: bool,
    spent: Set<Bytes32>,
    ledger: LedgerView,
    game_id: u64,
)
    requires
        !(state.stage is Accumulated),
    ensures
        phase3_error(state, caller, proof_valid, spent, ledger, game_id) is Some,
        caller == state.initiator ==> phase3_error(
            state,
            caller,
            proof_valid,
            spent,
            ledger,
            game_id,
        ) == Some(ErrorCode::InvalidOperation),
        state_after_phase3(state, caller, proof_valid, spent, ledger, game_id) == state,
        spent_after_phase3(state, caller, proof_valid, spent, ledger, game_id) == spent,
        ledger_after_phase3(state, caller, proof_valid, spent, ledger, game_id) == ledger,
{
}

/// Where the third phase does not fail, the record was fully populated.
pub proof fn lemma_phase3_runs_on_populated_record(
    state: VerifierStateView,
    caller: Address,
    proof_valid: bool,
    spent: Set<Bytes32>,
    ledger: LedgerView,
    game_id: u64,
)
    requires
        state.wf(),
        phase3_error(state, caller, proof_valid, spent, ledger, game_id) is None,
    ensures
        state.stage is Accumulated,
        state.fully_populated(),
{
}

/// The steps that a stage may take: an attempt stays where it is, gathers
/// its inputs, is verified or rejected once they are all in place, and is
/// closed from there; an attempt that is not verified yet may also be
/// abandoned. Nothing leads out of `Closed`.
pub open spec fn stage_may_follow(from: Stage, to: Stage) -> bool {
    ||| to == from
    ||| from is Opened && (to is Accumulated || to is Closed)
    ||| from is Accumulated && (to is Verified || to is Rejected || to is Closed)
    ||| (from is Verified || from is Rejected) && to is Closed
}

/// Every operation on a record moves its stage along the steps that
/// `stage_may_follow` allows, whatever its arguments: accumulating, the
/// third phase, closing and abandoning.
pub proof fn lemma_stages_follow_the_machine(
    state: VerifierStateView,
    caller: Address,
    payload: Seq<u8>,
    proof_valid: bool,
    spent: Set<Bytes32>,
    ledger: LedgerView,
    game_id: u64,
)
    requires
        state.wf(),
    ensures
        state.accumulate_error(caller, payload) is None ==> stage_may_follow(
            state.stage,
            state.after_accumulate(payload).stage,
        ),
        stage_may_follow(
            state.stage,
            state_after_phase3(state, caller, proof_valid, spent, ledger, game_id).stage,
        ),
        state.close_error(caller) is None ==> stage_may_follow(state.stage, Stage::Closed),
        state.abort_error(caller) is None ==> stage_may_follow(state.stage, Stage::Closed),
        state.stage is Closed ==> {
            &&& state.accumulate_error(caller, payload) is Some
            &&& phase3_error(state, caller, proof_valid, spent, ledger, game_id) is Some
            &&& state.close_error(caller) is Some
            &&& state.abort_error(caller) is Some
            &&& state.request_error(caller) is Some
        },
{
}

} // verus!
