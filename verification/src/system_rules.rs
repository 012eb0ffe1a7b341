//! What holds of ledger and pipeline together over whole histories: any
//! sequence of ledger operations and pipeline phases, of any number of
//! attempts, interleaved in any order, each applied as one atomic step.

use vstd::prelude::*;
use crate::bytes32::{Address, Bytes32};
use crate::error::ErrorCode;
use crate::ledger::LedgerView;
use crate::ledger_rules::{lemma_step_id_counter, LedgerOp};
use crate::pipeline::PipelineView;

verus! {

/// The pipeline and the ledger that it settles on.
pub struct SystemView {
    pub pipeline: PipelineView,
    pub ledger: LedgerView,
}

/// One call of a ledger operation or of a pipeline phase, with its
/// arguments.
pub enum SystemOp {
    Ledger { op: LedgerOp },
    Open {
        derived: Option<Bytes32>,
        tag: Bytes32,
        initiator: Address,
        tx_hash: Bytes32,
        payload: Seq<u8>,
    },
    Accumulate { record: Bytes32, caller: Address, payload: Seq<u8> },
    Verify { record: Bytes32, caller: Address, proof_valid: bool, game_id: u64 },
    Close { record: Bytes32, caller: Address },
    Abort { record: Bytes32, caller: Address },
}

impl SystemView {
    /// The error with which the call is rejected in this state, if it is.
    pub open spec fn error_of(self, op: SystemOp) -> Option<ErrorCode> {
        match op {
            SystemOp::Ledger { op } => self.ledger.error_of(op),
            SystemOp::Open { derived, payload, .. } => self.pipeline.open_error(derived, payload),
            SystemOp::Accumulate { record, caller, payload } => self.pipeline.accumulate_error(
                record,
                caller,
                payload,
            ),
            SystemOp::Verify { record, caller, proof_valid, game_id } => self.pipeline.verify_error(
                self.ledger,
                record,
                caller,
                proof_valid,
                game_id,
            ),
            SystemOp::Close { record, caller } => self.pipeline.close_error(record, caller),
            SystemOp::Abort { record, caller } => self.pipeline.abort_error(record, caller),
        }
    }

    /// The state after the call: unchanged where it is rejected.
    pub open spec fn step(self, op: SystemOp) -> SystemView {
        if self.error_of(op) is Some {
            self
        } else {
            match op {
                SystemOp::Ledger { op } => SystemView { ledger: self.ledger.step(op), ..self },
                SystemOp::Open { derived, tag, initiator, tx_hash, payload } => SystemView {
                    pipeline: self.pipeline.after_open(
                        derived.unwrap(),
                        tag,
                        initiator,
                        tx_hash,
                        payload,
                    ),
                    ..self
                },
                SystemOp::Accumulate { record, payload, .. } => SystemView {
                    pipeline: self.pipeline.after_accumulate(record, payload),
                    ..self
                },
                SystemOp::Verify { record, caller, proof_valid, game_id } => SystemView {
                    pipeline: self.pipeline.after_verify(
                        self.ledger,
                        record,
                        caller,
                        proof_valid,
                        game_id,
                    ),
                    ledger: self.pipeline.ledger_after_verify(
                        self.ledger,
                        record,
                        caller,
                        proof_valid,
                        game_id,
                    ),
                },
                SystemOp::Close { record, .. } => SystemView {
                    pipeline: self.pipeline.after_release(record),
                    ..self
                },
                SystemOp::Abort { record, .. } => SystemView {
                    pipeline: self.pipeline.after_release(record),
                    ..self
                },
            }
        }
    }

    /// The state after the calls of `ops`, applied in order.
    pub open spec fn run(self, ops: Seq<SystemOp>) -> SystemView
        decreases ops.len(),
    {
        if ops.len() == 0 {
            self
        } else {
            self.run(ops.drop_last()).step(ops.last())
        }
    }

    /// The call is a third phase on an attempt that presents the nullifier.
    pub open spec fn presents(self, op: SystemOp, nullifier: Bytes32) -> bool {
        op matches SystemOp::Verify { record, .. } && self.pipeline.attempts.dom().contains(record)
            && self.pipeline.attempts[record].nullifiers.contains(nullifier)
    }

    /// The call is a third phase that settles in this state.
    pub open spec fn settles(self, op: SystemOp) -> bool {
        op matches SystemOp::Verify { record, caller, proof_valid, game_id }
            && self.pipeline.verify_settles(self.ledger, record, caller, proof_valid, game_id)
    }

    /// The id that the call assigns in this state: that of the new game
    /// where it is a start that succeeds, none otherwise.
    pub open spec fn assigned_id(self, op: SystemOp) -> Option<u64> {
        match op {
            SystemOp::Ledger { op } => self.ledger.assigned_id(op),
            _ => None,
        }
    }
}

/// The first `n + 1` calls of a history are its first `n` calls and one
/// more step.
pub proof fn lemma_run_take(sys: SystemView, ops: Seq<SystemOp>, n: int)
    requires
        0 <= n < ops.len(),
    ensures
        sys.run(ops.take(n + 1)) == sys.run(ops.take(n)).step(ops[n]),
{
    assert(ops.take(n + 1).drop_last() =~= ops.take(n));
    assert(ops.take(n + 1).last() == ops[n]);
}

/// No call takes a nullifier out of the spent set or lowers the id counter,
/// and a call that settles spends every nullifier that its attempt
/// presents.
pub proof fn lemma_step_monotone(sys: SystemView, op: SystemOp)
    ensures
        sys.pipeline.spent.subset_of(sys.step(op).pipeline.spent),
        sys.ledger.id_counter() <= sys.step(op).ledger.id_counter(),
        forall|n: Bytes32|
            sys.settles(op) && sys.presents(op, n) ==> sys.step(op).pipeline.spent.contains(n),
        sys.assigned_id(op) matches Some(id) ==> id == sys.ledger.id_counter() && sys.step(
            op,
        ).ledger.id_counter() == id + 1,
{
    match op {
        SystemOp::Ledger { op: ledger_op } => {
            lemma_step_id_counter(sys.ledger, ledger_op);
        },
        SystemOp::Verify { record, .. } => {
            if sys.settles(op) {
                let state = sys.pipeline.attempts[record];
                assert forall|n: Bytes32| sys.presents(op, n) implies sys.step(
                    op,
                ).pipeline.spent.contains(n) by {
                    assert(state.nullifiers.to_set().contains(n));
                }
            }
        },
        _ => {},
    }
}

/// The pipeline moves no funds: no phase of any attempt changes the vault,
/// an escrow record or the global state. Only a third phase that settles
/// touches the ledger at all, and it does no more than settle its game.
pub proof fn lemma_pipeline_moves_no_funds(sys: SystemView, op: SystemOp)
    requires
        !(op is Ledger),
    ensures
        sys.step(op).ledger.vault == sys.ledger.vault,
        sys.step(op).ledger.players == sys.ledger.players,
        sys.step(op).ledger.global_state == sys.ledger.global_state,
        !sys.settles(op) ==> sys.step(op).ledger == sys.ledger,
        sys.settles(op) ==> sys.step(op).ledger == sys.ledger.after_end_game(op->game_id),
{
}

/// Along a history the spent set only grows and the id counter never
/// falls.
pub proof fn lemma_run_monotone(sys: SystemView, ops: Seq<SystemOp>, i: int, j: int)
    requires
        0 <= i <= j <= ops.len(),
    ensures
        sys.run(ops.take(i)).pipeline.spent.subset_of(sys.run(ops.take(j)).pipeline.spent),
        sys.run(ops.take(i)).ledger.id_counter() <= sys.run(ops.take(j)).ledger.id_counter(),
    decreases j - i,
{
    if i < j {
        lemma_run_monotone(sys, ops, i, j - 1);
        lemma_run_take(sys, ops, j - 1);
        lemma_step_monotone(sys.run(ops.take(j - 1)), ops[j - 1]);
    }
}

/// A nullifier settles at most once in any history.
///
/// Let call `i` of a history be a third phase that settles for an attempt
/// presenting the nullifier `n`, and let a later call `j` be a third phase
/// for an attempt that presents `n` again. Then call `j` does not settle and
/// changes no game, no escrow record, no vault balance and no spent
/// nullifier, whatever happened in between and whichever attempt, game and
/// caller it names. Where it is made by the attempt's initiator on an
/// accumulated record with an accepted proof, it fails with
/// `NullifierReused` and leaves the record as it was too.
pub proof fn lemma_nullifier_settles_once(
    sys: SystemView,
    ops: Seq<SystemOp>,
    i: int,
    j: int,
    n: Bytes32,
)
    requires
        0 <= i < j < ops.len(),
        sys.run(ops.take(i)).settles(ops[i]),
        sys.run(ops.take(i)).presents(ops[i], n),
        sys.run(ops.take(j)).presents(ops[j], n),
    ensures
        sys.run(ops.take(j)).pipeline.spent.contains(n),
        !sys.run(ops.take(j)).settles(ops[j]),
        sys.run(ops.take(j)).step(ops[j]).ledger == sys.run(ops.take(j)).ledger,
        sys.run(ops.take(j)).step(ops[j]).pipeline.spent == sys.run(ops.take(j)).pipeline.spent,
        ({
            let before = sys.run(ops.take(j));
            ops[j] matches SystemOp::Verify { record, caller, proof_valid, .. } && proof_valid
                && caller == before.pipeline.attempts[record].initiator
                && before.pipeline.attempts[record].stage is Accumulated ==> {
                &&& before.error_of(ops[j]) == Some(ErrorCode::NullifierReused)
                &&& before.step(ops[j]) == before
            }
        }),
{
    let at_i = sys.run(ops.take(i));
    let before = sys.run(ops.take(j));
    lemma_step_monotone(at_i, ops[i]);
    lemma_run_take(sys, ops, i);
    lemma_run_monotone(sys, ops, i + 1, j);
    assert(before.pipeline.spent.contains(n));
    match ops[j] {
        SystemOp::Verify { record, caller, proof_valid, game_id } => {
            let state = before.pipeline.attempts[record];
            let k = choose|k: int| 0 <= k < state.nullifiers.len() && state.nullifiers[k] == n;
            assert(before.pipeline.spent.contains(state.nullifiers[k]));
            assert(crate::nullifiers::any_spent(before.pipeline.spent, state.nullifiers));
        },
        _ => {},
    }
}

/// Game ids are handed out in strictly increasing order in any history:
/// whatever ledger operations and pipeline phases lie in between, a start
/// that succeeds later assigns a larger id than one that succeeded earlier.
pub proof fn lemma_game_ids_strictly_increase(sys: SystemView, ops: Seq<SystemOp>, i: int, j: int)
    requires
        0 <= i < j < ops.len(),
        sys.run(ops.take(i)).assigned_id(ops[i]) is Some,
        sys.run(ops.take(j)).assigned_id(ops[j]) is Some,
    ensures
        sys.run(ops.take(i)).assigned_id(ops[i]).unwrap() < sys.run(ops.take(j)).assigned_id(
            ops[j],
        ).unwrap(),
{
    lemma_step_monotone(sys.run(ops.take(i)), ops[i]);
    lemma_run_take(sys, ops, i);
    lemma_run_monotone(sys, ops, i + 1, j);
    lemma_step_monotone(sys.run(ops.take(j)), ops[j]);
}

} // verus!
