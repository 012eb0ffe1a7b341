//! The staged proof-verification pipeline: every settlement attempt in
//! progress, each at the address of its record, and the set of nullifiers
//! that earlier settlements have spent.
//!
//! An attempt is opened at an address that nobody else's attempt can share,
//! is continued and concluded by its initiator alone, and is released from
//! the pipeline when it is closed or abandoned. Each operation is one atomic
//! step that either succeeds as its `after_*` function describes or fails
//! as its `*_error` function names and changes nothing.

use vstd::prelude::*;
use crate::addressing::{address_of, attempt_seeds, program_address, record_address};
use crate::bytes32::{Address, Bytes32};
use crate::error::ErrorCode;
use crate::escrow::GameEnded;
use crate::identity::{domain_tag, identity_digest, tag_of};
use crate::keyed::{
    has_key, keys_unique, lemma_to_map_at, lemma_to_map_has, lemma_to_map_push,
    lemma_to_map_remove, to_map,
};
use crate::ledger::{Ledger, LedgerView};
use crate::nullifiers::NullifierSet;
use crate::settlement::{
    ledger_after_phase3, phase3_error, phase3_settles, phase3_verify, spent_after_phase3,
    state_after_phase3, Verdict,
};
use crate::staged::{opened, payload_accepted, Stage, StagedVerifierState, VerifierStateView};

verus! {

/// A settlement attempt at the address of its record.
struct Attempt {
    address: Bytes32,
    state: StagedVerifierState,
}

/// The pipeline of one program.
pub struct Pipeline {
    program_id: Address,
    attempts: Vec<Attempt>,
    spent: NullifierSet,
}

/// What a pipeline holds: the program's identity, the attempts in progress
/// by the address of their record, and the spent nullifiers.
pub struct PipelineView {
    pub program_id: Address,
    pub attempts: Map<Bytes32, VerifierStateView>,
    pub spent: Set<Bytes32>,
}

spec fn attempt_key() -> spec_fn(Attempt) -> Bytes32 {
    |a: Attempt| a.address
}

spec fn attempt_state() -> spec_fn(Attempt) -> VerifierStateView {
    |a: Attempt| a.state@
}

impl PipelineView {
    /// Why opening fails, if it does: no address can be derived, the payload
    /// is not accepted, or a record already exists at the derived address.
    pub open spec fn open_error(self, derived: Option<Bytes32>, payload: Seq<u8>) -> Option<
        ErrorCode,
    > {
        if derived is None || !payload_accepted(payload) {
            Some(ErrorCode::MalformedInput)
        } else if self.attempts.dom().contains(derived.unwrap()) {
            Some(ErrorCode::AlreadyInitialized)
        } else {
            None
        }
    }

    /// After opening, the new attempt stands at its address.
    pub open spec fn after_open(
        self,
        address: Bytes32,
        tag: Bytes32,
        initiator: Address,
        tx_hash: Bytes32,
        payload: Seq<u8>,
    ) -> PipelineView {
        PipelineView {
            attempts: self.attempts.insert(address, opened(tag, initiator, tx_hash, payload)),
            ..self
        }
    }

    /// Accumulating fails where no attempt stands at the address, and
    /// otherwise as it does on that attempt's record.
    pub open spec fn accumulate_error(self, record: Bytes32, caller: Address, payload: Seq<u8>)
        -> Option<ErrorCode> {
        if !self.attempts.dom().contains(record) {
            Some(ErrorCode::AttemptNotFound)
        } else {
            self.attempts[record].accumulate_error(caller, payload)
        }
    }

    /// After accumulating, the attempt's record holds the new inputs.
    pub open spec fn after_accumulate(self, record: Bytes32, payload: Seq<u8>) -> PipelineView {
        PipelineView {
            attempts: self.attempts.insert(record, self.attempts[record].after_accumulate(payload)),
            ..self
        }
    }

    /// The inputs for the proof check are refused where no attempt stands
    /// at the address, and otherwise as they are for that attempt's record.
    pub open spec fn request_error(self, record: Bytes32, caller: Address) -> Option<ErrorCode> {
        if !self.attempts.dom().contains(record) {
            Some(ErrorCode::AttemptNotFound)
        } else {
            self.attempts[record].request_error(caller)
        }
    }

    /// The third phase fails where no attempt stands at the address, and
    /// otherwise as it does on that attempt's record.
    pub open spec fn verify_error(
        self,
        ledger: LedgerView,
        record: Bytes32,
        caller: Address,
        proof_valid: bool,
        game_id: u64,
    ) -> Option<ErrorCode> {
        if !self.attempts.dom().contains(record) {
            Some(ErrorCode::AttemptNotFound)
        } else {
            phase3_error(self.attempts[record], caller, proof_valid, self.spent, ledger, game_id)
        }
    }

    /// The third phase of the attempt at `record` settles.
    pub open spec fn verify_settles(
        self,
        ledger: LedgerView,
        record: Bytes32,
        caller: Address,
        proof_valid: bool,
        game_id: u64,
    ) -> bool {
        &&& self.attempts.dom().contains(record)
        &&& phase3_settles(self.attempts[record], caller, proof_valid, self.spent, ledger, game_id)
    }

    /// The pipeline after the third phase: the attempt is verified or
    /// rejected and, where the phase settles, its nullifiers are spent.
    pub open spec fn after_verify(
        self,
        ledger: LedgerView,
        record: Bytes32,
        caller: Address,
        proof_valid: bool,
        game_id: u64,
    ) -> PipelineView {
        if !self.attempts.dom().contains(record) {
            self
        } else {
            let state = self.attempts[record];
            PipelineView {
                attempts: self.attempts.insert(
                    record,
                    state_after_phase3(state, caller, proof_valid, self.spent, ledger, game_id),
                ),
                spent: spent_after_phase3(state, caller, proof_valid, self.spent, ledger, game_id),
                ..self
            }
        }
    }

    /// The ledger after the third phase: the game is settled where the
    /// phase settles, and nothing changes otherwise.
    pub open spec fn ledger_after_verify(
        self,
        ledger: LedgerView,
        record: Bytes32,
        caller: Address,
        proof_valid: bool,
        game_id: u64,
    ) -> LedgerView {
        if !self.attempts.dom().contains(record) {
            ledger
        } else {
            ledger_after_phase3(
                self.attempts[record],
                caller,
                proof_valid,
                self.spent,
                ledger,
                game_id,
            )
        }
    }

    /// Closing fails where no attempt stands at the address, and otherwise
    /// as it does on that attempt's record.
    pub open spec fn close_error(self, record: Bytes32, caller: Address) -> Option<ErrorCode> {
        if !self.attempts.dom().contains(record) {
            Some(ErrorCode::AttemptNotFound)
        } else {
            self.attempts[record].close_error(caller)
        }
    }

    /// Abandoning fails where no attempt stands at the address, and
    /// otherwise as it does on that attempt's record.
    pub open spec fn abort_error(self, record: Bytes32, caller: Address) -> Option<ErrorCode> {
        if !self.attempts.dom().contains(record) {
            Some(ErrorCode::AttemptNotFound)
        } else {
            self.attempts[record].abort_error(caller)
        }
    }

    /// Releasing a record takes it off the pipeline.
    pub open spec fn after_release(self, record: Bytes32) -> PipelineView {
        PipelineView { attempts: self.attempts.remove(record), ..self }
    }
}

impl View for Pipeline {
    type V = PipelineView;

    closed spec fn view(&self) -> PipelineView {
        PipelineView {
            program_id: self.program_id,
            attempts: to_map(self.attempts@, attempt_key()).map_values(attempt_state()),
            spent: self.spent@,
        }
    }
}

impl Pipeline {
    /// The pipeline's invariant: no two attempts share an address, every
    /// attempt has the shape of a staged verifier state and is not closed.
    pub closed spec fn wf(&self) -> bool {
        &&& keys_unique(self.attempts@, attempt_key())
        &&& self.spent.wf()
        &&& forall|i: int|
            0 <= i < self.attempts@.len() ==> {
                &&& (#[trigger] self.attempts@[i]).state.wf()
                &&& !(self.attempts@[i].state@.stage is Closed)
            }
    }

    /// In a well-formed pipeline every attempt has the shape of a staged
    /// verifier state, and none is closed.
    pub proof fn lemma_wf(&self)
        requires
            self.wf(),
        ensures
            forall|record: Bytes32| #[trigger]
                self@.attempts.dom().contains(record) ==> {
                    &&& self@.attempts[record].wf()
                    &&& !(self@.attempts[record].stage is Closed)
                },
    {
        assert forall|record: Bytes32| #[trigger] self@.attempts.dom().contains(record) implies {
            &&& self@.attempts[record].wf()
            &&& !(self@.attempts[record].stage is Closed)
        } by {
            lemma_to_map_has(self.attempts@, attempt_key(), record);
        }
    }

    /// An empty pipeline for the program `program_id`.
    pub fn new(program_id: Address) -> (pipeline: Pipeline)
        ensures
            pipeline.wf(),
            pipeline@ == (PipelineView {
                program_id,
                attempts: Map::empty(),
                spent: Set::empty(),
            }),
    {
        let pipeline = Pipeline { program_id, attempts: Vec::new(), spent: NullifierSet::new() };
        assert(pipeline@.attempts =~= Map::empty());
        pipeline
    }

    /// The identity of the program that the pipeline belongs to.
    pub fn program_id(&self) -> (r: Address)
        ensures
            r == self@.program_id,
    {
        self.program_id
    }

    /// Whether `nullifier` has been spent.
    pub fn is_spent(&self, nullifier: &Bytes32) -> (r: bool)
        ensures
            r == self@.spent.contains(*nullifier),
    {
        self.spent.contains(nullifier)
    }

    fn find(&self, record: &Bytes32) -> (r: Option<usize>)
        ensures
            match r {
                Some(i) => i < self.attempts@.len() && self.attempts@[i as int].address == *record,
                None => !has_key(self.attempts@, attempt_key(), *record),
            },
    {
        let mut i: usize = 0;
        while i < self.attempts.len()
            invariant
                i <= self.attempts@.len(),
                forall|j: int| 0 <= j < i ==> self.attempts@[j].address != *record,
            decreases self.attempts@.len() - i,
        {
            if self.attempts[i].address.same(record) {
                return Some(i);
            }
            i += 1;
        }
        None
    }

    /// Takes the attempt at `record` off the pipeline.
    fn take(&mut self, record: &Bytes32) -> (r: Option<StagedVerifierState>)
        requires
            old(self).wf(),
        ensures
            final(self).wf(),
            final(self)@.program_id == old(self)@.program_id,
            final(self).spent == old(self).spent,
            match r {
                Some(state) => {
                    &&& old(self)@.attempts.dom().contains(*record)
                    &&& state@ == old(self)@.attempts[*record]
                    &&& state.wf()
                    &&& !(state@.stage is Closed)
                    &&& final(self)@.attempts == old(self)@.attempts.remove(*record)
                },
                None => {
                    &&& !old(self)@.attempts.dom().contains(*record)
                    &&& final(self)@ == old(self)@
                },
            },
    {
        match self.find(record) {
            None => None,
            Some(i) => {
                proof {
                    lemma_to_map_at(self.attempts@, attempt_key(), i as int);
                    lemma_to_map_remove(self.attempts@, attempt_key(), i as int);
                }
                let ghost before = self.attempts@;
                let attempt = self.attempts.remove(i);
                proof {
                    assert(self@.attempts =~= old(self)@.attempts.remove(*record));
                    assert forall|k: int| 0 <= k < self.attempts@.len() implies {
                        &&& (#[trigger] self.attempts@[k]).state.wf()
                        &&& !(self.attempts@[k].state@.stage is Closed)
                    } by {
                        let k2 = if k < i { k } else { k + 1 };
                        assert(self.attempts@[k] == before[k2]);
                    }
                }
                Some(attempt.state)
            },
        }
    }

    /// Puts an attempt on the pipeline at an address that holds none.
    fn put(&mut self, record: Bytes32, state: StagedVerifierState)
        requires
            old(self).wf(),
            !old(self)@.attempts.dom().contains(record),
            state.wf(),
            !(state@.stage is Closed),
        ensures
            final(self).wf(),
            final(self)@.program_id == old(self)@.program_id,
            final(self).spent == old(self).spent,
            final(self)@.attempts == old(self)@.attempts.insert(record, state@),
    {
        let attempt = Attempt { address: record, state };
        proof {
            assert(!has_key(self.attempts@, attempt_key(), record));
            lemma_to_map_push(self.attempts@, attempt_key(), attempt);
        }
        let ghost before = self.attempts@;
        self.attempts.push(attempt);
        proof {
            assert(self@.attempts =~= old(self)@.attempts.insert(record, state@));
            assert forall|k: int| 0 <= k < self.attempts@.len() implies {
                &&& (#[trigger] self.attempts@[k]).state.wf()
                &&& !(self.attempts@[k].state@.stage is Closed)
            } by {
                if k < before.len() {
                    assert(self.attempts@[k] == before[k]);
                }
            }
        }
    }

    /// The stage of the attempt at `record`, if there is one.
    pub fn stage_of(&self, record: &Bytes32) -> (r: Option<Stage>)
        requires
            self.wf(),
        ensures
            r == if self@.attempts.dom().contains(*record) {
                Some(self@.attempts[*record].stage)
            } else {
                None
            },
    {
        match self.find(record) {
            None => None,
            Some(i) => {
                proof {
                    lemma_to_map_at(self.attempts@, attempt_key(), i as int);
                }
                Some(self.attempts[i].state.stage())
            },
        }
    }

    /// The persisted record of the attempt at `record`, if there is one.
    pub fn record_of(&self, record: &Bytes32) -> (r: Option<Vec<u8>>)
        requires
            self.wf(),
        ensures
            match r {
                Some(bytes) => {
                    &&& self@.attempts.dom().contains(*record)
                    &&& bytes@ == crate::layout::record_bytes(self@.attempts[*record])
                },
                None => !self@.attempts.dom().contains(*record),
            },
    {
        match self.find(record) {
            None => None,
            Some(i) => {
                proof {
                    lemma_to_map_at(self.attempts@, attempt_key(), i as int);
                }
                Some(self.attempts[i].state.to_record())
            },
        }
    }

    /// The checked public inputs against which the proof of the attempt at
    /// `record` is to be checked. They are handed out to the initiator only,
    /// and only once the record is accumulated.
    pub fn inputs_to_verify(&self, record: &Bytes32, caller: &Address) -> (r: Result<
        &Vec<Bytes32>,
        ErrorCode,
    >)
        requires
            self.wf(),
        ensures
            match r {
                Ok(inputs) => {
                    &&& self@.request_error(*record, *caller) is None
                    &&& inputs@ == self@.attempts[*record].checked_public_inputs
                    &&& self@.attempts[*record].fully_populated()
                },
                Err(e) => self@.request_error(*record, *caller) == Some(e),
            },
    {
        match self.find(record) {
            None => Err(ErrorCode::AttemptNotFound),
            Some(i) => {
                proof {
                    lemma_to_map_at(self.attempts@, attempt_key(), i as int);
                }
                self.attempts[i].state.inputs_to_verify(caller)
            },
        }
    }

    /// Opens an attempt at a derived address with a given domain tag.
    ///
    /// `derived` is the outcome of deriving the record's address. Opening
    /// fails, and creates nothing, where no address could be derived, where
    /// the payload is not accepted, and where a record already stands at the
    /// address: an attempt in progress is never overwritten.
    pub fn open_at(
        &mut self,
        derived: Option<Bytes32>,
        tag: Bytes32,
        initiator: Address,
        tx_hash: Bytes32,
        payload: &[u8],
    ) -> (r: Result<Bytes32, ErrorCode>)
        requires
            old(self).wf(),
        ensures
            final(self).wf(),
            match r {
                Ok(address) => {
                    &&& old(self)@.open_error(derived, payload@) is None
                    &&& derived == Some(address)
                    &&& final(self)@ == old(self)@.after_open(
                        address,
                        tag,
                        initiator,
                        tx_hash,
                        payload@,
                    )
                },
                Err(e) => {
                    &&& old(self)@.open_error(derived, payload@) == Some(e)
                    &&& final(self)@ == old(self)@
                },
            },
    {
        let address = match derived {
            None => {
                return Err(ErrorCode::MalformedInput);
            },
            Some(address) => address,
        };
        match StagedVerifierState::open_with_tag(tag, initiator, tx_hash, payload) {
            Err(e) => Err(e),
            Ok(state) => {
                match self.find(&address) {
                    Some(i) => {
                        proof {
                            lemma_to_map_at(self.attempts@, attempt_key(), i as int);
                        }
                        Err(ErrorCode::AlreadyInitialized)
                    },
                    None => {
                        self.put(address, state);
                        Ok(address)
                    },
                }
            },
        }
    }

    /// Phase 1: opens a settlement attempt for `initiator` and returns the
    /// address of its record.
    ///
    /// The address is derived from the initiator, the transaction hash and
    /// the program's identity; slot 0 of the checked public inputs is the
    /// program's domain tag and slot 1 the transaction hash.
    pub fn phase1_open(&mut self, initiator: Address, tx_hash: Bytes32, payload: &[u8]) -> (r:
        Result<Bytes32, ErrorCode>)
        requires
            old(self).wf(),
        ensures
            final(self).wf(),
            match r {
                Ok(address) => {
                    &&& old(self)@.open_error(
                        address_of(
                            program_address(
                                attempt_seeds(initiator, tx_hash),
                                old(self)@.program_id@,
                            ),
                        ),
                        payload@,
                    ) is None
                    &&& Some(address) == address_of(
                        program_address(attempt_seeds(initiator, tx_hash), old(self)@.program_id@),
                    )
                    &&& final(self)@ == old(self)@.after_open(
                        address,
                        Bytes32::of(tag_of(identity_digest(old(self)@.program_id@))),
                        initiator,
                        tx_hash,
                        payload@,
                    )
                },
                Err(e) => {
                    &&& old(self)@.open_error(
                        address_of(
                            program_address(
                                attempt_seeds(initiator, tx_hash),
                                old(self)@.program_id@,
                            ),
                        ),
                        payload@,
                    ) == Some(e)
                    &&& final(self)@ == old(self)@
                },
            },
    {
        let derived = record_address(&initiator, &tx_hash, &self.program_id);
        let tag = domain_tag(&self.program_id);
        proof {
            Bytes32::lemma_view_of(tag);
        }
        self.open_at(derived, tag, initiator, tx_hash, payload)
    }

    /// Phase 2: writes further checked public inputs into the record at
    /// `record`, chunk `i` of the payload into slot `2 + i`.
    pub fn phase2_accumulate(&mut self, record: &Bytes32, caller: &Address, payload: &[u8]) -> (r:
        Result<(), ErrorCode>)
        requires
            old(self).wf(),
        ensures
            final(self).wf(),
            match r {
                Ok(()) => {
                    &&& old(self)@.accumulate_error(*record, *caller, payload@) is None
                    &&& final(self)@ == old(self)@.after_accumulate(*record, payload@)
                },
                Err(e) => {
                    &&& old(self)@.accumulate_error(*record, *caller, payload@) == Some(e)
                    &&& final(self)@ == old(self)@
                },
            },
    {
        let mut state = match self.take(record) {
            None => {
                return Err(ErrorCode::AttemptNotFound);
            },
            Some(state) => state,
        };
        let r = state.phase2_accumulate(caller, payload);
        self.put(*record, state);
        proof {
            if r is Err {
                assert(self@.attempts =~= old(self)@.attempts);
            } else {
                assert(self@.attempts =~= old(self)@.after_accumulate(*record, payload@).attempts);
            }
        }
        r
    }

    /// Phase 3: concludes the attempt at `record`, given the outcome of
    /// checking its proof against its checked public inputs.
    ///
    /// Where the proof was accepted, no nullifier of the attempt is spent
    /// and the game is on the ledger, the nullifiers are spent, the game is
    /// settled and the record is verified, in one step. A spent nullifier
    /// fails the phase with `NullifierReused` and nothing changes.
    pub fn phase3_verify(
        &mut self,
        ledger: &mut Ledger,
        record: &Bytes32,
        caller: &Address,
        proof_valid: bool,
        game_id: u64,
        final_bet: u64,
    ) -> (r: Result<Verdict, ErrorCode>)
        requires
            old(self).wf(),
            old(ledger).wf(),
        ensures
            final(self).wf(),
            final(ledger).wf(),
            final(self)@ == old(self)@.after_verify(
                old(ledger)@,
                *record,
                *caller,
                proof_valid,
                game_id,
            ),
            final(ledger)@ == old(self)@.ledger_after_verify(
                old(ledger)@,
                *record,
                *caller,
                proof_valid,
                game_id,
            ),
            match r {
                Ok(Verdict::Verified(event)) => {
                    &&& old(self)@.verify_settles(
                        old(ledger)@,
                        *record,
                        *caller,
                        proof_valid,
                        game_id,
                    )
                    &&& event == (GameEnded {
                        game_id,
                        winner_address: None,
                        total_prize: final_bet,
                    })
                },
                Ok(Verdict::Rejected) => {
                    &&& !proof_valid
                    &&& old(self)@.verify_error(
                        old(ledger)@,
                        *record,
                        *caller,
                        proof_valid,
                        game_id,
                    ) is None
                },
                Err(e) => old(self)@.verify_error(
                    old(ledger)@,
                    *record,
                    *caller,
                    proof_valid,
                    game_id,
                ) == Some(e),
            },
    {
        let mut state = match self.take(record) {
            None => {
                return Err(ErrorCode::AttemptNotFound);
            },
            Some(state) => state,
        };
        let r = phase3_verify(
            &mut state,
            &mut self.spent,
            ledger,
            caller,
            proof_valid,
            game_id,
            final_bet,
        );
        self.put(*record, state);
        proof {
            assert(self@.attempts =~= old(self)@.after_verify(
                old(ledger)@,
                *record,
                *caller,
                proof_valid,
                game_id,
            ).attempts);
        }
        r
    }

    /// Releases the record of a finished attempt, whether its proof was
    /// accepted or refused. The address is free again afterwards.
    pub fn close_verifier_state(&mut self, record: &Bytes32, caller: &Address) -> (r: Result<
        (),
        ErrorCode,
    >)
        requires
            old(self).wf(),
        ensures
            final(self).wf(),
            match r {
                Ok(()) => {
                    &&& old(self)@.close_error(*record, *caller) is None
                    &&& final(self)@ == old(self)@.after_release(*record)
                },
                Err(e) => {
                    &&& old(self)@.close_error(*record, *caller) == Some(e)
                    &&& final(self)@ == old(self)@
                },
            },
    {
        let mut state = match self.take(record) {
            None => {
                return Err(ErrorCode::AttemptNotFound);
            },
            Some(state) => state,
        };
        match state.close_verifier_state(caller) {
            Ok(()) => Ok(()),
            Err(e) => {
                self.put(*record, state);
                assert(self@.attempts =~= old(self)@.attempts);
                Err(e)
            },
        }
    }

    /// Abandons an attempt that has not been verified yet and releases its
    /// record. No funds have moved at that point.
    pub fn abort_verifier_state(&mut self, record: &Bytes32, caller: &Address) -> (r: Result<
        (),
        ErrorCode,
    >)
        requires
            old(self).wf(),
        ensures
            final(self).wf(),
            match r {
                Ok(()) => {
                    &&& old(self)@.abort_error(*record, *caller) is None
                    &&& final(self)@ == old(self)@.after_release(*record)
                },
                Err(e) => {
                    &&& old(self)@.abort_error(*record, *caller) == Some(e)
                    &&& final(self)@ == old(self)@
                },
            },
    {
        let mut state = match self.take(record) {
            None => {
                return Err(ErrorCode::AttemptNotFound);
            },
            Some(state) => state,
        };
        match state.abort_verifier_state(caller) {
            Ok(()) => Ok(()),
            Err(e) => {
                self.put(*record, state);
                assert(self@.attempts =~= old(self)@.attempts);
                Err(e)
            },
        }
    }
}

} // verus!
