//! The staged verifier state: the record that one settlement attempt fills
//! over several calls before its proof is checked.
//!
//! The first call opens the record from a raw payload, later calls write the
//! remaining checked public inputs, and only a fully populated record can go
//! on to verification. Stages move `Opened -> Accumulated -> Verified or
//! Rejected -> Closed`; the initiator may also abandon an attempt that has
//! not been verified yet.

use vstd::prelude::*;
use vstd::bytes::{spec_u64_from_le_bytes, u64_from_le_bytes};
use vstd::slice::{slice_subrange, slice_to_vec};
use crate::bytes32::{Address, Bytes32};
use crate::error::ErrorCode;
use crate::identity::{domain_tag, identity_digest, tag_of};

verus! {

/// Number of checked public input slots of a record.
pub const NUM_CHECKED_INPUTS: usize = 8;

/// Number of nullifiers that one attempt presents.
pub const NUM_NULLIFIERS: usize = 2;

/// Number of output commitments that one attempt presents.
pub const NUM_COMMITMENTS: usize = 2;

/// Length of the fixed part of the opening payload: two nullifiers, two
/// output commitments, the two public amounts, the relayer fee and the
/// merkle root index.
pub const PAYLOAD_FIXED_LEN: usize = 208;

/// Largest encrypted payload that a record can hold.
pub const MAX_ENCRYPTED_LEN: usize = 448;

/// Where a settlement attempt stands.
#[derive(Clone, Copy, Debug, PartialEq, Eq, Structural)]
pub enum Stage {
    /// Opened; some checked public inputs are still missing.
    Opened,
    /// Every checked public input is in place.
    Accumulated,
    /// The proof was accepted and the settlement carried out.
    Verified,
    /// The proof was refused; nothing was settled.
    Rejected,
    /// The record has been released.
    Closed,
}

/// The record of one settlement attempt.
pub struct StagedVerifierState {
    initiator: Address,
    stage: Stage,
    filled: usize,
    checked_public_inputs: Vec<Bytes32>,
    nullifiers: Vec<Bytes32>,
    output_commitments: Vec<Bytes32>,
    public_amount_spl: Bytes32,
    public_amount_sol: Bytes32,
    relayer_fee: u64,
    encrypted_payload: Vec<u8>,
    merkle_root_index: u64,
}

/// What a staged verifier state holds.
pub struct VerifierStateView {
    /// The only caller who may continue or release the attempt.
    pub initiator: Address,
    pub stage: Stage,
    /// How many leading input slots have been written: slots 0 and 1 at
    /// opening, the others by accumulation.
    pub filled: nat,
    /// Slot 0 is the program's domain tag, slot 1 the transaction hash.
    pub checked_public_inputs: Seq<Bytes32>,
    pub nullifiers: Seq<Bytes32>,
    pub output_commitments: Seq<Bytes32>,
    pub public_amount_spl: Bytes32,
    pub public_amount_sol: Bytes32,
    pub relayer_fee: u64,
    pub encrypted_payload: Seq<u8>,
    pub merkle_root_index: u64,
}

/// The 32-byte value at `offset` of `bytes`.
pub open spec fn word_at(bytes: Seq<u8>, offset: int) -> Bytes32 {
    Bytes32::of(bytes.subrange(offset, offset + 32))
}

/// The little-endian integer at `offset` of `bytes`.
pub open spec fn u64_at(bytes: Seq<u8>, offset: int) -> u64 {
    spec_u64_from_le_bytes(bytes.subrange(offset, offset + 8))
}

/// An opening payload is accepted when it holds the whole fixed part, an
/// encrypted payload that fits the record, and two different nullifiers.
pub open spec fn payload_accepted(payload: Seq<u8>) -> bool {
    &&& PAYLOAD_FIXED_LEN <= payload.len() <= PAYLOAD_FIXED_LEN + MAX_ENCRYPTED_LEN
    &&& word_at(payload, 0) != word_at(payload, 32)
}

/// The state that opening creates from an accepted payload.
pub open spec fn opened(tag: Bytes32, initiator: Address, tx_hash: Bytes32, payload: Seq<u8>)
    -> VerifierStateView {
    VerifierStateView {
        initiator,
        stage: Stage::Opened,
        filled: 2,
        checked_public_inputs: Seq::new(
            NUM_CHECKED_INPUTS as nat,
            |i: int|
                if i == 0 {
                    tag
                } else if i == 1 {
                    tx_hash
                } else {
                    Bytes32::spec_zero()
                },
        ),
        nullifiers: seq![word_at(payload, 0), word_at(payload, 32)],
        output_commitments: seq![word_at(payload, 64), word_at(payload, 96)],
        public_amount_spl: word_at(payload, 128),
        public_amount_sol: word_at(payload, 160),
        relayer_fee: u64_at(payload, 192),
        merkle_root_index: u64_at(payload, 200),
        encrypted_payload: payload.subrange(PAYLOAD_FIXED_LEN as int, payload.len() as int),
    }
}

impl VerifierStateView {
    /// The shape of every state: the slot and item counts are fixed, the
    /// nullifiers differ, the encrypted payload fits, and the stage agrees
    /// with how many input slots are written. A record past accumulation is
    /// fully populated; an opened one is not.
    pub open spec fn wf(self) -> bool {
        &&& self.checked_public_inputs.len() == NUM_CHECKED_INPUTS
        &&& self.nullifiers.len() == NUM_NULLIFIERS
        &&& self.nullifiers[0] != self.nullifiers[1]
        &&& self.output_commitments.len() == NUM_COMMITMENTS
        &&& self.encrypted_payload.len() <= MAX_ENCRYPTED_LEN
        &&& 2 <= self.filled <= NUM_CHECKED_INPUTS
        &&& self.stage is Opened ==> self.filled < NUM_CHECKED_INPUTS
        &&& (self.stage is Accumulated || self.stage is Verified || self.stage is Rejected)
            ==> self.filled == NUM_CHECKED_INPUTS
    }

    /// Every checked public input is in place.
    pub open spec fn fully_populated(self) -> bool {
        self.filled == NUM_CHECKED_INPUTS
    }

    /// Why an accumulation call fails, if it does: only the initiator may
    /// continue, only before verification, with whole 32-byte chunks, and
    /// with no more chunks than there are slots after the first two.
    pub open spec fn accumulate_error(self, caller: Address, payload: Seq<u8>) -> Option<
        ErrorCode,
    > {
        if caller != self.initiator {
            Some(ErrorCode::Unauthorized)
        } else if !(self.stage is Opened || self.stage is Accumulated) {
            Some(ErrorCode::InvalidOperation)
        } else if payload.len() % 32 != 0 {
            Some(ErrorCode::MalformedInput)
        } else if payload.len() / 32 > NUM_CHECKED_INPUTS - 2 {
            Some(ErrorCode::TooManyInputs)
        } else {
            None
        }
    }

    /// The state after an accumulation call: chunk `i` of the payload stands
    /// in slot `2 + i`, whatever stood there before; the other slots are kept.
    /// The record is accumulated once its last slot has been written.
    pub open spec fn after_accumulate(self, payload: Seq<u8>) -> VerifierStateView {
        let chunks = payload.len() as int / 32;
        let filled = if self.filled >= 2 + chunks {
            self.filled
        } else {
            (2 + chunks) as nat
        };
        VerifierStateView {
            checked_public_inputs: Seq::new(
                NUM_CHECKED_INPUTS as nat,
                |i: int|
                    if 2 <= i < 2 + chunks {
                        word_at(payload, 32 * (i - 2))
                    } else {
                        self.checked_public_inputs[i]
                    },
            ),
            filled,
            stage: if filled == NUM_CHECKED_INPUTS {
                Stage::Accumulated
            } else {
                Stage::Opened
            },
            ..self
        }
    }

    /// Why the record's inputs are not handed out for the proof check, if
    /// they are not: only the initiator may ask, and only for an accumulated
    /// record.
    pub open spec fn request_error(self, caller: Address) -> Option<ErrorCode> {
        if caller != self.initiator {
            Some(ErrorCode::Unauthorized)
        } else if !(self.stage is Accumulated) {
            Some(ErrorCode::InvalidOperation)
        } else {
            None
        }
    }

    /// The same record at another stage.
    pub open spec fn at_stage(self, stage: Stage) -> VerifierStateView {
        VerifierStateView { stage, ..self }
    }

    /// Why releasing a finished attempt fails, if it does: only the
    /// initiator may release it, and only once it is verified or rejected.
    pub open spec fn close_error(self, caller: Address) -> Option<ErrorCode> {
        if caller != self.initiator {
            Some(ErrorCode::Unauthorized)
        } else if !(self.stage is Verified || self.stage is Rejected) {
            Some(ErrorCode::InvalidOperation)
        } else {
            None
        }
    }

    /// Why abandoning an unfinished attempt fails, if it does: only the
    /// initiator may abandon it, and only before verification.
    pub open spec fn abort_error(self, caller: Address) -> Option<ErrorCode> {
        if caller != self.initiator {
            Some(ErrorCode::Unauthorized)
        } else if !(self.stage is Opened || self.stage is Accumulated) {
            Some(ErrorCode::InvalidOperation)
        } else {
            None
        }
    }
}

impl View for StagedVerifierState {
    type V = VerifierStateView;

    closed spec fn view(&self) -> VerifierStateView {
        VerifierStateView {
            initiator: self.initiator,
            stage: self.stage,
            filled: self.filled as nat,
            checked_public_inputs: self.checked_public_inputs@,
            nullifiers: self.nullifiers@,
            output_commitments: self.output_commitments@,
            public_amount_spl: self.public_amount_spl,
            public_amount_sol: self.public_amount_sol,
            relayer_fee: self.relayer_fee,
            encrypted_payload: self.encrypted_payload@,
            merkle_root_index: self.merkle_root_index,
        }
    }
}

impl StagedVerifierState {
    /// The state has the shape that `VerifierStateView::wf` describes.
    pub open spec fn wf(&self) -> bool {
        self@.wf()
    }

    /// The only caller who may continue or release the attempt.
    pub fn initiator(&self) -> (r: Address)
        ensures
            r == self@.initiator,
    {
        self.initiator
    }

    /// Where the attempt stands.
    pub fn stage(&self) -> (r: Stage)
        ensures
            r == self@.stage,
    {
        self.stage
    }

    /// The nullifiers that the attempt presents.
    pub fn nullifiers(&self) -> (r: &Vec<Bytes32>)
        ensures
            r@ == self@.nullifiers,
    {
        &self.nullifiers
    }

    /// How many leading input slots have been written.
    pub fn filled_inputs(&self) -> (r: usize)
        ensures
            r == self@.filled,
    {
        self.filled
    }

    /// The checked public inputs, slot by slot.
    pub fn checked_public_inputs(&self) -> (r: &Vec<Bytes32>)
        ensures
            r@ == self@.checked_public_inputs,
    {
        &self.checked_public_inputs
    }

    /// The output commitments that the attempt presents.
    pub fn output_commitments(&self) -> (r: &Vec<Bytes32>)
        ensures
            r@ == self@.output_commitments,
    {
        &self.output_commitments
    }

    /// The public token amount.
    pub fn public_amount_spl(&self) -> (r: Bytes32)
        ensures
            r == self@.public_amount_spl,
    {
        self.public_amount_spl
    }

    /// The public native amount.
    pub fn public_amount_sol(&self) -> (r: Bytes32)
        ensures
            r == self@.public_amount_sol,
    {
        self.public_amount_sol
    }

    /// The fee owed to the relayer.
    pub fn relayer_fee(&self) -> (r: u64)
        ensures
            r == self@.relayer_fee,
    {
        self.relayer_fee
    }

    /// The encrypted payload.
    pub fn encrypted_payload(&self) -> (r: &Vec<u8>)
        ensures
            r@ == self@.encrypted_payload,
    {
        &self.encrypted_payload
    }

    /// Which snapshot of the commitment tree the proof refers to.
    pub fn merkle_root_index(&self) -> (r: u64)
        ensures
            r == self@.merkle_root_index,
    {
        self.merkle_root_index
    }

    /// Puts a state together from its parts.
    pub(crate) fn from_parts(
        initiator: Address,
        stage: Stage,
        filled: usize,
        checked_public_inputs: Vec<Bytes32>,
        nullifiers: Vec<Bytes32>,
        output_commitments: Vec<Bytes32>,
        public_amount_spl: Bytes32,
        public_amount_sol: Bytes32,
        relayer_fee: u64,
        encrypted_payload: Vec<u8>,
        merkle_root_index: u64,
    ) -> (state: StagedVerifierState)
        ensures
            state@ == (VerifierStateView {
                initiator,
                stage,
                filled: filled as nat,
                checked_public_inputs: checked_public_inputs@,
                nullifiers: nullifiers@,
                output_commitments: output_commitments@,
                public_amount_spl,
                public_amount_sol,
                relayer_fee,
                encrypted_payload: encrypted_payload@,
                merkle_root_index,
            }),
    {
        StagedVerifierState {
            initiator,
            stage,
            filled,
            checked_public_inputs,
            nullifiers,
            output_commitments,
            public_amount_spl,
            public_amount_sol,
            relayer_fee,
            encrypted_payload,
            merkle_root_index,
        }
    }

    /// Opens a settlement attempt with a given domain tag.
    ///
    /// The payload is laid out as two nullifiers, two output commitments,
    /// the public token amount and the public native amount (32 bytes each),
    /// the relayer fee and the merkle root index (8 bytes each, little
    /// endian), and then the encrypted payload up to its end. A payload that
    /// is shorter than the fixed part, longer than a record can hold, or
    /// that repeats a nullifier is rejected and no state is created.
    pub fn open_with_tag(tag: Bytes32, initiator: Address, tx_hash: Bytes32, payload: &[u8]) -> (r:
        Result<StagedVerifierState, ErrorCode>)
        ensures
            match r {
                Ok(state) => {
                    &&& payload_accepted(payload@)
                    &&& state@ == opened(tag, initiator, tx_hash, payload@)
                    &&& state.wf()
                },
                Err(e) => e == ErrorCode::MalformedInput && !payload_accepted(payload@),
            },
    {
        let len = payload.len();
        if len < PAYLOAD_FIXED_LEN || len > PAYLOAD_FIXED_LEN + MAX_ENCRYPTED_LEN {
            return Err(ErrorCode::MalformedInput);
        }
        let first = Bytes32::from_slice(payload, 0);
        let second = Bytes32::from_slice(payload, 32);
        if first.same(&second) {
            return Err(ErrorCode::MalformedInput);
        }
        let mut checked_public_inputs: Vec<Bytes32> = Vec::new();
        checked_public_inputs.push(tag);
        checked_public_inputs.push(tx_hash);
        while checked_public_inputs.len() < NUM_CHECKED_INPUTS
            invariant
                2 <= checked_public_inputs@.len() <= NUM_CHECKED_INPUTS,
                checked_public_inputs@[0] == tag,
                checked_public_inputs@[1] == tx_hash,
                forall|i: int|
                    2 <= i < checked_public_inputs@.len() ==> checked_public_inputs@[i]
                        == Bytes32::spec_zero(),
            decreases NUM_CHECKED_INPUTS - checked_public_inputs@.len(),
        {
            checked_public_inputs.push(Bytes32::zero());
        }
        let mut nullifiers: Vec<Bytes32> = Vec::new();
        nullifiers.push(first);
        nullifiers.push(second);
        let mut output_commitments: Vec<Bytes32> = Vec::new();
        output_commitments.push(Bytes32::from_slice(payload, 64));
        output_commitments.push(Bytes32::from_slice(payload, 96));
        let state = StagedVerifierState {
            initiator,
            stage: Stage::Opened,
            filled: 2,
            checked_public_inputs,
            nullifiers,
            output_commitments,
            public_amount_spl: Bytes32::from_slice(payload, 128),
            public_amount_sol: Bytes32::from_slice(payload, 160),
            relayer_fee: u64_from_le_bytes(slice_subrange(payload, 192, 200)),
            merkle_root_index: u64_from_le_bytes(slice_subrange(payload, 200, 208)),
            encrypted_payload: slice_to_vec(slice_subrange(payload, PAYLOAD_FIXED_LEN, len)),
        };
        proof {
            let expected = opened(tag, initiator, tx_hash, payload@);
            assert(state@.checked_public_inputs =~= expected.checked_public_inputs);
            assert(state@.nullifiers =~= expected.nullifiers);
            assert(state@.output_commitments =~= expected.output_commitments);
        }
        Ok(state)
    }

    /// Phase 1: opens a settlement attempt for `initiator`.
    ///
    /// Slot 0 of the checked public inputs becomes the domain tag of
    /// `program_id`, slot 1 the transaction hash; the rest of the state is
    /// read from the payload as `open_with_tag` describes.
    pub fn phase1_open(
        program_id: &Address,
        initiator: Address,
        tx_hash: Bytes32,
        payload: &[u8],
    ) -> (r: Result<StagedVerifierState, ErrorCode>)
        ensures
            match r {
                Ok(state) => {
                    &&& payload_accepted(payload@)
                    &&& state@ == opened(
                        Bytes32::of(tag_of(identity_digest(program_id@))),
                        initiator,
                        tx_hash,
                        payload@,
                    )
                    &&& state.wf()
                },
                Err(e) => e == ErrorCode::MalformedInput && !payload_accepted(payload@),
            },
    {
        let tag = domain_tag(program_id);
        proof {
            Bytes32::lemma_view_of(tag);
        }
        StagedVerifierState::open_with_tag(tag, initiator, tx_hash, payload)
    }

    /// Phase 2: writes further checked public inputs. The payload is read as
    /// consecutive 32-byte chunks and chunk `i` is written into slot `2 + i`,
    /// replacing what stood there. The call may be repeated.
    pub fn phase2_accumulate(&mut self, caller: &Address, payload: &[u8]) -> (r: Result<
        (),
        ErrorCode,
    >)
        requires
            old(self).wf(),
        ensures
            final(self).wf(),
            match r {
                Ok(()) => {
                    &&& old(self)@.accumulate_error(*caller, payload@) is None
                    &&& final(self)@ == old(self)@.after_accumulate(payload@)
                },
                Err(e) => {
                    &&& old(self)@.accumulate_error(*caller, payload@) == Some(e)
                    &&& final(self)@ == old(self)@
                },
            },
    {
        if !caller.same(&self.initiator) {
            return Err(ErrorCode::Unauthorized);
        }
        match self.stage {
            Stage::Opened | Stage::Accumulated => {},
            _ => {
                return Err(ErrorCode::InvalidOperation);
            },
        }
        let len = payload.len();
        if len % 32 != 0 {
            return Err(ErrorCode::MalformedInput);
        }
        let chunks = len / 32;
        if chunks > NUM_CHECKED_INPUTS - 2 {
            return Err(ErrorCode::TooManyInputs);
        }
        let mut inputs: Vec<Bytes32> = Vec::new();
        let mut i: usize = 0;
        while i < NUM_CHECKED_INPUTS
            invariant
                i <= NUM_CHECKED_INPUTS,
                inputs@.len() == i,
                self.checked_public_inputs@.len() == NUM_CHECKED_INPUTS,
                chunks <= NUM_CHECKED_INPUTS - 2,
                len == payload@.len(),
                len == chunks * 32,
                forall|k: int|
                    0 <= k < i ==> inputs@[k] == if 2 <= k < 2 + chunks {
                        word_at(payload@, 32 * (k - 2))
                    } else {
                        self.checked_public_inputs@[k]
                    },
            decreases NUM_CHECKED_INPUTS - i,
        {
            if 2 <= i && i < 2 + chunks {
                inputs.push(Bytes32::from_slice(payload, 32 * (i - 2)));
            } else {
                inputs.push(self.checked_public_inputs[i]);
            }
            i += 1;
        }
        let ghost before = self@;
        self.checked_public_inputs = inputs;
        if self.filled < 2 + chunks {
            self.filled = 2 + chunks;
        }
        if self.filled == NUM_CHECKED_INPUTS {
            self.stage = Stage::Accumulated;
        }
        proof {
            let expected = before.after_accumulate(payload@);
            assert(self@.checked_public_inputs =~= expected.checked_public_inputs);
        }
        Ok(())
    }

    /// The checked public inputs against which the attempt's proof is to be
    /// checked. They are handed out to the initiator only, and only once the
    /// record is accumulated, so that no proof is checked against a record
    /// that is not fully populated.
    pub fn inputs_to_verify(&self, caller: &Address) -> (r: Result<&Vec<Bytes32>, ErrorCode>)
        requires
            self.wf(),
        ensures
            match r {
                Ok(inputs) => {
                    &&& self@.request_error(*caller) is None
                    &&& inputs@ == self@.checked_public_inputs
                    &&& self@.fully_populated()
                },
                Err(e) => self@.request_error(*caller) == Some(e),
            },
    {
        if !caller.same(&self.initiator) {
            return Err(ErrorCode::Unauthorized);
        }
        match self.stage {
            Stage::Accumulated => Ok(&self.checked_public_inputs),
            _ => Err(ErrorCode::InvalidOperation),
        }
    }

    /// Records the outcome of the proof check on a fully accumulated record.
    pub(crate) fn conclude(&mut self, verified: bool)
        requires
            old(self).wf(),
            old(self)@.stage is Accumulated,
        ensures
            final(self).wf(),
            final(self)@ == old(self)@.at_stage(
                if verified {
                    Stage::Verified
                } else {
                    Stage::Rejected
                },
            ),
    {
        if verified {
            self.stage = Stage::Verified;
        } else {
            self.stage = Stage::Rejected;
        }
    }

    /// Releases the record of a finished attempt, whether its proof was
    /// accepted or refused.
    pub fn close_verifier_state(&mut self, caller: &Address) -> (r: Result<(), ErrorCode>)
        requires
            old(self).wf(),
        ensures
            final(self).wf(),
            match r {
                Ok(()) => {
                    &&& old(self)@.close_error(*caller) is None
                    &&& final(self)@ == old(self)@.at_stage(Stage::Closed)
                },
                Err(e) => {
                    &&& old(self)@.close_error(*caller) == Some(e)
                    &&& final(self)@ == old(self)@
                },
            },
    {
        if !caller.same(&self.initiator) {
            return Err(ErrorCode::Unauthorized);
        }
        match self.stage {
            Stage::Verified | Stage::Rejected => {
                self.stage = Stage::Closed;
                Ok(())
            },
            _ => Err(ErrorCode::InvalidOperation),
        }
    }

    /// Abandons an attempt that has not been verified yet and releases its
    /// record. No funds have moved at that point.
    pub fn abort_verifier_state(&mut self, caller: &Address) -> (r: Result<(), ErrorCode>)
        requires
            old(self).wf(),
        ensures
            final(self).wf(),
            match r {
                Ok(()) => {
                    &&& old(self)@.abort_error(*caller) is None
                    &&& final(self)@ == old(self)@.at_stage(Stage::Closed)
                },
                Err(e) => {
                    &&& old(self)@.abort_error(*caller) == Some(e)
                    &&& final(self)@ == old(self)@
                },
            },
    {
        if !caller.same(&self.initiator) {
            return Err(ErrorCode::Unauthorized);
        }
        match self.stage {
            Stage::Opened | Stage::Accumulated => {
                self.stage = Stage::Closed;
                Ok(())
            },
            _ => Err(ErrorCode::InvalidOperation),
        }
    }
}

} // verus!
