//! The errors that ledger and pipeline operations report.

use vstd::prelude::*;

verus! {

/// Why an operation was rejected. A rejected operation changes nothing.
#[derive(Clone, Copy, Debug, PartialEq, Eq, Structural)]
pub enum ErrorCode {
    /// The ledger's global state already exists.
    AlreadyInitialized,
    /// The ledger's global state does not exist yet.
    NotInitialized,
    /// The payer's spendable balance does not cover the stake.
    InsufficientFunds,
    /// No game with the requested id is on the ledger.
    GameNotFound,
    /// The caller holds no escrow record for the game.
    PlayerNotFound,
    /// No settlement attempt is recorded at the given address.
    AttemptNotFound,
    /// The game has already been settled.
    GameNotActive,
    /// The operation does not apply to the record in its current condition.
    InvalidOperation,
    /// The bet amount does not match the game's bet amount.
    BetMismatch,
    /// The game is still active, so nothing can be withdrawn from it.
    GameStillActive,
    /// The amount exceeds what is locked for the player.
    InsufficientBalance,
    /// A payload or record does not have the required layout.
    MalformedInput,
    /// The payload holds more chunks than there are free input slots.
    TooManyInputs,
    /// A nullifier of this attempt has been spent by an earlier settlement.
    NullifierReused,
    /// The caller is not the initiator of the settlement attempt.
    Unauthorized,
    /// A counter or balance would leave the range of its type.
    Overflow,
}

impl ErrorCode {
    /// The text that describes the error to a caller.
    pub open spec fn spec_message(self) -> Seq<char> {
        match self {
            ErrorCode::AlreadyInitialized => "The global state or record already exists."@,
            ErrorCode::NotInitialized => "The global state does not exist yet."@,
            ErrorCode::InsufficientFunds => "The spendable balance does not cover the stake."@,
            ErrorCode::GameNotFound => "No game with this id is on the ledger."@,
            ErrorCode::PlayerNotFound => "The caller holds no escrow record for the game."@,
            ErrorCode::AttemptNotFound => "No settlement attempt is recorded at this address."@,
            ErrorCode::GameNotActive => "The game has already been settled."@,
            ErrorCode::InvalidOperation => "The operation does not apply here."@,
            ErrorCode::BetMismatch => "The bet amount does not match the game's bet amount."@,
            ErrorCode::GameStillActive => "Game is currently active."@,
            ErrorCode::InsufficientBalance => "Insufficient balance."@,
            ErrorCode::MalformedInput => "The payload or record does not have the required layout."@,
            ErrorCode::TooManyInputs => "The payload holds more chunks than there are free input slots."@,
            ErrorCode::NullifierReused => "A nullifier of this attempt has already been spent."@,
            ErrorCode::Unauthorized => "The caller is not the initiator of the settlement attempt."@,
            ErrorCode::Overflow => "A counter or balance would leave the range of its type."@,
        }
    }

    /// The text that describes the error to a caller.
    pub fn message(&self) -> (text: &'static str)
        ensures
            text@ == self.spec_message(),
    {
        match self {
            ErrorCode::AlreadyInitialized => "The global state or record already exists.",
            ErrorCode::NotInitialized => "The global state does not exist yet.",
            ErrorCode::InsufficientFunds => "The spendable balance does not cover the stake.",
            ErrorCode::GameNotFound => "No game with this id is on the ledger.",
            ErrorCode::PlayerNotFound => "The caller holds no escrow record for the game.",
            ErrorCode::AttemptNotFound => "No settlement attempt is recorded at this address.",
            ErrorCode::GameNotActive => "The game has already been settled.",
            ErrorCode::InvalidOperation => "The operation does not apply here.",
            ErrorCode::BetMismatch => "The bet amount does not match the game's bet amount.",
            ErrorCode::GameStillActive => "Game is currently active.",
            ErrorCode::InsufficientBalance => "Insufficient balance.",
            ErrorCode::MalformedInput => "The payload or record does not have the required layout.",
            ErrorCode::TooManyInputs => "The payload holds more chunks than there are free input slots.",
            ErrorCode::NullifierReused => "A nullifier of this attempt has already been spent.",
            ErrorCode::Unauthorized => "The caller is not the initiator of the settlement attempt.",
            ErrorCode::Overflow => "A counter or balance would leave the range of its type.",
        }
    }
}

} // verus!
