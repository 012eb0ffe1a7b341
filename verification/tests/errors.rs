use blackjack::error::ErrorCode;

#[test]
fn every_error_has_its_own_message() {
    let all = [
        ErrorCode::AlreadyInitialized,
        ErrorCode::NotInitialized,
        ErrorCode::InsufficientFunds,
        ErrorCode::GameNotFound,
        ErrorCode::PlayerNotFound,
        ErrorCode::AttemptNotFound,
        ErrorCode::GameNotActive,
        ErrorCode::InvalidOperation,
        ErrorCode::BetMismatch,
        ErrorCode::GameStillActive,
        ErrorCode::InsufficientBalance,
        ErrorCode::MalformedInput,
        ErrorCode::TooManyInputs,
        ErrorCode::NullifierReused,
        ErrorCode::Unauthorized,
        ErrorCode::Overflow,
    ];
    for (i, a) in all.iter().enumerate() {
        assert!(!a.message().is_empty());
        for b in &all[i + 1..] {
            assert_ne!(a, b);
            assert_ne!(a.message(), b.message());
        }
    }
}

#[test]
fn messages_of_the_wager_errors() {
    assert_eq!(
        ErrorCode::BetMismatch.message(),
        "The bet amount does not match the game's bet amount."
    );
    assert_eq!(ErrorCode::GameStillActive.message(), "Game is currently active.");
    assert_eq!(ErrorCode::InsufficientBalance.message(), "Insufficient balance.");
}
