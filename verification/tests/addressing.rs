use blackjack::addressing::{game_address, global_state_address, player_address, record_address};
use blackjack::bytes32::Bytes32;

fn word(b: u8) -> Bytes32 {
    Bytes32::new([b; 32])
}

#[test]
fn global_state_address_of_a_program() {
    assert_eq!(
        global_state_address(&word(7)).unwrap().bytes,
        [
            166, 112, 60, 228, 148, 170, 46, 22, 140, 158, 25, 101, 212, 117, 96, 36, 19, 185,
            193, 198, 234, 171, 55, 143, 71, 234, 9, 145, 237, 12, 224, 36
        ]
    );
    assert_ne!(global_state_address(&word(8)), global_state_address(&word(7)));
}

#[test]
fn game_address_by_id() {
    assert_eq!(
        game_address(&word(7), 1).unwrap().bytes,
        [
            58, 41, 218, 94, 123, 183, 187, 63, 27, 196, 109, 60, 161, 194, 152, 186, 91, 96, 14,
            167, 201, 86, 250, 74, 69, 107, 145, 15, 35, 191, 149, 10
        ]
    );
    assert_eq!(
        game_address(&word(7), 0x0102_0304_0506_0708).unwrap().bytes,
        [
            80, 140, 68, 122, 71, 53, 56, 94, 75, 19, 122, 187, 73, 41, 28, 157, 34, 38, 166, 69,
            158, 5, 133, 159, 156, 215, 78, 168, 85, 12, 188, 11
        ]
    );
}

#[test]
fn game_addresses_differ_by_id() {
    let mut seen = Vec::new();
    for id in 1..50u64 {
        let address = game_address(&word(7), id).unwrap();
        assert!(!seen.contains(&address));
        seen.push(address);
    }
}

#[test]
fn player_address_by_owner_and_game() {
    assert_eq!(
        player_address(&word(7), &word(0xa), 1).unwrap().bytes,
        [
            241, 23, 100, 152, 175, 144, 210, 149, 138, 5, 103, 14, 71, 37, 16, 80, 242, 23, 221,
            33, 211, 235, 250, 199, 158, 122, 242, 161, 238, 122, 179, 92
        ]
    );
    let own = player_address(&word(7), &word(0xa), 1);
    assert_ne!(player_address(&word(7), &word(0xb), 1), own);
    assert_ne!(player_address(&word(7), &word(0xa), 2), own);
    assert_ne!(game_address(&word(7), 1), own);
}

#[test]
fn record_address_matches_known_derivations() {
    assert_eq!(
        record_address(&word(1), &word(2), &word(3)).unwrap().bytes,
        [
            60, 212, 244, 139, 247, 39, 12, 67, 51, 170, 236, 255, 252, 37, 223, 49, 60, 103, 163,
            39, 200, 154, 141, 16, 172, 210, 214, 52, 213, 118, 108, 247
        ]
    );
    assert_eq!(
        record_address(&word(0xe1), &word(0x99), &word(7)).unwrap().bytes,
        [
            89, 154, 245, 32, 207, 247, 65, 125, 172, 1, 178, 108, 253, 84, 108, 205, 187, 174,
            182, 31, 151, 251, 61, 146, 124, 14, 133, 22, 248, 2, 60, 157
        ]
    );
}

#[test]
fn record_address_is_deterministic_and_separates_attempts() {
    let a = record_address(&word(1), &word(2), &word(3)).unwrap();
    assert_eq!(record_address(&word(1), &word(2), &word(3)), Some(a));
    assert_ne!(a, word(1));
    assert_ne!(a, word(2));
    assert_ne!(a, word(3));
    assert_ne!(record_address(&word(2), &word(1), &word(3)), Some(a));
    assert_ne!(record_address(&word(1), &word(4), &word(3)), Some(a));
    assert_ne!(record_address(&word(1), &word(2), &word(5)), Some(a));
}
