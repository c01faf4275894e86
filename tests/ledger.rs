use soroban_sdk::testutils::EnvTestConfig;
use soroban_sdk::Env;
use truth_game::commitment::{be32_bytes, commitment_digest, preimage_bytes};
use truth_game::{Address, GameError, TruthsGameContract};

const SCENARIO_DIGEST: [u8; 32] = [
    57, 162, 180, 105, 246, 40, 157, 115, 66, 149, 35, 85, 81, 34, 116, 237, 161, 21, 205, 97,
    119, 76, 171, 220, 166, 106, 30, 127, 16, 110, 87, 14,
];

fn env() -> Env {
    Env::new_with_config(EnvTestConfig { capture_snapshot_at_drop: false })
}

fn addr(b: u8) -> Address {
    Address::new(vec![b; 32])
}

fn statements() -> Vec<Vec<u8>> {
    vec![b"s0".to_vec(), b"s1".to_vec(), b"s2".to_vec()]
}

#[test]
fn ids_count_up_from_one() {
    let mut ledger = TruthsGameContract::new();
    assert_eq!(ledger.get_game_count(), 0);
    for expected in 1u32..=5 {
        let id = ledger.commit(addr(1), [expected as u8; 32], 100);
        assert_eq!(id, expected);
        assert_eq!(ledger.get_game_count(), expected);
    }
}

#[test]
fn new_game_is_unrevealed() {
    let mut ledger = TruthsGameContract::new();
    let id = ledger.commit(addr(1), [9u8; 32], 1_000);
    let game = ledger.get_game(id).unwrap();
    assert_eq!(game.owner.key, vec![1u8; 32]);
    assert_eq!(game.commit_hash, [9u8; 32]);
    assert_eq!(game.reveal_time, 1_000 + 86_400);
    assert!(game.statements.is_empty());
    assert_eq!(game.lie_index, 0);
    assert!(!game.revealed);
}

#[test]
fn unknown_game_is_not_found() {
    let mut ledger = TruthsGameContract::new();
    assert_eq!(ledger.get_game(0).unwrap_err(), GameError::NotFound);
    assert_eq!(ledger.get_game(1).unwrap_err(), GameError::NotFound);
    assert_eq!(ledger.guess(addr(2), 1, 0), Err(GameError::NotFound));
    assert_eq!(ledger.get_guess(1, &addr(2)), None);
    let e = env();
    let r = ledger.reveal_game(&e, &addr(1), 1, statements(), 1, &b"salt".to_vec());
    assert_eq!(r, Err(GameError::NotFound));
}

#[test]
fn later_guess_replaces_earlier() {
    let mut ledger = TruthsGameContract::new();
    let id = ledger.commit(addr(1), [0u8; 32], 0);
    assert_eq!(ledger.guess(addr(2), id, 2), Ok(()));
    assert_eq!(ledger.get_guess(id, &addr(2)), Some(2));
    assert_eq!(ledger.guess(addr(2), id, 0), Ok(()));
    assert_eq!(ledger.get_guess(id, &addr(2)), Some(0));
}

#[test]
fn guesses_are_kept_per_pair() {
    let mut ledger = TruthsGameContract::new();
    let g1 = ledger.commit(addr(1), [0u8; 32], 0);
    let g2 = ledger.commit(addr(1), [1u8; 32], 0);
    assert_eq!(ledger.guess(addr(2), g1, 7), Ok(()));
    assert_eq!(ledger.guess(addr(3), g1, 1), Ok(()));
    assert_eq!(ledger.get_guess(g1, &addr(2)), Some(7));
    assert_eq!(ledger.get_guess(g1, &addr(3)), Some(1));
    assert_eq!(ledger.get_guess(g2, &addr(2)), None);
    assert_eq!(ledger.get_guess(g1, &addr(4)), None);
}

#[test]
fn missing_guess_is_absent() {
    let mut ledger = TruthsGameContract::new();
    let id = ledger.commit(addr(1), [0u8; 32], 0);
    assert_eq!(ledger.get_guess(id, &addr(2)), None);
}

#[test]
fn big_endian_index() {
    assert_eq!(be32_bytes(1), [0, 0, 0, 1]);
    assert_eq!(be32_bytes(0x0102_0304), [1, 2, 3, 4]);
    assert_eq!(be32_bytes(u32::MAX), [255, 255, 255, 255]);
}

#[test]
fn preimage_layout_has_no_separators() {
    let bytes = preimage_bytes(&statements(), 1, &b"salt".to_vec());
    assert_eq!(bytes, b"s0s1s2\x00\x00\x00\x01salt".to_vec());
}

#[test]
fn digest_is_sha256_of_layout() {
    let e = env();
    let d = commitment_digest(&e, &statements(), 1, &b"salt".to_vec());
    assert_eq!(d, SCENARIO_DIGEST);
    let d = commitment_digest(&e, &vec![b"a".to_vec(), b"b".to_vec(), b"c".to_vec()], 2, &Vec::new());
    let expected: [u8; 32] = [
        248, 133, 211, 36, 164, 125, 33, 69, 163, 216, 57, 44, 55, 151, 141, 125, 201, 132, 201,
        87, 40, 149, 12, 76, 243, 222, 107, 236, 197, 158, 96, 234,
    ];
    assert_eq!(d, expected);
}

#[test]
fn end_to_end_scenario() {
    let e = env();
    let mut ledger = TruthsGameContract::new();
    let a = addr(0xA);
    let b = addr(0xB);
    let id = ledger.commit(a.clone(), SCENARIO_DIGEST, 50);
    assert_eq!(id, 1);
    assert_eq!(ledger.guess(b.clone(), 1, 2), Ok(()));
    assert_eq!(ledger.guess(b.clone(), 1, 0), Ok(()));
    assert_eq!(ledger.get_guess(1, &b), Some(0));
    let r = ledger.reveal_game(&e, &a, 1, statements(), 1, &b"salt".to_vec());
    assert_eq!(r, Ok(()));
    let game = ledger.get_game(1).unwrap();
    assert!(game.revealed);
    assert_eq!(game.lie_index, 1);
    assert_eq!(game.statements, statements());
}

#[test]
fn tampered_reveal_is_a_mismatch() {
    let e = env();
    let mut ledger = TruthsGameContract::new();
    let a = addr(0xA);
    ledger.commit(a.clone(), SCENARIO_DIGEST, 0);
    let salt = b"salt".to_vec();
    let other = vec![b"s0".to_vec(), b"s1".to_vec(), b"s3".to_vec()];
    assert_eq!(ledger.reveal_game(&e, &a, 1, other, 1, &salt), Err(GameError::HashMismatch));
    assert_eq!(ledger.reveal_game(&e, &a, 1, statements(), 2, &salt), Err(GameError::HashMismatch));
    assert_eq!(
        ledger.reveal_game(&e, &a, 1, statements(), 1, &b"pepper".to_vec()),
        Err(GameError::HashMismatch)
    );
    // Moving a byte across a statement boundary keeps the layout, and so the digest.
    let shifted = vec![b"s0s".to_vec(), b"1".to_vec(), b"s2".to_vec()];
    let game = ledger.get_game(1).unwrap();
    assert!(!game.revealed);
    assert!(game.statements.is_empty());
    assert_eq!(ledger.reveal_game(&e, &a, 1, shifted, 1, &salt), Ok(()));
}

#[test]
fn second_reveal_is_refused() {
    let e = env();
    let mut ledger = TruthsGameContract::new();
    let a = addr(0xA);
    ledger.commit(a.clone(), SCENARIO_DIGEST, 0);
    let salt = b"salt".to_vec();
    assert_eq!(ledger.reveal_game(&e, &a, 1, statements(), 1, &salt), Ok(()));
    assert_eq!(
        ledger.reveal_game(&e, &a, 1, statements(), 1, &salt),
        Err(GameError::AlreadyRevealed)
    );
    assert_eq!(
        ledger.reveal_with_digest(&a, 1, statements(), 1, &SCENARIO_DIGEST),
        Err(GameError::AlreadyRevealed)
    );
}

#[test]
fn only_the_owner_reveals() {
    let e = env();
    let mut ledger = TruthsGameContract::new();
    let a = addr(0xA);
    let b = addr(0xB);
    ledger.commit(a.clone(), SCENARIO_DIGEST, 0);
    let salt = b"salt".to_vec();
    assert_eq!(ledger.reveal_game(&e, &b, 1, statements(), 1, &salt), Err(GameError::NotOwner));
    assert!(!ledger.get_game(1).unwrap().revealed);
}

#[test]
fn reveal_with_given_digest() {
    let mut ledger = TruthsGameContract::new();
    let a = addr(0xA);
    ledger.commit(a.clone(), [5u8; 32], 0);
    assert_eq!(ledger.reveal_with_digest(&addr(0xB), 1, statements(), 0, &[5u8; 32]), Err(GameError::NotOwner));
    assert_eq!(ledger.reveal_with_digest(&a, 1, statements(), 0, &[6u8; 32]), Err(GameError::HashMismatch));
    assert_eq!(ledger.reveal_with_digest(&a, 2, statements(), 0, &[5u8; 32]), Err(GameError::NotFound));
    assert_eq!(ledger.reveal_with_digest(&a, 1, statements(), 0, &[5u8; 32]), Ok(()));
    let game = ledger.get_game(1).unwrap();
    assert!(game.revealed);
    assert_eq!(game.lie_index, 0);
}

#[test]
fn address_equality_is_by_key() {
    assert!(addr(1).same_as(&addr(1)));
    assert!(!addr(1).same_as(&addr(2)));
    assert!(!Address::new(vec![1]).same_as(&Address::new(vec![1, 1])));
}
