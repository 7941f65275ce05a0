use battleship_engine::error::EngineError;
use battleship_engine::token::{encode_token, generate_token, token_from, TOKEN_BYTES};

#[test]
fn key_is_written_in_lowercase_hexadecimal() {
    assert_eq!(encode_token(&[0x00, 0xff, 0x1a, 0xb7]), "00ff1ab7");
    assert_eq!(encode_token(&[1, 2, 3, 15, 16]), "0102030f10");
    assert_eq!(encode_token(&[]), "");
}

#[test]
fn key_of_full_length_gives_sixty_four_digits() {
    let key = [0xabu8; TOKEN_BYTES];
    let token = encode_token(&key);
    assert_eq!(token.len(), 64);
    assert_eq!(token, "ab".repeat(32));
}

#[test]
fn token_is_sixty_four_lowercase_hex_digits() {
    let token = generate_token().unwrap();
    assert_eq!(token.len(), 64);
    assert!(token.chars().all(|c| matches!(c, '0'..='9' | 'a'..='f')));
}

#[test]
fn tokens_differ() {
    let first: Result<String, EngineError> = generate_token();
    let second = generate_token();
    assert_ne!(first.unwrap(), second.unwrap());
}

#[test]
fn filled_key_becomes_a_token() {
    let key = [0x5au8; TOKEN_BYTES];
    assert_eq!(token_from(Ok(()), &key), Ok("5a".repeat(32)));
}

#[test]
fn failed_random_source_gives_no_token() {
    let key = [0u8; TOKEN_BYTES];
    let failure = rand::Error::new("no random source");
    assert_eq!(token_from(Err(failure), &key), Err(EngineError::IdentifierUnavailable));
}
