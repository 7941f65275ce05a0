//! Opaque identifiers: 256 random bits from the operating system, written
//! as 64 lowercase hexadecimal digits.

use crate::error::EngineError;
use rand::rngs::OsRng;
use rand::RngCore;
use vstd::prelude::*;

verus! {

/// Number of random bytes in an identifier.
pub const TOKEN_BYTES: usize = 32;

/// The error of the `rand` crate's generators.
#[verifier::external_type_specification]
#[verifier::external_body]
pub struct ExRandError(rand::Error);

/// The lowercase hexadecimal digit for a value below sixteen.
pub open spec fn hex_digit(value: int) -> char {
    seq![
        '0',
        '1',
        '2',
        '3',
        '4',
        '5',
        '6',
        '7',
        '8',
        '9',
        'a',
        'b',
        'c',
        'd',
        'e',
        'f',
    ][value]
}

/// The bytes written in lowercase hexadecimal: two digits for each byte, the
/// upper half first.
pub open spec fn hex_lower(bytes: Seq<u8>) -> Seq<char> {
    Seq::new(
        2 * bytes.len(),
        |i: int|
            if i % 2 == 0 {
                hex_digit(bytes[i / 2] as int / 16)
            } else {
                hex_digit(bytes[i / 2] as int % 16)
            },
    )
}

/// One of the sixteen lowercase hexadecimal digits.
pub open spec fn is_hex_digit(c: char) -> bool {
    exists|value: int| 0 <= value < 16 && c == #[trigger] hex_digit(value)
}

/// The shape of an identifier: 64 lowercase hexadecimal digits.
pub open spec fn is_token(text: Seq<char>) -> bool {
    &&& text.len() == 2 * TOKEN_BYTES
    &&& forall|i: int| 0 <= i < text.len() ==> is_hex_digit(#[trigger] text[i])
}

/// Thirty-two bytes in hexadecimal have the shape of an identifier.
pub proof fn lemma_hex_of_key_is_token(key: Seq<u8>)
    requires
        key.len() == TOKEN_BYTES,
    ensures
        is_token(hex_lower(key)),
{
    let text = hex_lower(key);
    assert forall|i: int| 0 <= i < text.len() implies is_hex_digit(#[trigger] text[i]) by {
        let byte = key[i / 2] as int;
        if i % 2 == 0 {
            assert(text[i] == hex_digit(byte / 16));
        } else {
            assert(text[i] == hex_digit(byte % 16));
        }
    }
}

/// `OsRng::try_fill_bytes` of the `rand` crate: overwrites the buffer with
/// bytes from the operating system's random source, or reports that the
/// source failed. The contract claims only that the buffer keeps its length;
/// nothing is said of the bytes.
#[verifier::external_body]
fn fill_random(buffer: &mut Vec<u8>) -> (outcome: Result<(), rand::Error>)
    ensures
        final(buffer)@.len() == old(buffer)@.len(),
{
    OsRng.try_fill_bytes(buffer.as_mut_slice())
}

/// `hex::encode`: the bytes in lowercase hexadecimal, two digits for each
/// byte. The input is kept short enough for the text to fit in a `String`.
#[verifier::external_body]
fn hex_encode(data: &[u8]) -> (text: String)
    requires
        2 * data@.len() <= isize::MAX,
    ensures
        text@ == hex_lower(data@),
{
    hex::encode(data)
}

/// Writes a key as an identifier.
pub fn encode_token(key: &[u8]) -> (token: String)
    requires
        2 * key@.len() <= isize::MAX,
    ensures
        token@ == hex_lower(key@),
        key@.len() == TOKEN_BYTES ==> is_token(token@),
{
    proof {
        if key@.len() == TOKEN_BYTES {
            lemma_hex_of_key_is_token(key@);
        }
    }
    hex_encode(key)
}

/// Turns what the random source gave into an identifier: the key in
/// hexadecimal where the source filled it, and the failure where it did
/// not.
pub fn token_from(filled: Result<(), rand::Error>, key: &[u8]) -> (outcome: Result<
    String,
    EngineError,
>)
    requires
        2 * key@.len() <= isize::MAX,
    ensures
        match filled {
            Ok(_) => outcome is Ok && outcome->Ok_0@ == hex_lower(key@) && (key@.len()
                == TOKEN_BYTES ==> is_token(outcome->Ok_0@)),
            Err(_) => outcome == Err::<String, EngineError>(EngineError::IdentifierUnavailable),
        },
{
    match filled {
        Ok(()) => Ok(encode_token(key)),
        Err(_) => Err(EngineError::IdentifierUnavailable),
    }
}

/// Draws a fresh identifier from the operating system's random source.
///
/// Which identifier comes out is not determined by anything the caller
/// holds; the contract states its shape, and that the only failure is that
/// of the random source.
pub fn generate_token() -> (outcome: Result<String, EngineError>)
    ensures
        match outcome {
            Ok(token) => is_token(token@),
            Err(e) => e == EngineError::IdentifierUnavailable,
        },
{
    let mut key: Vec<u8> = vec![0u8; TOKEN_BYTES];
    let filled = fill_random(&mut key);
    token_from(filled, key.as_slice())
}

} // verus!
