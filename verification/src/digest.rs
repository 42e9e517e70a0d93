//! SHA-256 digests in lowercase hexadecimal.

use crate::error::{invalid, outcome, BoundedReadError, Refusal};
use crate::limits::DIGEST_CHARS;
use sha2::Digest;
use vstd::prelude::*;
use vstd::utf8::{is_ascii_chars, is_ascii_chars_encode_utf8};

verus! {

/// The SHA-256 digest of bytes.
pub uninterp spec fn sha256(bytes: Seq<u8>) -> Seq<u8>;

/// `sha2::Sha256::digest`: the SHA-256 digest of the bytes, which has 32 bytes.
#[verifier::external_body]
fn sha256_digest(bytes: &[u8]) -> (digest: [u8; 32])
    ensures
        digest@ == sha256(bytes@),
{
    sha2::Sha256::digest(bytes).into()
}

/// `String::push`: appends one character.
pub assume_specification[ String::push ](text: &mut String, character: char)
    ensures
        final(text)@ == old(text)@.push(character),
;

/// The lowercase hexadecimal digit of a number below sixteen.
pub open spec fn hex_digit(number: int) -> char {
    if number < 10 {
        ('0' as int + number) as char
    } else {
        ('a' as int + number - 10) as char
    }
}

/// Bytes in lowercase hexadecimal, two digits for each, the high one first.
pub open spec fn hex_text(bytes: Seq<u8>) -> Seq<char> {
    Seq::new(
        2 * bytes.len(),
        |i: int|
            if i % 2 == 0 {
                hex_digit(bytes[i / 2] as int / 16)
            } else {
                hex_digit(bytes[i / 2] as int % 16)
            },
    )
}

/// Whether a character is a digit of lowercase hexadecimal.
pub open spec fn is_hex_digit(character: char) -> bool {
    '0' <= character <= '9' || 'a' <= character <= 'f'
}

/// Whether a text has the form of a SHA-256 digest: 64 digits of lowercase hexadecimal.
pub open spec fn is_digest(text: Seq<char>) -> bool {
    &&& text.len() == DIGEST_CHARS
    &&& forall|i: int| 0 <= i < text.len() ==> is_hex_digit(#[trigger] text[i])
}

/// What the check of a digest's form finds.
pub open spec fn digest_verdict(text: Seq<char>) -> Result<(), Refusal> {
    if is_digest(text) {
        Ok(())
    } else {
        Err(Refusal::InvalidCustody("digest must be lowercase SHA-256"@))
    }
}

/// The lowercase hexadecimal digit of a number below sixteen.
fn digit(number: u8) -> (character: char)
    requires
        number < 16,
    ensures
        character == hex_digit(number as int),
{
    if number < 10 {
        ('0' as u8 + number) as char
    } else {
        ('a' as u8 + (number - 10)) as char
    }
}

/// Bytes in lowercase hexadecimal.
pub fn hex(bytes: &[u8]) -> (text: String)
    ensures
        text@ == hex_text(bytes@),
{
    let mut output = String::new();
    let mut i: usize = 0;
    while i < bytes.len()
        invariant
            i <= bytes@.len(),
            output@ == hex_text(bytes@.take(i as int)),
        decreases bytes@.len() - i,
    {
        let byte: u8 = bytes[i];
        output.push(digit(byte / 16));
        output.push(digit(byte % 16));
        i = i + 1;
        proof {
            let now = hex_text(bytes@.take(i as int));
            let before = hex_text(bytes@.take(i - 1));
            assert(output@ =~= now) by {
                assert(output@.len() == now.len());
                assert forall|j: int| 0 <= j < now.len() implies output@[j] == now[j] by {
                    if j < before.len() {
                        assert(output@[j] == before[j]);
                        assert(bytes@.take(i as int)[j / 2] == bytes@.take(i - 1)[j / 2]);
                    } else {
                        assert(j / 2 == i - 1);
                        assert(bytes@.take(i as int)[j / 2] == byte);
                    }
                }
            }
        }
    }
    assert(bytes@.take(i as int) =~= bytes@);
    output
}

/// The SHA-256 digest of bytes in lowercase hexadecimal.
pub fn sha256_hex(bytes: &[u8]) -> (text: String)
    ensures
        text@ == hex_text(sha256(bytes@)),
        is_digest(text@),
{
    let digest: [u8; 32] = sha256_digest(bytes);
    let text = hex(digest.as_slice());
    proof {
        hex_text_of_32_bytes_is_a_digest(sha256(bytes@));
    }
    text
}

/// Checks that a text has the form of a SHA-256 digest.
pub fn validate_digest(value: &str) -> (result: Result<(), BoundedReadError>)
    ensures
        outcome(result) == digest_verdict(value@),
{
    let bytes: &[u8] = value.as_bytes();
    for character in characters: value.chars()
        invariant
            characters.seq() == value@,
            forall|i: int| 0 <= i < characters.index() ==> is_hex_digit(#[trigger] value@[i]),
    {
        if !(('0' <= character && character <= '9') || ('a' <= character && character <= 'f')) {
            assert(!is_hex_digit(value@[characters.index() as int]));
            return Err(invalid("digest must be lowercase SHA-256"));
        }
    }
    proof {
        assert(is_ascii_chars(value@)) by {
            assert forall|i: int| 0 <= i < value@.len() implies '\0' <= #[trigger] value@[i]
                <= '\u{7f}' by {
                assert(is_hex_digit(value@[i]));
            }
        }
        is_ascii_chars_encode_utf8(value@);
    }
    if bytes.len() != DIGEST_CHARS {
        return Err(invalid("digest must be lowercase SHA-256"));
    }
    Ok(())
}

/// Every digit of a byte is a digit of lowercase hexadecimal.
proof fn hex_digit_is_a_hex_digit(number: int)
    requires
        0 <= number < 16,
    ensures
        is_hex_digit(hex_digit(number)),
{
}

/// The hexadecimal text of 32 bytes has the form of a digest.
pub proof fn hex_text_of_32_bytes_is_a_digest(bytes: Seq<u8>)
    requires
        bytes.len() == 32,
    ensures
        is_digest(hex_text(bytes)),
{
    let text = hex_text(bytes);
    assert forall|i: int| 0 <= i < text.len() implies is_hex_digit(#[trigger] text[i]) by {
        hex_digit_is_a_hex_digit(bytes[i / 2] as int / 16);
        hex_digit_is_a_hex_digit(bytes[i / 2] as int % 16);
    }
}

/// Different numbers below sixteen have different digits.
proof fn hex_digit_determines_number(first: int, second: int)
    requires
        0 <= first < 16,
        0 <= second < 16,
        hex_digit(first) == hex_digit(second),
    ensures
        first == second,
{
    assert(hex_digit(first) as int == if first < 10 { 48 + first } else { 87 + first });
    assert(hex_digit(second) as int == if second < 10 { 48 + second } else { 87 + second });
}

/// Comparing hexadecimal texts compares the bytes: different bytes have different texts.
pub proof fn hex_text_determines_bytes(first: Seq<u8>, second: Seq<u8>)
    requires
        hex_text(first) == hex_text(second),
    ensures
        first == second,
{
    assert(hex_text(first).len() == 2 * first.len());
    assert(hex_text(second).len() == 2 * second.len());
    assert forall|i: int| 0 <= i < first.len() implies first[i] == second[i] by {
        assert((2 * i) / 2 == i && (2 * i + 1) / 2 == i);
        let high = hex_text(first)[2 * i];
        let low = hex_text(first)[2 * i + 1];
        assert(high == hex_digit(first[i] as int / 16));
        assert(low == hex_digit(first[i] as int % 16));
        assert(hex_text(second)[2 * i] == hex_digit(second[i] as int / 16));
        assert(hex_text(second)[2 * i + 1] == hex_digit(second[i] as int % 16));
        hex_digit_determines_number(first[i] as int / 16, second[i] as int / 16);
        hex_digit_determines_number(first[i] as int % 16, second[i] as int % 16);
    }
    assert(first =~= second);
}

} // verus!
