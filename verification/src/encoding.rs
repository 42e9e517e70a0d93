//! Base64, with the standard alphabet and padding.

use base64::Engine;
use vstd::prelude::*;

verus! {

/// The character of the standard alphabet for a number below 64.
pub open spec fn base64_digit(number: int) -> char {
    if number < 26 {
        ('A' as int + number) as char
    } else if number < 52 {
        ('a' as int + number - 26) as char
    } else if number < 62 {
        ('0' as int + number - 52) as char
    } else if number == 62 {
        '+'
    } else {
        '/'
    }
}

/// A byte as a number, where the bytes are thought to go on with zeros.
pub open spec fn byte_at(bytes: Seq<u8>, at: int) -> int {
    if at < bytes.len() {
        bytes[at] as int
    } else {
        0
    }
}

/// The number that six bits of the bytes make, where all bits are cut into groups of six: three
/// bytes make four groups.
pub open spec fn six_bits(bytes: Seq<u8>, group: int) -> int {
    let first = byte_at(bytes, group / 4 * 3);
    let second = byte_at(bytes, group / 4 * 3 + 1);
    let third = byte_at(bytes, group / 4 * 3 + 2);
    if group % 4 == 0 {
        first / 4
    } else if group % 4 == 1 {
        first % 4 * 16 + second / 16
    } else if group % 4 == 2 {
        second % 16 * 4 + third / 64
    } else {
        third % 64
    }
}

/// How many characters so many bytes have in base64: four for each three of them, where what is
/// left over at the end counts as three.
pub open spec fn base64_len(bytes: nat) -> nat {
    4 * ((bytes + 2) / 3)
}

/// Bytes in base64: one character for each group of six bits, and padding in place of a group that
/// begins past the last bit.
pub open spec fn base64_text(bytes: Seq<u8>) -> Seq<char> {
    Seq::new(
        base64_len(bytes.len()),
        |group: int|
            if 6 * group < 8 * bytes.len() {
                base64_digit(six_bits(bytes, group))
            } else {
                '='
            },
    )
}

/// `base64::engine::general_purpose::STANDARD.encode`: the bytes in base64, with the alphabet of
/// letters, digits, `+` and `/`, padded with `=` to a multiple of four characters. It panics where
/// the text would not fit into memory.
#[verifier::external_body]
pub(crate) fn base64_encode(bytes: &[u8]) -> (text: String)
    requires
        base64_len(bytes@.len()) <= isize::MAX,
    ensures
        text@ == base64_text(bytes@),
{
    base64::engine::general_purpose::STANDARD.encode(bytes)
}

/// The code of the character for a number below 64.
proof fn base64_digit_code(number: int)
    requires
        0 <= number < 64,
    ensures
        base64_digit(number) as int == if number < 26 {
            65 + number
        } else if number < 52 {
            71 + number
        } else if number < 62 {
            number - 4
        } else if number == 62 {
            43
        } else {
            47
        },
        base64_digit(number) != '=',
{
}

/// Six bits make a number below 64.
proof fn six_bits_are_below_64(bytes: Seq<u8>, group: int)
    requires
        0 <= group,
    ensures
        0 <= six_bits(bytes, group) < 64,
{
}

/// Texts that agree on a group that is no padding agree on its six bits.
proof fn same_digit_means_same_bits(first: Seq<u8>, second: Seq<u8>, group: int)
    requires
        base64_text(first) == base64_text(second),
        first.len() == second.len(),
        0 <= group,
        6 * group < 8 * first.len(),
    ensures
        six_bits(first, group) == six_bits(second, group),
{
    assert(base64_text(first)[group] == base64_digit(six_bits(first, group)));
    assert(base64_text(second)[group] == base64_digit(six_bits(second, group)));
    six_bits_are_below_64(first, group);
    six_bits_are_below_64(second, group);
    base64_digit_code(six_bits(first, group));
    base64_digit_code(six_bits(second, group));
}

/// A shorter sequence of bytes has another text: it has fewer characters or more padding.
proof fn shorter_bytes_have_another_text(shorter: Seq<u8>, longer: Seq<u8>)
    requires
        shorter.len() < longer.len(),
    ensures
        base64_text(shorter) != base64_text(longer),
{
    if base64_text(shorter) == base64_text(longer) {
        assert(base64_text(shorter).len() == base64_len(shorter.len()));
        assert(base64_text(longer).len() == base64_len(longer.len()));
        let last = (shorter.len() + 2) / 3 - 1;
        let group = if shorter.len() % 3 == 1 {
            4 * last + 2
        } else {
            4 * last + 3
        };
        assert(base64_text(shorter)[group] == '=');
        six_bits_are_below_64(longer, group);
        base64_digit_code(six_bits(longer, group));
        assert(base64_text(longer)[group] == base64_digit(six_bits(longer, group)));
    }
}

/// Base64 loses nothing: different bytes have different texts.
pub proof fn base64_text_determines_bytes(first: Seq<u8>, second: Seq<u8>)
    requires
        base64_text(first) == base64_text(second),
    ensures
        first == second,
{
    if first.len() < second.len() {
        shorter_bytes_have_another_text(first, second);
    }
    if second.len() < first.len() {
        shorter_bytes_have_another_text(second, first);
    }
    assert forall|at: int| 0 <= at < first.len() implies first[at] == second[at] by {
        let group = at / 3 * 4 + at % 3;
        assert(group / 4 == at / 3 && group % 4 == at % 3);
        assert((group + 1) / 4 == at / 3 && (group + 1) % 4 == at % 3 + 1);
        same_digit_means_same_bits(first, second, group);
        same_digit_means_same_bits(first, second, group + 1);
    }
    assert(first =~= second);
}

/// A base64 text has letters, digits, `+`, `/` and `=` only, so that each of its characters is one
/// byte.
pub proof fn base64_text_is_ascii(bytes: Seq<u8>)
    ensures
        vstd::utf8::is_ascii_chars(base64_text(bytes)),
{
    let text = base64_text(bytes);
    assert forall|i: int| 0 <= i < text.len() implies '\0' <= #[trigger] text[i] <= '\u{7f}' by {
        six_bits_are_below_64(bytes, i);
        base64_digit_code(six_bits(bytes, i));
    }
}

} // verus!
