//! Parsing of 32-byte values written as hexadecimal text.

use vstd::prelude::*;
use vstd::string::*;

use crate::cli::decimal_text;

verus! {

/// Why hexadecimal text could not be decoded, with the variants and fields
/// of `hex::FromHexError`.
#[derive(Clone, Copy, Debug, PartialEq, Eq)]
pub enum HexDecodeError {
    /// A byte that is not a hexadecimal digit, and its position.
    InvalidHexCharacter { c: char, index: usize },
    /// The text has an odd number of bytes.
    OddLength,
    /// The text does not fit the length of a fixed-size result.
    InvalidStringLength,
}

/// `b` is the ASCII code of a hexadecimal digit, in either case.
pub open spec fn is_hex_digit(b: u8) -> bool {
    (0x30 <= b <= 0x39) || (0x41 <= b <= 0x46) || (0x61 <= b <= 0x66)
}

/// The value of the hexadecimal digit whose ASCII code is `b`.
pub open spec fn hex_digit_value(b: u8) -> int
    recommends
        is_hex_digit(b),
{
    if 0x30 <= b <= 0x39 {
        b - 0x30
    } else if 0x41 <= b <= 0x46 {
        b - 0x41 + 10
    } else {
        b - 0x61 + 10
    }
}

/// `text` is an even number of hexadecimal digits.
pub open spec fn hex_decodable(text: Seq<u8>) -> bool {
    &&& text.len() % 2 == 0
    &&& forall|i: int| 0 <= i < text.len() ==> is_hex_digit(#[trigger] text[i])
}

/// The bytes that the hexadecimal digits of `text` spell, two digits to a
/// byte, the high half first.
pub open spec fn hex_decoded(text: Seq<u8>) -> Seq<u8> {
    Seq::new(
        text.len() / 2,
        |i: int| (hex_digit_value(text[2 * i]) * 16 + hex_digit_value(text[2 * i + 1])) as u8,
    )
}

/// The ASCII code of the lower-case hexadecimal digit for `v`.
pub open spec fn hex_digit_code(v: u8) -> u8
    recommends
        0 <= v < 16,
{
    if v < 10 {
        (v + 0x30) as u8
    } else {
        (v - 10 + 0x61) as u8
    }
}

/// `bytes` written as lower-case hexadecimal, two digits to a byte, the
/// high half first.
pub open spec fn hex_encoded(bytes: Seq<u8>) -> Seq<u8> {
    Seq::new(
        2 * bytes.len(),
        |i: int|
            if i % 2 == 0 {
                hex_digit_code(bytes[i / 2] / 16)
            } else {
                hex_digit_code(bytes[i / 2] % 16)
            },
    )
}

/// Decoding gives back the bytes that were written as hexadecimal: any
/// bytes, written two digits to a byte with the high half first, decode and
/// decode to those bytes.
pub proof fn lemma_hex_round_trip(bytes: Seq<u8>)
    ensures
        hex_decodable(hex_encoded(bytes)),
        hex_decoded(hex_encoded(bytes)) == bytes,
{
    let t = hex_encoded(bytes);
    assert forall|i: int| 0 <= i < t.len() implies is_hex_digit(#[trigger] t[i]) by {
        let b = bytes[i / 2];
        assert(0 <= b / 16 < 16 && 0 <= b % 16 < 16);
    }
    assert forall|i: int| 0 <= i < bytes.len() implies #[trigger] hex_decoded(t)[i] == bytes[i] by {
        let b = bytes[i];
        assert((2 * i) / 2 == i && (2 * i) % 2 == 0);
        assert((2 * i + 1) / 2 == i && (2 * i + 1) % 2 == 1);
        assert(hex_digit_value(hex_digit_code(b / 16)) == b / 16);
        assert(hex_digit_value(hex_digit_code(b % 16)) == b % 16);
        assert(b == (b / 16) * 16 + b % 16);
    }
    assert(hex_decoded(t) =~= bytes);
}

/// The hexadecimal digits are exactly the characters '0' to '9', 'a' to
/// 'f' and 'A' to 'F', with the values 0 to 9, 10 to 15 and 10 to 15.
pub proof fn lemma_hex_digit_characters(b: u8)
    ensures
        is_hex_digit(b) <==> (('0' as int) <= b <= ('9' as int) || ('a' as int) <= b <= ('f' as int)
            || ('A' as int) <= b <= ('F' as int)),
        ('0' as int) <= b <= ('9' as int) ==> hex_digit_value(b) == b - ('0' as int),
        ('a' as int) <= b <= ('f' as int) ==> hex_digit_value(b) == b - ('a' as int) + 10,
        ('A' as int) <= b <= ('F' as int) ==> hex_digit_value(b) == b - ('A' as int) + 10,
{
}

/// Upper- and lower-case hexadecimal letters have the same value.
pub proof fn lemma_hex_case_insensitive(k: u8)
    requires
        k < 6,
    ensures
        is_hex_digit((0x41 + k) as u8),
        is_hex_digit((0x61 + k) as u8),
        hex_digit_value((0x41 + k) as u8) == hex_digit_value((0x61 + k) as u8),
        hex_digit_value((0x41 + k) as u8) == 10 + k,
{
}

/// `i` is the position of the first byte of `text` that is not a
/// hexadecimal digit.
pub open spec fn is_first_non_hex(text: Seq<u8>, i: int) -> bool {
    &&& 0 <= i < text.len()
    &&& !is_hex_digit(text[i])
    &&& forall|j: int| 0 <= j < i ==> is_hex_digit(#[trigger] text[j])
}

/// The reason why `text` cannot be decoded: an odd length, checked first,
/// or else the first byte that is not a hexadecimal digit, read as the
/// character of that code, and its position.
pub open spec fn hex_decode_error(text: Seq<u8>) -> HexDecodeError {
    if text.len() % 2 != 0 {
        HexDecodeError::OddLength
    } else {
        let i = choose|i: int| is_first_non_hex(text, i);
        HexDecodeError::InvalidHexCharacter { c: text[i] as char, index: i as usize }
    }
}

/// The text that `char`'s `Debug` writes for `c`: the character between
/// single quotes, escaped where it is not printable.
pub uninterp spec fn char_debug_text(c: char) -> Seq<char>;

/// The message that `hex::FromHexError`'s `Display` writes for `e`.
pub open spec fn hex_error_message(e: HexDecodeError) -> Seq<char> {
    match e {
        HexDecodeError::InvalidHexCharacter { c, index } => "Invalid character "@ + char_debug_text(
            c,
        ) + " at position "@ + decimal_text(index as nat),
        HexDecodeError::OddLength => "Odd number of digits"@,
        HexDecodeError::InvalidStringLength => "Invalid string length"@,
    }
}

/// Calls `hex::decode`. As its source shows, it fails with `OddLength` on an
/// odd number of bytes; otherwise it decodes the pairs of digits in order,
/// first digit first, and fails with `InvalidHexCharacter` on the first byte
/// that is not an ASCII hexadecimal digit (either case), giving that byte as
/// a character and its position; otherwise it turns each pair of digits into
/// one byte, the first digit the high half. The contract states exactly that.
/// The body maps the crate's error to the library's one variant for one.
#[verifier::external_body]
fn hex_decode(data: &[u8]) -> (r: Result<Vec<u8>, HexDecodeError>)
    ensures
        r is Ok <==> hex_decodable(data@),
        r matches Ok(v) ==> v@ == hex_decoded(data@),
        r is Err ==> r->Err_0 == hex_decode_error(data@),
{
    match hex::decode(data) {
        Ok(v) => Ok(v),
        Err(hex::FromHexError::InvalidHexCharacter { c, index }) => Err(
            HexDecodeError::InvalidHexCharacter { c, index },
        ),
        Err(hex::FromHexError::OddLength) => Err(HexDecodeError::OddLength),
        Err(hex::FromHexError::InvalidStringLength) => Err(HexDecodeError::InvalidStringLength),
    }
}

/// Calls `to_string` on the `hex::FromHexError` that `e` stands for, through
/// its `Display`. As the crate's source shows, that writes "Odd number of
/// digits", "Invalid string length", or "Invalid character ", the
/// character's `Debug` text, " at position " and the position in decimal.
/// The contract states exactly that; of the character's `Debug` text it
/// says only that it is `char_debug_text` of the character.
#[verifier::external_body]
fn hex_error_text(e: &HexDecodeError) -> (s: String)
    ensures
        s@ == (match *e {
            HexDecodeError::InvalidHexCharacter { c, index } => "Invalid character "@
                + char_debug_text(c) + " at position "@ + decimal_text(index as nat),
            HexDecodeError::OddLength => "Odd number of digits"@,
            HexDecodeError::InvalidStringLength => "Invalid string length"@,
        }),
{
    let err = match *e {
        HexDecodeError::InvalidHexCharacter { c, index } => hex::FromHexError::InvalidHexCharacter {
            c,
            index,
        },
        HexDecodeError::OddLength => hex::FromHexError::OddLength,
        HexDecodeError::InvalidStringLength => hex::FromHexError::InvalidStringLength,
    };
    err.to_string()
}

/// Parses 64 hexadecimal digits (either case) into 32 bytes.
///
/// Text that is not an even number of hexadecimal digits is refused with
/// "Invalid hex: " and the decoder's message (an odd length, else the first
/// byte that is not a digit); digits that spell other than 32
/// bytes are refused with "Expected 64 hex characters (32 bytes)".
pub fn parse_hex_32(s: &str) -> (r: Result<[u8; 32], String>)
    ensures
        r is Ok <==> hex_decodable(s.spec_bytes()) && s.spec_bytes().len() == 64,
        r matches Ok(a) ==> a@ == hex_decoded(s.spec_bytes()),
        !hex_decodable(s.spec_bytes()) ==> (r matches Err(m) && m@ == "Invalid hex: "@
            + hex_error_message(hex_decode_error(s.spec_bytes()))),
        hex_decodable(s.spec_bytes()) && s.spec_bytes().len() != 64 ==> (r matches Err(m)
            && m@ == "Expected 64 hex characters (32 bytes)"@),
{
    let bytes = match hex_decode(s.as_bytes()) {
        Ok(b) => b,
        Err(e) => {
            let mut message = String::from_str("Invalid hex: ");
            let reason = hex_error_text(&e);
            message.append(reason.as_str());
            return Err(message);
        },
    };
    if bytes.len() != 32 {
        return Err(String::from_str("Expected 64 hex characters (32 bytes)"));
    }
    let mut arr: [u8; 32] = [0u8; 32];
    for i in 0..32
        invariant
            bytes@.len() == 32,
            forall|j: int| 0 <= j < i ==> arr@[j] == bytes@[j],
    {
        arr.set(i, bytes[i]);
    }
    assert(arr@ =~= bytes@);
    Ok(arr)
}

} // verus!
