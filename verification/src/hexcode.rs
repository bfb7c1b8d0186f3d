//! Hexadecimal text, written and read with the `hex` crate.
use vstd::prelude::*;

verus! {

/// Why a text is not hexadecimal.
#[derive(Debug, Clone, Copy, PartialEq, Eq)]
pub enum HexError {
    /// A byte that is no digit, as a character, and its position.
    InvalidHexCharacter { c: char, index: usize },
    /// The number of digits is odd.
    OddLength,
    /// The text does not fit a container of fixed size.
    InvalidStringLength,
}

/// The value of a hexadecimal digit of either case.
pub open spec fn digit_value(b: u8) -> Option<int> {
    if 48 <= b <= 57 {
        Some(b - 48)
    } else if 97 <= b <= 102 {
        Some(b - 87)
    } else if 65 <= b <= 70 {
        Some(b - 55)
    } else {
        None
    }
}

/// The lower-case digit for a value below sixteen.
pub open spec fn lower_digit(v: int) -> char {
    if v < 10 {
        (48 + v) as char
    } else {
        (87 + v) as char
    }
}

/// Bytes as lower-case hexadecimal digits, the high half of each byte first.
pub open spec fn encoded(data: Seq<u8>) -> Seq<char> {
    Seq::new(
        2 * data.len(),
        |i: int|
            lower_digit(
                if i % 2 == 0 {
                    data[i / 2] as int / 16
                } else {
                    data[i / 2] as int % 16
                },
            ),
    )
}

/// Whether `i` is the first position of `bytes` that holds no digit.
pub open spec fn first_bad_digit(bytes: Seq<u8>, i: int) -> bool {
    &&& 0 <= i < bytes.len()
    &&& digit_value(bytes[i]) is None
    &&& forall|j: int| 0 <= j < i ==> digit_value(#[trigger] bytes[j]) is Some
}

/// The bytes that pairs of digits stand for, or why there are none: an odd
/// number of digits, else the first byte that is no digit.
pub open spec fn decoded(bytes: Seq<u8>) -> Result<Seq<u8>, HexError> {
    if bytes.len() % 2 != 0 {
        Err(HexError::OddLength)
    } else if exists|i: int| first_bad_digit(bytes, i) {
        let i = choose|i: int| first_bad_digit(bytes, i);
        Err(HexError::InvalidHexCharacter { c: bytes[i] as char, index: i as usize })
    } else {
        Ok(
            Seq::new(
                bytes.len() / 2,
                |i: int|
                    (16 * digit_value(bytes[2 * i])->0 + digit_value(bytes[2 * i + 1])->0) as u8,
            ),
        )
    }
}

/// The bytes that the digits of a text stand for. A text is read by its UTF-8
/// bytes.
pub open spec fn decoded_text(s: Seq<char>) -> Result<Seq<u8>, HexError> {
    decoded(vstd::utf8::encode_utf8(s))
}

/// How the standard library's `Debug` writes a character: in single quotes,
/// with escapes for quotes, control characters and what cannot be printed.
pub uninterp spec fn char_debug_text(c: char) -> Seq<char>;

/// What an error of the `hex` crate reads as.
pub open spec fn hex_error_message(e: HexError) -> Seq<char> {
    match e {
        HexError::InvalidHexCharacter { c, index } => "Invalid character "@ + char_debug_text(c)
            + " at position "@ + crate::text::decimal(index as nat),
        HexError::OddLength => "Odd number of digits"@,
        HexError::InvalidStringLength => "Invalid string length"@,
    }
}

/// `hex::encode`: two lower-case digits for each byte.
#[verifier::external_body]
pub(crate) fn hex_encode(data: &[u8]) -> (r: String)
    ensures
        r@ == encoded(data@),
{
    hex::encode(data)
}

/// `hex::decode`: the bytes that pairs of digits of either case stand for. An
/// odd number of bytes in the text is reported before anything else, then the
/// first byte that is no digit.
#[verifier::external_body]
pub(crate) fn hex_decode(s: &str) -> (r: Result<Vec<u8>, HexError>)
    ensures
        match r {
            Ok(v) => decoded_text(s@) == Ok::<Seq<u8>, HexError>(v@),
            Err(e) => decoded_text(s@) == Err::<Seq<u8>, HexError>(e),
        },
{
    match hex::decode(s) {
        Ok(v) => Ok(v),
        Err(hex::FromHexError::InvalidHexCharacter { c, index }) => Err(
            HexError::InvalidHexCharacter { c, index },
        ),
        Err(hex::FromHexError::OddLength) => Err(HexError::OddLength),
        Err(hex::FromHexError::InvalidStringLength) => Err(HexError::InvalidStringLength),
    }
}

/// The `Display` text of `hex::FromHexError`. How `Debug` writes the character
/// in it is named, not spelled out.
#[verifier::external_body]
pub(crate) fn hex_error_text(e: HexError) -> (r: String)
    ensures
        r@ == match e {
            HexError::InvalidHexCharacter { c, index } => "Invalid character "@ + char_debug_text(c)
                + " at position "@ + crate::text::decimal(index as nat),
            HexError::OddLength => "Odd number of digits"@,
            HexError::InvalidStringLength => "Invalid string length"@,
        },
{
    match e {
        HexError::InvalidHexCharacter { c, index } => hex::FromHexError::InvalidHexCharacter {
            c,
            index,
        }.to_string(),
        HexError::OddLength => hex::FromHexError::OddLength.to_string(),
        HexError::InvalidStringLength => hex::FromHexError::InvalidStringLength.to_string(),
    }
}

/// The UTF-8 bytes of hexadecimal digits are the digits themselves.
proof fn encoded_utf8_bytes(data: Seq<u8>)
    ensures
        vstd::utf8::encode_utf8(encoded(data)) == Seq::new(
            2 * data.len(),
            |i: int| encoded(data)[i] as u8,
        ),
{
    assert(vstd::utf8::is_ascii_chars(encoded(data)));
    vstd::utf8::is_ascii_chars_encode_utf8(encoded(data));
}

/// Reading hexadecimal digits gives back the bytes they were written from.
pub proof fn decode_undoes_encode(data: Seq<u8>)
    ensures
        decoded_text(encoded(data)) == Ok::<Seq<u8>, HexError>(data),
{
    encoded_utf8_bytes(data);
    let bytes = vstd::utf8::encode_utf8(encoded(data));
    assert forall|i: int| 0 <= i < bytes.len() implies digit_value(#[trigger] bytes[i]) == Some(
        if i % 2 == 0 {
            data[i / 2] as int / 16
        } else {
            data[i / 2] as int % 16
        },
    ) by {
        assert(bytes[i] == encoded(data)[i] as u8);
    }
    assert(decoded(bytes)->Ok_0 =~= data);
}

} // verus!
