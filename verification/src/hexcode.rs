//! Hexadecimal text, as the `hex` crate writes and reads it.

use crate::text::decimal;
use vstd::prelude::*;
use vstd::string::StringSliceAdditionalSpecFns;
use vstd::utf8::{encode_utf8, is_ascii_chars, is_ascii_chars_encode_utf8};

verus! {

/// Why a text is not the hexadecimal form of any bytes.
#[derive(Clone, Copy, Debug, PartialEq, Eq, Structural)]
pub enum HexError {
    /// The byte at `index` of the text is no hexadecimal digit; `c` is the
    /// character with the code of that byte.
    InvalidHexCharacter { c: char, index: usize },
    /// The text has an odd number of bytes.
    OddLength,
    /// The text does not have the length that a fixed-size result asks for.
    InvalidStringLength,
}

/// The character that stands for a number below 16: a digit, or a lower
/// case letter from `a` to `f`.
pub open spec fn hex_digit(n: int) -> char
    recommends
        0 <= n < 16,
{
    if n < 10 {
        (48 + n) as char
    } else {
        (87 + n) as char
    }
}

/// The hexadecimal form of `data`: two characters for each byte, the high
/// half first.
pub open spec fn hex_text(data: Seq<u8>) -> Seq<char> {
    Seq::new(
        2 * data.len(),
        |i: int|
            if i % 2 == 0 {
                hex_digit(data[i / 2] as int / 16)
            } else {
                hex_digit(data[i / 2] as int % 16)
            },
    )
}

/// The number that a byte stands for as a hexadecimal digit, in either
/// case, if it is one.
pub open spec fn hex_value(c: u8) -> Option<int> {
    if 48 <= c <= 57 {
        Some(c - 48)
    } else if 65 <= c <= 70 {
        Some(c - 55)
    } else if 97 <= c <= 102 {
        Some(c - 87)
    } else {
        None
    }
}

/// The first position from `from` on at which `s` holds no hexadecimal
/// digit.
pub open spec fn first_bad(s: Seq<u8>, from: int) -> Option<int>
    decreases s.len() - from,
{
    if from < 0 || from >= s.len() {
        None
    } else if hex_value(s[from]) is None {
        Some(from)
    } else {
        first_bad(s, from + 1)
    }
}

/// The bytes that the text with the bytes `s` is the hexadecimal form of,
/// or what is wrong with it: an odd length before anything else, else the
/// first byte that is no digit.
pub open spec fn hex_decoded(s: Seq<u8>) -> Result<Seq<u8>, HexError> {
    if s.len() % 2 != 0 {
        Err(HexError::OddLength)
    } else {
        match first_bad(s, 0) {
            Some(i) => Err(HexError::InvalidHexCharacter { c: s[i] as char, index: i as usize }),
            None => Ok(
                Seq::new(
                    s.len() / 2,
                    |k: int| (hex_value(s[2 * k])->0 * 16 + hex_value(s[2 * k + 1])->0) as u8,
                ),
            ),
        }
    }
}

/// Where every byte of `s` from `from` on is a hexadecimal digit, there is
/// no first one that is none.
pub proof fn lemma_no_bad(s: Seq<u8>, from: int)
    requires
        0 <= from,
        forall|i: int| from <= i < s.len() ==> hex_value(#[trigger] s[i]) is Some,
    ensures
        first_bad(s, from) is None,
    decreases s.len() - from,
{
    if from < s.len() {
        lemma_no_bad(s, from + 1);
    }
}

/// The character of a digit stands for the number that the digit was made
/// for.
pub proof fn lemma_hex_digit(n: int)
    requires
        0 <= n < 16,
    ensures
        '\0' <= hex_digit(n) <= '\u{7f}',
        hex_value(hex_digit(n) as u8) == Some(n),
{
}

/// The hexadecimal form of bytes reads back as those bytes: what a
/// channel of the terminal shows for a buffer, it takes for that buffer.
pub proof fn lemma_hex_round_trip(data: Seq<u8>)
    ensures
        hex_decoded(encode_utf8(hex_text(data))) == Ok::<Seq<u8>, HexError>(data),
{
    let text = hex_text(data);
    let bytes = encode_utf8(text);
    assert forall|i: int| 0 <= i < text.len() implies '\0' <= #[trigger] text[i] <= '\u{7f}' by {
        lemma_hex_digit(data[i / 2] as int / 16);
        lemma_hex_digit(data[i / 2] as int % 16);
    }
    assert(is_ascii_chars(text));
    is_ascii_chars_encode_utf8(text);
    assert forall|i: int| 0 <= i < bytes.len() implies hex_value(#[trigger] bytes[i]) == Some(
        if i % 2 == 0 {
            data[i / 2] as int / 16
        } else {
            data[i / 2] as int % 16
        },
    ) by {
        assert(bytes[i] == text[i] as u8);
        lemma_hex_digit(data[i / 2] as int / 16);
        lemma_hex_digit(data[i / 2] as int % 16);
    }
    lemma_no_bad(bytes, 0);
    let decoded = Seq::new(
        bytes.len() / 2,
        |k: int| (hex_value(bytes[2 * k])->0 * 16 + hex_value(bytes[2 * k + 1])->0) as u8,
    );
    assert(decoded =~= data) by {
        assert forall|k: int| 0 <= k < data.len() implies decoded[k] == data[k] by {
            assert(hex_value(bytes[2 * k]) == Some(data[k] as int / 16));
            assert(hex_value(bytes[2 * k + 1]) == Some(data[k] as int % 16));
        }
    }
}

/// `hex::encode`: the lower case hexadecimal form of `data`.
#[verifier::external_body]
pub(crate) fn hex_encode(data: &Vec<u8>) -> (s: String)
    ensures
        s@ == hex_text(data@),
{
    hex::encode(data)
}

/// `hex::decode`: the bytes that `s` is the hexadecimal form of, in lower
/// or upper case, or the first fault of `s`. The crate's error is handed on
/// variant for variant; decoding into a vector never gives
/// `InvalidStringLength`.
#[verifier::external_body]
pub(crate) fn hex_decode(s: &str) -> (r: Result<Vec<u8>, HexError>)
    ensures
        match hex_decoded(s.spec_bytes()) {
            Ok(b) => r matches Ok(v) && v@ == b,
            Err(e) => r matches Err(x) && x == e,
        },
{
    match hex::decode(s) {
        Ok(v) => Ok(v),
        Err(hex::FromHexError::InvalidHexCharacter { c, index }) => Err(
            HexError::InvalidHexCharacter { c, index },
        ),
        Err(hex::FromHexError::OddLength) => Err(HexError::OddLength),
        Err(hex::FromHexError::InvalidStringLength) => Err(HexError::InvalidStringLength),
    }
}

/// A character as the standard library writes it for `{:?}`: between
/// single quotes, with an escape where it needs one.
pub uninterp spec fn char_debug(c: char) -> Seq<char>;

/// The sentence that the `hex` crate has for a fault.
pub open spec fn hex_error_message(e: HexError) -> Seq<char> {
    match e {
        HexError::InvalidHexCharacter { c, index } => "Invalid character "@ + char_debug(c)
            + " at position "@ + decimal(index as nat),
        HexError::OddLength => "Odd number of digits"@,
        HexError::InvalidStringLength => "Invalid string length"@,
    }
}

/// The `Display` text that the `hex` crate gives for the fault `e`: a fixed
/// sentence for a length that is odd or not the one asked for; for a
/// character that is no digit, the character as `{:?}` writes it and its
/// position in decimal, in a fixed sentence.
#[verifier::external_body]
pub(crate) fn hex_error_text(e: HexError) -> (s: String)
    ensures
        e matches HexError::InvalidHexCharacter { c, index } ==> s@ == "Invalid character "@
            + char_debug(c) + " at position "@ + decimal(index as nat),
        e is OddLength ==> s@ == "Odd number of digits"@,
        e is InvalidStringLength ==> s@ == "Invalid string length"@,
{
    match e {
        HexError::InvalidHexCharacter { c, index } => hex::FromHexError::InvalidHexCharacter {
            c,
            index,
        }.to_string(),
        HexError::OddLength => hex::FromHexError::OddLength.to_string(),
        HexError::InvalidStringLength => hex::FromHexError::InvalidStringLength.to_string(),
    }
}

impl HexError {
    /// The sentence that says what is wrong, as the `hex` crate has it.
    pub fn message(self) -> (s: String)
        ensures
            s@ == hex_error_message(self),
    {
        hex_error_text(self)
    }
}

/// The lower case hexadecimal form of `data`.
pub fn encode(data: &Vec<u8>) -> (s: String)
    ensures
        s@ == hex_text(data@),
        s@.len() == 2 * data@.len(),
{
    hex_encode(data)
}

/// The bytes that `s` is the hexadecimal form of, or the first fault of `s`.
pub fn decode(s: &str) -> (r: Result<Vec<u8>, HexError>)
    ensures
        match hex_decoded(s.spec_bytes()) {
            Ok(b) => r matches Ok(v) && v@ == b,
            Err(e) => r matches Err(x) && x == e,
        },
        !(r matches Err(HexError::InvalidStringLength)),
{
    hex_decode(s)
}

} // verus!
