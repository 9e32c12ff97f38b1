//! The byte classes of the source alphabet, and the bridge between runs of
//! ASCII bytes and the text they spell.

use vstd::prelude::*;
use vstd::utf8::{
    decode_utf8, encode_utf8, encode_utf8_decode_utf8, encode_utf8_valid_utf8, is_ascii_chars,
    is_ascii_chars_encode_utf8, valid_utf8,
};

verus! {

/// An ASCII letter or an underscore: the bytes an identifier is made of.
pub open spec fn spec_is_letter(byte: u8) -> bool {
    ||| 'a' as u8 <= byte <= 'z' as u8
    ||| 'A' as u8 <= byte <= 'Z' as u8
    ||| byte == '_' as u8
}

/// An ASCII decimal digit.
pub open spec fn spec_is_digit(byte: u8) -> bool {
    '0' as u8 <= byte <= '9' as u8
}

/// ASCII whitespace: space, horizontal tab, line feed, form feed, carriage return.
pub open spec fn spec_is_whitespace(byte: u8) -> bool {
    ||| byte == ' ' as u8
    ||| byte == '\t' as u8
    ||| byte == '\n' as u8
    ||| byte == 0x0c
    ||| byte == '\r' as u8
}

#[verifier::when_used_as_spec(spec_is_letter)]
pub fn is_letter(byte: u8) -> (yes: bool)
    ensures
        yes == spec_is_letter(byte),
{
    (byte >= 'a' as u8 && byte <= 'z' as u8) || (byte >= 'A' as u8 && byte <= 'Z' as u8) || byte
        == '_' as u8
}

#[verifier::when_used_as_spec(spec_is_digit)]
pub fn is_digit(byte: u8) -> (yes: bool)
    ensures
        yes == spec_is_digit(byte),
{
    byte >= '0' as u8 && byte <= '9' as u8
}

#[verifier::when_used_as_spec(spec_is_whitespace)]
pub fn is_whitespace(byte: u8) -> (yes: bool)
    ensures
        yes == spec_is_whitespace(byte),
{
    byte == ' ' as u8 || byte == '\t' as u8 || byte == '\n' as u8 || byte == 0x0c || byte
        == '\r' as u8
}

/// The character of a letter byte: an ASCII letter or an underscore.
pub open spec fn char_is_letter(c: char) -> bool {
    ||| 'a' <= c <= 'z'
    ||| 'A' <= c <= 'Z'
    ||| c == '_'
}

/// The character of a digit byte: an ASCII decimal digit.
pub open spec fn char_is_digit(c: char) -> bool {
    '0' <= c <= '9'
}

/// A text that a word of the source can spell: not empty, and made of
/// letters and underscores.
pub open spec fn is_word(text: Seq<char>) -> bool {
    text.len() > 0 && forall|i: int| 0 <= i < text.len() ==> char_is_letter(#[trigger] text[i])
}

/// A text that a number of the source can spell: not empty, and made of
/// digits.
pub open spec fn is_number(text: Seq<char>) -> bool {
    text.len() > 0 && forall|i: int| 0 <= i < text.len() ==> char_is_digit(#[trigger] text[i])
}

/// Every byte is below 128.
pub open spec fn is_ascii_bytes(bytes: Seq<u8>) -> bool {
    forall|i: int| 0 <= i < bytes.len() ==> #[trigger] bytes[i] < 128
}

/// The text that a run of ASCII bytes spells: one character for each byte.
pub open spec fn ascii_text(bytes: Seq<u8>) -> Seq<char> {
    Seq::new(bytes.len(), |i: int| bytes[i] as char)
}

/// The bytes of an ASCII text: one byte for each character.
pub open spec fn ascii_bytes(text: Seq<char>) -> Seq<u8> {
    Seq::new(text.len(), |i: int| text[i] as u8)
}

/// A run of ASCII bytes is valid UTF-8, and decoding it yields one character
/// for each byte; encoding that text gives the bytes back.
pub proof fn lemma_ascii_bytes_are_utf8(bytes: Seq<u8>)
    requires
        is_ascii_bytes(bytes),
    ensures
        is_ascii_chars(ascii_text(bytes)),
        ascii_bytes(ascii_text(bytes)) == bytes,
        encode_utf8(ascii_text(bytes)) == bytes,
        valid_utf8(bytes),
        decode_utf8(bytes) == ascii_text(bytes),
{
    let text = ascii_text(bytes);
    is_ascii_chars_encode_utf8(text);
    encode_utf8_valid_utf8(text);
    encode_utf8_decode_utf8(text);
}

/// The UTF-8 encoding of an ASCII text is the text byte for byte.
pub proof fn lemma_ascii_text_encoding(text: Seq<char>)
    requires
        is_ascii_chars(text),
    ensures
        encode_utf8(text) == ascii_bytes(text),
        is_ascii_bytes(ascii_bytes(text)),
        ascii_text(ascii_bytes(text)) == text,
{
    is_ascii_chars_encode_utf8(text);
}

/// Whether two byte slices hold the same bytes.
pub fn bytes_eq(left: &[u8], right: &[u8]) -> (equal: bool)
    ensures
        equal == (left@ == right@),
{
    if left.len() != right.len() {
        return false;
    }
    let mut i: usize = 0;
    while i < left.len()
        invariant
            left@.len() == right@.len(),
            i <= left@.len(),
            forall|j: int| 0 <= j < i ==> left@[j] == right@[j],
        decreases left@.len() - i,
    {
        if left[i] != right[i] {
            return false;
        }
        i += 1;
    }
    assert(left@ =~= right@);
    true
}

/// Whether two strings spell the same text, decided on their UTF-8 bytes.
pub fn str_eq(left: &str, right: &str) -> (equal: bool)
    ensures
        equal == (left@ == right@),
{
    proof {
        encode_utf8_decode_utf8(left@);
        encode_utf8_decode_utf8(right@);
    }
    bytes_eq(left.as_bytes(), right.as_bytes())
}

/// `String::from_utf8_lossy`: where the bytes are valid UTF-8, the string is
/// the text they encode. (Invalid sequences are replaced by U+FFFD; nothing is
/// claimed of that case.)
#[verifier::external_body]
pub(crate) fn string_from_utf8_lossy(bytes: &[u8]) -> (text: String)
    ensures
        valid_utf8(bytes@) ==> text@ == decode_utf8(bytes@),
{
    String::from_utf8_lossy(bytes).into_owned()
}

/// The string that a run of ASCII bytes spells.
pub fn ascii_string(bytes: &[u8]) -> (text: String)
    requires
        is_ascii_bytes(bytes@),
    ensures
        text@ == ascii_text(bytes@),
{
    proof {
        lemma_ascii_bytes_are_utf8(bytes@);
    }
    string_from_utf8_lossy(bytes)
}

} // verus!
