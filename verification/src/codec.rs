//! Trusted bindings to the two text codecs the pipeline uses: Shift-JIS
//! decoding and half-width to full-width kana conversion.

use vstd::prelude::*;

verus! {

/// The text that Shift-JIS decoding yields for a complete byte buffer.
/// Decoding is a function of the bytes alone; malformed sequences come out
/// as the replacement character, so every byte sequence decodes to something.
pub uninterp spec fn sjis_decode_of(b: Seq<u8>) -> Seq<char>;

/// The full-width form of a character sequence: half-width katakana
/// (voicing marks included) and other narrow forms become their full-width
/// equivalents. A function of the characters alone.
pub uninterp spec fn wide_of(s: Seq<char>) -> Seq<char>;

/// Relies on encoding_rs::SHIFT_JIS.decode: decodes a whole buffer at once,
/// replacing malformed sequences with the replacement character instead of
/// failing; its documentation reserves a panic only for a backing-buffer
/// size calculation that overflows usize, which the length bound rules out.
#[verifier::external_body]
pub(crate) fn decode_shift_jis(bytes: &Vec<u8>) -> (r: Vec<char>)
    requires
        bytes@.len() * 4 <= usize::MAX,
    ensures
        r@ == sjis_decode_of(bytes@),
        bytes@.len() == 0 ==> r@.len() == 0,
{
    let (text, _, _) = encoding_rs::SHIFT_JIS.decode(bytes.as_slice());
    text.chars().collect()
}

/// Relies on kanaria's UCSStr: from_str takes the characters, wide converts
/// narrow forms to full-width, to_string rebuilds the text. The conversion
/// reads nothing but the input characters, and an empty input stays empty.
#[verifier::external_body]
pub(crate) fn to_full_width(s: &Vec<char>) -> (r: Vec<char>)
    ensures
        r@ == wide_of(s@),
        s@.len() == 0 ==> r@.len() == 0,
{
    let text: String = s.iter().collect();
    let wide = kanaria::string::UCSStr::from_str(text.as_str()).wide(
        kanaria::utils::ConvertTarget::ALL,
    ).to_string();
    wide.chars().collect()
}

} // verus!
