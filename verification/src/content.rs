//! Turning raw file bytes into the text that is appended to the output:
//! a lossy decode followed by removal of trailing whitespace.

use vstd::prelude::*;
use vstd::string::StrSliceExecFns;
use vstd::utf8::{decode_utf8, encode_utf8, valid_utf8};

verus! {

/// The characters that a lossy decode makes of a byte sequence, with every
/// invalid sequence replaced by the replacement character.
pub uninterp spec fn lossy_of(bytes: Seq<u8>) -> Seq<char>;

/// Relies on `String::from_utf8_lossy`: the result is a function of the bytes
/// alone, and valid UTF-8 input decodes unchanged.
#[verifier::external_body]
fn lossy_decode(b: &Vec<u8>) -> (r: String)
    ensures
        r@ == lossy_of(b@),
        valid_utf8(b@) ==> r@ == decode_utf8(b@),
{
    String::from_utf8_lossy(b.as_slice()).into_owned()
}

/// A character with the Unicode `White_Space` property, the set that
/// `str::trim_end` removes from the end of a string.
pub open spec fn is_space_char(c: char) -> bool {
    c == '\u{9}' || c == '\u{a}' || c == '\u{b}' || c == '\u{c}' || c == '\u{d}' || c == ' '
        || c == '\u{85}' || c == '\u{a0}' || c == '\u{1680}' || ('\u{2000}' <= c && c
        <= '\u{200a}') || c == '\u{2028}' || c == '\u{2029}' || c == '\u{202f}' || c == '\u{205f}'
        || c == '\u{3000}'
}

/// `s` without its trailing whitespace characters.
pub open spec fn trim_end_chars(s: Seq<char>) -> Seq<char>
    decreases s.len(),
{
    if s.len() == 0 {
        s
    } else if is_space_char(s.last()) {
        trim_end_chars(s.drop_last())
    } else {
        s
    }
}

/// Relies on `str::trim_end`: it removes exactly the trailing characters
/// that have the Unicode `White_Space` property.
#[verifier::external_body]
pub(crate) fn trim_trailing(s: &String) -> (r: String)
    ensures
        r@ == trim_end_chars(s@),
{
    s.trim_end().to_string()
}

/// The bytes appended for a file's content: lossily decoded, stripped of
/// trailing whitespace, and encoded back.
pub open spec fn cleaned(bytes: Seq<u8>) -> Seq<u8> {
    encode_utf8(trim_end_chars(lossy_of(bytes)))
}

/// Decodes `b` lossily, trims trailing whitespace, and returns the bytes of
/// the resulting text.
pub fn clean_content(b: &Vec<u8>) -> (r: Vec<u8>)
    ensures
        r@ == cleaned(b@),
{
    let s = lossy_decode(b);
    let t = trim_trailing(&s);
    t.as_str().as_bytes_vec()
}

} // verus!
