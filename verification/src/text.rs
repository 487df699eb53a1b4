//! The text of an argument.

use vstd::prelude::*;
use vstd::string::*;
use vstd::utf8::*;

use crate::bytes::same;

verus! {

/// The text that stands for bytes that are not valid UTF-8: every invalid
/// sequence in them replaced by U+FFFD.
pub uninterp spec fn replaced_text(bytes: Seq<u8>) -> Seq<char>;

/// The text of an argument, as characters.
pub open spec fn lossy_text(arg: Seq<u8>) -> Seq<char> {
    if valid_utf8(arg) {
        decode_utf8(arg)
    } else {
        replaced_text(arg)
    }
}

/// The text of an argument, as the bytes of its UTF-8 encoding.
pub open spec fn text_of(arg: Seq<u8>) -> Seq<u8> {
    encode_utf8(lossy_text(arg))
}

/// The text of an argument that is valid UTF-8 is the argument itself.
pub proof fn lemma_text_of_valid(arg: Seq<u8>)
    requires
        valid_utf8(arg),
    ensures
        text_of(arg) == arg,
{
    decode_utf8_encode_utf8(arg);
}

/// The text of the bytes of a string is these bytes.
pub proof fn lemma_text_of_str(s: &str)
    ensures
        text_of(s.spec_bytes()) == s.spec_bytes(),
{
    encode_utf8_valid_utf8(s@);
    lemma_text_of_valid(s.spec_bytes());
}

/// Calls `String::from_utf8_lossy`. Bytes that are valid UTF-8 come back as
/// the characters they encode. Otherwise every invalid sequence is replaced,
/// so that the text holds at least one U+FFFD; which characters come out then
/// depends on the bytes alone, and `replaced_text` names them.
#[verifier::external_body]
pub(crate) fn to_string_lossy(arg: &[u8]) -> (text: String)
    ensures
        text@ == (if valid_utf8(arg@) {
            decode_utf8(arg@)
        } else {
            replaced_text(arg@)
        }),
        !valid_utf8(arg@) ==> text@.contains('\u{FFFD}'),
{
    String::from_utf8_lossy(arg).into_owned()
}

/// Whether the text of an argument is `s`. Bytes that are not valid UTF-8
/// never read as a string without U+FFFD.
pub fn reads_as(arg: &[u8], s: &str) -> (r: bool)
    requires
        !s@.contains('\u{FFFD}'),
    ensures
        r == (arg@ == s.spec_bytes()),
{
    let text: String = to_string_lossy(arg);
    proof {
        encode_utf8_valid_utf8(s@);
        encode_utf8_decode_utf8(s@);
        encode_utf8_decode_utf8(text@);
        if valid_utf8(arg@) {
            lemma_text_of_valid(arg@);
        }
    }
    same(text.as_str().as_bytes(), s.as_bytes())
}

} // verus!
