//! Base64 transport encoding of binary values.
//!
//! Every binary value that crosses the wire or sits in a registry file is
//! written in the standard base64 alphabet with `=` padding.

use vstd::prelude::*;

verus! {

/// The base64 text that stands for `bytes`.
pub uninterp spec fn base64_text(bytes: Seq<u8>) -> Seq<char>;

/// The bytes that `text` stands for, or `None` where `text` is not base64.
pub uninterp spec fn base64_bytes(text: Seq<char>) -> Option<Seq<u8>>;

/// Characters of the standard alphabet, and the padding character.
pub open spec fn is_base64_char(c: char) -> bool {
    ||| 'A' <= c <= 'Z'
    ||| 'a' <= c <= 'z'
    ||| '0' <= c <= '9'
    ||| c == '+'
    ||| c == '/'
    ||| c == '='
}

/// Number of characters in the encoding of `n` bytes.
pub open spec fn encoded_len(n: nat) -> nat {
    4 * ((n + 2) / 3)
}

/// Longest text, in bytes, that the decoder is handed.
pub open spec fn max_decode_len() -> nat {
    (usize::MAX / 4) as nat
}

/// Number of bytes that `text` takes in memory.
pub open spec fn byte_len(text: Seq<char>) -> nat {
    vstd::utf8::encode_utf8(text).len()
}

/// What decoding `text` gives: overlong text is refused before the decoder
/// sees it, anything else decodes as base64 or not at all.
pub open spec fn decoded(text: Seq<char>) -> Option<Seq<u8>> {
    if byte_len(text) > max_decode_len() {
        None
    } else {
        base64_bytes(text)
    }
}

/// Text over the base64 alphabet takes one byte per character.
pub proof fn lemma_base64_text_is_ascii(text: Seq<char>)
    requires
        forall|i: int| 0 <= i < text.len() ==> is_base64_char(#[trigger] text[i]),
    ensures
        byte_len(text) == text.len(),
{
    assert(vstd::utf8::is_ascii_chars(text)) by {
        assert forall|i: int| 0 <= i < text.len() implies '\0' <= #[trigger] text[i] <= '\u{7f}' by {
            assert(is_base64_char(text[i]));
        }
    }
    vstd::utf8::is_ascii_chars_encode_utf8(text);
}

/// Calls `base64::encode`.
///
/// Trusted: the result is the standard padded encoding of `bytes`. It is made
/// of alphabet and padding characters only, is four characters long for every
/// started group of three bytes, and decodes back to `bytes`.
#[verifier::external_body]
fn base64_encode(bytes: &Vec<u8>) -> (text: String)
    ensures
        text@ == base64_text(bytes@),
        base64_bytes(text@) == Some(bytes@),
        forall|i: int| 0 <= i < text@.len() ==> is_base64_char(#[trigger] text@[i]),
        text@.len() == encoded_len(bytes@.len()),
{
    base64::encode(bytes)
}

/// Calls `base64::decode`.
///
/// Trusted: whether the text is accepted, and the bytes it yields, depend on
/// the text alone. The bound keeps the decoder's buffer size computation
/// within `usize`.
#[verifier::external_body]
fn base64_decode(text: &str) -> (out: Option<Vec<u8>>)
    requires
        byte_len(text@) <= max_decode_len(),
    ensures
        match out {
            Some(v) => base64_bytes(text@) == Some(v@),
            None => base64_bytes(text@).is_none(),
        },
{
    base64::decode(text).ok()
}

/// Encodes `bytes` as base64 text.
pub fn encode(bytes: &Vec<u8>) -> (text: String)
    ensures
        text@ == base64_text(bytes@),
        text@.len() == encoded_len(bytes@.len()),
        forall|i: int| 0 <= i < text@.len() ==> is_base64_char(#[trigger] text@[i]),
        base64_bytes(text@) == Some(bytes@),
        encoded_len(bytes@.len()) <= max_decode_len() ==> decoded(text@) == Some(bytes@),
{
    let text = base64_encode(bytes);
    proof {
        lemma_base64_text_is_ascii(text@);
    }
    text
}

/// Decodes base64 text, `None` where the text is not base64.
pub fn decode(text: &str) -> (out: Option<Vec<u8>>)
    ensures
        match out {
            Some(v) => decoded(text@) == Some(v@),
            None => decoded(text@).is_none(),
        },
{
    let bytes = text.as_bytes();
    assert(bytes@ == vstd::utf8::encode_utf8(text@));
    if bytes.len() > usize::MAX / 4 {
        None
    } else {
        base64_decode(text)
    }
}

} // verus!
