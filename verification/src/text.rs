//! Text across the byte boundary: turning bytes read out of linear memory
//! back into an owned string, and the facts about UTF-8 encoding that the
//! marshaling contracts lean on.

use vstd::prelude::*;
use vstd::utf8::{
    encode_scalar, encode_utf8, is_ascii_chars, is_ascii_chars_encode_utf8, valid_utf8,
};

verus! {

/// Relies on `String::from_utf8`: it returns `Ok` exactly when the input is
/// valid UTF-8, and the returned string is the one whose UTF-8 encoding is
/// the input bytes.
#[verifier::external_body]
pub(crate) fn string_from_utf8_bytes(bytes: Vec<u8>) -> (r: Option<String>)
    ensures
        valid_utf8(bytes@) ==> r is Some,
        r matches Some(s) ==> encode_utf8(s@) == bytes@,
{
    String::from_utf8(bytes).ok()
}

/// UTF-8 encoding distributes over concatenation: encoding two character
/// sequences one after the other gives the concatenation of their encodings.
pub proof fn lemma_encode_utf8_concat(a: Seq<char>, b: Seq<char>)
    ensures
        encode_utf8(a + b) == encode_utf8(a) + encode_utf8(b),
    decreases a.len(),
{
    if a.len() == 0 {
        assert(a + b =~= b);
        assert(encode_utf8(a) + encode_utf8(b) =~= encode_utf8(b));
    } else {
        assert((a + b).drop_first() =~= a.drop_first() + b);
        lemma_encode_utf8_concat(a.drop_first(), b);
        assert(encode_scalar((a + b)[0] as u32) + (encode_utf8(a.drop_first()) + encode_utf8(b))
            =~= (encode_scalar(a[0] as u32) + encode_utf8(a.drop_first())) + encode_utf8(b));
    }
}

/// An ASCII character sequence encodes to exactly one byte per character.
pub proof fn lemma_ascii_encode_len(chars: Seq<char>)
    requires
        is_ascii_chars(chars),
    ensures
        encode_utf8(chars).len() == chars.len(),
{
    is_ascii_chars_encode_utf8(chars);
}

} // verus!
