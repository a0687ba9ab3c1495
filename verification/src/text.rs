//! Text as bytes: where UTF-8 text may be cut, and cutting it at an ASCII pattern.

use vstd::prelude::*;
use vstd::string::StringSliceAdditionalSpecFns;
use vstd::utf8::*;
use crate::scan::{find, lemma_first_at, occurs_at, split_once};

verus! {

/// Every byte of `bytes` is an ASCII byte.
pub open spec fn is_ascii_bytes(bytes: Seq<u8>) -> bool {
    forall|k: int| 0 <= k < bytes.len() ==> bytes[k] < 128
}

/// Reads bytes as UTF-8 text. Calls `String::from_utf8`: the result is `Some` exactly for
/// valid UTF-8, and then holds the characters that the bytes encode.
#[verifier::external_body]
pub(crate) fn text_from_utf8(bytes: Vec<u8>) -> (text: Option<String>)
    ensures
        text is Some <==> valid_utf8(bytes@),
        text matches Some(t) ==> t@ == decode_utf8(bytes@),
{
    String::from_utf8(bytes).ok()
}

/// In valid UTF-8 an ASCII byte is a character of its own: a character starts at it, and
/// one starts (or the text ends) right after it.
pub proof fn lemma_boundaries_at_ascii(bytes: Seq<u8>, k: int)
    requires
        valid_utf8(bytes),
        0 <= k < bytes.len(),
        bytes[k] < 128,
    ensures
        is_char_boundary(bytes, k),
        is_char_boundary(bytes, k + 1),
{
    is_char_boundary_iff_not_is_continuation_byte(bytes, k);
    if k + 1 == bytes.len() {
        is_char_boundary_start_end_of_seq(bytes);
    } else {
        valid_utf8_split(bytes, k);
        let suffix = bytes.subrange(k, bytes.len() as int);
        assert(suffix[0] == bytes[k]);
        assert(length_of_first_scalar(suffix) == 1);
        let rest = pop_first_scalar(suffix);
        assert(valid_utf8(rest));
        assert(rest[0] == bytes[k + 1]);
        assert(is_char_boundary(rest, 0));
        is_char_boundary_iff_not_is_continuation_byte(rest, 0);
        is_char_boundary_iff_not_is_continuation_byte(bytes, k + 1);
    }
}

/// The text that valid UTF-8 bytes encode is the only text with those bytes.
pub proof fn lemma_text_of_bytes(text: Seq<char>, bytes: Seq<u8>)
    requires
        encode_utf8(text) == bytes,
    ensures
        valid_utf8(bytes),
        decode_utf8(bytes) == text,
{
    encode_utf8_valid_utf8(text);
    encode_utf8_decode_utf8(text);
}

/// Cuts `text` at the first occurrence of the ASCII pattern `pat`.
pub fn cut_text<'a>(text: &'a str, pat: &[u8]) -> (parts: Option<(&'a str, &'a str)>)
    requires
        pat.len() > 0,
        is_ascii_bytes(pat@),
    ensures
        parts is Some <==> split_once(text.spec_bytes(), pat@) is Some,
        parts matches Some((head, tail)) ==> split_once(text.spec_bytes(), pat@) == Some(
            (head.spec_bytes(), tail.spec_bytes()),
        ),
{
    let bytes = text.as_bytes();
    match find(bytes, pat) {
        None => None,
        Some(at) => {
            let ghost all = text.spec_bytes();
            proof {
                encode_utf8_valid_utf8(text@);
                assert(occurs_at(all, pat@, at as int));
                assert(all.subrange(at as int, at + pat.len())[0] == pat@[0]);
                lemma_boundaries_at_ascii(all, at as int);
            }
            let (head, rest) = text.split_at(at);
            proof {
                encode_utf8_valid_utf8(rest@);
                let last = pat.len() - 1;
                assert(all.subrange(at as int, at + pat.len())[last] == pat@[last]);
                assert(rest.spec_bytes()[last] == pat@[last]);
                lemma_boundaries_at_ascii(rest.spec_bytes(), last);
            }
            let (_, tail) = rest.split_at(pat.len());
            proof {
                assert(tail.spec_bytes() =~= all.subrange(at + pat.len(), all.len() as int));
                assert(head.spec_bytes() =~= all.subrange(0, at as int));
                lemma_first_at(all, pat@, at as int);
            }
            Some((head, tail))
        },
    }
}

} // verus!
