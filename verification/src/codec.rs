//! Base64, through the `base64` crate.

use base64::Engine;
use vstd::prelude::*;

verus! {

/// What the standard Base64 engine makes of a text: the bytes, or the
/// description of what is wrong.
pub uninterp spec fn base64_decoded(s: Seq<char>) -> Result<Seq<u8>, Seq<char>>;

/// The standard Base64 encoding of bytes.
pub uninterp spec fn base64_encoded(b: Seq<u8>) -> Seq<char>;

/// Whether a text decodes to the bytes.
pub open spec fn decodes_to(s: Seq<char>, b: Seq<u8>) -> bool {
    base64_decoded(s) == Ok::<Seq<u8>, Seq<char>>(b)
}

/// A result with its bytes and its text as sequences.
pub open spec fn decoded_view(r: Result<Vec<u8>, String>) -> Result<Seq<u8>, Seq<char>> {
    match r {
        Ok(v) => Ok(v@),
        Err(e) => Err(e@),
    }
}

/// `base64::engine::general_purpose::STANDARD.decode`: the bytes that the text
/// encodes, or the description of the first fault.
#[verifier::external_body]
pub(crate) fn base64_decode(s: &str) -> (r: Result<Vec<u8>, String>)
    ensures
        decoded_view(r) == base64_decoded(s@),
{
    base64::engine::general_purpose::STANDARD.decode(s).map_err(|e| e.to_string())
}

/// How long the encoding of so many bytes is: four characters for each three bytes, and
/// for what is left of them.
pub open spec fn base64_len(n: nat) -> nat {
    (n + 2) / 3 * 4
}

/// `base64::engine::general_purpose::STANDARD.encode`: text that decodes to the
/// bytes again. An encoding longer than a vector can be panics.
#[verifier::external_body]
pub(crate) fn base64_encode(b: &[u8]) -> (s: String)
    requires
        base64_len(b@.len()) <= isize::MAX,
    ensures
        s@ == base64_encoded(b@),
        decodes_to(s@, b@),
{
    base64::engine::general_purpose::STANDARD.encode(b)
}

} // verus!
