//! Transport encoding of screenshot content: standard padded base64.
//!
//! The encoding itself is done by the `base64` crate behind two trusted
//! wrappers; everything around them — the empty fallback for unreadable
//! content and the round trip — is verified against their contracts.

use vstd::prelude::*;

verus! {

/// The text the standard padded base64 alphabet assigns to `bytes`.
pub uninterp spec fn base64_of(bytes: Seq<u8>) -> Seq<char>;

/// Relies on `base64::Engine::encode` with the `STANDARD` engine: the
/// output is a function of the input bytes alone, and an empty input
/// encodes to the empty string.  The length bound keeps the engine's
/// output-size computation from overflowing, its one panic.
#[verifier::external_body]
fn b64_encode(bytes: &[u8]) -> (r: String)
    requires
        4 * ((bytes@.len() + 2) / 3) <= usize::MAX,
    ensures
        r@ == base64_of(bytes@),
        bytes@.len() == 0 ==> r@.len() == 0,
{
    base64::Engine::encode(&base64::engine::general_purpose::STANDARD, bytes)
}

/// Relies on `base64::Engine::decode` with the `STANDARD` engine: decoding
/// the encoding of any byte sequence gives back exactly those bytes.
#[verifier::external_body]
fn b64_decode(s: &str) -> (r: Option<Vec<u8>>)
    ensures
        r matches Some(v) ==> forall|b: Seq<u8>| s@ == base64_of(b) ==> v@ == b,
        r is None ==> forall|b: Seq<u8>| s@ != base64_of(b),
{
    match base64::Engine::decode(&base64::engine::general_purpose::STANDARD, s) {
        Ok(v) => Some(v),
        Err(_) => None,
    }
}

/// Encodes screenshot content for the naming request.  `None` stands for
/// content that could not be read; it encodes to the empty string, which
/// callers treat as "encoding unavailable".
pub fn encode_image_to_base64(content: Option<&Vec<u8>>) -> (r: String)
    requires
        content matches Some(b) ==> 4 * ((b@.len() + 2) / 3) <= usize::MAX,
    ensures
        match content {
            Some(b) => r@ == base64_of(b@),
            None => r@.len() == 0,
        },
{
    match content {
        Some(b) => b64_encode(b.as_slice()),
        None => String::new(),
    }
}

/// Decodes base64 text back to bytes; `None` when the text is not the
/// encoding of any byte sequence.
pub fn decode_content(s: &str) -> (r: Option<Vec<u8>>)
    ensures
        forall|b: Seq<u8>| s@ == base64_of(b) ==> (r matches Some(v) && v@ == b),
{
    b64_decode(s)
}

/// Encoding then decoding recovers the original bytes exactly.
pub fn encoded_content_roundtrips(bytes: &Vec<u8>) -> (r: Vec<u8>)
    requires
        4 * ((bytes@.len() + 2) / 3) <= usize::MAX,
    ensures
        r@ == bytes@,
{
    let encoded = encode_image_to_base64(Some(bytes));
    let decoded = decode_content(encoded.as_str());
    match decoded {
        Some(v) => v,
        None => {
            proof {
                assert(false);
            }
            Vec::new()
        },
    }
}

}
