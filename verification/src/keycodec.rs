//! The key codec: a raw symmetric key to and from a URL-safe text token.
//!
//! The token is the base64 encoding of the key bytes in the URL-safe alphabet
//! with canonical padding and no line wrapping.  Decoding rejects text that is
//! not a canonical encoding, and a decoded key of any length other than 32
//! bytes is rejected as malformed.

use crate::envelope::KEY_LEN;
use crate::errors::ShareError;
use base64::engine::general_purpose::URL_SAFE;
use base64::Engine;
use vstd::prelude::*;

verus! {

/// The canonical URL-safe base64 encoding (with padding) of a byte sequence.
/// The result depends on the bytes alone.
pub uninterp spec fn base64url_of(bytes: Seq<u8>) -> Seq<char>;

/// Relies on base64's URL_SAFE engine (Engine::encode): the canonical
/// URL-safe, padded encoding of the bytes, four characters for every three
/// bytes, the last group padded.
#[verifier::external_body]
fn base64url_encode(bytes: &[u8]) -> (token: String)
    ensures
        token@ == base64url_of(bytes@),
        token@.len() == ((bytes@.len() + 2) / 3) * 4,
{
    URL_SAFE.encode(bytes)
}

/// Relies on base64's URL_SAFE engine (Engine::decode): with canonical
/// padding required and trailing bits refused, decoding succeeds on exactly
/// the canonical encodings, giving back the bytes that encode to the input.
#[verifier::external_body]
fn base64url_decode(token: &str) -> (r: Result<Vec<u8>, ShareError>)
    ensures
        match r {
            Ok(bytes) => {
                &&& token@ == base64url_of(bytes@)
                &&& forall|other: Seq<u8>| token@ == base64url_of(other) ==> other == bytes@
            },
            Err(e) => {
                &&& e == ShareError::Decode
                &&& forall|bytes: Seq<u8>| token@ != base64url_of(bytes)
            },
        },
{
    URL_SAFE.decode(token).map_err(|_| ShareError::Decode)
}

/// Encodes a 256-bit key as its URL-safe base64 token.
pub fn encode_key(key: &Vec<u8>) -> (token: String)
    requires
        key@.len() == KEY_LEN,
    ensures
        token@ == base64url_of(key@),
        token@.len() == 44,
{
    base64url_encode(key.as_slice())
}

/// Decodes a key token back into the 256-bit key it encodes.  Exactly the
/// tokens that are the canonical encoding of some 32-byte key decode, and
/// they give back that key; every other text fails with `ShareError::Decode`.
pub fn decode_key(token: &str) -> (r: Result<Vec<u8>, ShareError>)
    ensures
        match r {
            Ok(key) => key@.len() == KEY_LEN && token@ == base64url_of(key@),
            Err(e) => {
                &&& e == ShareError::Decode
                &&& forall|key: Seq<u8>| key.len() == KEY_LEN ==> token@ != base64url_of(key)
            },
        },
        forall|key: Seq<u8>|
            key.len() == KEY_LEN && token@ == #[trigger] base64url_of(key) ==> (r matches Ok(k)
                && k@ == key),
{
    let bytes = match base64url_decode(token) {
        Ok(b) => b,
        Err(e) => {
            return Err(e);
        },
    };
    if bytes.len() != KEY_LEN {
        return Err(ShareError::Decode);
    }
    Ok(bytes)
}

} // verus!
