//! Share identifiers: short random tokens that name stored blobs.
//!
//! An identifier is exactly 6 ASCII alphanumeric characters.  The check runs
//! before any storage access, so a malformed or path-traversing identifier
//! never reaches the store.  A `ShareId` can only be built by `decode` or
//! `new_random`, never from an arbitrary string.

use crate::errors::ShareError;
use rand::distr::{Alphanumeric, Distribution};
use vstd::prelude::*;
use vstd::string::StrSliceExecFns;

verus! {

/// The length of every share identifier, in characters.
pub const ID_LENGTH: usize = 6;

/// `n` is the code point of an ASCII digit or letter.
pub open spec fn is_alnum_code(n: u32) -> bool {
    (48 <= n && n <= 57) || (65 <= n && n <= 90) || (97 <= n && n <= 122)
}

/// `c` is an ASCII digit or letter.
pub open spec fn is_alnum_char(c: char) -> bool {
    is_alnum_code(c as u32)
}

/// `s` is a well-formed share identifier: exactly 6 characters, all ASCII
/// alphanumeric.
pub open spec fn valid_id(s: Seq<char>) -> bool {
    &&& s.len() == ID_LENGTH
    &&& forall|i: int| 0 <= i < s.len() ==> is_alnum_char(#[trigger] s[i])
}

/// A validated share identifier.
pub struct ShareId {
    text: String,
}

impl View for ShareId {
    type V = Seq<char>;

    closed spec fn view(&self) -> Seq<char> {
        self.text@
    }
}

impl Clone for ShareId {
    fn clone(&self) -> (r: Self)
        ensures
            r == *self,
    {
        ShareId { text: self.text.clone() }
    }
}

/// Relies on rand's Alphanumeric distribution: every sampled byte is an
/// ASCII digit or letter, drawn from a cryptographically secure generator.
#[verifier::external_body]
fn sample_alnum_byte() -> (b: u8)
    ensures
        is_alnum_code(b as u32),
{
    Alphanumeric.sample(&mut rand::rng())
}

/// Relies on String::from_utf8: bytes below 128 are valid UTF-8 and decode
/// to the characters of the same code points.
#[verifier::external_body]
fn ascii_bytes_to_string(bytes: Vec<u8>) -> (r: String)
    requires
        forall|i: int| 0 <= i < bytes@.len() ==> bytes@[i] < 128,
    ensures
        r@.len() == bytes@.len(),
        forall|i: int| 0 <= i < bytes@.len() ==> r@[i] == bytes@[i] as char,
{
    String::from_utf8(bytes).expect("bytes below 128 are valid UTF-8")
}

impl ShareId {
    /// Draws 6 characters independently from the ASCII alphanumeric alphabet
    /// with a cryptographically secure source.  No uniqueness check is made
    /// here: the store's write-once create is the sole collision guard.
    pub fn new_random() -> (id: ShareId)
        ensures
            valid_id(id@),
    {
        let mut bytes: Vec<u8> = Vec::new();
        for k in 0..ID_LENGTH
            invariant
                bytes@.len() == k,
                forall|i: int| 0 <= i < bytes@.len() ==> is_alnum_code(#[trigger] bytes@[i] as u32),
        {
            bytes.push(sample_alnum_byte());
        }
        let text = ascii_bytes_to_string(bytes);
        proof {
            assert(forall|i: int| 0 <= i < text@.len() ==> is_alnum_char(#[trigger] text@[i]));
        }
        ShareId { text }
    }

    /// Accepts exactly the strings of 6 ASCII alphanumeric characters and
    /// rejects every other string with `ShareError::InvalidId`.
    pub fn decode(id: String) -> (r: Result<ShareId, ShareError>)
        ensures
            match r {
                Ok(s) => valid_id(id@) && s@ == id@,
                Err(e) => e == ShareError::InvalidId && !valid_id(id@),
            },
    {
        if id.as_str().unicode_len() != ID_LENGTH {
            return Err(ShareError::InvalidId);
        }
        for k in 0..ID_LENGTH
            invariant
                id@.len() == ID_LENGTH,
                forall|i: int| 0 <= i < k ==> is_alnum_char(#[trigger] id@[i]),
        {
            let c = id.as_str().get_char(k);
            let n = c as u32;
            if !((48 <= n && n <= 57) || (65 <= n && n <= 90) || (97 <= n && n <= 122)) {
                return Err(ShareError::InvalidId);
            }
        }
        Ok(ShareId { text: id })
    }

    /// Whether two identifiers hold the same text.
    pub fn same(&self, other: &ShareId) -> (r: bool)
        ensures
            r == (self@ == other@),
    {
        self.text == other.text
    }

    /// The identifier's text.
    pub fn as_str(&self) -> (r: &str)
        ensures
            r@ == self@,
    {
        self.text.as_str()
    }
}

} // verus!
