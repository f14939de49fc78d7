//! The error taxonomy of the core, one variant per failure the callers must
//! be able to tell apart.

use vstd::prelude::*;

verus! {

/// Every recoverable failure of the core, as a distinct, inspectable variant.
///
/// - `Authentication`: the authentication tag of a blob did not verify
///   (wrong key, truncated blob, or tampering).
/// - `Decode`: a malformed key token or a malformed decrypted payload.
/// - `InvalidId`: a share identifier of the wrong length or with a character
///   outside the ASCII alphanumerics, rejected before any storage access.
/// - `AlreadyExists`: a create under an identifier that already holds a blob.
/// - `NotFound`: a lookup of an identifier under which nothing was created.
#[derive(Clone, Copy, Debug, PartialEq, Eq, Structural)]
pub enum ShareError {
    Authentication,
    Decode,
    InvalidId,
    AlreadyExists,
    NotFound,
}

} // verus!
