//! The envelope codec: authenticated encryption of a framed payload.
//!
//! A blob is `nonce ‖ ciphertext‖tag`: a fresh random 96-bit nonce, then the
//! AES-256-GCM ciphertext of the payload with its 128-bit authentication tag
//! appended.  Decryption splits the leading nonce off, verifies the tag and
//! returns the payload, failing with `ShareError::Authentication` on a wrong
//! key, a truncated blob, or tampering.

use crate::errors::ShareError;
use crate::framing::{disassemble, spec_assemble, spec_disassemble};
use aes_gcm::aead::{Aead, Generate, Key, KeyInit};
use aes_gcm::Aes256Gcm;
use vstd::prelude::*;
use vstd::slice::*;

verus! {

/// Byte length of a symmetric key (256 bits).
pub const KEY_LEN: usize = 32;

/// Byte length of a nonce (96 bits).
pub const NONCE_LEN: usize = 12;

/// Byte length of an authentication tag (128 bits).
pub const TAG_LEN: usize = 16;

/// The largest plaintext AES-GCM accepts, in bytes.
pub const MAX_PLAINTEXT_LEN: u64 = 68719476704;

/// The ciphertext-with-tag that AES-256-GCM produces from a key, a nonce and
/// a plaintext.  The result depends on those three arguments alone.
pub uninterp spec fn aead_cipher(key: Seq<u8>, nonce: Seq<u8>, plaintext: Seq<u8>) -> Seq<u8>;

/// `blob` is a well-formed envelope of `payload` under `key`: a 12-byte
/// nonce, then the ciphertext-with-tag of `payload` under that key and nonce.
pub open spec fn spec_sealed(key: Seq<u8>, blob: Seq<u8>, payload: Seq<u8>) -> bool {
    &&& blob.len() == payload.len() + 28
    &&& blob.subrange(12, blob.len() as int) == aead_cipher(key, blob.subrange(0, 12), payload)
}

/// Relies on crypto_common::Generate for `[u8; 32]` (via the aes-gcm crate):
/// 32 bytes from the operating system's cryptographically secure source.
#[verifier::external_body]
fn random_key_bytes() -> (k: Vec<u8>)
    ensures
        k@.len() == 32,
{
    let bytes: [u8; 32] = Generate::generate();
    bytes.to_vec()
}

/// Relies on crypto_common::Generate for `[u8; 12]` (via the aes-gcm crate):
/// 12 bytes from the operating system's cryptographically secure source.
#[verifier::external_body]
fn random_nonce_bytes() -> (n: Vec<u8>)
    ensures
        n@.len() == 12,
{
    let bytes: [u8; 12] = Generate::generate();
    bytes.to_vec()
}

/// Relies on aes_gcm::Aes256Gcm through aead::Aead::encrypt: AES-256-GCM with
/// no associated data returns the ciphertext with the 16-byte tag appended,
/// a function of the key, the nonce and the plaintext alone; it fails only
/// when the plaintext is longer than `MAX_PLAINTEXT_LEN`.
#[verifier::external_body]
fn aes_gcm_seal(key: &[u8], nonce: &[u8], plaintext: &[u8]) -> (ct: Vec<u8>)
    requires
        key@.len() == 32,
        nonce@.len() == 12,
        plaintext@.len() <= MAX_PLAINTEXT_LEN,
    ensures
        ct@ == aead_cipher(key@, nonce@, plaintext@),
        ct@.len() == plaintext@.len() + 16,
{
    let mut key_arr = [0u8; 32];
    key_arr.copy_from_slice(key);
    let mut nonce_arr = [0u8; 12];
    nonce_arr.copy_from_slice(nonce);
    let cipher = Aes256Gcm::new(&Key::<Aes256Gcm>::from(key_arr));
    cipher.encrypt(&nonce_arr.into(), plaintext).expect("plaintext length is within the AES-GCM bound")
}

/// Relies on aes_gcm::Aes256Gcm through aead::Aead::decrypt: it returns the
/// unique plaintext whose ciphertext-with-tag under this key and nonce is
/// `ct`, and fails exactly when no plaintext has that ciphertext (a wrong
/// key, a ciphertext shorter than the tag, or tampering).
#[verifier::external_body]
fn aes_gcm_open(key: &[u8], nonce: &[u8], ct: &[u8]) -> (r: Result<Vec<u8>, ShareError>)
    requires
        key@.len() == 32,
        nonce@.len() == 12,
    ensures
        match r {
            Ok(p) => {
                &&& ct@ == aead_cipher(key@, nonce@, p@)
                &&& p@.len() + 16 == ct@.len()
                &&& p@.len() <= MAX_PLAINTEXT_LEN
                &&& forall|q: Seq<u8>|
                    q.len() <= MAX_PLAINTEXT_LEN && ct@ == aead_cipher(key@, nonce@, q) ==> q
                        == p@
            },
            Err(e) => {
                &&& e == ShareError::Authentication
                &&& forall|q: Seq<u8>|
                    q.len() <= MAX_PLAINTEXT_LEN ==> ct@ != aead_cipher(key@, nonce@, q)
            },
        },
{
    let mut key_arr = [0u8; 32];
    key_arr.copy_from_slice(key);
    let mut nonce_arr = [0u8; 12];
    nonce_arr.copy_from_slice(nonce);
    let cipher = Aes256Gcm::new(&Key::<Aes256Gcm>::from(key_arr));
    cipher.decrypt(&nonce_arr.into(), ct).map_err(|_| ShareError::Authentication)
}

/// Generates a fresh 256-bit symmetric key from a cryptographically secure
/// source.  Nothing beyond its length can be said of a random key.
pub fn generate_key() -> (key: Vec<u8>)
    ensures
        key@.len() == KEY_LEN,
{
    random_key_bytes()
}

/// Encrypts a payload under a key with a fresh random nonce and returns the
/// blob `nonce ‖ ciphertext‖tag`.
pub fn encrypt(payload: &Vec<u8>, key: &Vec<u8>) -> (blob: Vec<u8>)
    requires
        key@.len() == KEY_LEN,
        payload@.len() <= MAX_PLAINTEXT_LEN,
    ensures
        spec_sealed(key@, blob@, payload@),
{
    let nonce = random_nonce_bytes();
    let mut ct = aes_gcm_seal(key.as_slice(), nonce.as_slice(), payload.as_slice());
    let ghost nonce_view = nonce@;
    let ghost ct_view = ct@;
    let mut blob = nonce;
    blob.append(&mut ct);
    proof {
        assert(blob@.subrange(0, 12) =~= nonce_view);
        assert(blob@.subrange(12, blob@.len() as int) =~= ct_view);
    }
    blob
}

/// Decrypts a blob under a key.  Exactly the blobs that are a well-formed
/// envelope of some payload under the key decrypt, and they give back that
/// payload; every other blob fails with `ShareError::Authentication`.
pub fn decrypt(blob: &Vec<u8>, key: &Vec<u8>) -> (r: Result<Vec<u8>, ShareError>)
    requires
        key@.len() == KEY_LEN,
    ensures
        match r {
            Ok(p) => spec_sealed(key@, blob@, p@) && p@.len() <= MAX_PLAINTEXT_LEN,
            Err(e) => {
                &&& e == ShareError::Authentication
                &&& forall|q: Seq<u8>|
                    q.len() <= MAX_PLAINTEXT_LEN ==> !spec_sealed(key@, blob@, q)
            },
        },
        forall|q: Seq<u8>|
            q.len() <= MAX_PLAINTEXT_LEN && #[trigger] spec_sealed(key@, blob@, q) ==> (r matches Ok(
                p,
            ) && p@ == q),
{
    if blob.len() < 28 {
        return Err(ShareError::Authentication);
    }
    let nonce = slice_subrange(blob.as_slice(), 0, 12);
    let ct = slice_subrange(blob.as_slice(), 12, blob.len());
    aes_gcm_open(key.as_slice(), nonce, ct)
}

/// Frames a file and its filename and encrypts the framed payload: the whole
/// send-side envelope operation.
pub fn seal_envelope(file: Vec<u8>, name: &Vec<u8>, key: &Vec<u8>) -> (blob: Vec<u8>)
    requires
        key@.len() == KEY_LEN,
        file@.len() + name@.len() + 8 <= usize::MAX,
        file@.len() + name@.len() + 8 <= MAX_PLAINTEXT_LEN,
    ensures
        spec_sealed(key@, blob@, spec_assemble(file@, name@)),
{
    let payload = crate::framing::assemble(file, name);
    proof {
        vstd::bytes::lemma_auto_spec_u64_to_from_le_bytes();
    }
    encrypt(&payload, key)
}

/// Decrypts a blob and splits the payload back into file contents and
/// filename: the whole receive-side envelope operation.  A blob sealing a
/// well-framed payload gives back exactly its file and filename; one sealing
/// a malformed payload fails with `ShareError::Decode`; a blob that is no
/// envelope under the key fails with `ShareError::Authentication`.
pub fn open_envelope(blob: &Vec<u8>, key: &Vec<u8>) -> (r: Result<(Vec<u8>, Vec<u8>), ShareError>)
    requires
        key@.len() == KEY_LEN,
    ensures
        match r {
            Ok(parts) => exists|p: Seq<u8>|
                #[trigger] spec_sealed(key@, blob@, p) && spec_disassemble(p) == Some(
                    (parts.0@, parts.1@),
                ),
            Err(e) => e == ShareError::Authentication || e == ShareError::Decode,
        },
        forall|p: Seq<u8>|
            p.len() <= MAX_PLAINTEXT_LEN && #[trigger] spec_sealed(key@, blob@, p)
                ==> match spec_disassemble(p) {
                Some(parts) => r matches Ok(rp) && rp.0@ == parts.0 && rp.1@ == parts.1,
                None => r == Err::<(Vec<u8>, Vec<u8>), ShareError>(ShareError::Decode),
            },
        r == Err::<(Vec<u8>, Vec<u8>), ShareError>(ShareError::Authentication) ==> forall|
            p: Seq<u8>,
        |
            p.len() <= MAX_PLAINTEXT_LEN ==> !spec_sealed(key@, blob@, p),
        r == Err::<(Vec<u8>, Vec<u8>), ShareError>(ShareError::Decode) ==> exists|p: Seq<u8>|
            #[trigger] spec_sealed(key@, blob@, p) && spec_disassemble(p) is None,
{
    let payload = match decrypt(blob, key) {
        Ok(p) => p,
        Err(e) => {
            return Err(e);
        },
    };
    match disassemble(&payload) {
        Ok(parts) => Ok(parts),
        Err(e) => Err(e),
    }
}

} // verus!
