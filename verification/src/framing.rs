//! Payload framing of the envelope codec.
//!
//! Before encryption, the filename (as raw bytes) and an 8-byte little-endian
//! integer equal to the filename's byte length are appended, in that order, to
//! the file contents.  After decryption the trailer is read back: the last 8
//! bytes give the filename length, the bytes just before them are the
//! filename, and everything before that is the file content.  A claimed
//! filename length larger than the rest of the payload is a malformed payload
//! and is rejected, never an underflow.

use crate::errors::ShareError;
use vstd::bytes::*;
use vstd::prelude::*;
use vstd::slice::*;

verus! {

/// The framed payload: file contents, then filename bytes, then the filename
/// length as 8 little-endian bytes.
pub open spec fn spec_assemble(file: Seq<u8>, name: Seq<u8>) -> Seq<u8> {
    file + name + spec_u64_to_le_bytes(name.len() as u64)
}

/// The inverse of `spec_assemble`: `None` on payloads too short for the
/// trailer or whose claimed filename length exceeds what is left.
pub open spec fn spec_disassemble(payload: Seq<u8>) -> Option<(Seq<u8>, Seq<u8>)> {
    if payload.len() < 8 {
        None
    } else {
        let body = payload.len() - 8;
        let name_len = spec_u64_from_le_bytes(payload.subrange(body as int, payload.len() as int));
        if name_len > body {
            None
        } else {
            Some(
                (
                    payload.subrange(0, body - name_len),
                    payload.subrange(body - name_len, body as int),
                ),
            )
        }
    }
}

/// Appends the filename and its length trailer to the file contents.
pub fn assemble(file: Vec<u8>, name: &Vec<u8>) -> (payload: Vec<u8>)
    requires
        file@.len() + name@.len() + 8 <= usize::MAX,
    ensures
        payload@ == spec_assemble(file@, name@),
{
    let mut payload = file;
    payload.extend_from_slice(name.as_slice());
    let mut trailer = u64_to_le_bytes(name.len() as u64);
    proof {
        lemma_auto_spec_u64_to_from_le_bytes();
    }
    payload.append(&mut trailer);
    payload
}

/// Splits a decrypted payload back into file contents and filename bytes.
pub fn disassemble(payload: &Vec<u8>) -> (r: Result<(Vec<u8>, Vec<u8>), ShareError>)
    ensures
        match r {
            Ok(parts) => spec_disassemble(payload@) == Some((parts.0@, parts.1@)),
            Err(e) => e == ShareError::Decode && spec_disassemble(payload@) is None,
        },
{
    if payload.len() < 8 {
        return Err(ShareError::Decode);
    }
    let body = payload.len() - 8;
    let trailer = slice_subrange(payload.as_slice(), body, payload.len());
    let name_len = u64_from_le_bytes(trailer);
    if name_len > body as u64 {
        return Err(ShareError::Decode);
    }
    let split: usize = body - name_len as usize;
    let file = slice_to_vec(slice_subrange(payload.as_slice(), 0, split));
    let name = slice_to_vec(slice_subrange(payload.as_slice(), split, body));
    Ok((file, name))
}

/// Disassembling an assembled payload gives back exactly the file contents
/// and the filename it was assembled from.
pub proof fn lemma_frame_round_trip(file: Seq<u8>, name: Seq<u8>)
    requires
        name.len() <= u64::MAX,
    ensures
        spec_disassemble(spec_assemble(file, name)) == Some((file, name)),
{
    lemma_auto_spec_u64_to_from_le_bytes();
    let p = spec_assemble(file, name);
    let body = p.len() - 8;
    assert(p.subrange(body as int, p.len() as int) =~= spec_u64_to_le_bytes(name.len() as u64));
    assert(p.subrange(0, body - name.len()) =~= file);
    assert(p.subrange(body - name.len(), body as int) =~= name);
}

} // verus!
