use blobshare::envelope::{
    decrypt, encrypt, generate_key, open_envelope, seal_envelope, KEY_LEN, NONCE_LEN, TAG_LEN,
};
use blobshare::errors::ShareError;

#[test]
fn encrypt_decrypt_round_trip() {
    let key = generate_key();
    let payload = b"some payload bytes".to_vec();
    let blob = encrypt(&payload, &key);
    assert_eq!(blob.len(), payload.len() + NONCE_LEN + TAG_LEN);
    assert_eq!(decrypt(&blob, &key).unwrap(), payload);
}

#[test]
fn encrypt_is_not_identity() {
    let key = generate_key();
    let payload = b"plaintext".to_vec();
    let blob = encrypt(&payload, &key);
    assert_ne!(&blob[NONCE_LEN..NONCE_LEN + payload.len()], &payload[..]);
}

#[test]
fn encrypt_empty_payload() {
    let key = generate_key();
    let blob = encrypt(&Vec::new(), &key);
    assert_eq!(blob.len(), NONCE_LEN + TAG_LEN);
    assert_eq!(decrypt(&blob, &key).unwrap(), Vec::<u8>::new());
}

#[test]
fn tamper_any_single_byte_fails() {
    let key = generate_key();
    let payload = b"tamper me".to_vec();
    let blob = encrypt(&payload, &key);
    for i in 0..blob.len() {
        let mut bad = blob.clone();
        bad[i] ^= 1;
        assert_eq!(decrypt(&bad, &key), Err(ShareError::Authentication));
    }
}

#[test]
fn wrong_key_fails() {
    let key = generate_key();
    let other = {
        let mut k = key.clone();
        k[0] ^= 1;
        k
    };
    let blob = encrypt(&b"secret".to_vec(), &key);
    assert_eq!(decrypt(&blob, &other), Err(ShareError::Authentication));
    let fresh = generate_key();
    assert_ne!(key, fresh);
    assert_eq!(decrypt(&blob, &fresh), Err(ShareError::Authentication));
}

#[test]
fn truncated_blob_fails() {
    let key = generate_key();
    let blob = encrypt(&b"abc".to_vec(), &key);
    for len in 0..NONCE_LEN + TAG_LEN {
        assert_eq!(
            decrypt(&blob[..len].to_vec(), &key),
            Err(ShareError::Authentication)
        );
    }
}

#[test]
fn envelope_round_trip_with_filename() {
    let key = generate_key();
    let file = b"file contents".to_vec();
    let name = b"name.bin".to_vec();
    let blob = seal_envelope(file.clone(), &name, &key);
    let (f, n) = open_envelope(&blob, &key).unwrap();
    assert_eq!(f, file);
    assert_eq!(n, name);
}

#[test]
fn envelope_malformed_payload_is_decode_error() {
    let key = generate_key();
    // A sealed payload too short to hold the 8-byte trailer.
    let blob = encrypt(&vec![1, 2, 3], &key);
    assert_eq!(open_envelope(&blob, &key), Err(ShareError::Decode));
    // A sealed payload whose trailer claims more than what is left.
    let blob = encrypt(&vec![7, 0, 0, 0, 0, 0, 0, 0], &key);
    assert_eq!(open_envelope(&blob, &key), Err(ShareError::Decode));
}

#[test]
fn envelope_wrong_key_is_authentication_error() {
    let key = generate_key();
    let other = generate_key();
    let blob = seal_envelope(b"data".to_vec(), &b"f".to_vec(), &key);
    assert_eq!(open_envelope(&blob, &other), Err(ShareError::Authentication));
}

#[test]
fn generated_keys_have_key_len() {
    assert_eq!(generate_key().len(), KEY_LEN);
}
