use blobshare::envelope::{generate_key, open_envelope, seal_envelope};
use blobshare::keycodec::{decode_key, encode_key};
use blobshare::share_id::ShareId;
use blobshare::store::BlobStore;

#[test]
fn ten_byte_file_full_scenario() {
    // Sender: a 10-byte file named "a.txt", a fresh key, a sealed blob.
    let file: Vec<u8> = vec![0, 1, 2, 3, 4, 5, 6, 7, 8, 9];
    let name = b"a.txt".to_vec();
    let key = generate_key();
    let blob = seal_envelope(file.clone(), &name, &key);
    let token = encode_key(&key);

    // Relay: a fresh identifier, stored exactly once.
    let mut store = BlobStore::new();
    let id = ShareId::new_random();
    store.create(&id, blob).unwrap();

    // Receiver: fetch by the id's text, decode the key token, open.
    let supplied = ShareId::decode(id.as_str().to_string()).unwrap();
    let fetched = store.open(&supplied).unwrap().clone();
    let receiver_key = decode_key(&token).unwrap();
    let (got_file, got_name) = open_envelope(&fetched, &receiver_key).unwrap();
    assert_eq!(got_file, file);
    assert_eq!(got_name, name);
}

#[test]
fn chunked_transfer_scenario() {
    // An upload and a download both moving in bounded chunks.
    let file: Vec<u8> = (0u32..5000).map(|i| (i % 251) as u8).collect();
    let key = generate_key();
    let blob = seal_envelope(file.clone(), &b"big.bin".to_vec(), &key);

    let mut store = BlobStore::new();
    let id = ShareId::new_random();
    let mut upload = blobshare::store::PendingUpload::begin(id.clone());
    for chunk in blob.chunks(64) {
        upload.push_chunk(chunk);
    }
    store.commit(upload).unwrap();

    let mut fetched = Vec::new();
    let total = store.blob_len(&id).unwrap();
    let mut offset = 0;
    while offset < total {
        let chunk = store.read_chunk(&id, offset, 64).unwrap();
        offset += chunk.len();
        fetched.extend_from_slice(&chunk);
    }
    assert_eq!(fetched, blob);
    let (got_file, got_name) = open_envelope(&fetched, &key).unwrap();
    assert_eq!(got_file, file);
    assert_eq!(got_name, b"big.bin".to_vec());
}
