use blobshare::errors::ShareError;
use blobshare::share_id::{ShareId, ID_LENGTH};

#[test]
fn decode_accepts_six_alphanumerics() {
    let id = ShareId::decode("Ab12cd".to_string()).unwrap();
    assert_eq!(id.as_str(), "Ab12cd");
    assert!(ShareId::decode("ZZZZZZ".to_string()).is_ok());
    assert!(ShareId::decode("000000".to_string()).is_ok());
    assert!(ShareId::decode("aA0zZ9".to_string()).is_ok());
}

#[test]
fn id_decode_rejects_wrong_length() {
    assert!(matches!(
        ShareId::decode("Ab12c".to_string()),
        Err(ShareError::InvalidId)
    ));
    assert!(matches!(
        ShareId::decode("Ab12cde".to_string()),
        Err(ShareError::InvalidId)
    ));
    assert!(matches!(
        ShareId::decode(String::new()),
        Err(ShareError::InvalidId)
    ));
}

#[test]
fn decode_rejects_non_alphanumerics() {
    assert!(matches!(
        ShareId::decode("Ab12!d".to_string()),
        Err(ShareError::InvalidId)
    ));
    assert!(matches!(
        ShareId::decode("../../".to_string()),
        Err(ShareError::InvalidId)
    ));
    assert!(matches!(
        ShareId::decode("Ab 2cd".to_string()),
        Err(ShareError::InvalidId)
    ));
    // Six characters, but one outside ASCII.
    assert!(matches!(
        ShareId::decode("Ab12c\u{e9}".to_string()),
        Err(ShareError::InvalidId)
    ));
}

#[test]
fn random_ids_are_valid() {
    for _ in 0..32 {
        let id = ShareId::new_random();
        let text = id.as_str().to_string();
        assert_eq!(text.len(), ID_LENGTH);
        assert!(text.chars().all(|c| c.is_ascii_alphanumeric()));
        assert!(ShareId::decode(text).is_ok());
    }
}
