use baliusd::errors::SignError;
use baliusd::signer::{algorithm_supported, classify_sign_failure, decode_public_key,
    decode_signature, key_for_worker, sign_request_text};

#[test]
fn key_names_join_worker_and_key() {
    assert_eq!(key_for_worker("w1", "main"), "w1-main");
}

#[test]
fn only_ed25519_is_supported() {
    assert!(algorithm_supported("ed25519"));
    assert!(!algorithm_supported("rsa"));
    assert!(!algorithm_supported(""));
}

#[test]
fn payloads_travel_base64_encoded() {
    assert_eq!(sign_request_text(&b"hello".to_vec()), "aGVsbG8=");
    assert_eq!(sign_request_text(&Vec::new()), "");
}

#[test]
fn signature_version_prefix_is_stripped_before_decoding() {
    assert_eq!(decode_signature("vault:v1:aGVsbG8=").unwrap(), b"hello".to_vec());
    assert_eq!(decode_signature("aGVsbG8=").unwrap(), b"hello".to_vec());
}

#[test]
fn malformed_signature_text_is_internal() {
    assert!(matches!(decode_signature("!!!"), Err(SignError::Internal(_))));
    assert!(matches!(
        decode_signature("vault:v1:aGVsbG8"),
        Err(SignError::Internal(_))
    ));
}

#[test]
fn exported_public_keys_decode_to_their_bytes() {
    let key_bytes: Vec<u8> = (0u8..32).collect();
    let text = sign_request_text(&key_bytes);
    assert_eq!(decode_public_key(&text).unwrap(), key_bytes);
    assert_eq!(decode_public_key(&text).unwrap().len(), 32);
}

#[test]
fn missing_key_errors_are_distinguished() {
    let errors = vec![String::from("encryption key not found")];
    assert!(matches!(
        classify_sign_failure(Some(&errors), "sign failed"),
        SignError::KeyNotFound(_)
    ));
    let other = vec![String::from("permission denied")];
    match classify_sign_failure(Some(&other), "sign failed") {
        SignError::Internal(d) => assert_eq!(d, "sign failed"),
        _ => panic!("an unrelated failure must be internal"),
    }
    assert!(matches!(
        classify_sign_failure(None, "connection reset"),
        SignError::Internal(_)
    ));
}
