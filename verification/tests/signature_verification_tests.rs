use ed25519_dalek::{Signer, SigningKey as EdSigningKey};
use k256::ecdsa::{Signature as K256Signature, SigningKey as K256SigningKey};
use rand::rngs::OsRng;
use sha2::{Digest, Sha256};
use api::signature_verification::{
    cache_key, cache_ttl_secs_from, cached_is_fresh, cached_result, check_hop, clear_cache, decode_message, fingerprint,
    timestamp_in_window, validate_public_key, verification_verdict, verify_cached,
    verify_signature, ChainFailure, ChainKey, ChainStep, ChainWalk, SigError,
    SignatureAlgorithm, VerdictReason, VerifyCache,
};

#[test]
fn algorithm_parsing() {
    assert_eq!(SignatureAlgorithm::parse("Ed25519"), Some(SignatureAlgorithm::Ed25519));
    assert_eq!(SignatureAlgorithm::parse("secp256k1"), Some(SignatureAlgorithm::Secp256k1));
    assert_eq!(SignatureAlgorithm::parse("ecdsa"), Some(SignatureAlgorithm::Secp256k1));
    assert_eq!(SignatureAlgorithm::parse("rsa"), None);
}

#[test]
fn algorithm_parsing_trims_and_folds_case() {
    assert_eq!(SignatureAlgorithm::parse("  ES256K \n"), Some(SignatureAlgorithm::Secp256k1));
    assert_eq!(SignatureAlgorithm::parse("ECDSA-SECP256K1"), Some(SignatureAlgorithm::Secp256k1));
    assert_eq!(SignatureAlgorithm::parse("ed 25519"), None);
    assert_eq!(SignatureAlgorithm::Ed25519.as_str(), "ed25519");
    assert_eq!(SigError::InvalidSignature.as_str(), "invalid_signature_encoding");
}

#[test]
fn fingerprint_is_stable_and_algorithm_scoped() {
    let pk = [7u8; 32];
    let a = fingerprint(SignatureAlgorithm::Ed25519, &pk);
    assert_eq!(a, fingerprint(SignatureAlgorithm::Ed25519, &pk));
    assert_ne!(a, fingerprint(SignatureAlgorithm::Secp256k1, &pk));
    assert_eq!(a.len(), 64);
}

#[test]
fn fingerprint_is_deterministic_and_algorithm_scoped() {
    let pk = [3u8; 33];
    let a = fingerprint(SignatureAlgorithm::Secp256k1, &pk);
    assert_eq!(a, fingerprint(SignatureAlgorithm::Secp256k1, &pk));
    assert_ne!(a, fingerprint(SignatureAlgorithm::Ed25519, &pk));
    assert_eq!(a.len(), 64);
}

#[test]
fn fingerprint_matches_sha256_of_prefixed_key() {
    // sha256("ed25519:") computed independently.
    let expected = hex::encode(<Sha256 as Digest>::digest(b"ed25519:"));
    assert_eq!(fingerprint(SignatureAlgorithm::Ed25519, &[]), expected);
}

#[test]
fn ed25519_roundtrip_and_tamper() {

    let sk = EdSigningKey::generate(&mut OsRng);
    let vk = sk.verifying_key();
    let msg = b"deploy:contract-abc:wasm-hash";
    let sig = sk.sign(msg);

    assert!(verify_signature(SignatureAlgorithm::Ed25519, vk.as_bytes(), msg, &sig.to_bytes()).is_ok());
    assert_eq!(
        verify_signature(SignatureAlgorithm::Ed25519, vk.as_bytes(), b"other", &sig.to_bytes()),
        Err(SigError::VerificationFailed)
    );
}

#[test]
fn ed25519_real_signature_roundtrip() {

    let sk = EdSigningKey::generate(&mut OsRng);
    let vk = sk.verifying_key();
    let msg = b"deploy:contract-abc:0xdeadbeef";
    let sig = sk.sign(msg);
    assert!(
        verify_signature(SignatureAlgorithm::Ed25519, vk.as_bytes(), msg, &sig.to_bytes()).is_ok(),
        "valid ed25519 signature must verify"
    );
    assert_eq!(
        verify_signature(SignatureAlgorithm::Ed25519, vk.as_bytes(), b"tampered", &sig.to_bytes()),
        Err(SigError::VerificationFailed),
        "tampered message must fail"
    );
}

#[test]
fn ed25519_wrong_key_fails() {

    let signer = EdSigningKey::generate(&mut OsRng);
    let other = EdSigningKey::generate(&mut OsRng);
    let sig = signer.sign(b"message");
    assert!(
        verify_signature(
            SignatureAlgorithm::Ed25519,
            other.verifying_key().as_bytes(),
            b"message",
            &sig.to_bytes()
        )
        .is_err(),
        "signature must not verify under a different key"
    );
}

#[test]
fn secp256k1_roundtrip_and_tamper() {

    let sk = K256SigningKey::random(&mut OsRng);
    let vk = sk.verifying_key();
    let pk = vk.to_sec1_bytes();
    let msg = b"deploy:contract-xyz:wasm-hash";
    let sig: K256Signature = sk.sign(msg);

    assert!(verify_signature(SignatureAlgorithm::Secp256k1, &pk, msg, &sig.to_bytes()).is_ok());
    assert!(verify_signature(SignatureAlgorithm::Secp256k1, &pk, b"tampered", &sig.to_bytes()).is_err());
}

#[test]
fn secp256k1_real_signature_roundtrip_compressed_and_uncompressed() {

    let sk = K256SigningKey::random(&mut OsRng);
    let vk = sk.verifying_key();
    let compressed = vk.to_encoded_point(true);
    let uncompressed = vk.to_encoded_point(false);
    let msg = b"deploy:contract-xyz:0xc0ffee";
    let sig: K256Signature = sk.sign(msg);
    assert!(
        verify_signature(SignatureAlgorithm::Secp256k1, compressed.as_bytes(), msg, &sig.to_bytes()).is_ok(),
        "valid secp256k1 signature must verify with a compressed key"
    );
    assert!(
        verify_signature(SignatureAlgorithm::Secp256k1, uncompressed.as_bytes(), msg, &sig.to_bytes()).is_ok(),
        "valid secp256k1 signature must verify with an uncompressed key"
    );
    assert!(
        verify_signature(SignatureAlgorithm::Secp256k1, compressed.as_bytes(), b"tampered", &sig.to_bytes()).is_err(),
        "tampered message must fail under secp256k1"
    );
}

#[test]
fn secp256k1_der_signature_is_accepted() {

    let sk = K256SigningKey::random(&mut OsRng);
    let pk = sk.verifying_key().to_sec1_bytes();
    let msg = b"der-encoded-signature";
    let sig: K256Signature = sk.sign(msg);
    let der = sig.to_der();
    assert!(
        verify_signature(SignatureAlgorithm::Secp256k1, &pk, msg, der.as_bytes()).is_ok(),
        "DER-encoded secp256k1 signature must verify"
    );
}

#[test]
fn cross_algorithm_inputs_are_rejected() {

    let sk = EdSigningKey::generate(&mut OsRng);
    let sig = sk.sign(b"m");
    assert!(verify_signature(
        SignatureAlgorithm::Secp256k1,
        sk.verifying_key().as_bytes(),
        b"m",
        &sig.to_bytes()
    )
    .is_err());
}

#[test]
fn wrong_key_length_is_rejected() {
    assert_eq!(
        verify_signature(SignatureAlgorithm::Ed25519, &[0u8; 10], b"m", &[0u8; 64]),
        Err(SigError::InvalidKey)
    );
}

#[test]
fn signature_length_and_encoding_errors() {
    let sk = EdSigningKey::from_bytes(&[5u8; 32]);
    let pk = sk.verifying_key().to_bytes();
    assert_eq!(
        verify_signature(SignatureAlgorithm::Ed25519, &pk, b"m", &[0u8; 63]),
        Err(SigError::InvalidSignature)
    );
    assert_eq!(
        verify_signature(SignatureAlgorithm::Secp256k1, &[2u8; 5], b"m", &[1u8; 64]),
        Err(SigError::InvalidKey)
    );
}

#[test]
fn public_key_lengths() {
    assert!(validate_public_key(SignatureAlgorithm::Ed25519, &[0u8; 32]).is_ok());
    assert!(validate_public_key(SignatureAlgorithm::Ed25519, &[0u8; 33]).is_err());
    assert!(validate_public_key(SignatureAlgorithm::Secp256k1, &[0u8; 33]).is_ok());
    assert!(validate_public_key(SignatureAlgorithm::Secp256k1, &[0u8; 65]).is_ok());
    assert!(validate_public_key(SignatureAlgorithm::Secp256k1, &[0u8; 64]).is_err());
}

#[test]
fn message_decoding() {
    assert_eq!(decode_message(" 0aFF \n", None).unwrap(), vec![0x0a, 0xff]);
    assert_eq!(decode_message("aGk=", Some("base64")).unwrap(), b"hi".to_vec());
    assert_eq!(decode_message(" hi", Some("utf8")).unwrap(), b" hi".to_vec());
    let e = decode_message("xyz", Some("hex")).unwrap_err();
    assert_eq!((e.status, e.code.as_str()), (400, "INVALID_MESSAGE"));
    let e = decode_message("00", Some("rot13")).unwrap_err();
    assert_eq!(e.code, "INVALID_ENCODING");
}

#[test]
fn verdict_and_window() {
    assert!(timestamp_in_window(10, 5, Some(10)));
    assert!(!timestamp_in_window(11, 5, Some(10)));
    assert!(!timestamp_in_window(4, 5, None));
    assert_eq!(verification_verdict(true, false, true, None), (true, VerdictReason::Valid));
    assert_eq!(verification_verdict(false, true, false, Some(false)).1, VerdictReason::CryptoFailed);
    assert_eq!(verification_verdict(true, true, true, None).1, VerdictReason::KeyRevoked);
    assert_eq!(verification_verdict(true, false, false, None).1, VerdictReason::OutsideWindow);
    assert_eq!(verification_verdict(true, false, true, Some(false)), (false, VerdictReason::ChainFailed));
    assert_eq!(VerdictReason::KeyRevoked.message(), "signing key is revoked");
}

fn key(id: &str, root: bool, parent: Option<&str>) -> ChainKey {
    ChainKey {
        key_id: id.into(),
        algorithm: "ed25519".into(),
        public_key: String::new(),
        parent_key_id: parent.map(String::from),
        cert_signature: parent.map(|_| "sig".to_string()),
        is_root: root,
        not_before: 0,
        not_after: Some(100),
        status: "active".into(),
    }
}

#[test]
fn chain_hops() {
    assert_eq!(check_hop(&key("root", true, None), false, 50), ChainStep::Anchored);
    assert_eq!(
        check_hop(&key("k", false, Some("root")), false, 50),
        ChainStep::Climb { parent_id: "root".into() }
    );
    assert_eq!(
        check_hop(&key("k", false, Some("root")), true, 50),
        ChainStep::Invalid(ChainFailure::Revoked("k".into()))
    );
    assert_eq!(
        check_hop(&key("k", true, None), false, 101),
        ChainStep::Invalid(ChainFailure::OutsideWindow("k".into()))
    );
    assert_eq!(check_hop(&key("k", false, None), false, 1), ChainStep::Invalid(ChainFailure::NoRoot));
    assert_eq!(ChainFailure::Revoked("k".into()).reason(), "key k is revoked");
    assert_eq!(ChainFailure::ParentNotFound("p".into()).reason(), "parent key p not found");
    let mut walk = ChainWalk::new();
    assert_eq!(walk.visit(&key("root", true, None), false, 1), ChainStep::Anchored);
    assert_eq!(walk.path, vec!["root".to_string()]);
}

#[test]
fn verification_cache_hits_after_first_verification() {
    let sk = EdSigningKey::from_bytes(&[9u8; 32]);
    let pk = sk.verifying_key().to_bytes();
    let sig = sk.sign(b"msg").to_bytes();
    let mut cache = VerifyCache::new(4);
    assert_eq!(verify_cached(&mut cache, 300, SignatureAlgorithm::Ed25519, &pk, b"msg", &sig), (true, false));
    assert_eq!(verify_cached(&mut cache, 300, SignatureAlgorithm::Ed25519, &pk, b"msg", &sig), (true, true));
    assert_eq!(verify_cached(&mut cache, 300, SignatureAlgorithm::Ed25519, &pk, b"bad", &sig), (false, false));
    assert_eq!(verify_cached(&mut cache, 0, SignatureAlgorithm::Ed25519, &pk, b"msg", &sig), (true, false));
    clear_cache(&mut cache);
    assert_eq!(verify_cached(&mut cache, 300, SignatureAlgorithm::Ed25519, &pk, b"msg", &sig), (true, false));
    assert_eq!(cache_key(SignatureAlgorithm::Ed25519, &pk, b"msg", &sig).len(), 64);
    assert_eq!(cache_ttl_secs_from(Some("42")), 42);
    assert_eq!(cache_ttl_secs_from(Some("x")), 300);
    assert_eq!(cache_ttl_secs_from(None), 300);
}

#[test]
fn cache_key_frames_each_part_by_length() {
    let pk = [7u8; 32];
    let expected = {
        let mut h = Sha256::new();
        h.update(b"ed25519");
        h.update(b"32:");
        h.update(pk);
        h.update(b"3:msg");
        h.update(b"2:ab");
        hex::encode(h.finalize())
    };
    assert_eq!(cache_key(SignatureAlgorithm::Ed25519, &pk, b"msg", b"ab"), expected);
    // Moving a byte from the signature to the message changes the key.
    assert_ne!(
        cache_key(SignatureAlgorithm::Ed25519, &pk, b"msg", b"ab"),
        cache_key(SignatureAlgorithm::Ed25519, &pk, b"msga", b"b"),
    );
    assert_ne!(
        cache_key(SignatureAlgorithm::Ed25519, &pk, b"", b""),
        cache_key(SignatureAlgorithm::Secp256k1, &pk, b"", b""),
    );
}

#[test]
fn cached_entries_are_served_only_while_fresh() {
    assert!(cached_is_fresh(0, 300));
    assert!(cached_is_fresh(299, 300));
    assert!(!cached_is_fresh(300, 300));
    assert!(!cached_is_fresh(0, 0));
    assert_eq!(cached_result(Some(true), 4, 5), Some(true));
    assert_eq!(cached_result(Some(false), 4, 5), Some(false));
    assert_eq!(cached_result(Some(true), 5, 5), None);
    assert_eq!(cached_result(Some(true), 0, 0), None);
    assert_eq!(cached_result(None, 0, 9), None);
}
