use api::analytics::invalid_contract_id;
use api::marketplace::stripe::{checkout_form, checkout_response, CheckoutSessionParams, StripeError};
use api::signature_verification::{
    anchored_reason, check_certification, check_hop, validate_chain, verify_response, ChainFailure,
    ChainKey, ChainStep, ChainWalk, SignatureAlgorithm, MAX_CHAIN_DEPTH,
};
use base64::engine::general_purpose::STANDARD;
use base64::Engine;
use ed25519_dalek::{Signer, SigningKey};

fn key(id: &str, root: bool, parent: Option<&str>, cert: Option<&str>, public_key: &str) -> ChainKey {
    ChainKey {
        key_id: id.to_string(),
        algorithm: "Ed25519".to_string(),
        public_key: public_key.to_string(),
        parent_key_id: parent.map(|p| p.to_string()),
        cert_signature: cert.map(|c| c.to_string()),
        is_root: root,
        not_before: 100,
        not_after: Some(200),
        status: "active".to_string(),
    }
}

#[test]
fn verify_response_reports_the_first_failed_check() {
    let ok = verify_response(SignatureAlgorithm::Ed25519, Some("k1".into()), true, false, true, None, true);
    assert!(ok.valid);
    assert_eq!(ok.reason, "signature is valid");
    assert_eq!(ok.algorithm, "ed25519");
    assert!(ok.cache_hit);
    let r = verify_response(SignatureAlgorithm::Secp256k1, None, false, true, false, Some(false), false);
    assert!(!r.valid);
    assert_eq!(r.reason, "cryptographic verification failed");
    assert_eq!(r.algorithm, "secp256k1");
    let r = verify_response(SignatureAlgorithm::Ed25519, None, true, true, true, None, false);
    assert_eq!(r.reason, "signing key is revoked");
    let r = verify_response(SignatureAlgorithm::Ed25519, None, true, false, false, None, false);
    assert_eq!(r.reason, "signature timestamp outside key validity window");
    let r = verify_response(SignatureAlgorithm::Ed25519, None, true, false, true, Some(false), false);
    assert_eq!((r.valid, r.reason.as_str()), (false, "certificate chain validation failed"));
    let r = verify_response(SignatureAlgorithm::Ed25519, None, true, false, true, Some(true), false);
    assert!(r.valid);
}

#[test]
fn chain_hops_and_reasons() {
    assert_eq!(anchored_reason(), "chain anchored to a trusted root");
    let root = key("root", true, None, None, "");
    assert_eq!(check_hop(&root, false, 150), ChainStep::Anchored);
    assert_eq!(check_hop(&root, true, 150), ChainStep::Invalid(ChainFailure::Revoked("root".into())));
    assert_eq!(check_hop(&root, false, 201), ChainStep::Invalid(ChainFailure::OutsideWindow("root".into())));
    let orphan = key("c", false, None, Some("x"), "");
    assert_eq!(check_hop(&orphan, false, 150), ChainStep::Invalid(ChainFailure::NoRoot));
    let unsigned = key("c", false, Some("root"), None, "");
    assert_eq!(check_hop(&unsigned, false, 150), ChainStep::Invalid(ChainFailure::NoCertSignature("c".into())));
    let child = key("c", false, Some("root"), Some("x"), "");
    assert_eq!(check_hop(&child, false, 150), ChainStep::Climb { parent_id: "root".into() });
    assert_eq!(ChainFailure::ParentNotFound("p".into()).reason(), "parent key p not found");
    assert_eq!(ChainFailure::TooDeep.reason(), "certificate chain exceeds maximum depth");
    let mut walk = ChainWalk::new();
    for _ in 0..MAX_CHAIN_DEPTH {
        assert!(!walk.exhausted());
        assert_eq!(walk.visit(&child, false, 150), ChainStep::Climb { parent_id: "root".into() });
    }
    assert!(walk.exhausted());
    assert_eq!(walk.path.len(), MAX_CHAIN_DEPTH);
}

#[test]
fn certification_is_checked_with_the_parent_key() {
    let parent = SigningKey::from_bytes(&[3u8; 32]);
    let child = SigningKey::from_bytes(&[4u8; 32]);
    let child_pk = child.verifying_key().to_bytes();
    let cert = parent.sign(&child_pk);
    let parent_key = key("p", true, None, None, &STANDARD.encode(parent.verifying_key().to_bytes()));
    let child_key = key(
        "c",
        false,
        Some("p"),
        Some(&STANDARD.encode(cert.to_bytes())),
        &format!(" {} ", STANDARD.encode(child_pk)),
    );
    assert_eq!(check_certification(&parent_key, &child_key), Ok(true));
    let other = SigningKey::from_bytes(&[5u8; 32]);
    let forged = key(
        "c",
        false,
        Some("p"),
        Some(&STANDARD.encode(other.sign(&child_pk).to_bytes())),
        &STANDARD.encode(child_pk),
    );
    assert_eq!(check_certification(&parent_key, &forged), Ok(false));
    let bad_b64 = key("c", false, Some("p"), Some("!!"), &STANDARD.encode(child_pk));
    assert_eq!(check_certification(&parent_key, &bad_b64).unwrap_err().code, "BAD_CERT_SIG");
    let mut bad_alg = parent_key.clone();
    bad_alg.algorithm = "rsa".into();
    let e = check_certification(&bad_alg, &child_key).unwrap_err();
    assert_eq!((e.status, e.code.as_str()), (500, "BAD_STORED_ALGORITHM"));
}

fn params<'a>(billing: &'a str, email: Option<&'a str>) -> CheckoutSessionParams<'a> {
    CheckoutSessionParams {
        payment_id: "pay1",
        contract_id: "c1",
        plan_id: "plan1",
        payer_id: "u1",
        amount_cents: 1999,
        currency: "USD",
        billing_period: billing,
        product_name: "Pro",
        success_url: "https://ok",
        cancel_url: "https://no",
        customer_email: email,
    }
}

#[test]
fn checkout_forms_follow_the_billing_period() {
    let f = checkout_form(&params("monthly", Some("a@b.c")));
    let pairs: Vec<(&str, &str)> = f.iter().map(|(k, v)| (k.as_str(), v.as_str())).collect();
    assert_eq!(
        pairs,
        vec![
            ("mode", "subscription"),
            ("success_url", "https://ok"),
            ("cancel_url", "https://no"),
            ("line_items[0][quantity]", "1"),
            ("line_items[0][price_data][currency]", "usd"),
            ("line_items[0][price_data][unit_amount]", "1999"),
            ("line_items[0][price_data][product_data][name]", "Pro"),
            ("line_items[0][price_data][recurring][interval]", "month"),
            ("customer_email", "a@b.c"),
            ("metadata[payment_id]", "pay1"),
            ("metadata[contract_id]", "c1"),
            ("metadata[plan_id]", "plan1"),
            ("metadata[payer_id]", "u1"),
        ]
    );
    let once = checkout_form(&params("one_time", None));
    assert_eq!(once.len(), 11);
    assert_eq!(once[0].1, "payment");
    assert!(once.iter().all(|(k, _)| k != "customer_email"));
    assert_eq!(checkout_response(200, "{}".into()), Ok("{}".to_string()));
    assert_eq!(
        checkout_response(402, "declined".into()),
        Err(StripeError::Api { status: 402, body: "declined".into() })
    );
    let e = invalid_contract_id("xyz");
    assert_eq!((e.status, e.code.as_str(), e.message.as_str()), (400, "InvalidContractId", "Invalid contract ID format: xyz"));
}

#[test]
fn chains_are_walked_to_a_trusted_root() {
    let root = SigningKey::from_bytes(&[3u8; 32]);
    let mid = SigningKey::from_bytes(&[4u8; 32]);
    let leaf = SigningKey::from_bytes(&[6u8; 32]);
    let b64 = |k: &SigningKey| STANDARD.encode(k.verifying_key().to_bytes());
    let cert = |parent: &SigningKey, child: &SigningKey| {
        STANDARD.encode(parent.sign(&child.verifying_key().to_bytes()).to_bytes())
    };
    let keys = vec![
        key("leaf", false, Some("mid"), Some(&cert(&mid, &leaf)), &b64(&leaf)),
        key("mid", false, Some("root"), Some(&cert(&root, &mid)), &b64(&mid)),
        key("root", true, None, None, &b64(&root)),
    ];
    let ok = validate_chain(&keys, &vec![], "leaf", 150).unwrap();
    assert!(ok.valid);
    assert_eq!(ok.path, vec!["leaf", "mid", "root"]);
    assert_eq!(ok.reason, "chain anchored to a trusted root");
    let revoked = validate_chain(&keys, &vec!["mid".to_string()], "leaf", 150).unwrap();
    assert!(!revoked.valid);
    assert_eq!(revoked.path, vec!["leaf", "mid"]);
    assert_eq!(revoked.reason, "key mid is revoked");
    let missing = validate_chain(&keys, &vec![], "nope", 150).unwrap();
    assert!(!missing.valid && missing.path.is_empty());
    assert_eq!(missing.reason, "start key not found");
    let late = validate_chain(&keys, &vec![], "leaf", 250).unwrap();
    assert_eq!(late.reason, "key leaf is outside its validity window");
    let orphaned = validate_chain(&keys[..2].to_vec(), &vec![], "leaf", 150).unwrap();
    assert_eq!(orphaned.reason, "parent key root not found");
    let mut forged = keys.clone();
    forged[1].cert_signature = Some(cert(&leaf, &mid));
    let bad = validate_chain(&forged, &vec![], "leaf", 150).unwrap();
    assert_eq!(bad.reason, "invalid certificate signature for key mid");
    let mut broken = keys.clone();
    broken[2].public_key = "%%%".into();
    assert_eq!(validate_chain(&broken, &vec![], "leaf", 150).unwrap_err().status, 500);
    let mut looped = keys.clone();
    looped[0].parent_key_id = Some("leaf".into());
    looped[0].cert_signature = Some(cert(&leaf, &leaf));
    let deep = validate_chain(&looped, &vec![], "leaf", 150).unwrap();
    assert_eq!(deep.path.len(), MAX_CHAIN_DEPTH);
    assert_eq!(deep.reason, "certificate chain exceeds maximum depth");
}
