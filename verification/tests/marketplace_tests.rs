use api::marketplace::license::{check_expiry, LicenseError, LicenseSigner};
use api::marketplace::stripe::{
    check_webhook_signature, constant_time_eq, hex_decode, map_stripe_error,
    verify_webhook_signature, StripeError,
};
use base64::Engine;
use hmac::{Hmac, Mac};
use sha2::Sha256;

fn hmac_hex(secret: &str, msg: &str) -> String {
    let mut m = Hmac::<Sha256>::new_from_slice(secret.as_bytes()).unwrap();
    m.update(msg.as_bytes());
    m.finalize()
        .into_bytes()
        .iter()
        .map(|b| format!("{b:02x}"))
        .collect()
}

fn now() -> i64 {
    chrono::Utc::now().timestamp()
}

#[test]
fn webhook_signature_accepts_valid() {
    let payload = br#"{"id":"evt_test"}"#;
    let secret = "whsec_test";
    let ts = now();
    let signed = format!("{ts}.{}", std::str::from_utf8(payload).unwrap());
    let sig = hmac_hex(secret, &signed);
    let header = format!("t={ts},v1={sig}");
    assert!(verify_webhook_signature(payload, &header, secret, ts).is_ok());
}

#[test]
fn webhook_signature_rejects_tampered_payload() {
    let payload = br#"{"id":"evt_test"}"#;
    let secret = "whsec_test";
    let ts = now();
    let signed = format!("{ts}.{}", std::str::from_utf8(payload).unwrap());
    let sig = hmac_hex(secret, &signed);
    let header = format!("t={ts},v1={sig}");
    let tampered = br#"{"id":"evt_evil"}"#;
    assert!(matches!(
        verify_webhook_signature(tampered, &header, secret, ts),
        Err(StripeError::SignatureMismatch)
    ));
}

#[test]
fn webhook_signature_rejects_stale_timestamp() {
    let payload = br#"{"id":"evt_test"}"#;
    let secret = "whsec_test";
    let n = now();
    let stale_ts = n - 3600;
    let signed = format!("{stale_ts}.{}", std::str::from_utf8(payload).unwrap());
    let sig = hmac_hex(secret, &signed);
    let header = format!("t={stale_ts},v1={sig}");
    assert!(matches!(
        verify_webhook_signature(payload, &header, secret, n),
        Err(StripeError::TimestampSkew)
    ));
}

#[test]
fn malformed_header_rejected() {
    let payload = b"x";
    assert!(matches!(
        verify_webhook_signature(payload, "garbage", "s", now()),
        Err(StripeError::BadSignatureHeader)
    ));
}

#[test]
fn webhook_accepts_any_matching_v1_among_several() {
    let payload = b"body";
    let secret = "whsec_x";
    let ts = 1_700_000_000i64;
    let sig = hmac_hex(secret, &format!("{ts}.body"));
    let header = format!("t={ts},v1=00ff,v0=abc,v1={sig}");
    assert!(verify_webhook_signature(payload, &header, secret, ts + 300).is_ok());
    assert!(matches!(
        verify_webhook_signature(payload, &header, secret, ts + 301),
        Err(StripeError::TimestampSkew)
    ));
    assert!(matches!(
        verify_webhook_signature(payload, &format!("t={ts}"), secret, ts),
        Err(StripeError::BadSignatureHeader)
    ));
}

#[test]
fn constant_time_eq_and_hex_decode() {
    assert!(constant_time_eq(b"abc", b"abc"));
    assert!(!constant_time_eq(b"abc", b"abd"));
    assert!(!constant_time_eq(b"abc", b"ab"));
    assert_eq!(hex_decode("00ff10"), Ok(vec![0u8, 255, 16]));
    assert_eq!(hex_decode("0g"), Err(()));
    assert_eq!(hex_decode("abc"), Err(()));
}

#[test]
fn stripe_errors_map_to_api_errors() {
    let e = map_stripe_error(StripeError::SecretKeyMissing);
    assert_eq!(e.status, 503);
    let e = map_stripe_error(StripeError::SignatureMismatch);
    assert_eq!(e.status, 500);
    let e = map_stripe_error(StripeError::Api { status: 402, body: "no".to_string() });
    assert_eq!((e.status, e.message.as_str()), (400, "stripe 402: no"));
    assert_eq!(
        StripeError::TimestampSkew.message(),
        "webhook timestamp outside tolerance window"
    );
}

fn signer() -> LicenseSigner {
    let seed = base64::engine::general_purpose::STANDARD.encode([7u8; 32]);
    match LicenseSigner::from_b64_seed(&seed) {
        Ok(s) => s,
        Err(_) => panic!("test signer"),
    }
}

fn claims_json(exp: Option<i64>) -> Vec<u8> {
    let nil = "00000000-0000-0000-0000-000000000000";
    let exp_part = match exp {
        Some(e) => format!(",\"exp\":{e}"),
        None => String::new(),
    };
    format!(
        "{{\"jti\":\"{nil}\",\"sub\":\"{nil}\",\"aud\":\"{nil}\",\"plan_id\":\"{nil}\",\"plan_name\":\"Pro\",\"iat\":1700000000{exp_part},\"quota\":1000}}"
    )
    .into_bytes()
}

fn verify_full(s: &LicenseSigner, token: &str) -> Result<serde_json::Value, LicenseError> {
    let bytes = s.verify_token(token)?;
    let v: serde_json::Value =
        serde_json::from_slice(&bytes).map_err(|_| LicenseError::MalformedToken)?;
    let exp = v.get("exp").and_then(|e| e.as_i64());
    check_expiry(exp, now())?;
    Ok(v)
}

#[test]
fn round_trip_signs_and_verifies() {
    let s = signer();
    let token = s.sign_claims_json(&claims_json(Some(now() + 3600))).unwrap();
    let decoded = verify_full(&s, &token).unwrap();
    assert_eq!(decoded.get("plan_name").and_then(|p| p.as_str()), Some("Pro"));
}

#[test]
fn tampered_token_rejected() {
    let s = signer();
    let token = s.sign_claims_json(&claims_json(Some(now() + 3600))).unwrap();
    let mut parts: Vec<&str> = token.split('.').collect();
    let mut sig = parts[2].to_string();
    // The last character carries two bits; replacing an 'A' by an 'A' would change nothing.
    let last = sig.pop();
    sig.push(if last == Some('A') { 'Q' } else { 'A' });
    parts[2] = &sig;
    let tampered = parts.join(".");
    assert!(matches!(
        verify_full(&s, &tampered),
        Err(LicenseError::BadSignature) | Err(LicenseError::MalformedToken)
    ));
}

#[test]
fn expired_token_rejected() {
    let s = signer();
    let token = s.sign_claims_json(&claims_json(Some(1))).unwrap();
    assert!(matches!(verify_full(&s, &token), Err(LicenseError::Expired)));
}

#[test]
fn invalid_seed_length_rejected() {
    let seed = base64::engine::general_purpose::STANDARD.encode([1u8; 16]);
    assert!(matches!(
        LicenseSigner::from_b64_seed(&seed),
        Err(LicenseError::SigningKeyLength)
    ));
}

#[test]
fn license_token_shape_and_errors() {
    let s = signer();
    let token = s.sign_claims_json(b"{}").unwrap();
    assert!(token.starts_with("eyJhbGciOiJFZERTQSIsInR5cCI6IkpXVCJ9.e30."));
    assert_eq!(token.split('.').count(), 3);
    assert!(matches!(s.verify_token("a.b"), Err(LicenseError::MalformedToken)));
    assert!(matches!(s.verify_token("a.b.c.d"), Err(LicenseError::MalformedToken)));
    let hs = base64::engine::general_purpose::URL_SAFE_NO_PAD.encode(br#"{"alg":"HS256"}"#);
    match s.verify_token(&format!("{hs}.e30.AAAA")) {
        Err(LicenseError::UnsupportedAlgorithm(a)) => assert_eq!(a, "HS256"),
        other => panic!("unexpected {:?}", other),
    }
    assert_eq!(s.verify_token(&token), Ok(b"{}".to_vec()));
    let other = LicenseSigner::from_b64_seed(
        &base64::engine::general_purpose::URL_SAFE_NO_PAD.encode([9u8; 32]),
    )
    .unwrap_or_else(|_| panic!("url-safe seed"));
    assert!(matches!(other.verify_token(&token), Err(LicenseError::BadSignature)));
    assert_ne!(other.public_key_b64(), s.public_key_b64());
    assert!(matches!(LicenseSigner::from_b64_seed("!!"), Err(LicenseError::SigningKeyEncoding)));
    assert_eq!(check_expiry(None, 5), Ok(()));
    assert_eq!(check_expiry(Some(5), 5), Err(LicenseError::Expired));
    assert_eq!(check_expiry(Some(6), 5), Ok(()));
}

#[test]
fn webhook_checks_refuse_inputs_that_cannot_be_read() {
    let payload = br#"{"id":"evt_test"}"#;
    let secret = "whsec_test";
    let ts = now();
    let sig = hmac_hex(secret, &format!("{ts}.{}", std::str::from_utf8(payload).unwrap()));
    let good = format!("t={ts},v1={sig}");
    assert_eq!(check_webhook_signature(payload, &good, secret, ts), Some(Ok(())));
    let first_matches = format!("t={ts},v1={sig},v1=aé1");
    assert_eq!(check_webhook_signature(payload, &first_matches, secret, ts), Some(Ok(())));
    let unreadable = format!("t={ts},v1=aé1,v1={sig}");
    assert_eq!(check_webhook_signature(payload, &unreadable, secret, ts), None);
    assert_eq!(
        check_webhook_signature(payload, &unreadable, secret, ts + 301),
        Some(Err(StripeError::TimestampSkew))
    );
    let far = format!("t={},v1={sig}", i64::MIN + 1);
    assert_eq!(check_webhook_signature(payload, &far, secret, 1), None);
    assert_eq!(
        check_webhook_signature(payload, "t=1", secret, 1),
        Some(Err(StripeError::BadSignatureHeader))
    );
}
