use api::access::{
    authenticate_api_key, bearer_token, classify_credentials, context_from_claims, is_admin,
    parse_api_keys,
    AuthContext, AuthMethod, Credential,
};
use api::auth::{
    clamp_lifetime, decode_hex, decode_hex_32, decode_hex_64, hash_refresh_token,
    validate_jwt_secret, AuthClaims, AuthConfigError, AuthManager, MIN_JWT_SECRET_LEN,
};
use api::auth_handlers::{
    get_challenge, refresh_token, requested_lifetime, try_verify_challenge, ChallengeQuery,
    RefreshTokenRequest, VerifyRequest,
};
use ed25519_dalek::{Signer, SigningKey};
use stellar_strkey::ed25519::PublicKey as StellarPublicKey;

fn hex_encode(data: &[u8]) -> String {
    data.iter().map(|b| format!("{:02x}", b)).collect::<String>()
}

fn now() -> i64 {
    chrono::Utc::now().timestamp()
}

fn claims_value(c: &AuthClaims) -> serde_json::Value {
    let mut m = serde_json::Map::new();
    m.insert("sub".to_string(), serde_json::Value::from(c.sub.clone()));
    m.insert(
        "publisher_id".to_string(),
        serde_json::Value::from(uuid::Uuid::from_u128(c.publisher_id).to_string()),
    );
    m.insert("iat".to_string(), serde_json::Value::from(c.iat));
    m.insert("exp".to_string(), serde_json::Value::from(c.exp));
    m.insert(
        "scopes".to_string(),
        serde_json::Value::from(c.scopes.iter().map(|s| serde_json::Value::from(s.clone())).collect::<Vec<_>>()),
    );
    serde_json::Value::Object(m)
}

#[test]
fn challenge_verify_and_jwt_works() {
    let mut auth = AuthManager::new("test-secret".to_string());
    let seed = [7u8; 32];
    let sk = SigningKey::from_bytes(&seed);
    let address = StellarPublicKey(*sk.verifying_key().as_bytes()).to_string().as_str().to_string();
    let vk_hex = hex_encode(sk.verifying_key().as_bytes());
    let nonce = auth.create_challenge(&address);
    let sig = sk.sign(nonce.as_bytes());
    let claims = auth
        .verify_and_issue_claims_at(
            &address,
            &vk_hex,
            &hex_encode(&sig.to_bytes()),
            0,
            vec!["read".to_string()],
            3_600,
            now(),
        )
        .expect("jwt must be issued");
    let key = jsonwebtoken::EncodingKey::from_secret(auth.secret_bytes());
    let token = jsonwebtoken::encode(&jsonwebtoken::Header::default(), &claims_value(&claims), &key)
        .expect("jwt must be issued");
    let dkey = jsonwebtoken::DecodingKey::from_secret(auth.secret_bytes());
    let decoded = jsonwebtoken::decode::<serde_json::Value>(
        &token,
        &dkey,
        &jsonwebtoken::Validation::new(jsonwebtoken::Algorithm::HS256),
    )
    .expect("token must be valid");
    assert_eq!(decoded.claims.get("sub").and_then(|s| s.as_str()), Some(address.as_str()));
    assert_eq!(claims.scopes, vec!["read".to_string()]);
    assert_eq!(claims.exp - claims.iat, 3_600);
}

#[test]
fn nonce_is_single_use() {
    let mut auth = AuthManager::new("test-secret".to_string());
    let seed = [9u8; 32];
    let sk = SigningKey::from_bytes(&seed);
    let address = StellarPublicKey(*sk.verifying_key().as_bytes()).to_string().as_str().to_string();
    let vk_hex = hex_encode(sk.verifying_key().as_bytes());
    let nonce = auth.create_challenge(&address);
    let sig = sk.sign(nonce.as_bytes());
    let sig_hex = hex_encode(&sig.to_bytes());
    let first = auth.verify_and_issue_claims_at(&address, &vk_hex, &sig_hex, 0, vec![], 3_600, now());
    assert!(first.is_ok());
    let second = auth.verify_and_issue_claims_at(&address, &vk_hex, &sig_hex, 0, vec![], 3_600, now());
    assert!(second.is_err());
    assert_eq!(second.unwrap_err(), "challenge_not_found");
}

#[test]
fn jwt_secret_length_is_enforced() {
    let too_short = "a".repeat(MIN_JWT_SECRET_LEN - 1);
    let result = validate_jwt_secret(&too_short);
    assert!(matches!(
        result,
        Err(AuthConfigError::JwtSecretTooShort { min_len: MIN_JWT_SECRET_LEN, actual_len: _ })
    ));
    let valid = "a".repeat(MIN_JWT_SECRET_LEN);
    assert!(validate_jwt_secret(&valid).is_ok());
    assert_eq!(
        AuthConfigError::JwtSecretTooShort { min_len: 32, actual_len: 5 }.message(),
        "JWT_SECRET must be at least 32 characters (got 5)"
    );
    assert!(matches!(AuthManager::from_secret(None), Err(AuthConfigError::MissingJwtSecret)));
    assert!(AuthManager::from_secret(Some(valid)).is_ok());
}

#[test]
fn challenge_checks_name_the_first_failure() {
    let mut auth = AuthManager::new("a".repeat(32));
    let sk = SigningKey::from_bytes(&[3u8; 32]);
    let other = SigningKey::from_bytes(&[4u8; 32]);
    let address = StellarPublicKey(*sk.verifying_key().as_bytes()).to_string().as_str().to_string();
    let vk_hex = hex_encode(sk.verifying_key().as_bytes());
    let other_hex = hex_encode(other.verifying_key().as_bytes());
    let t = now();

    assert_eq!(auth.verify_challenge(&address, &vk_hex, "00", t), Err("challenge_not_found"));
    auth.create_challenge_at(&address, "nonce-1".to_string(), t);
    assert_eq!(auth.verify_challenge(&address, &vk_hex, "00", t + 301), Err("challenge_expired"));
    auth.create_challenge_at(&address, "nonce-1".to_string(), t);
    assert_eq!(auth.verify_challenge(&address, "zz", "00", t), Err("invalid_public_key_hex"));
    auth.create_challenge_at("not-an-address", "nonce-1".to_string(), t);
    assert_eq!(auth.verify_challenge("not-an-address", &vk_hex, "00", t), Err("invalid_address"));
    auth.create_challenge_at(&address, "nonce-1".to_string(), t);
    assert_eq!(auth.verify_challenge(&address, &other_hex, "00", t), Err("address_public_key_mismatch"));
    auth.create_challenge_at(&address, "nonce-1".to_string(), t);
    assert_eq!(auth.verify_challenge(&address, &vk_hex, "00", t), Err("invalid_signature_hex"));
    auth.create_challenge_at(&address, "nonce-1".to_string(), t);
    let wrong = hex_encode(&sk.sign(b"nonce-2").to_bytes());
    assert_eq!(auth.verify_challenge(&address, &vk_hex, &wrong, t), Err("invalid_signature"));
    auth.create_challenge_at(&address, "nonce-1".to_string(), t);
    let right = hex_encode(&sk.sign(b"nonce-1").to_bytes());
    assert_eq!(auth.verify_challenge(&address, &vk_hex, &right, t + 300), Ok(()));
}

#[test]
fn sessions_rotate_refresh_tokens_and_revoke() {
    let mut auth = AuthManager::new("a".repeat(32));
    let t = now();
    let issued = auth.open_session_at("GADDR", 42, vec!["read".into()], 10, t, 7, "first".into());
    assert_eq!(issued.expires_in_seconds, 300);
    assert_eq!(issued.claims.session_id, Some(7));
    assert_eq!(issued.claims.exp, t + 300);
    let next = auth.refresh_at("first", 100_000_000, t, "second".into()).expect("refresh");
    assert_eq!(next.session_id, 7);
    assert_eq!(next.expires_in_seconds, 2_592_000);
    assert_eq!(next.claims.publisher_id, 42);
    assert_eq!(auth.refresh_at("first", 600, t, "third".into()).unwrap_err(), "refresh_token_not_found");
    let r = refresh_token(&mut auth, RefreshTokenRequest { refresh_token: "second".into(), expires_in_seconds: None });
    let pair = r.expect("second token refreshes");
    assert_eq!(pair.expires_in_seconds, 86_400);
    assert!(auth.revoke_session(7));
    assert!(!auth.revoke_session(7));
    let gone = refresh_token(
        &mut auth,
        RefreshTokenRequest { refresh_token: pair.refresh_token, expires_in_seconds: None },
    );
    assert_eq!(gone.unwrap_err().status, 401);
    auth.open_session_at("GADDR", 1, vec![], 600, t - 3_000_000, 9, "old".into());
    assert_eq!(auth.refresh_at("old", 600, t, "new".into()).unwrap_err(), "session_expired");
    assert_eq!(auth.refresh_at("old", 600, t, "new".into()).unwrap_err(), "refresh_token_not_found");
    assert_eq!(hash_refresh_token("abc").len(), 64);
}

#[test]
fn challenge_returns_nonce_for_address() {
    let mut auth = AuthManager::new("a".repeat(32));
    let key = SigningKey::from_bytes(&[1u8; 32]);
    let address = StellarPublicKey(*key.verifying_key().as_bytes()).to_string().as_str().to_string();
    let resp = get_challenge(&mut auth, ChallengeQuery { address }).expect("challenge");
    assert_eq!(resp.address.len(), 56);
    assert!(!resp.nonce.is_empty());
    assert_eq!(resp.nonce.len(), 32);
    assert!(resp.nonce.chars().all(|c| c.is_ascii_alphanumeric()));
    assert_eq!(resp.expires_in_seconds, 300);
}

#[test]
fn challenge_rejects_empty_address() {
    let mut auth = AuthManager::new("a".repeat(32));
    let result = get_challenge(&mut auth, ChallengeQuery { address: "   ".to_string() });
    assert!(result.is_err());
}

#[test]
fn hex_and_lifetime_helpers() {
    assert_eq!(decode_hex("0aff"), Some(vec![10, 255]));
    assert_eq!(decode_hex("0af"), None);
    assert_eq!(decode_hex("+f"), Some(vec![15]));
    assert!(decode_hex_32(&"00".repeat(32)).is_some());
    assert!(decode_hex_32(&"00".repeat(31)).is_none());
    assert!(decode_hex_64(&"ab".repeat(64)).is_some());
    assert_eq!(clamp_lifetime(1), 300);
    assert_eq!(clamp_lifetime(5_000), 5_000);
    assert_eq!(clamp_lifetime(u64::MAX), 2_592_000);
    assert_eq!(requested_lifetime(None), 86_400);
}

fn ctx(role: &str, permissions: &[&str]) -> AuthContext {
    AuthContext {
        subject: "s".into(),
        publisher_id: None,
        role: role.into(),
        permissions: permissions.iter().map(|p| p.to_string()).collect(),
        method: AuthMethod::Jwt,
        mfa_verified: false,
    }
}

#[test]
fn permissions_follow_scopes_and_admin_role() {
    assert!(ctx("AdMiN", &[]).has_permission("security:write"));
    assert!(ctx("user", &["*"]).has_permission("anything"));
    assert!(ctx("user", &["security:write"]).has_permission("security:write"));
    assert!(ctx("user", &["security:*"]).has_permission("security:write"));
    assert!(!ctx("user", &["security:*"]).has_permission("securitywrite"));
    assert!(!ctx("user", &["read:*"]).has_permission("security:write"));
    assert!(!ctx("administrator", &[]).has_permission("x"));
}

#[test]
fn bearer_tokens_are_read_from_the_authorization_header() {
    assert_eq!(bearer_token(Some("Bearer  abc ")), Some("abc".to_string()));
    assert_eq!(bearer_token(Some("Bearer    ")), None);
    assert_eq!(bearer_token(Some("bearer abc")), None);
    assert_eq!(bearer_token(Some("ApiKey abc")), None);
    assert_eq!(bearer_token(None), None);
}

#[test]
fn credentials_are_read_from_headers() {
    assert_eq!(classify_credentials(Some("  k1 "), Some("Bearer t")), Credential::ApiKey("k1".into()));
    assert_eq!(classify_credentials(Some("  "), None), Credential::Missing);
    assert_eq!(classify_credentials(None, Some("ApiKey  k2 ")), Credential::ApiKey("k2".into()));
    assert_eq!(classify_credentials(None, Some("Bearer  jwt ")), Credential::Token(AuthMethod::Jwt, "jwt".into()));
    assert_eq!(classify_credentials(None, Some("OAuth2 tok")), Credential::Token(AuthMethod::OAuth2, "tok".into()));
    assert_eq!(classify_credentials(None, Some("Basic xyz")), Credential::UnsupportedScheme);
}

#[test]
fn api_key_settings_are_parsed_with_defaults() {
    let entries = parse_api_keys("k1:svc:admin:read|write.x :mfa, ,k2,:nokey, k3 : : : a| |b : 1");
    assert_eq!(entries.len(), 3);
    assert_eq!(entries[0].key, "k1");
    assert_eq!(entries[0].subject, "svc");
    assert_eq!(entries[0].role, "admin");
    assert_eq!(entries[0].permissions, vec!["read".to_string(), "write.x".to_string()]);
    assert!(entries[0].mfa_verified);
    assert_eq!(entries[1].key, "k2");
    assert_eq!(entries[1].subject, "api-key");
    assert_eq!(entries[1].role, "service");
    assert_eq!(entries[1].permissions, vec!["read:*".to_string()]);
    assert!(!entries[1].mfa_verified);
    assert_eq!(entries[2].key, "k3");
    assert_eq!(entries[2].permissions, vec!["a".to_string(), "b".to_string()]);
    assert!(entries[2].mfa_verified);
    let ok = authenticate_api_key(&entries, "k2").expect("known key");
    assert_eq!(ok.subject, "api-key");
    assert_eq!(ok.method, AuthMethod::ApiKey);
    let bad = authenticate_api_key(&entries, "nope").unwrap_err();
    assert_eq!((bad.status, bad.message.as_str()), (401, "Invalid API key"));
}

#[test]
fn token_claims_give_roles() {
    let c = AuthClaims {
        sub: "G1".into(),
        publisher_id: 5,
        iat: 0,
        exp: 10,
        scopes: vec!["read:*".into()],
        role: None,
        admin: true,
        mfa_verified: false,
        session_id: None,
    };
    assert!(is_admin(&c));
    let ctx = context_from_claims(c.clone(), AuthMethod::Jwt);
    assert_eq!(ctx.role, "admin");
    assert_eq!(ctx.publisher_id, Some(5));
    let mut d = c;
    d.admin = false;
    assert!(!is_admin(&d));
    assert_eq!(context_from_claims(d.clone(), AuthMethod::OAuth2).role, "user");
    d.role = Some("Admin".into());
    assert!(is_admin(&d));
    d.role = Some("aDmin".into());
    assert!(!is_admin(&d));
}

#[test]
fn non_ascii_hex_is_refused_before_the_check() {
    let mut auth = AuthManager::new("a".repeat(32));
    let sk = SigningKey::from_bytes(&[3u8; 32]);
    let address = StellarPublicKey(*sk.verifying_key().as_bytes()).to_string().as_str().to_string();
    let vk_hex = hex_encode(sk.verifying_key().as_bytes());
    let t = now();
    auth.create_challenge_at(&address, "nonce-1".to_string(), t);
    assert!(!auth.challenge_inputs_ok_at(&address, "aé1", "00", t));
    assert!(auth.challenge_inputs_ok_at(&address, "aé1", "00", t + 301));
    assert!(auth.challenge_inputs_ok_at(&address, "zz", "00", t));
    assert!(auth.try_verify_and_issue_claims_at(&address, "aé1", "00", 0, vec![], 600, t).is_none());
    let expired = auth.try_verify_and_issue_claims_at(&address, "aé1", "00", 0, vec![], 600, t + 301);
    assert_eq!(expired, Some(Err("challenge_expired")));
    auth.create_challenge_at(&address, "nonce-1".to_string(), t);
    let sig = hex_encode(&sk.sign(b"nonce-1").to_bytes());
    let claims = auth
        .try_verify_and_issue_claims_at(&address, &vk_hex, &sig, 9, vec![], 600, t)
        .expect("checked inputs")
        .expect("valid answer");
    assert_eq!((claims.publisher_id, claims.iat, claims.exp), (9, t, t + 600));
    let request = |public_key: &str| VerifyRequest {
        address: address.clone(),
        public_key: public_key.to_string(),
        signature: "00".to_string(),
        scopes: vec![],
        expires_in_seconds: None,
    };
    auth.create_challenge_at(&address, "nonce-2".to_string(), t);
    assert!(try_verify_challenge(&mut auth, request("aé1"), Some(1)).is_none());
    let unknown = try_verify_challenge(&mut auth, request("aé1"), None).expect("no check reached");
    assert_eq!(unknown.unwrap_err().status, 404);
    let failed = try_verify_challenge(&mut auth, request(&vk_hex), Some(1)).expect("checked");
    assert_eq!(failed.unwrap_err().code, "AuthFailed");
}
