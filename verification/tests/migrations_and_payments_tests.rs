use api::marketplace::license::{LicenseError, LicenseSigner};
use api::marketplace::licensing::{
    check_license_access, check_usage_event, default_billing_period, default_currency,
    license_expiry, needs_revocation, one, pubkey_response, quota_exceeded, signer_unavailable,
    usage_token_error, verdict_for_record, verdict_for_token_error,
};
use api::marketplace::usdc_intents::{
    cents_to_usdc_stroops, check_intent_viewer, check_paid_plan, check_snapshot, confirmed_cents,
    intent_expiry, memo_step, rejection_error, usdc_unconfigured, validate_confirm_request,
    ConfirmIntentRequest, IntentRejection, IntentSnapshot, MemoInsert, MemoStep,
};
use api::migrations::{
    applied_response, audit_page, compute_checksum, dry_run_response, gap_warnings, locked_error,
    missing_versions, registered_response, rollback_precheck, split_statements,
    summarize_versions, validation_report, version_exists_error, ApplyMigrationRequest,
    RollbackScript, RollbackTarget, VersionRecord,
};
use base64::Engine;
use sha2::{Digest, Sha256};

fn request(version: i32, sql: &str) -> ApplyMigrationRequest {
    ApplyMigrationRequest {
        version,
        description: "  add table ".into(),
        filename: " 0001.sql ".into(),
        sql_content: sql.into(),
        down_sql: None,
        dry_run: true,
    }
}

#[test]
fn checksums_and_statements() {
    let expected = hex::encode(Sha256::digest(b"SELECT 1;"));
    assert_eq!(compute_checksum("SELECT 1;"), expected);
    assert_eq!(
        compute_checksum(""),
        "e3b0c44298fc1c149afbf4c8996fb92427ae41e4649b934ca495991b7852b855"
    );
    assert_eq!(split_statements(" CREATE TABLE a (x int);\n ; INSERT INTO a VALUES (1) ;  "), vec![
        "CREATE TABLE a (x int)".to_string(),
        "INSERT INTO a VALUES (1)".to_string(),
    ]);
    assert!(split_statements(" ; ; ").is_empty());
}

#[test]
fn requests_are_sanitized_and_validated() {
    let mut r = request(3, "SELECT 1");
    r.sanitize();
    assert_eq!((r.description.as_str(), r.filename.as_str()), ("add table", "0001.sql"));
    assert!(r.validate().is_ok());
    let bad = ApplyMigrationRequest {
        version: 0,
        description: " ".into(),
        filename: "f".into(),
        sql_content: "".into(),
        down_sql: None,
        dry_run: false,
    };
    let errors = bad.validate().unwrap_err();
    let fields: Vec<&str> = errors.iter().map(|e| e.field).collect();
    assert_eq!(fields, vec!["version", "description", "sql_content"]);
}

#[test]
fn migration_responses() {
    let dry = dry_run_response(&request(7, "A; B;"));
    assert!(dry.dry_run);
    assert_eq!(dry.statements_preview, vec!["A".to_string(), "B".to_string()]);
    assert_eq!(dry.message, "Dry-run for version 7: 2 statement(s) would be executed");
    assert_eq!(dry.checksum, compute_checksum("A; B;"));
    let applied = applied_response(8, "c".into(), vec!["X".into()]);
    assert!(!applied.dry_run);
    assert_eq!(applied.message, "Migration version 8 applied successfully (1 statement(s))");
    assert_eq!(registered_response(9, "c".into()).message, "Migration version 9 registered successfully");
    assert_eq!(locked_error().status, 409);
    let e = version_exists_error(4, true);
    assert_eq!((e.code.as_str(), e.message.as_str()), ("VersionExists", "Migration version 4 is already applied"));
    assert_eq!(version_exists_error(4, false).message, "Migration version 4 is already registered");
}

#[test]
fn rollback_prechecks() {
    let down = "DROP TABLE a;";
    let sum = compute_checksum(down);
    assert_eq!(rollback_precheck(5, None, None).unwrap_err().code, "NotFound");
    assert_eq!(
        rollback_precheck(5, Some(RollbackTarget { rolled_back: true }), Some((down, &sum))).unwrap_err().code,
        "AlreadyRolledBack"
    );
    assert_eq!(
        rollback_precheck(5, Some(RollbackTarget { rolled_back: false }), None).unwrap_err().code,
        "NoRollbackScript"
    );
    let mismatch = rollback_precheck(5, Some(RollbackTarget { rolled_back: false }), Some((down, "abc"))).unwrap_err();
    assert_eq!((mismatch.status, mismatch.code.as_str()), (409, "ChecksumMismatch"));
    assert!(rollback_precheck(5, Some(RollbackTarget { rolled_back: false }), Some((down, &sum))).is_ok());
}

#[test]
fn version_reports() {
    assert_eq!(missing_versions(&vec![1, 2, 5, 6, 8]), vec![3, 4, 7]);
    assert!(missing_versions(&vec![]).is_empty());
    assert!(missing_versions(&vec![5, 1]).is_empty());
    assert_eq!(gap_warnings(&vec![1, 3]), vec!["Gap detected: version 2 is missing".to_string()]);
    let s = summarize_versions(&vec![
        VersionRecord { version: 1, rolled_back: false },
        VersionRecord { version: 3, rolled_back: true },
        VersionRecord { version: 2, rolled_back: false },
    ]);
    assert_eq!(s.current_version, Some(2));
    assert_eq!((s.total_applied, s.total_rolled_back), (2, 1));
    assert_eq!(s.active_versions, vec![1, 2]);
    let good = RollbackScript { version: 1, down_sql: "DROP a".into(), checksum: compute_checksum("DROP a") };
    let changed = RollbackScript { version: 2, down_sql: "DROP b".into(), checksum: "old".into() };
    let report = validation_report(&vec![1, 2], &vec![good, changed]);
    assert!(!report.valid);
    assert_eq!(report.mismatches.len(), 1);
    assert_eq!(report.mismatches[0].version, 2);
    assert_eq!(report.mismatches[0].filename, "rollback_v2");
    assert_eq!(report.mismatches[0].expected_checksum, "old");
    assert_eq!(report.mismatches[0].actual_checksum, compute_checksum("DROP b"));
    assert!(report.missing.is_empty());
    let clean = validation_report(&vec![1, 2], &vec![]);
    assert!(clean.valid);
    assert_eq!(audit_page(None, None), (50, 0));
    assert_eq!(audit_page(Some(0), Some(-4)), (1, 0));
    assert_eq!(audit_page(Some(900), Some(10)), (500, 10));
}

#[test]
fn confirmations_are_checked() {
    let hash = "ab".repeat(32);
    let ok = ConfirmIntentRequest { memo: "m".into(), tx_hash: hash.clone(), observed_stroops: 5 };
    assert!(validate_confirm_request(&ok).is_ok());
    let short = ConfirmIntentRequest { memo: "m".into(), tx_hash: "abc".into(), observed_stroops: 5 };
    assert_eq!(validate_confirm_request(&short).unwrap_err().message, "tx_hash must be a 64-char hex string");
    let zero = ConfirmIntentRequest { memo: "m".into(), tx_hash: hash, observed_stroops: 0 };
    assert_eq!(validate_confirm_request(&zero).unwrap_err().message, "observed_stroops must be positive");
    assert_eq!(cents_to_usdc_stroops(1999), 199_900_000);
    assert_eq!(cents_to_usdc_stroops(i64::MAX), i64::MAX);
    assert_eq!(cents_to_usdc_stroops(i64::MIN), i64::MIN);
    let snap = IntentSnapshot { amount_cents: 1999, status: "pending".into(), expires_at: 100, has_license: false };
    assert_eq!(check_snapshot(&snap, 199_900_000, 100), Ok(()));
    assert_eq!(
        check_snapshot(&snap, 199_899_999, 100),
        Err(IntentRejection::Underpayment { observed: 199_899_999, expected: 199_900_000 })
    );
    assert_eq!(check_snapshot(&snap, 199_900_000, 101), Err(IntentRejection::Expired));
    let done = IntentSnapshot { status: "confirmed".into(), ..snap.clone() };
    assert_eq!(check_snapshot(&done, 1, 0), Err(IntentRejection::AlreadyConfirmed));
    let e = rejection_error(&IntentRejection::Underpayment { observed: 10, expected: 199_900_000 }, 1905);
    assert_eq!((e.status, e.code.as_str()), (400, "underpayment"));
    assert_eq!(e.message, "observed 10 stroops, expected at least 199900000 ($19.05)");
    assert_eq!(rejection_error(&IntentRejection::Expired, 0).code, "intent_expired");
    assert_eq!(rejection_error(&IntentRejection::AlreadyConfirmed, 0).status, 409);
    assert_eq!(confirmed_cents(199_900_000), 1999);
    assert!(check_paid_plan(0).is_err());
    assert!(check_paid_plan(500).is_ok());
    assert_eq!(memo_step(1, MemoInsert::Inserted), MemoStep::Done);
    assert_eq!(memo_step(1, MemoInsert::MemoTaken), MemoStep::Retry);
    assert_eq!(memo_step(3, MemoInsert::MemoTaken), MemoStep::GiveUp);
    assert_eq!(memo_step(1, MemoInsert::Failed), MemoStep::GiveUp);
    assert_eq!(intent_expiry(1000), 4600);
    assert!(check_intent_viewer(1, 1).is_ok());
    assert_eq!(check_intent_viewer(1, 2).unwrap_err().status, 403);
    assert_eq!(usdc_unconfigured("missing issuer").message, "USDC payments are not configured: missing issuer");
}

#[test]
fn license_decisions() {
    assert_eq!(default_currency(), "USD");
    assert_eq!(default_billing_period(), "monthly");
    assert_eq!(one(), 1);
    let seed = base64::engine::general_purpose::STANDARD.encode([7u8; 32]);
    let signer = LicenseSigner::from_b64_seed(&seed).unwrap_or_else(|_| panic!("signer"));
    let pk = pubkey_response(&signer);
    assert_eq!(pk.alg, "EdDSA");
    assert_eq!(pk.public_key_b64, signer.public_key_b64());
    let e = signer_unavailable(&LicenseError::SigningKeyMissing);
    assert_eq!(e.status, 503);
    assert_eq!(
        e.message,
        "marketplace license signing key is not configured: MARKETPLACE_LICENSE_SIGNING_KEY is not set. Set MARKETPLACE_LICENSE_SIGNING_KEY (base64-encoded 32-byte Ed25519 seed)."
    );
    assert_eq!(license_expiry("monthly", 10), Some(10 + 2_592_000));
    assert_eq!(license_expiry("lifetime", 10), None);
    let v = verdict_for_token_error(&LicenseError::Expired);
    assert_eq!((v.valid, v.reason.as_deref()), (false, Some("expired")));
    let v = verdict_for_token_error(&LicenseError::BadSignature);
    assert_eq!(v.reason.as_deref(), Some("signature verification failed"));
    let v = verdict_for_record(None);
    assert_eq!(v.reason.as_deref(), Some("not_found"));
    let v = verdict_for_record(Some("active".into()));
    assert!(v.valid && v.reason.is_none());
    let v = verdict_for_record(Some("revoked".into()));
    assert_eq!((v.valid, v.reason.as_deref(), v.status.as_deref()), (false, Some("revoked"), Some("revoked")));
    assert!(check_license_access(false, true, "no").is_ok());
    assert_eq!(check_license_access(false, false, "no").unwrap_err().message, "no");
    assert!(needs_revocation("active"));
    assert!(!needs_revocation("revoked"));
    assert_eq!(check_usage_event(false, "active", None, 0, 1).unwrap_err().status, 401);
    assert_eq!(check_usage_event(true, "revoked", None, 0, 1).unwrap_err().message, "license is revoked and cannot record usage");
    assert_eq!(check_usage_event(true, "active", Some(5), 5, 1).unwrap_err().message, "license has expired");
    assert_eq!(check_usage_event(true, "active", Some(6), 5, 0).unwrap_err().status, 400);
    assert!(check_usage_event(true, "active", None, 5, 3).is_ok());
    assert_eq!(usage_token_error(&LicenseError::MalformedToken).message, "license token invalid: malformed token");
    assert!(quota_exceeded(11, Some(10)));
    assert!(!quota_exceeded(10, Some(10)));
    assert!(!quota_exceeded(1_000_000, None));
}
