use api::formal_verification::{
    cache_key, default_true, property_key_of, requirement_satisfied, timeout_secs_from,
    validate_requirement, RunRequest, VerifierBackend,
};
use sha2::{Digest, Sha256};

/// The policy check of a run whose confidence is compared with the bar.
fn satisfied(requirement: &str, status: Option<&str>, confidence: Option<f64>, min: f64) -> bool {
    requirement_satisfied(requirement, status, confidence.unwrap_or(0.0) >= min)
}

#[test]
fn cache_key_is_order_independent_for_properties() {
    let a = cache_key("hash1", "builtin", &["p2".into(), "p1".into()]);
    let b = cache_key("hash1", "builtin", &["p1".into(), "p2".into()]);
    assert_eq!(a, b);
}

#[test]
fn cache_key_varies_by_inputs() {
    let base = cache_key("hash1", "builtin", &["p1".into()]);
    assert_ne!(base, cache_key("hash2", "builtin", &["p1".into()]));
    assert_ne!(base, cache_key("hash1", "external", &["p1".into()]));
    assert_ne!(base, cache_key("hash1", "builtin", &["p1".into(), "p2".into()]));
    assert_eq!(base.len(), 64);
}

#[test]
fn cache_key_is_sha256_of_sorted_joined_input() {
    let expected = hex::encode(Sha256::digest(b"h|builtin|a,b,c"));
    let k = cache_key("h", "builtin", &["c".into(), "a".into(), "b".into()]);
    assert_eq!(k, expected);
    let empty = hex::encode(Sha256::digest(b"h|external|"));
    assert_eq!(cache_key("h", "external", &[]), empty);
}

#[test]
fn mandatory_requires_completed_and_confidence() {
    assert!(satisfied("mandatory", Some("completed"), Some(0.9), 0.8));
    assert!(!satisfied("mandatory", Some("completed"), Some(0.5), 0.8));
    assert!(!satisfied("mandatory", Some("timeout"), Some(0.9), 0.8));
    assert!(!satisfied("mandatory", None, None, 0.8));
}

#[test]
fn optional_and_disabled_always_satisfied() {
    assert!(satisfied("optional", None, None, 0.8));
    assert!(satisfied("disabled", Some("failed"), Some(0.0), 0.8));
}

#[test]
fn mandatory_policy_requires_completed_run_above_confidence() {
    assert!(satisfied("mandatory", Some("completed"), Some(0.95), 0.8));
    assert!(!satisfied("mandatory", Some("completed"), Some(0.5), 0.8));
    assert!(!satisfied("mandatory", Some("timeout"), Some(0.99), 0.8));
    assert!(!satisfied("mandatory", None, None, 0.8));
}

#[test]
fn optional_and_disabled_policies_are_always_satisfied() {
    assert!(satisfied("optional", None, None, 0.8));
    assert!(satisfied("disabled", Some("failed"), Some(0.0), 0.8));
    assert!(satisfied("whatever", None, None, 0.8));
}

#[test]
fn backend_selection_follows_service_url() {
    assert_eq!(VerifierBackend::from_service_url(None).name(), "builtin");
    let ext = VerifierBackend::from_service_url(Some("  https://verifier.example/run "));
    assert_eq!(ext.name(), "external");
    assert_eq!(ext, VerifierBackend::External("https://verifier.example/run".to_string()));
    assert_eq!(VerifierBackend::from_service_url(Some("   ")).name(), "builtin");
}

#[test]
fn timeout_setting_falls_back_to_default() {
    assert_eq!(timeout_secs_from(None), 30);
    assert_eq!(timeout_secs_from(Some("12")), 12);
    assert_eq!(timeout_secs_from(Some("0")), 30);
    assert_eq!(timeout_secs_from(Some("abc")), 30);
    assert_eq!(timeout_secs_from(Some(" 5")), 30);
}

#[test]
fn policy_and_property_inputs_are_checked() {
    assert!(validate_requirement("mandatory").is_ok());
    assert!(validate_requirement("disabled").is_ok());
    let e = validate_requirement("sometimes").unwrap_err();
    assert_eq!((e.status, e.code.as_str()), (400, "INVALID_REQUIREMENT"));
    assert_eq!(property_key_of("  no_panic ").unwrap(), "no_panic");
    assert_eq!(property_key_of("   ").unwrap_err().code, "INVALID_KEY");
    assert!(default_true());
    let r = RunRequest::default();
    assert!(!r.force && r.version.is_none());
}
