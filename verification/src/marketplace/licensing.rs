//! Issuing, validating, revoking and metering licenses: the decisions the
//! license endpoints take around the database and the signer.

use vstd::prelude::*;
use vstd::string::*;
use crate::error::ApiError;
use crate::marketplace::license::{license_error_message, LicenseError, LicenseSigner};
use crate::crypto::{base64_standard_encode, ed25519_public_of_seed};
use crate::text::str_eq;

verus! {

broadcast use vstd::string::group_string_axioms;

/// Seconds a monthly license runs.
pub const MONTHLY_LICENSE_SECS: i64 = 2_592_000;

/// A license token to validate.
#[derive(Debug, Clone)]
pub struct ValidateLicenseRequest {
    pub token: String,
}

/// The public key licenses are verified with.
#[derive(Debug, Clone)]
pub struct PubKeyResponse {
    pub alg: String,
    pub public_key_b64: String,
}

/// Default currency of a new plan.
pub fn default_currency() -> (s: String)
    ensures
        s@ == "USD"@,
{
    String::from_str("USD")
}

/// Default billing period of a new plan.
pub fn default_billing_period() -> (s: String)
    ensures
        s@ == "monthly"@,
{
    String::from_str("monthly")
}

/// Default number of calls a usage event records.
pub fn one() -> (n: i32)
    ensures
        n == 1,
{
    1
}

/// The key clients verify license tokens with.
pub fn pubkey_response(signer: &LicenseSigner) -> (r: PubKeyResponse)
    ensures
        r.alg@ == "EdDSA"@,
        r.public_key_b64@ == base64_standard_encode(ed25519_public_of_seed(signer.seed())),
{
    PubKeyResponse { alg: String::from_str("EdDSA"), public_key_b64: signer.public_key_b64() }
}

/// The answer when the signing key cannot be loaded.
pub fn signer_unavailable(e: &LicenseError) -> (a: ApiError)
    ensures
        a.status == 503,
        a.code@ == "license_signing_unavailable"@,
        a.message@ == "marketplace license signing key is not configured: "@ + license_error_message(*e)
            + ". Set MARKETPLACE_LICENSE_SIGNING_KEY (base64-encoded 32-byte Ed25519 seed)."@,
{
    let mut m = String::from_str("marketplace license signing key is not configured: ");
    let d = e.message();
    m.append(d.as_str());
    m.append(". Set MARKETPLACE_LICENSE_SIGNING_KEY (base64-encoded 32-byte Ed25519 seed).");
    ApiError::with_message(503, "license_signing_unavailable", m)
}

/// Expiry of a license issued at `now` (seconds): monthly plans run thirty
/// days, others do not expire.
pub fn license_expiry(billing_period: &str, now: i64) -> (e: Option<i64>)
    requires
        now <= i64::MAX - MONTHLY_LICENSE_SECS,
    ensures
        billing_period@ == "monthly"@ ==> e == Some((now + MONTHLY_LICENSE_SECS) as i64),
        billing_period@ != "monthly"@ ==> e is None,
{
    if str_eq(billing_period, "monthly") {
        Some(now + MONTHLY_LICENSE_SECS)
    } else {
        None
    }
}

/// What a license validation answers, apart from the claims and dates.
#[derive(Debug, Clone, PartialEq, Eq)]
pub struct ValidationVerdict {
    pub valid: bool,
    pub reason: Option<String>,
    pub status: Option<String>,
}

/// A token that failed verification: `expired`, or the error's message.
pub fn verdict_for_token_error(e: &LicenseError) -> (v: ValidationVerdict)
    ensures
        !v.valid,
        v.status is None,
        v.reason matches Some(r) && r@ == (if *e == LicenseError::Expired {
            "expired"@
        } else {
            license_error_message(*e)
        }),
{
    let reason = match e {
        LicenseError::Expired => String::from_str("expired"),
        _ => e.message(),
    };
    ValidationVerdict { valid: false, reason: Some(reason), status: None }
}

/// A verified token, given the status of its license record (`None` when
/// there is no record): valid only while `active`; otherwise the status
/// (or `not_found`) is the reason.
pub fn verdict_for_record(status: Option<String>) -> (v: ValidationVerdict)
    ensures
        match status {
            None => !v.valid && (v.reason matches Some(r) && r@ == "not_found"@) && v.status is None,
            Some(s) => v.valid == (s@ == "active"@) && v.status == Some(s) && (if s@ == "active"@ {
                v.reason is None
            } else {
                v.reason == Some(s)
            }),
        },
{
    match status {
        None => ValidationVerdict {
            valid: false,
            reason: Some(String::from_str("not_found")),
            status: None,
        },
        Some(s) => {
            let valid = str_eq(s.as_str(), "active");
            let reason = if valid {
                None
            } else {
                Some(s.clone())
            };
            ValidationVerdict { valid, reason, status: Some(s) }
        },
    }
}

/// Who may act on a license: its owner, or the owner of its contract
/// (`owns_contract`, asked only when the caller is not the owner).
pub fn check_license_access(is_owner: bool, owns_contract: bool, denial: &str) -> (r: Result<(), ApiError>)
    ensures
        (is_owner || owns_contract) ==> r is Ok,
        !(is_owner || owns_contract) ==> (r matches Err(e) && e.status == 403 && e.message@ == denial@),
{
    if is_owner || owns_contract {
        Ok(())
    } else {
        Err(ApiError::forbidden(denial))
    }
}

/// A revoked license is returned as it is; others are revoked.
pub fn needs_revocation(status: &str) -> (r: bool)
    ensures
        r == (status@ != "revoked"@),
{
    !str_eq(status, "revoked")
}

/// The checks before recording usage of a license: the token's license
/// is the one in the path; the license is active and unexpired at `now`;
/// the count is positive.
pub fn check_usage_event(
    token_matches_path: bool,
    status: &str,
    expires_at: Option<i64>,
    now: i64,
    call_count: i32,
) -> (r: Result<(), ApiError>)
    ensures
        !token_matches_path ==> (r matches Err(e) && e.status == 401 && e.message@
            == "license token does not match path jti"@),
        token_matches_path && status@ != "active"@ ==> (r matches Err(e) && e.status == 403 && e.message@
            == "license is "@ + status@ + " and cannot record usage"@),
        token_matches_path && status@ == "active"@ && (expires_at matches Some(x) && x <= now) ==> (r matches Err(e)
            && e.status == 403 && e.message@ == "license has expired"@),
        token_matches_path && status@ == "active"@ && !(expires_at matches Some(x) && x <= now) && call_count <= 0
            ==> (r matches Err(e) && e.status == 400 && e.message@ == "call_count must be positive"@),
        token_matches_path && status@ == "active"@ && !(expires_at matches Some(x) && x <= now) && call_count > 0
            ==> r is Ok,
{
    if !token_matches_path {
        return Err(ApiError::unauthorized("license token does not match path jti"));
    }
    if !str_eq(status, "active") {
        let mut m = String::from_str("license is ");
        m.append(status);
        m.append(" and cannot record usage");
        return Err(ApiError::with_message(403, "FORBIDDEN", m));
    }
    if let Some(x) = expires_at {
        if x <= now {
            return Err(ApiError::forbidden("license has expired"));
        }
    }
    if call_count <= 0 {
        return Err(ApiError::bad_request_msg("call_count must be positive"));
    }
    Ok(())
}

/// A token that failed verification when recording usage.
pub fn usage_token_error(e: &LicenseError) -> (a: ApiError)
    ensures
        a.status == 401,
        a.message@ == "license token invalid: "@ + license_error_message(*e),
{
    let mut m = String::from_str("license token invalid: ");
    let d = e.message();
    m.append(d.as_str());
    ApiError::with_message(401, "UNAUTHORIZED", m)
}

/// Whether a period's calls exceed the plan's quota (none without one).
pub fn quota_exceeded(total_calls: i64, quota: Option<i64>) -> (r: bool)
    ensures
        r == (quota matches Some(q) && total_calls > q),
{
    match quota {
        Some(q) => total_calls > q,
        None => false,
    }
}

} // verus!
