//! Data archival: the requests of the archival endpoints and the outcome
//! recorded for each policy run.

use vstd::prelude::*;
use vstd::string::*;
use crate::error::ApiError;

verus! {

broadcast use vstd::string::group_string_axioms;

#[derive(Debug, Clone)]
pub struct TriggerArchivalRequest {
    pub data_type: Option<String>,
}

#[derive(Debug, Clone)]
pub struct RestoreRequest {
    pub source_table: String,
    pub source_id: String,
}

#[derive(Debug, Clone)]
pub struct UpdatePolicyRequest {
    pub retention_days: Option<i32>,
    pub is_enabled: Option<bool>,
    pub archive_storage: Option<String>,
}

/// How a policy run ended, as recorded.
#[derive(Debug, Clone, PartialEq, Eq)]
pub struct RunOutcome {
    pub status: String,
    pub rows_archived: i64,
    pub rows_deleted: i64,
    pub error_message: Option<String>,
}

/// A run's record from what the archiving step returned: the counts when
/// it succeeded, the error (and no counts) when it failed.
pub fn run_outcome(result: Result<(i64, i64), String>) -> (o: RunOutcome)
    ensures
        match result {
            Ok((a, d)) => o.status@ == "completed"@ && o.rows_archived == a && o.rows_deleted == d
                && o.error_message is None,
            Err(m) => o.status@ == "failed"@ && o.rows_archived == 0 && o.rows_deleted == 0
                && o.error_message == Some(m),
        },
{
    match result {
        Ok((a, d)) => RunOutcome {
            status: String::from_str("completed"),
            rows_archived: a,
            rows_deleted: d,
            error_message: None,
        },
        Err(m) => RunOutcome {
            status: String::from_str("failed"),
            rows_archived: 0,
            rows_deleted: 0,
            error_message: Some(m),
        },
    }
}

/// Rows older than this many seconds before `now` are archived.
pub fn retention_cutoff(now: i64, retention_days: i32) -> (c: i64)
    requires
        i64::MIN <= now - retention_days * 86_400 <= i64::MAX,
    ensures
        c == now - retention_days * 86_400,
{
    now - (retention_days as i64) * 86_400
}

/// Triggering with no enabled policy.
pub fn no_enabled_policies() -> (e: ApiError)
    ensures
        e.status == 404,
        e.code@ == "NO_ENABLED_POLICIES"@,
{
    ApiError::not_found("NO_ENABLED_POLICIES", "No enabled archival policies found")
}

/// An unknown policy.
pub fn policy_not_found(data_type: &str) -> (e: ApiError)
    ensures
        e.status == 404,
        e.code@ == "POLICY_NOT_FOUND"@,
        e.message@ == "Policy '"@ + data_type@ + "' not found"@,
{
    let mut m = String::from_str("Policy '");
    m.append(data_type);
    m.append("' not found");
    ApiError::with_message(404, "POLICY_NOT_FOUND", m)
}

} // verus!
