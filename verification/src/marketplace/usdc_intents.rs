//! USDC payment intents: the checks on a confirmation before a payment
//! is claimed and a license issued, and the small decisions around
//! creating an intent.

use vstd::prelude::*;
use vstd::string::*;
use crate::decimal::{i64_decimal_chars, i64_to_string};
use crate::error::ApiError;
use crate::text::{chars_of, str_eq};

verus! {

broadcast use vstd::string::group_string_axioms;

/// Seconds a payment intent stays open.
pub const INTENT_TTL_SECONDS: i64 = 3600;

/// Attempts at a fresh memo before giving up.
pub const MAX_MEMO_RETRIES: usize = 3;

/// USDC stroops (1e-7 USDC) per US cent.
pub const STROOPS_PER_CENT: i64 = 100_000;

/// The asset code of every intent.
pub const ASSET_CODE: &'static str = "USDC";

/// What an indexer reports when it sees a matching payment.
#[derive(Debug, Clone, PartialEq, Eq)]
pub struct ConfirmIntentRequest {
    pub memo: String,
    pub tx_hash: String,
    /// Amount observed on-chain in USDC stroops.
    pub observed_stroops: i64,
}

/// An ASCII hex digit.
pub open spec fn is_hex_digit(c: char) -> bool {
    ('0' <= c <= '9') || ('a' <= c <= 'f') || ('A' <= c <= 'F')
}

/// A transaction hash: 64 hex digits.
pub open spec fn is_tx_hash(s: Seq<char>) -> bool {
    s.len() == 64 && forall|i: int| 0 <= i < 64 ==> #[trigger] is_hex_digit(s[i])
}

fn tx_hash_ok(s: &str) -> (r: bool)
    ensures
        r == is_tx_hash(s@),
{
    let v = chars_of(s);
    if v.len() != 64 {
        return false;
    }
    let mut i: usize = 0;
    while i < 64
        invariant
            v@ == s@,
            v@.len() == 64,
            i <= 64,
            forall|j: int| 0 <= j < i ==> #[trigger] is_hex_digit(v@[j]),
        decreases 64 - i,
    {
        let c = v[i];
        if !(('0' <= c && c <= '9') || ('a' <= c && c <= 'f') || ('A' <= c && c <= 'F')) {
            assert(!is_hex_digit(s@[i as int]));
            return false;
        }
        i = i + 1;
    }
    true
}

/// Checks the shape of a confirmation: a 64-hex-digit transaction hash
/// (its byte length, as counted by `str::len`, must be 64) and a positive
/// amount.
pub fn validate_confirm_request(req: &ConfirmIntentRequest) -> (r: Result<(), ApiError>)
    ensures
        !is_tx_hash(req.tx_hash@) ==> (r matches Err(e) && e.status == 400 && e.message@
            == "tx_hash must be a 64-char hex string"@),
        is_tx_hash(req.tx_hash@) && req.observed_stroops <= 0 ==> (r matches Err(e) && e.status
            == 400 && e.message@ == "observed_stroops must be positive"@),
        is_tx_hash(req.tx_hash@) && req.observed_stroops > 0 ==> r is Ok,
{
    if !tx_hash_ok(req.tx_hash.as_str()) {
        return Err(ApiError::bad_request_msg("tx_hash must be a 64-char hex string"));
    }
    if req.observed_stroops <= 0 {
        return Err(ApiError::bad_request_msg("observed_stroops must be positive"));
    }
    Ok(())
}

/// Stroops of an amount in cents, held within `i64`.
pub open spec fn cents_to_stroops_spec(cents: i64) -> i64 {
    let x = cents * STROOPS_PER_CENT;
    if x > i64::MAX {
        i64::MAX
    } else if x < i64::MIN {
        i64::MIN
    } else {
        x as i64
    }
}

pub fn cents_to_usdc_stroops(cents: i64) -> (s: i64)
    ensures
        s == cents_to_stroops_spec(cents),
{
    if cents > i64::MAX / STROOPS_PER_CENT {
        i64::MAX
    } else if cents < i64::MIN / STROOPS_PER_CENT {
        i64::MIN
    } else {
        cents * STROOPS_PER_CENT
    }
}

/// The recorded intent a confirmation refers to, as read before claiming.
#[derive(Debug, Clone, PartialEq, Eq)]
pub struct IntentSnapshot {
    pub amount_cents: i64,
    pub status: String,
    /// Expiry, seconds since the epoch.
    pub expires_at: i64,
    pub has_license: bool,
}

/// Why a confirmation is refused before the claim.
#[derive(Debug, Clone, PartialEq, Eq)]
pub enum IntentRejection {
    AlreadyConfirmed,
    Expired,
    Underpayment { observed: i64, expected: i64 },
}

/// The checks on the recorded intent, in order: not confirmed yet, not
/// expired at `now`, and paid in full.
pub open spec fn snapshot_check(s: IntentSnapshot, observed: i64, now: i64) -> Result<(), IntentRejection> {
    if s.status@ == "confirmed"@ || s.has_license {
        Err(IntentRejection::AlreadyConfirmed)
    } else if s.status@ == "expired"@ || now > s.expires_at {
        Err(IntentRejection::Expired)
    } else if observed < cents_to_stroops_spec(s.amount_cents) {
        Err(
            IntentRejection::Underpayment {
                observed,
                expected: cents_to_stroops_spec(s.amount_cents),
            },
        )
    } else {
        Ok(())
    }
}

pub fn check_snapshot(s: &IntentSnapshot, observed: i64, now: i64) -> (r: Result<(), IntentRejection>)
    ensures
        r == snapshot_check(*s, observed, now),
{
    if str_eq(s.status.as_str(), "confirmed") || s.has_license {
        return Err(IntentRejection::AlreadyConfirmed);
    }
    if str_eq(s.status.as_str(), "expired") || now > s.expires_at {
        return Err(IntentRejection::Expired);
    }
    let expected = cents_to_usdc_stroops(s.amount_cents);
    if observed < expected {
        return Err(IntentRejection::Underpayment { observed, expected });
    }
    Ok(())
}

/// Two decimal digits of a number below 100 (`{:02}`).
pub open spec fn two_digits(n: i64) -> Seq<char> {
    if n < 10 {
        "0"@ + i64_decimal_chars(n)
    } else {
        i64_decimal_chars(n)
    }
}

/// The message of an underpayment.
pub open spec fn underpayment_message(observed: i64, expected: i64, cents: i64) -> Seq<char> {
    "observed "@ + i64_decimal_chars(observed) + " stroops, expected at least "@
        + i64_decimal_chars(expected) + " ($"@ + i64_decimal_chars((cents / 100) as i64) + "."@ + two_digits(
        (cents % 100) as i64,
    ) + ")"@
}

/// The API error of a refused confirmation (`amount_cents` of the intent
/// for the underpayment message, which only arises for positive amounts).
pub fn rejection_error(r: &IntentRejection, amount_cents: i64) -> (e: ApiError)
    requires
        r is Underpayment ==> amount_cents >= 0,
    ensures
        match *r {
            IntentRejection::AlreadyConfirmed => e.status == 409 && e.code@ == "already_confirmed"@
                && e.message@ == "this payment intent has already been confirmed"@,
            IntentRejection::Expired => e.status == 409 && e.code@ == "intent_expired"@ && e.message@
                == "this payment intent has expired; create a new one"@,
            IntentRejection::Underpayment { observed, expected } => e.status == 400 && e.code@
                == "underpayment"@ && e.message@ == underpayment_message(
                observed,
                expected,
                amount_cents,
            ),
        },
{
    match r {
        IntentRejection::AlreadyConfirmed => ApiError::conflict(
            "already_confirmed",
            "this payment intent has already been confirmed",
        ),
        IntentRejection::Expired => ApiError::conflict(
            "intent_expired",
            "this payment intent has expired; create a new one",
        ),
        IntentRejection::Underpayment { observed, expected } => {
            let dollars = amount_cents / 100;
            let rest = amount_cents % 100;
            let mut m = String::from_str("observed ");
            let a = i64_to_string(*observed);
            m.append(a.as_str());
            m.append(" stroops, expected at least ");
            let b = i64_to_string(*expected);
            m.append(b.as_str());
            m.append(" ($");
            let c = i64_to_string(dollars);
            m.append(c.as_str());
            m.append(".");
            if rest < 10 {
                m.append("0");
            }
            let d = i64_to_string(rest);
            m.append(d.as_str());
            m.append(")");
            ApiError::bad_request_with("underpayment", m)
        },
    }
}

/// Cents recorded as confirmed for an observed amount.
pub fn confirmed_cents(observed_stroops: i64) -> (c: i64)
    requires
        observed_stroops > 0,
    ensures
        c == observed_stroops / STROOPS_PER_CENT,
{
    observed_stroops / STROOPS_PER_CENT
}

/// Only paid plans take USDC.
pub fn check_paid_plan(price_cents: i64) -> (r: Result<(), ApiError>)
    ensures
        price_cents == 0 ==> (r matches Err(e) && e.status == 400 && e.message@
            == "USDC intents are only valid for paid plans"@),
        price_cents != 0 ==> r is Ok,
{
    if price_cents == 0 {
        Err(ApiError::bad_request_msg("USDC intents are only valid for paid plans"))
    } else {
        Ok(())
    }
}

/// How inserting an intent with a fresh memo went.
#[derive(Debug, Clone, Copy, PartialEq, Eq)]
pub enum MemoInsert {
    Inserted,
    MemoTaken,
    Failed,
}

/// What to do after an insert attempt (`attempt` counts from 1).
#[derive(Debug, Clone, Copy, PartialEq, Eq)]
pub enum MemoStep {
    Done,
    Retry,
    GiveUp,
}

/// A taken memo is retried with a new one until `MAX_MEMO_RETRIES`
/// attempts were made; any other failure ends at once.
pub fn memo_step(attempt: usize, outcome: MemoInsert) -> (s: MemoStep)
    ensures
        outcome == MemoInsert::Inserted ==> s == MemoStep::Done,
        outcome == MemoInsert::Failed ==> s == MemoStep::GiveUp,
        outcome == MemoInsert::MemoTaken ==> (s == MemoStep::Retry <==> attempt < MAX_MEMO_RETRIES),
        outcome == MemoInsert::MemoTaken ==> s != MemoStep::Done,
{
    match outcome {
        MemoInsert::Inserted => MemoStep::Done,
        MemoInsert::Failed => MemoStep::GiveUp,
        MemoInsert::MemoTaken => if attempt < MAX_MEMO_RETRIES {
            MemoStep::Retry
        } else {
            MemoStep::GiveUp
        },
    }
}

/// Expiry of an intent created at `now`.
pub fn intent_expiry(now: i64) -> (t: i64)
    requires
        now <= i64::MAX - INTENT_TTL_SECONDS,
    ensures
        t == now + INTENT_TTL_SECONDS,
{
    now + INTENT_TTL_SECONDS
}

/// Only the payer may view an intent.
pub fn check_intent_viewer(payer_id: u128, user_id: u128) -> (r: Result<(), ApiError>)
    ensures
        payer_id == user_id ==> r is Ok,
        payer_id != user_id ==> (r matches Err(e) && e.status == 403 && e.message@
            == "not authorized to view this intent"@),
{
    if payer_id != user_id {
        Err(ApiError::forbidden("not authorized to view this intent"))
    } else {
        Ok(())
    }
}

/// The error for missing or invalid USDC settings, `detail` saying which.
pub fn usdc_unconfigured(detail: &str) -> (e: ApiError)
    ensures
        e.status == 503,
        e.code@ == "usdc_unconfigured"@,
        e.message@ == "USDC payments are not configured: "@ + detail@,
{
    let mut m = String::from_str("USDC payments are not configured: ");
    m.append(detail);
    ApiError::with_message(503, "usdc_unconfigured", m)
}

} // verus!
