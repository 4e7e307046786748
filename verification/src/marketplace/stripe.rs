//! Stripe: the Checkout Session request, the classification of its
//! answer, and webhook signature verification.

use vstd::prelude::*;
use vstd::string::*;
use vstd::utf8::encode_utf8;
use crate::crypto::{hmac_sha256, hmac_sha256_tag};
use crate::decimal::{i64_decimal, i64_to_decimal, i64_to_string, i64_decimal_chars, parse_i64, parse_i64_spec};
use crate::error::ApiError;
use crate::text::{
    hex_slicing_ok, to_lowercase, unicode_lowercase,
    chars_of, chars_range_starts_with, decode_hex_pairs, find_char, find_char_from,
    lemma_find_char_suffix, radix16_decode, radix16_slicing_ok, str_eq, trim, trim_range,
};

verus! {

broadcast use vstd::string::group_string_axioms;

/// Base URL of the Stripe API.
pub const STRIPE_API_BASE: &'static str = "https://api.stripe.com/v1";

/// Largest accepted distance, in seconds, between a webhook's timestamp
/// and now.
pub const WEBHOOK_TIMESTAMP_TOLERANCE: i64 = 300;

/// Failures of the Stripe integration.
#[derive(Debug, Clone, PartialEq, Eq)]
pub enum StripeError {
    SecretKeyMissing,
    WebhookSecretMissing,
    Http(String),
    Api { status: u16, body: String },
    Decode(String),
    BadSignatureHeader,
    SignatureMismatch,
    TimestampSkew,
}

/// The message of a Stripe error.
pub open spec fn stripe_error_message(e: StripeError) -> Seq<char> {
    match e {
        StripeError::SecretKeyMissing => "MARKETPLACE_STRIPE_SECRET_KEY is not set"@,
        StripeError::WebhookSecretMissing => "MARKETPLACE_STRIPE_WEBHOOK_SECRET is not set"@,
        StripeError::Http(m) => "stripe http error: "@ + m@,
        StripeError::Api { status, body } => "stripe returned "@ + i64_decimal_chars(status as i64)
            + ": "@ + body@,
        StripeError::Decode(m) => "malformed stripe response: "@ + m@,
        StripeError::BadSignatureHeader => "webhook signature header missing or malformed"@,
        StripeError::SignatureMismatch => "webhook signature did not match payload"@,
        StripeError::TimestampSkew => "webhook timestamp outside tolerance window"@,
    }
}

impl StripeError {
    /// The error's message.
    pub fn message(&self) -> (m: String)
        ensures
            m@ == stripe_error_message(*self),
    {
        match self {
            StripeError::SecretKeyMissing => String::from_str(
                "MARKETPLACE_STRIPE_SECRET_KEY is not set",
            ),
            StripeError::WebhookSecretMissing => String::from_str(
                "MARKETPLACE_STRIPE_WEBHOOK_SECRET is not set",
            ),
            StripeError::Http(m) => {
                let mut s = String::from_str("stripe http error: ");
                s.append(m.as_str());
                s
            },
            StripeError::Api { status, body } => {
                let mut s = String::from_str("stripe returned ");
                let n = i64_to_string(*status as i64);
                s.append(n.as_str());
                s.append(": ");
                s.append(body.as_str());
                s
            },
            StripeError::Decode(m) => {
                let mut s = String::from_str("malformed stripe response: ");
                s.append(m.as_str());
                s
            },
            StripeError::BadSignatureHeader => String::from_str(
                "webhook signature header missing or malformed",
            ),
            StripeError::SignatureMismatch => String::from_str(
                "webhook signature did not match payload",
            ),
            StripeError::TimestampSkew => String::from_str(
                "webhook timestamp outside tolerance window",
            ),
        }
    }
}

/// Parameters of a Checkout Session.
#[derive(Debug)]
pub struct CheckoutSessionParams<'a> {
    pub payment_id: &'a str,
    pub contract_id: &'a str,
    pub plan_id: &'a str,
    pub payer_id: &'a str,
    pub amount_cents: i64,
    pub currency: &'a str,
    pub billing_period: &'a str,
    pub product_name: &'a str,
    pub success_url: &'a str,
    pub cancel_url: &'a str,
    pub customer_email: Option<&'a str>,
}

/// The part of a Stripe Checkout Session resource that is used.
#[derive(Debug, Clone)]
pub struct CheckoutSession {
    pub id: String,
    pub url: Option<String>,
    pub payment_intent: Option<String>,
    pub customer: Option<String>,
}

/// Monthly plans are subscriptions; everything else is a one-time payment.
pub open spec fn checkout_mode(billing_period: Seq<char>) -> Seq<char> {
    if billing_period == "monthly"@ {
        "subscription"@
    } else {
        "payment"@
    }
}

/// One form field.
pub open spec fn field(k: Seq<char>, v: Seq<char>) -> (Seq<char>, Seq<char>) {
    (k, v)
}

/// The form fields of a Checkout Session request, in order.
pub open spec fn checkout_form_spec(p: CheckoutSessionParams) -> Seq<(Seq<char>, Seq<char>)> {
    let monthly = p.billing_period@ == "monthly"@;
    let mode = checkout_mode(p.billing_period@);
    seq![
        field("mode"@, mode),
        field("success_url"@, p.success_url@),
        field("cancel_url"@, p.cancel_url@),
        field("line_items[0][quantity]"@, "1"@),
        field("line_items[0][price_data][currency]"@, unicode_lowercase(p.currency@)),
        field("line_items[0][price_data][unit_amount]"@, i64_decimal_chars(p.amount_cents)),
        field("line_items[0][price_data][product_data][name]"@, p.product_name@),
    ] + (if monthly {
        seq![field("line_items[0][price_data][recurring][interval]"@, "month"@)]
    } else {
        Seq::empty()
    }) + (match p.customer_email {
        Some(e) => seq![field("customer_email"@, e@)],
        None => Seq::empty(),
    }) + seq![
        field("metadata[payment_id]"@, p.payment_id@),
        field("metadata[contract_id]"@, p.contract_id@),
        field("metadata[plan_id]"@, p.plan_id@),
        field("metadata[payer_id]"@, p.payer_id@),
    ]
}

pub open spec fn form_view(f: Seq<(String, String)>) -> Seq<(Seq<char>, Seq<char>)> {
    f.map_values(|e: (String, String)| (e.0@, e.1@))
}

fn push_field(form: &mut Vec<(String, String)>, k: &str, v: String)
    ensures
        form_view(final(form)@) == form_view(old(form)@).push((k@, v@)),
{
    form.push((String::from_str(k), v));
    assert(form_view(form@) =~= form_view(old(form)@).push((k@, v@)));
}

/// The form of a Checkout Session request.  Monthly plans are created in
/// subscription mode with a monthly recurring price; the metadata carries
/// the ids the webhook needs.
pub fn checkout_form(params: &CheckoutSessionParams) -> (f: Vec<(String, String)>)
    ensures
        form_view(f@) == checkout_form_spec(*params),
{
    let subscription = str_eq(params.billing_period, "monthly");
    let mode = if subscription {
        "subscription"
    } else {
        "payment"
    };
    let mut form: Vec<(String, String)> = Vec::new();
    push_field(&mut form, "mode", String::from_str(mode));
    push_field(&mut form, "success_url", String::from_str(params.success_url));
    push_field(&mut form, "cancel_url", String::from_str(params.cancel_url));
    push_field(&mut form, "line_items[0][quantity]", String::from_str("1"));
    push_field(&mut form, "line_items[0][price_data][currency]", to_lowercase(params.currency));
    push_field(
        &mut form,
        "line_items[0][price_data][unit_amount]",
        i64_to_string(params.amount_cents),
    );
    push_field(
        &mut form,
        "line_items[0][price_data][product_data][name]",
        String::from_str(params.product_name),
    );
    let ghost base = form_view(form@);
    if subscription {
        push_field(
            &mut form,
            "line_items[0][price_data][recurring][interval]",
            String::from_str("month"),
        );
    }
    let ghost with_mode = form_view(form@);
    match params.customer_email {
        Some(e) => push_field(&mut form, "customer_email", String::from_str(e)),
        None => {},
    }
    let ghost with_email = form_view(form@);
    push_field(&mut form, "metadata[payment_id]", String::from_str(params.payment_id));
    push_field(&mut form, "metadata[contract_id]", String::from_str(params.contract_id));
    push_field(&mut form, "metadata[plan_id]", String::from_str(params.plan_id));
    push_field(&mut form, "metadata[payer_id]", String::from_str(params.payer_id));
    proof {
        assert(form_view(form@) =~= checkout_form_spec(*params));
    }
    form
}

/// The customer's email goes into every Checkout Session that has one,
/// subscription or one-time payment alike, just before the metadata, and
/// into none that has not; the metadata ends the form.
pub proof fn law_customer_email_sent_when_given(p: CheckoutSessionParams)
    ensures
        p.customer_email matches Some(e) ==> checkout_form_spec(p).contains(("customer_email"@, e@)),
        p.customer_email matches Some(e) ==> checkout_form_spec(p).len() >= 5 && checkout_form_spec(p)[
            checkout_form_spec(p).len() - 5] == ("customer_email"@, e@),
        checkout_form_spec(p).len() >= 4 && checkout_form_spec(p).subrange(
            checkout_form_spec(p).len() - 4,
            checkout_form_spec(p).len() as int,
        ) == seq![
            ("metadata[payment_id]"@, p.payment_id@),
            ("metadata[contract_id]"@, p.contract_id@),
            ("metadata[plan_id]"@, p.plan_id@),
            ("metadata[payer_id]"@, p.payer_id@),
        ],
        p.customer_email is None ==> forall|i: int|
            0 <= i < checkout_form_spec(p).len() ==> (#[trigger] checkout_form_spec(p)[i]).0
                != "customer_email"@,
{
    let f = checkout_form_spec(p);
    let monthly = p.billing_period@ == "monthly"@;
    let k: int = if monthly { 8 } else { 7 };
    assert(f.subrange(f.len() - 4, f.len() as int) =~= seq![
        ("metadata[payment_id]"@, p.payment_id@),
        ("metadata[contract_id]"@, p.contract_id@),
        ("metadata[plan_id]"@, p.plan_id@),
        ("metadata[payer_id]"@, p.payer_id@),
    ]);
    if let Some(e) = p.customer_email {
        assert(f[k] == ("customer_email"@, e@));
    } else {
        reveal_strlit("customer_email");
        reveal_strlit("mode");
        reveal_strlit("success_url");
        reveal_strlit("cancel_url");
        reveal_strlit("line_items[0][quantity]");
        reveal_strlit("line_items[0][price_data][currency]");
        reveal_strlit("line_items[0][price_data][unit_amount]");
        reveal_strlit("line_items[0][price_data][product_data][name]");
        reveal_strlit("line_items[0][price_data][recurring][interval]");
        reveal_strlit("metadata[payment_id]");
        reveal_strlit("metadata[contract_id]");
        reveal_strlit("metadata[plan_id]");
        reveal_strlit("metadata[payer_id]");
        assert forall|i: int| 0 <= i < f.len() implies (#[trigger] f[i]).0 != "customer_email"@ by {
            assert(f[i].0.len() != "customer_email"@.len());
        }
    }
}

/// The Checkout Session answer: a status outside 200..300 is an API error
/// carrying status and body; otherwise the body is the session to decode.
pub fn checkout_response(status: u16, body: String) -> (r: Result<String, StripeError>)
    ensures
        (200 <= status < 300) ==> r == Ok::<String, StripeError>(body),
        !(200 <= status < 300) ==> r == Err::<String, StripeError>(StripeError::Api { status, body }),
{
    if !(200 <= status && status < 300) {
        return Err(StripeError::Api { status, body });
    }
    Ok(body)
}

/// How a Stripe error is answered: missing configuration is `503`, a
/// rejection by Stripe (4xx) is `400`, anything else `500`.
pub fn map_stripe_error(e: StripeError) -> (a: ApiError)
    ensures
        match e {
            StripeError::SecretKeyMissing | StripeError::WebhookSecretMissing => a.status == 503
                && a.code@ == "stripe_unconfigured"@ && a.message@ == stripe_error_message(e),
            StripeError::Api { status, body } => if 400 <= status < 500 {
                a.status == 400 && a.code@ == "stripe_rejected"@ && a.message@ == "stripe "@
                    + i64_decimal_chars(status as i64) + ": "@ + body@
            } else {
                a.status == 500 && a.code@ == "stripe_error"@ && a.message@ == stripe_error_message(
                    e,
                )
            },
            _ => a.status == 500 && a.code@ == "stripe_error"@ && a.message@ == stripe_error_message(
                e,
            ),
        },
{
    match &e {
        StripeError::SecretKeyMissing | StripeError::WebhookSecretMissing => {
            return ApiError::with_message(503, "stripe_unconfigured", e.message());
        },
        StripeError::Api { status, body } => {
            if 400 <= *status && *status < 500 {
                let mut m = String::from_str("stripe ");
                let n = i64_to_string(*status as i64);
                m.append(n.as_str());
                m.append(": ");
                m.append(body.as_str());
                return ApiError::with_message(400, "stripe_rejected", m);
            }
        },
        _ => {},
    }
    ApiError::with_message(500, "stripe_error", e.message())
}

// ── Webhook signatures ───────────────────────────────────────────────────

/// What the `Stripe-Signature` header says: the timestamp (from the last
/// `t=` part) and the `v1=` signatures, in order.
pub struct SigHeader {
    pub ts: Option<i64>,
    pub sigs: Seq<Seq<char>>,
}

/// Reading one comma-separated part of the header, after trimming it.
pub open spec fn header_step(st: SigHeader, seg: Seq<char>) -> SigHeader {
    let p = trim(seg);
    if p.len() >= 2 && p.subrange(0, 2) == "t="@ {
        SigHeader { ts: parse_i64_spec(encode_utf8(p.subrange(2, p.len() as int))), sigs: st.sigs }
    } else if p.len() >= 3 && p.subrange(0, 3) == "v1="@ {
        SigHeader { ts: st.ts, sigs: st.sigs.push(p.subrange(3, p.len() as int)) }
    } else {
        st
    }
}

/// Reading the comma-separated parts of `rem` in order.
pub open spec fn scan_header(rem: Seq<char>, st: SigHeader) -> SigHeader
    decreases rem.len(),
{
    let k = find_char(rem, ',', 0);
    if k < 0 || k >= rem.len() {
        header_step(st, rem)
    } else {
        scan_header(rem.subrange(k + 1, rem.len() as int), header_step(st, rem.subrange(0, k)))
    }
}

/// The header as read from its first part.
pub open spec fn parse_sig_header(header: Seq<char>) -> SigHeader {
    scan_header(header, SigHeader { ts: None, sigs: Seq::empty() })
}

/// The signed payload: the timestamp in decimal, `.`, the body.
pub open spec fn signed_payload(ts: i64, payload: Seq<u8>) -> Seq<u8> {
    i64_decimal(ts) + seq![46u8] + payload
}

/// Some `v1=` signature decodes to the expected tag.
pub open spec fn some_sig_matches(sigs: Seq<Seq<char>>, expected: Seq<u8>) -> bool {
    exists|i: int| 0 <= i < sigs.len() && radix16_decode(encode_utf8(#[trigger] sigs[i])) == Some(expected)
}

/// Decoding the signatures in order, up to the first that matches, stays on
/// character boundaries.
pub open spec fn sigs_slicing_ok(sigs: Seq<Seq<char>>, expected: Seq<u8>) -> bool
    decreases sigs.len(),
{
    if sigs.len() == 0 {
        true
    } else {
        radix16_slicing_ok(encode_utf8(sigs[0])) && (radix16_decode(encode_utf8(sigs[0])) == Some(
            expected,
        ) || sigs_slicing_ok(sigs.drop_first(), expected))
    }
}

/// The outcome of webhook verification.
pub open spec fn webhook_outcome(payload: Seq<u8>, header: Seq<char>, secret: Seq<char>, now: i64) -> Result<(), StripeError> {
    let h = parse_sig_header(header);
    match h.ts {
        None => Err(StripeError::BadSignatureHeader),
        Some(ts) => if h.sigs.len() == 0 {
            Err(StripeError::BadSignatureHeader)
        } else if now - ts > WEBHOOK_TIMESTAMP_TOLERANCE || ts - now > WEBHOOK_TIMESTAMP_TOLERANCE {
            Err(StripeError::TimestampSkew)
        } else if some_sig_matches(
            h.sigs,
            hmac_sha256(encode_utf8(secret), signed_payload(ts, payload)),
        ) {
            Ok(())
        } else {
            Err(StripeError::SignatureMismatch)
        },
    }
}

/// The inputs on which verification runs to completion: the timestamp
/// distance fits in an `i64` and decoding the candidate signatures stays
/// on character boundaries.
pub open spec fn webhook_inputs_ok(payload: Seq<u8>, header: Seq<char>, secret: Seq<char>, now: i64) -> bool {
    let h = parse_sig_header(header);
    match h.ts {
        Some(ts) => h.sigs.len() > 0 ==> {
            &&& i64::MIN < now - ts <= i64::MAX
            &&& (now - ts <= WEBHOOK_TIMESTAMP_TOLERANCE && ts - now <= WEBHOOK_TIMESTAMP_TOLERANCE)
                ==> sigs_slicing_ok(
                h.sigs,
                hmac_sha256(encode_utf8(secret), signed_payload(ts, payload)),
            )
        },
        None => true,
    }
}

/// Reads the `Stripe-Signature` header: `t=<ts>` and `v1=<hex>` parts,
/// comma-separated, each trimmed; other parts are ignored.
pub fn read_sig_header<'a>(header: &'a str) -> (r: (Option<i64>, Vec<&'a str>))
    ensures
        r.0 == parse_sig_header(header@).ts,
        r.1@.map_values(|s: &str| s@) == parse_sig_header(header@).sigs,
{
    let v = chars_of(header);
    let t_prefix = chars_of("t=");
    let v1_prefix = chars_of("v1=");
    let mut ts: Option<i64> = None;
    let mut sigs: Vec<&'a str> = Vec::new();
    let mut start: usize = 0;
    assert(v@.subrange(0, v@.len() as int) =~= v@);
    assert(sigs@.map_values(|s: &str| s@) =~= Seq::<Seq<char>>::empty());
    proof {
        reveal_strlit("t=");
        reveal_strlit("v1=");
    }
    loop
        invariant
            v@ == header@,
            t_prefix@ == "t="@,
            v1_prefix@ == "v1="@,
            start <= v@.len(),
            parse_sig_header(header@) == scan_header(
                v@.subrange(start as int, v@.len() as int),
                SigHeader { ts, sigs: sigs@.map_values(|s: &str| s@) },
            ),
        decreases v@.len() - start,
    {
        proof {
            reveal_strlit("t=");
            reveal_strlit("v1=");
        }
        let ghost rem = v@.subrange(start as int, v@.len() as int);
        let ghost st = SigHeader { ts, sigs: sigs@.map_values(|s: &str| s@) };
        let k = find_char_from(&v, ',', start);
        proof {
            lemma_find_char_suffix(v@, ',', start as int, 0);
        }
        let (a, b) = trim_range(&v, start, k);
        let ghost seg = v@.subrange(start as int, k as int);
        let ghost p = v@.subrange(a as int, b as int);
        assert(p == trim(seg));
        if b - a >= 2 {
            assert(p.subrange(0, 2) =~= v@.subrange(a as int, a + 2));
            assert(p.subrange(2, p.len() as int) =~= v@.subrange(a + 2, b as int));
        }
        if b - a >= 3 {
            assert(p.subrange(0, 3) =~= v@.subrange(a as int, a + 3));
            assert(p.subrange(3, p.len() as int) =~= v@.subrange(a + 3, b as int));
        }
        if chars_range_starts_with(&v, a, b, &t_prefix) {
            let value = header.substring_char(a + 2, b);
            assert(v@.subrange(a as int, b as int).subrange(2, (b - a) as int) =~= v@.subrange(
                a + 2,
                b as int,
            ));
            ts = parse_i64(value);
        } else if chars_range_starts_with(&v, a, b, &v1_prefix) {
            let value = header.substring_char(a + 3, b);
            assert(v@.subrange(a as int, b as int).subrange(3, (b - a) as int) =~= v@.subrange(
                a + 3,
                b as int,
            ));
            sigs.push(value);
        }
        proof {
            assert(sigs@.map_values(|s: &str| s@) =~= header_step(st, seg).sigs);
            assert(ts == header_step(st, seg).ts);
        }
        if k == v.len() {
            assert(rem =~= seg);
            return (ts, sigs);
        }
        assert(rem.subrange(0, k - start) =~= seg);
        assert(rem.subrange(k - start + 1, rem.len() as int) =~= v@.subrange(
            k + 1,
            v@.len() as int,
        ));
        start = k + 1;
    }
}

/// `true` when two byte strings are equal, comparing every byte (the time
/// taken does not depend on where they differ).
pub fn constant_time_eq(a: &[u8], b: &[u8]) -> (r: bool)
    ensures
        r == (a@ == b@),
{
    if a.len() != b.len() {
        return false;
    }
    let mut diff: u8 = 0;
    let mut i: usize = 0;
    while i < a.len()
        invariant
            a@.len() == b@.len(),
            i <= a@.len(),
            (diff == 0) == (forall|j: int| 0 <= j < i ==> a@[j] == b@[j]),
        decreases a@.len() - i,
    {
        let x = a[i];
        let y = b[i];
        let d = diff;
        assert((d | (x ^ y)) == 0u8 <==> (d == 0u8 && x == y)) by (bit_vector);
        diff = diff | (x ^ y);
        i = i + 1;
    }
    if diff == 0 {
        assert(a@ =~= b@);
    }
    diff == 0
}

/// Hex decoding of a `v1=` signature, two characters at a time.
pub fn hex_decode(s: &str) -> (r: Result<Vec<u8>, ()>)
    requires
        radix16_slicing_ok(s.spec_bytes()),
    ensures
        r matches Ok(v) ==> radix16_decode(s.spec_bytes()) == Some(v@),
        r is Err ==> radix16_decode(s.spec_bytes()) is None,
{
    match decode_hex_pairs(s) {
        Some(v) => Ok(v),
        None => Err(()),
    }
}

/// The bytes a webhook signature covers: `"<t>.<payload>"`.
fn signed_payload_bytes(ts: i64, payload: &[u8]) -> (signed: Vec<u8>)
    ensures
        signed@ == signed_payload(ts, payload@),
{
    let mut signed = i64_to_decimal(ts);
    signed.push(46u8);
    let mut i: usize = 0;
    while i < payload.len()
        invariant
            i <= payload@.len(),
            signed@ == i64_decimal(ts) + seq![46u8] + payload@.subrange(0, i as int),
        decreases payload@.len() - i,
    {
        signed.push(payload[i]);
        assert(payload@.subrange(0, i + 1) =~= payload@.subrange(0, i as int).push(
            payload@[i as int],
        ));
        i = i + 1;
    }
    assert(payload@.subrange(0, i as int) =~= payload@);
    signed
}

/// Verifies a Stripe webhook: the header must carry a timestamp and at
/// least one `v1` signature, the timestamp must be within the tolerance of
/// `now` (seconds since the epoch), and some signature must equal
/// HMAC-SHA256 of `"<t>.<payload>"` under the webhook secret.
pub fn verify_webhook_signature(
    payload: &[u8],
    signature_header: &str,
    webhook_secret: &str,
    now: i64,
) -> (r: Result<(), StripeError>)
    requires
        webhook_inputs_ok(payload@, signature_header@, webhook_secret@, now),
    ensures
        r == webhook_outcome(payload@, signature_header@, webhook_secret@, now),
{
    let (ts, sigs) = read_sig_header(signature_header);
    let ts = match ts {
        Some(t) => t,
        None => {
            return Err(StripeError::BadSignatureHeader);
        },
    };
    if sigs.len() == 0 {
        return Err(StripeError::BadSignatureHeader);
    }
    let delta = now - ts;
    let drift = if delta < 0 {
        0 - delta
    } else {
        delta
    };
    if drift > WEBHOOK_TIMESTAMP_TOLERANCE {
        return Err(StripeError::TimestampSkew);
    }
    let signed = signed_payload_bytes(ts, payload);
    let expected = hmac_sha256_tag(webhook_secret.as_bytes(), signed.as_slice());
    let ghost all = sigs@.map_values(|s: &str| s@);
    let ghost h = parse_sig_header(signature_header@);
    assert(all == h.sigs);
    assert(all.subrange(0, all.len() as int) =~= all);
    let mut j: usize = 0;
    while j < sigs.len()
        invariant
            j <= sigs@.len(),
            all == sigs@.map_values(|s: &str| s@),
            h == parse_sig_header(signature_header@),
            all == h.sigs,
            h.ts == Some(ts),
            all.len() > 0,
            now - ts <= WEBHOOK_TIMESTAMP_TOLERANCE && ts - now <= WEBHOOK_TIMESTAMP_TOLERANCE,
            expected@ == hmac_sha256(encode_utf8(webhook_secret@), signed_payload(ts, payload@)),
            sigs_slicing_ok(all, expected@) ==> sigs_slicing_ok(all.subrange(j as int, all.len() as int), expected@),
            sigs_slicing_ok(all, expected@),
            forall|m: int| 0 <= m < j ==> radix16_decode(encode_utf8(#[trigger] all[m])) != Some(expected@),
        decreases sigs@.len() - j,
    {
        let ghost rest = all.subrange(j as int, all.len() as int);
        assert(rest[0] == all[j as int]);
        assert(all[j as int] == sigs@[j as int]@);
        assert(rest.drop_first() =~= all.subrange(j + 1, all.len() as int));
        match hex_decode(sigs[j]) {
            Ok(bytes) => {
                if bytes.len() == expected.len() && constant_time_eq(bytes.as_slice(), expected.as_slice()) {
                    assert(radix16_decode(encode_utf8(all[j as int])) == Some(expected@));
                    assert(some_sig_matches(all, expected@));
                    return Ok(());
                }
            },
            Err(_) => {},
        }
        j = j + 1;
    }
    assert(!some_sig_matches(all, expected@));
    Err(StripeError::SignatureMismatch)
}

/// Whether decoding the signatures in order, up to the first that
/// decodes to `expected`, stays on character boundaries.
fn sigs_slice_cleanly(sigs: &Vec<&str>, expected: &Vec<u8>) -> (r: bool)
    ensures
        r == sigs_slicing_ok(sigs@.map_values(|s: &str| s@), expected@),
{
    let ghost all = sigs@.map_values(|s: &str| s@);
    let mut j: usize = 0;
    assert(all.subrange(0, all.len() as int) =~= all);
    while j < sigs.len()
        invariant
            j <= sigs@.len(),
            all == sigs@.map_values(|s: &str| s@),
            sigs_slicing_ok(all, expected@) == sigs_slicing_ok(all.subrange(j as int, all.len() as int), expected@),
        decreases sigs@.len() - j,
    {
        let ghost rest = all.subrange(j as int, all.len() as int);
        assert(rest[0] == all[j as int]);
        assert(all[j as int] == sigs@[j as int]@);
        assert(rest.drop_first() =~= all.subrange(j + 1, all.len() as int));
        if !hex_slicing_ok(sigs[j]) {
            return false;
        }
        match hex_decode(sigs[j]) {
            Ok(bytes) => {
                if bytes.len() == expected.len() && constant_time_eq(bytes.as_slice(), expected.as_slice()) {
                    assert(bytes@ =~= expected@);
                    return true;
                }
            },
            Err(_) => {},
        }
        j = j + 1;
    }
    assert(all.subrange(j as int, all.len() as int).len() == 0);
    true
}

/// Webhook verification on any input: `None` where verification would not
/// run to completion (the timestamp distance overflows, or a signature
/// tried before a match is not valid hex on character boundaries), the
/// verdict of `verify_webhook_signature` otherwise.
pub fn check_webhook_signature(
    payload: &[u8],
    signature_header: &str,
    webhook_secret: &str,
    now: i64,
) -> (r: Option<Result<(), StripeError>>)
    ensures
        webhook_inputs_ok(payload@, signature_header@, webhook_secret@, now) ==> r == Some(
            webhook_outcome(payload@, signature_header@, webhook_secret@, now),
        ),
        !webhook_inputs_ok(payload@, signature_header@, webhook_secret@, now) ==> r is None,
{
    let (ts, sigs) = read_sig_header(signature_header);
    let ok = match ts {
        None => true,
        Some(t) => if sigs.len() == 0 {
            true
        } else {
            let delta: i128 = (now as i128) - (t as i128);
            if delta <= i64::MIN as i128 || delta > i64::MAX as i128 {
                false
            } else if delta <= WEBHOOK_TIMESTAMP_TOLERANCE as i128 && 0 - delta
                <= WEBHOOK_TIMESTAMP_TOLERANCE as i128 {
                let signed = signed_payload_bytes(t, payload);
                let expected = hmac_sha256_tag(webhook_secret.as_bytes(), signed.as_slice());
                sigs_slice_cleanly(&sigs, &expected)
            } else {
                true
            }
        },
    };
    if ok {
        Some(verify_webhook_signature(payload, signature_header, webhook_secret, now))
    } else {
        None
    }
}

} // verus!
