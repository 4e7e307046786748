//! The sign-in endpoints: asking for a challenge, answering it, and
//! refreshing an access token.  Publisher lookup and JWT encoding happen
//! around these steps.

use vstd::prelude::*;
use vstd::string::*;
use crate::auth::{
    clamp_lifetime, clamp_lifetime_spec, hex_inputs_ok, AuthManager, IssuedSession, NONCE_LEN,
    refresh_token_hash,
};
use crate::error::ApiError;
use crate::text::{trim, trim_str};

verus! {

broadcast use vstd::string::group_string_axioms;

/// Access-token lifetime when the request names none: one day.
pub const DEFAULT_TOKEN_LIFETIME_SECS: u64 = 86_400;

/// Seconds a CSRF token is valid.
pub const CSRF_TOKEN_TTL_SECS: u64 = 7_200;

/// `GET /api/auth/challenge` query.
#[derive(Debug, Clone)]
pub struct ChallengeQuery {
    /// Stellar wallet address to authenticate
    pub address: String,
}

/// The challenge handed to a wallet.
#[derive(Debug, Clone)]
pub struct ChallengeResponse {
    pub address: String,
    pub nonce: String,
    pub expires_in_seconds: u64,
}

/// `POST /api/auth/verify` body.
#[derive(Debug, Clone)]
pub struct VerifyRequest {
    pub address: String,
    pub public_key: String,
    pub signature: String,
    pub scopes: Vec<String>,
    pub expires_in_seconds: Option<u64>,
}

/// Tokens handed out on sign-in or refresh.
#[derive(Debug, Clone)]
pub struct VerifyResponse {
    pub token: String,
    pub refresh_token: Option<String>,
    pub token_type: &'static str,
    pub expires_in_seconds: u64,
}

/// A CSRF token for browser clients.
#[derive(Debug, Clone)]
pub struct CsrfTokenResponse {
    pub token: String,
    pub header_name: &'static str,
    pub expires_in_seconds: u64,
}

/// `POST /api/auth/refresh` body.
#[derive(Debug, Clone)]
pub struct RefreshTokenRequest {
    pub refresh_token: String,
    pub expires_in_seconds: Option<u64>,
}

impl RefreshTokenRequest {
    /// Trims the refresh token.
    pub fn sanitize(&mut self)
        ensures
            final(self).refresh_token@ == trim(old(self).refresh_token@),
            final(self).expires_in_seconds == old(self).expires_in_seconds,
    {
        let t = String::from_str(trim_str(self.refresh_token.as_str()));
        self.refresh_token = t;
    }

    /// The refresh token is required.
    pub fn validate(&self) -> (r: Result<(), ApiError>)
        ensures
            self.refresh_token@.len() > 0 ==> r is Ok,
            self.refresh_token@.len() == 0 ==> (r matches Err(e) && e.status == 400 && e.message@
                == "refresh_token is required"@),
    {
        if self.refresh_token.unicode_len() == 0 {
            Err(ApiError::bad_request("refresh_token", "refresh_token is required"))
        } else {
            Ok(())
        }
    }
}

/// The lifetime a request asks for, held within the allowed bounds.
pub open spec fn requested_lifetime_spec(requested: Option<u64>) -> u64 {
    clamp_lifetime_spec(
        match requested {
            Some(s) => s,
            None => DEFAULT_TOKEN_LIFETIME_SECS,
        },
    )
}

pub fn requested_lifetime(requested: Option<u64>) -> (r: u64)
    ensures
        r == requested_lifetime_spec(requested),
{
    clamp_lifetime(
        match requested {
            Some(s) => s,
            None => DEFAULT_TOKEN_LIFETIME_SECS,
        },
    )
}

/// Issues a challenge for the queried address, which must not be blank.
pub fn get_challenge(mgr: &mut AuthManager, query: ChallengeQuery) -> (r: Result<
    ChallengeResponse,
    ApiError,
>)
    requires
        old(mgr).wf(),
    ensures
        final(mgr).wf(),
        trim(query.address@).len() == 0 ==> (r matches Err(e) && e.status == 400 && e.code@
            == "InvalidAddress"@) && final(mgr).challenges() == old(mgr).challenges(),
        trim(query.address@).len() > 0 ==> (r matches Ok(c) && c.address == query.address
            && c.nonce@.len() == NONCE_LEN && c.expires_in_seconds == 300
            && final(mgr).challenges().contains_key(query.address@)
            && final(mgr).challenges()[query.address@].nonce == c.nonce),
{
    if trim_str(query.address.as_str()).unicode_len() == 0 {
        return Err(ApiError::bad_request("InvalidAddress", "address is required"));
    }
    let nonce = mgr.create_challenge(query.address.as_str());
    Ok(ChallengeResponse { address: query.address, nonce, expires_in_seconds: 300 })
}

/// Answers a challenge for a registered publisher (`publisher_id`, `None`
/// when the address belongs to none) and opens a session.
pub fn verify_challenge(
    mgr: &mut AuthManager,
    payload: VerifyRequest,
    publisher_id: Option<u128>,
) -> (r: Result<IssuedSession, ApiError>)
    requires
        old(mgr).wf(),
        answer_reaches_check(payload, publisher_id) ==> hex_inputs_ok(
            old(mgr).challenges().get(payload.address@),
            payload.address@,
            payload.public_key@,
            payload.signature@,
        ),
    ensures
        final(mgr).wf(),
        trim(payload.address@).len() == 0 || trim(payload.public_key@).len() == 0 || trim(
            payload.signature@,
        ).len() == 0 ==> (r matches Err(e) && e.status == 400 && e.code@ == "InvalidPayload"@),
        trim(payload.address@).len() > 0 && trim(payload.public_key@).len() > 0 && trim(
            payload.signature@,
        ).len() > 0 && publisher_id is None ==> (r matches Err(e) && e.status == 404 && e.code@
            == "PublisherNotFound"@),
        r matches Err(e) ==> (e.status == 401 ==> e.code@ == "AuthFailed"@),
        r matches Ok(s) ==> (publisher_id == Some(s.claims.publisher_id) && s.claims.sub
            @ == payload.address@ && s.expires_in_seconds == requested_lifetime_spec(
            payload.expires_in_seconds,
        ) && final(mgr).refresh_tokens().get(refresh_token_hash(s.refresh_token@)) == Some(
            s.session_id,
        )),
        r is Err ==> final(mgr).sessions() == old(mgr).sessions(),
{
    if trim_str(payload.address.as_str()).unicode_len() == 0 || trim_str(
        payload.public_key.as_str(),
    ).unicode_len() == 0 || trim_str(payload.signature.as_str()).unicode_len() == 0 {
        return Err(
            ApiError::bad_request(
                "InvalidPayload",
                "address, public_key and signature are required",
            ),
        );
    }
    let pid = match publisher_id {
        Some(p) => p,
        None => {
            return Err(ApiError::new(404, "PublisherNotFound", "Publisher not registered"));
        },
    };
    let lifetime = requested_lifetime(payload.expires_in_seconds);
    match mgr.verify_and_open_session(
        payload.address.as_str(),
        payload.public_key.as_str(),
        payload.signature.as_str(),
        pid,
        payload.scopes,
        lifetime,
    ) {
        Ok(s) => {
            assert(clamp_lifetime_spec(lifetime) == lifetime);
            Ok(s)
        },
        Err(_) => Err(ApiError::new(401, "AuthFailed", "invalid challenge response")),
    }
}

/// An answer with its three values given, for a registered publisher,
/// reaches the signature check.
pub open spec fn answer_reaches_check(payload: VerifyRequest, publisher_id: Option<u128>) -> bool {
    trim(payload.address@).len() > 0 && trim(payload.public_key@).len() > 0 && trim(payload.signature@).len()
        > 0 && publisher_id is Some
}

/// `verify_challenge` on any input: `None`, and nothing changed, where the
/// answer reaches the signature check and a hex value it would read is not
/// hex on character boundaries (the check stops there); its answer
/// otherwise.
pub fn try_verify_challenge(
    mgr: &mut AuthManager,
    payload: VerifyRequest,
    publisher_id: Option<u128>,
) -> (r: Option<Result<IssuedSession, ApiError>>)
    requires
        old(mgr).wf(),
    ensures
        final(mgr).wf(),
        r is None <==> answer_reaches_check(payload, publisher_id) && !hex_inputs_ok(
            old(mgr).challenges().get(payload.address@),
            payload.address@,
            payload.public_key@,
            payload.signature@,
        ),
        r is None ==> final(mgr).challenges() == old(mgr).challenges() && final(mgr).sessions()
            == old(mgr).sessions() && final(mgr).refresh_tokens() == old(mgr).refresh_tokens(),
        r matches Some(x) ==> {
            &&& trim(payload.address@).len() == 0 || trim(payload.public_key@).len() == 0 || trim(
                payload.signature@,
            ).len() == 0 ==> (x matches Err(e) && e.status == 400 && e.code@ == "InvalidPayload"@)
            &&& trim(payload.address@).len() > 0 && trim(payload.public_key@).len() > 0 && trim(
                payload.signature@,
            ).len() > 0 && publisher_id is None ==> (x matches Err(e) && e.status == 404 && e.code@
                == "PublisherNotFound"@)
            &&& x matches Err(e) ==> (e.status == 401 ==> e.code@ == "AuthFailed"@)
            &&& x matches Ok(s) ==> (publisher_id == Some(s.claims.publisher_id) && s.claims.sub@
                == payload.address@ && s.expires_in_seconds == requested_lifetime_spec(
                payload.expires_in_seconds,
            ) && final(mgr).refresh_tokens().get(refresh_token_hash(s.refresh_token@)) == Some(
                s.session_id,
            ))
            &&& x is Err ==> final(mgr).sessions() == old(mgr).sessions()
        },
{
    let reaches = trim_str(payload.address.as_str()).unicode_len() > 0 && trim_str(
        payload.public_key.as_str(),
    ).unicode_len() > 0 && trim_str(payload.signature.as_str()).unicode_len() > 0
        && publisher_id.is_some();
    if reaches && !mgr.hex_inputs_ok_for(
        payload.address.as_str(),
        payload.public_key.as_str(),
        payload.signature.as_str(),
    ) {
        return None;
    }
    Some(verify_challenge(mgr, payload, publisher_id))
}

/// Trades a refresh token for a new pair.
pub fn refresh_token(mgr: &mut AuthManager, payload: RefreshTokenRequest) -> (r: Result<
    IssuedSession,
    ApiError,
>)
    requires
        old(mgr).wf(),
    ensures
        final(mgr).wf(),
        !old(mgr).refresh_tokens().contains_key(refresh_token_hash(payload.refresh_token@)) ==> (
        r matches Err(e) && e.status == 401),
        r matches Err(e) ==> (e.status == 401 && e.message@ == "Invalid or expired refresh token"@),
        r matches Ok(s) ==> (old(mgr).refresh_tokens().get(refresh_token_hash(payload.refresh_token@))
            == Some(s.session_id) && final(mgr).refresh_tokens().get(
            refresh_token_hash(s.refresh_token@),
        ) == Some(s.session_id)),
{
    let lifetime = requested_lifetime(payload.expires_in_seconds);
    match mgr.refresh_access_token(payload.refresh_token.as_str(), lifetime) {
        Ok(s) => Ok(s),
        Err(_) => Err(ApiError::unauthorized("Invalid or expired refresh token")),
    }
}

/// The response of a sign-in or refresh, given the encoded access token.
pub fn token_response(access_token: String, issued: IssuedSession) -> (r: VerifyResponse)
    ensures
        r.token == access_token,
        r.refresh_token == Some(issued.refresh_token),
        r.token_type@ == "Bearer"@,
        r.expires_in_seconds == issued.expires_in_seconds,
{
    VerifyResponse {
        token: access_token,
        refresh_token: Some(issued.refresh_token),
        token_type: "Bearer",
        expires_in_seconds: issued.expires_in_seconds,
    }
}

} // verus!
