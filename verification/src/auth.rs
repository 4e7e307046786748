//! Wallet sign-in: a challenge nonce per Stellar address, its Ed25519
//! signature checked against the address's key, and the sessions and
//! rotating refresh tokens that follow.  Encoding the access token as a
//! JWT is left to the caller, which receives the claims to put in it.

use vstd::prelude::*;
use vstd::string::*;
use vstd::utf8::encode_utf8;
use crate::clock::unix_now_secs;
use crate::crypto::{
    b64_url_encode, base64_url_encode, ed25519_accepts, ed25519_key_decodes, ed25519_public_key,
    ed25519_verify, hex_encode, hex_lower, sha256, sha256_digest,
};
use crate::decimal::{u64_decimal_chars, u64_to_string};
use crate::random::{new_uuid_v4, random_alphanumeric, random_bytes_32};
use crate::table::Table;
use std::collections::HashMap;
use crate::text::{bytes_eq, decode_hex_pairs, hex_slicing_ok, radix16_decode, radix16_slicing_ok};

verus! {

broadcast use vstd::string::group_string_axioms, vstd::std_specs::hash::group_hash_axioms;

/// Shortest accepted JWT signing secret, in bytes.
pub const MIN_JWT_SECRET_LEN: usize = 32;

/// Seconds a challenge stays valid.
pub const CHALLENGE_TTL_SECS: i64 = 300;

/// Characters in a challenge nonce.
pub const NONCE_LEN: usize = 32;

/// Bounds of an access token's lifetime, in seconds.
pub const MIN_TOKEN_LIFETIME_SECS: u64 = 300;
pub const MAX_TOKEN_LIFETIME_SECS: u64 = 2_592_000;

/// Seconds a session (and so its refresh token) lives.
pub const SESSION_TTL_SECS: i64 = 2_592_000;

/// Why the JWT secret setting is unusable.
#[derive(Debug, Clone, PartialEq, Eq)]
pub enum AuthConfigError {
    MissingJwtSecret,
    JwtSecretTooShort { min_len: usize, actual_len: usize },
}

pub open spec fn auth_config_error_message(e: AuthConfigError) -> Seq<char> {
    match e {
        AuthConfigError::MissingJwtSecret => "JWT_SECRET must be set"@,
        AuthConfigError::JwtSecretTooShort { min_len, actual_len } => "JWT_SECRET must be at least "@
            + u64_decimal_chars(min_len as u64) + " characters (got "@ + u64_decimal_chars(
            actual_len as u64,
        ) + ")"@,
    }
}

impl AuthConfigError {
    pub fn message(&self) -> (m: String)
        ensures
            m@ == auth_config_error_message(*self),
    {
        match self {
            AuthConfigError::MissingJwtSecret => String::from_str("JWT_SECRET must be set"),
            AuthConfigError::JwtSecretTooShort { min_len, actual_len } => {
                let mut m = String::from_str("JWT_SECRET must be at least ");
                let a = u64_to_string(*min_len as u64);
                m.append(a.as_str());
                m.append(" characters (got ");
                let b = u64_to_string(*actual_len as u64);
                m.append(b.as_str());
                m.append(")");
                m
            },
        }
    }
}

/// A pending sign-in challenge: the nonce to sign and when it lapses.
#[derive(Debug, Clone, PartialEq, Eq)]
pub struct ChallengeRecord {
    pub nonce: String,
    pub expires_at: i64,
}

/// A signed-in session, kept for refreshing its access token.
#[derive(Debug, Clone, PartialEq, Eq)]
pub struct SessionRecord {
    pub subject: String,
    pub publisher_id: u128,
    pub role: Option<String>,
    pub scopes: Vec<String>,
    pub mfa_verified: bool,
    pub expires_at: i64,
}

/// The claims of an access token.
#[derive(Debug, Clone, PartialEq, Eq)]
pub struct AuthClaims {
    pub sub: String,
    pub publisher_id: u128,
    pub iat: i64,
    pub exp: i64,
    pub scopes: Vec<String>,
    pub role: Option<String>,
    pub admin: bool,
    pub mfa_verified: bool,
    pub session_id: Option<u128>,
}

/// An access token with its refresh token.
#[derive(Debug, Clone, PartialEq, Eq)]
pub struct TokenPair {
    pub access_token: String,
    pub refresh_token: String,
    pub token_type: &'static str,
    pub expires_in_seconds: u64,
}

/// What a successful sign-in or refresh hands out: the session, its new
/// refresh token, the access-token lifetime and the claims to encode.
#[derive(Debug, Clone, PartialEq, Eq)]
pub struct IssuedSession {
    pub session_id: u128,
    pub refresh_token: String,
    pub expires_in_seconds: u64,
    pub claims: AuthClaims,
}

/// The checked JWT secret must be at least `MIN_JWT_SECRET_LEN` bytes.
pub fn validate_jwt_secret(secret: &str) -> (r: Result<(), AuthConfigError>)
    ensures
        secret.spec_bytes().len() >= MIN_JWT_SECRET_LEN ==> r is Ok,
        secret.spec_bytes().len() < MIN_JWT_SECRET_LEN ==> r == Err::<(), AuthConfigError>(
            AuthConfigError::JwtSecretTooShort {
                min_len: MIN_JWT_SECRET_LEN,
                actual_len: secret.spec_bytes().len() as usize,
            },
        ),
{
    let actual_len = secret.as_bytes().len();
    if actual_len < MIN_JWT_SECRET_LEN {
        return Err(AuthConfigError::JwtSecretTooShort { min_len: MIN_JWT_SECRET_LEN, actual_len });
    }
    Ok(())
}

/// A token lifetime held within `[MIN_TOKEN_LIFETIME_SECS, MAX_TOKEN_LIFETIME_SECS]`.
pub open spec fn clamp_lifetime_spec(secs: u64) -> u64 {
    if secs < MIN_TOKEN_LIFETIME_SECS {
        MIN_TOKEN_LIFETIME_SECS
    } else if secs > MAX_TOKEN_LIFETIME_SECS {
        MAX_TOKEN_LIFETIME_SECS
    } else {
        secs
    }
}

pub fn clamp_lifetime(secs: u64) -> (r: u64)
    ensures
        r == clamp_lifetime_spec(secs),
{
    if secs < MIN_TOKEN_LIFETIME_SECS {
        MIN_TOKEN_LIFETIME_SECS
    } else if secs > MAX_TOKEN_LIFETIME_SECS {
        MAX_TOKEN_LIFETIME_SECS
    } else {
        secs
    }
}

/// `a + b` held within the range of `i64`.
pub open spec fn sat_add(a: i64, b: i64) -> i64 {
    if a + b > i64::MAX {
        i64::MAX
    } else if a + b < i64::MIN {
        i64::MIN
    } else {
        (a + b) as i64
    }
}

fn saturating_add(a: i64, b: i64) -> (r: i64)
    ensures
        r == sat_add(a, b),
{
    if b > 0 && a > i64::MAX - b {
        i64::MAX
    } else if b < 0 && a < i64::MIN - b {
        i64::MIN
    } else {
        a + b
    }
}

// ── Keys and hex ─────────────────────────────────────────────────────────

/// The 32-byte Ed25519 key that a Stellar `G…` account address encodes.
pub uninterp spec fn stellar_account_key(address: Seq<char>) -> Option<Seq<u8>>;

/// `Strkey::from_string(address)`, keeping the key of the
/// `PublicKeyEd25519` variant: `None` for any text that is not a valid
/// account strkey (bad base32, checksum, version or length, or another
/// kind of strkey).
#[verifier::external_body]
fn decode_stellar_public_key(address: &str) -> (r: Option<[u8; 32]>)
    ensures
        r matches Some(k) ==> stellar_account_key(address@) == Some(k@),
        r is None ==> stellar_account_key(address@) is None,
{
    match stellar_strkey::Strkey::from_string(address) {
        Ok(stellar_strkey::Strkey::PublicKeyEd25519(stellar_strkey::ed25519::PublicKey(bytes))) => Some(bytes),
        _ => None,
    }
}

/// Hex text of exactly `n` bytes.
pub open spec fn hex_of_len(s: Seq<char>, n: nat) -> Option<Seq<u8>> {
    match radix16_decode(encode_utf8(s)) {
        Some(b) => if b.len() == n {
            Some(b)
        } else {
            None
        },
        None => None,
    }
}

/// Hex text decoded two characters at a time.
pub fn decode_hex(value: &str) -> (r: Option<Vec<u8>>)
    requires
        radix16_slicing_ok(value.spec_bytes()),
    ensures
        r matches Some(v) ==> radix16_decode(value.spec_bytes()) == Some(v@),
        r is None ==> radix16_decode(value.spec_bytes()) is None,
{
    decode_hex_pairs(value)
}

/// Hex text of a 32-byte value.
pub fn decode_hex_32(value: &str) -> (r: Option<[u8; 32]>)
    requires
        radix16_slicing_ok(value.spec_bytes()),
    ensures
        match hex_of_len(value@, 32) {
            Some(b) => r matches Some(a) && a@ == b,
            None => r is None,
        },
{
    let bytes = match decode_hex(value) {
        Some(b) => b,
        None => {
            return None;
        },
    };
    if bytes.len() != 32 {
        return None;
    }
    let mut out = [0u8; 32];
    let mut i: usize = 0;
    while i < 32
        invariant
            bytes@.len() == 32,
            i <= 32,
            forall|j: int| 0 <= j < i ==> out@[j] == bytes@[j],
        decreases 32 - i,
    {
        out[i] = bytes[i];
        i = i + 1;
    }
    assert(out@ =~= bytes@);
    Some(out)
}

/// Hex text of a 64-byte value.
pub fn decode_hex_64(value: &str) -> (r: Option<[u8; 64]>)
    requires
        radix16_slicing_ok(value.spec_bytes()),
    ensures
        match hex_of_len(value@, 64) {
            Some(b) => r matches Some(a) && a@ == b,
            None => r is None,
        },
{
    let bytes = match decode_hex(value) {
        Some(b) => b,
        None => {
            return None;
        },
    };
    if bytes.len() != 64 {
        return None;
    }
    let mut out = [0u8; 64];
    let mut i: usize = 0;
    while i < 64
        invariant
            bytes@.len() == 64,
            i <= 64,
            forall|j: int| 0 <= j < i ==> out@[j] == bytes@[j],
        decreases 64 - i,
    {
        out[i] = bytes[i];
        i = i + 1;
    }
    assert(out@ =~= bytes@);
    Some(out)
}

// ── Challenge check ──────────────────────────────────────────────────────

/// The answer to a challenge response, given the pending challenge (if
/// any) and the time: each check in turn, the first failure named.
pub open spec fn challenge_outcome(
    pending: Option<ChallengeRecord>,
    address: Seq<char>,
    public_key_hex: Seq<char>,
    signature_hex: Seq<char>,
    now: i64,
) -> Result<(), Seq<char>> {
    match pending {
        None => Err("challenge_not_found"@),
        Some(c) => if now > c.expires_at {
            Err("challenge_expired"@)
        } else {
            match hex_of_len(public_key_hex, 32) {
                None => Err("invalid_public_key_hex"@),
                Some(pk) => match stellar_account_key(address) {
                    None => Err("invalid_address"@),
                    Some(ak) => if ak != pk {
                        Err("address_public_key_mismatch"@)
                    } else {
                        match hex_of_len(signature_hex, 64) {
                            None => Err("invalid_signature_hex"@),
                            Some(sig) => if !ed25519_key_decodes(pk) {
                                Err("invalid_public_key"@)
                            } else if !ed25519_accepts(pk, encode_utf8(c.nonce@), sig) {
                                Err("invalid_signature"@)
                            } else {
                                Ok(())
                            },
                        }
                    },
                },
            }
        },
    }
}

/// The hex inputs can be sliced two bytes at a time wherever the checks
/// get to them.
pub open spec fn challenge_inputs_ok(
    pending: Option<ChallengeRecord>,
    address: Seq<char>,
    public_key_hex: Seq<char>,
    signature_hex: Seq<char>,
    now: i64,
) -> bool {
    match pending {
        None => true,
        Some(c) => now > c.expires_at || (radix16_slicing_ok(encode_utf8(public_key_hex)) && (
        hex_of_len(public_key_hex, 32) is None || stellar_account_key(address) != hex_of_len(
            public_key_hex,
            32,
        ) || radix16_slicing_ok(encode_utf8(signature_hex)))),
    }
}

/// The hex inputs can be sliced wherever the checks could get to them,
/// at any time.
pub open spec fn hex_inputs_ok(
    pending: Option<ChallengeRecord>,
    address: Seq<char>,
    public_key_hex: Seq<char>,
    signature_hex: Seq<char>,
) -> bool {
    match pending {
        None => true,
        Some(c) => radix16_slicing_ok(encode_utf8(public_key_hex)) && (hex_of_len(public_key_hex, 32) is None
            || stellar_account_key(address) != hex_of_len(public_key_hex, 32) || radix16_slicing_ok(
            encode_utf8(signature_hex),
        )),
    }
}

/// The result of a check as a static message.
pub open spec fn outcome_matches(r: Result<(), &'static str>, o: Result<(), Seq<char>>) -> bool {
    match o {
        Ok(()) => r is Ok,
        Err(m) => r matches Err(e) && e@ == m,
    }
}

fn check_challenge(
    c: &ChallengeRecord,
    address: &str,
    public_key_hex: &str,
    signature_hex: &str,
    now: i64,
) -> (r: Result<(), &'static str>)
    requires
        challenge_inputs_ok(Some(*c), address@, public_key_hex@, signature_hex@, now),
    ensures
        outcome_matches(r, challenge_outcome(Some(*c), address@, public_key_hex@, signature_hex@, now)),
{
    if now > c.expires_at {
        return Err("challenge_expired");
    }
    let public_key = match decode_hex_32(public_key_hex) {
        Some(k) => k,
        None => {
            return Err("invalid_public_key_hex");
        },
    };
    let address_key = match decode_stellar_public_key(address) {
        Some(k) => k,
        None => {
            return Err("invalid_address");
        },
    };
    if !bytes_eq(&address_key, &public_key) {
        return Err("address_public_key_mismatch");
    }
    let signature = match decode_hex_64(signature_hex) {
        Some(s) => s,
        None => {
            return Err("invalid_signature_hex");
        },
    };
    let vk = match ed25519_public_key(&public_key) {
        Some(k) => k,
        None => {
            return Err("invalid_public_key");
        },
    };
    if !ed25519_verify(&vk, c.nonce.as_str().as_bytes(), &signature) {
        return Err("invalid_signature");
    }
    Ok(())
}

// ── Refresh tokens ───────────────────────────────────────────────────────

/// The stored form of a refresh token: lower-case hex SHA-256 of it.
pub open spec fn refresh_token_hash(token: Seq<char>) -> Seq<char> {
    hex_lower(sha256(encode_utf8(token)))
}

pub fn hash_refresh_token(token: &str) -> (h: String)
    ensures
        h@ == refresh_token_hash(token@),
{
    let d = sha256_digest(token.as_bytes());
    hex_encode(d.as_slice())
}

/// A fresh refresh token: 32 random bytes, base64url without padding.
pub fn generate_refresh_token() -> (t: String)
    ensures
        exists|b: Seq<u8>| b.len() == 32 && t@ == base64_url_encode(b),
{
    let bytes = random_bytes_32();
    b64_url_encode(&bytes)
}

/// A copy of a list of strings.
pub fn clone_strings(v: &Vec<String>) -> (r: Vec<String>)
    ensures
        r@ == v@,
{
    let mut r: Vec<String> = Vec::new();
    let mut i: usize = 0;
    while i < v.len()
        invariant
            i <= v@.len(),
            r@ == v@.subrange(0, i as int),
        decreases v@.len() - i,
    {
        r.push(v[i].clone());
        assert(v@.subrange(0, i + 1) =~= v@.subrange(0, i as int).push(v@[i as int]));
        i = i + 1;
    }
    assert(v@.subrange(0, i as int) =~= v@);
    r
}

fn clone_opt_string(s: &Option<String>) -> (r: Option<String>)
    ensures
        r == *s,
{
    match s {
        Some(x) => Some(x.clone()),
        None => None,
    }
}

// ── The manager ──────────────────────────────────────────────────────────

/// Pending challenges, sessions and refresh tokens, and the JWT secret.
pub struct AuthManager {
    challenges: Table<String, ChallengeRecord>,
    sessions: HashMap<u128, SessionRecord>,
    refresh_tokens: Table<String, u128>,
    secret: Vec<u8>,
}

/// The claims of an access token for a session.
pub open spec fn session_claims(
    session_id: u128,
    subject: Seq<char>,
    publisher_id: u128,
    scopes: Seq<Seq<char>>,
    role: Option<Seq<char>>,
    mfa_verified: bool,
    iat: i64,
    exp: i64,
    c: AuthClaims,
) -> bool {
    &&& c.sub@ == subject
    &&& c.publisher_id == publisher_id
    &&& c.iat == iat
    &&& c.exp == exp
    &&& c.scopes@.map_values(|s: String| s@) == scopes
    &&& opt_string_view(c.role) == role
    &&& !c.admin
    &&& c.mfa_verified == mfa_verified
    &&& c.session_id == Some(session_id)
}

pub open spec fn opt_string_view(s: Option<String>) -> Option<Seq<char>> {
    match s {
        Some(x) => Some(x@),
        None => None,
    }
}

impl AuthManager {
    pub closed spec fn wf(&self) -> bool {
        &&& self.challenges.wf()
        &&& self.refresh_tokens.wf()
    }

    /// Pending challenges by address.
    pub closed spec fn challenges(&self) -> Map<Seq<char>, ChallengeRecord> {
        self.challenges.view()
    }

    /// Sessions by id.
    pub closed spec fn sessions(&self) -> Map<u128, SessionRecord> {
        self.sessions@
    }

    /// Session of each refresh-token hash.
    pub closed spec fn refresh_tokens(&self) -> Map<Seq<char>, u128> {
        self.refresh_tokens.view()
    }

    pub closed spec fn secret(&self) -> Seq<u8> {
        self.secret@
    }

    /// A manager with nothing pending, signing with `secret`.
    pub fn new(secret: String) -> (m: Self)
        ensures
            m.wf(),
            m.challenges() == Map::<Seq<char>, ChallengeRecord>::empty(),
            m.sessions() == Map::<u128, SessionRecord>::empty(),
            m.refresh_tokens() == Map::<Seq<char>, u128>::empty(),
            m.secret() == encode_utf8(secret@),
    {
        let mut bytes: Vec<u8> = Vec::new();
        let b = secret.as_str().as_bytes();
        let mut i: usize = 0;
        while i < b.len()
            invariant
                i <= b@.len(),
                bytes@ == b@.subrange(0, i as int),
            decreases b@.len() - i,
        {
            bytes.push(b[i]);
            assert(b@.subrange(0, i + 1) =~= b@.subrange(0, i as int).push(b@[i as int]));
            i = i + 1;
        }
        assert(b@.subrange(0, i as int) =~= b@);
        AuthManager {
            challenges: Table::new(),
            sessions: HashMap::new(),
            refresh_tokens: Table::new(),
            secret: bytes,
        }
    }

    /// The manager for a configured secret: it must be set and long enough.
    pub fn from_secret(secret: Option<String>) -> (r: Result<Self, AuthConfigError>)
        ensures
            match secret {
                None => r == Err::<AuthManager, AuthConfigError>(AuthConfigError::MissingJwtSecret),
                Some(s) => if encode_utf8(s@).len() < MIN_JWT_SECRET_LEN {
                    r == Err::<AuthManager, AuthConfigError>(
                        AuthConfigError::JwtSecretTooShort {
                            min_len: MIN_JWT_SECRET_LEN,
                            actual_len: encode_utf8(s@).len() as usize,
                        },
                    )
                } else {
                    r matches Ok(m) && m.wf() && m.secret() == encode_utf8(s@)
                        && m.challenges().is_empty() && m.sessions().is_empty()
                        && m.refresh_tokens().is_empty()
                },
            },
    {
        match secret {
            None => Err(AuthConfigError::MissingJwtSecret),
            Some(s) => {
                match validate_jwt_secret(s.as_str()) {
                    Err(e) => Err(e),
                    Ok(()) => {
                        let m = Self::new(s);
                        assert(m.challenges() =~= Map::<Seq<char>, ChallengeRecord>::empty());
                        Ok(m)
                    },
                }
            },
        }
    }

    /// The secret access tokens are signed with.
    pub fn secret_bytes(&self) -> (s: &[u8])
        ensures
            s@ == self.secret(),
    {
        self.secret.as_slice()
    }

    /// Records a challenge for `address` (replacing any earlier one).
    pub fn create_challenge_at(&mut self, address: &str, nonce: String, now: i64)
        requires
            old(self).wf(),
        ensures
            final(self).wf(),
            final(self).challenges() == old(self).challenges().insert(
                address@,
                ChallengeRecord { nonce, expires_at: sat_add(now, CHALLENGE_TTL_SECS) },
            ),
            final(self).sessions() == old(self).sessions(),
            final(self).refresh_tokens() == old(self).refresh_tokens(),
            final(self).secret() == old(self).secret(),
    {
        let expires_at = saturating_add(now, CHALLENGE_TTL_SECS);
        self.challenges.insert(String::from_str(address), ChallengeRecord { nonce, expires_at });
    }

    /// Creates a challenge for `address`: a random 32-character
    /// alphanumeric nonce, valid for five minutes.  Returns the nonce.
    pub fn create_challenge(&mut self, address: &str) -> (nonce: String)
        requires
            old(self).wf(),
        ensures
            final(self).wf(),
            nonce@.len() == NONCE_LEN,
            final(self).challenges().contains_key(address@),
            final(self).challenges()[address@].nonce == nonce,
            forall|a: Seq<char>| a != address@ ==> #[trigger] final(self).challenges().get(a)
                == old(self).challenges().get(a),
            final(self).sessions() == old(self).sessions(),
            final(self).refresh_tokens() == old(self).refresh_tokens(),
    {
        let nonce = random_alphanumeric(NONCE_LEN);
        let now = unix_now_secs();
        self.create_challenge_at(address, nonce.clone(), now);
        nonce
    }

    /// Whether `hex_inputs_ok` holds for a response to the challenge of
    /// `address`.
    pub fn hex_inputs_ok_for(&self, address: &str, public_key_hex: &str, signature_hex: &str) -> (r:
        bool)
        requires
            self.wf(),
        ensures
            r == hex_inputs_ok(self.challenges().get(address@), address@, public_key_hex@, signature_hex@),
    {
        let key = String::from_str(address);
        if self.challenges.get(&key).is_none() {
            return true;
        }
        if !hex_slicing_ok(public_key_hex) {
            return false;
        }
        let pk = match decode_hex_32(public_key_hex) {
            Some(k) => k,
            None => {
                return true;
            },
        };
        match decode_stellar_public_key(address) {
            Some(ak) => {
                if !bytes_eq(&ak, &pk) {
                    return true;
                }
            },
            None => {
                return true;
            },
        }
        hex_slicing_ok(signature_hex)
    }

    /// Consumes the challenge of `address` and checks the response to it.
    /// The challenge is gone afterwards whatever the answer, so a nonce
    /// answers at most once.
    pub fn verify_challenge(
        &mut self,
        address: &str,
        public_key_hex: &str,
        signature_hex: &str,
        now: i64,
    ) -> (r: Result<(), &'static str>)
        requires
            old(self).wf(),
            challenge_inputs_ok(
                old(self).challenges().get(address@),
                address@,
                public_key_hex@,
                signature_hex@,
                now,
            ),
        ensures
            final(self).wf(),
            final(self).challenges() == old(self).challenges().remove(address@),
            final(self).sessions() == old(self).sessions(),
            final(self).refresh_tokens() == old(self).refresh_tokens(),
            final(self).secret() == old(self).secret(),
            outcome_matches(
                r,
                challenge_outcome(
                    old(self).challenges().get(address@),
                    address@,
                    public_key_hex@,
                    signature_hex@,
                    now,
                ),
            ),
    {
        let key = String::from_str(address);
        match self.challenges.remove(&key) {
            None => Err("challenge_not_found"),
            Some(c) => check_challenge(&c, address, public_key_hex, signature_hex, now),
        }
    }

    /// Answers a challenge at time `now` and, on success, gives the claims
    /// of an access token for the address without a session.
    pub fn verify_and_issue_claims_at(
        &mut self,
        address: &str,
        public_key_hex: &str,
        signature_hex: &str,
        publisher_id: u128,
        scopes: Vec<String>,
        expires_in_seconds: u64,
        now: i64,
    ) -> (r: Result<AuthClaims, &'static str>)
        requires
            old(self).wf(),
            challenge_inputs_ok(
                old(self).challenges().get(address@),
                address@,
                public_key_hex@,
                signature_hex@,
                now,
            ),
        ensures
            final(self).wf(),
            final(self).challenges() == old(self).challenges().remove(address@),
            final(self).sessions() == old(self).sessions(),
            final(self).refresh_tokens() == old(self).refresh_tokens(),
            final(self).secret() == old(self).secret(),
            match challenge_outcome(
                old(self).challenges().get(address@),
                address@,
                public_key_hex@,
                signature_hex@,
                now,
            ) {
                Ok(()) => r matches Ok(c) && c.sub@ == address@ && c.publisher_id == publisher_id
                    && c.iat == now && c.exp == sat_add(now, clamp_lifetime_spec(expires_in_seconds) as i64)
                    && c.scopes == scopes && c.role is None && !c.admin && !c.mfa_verified
                    && c.session_id is None,
                Err(m) => r matches Err(e) && e@ == m,
            },
    {
        match self.verify_challenge(address, public_key_hex, signature_hex, now) {
            Err(e) => Err(e),
            Ok(()) => {
                let lifetime = clamp_lifetime(expires_in_seconds);
                Ok(
                    AuthClaims {
                        sub: String::from_str(address),
                        publisher_id,
                        iat: now,
                        exp: saturating_add(now, lifetime as i64),
                        scopes,
                        role: None,
                        admin: false,
                        mfa_verified: false,
                        session_id: None,
                    },
                )
            },
        }
    }

    /// Whether `challenge_inputs_ok` holds for a response to the challenge
    /// of `address` at `now`.
    pub fn challenge_inputs_ok_at(&self, address: &str, public_key_hex: &str, signature_hex: &str, now: i64) -> (r:
        bool)
        requires
            self.wf(),
        ensures
            r == challenge_inputs_ok(self.challenges().get(address@), address@, public_key_hex@, signature_hex@, now),
    {
        let key = String::from_str(address);
        match self.challenges.get(&key) {
            None => true,
            Some(c) => if now > c.expires_at {
                true
            } else {
                self.hex_inputs_ok_for(address, public_key_hex, signature_hex)
            },
        }
    }

    /// `verify_and_issue_claims_at` on any input: `None`, and nothing
    /// changed, where a hex value it would read is not hex on character
    /// boundaries (the check stops there); its answer otherwise.
    pub fn try_verify_and_issue_claims_at(
        &mut self,
        address: &str,
        public_key_hex: &str,
        signature_hex: &str,
        publisher_id: u128,
        scopes: Vec<String>,
        expires_in_seconds: u64,
        now: i64,
    ) -> (r: Option<Result<AuthClaims, &'static str>>)
        requires
            old(self).wf(),
        ensures
            final(self).wf(),
            r is None <==> !challenge_inputs_ok(
                old(self).challenges().get(address@),
                address@,
                public_key_hex@,
                signature_hex@,
                now,
            ),
            r is None ==> final(self).challenges() == old(self).challenges(),
            r is Some ==> final(self).challenges() == old(self).challenges().remove(address@),
            final(self).sessions() == old(self).sessions(),
            final(self).refresh_tokens() == old(self).refresh_tokens(),
            final(self).secret() == old(self).secret(),
            r matches Some(x) ==> match challenge_outcome(
                old(self).challenges().get(address@),
                address@,
                public_key_hex@,
                signature_hex@,
                now,
            ) {
                Ok(()) => x matches Ok(c) && c.sub@ == address@ && c.publisher_id == publisher_id
                    && c.iat == now && c.exp == sat_add(now, clamp_lifetime_spec(expires_in_seconds) as i64)
                    && c.scopes == scopes && c.role is None && !c.admin && !c.mfa_verified
                    && c.session_id is None,
                Err(m) => x matches Err(e) && e@ == m,
            },
    {
        if !self.challenge_inputs_ok_at(address, public_key_hex, signature_hex, now) {
            return None;
        }
        Some(
            self.verify_and_issue_claims_at(
                address,
                public_key_hex,
                signature_hex,
                publisher_id,
                scopes,
                expires_in_seconds,
                now,
            ),
        )
    }

    /// Records a new session for `address` with its first refresh token,
    /// and gives the claims of its first access token.
    pub fn open_session_at(
        &mut self,
        address: &str,
        publisher_id: u128,
        scopes: Vec<String>,
        expires_in_seconds: u64,
        now: i64,
        session_id: u128,
        refresh_token: String,
    ) -> (s: IssuedSession)
        requires
            old(self).wf(),
        ensures
            final(self).wf(),
            final(self).challenges() == old(self).challenges(),
            final(self).secret() == old(self).secret(),
            final(self).sessions() == old(self).sessions().insert(
                session_id,
                final(self).sessions()[session_id],
            ),
            ({
                let rec = final(self).sessions()[session_id];
                &&& rec.subject@ == address@
                &&& rec.publisher_id == publisher_id
                &&& rec.role is None
                &&& rec.scopes@ == scopes@
                &&& !rec.mfa_verified
                &&& rec.expires_at == sat_add(now, SESSION_TTL_SECS)
            }),
            final(self).refresh_tokens() == old(self).refresh_tokens().insert(
                refresh_token_hash(refresh_token@),
                session_id,
            ),
            s.session_id == session_id,
            s.refresh_token == refresh_token,
            s.expires_in_seconds == clamp_lifetime_spec(expires_in_seconds),
            session_claims(
                session_id,
                address@,
                publisher_id,
                scopes@.map_values(|x: String| x@),
                None,
                false,
                now,
                sat_add(now, clamp_lifetime_spec(expires_in_seconds) as i64),
                s.claims,
            ),
    {
        let lifetime = clamp_lifetime(expires_in_seconds);
        let h = hash_refresh_token(refresh_token.as_str());
        self.refresh_tokens.insert(h, session_id);
        let subject = String::from_str(address);
        self.sessions.insert(
            session_id,
            SessionRecord {
                subject: subject.clone(),
                publisher_id,
                role: None,
                scopes: clone_strings(&scopes),
                mfa_verified: false,
                expires_at: saturating_add(now, SESSION_TTL_SECS),
            },
        );
        let claims = AuthClaims {
            sub: subject,
            publisher_id,
            iat: now,
            exp: saturating_add(now, lifetime as i64),
            scopes,
            role: None,
            admin: false,
            mfa_verified: false,
            session_id: Some(session_id),
        };
        IssuedSession { session_id, refresh_token, expires_in_seconds: lifetime, claims }
    }

    /// Answers a challenge and, on success, opens a session with a random
    /// id and refresh token.
    pub fn verify_and_open_session(
        &mut self,
        address: &str,
        public_key_hex: &str,
        signature_hex: &str,
        publisher_id: u128,
        scopes: Vec<String>,
        expires_in_seconds: u64,
    ) -> (r: Result<IssuedSession, &'static str>)
        requires
            old(self).wf(),
            hex_inputs_ok(old(self).challenges().get(address@), address@, public_key_hex@, signature_hex@),
        ensures
            final(self).wf(),
            final(self).challenges() == old(self).challenges().remove(address@),
            final(self).secret() == old(self).secret(),
            exists|now: i64|
                match #[trigger] challenge_outcome(
                    old(self).challenges().get(address@),
                    address@,
                    public_key_hex@,
                    signature_hex@,
                    now,
                ) {
                    Ok(()) => r is Ok,
                    Err(m) => r matches Err(e) && e@ == m,
                },
            r is Err ==> final(self).sessions() == old(self).sessions() && final(self).refresh_tokens()
                == old(self).refresh_tokens(),
            r matches Ok(s) ==> final(self).sessions().contains_key(s.session_id) && final(self).refresh_tokens().get(refresh_token_hash(s.refresh_token@)) == Some(s.session_id)
                && s.claims.sub@ == address@ && s.claims.session_id == Some(s.session_id)
                && s.claims.publisher_id == publisher_id && s.claims.scopes@.map_values(|x: String| x@)
                == scopes@.map_values(|x: String| x@) && s.expires_in_seconds == clamp_lifetime_spec(
                expires_in_seconds,
            ) && s.claims.exp == sat_add(s.claims.iat, s.expires_in_seconds as i64),
    {
        let now = unix_now_secs();
        match self.verify_challenge(address, public_key_hex, signature_hex, now) {
            Err(e) => Err(e),
            Ok(()) => {
                let session_id = new_uuid_v4();
                let token = generate_refresh_token();
                Ok(
                    self.open_session_at(
                        address,
                        publisher_id,
                        scopes,
                        expires_in_seconds,
                        now,
                        session_id,
                        token,
                    ),
                )
            },
        }
    }

    /// Trades a refresh token for a new access token at time `now`: the
    /// token must name a live session; it is then replaced by `next_token`.
    /// A token of an expired session removes the session and the token.
    pub fn refresh_at(
        &mut self,
        refresh_token: &str,
        expires_in_seconds: u64,
        now: i64,
        next_token: String,
    ) -> (r: Result<IssuedSession, &'static str>)
        requires
            old(self).wf(),
        ensures
            final(self).wf(),
            final(self).challenges() == old(self).challenges(),
            final(self).secret() == old(self).secret(),
            ({
                let h = refresh_token_hash(refresh_token@);
                match old(self).refresh_tokens().get(h) {
                    None => r == Err::<IssuedSession, &'static str>("refresh_token_not_found")
                        && final(self).sessions() == old(self).sessions() && final(self).refresh_tokens()
                        == old(self).refresh_tokens(),
                    Some(sid) => match old(self).sessions().get(sid) {
                        None => r == Err::<IssuedSession, &'static str>("session_not_found")
                            && final(self).sessions() == old(self).sessions() && final(self).refresh_tokens()
                            == old(self).refresh_tokens(),
                        Some(sess) => if now > sess.expires_at {
                            r == Err::<IssuedSession, &'static str>("session_expired")
                                && final(self).sessions() == old(self).sessions().remove(sid)
                                && final(self).refresh_tokens() == old(self).refresh_tokens().remove(h)
                        } else {
                            final(self).sessions() == old(self).sessions()
                                && final(self).refresh_tokens() == old(self).refresh_tokens().remove(h).insert(
                                refresh_token_hash(next_token@),
                                sid,
                            ) && (r matches Ok(s) && s.session_id == sid && s.refresh_token
                                == next_token && s.expires_in_seconds == clamp_lifetime_spec(
                                expires_in_seconds,
                            ) && session_claims(
                                sid,
                                sess.subject@,
                                sess.publisher_id,
                                sess.scopes@.map_values(|x: String| x@),
                                opt_string_view(sess.role),
                                sess.mfa_verified,
                                now,
                                sat_add(now, clamp_lifetime_spec(expires_in_seconds) as i64),
                                s.claims,
                            ))
                        },
                    },
                }
            }),
    {
        let h = hash_refresh_token(refresh_token);
        let sid = match self.refresh_tokens.get(&h) {
            Some(s) => *s,
            None => {
                return Err("refresh_token_not_found");
            },
        };
        let (subject, publisher_id, scopes, role, mfa_verified, expires_at) = match self.sessions.get(
            &sid,
        ) {
            Some(s) => (
                s.subject.clone(),
                s.publisher_id,
                clone_strings(&s.scopes),
                clone_opt_string(&s.role),
                s.mfa_verified,
                s.expires_at,
            ),
            None => {
                return Err("session_not_found");
            },
        };
        if now > expires_at {
            self.sessions.remove(&sid);
            self.refresh_tokens.remove(&h);
            return Err("session_expired");
        }
        self.refresh_tokens.remove(&h);
        let next_hash = hash_refresh_token(next_token.as_str());
        self.refresh_tokens.insert(next_hash, sid);
        let lifetime = clamp_lifetime(expires_in_seconds);
        let claims = AuthClaims {
            sub: subject,
            publisher_id,
            iat: now,
            exp: saturating_add(now, lifetime as i64),
            scopes,
            role,
            admin: false,
            mfa_verified,
            session_id: Some(sid),
        };
        Ok(IssuedSession { session_id: sid, refresh_token: next_token, expires_in_seconds: lifetime, claims })
    }

    /// `refresh_at` with the current time and a fresh random token.
    pub fn refresh_access_token(&mut self, refresh_token: &str, expires_in_seconds: u64) -> (r: Result<
        IssuedSession,
        &'static str,
    >)
        requires
            old(self).wf(),
        ensures
            final(self).wf(),
            final(self).challenges() == old(self).challenges(),
            !old(self).refresh_tokens().contains_key(refresh_token_hash(refresh_token@)) ==> r
                == Err::<IssuedSession, &'static str>("refresh_token_not_found"),
            r matches Ok(s) ==> old(self).refresh_tokens().get(refresh_token_hash(refresh_token@))
                == Some(s.session_id) && final(self).refresh_tokens().get(
                refresh_token_hash(s.refresh_token@),
            ) == Some(s.session_id),
    {
        let now = unix_now_secs();
        let next = generate_refresh_token();
        self.refresh_at(refresh_token, expires_in_seconds, now, next)
    }

    /// Ends a session: it and every refresh token of it are dropped.
    /// Returns whether the session existed.
    pub fn revoke_session(&mut self, session_id: u128) -> (existed: bool)
        requires
            old(self).wf(),
        ensures
            final(self).wf(),
            existed == old(self).sessions().contains_key(session_id),
            final(self).sessions() == old(self).sessions().remove(session_id),
            forall|h: Seq<char>| #[trigger] final(self).refresh_tokens().contains_key(h) == (old(self).refresh_tokens().contains_key(h) && old(self).refresh_tokens()[h] != session_id),
            forall|h: Seq<char>| #[trigger] final(self).refresh_tokens().contains_key(h) ==> final(self).refresh_tokens()[h] == old(self).refresh_tokens()[h],
            final(self).challenges() == old(self).challenges(),
    {
        let existed = self.sessions.remove(&session_id).is_some();
        self.refresh_tokens.remove_value(session_id);
        existed
    }
}

/// A challenge answers once: checking a response consumes the challenge,
/// so a second response for the same address, without a new challenge in
/// between, finds none.
pub proof fn law_nonce_single_use(
    challenges: Map<Seq<char>, ChallengeRecord>,
    address: Seq<char>,
    pk2: Seq<char>,
    sig2: Seq<char>,
    now2: i64,
)
    ensures
        challenge_outcome(challenges.remove(address).get(address), address, pk2, sig2, now2) == Err::<
            (),
            Seq<char>,
        >("challenge_not_found"@),
{
}

/// A refresh token works once: after it is traded, the token it was
/// traded for replaces it (unless the two hash alike).
pub proof fn law_refresh_token_rotates(
    tokens: Map<Seq<char>, u128>,
    used: Seq<char>,
    next: Seq<char>,
    sid: u128,
)
    requires
        refresh_token_hash(next) != refresh_token_hash(used),
    ensures
        !tokens.remove(refresh_token_hash(used)).insert(refresh_token_hash(next), sid).contains_key(
            refresh_token_hash(used),
        ),
        tokens.remove(refresh_token_hash(used)).insert(refresh_token_hash(next), sid)[refresh_token_hash(next)] == sid,
{
}

} // verus!
