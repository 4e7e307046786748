//! Ed25519-signed license tokens: compact JWS `header.claims.signature`
//! with `alg: EdDSA`, each part base64url without padding.

use vstd::prelude::*;
use vstd::string::*;
use vstd::utf8::encode_utf8;
use crate::crypto::{
    is_url_safe_b64, b64_standard_encode, b64_standard_decode, b64_url_decode, b64_url_encode,
    base64_standard_decode, base64_standard_encode, base64_url_decode, base64_url_encode,
    ed25519_accepts, ed25519_public_bytes, ed25519_public_key, ed25519_public_of_seed,
    ed25519_sign, ed25519_signature, ed25519_signing_key, ed25519_verify, ed25519_key_decodes,
    Ed25519SigningKey,
};
use crate::error::ApiError;
use crate::text::{chars_of, find_char, find_char_from, lemma_find_char_suffix, str_eq, trim, trim_str};

verus! {

broadcast use vstd::string::group_string_axioms;

/// Length of an Ed25519 secret seed.
pub const SECRET_KEY_LENGTH: usize = 32;

/// Failures of license signing and verification.
#[derive(Debug, Clone, PartialEq, Eq)]
pub enum LicenseError {
    SigningKeyMissing,
    SigningKeyEncoding,
    SigningKeyLength,
    MalformedToken,
    UnsupportedAlgorithm(String),
    BadSignature,
    Expired,
}

/// The message of a license error.
pub open spec fn license_error_message(e: LicenseError) -> Seq<char> {
    match e {
        LicenseError::SigningKeyMissing => "MARKETPLACE_LICENSE_SIGNING_KEY is not set"@,
        LicenseError::SigningKeyEncoding => "MARKETPLACE_LICENSE_SIGNING_KEY is not valid base64"@,
        LicenseError::SigningKeyLength => "MARKETPLACE_LICENSE_SIGNING_KEY must decode to exactly 32 bytes"@,
        LicenseError::MalformedToken => "malformed token"@,
        LicenseError::UnsupportedAlgorithm(a) => "unsupported algorithm: "@ + a@,
        LicenseError::BadSignature => "signature verification failed"@,
        LicenseError::Expired => "token expired"@,
    }
}

impl LicenseError {
    pub fn message(&self) -> (m: String)
        ensures
            m@ == license_error_message(*self),
    {
        match self {
            LicenseError::SigningKeyMissing => String::from_str(
                "MARKETPLACE_LICENSE_SIGNING_KEY is not set",
            ),
            LicenseError::SigningKeyEncoding => String::from_str(
                "MARKETPLACE_LICENSE_SIGNING_KEY is not valid base64",
            ),
            LicenseError::SigningKeyLength => String::from_str(
                "MARKETPLACE_LICENSE_SIGNING_KEY must decode to exactly 32 bytes",
            ),
            LicenseError::MalformedToken => String::from_str("malformed token"),
            LicenseError::UnsupportedAlgorithm(a) => {
                let mut m = String::from_str("unsupported algorithm: ");
                m.append(a.as_str());
                m
            },
            LicenseError::BadSignature => String::from_str("signature verification failed"),
            LicenseError::Expired => String::from_str("token expired"),
        }
    }
}

/// A top-level string member of a JSON object.
pub uninterp spec fn json_string_member(json: Seq<u8>, key: Seq<char>) -> Option<Seq<char>>;

/// `serde_json::from_slice::<Value>(json)`, then `get(key)` and
/// `as_str()`: the member `key` of the document when the bytes are a JSON
/// object whose member is a string; `None` otherwise.
#[verifier::external_body]
fn json_member_str(json: &[u8], key: &str) -> (r: Option<String>)
    ensures
        r matches Some(s) ==> json_string_member(json@, key@) == Some(s@),
        r is None ==> json_string_member(json@, key@) is None,
{
    match serde_json::from_slice::<serde_json::Value>(json) {
        Ok(v) => v.get(key).and_then(|a| a.as_str()).map(|a| a.to_string()),
        Err(_) => None,
    }
}

/// The JOSE header of every license: `{"alg":"EdDSA","typ":"JWT"}`.
pub open spec fn license_header_json() -> Seq<u8> {
    seq![
        123u8, 34, 97, 108, 103, 34, 58, 34, 69, 100, 68, 83, 65, 34, 44, 34, 116, 121, 112, 34,
        58, 34, 74, 87, 84, 34, 125,
    ]
}

fn license_header_bytes() -> (v: Vec<u8>)
    ensures
        v@ == license_header_json(),
{
    let v: Vec<u8> = vec![
        123u8, 34, 97, 108, 103, 34, 58, 34, 69, 100, 68, 83, 65, 34, 44, 34, 116, 121, 112, 34,
        58, 34, 74, 87, 84, 34, 125,
    ];
    assert(v@ =~= license_header_json());
    v
}

/// The token for a claims document: base64url header and claims joined by
/// `.`, then `.` and the base64url Ed25519 signature of that input.
pub open spec fn license_token(seed: Seq<u8>, claims_json: Seq<u8>) -> Seq<char> {
    let input = base64_url_encode(license_header_json()) + "."@ + base64_url_encode(claims_json);
    input + "."@ + base64_url_encode(ed25519_signature(seed, encode_utf8(input)))
}

/// Signs license claims with an Ed25519 key loaded from a base64 seed.
pub struct LicenseSigner {
    signing_key: Ed25519SigningKey,
}

impl LicenseSigner {
    /// The signer's public key decodes, so its signatures can be checked.
    #[verifier::type_invariant]
    spec fn public_key_decodes(self) -> bool {
        ed25519_key_decodes(ed25519_public_of_seed(self.signing_key.seed()))
    }
}

/// No character of `s[from..to]` is `c`.
pub open spec fn lacks_char(s: Seq<char>, c: char, from: int, to: int) -> bool {
    forall|i: int| from <= i < to ==> s[i] != c
}

proof fn lemma_find_char_skips(s: Seq<char>, c: char, from: int, to: int)
    requires
        0 <= from <= to <= s.len(),
        lacks_char(s, c, from, to),
    ensures
        find_char(s, c, from) == find_char(s, c, to),
    decreases to - from,
{
    if from < to {
        lemma_find_char_skips(s, c, from + 1, to);
    }
}

/// A token made of three URL-safe base64 parts splits back into them.
proof fn lemma_token_splits(h: Seq<char>, c: Seq<char>, g: Seq<char>)
    requires
        forall|i: int| 0 <= i < h.len() ==> #[trigger] is_url_safe_b64(h[i]),
        forall|i: int| 0 <= i < c.len() ==> #[trigger] is_url_safe_b64(c[i]),
        forall|i: int| 0 <= i < g.len() ==> #[trigger] is_url_safe_b64(g[i]),
    ensures
        ({
            let t = h + "."@ + c + "."@ + g;
            let d1 = h.len() as int;
            let d2 = (h.len() + 1 + c.len()) as int;
            &&& find_char(t, '.', 0) == d1
            &&& find_char(t, '.', d1 + 1) == d2
            &&& find_char(t, '.', d2 + 1) < 0
            &&& t.subrange(0, d1) == h
            &&& t.subrange(d1 + 1, d2) == c
            &&& t.subrange(d2 + 1, t.len() as int) == g
            &&& t.subrange(0, d2) == h + "."@ + c
        }),
{
    reveal_strlit(".");
    let t = h + "."@ + c + "."@ + g;
    let d1 = h.len() as int;
    let d2 = (h.len() + 1 + c.len()) as int;
    assert forall|i: int| 0 <= i < d1 implies t[i] != '.' by {
        assert(t[i] == h[i]);
        assert(is_url_safe_b64(h[i]));
    }
    lemma_find_char_skips(t, '.', 0, d1);
    assert(t[d1] == '.');
    assert forall|i: int| d1 + 1 <= i < d2 implies t[i] != '.' by {
        assert(t[i] == c[i - d1 - 1]);
        assert(is_url_safe_b64(c[i - d1 - 1]));
    }
    lemma_find_char_skips(t, '.', d1 + 1, d2);
    assert(t[d2] == '.');
    assert forall|i: int| d2 + 1 <= i < t.len() implies t[i] != '.' by {
        assert(t[i] == g[i - d2 - 1]);
        assert(is_url_safe_b64(g[i - d2 - 1]));
    }
    lemma_find_char_skips(t, '.', d2 + 1, t.len() as int);
    assert(t.subrange(0, d1) =~= h);
    assert(t.subrange(d1 + 1, d2) =~= c);
    assert(t.subrange(d2 + 1, t.len() as int) =~= g);
    assert(t.subrange(0, d2) =~= h + "."@ + c);
}

/// The seed a base64 setting decodes to: URL-safe unpadded first, then
/// standard.
pub open spec fn seed_decoding(b64: Seq<char>) -> Option<Seq<u8>> {
    let t = encode_utf8(trim(b64));
    match base64_url_decode(t) {
        Some(s) => Some(s),
        None => base64_standard_decode(t),
    }
}

fn to_seed(s: &Vec<u8>) -> (a: [u8; 32])
    requires
        s@.len() == 32,
    ensures
        a@ == s@,
{
    let mut a = [0u8; 32];
    let mut i: usize = 0;
    while i < 32
        invariant
            s@.len() == 32,
            i <= 32,
            forall|j: int| 0 <= j < i ==> a@[j] == s@[j],
        decreases 32 - i,
    {
        a[i] = s[i];
        i = i + 1;
    }
    assert(a@ =~= s@);
    a
}

impl LicenseSigner {
    pub closed spec fn seed(&self) -> Seq<u8> {
        self.signing_key.seed()
    }

    /// Loads the signer from a base64 (URL-safe or standard) 32-byte seed.
    pub fn from_b64_seed(b64_seed: &str) -> (r: Result<Self, LicenseError>)
        ensures
            match seed_decoding(b64_seed@) {
                None => r == Err::<LicenseSigner, LicenseError>(LicenseError::SigningKeyEncoding),
                Some(seed) => if seed.len() != 32 {
                    r == Err::<LicenseSigner, LicenseError>(LicenseError::SigningKeyLength)
                } else {
                    r matches Ok(s) && s.seed() == seed
                },
            },
    {
        let t = trim_str(b64_seed);
        let seed = match b64_url_decode(t.as_bytes()) {
            Some(s) => s,
            None => match b64_standard_decode(t.as_bytes()) {
                Some(s) => s,
                None => {
                    return Err(LicenseError::SigningKeyEncoding);
                },
            },
        };
        if seed.len() != SECRET_KEY_LENGTH {
            return Err(LicenseError::SigningKeyLength);
        }
        let buf = to_seed(&seed);
        Ok(LicenseSigner { signing_key: ed25519_signing_key(&buf) })
    }

    /// The 32-byte public key that verifies this signer's tokens.
    pub fn verifying_key(&self) -> (k: [u8; 32])
        ensures
            k@ == ed25519_public_of_seed(self.seed()),
    {
        ed25519_public_bytes(&self.signing_key)
    }

    /// The public key in standard base64, for offline verification.
    pub fn public_key_b64(&self) -> (s: String)
        ensures
            s@ == base64_standard_encode(ed25519_public_of_seed(self.seed())),
    {
        let k = self.verifying_key();
        b64_standard_encode(&k)
    }

    /// Signs a claims document (its JSON bytes) into a compact token.  The
    /// header is the fixed `{"alg":"EdDSA","typ":"JWT"}`; signing always
    /// succeeds.  `verify_token` gives the document back for the token, as
    /// far as the JSON reading of that header names `EdDSA` (which this
    /// contract does not prove).
    pub fn sign_claims_json(&self, claims_json: &[u8]) -> (r: Result<String, LicenseError>)
        ensures
            r matches Ok(t) && t@ == license_token(self.seed(), claims_json@),
            json_string_member(license_header_json(), "alg"@) == Some("EdDSA"@) ==> (r matches Ok(t)
                && token_check(ed25519_public_of_seed(self.seed()), t@) == Ok::<
                Seq<u8>,
                TokenFault,
            >(claims_json@)),
    {
        proof {
            use_type_invariant(self);
        }
        let header = license_header_bytes();
        let h = b64_url_encode(header.as_slice());
        let c = b64_url_encode(claims_json);
        let mut input = h.clone();
        input.append(".");
        input.append(c.as_str());
        let sig = ed25519_sign(&self.signing_key, input.as_str().as_bytes());
        let g = b64_url_encode(&sig);
        let mut token = input.clone();
        token.append(".");
        token.append(g.as_str());
        proof {
            reveal_strlit(".");
            lemma_token_splits(h@, c@, g@);
            assert(token@ =~= h@ + "."@ + c@ + "."@ + g@);
        }
        Ok(token)
    }

    /// Checks a token's structure, algorithm and signature, and returns the
    /// decoded claims document.  Expiry and revocation are checked by the
    /// caller once the claims are read.
    pub fn verify_token(&self, token: &str) -> (r: Result<Vec<u8>, LicenseError>)
        ensures
            match token_check(ed25519_public_of_seed(self.seed()), token@) {
                Ok(c) => r matches Ok(v) && v@ == c,
                Err(TokenFault::Malformed) => r == Err::<Vec<u8>, LicenseError>(
                    LicenseError::MalformedToken,
                ),
                Err(TokenFault::Unsupported(a)) => r matches Err(
                    LicenseError::UnsupportedAlgorithm(s),
                ) && s@ == a,
                Err(TokenFault::BadSignature) => r == Err::<Vec<u8>, LicenseError>(
                    LicenseError::BadSignature,
                ),
            },
    {
        let v = chars_of(token);
        let d1 = find_char_from(&v, '.', 0);
        if d1 == v.len() {
            return Err(LicenseError::MalformedToken);
        }
        let d2 = find_char_from(&v, '.', d1 + 1);
        if d2 == v.len() {
            return Err(LicenseError::MalformedToken);
        }
        let d3 = find_char_from(&v, '.', d2 + 1);
        if d3 < v.len() {
            return Err(LicenseError::MalformedToken);
        }
        let header_b64 = token.substring_char(0, d1);
        let claims_b64 = token.substring_char(d1 + 1, d2);
        let sig_b64 = token.substring_char(d2 + 1, v.len());
        let header = match b64_url_decode(header_b64.as_bytes()) {
            Some(h) => h,
            None => {
                return Err(LicenseError::MalformedToken);
            },
        };
        match json_member_str(header.as_slice(), "alg") {
            None => {
                return Err(LicenseError::MalformedToken);
            },
            Some(a) => {
                if !str_eq(a.as_str(), "EdDSA") {
                    return Err(LicenseError::UnsupportedAlgorithm(a));
                }
            },
        }
        let sig_bytes = match b64_url_decode(sig_b64.as_bytes()) {
            Some(s) => s,
            None => {
                return Err(LicenseError::MalformedToken);
            },
        };
        if sig_bytes.len() != 64 {
            return Err(LicenseError::BadSignature);
        }
        let sig = to_sig(&sig_bytes);
        let pk = self.verifying_key();
        let key = match ed25519_public_key(&pk) {
            Some(k) => k,
            None => {
                return Err(LicenseError::BadSignature);
            },
        };
        let signing_input = token.substring_char(0, d2);
        if !ed25519_verify(&key, signing_input.as_bytes(), &sig) {
            return Err(LicenseError::BadSignature);
        }
        match b64_url_decode(claims_b64.as_bytes()) {
            Some(c) => Ok(c),
            None => Err(LicenseError::MalformedToken),
        }
    }
}

fn to_sig(s: &Vec<u8>) -> (a: [u8; 64])
    requires
        s@.len() == 64,
    ensures
        a@ == s@,
{
    let mut a = [0u8; 64];
    let mut i: usize = 0;
    while i < 64
        invariant
            s@.len() == 64,
            i <= 64,
            forall|j: int| 0 <= j < i ==> a@[j] == s@[j],
        decreases 64 - i,
    {
        a[i] = s[i];
        i = i + 1;
    }
    assert(a@ =~= s@);
    a
}

/// Why a token is rejected, as the checks see it.
pub enum TokenFault {
    Malformed,
    Unsupported(Seq<char>),
    BadSignature,
}

/// The checks of `verify_token`, in order, on a token and the signer's
/// public key: three parts; a base64url header whose `alg` is `EdDSA`; a
/// base64url 64-byte signature that verifies over `header.claims`; and a
/// base64url claims part, which is the result.
pub open spec fn token_check(pk: Seq<u8>, t: Seq<char>) -> Result<Seq<u8>, TokenFault> {
    let d1 = find_char(t, '.', 0);
    let d2 = find_char(t, '.', d1 + 1);
    if d1 < 0 || d2 < 0 || find_char(t, '.', d2 + 1) >= 0 {
        Err(TokenFault::Malformed)
    } else {
        let header_b64 = t.subrange(0, d1);
        let claims_b64 = t.subrange(d1 + 1, d2);
        let sig_b64 = t.subrange(d2 + 1, t.len() as int);
        match base64_url_decode(encode_utf8(header_b64)) {
            None => Err(TokenFault::Malformed),
            Some(h) => match json_string_member(h, "alg"@) {
                None => Err(TokenFault::Malformed),
                Some(a) => if a != "EdDSA"@ {
                    Err(TokenFault::Unsupported(a))
                } else {
                    match base64_url_decode(encode_utf8(sig_b64)) {
                        None => Err(TokenFault::Malformed),
                        Some(sig) => if sig.len() != 64 || !ed25519_key_decodes(pk) || !ed25519_accepts(
                            pk,
                            encode_utf8(t.subrange(0, d2)),
                            sig,
                        ) {
                            Err(TokenFault::BadSignature)
                        } else {
                            match base64_url_decode(encode_utf8(claims_b64)) {
                                None => Err(TokenFault::Malformed),
                                Some(c) => Ok(c),
                            }
                        },
                    }
                },
            },
        }
    }
}

/// Expiry check: a token with an expiry is expired from that second on.
pub fn check_expiry(exp: Option<i64>, now: i64) -> (r: Result<(), LicenseError>)
    ensures
        r == (match exp {
            Some(e) => if now >= e {
                Err(LicenseError::Expired)
            } else {
                Ok(())
            },
            None => Ok(()),
        }),
{
    match exp {
        Some(e) => {
            if now >= e {
                Err(LicenseError::Expired)
            } else {
                Ok(())
            }
        },
        None => Ok(()),
    }
}

} // verus!
