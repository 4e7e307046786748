//! Contract signature verification: Ed25519 and secp256k1 checks, key
//! fingerprints, the verification verdict, and the certificate-chain walk
//! up to a trusted root.

use vstd::prelude::*;
use vstd::string::*;
use crate::crypto::{
    ed25519_key_decodes, ed25519_public_key, ed25519_strict_accepts, ed25519_verify_strict,
    hex_encode, hex_lower, sha256, sha256_digest, secp256k1_accepts, secp256k1_der_check,
    secp256k1_der_decodes, secp256k1_key_check, secp256k1_key_decodes, secp256k1_rs_check,
    secp256k1_rs_decodes, secp256k1_verify,
};
use crate::text::{
    chars_of, chars_range_eq, str_eq, trim_bounds, trim, trim_end, trim_start, trim_str, to_ascii_lower,
    ascii_lower, is_whitespace,
};
use crate::crypto::{b64_standard_decode, base64_standard_decode, hex_decode, hex_decode_spec};
use crate::clock::elapsed_secs;
use crate::decimal::{is_digit, lemma_nat_digits, nat_digits, u64_digits};
use crate::error::ApiError;
use std::time::Instant;
use vstd::utf8::encode_utf8;

verus! {

broadcast use vstd::string::group_string_axioms;

/// Deepest certificate chain that is walked before giving up.
pub const MAX_CHAIN_DEPTH: usize = 10;

/// Capacity of the verification-result cache.
pub const CACHE_CAPACITY: usize = 10_000;

/// Supported signature algorithms.
#[derive(Debug, Clone, Copy, PartialEq, Eq, Structural)]
pub enum SignatureAlgorithm {
    Ed25519,
    Secp256k1,
}

/// The algorithm named by `s`, after trimming and ASCII lower-casing.
pub open spec fn parse_algorithm_spec(s: Seq<char>) -> Option<SignatureAlgorithm> {
    let n = trim(s).map_values(|c: char| ascii_lower(c));
    if n == "ed25519"@ {
        Some(SignatureAlgorithm::Ed25519)
    } else if n == "secp256k1"@ || n == "ecdsa"@ || n == "ecdsa-secp256k1"@ || n == "es256k"@ {
        Some(SignatureAlgorithm::Secp256k1)
    } else {
        None
    }
}

/// The canonical name of an algorithm.
pub open spec fn algorithm_name(a: SignatureAlgorithm) -> Seq<char> {
    match a {
        SignatureAlgorithm::Ed25519 => "ed25519"@,
        SignatureAlgorithm::Secp256k1 => "secp256k1"@,
    }
}

/// Every algorithm's canonical name parses back to it.
pub proof fn law_algorithm_name_parses_back(a: SignatureAlgorithm)
    ensures
        parse_algorithm_spec(algorithm_name(a)) == Some(a),
{
    reveal_strlit("ed25519");
    reveal_strlit("secp256k1");
    let n = algorithm_name(a);
    assert(!is_whitespace(n[0]));
    assert(trim_start(n) == n);
    assert(!is_whitespace(n.last()));
    assert(trim_end(n) == n);
    assert(n.map_values(|c: char| ascii_lower(c)) =~= n);
}

impl SignatureAlgorithm {
    /// Parses an algorithm name, ignoring surrounding whitespace and ASCII
    /// case.  `ecdsa`, `ecdsa-secp256k1` and `es256k` name secp256k1.
    pub fn parse(s: &str) -> (r: Option<Self>)
        ensures
            r == parse_algorithm_spec(s@),
    {
        let v = chars_of(s);
        let (a, b) = trim_bounds(&v);
        let mut lower: Vec<char> = Vec::new();
        let mut i: usize = a;
        while i < b
            invariant
                a <= i <= b <= v@.len(),
                lower@ == v@.subrange(a as int, i as int).map_values(|c: char| ascii_lower(c)),
            decreases b - i,
        {
            lower.push(to_ascii_lower(v[i]));
            assert(v@.subrange(a as int, i + 1).map_values(|c: char| ascii_lower(c)) =~= v@.subrange(
                a as int,
                i as int,
            ).map_values(|c: char| ascii_lower(c)).push(ascii_lower(v@[i as int])));
            i = i + 1;
        }
        let n = lower.len();
        if chars_range_eq(&lower, 0, n, &chars_of("ed25519")) {
            assert(lower@.subrange(0, n as int) =~= lower@);
            Some(SignatureAlgorithm::Ed25519)
        } else if chars_range_eq(&lower, 0, n, &chars_of("secp256k1")) || chars_range_eq(
            &lower,
            0,
            n,
            &chars_of("ecdsa"),
        ) || chars_range_eq(&lower, 0, n, &chars_of("ecdsa-secp256k1")) || chars_range_eq(
            &lower,
            0,
            n,
            &chars_of("es256k"),
        ) {
            assert(lower@.subrange(0, n as int) =~= lower@);
            Some(SignatureAlgorithm::Secp256k1)
        } else {
            assert(lower@.subrange(0, n as int) =~= lower@);
            None
        }
    }

    /// The canonical lower-case name.
    pub fn as_str(&self) -> (s: &'static str)
        ensures
            s@ == algorithm_name(*self),
    {
        match self {
            SignatureAlgorithm::Ed25519 => "ed25519",
            SignatureAlgorithm::Secp256k1 => "secp256k1",
        }
    }
}

/// Why a signature did not verify.
#[derive(Debug, Clone, Copy, PartialEq, Eq, Structural)]
pub enum SigError {
    InvalidKey,
    InvalidSignature,
    VerificationFailed,
}

impl SigError {
    /// The error's code.
    pub fn as_str(&self) -> (s: &'static str)
        ensures
            s@ == match self {
                SigError::InvalidKey => "invalid_public_key"@,
                SigError::InvalidSignature => "invalid_signature_encoding"@,
                SigError::VerificationFailed => "verification_failed"@,
            },
    {
        match self {
            SigError::InvalidKey => "invalid_public_key",
            SigError::InvalidSignature => "invalid_signature_encoding",
            SigError::VerificationFailed => "verification_failed",
        }
    }
}

/// The outcome of a check made of three stages: decoding the key, decoding
/// the signature, and the cryptographic verification.
pub fn classify_verification(key_ok: bool, signature_ok: bool, accepted: bool) -> (r: Result<(), SigError>)
    ensures
        r == (if !key_ok {
            Err(SigError::InvalidKey)
        } else if !signature_ok {
            Err(SigError::InvalidSignature)
        } else if !accepted {
            Err(SigError::VerificationFailed)
        } else {
            Ok(())
        }),
{
    if !key_ok {
        Err(SigError::InvalidKey)
    } else if !signature_ok {
        Err(SigError::InvalidSignature)
    } else if !accepted {
        Err(SigError::VerificationFailed)
    } else {
        Ok(())
    }
}

/// What `verify_signature` answers.  Ed25519 keys must be 32 bytes that
/// decode to a point, signatures 64 bytes, and `verify_strict` must
/// accept.  secp256k1 keys are SEC1 (33 or 65 bytes) and signatures are
/// 64-byte `r || s` or, failing that, DER.
pub open spec fn verify_outcome(alg: SignatureAlgorithm, pk: Seq<u8>, msg: Seq<u8>, sig: Seq<u8>) -> Result<(), SigError> {
    match alg {
        SignatureAlgorithm::Ed25519 => if pk.len() != 32 || !ed25519_key_decodes(pk) {
            Err(SigError::InvalidKey)
        } else if sig.len() != 64 {
            Err(SigError::InvalidSignature)
        } else if !ed25519_strict_accepts(pk, msg, sig) {
            Err(SigError::VerificationFailed)
        } else {
            Ok(())
        },
        SignatureAlgorithm::Secp256k1 => if !secp256k1_key_decodes(pk) {
            Err(SigError::InvalidKey)
        } else if !secp256k1_rs_decodes(sig) && !secp256k1_der_decodes(sig) {
            Err(SigError::InvalidSignature)
        } else if !secp256k1_accepts(pk, msg, sig, !secp256k1_rs_decodes(sig)) {
            Err(SigError::VerificationFailed)
        } else {
            Ok(())
        },
    }
}

fn to_array32(s: &[u8]) -> (a: [u8; 32])
    requires
        s@.len() == 32,
    ensures
        a@ == s@,
{
    let mut a = [0u8; 32];
    let mut i: usize = 0;
    while i < 32
        invariant
            s@.len() == 32,
            i <= 32,
            forall|j: int| 0 <= j < i ==> a@[j] == s@[j],
        decreases 32 - i,
    {
        a[i] = s[i];
        i = i + 1;
    }
    assert(a@ =~= s@);
    a
}

fn to_array64(s: &[u8]) -> (a: [u8; 64])
    requires
        s@.len() == 64,
    ensures
        a@ == s@,
{
    let mut a = [0u8; 64];
    let mut i: usize = 0;
    while i < 64
        invariant
            s@.len() == 64,
            i <= 64,
            forall|j: int| 0 <= j < i ==> a@[j] == s@[j],
        decreases 64 - i,
    {
        a[i] = s[i];
        i = i + 1;
    }
    assert(a@ =~= s@);
    a
}

fn verify_ed25519(public_key: &[u8], message: &[u8], signature: &[u8]) -> (r: Result<(), SigError>)
    ensures
        r == verify_outcome(SignatureAlgorithm::Ed25519, public_key@, message@, signature@),
{
    if public_key.len() != 32 {
        return classify_verification(false, false, false);
    }
    let pk = to_array32(public_key);
    let vk = match ed25519_public_key(&pk) {
        Some(k) => k,
        None => {
            return classify_verification(false, false, false);
        },
    };
    if signature.len() != 64 {
        return classify_verification(true, false, false);
    }
    let sig = to_array64(signature);
    let ok = ed25519_verify_strict(&vk, message, &sig);
    classify_verification(true, true, ok)
}

fn verify_secp256k1(public_key: &[u8], message: &[u8], signature: &[u8]) -> (r: Result<(), SigError>)
    ensures
        r == verify_outcome(SignatureAlgorithm::Secp256k1, public_key@, message@, signature@),
{
    if !secp256k1_key_check(public_key) {
        return classify_verification(false, false, false);
    }
    let rs = secp256k1_rs_check(signature);
    let der = if rs {
        false
    } else {
        secp256k1_der_check(signature)
    };
    if !rs && !der {
        return classify_verification(true, false, false);
    }
    let ok = secp256k1_verify(public_key, message, signature, !rs);
    classify_verification(true, true, ok)
}

/// Verifies `signature` over `message` for `public_key` under `alg`.
pub fn verify_signature(
    alg: SignatureAlgorithm,
    public_key: &[u8],
    message: &[u8],
    signature: &[u8],
) -> (r: Result<(), SigError>)
    ensures
        r == verify_outcome(alg, public_key@, message@, signature@),
{
    match alg {
        SignatureAlgorithm::Ed25519 => verify_ed25519(public_key, message, signature),
        SignatureAlgorithm::Secp256k1 => verify_secp256k1(public_key, message, signature),
    }
}

/// The bytes hashed into a key fingerprint: the algorithm name, `:`, and
/// the public key.
pub open spec fn fingerprint_input(alg: SignatureAlgorithm, pk: Seq<u8>) -> Seq<u8> {
    algorithm_name_bytes(alg) + seq![58u8] + pk
}

/// ASCII bytes of the algorithm's name.
pub open spec fn algorithm_name_bytes(alg: SignatureAlgorithm) -> Seq<u8> {
    match alg {
        SignatureAlgorithm::Ed25519 => seq![101u8, 100, 50, 53, 53, 49, 57],
        SignatureAlgorithm::Secp256k1 => seq![115u8, 101, 99, 112, 50, 53, 54, 107, 49],
    }
}

fn push_all(v: &mut Vec<u8>, s: &[u8])
    ensures
        final(v)@ == old(v)@ + s@,
{
    let mut i: usize = 0;
    while i < s.len()
        invariant
            i <= s@.len(),
            v@ == old(v)@ + s@.subrange(0, i as int),
        decreases s@.len() - i,
    {
        v.push(s[i]);
        assert(s@.subrange(0, i + 1) =~= s@.subrange(0, i as int).push(s@[i as int]));
        i = i + 1;
    }
    assert(s@.subrange(0, i as int) =~= s@);
}

fn algorithm_bytes(alg: SignatureAlgorithm) -> (v: Vec<u8>)
    ensures
        v@ == algorithm_name_bytes(alg),
{
    match alg {
        SignatureAlgorithm::Ed25519 => {
            let v: Vec<u8> = vec![101u8, 100, 50, 53, 53, 49, 57];
            v
        },
        SignatureAlgorithm::Secp256k1 => {
            let v: Vec<u8> = vec![115u8, 101, 99, 112, 50, 53, 54, 107, 49];
            v
        },
    }
}

/// Deterministic key fingerprint: lower-case hex of
/// `sha256(algorithm || ":" || public key)`.
pub fn fingerprint(alg: SignatureAlgorithm, public_key: &[u8]) -> (f: String)
    ensures
        f@ == hex_lower(sha256(fingerprint_input(alg, public_key@))),
        f@.len() == 64,
{
    let mut input = algorithm_bytes(alg);
    input.push(58u8);
    push_all(&mut input, public_key);
    assert(input@ =~= fingerprint_input(alg, public_key@));
    let d = sha256_digest(input.as_slice());
    proof {
        crate::crypto::lemma_hex_lower_len(d@);
    }
    hex_encode(d.as_slice())
}

/// One part of a cache-key input: its length in decimal, `:`, then its
/// bytes, so that the parts can be told apart again.
pub open spec fn framed(p: Seq<u8>) -> Seq<u8> {
    nat_digits(p.len()) + seq![58u8] + p
}

/// The bytes hashed into a verification-cache key: the algorithm name,
/// then key, message and signature, each framed by its length.
pub open spec fn cache_key_input(alg: SignatureAlgorithm, pk: Seq<u8>, msg: Seq<u8>, sig: Seq<u8>) -> Seq<u8> {
    algorithm_name_bytes(alg) + framed(pk) + framed(msg) + framed(sig)
}

/// A framed part followed by anything determines the part and the rest.
proof fn lemma_framed_unique(p: Seq<u8>, r: Seq<u8>, q: Seq<u8>, t: Seq<u8>)
    requires
        framed(p) + r == framed(q) + t,
    ensures
        p == q,
        r == t,
{
    lemma_nat_digits(p.len());
    lemma_nat_digits(q.len());
    let dp = nat_digits(p.len());
    let dq = nat_digits(q.len());
    let x = framed(p) + r;
    let y = framed(q) + t;
    assert(x == y);
    if dp.len() < dq.len() {
        let k = dp.len() as int;
        assert(x[k] == 58u8);
        assert(y[k] == dq[k]);
        assert(is_digit(dq[k]));
        assert(false);
    }
    if dq.len() < dp.len() {
        let k = dq.len() as int;
        assert(y[k] == 58u8);
        assert(x[k] == dp[k]);
        assert(is_digit(dp[k]));
        assert(false);
    }
    let n = dp.len() as int;
    assert(dp =~= x.subrange(0, n));
    assert(dq =~= y.subrange(0, n));
    assert(p.len() == q.len());
    assert(p =~= x.subrange(n + 1, n + 1 + p.len()));
    assert(q =~= y.subrange(n + 1, n + 1 + q.len()));
    assert(r =~= x.subrange(n + 1 + p.len(), x.len() as int));
    assert(t =~= y.subrange(n + 1 + q.len(), y.len() as int));
}

/// Different inputs give different cache-key inputs: the algorithm, key,
/// message and signature can all be read back from the bytes that are
/// hashed.
pub proof fn law_cache_key_input_injective(
    a1: SignatureAlgorithm,
    pk1: Seq<u8>,
    m1: Seq<u8>,
    s1: Seq<u8>,
    a2: SignatureAlgorithm,
    pk2: Seq<u8>,
    m2: Seq<u8>,
    s2: Seq<u8>,
)
    requires
        cache_key_input(a1, pk1, m1, s1) == cache_key_input(a2, pk2, m2, s2),
    ensures
        a1 == a2,
        pk1 == pk2,
        m1 == m2,
        s1 == s2,
{
    let x = cache_key_input(a1, pk1, m1, s1);
    let y = cache_key_input(a2, pk2, m2, s2);
    let n1 = algorithm_name_bytes(a1);
    let n2 = algorithm_name_bytes(a2);
    assert(x[0] == n1[0]);
    assert(y[0] == n2[0]);
    assert(a1 == a2);
    let rest1 = framed(pk1) + (framed(m1) + framed(s1));
    let rest2 = framed(pk2) + (framed(m2) + framed(s2));
    assert(x =~= n1 + rest1);
    assert(y =~= n1 + rest2);
    assert(rest1 =~= x.subrange(n1.len() as int, x.len() as int));
    assert(rest2 =~= y.subrange(n1.len() as int, y.len() as int));
    lemma_framed_unique(pk1, framed(m1) + framed(s1), pk2, framed(m2) + framed(s2));
    lemma_framed_unique(m1, framed(s1), m2, framed(s2));
    assert(framed(s1) + Seq::<u8>::empty() =~= framed(s1));
    assert(framed(s2) + Seq::<u8>::empty() =~= framed(s2));
    lemma_framed_unique(s1, Seq::<u8>::empty(), s2, Seq::<u8>::empty());
}

/// Appends a framed part.
fn push_framed(v: &mut Vec<u8>, p: &[u8])
    ensures
        final(v)@ == old(v)@ + framed(p@),
{
    let digits = u64_digits(p.len() as u64);
    push_all(v, digits.as_slice());
    v.push(58u8);
    push_all(v, p);
    assert(final(v)@ =~= old(v)@ + framed(p@));
}

/// Key of the verification cache: lower-case hex of the SHA-256 of all
/// inputs, each framed by its length.
pub fn cache_key(alg: SignatureAlgorithm, pk: &[u8], msg: &[u8], sig: &[u8]) -> (k: String)
    ensures
        k@ == hex_lower(sha256(cache_key_input(alg, pk@, msg@, sig@))),
{
    let mut input = algorithm_bytes(alg);
    push_framed(&mut input, pk);
    push_framed(&mut input, msg);
    push_framed(&mut input, sig);
    assert(input@ =~= cache_key_input(alg, pk@, msg@, sig@));
    let d = sha256_digest(input.as_slice());
    hex_encode(d.as_slice())
}

/// Key lengths each algorithm accepts: 32 bytes for Ed25519, SEC1
/// compressed (33) or uncompressed (65) for secp256k1.
pub open spec fn key_length_ok(alg: SignatureAlgorithm, len: nat) -> bool {
    match alg {
        SignatureAlgorithm::Ed25519 => len == 32,
        SignatureAlgorithm::Secp256k1 => len == 33 || len == 65,
    }
}

/// Rejects keys whose length does not fit the algorithm.
pub fn validate_public_key(alg: SignatureAlgorithm, pk: &[u8]) -> (r: Result<(), SigError>)
    ensures
        r == (if key_length_ok(alg, pk@.len()) {
            Ok(())
        } else {
            Err(SigError::InvalidKey)
        }),
{
    let ok = match alg {
        SignatureAlgorithm::Ed25519 => pk.len() == 32,
        SignatureAlgorithm::Secp256k1 => pk.len() == 33 || pk.len() == 65,
    };
    if ok {
        Ok(())
    } else {
        Err(SigError::InvalidKey)
    }
}


/// The view of an optional string.
pub open spec fn opt_view(o: Option<&str>) -> Option<Seq<char>> {
    match o {
        Some(s) => Some(s@),
        None => None,
    }
}

/// Encodings a signed message may be sent in.
pub open spec fn decode_message_spec(message: Seq<char>, encoding: Option<Seq<char>>) -> Option<Seq<u8>> {
    let enc = match encoding {
        Some(e) => e,
        None => "hex"@,
    };
    if enc == "hex"@ {
        hex_decode_spec(encode_utf8(trim(message)))
    } else if enc == "base64"@ {
        base64_standard_decode(encode_utf8(trim(message)))
    } else if enc == "utf8"@ {
        Some(encode_utf8(message))
    } else {
        None
    }
}

/// Decodes a signed message sent as (trimmed) hex, (trimmed) standard
/// base64, or raw UTF-8; hex when no encoding is named.
pub fn decode_message(message: &str, encoding: Option<&str>) -> (r: Result<Vec<u8>, ApiError>)
    ensures
        r matches Ok(v) ==> decode_message_spec(message@, opt_view(encoding)) == Some(v@),
        r is Err ==> decode_message_spec(message@, opt_view(encoding)) is None,
        r matches Err(e) ==> e.status == 400 && (e.code@ == "INVALID_MESSAGE"@ || e.code@
            == "INVALID_ENCODING"@),
{
    let enc = match encoding {
        Some(e) => e,
        None => "hex",
    };
    if str_eq(enc, "hex") {
        match hex_decode(trim_str(message).as_bytes()) {
            Some(v) => Ok(v),
            None => Err(ApiError::bad_request("INVALID_MESSAGE", "message is not valid hex")),
        }
    } else if str_eq(enc, "base64") {
        match b64_standard_decode(trim_str(message).as_bytes()) {
            Some(v) => Ok(v),
            None => Err(ApiError::bad_request("INVALID_MESSAGE", "message is not valid base64")),
        }
    } else if str_eq(enc, "utf8") {
        Ok(message.as_bytes_vec())
    } else {
        Err(ApiError::bad_request("INVALID_ENCODING", "encoding must be hex, base64, or utf8"))
    }
}

/// A signing time inside a key's validity window: not before `not_before`
/// and, when the key expires, not after `not_after`.
pub open spec fn in_window(t: i64, not_before: i64, not_after: Option<i64>) -> bool {
    t >= not_before && match not_after {
        Some(na) => t <= na,
        None => true,
    }
}

/// Whether a (claimed) signing time lies within a key's validity window.
pub fn timestamp_in_window(check_time: i64, not_before: i64, not_after: Option<i64>) -> (b: bool)
    ensures
        b == in_window(check_time, not_before, not_after),
{
    check_time >= not_before && match not_after {
        Some(na) => check_time <= na,
        None => true,
    }
}

/// The first reason, in order, that makes a verification fail.
#[derive(Debug, Clone, Copy, PartialEq, Eq, Structural)]
pub enum VerdictReason {
    CryptoFailed,
    KeyRevoked,
    OutsideWindow,
    ChainFailed,
    Valid,
}

impl VerdictReason {
    pub fn message(&self) -> (m: &'static str)
        ensures
            m@ == match self {
                VerdictReason::CryptoFailed => "cryptographic verification failed"@,
                VerdictReason::KeyRevoked => "signing key is revoked"@,
                VerdictReason::OutsideWindow => "signature timestamp outside key validity window"@,
                VerdictReason::ChainFailed => "certificate chain validation failed"@,
                VerdictReason::Valid => "signature is valid"@,
            },
    {
        match self {
            VerdictReason::CryptoFailed => "cryptographic verification failed",
            VerdictReason::KeyRevoked => "signing key is revoked",
            VerdictReason::OutsideWindow => "signature timestamp outside key validity window",
            VerdictReason::ChainFailed => "certificate chain validation failed",
            VerdictReason::Valid => "signature is valid",
        }
    }
}

/// The verdict of the verification pipeline: valid exactly when the
/// cryptographic check passed, the key is not revoked, the timestamp is in
/// the window and the chain (when checked) is valid; the reason names the
/// first failing check.
pub fn verification_verdict(
    crypto_valid: bool,
    revoked: bool,
    timestamp_valid: bool,
    chain_validated: Option<bool>,
) -> (r: (bool, VerdictReason))
    ensures
        r.0 == (crypto_valid && !revoked && timestamp_valid && chain_validated != Some(false)),
        r.1 == (if !crypto_valid {
            VerdictReason::CryptoFailed
        } else if revoked {
            VerdictReason::KeyRevoked
        } else if !timestamp_valid {
            VerdictReason::OutsideWindow
        } else if chain_validated == Some(false) {
            VerdictReason::ChainFailed
        } else {
            VerdictReason::Valid
        }),
        r.0 <==> r.1 == VerdictReason::Valid,
{
    let chain_ok = match chain_validated {
        Some(b) => b,
        None => true,
    };
    let valid = crypto_valid && !revoked && timestamp_valid && chain_ok;
    let reason = if !crypto_valid {
        VerdictReason::CryptoFailed
    } else if revoked {
        VerdictReason::KeyRevoked
    } else if !timestamp_valid {
        VerdictReason::OutsideWindow
    } else if !chain_ok {
        VerdictReason::ChainFailed
    } else {
        VerdictReason::Valid
    };
    (valid, reason)
}

/// Revocation of a key.
#[derive(Debug, Clone)]
pub struct RevokeRequest {
    pub reason: Option<String>,
    pub revoked_by: Option<String>,
}

/// The answer of a verification.
#[derive(Debug, Clone)]
pub struct VerifyResponse {
    pub valid: bool,
    pub algorithm: String,
    pub key_id: Option<String>,
    pub revoked: bool,
    pub timestamp_valid: bool,
    pub chain_validated: Option<bool>,
    pub cache_hit: bool,
    pub reason: String,
}

/// The answer of a chain validation: the key ids walked and why it ended.
#[derive(Debug, Clone)]
pub struct ChainResponse {
    pub valid: bool,
    pub path: Vec<String>,
    pub reason: String,
}

/// The answer of a verification from the outcome of its checks.
pub fn verify_response(
    alg: SignatureAlgorithm,
    key_id: Option<String>,
    crypto_valid: bool,
    revoked: bool,
    timestamp_valid: bool,
    chain_validated: Option<bool>,
    cache_hit: bool,
) -> (r: VerifyResponse)
    ensures
        r.valid == verification_verdict_spec(crypto_valid, revoked, timestamp_valid, chain_validated).0,
        r.reason@ == verdict_message(verification_verdict_spec(crypto_valid, revoked, timestamp_valid, chain_validated).1),
        r.algorithm@ == algorithm_name(alg),
        r.key_id == key_id,
        r.revoked == revoked,
        r.timestamp_valid == timestamp_valid,
        r.chain_validated == chain_validated,
        r.cache_hit == cache_hit,
{
    let (valid, reason) = verification_verdict(crypto_valid, revoked, timestamp_valid, chain_validated);
    VerifyResponse {
        valid,
        algorithm: String::from_str(alg.as_str()),
        key_id,
        revoked,
        timestamp_valid,
        chain_validated,
        cache_hit,
        reason: String::from_str(reason.message()),
    }
}

/// The verdict as a function of the checks.
pub open spec fn verification_verdict_spec(
    crypto_valid: bool,
    revoked: bool,
    timestamp_valid: bool,
    chain_validated: Option<bool>,
) -> (bool, VerdictReason) {
    (
        crypto_valid && !revoked && timestamp_valid && chain_validated != Some(false),
        if !crypto_valid {
            VerdictReason::CryptoFailed
        } else if revoked {
            VerdictReason::KeyRevoked
        } else if !timestamp_valid {
            VerdictReason::OutsideWindow
        } else if chain_validated == Some(false) {
            VerdictReason::ChainFailed
        } else {
            VerdictReason::Valid
        },
    )
}

pub open spec fn verdict_message(r: VerdictReason) -> Seq<char> {
    match r {
        VerdictReason::CryptoFailed => "cryptographic verification failed"@,
        VerdictReason::KeyRevoked => "signing key is revoked"@,
        VerdictReason::OutsideWindow => "signature timestamp outside key validity window"@,
        VerdictReason::ChainFailed => "certificate chain validation failed"@,
        VerdictReason::Valid => "signature is valid"@,
    }
}

// ── Certificate chain ────────────────────────────────────────────────────

/// The fields of a registered signing key that the chain walk reads.
/// Times are seconds since the Unix epoch.
#[derive(Debug, Clone)]
pub struct ChainKey {
    pub key_id: String,
    pub algorithm: String,
    /// Standard base64 of the public key.
    pub public_key: String,
    pub parent_key_id: Option<String>,
    /// Standard base64 of the parent's signature over this key's raw
    /// public-key bytes.
    pub cert_signature: Option<String>,
    pub is_root: bool,
    pub not_before: i64,
    pub not_after: Option<i64>,
    pub status: String,
}

/// Why a chain is not valid.
#[derive(Debug, Clone, PartialEq, Eq)]
pub enum ChainFailure {
    StartNotFound,
    Revoked(String),
    OutsideWindow(String),
    NoRoot,
    NoCertSignature(String),
    ParentNotFound(String),
    BadCertSignature(String),
    TooDeep,
}

/// The human-readable reason of a chain failure.
pub open spec fn failure_reason(f: ChainFailure) -> Seq<char> {
    match f {
        ChainFailure::StartNotFound => "start key not found"@,
        ChainFailure::Revoked(k) => "key "@ + k@ + " is revoked"@,
        ChainFailure::OutsideWindow(k) => "key "@ + k@ + " is outside its validity window"@,
        ChainFailure::NoRoot => "chain ends without reaching a trusted root"@,
        ChainFailure::NoCertSignature(k) => "key "@ + k@ + " has no certificate signature"@,
        ChainFailure::ParentNotFound(p) => "parent key "@ + p@ + " not found"@,
        ChainFailure::BadCertSignature(k) => "invalid certificate signature for key "@ + k@,
        ChainFailure::TooDeep => "certificate chain exceeds maximum depth"@,
    }
}

impl ChainFailure {
    /// The human-readable reason.
    pub fn reason(&self) -> (r: String)
        ensures
            r@ == failure_reason(*self),
    {
        match self {
            ChainFailure::StartNotFound => String::from_str("start key not found"),
            ChainFailure::Revoked(k) => {
                let mut r = String::from_str("key ");
                r.append(k.as_str());
                r.append(" is revoked");
                r
            },
            ChainFailure::OutsideWindow(k) => {
                let mut r = String::from_str("key ");
                r.append(k.as_str());
                r.append(" is outside its validity window");
                r
            },
            ChainFailure::NoRoot => String::from_str("chain ends without reaching a trusted root"),
            ChainFailure::NoCertSignature(k) => {
                let mut r = String::from_str("key ");
                r.append(k.as_str());
                r.append(" has no certificate signature");
                r
            },
            ChainFailure::ParentNotFound(p) => {
                let mut r = String::from_str("parent key ");
                r.append(p.as_str());
                r.append(" not found");
                r
            },
            ChainFailure::BadCertSignature(k) => {
                let mut r = String::from_str("invalid certificate signature for key ");
                r.append(k.as_str());
                r
            },
            ChainFailure::TooDeep => String::from_str("certificate chain exceeds maximum depth"),
        }
    }
}

/// The reason reported for a chain anchored at a root.
pub fn anchored_reason() -> (r: String)
    ensures
        r@ == "chain anchored to a trusted root"@,
{
    String::from_str("chain anchored to a trusted root")
}

/// What the walk does after checking one key.
#[derive(Debug, Clone, PartialEq, Eq)]
pub enum ChainStep {
    Invalid(ChainFailure),
    /// The key is a trusted root: the chain is valid.
    Anchored,
    /// Move up to the parent, whose signature over this key must verify.
    Climb { parent_id: String },
}

/// The checks on one key of the chain, in order: revocation (listed or by
/// status), validity window at `now`, root, parent link, certificate
/// signature present.
pub open spec fn hop_step(key: ChainKey, revoked_listed: bool, now: i64) -> ChainStep {
    if revoked_listed || key.status@ == "revoked"@ {
        ChainStep::Invalid(ChainFailure::Revoked(key.key_id))
    } else if !in_window(now, key.not_before, key.not_after) {
        ChainStep::Invalid(ChainFailure::OutsideWindow(key.key_id))
    } else if key.is_root {
        ChainStep::Anchored
    } else if key.parent_key_id is None {
        ChainStep::Invalid(ChainFailure::NoRoot)
    } else if key.cert_signature is None {
        ChainStep::Invalid(ChainFailure::NoCertSignature(key.key_id))
    } else {
        ChainStep::Climb { parent_id: key.parent_key_id->0 }
    }
}

/// Checks one key of the chain.
pub fn check_hop(key: &ChainKey, revoked_listed: bool, now: i64) -> (s: ChainStep)
    ensures
        s == hop_step(*key, revoked_listed, now),
{
    if revoked_listed || str_eq(key.status.as_str(), "revoked") {
        ChainStep::Invalid(ChainFailure::Revoked(key.key_id.clone()))
    } else if !timestamp_in_window(now, key.not_before, key.not_after) {
        ChainStep::Invalid(ChainFailure::OutsideWindow(key.key_id.clone()))
    } else if key.is_root {
        ChainStep::Anchored
    } else {
        match &key.parent_key_id {
            None => ChainStep::Invalid(ChainFailure::NoRoot),
            Some(p) => match &key.cert_signature {
                None => ChainStep::Invalid(ChainFailure::NoCertSignature(key.key_id.clone())),
                Some(_) => ChainStep::Climb { parent_id: p.clone() },
            },
        }
    }
}

/// Whether `parent` certified `child`: the parent's stored algorithm and
/// key, and the child's key and certificate signature, must decode, and
/// the parent's key must verify the signature over the child's key bytes.
/// Decoding failures of stored data are internal errors.
pub fn check_certification(parent: &ChainKey, child: &ChainKey) -> (r: Result<bool, ApiError>)
    requires
        child.cert_signature is Some,
    ensures
        r matches Ok(b) ==> {
            &&& parse_algorithm_spec(parent.algorithm@) matches Some(alg)
            &&& base64_standard_decode(encode_utf8(trim(parent.public_key@))) matches Some(ppk)
            &&& base64_standard_decode(encode_utf8(trim(child.public_key@))) matches Some(cpk)
            &&& base64_standard_decode(encode_utf8(trim(child.cert_signature->0@))) matches Some(
                sig,
            )
            &&& b == (verify_outcome(alg, ppk, cpk, sig) is Ok)
        },
        r matches Err(e) ==> e.status == 500,
        r is Err ==> {
            ||| parse_algorithm_spec(parent.algorithm@) is None
            ||| base64_standard_decode(encode_utf8(trim(parent.public_key@))) is None
            ||| base64_standard_decode(encode_utf8(trim(child.public_key@))) is None
            ||| base64_standard_decode(encode_utf8(trim(child.cert_signature->0@))) is None
        },
{
    let alg = match SignatureAlgorithm::parse(parent.algorithm.as_str()) {
        Some(a) => a,
        None => {
            return Err(
                ApiError::internal_error("BAD_STORED_ALGORITHM", "parent key has invalid algorithm"),
            );
        },
    };
    let parent_pk = match b64_standard_decode(trim_str(parent.public_key.as_str()).as_bytes()) {
        Some(v) => v,
        None => {
            return Err(ApiError::internal_error("BAD_STORED_KEY", "parent public key not base64"));
        },
    };
    let child_pk = match b64_standard_decode(trim_str(child.public_key.as_str()).as_bytes()) {
        Some(v) => v,
        None => {
            return Err(ApiError::internal_error("BAD_STORED_KEY", "child public key not base64"));
        },
    };
    let cert = match &child.cert_signature {
        Some(c) => c,
        None => {
            return Err(ApiError::internal_error("BAD_CERT_SIG", "cert signature not base64"));
        },
    };
    let cert_sig = match b64_standard_decode(trim_str(cert.as_str()).as_bytes()) {
        Some(v) => v,
        None => {
            return Err(ApiError::internal_error("BAD_CERT_SIG", "cert signature not base64"));
        },
    };
    let r = verify_signature(alg, parent_pk.as_slice(), child_pk.as_slice(), cert_sig.as_slice());
    Ok(r.is_ok())
}

/// A walk up a certificate chain: the key ids visited so far.
#[derive(Debug, Clone)]
pub struct ChainWalk {
    pub path: Vec<String>,
}

impl ChainWalk {
    pub fn new() -> (w: Self)
        ensures
            w.path@.len() == 0,
    {
        ChainWalk { path: Vec::new() }
    }

    /// `true` once the walk has visited the maximum number of keys.
    pub fn exhausted(&self) -> (b: bool)
        ensures
            b == (self.path@.len() >= MAX_CHAIN_DEPTH),
    {
        self.path.len() >= MAX_CHAIN_DEPTH
    }

    /// Visits one key: records it on the path and checks it.
    pub fn visit(&mut self, key: &ChainKey, revoked_listed: bool, now: i64) -> (s: ChainStep)
        requires
            old(self).path@.len() < MAX_CHAIN_DEPTH,
        ensures
            final(self).path@ == old(self).path@.push(key.key_id),
            s == hop_step(*key, revoked_listed, now),
    {
        self.path.push(key.key_id.clone());
        check_hop(key, revoked_listed, now)
    }
}

/// The first registered key with id `id`.
pub open spec fn find_key(keys: Seq<ChainKey>, id: Seq<char>) -> Option<ChainKey>
    decreases keys.len(),
{
    if keys.len() == 0 {
        None
    } else if keys[0].key_id@ == id {
        Some(keys[0])
    } else {
        find_key(keys.skip(1), id)
    }
}

/// Whether `parent` certified `child`; `None` when stored data does not
/// decode (the algorithm, either key, or the certificate signature).
pub open spec fn certification(parent: ChainKey, child: ChainKey) -> Option<bool> {
    match parse_algorithm_spec(parent.algorithm@) {
        None => None,
        Some(alg) => match base64_standard_decode(encode_utf8(trim(parent.public_key@))) {
            None => None,
            Some(ppk) => match base64_standard_decode(encode_utf8(trim(child.public_key@))) {
                None => None,
                Some(cpk) => match child.cert_signature {
                    None => None,
                    Some(c) => match base64_standard_decode(encode_utf8(trim(c@))) {
                        None => None,
                        Some(sig) => Some(verify_outcome(alg, ppk, cpk, sig) is Ok),
                    },
                },
            },
        },
    }
}

/// How a chain walk ended: anchored at a root, refused for a reason, or
/// stopped by stored data that does not decode.
pub enum ChainEnd {
    Anchored,
    Invalid(ChainFailure),
    Broken,
}

/// The walk from `cur` with `fuel` more keys allowed: how it ends and the
/// ids of the keys it visits.
pub open spec fn chain_walk(keys: Seq<ChainKey>, revoked: Seq<Seq<char>>, cur: ChainKey, now: i64, fuel: nat) -> (
    ChainEnd,
    Seq<Seq<char>>,
)
    decreases fuel,
{
    if fuel == 0 {
        (ChainEnd::Invalid(ChainFailure::TooDeep), Seq::empty())
    } else {
        let here = seq![cur.key_id@];
        match hop_step(cur, revoked.contains(cur.key_id@), now) {
            ChainStep::Invalid(f) => (ChainEnd::Invalid(f), here),
            ChainStep::Anchored => (ChainEnd::Anchored, here),
            ChainStep::Climb { parent_id } => match find_key(keys, parent_id@) {
                None => (ChainEnd::Invalid(ChainFailure::ParentNotFound(parent_id)), here),
                Some(p) => match certification(p, cur) {
                    None => (ChainEnd::Broken, here),
                    Some(false) => (ChainEnd::Invalid(ChainFailure::BadCertSignature(cur.key_id)), here),
                    Some(true) => {
                        let rest = chain_walk(keys, revoked, p, now, (fuel - 1) as nat);
                        (rest.0, here + rest.1)
                    },
                },
            },
        }
    }
}

fn find_key_index(keys: &Vec<ChainKey>, id: &str) -> (r: Option<usize>)
    ensures
        match r {
            Some(i) => i < keys@.len() && find_key(keys@, id@) == Some(keys@[i as int]),
            None => find_key(keys@, id@) is None,
        },
{
    let mut i: usize = 0;
    assert(keys@.skip(0) =~= keys@);
    while i < keys.len()
        invariant
            i <= keys@.len(),
            find_key(keys@, id@) == find_key(keys@.skip(i as int), id@),
        decreases keys@.len() - i,
    {
        assert(keys@.skip(i as int).skip(1) =~= keys@.skip(i + 1));
        if str_eq(keys[i].key_id.as_str(), id) {
            return Some(i);
        }
        i = i + 1;
    }
    None
}

fn listed(revoked: &Vec<String>, id: &String) -> (r: bool)
    ensures
        r == revoked@.map_values(|x: String| x@).contains(id@),
{
    let ghost rv = revoked@.map_values(|x: String| x@);
    let mut i: usize = 0;
    while i < revoked.len()
        invariant
            i <= revoked@.len(),
            rv == revoked@.map_values(|x: String| x@),
            forall|j: int| 0 <= j < i ==> rv[j] != id@,
        decreases revoked@.len() - i,
    {
        if str_eq(revoked[i].as_str(), id.as_str()) {
            assert(rv[i as int] == id@);
            return true;
        }
        i = i + 1;
    }
    false
}

/// Walks the certificate chain from `start_key_id` up to a trusted root
/// over the registered `keys` (with the ids on the revocation list), at
/// `now`: each key is checked by `check_hop`, and each parent must have
/// certified its child.  The answer gives the ids walked and the reason;
/// stored data that does not decode is an internal error.
pub fn validate_chain(keys: &Vec<ChainKey>, revoked: &Vec<String>, start_key_id: &str, now: i64) -> (r:
    Result<ChainResponse, ApiError>)
    ensures
        match find_key(keys@, start_key_id@) {
            None => r matches Ok(c) && !c.valid && c.path@.len() == 0 && c.reason@
                == failure_reason(ChainFailure::StartNotFound),
            Some(k) => {
                let w = chain_walk(keys@, revoked@.map_values(|x: String| x@), k, now, MAX_CHAIN_DEPTH as nat);
                match w.0 {
                    ChainEnd::Broken => r matches Err(e) && e.status == 500,
                    ChainEnd::Anchored => r matches Ok(c) && c.valid && c.path@.map_values(|x: String| x@)
                        == w.1 && c.reason@ == "chain anchored to a trusted root"@,
                    ChainEnd::Invalid(f) => r matches Ok(c) && !c.valid && c.path@.map_values(
                        |x: String| x@,
                    ) == w.1 && c.reason@ == failure_reason(f),
                }
            },
        },
{
    let ghost rv = revoked@.map_values(|x: String| x@);
    let mut cur: usize = match find_key_index(keys, start_key_id) {
        Some(i) => i,
        None => {
            return Ok(
                ChainResponse {
                    valid: false,
                    path: Vec::new(),
                    reason: ChainFailure::StartNotFound.reason(),
                },
            );
        },
    };
    let ghost total = chain_walk(keys@, rv, keys@[cur as int], now, MAX_CHAIN_DEPTH as nat);
    let mut walk = ChainWalk::new();
    assert(walk.path@.map_values(|x: String| x@) =~= Seq::<Seq<char>>::empty());
    loop
        invariant
            cur < keys@.len(),
            walk.path@.len() <= MAX_CHAIN_DEPTH,
            rv == revoked@.map_values(|x: String| x@),
            find_key(keys@, start_key_id@) is Some,
            total == chain_walk(keys@, rv, find_key(keys@, start_key_id@)->0, now, MAX_CHAIN_DEPTH as nat),
            total.0 == chain_walk(keys@, rv, keys@[cur as int], now, (MAX_CHAIN_DEPTH - walk.path@.len()) as nat).0,
            total.1 == walk.path@.map_values(|x: String| x@) + chain_walk(
                keys@,
                rv,
                keys@[cur as int],
                now,
                (MAX_CHAIN_DEPTH - walk.path@.len()) as nat,
            ).1,
        decreases MAX_CHAIN_DEPTH - walk.path@.len(),
    {
        let ghost before = walk.path@.map_values(|x: String| x@);
        let ghost fuel = (MAX_CHAIN_DEPTH - walk.path@.len()) as nat;
        if walk.exhausted() {
            assert(fuel == 0);
            assert(chain_walk(keys@, rv, keys@[cur as int], now, 0).0 == ChainEnd::Invalid(ChainFailure::TooDeep));
            assert(total.1 =~= walk.path@.map_values(|x: String| x@));
            return Ok(
                ChainResponse { valid: false, path: walk.path, reason: ChainFailure::TooDeep.reason() },
            );
        }
        let is_listed = listed(revoked, &keys[cur].key_id);
        let step = walk.visit(&keys[cur], is_listed, now);
        assert(walk.path@.map_values(|x: String| x@) =~= before + seq![keys@[cur as int].key_id@]);
        assert(is_listed == rv.contains(keys@[cur as int].key_id@));
        match step {
            ChainStep::Invalid(f) => {
                assert(chain_walk(keys@, rv, keys@[cur as int], now, fuel).0 == ChainEnd::Invalid(f));
                assert(total.1 =~= walk.path@.map_values(|x: String| x@));
                return Ok(ChainResponse { valid: false, path: walk.path, reason: f.reason() });
            },
            ChainStep::Anchored => {
                return Ok(ChainResponse { valid: true, path: walk.path, reason: anchored_reason() });
            },
            ChainStep::Climb { parent_id } => {
                let p = match find_key_index(keys, parent_id.as_str()) {
                    Some(p) => p,
                    None => {
                        let f = ChainFailure::ParentNotFound(parent_id);
                        assert(chain_walk(keys@, rv, keys@[cur as int], now, fuel).0 == ChainEnd::Invalid(f));
                        assert(total.1 =~= walk.path@.map_values(|x: String| x@));
                        return Ok(ChainResponse { valid: false, path: walk.path, reason: f.reason() });
                    },
                };
                match check_certification(&keys[p], &keys[cur]) {
                    Err(e) => {
                        return Err(e);
                    },
                    Ok(false) => {
                        let f = ChainFailure::BadCertSignature(keys[cur].key_id.clone());
                        return Ok(ChainResponse { valid: false, path: walk.path, reason: f.reason() });
                    },
                    Ok(true) => {
                        let ghost rest = chain_walk(keys@, rv, keys@[p as int], now, (fuel - 1) as nat);
                        assert(total.1 =~= walk.path@.map_values(|x: String| x@) + rest.1);
                        cur = p;
                    },
                }
            },
        }
    }
}

/// A chain found valid is at most `fuel` keys long, and no key on it is on
/// the revocation list.
pub proof fn law_anchored_chain_avoids_revoked(
    keys: Seq<ChainKey>,
    revoked: Seq<Seq<char>>,
    cur: ChainKey,
    now: i64,
    fuel: nat,
)
    ensures
        chain_walk(keys, revoked, cur, now, fuel).0 is Anchored ==> {
            let path = chain_walk(keys, revoked, cur, now, fuel).1;
            &&& 1 <= path.len() <= fuel
            &&& forall|j: int| 0 <= j < path.len() ==> !revoked.contains(#[trigger] path[j])
        },
    decreases fuel,
{
    if fuel > 0 {
        if let ChainStep::Climb { parent_id } = hop_step(cur, revoked.contains(cur.key_id@), now) {
            if let Some(p) = find_key(keys, parent_id@) {
                law_anchored_chain_avoids_revoked(keys, revoked, p, now, (fuel - 1) as nat);
                let rest = chain_walk(keys, revoked, p, now, (fuel - 1) as nat);
                let path = chain_walk(keys, revoked, cur, now, fuel).1;
                if chain_walk(keys, revoked, cur, now, fuel).0 is Anchored {
                    assert(certification(p, cur) == Some(true));
                    assert(path =~= seq![cur.key_id@] + rest.1);
                    assert forall|j: int| 0 <= j < path.len() implies !revoked.contains(#[trigger] path[j]) by {
                        if j > 0 {
                            assert(path[j] == rest.1[j - 1]);
                        }
                    }
                }
            }
        }
    }
}

/// A walk that visits keys in order ends anchored only at a root key whose
/// checks all passed, within the depth limit.
pub proof fn law_anchored_only_at_valid_root(key: ChainKey, revoked_listed: bool, now: i64)
    ensures
        hop_step(key, revoked_listed, now) == ChainStep::Anchored ==> {
            &&& key.is_root
            &&& !revoked_listed
            &&& key.status@ != "revoked"@
            &&& in_window(now, key.not_before, key.not_after)
        },
{
}

/// A key that is revoked, by the list or by its own status, stops the walk
/// as revoked, whatever else holds of it (a root too).
pub proof fn law_revoked_key_refused(key: ChainKey, revoked_listed: bool, now: i64)
    ensures
        revoked_listed || key.status@ == "revoked"@ ==> hop_step(key, revoked_listed, now)
            == ChainStep::Invalid(ChainFailure::Revoked(key.key_id)),
{
}

proof fn lemma_find_key_id(keys: Seq<ChainKey>, id: Seq<char>)
    ensures
        find_key(keys, id) matches Some(k) ==> k.key_id@ == id,
    decreases keys.len(),
{
    if keys.len() > 0 && keys[0].key_id@ != id {
        lemma_find_key_id(keys.skip(1), id);
    }
}

/// A chain found valid starts at the key it was asked about, and no key it
/// walked has the status `"revoked"`: neither that key nor any key looked
/// up by id on the way to the root.
pub proof fn law_anchored_chain_has_no_revoked_status(
    keys: Seq<ChainKey>,
    revoked: Seq<Seq<char>>,
    cur: ChainKey,
    now: i64,
    fuel: nat,
)
    ensures
        chain_walk(keys, revoked, cur, now, fuel).0 is Anchored ==> {
            let path = chain_walk(keys, revoked, cur, now, fuel).1;
            &&& path.len() >= 1
            &&& path[0] == cur.key_id@
            &&& cur.status@ != "revoked"@
            &&& forall|j: int| 1 <= j < path.len() ==> (#[trigger] find_key(keys, path[j]) matches Some(k)
                && k.status@ != "revoked"@)
        },
    decreases fuel,
{
    if fuel > 0 {
        if let ChainStep::Climb { parent_id } = hop_step(cur, revoked.contains(cur.key_id@), now) {
            if let Some(p) = find_key(keys, parent_id@) {
                law_anchored_chain_has_no_revoked_status(keys, revoked, p, now, (fuel - 1) as nat);
                lemma_find_key_id(keys, parent_id@);
                let rest = chain_walk(keys, revoked, p, now, (fuel - 1) as nat);
                let path = chain_walk(keys, revoked, cur, now, fuel).1;
                if chain_walk(keys, revoked, cur, now, fuel).0 is Anchored {
                    assert(certification(p, cur) == Some(true));
                    assert(path =~= seq![cur.key_id@] + rest.1);
                    assert forall|j: int| 1 <= j < path.len() implies (#[trigger] find_key(keys, path[j]) matches Some(k)
                        && k.status@ != "revoked"@) by {
                        assert(path[j] == rest.1[j - 1]);
                        if j > 1 {
                            assert(find_key(keys, rest.1[j - 1]) matches Some(k) && k.status@ != "revoked"@);
                        }
                    }
                }
            }
        }
    }
}

// ── Verification cache ───────────────────────────────────────────────────

/// A least-recently-used cache of verification results (`lru::LruCache`
/// keyed by the cache key, holding the result and when it was stored).
#[verifier::external_body]
pub struct VerifyCache {
    inner: lru::LruCache<String, (bool, Instant)>,
}

/// The results held by the cache, by key.
pub uninterp spec fn verify_cache_entries(c: VerifyCache) -> Map<Seq<char>, bool>;

/// The capacity the cache was made with.
pub uninterp spec fn verify_cache_capacity(c: VerifyCache) -> nat;

impl VerifyCache {
    /// `LruCache::new`: an empty cache holding at most `capacity` entries.
    #[verifier::external_body]
    pub fn new(capacity: usize) -> (c: Self)
        requires
            capacity > 0,
        ensures
            verify_cache_entries(c).dom().is_empty(),
            verify_cache_capacity(c) == capacity,
    {
        VerifyCache { inner: lru::LruCache::new(std::num::NonZeroUsize::new(capacity).unwrap()) }
    }

    /// `LruCache::get`: the stored result and time of a key.  The key
    /// becomes most recently used; the contents do not change.
    #[verifier::external_body]
    fn lookup(&mut self, key: &String) -> (r: Option<(bool, Instant)>)
        ensures
            verify_cache_entries(*final(self)) == verify_cache_entries(*old(self)),
            verify_cache_capacity(*final(self)) == verify_cache_capacity(*old(self)),
            r is Some == verify_cache_entries(*old(self)).contains_key(key@),
            r matches Some(e) ==> e.0 == verify_cache_entries(*old(self))[key@],
    {
        self.inner.get(key).copied()
    }

    /// `LruCache::put`: stores a result.  When the key is new and the
    /// cache is full, the least recently used entry is evicted; every other
    /// entry stays.
    #[verifier::external_body]
    fn store(&mut self, key: String, valid: bool, at: Instant)
        ensures
            verify_cache_capacity(*final(self)) == verify_cache_capacity(*old(self)),
            verify_cache_entries(*final(self)).contains_key(key@),
            verify_cache_entries(*final(self))[key@] == valid,
            forall|k: Seq<char>|
                #![trigger verify_cache_entries(*final(self)).contains_key(k)]
                k != key@ && verify_cache_entries(*final(self)).contains_key(k) ==> verify_cache_entries(
                    *old(self),
                ).contains_key(k) && verify_cache_entries(*final(self))[k] == verify_cache_entries(
                    *old(self),
                )[k],
            (verify_cache_entries(*old(self)).contains_key(key@) || verify_cache_entries(
                *old(self),
            ).dom().len() < verify_cache_capacity(*old(self))) ==> forall|k: Seq<char>|
                #![trigger verify_cache_entries(*old(self)).contains_key(k)]
                k != key@ && verify_cache_entries(*old(self)).contains_key(k)
                    ==> verify_cache_entries(*final(self)).contains_key(k),
    {
        self.inner.put(key, (valid, at));
    }

    /// `LruCache::clear`: drops every entry.
    #[verifier::external_body]
    pub fn clear(&mut self)
        ensures
            verify_cache_entries(*final(self)).dom().is_empty(),
            verify_cache_capacity(*final(self)) == verify_cache_capacity(*old(self)),
    {
        self.inner.clear();
    }
}

/// Every cached result is the outcome of verifying some inputs whose cache
/// key is the entry's key.
pub open spec fn cache_sound(entries: Map<Seq<char>, bool>) -> bool {
    forall|k: Seq<char>|
        #![trigger entries.contains_key(k)]
        entries.contains_key(k) ==> exists|alg: SignatureAlgorithm, pk: Seq<u8>, msg: Seq<u8>, sig: Seq<u8>|
            k == hex_lower(sha256(cache_key_input(alg, pk, msg, sig))) && entries[k] == (
            verify_outcome(alg, pk, msg, sig) is Ok)
}

/// Some other inputs share the cache key of these: their framed inputs
/// differ, yet hash to the same SHA-256 digest.
pub open spec fn cache_key_collides(alg: SignatureAlgorithm, pk: Seq<u8>, msg: Seq<u8>, sig: Seq<u8>) -> bool {
    exists|a: SignatureAlgorithm, p: Seq<u8>, m: Seq<u8>, s: Seq<u8>|
        cache_key_input(a, p, m, s) != cache_key_input(alg, pk, msg, sig) && #[trigger] hex_lower(
            sha256(cache_key_input(a, p, m, s)),
        ) == hex_lower(sha256(cache_key_input(alg, pk, msg, sig)))
}

/// A stored result of that age is still served.
pub open spec fn cached_fresh(age_secs: u64, ttl_secs: u64) -> bool {
    age_secs < ttl_secs
}

/// A stored result `age_secs` old is served while it is younger than the
/// cache lifetime.
pub fn cached_is_fresh(age_secs: u64, ttl_secs: u64) -> (b: bool)
    ensures
        b == cached_fresh(age_secs, ttl_secs),
{
    age_secs < ttl_secs
}

/// The result served from the cache for a lookup that found `stored`, an
/// entry `age_secs` old: the stored result while it is fresh, nothing
/// otherwise.
pub fn cached_result(stored: Option<bool>, age_secs: u64, ttl_secs: u64) -> (r: Option<bool>)
    ensures
        r == (match stored {
            Some(v) => if age_secs < ttl_secs {
                Some(v)
            } else {
                None::<bool>
            },
            None => None::<bool>,
        }),
{
    match stored {
        Some(v) => if cached_is_fresh(age_secs, ttl_secs) {
            Some(v)
        } else {
            None
        },
        None => None,
    }
}

/// Verifies with the cache.  A stored result younger than `ttl_secs` is
/// returned as a hit; otherwise the signature is verified and the result
/// stored.  Returns `(valid, cache_hit)`.  How old the stored entry is
/// comes from the clock: a hit is served only for an age below
/// `ttl_secs`, so a zero lifetime never hits.  Keys frame every input by
/// its length, so unless the SHA-256 digests of two different framed
/// inputs coincide, the result is that of verifying these very inputs.
pub fn verify_cached(
    cache: &mut VerifyCache,
    ttl_secs: u64,
    alg: SignatureAlgorithm,
    pk: &[u8],
    msg: &[u8],
    sig: &[u8],
) -> (r: (bool, bool))
    requires
        cache_sound(verify_cache_entries(*old(cache))),
    ensures
        cache_sound(verify_cache_entries(*final(cache))),
        verify_cache_capacity(*final(cache)) == verify_cache_capacity(*old(cache)),
        !r.1 ==> r.0 == (verify_outcome(alg, pk@, msg@, sig@) is Ok),
        !r.1 ==> verify_cache_entries(*final(cache))[hex_lower(
            sha256(cache_key_input(alg, pk@, msg@, sig@)),
        )] == r.0,
        r.1 ==> verify_cache_entries(*final(cache)) == verify_cache_entries(*old(cache)),
        r.1 ==> verify_cache_entries(*old(cache)).contains_key(
            hex_lower(sha256(cache_key_input(alg, pk@, msg@, sig@))),
        ) && verify_cache_entries(*old(cache))[hex_lower(
            sha256(cache_key_input(alg, pk@, msg@, sig@)),
        )] == r.0,
        r.1 ==> exists|age_secs: u64| #[trigger] cached_fresh(age_secs, ttl_secs),
        ttl_secs == 0 ==> !r.1,
        !cache_key_collides(alg, pk@, msg@, sig@) ==> r.0 == (verify_outcome(alg, pk@, msg@, sig@) is Ok),
{
    let key = cache_key(alg, pk, msg, sig);
    match cache.lookup(&key) {
        Some((valid, at)) => {
            let age = elapsed_secs(&at);
            if let Some(v) = cached_result(Some(valid), age, ttl_secs) {
                assert(cached_fresh(age, ttl_secs));
                proof {
                    let e = verify_cache_entries(*cache);
                    let k = key@;
                    assert(e.contains_key(k));
                    let (a, p, m, s) = choose|a: SignatureAlgorithm, p: Seq<u8>, m: Seq<u8>, s: Seq<u8>|
                        k == hex_lower(sha256(cache_key_input(a, p, m, s))) && e[k] == (
                        verify_outcome(a, p, m, s) is Ok);
                    if !cache_key_collides(alg, pk@, msg@, sig@) {
                        assert(cache_key_input(a, p, m, s) == cache_key_input(alg, pk@, msg@, sig@));
                        law_cache_key_input_injective(a, p, m, s, alg, pk@, msg@, sig@);
                    }
                }
                return (v, true);
            }
        },
        None => {},
    }
    let valid = verify_signature(alg, pk, msg, sig).is_ok();
    let ghost old_entries = verify_cache_entries(*cache);
    cache.store(key, valid, crate::clock::instant_now());
    proof {
        let e = verify_cache_entries(*cache);
        assert forall|k: Seq<char>| #![trigger e.contains_key(k)] e.contains_key(k) implies exists|
            a: SignatureAlgorithm,
            p: Seq<u8>,
            m: Seq<u8>,
            s: Seq<u8>,
        | k == hex_lower(sha256(cache_key_input(a, p, m, s))) && e[k] == (verify_outcome(
            a,
            p,
            m,
            s,
        ) is Ok) by {
            if k == hex_lower(sha256(cache_key_input(alg, pk@, msg@, sig@))) {
            } else {
                assert(old_entries.contains_key(k));
            }
        }
    }
    (valid, false)
}

/// Clears the verification cache (after revocations and rotations).
pub fn clear_cache(cache: &mut VerifyCache)
    ensures
        verify_cache_entries(*final(cache)).dom().is_empty(),
{
    cache.clear();
}

/// The cache lifetime of a result: the configured number of seconds when
/// it parses as a `u64`, otherwise 300.
pub fn cache_ttl_secs_from(setting: Option<&str>) -> (t: u64)
    ensures
        t == match setting {
            Some(s) => match crate::decimal::parse_u64_spec(s.spec_bytes()) {
                Some(v) => v,
                None => 300,
            },
            None => 300,
        },
{
    match setting {
        Some(s) => match crate::decimal::parse_u64(s) {
            Some(v) => v,
            None => 300,
        },
        None => 300,
    }
}

} // verus!
