//! Trusted boundary to the hashing, encoding and signature crates
//! (`sha2`, `hmac`, `hex`, `base64`, `ed25519-dalek`, `k256`), with the
//! facts the rest of the crate relies on.

use base64::Engine as _;
use ed25519_dalek::Signer as _;
use ed25519_dalek::Verifier as _;
use hmac::Mac as _;
use sha2::Digest as _;
use vstd::prelude::*;
use vstd::utf8::encode_utf8;

verus! {

/// `ed25519_dalek::VerifyingKey`.
#[verifier::external_type_specification]
#[verifier::external_body]
pub struct ExEdVerifyingKey(ed25519_dalek::VerifyingKey);

/// `ed25519_dalek::SigningKey`.
#[verifier::external_type_specification]
#[verifier::external_body]
pub struct ExEdSigningKey(ed25519_dalek::SigningKey);

// ── Hashes ───────────────────────────────────────────────────────────────

/// SHA-256 of a byte string.
pub uninterp spec fn sha256(data: Seq<u8>) -> Seq<u8>;

/// `Sha256::digest`: the SHA-256 digest of `data`, 32 bytes long.
#[verifier::external_body]
pub(crate) fn sha256_digest(data: &[u8]) -> (d: Vec<u8>)
    ensures
        d@ == sha256(data@),
        d@.len() == 32,
{
    sha2::Sha256::digest(data).to_vec()
}

/// HMAC-SHA256 of `msg` under `key`.
pub uninterp spec fn hmac_sha256(key: Seq<u8>, msg: Seq<u8>) -> Seq<u8>;

/// `Hmac::<Sha256>::new_from_slice(key)`, `update(msg)`, `finalize()`:
/// the 32-byte HMAC-SHA256 tag.  `new_from_slice` accepts keys of any
/// length for HMAC (long keys are hashed), so there is no failure case.
#[verifier::external_body]
pub(crate) fn hmac_sha256_tag(key: &[u8], msg: &[u8]) -> (t: Vec<u8>)
    ensures
        t@ == hmac_sha256(key@, msg@),
        t@.len() == 32,
{
    let mut mac = hmac::Hmac::<sha2::Sha256>::new_from_slice(key).unwrap();
    mac.update(msg);
    mac.finalize().into_bytes().to_vec()
}

// ── Hex ──────────────────────────────────────────────────────────────────

/// Lower-case hex digit for a value below 16.
pub open spec fn hex_digit_lower(n: u8) -> char {
    if n < 10 {
        (48 + n) as char
    } else {
        (87 + n) as char
    }
}

/// Lower-case hex encoding, two characters per byte.
pub open spec fn hex_lower(data: Seq<u8>) -> Seq<char>
    decreases data.len(),
{
    if data.len() == 0 {
        Seq::empty()
    } else {
        hex_lower(data.drop_last()) + seq![
            hex_digit_lower(data.last() / 16),
            hex_digit_lower(data.last() % 16),
        ]
    }
}

pub proof fn lemma_hex_lower_len(data: Seq<u8>)
    ensures
        hex_lower(data).len() == 2 * data.len(),
    decreases data.len(),
{
    if data.len() > 0 {
        lemma_hex_lower_len(data.drop_last());
    }
}

/// `hex::encode`: lower-case hex of the bytes (the crate encodes with the
/// table `0123456789abcdef`, high nibble first).
#[verifier::external_body]
pub(crate) fn hex_encode(data: &[u8]) -> (s: String)
    ensures
        s@ == hex_lower(data@),
{
    hex::encode(data)
}

/// Value of a hex digit byte in either case.
pub open spec fn hex_val(b: u8) -> Option<u8> {
    if 48 <= b && b <= 57 {
        Some((b - 48) as u8)
    } else if 97 <= b && b <= 102 {
        Some((b - 87) as u8)
    } else if 65 <= b && b <= 70 {
        Some((b - 55) as u8)
    } else {
        None
    }
}

/// Hex decoding as `hex::decode` does it: even length, every byte a hex
/// digit of either case.
pub open spec fn hex_decode_spec(b: Seq<u8>) -> Option<Seq<u8>>
    decreases b.len(),
{
    if b.len() % 2 != 0 {
        None
    } else if b.len() == 0 {
        Some(Seq::empty())
    } else {
        match (hex_val(b[0]), hex_val(b[1]), hex_decode_spec(b.subrange(2, b.len() as int))) {
            (Some(h), Some(l), Some(rest)) => Some(seq![(h * 16 + l) as u8] + rest),
            _ => None,
        }
    }
}

/// `hex::decode`: odd lengths and non-hex characters are rejected; digit
/// pairs become bytes, high nibble first.
#[verifier::external_body]
pub(crate) fn hex_decode(data: &[u8]) -> (r: Option<Vec<u8>>)
    ensures
        r matches Some(v) ==> hex_decode_spec(data@) == Some(v@),
        r is None ==> hex_decode_spec(data@) is None,
{
    hex::decode(data).ok()
}

// ── Base64 ───────────────────────────────────────────────────────────────

/// Decoding with the standard, padded alphabet.
pub uninterp spec fn base64_standard_decode(data: Seq<u8>) -> Option<Seq<u8>>;

/// Encoding with the standard, padded alphabet.
pub uninterp spec fn base64_standard_encode(data: Seq<u8>) -> Seq<char>;

/// Decoding with the URL-safe alphabet, no padding.
pub uninterp spec fn base64_url_decode(data: Seq<u8>) -> Option<Seq<u8>>;

/// Encoding with the URL-safe alphabet, no padding.
pub uninterp spec fn base64_url_encode(data: Seq<u8>) -> Seq<char>;

/// `general_purpose::STANDARD.decode`.
#[verifier::external_body]
pub(crate) fn b64_standard_decode(data: &[u8]) -> (r: Option<Vec<u8>>)
    ensures
        r matches Some(v) ==> base64_standard_decode(data@) == Some(v@),
        r is None ==> base64_standard_decode(data@) is None,
{
    base64::engine::general_purpose::STANDARD.decode(data).ok()
}

/// `general_purpose::STANDARD.encode`.
#[verifier::external_body]
pub(crate) fn b64_standard_encode(data: &[u8]) -> (s: String)
    ensures
        s@ == base64_standard_encode(data@),
{
    base64::engine::general_purpose::STANDARD.encode(data)
}

/// `general_purpose::URL_SAFE_NO_PAD.decode`.
#[verifier::external_body]
pub(crate) fn b64_url_decode(data: &[u8]) -> (r: Option<Vec<u8>>)
    ensures
        r matches Some(v) ==> base64_url_decode(data@) == Some(v@),
        r is None ==> base64_url_decode(data@) is None,
{
    base64::engine::general_purpose::URL_SAFE_NO_PAD.decode(data).ok()
}

/// A character of the URL-safe base64 alphabet.
pub open spec fn is_url_safe_b64(c: char) -> bool {
    ('A' <= c <= 'Z') || ('a' <= c <= 'z') || ('0' <= c <= '9') || c == '-' || c == '_'
}

/// `general_purpose::URL_SAFE_NO_PAD.encode`: the text is made of the
/// URL-safe alphabet, and the same engine decodes it back to `data`.
#[verifier::external_body]
pub(crate) fn b64_url_encode(data: &[u8]) -> (s: String)
    ensures
        s@ == base64_url_encode(data@),
        forall|i: int| 0 <= i < s@.len() ==> #[trigger] is_url_safe_b64(s@[i]),
        base64_url_decode(encode_utf8(s@)) == Some(data@),
{
    base64::engine::general_purpose::URL_SAFE_NO_PAD.encode(data)
}

// ── Ed25519 ──────────────────────────────────────────────────────────────

/// Whether 32 bytes decompress to a curve point (`VerifyingKey::from_bytes`).
pub uninterp spec fn ed25519_key_decodes(bytes: Seq<u8>) -> bool;

/// Whether `verify_strict` accepts a signature over a message under a key
/// given by its 32 bytes.
pub uninterp spec fn ed25519_strict_accepts(key: Seq<u8>, msg: Seq<u8>, sig: Seq<u8>) -> bool;

/// Whether `Verifier::verify` (RFC 8032 check without the strict
/// small-order rejections) accepts a signature.
pub uninterp spec fn ed25519_accepts(key: Seq<u8>, msg: Seq<u8>, sig: Seq<u8>) -> bool;

/// An Ed25519 public key together with the 32 bytes it was decoded from.
pub struct Ed25519PublicKey {
    bytes: [u8; 32],
    key: ed25519_dalek::VerifyingKey,
}

impl Ed25519PublicKey {
    pub closed spec fn bytes(&self) -> Seq<u8> {
        self.bytes@
    }
}

/// `VerifyingKey::from_bytes`: succeeds exactly when the bytes decompress
/// to a curve point.
#[verifier::external_body]
pub(crate) fn ed25519_public_key(bytes: &[u8; 32]) -> (r: Option<Ed25519PublicKey>)
    ensures
        r is Some == ed25519_key_decodes(bytes@),
        r matches Some(k) ==> k.bytes() == bytes@,
{
    match ed25519_dalek::VerifyingKey::from_bytes(bytes) {
        Ok(key) => Some(Ed25519PublicKey { bytes: *bytes, key }),
        Err(_) => None,
    }
}

/// `VerifyingKey::verify_strict` with `Signature::from_bytes(sig)`.
#[verifier::external_body]
pub(crate) fn ed25519_verify_strict(key: &Ed25519PublicKey, msg: &[u8], sig: &[u8; 64]) -> (ok: bool)
    ensures
        ok == ed25519_strict_accepts(key.bytes(), msg@, sig@),
{
    key.key.verify_strict(msg, &ed25519_dalek::Signature::from_bytes(sig)).is_ok()
}

/// `Verifier::verify` with `Signature::from_bytes(sig)`.
#[verifier::external_body]
pub(crate) fn ed25519_verify(key: &Ed25519PublicKey, msg: &[u8], sig: &[u8; 64]) -> (ok: bool)
    ensures
        ok == ed25519_accepts(key.bytes(), msg@, sig@),
{
    key.key.verify(msg, &ed25519_dalek::Signature::from_bytes(sig)).is_ok()
}

/// The public key of a 32-byte secret seed.
pub uninterp spec fn ed25519_public_of_seed(seed: Seq<u8>) -> Seq<u8>;

/// The (deterministic, RFC 8032) Ed25519 signature of a message under a seed.
pub uninterp spec fn ed25519_signature(seed: Seq<u8>, msg: Seq<u8>) -> Seq<u8>;

/// An Ed25519 signing key together with the seed it was made from.
pub struct Ed25519SigningKey {
    seed: [u8; 32],
    key: ed25519_dalek::SigningKey,
}

impl Ed25519SigningKey {
    pub closed spec fn seed(&self) -> Seq<u8> {
        self.seed@
    }
}

/// `SigningKey::from_bytes`: every 32-byte seed is a signing key, and its
/// public key (a point of the curve) decodes.
#[verifier::external_body]
pub(crate) fn ed25519_signing_key(seed: &[u8; 32]) -> (k: Ed25519SigningKey)
    ensures
        k.seed() == seed@,
        ed25519_key_decodes(ed25519_public_of_seed(k.seed())),
{
    Ed25519SigningKey { seed: *seed, key: ed25519_dalek::SigningKey::from_bytes(seed) }
}

/// `SigningKey::verifying_key().to_bytes()`: the 32-byte public key.
#[verifier::external_body]
pub(crate) fn ed25519_public_bytes(k: &Ed25519SigningKey) -> (p: [u8; 32])
    ensures
        p@ == ed25519_public_of_seed(k.seed()),
{
    k.key.verifying_key().to_bytes()
}

/// `Signer::sign(msg).to_bytes()`: the 64-byte signature, which
/// `Verifier::verify` accepts under the key's public key.
#[verifier::external_body]
pub(crate) fn ed25519_sign(k: &Ed25519SigningKey, msg: &[u8]) -> (s: [u8; 64])
    ensures
        s@ == ed25519_signature(k.seed(), msg@),
        ed25519_accepts(ed25519_public_of_seed(k.seed()), msg@, s@),
{
    k.key.sign(msg).to_bytes()
}

// ── secp256k1 ────────────────────────────────────────────────────────────

/// Whether bytes are a valid SEC1 (compressed or uncompressed) encoding of
/// a secp256k1 point (`VerifyingKey::from_sec1_bytes`).
pub uninterp spec fn secp256k1_key_decodes(bytes: Seq<u8>) -> bool;

/// Whether 64 bytes are `r || s` with both scalars in `1..n`
/// (`Signature::from_slice`).
pub uninterp spec fn secp256k1_rs_decodes(bytes: Seq<u8>) -> bool;

/// Whether bytes are an ASN.1 DER ECDSA signature with scalars in range
/// (`Signature::from_der`).
pub uninterp spec fn secp256k1_der_decodes(bytes: Seq<u8>) -> bool;

/// Whether ECDSA verification (SHA-256 of the message) accepts the
/// signature decoded from `sig` (as `r || s`, or as DER when `der`).
pub uninterp spec fn secp256k1_accepts(key: Seq<u8>, msg: Seq<u8>, sig: Seq<u8>, der: bool) -> bool;

/// `VerifyingKey::from_sec1_bytes(bytes).is_ok()`.
#[verifier::external_body]
pub(crate) fn secp256k1_key_check(bytes: &[u8]) -> (ok: bool)
    ensures
        ok == secp256k1_key_decodes(bytes@),
{
    k256::ecdsa::VerifyingKey::from_sec1_bytes(bytes).is_ok()
}

/// `Signature::from_slice(bytes).is_ok()`: fails for any length other
/// than 64, and for out-of-range scalars.
#[verifier::external_body]
pub(crate) fn secp256k1_rs_check(bytes: &[u8]) -> (ok: bool)
    ensures
        ok == secp256k1_rs_decodes(bytes@),
        bytes@.len() != 64 ==> !ok,
{
    k256::ecdsa::Signature::from_slice(bytes).is_ok()
}

/// `Signature::from_der(bytes).is_ok()`.
#[verifier::external_body]
pub(crate) fn secp256k1_der_check(bytes: &[u8]) -> (ok: bool)
    ensures
        ok == secp256k1_der_decodes(bytes@),
{
    k256::ecdsa::Signature::from_der(bytes).is_ok()
}

/// `Verifier::verify` for secp256k1 ECDSA (the crate SHA-256-prehashes
/// the message), on the key decoded from `key` and the signature decoded
/// from `sig` (DER when `der`, otherwise `r || s`).
#[verifier::external_body]
pub(crate) fn secp256k1_verify(key: &[u8], msg: &[u8], sig: &[u8], der: bool) -> (ok: bool)
    requires
        secp256k1_key_decodes(key@),
        der ==> secp256k1_der_decodes(sig@),
        !der ==> secp256k1_rs_decodes(sig@),
    ensures
        ok == secp256k1_accepts(key@, msg@, sig@, der),
{
    let vk = k256::ecdsa::VerifyingKey::from_sec1_bytes(key).unwrap();
    let s = if der {
        k256::ecdsa::Signature::from_der(sig).unwrap()
    } else {
        k256::ecdsa::Signature::from_slice(sig).unwrap()
    };
    vk.verify(msg, &s).is_ok()
}

} // verus!
