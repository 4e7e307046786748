//! Formal verification runs: which backend runs them, how long a run may
//! take, the key under which a result is cached, and whether a category's
//! policy is met.

use vstd::prelude::*;
use vstd::string::*;
use vstd::utf8::encode_utf8;
use vstd::relations::sorted_by;
use vstd::seq_lib::lemma_sorted_unique;
use crate::crypto::{hex_encode, hex_lower, lemma_hex_lower_len, sha256, sha256_digest};
use crate::decimal::{parse_u64, parse_u64_spec};
use crate::error::ApiError;
use crate::ordering::{lemma_str_order_total, sort_strings, str_order, views};
use crate::text::{str_eq, trim, trim_str};

verus! {

broadcast use vstd::string::group_string_axioms;

/// Seconds a run may take when no valid limit is configured.
pub const DEFAULT_TIMEOUT_SECS: u64 = 30;

/// Which verification tool runs the analysis: the built-in analyzer, or an
/// external service at a URL.
#[derive(Debug, Clone, PartialEq, Eq)]
pub enum VerifierBackend {
    Builtin,
    External(String),
}

/// The name a backend is recorded under.
pub open spec fn backend_name(b: VerifierBackend) -> Seq<char> {
    match b {
        VerifierBackend::Builtin => "builtin"@,
        VerifierBackend::External(_) => "external"@,
    }
}

impl VerifierBackend {
    /// The backend chosen by the configured service URL: an external
    /// service when the URL is set and not blank (kept trimmed), else the
    /// built-in analyzer.
    pub fn from_service_url(url: Option<&str>) -> (b: Self)
        ensures
            match url {
                Some(u) => if trim(u@).len() > 0 {
                    b matches VerifierBackend::External(s) && s@ == trim(u@)
                } else {
                    b == VerifierBackend::Builtin
                },
                None => b == VerifierBackend::Builtin,
            },
    {
        match url {
            Some(u) => {
                let t = trim_str(u);
                if t.unicode_len() > 0 {
                    VerifierBackend::External(String::from_str(t))
                } else {
                    VerifierBackend::Builtin
                }
            },
            None => VerifierBackend::Builtin,
        }
    }

    pub fn name(&self) -> (n: &'static str)
        ensures
            n@ == backend_name(*self),
    {
        match self {
            VerifierBackend::Builtin => "builtin",
            VerifierBackend::External(_) => "external",
        }
    }
}

/// The run limit from its setting: a positive whole number of seconds,
/// else the default.
pub open spec fn timeout_secs_spec(raw: Option<Seq<char>>) -> u64 {
    match raw {
        Some(r) => match parse_u64_spec(encode_utf8(r)) {
            Some(n) => if n > 0 {
                n
            } else {
                DEFAULT_TIMEOUT_SECS
            },
            None => DEFAULT_TIMEOUT_SECS,
        },
        None => DEFAULT_TIMEOUT_SECS,
    }
}

pub fn timeout_secs_from(raw: Option<&str>) -> (t: u64)
    ensures
        t == timeout_secs_spec(opt_str_view(raw)),
        t > 0,
{
    match raw {
        Some(r) => match parse_u64(r) {
            Some(n) => if n > 0 {
                n
            } else {
                DEFAULT_TIMEOUT_SECS
            },
            None => DEFAULT_TIMEOUT_SECS,
        },
        None => DEFAULT_TIMEOUT_SECS,
    }
}

/// The view of an optional string.
pub open spec fn opt_str_view(s: Option<&str>) -> Option<Seq<char>> {
    match s {
        Some(x) => Some(x@),
        None => None,
    }
}

/// Options of a verification run.
#[derive(Debug, Clone, PartialEq, Eq)]
pub struct RunRequest {
    pub version: Option<String>,
    /// Re-run even if a cached result exists for this bytecode.
    pub force: bool,
}

impl Default for RunRequest {
    fn default() -> (r: Self)
        ensures
            r.version is None,
            !r.force,
    {
        RunRequest { version: None, force: false }
    }
}

/// Default of a property's `enabled` flag.
pub fn default_true() -> (b: bool)
    ensures
        b,
{
    true
}

/// Whether a run satisfies a category's policy.  Only `mandatory` asks
/// anything: a completed run whose confidence meets the bar
/// (`meets_confidence`); every other requirement is satisfied.
pub open spec fn requirement_satisfied_spec(
    requirement: Seq<char>,
    status: Option<Seq<char>>,
    meets_confidence: bool,
) -> bool {
    requirement != "mandatory"@ || (status == Some("completed"@) && meets_confidence)
}

pub fn requirement_satisfied(requirement: &str, status: Option<&str>, meets_confidence: bool) -> (r:
    bool)
    ensures
        r == requirement_satisfied_spec(requirement@, opt_str_view(status), meets_confidence),
{
    if !str_eq(requirement, "mandatory") {
        return true;
    }
    match status {
        Some(s) => str_eq(s, "completed") && meets_confidence,
        None => false,
    }
}

/// The requirements a category's policy may be set to.
pub open spec fn is_requirement(r: Seq<char>) -> bool {
    r == "mandatory"@ || r == "optional"@ || r == "disabled"@
}

/// Checks the requirement of a policy update.
pub fn validate_requirement(requirement: &str) -> (r: Result<(), ApiError>)
    ensures
        is_requirement(requirement@) ==> r is Ok,
        !is_requirement(requirement@) ==> (r matches Err(e) && e.status == 400 && e.code@
            == "INVALID_REQUIREMENT"@),
{
    if str_eq(requirement, "mandatory") || str_eq(requirement, "optional") || str_eq(
        requirement,
        "disabled",
    ) {
        Ok(())
    } else {
        Err(
            ApiError::bad_request(
                "INVALID_REQUIREMENT",
                "requirement must be mandatory, optional, or disabled",
            ),
        )
    }
}

/// The key a property is stored under: its trimmed text, which must not
/// be blank.
pub fn property_key_of(raw: &str) -> (r: Result<String, ApiError>)
    ensures
        trim(raw@).len() > 0 ==> (r matches Ok(k) && k@ == trim(raw@)),
        trim(raw@).len() == 0 ==> (r matches Err(e) && e.status == 400 && e.code@
            == "INVALID_KEY"@),
{
    let t = trim_str(raw);
    if t.unicode_len() == 0 {
        Err(ApiError::bad_request("INVALID_KEY", "property_key is required"))
    } else {
        Ok(String::from_str(t))
    }
}

/// Strings joined with `,`.
pub open spec fn join_comma(s: Seq<Seq<char>>) -> Seq<char>
    decreases s.len(),
{
    if s.len() == 0 {
        Seq::empty()
    } else if s.len() == 1 {
        s[0]
    } else {
        join_comma(s.drop_last()) + ","@ + s.last()
    }
}

fn join_with_comma(parts: &Vec<String>) -> (j: String)
    ensures
        j@ == join_comma(views(parts@)),
{
    let mut j = String::new();
    let mut i: usize = 0;
    proof {
        reveal_strlit(",");
    }
    while i < parts.len()
        invariant
            i <= parts@.len(),
            j@ == join_comma(views(parts@.subrange(0, i as int))),
        decreases parts@.len() - i,
    {
        let ghost pre = views(parts@.subrange(0, i as int));
        let ghost next = views(parts@.subrange(0, i + 1));
        assert(next.drop_last() =~= pre);
        assert(next.last() == parts@[i as int]@);
        if i > 0 {
            j.append(",");
        } else {
            assert(pre =~= Seq::<Seq<char>>::empty());
        }
        j.append(parts[i].as_str());
        i = i + 1;
    }
    assert(parts@.subrange(0, parts@.len() as int) =~= parts@);
    j
}

/// The text that is hashed for a cache key: bytecode hash, backend and the
/// property keys in ascending order joined by `,`, separated by `|`.
pub open spec fn cache_key_input(
    wasm_hash: Seq<char>,
    backend: Seq<char>,
    property_keys: Seq<Seq<char>>,
) -> Seq<char> {
    wasm_hash + "|"@ + backend + "|"@ + join_comma(property_keys.sort_by(str_order()))
}

/// The cache key: lower-case hex of the SHA-256 of that text.
pub open spec fn cache_key_spec(
    wasm_hash: Seq<char>,
    backend: Seq<char>,
    property_keys: Seq<Seq<char>>,
) -> Seq<char> {
    hex_lower(sha256(encode_utf8(cache_key_input(wasm_hash, backend, property_keys))))
}

/// Key of a cached run: identical bytecode verified by the same backend for
/// the same set of properties shares a key.
pub fn cache_key(wasm_hash: &str, backend: &str, property_keys: &[String]) -> (k: String)
    ensures
        k@ == cache_key_spec(wasm_hash@, backend@, views(property_keys@)),
        k@.len() == 64,
{
    let keys = sort_strings(property_keys);
    let joined = join_with_comma(&keys);
    let mut text = String::from_str(wasm_hash);
    text.append("|");
    text.append(backend);
    text.append("|");
    text.append(joined.as_str());
    let digest = sha256_digest(text.as_str().as_bytes());
    proof {
        lemma_hex_lower_len(digest@);
    }
    hex_encode(digest.as_slice())
}

/// The cache key does not depend on the order in which the property keys
/// are listed: the same keys in any order give the same key.
pub proof fn law_cache_key_order_independent(
    wasm_hash: Seq<char>,
    backend: Seq<char>,
    keys_a: Seq<Seq<char>>,
    keys_b: Seq<Seq<char>>,
)
    requires
        keys_a.to_multiset() == keys_b.to_multiset(),
    ensures
        cache_key_spec(wasm_hash, backend, keys_a) == cache_key_spec(wasm_hash, backend, keys_b),
{
    let ord = str_order();
    lemma_str_order_total();
    keys_a.lemma_sort_by_ensures(ord);
    keys_b.lemma_sort_by_ensures(ord);
    lemma_sorted_unique(keys_a.sort_by(ord), keys_b.sort_by(ord), ord);
}

} // verus!
