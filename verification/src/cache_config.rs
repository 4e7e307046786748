//! Cache settings: defaults, reading them from their textual settings,
//! and the keys and weights entries are stored under.

use vstd::prelude::*;
use vstd::string::*;
use vstd::utf8::encode_utf8;
use crate::decimal::{parse_u64, parse_u64_spec};
use crate::text::{str_eq, to_lowercase, unicode_lowercase};

verus! {

broadcast use vstd::string::group_string_axioms;

/// Verification results live a week unless configured otherwise.
pub const DEFAULT_VERIFICATION_TTL_SECS: u64 = 604_800;

/// Cache configuration options.
#[derive(Clone, Debug, PartialEq, Eq)]
pub struct CacheConfig {
    pub enabled: bool,
    pub max_capacity: u64,
    pub redis_enabled: bool,
    pub redis_url: Option<String>,
    pub contracts_ttl: u64,
    /// TTL for contract metadata in Redis (seconds).
    pub metadata_ttl_secs: u64,
    /// TTL for ABI data in Redis (seconds).
    pub abi_ttl_secs: u64,
    /// TTL for search results in Redis (seconds).
    pub search_ttl_secs: u64,
    /// TTL for stats/analytics in Redis (seconds).
    pub stats_ttl_secs: u64,
    /// Override of the verification cache capacity (weighted bytes).
    pub verification_max_capacity: Option<u64>,
    /// Override of the verification cache time-to-live, in seconds.
    pub verification_ttl_secs: Option<u64>,
}

impl Default for CacheConfig {
    fn default() -> (c: Self)
        ensures
            c.enabled,
            c.max_capacity == 10_000,
            !c.redis_enabled,
            c.redis_url is None,
            c.contracts_ttl == 3600,
            c.metadata_ttl_secs == 3600,
            c.abi_ttl_secs == 86400,
            c.search_ttl_secs == 300,
            c.stats_ttl_secs == 300,
            c.verification_max_capacity is None,
            c.verification_ttl_secs is None,
    {
        CacheConfig {
            enabled: true,
            max_capacity: 10_000,
            redis_enabled: false,
            redis_url: None,
            contracts_ttl: 3600,
            metadata_ttl_secs: 3600,
            abi_ttl_secs: 86400,
            search_ttl_secs: 300,
            stats_ttl_secs: 300,
            verification_max_capacity: None,
            verification_ttl_secs: None,
        }
    }
}

/// The raw settings a configuration is read from (each absent when unset).
#[derive(Clone, Debug)]
pub struct CacheSettings {
    pub cache_enabled: Option<String>,
    pub cache_max_capacity: Option<String>,
    pub redis_enabled: Option<String>,
    pub contracts_cache_ttl: Option<String>,
    pub abi_cache_ttl: Option<String>,
    pub search_cache_ttl: Option<String>,
    pub stats_cache_ttl: Option<String>,
    pub verification_cache_max_capacity: Option<String>,
    pub verification_cache_ttl: Option<String>,
    pub redis_url: Option<String>,
}

/// A flag setting: `true` in any case.
pub open spec fn flag_value(raw: Option<String>, default: bool) -> bool {
    match raw {
        Some(s) => unicode_lowercase(s@) == "true"@,
        None => default,
    }
}

/// A number setting: kept when it parses, else the default.
pub open spec fn number_value(raw: Option<String>, default: u64) -> u64 {
    match raw {
        Some(s) => match parse_u64_spec(encode_utf8(s@)) {
            Some(n) => n,
            None => default,
        },
        None => default,
    }
}

/// An optional number setting: present when it parses.
pub open spec fn opt_number_value(raw: Option<String>) -> Option<u64> {
    match raw {
        Some(s) => parse_u64_spec(encode_utf8(s@)),
        None => None,
    }
}

fn read_flag(raw: &Option<String>, default: bool) -> (b: bool)
    ensures
        b == flag_value(*raw, default),
{
    match raw {
        Some(s) => {
            let l = to_lowercase(s.as_str());
            str_eq(l.as_str(), "true")
        },
        None => default,
    }
}

fn read_number(raw: &Option<String>, default: u64) -> (n: u64)
    ensures
        n == number_value(*raw, default),
{
    match raw {
        Some(s) => match parse_u64(s.as_str()) {
            Some(n) => n,
            None => default,
        },
        None => default,
    }
}

fn read_opt_number(raw: &Option<String>) -> (n: Option<u64>)
    ensures
        n == opt_number_value(*raw),
{
    match raw {
        Some(s) => parse_u64(s.as_str()),
        None => None,
    }
}

impl CacheConfig {
    /// The configuration the settings describe, defaults for the rest.  A
    /// contracts TTL sets the metadata TTL too.
    pub fn from_settings(s: CacheSettings) -> (c: Self)
        ensures
            c.enabled == flag_value(s.cache_enabled, true),
            c.max_capacity == number_value(s.cache_max_capacity, 10_000),
            c.redis_enabled == flag_value(s.redis_enabled, false),
            c.contracts_ttl == number_value(s.contracts_cache_ttl, 3600),
            c.metadata_ttl_secs == number_value(s.contracts_cache_ttl, 3600),
            c.abi_ttl_secs == number_value(s.abi_cache_ttl, 86400),
            c.search_ttl_secs == number_value(s.search_cache_ttl, 300),
            c.stats_ttl_secs == number_value(s.stats_cache_ttl, 300),
            c.verification_max_capacity == opt_number_value(s.verification_cache_max_capacity),
            c.verification_ttl_secs == opt_number_value(s.verification_cache_ttl),
            c.redis_url == s.redis_url,
    {
        CacheConfig {
            enabled: read_flag(&s.cache_enabled, true),
            max_capacity: read_number(&s.cache_max_capacity, 10_000),
            redis_enabled: read_flag(&s.redis_enabled, false),
            redis_url: s.redis_url,
            contracts_ttl: read_number(&s.contracts_cache_ttl, 3600),
            metadata_ttl_secs: read_number(&s.contracts_cache_ttl, 3600),
            abi_ttl_secs: read_number(&s.abi_cache_ttl, 86400),
            search_ttl_secs: read_number(&s.search_cache_ttl, 300),
            stats_ttl_secs: read_number(&s.stats_cache_ttl, 300),
            verification_max_capacity: read_opt_number(&s.verification_cache_max_capacity),
            verification_ttl_secs: read_opt_number(&s.verification_cache_ttl),
        }
    }

    /// Capacity of the verification cache: its override, else the general
    /// capacity.
    pub fn verification_capacity(&self) -> (c: u64)
        ensures
            c == match self.verification_max_capacity {
                Some(v) => v,
                None => self.max_capacity,
            },
    {
        match self.verification_max_capacity {
            Some(v) => v,
            None => self.max_capacity,
        }
    }

    /// Time-to-live of verification results: its override, else a week.
    pub fn verification_ttl(&self) -> (t: u64)
        ensures
            t == match self.verification_ttl_secs {
                Some(v) => v,
                None => DEFAULT_VERIFICATION_TTL_SECS,
            },
    {
        match self.verification_ttl_secs {
            Some(v) => v,
            None => DEFAULT_VERIFICATION_TTL_SECS,
        }
    }
}

/// Weight of a cached value: its length in bytes, at most `u32::MAX`.
pub fn entry_weight(len: usize) -> (w: u32)
    ensures
        w == if len > u32::MAX { u32::MAX as int } else { len as int },
{
    if len > 4_294_967_295usize {
        4_294_967_295u32
    } else {
        len as u32
    }
}

/// `"<ns>:<key>"`, the key of a namespaced entry (also the Redis key of
/// ABIs, `abi:<id>`, and contract lists, `contracts:<key>`).
pub fn namespaced_key(ns: &str, key: &str) -> (k: String)
    ensures
        k@ == ns@ + ":"@ + key@,
{
    let mut k = String::from_str(ns);
    k.append(":");
    k.append(key);
    k
}

/// Entries of different namespaces never share a key: where neither
/// namespace holds a `:`, the namespaced key gives back its namespace and
/// key.
pub proof fn law_namespaced_keys_isolated(ns1: Seq<char>, key1: Seq<char>, ns2: Seq<char>, key2: Seq<char>)
    requires
        !ns1.contains(':'),
        !ns2.contains(':'),
        ns1 + ":"@ + key1 == ns2 + ":"@ + key2,
    ensures
        ns1 == ns2,
        key1 == key2,
{
    reveal_strlit(":");
    assert(":"@ =~= seq![':']);
    let x = ns1 + seq![':'] + key1;
    assert(x == ns2 + seq![':'] + key2);
    if ns1.len() < ns2.len() {
        assert(x[ns1.len() as int] == ':');
        assert(ns2[ns1.len() as int] == ':');
        assert(false);
    }
    if ns2.len() < ns1.len() {
        assert(x[ns2.len() as int] == ':');
        assert(ns1[ns2.len() as int] == ':');
        assert(false);
    }
    assert(ns1 =~= x.subrange(0, ns1.len() as int));
    assert(ns2 =~= x.subrange(0, ns1.len() as int));
    assert(key1 =~= x.subrange(ns1.len() as int + 1, x.len() as int));
    assert(key2 =~= x.subrange(ns1.len() as int + 1, x.len() as int));
}

/// Seconds during which a recorded access of a contract suppresses a new
/// refresh.
pub const CONTRACT_ACCESS_DEBOUNCE_SECS: u64 = 60;

/// Whether an access of a contract should refresh its record: always with
/// the cache off; otherwise unless an access was marked less than
/// [`CONTRACT_ACCESS_DEBOUNCE_SECS`] ago (`marked_age_secs` is the age of
/// the last mark, if one is held).
pub fn contract_access_refresh_due(enabled: bool, marked_age_secs: Option<u64>) -> (due: bool)
    ensures
        due == (!enabled || match marked_age_secs {
            None => true,
            Some(age) => age >= CONTRACT_ACCESS_DEBOUNCE_SECS,
        }),
{
    if !enabled {
        return true;
    }
    match marked_age_secs {
        None => true,
        Some(age) => age >= CONTRACT_ACCESS_DEBOUNCE_SECS,
    }
}

} // verus!
