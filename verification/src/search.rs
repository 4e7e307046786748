//! Full-text search endpoints: the query and filters they accept, the
//! trending windows, and synonym terms.

use vstd::prelude::*;
use vstd::string::*;
use crate::error::ApiError;
use crate::text::{split_char, split_str, str_eq, to_lowercase, trim, trim_str, unicode_lowercase};

verus! {

broadcast use vstd::string::group_string_axioms;

#[derive(Debug, Clone)]
pub struct ElasticsearchSearchParams {
    pub q: Option<String>,
    pub category: Option<String>,
    pub network: Option<String>,
    pub verified_only: Option<bool>,
    pub tags: Option<String>,
    pub limit: Option<i64>,
    pub offset: Option<i64>,
}

#[derive(Debug, Clone)]
pub struct UpsertSynonymRequest {
    pub term: String,
    pub synonyms: Vec<String>,
    pub is_active: Option<bool>,
}

#[derive(Debug, Clone, Copy)]
pub struct TrendingParams {
    pub hours: Option<i64>,
    pub limit: Option<i64>,
}

/// A Stellar network.
#[derive(Debug, Clone, Copy, PartialEq, Eq)]
pub enum Network {
    Mainnet,
    Testnet,
    Futurenet,
}

pub open spec fn network_of(s: Seq<char>) -> Option<Network> {
    if s == "mainnet"@ {
        Some(Network::Mainnet)
    } else if s == "testnet"@ {
        Some(Network::Testnet)
    } else if s == "futurenet"@ {
        Some(Network::Futurenet)
    } else {
        None
    }
}

/// The networks a comma-separated filter names (unknown names dropped).
pub open spec fn networks_spec(parts: Seq<Seq<char>>) -> Seq<Network>
    decreases parts.len(),
{
    if parts.len() == 0 {
        Seq::empty()
    } else {
        match network_of(trim(parts.last())) {
            Some(n) => networks_spec(parts.drop_last()).push(n),
            None => networks_spec(parts.drop_last()),
        }
    }
}

pub fn parse_networks(network_str: &str) -> (v: Vec<Network>)
    ensures
        v@ == networks_spec(split_char(network_str@, ',')),
{
    let parts = split_str(network_str, ',');
    let ghost pv = parts@.map_values(|p: String| p@);
    let mut v: Vec<Network> = Vec::new();
    let mut i: usize = 0;
    while i < parts.len()
        invariant
            i <= parts@.len(),
            pv == parts@.map_values(|p: String| p@),
            v@ == networks_spec(pv.take(i as int)),
        decreases parts@.len() - i,
    {
        assert(pv.take(i + 1).drop_last() =~= pv.take(i as int));
        assert(pv.take(i + 1).last() == parts@[i as int]@);
        let t = trim_str(parts[i].as_str());
        if str_eq(t, "mainnet") {
            v.push(Network::Mainnet);
        } else if str_eq(t, "testnet") {
            v.push(Network::Testnet);
        } else if str_eq(t, "futurenet") {
            v.push(Network::Futurenet);
        }
        i = i + 1;
    }
    assert(pv.take(i as int) =~= pv);
    v
}

/// The search text: the query trimmed, which must not be empty.
pub fn search_query(q: Option<&str>) -> (r: Result<String, ApiError>)
    ensures
        ({
            let t = match q {
                Some(s) => trim(s@),
                None => Seq::empty(),
            };
            if t.len() == 0 {
                r matches Err(e) && e.status == 400 && e.code@ == "EMPTY_QUERY"@
            } else {
                r matches Ok(s) && s@ == t
            }
        }),
{
    let t = match q {
        Some(s) => trim_str(s),
        None => "",
    };
    proof {
        reveal_strlit("");
    }
    if t.unicode_len() == 0 {
        Err(ApiError::bad_request("EMPTY_QUERY", "Search query cannot be empty"))
    } else {
        Ok(String::from_str(t))
    }
}

/// A trending window: hours in 1..=168 (24 by default) and a limit in
/// 1..=`max_limit` (`default_limit` by default).
pub fn trending_window(params: TrendingParams, default_limit: i64, max_limit: i64) -> (r: (i64, i64))
    requires
        1 <= max_limit,
    ensures
        r.0 == (match params.hours {
            Some(h) => if h < 1 { 1 } else if h > 168 { 168 } else { h },
            None => 24,
        }),
        r.1 == ({
            let l = match params.limit {
                Some(l) => l,
                None => default_limit,
            };
            if l < 1 { 1 } else if l > max_limit { max_limit } else { l }
        }),
{
    let h = match params.hours {
        Some(h) => h,
        None => 24,
    };
    let h = if h < 1 {
        1
    } else if h > 168 {
        168
    } else {
        h
    };
    let l = match params.limit {
        Some(l) => l,
        None => default_limit,
    };
    let l = if l < 1 {
        1
    } else if l > max_limit {
        max_limit
    } else {
        l
    };
    (h, l)
}

/// The stored form of a synonym term: trimmed and lower-cased, which must
/// not be blank.
pub fn synonym_term(term: &str) -> (r: Result<String, ApiError>)
    ensures
        trim(term@).len() == 0 ==> (r matches Err(e) && e.status == 400 && e.code@ == "INVALID_TERM"@),
        trim(term@).len() > 0 ==> (r matches Ok(t) && t@ == unicode_lowercase(trim(term@))),
{
    let t = trim_str(term);
    if t.unicode_len() == 0 {
        Err(ApiError::bad_request("INVALID_TERM", "term cannot be empty"))
    } else {
        Ok(to_lowercase(t))
    }
}

/// Tag filter: the comma-separated pieces, untrimmed.
pub fn split_tags(tags: &str) -> (v: Vec<String>)
    ensures
        v@.map_values(|s: String| s@) == split_char(tags@, ','),
{
    split_str(tags, ',')
}

} // verus!
