//! Registry analytics: the date ranges a report covers, the growth of
//! each network and category against the previous period, and the
//! interaction-history listing (paging, cache key, CSV export).

use vstd::prelude::*;
use vstd::string::*;
use vstd::relations::sorted_by;
use vstd::multiset::Multiset;
use crate::decimal::{i64_decimal_chars, i64_to_string};
use crate::error::ApiError;
use crate::ordering::{lemma_lex_antisymmetric, lemma_lex_reflexive, lemma_lex_total, lemma_lex_transitive, lex_le, str_le};
use crate::text::{parse_uuid, str_eq, uuid_text_value};

verus! {

broadcast use {vstd::string::group_string_axioms, vstd::seq_lib::group_to_multiset_ensures, vstd::multiset::group_multiset_axioms};

// ── Report ranges ────────────────────────────────────────────────────────

/// The days a report covers, as day numbers: the period, the equally long
/// period before it, and the start of the daily series (at most 30 days).
#[derive(Debug, Clone, Copy, PartialEq, Eq)]
pub struct ReportRanges {
    pub since: i64,
    pub until: i64,
    pub previous_since: i64,
    pub previous_until: i64,
    pub time_series_since: i64,
}

/// The ranges of a report: `until` defaults to `today`, `since` to 29 days
/// before `until`; `since` after `until` is refused.
pub fn resolve_ranges(since: Option<i32>, until: Option<i32>, today: i32) -> (r: Result<ReportRanges, ApiError>)
    ensures
        ({
            let u: int = match until {
                Some(x) => x as int,
                None => today as int,
            };
            let s: int = match since {
                Some(x) => x as int,
                None => u - 29,
            };
            if s > u {
                r matches Err(e) && e.status == 400 && e.code@ == "InvalidDateRange"@
            } else {
                r matches Ok(g) && g.since == s && g.until == u && g.previous_until == s - 1
                    && g.previous_since == s - 1 - (u - s) && g.time_series_since == (if s > u - 29 {
                    s
                } else {
                    u - 29
                })
            }
        }),
{
    let u: i64 = match until {
        Some(x) => x as i64,
        None => today as i64,
    };
    let s: i64 = match since {
        Some(x) => x as i64,
        None => u - 29,
    };
    if s > u {
        return Err(ApiError::bad_request("InvalidDateRange", "since must be less than or equal to until"));
    }
    let period_days = u - s + 1;
    let previous_until = s - 1;
    let previous_since = previous_until - (period_days - 1);
    let series_floor = u - 29;
    let time_series_since = if s > series_floor {
        s
    } else {
        series_floor
    };
    Ok(ReportRanges { since: s, until: u, previous_since, previous_until, time_series_since })
}

/// Difference between two periods' counts.
pub fn growth(current: i64, previous: i64) -> (g: i64)
    requires
        i64::MIN <= current - previous <= i64::MAX,
    ensures
        g == current - previous,
{
    current - previous
}

// ── Breakdowns ───────────────────────────────────────────────────────────

/// One network's (or category's) counts in a period.
#[derive(Debug, Clone)]
pub struct BreakdownRow {
    pub name: String,
    pub contract_count: i64,
    pub verified_count: i64,
}

/// A network's (or category's) counts with those of the previous period.
#[derive(Debug, Clone)]
pub struct BreakdownEntry {
    pub name: String,
    pub contract_count: i64,
    pub verified_count: i64,
    pub previous_contract_count: i64,
    pub contract_growth: i64,
}

/// Activity of one network.
#[derive(Debug, Clone)]
pub struct NetworkStatsEntry {
    pub network: String,
    pub active_contracts: i64,
    pub total_deployments: i64,
    pub total_interactions: i64,
}

/// Index of the last previous-period row named `name` among the first `n`.
pub open spec fn last_named(rows: Seq<BreakdownRow>, name: Seq<char>, n: int) -> int
    decreases n,
{
    if n <= 0 {
        -1
    } else if rows[n - 1].name@ == name {
        n - 1
    } else {
        last_named(rows, name, n - 1)
    }
}

/// The previous count matched to current row `i`: the previous period's
/// row of that name, used once (by the first current row of the name);
/// 0 when there is none.
pub open spec fn previous_for(current: Seq<BreakdownRow>, previous: Seq<BreakdownRow>, i: int) -> i64 {
    let name = current[i].name@;
    let k = last_named(previous, name, previous.len() as int);
    if k >= 0 && forall|j: int| 0 <= j < i ==> #[trigger] current[j].name@ != name {
        previous[k].contract_count
    } else {
        0
    }
}

fn find_last_named(rows: &Vec<BreakdownRow>, name: &str) -> (r: Option<usize>)
    ensures
        match r {
            Some(i) => i as int == last_named(rows@, name@, rows@.len() as int) && i < rows@.len(),
            None => last_named(rows@, name@, rows@.len() as int) < 0,
        },
{
    let mut n: usize = rows.len();
    while n > 0
        invariant
            n <= rows@.len(),
            last_named(rows@, name@, rows@.len() as int) == last_named(rows@, name@, n as int),
        decreases n,
    {
        if str_eq(rows[n - 1].name.as_str(), name) {
            return Some(n - 1);
        }
        n = n - 1;
    }
    None
}

fn named_before(rows: &Vec<BreakdownRow>, name: &str, i: usize) -> (r: bool)
    requires
        i <= rows@.len(),
    ensures
        r == exists|j: int| 0 <= j < i && #[trigger] rows@[j].name@ == name@,
{
    let mut j: usize = 0;
    while j < i
        invariant
            j <= i <= rows@.len(),
            forall|m: int| 0 <= m < j ==> #[trigger] rows@[m].name@ != name@,
        decreases i - j,
    {
        if str_eq(rows[j].name.as_str(), name) {
            assert(rows@[j as int].name@ == name@);
            return true;
        }
        j = j + 1;
    }
    false
}

/// Each current row with the previous period's count of the same name
/// and the growth between them.
pub fn merge_breakdown(current: &Vec<BreakdownRow>, previous: &Vec<BreakdownRow>) -> (out: Vec<BreakdownEntry>)
    requires
        forall|i: int| 0 <= i < current@.len() ==> #[trigger] current@[i].contract_count >= 0,
        forall|i: int| 0 <= i < previous@.len() ==> #[trigger] previous@[i].contract_count >= 0,
    ensures
        out@.len() == current@.len(),
        forall|i: int| 0 <= i < out@.len() ==> {
            let e = #[trigger] out@[i];
            &&& e.name == current@[i].name
            &&& e.contract_count == current@[i].contract_count
            &&& e.verified_count == current@[i].verified_count
            &&& e.previous_contract_count == previous_for(current@, previous@, i)
            &&& e.contract_growth == current@[i].contract_count - previous_for(current@, previous@, i)
        },
{
    let mut out: Vec<BreakdownEntry> = Vec::new();
    let mut i: usize = 0;
    while i < current.len()
        invariant
            i <= current@.len(),
            out@.len() == i,
            forall|m: int| 0 <= m < previous@.len() ==> #[trigger] previous@[m].contract_count >= 0,
            forall|m: int| 0 <= m < current@.len() ==> #[trigger] current@[m].contract_count >= 0,
            forall|m: int| 0 <= m < i ==> {
                let e = #[trigger] out@[m];
                &&& e.name == current@[m].name
                &&& e.contract_count == current@[m].contract_count
                &&& e.verified_count == current@[m].verified_count
                &&& e.previous_contract_count == previous_for(current@, previous@, m)
                &&& e.contract_growth == current@[m].contract_count - previous_for(current@, previous@, m)
            },
        decreases current@.len() - i,
    {
        let row = &current[i];
        let seen = named_before(current, row.name.as_str(), i);
        let prev: i64 = if seen {
            0
        } else {
            match find_last_named(previous, row.name.as_str()) {
                Some(k) => previous[k].contract_count,
                None => 0,
            }
        };
        assert(prev == previous_for(current@, previous@, i as int));
        assert(prev >= 0);
        out.push(
            BreakdownEntry {
                name: row.name.clone(),
                contract_count: row.contract_count,
                verified_count: row.verified_count,
                previous_contract_count: prev,
                contract_growth: row.contract_count - prev,
            },
        );
        i = i + 1;
    }
    out
}

/// Order of the category listing: more contracts first, then by name.
pub open spec fn listing_le(a: BreakdownEntry, b: BreakdownEntry) -> bool {
    a.contract_count > b.contract_count || (a.contract_count == b.contract_count && lex_le(
        a.name@,
        b.name@,
    ))
}

fn listing_le_exec(a: &BreakdownEntry, b: &BreakdownEntry) -> (r: bool)
    ensures
        r == listing_le(*a, *b),
{
    a.contract_count > b.contract_count || (a.contract_count == b.contract_count && str_le(
        a.name.as_str(),
        b.name.as_str(),
    ))
}

proof fn lemma_listing_total(a: BreakdownEntry, b: BreakdownEntry)
    ensures
        listing_le(a, b) || listing_le(b, a),
{
    lemma_lex_total(a.name@, b.name@);
}

proof fn lemma_listing_transitive(a: BreakdownEntry, b: BreakdownEntry, c: BreakdownEntry)
    requires
        listing_le(a, b),
        listing_le(b, c),
    ensures
        listing_le(a, c),
{
    if a.contract_count == b.contract_count && b.contract_count == c.contract_count {
        lemma_lex_transitive(a.name@, b.name@, c.name@);
    }
}

/// The entries in listing order (more contracts first, then by name),
/// the same entries as given.
pub fn sort_listing(entries: Vec<BreakdownEntry>) -> (out: Vec<BreakdownEntry>)
    ensures
        sorted_by(out@, |a: BreakdownEntry, b: BreakdownEntry| listing_le(a, b)),
        out@.to_multiset() == entries@.to_multiset(),
{
    let ghost ord = |a: BreakdownEntry, b: BreakdownEntry| listing_le(a, b);
    let mut out: Vec<BreakdownEntry> = Vec::new();
    let mut rest = entries;
    let ghost orig = rest@;
    while rest.len() > 0
        invariant
            sorted_by(out@, ord),
            ord == (|a: BreakdownEntry, b: BreakdownEntry| listing_le(a, b)),
            out@.to_multiset().add(rest@.to_multiset()) == orig.to_multiset(),
        decreases rest@.len(),
    {
        let ghost rest_before = rest@;
        let e = rest.pop().unwrap();
        proof {
            assert(rest_before =~= rest@.push(e));
        }
        let mut p: usize = 0;
        while p < out.len() && listing_le_exec(&out[p], &e)
            invariant
                p <= out@.len(),
                forall|j: int| 0 <= j < p ==> listing_le(#[trigger] out@[j], e),
            decreases out@.len() - p,
        {
            p = p + 1;
        }
        let ghost old_v = out@;
        proof {
            if p < out@.len() {
                lemma_listing_total(out@[p as int], e);
            }
            assert forall|j: int| p <= j < old_v.len() implies listing_le(e, #[trigger] old_v[j]) by {
                if j > p {
                    assert(ord(old_v[p as int], old_v[j]));
                    lemma_listing_transitive(e, old_v[p as int], old_v[j]);
                }
            }
        }
        out.insert(p, e);
        proof {
            let new_v = out@;
            assert(new_v =~= old_v.insert(p as int, e));
            let a = old_v.subrange(0, p as int);
            let b = old_v.subrange(p as int, old_v.len() as int);
            assert(old_v =~= a + b);
            assert(new_v =~= a.push(e) + b);
            vstd::seq_lib::lemma_multiset_commutative(a, b);
            vstd::seq_lib::lemma_multiset_commutative(a.push(e), b);
            assert(new_v.to_multiset() =~= old_v.to_multiset().insert(e));
            assert forall|x: int, y: int| 0 <= x < y < new_v.len() implies #[trigger] ord(new_v[x], new_v[y]) by {
                if y < p {
                    assert(ord(old_v[x], old_v[y]));
                } else if y == p {
                    assert(listing_le(old_v[x], e));
                } else if x > p {
                    assert(ord(old_v[x - 1], old_v[y - 1]));
                } else if x == p {
                    assert(listing_le(e, old_v[y - 1]));
                } else {
                    assert(ord(old_v[x], old_v[y - 1]));
                }
            }
            assert(out@.to_multiset().add(rest@.to_multiset()) =~= orig.to_multiset());
        }
    }
    proof {
        assert(rest@.to_multiset() =~= Multiset::empty());
        assert(out@.to_multiset() =~= orig.to_multiset());
    }
    out
}

// ── Interaction history ──────────────────────────────────────────────────

/// Query of a contract's interaction history.
#[derive(Debug, Clone)]
pub struct InteractionsV1Query {
    /// Maximum number of results to return (1–100, default 50).
    pub limit: i64,
    /// Zero-based offset for page-based navigation (default 0).
    pub offset: i64,
    /// Opaque cursor returned by a previous response.
    pub cursor: Option<String>,
    /// Only interactions at or after this time (RFC 3339).
    pub since: Option<String>,
    /// Only interactions at or before this time (RFC 3339).
    pub until: Option<String>,
    /// Filter by called function.
    pub function: Option<String>,
    /// "json" (default) or "csv".
    pub format: String,
}

pub fn default_limit() -> (n: i64)
    ensures
        n == 50,
{
    50
}

pub fn default_format() -> (s: String)
    ensures
        s@ == "json"@,
{
    String::from_str("json")
}

/// The page asked for: limit held in 1..=100, offset not negative; a valid
/// cursor replaces the offset by 0.
pub fn page_bounds(limit: i64, offset: i64, cursor_valid: bool) -> (r: (i64, i64))
    ensures
        r.0 == (if limit < 1 { 1 } else if limit > 100 { 100 } else { limit }),
        r.1 == (if cursor_valid { 0 } else if offset < 0 { 0 } else { offset }),
{
    let l = if limit < 1 {
        1
    } else if limit > 100 {
        100
    } else {
        limit
    };
    let o = if cursor_valid {
        0
    } else if offset < 0 {
        0
    } else {
        offset
    };
    (l, o)
}

/// JSON answers are cached; CSV exports are always fresh.
pub fn serves_from_cache(format: &str) -> (b: bool)
    ensures
        b == (format@ != "csv"@),
{
    !str_eq(format, "csv")
}

pub open spec fn or_empty(s: Option<&str>) -> Seq<char> {
    match s {
        Some(x) => x@,
        None => Seq::empty(),
    }
}

/// Cache key of a listing: `<contract>:<limit>:<offset>:<cursor>:<since>:<until>:<function>`,
/// absent parts empty.
pub fn interactions_cache_key(
    contract_id: &str,
    limit: i64,
    offset: i64,
    cursor: Option<&str>,
    since: Option<&str>,
    until: Option<&str>,
    function: Option<&str>,
) -> (k: String)
    ensures
        k@ == contract_id@ + ":"@ + i64_decimal_chars(limit) + ":"@ + i64_decimal_chars(offset) + ":"@
            + or_empty(cursor) + ":"@ + or_empty(since) + ":"@ + or_empty(until) + ":"@ + or_empty(function),
{
    let mut k = String::from_str(contract_id);
    k.append(":");
    let a = i64_to_string(limit);
    k.append(a.as_str());
    k.append(":");
    let b = i64_to_string(offset);
    k.append(b.as_str());
    k.append(":");
    if let Some(c) = cursor {
        k.append(c);
    }
    k.append(":");
    if let Some(s) = since {
        k.append(s);
    }
    k.append(":");
    if let Some(u) = until {
        k.append(u);
    }
    k.append(":");
    if let Some(f) = function {
        k.append(f);
    }
    k
}

/// A failed publication counts as an error.
pub fn is_error_interaction(interaction_type: &str) -> (b: bool)
    ensures
        b == (interaction_type@ == "publish_failed"@),
{
    str_eq(interaction_type, "publish_failed")
}

/// A full page gets a cursor for the next one.
pub fn has_next_page(items: usize, limit: i64) -> (b: bool)
    requires
        limit >= 1,
    ensures
        b == (items >= limit),
{
    (items as u64) >= (limit as u64)
}

/// A listed interaction as CSV fields (id and time already formatted).
#[derive(Debug, Clone)]
pub struct CsvRow {
    pub id: String,
    pub caller: Option<String>,
    pub function: Option<String>,
    pub transaction_hash: Option<String>,
    pub timestamp: String,
    pub is_error: bool,
}

pub open spec fn opt_text(s: Option<String>) -> Seq<char> {
    match s {
        Some(x) => x@,
        None => Seq::empty(),
    }
}

/// One CSV line.
pub open spec fn csv_line(r: CsvRow) -> Seq<char> {
    r.id@ + ","@ + opt_text(r.caller) + ","@ + opt_text(r.function) + ","@ + opt_text(r.transaction_hash) + ","@
        + r.timestamp@ + ","@ + (if r.is_error { "true"@ } else { "false"@ }) + "\n"@
}

/// The CSV export: a header line, then one line per interaction.
pub open spec fn csv_spec(rows: Seq<CsvRow>) -> Seq<char>
    decreases rows.len(),
{
    if rows.len() == 0 {
        "id,caller,function,transaction_hash,timestamp,is_error\n"@
    } else {
        csv_spec(rows.drop_last()) + csv_line(rows.last())
    }
}

fn append_opt(s: &mut String, o: &Option<String>)
    ensures
        final(s)@ == old(s)@ + opt_text(*o),
{
    if let Some(x) = o {
        s.append(x.as_str());
    }
}

pub fn build_csv(rows: &Vec<CsvRow>) -> (out: String)
    ensures
        out@ == csv_spec(rows@),
{
    let mut out = String::from_str("id,caller,function,transaction_hash,timestamp,is_error\n");
    let mut i: usize = 0;
    assert(rows@.take(0) =~= Seq::<CsvRow>::empty());
    while i < rows.len()
        invariant
            i <= rows@.len(),
            out@ == csv_spec(rows@.take(i as int)),
        decreases rows@.len() - i,
    {
        assert(rows@.take(i + 1).drop_last() =~= rows@.take(i as int));
        let r = &rows[i];
        out.append(r.id.as_str());
        out.append(",");
        append_opt(&mut out, &r.caller);
        out.append(",");
        append_opt(&mut out, &r.function);
        out.append(",");
        append_opt(&mut out, &r.transaction_hash);
        out.append(",");
        out.append(r.timestamp.as_str());
        out.append(",");
        if r.is_error {
            out.append("true");
        } else {
            out.append("false");
        }
        out.append("\n");
        i = i + 1;
    }
    assert(rows@.take(i as int) =~= rows@);
    out
}

/// A contract id that is not a UUID.
pub fn invalid_contract_id(id: &str) -> (e: ApiError)
    ensures
        e.status == 400,
        e.code@ == "InvalidContractId"@,
        e.message@ == "Invalid contract ID format: "@ + id@,
{
    let mut m = String::from_str("Invalid contract ID format: ");
    m.append(id);
    ApiError::bad_request_with("InvalidContractId", m)
}

/// The contract of an interaction listing: its id must be a UUID.
pub fn listing_contract_id(id: &str) -> (r: Result<u128, ApiError>)
    ensures
        match uuid_text_value(id@) {
            Some(u) => r == Ok::<u128, ApiError>(u),
            None => r matches Err(e) && e.status == 400 && e.code@ == "InvalidContractId"@
                && e.message@ == "Invalid contract ID format: "@ + id@,
        },
{
    match parse_uuid(id) {
        Some(u) => Ok(u),
        None => Err(invalid_contract_id(id)),
    }
}

} // verus!
