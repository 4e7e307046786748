//! Contract state monitoring: request parameters of the history and
//! anomaly endpoints, point-in-time anchors, and the diff between two
//! derived state snapshots.

use vstd::prelude::*;
use vstd::string::*;
use crate::error::ApiError;
use crate::ordering::{lex_lt, sorted_distinct, strictly_ascending, views};
use crate::text::{chars_of, chars_range_eq, parse_uuid, str_eq, uuid_text_value};

verus! {

broadcast use vstd::string::group_string_axioms;

/// A contract's state changes, as listed to clients (`E` is the entry type
/// the monitor records).
#[derive(Debug, Clone)]
pub struct StateHistoryResponse<E> {
    pub contract_id: String,
    pub changes: Vec<E>,
    pub total: i64,
}

/// Unresolved anomalies, as listed to clients (`A` is the anomaly type the
/// monitor records).
#[derive(Debug, Clone)]
pub struct AnomaliesResponse<A> {
    pub anomalies: Vec<A>,
    pub total: i64,
}

#[derive(Debug, Clone, Copy)]
pub struct StateHistoryQuery {
    pub limit: Option<i32>,
}

#[derive(Debug, Clone)]
pub struct AnomaliesQuery {
    pub severity: Option<String>,
    pub limit: Option<i32>,
}

#[derive(Debug, Clone)]
pub struct ResolveAnomalyRequest {
    pub resolution_notes: Option<String>,
}

/// Rows listed: 1 to 1000, 50 when not asked.
pub fn page_limit(limit: Option<i32>) -> (l: i32)
    ensures
        l == (match limit {
            Some(x) => if x < 1 {
                1
            } else if x > 1000 {
                1000
            } else {
                x
            },
            None => 50,
        }),
{
    let x = match limit {
        Some(x) => x,
        None => 50,
    };
    if x < 1 {
        1
    } else if x > 1000 {
        1000
    } else {
        x
    }
}

/// The monitor is switched off.
pub fn monitor_disabled() -> (e: ApiError)
    ensures
        e.status == 503,
        e.code@ == "STATE_MONITOR_DISABLED"@,
{
    ApiError::service_unavailable_with("STATE_MONITOR_DISABLED", "State monitor service is not enabled")
}

/// A contract id in a path must be a UUID.
pub fn parse_contract_id(s: &str) -> (r: Result<u128, ApiError>)
    ensures
        match uuid_text_value(s@) {
            Some(u) => r == Ok::<u128, ApiError>(u),
            None => r matches Err(e) && e.status == 400 && e.message@
                == "contract_id must be a valid UUID"@,
        },
{
    match parse_uuid(s) {
        Some(u) => Ok(u),
        None => Err(ApiError::bad_request_msg("contract_id must be a valid UUID")),
    }
}

// ── Anchors ──────────────────────────────────────────────────────────────

/// A point of a contract's history: a ledger, or a time (microseconds
/// since the epoch).
#[derive(Debug, Clone, Copy, PartialEq, Eq)]
pub enum Anchor {
    Ledger(i64),
    Timestamp(i64),
}

/// Exactly one of ledger and timestamp, the ledger not negative.
pub fn parse_anchor(ledger: Option<i64>, timestamp: Option<i64>) -> (r: Result<Anchor, ApiError>)
    ensures
        match (ledger, timestamp) {
            (Some(_), Some(_)) => r matches Err(e) && e.status == 400 && e.message@
                == "supply exactly one of `ledger` or `timestamp`, not both"@,
            (None, None) => r matches Err(e) && e.status == 400 && e.message@
                == "supply one of `ledger` or `timestamp`"@,
            (Some(n), None) => if n < 0 {
                r matches Err(e) && e.status == 400 && e.message@ == "`ledger` must be non-negative"@
            } else {
                r == Ok::<Anchor, ApiError>(Anchor::Ledger(n))
            },
            (None, Some(t)) => r == Ok::<Anchor, ApiError>(Anchor::Timestamp(t)),
        },
{
    match (ledger, timestamp) {
        (Some(_), Some(_)) => Err(
            ApiError::bad_request_msg("supply exactly one of `ledger` or `timestamp`, not both"),
        ),
        (None, None) => Err(ApiError::bad_request_msg("supply one of `ledger` or `timestamp`")),
        (Some(n), None) => if n < 0 {
            Err(ApiError::bad_request_msg("`ledger` must be non-negative"))
        } else {
            Ok(Anchor::Ledger(n))
        },
        (None, Some(t)) => Ok(Anchor::Timestamp(t)),
    }
}

/// `s` with every non-overlapping occurrence of `pat` (left to right)
/// replaced by `rep`, as `str::replace` does.
pub open spec fn replace_all(s: Seq<char>, pat: Seq<char>, rep: Seq<char>) -> Seq<char>
    recommends
        pat.len() > 0,
    decreases s.len(),
{
    if pat.len() == 0 || s.len() < pat.len() {
        s
    } else if s.subrange(0, pat.len() as int) == pat {
        rep + replace_all(s.skip(pat.len() as int), pat, rep)
    } else {
        seq![s[0]] + replace_all(s.skip(1), pat, rep)
    }
}

/// `str::replace` for a non-empty pattern.
pub fn replace_str(s: &str, pat: &str, rep: &str) -> (r: String)
    requires
        pat@.len() > 0,
    ensures
        r@ == replace_all(s@, pat@, rep@),
{
    let v = chars_of(s);
    let pv = chars_of(pat);
    let mut out = String::new();
    let mut i: usize = 0;
    assert(s@.skip(0) =~= s@);
    while i < v.len()
        invariant
            v@ == s@,
            pv@ == pat@,
            pat@.len() > 0,
            i <= v@.len(),
            replace_all(s@, pat@, rep@) == out@ + replace_all(s@.skip(i as int), pat@, rep@),
        decreases v@.len() - i,
    {
        let ghost rest = s@.skip(i as int);
        if pv.len() <= v.len() - i && chars_range_eq(&v, i, i + pv.len(), &pv) {
            assert(rest.subrange(0, pat@.len() as int) =~= v@.subrange(i as int, i + pv@.len()));
            assert(rest.skip(pat@.len() as int) =~= s@.skip(i + pv@.len()));
            out.append(rep);
            i = i + pv.len();
        } else {
            if pv.len() <= v.len() - i {
                assert(rest.subrange(0, pat@.len() as int) =~= v@.subrange(i as int, i + pv@.len()));
            }
            assert(rest[0] == v@[i as int]);
            assert(rest.skip(1) =~= s@.skip(i + 1));
            let piece = s.substring_char(i, i + 1);
            assert(piece@ =~= seq![rest[0]]);
            out.append(piece);
            i = i + 1;
        }
    }
    assert(s@.skip(i as int).len() == 0);
    out
}

/// A side's anchor error, its parameter names given the side's prefix.
pub fn prefix_param_error(err: ApiError, prefix: &str) -> (e: ApiError)
    ensures
        e.status == 400,
        e.message@ == replace_all(
            replace_all(err.message@, "`ledger`"@, "`"@ + prefix@ + "ledger`"@),
            "`timestamp`"@,
            "`"@ + prefix@ + "timestamp`"@,
        ),
{
    proof {
        reveal_strlit("`ledger`");
        reveal_strlit("`timestamp`");
    }
    let mut l = String::from_str("`");
    l.append(prefix);
    l.append("ledger`");
    let mut t = String::from_str("`");
    t.append(prefix);
    t.append("timestamp`");
    let m1 = replace_str(err.message.as_str(), "`ledger`", l.as_str());
    let m2 = replace_str(m1.as_str(), "`timestamp`", t.as_str());
    ApiError::with_message(400, "BAD_REQUEST", m2)
}

// ── Snapshots and their diff ─────────────────────────────────────────────

/// A key's latest row in a derived snapshot.
#[derive(Debug, Clone)]
pub struct StateRow {
    pub state_key: String,
    pub value: Option<String>,
    pub value_type: Option<String>,
}

/// A key added or removed between two snapshots.
#[derive(Debug, Clone)]
pub struct DiffEntry {
    pub state_key: String,
    pub value: Option<String>,
    pub value_type: Option<String>,
}

/// A key whose value changed between two snapshots.
#[derive(Debug, Clone)]
pub struct ChangedEntry {
    pub state_key: String,
    pub from_value: Option<String>,
    pub to_value: Option<String>,
    pub value_type: Option<String>,
}

/// The diff of two snapshots, each part ascending by key.
#[derive(Debug, Clone)]
pub struct DiffParts {
    pub added: Vec<DiffEntry>,
    pub removed: Vec<DiffEntry>,
    pub changed: Vec<ChangedEntry>,
}

pub open spec fn opt_view(s: Option<String>) -> Option<Seq<char>> {
    match s {
        Some(x) => Some(x@),
        None => None,
    }
}

/// Rows whose value is present (a missing value marks a deleted key).
pub open spec fn live_spec(rows: Seq<StateRow>) -> Seq<StateRow>
    decreases rows.len(),
{
    if rows.len() == 0 {
        Seq::empty()
    } else if rows.last().value is Some {
        live_spec(rows.drop_last()).push(rows.last())
    } else {
        live_spec(rows.drop_last())
    }
}

fn clone_opt(s: &Option<String>) -> (r: Option<String>)
    ensures
        r == *s,
{
    match s {
        Some(x) => Some(x.clone()),
        None => None,
    }
}

fn clone_row(r: &StateRow) -> (c: StateRow)
    ensures
        c.state_key == r.state_key,
        c.value == r.value,
        c.value_type == r.value_type,
{
    StateRow {
        state_key: r.state_key.clone(),
        value: clone_opt(&r.value),
        value_type: clone_opt(&r.value_type),
    }
}

pub open spec fn row_eq(a: StateRow, b: StateRow) -> bool {
    a.state_key == b.state_key && a.value == b.value && a.value_type == b.value_type
}

/// The live rows of a snapshot, in order.
pub fn live_rows(rows: &Vec<StateRow>) -> (out: Vec<StateRow>)
    ensures
        out@.len() == live_spec(rows@).len(),
        forall|i: int| 0 <= i < out@.len() ==> row_eq(#[trigger] out@[i], live_spec(rows@)[i]),
{
    let mut out: Vec<StateRow> = Vec::new();
    let mut i: usize = 0;
    while i < rows.len()
        invariant
            i <= rows@.len(),
            out@.len() == live_spec(rows@.take(i as int)).len(),
            forall|k: int| 0 <= k < out@.len() ==> row_eq(#[trigger] out@[k], live_spec(rows@.take(i as int))[k]),
        decreases rows@.len() - i,
    {
        assert(rows@.take(i + 1).drop_last() =~= rows@.take(i as int));
        if rows[i].value.is_some() {
            out.push(clone_row(&rows[i]));
        }
        i = i + 1;
    }
    assert(rows@.take(i as int) =~= rows@);
    out
}

/// Index of the last row for key `k` among the first `n` rows, or -1.
pub open spec fn last_index(rows: Seq<StateRow>, k: Seq<char>, n: int) -> int
    decreases n,
{
    if n <= 0 {
        -1
    } else if rows[n - 1].state_key@ == k {
        n - 1
    } else {
        last_index(rows, k, n - 1)
    }
}

proof fn lemma_last_index(rows: Seq<StateRow>, k: Seq<char>, n: int)
    requires
        0 <= n <= rows.len(),
    ensures
        -1 <= last_index(rows, k, n) < n,
        last_index(rows, k, n) >= 0 ==> rows[last_index(rows, k, n)].state_key@ == k,
        last_index(rows, k, n) < 0 ==> forall|j: int| 0 <= j < n ==> rows[j].state_key@ != k,
    decreases n,
{
    if n > 0 {
        lemma_last_index(rows, k, n - 1);
    }
}

/// A snapshot has key `k` (as a map built from its rows, later rows
/// overriding earlier ones).
pub open spec fn has_key(rows: Seq<StateRow>, k: Seq<char>) -> bool {
    last_index(rows, k, rows.len() as int) >= 0
}

/// The row a snapshot holds for a key it has.
pub open spec fn row_for(rows: Seq<StateRow>, k: Seq<char>) -> StateRow {
    rows[last_index(rows, k, rows.len() as int)]
}

fn find_last(rows: &Vec<StateRow>, key: &str) -> (r: Option<usize>)
    ensures
        match r {
            Some(i) => i as int == last_index(rows@, key@, rows@.len() as int) && i < rows@.len(),
            None => last_index(rows@, key@, rows@.len() as int) < 0,
        },
{
    let mut n: usize = rows.len();
    while n > 0
        invariant
            n <= rows@.len(),
            last_index(rows@, key@, rows@.len() as int) == last_index(rows@, key@, n as int),
        decreases n,
    {
        if str_eq(rows[n - 1].state_key.as_str(), key) {
            return Some(n - 1);
        }
        n = n - 1;
    }
    None
}

fn opt_eq(a: &Option<String>, b: &Option<String>) -> (r: bool)
    ensures
        r == (opt_view(*a) == opt_view(*b)),
{
    match (a, b) {
        (Some(x), Some(y)) => str_eq(x.as_str(), y.as_str()),
        (None, None) => true,
        _ => false,
    }
}

fn keys_of(rows: &Vec<StateRow>) -> (k: Vec<String>)
    ensures
        k@.len() == rows@.len(),
        forall|i: int| 0 <= i < rows@.len() ==> #[trigger] k@[i] == rows@[i].state_key,
{
    let mut k: Vec<String> = Vec::new();
    let mut i: usize = 0;
    while i < rows.len()
        invariant
            i <= rows@.len(),
            k@.len() == i,
            forall|j: int| 0 <= j < i ==> #[trigger] k@[j] == rows@[j].state_key,
        decreases rows@.len() - i,
    {
        k.push(rows[i].state_key.clone());
        i = i + 1;
    }
    k
}

proof fn lemma_key_in_rows(rows: Seq<StateRow>, keys: Seq<String>, x: Seq<char>)
    requires
        keys.len() == rows.len(),
        forall|i: int| 0 <= i < rows.len() ==> #[trigger] keys[i] == rows[i].state_key,
    ensures
        views(keys).contains(x) <==> has_key(rows, x),
{
    lemma_last_index(rows, x, rows.len() as int);
    if views(keys).contains(x) {
        let i = choose|i: int| 0 <= i < views(keys).len() && views(keys)[i] == x;
        assert(rows[i].state_key@ == x);
    }
    if has_key(rows, x) {
        let i = last_index(rows, x, rows.len() as int);
        assert(views(keys)[i] == x);
    }
}

/// An added key: present in `to` only, with its `to` row.
pub open spec fn added_ok(e: DiffEntry, from: Seq<StateRow>, to: Seq<StateRow>) -> bool {
    let k = e.state_key@;
    &&& has_key(to, k) && !has_key(from, k)
    &&& e.value == row_for(to, k).value && e.value_type == row_for(to, k).value_type
}

/// A removed key: present in `from` only, with its `from` row.
pub open spec fn removed_ok(e: DiffEntry, from: Seq<StateRow>, to: Seq<StateRow>) -> bool {
    let k = e.state_key@;
    &&& has_key(from, k) && !has_key(to, k)
    &&& e.value == row_for(from, k).value && e.value_type == row_for(from, k).value_type
}

/// A changed key: present in both with different values; the value type
/// is the `to` side's, else the `from` side's.
pub open spec fn changed_ok(e: ChangedEntry, from: Seq<StateRow>, to: Seq<StateRow>) -> bool {
    let k = e.state_key@;
    &&& has_key(from, k) && has_key(to, k)
    &&& opt_view(row_for(from, k).value) != opt_view(row_for(to, k).value)
    &&& e.from_value == row_for(from, k).value && e.to_value == row_for(to, k).value
    &&& e.value_type == (match row_for(to, k).value_type {
        Some(t) => Some(t),
        None => row_for(from, k).value_type,
    })
}

pub open spec fn diff_keys(d: Seq<DiffEntry>) -> Seq<Seq<char>> {
    d.map_values(|e: DiffEntry| e.state_key@)
}

pub open spec fn changed_keys(d: Seq<ChangedEntry>) -> Seq<Seq<char>> {
    d.map_values(|e: ChangedEntry| e.state_key@)
}

proof fn lemma_push_keeps_contains(s: Seq<Seq<char>>, x: Seq<char>, y: Seq<char>)
    requires
        s.contains(y),
    ensures
        s.push(x).contains(y),
{
    let w = choose|w: int| 0 <= w < s.len() && s[w] == y;
    assert(s.push(x)[w] == y);
}

/// Keys in `to` but not `from` (with their `to` rows) and keys whose value
/// changed, each ascending by key.
fn added_and_changed(from: &Vec<StateRow>, to: &Vec<StateRow>) -> (r: (Vec<DiffEntry>, Vec<ChangedEntry>))
    ensures
        strictly_ascending(diff_keys(r.0@)),
        forall|i: int| 0 <= i < r.0@.len() ==> added_ok(#[trigger] r.0@[i], from@, to@),
        forall|k: Seq<char>| has_key(to@, k) && !has_key(from@, k) ==> #[trigger] diff_keys(r.0@).contains(k),
        strictly_ascending(changed_keys(r.1@)),
        forall|i: int| 0 <= i < r.1@.len() ==> changed_ok(#[trigger] r.1@[i], from@, to@),
        forall|k: Seq<char>| has_key(to@, k) && has_key(from@, k) && opt_view(row_for(from@, k).value)
            != opt_view(row_for(to@, k).value) ==> #[trigger] changed_keys(r.1@).contains(k),
{
    let tk = keys_of(to);
    let u = sorted_distinct(&tk);
    let ghost uv = views(u@);
    let mut added: Vec<DiffEntry> = Vec::new();
    let mut changed: Vec<ChangedEntry> = Vec::new();
    let mut i: usize = 0;
    while i < u.len()
        invariant
            i <= u@.len(),
            uv == views(u@),
            strictly_ascending(uv),
            tk@.len() == to@.len(),
            forall|j: int| 0 <= j < to@.len() ==> #[trigger] tk@[j] == to@[j].state_key,
            forall|x: Seq<char>| #[trigger] uv.contains(x) == views(tk@).contains(x),
            forall|m: int| 0 <= m < added@.len() ==> added_ok(#[trigger] added@[m], from@, to@),
            forall|m: int| 0 <= m < changed@.len() ==> changed_ok(#[trigger] changed@[m], from@, to@),
            forall|m: int| 0 <= m < added@.len() ==> exists|q: int| 0 <= q < i && #[trigger] diff_keys(added@)[m] == uv[q],
            forall|m: int| 0 <= m < changed@.len() ==> exists|q: int| 0 <= q < i && #[trigger] changed_keys(changed@)[m] == uv[q],
            strictly_ascending(diff_keys(added@)),
            strictly_ascending(changed_keys(changed@)),
            forall|q: int| 0 <= q < i && !has_key(from@, #[trigger] uv[q]) ==> diff_keys(added@).contains(uv[q]),
            forall|q: int| 0 <= q < i && has_key(from@, #[trigger] uv[q]) && opt_view(row_for(from@, uv[q]).value)
                != opt_view(row_for(to@, uv[q]).value) ==> changed_keys(changed@).contains(uv[q]),
        decreases u@.len() - i,
    {
        let key = u[i].as_str();
        let ghost k = key@;
        assert(uv[i as int] == k);
        assert(uv.contains(k));
        proof {
            lemma_key_in_rows(to@, tk@, k);
        }
        let t = match find_last(to, key) {
            Some(t) => t,
            None => {
                assert(false);
                return (added, changed);
            },
        };
        let f = find_last(from, key);
        let ghost before_a = diff_keys(added@);
        let ghost before_c = changed_keys(changed@);
        match f {
            None => {
                let e = DiffEntry {
                    state_key: u[i].clone(),
                    value: clone_opt(&to[t].value),
                    value_type: clone_opt(&to[t].value_type),
                };
                assert(added_ok(e, from@, to@));
                added.push(e);
                proof {
                    assert(diff_keys(added@) =~= before_a.push(k));
                    assert forall|a: int, b: int| 0 <= a < b < diff_keys(added@).len() implies lex_lt(
                        #[trigger] diff_keys(added@)[a],
                        #[trigger] diff_keys(added@)[b],
                    ) by {
                        if b == before_a.len() {
                            let q = choose|q: int| 0 <= q < i && #[trigger] before_a[a] == uv[q];
                            assert(lex_lt(uv[q], uv[i as int]));
                        } else {
                            assert(lex_lt(before_a[a], before_a[b]));
                        }
                    }
                    assert forall|m: int| 0 <= m < added@.len() implies exists|q: int| 0 <= q < i + 1 && #[trigger] diff_keys(added@)[m] == uv[q] by {
                        if m < before_a.len() {
                            let q = choose|q: int| 0 <= q < i && #[trigger] before_a[m] == uv[q];
                            assert(diff_keys(added@)[m] == uv[q]);
                        } else {
                            assert(diff_keys(added@)[m] == uv[i as int]);
                        }
                    }
                    assert forall|q: int| 0 <= q < i + 1 && !has_key(from@, #[trigger] uv[q]) implies diff_keys(added@).contains(uv[q]) by {
                        if q < i {
                            lemma_push_keeps_contains(before_a, k, uv[q]);
                        } else {
                            assert(diff_keys(added@)[before_a.len() as int] == uv[q]);
                        }
                    }
                    assert forall|m: int| 0 <= m < changed@.len() implies exists|q: int| 0 <= q < i + 1 && #[trigger] changed_keys(changed@)[m] == uv[q] by {
                        let q = choose|q: int| 0 <= q < i && #[trigger] changed_keys(changed@)[m] == uv[q];
                    }
                }
            },
            Some(fi) => {
                if !opt_eq(&from[fi].value, &to[t].value) {
                    let vt = match &to[t].value_type {
                        Some(x) => Some(x.clone()),
                        None => clone_opt(&from[fi].value_type),
                    };
                    let e = ChangedEntry {
                        state_key: u[i].clone(),
                        from_value: clone_opt(&from[fi].value),
                        to_value: clone_opt(&to[t].value),
                        value_type: vt,
                    };
                    assert(changed_ok(e, from@, to@));
                    changed.push(e);
                    proof {
                        assert(changed_keys(changed@) =~= before_c.push(k));
                        assert forall|a: int, b: int| 0 <= a < b < changed_keys(changed@).len() implies lex_lt(
                            #[trigger] changed_keys(changed@)[a],
                            #[trigger] changed_keys(changed@)[b],
                        ) by {
                            if b == before_c.len() {
                                let q = choose|q: int| 0 <= q < i && #[trigger] before_c[a] == uv[q];
                                assert(lex_lt(uv[q], uv[i as int]));
                            } else {
                                assert(lex_lt(before_c[a], before_c[b]));
                            }
                        }
                        assert forall|m: int| 0 <= m < changed@.len() implies exists|q: int| 0 <= q < i + 1 && #[trigger] changed_keys(changed@)[m] == uv[q] by {
                            if m < before_c.len() {
                                let q = choose|q: int| 0 <= q < i && #[trigger] before_c[m] == uv[q];
                                assert(changed_keys(changed@)[m] == uv[q]);
                            } else {
                                assert(changed_keys(changed@)[m] == uv[i as int]);
                            }
                        }
                        assert forall|q: int| 0 <= q < i + 1 && has_key(from@, #[trigger] uv[q]) && opt_view(row_for(from@, uv[q]).value)
                            != opt_view(row_for(to@, uv[q]).value) implies changed_keys(changed@).contains(uv[q]) by {
                            if q < i {
                                lemma_push_keeps_contains(before_c, k, uv[q]);
                            } else {
                                assert(changed_keys(changed@)[before_c.len() as int] == uv[q]);
                            }
                        }
                        assert forall|m: int| 0 <= m < added@.len() implies exists|q: int| 0 <= q < i + 1 && #[trigger] diff_keys(added@)[m] == uv[q] by {
                            let q = choose|q: int| 0 <= q < i && #[trigger] diff_keys(added@)[m] == uv[q];
                        }
                    }
                } else {
                    proof {
                        assert forall|m: int| 0 <= m < added@.len() implies exists|q: int| 0 <= q < i + 1 && #[trigger] diff_keys(added@)[m] == uv[q] by {
                            let q = choose|q: int| 0 <= q < i && #[trigger] diff_keys(added@)[m] == uv[q];
                        }
                        assert forall|m: int| 0 <= m < changed@.len() implies exists|q: int| 0 <= q < i + 1 && #[trigger] changed_keys(changed@)[m] == uv[q] by {
                            let q = choose|q: int| 0 <= q < i && #[trigger] changed_keys(changed@)[m] == uv[q];
                        }
                    }
                }
            },
        }
        i = i + 1;
    }
    proof {
        assert forall|x: Seq<char>| has_key(to@, x) && !has_key(from@, x) implies #[trigger] diff_keys(added@).contains(x) by {
            lemma_key_in_rows(to@, tk@, x);
            assert(uv.contains(x));
            let q = choose|q: int| 0 <= q < uv.len() && uv[q] == x;
        }
        assert forall|x: Seq<char>| has_key(to@, x) && has_key(from@, x) && opt_view(row_for(from@, x).value)
            != opt_view(row_for(to@, x).value) implies #[trigger] changed_keys(changed@).contains(x) by {
            lemma_key_in_rows(to@, tk@, x);
            assert(uv.contains(x));
            let q = choose|q: int| 0 <= q < uv.len() && uv[q] == x;
        }
    }
    (added, changed)
}

/// Keys in `from` but not `to`, ascending, with their `from` rows.
fn removed_keys(from: &Vec<StateRow>, to: &Vec<StateRow>) -> (r: Vec<DiffEntry>)
    ensures
        strictly_ascending(diff_keys(r@)),
        forall|i: int| 0 <= i < r@.len() ==> removed_ok(#[trigger] r@[i], from@, to@),
        forall|k: Seq<char>| has_key(from@, k) && !has_key(to@, k) ==> #[trigger] diff_keys(r@).contains(k),
{
    let fk = keys_of(from);
    let u = sorted_distinct(&fk);
    let ghost uv = views(u@);
    let mut removed: Vec<DiffEntry> = Vec::new();
    let mut i: usize = 0;
    while i < u.len()
        invariant
            i <= u@.len(),
            uv == views(u@),
            strictly_ascending(uv),
            fk@.len() == from@.len(),
            forall|j: int| 0 <= j < from@.len() ==> #[trigger] fk@[j] == from@[j].state_key,
            forall|x: Seq<char>| #[trigger] uv.contains(x) == views(fk@).contains(x),
            forall|m: int| 0 <= m < removed@.len() ==> removed_ok(#[trigger] removed@[m], from@, to@),
            forall|m: int| 0 <= m < removed@.len() ==> exists|q: int| 0 <= q < i && #[trigger] diff_keys(removed@)[m] == uv[q],
            strictly_ascending(diff_keys(removed@)),
            forall|q: int| 0 <= q < i && !has_key(to@, #[trigger] uv[q]) ==> diff_keys(removed@).contains(uv[q]),
        decreases u@.len() - i,
    {
        let key = u[i].as_str();
        let ghost k = key@;
        assert(uv[i as int] == k);
        assert(uv.contains(k));
        proof {
            lemma_key_in_rows(from@, fk@, k);
        }
        let f = match find_last(from, key) {
            Some(f) => f,
            None => {
                assert(false);
                return removed;
            },
        };
        let ghost before = diff_keys(removed@);
        if find_last(to, key).is_none() {
            let e = DiffEntry {
                state_key: u[i].clone(),
                value: clone_opt(&from[f].value),
                value_type: clone_opt(&from[f].value_type),
            };
            assert(removed_ok(e, from@, to@));
            removed.push(e);
            proof {
                assert(diff_keys(removed@) =~= before.push(k));
                assert forall|a: int, b: int| 0 <= a < b < diff_keys(removed@).len() implies lex_lt(
                    #[trigger] diff_keys(removed@)[a],
                    #[trigger] diff_keys(removed@)[b],
                ) by {
                    if b == before.len() {
                        let q = choose|q: int| 0 <= q < i && #[trigger] before[a] == uv[q];
                        assert(lex_lt(uv[q], uv[i as int]));
                    } else {
                        assert(lex_lt(before[a], before[b]));
                    }
                }
                assert forall|m: int| 0 <= m < removed@.len() implies exists|q: int| 0 <= q < i + 1 && #[trigger] diff_keys(removed@)[m] == uv[q] by {
                    if m < before.len() {
                        let q = choose|q: int| 0 <= q < i && #[trigger] before[m] == uv[q];
                        assert(diff_keys(removed@)[m] == uv[q]);
                    } else {
                        assert(diff_keys(removed@)[m] == uv[i as int]);
                    }
                }
                assert forall|q: int| 0 <= q < i + 1 && !has_key(to@, #[trigger] uv[q]) implies diff_keys(removed@).contains(uv[q]) by {
                    if q < i {
                        lemma_push_keeps_contains(before, k, uv[q]);
                    } else {
                        assert(diff_keys(removed@)[before.len() as int] == uv[q]);
                    }
                }
            }
        } else {
            proof {
                assert forall|m: int| 0 <= m < removed@.len() implies exists|q: int| 0 <= q < i + 1 && #[trigger] diff_keys(removed@)[m] == uv[q] by {
                    let q = choose|q: int| 0 <= q < i && #[trigger] diff_keys(removed@)[m] == uv[q];
                }
            }
        }
        i = i + 1;
    }
    proof {
        assert forall|x: Seq<char>| has_key(from@, x) && !has_key(to@, x) implies #[trigger] diff_keys(removed@).contains(x) by {
            lemma_key_in_rows(from@, fk@, x);
            assert(uv.contains(x));
            let q = choose|q: int| 0 <= q < uv.len() && uv[q] == x;
        }
    }
    removed
}

/// The diff of two snapshots (each its live rows, later rows for a key
/// overriding earlier ones): keys only in `to` are added, keys only in
/// `from` removed, keys in both whose values differ changed; each part is
/// ascending by key with no key twice.
pub fn diff_snapshots(from: &Vec<StateRow>, to: &Vec<StateRow>) -> (d: DiffParts)
    ensures
        strictly_ascending(diff_keys(d.added@)),
        forall|i: int| 0 <= i < d.added@.len() ==> added_ok(#[trigger] d.added@[i], from@, to@),
        forall|k: Seq<char>| has_key(to@, k) && !has_key(from@, k) ==> #[trigger] diff_keys(d.added@).contains(k),
        strictly_ascending(diff_keys(d.removed@)),
        forall|i: int| 0 <= i < d.removed@.len() ==> removed_ok(#[trigger] d.removed@[i], from@, to@),
        forall|k: Seq<char>| has_key(from@, k) && !has_key(to@, k) ==> #[trigger] diff_keys(d.removed@).contains(k),
        strictly_ascending(changed_keys(d.changed@)),
        forall|i: int| 0 <= i < d.changed@.len() ==> changed_ok(#[trigger] d.changed@[i], from@, to@),
        forall|k: Seq<char>| has_key(to@, k) && has_key(from@, k) && opt_view(row_for(from@, k).value)
            != opt_view(row_for(to@, k).value) ==> #[trigger] changed_keys(d.changed@).contains(k),
{
    let (added, changed) = added_and_changed(from, to);
    let removed = removed_keys(from, to);
    DiffParts { added, removed, changed }
}

/// Identical snapshots differ nowhere.
pub proof fn law_diff_of_identical_is_empty(rows: Seq<StateRow>, d: DiffParts)
    requires
        forall|i: int| 0 <= i < d.added@.len() ==> added_ok(#[trigger] d.added@[i], rows, rows),
        forall|i: int| 0 <= i < d.removed@.len() ==> removed_ok(#[trigger] d.removed@[i], rows, rows),
        forall|i: int| 0 <= i < d.changed@.len() ==> changed_ok(#[trigger] d.changed@[i], rows, rows),
    ensures
        d.added@.len() == 0,
        d.removed@.len() == 0,
        d.changed@.len() == 0,
{
    if d.added@.len() > 0 {
        assert(added_ok(d.added@[0], rows, rows));
    }
    if d.removed@.len() > 0 {
        assert(removed_ok(d.removed@[0], rows, rows));
    }
    if d.changed@.len() > 0 {
        assert(changed_ok(d.changed@[0], rows, rows));
    }
}

} // verus!
