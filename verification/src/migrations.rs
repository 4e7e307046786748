//! Schema migrations: checksums, splitting a script into statements, the
//! checks before applying or rolling back a version, and the consistency
//! report over the recorded versions.

use vstd::prelude::*;
use vstd::string::*;
use vstd::utf8::encode_utf8;
use crate::access::{nonblank, trimmed};
use crate::crypto::{hex_encode, hex_lower, lemma_hex_lower_len, sha256, sha256_digest};
use crate::decimal::{i64_decimal_chars, i64_to_string};
use crate::error::ApiError;
use crate::text::{split_char, split_str, str_eq, trim, trim_str};

verus! {

broadcast use vstd::string::group_string_axioms;

/// Lower-case hex SHA-256 of a script.
pub open spec fn checksum_spec(content: Seq<char>) -> Seq<char> {
    hex_lower(sha256(encode_utf8(content)))
}

/// Compute the SHA-256 hex checksum of SQL content.
pub fn compute_checksum(content: &str) -> (c: String)
    ensures
        c@ == checksum_spec(content@),
        c@.len() == 64,
{
    let d = sha256_digest(content.as_bytes());
    proof {
        lemma_hex_lower_len(d@);
    }
    hex_encode(d.as_slice())
}

/// The statements of a script: the `;`-separated pieces, trimmed, blanks
/// dropped.
pub open spec fn statements_spec(sql: Seq<char>) -> Seq<Seq<char>> {
    trimmed(split_char(sql, ';')).filter(nonblank())
}

pub fn split_statements(sql: &str) -> (v: Vec<String>)
    ensures
        v@.map_values(|s: String| s@) == statements_spec(sql@),
{
    let pieces = split_str(sql, ';');
    let ghost w = trimmed(pieces@.map_values(|p: String| p@));
    let mut r: Vec<String> = Vec::new();
    let mut j: usize = 0;
    assert(w.take(0) =~= Seq::<Seq<char>>::empty());
    while j < pieces.len()
        invariant
            j <= pieces@.len(),
            w == trimmed(pieces@.map_values(|p: String| p@)),
            r@.map_values(|p: String| p@) == w.take(j as int).filter(nonblank()),
        decreases pieces@.len() - j,
    {
        let t = trim_str(pieces[j].as_str());
        let ghost before = r@.map_values(|p: String| p@);
        assert(w.take(j + 1) =~= w.take(j as int).push(w[j as int]));
        assert(w[j as int] == t@);
        proof {
            w.take(j as int).lemma_filter_push(w[j as int], nonblank());
        }
        if t.unicode_len() > 0 {
            r.push(String::from_str(t));
            assert(r@.map_values(|p: String| p@) =~= before.push(t@));
        }
        j = j + 1;
    }
    assert(w.take(j as int) =~= w);
    r
}

// ── Requests and responses ───────────────────────────────────────────────

#[derive(Debug, Clone)]
pub struct RegisterMigrationRequest {
    pub version: i32,
    pub description: String,
    pub filename: String,
    pub sql_content: String,
    pub down_sql: Option<String>,
}

#[derive(Debug, Clone)]
pub struct ApplyMigrationRequest {
    pub version: i32,
    pub description: String,
    pub filename: String,
    pub sql_content: String,
    pub down_sql: Option<String>,
    /// When true, parse and return the statements without executing them.
    pub dry_run: bool,
}

/// A rejected field of a request.
#[derive(Debug, Clone, PartialEq, Eq)]
pub struct FieldError {
    pub field: &'static str,
    pub message: &'static str,
}

impl ApplyMigrationRequest {
    /// Trims the description and file name.
    pub fn sanitize(&mut self)
        ensures
            final(self).description@ == trim(old(self).description@),
            final(self).filename@ == trim(old(self).filename@),
            final(self).version == old(self).version,
            final(self).sql_content == old(self).sql_content,
            final(self).down_sql == old(self).down_sql,
            final(self).dry_run == old(self).dry_run,
    {
        let d = String::from_str(trim_str(self.description.as_str()));
        self.description = d;
        let f = String::from_str(trim_str(self.filename.as_str()));
        self.filename = f;
    }

    /// Every field error of the request, in field order.
    pub fn validate(&self) -> (r: Result<(), Vec<FieldError>>)
        ensures
            r is Ok <==> (self.version > 0 && trim(self.description@).len() > 0 && trim(
                self.filename@,
            ).len() > 0 && trim(self.sql_content@).len() > 0),
            r matches Err(es) ==> es@.len() == (if self.version <= 0 { 1int } else { 0int }) + (if trim(
                self.description@,
            ).len() == 0 { 1int } else { 0int }) + (if trim(self.filename@).len() == 0 {
                1int
            } else {
                0int
            }) + (if trim(self.sql_content@).len() == 0 { 1int } else { 0int }),
    {
        let mut errors: Vec<FieldError> = Vec::new();
        if self.version <= 0 {
            errors.push(FieldError { field: "version", message: "must be a positive integer" });
        }
        if trim_str(self.description.as_str()).unicode_len() == 0 {
            errors.push(FieldError { field: "description", message: "must not be empty" });
        }
        if trim_str(self.filename.as_str()).unicode_len() == 0 {
            errors.push(FieldError { field: "filename", message: "must not be empty" });
        }
        if trim_str(self.sql_content.as_str()).unicode_len() == 0 {
            errors.push(FieldError { field: "sql_content", message: "must not be empty" });
        }
        if errors.len() == 0 {
            Ok(())
        } else {
            Err(errors)
        }
    }
}

#[derive(Debug, Clone)]
pub struct RegisterMigrationResponse {
    pub version: i32,
    pub checksum: String,
    pub message: String,
}

#[derive(Debug, Clone)]
pub struct ApplyMigrationResponse {
    pub version: i32,
    pub checksum: String,
    pub dry_run: bool,
    pub statements_preview: Vec<String>,
    pub execution_time_ms: Option<i32>,
    pub message: String,
}

#[derive(Debug, Clone)]
pub struct AuditLogQuery {
    pub limit: Option<i64>,
    pub offset: Option<i64>,
    pub operation: Option<String>,
    pub version: Option<i32>,
}

#[derive(Debug, Clone, PartialEq, Eq)]
pub struct ChecksumMismatch {
    pub version: i32,
    pub filename: String,
    pub expected_checksum: String,
    pub actual_checksum: String,
}

#[derive(Debug, Clone)]
pub struct MigrationValidationResponse {
    pub valid: bool,
    pub mismatches: Vec<ChecksumMismatch>,
    pub missing: Vec<i32>,
}

/// `"<prefix><n><suffix>"`.
fn with_number(prefix: &str, n: i64, suffix: &str) -> (s: String)
    ensures
        s@ == prefix@ + i64_decimal_chars(n) + suffix@,
{
    let mut s = String::from_str(prefix);
    let d = i64_to_string(n);
    s.append(d.as_str());
    s.append(suffix);
    s
}

/// The answer to a dry run: the statements that would run, nothing
/// executed.
pub fn dry_run_response(req: &ApplyMigrationRequest) -> (r: ApplyMigrationResponse)
    ensures
        r.version == req.version,
        r.checksum@ == checksum_spec(req.sql_content@),
        r.dry_run,
        r.statements_preview@.map_values(|s: String| s@) == statements_spec(req.sql_content@),
        r.execution_time_ms is None,
        r.message@ == "Dry-run for version "@ + i64_decimal_chars(req.version as i64) + ": "@
            + i64_decimal_chars(statements_spec(req.sql_content@).len() as i64)
            + " statement(s) would be executed"@,
{
    let statements = split_statements(req.sql_content.as_str());
    let checksum = compute_checksum(req.sql_content.as_str());
    let mut message = with_number("Dry-run for version ", req.version as i64, ": ");
    let n = i64_to_string(statements.len() as i64);
    message.append(n.as_str());
    message.append(" statement(s) would be executed");
    ApplyMigrationResponse {
        version: req.version,
        checksum,
        dry_run: true,
        statements_preview: statements,
        execution_time_ms: None,
        message,
    }
}

/// The answer once a migration's statements ran and it was recorded.
pub fn applied_response(version: i32, checksum: String, statements: Vec<String>) -> (r:
    ApplyMigrationResponse)
    ensures
        r.version == version,
        r.checksum == checksum,
        !r.dry_run,
        r.statements_preview == statements,
        r.execution_time_ms is None,
        r.message@ == "Migration version "@ + i64_decimal_chars(version as i64)
            + " applied successfully ("@ + i64_decimal_chars(statements@.len() as i64)
            + " statement(s))"@,
{
    let mut message = with_number("Migration version ", version as i64, " applied successfully (");
    let n = i64_to_string(statements.len() as i64);
    message.append(n.as_str());
    message.append(" statement(s))");
    ApplyMigrationResponse {
        version,
        checksum,
        dry_run: false,
        statements_preview: statements,
        execution_time_ms: None,
        message,
    }
}

/// The answer once a migration was registered without running it.
pub fn registered_response(version: i32, checksum: String) -> (r: RegisterMigrationResponse)
    ensures
        r.version == version,
        r.checksum == checksum,
        r.message@ == "Migration version "@ + i64_decimal_chars(version as i64)
            + " registered successfully"@,
{
    let message = with_number("Migration version ", version as i64, " registered successfully");
    RegisterMigrationResponse { version, checksum, message }
}

/// Another migration operation holds the lock.
pub fn locked_error() -> (e: ApiError)
    ensures
        e.status == 409,
        e.code@ == "MigrationLocked"@,
{
    ApiError::conflict(
        "MigrationLocked",
        "Another migration operation is in progress. Please try again later.",
    )
}

/// The version is taken: `applied` for an apply, else a registration.
pub fn version_exists_error(version: i32, applied: bool) -> (e: ApiError)
    ensures
        e.status == 409,
        e.code@ == "VersionExists"@,
        e.message@ == "Migration version "@ + i64_decimal_chars(version as i64) + (if applied {
            " is already applied"@
        } else {
            " is already registered"@
        }),
{
    let suffix = if applied {
        " is already applied"
    } else {
        " is already registered"
    };
    ApiError::with_message(409, "VersionExists", with_number("Migration version ", version as i64, suffix))
}

/// What is recorded of a version when rolling it back.
pub struct RollbackTarget {
    pub rolled_back: bool,
}

/// The checks before rolling back `version`: it is recorded, not rolled
/// back yet, has a rollback script, and the script still has its
/// recorded checksum.
pub fn rollback_precheck(
    version: i32,
    migration: Option<RollbackTarget>,
    script: Option<(&str, &str)>,
) -> (r: Result<(), ApiError>)
    ensures
        match migration {
            None => r matches Err(e) && e.status == 404 && e.code@ == "NotFound"@,
            Some(m) => if m.rolled_back {
                r matches Err(e) && e.status == 409 && e.code@ == "AlreadyRolledBack"@
            } else {
                match script {
                    None => r matches Err(e) && e.status == 404 && e.code@ == "NoRollbackScript"@,
                    Some(sc) => if checksum_spec(sc.0@) == sc.1@ {
                        r is Ok
                    } else {
                        r matches Err(e) && e.status == 409 && e.code@ == "ChecksumMismatch"@
                    },
                }
            },
        },
{
    let m = match migration {
        Some(m) => m,
        None => {
            return Err(
                ApiError::with_message(
                    404,
                    "NotFound",
                    with_number("Migration version ", version as i64, " not found"),
                ),
            );
        },
    };
    if m.rolled_back {
        return Err(
            ApiError::with_message(
                409,
                "AlreadyRolledBack",
                with_number("Migration version ", version as i64, " has already been rolled back"),
            ),
        );
    }
    let (down_sql, recorded) = match script {
        Some(s) => s,
        None => {
            return Err(
                ApiError::with_message(
                    404,
                    "NoRollbackScript",
                    with_number("No rollback script found for migration version ", version as i64, ""),
                ),
            );
        },
    };
    let actual = compute_checksum(down_sql);
    if !str_eq(actual.as_str(), recorded) {
        let mut m = with_number(
            "Rollback script checksum mismatch for version ",
            version as i64,
            ". Expected: ",
        );
        m.append(recorded);
        m.append(", Got: ");
        m.append(actual.as_str());
        return Err(ApiError::with_message(409, "ChecksumMismatch", m));
    }
    Ok(())
}

// ── Status and validation reports ────────────────────────────────────────

/// Versions in `first..=last` that the list lacks.
pub open spec fn gaps_spec(versions: Seq<i32>, first: int, last: int) -> Seq<i32>
    decreases last - first + 1,
{
    if last < first {
        Seq::empty()
    } else if versions.contains(last as i32) {
        gaps_spec(versions, first, last - 1)
    } else {
        gaps_spec(versions, first, last - 1).push(last as i32)
    }
}

/// The missing versions between the first and last of a version list
/// (ordered as recorded).
pub open spec fn missing_versions_spec(versions: Seq<i32>) -> Seq<i32> {
    if versions.len() == 0 {
        Seq::empty()
    } else {
        gaps_spec(versions, versions[0] as int, versions.last() as int)
    }
}

fn contains_version(versions: &Vec<i32>, v: i32) -> (r: bool)
    ensures
        r == versions@.contains(v),
{
    let mut i: usize = 0;
    while i < versions.len()
        invariant
            i <= versions@.len(),
            forall|j: int| 0 <= j < i ==> versions@[j] != v,
        decreases versions@.len() - i,
    {
        if versions[i] == v {
            assert(versions@[i as int] == v);
            return true;
        }
        i = i + 1;
    }
    false
}

/// The versions missing between the first and last active version.
pub fn missing_versions(versions: &Vec<i32>) -> (m: Vec<i32>)
    ensures
        m@ == missing_versions_spec(versions@),
{
    let mut out: Vec<i32> = Vec::new();
    if versions.len() == 0 {
        return out;
    }
    let first = versions[0];
    let last = versions[versions.len() - 1];
    if last < first {
        return out;
    }
    let mut v: i32 = first;
    assert(gaps_spec(versions@, first as int, first - 1) =~= Seq::<i32>::empty());
    loop
        invariant
            versions@.len() > 0,
            first <= v <= last,
            first == versions@[0],
            last == versions@.last(),
            out@ == gaps_spec(versions@, first as int, v - 1),
        decreases last - v,
    {
        if !contains_version(versions, v) {
            out.push(v);
        }
        if v == last {
            return out;
        }
        v = v + 1;
    }
}

/// "Gap detected" warnings for the missing active versions.
pub fn gap_warnings(active_versions: &Vec<i32>) -> (w: Vec<String>)
    ensures
        w@.len() == missing_versions_spec(active_versions@).len(),
        forall|i: int| 0 <= i < w@.len() ==> #[trigger] w@[i]@ == "Gap detected: version "@
            + i64_decimal_chars(missing_versions_spec(active_versions@)[i] as i64) + " is missing"@,
{
    let missing = missing_versions(active_versions);
    let mut w: Vec<String> = Vec::new();
    let mut i: usize = 0;
    while i < missing.len()
        invariant
            i <= missing@.len(),
            missing@ == missing_versions_spec(active_versions@),
            w@.len() == i,
            forall|j: int| 0 <= j < i ==> #[trigger] w@[j]@ == "Gap detected: version "@
                + i64_decimal_chars(missing@[j] as i64) + " is missing"@,
        decreases missing@.len() - i,
    {
        w.push(with_number("Gap detected: version ", missing[i] as i64, " is missing"));
        i = i + 1;
    }
    w
}

/// A recorded version: its number and whether it was rolled back.
#[derive(Debug, Clone, Copy, PartialEq, Eq)]
pub struct VersionRecord {
    pub version: i32,
    pub rolled_back: bool,
}

/// Counts over the recorded versions.
pub struct VersionSummary {
    pub current_version: Option<i32>,
    pub total_applied: i64,
    pub total_rolled_back: i64,
    pub active_versions: Vec<i32>,
}

/// The active versions, in recorded order.
pub open spec fn active_spec(records: Seq<VersionRecord>) -> Seq<i32>
    decreases records.len(),
{
    if records.len() == 0 {
        Seq::empty()
    } else if records.last().rolled_back {
        active_spec(records.drop_last())
    } else {
        active_spec(records.drop_last()).push(records.last().version)
    }
}

/// The largest active version.
pub open spec fn max_active(records: Seq<VersionRecord>) -> Option<i32>
    decreases records.len(),
{
    if records.len() == 0 {
        None
    } else {
        let rest = max_active(records.drop_last());
        if records.last().rolled_back {
            rest
        } else {
            match rest {
                Some(m) => if records.last().version > m {
                    Some(records.last().version)
                } else {
                    Some(m)
                },
                None => Some(records.last().version),
            }
        }
    }
}

/// The current (largest active) version, the applied and rolled-back
/// counts, and the active versions in order.
pub fn summarize_versions(records: &Vec<VersionRecord>) -> (s: VersionSummary)
    requires
        records@.len() <= i64::MAX,
    ensures
        s.current_version == max_active(records@),
        s.active_versions@ == active_spec(records@),
        s.total_applied == active_spec(records@).len(),
        s.total_applied + s.total_rolled_back == records@.len(),
{
    let mut current: Option<i32> = None;
    let mut active: Vec<i32> = Vec::new();
    let mut rolled: i64 = 0;
    let mut i: usize = 0;
    while i < records.len()
        invariant
            i <= records@.len(),
            records@.len() <= i64::MAX,
            current == max_active(records@.take(i as int)),
            active@ == active_spec(records@.take(i as int)),
            rolled >= 0,
            active@.len() + rolled == i,
        decreases records@.len() - i,
    {
        assert(records@.take(i + 1).drop_last() =~= records@.take(i as int));
        let r = records[i];
        if r.rolled_back {
            rolled = rolled + 1;
        } else {
            active.push(r.version);
            current = match current {
                Some(m) => if r.version > m {
                    Some(r.version)
                } else {
                    Some(m)
                },
                None => Some(r.version),
            };
        }
        i = i + 1;
    }
    assert(records@.take(i as int) =~= records@);
    assert(active@.len() <= i64::MAX);
    VersionSummary {
        current_version: current,
        total_applied: active.len() as i64,
        total_rolled_back: rolled,
        active_versions: active,
    }
}

/// A rollback script as recorded.
pub struct RollbackScript {
    pub version: i32,
    pub down_sql: String,
    pub checksum: String,
}

/// A mismatch entry describes a script whose content no longer has its
/// recorded checksum.
pub open spec fn mismatch_of(m: ChecksumMismatch, s: RollbackScript) -> bool {
    &&& s.version == m.version
    &&& m.expected_checksum == s.checksum
    &&& m.actual_checksum@ == checksum_spec(s.down_sql@)
    &&& checksum_spec(s.down_sql@) != s.checksum@
}

pub open spec fn script_changed(s: RollbackScript) -> bool {
    checksum_spec(s.down_sql@) != s.checksum@
}

/// Every mismatch entry describes some script.
pub open spec fn mismatches_sound(ms: Seq<ChecksumMismatch>, scripts: Seq<RollbackScript>) -> bool {
    forall|k: int| 0 <= k < ms.len() ==> #[trigger] mismatch_found(ms[k], scripts)
}

/// Some script is the one a mismatch entry describes.
pub open spec fn mismatch_found(m: ChecksumMismatch, scripts: Seq<RollbackScript>) -> bool {
    exists|j: int| 0 <= j < scripts.len() && #[trigger] mismatch_of(m, scripts[j])
}

proof fn lemma_mismatches_sound(ms: Seq<ChecksumMismatch>, scripts: Seq<RollbackScript>, src: Seq<int>)
    requires
        src.len() == ms.len(),
        forall|k: int| 0 <= k < ms.len() ==> 0 <= #[trigger] src[k] < scripts.len() && mismatch_of(
            ms[k],
            scripts[src[k]],
        ),
    ensures
        mismatches_sound(ms, scripts),
{
    assert forall|k: int| 0 <= k < ms.len() implies #[trigger] mismatch_found(ms[k], scripts) by {
        let j = src[k];
        assert(0 <= j < scripts.len() && mismatch_of(ms[k], scripts[j]));
    }
}

/// Every changed script has a mismatch entry.
pub open spec fn mismatches_complete(ms: Seq<ChecksumMismatch>, scripts: Seq<RollbackScript>) -> bool {
    forall|j: int| 0 <= j < scripts.len() && #[trigger] script_changed(scripts[j]) ==> exists|k: int|
        0 <= k < ms.len() && #[trigger] ms[k].version == scripts[j].version
}

/// The consistency report: scripts whose checksum changed, versions
/// missing between the first and last active one; valid when neither
/// occurs.
pub fn validation_report(active_versions: &Vec<i32>, scripts: &Vec<RollbackScript>) -> (r:
    MigrationValidationResponse)
    ensures
        r.missing@ == missing_versions_spec(active_versions@),
        mismatches_sound(r.mismatches@, scripts@),
        mismatches_complete(r.mismatches@, scripts@),
        r.valid == (r.mismatches@.len() == 0 && r.missing@.len() == 0),
{
    let missing = missing_versions(active_versions);
    let mut mismatches: Vec<ChecksumMismatch> = Vec::new();
    let ghost mut src: Seq<int> = Seq::empty();
    let ghost mut hit: Seq<int> = Seq::empty();
    let mut i: usize = 0;
    while i < scripts.len()
        invariant
            i <= scripts@.len(),
            src.len() == mismatches@.len(),
            hit.len() == i,
            forall|k: int| 0 <= k < mismatches@.len() ==> 0 <= #[trigger] src[k] < i && mismatch_of(
                mismatches@[k],
                scripts@[src[k]],
            ),
            forall|j: int| 0 <= j < i && #[trigger] script_changed(scripts@[j]) ==> 0 <= hit[j]
                < mismatches@.len() && mismatches@[hit[j]].version == scripts@[j].version,
        decreases scripts@.len() - i,
    {
        let s = &scripts[i];
        let actual = compute_checksum(s.down_sql.as_str());
        if !str_eq(actual.as_str(), s.checksum.as_str()) {
            let filename = with_number("rollback_v", s.version as i64, "");
            let m = ChecksumMismatch {
                version: s.version,
                filename,
                expected_checksum: s.checksum.clone(),
                actual_checksum: actual,
            };
            assert(mismatch_of(m, scripts@[i as int]));
            proof {
                hit = hit.push(mismatches@.len() as int);
                src = src.push(i as int);
            }
            mismatches.push(m);
        } else {
            assert(!script_changed(scripts@[i as int]));
            proof {
                hit = hit.push(0);
            }
        }
        i = i + 1;
    }
    let valid = mismatches.len() == 0 && missing.len() == 0;
    let report = MigrationValidationResponse { valid, mismatches, missing };
    let ghost ms = report.mismatches@;
    proof {
        lemma_mismatches_sound(ms, scripts@, src);
    }
    assert forall|j: int| 0 <= j < scripts@.len() && #[trigger] script_changed(scripts@[j]) implies exists|k: int|
        0 <= k < ms.len() && #[trigger] ms[k].version == scripts@[j].version by {
        assert(ms[hit[j]].version == scripts@[j].version);
    }
    assert(mismatches_sound(ms, scripts@));
    assert(mismatches_complete(ms, scripts@));
    report
}

/// Page of the audit log: 1 to 500 entries (50 by default) from a
/// non-negative offset.
pub fn audit_page(limit: Option<i64>, offset: Option<i64>) -> (r: (i64, i64))
    ensures
        r.0 == (match limit {
            Some(l) => if l < 1 {
                1
            } else if l > 500 {
                500
            } else {
                l
            },
            None => 50,
        }),
        r.1 == (match offset {
            Some(o) => if o < 0 {
                0
            } else {
                o
            },
            None => 0,
        }),
{
    let l = match limit {
        Some(l) => l,
        None => 50,
    };
    let l = if l < 1 {
        1
    } else if l > 500 {
        500
    } else {
        l
    };
    let o = match offset {
        Some(o) => o,
        None => 0,
    };
    let o = if o < 0 {
        0
    } else {
        o
    };
    (l, o)
}

} // verus!
