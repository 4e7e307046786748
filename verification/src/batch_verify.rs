//! Batch verification of registered contracts: size limits, the verdict
//! for each contract once its checks have run, and the job that collects
//! the verdicts.

use vstd::prelude::*;
use vstd::string::*;
use std::collections::HashMap;
use crate::text::{str_eq, trim, trim_str};

verus! {

broadcast use vstd::string::group_string_axioms, vstd::std_specs::hash::group_hash_axioms;

/// Most contracts verified inline in one request.
pub const SYNC_BATCH_LIMIT: usize = 50;

/// Most contracts in one background job.
pub const MAX_JOB_BATCH: usize = 500;

/// Why a batch is refused before any work.
#[derive(Debug, Clone, Copy, PartialEq, Eq)]
pub enum BatchRejection {
    Empty,
    TooLarge { limit: usize, submitted: usize },
}

/// A batch must hold at least one and at most `limit` contracts.
pub fn check_batch_size(submitted: usize, limit: usize) -> (r: Result<(), BatchRejection>)
    ensures
        submitted == 0 ==> r == Err::<(), BatchRejection>(BatchRejection::Empty),
        0 < submitted <= limit ==> r is Ok,
        0 < submitted && submitted > limit ==> r == Err::<(), BatchRejection>(
            BatchRejection::TooLarge { limit, submitted },
        ),
{
    if submitted == 0 {
        Err(BatchRejection::Empty)
    } else if submitted > limit {
        Err(BatchRejection::TooLarge { limit, submitted })
    } else {
        Ok(())
    }
}

/// State of a background job.
#[derive(Debug, Clone, Copy, PartialEq, Eq)]
pub enum BatchJobStatus {
    Pending,
    Processing,
    Completed,
    Failed,
    PartialFailure,
}

/// The verdict on one contract of a job.
#[derive(Debug, Clone, PartialEq, Eq)]
pub struct BatchItemResult {
    pub contract_id: String,
    pub verified: bool,
    pub error: Option<String>,
    pub network: Option<String>,
    pub wasm_hash_matches: Option<bool>,
    pub abi_valid: Option<bool>,
}

/// What the on-chain check reported for a contract.
#[derive(Debug, Clone, PartialEq, Eq)]
pub struct OnChainSummary {
    pub contract_exists_on_chain: bool,
    pub wasm_hash_matches: bool,
    pub abi_valid: bool,
    pub failure_reasons: Vec<String>,
}

/// Number of verified results.
pub open spec fn count_verified(r: Seq<bool>) -> nat
    decreases r.len(),
{
    if r.len() == 0 {
        0
    } else {
        count_verified(r.drop_last()) + if r.last() {
            1nat
        } else {
            0nat
        }
    }
}

proof fn lemma_count_verified_le(r: Seq<bool>)
    ensures
        count_verified(r) <= r.len(),
    decreases r.len(),
{
    if r.len() > 0 {
        lemma_count_verified_le(r.drop_last());
    }
}

/// The status of a finished job: completed when nothing failed, failed
/// when nothing was verified, partial otherwise.
pub open spec fn job_status_spec(verified: nat, failed: nat) -> BatchJobStatus {
    if failed == 0 {
        BatchJobStatus::Completed
    } else if verified == 0 {
        BatchJobStatus::Failed
    } else {
        BatchJobStatus::PartialFailure
    }
}

pub open spec fn verdicts(results: Seq<BatchItemResult>) -> Seq<bool> {
    results.map_values(|r: BatchItemResult| r.verified)
}

/// Counts and status of a finished job's results.
pub fn summarize_results(results: &Vec<BatchItemResult>) -> (r: (usize, usize, BatchJobStatus))
    ensures
        r.0 == count_verified(verdicts(results@)),
        r.1 == results@.len() - count_verified(verdicts(results@)),
        r.2 == job_status_spec(r.0 as nat, r.1 as nat),
{
    let mut verified: usize = 0;
    let mut i: usize = 0;
    while i < results.len()
        invariant
            i <= results@.len(),
            verified == count_verified(verdicts(results@).take(i as int)),
            verified <= i,
        decreases results@.len() - i,
    {
        assert(verdicts(results@).take(i + 1).drop_last() =~= verdicts(results@).take(i as int));
        if results[i].verified {
            verified = verified + 1;
        }
        i = i + 1;
    }
    assert(verdicts(results@).take(i as int) =~= verdicts(results@));
    let failed = results.len() - verified;
    let status = if failed == 0 {
        BatchJobStatus::Completed
    } else if verified == 0 {
        BatchJobStatus::Failed
    } else {
        BatchJobStatus::PartialFailure
    };
    (verified, failed, status)
}

/// A source check is run when non-blank source code and a compiler
/// version are both given.
pub open spec fn source_check_wanted(source: Option<Seq<char>>, compiler: Option<Seq<char>>) -> bool {
    source matches Some(s) && trim(s).len() > 0 && compiler is Some
}

pub fn wants_source_check(source_code: Option<&str>, compiler_version: Option<&str>) -> (r: bool)
    ensures
        r == source_check_wanted(opt_view(source_code), opt_view(compiler_version)),
{
    match (source_code, compiler_version) {
        (Some(s), Some(_)) => trim_str(s).unicode_len() > 0,
        _ => false,
    }
}

pub open spec fn opt_view(s: Option<&str>) -> Option<Seq<char>> {
    match s {
        Some(x) => Some(x@),
        None => None,
    }
}

/// `parts` joined with `"; "`.
pub open spec fn join_reasons(parts: Seq<Seq<char>>) -> Seq<char>
    decreases parts.len(),
{
    if parts.len() == 0 {
        Seq::empty()
    } else if parts.len() == 1 {
        parts[0]
    } else {
        join_reasons(parts.drop_last()) + "; "@ + parts.last()
    }
}

fn join_with_semicolons(parts: &Vec<String>) -> (j: String)
    ensures
        j@ == join_reasons(parts@.map_values(|p: String| p@)),
{
    let mut j = String::new();
    let mut i: usize = 0;
    while i < parts.len()
        invariant
            i <= parts@.len(),
            j@ == join_reasons(parts@.map_values(|p: String| p@).take(i as int)),
        decreases parts@.len() - i,
    {
        let ghost next = parts@.map_values(|p: String| p@).take(i + 1);
        assert(next.drop_last() =~= parts@.map_values(|p: String| p@).take(i as int));
        if i > 0 {
            j.append("; ");
        } else {
            assert(parts@.map_values(|p: String| p@).take(0) =~= Seq::<Seq<char>>::empty());
        }
        j.append(parts[i].as_str());
        i = i + 1;
    }
    assert(parts@.map_values(|p: String| p@).take(i as int) =~= parts@.map_values(|p: String| p@));
    j
}

/// The verdict on a registered contract once its on-chain check (and the
/// source check, `source_ok`, `true` when none was wanted) came back:
/// verified when it exists on chain, its hash and ABI match, and the
/// source check passed; otherwise the reasons the on-chain check gave,
/// joined by `; `, if there are any.
pub fn item_verdict(
    contract_id: String,
    network: String,
    on_chain: &OnChainSummary,
    source_ok: bool,
) -> (r: BatchItemResult)
    ensures
        r.contract_id == contract_id,
        r.verified == (on_chain.contract_exists_on_chain && on_chain.wasm_hash_matches
            && on_chain.abi_valid && source_ok),
        r.verified ==> r.error is None,
        !r.verified ==> (if on_chain.failure_reasons@.len() == 0 {
            r.error is None
        } else {
            r.error matches Some(e) && e@ == join_reasons(
                on_chain.failure_reasons@.map_values(|p: String| p@),
            )
        }),
        r.network == Some(network),
        r.wasm_hash_matches == Some(on_chain.wasm_hash_matches),
        r.abi_valid == Some(on_chain.abi_valid),
{
    let verified = on_chain.contract_exists_on_chain && on_chain.wasm_hash_matches
        && on_chain.abi_valid && source_ok;
    let error = if !verified && on_chain.failure_reasons.len() > 0 {
        Some(join_with_semicolons(&on_chain.failure_reasons))
    } else {
        None
    };
    BatchItemResult {
        contract_id,
        verified,
        error,
        network: Some(network),
        wasm_hash_matches: Some(on_chain.wasm_hash_matches),
        abi_valid: Some(on_chain.abi_valid),
    }
}

/// The verdict when the contract is not in the registry, or its lookup or
/// on-chain check failed with `message` (`network` known once the
/// contract was found).
pub fn failed_item(contract_id: String, message: String, network: Option<String>) -> (r:
    BatchItemResult)
    ensures
        r.contract_id == contract_id,
        !r.verified,
        r.error == Some(message),
        r.network == network,
        r.wasm_hash_matches is None,
        r.abi_valid is None,
{
    BatchItemResult {
        contract_id,
        verified: false,
        error: Some(message),
        network,
        wasm_hash_matches: None,
        abi_valid: None,
    }
}

// ── Inline verification levels ───────────────────────────────────────────

/// How thoroughly an inline request verifies.
#[derive(Debug, Clone, Copy, PartialEq, Eq)]
pub enum VerifyLevel {
    /// On-chain existence and bytecode hash only.
    Basic,
    /// On-chain checks, and the source when given.
    Standard,
    /// Like standard, but source and compiler version are required.
    Strict,
    /// Any other level name: checked like standard.
    Other,
}

/// The level a request names (`standard` when it names none).
pub open spec fn level_spec(level: Option<Seq<char>>) -> VerifyLevel {
    match level {
        None => VerifyLevel::Standard,
        Some(l) => if l == "basic"@ {
            VerifyLevel::Basic
        } else if l == "strict"@ {
            VerifyLevel::Strict
        } else if l == "standard"@ {
            VerifyLevel::Standard
        } else {
            VerifyLevel::Other
        },
    }
}

pub fn parse_level(level: Option<&str>) -> (r: VerifyLevel)
    ensures
        r == level_spec(opt_view(level)),
{
    match level {
        None => VerifyLevel::Standard,
        Some(l) => if str_eq(l, "basic") {
            VerifyLevel::Basic
        } else if str_eq(l, "strict") {
            VerifyLevel::Strict
        } else if str_eq(l, "standard") {
            VerifyLevel::Standard
        } else {
            VerifyLevel::Other
        },
    }
}

pub open spec fn strict_inputs_spec(source: Option<Seq<char>>, compiler: Option<Seq<char>>) -> bool {
    match (source, compiler) {
        (Some(s), Some(c)) => trim(s).len() > 0 && trim(c).len() > 0,
        _ => false,
    }
}

/// A strict request must carry non-blank source code and compiler version.
pub fn strict_inputs_present(source_code: Option<&str>, compiler_version: Option<&str>) -> (r: bool)
    ensures
        r == strict_inputs_spec(opt_view(source_code), opt_view(compiler_version)),
{
    match (source_code, compiler_version) {
        (Some(s), Some(c)) => trim_str(s).unicode_len() > 0 && trim_str(c).unicode_len() > 0,
        _ => false,
    }
}

/// Verdict of a basic check: exists on chain with a matching hash.
pub fn basic_verdict(on_chain: &OnChainSummary) -> (r: bool)
    ensures
        r == (on_chain.contract_exists_on_chain && on_chain.wasm_hash_matches),
{
    on_chain.contract_exists_on_chain && on_chain.wasm_hash_matches
}

/// Verdict of a standard or strict check; `source` is the source check's
/// answer (`None` when none ran, `Some(None)` when it errored).
pub fn full_verdict(on_chain: &OnChainSummary, source: Option<Option<bool>>) -> (r: bool)
    ensures
        r == (on_chain.contract_exists_on_chain && on_chain.wasm_hash_matches && on_chain.abi_valid
            && match source {
            None => true,
            Some(None) => false,
            Some(Some(v)) => v,
        }),
{
    on_chain.contract_exists_on_chain && on_chain.wasm_hash_matches && on_chain.abi_valid
        && match source {
        None => true,
        Some(None) => false,
        Some(Some(v)) => v,
    }
}

// ── Job store ────────────────────────────────────────────────────────────

/// A background job's record.
#[derive(Debug, Clone, PartialEq, Eq)]
pub struct BatchJob {
    pub status: BatchJobStatus,
    pub total: usize,
    pub verified: usize,
    pub failed: usize,
    pub completed_at: Option<i64>,
    pub results: Vec<BatchItemResult>,
}

/// Background jobs by id.
pub struct BatchJobStore {
    jobs: HashMap<u128, BatchJob>,
}

impl BatchJobStore {
    pub closed spec fn view(&self) -> Map<u128, BatchJob> {
        self.jobs@
    }

    pub fn new() -> (s: Self)
        ensures
            s.view() == Map::<u128, BatchJob>::empty(),
    {
        BatchJobStore { jobs: HashMap::new() }
    }

    /// Records a submitted job of `total` contracts, already processing.
    pub fn submit(&mut self, job_id: u128, total: usize)
        ensures
            final(self).view() == old(self).view().insert(
                job_id,
                final(self).view()[job_id],
            ),
            final(self).view()[job_id].status == BatchJobStatus::Processing,
            final(self).view()[job_id].total == total,
            final(self).view()[job_id].verified == 0,
            final(self).view()[job_id].failed == 0,
            final(self).view()[job_id].completed_at is None,
            final(self).view()[job_id].results@.len() == 0,
    {
        self.jobs.insert(
            job_id,
            BatchJob {
                status: BatchJobStatus::Processing,
                total,
                verified: 0,
                failed: 0,
                completed_at: None,
                results: Vec::new(),
            },
        );
    }

    /// Stores a finished job's results with their counts and status; an
    /// unknown job is left alone.
    pub fn complete(&mut self, job_id: u128, results: Vec<BatchItemResult>, now: i64)
        ensures
            !old(self).view().contains_key(job_id) ==> final(self).view() == old(self).view(),
            old(self).view().contains_key(job_id) ==> ({
                let j = final(self).view()[job_id];
                &&& final(self).view() == old(self).view().insert(job_id, j)
                &&& j.total == old(self).view()[job_id].total
                &&& j.results == results
                &&& j.verified == count_verified(verdicts(results@))
                &&& j.verified + j.failed == results@.len()
                &&& j.status == job_status_spec(j.verified as nat, j.failed as nat)
                &&& j.completed_at == Some(now)
            }),
    {
        let total = match self.jobs.get(&job_id) {
            Some(j) => j.total,
            None => {
                return;
            },
        };
        let (verified, failed, status) = summarize_results(&results);
        self.jobs.insert(
            job_id,
            BatchJob { status, total, verified, failed, completed_at: Some(now), results },
        );
    }

    /// The record of a job, if there is one.
    pub fn get(&self, job_id: u128) -> (r: Option<&BatchJob>)
        ensures
            match r {
                Some(j) => self.view().contains_key(job_id) && self.view()[job_id] == *j,
                None => !self.view().contains_key(job_id),
            },
    {
        self.jobs.get(&job_id)
    }
}

/// A finished job's counts add up: every result is counted once, as
/// verified or as failed, and the status follows from the counts.
pub proof fn law_job_counts_add_up(results: Seq<BatchItemResult>)
    ensures
        count_verified(verdicts(results)) <= results.len(),
        job_status_spec(count_verified(verdicts(results)), (results.len() - count_verified(verdicts(results))) as nat)
            == BatchJobStatus::Completed <==> forall|i: int| 0 <= i < results.len() ==> #[trigger] results[i].verified,
{
    lemma_count_verified_le(verdicts(results));
    lemma_all_verified(verdicts(results));
    assert forall|i: int| 0 <= i < results.len() implies #[trigger] results[i].verified == verdicts(results)[i] by {}
}

proof fn lemma_all_verified(r: Seq<bool>)
    ensures
        count_verified(r) == r.len() <==> forall|i: int| 0 <= i < r.len() ==> #[trigger] r[i],
    decreases r.len(),
{
    lemma_count_verified_le(r);
    if r.len() > 0 {
        lemma_all_verified(r.drop_last());
        lemma_count_verified_le(r.drop_last());
        if forall|i: int| 0 <= i < r.len() ==> #[trigger] r[i] {
            assert forall|i: int| 0 <= i < r.drop_last().len() implies #[trigger] r.drop_last()[i] by {
                assert(r[i]);
            }
            assert(r[r.len() - 1]);
        }
        if count_verified(r) == r.len() {
            assert forall|i: int| 0 <= i < r.len() implies #[trigger] r[i] by {
                if i < r.len() - 1 {
                    assert(r.drop_last()[i]);
                }
            }
        }
    }
}

} // verus!
